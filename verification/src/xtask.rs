//! The developer task runner: backing up a local install. The plan (what
//! to snapshot, unload, move and reload on each operating system) is
//! decided here; running the commands and moving files is left to the
//! runner.
use vstd::prelude::*;

use crate::text::{chars_of, has_prefix, join, join_strings, push_char, push_decimal, push_str, starts_with, str_eq, views};

verus! {

/// Options of `backup-install`.
#[derive(Debug, Clone, Copy, PartialEq, Eq, Structural)]
pub struct BackupInstallArgs {
    pub dry_run: bool,
    pub yes: bool,
}

/// Outcome of reading `backup-install`'s arguments.
#[derive(Debug, Clone)]
pub enum BackupInstallParse {
    Run(BackupInstallArgs),
    Help,
    Error(String),
}

/// Options after reading the first `n` arguments, if none of them asked
/// for help or was unknown.
pub open spec fn flags_of(args: Seq<Seq<char>>) -> BackupInstallArgs
    decreases args.len(),
{
    if args.len() == 0 {
        BackupInstallArgs { dry_run: false, yes: false }
    } else {
        let prev = flags_of(args.drop_last());
        let a = args.last();
        if a == "--dry-run"@ {
            BackupInstallArgs { dry_run: true, ..prev }
        } else if a == "--yes"@ || a == "-y"@ {
            BackupInstallArgs { yes: true, ..prev }
        } else {
            prev
        }
    }
}

/// An argument `backup-install` accepts as an option.
pub open spec fn is_option(a: Seq<char>) -> bool {
    a == "--dry-run"@ || a == "--yes"@ || a == "-y"@
}

/// An argument asking for help.
pub open spec fn is_help(a: Seq<char>) -> bool {
    a == "--help"@ || a == "-h"@
}

/// Reading stops at the first argument that is not an option: help when it
/// asks for help, else an error naming it; with only options, the options.
pub open spec fn spec_parse_backup_args(args: Seq<Seq<char>>) -> (BackupInstallArgs, Option<
    (bool, Seq<char>),
>) {
    if exists|i: int| 0 <= i < args.len() && !is_option(#[trigger] args[i]) {
        let i = choose|i: int|
            0 <= i < args.len() && !is_option(#[trigger] args[i]) && forall|j: int|
                0 <= j < i ==> is_option(#[trigger] args[j]);
        (flags_of(args.take(i)), Some((is_help(args[i]), args[i])))
    } else {
        (flags_of(args), None)
    }
}

impl BackupInstallArgs {
    /// Reads the arguments of `backup-install`.
    pub fn parse(args: &Vec<String>) -> (r: BackupInstallParse)
        ensures
            ({
                let (flags, stop) = spec_parse_backup_args(views(args@));
                match stop {
                    None => r == BackupInstallParse::Run(flags),
                    Some((true, _)) => r is Help,
                    Some((false, a)) => r matches BackupInstallParse::Error(m) && m@
                        == "unknown backup-install argument: "@ + a,
                }
            }),
    {
        let ghost v = views(args@);
        let mut dry_run = false;
        let mut yes = false;
        let mut i: usize = 0;
        while i < args.len()
            invariant
                i <= args@.len(),
                v == views(args@),
                forall|j: int| 0 <= j < i ==> is_option(#[trigger] v[j]),
                flags_of(v.take(i as int)) == (BackupInstallArgs { dry_run, yes }),
            decreases args@.len() - i,
        {
            let a = args[i].as_str();
            proof {
                assert(v.take(i + 1).drop_last() =~= v.take(i as int));
                assert(v.take(i + 1).last() == a@);
            }
            if str_eq(a, "--dry-run") {
                dry_run = true;
            } else if str_eq(a, "--yes") || str_eq(a, "-y") {
                yes = true;
            } else {
                proof {
                    let k = choose|k: int|
                        0 <= k < v.len() && !is_option(#[trigger] v[k]) && forall|j: int|
                            0 <= j < k ==> is_option(#[trigger] v[j]);
                    assert(!is_option(v[i as int]));
                    assert(k == i as int) by {
                        if k < i {
                            assert(is_option(v[k]));
                        }
                        if k > i {
                            assert(is_option(v[i as int]));
                        }
                    }
                }
                if str_eq(a, "--help") || str_eq(a, "-h") {
                    return BackupInstallParse::Help;
                }
                let mut m = "unknown backup-install argument: ".to_owned();
                push_str(&mut m, a);
                return BackupInstallParse::Error(m);
            }
            i += 1;
        }
        proof {
            assert(v.take(v.len() as int) =~= v);
        }
        BackupInstallParse::Run(BackupInstallArgs { dry_run, yes })
    }
}

/// A file or directory to move into the backup, and where under the backup
/// directory it goes.
#[derive(Debug, Clone)]
pub struct MoveTarget {
    pub source: String,
    pub destination: String,
}

impl MoveTarget {
    /// A move of `source` to `destination`.
    pub fn new(source: String, destination: String) -> (r: MoveTarget)
        ensures
            r.source == source,
            r.destination == destination,
    {
        MoveTarget { source, destination }
    }
}

/// Appends a move of a directory.
pub fn push_dir_target(targets: &mut Vec<MoveTarget>, source: &str, destination: &str)
    ensures
        final(targets)@.len() == old(targets)@.len() + 1,
        final(targets)@.take(old(targets)@.len() as int) == old(targets)@,
        final(targets)@.last().source@ == source@,
        final(targets)@.last().destination@ == destination@,
{
    targets.push(MoveTarget::new(source.to_owned(), destination.to_owned()));
    assert(targets@.take(old(targets)@.len() as int) =~= old(targets)@);
}

/// Positions of the targets kept: not under the workspace backups, present
/// on disk, and the first with their source.
pub open spec fn kept_targets(
    sources: Seq<Seq<char>>,
    in_backups: Seq<bool>,
    exists: Seq<bool>,
    n: int,
) -> Seq<int>
    decreases n,
{
    if n <= 0 {
        seq![]
    } else {
        let prev = kept_targets(sources, in_backups, exists, n - 1);
        let i = n - 1;
        if !in_backups[i] && exists[i] && forall|j: int|
            0 <= j < i && !in_backups[j] ==> #[trigger] sources[j] != sources[i] {
            prev.push(i)
        } else {
            prev
        }
    }
}

/// The targets to move: targets under the workspace backups are left out,
/// and of targets with the same source only the first, when it exists.
/// `in_backups[i]` and `exists[i]` describe target `i`.
pub fn dedupe_targets(targets: Vec<MoveTarget>, in_backups: &Vec<bool>, exists: &Vec<bool>) -> (r:
    Vec<MoveTarget>)
    requires
        in_backups@.len() == targets@.len(),
        exists@.len() == targets@.len(),
    ensures
        r@ == kept_targets(
            targets@.map_values(|t: MoveTarget| t.source@),
            in_backups@,
            exists@,
            targets@.len() as int,
        ).map_values(|i: int| targets@[i]),
{
    let ghost srcs = targets@.map_values(|t: MoveTarget| t.source@);
    let mut out: Vec<MoveTarget> = Vec::new();
    let mut i: usize = 0;
    while i < targets.len()
        invariant
            i <= targets@.len(),
            in_backups@.len() == targets@.len(),
            exists@.len() == targets@.len(),
            srcs == targets@.map_values(|t: MoveTarget| t.source@),
            out@ == kept_targets(srcs, in_backups@, exists@, i as int).map_values(
                |k: int| targets@[k],
            ),
        decreases targets@.len() - i,
    {
        let mut seen = false;
        let mut j: usize = 0;
        while j < i
            invariant
                j <= i < targets@.len(),
                in_backups@.len() == targets@.len(),
                srcs == targets@.map_values(|t: MoveTarget| t.source@),
                seen == exists|k: int|
                    0 <= k < j && !in_backups@[k] && #[trigger] srcs[k] == srcs[i as int],
            decreases i - j,
        {
            proof {
                assert(srcs[j as int] == targets@[j as int].source@);
                assert(srcs[i as int] == targets@[i as int].source@);
            }
            if !in_backups[j] && str_eq(targets[j].source.as_str(), targets[i].source.as_str()) {
                seen = true;
            }
            j += 1;
        }
        if !in_backups[i] && exists[i] && !seen {
            let ghost before = out@;
            out.push(targets[i].clone_target());
            proof {
                assert(out@ =~= kept_targets(srcs, in_backups@, exists@, i + 1).map_values(
                    |k: int| targets@[k],
                ));
            }
        } else {
            proof {
                assert(kept_targets(srcs, in_backups@, exists@, i + 1) == kept_targets(
                    srcs,
                    in_backups@,
                    exists@,
                    i as int,
                ));
            }
        }
        i += 1;
    }
    out
}

impl MoveTarget {
    /// An equal copy.
    pub fn clone_target(&self) -> (r: MoveTarget)
        ensures
            r == *self,
    {
        MoveTarget { source: self.source.clone(), destination: self.destination.clone() }
    }
}

/// Operating systems the install backup knows how to handle.
#[derive(Debug, Clone, Copy, PartialEq, Eq, Structural)]
pub enum TargetOs {
    Macos,
    Linux,
    Windows,
    Other,
}

/// Names of the installed files in a binary directory.
pub fn binary_names(windows: bool) -> (r: Vec<&'static str>)
    ensures
        r@.map_values(|s: &str| s@) == if windows {
            seq!["daemon8.exe"@, "daemon8-mcp-server.exe"@, "LICENSE-daemon8"@]
        } else {
            seq!["daemon8"@, "daemon8-mcp-server"@, "LICENSE-daemon8"@]
        },
{
    let r = if windows {
        vec!["daemon8.exe", "daemon8-mcp-server.exe", "LICENSE-daemon8"]
    } else {
        vec!["daemon8", "daemon8-mcp-server", "LICENSE-daemon8"]
    };
    assert(r@.map_values(|s: &str| s@) =~= if windows {
        seq!["daemon8.exe"@, "daemon8-mcp-server.exe"@, "LICENSE-daemon8"@]
    } else {
        seq!["daemon8"@, "daemon8-mcp-server"@, "LICENSE-daemon8"@]
    });
    r
}

/// A file left behind by earlier self-updates.
pub open spec fn spec_is_backup_binary(name: Seq<char>) -> bool {
    starts_with(name, "daemon8.bak"@) || starts_with(name, "daemon8.prev"@) || starts_with(
        name,
        "daemon8.v1.bak"@,
    )
}

/// Whether a file name is a leftover backup of the daemon binary.
pub fn is_daemon8_backup_binary(name: &str) -> (r: bool)
    ensures
        r == spec_is_backup_binary(name@),
{
    let n = chars_of(name);
    let a = chars_of("daemon8.bak");
    let b = chars_of("daemon8.prev");
    let c = chars_of("daemon8.v1.bak");
    has_prefix(n.as_slice(), a.as_slice()) || has_prefix(n.as_slice(), b.as_slice()) || has_prefix(
        n.as_slice(),
        c.as_slice(),
    )
}

/// A character kept as it is in a path component; others become `_`.
pub open spec fn safe_char(c: char) -> char {
    if ('A' <= c && c <= 'Z') || ('a' <= c && c <= 'z') || ('0' <= c && c <= '9') || c == '-'
        || c == '_' || c == '.' {
        c
    } else {
        '_'
    }
}

/// A displayed path as one file name: letters, digits, `-`, `_` and `.`
/// are kept, every other character becomes `_`.
pub fn safe_component(path: &str) -> (r: String)
    ensures
        r@ == path@.map_values(|c: char| safe_char(c)),
{
    let cs = chars_of(path);
    let mut out = String::new();
    let mut i: usize = 0;
    while i < cs.len()
        invariant
            i <= cs@.len(),
            cs@ == path@,
            out@ == cs@.take(i as int).map_values(|c: char| safe_char(c)),
        decreases cs@.len() - i,
    {
        let c = cs[i];
        let k = if ('A' <= c && c <= 'Z') || ('a' <= c && c <= 'z') || ('0' <= c && c <= '9') || c
            == '-' || c == '_' || c == '.' {
            c
        } else {
            '_'
        };
        push_char(&mut out, k);
        proof {
            assert(out@ =~= cs@.take(i + 1).map_values(|c: char| safe_char(c)));
        }
        i += 1;
    }
    proof {
        assert(cs@.take(cs@.len() as int) =~= cs@);
    }
    out
}

/// Arguments joined by single spaces.
pub fn join_args(args: &Vec<String>) -> (r: String)
    ensures
        r@ == join(views(args@), " "@),
{
    join_strings(args, " ")
}

/// Name of the backup directory for a timestamp: `install-<secs>`.
pub fn backup_dir_name(unix_secs: u64) -> (r: String)
    ensures
        r@ == "install-"@ + crate::text::decimal(unix_secs as nat),
{
    let mut s = "install-".to_owned();
    push_decimal(&mut s, unix_secs);
    s
}

/// A command the backup runs: output file name (for snapshots), program
/// and arguments.
#[derive(Debug, Clone)]
pub struct ServiceCommand {
    pub filename: String,
    pub command: String,
    pub args: Vec<String>,
}

/// The contents of a service command.
pub open spec fn command_view(c: ServiceCommand) -> (Seq<char>, Seq<char>, Seq<Seq<char>>) {
    (c.filename@, c.command@, views(c.args@))
}

/// The contents of a list of service commands.
pub open spec fn commands_view(cs: Seq<ServiceCommand>) -> Seq<(Seq<char>, Seq<char>, Seq<Seq<char>>)> {
    cs.map_values(|c: ServiceCommand| command_view(c))
}

/// A service command from its parts.
fn service_command(filename: &str, command: &str, args: Vec<&str>) -> (r: ServiceCommand)
    ensures
        command_view(r) == (filename@, command@, args@.map_values(|s: &str| s@)),
{
    let mut owned: Vec<String> = Vec::new();
    let mut i: usize = 0;
    while i < args.len()
        invariant
            i <= args@.len(),
            views(owned@) == args@.take(i as int).map_values(|s: &str| s@),
        decreases args@.len() - i,
    {
        let ghost before = owned@;
        let x = args[i].to_owned();
        owned.push(x);
        proof {
            assert(views(owned@) =~= views(before).push(x@));
            assert(args@.take(i + 1).map_values(|s: &str| s@) =~= args@.take(i as int).map_values(
                |s: &str| s@,
            ).push(args@[i as int]@));
        }
        i += 1;
    }
    proof {
        assert(args@.take(args@.len() as int) =~= args@);
    }
    ServiceCommand { filename: filename.to_owned(), command: command.to_owned(), args: owned }
}

/// What the service looks like before the backup is recorded with: the
/// launchd job (when the user's launchd domain is known), the systemd
/// unit's status, or the scheduled task's XML.
pub open spec fn spec_service_snapshots(os: TargetOs, domain: Option<Seq<char>>) -> Seq<
    (Seq<char>, Seq<char>, Seq<Seq<char>>),
> {
    match os {
        TargetOs::Macos => match domain {
            Some(d) => seq![
                ("launchctl-before.txt"@, "launchctl"@, seq!["print"@, d + "/dev.daemon8.daemon"@]),
            ],
            None => seq![],
        },
        TargetOs::Linux => seq![
            ("systemctl-before.txt"@, "systemctl"@, seq!["--user"@, "status"@, "daemon8"@]),
        ],
        TargetOs::Windows => seq![
            (
                "schtasks-before.xml"@,
                "schtasks"@,
                seq!["/Query"@, "/TN"@, "Daemon8"@, "/XML"@],
            ),
        ],
        TargetOs::Other => seq![],
    }
}

/// The commands that record the service before the backup.
pub fn service_snapshots(os: TargetOs, domain: Option<&str>) -> (r: Vec<ServiceCommand>)
    ensures
        commands_view(r@) == spec_service_snapshots(
            os,
            match domain {
                Some(d) => Some(d@),
                None => None,
            },
        ),
{
    let mut r: Vec<ServiceCommand> = Vec::new();
    match os {
        TargetOs::Macos => {
            if let Some(d) = domain {
                let mut job = d.to_owned();
                push_str(&mut job, "/dev.daemon8.daemon");
                let c = service_command("launchctl-before.txt", "launchctl", vec!["print", job.as_str()]);
                assert(command_view(c).2 =~= seq!["print"@, d@ + "/dev.daemon8.daemon"@]);
                r.push(c);
            }
        },
        TargetOs::Linux => {
            let c = service_command("systemctl-before.txt", "systemctl", vec!["--user", "status", "daemon8"]);
            assert(command_view(c).2 =~= seq!["--user"@, "status"@, "daemon8"@]);
            r.push(c);
        },
        TargetOs::Windows => {
            let c = service_command(
                "schtasks-before.xml",
                "schtasks",
                vec!["/Query", "/TN", "Daemon8", "/XML"],
            );
            assert(command_view(c).2 =~= seq!["/Query"@, "/TN"@, "Daemon8"@, "/XML"@]);
            r.push(c);
        },
        TargetOs::Other => {},
    }
    assert(commands_view(r@) =~~= spec_service_snapshots(
        os,
        match domain {
            Some(d) => Some(d@),
            None => None,
        },
    ));
    r
}

/// The commands that stop the service: launchd `bootout` of the job's
/// property list (when home and domain are known), `systemctl --user
/// disable --now daemon8`, or deleting the scheduled task.
pub open spec fn spec_service_unloads(os: TargetOs, home: Option<Seq<char>>, domain: Option<Seq<char>>) -> Seq<
    (Seq<char>, Seq<char>, Seq<Seq<char>>),
> {
    match os {
        TargetOs::Macos => match (home, domain) {
            (Some(h), Some(d)) => seq![
                (
                    seq![],
                    "launchctl"@,
                    seq!["bootout"@, d, h + "/Library/LaunchAgents/dev.daemon8.daemon.plist"@],
                ),
            ],
            _ => seq![],
        },
        TargetOs::Linux => seq![
            (seq![], "systemctl"@, seq!["--user"@, "disable"@, "--now"@, "daemon8"@]),
        ],
        TargetOs::Windows => seq![(seq![], "schtasks"@, seq!["/Delete"@, "/TN"@, "Daemon8"@, "/F"@])],
        TargetOs::Other => seq![],
    }
}

/// The commands that stop the service before files move. The home
/// directory is given without a trailing `/`.
pub fn service_unloads(os: TargetOs, home: Option<&str>, domain: Option<&str>) -> (r: Vec<
    ServiceCommand,
>)
    ensures
        commands_view(r@) == spec_service_unloads(
            os,
            match home {
                Some(h) => Some(h@),
                None => None,
            },
            match domain {
                Some(d) => Some(d@),
                None => None,
            },
        ),
{
    let mut r: Vec<ServiceCommand> = Vec::new();
    proof {
        reveal_strlit("");
    }
    match os {
        TargetOs::Macos => {
            match (home, domain) {
                (Some(h), Some(d)) => {
                    let mut plist = h.to_owned();
                    push_str(&mut plist, "/Library/LaunchAgents/dev.daemon8.daemon.plist");
                    let c = service_command("", "launchctl", vec!["bootout", d, plist.as_str()]);
                    assert(command_view(c).2 =~= seq![
                        "bootout"@,
                        d@,
                        h@ + "/Library/LaunchAgents/dev.daemon8.daemon.plist"@,
                    ]);
                    r.push(c);
                },
                _ => {},
            }
        },
        TargetOs::Linux => {
            let c = service_command("", "systemctl", vec!["--user", "disable", "--now", "daemon8"]);
            assert(command_view(c).2 =~= seq!["--user"@, "disable"@, "--now"@, "daemon8"@]);
            r.push(c);
        },
        TargetOs::Windows => {
            let c = service_command("", "schtasks", vec!["/Delete", "/TN", "Daemon8", "/F"]);
            assert(command_view(c).2 =~= seq!["/Delete"@, "/TN"@, "Daemon8"@, "/F"@]);
            r.push(c);
        },
        TargetOs::Other => {},
    }
    assert(commands_view(r@) =~~= spec_service_unloads(
        os,
        match home {
            Some(h) => Some(h@),
            None => None,
        },
        match domain {
            Some(d) => Some(d@),
            None => None,
        },
    ));
    r
}

/// The commands run after files moved: `systemctl --user daemon-reload` on
/// Linux, none elsewhere.
pub fn service_reloads(os: TargetOs) -> (r: Vec<ServiceCommand>)
    ensures
        commands_view(r@) == if os is Linux {
            seq![(Seq::<char>::empty(), "systemctl"@, seq!["--user"@, "daemon-reload"@])]
        } else {
            seq![]
        },
{
    let mut r: Vec<ServiceCommand> = Vec::new();
    proof {
        reveal_strlit("");
    }
    if os == TargetOs::Linux {
        let c = service_command("", "systemctl", vec!["--user", "daemon-reload"]);
        assert(command_view(c).2 =~= seq!["--user"@, "daemon-reload"@]);
        r.push(c);
    }
    assert(commands_view(r@) =~~= if os is Linux {
        seq![(Seq::<char>::empty(), "systemctl"@, seq!["--user"@, "daemon-reload"@])]
    } else {
        seq![]
    });
    r
}

/// The launchd domain of a user id read from `id -u`: `gui/<uid>` after
/// trimming, none when blank.
pub fn launchd_domain(uid_output: &str) -> (r: Option<String>)
    ensures
        match r {
            Some(d) => crate::text::trim(uid_output@).len() > 0 && d@ == "gui/"@
                + crate::text::trim(uid_output@),
            None => crate::text::trim(uid_output@).len() == 0,
        },
{
    let uid = crate::text::trim_string(uid_output);
    if uid.as_str().is_empty() {
        None
    } else {
        let mut d = "gui/".to_owned();
        push_str(&mut d, uid.as_str());
        Some(d)
    }
}

} // verus!
