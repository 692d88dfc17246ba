//! Service and tool setup: where each service manager records the daemon
//! binary, and how AI tools are pointed at the daemon's MCP endpoint.
use vstd::prelude::*;

use crate::json::{
    json_array, json_from_str, json_get, json_is_object, json_object, json_pretty, json_string,
    json_with_member, spec_json_array, spec_json_from_str, spec_json_get, spec_json_is_object,
    spec_json_object, spec_json_pretty, spec_json_string, spec_json_with_member,
};
use crate::text::{
    chars_of, decimal, find_from, is_whitespace, is_ws, occurs_at, push_decimal, push_str,
    slice_to_vec, str_eq, string_of, trim, trim_bounds,
};

verus! {

/// The first occurrence of `n` in `h` at or after `from` is at `i`.
pub open spec fn first_from(h: Seq<char>, n: Seq<char>, from: int, i: int) -> bool {
    from <= i && occurs_at(h, n, i) && forall|j: int| from <= j < i ==> !occurs_at(h, n, j)
}

/// `n` does not occur in `h` at or after `from`.
pub open spec fn none_from(h: Seq<char>, n: Seq<char>, from: int) -> bool {
    forall|j: int| from <= j ==> !occurs_at(h, n, j)
}

/// The `ProgramArguments` key is first at `a`, the next `<string>` at `s`
/// and the `</string>` after it at `e`.
pub open spec fn plist_parts(c: Seq<char>, a: int, s: int, e: int) -> bool {
    first_from(c, "<key>ProgramArguments</key>"@, 0, a) && first_from(c, "<string>"@, a, s)
        && first_from(c, "</string>"@, s + 8, e)
}

/// The program a launchd property list registers: the text of the first
/// `<string>` element after the `ProgramArguments` key.
pub open spec fn plist_registers(c: Seq<char>, r: Option<Seq<char>>) -> bool {
    let key = "<key>ProgramArguments</key>"@;
    match r {
        Some(p) => exists|a: int, s: int, e: int|
            #[trigger] plist_parts(c, a, s, e) && p == c.subrange(s + 8, e),
        None => none_from(c, key, 0) || exists|a: int|
            #[trigger] first_from(c, key, 0, a) && (none_from(c, "<string>"@, a) || exists|s: int|
                #[trigger] first_from(c, "<string>"@, a, s) && none_from(c, "</string>"@, s + 8)),
    }
}

/// The program registered in a launchd property list, if it names one.
pub fn plist_program(contents: &str) -> (r: Option<String>)
    ensures
        plist_registers(contents@, match r {
            Some(p) => Some(p@),
            None => None,
        }),
{
    let c = chars_of(contents);
    let key = chars_of("<key>ProgramArguments</key>");
    let open = chars_of("<string>");
    let close = chars_of("</string>");
    let a = match find_from(c.as_slice(), key.as_slice(), 0) {
        Some(a) => a,
        None => {
            return None;
        },
    };
    let s = match find_from(c.as_slice(), open.as_slice(), a) {
        Some(s) => s,
        None => {
            assert(first_from(contents@, "<key>ProgramArguments</key>"@, 0, a as int));
            return None;
        },
    };
    let cl = c.len();
    proof {
        reveal_strlit("<string>");
        assert(open@.len() == 8);
        assert(s + 8 <= c@.len());
    }
    let e = match find_from(c.as_slice(), close.as_slice(), s + 8) {
        Some(e) => e,
        None => {
            assert(first_from(contents@, "<key>ProgramArguments</key>"@, 0, a as int));
            assert(first_from(contents@, "<string>"@, a as int, s as int));
            return None;
        },
    };
    let v = slice_to_vec(c.as_slice(), s + 8, e);
    let p = string_of(v.as_slice());
    assert(plist_parts(contents@, a as int, s as int, e as int));
    Some(p)
}

/// A line of `c` starts at `i` with `ExecStart=`.
pub open spec fn exec_start_at(c: Seq<char>, i: int) -> bool {
    (i == 0 || (0 < i <= c.len() && c[i - 1] == '\n')) && occurs_at(c, "ExecStart="@, i)
}

/// Positions from `from` up to `e` all fail `stop`, and `e` is the end or
/// satisfies it.
pub open spec fn run_to(c: Seq<char>, from: int, e: int, stop: spec_fn(char) -> bool) -> bool {
    from <= e <= c.len() && (e == c.len() || stop(c[e])) && forall|k: int|
        from <= k < e ==> !stop(#[trigger] c[k])
}

/// The binary a systemd unit starts: the first whitespace-separated word
/// after `ExecStart=` on the first line that begins with it (empty when the
/// line has none).
pub open spec fn unit_registers(c: Seq<char>, r: Option<Seq<char>>) -> bool {
    match r {
        Some(b) => exists|i: int, ts: int, te: int|
            #[trigger] unit_parts(c, i, ts, te) && b == c.subrange(ts, te),
        None => forall|i: int| 0 <= i <= c.len() ==> !#[trigger] exec_start_at(c, i),
    }
}

/// The first `ExecStart=` line starts at `i`, and its first word spans
/// `[ts, te)`.
pub open spec fn unit_parts(c: Seq<char>, i: int, ts: int, te: int) -> bool {
    exec_start_at(c, i) && (forall|j: int| 0 <= j < i ==> !#[trigger] exec_start_at(c, j)) && run_to(
        c,
        i + 10,
        ts,
        |ch: char| ch == '\n' || !is_ws(ch),
    ) && run_to(c, ts, te, |ch: char| is_ws(ch))
}

/// Where the first line beginning with `ExecStart=` starts.
fn first_exec_start(c: &Vec<char>) -> (r: Option<usize>)
    ensures
        match r {
            Some(i) => exec_start_at(c@, i as int) && forall|j: int|
                0 <= j < i ==> !#[trigger] exec_start_at(c@, j),
            None => forall|j: int| 0 <= j <= c@.len() ==> !#[trigger] exec_start_at(c@, j),
        },
{
    let key = chars_of("ExecStart=");
    let n = c.len();
    let mut i: usize = 0;
    while i < n
        invariant
            i <= n,
            n == c@.len(),
            key@ == "ExecStart="@,
            forall|j: int| 0 <= j < i ==> !#[trigger] exec_start_at(c@, j),
        decreases n - i,
    {
        let at_line_start = i == 0 || c[i - 1] == '\n';
        if at_line_start && crate::text::occurs_at_exec(c.as_slice(), key.as_slice(), i) {
            return Some(i);
        }
        i += 1;
    }
    let at_line_start = i == 0 || c[i - 1] == '\n';
    if at_line_start && crate::text::occurs_at_exec(c.as_slice(), key.as_slice(), i) {
        return Some(i);
    }
    None
}

/// The binary registered by a systemd unit, if a line starts it.
pub fn unit_exec_binary(contents: &str) -> (r: Option<String>)
    ensures
        unit_registers(contents@, match r {
            Some(b) => Some(b@),
            None => None,
        }),
{
    let c = chars_of(contents);
    let i = match first_exec_start(&c) {
        Some(i) => i,
        None => {
            return None;
        },
    };
    let n = c.len();
    proof {
        reveal_strlit("ExecStart=");
    }
    let mut ts: usize = i + 10;
    while ts < n && c[ts] != '\n' && is_whitespace(c[ts])
        invariant
            i + 10 <= ts <= n,
            n == c@.len(),
            forall|k: int| i + 10 <= k < ts ==> !(c@[k] == '\n' || !is_ws(#[trigger] c@[k])),
        decreases n - ts,
    {
        ts += 1;
    }
    let mut te: usize = ts;
    while te < n && !is_whitespace(c[te])
        invariant
            ts <= te <= n,
            n == c@.len(),
            forall|k: int| ts <= k < te ==> !is_ws(#[trigger] c@[k]),
        decreases n - te,
    {
        te += 1;
    }
    let v = slice_to_vec(c.as_slice(), ts, te);
    let b = string_of(v.as_slice());
    proof {
        let f1 = |ch: char| ch == '\n' || !is_ws(ch);
        let f2 = |ch: char| is_ws(ch);
        assert(run_to(c@, i + 10, ts as int, f1));
        assert(run_to(c@, ts as int, te as int, f2));
        assert(exec_start_at(c@, i as int));
        assert(unit_parts(c@, i as int, ts as int, te as int));
    }
    Some(b)
}

/// The command a scheduled task runs: the trimmed text of its first
/// `<Command>` element.
pub open spec fn task_registers(x: Seq<char>, r: Option<Seq<char>>) -> bool {
    match r {
        Some(p) => exists|s: int, e: int|
            #[trigger] task_parts(x, s, e) && p == trim(x.subrange(s + 9, e)),
        None => none_from(x, "<Command>"@, 0) || exists|s: int|
            #[trigger] first_from(x, "<Command>"@, 0, s) && none_from(x, "</Command>"@, s + 9),
    }
}

/// `<Command>` is first at `s` and the next `</Command>` at `e`.
pub open spec fn task_parts(x: Seq<char>, s: int, e: int) -> bool {
    first_from(x, "<Command>"@, 0, s) && first_from(x, "</Command>"@, s + 9, e)
}

/// The command registered in a scheduled task's XML, if it names one.
pub fn task_command(xml: &str) -> (r: Option<String>)
    ensures
        task_registers(xml@, match r {
            Some(p) => Some(p@),
            None => None,
        }),
{
    let x = chars_of(xml);
    let open = chars_of("<Command>");
    let close = chars_of("</Command>");
    let s = match find_from(x.as_slice(), open.as_slice(), 0) {
        Some(s) => s,
        None => {
            return None;
        },
    };
    let xl = x.len();
    proof {
        reveal_strlit("<Command>");
        assert(open@.len() == 9);
        assert(s + 9 <= x@.len());
    }
    let e = match find_from(x.as_slice(), close.as_slice(), s + 9) {
        Some(e) => e,
        None => {
            assert(first_from(xml@, "<Command>"@, 0, s as int));
            return None;
        },
    };
    let inner = slice_to_vec(x.as_slice(), s + 9, e);
    let (a, b) = trim_bounds(inner.as_slice());
    let t = slice_to_vec(inner.as_slice(), a, b);
    let p = string_of(t.as_slice());
    assert(task_parts(xml@, s as int, e as int));
    Some(p)
}

/// The daemon's MCP endpoint on `port`.
pub fn mcp_url(port: u16) -> (r: String)
    ensures
        r@ == "http://localhost:"@ + decimal(port as nat) + "/mcp"@,
{
    let mut s = "http://localhost:".to_owned();
    push_decimal(&mut s, port as u64);
    push_str(&mut s, "/mcp");
    s
}

/// The server entry a tool's MCP configuration gets: Gemini takes a
/// streamable-HTTP `httpUrl`, other tools a typed `http` entry.
#[derive(Debug, Clone)]
pub enum McpEntry {
    HttpUrl(String),
    Http(String),
}

/// The entry for `tool`, pointing at `url`.
pub fn mcp_entry(tool: &str, url: &str) -> (r: McpEntry)
    ensures
        match r {
            McpEntry::HttpUrl(u) => tool@ == "Gemini"@ && u@ == url@,
            McpEntry::Http(u) => tool@ != "Gemini"@ && u@ == url@,
        },
{
    if str_eq(tool, "Gemini") {
        McpEntry::HttpUrl(url.to_owned())
    } else {
        McpEntry::Http(url.to_owned())
    }
}

/// How a tool's own command line registers MCP servers.
#[derive(Debug, Clone, Copy)]
pub enum ToolCli {
    /// No command line is used; the configuration file is patched.
    NoCli,
    /// `gemini mcp add daemon8 <url> --transport http --scope user`.
    Gemini,
    /// `<program> mcp add --scope user --transport http daemon8 <url>`,
    /// followed on success by the stdio channel server `daemon8-channel`
    /// (`<program> mcp add --scope user --transport stdio daemon8-channel
    /// <binary> -- channel`); a patched configuration also gets that
    /// channel server.
    UserScoped(&'static str),
}

/// An AI tool the daemon can be registered with: its name, configuration
/// file and the directory whose presence shows it is installed (both
/// relative to the home directory), and how its command line registers.
#[derive(Debug, Clone, Copy)]
pub struct AiTool {
    pub name: &'static str,
    pub config_rel: &'static str,
    pub detect_dir: &'static str,
    pub cli: ToolCli,
}

impl AiTool {
    /// Whether the tool also gets the stdio channel server.
    pub open spec fn spec_has_channel(self) -> bool {
        self.cli is UserScoped
    }

    /// Whether the tool also gets the stdio channel server.
    pub fn has_channel(&self) -> (r: bool)
        ensures
            r == self.spec_has_channel(),
    {
        match self.cli {
            ToolCli::UserScoped(_) => true,
            _ => false,
        }
    }
}

/// The registration command a tool's own command line offers, tried before
/// the configuration file is patched.
pub open spec fn spec_registration_command(cli: ToolCli, url: Seq<char>) -> Option<
    (Seq<char>, Seq<Seq<char>>),
> {
    match cli {
        ToolCli::NoCli => None,
        ToolCli::Gemini => Some(
            (
                "gemini"@,
                seq![
                    "mcp"@,
                    "add"@,
                    "daemon8"@,
                    url,
                    "--transport"@,
                    "http"@,
                    "--scope"@,
                    "user"@,
                ],
            ),
        ),
        ToolCli::UserScoped(program) => Some(
            (
                program@,
                seq![
                    "mcp"@,
                    "add"@,
                    "--scope"@,
                    "user"@,
                    "--transport"@,
                    "http"@,
                    "daemon8"@,
                    url,
                ],
            ),
        ),
    }
}

/// The command that registers the stdio channel server running `binary`,
/// run after the registration command succeeded; only a user-scoped
/// command line has one.
pub open spec fn spec_channel_command(cli: ToolCli, binary: Seq<char>) -> Option<
    (Seq<char>, Seq<Seq<char>>),
> {
    match cli {
        ToolCli::UserScoped(program) => Some(
            (
                program@,
                seq![
                    "mcp"@,
                    "add"@,
                    "--scope"@,
                    "user"@,
                    "--transport"@,
                    "stdio"@,
                    "daemon8-channel"@,
                    binary,
                    "--"@,
                    "channel"@,
                ],
            ),
        ),
        _ => None,
    }
}

/// Owned copies of string slices.
fn owned_all(v: Vec<&str>) -> (r: Vec<String>)
    ensures
        crate::text::views(r@) == v@.map_values(|s: &str| s@),
{
    let mut r: Vec<String> = Vec::new();
    let mut i: usize = 0;
    while i < v.len()
        invariant
            i <= v@.len(),
            crate::text::views(r@) == v@.take(i as int).map_values(|s: &str| s@),
        decreases v@.len() - i,
    {
        let ghost before = r@;
        let x = v[i].to_owned();
        r.push(x);
        proof {
            assert(crate::text::views(r@) =~= crate::text::views(before).push(x@));
            assert(v@.take(i + 1).map_values(|s: &str| s@) =~= v@.take(i as int).map_values(
                |s: &str| s@,
            ).push(v@[i as int]@));
        }
        i += 1;
    }
    proof {
        assert(v@.take(v@.len() as int) =~= v@);
    }
    r
}

/// A command as the contracts see it: the program and the arguments' text.
pub open spec fn command_view(c: Option<(String, Vec<String>)>) -> Option<(Seq<char>, Seq<Seq<char>>)> {
    match c {
        Some(c) => Some((c.0@, crate::text::views(c.1@))),
        None => None,
    }
}

/// The program and arguments of a tool's own registration command.
pub fn registration_command(cli: ToolCli, url: &str) -> (r: Option<(String, Vec<String>)>)
    ensures
        command_view(r) == spec_registration_command(cli, url@),
{
    match cli {
        ToolCli::NoCli => None,
        ToolCli::Gemini => {
            let args = owned_all(
                vec!["mcp", "add", "daemon8", url, "--transport", "http", "--scope", "user"],
            );
            Some(("gemini".to_owned(), args))
        },
        ToolCli::UserScoped(program) => {
            let args = owned_all(
                vec!["mcp", "add", "--scope", "user", "--transport", "http", "daemon8", url],
            );
            Some((program.to_owned(), args))
        },
    }
}

/// The program and arguments that register the stdio channel server.
pub fn channel_command(cli: ToolCli, binary: &str) -> (r: Option<(String, Vec<String>)>)
    ensures
        command_view(r) == spec_channel_command(cli, binary@),
{
    match cli {
        ToolCli::UserScoped(program) => {
            let args = owned_all(
                vec![
                    "mcp",
                    "add",
                    "--scope",
                    "user",
                    "--transport",
                    "stdio",
                    "daemon8-channel",
                    binary,
                    "--",
                    "channel",
                ],
            );
            Some((program.to_owned(), args))
        },
        _ => None,
    }
}

/// The AI tools the daemon can be registered with: name, configuration
/// file, detection directory and command line.
pub open spec fn spec_ai_tool_checks() -> Seq<(Seq<char>, Seq<char>, Seq<char>, ToolCli)> {
    seq![
        ("Cursor"@, ".cursor/mcp.json"@, ".cursor"@, ToolCli::NoCli),
        ("Windsurf"@, ".codeium/windsurf/mcp_config.json"@, ".codeium/windsurf"@, ToolCli::NoCli),
        ("Gemini"@, ".gemini/settings.json"@, ".gemini"@, ToolCli::Gemini),
    ]
}

/// A tool as the contracts see it.
pub open spec fn tool_view(t: AiTool) -> (Seq<char>, Seq<char>, Seq<char>, ToolCli) {
    (t.name@, t.config_rel@, t.detect_dir@, t.cli)
}

/// The AI tools the daemon can be registered with.
pub fn ai_tool_checks() -> (r: Vec<AiTool>)
    ensures
        r@.map_values(|t: AiTool| tool_view(t)) == spec_ai_tool_checks(),
{
    let r = vec![
        AiTool { name: "Cursor", config_rel: ".cursor/mcp.json", detect_dir: ".cursor", cli: ToolCli::NoCli },
        AiTool {
            name: "Windsurf",
            config_rel: ".codeium/windsurf/mcp_config.json",
            detect_dir: ".codeium/windsurf",
            cli: ToolCli::NoCli,
        },
        AiTool { name: "Gemini", config_rel: ".gemini/settings.json", detect_dir: ".gemini", cli: ToolCli::Gemini },
    ];
    assert(r@.map_values(|t: AiTool| tool_view(t)) =~= spec_ai_tool_checks());
    r
}

/// The daemon's MCP endpoint on `port`, as text.
pub open spec fn spec_mcp_url(port: u16) -> Seq<char> {
    "http://localhost:"@ + decimal(port as nat) + "/mcp"@
}

/// The JSON server entry for `tool` pointing at `url`: `{"httpUrl": url}`
/// for Gemini, `{"type": "http", "url": url}` for other tools.
pub open spec fn spec_entry_value(tool: Seq<char>, url: Seq<char>) -> serde_json::Value {
    if tool == "Gemini"@ {
        spec_json_object(seq![("httpUrl"@, spec_json_string(url))])
    } else {
        spec_json_object(seq![("type"@, spec_json_string("http"@)), ("url"@, spec_json_string(url))])
    }
}

/// The JSON server entry of `mcp_entry(tool, url)`.
pub fn entry_value(tool: &str, url: &str) -> (r: serde_json::Value)
    ensures
        r == spec_entry_value(tool@, url@),
{
    match mcp_entry(tool, url) {
        McpEntry::HttpUrl(u) => {
            let members = vec![("httpUrl".to_owned(), json_string(u.as_str()))];
            assert(crate::json::members_view(members@) =~= seq![("httpUrl"@, spec_json_string(url@))]);
            json_object(members)
        },
        McpEntry::Http(u) => {
            let members = vec![
                ("type".to_owned(), json_string("http")),
                ("url".to_owned(), json_string(u.as_str())),
            ];
            assert(crate::json::members_view(members@) =~= seq![
                ("type"@, spec_json_string("http"@)),
                ("url"@, spec_json_string(url@)),
            ]);
            json_object(members)
        },
    }
}

/// The stdio channel server entry that runs `binary channel`:
/// `{"command": binary, "args": ["channel"]}`.
pub open spec fn spec_channel_entry(binary: Seq<char>) -> serde_json::Value {
    spec_json_object(
        seq![
            ("command"@, spec_json_string(binary)),
            ("args"@, spec_json_array(seq![spec_json_string("channel"@)])),
        ],
    )
}

/// The `mcpServers` object with the daemon's entry put under `daemon8`,
/// and the channel server (when there is one) under `daemon8-channel`,
/// when it is an object; anything else is left as it was.
pub open spec fn spec_servers_with(
    servers: serde_json::Value,
    entry: serde_json::Value,
    channel: Option<serde_json::Value>,
) -> serde_json::Value {
    if spec_json_is_object(servers) {
        let with_daemon = spec_json_with_member(servers, "daemon8"@, entry);
        match channel {
            Some(c) => spec_json_with_member(with_daemon, "daemon8-channel"@, c),
            None => with_daemon,
        }
    } else {
        servers
    }
}

/// The configuration document after registering `entry` (and the channel
/// server, when given): with no file, a new document whose `mcpServers`
/// holds just those; with a file, its JSON (an empty object when it does
/// not parse) with `mcpServers` made present (empty when absent) and the
/// servers set in it; `None` when that JSON is not an object.
pub open spec fn spec_patched_value(
    existing: Option<Seq<char>>,
    entry: serde_json::Value,
    channel: Option<serde_json::Value>,
) -> Option<serde_json::Value> {
    let empty = spec_json_object(seq![]);
    match existing {
        None => Some(
            spec_json_object(seq![("mcpServers"@, spec_servers_with(empty, entry, channel))]),
        ),
        Some(t) => {
            let doc = match spec_json_from_str(t) {
                Some(v) => v,
                None => empty,
            };
            if !spec_json_is_object(doc) {
                None
            } else {
                let servers = match spec_json_get(doc, "mcpServers"@) {
                    Some(v) => v,
                    None => empty,
                };
                Some(spec_json_with_member(doc, "mcpServers"@, spec_servers_with(servers, entry, channel)))
            }
        },
    }
}

/// The channel server entry for `binary`.
fn channel_entry(binary: &str) -> (r: serde_json::Value)
    ensures
        r == spec_channel_entry(binary@),
{
    let args = vec![json_string("channel")];
    assert(args@ =~= seq![spec_json_string("channel"@)]);
    let arr = json_array(args);
    let members = vec![("command".to_owned(), json_string(binary)), ("args".to_owned(), arr)];
    assert(crate::json::members_view(members@) =~= seq![
        ("command"@, spec_json_string(binary@)),
        ("args"@, spec_json_array(seq![spec_json_string("channel"@)])),
    ]);
    json_object(members)
}

/// `spec_servers_with` computed.
fn servers_with(
    servers: serde_json::Value,
    entry: serde_json::Value,
    channel: Option<serde_json::Value>,
) -> (r: serde_json::Value)
    ensures
        r == spec_servers_with(servers, entry, channel),
{
    if json_is_object(&servers) {
        let with_daemon = json_with_member(servers, "daemon8", entry);
        match channel {
            Some(c) => json_with_member(with_daemon, "daemon8-channel", c),
            None => with_daemon,
        }
    } else {
        servers
    }
}

/// The empty JSON object.
fn empty_object() -> (r: serde_json::Value)
    ensures
        r == spec_json_object(seq![]),
{
    let members: Vec<(String, serde_json::Value)> = Vec::new();
    assert(crate::json::members_view(members@) =~= seq![]);
    json_object(members)
}

/// The message given when the configuration is JSON but not an object.
pub open spec fn not_object_message() -> Seq<char> {
    "config is not a JSON object"@
}

/// The message given when the patched document cannot be printed.
pub open spec fn unprintable_message() -> Seq<char> {
    "config could not be serialized"@
}

/// The text of a tool's MCP configuration with the daemon registered on
/// `port`, from the current file contents (`None` when there is no file);
/// `channel_binary`, when given, is the daemon binary the stdio channel
/// server runs, added for tools with a user-scoped command line. The
/// result is the pretty-printed `spec_patched_value`, or an error when the
/// existing JSON is not an object or the document cannot be printed.
pub fn patched_mcp_config(
    existing: Option<&str>,
    tool: &str,
    port: u16,
    channel_binary: Option<&str>,
) -> (r: Result<String, String>)
    ensures
        match spec_patched_value(
            match existing {
                Some(t) => Some(t@),
                None => None,
            },
            spec_entry_value(tool@, spec_mcp_url(port)),
            match channel_binary {
                Some(b) => Some(spec_channel_entry(b@)),
                None => None,
            },
        ) {
            None => r matches Err(e) && e@ == not_object_message(),
            Some(v) => match spec_json_pretty(v) {
                Some(t) => r matches Ok(s) && s@ == t,
                None => r matches Err(e) && e@ == unprintable_message(),
            },
        },
{
    let url = mcp_url(port);
    let entry = entry_value(tool, url.as_str());
    let channel = match channel_binary {
        Some(b) => Some(channel_entry(b)),
        None => None,
    };
    let doc = match existing {
        None => {
            let servers = servers_with(empty_object(), entry, channel);
            let outer = vec![("mcpServers".to_owned(), servers)];
            assert(crate::json::members_view(outer@) =~= seq![("mcpServers"@, outer@[0].1)]);
            json_object(outer)
        },
        Some(text) => {
            let doc = match json_from_str(text) {
                Some(v) => v,
                None => empty_object(),
            };
            if !json_is_object(&doc) {
                return Err("config is not a JSON object".to_owned());
            }
            let servers = match json_get(&doc, "mcpServers") {
                Some(v) => v,
                None => empty_object(),
            };
            json_with_member(doc, "mcpServers", servers_with(servers, entry, channel))
        },
    };
    match json_pretty(&doc) {
        Some(t) => Ok(t),
        None => Err("config could not be serialized".to_owned()),
    }
}

/// Whether a configuration text already registers the daemon: it is JSON
/// whose `mcpServers` member is an object holding `daemon8`.
pub open spec fn spec_names_daemon(text: Seq<char>) -> bool {
    match spec_json_from_str(text) {
        None => false,
        Some(v) => match spec_json_get(v, "mcpServers"@) {
            None => false,
            Some(s) => spec_json_is_object(s) && spec_json_get(s, "daemon8"@) is Some,
        },
    }
}

/// Whether the configuration text already registers the daemon.
pub fn config_names_daemon(contents: &str) -> (r: bool)
    ensures
        r == spec_names_daemon(contents@),
{
    match json_from_str(contents) {
        None => false,
        Some(v) => match json_get(&v, "mcpServers") {
            None => false,
            Some(s) => json_is_object(&s) && json_get(&s, "daemon8").is_some(),
        },
    }
}


/// The registered binary is stale: its canonical path differs from the
/// running binary's, or, when it cannot be resolved, it no longer exists.
pub open spec fn spec_binary_stale(registered_canonical: Option<Seq<char>>, current: Seq<char>, registered_exists: bool) -> bool {
    match registered_canonical {
        Some(c) => c != current,
        None => !registered_exists,
    }
}

/// Whether a registered service binary is stale, given its canonical path
/// (when it resolves), the running binary's canonical path and whether the
/// registered path exists.
pub fn binary_stale(registered_canonical: Option<&str>, current: &str, registered_exists: bool) -> (r: bool)
    ensures
        r == spec_binary_stale(
            match registered_canonical {
                Some(c) => Some(c@),
                None => None,
            },
            current@,
            registered_exists,
        ),
{
    match registered_canonical {
        Some(c) => !str_eq(c, current),
        None => !registered_exists,
    }
}

/// The question asked about an installed service: none when it runs the
/// current binary, else why it needs re-registering or repair.
pub open spec fn spec_service_prompt(running: bool, stale: bool) -> Option<Seq<char>> {
    if running && !stale {
        None
    } else if stale && !running {
        Some(
            "System service is registered but the binary path has changed and it is not running. Re-register?"@,
        )
    } else if stale {
        Some("System service is running but points to a different binary. Re-register?"@)
    } else {
        Some("System service is registered but not running. Repair?"@)
    }
}

/// The question asked about an installed service, if any.
pub fn service_prompt(running: bool, stale: bool) -> (r: Option<&'static str>)
    ensures
        match r {
            Some(q) => spec_service_prompt(running, stale) == Some(q@),
            None => spec_service_prompt(running, stale) is None,
        },
{
    if running && !stale {
        None
    } else if stale && !running {
        Some(
            "System service is registered but the binary path has changed and it is not running. Re-register?",
        )
    } else if stale {
        Some("System service is running but points to a different binary. Re-register?")
    } else {
        Some("System service is registered but not running. Repair?")
    }
}

} // verus!
