//! Scaffolding of the project configuration file that `daemon8 init` writes.
use vstd::prelude::*;

use crate::text::{push_str, str_eq};

verus! {

/// Text of the configuration template before the slug.
pub open spec fn template_head() -> Seq<char> {
    "# Daemon8 CLI hook configuration.\n# Schema reference: https://daemon8.ai/docs/cli-hook-config\n\n[project]\nslug = \""@
}

/// Text of the configuration template between slug and role.
pub open spec fn template_middle() -> Seq<char> {
    "\"\nrole_default = \""@
}

/// Text of the configuration template after the role.
pub open spec fn template_tail() -> Seq<char> {
    "\"\n\n[enrollment]\nenabled = true\nscope = []\n\n[features]\nintents = true\ninbox = true\nstate_tracking = true\ncompaction_recovery = true\nheartbeat_interval = \"30s\"\n\n[intents.auto_declare]\nexpertise = []\n\n[distillation]\ntrack_todowrite = true\ntrack_git_commits = true\ntrack_file_writes = true\ncoarsen_file_writes_below_threshold = 5\n"@
}

/// The project configuration for `slug` with default role `role`.
pub fn render_template(slug: &str, role: &str) -> (r: String)
    ensures
        r@ == template_head() + slug@ + template_middle() + role@ + template_tail(),
{
    let mut s = "# Daemon8 CLI hook configuration.\n# Schema reference: https://daemon8.ai/docs/cli-hook-config\n\n[project]\nslug = \"".to_owned();
    push_str(&mut s, slug);
    push_str(&mut s, "\"\nrole_default = \"");
    push_str(&mut s, role);
    push_str(&mut s, "\"\n\n[enrollment]\nenabled = true\nscope = []\n\n[features]\nintents = true\ninbox = true\nstate_tracking = true\ncompaction_recovery = true\nheartbeat_interval = \"30s\"\n\n[intents.auto_declare]\nexpertise = []\n\n[distillation]\ntrack_todowrite = true\ntrack_git_commits = true\ntrack_file_writes = true\ncoarsen_file_writes_below_threshold = 5\n");
    s
}

/// The roles a project may declare.
pub open spec fn valid_role(role: Seq<char>) -> bool {
    role == "queen"@ || role == "worker"@ || role == "solo"@ || role == "watchdog"@
}

/// Checks the `--role` argument: one of queen, worker, solo, watchdog.
pub fn check_role(role: &str) -> (r: Result<String, String>)
    ensures
        match r {
            Ok(v) => valid_role(role@) && v@ == role@,
            Err(e) => !valid_role(role@) && e@ == "invalid --role '"@ + role@
                + "'; expected one of: queen, worker, solo, watchdog"@,
        },
{
    if str_eq(role, "queen") || str_eq(role, "worker") || str_eq(role, "solo") || str_eq(
        role,
        "watchdog",
    ) {
        Ok(role.to_owned())
    } else {
        let mut e = "invalid --role '".to_owned();
        push_str(&mut e, role);
        push_str(&mut e, "'; expected one of: queen, worker, solo, watchdog");
        Err(e)
    }
}

/// Last component of a path, as `Path::file_name` gives it when it is
/// valid UTF-8.
pub uninterp spec fn spec_path_file_name(path: Seq<char>) -> Option<Seq<char>>;

/// Calls `std::path::Path::file_name` on the path and keeps the result
/// when it is valid UTF-8; the contract names that result.
#[verifier::external_body]
fn path_file_name(path: &str) -> (r: Option<String>)
    ensures
        match r {
            Some(n) => spec_path_file_name(path@) == Some(n@),
            None => spec_path_file_name(path@) is None,
        },
{
    std::path::Path::new(path).file_name().and_then(|n| n.to_str()).map(|n| n.to_owned())
}

/// The project slug that a working directory implies: its last component,
/// or `project` when it has none.
pub fn derive_slug(cwd: &str) -> (r: String)
    ensures
        r@ == match spec_path_file_name(cwd@) {
            Some(n) => n,
            None => "project"@,
        },
{
    match path_file_name(cwd) {
        Some(n) => n,
        None => "project".to_owned(),
    }
}

} // verus!
