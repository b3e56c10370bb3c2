//! Where each agent family keeps its ledger.
use vstd::prelude::*;

use crate::paths::{join_path, joined_path};
use crate::text::{owned, push_str};

verus! {

/// The variable that points at the Codex home.
pub const CODEX_HOME_ENV: &'static str = "CODEX_HOME";

/// The Codex home under `$HOME` when nothing overrides it.
pub const DEFAULT_CODEX_HOME_SUFFIX: &'static str = ".codex";

/// A family's ledger home: the override variable where it is set, else the default under
/// `$HOME`; with neither, an error naming both.
pub fn resolve_home(
    override_env: &str,
    default_suffix: &str,
    description: &str,
    override_value: Option<String>,
    home: Option<String>,
) -> (r: Result<String, String>)
    ensures
        override_value is Some ==> r == Ok::<String, String>(override_value.unwrap()),
        override_value is None && home is Some ==> (r matches Ok(p) && p@ == joined_path(
            home.unwrap()@,
            default_suffix@,
        )),
        override_value is None && home is None ==> (r matches Err(e) && e@ == description@
            + " requires $"@ + override_env@ + " or $HOME"@),
{
    match override_value {
        Some(v) => Ok(v),
        None => match home {
            Some(h) => Ok(join_path(h.as_str(), default_suffix)),
            None => {
                let mut e = owned(description);
                push_str(&mut e, " requires $");
                push_str(&mut e, override_env);
                push_str(&mut e, " or $HOME");
                Err(e)
            },
        },
    }
}

} // verus!
