//! The one computation of project bootstrap that is worth a contract: how
//! an existing `.gitignore` text is amended so the assistant's config
//! directory is ignored exactly once.

use vstd::prelude::*;

use vstd::string::StringSliceAdditionalSpecFns;

use crate::strutil::{contains_bytes, contains_seq};

verus! {

/// The config directory's name as it is looked for in `.gitignore`.
pub const CONFIG_DIR_NAME: &'static str = ".viktor";

/// The line appended to `.gitignore` for the config directory.
pub const GITIGNORE_ENTRY: &'static str = ".viktor/\n";

/// The amended `.gitignore` text: unchanged (`None`) when the config
/// directory is already mentioned anywhere in it, otherwise the text with
/// the ignore line appended.
pub fn updated_gitignore(content: &str) -> (r: Option<String>)
    ensures
        (r is Some) <==> !contains_seq(content.spec_bytes(), CONFIG_DIR_NAME.spec_bytes()),
        r is Some ==> r->0@ == content@ + GITIGNORE_ENTRY@,
{
    if contains_bytes(content.as_bytes(), CONFIG_DIR_NAME.as_bytes()) {
        None
    } else {
        let mut out = String::from_str(content);
        out.append(GITIGNORE_ENTRY);
        Some(out)
    }
}

} // verus!
