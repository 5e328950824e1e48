//! The launcher's pure core: building the protocol URI that asks the host to
//! start a title. The caller performs the spawn, handing the URI to the
//! operating system's URI-open facility as one discrete argument — never
//! through a shell, so an identifier holding metacharacters is not
//! interpreted — and surfaces a failed spawn's own error text unchanged.

use vstd::prelude::*;

verus! {

/// The URI that asks the platform to launch the title named by `app_id`.
pub open spec fn launch_uri_spec(app_id: Seq<char>) -> Seq<char> {
    "steam://rungameid/"@ + app_id
}

/// Builds the launch URI for `app_id`, embedding the identifier verbatim.
pub fn launch_uri(app_id: &str) -> (r: String)
    ensures
        r@ == launch_uri_spec(app_id@),
{
    String::from_str("steam://rungameid/").concat(app_id)
}

} // verus!
