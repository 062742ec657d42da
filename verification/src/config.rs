//! Where the token records live: one file per logical purpose under the
//! application's configuration directory. The caller resolves that directory
//! (it depends on the machine); composing the per-purpose paths is decided
//! here.

use vstd::prelude::*;
use vstd::string::StringExecFns;

verus! {

/// The path of the EventSub token record inside the application directory.
pub fn get_eventsub_config_file(app_dir: &str) -> (r: String)
    ensures
        r@ == app_dir@ + "/eventsub.json"@,
{
    let base: String = <String as StringExecFns>::from_str(app_dir);
    base.concat("/eventsub.json")
}

/// The path of the chat token record inside the application directory.
pub fn get_chat_config_file(app_dir: &str) -> (r: String)
    ensures
        r@ == app_dir@ + "/chat.json"@,
{
    let base: String = <String as StringExecFns>::from_str(app_dir);
    base.concat("/chat.json")
}

} // verus!
