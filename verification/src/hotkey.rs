//! Reading the global shortcut the user typed, and the notices shown when it
//! cannot be used.
use vstd::prelude::*;

pub use global_hotkey::hotkey::HotKey;

verus! {

/// A parsed global shortcut (global-hotkey's `HotKey`), carried through to
/// the code that registers it with the OS.
#[verifier::external_type_specification]
#[verifier::external_body]
pub struct ExternalHotKey(global_hotkey::hotkey::HotKey);

/// What `HotKey::from_str` makes of a shortcut: `None` when it accepts it,
/// otherwise the text of the error it returns.
pub uninterp spec fn hotkey_parse_error(spec: Seq<char>) -> Option<Seq<char>>;

/// Calls `HotKey::from_str` (global-hotkey), which splits the text at `+`,
/// reads modifier names and one key name, and fails on an unknown key, an
/// empty part or a misplaced key. Claimed: it succeeds exactly when
/// `hotkey_parse_error` is `None`, and otherwise fails with that error's
/// text. Not claimed: which modifiers and key the `HotKey` holds, since
/// "CmdOrCtrl" means a different modifier on macOS than elsewhere.
#[verifier::external_body]
fn parse_hotkey(spec: &str) -> (r: Result<HotKey, String>)
    ensures
        r is Ok <==> hotkey_parse_error(spec@) is None,
        r matches Err(e) ==> hotkey_parse_error(spec@) == Some(e@),
{
    match <HotKey as std::str::FromStr>::from_str(spec) {
        Ok(hotkey) => Ok(hotkey),
        Err(e) => Err(e.to_string()),
    }
}

/// The notice shown when the shortcut `spec` cannot be read.
pub open spec fn parse_notice(spec: Seq<char>, error: Seq<char>) -> Seq<char> {
    "Could not parse shortcut \""@ + spec + "\": "@ + error
}

/// The notice shown when the OS refuses the shortcut `spec`.
pub open spec fn register_notice_text(spec: Seq<char>, error: Seq<char>) -> Seq<char> {
    "Could not register shortcut \""@ + spec + "\": "@ + error
}

/// Reads the shortcut `spec`, or says why it cannot be used.
pub fn parse_shortcut(spec: &str) -> (r: Result<HotKey, String>)
    ensures
        match hotkey_parse_error(spec@) {
            None => r is Ok,
            Some(e) => r matches Err(notice) && notice@ == parse_notice(spec@, e),
        },
{
    match parse_hotkey(spec) {
        Ok(hotkey) => Ok(hotkey),
        Err(e) => Err(shortcut_notice(spec, e.as_str())),
    }
}

/// The notice for a shortcut that could not be read.
pub fn shortcut_notice(spec: &str, error: &str) -> (r: String)
    ensures
        r@ == parse_notice(spec@, error@),
{
    let mut s = String::from_str("Could not parse shortcut \"");
    s.append(spec);
    s.append("\": ");
    s.append(error);
    s
}

/// The notice for a shortcut that the OS would not register.
pub fn register_notice(spec: &str, error: &str) -> (r: String)
    ensures
        r@ == register_notice_text(spec@, error@),
{
    let mut s = String::from_str("Could not register shortcut \"");
    s.append(spec);
    s.append("\": ");
    s.append(error);
    s
}

} // verus!
