use vstd::prelude::*;

verus! {

/// True when `s` begins with a `~` that stands alone or before a `/`.
pub open spec fn home_marked(s: Seq<char>) -> bool {
    s.len() > 0 && s[0] == '~' && (s.len() == 1 || s[1] == '/')
}

/// True when `s` begins with `~`.
pub open spec fn tilde_led(s: Seq<char>) -> bool {
    s.len() > 0 && s[0] == '~'
}

/// Relies on `shellexpand::tilde`: text that does not begin with `~` comes
/// back as it was. A leading `~` that stands alone or comes before `/` (or,
/// on Windows, before `\`) is replaced by the home directory when one is
/// known; other text that begins with `~` comes back as it was.
#[verifier::external_body]
pub(crate) fn expand_home(path: &str) -> (r: String)
    ensures
        !tilde_led(path@) ==> r@ == path@,
        tilde_led(path@) ==> (r@ == path@ || exists|h: Seq<char>| r@ == h + path@.drop_first()),
{
    shellexpand::tilde(path).into_owned()
}

} // verus!
