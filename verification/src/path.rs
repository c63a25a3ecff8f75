//! Which strings the router takes as request paths and as route patterns.

use vstd::prelude::*;
use vstd::string::is_ascii_spec_bytes;

verus! {

/// A request path the matcher can walk: every character is ASCII and none is NUL.
///
/// Request targets are ASCII by the URI grammar; anything else reaches a server
/// percent-encoded.
pub open spec fn plain(text: Seq<char>) -> bool {
    forall|i: int| 0 <= i < text.len() ==> '\u{1}' <= #[trigger] text[i] <= '\u{7f}'
}

/// A route pattern the matcher can store: a plain text, because completion
/// looks every pattern up as a path, and one short enough that its segments
/// can be counted in 32 bits.
pub open spec fn is_pattern(text: Seq<char>) -> bool {
    plain(text) && text.len() < u32::MAX
}

/// Whether `text` is a plain path.
pub fn is_plain(text: &str) -> (ok: bool)
    ensures
        ok == plain(text@),
{
    if !text.is_ascii() {
        return false;
    }
    proof {
        is_ascii_spec_bytes(text);
    }
    let bytes = text.as_bytes();
    let mut i: usize = 0;
    while i < bytes.len()
        invariant
            i <= bytes.len(),
            bytes@.len() == text@.len(),
            forall|k: int| 0 <= k < text@.len() ==> bytes@[k] == #[trigger] text@[k] as u8,
            forall|k: int| 0 <= k < text@.len() ==> '\0' <= #[trigger] text@[k] <= '\u{7f}',
            forall|k: int| 0 <= k < i ==> '\u{1}' <= #[trigger] text@[k],
        decreases bytes.len() - i,
    {
        if bytes[i] == 0 {
            assert(text@[i as int] == '\0');
            return false;
        }
        i += 1;
    }
    true
}

/// Whether `text` can be registered as a route pattern.
pub fn is_valid_pattern(text: &str) -> (ok: bool)
    ensures
        ok == is_pattern(text@),
{
    if !is_plain(text) {
        return false;
    }
    proof {
        assert(vstd::utf8::is_ascii_chars(text@));
        is_ascii_spec_bytes(text);
    }
    text.as_bytes().len() < 0xffff_ffff
}

} // verus!
