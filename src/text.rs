//! Small text helpers: ASCII bytes as a `String`, and shortening text for
//! display.

use vstd::prelude::*;
use vstd::string::{StringExecFns, StringSliceAdditionalSpecFns};
use vstd::utf8::encode_utf8;

verus! {

/// Whether every byte of `b` is ASCII.
pub open spec fn all_ascii(b: Seq<u8>) -> bool {
    forall|i: int| 0 <= i < b.len() ==> #[trigger] b[i] < 128
}

/// The characters that ASCII bytes stand for, one per byte.
pub open spec fn ascii_chars(b: Seq<u8>) -> Seq<char> {
    Seq::new(b.len(), |i: int| b[i] as char)
}

/// Relies on std's `String::from_utf8`: ASCII bytes are valid UTF-8, each
/// byte one character.
#[verifier::external_body]
pub(crate) fn ascii_string(b: &[u8]) -> (r: String)
    requires
        all_ascii(b@),
    ensures
        r@ == ascii_chars(b@),
{
    String::from_utf8(b.to_vec()).unwrap_or_default()
}

/// ASCII bytes read as characters and encoded back as UTF-8 are the same
/// bytes.
pub proof fn lemma_ascii_round_trip(b: Seq<u8>)
    requires
        all_ascii(b),
    ensures
        encode_utf8(ascii_chars(b)) == b,
{
    let c = ascii_chars(b);
    assert(vstd::utf8::is_ascii_chars(c)) by {
        assert forall|i: int| 0 <= i < c.len() implies '\0' <= #[trigger] c[i] <= '\u{7f}' by {
            assert(b[i] < 128);
        }
    }
    vstd::utf8::is_ascii_chars_encode_utf8(c);
    assert(encode_utf8(c) =~= b);
}

/// `s` unchanged where it is at most `max` bytes long; else its first `max`
/// bytes followed by "...".
pub fn truncate(s: &str, max: usize) -> (r: String)
    requires
        s.spec_bytes().len() <= usize::MAX,
        s.spec_bytes().len() > max ==> vstd::utf8::is_char_boundary(s.spec_bytes(), max as int),
    ensures
        s.spec_bytes().len() <= max ==> r@ == s@,
        s.spec_bytes().len() > max ==> {
            &&& r@.len() >= 3
            &&& r@.subrange(r@.len() - 3, r@.len() as int) == "..."@
            &&& encode_utf8(r@.subrange(0, r@.len() - 3)) == s.spec_bytes().subrange(
                0,
                max as int,
            )
        },
{
    if s.len() <= max {
        String::from_str(s)
    } else {
        let (head, _tail) = s.split_at(max);
        let r = String::from_str(head).concat("...");
        proof {
            reveal_strlit("...");
            assert(r@.subrange(0, r@.len() - 3) =~= head@);
            assert(r@.subrange(r@.len() - 3, r@.len() as int) =~= "..."@);
        }
        r
    }
}

} // verus!
