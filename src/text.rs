//! String helpers: the 255-byte cap of the stored keys, and ASCII lowercasing.
use small_fixed_array::FixedString;
use vstd::prelude::*;
use vstd::utf8::encode_utf8;

verus! {

/// The longest prefix of `s` whose UTF-8 encoding takes at most 255 bytes.
pub open spec fn fit_u8(s: Seq<char>) -> Seq<char>
    decreases s.len(),
{
    if s.len() == 0 || encode_utf8(s).len() <= 255 {
        s
    } else {
        fit_u8(s.drop_last())
    }
}

/// `c` with an ASCII capital letter mapped to its small letter.
pub open spec fn lower_char(c: char) -> char {
    if 'A' <= c && c <= 'Z' {
        ((c as u32) + 32) as char
    } else {
        c
    }
}

/// `s` with every ASCII capital letter mapped to its small letter.
pub open spec fn ascii_lower(s: Seq<char>) -> Seq<char> {
    s.map_values(|c: char| lower_char(c))
}

/// Relies on small_fixed_array's `FixedString::<u8>::from_str_trunc`, which
/// keeps the string whole when it fits in 255 bytes and otherwise cuts it at
/// the last char boundary at or below 255 bytes.
#[verifier::external_body]
pub(crate) fn fit_fixed_u8(s: &str) -> (r: String)
    ensures
        r@ == fit_u8(s@),
{
    FixedString::<u8>::from_str_trunc(s).into_string()
}

/// Relies on `str::make_ascii_lowercase`: 'A'..='Z' become 'a'..='z', every
/// other char stays.
#[verifier::external_body]
pub(crate) fn make_lower(s: String) -> (r: String)
    ensures
        r@ == ascii_lower(s@),
{
    let mut s = s;
    s.make_ascii_lowercase();
    s
}

/// A string that fits is kept whole.
pub proof fn lemma_fit_u8_short(s: Seq<char>)
    requires
        encode_utf8(s).len() <= 255,
    ensures
        fit_u8(s) == s,
{
}

/// The capped string is a prefix of the string given.
pub proof fn lemma_fit_u8_prefix(s: Seq<char>)
    ensures
        fit_u8(s).len() <= s.len(),
        fit_u8(s) == s.take(fit_u8(s).len() as int),
    decreases s.len(),
{
    if !(s.len() == 0 || encode_utf8(s).len() <= 255) {
        lemma_fit_u8_prefix(s.drop_last());
        assert(s.drop_last().take(fit_u8(s).len() as int) =~= s.take(fit_u8(s).len() as int));
    } else {
        assert(s.take(s.len() as int) =~= s);
    }
}

} // verus!
