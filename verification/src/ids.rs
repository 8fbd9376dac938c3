//! The text form of identifiers, written and read by the `uuid` crate.
use vstd::prelude::*;

use uuid::Uuid;

verus! {

/// The lower-case hexadecimal digit `d` (below sixteen).
pub open spec fn hex_digit(d: int) -> char {
    if d < 10 {
        (('0' as int) + d) as char
    } else {
        (('a' as int) + (d - 10)) as char
    }
}

/// `n` in hexadecimal with exactly `width` digits.
pub open spec fn hex_of(n: nat, width: nat) -> Seq<char>
    decreases width,
{
    if width == 0 {
        Seq::empty()
    } else {
        hex_of(n / 16, (width - 1) as nat).push(hex_digit((n % 16) as int))
    }
}

/// The hyphenated form of an identifier: 8, 4, 4, 4 and 12 hexadecimal digits.
pub open spec fn uuid_text_of(id: u128) -> Seq<char> {
    let h = hex_of(id as nat, 32);
    h.subrange(0, 8) + seq!['-'] + h.subrange(8, 12) + seq!['-'] + h.subrange(12, 16) + seq!['-']
        + h.subrange(16, 20) + seq!['-'] + h.subrange(20, 32)
}

/// What `Uuid::parse_str` returns for `s`, as the identifier's 128 bits; `None`
/// where it refuses.
pub uninterp spec fn uuid_parsed(s: Seq<char>) -> Option<u128>;

/// `Uuid::to_string`: the hyphenated lower-case form.
#[verifier::external_body]
pub(crate) fn uuid_text(id: u128) -> (r: String)
    ensures
        r@ == uuid_text_of(id),
{
    Uuid::from_u128(id).to_string()
}

/// `Uuid::parse_str`. Which strings it reads, and as what, is only named, but
/// for the hyphenated lower-case form, which gives back the identifier that it
/// writes.
#[verifier::external_body]
pub(crate) fn parse_uuid(s: &str) -> (r: Option<u128>)
    ensures
        r == uuid_parsed(s@),
        forall|id: u128| s@ == #[trigger] uuid_text_of(id) ==> r == Some(id),
{
    match Uuid::parse_str(s) {
        Ok(id) => Some(id.as_u128()),
        Err(_) => None,
    }
}

} // verus!
