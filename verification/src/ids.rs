//! Identifiers. A document, user, comment or workspace is named by a 128-bit
//! number; its text form is the hyphenated lower-case one.

use vstd::prelude::*;

verus! {

/// A 128-bit identifier.
pub type Uuid = u128;

/// The `k`-th hexadecimal digit of an identifier, counted from the most
/// significant one.
pub open spec fn nibble(id: u128, k: int) -> int {
    ((id >> (((31 - k) * 4) as u128)) & 0xf) as int
}

/// How many digits stand before position `i` of the text form.
pub open spec fn digit_index(i: int) -> int {
    if i < 8 {
        i
    } else if i < 13 {
        i - 1
    } else if i < 18 {
        i - 2
    } else if i < 23 {
        i - 3
    } else {
        i - 4
    }
}

/// The text form of an identifier: thirty-two lower-case hexadecimal digits in
/// groups of 8, 4, 4, 4 and 12, with hyphens between the groups.
pub open spec fn uuid_text(id: Uuid) -> Seq<char> {
    Seq::new(
        36,
        |i: int|
            if i == 8 || i == 13 || i == 18 || i == 23 {
                '-'
            } else {
                crate::text::hex_char(nibble(id, digit_index(i)))
            },
    )
}

/// What `uuid::Uuid::parse_str` makes of a text: the identifier, or nothing
/// where it rejects the text.
pub uninterp spec fn uuid_parsed(text: Seq<char>) -> Option<u128>;

/// The text form of an identifier.
///
/// Calls `uuid::Uuid::from_u128` and the `Display` of the result, which writes
/// the big-endian bytes as lower-case hexadecimal with hyphens after the 8th,
/// 12th, 16th and 20th digit.
#[verifier::external_body]
pub(crate) fn format_uuid(id: Uuid) -> (r: String)
    ensures
        r@ == uuid_text(id),
{
    uuid::Uuid::from_u128(id).to_string()
}

/// Reads an identifier.
///
/// Calls `uuid::Uuid::parse_str`. Its result is named; of the name it is
/// claimed only that the hyphenated lower-case form of an identifier is read
/// back as that identifier. The other forms that it accepts (upper case, no
/// hyphens, braces, URN) are left unsaid.
#[verifier::external_body]
pub(crate) fn parse_uuid(text: &str) -> (r: Option<Uuid>)
    ensures
        r == uuid_parsed(text@),
        forall|id: u128| text@ == #[trigger] uuid_text(id) ==> r == Some(id),
{
    match uuid::Uuid::parse_str(text) {
        Ok(id) => Some(id.as_u128()),
        Err(_) => None,
    }
}

/// The text form of an identifier.
pub fn uuid_to_text(id: Uuid) -> (r: String)
    ensures
        r@ == uuid_text(id),
{
    format_uuid(id)
}

/// The identifier that a text holds, if it holds one.
pub fn uuid_from_text(text: &str) -> (r: Option<Uuid>)
    ensures
        r == uuid_parsed(text@),
        forall|id: u128| text@ == #[trigger] uuid_text(id) ==> r == Some(id),
{
    parse_uuid(text)
}

proof fn lemma_nibble_bound(id: u128, s: u128)
    ensures
        (id >> s) & 0xf < 16,
{
    assert((id >> s) & 0xf < 16) by (bit_vector);
}

proof fn lemma_same_digit(a: Uuid, b: Uuid, k: int)
    requires
        uuid_text(a) == uuid_text(b),
        0 <= k < 32,
    ensures
        (a >> (((31 - k) * 4) as u128)) & 0xf == (b >> (((31 - k) * 4) as u128)) & 0xf,
{
    let i = if k < 8 {
        k
    } else if k < 12 {
        k + 1
    } else if k < 16 {
        k + 2
    } else if k < 20 {
        k + 3
    } else {
        k + 4
    };
    assert(digit_index(i) == k);
    assert(uuid_text(a)[i] == crate::text::hex_char(nibble(a, k)));
    assert(uuid_text(b)[i] == crate::text::hex_char(nibble(b, k)));
    lemma_nibble_bound(a, ((31 - k) * 4) as u128);
    lemma_nibble_bound(b, ((31 - k) * 4) as u128);
    crate::text::lemma_hex_char_injective(nibble(a, k), nibble(b, k));
}

/// Distinct identifiers have distinct text forms.
pub proof fn lemma_uuid_text_injective(a: Uuid, b: Uuid)
    requires
        uuid_text(a) == uuid_text(b),
    ensures
        a == b,
{
    lemma_same_digit(a, b, 0);
    lemma_same_digit(a, b, 1);
    lemma_same_digit(a, b, 2);
    lemma_same_digit(a, b, 3);
    lemma_same_digit(a, b, 4);
    lemma_same_digit(a, b, 5);
    lemma_same_digit(a, b, 6);
    lemma_same_digit(a, b, 7);
    lemma_same_digit(a, b, 8);
    lemma_same_digit(a, b, 9);
    lemma_same_digit(a, b, 10);
    lemma_same_digit(a, b, 11);
    lemma_same_digit(a, b, 12);
    lemma_same_digit(a, b, 13);
    lemma_same_digit(a, b, 14);
    lemma_same_digit(a, b, 15);
    lemma_same_digit(a, b, 16);
    lemma_same_digit(a, b, 17);
    lemma_same_digit(a, b, 18);
    lemma_same_digit(a, b, 19);
    lemma_same_digit(a, b, 20);
    lemma_same_digit(a, b, 21);
    lemma_same_digit(a, b, 22);
    lemma_same_digit(a, b, 23);
    lemma_same_digit(a, b, 24);
    lemma_same_digit(a, b, 25);
    lemma_same_digit(a, b, 26);
    lemma_same_digit(a, b, 27);
    lemma_same_digit(a, b, 28);
    lemma_same_digit(a, b, 29);
    lemma_same_digit(a, b, 30);
    lemma_same_digit(a, b, 31);
    assert(a == b) by (bit_vector)
        requires
            (a >> 124u128) & 0xf == (b >> 124u128) & 0xf,
            (a >> 120u128) & 0xf == (b >> 120u128) & 0xf,
            (a >> 116u128) & 0xf == (b >> 116u128) & 0xf,
            (a >> 112u128) & 0xf == (b >> 112u128) & 0xf,
            (a >> 108u128) & 0xf == (b >> 108u128) & 0xf,
            (a >> 104u128) & 0xf == (b >> 104u128) & 0xf,
            (a >> 100u128) & 0xf == (b >> 100u128) & 0xf,
            (a >> 96u128) & 0xf == (b >> 96u128) & 0xf,
            (a >> 92u128) & 0xf == (b >> 92u128) & 0xf,
            (a >> 88u128) & 0xf == (b >> 88u128) & 0xf,
            (a >> 84u128) & 0xf == (b >> 84u128) & 0xf,
            (a >> 80u128) & 0xf == (b >> 80u128) & 0xf,
            (a >> 76u128) & 0xf == (b >> 76u128) & 0xf,
            (a >> 72u128) & 0xf == (b >> 72u128) & 0xf,
            (a >> 68u128) & 0xf == (b >> 68u128) & 0xf,
            (a >> 64u128) & 0xf == (b >> 64u128) & 0xf,
            (a >> 60u128) & 0xf == (b >> 60u128) & 0xf,
            (a >> 56u128) & 0xf == (b >> 56u128) & 0xf,
            (a >> 52u128) & 0xf == (b >> 52u128) & 0xf,
            (a >> 48u128) & 0xf == (b >> 48u128) & 0xf,
            (a >> 44u128) & 0xf == (b >> 44u128) & 0xf,
            (a >> 40u128) & 0xf == (b >> 40u128) & 0xf,
            (a >> 36u128) & 0xf == (b >> 36u128) & 0xf,
            (a >> 32u128) & 0xf == (b >> 32u128) & 0xf,
            (a >> 28u128) & 0xf == (b >> 28u128) & 0xf,
            (a >> 24u128) & 0xf == (b >> 24u128) & 0xf,
            (a >> 20u128) & 0xf == (b >> 20u128) & 0xf,
            (a >> 16u128) & 0xf == (b >> 16u128) & 0xf,
            (a >> 12u128) & 0xf == (b >> 12u128) & 0xf,
            (a >> 8u128) & 0xf == (b >> 8u128) & 0xf,
            (a >> 4u128) & 0xf == (b >> 4u128) & 0xf,
            (a >> 0u128) & 0xf == (b >> 0u128) & 0xf,
    ;
}

} // verus!
