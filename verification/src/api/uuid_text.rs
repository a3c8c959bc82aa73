//! The textual form of 128-bit UUIDs, through the `uuid` crate.
use vstd::prelude::*;
use std::str::FromStr;

verus! {

/// The lower-case hexadecimal digit of `n` (`0 <= n < 16`).
pub open spec fn hex_digit(n: u128) -> char {
    if n < 10 {
        (('0' as u128) + n) as char
    } else {
        (('a' as u128) + n - 10) as char
    }
}

/// The `j`-th hexadecimal digit of `v`, the most significant first (`0 <= j < 32`).
pub open spec fn nibble(v: u128, j: int) -> u128 {
    (v >> ((4 * (31 - j)) as u128)) & 0xf
}

/// How many hyphens the hyphenated form has before position `i`.
pub open spec fn hyphens_before(i: int) -> int {
    (if i > 8 { 1int } else { 0int }) + (if i > 13 { 1int } else { 0int }) + (if i > 18 {
        1int
    } else {
        0int
    }) + (if i > 23 { 1int } else { 0int })
}

/// The hyphenated lower-case form of a UUID, `xxxxxxxx-xxxx-xxxx-xxxx-xxxxxxxxxxxx`,
/// its digits those of the 128-bit value, most significant first.
pub open spec fn uuid_text(v: u128) -> Seq<char> {
    Seq::new(
        36,
        |i: int|
            if i == 8 || i == 13 || i == 18 || i == 23 {
                '-'
            } else {
                hex_digit(nibble(v, i - hyphens_before(i)))
            },
    )
}

proof fn lemma_hex_digit_injective(x: u128, y: u128)
    requires
        x < 16,
        y < 16,
        hex_digit(x) == hex_digit(y),
    ensures
        x == y,
{
}

/// The position, in the hyphenated form, of the `j`-th digit.
pub open spec fn digit_position(j: int) -> int {
    if j < 8 {
        j
    } else if j < 12 {
        j + 1
    } else if j < 16 {
        j + 2
    } else if j < 20 {
        j + 3
    } else {
        j + 4
    }
}

/// Different UUIDs have different hyphenated forms.
pub proof fn lemma_uuid_text_injective(a: u128, b: u128)
    requires
        uuid_text(a) == uuid_text(b),
    ensures
        a == b,
{
    assert forall|j: int| 0 <= j < 32 implies #[trigger] nibble(a, j) == nibble(b, j) by {
        let i = digit_position(j);
        assert(0 <= i < 36 && i != 8 && i != 13 && i != 18 && i != 23);
        assert(i - hyphens_before(i) == j);
        assert(uuid_text(a)[i] == hex_digit(nibble(a, j)));
        assert(uuid_text(b)[i] == hex_digit(nibble(b, j)));
        let sh = (4 * (31 - j)) as u128;
        let na = nibble(a, j);
        let nb = nibble(b, j);
        assert(na == (a >> sh) & 0xf);
        assert(nb == (b >> sh) & 0xf);
        assert((a >> sh) & 0xf < 16) by (bit_vector);
        assert((b >> sh) & 0xf < 16) by (bit_vector);
        lemma_hex_digit_injective(na, nb);
    }
    assert(nibble(a, 0) == nibble(b, 0));
    assert(nibble(a, 1) == nibble(b, 1));
    assert(nibble(a, 2) == nibble(b, 2));
    assert(nibble(a, 3) == nibble(b, 3));
    assert(nibble(a, 4) == nibble(b, 4));
    assert(nibble(a, 5) == nibble(b, 5));
    assert(nibble(a, 6) == nibble(b, 6));
    assert(nibble(a, 7) == nibble(b, 7));
    assert(nibble(a, 8) == nibble(b, 8));
    assert(nibble(a, 9) == nibble(b, 9));
    assert(nibble(a, 10) == nibble(b, 10));
    assert(nibble(a, 11) == nibble(b, 11));
    assert(nibble(a, 12) == nibble(b, 12));
    assert(nibble(a, 13) == nibble(b, 13));
    assert(nibble(a, 14) == nibble(b, 14));
    assert(nibble(a, 15) == nibble(b, 15));
    assert(nibble(a, 16) == nibble(b, 16));
    assert(nibble(a, 17) == nibble(b, 17));
    assert(nibble(a, 18) == nibble(b, 18));
    assert(nibble(a, 19) == nibble(b, 19));
    assert(nibble(a, 20) == nibble(b, 20));
    assert(nibble(a, 21) == nibble(b, 21));
    assert(nibble(a, 22) == nibble(b, 22));
    assert(nibble(a, 23) == nibble(b, 23));
    assert(nibble(a, 24) == nibble(b, 24));
    assert(nibble(a, 25) == nibble(b, 25));
    assert(nibble(a, 26) == nibble(b, 26));
    assert(nibble(a, 27) == nibble(b, 27));
    assert(nibble(a, 28) == nibble(b, 28));
    assert(nibble(a, 29) == nibble(b, 29));
    assert(nibble(a, 30) == nibble(b, 30));
    assert(nibble(a, 31) == nibble(b, 31));
    assert(a == b) by (bit_vector)
        requires
            (a >> 124u128) & 0xf == (b >> 124u128) & 0xf,
            (a >> 120u128) & 0xf == (b >> 120u128) & 0xf,
            (a >> 116u128) & 0xf == (b >> 116u128) & 0xf,
            (a >> 112u128) & 0xf == (b >> 112u128) & 0xf,
            (a >> 108u128) & 0xf == (b >> 108u128) & 0xf,
            (a >> 104u128) & 0xf == (b >> 104u128) & 0xf,
            (a >> 100u128) & 0xf == (b >> 100u128) & 0xf,
            (a >> 96u128) & 0xf == (b >> 96u128) & 0xf,
            (a >> 92u128) & 0xf == (b >> 92u128) & 0xf,
            (a >> 88u128) & 0xf == (b >> 88u128) & 0xf,
            (a >> 84u128) & 0xf == (b >> 84u128) & 0xf,
            (a >> 80u128) & 0xf == (b >> 80u128) & 0xf,
            (a >> 76u128) & 0xf == (b >> 76u128) & 0xf,
            (a >> 72u128) & 0xf == (b >> 72u128) & 0xf,
            (a >> 68u128) & 0xf == (b >> 68u128) & 0xf,
            (a >> 64u128) & 0xf == (b >> 64u128) & 0xf,
            (a >> 60u128) & 0xf == (b >> 60u128) & 0xf,
            (a >> 56u128) & 0xf == (b >> 56u128) & 0xf,
            (a >> 52u128) & 0xf == (b >> 52u128) & 0xf,
            (a >> 48u128) & 0xf == (b >> 48u128) & 0xf,
            (a >> 44u128) & 0xf == (b >> 44u128) & 0xf,
            (a >> 40u128) & 0xf == (b >> 40u128) & 0xf,
            (a >> 36u128) & 0xf == (b >> 36u128) & 0xf,
            (a >> 32u128) & 0xf == (b >> 32u128) & 0xf,
            (a >> 28u128) & 0xf == (b >> 28u128) & 0xf,
            (a >> 24u128) & 0xf == (b >> 24u128) & 0xf,
            (a >> 20u128) & 0xf == (b >> 20u128) & 0xf,
            (a >> 16u128) & 0xf == (b >> 16u128) & 0xf,
            (a >> 12u128) & 0xf == (b >> 12u128) & 0xf,
            (a >> 8u128) & 0xf == (b >> 8u128) & 0xf,
            (a >> 4u128) & 0xf == (b >> 4u128) & 0xf,
            (a >> 0u128) & 0xf == (b >> 0u128) & 0xf,
    ;
}

/// What `uuid::Uuid::parse_str` gives for a text: the UUID as a 128-bit value,
/// or the message of its error.
pub uninterp spec fn uuid_parse(s: Seq<char>) -> Result<u128, Seq<char>>;

/// Formats a UUID with `uuid::Uuid`'s `Display`, which writes the hyphenated
/// lower-case form; the contract states that form.
#[verifier::external_body]
pub fn uuid_to_text(v: u128) -> (s: String)
    ensures
        s@ == uuid_text(v),
{
    uuid::Uuid::from_u128(v).to_string()
}

/// Parses a UUID with `uuid::Uuid::from_str`, giving its 128-bit value or the
/// text of the error. The contract ties the outcome to `uuid_parse`, and states
/// what the crate documents of it: the hyphenated form that `uuid_to_text`
/// writes is parsed back to the same value.
#[verifier::external_body]
pub fn parse_uuid(s: &str) -> (r: Result<u128, String>)
    ensures
        r is Ok ==> uuid_parse(s@) == Ok::<u128, Seq<char>>(r->Ok_0),
        r is Err ==> uuid_parse(s@) == Err::<u128, Seq<char>>(r->Err_0@),
        (exists|v: u128| #[trigger] uuid_text(v) == s@) ==> r is Ok && uuid_text(r->Ok_0) == s@,
{
    match uuid::Uuid::from_str(s) {
        Ok(u) => Ok(u.as_u128()),
        Err(e) => Err(e.to_string()),
    }
}

} // verus!
