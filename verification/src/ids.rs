//! Random identifiers (version 4 UUIDs) for layers and keyframes.

use vstd::prelude::*;
use vstd::arithmetic::power::pow;

verus! {

/// Whether `value`, read as a UUID, carries the marks of a random
/// (version 4, RFC 4122 variant) UUID: the version nibble is 4 and the two
/// top bits of the variant byte are 10.
pub open spec fn is_v4_uuid(value: u128) -> bool {
    &&& (value >> 76u128) & 0xFu128 == 4u128
    &&& (value >> 62u128) & 0x3u128 == 2u128
}

/// The lower-case hexadecimal digit for `n`, which is below sixteen.
pub open spec fn hex_lower(n: int) -> char {
    if n < 10 { (n + 48) as char } else { (n + 87) as char }
}

/// The `k`-th hexadecimal digit of `value`, counting from the most
/// significant of its 32 digits.
pub open spec fn uuid_nibble(value: u128, k: int) -> int {
    (value as int / pow(16, (31 - k) as nat)) % 16
}

/// Which of the 32 digits stands at position `i` of the hyphenated text.
pub open spec fn uuid_digit_index(i: int) -> int {
    if i < 8 {
        i
    } else if i < 13 {
        i - 1
    } else if i < 18 {
        i - 2
    } else if i < 23 {
        i - 3
    } else {
        i - 4
    }
}

/// The hyphenated lower-case writing of a UUID: 32 hexadecimal digits, most
/// significant first, in groups of 8, 4, 4, 4 and 12 separated by hyphens.
pub open spec fn uuid_hyphenated(value: u128) -> Seq<char> {
    Seq::new(
        36,
        |i: int|
            if i == 8 || i == 13 || i == 18 || i == 23 {
                '-'
            } else {
                hex_lower(uuid_nibble(value, uuid_digit_index(i)))
            },
    )
}

/// Calls `uuid::Uuid::new_v4()` and returns the UUID as a 128-bit number
/// (`as_u128`, most significant byte first). The value is random; the
/// contract claims only the version and variant bits that `new_v4` sets on
/// every value it returns.
#[verifier::external_body]
pub(crate) fn fresh_uuid() -> (value: u128)
    ensures
        is_v4_uuid(value),
{
    uuid::Uuid::new_v4().as_u128()
}

/// Calls `uuid::Uuid::from_u128(value).to_string()`: the contract claims the
/// hyphenated lower-case writing that uuid's `Display` gives.
#[verifier::external_body]
pub(crate) fn uuid_text(value: u128) -> (text: String)
    ensures
        text@ == uuid_hyphenated(value),
{
    uuid::Uuid::from_u128(value).to_string()
}

} // verus!
