//! Generated mailbox names: two 4-character lower-case alphanumeric groups
//! joined by a dot, e.g. `a1b2.c3d4`.  Names are not guaranteed unique; the
//! registry resolves collisions by evicting the previous holder.

use vstd::prelude::*;

verus! {

/// A character allowed in a mailbox name group: lower-case letter or digit.
pub open spec fn is_name_char(c: char) -> bool {
    ('a' <= c && c <= 'z') || ('0' <= c && c <= '9')
}

/// A well-formed mailbox name: nine characters, a dot in the middle, name
/// characters everywhere else.
pub open spec fn is_valid_mailbox_name(s: Seq<char>) -> bool {
    &&& s.len() == 9
    &&& s[4] == '.'
    &&& forall|i: int| 0 <= i < 9 && i != 4 ==> is_name_char(#[trigger] s[i])
}

/// An ASCII letter or digit, as a byte.
pub open spec fn is_alnum_byte(b: u8) -> bool {
    (97 <= b && b <= 122) || (65 <= b && b <= 90) || (48 <= b && b <= 57)
}

/// Relies on rand's `Alphanumeric` distribution: every sample is drawn from
/// the 62-byte charset `A`..`Z`, `a`..`z`, `0`..`9`.
#[verifier::external_body]
fn sample_alnum() -> (r: u8)
    ensures
        is_alnum_byte(r),
{
    rand::RngExt::sample(&mut rand::rng(), rand::distr::Alphanumeric)
}

/// Draw one random mailbox-name character: a random letter or digit, folded
/// to lower case.
fn sample_name_char() -> (r: char)
    ensures
        is_name_char(r),
{
    let b = sample_alnum();
    let low: u8 = if 65 <= b && b <= 90 {
        b + 32
    } else {
        b
    };
    low as char
}

/// Generate a fresh mailbox name of the form `xxxx.xxxx`.
pub fn rand_user() -> (r: String)
    ensures
        is_valid_mailbox_name(r@),
{
    let mut s = String::new();
    for k in 0..4usize
        invariant
            s@.len() == k,
            forall|i: int| 0 <= i < k ==> is_name_char(#[trigger] s@[i]),
    {
        s.push(sample_name_char());
    }
    s.push('.');
    for k in 0..4usize
        invariant
            s@.len() == 5 + k,
            s@[4] == '.',
            forall|i: int| 0 <= i < 5 + k && i != 4 ==> is_name_char(#[trigger] s@[i]),
    {
        s.push(sample_name_char());
    }
    s
}

} // verus!
