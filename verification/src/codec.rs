//! Short tokens: a paste's numeric identifier written in base 62.
//!
//! The digits are `0-9`, `A-Z`, `a-z`, in this order, most significant first.

use vstd::prelude::*;
use crate::error::PasteError;

verus! {

/// The largest identifier: the store numbers pastes with signed 64-bit integers.
pub const MAX_ID: i64 = 0x7fff_ffff_ffff_ffff;

/// The most digits that the token of an identifier has.
pub const MAX_TOKEN_CHARS: usize = 11;

/// Whether `c` is one of the 62 digits.
pub open spec fn is_digit(c: char) -> bool {
    ('0' <= c && c <= '9') || ('A' <= c && c <= 'Z') || ('a' <= c && c <= 'z')
}

/// The value of the digit `c`, from 0 to 61.
pub open spec fn digit_value(c: char) -> nat {
    if '0' <= c && c <= '9' {
        (c as u32 - 48) as nat
    } else if 'A' <= c && c <= 'Z' {
        (c as u32 - 55) as nat
    } else {
        (c as u32 - 61) as nat
    }
}

/// The digit that stands for `d`, for `d` below 62.
pub open spec fn digit_char(d: nat) -> char {
    if d < 10 {
        (d + 48) as char
    } else if d < 36 {
        (d + 55) as char
    } else {
        (d + 61) as char
    }
}

/// Whether every character of `s` is a digit.
pub open spec fn is_base62(s: Seq<char>) -> bool {
    forall|i: int| 0 <= i < s.len() ==> is_digit(#[trigger] s[i])
}

/// The number that the digits `s` stand for. The empty text stands for zero.
pub open spec fn base62_value(s: Seq<char>) -> nat
    decreases s.len(),
{
    if s.len() == 0 {
        0
    } else {
        base62_value(s.drop_last()) * 62 + digit_value(s.last())
    }
}

/// The digits of `n`, without leading zeros; zero is the single digit `0`.
pub open spec fn base62_text(n: nat) -> Seq<char>
    decreases n,
{
    if n < 62 {
        seq![digit_char(n)]
    } else {
        base62_text(n / 62).push(digit_char(n % 62))
    }
}

/// The number that the big-endian bytes `b` stand for.
pub open spec fn be_value(b: Seq<u8>) -> nat
    decreases b.len(),
{
    if b.len() == 0 {
        0
    } else {
        be_value(b.drop_last()) * 256 + b.last() as nat
    }
}

/// The big-endian bytes of `n`, without leading zeros; zero is the single byte 0.
pub open spec fn be_bytes(n: nat) -> Seq<u8>
    decreases n,
{
    if n < 256 {
        seq![n as u8]
    } else {
        be_bytes(n / 256).push((n % 256) as u8)
    }
}

/// What decoding the token `s` gives.
pub open spec fn decoded(s: Seq<char>) -> Result<i64, PasteError> {
    if is_base62(s) && base62_value(s) <= MAX_ID {
        Ok(base62_value(s) as i64)
    } else {
        Err(PasteError::InvalidToken)
    }
}

/// The digits of `base62_text(n)` are digits, and they stand for `n`.
pub proof fn lemma_text_value(n: nat)
    ensures
        is_base62(base62_text(n)),
        base62_value(base62_text(n)) == n,
        base62_text(n).len() >= 1,
    decreases n,
{
    let t = base62_text(n);
    if n < 62 {
        assert(t.drop_last() =~= Seq::<char>::empty());
        assert(base62_value(t.drop_last()) == 0);
        assert(t.last() == digit_char(n));
    } else {
        lemma_text_value(n / 62);
        let head = base62_text(n / 62);
        assert(t.drop_last() =~= head);
        assert(t.last() == digit_char(n % 62));
        assert forall|i: int| 0 <= i < t.len() implies is_digit(#[trigger] t[i]) by {
            if i < head.len() {
                assert(t[i] == head[i]);
            }
        }
    }
}

/// 62 to the power of `k`.
pub open spec fn pow62(k: nat) -> nat
    decreases k,
{
    if k == 0 {
        1
    } else {
        62 * pow62((k - 1) as nat)
    }
}

/// A number below 62 to the `k` has at most `k` digits.
pub proof fn lemma_text_len(n: nat, k: nat)
    requires
        k >= 1,
        n < pow62(k),
    ensures
        base62_text(n).len() <= k,
    decreases k,
{
    if n >= 62 {
        assert(pow62(1) == 62) by {
            reveal_with_fuel(pow62, 2);
        }
        assert(k >= 2);
        assert(pow62(k) == 62 * pow62((k - 1) as nat));
        lemma_text_len(n / 62, (k - 1) as nat);
    }
}

/// The token of an identifier has at most 11 digits.
pub proof fn lemma_token_is_short(n: nat)
    requires
        n <= MAX_ID,
    ensures
        1 <= base62_text(n).len() <= MAX_TOKEN_CHARS,
{
    assert(pow62(11) == 52036560683837093888) by {
        reveal_with_fuel(pow62, 12);
    }
    lemma_text_len(n, 11);
    lemma_text_value(n);
}

/// The bytes of a number stand for that number.
pub proof fn lemma_bytes_value(n: nat)
    ensures
        be_value(be_bytes(n)) == n,
    decreases n,
{
    let b = be_bytes(n);
    if n < 256 {
        assert(b.drop_last() =~= Seq::<u8>::empty());
        assert(be_value(b.drop_last()) == 0);
    } else {
        lemma_bytes_value(n / 256);
        assert(b.drop_last() =~= be_bytes(n / 256));
    }
}

/// A prefix of a byte string stands for no more than the whole.
pub proof fn lemma_prefix_value(b: Seq<u8>, k: int)
    requires
        0 <= k <= b.len(),
    ensures
        be_value(b.take(k)) <= be_value(b),
    decreases b.len() - k,
{
    if k == b.len() {
        assert(b.take(k) =~= b);
    } else {
        lemma_prefix_value(b.drop_last(), k);
        assert(b.drop_last().take(k) =~= b.take(k));
    }
}

/// Calls `bs62::encode_num`, which divides the number by 62 until nothing is
/// left and writes the remainders, last first, as digits; for zero it returns
/// the text `0`. Trusted: the text is `base62_text` of the number.
#[verifier::external_body]
fn base62_encode(n: u64) -> (text: String)
    ensures
        text@ == base62_text(n as nat),
{
    bs62::encode_num(&n)
}

/// Calls `bs62::decode_num`, which fails on the first character that is no
/// digit and otherwise sums the digits into a big integer, and hands that
/// integer out through `to_bytes_be`. Trusted: `None` exactly when a character
/// is no digit; otherwise the big-endian bytes of the number the text stands
/// for, without leading zeros, and the single byte 0 for zero.
#[verifier::external_body]
fn base62_decode(token: &str) -> (bytes: Option<Vec<u8>>)
    ensures
        bytes is Some <==> is_base62(token@),
        bytes matches Some(b) ==> b@ == be_bytes(base62_value(token@)),
{
    match bs62::decode_num(token) {
        Ok(n) => Some(n.to_bytes_be()),
        Err(_) => None,
    }
}

/// The identifier that big-endian bytes stand for, if it is one.
pub fn id_from_bytes(bytes: &[u8]) -> (id: Option<i64>)
    ensures
        id == (if be_value(bytes@) <= MAX_ID {
            Some(be_value(bytes@) as i64)
        } else {
            None
        }),
{
    let mut acc: u64 = 0;
    let mut i: usize = 0;
    while i < bytes.len()
        invariant
            i <= bytes.len(),
            acc == be_value(bytes@.take(i as int)),
            acc <= MAX_ID,
        decreases bytes.len() - i,
    {
        let byte = bytes[i];
        proof {
            let next = bytes@.take(i + 1);
            assert(next.drop_last() =~= bytes@.take(i as int));
            assert(next.last() == byte);
            assert(be_value(next) == acc * 256 + byte);
            lemma_prefix_value(bytes@, i + 1);
        }
        // Another byte fits exactly where the upper byte of the eight is free
        // and the bit below it is clear.
        if acc > 0x007f_ffff_ffff_ffff {
            return None;
        }
        acc = acc * 256 + byte as u64;
        i = i + 1;
    }
    proof {
        assert(bytes@.take(i as int) =~= bytes@);
    }
    Some(acc as i64)
}

/// The short token of the identifier `id`, which is not negative.
pub fn encode_id(id: i64) -> (token: String)
    requires
        id >= 0,
    ensures
        token@ == base62_text(id as nat),
        1 <= token@.len() <= MAX_TOKEN_CHARS,
{
    proof {
        lemma_token_is_short(id as nat);
    }
    base62_encode(id as u64)
}

/// The identifier that `token` stands for.
///
/// Fails with `InvalidToken` when a character is no digit, and when the number
/// is larger than any identifier. Leading zeros are accepted.
pub fn decode_id(token: &str) -> (r: Result<i64, PasteError>)
    ensures
        r == decoded(token@),
{
    match base62_decode(token) {
        None => Err(PasteError::InvalidToken),
        Some(bytes) => {
            proof {
                lemma_bytes_value(base62_value(token@));
            }
            match id_from_bytes(bytes.as_slice()) {
                Some(id) => Ok(id),
                None => Err(PasteError::InvalidToken),
            }
        },
    }
}

/// Decoding the token of an identifier gives the identifier back.
pub proof fn lemma_decode_encode(n: nat)
    requires
        n <= MAX_ID,
    ensures
        decoded(base62_text(n)) == Ok::<i64, PasteError>(n as i64),
{
    lemma_text_value(n);
}

/// A token with a character that is no digit is refused.
pub proof fn lemma_decode_rejects(s: Seq<char>, i: int)
    requires
        0 <= i < s.len(),
        !is_digit(s[i]),
    ensures
        decoded(s) == Err::<i64, PasteError>(PasteError::InvalidToken),
{
}

/// Two identifiers with the same token are the same identifier.
pub proof fn lemma_encode_injective(a: nat, b: nat)
    requires
        base62_text(a) == base62_text(b),
    ensures
        a == b,
{
    lemma_text_value(a);
    lemma_text_value(b);
}

} // verus!
