//! Who a request comes from: the client's address, and the digest under which
//! its quota is kept.
//!
//! The digest is unsalted, so it hides an address only from a casual reader:
//! whoever can hash every address can turn a digest back into one.

use vstd::prelude::*;
use vstd::string::*;
use vstd::utf8::*;
use vstd::std_specs::iter::IteratorSpec;
use sha2::{Digest, Sha256};
use crate::hexcode::{hex_text, to_hex};

verus! {

/// Length of a SHA-256 digest, in bytes.
pub const DIGEST_LEN: usize = 32;

/// The SHA-256 digest of `data`.
pub uninterp spec fn sha256(data: Seq<u8>) -> Seq<u8>;

/// Calls `Sha256::digest`. Trusted: it returns the named digest, which is 32
/// bytes long.
#[verifier::external_body]
fn sha256_digest(data: &[u8]) -> (digest: Vec<u8>)
    ensures
        digest@ == sha256(data@),
        digest@.len() == DIGEST_LEN,
{
    Sha256::digest(data).to_vec()
}

/// The identity that stands for the address `address`: the digest of its
/// UTF-8 bytes, in hexadecimal.
pub open spec fn identity_of(address: Seq<char>) -> Seq<char> {
    hex_text(sha256(encode_utf8(address)))
}

/// The pseudonymous identity of a client address, as written by
/// `IpAddr::to_string`. The same address always gives the same 64 characters.
pub fn hash_ip(address: &str) -> (identity: String)
    ensures
        identity@ == identity_of(address@),
        identity@.len() == 2 * DIGEST_LEN,
{
    let digest = sha256_digest(address.as_bytes());
    to_hex(digest.as_slice())
}

/// The address to charge a request to: the forwarded address if the request
/// carries a usable one, else the real-address header's, else the peer's.
pub open spec fn resolved<T>(forwarded: Option<T>, direct: Option<T>, peer: T) -> T {
    match forwarded {
        Some(address) => address,
        None => match direct {
            Some(address) => address,
            None => peer,
        },
    }
}

/// Picks the address to charge a request to. `forwarded` and `direct` are the
/// addresses that the two headers hold, `None` where a header is absent or
/// holds no address; `peer` is the address of the connection.
pub fn resolve_client_address<T>(forwarded: Option<T>, direct: Option<T>, peer: T) -> (address: T)
    ensures
        address == resolved(forwarded, direct, peer),
{
    match forwarded {
        Some(address) => address,
        None => match direct {
            Some(address) => address,
            None => peer,
        },
    }
}

/// Whether `c` is white space, as Unicode defines it.
pub open spec fn is_space(c: char) -> bool {
    ||| ('\u{9}' <= c && c <= '\u{d}')
    ||| c == ' '
    ||| c == '\u{85}'
    ||| c == '\u{a0}'
    ||| c == '\u{1680}'
    ||| ('\u{2000}' <= c && c <= '\u{200a}')
    ||| c == '\u{2028}'
    ||| c == '\u{2029}'
    ||| c == '\u{202f}'
    ||| c == '\u{205f}'
    ||| c == '\u{3000}'
}

/// The number of characters before the first comma of `s`; its length where
/// it has no comma.
pub open spec fn comma_index(s: Seq<char>) -> int
    decreases s.len(),
{
    if s.len() == 0 || s[0] == ',' {
        0
    } else {
        1 + comma_index(s.drop_first())
    }
}

/// `s` without the white space at its start.
pub open spec fn trim_start(s: Seq<char>) -> Seq<char>
    decreases s.len(),
{
    if s.len() > 0 && is_space(s[0]) {
        trim_start(s.drop_first())
    } else {
        s
    }
}

/// `s` without the white space at its end.
pub open spec fn trim_end(s: Seq<char>) -> Seq<char>
    decreases s.len(),
{
    if s.len() > 0 && is_space(s.last()) {
        trim_end(s.drop_last())
    } else {
        s
    }
}

/// The first entry of a forwarded-address header: what stands before the
/// first comma, without the white space around it.
pub open spec fn forwarded_entry(header: Seq<char>) -> Seq<char> {
    trim_end(trim_start(header.take(comma_index(header))))
}

/// The first comma is where no comma comes before.
pub proof fn lemma_comma_index(s: Seq<char>, k: int)
    requires
        0 <= k <= s.len(),
        forall|j: int| 0 <= j < k ==> s[j] != ',',
        k == s.len() || s[k] == ',',
    ensures
        comma_index(s) == k,
    decreases k,
{
    if k > 0 {
        let rest = s.drop_first();
        assert(s[0] != ',');
        assert forall|j: int| 0 <= j < k - 1 implies rest[j] != ',' by {
            assert(rest[j] == s[j + 1]);
        }
        lemma_comma_index(rest, k - 1);
    }
}

/// Trimming the start removes exactly the leading run of white space.
pub proof fn lemma_trim_start(s: Seq<char>, a: int)
    requires
        0 <= a <= s.len(),
        forall|j: int| 0 <= j < a ==> is_space(s[j]),
        a == s.len() || !is_space(s[a]),
    ensures
        trim_start(s) == s.skip(a),
    decreases a,
{
    if a > 0 {
        let rest = s.drop_first();
        assert(is_space(s[0]));
        assert forall|j: int| 0 <= j < a - 1 implies is_space(rest[j]) by {
            assert(rest[j] == s[j + 1]);
        }
        lemma_trim_start(rest, a - 1);
        assert(rest.skip(a - 1) =~= s.skip(a));
    } else {
        assert(s.skip(0) =~= s);
    }
}

/// Trimming the end removes exactly the trailing run of white space.
pub proof fn lemma_trim_end(s: Seq<char>, b: int)
    requires
        0 <= b <= s.len(),
        forall|j: int| b <= j < s.len() ==> is_space(s[j]),
        b == 0 || !is_space(s[b - 1]),
    ensures
        trim_end(s) == s.take(b),
    decreases s.len() - b,
{
    if b < s.len() {
        let rest = s.drop_last();
        assert(is_space(s.last()));
        assert forall|j: int| b <= j < rest.len() implies is_space(rest[j]) by {
            assert(rest[j] == s[j]);
        }
        lemma_trim_end(rest, b);
        assert(rest.take(b) =~= s.take(b));
    } else {
        assert(s.take(b) =~= s);
    }
}

/// What trimming the start leaves is the end of the text, and begins with no
/// white space.
pub proof fn lemma_trim_start_leaves(s: Seq<char>)
    ensures
        exists|a: int| 0 <= a <= s.len() && trim_start(s) == #[trigger] s.skip(a),
        trim_start(s).len() > 0 ==> !is_space(trim_start(s).first()),
    decreases s.len(),
{
    if s.len() > 0 && is_space(s[0]) {
        let rest = s.drop_first();
        lemma_trim_start_leaves(rest);
        let a = choose|a: int| 0 <= a <= rest.len() && trim_start(rest) == #[trigger] rest.skip(a);
        assert(rest.skip(a) =~= s.skip(a + 1));
    } else {
        assert(s.skip(0) =~= s);
    }
}

/// What trimming the end leaves is the start of the text, and ends with no
/// white space.
pub proof fn lemma_trim_end_leaves(s: Seq<char>)
    ensures
        exists|b: int| 0 <= b <= s.len() && trim_end(s) == #[trigger] s.take(b),
        trim_end(s).len() > 0 ==> !is_space(trim_end(s).last()),
    decreases s.len(),
{
    if s.len() > 0 && is_space(s.last()) {
        let rest = s.drop_last();
        lemma_trim_end_leaves(rest);
        let b = choose|b: int| 0 <= b <= rest.len() && trim_end(rest) == #[trigger] rest.take(b);
        assert(rest.take(b) =~= s.take(b));
    } else {
        assert(s.take(s.len() as int) =~= s);
    }
}

/// No comma stands before the first comma.
pub proof fn lemma_before_comma(s: Seq<char>)
    ensures
        0 <= comma_index(s) <= s.len(),
        forall|j: int| 0 <= j < comma_index(s) ==> s[j] != ',',
        comma_index(s) < s.len() ==> s[comma_index(s)] == ',',
    decreases s.len(),
{
    if !(s.len() == 0 || s[0] == ',') {
        let rest = s.drop_first();
        lemma_before_comma(rest);
        assert forall|j: int| 0 <= j < comma_index(s) implies s[j] != ',' by {
            if j > 0 {
                assert(s[j] == rest[j - 1]);
            }
        }
    }
}

/// The first entry of a header is a piece of the header that holds no comma
/// and neither begins nor ends with white space.
pub proof fn lemma_entry_is_trimmed(header: Seq<char>)
    ensures
        forall|i: int|
            0 <= i < forwarded_entry(header).len() ==> forwarded_entry(header)[i] != ',',
        forwarded_entry(header).len() > 0 ==> !is_space(forwarded_entry(header).first())
            && !is_space(forwarded_entry(header).last()),
        exists|a: int, b: int|
            0 <= a <= b <= header.len() && forwarded_entry(header) == #[trigger] header.subrange(
                a,
                b,
            ),
{
    let k = comma_index(header);
    lemma_before_comma(header);
    let first = header.take(k);
    lemma_trim_start_leaves(first);
    let a = choose|a: int| 0 <= a <= first.len() && trim_start(first) == #[trigger] first.skip(a);
    let middle = first.skip(a);
    lemma_trim_end_leaves(middle);
    let b = choose|b: int| 0 <= b <= middle.len() && trim_end(middle) == #[trigger] middle.take(b);
    let entry = middle.take(b);
    assert(entry =~= header.subrange(a, a + b));
    assert(forwarded_entry(header) == entry);
    if entry.len() > 0 {
        assert(entry.first() == middle.first());
    }
}

/// Whether `c` is white space.
pub fn is_whitespace(c: char) -> (b: bool)
    ensures
        b == is_space(c),
{
    ('\u{9}' <= c && c <= '\u{d}') || c == ' ' || c == '\u{85}' || c == '\u{a0}' || c
        == '\u{1680}' || ('\u{2000}' <= c && c <= '\u{200a}') || c == '\u{2028}' || c
        == '\u{2029}' || c == '\u{202f}' || c == '\u{205f}' || c == '\u{3000}'
}

/// The first entry of a forwarded-address header, which lists addresses
/// separated by commas: the text before the first comma, without the white
/// space around it. Whether the entry is an address is for the caller to find
/// out.
pub fn first_forwarded_entry(header: &str) -> (entry: &str)
    ensures
        entry@ == forwarded_entry(header@),
{
    let total = header.unicode_len();
    let mut chars = header.chars();
    let mut index: usize = 0;
    let mut start: usize = 0;
    let mut end: usize = 0;
    proof {
        axiom_spec_iter(header);
        assert(header@.skip(0) =~= header@);
    }
    loop
        invariant_except_break
            chars.remaining() == header@.skip(index as int),
        invariant
            total == header@.len(),
            chars.obeys_prophetic_iter_laws(),
            index <= total,
            start <= end <= index,
            forall|j: int| 0 <= j < index ==> header@[j] != ',',
            forall|j: int| 0 <= j < start ==> is_space(header@[j]),
            forall|j: int| end <= j < index ==> is_space(header@[j]),
            start < end ==> !is_space(header@[start as int]) && !is_space(header@[end - 1]),
            start == end ==> start == 0,
        ensures
            index == total || header@[index as int] == ',',
        decreases total - index,
    {
        let next = chars.next();
        match next {
            None => {
                break ;
            },
            Some(c) => {
                assert(c == header@.skip(index as int)[0]);
                assert(header@.skip(index as int).drop_first() =~= header@.skip(index + 1));
                if c == ',' {
                    break ;
                }
                if !is_whitespace(c) {
                    if start == end {
                        start = index;
                    }
                    end = index + 1;
                }
                index = index + 1;
            },
        }
    }
    proof {
        let k = index as int;
        let first = header@.take(k);
        lemma_comma_index(header@, k);
        if start < end {
            lemma_trim_start(first, start as int);
            lemma_trim_end(first.skip(start as int), end - start);
            assert(first.skip(start as int).take(end - start) =~= header@.subrange(
                start as int,
                end as int,
            ));
        } else {
            lemma_trim_start(first, k);
            assert(first.skip(k) =~= header@.subrange(0, 0));
        }
    }
    header.substring_char(start, end)
}

} // verus!
