//! Names of the directories that hold mirrors and checkouts: the name of the
//! dependency, a hyphen, and sixteen hexadecimal digits of a BLAKE2b digest.

use crate::text::{hex_digit, hex_lower, push_hex};
use vstd::prelude::*;
use vstd::utf8::encode_utf8;

verus! {

/// The 64-byte BLAKE2b digest of a byte string.
pub uninterp spec fn blake2b_digest(data: Seq<u8>) -> Seq<u8>;

/// How `std` writes a path with `{:?}`.
pub uninterp spec fn quoted_path(path: Seq<char>) -> Seq<char>;

/// Calls `Blake2b512::digest` of the `blake2` crate. The contract names the
/// digest, which depends on the bytes alone, and gives its length.
#[verifier::external_body]
fn blake2b(data: &[u8]) -> (r: Vec<u8>)
    ensures
        r@ == blake2b_digest(data@),
        r@.len() == 64,
{
    <blake2::Blake2b512 as blake2::Digest>::digest(data).to_vec()
}

/// Writes a path with the `Debug` formatting of `std::path::Path`. The
/// contract only names the text that comes out.
#[verifier::external_body]
pub(crate) fn quote_path(path: &str) -> (r: String)
    ensures
        r@ == quoted_path(path@),
{
    format!("{:?}", std::path::Path::new(path))
}

/// The first `count` bytes of `data`.
pub open spec fn leading(data: Seq<u8>, count: nat) -> Seq<u8> {
    Seq::new(count, |i: int| data[i])
}

/// Sixteen hexadecimal digits for the first eight bytes of the digest of `data`.
pub open spec fn short_hash(data: Seq<u8>) -> Seq<char> {
    hex_lower(leading(blake2b_digest(data), 8))
}

/// The name of the directory that holds the mirror of `url` for the
/// dependency `name`.
pub open spec fn mirror_name(name: Seq<char>, url: Seq<char>) -> Seq<char> {
    name + seq!['-'] + short_hash(encode_utf8(url))
}

/// The name of the directory that holds the checkout of `url` for the
/// dependency `name` of the project at `root`.
pub open spec fn checkout_name(name: Seq<char>, url: Seq<char>, root: Seq<char>) -> Seq<char> {
    name + seq!['-'] + short_hash(encode_utf8(url) + encode_utf8(quoted_path(root)))
}

/// The name of a dependency followed by a hyphen and the short hash of `data`.
fn hashed_name(name: &str, data: &[u8]) -> (r: String)
    ensures
        r@ == name@ + seq!['-'] + short_hash(data@),
{
    let digest = blake2b(data);
    let mut out = String::from_str(name);
    proof {
        reveal_strlit("-");
    }
    out.append("-");
    assert(out@ =~= name@ + seq!['-']);
    assert(digest@.take(8) =~= leading(digest@, 8));
    push_hex(&mut out, digest.as_slice(), 8);
    out
}

/// Names the mirror directory of a git dependency.
pub fn mirror_dir_name(name: &str, url: &str) -> (r: String)
    ensures
        r@ == mirror_name(name@, url@),
{
    hashed_name(name, url.as_bytes())
}

/// Names the checkout directory of a git dependency for the project at `root`.
pub fn checkout_dir_name(name: &str, url: &str, root: &str) -> (r: String)
    ensures
        r@ == checkout_name(name@, url@, root@),
{
    let quoted = quote_path(root);
    let mut data: Vec<u8> = Vec::new();
    data.extend_from_slice(url.as_bytes());
    data.extend_from_slice(quoted.as_str().as_bytes());
    assert(data@ =~= encode_utf8(url@) + encode_utf8(quoted_path(root@)));
    hashed_name(name, data.as_slice())
}

/// The digits of two nibbles agree only where the nibbles do.
proof fn lemma_hex_digit_injective(a: u8, b: u8)
    requires
        a < 16,
        b < 16,
        hex_digit(a) == hex_digit(b),
    ensures
        a == b,
{
}

/// The hexadecimal rendering has two digits for every byte.
pub proof fn lemma_hex_lower_len(bytes: Seq<u8>)
    ensures
        hex_lower(bytes).len() == 2 * bytes.len(),
    decreases bytes.len(),
{
    if bytes.len() > 0 {
        lemma_hex_lower_len(bytes.drop_last());
    }
}

/// Byte strings of one length with the same hexadecimal rendering are equal.
pub proof fn lemma_hex_lower_injective(a: Seq<u8>, b: Seq<u8>)
    requires
        a.len() == b.len(),
        hex_lower(a) == hex_lower(b),
    ensures
        a == b,
    decreases a.len(),
{
    if a.len() > 0 {
        let x = hex_lower(a.drop_last());
        let y = hex_lower(b.drop_last());
        lemma_hex_lower_len(a.drop_last());
        lemma_hex_lower_len(b.drop_last());
        let full_a = x.push(hex_digit(a.last() / 16)).push(hex_digit(a.last() % 16));
        let full_b = y.push(hex_digit(b.last() / 16)).push(hex_digit(b.last() % 16));
        assert(full_a == full_b);
        assert(full_a[full_a.len() - 1] == hex_digit(a.last() % 16));
        assert(full_b[full_b.len() - 1] == hex_digit(b.last() % 16));
        assert(full_a[full_a.len() - 2] == hex_digit(a.last() / 16));
        assert(full_b[full_b.len() - 2] == hex_digit(b.last() / 16));
        lemma_hex_digit_injective(a.last() / 16, b.last() / 16);
        lemma_hex_digit_injective(a.last() % 16, b.last() % 16);
        assert(a.last() == b.last());
        assert(x =~= full_a.take(x.len() as int));
        assert(y =~= full_b.take(y.len() as int));
        lemma_hex_lower_injective(a.drop_last(), b.drop_last());
        assert(a =~= a.drop_last().push(a.last()));
        assert(b =~= b.drop_last().push(b.last()));
    } else {
        assert(a =~= b);
    }
}

/// Directory names that share the name of the dependency agree exactly where
/// the first eight bytes of the digests agree.
proof fn lemma_hashed_names(name: Seq<char>, first: Seq<u8>, second: Seq<u8>)
    ensures
        (name + seq!['-'] + short_hash(first) == name + seq!['-'] + short_hash(second)) <==> leading(
            blake2b_digest(first),
            8,
        ) == leading(blake2b_digest(second), 8),
{
    let a = leading(blake2b_digest(first), 8);
    let b = leading(blake2b_digest(second), 8);
    let left = name + seq!['-'] + short_hash(first);
    let right = name + seq!['-'] + short_hash(second);
    if left == right {
        let stem = name + seq!['-'];
        assert(hex_lower(a) =~= left.skip(stem.len() as int));
        assert(hex_lower(b) =~= right.skip(stem.len() as int));
        lemma_hex_lower_injective(a, b);
    }
}

/// A mirror is named by the dependency and the URL alone: the same two give
/// the same name. For one dependency, two URLs give different names unless
/// the digests of the URLs share their first eight bytes.
pub proof fn lemma_mirror_name_by_url(name: Seq<char>, first: Seq<char>, second: Seq<char>)
    ensures
        first == second ==> mirror_name(name, first) == mirror_name(name, second),
        mirror_name(name, first) == mirror_name(name, second) <==> leading(
            blake2b_digest(encode_utf8(first)),
            8,
        ) == leading(blake2b_digest(encode_utf8(second)), 8),
{
    lemma_hashed_names(name, encode_utf8(first), encode_utf8(second));
}

/// A checkout is named by the dependency, the URL and the root of the
/// project that uses it: the same three give the same name. For one
/// dependency and URL, two roots give different names unless the digests
/// share their first eight bytes.
pub proof fn lemma_checkout_name_by_root(
    name: Seq<char>,
    url: Seq<char>,
    first: Seq<char>,
    second: Seq<char>,
)
    ensures
        first == second ==> checkout_name(name, url, first) == checkout_name(name, url, second),
        checkout_name(name, url, first) == checkout_name(name, url, second) <==> leading(
            blake2b_digest(encode_utf8(url) + encode_utf8(quoted_path(first))),
            8,
        ) == leading(blake2b_digest(encode_utf8(url) + encode_utf8(quoted_path(second))), 8),
{
    lemma_hashed_names(
        name,
        encode_utf8(url) + encode_utf8(quoted_path(first)),
        encode_utf8(url) + encode_utf8(quoted_path(second)),
    );
}

} // verus!
