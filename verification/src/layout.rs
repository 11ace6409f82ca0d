//! Where a key's value lives: the SHA-256 digest of the key's UTF-8 bytes,
//! spelled in lower-case hexadecimal, names a two-level directory (first
//! byte, second byte) and a file (the remaining thirty bytes).

use sha2::Digest;
use vstd::prelude::*;
use crate::paths::{join_path, path_join};

verus! {

/// The SHA-256 digest of a byte sequence, as `sha2::Sha256::digest` computes it.
pub uninterp spec fn sha256_digest(data: Seq<u8>) -> Seq<u8>;

/// Computes the SHA-256 digest of `data` with `sha2::Sha256::digest`.
/// Claimed: the digest is the named result `sha256_digest` of the bytes, and
/// it is 32 bytes long (the output size of SHA-256).
#[verifier::external_body]
fn sha256(data: &[u8]) -> (digest: Vec<u8>)
    ensures
        digest@ == sha256_digest(data@),
        digest@.len() == 32,
{
    sha2::Sha256::digest(data).to_vec()
}

/// The lower-case hexadecimal digit of a value below sixteen.
pub open spec fn hex_digit(v: int) -> char {
    if v < 10 {
        (v + 48) as char
    } else {
        (v + 87) as char
    }
}

/// Two lower-case hexadecimal digits per byte, high nibble first.
pub open spec fn hex_lower(bytes: Seq<u8>) -> Seq<char>
    decreases bytes.len(),
{
    if bytes.len() == 0 {
        seq![]
    } else {
        seq![hex_digit(bytes[0] as int / 16), hex_digit(bytes[0] as int % 16)] + hex_lower(bytes.drop_first())
    }
}

/// Encodes `data` with `hex::encode`, which spells every byte as two
/// lower-case hexadecimal digits, high nibble first. Claimed: the text is
/// `hex_lower` of the bytes.
#[verifier::external_body]
fn hex_encode(data: &[u8]) -> (text: String)
    ensures
        text@ == hex_lower(data@),
{
    hex::encode(data)
}

/// The UTF-8 bytes of a key, which is what gets hashed.
pub open spec fn key_digest(key: Seq<char>) -> Seq<u8> {
    sha256_digest(vstd::utf8::encode_utf8(key))
}

/// The first-level directory name of a digest.
pub open spec fn first_dir(digest: Seq<u8>) -> Seq<char> {
    hex_lower(digest.subrange(0, 1))
}

/// The second-level directory name of a digest.
pub open spec fn second_dir(digest: Seq<u8>) -> Seq<char> {
    hex_lower(digest.subrange(1, 2))
}

/// The file name of a digest.
pub open spec fn file_stem(digest: Seq<u8>) -> Seq<char> {
    hex_lower(digest.skip(2))
}

/// The directory below `base` that holds the file of a digest.
pub open spec fn bucket_dir(base: Seq<char>, digest: Seq<u8>) -> Seq<char> {
    path_join(path_join(base, first_dir(digest)), second_dir(digest))
}

/// Hashes a key's UTF-8 bytes with SHA-256.
pub fn key_hash(key: &str) -> (digest: Vec<u8>)
    ensures
        digest@ == key_digest(key@),
        digest@.len() == 32,
{
    sha256(key.as_bytes())
}

/// Splits a digest into its two directory names and its file name.
pub fn digest_parts(digest: &[u8]) -> (parts: (String, String, String))
    requires
        digest@.len() >= 2,
    ensures
        parts.0@ == first_dir(digest@),
        parts.1@ == second_dir(digest@),
        parts.2@ == file_stem(digest@),
{
    let (head, tail) = digest.split_at(2);
    let (first, second) = head.split_at(1);
    assert(first@ == digest@.subrange(0, 1));
    assert(second@ == digest@.subrange(1, 2));
    assert(tail@ == digest@.skip(2));
    (hex_encode(first), hex_encode(second), hex_encode(tail))
}

/// The directory (below `base`) and the file name for a digest.
pub fn cache_path_from_digest(base: &str, digest: &[u8]) -> (path: (String, String))
    requires
        digest@.len() >= 2,
    ensures
        path.0@ == bucket_dir(base@, digest@),
        path.1@ == file_stem(digest@),
{
    let (first, second, file) = digest_parts(digest);
    let top = join_path(base, first.as_str());
    let dir = join_path(top.as_str(), second.as_str());
    (dir, file)
}

/// Hex spelling distributes over concatenation.
pub proof fn lemma_hex_concat(a: Seq<u8>, b: Seq<u8>)
    ensures
        hex_lower(a + b) == hex_lower(a) + hex_lower(b),
    decreases a.len(),
{
    if a.len() == 0 {
        assert(a + b =~= b);
    } else {
        lemma_hex_concat(a.drop_first(), b);
        assert((a + b).drop_first() =~= a.drop_first() + b);
        assert(hex_lower(a + b) =~= hex_lower(a) + hex_lower(b));
    }
}

/// Every byte is spelled with exactly two characters.
pub proof fn lemma_hex_len(a: Seq<u8>)
    ensures
        hex_lower(a).len() == 2 * a.len(),
    decreases a.len(),
{
    if a.len() > 0 {
        lemma_hex_len(a.drop_first());
    }
}

/// The two directory names followed by the file name spell the whole digest
/// in hexadecimal; for a 32-byte digest the names are 2, 2 and 60 characters
/// long.
pub proof fn law_parts_spell_digest(digest: Seq<u8>)
    requires
        digest.len() >= 2,
    ensures
        first_dir(digest) + second_dir(digest) + file_stem(digest) == hex_lower(digest),
        first_dir(digest).len() == 2,
        second_dir(digest).len() == 2,
        file_stem(digest).len() == 2 * digest.len() - 4,
{
    let a = digest.subrange(0, 1);
    let b = digest.subrange(1, 2);
    let c = digest.skip(2);
    assert(digest =~= a + b + c);
    lemma_hex_concat(a + b, c);
    lemma_hex_concat(a, b);
    lemma_hex_len(a);
    lemma_hex_len(b);
    lemma_hex_len(c);
}

/// Distinct values below sixteen have distinct digits, and no digit is a
/// path separator.
proof fn lemma_hex_digit_injective(a: int, b: int)
    requires
        0 <= a < 16,
        0 <= b < 16,
    ensures
        hex_digit(a) == hex_digit(b) ==> a == b,
        hex_digit(a) != '/',
{
}

/// Hex spellings that agree come from the same bytes.
pub proof fn lemma_hex_injective(a: Seq<u8>, b: Seq<u8>)
    requires
        hex_lower(a) == hex_lower(b),
    ensures
        a == b,
    decreases a.len(),
{
    lemma_hex_len(a);
    lemma_hex_len(b);
    if a.len() > 0 {
        let ha = hex_lower(a);
        let hb = hex_lower(b);
        assert(ha[0] == hb[0] && ha[1] == hb[1]);
        lemma_hex_digit_injective(a[0] as int / 16, b[0] as int / 16);
        lemma_hex_digit_injective(a[0] as int % 16, b[0] as int % 16);
        assert(a[0] == b[0]);
        assert(hex_lower(a.drop_first()) =~= ha.skip(2));
        assert(hex_lower(b.drop_first()) =~= hb.skip(2));
        lemma_hex_injective(a.drop_first(), b.drop_first());
        assert(a =~= seq![a[0]] + a.drop_first());
        assert(b =~= seq![b[0]] + b.drop_first());
    } else {
        assert(a =~= b);
    }
}

/// The first character of a non-empty hex spelling is not a separator.
proof fn lemma_hex_relative(a: Seq<u8>)
    requires
        a.len() > 0,
    ensures
        hex_lower(a).len() > 0,
        hex_lower(a)[0] != '/',
        hex_lower(a).last() != '/',
{
    lemma_hex_len(a);
    lemma_hex_digit_injective(a[0] as int / 16, 0);
    let n = a.len() - 1;
    assert(hex_lower(a) =~= hex_lower(a.subrange(0, n)) + hex_lower(a.subrange(n, n + 1))) by {
        assert(a =~= a.subrange(0, n) + a.subrange(n, n + 1));
        lemma_hex_concat(a.subrange(0, n), a.subrange(n, n + 1));
    }
    let last = a.subrange(n, n + 1);
    assert(last.drop_first() =~= Seq::<u8>::empty());
    assert(hex_lower(last.drop_first()) =~= Seq::<char>::empty());
    assert(hex_lower(last) =~= seq![hex_digit(last[0] as int / 16), hex_digit(last[0] as int % 16)]);
    lemma_hex_digit_injective(last[0] as int % 16, 0);
}

/// Law: two digests give the same directory (below the same base) and the
/// same file name exactly when they are the same digest; no digest byte is
/// lost in the layout.
pub proof fn law_location_identifies_digest(base: Seq<char>, d1: Seq<u8>, d2: Seq<u8>)
    requires
        d1.len() >= 2,
        d2.len() >= 2,
    ensures
        (bucket_dir(base, d1) == bucket_dir(base, d2) && file_stem(d1) == file_stem(d2)) <==> d1
            == d2,
{
    if bucket_dir(base, d1) == bucket_dir(base, d2) && file_stem(d1) == file_stem(d2) {
        let f1 = first_dir(d1);
        let f2 = first_dir(d2);
        let s1 = second_dir(d1);
        let s2 = second_dir(d2);
        lemma_hex_relative(d1.subrange(0, 1));
        lemma_hex_relative(d2.subrange(0, 1));
        lemma_hex_relative(d1.subrange(1, 2));
        lemma_hex_relative(d2.subrange(1, 2));
        lemma_hex_len(d1.subrange(0, 1));
        lemma_hex_len(d2.subrange(0, 1));
        lemma_hex_len(d1.subrange(1, 2));
        lemma_hex_len(d2.subrange(1, 2));
        let pre: Seq<char> = if base.len() == 0 || base.last() == '/' { base } else { base + seq!['/'] };
        assert(path_join(base, f1) =~= pre + f1);
        assert(path_join(base, f2) =~= pre + f2);
        let full1 = pre + f1 + seq!['/'] + s1;
        let full2 = pre + f2 + seq!['/'] + s2;
        assert(bucket_dir(base, d1) =~= full1);
        assert(bucket_dir(base, d2) =~= full2);
        let k = pre.len() as int;
        assert(full1.subrange(k, k + 2) =~= f1);
        assert(full2.subrange(k, k + 2) =~= f2);
        assert(full1.subrange(k + 3, k + 5) =~= s1);
        assert(full2.subrange(k + 3, k + 5) =~= s2);
        lemma_hex_injective(d1.subrange(0, 1), d2.subrange(0, 1));
        lemma_hex_injective(d1.subrange(1, 2), d2.subrange(1, 2));
        lemma_hex_injective(d1.skip(2), d2.skip(2));
        assert(d1 =~= d1.subrange(0, 1) + d1.subrange(1, 2) + d1.skip(2));
        assert(d2 =~= d2.subrange(0, 1) + d2.subrange(1, 2) + d2.skip(2));
    }
}

/// A directory spelled from a digest's hex text: its first two characters,
/// a `/`, and the next two.
pub open spec fn spelled_dir(hex: Seq<char>) -> Seq<char> {
    hex.subrange(0, 2) + seq!['/'] + hex.subrange(2, 4)
}

/// A file spelled from a digest's hex text: the directory of `spelled_dir`,
/// a `/`, and the rest of the hex text.
pub open spec fn spelled_file(hex: Seq<char>) -> Seq<char> {
    spelled_dir(hex) + seq!['/'] + hex.skip(4)
}

/// Law: the directory and the file of a digest, below any base, are the base
/// joined with the digest's whole hex text cut after its second and fourth
/// characters: two digits, `/`, two digits (the directory), then `/` and the
/// remaining digits (the file). Below an empty base the two directory names
/// join to the same two-level text.
pub proof fn law_layout_spells_digest(base: Seq<char>, d: Seq<u8>)
    requires
        d.len() >= 2,
    ensures
        hex_lower(d).len() == 2 * d.len(),
        bucket_dir(base, d) == path_join(base, spelled_dir(hex_lower(d))),
        path_join(bucket_dir(base, d), file_stem(d)) == path_join(base, spelled_file(hex_lower(d))),
        path_join(first_dir(d), second_dir(d)) == spelled_dir(hex_lower(d)),
        path_join(path_join(first_dir(d), second_dir(d)), file_stem(d)) == spelled_file(
            hex_lower(d),
        ),
{
    let h = hex_lower(d);
    let f = first_dir(d);
    let s = second_dir(d);
    let t = file_stem(d);
    law_parts_spell_digest(d);
    lemma_hex_len(d);
    assert(h =~= f + s + t);
    assert(h.subrange(0, 2) =~= f);
    assert(h.subrange(2, 4) =~= s);
    assert(h.skip(4) =~= t);
    lemma_hex_relative(d.subrange(0, 1));
    lemma_hex_relative(d.subrange(1, 2));
    if d.len() > 2 {
        lemma_hex_relative(d.skip(2));
    }
    let fs = f + seq!['/'] + s;
    assert(path_join(f, s) =~= fs);
    assert(fs.last() == s.last());
    assert(path_join(fs, t) =~= fs + seq!['/'] + t);
    crate::paths::lemma_join_assoc(base, f, s);
    crate::paths::lemma_join_assoc(base, fs, t);
}

/// Two spellings of hex texts of at least four characters agree only when
/// the texts agree.
pub proof fn lemma_spelled_file_injective(h1: Seq<char>, h2: Seq<char>)
    requires
        h1.len() >= 4,
        h2.len() >= 4,
        spelled_file(h1) == spelled_file(h2),
    ensures
        h1 == h2,
{
    let r1 = spelled_file(h1);
    let r2 = spelled_file(h2);
    assert(h1 =~= r1.subrange(0, 2) + r1.subrange(3, 5) + r1.skip(6));
    assert(h2 =~= r2.subrange(0, 2) + r2.subrange(3, 5) + r2.skip(6));
}

/// Law: below one base, two digests give the same file exactly when they are
/// the same digest.
pub proof fn law_file_identifies_digest(base: Seq<char>, d1: Seq<u8>, d2: Seq<u8>)
    requires
        d1.len() >= 2,
        d2.len() >= 2,
    ensures
        path_join(base, spelled_file(hex_lower(d1))) == path_join(base, spelled_file(hex_lower(d2)))
            <==> d1 == d2,
{
    let h1 = hex_lower(d1);
    let h2 = hex_lower(d2);
    lemma_hex_len(d1);
    lemma_hex_len(d2);
    let r1 = spelled_file(h1);
    let r2 = spelled_file(h2);
    if path_join(base, r1) == path_join(base, r2) {
        lemma_hex_relative(d1);
        lemma_hex_relative(d2);
        assert(r1[0] == h1[0]);
        assert(r2[0] == h2[0]);
        let pre: Seq<char> = if base.len() == 0 || base.last() == '/' { base } else { base + seq!['/'] };
        assert(path_join(base, r1) =~= pre + r1);
        assert(path_join(base, r2) =~= pre + r2);
        assert(r1 =~= (pre + r1).skip(pre.len() as int));
        assert(r2 =~= (pre + r2).skip(pre.len() as int));
        lemma_spelled_file_injective(h1, h2);
        lemma_hex_injective(d1, d2);
    }
}

/// Law: two digests give the same flat file text `base/xx/yy/rest` exactly
/// when they are the same digest.
pub proof fn law_flat_file_identifies_digest(base: Seq<char>, d1: Seq<u8>, d2: Seq<u8>)
    requires
        d1.len() >= 2,
        d2.len() >= 2,
    ensures
        base + seq!['/'] + spelled_file(hex_lower(d1)) == base + seq!['/'] + spelled_file(
            hex_lower(d2),
        ) <==> d1 == d2,
{
    let h1 = hex_lower(d1);
    let h2 = hex_lower(d2);
    lemma_hex_len(d1);
    lemma_hex_len(d2);
    let p = base + seq!['/'];
    if p + spelled_file(h1) == p + spelled_file(h2) {
        assert(spelled_file(h1) =~= (p + spelled_file(h1)).skip(p.len() as int));
        assert(spelled_file(h2) =~= (p + spelled_file(h2)).skip(p.len() as int));
        lemma_spelled_file_injective(h1, h2);
        lemma_hex_injective(d1, d2);
    }
}

/// The hex text of a digest cut after its second and fourth characters gives
/// the two directory names and the file name.
pub proof fn lemma_hex_cuts(d: Seq<u8>)
    requires
        d.len() >= 2,
    ensures
        hex_lower(d).len() == 2 * d.len(),
        hex_lower(d).subrange(0, 2) == first_dir(d),
        hex_lower(d).subrange(2, 4) == second_dir(d),
        hex_lower(d).skip(4) == file_stem(d),
{
    law_parts_spell_digest(d);
    lemma_hex_len(d);
    let h = hex_lower(d);
    assert(h =~= first_dir(d) + second_dir(d) + file_stem(d));
    assert(h.subrange(0, 2) =~= first_dir(d));
    assert(h.subrange(2, 4) =~= second_dir(d));
    assert(h.skip(4) =~= file_stem(d));
}

} // verus!
