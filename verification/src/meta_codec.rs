//! The byte form of cache metadata records: oxicode's standard configuration
//! (little-endian, variable-length integers) applied to a record whose fields
//! are a location (the bytes of a path) followed by unsigned 64-bit integers.
//! A path is written as its byte length followed by its bytes, the form a
//! Unix `PathBuf` takes; reading one back accepts any bytes.

use vstd::prelude::*;

verus! {

/// A metadata record that could not be read back; the text says why.
pub struct MetaDecodeError {
    pub message: String,
}

/// The bytes of a metadata store's answer, if it had any.
pub open spec fn answer_bytes(answer: Option<Vec<u8>>) -> Option<Seq<u8>> {
    match answer {
        Some(b) => Some(b@),
        None => None,
    }
}

/// `256` to the power `n`.
pub open spec fn pow256(n: nat) -> nat
    decreases n,
{
    if n == 0 {
        1
    } else {
        256 * pow256((n - 1) as nat)
    }
}

/// The `n` low-order bytes of `v`, least significant first.
pub open spec fn le_bytes(v: nat, n: nat) -> Seq<u8>
    decreases n,
{
    if n == 0 {
        seq![]
    } else {
        seq![(v % 256) as u8] + le_bytes(v / 256, (n - 1) as nat)
    }
}

/// The value of bytes read least significant first.
pub open spec fn le_value(b: Seq<u8>) -> nat
    decreases b.len(),
{
    if b.len() == 0 {
        0
    } else {
        b[0] as nat + 256 * le_value(b.drop_first())
    }
}

/// The variable-length form of an unsigned integer: values up to 250 are one
/// byte; larger ones are a tag (251, 252, 253) followed by the value in 2, 4
/// or 8 little-endian bytes, the shortest that holds it.
pub open spec fn varint(v: u64) -> Seq<u8> {
    if v <= 250 {
        seq![v as u8]
    } else if v <= 0xffff {
        seq![251u8] + le_bytes(v as nat, 2)
    } else if v <= 0xffff_ffff {
        seq![252u8] + le_bytes(v as nat, 4)
    } else {
        seq![253u8] + le_bytes(v as nat, 8)
    }
}

/// A byte field: its length as a variable-length integer, then the bytes.
pub open spec fn bytes_field(b: Seq<u8>) -> Seq<u8> {
    varint(b.len() as u64) + b
}

/// The bytes of a (location, size) record.
pub open spec fn pair_encoding(location: Seq<u8>, size: u64) -> Seq<u8> {
    bytes_field(location) + varint(size)
}

/// The bytes of a (location, size, expiry) record.
pub open spec fn triple_encoding(location: Seq<u8>, size: u64, expires: u64) -> Seq<u8> {
    pair_encoding(location, size) + varint(expires)
}

/// Reads a variable-length integer at the start of `b`: the value and the
/// number of bytes it took, or `None` when the tag is unknown or bytes are
/// missing. A long form is accepted even where a shorter one would do.
pub open spec fn parse_varint(b: Seq<u8>) -> Option<(u64, int)> {
    if b.len() == 0 {
        None
    } else if b[0] <= 250 {
        Some((b[0] as u64, 1))
    } else if b[0] == 251 {
        if b.len() >= 3 { Some((le_value(b.subrange(1, 3)) as u64, 3)) } else { None }
    } else if b[0] == 252 {
        if b.len() >= 5 { Some((le_value(b.subrange(1, 5)) as u64, 5)) } else { None }
    } else if b[0] == 253 {
        if b.len() >= 9 { Some((le_value(b.subrange(1, 9)) as u64, 9)) } else { None }
    } else {
        None
    }
}

/// Reads a byte field at the start of `b`: its bytes and the bytes it took,
/// or `None` when the length is unreadable or the bytes run short.
pub open spec fn parse_bytes(b: Seq<u8>) -> Option<(Seq<u8>, int)> {
    match parse_varint(b) {
        Some((len, k)) => {
            if k + len <= b.len() {
                Some((b.subrange(k, k + len), k + len))
            } else {
                None
            }
        },
        None => None,
    }
}

/// Reads a (location, size) record at the start of `b`, with the bytes it took.
pub open spec fn parse_pair(b: Seq<u8>) -> Option<(Seq<u8>, u64, int)> {
    match parse_bytes(b) {
        Some((location, n1)) => match parse_varint(b.skip(n1)) {
            Some((size, n2)) => Some((location, size, n1 + n2)),
            None => None,
        },
        None => None,
    }
}

/// Reads a (location, size, expiry) record at the start of `b`, with the bytes it took.
pub open spec fn parse_triple(b: Seq<u8>) -> Option<(Seq<u8>, u64, u64, int)> {
    match parse_pair(b) {
        Some((location, size, n1)) => match parse_varint(b.skip(n1)) {
            Some((expires, n2)) => Some((location, size, expires, n1 + n2)),
            None => None,
        },
        None => None,
    }
}

/// Encodes a (location, size) record with `oxicode::encode_to_vec`, the
/// location as a byte slice (length, then bytes; a Unix `PathBuf` encodes
/// the same way). Claimed: the bytes are `pair_encoding` of the fields. The encoder writes
/// into a growing vector, whose writes never fail, so the error arm is never
/// taken.
#[verifier::external_body]
pub(crate) fn encode_pair(location: &[u8], size: u64) -> (bytes: Vec<u8>)
    ensures
        bytes@ == pair_encoding(location@, size),
{
    match oxicode::encode_to_vec(&(location, size)) {
        Ok(bytes) => bytes,
        Err(_) => Vec::new(),
    }
}

/// Encodes a (location, size, expiry) record with `oxicode::encode_to_vec`.
/// Claimed: the bytes are `triple_encoding` of the fields; as for pairs, the
/// error arm is never taken.
#[verifier::external_body]
pub(crate) fn encode_triple(location: &[u8], size: u64, expires: u64) -> (bytes: Vec<u8>)
    ensures
        bytes@ == triple_encoding(location@, size, expires),
{
    match oxicode::encode_to_vec(&(location, size, expires)) {
        Ok(bytes) => bytes,
        Err(_) => Vec::new(),
    }
}

/// Decodes a (location, size) record with `oxicode::decode_from_slice`, the
/// location as a byte vector (which accepts exactly the bytes a Unix
/// `PathBuf` decode accepts).
/// Claimed: it succeeds exactly when `parse_pair` reads a record, and then
/// returns that record and the bytes it took. Of a failure only the error's
/// text is returned, and nothing is claimed of that text.
#[verifier::external_body]
pub(crate) fn decode_pair(bytes: &[u8]) -> (res: Result<(Vec<u8>, u64, usize), String>)
    ensures
        match res {
            Ok((location, size, used)) => parse_pair(bytes@) == Some((location@, size, used as int)),
            Err(_) => parse_pair(bytes@) is None,
        },
{
    match oxicode::decode_from_slice::<(Vec<u8>, u64)>(bytes) {
        Ok(((location, size), used)) => Ok((location, size, used)),
        Err(e) => Err(e.to_string()),
    }
}

/// Decodes a (location, size, expiry) record with `oxicode::decode_from_slice`.
/// Claimed: it succeeds exactly when `parse_triple` reads a record, and then
/// returns that record and the bytes it took; nothing is claimed of the text
/// of a failure.
#[verifier::external_body]
pub(crate) fn decode_triple(bytes: &[u8]) -> (res: Result<(Vec<u8>, u64, u64, usize), String>)
    ensures
        match res {
            Ok((location, size, expires, used)) => parse_triple(bytes@) == Some(
                (location@, size, expires, used as int),
            ),
            Err(_) => parse_triple(bytes@) is None,
        },
{
    match oxicode::decode_from_slice::<(Vec<u8>, u64, u64)>(bytes) {
        Ok(((location, size, expires), used)) => Ok((location, size, expires, used)),
        Err(e) => Err(e.to_string()),
    }
}

/// Little-endian bytes read back give the value they were cut from.
pub proof fn lemma_le_roundtrip(v: nat, n: nat)
    requires
        v < pow256(n),
    ensures
        le_bytes(v, n).len() == n,
        le_value(le_bytes(v, n)) == v,
    decreases n,
{
    if n > 0 {
        let p: nat = pow256((n - 1) as nat);
        assert(v / 256 < p) by (nonlinear_arith)
            requires
                v < 256 * p,
        ;
        lemma_le_roundtrip(v / 256, (n - 1) as nat);
        let b = le_bytes(v, n);
        assert(b.drop_first() =~= le_bytes(v / 256, (n - 1) as nat));
        assert(v == v % 256 + 256 * (v / 256)) by (nonlinear_arith);
    }
}

/// A variable-length integer reads back as itself, whatever follows it.
pub proof fn lemma_varint_roundtrip(v: u64, rest: Seq<u8>)
    ensures
        parse_varint(varint(v) + rest) == Some((v, varint(v).len() as int)),
{
    reveal_with_fuel(pow256, 9);
    let b = varint(v) + rest;
    if v <= 250 {
    } else if v <= 0xffff {
        lemma_le_roundtrip(v as nat, 2);
        assert(b.subrange(1, 3) =~= le_bytes(v as nat, 2));
    } else if v <= 0xffff_ffff {
        lemma_le_roundtrip(v as nat, 4);
        assert(b.subrange(1, 5) =~= le_bytes(v as nat, 4));
    } else {
        lemma_le_roundtrip(v as nat, 8);
        assert(b.subrange(1, 9) =~= le_bytes(v as nat, 8));
    }
}

/// A byte field reads back as its bytes, whatever follows it.
pub proof fn lemma_bytes_roundtrip(body: Seq<u8>, rest: Seq<u8>)
    requires
        body.len() <= u64::MAX,
    ensures
        parse_bytes(bytes_field(body) + rest) == Some((body, bytes_field(body).len() as int)),
{
    let len: u64 = body.len() as u64;
    let head = varint(len);
    let b = bytes_field(body) + rest;
    lemma_varint_roundtrip(len, body + rest);
    assert(b =~= head + (body + rest));
    let k: int = head.len() as int;
    assert(b.subrange(k, k + len) =~= body);
}

/// Law: a (location, size) record reads back as the same record, whatever
/// bytes follow it.
pub proof fn law_pair_roundtrip(location: Seq<u8>, size: u64, rest: Seq<u8>)
    requires
        location.len() <= u64::MAX,
    ensures
        parse_pair(pair_encoding(location, size) + rest) == Some(
            (location, size, pair_encoding(location, size).len() as int),
        ),
{
    let f = bytes_field(location);
    let b = pair_encoding(location, size) + rest;
    assert(b =~= f + (varint(size) + rest));
    lemma_bytes_roundtrip(location, varint(size) + rest);
    assert(b.skip(f.len() as int) =~= varint(size) + rest);
    lemma_varint_roundtrip(size, rest);
}

/// Law: a (location, size, expiry) record reads back as the same record,
/// whatever bytes follow it.
pub proof fn law_triple_roundtrip(location: Seq<u8>, size: u64, expires: u64, rest: Seq<u8>)
    requires
        location.len() <= u64::MAX,
    ensures
        parse_triple(triple_encoding(location, size, expires) + rest) == Some(
            (location, size, expires, triple_encoding(location, size, expires).len() as int),
        ),
{
    let p = pair_encoding(location, size);
    let b = triple_encoding(location, size, expires) + rest;
    assert(b =~= p + (varint(expires) + rest));
    law_pair_roundtrip(location, size, varint(expires) + rest);
    assert(b.skip(p.len() as int) =~= varint(expires) + rest);
    lemma_varint_roundtrip(expires, rest);
}

} // verus!
