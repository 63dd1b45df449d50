//! The internal serialization format for byte payloads sent to a worker or
//! back to the main thread.
//!
//! A payload is framed as the LEB128 varint of its length followed by the
//! bytes themselves. Encoding and decoding are done by `postcard`; this
//! module states that format exactly, so that callers can reason about the
//! round trip.

use vstd::prelude::*;

verus! {

/// The LEB128 variable-length encoding of `n`: seven payload bits per byte,
/// least significant group first, the high bit marking continuation.
pub open spec fn spec_varint(n: nat) -> Seq<u8>
    decreases n,
{
    if n < 128 {
        seq![n as u8]
    } else {
        seq![(128 + n % 128) as u8] + spec_varint(n / 128)
    }
}

/// A byte sequence as this library sends it over the wire: the varint of
/// its length followed by the bytes themselves.
pub open spec fn spec_encode_bytes(s: Seq<u8>) -> Seq<u8> {
    spec_varint(s.len()) + s
}

/// Every varint byte but the last has the continuation bit set, and the
/// last does not; so a varint is never a proper prefix of another.
proof fn lemma_varint_structure(n: nat)
    ensures
        spec_varint(n).len() >= 1,
        forall|i: int| 0 <= i < spec_varint(n).len() - 1 ==> spec_varint(n)[i] >= 128,
        spec_varint(n).last() < 128,
    decreases n,
{
    if n >= 128 {
        lemma_varint_structure(n / 128);
    }
}

/// The encoding is injective: two sequences with the same encoding are the
/// same sequence. This is what lets a decoder recover a payload uniquely.
pub proof fn lemma_encode_bytes_injective(s1: Seq<u8>, s2: Seq<u8>)
    requires
        spec_encode_bytes(s1) == spec_encode_bytes(s2),
    ensures
        s1 == s2,
{
    let v1 = spec_varint(s1.len());
    let v2 = spec_varint(s2.len());
    lemma_varint_structure(s1.len());
    lemma_varint_structure(s2.len());
    let e = spec_encode_bytes(s1);
    if v1.len() < v2.len() {
        assert(e[v1.len() - 1] == v1.last());
        assert(e[v1.len() - 1] == v2[v1.len() - 1]);
        assert(false);
    }
    if v2.len() < v1.len() {
        assert(e[v2.len() - 1] == v2.last());
        assert(e[v2.len() - 1] == v1[v2.len() - 1]);
        assert(false);
    }
    assert(v1.len() == v2.len());
    assert(e == v2 + s2);
    assert(e.len() == v1.len() + s1.len());
    assert(e.len() == v2.len() + s2.len());
    assert(s1.len() == s2.len());
    assert(s1 =~= s2) by {
        assert(forall|i: int|
            0 <= i < s1.len() ==> s1[i] == e[v1.len() + i] && s2[i] == e[v1.len() + i]);
    }
}

/// Relies on `postcard::to_allocvec`: a vector of bytes is serialized as
/// the LEB128 varint of its length followed by its bytes, and serializing
/// a byte vector never fails.
#[verifier::external_body]
pub fn to_bytes(value: &Vec<u8>) -> (r: Vec<u8>)
    ensures
        r@ == spec_encode_bytes(value@),
{
    postcard::to_allocvec(value).expect("WebWorker serialization failed")
}

/// Relies on `postcard::from_bytes`: a slice that is exactly the encoding
/// of a byte sequence decodes to that sequence.
#[verifier::external_body]
fn from_bytes_exact(bytes: &[u8]) -> (r: Option<Vec<u8>>)
    ensures
        r is None ==> (forall|s: Seq<u8>| bytes@ != #[trigger] spec_encode_bytes(s)),
        r matches Some(v) ==> (forall|s: Seq<u8>|
            bytes@ == #[trigger] spec_encode_bytes(s) ==> v@ == s),
{
    postcard::from_bytes::<Vec<u8>>(bytes).ok()
}

/// Whether a slice and a vector hold the same bytes.
fn bytes_eq(a: &[u8], b: &Vec<u8>) -> (r: bool)
    ensures
        r <==> a@ == b@,
{
    let n = a.len();
    if n != b.len() {
        return false;
    }
    let mut i: usize = 0;
    while i < n
        invariant
            i <= n,
            n == a@.len(),
            n == b@.len(),
            forall|k: int| 0 <= k < i ==> a@[k] == b@[k],
        decreases n - i,
    {
        if a[i] != b[i] {
            return false;
        }
        i = i + 1;
    }
    proof {
        assert(a@ =~= b@);
    }
    true
}

/// Decodes a payload, checking validity at run time: returns the unique
/// sequence the input encodes, and `None` exactly when the input is not
/// the encoding of any sequence (trailing bytes included). This is the
/// entry for bytes from an untrusted peer, which the embedding cannot
/// know to be well-formed.
pub fn try_from_bytes(bytes: &[u8]) -> (r: Option<Vec<u8>>)
    ensures
        r matches Some(v) ==> spec_encode_bytes(v@) == bytes@,
        (exists|s: Seq<u8>| bytes@ == #[trigger] spec_encode_bytes(s)) <==> r is Some,
{
    match from_bytes_exact(bytes) {
        Some(v) => {
            // `postcard` tolerates trailing bytes; re-encoding and
            // comparing rejects exactly those inputs.
            let encoded = to_bytes(&v);
            if bytes_eq(bytes, &encoded) {
                Some(v)
            } else {
                proof {
                    if exists|s: Seq<u8>| bytes@ == #[trigger] spec_encode_bytes(s) {
                        let s = choose|s: Seq<u8>| bytes@ == #[trigger] spec_encode_bytes(s);
                        assert(v@ == s);
                    }
                }
                None
            }
        },
        None => None,
    }
}

/// Decodes a payload framed by [`to_bytes`]. Callers must pass a valid
/// encoding — anything else is a fatal protocol error at this layer — and
/// the result is the unique sequence the input encodes. A caller that
/// cannot establish validity uses [`try_from_bytes`] instead.
pub fn from_bytes(bytes: &[u8]) -> (r: Vec<u8>)
    requires
        exists|s: Seq<u8>| bytes@ == #[trigger] spec_encode_bytes(s),
    ensures
        spec_encode_bytes(r@) == bytes@,
{
    let opt = from_bytes_exact(bytes);
    proof {
        let s = choose|s: Seq<u8>| bytes@ == #[trigger] spec_encode_bytes(s);
        assert(opt matches Some(v) && v@ == s);
    }
    opt.unwrap()
}

} // verus!
