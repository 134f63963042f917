//! Canonical argument encoding and call-header assembly.
//!
//! The wire format is the external codec's: deterministic little-endian
//! primitives and a variable-length integer mode.  The codec itself is
//! called through trusted wrappers; the header assembly around it is
//! verified.

use vstd::prelude::*;

verus! {

/// The `n` little-endian bytes of a non-negative number.
pub open spec fn le_bytes(x: int, n: nat) -> Seq<u8>
    decreases n,
{
    if n == 0 {
        Seq::empty()
    } else {
        seq![(x % 256) as u8] + le_bytes(x / 256, (n - 1) as nat)
    }
}

/// The canonical variable-length encoding of a 32-bit number: two mode
/// bits in the lowest positions select one, two or four shifted bytes, or
/// a marker byte followed by the plain little-endian bytes.
pub open spec fn compact_u32_bytes(x: u32) -> Seq<u8> {
    if x <= 0x3f {
        seq![(x * 4) as u8]
    } else if x <= 0x3fff {
        le_bytes(x * 4 + 1, 2)
    } else if x <= 0x3fffffff {
        le_bytes(x * 4 + 2, 4)
    } else {
        seq![3u8] + le_bytes(x as int, 4)
    }
}

/// Relies on the codec's `Encode` for `u32`: four little-endian bytes.
#[verifier::external_body]
pub fn encode_u32(x: u32) -> (r: Vec<u8>)
    ensures
        r@ == le_bytes(x as int, 4),
{
    parity_scale_codec::Encode::encode(&x)
}

/// Relies on the codec's `Encode` for `u64`: eight little-endian bytes.
#[verifier::external_body]
pub fn encode_u64(x: u64) -> (r: Vec<u8>)
    ensures
        r@ == le_bytes(x as int, 8),
{
    parity_scale_codec::Encode::encode(&x)
}

/// Relies on the codec's `Encode` for `u128`: sixteen little-endian bytes.
#[verifier::external_body]
pub fn encode_u128(x: u128) -> (r: Vec<u8>)
    ensures
        r@ == le_bytes(x as int, 16),
{
    parity_scale_codec::Encode::encode(&x)
}

/// Relies on the codec's `Encode` for `bool`: one byte, 1 for true.
#[verifier::external_body]
pub fn encode_bool(b: bool) -> (r: Vec<u8>)
    ensures
        r@ == seq![if b { 1u8 } else { 0u8 }],
{
    parity_scale_codec::Encode::encode(&b)
}

/// Relies on the codec's `Encode` for `Compact<u32>`: the variable-length
/// integer mode.
#[verifier::external_body]
pub fn encode_compact_u32(x: u32) -> (r: Vec<u8>)
    ensures
        r@ == compact_u32_bytes(x),
{
    parity_scale_codec::Encode::encode(&parity_scale_codec::Compact(x))
}

/// The encodings concatenated in order.
pub open spec fn concat_encodings(chunks: Seq<Seq<u8>>) -> Seq<u8>
    decreases chunks.len(),
{
    if chunks.len() == 0 {
        Seq::empty()
    } else {
        concat_encodings(chunks.drop_last()) + chunks.last()
    }
}

/// The canonical call header: the fixed selector bytes followed by each
/// argument's encoding, in declared order.
pub open spec fn call_header(selector: Seq<u8>, args: Seq<Seq<u8>>) -> Seq<u8> {
    selector + concat_encodings(args)
}

/// Law: with no arguments the call header is exactly the selector bytes;
/// appending an argument appends exactly its encoding, so the header is a
/// reproducible function of the selector and the ordered encodings, and
/// changing the argument order changes which bytes stand where.
pub proof fn lemma_call_header(selector: Seq<u8>, args: Seq<Seq<u8>>, a: Seq<u8>)
    ensures
        call_header(selector, Seq::<Seq<u8>>::empty()) == selector,
        call_header(selector, args.push(a)) == call_header(selector, args) + a,
{
    assert(selector + Seq::<u8>::empty() =~= selector);
    assert(args.push(a).drop_last() =~= args);
    assert(args.push(a).last() == a);
    assert(selector + (concat_encodings(args) + a) =~= (selector + concat_encodings(args)) + a);
}

/// Appends all bytes of `src` to `dst`.
fn push_all(dst: &mut Vec<u8>, src: &Vec<u8>)
    ensures
        final(dst)@ == old(dst)@ + src@,
{
    let mut i: usize = 0;
    while i < src.len()
        invariant
            i <= src@.len(),
            dst@ == old(dst)@ + src@.take(i as int),
        decreases src@.len() - i,
    {
        dst.push(src[i]);
        proof {
            assert(old(dst)@ + src@.take(i + 1 as int) =~= (old(dst)@ + src@.take(i as int)).push(
                src@[i as int],
            ));
        }
        i = i + 1;
    }
    proof {
        assert(src@.take(src@.len() as int) =~= src@);
    }
}

/// Builds the call data of one invocation: the selector bytes followed by
/// the already-encoded arguments, in declared order.
pub fn call_data(selector: &Vec<u8>, args: &Vec<Vec<u8>>) -> (r: Vec<u8>)
    ensures
        r@ == call_header(selector@, args@.map_values(|a: Vec<u8>| a@)),
{
    let ghost chunks = args@.map_values(|a: Vec<u8>| a@);
    let mut r: Vec<u8> = Vec::new();
    push_all(&mut r, selector);
    proof {
        assert(Seq::<u8>::empty() + selector@ =~= selector@);
    }
    let mut i: usize = 0;
    while i < args.len()
        invariant
            i <= args@.len(),
            chunks == args@.map_values(|a: Vec<u8>| a@),
            r@ == selector@ + concat_encodings(chunks.take(i as int)),
        decreases args@.len() - i,
    {
        push_all(&mut r, &args[i]);
        proof {
            assert(chunks.take(i + 1 as int).drop_last() =~= chunks.take(i as int));
            assert(chunks.take(i + 1 as int).last() == chunks[i as int]);
            assert((selector@ + concat_encodings(chunks.take(i as int))) + chunks[i as int]
                =~= selector@ + (concat_encodings(chunks.take(i as int)) + chunks[i as int]));
        }
        i = i + 1;
    }
    proof {
        assert(chunks.take(chunks.len() as int) =~= chunks);
    }
    r
}

} // verus!
