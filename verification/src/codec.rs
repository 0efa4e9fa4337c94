//! Deterministic, length-prefixed binary encoding of the chain data model.
//!
//! Fixed-width integers are little-endian; byte strings and lists carry a
//! 64-bit length prefix. Every encoder has a specification-level mirror, and
//! decoding an encoding is proved to give back the encoded value.
use vstd::prelude::*;

use crate::chain::{
    CheckpointBeacon, CheckpointBeaconV, ChainInfo, ChainInfoV, CommitOutput, CommitOutputV,
    ConsensusConstants, ConsensusConstantsV, DataRequestOutput, DataRequestOutputV, Environment,
    Output, OutputPointer, OutputPointerV, OutputV, RevealOutput, RevealOutputV, TallyOutput,
    TallyOutputV, ValueTransferOutput, ValueTransferOutputV,
};
use crate::data_request::{DataRequestInfo, DataRequestInfoV, DataRequestStage};

verus! {

/// Whether a length fits the 64-bit prefix.
pub open spec fn fits_len(n: nat) -> bool {
    n < 0x1_0000_0000_0000_0000
}

// ---------------------------------------------------------------------------
// Fixed-width integers
// ---------------------------------------------------------------------------
pub open spec fn enc_u8(x: u8) -> Seq<u8> {
    seq![x]
}

pub open spec fn enc_u16(x: u16) -> Seq<u8> {
    seq![(x & 0xff) as u8, ((x >> 8) & 0xff) as u8]
}

pub open spec fn enc_u32(x: u32) -> Seq<u8> {
    seq![
        (x & 0xff) as u8,
        ((x >> 8) & 0xff) as u8,
        ((x >> 16) & 0xff) as u8,
        ((x >> 24) & 0xff) as u8,
    ]
}

pub open spec fn enc_u64(x: u64) -> Seq<u8> {
    seq![
        (x & 0xff) as u8,
        ((x >> 8) & 0xff) as u8,
        ((x >> 16) & 0xff) as u8,
        ((x >> 24) & 0xff) as u8,
        ((x >> 32) & 0xff) as u8,
        ((x >> 40) & 0xff) as u8,
        ((x >> 48) & 0xff) as u8,
        ((x >> 56) & 0xff) as u8,
    ]
}

pub open spec fn dec_u8(s: Seq<u8>) -> Option<(u8, Seq<u8>)> {
    if s.len() >= 1 {
        Some((s[0], s.skip(1)))
    } else {
        None
    }
}

pub open spec fn dec_u16(s: Seq<u8>) -> Option<(u16, Seq<u8>)> {
    if s.len() >= 2 {
        Some(((s[0] as u16) | ((s[1] as u16) << 8), s.skip(2)))
    } else {
        None
    }
}

pub open spec fn dec_u32(s: Seq<u8>) -> Option<(u32, Seq<u8>)> {
    if s.len() >= 4 {
        Some(
            (
                (s[0] as u32) | ((s[1] as u32) << 8) | ((s[2] as u32) << 16) | (
                (s[3] as u32) << 24),
                s.skip(4),
            ),
        )
    } else {
        None
    }
}

pub open spec fn dec_u64(s: Seq<u8>) -> Option<(u64, Seq<u8>)> {
    if s.len() >= 8 {
        Some(
            (
                (s[0] as u64) | ((s[1] as u64) << 8) | ((s[2] as u64) << 16) | ((s[3] as u64)
                    << 24) | ((s[4] as u64) << 32) | ((s[5] as u64) << 40) | ((s[6] as u64) << 48)
                    | ((s[7] as u64) << 56),
                s.skip(8),
            ),
        )
    } else {
        None
    }
}

pub proof fn lemma_dec_enc_u8(x: u8, rest: Seq<u8>)
    ensures
        dec_u8(enc_u8(x) + rest) == Some((x, rest)),
{
    let s = enc_u8(x) + rest;
    assert(s[0] == x);
    assert(s.skip(1) =~= rest);
}

pub proof fn lemma_dec_enc_u16(x: u16, rest: Seq<u8>)
    ensures
        dec_u16(enc_u16(x) + rest) == Some((x, rest)),
{
    let s = enc_u16(x) + rest;
    assert(s[0] == (x & 0xff) as u8);
    assert(s[1] == ((x >> 8) & 0xff) as u8);
    assert((((x & 0xff) as u8) as u16) | (((((x >> 8) & 0xff) as u8) as u16) << 8) == x)
        by (bit_vector);
    assert(s.skip(2) =~= rest);
}

pub proof fn lemma_dec_enc_u32(x: u32, rest: Seq<u8>)
    ensures
        dec_u32(enc_u32(x) + rest) == Some((x, rest)),
{
    let s = enc_u32(x) + rest;
    assert(s[0] == (x & 0xff) as u8);
    assert(s[1] == ((x >> 8) & 0xff) as u8);
    assert(s[2] == ((x >> 16) & 0xff) as u8);
    assert(s[3] == ((x >> 24) & 0xff) as u8);
    assert((((x & 0xff) as u8) as u32) | (((((x >> 8) & 0xff) as u8) as u32) << 8) | (((((x >> 16)
        & 0xff) as u8) as u32) << 16) | (((((x >> 24) & 0xff) as u8) as u32) << 24) == x)
        by (bit_vector);
    assert(s.skip(4) =~= rest);
}

pub proof fn lemma_dec_enc_u64(x: u64, rest: Seq<u8>)
    ensures
        dec_u64(enc_u64(x) + rest) == Some((x, rest)),
{
    let s = enc_u64(x) + rest;
    assert(s[0] == (x & 0xff) as u8);
    assert(s[1] == ((x >> 8) & 0xff) as u8);
    assert(s[2] == ((x >> 16) & 0xff) as u8);
    assert(s[3] == ((x >> 24) & 0xff) as u8);
    assert(s[4] == ((x >> 32) & 0xff) as u8);
    assert(s[5] == ((x >> 40) & 0xff) as u8);
    assert(s[6] == ((x >> 48) & 0xff) as u8);
    assert(s[7] == ((x >> 56) & 0xff) as u8);
    assert((((x & 0xff) as u8) as u64) | (((((x >> 8) & 0xff) as u8) as u64) << 8) | (((((x >> 16)
        & 0xff) as u8) as u64) << 16) | (((((x >> 24) & 0xff) as u8) as u64) << 24) | (((((x >> 32)
        & 0xff) as u8) as u64) << 32) | (((((x >> 40) & 0xff) as u8) as u64) << 40) | (((((x >> 48)
        & 0xff) as u8) as u64) << 48) | (((((x >> 56) & 0xff) as u8) as u64) << 56) == x)
        by (bit_vector);
    assert(s.skip(8) =~= rest);
}

pub fn write_u8(out: &mut Vec<u8>, x: u8)
    ensures
        final(out)@ == old(out)@ + enc_u8(x),
{
    out.push(x);
    proof {
        assert(out@ =~= old(out)@ + enc_u8(x));
    }
}

pub fn write_u16(out: &mut Vec<u8>, x: u16)
    ensures
        final(out)@ == old(out)@ + enc_u16(x),
{
    out.push((x & 0xff) as u8);
    out.push(((x >> 8) & 0xff) as u8);
    proof {
        assert(out@ =~= old(out)@ + enc_u16(x));
    }
}

pub fn write_u32(out: &mut Vec<u8>, x: u32)
    ensures
        final(out)@ == old(out)@ + enc_u32(x),
{
    out.push((x & 0xff) as u8);
    out.push(((x >> 8) & 0xff) as u8);
    out.push(((x >> 16) & 0xff) as u8);
    out.push(((x >> 24) & 0xff) as u8);
    proof {
        assert(out@ =~= old(out)@ + enc_u32(x));
    }
}

pub fn write_u64(out: &mut Vec<u8>, x: u64)
    ensures
        final(out)@ == old(out)@ + enc_u64(x),
{
    out.push((x & 0xff) as u8);
    out.push(((x >> 8) & 0xff) as u8);
    out.push(((x >> 16) & 0xff) as u8);
    out.push(((x >> 24) & 0xff) as u8);
    out.push(((x >> 32) & 0xff) as u8);
    out.push(((x >> 40) & 0xff) as u8);
    out.push(((x >> 48) & 0xff) as u8);
    out.push(((x >> 56) & 0xff) as u8);
    proof {
        assert(out@ =~= old(out)@ + enc_u64(x));
    }
}

pub fn read_u8(buf: &Vec<u8>, pos: usize) -> (r: Option<(u8, usize)>)
    requires
        pos <= buf.len(),
    ensures
        r matches Some(t) ==> pos <= t.1 <= buf.len() && dec_u8(buf@.skip(pos as int)) == Some(
            (t.0, buf@.skip(t.1 as int)),
        ),
        r is None ==> dec_u8(buf@.skip(pos as int)) is None,
{
    if buf.len() - pos >= 1 {
        let b0 = buf[pos];
        proof {
            assert(buf@.skip(pos as int)[0] == buf@[pos as int]);
            assert(buf@.skip(pos as int).skip(1) =~= buf@.skip(pos as int + 1));
        }
        Some((b0, pos + 1))
    } else {
        None
    }
}

pub fn read_u16(buf: &Vec<u8>, pos: usize) -> (r: Option<(u16, usize)>)
    requires
        pos <= buf.len(),
    ensures
        r matches Some(t) ==> pos <= t.1 <= buf.len() && dec_u16(buf@.skip(pos as int)) == Some(
            (t.0, buf@.skip(t.1 as int)),
        ),
        r is None ==> dec_u16(buf@.skip(pos as int)) is None,
{
    if buf.len() - pos >= 2 {
        let v = (buf[pos] as u16) | ((buf[pos + 1] as u16) << 8);
        proof {
            assert(buf@.skip(pos as int)[0] == buf@[pos as int]);
            assert(buf@.skip(pos as int)[1] == buf@[pos as int + 1]);
            assert(buf@.skip(pos as int).skip(2) =~= buf@.skip(pos as int + 2));
        }
        Some((v, pos + 2))
    } else {
        None
    }
}

pub fn read_u32(buf: &Vec<u8>, pos: usize) -> (r: Option<(u32, usize)>)
    requires
        pos <= buf.len(),
    ensures
        r matches Some(t) ==> pos <= t.1 <= buf.len() && dec_u32(buf@.skip(pos as int)) == Some(
            (t.0, buf@.skip(t.1 as int)),
        ),
        r is None ==> dec_u32(buf@.skip(pos as int)) is None,
{
    if buf.len() - pos >= 4 {
        let v = (buf[pos] as u32) | ((buf[pos + 1] as u32) << 8) | ((buf[pos + 2] as u32) << 16)
            | ((buf[pos + 3] as u32) << 24);
        proof {
            assert(buf@.skip(pos as int)[0] == buf@[pos as int]);
            assert(buf@.skip(pos as int)[1] == buf@[pos as int + 1]);
            assert(buf@.skip(pos as int)[2] == buf@[pos as int + 2]);
            assert(buf@.skip(pos as int)[3] == buf@[pos as int + 3]);
            assert(buf@.skip(pos as int).skip(4) =~= buf@.skip(pos as int + 4));
        }
        Some((v, pos + 4))
    } else {
        None
    }
}

pub fn read_u64(buf: &Vec<u8>, pos: usize) -> (r: Option<(u64, usize)>)
    requires
        pos <= buf.len(),
    ensures
        r matches Some(t) ==> pos <= t.1 <= buf.len() && dec_u64(buf@.skip(pos as int)) == Some(
            (t.0, buf@.skip(t.1 as int)),
        ),
        r is None ==> dec_u64(buf@.skip(pos as int)) is None,
{
    if buf.len() - pos >= 8 {
        let v = (buf[pos] as u64) | ((buf[pos + 1] as u64) << 8) | ((buf[pos + 2] as u64) << 16)
            | ((buf[pos + 3] as u64) << 24) | ((buf[pos + 4] as u64) << 32) | ((buf[pos + 5]
            as u64) << 40) | ((buf[pos + 6] as u64) << 48) | ((buf[pos + 7] as u64) << 56);
        proof {
            assert(buf@.skip(pos as int)[0] == buf@[pos as int]);
            assert(buf@.skip(pos as int)[1] == buf@[pos as int + 1]);
            assert(buf@.skip(pos as int)[2] == buf@[pos as int + 2]);
            assert(buf@.skip(pos as int)[3] == buf@[pos as int + 3]);
            assert(buf@.skip(pos as int)[4] == buf@[pos as int + 4]);
            assert(buf@.skip(pos as int)[5] == buf@[pos as int + 5]);
            assert(buf@.skip(pos as int)[6] == buf@[pos as int + 6]);
            assert(buf@.skip(pos as int)[7] == buf@[pos as int + 7]);
            assert(buf@.skip(pos as int).skip(8) =~= buf@.skip(pos as int + 8));
        }
        Some((v, pos + 8))
    } else {
        None
    }
}

// ---------------------------------------------------------------------------
// Byte strings
// ---------------------------------------------------------------------------
pub open spec fn enc_bytes(b: Seq<u8>) -> Seq<u8> {
    enc_u64(b.len() as u64) + b
}

pub open spec fn dec_bytes(s: Seq<u8>) -> Option<(Seq<u8>, Seq<u8>)> {
    match dec_u64(s) {
        Some((n, s1)) => if n <= s1.len() {
            Some((s1.take(n as int), s1.skip(n as int)))
        } else {
            None
        },
        None => None,
    }
}

pub proof fn lemma_dec_enc_bytes(b: Seq<u8>, rest: Seq<u8>)
    requires
        b.len() < 0x1_0000_0000_0000_0000,
    ensures
        dec_bytes(enc_bytes(b) + rest) == Some((b, rest)),
{
    let s = enc_bytes(b) + rest;
    assert(s =~= enc_u64(b.len() as u64) + (b + rest));
    lemma_dec_enc_u64(b.len() as u64, b + rest);
    assert((b + rest).take(b.len() as int) =~= b);
    assert((b + rest).skip(b.len() as int) =~= rest);
}

pub fn write_bytes(out: &mut Vec<u8>, b: &Vec<u8>)
    ensures
        final(out)@ == old(out)@ + enc_bytes(b@),
{
    write_u64(out, b.len() as u64);
    let n = b.len();
    let mut i: usize = 0;
    while i < n
        invariant
            n == b.len(),
            i <= n,
            out@ == old(out)@ + enc_u64(b@.len() as u64) + b@.take(i as int),
        decreases n - i,
    {
        let ghost pre = out@;
        out.push(b[i]);
        proof {
            assert(out@ =~= old(out)@ + enc_u64(b@.len() as u64) + b@.take(i as int + 1));
        }
        i += 1;
    }
    proof {
        assert(b@.take(n as int) =~= b@);
        assert(out@ =~= old(out)@ + enc_bytes(b@));
    }
}

pub fn read_byte_vec(buf: &Vec<u8>, pos: usize) -> (r: Option<(Vec<u8>, usize)>)
    requires
        pos <= buf.len(),
    ensures
        r matches Some(t) ==> pos <= t.1 <= buf.len() && dec_bytes(buf@.skip(pos as int)) == Some(
            (t.0@, buf@.skip(t.1 as int)),
        ),
        r is None ==> dec_bytes(buf@.skip(pos as int)) is None,
{
    match read_u64(buf, pos) {
        None => None,
        Some((n, p1)) => {
            let rem = buf.len() - p1;
            if n <= rem as u64 {
                let nn = n as usize;
                let mut v: Vec<u8> = Vec::new();
                let mut i: usize = 0;
                while i < nn
                    invariant
                        nn == n,
                        p1 + nn <= buf.len(),
                        i <= nn,
                        v@ =~= buf@.subrange(p1 as int, p1 as int + i as int),
                    decreases nn - i,
                {
                    v.push(buf[p1 + i]);
                    proof {
                        assert(v@ =~= buf@.subrange(p1 as int, p1 as int + i as int + 1));
                    }
                    i += 1;
                }
                proof {
                    let s1 = buf@.skip(p1 as int);
                    assert(s1.take(n as int) =~= buf@.subrange(p1 as int, p1 as int + n as int));
                    assert(s1.skip(n as int) =~= buf@.skip(p1 as int + n as int));
                }
                Some((v, p1 + nn))
            } else {
                proof {
                    let s1 = buf@.skip(p1 as int);
                    assert(s1.len() == buf@.len() - p1);
                }
                None
            }
        },
    }
}

// ---------------------------------------------------------------------------
// Lists
// ---------------------------------------------------------------------------
/// Concatenation of the encodings of the elements, in order.
pub open spec fn enc_list<T>(s: Seq<T>, f: spec_fn(T) -> Seq<u8>) -> Seq<u8>
    decreases s.len(),
{
    if s.len() == 0 {
        Seq::empty()
    } else {
        f(s[0]) + enc_list(s.drop_first(), f)
    }
}

/// A length prefix followed by the element encodings.
pub open spec fn enc_vec<T>(s: Seq<T>, f: spec_fn(T) -> Seq<u8>) -> Seq<u8> {
    enc_u64(s.len() as u64) + enc_list(s, f)
}

pub open spec fn dec_list<T>(
    s: Seq<u8>,
    n: nat,
    g: spec_fn(Seq<u8>) -> Option<(T, Seq<u8>)>,
) -> Option<(Seq<T>, Seq<u8>)>
    decreases n,
{
    if n == 0 {
        Some((Seq::empty(), s))
    } else {
        match g(s) {
            Some((v, s1)) => match dec_list(s1, (n - 1) as nat, g) {
                Some((vs, s2)) => Some((seq![v] + vs, s2)),
                None => None,
            },
            None => None,
        }
    }
}

pub open spec fn dec_vec<T>(
    s: Seq<u8>,
    g: spec_fn(Seq<u8>) -> Option<(T, Seq<u8>)>,
) -> Option<(Seq<T>, Seq<u8>)> {
    match dec_u64(s) {
        Some((n, s1)) => dec_list(s1, n as nat, g),
        None => None,
    }
}

/// Appending one element on the right extends the element-wise encoding on
/// the right.
pub proof fn lemma_enc_list_snoc<T>(s: Seq<T>, i: int, f: spec_fn(T) -> Seq<u8>)
    requires
        0 <= i < s.len(),
    ensures
        enc_list(s.take(i + 1), f) == enc_list(s.take(i), f) + f(s[i]),
    decreases i,
{
    if i == 0 {
        let one = s.take(1);
        assert(one.len() == 1);
        assert(one[0] == s[0]);
        assert(one.drop_first() =~= Seq::<T>::empty());
        assert(enc_list(one.drop_first(), f) == Seq::<u8>::empty());
        assert(enc_list(one, f) == f(one[0]) + enc_list(one.drop_first(), f));
        assert(s.take(0).len() == 0);
        assert(enc_list(s.take(0), f) == Seq::<u8>::empty());
        assert(f(s[0]) + Seq::<u8>::empty() =~= f(s[0]));
        assert(Seq::<u8>::empty() + f(s[0]) =~= f(s[0]));
    } else {
        let t = s.drop_first();
        lemma_enc_list_snoc(t, i - 1, f);
        assert(s.take(i + 1).drop_first() =~= t.take(i));
        assert(s.take(i).drop_first() =~= t.take(i - 1));
        assert(enc_list(s.take(i + 1), f) == f(s[0]) + enc_list(t.take(i), f));
        assert(enc_list(s.take(i), f) == f(s[0]) + enc_list(t.take(i - 1), f));
        assert(t[i - 1] == s[i]);
        assert(f(s[0]) + (enc_list(t.take(i - 1), f) + f(s[i])) =~= (f(s[0]) + enc_list(
            t.take(i - 1),
            f,
        )) + f(s[i]));
    }
}

/// Decoding the encoding of a list gives the list back, provided each
/// element decodes its own encoding.
pub proof fn lemma_dec_enc_list<T>(
    s: Seq<T>,
    rest: Seq<u8>,
    f: spec_fn(T) -> Seq<u8>,
    g: spec_fn(Seq<u8>) -> Option<(T, Seq<u8>)>,
)
    requires
        forall|v: T, r2: Seq<u8>| s.contains(v) ==> #[trigger] g(f(v) + r2) == Some((v, r2)),
    ensures
        dec_list(enc_list(s, f) + rest, s.len(), g) == Some((s, rest)),
    decreases s.len(),
{
    if s.len() == 0 {
        assert(enc_list(s, f) + rest =~= rest);
        assert(dec_list(rest, 0, g) == Some((Seq::<T>::empty(), rest)));
        assert(s =~= Seq::<T>::empty());
    } else {
        let t = s.drop_first();
        let whole = enc_list(s, f) + rest;
        assert(whole =~= f(s[0]) + (enc_list(t, f) + rest));
        assert(s.contains(s[0]));
        assert(g(f(s[0]) + (enc_list(t, f) + rest)) == Some((s[0], enc_list(t, f) + rest)));
        assert forall|v: T, r2: Seq<u8>| t.contains(v) implies #[trigger] g(f(v) + r2) == Some(
            (v, r2),
        ) by {
            assert(s.contains(v));
        }
        lemma_dec_enc_list(t, rest, f, g);
        assert(seq![s[0]] + t =~= s);
    }
}

// ---------------------------------------------------------------------------
// Output pointers
// ---------------------------------------------------------------------------
pub open spec fn pointer_bounded(p: OutputPointerV) -> bool {
    fits_len(p.transaction_id.len())
}

pub open spec fn enc_pointer(p: OutputPointerV) -> Seq<u8> {
    enc_bytes(p.transaction_id) + enc_u32(p.output_index)
}

pub open spec fn dec_pointer(s: Seq<u8>) -> Option<(OutputPointerV, Seq<u8>)> {
    match dec_bytes(s) {
        Some((txid, s1)) => match dec_u32(s1) {
            Some((idx, s2)) => Some(
                (OutputPointerV { transaction_id: txid, output_index: idx }, s2),
            ),
            None => None,
        },
        None => None,
    }
}

pub proof fn lemma_dec_enc_pointer(p: OutputPointerV, rest: Seq<u8>)
    requires
        pointer_bounded(p),
    ensures
        dec_pointer(enc_pointer(p) + rest) == Some((p, rest)),
{
    assert(enc_pointer(p) + rest =~= enc_bytes(p.transaction_id) + (enc_u32(p.output_index)
        + rest));
    lemma_dec_enc_bytes(p.transaction_id, enc_u32(p.output_index) + rest);
    lemma_dec_enc_u32(p.output_index, rest);
}

pub fn write_pointer(out: &mut Vec<u8>, p: &OutputPointer)
    ensures
        final(out)@ == old(out)@ + enc_pointer(p@),
{
    write_bytes(out, &p.transaction_id.bytes);
    write_u32(out, p.output_index);
    proof {
        assert(out@ =~= old(out)@ + enc_pointer(p@));
    }
}

pub fn read_pointer(buf: &Vec<u8>, pos: usize) -> (r: Option<(OutputPointer, usize)>)
    requires
        pos <= buf.len(),
    ensures
        r matches Some(t) ==> pos <= t.1 <= buf.len() && dec_pointer(buf@.skip(pos as int))
            == Some((t.0@, buf@.skip(t.1 as int))),
        r is None ==> dec_pointer(buf@.skip(pos as int)) is None,
{
    match read_byte_vec(buf, pos) {
        None => None,
        Some((txid, p1)) => match read_u32(buf, p1) {
            None => None,
            Some((idx, p2)) => Some(
                (
                    OutputPointer {
                        transaction_id: crate::chain::Hash { bytes: txid },
                        output_index: idx,
                    },
                    p2,
                ),
            ),
        },
    }
}

// ---------------------------------------------------------------------------
// Outputs
// ---------------------------------------------------------------------------
pub open spec fn enc_vto(o: ValueTransferOutputV) -> Seq<u8> {
    enc_bytes(o.pkh) + enc_u64(o.value)
}

pub open spec fn dec_vto(s: Seq<u8>) -> Option<(ValueTransferOutputV, Seq<u8>)> {
    match dec_bytes(s) {
        Some((pkh, s1)) => match dec_u64(s1) {
            Some((value, s2)) => Some((ValueTransferOutputV { pkh, value }, s2)),
            None => None,
        },
        None => None,
    }
}

pub proof fn lemma_dec_enc_vto(o: ValueTransferOutputV, rest: Seq<u8>)
    requires
        fits_len(o.pkh.len()),
    ensures
        dec_vto(enc_vto(o) + rest) == Some((o, rest)),
{
    assert(enc_vto(o) + rest =~= enc_bytes(o.pkh) + (enc_u64(o.value) + rest));
    lemma_dec_enc_bytes(o.pkh, enc_u64(o.value) + rest);
    lemma_dec_enc_u64(o.value, rest);
}

pub fn write_vto(out: &mut Vec<u8>, o: &ValueTransferOutput)
    ensures
        final(out)@ == old(out)@ + enc_vto(o@),
{
    write_bytes(out, &o.pkh);
    write_u64(out, o.value);
    proof {
        assert(out@ =~= old(out)@ + enc_vto(o@));
    }
}

pub fn read_vto(buf: &Vec<u8>, pos: usize) -> (r: Option<(ValueTransferOutput, usize)>)
    requires
        pos <= buf.len(),
    ensures
        r matches Some(t) ==> pos <= t.1 <= buf.len() && dec_vto(buf@.skip(pos as int)) == Some(
            (t.0@, buf@.skip(t.1 as int)),
        ),
        r is None ==> dec_vto(buf@.skip(pos as int)) is None,
{
    match read_byte_vec(buf, pos) {
        None => None,
        Some((pkh, p1)) => match read_u64(buf, p1) {
            None => None,
            Some((value, p2)) => Some((ValueTransferOutput { pkh, value }, p2)),
        },
    }
}

pub open spec fn enc_dro(o: DataRequestOutputV) -> Seq<u8> {
    enc_bytes(o.pkh) + enc_u64(o.value) + enc_u16(o.witnesses) + enc_u16(o.backup_witnesses)
        + enc_u32(o.commit_deadline) + enc_u32(o.reveal_deadline) + enc_u32(o.tally_deadline)
}

pub open spec fn dec_dro(s: Seq<u8>) -> Option<(DataRequestOutputV, Seq<u8>)> {
    match dec_bytes(s) {
        Some((pkh, s1)) => match dec_u64(s1) {
            Some((value, s2)) => match dec_u16(s2) {
                Some((witnesses, s3)) => match dec_u16(s3) {
                    Some((backup_witnesses, s4)) => match dec_u32(s4) {
                        Some((commit_deadline, s5)) => match dec_u32(s5) {
                            Some((reveal_deadline, s6)) => match dec_u32(s6) {
                                Some((tally_deadline, s7)) => Some(
                                    (
                                        DataRequestOutputV {
                                            pkh,
                                            value,
                                            witnesses,
                                            backup_witnesses,
                                            commit_deadline,
                                            reveal_deadline,
                                            tally_deadline,
                                        },
                                        s7,
                                    ),
                                ),
                                None => None,
                            },
                            None => None,
                        },
                        None => None,
                    },
                    None => None,
                },
                None => None,
            },
            None => None,
        },
        None => None,
    }
}

pub proof fn lemma_dec_enc_dro(o: DataRequestOutputV, rest: Seq<u8>)
    requires
        fits_len(o.pkh.len()),
    ensures
        dec_dro(enc_dro(o) + rest) == Some((o, rest)),
{
    let r6 = enc_u32(o.tally_deadline) + rest;
    let r5 = enc_u32(o.reveal_deadline) + r6;
    let r4 = enc_u32(o.commit_deadline) + r5;
    let r3 = enc_u16(o.backup_witnesses) + r4;
    let r2 = enc_u16(o.witnesses) + r3;
    let r1 = enc_u64(o.value) + r2;
    assert(enc_dro(o) + rest =~= enc_bytes(o.pkh) + r1);
    lemma_dec_enc_bytes(o.pkh, r1);
    lemma_dec_enc_u64(o.value, r2);
    lemma_dec_enc_u16(o.witnesses, r3);
    lemma_dec_enc_u16(o.backup_witnesses, r4);
    lemma_dec_enc_u32(o.commit_deadline, r5);
    lemma_dec_enc_u32(o.reveal_deadline, r6);
    lemma_dec_enc_u32(o.tally_deadline, rest);
}

pub fn write_dro(out: &mut Vec<u8>, o: &DataRequestOutput)
    ensures
        final(out)@ == old(out)@ + enc_dro(o@),
{
    write_bytes(out, &o.pkh);
    write_u64(out, o.value);
    write_u16(out, o.witnesses);
    write_u16(out, o.backup_witnesses);
    write_u32(out, o.commit_deadline);
    write_u32(out, o.reveal_deadline);
    write_u32(out, o.tally_deadline);
    proof {
        assert(out@ =~= old(out)@ + enc_dro(o@));
    }
}

pub fn read_dro(buf: &Vec<u8>, pos: usize) -> (r: Option<(DataRequestOutput, usize)>)
    requires
        pos <= buf.len(),
    ensures
        r matches Some(t) ==> pos <= t.1 <= buf.len() && dec_dro(buf@.skip(pos as int)) == Some(
            (t.0@, buf@.skip(t.1 as int)),
        ),
        r is None ==> dec_dro(buf@.skip(pos as int)) is None,
{
    match read_byte_vec(buf, pos) {
        None => None,
        Some((pkh, p1)) => match read_u64(buf, p1) {
            None => None,
            Some((value, p2)) => match read_u16(buf, p2) {
                None => None,
                Some((witnesses, p3)) => match read_u16(buf, p3) {
                    None => None,
                    Some((backup_witnesses, p4)) => match read_u32(buf, p4) {
                        None => None,
                        Some((commit_deadline, p5)) => match read_u32(buf, p5) {
                            None => None,
                            Some((reveal_deadline, p6)) => match read_u32(buf, p6) {
                                None => None,
                                Some((tally_deadline, p7)) => Some(
                                    (
                                        DataRequestOutput {
                                            pkh,
                                            value,
                                            witnesses,
                                            backup_witnesses,
                                            commit_deadline,
                                            reveal_deadline,
                                            tally_deadline,
                                        },
                                        p7,
                                    ),
                                ),
                            },
                        },
                    },
                },
            },
        },
    }
}

pub open spec fn enc_commit(o: CommitOutputV) -> Seq<u8> {
    enc_bytes(o.commitment) + enc_u64(o.value)
}

pub open spec fn dec_commit(s: Seq<u8>) -> Option<(CommitOutputV, Seq<u8>)> {
    match dec_bytes(s) {
        Some((commitment, s1)) => match dec_u64(s1) {
            Some((value, s2)) => Some((CommitOutputV { commitment, value }, s2)),
            None => None,
        },
        None => None,
    }
}

pub proof fn lemma_dec_enc_commit(o: CommitOutputV, rest: Seq<u8>)
    requires
        fits_len(o.commitment.len()),
    ensures
        dec_commit(enc_commit(o) + rest) == Some((o, rest)),
{
    assert(enc_commit(o) + rest =~= enc_bytes(o.commitment) + (enc_u64(o.value) + rest));
    lemma_dec_enc_bytes(o.commitment, enc_u64(o.value) + rest);
    lemma_dec_enc_u64(o.value, rest);
}

pub fn write_commit(out: &mut Vec<u8>, o: &CommitOutput)
    ensures
        final(out)@ == old(out)@ + enc_commit(o@),
{
    write_bytes(out, &o.commitment.bytes);
    write_u64(out, o.value);
    proof {
        assert(out@ =~= old(out)@ + enc_commit(o@));
    }
}

pub fn read_commit(buf: &Vec<u8>, pos: usize) -> (r: Option<(CommitOutput, usize)>)
    requires
        pos <= buf.len(),
    ensures
        r matches Some(t) ==> pos <= t.1 <= buf.len() && dec_commit(buf@.skip(pos as int))
            == Some((t.0@, buf@.skip(t.1 as int))),
        r is None ==> dec_commit(buf@.skip(pos as int)) is None,
{
    match read_byte_vec(buf, pos) {
        None => None,
        Some((commitment, p1)) => match read_u64(buf, p1) {
            None => None,
            Some((value, p2)) => Some(
                (CommitOutput { commitment: crate::chain::Hash { bytes: commitment }, value }, p2),
            ),
        },
    }
}

pub open spec fn enc_reveal(o: RevealOutputV) -> Seq<u8> {
    enc_bytes(o.pkh) + enc_bytes(o.reveal) + enc_u64(o.value)
}

pub open spec fn dec_reveal(s: Seq<u8>) -> Option<(RevealOutputV, Seq<u8>)> {
    match dec_bytes(s) {
        Some((pkh, s1)) => match dec_bytes(s1) {
            Some((reveal, s2)) => match dec_u64(s2) {
                Some((value, s3)) => Some((RevealOutputV { pkh, reveal, value }, s3)),
                None => None,
            },
            None => None,
        },
        None => None,
    }
}

pub proof fn lemma_dec_enc_reveal(o: RevealOutputV, rest: Seq<u8>)
    requires
        fits_len(o.pkh.len()),
        fits_len(o.reveal.len()),
    ensures
        dec_reveal(enc_reveal(o) + rest) == Some((o, rest)),
{
    let r2 = enc_u64(o.value) + rest;
    let r1 = enc_bytes(o.reveal) + r2;
    assert(enc_reveal(o) + rest =~= enc_bytes(o.pkh) + r1);
    lemma_dec_enc_bytes(o.pkh, r1);
    lemma_dec_enc_bytes(o.reveal, r2);
    lemma_dec_enc_u64(o.value, rest);
}

pub fn write_reveal(out: &mut Vec<u8>, o: &RevealOutput)
    ensures
        final(out)@ == old(out)@ + enc_reveal(o@),
{
    write_bytes(out, &o.pkh);
    write_bytes(out, &o.reveal);
    write_u64(out, o.value);
    proof {
        assert(out@ =~= old(out)@ + enc_reveal(o@));
    }
}

pub fn read_reveal(buf: &Vec<u8>, pos: usize) -> (r: Option<(RevealOutput, usize)>)
    requires
        pos <= buf.len(),
    ensures
        r matches Some(t) ==> pos <= t.1 <= buf.len() && dec_reveal(buf@.skip(pos as int))
            == Some((t.0@, buf@.skip(t.1 as int))),
        r is None ==> dec_reveal(buf@.skip(pos as int)) is None,
{
    match read_byte_vec(buf, pos) {
        None => None,
        Some((pkh, p1)) => match read_byte_vec(buf, p1) {
            None => None,
            Some((reveal, p2)) => match read_u64(buf, p2) {
                None => None,
                Some((value, p3)) => Some((RevealOutput { pkh, reveal, value }, p3)),
            },
        },
    }
}

pub open spec fn enc_tally(o: TallyOutputV) -> Seq<u8> {
    enc_bytes(o.pkh) + enc_bytes(o.result) + enc_u64(o.value)
}

pub open spec fn dec_tally(s: Seq<u8>) -> Option<(TallyOutputV, Seq<u8>)> {
    match dec_bytes(s) {
        Some((pkh, s1)) => match dec_bytes(s1) {
            Some((result, s2)) => match dec_u64(s2) {
                Some((value, s3)) => Some((TallyOutputV { pkh, result, value }, s3)),
                None => None,
            },
            None => None,
        },
        None => None,
    }
}

pub proof fn lemma_dec_enc_tally(o: TallyOutputV, rest: Seq<u8>)
    requires
        fits_len(o.pkh.len()),
        fits_len(o.result.len()),
    ensures
        dec_tally(enc_tally(o) + rest) == Some((o, rest)),
{
    let r2 = enc_u64(o.value) + rest;
    let r1 = enc_bytes(o.result) + r2;
    assert(enc_tally(o) + rest =~= enc_bytes(o.pkh) + r1);
    lemma_dec_enc_bytes(o.pkh, r1);
    lemma_dec_enc_bytes(o.result, r2);
    lemma_dec_enc_u64(o.value, rest);
}

pub fn write_tally(out: &mut Vec<u8>, o: &TallyOutput)
    ensures
        final(out)@ == old(out)@ + enc_tally(o@),
{
    write_bytes(out, &o.pkh);
    write_bytes(out, &o.result);
    write_u64(out, o.value);
    proof {
        assert(out@ =~= old(out)@ + enc_tally(o@));
    }
}

pub fn read_tally(buf: &Vec<u8>, pos: usize) -> (r: Option<(TallyOutput, usize)>)
    requires
        pos <= buf.len(),
    ensures
        r matches Some(t) ==> pos <= t.1 <= buf.len() && dec_tally(buf@.skip(pos as int)) == Some(
            (t.0@, buf@.skip(t.1 as int)),
        ),
        r is None ==> dec_tally(buf@.skip(pos as int)) is None,
{
    match read_byte_vec(buf, pos) {
        None => None,
        Some((pkh, p1)) => match read_byte_vec(buf, p1) {
            None => None,
            Some((result, p2)) => match read_u64(buf, p2) {
                None => None,
                Some((value, p3)) => Some((TallyOutput { pkh, result, value }, p3)),
            },
        },
    }
}

pub open spec fn output_bounded(o: OutputV) -> bool {
    match o {
        OutputV::ValueTransfer(v) => fits_len(v.pkh.len()),
        OutputV::DataRequest(d) => fits_len(d.pkh.len()),
        OutputV::Commit(c) => fits_len(c.commitment.len()),
        OutputV::Reveal(r) => fits_len(r.pkh.len()) && fits_len(r.reveal.len()),
        OutputV::Tally(t) => fits_len(t.pkh.len()) && fits_len(t.result.len()),
    }
}

pub open spec fn enc_output(o: OutputV) -> Seq<u8> {
    match o {
        OutputV::ValueTransfer(v) => enc_u8(0) + enc_vto(v),
        OutputV::DataRequest(d) => enc_u8(1) + enc_dro(d),
        OutputV::Commit(c) => enc_u8(2) + enc_commit(c),
        OutputV::Reveal(r) => enc_u8(3) + enc_reveal(r),
        OutputV::Tally(t) => enc_u8(4) + enc_tally(t),
    }
}

pub open spec fn dec_output(s: Seq<u8>) -> Option<(OutputV, Seq<u8>)> {
    match dec_u8(s) {
        Some((tag, s1)) => if tag == 0 {
            match dec_vto(s1) {
                Some((v, s2)) => Some((OutputV::ValueTransfer(v), s2)),
                None => None,
            }
        } else if tag == 1 {
            match dec_dro(s1) {
                Some((v, s2)) => Some((OutputV::DataRequest(v), s2)),
                None => None,
            }
        } else if tag == 2 {
            match dec_commit(s1) {
                Some((v, s2)) => Some((OutputV::Commit(v), s2)),
                None => None,
            }
        } else if tag == 3 {
            match dec_reveal(s1) {
                Some((v, s2)) => Some((OutputV::Reveal(v), s2)),
                None => None,
            }
        } else if tag == 4 {
            match dec_tally(s1) {
                Some((v, s2)) => Some((OutputV::Tally(v), s2)),
                None => None,
            }
        } else {
            None
        },
        None => None,
    }
}

#[verifier::spinoff_prover]
proof fn lemma_dec_enc_output_vt(v: ValueTransferOutputV, rest: Seq<u8>)
    requires
        fits_len(v.pkh.len()),
    ensures
        dec_output(enc_output(OutputV::ValueTransfer(v)) + rest) == Some(
            (OutputV::ValueTransfer(v), rest),
        ),
{
    assert(enc_output(OutputV::ValueTransfer(v)) + rest =~= enc_u8(0) + (enc_vto(v) + rest));
    lemma_dec_enc_u8(0, enc_vto(v) + rest);
    lemma_dec_enc_vto(v, rest);
}

#[verifier::spinoff_prover]
proof fn lemma_dec_enc_output_dr(d: DataRequestOutputV, rest: Seq<u8>)
    requires
        fits_len(d.pkh.len()),
    ensures
        dec_output(enc_output(OutputV::DataRequest(d)) + rest) == Some(
            (OutputV::DataRequest(d), rest),
        ),
{
    assert(enc_output(OutputV::DataRequest(d)) + rest =~= enc_u8(1) + (enc_dro(d) + rest));
    lemma_dec_enc_u8(1, enc_dro(d) + rest);
    lemma_dec_enc_dro(d, rest);
}

#[verifier::spinoff_prover]
proof fn lemma_dec_enc_output_cm(c: CommitOutputV, rest: Seq<u8>)
    requires
        fits_len(c.commitment.len()),
    ensures
        dec_output(enc_output(OutputV::Commit(c)) + rest) == Some((OutputV::Commit(c), rest)),
{
    assert(enc_output(OutputV::Commit(c)) + rest =~= enc_u8(2) + (enc_commit(c) + rest));
    lemma_dec_enc_u8(2, enc_commit(c) + rest);
    lemma_dec_enc_commit(c, rest);
}

#[verifier::spinoff_prover]
proof fn lemma_dec_enc_output_rv(r: RevealOutputV, rest: Seq<u8>)
    requires
        fits_len(r.pkh.len()),
        fits_len(r.reveal.len()),
    ensures
        dec_output(enc_output(OutputV::Reveal(r)) + rest) == Some((OutputV::Reveal(r), rest)),
{
    assert(enc_output(OutputV::Reveal(r)) + rest =~= enc_u8(3) + (enc_reveal(r) + rest));
    lemma_dec_enc_u8(3, enc_reveal(r) + rest);
    lemma_dec_enc_reveal(r, rest);
}

#[verifier::spinoff_prover]
proof fn lemma_dec_enc_output_ty(t: TallyOutputV, rest: Seq<u8>)
    requires
        fits_len(t.pkh.len()),
        fits_len(t.result.len()),
    ensures
        dec_output(enc_output(OutputV::Tally(t)) + rest) == Some((OutputV::Tally(t), rest)),
{
    assert(enc_output(OutputV::Tally(t)) + rest =~= enc_u8(4) + (enc_tally(t) + rest));
    lemma_dec_enc_u8(4, enc_tally(t) + rest);
    lemma_dec_enc_tally(t, rest);
}

#[verifier::spinoff_prover]
pub proof fn lemma_dec_enc_output(o: OutputV, rest: Seq<u8>)
    requires
        output_bounded(o),
    ensures
        dec_output(enc_output(o) + rest) == Some((o, rest)),
{
    match o {
        OutputV::ValueTransfer(v) => {
            lemma_dec_enc_output_vt(v, rest);
        },
        OutputV::DataRequest(d) => {
            lemma_dec_enc_output_dr(d, rest);
        },
        OutputV::Commit(c) => {
            lemma_dec_enc_output_cm(c, rest);
        },
        OutputV::Reveal(r) => {
            lemma_dec_enc_output_rv(r, rest);
        },
        OutputV::Tally(t) => {
            lemma_dec_enc_output_ty(t, rest);
        },
    }
}

pub fn write_output(out: &mut Vec<u8>, o: &Output)
    ensures
        final(out)@ == old(out)@ + enc_output(o@),
{
    match o {
        Output::ValueTransfer(v) => {
            write_u8(out, 0);
            write_vto(out, v);
        },
        Output::DataRequest(d) => {
            write_u8(out, 1);
            write_dro(out, d);
        },
        Output::Commit(c) => {
            write_u8(out, 2);
            write_commit(out, c);
        },
        Output::Reveal(r) => {
            write_u8(out, 3);
            write_reveal(out, r);
        },
        Output::Tally(t) => {
            write_u8(out, 4);
            write_tally(out, t);
        },
    }
    proof {
        assert(out@ =~= old(out)@ + enc_output(o@));
    }
}

pub fn read_output(buf: &Vec<u8>, pos: usize) -> (r: Option<(Output, usize)>)
    requires
        pos <= buf.len(),
    ensures
        r matches Some(t) ==> pos <= t.1 <= buf.len() && dec_output(buf@.skip(pos as int))
            == Some((t.0@, buf@.skip(t.1 as int))),
        r is None ==> dec_output(buf@.skip(pos as int)) is None,
{
    match read_u8(buf, pos) {
        None => None,
        Some((tag, p1)) => {
            if tag == 0 {
                match read_vto(buf, p1) {
                    None => None,
                    Some((v, p2)) => Some((Output::ValueTransfer(v), p2)),
                }
            } else if tag == 1 {
                match read_dro(buf, p1) {
                    None => None,
                    Some((v, p2)) => Some((Output::DataRequest(v), p2)),
                }
            } else if tag == 2 {
                match read_commit(buf, p1) {
                    None => None,
                    Some((v, p2)) => Some((Output::Commit(v), p2)),
                }
            } else if tag == 3 {
                match read_reveal(buf, p1) {
                    None => None,
                    Some((v, p2)) => Some((Output::Reveal(v), p2)),
                }
            } else if tag == 4 {
                match read_tally(buf, p1) {
                    None => None,
                    Some((v, p2)) => Some((Output::Tally(v), p2)),
                }
            } else {
                None
            }
        },
    }
}

// ---------------------------------------------------------------------------
// Chain identity
// ---------------------------------------------------------------------------
pub open spec fn enc_beacon(b: CheckpointBeaconV) -> Seq<u8> {
    enc_u32(b.checkpoint) + enc_bytes(b.hash_prev_block)
}

pub open spec fn dec_beacon(s: Seq<u8>) -> Option<(CheckpointBeaconV, Seq<u8>)> {
    match dec_u32(s) {
        Some((checkpoint, s1)) => match dec_bytes(s1) {
            Some((h, s2)) => Some((CheckpointBeaconV { checkpoint, hash_prev_block: h }, s2)),
            None => None,
        },
        None => None,
    }
}

pub proof fn lemma_dec_enc_beacon(b: CheckpointBeaconV, rest: Seq<u8>)
    requires
        fits_len(b.hash_prev_block.len()),
    ensures
        dec_beacon(enc_beacon(b) + rest) == Some((b, rest)),
{
    assert(enc_beacon(b) + rest =~= enc_u32(b.checkpoint) + (enc_bytes(b.hash_prev_block) + rest));
    lemma_dec_enc_u32(b.checkpoint, enc_bytes(b.hash_prev_block) + rest);
    lemma_dec_enc_bytes(b.hash_prev_block, rest);
}

pub fn write_beacon(out: &mut Vec<u8>, b: &CheckpointBeacon)
    ensures
        final(out)@ == old(out)@ + enc_beacon(b@),
{
    write_u32(out, b.checkpoint);
    write_bytes(out, &b.hash_prev_block.bytes);
    proof {
        assert(out@ =~= old(out)@ + enc_beacon(b@));
    }
}

pub fn read_beacon(buf: &Vec<u8>, pos: usize) -> (r: Option<(CheckpointBeacon, usize)>)
    requires
        pos <= buf.len(),
    ensures
        r matches Some(t) ==> pos <= t.1 <= buf.len() && dec_beacon(buf@.skip(pos as int))
            == Some((t.0@, buf@.skip(t.1 as int))),
        r is None ==> dec_beacon(buf@.skip(pos as int)) is None,
{
    match read_u32(buf, pos) {
        None => None,
        Some((checkpoint, p1)) => match read_byte_vec(buf, p1) {
            None => None,
            Some((h, p2)) => Some(
                (
                    CheckpointBeacon {
                        checkpoint,
                        hash_prev_block: crate::chain::Hash { bytes: h },
                    },
                    p2,
                ),
            ),
        },
    }
}

pub open spec fn enc_environment(e: Environment) -> Seq<u8> {
    match e {
        Environment::Mainnet => enc_u8(0),
        Environment::Testnet1 => enc_u8(1),
    }
}

pub open spec fn dec_environment(s: Seq<u8>) -> Option<(Environment, Seq<u8>)> {
    match dec_u8(s) {
        Some((tag, s1)) => if tag == 0 {
            Some((Environment::Mainnet, s1))
        } else if tag == 1 {
            Some((Environment::Testnet1, s1))
        } else {
            None
        },
        None => None,
    }
}

pub proof fn lemma_dec_enc_environment(e: Environment, rest: Seq<u8>)
    ensures
        dec_environment(enc_environment(e) + rest) == Some((e, rest)),
{
    match e {
        Environment::Mainnet => {
            lemma_dec_enc_u8(0, rest);
        },
        Environment::Testnet1 => {
            lemma_dec_enc_u8(1, rest);
        },
    }
}

pub fn write_environment(out: &mut Vec<u8>, e: &Environment)
    ensures
        final(out)@ == old(out)@ + enc_environment(*e),
{
    match e {
        Environment::Mainnet => write_u8(out, 0),
        Environment::Testnet1 => write_u8(out, 1),
    }
}

pub fn read_environment(buf: &Vec<u8>, pos: usize) -> (r: Option<(Environment, usize)>)
    requires
        pos <= buf.len(),
    ensures
        r matches Some(t) ==> pos <= t.1 <= buf.len() && dec_environment(buf@.skip(pos as int))
            == Some((t.0, buf@.skip(t.1 as int))),
        r is None ==> dec_environment(buf@.skip(pos as int)) is None,
{
    match read_u8(buf, pos) {
        None => None,
        Some((tag, p1)) => {
            if tag == 0 {
                Some((Environment::Mainnet, p1))
            } else if tag == 1 {
                Some((Environment::Testnet1, p1))
            } else {
                None
            }
        },
    }
}

pub open spec fn enc_constants(c: ConsensusConstantsV) -> Seq<u8> {
    enc_u64(c.checkpoint_zero_timestamp) + enc_u32(c.checkpoints_period) + enc_bytes(
        c.genesis_hash,
    ) + enc_u32(c.max_block_weight)
}

pub open spec fn dec_constants(s: Seq<u8>) -> Option<(ConsensusConstantsV, Seq<u8>)> {
    match dec_u64(s) {
        Some((ts, s1)) => match dec_u32(s1) {
            Some((period, s2)) => match dec_bytes(s2) {
                Some((gh, s3)) => match dec_u32(s3) {
                    Some((mbw, s4)) => Some(
                        (
                            ConsensusConstantsV {
                                checkpoint_zero_timestamp: ts,
                                checkpoints_period: period,
                                genesis_hash: gh,
                                max_block_weight: mbw,
                            },
                            s4,
                        ),
                    ),
                    None => None,
                },
                None => None,
            },
            None => None,
        },
        None => None,
    }
}

pub proof fn lemma_dec_enc_constants(c: ConsensusConstantsV, rest: Seq<u8>)
    requires
        fits_len(c.genesis_hash.len()),
    ensures
        dec_constants(enc_constants(c) + rest) == Some((c, rest)),
{
    let r3 = enc_u32(c.max_block_weight) + rest;
    let r2 = enc_bytes(c.genesis_hash) + r3;
    let r1 = enc_u32(c.checkpoints_period) + r2;
    assert(enc_constants(c) + rest =~= enc_u64(c.checkpoint_zero_timestamp) + r1);
    lemma_dec_enc_u64(c.checkpoint_zero_timestamp, r1);
    lemma_dec_enc_u32(c.checkpoints_period, r2);
    lemma_dec_enc_bytes(c.genesis_hash, r3);
    lemma_dec_enc_u32(c.max_block_weight, rest);
}

pub fn write_constants(out: &mut Vec<u8>, c: &ConsensusConstants)
    ensures
        final(out)@ == old(out)@ + enc_constants(c@),
{
    write_u64(out, c.checkpoint_zero_timestamp);
    write_u32(out, c.checkpoints_period);
    write_bytes(out, &c.genesis_hash.bytes);
    write_u32(out, c.max_block_weight);
    proof {
        assert(out@ =~= old(out)@ + enc_constants(c@));
    }
}

pub fn read_constants(buf: &Vec<u8>, pos: usize) -> (r: Option<(ConsensusConstants, usize)>)
    requires
        pos <= buf.len(),
    ensures
        r matches Some(t) ==> pos <= t.1 <= buf.len() && dec_constants(buf@.skip(pos as int))
            == Some((t.0@, buf@.skip(t.1 as int))),
        r is None ==> dec_constants(buf@.skip(pos as int)) is None,
{
    match read_u64(buf, pos) {
        None => None,
        Some((ts, p1)) => match read_u32(buf, p1) {
            None => None,
            Some((period, p2)) => match read_byte_vec(buf, p2) {
                None => None,
                Some((gh, p3)) => match read_u32(buf, p3) {
                    None => None,
                    Some((mbw, p4)) => Some(
                        (
                            ConsensusConstants {
                                checkpoint_zero_timestamp: ts,
                                checkpoints_period: period,
                                genesis_hash: crate::chain::Hash { bytes: gh },
                                max_block_weight: mbw,
                            },
                            p4,
                        ),
                    ),
                },
            },
        },
    }
}

pub open spec fn chain_info_bounded(c: ChainInfoV) -> bool {
    fits_len(c.consensus_constants.genesis_hash.len()) && fits_len(
        c.highest_block_checkpoint.hash_prev_block.len(),
    )
}

pub open spec fn enc_chain_info(c: ChainInfoV) -> Seq<u8> {
    enc_environment(c.environment) + enc_constants(c.consensus_constants) + enc_beacon(
        c.highest_block_checkpoint,
    )
}

pub open spec fn dec_chain_info(s: Seq<u8>) -> Option<(ChainInfoV, Seq<u8>)> {
    match dec_environment(s) {
        Some((env, s1)) => match dec_constants(s1) {
            Some((cc, s2)) => match dec_beacon(s2) {
                Some((b, s3)) => Some(
                    (
                        ChainInfoV {
                            environment: env,
                            consensus_constants: cc,
                            highest_block_checkpoint: b,
                        },
                        s3,
                    ),
                ),
                None => None,
            },
            None => None,
        },
        None => None,
    }
}

pub proof fn lemma_dec_enc_chain_info(c: ChainInfoV, rest: Seq<u8>)
    requires
        chain_info_bounded(c),
    ensures
        dec_chain_info(enc_chain_info(c) + rest) == Some((c, rest)),
{
    let r2 = enc_beacon(c.highest_block_checkpoint) + rest;
    let r1 = enc_constants(c.consensus_constants) + r2;
    assert(enc_chain_info(c) + rest =~= enc_environment(c.environment) + r1);
    lemma_dec_enc_environment(c.environment, r1);
    lemma_dec_enc_constants(c.consensus_constants, r2);
    lemma_dec_enc_beacon(c.highest_block_checkpoint, rest);
}

pub fn write_chain_info(out: &mut Vec<u8>, c: &ChainInfo)
    ensures
        final(out)@ == old(out)@ + enc_chain_info(c@),
{
    write_environment(out, &c.environment);
    write_constants(out, &c.consensus_constants);
    write_beacon(out, &c.highest_block_checkpoint);
    proof {
        assert(out@ =~= old(out)@ + enc_chain_info(c@));
    }
}

pub fn read_chain_info(buf: &Vec<u8>, pos: usize) -> (r: Option<(ChainInfo, usize)>)
    requires
        pos <= buf.len(),
    ensures
        r matches Some(t) ==> pos <= t.1 <= buf.len() && dec_chain_info(buf@.skip(pos as int))
            == Some((t.0@, buf@.skip(t.1 as int))),
        r is None ==> dec_chain_info(buf@.skip(pos as int)) is None,
{
    match read_environment(buf, pos) {
        None => None,
        Some((env, p1)) => match read_constants(buf, p1) {
            None => None,
            Some((cc, p2)) => match read_beacon(buf, p2) {
                None => None,
                Some((b, p3)) => Some(
                    (
                        ChainInfo {
                            environment: env,
                            consensus_constants: cc,
                            highest_block_checkpoint: b,
                        },
                        p3,
                    ),
                ),
            },
        },
    }
}

pub open spec fn enc_opt_chain_info(c: Option<ChainInfoV>) -> Seq<u8> {
    match c {
        None => enc_u8(0),
        Some(ci) => enc_u8(1) + enc_chain_info(ci),
    }
}

pub open spec fn dec_opt_chain_info(s: Seq<u8>) -> Option<(Option<ChainInfoV>, Seq<u8>)> {
    match dec_u8(s) {
        Some((tag, s1)) => if tag == 0 {
            Some((None, s1))
        } else if tag == 1 {
            match dec_chain_info(s1) {
                Some((ci, s2)) => Some((Some(ci), s2)),
                None => None,
            }
        } else {
            None
        },
        None => None,
    }
}

pub proof fn lemma_dec_enc_opt_chain_info(c: Option<ChainInfoV>, rest: Seq<u8>)
    requires
        c matches Some(ci) ==> chain_info_bounded(ci),
    ensures
        dec_opt_chain_info(enc_opt_chain_info(c) + rest) == Some((c, rest)),
{
    match c {
        None => {
            lemma_dec_enc_u8(0, rest);
        },
        Some(ci) => {
            assert(enc_opt_chain_info(c) + rest =~= enc_u8(1) + (enc_chain_info(ci) + rest));
            lemma_dec_enc_u8(1, enc_chain_info(ci) + rest);
            lemma_dec_enc_chain_info(ci, rest);
        },
    }
}

pub fn write_opt_chain_info(out: &mut Vec<u8>, c: &Option<ChainInfo>)
    ensures
        final(out)@ == old(out)@ + enc_opt_chain_info(c.deep_view()),
{
    match c {
        None => {
            write_u8(out, 0);
        },
        Some(ci) => {
            write_u8(out, 1);
            write_chain_info(out, ci);
        },
    }
    proof {
        assert(out@ =~= old(out)@ + enc_opt_chain_info(c.deep_view()));
    }
}

pub fn read_opt_chain_info(buf: &Vec<u8>, pos: usize) -> (r: Option<(Option<ChainInfo>, usize)>)
    requires
        pos <= buf.len(),
    ensures
        r matches Some(t) ==> pos <= t.1 <= buf.len() && dec_opt_chain_info(buf@.skip(pos as int))
            == Some((t.0.deep_view(), buf@.skip(t.1 as int))),
        r is None ==> dec_opt_chain_info(buf@.skip(pos as int)) is None,
{
    match read_u8(buf, pos) {
        None => None,
        Some((tag, p1)) => {
            if tag == 0 {
                Some((None, p1))
            } else if tag == 1 {
                match read_chain_info(buf, p1) {
                    None => None,
                    Some((ci, p2)) => Some((Some(ci), p2)),
                }
            } else {
                None
            }
        },
    }
}

// ---------------------------------------------------------------------------
// Values that know their own encoding
// ---------------------------------------------------------------------------
/// The element-wise abstract values of a vector.
pub open spec fn views_of<T: View>(v: Vec<T>) -> Seq<T::V> {
    Seq::new(v@.len(), |i: int| v@[i]@)
}

/// A value with a specified byte encoding.
pub trait Encode: View + Sized {
    /// The encoding of an abstract value.
    spec fn enc(v: Self::V) -> Seq<u8>;

    /// Appends the encoding of this value.
    fn write(&self, out: &mut Vec<u8>)
        ensures
            final(out)@ == old(out)@ + Self::enc(self@),
    ;
}

/// An encodable value whose encoding decodes back to it.
pub trait Decode: Encode {
    /// The lengths the 64-bit prefixes can carry.
    spec fn bounded(v: Self::V) -> bool;

    /// The decoding of a byte string's prefix.
    spec fn dec(s: Seq<u8>) -> Option<(Self::V, Seq<u8>)>;

    /// Decoding an encoding gives the encoded value back.
    proof fn lemma_dec_enc(v: Self::V, rest: Seq<u8>)
        requires
            Self::bounded(v),
        ensures
            Self::dec(Self::enc(v) + rest) == Some((v, rest)),
    ;

    /// Reads one value off the buffer.
    fn read(buf: &Vec<u8>, pos: usize) -> (r: Option<(Self, usize)>)
        requires
            pos <= buf.len(),
        ensures
            r matches Some(t) ==> pos <= t.1 <= buf.len() && Self::dec(buf@.skip(pos as int))
                == Some((t.0@, buf@.skip(t.1 as int))),
            r is None ==> Self::dec(buf@.skip(pos as int)) is None,
    ;
}

impl<A: Encode, B: Encode> Encode for (A, B) {
    open spec fn enc(v: (A::V, B::V)) -> Seq<u8> {
        A::enc(v.0) + B::enc(v.1)
    }

    fn write(&self, out: &mut Vec<u8>)
        ensures
            final(out)@ == old(out)@ + Self::enc(self@),
    {
        self.0.write(out);
        self.1.write(out);
        proof {
            assert(out@ =~= old(out)@ + Self::enc(self@));
        }
    }
}

impl<A: Decode, B: Decode> Decode for (A, B) {
    open spec fn bounded(v: (A::V, B::V)) -> bool {
        A::bounded(v.0) && B::bounded(v.1)
    }

    open spec fn dec(s: Seq<u8>) -> Option<((A::V, B::V), Seq<u8>)> {
        match A::dec(s) {
            Some((a, s1)) => match B::dec(s1) {
                Some((b, s2)) => Some(((a, b), s2)),
                None => None,
            },
            None => None,
        }
    }

    proof fn lemma_dec_enc(v: (A::V, B::V), rest: Seq<u8>) {
        assert(Self::enc(v) + rest =~= A::enc(v.0) + (B::enc(v.1) + rest));
        A::lemma_dec_enc(v.0, B::enc(v.1) + rest);
        B::lemma_dec_enc(v.1, rest);
    }

    fn read(buf: &Vec<u8>, pos: usize) -> (r: Option<(Self, usize)>) {
        match A::read(buf, pos) {
            None => None,
            Some((a, p1)) => match B::read(buf, p1) {
                None => None,
                Some((b, p2)) => Some(((a, b), p2)),
            },
        }
    }
}

/// The encoder of one element, as a single term.
pub open spec fn elem_encoder<T: Encode>() -> spec_fn(T::V) -> Seq<u8> {
    |v: T::V| T::enc(v)
}

/// The decoder of one element, as a single term.
pub open spec fn elem_decoder<T: Decode>() -> spec_fn(Seq<u8>) -> Option<(T::V, Seq<u8>)> {
    |s: Seq<u8>| T::dec(s)
}

/// The encoding of a vector of encodable values.
pub open spec fn enc_vec_of<T: Encode>(s: Seq<T::V>) -> Seq<u8> {
    enc_vec(s, elem_encoder::<T>())
}

/// The decoding of a vector of decodable values.
pub open spec fn dec_vec_of<T: Decode>(s: Seq<u8>) -> Option<(Seq<T::V>, Seq<u8>)> {
    dec_vec(s, elem_decoder::<T>())
}

/// Decoding an encoded vector gives the elements back.
pub proof fn lemma_dec_enc_vec_of<T: Decode>(s: Seq<T::V>, rest: Seq<u8>)
    requires
        fits_len(s.len()),
        forall|i: int| 0 <= i < s.len() ==> T::bounded(#[trigger] s[i]),
    ensures
        dec_vec_of::<T>(enc_vec_of::<T>(s) + rest) == Some((s, rest)),
{
    let f = elem_encoder::<T>();
    let g = elem_decoder::<T>();
    assert(enc_vec_of::<T>(s) + rest =~= enc_u64(s.len() as u64) + (enc_list(s, f) + rest));
    lemma_dec_enc_u64(s.len() as u64, enc_list(s, f) + rest);
    assert forall|v: T::V, r2: Seq<u8>| s.contains(v) implies #[trigger] g(f(v) + r2) == Some(
        (v, r2),
    ) by {
        let i = choose|i: int| 0 <= i < s.len() && s[i] == v;
        assert(T::bounded(s[i]));
        T::lemma_dec_enc(v, r2);
    }
    lemma_dec_enc_list(s, rest, f, g);
}

/// Appends the encoding of a whole vector: a length prefix, then each
/// element.
pub fn write_vec_of<T: Encode>(out: &mut Vec<u8>, v: &Vec<T>)
    ensures
        final(out)@ == old(out)@ + enc_vec_of::<T>(views_of(*v)),
{
    let ghost s = views_of(*v);
    write_u64(out, v.len() as u64);
    let n = v.len();
    let mut i: usize = 0;
    while i < n
        invariant
            n == v.len(),
            i <= n,
            s == views_of(*v),
            s.len() == n,
            out@ == old(out)@ + enc_u64(s.len() as u64) + enc_list(s.take(i as int), elem_encoder::<T>()),
        decreases n - i,
    {
        let ghost pre = out@;
        v[i].write(out);
        proof {
            lemma_enc_list_snoc(s, i as int, elem_encoder::<T>());
            assert(elem_encoder::<T>()(s[i as int]) == T::enc(v@[i as int]@));
            assert(out@ =~= old(out)@ + enc_u64(s.len() as u64) + enc_list(
                s.take(i as int + 1),
                elem_encoder::<T>(),
            ));
        }
        i += 1;
    }
    proof {
        assert(s.take(n as int) =~= s);
        assert(out@ =~= old(out)@ + enc_vec_of::<T>(s));
    }
}

/// Reads a whole vector off the buffer: a length prefix, then each element.
pub fn read_vec_of<T: Decode>(buf: &Vec<u8>, pos: usize) -> (r: Option<(Vec<T>, usize)>)
    requires
        pos <= buf.len(),
    ensures
        r matches Some(t) ==> pos <= t.1 <= buf.len() && dec_vec_of::<T>(buf@.skip(pos as int))
            == Some((views_of(t.0), buf@.skip(t.1 as int))),
        r is None ==> dec_vec_of::<T>(buf@.skip(pos as int)) is None,
{
    let g = Ghost(elem_decoder::<T>());
    match read_u64(buf, pos) {
        None => None,
        Some((n, p1)) => {
            let mut acc: Vec<T> = Vec::new();
            let mut p = p1;
            let mut i: u64 = 0;
            while i < n
                invariant
                    pos <= p <= buf.len(),
                    pos <= p1 <= buf.len(),
                    i <= n,
                    acc@.len() == i,
                    g@ == elem_decoder::<T>(),
                    dec_vec_of::<T>(buf@.skip(pos as int)) == dec_list(
                        buf@.skip(p1 as int),
                        n as nat,
                        g@,
                    ),
                    dec_list(buf@.skip(p1 as int), n as nat, g@) == (match dec_list(
                        buf@.skip(p as int),
                        (n - i) as nat,
                        g@,
                    ) {
                        Some((vs, s2)) => Some((views_of(acc) + vs, s2)),
                        None => None::<(Seq<T::V>, Seq<u8>)>,
                    }),
                decreases n - i,
            {
                match T::read(buf, p) {
                    None => {
                        proof {
                            assert(dec_list(buf@.skip(p as int), (n - i) as nat, g@) is None);
                        }
                        return None;
                    },
                    Some((x, p2)) => {
                        let ghost preacc = views_of(acc);
                        acc.push(x);
                        proof {
                            assert(views_of(acc) =~= preacc.push(x@));
                            assert(g@(buf@.skip(p as int)) == Some((x@, buf@.skip(p2 as int))));
                            assert(dec_list(buf@.skip(p as int), (n - i) as nat, g@) == (
                            match dec_list(buf@.skip(p2 as int), (n - i - 1) as nat, g@) {
                                Some((vs, s2)) => Some((seq![x@] + vs, s2)),
                                None => None::<(Seq<T::V>, Seq<u8>)>,
                            }));
                            assert forall|vs: Seq<T::V>|
                                true implies preacc + (seq![x@] + vs) =~= (preacc.push(x@))
                                + vs by {}
                        }
                        p = p2;
                        i = i + 1;
                    },
                }
            }
            proof {
                assert(dec_list(buf@.skip(p as int), 0, g@) == Some(
                    (Seq::<T::V>::empty(), buf@.skip(p as int)),
                ));
                assert(views_of(acc) + Seq::<T::V>::empty() =~= views_of(acc));
            }
            Some((acc, p))
        },
    }
}

impl Encode for u32 {
    open spec fn enc(v: u32) -> Seq<u8> {
        enc_u32(v)
    }

    fn write(&self, out: &mut Vec<u8>) {
        write_u32(out, *self);
    }
}

impl Decode for u32 {
    open spec fn bounded(v: u32) -> bool {
        true
    }

    open spec fn dec(s: Seq<u8>) -> Option<(u32, Seq<u8>)> {
        dec_u32(s)
    }

    proof fn lemma_dec_enc(v: u32, rest: Seq<u8>) {
        lemma_dec_enc_u32(v, rest);
    }

    fn read(buf: &Vec<u8>, pos: usize) -> (r: Option<(Self, usize)>) {
        read_u32(buf, pos)
    }
}

impl Encode for crate::chain::Hash {
    open spec fn enc(v: Seq<u8>) -> Seq<u8> {
        enc_bytes(v)
    }

    fn write(&self, out: &mut Vec<u8>) {
        write_bytes(out, &self.bytes);
    }
}

impl Decode for crate::chain::Hash {
    open spec fn bounded(v: Seq<u8>) -> bool {
        fits_len(v.len())
    }

    open spec fn dec(s: Seq<u8>) -> Option<(Seq<u8>, Seq<u8>)> {
        dec_bytes(s)
    }

    proof fn lemma_dec_enc(v: Seq<u8>, rest: Seq<u8>) {
        lemma_dec_enc_bytes(v, rest);
    }

    fn read(buf: &Vec<u8>, pos: usize) -> (r: Option<(Self, usize)>) {
        match read_byte_vec(buf, pos) {
            None => None,
            Some((b, p1)) => Some((crate::chain::Hash { bytes: b }, p1)),
        }
    }
}

impl Encode for OutputPointer {
    open spec fn enc(v: OutputPointerV) -> Seq<u8> {
        enc_pointer(v)
    }

    fn write(&self, out: &mut Vec<u8>) {
        write_pointer(out, self);
    }
}

impl Decode for OutputPointer {
    open spec fn bounded(v: OutputPointerV) -> bool {
        pointer_bounded(v)
    }

    open spec fn dec(s: Seq<u8>) -> Option<(OutputPointerV, Seq<u8>)> {
        dec_pointer(s)
    }

    proof fn lemma_dec_enc(v: OutputPointerV, rest: Seq<u8>) {
        lemma_dec_enc_pointer(v, rest);
    }

    fn read(buf: &Vec<u8>, pos: usize) -> (r: Option<(Self, usize)>) {
        read_pointer(buf, pos)
    }
}

impl Encode for Output {
    open spec fn enc(v: OutputV) -> Seq<u8> {
        enc_output(v)
    }

    fn write(&self, out: &mut Vec<u8>) {
        write_output(out, self);
    }
}

impl Decode for Output {
    open spec fn bounded(v: OutputV) -> bool {
        output_bounded(v)
    }

    open spec fn dec(s: Seq<u8>) -> Option<(OutputV, Seq<u8>)> {
        dec_output(s)
    }

    proof fn lemma_dec_enc(v: OutputV, rest: Seq<u8>) {
        lemma_dec_enc_output(v, rest);
    }

    fn read(buf: &Vec<u8>, pos: usize) -> (r: Option<(Self, usize)>) {
        read_output(buf, pos)
    }
}

impl Encode for CommitOutput {
    open spec fn enc(v: CommitOutputV) -> Seq<u8> {
        enc_commit(v)
    }

    fn write(&self, out: &mut Vec<u8>) {
        write_commit(out, self);
    }
}

impl Decode for CommitOutput {
    open spec fn bounded(v: CommitOutputV) -> bool {
        fits_len(v.commitment.len())
    }

    open spec fn dec(s: Seq<u8>) -> Option<(CommitOutputV, Seq<u8>)> {
        dec_commit(s)
    }

    proof fn lemma_dec_enc(v: CommitOutputV, rest: Seq<u8>) {
        lemma_dec_enc_commit(v, rest);
    }

    fn read(buf: &Vec<u8>, pos: usize) -> (r: Option<(Self, usize)>) {
        read_commit(buf, pos)
    }
}

impl Encode for RevealOutput {
    open spec fn enc(v: RevealOutputV) -> Seq<u8> {
        enc_reveal(v)
    }

    fn write(&self, out: &mut Vec<u8>) {
        write_reveal(out, self);
    }
}

impl Decode for RevealOutput {
    open spec fn bounded(v: RevealOutputV) -> bool {
        fits_len(v.pkh.len()) && fits_len(v.reveal.len())
    }

    open spec fn dec(s: Seq<u8>) -> Option<(RevealOutputV, Seq<u8>)> {
        dec_reveal(s)
    }

    proof fn lemma_dec_enc(v: RevealOutputV, rest: Seq<u8>) {
        lemma_dec_enc_reveal(v, rest);
    }

    fn read(buf: &Vec<u8>, pos: usize) -> (r: Option<(Self, usize)>) {
        read_reveal(buf, pos)
    }
}

// ---------------------------------------------------------------------------
// Data-request lifecycle state
// ---------------------------------------------------------------------------
pub open spec fn enc_stage(st: DataRequestStage) -> Seq<u8> {
    match st {
        DataRequestStage::WaitingCommits => enc_u8(0),
        DataRequestStage::WaitingReveals => enc_u8(1),
        DataRequestStage::WaitingTally => enc_u8(2),
        DataRequestStage::Finished => enc_u8(3),
    }
}

pub open spec fn dec_stage(s: Seq<u8>) -> Option<(DataRequestStage, Seq<u8>)> {
    match dec_u8(s) {
        Some((tag, s1)) => if tag == 0 {
            Some((DataRequestStage::WaitingCommits, s1))
        } else if tag == 1 {
            Some((DataRequestStage::WaitingReveals, s1))
        } else if tag == 2 {
            Some((DataRequestStage::WaitingTally, s1))
        } else if tag == 3 {
            Some((DataRequestStage::Finished, s1))
        } else {
            None
        },
        None => None,
    }
}

pub proof fn lemma_dec_enc_stage(st: DataRequestStage, rest: Seq<u8>)
    ensures
        dec_stage(enc_stage(st) + rest) == Some((st, rest)),
{
    match st {
        DataRequestStage::WaitingCommits => lemma_dec_enc_u8(0, rest),
        DataRequestStage::WaitingReveals => lemma_dec_enc_u8(1, rest),
        DataRequestStage::WaitingTally => lemma_dec_enc_u8(2, rest),
        DataRequestStage::Finished => lemma_dec_enc_u8(3, rest),
    }
}

pub open spec fn enc_opt_tally(t: Option<TallyOutputV>) -> Seq<u8> {
    match t {
        None => enc_u8(0),
        Some(tv) => enc_u8(1) + enc_tally(tv),
    }
}

pub open spec fn dec_opt_tally(s: Seq<u8>) -> Option<(Option<TallyOutputV>, Seq<u8>)> {
    match dec_u8(s) {
        Some((tag, s1)) => if tag == 0 {
            Some((None, s1))
        } else if tag == 1 {
            match dec_tally(s1) {
                Some((tv, s2)) => Some((Some(tv), s2)),
                None => None,
            }
        } else {
            None
        },
        None => None,
    }
}

pub proof fn lemma_dec_enc_opt_tally(t: Option<TallyOutputV>, rest: Seq<u8>)
    requires
        t matches Some(tv) ==> fits_len(tv.pkh.len()) && fits_len(tv.result.len()),
    ensures
        dec_opt_tally(enc_opt_tally(t) + rest) == Some((t, rest)),
{
    match t {
        None => {
            lemma_dec_enc_u8(0, rest);
        },
        Some(tv) => {
            assert(enc_opt_tally(t) + rest =~= enc_u8(1) + (enc_tally(tv) + rest));
            lemma_dec_enc_u8(1, enc_tally(tv) + rest);
            lemma_dec_enc_tally(tv, rest);
        },
    }
}

pub open spec fn dr_info_bounded(v: DataRequestInfoV) -> bool {
    &&& fits_len(v.data_request.pkh.len())
    &&& fits_len(v.commits.len())
    &&& forall|i: int|
        0 <= i < v.commits.len() ==> pointer_bounded(#[trigger] v.commits[i].0) && fits_len(
            v.commits[i].1.commitment.len(),
        )
    &&& fits_len(v.reveals.len())
    &&& forall|i: int|
        0 <= i < v.reveals.len() ==> pointer_bounded(#[trigger] v.reveals[i].0) && fits_len(
            v.reveals[i].1.pkh.len(),
        ) && fits_len(v.reveals[i].1.reveal.len())
    &&& (v.tally matches Some(tv) ==> fits_len(tv.pkh.len()) && fits_len(tv.result.len()))
}

pub open spec fn enc_dr_info(v: DataRequestInfoV) -> Seq<u8> {
    enc_dro(v.data_request) + enc_u32(v.epoch_created) + enc_stage(v.stage) + enc_vec_of::<
        (OutputPointer, CommitOutput),
    >(v.commits) + enc_vec_of::<(OutputPointer, RevealOutput)>(v.reveals) + enc_opt_tally(v.tally)
}

pub open spec fn dec_dr_info(s: Seq<u8>) -> Option<(DataRequestInfoV, Seq<u8>)> {
    match dec_dro(s) {
        Some((dro, s1)) => match dec_u32(s1) {
            Some((epoch_created, s2)) => match dec_stage(s2) {
                Some((stage, s3)) => match dec_vec_of::<(OutputPointer, CommitOutput)>(s3) {
                    Some((commits, s4)) => match dec_vec_of::<(OutputPointer, RevealOutput)>(s4) {
                        Some((reveals, s5)) => match dec_opt_tally(s5) {
                            Some((tally, s6)) => Some(
                                (
                                    DataRequestInfoV {
                                        data_request: dro,
                                        epoch_created,
                                        stage,
                                        commits,
                                        reveals,
                                        tally,
                                    },
                                    s6,
                                ),
                            ),
                            None => None,
                        },
                        None => None,
                    },
                    None => None,
                },
                None => None,
            },
            None => None,
        },
        None => None,
    }
}

#[verifier::spinoff_prover]
pub proof fn lemma_dec_enc_dr_info(v: DataRequestInfoV, rest: Seq<u8>)
    requires
        dr_info_bounded(v),
    ensures
        dec_dr_info(enc_dr_info(v) + rest) == Some((v, rest)),
{
    let r5 = enc_opt_tally(v.tally) + rest;
    let r4 = enc_vec_of::<(OutputPointer, RevealOutput)>(v.reveals) + r5;
    let r3 = enc_vec_of::<(OutputPointer, CommitOutput)>(v.commits) + r4;
    let r2 = enc_stage(v.stage) + r3;
    let r1 = enc_u32(v.epoch_created) + r2;
    assert(enc_dr_info(v) + rest =~= enc_dro(v.data_request) + r1);
    lemma_dec_enc_dro(v.data_request, r1);
    lemma_dec_enc_u32(v.epoch_created, r2);
    lemma_dec_enc_stage(v.stage, r3);
    lemma_dec_enc_vec_of::<(OutputPointer, CommitOutput)>(v.commits, r4);
    lemma_dec_enc_vec_of::<(OutputPointer, RevealOutput)>(v.reveals, r5);
    lemma_dec_enc_opt_tally(v.tally, rest);
}

impl Encode for DataRequestInfo {
    open spec fn enc(v: DataRequestInfoV) -> Seq<u8> {
        enc_dr_info(v)
    }

    #[verifier::spinoff_prover]
    #[verifier::rlimit(50)]
    fn write(&self, out: &mut Vec<u8>) {
        write_dro(out, &self.data_request);
        write_u32(out, self.epoch_created);
        match self.stage {
            DataRequestStage::WaitingCommits => write_u8(out, 0),
            DataRequestStage::WaitingReveals => write_u8(out, 1),
            DataRequestStage::WaitingTally => write_u8(out, 2),
            DataRequestStage::Finished => write_u8(out, 3),
        }
        write_vec_of(out, &self.commits);
        write_vec_of(out, &self.reveals);
        match &self.tally {
            None => {
                write_u8(out, 0);
            },
            Some(t) => {
                write_u8(out, 1);
                write_tally(out, t);
            },
        }
        proof {
            assert(views_of(self.commits) =~= self@.commits);
            assert(views_of(self.reveals) =~= self@.reveals);
            assert(out@ =~= old(out)@ + enc_dr_info(self@));
        }
    }
}

impl Decode for DataRequestInfo {
    open spec fn bounded(v: DataRequestInfoV) -> bool {
        dr_info_bounded(v)
    }

    open spec fn dec(s: Seq<u8>) -> Option<(DataRequestInfoV, Seq<u8>)> {
        dec_dr_info(s)
    }

    proof fn lemma_dec_enc(v: DataRequestInfoV, rest: Seq<u8>) {
        lemma_dec_enc_dr_info(v, rest);
    }

    fn read(buf: &Vec<u8>, pos: usize) -> (r: Option<(Self, usize)>) {
        match read_dro(buf, pos) {
            None => None,
            Some((dro, p1)) => match read_u32(buf, p1) {
                None => None,
                Some((epoch_created, p2)) => match read_stage(buf, p2) {
                    None => None,
                    Some((stage, p3)) => match read_vec_of::<(OutputPointer, CommitOutput)>(
                        buf,
                        p3,
                    ) {
                        None => None,
                        Some((commits, p4)) => match read_vec_of::<(OutputPointer, RevealOutput)>(
                            buf,
                            p4,
                        ) {
                            None => None,
                            Some((reveals, p5)) => match read_opt_tally(buf, p5) {
                                None => None,
                                Some((tally, p6)) => {
                                    let info = DataRequestInfo {
                                        data_request: dro,
                                        epoch_created,
                                        stage,
                                        commits,
                                        reveals,
                                        tally,
                                    };
                                    proof {
                                        assert(views_of(info.commits) =~= info@.commits);
                                        assert(views_of(info.reveals) =~= info@.reveals);
                                    }
                                    Some((info, p6))
                                },
                            },
                        },
                    },
                },
            },
        }
    }
}

fn read_stage(buf: &Vec<u8>, pos: usize) -> (r: Option<(DataRequestStage, usize)>)
    requires
        pos <= buf.len(),
    ensures
        r matches Some(t) ==> pos <= t.1 <= buf.len() && dec_stage(buf@.skip(pos as int)) == Some(
            (t.0, buf@.skip(t.1 as int)),
        ),
        r is None ==> dec_stage(buf@.skip(pos as int)) is None,
{
    match read_u8(buf, pos) {
        None => None,
        Some((tag, p1)) => {
            if tag == 0 {
                Some((DataRequestStage::WaitingCommits, p1))
            } else if tag == 1 {
                Some((DataRequestStage::WaitingReveals, p1))
            } else if tag == 2 {
                Some((DataRequestStage::WaitingTally, p1))
            } else if tag == 3 {
                Some((DataRequestStage::Finished, p1))
            } else {
                None
            }
        },
    }
}

fn read_opt_tally(buf: &Vec<u8>, pos: usize) -> (r: Option<(Option<TallyOutput>, usize)>)
    requires
        pos <= buf.len(),
    ensures
        r matches Some(t) ==> pos <= t.1 <= buf.len() && dec_opt_tally(buf@.skip(pos as int))
            == Some((t.0.deep_view(), buf@.skip(t.1 as int))),
        r is None ==> dec_opt_tally(buf@.skip(pos as int)) is None,
{
    match read_u8(buf, pos) {
        None => None,
        Some((tag, p1)) => {
            if tag == 0 {
                Some((None, p1))
            } else if tag == 1 {
                match read_tally(buf, p1) {
                    None => None,
                    Some((t, p2)) => Some((Some(t), p2)),
                }
            } else {
                None
            }
        },
    }
}

// ---------------------------------------------------------------------------
// The persisted root
// ---------------------------------------------------------------------------
pub open spec fn chain_state_bounded(v: crate::chain_state::ChainStateV) -> bool {
    &&& (v.chain_info matches Some(ci) ==> chain_info_bounded(ci))
    &&& fits_len(v.unspent_outputs_pool.len())
    &&& forall|i: int|
        0 <= i < v.unspent_outputs_pool.len() ==> pointer_bounded(
            #[trigger] v.unspent_outputs_pool[i].0,
        ) && output_bounded(v.unspent_outputs_pool[i].1)
    &&& fits_len(v.data_request_pool.requests.len())
    &&& forall|i: int|
        0 <= i < v.data_request_pool.requests.len() ==> pointer_bounded(
            #[trigger] v.data_request_pool.requests[i].0,
        ) && dr_info_bounded(v.data_request_pool.requests[i].1)
    &&& fits_len(v.data_request_pool.to_be_stored.len())
    &&& forall|i: int|
        0 <= i < v.data_request_pool.to_be_stored.len() ==> pointer_bounded(
            #[trigger] v.data_request_pool.to_be_stored[i].0,
        ) && dr_info_bounded(v.data_request_pool.to_be_stored[i].1)
    &&& fits_len(v.block_chain.len())
    &&& forall|i: int| 0 <= i < v.block_chain.len() ==> fits_len(#[trigger] v.block_chain[i].1.len())
}

pub open spec fn enc_chain_state(v: crate::chain_state::ChainStateV) -> Seq<u8> {
    enc_opt_chain_info(v.chain_info) + enc_vec_of::<(OutputPointer, Output)>(
        v.unspent_outputs_pool,
    ) + enc_vec_of::<(OutputPointer, DataRequestInfo)>(v.data_request_pool.requests)
        + enc_vec_of::<(OutputPointer, DataRequestInfo)>(v.data_request_pool.to_be_stored)
        + enc_vec_of::<(u32, crate::chain::Hash)>(v.block_chain)
}

pub open spec fn dec_chain_state(s: Seq<u8>) -> Option<
    (crate::chain_state::ChainStateV, Seq<u8>),
> {
    match dec_opt_chain_info(s) {
        Some((chain_info, s1)) => match dec_vec_of::<(OutputPointer, Output)>(s1) {
            Some((utxo, s2)) => match dec_vec_of::<(OutputPointer, DataRequestInfo)>(s2) {
                Some((requests, s3)) => match dec_vec_of::<(OutputPointer, DataRequestInfo)>(s3) {
                    Some((to_be_stored, s4)) => match dec_vec_of::<(u32, crate::chain::Hash)>(
                        s4,
                    ) {
                        Some((block_chain, s5)) => Some(
                            (
                                crate::chain_state::ChainStateV {
                                    chain_info,
                                    unspent_outputs_pool: utxo,
                                    data_request_pool: crate::data_request::DataRequestPoolV {
                                        requests,
                                        to_be_stored,
                                    },
                                    block_chain,
                                },
                                s5,
                            ),
                        ),
                        None => None,
                    },
                    None => None,
                },
                None => None,
            },
            None => None,
        },
        None => None,
    }
}

/// Decoding an encoded chain state gives the state back: the persisted
/// format loses nothing.
#[verifier::spinoff_prover]
#[verifier::rlimit(100)]
pub proof fn lemma_chain_state_round_trip(v: crate::chain_state::ChainStateV)
    requires
        chain_state_bounded(v),
    ensures
        dec_chain_state(enc_chain_state(v)) == Some((v, Seq::<u8>::empty())),
{
    let rest = Seq::<u8>::empty();
    let r4 = enc_vec_of::<(u32, crate::chain::Hash)>(v.block_chain) + rest;
    let r3 = enc_vec_of::<(OutputPointer, DataRequestInfo)>(v.data_request_pool.to_be_stored)
        + r4;
    let r2 = enc_vec_of::<(OutputPointer, DataRequestInfo)>(v.data_request_pool.requests) + r3;
    let r1 = enc_vec_of::<(OutputPointer, Output)>(v.unspent_outputs_pool) + r2;
    assert(enc_chain_state(v) + rest =~= enc_opt_chain_info(v.chain_info) + r1);
    lemma_dec_enc_opt_chain_info(v.chain_info, r1);
    lemma_dec_enc_vec_of::<(OutputPointer, Output)>(v.unspent_outputs_pool, r2);
    lemma_dec_enc_vec_of::<(OutputPointer, DataRequestInfo)>(v.data_request_pool.requests, r3);
    lemma_dec_enc_vec_of::<(OutputPointer, DataRequestInfo)>(
        v.data_request_pool.to_be_stored,
        r4,
    );
    lemma_dec_enc_vec_of::<(u32, crate::chain::Hash)>(v.block_chain, rest);
    assert(dec_chain_state(enc_chain_state(v) + rest) == Some((v, rest)));
    assert(enc_chain_state(v) + rest =~= enc_chain_state(v));
}

/// The canonical bytes persisted under the chain-state key.
pub fn encode_chain_state(cs: &crate::chain_state::ChainState) -> (r: Vec<u8>)
    ensures
        r@ == enc_chain_state(cs@),
{
    let mut out: Vec<u8> = Vec::new();
    write_opt_chain_info(&mut out, &cs.chain_info);
    write_vec_of(&mut out, &cs.unspent_outputs_pool.entries);
    write_vec_of(&mut out, &cs.data_request_pool.requests);
    write_vec_of(&mut out, &cs.data_request_pool.to_be_stored);
    write_vec_of(&mut out, &cs.block_chain);
    proof {
        assert(views_of(cs.unspent_outputs_pool.entries) =~= cs@.unspent_outputs_pool);
        assert(views_of(cs.data_request_pool.requests) =~= cs@.data_request_pool.requests);
        assert(views_of(cs.data_request_pool.to_be_stored)
            =~= cs@.data_request_pool.to_be_stored);
        assert(views_of(cs.block_chain) =~= cs@.block_chain);
        assert(out@ =~= enc_chain_state(cs@));
    }
    out
}

/// Rehydrates a chain state from persisted bytes; `None` when the bytes do
/// not carry exactly one chain state.
pub fn decode_chain_state(buf: &Vec<u8>) -> (r: Option<crate::chain_state::ChainState>)
    ensures
        r matches Some(cs) ==> dec_chain_state(buf@) matches Some(t) && t.0 == cs@ && t.1.len()
            == 0,
        r is None ==> dec_chain_state(buf@) is None || (dec_chain_state(buf@) matches Some(t)
            && t.1.len() != 0),
{
    proof {
        assert(buf@.skip(0) =~= buf@);
    }
    match read_opt_chain_info(buf, 0) {
        None => None,
        Some((chain_info, p1)) => match read_vec_of::<(OutputPointer, Output)>(buf, p1) {
            None => None,
            Some((entries, p2)) => match read_vec_of::<(OutputPointer, DataRequestInfo)>(
                buf,
                p2,
            ) {
                None => None,
                Some((requests, p3)) => match read_vec_of::<(OutputPointer, DataRequestInfo)>(
                    buf,
                    p3,
                ) {
                    None => None,
                    Some((to_be_stored, p4)) => match read_vec_of::<(u32, crate::chain::Hash)>(
                        buf,
                        p4,
                    ) {
                        None => None,
                        Some((block_chain, p5)) => {
                            if p5 == buf.len() {
                                let cs = crate::chain_state::ChainState {
                                    chain_info,
                                    unspent_outputs_pool: crate::utxo::UnspentOutputsPool {
                                        entries,
                                    },
                                    data_request_pool: crate::data_request::DataRequestPool {
                                        requests,
                                        to_be_stored,
                                    },
                                    block_chain,
                                };
                                proof {
                                    assert(views_of(cs.unspent_outputs_pool.entries)
                                        =~= cs@.unspent_outputs_pool);
                                    assert(views_of(cs.data_request_pool.requests)
                                        =~= cs@.data_request_pool.requests);
                                    assert(views_of(cs.data_request_pool.to_be_stored)
                                        =~= cs@.data_request_pool.to_be_stored);
                                    assert(views_of(cs.block_chain) =~= cs@.block_chain);
                                }
                                Some(cs)
                            } else {
                                None
                            }
                        },
                    },
                },
            },
        },
    }
}

// ---------------------------------------------------------------------------
// Blocks and transactions (encoded for identity hashing and persistence)
// ---------------------------------------------------------------------------
pub open spec fn enc_input(v: crate::chain::InputV) -> Seq<u8> {
    (match v.kind {
        crate::chain::InputKind::ValueTransfer => enc_u8(0),
        crate::chain::InputKind::Commit => enc_u8(1),
        crate::chain::InputKind::Reveal => enc_u8(2),
        crate::chain::InputKind::DataRequest => enc_u8(3),
    }) + enc_bytes(v.transaction_id) + enc_u32(v.output_index)
}

impl Encode for crate::chain::Input {
    open spec fn enc(v: crate::chain::InputV) -> Seq<u8> {
        enc_input(v)
    }

    fn write(&self, out: &mut Vec<u8>) {
        match self.kind {
            crate::chain::InputKind::ValueTransfer => write_u8(out, 0),
            crate::chain::InputKind::Commit => write_u8(out, 1),
            crate::chain::InputKind::Reveal => write_u8(out, 2),
            crate::chain::InputKind::DataRequest => write_u8(out, 3),
        }
        write_bytes(out, &self.transaction_id.bytes);
        write_u32(out, self.output_index);
        proof {
            assert(out@ =~= old(out)@ + enc_input(self@));
        }
    }
}

pub open spec fn enc_signature(v: crate::chain::SignatureV) -> Seq<u8> {
    enc_bytes(v.r) + enc_bytes(v.s) + enc_u8(v.v)
}

impl Encode for crate::chain::Signature {
    open spec fn enc(v: crate::chain::SignatureV) -> Seq<u8> {
        enc_signature(v)
    }

    #[verifier::spinoff_prover]
    #[verifier::rlimit(50)]
    fn write(&self, out: &mut Vec<u8>) {
        let ghost o0 = old(out)@;
        write_bytes(out, &self.r);
        proof {
            assert(out@ == o0 + enc_bytes(self@.r));
        }
        write_bytes(out, &self.s);
        proof {
            assert(out@ == o0 + enc_bytes(self@.r) + enc_bytes(self@.s));
        }
        write_u8(out, self.v);
        proof {
            assert(out@ == o0 + enc_bytes(self@.r) + enc_bytes(self@.s) + enc_u8(self@.v));
            assert(out@ =~= o0 + (enc_bytes(self@.r) + enc_bytes(self@.s) + enc_u8(self@.v)));
            assert(out@ == o0 + enc_signature(self@));
            assert(out@ == o0 + <crate::chain::Signature as Encode>::enc(self@));
        }
    }
}

pub open spec fn enc_keyed_signature(v: crate::chain::KeyedSignatureV) -> Seq<u8> {
    enc_bytes(v.public_key) + enc_signature(v.signature)
}

impl Encode for crate::chain::KeyedSignature {
    open spec fn enc(v: crate::chain::KeyedSignatureV) -> Seq<u8> {
        enc_keyed_signature(v)
    }

    fn write(&self, out: &mut Vec<u8>) {
        write_bytes(out, &self.public_key);
        self.signature.write(out);
        proof {
            assert(out@ =~= old(out)@ + enc_keyed_signature(self@));
        }
    }
}

/// The canonical transaction encoding; a transaction's identity is the
/// digest of these bytes.
pub open spec fn enc_transaction(v: crate::chain::TransactionV) -> Seq<u8> {
    enc_u32(v.version) + enc_vec_of::<crate::chain::Input>(v.inputs) + enc_vec_of::<Output>(
        v.outputs,
    ) + enc_vec_of::<crate::chain::KeyedSignature>(v.signatures)
}

impl Encode for crate::chain::Transaction {
    open spec fn enc(v: crate::chain::TransactionV) -> Seq<u8> {
        enc_transaction(v)
    }

    fn write(&self, out: &mut Vec<u8>) {
        write_u32(out, self.version);
        write_vec_of(out, &self.inputs);
        write_vec_of(out, &self.outputs);
        write_vec_of(out, &self.signatures);
        proof {
            assert(views_of(self.inputs) =~= self@.inputs);
            assert(views_of(self.outputs) =~= self@.outputs);
            assert(views_of(self.signatures) =~= self@.signatures);
            assert(out@ =~= old(out)@ + enc_transaction(self@));
        }
    }
}

pub open spec fn enc_leadership_proof(v: crate::chain::LeadershipProofV) -> Seq<u8> {
    (match v.block_sig {
        None => enc_u8(0),
        Some(s) => enc_u8(1) + enc_signature(s),
    }) + enc_u64(v.influence)
}

pub fn write_leadership_proof(out: &mut Vec<u8>, p: &crate::chain::LeadershipProof)
    ensures
        final(out)@ == old(out)@ + enc_leadership_proof(p@),
{
    match &p.block_sig {
        None => {
            write_u8(out, 0);
        },
        Some(s) => {
            write_u8(out, 1);
            s.write(out);
        },
    }
    write_u64(out, p.influence);
    proof {
        assert(out@ =~= old(out)@ + enc_leadership_proof(p@));
    }
}

/// The canonical header encoding; a block's identity is the digest of these
/// bytes.
pub open spec fn enc_block_header(v: crate::chain::BlockHeaderV) -> Seq<u8> {
    enc_u32(v.version) + enc_beacon(v.beacon) + enc_bytes(v.hash_merkle_root)
}

pub fn write_block_header(out: &mut Vec<u8>, h: &crate::chain::BlockHeader)
    ensures
        final(out)@ == old(out)@ + enc_block_header(h@),
{
    write_u32(out, h.version);
    write_beacon(out, &h.beacon);
    write_bytes(out, &h.hash_merkle_root.bytes);
    proof {
        assert(out@ =~= old(out)@ + enc_block_header(h@));
    }
}

pub open spec fn enc_block(v: crate::chain::BlockV) -> Seq<u8> {
    enc_block_header(v.block_header) + enc_leadership_proof(v.proof) + enc_vec_of::<
        crate::chain::Transaction,
    >(v.txns)
}

/// The canonical bytes a block is persisted under.
pub fn encode_block(b: &crate::chain::Block) -> (r: Vec<u8>)
    ensures
        r@ == enc_block(b@),
{
    let mut out: Vec<u8> = Vec::new();
    write_block_header(&mut out, &b.block_header);
    write_leadership_proof(&mut out, &b.proof);
    write_vec_of(&mut out, &b.txns);
    proof {
        assert(views_of(b.txns) =~= b@.txns);
        assert(out@ =~= enc_block(b@));
    }
    out
}

/// The canonical bytes an output pointer is keyed under in the blob store.
pub fn encode_pointer(p: &OutputPointer) -> (r: Vec<u8>)
    ensures
        r@ == enc_pointer(p@),
{
    let mut out: Vec<u8> = Vec::new();
    write_pointer(&mut out, p);
    proof {
        assert(out@ =~= enc_pointer(p@));
    }
    out
}

/// The canonical bytes a finished data request is persisted under.
pub fn encode_data_request_report(
    p: &OutputPointer,
    info: &DataRequestInfo,
) -> (r: Vec<u8>)
    ensures
        r@ == enc_pointer(p@) + enc_dr_info(info@),
{
    let mut out: Vec<u8> = Vec::new();
    write_pointer(&mut out, p);
    info.write(&mut out);
    proof {
        assert(out@ =~= enc_pointer(p@) + enc_dr_info(info@));
    }
    out
}

} // verus!
