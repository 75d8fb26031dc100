//! Primitives of the canonical wire encoding: little-endian integers and
//! fixed 32- and 64-byte blocks, read and written through a cursor.  Every
//! protocol message is a concatenation of these, so its encoding is stable
//! and decoding it is the identity on what encoding produced.

use vstd::prelude::*;

verus! {

/// The little-endian four-byte encoding of a 32-bit integer.
pub open spec fn u32_le(v: u32) -> Seq<u8> {
    seq![
        (v & 0xff) as u8,
        ((v >> 8) & 0xff) as u8,
        ((v >> 16) & 0xff) as u8,
        ((v >> 24) & 0xff) as u8,
    ]
}

/// The 32-bit integer four bytes denote in little-endian order.
pub open spec fn u32_of(b0: u8, b1: u8, b2: u8, b3: u8) -> u32 {
    (b0 as u32) | ((b1 as u32) << 8) | ((b2 as u32) << 16) | ((b3 as u32) << 24)
}

/// Reading back the four bytes of an encoded integer gives the integer.
pub proof fn lemma_u32_round(v: u32)
    ensures
        u32_of(
            (v & 0xff) as u8,
            ((v >> 8) & 0xff) as u8,
            ((v >> 16) & 0xff) as u8,
            ((v >> 24) & 0xff) as u8,
        ) == v,
{
    assert((((v & 0xff) as u8) as u32) | ((((v >> 8) & 0xff) as u8) as u32) << 8 | ((((v >> 16)
        & 0xff) as u8) as u32) << 16 | ((((v >> 24) & 0xff) as u8) as u32) << 24 == v)
        by (bit_vector);
}

/// Two integers with the same encoding are the same.
pub proof fn lemma_u32_le_injective(a: u32, b: u32)
    requires
        u32_le(a) == u32_le(b),
    ensures
        a == b,
{
    lemma_u32_round(a);
    lemma_u32_round(b);
    assert(u32_le(a)[0] == u32_le(b)[0]);
    assert(u32_le(a)[1] == u32_le(b)[1]);
    assert(u32_le(a)[2] == u32_le(b)[2]);
    assert(u32_le(a)[3] == u32_le(b)[3]);
}

/// Append the little-endian encoding of `v`.
pub fn push_u32(out: &mut Vec<u8>, v: u32)
    ensures
        final(out)@ == old(out)@ + u32_le(v),
{
    out.push((v & 0xff) as u8);
    out.push(((v >> 8) & 0xff) as u8);
    out.push(((v >> 16) & 0xff) as u8);
    out.push(((v >> 24) & 0xff) as u8);
    proof {
        assert(out@ =~= old(out)@ + u32_le(v));
    }
}

/// Read a little-endian 32-bit integer at `pos`.
pub fn read_u32(data: &Vec<u8>, pos: usize) -> (r: Option<(u32, usize)>)
    ensures
        r matches Some((v, p2)) ==> p2 == pos + 4 && pos + 4 <= data@.len() && u32_le(v)
            == data@.subrange(pos as int, pos + 4),
        r is None <==> pos + 4 > data@.len(),
{
    if pos > data.len() || data.len() - pos < 4 {
        return None;
    }
    let b0 = data[pos];
    let b1 = data[pos + 1];
    let b2 = data[pos + 2];
    let b3 = data[pos + 3];
    let v = (b0 as u32) | ((b1 as u32) << 8) | ((b2 as u32) << 16) | ((b3 as u32) << 24);
    proof {
        assert(v & 0xff == b0 && (v >> 8) & 0xff == b1 && (v >> 16) & 0xff == b2 && (v >> 24)
            & 0xff == b3) by (bit_vector)
            requires
                v == (b0 as u32) | ((b1 as u32) << 8) | ((b2 as u32) << 16) | ((b3 as u32) << 24),
        ;
        assert(u32_le(v) =~= data@.subrange(pos as int, pos + 4));
    }
    Some((v, pos + 4))
}

/// Append 32 bytes.
pub fn push_bytes32(out: &mut Vec<u8>, b: &[u8; 32])
    ensures
        final(out)@ == old(out)@ + b@,
{
    let mut i: usize = 0;
    while i < 32
        invariant
            0 <= i <= 32,
            out@ == old(out)@ + b@.subrange(0, i as int),
        decreases 32 - i,
    {
        out.push(b[i]);
        proof {
            assert(b@.subrange(0, i + 1) =~= b@.subrange(0, i as int).push(b@[i as int]));
        }
        i = i + 1;
    }
    proof {
        assert(b@.subrange(0, 32) =~= b@);
    }
}

/// The encoding of a variable-length byte string: its length, then its
/// bytes.
pub open spec fn bytes_enc(v: Seq<u8>) -> Seq<u8> {
    u32_le(v.len() as u32) + v
}

/// Append a length-prefixed byte string.
pub fn push_bytes(out: &mut Vec<u8>, v: &Vec<u8>)
    requires
        v@.len() <= u32::MAX,
    ensures
        final(out)@ == old(out)@ + bytes_enc(v@),
{
    push_u32(out, v.len() as u32);
    let ghost mid = out@;
    let mut i: usize = 0;
    while i < v.len()
        invariant
            0 <= i <= v@.len(),
            out@ == mid + v@.subrange(0, i as int),
        decreases v@.len() - i,
    {
        out.push(v[i]);
        proof {
            assert(v@.subrange(0, i + 1) =~= v@.subrange(0, i as int).push(v@[i as int]));
        }
        i = i + 1;
    }
    proof {
        assert(v@.subrange(0, v@.len() as int) =~= v@);
        assert(out@ =~= old(out)@ + bytes_enc(v@));
    }
}

/// Read a length-prefixed byte string at `pos`.
pub fn read_bytes(data: &Vec<u8>, pos: usize) -> (r: Option<(Vec<u8>, usize)>)
    ensures
        r matches Some((v, p2)) ==> pos <= p2 <= data@.len() && v@.len() <= u32::MAX
            && data@.subrange(pos as int, p2 as int) == bytes_enc(v@),
{
    let (n, p1) = match read_u32(data, pos) {
        Some(v) => v,
        None => {
            return None;
        },
    };
    if n as usize > data.len() || data.len() - (n as usize) < p1 {
        return None;
    }
    let end = p1 + n as usize;
    let mut v: Vec<u8> = Vec::new();
    let mut i: usize = p1;
    while i < end
        invariant
            p1 <= i <= end <= data@.len(),
            v@ == data@.subrange(p1 as int, i as int),
        decreases end - i,
    {
        v.push(data[i]);
        proof {
            assert(data@.subrange(p1 as int, i + 1) =~= data@.subrange(
                p1 as int,
                i as int,
            ).push(data@[i as int]));
        }
        i = i + 1;
    }
    proof {
        assert(v@.len() == n);
        assert(data@.subrange(pos as int, end as int) =~= bytes_enc(v@));
    }
    Some((v, end))
}

/// Read 32 bytes at `pos`.
pub fn read_bytes32(data: &Vec<u8>, pos: usize) -> (r: Option<([u8; 32], usize)>)
    ensures
        r matches Some((b, p2)) ==> p2 == pos + 32 && pos + 32 <= data@.len() && b@
            == data@.subrange(pos as int, pos + 32),
        r is None <==> pos + 32 > data@.len(),
{
    if pos > data.len() || data.len() - pos < 32 {
        return None;
    }
    let n = data.len();
    let mut b: [u8; 32] = [0; 32];
    let mut i: usize = 0;
    while i < 32
        invariant
            0 <= i <= 32,
            pos + 32 <= n == data@.len(),
            b@.len() == 32,
            forall|j: int| 0 <= j < i ==> b@[j] == data@[pos + j],
        decreases 32 - i,
    {
        b[i] = data[pos + i];
        i = i + 1;
    }
    proof {
        assert(b@ =~= data@.subrange(pos as int, pos + 32));
    }
    Some((b, pos + 32))
}

/// Append 64 bytes.
pub fn push_bytes64(out: &mut Vec<u8>, b: &[u8; 64])
    ensures
        final(out)@ == old(out)@ + b@,
{
    let mut i: usize = 0;
    while i < 64
        invariant
            0 <= i <= 64,
            out@ == old(out)@ + b@.subrange(0, i as int),
        decreases 64 - i,
    {
        out.push(b[i]);
        proof {
            assert(b@.subrange(0, i + 1) =~= b@.subrange(0, i as int).push(b@[i as int]));
        }
        i = i + 1;
    }
    proof {
        assert(b@.subrange(0, 64) =~= b@);
    }
}

/// Read 64 bytes at `pos`.
pub fn read_bytes64(data: &Vec<u8>, pos: usize) -> (r: Option<([u8; 64], usize)>)
    ensures
        r matches Some((b, p2)) ==> p2 == pos + 64 && pos + 64 <= data@.len() && b@
            == data@.subrange(pos as int, pos + 64),
        r is None <==> pos + 64 > data@.len(),
{
    if pos > data.len() || data.len() - pos < 64 {
        return None;
    }
    let n = data.len();
    let mut b: [u8; 64] = [0; 64];
    let mut i: usize = 0;
    while i < 64
        invariant
            0 <= i <= 64,
            pos + 64 <= n == data@.len(),
            b@.len() == 64,
            forall|j: int| 0 <= j < i ==> b@[j] == data@[pos + j],
        decreases 64 - i,
    {
        b[i] = data[pos + i];
        i = i + 1;
    }
    proof {
        assert(b@ =~= data@.subrange(pos as int, pos + 64));
    }
    Some((b, pos + 64))
}

/// Read a canonical point encoding at `pos`.
pub fn read_point(data: &Vec<u8>, pos: usize) -> (r: Option<(crate::group::Point, usize)>)
    ensures
        r matches Some((p, p2)) ==> p2 == pos + 32 && p2 <= data@.len() && data@.subrange(
            pos as int,
            p2 as int,
        ) == p@,
        r is None ==> pos + 32 > data@.len() || !crate::group::pt_ok(
            data@.subrange(pos as int, pos + 32),
        ),
{
    let (b, p2) = match read_bytes32(data, pos) {
        Some(v) => v,
        None => {
            return None;
        },
    };
    match crate::group::point_decode(&b) {
        Some(p) => Some((p, p2)),
        None => None,
    }
}

/// Read a canonical scalar encoding at `pos`.
pub fn read_scalar(data: &Vec<u8>, pos: usize) -> (r: Option<(crate::group::GroupScalar, usize)>)
    ensures
        r matches Some((s, p2)) ==> p2 == pos + 32 && p2 <= data@.len() && data@.subrange(
            pos as int,
            p2 as int,
        ) == s@,
        r is None ==> pos + 32 > data@.len() || crate::group::le_val(
            data@.subrange(pos as int, pos + 32),
        ) >= crate::group_order(),
{
    let (b, p2) = match read_bytes32(data, pos) {
        Some(v) => v,
        None => {
            return None;
        },
    };
    match crate::group::scalar_decode(&b) {
        Some(s) => Some((s, p2)),
        None => None,
    }
}

} // verus!
