//! Wire framing: each frame is a `u32` little-endian length followed by
//! that many payload bytes.

use vstd::prelude::*;

verus! {

/// The number that four bytes encode, least significant first.
pub open spec fn le_u32(b: Seq<u8>) -> int {
    b[0] as int + 0x100 * (b[1] as int) + 0x1_0000 * (b[2] as int) + 0x100_0000 * (b[3] as int)
}

/// The four little-endian bytes of `n`.
pub open spec fn le_bytes(n: int) -> Seq<u8> {
    seq![
        (n % 0x100) as u8,
        ((n / 0x100) % 0x100) as u8,
        ((n / 0x1_0000) % 0x100) as u8,
        ((n / 0x100_0000) % 0x100) as u8,
    ]
}

/// The length a buffer announces in its first four bytes.
pub open spec fn announced(src: Seq<u8>) -> int {
    le_u32(src.subrange(0, 4))
}

/// `src` starts with a whole frame.
pub open spec fn frame_complete(src: Seq<u8>) -> bool {
    src.len() >= 4 && src.len() >= 4 + announced(src)
}

/// Reading back the length prefix of a frame gives the length written.
pub proof fn lemma_le_round_trip(n: int)
    requires
        0 <= n < 0x1_0000_0000,
    ensures
        le_u32(le_bytes(n)) == n,
{
    let b0 = n % 0x100;
    let q0 = n / 0x100;
    let b1 = q0 % 0x100;
    let q1 = q0 / 0x100;
    let b2 = q1 % 0x100;
    let b3 = q1 / 0x100;
    assert(n == b0 + 0x100 * q0 && 0 <= b0 < 0x100) by (nonlinear_arith)
        requires
            b0 == n % 0x100,
            q0 == n / 0x100,
            0 <= n,
    ;
    assert(q0 == b1 + 0x100 * q1 && 0 <= b1 < 0x100) by (nonlinear_arith)
        requires
            b1 == q0 % 0x100,
            q1 == q0 / 0x100,
            0 <= q0,
    ;
    assert(q1 == b2 + 0x100 * b3 && 0 <= b2 < 0x100 && 0 <= b3 < 0x100) by (nonlinear_arith)
        requires
            b2 == q1 % 0x100,
            b3 == q1 / 0x100,
            0 <= q1,
            n == b0 + 0x100 * q0,
            q0 == b1 + 0x100 * q1,
            0 <= b0 < 0x100,
            0 <= b1 < 0x100,
            n < 0x1_0000_0000,
    ;
    assert(n / 0x1_0000 == q1) by (nonlinear_arith)
        requires
            n == b0 + 0x100 * q0,
            q0 == b1 + 0x100 * q1,
            0 <= b0 < 0x100,
            0 <= b1 < 0x100,
    ;
    assert(n / 0x100_0000 == b3) by (nonlinear_arith)
        requires
            n == b0 + 0x100 * (b1 + 0x100 * (b2 + 0x100 * b3)),
            0 <= b0 < 0x100,
            0 <= b1 < 0x100,
            0 <= b2 < 0x100,
    ;
    assert(q1 % 0x100 == b2);
}

/// The frame that carries `payload`.
pub fn encode_frame(payload: &[u8]) -> (r: Vec<u8>)
    requires
        payload@.len() < 0x1_0000_0000,
    ensures
        r@ == le_bytes(payload@.len() as int) + payload@,
        announced(r@) == payload@.len(),
        frame_complete(r@),
{
    let n = payload.len() as u64;
    let mut r: Vec<u8> = Vec::new();
    r.push((n % 0x100) as u8);
    r.push(((n / 0x100) % 0x100) as u8);
    r.push(((n / 0x1_0000) % 0x100) as u8);
    r.push(((n / 0x100_0000) % 0x100) as u8);
    let ghost head = r@;
    assert(head =~= le_bytes(n as int));
    let mut i: usize = 0;
    while i < payload.len()
        invariant
            i <= payload@.len(),
            r@ == head + payload@.subrange(0, i as int),
        decreases payload@.len() - i,
    {
        r.push(payload[i]);
        assert(payload@.subrange(0, i + 1) =~= payload@.subrange(0, i as int).push(payload@[i as int]));
        i = i + 1;
    }
    assert(payload@.subrange(0, payload@.len() as int) =~= payload@);
    proof {
        lemma_le_round_trip(n as int);
        assert(r@.subrange(0, 4) =~= head);
    }
    r
}

/// Reads one frame from the start of `src`: its payload and the number of
/// bytes it takes, or `None` while the frame is not complete.
pub fn decode_frame(src: &[u8]) -> (r: Option<(Vec<u8>, usize)>)
    ensures
        r.is_some() == frame_complete(src@),
        r.is_some() ==> {
            &&& r.unwrap().1 == 4 + announced(src@)
            &&& r.unwrap().0@ == src@.subrange(4, 4 + announced(src@))
        },
{
    if src.len() < 4 {
        return None;
    }
    let length = src[0] as u64 + 0x100 * (src[1] as u64) + 0x1_0000 * (src[2] as u64) + 0x100_0000
        * (src[3] as u64);
    assert(length == announced(src@));
    if (src.len() as u64) < 4 + length {
        return None;
    }
    let end = (4 + length) as usize;
    let mut data: Vec<u8> = Vec::new();
    let mut i: usize = 4;
    while i < end
        invariant
            4 <= i <= end,
            end <= src@.len(),
            data@ == src@.subrange(4, i as int),
        decreases end - i,
    {
        data.push(src[i]);
        assert(src@.subrange(4, i + 1) =~= src@.subrange(4, i as int).push(src@[i as int]));
        i = i + 1;
    }
    Some((data, end))
}

} // verus!
