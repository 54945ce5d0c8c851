use vstd::prelude::*;

verus! {

/// The little-endian value of four bytes.
pub open spec fn le_u32(b: Seq<u8>) -> nat
    recommends
        b.len() == 4,
{
    b[0] as nat + 256 * (b[1] as nat + 256 * (b[2] as nat + 256 * (b[3] as nat)))
}

/// The four little-endian bytes of a length.
pub open spec fn le_bytes(n: nat) -> Seq<u8> {
    seq![(n % 256) as u8, ((n / 256) % 256) as u8, ((n / 65536) % 256) as u8, ((n / 16777216) % 256) as u8]
}

/// Reads the length prefix that starts every message on the wire.
pub fn frame_len(header: &[u8; 4]) -> (r: u32)
    ensures
        r as nat == le_u32(header@),
{
    let b0 = header[0] as u32;
    let b1 = header[1] as u32;
    let b2 = header[2] as u32;
    let b3 = header[3] as u32;
    assert(b0 + 256 * (b1 + 256 * (b2 + 256 * b3)) < 0x1_0000_0000) by (nonlinear_arith)
        requires b0 < 256, b1 < 256, b2 < 256, b3 < 256;
    b0 + 256 * (b1 + 256 * (b2 + 256 * b3))
}

/// Frames a message: its length in four little-endian bytes, then the message.
pub fn encode_frame(payload: &Vec<u8>) -> (r: Vec<u8>)
    requires
        payload@.len() <= u32::MAX,
    ensures
        r@ == le_bytes(payload@.len()) + payload@,
{
    let n = payload.len() as u32;
    let mut r: Vec<u8> = Vec::new();
    r.push((n % 256) as u8);
    r.push(((n / 256) % 256) as u8);
    r.push(((n / 65536) % 256) as u8);
    r.push(((n / 16777216) % 256) as u8);
    let ghost head = r@;
    let m = payload.len();
    let mut i: usize = 0;
    while i < m
        invariant
            m == payload@.len(),
            i <= m,
            r@ == head + payload@.take(i as int),
        decreases m - i,
    {
        r.push(payload[i]);
        assert(payload@.take(i + 1) =~= payload@.take(i as int).push(payload@[i as int]));
        i = i + 1;
    }
    assert(payload@.take(m as int) =~= payload@);
    assert(head =~= le_bytes(payload@.len()));
    r
}

/// Round trip: the length prefix written for a length reads back as that length.
pub proof fn lemma_length_prefix_round_trip(n: u32)
    ensures
        le_u32(le_bytes(n as nat)) == n,
{
    let x = n as nat;
    assert(x == x % 256 + 256 * ((x / 256) % 256 + 256 * ((x / 65536) % 256 + 256 * ((x / 16777216) % 256))))
        by (nonlinear_arith)
        requires x < 0x1_0000_0000;
}

} // verus!
