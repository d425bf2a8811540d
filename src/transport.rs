use vstd::prelude::*;

verus! {

/// Number of connection attempts before a VM counts as not started.
pub const CONNECT_ATTEMPTS: u32 = 100;

/// Pause between two connection attempts, in milliseconds.
pub const CONNECT_RETRY_DELAY_MS: u64 = 20;

/// `n` as four big-endian bytes.
pub open spec fn be32(n: nat) -> Seq<u8> {
    seq![
        (n / 0x100_0000 % 0x100) as u8,
        (n / 0x1_0000 % 0x100) as u8,
        (n / 0x100 % 0x100) as u8,
        (n % 0x100) as u8,
    ]
}

/// The number that four big-endian bytes hold.
pub open spec fn be32_value(b: Seq<u8>) -> nat {
    (b[0] * 0x100_0000 + b[1] * 0x1_0000 + b[2] * 0x100 + b[3]) as nat
}

/// A frame: the payload's length as four big-endian bytes, then the payload.
pub open spec fn frame_of(payload: Seq<u8>) -> Seq<u8> {
    be32(payload.len()) + payload
}

/// Reading a frame's header gives back the length that was written.
pub proof fn lemma_header_round_trip(n: nat)
    requires
        n <= u32::MAX,
    ensures
        be32(n).len() == 4,
        be32_value(be32(n)) == n,
{
    let b = be32(n);
    assert(b[0] == n / 0x100_0000 % 0x100);
    assert(b[1] == n / 0x1_0000 % 0x100);
    assert(b[2] == n / 0x100 % 0x100);
    assert(b[3] == n % 0x100);
    assert(n / 0x100_0000 % 0x100 * 0x100_0000 + n / 0x1_0000 % 0x100 * 0x1_0000 + n / 0x100 % 0x100
        * 0x100 + n % 0x100 == n) by (nonlinear_arith)
        requires
            n <= u32::MAX,
    ;
}

/// Frames `payload` for the VM's connection; `None` when its length does not fit in the
/// four-byte header.
pub fn encode_frame(payload: &Vec<u8>) -> (r: Option<Vec<u8>>)
    ensures
        payload@.len() > u32::MAX ==> r is None,
        payload@.len() <= u32::MAX ==> (r matches Some(f) && f@ == frame_of(payload@)),
{
    if payload.len() as u64 > 0xffff_ffffu64 {
        return None;
    }
    let n: u32 = payload.len() as u32;
    let mut f: Vec<u8> = Vec::new();
    f.push((n / 0x100_0000 % 0x100) as u8);
    f.push((n / 0x1_0000 % 0x100) as u8);
    f.push((n / 0x100 % 0x100) as u8);
    f.push((n % 0x100) as u8);
    assert(f@ =~= be32(payload@.len()));
    let mut i: usize = 0;
    while i < payload.len()
        invariant
            0 <= i <= payload@.len(),
            f@ == be32(payload@.len()) + payload@.take(i as int),
        decreases payload@.len() - i,
    {
        f.push(payload[i]);
        assert(payload@.take(i + 1) =~= payload@.take(i as int).push(payload@[i as int]));
        assert(be32(payload@.len()) + payload@.take(i + 1) =~= (be32(payload@.len()) + payload@.take(
            i as int,
        )).push(payload@[i as int]));
        i += 1;
    }
    assert(payload@.take(i as int) =~= payload@);
    Some(f)
}

/// The payload length that a frame header announces.
pub fn decode_len(header: [u8; 4]) -> (r: u32)
    ensures
        r == be32_value(header@),
{
    header[0] as u32 * 0x100_0000 + header[1] as u32 * 0x1_0000 + header[2] as u32 * 0x100
        + header[3] as u32
}

/// What to do after a failed attempt to reach a starting VM.
#[derive(Clone, Copy, Debug, PartialEq, Eq, Structural)]
pub enum ConnectDecision {
    /// Wait this many milliseconds, then try again.
    RetryAfter(u64),
    /// Stop: the VM did not come up.
    GiveUp,
}

/// Decides after the `failed`-th failed attempt, counting from 1: try again until
/// `CONNECT_ATTEMPTS` attempts have failed.
pub fn after_failed_connect(failed: u32) -> (r: ConnectDecision)
    ensures
        failed < CONNECT_ATTEMPTS ==> r == ConnectDecision::RetryAfter(CONNECT_RETRY_DELAY_MS),
        failed >= CONNECT_ATTEMPTS ==> r == ConnectDecision::GiveUp,
{
    if failed < CONNECT_ATTEMPTS {
        ConnectDecision::RetryAfter(CONNECT_RETRY_DELAY_MS)
    } else {
        ConnectDecision::GiveUp
    }
}

} // verus!
