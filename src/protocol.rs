use crate::session::{GameSession, PlayerSession, StateUpdate};
use vstd::prelude::*;

verus! {

/// Bytes of the length prefix of a frame.
pub const HEADER_LEN: usize = 4;

/// What the server sends a client on each tick.
#[derive(Clone, Debug)]
pub struct NetworkPayload {
    /// Unix time in seconds.
    pub timestamp: u64,
    pub tick_count: u64,
    /// Seconds since the match started.
    pub age: u64,
    pub tick_rate: u8,
    /// The side of the receiving player.
    pub side: bool,
    /// The money of the receiving player.
    pub money: u32,
    pub updates: Vec<StateUpdate>,
}

impl NetworkPayload {
    /// The payload for the player of `player_session`, stamped with `timestamp`.
    pub fn create(
        session: &GameSession,
        player_session: &PlayerSession,
        updates: Vec<StateUpdate>,
        timestamp: u64,
    ) -> (r: Self)
        ensures
            r.timestamp == timestamp,
            r.tick_count == session.tick_count,
            r.age == session.age,
            r.tick_rate == session.tick_rate,
            r.side == player_session.side,
            r.money == player_session.money,
            r.updates == updates,
    {
        NetworkPayload {
            timestamp,
            side: player_session.side,
            money: player_session.money,
            tick_count: session.tick_count,
            age: session.age,
            tick_rate: session.tick_rate,
            updates,
        }
    }
}

/// The big-endian bytes of `n`.
pub open spec fn be_bytes(n: u32) -> Seq<u8> {
    seq![
        (n / 0x100_0000) as u8,
        ((n / 0x1_0000) % 0x100) as u8,
        ((n / 0x100) % 0x100) as u8,
        (n % 0x100) as u8,
    ]
}

/// The number that the first four bytes of `b` spell, most significant first.
pub open spec fn be_value(b: Seq<u8>) -> int {
    b[0] * 0x100_0000 + b[1] * 0x1_0000 + b[2] * 0x100 + b[3]
}

/// A frame: the payload's length as four big-endian bytes, then the payload.
pub open spec fn frame(payload: Seq<u8>) -> Seq<u8> {
    be_bytes(payload.len() as u32) + payload
}

/// Frames `payload`, unless its length does not fit in the prefix.
pub fn encode_frame(payload: &Vec<u8>) -> (r: Option<Vec<u8>>)
    ensures
        r is Some <==> payload@.len() <= u32::MAX,
        r matches Some(f) ==> f@ == frame(payload@),
{
    if payload.len() > u32::MAX as usize {
        return None;
    }
    let n = payload.len() as u32;
    let mut out: Vec<u8> = Vec::new();
    out.push((n / 0x100_0000) as u8);
    out.push(((n / 0x1_0000) % 0x100) as u8);
    out.push(((n / 0x100) % 0x100) as u8);
    out.push((n % 0x100) as u8);
    assert(out@ =~= be_bytes(n));
    let mut i: usize = 0;
    while i < payload.len()
        invariant
            i <= payload@.len(),
            n == payload@.len(),
            out@ == be_bytes(n) + payload@.subrange(0, i as int),
        decreases payload@.len() - i,
    {
        out.push(payload[i]);
        assert(out@ =~= be_bytes(n) + payload@.subrange(0, i + 1));
        i = i + 1;
    }
    assert(payload@.subrange(0, payload@.len() as int) =~= payload@);
    Some(out)
}

/// The payload length that a frame header announces.
pub fn frame_length(header: &[u8]) -> (r: u32)
    requires
        header@.len() >= HEADER_LEN,
    ensures
        r == be_value(header@),
{
    let b0 = header[0] as u32;
    let b1 = header[1] as u32;
    let b2 = header[2] as u32;
    let b3 = header[3] as u32;
    b0 * 0x100_0000 + b1 * 0x1_0000 + b2 * 0x100 + b3
}

/// Splits the first complete frame off `buf`: its payload and the number of
/// bytes it takes. `None` while `buf` does not yet hold a complete frame.
pub fn decode_frame(buf: &Vec<u8>) -> (r: Option<(Vec<u8>, usize)>)
    ensures
        r is Some <==> buf@.len() >= HEADER_LEN && HEADER_LEN + be_value(buf@) <= buf@.len(),
        r matches Some((p, used)) ==> used == HEADER_LEN + be_value(buf@) && p@ == buf@.subrange(
            HEADER_LEN as int,
            used as int,
        ),
{
    if buf.len() < HEADER_LEN {
        return None;
    }
    let n = frame_length(buf.as_slice()) as usize;
    if n > buf.len() - HEADER_LEN {
        return None;
    }
    let used = HEADER_LEN + n;
    let mut p: Vec<u8> = Vec::new();
    let mut i: usize = HEADER_LEN;
    while i < used
        invariant
            HEADER_LEN <= i <= used,
            used <= buf@.len(),
            p@ == buf@.subrange(HEADER_LEN as int, i as int),
        decreases used - i,
    {
        p.push(buf[i]);
        assert(p@ =~= buf@.subrange(HEADER_LEN as int, i + 1));
        i = i + 1;
    }
    Some((p, used))
}

/// Reading a frame gives back the payload it was made from, and the whole frame is used.
pub proof fn lemma_frame_round_trip(payload: Seq<u8>)
    requires
        payload.len() <= u32::MAX,
    ensures
        frame(payload).len() == HEADER_LEN + payload.len(),
        be_value(frame(payload)) == payload.len(),
        frame(payload).subrange(HEADER_LEN as int, frame(payload).len() as int) == payload,
{
    let n = payload.len() as u32;
    let f = frame(payload);
    assert(f[0] == (n / 0x100_0000) as u8);
    assert(f[1] == ((n / 0x1_0000) % 0x100) as u8);
    assert(f[2] == ((n / 0x100) % 0x100) as u8);
    assert(f[3] == (n % 0x100) as u8);
    assert(be_value(f) == n) by (nonlinear_arith)
        requires
            f[0] == (n / 0x100_0000) as u8,
            f[1] == ((n / 0x1_0000) % 0x100) as u8,
            f[2] == ((n / 0x100) % 0x100) as u8,
            f[3] == (n % 0x100) as u8,
            be_value(f) == f[0] * 0x100_0000 + f[1] * 0x1_0000 + f[2] * 0x100 + f[3],
    {
    }
    assert(f.subrange(HEADER_LEN as int, f.len() as int) =~= payload);
}

} // verus!
