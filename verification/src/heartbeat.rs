//! Liveness tracking on a runner link: periodic pings carrying a
//! big-endian sequence index, pong bookkeeping, and the rule that ten
//! consecutive unanswered pings close the link.

use vstd::prelude::*;

verus! {

/// Milliseconds between heartbeat pings.
pub const PING_INTERVAL_MILLIS: u64 = 2000;

/// Consecutive unanswered pings after which the link closes.
pub const PING_LIMIT: u8 = 10;

/// Heartbeat bookkeeping of one link endpoint: the index the next
/// matching pong must carry, and how many pings in a row have gone
/// unanswered.
#[derive(Debug, Clone, Copy, PartialEq, Eq, Structural)]
pub struct HeartbeatState {
    pub ping_idx: u64,
    pub tries: u8,
}

/// What one timer tick asks the link to do.
#[derive(Debug, Clone, Copy, PartialEq, Eq, Structural)]
pub enum TickAction {
    /// Send a ping carrying this index, big-endian.
    SendPing(u64),
    /// Too many pings went unanswered: close the link.
    Close,
}

/// How one pong was taken.
#[derive(Debug, Clone, Copy, PartialEq, Eq, Structural)]
pub enum PongEvent {
    /// The pong matched the outstanding index: the failure counter
    /// resets and the index advances.
    Acknowledged,
    /// A pong for the index just acknowledged: ignored silently.
    Stale,
    /// A pong further in the past: ignored with a warning.
    OutOfOrder,
    /// A pong for an index never sent: ignored with a warning.
    Ahead,
}

/// What one tick does: while fewer than [`PING_LIMIT`] pings are
/// outstanding unanswered, count one more and send the outstanding
/// index; once [`PING_LIMIT`] pings have gone unanswered, close.
pub open spec fn spec_on_tick(s: HeartbeatState) -> (HeartbeatState, TickAction) {
    if s.tries == PING_LIMIT {
        (s, TickAction::Close)
    } else {
        (
            HeartbeatState { ping_idx: s.ping_idx, tries: (s.tries + 1) as u8 },
            TickAction::SendPing(s.ping_idx),
        )
    }
}

/// What one pong does to the state.
pub open spec fn spec_on_pong(s: HeartbeatState, idx: u64) -> (HeartbeatState, PongEvent) {
    if idx == s.ping_idx {
        (HeartbeatState { ping_idx: (s.ping_idx + 1) as u64, tries: 0 }, PongEvent::Acknowledged)
    } else if idx < s.ping_idx {
        if idx + 1 == s.ping_idx {
            (s, PongEvent::Stale)
        } else {
            (s, PongEvent::OutOfOrder)
        }
    } else {
        (s, PongEvent::Ahead)
    }
}

impl HeartbeatState {
    /// The state of a freshly opened link.
    pub fn new() -> (r: HeartbeatState)
        ensures
            r == (HeartbeatState { ping_idx: 0u64, tries: 0u8 }),
    {
        HeartbeatState { ping_idx: 0, tries: 0 }
    }

    /// One heartbeat timer tick.
    pub fn on_tick(&mut self) -> (a: TickAction)
        requires
            old(self).tries <= PING_LIMIT,
        ensures
            (*final(self), a) == spec_on_tick(*old(self)),
    {
        if self.tries == PING_LIMIT {
            TickAction::Close
        } else {
            self.tries = self.tries + 1;
            TickAction::SendPing(self.ping_idx)
        }
    }

    /// One pong, already decoded to its index.
    pub fn on_pong(&mut self, idx: u64) -> (e: PongEvent)
        requires
            old(self).ping_idx < u64::MAX,
        ensures
            (*final(self), e) == spec_on_pong(*old(self), idx),
    {
        if idx == self.ping_idx {
            self.ping_idx = self.ping_idx + 1;
            self.tries = 0;
            PongEvent::Acknowledged
        } else if idx < self.ping_idx {
            if idx + 1 == self.ping_idx {
                PongEvent::Stale
            } else {
                PongEvent::OutOfOrder
            }
        } else {
            PongEvent::Ahead
        }
    }
}

/// 256 to the `i`.
pub open spec fn pow256(i: int) -> int
    decreases i,
{
    if i <= 0 {
        1
    } else {
        256 * pow256(i - 1)
    }
}

/// The big-endian value of a byte sequence: the first byte is the most
/// significant.
pub open spec fn be_value(b: Seq<u8>) -> int
    decreases b.len(),
{
    if b.len() == 0 {
        0
    } else {
        be_value(b.drop_last()) * 256 + b.last()
    }
}

/// The value of a byte sequence is bounded by 256 to its length.
pub proof fn lemma_be_value_bound(b: Seq<u8>)
    ensures
        0 <= be_value(b) < pow256(b.len() as int),
    decreases b.len(),
{
    if b.len() > 0 {
        lemma_be_value_bound(b.drop_last());
    }
}

/// Decodes a pong payload: the big-endian value of its first eight
/// bytes, or nothing when the payload is shorter, which the link logs
/// as malformed.
pub fn parse_pong_payload(b: &Vec<u8>) -> (r: Option<u64>)
    ensures
        r is Some <==> b@.len() >= 8,
        r matches Some(v) ==> v == be_value(b@.take(8)),
{
    if b.len() < 8 {
        return None;
    }
    let mut acc: u64 = 0;
    let mut i: usize = 0;
    while i < 8
        invariant
            i <= 8,
            b@.len() >= 8,
            acc == be_value(b@.take(i as int)),
            acc < pow256(i as int),
        decreases 8 - i,
    {
        proof {
            assert(b@.take(i as int + 1).drop_last() =~= b@.take(i as int));
            assert(b@.take(i as int + 1).last() == b@[i as int]);
            lemma_be_value_bound(b@.take(i as int + 1));
            lemma_pow256_eight();
            assert(pow256(i as int + 1) <= pow256(8)) by {
                lemma_pow256_increases(i as int + 1, 8);
            }
        }
        acc = acc * 256 + (b[i] as u64);
        i += 1;
    }
    Some(acc)
}

/// The value of 256 to the eighth, by unfolding.
pub proof fn lemma_pow256_eight()
    ensures
        pow256(8) == 0x10000000000000000,
{
    assert(pow256(0) == 1);
    assert(pow256(1) == 256);
    assert(pow256(2) == 0x10000);
    assert(pow256(3) == 0x1000000);
    assert(pow256(4) == 0x100000000);
    assert(pow256(5) == 0x10000000000);
    assert(pow256(6) == 0x1000000000000);
    assert(pow256(7) == 0x100000000000000);
    assert(pow256(8) == 0x10000000000000000);
}

/// `pow256` is positive.
pub proof fn lemma_pow256_pos(i: int)
    ensures
        pow256(i) >= 1,
    decreases i,
{
    if i > 0 {
        lemma_pow256_pos(i - 1);
    }
}

/// `pow256` grows with its exponent.
pub proof fn lemma_pow256_increases(i: int, j: int)
    requires
        0 <= i <= j,
    ensures
        pow256(i) <= pow256(j),
    decreases j - i,
{
    if i < j {
        lemma_pow256_increases(i, j - 1);
        assert(pow256(j) == 256 * pow256(j - 1));
        lemma_pow256_pos(j - 1);
    }
}

/// A run of consecutive unanswered ticks from a fresh link: the state
/// reached, and whether any tick closed the link. The miss counter
/// never passes [`PING_LIMIT`], so each tick meets `on_tick`'s bound.
pub open spec fn silent_run(n: nat) -> (HeartbeatState, bool)
    decreases n,
{
    if n == 0 {
        (HeartbeatState { ping_idx: 0u64, tries: 0u8 }, false)
    } else {
        let (s, closed) = silent_run((n - 1) as nat);
        if closed {
            (s, true)
        } else {
            let (s2, a) = spec_on_tick(s);
            (s2, a is Close)
        }
    }
}

/// Heartbeat liveness bound: on a fresh link that never answers, each
/// of the first [`PING_LIMIT`] ticks sends a ping, and the link closes
/// on the tick after the [`PING_LIMIT`]th ping has gone unanswered -
/// exactly ten missed pings, the 20-second window at the 2-second
/// cadence - and not before.
pub proof fn lemma_heartbeat_closes_at_limit(n: nat)
    ensures
        silent_run(n).1 <==> n > PING_LIMIT,
        n <= PING_LIMIT ==> silent_run(n).0.tries == n,
    decreases n,
{
    if n > 0 {
        lemma_heartbeat_closes_at_limit((n - 1) as nat);
    }
}

} // verus!
