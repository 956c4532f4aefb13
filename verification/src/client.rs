use crate::protocol::{
    decode_message, lemma_stamp, stamp_bytes, Message, MessageBuf,
    MessageState, MESSAGE_SIZE,
};
use vstd::prelude::*;

verus! {

/// Settings of a synchronising client.
pub struct ClientOptions {
    /// Time between two synchronisation requests, in milliseconds.
    pub sync_interval_milis: u32,
}

/// The length of a best-round window `[duration, start, end]`, computed
/// as the window's start minus its first entry, modulo 2^128.
pub open spec fn window_span(w: Seq<u128>) -> u128 {
    w[1].wrapping_sub(w[0])
}

/// The outbound window after a round: replaced by
/// `[old span, originate, receive]` when the round's outbound leg
/// (`receive - originate`, modulo 2^128) is shorter than the old span.
pub open spec fn next_tx_window(w: Seq<u128>, m: Message) -> Seq<u128> {
    if m.receive_timestamp.wrapping_sub(m.originate_timestamp) < window_span(w) {
        seq![window_span(w), m.originate_timestamp, m.receive_timestamp]
    } else {
        w
    }
}

/// The inbound window after a round: replaced by
/// `[old span, ack, finish]` when the round's inbound leg
/// (`finish - ack`, modulo 2^128) is shorter than the old span.
pub open spec fn next_rx_window(w: Seq<u128>, m: Message) -> Seq<u128> {
    if m.finish_timestamp.wrapping_sub(m.ack_timestamp) < window_span(w) {
        seq![window_span(w), m.ack_timestamp, m.finish_timestamp]
    } else {
        w
    }
}

/// The offset of the server's clock from the client's that a round gives,
/// with the windows `tx` and `rx` in force after it: the server's ack time
/// plus half the sum of the two spans, minus the client's finish time, all
/// modulo 2^128, read as a signed 128-bit number.
pub open spec fn synced_offset(tx: Seq<u128>, rx: Seq<u128>, m: Message) -> i128 {
    let half = window_span(tx).wrapping_add(window_span(rx)) / 2;
    (m.ack_timestamp.wrapping_add(half).wrapping_sub(m.finish_timestamp)) as i128
}

/// Read the shared offset and advance it by the clock reading `now`:
/// gives back the offset as it was, and the new offset, which is the old
/// one plus `now` taken as a signed number, modulo 2^128.
pub fn fetch_add_offset(offset: i128, now: u128) -> (r: (i128, i128))
    ensures
        r.0 == offset,
        r.1 == offset.wrapping_add(now as i128),
{
    (offset, offset.wrapping_add(now as i128))
}

/// A window of all zeros, as a client starts with.
pub open spec fn zero_window() -> Seq<u128> {
    seq![0u128, 0u128, 0u128]
}

/// The windows `(outbound, inbound)` after a client takes in what a buffer
/// holds: a `ServerEnd` message advances both; anything else, or a buffer
/// that holds no message, leaves them as they were.
pub open spec fn step_windows(w: (Seq<u128>, Seq<u128>), m: Option<Message>) -> (
    Seq<u128>,
    Seq<u128>,
) {
    match m {
        Some(m) => if m.state == MessageState::ServerEnd {
            (next_tx_window(w.0, m), next_rx_window(w.1, m))
        } else {
            w
        },
        None => w,
    }
}

/// The windows after a client takes in the buffers holding `ms`, in order.
pub open spec fn windows_after(w: (Seq<u128>, Seq<u128>), ms: Seq<Option<Message>>) -> (
    Seq<u128>,
    Seq<u128>,
)
    decreases ms.len(),
{
    if ms.len() == 0 {
        w
    } else {
        windows_after(step_windows(w, ms[0]), ms.drop_first())
    }
}

/// The decisions of a synchronising client: the best outbound and inbound
/// windows seen so far, each `[duration, start, end]`.
pub struct ClockSync {
    min_tx_time: [u128; 3],
    min_rx_time: [u128; 3],
}

impl ClockSync {
    /// The outbound window.
    pub closed spec fn tx_window(&self) -> Seq<u128> {
        self.min_tx_time@
    }

    /// The inbound window.
    pub closed spec fn rx_window(&self) -> Seq<u128> {
        self.min_rx_time@
    }

    /// Both windows are all zero, as when the client started.
    pub open spec fn is_fresh(&self) -> bool {
        self.tx_window() == zero_window() && self.rx_window() == zero_window()
    }

    /// A client that has seen no round: both windows all zero.
    pub fn new() -> (c: ClockSync)
        ensures
            c.is_fresh(),
            c.tx_window() == seq![0u128, 0u128, 0u128],
            c.rx_window() == seq![0u128, 0u128, 0u128],
    {
        let c = ClockSync { min_tx_time: [0, 0, 0], min_rx_time: [0, 0, 0] };
        assert(c.tx_window() =~= seq![0u128, 0u128, 0u128]);
        assert(c.rx_window() =~= seq![0u128, 0u128, 0u128]);
        c
    }

    /// The outbound window, `[duration, start, end]`.
    pub fn min_tx_time(&self) -> (w: [u128; 3])
        ensures
            w@ == self.tx_window(),
    {
        self.min_tx_time
    }

    /// The inbound window, `[duration, start, end]`.
    pub fn min_rx_time(&self) -> (w: [u128; 3])
        ensures
            w@ == self.rx_window(),
    {
        self.min_rx_time
    }

    fn span(w: &[u128; 3]) -> (s: u128)
        ensures
            s == window_span(w@),
    {
        w[1].wrapping_sub(w[0])
    }

    /// Take in a reply from the server. A buffer that holds no message, or
    /// one that is not in phase `ServerEnd`, is ignored: nothing changes and
    /// `None` comes back. Otherwise both windows advance and the new offset
    /// of the server's clock comes back.
    pub fn handle_message(&mut self, mb: &MessageBuf) -> (offset: Option<i128>)
        ensures
            match mb.message() {
                Some(m) if m.state == MessageState::ServerEnd => {
                    &&& final(self).tx_window() == next_tx_window(old(self).tx_window(), m)
                    &&& final(self).rx_window() == next_rx_window(old(self).rx_window(), m)
                    &&& offset == Some(
                        synced_offset(final(self).tx_window(), final(self).rx_window(), m),
                    )
                },
                _ => {
                    &&& offset is None
                    &&& *final(self) == *old(self)
                },
            },
            (final(self).tx_window(), final(self).rx_window()) == step_windows(
                (old(self).tx_window(), old(self).rx_window()),
                mb.message(),
            ),
            old(self).is_fresh() ==> final(self).is_fresh(),
            old(self).is_fresh() ==> offset == match mb.message() {
                Some(m) => if m.state == MessageState::ServerEnd {
                    Some(m.ack_timestamp.wrapping_sub(m.finish_timestamp) as i128)
                } else {
                    None
                },
                None => None,
            },
    {
        proof {
            if let Some(m) = mb.message() {
                lemma_zero_windows_kept(m);
            }
        }
        let m = match mb.as_message() {
            Some(m) => m,
            None => {
                return None;
            },
        };
        if m.state != MessageState::ServerEnd {
            return None;
        }
        let tx_time = Self::span(&self.min_tx_time);
        let rx_time = Self::span(&self.min_rx_time);
        if m.receive_timestamp.wrapping_sub(m.originate_timestamp) < tx_time {
            self.min_tx_time = [tx_time, m.originate_timestamp, m.receive_timestamp];
        }
        if m.finish_timestamp.wrapping_sub(m.ack_timestamp) < rx_time {
            self.min_rx_time = [rx_time, m.ack_timestamp, m.finish_timestamp];
        }
        assert(self.tx_window() =~= next_tx_window(old(self).tx_window(), m));
        assert(self.rx_window() =~= next_rx_window(old(self).rx_window(), m));
        let tx_time = Self::span(&self.min_tx_time);
        let rx_time = Self::span(&self.min_rx_time);
        let synced_time = m.ack_timestamp.wrapping_add(tx_time.wrapping_add(rx_time) / 2);
        Some(synced_time.wrapping_sub(m.finish_timestamp) as i128)
    }
}

/// From windows that are all zero, no round changes either window (no
/// leg is shorter than a span of zero), and the offset a round gives is
/// the server's ack time minus the client's finish time, modulo 2^128.
pub proof fn lemma_zero_windows_kept(m: Message)
    ensures
        next_tx_window(seq![0u128, 0u128, 0u128], m) == seq![0u128, 0u128, 0u128],
        next_rx_window(seq![0u128, 0u128, 0u128], m) == seq![0u128, 0u128, 0u128],
        synced_offset(seq![0u128, 0u128, 0u128], seq![0u128, 0u128, 0u128], m) == (
        m.ack_timestamp.wrapping_sub(m.finish_timestamp) as i128),
{
    let z = seq![0u128, 0u128, 0u128];
    assert(window_span(z) == 0);
}

/// A client that starts fresh stays fresh whatever buffers it takes in,
/// and in what order: no window ever changes, so every accepted reply
/// gives the offset `ack - finish` (see `lemma_zero_windows_kept`).
pub proof fn lemma_fresh_windows_stay_zero(ms: Seq<Option<Message>>)
    ensures
        windows_after((zero_window(), zero_window()), ms) == (zero_window(), zero_window()),
    decreases ms.len(),
{
    if ms.len() > 0 {
        match ms[0] {
            Some(m) => lemma_zero_windows_kept(m),
            None => {},
        }
        lemma_fresh_windows_stay_zero(ms.drop_first());
    }
}

/// A full round on one buffer: the client enters `ClientStart` at `t1`, the
/// server `ClientEnd` at `t2` and `ServerStart` at `t3`, the client
/// `ServerEnd` at `t4`. Whatever the buffer held before, it then holds a
/// `ServerEnd` message carrying the four times in their fields, and a
/// client with zero windows derives the offset `t3 - t4`, modulo 2^128.
pub proof fn lemma_round_trip(b: Seq<u8>, t1: u128, t2: u128, t3: u128, t4: u128)
    requires
        b.len() == MESSAGE_SIZE,
    ensures
        ({
            let b1 = stamp_bytes(b, MessageState::ClientStart, t1);
            let b2 = stamp_bytes(b1, MessageState::ClientEnd, t2);
            let b3 = stamp_bytes(b2, MessageState::ServerStart, t3);
            let b4 = stamp_bytes(b3, MessageState::ServerEnd, t4);
            let m = Message {
                state: MessageState::ServerEnd,
                originate_timestamp: t1,
                finish_timestamp: t4,
                receive_timestamp: t2,
                ack_timestamp: t3,
            };
            &&& decode_message(b4) == Some(m)
            &&& synced_offset(
                next_tx_window(seq![0u128, 0u128, 0u128], m),
                next_rx_window(seq![0u128, 0u128, 0u128], m),
                m,
            ) == t3.wrapping_sub(t4) as i128
        }),
{
    let b1 = stamp_bytes(b, MessageState::ClientStart, t1);
    let b2 = stamp_bytes(b1, MessageState::ClientEnd, t2);
    let b3 = stamp_bytes(b2, MessageState::ServerStart, t3);
    lemma_stamp(b, MessageState::ClientStart, t1);
    lemma_stamp(b1, MessageState::ClientEnd, t2);
    lemma_stamp(b2, MessageState::ServerStart, t3);
    lemma_stamp(b3, MessageState::ServerEnd, t4);
    let m = Message {
        state: MessageState::ServerEnd,
        originate_timestamp: t1,
        finish_timestamp: t4,
        receive_timestamp: t2,
        ack_timestamp: t3,
    };
    lemma_zero_windows_kept(m);
}

} // verus!
