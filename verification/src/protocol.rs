use crate::helper::{get_current_nanos, try_get_current_nanos, MAX_DURATION_NANOS};
use vstd::bytes::*;
use vstd::prelude::*;
use vstd::slice::slice_subrange;

verus! {

/// The phase of a synchronisation round that a message has reached.
///
/// On the wire each phase is a 64-bit code (see [`state_code`]).
#[derive(Debug, Clone, Copy, PartialEq, Eq, Structural)]
pub enum MessageState {
    Created,
    ClientStart,
    ClientEnd,
    ServerStart,
    ServerEnd,
}

/// The wire code of each phase.
pub open spec fn state_code(s: MessageState) -> u64 {
    match s {
        MessageState::Created => 0,
        MessageState::ClientStart => 114,
        MessageState::ClientEnd => 514,
        MessageState::ServerStart => 1919,
        MessageState::ServerEnd => 810,
    }
}

/// The phase that a wire code denotes, if any.
pub open spec fn state_of_code(c: u64) -> Option<MessageState> {
    if c == 0 {
        Some(MessageState::Created)
    } else if c == 114 {
        Some(MessageState::ClientStart)
    } else if c == 514 {
        Some(MessageState::ClientEnd)
    } else if c == 1919 {
        Some(MessageState::ServerStart)
    } else if c == 810 {
        Some(MessageState::ServerEnd)
    } else {
        None
    }
}

impl MessageState {
    /// The 64-bit code of this phase.
    pub fn code(self) -> (c: u64)
        ensures
            c == state_code(self),
    {
        match self {
            MessageState::Created => 0,
            MessageState::ClientStart => 114,
            MessageState::ClientEnd => 514,
            MessageState::ServerStart => 1919,
            MessageState::ServerEnd => 810,
        }
    }

    /// The phase whose code is `c`, or `None` when `c` is no phase's code.
    pub fn from_code(c: u64) -> (s: Option<MessageState>)
        ensures
            s == state_of_code(c),
    {
        if c == 0 {
            Some(MessageState::Created)
        } else if c == 114 {
            Some(MessageState::ClientStart)
        } else if c == 514 {
            Some(MessageState::ClientEnd)
        } else if c == 1919 {
            Some(MessageState::ServerStart)
        } else if c == 810 {
            Some(MessageState::ServerEnd)
        } else {
            None
        }
    }
}

/// Decoding a phase's code gives the phase back.
pub proof fn lemma_state_code_roundtrip(s: MessageState)
    ensures
        state_of_code(state_code(s)) == Some(s),
{
}

/// A code decodes to a phase only when it is that phase's code.
pub proof fn lemma_state_code_injective(c: u64)
    ensures
        state_of_code(c) matches Some(s) ==> state_code(s) == c,
{
}


/// Size in bytes of a message on the wire.
pub const MESSAGE_SIZE: usize = 72;

/// Byte offset of the phase code (8 bytes, little-endian).
pub const STATE_OFFSET: usize = 0;

/// Byte offset of the time at which the client sent the request.
pub const ORIGINATE_OFFSET: usize = 8;

/// Byte offset of the time at which the client received the reply.
pub const FINISH_OFFSET: usize = 24;

/// Byte offset of the time at which the server received the request.
pub const RECEIVE_OFFSET: usize = 40;

/// Byte offset of the time at which the server sent the reply.
pub const ACK_OFFSET: usize = 56;

/// One synchronisation round trip: its phase and four timestamps, the
/// first two read on the client's clock, the last two on the server's.
#[derive(Debug, Clone, Copy, PartialEq, Eq, Structural)]
pub struct Message {
    pub state: MessageState,
    /// Client clock, request sent.
    pub originate_timestamp: u128,
    /// Client clock, reply received.
    pub finish_timestamp: u128,
    /// Server clock, request received.
    pub receive_timestamp: u128,
    /// Server clock, reply sent.
    pub ack_timestamp: u128,
}

/// The wire form of a message: the phase code as 8 little-endian bytes,
/// then the originate, finish, receive and ack timestamps as 16
/// little-endian bytes each, with no padding.
pub open spec fn encode_message(m: Message) -> Seq<u8> {
    spec_u64_to_le_bytes(state_code(m.state)) + spec_u128_to_le_bytes(m.originate_timestamp)
        + spec_u128_to_le_bytes(m.finish_timestamp) + spec_u128_to_le_bytes(m.receive_timestamp)
        + spec_u128_to_le_bytes(m.ack_timestamp)
}

/// The phase code held in a wire buffer.
pub open spec fn code_field(b: Seq<u8>) -> u64 {
    spec_u64_from_le_bytes(b.subrange(STATE_OFFSET as int, STATE_OFFSET + 8))
}

/// The 128-bit timestamp held at byte offset `off` of a wire buffer.
pub open spec fn time_field(b: Seq<u8>, off: int) -> u128 {
    spec_u128_from_le_bytes(b.subrange(off, off + 16))
}

/// The message whose timestamps are those held in `b` and whose phase is `s`.
pub open spec fn message_with_state(b: Seq<u8>, s: MessageState) -> Message {
    Message {
        state: s,
        originate_timestamp: time_field(b, ORIGINATE_OFFSET as int),
        finish_timestamp: time_field(b, FINISH_OFFSET as int),
        receive_timestamp: time_field(b, RECEIVE_OFFSET as int),
        ack_timestamp: time_field(b, ACK_OFFSET as int),
    }
}

/// The message a wire buffer holds; `None` when its phase code is no
/// phase's code.
pub open spec fn decode_message(b: Seq<u8>) -> Option<Message> {
    match state_of_code(code_field(b)) {
        Some(s) => Some(message_with_state(b, s)),
        None => None,
    }
}

/// `b` with the bytes from `off` on replaced by `bytes`.
pub open spec fn splice(b: Seq<u8>, off: int, bytes: Seq<u8>) -> Seq<u8> {
    b.subrange(0, off) + bytes + b.subrange(off + bytes.len(), b.len() as int)
}

/// The offset of the timestamp that entering phase `s` records, if any:
/// the client stamps `originate` when it starts and `finish` when the
/// reply arrives; the server stamps `receive` and `ack`.
pub open spec fn stamp_offset(s: MessageState) -> Option<int> {
    match s {
        MessageState::Created => None,
        MessageState::ClientStart => Some(ORIGINATE_OFFSET as int),
        MessageState::ClientEnd => Some(RECEIVE_OFFSET as int),
        MessageState::ServerStart => Some(ACK_OFFSET as int),
        MessageState::ServerEnd => Some(FINISH_OFFSET as int),
    }
}

/// The wire buffer `b` after entering phase `s` at time `now`: the phase
/// code is replaced, and so is the timestamp that the phase records.
pub open spec fn stamp_bytes(b: Seq<u8>, s: MessageState, now: u128) -> Seq<u8> {
    let coded = splice(b, STATE_OFFSET as int, spec_u64_to_le_bytes(state_code(s)));
    match stamp_offset(s) {
        Some(off) => splice(coded, off, spec_u128_to_le_bytes(now)),
        None => coded,
    }
}

/// The message `m` after entering phase `s` at time `now`.
pub open spec fn stamp_message(m: Message, s: MessageState, now: u128) -> Message {
    match s {
        MessageState::Created => Message { state: s, ..m },
        MessageState::ClientStart => Message { state: s, originate_timestamp: now, ..m },
        MessageState::ClientEnd => Message { state: s, receive_timestamp: now, ..m },
        MessageState::ServerStart => Message { state: s, ack_timestamp: now, ..m },
        MessageState::ServerEnd => Message { state: s, finish_timestamp: now, ..m },
    }
}

/// The machine's clock read earlier than the Unix epoch, so no timestamp
/// could be taken.
#[derive(Debug, Clone, Copy, PartialEq, Eq, Structural)]
pub struct ClockBeforeEpoch;

/// A wire buffer of exactly one message.
#[derive(Debug, Clone, Copy)]
pub struct MessageBuf {
    pub buf: [u8; MESSAGE_SIZE],
}

impl MessageBuf {
    /// The phase code currently held in the buffer, valid or not.
    pub open spec fn code(&self) -> u64 {
        code_field(self.buf@)
    }

    /// The message the buffer holds, if its phase code is valid.
    pub open spec fn message(&self) -> Option<Message> {
        decode_message(self.buf@)
    }

    /// A buffer of zero bytes: a `Created` message with all timestamps 0.
    pub fn new() -> (mb: MessageBuf)
        ensures
            mb.buf@ == Seq::new(MESSAGE_SIZE as nat, |i: int| 0u8),
    {
        MessageBuf { buf: [0u8; MESSAGE_SIZE] }
    }

    /// A buffer holding a copy of `buf`.
    pub fn from_buf(buf: &[u8; MESSAGE_SIZE]) -> (mb: MessageBuf)
        ensures
            mb.buf@ == buf@,
    {
        MessageBuf { buf: *buf }
    }

    /// Mutable access to the raw bytes.
    pub fn as_bytes_mut(&mut self) -> (bytes: &mut [u8; MESSAGE_SIZE])
        ensures
            *bytes == old(self).buf,
            final(self).buf == *final(bytes),
    {
        &mut self.buf
    }

    /// The timestamp held at byte offset `off`.
    fn read_time(&self, off: usize) -> (t: u128)
        requires
            off + 16 <= MESSAGE_SIZE,
        ensures
            t == time_field(self.buf@, off as int),
    {
        let bytes = slice_subrange(self.buf.as_slice(), off, off + 16);
        u128_from_le_bytes(bytes)
    }

    /// The phase code held in the buffer.
    pub fn read_code(&self) -> (c: u64)
        ensures
            c == self.code(),
    {
        let bytes = slice_subrange(self.buf.as_slice(), STATE_OFFSET, STATE_OFFSET + 8);
        u64_from_le_bytes(bytes)
    }

    /// Overwrite the bytes from `off` on with `bytes`.
    fn write_bytes(&mut self, off: usize, bytes: &Vec<u8>)
        requires
            off + bytes@.len() <= MESSAGE_SIZE,
        ensures
            final(self).buf@ == splice(old(self).buf@, off as int, bytes@),
    {
        let n = bytes.len();
        let ghost start = self.buf@;
        for i in 0..n
            invariant
                n == bytes@.len(),
                off + n <= MESSAGE_SIZE,
                self.buf@.len() == MESSAGE_SIZE,
                start.len() == MESSAGE_SIZE,
                forall|j: int|
                    0 <= j < MESSAGE_SIZE ==> #[trigger] self.buf@[j] == if off <= j < off + i {
                        bytes@[j - off]
                    } else {
                        start[j]
                    },
        {
            self.buf[off + i] = bytes[i];
        }
        assert(self.buf@ =~= splice(start, off as int, bytes@));
    }

    /// Overwrite the timestamp at byte offset `off` with `t`.
    fn write_time(&mut self, off: usize, t: u128)
        requires
            off + 16 <= MESSAGE_SIZE,
        ensures
            final(self).buf@ == splice(old(self).buf@, off as int, spec_u128_to_le_bytes(t)),
    {
        self.write_bytes(off, &u128_to_le_bytes(t));
    }

    /// Overwrite the time at which the client sent the request with `t`, leaving every other byte as it was.
    pub fn set_originate_timestamp(&mut self, t: u128)
        ensures
            final(self).buf@ == splice(old(self).buf@, ORIGINATE_OFFSET as int, spec_u128_to_le_bytes(t)),
            final(self).code() == old(self).code(),
            old(self).message() matches Some(m) ==> final(self).message() == Some(
                Message { originate_timestamp: t, ..m },
            ),
    {
        self.write_time(ORIGINATE_OFFSET, t);
        proof {
            lemma_write_time(old(self).buf@, ORIGINATE_OFFSET as int, t);
        }
    }

    /// Overwrite the time at which the client received the reply with `t`, leaving every other byte as it was.
    pub fn set_finish_timestamp(&mut self, t: u128)
        ensures
            final(self).buf@ == splice(old(self).buf@, FINISH_OFFSET as int, spec_u128_to_le_bytes(t)),
            final(self).code() == old(self).code(),
            old(self).message() matches Some(m) ==> final(self).message() == Some(
                Message { finish_timestamp: t, ..m },
            ),
    {
        self.write_time(FINISH_OFFSET, t);
        proof {
            lemma_write_time(old(self).buf@, FINISH_OFFSET as int, t);
        }
    }

    /// Overwrite the time at which the server received the request with `t`, leaving every other byte as it was.
    pub fn set_receive_timestamp(&mut self, t: u128)
        ensures
            final(self).buf@ == splice(old(self).buf@, RECEIVE_OFFSET as int, spec_u128_to_le_bytes(t)),
            final(self).code() == old(self).code(),
            old(self).message() matches Some(m) ==> final(self).message() == Some(
                Message { receive_timestamp: t, ..m },
            ),
    {
        self.write_time(RECEIVE_OFFSET, t);
        proof {
            lemma_write_time(old(self).buf@, RECEIVE_OFFSET as int, t);
        }
    }

    /// Overwrite the time at which the server sent the reply with `t`, leaving every other byte as it was.
    pub fn set_ack_timestamp(&mut self, t: u128)
        ensures
            final(self).buf@ == splice(old(self).buf@, ACK_OFFSET as int, spec_u128_to_le_bytes(t)),
            final(self).code() == old(self).code(),
            old(self).message() matches Some(m) ==> final(self).message() == Some(
                Message { ack_timestamp: t, ..m },
            ),
    {
        self.write_time(ACK_OFFSET, t);
        proof {
            lemma_write_time(old(self).buf@, ACK_OFFSET as int, t);
        }
    }

    /// Replace the whole buffer by the wire form of `m`.
    pub fn set_message(&mut self, m: &Message)
        ensures
            final(self).buf@ == encode_message(*m),
            final(self).message() == Some(*m),
    {
        *self = MessageBuf::from_message(m);
        proof {
            lemma_decode_encode(*m);
        }
    }

    /// A buffer holding the wire form of `m`.
    pub fn from_message(m: &Message) -> (mb: MessageBuf)
        ensures
            mb.buf@ == encode_message(*m),
            mb.buf@.len() == MESSAGE_SIZE,
            mb.buf@.subrange(0, 8) == spec_u64_to_le_bytes(state_code(m.state)),
            mb.buf@.subrange(8, 24) == spec_u128_to_le_bytes(m.originate_timestamp),
            mb.buf@.subrange(24, 40) == spec_u128_to_le_bytes(m.finish_timestamp),
            mb.buf@.subrange(40, 56) == spec_u128_to_le_bytes(m.receive_timestamp),
            mb.buf@.subrange(56, 72) == spec_u128_to_le_bytes(m.ack_timestamp),
    {
        let mut mb = MessageBuf::new();
        mb.write_bytes(STATE_OFFSET, &u64_to_le_bytes(m.state.code()));
        mb.write_bytes(ORIGINATE_OFFSET, &u128_to_le_bytes(m.originate_timestamp));
        mb.write_bytes(FINISH_OFFSET, &u128_to_le_bytes(m.finish_timestamp));
        mb.write_bytes(RECEIVE_OFFSET, &u128_to_le_bytes(m.receive_timestamp));
        mb.write_bytes(ACK_OFFSET, &u128_to_le_bytes(m.ack_timestamp));
        assert(mb.buf@ =~= encode_message(*m));
        proof {
            lemma_wire_layout(*m);
        }
        mb
    }

    /// The message the buffer holds, or `None` when its phase code is no
    /// phase's code.
    pub fn as_message(&self) -> (m: Option<Message>)
        ensures
            m == self.message(),
            m is Some <==> state_of_code(self.code()) is Some,
            m matches Some(msg) ==> state_code(msg.state) == self.code(),
    {
        match MessageState::from_code(self.read_code()) {
            Some(state) => Some(
                Message {
                    state,
                    originate_timestamp: self.read_time(ORIGINATE_OFFSET),
                    finish_timestamp: self.read_time(FINISH_OFFSET),
                    receive_timestamp: self.read_time(RECEIVE_OFFSET),
                    ack_timestamp: self.read_time(ACK_OFFSET),
                },
            ),
            None => None,
        }
    }

    /// The phase of the message the buffer holds.
    pub fn get_state(&self) -> (s: MessageState)
        requires
            self.message() is Some,
        ensures
            s == self.message().unwrap().state,
    {
        MessageState::from_code(self.read_code()).unwrap()
    }

    /// Enter phase `state` now, on this machine's clock: write the phase
    /// code and, for every phase but `Created`, the current time into the
    /// timestamp that the phase records. The clock's reading is known only
    /// to be at most `MAX_DURATION_NANOS`; every other byte is fixed. A
    /// clock before the Unix epoch stamps 0; [`MessageBuf::try_set_state`]
    /// reports that case instead.
    pub fn set_state(&mut self, state: MessageState)
        ensures
            exists|now: u128|
                now <= MAX_DURATION_NANOS && final(self).buf@ == stamp_bytes(
                    old(self).buf@,
                    state,
                    now,
                ),
            final(self).message() matches Some(m) && m.state == state,
    {
        let now = get_current_nanos();
        self.set_state_at(state, now);
        proof {
            lemma_stamp(old(self).buf@, state, now);
        }
    }

    /// Enter phase `state` now, on this machine's clock, and report a clock
    /// that reads before the Unix epoch. The phase code is written first;
    /// `Created` records no time and always succeeds. For any other phase
    /// the clock is read: on a reading, it goes into the timestamp that the
    /// phase records and `Ok` comes back; on a clock before the epoch no
    /// timestamp is written and `Err` comes back, with the new phase code
    /// in place. Which outcome comes back rests on the clock.
    pub fn try_set_state(&mut self, state: MessageState) -> (r: Result<(), ClockBeforeEpoch>)
        ensures
            state == MessageState::Created ==> r is Ok,
            r is Ok ==> exists|now: u128|
                now <= MAX_DURATION_NANOS && final(self).buf@ == stamp_bytes(
                    old(self).buf@,
                    state,
                    now,
                ),
            r is Err ==> state != MessageState::Created && final(self).buf@ == splice(
                old(self).buf@,
                STATE_OFFSET as int,
                spec_u64_to_le_bytes(state_code(state)),
            ),
    {
        if state == MessageState::Created {
            self.set_state_at(state, 0);
            return Ok(());
        }
        match try_get_current_nanos() {
            Some(now) => {
                self.set_state_at(state, now);
                Ok(())
            },
            None => {
                self.write_bytes(STATE_OFFSET, &u64_to_le_bytes(state.code()));
                Err(ClockBeforeEpoch)
            },
        }
    }

    /// Enter phase `state` at time `now`: write the phase code and, for
    /// every phase but `Created`, write `now` into the timestamp that the
    /// phase records.
    pub fn set_state_at(&mut self, state: MessageState, now: u128)
        ensures
            final(self).buf@ == stamp_bytes(old(self).buf@, state, now),
    {
        self.write_bytes(STATE_OFFSET, &u64_to_le_bytes(state.code()));
        match state {
            MessageState::Created => {},
            MessageState::ClientStart => {
                self.write_bytes(ORIGINATE_OFFSET, &u128_to_le_bytes(now));
            },
            MessageState::ClientEnd => {
                self.write_bytes(RECEIVE_OFFSET, &u128_to_le_bytes(now));
            },
            MessageState::ServerStart => {
                self.write_bytes(ACK_OFFSET, &u128_to_le_bytes(now));
            },
            MessageState::ServerEnd => {
                self.write_bytes(FINISH_OFFSET, &u128_to_le_bytes(now));
            },
        }
    }
}

/// The phases' wire codes.
pub proof fn lemma_wire_codes()
    ensures
        state_code(MessageState::Created) == 0,
        state_code(MessageState::ClientStart) == 114,
        state_code(MessageState::ClientEnd) == 514,
        state_code(MessageState::ServerStart) == 1919,
        state_code(MessageState::ServerEnd) == 810,
{
}

/// The wire form of a message, field by field: bytes 0..8 are the phase's
/// code as a little-endian `u64`, then the originate, finish, receive and
/// ack timestamps as little-endian `u128`s.
pub proof fn lemma_wire_layout(m: Message)
    ensures
        encode_message(m).len() == MESSAGE_SIZE,
        encode_message(m).subrange(0, 8) == spec_u64_to_le_bytes(state_code(m.state)),
        encode_message(m).subrange(8, 24) == spec_u128_to_le_bytes(m.originate_timestamp),
        encode_message(m).subrange(24, 40) == spec_u128_to_le_bytes(m.finish_timestamp),
        encode_message(m).subrange(40, 56) == spec_u128_to_le_bytes(m.receive_timestamp),
        encode_message(m).subrange(56, 72) == spec_u128_to_le_bytes(m.ack_timestamp),
{
    lemma_auto_spec_u64_to_from_le_bytes();
    lemma_auto_spec_u128_to_from_le_bytes();
    let b = encode_message(m);
    assert(b.subrange(0, 8) =~= spec_u64_to_le_bytes(state_code(m.state)));
    assert(b.subrange(8, 24) =~= spec_u128_to_le_bytes(m.originate_timestamp));
    assert(b.subrange(24, 40) =~= spec_u128_to_le_bytes(m.finish_timestamp));
    assert(b.subrange(40, 56) =~= spec_u128_to_le_bytes(m.receive_timestamp));
    assert(b.subrange(56, 72) =~= spec_u128_to_le_bytes(m.ack_timestamp));
}

/// A buffer holds a message exactly when its first eight bytes, read as a
/// little-endian `u64`, are some phase's code; the message then has that
/// phase and the timestamps read from their slots.
pub proof fn lemma_decode_fields(b: Seq<u8>)
    ensures
        decode_message(b) is Some <==> state_of_code(code_field(b)) is Some,
        decode_message(b) matches Some(m) ==> {
            &&& state_code(m.state) == code_field(b)
            &&& m.originate_timestamp == time_field(b, ORIGINATE_OFFSET as int)
            &&& m.finish_timestamp == time_field(b, FINISH_OFFSET as int)
            &&& m.receive_timestamp == time_field(b, RECEIVE_OFFSET as int)
            &&& m.ack_timestamp == time_field(b, ACK_OFFSET as int)
        },
{
}

/// Every message's wire form is exactly one buffer long.
pub proof fn lemma_encode_len(m: Message)
    ensures
        encode_message(m).len() == MESSAGE_SIZE,
{
    lemma_auto_spec_u64_to_from_le_bytes();
    lemma_auto_spec_u128_to_from_le_bytes();
}

/// Reading back the wire form of a message gives the message.
pub proof fn lemma_decode_encode(m: Message)
    ensures
        decode_message(encode_message(m)) == Some(m),
{
    lemma_auto_spec_u64_to_from_le_bytes();
    lemma_auto_spec_u128_to_from_le_bytes();
    let b = encode_message(m);
    assert(b.subrange(0, 8) =~= spec_u64_to_le_bytes(state_code(m.state)));
    assert(b.subrange(8, 24) =~= spec_u128_to_le_bytes(m.originate_timestamp));
    assert(b.subrange(24, 40) =~= spec_u128_to_le_bytes(m.finish_timestamp));
    assert(b.subrange(40, 56) =~= spec_u128_to_le_bytes(m.receive_timestamp));
    assert(b.subrange(56, 72) =~= spec_u128_to_le_bytes(m.ack_timestamp));
}

/// A buffer that holds a message is exactly the wire form of that message.
pub proof fn lemma_encode_decode(b: Seq<u8>)
    requires
        b.len() == MESSAGE_SIZE,
        decode_message(b) is Some,
    ensures
        encode_message(decode_message(b).unwrap()) == b,
{
    lemma_auto_spec_u64_to_from_le_bytes();
    lemma_auto_spec_u128_to_from_le_bytes();
    let m = decode_message(b).unwrap();
    assert(spec_u64_to_le_bytes(state_code(m.state)) == b.subrange(0, 8));
    assert(spec_u128_to_le_bytes(m.originate_timestamp) == b.subrange(8, 24));
    assert(spec_u128_to_le_bytes(m.finish_timestamp) == b.subrange(24, 40));
    assert(spec_u128_to_le_bytes(m.receive_timestamp) == b.subrange(40, 56));
    assert(spec_u128_to_le_bytes(m.ack_timestamp) == b.subrange(56, 72));
    assert(encode_message(m) =~= b);
}

/// Writing a timestamp into one of the four timestamp slots of a buffer
/// changes that timestamp to `t` and leaves the phase code and the other
/// three timestamps as they were.
pub proof fn lemma_write_time(b: Seq<u8>, off: int, t: u128)
    requires
        b.len() == MESSAGE_SIZE,
        off == ORIGINATE_OFFSET || off == FINISH_OFFSET || off == RECEIVE_OFFSET || off
            == ACK_OFFSET,
    ensures
        ({
            let r = splice(b, off, spec_u128_to_le_bytes(t));
            &&& r.len() == MESSAGE_SIZE
            &&& code_field(r) == code_field(b)
            &&& time_field(r, off) == t
            &&& forall|o: int|
                (o == ORIGINATE_OFFSET || o == FINISH_OFFSET || o == RECEIVE_OFFSET || o
                    == ACK_OFFSET) && o != off ==> time_field(r, o) == time_field(b, o)
        }),
{
    lemma_auto_spec_u128_to_from_le_bytes();
    let r = splice(b, off, spec_u128_to_le_bytes(t));
    assert(r.subrange(0, 8) =~= b.subrange(0, 8));
    assert(r.subrange(off, off + 16) =~= spec_u128_to_le_bytes(t));
    assert(off != 8 ==> r.subrange(8, 24) =~= b.subrange(8, 24));
    assert(off != 24 ==> r.subrange(24, 40) =~= b.subrange(24, 40));
    assert(off != 40 ==> r.subrange(40, 56) =~= b.subrange(40, 56));
    assert(off != 56 ==> r.subrange(56, 72) =~= b.subrange(56, 72));
}

/// Entering a phase at time `now` leaves a buffer that holds a message in
/// that phase, with `now` in the timestamp the phase records and every
/// other timestamp as it was, whatever the buffer held before.
pub proof fn lemma_stamp(b: Seq<u8>, s: MessageState, now: u128)
    requires
        b.len() == MESSAGE_SIZE,
    ensures
        stamp_bytes(b, s, now).len() == MESSAGE_SIZE,
        decode_message(stamp_bytes(b, s, now)) == Some(
            stamp_message(message_with_state(b, s), s, now),
        ),
        decode_message(b) matches Some(m) ==> decode_message(stamp_bytes(b, s, now)) == Some(
            stamp_message(m, s, now),
        ),
{
    lemma_auto_spec_u64_to_from_le_bytes();
    lemma_auto_spec_u128_to_from_le_bytes();
    let c = spec_u64_to_le_bytes(state_code(s));
    let t = spec_u128_to_le_bytes(now);
    let coded = splice(b, 0, c);
    let r = stamp_bytes(b, s, now);
    assert(coded.subrange(0, 8) =~= c);
    assert(coded.subrange(8, 24) =~= b.subrange(8, 24));
    assert(coded.subrange(24, 40) =~= b.subrange(24, 40));
    assert(coded.subrange(40, 56) =~= b.subrange(40, 56));
    assert(coded.subrange(56, 72) =~= b.subrange(56, 72));
    match stamp_offset(s) {
        Some(off) => {
            assert(r.subrange(off, off + 16) =~= t);
            assert(r.subrange(0, 8) =~= c);
            assert(off != 8 ==> r.subrange(8, 24) =~= b.subrange(8, 24));
            assert(off != 24 ==> r.subrange(24, 40) =~= b.subrange(24, 40));
            assert(off != 40 ==> r.subrange(40, 56) =~= b.subrange(40, 56));
            assert(off != 56 ==> r.subrange(56, 72) =~= b.subrange(56, 72));
        },
        None => {},
    }
}

} // verus!
