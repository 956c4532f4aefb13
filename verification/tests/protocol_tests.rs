use orcar::helper::get_current_nanos;
use orcar::protocol::{Message, MessageBuf, MessageState, MESSAGE_SIZE};

fn sample() -> Message {
    Message {
        state: MessageState::ServerEnd,
        originate_timestamp: 1,
        finish_timestamp: 0x0102,
        receive_timestamp: u128::MAX,
        ack_timestamp: 1u128 << 120,
    }
}

#[test]
fn state_codes_are_the_wire_values() {
    assert_eq!(MessageState::Created.code(), 0);
    assert_eq!(MessageState::ClientStart.code(), 114);
    assert_eq!(MessageState::ClientEnd.code(), 514);
    assert_eq!(MessageState::ServerStart.code(), 1919);
    assert_eq!(MessageState::ServerEnd.code(), 810);
}

#[test]
fn state_codes_decode_back() {
    for s in [
        MessageState::Created,
        MessageState::ClientStart,
        MessageState::ClientEnd,
        MessageState::ServerStart,
        MessageState::ServerEnd,
    ] {
        assert_eq!(MessageState::from_code(s.code()), Some(s));
    }
    assert_eq!(MessageState::from_code(1), None);
    assert_eq!(MessageState::from_code(u64::MAX), None);
}

#[test]
fn message_size_is_seventy_two() {
    assert_eq!(MESSAGE_SIZE, 72);
}

#[test]
fn new_buffer_holds_a_created_message_with_zero_times() {
    let mb = MessageBuf::new();
    assert_eq!(mb.buf, [0u8; 72]);
    assert_eq!(
        mb.as_message(),
        Some(Message {
            state: MessageState::Created,
            originate_timestamp: 0,
            finish_timestamp: 0,
            receive_timestamp: 0,
            ack_timestamp: 0,
        })
    );
    assert_eq!(mb.get_state(), MessageState::Created);
}

#[test]
fn from_message_lays_out_fields_little_endian() {
    let mb = MessageBuf::from_message(&sample());
    let mut expected = [0u8; 72];
    // phase code 810 = 0x032a
    expected[0] = 0x2a;
    expected[1] = 0x03;
    // originate at 8
    expected[8] = 1;
    // finish at 24
    expected[24] = 0x02;
    expected[25] = 0x01;
    // receive at 40, all ones
    for b in expected[40..56].iter_mut() {
        *b = 0xff;
    }
    // ack at 56, top byte set
    expected[71] = 1;
    assert_eq!(mb.buf, expected);
}

#[test]
fn from_message_then_as_message_gives_the_message_back() {
    let m = sample();
    assert_eq!(MessageBuf::from_message(&m).as_message(), Some(m));
    let m2 = Message {
        state: MessageState::ClientStart,
        originate_timestamp: 123456789,
        finish_timestamp: 0,
        receive_timestamp: 42,
        ack_timestamp: u128::MAX - 7,
    };
    let mb = MessageBuf::from_message(&m2);
    assert_eq!(mb.as_message(), Some(m2));
    assert_eq!(mb.get_state(), MessageState::ClientStart);
}

#[test]
fn from_buf_copies_and_encodes_back() {
    let bytes = MessageBuf::from_message(&sample()).buf;
    let mb = MessageBuf::from_buf(&bytes);
    assert_eq!(mb.buf, bytes);
    let m = mb.as_message().unwrap();
    assert_eq!(MessageBuf::from_message(&m).buf, bytes);
}

#[test]
fn unknown_phase_code_holds_no_message() {
    let mut bytes = [0u8; 72];
    bytes[0] = 7;
    let mb = MessageBuf::from_buf(&bytes);
    assert_eq!(mb.as_message(), None);
    assert_eq!(mb.read_code(), 7);
}

#[test]
fn as_bytes_mut_writes_through() {
    let mut mb = MessageBuf::new();
    {
        let bytes = mb.as_bytes_mut();
        bytes[0] = 0x72; // 114
        bytes[9] = 5;
    }
    let m = mb.as_message().unwrap();
    assert_eq!(m.state, MessageState::ClientStart);
    assert_eq!(m.originate_timestamp, 5 << 8);
}

#[test]
fn set_state_at_stamps_the_field_of_each_phase() {
    let base = sample();
    let cases = [
        (MessageState::ClientStart, 0usize),
        (MessageState::ClientEnd, 2),
        (MessageState::ServerStart, 3),
        (MessageState::ServerEnd, 1),
    ];
    for (state, field) in cases {
        let mut mb = MessageBuf::from_message(&base);
        mb.set_state_at(state, 99);
        let m = mb.as_message().unwrap();
        assert_eq!(m.state, state);
        let fields = [
            m.originate_timestamp,
            m.finish_timestamp,
            m.receive_timestamp,
            m.ack_timestamp,
        ];
        let old = [
            base.originate_timestamp,
            base.finish_timestamp,
            base.receive_timestamp,
            base.ack_timestamp,
        ];
        for i in 0..4 {
            if i == field {
                assert_eq!(fields[i], 99);
            } else {
                assert_eq!(fields[i], old[i]);
            }
        }
    }
}

#[test]
fn set_state_at_created_changes_only_the_phase() {
    let mut mb = MessageBuf::from_message(&sample());
    mb.set_state_at(MessageState::Created, 99);
    assert_eq!(
        mb.as_message(),
        Some(Message {
            state: MessageState::Created,
            ..sample()
        })
    );
}

#[test]
fn set_state_repairs_a_buffer_with_an_unknown_code() {
    let mut bytes = [0xabu8; 72];
    bytes[3] = 0;
    let mut mb = MessageBuf::from_buf(&bytes);
    assert_eq!(mb.as_message(), None);
    mb.set_state_at(MessageState::ServerStart, 5);
    let m = mb.as_message().unwrap();
    assert_eq!(m.state, MessageState::ServerStart);
    assert_eq!(m.ack_timestamp, 5);
    assert_eq!(m.originate_timestamp, u128::from_le_bytes([0xab; 16]));
}

#[test]
fn set_state_stamps_the_current_time() {
    let mut mb = MessageBuf::new();
    let before = get_current_nanos();
    mb.set_state(MessageState::ClientStart);
    let after = get_current_nanos();
    let m = mb.as_message().unwrap();
    assert_eq!(mb.get_state(), MessageState::ClientStart);
    assert!(before <= m.originate_timestamp && m.originate_timestamp <= after);
    assert_eq!(m.finish_timestamp, 0);
    assert_eq!(m.receive_timestamp, 0);
    assert_eq!(m.ack_timestamp, 0);
}

#[test]
fn current_nanos_is_after_2020() {
    // 2020-01-01T00:00:00Z in nanoseconds
    assert!(get_current_nanos() > 1_577_836_800_000_000_000);
}

#[test]
fn current_nanos_is_within_the_longest_duration() {
    assert!(get_current_nanos() <= orcar::helper::MAX_DURATION_NANOS);
    assert_eq!(
        orcar::helper::MAX_DURATION_NANOS,
        u64::MAX as u128 * 1_000_000_000 + 999_999_999
    );
}

#[test]
fn field_setters_write_one_field_each() {
    let base = sample();
    let mut mb = MessageBuf::from_message(&base);
    mb.set_originate_timestamp(11);
    assert_eq!(mb.as_message(), Some(Message { originate_timestamp: 11, ..base }));
    let mut mb = MessageBuf::from_message(&base);
    mb.set_finish_timestamp(22);
    assert_eq!(mb.as_message(), Some(Message { finish_timestamp: 22, ..base }));
    let mut mb = MessageBuf::from_message(&base);
    mb.set_receive_timestamp(33);
    assert_eq!(mb.as_message(), Some(Message { receive_timestamp: 33, ..base }));
    let mut mb = MessageBuf::from_message(&base);
    mb.set_ack_timestamp(44);
    assert_eq!(mb.as_message(), Some(Message { ack_timestamp: 44, ..base }));
    assert_eq!(mb.buf[56], 44);
    assert_eq!(&mb.buf[57..72], &[0u8; 15]);
}

#[test]
fn field_setters_keep_an_unknown_code() {
    let mut bytes = [0u8; 72];
    bytes[0] = 9;
    let mut mb = MessageBuf::from_buf(&bytes);
    mb.set_receive_timestamp(5);
    assert_eq!(mb.read_code(), 9);
    assert_eq!(mb.as_message(), None);
    assert_eq!(mb.buf[40], 5);
}

#[test]
fn set_message_replaces_the_whole_buffer() {
    let mut mb = MessageBuf::from_buf(&[0xeeu8; 72]);
    mb.set_message(&sample());
    assert_eq!(mb.buf, MessageBuf::from_message(&sample()).buf);
    assert_eq!(mb.as_message(), Some(sample()));
}

#[test]
fn buffers_are_copied() {
    let mb = MessageBuf::from_message(&sample());
    let mut copy = mb;
    copy.set_ack_timestamp(0);
    assert_eq!(mb.as_message(), Some(sample()));
    assert_ne!(copy.buf, mb.buf);
    let cloned = mb.clone();
    assert_eq!(cloned.buf, mb.buf);
    assert!(format!("{:?}", mb).starts_with("MessageBuf"));
}

#[test]
fn try_get_current_nanos_reads_the_clock() {
    let before = get_current_nanos();
    let t = orcar::helper::try_get_current_nanos().expect("clock after the epoch");
    assert!(before <= t && t <= orcar::helper::MAX_DURATION_NANOS);
}

#[test]
fn try_set_state_stamps_or_reports() {
    let mut mb = MessageBuf::from_message(&sample());
    assert_eq!(mb.try_set_state(MessageState::Created), Ok(()));
    assert_eq!(mb.as_message(), Some(Message { state: MessageState::Created, ..sample() }));
    let before = get_current_nanos();
    assert_eq!(mb.try_set_state(MessageState::ServerStart), Ok(()));
    let m = mb.as_message().unwrap();
    assert_eq!(m.state, MessageState::ServerStart);
    assert!(m.ack_timestamp >= before);
    assert_eq!(m.originate_timestamp, sample().originate_timestamp);
    assert_eq!(m.finish_timestamp, sample().finish_timestamp);
    assert_eq!(m.receive_timestamp, sample().receive_timestamp);
}
