use hdbconnect::argument::Argument;
use hdbconnect::conn_core::TransactionState;
use hdbconnect::error::{ImplError, IoError, ProtocolError};
use hdbconnect::exchange::{commit_request, execute_direct_request};
use hdbconnect::initial_request::{emit_initial_request, parse_initial_reply, ServerVersions};
use hdbconnect::message::message_size;
use hdbconnect::part::Part;
use hdbconnect::partkind::PartKind;
use hdbconnect::reply_type::ReplyType;
use hdbconnect::request_type::RequestType;
use hdbconnect::{ConnectionState, HdbError, HdbResponse, Request};
use std::cell::RefCell;

fn reply_bytes(seq: i32, reply_type: i16, parts: &[Vec<u8>]) -> Vec<u8> {
    let size: usize = 24 + parts.iter().map(|p| p.len()).sum::<usize>();
    let mut b = Vec::new();
    b.extend_from_slice(&1i64.to_le_bytes());
    b.extend_from_slice(&seq.to_le_bytes());
    b.extend_from_slice(&(size as u32).to_le_bytes());
    b.extend_from_slice(&(size as u32).to_le_bytes());
    b.extend_from_slice(&1i16.to_le_bytes());
    b.extend_from_slice(&[0; 10]);
    b.extend_from_slice(&(size as i32).to_le_bytes());
    b.extend_from_slice(&0i32.to_le_bytes());
    b.extend_from_slice(&(parts.len() as i16).to_le_bytes());
    b.extend_from_slice(&1i16.to_le_bytes());
    b.extend_from_slice(&[2, 0]);
    b.extend_from_slice(&reply_type.to_le_bytes());
    b.extend_from_slice(&[0; 8]);
    for p in parts {
        b.extend_from_slice(p);
    }
    b
}

fn committed_flag() -> Vec<u8> {
    let mut b = vec![64u8, 0, 1, 0, 0, 0, 0, 0];
    b.extend_from_slice(&3i32.to_le_bytes());
    b.extend_from_slice(&0i32.to_le_bytes());
    b.extend_from_slice(&[1, 28, 1, 0, 0, 0, 0, 0]);
    b
}

#[test]
fn the_initial_request_has_fourteen_bytes() {
    let mut w = vec![7u8];
    emit_initial_request(&mut w);
    assert_eq!(w, vec![7, 0xff, 0xff, 0xff, 0xff, 4, 0, 20, 4, 0, 1, 0, 1, 1, 1]);
    assert_eq!(
        parse_initial_reply(&[4, 20, 0, 4, 1, 0, 0, 0], 0),
        Ok((
            ServerVersions {
                product_major: 4,
                product_minor: 20,
                protocol_major: 4,
                protocol_minor: 1
            },
            8
        ))
    );
    assert_eq!(
        parse_initial_reply(&[4, 20, 0, 4, 1, 0, 0], 0),
        Err(HdbError::Protocol(ProtocolError::Truncated))
    );
}

#[test]
fn the_header_says_how_long_the_message_is() {
    let bytes = reply_bytes(3, 11, &[committed_flag()]);
    assert_eq!(message_size(&bytes[..32]), Ok(bytes.len()));
    assert_eq!(message_size(&bytes[..16]), Ok(bytes.len()));
    assert_eq!(message_size(&bytes[..15]), Err(HdbError::Protocol(ProtocolError::Truncated)));
    let mut conn = ConnectionState::new();
    let mut w = Vec::new();
    commit_request(&conn).serialize(&mut conn, None, &mut w).unwrap();
    assert_eq!(message_size(&w), Ok(w.len()));
}

#[test]
fn send_and_receive_goes_through_the_transport() {
    let mut conn = ConnectionState::new();
    let seen = RefCell::new(Vec::new());
    let request = commit_request(&conn);
    let reply = request
        .send_and_receive(&mut conn, Some(ReplyType::Commit), |bytes: Vec<u8>| {
            let seq = i32::from_le_bytes([bytes[8], bytes[9], bytes[10], bytes[11]]);
            seen.borrow_mut().push(bytes);
            Some(reply_bytes(seq, 11, &[committed_flag()]))
        })
        .unwrap();
    assert_eq!(reply.reply_type(), ReplyType::Commit);
    assert_eq!(reply.seq_number(), 0);
    assert_eq!(conn.seq_number(), 0);
    assert!(!conn.is_poisoned());
    let mut expected = Vec::new();
    request.serialize_impl(0, 0, None, &mut expected).unwrap();
    assert_eq!(seen.borrow().as_slice(), &[expected]);
    assert_eq!(reply.into_hdbresponse(&mut conn), Ok(HdbResponse::Success));
    assert_eq!(conn.transaction_state(), TransactionState::Committed);
}

#[test]
fn send_and_get_response_gives_the_outcome() {
    let mut conn = ConnectionState::new();
    let request = commit_request(&conn);
    let outcome =
        request.send_and_get_response(None, None, &mut conn, Some(ReplyType::Commit), |_| {
            Some(reply_bytes(0, 11, &[committed_flag()]))
        });
    assert_eq!(outcome, Ok(HdbResponse::Success));
    assert_eq!(conn.transaction_state(), TransactionState::Committed);
    assert_eq!(conn.call_count(), 1);
    // a reply of another type is a protocol error, and poisons the connection
    let outcome =
        request.send_and_get_response(None, None, &mut conn, Some(ReplyType::Rollback), |_| {
            Some(reply_bytes(1, 11, &[committed_flag()]))
        });
    assert_eq!(outcome, Err(HdbError::Protocol(ProtocolError::UnexpectedReplyType(11))));
    assert!(conn.is_poisoned());
}

#[test]
fn a_failed_transport_poisons_the_connection() {
    let mut conn = ConnectionState::new();
    let request = execute_direct_request(&conn, "select 1 from dummy");
    assert_eq!(
        request.send_and_receive(&mut conn, None, |_| None).map(|_| ()),
        Err(HdbError::Io(IoError::TransportFailed))
    );
    assert!(conn.is_poisoned());
    assert_eq!(conn.seq_number(), 0);
    // from now on nothing is sent any more
    let calls = RefCell::new(0);
    for _ in 0..3 {
        assert_eq!(
            request
                .send_and_receive(&mut conn, None, |_| {
                    *calls.borrow_mut() += 1;
                    Some(reply_bytes(0, 5, &[]))
                })
                .map(|_| ()),
            Err(HdbError::Io(IoError::Poisoned))
        );
    }
    assert_eq!(*calls.borrow(), 0);
    assert_eq!(conn.seq_number(), 0);
    assert_eq!(HdbError::Io(IoError::Poisoned).kind(), "i/o error");
}

#[test]
fn a_truncated_reply_poisons_and_a_server_error_does_not() {
    let mut conn = ConnectionState::new();
    let request = commit_request(&conn);
    let mut error = vec![6u8, 0, 1, 0, 0, 0, 0, 0];
    let mut payload = Vec::new();
    payload.extend_from_slice(&10i32.to_le_bytes());
    payload.extend_from_slice(&0i32.to_le_bytes());
    payload.extend_from_slice(&2i32.to_le_bytes());
    payload.push(1);
    payload.extend_from_slice(b"HY000");
    payload.extend_from_slice(b"no");
    error.extend_from_slice(&(payload.len() as i32).to_le_bytes());
    error.extend_from_slice(&0i32.to_le_bytes());
    error.extend_from_slice(&payload);
    error.extend_from_slice(&[0; 4]);
    let bytes = reply_bytes(0, 0, &[error]);
    match request.send_and_receive(&mut conn, None, |_| Some(bytes.clone())) {
        Err(HdbError::DbMessage(errors)) => {
            assert_eq!(errors[0].code, 10);
            assert_eq!(errors[0].text, "no");
        },
        other => panic!("unexpected {:?}", other),
    }
    assert!(!conn.is_poisoned());
    assert_eq!(
        request.send_and_receive(&mut conn, None, |_| Some(bytes[..40].to_vec())).map(|_| ()),
        Err(HdbError::Protocol(ProtocolError::Truncated))
    );
    assert!(conn.is_poisoned());
}

#[test]
fn a_request_that_cannot_be_sent_never_reaches_the_transport() {
    let mut conn = ConnectionState::new();
    let mut request = Request::new(&conn, RequestType::Execute, true, 0);
    request.push(Part::new(PartKind::Error, Argument::Error(vec![])));
    let called = RefCell::new(false);
    assert_eq!(
        request
            .send_and_receive(&mut conn, None, |_| {
                *called.borrow_mut() = true;
                None
            })
            .map(|_| ()),
        Err(HdbError::Impl(ImplError::NotEmittable))
    );
    assert!(!*called.borrow());
    assert!(!conn.is_poisoned());
    assert_eq!(conn.seq_number(), -1);
}

#[test]
fn a_part_of_an_unknown_kind_ends_the_use_of_the_connection() {
    // a part that can be read but says too little leaves the connection usable
    let mut conn = ConnectionState::new();
    let request = commit_request(&conn);
    let mut rows = vec![5u8, 1, 1, 0, 0, 0, 0, 0];
    rows.extend_from_slice(&8i32.to_le_bytes());
    rows.extend_from_slice(&0i32.to_le_bytes());
    rows.extend_from_slice(&[1, 7, 0, 0, 0, 0, 0, 0]);
    let bytes = reply_bytes(0, 5, &[rows]);
    assert_eq!(
        request.send_and_receive(&mut conn, None, |_| Some(bytes.clone())).map(|_| ()),
        Err(HdbError::Impl(ImplError::MissingResultSetId))
    );
    assert!(!conn.is_poisoned());
    // a part of a kind that nothing here can read does not
    let mut unknown = vec![99u8, 0, 1, 0, 0, 0, 0, 0];
    unknown.extend_from_slice(&8i32.to_le_bytes());
    unknown.extend_from_slice(&0i32.to_le_bytes());
    unknown.extend_from_slice(&[0; 8]);
    let bytes = reply_bytes(1, 11, &[unknown]);
    assert_eq!(
        request.send_and_receive(&mut conn, None, |_| Some(bytes.clone())).map(|_| ()),
        Err(HdbError::Impl(ImplError::UnknownPartKind(99)))
    );
    assert!(conn.is_poisoned());
    assert_eq!(
        request.send_and_receive(&mut conn, None, |_| Some(bytes.clone())).map(|_| ()),
        Err(HdbError::Io(IoError::Poisoned))
    );
}

#[test]
fn a_connection_runs_out_of_sequence_numbers() {
    let mut conn = ConnectionState::new();
    while conn.has_seq_number() {
        conn.next_seq_number();
    }
    assert_eq!(conn.seq_number(), i32::MAX);
    assert_eq!(conn.call_count(), 1 << 31);
    let request = commit_request(&conn);
    let mut w = vec![1u8];
    assert_eq!(
        request.serialize(&mut conn, None, &mut w),
        Err(HdbError::Impl(ImplError::SequenceNumbersExhausted))
    );
    assert_eq!(w, vec![1]);
    assert_eq!(conn.seq_number(), i32::MAX);
    let called = RefCell::new(false);
    assert_eq!(
        request
            .send_and_receive(&mut conn, None, |_| {
                *called.borrow_mut() = true;
                None
            })
            .map(|_| ()),
        Err(HdbError::Impl(ImplError::SequenceNumbersExhausted))
    );
    assert!(!*called.borrow());
    assert!(!conn.is_poisoned());
}
