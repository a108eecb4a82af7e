use hdbconnect::argument::Argument;
use hdbconnect::authentication::{absorb_connect, authenticate_request, challenge, connect_request};
use hdbconnect::conn_core::{ConnectionState, TransactionState};
use hdbconnect::error::{
    EvaluationError, HdbError, ImplError, ProtocolError, SerializationError, UsageError,
};
use hdbconnect::exchange::{
    absorb_fetch, absorb_lob, absorb_session, close_request, commit_request,
    execute_direct_request, fetch_request, read_lob_request, receive, rollback_request,
};
use hdbconnect::hdb_response::{HdbResponse, HdbReturnValue};
use hdbconnect::message::{
    parse_message_and_sequence_header, Kind, Message, Reply, Request, HOLD_CURSORS_OVER_COMMIT,
};
use hdbconnect::part::{Part, Parts};
use hdbconnect::part_attributes::PartAttributes;
use hdbconnect::partkind::PartKind;
use hdbconnect::parts::client_info::ClientInfo;
use hdbconnect::parts::execution_result::ExecutionResult;
use hdbconnect::parts::hdb_value::HdbValue;
use hdbconnect::parts::option_part::OptionPart;
use hdbconnect::parts::option_value::OptionValue;
use hdbconnect::parts::parameter_descriptor::{ParameterDescriptor, ParameterDirection};
use hdbconnect::parts::parameters::{ParameterRow, Parameters};
use hdbconnect::parts::read_lob_request::ReadLobRequest;
use hdbconnect::parts::resultset::{NextRow, ResultSet, ResultSetState};
use hdbconnect::parts::server_error::Severity;
use hdbconnect::parts::statement_context::StatementContext;
use hdbconnect::prepared_statement::PreparedStatement;
use hdbconnect::reply_type::ReplyType;
use hdbconnect::request_type::RequestType;
use hdbconnect::types::lob::{LobHandle, LobStep};

fn pad(n: usize) -> usize {
    (8 - n % 8) % 8
}

/// A part as a server would send it.
fn part(kind: i8, attributes: u8, count: i32, payload: &[u8]) -> Vec<u8> {
    let mut b = vec![kind as u8, attributes];
    if count <= 32767 {
        b.extend_from_slice(&(count as i16).to_le_bytes());
        b.extend_from_slice(&0i32.to_le_bytes());
    } else {
        b.extend_from_slice(&(-1i16).to_le_bytes());
        b.extend_from_slice(&count.to_le_bytes());
    }
    b.extend_from_slice(&(payload.len() as i32).to_le_bytes());
    b.extend_from_slice(&0i32.to_le_bytes());
    b.extend_from_slice(payload);
    b.extend(std::iter::repeat(0u8).take(pad(payload.len())));
    b
}

/// A reply as a server would send it.
fn reply(
    session_id: i64,
    seq: i32,
    segment_kind: i8,
    reply_type: i16,
    parts: &[Vec<u8>],
) -> Vec<u8> {
    let size: usize = 24 + parts.iter().map(|p| p.len()).sum::<usize>();
    let mut b = Vec::new();
    b.extend_from_slice(&session_id.to_le_bytes());
    b.extend_from_slice(&seq.to_le_bytes());
    b.extend_from_slice(&(size as u32).to_le_bytes());
    b.extend_from_slice(&(size as u32).to_le_bytes());
    b.extend_from_slice(&1i16.to_le_bytes());
    b.extend_from_slice(&[0; 10]);
    b.extend_from_slice(&(size as i32).to_le_bytes());
    b.extend_from_slice(&0i32.to_le_bytes());
    b.extend_from_slice(&(parts.len() as i16).to_le_bytes());
    b.extend_from_slice(&1i16.to_le_bytes());
    b.push(segment_kind as u8);
    b.push(0);
    b.extend_from_slice(&reply_type.to_le_bytes());
    b.extend_from_slice(&[0; 8]);
    for p in parts {
        b.extend_from_slice(p);
    }
    b
}

fn ssi_part(ssi: &[u8], micros: i32) -> Vec<u8> {
    let mut payload = vec![1u8, 33];
    payload.extend_from_slice(&(ssi.len() as i16).to_le_bytes());
    payload.extend_from_slice(ssi);
    payload.extend_from_slice(&[2, 3]);
    payload.extend_from_slice(&micros.to_le_bytes());
    part(39, 0, 2, &payload)
}

fn flags_part(flags: &[u8]) -> Vec<u8> {
    let mut payload = Vec::new();
    for f in flags {
        payload.extend_from_slice(&[*f, 28, 1]);
    }
    part(64, 0, flags.len() as i32, &payload)
}

fn metadata_part(columns: &[(u8, u8, &str)]) -> Vec<u8> {
    let mut table = Vec::new();
    let mut names = Vec::new();
    for (options, type_id, name) in columns {
        table.extend_from_slice(&[*options, *type_id]);
        table.extend_from_slice(&0i16.to_le_bytes());
        table.extend_from_slice(&0i16.to_le_bytes());
        table.extend_from_slice(&[0, 0]);
        let off = names.len() as u32;
        for o in [off, 0xffff_ffff, 0xffff_ffff, off] {
            table.extend_from_slice(&o.to_le_bytes());
        }
        names.push(name.len() as u8);
        names.extend_from_slice(name.as_bytes());
    }
    table.extend_from_slice(&names);
    part(48, 0, columns.len() as i32, &table)
}

fn id_part(kind: i8, id: u64) -> Vec<u8> {
    part(kind, 0, 1, &id.to_le_bytes())
}

fn error_part(code: i32, position: i32, severity: i8, sqlstate: &[u8; 5], text: &str) -> Vec<u8> {
    let mut payload = Vec::new();
    payload.extend_from_slice(&code.to_le_bytes());
    payload.extend_from_slice(&position.to_le_bytes());
    payload.extend_from_slice(&(text.len() as i32).to_le_bytes());
    payload.push(severity as u8);
    payload.extend_from_slice(sqlstate);
    payload.extend_from_slice(text.as_bytes());
    part(6, 0, 1, &payload)
}

fn int_rows_part(attributes: u8, values: &[i32]) -> Vec<u8> {
    let mut payload = Vec::new();
    for v in values {
        payload.push(1);
        payload.extend_from_slice(&v.to_le_bytes());
    }
    part(5, attributes, values.len() as i32, &payload)
}

fn parameter_metadata_part(types: &[(u8, u8, u8)]) -> Vec<u8> {
    let mut payload = Vec::new();
    for (options, type_id, mode) in types {
        payload.extend_from_slice(&[*options, *type_id, *mode, 0]);
        payload.extend_from_slice(&(-1i16).to_le_bytes());
        payload.extend_from_slice(&0i16.to_le_bytes());
        payload.extend_from_slice(&0i16.to_le_bytes());
        payload.extend_from_slice(&[0, 0]);
    }
    part(47, 0, types.len() as i32, &payload)
}

fn sent(
    request: &Request,
    conn: &mut ConnectionState,
    md: Option<&[ParameterDescriptor]>,
) -> Vec<u8> {
    let mut w = Vec::new();
    request.serialize(conn, md, &mut w).unwrap();
    w
}

fn seq_of(bytes: &[u8]) -> i32 {
    i32::from_le_bytes([bytes[8], bytes[9], bytes[10], bytes[11]])
}

fn not_single() -> HdbError {
    HdbError::Evaluation(EvaluationError::NotSingle)
}

fn wrong_kind() -> HdbError {
    HdbError::Evaluation(EvaluationError::WrongKind)
}

fn find(haystack: &[u8], needle: &[u8]) -> bool {
    haystack.windows(needle.len()).any(|w| w == needle)
}

#[test]
fn a_statement_id_part_is_header_and_eight_bytes() {
    let p = Part::new(PartKind::StatementId, Argument::StatementId(0x0102030405060708));
    assert_eq!(p.size(true, None).unwrap(), 24);
    assert_eq!(p.size(false, None).unwrap(), 24);
    assert_eq!(p.ready(None).unwrap(), 24);
    let mut w = vec![0xaau8];
    let left = p.emit(100, None, &mut w).unwrap();
    assert_eq!(left, 76);
    assert_eq!(
        w,
        vec![
            0xaa, 10, 0, 1, 0, 0, 0, 0, 0, 8, 0, 0, 0, 100, 0, 0, 0, 8, 7, 6, 5, 4, 3, 2, 1
        ]
    );
    assert_eq!(*p.kind(), PartKind::StatementId);
    assert_eq!(p.arg(), &Argument::StatementId(0x0102030405060708));
}

#[test]
fn a_command_part_is_padded_to_eight_bytes() {
    let p = Part::new(PartKind::Command, Argument::Command("select 1".to_string() + "!"));
    assert_eq!(p.size(false, None).unwrap(), 16 + 9);
    assert_eq!(p.size(true, None).unwrap(), 16 + 16);
    let mut w = Vec::new();
    let left = p.emit(32, None, &mut w).unwrap();
    assert_eq!(left, 0);
    assert_eq!(w.len(), 32);
    assert_eq!(&w[0..4], &[3, 0, 1, 0]);
    assert_eq!(&w[8..12], &9i32.to_le_bytes());
    assert_eq!(&w[16..25], b"select 1!");
    assert_eq!(&w[25..], &[0u8; 7]);
    // one byte less of budget, and nothing is written
    let mut w = vec![5u8];
    assert_eq!(p.emit(31, None, &mut w), Err(HdbError::Impl(ImplError::TooLarge)));
    assert_eq!(w, vec![5]);
}

#[test]
fn every_emittable_part_writes_its_padded_size() {
    let md = vec![ParameterDescriptor {
        options: 2,
        type_id: 29,
        direction: ParameterDirection::IN,
        length: 0,
        fraction: 0,
        name: None,
    }];
    let mut options = OptionPart::new();
    options.insert(1, OptionValue::INT(5));
    options.insert(2, OptionValue::STRING("abc".to_string()));
    let mut ctx = StatementContext::new();
    ctx.set_statement_sequence_info(vec![1, 2, 3, 4, 5]);
    let rows = vec![
        ParameterRow::new(vec![HdbValue::STRING(Some("é".to_string()))], &md).unwrap(),
        ParameterRow::new(vec![HdbValue::STRING(None)], &md).unwrap(),
    ];
    let parts = vec![
        Part::new(
            PartKind::Command,
            Argument::Command("select 'ä\u{10401}' from dummy".to_string()),
        ),
        Part::new(PartKind::Command, Argument::Command(String::new())),
        Part::new(PartKind::ClientInfo, Argument::ClientInfo(ClientInfo::default())),
        Part::new(PartKind::ConnectOptions, Argument::ConnectOptions(options)),
        Part::new(PartKind::Authentication, Argument::Auth(OptionPart::new())),
        Part::new(PartKind::StatementContext, Argument::StatementContext(ctx)),
        Part::new(PartKind::FetchSize, Argument::FetchSize(1024)),
        Part::new(PartKind::ResultSetId, Argument::ResultSetId(7)),
        Part::new(PartKind::StatementId, Argument::StatementId(7)),
        Part::new(
            PartKind::ReadLobRequest,
            Argument::ReadLobRequest(ReadLobRequest::new(1, 2, 3)),
        ),
        Part::new(PartKind::Parameters, Argument::Parameters(Parameters::new(rows))),
    ];
    for p in &parts {
        let with = p.size(true, Some(&md)).unwrap();
        let without = p.size(false, Some(&md)).unwrap();
        assert_eq!(with % 8, 0);
        assert!(with >= without && with - without < 8);
        assert_eq!(p.arg().size(true, Some(&md)).unwrap() + 16, with);
        let mut w = vec![1u8, 2, 3];
        let left = p.emit(1000, Some(&md), &mut w).unwrap();
        assert_eq!(w.len() - 3, with, "{:?}", p.kind());
        assert_eq!(left as usize, 1000 - with);
        assert_eq!(i32::from_le_bytes([w[11], w[12], w[13], w[14]]) as usize, without - 16);
        assert_eq!(i16::from_le_bytes([w[5], w[6]]) as usize, p.arg().count().unwrap());
    }
}

#[test]
fn what_only_arrives_cannot_be_sent() {
    let p = Part::new(PartKind::ExecutionResult, Argument::ExecutionResult(vec![]));
    assert_eq!(p.size(true, None), Err(HdbError::Impl(ImplError::NotEmittable)));
    assert_eq!(p.arg().count(), Err(HdbError::Impl(ImplError::NotEmittable)));
    let mut w = Vec::new();
    assert_eq!(p.emit(100, None, &mut w), Err(HdbError::Impl(ImplError::NotEmittable)));
    assert!(w.is_empty());
    let p = Part::new(PartKind::Error, Argument::Error(vec![]));
    assert_eq!(p.ready(None), Err(HdbError::Impl(ImplError::NotEmittable)));
    let p = Part::new(PartKind::Parameters, Argument::Parameters(Parameters::new(vec![])));
    assert_eq!(p.size(true, None), Err(HdbError::Impl(ImplError::MissingMetadata)));
    assert_eq!(p.size(true, Some(&[])).unwrap(), 16);
}

#[test]
fn an_argument_count_above_32767_goes_into_the_wide_field() {
    let rows: Vec<ParameterRow> =
        (0..40000).map(|_| ParameterRow::new(vec![], &[]).unwrap()).collect();
    let p = Part::new(PartKind::Parameters, Argument::Parameters(Parameters::new(rows)));
    let mut w = Vec::new();
    p.emit(16, Some(&[]), &mut w).unwrap();
    assert_eq!(w.len(), 16);
    assert_eq!(&w[2..4], &0i16.to_le_bytes());
    assert_eq!(&w[4..8], &40000i32.to_le_bytes());
    let rows: Vec<ParameterRow> =
        (0..32767).map(|_| ParameterRow::new(vec![], &[]).unwrap()).collect();
    let p = Part::new(PartKind::Parameters, Argument::Parameters(Parameters::new(rows)));
    let mut w = Vec::new();
    p.emit(16, Some(&[]), &mut w).unwrap();
    assert_eq!(&w[2..4], &32767i16.to_le_bytes());
    assert_eq!(&w[4..8], &0i32.to_le_bytes());
    // when reading, the larger of the two fields counts
    let mut payload = Vec::new();
    for v in 0..40000i32 {
        payload.extend_from_slice(&v.to_le_bytes());
    }
    let b = part(16, 0, 40000, &payload);
    let mut parts = Parts::new();
    let (p, end) = Part::parse(&mut parts, None, None, None, &b, 0).unwrap();
    assert_eq!(end, b.len());
    match p.arg() {
        Argument::TableLocation(v) => {
            assert_eq!(v.len(), 40000);
            assert_eq!(v[39999], 39999);
        },
        other => panic!("unexpected {:?}", other),
    }
}

#[test]
fn parts_are_read_with_their_padding() {
    let b = [id_part(10, 77), id_part(13, 5), part(16, 0, 2, &[1, 0, 0, 0, 2, 0, 0, 0])].concat();
    let mut parts = Parts::new();
    let (p1, e1) = Part::parse(&mut parts, None, None, None, &b, 0).unwrap();
    assert_eq!(e1, 24);
    assert_eq!(p1, Part::new(PartKind::StatementId, Argument::StatementId(77)));
    let (p2, e2) = Part::parse(&mut parts, None, None, None, &b, e1).unwrap();
    assert_eq!(e2, 48);
    assert_eq!(p2, Part::new(PartKind::ResultSetId, Argument::ResultSetId(5)));
    let (p3, e3) = Part::parse(&mut parts, None, None, None, &b, e2).unwrap();
    assert_eq!(e3, b.len());
    assert_eq!(p3, Part::new(PartKind::TableLocation, Argument::TableLocation(vec![1, 2])));
    // the padding must be there
    let short = part(3, 0, 1, b"abc");
    assert_eq!(
        Part::parse(&mut parts, None, None, None, &short[..short.len() - 1], 0),
        Err(HdbError::Protocol(ProtocolError::Truncated))
    );
}

#[test]
fn unknown_and_unreadable_part_kinds_are_implementation_errors() {
    let mut parts = Parts::new();
    for kind in [0i8, 1, 2, 4, 99, -1] {
        assert_eq!(
            Part::parse(&mut parts, None, None, None, &part(kind, 0, 1, &[0; 8]), 0),
            Err(HdbError::Impl(ImplError::UnknownPartKind(kind)))
        );
    }
    // kinds that are only ever sent
    for kind in [3i8, 17, 29, 32, 43, 44, 45, 57, 68] {
        assert_eq!(
            Part::parse(&mut parts, None, None, None, &part(kind, 0, 1, &[0; 8]), 0),
            Err(HdbError::Impl(ImplError::UnknownPartKind(kind)))
        );
    }
    let mut negative = part(10, 0, 1, &[0; 8]);
    negative[8..12].copy_from_slice(&(-8i32).to_le_bytes());
    assert_eq!(
        Part::parse(&mut parts, None, None, None, &negative, 0),
        Err(HdbError::Protocol(ProtocolError::NegativeLength))
    );
    // output parameters cannot be read without the descriptors
    assert_eq!(
        Part::parse(&mut parts, None, None, None, &part(41, 0, 1, &[1, 1, 0, 0, 0]), 0),
        Err(HdbError::Impl(ImplError::MissingMetadata))
    );
}

#[test]
fn part_kinds_and_types_have_their_numbers() {
    assert_eq!(PartKind::Command.to_i8(), 3);
    assert_eq!(PartKind::Error.to_i8(), 6);
    assert_eq!(PartKind::StatementContext.to_i8(), 39);
    assert_eq!(PartKind::TransactionFlags.to_i8(), 64);
    assert_eq!(PartKind::from_i8(48), Ok(PartKind::ResultSetMetadata));
    assert_eq!(PartKind::from_i8(49), Err(HdbError::Impl(ImplError::UnknownPartKind(49))));
    for code in i8::MIN..=i8::MAX {
        if let Ok(k) = PartKind::from_i8(code) {
            assert_eq!(k.to_i8(), code);
        }
        if let Ok(k) = RequestType::from_i8(code) {
            assert_eq!(k.to_i8(), code);
        }
    }
    assert_eq!(RequestType::Disconnect.to_i8(), 77);
    assert_eq!(RequestType::from_i8(13), Ok(RequestType::Execute));
    assert_eq!(
        RequestType::from_i8(1),
        Err(HdbError::Protocol(ProtocolError::UnknownRequestType(1)))
    );
    assert_eq!(ReplyType::from_i16(5), Ok(ReplyType::Select));
    assert_eq!(ReplyType::Commit.to_i16(), 11);
    assert_eq!(
        ReplyType::from_i16(99),
        Err(HdbError::Protocol(ProtocolError::UnknownReplyType(99)))
    );
    assert_eq!(Kind::from_i8(1), Ok(Kind::Request));
    assert_eq!(Kind::from_i8(2), Ok(Kind::Reply));
    assert_eq!(Kind::from_i8(5), Ok(Kind::Error));
    assert_eq!(Kind::from_i8(3), Err(HdbError::Protocol(ProtocolError::UnknownSegmentKind(3))));
}

#[test]
fn a_request_is_message_header_segment_header_and_parts() {
    let mut conn = ConnectionState::new();
    conn.set_session_id(0x1122334455667788);
    conn.set_auto_commit(true);
    let mut request = Request::new(&conn, RequestType::Execute, true, HOLD_CURSORS_OVER_COMMIT);
    request.push(Part::new(PartKind::StatementId, Argument::StatementId(9)));
    assert_eq!(request.seg_size(None).unwrap(), 48);
    assert_eq!(request.varpart_size(None).unwrap(), 48);
    let w = sent(&request, &mut conn, None);
    let mut expected = Vec::new();
    expected.extend_from_slice(&0x1122334455667788i64.to_le_bytes());
    expected.extend_from_slice(&0i32.to_le_bytes());
    expected.extend_from_slice(&48u32.to_le_bytes());
    expected.extend_from_slice(&48u32.to_le_bytes());
    expected.extend_from_slice(&1i16.to_le_bytes());
    expected.extend_from_slice(&[0; 10]);
    expected.extend_from_slice(&48i32.to_le_bytes());
    expected.extend_from_slice(&0i32.to_le_bytes());
    expected.extend_from_slice(&1i16.to_le_bytes());
    expected.extend_from_slice(&1i16.to_le_bytes());
    expected.extend_from_slice(&[1, 13, 1, 8]);
    expected.extend_from_slice(&[0; 8]);
    expected.extend_from_slice(&[10, 0, 1, 0, 0, 0, 0, 0]);
    expected.extend_from_slice(&8i32.to_le_bytes());
    expected.extend_from_slice(&24u32.to_le_bytes());
    expected.extend_from_slice(&9u64.to_le_bytes());
    assert_eq!(w, expected);
    assert_eq!(request.request_type(), RequestType::Execute);
    assert_eq!(request.parts().len(), 1);
}

#[test]
fn total_bytes_written_are_varpart_size_plus_32() {
    let mut conn = ConnectionState::new();
    conn.set_ssi(Some(vec![1, 2, 3]));
    let md = vec![ParameterDescriptor {
        options: 2,
        type_id: 3,
        direction: ParameterDirection::IN,
        length: 0,
        fraction: 0,
        name: None,
    }];
    let mut requests = vec![
        Request::new_for_disconnect(),
        execute_direct_request(&conn, "select * from dummy"),
        fetch_request(&conn, 5),
        close_request(&conn, 5),
        commit_request(&conn),
        rollback_request(&conn),
        read_lob_request(&conn, ReadLobRequest::new(1, 1, 100)),
    ];
    let mut with_rows = Request::new(&conn, RequestType::Execute, false, 0);
    with_rows.push(Part::new(
        PartKind::Parameters,
        Argument::Parameters(Parameters::new(vec![
            ParameterRow::new(vec![HdbValue::INT(Some(1))], &md).unwrap(),
            ParameterRow::new(vec![HdbValue::INT(None)], &md).unwrap(),
        ])),
    ));
    requests.push(with_rows);
    for request in &requests {
        let varpart = request.varpart_size(Some(&md)).unwrap() as usize;
        let mut w = vec![0u8; 5];
        request.serialize(&mut conn, Some(&md), &mut w).unwrap();
        assert_eq!(w.len() - 5, varpart + 32);
        assert_eq!(u32::from_le_bytes([w[17], w[18], w[19], w[20]]) as usize, varpart);
        assert_eq!(varpart % 8, 0);
        let again = {
            let mut w = Vec::new();
            request.serialize_impl(7, 8, Some(&md), &mut w).unwrap();
            w
        };
        assert_eq!(again.len(), varpart + 32);
        assert_eq!(&again[0..8], &7i64.to_le_bytes());
        assert_eq!(seq_of(&again), 8);
    }
}

#[test]
fn a_request_that_cannot_be_sent_writes_nothing() {
    let mut conn = ConnectionState::new();
    let mut request = Request::new(&conn, RequestType::Execute, false, 0);
    request.push(Part::new(PartKind::StatementId, Argument::StatementId(1)));
    request.push(Part::new(PartKind::ExecutionResult, Argument::ExecutionResult(vec![])));
    let mut w = vec![1u8];
    assert_eq!(
        request.serialize(&mut conn, None, &mut w),
        Err(HdbError::Impl(ImplError::NotEmittable))
    );
    assert_eq!(w, vec![1]);
    assert_eq!(conn.seq_number(), -1);
    assert_eq!(conn.call_count(), 0);
    assert_eq!(request.seg_size(None), Err(HdbError::Impl(ImplError::NotEmittable)));
    let mut many = Request::new_for_disconnect();
    for _ in 0..32768 {
        many.push(Part::new(PartKind::StatementId, Argument::StatementId(1)));
    }
    assert_eq!(many.seg_size(None), Err(HdbError::Impl(ImplError::TooLarge)));
}

#[test]
fn sequence_numbers_on_the_wire_increase() {
    let mut conn = ConnectionState::new();
    assert_eq!(conn.seq_number(), -1);
    let mut last = conn.seq_number();
    for i in 0..50 {
        let request = if i % 2 == 0 {
            commit_request(&conn)
        } else {
            execute_direct_request(&conn, "select 1 from dummy")
        };
        let w = sent(&request, &mut conn, None);
        assert!(seq_of(&w) > last);
        assert_eq!(seq_of(&w), last + 1);
        last = seq_of(&w);
        assert_eq!(conn.seq_number(), last);
        // what a reply says of the session does not move the number
        let mut ctx = StatementContext::new();
        ctx.set_statement_sequence_info(vec![i as u8]);
        conn.evaluate_statement_context(&ctx);
        assert_eq!(conn.seq_number(), last);
    }
    assert_eq!(conn.call_count(), 50);
    assert_eq!(sent(&Request::new_for_disconnect(), &mut conn, None)[8..12], 50i32.to_le_bytes());
}

#[test]
fn the_statement_sequence_info_of_a_reply_is_echoed() {
    let mut conn = ConnectionState::new();
    let first = sent(&commit_request(&conn), &mut conn, None);
    assert_eq!(first.len(), 32 + 24);
    let bytes = reply(1, 0, 2, 11, &[ssi_part(&[0xde, 0xad, 0xbe, 0xef, 0x01], 250)]);
    let r = receive(None, None, None, Some(ReplyType::Commit), &bytes).unwrap();
    assert_eq!(r.into_hdbresponse(&mut conn), Ok(HdbResponse::Success));
    assert_eq!(conn.ssi(), &Some(vec![0xde, 0xad, 0xbe, 0xef, 0x01]));
    assert_eq!(conn.server_proc_time(), 250);
    for request in [
        commit_request(&conn),
        execute_direct_request(&conn, "select 1 from dummy"),
        fetch_request(&conn, 1),
        Request::new(&conn, RequestType::Prepare, true, 0),
    ] {
        let first_part = request.parts().get(0);
        assert_eq!(*first_part.kind(), PartKind::StatementContext);
        match first_part.arg() {
            Argument::StatementContext(ctx) => assert_eq!(
                ctx.statement_sequence_info(),
                Some(&vec![0xde, 0xad, 0xbe, 0xef, 0x01])
            ),
            other => panic!("unexpected {:?}", other),
        }
        let w = sent(&request, &mut conn, None);
        assert_eq!(&w[56..60], &[39, 0, 1, 0]);
        assert!(find(&w, &[1, 33, 5, 0, 0xde, 0xad, 0xbe, 0xef, 0x01]));
    }
    // the next reply brings another one, and that one is echoed from then on
    let bytes = reply(1, 5, 2, 11, &[ssi_part(&[7], 50)]);
    receive(None, None, None, None, &bytes).unwrap().into_hdbresponse(&mut conn).unwrap();
    assert_eq!(conn.server_proc_time(), 300);
    let w = sent(&commit_request(&conn), &mut conn, None);
    assert!(find(&w, &[1, 33, 1, 0, 7]));
    assert!(!find(&w, &[0xde, 0xad]));
    assert_eq!(Request::new_for_disconnect().parts().len(), 0);
}

#[test]
fn headers_are_read() {
    let bytes = reply(-5, 17, 2, 5, &[]);
    let (n, message, end) = parse_message_and_sequence_header(&bytes, 0).unwrap();
    assert_eq!(n, 0);
    assert_eq!(end, 56);
    match message {
        Message::Reply(r) => {
            assert_eq!(r.session_id(), -5);
            assert_eq!(r.seq_number(), 17);
            assert_eq!(r.reply_type(), ReplyType::Select);
            assert!(r.parts().is_empty());
        },
        other => panic!("unexpected {:?}", other),
    }
    // a segment of kind error is a reply too
    let bytes = reply(1, 1, 5, 0, &[]);
    assert!(matches!(
        parse_message_and_sequence_header(&bytes, 0).unwrap().1,
        Message::Reply(_)
    ));
    // what the driver sends is read as a request
    let mut conn = ConnectionState::new();
    let w = sent(&Request::new(&conn, RequestType::Commit, true, 8), &mut conn, None);
    match parse_message_and_sequence_header(&w, 0).unwrap() {
        (0, Message::Request(r), 56) => {
            assert_eq!(r, Request::new(&ConnectionState::new(), RequestType::Commit, true, 8))
        },
        other => panic!("unexpected {:?}", other),
    }
    assert_eq!(
        Reply::parse(None, None, None, &w).map(|_| ()),
        Err(HdbError::Protocol(ProtocolError::RequestFound))
    );
}

#[test]
fn broken_headers_are_protocol_errors() {
    let good = reply(1, 1, 2, 5, &[]);
    for cut in [0usize, 7, 20, 31, 32, 45, 55] {
        assert_eq!(
            Reply::parse(None, None, None, &good[..cut]).map(|_| ()),
            Err(HdbError::Protocol(ProtocolError::Truncated))
        );
    }
    for segs in [0i16, 2, -1] {
        let mut b = good.clone();
        b[20..22].copy_from_slice(&segs.to_le_bytes());
        assert_eq!(
            Reply::parse(None, None, None, &b).map(|_| ()),
            Err(HdbError::Protocol(ProtocolError::SegmentCount(segs)))
        );
    }
    let mut b = good.clone();
    b[44] = 4;
    assert_eq!(
        Reply::parse(None, None, None, &b).map(|_| ()),
        Err(HdbError::Protocol(ProtocolError::UnknownSegmentKind(4)))
    );
    let mut b = good.clone();
    b[46..48].copy_from_slice(&77i16.to_le_bytes());
    assert_eq!(
        Reply::parse(None, None, None, &b).map(|_| ()),
        Err(HdbError::Protocol(ProtocolError::UnknownReplyType(77)))
    );
    let mut b = good.clone();
    b[40..42].copy_from_slice(&1i16.to_le_bytes());
    assert_eq!(
        Reply::parse(None, None, None, &b).map(|_| ()),
        Err(HdbError::Protocol(ProtocolError::Truncated))
    );
    let mut b = good.clone();
    b[44] = 1;
    b[45] = 1;
    assert_eq!(
        Reply::parse(None, None, None, &b).map(|_| ()),
        Err(HdbError::Protocol(ProtocolError::UnknownRequestType(1)))
    );
}

#[test]
fn a_reply_of_another_type_than_expected_is_a_protocol_error() {
    let bytes = reply(1, 1, 2, 5, &[]);
    assert!(receive(None, None, None, Some(ReplyType::Select), &bytes).is_ok());
    assert!(receive(None, None, None, None, &bytes).is_ok());
    assert_eq!(
        receive(None, None, None, Some(ReplyType::Commit), &bytes).map(|_| ()),
        Err(HdbError::Protocol(ProtocolError::UnexpectedReplyType(5)))
    );
    let r = Reply::new(3, 4, ReplyType::Insert);
    assert_eq!(r.assert_expected_fc(Some(ReplyType::Insert)), Ok(()));
    assert_eq!(r.assert_expected_fc(None), Ok(()));
    assert_eq!(
        r.assert_expected_fc(Some(ReplyType::Update)),
        Err(HdbError::Protocol(ProtocolError::UnexpectedReplyType(2)))
    );
}

#[test]
fn query_gives_a_result_set_of_one_row() {
    // select 1 as N from dummy
    let mut conn = ConnectionState::new();
    let request = execute_direct_request(&conn, "select 1 as N from dummy");
    let w = sent(&request, &mut conn, None);
    assert!(find(&w, b"select 1 as N from dummy"));
    assert_eq!(w[45], 2);
    let bytes = reply(
        1,
        0,
        2,
        5,
        &[metadata_part(&[(1, 3, "N")]), id_part(13, 0), int_rows_part(0b0001_0001, &[1])],
    );
    let r = receive(None, None, None, None, &bytes).unwrap();
    assert_eq!(r.seq_number(), seq_of(&w));
    match r.into_hdbresponse(&mut conn).unwrap() {
        HdbResponse::ResultSet(mut rs) => {
            assert_eq!(rs.len(), 1);
            assert_eq!(rs.metadata().number_of_fields(), 1);
            assert_eq!(rs.metadata().field(0).unwrap().name.as_deref(), Some("N"));
            assert_eq!(rs.state(), ResultSetState::Closed);
            match rs.next_row() {
                NextRow::Row(mut row) => {
                    assert_eq!(row.len(), 1);
                    assert_eq!(row.index(0), &HdbValue::INT(Some(1)));
                    assert_eq!(row.next_value(), Some(HdbValue::INT(Some(1))));
                },
                other => panic!("unexpected {:?}", other),
            }
            assert_eq!(rs.next_row(), NextRow::Done);
        },
        other => panic!("unexpected {:?}", other),
    }
}

#[test]
fn rows_need_id_and_metadata() {
    let rows = int_rows_part(1, &[1]);
    assert_eq!(
        Reply::parse(None, None, None, &reply(1, 0, 2, 5, &[rows.clone()])).map(|_| ()),
        Err(HdbError::Impl(ImplError::MissingResultSetId))
    );
    assert_eq!(
        Reply::parse(None, None, None, &reply(1, 0, 2, 5, &[id_part(13, 1), rows.clone()]))
            .map(|_| ()),
        Err(HdbError::Impl(ImplError::MissingResultSetMetadata))
    );
    // a statement context between id and rows stays in the reply
    let bytes = reply(
        1,
        0,
        2,
        5,
        &[metadata_part(&[(1, 3, "N")]), id_part(13, 4), ssi_part(&[1], 1), rows.clone()],
    );
    let r = Reply::parse(None, None, None, &bytes).unwrap();
    assert_eq!(r.parts().len(), 2);
    assert_eq!(*r.parts().get(0).kind(), PartKind::StatementContext);
    assert_eq!(*r.parts().get(1).kind(), PartKind::ResultSet);
    let mut conn = ConnectionState::new();
    assert!(matches!(r.into_hdbresponse(&mut conn).unwrap(), HdbResponse::ResultSet(_)));
    assert_eq!(conn.ssi(), &Some(vec![1]));
}

#[test]
fn metadata_and_id_without_rows_is_a_result_set_to_be_fetched() {
    let mut conn = ConnectionState::new();
    conn.set_fetch_size(2);
    let bytes = reply(1, 0, 2, 5, &[metadata_part(&[(1, 3, "N")]), id_part(13, 321)]);
    let r = receive(None, None, None, None, &bytes).unwrap();
    let mut rs = match r.into_hdbresponse(&mut conn).unwrap() {
        HdbResponse::ResultSet(rs) => rs,
        other => panic!("unexpected {:?}", other),
    };
    assert_eq!(rs.state(), ResultSetState::OpenEmpty);
    assert_eq!(rs.attributes(), PartAttributes::new(0b100));
    let mut seen = Vec::new();
    let mut fetches = 0;
    let server_rows = [vec![1, 2], vec![3, 4], vec![5]];
    loop {
        match rs.next_row() {
            NextRow::Row(row) => seen.push(row.index(0).clone()),
            NextRow::Fetch(id) => {
                assert_eq!(id, 321);
                let request = fetch_request(&conn, id);
                let w = sent(&request, &mut conn, None);
                assert_eq!(w[45], 71);
                assert!(find(&w, &321u64.to_le_bytes()));
                assert!(find(&w, &[45, 0, 1, 0, 0, 0, 0, 0, 4, 0, 0, 0]));
                let chunk = &server_rows[fetches];
                let last = fetches + 1 == server_rows.len();
                let bytes = reply(
                    1,
                    seq_of(&w),
                    2,
                    10,
                    &[int_rows_part(if last { 1 } else { 2 }, chunk)],
                );
                let r = receive(None, None, Some(&rs), Some(ReplyType::Fetch), &bytes).unwrap();
                absorb_fetch(&mut rs, r, &mut conn).unwrap();
                fetches += 1;
            },
            NextRow::Done => break,
        }
    }
    assert_eq!(fetches, 3);
    assert_eq!(seen, (1..=5).map(|v| HdbValue::INT(Some(v))).collect::<Vec<_>>());
    assert_eq!(rs.state(), ResultSetState::Closed);
    // metadata alone does not do
    let bytes = reply(1, 0, 2, 5, &[metadata_part(&[(1, 3, "N")])]);
    assert_eq!(
        receive(None, None, None, None, &bytes).unwrap().into_hdbresponse(&mut conn),
        Err(HdbError::Evaluation(EvaluationError::MissingResultSetId))
    );
    let bytes = reply(1, 0, 2, 5, &[metadata_part(&[(1, 3, "N")]), id_part(10, 1)]);
    assert_eq!(
        receive(None, None, None, None, &bytes).unwrap().into_hdbresponse(&mut conn),
        Err(HdbError::Evaluation(EvaluationError::MissingResultSetId))
    );
}

#[test]
fn batch_insert_gives_affected_rows() {
    // prepare "insert into T(a,b) values (?,?)" on a table of an int and a varchar
    let mut conn = ConnectionState::new();
    let request = PreparedStatement::prepare_request(&conn, "insert into T(a,b) values (?,?)");
    let w = sent(&request, &mut conn, None);
    assert_eq!(w[45], 3);
    assert!(find(&w, b"insert into T(a,b) values (?,?)"));
    let bytes = reply(
        1,
        0,
        2,
        0,
        &[id_part(10, 4711), parameter_metadata_part(&[(1, 3, 1), (2, 9, 1)]), ssi_part(&[5], 0)],
    );
    let r = receive(None, None, None, None, &bytes).unwrap();
    let mut stmt = PreparedStatement::try_new(r, &mut conn).unwrap();
    assert_eq!(stmt.statement_id(), 4711);
    assert_eq!(stmt.parameter_descriptors().unwrap().len(), 2);
    assert_eq!(stmt.input_parameter_descriptors().unwrap().len(), 2);
    assert!(stmt.resultset_metadata().is_none());
    assert_eq!(conn.ssi(), &Some(vec![5]));
    assert_eq!(stmt.execute_batch(&conn), Err(HdbError::Usage(UsageError::EmptyBatch)));
    stmt.add_row_to_batch(vec![HdbValue::INT(Some(1)), HdbValue::STRING(Some("x".to_string()))])
        .unwrap();
    stmt.add_row_to_batch(vec![HdbValue::INT(Some(2)), HdbValue::STRING(Some("y".to_string()))])
        .unwrap();
    assert_eq!(
        stmt.add_row_to_batch(vec![HdbValue::INT(Some(2))]),
        Err(HdbError::Serialization(SerializationError::WrongNumberOfValues))
    );
    assert_eq!(
        stmt.add_row_to_batch(vec![HdbValue::STRING(None), HdbValue::STRING(None)]),
        Err(HdbError::Serialization(SerializationError::TypeMismatch(0)))
    );
    assert_eq!(stmt.batch_len(), 2);
    let request = stmt.execute_batch(&conn).unwrap();
    assert_eq!(stmt.batch_len(), 0);
    assert_eq!(stmt.execute_batch(&conn), Err(HdbError::Usage(UsageError::EmptyBatch)));
    assert_eq!(request.request_type(), RequestType::Execute);
    let md = stmt.parameter_descriptors().unwrap().clone();
    let w = sent(&request, &mut conn, Some(&md));
    assert_eq!(w[45], 13);
    assert!(find(&w, &4711u64.to_le_bytes()));
    assert!(find(&w, &[3, 1, 0, 0, 0, 29, 1, b'x', 3, 2, 0, 0, 0, 29, 1, b'y']));
    let mut results = Vec::new();
    results.extend_from_slice(&1i32.to_le_bytes());
    results.extend_from_slice(&1i32.to_le_bytes());
    let bytes = reply(1, seq_of(&w), 2, 2, &[part(12, 0, 2, &results), flags_part(&[4])]);
    let r = receive(
        stmt.resultset_metadata(),
        stmt.parameter_descriptors().map(|v| v.as_slice()),
        None,
        None,
        &bytes,
    )
    .unwrap();
    assert_eq!(r.into_hdbresponse(&mut conn), Ok(HdbResponse::AffectedRows(vec![1, 1])));
    assert_eq!(conn.transaction_state(), TransactionState::OpenWithWrite);
}

#[test]
fn a_statement_without_parameters_has_no_batch() {
    let mut conn = ConnectionState::new();
    let bytes = reply(1, 0, 2, 0, &[id_part(10, 8), metadata_part(&[(2, 29, "S")])]);
    let r = receive(None, None, None, None, &bytes).unwrap();
    let mut stmt = PreparedStatement::try_new(r, &mut conn).unwrap();
    assert!(stmt.parameter_descriptors().is_none());
    assert!(stmt.input_parameter_descriptors().is_none());
    assert_eq!(stmt.resultset_metadata().unwrap().number_of_fields(), 1);
    assert_eq!(stmt.execute_batch(&conn), Err(HdbError::Usage(UsageError::NoBatch)));
    assert_eq!(
        stmt.add_row_to_batch(vec![]),
        Err(HdbError::Serialization(SerializationError::NoMetadata))
    );
    // without input metadata the statement is executed without parameters, whatever is given
    for input in [vec![], vec![HdbValue::INT(Some(1))]] {
        let request = stmt.execute(&conn, input).unwrap();
        assert_eq!(request.request_type(), RequestType::Execute);
        assert_eq!(request.parts().len(), 1);
        assert_eq!(
            request.parts().get(0),
            &Part::new(PartKind::StatementId, Argument::StatementId(8))
        );
    }
    // the rows of the result arrive without metadata of their own
    let mut rows = vec![2u8, b'o', b'k'];
    rows.push(255);
    let bytes = reply(1, 1, 2, 5, &[id_part(13, 3), part(5, 1, 2, &rows)]);
    let r = receive(stmt.resultset_metadata(), None, None, None, &bytes).unwrap();
    match r.into_hdbresponse(&mut conn).unwrap() {
        HdbResponse::ResultSet(mut rs) => {
            assert_eq!(rs.resultset_id(), 3);
            assert!(matches!(rs.next_row(), NextRow::Row(_)));
            match rs.next_row() {
                NextRow::Row(row) => assert_eq!(row.index(0), &HdbValue::STRING(None)),
                other => panic!("unexpected {:?}", other),
            }
        },
        other => panic!("unexpected {:?}", other),
    }
}

#[test]
fn only_output_parameters_means_no_input_metadata() {
    let mut conn = ConnectionState::new();
    let bytes = reply(1, 0, 2, 0, &[id_part(10, 8), parameter_metadata_part(&[(2, 3, 4)])]);
    let r = receive(None, None, None, None, &bytes).unwrap();
    let mut stmt = PreparedStatement::try_new(r, &mut conn).unwrap();
    assert_eq!(stmt.parameter_descriptors().unwrap().len(), 1);
    assert!(stmt.input_parameter_descriptors().is_none());
    assert_eq!(stmt.execute_batch(&conn), Err(HdbError::Usage(UsageError::EmptyBatch)));
    let request = stmt.execute(&conn, vec![]).unwrap();
    let md = stmt.parameter_descriptors().unwrap().clone();
    let w = sent(&request, &mut conn, Some(&md));
    let mut out = vec![1u8];
    out.extend_from_slice(&77i32.to_le_bytes());
    let bytes = reply(1, seq_of(&w), 2, 8, &[part(41, 0, 1, &out), part(12, 0, 1, &[0, 0, 0, 0])]);
    let r = receive(None, Some(&md), None, None, &bytes).unwrap();
    match r.into_hdbresponse(&mut conn).unwrap() {
        HdbResponse::MultipleReturnValues(values) => {
            assert_eq!(values.len(), 2);
            match &values[0] {
                HdbReturnValue::OutputParameters(op) => {
                    assert_eq!(op.values(), &vec![HdbValue::INT(Some(77))])
                },
                other => panic!("unexpected {:?}", other),
            }
            assert_eq!(values[1], HdbReturnValue::AffectedRows(vec![0]));
        },
        other => panic!("unexpected {:?}", other),
    }
}

#[test]
fn a_prepare_without_statement_id_fails() {
    let mut conn = ConnectionState::new();
    let bytes = reply(1, 0, 2, 0, &[parameter_metadata_part(&[(2, 3, 1)])]);
    let r = receive(None, None, None, None, &bytes).unwrap();
    assert_eq!(
        PreparedStatement::try_new(r, &mut conn),
        Err(HdbError::Impl(ImplError::MissingStatementId))
    );
}

#[test]
fn commit_gives_success_and_a_committed_state() {
    let mut conn = ConnectionState::new();
    // an insert starts a write transaction
    let bytes = reply(1, 0, 2, 2, &[part(12, 0, 1, &1i32.to_le_bytes()), flags_part(&[4])]);
    let r = receive(None, None, None, None, &bytes).unwrap();
    assert_eq!(r.into_hdbresponse(&mut conn), Ok(HdbResponse::AffectedRows(vec![1])));
    assert_eq!(conn.transaction_state(), TransactionState::OpenWithWrite);
    let w = sent(&commit_request(&conn), &mut conn, None);
    assert_eq!(w[45], 67);
    let bytes = reply(1, seq_of(&w), 2, 11, &[flags_part(&[1])]);
    let r = receive(None, None, None, Some(ReplyType::Commit), &bytes).unwrap();
    assert_eq!(r.into_hdbresponse(&mut conn), Ok(HdbResponse::Success));
    assert_eq!(conn.transaction_state(), TransactionState::Committed);
    // the next request carries no trace of the write that was in progress
    let w = sent(&execute_direct_request(&conn, "select 1 from dummy"), &mut conn, None);
    assert_eq!(i16::from_le_bytes([w[40], w[41]]), 1);
    assert_eq!(w[56], 3);
    let bytes = reply(1, seq_of(&w), 2, 12, &[flags_part(&[0])]);
    receive(None, None, None, None, &bytes).unwrap().into_hdbresponse(&mut conn).unwrap();
    assert_eq!(conn.transaction_state(), TransactionState::RolledBack);
    let bytes = reply(1, 9, 2, 1, &[flags_part(&[5])]);
    assert_eq!(
        receive(None, None, None, None, &bytes).unwrap().into_hdbresponse(&mut conn),
        Ok(HdbResponse::Success)
    );
    assert_eq!(conn.transaction_state(), TransactionState::OpenWithoutWrite);
    let bytes = reply(1, 9, 2, 1, &[flags_part(&[6])]);
    assert_eq!(
        receive(None, None, None, None, &bytes).unwrap().into_hdbresponse(&mut conn),
        Err(HdbError::Evaluation(EvaluationError::SessionClosingTransaction))
    );
}

#[test]
fn dropping_a_statement_names_its_id() {
    let mut conn = ConnectionState::new();
    let bytes = reply(1, 0, 2, 0, &[id_part(10, 0xabcdef)]);
    let r = receive(None, None, None, None, &bytes).unwrap();
    let stmt = PreparedStatement::try_new(r, &mut conn).unwrap();
    let request = stmt.drop_request(&conn);
    assert_eq!(request.request_type(), RequestType::DropStatementId);
    assert_eq!(
        request.parts().get(0),
        &Part::new(PartKind::StatementId, Argument::StatementId(0xabcdef))
    );
    let w = sent(&request, &mut conn, None);
    assert_eq!(w[45], 70);
    assert_eq!(&w[72..80], &0xabcdefu64.to_le_bytes());
    // whatever comes back, the caller of the drop has nothing to handle
    let bytes = reply(1, seq_of(&w), 5, 0, &[error_part(1, 0, 1, b"HY000", "gone")]);
    assert!(receive(None, None, None, None, &bytes).is_err());
    assert!(conn.has_seq_number());
}

#[test]
fn server_errors_surface_and_the_connection_stays_usable() {
    let mut conn = ConnectionState::new();
    let w = sent(&execute_direct_request(&conn, "select * from nowhere"), &mut conn, None);
    let bytes = reply(
        1,
        seq_of(&w),
        5,
        0,
        &[ssi_part(&[3], 10), error_part(259, 14, 1, b"HY000", "invalid table name: NOWHERE")],
    );
    match receive(None, None, None, None, &bytes) {
        Err(HdbError::DbMessage(errors)) => {
            assert_eq!(errors.len(), 1);
            assert_eq!(errors[0].code, 259);
            assert_eq!(errors[0].position, 14);
            assert_eq!(errors[0].severity, Severity::Error);
            assert_eq!(errors[0].sqlstate, b"HY000".to_vec());
            assert_eq!(errors[0].text, "invalid table name: NOWHERE");
        },
        other => panic!("unexpected {:?}", other),
    }
    assert_eq!(HdbError::DbMessage(vec![]).kind(), "database error");
    // the same connection goes on with the next query
    let w2 = sent(&execute_direct_request(&conn, "select 1 as N from dummy"), &mut conn, None);
    assert_eq!(seq_of(&w2), seq_of(&w) + 1);
    let bytes = reply(
        1,
        seq_of(&w2),
        2,
        5,
        &[metadata_part(&[(1, 3, "N")]), id_part(13, 0), int_rows_part(1, &[1])],
    );
    let r = receive(None, None, None, None, &bytes).unwrap();
    assert!(matches!(r.into_hdbresponse(&mut conn), Ok(HdbResponse::ResultSet(_))));
}

#[test]
fn the_first_error_part_is_taken_out() {
    let mut r = Reply::new(1, 1, ReplyType::Select);
    r.push(Part::new(PartKind::StatementId, Argument::StatementId(1)));
    r.push(Part::new(PartKind::ResultSetId, Argument::ResultSetId(2)));
    assert_eq!(r.assert_no_error(), Ok(()));
    assert_eq!(r.parts().len(), 2);
    r.push(Part::new(PartKind::Error, Argument::Error(vec![])));
    r.push(Part::new(PartKind::ResultSetId, Argument::ResultSetId(3)));
    assert_eq!(r.assert_no_error(), Err(HdbError::DbMessage(vec![])));
    assert_eq!(r.parts().len(), 3);
    assert_eq!(r.parts().get(2), &Part::new(PartKind::ResultSetId, Argument::ResultSetId(3)));
    assert_eq!(r.assert_no_error(), Ok(()));
    r.push(Part::new(PartKind::Error, Argument::StatementId(1)));
    assert_eq!(
        r.assert_no_error(),
        Err(HdbError::Protocol(ProtocolError::InconsistentErrorPart))
    );
}

#[test]
fn the_type_of_the_reply_decides_the_outcome() {
    let mut conn = ConnectionState::new();
    let outcome = |reply_type: i16, parts: &[Vec<u8>], conn: &mut ConnectionState| {
        receive(None, None, None, None, &reply(1, 1, 2, reply_type, parts))
            .unwrap()
            .into_hdbresponse(conn)
    };
    let rows = part(12, 0, 2, &[3, 0, 0, 0, 0xfe, 0xff, 0xff, 0xff]);
    let rs = [metadata_part(&[(1, 3, "N")]), id_part(13, 1)];
    for t in [2i16, 3, 4] {
        assert_eq!(
            outcome(t, &[rows.clone()], &mut conn),
            Ok(HdbResponse::AffectedRows(vec![3, -2]))
        );
        assert_eq!(outcome(t, &[], &mut conn), Err(not_single()));
        assert_eq!(
            outcome(t, &[rows.clone(), rows.clone()], &mut conn),
            Err(HdbError::Evaluation(EvaluationError::NotSingle))
        );
        assert_eq!(outcome(t, &rs, &mut conn), Err(wrong_kind()));
    }
    for t in [5i16, 6] {
        assert!(matches!(outcome(t, &rs, &mut conn), Ok(HdbResponse::ResultSet(_))));
        assert_eq!(
            outcome(t, &[rows.clone()], &mut conn),
            Err(HdbError::Evaluation(EvaluationError::WrongKind))
        );
        assert_eq!(outcome(t, &[], &mut conn), Err(not_single()));
    }
    for t in [1i16, 11, 12] {
        assert_eq!(outcome(t, &[], &mut conn), Ok(HdbResponse::Success));
        assert_eq!(outcome(t, &[rows.clone()], &mut conn), Ok(HdbResponse::Success));
        assert_eq!(outcome(t, &rs, &mut conn), Err(wrong_kind()));
        assert_eq!(
            outcome(t, &[rows.clone(), rows.clone()], &mut conn),
            Err(HdbError::Evaluation(EvaluationError::NotSingle))
        );
    }
    for t in [8i16, 9] {
        match outcome(t, &[rows.clone(), rs[0].clone(), rs[1].clone(), rows.clone()], &mut conn) {
            Ok(HdbResponse::MultipleReturnValues(values)) => {
                assert_eq!(values.len(), 3);
                assert_eq!(values[0], HdbReturnValue::AffectedRows(vec![3, -2]));
                assert!(matches!(values[1], HdbReturnValue::ResultSet(_)));
                assert_eq!(values[2], HdbReturnValue::AffectedRows(vec![3, -2]));
            },
            other => panic!("unexpected {:?}", other),
        }
        assert_eq!(outcome(t, &[], &mut conn), Ok(HdbResponse::MultipleReturnValues(vec![])));
    }
    for t in [0i16, 7, 10, 14, 15, 16, 18, 19, 20, 22, 23, 25, 26, 27] {
        assert_eq!(
            outcome(t, &[], &mut conn),
            Err(HdbError::Evaluation(EvaluationError::UnexpectedReplyType))
        );
    }
    // parts that say nothing of the outcome are passed over
    assert_eq!(
        outcome(2, &[id_part(10, 1), rows.clone(), part(16, 0, 1, &[1, 0, 0, 0])], &mut conn),
        Ok(HdbResponse::AffectedRows(vec![3, -2]))
    );
    assert_eq!(
        ExecutionResult::parse(1, &[0xfc, 0xff, 0xff, 0xff], 0),
        Err(HdbError::Protocol(ProtocolError::InvalidExecutionResult(-4)))
    );
}

#[test]
fn the_state_of_a_fresh_connection() {
    let mut conn = ConnectionState::new();
    assert_eq!(conn.session_id(), 0);
    assert_eq!(conn.seq_number(), -1);
    assert_eq!(conn.ssi(), &None);
    assert_eq!(conn.transaction_state(), TransactionState::Initial);
    assert!(conn.is_auto_commit());
    assert_eq!(conn.server_proc_time(), 0);
    assert_eq!(conn.lob_read_length(), 1_000_000);
    assert_eq!(conn.fetch_size(), 32);
    assert_eq!(conn.call_count(), 0);
    assert!(conn.has_seq_number());
    assert_eq!(conn.next_seq_number(), 0);
    assert_eq!(conn.next_seq_number(), 1);
    assert_eq!(conn.call_count(), 2);
    conn.set_lob_read_length(0);
    assert_eq!(conn.lob_read_length(), 1);
    conn.set_lob_read_length(200_000);
    assert_eq!(conn.lob_read_length(), 200_000);
    conn.set_auto_commit(false);
    assert!(!conn.is_auto_commit());
    assert_eq!(commit_request(&conn), Request::new(&conn, RequestType::Commit, false, 0));
    assert_eq!(rollback_request(&conn).request_type(), RequestType::Rollback);
}

#[test]
fn processing_time_adds_up_and_saturates() {
    let mut conn = ConnectionState::new();
    for _ in 0..3 {
        let bytes = reply(1, 1, 2, 11, &[ssi_part(&[1], i32::MAX)]);
        receive(None, None, None, None, &bytes).unwrap().into_hdbresponse(&mut conn).unwrap();
    }
    assert_eq!(conn.server_proc_time(), 3 * i32::MAX as i64);
    let bytes = reply(1, 1, 2, 11, &[ssi_part(&[1], -5)]);
    receive(None, None, None, None, &bytes).unwrap().into_hdbresponse(&mut conn).unwrap();
    assert_eq!(conn.server_proc_time(), 3 * i32::MAX as i64 - 5);
}

/// A server that holds one large character object and hands it out in chunks.
fn chunk_reply(text: &[u8], locator: u64, request: &[u8], conn_seq: i32) -> Vec<u8> {
    // the request: locator, offset and length in characters, at the start of the payload
    let at = 32 + 24 + 16;
    let asked = u64::from_le_bytes(request[at..at + 8].try_into().unwrap());
    let offset = u64::from_le_bytes(request[at + 8..at + 16].try_into().unwrap()) as usize;
    let length = i32::from_le_bytes(request[at + 16..at + 20].try_into().unwrap()) as usize;
    assert_eq!(asked, locator);
    // every character of the text takes exactly three bytes here
    let from = (offset - 1) * 3;
    let to = std::cmp::min(from + length * 3, text.len());
    let mut payload = Vec::new();
    payload.extend_from_slice(&locator.to_le_bytes());
    payload.push(if to == text.len() { 0b110 } else { 0b010 });
    payload.extend_from_slice(&((to - from) as i32).to_le_bytes());
    payload.extend_from_slice(&[0, 0, 0]);
    payload.extend_from_slice(&text[from..to]);
    reply(1, conn_seq, 2, 16, &[part(18, 0, 1, &payload)])
}

#[test]
fn a_large_nclob_is_streamed_in_chunks() {
    // 1_200_000 characters of three bytes each, read 200_000 characters at a time
    let whole_text: String = "日本語".chars().cycle().take(1_200_000).collect();
    let text = whole_text.as_bytes().to_vec();
    assert_eq!(text.len(), 3_600_000);
    let mut conn = ConnectionState::new();
    conn.set_lob_read_length(200_000);
    // the object arrives with the row, together with its first thousand characters
    let mut value = vec![26u8, 0b010];
    value.extend_from_slice(&1_200_000u64.to_le_bytes());
    value.extend_from_slice(&3_600_000u64.to_le_bytes());
    value.extend_from_slice(&4242u64.to_le_bytes());
    value.extend_from_slice(&3000i32.to_le_bytes());
    value.extend_from_slice(&text[..3000]);
    let bytes = reply(
        1,
        0,
        2,
        5,
        &[metadata_part(&[(2, 26, "CHARDATA")]), id_part(13, 0), part(5, 1, 1, &value)],
    );
    let r = receive(None, None, None, None, &bytes).unwrap();
    let mut rs = match r.into_hdbresponse(&mut conn).unwrap() {
        HdbResponse::ResultSet(rs) => rs,
        other => panic!("unexpected {:?}", other),
    };
    let mut row = match rs.next_row() {
        NextRow::Row(row) => row,
        other => panic!("unexpected {:?}", other),
    };
    let mut lob: LobHandle = match row.next_value() {
        Some(HdbValue::NCLOB(Some(lob))) => lob,
        other => panic!("unexpected {:?}", other),
    };
    assert_eq!(lob.total_units(), 1_200_000);
    let mut streamed = Vec::new();
    let mut requests = 0;
    loop {
        match lob.poll(64 * 1024, conn.lob_read_length()) {
            LobStep::Deliver => streamed.extend(lob.take(64 * 1024)),
            LobStep::Fetch(chunk) => {
                assert!(chunk.length_to_read <= 200_000);
                let request = read_lob_request(&conn, chunk);
                let w = sent(&request, &mut conn, None);
                assert_eq!(w[45], 16);
                let bytes = chunk_reply(&text, 4242, &w, seq_of(&w));
                let r = receive(None, None, None, Some(ReplyType::ReadLob), &bytes).unwrap();
                absorb_lob(&mut lob, r, &mut conn).unwrap();
                requests += 1;
            },
            LobStep::End => break,
        }
    }
    assert!(requests >= 5, "{} requests", requests);
    assert_eq!(requests, 6);
    assert_eq!(streamed.len(), text.len());
    assert_eq!(String::from_utf8(streamed).unwrap(), whole_text);
    assert_eq!(conn.call_count(), requests);
}

#[test]
fn a_reply_that_fails_leaves_what_came_before_it() {
    // the flags before the one that fails are taken in, those behind it are not
    let mut conn = ConnectionState::new();
    let bytes = reply(1, 0, 2, 11, &[ssi_part(&[7, 7], 10), flags_part(&[1, 6, 0])]);
    assert_eq!(
        receive(None, None, None, None, &bytes).unwrap().into_hdbresponse(&mut conn),
        Err(HdbError::Evaluation(EvaluationError::SessionClosingTransaction))
    );
    assert_eq!(conn.ssi(), &Some(vec![7, 7]));
    assert_eq!(conn.server_proc_time(), 10);
    assert_eq!(conn.transaction_state(), TransactionState::Committed);
    // metadata without an id: the context before it counts, the one behind it does not
    let mut conn = ConnectionState::new();
    let bytes = reply(
        1,
        0,
        2,
        5,
        &[ssi_part(&[1], 3), metadata_part(&[(1, 3, "N")]), ssi_part(&[2], 4)],
    );
    assert_eq!(
        receive(None, None, None, None, &bytes).unwrap().into_hdbresponse(&mut conn),
        Err(HdbError::Evaluation(EvaluationError::MissingResultSetId))
    );
    assert_eq!(conn.ssi(), &Some(vec![1]));
    assert_eq!(conn.server_proc_time(), 3);
    // a reply of a type that has no outcome: all that it says of the session counts
    let mut conn = ConnectionState::new();
    let bytes = reply(1, 0, 2, 0, &[ssi_part(&[3], 5)]);
    assert_eq!(
        receive(None, None, None, None, &bytes).unwrap().into_hdbresponse(&mut conn),
        Err(HdbError::Evaluation(EvaluationError::UnexpectedReplyType))
    );
    assert_eq!(conn.ssi(), &Some(vec![3]));
    // a statement is gathered from the last part to the first
    let mut conn = ConnectionState::new();
    let bytes = reply(1, 0, 2, 0, &[ssi_part(&[1], 3), flags_part(&[6]), ssi_part(&[2], 4)]);
    let r = receive(None, None, None, None, &bytes).unwrap();
    assert_eq!(
        PreparedStatement::try_new(r, &mut conn).map(|_| ()),
        Err(HdbError::Evaluation(EvaluationError::SessionClosingTransaction))
    );
    assert_eq!(conn.ssi(), &Some(vec![2]));
    assert_eq!(conn.server_proc_time(), 4);
    // a chunk for another large object
    let mut conn = ConnectionState::new();
    let mut lob = LobHandle::new_blob(9, 10, false, vec![1, 2, 3]);
    let mut chunk = Vec::new();
    chunk.extend_from_slice(&8u64.to_le_bytes());
    chunk.push(0b110);
    chunk.extend_from_slice(&2i32.to_le_bytes());
    chunk.extend_from_slice(&[0, 0, 0, 4, 5]);
    let bytes = reply(1, 0, 2, 16, &[ssi_part(&[5], 1), part(18, 0, 1, &chunk), ssi_part(&[6], 1)]);
    let r = receive(None, None, None, None, &bytes).unwrap();
    assert_eq!(absorb_lob(&mut lob, r, &mut conn), Err(HdbError::Impl(ImplError::WrongLocator)));
    assert_eq!(lob.buffered(), 3);
    assert!(!lob.is_complete());
    assert_eq!(conn.ssi(), &Some(vec![5]));
    assert_eq!(conn.server_proc_time(), 1);
}

#[test]
fn rows_take_their_id_and_metadata_away_even_when_they_cannot_be_read() {
    let mut parts = Parts::new();
    parts.push(Part::new(PartKind::StatementId, Argument::StatementId(1)));
    parts.push(Part::new(PartKind::ResultSetId, Argument::ResultSetId(5)));
    // no metadata: the id is gone all the same
    assert_eq!(
        Part::parse(&mut parts, None, None, None, &int_rows_part(1, &[1]), 0),
        Err(HdbError::Impl(ImplError::MissingResultSetMetadata))
    );
    assert_eq!(parts.len(), 1);
    assert_eq!(parts.get(0), &Part::new(PartKind::StatementId, Argument::StatementId(1)));
    // a frame that cannot be read takes nothing away
    parts.push(Part::new(PartKind::ResultSetId, Argument::ResultSetId(5)));
    let rows = int_rows_part(1, &[1]);
    assert_eq!(
        Part::parse(&mut parts, None, None, None, &rows[..rows.len() - 1], 0),
        Err(HdbError::Protocol(ProtocolError::Truncated))
    );
    assert_eq!(parts.len(), 2);
}

fn fields_part(kind: i8, key: u8, bytes: &[u8]) -> Vec<u8> {
    let mut payload = vec![key, 33];
    payload.extend_from_slice(&(bytes.len() as i16).to_le_bytes());
    payload.extend_from_slice(bytes);
    part(kind, 0, 1, &payload)
}

#[test]
fn logging_on_takes_two_requests() {
    let mut conn = ConnectionState::new();
    let mut first = OptionPart::new();
    first.insert(1, OptionValue::BSTRING(b"SYSTEM".to_vec()));
    first.insert(2, OptionValue::BSTRING(vec![9, 9]));
    let request = authenticate_request(&conn, first);
    assert_eq!(request.request_type(), RequestType::Authenticate);
    let w = sent(&request, &mut conn, None);
    assert_eq!(w[45], 65);
    assert_eq!(w[56], 33);
    assert_eq!(i16::from_le_bytes([w[58], w[59]]), 2);
    assert!(find(&w, b"SYSTEM"));
    // the server answers with fields of its own
    let bytes = reply(0, seq_of(&w), 2, 0, &[fields_part(33, 1, &[7, 7, 7])]);
    let fields = challenge(receive(None, None, None, None, &bytes).unwrap()).unwrap();
    assert_eq!(fields.count(), 1);
    assert_eq!(fields.get_bytes(1), Some(&vec![7, 7, 7]));
    // the second step carries three parts
    let mut second = OptionPart::new();
    second.insert(1, OptionValue::BSTRING(vec![1, 2, 3]));
    let mut options = OptionPart::new();
    options.insert(2, OptionValue::INT(5));
    let request = connect_request(&conn, second, options, ClientInfo::default());
    assert_eq!(request.request_type(), RequestType::Connect);
    assert_eq!(request.parts().len(), 3);
    assert_eq!(request.parts().get(0).kind(), &PartKind::Authentication);
    assert_eq!(request.parts().get(1).kind(), &PartKind::ConnectOptions);
    assert_eq!(request.parts().get(2).kind(), &PartKind::ClientInfo);
    let w = sent(&request, &mut conn, None);
    assert_eq!(w[45], 66);
    assert_eq!(w[56], 33);
    assert!(find(&w, b"hdbconnect"));
    // the reply names the session and says what the server can do
    let mut server_options = vec![2u8, 3];
    server_options.extend_from_slice(&9i32.to_le_bytes());
    let bytes = reply(
        4711,
        seq_of(&w),
        2,
        0,
        &[part(42, 0, 1, &server_options), ssi_part(&[1], 3), flags_part(&[1])],
    );
    let r = receive(None, None, None, None, &bytes).unwrap();
    assert_eq!(conn.authenticated_user(), None);
    assert_eq!(absorb_connect("SYSTEM".to_string(), r, &mut conn), Ok(()));
    assert_eq!(conn.authenticated_user(), Some(&"SYSTEM".to_string()));
    assert_eq!(conn.session_id(), 4711);
    assert_eq!(conn.connect_options().unwrap().get_int(2), Some(9));
    assert_eq!(conn.ssi(), &Some(vec![1]));
    assert_eq!(conn.server_proc_time(), 3);
    assert_eq!(conn.transaction_state(), TransactionState::Committed);
    // from then on requests go out under the id of the session
    let w = sent(&commit_request(&conn), &mut conn, None);
    assert_eq!(i64::from_le_bytes(w[..8].try_into().unwrap()), 4711);
}

#[test]
fn a_reply_without_fields_is_no_challenge() {
    let bytes = reply(0, 0, 2, 0, &[ssi_part(&[1], 3)]);
    assert_eq!(challenge(receive(None, None, None, None, &bytes).unwrap()), None);
    let bytes = reply(0, 0, 2, 0, &[]);
    assert_eq!(challenge(receive(None, None, None, None, &bytes).unwrap()), None);
    // the fields are looked for in the last part only
    let bytes = reply(0, 0, 2, 0, &[fields_part(33, 1, &[7]), ssi_part(&[1], 3)]);
    assert_eq!(challenge(receive(None, None, None, None, &bytes).unwrap()), None);
    let bytes = reply(0, 0, 2, 0, &[ssi_part(&[1], 3), fields_part(33, 1, &[7])]);
    assert!(challenge(receive(None, None, None, None, &bytes).unwrap()).is_some());
}

#[test]
fn a_logon_without_connect_options_or_with_a_failure() {
    // no connect options: the connection holds an empty bag
    let mut conn = ConnectionState::new();
    let bytes = reply(12, 0, 2, 0, &[]);
    let r = receive(None, None, None, None, &bytes).unwrap();
    assert_eq!(absorb_connect("U".to_string(), r, &mut conn), Ok(()));
    assert_eq!(conn.session_id(), 12);
    assert_eq!(conn.connect_options(), Some(&OptionPart::new()));
    // of two bags of connect options the one that came first counts
    let mut conn = ConnectionState::new();
    let mut one = vec![2u8, 3];
    one.extend_from_slice(&1i32.to_le_bytes());
    let mut two = vec![2u8, 3];
    two.extend_from_slice(&2i32.to_le_bytes());
    let bytes = reply(12, 0, 2, 0, &[part(42, 0, 1, &one), part(42, 0, 1, &two)]);
    let r = receive(None, None, None, None, &bytes).unwrap();
    assert_eq!(absorb_connect("U".to_string(), r, &mut conn), Ok(()));
    assert_eq!(conn.connect_options().unwrap().get_int(2), Some(1));
    // a failure: nobody is logged on, and the parts are taken from the last to the first
    let mut conn = ConnectionState::new();
    let bytes = reply(12, 0, 2, 0, &[ssi_part(&[1], 3), flags_part(&[6]), ssi_part(&[2], 4)]);
    let r = receive(None, None, None, None, &bytes).unwrap();
    assert_eq!(
        absorb_connect("U".to_string(), r, &mut conn),
        Err(HdbError::Evaluation(EvaluationError::SessionClosingTransaction))
    );
    assert_eq!(conn.authenticated_user(), None);
    assert_eq!(conn.session_id(), 0);
    assert_eq!(conn.connect_options(), None);
    assert_eq!(conn.ssi(), &Some(vec![2]));
}

#[test]
fn the_last_statement_context_of_a_reply_of_many_parts_is_echoed() {
    let mut conn = ConnectionState::new();
    let bytes = reply(
        1,
        0,
        2,
        5,
        &[
            ssi_part(&[1, 1], 10),
            metadata_part(&[(1, 3, "N")]),
            id_part(13, 77),
            flags_part(&[4]),
            ssi_part(&[2, 2, 2], 5),
            flags_part(&[1]),
        ],
    );
    let r = receive(None, None, None, None, &bytes).unwrap();
    assert!(matches!(r.into_hdbresponse(&mut conn), Ok(HdbResponse::ResultSet(_))));
    assert_eq!(conn.ssi(), &Some(vec![2, 2, 2]));
    assert_eq!(conn.server_proc_time(), 15);
    let request = execute_direct_request(&conn, "select 1 from dummy");
    match request.parts().get(0).arg() {
        Argument::StatementContext(ctx) => {
            assert_eq!(ctx.statement_sequence_info(), Some(&vec![2, 2, 2]))
        },
        other => panic!("unexpected {:?}", other),
    }
    let w = sent(&request, &mut conn, None);
    assert!(find(&w, &[1, 33, 3, 0, 2, 2, 2]));
    // a reply whose outcome is not asked for is taken in the same way
    let bytes = reply(1, 1, 2, 0, &[ssi_part(&[9], 1), flags_part(&[0])]);
    let r = receive(None, None, None, None, &bytes).unwrap();
    assert_eq!(absorb_session(r, &mut conn), Ok(()));
    assert_eq!(conn.ssi(), &Some(vec![9]));
    assert_eq!(conn.server_proc_time(), 16);
    assert_eq!(conn.transaction_state(), TransactionState::RolledBack);
    let bytes = reply(1, 2, 2, 0, &[ssi_part(&[8], 1), flags_part(&[6]), ssi_part(&[7], 1)]);
    let r = receive(None, None, None, None, &bytes).unwrap();
    assert_eq!(
        absorb_session(r, &mut conn),
        Err(HdbError::Evaluation(EvaluationError::SessionClosingTransaction))
    );
    assert_eq!(conn.ssi(), &Some(vec![8]));
}
