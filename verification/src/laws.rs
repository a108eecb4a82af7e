//! What holds of a session over more than one call.

use crate::argument::ArgumentData;
use crate::conn_core::{
    after_request, clamped, with_flags, with_statement_context, ConnectionView,
};
use crate::error::HdbError;
use crate::hdb_response::ReturnValueView;
use crate::message::{
    digest_from, first_parts, id_at, parts_wire, request_wire, response_of, segment_header,
    segment_size, ssi_part, unfetched, Digest, ReplyView, RequestView,
};
use crate::part::PartView;
use crate::partkind::PartKind;
use crate::parts::option_part::{lemma_put_distinct, Options};
use crate::parts::option_value::OptionData;
use crate::parts::parameter_descriptor::ParameterDescriptorView;
use crate::parts::statement_context::{processing_time_of, ssi_of, STATEMENT_SEQUENCE_INFO};
use crate::wire::{
    get_i32, get_i64, le32, le64, lemma_i32_reads_back, lemma_i64_reads_back, lemma_le_len,
};
use vstd::prelude::*;

verus! {

/// The state of a session after `n` requests were built for sending and
/// nothing else happened to it.
pub open spec fn after_requests(c: ConnectionView, n: nat) -> ConnectionView
    decreases n,
{
    if n == 0 {
        c
    } else {
        after_request(after_requests(c, (n - 1) as nat))
    }
}

/// The sequence number under which the request with index `k` goes over the
/// wire, counted from the state `c`.
pub open spec fn sent_seq_number(c: ConnectionView, k: nat) -> int {
    after_requests(c, k + 1).seq_number as int
}

/// As long as sequence numbers are left, the request with index `k` is sent
/// with the sequence number `k + 1` above the one of the state it is counted
/// from.
pub proof fn lemma_sent_seq_number(c: ConnectionView, k: nat)
    requires
        c.seq_number + k < i32::MAX,
    ensures
        sent_seq_number(c, k) == c.seq_number + k + 1,
        after_requests(c, k).seq_number == c.seq_number + k,
    decreases k,
{
    if k > 0 {
        lemma_sent_seq_number(c, (k - 1) as nat);
    }
    assert(after_requests(c, k + 1) == after_request(after_requests(c, k)));
}

/// The packet sequence numbers of a connection are strictly increasing:
/// of two requests, the later one is sent with the larger number.
pub proof fn lemma_sequence_numbers_increase(c: ConnectionView, j: nat, k: nat)
    requires
        j < k,
        c.seq_number + k < i32::MAX,
    ensures
        sent_seq_number(c, j) < sent_seq_number(c, k),
{
    lemma_sent_seq_number(c, j);
    lemma_sent_seq_number(c, k);
}

/// What a reply says of a session leaves the sequence number alone: only
/// building a request for sending moves it. Transaction flags leave the
/// statement sequence info and the processing time alone as well.
pub proof fn lemma_replies_keep_sequence_number(c: ConnectionView, m: Options, k: nat)
    ensures
        with_statement_context(c, m).seq_number == c.seq_number,
        match with_flags(c, m, k) {
            Ok(d) => d.seq_number == c.seq_number && d.ssi == c.ssi && d.server_proc_time
                == c.server_proc_time,
            Err((_, d)) => d.seq_number == c.seq_number && d.ssi == c.ssi && d.server_proc_time
                == c.server_proc_time,
        },
    decreases k,
{
    if k > 0 {
        lemma_replies_keep_sequence_number(c, m, (k - 1) as nat);
    }
}

/// The session id and the sequence number under which a request is sent
/// are what stands at the start of its bytes.
pub proof fn lemma_sequence_number_on_the_wire(
    r: RequestView,
    par_md: Option<Seq<ParameterDescriptorView>>,
    session_id: i64,
    seq_number: i32,
)
    requires
        segment_size(r, par_md) is Ok,
    ensures
        get_i64(request_wire(r, par_md, session_id, seq_number), 0) == Ok::<_, HdbError>(
            (session_id, 8int),
        ),
        get_i32(request_wire(r, par_md, session_id, seq_number), 8) == Ok::<_, HdbError>(
            (seq_number, 12int),
        ),
{
    let size = segment_size(r, par_md)->Ok_0;
    let wire = request_wire(r, par_md, session_id, seq_number);
    let tail = le32(size) + le32(size) + crate::wire::le16(1) + crate::wire::zeros(10)
        + segment_header(r, size) + parts_wire(r.parts, par_md, size - 24, r.parts.len());
    let empty = Seq::<u8>::empty();
    lemma_le_len(session_id as int);
    lemma_le_len(seq_number as int);
    assert(wire =~= empty + le64(session_id as int) + (le32(seq_number as int) + tail));
    assert(wire =~= le64(session_id as int) + le32(seq_number as int) + tail);
    lemma_i64_reads_back(empty, session_id, le32(seq_number as int) + tail);
    lemma_i32_reads_back(le64(session_id as int), seq_number, tail);
}

/// If a reply carries a statement sequence info, the next request that is
/// built on the connection starts with a statement context that carries the
/// same statement sequence info.
pub proof fn lemma_statement_context_is_echoed(c: ConnectionView, m: Options, x: Seq<u8>)
    requires
        ssi_of(m) == Some(x),
    ensures
        with_statement_context(c, m).ssi == Some(x),
        first_parts(with_statement_context(c, m)) == seq![ssi_part(x)],
        ssi_part(x).arg.data matches ArgumentData::Options(echo) && ssi_of(echo) == Some(x),
{
    let empty = Seq::<(u8, OptionData)>::empty();
    lemma_put_distinct(empty, STATEMENT_SEQUENCE_INFO, OptionData::Bytes(x));
}

/// The statement sequence info of a session stays what it is until a reply
/// brings another: building requests does not change it.
pub proof fn lemma_requests_keep_statement_sequence_info(c: ConnectionView, n: nat)
    ensures
        after_requests(c, n).ssi == c.ssi,
        first_parts(after_requests(c, n)) == first_parts(c),
    decreases n,
{
    if n > 0 {
        lemma_requests_keep_statement_sequence_info(c, (n - 1) as nat);
    }
}

/// The statement context that the part at an index holds, if it holds one.
pub open spec fn context_at(parts: Seq<PartView>, i: int) -> Option<Options> {
    match parts[i].arg.data {
        ArgumentData::Options(m) => if parts[i].arg.kind == PartKind::StatementContext {
            Some(m)
        } else {
            None
        },
        _ => None,
    }
}

/// The statement sequence info that the parts from index `i` on leave
/// behind: that of the last statement context among them, or `ssi` if there
/// is none.
pub open spec fn ssi_from(parts: Seq<PartView>, i: int, ssi: Option<Seq<u8>>) -> Option<Seq<u8>>
    decreases parts.len() - i,
{
    if i < 0 || i >= parts.len() {
        ssi
    } else {
        match context_at(parts, i) {
            Some(m) => ssi_from(parts, i + 1, ssi_of(m)),
            None => ssi_from(parts, i + 1, ssi),
        }
    }
}

/// The processing time that the parts from index `i` on leave behind: what
/// each statement context among them reports is added to `t`.
pub open spec fn time_from(parts: Seq<PartView>, i: int, t: i64) -> i64
    decreases parts.len() - i,
{
    if i < 0 || i >= parts.len() {
        t
    } else {
        match context_at(parts, i) {
            Some(m) => time_from(parts, i + 1, clamped(t + processing_time_of(m))),
            None => time_from(parts, i + 1, t),
        }
    }
}

/// A reply of any parts that is digested leaves on the connection the
/// statement sequence info of its last statement context, and has added the
/// processing times of all its statement contexts.
pub proof fn lemma_digest_keeps_the_last_context(parts: Seq<PartView>, i: int, d: Digest)
    requires
        0 <= i,
        digest_from(parts, i, d) is Ok,
    ensures
        digest_from(parts, i, d)->Ok_0.conn.ssi == ssi_from(parts, i, d.conn.ssi),
        digest_from(parts, i, d)->Ok_0.conn.server_proc_time == time_from(
            parts,
            i,
            d.conn.server_proc_time,
        ),
    decreases parts.len() - i,
{
    if i < parts.len() {
        let arg = parts[i].arg;
        match arg.data {
            ArgumentData::ExecutionResults(v) => {
                lemma_digest_keeps_the_last_context(
                    parts,
                    i + 1,
                    Digest {
                        values: d.values.push(
                            ReturnValueView::AffectedRows(crate::hdb_response::numbers(v)),
                        ),
                        ..d
                    },
                );
            },
            ArgumentData::ResultSet(rs) => {
                lemma_digest_keeps_the_last_context(
                    parts,
                    i + 1,
                    Digest { values: d.values.push(ReturnValueView::ResultSet(rs)), ..d },
                );
            },
            ArgumentData::OutputParameters(o) => {
                lemma_digest_keeps_the_last_context(
                    parts,
                    i + 1,
                    Digest { values: d.values.push(ReturnValueView::OutputParameters(o)), ..d },
                );
            },
            ArgumentData::ResultSetMetadata(m) => {
                let id = id_at(parts, i + 1)->Some_0;
                lemma_digest_keeps_the_last_context(
                    parts,
                    i + 2,
                    Digest {
                        values: d.values.push(ReturnValueView::ResultSet(unfetched(id, m))),
                        ..d
                    },
                );
                assert(context_at(parts, i + 1) is None);
                assert(ssi_from(parts, i + 1, d.conn.ssi) == ssi_from(parts, i + 2, d.conn.ssi));
                assert(time_from(parts, i + 1, d.conn.server_proc_time) == time_from(
                    parts,
                    i + 2,
                    d.conn.server_proc_time,
                ));
            },
            ArgumentData::Options(m) => {
                if arg.kind == PartKind::StatementContext {
                    lemma_digest_keeps_the_last_context(
                        parts,
                        i + 1,
                        Digest { conn: with_statement_context(d.conn, m), ..d },
                    );
                } else if arg.kind == PartKind::TransactionFlags {
                    lemma_replies_keep_sequence_number(d.conn, m, m.len());
                    let c = with_flags(d.conn, m, m.len())->Ok_0;
                    lemma_digest_keeps_the_last_context(parts, i + 1, Digest { conn: c, ..d });
                } else {
                    lemma_digest_keeps_the_last_context(parts, i + 1, d);
                }
            },
            _ => {
                lemma_digest_keeps_the_last_context(parts, i + 1, d);
            },
        }
    }
}

/// Behind the last statement context of a reply nothing changes the
/// statement sequence info.
pub proof fn lemma_no_context_no_change(parts: Seq<PartView>, i: int, ssi: Option<Seq<u8>>)
    requires
        0 <= i,
        forall|j: int| i <= j < parts.len() ==> context_at(parts, j) is None,
    ensures
        ssi_from(parts, i, ssi) == ssi,
    decreases parts.len() - i,
{
    if i < parts.len() {
        lemma_no_context_no_change(parts, i + 1, ssi);
    }
}

/// The last statement context of a reply decides what is left behind.
pub proof fn lemma_last_context_decides(
    parts: Seq<PartView>,
    i: int,
    k: int,
    ssi: Option<Seq<u8>>,
)
    requires
        0 <= i <= k < parts.len(),
        context_at(parts, k) is Some,
        forall|j: int| k < j < parts.len() ==> context_at(parts, j) is None,
    ensures
        ssi_from(parts, i, ssi) == ssi_of(context_at(parts, k)->Some_0),
    decreases k - i,
{
    if i == k {
        lemma_no_context_no_change(parts, k + 1, ssi_of(context_at(parts, k)->Some_0));
    } else {
        match context_at(parts, i) {
            Some(m) => {
                lemma_last_context_decides(parts, i + 1, k, ssi_of(m));
            },
            None => {
                lemma_last_context_decides(parts, i + 1, k, ssi);
            },
        }
    }
}

/// If the last statement context of a reply, whatever the other parts of
/// the reply are, carries the statement sequence info `x`, then after the
/// reply was turned into its outcome the connection holds `x`, and the next
/// request that is built on the connection starts with a statement context
/// that carries `x`.
pub proof fn lemma_reply_is_echoed(reply: ReplyView, c: ConnectionView, k: int, x: Seq<u8>)
    requires
        0 <= k < reply.parts.len(),
        context_at(reply.parts, k) matches Some(m) && ssi_of(m) == Some(x),
        forall|j: int| k < j < reply.parts.len() ==> context_at(reply.parts, j) is None,
        response_of(reply, c) is Ok,
    ensures
        response_of(reply, c)->Ok_0.1.ssi == Some(x),
        first_parts(response_of(reply, c)->Ok_0.1) == seq![ssi_part(x)],
        ssi_part(x).arg.data matches ArgumentData::Options(echo) && ssi_of(echo) == Some(x),
        response_of(reply, c)->Ok_0.1.server_proc_time == time_from(
            reply.parts,
            0,
            c.server_proc_time,
        ),
{
    let start = Digest { conn: c, values: Seq::<ReturnValueView>::empty() };
    lemma_digest_keeps_the_last_context(reply.parts, 0, start);
    lemma_last_context_decides(reply.parts, 0, k, c.ssi);
    let empty = Seq::<(u8, OptionData)>::empty();
    lemma_put_distinct(empty, STATEMENT_SEQUENCE_INFO, OptionData::Bytes(x));
}

} // verus!
