//! Sessions and the server over whole histories of calls: what reaches the
//! control connection, what stays fixed, and who is admitted.

use vstd::prelude::*;
use crate::COOKIE_SIZE;
use crate::frame::{MAX_PARAMS_JSON, json_frame};
use crate::params::{ParamsDoc, params_from_doc};
use crate::results::{StreamStats, initial_stats, results_json};
use crate::be::be32;
use crate::session::{
    MAX_RESULTS_JSON, Phase, ServerEvent, SessionError, SessionState, add_bytes_step, admits,
    ctrl_step, data_ready_step, datagram_stats, end_test_step, initial_session, json_len_field,
    params_step, sender_has_retransmits, server_error_bytes, server_error_code, server_step,
};
use crate::state::{
    SERVER_ERROR, CREATE_STREAMS, DISPLAY_RESULTS, EXCHANGE_RESULTS, IPERF_DONE, PARAM_EXCHANGE, TEST_END,
    TEST_RUNNING, TEST_START, state_byte,
};

verus! {

/// One call on a session, as a value.
pub enum Event {
    /// `poll`.
    Poll,
    /// `feed_ctrl` with these bytes.
    Ctrl(Seq<u8>),
    /// `feed_params` with this reading of the parameter body.
    Params(Option<ParamsDoc>),
    /// `data_ready` with this cookie.
    DataReady(Seq<u8>),
    /// `end_test`.
    EndTest,
    /// `add_bytes`.
    AddBytes(u64),
    /// `note_udp_datagram` with this payload.
    Datagram(Seq<u8>),
}

/// The state after a step that may fail: a failed step leaves the state.
pub open spec fn or_same(r: Result<SessionState, SessionError>, s: SessionState) -> SessionState {
    match r {
        Ok(t) => t,
        Err(_) => s,
    }
}

/// The state after one call, as the contracts of the session's methods give it.
#[verifier::opaque]
pub open spec fn step(s: SessionState, e: Event) -> SessionState {
    match e {
        Event::Poll => SessionState { out: Seq::empty(), ..s },
        Event::Ctrl(d) => or_same(ctrl_step(s, d), s),
        Event::Params(doc) => or_same(params_step(s, doc), s),
        Event::DataReady(c) => or_same(data_ready_step(s, c), s),
        Event::EndTest => or_same(end_test_step(s), s),
        Event::AddBytes(n) => add_bytes_step(s, n),
        Event::Datagram(p) => SessionState { stats: datagram_stats(s, p), ..s },
    }
}

/// What [`step`] is on one call.
pub proof fn lemma_step_unfold(s: SessionState, e: Event)
    ensures
        step(s, e) == match e {
            Event::Poll => SessionState { out: Seq::empty(), ..s },
            Event::Ctrl(d) => or_same(ctrl_step(s, d), s),
            Event::Params(doc) => or_same(params_step(s, doc), s),
            Event::DataReady(c) => or_same(data_ready_step(s, c), s),
            Event::EndTest => or_same(end_test_step(s), s),
            Event::AddBytes(n) => add_bytes_step(s, n),
            Event::Datagram(p) => SessionState { stats: datagram_stats(s, p), ..s },
        },
{
    reveal(step);
}

/// The bytes that one call hands out for the control connection: a poll
/// hands out the whole queue (`Io::WriteCtrl` when it is not empty).
pub open spec fn written(s: SessionState, e: Event) -> Seq<u8> {
    match e {
        Event::Poll => s.out,
        _ => Seq::empty(),
    }
}

/// The state after a sequence of calls.
pub open spec fn run(s: SessionState, evs: Seq<Event>) -> SessionState
    decreases evs.len(),
{
    if evs.len() == 0 {
        s
    } else {
        run(step(s, evs[0]), evs.drop_first())
    }
}

/// All the bytes that a sequence of calls hands out, in order.
pub open spec fn run_written(s: SessionState, evs: Seq<Event>) -> Seq<u8>
    decreases evs.len(),
{
    if evs.len() == 0 {
        Seq::empty()
    } else {
        written(s, evs[0]) + run_written(step(s, evs[0]), evs.drop_first())
    }
}

/// The calls without the polls.
pub open spec fn without_polls(evs: Seq<Event>) -> Seq<Event>
    decreases evs.len(),
{
    if evs.len() == 0 {
        Seq::empty()
    } else if evs[0] is Poll {
        without_polls(evs.drop_first())
    } else {
        seq![evs[0]] + without_polls(evs.drop_first())
    }
}

/// The state with nothing queued.
pub open spec fn drained(s: SessionState) -> SessionState {
    SessionState { out: Seq::empty(), ..s }
}

/// No call but a poll reads the queue: every other call appends to it what
/// it would append to an empty queue, and changes the rest as it would there.
proof fn lemma_step_appends(s: SessionState, e: Event)
    requires
        !(e is Poll),
    ensures
        step(s, e) == (SessionState { out: s.out + step(drained(s), e).out, ..step(drained(s), e) }),
{
    reveal(step);
    let t = step(drained(s), e);
    assert(step(s, e).out =~= s.out + t.out);
}

proof fn lemma_without_polls(evs: Seq<Event>)
    ensures
        without_polls(evs).len() <= evs.len(),
        forall|i: int| 0 <= i < without_polls(evs).len() ==> !(#[trigger] without_polls(evs)[i] is Poll),
    decreases evs.len(),
{
    if evs.len() > 0 {
        lemma_without_polls(evs.drop_first());
        let w = without_polls(evs.drop_first());
        if !(evs[0] is Poll) {
            assert forall|i: int| 0 <= i < without_polls(evs).len() implies !(
            #[trigger] without_polls(evs)[i] is Poll) by {
                if i > 0 {
                    assert(without_polls(evs)[i] == w[i - 1]);
                }
            }
        }
    }
}

/// Calls without polls hand out nothing, and append to the queue what they
/// would append to an empty one.
proof fn lemma_run_appends(s: SessionState, evs: Seq<Event>)
    requires
        forall|i: int| 0 <= i < evs.len() ==> !(#[trigger] evs[i] is Poll),
    ensures
        run_written(s, evs) == Seq::<u8>::empty(),
        run(s, evs) == (SessionState { out: s.out + run(drained(s), evs).out, ..run(drained(s), evs) }),
    decreases evs.len(),
{
    if evs.len() > 0 {
        let e = evs[0];
        let rest = evs.drop_first();
        assert forall|i: int| 0 <= i < rest.len() implies !(#[trigger] rest[i] is Poll) by {
            assert(rest[i] == evs[i + 1]);
        }
        lemma_step_appends(s, e);
        let t = step(s, e);
        let u = step(drained(s), e);
        lemma_run_appends(t, rest);
        lemma_run_appends(u, rest);
        assert(drained(t) == drained(u));
        assert(run(s, evs).out =~= s.out + run(drained(s), evs).out);
        assert(run_written(s, evs) =~= Seq::<u8>::empty());
    }
}

/// Polls only hand out what is queued. Over any sequence of calls, the
/// bytes handed out followed by what is still queued are what was queued
/// at the start followed by all that the same calls without the polls
/// queue from an empty queue; and but for the queue, the state is the same.
pub proof fn law_polls_only_hand_out(s: SessionState, evs: Seq<Event>)
    ensures
        run_written(s, evs) + run(s, evs).out == s.out + run(drained(s), without_polls(evs)).out,
        run(s, evs) == (SessionState {
            out: run(s, evs).out,
            ..run(drained(s), without_polls(evs))
        }),
    decreases evs.len(),
{
    if evs.len() > 0 {
        let e = evs[0];
        let rest = evs.drop_first();
        lemma_without_polls(rest);
        if e is Poll {
            assert(step(s, e) == drained(s)) by {
                reveal(step);
            }
            law_polls_only_hand_out(drained(s), rest);
            assert(drained(drained(s)) == drained(s));
            assert(run_written(s, evs) + run(s, evs).out =~= s.out + run(
                drained(s),
                without_polls(evs),
            ).out);
        } else {
            let t = step(s, e);
            let u = step(drained(s), e);
            law_polls_only_hand_out(t, rest);
            lemma_step_appends(s, e);
            assert(drained(t) == drained(u));
            lemma_run_appends(u, without_polls(rest));
            let w = without_polls(evs);
            assert(w[0] == e);
            assert(w.drop_first() =~= without_polls(rest));
            assert(run(drained(s), w) == run(u, without_polls(rest)));
            assert(run_written(s, evs) + run(s, evs).out =~= s.out + run(drained(s), w).out);
        }
    }
}

/// The calls of a successful test, in protocol order.
pub open spec fn successful_test_events(
    cookie: Seq<u8>,
    len_field: Seq<u8>,
    body: Seq<u8>,
    doc: ParamsDoc,
    counted: u64,
    client_len: Seq<u8>,
    client_body: Seq<u8>,
) -> Seq<Event> {
    seq![
        Event::Ctrl(cookie),
        Event::Ctrl(len_field),
        Event::Ctrl(body),
        Event::Params(Some(doc)),
        Event::DataReady(cookie),
        Event::AddBytes(counted),
        Event::Ctrl(seq![state_byte(TEST_END)]),
        Event::Ctrl(client_len),
        Event::Ctrl(client_body),
        Event::Ctrl(seq![state_byte(IPERF_DONE)]),
    ]
}

/// The control bytes of a successful test, in order: PARAM_EXCHANGE,
/// CREATE_STREAMS, TEST_START, TEST_RUNNING, EXCHANGE_RESULTS, the framed
/// results with the bytes counted, DISPLAY_RESULTS.
pub open spec fn successful_transcript(doc: ParamsDoc, counted: u64) -> Seq<u8> {
    seq![
        state_byte(PARAM_EXCHANGE),
        state_byte(CREATE_STREAMS),
        state_byte(TEST_START),
        state_byte(TEST_RUNNING),
        state_byte(EXCHANGE_RESULTS),
    ] + json_frame(
        results_json(
            StreamStats { bytes: counted, ..initial_stats() },
            sender_has_retransmits(Some(params_from_doc(Some(doc))->Ok_0)),
        ),
    ) + seq![state_byte(DISPLAY_RESULTS)]
}

/// The cookie and the parameter length are taken.
proof fn lemma_opening(cookie: Seq<u8>, len_field: Seq<u8>) -> (r: (SessionState, SessionState))
    requires
        cookie.len() == COOKIE_SIZE,
        json_len_field(len_field, MAX_PARAMS_JSON) is Ok,
    ensures
        step(initial_session(), Event::Ctrl(cookie)) == r.0,
        step(r.0, Event::Ctrl(len_field)) == r.1,
        r.1 == (SessionState {
            phase: Phase::WaitJsonBody { len: json_len_field(len_field, MAX_PARAMS_JSON)->Ok_0 },
            out: seq![state_byte(PARAM_EXCHANGE)],
            cookie: cookie,
            params_body: Seq::empty(),
            params: None,
            stats: initial_stats(),
        }),
{
    reveal(step);
    let s1 = SessionState {
        phase: Phase::WaitJsonLen,
        out: seq![state_byte(PARAM_EXCHANGE)],
        cookie: cookie,
        params_body: Seq::empty(),
        params: None,
        stats: initial_stats(),
    };
    assert(s1.out =~= Seq::<u8>::empty().push(state_byte(PARAM_EXCHANGE)));
    assert(ctrl_step(initial_session(), cookie) == Ok::<SessionState, SessionError>(s1));
    let s2 = SessionState {
        phase: Phase::WaitJsonBody { len: json_len_field(len_field, MAX_PARAMS_JSON)->Ok_0 },
        ..s1
    };
    assert(ctrl_step(s1, len_field) == Ok::<SessionState, SessionError>(s2));
    (s1, s2)
}

/// The parameter body is taken, its reading accepted, and the data channel
/// comes up with the session's cookie.
proof fn lemma_test_starts(s2: SessionState, body: Seq<u8>, doc: ParamsDoc) -> (r: (
    SessionState,
    SessionState,
    SessionState,
))
    requires
        s2.phase matches Phase::WaitJsonBody { len } && body.len() == len,
        params_from_doc(Some(doc)) is Ok,
    ensures
        step(s2, Event::Ctrl(body)) == r.0,
        step(r.0, Event::Params(Some(doc))) == r.1,
        step(r.1, Event::DataReady(s2.cookie)) == r.2,
        r.2 == (SessionState {
            phase: Phase::Pump,
            out: s2.out + seq![
                state_byte(CREATE_STREAMS),
                state_byte(TEST_START),
                state_byte(TEST_RUNNING),
            ],
            params_body: body,
            params: Some(params_from_doc(Some(doc))->Ok_0),
            ..s2
        }),
{
    reveal(step);
    let sb = SessionState { phase: Phase::ParseParams, params_body: body, ..s2 };
    assert(ctrl_step(s2, body) == Ok::<SessionState, SessionError>(sb));
    let s3 = SessionState {
        phase: Phase::NeedData,
        out: sb.out.push(state_byte(CREATE_STREAMS)),
        params: Some(params_from_doc(Some(doc))->Ok_0),
        ..sb
    };
    assert(params_step(sb, Some(doc)) == Ok::<SessionState, SessionError>(s3));
    let s4 = SessionState {
        phase: Phase::Pump,
        out: s3.out.push(state_byte(TEST_START)).push(state_byte(TEST_RUNNING)),
        ..s3
    };
    assert(data_ready_step(s3, s2.cookie) == Ok::<SessionState, SessionError>(s4));
    assert(s4.out =~= s2.out + seq![
        state_byte(CREATE_STREAMS),
        state_byte(TEST_START),
        state_byte(TEST_RUNNING),
    ]);
    (sb, s3, s4)
}

/// TEST_END and the length of the client's results are taken.
proof fn lemma_results_asked(s4: SessionState, client_len: Seq<u8>) -> (r: (
    SessionState,
    SessionState,
))
    requires
        s4.phase == Phase::Pump,
        json_len_field(client_len, MAX_RESULTS_JSON) is Ok,
    ensures
        step(s4, Event::Ctrl(seq![state_byte(TEST_END)])) == r.0,
        step(r.0, Event::Ctrl(client_len)) == r.1,
        r.1 == (SessionState {
            phase: Phase::WaitClientBody { len: json_len_field(client_len, MAX_RESULTS_JSON)->Ok_0 },
            out: s4.out.push(state_byte(EXCHANGE_RESULTS)),
            ..s4
        }),
{
    reveal(step);
    let end_byte = seq![state_byte(TEST_END)];
    assert(end_byte[0] as i8 == TEST_END);
    let s5 = SessionState {
        phase: Phase::WaitClientLen,
        out: s4.out.push(state_byte(EXCHANGE_RESULTS)),
        ..s4
    };
    assert(ctrl_step(s4, end_byte) == Ok::<SessionState, SessionError>(s5));
    let s6 = SessionState {
        phase: Phase::WaitClientBody { len: json_len_field(client_len, MAX_RESULTS_JSON)->Ok_0 },
        ..s5
    };
    assert(ctrl_step(s5, client_len) == Ok::<SessionState, SessionError>(s6));
    (s5, s6)
}

/// The client's results are taken, ours queued, and IPERF_DONE ends the
/// session.
proof fn lemma_results_given(s6: SessionState, client_body: Seq<u8>) -> (r: (
    SessionState,
    SessionState,
))
    requires
        s6.phase matches Phase::WaitClientBody { len } && client_body.len() == len,
    ensures
        step(s6, Event::Ctrl(client_body)) == r.0,
        step(r.0, Event::Ctrl(seq![state_byte(IPERF_DONE)])) == r.1,
        r.1 == (SessionState {
            phase: Phase::Done,
            out: s6.out + json_frame(results_json(s6.stats, sender_has_retransmits(s6.params)))
                + seq![state_byte(DISPLAY_RESULTS)],
            ..s6
        }),
{
    reveal(step);
    let frame = json_frame(results_json(s6.stats, sender_has_retransmits(s6.params)));
    let s7 = SessionState {
        phase: Phase::WaitDone,
        out: s6.out + frame.push(state_byte(DISPLAY_RESULTS)),
        ..s6
    };
    assert(ctrl_step(s6, client_body) == Ok::<SessionState, SessionError>(s7));
    let done_byte = seq![state_byte(IPERF_DONE)];
    assert(done_byte[0] as i8 == IPERF_DONE);
    let s8 = SessionState { phase: Phase::Done, ..s7 };
    assert(ctrl_step(s7, done_byte) == Ok::<SessionState, SessionError>(s8));
    assert(s8.out =~= s6.out + frame + seq![state_byte(DISPLAY_RESULTS)]);
    (s7, s8)
}

/// Calls without polls that take each state of `states` to the next take
/// the first to the last and hand out nothing.
proof fn lemma_run_chain(states: Seq<SessionState>, evs: Seq<Event>, k: int)
    requires
        0 <= k <= evs.len(),
        states.len() == evs.len() + 1,
        forall|i: int| 0 <= i < evs.len() ==> #[trigger] step(states[i], evs[i]) == states[i + 1],
        forall|i: int| 0 <= i < evs.len() ==> !(#[trigger] evs[i] is Poll),
    ensures
        run(states[k], evs.subrange(k, evs.len() as int)) == states[evs.len() as int],
        run_written(states[k], evs.subrange(k, evs.len() as int)) == Seq::<u8>::empty(),
    decreases evs.len() - k,
{
    if k < evs.len() {
        lemma_run_chain(states, evs, k + 1);
        let sub = evs.subrange(k, evs.len() as int);
        assert(sub[0] == evs[k]);
        assert(sub.drop_first() =~= evs.subrange(k + 1, evs.len() as int));
        assert(step(states[k], evs[k]) == states[k + 1]);
        assert(run_written(states[k], sub) =~= Seq::<u8>::empty());
    }
}

/// A successful test, fed in protocol order with nothing drained in between,
/// queues the transcript of a successful test and ends the session.
pub proof fn law_successful_test(
    cookie: Seq<u8>,
    len_field: Seq<u8>,
    body: Seq<u8>,
    doc: ParamsDoc,
    counted: u64,
    client_len: Seq<u8>,
    client_body: Seq<u8>,
)
    requires
        cookie.len() == COOKIE_SIZE,
        json_len_field(len_field, MAX_PARAMS_JSON) matches Ok(n) && body.len() == n,
        params_from_doc(Some(doc)) is Ok,
        json_len_field(client_len, MAX_RESULTS_JSON) matches Ok(n) && client_body.len() == n,
    ensures
        run_written(
            initial_session(),
            successful_test_events(cookie, len_field, body, doc, counted, client_len, client_body),
        ) == Seq::<u8>::empty(),
        run(
            initial_session(),
            successful_test_events(cookie, len_field, body, doc, counted, client_len, client_body),
        ).phase == Phase::Done,
        run(
            initial_session(),
            successful_test_events(cookie, len_field, body, doc, counted, client_len, client_body),
        ).out == successful_transcript(doc, counted),
{
    let evs = successful_test_events(cookie, len_field, body, doc, counted, client_len, client_body);
    let (s1, s2) = lemma_opening(cookie, len_field);
    let (sb, s3, s4) = lemma_test_starts(s2, body, doc);
    let s4b = add_bytes_step(s4, counted);
    let (s5, s6) = lemma_results_asked(s4b, client_len);
    let (s7, s8) = lemma_results_given(s6, client_body);
    let states = seq![initial_session(), s1, s2, sb, s3, s4, s4b, s5, s6, s7, s8];
    assert forall|i: int| 0 <= i < evs.len() implies #[trigger] step(states[i], evs[i])
        == states[i + 1] by {
        if i == 5 {
            assert(step(s4, Event::AddBytes(counted)) == s4b) by {
                reveal(step);
            }
        }
    }
    lemma_run_chain(states, evs, 0);
    assert(evs.subrange(0, 10) =~= evs);
    assert(s6.stats == StreamStats { bytes: counted, ..initial_stats() });
    assert(s8.out =~= successful_transcript(doc, counted));
}

/// With polls anywhere among the calls of a successful test, all the bytes
/// the polls hand out followed by what is still queued (which the next poll
/// hands out) are the transcript of a successful test, and the session ends.
pub proof fn law_successful_test_with_polls(
    cookie: Seq<u8>,
    len_field: Seq<u8>,
    body: Seq<u8>,
    doc: ParamsDoc,
    counted: u64,
    client_len: Seq<u8>,
    client_body: Seq<u8>,
    evs: Seq<Event>,
)
    requires
        cookie.len() == COOKIE_SIZE,
        json_len_field(len_field, MAX_PARAMS_JSON) matches Ok(n) && body.len() == n,
        params_from_doc(Some(doc)) is Ok,
        json_len_field(client_len, MAX_RESULTS_JSON) matches Ok(n) && client_body.len() == n,
        without_polls(evs) == successful_test_events(
            cookie,
            len_field,
            body,
            doc,
            counted,
            client_len,
            client_body,
        ),
    ensures
        run_written(initial_session(), evs) + run(initial_session(), evs).out
            == successful_transcript(doc, counted),
        run(initial_session(), evs).phase == Phase::Done,
{
    law_successful_test(cookie, len_field, body, doc, counted, client_len, client_body);
    law_polls_only_hand_out(initial_session(), evs);
    assert(drained(initial_session()) == initial_session());
    assert(initial_session().out + successful_transcript(doc, counted) =~= successful_transcript(
        doc,
        counted,
    ));
}

/// No call moves a session back to waiting for its cookie, and once it has
/// left that phase no call changes the cookie.
proof fn lemma_step_keeps_cookie(s: SessionState, e: Event)
    ensures
        step(s, e).phase == Phase::WaitCookie ==> s.phase == Phase::WaitCookie && step(s, e).cookie
            == s.cookie,
        s.phase != Phase::WaitCookie ==> step(s, e).cookie == s.cookie,
{
    reveal(step);
}

/// Once the session has left the wait for the cookie, no sequence of calls,
/// failed or not, changes the cookie or brings that wait back.
pub proof fn law_cookie_fixed(s: SessionState, evs: Seq<Event>)
    requires
        s.phase != Phase::WaitCookie,
    ensures
        run(s, evs).cookie == s.cookie,
        run(s, evs).phase != Phase::WaitCookie,
    decreases evs.len(),
{
    if evs.len() > 0 {
        lemma_step_keeps_cookie(s, evs[0]);
        law_cookie_fixed(step(s, evs[0]), evs.drop_first());
    }
}

/// While a session waits for its cookie, the cookie stays zero.
pub proof fn law_cookie_zero_until_taken(s: SessionState, evs: Seq<Event>)
    requires
        s.phase == Phase::WaitCookie ==> s.cookie == initial_session().cookie,
    ensures
        run(s, evs).phase == Phase::WaitCookie ==> run(s, evs).cookie == initial_session().cookie,
    decreases evs.len(),
{
    if evs.len() > 0 {
        lemma_step_keeps_cookie(s, evs[0]);
        law_cookie_zero_until_taken(step(s, evs[0]), evs.drop_first());
    }
}

/// The cookie is written once: the cookie bytes taken while waiting for it
/// are the session's cookie after any later sequence of calls.
pub proof fn law_cookie_written_once(before: Seq<Event>, cookie: Seq<u8>, after: Seq<Event>)
    requires
        run(initial_session(), before).phase == Phase::WaitCookie,
        cookie.len() == COOKIE_SIZE,
    ensures
        run(step(run(initial_session(), before), Event::Ctrl(cookie)), after).cookie == cookie,
{
    reveal(step);
    let s = step(run(initial_session(), before), Event::Ctrl(cookie));
    assert(s.phase == Phase::WaitJsonLen);
    law_cookie_fixed(s, after);
}

/// Whether the server is busy after a sequence of events.
pub open spec fn server_run(busy: bool, evs: Seq<ServerEvent>) -> bool
    decreases evs.len(),
{
    if evs.len() == 0 {
        busy
    } else {
        server_step(server_run(busy, evs.drop_last()), evs.last())
    }
}

/// Some start came after the last end (or after the beginning, if there
/// was no end).
pub open spec fn started_since_end(evs: Seq<ServerEvent>) -> bool {
    exists|i: int|
        0 <= i < evs.len() && #[trigger] evs[i] is Started && forall|j: int|
            i < j < evs.len() ==> !(#[trigger] evs[j] is Ended)
}

/// One test at a time: a new server, after any sequence of starts and ends,
/// is busy exactly when a start came after the last end, and admits a new
/// test exactly when it is not busy.
pub proof fn law_one_test_at_a_time(evs: Seq<ServerEvent>)
    ensures
        server_run(false, evs) == started_since_end(evs),
        admits(server_run(false, evs)) == !started_since_end(evs),
{
    if evs.len() > 0 {
        let n = evs.len() - 1;
        if evs[n] is Started {
            assert(evs[n] is Started);
        } else {
            if started_since_end(evs) {
                let i = choose|i: int|
                    0 <= i < evs.len() && #[trigger] evs[i] is Started && forall|j: int|
                        i < j < evs.len() ==> !(#[trigger] evs[j] is Ended);
                assert(i != n);
                assert(!(evs[n] is Ended));
            }
        }
    }
}

/// Refused parameters leave PARAM_EXCHANGE and then SERVER_ERROR with the
/// iperf error number (IERECVPARAMS for a text that is not a JSON object,
/// IEPROTOCOL otherwise) and errno 0, and end the session.
pub proof fn law_refused_params(
    cookie: Seq<u8>,
    len_field: Seq<u8>,
    body: Seq<u8>,
    doc: Option<ParamsDoc>,
)
    requires
        cookie.len() == COOKIE_SIZE,
        json_len_field(len_field, MAX_PARAMS_JSON) matches Ok(n) && body.len() == n,
        params_from_doc(doc) is Err,
    ensures
        ({
            let s = run(
                initial_session(),
                seq![Event::Ctrl(cookie), Event::Ctrl(len_field), Event::Ctrl(body), Event::Params(doc)],
            );
            &&& s.phase == Phase::Done
            &&& s.out == seq![state_byte(PARAM_EXCHANGE), state_byte(SERVER_ERROR)] + be32(
                server_error_code(params_from_doc(doc)->Err_0) as u32,
            ) + be32(0u32)
        }),
{
    let evs = seq![Event::Ctrl(cookie), Event::Ctrl(len_field), Event::Ctrl(body), Event::Params(doc)];
    let e = params_from_doc(doc)->Err_0;
    let (s1, s2) = lemma_opening(cookie, len_field);
    let sb = SessionState { phase: Phase::ParseParams, params_body: body, ..s2 };
    let s3 = SessionState { phase: Phase::Done, out: sb.out + server_error_bytes(e), ..sb };
    assert(step(s2, Event::Ctrl(body)) == sb && step(sb, Event::Params(doc)) == s3) by {
        reveal(step);
        assert(ctrl_step(s2, body) == Ok::<SessionState, SessionError>(sb));
        assert(params_step(sb, doc) == Ok::<SessionState, SessionError>(s3));
    }
    let states = seq![initial_session(), s1, s2, sb, s3];
    assert forall|i: int| 0 <= i < evs.len() implies #[trigger] step(states[i], evs[i])
        == states[i + 1] by {
    }
    lemma_run_chain(states, evs, 0);
    assert(evs.subrange(0, 4) =~= evs);
    assert(s3.out =~= seq![state_byte(PARAM_EXCHANGE), state_byte(SERVER_ERROR)] + be32(
        server_error_code(e) as u32,
    ) + be32(0u32));
}

} // verus!
