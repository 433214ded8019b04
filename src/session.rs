//! The connection state machine: from its state and what just happened on the
//! wire, it decides what to show and what the driver does next.
use vstd::prelude::*;

use crate::framing::{
    complete_lines, lemma_split_reads, lemma_tail_newline_free, lemma_terminated_lines,
    newline_free, terminated, unterminated_tail, LineDecoder, NEWLINE,
};

verus! {

/// Where the connection stands. A closed connection goes straight back to
/// `Idle`.
#[derive(Clone, Copy, PartialEq, Eq, Structural, Debug)]
pub enum Phase {
    /// No connection; the next attempt comes after the fixed pause.
    Idle,
    /// A connection attempt is under way.
    Connecting,
    /// Lines are being read.
    Connected,
}

/// What the driver does next.
#[derive(Clone, Copy, PartialEq, Eq, Structural, Debug)]
pub enum Action {
    /// Sleep for the fixed reconnect delay, then report `DelayElapsed`.
    Pause,
    /// Try to open the connection, then report how it went.
    Connect,
    /// Read from the connection, then report what came.
    Read,
    /// Stop the process: the connection attempt failed for good.
    Abort,
}

/// What the driver reports after performing an action.
#[derive(PartialEq, Eq, Debug)]
pub enum Event {
    /// The reconnect delay is over.
    DelayElapsed,
    /// The connection was opened.
    Accepted,
    /// The connection was refused: nobody listens yet.
    Refused,
    /// The connection attempt failed in any other way.
    ConnectFailed,
    /// A read returned these bytes.
    Received(Vec<u8>),
    /// A read returned no bytes: the peer closed the stream.
    EndOfStream,
    /// A read failed.
    ReadFailed,
}

/// An event as the model sees it.
pub enum EventView {
    DelayElapsed,
    Accepted,
    Refused,
    ConnectFailed,
    Received(Seq<u8>),
    EndOfStream,
    ReadFailed,
}

impl View for Event {
    type V = EventView;

    open spec fn view(&self) -> EventView {
        match self {
            Event::DelayElapsed => EventView::DelayElapsed,
            Event::Accepted => EventView::Accepted,
            Event::Refused => EventView::Refused,
            Event::ConnectFailed => EventView::ConnectFailed,
            Event::Received(d) => EventView::Received(d@),
            Event::EndOfStream => EventView::EndOfStream,
            Event::ReadFailed => EventView::ReadFailed,
        }
    }
}

/// Something to show on the console.
#[derive(PartialEq, Eq, Debug)]
pub enum Notice {
    /// The "waiting for connection" notice.
    Waiting,
    /// The "connection established" banner.
    Established,
    /// One received line, without its newline: a record to timestamp.
    Line(Vec<u8>),
    /// The "connection closed" banner and the blank line after it.
    Closed,
}

/// A notice as the model sees it.
pub enum NoticeView {
    Waiting,
    Established,
    Line(Seq<u8>),
    Closed,
}

impl View for Notice {
    type V = NoticeView;

    open spec fn view(&self) -> NoticeView {
        match self {
            Notice::Waiting => NoticeView::Waiting,
            Notice::Established => NoticeView::Established,
            Notice::Line(l) => NoticeView::Line(l@),
            Notice::Closed => NoticeView::Closed,
        }
    }
}

/// The views of a sequence of notices.
pub open spec fn notice_views(ns: Seq<Notice>) -> Seq<NoticeView> {
    ns.map_values(|n: Notice| n@)
}

/// The abstract state: the phase, whether the waiting notice has been shown
/// since the last connection, and the bytes of an unterminated line.
pub struct SessionView {
    pub phase: Phase,
    pub waiting: bool,
    pub pending: Seq<u8>,
}

/// The state a monitor starts in.
pub open spec fn initial_state() -> SessionView {
    SessionView { phase: Phase::Idle, waiting: false, pending: seq![] }
}

/// The action that a phase asks of the driver.
pub open spec fn phase_action(p: Phase) -> Action {
    match p {
        Phase::Idle => Action::Pause,
        Phase::Connecting => Action::Connect,
        Phase::Connected => Action::Read,
    }
}

/// One record for each line, in order.
pub open spec fn line_notices(lines: Seq<Seq<u8>>) -> Seq<NoticeView> {
    lines.map_values(|l: Seq<u8>| NoticeView::Line(l))
}

/// The record of an unterminated line, delivered when the stream ends.
pub open spec fn last_line_notice(pending: Seq<u8>) -> Seq<NoticeView> {
    if pending.len() == 0 {
        seq![]
    } else {
        seq![NoticeView::Line(pending)]
    }
}

/// One transition: the next state, the notices to show, and the next action.
/// An event that does not belong to the phase changes nothing.
pub open spec fn next(s: SessionView, e: EventView) -> (SessionView, Seq<NoticeView>, Action) {
    let unchanged = (s, Seq::<NoticeView>::empty(), phase_action(s.phase));
    match s.phase {
        Phase::Idle => match e {
            EventView::DelayElapsed => (
                SessionView { phase: Phase::Connecting, ..s },
                seq![],
                Action::Connect,
            ),
            _ => unchanged,
        },
        Phase::Connecting => match e {
            EventView::Accepted => (
                SessionView { phase: Phase::Connected, waiting: false, pending: seq![] },
                seq![NoticeView::Established],
                Action::Read,
            ),
            EventView::Refused => (
                SessionView { phase: Phase::Idle, waiting: true, ..s },
                if s.waiting {
                    seq![]
                } else {
                    seq![NoticeView::Waiting]
                },
                Action::Pause,
            ),
            EventView::ConnectFailed => (s, seq![], Action::Abort),
            _ => unchanged,
        },
        Phase::Connected => match e {
            EventView::Received(d) => (
                SessionView { pending: unterminated_tail(s.pending + d), ..s },
                line_notices(complete_lines(s.pending + d)),
                Action::Read,
            ),
            EventView::EndOfStream => (
                SessionView { phase: Phase::Idle, pending: seq![], ..s },
                last_line_notice(s.pending) + seq![NoticeView::Closed],
                Action::Pause,
            ),
            EventView::ReadFailed => (
                SessionView { phase: Phase::Idle, pending: seq![], ..s },
                seq![NoticeView::Closed],
                Action::Pause,
            ),
            _ => unchanged,
        },
    }
}

/// The state after a sequence of events, and every notice shown on the way.
pub open spec fn run(s: SessionView, es: Seq<EventView>) -> (SessionView, Seq<NoticeView>)
    decreases es.len(),
{
    if es.len() == 0 {
        (s, seq![])
    } else {
        let first = next(s, es[0]);
        let rest = run(first.0, es.drop_first());
        (rest.0, first.1 + rest.1)
    }
}

/// One `Received` event for each chunk, in order.
pub open spec fn receipts(chunks: Seq<Seq<u8>>) -> Seq<EventView> {
    chunks.map_values(|c: Seq<u8>| EventView::Received(c))
}

/// The state right after a connection opens.
pub open spec fn fresh_connection() -> SessionView {
    SessionView { phase: Phase::Connected, waiting: false, pending: seq![] }
}

/// `n` refused attempts, each followed by the reconnect delay.
pub open spec fn refusals(n: nat) -> Seq<EventView>
    decreases n,
{
    if n == 0 {
        seq![]
    } else {
        seq![EventView::Refused, EventView::DelayElapsed] + refusals((n - 1) as nat)
    }
}

/// Records follow the lines: one record per line of two joined sequences is
/// the records of the first, then those of the second.
pub proof fn lemma_line_notices_concat(a: Seq<Seq<u8>>, b: Seq<Seq<u8>>)
    ensures
        line_notices(a + b) == line_notices(a) + line_notices(b),
{
    assert(line_notices(a + b) =~= line_notices(a) + line_notices(b));
}

/// On an open connection, a series of reads yields one record for each line
/// that the bytes held and the bytes read complete, in order, whatever the
/// sizes of the reads; the rest stays held.
pub proof fn lemma_reads_yield_lines(s: SessionView, chunks: Seq<Seq<u8>>)
    requires
        s.phase == Phase::Connected,
        !s.pending.contains(NEWLINE),
    ensures
        run(s, receipts(chunks)) == (
            SessionView { pending: unterminated_tail(s.pending + chunks.flatten()), ..s },
            line_notices(complete_lines(s.pending + chunks.flatten())),
        ),
    decreases chunks.len(),
{
    if chunks.len() == 0 {
        assert(s.pending + chunks.flatten() =~= s.pending);
        crate::framing::lemma_newline_free_stream(s.pending);
        assert(line_notices(Seq::<Seq<u8>>::empty()) =~= Seq::<NoticeView>::empty());
        assert(s == SessionView { pending: s.pending, ..s });
    } else {
        let c = chunks[0];
        let rest = chunks.drop_first();
        let joined = s.pending + c;
        assert(receipts(chunks)[0] == EventView::Received(c));
        assert(receipts(chunks).drop_first() =~= receipts(rest));
        let t = SessionView { pending: unterminated_tail(joined), ..s };
        lemma_tail_newline_free(joined);
        lemma_reads_yield_lines(t, rest);
        lemma_split_reads(joined, rest.flatten());
        assert(s.pending + chunks.flatten() =~= joined + rest.flatten());
        lemma_line_notices_concat(
            complete_lines(joined),
            complete_lines(unterminated_tail(joined) + rest.flatten()),
        );
    }
}

/// Lines sent each with its newline over a new connection are shown as
/// exactly those records, in the order sent, however the bytes are cut into
/// reads, and nothing is left held.
pub proof fn lemma_sent_lines_shown(lines: Seq<Seq<u8>>, chunks: Seq<Seq<u8>>)
    requires
        newline_free(lines),
        chunks.flatten() == terminated(lines),
    ensures
        run(fresh_connection(), receipts(chunks)) == (fresh_connection(), line_notices(lines)),
{
    let s = fresh_connection();
    lemma_reads_yield_lines(s, chunks);
    assert(s.pending + chunks.flatten() =~= terminated(lines));
    lemma_terminated_lines(lines);
}

/// Refused `n` times and then accepted, the monitor shows the waiting notice
/// at most once (at the first refusal, unless it was already showing), then
/// the established banner, and starts the connection with nothing held.
pub proof fn lemma_refused_then_accepted(s: SessionView, n: nat)
    requires
        s.phase == Phase::Connecting,
    ensures
        run(s, refusals(n).push(EventView::Accepted)) == (
            fresh_connection(),
            if n > 0 && !s.waiting {
                seq![NoticeView::Waiting, NoticeView::Established]
            } else {
                seq![NoticeView::Established]
            },
        ),
    decreases n,
{
    let es = refusals(n).push(EventView::Accepted);
    if n == 0 {
        assert(refusals(n) =~= Seq::<EventView>::empty());
        assert(es =~= seq![EventView::Accepted]);
        assert(es[0] == EventView::Accepted);
        assert(es.drop_first() =~= Seq::<EventView>::empty());
        assert(next(s, es[0]).0 == fresh_connection());
        assert(run(fresh_connection(), es.drop_first()) == (
            fresh_connection(),
            Seq::<NoticeView>::empty(),
        ));
        assert(seq![NoticeView::Established] + Seq::<NoticeView>::empty() =~= seq![
            NoticeView::Established,
        ]);
    } else {
        let m = (n - 1) as nat;
        let s1 = SessionView { phase: Phase::Idle, waiting: true, ..s };
        let s2 = SessionView { phase: Phase::Connecting, waiting: true, ..s };
        lemma_refused_then_accepted(s2, m);
        let tail2 = refusals(m).push(EventView::Accepted);
        assert(es[0] == EventView::Refused);
        assert(es.drop_first()[0] == EventView::DelayElapsed);
        assert(es.drop_first().drop_first() =~= tail2);
        let after2 = run(s2, tail2);
        assert(after2.1 =~= seq![NoticeView::Established]);
        assert(run(s1, es.drop_first()) == (
            after2.0,
            Seq::<NoticeView>::empty() + after2.1,
        ));
        let first = next(s, es[0]);
        assert(first.0 == s1);
        let rest = run(s1, es.drop_first());
        assert(run(s, es) == (rest.0, first.1 + rest.1));
        assert(rest.0 == fresh_connection());
        if s.waiting {
            assert(first.1 + rest.1 =~= seq![NoticeView::Established]);
        } else {
            assert(first.1 + rest.1 =~= seq![NoticeView::Waiting, NoticeView::Established]);
        }
    }
}

/// After a connection ends, by its end or by a failed read, and a new one
/// opens, the first read's records come from the new bytes alone: nothing
/// held from the old stream is stitched onto them. The closing notices are
/// the unterminated line (only at a clean end) and the closed banner.
pub proof fn lemma_reconnect_starts_clean(s: SessionView, end: EventView, d: Seq<u8>)
    requires
        s.phase == Phase::Connected,
        end is EndOfStream || end is ReadFailed,
    ensures
        run(
            s,
            seq![end, EventView::DelayElapsed, EventView::Accepted, EventView::Received(d)],
        ) == (
            SessionView { pending: unterminated_tail(d), ..fresh_connection() },
            (if end is EndOfStream {
                last_line_notice(s.pending)
            } else {
                seq![]
            }) + seq![NoticeView::Closed, NoticeView::Established] + line_notices(
                complete_lines(d),
            ),
        ),
{
    let es = seq![end, EventView::DelayElapsed, EventView::Accepted, EventView::Received(d)];
    let s1 = SessionView { phase: Phase::Idle, pending: seq![], ..s };
    let s2 = SessionView { phase: Phase::Connecting, pending: seq![], ..s };
    let s3 = fresh_connection();
    let s4 = SessionView { pending: unterminated_tail(d), ..fresh_connection() };
    let e1 = es.drop_first();
    let e2 = e1.drop_first();
    let e3 = e2.drop_first();
    assert(e1 =~= seq![EventView::DelayElapsed, EventView::Accepted, EventView::Received(d)]);
    assert(e2 =~= seq![EventView::Accepted, EventView::Received(d)]);
    assert(e3 =~= seq![EventView::Received(d)]);
    assert(e3.drop_first() =~= Seq::<EventView>::empty());
    assert(Seq::<u8>::empty() + d =~= d);
    let lines = line_notices(complete_lines(d));
    assert(run(s4, e3.drop_first()) == (s4, Seq::<NoticeView>::empty()));
    assert(run(s3, e3) == (s4, lines + Seq::<NoticeView>::empty()));
    assert(run(s2, e2) == (s4, seq![NoticeView::Established] + (lines + Seq::<NoticeView>::empty())));
    let closing = next(s, end).1;
    assert(next(s, end).0 == s1);
    assert(next(s1, EventView::DelayElapsed).0 == s2);
    assert(run(s1, e1) == (s4, Seq::<NoticeView>::empty() + (seq![NoticeView::Established] + (
    lines + Seq::<NoticeView>::empty()))));
    assert(run(s, es) == (s4, closing + run(s1, e1).1));
    assert(closing =~= (if end is EndOfStream {
        last_line_notice(s.pending)
    } else {
        seq![]
    }) + seq![NoticeView::Closed]);
    assert(closing + (Seq::<NoticeView>::empty() + (seq![NoticeView::Established] + (lines
        + Seq::<NoticeView>::empty()))) =~= (if end is EndOfStream {
        last_line_notice(s.pending)
    } else {
        seq![]
    }) + seq![NoticeView::Closed, NoticeView::Established] + lines);
}

/// The outcome of one transition.
pub struct Step {
    pub notices: Vec<Notice>,
    pub action: Action,
}

/// The monitor's connection state.
pub struct Session {
    phase: Phase,
    waiting: bool,
    decoder: LineDecoder,
}

impl View for Session {
    type V = SessionView;

    closed spec fn view(&self) -> SessionView {
        SessionView { phase: self.phase, waiting: self.waiting, pending: self.decoder@ }
    }
}

/// Each line as a record notice.
fn into_line_notices(lines: Vec<Vec<u8>>) -> (r: Vec<Notice>)
    ensures
        notice_views(r@) == line_notices(lines.deep_view()),
{
    let mut r: Vec<Notice> = Vec::new();
    let mut i: usize = 0;
    while i < lines.len()
        invariant
            i <= lines@.len(),
            notice_views(r@) =~= line_notices(lines.deep_view().take(i as int)),
        decreases lines@.len() - i,
    {
        let line = lines[i].clone();
        proof {
            assert(line@ =~= lines@[i as int]@);
            assert(lines.deep_view()[i as int] =~= lines@[i as int]@);
            assert(lines.deep_view().take(i as int + 1) =~= lines.deep_view().take(i as int).push(
                line@,
            ));
        }
        let ghost prev = r@;
        r.push(Notice::Line(line));
        proof {
            assert(notice_views(r@) =~= notice_views(prev).push(NoticeView::Line(line@)));
            assert(line_notices(lines.deep_view().take(i as int + 1)) =~= line_notices(
                lines.deep_view().take(i as int),
            ).push(NoticeView::Line(line@)));
        }
        i = i + 1;
    }
    proof {
        assert(lines.deep_view().take(lines@.len() as int) =~= lines.deep_view());
    }
    r
}

impl Session {
    /// The unterminated line held never contains a newline.
    pub open spec fn wf(&self) -> bool {
        !self@.pending.contains(NEWLINE)
    }

    /// A monitor that has not yet tried to connect.
    pub fn new() -> (s: Session)
        ensures
            s.wf(),
            s@ == initial_state(),
    {
        Session { phase: Phase::Idle, waiting: false, decoder: LineDecoder::new() }
    }

    /// Where the connection stands.
    pub fn phase(&self) -> (p: Phase)
        ensures
            p == self@.phase,
    {
        self.phase
    }

    /// The action that the current phase asks of the driver.
    pub fn next_action(&self) -> (a: Action)
        ensures
            a == phase_action(self@.phase),
    {
        match self.phase {
            Phase::Idle => Action::Pause,
            Phase::Connecting => Action::Connect,
            Phase::Connected => Action::Read,
        }
    }

    /// Takes what the driver reports and returns the notices to show, in
    /// order, and the next action.
    pub fn step(&mut self, event: Event) -> (r: Step)
        requires
            old(self).wf(),
        ensures
            final(self).wf(),
            (final(self)@, notice_views(r.notices@), r.action) == next(old(self)@, event@),
    {
        let ghost s = self@;
        let ghost e = event@;
        let mut notices: Vec<Notice> = Vec::new();
        let action = match self.phase {
            Phase::Idle => match event {
                Event::DelayElapsed => {
                    self.phase = Phase::Connecting;
                    Action::Connect
                },
                _ => Action::Pause,
            },
            Phase::Connecting => match event {
                Event::Accepted => {
                    self.phase = Phase::Connected;
                    self.waiting = false;
                    self.decoder.discard();
                    notices.push(Notice::Established);
                    Action::Read
                },
                Event::Refused => {
                    if !self.waiting {
                        notices.push(Notice::Waiting);
                    }
                    self.phase = Phase::Idle;
                    self.waiting = true;
                    Action::Pause
                },
                Event::ConnectFailed => Action::Abort,
                _ => Action::Connect,
            },
            Phase::Connected => match event {
                Event::Received(data) => {
                    let lines = self.decoder.feed(data.as_slice());
                    notices = into_line_notices(lines);
                    Action::Read
                },
                Event::EndOfStream => {
                    if let Some(last) = self.decoder.finish() {
                        notices.push(Notice::Line(last));
                    }
                    notices.push(Notice::Closed);
                    self.phase = Phase::Idle;
                    Action::Pause
                },
                Event::ReadFailed => {
                    self.decoder.discard();
                    notices.push(Notice::Closed);
                    self.phase = Phase::Idle;
                    Action::Pause
                },
                _ => Action::Read,
            },
        };
        proof {
            assert(notice_views(notices@) =~= next(s, e).1);
        }
        Step { notices, action }
    }
}

} // verus!
