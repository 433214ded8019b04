//! Where each notice goes: everything to the console, records also to the log.
use vstd::prelude::*;

use crate::clock::ClockTime;
use crate::render::{format_record, record_text};
use crate::session::{Notice, NoticeView};

verus! {

/// One console line, colours aside: a record, or a marker (a banner or the
/// waiting notice) for any other notice.
pub enum ConsoleEntry {
    Record(Seq<u8>),
    Marker(NoticeView),
}

/// The console line of notice `n`, shown at time `t`.
pub open spec fn console_entry(n: NoticeView, t: ClockTime) -> ConsoleEntry {
    match n {
        NoticeView::Line(l) => ConsoleEntry::Record(record_text(t, l)),
        _ => ConsoleEntry::Marker(n),
    }
}

/// What notice `n`, shown at time `t`, adds to the log: its record, if it is
/// a line; banners and the waiting notice stay off the log.
pub open spec fn log_entry(n: NoticeView, t: ClockTime) -> Option<Seq<u8>> {
    match n {
        NoticeView::Line(l) => Some(record_text(t, l)),
        _ => None,
    }
}

/// The console lines of a series of notices, the `i`-th shown at `ts[i]`.
pub open spec fn console_lines(ns: Seq<NoticeView>, ts: Seq<ClockTime>) -> Seq<ConsoleEntry> {
    Seq::new(ns.len(), |i: int| console_entry(ns[i], ts[i]))
}

/// The log lines of a series of notices, the `i`-th shown at `ts[i]`.
pub open spec fn log_lines(ns: Seq<NoticeView>, ts: Seq<ClockTime>) -> Seq<Seq<u8>>
    decreases ns.len(),
{
    if ns.len() == 0 {
        seq![]
    } else {
        let before = log_lines(ns.drop_last(), ts.take(ns.len() - 1));
        match log_entry(ns.last(), ts[ns.len() - 1]) {
            Some(r) => before.push(r),
            None => before,
        }
    }
}

/// The records among console lines, in order.
pub open spec fn records(es: Seq<ConsoleEntry>) -> Seq<Seq<u8>>
    decreases es.len(),
{
    if es.len() == 0 {
        seq![]
    } else {
        match es.last() {
            ConsoleEntry::Record(r) => records(es.drop_last()).push(r),
            ConsoleEntry::Marker(_) => records(es.drop_last()),
        }
    }
}

/// The log holds exactly the records shown on the console, each once and in
/// the console's order; nothing else reaches it.
pub proof fn lemma_log_is_console_records(ns: Seq<NoticeView>, ts: Seq<ClockTime>)
    requires
        ts.len() == ns.len(),
    ensures
        log_lines(ns, ts) == records(console_lines(ns, ts)),
    decreases ns.len(),
{
    if ns.len() > 0 {
        let k = ns.len() - 1;
        lemma_log_is_console_records(ns.drop_last(), ts.take(k));
        assert(console_lines(ns, ts).drop_last() =~= console_lines(ns.drop_last(), ts.take(k)));
        assert(console_lines(ns, ts).last() == console_entry(ns.last(), ts[k]));
    }
}

/// The log line of a notice shown at `t`: its record, if it is a line.
pub fn log_record(n: &Notice, t: &ClockTime) -> (r: Option<Vec<u8>>)
    requires
        t.wf(),
    ensures
        r matches Some(v) ==> log_entry(n@, *t) == Some(v@),
        r is None ==> log_entry(n@, *t) is None,
{
    match n {
        Notice::Line(l) => Some(format_record(t, l.as_slice())),
        _ => None,
    }
}

} // verus!
