use rttmon::session::{Action, Event, Notice, Phase, Session};

fn line(s: &str) -> Notice {
    Notice::Line(s.as_bytes().to_vec())
}

fn connect(s: &mut Session) {
    assert_eq!(s.step(Event::DelayElapsed).action, Action::Connect);
    let st = s.step(Event::Accepted);
    assert_eq!(st.notices, vec![Notice::Established]);
    assert_eq!(st.action, Action::Read);
}

#[test]
fn new_session_pauses_first() {
    let s = Session::new();
    assert_eq!(s.phase(), Phase::Idle);
    assert_eq!(s.next_action(), Action::Pause);
}

#[test]
fn hello_world_then_close_loops_back() {
    let mut s = Session::new();
    let mut shown = Vec::new();
    let st = s.step(Event::DelayElapsed);
    assert_eq!(st.action, Action::Connect);
    let st = s.step(Event::Accepted);
    shown.extend(st.notices);
    let st = s.step(Event::Received(b"hello\nworld\n".to_vec()));
    assert_eq!(st.action, Action::Read);
    shown.extend(st.notices);
    let st = s.step(Event::EndOfStream);
    shown.extend(st.notices);
    assert_eq!(
        shown,
        vec![Notice::Established, line("hello"), line("world"), Notice::Closed]
    );
    assert_eq!(st.action, Action::Pause);
    assert_eq!(s.phase(), Phase::Idle);
    assert_eq!(s.step(Event::DelayElapsed).action, Action::Connect);
}

#[test]
fn refused_three_times_shows_one_waiting_notice() {
    let mut s = Session::new();
    let mut shown = Vec::new();
    for _ in 0..3 {
        assert_eq!(s.step(Event::DelayElapsed).action, Action::Connect);
        let st = s.step(Event::Refused);
        assert_eq!(st.action, Action::Pause);
        shown.extend(st.notices);
    }
    assert_eq!(s.step(Event::DelayElapsed).action, Action::Connect);
    shown.extend(s.step(Event::Accepted).notices);
    shown.extend(s.step(Event::Received(b"ready\n".to_vec())).notices);
    assert_eq!(
        shown,
        vec![Notice::Waiting, Notice::Established, line("ready")]
    );
}

#[test]
fn waiting_notice_shows_again_after_a_connection() {
    let mut s = Session::new();
    s.step(Event::DelayElapsed);
    assert_eq!(s.step(Event::Refused).notices, vec![Notice::Waiting]);
    connect(&mut s);
    assert_eq!(s.step(Event::ReadFailed).notices, vec![Notice::Closed]);
    s.step(Event::DelayElapsed);
    assert_eq!(s.step(Event::Refused).notices, vec![Notice::Waiting]);
    s.step(Event::DelayElapsed);
    assert_eq!(s.step(Event::Refused).notices, Vec::new());
}

#[test]
fn unterminated_last_line_is_delivered_at_end_of_stream() {
    let mut s = Session::new();
    connect(&mut s);
    let st = s.step(Event::Received(b"first\nlast".to_vec()));
    assert_eq!(st.notices, vec![line("first")]);
    let st = s.step(Event::EndOfStream);
    assert_eq!(st.notices, vec![line("last"), Notice::Closed]);
}

#[test]
fn unterminated_line_is_dropped_on_read_failure() {
    let mut s = Session::new();
    connect(&mut s);
    assert_eq!(s.step(Event::Received(b"cut".to_vec())).notices, Vec::new());
    assert_eq!(s.step(Event::ReadFailed).notices, vec![Notice::Closed]);
}

#[test]
fn restart_does_not_stitch_stale_bytes() {
    let mut s = Session::new();
    connect(&mut s);
    assert_eq!(s.step(Event::Received(b"stale".to_vec())).notices, Vec::new());
    assert_eq!(s.step(Event::ReadFailed).notices, vec![Notice::Closed]);
    connect(&mut s);
    let st = s.step(Event::Received(b"new\n".to_vec()));
    assert_eq!(st.notices, vec![line("new")]);
}

#[test]
fn lines_split_across_reads_keep_count_and_order() {
    let mut s = Session::new();
    connect(&mut s);
    let mut shown = Vec::new();
    for chunk in [&b"a\nb"[..], b"b\nc", b"cc\n", b"d\n"] {
        shown.extend(s.step(Event::Received(chunk.to_vec())).notices);
    }
    assert_eq!(shown, vec![line("a"), line("bb"), line("ccc"), line("d")]);
}

#[test]
fn other_connect_failure_aborts() {
    let mut s = Session::new();
    s.step(Event::DelayElapsed);
    let st = s.step(Event::ConnectFailed);
    assert_eq!(st.action, Action::Abort);
    assert!(st.notices.is_empty());
}

#[test]
fn out_of_phase_event_changes_nothing() {
    let mut s = Session::new();
    let st = s.step(Event::Received(b"x\n".to_vec()));
    assert!(st.notices.is_empty());
    assert_eq!(st.action, Action::Pause);
    assert_eq!(s.phase(), Phase::Idle);
    connect(&mut s);
    let st = s.step(Event::Refused);
    assert!(st.notices.is_empty());
    assert_eq!(st.action, Action::Read);
    assert_eq!(s.phase(), Phase::Connected);
}
