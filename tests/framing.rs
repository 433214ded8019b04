use rttmon::framing::LineDecoder;

#[test]
fn feed_splits_complete_lines() {
    let mut d = LineDecoder::new();
    let lines = d.feed(b"hello\nworld\n");
    assert_eq!(lines, vec![b"hello".to_vec(), b"world".to_vec()]);
    assert_eq!(d.finish(), None);
}

#[test]
fn feed_keeps_unterminated_tail_for_next_read() {
    let mut d = LineDecoder::new();
    assert_eq!(d.feed(b"hel"), Vec::<Vec<u8>>::new());
    assert_eq!(d.feed(b"lo\nwo"), vec![b"hello".to_vec()]);
    assert_eq!(d.feed(b"rld\n"), vec![b"world".to_vec()]);
    assert_eq!(d.finish(), None);
}

#[test]
fn feed_byte_by_byte_gives_same_lines() {
    let stream = b"one\ntwo\n\nthree\n";
    let mut whole = LineDecoder::new();
    let expected = whole.feed(stream);
    let mut d = LineDecoder::new();
    let mut got = Vec::new();
    for b in stream.iter() {
        got.extend(d.feed(&[*b]));
    }
    assert_eq!(got, expected);
    assert_eq!(
        got,
        vec![b"one".to_vec(), b"two".to_vec(), b"".to_vec(), b"three".to_vec()]
    );
}

#[test]
fn empty_line_is_a_line() {
    let mut d = LineDecoder::new();
    assert_eq!(d.feed(b"\n"), vec![Vec::<u8>::new()]);
}

#[test]
fn carriage_return_stays_in_the_line() {
    let mut d = LineDecoder::new();
    assert_eq!(d.feed(b"a\r\n"), vec![b"a\r".to_vec()]);
}

#[test]
fn finish_returns_unterminated_line_once() {
    let mut d = LineDecoder::new();
    assert_eq!(d.feed(b"done\npartial"), vec![b"done".to_vec()]);
    assert_eq!(d.finish(), Some(b"partial".to_vec()));
    assert_eq!(d.finish(), None);
}

#[test]
fn discard_forgets_unterminated_line() {
    let mut d = LineDecoder::new();
    assert_eq!(d.feed(b"stale"), Vec::<Vec<u8>>::new());
    d.discard();
    assert_eq!(d.feed(b"fresh\n"), vec![b"fresh".to_vec()]);
}

#[test]
fn empty_read_yields_nothing() {
    let mut d = LineDecoder::new();
    assert_eq!(d.feed(b""), Vec::<Vec<u8>>::new());
    assert_eq!(d.finish(), None);
}
