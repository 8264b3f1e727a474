use vibe_core::proc::line_splitter::LineSplitter;

#[test]
fn splits_on_lf() {
    let mut s = LineSplitter::new();
    assert_eq!(s.feed(b"hello\nworld\n"), vec!["hello", "world"]);
}

#[test]
fn splits_on_bare_cr_progress_bar() {
    let mut s = LineSplitter::new();
    assert_eq!(
        s.feed(b"Downloading  10%\rDownloading  20%\rDownloading  30%\n"),
        vec!["Downloading  10%", "Downloading  20%", "Downloading  30%"]
    );
}

#[test]
fn crlf_pair_is_one_break() {
    let mut s = LineSplitter::new();
    assert_eq!(s.feed(b"a\r\nb\r\n"), vec!["a", "b"]);
}

#[test]
fn partial_line_buffered_until_finish() {
    let mut s = LineSplitter::new();
    assert_eq!(s.feed(b"partial"), Vec::<String>::new());
    assert_eq!(s.finish(), Some("partial".to_string()));
}

#[test]
fn finish_on_clean_eof_is_none() {
    let mut s = LineSplitter::new();
    assert_eq!(s.feed(b"complete\n"), vec!["complete"]);
    assert_eq!(s.finish(), None);
}

#[test]
fn feed_across_chunk_boundaries() {
    let mut s = LineSplitter::new();
    assert_eq!(s.feed(b"hel"), Vec::<String>::new());
    assert_eq!(s.feed(b"lo\nwor"), vec!["hello"]);
    assert_eq!(s.feed(b"ld\n"), vec!["world"]);
}

#[test]
fn crlf_split_across_chunks() {
    let mut s = LineSplitter::new();
    assert_eq!(s.feed(b"a\r"), vec!["a"]);
    assert_eq!(s.feed(b"\nb\r\n"), vec!["b"]);
}

#[test]
fn invalid_utf8_is_replaced_not_dropped() {
    let mut s = LineSplitter::new();
    assert_eq!(s.feed(b"a\xffb\n"), vec!["a\u{FFFD}b"]);
}

#[test]
fn the_same_bytes_in_any_chunking_give_the_same_lines() {
    let mut whole = LineSplitter::new();
    let all = whole.feed(b"x\r\ny\rz\n");
    let mut parts = LineSplitter::new();
    let mut got = parts.feed(b"x\r");
    got.extend(parts.feed(b"\ny"));
    got.extend(parts.feed(b"\rz\n"));
    assert_eq!(all, got);
}
