use minigrep::buffer_lines_iterator::BufferLinesIterator;

fn collect_lines(input: &[u8]) -> Vec<Vec<u8>> {
    let mut reader = BufferLinesIterator::new(input.to_vec());
    let mut lines: Vec<Vec<u8>> = Vec::new();
    loop {
        match reader.next() {
            Some(rec) => lines.push(rec),
            None => break,
        }
    }
    lines
}

#[test]
fn reader_keeps_trailing_newlines() {
    let lines = collect_lines(b"one\ntwo\n");
    assert_eq!(lines, vec![b"one\n".to_vec(), b"two\n".to_vec()]);
}

#[test]
fn reader_final_record_may_lack_newline() {
    let lines = collect_lines(b"one\ntwo");
    assert_eq!(lines, vec![b"one\n".to_vec(), b"two".to_vec()]);
}

#[test]
fn reader_empty_stream_yields_nothing() {
    let lines = collect_lines(b"");
    assert_eq!(lines.len(), 0);
}

#[test]
fn reader_blank_lines_are_records() {
    let lines = collect_lines(b"\n\na\n");
    assert_eq!(lines, vec![b"\n".to_vec(), b"\n".to_vec(), b"a\n".to_vec()]);
}

#[test]
fn reader_stays_exhausted() {
    let mut reader = BufferLinesIterator::new(b"a".to_vec());
    assert_eq!(reader.next(), Some(b"a".to_vec()));
    assert_eq!(reader.next(), None);
    assert_eq!(reader.next(), None);
}
