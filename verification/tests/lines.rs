use vrc_tail::lines::take_complete_lines;

#[test]
fn complete_lines_are_taken_and_the_rest_is_kept() {
    let mut buffer = b"first\r\nsecond\n\nthird".to_vec();
    let lines = take_complete_lines(&mut buffer);
    assert_eq!(lines, vec![b"first".to_vec(), b"second".to_vec(), Vec::new()]);
    assert_eq!(buffer, b"third".to_vec());
    buffer.extend_from_slice(b" part\r\r\n");
    let lines = take_complete_lines(&mut buffer);
    assert_eq!(lines, vec![b"third part\r".to_vec()]);
    assert!(buffer.is_empty());
}

#[test]
fn no_line_break_takes_nothing() {
    let mut buffer = b"partial".to_vec();
    assert!(take_complete_lines(&mut buffer).is_empty());
    assert_eq!(buffer, b"partial".to_vec());
}
