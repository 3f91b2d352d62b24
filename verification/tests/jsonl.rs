use ton_api_utility::utils::{frame_lines, split_lines};

fn lines_of_text(lines: &[&str]) -> Vec<Vec<u8>> {
    lines.iter().map(|l| l.as_bytes().to_vec()).collect()
}

#[test]
fn frames_each_line_with_a_newline() {
    let data = frame_lines(&lines_of_text(&["{\"a\":1}", "{\"b\":2}"]));
    assert_eq!(data, b"{\"a\":1}\n{\"b\":2}\n".to_vec());
}

#[test]
fn frames_nothing_as_empty_file() {
    assert_eq!(frame_lines(&Vec::new()), Vec::<u8>::new());
    assert_eq!(frame_lines(&lines_of_text(&[""])), b"\n".to_vec());
}

#[test]
fn splits_at_newlines() {
    assert_eq!(split_lines(b"one\ntwo\nthree\n"), lines_of_text(&["one", "two", "three"]));
}

#[test]
fn split_keeps_last_line_without_newline() {
    assert_eq!(split_lines(b"one\ntwo"), lines_of_text(&["one", "two"]));
    assert_eq!(split_lines(b"one"), lines_of_text(&["one"]));
}

#[test]
fn split_drops_carriage_return_before_newline() {
    assert_eq!(split_lines(b"one\r\ntwo\r\n"), lines_of_text(&["one", "two"]));
    assert_eq!(split_lines(b"one\r\r\n"), lines_of_text(&["one\r"]));
    assert_eq!(split_lines(b"one\rtwo\n"), lines_of_text(&["one\rtwo"]));
    assert_eq!(split_lines(b"one\ntwo\r"), lines_of_text(&["one", "two\r"]));
    assert_eq!(split_lines(b"\r\n"), lines_of_text(&[""]));
}

#[test]
fn split_keeps_empty_lines() {
    assert_eq!(split_lines(b""), Vec::<Vec<u8>>::new());
    assert_eq!(split_lines(b"\n"), lines_of_text(&[""]));
    assert_eq!(split_lines(b"\n\n"), lines_of_text(&["", ""]));
    assert_eq!(split_lines(b"a\n\nb\n"), lines_of_text(&["a", "", "b"]));
}

#[test]
fn split_agrees_with_std_lines() {
    let texts = ["", "a", "a\n", "a\r\n", "a\nb", "\n\na\r\n\r\nb\r", "x\r\ny\n\nz"];
    for text in texts {
        let expected: Vec<Vec<u8>> =
            std::io::BufRead::lines(text.as_bytes()).map(|l| l.unwrap().into_bytes()).collect();
        assert_eq!(split_lines(text.as_bytes()), expected);
    }
}

#[test]
fn split_gives_framed_lines_back() {
    let lines = lines_of_text(&["{\"id\":1}", "", "{\"text\":\"a\\nb\"}", "tail"]);
    assert_eq!(split_lines(&frame_lines(&lines)), lines);
}
