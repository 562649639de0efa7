use righter::lsp::transport::{
    decimal_string, frame_header, header_line, parse_usize, trim, HeaderAction, HeaderLine, HeaderState,
    TransportError,
};

#[test]
fn header_lines() {
    assert_eq!(header_line("Content-Length: 42\r\n"), HeaderLine::ContentLength(42));
    assert_eq!(header_line("Content-Type: application/vscode-jsonrpc\r\n"), HeaderLine::Other);
    assert_eq!(header_line("\r\n"), HeaderLine::End);
    assert_eq!(header_line("Content-Length: x\r\n"), HeaderLine::BadLength);
}

#[test]
fn header_block_gives_body_length() {
    let mut st = HeaderState::new();
    assert_eq!(st.step(Some("Content-Length: 17\r\n")), HeaderAction::ReadLine);
    assert_eq!(st.step(Some("Content-Type: x\r\n")), HeaderAction::ReadLine);
    assert_eq!(st.step(Some("\r\n")), HeaderAction::ReadBody(17));
}

#[test]
fn header_block_errors() {
    let mut st = HeaderState::new();
    assert_eq!(st.step(Some("\r\n")), HeaderAction::Fail(TransportError::MissingLength));
    let mut st = HeaderState::new();
    assert_eq!(st.step(None), HeaderAction::Fail(TransportError::Closed));
    let mut st = HeaderState::new();
    assert_eq!(st.step(Some("Content-Length: -3\r\n")), HeaderAction::Fail(TransportError::BadLength));
}

#[test]
fn frame_header_reads_back() {
    let h = frame_header(1234);
    assert_eq!(h, "Content-Length: 1234\r\n\r\n");
    let mut st = HeaderState::new();
    let mut lines = h.split_inclusive('\n');
    assert_eq!(st.step(lines.next()), HeaderAction::ReadLine);
    assert_eq!(st.step(lines.next()), HeaderAction::ReadBody(1234));
}

#[test]
fn usize_parsing() {
    assert_eq!(parse_usize("0"), Some(0));
    assert_eq!(parse_usize("+15"), Some(15));
    assert_eq!(parse_usize("18446744073709551615"), Some(usize::MAX));
    assert_eq!(parse_usize("18446744073709551616"), None);
    assert_eq!(parse_usize(""), None);
    assert_eq!(parse_usize("+"), None);
    assert_eq!(parse_usize("1 2"), None);
    assert_eq!(parse_usize("-1"), None);
}

#[test]
fn trim_whitespace() {
    assert_eq!(trim("  a b \t\r\n"), "a b");
    assert_eq!(trim("\u{a0}x\u{2003}"), "x");
    assert_eq!(trim(" \n "), "");
}

#[test]
fn decimal_numerals() {
    assert_eq!(decimal_string(0), "0");
    assert_eq!(decimal_string(907), "907");
    assert_eq!(decimal_string(u64::MAX), u64::MAX.to_string());
}
