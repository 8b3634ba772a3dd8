use dawmcp::pipe::{
    command_payload, read_path, reply_from_lines, write_path, ReplyProgress, ReplyReader,
    WINDOWS_READ_PIPE, WINDOWS_WRITE_PIPE,
};

#[test]
fn fifo_paths_carry_the_uid() {
    assert_eq!(write_path(1000), "/tmp/audacity_script_pipe.to.1000");
    assert_eq!(read_path(0), "/tmp/audacity_script_pipe.from.0");
    assert_eq!(read_path(4294967295), "/tmp/audacity_script_pipe.from.4294967295");
    assert_eq!(WINDOWS_WRITE_PIPE, r"\\.\pipe\ToSrvPipe");
    assert_eq!(WINDOWS_READ_PIPE, r"\\.\pipe\FromSrvPipe");
}

#[test]
fn commands_are_terminated_per_platform() {
    assert_eq!(command_payload("Play", false), "Play\n");
    assert_eq!(command_payload("Play", true), "Play\r\n\0");
}

#[test]
fn reply_reader_collects_until_blank_line() {
    let mut reader = ReplyReader::new();
    assert!(matches!(reader.feed("BatchCommand finished: OK\n", 26), ReplyProgress::NeedMore));
    assert!(matches!(reader.feed("second\n", 7), ReplyProgress::NeedMore));
    match reader.feed("\n", 1) {
        ReplyProgress::Complete(m) => assert_eq!(m, "BatchCommand finished: OK\nsecond\n"),
        other => panic!("unexpected {other:?}"),
    }
    let mut closed = ReplyReader::new();
    assert!(matches!(closed.feed("", 0), ReplyProgress::Closed));
    assert_eq!(ReplyReader::closed_message(), "Audacity pipe closed (it may have crashed)");
}

#[test]
fn reply_from_lines_concatenates() {
    let lines: Vec<String> = vec!["a\n".into(), "b\n".into(), "\n".into(), "c\n".into()];
    assert_eq!(reply_from_lines(&lines).unwrap(), "a\nb\n");
    let unterminated: Vec<String> = vec!["a\n".into(), "".into()];
    assert_eq!(reply_from_lines(&unterminated).unwrap_err(), "Audacity pipe closed (it may have crashed)");
    assert_eq!(reply_from_lines(&vec!["\n".to_string()]).unwrap(), "");
}
