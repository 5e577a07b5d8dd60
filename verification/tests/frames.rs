use simu::frame::{
    build_input, build_partial_input, count_zero_bytes, frame_complete, parse_frame,
    take_cstrings, FrameError, Kind,
};

#[test]
fn partial_input_is_three_closed_fields() {
    assert_eq!(build_partial_input("alice", "pw", "/tmp/hello"), b"alice\0pw\0/tmp/hello\0".to_vec());
}

#[test]
fn partial_input_of_empty_fields() {
    assert_eq!(build_partial_input("", "", ""), vec![0u8, 0, 0]);
}

#[test]
fn partial_input_keeps_multibyte_text() {
    assert_eq!(
        build_partial_input("é", "p", "/ü"),
        vec![0xc3, 0xa9, 0, b'p', 0, b'/', 0xc3, 0xbc, 0]
    );
}

#[test]
fn file_frame_ends_in_three_byte_tag() {
    assert_eq!(
        build_input("alice", "pw", "/tmp/hello", Kind::File),
        b"alice\0pw\0/tmp/hello\0FIL\0".to_vec()
    );
}

#[test]
fn dir_frame_ends_in_dir_tag() {
    assert_eq!(build_input("alice", "pw", "/tmp", Kind::Dir), b"alice\0pw\0/tmp\0DIR\0".to_vec());
}

#[test]
fn tags_of_the_kinds() {
    assert_eq!(Kind::File.tag(), b"FIL".to_vec());
    assert_eq!(Kind::Dir.tag(), b"DIR".to_vec());
}

#[test]
fn any_tag_but_dir_is_a_file() {
    assert_eq!(Kind::of_tag(b"DIR"), Kind::Dir);
    assert_eq!(Kind::of_tag(b"FIL"), Kind::File);
    assert_eq!(Kind::of_tag(b"FILE"), Kind::File);
    assert_eq!(Kind::of_tag(b"dir"), Kind::File);
    assert_eq!(Kind::of_tag(b"DIRS"), Kind::File);
    assert_eq!(Kind::of_tag(b"DI"), Kind::File);
    assert_eq!(Kind::of_tag(b""), Kind::File);
}

#[test]
fn zero_bytes_are_counted() {
    assert_eq!(count_zero_bytes(b""), 0);
    assert_eq!(count_zero_bytes(b"abc"), 0);
    assert_eq!(count_zero_bytes(b"a\0b\0"), 2);
    assert_eq!(count_zero_bytes(b"\0\0\0\0"), 4);
}

#[test]
fn frame_is_complete_at_the_third_zero_byte() {
    assert!(!frame_complete(b""));
    assert!(!frame_complete(b"alice\0pw\0/tmp/hello"));
    assert!(frame_complete(b"alice\0pw\0/tmp/hello\0"));
    assert!(frame_complete(b"alice\0pw\0/tmp/hello\0FIL\0"));
}

#[test]
fn fields_are_split_at_zero_bytes_without_empty_ones() {
    assert_eq!(
        take_cstrings(b"alice\0pw\0/tmp\0DIR\0"),
        vec![b"alice".to_vec(), b"pw".to_vec(), b"/tmp".to_vec(), b"DIR".to_vec()]
    );
    assert_eq!(take_cstrings(b"\0\0a\0\0b"), vec![b"a".to_vec(), b"b".to_vec()]);
    assert_eq!(take_cstrings(b""), Vec::<Vec<u8>>::new());
    assert_eq!(take_cstrings(b"\0\0\0"), Vec::<Vec<u8>>::new());
    assert_eq!(take_cstrings(b"tail"), vec![b"tail".to_vec()]);
}

#[test]
fn file_request_is_read_from_its_frame() {
    let request = parse_frame(b"alice\0pw\0/tmp/hello\0FIL\0").unwrap();
    assert_eq!(request.username, b"alice".to_vec());
    assert_eq!(request.password, b"pw".to_vec());
    assert_eq!(request.path, b"/tmp/hello".to_vec());
    assert_eq!(request.kind, Kind::File);
    assert_eq!(request.surplus, 0);
}

#[test]
fn dir_request_is_read_from_its_frame() {
    let request = parse_frame(b"alice\0pw\0/tmp\0DIR\0").unwrap();
    assert_eq!(request.path, b"/tmp".to_vec());
    assert_eq!(request.kind, Kind::Dir);
}

#[test]
fn built_frames_are_read_back() {
    for kind in [Kind::File, Kind::Dir] {
        let frame = build_input("bob", "s3cret", "docs/", kind);
        let request = parse_frame(&frame).unwrap();
        assert_eq!(request.username, b"bob".to_vec());
        assert_eq!(request.password, b"s3cret".to_vec());
        assert_eq!(request.path, b"docs/".to_vec());
        assert_eq!(request.kind, kind);
        assert_eq!(request.surplus, 0);
    }
}

#[test]
fn frame_padded_with_zero_bytes_is_read() {
    let mut buf = b"alice\0pw\0/tmp\0DIR\0".to_vec();
    buf.resize(4096, 0);
    let request = parse_frame(&buf).unwrap();
    assert_eq!(request.kind, Kind::Dir);
    assert_eq!(request.surplus, 0);
}

#[test]
fn surplus_fields_are_counted_and_left_aside() {
    let request = parse_frame(b"u\0p\0/x\0DIR\0more\0and more\0").unwrap();
    assert_eq!(request.username, b"u".to_vec());
    assert_eq!(request.path, b"/x".to_vec());
    assert_eq!(request.kind, Kind::Dir);
    assert_eq!(request.surplus, 2);
}

#[test]
fn frame_with_fewer_than_three_zero_bytes_is_incomplete() {
    assert_eq!(parse_frame(b""), Err(FrameError::Incomplete));
    assert_eq!(parse_frame(b"alice\0pw\0/tmp/hello"), Err(FrameError::Incomplete));
    assert_eq!(parse_frame(b"a\0b\0c"), Err(FrameError::Incomplete));
}

#[test]
fn frame_with_fewer_than_three_fields_is_refused() {
    assert_eq!(parse_frame(b"\0\0\0"), Err(FrameError::TooFewFields));
    assert_eq!(parse_frame(b"alice\0\0\0"), Err(FrameError::TooFewFields));
    assert_eq!(parse_frame(b"alice\0pw\0\0"), Err(FrameError::TooFewFields));
}

#[test]
fn frame_without_tag_is_refused() {
    assert_eq!(parse_frame(b"alice\0pw\0/tmp\0"), Err(FrameError::MissingTag));
    assert_eq!(parse_frame(b"alice\0pw\0/tmp\0\0"), Err(FrameError::MissingTag));
}

#[test]
fn empty_password_shifts_the_fields() {
    let request = parse_frame(b"alice\0\0/tmp\0DIR\0x\0").unwrap();
    assert_eq!(request.username, b"alice".to_vec());
    assert_eq!(request.password, b"/tmp".to_vec());
    assert_eq!(request.path, b"DIR".to_vec());
    assert_eq!(request.kind, Kind::File);
}
