use simu::bind::{parse_bind, Bind, BindError, Protocol, DEFAULT_BIND};
use simu::frame::Kind;
use simu::route::{answer, redirect_location, route, Answer};
use simu::ReturnCode;

#[test]
fn request_without_password_is_unauthorized() {
    assert_eq!(route(false, "tmp/hello"), Err(401));
    assert_eq!(route(false, ""), Err(401));
    assert_eq!(route(false, "tmp/"), Err(401));
}

#[test]
fn path_with_trailing_slash_is_a_listing() {
    assert_eq!(route(true, "tmp/"), Ok((Kind::Dir, "tmp/")));
    assert_eq!(route(true, "/"), Ok((Kind::Dir, "/")));
}

#[test]
fn empty_path_lists_the_working_directory() {
    assert_eq!(route(true, ""), Ok((Kind::Dir, "./")));
}

#[test]
fn other_paths_are_files() {
    assert_eq!(route(true, "tmp/hello"), Ok((Kind::File, "tmp/hello")));
    assert_eq!(route(true, "tmp"), Ok((Kind::File, "tmp")));
    assert_eq!(route(true, "dir/ü"), Ok((Kind::File, "dir/ü")));
}

#[test]
fn redirect_goes_to_the_path_with_a_slash() {
    assert_eq!(redirect_location("tmp"), "/tmp/");
    assert_eq!(redirect_location("a/b"), "/a/b/");
    assert_eq!(redirect_location(""), "//");
}

#[test]
fn answers_to_the_codes() {
    assert_eq!(answer(ReturnCode::FileNotFound, "tmp/nope"), Answer::Status(404));
    assert_eq!(answer(ReturnCode::LoginFailed, "tmp/hello"), Answer::Status(401));
    assert_eq!(answer(ReturnCode::PermissionDenied, "etc/shadow"), Answer::Status(403));
    assert_eq!(answer(ReturnCode::Unknown, "x"), Answer::Status(500));
    assert_eq!(answer(ReturnCode::Panic, "x"), Answer::Status(500));
    assert_eq!(answer(ReturnCode::SignalTerm, "x"), Answer::Status(500));
    assert_eq!(answer(ReturnCode::Success, "x"), Answer::Status(500));
}

#[test]
fn directory_behind_a_file_url_redirects() {
    assert_eq!(
        answer(ReturnCode::UnexpectedType, "tmp"),
        Answer::Redirect { status: 302, location: "/tmp/".to_string() }
    );
}

#[test]
fn default_setting_is_tcp_on_all_addresses() {
    let bind = parse_bind(DEFAULT_BIND).unwrap();
    assert_eq!(bind, Bind { protocol: Protocol::Tcp, address_at: 4 });
    assert_eq!(&DEFAULT_BIND[bind.address_at..], "0.0.0.0:8080");
}

#[test]
fn unix_setting_gives_the_socket_path() {
    let setting = "unix:/run/simu.sock";
    let bind = parse_bind(setting).unwrap();
    assert_eq!(bind.protocol, Protocol::Unix);
    assert_eq!(&setting[bind.address_at..], "/run/simu.sock");
}

#[test]
fn protocol_is_read_in_any_case() {
    assert_eq!(parse_bind("TCP:h:1"), Ok(Bind { protocol: Protocol::Tcp, address_at: 4 }));
    assert_eq!(parse_bind("Unix:/s"), Ok(Bind { protocol: Protocol::Unix, address_at: 5 }));
}

#[test]
fn address_may_be_empty() {
    assert_eq!(parse_bind("tcp:"), Ok(Bind { protocol: Protocol::Tcp, address_at: 4 }));
}

#[test]
fn setting_without_colon_is_malformed() {
    assert_eq!(parse_bind(""), Err(BindError::Malformed));
    assert_eq!(parse_bind("tcp"), Err(BindError::Malformed));
    assert_eq!(parse_bind("localhost"), Err(BindError::Malformed));
}

#[test]
fn other_protocols_are_unknown() {
    assert_eq!(parse_bind("udp:0.0.0.0:1"), Err(BindError::UnknownProtocol));
    assert_eq!(parse_bind(":8080"), Err(BindError::UnknownProtocol));
    assert_eq!(parse_bind("tcp4:h:1"), Err(BindError::UnknownProtocol));
    assert_eq!(parse_bind("uni:x"), Err(BindError::UnknownProtocol));
    assert_eq!(parse_bind("t\u{107}p:x"), Err(BindError::UnknownProtocol));
}
