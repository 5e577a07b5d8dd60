use simu::frame::{build_input, parse_frame, Kind};
use simu::pump::{handshake_result, Outcome, PumpAction, PumpState, Verdict};
use simu::route::{answer, route, Answer};
use simu::session::{Action, Fault, Reply, Session};
use simu::{Directory, DirectoryEntry};

/// What a helper did: the bytes it wrote and the status it left with.
struct HelperRun {
    written: Vec<u8>,
    status: i32,
}

/// Runs a helper whose system answers as `world` says.
fn run_helper(frame: &[u8], safeguard: bool, world: &World) -> HelperRun {
    let request = parse_frame(frame).unwrap();
    let mut session = Session::start(&request.username, request.kind, safeguard);
    let mut written = Vec::new();
    let mut offset = 0;
    let mut last_read = Vec::new();
    loop {
        let reply = match session.action() {
            Action::Elevate => Reply::Done,
            Action::Authenticate => {
                if request.password == world.password {
                    Reply::Done
                } else {
                    Reply::Rejected
                }
            }
            Action::ResolveUser => Reply::Resolved { uid: 1000, gid: 1000 },
            Action::SetGroup { .. } | Action::ClearGroups | Action::InitGroups { .. } => Reply::Done,
            Action::SetUser { .. } => Reply::Done,
            Action::ProbeRoot => Reply::Failed(Fault::PermissionDenied),
            Action::ListDirectory => match &world.listing {
                Some(_) => Reply::Done,
                None => Reply::Failed(Fault::NotFound),
            },
            Action::WriteListing => {
                written.extend_from_slice(&world.listing.as_ref().unwrap().encode());
                Reply::Done
            }
            Action::OpenFile => match (&world.file, &world.listing) {
                (Some(_), _) => Reply::Opened { is_dir: false },
                (None, Some(_)) => Reply::Opened { is_dir: true },
                (None, None) => Reply::Failed(Fault::NotFound),
            },
            Action::ReadChunk => {
                let file = world.file.as_ref().unwrap();
                let end = file.len().min(offset + 4096);
                last_read = file[offset..end].to_vec();
                offset = end;
                Reply::Read(last_read.len())
            }
            Action::WriteChunk { len } => {
                written.extend_from_slice(&last_read[..len]);
                Reply::Done
            }
            Action::Exit(code) => return HelperRun { written, status: code.exit_code() },
            Action::Abort(_) => return HelperRun { written, status: 101 },
        };
        session = session.step(reply);
    }
}

/// What the system holds at the requested path, and the password it accepts.
struct World {
    password: Vec<u8>,
    file: Option<Vec<u8>>,
    listing: Option<Directory>,
}

/// What the client gets: a status and the body, or the answer to a failure.
#[derive(Debug, PartialEq)]
enum Response {
    Body(Vec<u8>),
    Failure(Answer),
}

/// Runs the supervisor's worker against a helper that behaved as `helper`.
fn supervise(helper: &HelperRun, filepath: &str) -> Response {
    let mut state = PumpState::new();
    let mut verdict = None;
    let mut body = Vec::new();
    let mut sent = 0;
    loop {
        let outcome = match state.action() {
            PumpAction::Spawn | PumpAction::WriteFrame => Outcome::Done,
            PumpAction::ReadOutput => Outcome::Read((helper.written.len() - sent).min(65536)),
            PumpAction::SendVerdict(v) => {
                assert!(verdict.is_none());
                assert!(body.is_empty());
                verdict = Some(v);
                Outcome::Done
            }
            PumpAction::Forward { len } => {
                assert_eq!(verdict, Some(Verdict::Payload));
                body.extend_from_slice(&helper.written[sent..sent + len]);
                sent += len;
                Outcome::Done
            }
            PumpAction::SendSentinel | PumpAction::CloseData | PumpAction::CloseOutput => {
                Outcome::Done
            }
            PumpAction::ReadLog => Outcome::Read(0),
            PumpAction::Wait => Outcome::Exited(Some(helper.status)),
            PumpAction::Stop => break,
        };
        state = state.step(outcome);
    }
    match handshake_result(verdict) {
        Ok(()) => Response::Body(body),
        Err(err) => Response::Failure(answer(err.code, filepath)),
    }
}

fn serve(user: &str, password: &str, url_path: &str, world: &World) -> (HelperRun, Response) {
    let (kind, path) = route(true, url_path).unwrap();
    let frame = build_input(user, password, path, kind);
    let helper = run_helper(&frame, false, world);
    let response = supervise(&helper, url_path);
    (helper, response)
}

#[test]
fn scenario_success_small_file() {
    let world = World { password: b"pw".to_vec(), file: Some(b"hi\n".to_vec()), listing: None };
    assert_eq!(
        build_input("alice", "pw", "/tmp/hello", Kind::File),
        b"alice\0pw\0/tmp/hello\0FIL\0".to_vec()
    );
    let (helper, response) = serve("alice", "pw", "/tmp/hello", &world);
    assert_eq!(helper.status, 0);
    assert_eq!(helper.written, b"hi\n".to_vec());
    assert_eq!(response, Response::Body(b"hi\n".to_vec()));
}

#[test]
fn scenario_large_file_arrives_whole_and_in_order() {
    let content: Vec<u8> = (0..200_000u32).map(|i| (i % 251) as u8).collect();
    let world = World { password: b"pw".to_vec(), file: Some(content.clone()), listing: None };
    let (helper, response) = serve("alice", "pw", "/tmp/big", &world);
    assert_eq!(helper.status, 0);
    assert_eq!(response, Response::Body(content));
}

#[test]
fn scenario_bad_password() {
    let world = World { password: b"pw".to_vec(), file: Some(b"hi\n".to_vec()), listing: None };
    let (helper, response) = serve("alice", "WRONG", "/tmp/hello", &world);
    assert_eq!(helper.status, 2);
    assert!(helper.written.is_empty());
    assert_eq!(response, Response::Failure(Answer::Status(401)));
}

#[test]
fn scenario_not_found() {
    let world = World { password: b"pw".to_vec(), file: None, listing: None };
    let (helper, response) = serve("alice", "pw", "/tmp/nope", &world);
    assert_eq!(helper.status, 1);
    assert_eq!(response, Response::Failure(Answer::Status(404)));
}

#[test]
fn scenario_directory_hit_via_file_url() {
    let world = World { password: b"pw".to_vec(), file: None, listing: Some(Directory(Vec::new())) };
    let (helper, response) = serve("alice", "pw", "tmp", &world);
    assert_eq!(helper.status, 3);
    assert_eq!(
        response,
        Response::Failure(Answer::Redirect { status: 302, location: "/tmp/".to_string() })
    );
}

#[test]
fn scenario_directory_listing() {
    let listing = Directory(vec![
        DirectoryEntry::new("a".to_string(), false),
        DirectoryEntry::new("b".to_string(), true),
    ]);
    let world = World { password: b"pw".to_vec(), file: None, listing: Some(listing.clone()) };
    let frame = build_input("alice", "pw", "/tmp", Kind::Dir);
    assert_eq!(frame, b"alice\0pw\0/tmp\0DIR\0".to_vec());
    let helper = run_helper(&frame, false, &world);
    assert_eq!(helper.status, 0);
    let Response::Body(body) = supervise(&helper, "/tmp/") else {
        panic!("the listing was not served");
    };
    let decoded = Directory::decode(&body).unwrap();
    assert_eq!(decoded, listing);
    assert_eq!(decoded.0[0].name(), "a");
    assert!(!decoded.0[0].is_dir());
    assert_eq!(decoded.0[1].name(), "b/");
    assert!(decoded.0[1].is_dir());
}

#[test]
fn scenario_root_refused() {
    let world = World { password: b"pw".to_vec(), file: Some(b"secret".to_vec()), listing: None };
    let frame = b"root\0pw\0/etc/shadow\0FIL\0";
    let helper = run_helper(frame, true, &world);
    assert_eq!(helper.status, 101);
    assert!(helper.written.is_empty());
    assert_eq!(supervise(&helper, "etc/shadow"), Response::Failure(Answer::Status(500)));
}

#[test]
fn scenario_empty_file_is_a_failure_without_payload() {
    let world = World { password: b"pw".to_vec(), file: Some(Vec::new()), listing: None };
    let (helper, response) = serve("alice", "pw", "/tmp/empty", &world);
    assert_eq!(helper.status, 0);
    assert_eq!(response, Response::Failure(Answer::Status(500)));
}
