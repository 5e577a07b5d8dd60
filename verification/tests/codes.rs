use simu::code::{status_of_exit, ReturnCode};
use simu::SimuError;

const ALL: [ReturnCode; 8] = [
    ReturnCode::Success,
    ReturnCode::FileNotFound,
    ReturnCode::LoginFailed,
    ReturnCode::UnexpectedType,
    ReturnCode::PermissionDenied,
    ReturnCode::SignalTerm,
    ReturnCode::Panic,
    ReturnCode::Unknown,
];

#[test]
fn exit_codes_are_as_tabulated() {
    assert_eq!(ReturnCode::Success.exit_code(), 0);
    assert_eq!(ReturnCode::FileNotFound.exit_code(), 1);
    assert_eq!(ReturnCode::LoginFailed.exit_code(), 2);
    assert_eq!(ReturnCode::UnexpectedType.exit_code(), 3);
    assert_eq!(ReturnCode::PermissionDenied.exit_code(), 4);
    assert_eq!(ReturnCode::SignalTerm.exit_code(), 99);
    assert_eq!(ReturnCode::Panic.exit_code(), 101);
    assert_eq!(ReturnCode::Unknown.exit_code(), 1000);
}

#[test]
fn from_code_reads_each_defined_status() {
    assert_eq!(ReturnCode::from_code(0), ReturnCode::Success);
    assert_eq!(ReturnCode::from_code(1), ReturnCode::FileNotFound);
    assert_eq!(ReturnCode::from_code(2), ReturnCode::LoginFailed);
    assert_eq!(ReturnCode::from_code(3), ReturnCode::UnexpectedType);
    assert_eq!(ReturnCode::from_code(4), ReturnCode::PermissionDenied);
    assert_eq!(ReturnCode::from_code(99), ReturnCode::SignalTerm);
    assert_eq!(ReturnCode::from_code(101), ReturnCode::Panic);
    assert_eq!(ReturnCode::from_code(1000), ReturnCode::Unknown);
}

#[test]
fn exit_code_round_trips_for_every_code() {
    for code in ALL {
        assert_eq!(ReturnCode::from_code(code.exit_code()), code);
    }
}

#[test]
fn undefined_statuses_are_unknown() {
    for status in [-1, 5, 98, 100, 102, 255, 999, 1001, i32::MAX, i32::MIN] {
        assert_eq!(ReturnCode::from_code(status), ReturnCode::Unknown);
        assert_eq!(status_of_exit(Some(status)), 500);
    }
}

#[test]
fn missing_exit_status_is_unknown() {
    assert_eq!(ReturnCode::from_exit_status(None), ReturnCode::Unknown);
    assert_eq!(ReturnCode::from_exit_status(Some(2)), ReturnCode::LoginFailed);
    assert_eq!(status_of_exit(None), 500);
}

#[test]
fn http_status_of_each_code() {
    assert_eq!(ReturnCode::FileNotFound.http_status(), 404);
    assert_eq!(ReturnCode::LoginFailed.http_status(), 401);
    assert_eq!(ReturnCode::PermissionDenied.http_status(), 403);
    assert_eq!(ReturnCode::UnexpectedType.http_status(), 302);
    assert_eq!(ReturnCode::Success.http_status(), 500);
    assert_eq!(ReturnCode::SignalTerm.http_status(), 500);
    assert_eq!(ReturnCode::Panic.http_status(), 500);
    assert_eq!(ReturnCode::Unknown.http_status(), 500);
}

#[test]
fn http_status_of_exit_statuses() {
    assert_eq!(status_of_exit(Some(1)), 404);
    assert_eq!(status_of_exit(Some(2)), 401);
    assert_eq!(status_of_exit(Some(3)), 302);
    assert_eq!(status_of_exit(Some(4)), 403);
    assert_eq!(status_of_exit(Some(0)), 500);
    assert_eq!(status_of_exit(Some(99)), 500);
    assert_eq!(status_of_exit(Some(101)), 500);
}

#[test]
fn simu_error_carries_its_code() {
    assert_eq!(SimuError::new(ReturnCode::LoginFailed).code, ReturnCode::LoginFailed);
    assert_eq!(SimuError::unknown().code, ReturnCode::Unknown);
    assert_eq!(SimuError::new(ReturnCode::Unknown), SimuError::unknown());
}

#[test]
fn simu_error_message_is_fixed() {
    assert_eq!(SimuError::unknown().message(), "SimuError()");
    assert_eq!(SimuError::new(ReturnCode::FileNotFound).message(), "SimuError()");
}
