use createos::duration::Duration;
use createos::error::{ApiError, CommandError, Error, JsonFailure, TransportFailure};
use createos::models::{CommandResult, RunCommandResponse};
use createos::transport::Method;

#[test]
fn every_error_describes_itself() {
    assert_eq!(Error::Configuration("bad".into()).describe(), "invalid configuration: bad");
    assert_eq!(Error::InvalidArgument("port".into()).describe(), "invalid argument: port");
    assert_eq!(
        Error::Transport(TransportFailure { message: "connection refused".into(), timeout: false }).describe(),
        "HTTP transport error: connection refused"
    );
    assert_eq!(Error::Protocol("odd".into()).describe(), "protocol error: odd");
    assert_eq!(Error::Json(JsonFailure { message: "eof".into() }).describe(), "JSON error: eof");
    assert_eq!(Error::Timeout(Duration::from_secs(30)).describe(), "operation timed out after 30s");
    assert_eq!(Error::Timeout(Duration::from_millis(1500)).describe(), "operation timed out after 1.5s");
    let api = ApiError::from_parts(Method::Delete, "/v1/disks/d", 404, None, vec![], br#"{"message":"gone"}"#.to_vec());
    assert_eq!(Error::Api(api).describe(), "DELETE /v1/disks/d: HTTP 404: gone");
    let command = CommandError {
        response: RunCommandResponse {
            result: CommandResult { exit_code: -1, ..CommandResult::default() },
            execution_milliseconds_bits: 0,
        },
    };
    assert_eq!(Error::Command(command).describe(), "command exited with status -1");
    let io = Error::Io(std::io::Error::new(std::io::ErrorKind::Other, "disk full"));
    assert_eq!(io.describe(), "I/O error: disk full");
}

#[test]
fn base64_failures_are_described_by_the_decoder() {
    let line = br#"{"type":"data","data_base64":"@@"}"#;
    match createos::stream::decode_process_line(line) {
        Err(error @ Error::Base64(_)) => {
            let text = error.describe();
            assert!(text.starts_with("base64 error: "));
            assert!(text.len() > "base64 error: ".len());
        }
        other => panic!("{other:?}"),
    }
}

#[test]
fn command_errors_keep_the_tail_of_stderr() {
    let long = "x".repeat(2_100);
    let command = CommandError {
        response: RunCommandResponse {
            result: CommandResult { exit_code: 1, standard_error: long, ..CommandResult::default() },
            execution_milliseconds_bits: 0,
        },
    };
    let text = command.describe();
    assert!(text.starts_with("command exited with status 1\nstderr: "));
    assert_eq!(text.len(), "command exited with status 1\nstderr: ".len() + 2_000);
}
