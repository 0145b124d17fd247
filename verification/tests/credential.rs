use scripthub::credential::{
    credential_from_output, helper_request_payload, resolve_from_env, resolve_from_store,
    HelperRun,
};

fn ok_run(stdout: &[u8]) -> Result<HelperRun, String> {
    Ok(HelperRun { success: true, stdout: stdout.to_vec(), stderr: Vec::new() })
}

#[test]
fn password_line_is_found() {
    let out = b"username=alice\npassword=secret\n\n";
    assert_eq!(credential_from_output(true, out), Some(b"secret".to_vec()));
}

#[test]
fn first_password_line_wins() {
    let out = b"password=first\npassword=second\n";
    assert_eq!(credential_from_output(true, out), Some(b"first".to_vec()));
}

#[test]
fn empty_first_password_line_is_a_miss() {
    // The scan stops at the first password= line: an empty value there is a
    // miss, and the later match is ignored.
    let out = b"password=\npassword=later\n";
    assert_eq!(credential_from_output(true, out), None);
}

#[test]
fn no_password_line_is_none() {
    let out = b"username=alice\nprotocol=https\n";
    assert_eq!(credential_from_output(true, out), None);
}

#[test]
fn only_empty_password_is_none() {
    let out = b"password=\n";
    assert_eq!(credential_from_output(true, out), None);
}

#[test]
fn empty_output_is_none() {
    assert_eq!(credential_from_output(true, b""), None);
}

#[test]
fn carriage_return_is_stripped() {
    let out = b"username=alice\r\npassword=secret\r\n";
    assert_eq!(credential_from_output(true, out), Some(b"secret".to_vec()));
}

#[test]
fn unterminated_final_line_is_scanned() {
    let out = b"username=alice\npassword=secret";
    assert_eq!(credential_from_output(true, out), Some(b"secret".to_vec()));
}

#[test]
fn key_must_be_exactly_password() {
    let out = b"xpassword=secret\npass=secret\n";
    assert_eq!(credential_from_output(true, out), None);
}

#[test]
fn value_keeps_inner_equals_signs() {
    let out = b"password=a=b=c\n";
    assert_eq!(credential_from_output(true, out), Some(b"a=b=c".to_vec()));
}

#[test]
fn failed_exit_is_none_not_error() {
    let out = b"password=secret\n";
    assert_eq!(credential_from_output(false, out), None);
    let run = Ok(HelperRun { success: false, stdout: out.to_vec(), stderr: b"denied".to_vec() });
    assert_eq!(resolve_from_store(run), Ok(None));
}

#[test]
fn completed_run_yields_its_credential() {
    assert_eq!(
        resolve_from_store(ok_run(b"password=tok123\n")),
        Ok(Some(b"tok123".to_vec()))
    );
    assert_eq!(resolve_from_store(ok_run(b"quit=1\n")), Ok(None));
}

#[test]
fn spawn_failure_is_an_error_with_cause() {
    let r = resolve_from_store(Err("No such file or directory".to_string()));
    assert_eq!(
        r,
        Err("Failed to execute git credential: No such file or directory".to_string())
    );
}

#[test]
fn env_primary_wins_when_nonempty() {
    let r = resolve_from_env(Some("ptoken".to_string()), Some("ftoken".to_string()));
    assert_eq!(r, Some("ptoken".to_string()));
    let r = resolve_from_env(Some("ptoken".to_string()), None);
    assert_eq!(r, Some("ptoken".to_string()));
}

#[test]
fn env_fallback_used_when_primary_absent_or_empty() {
    let r = resolve_from_env(None, Some("ftoken".to_string()));
    assert_eq!(r, Some("ftoken".to_string()));
    let r = resolve_from_env(Some("".to_string()), Some("ftoken".to_string()));
    assert_eq!(r, Some("ftoken".to_string()));
}

#[test]
fn env_none_when_neither_is_set() {
    assert_eq!(resolve_from_env(None, None), None);
    assert_eq!(resolve_from_env(Some("".to_string()), None), None);
    assert_eq!(resolve_from_env(None, Some("".to_string())), None);
    assert_eq!(resolve_from_env(Some("".to_string()), Some("".to_string())), None);
}

#[test]
fn helper_payload_exact_bytes() {
    assert_eq!(
        helper_request_payload().as_bytes(),
        b"protocol=https\nhost=github.com\n\n"
    );
}
