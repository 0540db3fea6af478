//! Pipeline tests: whole sessions driven event by event, with the
//! runtime's answers played by the test.
use http_worker::model::{JobResult, JobStatus, MessageError};
use http_worker::session::{Action, Event, Outcome, Session};

const ACK_MSG: &str = r#"{
    "parameters": [
      {
        "id": "requirements",
        "type": "requirements",
        "value": {"paths": []}
      },
      {
        "id": "source_path",
        "type": "string",
        "value": "https://staticftv-a.akamaihd.net/sous-titres/france4/20180214/172524974-5a843dcd126f8-1518616910.ttml"
      },
      {
        "id": "source_paths",
        "type": "array_of_strings",
        "value": ["https://staticftv-a.akamaihd.net/sous-titres/france4/20180214/172524974-5a843dcd126f8-1518616910.ttml"]
      },
      {
        "id": "destination_path",
        "type": "string",
        "value": "/tmp/172524974-5a843dcd126f8-1518616910.ttml"
      }
    ],
    "job_id":690
  }"#;

const NACK_MSG: &str = r#"{
    "parameters": [
      {
        "id": "requirements",
        "type": "requirements",
        "value": {"paths": [
          "/tmp/FiLe_ThAt_$h0uld_N0t_3xist$"
        ]}
      },
      {
        "id": "source_path",
        "type": "string",
        "value": "https://staticftv-a.akamaihd.net/sous-titres/france4/20180214/172524974-5a843dcd126f8-1518616910.ttml"
      },
      {
        "id": "destination_path",
        "type": "string",
        "value": "/tmp/172524974-5a843dcd126f8-1518616910.ttml"
      }
    ],
    "job_id":690
  }"#;

const URL: &[u8] =
    b"https://staticftv-a.akamaihd.net/sous-titres/france4/20180214/172524974-5a843dcd126f8-1518616910.ttml";
const DEST: &[u8] = b"/tmp/172524974-5a843dcd126f8-1518616910.ttml";

#[test]
fn ack_message_runs_to_completed() {
    // no required paths, so the fetch is the first action
    let (mut sess, first) = Session::start(ACK_MSG).unwrap();
    assert_eq!(first, Action::Fetch(URL.to_vec()));
    let next = sess.step(Event::FetchStatus(200));
    assert_eq!(next, Outcome::Next(Action::Store(DEST.to_vec())));
    let done = sess.step(Event::StoreOk);
    assert_eq!(
        done,
        Outcome::Finished(Ok(JobResult {
            job_id: 690,
            status: JobStatus::Completed,
            outputs: vec![],
            message: None,
        }))
    );
}

#[test]
fn nack_message_fails_before_any_fetch() {
    let (mut sess, first) = Session::start(NACK_MSG).unwrap();
    // the one required path is probed before anything else
    assert_eq!(
        first,
        Action::CheckPath(b"/tmp/FiLe_ThAt_$h0uld_N0t_3xist$".to_vec())
    );
    let done = sess.step(Event::PathChecked(false));
    assert_eq!(
        done,
        Outcome::Finished(Err(MessageError::RequirementsUnmet {
            job_id: 690,
            path: b"/tmp/FiLe_ThAt_$h0uld_N0t_3xist$".to_vec(),
        }))
    );
}

#[test]
fn required_paths_are_probed_in_declaration_order() {
    let msg = r#"{"job_id": 5, "parameters": [
        {"id": "requirements", "type": "requirements", "value": {"paths": ["/one", "/two"]}},
        {"id": "source_path", "type": "string", "value": "http://a/"},
        {"id": "destination_path", "type": "string", "value": "/tmp/out"}
    ]}"#;
    let (mut sess, first) = Session::start(msg).unwrap();
    assert_eq!(first, Action::CheckPath(b"/one".to_vec()));
    let second = sess.step(Event::PathChecked(true));
    assert_eq!(second, Outcome::Next(Action::CheckPath(b"/two".to_vec())));
    let third = sess.step(Event::PathChecked(true));
    assert_eq!(third, Outcome::Next(Action::Fetch(b"http://a/".to_vec())));
}

#[test]
fn second_missing_path_is_the_one_named() {
    let msg = r#"{"job_id": 5, "parameters": [
        {"id": "requirements", "type": "requirements", "value": {"paths": ["/one", "/two"]}},
        {"id": "source_path", "type": "string", "value": "http://a/"},
        {"id": "destination_path", "type": "string", "value": "/tmp/out"}
    ]}"#;
    let (mut sess, _first) = Session::start(msg).unwrap();
    let second = sess.step(Event::PathChecked(true));
    assert_eq!(second, Outcome::Next(Action::CheckPath(b"/two".to_vec())));
    let done = sess.step(Event::PathChecked(false));
    assert_eq!(
        done,
        Outcome::Finished(Err(MessageError::RequirementsUnmet {
            job_id: 5,
            path: b"/two".to_vec(),
        }))
    );
}

#[test]
fn bad_status_fails_without_a_store() {
    let (mut sess, first) = Session::start(ACK_MSG).unwrap();
    assert_eq!(first, Action::Fetch(URL.to_vec()));
    let done = sess.step(Event::FetchStatus(404));
    assert_eq!(
        done,
        Outcome::Finished(Err(MessageError::BadResponseStatus { job_id: 690 }))
    );
}

#[test]
fn transport_failure_maps_to_io_error() {
    let (mut sess, _first) = Session::start(ACK_MSG).unwrap();
    let done = sess.step(Event::FetchFailed(b"connection refused".to_vec()));
    assert_eq!(
        done,
        Outcome::Finished(Err(MessageError::IoError {
            job_id: 690,
            detail: b"connection refused".to_vec(),
        }))
    );
}

#[test]
fn write_failure_maps_to_io_error() {
    let (mut sess, _first) = Session::start(ACK_MSG).unwrap();
    let next = sess.step(Event::FetchStatus(200));
    assert_eq!(next, Outcome::Next(Action::Store(DEST.to_vec())));
    let done = sess.step(Event::StoreFailed(b"permission denied".to_vec()));
    assert_eq!(
        done,
        Outcome::Finished(Err(MessageError::IoError {
            job_id: 690,
            detail: b"permission denied".to_vec(),
        }))
    );
}

#[test]
fn missing_source_fails_after_the_checks() {
    let msg = r#"{"job_id": 8, "parameters": [
        {"id": "requirements", "type": "requirements", "value": {"paths": ["/one"]}},
        {"id": "destination_path", "type": "string", "value": "/tmp/out"}
    ]}"#;
    let (mut sess, first) = Session::start(msg).unwrap();
    assert_eq!(first, Action::CheckPath(b"/one".to_vec()));
    let done = sess.step(Event::PathChecked(true));
    assert_eq!(
        done,
        Outcome::Finished(Err(MessageError::MissingParameter {
            job_id: 8,
            name: b"source_path".to_vec(),
        }))
    );
}

#[test]
fn missing_source_fails_at_start_without_checks() {
    let msg = r#"{"job_id": 8, "parameters": []}"#;
    assert_eq!(
        Session::start(msg).unwrap_err(),
        MessageError::MissingParameter { job_id: 8, name: b"source_path".to_vec() }
    );
}

#[test]
fn missing_destination_fails_before_the_fetch() {
    let msg = r#"{"job_id": 8, "parameters": [
        {"id": "source_path", "type": "string", "value": "http://a/"}
    ]}"#;
    assert_eq!(
        Session::start(msg).unwrap_err(),
        MessageError::MissingParameter { job_id: 8, name: b"destination_path".to_vec() }
    );
}

#[test]
fn malformed_message_fails_at_start() {
    assert_eq!(
        Session::start("not a message").unwrap_err(),
        MessageError::MalformedInput
    );
    assert_eq!(
        Session::start(r#"{"job_id": 1}"#).unwrap_err(),
        MessageError::MalformedInput
    );
}
