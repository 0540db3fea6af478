//! Parsing and model tests: the message grammar, parameter
//! resolution, requirement extraction and the requirement check.
use http_worker::model::{Job, MessageError, Parameter};
use http_worker::parse::parse_message;

fn parse_ok(msg: &str) -> Job {
    match parse_message(msg) {
        Ok(job) => job,
        Err(e) => panic!("expected a parse, got {:?}", e),
    }
}

fn parse_err(msg: &str) {
    assert_eq!(parse_message(msg).unwrap_err(), MessageError::MalformedInput);
}

#[test]
fn ack_message_parses() {
    let msg = r#"{
    "parameters": [
      {
        "id": "requirements",
        "type": "requirements",
        "value": {"paths": []}
      },
      {
        "id": "source_path",
        "type": "string",
        "value": "https://staticftv-a.akamaihd.net/sous-titres/france4/20180214/172524974-5a843dcd126f8-1518616910.ttml"
      },
      {
        "id": "source_paths",
        "type": "array_of_strings",
        "value": ["https://staticftv-a.akamaihd.net/sous-titres/france4/20180214/172524974-5a843dcd126f8-1518616910.ttml"]
      },
      {
        "id": "destination_path",
        "type": "string",
        "value": "/tmp/172524974-5a843dcd126f8-1518616910.ttml"
      }
    ],
    "job_id":690
  }"#;
    let job = parse_ok(msg);
    assert_eq!(job.job_id, 690);
    assert_eq!(job.parameters.len(), 4);
    assert_eq!(
        job.get_string_parameter(b"destination_path"),
        Some(b"/tmp/172524974-5a843dcd126f8-1518616910.ttml".to_vec())
    );
    match &job.parameters[2] {
        Parameter::PathsParam { id, value, .. } => {
            assert_eq!(id, &b"source_paths".to_vec());
            assert_eq!(value.as_ref().unwrap().len(), 1);
        },
        other => panic!("expected the list parameter, got {:?}", other),
    }
}

#[test]
fn default_used_when_value_absent() {
    let msg = r#"{"job_id": 1, "parameters": [
        {"id": "source_path", "type": "string", "default": "http://fallback/"}
    ]}"#;
    let job = parse_ok(msg);
    assert_eq!(job.get_string_parameter(b"source_path"), Some(b"http://fallback/".to_vec()));
}

#[test]
fn value_overrides_default() {
    let msg = r#"{"job_id": 1, "parameters": [
        {"id": "source_path", "type": "string", "default": "http://fallback/", "value": "http://chosen/"}
    ]}"#;
    let job = parse_ok(msg);
    assert_eq!(job.get_string_parameter(b"source_path"), Some(b"http://chosen/".to_vec()));
}

#[test]
fn absent_value_and_default_is_no_value() {
    let msg = r#"{"job_id": 1, "parameters": [
        {"id": "source_path", "type": "string"}
    ]}"#;
    let job = parse_ok(msg);
    assert_eq!(job.get_string_parameter(b"source_path"), None);
    assert_eq!(job.get_string_parameter(b"absent"), None);
}

#[test]
fn null_value_means_no_value() {
    let msg = r#"{"job_id": 1, "parameters": [
        {"id": "source_path", "type": "string", "value": null}
    ]}"#;
    let job = parse_ok(msg);
    assert_eq!(job.get_string_parameter(b"source_path"), None);
}

#[test]
fn first_match_wins_on_duplicate_ids() {
    let msg = r#"{"job_id": 1, "parameters": [
        {"id": "p", "type": "string", "value": "first"},
        {"id": "p", "type": "string", "value": "second"}
    ]}"#;
    let job = parse_ok(msg);
    assert_eq!(job.get_string_parameter(b"p"), Some(b"first".to_vec()));
}

#[test]
fn non_string_first_match_shadows_later_string() {
    let msg = r#"{"job_id": 1, "parameters": [
        {"id": "p", "type": "array_of_strings", "value": ["x"]},
        {"id": "p", "type": "string", "value": "hidden"}
    ]}"#;
    let job = parse_ok(msg);
    assert_eq!(job.get_string_parameter(b"p"), None);
}

#[test]
fn paths_tag_names_the_list_kind_too() {
    let msg = r#"{"job_id": 1, "parameters": [
        {"id": "xs", "type": "paths", "value": ["a", "b"]}
    ]}"#;
    let job = parse_ok(msg);
    match &job.parameters[0] {
        Parameter::PathsParam { value, .. } => {
            assert_eq!(value.as_ref().unwrap(), &vec![b"a".to_vec(), b"b".to_vec()]);
        },
        other => panic!("expected the list parameter, got {:?}", other),
    }
}

#[test]
fn malformed_inputs_are_refused() {
    parse_err("");
    parse_err("hello");
    parse_err("[]");
    parse_err("123");
    parse_err("{}");
    parse_err("null");
    parse_err(r#"{"job_id": 1}"#);
    parse_err(r#"{"parameters": []}"#);
    parse_err(r#"{"job_id": 1, "parameters": []} trailing"#);
    parse_err(r#"{"job_id": 1, "parameters": [],}"#);
    parse_err(r#"{"job_id": 1, "parameters": [{}]}"#);
}

#[test]
fn malformed_parameters_are_refused() {
    // an unknown tag
    parse_err(r#"{"job_id": 1, "parameters": [{"id": "p", "type": "number", "value": 5}]}"#);
    // a missing id, a missing tag
    parse_err(r#"{"job_id": 1, "parameters": [{"type": "string", "value": "x"}]}"#);
    parse_err(r#"{"job_id": 1, "parameters": [{"id": "p", "value": "x"}]}"#);
    // shapes not matching the tag
    parse_err(r#"{"job_id": 1, "parameters": [{"id": "p", "type": "string", "value": ["x"]}]}"#);
    parse_err(r#"{"job_id": 1, "parameters": [{"id": "p", "type": "array_of_strings", "value": "x"}]}"#);
    parse_err(r#"{"job_id": 1, "parameters": [{"id": "p", "type": "requirements", "value": "x"}]}"#);
    // a value no tag could take
    parse_err(r#"{"job_id": 1, "parameters": [{"id": "p", "type": "string", "value": 5}]}"#);
    parse_err(r#"{"job_id": 1, "parameters": [{"id": "p", "type": "string", "value": true}]}"#);
    // a list with a non-string item
    parse_err(r#"{"job_id": 1, "parameters": [{"id": "p", "type": "array_of_strings", "value": ["a", 5]}]}"#);
    // a requirement whose paths is not a list of strings
    parse_err(r#"{"job_id": 1, "parameters": [{"id": "r", "type": "requirements", "value": {"paths": 5}}]}"#);
}

#[test]
fn malformed_duplicate_members_are_refused() {
    parse_err(r#"{"job_id": 1, "job_id": 2, "parameters": []}"#);
    parse_err(r#"{"job_id": 1, "parameters": [], "parameters": []}"#);
    parse_err(r#"{"job_id": 1, "parameters": [{"id": "p", "id": "q", "type": "string"}]}"#);
    parse_err(r#"{"job_id": 1, "parameters": [{"id": "p", "type": "string", "value": "a", "value": "b"}]}"#);
}

#[test]
fn job_id_must_be_an_unsigned_integer() {
    assert_eq!(parse_ok(r#"{"job_id": 0, "parameters": []}"#).job_id, 0);
    assert_eq!(
        parse_ok(r#"{"job_id": 18446744073709551615, "parameters": []}"#).job_id,
        u64::MAX
    );
    parse_err(r#"{"job_id": 18446744073709551616, "parameters": []}"#);
    parse_err(r#"{"job_id": -1, "parameters": []}"#);
    parse_err(r#"{"job_id": 6.9e2, "parameters": []}"#);
    parse_err(r#"{"job_id": "690", "parameters": []}"#);
    parse_err(r#"{"job_id": null, "parameters": []}"#);
    parse_err(r#"{"job_id": 01, "parameters": []}"#);
}

#[test]
fn unknown_members_are_skipped() {
    let msg = r#"{
        "job_id": 7,
        "note": {"nested": [1, -2.5e3, true, null, "s"], "more": {}},
        "parameters": [
            {"id": "source_path", "type": "string", "value": "http://a/", "extra": [[], {}]}
        ],
        "trailer": false
    }"#;
    let job = parse_ok(msg);
    assert_eq!(job.job_id, 7);
    assert_eq!(job.get_string_parameter(b"source_path"), Some(b"http://a/".to_vec()));
}

#[test]
fn string_escapes_are_decoded() {
    let msg = "{\"job_id\": 1, \"parameters\": [
        {\"id\": \"p\", \"type\": \"string\", \"value\": \"a\\n\\t\\\"\\\\/\\u0041\\u00e9\\u20ac\\ud83d\\ude00\"}
    ]}";
    let job = parse_ok(msg);
    let mut expected: Vec<u8> = Vec::new();
    expected.extend_from_slice(b"a\n\t\"\\/A");
    expected.extend_from_slice(&[0xC3, 0xA9]);
    expected.extend_from_slice(&[0xE2, 0x82, 0xAC]);
    expected.extend_from_slice(&[0xF0, 0x9F, 0x98, 0x80]);
    assert_eq!(job.get_string_parameter(b"p"), Some(expected));
}

#[test]
fn bad_escapes_are_refused() {
    parse_err("{\"job_id\": 1, \"parameters\": [{\"id\": \"p\", \"type\": \"string\", \"value\": \"\\q\"}]}");
    // a lone high surrogate, a lone low surrogate
    parse_err("{\"job_id\": 1, \"parameters\": [{\"id\": \"p\", \"type\": \"string\", \"value\": \"\\ud83d\"}]}");
    parse_err("{\"job_id\": 1, \"parameters\": [{\"id\": \"p\", \"type\": \"string\", \"value\": \"\\ude00x\"}]}");
    // an unescaped control byte, an unterminated string
    parse_err("{\"job_id\": 1, \"parameters\": [{\"id\": \"p\", \"type\": \"string\", \"value\": \"a\u{1}b\"}]}");
    parse_err("{\"job_id\": 1, \"parameters\": [{\"id\": \"p\", \"type\": \"string\", \"value\": \"open");
}

#[test]
fn whitespace_is_tolerated() {
    let msg = "\n\t {\r\n \"job_id\" : 2 , \"parameters\" : [ ] } \n";
    assert_eq!(parse_ok(msg).job_id, 2);
}

#[test]
fn requirements_absent_or_empty_require_nothing() {
    // no requirements parameter at all
    let none = parse_ok(r#"{"job_id": 1, "parameters": []}"#);
    assert_eq!(none.required_paths(), Vec::<Vec<u8>>::new());
    assert_eq!(none.check_requirements(&vec![]), Ok(()));
    // an empty path list
    let empty = parse_ok(
        r#"{"job_id": 1, "parameters": [{"id": "requirements", "type": "requirements", "value": {"paths": []}}]}"#,
    );
    assert_eq!(empty.required_paths(), Vec::<Vec<u8>>::new());
    assert_eq!(empty.check_requirements(&vec![]), Ok(()));
    // a null path list
    let null = parse_ok(
        r#"{"job_id": 1, "parameters": [{"id": "requirements", "type": "requirements", "value": {"paths": null}}]}"#,
    );
    assert_eq!(null.required_paths(), Vec::<Vec<u8>>::new());
    assert_eq!(null.check_requirements(&vec![]), Ok(()));
}

#[test]
fn check_requirements_names_the_first_missing_path() {
    let job = parse_ok(
        r#"{"job_id": 9, "parameters": [
            {"id": "requirements", "type": "requirements", "value": {"paths": ["/a", "/b", "/c"]}}
        ]}"#,
    );
    assert_eq!(
        job.required_paths(),
        vec![b"/a".to_vec(), b"/b".to_vec(), b"/c".to_vec()]
    );
    assert_eq!(job.check_requirements(&vec![true, true, true]), Ok(()));
    assert_eq!(
        job.check_requirements(&vec![true, false, false]),
        Err(MessageError::RequirementsUnmet { job_id: 9, path: b"/b".to_vec() })
    );
    assert_eq!(
        job.check_requirements(&vec![false, true, true]),
        Err(MessageError::RequirementsUnmet { job_id: 9, path: b"/a".to_vec() })
    );
}

#[test]
fn resolve_names_the_missing_source_first() {
    let neither = parse_ok(r#"{"job_id": 4, "parameters": []}"#);
    assert_eq!(
        neither.resolve_paths(),
        Err(MessageError::MissingParameter { job_id: 4, name: b"source_path".to_vec() })
    );
    let only_dest = parse_ok(
        r#"{"job_id": 4, "parameters": [{"id": "destination_path", "type": "string", "value": "/tmp/x"}]}"#,
    );
    assert_eq!(
        only_dest.resolve_paths(),
        Err(MessageError::MissingParameter { job_id: 4, name: b"source_path".to_vec() })
    );
}

#[test]
fn resolve_names_the_missing_destination() {
    let only_src = parse_ok(
        r#"{"job_id": 4, "parameters": [{"id": "source_path", "type": "string", "value": "http://a/"}]}"#,
    );
    assert_eq!(
        only_src.resolve_paths(),
        Err(MessageError::MissingParameter { job_id: 4, name: b"destination_path".to_vec() })
    );
    let both = parse_ok(
        r#"{"job_id": 4, "parameters": [
            {"id": "source_path", "type": "string", "value": "http://a/"},
            {"id": "destination_path", "type": "string", "value": "/tmp/x"}
        ]}"#,
    );
    assert_eq!(both.resolve_paths(), Ok((b"http://a/".to_vec(), b"/tmp/x".to_vec())));
}
