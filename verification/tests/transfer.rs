use haste::create_share_link;
use haste::download;
use haste::finish_upload;
use haste::parse_response;
use haste::HasteError;
use haste::Options;
use haste::PostOutcome;

static DEFAULT_URL: &str = "https://pastie.io/documents";

#[test]
fn create_share_link_changes_documents_to_key() {
    let key = String::from("abcdef");
    let wanted_url = String::from("https://pastie.io/abcdef");
    let default_url = String::from(DEFAULT_URL);

    assert_eq!(create_share_link(&default_url, &key), wanted_url);
}

#[test]
fn create_share_link_without_the_segment_keeps_the_url() {
    let key = String::from("abcdef");
    let base = String::from("https://pastie.io/paste");

    assert_eq!(create_share_link(&base, &key), base);
}

#[test]
fn create_share_link_replaces_every_occurrence() {
    let key = String::from("k");
    let base = String::from("https://documents.io/documents");

    assert_eq!(create_share_link(&base, &key), "https://k.io/k");
}

#[test]
fn parse_response_returns_key_from_succesful_post() {
    let parsed_response = parse_response("{\"key\": \"rAnd0mK3y\"}");

    assert!(
        parsed_response.is_ok(),
        "parse_response should return an OK with a valid JSON body"
    );
    assert_eq!(parsed_response.unwrap(), "rAnd0mK3y");
}

#[test]
fn parse_response_returns_error_on_invalid_json_body() {
    let parsed_response = parse_response("\"key\" \"rAnd0mK3y\"");

    assert!(
        parsed_response.is_err(),
        "parse_response should return an error with a invalid JSON body"
    );
    assert_eq!(parsed_response.unwrap_err(), HasteError::InvalidResponse);
}

#[test]
fn parse_response_needs_the_key_member() {
    assert_eq!(
        parse_response("{\"other\": \"x\"}").unwrap_err(),
        HasteError::InvalidResponse
    );
    assert_eq!(parse_response("{}").unwrap_err(), HasteError::InvalidResponse);
    assert_eq!(parse_response("").unwrap_err(), HasteError::InvalidResponse);
}

#[test]
fn parse_response_rejects_non_string_values_and_trailing_text() {
    assert_eq!(
        parse_response("{\"key\": 5}").unwrap_err(),
        HasteError::InvalidResponse
    );
    assert_eq!(
        parse_response("{\"key\": \"a\"} x").unwrap_err(),
        HasteError::InvalidResponse
    );
    assert_eq!(
        parse_response("{\"key\": \"a\",}").unwrap_err(),
        HasteError::InvalidResponse
    );
    assert_eq!(
        parse_response("{\"key\": \"a\"").unwrap_err(),
        HasteError::InvalidResponse
    );
}

#[test]
fn parse_response_accepts_whitespace_and_more_members() {
    assert_eq!(
        parse_response(" \t\r\n{ \"key\" : \"abc\" }\n").unwrap(),
        "abc"
    );
    assert_eq!(
        parse_response("{\"a\": \"1\", \"key\": \"two\", \"b\": \"3\"}").unwrap(),
        "two"
    );
}

#[test]
fn parse_response_keeps_the_last_repeated_member() {
    assert_eq!(
        parse_response("{\"key\": \"first\", \"key\": \"second\"}").unwrap(),
        "second"
    );
}

#[test]
fn parse_response_decodes_string_escapes() {
    assert_eq!(
        parse_response("{\"key\": \"a\\n\\t\\\"\\\\b\\/\"}").unwrap(),
        "a\n\t\"\\b/"
    );
    assert_eq!(parse_response("{\"key\": \"\\u0041\\u00e9\"}").unwrap(), "A\u{e9}");
}

#[test]
fn parse_response_rejects_bad_escapes_and_controls() {
    assert_eq!(
        parse_response("{\"key\": \"\\x\"}").unwrap_err(),
        HasteError::InvalidResponse
    );
    assert_eq!(
        parse_response("{\"key\": \"\\uD800\"}").unwrap_err(),
        HasteError::InvalidResponse
    );
    assert_eq!(
        parse_response("{\"key\": \"a\nb\"}").unwrap_err(),
        HasteError::InvalidResponse
    );
}

#[test]
fn finish_upload_derives_the_link_on_success() {
    let base = String::from(DEFAULT_URL);
    let outcome = PostOutcome::Delivered {
        status: 200,
        body: String::from("{\"key\": \"abcdef\"}"),
    };

    assert_eq!(
        finish_upload(&base, &outcome).unwrap(),
        "https://pastie.io/abcdef"
    );
}

#[test]
fn finish_upload_reports_unsuccessful_status_and_never_a_key() {
    let base = String::from(DEFAULT_URL);
    let outcome = PostOutcome::Delivered {
        status: 500,
        body: String::from("{\"key\": \"rAnd0mK3y\"}"),
    };

    assert_eq!(
        finish_upload(&base, &outcome).unwrap_err(),
        HasteError::UnsuccessfulRequest
    );
}

#[test]
fn finish_upload_reports_transport_failures() {
    let base = String::from(DEFAULT_URL);

    assert_eq!(
        finish_upload(&base, &PostOutcome::TransportFailure).unwrap_err(),
        HasteError::InvalidUrl
    );
    assert_eq!(
        finish_upload(&base, &PostOutcome::StatusFailure).unwrap_err(),
        HasteError::RequestFailed
    );
}

#[test]
fn finish_upload_reports_an_invalid_body() {
    let base = String::from(DEFAULT_URL);
    let outcome = PostOutcome::Delivered {
        status: 201,
        body: String::from("\"key\" \"rAnd0mK3y\""),
    };

    assert_eq!(
        finish_upload(&base, &outcome).unwrap_err(),
        HasteError::InvalidResponse
    );
}

#[test]
fn download_is_not_implemented() {
    let args: [String; 3] = [
        String::from("command"),
        String::from(DEFAULT_URL),
        String::from("./test-data/test.txt"),
    ];
    let options = Options::new(&args).unwrap();

    assert_eq!(download(&options).unwrap_err(), HasteError::NotImplemented);
}
