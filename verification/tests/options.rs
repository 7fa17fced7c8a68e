use haste::HasteError;
use haste::Mode;
use haste::Options;

static DEFAULT_URL: &str = "https://pastie.io/documents";
static DEFAULT_URL_HTTP: &str = "https://pastie.io/documents";

fn create_upload_start_arguments() -> [String; 2] {
    [String::from("command"), String::from("./test-data/test.txt")]
}

fn create_custom_upload_start_arguments(url: &String) -> [String; 3] {
    [
        String::from("command"),
        String::from("./test-data/test.txt"),
        url.clone(),
    ]
}

fn create_download_start_arguments() -> [String; 3] {
    [
        String::from("command"),
        String::from(DEFAULT_URL),
        String::from("./test-data/test.txt"),
    ]
}

#[test]
fn is_url_returns_true_on_https_url() {
    let url = String::from(DEFAULT_URL);

    assert_eq!(Options::is_url(&url), true);
}

#[test]
fn is_url_returns_true_on_http_url() {
    let url = String::from(DEFAULT_URL_HTTP);

    assert_eq!(Options::is_url(&url), true);
}

#[test]
fn is_url_returns_false_on_filename() {
    let filename = String::from("./test-data/test.txt");

    assert_eq!(Options::is_url(&filename), false);
}

#[test]
fn options_constructor_gives_error_no_arguments() {
    let args: [String; 1] = [String::from("PogramName")];

    match Options::new(&args) {
        Ok(_) => assert!(
            false,
            "Only 1 arg (program name) was given, an error should be returned."
        ),
        Err(_) => assert!(true),
    }
}

#[test]
fn options_constructor_returns_options() {
    let filename = String::from("./test-data/test.txt");

    let args: [String; 2] = create_upload_start_arguments();

    match Options::new(&args) {
        Ok(options) => assert_eq!(options.filename, filename),
        Err(_) => assert!(false, "All arguments were given, method should not fail."),
    }
}

#[test]
fn options_constructor_set_upload_mode_when_given_filename() {
    let args: [String; 2] = create_upload_start_arguments();

    match Options::new(&args) {
        Ok(options) => match options.mode {
            Mode::Download => assert!(false, "Filename was given, method should be upload"),
            Mode::Upload => assert!(true),
        },
        Err(_) => assert!(false, "All arguments were given, method should not fail."),
    }
}

#[test]
fn options_constructor_uses_default_upload_url_when_not_give() {
    let args: [String; 2] = create_upload_start_arguments();

    match Options::new(&args) {
        Ok(options) => assert_eq!(options.url, DEFAULT_URL),
        Err(_) => assert!(false, "All arguments were given, method should not fail."),
    }
}

#[test]
fn options_constructor_uses_custom_upload_url() {
    let custom_url = String::from("https://hasteb.in/documents");

    let args: [String; 3] = create_custom_upload_start_arguments(&custom_url);

    match Options::new(&args) {
        Ok(options) => assert_eq!(options.url, custom_url),
        Err(_) => assert!(false, "All arguments were given, method should not fail."),
    }
}

#[test]
fn options_constructor_set_download_mode_when_given_url() {
    let args: [String; 3] = create_download_start_arguments();

    match Options::new(&args) {
        Ok(options) => match options.mode {
            Mode::Download => assert!(true),
            Mode::Upload => assert!(false, "URL was given, method should be download"),
        },
        Err(_) => assert!(false, "All arguments were given, method should not fail."),
    }
}

#[test]
fn options_constructor_returns_error_on_missing_filename_when_downlaoding() {
    let args: [String; 2] = [String::from("command"), String::from(DEFAULT_URL)];
    match Options::new(&args) {
        Ok(_options) => assert!(false),
        Err(_) => assert!(true, "The only argument was an URL, method should fail"),
    }
}

#[test]
fn options_constructor_names_the_missing_argument() {
    let no_operands: [String; 1] = [String::from("command")];
    assert_eq!(
        Options::new(&no_operands).unwrap_err(),
        HasteError::MissingArguments
    );

    let url_without_filename: [String; 2] = [String::from("command"), String::from(DEFAULT_URL)];
    assert_eq!(
        Options::new(&url_without_filename).unwrap_err(),
        HasteError::MissingFilename
    );
}

#[test]
fn options_constructor_keeps_download_url_verbatim() {
    let args: [String; 3] = create_download_start_arguments();

    let options = Options::new(&args).unwrap();
    assert_eq!(options.url, DEFAULT_URL);
    assert_eq!(options.filename, "./test-data/test.txt");
}

#[test]
fn is_url_finds_the_pattern_inside_longer_text() {
    assert!(Options::is_url(&String::from("see https://pastie.io/abc for it")));
    assert!(Options::is_url(&String::from("http://a.b")));
    assert!(Options::is_url(&String::from("https://.")));
}

#[test]
fn is_url_rejects_other_schemes_and_shapes() {
    assert!(!Options::is_url(&String::from("ftp://pastie.io/abc")));
    assert!(!Options::is_url(&String::from("this is 100% not a URL")));
    assert!(!Options::is_url(&String::from("https://nodotafterhost")));
    assert!(!Options::is_url(&String::from("pastie.io/abc")));
    assert!(!Options::is_url(&String::from("")));
}

#[test]
fn error_messages_match_the_reported_texts() {
    assert_eq!(HasteError::MissingArguments.message(), "Missing arguments");
    assert_eq!(HasteError::MissingFilename.message(), "Missing filename");
    assert_eq!(HasteError::FileNotFound.message(), "Could not open file");
    assert_eq!(HasteError::InvalidUrl.message(), "Invalid URL");
    assert_eq!(HasteError::RequestFailed.message(), "Could not POST");
    assert_eq!(
        HasteError::UnsuccessfulRequest.message(),
        "POST was unsuccessful"
    );
    assert_eq!(HasteError::InvalidResponse.message(), "Invalid response");
    assert_eq!(HasteError::NotImplemented.message(), "To be implemented");
}
