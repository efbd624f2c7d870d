use velton::extract::{field_rejection, header_outcome, parse_header_value, quote_header_value, resolve_header, DEFAULT_BODY_LIMIT};
use velton::{ExtractionRejection, Source};

#[test]
fn header_plain_string() {
    assert_eq!(parse_header_value::<String>("John").unwrap(), "John");
}

#[test]
fn header_number() {
    assert_eq!(parse_header_value::<u64>("123").unwrap(), 123);
}

#[test]
fn header_bool() {
    assert!(parse_header_value::<bool>("true").unwrap());
}

#[test]
fn header_with_quotes_and_backslashes() {
    assert_eq!(
        parse_header_value::<String>("a\"b\\c").unwrap(),
        "a\"b\\c"
    );
}

#[test]
fn header_number_that_does_not_fit_is_an_error() {
    assert!(parse_header_value::<u8>("300").is_err());
}

#[test]
fn quoting_escapes() {
    assert_eq!(quote_header_value("a\"b\\c"), "\"a\\\"b\\\\c\"");
    assert_eq!(quote_header_value(""), "\"\"");
}

#[test]
fn labels() {
    assert_eq!(Source::Body.label(), "body");
    assert_eq!(Source::Query.label(), "query");
    assert_eq!(Source::Path.label(), "path");
    assert_eq!(Source::Header.label(), "header");
}

#[test]
fn default_body_limit_is_two_mebibytes() {
    assert_eq!(DEFAULT_BODY_LIMIT, 2 * 1024 * 1024);
}

#[test]
fn rejection_messages() {
    let missing = ExtractionRejection::MissingField {
        name: "x-api-key".to_string(),
        source: Source::Header,
    };
    assert_eq!(missing.message(), "missing required header field `x-api-key`");
    assert_eq!(missing.status(), 400);
    assert_eq!(
        ExtractionRejection::Query("oops".to_string()).message(),
        "invalid query: oops"
    );
    assert_eq!(
        ExtractionRejection::Path("oops".to_string()).message(),
        "invalid path: oops"
    );
    assert_eq!(
        ExtractionRejection::Header("oops".to_string()).message(),
        "invalid header: oops"
    );
    assert_eq!(
        ExtractionRejection::Body("oops".to_string()).message(),
        "invalid request body: oops"
    );
}

#[test]
fn missing_required_header_is_rejected() {
    let r = resolve_header::<String>(None, false, "x-api-key".to_string());
    match r {
        Err(ExtractionRejection::MissingField { name, source }) => {
            assert_eq!(name, "x-api-key");
            assert_eq!(source, Source::Header);
        }
        _ => panic!("expected a missing-field rejection"),
    }
}

#[test]
fn missing_optional_header_is_none() {
    let r = resolve_header::<String>(None, true, "x-api-key".to_string());
    assert!(matches!(r, Ok(None)));
}

#[test]
fn present_header_is_taken_or_rejected() {
    let r = resolve_header::<u32>(Some(Ok(7)), false, "x-n".to_string());
    assert!(matches!(r, Ok(Some(7))));
    let r = resolve_header::<u32>(Some(Err("bad".to_string())), false, "x-n".to_string());
    match r {
        Err(e) => assert_eq!(e.message(), "invalid header: bad"),
        _ => panic!("expected a rejection"),
    }
}

#[test]
fn header_outcome_keeps_a_first_success() {
    assert_eq!(header_outcome::<u64>(Ok(7), None), Ok(7));
}

#[test]
fn header_outcome_falls_back_to_the_second_parse() {
    assert_eq!(header_outcome::<String>(Err(()), Some(Ok("John".to_string()))), Ok("John".to_string()));
    assert_eq!(
        header_outcome::<u64>(Err(()), Some(Err("invalid type".to_string()))),
        Err("invalid type".to_string())
    );
}

#[test]
fn header_value_that_is_json_text_is_read_as_such() {
    assert_eq!(parse_header_value::<String>("123").unwrap(), "123");
    assert_eq!(parse_header_value::<String>("\"quoted\"").unwrap(), "quoted");
    assert!(parse_header_value::<u64>("abc").is_err());
}

#[test]
fn field_rejections_name_their_source() {
    assert!(matches!(field_rejection(Source::Query, "m".to_string()), ExtractionRejection::Query(m) if m == "m"));
    assert!(matches!(field_rejection(Source::Path, "m".to_string()), ExtractionRejection::Path(m) if m == "m"));
    assert!(matches!(field_rejection(Source::Header, "m".to_string()), ExtractionRejection::Header(m) if m == "m"));
    assert!(matches!(field_rejection(Source::Body, "m".to_string()), ExtractionRejection::Body(m) if m == "m"));
}
