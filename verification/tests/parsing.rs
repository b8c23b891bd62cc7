use account_setup::redirect::{parse_redirect_target, RedirectResult};
use account_setup::store::{decode_secret_output, trim_trailing_newlines};
use account_setup::token::parse_token_response;

#[test]
fn redirect_success_is_parsed() {
    match parse_redirect_target("/?code=abc123&state=xyz").unwrap() {
        RedirectResult::Success { code, state } => {
            assert_eq!(code, "abc123");
            assert_eq!(state, "xyz");
        }
        _ => panic!("expected a success"),
    }
}

#[test]
fn redirect_error_is_parsed_and_decoded() {
    match parse_redirect_target("/?error=access_denied&error_description=denied%20by+user")
        .unwrap()
    {
        RedirectResult::Denied {
            error,
            error_description,
        } => {
            assert_eq!(error, "access_denied");
            assert_eq!(error_description.as_deref(), Some("denied by user"));
        }
        _ => panic!("expected a denial"),
    }
}

#[test]
fn redirect_percent_escapes_are_decoded() {
    match parse_redirect_target("/cb?code=%41%2Fb&state=s").unwrap() {
        RedirectResult::Success { code, .. } => assert_eq!(code, "A/b"),
        _ => panic!("expected a success"),
    }
}

#[test]
fn redirect_without_query_is_malformed() {
    assert!(parse_redirect_target("/").is_none());
    assert!(parse_redirect_target("/favicon.ico").is_none());
}

#[test]
fn redirect_missing_state_is_malformed() {
    assert!(parse_redirect_target("/?code=abc").is_none());
}

#[test]
fn redirect_bad_escape_is_malformed() {
    assert!(parse_redirect_target("/?code=%zz&state=s").is_none());
}

#[test]
fn token_response_with_all_fields_is_parsed() {
    let body = "{ \"access_token\": \"at\", \"token_type\": \"Bearer\", \
                \"expires_in\": 3600, \"refresh_token\": \"rt\" }";
    let pair = parse_token_response(body).unwrap();
    assert_eq!(pair.access_token, "at");
    assert_eq!(pair.refresh_token.as_deref(), Some("rt"));
    assert_eq!(pair.expires_in, Some(3600));
}

#[test]
fn token_response_refresh_token_is_optional() {
    let pair = parse_token_response("{\"access_token\":\"only\"}").unwrap();
    assert_eq!(pair.access_token, "only");
    assert_eq!(pair.refresh_token, None);
    assert_eq!(pair.expires_in, None);
}

#[test]
fn token_response_string_escapes_are_decoded() {
    let pair = parse_token_response("{\"access_token\":\"a\\\"b\\\\c\"}").unwrap();
    assert_eq!(pair.access_token, "a\"b\\c");
}

#[test]
fn token_response_without_access_token_is_rejected() {
    assert!(parse_token_response("{\"refresh_token\":\"rt\"}").is_none());
}

#[test]
fn token_response_with_nesting_is_rejected() {
    assert!(parse_token_response("{\"access_token\":{\"v\":1}}").is_none());
}

#[test]
fn token_response_with_trailing_text_is_rejected() {
    assert!(parse_token_response("{\"access_token\":\"a\"} x").is_none());
}

#[test]
fn empty_object_has_no_access_token() {
    assert!(parse_token_response("{}").is_none());
    assert!(parse_token_response("  { }  ").is_none());
}

#[test]
fn command_output_trimming_drops_trailing_newlines() {
    assert_eq!(trim_trailing_newlines(b"x\r\n".to_vec()), b"x".to_vec());
    assert_eq!(trim_trailing_newlines(b"x\n\n".to_vec()), b"x".to_vec());
    assert_eq!(trim_trailing_newlines(b"a\nb".to_vec()), b"a\nb".to_vec());
    assert_eq!(decode_secret_output(b"hunter2\n".to_vec()).as_deref(), Some("hunter2"));
}

#[test]
fn first_occurrence_of_a_query_key_wins() {
    match parse_redirect_target("/?code=first&state=s&code=second").unwrap() {
        RedirectResult::Success { code, .. } => assert_eq!(code, "first"),
        _ => panic!("expected a success"),
    }
}

#[test]
fn oversized_expiry_numbers_are_rejected() {
    // nineteen digits exceed the accepted number width
    assert!(parse_token_response("{\"access_token\":\"a\",\"expires_in\":1234567890123456789}")
        .is_none());
    let pair =
        parse_token_response("{\"access_token\":\"a\",\"expires_in\":123456789012345678}").unwrap();
    assert_eq!(pair.expires_in, Some(123456789012345678));
}
