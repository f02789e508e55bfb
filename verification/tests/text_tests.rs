use ghostteam::api::auth::api_keys_from_file;
use ghostteam::model::ghostos::decode_attempt;
use ghostteam::model::ollama::decode_reply;
use ghostteam::konnect::configured_base_url;
use ghostteam::model::llamacpp::LlamaCppBackend;
use ghostteam::order::{opt_str_lt, str_lt};
use ghostteam::sdk::GhostTeamError;
use ghostteam::telegram::reply::{api_status_error, join_strings, telegram_status_error, ApiError, HttpStatus, TelegramError};
use ghostteam::telegram::{next_offset, split_first_word, strip_quotes};
use ghostteam::text::{
    concat3, format_i64, format_u64, starts_with, str_eq, to_ascii_lowercase, trim,
};

#[test]
fn trimming_and_case_folding() {
    assert_eq!(trim("\t hello world \n"), "hello world");
    assert_eq!(trim("   "), "");
    assert_eq!(trim("\u{3000}x\u{85}"), "x");
    assert_eq!(to_ascii_lowercase("LLaMa.CPP Ä"), "llama.cpp Ä");
}

#[test]
fn decimal_rendering() {
    assert_eq!(format_u64(0), "0");
    assert_eq!(format_u64(18446744073709551615), "18446744073709551615");
    assert_eq!(format_i64(-42), "-42");
    assert_eq!(format_i64(i64::MIN), "-9223372036854775808");
}

#[test]
fn comparisons_follow_code_points() {
    assert!(str_lt("abc", "abd"));
    assert!(str_lt("ab", "abc"));
    assert!(!str_lt("b", "abc"));
    assert!(opt_str_lt(&None, &Some("a".to_string())));
    assert!(!opt_str_lt(&Some("a".to_string()), &None));
    assert!(str_eq("same", "same"));
    assert!(!str_eq("same", "Same"));
    assert!(starts_with("/status", "/"));
    assert_eq!(concat3("a", "b", "c"), "abc");
}

#[test]
fn words_and_quotes() {
    assert_eq!(split_first_word("  one two  three "), (Some("one".to_string()), "two  three".to_string()));
    assert_eq!(split_first_word("   "), (None, String::new()));
    assert_eq!(strip_quotes("\"quoted\""), "quoted");
    assert_eq!(strip_quotes("\""), "\"");
    assert_eq!(strip_quotes("plain"), "plain");
    assert_eq!(next_offset(41), 42);
}

#[test]
fn status_errors_by_code() {
    let forbidden = HttpStatus::from_u16(403).expect("status");
    assert!(matches!(api_status_error(&forbidden, "no"), Some(ApiError::Unauthorized)));
    let unauthorized = HttpStatus::from_u16(401).expect("status");
    assert!(matches!(api_status_error(&unauthorized, "no"), Some(ApiError::Unauthorized)));
    let missing = HttpStatus::from_u16(404).expect("status");
    match api_status_error(&missing, "  gone \n") {
        Some(ApiError::Http { status, body }) => {
            assert_eq!(status.code(), 404);
            assert_eq!(body, "gone");
        }
        other => panic!("unexpected {other:?}"),
    }
    let ok = HttpStatus::from_u16(200).expect("status");
    assert!(api_status_error(&ok, "").is_none());
    assert!(telegram_status_error(&ok, "").is_none());
    let bad = HttpStatus::from_u16(400).expect("status");
    let error = telegram_status_error(&bad, " Bad Request: chat not found ").expect("error");
    assert_eq!(error.message(), "Telegram returned HTTP 400 Bad Request: Bad Request: chat not found");
    assert_eq!(TelegramError::Transport("dns".to_string()).message(), "Telegram request failed: dns");
    assert_eq!(TelegramError::Malformed("eof".to_string()).message(), "Telegram response was malformed: eof");
    assert_eq!(ApiError::Malformed("eof".to_string()).message(), "GhostTeam API returned malformed JSON: eof");
    assert_eq!(ApiError::Unauthorized.message(), "GhostTeam API rejected the configured key");
}

#[test]
fn client_errors_read_as_messages() {
    assert_eq!(GhostTeamError::Http("timeout".to_string()).message(), "http error: timeout");
    assert_eq!(GhostTeamError::Serde("eof".to_string()).message(), "serialization error: eof");
}

#[test]
fn configured_addresses_and_llamacpp_parts() {
    assert_eq!(configured_base_url(Some("  http://k:1 ".to_string())).as_deref(), Some("http://k:1"));
    assert_eq!(configured_base_url(Some("  ".to_string())), None);
    assert_eq!(configured_base_url(None), None);
    let b = LlamaCppBackend::from_parts(None, Some(vec!["-n".to_string(), "8".to_string()]));
    assert_eq!(b.binary(), "llama-cli");
    assert_eq!(b.args(), &vec!["-n".to_string(), "8".to_string()]);
    assert!(LlamaCppBackend::from_parts(Some("bin".to_string()), None).args().is_empty());
}

#[test]
fn joining_strings_with_a_separator() {
    assert_eq!(join_strings(&vec!["a".to_string(), "b".to_string(), "c".to_string()], ", "), "a, b, c");
    assert_eq!(join_strings(&Vec::new(), ", "), "");
    assert_eq!(join_strings(&vec!["only".to_string()], "\n"), "only");
}

#[test]
fn answer_bodies_are_decoded() {
    assert_eq!(decode_attempt("http://g", "{\"output\":\"mock ghostos output\"}"), Ok("mock ghostos output".to_string()));
    assert_eq!(
        decode_attempt("http://g", "{\"result\":1}"),
        Err("ghostos response missing output field from http://g".to_string())
    );
    assert_eq!(decode_attempt("http://g", "not json"), Err("error decoding response body".to_string()));

    assert_eq!(decode_reply("{\"response\":\"ollama reply\",\"done\":true}"), Ok("ollama reply".to_string()));
    assert_eq!(decode_reply("{\"done\":true}"), Ok(String::new()));
    assert_eq!(decode_reply("[1,2]"), Err("error decoding response body".to_string()));
    assert!(api_keys_from_file("keys.yaml", Ok("keys: [".to_string())).unwrap_err().starts_with("failed to parse API keys file at keys.yaml: "));

    assert_eq!(
        api_keys_from_file("keys.yaml", Ok("keys:\n  - alpha\n  - beta\n".to_string())),
        Ok(vec!["alpha".to_string(), "beta".to_string()])
    );
    assert_eq!(
        api_keys_from_file("keys.yaml", Ok("other: 1\n".to_string())),
        Err("failed to parse API keys file at keys.yaml: missing field `keys`".to_string())
    );
    assert_eq!(
        api_keys_from_file("keys.yaml", Err("No such file".to_string())),
        Err("failed to read API keys file at keys.yaml: No such file".to_string())
    );
}
