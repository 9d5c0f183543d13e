//! Text shaping, request framing, number parsing, and the configuration
//! command's rules.

use kinic_cli::cliargs::{AgentFactory, InsertArgs, insert_source};
use kinic_cli::config::{ConfigError, Role, parse_add_user};
use kinic_cli::httpmsg::{find_header_end, is_json_content_type, parse_request_head};
use kinic_cli::payload::parse_u64_decimal;
use kinic_cli::principal::Principal;
use kinic_cli::text::{clip, extract_answer, get_language_instruction, sse_data_payload,
    strip_tags, trim_str};

#[test]
fn json_content_type_is_matched_loosely_but_exactly() {
    assert!(is_json_content_type("application/json"));
    assert!(is_json_content_type("application/json; charset=utf-8"));
    assert!(is_json_content_type("  APPLICATION/JSON  ; x=y"));
    assert!(!is_json_content_type("text/html"));
    assert!(!is_json_content_type("application/jsonx"));
    assert!(!is_json_content_type(""));
}

#[test]
fn header_end_is_the_first_blank_line() {
    assert_eq!(find_header_end(b"abc\r\n\r\ndef"), Some(3));
    assert_eq!(find_header_end(b"\r\n\r\n"), Some(0));
    assert_eq!(find_header_end(b"abc\r\ndef"), None);
    assert_eq!(find_header_end(b""), None);
}

#[test]
fn request_head_is_parsed_from_a_raw_request() {
    let raw = b"POST /callback HTTP/1.1\r\nHost: x\r\nContent-Length: 42\r\n\r\nbody";
    let head = parse_request_head(raw).unwrap();
    assert_eq!(head.method, b"POST".to_vec());
    assert_eq!(head.path, b"/callback".to_vec());
    assert_eq!(head.content_length, 42);
    assert_eq!(head.body_start, raw.len() - 4);
}

#[test]
fn content_length_name_is_case_insensitive_and_first_wins() {
    let raw = b"GET / HTTP/1.1\r\ncontent-LENGTH:  7 \r\nContent-Length: 9\r\n\r\n";
    let head = parse_request_head(raw).unwrap();
    assert_eq!(head.content_length, 7);
    let raw = b"GET / HTTP/1.1\r\nHost: x\r\n\r\n";
    let head = parse_request_head(raw).unwrap();
    assert_eq!(head.content_length, 0);
}

#[test]
fn incomplete_or_malformed_requests_are_refused() {
    assert!(parse_request_head(b"POST /callback HTTP/1.1\r\nHost: x\r\n").is_none());
    assert!(parse_request_head(b"\r\n\r\n").is_none());
    assert!(parse_request_head(b"POST\r\n\r\n").is_none());
}

#[test]
fn u64_tokens_parse_exactly() {
    assert_eq!(parse_u64_decimal(b"0"), Some(0));
    assert_eq!(parse_u64_decimal(b"+123"), Some(123));
    assert_eq!(parse_u64_decimal(b"18446744073709551615"), Some(u64::MAX));
    assert_eq!(parse_u64_decimal(b"18446744073709551616"), None);
    assert_eq!(parse_u64_decimal(b""), None);
    assert_eq!(parse_u64_decimal(b"+"), None);
    assert_eq!(parse_u64_decimal(b"12a"), None);
    assert_eq!(parse_u64_decimal(b"-1"), None);
}

#[test]
fn clip_keeps_short_text_and_marks_cuts() {
    assert_eq!(clip("hello", 10), "hello");
    assert_eq!(clip("hello world", 5), "hello...");
    assert_eq!(clip("", 0), "");
    assert_eq!(clip("héllo", 4), "héll...");
}

#[test]
fn strip_tags_removes_all_marker_tags() {
    assert_eq!(strip_tags("<answer>x</answer>"), "x");
    assert_eq!(strip_tags("<ANSWER>y</ANSWER>"), "y");
    assert_eq!(
        strip_tags("a<thinking>b</thinking>c<answer>d</answer>"),
        "abcd"
    );
    assert_eq!(strip_tags("plain"), "plain");
}

#[test]
fn extract_answer_takes_the_tagged_span() {
    assert_eq!(extract_answer("blah <answer> hi there </answer> z"), "hi there");
    assert_eq!(extract_answer("  no tags  "), "no tags");
    assert_eq!(extract_answer("<Answer>hi</ANSWER>"), "hi");
    assert_eq!(extract_answer("</answer>x<answer>"), "</answer>x<answer>");
}

#[test]
fn sse_data_lines_yield_their_payload() {
    assert_eq!(
        sse_data_payload("data: {\"content\":\"x\"}"),
        Some(String::from("{\"content\":\"x\"}"))
    );
    assert_eq!(sse_data_payload("data:   "), None);
    assert_eq!(sse_data_payload("event: done"), None);
}

#[test]
fn trim_removes_surrounding_whitespace_only() {
    assert_eq!(trim_str("  a b \t"), "a b");
    assert_eq!(trim_str(""), "");
    assert_eq!(trim_str(" \t "), "");
}

#[test]
fn language_instruction_defaults_to_english() {
    assert_eq!(get_language_instruction("ja"), "日本語 (Japanese)");
    assert_eq!(get_language_instruction("de"), "Deutsch (German)");
    assert_eq!(get_language_instruction("xx"), "English");
    assert_eq!(get_language_instruction(""), "English");
}

#[test]
fn roles_parse_in_any_case_and_carry_their_codes() {
    assert_eq!(Role::from_str("Admin").unwrap(), Role::Admin);
    assert_eq!(Role::from_str("WRITER").unwrap(), Role::Writer);
    assert_eq!(Role::from_str("reader").unwrap(), Role::Reader);
    assert_eq!(Role::from_str("root").unwrap_err(), ConfigError::InvalidRole);
    assert_eq!(Role::Admin.code(), 1);
    assert_eq!(Role::Writer.code(), 2);
    assert_eq!(Role::Reader.code(), 3);
}

#[test]
fn add_user_requests_are_checked_in_order() {
    let ok = parse_add_user(vec![String::from("anonymous"), String::from("reader")]).unwrap();
    assert_eq!(ok.0.bytes, vec![0x04]);
    assert_eq!(ok.1, Role::Reader);
    let ok = parse_add_user(vec![String::from("aaaaa-aa"), String::from("writer")]).unwrap();
    assert_eq!(ok.0.bytes.len(), 0);
    assert_eq!(ok.1, Role::Writer);
    assert_eq!(
        parse_add_user(vec![String::from("anonymous")]).unwrap_err(),
        ConfigError::WrongArity
    );
    assert_eq!(
        parse_add_user(vec![String::from("???"), String::from("reader")]).unwrap_err(),
        ConfigError::InvalidPrincipal
    );
    assert_eq!(
        parse_add_user(vec![String::from("anonymous"), String::from("boss")]).unwrap_err(),
        ConfigError::InvalidRole
    );
    assert_eq!(
        parse_add_user(vec![String::from("anonymous"), String::from("admin")]).unwrap_err(),
        ConfigError::AnonymousAdmin
    );
}

#[test]
fn anonymous_principal_is_the_tag_byte() {
    assert_eq!(Principal::anonymous().bytes, vec![0x04]);
}

#[test]
fn agent_factory_and_insert_source_carry_their_inputs() {
    let f = AgentFactory::new(true, String::from("alice"));
    assert!(f.use_mainnet);
    assert_eq!(f.identity_suffix, "alice");
    let args = InsertArgs {
        memory_id: String::from("m"),
        text: Some(String::from("t")),
        file_path: None,
        tag: String::from("tag"),
    };
    assert_eq!(insert_source(&args), "text");
    let args = InsertArgs {
        memory_id: String::from("m"),
        text: None,
        file_path: Some(String::from("/tmp/x.md")),
        tag: String::from("tag"),
    };
    assert_eq!(insert_source(&args), "file");
}
