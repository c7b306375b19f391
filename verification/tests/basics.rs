use goose_context::json::{member, text_scalar, Json, JsonScalar};
use goose_context::lists::{add_distinct, position_of};
use goose_context::models::audit::{AuditActionType, RiskLevel};
use goose_context::number::{decimal_text, parse_number, signed_decimal_text, three_digit_text};
use goose_context::ordering::{less, sort_distinct};
use goose_context::path::{extension, file_name, join};
use goose_context::score::Score;
use goose_context::text::{
    before, byte_count, contains, ends_with, head, is_empty, is_some_text, lines, same, skip_bytes,
    split_once, starts_with, strip_ends, strip_start, trim, words, CharClass,
};

#[test]
fn text_agrees_with_the_standard_library() {
    let samples = [
        "", " ", "abc", "  a b\t c \n", "\r\n", "a\r\nb\n\nc", "x\ry", "\u{3000}\u{e9} \u{85}", "a\n",
        "==\"{,}\"==", "@@a", "\u{1f600}\u{e9}z",
    ];
    for s in samples {
        assert_eq!(trim(s), s.trim());
        assert_eq!(lines(s), s.lines().collect::<Vec<_>>());
        assert_eq!(words(s), s.split_whitespace().collect::<Vec<_>>());
        assert_eq!(strip_ends(s, CharClass::Is('"')), s.trim_matches('"'));
        assert_eq!(strip_start(s, CharClass::Is('@')), s.trim_start_matches('@'));
        assert_eq!(is_empty(s), s.is_empty());
        assert_eq!(byte_count(s), s.len());
        assert_eq!(head(s, 3), s.chars().take(3).collect::<String>());
        assert_eq!(
            split_once(s, CharClass::Is('=')),
            s.split_once('=').map(|(a, b)| (a.to_string(), b.to_string()))
        );
        assert_eq!(before(s, CharClass::Is(',')), s.split(',').next().unwrap());
        for n in 0..=s.len() + 1 {
            assert_eq!(skip_bytes(s, n).as_deref(), s.get(n..), "{:?} {}", s, n);
        }
        for t in samples {
            assert_eq!(same(s, t), s == t);
            assert_eq!(starts_with(s, t), s.starts_with(t));
            assert_eq!(ends_with(s, t), s.ends_with(t));
            assert_eq!(contains(s, t), s.contains(t));
            assert_eq!(less(s, t), s < t);
        }
    }
    assert!(is_some_text(&Some("a".to_string()), "a"));
    assert!(!is_some_text(&None, ""));
}

#[test]
fn numbers_agree_with_the_standard_library() {
    for n in [0u64, 9, 10, 999, 1000, u64::MAX] {
        assert_eq!(decimal_text(n), n.to_string());
        assert_eq!(three_digit_text(n), format!("{:03}", n));
    }
    for n in [0i64, -1, 42, i64::MIN, i64::MAX] {
        assert_eq!(signed_decimal_text(n), n.to_string());
    }
    for s in ["", "+", "-1", "+7", "007", "65535", "65536", "1a", " 1", "99999999999999999999"] {
        assert_eq!(parse_number(s, u16::MAX as u64).map(|n| n as u16), s.parse::<u16>().ok(), "{}", s);
        assert_eq!(parse_number(s, u64::MAX), s.parse::<u64>().ok(), "{}", s);
    }
}

#[test]
fn paths_agree_with_the_standard_library() {
    for p in ["a/b.rs", "/", "", "..", "a/..", "a/.", "a//", ".hidden", "x.tar.gz", "dir/", "a/./b", "./a"] {
        let path = std::path::Path::new(p);
        assert_eq!(file_name(p).as_deref(), path.file_name().and_then(|n| n.to_str()), "{}", p);
        assert_eq!(extension(p).as_deref(), path.extension().and_then(|n| n.to_str()), "{}", p);
        assert_eq!(join(p, "x.txt"), path.join("x.txt").to_str().unwrap(), "{}", p);
    }
}

#[test]
fn scores_print_two_decimals() {
    let values = [
        0.0, -0.0, 0.95, 0.005, 0.015, 0.125, 0.375, 2.5, 0.995, 0.994999, 1.0, -1.005, 1e-9, 123456.789,
        1e22, 1.7976931348623157e308, 5e-324, f64::INFINITY, f64::NEG_INFINITY, 0.1 + 0.2, 4503599627370497.5,
        -0.001,
    ];
    for v in values {
        assert_eq!(Score { bits: v.to_bits() }.two_decimals(), format!("{:.2}", v), "{:e}", v);
    }
    assert_eq!(Score { bits: f64::NAN.to_bits() }.two_decimals(), "NaN");
}

#[test]
fn scores_compare_as_numbers() {
    let values = [0.0, -0.0, 0.5, -0.5, 1e300, -1e300, f64::INFINITY, f64::NEG_INFINITY, f64::NAN, 5e-324];
    for a in values {
        assert_eq!(Score { bits: a.to_bits() }.not_a_number(), a.is_nan());
        for b in values {
            assert_eq!(
                Score { bits: a.to_bits() }.less_than(&Score { bits: b.to_bits() }),
                a < b
            );
        }
    }
}

#[test]
fn json_is_printed_compactly() {
    assert_eq!(Json::scalar(&JsonScalar::Null).as_text(), "null");
    assert_eq!(Json::scalar(&JsonScalar::Bool(true)).as_text(), "true");
    assert_eq!(Json::scalar(&JsonScalar::Bool(false)).as_text(), "false");
    assert_eq!(Json::scalar(&JsonScalar::Number(-5)).as_text(), "-5");
    assert_eq!(Json::scalar(&JsonScalar::Count(u64::MAX)).as_text(), "18446744073709551615");
    assert_eq!(
        Json::scalar(&text_scalar("a\"\\/\u{8}\t\n\u{c}\r\u{1f}\u{7f}\u{e9}")).as_text(),
        "\"a\\\"\\\\/\\b\\t\\n\\f\\r\\u001f\u{7f}\u{e9}\""
    );
    let object = Json::object(&vec![
        member("a", text_scalar("x")),
        member("b", JsonScalar::Number(3)),
        member("c", JsonScalar::Null),
    ]);
    assert_eq!(object.as_text(), "{\"a\":\"x\",\"b\":3,\"c\":null}");
    assert_eq!(object.get_text("a"), Some("x".to_string()));
    assert_eq!(object.get_text("b"), None);
    assert_eq!(object.get_text("d"), None);
    assert_eq!(Json::empty_object().as_text(), "{}");
    assert_eq!(object.copy().as_text(), object.as_text());
}

#[test]
fn json_is_read() {
    let doc = Json::parse(" { \"b\" : [1, 2],\n \"a\" : \"t\\u00e9\", \"o\": {\"k\": \"v\", \"n\": 1} } ").unwrap();
    assert_eq!(doc.as_text(), "{\"a\":\"t\u{e9}\",\"b\":[1,2],\"o\":{\"k\":\"v\",\"n\":1}}");
    assert_eq!(doc.text_or("a", "none"), "t\u{e9}");
    assert_eq!(doc.text_or("b", "none"), "none");
    assert_eq!(
        doc.text_entries("o"),
        Some(vec![("k".to_string(), Some("v".to_string())), ("n".to_string(), None)])
    );
    assert_eq!(doc.text_entries("b"), None);
    assert_eq!(doc.text_entries("x"), None);
    assert!(Json::parse("{").is_none());
    for number in ["0.1", "123.45678901234567", "2.2250738585072014e-308", "7.2057594037927933e16", "1e23"] {
        let once = Json::parse(number).unwrap();
        let value: f64 = number.parse().unwrap();
        assert_eq!(once.as_text().parse::<f64>().unwrap(), value, "{}", number);
        assert_eq!(Json::parse(once.as_text()).unwrap().as_text(), once.as_text(), "{}", number);
    }
    assert_eq!(Json::parse("\"s\"").unwrap().get_text("s"), None);
}

#[test]
fn lists_stay_distinct_and_sorted() {
    let mut list: Vec<String> = Vec::new();
    for t in ["b", "a", "b", "", "a"] {
        add_distinct(&mut list, t);
    }
    assert_eq!(list, vec!["b", "a", ""]);
    assert_eq!(position_of(&list, "a"), Some(1));
    assert_eq!(position_of(&list, "z"), None);
    let words: Vec<String> = ["b", "ab", "a", "b", "", "\u{e9}"].iter().map(|s| s.to_string()).collect();
    assert_eq!(sort_distinct(&words), vec!["", "a", "ab", "b", "\u{e9}"]);
}

#[test]
fn audit_names() {
    assert_eq!(RiskLevel::Low.as_text(), "low");
    assert_eq!(RiskLevel::Medium.as_text(), "medium");
    assert_eq!(RiskLevel::High.as_text(), "high");
    assert_eq!(RiskLevel::Critical.as_text(), "critical");
    let actions = [
        (AuditActionType::ToolCall, "tool_call"),
        (AuditActionType::LlmRequest, "llm_request"),
        (AuditActionType::LlmResponse, "llm_response"),
        (AuditActionType::GatePass, "gate_pass"),
        (AuditActionType::GateFail, "gate_fail"),
        (AuditActionType::FileWrite, "file_write"),
        (AuditActionType::FileDelete, "file_delete"),
        (AuditActionType::CommandExec, "command_exec"),
        (AuditActionType::SandboxCreate, "sandbox_create"),
        (AuditActionType::SandboxDestroy, "sandbox_destroy"),
        (AuditActionType::PrCreated, "pr_created"),
        (AuditActionType::PrMerged, "pr_merged"),
        (AuditActionType::HumanApproval, "human_approval"),
        (AuditActionType::HumanRejection, "human_rejection"),
        (AuditActionType::Escalation, "escalation"),
    ];
    for (action, name) in actions {
        assert_eq!(action.as_text(), name);
    }
}
