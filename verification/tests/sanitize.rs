use octoweb::sanitize::{is_sensitive_page, luhn_valid, sanitize_text, sanitize_url, valid_iin_prefix};

#[test]
fn test_sanitize_url_no_query() {
    assert_eq!(
        sanitize_url("https://example.com/page"),
        "https://example.com/page"
    );
}

#[test]
fn test_sanitize_url_sensitive_param() {
    assert_eq!(
        sanitize_url("https://example.com/cb?code=abc123&state=xyz"),
        "https://example.com/cb?code=[REDACTED]&state=[REDACTED]"
    );
}

#[test]
fn test_sanitize_url_mixed_params() {
    assert_eq!(
        sanitize_url("https://example.com?page=1&token=secret&sort=date"),
        "https://example.com?page=1&token=[REDACTED]&sort=date"
    );
}

#[test]
fn test_sanitize_url_with_fragment() {
    assert_eq!(
        sanitize_url("https://example.com?api_key=xxx#section"),
        "https://example.com?api_key=[REDACTED]#section"
    );
}

#[test]
fn test_is_sensitive_page() {
    assert!(is_sensitive_page("https://example.com/login"));
    assert!(is_sensitive_page("https://bank.com/account/security"));
    assert!(is_sensitive_page("https://shop.com/checkout"));
    assert!(is_sensitive_page("https://shop.com/add-card"));
    assert!(is_sensitive_page("https://shop.com/payment-method"));
    assert!(!is_sensitive_page("https://example.com/dashboard"));
    assert!(!is_sensitive_page("https://example.com/products"));
}

#[test]
fn test_luhn_valid_known_cards() {
    assert!(luhn_valid(b"4111111111111111"));
    assert!(luhn_valid(b"5500000000000004"));
    assert!(luhn_valid(b"378282246310005"));
    assert!(luhn_valid(b"6011111111111117"));
}

#[test]
fn test_luhn_invalid() {
    assert!(!luhn_valid(b"4111111111111112"));
    assert!(!luhn_valid(b"1234567890123"));
}

#[test]
fn test_sanitize_text_pan_no_separators() {
    let text = "Card: 4111111111111111 thanks";
    assert_eq!(sanitize_text(text), "Card: [CARD REDACTED] thanks");
}

#[test]
fn test_sanitize_text_pan_with_spaces() {
    let text = "Card 4111 1111 1111 1111 ok";
    assert_eq!(sanitize_text(text), "Card [CARD REDACTED] ok");
}

#[test]
fn test_sanitize_text_pan_with_dashes() {
    let text = "Card 4111-1111-1111-1111 ok";
    assert_eq!(sanitize_text(text), "Card [CARD REDACTED] ok");
}

#[test]
fn test_sanitize_text_amex() {
    let text = "Amex 3782 822463 10005 end";
    assert_eq!(sanitize_text(text), "Amex [CARD REDACTED] end");
}

#[test]
fn test_sanitize_text_no_false_positive_phone() {
    let text = "Call +1-555-123-4567 now";
    assert_eq!(sanitize_text(text), "Call +1-555-123-4567 now");
}

#[test]
fn test_sanitize_text_no_false_positive_timestamp() {
    let text = "ID: 20260410143022 ref";
    assert_eq!(sanitize_text(text), "ID: 20260410143022 ref");
}

#[test]
fn test_sanitize_text_no_false_positive_short() {
    let text = "Order 123456 confirmed";
    assert_eq!(sanitize_text(text), "Order 123456 confirmed");
}

#[test]
fn test_sanitize_text_fails_luhn_not_redacted() {
    let text = "Number 4111111111111112 here";
    assert_eq!(sanitize_text(text), "Number 4111111111111112 here");
}

#[test]
fn test_sanitize_text_preserves_normal_text() {
    let text = "Hello world, no cards here.";
    assert_eq!(sanitize_text(text), text);
}

#[test]
fn test_sanitize_text_multiple_pans() {
    let text = "Cards: 4111111111111111 and 5500000000000004";
    assert_eq!(
        sanitize_text(text),
        "Cards: [CARD REDACTED] and [CARD REDACTED]"
    );
}

#[test]
fn test_sanitize_text_pan_in_prose() {
    let text = "Your payment with card 4111111111111111 was processed successfully.";
    assert_eq!(
        sanitize_text(text),
        "Your payment with card [CARD REDACTED] was processed successfully."
    );
}

// ── Edge cases ─────────────────────────────────────────────────────

#[test]
fn sanitize_url_keeps_empty_query_and_valueless_pieces() {
    assert_eq!(sanitize_url("https://a.test/x?"), "https://a.test/x?");
    assert_eq!(sanitize_url("https://a.test/x?flag&TOKEN=1"), "https://a.test/x?flag&TOKEN=[REDACTED]");
    assert_eq!(sanitize_url("https://a.test/x?#frag"), "https://a.test/x?#frag");
}

#[test]
fn sensitive_page_ignores_query_and_case() {
    assert!(is_sensitive_page("https://a.test/LOGIN?next=/"));
    assert!(!is_sensitive_page("https://a.test/home?to=/login"));
    assert!(!is_sensitive_page("https://a.test"));
    assert!(is_sensitive_page("/auth/start"));
}

#[test]
fn iin_prefix_ranges() {
    assert!(valid_iin_prefix(b"4"));
    assert!(valid_iin_prefix(b"37"));
    assert!(!valid_iin_prefix(b"39"));
    assert!(valid_iin_prefix(b"2221"));
    assert!(!valid_iin_prefix(b"2220"));
    assert!(!valid_iin_prefix(b"2721"));
    assert!(!valid_iin_prefix(b"222"));
    assert!(!valid_iin_prefix(b""));
    assert!(!valid_iin_prefix(b"1"));
}

#[test]
fn sanitize_text_long_runs_and_unicode() {
    // More than 19 contiguous digits is never a card.
    assert_eq!(sanitize_text("41111111111111111111111"), "41111111111111111111111");
    assert_eq!(sanitize_text("é 4111111111111111 ü"), "é [CARD REDACTED] ü");
    assert_eq!(sanitize_text(""), "");
}

#[test]
fn fragment_before_query_is_returned_as_is() {
    assert_eq!(
        sanitize_url("https://app.example/#/cb?code=abc"),
        "https://app.example/#/cb?code=abc"
    );
    assert_eq!(sanitize_url("https://a.test/x?#frag"), "https://a.test/x?#frag");
}

#[test]
fn sanitize_text_is_idempotent() {
    for t in [
        "card 4111 1111 1111 1111 and 5500-0000-0000-0004 then 12345",
        "4111111111111111 4111111111111111",
        "no digits here",
        "1234 4111111111111111 99",
    ] {
        let once = sanitize_text(t);
        assert_eq!(sanitize_text(&once), once);
    }
}
