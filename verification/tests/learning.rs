use octoweb::browser::{HistoryEntry, Tab};
use octoweb::learning::build_learning_prompt;

fn tab(id: usize, title: &str, url: &str) -> Tab {
    Tab { id, title: title.to_string(), url: url.to_string(), is_playing_audio: false }
}

fn visit(title: &str, url: &str, at: u64) -> HistoryEntry {
    HistoryEntry { title: title.to_string(), url: url.to_string(), visited_at: at }
}

#[test]
fn nothing_to_learn_from_gives_none() {
    assert_eq!(build_learning_prompt(&[], &[], 1, "some text"), None);
}

#[test]
fn prompt_lists_tabs_history_and_page_text() {
    let tabs = vec![
        tab(1, "Docs", "https://docs.rs/x?token=abc"),
        tab(2, "Mail", "https://mail.test/inbox"),
    ];
    let history = vec![
        visit("Old", "https://old.test", 1),
        visit("Mail", "https://mail.test/inbox", 2),
        visit("News", "https://news.test", 3),
    ];
    let text = "Hello\n\n\n\nworld\u{7} card 4111111111111111";
    let p = build_learning_prompt(&tabs, &history, 2, text).unwrap();
    assert_eq!(
        p,
        "Open tabs:\n- Docs | https://docs.rs/x?token=[REDACTED]\n- Mail * | https://mail.test/inbox\n\n\
         Recent history:\n- News | https://news.test\n- Old | https://old.test\n\n\
         Active page text:\nHello\n\nworld card [CARD REDACTED]\n"
    );
}

#[test]
fn sensitive_active_page_omits_its_text() {
    let tabs = vec![tab(7, "Bank", "https://bank.test/login")];
    let p = build_learning_prompt(&tabs, &[], 7, "password hunter2").unwrap();
    assert!(!p.contains("hunter2"));
    assert!(p.ends_with("Active page: [sensitive page — content omitted]\n"));
    let q = build_learning_prompt(&tabs, &[], 7, "").unwrap();
    assert_eq!(p, q);
}

#[test]
fn empty_page_text_adds_nothing() {
    let tabs = vec![tab(1, "A", "https://a.test")];
    let p = build_learning_prompt(&tabs, &[], 1, "").unwrap();
    assert_eq!(p, "Open tabs:\n- A * | https://a.test\n\n");
}

#[test]
fn tab_lines_stop_at_the_budget() {
    let title = "t".repeat(990);
    let tabs: Vec<Tab> = (0..20).map(|i| tab(i, &title, "https://x.test")).collect();
    let p = build_learning_prompt(&tabs, &[], 99, "").unwrap();
    // each line is 1010 bytes; nine fit after the 11-byte header
    assert_eq!(p.matches("- ttt").count(), 9);
    assert!(p.len() <= 10_001);
}

#[test]
fn history_overflow_ends_with_ellipsis_line() {
    let title = "h".repeat(2000);
    let history: Vec<HistoryEntry> = (0..10).map(|i| visit(&title, "https://h.test", i)).collect();
    let p = build_learning_prompt(&[], &history, 0, "").unwrap();
    assert!(p.ends_with("- ...\n\n"));
    assert_eq!(p.matches("- hhh").count(), 5);
}

#[test]
fn url_with_fragment_before_query_is_listed_as_is() {
    let tabs = vec![tab(1, "Odd", "https://x.test/#frag?token=1")];
    let p = build_learning_prompt(&tabs, &[], 1, "").unwrap();
    assert_eq!(p, "Open tabs:\n- Odd * | https://x.test/#frag?token=1\n\n");
}

#[test]
fn full_prompt_stays_within_budget() {
    let tabs: Vec<Tab> = (0..50).map(|i| tab(i, &"t".repeat(300), &format!("https://t{i}.test/"))).collect();
    let history: Vec<HistoryEntry> = (0..50).map(|i| visit(&"h".repeat(300), &format!("https://h{i}.test/"), i)).collect();
    let text = "é".repeat(5000);
    let p = build_learning_prompt(&tabs, &history, 0, &text).unwrap();
    assert!(p.contains("Active page text:\n"));
    assert!(p.len() <= 16_000, "{}", p.len());
}
