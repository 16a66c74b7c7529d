use octoweb::page_index::{collapse_ws, floor_char_boundary, snippet, tokenize, unix_now, PageIndex};

fn idx() -> PageIndex {
    let mut i = PageIndex::default();
    i.index(
        "https://a.example/pricing",
        "Acme pricing",
        "Team plan costs 49 dollars per seat monthly",
    );
    i.index(
        "https://b.example/blog",
        "Rust notes",
        "Borrow checker essay about lifetimes and seats",
    );
    i
}

#[test]
fn prefix_and_terms_intersect() {
    let i = idx();
    let hits = i.search("seat", 10);
    assert_eq!(hits.len(), 2, "prefix 'seat' matches seat and seats");
    let hits = i.search("seat dollar", 10);
    assert_eq!(hits.len(), 1);
    assert_eq!(hits[0].url, "https://a.example/pricing");
    assert!(hits[0].snippet.contains("49 dollars"));
    assert!(i.search("nothinghere", 10).is_empty());
    assert!(i.search("", 10).is_empty());
}

#[test]
fn reindex_replaces_and_cap_evicts_oldest() {
    let mut i = idx();
    i.index(
        "https://a.example/pricing/",
        "Acme pricing",
        "Now free for everyone",
    );
    assert!(i.search("dollar", 10).is_empty(), "old text gone");
    assert_eq!(i.search("free", 10).len(), 1);
    assert_eq!(
        i.len(),
        2,
        "same URL with trailing slash replaced, not duplicated"
    );

    i.index_capped("https://c.example", "C", "third page", 2);
    assert_eq!(i.len(), 2);
    assert!(i.search("lifetimes", 10).is_empty(), "oldest doc evicted");
    assert_eq!(i.search("third", 10).len(), 1);
    // Empty text never overwrites.
    i.index("https://c.example", "C", "   ");
    assert_eq!(i.search("third", 10).len(), 1);
}

#[test]
fn page_is_found_by_its_own_words() {
    let i = idx();
    let hits = i.search("Borrow LIFETIMES", 10);
    assert_eq!(hits.len(), 1);
    assert_eq!(hits[0].url, "https://b.example/blog");
    assert_eq!(hits[0].title, "Rust notes");
    // title words count too
    assert_eq!(i.search("acme", 10).len(), 1);
}

#[test]
fn hits_are_most_recent_first_and_limited() {
    let mut i = PageIndex::new();
    i.index_at("https://x.test/1", "one", "shared words here", 10, 100);
    i.index_at("https://x.test/2", "two", "shared words too", 10, 300);
    i.index_at("https://x.test/3", "three", "shared again", 10, 200);
    let hits = i.search("shared", 10);
    let order: Vec<u64> = hits.iter().map(|h| h.visited_at).collect();
    assert_eq!(order, vec![300, 200, 100]);
    let hits = i.search("shared", 2);
    assert_eq!(hits.len(), 2);
    assert_eq!(hits[0].url, "https://x.test/2");
    assert_eq!(hits[1].url, "https://x.test/3");
    assert!(i.search("shared", 0).is_empty());
}

#[test]
fn equal_timestamps_list_the_later_page_first() {
    let mut i = PageIndex::new();
    i.index_at("https://x.test/a", "a", "alpha", 10, 50);
    i.index_at("https://x.test/b", "b", "alpha", 10, 50);
    let hits = i.search("alpha", 10);
    assert_eq!(hits[0].url, "https://x.test/b");
    assert_eq!(hits[1].url, "https://x.test/a");
}

#[test]
fn index_collapses_whitespace_and_clips_text() {
    let mut i = PageIndex::new();
    let long = "word ".repeat(2000);
    i.index_at("https://x.test", "t", &long, 10, 1);
    let docs = i.documents();
    assert_eq!(docs.len(), 1);
    assert_eq!(docs[0].text.len(), 6000);
    assert!(docs[0].text.starts_with("word word"));
    assert_eq!(docs[0].visited_at, 1);
}

#[test]
fn tokenize_lowercases_splits_and_dedups() {
    let t: Vec<String> = tokenize("Hello, hello WORLD a x-ray 42")
        .into_iter()
        .map(|v| v.into_iter().collect())
        .collect();
    assert_eq!(t, vec!["hello", "world", "ray", "42"]);
    assert!(tokenize("a b c").is_empty());
}

#[test]
fn collapse_ws_joins_runs_with_single_spaces() {
    let c: String = collapse_ws("  a \t b\n\nc  ").into_iter().collect();
    assert_eq!(c, "a b c");
    assert!(collapse_ws(" \n ").is_empty());
}

#[test]
fn floor_char_boundary_counts_whole_characters() {
    let s: Vec<char> = "aé€😀".chars().collect();
    assert_eq!(floor_char_boundary(&s, 0), (0, 0));
    assert_eq!(floor_char_boundary(&s, 2), (1, 1));
    assert_eq!(floor_char_boundary(&s, 3), (2, 3));
    assert_eq!(floor_char_boundary(&s, 9), (3, 6));
    assert_eq!(floor_char_boundary(&s, 10), (4, 10));
    assert_eq!(floor_char_boundary(&s, 99), (4, 10));
}

#[test]
fn snippet_windows_around_the_word() {
    let text = format!("{}needle{}", "x ".repeat(60), " y".repeat(100));
    let word: Vec<char> = "needle".chars().collect();
    let s = snippet(&text, &word);
    assert!(s.starts_with('…'));
    assert!(s.ends_with('…'));
    assert!(s.contains("needle"));
    let short = snippet("Short text here", &word);
    assert_eq!(short, "Short text here");
}

#[test]
fn clock_reads_after_the_epoch() {
    assert!(unix_now() > 1_600_000_000);
}

#[test]
fn blank_text_leaves_the_index_as_it_was() {
    let mut i = idx();
    let before = i.documents().len();
    i.index("https://a.example/pricing", "Replaced?", " \t\n ");
    assert_eq!(i.len(), before);
    let hits = i.search("dollars", 10);
    assert_eq!(hits.len(), 1);
    assert_eq!(hits[0].title, "Acme pricing");
}

#[test]
fn hits_are_distinct_held_pages_holding_every_word() {
    let i = idx();
    let hits = i.search("sea", 10);
    assert_eq!(hits.len(), 2);
    assert_ne!(hits[0].url, hits[1].url);
    for h in &hits {
        assert!(h.url == "https://a.example/pricing" || h.url == "https://b.example/blog");
    }
}

#[test]
fn held_pages_have_clipped_nonempty_text_under_distinct_urls() {
    let mut i = PageIndex::default();
    let long = "word ".repeat(3000);
    i.index_capped("https://x.test/", "X", &long, 3);
    i.index_capped("https://x.test", "X", "again", 3);
    i.index_capped("https://y.test", "Y", "ééé", 3);
    let docs = i.documents();
    assert_eq!(docs.len(), 2);
    assert_eq!(docs[0].text, "again");
    assert!(docs.iter().all(|d| !d.text.is_empty() && d.text.len() <= 6000));
    let mut j = PageIndex::default();
    j.index_capped("https://x.test/", "X", &long, 3);
    assert_eq!(j.documents()[0].text.len(), 6000);
}
