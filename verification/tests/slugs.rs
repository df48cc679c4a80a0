use forum::slug::{slugify, SlugSearch};

#[test]
fn slugify_examples() {
    assert_eq!(slugify("Hello, World!"), "hello-world");
    assert_eq!(slugify("  --Rust 2024-- "), "rust-2024");
    assert_eq!(slugify("!!!"), "");
    assert_eq!(slugify(""), "");
    assert_eq!(slugify("ÄBC déf"), "bc-d-f");
    assert_eq!(slugify("General Discussion"), "general-discussion");
    assert_eq!(slugify("a---b"), "a-b");
}

#[test]
fn slugify_twice_is_slugify_once() {
    for t in ["Hello, World!", " x ", "A-B-C", "--", "Ünïcödé 42"] {
        let once = slugify(t);
        assert_eq!(slugify(&once), once);
    }
}

#[test]
fn slug_search_appends_numbers() {
    let mut s = SlugSearch::new("topic");
    assert_eq!(s.candidate(), "topic");
    assert_eq!(s.taken(), 0);
    s.advance();
    assert_eq!(s.candidate(), "topic-2");
    s.advance();
    assert_eq!(s.candidate(), "topic-3");
    assert_eq!(s.taken(), 2);
    for _ in 0..8 {
        s.advance();
    }
    assert_eq!(s.candidate(), "topic-11");
}

#[test]
fn slugify_ignores_case_ends_and_is_short() {
    for t in ["Hello World", "rust 2024", "ÄbC-déf", "", "x"] {
        assert_eq!(slugify(&t.to_ascii_uppercase()), slugify(t));
        assert_eq!(slugify(&format!(" -{t}!")), slugify(t));
        assert!(slugify(t).chars().count() <= t.chars().count());
    }
}

#[test]
fn slug_search_reports_first_free() {
    let mut s = SlugSearch::new("news");
    assert_eq!(s.report(true), None);
    assert_eq!(s.report(true), None);
    assert_eq!(s.candidate(), "news-3");
    assert_eq!(s.report(false), Some("news-3".to_string()));
    let mut fresh = SlugSearch::new("news");
    assert_eq!(fresh.report(false), Some("news".to_string()));
}

#[test]
fn table_slugs_stay_unique_after_adding_topics() {
    let mut table: Vec<String> = vec!["hello".to_string(), "hello-2".to_string(), "other".to_string()];
    for _ in 0..3 {
        let mut search = SlugSearch::new("hello");
        let chosen = loop {
            let taken = table.iter().any(|s| s == search.candidate());
            if let Some(slug) = search.report(taken) {
                break slug;
            }
        };
        let before = table.clone();
        table.push(chosen);
        assert_eq!(table.len(), before.len() + 1);
        assert_eq!(&table[..before.len()], &before[..]);
    }
    assert_eq!(&table[3..], &["hello-3", "hello-4", "hello-5"]);
    for i in 0..table.len() {
        for j in i + 1..table.len() {
            assert_ne!(table[i], table[j]);
        }
    }
}
