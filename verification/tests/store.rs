use ai_news_aggregator::article::Article;
use ai_news_aggregator::commands::{
    article_bookmark, article_mark_read, manual_add, manual_add_with, manual_article,
    manual_error_text, manual_plan, BookmarkPayload, ListQuery, ManualAddPayload, ManualError,
    MarkReadPayload, SearchQuery,
};
use ai_news_aggregator::ingest::cleanup_old_articles;
use ai_news_aggregator::order::text_le;
use ai_news_aggregator::persist::Stamp;
use ai_news_aggregator::store::{ArticleStore, InsertOutcome};

fn article(n: usize) -> Article {
    Article {
        id: format!("id-{}", n),
        title: format!("Title {}", n),
        summary: format!("Summary {}", n),
        content: format!("Content {}", n),
        url: format!("https://example.com/{}", n),
        source: "Source".to_string(),
        category: "Tech".to_string(),
        published_at: "2024-01-01T00:00:00+00:00".to_string(),
        fetched_at: format!("2024-01-01T00:00:00.{:06}+00:00", n),
        heat_score_bits: 0,
        is_read: false,
        is_bookmarked: false,
        image_url: String::new(),
    }
}

fn filled(n: usize) -> ArticleStore {
    let mut store = ArticleStore::new();
    for k in 0..n {
        assert!(matches!(store.insert(article(k)), InsertOutcome::Inserted(_)));
    }
    store
}

fn assert_consistent(store: &ArticleStore) {
    let rows = store.rows();
    let index = store.index();
    assert_eq!(rows.len(), index.len());
    for (r, e) in rows.iter().zip(index.iter()) {
        assert_eq!(r.row, e.row);
        assert_eq!(r.article.title, e.title);
        assert_eq!(r.article.summary, e.summary);
        assert_eq!(r.article.content, e.content);
    }
    for (i, a) in rows.iter().enumerate() {
        for b in rows.iter().skip(i + 1) {
            assert_ne!(a.article.url, b.article.url);
            assert_ne!(a.article.id, b.article.id);
            assert_ne!(a.row, b.row);
        }
        assert_eq!(index.iter().filter(|e| e.row == a.row).count(), 1);
    }
}

#[test]
fn text_order_is_lexicographic() {
    assert!(text_le("", ""));
    assert!(text_le("", "a"));
    assert!(!text_le("a", ""));
    assert!(text_le("a", "a"));
    assert!(text_le("a", "ab"));
    assert!(!text_le("ab", "a"));
    assert!(text_le("2024-01-01T00:00:00+00:00", "2024-01-02T00:00:00+00:00"));
    assert!(!text_le("2024-01-02", "2024-01-01"));
    assert!(text_le("Z", "a"));
    assert!(text_le("z", "é"));
}

#[test]
fn insert_stores_article_and_index_entry_together() {
    let mut store = ArticleStore::new();
    assert_eq!(store.len(), 0);
    assert_eq!(store.insert(article(1)), InsertOutcome::Inserted(1));
    assert_eq!(store.insert(article(2)), InsertOutcome::Inserted(2));
    assert_eq!(store.len(), 2);
    assert_eq!(store.next_row(), 3);
    assert_eq!(store.rows()[1].article.url, "https://example.com/2");
    assert_eq!(store.index()[1].row, 2);
    assert_eq!(store.index()[1].title, "Title 2");
    assert!(store.contains_url("https://example.com/1"));
    assert!(!store.contains_url("https://example.com/3"));
    assert_eq!(store.position_of_url("https://example.com/2"), Some(1));
    assert_eq!(store.position_of_id("id-1"), Some(0));
    assert_eq!(store.position_of_id("id-9"), None);
    assert_consistent(&store);
}

#[test]
fn duplicate_urls_are_passed_over() {
    let mut store = filled(3);
    let mut again = article(1);
    again.id = "another-id".to_string();
    again.title = "Another title".to_string();
    assert_eq!(store.insert(again), InsertOutcome::Duplicate);
    assert_eq!(store.len(), 3);
    assert_eq!(store.rows()[1].article.title, "Title 1");
    assert_consistent(&store);
}

#[test]
fn insert_refuses_a_taken_identifier_or_row() {
    let mut store = filled(2);
    let mut clash = article(7);
    clash.id = "id-0".to_string();
    assert_eq!(store.insert(clash), InsertOutcome::IdTaken);
    assert_eq!(store.insert_at(1, article(8)), InsertOutcome::NoRow);
    assert_eq!(store.insert_at(u64::MAX, article(8)), InsertOutcome::NoRow);
    assert_eq!(store.len(), 2);
    assert_eq!(store.insert_at(40, article(8)), InsertOutcome::Inserted(40));
    assert_eq!(store.next_row(), 41);
    assert_eq!(store.insert(article(9)), InsertOutcome::Inserted(41));
    assert_consistent(&store);
}

#[test]
fn any_sequence_of_inserts_keeps_urls_unique() {
    let mut store = ArticleStore::new();
    let mut inserted = 0;
    for k in 0..200 {
        let mut a = article(k % 17);
        a.id = format!("id-{}", k);
        if let InsertOutcome::Inserted(_) = store.insert(a) {
            inserted += 1;
        }
        assert_consistent(&store);
    }
    assert_eq!(inserted, 17);
    assert_eq!(store.len(), 17);
}

#[test]
fn retention_is_a_no_op_at_or_below_the_cap() {
    let mut store = filled(300);
    assert!(store.evict_excess().is_empty());
    assert_eq!(store.len(), 300);
    let mut small = filled(3);
    assert_eq!(cleanup_old_articles(&mut small).0.deleted, 0);
    assert_eq!(small.len(), 3);
}

#[test]
fn retention_evicts_the_oldest_down_to_the_cap() {
    let mut store = ArticleStore::new();
    for k in 0..310 {
        let mut a = article(k);
        // Stored out of order: the age decides, not the place.
        a.fetched_at = format!("2024-01-01T00:00:00.{:06}+00:00", (k * 7) % 310);
        store.insert(a);
    }
    let removed = store.evict_excess();
    assert_eq!(removed.len(), 10);
    assert_eq!(store.len(), 300);
    let stamps: Vec<&str> = removed.iter().map(|r| r.article.fetched_at.as_str()).collect();
    for k in 0..10 {
        assert_eq!(stamps[k], format!("2024-01-01T00:00:00.{:06}+00:00", k));
    }
    for r in store.rows() {
        assert!(r.article.fetched_at.as_str() >= "2024-01-01T00:00:00.000010+00:00");
    }
    assert_consistent(&store);
}

#[test]
fn retention_takes_the_first_of_equally_old_articles() {
    let mut store = ArticleStore::new();
    for k in 0..302 {
        let mut a = article(k);
        a.fetched_at = if k == 7 { "2023".to_string() } else { "2024".to_string() };
        store.insert(a);
    }
    let removed = store.evict_excess();
    let ids: Vec<&str> = removed.iter().map(|r| r.article.id.as_str()).collect();
    assert_eq!(ids, vec!["id-7", "id-0"]);
    assert_eq!(store.rows()[0].article.id, "id-1");
    assert_consistent(&store);
}

#[test]
fn retention_never_evicts_pinned_articles() {
    let mut store = ArticleStore::new();
    for k in 0..305 {
        let mut a = article(k);
        a.is_bookmarked = k < 3;
        store.insert(a);
    }
    let removed = store.evict_excess();
    assert_eq!(removed.len(), 5);
    assert!(removed.iter().all(|r| !r.article.is_bookmarked));
    let ids: Vec<&str> = removed.iter().map(|r| r.article.id.as_str()).collect();
    assert_eq!(ids, vec!["id-3", "id-4", "id-5", "id-6", "id-7"]);
    assert_eq!(store.len(), 300);
    assert_eq!(store.count_pinned(), 3);
    assert!(store.position_of_id("id-0").is_some());
    assert!(store.position_of_id("id-2").is_some());
    assert_consistent(&store);
}

#[test]
fn retention_cap_is_soft_when_bookmarks_dominate() {
    let mut store = ArticleStore::new();
    for k in 0..320 {
        let mut a = article(k);
        a.is_bookmarked = k % 32 != 0;
        store.insert(a);
    }
    let pinned = store.count_pinned();
    assert_eq!(pinned, 310);
    let (result, removed) = cleanup_old_articles(&mut store);
    assert_eq!(result.deleted, 10);
    assert_eq!(removed.len(), 10);
    assert_eq!(store.len(), 310);
    assert_eq!(store.count_pinned(), 310);
    assert_eq!(cleanup_old_articles(&mut store).0.deleted, 0);
    assert_consistent(&store);
}

#[test]
fn bookmark_and_read_flags() {
    let mut store = filled(3);
    assert!(article_bookmark(&mut store, &BookmarkPayload { id: "id-1".to_string(), value: true }));
    assert!(store.rows()[1].article.is_bookmarked);
    assert!(!store.rows()[0].article.is_bookmarked);
    assert!(article_bookmark(&mut store, &BookmarkPayload { id: "id-1".to_string(), value: false }));
    assert!(!store.rows()[1].article.is_bookmarked);
    assert!(!article_bookmark(&mut store, &BookmarkPayload { id: "nope".to_string(), value: true }));
    assert!(article_mark_read(&mut store, &MarkReadPayload { id: "id-2".to_string(), value: false }));
    assert!(store.rows()[2].article.is_read);
    assert!(!article_mark_read(&mut store, &MarkReadPayload { id: "nope".to_string(), value: true }));
    assert_consistent(&store);
}

#[test]
fn summary_update_reaches_the_index() {
    let mut store = filled(3);
    assert!(store.set_summary("id-1", "A better summary".to_string()));
    assert_eq!(store.rows()[1].article.summary, "A better summary");
    assert_eq!(store.index()[1].summary, "A better summary");
    assert_eq!(store.rows()[0].article.summary, "Summary 0");
    assert!(!store.set_summary("nope", "x".to_string()));
    assert_consistent(&store);
}

#[test]
fn list_window() {
    let q = |page, page_size| ListQuery { page, page_size, category: None };
    let w = q(None, 20).window();
    assert_eq!((w.page, w.page_size, w.offset), (1, 20, Some(0)));
    let w = q(Some(0), 20).window();
    assert_eq!((w.page, w.offset), (1, Some(0)));
    let w = q(Some(3), 20).window();
    assert_eq!((w.page, w.offset), (3, Some(40)));
    let w = q(Some(usize::MAX), 2).window();
    assert_eq!((w.page, w.offset), (usize::MAX, None));
    let w = q(Some(5), 0).window();
    assert_eq!(w.offset, Some(0));
}

#[test]
fn list_category_filter() {
    let q = |c: Option<&str>| ListQuery { page: None, page_size: 10, category: c.map(String::from) };
    assert_eq!(q(None).category_filter(), None);
    assert_eq!(q(Some("all")).category_filter(), None);
    assert_eq!(q(Some("AI")).category_filter().as_deref(), Some("AI"));
    assert_eq!(q(Some("All")).category_filter().as_deref(), Some("All"));
    assert_eq!(q(Some("")).category_filter().as_deref(), Some(""));
}

#[test]
fn search_term_matches_by_prefix() {
    assert_eq!(SearchQuery { keyword: "rust".to_string() }.term(), "rust*");
    assert_eq!(SearchQuery { keyword: String::new() }.term(), "*");
}

const PAGE: &str = r#"<html><head><title>  The Title </title>
<meta property="og:title" content="Shared title">
<meta name="description" content="A description">
<meta property="og:description" content="Shared description">
<meta property="og:image" content="https://example.com/i.png">
</head><body><h1>Heading</h1></body></html>"#;

fn stamp(id: &str) -> Stamp {
    Stamp { id: id.to_string(), fetched_at: "2024-05-05T00:00:00+00:00".to_string() }
}

#[test]
fn manual_article_is_read_off_the_page() {
    let a = manual_article(PAGE, "https://example.com/p", stamp("m1"));
    assert_eq!(a.id, "m1");
    assert_eq!(a.title, "The Title");
    assert_eq!(a.content, "A description");
    assert_eq!(a.image_url, "https://example.com/i.png");
    assert_eq!(a.url, "https://example.com/p");
    assert_eq!(a.source, "手动添加");
    assert_eq!(a.category, "Tech");
    assert_eq!(a.published_at, "2024-05-05T00:00:00+00:00");
    assert_eq!(a.fetched_at, "2024-05-05T00:00:00+00:00");
    assert_eq!(
        a.summary,
        "This English-language piece centers on 'The Title', covering A description among other \
         key points. Click through for the full article."
    );
    assert!(!a.is_read && !a.is_bookmarked);
}

#[test]
fn manual_article_falls_back_step_by_step() {
    let shared = "<html><head><meta property=\"og:title\" content=\"Shared\">\
        <meta property=\"og:description\" content=\"Shared description\"></head>\
        <body><h1>Heading</h1></body></html>";
    let a = manual_article(shared, "u", stamp("m"));
    assert_eq!(a.title, "Shared");
    assert_eq!(a.content, "Shared description");
    assert_eq!(a.image_url, "");
    let heading = "<html><body><h1> Heading </h1></body></html>";
    assert_eq!(manual_article(heading, "u", stamp("m")).title, "Heading");
    let bare = manual_article("<html><body><p>x</p></body></html>", "u", stamp("m"));
    assert_eq!(bare.title, "未知标题");
    assert_eq!(bare.content, "手动添加的文章");
    let empty_title = manual_article("<html><head><title></title></head><body><h1>H</h1></body></html>", "u", stamp("m"));
    assert_eq!(empty_title.title, "");
}

#[test]
fn manual_add_refuses_a_known_url() {
    let mut store = filled(2);
    let known = ManualAddPayload { url: " HTTPS://EXAMPLE.COM/1/ ".to_string() };
    assert_eq!(manual_plan(&store, &known).unwrap_err(), ManualError::AlreadyExists);
    assert_eq!(manual_add(&mut store, &known, PAGE).unwrap_err(), ManualError::AlreadyExists);
    assert_eq!(store.len(), 2);
    assert_eq!(manual_error_text(ManualError::AlreadyExists), "该链接已存在");
    assert_eq!(manual_error_text(ManualError::Refused(InsertOutcome::IdTaken)), "插入失败");
}

#[test]
fn manual_add_stores_a_new_url() {
    let mut store = filled(2);
    let fresh = ManualAddPayload { url: "https://Example.com/New/".to_string() };
    let plan = manual_plan(&store, &fresh).unwrap();
    assert_eq!(plan.normalized_url, "https://example.com/new");
    assert!(plan.use_proxy);
    let a = manual_add(&mut store, &fresh, PAGE).unwrap();
    assert_eq!(a.url, "https://example.com/new");
    assert_eq!(a.title, "The Title");
    assert_eq!(a.id.len(), 36);
    assert_eq!(a.published_at, a.fetched_at);
    assert_eq!(store.len(), 3);
    assert_eq!(store.rows()[2].article.id, a.id);
    assert_eq!(store.index()[2].title, "The Title");
    assert_eq!(manual_add(&mut store, &fresh, PAGE).unwrap_err(), ManualError::AlreadyExists);
    assert_consistent(&store);
}

#[test]
fn manual_add_with_a_taken_identifier_is_refused() {
    let mut store = filled(2);
    let fresh = ManualAddPayload { url: "https://example.com/new".to_string() };
    assert_eq!(
        manual_add_with(&mut store, &fresh, PAGE, stamp("id-0")).unwrap_err(),
        ManualError::Refused(InsertOutcome::IdTaken)
    );
    assert_eq!(store.len(), 2);
}

#[test]
fn manual_plan_skips_the_proxy_for_domestic_sites() {
    let store = ArticleStore::new();
    let plan = manual_plan(&store, &ManualAddPayload { url: "https://www.oschina.net/p/1".to_string() }).unwrap();
    assert!(!plan.use_proxy);
}
