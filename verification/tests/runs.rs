use ai_news_aggregator::feed::feed_items_at;
use ai_news_aggregator::ingest::{CrawlResult, IngestAction, IngestEvent, IngestRun, Stage};
use ai_news_aggregator::item::RawItem;
use ai_news_aggregator::persist::{make_article, persist_all, persist_with, Pending, Stamp};
use ai_news_aggregator::regenerate::{select_stale, Notice, RegenNext, RegenRun, RegenStage};
use ai_news_aggregator::settings::AiConfig;
use ai_news_aggregator::source::{Adapter, Source};
use ai_news_aggregator::store::{ArticleStore, InsertOutcome};
use ai_news_aggregator::summary::{make_zh_brief, SummaryError};
use ai_news_aggregator::time::Timestamp;

const NOW: Timestamp = Timestamp { secs: 1_700_000_000, nanos: 0 };

const FEED: &str = r#"<?xml version="1.0" encoding="UTF-8"?>
<rss version="2.0"><channel><title>Feed</title><link>https://example.com</link><description>d</description>
<item><title>With image</title><link>https://Example.com/One/</link><description>First body</description>
<enclosure url="https://example.com/one.png" length="1" type="image/png"/></item>
<item><title>Without image</title><link>https://example.com/two</link><description>Second body</description></item>
</channel></rss>"#;

fn source(name: &str, url: &str, kind: &str) -> Source {
    Source { name: name.to_string(), url: url.to_string(), source_type: kind.to_string(), is_active: true }
}

fn item(n: usize) -> RawItem {
    RawItem {
        title: format!("Item {}", n),
        url: format!("https://example.com/item/{}", n),
        content: format!("Body {}", n),
        published_at: "2024-01-01T00:00:00+00:00".to_string(),
        image_url: None,
    }
}

fn config() -> AiConfig {
    AiConfig {
        base_url: "https://api.example.com/v1/".to_string(),
        api_key: "SECRET-REDACTED".to_string(),
        model: "m".to_string(),
    }
}

/// Drives one run over a single feed source with the template summaries.
fn ingest_feed_once(store: &mut ArticleStore, body: &str) -> CrawlResult {
    let mut run = IngestRun::new(None);
    assert!(matches!(run.start(), IngestAction::LoadSources));
    let sources = vec![source("Hacker News AI", "https://hnrss.org/newest", "RSS")];
    let mut action = run.advance(IngestEvent::Sources(sources));
    loop {
        action = match action {
            IngestAction::Fetch { adapter, .. } => {
                assert_eq!(adapter, Adapter::Feed);
                run.advance(IngestEvent::Fetched(Ok(feed_items_at(body, NOW))))
            },
            IngestAction::Persist => run.persist(store),
            IngestAction::Evict => run.evict(store).0,
            IngestAction::Finish(result) => {
                assert_eq!(run.stage(), Stage::Done);
                return result;
            },
            other => panic!("unexpected action: {:?}", other),
        };
    }
}

#[test]
fn end_to_end_one_feed_two_items_then_nothing_new() {
    let mut store = ArticleStore::new();
    let first = ingest_feed_once(&mut store, FEED);
    assert_eq!(first, CrawlResult { inserted: 2, failed_sources: 0 });
    assert_eq!(store.len(), 2);
    let rows = store.rows();
    assert_ne!(rows[0].article.id, rows[1].article.id);
    assert_eq!(rows[0].article.url, "https://example.com/one");
    assert_eq!(rows[1].article.url, "https://example.com/two");
    assert_eq!(rows[0].article.image_url, "https://example.com/one.png");
    assert_eq!(rows[1].article.image_url, "");
    assert_eq!(rows[0].article.source, "Hacker News AI");
    assert_eq!(rows[0].article.category, "AI");
    assert_eq!(rows[0].article.summary, make_zh_brief("With image", "First body", ""));
    assert!(!rows[0].article.is_read && !rows[0].article.is_bookmarked);
    assert_eq!(rows[0].article.heat_score_bits, 0);
    let index = store.index();
    assert_eq!(index.len(), 2);
    assert_eq!((index[0].row, index[1].row), (rows[0].row, rows[1].row));
    assert_eq!(index[0].title, "With image");
    assert_eq!(index[1].content, "Second body");

    let second = ingest_feed_once(&mut store, FEED);
    assert_eq!(second, CrawlResult { inserted: 0, failed_sources: 0 });
    assert_eq!(store.len(), 2);
}

#[test]
fn a_failed_source_is_counted_and_passed_over() {
    let mut store = ArticleStore::new();
    let mut run = IngestRun::new(None);
    let sources = vec![
        source("Broken", "https://broken.example", "RSS"),
        source("Odd", "https://odd.example", "FTP"),
        source("Page", "https://page.example", "WEB"),
    ];
    let a = run.advance(IngestEvent::Sources(sources));
    match &a {
        IngestAction::Fetch { source, adapter, use_proxy } => {
            assert_eq!(source.name, "Broken");
            assert_eq!(*adapter, Adapter::Feed);
            assert!(*use_proxy);
        },
        other => panic!("unexpected action: {:?}", other),
    }
    assert_eq!(run.stage(), Stage::Fetching);
    let a = run.advance(IngestEvent::Fetched(Err("no route".to_string())));
    assert_eq!(run.failed_sources(), 1);
    match &a {
        IngestAction::Fetch { source, adapter, .. } => {
            assert_eq!(source.name, "Page");
            assert_eq!(*adapter, Adapter::Page);
        },
        other => panic!("unexpected action: {:?}", other),
    }
    assert!(run.pending().is_empty());
    let a = run.advance(IngestEvent::Fetched(Ok(vec![item(1), item(2)])));
    assert!(matches!(a, IngestAction::Persist));
    assert_eq!(run.stage(), Stage::Persisting);
    assert_eq!(run.pending().len(), 2);
    assert_eq!(run.pending()[0].source, "Page");
    assert_eq!(run.pending()[1].summary, make_zh_brief("Item 2", "Body 2", ""));
    assert!(matches!(run.persist(&mut store), IngestAction::Evict));
    assert_eq!(run.stage(), Stage::Evicting);
    match run.evict(&mut store).0 {
        IngestAction::Finish(r) => assert_eq!(r, CrawlResult { inserted: 2, failed_sources: 1 }),
        other => panic!("unexpected action: {:?}", other),
    }
    assert_eq!(store.len(), 2);
}

#[test]
fn sources_of_an_unknown_kind_are_not_fetched() {
    let mut store = ArticleStore::new();
    let mut run = IngestRun::new(None);
    let a = run.advance(IngestEvent::Sources(vec![
        source("Odd", "https://odd.example", "FTP"),
        source("Stranger", "https://stranger.example", ""),
    ]));
    assert!(matches!(a, IngestAction::Persist));
    assert_eq!(run.failed_sources(), 0);
    assert!(matches!(run.persist(&mut store), IngestAction::Evict));
    assert!(matches!(
        run.evict(&mut store).0,
        IngestAction::Finish(CrawlResult { inserted: 0, failed_sources: 0 })
    ));
}

#[test]
fn a_run_without_sources_goes_straight_to_the_store() {
    let mut store = ArticleStore::new();
    let mut run = IngestRun::new(None);
    assert_eq!(run.stage(), Stage::CollectingSources);
    assert!(matches!(run.advance(IngestEvent::Sources(Vec::new())), IngestAction::Persist));
    assert!(matches!(run.persist(&mut store), IngestAction::Evict));
    assert!(matches!(
        run.evict(&mut store).0,
        IngestAction::Finish(CrawlResult { inserted: 0, failed_sources: 0 })
    ));
}

#[test]
fn remote_summaries_are_asked_one_by_one_and_paced() {
    let mut run = IngestRun::new(Some(config()));
    let a = run.advance(IngestEvent::Sources(vec![
        source("One", "https://one.example", "RSS"),
        source("Two", "https://two.example", "RSS"),
    ]));
    assert!(matches!(a, IngestAction::Fetch { .. }));
    let a = run.advance(IngestEvent::Fetched(Ok(vec![item(1), item(2)])));
    match &a {
        IngestAction::Summarize(request) => {
            assert_eq!(request.endpoint, "https://api.example.com/v1/chat/completions");
            assert_eq!(request.authorization, "Bearer SECRET-REDACTED");
            assert_eq!(request.model, "m");
            assert_eq!(request.user, "标题：Item 1\n\n内容：Body 1");
        },
        other => panic!("unexpected action: {:?}", other),
    }
    assert_eq!(run.stage(), Stage::Summarizing);
    let a = run.advance(IngestEvent::Summarized(Ok("Remote one".to_string())));
    assert!(matches!(a, IngestAction::Pace(1)));
    assert_eq!(run.stage(), Stage::Pacing);
    let a = run.advance(IngestEvent::Paced);
    assert!(matches!(a, IngestAction::Summarize(_)));
    let a = run.advance(IngestEvent::Summarized(Err(SummaryError::Transport("down".to_string()))));
    assert!(matches!(a, IngestAction::Pace(1)));
    let a = run.advance(IngestEvent::Paced);
    match &a {
        IngestAction::Fetch { source, .. } => assert_eq!(source.name, "Two"),
        other => panic!("unexpected action: {:?}", other),
    }
    let a = run.advance(IngestEvent::Fetched(Ok(Vec::new())));
    assert!(matches!(a, IngestAction::Persist));
    let pending = run.pending();
    assert_eq!(pending.len(), 2);
    assert_eq!(pending[0].summary, "Remote one");
    assert_eq!(pending[1].summary, make_zh_brief("Item 2", "Body 2", ""));
    assert_eq!(pending[1].source, "One");
}

#[test]
fn events_out_of_turn_change_nothing() {
    let mut store = ArticleStore::new();
    let mut run = IngestRun::new(None);
    assert!(matches!(run.advance(IngestEvent::Paced), IngestAction::Stay));
    assert!(matches!(run.advance(IngestEvent::Fetched(Ok(vec![item(1)]))), IngestAction::Stay));
    assert!(matches!(run.advance(IngestEvent::Summarized(Ok("x".to_string()))), IngestAction::Stay));
    assert!(matches!(run.persist(&mut store), IngestAction::Stay));
    assert!(matches!(run.evict(&mut store).0, IngestAction::Stay));
    assert_eq!(run.stage(), Stage::CollectingSources);
    assert!(run.pending().is_empty());
    let a = run.advance(IngestEvent::Sources(vec![source("One", "https://one.example", "RSS")]));
    assert!(matches!(a, IngestAction::Fetch { .. }));
    assert!(matches!(run.advance(IngestEvent::Sources(Vec::new())), IngestAction::Stay));
    assert_eq!(run.stage(), Stage::Fetching);
}

#[test]
fn a_run_polls_at_most_twenty_sources() {
    let mut run = IngestRun::new(None);
    let sources: Vec<Source> =
        (0..30).map(|n| source(&format!("s{}", n), "https://x.example", "RSS")).collect();
    let mut action = run.advance(IngestEvent::Sources(sources));
    let mut fetched = 0;
    while let IngestAction::Fetch { .. } = action {
        fetched += 1;
        action = run.advance(IngestEvent::Fetched(Err("down".to_string())));
    }
    assert!(matches!(action, IngestAction::Persist));
    assert_eq!(fetched, 20);
    assert_eq!(run.failed_sources(), 20);
}

#[test]
fn a_run_ends_with_retention() {
    let mut store = ArticleStore::new();
    for n in 0..299 {
        let p = Pending { source: "Old".to_string(), item: item(1000 + n), summary: "s".to_string() };
        let stamp = Stamp { id: format!("old-{}", n), fetched_at: format!("2020-01-01T00:00:00.{:03}+00:00", n) };
        store.insert(make_article(&p, stamp));
    }
    let mut run = IngestRun::new(None);
    run.advance(IngestEvent::Sources(vec![source("One", "https://one.example", "WEB")]));
    let a = run.advance(IngestEvent::Fetched(Ok(vec![item(1), item(2), item(3)])));
    assert!(matches!(a, IngestAction::Persist));
    assert!(matches!(run.persist(&mut store), IngestAction::Evict));
    assert_eq!(store.len(), 302);
    let (finish, removed) = run.evict(&mut store);
    assert!(matches!(finish, IngestAction::Finish(CrawlResult { inserted: 3, failed_sources: 0 })));
    assert_eq!(removed.len(), 2);
    assert_eq!(removed[0].article.id, "old-0");
    assert_eq!(removed[1].article.id, "old-1");
    assert_eq!(store.len(), 300);
    assert!(store.position_of_id("old-0").is_none());
    assert!(store.position_of_id("old-1").is_none());
    assert!(store.position_of_id("old-2").is_some());
    assert!(store.contains_url("https://example.com/item/3"));
}

#[test]
fn persisting_skips_duplicates_within_one_pass() {
    let mut store = ArticleStore::new();
    let pending = vec![
        Pending { source: "S".to_string(), item: item(1), summary: "a".to_string() },
        Pending { source: "S".to_string(), item: item(1), summary: "b".to_string() },
        Pending { source: "S".to_string(), item: item(2), summary: "c".to_string() },
    ];
    let report = persist_all(&mut store, &pending);
    assert_eq!(report.inserted, 2);
    assert!(report.failure.is_none());
    assert_eq!(store.len(), 2);
    assert_eq!(store.rows()[0].article.summary, "a");
    assert!(ai_news_aggregator::time::read_instant(&store.rows()[0].article.fetched_at).is_some());
    let again = persist_all(&mut store, &pending);
    assert_eq!(again.inserted, 0);
    assert_eq!(store.len(), 2);
}

#[test]
fn persisting_with_given_stamps_uses_them_in_order() {
    let mut store = ArticleStore::new();
    let pending = vec![
        Pending { source: "GitHub Trending".to_string(), item: item(1), summary: "a".to_string() },
        Pending { source: "S".to_string(), item: item(2), summary: "b".to_string() },
    ];
    let stamps = vec![
        Stamp { id: "first".to_string(), fetched_at: "t1".to_string() },
        Stamp { id: "second".to_string(), fetched_at: "t2".to_string() },
    ];
    let report = persist_with(&mut store, &pending, stamps);
    assert_eq!(report.inserted, 2);
    assert_eq!(store.rows()[0].article.id, "first");
    assert_eq!(store.rows()[0].article.fetched_at, "t1");
    assert_eq!(store.rows()[0].article.category, "GitHub");
    assert_eq!(store.rows()[1].article.id, "second");
    assert_eq!(store.rows()[1].article.fetched_at, "t2");
    assert_eq!(store.rows()[1].article.category, "Tech");
}

#[test]
fn persisting_stops_at_a_refusal() {
    let mut store = ArticleStore::new();
    let pending = vec![
        Pending { source: "S".to_string(), item: item(1), summary: "a".to_string() },
        Pending { source: "S".to_string(), item: item(2), summary: "b".to_string() },
        Pending { source: "S".to_string(), item: item(3), summary: "c".to_string() },
    ];
    let stamps = vec![
        Stamp { id: "same".to_string(), fetched_at: "t".to_string() },
        Stamp { id: "same".to_string(), fetched_at: "t".to_string() },
        Stamp { id: "other".to_string(), fetched_at: "t".to_string() },
    ];
    let report = persist_with(&mut store, &pending, stamps);
    assert_eq!(report.inserted, 1);
    assert_eq!(report.failure, Some(InsertOutcome::IdTaken));
    assert_eq!(store.len(), 1);
}

fn store_with_summaries(summaries: &[&str]) -> ArticleStore {
    let mut store = ArticleStore::new();
    for (n, s) in summaries.iter().enumerate() {
        let p = Pending { source: "S".to_string(), item: item(n), summary: s.to_string() };
        store.insert(make_article(&p, Stamp { id: format!("id-{}", n), fetched_at: "t".to_string() }));
    }
    store
}

#[test]
fn stale_articles_are_selected_in_store_order() {
    let template = make_zh_brief("Item 2", "Body 2", "");
    let store = store_with_summaries(&["fine", "", &template, "also fine"]);
    let stale = select_stale(store.rows());
    assert_eq!(stale.len(), 2);
    assert_eq!(stale[0].id, "id-1");
    assert_eq!(stale[1].id, "id-2");
    assert_eq!(stale[1].title, "Item 2");
    assert_eq!(stale[1].content, "Body 2");
}

#[test]
fn a_batch_reports_start_progress_and_completion() {
    let template = make_zh_brief("Item 2", "Body 2", "");
    let mut store = store_with_summaries(&["fine", "", &template]);
    let (mut run, step) = RegenRun::begin(config(), store.rows());
    assert_eq!(step.notices.len(), 2);
    assert!(matches!(step.notices[0], Notice::Start { total: 2 }));
    match &step.notices[1] {
        Notice::Progress { current, total, title, updated } => {
            assert_eq!((*current, *total, title.as_str(), *updated), (1, 2, "Item 1", 0))
        },
        other => panic!("unexpected notice: {:?}", other),
    }
    match &step.next {
        RegenNext::Summarize(r) => assert_eq!(r.user, "标题：Item 1\n\n内容：Body 1"),
        other => panic!("unexpected step: {:?}", other),
    }
    assert_eq!(run.stage(), RegenStage::Summarizing);

    let step = run.record_summary(&mut store, Ok("Fresh one".to_string()));
    assert!(matches!(step.next, RegenNext::Pace(1)));
    match &step.notices[0] {
        Notice::Progress { current, total, title, updated } => {
            assert_eq!((*current, *total, title.as_str(), *updated), (1, 2, "Item 1", 1))
        },
        other => panic!("unexpected notice: {:?}", other),
    }
    assert_eq!(store.rows()[1].article.summary, "Fresh one");
    assert_eq!(store.index()[1].summary, "Fresh one");

    let step = run.paced();
    assert!(matches!(step.next, RegenNext::Summarize(_)));
    assert!(matches!(&step.notices[0], Notice::Progress { current: 2, total: 2, updated: 1, .. }));

    let step = run.record_summary(&mut store, Err(SummaryError::NoContent));
    assert!(matches!(step.next, RegenNext::Pace(1)));
    assert_eq!(store.rows()[2].article.summary, template);
    assert_eq!(run.updated(), 2);

    let step = run.paced();
    assert!(matches!(step.next, RegenNext::Finish(2)));
    assert_eq!(step.notices.len(), 1);
    assert!(matches!(step.notices[0], Notice::Complete { total_updated: 2, total_processed: 2 }));
    assert_eq!(run.stage(), RegenStage::Done);

    let step = run.paced();
    assert!(matches!(step.next, RegenNext::Stay));
    assert!(step.notices.is_empty());
    let step = run.record_summary(&mut store, Ok("late".to_string()));
    assert!(matches!(step.next, RegenNext::Stay));
}

#[test]
fn a_batch_with_nothing_due_is_over_at_once() {
    let store = store_with_summaries(&["fine", "also fine"]);
    let (run, step) = RegenRun::begin(config(), store.rows());
    assert_eq!(step.notices.len(), 2);
    assert!(matches!(step.notices[0], Notice::Start { total: 0 }));
    assert!(matches!(step.notices[1], Notice::Complete { total_updated: 0, total_processed: 0 }));
    assert!(matches!(step.next, RegenNext::Finish(0)));
    assert_eq!(run.stage(), RegenStage::Done);
}

#[test]
fn a_batch_knows_the_article_at_hand() {
    let store = store_with_summaries(&["", "fine"]);
    let (mut run, _step) = RegenRun::begin(config(), store.rows());
    assert_eq!(run.current().map(|a| a.id.as_str()), Some("id-0"));
    let mut store = store;
    run.record_summary(&mut store, Ok("new".to_string()));
    assert_eq!(run.current().map(|a| a.id.as_str()), Some("id-0"));
    run.paced();
    assert!(run.current().is_none());
}
