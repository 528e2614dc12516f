use ai_news_aggregator::feed::{feed_items, feed_items_at, items_from_entries, looks_like_html, FeedEntry};
use ai_news_aggregator::html::Excerpt;
use ai_news_aggregator::page::{items_from_links, page_items_at};
use ai_news_aggregator::source::{
    adapter_for, categorize_source, needs_proxy, snapshot_sources, Adapter, Source,
};
use ai_news_aggregator::time::{
    normalize_datetime, normalize_datetime_at, read_instant, timestamp_text, Timestamp,
};
use ai_news_aggregator::trending::{
    detail_url, passes_quality_gate, project_created, trending_candidates, trending_item,
    trending_items_at, Candidate, Probed,
};

const NOW: Timestamp = Timestamp { secs: 1_700_000_000, nanos: 0 };
const NOW_TEXT: &str = "2023-11-14T22:13:20+00:00";

const FEED: &str = r#"<?xml version="1.0" encoding="UTF-8"?>
<rss version="2.0"><channel><title>Feed</title><link>https://example.com</link><description>d</description>
<item><title>First</title><link>https://Example.com/A/</link><description>Desc one</description>
<pubDate>Wed, 18 Feb 2015 23:16:09 GMT</pubDate>
<enclosure url="https://example.com/a.png" length="1" type="image/png"/></item>
<item><title>Second</title><link>https://example.com/b</link></item>
<item><title>No link</title></item>
<item><link>https://example.com/no-title</link></item>
</channel></rss>"#;

fn entry(n: usize) -> FeedEntry {
    FeedEntry {
        title: Some(format!("t{}", n)),
        link: Some(format!("https://example.com/{}", n)),
        description: None,
        pub_date: None,
        enclosure_url: None,
    }
}

#[test]
fn timestamps_are_written_in_rfc3339() {
    assert_eq!(timestamp_text(NOW), NOW_TEXT);
    assert_eq!(timestamp_text(Timestamp { secs: 0, nanos: 0 }), "1970-01-01T00:00:00+00:00");
    assert_eq!(
        timestamp_text(Timestamp { secs: 1, nanos: 500_000_000 }),
        "1970-01-01T00:00:01.500+00:00"
    );
}

#[test]
fn timestamps_out_of_range_have_no_text() {
    assert_eq!(timestamp_text(Timestamp { secs: i64::MAX, nanos: 0 }), "");
}

#[test]
fn datetime_normalizer_reads_rfc2822_then_rfc3339() {
    assert_eq!(
        normalize_datetime_at("Wed, 18 Feb 2015 23:16:09 GMT", NOW),
        "2015-02-18T23:16:09+00:00"
    );
    assert_eq!(
        normalize_datetime_at("1996-12-19T16:39:57-08:00", NOW),
        "1996-12-20T00:39:57+00:00"
    );
    assert_eq!(
        normalize_datetime_at("Wed, 18 Feb 2015 23:16:09 +0200", NOW),
        "2015-02-18T21:16:09+00:00"
    );
}

#[test]
fn datetime_normalizer_substitutes_now() {
    assert_eq!(normalize_datetime_at("", NOW), NOW_TEXT);
    assert_eq!(normalize_datetime_at("garbage", NOW), NOW_TEXT);
    assert_eq!(normalize_datetime_at("2015-02-30", NOW), NOW_TEXT);
}

#[test]
fn datetime_normalizer_with_the_clock_never_fails() {
    assert_eq!(normalize_datetime("Wed, 18 Feb 2015 23:16:09 GMT"), "2015-02-18T23:16:09+00:00");
    let made_up = normalize_datetime("garbage");
    assert!(read_instant(&made_up).is_some());
    let for_empty = normalize_datetime("");
    assert!(read_instant(&for_empty).is_some());
}

#[test]
fn read_instant_tells_readable_from_unreadable() {
    assert_eq!(read_instant("1970-01-01T00:00:10Z"), Some(Timestamp { secs: 10, nanos: 0 }));
    assert_eq!(read_instant("Thu, 01 Jan 1970 00:01:00 GMT"), Some(Timestamp { secs: 60, nanos: 0 }));
    assert_eq!(read_instant(""), None);
    assert_eq!(read_instant("soon"), None);
}

#[test]
fn html_in_place_of_a_feed_is_recognised() {
    assert!(looks_like_html("<!DOCTYPE html><html><body>hi</body></html>"));
    assert!(looks_like_html("Just a moment..."));
    assert!(looks_like_html("Checking your browser before accessing"));
    assert!(looks_like_html("Access Denied"));
    assert!(looks_like_html("<title>404 Not Found</title>"));
    assert!(looks_like_html("Page Not Found"));
    assert!(looks_like_html("<HTML lang=en>"));
    assert!(!looks_like_html(FEED));
    assert!(!looks_like_html(""));
}

#[test]
fn feed_adapter_reads_items() {
    let items = feed_items_at(FEED, NOW);
    assert_eq!(items.len(), 2);
    assert_eq!(items[0].title, "First");
    assert_eq!(items[0].url, "https://example.com/a");
    assert_eq!(items[0].content, "Desc one");
    assert_eq!(items[0].published_at, "2015-02-18T23:16:09+00:00");
    assert_eq!(items[0].image_url.as_deref(), Some("https://example.com/a.png"));
    assert_eq!(items[1].title, "Second");
    assert_eq!(items[1].url, "https://example.com/b");
    assert_eq!(items[1].content, "No description available");
    assert_eq!(items[1].published_at, NOW_TEXT);
    assert_eq!(items[1].image_url, None);
}

#[test]
fn feed_adapter_yields_nothing_for_html_or_garbage() {
    assert!(feed_items_at("<!doctype html><html></html>", NOW).is_empty());
    assert!(feed_items_at("this is no feed", NOW).is_empty());
    assert!(feed_items_at("", NOW).is_empty());
    assert!(feed_items("this is no feed").is_empty());
}

#[test]
fn feed_adapter_with_the_clock_reads_the_same_items() {
    let items = feed_items(FEED);
    assert_eq!(items.len(), 2);
    assert_eq!(items[0].published_at, "2015-02-18T23:16:09+00:00");
    assert!(read_instant(&items[1].published_at).is_some());
}

#[test]
fn feed_adapter_looks_at_the_first_twelve_entries() {
    let mut entries: Vec<FeedEntry> = (0..20).map(entry).collect();
    entries[1].link = None;
    entries[3].title = None;
    entries[12].description = Some("late".to_string());
    let items = items_from_entries(&entries, NOW);
    assert_eq!(items.len(), 10);
    assert_eq!(items[0].title, "t0");
    assert_eq!(items[1].title, "t2");
    assert_eq!(items[2].title, "t4");
    assert_eq!(items[9].title, "t11");
}

#[test]
fn feed_adapter_takes_fewer_than_twelve_as_they_are() {
    let entries: Vec<FeedEntry> = (0..3).map(entry).collect();
    assert_eq!(items_from_entries(&entries, NOW).len(), 3);
    assert_eq!(items_from_entries(&Vec::new(), NOW).len(), 0);
}

#[test]
fn page_adapter_keeps_absolute_links_with_text() {
    let page = r#"<html><body>
        <a href="https://Example.com/One/"> First <b>story</b> </a>
        <a href="/relative">Relative</a>
        <a href="https://example.com/empty">   </a>
        <a>No target</a>
        <a href="http://example.com/two">Second</a>
        </body></html>"#;
    let items = page_items_at(page, NOW);
    assert_eq!(items.len(), 2);
    assert_eq!(items[0].title, "First  story");
    assert_eq!(items[0].url, "https://example.com/one");
    assert_eq!(items[0].content, "Web-scraped content");
    assert_eq!(items[0].published_at, NOW_TEXT);
    assert_eq!(items[0].image_url, None);
    assert_eq!(items[1].title, "Second");
    assert_eq!(items[1].url, "http://example.com/two");
}

#[test]
fn page_adapter_caps_the_kept_links_at_twelve() {
    let mut links = Vec::new();
    for n in 0..30 {
        links.push(Excerpt {
            attr: if n % 2 == 0 { Some(format!("https://example.com/{}", n)) } else { None },
            text: vec![format!("link {}", n)],
        });
    }
    let items = items_from_links(&links, NOW);
    assert_eq!(items.len(), 12);
    assert_eq!(items[0].title, "link 0");
    assert_eq!(items[11].title, "link 22");
}

#[test]
fn page_adapter_joins_text_nodes_with_a_blank() {
    let links = vec![Excerpt {
        attr: Some("http://a".to_string()),
        text: vec![" a".to_string(), "b".to_string(), "c ".to_string()],
    }];
    let items = items_from_links(&links, NOW);
    assert_eq!(items[0].title, "a b c");
}

#[test]
fn quality_gate_literal_cases() {
    assert!(passes_quality_gate(Some(5), 25000));
    assert!(!passes_quality_gate(Some(5), 15000));
    assert!(passes_quality_gate(Some(90), 11000));
    assert!(!passes_quality_gate(Some(90), 9000));
    assert!(passes_quality_gate(None, 10001));
}

#[test]
fn quality_gate_thresholds_are_strict() {
    assert!(!passes_quality_gate(Some(13), 20000));
    assert!(passes_quality_gate(Some(13), 20001));
    assert!(!passes_quality_gate(Some(14), 30000));
    assert!(passes_quality_gate(Some(14), 30001));
    assert!(!passes_quality_gate(Some(59), 30000));
    assert!(!passes_quality_gate(Some(60), 10000));
    assert!(passes_quality_gate(Some(60), 10001));
    assert!(!passes_quality_gate(None, 10000));
    assert!(passes_quality_gate(Some(-3), 20001));
    assert!(!passes_quality_gate(Some(-3), 20000));
}

const LISTING: &str = r#"<html><body>
<article class="Box-row"><h2><a href="/rust-lang/rust"> rust-lang / rust </a></h2>
<p> Empowering everyone </p><span itemprop="programmingLanguage">Rust</span>
<a href="/rust-lang/rust/stargazers"> 95,000 </a></article>
<article class="Box-row"><h2><a href="/small/proj">small / proj</a></h2>
<a href="/small/proj/stargazers">1.2k</a></article>
<article class="Box-row"><p>no project link</p></article>
<article class="Other"><h2><a href="/not/listed">x</a></h2></article>
</body></html>"#;

#[test]
fn trending_first_phase_reads_candidates() {
    let found = trending_candidates(LISTING);
    assert_eq!(found.len(), 2);
    assert_eq!(found[0].path, "/rust-lang/rust");
    assert_eq!(found[0].name, "rust-lang / rust");
    assert_eq!(found[0].description, "Empowering everyone");
    assert_eq!(found[0].language, "Rust");
    assert_eq!(found[0].stars, 95000);
    assert_eq!(found[1].path, "/small/proj");
    assert_eq!(found[1].name, "small / proj");
    assert_eq!(found[1].description, "");
    assert_eq!(found[1].language, "");
    assert_eq!(found[1].stars, 1200);
    assert!(trending_candidates("").is_empty());
}

fn candidate(path: &str, language: &str, description: &str, stars: u32) -> Candidate {
    Candidate {
        path: path.to_string(),
        name: "owner / name".to_string(),
        description: description.to_string(),
        language: language.to_string(),
        stars,
    }
}

fn detail_made_days_ago(days: i64) -> String {
    let made = timestamp_text(Timestamp { secs: NOW.secs - days * 86_400, nanos: 0 });
    format!(
        "<html><body><relative-time datetime=\"bad\">x</relative-time>\
         <relative-time datetime=\"{}\">y</relative-time>\
         <time datetime=\"2001-01-01T00:00:00Z\">z</time></body></html>",
        made
    )
}

#[test]
fn trending_detail_address() {
    assert_eq!(
        detail_url(&candidate("/a/b", "", "", 1)).as_deref(),
        Some("https://github.com/a/b")
    );
    assert_eq!(detail_url(&candidate("", "", "", 1)), None);
}

#[test]
fn trending_reads_the_first_readable_date() {
    assert_eq!(
        project_created(&detail_made_days_ago(5)),
        Some(Timestamp { secs: NOW.secs - 5 * 86_400, nanos: 0 })
    );
    assert_eq!(
        project_created("<time datetime=\"1970-01-01T00:00:07Z\">t</time>"),
        Some(Timestamp { secs: 7, nanos: 0 })
    );
    assert_eq!(project_created("<p>nothing</p>"), None);
    assert_eq!(project_created("<relative-time>no attribute</relative-time>"), None);
}

#[test]
fn trending_second_phase_applies_the_gate_by_age() {
    let young = |stars| Probed {
        candidate: candidate("/a/b", "Rust", "desc", stars),
        detail: Some(detail_made_days_ago(5)),
    };
    assert!(trending_item(&young(25000), NOW).is_some());
    assert!(trending_item(&young(15000), NOW).is_none());
    let middle = |stars| Probed {
        candidate: candidate("/a/b", "Rust", "desc", stars),
        detail: Some(detail_made_days_ago(30)),
    };
    assert!(trending_item(&middle(30000), NOW).is_none());
    assert!(trending_item(&middle(30001), NOW).is_some());
    let old = |stars| Probed {
        candidate: candidate("/a/b", "Rust", "desc", stars),
        detail: Some(detail_made_days_ago(90)),
    };
    assert!(trending_item(&old(11000), NOW).is_some());
    assert!(trending_item(&old(9000), NOW).is_none());
    let unknown = |stars| Probed { candidate: candidate("/a/b", "Rust", "desc", stars), detail: None };
    assert!(trending_item(&unknown(10001), NOW).is_some());
    assert!(trending_item(&unknown(10000), NOW).is_none());
    let undated = Probed {
        candidate: candidate("/a/b", "", "", 10001),
        detail: Some("<p>no date</p>".to_string()),
    };
    assert!(trending_item(&undated, NOW).is_some());
}

#[test]
fn trending_counts_whole_days() {
    let almost = Probed {
        candidate: candidate("/a/b", "", "", 25000),
        detail: Some(format!(
            "<relative-time datetime=\"{}\">x</relative-time>",
            timestamp_text(Timestamp { secs: NOW.secs - 14 * 86_400 + 1, nanos: 0 })
        )),
    };
    assert!(trending_item(&almost, NOW).is_some());
    let exactly = Probed {
        candidate: candidate("/a/b", "", "", 25000),
        detail: Some(format!(
            "<relative-time datetime=\"{}\">x</relative-time>",
            timestamp_text(Timestamp { secs: NOW.secs - 14 * 86_400, nanos: 0 })
        )),
    };
    assert!(trending_item(&exactly, NOW).is_none());
}

#[test]
fn trending_item_is_shaped_from_the_candidate() {
    let with_all = Probed { candidate: candidate("/Owner/Name/", "Rust", "A project", 50000), detail: None };
    let item = trending_item(&with_all, NOW).unwrap();
    assert_eq!(item.title, "owner / name [Rust]");
    assert_eq!(item.url, "https://github.com/owner/name");
    assert_eq!(item.content, "A project");
    assert_eq!(item.published_at, NOW_TEXT);
    assert_eq!(item.image_url, None);
    let bare = Probed { candidate: candidate("/o/n", "", "", 50000), detail: None };
    let item = trending_item(&bare, NOW).unwrap();
    assert_eq!(item.title, "owner / name");
    assert_eq!(item.content, "GitHub trending project");
}

#[test]
fn trending_passes_over_candidates_without_a_path() {
    let pathless = Probed { candidate: candidate("", "Rust", "desc", 99999), detail: None };
    assert!(trending_item(&pathless, NOW).is_none());
}

#[test]
fn trending_second_phase_keeps_listing_order() {
    let probed = vec![
        Probed { candidate: candidate("/a/one", "", "", 50000), detail: None },
        Probed { candidate: candidate("/a/two", "", "", 5), detail: None },
        Probed { candidate: candidate("/a/three", "", "", 10001), detail: None },
    ];
    let items = trending_items_at(&probed, NOW);
    assert_eq!(items.len(), 2);
    assert_eq!(items[0].url, "https://github.com/a/one");
    assert_eq!(items[1].url, "https://github.com/a/three");
}

#[test]
fn adapter_dispatch() {
    assert_eq!(adapter_for("RSS", "https://hnrss.org/frontpage"), Some(Adapter::Feed));
    assert_eq!(adapter_for("RSS", "https://github.com/trending"), Some(Adapter::Feed));
    assert_eq!(adapter_for("WEB", "https://github.com/trending/rust"), Some(Adapter::TrendingList));
    assert_eq!(adapter_for("WEB", "https://example.com/news"), Some(Adapter::Page));
    assert_eq!(adapter_for("web", "https://example.com/news"), None);
    assert_eq!(adapter_for("", ""), None);
}

#[test]
fn proxy_is_skipped_for_domestic_sites_only() {
    assert!(!needs_proxy(Adapter::Feed, "https://www.oschina.net/news/rss"));
    assert!(needs_proxy(Adapter::Feed, "https://hnrss.org/frontpage"));
    assert!(!needs_proxy(Adapter::Page, "https://juejin.cn/"));
    assert!(needs_proxy(Adapter::TrendingList, "https://github.com/trending"));
    assert!(needs_proxy(Adapter::TrendingList, "https://mirror.cn/github.com/trending"));
}

#[test]
fn sources_are_categorized_by_name() {
    assert_eq!(categorize_source("GitHub Trending Rust"), "GitHub");
    assert_eq!(categorize_source("GitHub AI"), "GitHub");
    assert_eq!(categorize_source("Hacker News AI"), "AI");
    assert_eq!(categorize_source("人工智能日报"), "AI");
    assert_eq!(categorize_source("智能硬件"), "AI");
    assert_eq!(categorize_source("Hacker News Frontpage"), "Tech");
    assert_eq!(categorize_source("github"), "Tech");
    assert_eq!(categorize_source(""), "Tech");
}

#[test]
fn snapshot_takes_the_first_twenty_active_sources() {
    let mut all = Vec::new();
    for n in 0..50 {
        all.push(Source {
            name: format!("s{}", n),
            url: format!("https://example.com/{}", n),
            source_type: "RSS".to_string(),
            is_active: n % 2 == 1,
        });
    }
    let picked = snapshot_sources(&all);
    assert_eq!(picked.len(), 20);
    assert_eq!(picked[0].name, "s1");
    assert_eq!(picked[19].name, "s39");
    assert!(picked.iter().all(|s| s.is_active));
    assert_eq!(snapshot_sources(&all[..5].iter().map(|s| s.duplicate()).collect()).len(), 2);
    assert!(snapshot_sources(&Vec::new()).is_empty());
}
