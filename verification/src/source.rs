//! The configured origins and how each is fetched and classified.

use vstd::prelude::*;
use crate::text::{has_substring, same_text, text_contains};
use crate::url::{is_chinese_site, names_domestic_site};

verus! {

/// A configured origin that the pipeline polls.
#[derive(Debug)]
pub struct Source {
    pub name: String,
    pub url: String,
    /// The kind of the source as it is stored: `RSS` for a feed, `WEB` for
    /// a page.
    pub source_type: String,
    pub is_active: bool,
}

/// What a `Source` holds, as plain values.
pub struct SourceView {
    pub name: Seq<char>,
    pub url: Seq<char>,
    pub source_type: Seq<char>,
    pub is_active: bool,
}

impl View for Source {
    type V = SourceView;

    open spec fn view(&self) -> SourceView {
        SourceView {
            name: self.name@,
            url: self.url@,
            source_type: self.source_type@,
            is_active: self.is_active,
        }
    }
}

impl DeepView for Source {
    type V = SourceView;

    open spec fn deep_view(&self) -> SourceView {
        self@
    }
}

impl Source {
    /// A copy that holds the same values.
    pub fn duplicate(&self) -> (r: Source)
        ensures
            r@ == self@,
    {
        Source {
            name: self.name.clone(),
            url: self.url.clone(),
            source_type: self.source_type.clone(),
            is_active: self.is_active,
        }
    }
}

/// The three ways to fetch a source.
#[derive(Clone, Copy, Debug, PartialEq, Eq, Structural)]
pub enum Adapter {
    Feed,
    Page,
    TrendingList,
}

/// The part of an address by which a trending list is known.
pub open spec fn trending_pattern() -> Seq<char> {
    "github.com/trending"@
}

/// The adapter that a source of the given kind and address is fetched by;
/// none for a kind that is not known.
pub open spec fn adapter_of(source_type: Seq<char>, url: Seq<char>) -> Option<Adapter> {
    if source_type == "RSS"@ {
        Some(Adapter::Feed)
    } else if source_type == "WEB"@ {
        if has_substring(url, trending_pattern()) {
            Some(Adapter::TrendingList)
        } else {
            Some(Adapter::Page)
        }
    } else {
        None
    }
}

/// Picks the adapter for a source. A source of an unknown kind has none:
/// it is not fetched, yields nothing and is no failure.
pub fn adapter_for(source_type: &str, url: &str) -> (a: Option<Adapter>)
    ensures
        a == adapter_of(source_type@, url@),
{
    if same_text(source_type, "RSS") {
        Some(Adapter::Feed)
    } else if same_text(source_type, "WEB") {
        if text_contains(url, "github.com/trending") {
            Some(Adapter::TrendingList)
        } else {
            Some(Adapter::Page)
        }
    } else {
        None
    }
}

/// Whether the request for a source goes through the outbound proxy: a
/// trending list always does, any other source unless its address names a
/// domestic site.
pub open spec fn goes_through_proxy(a: Adapter, url: Seq<char>) -> bool {
    a == Adapter::TrendingList || !names_domestic_site(url)
}

/// Whether the request for a source goes through the outbound proxy.
pub fn needs_proxy(a: Adapter, url: &str) -> (r: bool)
    ensures
        r == goes_through_proxy(a, url@),
{
    match a {
        Adapter::TrendingList => true,
        _ => !is_chinese_site(url),
    }
}

/// The category of the articles of a source, read off its name.
pub open spec fn category_of(source_name: Seq<char>) -> Seq<char> {
    if has_substring(source_name, "GitHub"@) {
        "GitHub"@
    } else if has_substring(source_name, "AI"@) || has_substring(source_name, "人工"@)
        || has_substring(source_name, "智能"@) {
        "AI"@
    } else {
        "Tech"@
    }
}

/// Classifies a source by its name.
pub fn categorize_source(source_name: &str) -> (r: String)
    ensures
        r@ == category_of(source_name@),
{
    if text_contains(source_name, "GitHub") {
        "GitHub".to_owned()
    } else if text_contains(source_name, "AI") || text_contains(source_name, "人工")
        || text_contains(source_name, "智能") {
        "AI".to_owned()
    } else {
        "Tech".to_owned()
    }
}

/// One run polls at most this many sources.
pub const SOURCE_CAP: usize = 20;

/// The active sources among `all`, in order.
pub open spec fn active_of(all: Seq<SourceView>) -> Seq<SourceView>
    decreases all.len(),
{
    if all.len() == 0 {
        Seq::empty()
    } else if all.last().is_active {
        active_of(all.drop_last()).push(all.last())
    } else {
        active_of(all.drop_last())
    }
}

/// The sources that one run polls: the first `SOURCE_CAP` active ones.
pub open spec fn snapshot_of(all: Seq<SourceView>) -> Seq<SourceView> {
    if active_of(all).len() > SOURCE_CAP {
        active_of(all).take(SOURCE_CAP as int)
    } else {
        active_of(all)
    }
}

/// Takes the snapshot of sources for one run.
pub fn snapshot_sources(all: &Vec<Source>) -> (picked: Vec<Source>)
    ensures
        picked.deep_view() == snapshot_of(all.deep_view()),
        picked.len() <= SOURCE_CAP,
{
    let ghost views = all.deep_view();
    let mut picked: Vec<Source> = Vec::new();
    assert(picked.deep_view() =~= Seq::<SourceView>::empty());
    let mut i: usize = 0;
    while i < all.len()
        invariant
            i <= all.len(),
            views == all.deep_view(),
            picked.len() <= SOURCE_CAP,
            picked.deep_view() == snapshot_of(views.take(i as int)),
        decreases all.len() - i,
    {
        let s = &all[i];
        let ghost found = active_of(views.take(i as int));
        proof {
            assert(views.take(i + 1).drop_last() =~= views.take(i as int));
            assert(views.take(i + 1).last() == s@);
            assert(picked.len() == picked.deep_view().len());
        }
        if s.is_active {
            if picked.len() < SOURCE_CAP {
                let ghost before = picked.deep_view();
                picked.push(s.duplicate());
                assert(picked.deep_view() =~= before.push(s@));
            } else {
                assert(found.push(s@).take(SOURCE_CAP as int) =~= found.take(SOURCE_CAP as int));
            }
        }
        i += 1;
    }
    assert(views.take(all.len() as int) =~= views);
    picked
}


/// A snapshot never holds more than `SOURCE_CAP` sources.
pub proof fn lemma_snapshot_is_capped(all: Seq<SourceView>)
    ensures
        snapshot_of(all).len() <= SOURCE_CAP,
{
}


/// An active source with the given name, address and kind.
pub open spec fn source_entry(name: Seq<char>, url: Seq<char>, source_type: Seq<char>) -> SourceView {
    SourceView { name, url, source_type, is_active: true }
}

/// The sources that a new installation starts with.
pub open spec fn default_source_table() -> Seq<SourceView> {
    seq![
        source_entry("Hacker News Frontpage"@, "https://hnrss.org/frontpage"@, "RSS"@),
        source_entry("Hacker News AI"@, "https://hnrss.org/newest?q=AI+OR+machine+learning+OR+GPT+OR+LLM"@, "RSS"@),
        source_entry("GitHub Trending (all)"@, "https://github.com/trending"@, "WEB"@),
        source_entry("GitHub Trending Python"@, "https://github.com/trending/python"@, "WEB"@),
        source_entry("GitHub Trending TypeScript"@, "https://github.com/trending/typescript"@, "WEB"@),
        source_entry("GitHub Trending Rust"@, "https://github.com/trending/rust"@, "WEB"@),
        source_entry("Dev.to AI Tag"@, "https://dev.to/feed/tag/ai"@, "RSS"@),
        source_entry("Reddit MachineLearning"@, "https://www.reddit.com/r/MachineLearning/.rss"@, "RSS"@),
        source_entry("The Verge AI"@, "https://www.theverge.com/ai-ml/rss"@, "RSS"@),
        source_entry("Ars Technica AI"@, "https://arstechnica.com/ai/feed/"@, "RSS"@),
        source_entry("TechCrunch AI"@, "https://techcrunch.com/category/artificial-intelligence/feed/"@, "RSS"@),
        source_entry("OSChina 资讯"@, "https://www.oschina.net/news/rss"@, "RSS"@),
        source_entry("V2EX 技术新穗"@, "https://www.v2ex.com/index.xml"@, "RSS"@),
        source_entry("InfoQ 中文"@, "https://www.infoq.cn/feed"@, "RSS"@),
    ]
}

fn make_source(name: &str, url: &str, source_type: &str) -> (s: Source)
    ensures
        s@ == source_entry(name@, url@, source_type@),
{
    Source {
        name: name.to_owned(),
        url: url.to_owned(),
        source_type: source_type.to_owned(),
        is_active: true,
    }
}

/// The sources that are seeded where none are configured yet.
pub fn default_sources() -> (v: Vec<Source>)
    ensures
        v.deep_view() == default_source_table(),
{
    let mut v: Vec<Source> = Vec::new();
    v.push(make_source("Hacker News Frontpage", "https://hnrss.org/frontpage", "RSS"));
    v.push(make_source("Hacker News AI", "https://hnrss.org/newest?q=AI+OR+machine+learning+OR+GPT+OR+LLM", "RSS"));
    v.push(make_source("GitHub Trending (all)", "https://github.com/trending", "WEB"));
    v.push(make_source("GitHub Trending Python", "https://github.com/trending/python", "WEB"));
    v.push(make_source("GitHub Trending TypeScript", "https://github.com/trending/typescript", "WEB"));
    v.push(make_source("GitHub Trending Rust", "https://github.com/trending/rust", "WEB"));
    v.push(make_source("Dev.to AI Tag", "https://dev.to/feed/tag/ai", "RSS"));
    v.push(make_source("Reddit MachineLearning", "https://www.reddit.com/r/MachineLearning/.rss", "RSS"));
    v.push(make_source("The Verge AI", "https://www.theverge.com/ai-ml/rss", "RSS"));
    v.push(make_source("Ars Technica AI", "https://arstechnica.com/ai/feed/", "RSS"));
    v.push(make_source("TechCrunch AI", "https://techcrunch.com/category/artificial-intelligence/feed/", "RSS"));
    v.push(make_source("OSChina 资讯", "https://www.oschina.net/news/rss", "RSS"));
    v.push(make_source("V2EX 技术新穗", "https://www.v2ex.com/index.xml", "RSS"));
    v.push(make_source("InfoQ 中文", "https://www.infoq.cn/feed", "RSS"));
    assert(v.deep_view() =~= default_source_table());
    v
}

/// Sources are seeded only where none are configured.
pub fn should_seed(configured: usize) -> (r: bool)
    ensures
        r == (configured == 0),
{
    configured == 0
}

} // verus!
