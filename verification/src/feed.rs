//! The feed adapter: from the body of a syndication document to raw items.
//! The document itself is parsed by `rss`.

use vstd::prelude::*;
use crate::item::{copy_optional_text, RawItem, RawItemView};
use crate::text::{chars_of, contains_chars, has_substring, lowercase_of, to_lowercase};
use crate::time::{clock_now, normalize_datetime_at, normalized_datetime, Timestamp};
use crate::url::{normalize_url, normalized_url};

verus! {

/// One entry of a feed, as the document gives it.
#[derive(Debug)]
pub struct FeedEntry {
    pub title: Option<String>,
    pub link: Option<String>,
    pub description: Option<String>,
    pub pub_date: Option<String>,
    pub enclosure_url: Option<String>,
}

/// What a `FeedEntry` holds, as plain texts.
pub struct FeedEntryView {
    pub title: Option<Seq<char>>,
    pub link: Option<Seq<char>>,
    pub description: Option<Seq<char>>,
    pub pub_date: Option<Seq<char>>,
    pub enclosure_url: Option<Seq<char>>,
}

impl View for FeedEntry {
    type V = FeedEntryView;

    open spec fn view(&self) -> FeedEntryView {
        FeedEntryView {
            title: self.title.deep_view(),
            link: self.link.deep_view(),
            description: self.description.deep_view(),
            pub_date: self.pub_date.deep_view(),
            enclosure_url: self.enclosure_url.deep_view(),
        }
    }
}

impl DeepView for FeedEntry {
    type V = FeedEntryView;

    open spec fn deep_view(&self) -> FeedEntryView {
        self@
    }
}

/// The entries of the syndication document `body`, in document order;
/// `None` where `body` is no such document.
pub uninterp spec fn feed_entries_of(body: Seq<char>) -> Option<Seq<FeedEntryView>>;

/// `rss::Channel::read_from` on the bytes of `body`; each of
/// `Channel::items` is read through `Item::title`, `link`, `description`,
/// `pub_date` and `enclosure`. The contract only names the result: the
/// same body always parses to the same entries, or fails to parse.
#[verifier::external_body]
pub(crate) fn parse_feed(body: &str) -> (r: Option<Vec<FeedEntry>>)
    ensures
        r.deep_view() == feed_entries_of(body@),
{
    match rss::Channel::read_from(body.as_bytes()) {
        Ok(channel) => Some(channel.items().iter().map(|i| FeedEntry {
            title: i.title().map(String::from),
            link: i.link().map(String::from),
            description: i.description().map(String::from),
            pub_date: i.pub_date().map(String::from),
            enclosure_url: i.enclosure().map(|e| e.url().to_string()),
        }).collect()),
        Err(_) => None,
    }
}

/// At most this many entries of one feed are looked at.
pub const FEED_ITEM_CAP: usize = 12;

/// The marks by which a page that is no feed gives itself away: an HTML
/// document, a browser check, a refusal, a missing page.
pub open spec fn html_markers() -> Seq<Seq<char>> {
    seq![
        "<!doctype html"@,
        "just a moment"@,
        "checking your browser"@,
        "access denied"@,
        "<title>404"@,
        "page not found"@,
        "<html"@,
    ]
}

/// `body`, in lower case, holds one of the marks of a page that is no feed.
pub open spec fn is_html_response(body: Seq<char>) -> bool {
    exists|k: int|
        0 <= k < html_markers().len() && has_substring(
            lowercase_of(body),
            #[trigger] html_markers()[k],
        )
}

fn html_marker_list() -> (v: Vec<&'static str>)
    ensures
        v.deep_view() == html_markers(),
{
    let v = vec![
        "<!doctype html",
        "just a moment",
        "checking your browser",
        "access denied",
        "<title>404",
        "page not found",
        "<html",
    ];
    assert(v.deep_view() =~= html_markers());
    v
}

/// Whether a response that should be a feed is an HTML page instead.
pub fn looks_like_html(body: &str) -> (r: bool)
    ensures
        r == is_html_response(body@),
{
    let lower = to_lowercase(body);
    let hay = chars_of(lower.as_str());
    let marks = html_marker_list();
    let mut k: usize = 0;
    while k < marks.len()
        invariant
            k <= marks.len(),
            hay@ == lowercase_of(body@),
            marks.deep_view() == html_markers(),
            forall|j: int| 0 <= j < k ==> !has_substring(hay@, #[trigger] html_markers()[j]),
        decreases marks.len() - k,
    {
        let needle = chars_of(marks[k]);
        assert(needle@ == marks.deep_view()[k as int]);
        if contains_chars(&hay, &needle) {
            return true;
        }
        k += 1;
    }
    false
}

/// What stands in for a description that the feed does not give.
pub open spec fn missing_description() -> Seq<char> {
    "No description available"@
}

/// An entry can become an item only with a title and a link.
pub open spec fn is_usable(e: FeedEntryView) -> bool {
    e.title is Some && e.link is Some
}

/// The item that a usable entry becomes.
pub open spec fn item_of_entry(e: FeedEntryView, now: Timestamp) -> RawItemView {
    RawItemView {
        title: e.title->0,
        url: normalized_url(e.link->0),
        content: match e.description {
            Some(d) => d,
            None => missing_description(),
        },
        published_at: normalized_datetime(
            match e.pub_date {
                Some(d) => d,
                None => Seq::empty(),
            },
            now,
        ),
        image_url: e.enclosure_url,
    }
}

/// The items of the usable entries among `entries`, in order.
pub open spec fn items_of_entries(entries: Seq<FeedEntryView>, now: Timestamp) -> Seq<RawItemView>
    decreases entries.len(),
{
    if entries.len() == 0 {
        Seq::empty()
    } else if is_usable(entries.last()) {
        items_of_entries(entries.drop_last(), now).push(item_of_entry(entries.last(), now))
    } else {
        items_of_entries(entries.drop_last(), now)
    }
}

/// The first `FEED_ITEM_CAP` entries, or all where there are no more.
pub open spec fn capped_entries(entries: Seq<FeedEntryView>) -> Seq<FeedEntryView> {
    if entries.len() > FEED_ITEM_CAP {
        entries.take(FEED_ITEM_CAP as int)
    } else {
        entries
    }
}

/// What the feed adapter yields for a fetched body: nothing for an HTML
/// page or a body that is no feed, else the items of the usable entries
/// among the first `FEED_ITEM_CAP`.
pub open spec fn feed_items_of(body: Seq<char>, now: Timestamp) -> Seq<RawItemView> {
    if is_html_response(body) {
        Seq::empty()
    } else {
        match feed_entries_of(body) {
            Some(entries) => items_of_entries(capped_entries(entries), now),
            None => Seq::empty(),
        }
    }
}

/// No more items come out than entries went in.
pub proof fn lemma_items_of_entries_len(entries: Seq<FeedEntryView>, now: Timestamp)
    ensures
        items_of_entries(entries, now).len() <= entries.len(),
    decreases entries.len(),
{
    if entries.len() > 0 {
        lemma_items_of_entries_len(entries.drop_last(), now);
    }
}

/// A feed never yields more than `FEED_ITEM_CAP` items.
pub proof fn lemma_feed_items_capped(body: Seq<char>, now: Timestamp)
    ensures
        feed_items_of(body, now).len() <= FEED_ITEM_CAP,
{
    if !is_html_response(body) {
        if let Some(entries) = feed_entries_of(body) {
            lemma_items_of_entries_len(capped_entries(entries), now);
        }
    }
}

/// Turns the entries of a feed into raw items: the first `FEED_ITEM_CAP`
/// entries are looked at, and those without a title or a link are skipped.
pub fn items_from_entries(entries: &Vec<FeedEntry>, now: Timestamp) -> (items: Vec<RawItem>)
    ensures
        items.deep_view() == items_of_entries(capped_entries(entries.deep_view()), now),
{
    let n: usize = if entries.len() > FEED_ITEM_CAP {
        FEED_ITEM_CAP
    } else {
        entries.len()
    };
    let ghost all = entries.deep_view();
    let ghost looked = capped_entries(all);
    assert(looked =~= all.take(n as int));
    let mut items: Vec<RawItem> = Vec::new();
    let mut i: usize = 0;
    assert(items.deep_view() =~= Seq::<RawItemView>::empty());
    while i < n
        invariant
            i <= n <= entries.len(),
            all == entries.deep_view(),
            items.deep_view() == items_of_entries(all.take(i as int), now),
        decreases n - i,
    {
        let e = &entries[i];
        proof {
            assert(all.take(i + 1).drop_last() =~= all.take(i as int));
            assert(all.take(i + 1).last() == e@);
        }
        match (&e.title, &e.link) {
            (Some(title), Some(link)) => {
                let content = match &e.description {
                    Some(d) => d.clone(),
                    None => "No description available".to_owned(),
                };
                let published_at = match &e.pub_date {
                    Some(d) => normalize_datetime_at(d.as_str(), now),
                    None => {
                        proof {
                            reveal_strlit("");
                            assert(""@ =~= Seq::<char>::empty());
                        }
                        normalize_datetime_at("", now)
                    },
                };
                let item = RawItem {
                    title: title.clone(),
                    url: normalize_url(link.as_str()),
                    content,
                    published_at,
                    image_url: copy_optional_text(&e.enclosure_url),
                };
                assert(item@ == item_of_entry(e@, now));
                let ghost before = items.deep_view();
                items.push(item);
                assert(items.deep_view() =~= before.push(item_of_entry(e@, now)));
            },
            _ => {},
        }
        i += 1;
    }
    items
}

/// The feed adapter on a fetched body, against a given present instant.
/// An HTML page in place of a feed, and a body that does not parse, give no
/// items and no error.
pub fn feed_items_at(body: &str, now: Timestamp) -> (items: Vec<RawItem>)
    ensures
        items.deep_view() == feed_items_of(body@, now),
        items.len() <= FEED_ITEM_CAP,
{
    proof {
        lemma_feed_items_capped(body@, now);
    }
    if looks_like_html(body) {
        let items: Vec<RawItem> = Vec::new();
        assert(items.deep_view() =~= Seq::<RawItemView>::empty());
        return items;
    }
    match parse_feed(body) {
        Some(entries) => items_from_entries(&entries, now),
        None => {
            let items: Vec<RawItem> = Vec::new();
            assert(items.deep_view() =~= Seq::<RawItemView>::empty());
            items
        },
    }
}

/// The feed adapter on a fetched body. Entries whose date is missing or
/// unreadable are dated by the clock, read once for the whole feed.
pub fn feed_items(body: &str) -> (items: Vec<RawItem>)
    ensures
        exists|now: Timestamp| items.deep_view() == feed_items_of(body@, now),
        items.len() <= FEED_ITEM_CAP,
{
    let now = clock_now();
    let items = feed_items_at(body, now);
    assert(items.deep_view() == feed_items_of(body@, now));
    items
}

} // verus!
