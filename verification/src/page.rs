//! The page-link adapter: every absolute link of a page that carries text
//! becomes a raw item.

use vstd::prelude::*;
use crate::html::{page_elements, select_elements, Excerpt, ExcerptView};
use crate::item::{RawItem, RawItemView};
use crate::text::{has_prefix, join_texts, joined, text_starts_with, trim_text, trimmed};
use crate::time::{clock_now, stored_text, timestamp_text, Timestamp};
use crate::url::{normalize_url, normalized_url};

verus! {

/// At most this many links of one page become items.
pub const PAGE_ITEM_CAP: usize = 12;

/// What stands for the content of a linked page, which is not fetched.
pub open spec fn link_content() -> Seq<char> {
    "Web-scraped content"@
}

/// The text of a link: its text nodes with a blank between each two,
/// trimmed.
pub open spec fn link_title(e: ExcerptView) -> Seq<char> {
    trimmed(joined(e.text, " "@))
}

/// A link is kept where its target is absolute and its text is not empty.
pub open spec fn is_kept_link(e: ExcerptView) -> bool {
    &&& e.attr matches Some(href)
    &&& has_prefix(href, "http"@)
    &&& link_title(e).len() > 0
}

/// The item that a kept link becomes.
pub open spec fn item_of_link(e: ExcerptView, now: Timestamp) -> RawItemView {
    RawItemView {
        title: link_title(e),
        url: normalized_url(e.attr->0),
        content: link_content(),
        published_at: stored_text(now),
        image_url: None,
    }
}

/// The items of the kept links among `links`, in order.
pub open spec fn items_of_links(links: Seq<ExcerptView>, now: Timestamp) -> Seq<RawItemView>
    decreases links.len(),
{
    if links.len() == 0 {
        Seq::empty()
    } else if is_kept_link(links.last()) {
        items_of_links(links.drop_last(), now).push(item_of_link(links.last(), now))
    } else {
        items_of_links(links.drop_last(), now)
    }
}

/// The first `PAGE_ITEM_CAP` of `items`, or all where there are no more.
pub open spec fn capped_items(items: Seq<RawItemView>) -> Seq<RawItemView> {
    if items.len() > PAGE_ITEM_CAP {
        items.take(PAGE_ITEM_CAP as int)
    } else {
        items
    }
}

/// What the page-link adapter yields for a fetched page: the items of its
/// first `PAGE_ITEM_CAP` kept links.
pub open spec fn page_items_of(page: Seq<char>, now: Timestamp) -> Seq<RawItemView> {
    match page_elements(page, "a"@, "href"@) {
        Some(links) => capped_items(items_of_links(links, now)),
        None => Seq::empty(),
    }
}

/// Turns the links of a page into raw items. Links that are not absolute
/// or carry no text are dropped; of the rest the first `PAGE_ITEM_CAP`
/// are kept. Each item is dated `now`, as a link carries no date.
pub fn items_from_links(links: &Vec<Excerpt>, now: Timestamp) -> (items: Vec<RawItem>)
    ensures
        items.deep_view() == capped_items(items_of_links(links.deep_view(), now)),
        items.len() <= PAGE_ITEM_CAP,
{
    let ghost all = links.deep_view();
    let mut items: Vec<RawItem> = Vec::new();
    let mut i: usize = 0;
    assert(items.deep_view() =~= Seq::<RawItemView>::empty());
    while i < links.len()
        invariant
            i <= links.len(),
            all == links.deep_view(),
            items.deep_view() == capped_items(items_of_links(all.take(i as int), now)),
            items.len() <= PAGE_ITEM_CAP,
        decreases links.len() - i,
    {
        let e = &links[i];
        let ghost found = items_of_links(all.take(i as int), now);
        proof {
            assert(all.take(i + 1).drop_last() =~= all.take(i as int));
            assert(all.take(i + 1).last() == e@);
            assert(items.len() == items.deep_view().len());
        }
        let mut kept: bool = false;
        match &e.attr {
            Some(href) => {
                if text_starts_with(href.as_str(), "http") {
                    let spaced = join_texts(&e.text, " ");
                    let title = trim_text(spaced.as_str());
                    if !title.as_str().is_empty() {
                        kept = true;
                        if items.len() < PAGE_ITEM_CAP {
                            let item = RawItem {
                                title,
                                url: normalize_url(href.as_str()),
                                content: "Web-scraped content".to_owned(),
                                published_at: timestamp_text(now),
                                image_url: None,
                            };
                            assert(item@ == item_of_link(e@, now));
                            let ghost before = items.deep_view();
                            items.push(item);
                            assert(items.deep_view() =~= before.push(item_of_link(e@, now)));
                            assert(found.push(item_of_link(e@, now)).len() <= PAGE_ITEM_CAP);
                        } else {
                            assert(found.push(item_of_link(e@, now)).take(PAGE_ITEM_CAP as int)
                                =~= found.take(PAGE_ITEM_CAP as int));
                        }
                    }
                }
            },
            None => {},
        }
        assert(kept == is_kept_link(e@));
        i += 1;
    }
    assert(all.take(links.len() as int) =~= all);
    items
}

/// The page-link adapter on a fetched page, against a given present
/// instant.
pub fn page_items_at(page: &str, now: Timestamp) -> (items: Vec<RawItem>)
    ensures
        items.deep_view() == page_items_of(page@, now),
        items.len() <= PAGE_ITEM_CAP,
{
    match select_elements(page, "a", "href") {
        Some(links) => items_from_links(&links, now),
        None => {
            let items: Vec<RawItem> = Vec::new();
            assert(items.deep_view() =~= Seq::<RawItemView>::empty());
            items
        },
    }
}

/// The page-link adapter on a fetched page; the items are dated by the
/// clock, read once for the whole page.
pub fn page_items(page: &str) -> (items: Vec<RawItem>)
    ensures
        exists|now: Timestamp| items.deep_view() == page_items_of(page@, now),
        items.len() <= PAGE_ITEM_CAP,
{
    let now = clock_now();
    let items = page_items_at(page, now);
    assert(items.deep_view() == page_items_of(page@, now));
    items
}

} // verus!
