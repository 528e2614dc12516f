//! What the user asks for by hand: a page of the list, a search, a
//! bookmark, a mark as read, and the adding of one article by its URL.

use vstd::prelude::*;
use crate::article::{Article, ArticleView};
use crate::html::{excerpt_text, page_elements, select_elements, whole_text, Excerpt, ExcerptView};
use crate::item::copy_optional_text;
use crate::persist::{fresh_id, Stamp, StampView};
use crate::store::{
    has_id, has_url, marked_read, outcome_of_insert, store_after_insert, store_with_article,
    with_bookmark, ArticleStore, InsertOutcome,
};
use crate::summary::{make_zh_brief, template_summary};
use crate::text::{concat2, same_text, trim_text, trimmed};
use crate::time::{clock_now, timestamp_text};
use crate::url::{is_chinese_site, names_domestic_site, normalize_url, normalized_url};

verus! {

/// Asks for one page of the list of articles.
#[derive(Debug)]
pub struct ListQuery {
    /// The number of the page, counted from one; the first where none is
    /// given.
    pub page: Option<usize>,
    pub page_size: usize,
    /// The category to list; every category where none or `all` is given.
    pub category: Option<String>,
}

/// Which articles a page of the list shows.
#[derive(Clone, Copy, Debug, PartialEq, Eq, Structural)]
pub struct PageWindow {
    pub page: usize,
    pub page_size: usize,
    /// How many articles stand before the page; `None` where that number
    /// is beyond what can be counted, and the page is then empty.
    pub offset: Option<usize>,
}

/// The number of the page that is shown: the one asked for, and the first
/// where none or the page zero is asked for.
pub open spec fn effective_page(page: Option<usize>) -> usize {
    match page {
        Some(p) => if p >= 1 {
            p
        } else {
            1
        },
        None => 1,
    }
}

/// The window of the page that `page` and `page_size` ask for.
pub open spec fn window_of(page: Option<usize>, page_size: usize) -> PageWindow {
    let p = effective_page(page);
    PageWindow {
        page: p,
        page_size,
        offset: if (p - 1) * page_size <= usize::MAX {
            Some(((p - 1) * page_size) as usize)
        } else {
            None
        },
    }
}

/// The category that a query restricts the list to, if it does.
pub open spec fn category_filter_of(category: Option<Seq<char>>) -> Option<Seq<char>> {
    match category {
        Some(c) => if c == "all"@ {
            None
        } else {
            Some(c)
        },
        None => None,
    }
}

impl ListQuery {
    /// The window of the page that is asked for.
    pub fn window(&self) -> (w: PageWindow)
        ensures
            w == window_of(self.page, self.page_size),
    {
        let page: usize = match self.page {
            Some(p) => if p >= 1 {
                p
            } else {
                1
            },
            None => 1,
        };
        PageWindow { page, page_size: self.page_size, offset: (page - 1).checked_mul(self.page_size) }
    }

    /// The category that the list is restricted to, if it is.
    pub fn category_filter(&self) -> (c: Option<String>)
        ensures
            c.deep_view() == category_filter_of(self.category.deep_view()),
    {
        match &self.category {
            Some(c) => if same_text(c.as_str(), "all") {
                None
            } else {
                Some(c.clone())
            },
            None => None,
        }
    }
}

/// What a page of the list holds.
#[derive(Debug)]
pub struct ListResponse {
    pub items: Vec<Article>,
    pub total: i64,
    pub page: usize,
    pub page_size: usize,
}

/// Asks for the articles that hold a keyword.
#[derive(Debug)]
pub struct SearchQuery {
    pub keyword: String,
}

impl SearchQuery {
    /// What the keyword index is asked for: every word that begins with
    /// the keyword.
    pub fn term(&self) -> (t: String)
        ensures
            t@ == self.keyword@ + "*"@,
    {
        concat2(self.keyword.as_str(), "*")
    }
}

/// Asks to set or clear the bookmark of an article.
#[derive(Debug)]
pub struct BookmarkPayload {
    pub id: String,
    pub value: bool,
}

/// Asks to mark an article as read. The value does not enter into it: an
/// article that was read stays read.
#[derive(Debug)]
pub struct MarkReadPayload {
    pub id: String,
    pub value: bool,
}

/// Sets or clears a bookmark. Says whether the article is stored.
pub fn article_bookmark(store: &mut ArticleStore, payload: &BookmarkPayload) -> (found: bool)
    requires
        old(store).wf(),
    ensures
        final(store).wf(),
        found == has_id(old(store)@.rows, payload.id@),
        !found ==> final(store)@ == old(store)@,
        found ==> exists|at: int|
            0 <= at < old(store)@.rows.len() && (#[trigger] old(store)@.rows[at]).article.id
                == payload.id@ && final(store)@ == store_with_article(
                old(store)@,
                at,
                with_bookmark(old(store)@.rows[at].article, payload.value),
            ),
{
    store.set_bookmarked(payload.id.as_str(), payload.value)
}

/// Marks an article as read. Says whether the article is stored.
pub fn article_mark_read(store: &mut ArticleStore, payload: &MarkReadPayload) -> (found: bool)
    requires
        old(store).wf(),
    ensures
        final(store).wf(),
        found == has_id(old(store)@.rows, payload.id@),
        !found ==> final(store)@ == old(store)@,
        found ==> exists|at: int|
            0 <= at < old(store)@.rows.len() && (#[trigger] old(store)@.rows[at]).article.id
                == payload.id@ && final(store)@ == store_with_article(
                old(store)@,
                at,
                marked_read(old(store)@.rows[at].article),
            ),
{
    store.mark_read(payload.id.as_str())
}

/// Asks to add the article at a URL.
#[derive(Debug)]
pub struct ManualAddPayload {
    pub url: String,
}

/// Why an article was not added by hand.
#[derive(Clone, Copy, Debug, PartialEq, Eq, Structural)]
pub enum ManualError {
    /// An article with this URL is stored already.
    AlreadyExists,
    /// The store refused the article.
    Refused(InsertOutcome),
}

/// The message of an error, for the user.
pub open spec fn manual_error_message(e: ManualError) -> Seq<char> {
    match e {
        ManualError::AlreadyExists => "该链接已存在"@,
        ManualError::Refused(_) => "插入失败"@,
    }
}

/// The message of an error, for the user.
pub fn manual_error_text(e: ManualError) -> (r: String)
    ensures
        r@ == manual_error_message(e),
{
    match e {
        ManualError::AlreadyExists => "该链接已存在".to_owned(),
        ManualError::Refused(_) => "插入失败".to_owned(),
    }
}

/// How the page of an article that is added by hand is fetched.
#[derive(Debug)]
pub struct ManualFetch {
    /// The key under which the article will be stored.
    pub normalized_url: String,
    pub use_proxy: bool,
}

/// Decides whether the article at the URL of `payload` can be added, and
/// how its page is fetched: not where its normalized URL is stored
/// already.
pub fn manual_plan(store: &ArticleStore, payload: &ManualAddPayload) -> (r: Result<
    ManualFetch,
    ManualError,
>)
    ensures
        r is Err <==> has_url(store@.rows, normalized_url(payload.url@)),
        r matches Err(e) ==> e == ManualError::AlreadyExists,
        r matches Ok(f) ==> f.normalized_url@ == normalized_url(payload.url@) && f.use_proxy
            == !names_domestic_site(payload.url@),
{
    let normalized = normalize_url(payload.url.as_str());
    if store.contains_url(normalized.as_str()) {
        Err(ManualError::AlreadyExists)
    } else {
        Ok(
            ManualFetch {
                normalized_url: normalized,
                use_proxy: !is_chinese_site(payload.url.as_str()),
            },
        )
    }
}

/// The first element of `page` under `selector`, read for its `content`
/// attribute.
pub open spec fn first_element(page: Seq<char>, selector: Seq<char>) -> Option<ExcerptView> {
    match page_elements(page, selector, "content"@) {
        Some(es) => if es.len() > 0 {
            Some(es[0])
        } else {
            None
        },
        None => None,
    }
}

/// The trimmed text of the first element of `page` under `selector`.
pub open spec fn first_text(page: Seq<char>, selector: Seq<char>) -> Option<Seq<char>> {
    match first_element(page, selector) {
        Some(e) => Some(trimmed(whole_text(e))),
        None => None,
    }
}

/// The `content` attribute of the first element of `page` under
/// `selector`.
pub open spec fn first_content(page: Seq<char>, selector: Seq<char>) -> Option<Seq<char>> {
    match first_element(page, selector) {
        Some(e) => e.attr,
        None => None,
    }
}

/// The first of three that is there, else `fallback`.
pub open spec fn first_of(
    a: Option<Seq<char>>,
    b: Option<Seq<char>>,
    c: Option<Seq<char>>,
    fallback: Seq<char>,
) -> Seq<char> {
    match a {
        Some(x) => x,
        None => match b {
            Some(x) => x,
            None => match c {
                Some(x) => x,
                None => fallback,
            },
        },
    }
}

/// The title of a page: that of its `title` element, else what it gives
/// as its title for sharing, else its first heading.
pub open spec fn page_title(page: Seq<char>) -> Seq<char> {
    first_of(
        first_text(page, "title"@),
        first_content(page, "meta[property='og:title']"@),
        first_text(page, "h1"@),
        "未知标题"@,
    )
}

/// The description of a page: what it gives as its description, else what
/// it gives as its description for sharing.
pub open spec fn page_description(page: Seq<char>) -> Seq<char> {
    first_of(
        first_content(page, "meta[name='description']"@),
        first_content(page, "meta[property='og:description']"@),
        None,
        "手动添加的文章"@,
    )
}

/// The image of a page: what it gives as its image for sharing, else
/// none.
pub open spec fn page_image(page: Seq<char>) -> Seq<char> {
    first_of(first_content(page, "meta[property='og:image']"@), None, None, Seq::empty())
}

/// The name of the source of every article that is added by hand.
pub open spec fn manual_source() -> Seq<char> {
    "手动添加"@
}

/// The article that is made of a page added by hand. It is summarized by
/// the template and dated, as published and as ingested, by the stamp.
pub open spec fn manual_article_of(
    page: Seq<char>,
    normalized: Seq<char>,
    stamp: StampView,
) -> ArticleView {
    ArticleView {
        id: stamp.id,
        title: page_title(page),
        summary: template_summary(page_title(page), page_description(page)),
        content: page_description(page),
        url: normalized,
        source: manual_source(),
        category: "Tech"@,
        published_at: stamp.fetched_at,
        fetched_at: stamp.fetched_at,
        heat_score_bits: 0,
        is_read: false,
        is_bookmarked: false,
        image_url: page_image(page),
    }
}

fn first_under(page: &str, selector: &str) -> (r: Option<Excerpt>)
    ensures
        r.deep_view() == first_element(page@, selector@),
{
    match select_elements(page, selector, "content") {
        Some(es) => {
            let mut es = es;
            if es.len() > 0 {
                assert(es.deep_view()[0] == es[0]@);
                Some(es.swap_remove(0))
            } else {
                None
            }
        },
        None => None,
    }
}

fn text_under(page: &str, selector: &str) -> (r: Option<String>)
    ensures
        r.deep_view() == first_text(page@, selector@),
{
    match first_under(page, selector) {
        Some(e) => {
            let whole = excerpt_text(&e);
            Some(trim_text(whole.as_str()))
        },
        None => None,
    }
}

fn content_under(page: &str, selector: &str) -> (r: Option<String>)
    ensures
        r.deep_view() == first_content(page@, selector@),
{
    match first_under(page, selector) {
        Some(e) => copy_optional_text(&e.attr),
        None => None,
    }
}

fn pick_first(a: Option<String>, b: Option<String>, c: Option<String>, fallback: &str) -> (r:
    String)
    ensures
        r@ == first_of(a.deep_view(), b.deep_view(), c.deep_view(), fallback@),
{
    match a {
        Some(x) => x,
        None => match b {
            Some(x) => x,
            None => match c {
                Some(x) => x,
                None => fallback.to_owned(),
            },
        },
    }
}

/// Makes the article of a page that is added by hand.
pub fn manual_article(page: &str, normalized: &str, stamp: Stamp) -> (a: Article)
    ensures
        a@ == manual_article_of(page@, normalized@, stamp@),
{
    proof {
        reveal_strlit("");
        assert(""@ =~= Seq::<char>::empty());
    }
    let title = pick_first(
        text_under(page, "title"),
        content_under(page, "meta[property='og:title']"),
        text_under(page, "h1"),
        "未知标题",
    );
    let content = pick_first(
        content_under(page, "meta[name='description']"),
        content_under(page, "meta[property='og:description']"),
        None,
        "手动添加的文章",
    );
    let image_url = pick_first(
        content_under(page, "meta[property='og:image']"),
        None,
        None,
        "",
    );
    let summary = make_zh_brief(title.as_str(), content.as_str(), "手动添加");
    Article {
        id: stamp.id,
        title,
        summary,
        content,
        url: normalized.to_owned(),
        source: "手动添加".to_owned(),
        category: "Tech".to_owned(),
        published_at: stamp.fetched_at.clone(),
        fetched_at: stamp.fetched_at,
        heat_score_bits: 0,
        is_read: false,
        is_bookmarked: false,
        image_url,
    }
}

/// What adding the article of `page` under `stamp` comes to.
pub open spec fn manual_outcome(
    s: crate::store::StoreView,
    url: Seq<char>,
    page: Seq<char>,
    stamp: StampView,
) -> InsertOutcome {
    outcome_of_insert(s, s.next_row, manual_article_of(page, normalized_url(url), stamp))
}

/// Adds the article of a fetched page under a given stamp, unless its
/// normalized URL is stored already.
pub fn manual_add_with(
    store: &mut ArticleStore,
    payload: &ManualAddPayload,
    page: &str,
    stamp: Stamp,
) -> (r: Result<Article, ManualError>)
    requires
        old(store).wf(),
    ensures
        final(store).wf(),
        final(store)@ == store_after_insert(
            old(store)@,
            old(store)@.next_row,
            manual_article_of(page@, normalized_url(payload.url@), stamp@),
        ),
        match r {
            Ok(a) => manual_outcome(old(store)@, payload.url@, page@, stamp@) is Inserted && a@
                == manual_article_of(page@, normalized_url(payload.url@), stamp@),
            Err(e) => match manual_outcome(old(store)@, payload.url@, page@, stamp@) {
                InsertOutcome::Inserted(_) => false,
                InsertOutcome::Duplicate => e == ManualError::AlreadyExists,
                refusal => e == ManualError::Refused(refusal),
            },
        },
{
    let normalized = normalize_url(payload.url.as_str());
    let article = manual_article(page, normalized.as_str(), stamp);
    let copy = article.duplicate();
    match store.insert(article) {
        InsertOutcome::Inserted(_) => Ok(copy),
        InsertOutcome::Duplicate => Err(ManualError::AlreadyExists),
        refusal => Err(ManualError::Refused(refusal)),
    }
}

/// Adds the article of a fetched page, under a fresh identifier and dated
/// by the clock. Whatever identifier and time are drawn, the outcome is
/// the one that `manual_add_with` describes for them.
pub fn manual_add(store: &mut ArticleStore, payload: &ManualAddPayload, page: &str) -> (r: Result<
    Article,
    ManualError,
>)
    requires
        old(store).wf(),
    ensures
        final(store).wf(),
        has_url(old(store)@.rows, normalized_url(payload.url@)) ==> r == Err::<
            Article,
            ManualError,
        >(ManualError::AlreadyExists) && final(store)@ == old(store)@,
        exists|stamp: StampView|
            final(store)@ == #[trigger] store_after_insert(
                old(store)@,
                old(store)@.next_row,
                manual_article_of(page@, normalized_url(payload.url@), stamp),
            ) && (r is Ok <==> manual_outcome(old(store)@, payload.url@, page@, stamp) is Inserted)
                && (r matches Ok(a) ==> a@ == manual_article_of(
                page@,
                normalized_url(payload.url@),
                stamp,
            )),
{
    let stamp = Stamp { id: fresh_id(), fetched_at: timestamp_text(clock_now()) };
    let ghost sv = stamp@;
    let r = manual_add_with(store, payload, page, stamp);
    assert(store@ == store_after_insert(
        old(store)@,
        old(store)@.next_row,
        manual_article_of(page@, normalized_url(payload.url@), sv),
    ));
    r
}

} // verus!
