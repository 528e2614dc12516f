//! The stored article and the entry of the keyword index that goes with
//! it.

use vstd::prelude::*;

verus! {

/// A persisted article.
#[derive(Debug)]
pub struct Article {
    /// An opaque identifier, unique among all articles.
    pub id: String,
    pub title: String,
    pub summary: String,
    pub content: String,
    /// The normalized URL, by which articles are told apart.
    pub url: String,
    pub source: String,
    pub category: String,
    pub published_at: String,
    /// When the article was ingested.
    pub fetched_at: String,
    /// The heat score, a 64-bit floating-point number held by its bits.
    pub heat_score_bits: u64,
    pub is_read: bool,
    /// A bookmarked article is pinned: retention never evicts it.
    pub is_bookmarked: bool,
    pub image_url: String,
}

/// What an `Article` holds, as plain values.
pub struct ArticleView {
    pub id: Seq<char>,
    pub title: Seq<char>,
    pub summary: Seq<char>,
    pub content: Seq<char>,
    pub url: Seq<char>,
    pub source: Seq<char>,
    pub category: Seq<char>,
    pub published_at: Seq<char>,
    pub fetched_at: Seq<char>,
    pub heat_score_bits: u64,
    pub is_read: bool,
    pub is_bookmarked: bool,
    pub image_url: Seq<char>,
}

impl View for Article {
    type V = ArticleView;

    open spec fn view(&self) -> ArticleView {
        ArticleView {
            id: self.id@,
            title: self.title@,
            summary: self.summary@,
            content: self.content@,
            url: self.url@,
            source: self.source@,
            category: self.category@,
            published_at: self.published_at@,
            fetched_at: self.fetched_at@,
            heat_score_bits: self.heat_score_bits,
            is_read: self.is_read,
            is_bookmarked: self.is_bookmarked,
            image_url: self.image_url@,
        }
    }
}

impl DeepView for Article {
    type V = ArticleView;

    open spec fn deep_view(&self) -> ArticleView {
        self@
    }
}

impl Article {
    /// A copy that holds the same values.
    pub fn duplicate(&self) -> (r: Article)
        ensures
            r@ == self@,
    {
        Article {
            id: self.id.clone(),
            title: self.title.clone(),
            summary: self.summary.clone(),
            content: self.content.clone(),
            url: self.url.clone(),
            source: self.source.clone(),
            category: self.category.clone(),
            published_at: self.published_at.clone(),
            fetched_at: self.fetched_at.clone(),
            heat_score_bits: self.heat_score_bits,
            is_read: self.is_read,
            is_bookmarked: self.is_bookmarked,
            image_url: self.image_url.clone(),
        }
    }
}

/// An article in the store, under the number of its row.
#[derive(Debug)]
pub struct Row {
    pub row: u64,
    pub article: Article,
}

/// What a `Row` holds, as plain values.
pub struct RowView {
    pub row: u64,
    pub article: ArticleView,
}

impl View for Row {
    type V = RowView;

    open spec fn view(&self) -> RowView {
        RowView { row: self.row, article: self.article@ }
    }
}

impl DeepView for Row {
    type V = RowView;

    open spec fn deep_view(&self) -> RowView {
        self@
    }
}

/// The entry of the keyword index for one article, under the number of the
/// article's row.
#[derive(Debug)]
pub struct IndexEntry {
    pub row: u64,
    pub title: String,
    pub summary: String,
    pub content: String,
}

/// What an `IndexEntry` holds, as plain values.
pub struct IndexEntryView {
    pub row: u64,
    pub title: Seq<char>,
    pub summary: Seq<char>,
    pub content: Seq<char>,
}

impl View for IndexEntry {
    type V = IndexEntryView;

    open spec fn view(&self) -> IndexEntryView {
        IndexEntryView {
            row: self.row,
            title: self.title@,
            summary: self.summary@,
            content: self.content@,
        }
    }
}

impl DeepView for IndexEntry {
    type V = IndexEntryView;

    open spec fn deep_view(&self) -> IndexEntryView {
        self@
    }
}

/// The index entry that is derived from a row.
pub open spec fn entry_of(r: RowView) -> IndexEntryView {
    IndexEntryView {
        row: r.row,
        title: r.article.title,
        summary: r.article.summary,
        content: r.article.content,
    }
}

/// Derives the index entry of an article under the given row.
pub fn index_entry(row: u64, article: &Article) -> (e: IndexEntry)
    ensures
        e@ == entry_of(RowView { row, article: article@ }),
{
    IndexEntry {
        row,
        title: article.title.clone(),
        summary: article.summary.clone(),
        content: article.content.clone(),
    }
}

} // verus!
