//! What a fetch yields before it is summarized and stored.

use vstd::prelude::*;

verus! {

/// A candidate article as an adapter extracted it: not yet summarized, not
/// yet stored.
#[derive(Debug)]
pub struct RawItem {
    pub title: String,
    /// The normalized URL of the item.
    pub url: String,
    pub content: String,
    pub published_at: String,
    pub image_url: Option<String>,
}

/// What a `RawItem` holds, as plain texts.
pub struct RawItemView {
    pub title: Seq<char>,
    pub url: Seq<char>,
    pub content: Seq<char>,
    pub published_at: Seq<char>,
    pub image_url: Option<Seq<char>>,
}

impl View for RawItem {
    type V = RawItemView;

    open spec fn view(&self) -> RawItemView {
        RawItemView {
            title: self.title@,
            url: self.url@,
            content: self.content@,
            published_at: self.published_at@,
            image_url: self.image_url.deep_view(),
        }
    }
}

impl DeepView for RawItem {
    type V = RawItemView;

    open spec fn deep_view(&self) -> RawItemView {
        self@
    }
}

/// A copy of an optional text.
pub fn copy_optional_text(t: &Option<String>) -> (r: Option<String>)
    ensures
        r.deep_view() == t.deep_view(),
{
    match t {
        Some(s) => Some(s.clone()),
        None => None,
    }
}

impl RawItem {
    /// A copy that holds the same texts.
    pub fn duplicate(&self) -> (r: RawItem)
        ensures
            r@ == self@,
    {
        RawItem {
            title: self.title.clone(),
            url: self.url.clone(),
            content: self.content.clone(),
            published_at: self.published_at.clone(),
            image_url: copy_optional_text(&self.image_url),
        }
    }
}

} // verus!
