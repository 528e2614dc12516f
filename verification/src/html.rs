//! Reading HTML pages. The parsing and the matching of CSS selectors are
//! done by `scraper`; what comes back is handed on as plain texts.

use vstd::prelude::*;

verus! {

/// What is read off one element of a page: the value of one attribute, if
/// the element has it, and the text nodes below the element, in order.
#[derive(Debug)]
pub struct Excerpt {
    pub attr: Option<String>,
    pub text: Vec<String>,
}

/// What an `Excerpt` holds, as plain texts.
pub struct ExcerptView {
    pub attr: Option<Seq<char>>,
    pub text: Seq<Seq<char>>,
}

impl View for Excerpt {
    type V = ExcerptView;

    open spec fn view(&self) -> ExcerptView {
        ExcerptView { attr: self.attr.deep_view(), text: self.text.deep_view() }
    }
}

impl DeepView for Excerpt {
    type V = ExcerptView;

    open spec fn deep_view(&self) -> ExcerptView {
        self@
    }
}

/// The elements of the page `page` that match the selector `selector`, in
/// the order in which the parsed page yields them, each read for the
/// attribute `attr`; `None` where `selector` is no selector.
pub uninterp spec fn page_elements(
    page: Seq<char>,
    selector: Seq<char>,
    attr: Seq<char>,
) -> Option<Seq<ExcerptView>>;

/// For each element of `page` that matches `row`, in the order in which
/// the parsed page yields them, and for each selector of `cells` in turn:
/// the elements below it that match that selector, in order, each read for
/// the attribute `attr`. `None` where `row` or one of `cells` is no
/// selector.
pub uninterp spec fn page_rows(
    page: Seq<char>,
    row: Seq<char>,
    cells: Seq<Seq<char>>,
    attr: Seq<char>,
) -> Option<Seq<Seq<Seq<ExcerptView>>>>;

/// `scraper::Html::parse_document`, then `Html::select` with the selector
/// that `scraper::Selector::parse` makes of `selector`. Each match is read
/// through `ElementRef::attr` and `ElementRef::text`. The contract only
/// names the result: the same page, selector and attribute always give the
/// same elements.
#[verifier::external_body]
pub(crate) fn select_elements(page: &str, selector: &str, attr: &str) -> (r: Option<Vec<Excerpt>>)
    ensures
        r.deep_view() == page_elements(page@, selector@, attr@),
{
    let sel = match scraper::Selector::parse(selector) {
        Ok(s) => s,
        Err(_) => return None,
    };
    let doc = scraper::Html::parse_document(page);
    Some(doc.select(&sel).map(|e| Excerpt {
        attr: e.attr(attr).map(String::from),
        text: e.text().map(String::from).collect(),
    }).collect())
}

/// `scraper::Html::parse_document`, then `Html::select` for the rows and
/// `ElementRef::select` below each row, once for each selector of `cells`.
/// Each match is read through `ElementRef::attr` and `ElementRef::text`.
/// The contract only names the result.
#[verifier::external_body]
pub(crate) fn select_rows(page: &str, row: &str, cells: &Vec<&str>, attr: &str) -> (r: Option<
    Vec<Vec<Vec<Excerpt>>>,
>)
    ensures
        r.deep_view() == page_rows(page@, row@, cells.deep_view(), attr@),
{
    let row_sel = scraper::Selector::parse(row).ok()?;
    let mut sels = Vec::new();
    for c in cells.iter() {
        sels.push(scraper::Selector::parse(c).ok()?);
    }
    let doc = scraper::Html::parse_document(page);
    Some(doc.select(&row_sel).map(|r| sels.iter().map(|s| r.select(s).map(|e| Excerpt {
        attr: e.attr(attr).map(String::from),
        text: e.text().map(String::from).collect(),
    }).collect()).collect()).collect())
}

/// The text nodes of `e` run together, as they stand.
pub open spec fn whole_text(e: ExcerptView) -> Seq<char> {
    crate::text::joined(e.text, Seq::empty())
}

/// The text of an element: its text nodes run together.
pub fn excerpt_text(e: &Excerpt) -> (r: String)
    ensures
        r@ == whole_text(e@),
{
    let r = crate::text::join_texts(&e.text, "");
    proof {
        reveal_strlit("");
        assert(""@ =~= Seq::<char>::empty());
    }
    r
}

} // verus!
