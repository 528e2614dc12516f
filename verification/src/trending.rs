//! The trending-list adapter. A listing page names projects and their
//! stars; the page of each project tells its age; the quality gate decides
//! from both which projects become items.

use vstd::prelude::*;
use crate::html::{
    excerpt_text, page_elements, page_rows, select_elements, select_rows, whole_text, Excerpt,
    ExcerptView,
};
use crate::item::{RawItem, RawItemView};
use crate::stars::{parse_number, star_count};
use crate::text::{concat2, trim_text, trimmed};
use crate::time::{
    clock_now, days_between, parse_rfc3339, rfc3339_instant, stored_text, timestamp_text,
    whole_days_between, Timestamp,
};
use crate::url::{normalize_url, normalized_url};

verus! {

/// A project of the listing page, with the signals that the quality gate reads.
#[derive(Debug)]
pub struct Candidate {
    /// The path of the project below the site root, empty where the listing
    /// gives none.
    pub path: String,
    pub name: String,
    pub description: String,
    pub language: String,
    pub stars: u32,
}

/// What a `Candidate` holds, as plain values.
pub struct CandidateView {
    pub path: Seq<char>,
    pub name: Seq<char>,
    pub description: Seq<char>,
    pub language: Seq<char>,
    pub stars: u32,
}

impl View for Candidate {
    type V = CandidateView;

    open spec fn view(&self) -> CandidateView {
        CandidateView {
            path: self.path@,
            name: self.name@,
            description: self.description@,
            language: self.language@,
            stars: self.stars,
        }
    }
}

impl DeepView for Candidate {
    type V = CandidateView;

    open spec fn deep_view(&self) -> CandidateView {
        self@
    }
}

/// A candidate together with the page of its project, where that page
/// could be fetched.
#[derive(Debug)]
pub struct Probed {
    pub candidate: Candidate,
    pub detail: Option<String>,
}

/// What a `Probed` holds, as plain values.
pub struct ProbedView {
    pub candidate: CandidateView,
    pub detail: Option<Seq<char>>,
}

impl View for Probed {
    type V = ProbedView;

    open spec fn view(&self) -> ProbedView {
        ProbedView { candidate: self.candidate@, detail: self.detail.deep_view() }
    }
}

impl DeepView for Probed {
    type V = ProbedView;

    open spec fn deep_view(&self) -> ProbedView {
        self@
    }
}

/// The quality gate. The younger a project, the more stars it needs: under
/// 14 days more than 20 000, under 60 days more than 30 000, and from then
/// on, as with an unknown age, more than 10 000.
pub open spec fn quality_gate(age_days: Option<int>, stars: int) -> bool {
    match age_days {
        Some(d) => if d < 14 {
            stars > 20000
        } else if d < 60 {
            stars > 30000
        } else {
            stars > 10000
        },
        None => stars > 10000,
    }
}

/// Whether a project of the given age in days and with the given stars
/// passes the quality gate.
pub fn passes_quality_gate(age_days: Option<i64>, stars: u32) -> (kept: bool)
    ensures
        kept == quality_gate(
            match age_days {
                Some(d) => Some(d as int),
                None => None,
            },
            stars as int,
        ),
{
    match age_days {
        Some(d) => if d < 14 {
            stars > 20000
        } else if d < 60 {
            stars > 30000
        } else {
            stars > 10000
        },
        None => stars > 10000,
    }
}

/// The selectors of a listing row: the project link, the description, the
/// language and the star count.
pub open spec fn row_cells() -> Seq<Seq<char>> {
    seq![
        "h2 a"@,
        "p"@,
        "span[itemprop='programmingLanguage']"@,
        "a[href$='/stargazers']"@,
    ]
}

/// The first element of a cell, if the cell has any.
pub open spec fn first_match(cell: Seq<ExcerptView>) -> Option<ExcerptView> {
    if cell.len() > 0 {
        Some(cell[0])
    } else {
        None
    }
}

/// The trimmed text of the first element of a cell, empty where the cell
/// has none.
pub open spec fn cell_text(cell: Seq<ExcerptView>) -> Seq<char> {
    match first_match(cell) {
        Some(e) => trimmed(whole_text(e)),
        None => Seq::empty(),
    }
}

/// A row names a project where it has a project link.
pub open spec fn is_project_row(row: Seq<Seq<ExcerptView>>) -> bool {
    row.len() == 4 && row[0].len() > 0
}

/// The candidate that a project row describes. Of each cell the first
/// element counts.
pub open spec fn candidate_of_row(row: Seq<Seq<ExcerptView>>) -> CandidateView {
    CandidateView {
        path: match row[0][0].attr {
            Some(href) => href,
            None => Seq::empty(),
        },
        name: cell_text(row[0]),
        description: cell_text(row[1]),
        language: cell_text(row[2]),
        stars: star_count(cell_text(row[3])) as u32,
    }
}

/// The candidates of the project rows among `rows`, in order.
pub open spec fn candidates_of_rows(rows: Seq<Seq<Seq<ExcerptView>>>) -> Seq<CandidateView>
    decreases rows.len(),
{
    if rows.len() == 0 {
        Seq::empty()
    } else if is_project_row(rows.last()) {
        candidates_of_rows(rows.drop_last()).push(candidate_of_row(rows.last()))
    } else {
        candidates_of_rows(rows.drop_last())
    }
}

/// The candidates that a listing page names.
pub open spec fn candidates_of(listing: Seq<char>) -> Seq<CandidateView> {
    match page_rows(listing, "article.Box-row"@, row_cells(), "href"@) {
        Some(rows) => candidates_of_rows(rows),
        None => Seq::empty(),
    }
}

fn text_of_cell(cell: &Vec<Excerpt>) -> (r: String)
    ensures
        r@ == cell_text(cell.deep_view()),
{
    if cell.len() > 0 {
        assert(cell.deep_view()[0] == cell[0]@);
        let whole = excerpt_text(&cell[0]);
        trim_text(whole.as_str())
    } else {
        assert(cell.deep_view().len() == 0);
        String::new()
    }
}

/// The first phase: reads the candidates off a listing page.
pub fn trending_candidates(listing: &str) -> (found: Vec<Candidate>)
    ensures
        found.deep_view() == candidates_of(listing@),
{
    let cells: Vec<&str> = vec![
        "h2 a",
        "p",
        "span[itemprop='programmingLanguage']",
        "a[href$='/stargazers']",
    ];
    assert(cells.deep_view() =~= row_cells());
    let mut found: Vec<Candidate> = Vec::new();
    assert(found.deep_view() =~= Seq::<CandidateView>::empty());
    let rows = match select_rows(listing, "article.Box-row", &cells, "href") {
        Some(rows) => rows,
        None => {
            return found;
        },
    };
    let ghost all = rows.deep_view();
    let mut i: usize = 0;
    while i < rows.len()
        invariant
            i <= rows.len(),
            all == rows.deep_view(),
            found.deep_view() == candidates_of_rows(all.take(i as int)),
        decreases rows.len() - i,
    {
        let row = &rows[i];
        proof {
            assert(all.take(i + 1).drop_last() =~= all.take(i as int));
            assert(all.take(i + 1).last() == row.deep_view());
            assert(row.deep_view().len() == row.len());
        }
        if row.len() != 4 {
            i += 1;
            continue;
        }
        proof {
            assert(row.deep_view()[0] == row[0].deep_view());
            assert(row.deep_view()[1] == row[1].deep_view());
            assert(row.deep_view()[2] == row[2].deep_view());
            assert(row.deep_view()[3] == row[3].deep_view());
        }
        assert(row[0].deep_view().len() == row[0].len());
        if row[0].len() > 0 {
            let link = &row[0][0];
            assert(row[0].deep_view()[0] == link@);
            let path = match &link.attr {
                Some(href) => href.clone(),
                None => String::new(),
            };
            let stars_text = text_of_cell(&row[3]);
            let c = Candidate {
                path,
                name: text_of_cell(&row[0]),
                description: text_of_cell(&row[1]),
                language: text_of_cell(&row[2]),
                stars: parse_number(stars_text.as_str()),
            };
            assert(c@ == candidate_of_row(row.deep_view()));
            let ghost before = found.deep_view();
            found.push(c);
            assert(found.deep_view() =~= before.push(candidate_of_row(row.deep_view())));
        }
        i += 1;
    }
    assert(all.take(rows.len() as int) =~= all);
    found
}

/// The site that the project paths are relative to.
pub open spec fn site_root() -> Seq<char> {
    "https://github.com"@
}

/// The address of the page of a candidate; none where the listing gave no
/// path, and such a candidate is passed over.
pub open spec fn detail_address(c: CandidateView) -> Option<Seq<char>> {
    if c.path.len() == 0 {
        None
    } else {
        Some(site_root() + c.path)
    }
}

/// Where the second phase finds the page of a candidate.
pub fn detail_url(c: &Candidate) -> (r: Option<String>)
    ensures
        r.deep_view() == detail_address(c@),
{
    if c.path.as_str().is_empty() {
        None
    } else {
        Some(concat2("https://github.com", c.path.as_str()))
    }
}

/// The first of `marks` whose attribute reads as an RFC 3339 date.
pub open spec fn first_dated(marks: Seq<ExcerptView>) -> Option<Timestamp>
    decreases marks.len(),
{
    if marks.len() == 0 {
        None
    } else {
        match marks[0].attr {
            Some(a) => match rfc3339_instant(a) {
                Some(t) => Some(t),
                None => first_dated(marks.drop_first()),
            },
            None => first_dated(marks.drop_first()),
        }
    }
}

/// The dated marks of a page under one selector.
pub open spec fn marks_of(page: Seq<char>, selector: Seq<char>) -> Seq<ExcerptView> {
    match page_elements(page, selector, "datetime"@) {
        Some(m) => m,
        None => Seq::empty(),
    }
}

/// The instant that a project page gives for the project: that of its
/// first readable `relative-time` element, else that of its first readable
/// `time` element.
pub open spec fn created_instant_of(page: Seq<char>) -> Option<Timestamp> {
    match first_dated(marks_of(page, "relative-time"@)) {
        Some(t) => Some(t),
        None => first_dated(marks_of(page, "time"@)),
    }
}

fn first_dated_of(marks: &Vec<Excerpt>) -> (r: Option<Timestamp>)
    ensures
        r == first_dated(marks.deep_view()),
{
    let ghost all = marks.deep_view();
    let mut i: usize = 0;
    assert(all.skip(0) =~= all);
    while i < marks.len()
        invariant
            i <= marks.len(),
            all == marks.deep_view(),
            first_dated(all) == first_dated(all.skip(i as int)),
        decreases marks.len() - i,
    {
        proof {
            assert(all.skip(i as int).drop_first() =~= all.skip(i + 1));
            assert(all.skip(i as int)[0] == marks[i as int]@);
        }
        match &marks[i].attr {
            Some(a) => {
                match parse_rfc3339(a.as_str()) {
                    Some(t) => {
                        return Some(t);
                    },
                    None => {},
                }
            },
            None => {},
        }
        i += 1;
    }
    None
}

fn marks_under(page: &str, selector: &str) -> (r: Vec<Excerpt>)
    ensures
        r.deep_view() == marks_of(page@, selector@),
{
    match select_elements(page, selector, "datetime") {
        Some(m) => m,
        None => {
            let m: Vec<Excerpt> = Vec::new();
            assert(m.deep_view() =~= Seq::<ExcerptView>::empty());
            m
        },
    }
}

/// Reads off a project page when the project was made.
pub fn project_created(page: &str) -> (r: Option<Timestamp>)
    ensures
        r == created_instant_of(page@),
{
    let first = marks_under(page, "relative-time");
    match first_dated_of(&first) {
        Some(t) => Some(t),
        None => {
            let second = marks_under(page, "time");
            first_dated_of(&second)
        },
    }
}

/// The age in days of a project whose page is `detail`; unknown where the
/// page could not be fetched or gives no date.
pub open spec fn age_of(detail: Option<Seq<char>>, now: Timestamp) -> Option<int> {
    match detail {
        Some(page) => match created_instant_of(page) {
            Some(created) => whole_days_between(now, created),
            None => None,
        },
        None => None,
    }
}

/// The title of a project: its name, followed by its language in square
/// brackets where one is known.
pub open spec fn project_title(c: CandidateView) -> Seq<char> {
    if c.language.len() > 0 {
        c.name + " ["@ + c.language + "]"@
    } else {
        c.name
    }
}

/// What stands in for a description that the listing does not give.
pub open spec fn missing_project_description() -> Seq<char> {
    "GitHub trending project"@
}

/// The item that a candidate becomes once it has passed the quality gate.
pub open spec fn item_of_candidate(c: CandidateView, now: Timestamp) -> RawItemView {
    RawItemView {
        title: project_title(c),
        url: normalized_url(site_root() + c.path),
        content: if c.description.len() > 0 {
            c.description
        } else {
            missing_project_description()
        },
        published_at: stored_text(now),
        image_url: None,
    }
}

/// A probed candidate is kept where the listing gave a path for it and it
/// passes the quality gate at its age.
pub open spec fn is_kept(p: ProbedView, now: Timestamp) -> bool {
    p.candidate.path.len() > 0 && quality_gate(age_of(p.detail, now), p.candidate.stars as int)
}

/// The items of the kept candidates among `probed`, in order.
pub open spec fn items_of_probed(probed: Seq<ProbedView>, now: Timestamp) -> Seq<RawItemView>
    decreases probed.len(),
{
    if probed.len() == 0 {
        Seq::empty()
    } else if is_kept(probed.last(), now) {
        items_of_probed(probed.drop_last(), now).push(
            item_of_candidate(probed.last().candidate, now),
        )
    } else {
        items_of_probed(probed.drop_last(), now)
    }
}

fn age_in_days(detail: &Option<String>, now: Timestamp) -> (r: Option<i64>)
    ensures
        match r {
            Some(d) => age_of(detail.deep_view(), now) == Some(d as int),
            None => age_of(detail.deep_view(), now) is None,
        },
{
    match detail {
        Some(page) => match project_created(page.as_str()) {
            Some(created) => days_between(now, created),
            None => None,
        },
        None => None,
    }
}

fn title_of(c: &Candidate) -> (r: String)
    ensures
        r@ == project_title(c@),
{
    if c.language.as_str().is_empty() {
        c.name.clone()
    } else {
        let mut r = c.name.clone();
        r.append(" [");
        r.append(c.language.as_str());
        r.append("]");
        r
    }
}

/// The second phase for one candidate: the item it becomes, or none where
/// it fails the quality gate or has no path. A failed quality gate drops the candidate
/// altogether.
pub fn trending_item(p: &Probed, now: Timestamp) -> (r: Option<RawItem>)
    ensures
        r.deep_view() == if is_kept(p@, now) {
            Some(item_of_candidate(p.candidate@, now))
        } else {
            None
        },
{
    let c = &p.candidate;
    if c.path.as_str().is_empty() {
        return None;
    }
    let age = age_in_days(&p.detail, now);
    if !passes_quality_gate(age, c.stars) {
        return None;
    }
    let full = concat2("https://github.com", c.path.as_str());
    let content = if c.description.as_str().is_empty() {
        "GitHub trending project".to_owned()
    } else {
        c.description.clone()
    };
    Some(
        RawItem {
            title: title_of(c),
            url: normalize_url(full.as_str()),
            content,
            published_at: timestamp_text(now),
            image_url: None,
        },
    )
}

/// The second phase, against a given present instant: the items of the
/// candidates that pass the quality gate, in listing order.
pub fn trending_items_at(probed: &Vec<Probed>, now: Timestamp) -> (items: Vec<RawItem>)
    ensures
        items.deep_view() == items_of_probed(probed.deep_view(), now),
{
    let ghost all = probed.deep_view();
    let mut items: Vec<RawItem> = Vec::new();
    assert(items.deep_view() =~= Seq::<RawItemView>::empty());
    let mut i: usize = 0;
    while i < probed.len()
        invariant
            i <= probed.len(),
            all == probed.deep_view(),
            items.deep_view() == items_of_probed(all.take(i as int), now),
        decreases probed.len() - i,
    {
        proof {
            assert(all.take(i + 1).drop_last() =~= all.take(i as int));
            assert(all.take(i + 1).last() == probed[i as int]@);
        }
        match trending_item(&probed[i], now) {
            Some(item) => {
                let ghost before = items.deep_view();
                let ghost v = item@;
                items.push(item);
                assert(items.deep_view() =~= before.push(v));
            },
            None => {},
        }
        i += 1;
    }
    assert(all.take(probed.len() as int) =~= all);
    items
}

/// The second phase; the ages are counted from the clock, read once, and
/// the items are dated by it.
pub fn trending_items(probed: &Vec<Probed>) -> (items: Vec<RawItem>)
    ensures
        exists|now: Timestamp| items.deep_view() == items_of_probed(probed.deep_view(), now),
{
    let now = clock_now();
    let items = trending_items_at(probed, now);
    assert(items.deep_view() == items_of_probed(probed.deep_view(), now));
    items
}

} // verus!
