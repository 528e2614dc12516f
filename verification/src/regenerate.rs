//! Batch regeneration: every article whose summary is empty or still the
//! template is summarized again, one after the other, and an observer is
//! told how far the batch has got.

use vstd::prelude::*;
use crate::article::{Row, RowView};
use crate::ingest::PACE_SECS;
use crate::settings::{AiConfig, AiConfigView};
use crate::store::{has_id, store_with_article, with_summary, ArticleStore, StoreView};
use crate::summary::{
    chat_request_of, final_summary, is_stale_summary, needs_regeneration, summary_or_fallback,
    summary_prompt_of, summary_request, ChatRequest, ChatRequestView, SummaryError,
    SummaryErrorView,
};

verus! {

/// An article that is due for a new summary.
#[derive(Debug)]
pub struct Stale {
    pub id: String,
    pub title: String,
    pub content: String,
}

/// What a `Stale` holds, as plain values.
pub struct StaleView {
    pub id: Seq<char>,
    pub title: Seq<char>,
    pub content: Seq<char>,
}

impl View for Stale {
    type V = StaleView;

    open spec fn view(&self) -> StaleView {
        StaleView { id: self.id@, title: self.title@, content: self.content@ }
    }
}

impl DeepView for Stale {
    type V = StaleView;

    open spec fn deep_view(&self) -> StaleView {
        self@
    }
}

/// What the observer of a batch is told.
#[derive(Debug)]
pub enum Notice {
    /// The batch begins; so many articles are due.
    Start { total: usize },
    /// The article of number `current`, counted from one, is at hand; so
    /// many are updated so far.
    Progress { current: usize, total: usize, title: String, updated: usize },
    /// The batch is over.
    Complete { total_updated: usize, total_processed: usize },
}

/// What a `Notice` holds, as plain values.
pub enum NoticeView {
    Start { total: usize },
    Progress { current: usize, total: usize, title: Seq<char>, updated: usize },
    Complete { total_updated: usize, total_processed: usize },
}

impl View for Notice {
    type V = NoticeView;

    open spec fn view(&self) -> NoticeView {
        match self {
            Notice::Start { total } => NoticeView::Start { total: *total },
            Notice::Progress { current, total, title, updated } => NoticeView::Progress {
                current: *current,
                total: *total,
                title: title@,
                updated: *updated,
            },
            Notice::Complete { total_updated, total_processed } => NoticeView::Complete {
                total_updated: *total_updated,
                total_processed: *total_processed,
            },
        }
    }
}

impl DeepView for Notice {
    type V = NoticeView;

    open spec fn deep_view(&self) -> NoticeView {
        self@
    }
}

/// What the caller of a batch is to do once it has told the observer.
#[derive(Debug)]
pub enum RegenNext {
    /// Send this request, with retries, and hand over how it ended.
    Summarize(ChatRequest),
    /// Wait this many seconds.
    Pace(u64),
    /// The batch is over; so many articles were updated.
    Finish(usize),
    /// Nothing: the batch does not wait for what was handed over.
    Stay,
}

/// What a `RegenNext` holds, as plain values.
pub enum RegenNextView {
    Summarize(ChatRequestView),
    Pace(u64),
    Finish(usize),
    Stay,
}

impl View for RegenNext {
    type V = RegenNextView;

    open spec fn view(&self) -> RegenNextView {
        match self {
            RegenNext::Summarize(r) => RegenNextView::Summarize(r@),
            RegenNext::Pace(s) => RegenNextView::Pace(*s),
            RegenNext::Finish(n) => RegenNextView::Finish(*n),
            RegenNext::Stay => RegenNextView::Stay,
        }
    }
}

/// One step of a batch: what to tell the observer, in order, and what to
/// do after that.
#[derive(Debug)]
pub struct RegenStep {
    pub notices: Vec<Notice>,
    pub next: RegenNext,
}

/// What a `RegenStep` holds, as plain values.
pub struct RegenStepView {
    pub notices: Seq<NoticeView>,
    pub next: RegenNextView,
}

impl View for RegenStep {
    type V = RegenStepView;

    open spec fn view(&self) -> RegenStepView {
        RegenStepView { notices: self.notices.deep_view(), next: self.next@ }
    }
}

/// Where a batch stands.
#[derive(Clone, Copy, Debug, PartialEq, Eq, Structural)]
pub enum RegenStage {
    Summarizing,
    Pacing,
    Done,
}

/// The state of a batch.
pub struct RegenView {
    pub stage: RegenStage,
    pub config: AiConfigView,
    /// The articles that were due when the batch began.
    pub items: Seq<StaleView>,
    /// How many of them are dealt with.
    pub at: nat,
    pub updated: nat,
}

/// The invariant of a batch.
pub open spec fn regen_wf(v: RegenView) -> bool {
    &&& v.at <= v.items.len()
    &&& v.stage != RegenStage::Pacing ==> v.updated <= v.at
    &&& v.stage != RegenStage::Done ==> v.at < v.items.len()
    &&& v.stage == RegenStage::Pacing ==> v.updated <= v.at + 1
    &&& v.items.len() <= usize::MAX
}

/// The article that a batch has at hand, while it is not over.
pub open spec fn article_at_hand(v: RegenView) -> Option<StaleView> {
    if v.stage != RegenStage::Done {
        Some(v.items[v.at as int])
    } else {
        None
    }
}

/// The articles among `rows` that are due for a new summary, in order.
pub open spec fn stale_of(rows: Seq<RowView>) -> Seq<StaleView>
    decreases rows.len(),
{
    if rows.len() == 0 {
        Seq::empty()
    } else if is_stale_summary(rows.last().article.summary) {
        stale_of(rows.drop_last()).push(
            StaleView {
                id: rows.last().article.id,
                title: rows.last().article.title,
                content: rows.last().article.content,
            },
        )
    } else {
        stale_of(rows.drop_last())
    }
}

/// The request for the new summary of an article.
pub open spec fn regen_request(config: AiConfigView, item: StaleView) -> ChatRequestView {
    chat_request_of(
        config.base_url,
        config.api_key,
        config.model,
        summary_prompt_of(item.title, item.content),
    )
}

/// Turning to the article at place `v.at`: the observer hears of it and
/// its summary is asked for; or, where none is left, the observer hears
/// that the batch is over.
pub open spec fn turn_to(v: RegenView) -> (RegenView, RegenStepView) {
    if v.at < v.items.len() {
        (
            RegenView { stage: RegenStage::Summarizing, ..v },
            RegenStepView {
                notices: seq![
                    NoticeView::Progress {
                        current: (v.at + 1) as usize,
                        total: v.items.len() as usize,
                        title: v.items[v.at as int].title,
                        updated: v.updated as usize,
                    },
                ],
                next: RegenNextView::Summarize(regen_request(v.config, v.items[v.at as int])),
            },
        )
    } else {
        (
            RegenView { stage: RegenStage::Done, ..v },
            RegenStepView {
                notices: seq![
                    NoticeView::Complete {
                        total_updated: v.updated as usize,
                        total_processed: v.items.len() as usize,
                    },
                ],
                next: RegenNextView::Finish(v.updated as usize),
            },
        )
    }
}

/// How a batch over `items` begins: the observer hears how many articles
/// are due, and the batch turns to the first.
pub open spec fn begun(config: AiConfigView, items: Seq<StaleView>) -> (RegenView, RegenStepView) {
    let first = turn_to(
        RegenView { stage: RegenStage::Summarizing, config, items, at: 0, updated: 0 },
    );
    (
        first.0,
        RegenStepView {
            notices: seq![NoticeView::Start { total: items.len() as usize }] + first.1.notices,
            next: first.1.next,
        },
    )
}

/// The summary that the article at hand gets.
pub open spec fn new_summary(r: Result<Seq<char>, SummaryErrorView>, item: StaleView) -> Seq<char> {
    final_summary(
        match r {
            Ok(s) => Some(s),
            Err(_) => None,
        },
        item.title,
        item.content,
    )
}

/// The batch once the summary of the article at hand has been settled and
/// stored: the article counts as updated, the observer hears of it, and a
/// pause follows.
pub open spec fn after_summary(v: RegenView) -> (RegenView, RegenStepView) {
    (
        RegenView { stage: RegenStage::Pacing, updated: v.updated + 1, ..v },
        RegenStepView {
            notices: seq![
                NoticeView::Progress {
                    current: (v.at + 1) as usize,
                    total: v.items.len() as usize,
                    title: v.items[v.at as int].title,
                    updated: (v.updated + 1) as usize,
                },
            ],
            next: RegenNextView::Pace(PACE_SECS),
        },
    )
}

/// The batch once the pause is over: it turns to the next article.
pub open spec fn after_pace(v: RegenView) -> (RegenView, RegenStepView) {
    turn_to(RegenView { at: v.at + 1, ..v })
}

/// A step that does nothing.
pub open spec fn stay(v: RegenView) -> (RegenView, RegenStepView) {
    (v, RegenStepView { notices: Seq::empty(), next: RegenNextView::Stay })
}

/// The articles of a store that are due for a new summary, in the order
/// of the store.
pub fn select_stale(rows: &Vec<Row>) -> (found: Vec<Stale>)
    ensures
        found.deep_view() == stale_of(rows.deep_view()),
{
    let ghost all = rows.deep_view();
    let mut found: Vec<Stale> = Vec::new();
    assert(found.deep_view() =~= Seq::<StaleView>::empty());
    let mut i: usize = 0;
    while i < rows.len()
        invariant
            i <= rows.len(),
            all == rows.deep_view(),
            found.deep_view() == stale_of(all.take(i as int)),
        decreases rows.len() - i,
    {
        let a = &rows[i].article;
        proof {
            assert(all.take(i + 1).drop_last() =~= all.take(i as int));
            assert(all.take(i + 1).last() == rows[i as int]@);
        }
        if needs_regeneration(a.summary.as_str()) {
            let s = Stale { id: a.id.clone(), title: a.title.clone(), content: a.content.clone() };
            let ghost before = found.deep_view();
            let ghost sv = s@;
            found.push(s);
            assert(found.deep_view() =~= before.push(sv));
        }
        i += 1;
    }
    assert(all.take(rows.len() as int) =~= all);
    found
}

/// One batch.
#[derive(Debug)]
pub struct RegenRun {
    stage: RegenStage,
    config: AiConfig,
    items: Vec<Stale>,
    at: usize,
    updated: usize,
}

impl View for RegenRun {
    type V = RegenView;

    closed spec fn view(&self) -> RegenView {
        RegenView {
            stage: self.stage,
            config: self.config@,
            items: self.items.deep_view(),
            at: self.at as nat,
            updated: self.updated as nat,
        }
    }
}

impl RegenRun {
    /// The invariant of the batch.
    pub open spec fn wf(&self) -> bool {
        regen_wf(self@)
    }

    fn turn(&mut self) -> (step: RegenStep)
        requires
            old(self)@.at <= old(self)@.items.len(),
        ensures
            (final(self)@, step@) == turn_to(old(self)@),
    {
        assert(self.items.deep_view().len() == self.items.len());
        if self.at < self.items.len() {
            self.stage = RegenStage::Summarizing;
            let item = &self.items[self.at];
            assert(self@.items[self@.at as int] == item@);
            let notice = Notice::Progress {
                current: self.at + 1,
                total: self.items.len(),
                title: item.title.clone(),
                updated: self.updated,
            };
            let ghost nv = notice@;
            let mut notices: Vec<Notice> = Vec::new();
            notices.push(notice);
            assert(notices.deep_view() =~= seq![nv]);
            RegenStep {
                notices,
                next: RegenNext::Summarize(
                    summary_request(
                        self.config.base_url.as_str(),
                        self.config.api_key.as_str(),
                        self.config.model.as_str(),
                        item.title.as_str(),
                        item.content.as_str(),
                    ),
                ),
            }
        } else {
            self.stage = RegenStage::Done;
            let notice = Notice::Complete {
                total_updated: self.updated,
                total_processed: self.items.len(),
            };
            let ghost nv = notice@;
            let mut notices: Vec<Notice> = Vec::new();
            notices.push(notice);
            assert(notices.deep_view() =~= seq![nv]);
            RegenStep { notices, next: RegenNext::Finish(self.updated) }
        }
    }

    /// Begins a batch over the articles of `rows` that are due.
    pub fn begin(config: AiConfig, rows: &Vec<Row>) -> (r: (RegenRun, RegenStep))
        ensures
            r.0.wf(),
            (r.0@, r.1@) == begun(config@, stale_of(rows.deep_view())),
    {
        let items = select_stale(rows);
        let mut run = RegenRun { stage: RegenStage::Summarizing, config, items, at: 0, updated: 0 };
        let ghost initial = run@;
        let total = run.items.len();
        assert(run.items.deep_view().len() == run.items.len());
        let first = run.turn();
        let start = Notice::Start { total };
        let ghost sv = start@;
        let ghost rest = first.notices.deep_view();
        let mut notices: Vec<Notice> = Vec::new();
        notices.push(start);
        let mut more = first.notices;
        notices.append(&mut more);
        assert(notices.deep_view() =~= seq![sv] + rest);
        (run, RegenStep { notices, next: first.next })
    }

    /// Where the batch stands.
    pub fn stage(&self) -> (s: RegenStage)
        ensures
            s == self@.stage,
    {
        self.stage
    }

    /// The article at hand, while the batch is not over.
    pub fn current(&self) -> (r: Option<&Stale>)
        requires
            self.wf(),
        ensures
            r.deep_view() == article_at_hand(self@),
    {
        assert(self.items.deep_view().len() == self.items.len());
        if self.stage != RegenStage::Done {
            assert(self@.items[self@.at as int] == self.items[self.at as int]@);
            Some(&self.items[self.at])
        } else {
            None
        }
    }

    /// How many articles are updated so far.
    pub fn updated(&self) -> (n: usize)
        ensures
            n == self@.updated,
    {
        self.updated
    }

    /// Settles the summary of the article at hand, which is what the
    /// remote generator said or else the template, and stores it. The
    /// caller holds the store meanwhile. Out of turn this does nothing.
    pub fn record_summary(&mut self, store: &mut ArticleStore, result: Result<String, SummaryError>) -> (step:
        RegenStep)
        requires
            old(self).wf(),
            old(store).wf(),
        ensures
            final(self).wf(),
            final(store).wf(),
            old(self)@.stage != RegenStage::Summarizing ==> (final(self)@, step@) == stay(
                old(self)@,
            ) && final(store)@ == old(store)@,
            old(self)@.stage == RegenStage::Summarizing ==> (final(self)@, step@) == after_summary(
                old(self)@,
            ) && is_summary_stored(
                old(store)@,
                final(store)@,
                old(self)@.items[old(self)@.at as int],
                match result {
                    Ok(s) => Ok(s@),
                    Err(e) => Err(e@),
                },
            ),
    {
        if self.stage != RegenStage::Summarizing {
            let notices: Vec<Notice> = Vec::new();
            assert(notices.deep_view() =~= Seq::<NoticeView>::empty());
            return RegenStep { notices, next: RegenNext::Stay };
        }
        assert(self.items.deep_view().len() == self.items.len());
        let item = &self.items[self.at];
        assert(self@.items[self@.at as int] == item@);
        let summary = summary_or_fallback(
            result,
            item.title.as_str(),
            item.content.as_str(),
            "",
        );
        let _found = store.set_summary(item.id.as_str(), summary);
        self.updated = self.updated + 1;
        self.stage = RegenStage::Pacing;
        let notice = Notice::Progress {
            current: self.at + 1,
            total: self.items.len(),
            title: item.title.clone(),
            updated: self.updated,
        };
        let ghost nv = notice@;
        let mut notices: Vec<Notice> = Vec::new();
        notices.push(notice);
        assert(notices.deep_view() =~= seq![nv]);
        RegenStep { notices, next: RegenNext::Pace(PACE_SECS) }
    }

    /// Goes on after the pause. Out of turn this does nothing.
    pub fn paced(&mut self) -> (step: RegenStep)
        requires
            old(self).wf(),
        ensures
            final(self).wf(),
            old(self)@.stage != RegenStage::Pacing ==> (final(self)@, step@) == stay(old(self)@),
            old(self)@.stage == RegenStage::Pacing ==> (final(self)@, step@) == after_pace(
                old(self)@,
            ),
    {
        if self.stage != RegenStage::Pacing {
            let notices: Vec<Notice> = Vec::new();
            assert(notices.deep_view() =~= Seq::<NoticeView>::empty());
            return RegenStep { notices, next: RegenNext::Stay };
        }
        assert(self.items.deep_view().len() == self.items.len());
        self.at = self.at + 1;
        self.turn()
    }
}

/// The store after the article `item` has got the summary that `result`
/// settles: that article, if it is still stored, has the new summary in
/// the store and in the index, and nothing else has changed.
pub open spec fn is_summary_stored(
    before: StoreView,
    after: StoreView,
    item: StaleView,
    result: Result<Seq<char>, SummaryErrorView>,
) -> bool {
    if has_id(before.rows, item.id) {
        exists|at: int|
            0 <= at < before.rows.len() && (#[trigger] before.rows[at]).article.id == item.id
                && after == store_with_article(
                before,
                at,
                with_summary(before.rows[at].article, new_summary(result, item)),
            )
    } else {
        after == before
    }
}

} // verus!
