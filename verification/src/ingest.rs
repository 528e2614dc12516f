//! The ingestion orchestrator. One run polls the active sources in order,
//! summarizes what they yield, stores it in one pass once all fetching is
//! done, and then enforces retention. The run itself touches nothing
//! outside: it tells its caller what to do next and is told how that went.

use vstd::prelude::*;
use crate::item::{RawItem, RawItemView};
use crate::persist::{
    lemma_persisted_count, pass_state, persist_all, persisted, Pending, PendingView, PersistView,
    StampView,
};
use crate::settings::{AiConfig, AiConfigView};
use crate::source::{
    adapter_for, adapter_of, goes_through_proxy, needs_proxy, snapshot_of, snapshot_sources,
    Adapter, Source, SourceView, SOURCE_CAP,
};
use crate::store::{evicted_count, is_retention, ArticleStore, InsertOutcome};
use crate::summary::{
    chat_request_of, final_summary, make_zh_brief, summary_or_fallback, summary_prompt_of,
    summary_request, template_summary, ChatRequest, ChatRequestView, SummaryError,
    SummaryErrorView,
};
use crate::article::Row;

verus! {

/// What a run reports: how many articles it inserted and how many sources
/// it could not fetch.
#[derive(Clone, Copy, Debug, PartialEq, Eq, Structural)]
pub struct CrawlResult {
    pub inserted: usize,
    pub failed_sources: usize,
}

/// What enforcing retention reports: how many articles it evicted.
#[derive(Clone, Copy, Debug, PartialEq, Eq, Structural)]
pub struct CleanupResult {
    pub deleted: i32,
}

/// Remote summaries are asked for no faster than one in this many seconds.
pub const PACE_SECS: u64 = 1;

/// Where a run stands. `Fetching`, `Summarizing` and `Pacing` are the
/// three waits of the fetching and summarizing of one source.
#[derive(Clone, Copy, Debug, PartialEq, Eq, Structural)]
pub enum Stage {
    CollectingSources,
    Fetching,
    Summarizing,
    Pacing,
    Persisting,
    Evicting,
    Done,
}

/// What the caller of a run is to do next.
#[derive(Debug)]
pub enum IngestAction {
    /// Read the configured sources and hand them over.
    LoadSources,
    /// Fetch this source with this adapter and hand over what it yields.
    Fetch { source: Source, adapter: Adapter, use_proxy: bool },
    /// Send this request, with retries, and hand over how it ended.
    Summarize(ChatRequest),
    /// Wait this many seconds.
    Pace(u64),
    /// Take hold of the store and let the run store what it has.
    Persist,
    /// Take hold of the store and let the run enforce retention.
    Evict,
    /// The run is over; this is its result.
    Finish(CrawlResult),
    /// The run is over because the store refused an article.
    Abort(InsertOutcome),
    /// Nothing: what was handed over is not what the run waits for.
    Stay,
}

/// What an `IngestAction` holds, as plain values.
pub enum ActionView {
    LoadSources,
    Fetch { source: SourceView, adapter: Adapter, use_proxy: bool },
    Summarize(ChatRequestView),
    Pace(u64),
    Persist,
    Evict,
    Finish(CrawlResult),
    Abort(InsertOutcome),
    Stay,
}

impl View for IngestAction {
    type V = ActionView;

    open spec fn view(&self) -> ActionView {
        match self {
            IngestAction::LoadSources => ActionView::LoadSources,
            IngestAction::Fetch { source, adapter, use_proxy } => ActionView::Fetch {
                source: source@,
                adapter: *adapter,
                use_proxy: *use_proxy,
            },
            IngestAction::Summarize(r) => ActionView::Summarize(r@),
            IngestAction::Pace(s) => ActionView::Pace(*s),
            IngestAction::Persist => ActionView::Persist,
            IngestAction::Evict => ActionView::Evict,
            IngestAction::Finish(r) => ActionView::Finish(*r),
            IngestAction::Abort(o) => ActionView::Abort(*o),
            IngestAction::Stay => ActionView::Stay,
        }
    }
}

/// What the caller of a run hands back.
#[derive(Debug)]
pub enum IngestEvent {
    /// The configured sources.
    Sources(Vec<Source>),
    /// What the fetch of the current source yielded, or why it failed.
    Fetched(Result<Vec<RawItem>, String>),
    /// The remote summary of the current item, or why there is none.
    Summarized(Result<String, SummaryError>),
    /// The wait is over.
    Paced,
}

/// What an `IngestEvent` holds, as plain values.
pub enum EventView {
    Sources(Seq<SourceView>),
    Fetched(Result<Seq<RawItemView>, Seq<char>>),
    Summarized(Result<Seq<char>, SummaryErrorView>),
    Paced,
}

impl View for IngestEvent {
    type V = EventView;

    open spec fn view(&self) -> EventView {
        match self {
            IngestEvent::Sources(s) => EventView::Sources(s.deep_view()),
            IngestEvent::Fetched(r) => EventView::Fetched(
                match r {
                    Ok(items) => Ok(items.deep_view()),
                    Err(e) => Err(e@),
                },
            ),
            IngestEvent::Summarized(r) => EventView::Summarized(
                match r {
                    Ok(s) => Ok(s@),
                    Err(e) => Err(e@),
                },
            ),
            IngestEvent::Paced => EventView::Paced,
        }
    }
}

/// The state of a run.
pub struct RunView {
    pub stage: Stage,
    /// How the remote generator is reached, if it is.
    pub config: Option<AiConfigView>,
    /// The snapshot of sources that this run polls.
    pub sources: Seq<SourceView>,
    /// How many of them are dealt with.
    pub source_at: nat,
    /// The items of the current source, while they are summarized.
    pub items: Seq<RawItemView>,
    /// How many of them are summarized.
    pub item_at: nat,
    /// What waits to be stored.
    pub pending: Seq<PendingView>,
    pub failed_sources: nat,
    pub inserted: nat,
}

/// The invariant of a run.
pub open spec fn run_wf(v: RunView) -> bool {
    &&& v.sources.len() <= SOURCE_CAP
    &&& v.source_at <= v.sources.len()
    &&& v.failed_sources <= v.source_at
    &&& v.item_at <= v.items.len()
    &&& v.stage == Stage::CollectingSources ==> v.source_at == 0
    &&& (v.stage == Stage::Fetching || v.stage == Stage::Summarizing || v.stage == Stage::Pacing)
        ==> v.source_at < v.sources.len()
    &&& (v.stage == Stage::Summarizing || v.stage == Stage::Pacing) ==> v.item_at < v.items.len()
        && v.config is Some
    &&& (v.stage == Stage::Persisting || v.stage == Stage::Evicting || v.stage == Stage::Done)
        ==> v.source_at == v.sources.len()
}

/// A run that has not begun.
pub open spec fn fresh_run(config: Option<AiConfigView>) -> RunView {
    RunView {
        stage: Stage::CollectingSources,
        config,
        sources: Seq::empty(),
        source_at: 0,
        items: Seq::empty(),
        item_at: 0,
        pending: Seq::empty(),
        failed_sources: 0,
        inserted: 0,
    }
}

/// The items of a source, each with its template summary.
pub open spec fn templated(source: Seq<char>, items: Seq<RawItemView>) -> Seq<PendingView> {
    Seq::new(
        items.len(),
        |i: int|
            PendingView {
                source,
                item: items[i],
                summary: template_summary(items[i].title, items[i].content),
            },
    )
}

/// The request for the summary of an item.
pub open spec fn request_for(config: AiConfigView, item: RawItemView) -> ChatRequestView {
    chat_request_of(
        config.base_url,
        config.api_key,
        config.model,
        summary_prompt_of(item.title, item.content),
    )
}

/// The place of the first source from `from` on that has an adapter; the
/// number of sources where none has.
pub open spec fn next_supported(sources: Seq<SourceView>, from: nat) -> nat
    decreases sources.len() - from,
{
    if from >= sources.len() {
        sources.len()
    } else if adapter_of(sources[from as int].source_type, sources[from as int].url) is Some {
        from
    } else {
        next_supported(sources, from + 1)
    }
}

/// The next source with an adapter lies between `from` and the end.
pub proof fn lemma_next_supported_bounds(sources: Seq<SourceView>, from: nat)
    requires
        from <= sources.len(),
    ensures
        from <= next_supported(sources, from) <= sources.len(),
        next_supported(sources, from) < sources.len() ==> adapter_of(
            sources[next_supported(sources, from) as int].source_type,
            sources[next_supported(sources, from) as int].url,
        ) is Some,
    decreases sources.len() - from,
{
    if from < sources.len() && adapter_of(
        sources[from as int].source_type,
        sources[from as int].url,
    ) is None {
        lemma_next_supported_bounds(sources, from + 1);
    }
}

/// The run with no items of a source at hand.
pub open spec fn without_items(v: RunView) -> RunView {
    RunView { items: Seq::empty(), item_at: 0, ..v }
}

/// Turning to the next source. Sources of an unknown kind are passed
/// over: they are not fetched, yield nothing and count as no failure. The
/// next source that has an adapter is fetched; where none is left, the run
/// goes on to store what it has. Storing never begins before.
pub open spec fn next_fetch(v: RunView) -> (RunView, ActionView) {
    let cleared = without_items(v);
    let at = next_supported(v.sources, v.source_at);
    if at < v.sources.len() {
        let s = v.sources[at as int];
        let adapter = adapter_of(s.source_type, s.url)->0;
        (
            RunView { stage: Stage::Fetching, source_at: at, ..cleared },
            ActionView::Fetch { source: s, adapter, use_proxy: goes_through_proxy(adapter, s.url) },
        )
    } else {
        (
            RunView { stage: Stage::Persisting, source_at: v.sources.len(), ..cleared },
            ActionView::Persist,
        )
    }
}

/// Turning to the next item of the current source: its summary is asked
/// for, or, where none is left, the run turns to the next source.
pub open spec fn next_item(v: RunView) -> (RunView, ActionView) {
    if v.item_at < v.items.len() && v.config is Some {
        (
            RunView { stage: Stage::Summarizing, ..v },
            ActionView::Summarize(request_for(v.config->0, v.items[v.item_at as int])),
        )
    } else {
        next_fetch(RunView { source_at: v.source_at + 1, ..v })
    }
}

/// The summary that the current item is stored with.
pub open spec fn settled_summary(r: Result<Seq<char>, SummaryErrorView>, item: RawItemView) -> Seq<
    char,
> {
    final_summary(
        match r {
            Ok(s) => Some(s),
            Err(_) => None,
        },
        item.title,
        item.content,
    )
}

/// One step of a run: the state it is in and what it is handed decide the
/// state it goes to and what is to be done next. A source that could not
/// be fetched is counted and passed over. What is handed over out of turn
/// changes nothing.
pub open spec fn step(v: RunView, e: EventView) -> (RunView, ActionView) {
    match (v.stage, e) {
        (Stage::CollectingSources, EventView::Sources(all)) => next_fetch(
            RunView { sources: snapshot_of(all), source_at: 0, ..v },
        ),
        (Stage::Fetching, EventView::Fetched(Err(_))) => next_fetch(
            RunView { failed_sources: v.failed_sources + 1, source_at: v.source_at + 1, ..v },
        ),
        (Stage::Fetching, EventView::Fetched(Ok(items))) => if v.config is Some {
            next_item(RunView { items, item_at: 0, ..v })
        } else {
            next_fetch(
                RunView {
                    pending: v.pending + templated(v.sources[v.source_at as int].name, items),
                    source_at: v.source_at + 1,
                    ..v
                },
            )
        },
        (Stage::Summarizing, EventView::Summarized(r)) => (
            RunView {
                stage: Stage::Pacing,
                pending: v.pending.push(
                    PendingView {
                        source: v.sources[v.source_at as int].name,
                        item: v.items[v.item_at as int],
                        summary: settled_summary(r, v.items[v.item_at as int]),
                    },
                ),
                ..v
            },
            ActionView::Pace(PACE_SECS),
        ),
        (Stage::Pacing, EventView::Paced) => next_item(RunView { item_at: v.item_at + 1, ..v }),
        _ => (v, ActionView::Stay),
    }
}

/// The run after it has stored what it had, given how the pass ended: on
/// to retention, or over where the store refused an article.
pub open spec fn after_persist(v: RunView, pass: PersistView) -> (RunView, ActionView) {
    match pass.failure {
        Some(refusal) => (RunView { stage: Stage::Done, ..v }, ActionView::Abort(refusal)),
        None => (
            RunView { stage: Stage::Evicting, inserted: pass.inserted, ..v },
            ActionView::Evict,
        ),
    }
}

/// The result of a run.
pub open spec fn result_of(v: RunView) -> CrawlResult {
    CrawlResult { inserted: v.inserted as usize, failed_sources: v.failed_sources as usize }
}

/// Every step keeps the invariant of a run.
pub proof fn lemma_step_keeps_run(v: RunView, e: EventView)
    requires
        run_wf(v),
    ensures
        run_wf(step(v, e).0),
{
    match e {
        EventView::Sources(all) => {
            crate::source::lemma_snapshot_is_capped(all);
            lemma_next_supported_bounds(snapshot_of(all), 0);
        },
        _ => {},
    }
    if v.source_at < v.sources.len() {
        lemma_next_supported_bounds(v.sources, v.source_at + 1);
    }
}

/// A run begins to store only when every source of its snapshot is dealt
/// with, and it has then counted at most one failure for each.
pub proof fn lemma_persist_only_after_all_fetched(v: RunView, e: EventView)
    requires
        run_wf(v),
        step(v, e).1 == ActionView::Persist,
    ensures
        step(v, e).0.source_at == step(v, e).0.sources.len(),
        step(v, e).0.failed_sources <= step(v, e).0.sources.len(),
        step(v, e).0.stage == Stage::Persisting,
{
    lemma_step_keeps_run(v, e);
}

/// A failed fetch is not fatal: the run counts it and turns to the next
/// source, with nothing added to what waits to be stored.
pub proof fn lemma_failed_source_is_counted(v: RunView, why: Seq<char>)
    requires
        run_wf(v),
        v.stage == Stage::Fetching,
    ensures
        step(v, EventView::Fetched(Err(why))).0.failed_sources == v.failed_sources + 1,
        step(v, EventView::Fetched(Err(why))).0.source_at > v.source_at,
        step(v, EventView::Fetched(Err(why))).0.pending == v.pending,
        step(v, EventView::Fetched(Err(why))).1 is Fetch || step(
            v,
            EventView::Fetched(Err(why)),
        ).1 is Persist,
{
    lemma_next_supported_bounds(v.sources, v.source_at + 1);
}

/// One ingestion run.
#[derive(Debug)]
pub struct IngestRun {
    stage: Stage,
    config: Option<AiConfig>,
    sources: Vec<Source>,
    source_at: usize,
    items: Vec<RawItem>,
    item_at: usize,
    pending: Vec<Pending>,
    failed_sources: usize,
    inserted: usize,
}

impl View for IngestRun {
    type V = RunView;

    closed spec fn view(&self) -> RunView {
        RunView {
            stage: self.stage,
            config: self.config.deep_view(),
            sources: self.sources.deep_view(),
            source_at: self.source_at as nat,
            items: self.items.deep_view(),
            item_at: self.item_at as nat,
            pending: self.pending.deep_view(),
            failed_sources: self.failed_sources as nat,
            inserted: self.inserted as nat,
        }
    }
}

fn template_all(source: &str, items: &Vec<RawItem>, pending: &mut Vec<Pending>)
    ensures
        final(pending).deep_view() == old(pending).deep_view() + templated(
            source@,
            items.deep_view(),
        ),
{
    let ghost before = pending.deep_view();
    let ghost all = templated(source@, items.deep_view());
    let mut i: usize = 0;
    assert(before + all.take(0) =~= before);
    while i < items.len()
        invariant
            i <= items.len(),
            all == templated(source@, items.deep_view()),
            pending.deep_view() == before + all.take(i as int),
        decreases items.len() - i,
    {
        let item = &items[i];
        let p = Pending {
            source: source.to_owned(),
            item: item.duplicate(),
            summary: make_zh_brief(item.title.as_str(), item.content.as_str(), source),
        };
        assert(p@ == all[i as int]);
        let ghost so_far = pending.deep_view();
        pending.push(p);
        assert(pending.deep_view() =~= so_far.push(all[i as int]));
        assert(before + all.take(i + 1) =~= (before + all.take(i as int)).push(all[i as int]));
        i += 1;
    }
    assert(all.take(items.len() as int) =~= all);
}

impl IngestRun {
    /// The invariant of the run.
    pub open spec fn wf(&self) -> bool {
        run_wf(self@)
    }

    /// A run that has not begun. With `config` it asks the remote generator
    /// for its summaries; without, it writes them from the template.
    pub fn new(config: Option<AiConfig>) -> (run: IngestRun)
        ensures
            run.wf(),
            run@ == fresh_run(config.deep_view()),
    {
        let run = IngestRun {
            stage: Stage::CollectingSources,
            config,
            sources: Vec::new(),
            source_at: 0,
            items: Vec::new(),
            item_at: 0,
            pending: Vec::new(),
            failed_sources: 0,
            inserted: 0,
        };
        assert(run@.sources =~= Seq::<SourceView>::empty());
        assert(run@.items =~= Seq::<RawItemView>::empty());
        assert(run@.pending =~= Seq::<PendingView>::empty());
        run
    }

    /// What a run begins with.
    pub fn start(&self) -> (a: IngestAction)
        ensures
            a@ == ActionView::LoadSources,
    {
        IngestAction::LoadSources
    }

    /// Where the run stands.
    pub fn stage(&self) -> (s: Stage)
        ensures
            s == self@.stage,
    {
        self.stage
    }

    /// How many sources could not be fetched so far.
    pub fn failed_sources(&self) -> (n: usize)
        ensures
            n == self@.failed_sources,
    {
        self.failed_sources
    }

    /// What waits to be stored.
    pub fn pending(&self) -> (p: &Vec<Pending>)
        ensures
            p.deep_view() == self@.pending,
    {
        &self.pending
    }

    fn turn_to_next_source(&mut self) -> (a: IngestAction)
        requires
            old(self)@.source_at <= old(self)@.sources.len(),
        ensures
            (final(self)@, a@) == next_fetch(old(self)@),
    {
        self.items = Vec::new();
        self.item_at = 0;
        assert(self@.items =~= Seq::<RawItemView>::empty());
        assert(self.sources.deep_view().len() == self.sources.len());
        let ghost cleared = self@;
        let ghost sources = self@.sources;
        let ghost from = self@.source_at;
        let mut at: usize = self.source_at;
        while at < self.sources.len()
            invariant
                at <= self.sources.len(),
                self@ == cleared,
                cleared == without_items(old(self)@),
                from == cleared.source_at,
                sources == cleared.sources,
                sources == self.sources.deep_view(),
                next_supported(sources, from) == next_supported(sources, at as nat),
            decreases self.sources.len() - at,
        {
            let s = &self.sources[at];
            assert(sources[at as int] == s@);
            match adapter_for(s.source_type.as_str(), s.url.as_str()) {
                Some(adapter) => {
                    let use_proxy = needs_proxy(adapter, s.url.as_str());
                    let a = IngestAction::Fetch { source: s.duplicate(), adapter, use_proxy };
                    self.source_at = at;
                    self.stage = Stage::Fetching;
                    return a;
                },
                None => {},
            }
            at += 1;
        }
        self.source_at = at;
        self.stage = Stage::Persisting;
        IngestAction::Persist
    }

    fn turn_to_next_item(&mut self) -> (a: IngestAction)
        requires
            old(self)@.source_at < old(self)@.sources.len(),
        ensures
            (final(self)@, a@) == next_item(old(self)@),
    {
        if self.item_at < self.items.len() {
            match &self.config {
                Some(c) => {
                    self.stage = Stage::Summarizing;
                    let item = &self.items[self.item_at];
                    assert(self@.items[self@.item_at as int] == item@);
                    return IngestAction::Summarize(
                        summary_request(
                            c.base_url.as_str(),
                            c.api_key.as_str(),
                            c.model.as_str(),
                            item.title.as_str(),
                            item.content.as_str(),
                        ),
                    );
                },
                None => {},
            }
        }
        assert(self.sources.deep_view().len() == self.sources.len());
        self.source_at = self.source_at + 1;
        self.turn_to_next_source()
    }

    /// Takes what the caller hands back and says what to do next.
    pub fn advance(&mut self, event: IngestEvent) -> (a: IngestAction)
        requires
            old(self).wf(),
        ensures
            final(self).wf(),
            (final(self)@, a@) == step(old(self)@, event@),
    {
        proof {
            lemma_step_keeps_run(self@, event@);
            assert(self.sources.deep_view().len() == self.sources.len());
            assert(self.items.deep_view().len() == self.items.len());
        }
        match event {
            IngestEvent::Sources(all) => {
                if self.stage == Stage::CollectingSources {
                    self.sources = snapshot_sources(&all);
                    self.source_at = 0;
                    self.turn_to_next_source()
                } else {
                    IngestAction::Stay
                }
            },
            IngestEvent::Fetched(result) => {
                if self.stage == Stage::Fetching {
                    match result {
                        Err(_) => {
                            self.failed_sources = self.failed_sources + 1;
                            self.source_at = self.source_at + 1;
                            self.turn_to_next_source()
                        },
                        Ok(items) => {
                            if self.config.is_some() {
                                self.items = items;
                                self.item_at = 0;
                                self.turn_to_next_item()
                            } else {
                                let s = &self.sources[self.source_at];
                                assert(self@.sources[self@.source_at as int] == s@);
                                template_all(s.name.as_str(), &items, &mut self.pending);
                                self.source_at = self.source_at + 1;
                                self.turn_to_next_source()
                            }
                        },
                    }
                } else {
                    IngestAction::Stay
                }
            },
            IngestEvent::Summarized(result) => {
                if self.stage == Stage::Summarizing {
                    let s = &self.sources[self.source_at];
                    let item = &self.items[self.item_at];
                    assert(self@.sources[self@.source_at as int] == s@);
                    assert(self@.items[self@.item_at as int] == item@);
                    let summary = summary_or_fallback(
                        result,
                        item.title.as_str(),
                        item.content.as_str(),
                        s.name.as_str(),
                    );
                    let p = Pending { source: s.name.clone(), item: item.duplicate(), summary };
                    let ghost before = self.pending.deep_view();
                    let ghost pv = p@;
                    self.pending.push(p);
                    assert(self.pending.deep_view() =~= before.push(pv));
                    self.stage = Stage::Pacing;
                    IngestAction::Pace(PACE_SECS)
                } else {
                    IngestAction::Stay
                }
            },
            IngestEvent::Paced => {
                if self.stage == Stage::Pacing {
                    self.item_at = self.item_at + 1;
                    self.turn_to_next_item()
                } else {
                    IngestAction::Stay
                }
            },
        }
    }

    /// Stores what the run has fetched, in one pass, each item unless its
    /// URL is known already. The caller holds the store for the whole
    /// pass. Out of turn this does nothing.
    pub fn persist(&mut self, store: &mut ArticleStore) -> (a: IngestAction)
        requires
            old(self).wf(),
            old(store).wf(),
        ensures
            final(self).wf(),
            final(store).wf(),
            old(self)@.stage != Stage::Persisting ==> a@ == ActionView::Stay && final(self)@ == old(
                self,
            )@ && final(store)@ == old(store)@,
            old(self)@.stage == Stage::Persisting ==> exists|stamps: Seq<StampView>|
                stamps.len() == old(self)@.pending.len() && final(store)@ == (#[trigger] persisted(
                    old(store)@,
                    old(self)@.pending,
                    stamps,
                )).store && (final(self)@, a@) == after_persist(
                    old(self)@,
                    persisted(old(store)@, old(self)@.pending, stamps),
                ) && final(store)@.rows.len() == old(store)@.rows.len() + persisted(
                    old(store)@,
                    old(self)@.pending,
                    stamps,
                ).inserted,
            old(self)@.stage == Stage::Persisting && a@ is Evict ==> final(store)@.rows.len() == old(
                store,
            )@.rows.len() + final(self)@.inserted,
    {
        if self.stage != Stage::Persisting {
            return IngestAction::Stay;
        }
        let report = persist_all(store, &self.pending);
        let ghost stamps = choose|stamps: Seq<StampView>|
            stamps.len() == self@.pending.len() && pass_state(store@, report) == #[trigger] persisted(
                old(store)@,
                self@.pending,
                stamps,
            );
        let ghost before = self@;
        proof {
            assert(persisted(old(store)@, before.pending, stamps) == pass_state(store@, report));
            lemma_persisted_count(old(store)@, before.pending, stamps);
        }
        match report.failure {
            Some(refusal) => {
                self.stage = Stage::Done;
                let a = IngestAction::Abort(refusal);
                assert((self@, a@) == after_persist(
                    before,
                    persisted(old(store)@, before.pending, stamps),
                ));
                a
            },
            None => {
                self.inserted = report.inserted;
                self.stage = Stage::Evicting;
                let a = IngestAction::Evict;
                assert((self@, a@) == after_persist(
                    before,
                    persisted(old(store)@, before.pending, stamps),
                ));
                a
            },
        }
    }

    /// Enforces retention after the pass, whatever the pass has stored,
    /// and ends the run. The caller holds the store meanwhile. Returns the
    /// evicted rows beside the result. Out of turn this does nothing.
    pub fn evict(&mut self, store: &mut ArticleStore) -> (r: (IngestAction, Vec<Row>))
        requires
            old(self).wf(),
            old(store).wf(),
        ensures
            final(self).wf(),
            final(store).wf(),
            old(self)@.stage != Stage::Evicting ==> r.0@ == ActionView::Stay && r.1.len() == 0
                && final(self)@ == old(self)@ && final(store)@ == old(store)@,
            old(self)@.stage == Stage::Evicting ==> r.0@ == ActionView::Finish(
                result_of(old(self)@),
            ) && final(self)@ == ended(old(self)@) && is_retention(
                old(store)@,
                final(store)@,
                r.1.deep_view(),
            ),
    {
        if self.stage != Stage::Evicting {
            return (IngestAction::Stay, Vec::new());
        }
        let removed = store.evict_excess();
        self.stage = Stage::Done;
        (
            IngestAction::Finish(
                CrawlResult { inserted: self.inserted, failed_sources: self.failed_sources },
            ),
            removed,
        )
    }
}

/// A run that is over.
pub open spec fn ended(v: RunView) -> RunView {
    RunView { stage: Stage::Done, ..v }
}

/// How many articles went, as far as the count can say.
pub open spec fn deleted_count(removed: int) -> i32 {
    if removed > i32::MAX {
        i32::MAX
    } else {
        removed as i32
    }
}

/// Enforces retention on its own. Returns the evicted rows, oldest first,
/// and reports how many they are.
pub fn cleanup_old_articles(store: &mut ArticleStore) -> (r: (CleanupResult, Vec<Row>))
    requires
        old(store).wf(),
    ensures
        final(store).wf(),
        is_retention(old(store)@, final(store)@, r.1.deep_view()),
        r.1.len() == evicted_count(old(store)@.rows),
        final(store)@.rows.len() == old(store)@.rows.len() - r.1.len(),
        r.0.deleted == deleted_count(r.1.len() as int),
{
    let removed = store.evict_excess();
    let n = removed.len();
    if n > 0x7fff_ffff {
        (CleanupResult { deleted: i32::MAX }, removed)
    } else {
        (CleanupResult { deleted: n as i32 }, removed)
    }
}

} // verus!
