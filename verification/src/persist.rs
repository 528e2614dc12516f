//! Handing fetched and summarized items to the store: each item becomes an
//! article unless its URL is known already.

use vstd::prelude::*;
use crate::article::{Article, ArticleView, RowView};
use crate::item::{RawItem, RawItemView};
use crate::source::{categorize_source, category_of};
use crate::store::{
    has_id, has_row, has_url, lemma_insert_keeps_store, outcome_of_insert, store_after_insert, store_wf,
    ArticleStore, InsertOutcome, StoreView,
};
use crate::time::{clock_now, timestamp_text};

verus! {

/// An item that waits to be stored, with the name of its source and its
/// summary.
#[derive(Debug)]
pub struct Pending {
    pub source: String,
    pub item: RawItem,
    pub summary: String,
}

/// What a `Pending` holds, as plain values.
pub struct PendingView {
    pub source: Seq<char>,
    pub item: RawItemView,
    pub summary: Seq<char>,
}

impl View for Pending {
    type V = PendingView;

    open spec fn view(&self) -> PendingView {
        PendingView { source: self.source@, item: self.item@, summary: self.summary@ }
    }
}

impl DeepView for Pending {
    type V = PendingView;

    open spec fn deep_view(&self) -> PendingView {
        self@
    }
}

/// What is drawn from outside for one article: its identifier and the
/// time of its ingestion.
#[derive(Debug)]
pub struct Stamp {
    pub id: String,
    pub fetched_at: String,
}

/// What a `Stamp` holds, as plain values.
pub struct StampView {
    pub id: Seq<char>,
    pub fetched_at: Seq<char>,
}

impl View for Stamp {
    type V = StampView;

    open spec fn view(&self) -> StampView {
        StampView { id: self.id@, fetched_at: self.fetched_at@ }
    }
}

impl DeepView for Stamp {
    type V = StampView;

    open spec fn deep_view(&self) -> StampView {
        self@
    }
}

/// `uuid::Uuid::new_v4`, written out through its `Display`. Nothing is
/// claimed of the result: it is drawn at random.
#[verifier::external_body]
pub(crate) fn fresh_id() -> (id: String) {
    uuid::Uuid::new_v4().to_string()
}

/// The article that a pending item becomes: unread, not bookmarked, with
/// no heat, in the category of its source.
pub open spec fn article_of(p: PendingView, stamp: StampView) -> ArticleView {
    ArticleView {
        id: stamp.id,
        title: p.item.title,
        summary: p.summary,
        content: p.item.content,
        url: p.item.url,
        source: p.source,
        category: category_of(p.source),
        published_at: p.item.published_at,
        fetched_at: stamp.fetched_at,
        heat_score_bits: 0,
        is_read: false,
        is_bookmarked: false,
        image_url: match p.item.image_url {
            Some(u) => u,
            None => Seq::empty(),
        },
    }
}

/// Where a pass over pending items has got to.
pub struct PersistView {
    pub store: StoreView,
    /// How many articles were inserted.
    pub inserted: nat,
    /// The refusal that ended the pass, if one did.
    pub failure: Option<InsertOutcome>,
}

/// The store after one more pending item: a new URL is inserted and
/// counted, a known URL is passed over, and anything else ends the pass
/// and leaves the store as it is.
pub open spec fn persisted_one(r: PersistView, p: PendingView, stamp: StampView) -> PersistView {
    if r.failure is Some {
        r
    } else {
        let a = article_of(p, stamp);
        let row = r.store.next_row;
        match outcome_of_insert(r.store, row, a) {
            InsertOutcome::Inserted(_) => PersistView {
                store: store_after_insert(r.store, row, a),
                inserted: r.inserted + 1,
                failure: None,
            },
            InsertOutcome::Duplicate => r,
            refusal => PersistView { failure: Some(refusal), ..r },
        }
    }
}

/// The store after a pass over `pending`, in order, each item stamped by
/// the stamp at its place.
pub open spec fn persisted(
    s: StoreView,
    pending: Seq<PendingView>,
    stamps: Seq<StampView>,
) -> PersistView
    decreases pending.len(),
{
    if pending.len() == 0 || stamps.len() == 0 {
        untouched(s)
    } else {
        persisted_one(
            persisted(s, pending.drop_last(), stamps.drop_last()),
            pending.last(),
            stamps.last(),
        )
    }
}

/// A pass that has not begun.
pub open spec fn untouched(s: StoreView) -> PersistView {
    PersistView { store: s, inserted: 0, failure: None }
}

/// Where a pass stands, given the store and the report so far.
pub open spec fn pass_state(store: StoreView, report: PersistReport) -> PersistView {
    PersistView { store, inserted: report.inserted as nat, failure: report.failure }
}

/// Builds the article of a pending item.
pub fn make_article(p: &Pending, stamp: Stamp) -> (a: Article)
    ensures
        a@ == article_of(p@, stamp@),
{
    Article {
        id: stamp.id,
        title: p.item.title.clone(),
        summary: p.summary.clone(),
        content: p.item.content.clone(),
        url: p.item.url.clone(),
        source: p.source.clone(),
        category: categorize_source(p.source.as_str()),
        published_at: p.item.published_at.clone(),
        fetched_at: stamp.fetched_at,
        heat_score_bits: 0,
        is_read: false,
        is_bookmarked: false,
        image_url: match &p.item.image_url {
            Some(u) => u.clone(),
            None => String::new(),
        },
    }
}

/// What a pass over pending items reports.
#[derive(Clone, Copy, Debug)]
pub struct PersistReport {
    pub inserted: usize,
    pub failure: Option<InsertOutcome>,
}

/// One step of a pass: stores a pending item under a given stamp, unless
/// its URL is known or the pass has failed before.
fn persist_one(store: &mut ArticleStore, report: PersistReport, p: &Pending, stamp: Stamp) -> (r:
    PersistReport)
    requires
        old(store).wf(),
        report.inserted <= old(store)@.rows.len(),
    ensures
        final(store).wf(),
        r.inserted <= final(store)@.rows.len(),
        pass_state(final(store)@, r) == persisted_one(pass_state(old(store)@, report), p@, stamp@),
{
    if report.failure.is_some() {
        return report;
    }
    let article = make_article(p, stamp);
    match store.insert(article) {
        InsertOutcome::Inserted(_) => {
            let stored = store.len();
            assert(report.inserted < stored);
            PersistReport { inserted: report.inserted + 1, failure: None }
        },
        InsertOutcome::Duplicate => report,
        refusal => PersistReport { inserted: report.inserted, failure: Some(refusal) },
    }
}

/// How many items a pass deals with: as many as there are stamps for.
pub open spec fn stamped_count(pending: int, stamps: int) -> int {
    if pending <= stamps {
        pending
    } else {
        stamps
    }
}

/// A pass over `pending` with given stamps, each item stamped by the
/// stamp at its place. Items for which no stamp is left are not dealt
/// with.
pub fn persist_with(store: &mut ArticleStore, pending: &Vec<Pending>, stamps: Vec<Stamp>) -> (r:
    PersistReport)
    requires
        old(store).wf(),
    ensures
        final(store).wf(),
        pass_state(final(store)@, r) == persisted(
            old(store)@,
            pending.deep_view().take(stamped_count(pending.len() as int, stamps.len() as int)),
            stamps.deep_view().take(stamped_count(pending.len() as int, stamps.len() as int)),
        ),
        final(store)@.rows.len() == old(store)@.rows.len() + r.inserted,
        final(store)@.index.len() == old(store)@.index.len() + r.inserted,
{
    let ghost before = store@;
    let n: usize = if pending.len() <= stamps.len() {
        pending.len()
    } else {
        stamps.len()
    };
    let ghost all = pending.deep_view().take(n as int);
    let ghost marks = stamps.deep_view().take(n as int);
    let mut stamps = stamps;
    stamps.truncate(n);
    let mut report = PersistReport { inserted: 0, failure: None };
    let mut i: usize = 0;
    // The stamps are taken from the back, so they are turned round first.
    let mut turned: Vec<Stamp> = Vec::new();
    while stamps.len() > 0
        invariant
            marks.len() == n,
            stamps.len() + turned.len() == n,
            forall|k: int| 0 <= k < stamps.len() ==> (#[trigger] stamps[k])@ == marks[k],
            forall|k: int|
                0 <= k < turned.len() ==> (#[trigger] turned[k])@ == marks[marks.len() - 1 - k],
        decreases stamps.len(),
    {
        let s = stamps.pop().unwrap();
        turned.push(s);
    }
    while i < n
        invariant
            i <= n <= pending.len(),
            all == pending.deep_view().take(n as int),
            marks.len() == n,
            turned.len() == n - i,
            forall|k: int|
                0 <= k < turned.len() ==> (#[trigger] turned[k])@ == marks[marks.len() - 1 - k],
            store.wf(),
            report.inserted <= store@.rows.len(),
            pass_state(store@, report) == persisted(
                before,
                all.take(i as int),
                marks.take(i as int),
            ),
        decreases n - i,
    {
        let stamp = turned.pop().unwrap();
        proof {
            assert(all.take(i + 1).drop_last() =~= all.take(i as int));
            assert(marks.take(i + 1).drop_last() =~= marks.take(i as int));
            assert(all.take(i + 1).last() == pending[i as int]@);
            assert(marks.take(i + 1).last() == stamp@);
        }
        report = persist_one(store, report, &pending[i], stamp);
        i += 1;
    }
    proof {
        assert(all.take(n as int) =~= all);
        assert(marks.take(n as int) =~= marks);
        lemma_persisted_count(before, all, marks);
    }
    report
}

/// Stores the pending items, in order, each under a fresh identifier and
/// stamped with the time of its own insertion. Whatever identifiers and
/// times are drawn, the store stays a store, and the pass is the pass that
/// `persisted` describes for them.
pub fn persist_all(store: &mut ArticleStore, pending: &Vec<Pending>) -> (r: PersistReport)
    requires
        old(store).wf(),
    ensures
        final(store).wf(),
        exists|stamps: Seq<StampView>|
            stamps.len() == pending.len() && pass_state(final(store)@, r) == #[trigger] persisted(
                old(store)@,
                pending.deep_view(),
                stamps,
            ),
        final(store)@.rows.len() == old(store)@.rows.len() + r.inserted,
        final(store)@.index.len() == old(store)@.index.len() + r.inserted,
{
    let mut stamps: Vec<Stamp> = Vec::new();
    let mut i: usize = 0;
    while i < pending.len()
        invariant
            i <= pending.len(),
            stamps.len() == i,
        decreases pending.len() - i,
    {
        stamps.push(Stamp { id: fresh_id(), fetched_at: timestamp_text(clock_now()) });
        i += 1;
    }
    let ghost marks = stamps.deep_view();
    let r = persist_with(store, pending, stamps);
    proof {
        assert(pending.deep_view().take(pending.len() as int) =~= pending.deep_view());
        assert(marks.take(pending.len() as int) =~= marks);
        assert(pass_state(store@, r) == persisted(old(store)@, pending.deep_view(), marks));
    }
    r
}

/// A pass adds as many rows, and as many index entries, as it reports
/// inserted.
pub proof fn lemma_persisted_count(s: StoreView, pending: Seq<PendingView>, stamps: Seq<StampView>)
    ensures
        persisted(s, pending, stamps).store.rows.len() == s.rows.len() + persisted(
            s,
            pending,
            stamps,
        ).inserted,
        persisted(s, pending, stamps).store.index.len() == s.index.len() + persisted(
            s,
            pending,
            stamps,
        ).inserted,
    decreases pending.len(),
{
    if pending.len() > 0 && stamps.len() > 0 {
        lemma_persisted_count(s, pending.drop_last(), stamps.drop_last());
    }
}

/// A pass keeps a store a store, keeps every URL that was stored, and,
/// where it is not ended by a refusal, leaves the URL of every pending
/// item stored.
pub proof fn lemma_persisted_holds_urls(
    s: StoreView,
    pending: Seq<PendingView>,
    stamps: Seq<StampView>,
)
    requires
        store_wf(s),
        stamps.len() == pending.len(),
    ensures
        store_wf(persisted(s, pending, stamps).store),
        forall|u: Seq<char>|
            has_url(s.rows, u) ==> #[trigger] has_url(persisted(s, pending, stamps).store.rows, u),
        persisted(s, pending, stamps).failure is None ==> forall|k: int|
            0 <= k < pending.len() ==> has_url(
                persisted(s, pending, stamps).store.rows,
                (#[trigger] pending[k]).item.url,
            ),
    decreases pending.len(),
{
    if pending.len() > 0 {
        let front = pending.drop_last();
        let front_stamps = stamps.drop_last();
        let mid = persisted(s, front, front_stamps);
        let end = persisted(s, pending, stamps);
        lemma_persisted_holds_urls(s, front, front_stamps);
        let a = article_of(pending.last(), stamps.last());
        lemma_insert_keeps_store(mid.store, mid.store.next_row, a);
        assert forall|u: Seq<char>| has_url(mid.store.rows, u) implies #[trigger] has_url(
            end.store.rows,
            u,
        ) by {
            let k = choose|k: int|
                0 <= k < mid.store.rows.len() && (#[trigger] mid.store.rows[k]).article.url == u;
            if end.store != mid.store {
                assert(end.store.rows[k] == mid.store.rows[k]);
            }
        }
        if end.failure is None {
            assert forall|k: int| 0 <= k < pending.len() implies has_url(
                end.store.rows,
                (#[trigger] pending[k]).item.url,
            ) by {
                if k < front.len() {
                    assert(front[k] == pending[k]);
                    assert(has_url(mid.store.rows, front[k].item.url));
                } else {
                    assert(pending[k] == pending.last());
                    assert(a.url == pending[k].item.url);
                }
            }
        }
    }
}

/// A pass over items whose URLs are all stored already inserts nothing and
/// changes nothing.
pub proof fn lemma_known_urls_insert_nothing(
    s: StoreView,
    pending: Seq<PendingView>,
    stamps: Seq<StampView>,
)
    requires
        stamps.len() == pending.len(),
        forall|k: int| 0 <= k < pending.len() ==> has_url(s.rows, (#[trigger] pending[k]).item.url),
    ensures
        persisted(s, pending, stamps) == untouched(s),
    decreases pending.len(),
{
    if pending.len() > 0 {
        let front = pending.drop_last();
        assert forall|k: int| 0 <= k < front.len() implies has_url(
            s.rows,
            (#[trigger] front[k]).item.url,
        ) by {
            assert(front[k] == pending[k]);
        }
        lemma_known_urls_insert_nothing(s, front, stamps.drop_last());
        assert(pending.last() == pending[pending.len() - 1]);
    }
}

/// Ingesting the same items a second time inserts nothing: after a pass
/// that no refusal ended, a second pass over the same items, whatever its
/// stamps, leaves the store as it is.
pub proof fn lemma_second_pass_inserts_nothing(
    s: StoreView,
    pending: Seq<PendingView>,
    first: Seq<StampView>,
    second: Seq<StampView>,
)
    requires
        store_wf(s),
        first.len() == pending.len(),
        second.len() == pending.len(),
        persisted(s, pending, first).failure is None,
    ensures
        persisted(persisted(s, pending, first).store, pending, second) == untouched(
            persisted(s, pending, first).store,
        ),
{
    lemma_persisted_holds_urls(s, pending, first);
    lemma_known_urls_insert_nothing(persisted(s, pending, first).store, pending, second);
}

/// The items are all new to the store and to each other: no URL of theirs
/// and no identifier drawn for them is stored or occurs twice, and row
/// numbers are left for all of them.
pub open spec fn are_all_new(s: StoreView, pending: Seq<PendingView>, stamps: Seq<StampView>) -> bool {
    &&& stamps.len() == pending.len()
    &&& s.next_row + pending.len() < u64::MAX
    &&& forall|i: int|
        0 <= i < pending.len() ==> !has_url(s.rows, (#[trigger] pending[i]).item.url)
    &&& forall|i: int| 0 <= i < stamps.len() ==> !has_id(s.rows, (#[trigger] stamps[i]).id)
    &&& forall|i: int, j: int|
        0 <= i < j < pending.len() ==> (#[trigger] pending[i]).item.url != (
        #[trigger] pending[j]).item.url
    &&& forall|i: int, j: int|
        0 <= i < j < stamps.len() ==> (#[trigger] stamps[i]).id != (#[trigger] stamps[j]).id
}

/// The rows that the items become, numbered from `first` on.
pub open spec fn rows_of_items(
    first: u64,
    pending: Seq<PendingView>,
    stamps: Seq<StampView>,
) -> Seq<RowView> {
    Seq::new(
        pending.len(),
        |i: int| RowView { row: (first + i) as u64, article: article_of(pending[i], stamps[i]) },
    )
}

/// Items that are all new are all inserted: a pass over them is ended by
/// no refusal, inserts as many articles as there are items, and adds their
/// rows to the store in order. With two such items the store gains two
/// articles, and by its invariant two index entries.
pub proof fn lemma_new_items_are_all_inserted(
    s: StoreView,
    pending: Seq<PendingView>,
    stamps: Seq<StampView>,
)
    requires
        store_wf(s),
        are_all_new(s, pending, stamps),
    ensures
        persisted(s, pending, stamps).failure is None,
        persisted(s, pending, stamps).inserted == pending.len(),
        persisted(s, pending, stamps).store.rows == s.rows + rows_of_items(
            s.next_row,
            pending,
            stamps,
        ),
        persisted(s, pending, stamps).store.next_row == s.next_row + pending.len(),
        store_wf(persisted(s, pending, stamps).store),
    decreases pending.len(),
{
    lemma_persisted_holds_urls(s, pending, stamps);
    if pending.len() == 0 {
        assert(s.rows + rows_of_items(s.next_row, pending, stamps) =~= s.rows);
    } else {
        let k = pending.len() - 1;
        let front = pending.drop_last();
        let front_stamps = stamps.drop_last();
        assert forall|i: int| 0 <= i < front.len() implies !has_url(
            s.rows,
            (#[trigger] front[i]).item.url,
        ) by {
            assert(front[i] == pending[i]);
        }
        assert forall|i: int| 0 <= i < front_stamps.len() implies !has_id(
            s.rows,
            (#[trigger] front_stamps[i]).id,
        ) by {
            assert(front_stamps[i] == stamps[i]);
        }
        assert forall|i: int, j: int| 0 <= i < j < front.len() implies (
        #[trigger] front[i]).item.url != (#[trigger] front[j]).item.url by {
            assert(front[i] == pending[i]);
            assert(front[j] == pending[j]);
        }
        assert forall|i: int, j: int| 0 <= i < j < front_stamps.len() implies (
        #[trigger] front_stamps[i]).id != (#[trigger] front_stamps[j]).id by {
            assert(front_stamps[i] == stamps[i]);
            assert(front_stamps[j] == stamps[j]);
        }
        lemma_new_items_are_all_inserted(s, front, front_stamps);
        let mid = persisted(s, front, front_stamps);
        let made = rows_of_items(s.next_row, front, front_stamps);
        let a = article_of(pending.last(), stamps.last());
        let row = mid.store.next_row;
        assert(pending.last() == pending[k]);
        assert(stamps.last() == stamps[k]);
        if has_url(mid.store.rows, a.url) {
            let at = choose|at: int|
                0 <= at < mid.store.rows.len() && (#[trigger] mid.store.rows[at]).article.url
                    == a.url;
            if at < s.rows.len() {
                assert(mid.store.rows[at] == s.rows[at]);
                assert(has_url(s.rows, pending[k].item.url));
            } else {
                let i = at - s.rows.len();
                assert(mid.store.rows[at] == made[i]);
                assert(front[i] == pending[i]);
                assert(pending[i].item.url != pending[k].item.url);
            }
            assert(false);
        }
        if has_id(mid.store.rows, a.id) {
            let at = choose|at: int|
                0 <= at < mid.store.rows.len() && (#[trigger] mid.store.rows[at]).article.id
                    == a.id;
            if at < s.rows.len() {
                assert(mid.store.rows[at] == s.rows[at]);
                assert(has_id(s.rows, stamps[k].id));
            } else {
                let i = at - s.rows.len();
                assert(mid.store.rows[at] == made[i]);
                assert(front_stamps[i] == stamps[i]);
                assert(stamps[i].id != stamps[k].id);
            }
            assert(false);
        }
        if has_row(mid.store.rows, row) {
            let at = choose|at: int|
                0 <= at < mid.store.rows.len() && (#[trigger] mid.store.rows[at]).row == row;
            assert(mid.store.rows[at].row < mid.store.next_row);
            assert(false);
        }
        assert(outcome_of_insert(mid.store, row, a) == InsertOutcome::Inserted(row));
        let end = persisted(s, pending, stamps);
        assert(end.store.rows == mid.store.rows.push(RowView { row, article: a }));
        assert(end.store.rows =~= s.rows + rows_of_items(s.next_row, pending, stamps)) by {
            let all = rows_of_items(s.next_row, pending, stamps);
            assert forall|i: int| 0 <= i < made.len() implies made[i] == all[i] by {
                assert(front[i] == pending[i]);
                assert(front_stamps[i] == stamps[i]);
            }
        }
    }
}

} // verus!
