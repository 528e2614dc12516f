//! The article store with its keyword index: deduplication at insert and
//! the bounded retention.

use vstd::prelude::*;
use crate::article::{entry_of, index_entry, Article, ArticleView, IndexEntry, IndexEntryView, Row, RowView};
use crate::order::{lemma_lex_reflexive, lemma_lex_total, lemma_lex_transitive, lex_le, text_le};
use crate::text::same_text;

verus! {

/// Retention aims at this many articles.
pub const RETENTION_CAP: usize = 300;

/// What the store holds: the article rows in the order of their insertion,
/// the index entries beside them, and the number that the next row gets.
pub struct StoreView {
    pub rows: Seq<RowView>,
    pub index: Seq<IndexEntryView>,
    pub next_row: u64,
}

/// The articles with their keyword index.
#[derive(Debug)]
pub struct ArticleStore {
    rows: Vec<Row>,
    index: Vec<IndexEntry>,
    next_row: u64,
}

impl View for ArticleStore {
    type V = StoreView;

    closed spec fn view(&self) -> StoreView {
        StoreView {
            rows: self.rows.deep_view(),
            index: self.index.deep_view(),
            next_row: self.next_row,
        }
    }
}

/// No URL occurs in two rows.
pub open spec fn urls_are_unique(rows: Seq<RowView>) -> bool {
    forall|i: int, j: int|
        0 <= i < j < rows.len() ==> (#[trigger] rows[i]).article.url != (
        #[trigger] rows[j]).article.url
}

/// No identifier occurs in two rows.
pub open spec fn ids_are_unique(rows: Seq<RowView>) -> bool {
    forall|i: int, j: int|
        0 <= i < j < rows.len() ==> (#[trigger] rows[i]).article.id != (
        #[trigger] rows[j]).article.id
}

/// No row number occurs twice, and all lie below `next_row`.
pub open spec fn row_numbers_are_fresh(rows: Seq<RowView>, next_row: u64) -> bool {
    &&& forall|i: int, j: int|
        0 <= i < j < rows.len() ==> (#[trigger] rows[i]).row != (#[trigger] rows[j]).row
    &&& forall|i: int| 0 <= i < rows.len() ==> (#[trigger] rows[i]).row < next_row
}

/// The index holds, place by place, the entry derived from the row.
pub open spec fn index_follows_rows(rows: Seq<RowView>, index: Seq<IndexEntryView>) -> bool {
    &&& index.len() == rows.len()
    &&& forall|i: int| 0 <= i < rows.len() ==> #[trigger] index[i] == entry_of(rows[i])
}

/// The invariant of the store.
pub open spec fn store_wf(s: StoreView) -> bool {
    &&& urls_are_unique(s.rows)
    &&& ids_are_unique(s.rows)
    &&& row_numbers_are_fresh(s.rows, s.next_row)
    &&& index_follows_rows(s.rows, s.index)
}

/// Some row holds the URL `url`.
pub open spec fn has_url(rows: Seq<RowView>, url: Seq<char>) -> bool {
    exists|i: int| 0 <= i < rows.len() && (#[trigger] rows[i]).article.url == url
}

/// Some row holds the identifier `id`.
pub open spec fn has_id(rows: Seq<RowView>, id: Seq<char>) -> bool {
    exists|i: int| 0 <= i < rows.len() && (#[trigger] rows[i]).article.id == id
}

/// Some row has the number `row`.
pub open spec fn has_row(rows: Seq<RowView>, row: u64) -> bool {
    exists|i: int| 0 <= i < rows.len() && (#[trigger] rows[i]).row == row
}

/// How an attempt to insert an article ended.
#[derive(Clone, Copy, Debug, PartialEq, Eq, Structural)]
pub enum InsertOutcome {
    /// The article is stored under this row, and so is its index entry.
    Inserted(u64),
    /// An article with this URL is stored already; nothing was written.
    Duplicate,
    /// Another article has this identifier; nothing was written.
    IdTaken,
    /// The row number is in use, or no row number is left; nothing was
    /// written.
    NoRow,
}

/// What an attempt to store `article` under `row` comes to. The URL is
/// looked up first: a known URL makes the attempt a duplicate whatever
/// else holds.
pub open spec fn outcome_of_insert(s: StoreView, row: u64, article: ArticleView) -> InsertOutcome {
    if has_url(s.rows, article.url) {
        InsertOutcome::Duplicate
    } else if has_id(s.rows, article.id) {
        InsertOutcome::IdTaken
    } else if row == u64::MAX || has_row(s.rows, row) {
        InsertOutcome::NoRow
    } else {
        InsertOutcome::Inserted(row)
    }
}

/// The store after an attempt to store `article` under `row`: the row and
/// its index entry are both added, or neither is.
pub open spec fn store_after_insert(s: StoreView, row: u64, article: ArticleView) -> StoreView {
    if outcome_of_insert(s, row, article) is Inserted {
        let r = RowView { row, article };
        StoreView {
            rows: s.rows.push(r),
            index: s.index.push(entry_of(r)),
            next_row: if row >= s.next_row {
                (row + 1) as u64
            } else {
                s.next_row
            },
        }
    } else {
        s
    }
}

/// How many of `rows` are pinned.
pub open spec fn pinned_count(rows: Seq<RowView>) -> nat
    decreases rows.len(),
{
    if rows.len() == 0 {
        0
    } else if rows.last().article.is_bookmarked {
        pinned_count(rows.drop_last()) + 1
    } else {
        pinned_count(rows.drop_last())
    }
}

/// Each article has exactly one index entry under its row number, and
/// each index entry belongs to exactly one article.
pub proof fn lemma_index_is_one_to_one(s: StoreView)
    requires
        store_wf(s),
    ensures
        s.index.len() == s.rows.len(),
        forall|i: int|
            0 <= i < s.rows.len() ==> s.index[i].row == (#[trigger] s.rows[i]).row,
        forall|i: int, j: int|
            0 <= i < s.rows.len() && 0 <= j < s.index.len() && (#[trigger] s.index[j]).row == (
            #[trigger] s.rows[i]).row ==> j == i,
{
    assert forall|i: int, j: int|
        0 <= i < s.rows.len() && 0 <= j < s.index.len() && (#[trigger] s.index[j]).row == (
        #[trigger] s.rows[i]).row implies j == i by {
        assert(s.index[j] == entry_of(s.rows[j]));
        if i < j {
            assert(s.rows[i].row != s.rows[j].row);
        }
        if j < i {
            assert(s.rows[j].row != s.rows[i].row);
        }
    }
    assert forall|i: int| 0 <= i < s.rows.len() implies s.index[i].row == (
    #[trigger] s.rows[i]).row by {
        assert(s.index[i] == entry_of(s.rows[i]));
    }
}

/// In a store no URL is held by two rows: two rows with the same URL are
/// one row.
pub proof fn lemma_one_row_per_url(s: StoreView, i: int, j: int)
    requires
        store_wf(s),
        0 <= i < s.rows.len(),
        0 <= j < s.rows.len(),
        s.rows[i].article.url == s.rows[j].article.url,
    ensures
        i == j,
{
    if i < j {
        assert(s.rows[i].article.url != s.rows[j].article.url);
    }
    if j < i {
        assert(s.rows[j].article.url != s.rows[i].article.url);
    }
}

/// Whatever is inserted into a store, and under whatever row, the store
/// stays a store; and after a second attempt with the same URL nothing
/// more is stored.
pub proof fn lemma_insert_keeps_store(s: StoreView, row: u64, article: ArticleView)
    requires
        store_wf(s),
    ensures
        store_wf(store_after_insert(s, row, article)),
        has_url(store_after_insert(s, row, article).rows, article.url) || !(outcome_of_insert(
            s,
            row,
            article,
        ) is Inserted),
        forall|again: u64, other: ArticleView|
            other.url == article.url && outcome_of_insert(s, row, article) is Inserted
                ==> #[trigger] outcome_of_insert(
                store_after_insert(s, row, article),
                again,
                other,
            ) == InsertOutcome::Duplicate,
{
    let t = store_after_insert(s, row, article);
    if outcome_of_insert(s, row, article) is Inserted {
        let r = RowView { row, article };
        let n = s.rows.len() as int;
        assert(t.rows[n] == r);
        assert(has_url(t.rows, article.url));
        assert forall|i: int, j: int| 0 <= i < j < t.rows.len() implies (
        #[trigger] t.rows[i]).article.url != (#[trigger] t.rows[j]).article.url by {
            if j == n {
                assert(t.rows[i] == s.rows[i]);
            } else {
                assert(t.rows[i] == s.rows[i]);
                assert(t.rows[j] == s.rows[j]);
            }
        }
        assert forall|i: int, j: int| 0 <= i < j < t.rows.len() implies (
        #[trigger] t.rows[i]).article.id != (#[trigger] t.rows[j]).article.id by {
            if j == n {
                assert(t.rows[i] == s.rows[i]);
            } else {
                assert(t.rows[i] == s.rows[i]);
                assert(t.rows[j] == s.rows[j]);
            }
        }
        assert forall|i: int, j: int| 0 <= i < j < t.rows.len() implies (#[trigger] t.rows[i]).row
            != (#[trigger] t.rows[j]).row by {
            if j == n {
                assert(t.rows[i] == s.rows[i]);
            } else {
                assert(t.rows[i] == s.rows[i]);
                assert(t.rows[j] == s.rows[j]);
            }
        }
        assert forall|i: int| 0 <= i < t.rows.len() implies (#[trigger] t.rows[i]).row
            < t.next_row by {
            if i < n {
                assert(t.rows[i] == s.rows[i]);
            }
        }
        assert forall|i: int| 0 <= i < t.rows.len() implies #[trigger] t.index[i] == entry_of(
            t.rows[i],
        ) by {
            if i < n {
                assert(t.rows[i] == s.rows[i]);
                assert(t.index[i] == s.index[i]);
            }
        }
    }
}

/// The store after attempts to insert `attempts`, one after the other,
/// each under the next free row.
pub open spec fn after_attempts(s: StoreView, attempts: Seq<ArticleView>) -> StoreView
    decreases attempts.len(),
{
    if attempts.len() == 0 {
        s
    } else {
        let t = after_attempts(s, attempts.drop_last());
        store_after_insert(t, t.next_row, attempts.last())
    }
}

/// After any sequence of insert attempts the store is a store still: it
/// holds at most one row for each URL, and an index entry for each row.
pub proof fn lemma_attempts_keep_store(s: StoreView, attempts: Seq<ArticleView>)
    requires
        store_wf(s),
    ensures
        store_wf(after_attempts(s, attempts)),
        urls_are_unique(after_attempts(s, attempts).rows),
        index_follows_rows(after_attempts(s, attempts).rows, after_attempts(s, attempts).index),
    decreases attempts.len(),
{
    if attempts.len() > 0 {
        lemma_attempts_keep_store(s, attempts.drop_last());
        let t = after_attempts(s, attempts.drop_last());
        lemma_insert_keeps_store(t, t.next_row, attempts.last());
    }
}

impl ArticleStore {
    /// The invariant of the store: URLs, identifiers and row numbers are
    /// unique, and the index follows the rows.
    pub open spec fn wf(&self) -> bool {
        store_wf(self@)
    }

    /// An empty store.
    pub fn new() -> (s: ArticleStore)
        ensures
            s.wf(),
            s@.rows.len() == 0,
            s@.index.len() == 0,
            s@.next_row == 1,
    {
        let s = ArticleStore { rows: Vec::new(), index: Vec::new(), next_row: 1 };
        assert(s@.rows =~= Seq::<RowView>::empty());
        assert(s@.index =~= Seq::<IndexEntryView>::empty());
        s
    }

    /// How many articles are stored.
    pub fn len(&self) -> (n: usize)
        ensures
            n == self@.rows.len(),
    {
        self.rows.len()
    }

    /// The stored rows, in the order of their insertion.
    pub fn rows(&self) -> (r: &Vec<Row>)
        ensures
            r.deep_view() == self@.rows,
    {
        &self.rows
    }

    /// The entries of the keyword index, each at the place of its row.
    pub fn index(&self) -> (r: &Vec<IndexEntry>)
        ensures
            r.deep_view() == self@.index,
    {
        &self.index
    }

    /// The number that the next inserted row gets.
    pub fn next_row(&self) -> (r: u64)
        ensures
            r == self@.next_row,
    {
        self.next_row
    }

    /// Where the article with the URL `url` stands, if there is one.
    pub fn position_of_url(&self, url: &str) -> (r: Option<usize>)
        ensures
            r is Some <==> has_url(self@.rows, url@),
            r matches Some(i) ==> i < self@.rows.len() && self@.rows[i as int].article.url == url@,
    {
        let mut i: usize = 0;
        while i < self.rows.len()
            invariant
                i <= self.rows.len(),
                forall|k: int| 0 <= k < i ==> (#[trigger] self@.rows[k]).article.url != url@,
            decreases self.rows.len() - i,
        {
            assert(self@.rows[i as int] == self.rows[i as int]@);
            if same_text(self.rows[i].article.url.as_str(), url) {
                return Some(i);
            }
            i += 1;
        }
        None
    }

    /// Where the article with the identifier `id` stands, if there is one.
    pub fn position_of_id(&self, id: &str) -> (r: Option<usize>)
        ensures
            r is Some <==> has_id(self@.rows, id@),
            r matches Some(i) ==> i < self@.rows.len() && self@.rows[i as int].article.id == id@,
    {
        let mut i: usize = 0;
        while i < self.rows.len()
            invariant
                i <= self.rows.len(),
                forall|k: int| 0 <= k < i ==> (#[trigger] self@.rows[k]).article.id != id@,
            decreases self.rows.len() - i,
        {
            assert(self@.rows[i as int] == self.rows[i as int]@);
            if same_text(self.rows[i].article.id.as_str(), id) {
                return Some(i);
            }
            i += 1;
        }
        None
    }

    fn position_of_row(&self, row: u64) -> (r: Option<usize>)
        ensures
            r is Some <==> has_row(self@.rows, row),
            r matches Some(i) ==> i < self@.rows.len() && self@.rows[i as int].row == row,
    {
        let mut i: usize = 0;
        while i < self.rows.len()
            invariant
                i <= self.rows.len(),
                forall|k: int| 0 <= k < i ==> (#[trigger] self@.rows[k]).row != row,
            decreases self.rows.len() - i,
        {
            assert(self@.rows[i as int] == self.rows[i as int]@);
            if self.rows[i].row == row {
                return Some(i);
            }
            i += 1;
        }
        None
    }

    /// Whether an article with the URL `url` is stored.
    pub fn contains_url(&self, url: &str) -> (r: bool)
        ensures
            r == has_url(self@.rows, url@),
    {
        self.position_of_url(url).is_some()
    }

    /// Stores `article` under the row number `row`, unless its URL or its
    /// identifier is known or the row number is in use. The existence check
    /// and both writes happen in this one call: the article row and its
    /// index entry are written together or not at all.
    pub fn insert_at(&mut self, row: u64, article: Article) -> (outcome: InsertOutcome)
        requires
            old(self).wf(),
        ensures
            final(self).wf(),
            outcome == outcome_of_insert(old(self)@, row, article@),
            final(self)@ == store_after_insert(old(self)@, row, article@),
    {
        proof {
            lemma_insert_keeps_store(self@, row, article@);
        }
        if self.position_of_url(article.url.as_str()).is_some() {
            return InsertOutcome::Duplicate;
        }
        if self.position_of_id(article.id.as_str()).is_some() {
            return InsertOutcome::IdTaken;
        }
        if row == u64::MAX || self.position_of_row(row).is_some() {
            return InsertOutcome::NoRow;
        }
        let entry = index_entry(row, &article);
        let ghost before = self@;
        let ghost r = RowView { row, article: article@ };
        self.rows.push(Row { row, article });
        self.index.push(entry);
        if row >= self.next_row {
            self.next_row = row + 1;
        }
        assert(self@.rows =~= before.rows.push(r));
        assert(self@.index =~= before.index.push(entry_of(r)));
        InsertOutcome::Inserted(row)
    }

    /// Stores `article` under the next free row number, unless its URL is
    /// known already: a duplicate is passed over in silence.
    pub fn insert(&mut self, article: Article) -> (outcome: InsertOutcome)
        requires
            old(self).wf(),
        ensures
            final(self).wf(),
            outcome == outcome_of_insert(old(self)@, old(self)@.next_row, article@),
            final(self)@ == store_after_insert(old(self)@, old(self)@.next_row, article@),
    {
        let row = self.next_row;
        self.insert_at(row, article)
    }
}

/// How many of `rows` are not pinned.
pub open spec fn unpinned_count(rows: Seq<RowView>) -> int {
    rows.len() - pinned_count(rows)
}

/// The row numbers that occur in `rows`.
pub open spec fn row_numbers(rows: Seq<RowView>) -> Set<u64> {
    Set::new(|n: u64| has_row(rows, n))
}

/// `rows` without those whose number is in `gone`, the others in their
/// order.
pub open spec fn without_rows(rows: Seq<RowView>, gone: Set<u64>) -> Seq<RowView>
    decreases rows.len(),
{
    if rows.len() == 0 {
        rows
    } else if gone.contains(rows.last().row) {
        without_rows(rows.drop_last(), gone)
    } else {
        without_rows(rows.drop_last(), gone).push(rows.last())
    }
}

/// By how many articles `rows` exceeds the cap.
pub open spec fn excess_of(rows: Seq<RowView>) -> int {
    if rows.len() > RETENTION_CAP {
        rows.len() - RETENTION_CAP
    } else {
        0
    }
}

/// How many articles retention evicts: the excess, as far as there are
/// articles that are not pinned.
pub open spec fn evicted_count(rows: Seq<RowView>) -> int {
    if excess_of(rows) <= unpinned_count(rows) {
        excess_of(rows)
    } else {
        unpinned_count(rows)
    }
}

/// The larger of two numbers.
pub open spec fn larger(a: int, b: int) -> int {
    if a >= b {
        a
    } else {
        b
    }
}

/// No more rows are pinned than there are, and all are pinned exactly
/// where the count equals the length.
pub proof fn lemma_pinned_count_bounds(rows: Seq<RowView>)
    ensures
        pinned_count(rows) <= rows.len(),
        pinned_count(rows) == rows.len() <==> forall|i: int|
            0 <= i < rows.len() ==> (#[trigger] rows[i]).article.is_bookmarked,
    decreases rows.len(),
{
    if rows.len() > 0 {
        let front = rows.drop_last();
        lemma_pinned_count_bounds(front);
        if pinned_count(rows) == rows.len() {
            assert forall|i: int| 0 <= i < rows.len() implies (
            #[trigger] rows[i]).article.is_bookmarked by {
                if i < front.len() {
                    assert(front[i] == rows[i]);
                }
            }
        }
        if forall|i: int| 0 <= i < rows.len() ==> (#[trigger] rows[i]).article.is_bookmarked {
            assert forall|i: int| 0 <= i < front.len() implies (
            #[trigger] front[i]).article.is_bookmarked by {
                assert(front[i] == rows[i]);
            }
            assert(rows.last() == rows[rows.len() - 1]);
        }
    }
}

/// Taking one row out lowers the count of pinned rows by one if that row
/// was pinned, and not at all otherwise.
pub proof fn lemma_pinned_count_remove(rows: Seq<RowView>, i: int)
    requires
        0 <= i < rows.len(),
    ensures
        pinned_count(rows.remove(i)) == pinned_count(rows) - if rows[i].article.is_bookmarked {
            1int
        } else {
            0int
        },
    decreases rows.len(),
{
    if i == rows.len() - 1 {
        assert(rows.remove(i) =~= rows.drop_last());
    } else {
        assert(rows.remove(i).drop_last() =~= rows.drop_last().remove(i));
        assert(rows.remove(i).last() == rows.last());
        lemma_pinned_count_remove(rows.drop_last(), i);
    }
}

/// Leaving out no row leaves all rows.
pub proof fn lemma_without_nothing(rows: Seq<RowView>)
    ensures
        without_rows(rows, Set::empty()) == rows,
    decreases rows.len(),
{
    if rows.len() > 0 {
        lemma_without_nothing(rows.drop_last());
        assert(rows.drop_last().push(rows.last()) =~= rows);
    }
}

/// Every row that is left was there before.
pub proof fn lemma_without_rows_subset(rows: Seq<RowView>, gone: Set<u64>, j: int)
    requires
        0 <= j < without_rows(rows, gone).len(),
    ensures
        rows.contains(without_rows(rows, gone)[j]),
        !gone.contains(without_rows(rows, gone)[j].row),
    decreases rows.len(),
{
    if rows.len() > 0 {
        let front = rows.drop_last();
        if gone.contains(rows.last().row) {
            lemma_without_rows_subset(front, gone, j);
            let k = choose|k: int| 0 <= k < front.len() && front[k] == without_rows(rows, gone)[j];
            assert(rows[k] == front[k]);
        } else if j < without_rows(front, gone).len() {
            lemma_without_rows_subset(front, gone, j);
            let k = choose|k: int| 0 <= k < front.len() && front[k] == without_rows(rows, gone)[j];
            assert(rows[k] == front[k]);
        } else {
            assert(without_rows(rows, gone)[j] == rows[rows.len() - 1]);
        }
    }
}

/// A row whose number is not in `gone` is left.
pub proof fn lemma_without_rows_keeps(rows: Seq<RowView>, gone: Set<u64>, i: int)
    requires
        0 <= i < rows.len(),
        !gone.contains(rows[i].row),
    ensures
        without_rows(rows, gone).contains(rows[i]),
    decreases rows.len(),
{
    let front = rows.drop_last();
    let left = without_rows(rows, gone);
    if i == rows.len() - 1 {
        assert(left[left.len() - 1] == rows[i]);
    } else {
        lemma_without_rows_keeps(front, gone, i);
        let k = choose|k: int|
            0 <= k < without_rows(front, gone).len() && without_rows(front, gone)[k] == front[i];
        if gone.contains(rows.last().row) {
            assert(left[k] == rows[i]);
        } else {
            assert(left[k] == without_rows(front, gone)[k]);
            assert(left[k] == rows[i]);
        }
    }
}

/// Where no row that is left has the number `n`, leaving out `n` as well
/// changes nothing.
proof fn lemma_without_absent(rows: Seq<RowView>, gone: Set<u64>, n: u64)
    requires
        forall|j: int|
            0 <= j < without_rows(rows, gone).len() ==> (#[trigger] without_rows(
                rows,
                gone,
            )[j]).row != n,
    ensures
        without_rows(rows, gone.insert(n)) == without_rows(rows, gone),
    decreases rows.len(),
{
    if rows.len() > 0 {
        let front = rows.drop_last();
        let left = without_rows(rows, gone);
        let left_front = without_rows(front, gone);
        if gone.contains(rows.last().row) {
            lemma_without_absent(front, gone, n);
        } else {
            assert(left == left_front.push(rows.last()));
            assert(left[left.len() - 1] == rows.last());
            assert(rows.last().row != n);
            assert forall|j: int| 0 <= j < left_front.len() implies (#[trigger] left_front[j]).row
                != n by {
                assert(left[j] == left_front[j]);
            }
            lemma_without_absent(front, gone, n);
        }
    }
}

/// Taking the row at place `i` out of what is left is the same as leaving
/// out its number as well.
proof fn lemma_without_one_more(rows: Seq<RowView>, gone: Set<u64>, i: int)
    requires
        0 <= i < without_rows(rows, gone).len(),
        forall|a: int, b: int|
            0 <= a < b < without_rows(rows, gone).len() ==> (#[trigger] without_rows(
                rows,
                gone,
            )[a]).row != (#[trigger] without_rows(rows, gone)[b]).row,
    ensures
        without_rows(rows, gone.insert(without_rows(rows, gone)[i].row)) == without_rows(
            rows,
            gone,
        ).remove(i),
    decreases rows.len(),
{
    let left = without_rows(rows, gone);
    let n = left[i].row;
    if rows.len() > 0 {
        let front = rows.drop_last();
        let left_front = without_rows(front, gone);
        let x = rows.last();
        if gone.contains(x.row) {
            lemma_without_one_more(front, gone, i);
        } else {
            assert(left == left_front.push(x));
            assert forall|a: int, b: int| 0 <= a < b < left_front.len() implies (
            #[trigger] left_front[a]).row != (#[trigger] left_front[b]).row by {
                assert(left[a] == left_front[a]);
                assert(left[b] == left_front[b]);
            }
            if i == left.len() - 1 {
                assert(n == x.row);
                assert forall|j: int| 0 <= j < left_front.len() implies (
                #[trigger] left_front[j]).row != n by {
                    assert(left[j] == left_front[j]);
                    assert(left[j].row != left[i].row);
                }
                lemma_without_absent(front, gone, n);
                assert(left.remove(i) =~= left_front);
            } else {
                assert(left[i] == left_front[i]);
                assert(left[left.len() - 1] == x);
                assert(left[i].row != left[left.len() - 1].row);
                lemma_without_one_more(front, gone, i);
                assert(left_front.remove(i).push(x) =~= left.remove(i));
            }
        }
    }
}

/// The numbers of `rows` with one more row are those of `rows` and the
/// number of that row.
proof fn lemma_row_numbers_push(rows: Seq<RowView>, r: RowView)
    ensures
        row_numbers(rows.push(r)) == row_numbers(rows).insert(r.row),
{
    let more = rows.push(r);
    assert forall|n: u64| row_numbers(more).contains(n) == row_numbers(rows).insert(
        r.row,
    ).contains(n) by {
        if has_row(more, n) {
            let k = choose|k: int| 0 <= k < more.len() && (#[trigger] more[k]).row == n;
            if k < rows.len() {
                assert(rows[k].row == n);
            }
        }
        if has_row(rows, n) {
            let k = choose|k: int| 0 <= k < rows.len() && (#[trigger] rows[k]).row == n;
            assert(more[k].row == n);
        }
        if n == r.row {
            assert(more[rows.len() as int].row == n);
        }
    }
    assert(row_numbers(more) =~= row_numbers(rows).insert(r.row));
}

/// Taking a row out of a store leaves a store.
proof fn lemma_remove_keeps_store(s: StoreView, i: int)
    requires
        store_wf(s),
        0 <= i < s.rows.len(),
    ensures
        store_wf(
            StoreView { rows: s.rows.remove(i), index: s.index.remove(i), next_row: s.next_row },
        ),
{
    let rows = s.rows.remove(i);
    let index = s.index.remove(i);
    assert forall|a: int| 0 <= a < rows.len() implies #[trigger] rows[a] == s.rows[if a < i {
        a
    } else {
        a + 1
    }] by {}
    assert forall|a: int, b: int| 0 <= a < b < rows.len() implies (#[trigger] rows[a]).article.url
        != (#[trigger] rows[b]).article.url by {
        let a2 = if a < i { a } else { a + 1 };
        let b2 = if b < i { b } else { b + 1 };
        assert(s.rows[a2].article.url != s.rows[b2].article.url);
    }
    assert forall|a: int, b: int| 0 <= a < b < rows.len() implies (#[trigger] rows[a]).article.id
        != (#[trigger] rows[b]).article.id by {
        let a2 = if a < i { a } else { a + 1 };
        let b2 = if b < i { b } else { b + 1 };
        assert(s.rows[a2].article.id != s.rows[b2].article.id);
    }
    assert forall|a: int, b: int| 0 <= a < b < rows.len() implies (#[trigger] rows[a]).row != (
    #[trigger] rows[b]).row by {
        let a2 = if a < i { a } else { a + 1 };
        let b2 = if b < i { b } else { b + 1 };
        assert(s.rows[a2].row != s.rows[b2].row);
    }
    assert forall|a: int| 0 <= a < rows.len() implies (#[trigger] rows[a]).row < s.next_row by {
        let a2 = if a < i { a } else { a + 1 };
        assert(s.rows[a2].row < s.next_row);
    }
    assert forall|a: int| 0 <= a < rows.len() implies #[trigger] index[a] == entry_of(rows[a]) by {
        let a2 = if a < i { a } else { a + 1 };
        assert(s.index[a2] == entry_of(s.rows[a2]));
    }
}

/// The row at place `at` goes next: it is not pinned, no row that is not
/// pinned was ingested before it, and of those ingested at the same time
/// it stands first.
pub open spec fn is_next_evicted(rows: Seq<RowView>, at: int) -> bool {
    &&& 0 <= at < rows.len()
    &&& !rows[at].article.is_bookmarked
    &&& forall|j: int|
        0 <= j < rows.len() && !(#[trigger] rows[j]).article.is_bookmarked ==> lex_le(
            rows[at].article.fetched_at,
            rows[j].article.fetched_at,
        )
    &&& forall|j: int|
        0 <= j < at && !(#[trigger] rows[j]).article.is_bookmarked ==> !lex_le(
            rows[j].article.fetched_at,
            rows[at].article.fetched_at,
        )
}

/// The place of the row that goes next.
pub open spec fn next_evicted(rows: Seq<RowView>) -> int {
    choose|at: int| is_next_evicted(rows, at)
}

/// Only one row goes next.
pub proof fn lemma_next_evicted_is_unique(rows: Seq<RowView>, a: int, b: int)
    requires
        is_next_evicted(rows, a),
        is_next_evicted(rows, b),
    ensures
        a == b,
{
    if a < b {
        assert(lex_le(rows[a].article.fetched_at, rows[b].article.fetched_at));
        assert(!lex_le(rows[a].article.fetched_at, rows[b].article.fetched_at));
    }
    if b < a {
        assert(lex_le(rows[b].article.fetched_at, rows[a].article.fetched_at));
        assert(!lex_le(rows[b].article.fetched_at, rows[a].article.fetched_at));
    }
}

/// What is left of `rows` after `count` evictions.
pub open spec fn after_evictions(rows: Seq<RowView>, count: nat) -> Seq<RowView>
    decreases count,
{
    if count == 0 {
        rows
    } else {
        after_evictions(rows.remove(next_evicted(rows)), (count - 1) as nat)
    }
}

/// The rows that `count` evictions take out of `rows`, in the order in
/// which they go.
pub open spec fn evicted_rows(rows: Seq<RowView>, count: nat) -> Seq<RowView>
    decreases count,
{
    if count == 0 {
        Seq::empty()
    } else {
        seq![rows[next_evicted(rows)]] + evicted_rows(
            rows.remove(next_evicted(rows)),
            (count - 1) as nat,
        )
    }
}

/// What retention leaves of `before` when it has evicted `removed`, oldest
/// first. The evicted are not pinned, and none of them was ingested later
/// than an article that is left and not pinned; all others stay, in their
/// order.
pub open spec fn is_eviction(before: StoreView, after: StoreView, removed: Seq<RowView>) -> bool {
    &&& removed.len() == evicted_count(before.rows)
    &&& after.rows == without_rows(before.rows, row_numbers(removed))
    &&& after.next_row == before.next_row
    &&& forall|k: int|
        0 <= k < removed.len() ==> before.rows.contains(#[trigger] removed[k])
            && !removed[k].article.is_bookmarked
    &&& forall|k: int, j: int|
        0 <= k < removed.len() && 0 <= j < after.rows.len() && !(
        #[trigger] after.rows[j]).article.is_bookmarked ==> lex_le(
            (#[trigger] removed[k]).article.fetched_at,
            after.rows[j].article.fetched_at,
        )
    &&& forall|k: int, m: int|
        0 <= k < m < removed.len() ==> lex_le(
            (#[trigger] removed[k]).article.fetched_at,
            (#[trigger] removed[m]).article.fetched_at,
        )
}

/// What enforcing retention does to a store. Below or at the cap nothing
/// goes. Above it, the excess goes as far as articles are not pinned, the
/// oldest first, so that `max(RETENTION_CAP, pinned)` articles are left;
/// no pinned article goes, and the number of rows falls by the number
/// evicted.
pub open spec fn is_retention(before: StoreView, after: StoreView, removed: Seq<RowView>) -> bool {
    &&& after.rows == after_evictions(before.rows, evicted_count(before.rows) as nat)
    &&& removed == evicted_rows(before.rows, evicted_count(before.rows) as nat)
    &&& is_eviction(before, after, removed)
    &&& after.rows.len() == before.rows.len() - removed.len()
    &&& after.index.len() == after.rows.len()
    &&& pinned_count(after.rows) == pinned_count(before.rows)
    &&& before.rows.len() <= RETENTION_CAP ==> removed.len() == 0 && after == before
    &&& before.rows.len() > RETENTION_CAP ==> after.rows.len() == larger(
        RETENTION_CAP as int,
        pinned_count(before.rows) as int,
    )
}

impl ArticleStore {
    /// How many articles are pinned.
    pub fn count_pinned(&self) -> (n: usize)
        ensures
            n == pinned_count(self@.rows),
    {
        let mut n: usize = 0;
        let mut i: usize = 0;
        let ghost rows = self@.rows;
        while i < self.rows.len()
            invariant
                i <= self.rows.len(),
                rows == self@.rows,
                n == pinned_count(rows.take(i as int)),
                n <= i,
            decreases self.rows.len() - i,
        {
            proof {
                assert(rows.take(i + 1).drop_last() =~= rows.take(i as int));
                assert(rows.take(i + 1).last() == self.rows[i as int]@);
            }
            if self.rows[i].article.is_bookmarked {
                n += 1;
            }
            i += 1;
        }
        assert(rows.take(self.rows.len() as int) =~= rows);
        n
    }

    /// Where the article stands that was ingested first among those not
    /// pinned.
    fn oldest_unpinned(&self) -> (at: usize)
        requires
            unpinned_count(self@.rows) > 0,
        ensures
            is_next_evicted(self@.rows, at as int),
            at == next_evicted(self@.rows),
    {
        let ghost rows = self@.rows;
        proof {
            lemma_pinned_count_bounds(rows);
        }
        let mut best: Option<usize> = None;
        let mut i: usize = 0;
        while i < self.rows.len()
            invariant
                i <= self.rows.len(),
                rows == self@.rows,
                best is None ==> forall|j: int|
                    0 <= j < i ==> (#[trigger] rows[j]).article.is_bookmarked,
                best matches Some(b) ==> b < i && !rows[b as int].article.is_bookmarked && forall|
                    j: int,
                |
                    0 <= j < i && !(#[trigger] rows[j]).article.is_bookmarked ==> lex_le(
                        rows[b as int].article.fetched_at,
                        rows[j].article.fetched_at,
                    ),
                best matches Some(b) ==> forall|j: int|
                    0 <= j < b && !(#[trigger] rows[j]).article.is_bookmarked ==> !lex_le(
                        rows[j].article.fetched_at,
                        rows[b as int].article.fetched_at,
                    ),
            decreases self.rows.len() - i,
        {
            assert(rows[i as int] == self.rows[i as int]@);
            if !self.rows[i].article.is_bookmarked {
                match best {
                    None => {
                        proof {
                            lemma_lex_reflexive(rows[i as int].article.fetched_at);
                        }
                        best = Some(i);
                    },
                    Some(b) => {
                        assert(rows[b as int] == self.rows[b as int]@);
                        if !text_le(
                            self.rows[b].article.fetched_at.as_str(),
                            self.rows[i].article.fetched_at.as_str(),
                        ) {
                            proof {
                                let newer = rows[i as int].article.fetched_at;
                                let older = rows[b as int].article.fetched_at;
                                lemma_lex_total(older, newer);
                                lemma_lex_reflexive(newer);
                                assert forall|j: int|
                                    0 <= j < i + 1 && !(
                                    #[trigger] rows[j]).article.is_bookmarked implies lex_le(
                                    newer,
                                    rows[j].article.fetched_at,
                                ) by {
                                    if j < i {
                                        lemma_lex_transitive(
                                            newer,
                                            older,
                                            rows[j].article.fetched_at,
                                        );
                                    }
                                }
                                assert forall|j: int|
                                    0 <= j < i && !(
                                    #[trigger] rows[j]).article.is_bookmarked implies !lex_le(
                                    rows[j].article.fetched_at,
                                    newer,
                                ) by {
                                    if lex_le(rows[j].article.fetched_at, newer) {
                                        lemma_lex_transitive(
                                            older,
                                            rows[j].article.fetched_at,
                                            newer,
                                        );
                                    }
                                }
                            }
                            best = Some(i);
                        }
                    },
                }
            }
            i += 1;
        }
        match best {
            Some(b) => {
                proof {
                    assert(is_next_evicted(rows, b as int));
                    lemma_next_evicted_is_unique(rows, b as int, next_evicted(rows));
                }
                b
            },
            None => {
                proof {
                    assert(false);
                }
                0
            },
        }
    }

    /// Takes the row at place `at` out of the store, and its index entry
    /// with it.
    fn remove_at(&mut self, at: usize) -> (gone: Row)
        requires
            old(self).wf(),
            at < old(self)@.rows.len(),
        ensures
            final(self).wf(),
            gone@ == old(self)@.rows[at as int],
            final(self)@.rows == old(self)@.rows.remove(at as int),
            final(self)@.index == old(self)@.index.remove(at as int),
            final(self)@.next_row == old(self)@.next_row,
    {
        let ghost before = self@;
        proof {
            lemma_remove_keeps_store(before, at as int);
        }
        let _entry = self.index.remove(at);
        let gone = self.rows.remove(at);
        assert(self@.rows =~= before.rows.remove(at as int));
        assert(self@.index =~= before.index.remove(at as int));
        gone
    }

    /// Enforces retention: while the store holds more than `RETENTION_CAP`
    /// articles, the article ingested first among those not pinned is
    /// evicted, index entry and row together. Pinned articles are never
    /// evicted, so they alone can keep the store above the cap. Returns the
    /// evicted rows, oldest first.
    pub fn evict_excess(&mut self) -> (removed: Vec<Row>)
        requires
            old(self).wf(),
        ensures
            final(self).wf(),
            is_retention(old(self)@, final(self)@, removed.deep_view()),
            final(self)@.rows == after_evictions(
                old(self)@.rows,
                evicted_count(old(self)@.rows) as nat,
            ),
            removed.deep_view() == evicted_rows(
                old(self)@.rows,
                evicted_count(old(self)@.rows) as nat,
            ),
            is_eviction(old(self)@, final(self)@, removed.deep_view()),
            final(self)@.rows.len() == old(self)@.rows.len() - removed.len(),
            pinned_count(final(self)@.rows) == pinned_count(old(self)@.rows),
            old(self)@.rows.len() <= RETENTION_CAP ==> removed.len() == 0 && final(self)@ == old(
                self,
            )@,
            old(self)@.rows.len() > RETENTION_CAP ==> final(self)@.rows.len() == larger(
                RETENTION_CAP as int,
                pinned_count(old(self)@.rows) as int,
            ),
    {
        let ghost before = self@;
        let mut removed: Vec<Row> = Vec::new();
        proof {
            lemma_pinned_count_bounds(before.rows);
            lemma_without_nothing(before.rows);
            assert(removed.deep_view() =~= Seq::<RowView>::empty());
            assert(row_numbers(removed.deep_view()) =~= Set::<u64>::empty());
            assert(removed.deep_view() + evicted_rows(before.rows, evicted_count(before.rows) as nat)
                =~= evicted_rows(before.rows, evicted_count(before.rows) as nat));
        }
        let total = self.rows.len();
        if total <= RETENTION_CAP {
            return removed;
        }
        let excess: usize = total - RETENTION_CAP;
        let unpinned: usize = total - self.count_pinned();
        let quota: usize = if excess <= unpinned {
            excess
        } else {
            unpinned
        };
        while removed.len() < quota
            invariant
                self.wf(),
                quota == evicted_count(before.rows),
                quota <= unpinned_count(before.rows),
                removed.len() <= quota,
                self@.next_row == before.next_row,
                self@.rows.len() == before.rows.len() - removed.len(),
                pinned_count(self@.rows) == pinned_count(before.rows),
                self@.rows == without_rows(before.rows, row_numbers(removed.deep_view())),
                after_evictions(before.rows, quota as nat) == after_evictions(
                    self@.rows,
                    (quota - removed.len()) as nat,
                ),
                evicted_rows(before.rows, quota as nat) == removed.deep_view() + evicted_rows(
                    self@.rows,
                    (quota - removed.len()) as nat,
                ),
                forall|k: int|
                    0 <= k < removed.len() ==> before.rows.contains(
                        #[trigger] removed.deep_view()[k],
                    ) && !removed.deep_view()[k].article.is_bookmarked,
                forall|k: int, j: int|
                    0 <= k < removed.len() && 0 <= j < self@.rows.len() && !(
                    #[trigger] self@.rows[j]).article.is_bookmarked ==> lex_le(
                        (#[trigger] removed.deep_view()[k]).article.fetched_at,
                        self@.rows[j].article.fetched_at,
                    ),
                forall|k: int, m: int|
                    0 <= k < m < removed.len() ==> lex_le(
                        (#[trigger] removed.deep_view()[k]).article.fetched_at,
                        (#[trigger] removed.deep_view()[m]).article.fetched_at,
                    ),
            decreases quota - removed.len(),
        {
            let ghost current = self@;
            let ghost taken = removed.deep_view();
            let at = self.oldest_unpinned();
            let gone = self.remove_at(at);
            let ghost g = gone@;
            proof {
                lemma_pinned_count_remove(current.rows, at as int);
                lemma_without_rows_subset(before.rows, row_numbers(taken), at as int);
                lemma_without_one_more(before.rows, row_numbers(taken), at as int);
                lemma_row_numbers_push(taken, g);
            }
            removed.push(gone);
            proof {
                let now_taken = removed.deep_view();
                assert(now_taken =~= taken.push(g));
                let left = (quota - taken.len()) as nat;
                assert(evicted_rows(current.rows, left) == seq![g] + evicted_rows(
                    self@.rows,
                    (left - 1) as nat,
                ));
                assert(taken + (seq![g] + evicted_rows(self@.rows, (left - 1) as nat))
                    =~= now_taken + evicted_rows(self@.rows, (left - 1) as nat));
                assert forall|k: int| 0 <= k < now_taken.len() implies before.rows.contains(
                    #[trigger] now_taken[k],
                ) && !now_taken[k].article.is_bookmarked by {
                    if k < taken.len() {
                        assert(now_taken[k] == taken[k]);
                    }
                }
                assert forall|k: int, j: int|
                    0 <= k < now_taken.len() && 0 <= j < self@.rows.len() && !(
                    #[trigger] self@.rows[j]).article.is_bookmarked implies lex_le(
                    (#[trigger] now_taken[k]).article.fetched_at,
                    self@.rows[j].article.fetched_at,
                ) by {
                    let j2 = if j < at { j } else { j + 1 };
                    assert(self@.rows[j] == current.rows[j2]);
                    if k < taken.len() {
                        assert(now_taken[k] == taken[k]);
                    }
                }
                assert forall|k: int, m: int| 0 <= k < m < now_taken.len() implies lex_le(
                    (#[trigger] now_taken[k]).article.fetched_at,
                    (#[trigger] now_taken[m]).article.fetched_at,
                ) by {
                    assert(now_taken[k] == taken[k]);
                    if m < taken.len() {
                        assert(now_taken[m] == taken[m]);
                    } else {
                        assert(now_taken[m] == current.rows[at as int]);
                    }
                }
            }
        }
        removed
    }
}

/// `a` with another summary.
pub open spec fn with_summary(a: ArticleView, summary: Seq<char>) -> ArticleView {
    ArticleView { summary, ..a }
}

/// `a` with the bookmark set or cleared.
pub open spec fn with_bookmark(a: ArticleView, value: bool) -> ArticleView {
    ArticleView { is_bookmarked: value, ..a }
}

/// `a` marked as read.
pub open spec fn marked_read(a: ArticleView) -> ArticleView {
    ArticleView { is_read: true, ..a }
}

/// The store in which the article at place `at` has become `article`, its
/// index entry with it.
pub open spec fn store_with_article(s: StoreView, at: int, article: ArticleView) -> StoreView {
    let r = RowView { row: s.rows[at].row, article };
    StoreView { rows: s.rows.update(at, r), index: s.index.update(at, entry_of(r)), next_row: s.next_row }
}

/// Changing an article that keeps its URL and its identifier leaves a
/// store.
proof fn lemma_update_keeps_store(s: StoreView, at: int, article: ArticleView)
    requires
        store_wf(s),
        0 <= at < s.rows.len(),
        article.url == s.rows[at].article.url,
        article.id == s.rows[at].article.id,
    ensures
        store_wf(store_with_article(s, at, article)),
{
    let t = store_with_article(s, at, article);
    assert forall|a: int, b: int| 0 <= a < b < t.rows.len() implies (#[trigger] t.rows[a]).article.url
        != (#[trigger] t.rows[b]).article.url by {
        assert(s.rows[a].article.url != s.rows[b].article.url);
    }
    assert forall|a: int, b: int| 0 <= a < b < t.rows.len() implies (#[trigger] t.rows[a]).article.id
        != (#[trigger] t.rows[b]).article.id by {
        assert(s.rows[a].article.id != s.rows[b].article.id);
    }
    assert forall|a: int, b: int| 0 <= a < b < t.rows.len() implies (#[trigger] t.rows[a]).row != (
    #[trigger] t.rows[b]).row by {
        assert(s.rows[a].row != s.rows[b].row);
    }
    assert forall|a: int| 0 <= a < t.rows.len() implies (#[trigger] t.rows[a]).row < t.next_row by {
        assert(s.rows[a].row < s.next_row);
    }
    assert forall|a: int| 0 <= a < t.rows.len() implies #[trigger] t.index[a] == entry_of(
        t.rows[a],
    ) by {
        assert(s.index[a] == entry_of(s.rows[a]));
    }
}

impl ArticleStore {
    fn replace_article(&mut self, at: usize, article: Article)
        requires
            old(self).wf(),
            at < old(self)@.rows.len(),
            article@.url == old(self)@.rows[at as int].article.url,
            article@.id == old(self)@.rows[at as int].article.id,
        ensures
            final(self).wf(),
            final(self)@ == store_with_article(old(self)@, at as int, article@),
    {
        let ghost before = self@;
        proof {
            lemma_update_keeps_store(before, at as int, article@);
            assert(before.rows[at as int] == self.rows[at as int]@);
            assert(before.index.len() == before.rows.len());
        }
        let row = self.rows[at].row;
        let entry = index_entry(row, &article);
        let ghost r = RowView { row, article: article@ };
        self.rows.set(at, Row { row, article });
        self.index.set(at, entry);
        assert(self@.rows =~= before.rows.update(at as int, r));
        assert(self@.index =~= before.index.update(at as int, entry_of(r)));
    }

    /// Gives the article with the identifier `id` another summary, in the
    /// store and in the index. Says whether there is such an article.
    pub fn set_summary(&mut self, id: &str, summary: String) -> (found: bool)
        requires
            old(self).wf(),
        ensures
            final(self).wf(),
            found == has_id(old(self)@.rows, id@),
            !found ==> final(self)@ == old(self)@,
            found ==> exists|at: int|
                0 <= at < old(self)@.rows.len() && (#[trigger] old(self)@.rows[at]).article.id
                    == id@ && final(self)@ == store_with_article(
                    old(self)@,
                    at,
                    with_summary(old(self)@.rows[at].article, summary@),
                ),
    {
        match self.position_of_id(id) {
            Some(at) => {
                assert(self@.rows[at as int] == self.rows[at as int]@);
                let mut article = self.rows[at].article.duplicate();
                article.summary = summary;
                self.replace_article(at, article);
                true
            },
            None => false,
        }
    }

    /// Sets or clears the bookmark of the article with the identifier
    /// `id`. Says whether there is such an article.
    pub fn set_bookmarked(&mut self, id: &str, value: bool) -> (found: bool)
        requires
            old(self).wf(),
        ensures
            final(self).wf(),
            found == has_id(old(self)@.rows, id@),
            !found ==> final(self)@ == old(self)@,
            found ==> exists|at: int|
                0 <= at < old(self)@.rows.len() && (#[trigger] old(self)@.rows[at]).article.id
                    == id@ && final(self)@ == store_with_article(
                    old(self)@,
                    at,
                    with_bookmark(old(self)@.rows[at].article, value),
                ),
    {
        match self.position_of_id(id) {
            Some(at) => {
                assert(self@.rows[at as int] == self.rows[at as int]@);
                let mut article = self.rows[at].article.duplicate();
                article.is_bookmarked = value;
                self.replace_article(at, article);
                true
            },
            None => false,
        }
    }

    /// Marks the article with the identifier `id` as read. Says whether
    /// there is such an article.
    pub fn mark_read(&mut self, id: &str) -> (found: bool)
        requires
            old(self).wf(),
        ensures
            final(self).wf(),
            found == has_id(old(self)@.rows, id@),
            !found ==> final(self)@ == old(self)@,
            found ==> exists|at: int|
                0 <= at < old(self)@.rows.len() && (#[trigger] old(self)@.rows[at]).article.id
                    == id@ && final(self)@ == store_with_article(
                    old(self)@,
                    at,
                    marked_read(old(self)@.rows[at].article),
                ),
    {
        match self.position_of_id(id) {
            Some(at) => {
                assert(self@.rows[at as int] == self.rows[at as int]@);
                let mut article = self.rows[at].article.duplicate();
                article.is_read = true;
                self.replace_article(at, article);
                true
            },
            None => false,
        }
    }
}

/// Retention never evicts a pinned article.
pub proof fn lemma_pinned_survive(
    before: StoreView,
    after: StoreView,
    removed: Seq<RowView>,
    i: int,
)
    requires
        store_wf(before),
        is_eviction(before, after, removed),
        0 <= i < before.rows.len(),
        before.rows[i].article.is_bookmarked,
    ensures
        after.rows.contains(before.rows[i]),
{
    let gone = row_numbers(removed);
    if gone.contains(before.rows[i].row) {
        let k = choose|k: int|
            0 <= k < removed.len() && (#[trigger] removed[k]).row == before.rows[i].row;
        assert(before.rows.contains(removed[k]));
        let j = choose|j: int| 0 <= j < before.rows.len() && before.rows[j] == removed[k];
        if i < j {
            assert(before.rows[i].row != before.rows[j].row);
        }
        if j < i {
            assert(before.rows[j].row != before.rows[i].row);
        }
        assert(false);
    }
    lemma_without_rows_keeps(before.rows, gone, i);
}

} // verus!
