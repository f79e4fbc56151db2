//! The transaction store: the authoritative in-memory collection of
//! transactions and prompts, with query and mutation operations.
//!
//! Mutation operations return the snapshots to broadcast; the caller
//! publishes them through the [`crate::broadcast::Broadcaster`] after
//! releasing whatever lock guards the store, so that no lock is held
//! across a broadcast send.

use vstd::prelude::*;

use crate::broadcast::Broadcaster;
use crate::broadcast::channel_capacity;
use crate::model::FileApplyStatus;
use crate::model::FileView;
use crate::model::BlockView;
use crate::model::Prompt;
use crate::model::Transaction;
use crate::model::TransactionBlock;
use crate::model::TransactionFile;
use crate::model::TransactionStatus;
use crate::model::TransactionView;
use crate::model::clone_opt_string;
use crate::text::lower_of;
use crate::text::status_matches;
use crate::text::status_matches_filter;
use crate::text::str_eq;
use crate::text::to_lowercase;
use crate::text::transaction_matches_search;
use crate::text::tx_matches_search;

verus! {

/// Whether some transaction in the sequence has the given id.
pub open spec fn tx_has_id(txs: Seq<TransactionView>, id: Seq<char>) -> bool {
    exists|k: int| 0 <= k < txs.len() && #[trigger] txs[k].id == id
}

/// The index of the first transaction with the given id, or -1 if none.
pub open spec fn tx_index_of(txs: Seq<TransactionView>, id: Seq<char>) -> int
    decreases txs.len(),
{
    if txs.len() == 0 {
        -1
    } else if txs[0].id == id {
        0
    } else {
        let rest = tx_index_of(txs.drop_first(), id);
        if rest == -1 {
            -1
        } else {
            rest + 1
        }
    }
}

/// `tx_index_of` finds the first occurrence of an id, exactly when one exists.
pub proof fn lemma_tx_index_of(txs: Seq<TransactionView>, id: Seq<char>)
    ensures
        tx_has_id(txs, id) <==> 0 <= tx_index_of(txs, id) < txs.len(),
        !tx_has_id(txs, id) ==> tx_index_of(txs, id) == -1,
        tx_has_id(txs, id) ==> txs[tx_index_of(txs, id)].id == id,
        forall|k: int| 0 <= k < tx_index_of(txs, id) ==> (#[trigger] txs[k].id) != id,
    decreases txs.len(),
{
    if txs.len() > 0 && txs[0].id != id {
        lemma_tx_index_of(txs.drop_first(), id);
        assert(forall|k: int|
            0 <= k < txs.drop_first().len() ==> #[trigger] txs.drop_first()[k] == txs[k + 1]);
        if tx_has_id(txs, id) {
            let w = choose|k: int| 0 <= k < txs.len() && #[trigger] txs[k].id == id;
            assert(txs.drop_first()[w - 1].id == id);
        }
        let rest = tx_index_of(txs.drop_first(), id);
        if rest >= 0 {
            assert forall|k: int| 0 <= k < rest + 1 implies (#[trigger] txs[k].id) != id by {
                if k > 0 {
                    assert(txs.drop_first()[k - 1].id != id);
                }
            }
        }
    }
}

/// If `i` is a match and nothing before it matches, `tx_index_of` is `i`.
pub proof fn lemma_tx_index_of_is_first(txs: Seq<TransactionView>, id: Seq<char>, i: int)
    requires
        0 <= i < txs.len(),
        txs[i].id == id,
        forall|k: int| 0 <= k < i ==> (#[trigger] txs[k].id) != id,
    ensures
        tx_index_of(txs, id) == i,
    decreases i,
{
    if i == 0 {
    } else {
        assert(forall|k: int|
            0 <= k < txs.drop_first().len() ==> #[trigger] txs.drop_first()[k] == txs[k + 1]);
        lemma_tx_index_of_is_first(txs.drop_first(), id, i - 1);
    }
}

/// A transaction with its overall status replaced.
pub open spec fn with_status(t: TransactionView, status: TransactionStatus) -> TransactionView {
    TransactionView { status: status, ..t }
}

/// A file with its apply status and error message replaced.
pub open spec fn file_with_apply_status(
    f: FileView,
    st: FileApplyStatus,
    err: Option<Seq<char>>,
) -> FileView {
    FileView { apply_status: st, error_message: err, ..f }
}

/// A block after a write to the file at `path`: its embedded file is updated
/// when the block is a file block holding that path.
pub open spec fn block_file_updated(
    b: BlockView,
    path: Seq<char>,
    st: FileApplyStatus,
    err: Option<Seq<char>>,
) -> BlockView {
    match b.file {
        Some(f) => if b.block_type == "file"@ && f.path == path {
            BlockView { file: Some(file_with_apply_status(f, st, err)), ..b }
        } else {
            b
        },
        None => b,
    }
}

/// A top-level file entry after a write to the file at `path`.
pub open spec fn file_entry_updated(
    f: FileView,
    path: Seq<char>,
    st: FileApplyStatus,
    err: Option<Seq<char>>,
) -> FileView {
    if f.path == path {
        file_with_apply_status(f, st, err)
    } else {
        f
    }
}

/// A transaction after a write to the file at `path`: both the block-embedded
/// and the top-level representation of the file are updated.
pub open spec fn tx_with_file_status(
    t: TransactionView,
    path: Seq<char>,
    st: FileApplyStatus,
    err: Option<Seq<char>>,
) -> TransactionView {
    TransactionView {
        blocks: t.blocks.map_values(|b: BlockView| block_file_updated(b, path, st, err)),
        files: t.files.map_values(|f: FileView| file_entry_updated(f, path, st, err)),
        ..t
    }
}

/// One element of a bulk update: a transaction's status is replaced exactly
/// when its id is among those requested.
pub open spec fn bulk_elem(
    t: TransactionView,
    ids: Seq<Seq<char>>,
    st: TransactionStatus,
) -> TransactionView {
    if ids.contains(t.id) {
        with_status(t, st)
    } else {
        t
    }
}

/// All transactions after a bulk update.
pub open spec fn bulk_with_status(
    txs: Seq<TransactionView>,
    ids: Seq<Seq<char>>,
    st: TransactionStatus,
) -> Seq<TransactionView> {
    txs.map_values(|t: TransactionView| bulk_elem(t, ids, st))
}

/// The ids a bulk update touches, in store order.
pub open spec fn bulk_matched_ids(txs: Seq<TransactionView>, ids: Seq<Seq<char>>) -> Seq<
    Seq<char>,
>
    decreases txs.len(),
{
    if txs.len() == 0 {
        Seq::empty()
    } else {
        let rest = bulk_matched_ids(txs.drop_last(), ids);
        if ids.contains(txs.last().id) {
            rest.push(txs.last().id)
        } else {
            rest
        }
    }
}

/// The snapshots a bulk update hands back for broadcasting, in store order.
pub open spec fn bulk_updated_snaps(
    txs: Seq<TransactionView>,
    ids: Seq<Seq<char>>,
    st: TransactionStatus,
) -> Seq<TransactionView>
    decreases txs.len(),
{
    if txs.len() == 0 {
        Seq::empty()
    } else {
        let rest = bulk_updated_snaps(txs.drop_last(), ids, st);
        if ids.contains(txs.last().id) {
            rest.push(with_status(txs.last(), st))
        } else {
            rest
        }
    }
}

/// The transactions whose status has the given name, ignoring case.
pub open spec fn filter_by_status(txs: Seq<TransactionView>, filter: Seq<char>) -> Seq<
    TransactionView,
>
    decreases txs.len(),
{
    if txs.len() == 0 {
        Seq::empty()
    } else {
        let rest = filter_by_status(txs.drop_last(), filter);
        if status_matches(txs.last().status, filter) {
            rest.push(txs.last())
        } else {
            rest
        }
    }
}

/// The transactions matching an already-lowercased search needle.
pub open spec fn filter_by_search(txs: Seq<TransactionView>, needle: Seq<char>) -> Seq<
    TransactionView,
>
    decreases txs.len(),
{
    if txs.len() == 0 {
        Seq::empty()
    } else {
        let rest = filter_by_search(txs.drop_last(), needle);
        if tx_matches_search(txs.last(), needle) {
            rest.push(txs.last())
        } else {
            rest
        }
    }
}

/// The 1-indexed page of `limit` items; a page past the end is empty, and
/// a page number of zero reads as the first page.
pub open spec fn page_slice(txs: Seq<TransactionView>, limit: int, page: int) -> Seq<
    TransactionView,
> {
    let start = if page > 1 {
        (page - 1) * limit
    } else {
        0
    };
    if start >= txs.len() {
        Seq::empty()
    } else if start + limit <= txs.len() {
        txs.subrange(start, start + limit)
    } else {
        txs.subrange(start, txs.len() as int)
    }
}

/// What a listing returns: the status filter first, then the substring
/// search, then the page slice.
pub open spec fn listed_transactions(
    txs: Seq<TransactionView>,
    limit: int,
    page: int,
    search: Option<Seq<char>>,
    status: Option<Seq<char>>,
) -> Seq<TransactionView> {
    let by_status = match status {
        Some(f) => filter_by_status(txs, f),
        None => txs,
    };
    let by_search = match search {
        Some(q) => filter_by_search(by_status, lower_of(q)),
        None => by_status,
    };
    page_slice(by_search, limit, page)
}

/// A page never holds more than `limit` items.
pub proof fn lemma_page_slice_len(txs: Seq<TransactionView>, limit: int, page: int)
    requires
        limit >= 0,
    ensures
        page_slice(txs, limit, page).len() <= limit,
{
}

/// A bulk update hands back one snapshot per updated id.
pub proof fn lemma_bulk_one_snap_per_id(
    txs: Seq<TransactionView>,
    ids: Seq<Seq<char>>,
    st: TransactionStatus,
)
    ensures
        bulk_matched_ids(txs, ids).len() == bulk_updated_snaps(txs, ids, st).len(),
    decreases txs.len(),
{
    if txs.len() > 0 {
        lemma_bulk_one_snap_per_id(txs.drop_last(), ids, st);
    }
}

/// Law: a bulk update touches exactly the requested ids that exist in the
/// store — every returned id was requested and belongs to a transaction —
/// and hands back one snapshot per returned id, carrying the new status
/// under that id.
pub proof fn lemma_bulk_update_valid_ids(
    txs: Seq<TransactionView>,
    ids: Seq<Seq<char>>,
    st: TransactionStatus,
)
    ensures
        bulk_matched_ids(txs, ids).len() == bulk_updated_snaps(txs, ids, st).len(),
        forall|m: int|
            0 <= m < bulk_matched_ids(txs, ids).len() ==> ids.contains(
                #[trigger] bulk_matched_ids(txs, ids)[m],
            ) && tx_has_id(txs, bulk_matched_ids(txs, ids)[m]),
        forall|m: int|
            0 <= m < bulk_updated_snaps(txs, ids, st).len()
                ==> (#[trigger] bulk_updated_snaps(txs, ids, st)[m]).status == st
                && bulk_updated_snaps(txs, ids, st)[m].id == bulk_matched_ids(txs, ids)[m],
    decreases txs.len(),
{
    if txs.len() > 0 {
        lemma_bulk_update_valid_ids(txs.drop_last(), ids, st);
        assert forall|x: Seq<char>| tx_has_id(txs.drop_last(), x) implies tx_has_id(txs, x) by {
            let w = choose|k: int|
                0 <= k < txs.drop_last().len() && #[trigger] txs.drop_last()[k].id == x;
            assert(txs[w].id == x);
        }
        if ids.contains(txs.last().id) {
            assert(txs[txs.len() - 1].id == txs.last().id);
        }
    }
}

/// Law: a file-status write is visible identically through both
/// representations: afterwards, every file-typed block embedding the path
/// and every top-level entry at the path carry exactly the written status
/// and message, and nothing else moved.
pub proof fn lemma_file_status_round_trip(
    t: TransactionView,
    path: Seq<char>,
    st: FileApplyStatus,
    err: Option<Seq<char>>,
)
    ensures
        ({
            let u = tx_with_file_status(t, path, st, err);
            &&& u.blocks.len() == t.blocks.len()
            &&& u.files.len() == t.files.len()
            &&& forall|j: int|
                (0 <= j < t.blocks.len() && (#[trigger] t.blocks[j]).block_type == "file"@
                    && (t.blocks[j].file matches Some(f) && f.path == path)) ==> (u.blocks[j].file
                    matches Some(g) && g.apply_status == st && g.error_message == err)
            &&& forall|j: int|
                0 <= j < t.files.len() && (#[trigger] t.files[j]).path == path
                    ==> u.files[j].apply_status == st && u.files[j].error_message == err
            &&& forall|j: int|
                0 <= j < t.files.len() && (#[trigger] t.files[j]).path != path ==> u.files[j]
                    == t.files[j]
        }),
{
}

/// The paths of block-embedded files whose apply status is `Failed`.
pub open spec fn block_failed_paths(blocks: Seq<BlockView>) -> Seq<Seq<char>>
    decreases blocks.len(),
{
    if blocks.len() == 0 {
        Seq::empty()
    } else {
        let rest = block_failed_paths(blocks.drop_last());
        let b = blocks.last();
        match b.file {
            Some(f) => if b.block_type == "file"@ && f.apply_status == FileApplyStatus::Failed {
                rest.push(f.path)
            } else {
                rest
            },
            None => rest,
        }
    }
}

/// The paths of top-level file entries whose apply status is `Failed`.
pub open spec fn file_failed_paths(files: Seq<FileView>) -> Seq<Seq<char>>
    decreases files.len(),
{
    if files.len() == 0 {
        Seq::empty()
    } else {
        let rest = file_failed_paths(files.drop_last());
        if files.last().apply_status == FileApplyStatus::Failed {
            rest.push(files.last().path)
        } else {
            rest
        }
    }
}

/// Every failed path of a transaction: block-embedded files first, then the
/// top-level list. A path both lists hold appears twice.
pub open spec fn failed_paths(t: TransactionView) -> Seq<Seq<char>> {
    block_failed_paths(t.blocks) + file_failed_paths(t.files)
}

/// The ids after removing every occurrence of `id`, keeping the order.
pub open spec fn without_id(ids: Seq<Seq<char>>, id: Seq<char>) -> Seq<Seq<char>>
    decreases ids.len(),
{
    if ids.len() == 0 {
        Seq::empty()
    } else {
        let rest = without_id(ids.drop_last(), id);
        if ids.last() == id {
            rest
        } else {
            rest.push(ids.last())
        }
    }
}

/// Membership in a sequence, split at its last element.
pub proof fn lemma_contains_split<A>(s: Seq<A>, x: A)
    requires
        s.len() > 0,
    ensures
        s.contains(x) <==> (s.drop_last().contains(x) || s.last() == x),
{
    if s.contains(x) {
        let w = choose|k: int| 0 <= k < s.len() && s[k] == x;
        if w < s.len() - 1 {
            assert(s.drop_last()[w] == x);
        }
    }
    if s.drop_last().contains(x) {
        let w = choose|k: int| 0 <= k < s.drop_last().len() && s.drop_last()[k] == x;
        assert(s[w] == x);
    }
}

/// Removal removes the given id and keeps every other id.
pub proof fn lemma_without_id(ids: Seq<Seq<char>>, id: Seq<char>)
    ensures
        !without_id(ids, id).contains(id),
        forall|other: Seq<char>|
            other != id ==> (#[trigger] without_id(ids, id).contains(other) <==> ids.contains(
                other,
            )),
    decreases ids.len(),
{
    if ids.len() == 0 {
        assert forall|other: Seq<char>| other != id implies (#[trigger] without_id(
            ids,
            id,
        ).contains(other) <==> ids.contains(other)) by {}
    } else {
        lemma_without_id(ids.drop_last(), id);
        let rest = without_id(ids.drop_last(), id);
        lemma_contains_split(ids, id);
        if ids.last() != id {
            lemma_contains_split(rest.push(ids.last()), id);
            assert(rest.push(ids.last()).drop_last() =~= rest);
        }
        assert forall|other: Seq<char>| other != id implies (#[trigger] without_id(
            ids,
            id,
        ).contains(other) <==> ids.contains(other)) by {
            lemma_contains_split(ids, other);
            if ids.last() != id {
                lemma_contains_split(rest.push(ids.last()), other);
                assert(rest.push(ids.last()).drop_last() =~= rest);
            }
        }
    }
}

/// A mutable reference to one element of a vector.
pub(crate) fn elem_at_mut<T>(v: &mut Vec<T>, i: usize) -> (e: &mut T)
    requires
        i < old(v).len(),
    ensures
        *e == old(v)@[i as int],
        final(v)@ == old(v)@.update(i as int, *final(e)),
{
    &mut v[i]
}

/// Finds the first transaction with the given id.
fn find_index(txs: &Vec<Transaction>, id: &str) -> (r: Option<usize>)
    ensures
        match r {
            Some(i) => i < txs@.len() && tx_index_of(txs.deep_view(), id@) == i as int
                && txs.deep_view()[i as int].id == id@,
            None => !tx_has_id(txs.deep_view(), id@),
        },
{
    let ghost dv = txs.deep_view();
    let mut i: usize = 0;
    while i < txs.len()
        invariant
            i <= txs.len(),
            dv == txs.deep_view(),
            dv.len() == txs.len(),
            forall|k: int| 0 <= k < i ==> (#[trigger] dv[k].id) != id@,
        decreases txs.len() - i,
    {
        proof {
            assert(dv[i as int] == txs@[i as int]@);
        }
        if str_eq(txs[i].id.as_str(), id) {
            proof {
                lemma_tx_index_of_is_first(dv, id@, i as int);
            }
            return Some(i);
        }
        i = i + 1;
    }
    proof {
        lemma_tx_index_of(dv, id@);
    }
    None
}

/// Whether the vector of strings contains the given characters.
pub(crate) fn contains_string(ids: &Vec<String>, s: &str) -> (r: bool)
    ensures
        r == ids.deep_view().contains(s@),
{
    let mut i: usize = 0;
    while i < ids.len()
        invariant
            i <= ids.len(),
            forall|k: int| 0 <= k < i ==> (#[trigger] ids.deep_view()[k]) != s@,
        decreases ids.len() - i,
    {
        proof {
            assert(ids.deep_view()[i as int] == ids@[i as int]@);
        }
        if str_eq(ids[i].as_str(), s) {
            return true;
        }
        i = i + 1;
    }
    false
}

/// Writes an apply status into every block-embedded file at `path`.
pub(crate) fn set_file_status_in_blocks(
    blocks: &mut Vec<TransactionBlock>,
    path: &str,
    st: FileApplyStatus,
    err: &Option<String>,
)
    ensures
        final(blocks)@.len() == old(blocks)@.len(),
        forall|m: int|
            0 <= m < old(blocks)@.len() ==> (#[trigger] final(blocks)@[m])@ == block_file_updated(
                old(blocks)@[m]@,
                path@,
                st,
                err.deep_view(),
            ),
{
    let ghost pre = old(blocks)@;
    let n = blocks.len();
    let mut k: usize = 0;
    while k < n
        invariant
            k <= n,
            blocks@.len() == n,
            n == pre.len(),
            forall|m: int| k <= m < n ==> blocks@[m] == pre[m],
            forall|m: int|
                0 <= m < k ==> (#[trigger] blocks@[m])@ == block_file_updated(
                    pre[m]@,
                    path@,
                    st,
                    err.deep_view(),
                ),
        decreases n - k,
    {
        let b = elem_at_mut(blocks, k);
        if str_eq(b.block_type.as_str(), "file") {
            match &mut b.file {
                Some(f) => {
                    if str_eq(f.path.as_str(), path) {
                        f.apply_status = st;
                        f.error_message = clone_opt_string(err);
                    }
                },
                None => {},
            }
        }
        k = k + 1;
    }
}

/// Writes an apply status into every top-level file entry at `path`.
pub(crate) fn set_file_status_in_files(
    files: &mut Vec<TransactionFile>,
    path: &str,
    st: FileApplyStatus,
    err: &Option<String>,
)
    ensures
        final(files)@.len() == old(files)@.len(),
        forall|m: int|
            0 <= m < old(files)@.len() ==> (#[trigger] final(files)@[m])@ == file_entry_updated(
                old(files)@[m]@,
                path@,
                st,
                err.deep_view(),
            ),
{
    let ghost pre = old(files)@;
    let n = files.len();
    let mut k: usize = 0;
    while k < n
        invariant
            k <= n,
            files@.len() == n,
            n == pre.len(),
            forall|m: int| k <= m < n ==> files@[m] == pre[m],
            forall|m: int|
                0 <= m < k ==> (#[trigger] files@[m])@ == file_entry_updated(
                    pre[m]@,
                    path@,
                    st,
                    err.deep_view(),
                ),
        decreases n - k,
    {
        let f = elem_at_mut(files, k);
        if str_eq(f.path.as_str(), path) {
            f.apply_status = st;
            f.error_message = clone_opt_string(err);
        }
        k = k + 1;
    }
}

/// Writes an apply status into both representations of the file at `path`
/// within one transaction.
pub(crate) fn set_file_status_in_tx(
    t: &mut Transaction,
    path: &str,
    st: FileApplyStatus,
    err: &Option<String>,
)
    ensures
        final(t)@ == tx_with_file_status(old(t)@, path@, st, err.deep_view()),
{
    set_file_status_in_blocks(&mut t.blocks, path, st, err);
    set_file_status_in_files(&mut t.files, path, st, err);
    proof {
        let target = tx_with_file_status(old(t)@, path@, st, err.deep_view());
        assert forall|m: int| 0 <= m < t.blocks@.len() implies t.blocks.deep_view()[m]
            == target.blocks[m] by {
            assert(t.blocks@[m]@ == block_file_updated(
                old(t).blocks@[m]@,
                path@,
                st,
                err.deep_view(),
            ));
            assert(old(t)@.blocks[m] == old(t).blocks@[m]@);
        }
        assert(t.blocks.deep_view() =~= target.blocks);
        assert forall|m: int| 0 <= m < t.files@.len() implies t.files.deep_view()[m]
            == target.files[m] by {
            assert(t.files@[m]@ == file_entry_updated(
                old(t).files@[m]@,
                path@,
                st,
                err.deep_view(),
            ));
            assert(old(t)@.files[m] == old(t).files@[m]@);
        }
        assert(t.files.deep_view() =~= target.files);
        assert(t@ =~= target);
    }
}

/// The state a store protects: transactions, prompts, and the registry of
/// transaction ids currently undergoing a simulated application.
pub struct AppState {
    pub transactions: Vec<Transaction>,
    pub prompts: Vec<Prompt>,
    pub active_simulations: Vec<String>,
}

impl Default for AppState {
    /// An empty state.
    fn default() -> (r: AppState)
        ensures
            r.transactions@.len() == 0,
            r.prompts@.len() == 0,
            r.active_simulations@.len() == 0,
    {
        AppState { transactions: Vec::new(), prompts: Vec::new(), active_simulations: Vec::new() }
    }
}

/// The transaction store, together with the broadcaster that announces
/// its mutations.
pub struct Store {
    pub state: AppState,
    pub broadcaster: Broadcaster,
}

impl Default for Store {
    /// An empty store with a fresh broadcaster.
    fn default() -> (r: Store)
        ensures
            r.state.transactions@.len() == 0,
            r.state.prompts@.len() == 0,
            r.state.active_simulations@.len() == 0,
    {
        Store::new()
    }
}

impl Store {
    /// An empty store with a fresh broadcaster.
    pub fn new() -> (r: Store)
        ensures
            r.state.transactions@.len() == 0,
            r.state.prompts@.len() == 0,
            r.state.active_simulations@.len() == 0,
    {
        Store { state: AppState::default(), broadcaster: Broadcaster::new(channel_capacity()) }
    }

    /// Replaces the transactions and prompts with freshly loaded seed data.
    /// The registry of active simulations is not touched.
    pub fn load_data(&mut self, transactions: Vec<Transaction>, prompts: Vec<Prompt>)
        ensures
            final(self).state.transactions == transactions,
            final(self).state.prompts == prompts,
            final(self).state.active_simulations == old(self).state.active_simulations,
            final(self).broadcaster == old(self).broadcaster,
    {
        self.state.transactions = transactions;
        self.state.prompts = prompts;
    }

    /// A snapshot of every prompt.
    pub fn get_prompts(&self) -> (r: Vec<Prompt>)
        ensures
            r.deep_view() == self.state.prompts.deep_view(),
    {
        let mut out: Vec<Prompt> = Vec::new();
        let mut i: usize = 0;
        while i < self.state.prompts.len()
            invariant
                i <= self.state.prompts.len(),
                out@.len() == i,
                forall|k: int| 0 <= k < i ==> (#[trigger] out@[k])@ == self.state.prompts@[k]@,
            decreases self.state.prompts.len() - i,
        {
            out.push(self.state.prompts[i].snapshot());
            i = i + 1;
        }
        proof {
            assert forall|k: int| 0 <= k < out@.len() implies out.deep_view()[k]
                == self.state.prompts.deep_view()[k] by {
                assert(out@[k]@ == self.state.prompts@[k]@);
            }
            assert(out.deep_view() =~= self.state.prompts.deep_view());
        }
        out
    }

    /// A snapshot of the transaction with the given id, if the store has it.
    pub fn get_transaction(&self, id: &str) -> (r: Option<Transaction>)
        ensures
            match r {
                Some(t) => {
                    let dv = self.state.transactions.deep_view();
                    tx_has_id(dv, id@) && t@ == dv[tx_index_of(dv, id@)]
                },
                None => !tx_has_id(self.state.transactions.deep_view(), id@),
            },
    {
        match find_index(&self.state.transactions, id) {
            Some(i) => {
                proof {
                    lemma_tx_index_of(self.state.transactions.deep_view(), id@);
                    assert(self.state.transactions.deep_view()[i as int]
                        == self.state.transactions@[i as int]@);
                }
                Some(self.state.transactions[i].snapshot())
            },
            None => None,
        }
    }

    /// The transactions matching the optional status and search filters,
    /// sliced to the 1-indexed page of `limit` items. A page past the end
    /// yields an empty vector, never an error.
    pub fn get_transactions(
        &self,
        limit: usize,
        page: usize,
        search: Option<&str>,
        status: Option<&str>,
    ) -> (r: Vec<Transaction>)
        ensures
            r.deep_view() == listed_transactions(
                self.state.transactions.deep_view(),
                limit as int,
                page as int,
                search.deep_view(),
                status.deep_view(),
            ),
            r@.len() <= limit,
    {
        let ghost dv = self.state.transactions.deep_view();
        let ghost bs: Seq<TransactionView> = match status {
            Some(f) => filter_by_status(dv, f@),
            None => dv,
        };
        let mut by_status: Vec<Transaction> = Vec::new();
        match status {
            Some(fstr) => {
                let n = self.state.transactions.len();
                let mut i: usize = 0;
                while i < n
                    invariant
                        i <= n,
                        self.state.transactions@.len() == n,
                        dv.len() == n,
                        dv == self.state.transactions.deep_view(),
                        by_status@.len() == filter_by_status(dv.take(i as int), fstr@).len(),
                        forall|k: int|
                            0 <= k < by_status@.len() ==> (#[trigger] by_status@[k])@
                                == filter_by_status(dv.take(i as int), fstr@)[k],
                    decreases n - i,
                {
                    proof {
                        assert(dv.take(i as int + 1).drop_last() =~= dv.take(i as int));
                        assert(dv.take(i as int + 1).last() == dv[i as int]);
                        assert(self.state.transactions@[i as int]@ == dv[i as int]);
                    }
                    let t = &self.state.transactions[i];
                    if status_matches_filter(t.status, fstr) {
                        by_status.push(t.snapshot());
                    }
                    i = i + 1;
                }
                proof {
                    assert(dv.take(n as int) =~= dv);
                }
            },
            None => {
                let n = self.state.transactions.len();
                let mut i: usize = 0;
                while i < n
                    invariant
                        i <= n,
                        self.state.transactions@.len() == n,
                        dv.len() == n,
                        dv == self.state.transactions.deep_view(),
                        by_status@.len() == i,
                        forall|k: int|
                            0 <= k < i ==> (#[trigger] by_status@[k])@ == dv[k],
                    decreases n - i,
                {
                    proof {
                        assert(self.state.transactions@[i as int]@ == dv[i as int]);
                    }
                    by_status.push(self.state.transactions[i].snapshot());
                    i = i + 1;
                }
            },
        }
        proof {
            assert forall|k: int| 0 <= k < by_status@.len() implies by_status.deep_view()[k]
                == bs[k] by {
                assert(by_status@[k]@ == bs[k]);
            }
            assert(by_status.deep_view() =~= bs);
        }
        let ghost ss: Seq<TransactionView> = match search {
            Some(q) => filter_by_search(bs, lower_of(q@)),
            None => bs,
        };
        let by_search: Vec<Transaction> = match search {
            Some(q) => {
                let needle = to_lowercase(q);
                let mut matched: Vec<Transaction> = Vec::new();
                let m = by_status.len();
                let mut i: usize = 0;
                while i < m
                    invariant
                        i <= m,
                        by_status@.len() == m,
                        bs.len() == m,
                        by_status.deep_view() == bs,
                        needle@ == lower_of(q@),
                        matched@.len() == filter_by_search(bs.take(i as int), needle@).len(),
                        forall|k: int|
                            0 <= k < matched@.len() ==> (#[trigger] matched@[k])@
                                == filter_by_search(bs.take(i as int), needle@)[k],
                    decreases m - i,
                {
                    proof {
                        assert(bs.take(i as int + 1).drop_last() =~= bs.take(i as int));
                        assert(bs.take(i as int + 1).last() == bs[i as int]);
                        assert(by_status@[i as int]@ == bs[i as int]);
                    }
                    let t = &by_status[i];
                    if transaction_matches_search(t, needle.as_str()) {
                        matched.push(t.snapshot());
                    }
                    i = i + 1;
                }
                proof {
                    assert(bs.take(m as int) =~= bs);
                    assert forall|k: int| 0 <= k < matched@.len() implies matched.deep_view()[k]
                        == ss[k] by {
                        assert(matched@[k]@ == ss[k]);
                    }
                    assert(matched.deep_view() =~= ss);
                }
                matched
            },
            None => by_status,
        };
        let len = by_search.len();
        let start_opt: Option<usize> = if page > 1 {
            (page - 1).checked_mul(limit)
        } else {
            Some(0)
        };
        let mut out: Vec<Transaction> = Vec::new();
        match start_opt {
            Some(start) => {
                if start < len {
                    let mut idx: usize = start;
                    while idx < len && out.len() < limit
                        invariant
                            start <= idx <= len,
                            by_search@.len() == len,
                            by_search.deep_view() == ss,
                            ss.len() == len,
                            out@.len() == idx - start,
                            out@.len() <= limit,
                            forall|k: int|
                                0 <= k < out@.len() ==> (#[trigger] out@[k])@ == ss[start + k],
                        decreases len - idx,
                    {
                        proof {
                            assert(by_search@[idx as int]@ == ss[idx as int]);
                        }
                        out.push(by_search[idx].snapshot());
                        idx = idx + 1;
                    }
                }
            },
            None => {},
        }
        proof {
            let target = page_slice(ss, limit as int, page as int);
            assert forall|k: int| 0 <= k < out@.len() implies out.deep_view()[k] == out@[k]@ by {}
            assert(out.deep_view() =~= target);
        }
        out
    }

    /// Sets the status of the transaction with the given id and returns the
    /// updated snapshot, which the caller broadcasts; unknown ids yield
    /// `None` and leave the store unchanged.
    pub fn update_transaction_status(&mut self, id: &str, status: TransactionStatus) -> (r: Option<
        Transaction,
    >)
        ensures
            final(self).state.prompts == old(self).state.prompts,
            final(self).state.active_simulations == old(self).state.active_simulations,
            final(self).broadcaster == old(self).broadcaster,
            !tx_has_id(old(self).state.transactions.deep_view(), id@)
                ==> r is None && final(self).state.transactions == old(self).state.transactions,
            tx_has_id(old(self).state.transactions.deep_view(), id@) ==> ({
                let dv = old(self).state.transactions.deep_view();
                let k = tx_index_of(dv, id@);
                &&& final(self).state.transactions.deep_view() == dv.update(
                    k,
                    with_status(dv[k], status),
                )
                &&& r matches Some(t) && t@ == with_status(dv[k], status)
            }),
    {
        let ghost dv = self.state.transactions.deep_view();
        match find_index(&self.state.transactions, id) {
            Some(i) => {
                proof {
                    lemma_tx_index_of(dv, id@);
                }
                let t = elem_at_mut(&mut self.state.transactions, i);
                t.status = status;
                let snap = t.snapshot();
                proof {
                    let k = i as int;
                    let target = dv.update(k, with_status(dv[k], status));
                    assert(self.state.transactions@[k]@ == with_status(dv[k], status));
                    assert forall|m: int|
                        0 <= m < dv.len() implies self.state.transactions.deep_view()[m]
                        == target[m] by {
                        if m != k {
                            assert(self.state.transactions@[m]
                                == old(self).state.transactions@[m]);
                        }
                    }
                    assert(self.state.transactions.deep_view() =~= target);
                }
                Some(snap)
            },
            None => None,
        }
    }

    /// Sets the status of every transaction whose id is among `ids`;
    /// unmatched ids are skipped silently. Returns the updated ids and, one
    /// per updated id, the snapshot to broadcast.
    pub fn update_transaction_status_bulk(&mut self, ids: &Vec<String>, status: TransactionStatus)
        -> (r: (Vec<String>, Vec<Transaction>))
        ensures
            final(self).state.prompts == old(self).state.prompts,
            final(self).state.active_simulations == old(self).state.active_simulations,
            final(self).broadcaster == old(self).broadcaster,
            final(self).state.transactions.deep_view() == bulk_with_status(
                old(self).state.transactions.deep_view(),
                ids.deep_view(),
                status,
            ),
            r.0.deep_view() == bulk_matched_ids(
                old(self).state.transactions.deep_view(),
                ids.deep_view(),
            ),
            r.1.deep_view() == bulk_updated_snaps(
                old(self).state.transactions.deep_view(),
                ids.deep_view(),
                status,
            ),
            r.0@.len() == r.1@.len(),
    {
        let ghost dv = self.state.transactions.deep_view();
        let ghost idsdv = ids.deep_view();
        let mut updated_ids: Vec<String> = Vec::new();
        let mut events: Vec<Transaction> = Vec::new();
        let n = self.state.transactions.len();
        let mut i: usize = 0;
        while i < n
            invariant
                i <= n,
                self.state.transactions@.len() == n,
                dv.len() == n,
                idsdv == ids.deep_view(),
                self.state.prompts == old(self).state.prompts,
                self.state.active_simulations == old(self).state.active_simulations,
                self.broadcaster == old(self).broadcaster,
                forall|m: int|
                    i <= m < n ==> self.state.transactions@[m] == old(
                        self,
                    ).state.transactions@[m],
                forall|m: int| 0 <= m < n ==> dv[m] == (#[trigger] old(
                    self,
                ).state.transactions@[m])@,
                forall|m: int|
                    0 <= m < i ==> (#[trigger] self.state.transactions@[m])@ == bulk_elem(
                        dv[m],
                        idsdv,
                        status,
                    ),
                updated_ids@.len() == bulk_matched_ids(dv.take(i as int), idsdv).len(),
                forall|k: int|
                    0 <= k < updated_ids@.len() ==> (#[trigger] updated_ids@[k])@
                        == bulk_matched_ids(dv.take(i as int), idsdv)[k],
                events@.len() == bulk_updated_snaps(dv.take(i as int), idsdv, status).len(),
                forall|k: int|
                    0 <= k < events@.len() ==> (#[trigger] events@[k])@ == bulk_updated_snaps(
                        dv.take(i as int),
                        idsdv,
                        status,
                    )[k],
            decreases n - i,
        {
            proof {
                assert(dv.take(i as int + 1).drop_last() =~= dv.take(i as int));
                assert(dv.take(i as int + 1).last() == dv[i as int]);
                assert(self.state.transactions@[i as int]@ == dv[i as int]);
            }
            let hit = contains_string(ids, self.state.transactions[i].id.as_str());
            if hit {
                let t = elem_at_mut(&mut self.state.transactions, i);
                t.status = status;
                updated_ids.push(t.id.clone());
                events.push(t.snapshot());
            }
            i = i + 1;
        }
        proof {
            assert(dv.take(n as int) =~= dv);
            assert forall|m: int| 0 <= m < n implies self.state.transactions.deep_view()[m]
                == bulk_with_status(dv, idsdv, status)[m] by {
                assert(self.state.transactions@[m]@ == bulk_elem(dv[m], idsdv, status));
            }
            assert(self.state.transactions.deep_view() =~= bulk_with_status(dv, idsdv, status));
            assert forall|k: int| 0 <= k < updated_ids@.len() implies updated_ids.deep_view()[k]
                == bulk_matched_ids(dv, idsdv)[k] by {
                assert(updated_ids@[k]@ == bulk_matched_ids(dv, idsdv)[k]);
            }
            assert(updated_ids.deep_view() =~= bulk_matched_ids(dv, idsdv));
            assert forall|k: int| 0 <= k < events@.len() implies events.deep_view()[k]
                == bulk_updated_snaps(dv, idsdv, status)[k] by {
                assert(events@[k]@ == bulk_updated_snaps(dv, idsdv, status)[k]);
            }
            assert(events.deep_view() =~= bulk_updated_snaps(dv, idsdv, status));
            lemma_bulk_one_snap_per_id(dv, idsdv, status);
        }
        (updated_ids, events)
    }

    /// Writes a file's apply status, in both the block-embedded and the
    /// top-level representation, and returns the updated snapshot to
    /// broadcast; unknown ids yield `None` and leave the store unchanged.
    pub fn update_file_apply_status(
        &mut self,
        tx_id: &str,
        file_path: &str,
        status: FileApplyStatus,
        error: Option<String>,
    ) -> (r: Option<Transaction>)
        ensures
            final(self).state.prompts == old(self).state.prompts,
            final(self).state.active_simulations == old(self).state.active_simulations,
            final(self).broadcaster == old(self).broadcaster,
            !tx_has_id(old(self).state.transactions.deep_view(), tx_id@)
                ==> r is None && final(self).state.transactions == old(self).state.transactions,
            tx_has_id(old(self).state.transactions.deep_view(), tx_id@) ==> ({
                let dv = old(self).state.transactions.deep_view();
                let k = tx_index_of(dv, tx_id@);
                let updated = tx_with_file_status(dv[k], file_path@, status, error.deep_view());
                &&& final(self).state.transactions.deep_view() == dv.update(k, updated)
                &&& r matches Some(t) && t@ == updated
            }),
    {
        let ghost dv = self.state.transactions.deep_view();
        match find_index(&self.state.transactions, tx_id) {
            Some(i) => {
                proof {
                    lemma_tx_index_of(dv, tx_id@);
                }
                let t = elem_at_mut(&mut self.state.transactions, i);
                set_file_status_in_tx(t, file_path, status, &error);
                let snap = t.snapshot();
                proof {
                    let k = i as int;
                    let updated = tx_with_file_status(dv[k], file_path@, status, error.deep_view());
                    let target = dv.update(k, updated);
                    assert(self.state.transactions@[k]@ == updated);
                    assert forall|m: int|
                        0 <= m < dv.len() implies self.state.transactions.deep_view()[m]
                        == target[m] by {
                        if m != k {
                            assert(self.state.transactions@[m]
                                == old(self).state.transactions@[m]);
                        }
                    }
                    assert(self.state.transactions.deep_view() =~= target);
                }
                Some(snap)
            },
            None => None,
        }
    }

    /// The failed file paths of a transaction, scanning both the
    /// block-embedded and the top-level file lists; a path both lists hold
    /// appears twice. An unknown id yields an empty list.
    pub fn get_failed_files(&self, tx_id: &str) -> (r: Vec<String>)
        ensures
            tx_has_id(self.state.transactions.deep_view(), tx_id@) ==> r.deep_view()
                == failed_paths(
                self.state.transactions.deep_view()[tx_index_of(
                    self.state.transactions.deep_view(),
                    tx_id@,
                )],
            ),
            !tx_has_id(self.state.transactions.deep_view(), tx_id@) ==> r.deep_view()
                == Seq::<Seq<char>>::empty(),
    {
        let ghost dv = self.state.transactions.deep_view();
        let mut out: Vec<String> = Vec::new();
        match find_index(&self.state.transactions, tx_id) {
            Some(i) => {
                let t = &self.state.transactions[i];
                proof {
                    assert(t@ == dv[i as int]);
                }
                let mut j: usize = 0;
                while j < t.blocks.len()
                    invariant
                        j <= t.blocks.len(),
                        out@.len() == block_failed_paths(t@.blocks.take(j as int)).len(),
                        forall|k: int|
                            0 <= k < out@.len() ==> (#[trigger] out@[k])@ == block_failed_paths(
                                t@.blocks.take(j as int),
                            )[k],
                    decreases t.blocks.len() - j,
                {
                    proof {
                        assert(t@.blocks.take(j as int + 1).drop_last() =~= t@.blocks.take(
                            j as int,
                        ));
                        assert(t@.blocks.take(j as int + 1).last() == t@.blocks[j as int]);
                        assert(t.blocks@[j as int]@ == t@.blocks[j as int]);
                    }
                    let b = &t.blocks[j];
                    if str_eq(b.block_type.as_str(), "file") {
                        match &b.file {
                            Some(f) => {
                                if matches!(f.apply_status, FileApplyStatus::Failed) {
                                    out.push(f.path.clone());
                                }
                            },
                            None => {},
                        }
                    }
                    j = j + 1;
                }
                proof {
                    assert(t@.blocks.take(t.blocks@.len() as int) =~= t@.blocks);
                }
                let mut m: usize = 0;
                while m < t.files.len()
                    invariant
                        m <= t.files.len(),
                        out@.len() == block_failed_paths(t@.blocks).len() + file_failed_paths(
                            t@.files.take(m as int),
                        ).len(),
                        forall|k: int|
                            0 <= k < out@.len() ==> (#[trigger] out@[k])@ == (block_failed_paths(
                                t@.blocks,
                            ) + file_failed_paths(t@.files.take(m as int)))[k],
                    decreases t.files.len() - m,
                {
                    proof {
                        assert(t@.files.take(m as int + 1).drop_last() =~= t@.files.take(m as int));
                        assert(t@.files.take(m as int + 1).last() == t@.files[m as int]);
                        assert(t.files@[m as int]@ == t@.files[m as int]);
                    }
                    let f = &t.files[m];
                    if matches!(f.apply_status, FileApplyStatus::Failed) {
                        out.push(f.path.clone());
                    }
                    m = m + 1;
                }
                proof {
                    assert(t@.files.take(t.files@.len() as int) =~= t@.files);
                    assert forall|k: int| 0 <= k < out@.len() implies out.deep_view()[k]
                        == failed_paths(dv[i as int])[k] by {
                        assert(out@[k]@ == (block_failed_paths(t@.blocks) + file_failed_paths(
                            t@.files,
                        ))[k]);
                    }
                    assert(out.deep_view() =~= failed_paths(dv[i as int]));
                }
            },
            None => {
                proof {
                    assert(out.deep_view() =~= Seq::<Seq<char>>::empty());
                }
            },
        }
        out
    }

    /// Whether a simulation for the given id is registered as active.
    pub fn is_simulation_active(&self, id: &str) -> (r: bool)
        ensures
            r == self.state.active_simulations.deep_view().contains(id@),
    {
        contains_string(&self.state.active_simulations, id)
    }

    /// Registers an id as actively simulating; already-registered ids are
    /// left as they are.
    pub(crate) fn register_simulation(&mut self, id: &str)
        ensures
            final(self).state.transactions == old(self).state.transactions,
            final(self).state.prompts == old(self).state.prompts,
            final(self).broadcaster == old(self).broadcaster,
            old(self).state.active_simulations.deep_view().contains(id@)
                ==> final(self).state.active_simulations
                == old(self).state.active_simulations,
            !old(self).state.active_simulations.deep_view().contains(id@)
                ==> final(self).state.active_simulations.deep_view()
                == old(self).state.active_simulations.deep_view().push(id@),
    {
        let ghost pre = self.state.active_simulations.deep_view();
        if !contains_string(&self.state.active_simulations, id) {
            self.state.active_simulations.push(id.to_owned());
            proof {
                assert forall|k: int|
                    0 <= k < self.state.active_simulations@.len() implies self
                    .state
                    .active_simulations
                    .deep_view()[k] == pre.push(id@)[k] by {
                    assert(self.state.active_simulations.deep_view()[k]
                        == self.state.active_simulations@[k]@);
                    if k < pre.len() {
                        assert(self.state.active_simulations@[k]
                            == old(self).state.active_simulations@[k]);
                        assert(old(self).state.active_simulations@[k]@ == pre[k]);
                    }
                }
                assert(self.state.active_simulations.deep_view() =~= pre.push(id@));
            }
        }
    }

    /// Removes an id from the registry of active simulations.
    pub(crate) fn unregister_simulation(&mut self, id: &str)
        ensures
            final(self).state.transactions == old(self).state.transactions,
            final(self).state.prompts == old(self).state.prompts,
            final(self).broadcaster == old(self).broadcaster,
            final(self).state.active_simulations.deep_view() == without_id(
                old(self).state.active_simulations.deep_view(),
                id@,
            ),
    {
        let ghost pre = self.state.active_simulations.deep_view();
        let mut kept: Vec<String> = Vec::new();
        let n = self.state.active_simulations.len();
        let mut i: usize = 0;
        while i < n
            invariant
                i <= n,
                self.state.active_simulations@.len() == n,
                pre.len() == n,
                pre == self.state.active_simulations.deep_view(),
                kept@.len() == without_id(pre.take(i as int), id@).len(),
                forall|k: int|
                    0 <= k < kept@.len() ==> (#[trigger] kept@[k])@ == without_id(
                        pre.take(i as int),
                        id@,
                    )[k],
            decreases n - i,
        {
            proof {
                assert(pre.take(i as int + 1).drop_last() =~= pre.take(i as int));
                assert(pre.take(i as int + 1).last() == pre[i as int]);
                assert(self.state.active_simulations@[i as int]@ == pre[i as int]);
            }
            if !str_eq(self.state.active_simulations[i].as_str(), id) {
                kept.push(self.state.active_simulations[i].clone());
            }
            i = i + 1;
        }
        proof {
            assert(pre.take(n as int) =~= pre);
        }
        self.state.active_simulations = kept;
        proof {
            assert forall|k: int|
                0 <= k < self.state.active_simulations@.len() implies self
                .state
                .active_simulations
                .deep_view()[k] == without_id(pre, id@)[k] by {
                assert(self.state.active_simulations@[k]@ == without_id(pre, id@)[k]);
            }
            assert(self.state.active_simulations.deep_view() =~= without_id(pre, id@));
        }
    }
}

} // verus!
