//! Reapply engine: retries a single previously failed file, or every failed
//! file of a transaction, independently of the whole-transaction simulation.
//!
//! `reapply_file` synchronously writes the `Applying` marker and returns the
//! file event to broadcast at once; the caller then sleeps for the sampled
//! delay, draws the outcome, and writes it through `finish_reapply`. So the
//! immediate event is always `Applying`, and every later event of the retry
//! carries a terminal status.

use vstd::prelude::*;

use crate::model::FileApplyStatus;
use crate::model::FileEventView;
use crate::model::FileStatusEvent;
use crate::model::TransactionView;
use crate::model::clone_opt_string;
use crate::simulation::random_in_range;
use crate::store::Store;
use crate::store::failed_paths;
use crate::store::lemma_tx_index_of;
use crate::store::lemma_tx_index_of_is_first;
use crate::store::tx_has_id;
use crate::store::tx_index_of;
use crate::store::tx_with_file_status;

verus! {

/// The message a failed retry carries.
pub fn retry_failed_message() -> (r: String)
    ensures
        r@ == "Retry failed: unresolved conflict"@,
{
    "Retry failed: unresolved conflict".to_owned()
}

/// What a retry draw may resolve to: a terminal status — applied with no
/// message, or failed with the retry message — never another `Applying`.
pub open spec fn reapply_outcome_ok(st: FileApplyStatus, err: Option<Seq<char>>) -> bool {
    &&& (st == FileApplyStatus::Applied || st == FileApplyStatus::Failed)
    &&& (st == FileApplyStatus::Applied <==> err is None)
    &&& (st == FileApplyStatus::Failed ==> err == Some("Retry failed: unresolved conflict"@))
}

/// A retry outcome is terminal: never `Applying`, never `Pending`. Together
/// with the contract of [`reapply_file`], whose immediate event is always
/// `Applying`, the `Applying` event of a retry precedes every terminal
/// event the retry can produce for that path.
pub proof fn lemma_reapply_outcome_terminal(st: FileApplyStatus, err: Option<Seq<char>>)
    requires
        reapply_outcome_ok(st, err),
    ensures
        st != FileApplyStatus::Applying,
        st != FileApplyStatus::Pending,
{
}

/// Resolves a retry draw from 0 to 999: 300 and above succeed — seven in
/// ten — and the rest fail with the retry message.
pub fn resolve_reapply_draw(draw: u64) -> (r: (FileApplyStatus, Option<String>))
    ensures
        r.0 == (if draw >= 300 {
            FileApplyStatus::Applied
        } else {
            FileApplyStatus::Failed
        }),
        r.1 is Some <==> draw < 300,
        reapply_outcome_ok(r.0, r.1.deep_view()),
{
    if draw >= 300 {
        (FileApplyStatus::Applied, None)
    } else {
        (FileApplyStatus::Failed, Some(retry_failed_message()))
    }
}

/// Draws a retry outcome at random: applied with probability seven in ten,
/// else failed with the retry message.
pub fn sample_reapply_outcome() -> (r: (FileApplyStatus, Option<String>))
    ensures
        reapply_outcome_ok(r.0, r.1.deep_view()),
{
    let draw = random_in_range(0, 999);
    resolve_reapply_draw(draw)
}

/// The randomized delay before a retry resolves, in milliseconds.
pub fn sample_reapply_delay_ms() -> (r: u64)
    ensures
        800 <= r <= 1200,
{
    random_in_range(800, 1200)
}

/// Begins a retry of one file: sets its apply status to `Applying` and
/// clears its error in both representations, and returns the immediate
/// `Applying` event to broadcast. The event is returned even if the
/// transaction is unknown.
pub fn reapply_file(store: &mut Store, id: &str, file_path: &str) -> (e: FileStatusEvent)
    ensures
        e@.transaction_id == id@,
        e@.file_path == file_path@,
        e@.apply_status == FileApplyStatus::Applying,
        e@.error_message is None,
        final(store).state.prompts == old(store).state.prompts,
        final(store).state.active_simulations == old(store).state.active_simulations,
        final(store).broadcaster == old(store).broadcaster,
        !tx_has_id(old(store).state.transactions.deep_view(), id@)
            ==> final(store).state.transactions == old(store).state.transactions,
        tx_has_id(old(store).state.transactions.deep_view(), id@) ==> ({
            let dv = old(store).state.transactions.deep_view();
            let k = tx_index_of(dv, id@);
            final(store).state.transactions.deep_view() == dv.update(
                k,
                tx_with_file_status(dv[k], file_path@, FileApplyStatus::Applying, None),
            )
        }),
{
    let _ = store.update_file_apply_status(id, file_path, FileApplyStatus::Applying, None);
    FileStatusEvent {
        transaction_id: id.to_owned(),
        file_path: file_path.to_owned(),
        apply_status: FileApplyStatus::Applying,
        error_message: None,
    }
}

/// Ends a retry of one file: writes the drawn outcome into both
/// representations and returns the terminal event to broadcast, exactly
/// once per retry. The event is returned even if the transaction is
/// unknown.
pub fn finish_reapply(
    store: &mut Store,
    id: &str,
    file_path: &str,
    status: FileApplyStatus,
    error: Option<String>,
) -> (e: FileStatusEvent)
    ensures
        e@.transaction_id == id@,
        e@.file_path == file_path@,
        e@.apply_status == status,
        e@.error_message == error.deep_view(),
        final(store).state.prompts == old(store).state.prompts,
        final(store).state.active_simulations == old(store).state.active_simulations,
        final(store).broadcaster == old(store).broadcaster,
        !tx_has_id(old(store).state.transactions.deep_view(), id@)
            ==> final(store).state.transactions == old(store).state.transactions,
        tx_has_id(old(store).state.transactions.deep_view(), id@) ==> ({
            let dv = old(store).state.transactions.deep_view();
            let k = tx_index_of(dv, id@);
            final(store).state.transactions.deep_view() == dv.update(
                k,
                tx_with_file_status(dv[k], file_path@, status, error.deep_view()),
            )
        }),
{
    let _ = store.update_file_apply_status(id, file_path, status, clone_opt_string(&error));
    FileStatusEvent {
        transaction_id: id.to_owned(),
        file_path: file_path.to_owned(),
        apply_status: status,
        error_message: error,
    }
}

/// A transaction after the `Applying` markers of a batch retry: the paths
/// are written back to front of the list, in order.
pub open spec fn set_paths_applying(t: TransactionView, paths: Seq<Seq<char>>) -> TransactionView
    decreases paths.len(),
{
    if paths.len() == 0 {
        t
    } else {
        tx_with_file_status(
            set_paths_applying(t, paths.drop_last()),
            paths.last(),
            FileApplyStatus::Applying,
            None,
        )
    }
}

/// Writing apply statuses never changes a transaction's id.
pub proof fn lemma_set_paths_applying_id(t: TransactionView, paths: Seq<Seq<char>>)
    ensures
        set_paths_applying(t, paths).id == t.id,
    decreases paths.len(),
{
    if paths.len() > 0 {
        lemma_set_paths_applying_id(t, paths.drop_last());
    }
}

/// Updating the found transaction in place leaves it the first match.
pub proof fn lemma_tx_index_of_update(
    txs: Seq<TransactionView>,
    id: Seq<char>,
    t2: TransactionView,
)
    requires
        tx_has_id(txs, id),
        t2.id == txs[tx_index_of(txs, id)].id,
    ensures
        tx_has_id(txs.update(tx_index_of(txs, id), t2), id),
        tx_index_of(txs.update(tx_index_of(txs, id), t2), id) == tx_index_of(txs, id),
{
    lemma_tx_index_of(txs, id);
    let k = tx_index_of(txs, id);
    let u = txs.update(k, t2);
    assert(u[k].id == id);
    assert forall|m: int| 0 <= m < k implies (#[trigger] u[m].id) != id by {
        assert(u[m] == txs[m]);
    }
    lemma_tx_index_of_is_first(u, id, k);
}

/// The `Applying` events a batch retry broadcasts, one per path, in order.
pub open spec fn applying_events(id: Seq<char>, paths: Seq<Seq<char>>) -> Seq<FileEventView> {
    paths.map_values(
        |p: Seq<char>|
            FileEventView {
                transaction_id: id,
                file_path: p,
                apply_status: FileApplyStatus::Applying,
                error_message: None,
            },
    )
}

/// Retries every currently failed file of a transaction: reads the failed
/// list, then begins one independent retry per path. Returns the immediate
/// `Applying` events, in list order; the caller broadcasts each and spawns
/// one resolver per path. No aggregate completion signal exists.
pub fn reapply_all_failed(store: &mut Store, id: &str) -> (r: Vec<FileStatusEvent>)
    ensures
        final(store).state.prompts == old(store).state.prompts,
        final(store).state.active_simulations == old(store).state.active_simulations,
        final(store).broadcaster == old(store).broadcaster,
        !tx_has_id(old(store).state.transactions.deep_view(), id@)
            ==> final(store).state.transactions == old(store).state.transactions && r@.len() == 0,
        tx_has_id(old(store).state.transactions.deep_view(), id@) ==> ({
            let dv = old(store).state.transactions.deep_view();
            let k = tx_index_of(dv, id@);
            let failed = failed_paths(dv[k]);
            &&& final(store).state.transactions.deep_view() == dv.update(
                k,
                set_paths_applying(dv[k], failed),
            )
            &&& r.deep_view() == applying_events(id@, failed)
        }),
{
    let ghost dv = store.state.transactions.deep_view();
    let failed = store.get_failed_files(id);
    let ghost fp = failed.deep_view();
    let mut events: Vec<FileStatusEvent> = Vec::new();
    let n = failed.len();
    proof {
        if tx_has_id(dv, id@) {
            lemma_tx_index_of(dv, id@);
            let k = tx_index_of(dv, id@);
            assert(dv.update(k, set_paths_applying(dv[k], fp.take(0))) =~= dv);
        }
    }
    let mut i: usize = 0;
    while i < n
        invariant
            i <= n,
            failed@.len() == n,
            fp.len() == n,
            fp == failed.deep_view(),
            store.state.prompts == old(store).state.prompts,
            store.state.active_simulations == old(store).state.active_simulations,
            store.broadcaster == old(store).broadcaster,
            !tx_has_id(dv, id@) ==> store.state.transactions == old(store).state.transactions,
            tx_has_id(dv, id@) ==> ({
                let k = tx_index_of(dv, id@);
                store.state.transactions.deep_view() == dv.update(
                    k,
                    set_paths_applying(dv[k], fp.take(i as int)),
                )
            }),
            events@.len() == i,
            forall|m: int|
                0 <= m < i ==> (#[trigger] events@[m])@ == applying_events(id@, fp)[m],
            dv == old(store).state.transactions.deep_view(),
        decreases n - i,
    {
        proof {
            assert(failed@[i as int]@ == fp[i as int]);
            if tx_has_id(dv, id@) {
                let k = tx_index_of(dv, id@);
                lemma_tx_index_of(dv, id@);
                lemma_set_paths_applying_id(dv[k], fp.take(i as int));
                lemma_tx_index_of_update(dv, id@, set_paths_applying(dv[k], fp.take(i as int)));
            } else {
                lemma_tx_index_of(dv, id@);
            }
        }
        let e = reapply_file(store, id, failed[i].as_str());
        proof {
            if tx_has_id(dv, id@) {
                let k = tx_index_of(dv, id@);
                let prev = set_paths_applying(dv[k], fp.take(i as int));
                let next = set_paths_applying(dv[k], fp.take(i as int + 1));
                assert(fp.take(i as int + 1).drop_last() =~= fp.take(i as int));
                assert(fp.take(i as int + 1).last() == fp[i as int]);
                assert(next == tx_with_file_status(
                    prev,
                    fp[i as int],
                    FileApplyStatus::Applying,
                    None,
                ));
                assert(dv.update(k, prev).update(k, next) =~= dv.update(k, next));
            }
        }
        events.push(e);
        i = i + 1;
    }
    proof {
        assert(fp.take(n as int) =~= fp);
        if tx_has_id(dv, id@) {
            lemma_tx_index_of(dv, id@);
        }
        assert forall|m: int| 0 <= m < events@.len() implies events.deep_view()[m]
            == applying_events(id@, fp)[m] by {
            assert(events@[m]@ == applying_events(id@, fp)[m]);
        }
        assert(events.deep_view() =~= applying_events(id@, fp));
    }
    events
}

} // verus!
