//! Simulation engine: drives a transaction from `Applying` through per-file
//! progress to a terminal outcome, under a scenario policy.
//!
//! The store transitions here are synchronous and verified; the caller owns
//! the timing (it sleeps for the sampled delays between steps) and the
//! broadcasting of the returned snapshots and events.

use vstd::prelude::*;

use rand::Rng;

use crate::model::BlockView;
use crate::model::FileApplyStatus;
use crate::model::FileStatusEvent;
use crate::model::FileView;
use crate::model::SimulationScenario;
use crate::model::Transaction;
use crate::model::TransactionStatus;
use crate::model::TransactionView;
use crate::model::clone_opt_string;
use crate::store::Store;
use crate::store::tx_has_id;
use crate::store::tx_index_of;
use crate::store::tx_with_file_status;
use crate::store::with_status;
use crate::text::str_eq;

verus! {

/// Relies on rand::thread_rng and rand::Rng::gen_range over an inclusive
/// range: a uniformly sampled value within the bounds. An empty range
/// panics, so the bounds must be ordered.
#[verifier::external_body]
pub(crate) fn random_in_range(lo: u64, hi: u64) -> (r: u64)
    requires
        lo <= hi,
    ensures
        lo <= r <= hi,
{
    rand::thread_rng().gen_range(lo..=hi)
}

/// The inclusive band, in milliseconds, a scenario's total duration is
/// sampled from.
pub open spec fn spec_duration_band(scenario: Option<SimulationScenario>) -> (u64, u64) {
    match scenario {
        Some(SimulationScenario::FastSuccess) => (500u64, 1000u64),
        Some(SimulationScenario::LongRunning) => (8000u64, 12000u64),
        _ => (2000u64, 6000u64),
    }
}

/// The duration band of a scenario.
pub fn duration_band(scenario: Option<SimulationScenario>) -> (r: (u64, u64))
    ensures
        r == spec_duration_band(scenario),
{
    match scenario {
        Some(SimulationScenario::FastSuccess) => (500, 1000),
        Some(SimulationScenario::LongRunning) => (8000, 12000),
        _ => (2000, 6000),
    }
}

/// Samples a total duration uniformly from the scenario's band.
pub fn sample_duration_ms(scenario: Option<SimulationScenario>) -> (r: u64)
    ensures
        spec_duration_band(scenario).0 <= r <= spec_duration_band(scenario).1,
{
    let (lo, hi) = duration_band(scenario);
    random_in_range(lo, hi)
}

/// The delay before each file's outcome lands: the total duration divided
/// across twice the file count; zero files mean no per-file delay.
pub open spec fn spec_file_delay(duration: u64, file_count: int) -> int {
    if file_count > 0 {
        duration as int / (2 * file_count)
    } else {
        0
    }
}

/// The per-file delay, in milliseconds.
pub fn file_delay_ms(duration: u64, file_count: usize) -> (r: u64)
    ensures
        r == spec_file_delay(duration, file_count as int),
{
    if file_count == 0 {
        0
    } else {
        let d: u128 = (duration as u128) / ((file_count as u128) * 2);
        proof {
            assert(d as int == duration as int / (file_count as int * 2));
            assert(d as int <= duration as int) by (nonlinear_arith)
                requires
                    d as int == duration as int / (file_count as int * 2),
                    file_count as int >= 1,
                    duration as int >= 0,
            ;
        }
        d as u64
    }
}

/// The outcome a scenario injects for the file at a 0-indexed position:
/// `simulated-failure` fails every file, `partial-failure` fails every
/// third file, anything else succeeds.
pub open spec fn scenario_file_status(
    scenario: Option<SimulationScenario>,
    idx: int,
) -> FileApplyStatus {
    match scenario {
        Some(SimulationScenario::SimulatedFailure) => FileApplyStatus::Failed,
        Some(SimulationScenario::PartialFailure) => if idx % 3 == 2 {
            FileApplyStatus::Failed
        } else {
            FileApplyStatus::Applied
        },
        _ => FileApplyStatus::Applied,
    }
}

/// The error message an injected failure carries, and `None` on success.
pub open spec fn scenario_file_error(scenario: Option<SimulationScenario>, idx: int) -> Option<
    Seq<char>,
> {
    if scenario_file_status(scenario, idx) == FileApplyStatus::Failed {
        Some("Patch conflict: file content mismatch"@)
    } else {
        None
    }
}

/// The message an injected patch failure carries.
pub fn patch_conflict_message() -> (r: String)
    ensures
        r@ == "Patch conflict: file content mismatch"@,
{
    "Patch conflict: file content mismatch".to_owned()
}

/// The status and error message a scenario injects at a position.
pub fn scenario_file_outcome(scenario: Option<SimulationScenario>, idx: usize) -> (r: (
    FileApplyStatus,
    Option<String>,
))
    ensures
        r.0 == scenario_file_status(scenario, idx as int),
        r.1.deep_view() == scenario_file_error(scenario, idx as int),
{
    let st = match scenario {
        Some(SimulationScenario::SimulatedFailure) => FileApplyStatus::Failed,
        Some(SimulationScenario::PartialFailure) => if idx % 3 == 2 {
            FileApplyStatus::Failed
        } else {
            FileApplyStatus::Applied
        },
        _ => FileApplyStatus::Applied,
    };
    let err = if matches!(st, FileApplyStatus::Failed) {
        Some(patch_conflict_message())
    } else {
        None
    };
    (st, err)
}

/// The paths a simulation drips over: one per entry of the transaction's
/// file sequence, in order. Each drip step writes both representations of
/// its path, so the block-embedded copies follow along.
pub open spec fn sim_file_paths(t: TransactionView) -> Seq<Seq<char>> {
    t.files.map_values(|f: FileView| f.path)
}

/// The drip list of a transaction.
pub fn simulation_file_paths(t: &Transaction) -> (r: Vec<String>)
    ensures
        r.deep_view() == sim_file_paths(t@),
{
    let mut out: Vec<String> = Vec::new();
    let mut m: usize = 0;
    while m < t.files.len()
        invariant
            m <= t.files.len(),
            out@.len() == m,
            forall|k: int| 0 <= k < m ==> (#[trigger] out@[k])@ == t@.files[k].path,
        decreases t.files.len() - m,
    {
        proof {
            assert(t.files@[m as int]@ == t@.files[m as int]);
        }
        out.push(t.files[m].path.clone());
        m = m + 1;
    }
    proof {
        assert forall|k: int| 0 <= k < out@.len() implies out.deep_view()[k] == sim_file_paths(
            t@,
        )[k] by {
            assert(out.deep_view()[k] == out@[k]@);
        }
        assert(out.deep_view() =~= sim_file_paths(t@));
    }
    out
}

/// Whether a simulation start is accepted: the id is not registered active,
/// the transaction exists, and it is `Pending`.
pub open spec fn sim_guard_ok(
    txs: Seq<TransactionView>,
    active: Seq<Seq<char>>,
    id: Seq<char>,
) -> bool {
    &&& !active.contains(id)
    &&& tx_has_id(txs, id)
    &&& txs[tx_index_of(txs, id)].status == TransactionStatus::Pending
}

/// How one drip step changes the transactions: the scenario's outcome for
/// position `idx` lands in both file representations of the transaction
/// with the id; an unknown id changes nothing.
pub open spec fn scenario_write(
    pre: Seq<TransactionView>,
    post: Seq<TransactionView>,
    id: Seq<char>,
    path: Seq<char>,
    scenario: Option<SimulationScenario>,
    idx: int,
) -> bool {
    if tx_has_id(pre, id) {
        let k = tx_index_of(pre, id);
        post == pre.update(
            k,
            tx_with_file_status(
                pre[k],
                path,
                scenario_file_status(scenario, idx),
                scenario_file_error(scenario, idx),
            ),
        )
    } else {
        post == pre
    }
}

/// Begins a simulation: if the id is not registered active and the
/// transaction is `Pending`, registers the id, moves the transaction to
/// `Applying`, and returns the snapshot to broadcast together with the drip
/// list; otherwise it is a silent no-op and the store is unchanged.
pub fn start_simulation(store: &mut Store, id: &str) -> (r: Option<(Transaction, Vec<String>)>)
    ensures
        final(store).state.prompts == old(store).state.prompts,
        final(store).broadcaster == old(store).broadcaster,
        !sim_guard_ok(
            old(store).state.transactions.deep_view(),
            old(store).state.active_simulations.deep_view(),
            id@,
        ) ==> r is None && final(store).state == old(store).state,
        sim_guard_ok(
            old(store).state.transactions.deep_view(),
            old(store).state.active_simulations.deep_view(),
            id@,
        ) ==> ({
            let dv = old(store).state.transactions.deep_view();
            let k = tx_index_of(dv, id@);
            let updated = with_status(dv[k], TransactionStatus::Applying);
            &&& final(store).state.active_simulations.deep_view() == old(
                store,
            ).state.active_simulations.deep_view().push(id@)
            &&& final(store).state.transactions.deep_view() == dv.update(k, updated)
            &&& r matches Some(p) && p.0@ == updated && p.1.deep_view() == sim_file_paths(dv[k])
        }),
{
    if store.is_simulation_active(id) {
        return None;
    }
    let pending = match store.get_transaction(id) {
        Some(t) => matches!(t.status, TransactionStatus::Pending),
        None => false,
    };
    if !pending {
        return None;
    }
    store.register_simulation(id);
    match store.update_transaction_status(id, TransactionStatus::Applying) {
        Some(t) => {
            let paths = simulation_file_paths(&t);
            proof {
                let dv = old(store).state.transactions.deep_view();
                let k = tx_index_of(dv, id@);
                assert(sim_file_paths(with_status(dv[k], TransactionStatus::Applying))
                    == sim_file_paths(dv[k]));
            }
            Some((t, paths))
        },
        None => {
            proof {
                assert(false);
            }
            None
        },
    }
}

/// One drip step of a simulation: writes the scenario's outcome for the
/// file at `idx` into both representations and returns the file event to
/// broadcast. The event is returned even if the transaction has vanished.
pub fn simulation_file_step(
    store: &mut Store,
    id: &str,
    file_path: &str,
    scenario: Option<SimulationScenario>,
    idx: usize,
) -> (e: FileStatusEvent)
    ensures
        e@.transaction_id == id@,
        e@.file_path == file_path@,
        e@.apply_status == scenario_file_status(scenario, idx as int),
        e@.error_message == scenario_file_error(scenario, idx as int),
        final(store).state.prompts == old(store).state.prompts,
        final(store).state.active_simulations == old(store).state.active_simulations,
        final(store).broadcaster == old(store).broadcaster,
        scenario_write(
            old(store).state.transactions.deep_view(),
            final(store).state.transactions.deep_view(),
            id@,
            file_path@,
            scenario,
            idx as int,
        ),
{
    let (st, err) = scenario_file_outcome(scenario, idx);
    let _ = store.update_file_apply_status(id, file_path, st, clone_opt_string(&err));
    FileStatusEvent {
        transaction_id: id.to_owned(),
        file_path: file_path.to_owned(),
        apply_status: st,
        error_message: err,
    }
}

/// The terminal status of a run: `simulated-failure` always fails;
/// `partial-failure` aggregates the per-file outcomes; anything else is
/// applied.
pub open spec fn terminal_status(
    scenario: Option<SimulationScenario>,
    applied: int,
    failed: int,
) -> TransactionStatus {
    match scenario {
        Some(SimulationScenario::SimulatedFailure) => TransactionStatus::Failed,
        Some(SimulationScenario::PartialFailure) => if failed == 0 {
            TransactionStatus::Applied
        } else if applied == 0 {
            TransactionStatus::Failed
        } else {
            TransactionStatus::PartiallyApplied
        },
        _ => TransactionStatus::Applied,
    }
}

/// The number of file-typed blocks whose embedded file has the status.
pub open spec fn block_status_count(blocks: Seq<BlockView>, st: FileApplyStatus) -> int
    decreases blocks.len(),
{
    if blocks.len() == 0 {
        0int
    } else {
        let rest = block_status_count(blocks.drop_last(), st);
        let b = blocks.last();
        match b.file {
            Some(f) => if b.block_type == "file"@ && f.apply_status == st {
                rest + 1
            } else {
                rest
            },
            None => rest,
        }
    }
}

/// The number of top-level file entries with the status.
pub open spec fn file_status_count(files: Seq<FileView>, st: FileApplyStatus) -> int
    decreases files.len(),
{
    if files.len() == 0 {
        0int
    } else {
        let rest = file_status_count(files.drop_last(), st);
        if files.last().apply_status == st {
            rest + 1
        } else {
            rest
        }
    }
}

/// How many files of a transaction carry the status, over both
/// representations.
pub open spec fn tx_status_count(t: TransactionView, st: FileApplyStatus) -> int {
    block_status_count(t.blocks, st) + file_status_count(t.files, st)
}

/// Counts the file-typed blocks whose embedded file carries the status.
pub fn count_block_files_with_status(t: &Transaction, st: FileApplyStatus) -> (r: usize)
    ensures
        r as int == block_status_count(t@.blocks, st),
{
    let mut c: usize = 0;
    let mut j: usize = 0;
    while j < t.blocks.len()
        invariant
            j <= t.blocks.len(),
            c as int == block_status_count(t@.blocks.take(j as int), st),
            c <= j,
        decreases t.blocks.len() - j,
    {
        proof {
            assert(t@.blocks.take(j as int + 1).drop_last() =~= t@.blocks.take(j as int));
            assert(t@.blocks.take(j as int + 1).last() == t@.blocks[j as int]);
            assert(t.blocks@[j as int]@ == t@.blocks[j as int]);
            assert(block_status_count(t@.blocks.take(j as int), st) <= j) by {
                lemma_block_status_count_bound(t@.blocks.take(j as int), st);
            }
        }
        let b = &t.blocks[j];
        if str_eq(b.block_type.as_str(), "file") {
            match &b.file {
                Some(f) => {
                    if f.apply_status == st {
                        c = c + 1;
                    }
                },
                None => {},
            }
        }
        j = j + 1;
    }
    proof {
        assert(t@.blocks.take(t.blocks@.len() as int) =~= t@.blocks);
    }
    c
}

/// A block count never exceeds the number of blocks.
pub proof fn lemma_block_status_count_bound(blocks: Seq<BlockView>, st: FileApplyStatus)
    ensures
        0 <= block_status_count(blocks, st) <= blocks.len(),
    decreases blocks.len(),
{
    if blocks.len() > 0 {
        lemma_block_status_count_bound(blocks.drop_last(), st);
    }
}

/// Counts the top-level file entries carrying the status.
pub fn count_top_files_with_status(t: &Transaction, st: FileApplyStatus) -> (r: usize)
    ensures
        r as int == file_status_count(t@.files, st),
{
    let mut c: usize = 0;
    let mut m: usize = 0;
    while m < t.files.len()
        invariant
            m <= t.files.len(),
            c as int == file_status_count(t@.files.take(m as int), st),
            c <= m,
        decreases t.files.len() - m,
    {
        proof {
            assert(t@.files.take(m as int + 1).drop_last() =~= t@.files.take(m as int));
            assert(t@.files.take(m as int + 1).last() == t@.files[m as int]);
            assert(t.files@[m as int]@ == t@.files[m as int]);
        }
        if t.files[m].apply_status == st {
            c = c + 1;
        }
        m = m + 1;
    }
    proof {
        assert(t@.files.take(t.files@.len() as int) =~= t@.files);
    }
    c
}

/// The terminal status, from the scenario and the per-representation
/// counts of applied and failed files.
pub fn compute_terminal_status(
    scenario: Option<SimulationScenario>,
    applied_blocks: usize,
    applied_files: usize,
    failed_blocks: usize,
    failed_files: usize,
) -> (r: TransactionStatus)
    ensures
        r == terminal_status(
            scenario,
            applied_blocks as int + applied_files as int,
            failed_blocks as int + failed_files as int,
        ),
{
    match scenario {
        Some(SimulationScenario::SimulatedFailure) => TransactionStatus::Failed,
        Some(SimulationScenario::PartialFailure) => if failed_blocks == 0 && failed_files == 0 {
            TransactionStatus::Applied
        } else if applied_blocks == 0 && applied_files == 0 {
            TransactionStatus::Failed
        } else {
            TransactionStatus::PartiallyApplied
        },
        _ => TransactionStatus::Applied,
    }
}

/// Ends a simulation: writes the terminal status computed from the current
/// per-file outcomes, unregisters the id — always, as the run's final
/// action — and returns the snapshot to broadcast.
pub fn finish_simulation(store: &mut Store, id: &str, scenario: Option<SimulationScenario>) -> (r:
    Option<Transaction>)
    ensures
        final(store).state.prompts == old(store).state.prompts,
        final(store).broadcaster == old(store).broadcaster,
        final(store).state.active_simulations.deep_view() == crate::store::without_id(
            old(store).state.active_simulations.deep_view(),
            id@,
        ),
        !tx_has_id(old(store).state.transactions.deep_view(), id@)
            ==> r is None && final(store).state.transactions == old(store).state.transactions,
        tx_has_id(old(store).state.transactions.deep_view(), id@) ==> ({
            let dv = old(store).state.transactions.deep_view();
            let k = tx_index_of(dv, id@);
            let ts = terminal_status(
                scenario,
                tx_status_count(dv[k], FileApplyStatus::Applied),
                tx_status_count(dv[k], FileApplyStatus::Failed),
            );
            &&& final(store).state.transactions.deep_view() == dv.update(k, with_status(dv[k], ts))
            &&& r matches Some(t) && t@ == with_status(dv[k], ts)
        }),
{
    let r = match store.get_transaction(id) {
        Some(t) => {
            let ab = count_block_files_with_status(&t, FileApplyStatus::Applied);
            let af = count_top_files_with_status(&t, FileApplyStatus::Applied);
            let fb = count_block_files_with_status(&t, FileApplyStatus::Failed);
            let ff = count_top_files_with_status(&t, FileApplyStatus::Failed);
            let ts = compute_terminal_status(scenario, ab, af, fb, ff);
            store.update_transaction_status(id, ts)
        },
        None => None,
    };
    store.unregister_simulation(id);
    r
}

/// Law: a start for a transaction that is not `Pending` is rejected, and a
/// rejected start leaves the transactions and the registry exactly as they
/// were (the contract of [`start_simulation`]).
pub proof fn lemma_start_requires_pending(
    txs: Seq<TransactionView>,
    active: Seq<Seq<char>>,
    id: Seq<char>,
)
    requires
        tx_has_id(txs, id),
        txs[tx_index_of(txs, id)].status != TransactionStatus::Pending,
    ensures
        !sim_guard_ok(txs, active, id),
{
}

/// Law: of two overlapping starts for one id, exactly one is accepted. Once
/// a start registers the id, the guard rejects every further start —
/// whatever the transactions look like meanwhile — until the run's final
/// action unregisters the id. So each accepted start produces exactly one
/// run, and that run writes and broadcasts exactly one terminal status.
pub proof fn lemma_simulation_start_idempotent(
    txs: Seq<TransactionView>,
    active: Seq<Seq<char>>,
    id: Seq<char>,
    txs2: Seq<TransactionView>,
)
    requires
        sim_guard_ok(txs, active, id),
    ensures
        !sim_guard_ok(txs2, active.push(id), id),
{
    assert(active.push(id)[active.len() as int] == id);
    assert(active.push(id).contains(id));
}

/// Whether a block is a file block: typed `"file"` with an embedded file.
pub open spec fn is_file_block(b: BlockView) -> bool {
    b.block_type == "file"@ && b.file is Some
}

/// The path of a block's embedded file, if any.
pub open spec fn block_file_path(b: BlockView) -> Seq<char> {
    match b.file {
        Some(f) => f.path,
        None => Seq::empty(),
    }
}

/// The apply status of a block's embedded file, if any.
pub open spec fn block_file_status(b: BlockView) -> FileApplyStatus {
    match b.file {
        Some(f) => f.apply_status,
        None => FileApplyStatus::Pending,
    }
}

/// A transaction after the first `upto` drip steps of a run.
pub open spec fn after_file_steps(
    t: TransactionView,
    scenario: Option<SimulationScenario>,
    paths: Seq<Seq<char>>,
    upto: int,
) -> TransactionView
    decreases upto,
{
    if upto <= 0 {
        t
    } else {
        tx_with_file_status(
            after_file_steps(t, scenario, paths, upto - 1),
            paths[upto - 1],
            scenario_file_status(scenario, upto - 1),
            scenario_file_error(scenario, upto - 1),
        )
    }
}

/// After the first `upto` steps of a simulated-failure run, the shape of
/// the transaction is unchanged and every file covered by those steps — in
/// either representation — is `Failed`.
pub proof fn lemma_failure_steps(t: TransactionView, paths: Seq<Seq<char>>, upto: int)
    requires
        0 <= upto <= paths.len(),
    ensures
        ({
            let u = after_file_steps(t, Some(SimulationScenario::SimulatedFailure), paths, upto);
            &&& u.blocks.len() == t.blocks.len()
            &&& u.files.len() == t.files.len()
            &&& forall|j: int|
                0 <= j < t.blocks.len() ==> (#[trigger] u.blocks[j]).block_type
                    == t.blocks[j].block_type && (u.blocks[j].file is Some <==> t.blocks[j].file
                    is Some) && block_file_path(u.blocks[j]) == block_file_path(t.blocks[j])
            &&& forall|j: int|
                0 <= j < t.files.len() ==> (#[trigger] u.files[j]).path == t.files[j].path
            &&& forall|j: int|
                (0 <= j < t.blocks.len() && is_file_block(#[trigger] t.blocks[j]) && paths.take(
                    upto,
                ).contains(block_file_path(t.blocks[j]))) ==> block_file_status(u.blocks[j])
                    == FileApplyStatus::Failed
            &&& forall|j: int|
                (0 <= j < t.files.len() && paths.take(upto).contains(
                    (#[trigger] t.files[j]).path,
                )) ==> u.files[j].apply_status == FileApplyStatus::Failed
        }),
    decreases upto,
{
    let scenario = Some(SimulationScenario::SimulatedFailure);
    if upto > 0 {
        lemma_failure_steps(t, paths, upto - 1);
        let prev = after_file_steps(t, scenario, paths, upto - 1);
        let u = after_file_steps(t, scenario, paths, upto);
        let p = paths[upto - 1];
        assert(paths.take(upto).drop_last() =~= paths.take(upto - 1));
        assert(paths.take(upto).last() == p);
        assert forall|j: int|
            (0 <= j < t.blocks.len() && is_file_block(#[trigger] t.blocks[j]) && paths.take(
                upto,
            ).contains(block_file_path(t.blocks[j]))) implies block_file_status(u.blocks[j])
            == FileApplyStatus::Failed by {
            crate::store::lemma_contains_split(paths.take(upto), block_file_path(t.blocks[j]));
            assert(u.blocks[j] == crate::store::block_file_updated(
                prev.blocks[j],
                p,
                FileApplyStatus::Failed,
                scenario_file_error(scenario, upto - 1),
            ));
        }
        assert forall|j: int|
            (0 <= j < t.files.len() && paths.take(upto).contains(
                (#[trigger] t.files[j]).path,
            )) implies u.files[j].apply_status == FileApplyStatus::Failed by {
            crate::store::lemma_contains_split(paths.take(upto), t.files[j].path);
            assert(u.files[j] == crate::store::file_entry_updated(
                prev.files[j],
                p,
                FileApplyStatus::Failed,
                scenario_file_error(scenario, upto - 1),
            ));
        }
    } else {
        assert(paths.take(0).len() == 0);
    }
}

/// Law: a full simulated-failure run leaves every file of the transaction —
/// every file block and every top-level entry — `Failed`, and its terminal
/// transaction status is `Failed`. The premise is the store invariant that
/// the two representations are kept in lock-step: every block-embedded file
/// also stands in the top-level list.
pub proof fn lemma_simulated_failure_outcome(t: TransactionView)
    requires
        forall|j: int|
            0 <= j < t.blocks.len() && is_file_block(#[trigger] t.blocks[j]) ==> exists|m: int|
                0 <= m < t.files.len() && (#[trigger] t.files[m]).path == block_file_path(
                    t.blocks[j],
                ),
    ensures
        ({
            let paths = sim_file_paths(t);
            let u = after_file_steps(
                t,
                Some(SimulationScenario::SimulatedFailure),
                paths,
                paths.len() as int,
            );
            &&& forall|j: int|
                (0 <= j < u.blocks.len() && is_file_block(#[trigger] t.blocks[j]))
                    ==> block_file_status(u.blocks[j]) == FileApplyStatus::Failed
            &&& forall|j: int|
                0 <= j < u.files.len() ==> (#[trigger] u.files[j]).apply_status
                    == FileApplyStatus::Failed
            &&& forall|applied: int, failed: int|
                terminal_status(
                    Some(SimulationScenario::SimulatedFailure),
                    applied,
                    failed,
                ) == TransactionStatus::Failed
        }),
{
    let paths = sim_file_paths(t);
    let n = paths.len() as int;
    lemma_failure_steps(t, paths, n);
    assert(paths.take(n) =~= paths);
    assert forall|j: int|
        (0 <= j < t.blocks.len() && is_file_block(#[trigger] t.blocks[j])) implies paths.contains(
        block_file_path(t.blocks[j]),
    ) by {
        let m = choose|m: int|
            0 <= m < t.files.len() && (#[trigger] t.files[m]).path == block_file_path(t.blocks[j]);
        assert(paths[m] == t.files[m].path);
    }
    assert forall|j: int| 0 <= j < t.files.len() implies paths.contains(
        (#[trigger] t.files[j]).path,
    ) by {
        assert(paths[j] == t.files[j].path);
    }
}

/// After the first `upto` steps of a partial-failure run over pairwise
/// distinct top-level paths, the entry at each covered position carries
/// exactly the scenario's outcome for that position.
pub proof fn lemma_partial_steps(t: TransactionView, paths: Seq<Seq<char>>, upto: int)
    requires
        0 <= upto <= paths.len(),
        paths.len() == t.files.len(),
        forall|j: int| 0 <= j < t.files.len() ==> paths[j] == (#[trigger] t.files[j]).path,
        forall|i: int, j: int|
            0 <= i < t.files.len() && 0 <= j < t.files.len() && i != j ==> (
            #[trigger] t.files[i]).path != (#[trigger] t.files[j]).path,
    ensures
        ({
            let u = after_file_steps(t, Some(SimulationScenario::PartialFailure), paths, upto);
            &&& u.files.len() == t.files.len()
            &&& forall|j: int|
                0 <= j < t.files.len() ==> (#[trigger] u.files[j]).path == t.files[j].path
            &&& forall|j: int|
                0 <= j < upto ==> (#[trigger] u.files[j]).apply_status == scenario_file_status(
                    Some(SimulationScenario::PartialFailure),
                    j,
                )
            &&& forall|j: int|
                upto <= j < t.files.len() ==> (#[trigger] u.files[j]).apply_status
                    == t.files[j].apply_status
        }),
    decreases upto,
{
    let scenario = Some(SimulationScenario::PartialFailure);
    if upto > 0 {
        lemma_partial_steps(t, paths, upto - 1);
        let prev = after_file_steps(t, scenario, paths, upto - 1);
        let u = after_file_steps(t, scenario, paths, upto);
        let p = paths[upto - 1];
        assert forall|j: int| 0 <= j < t.files.len() implies (#[trigger] u.files[j])
            == crate::store::file_entry_updated(
            prev.files[j],
            p,
            scenario_file_status(scenario, upto - 1),
            scenario_file_error(scenario, upto - 1),
        ) by {}
        assert forall|j: int| 0 <= j < upto implies (#[trigger] u.files[j]).apply_status
            == scenario_file_status(scenario, j) by {
            if j == upto - 1 {
                assert(prev.files[j].path == p);
            } else {
                assert(t.files[j].path != t.files[upto - 1].path);
                assert(prev.files[j].path != p);
            }
        }
        assert forall|j: int| upto <= j < t.files.len() implies (
        #[trigger] u.files[j]).apply_status == t.files[j].apply_status by {
            assert(t.files[j].path != t.files[upto - 1].path);
            assert(prev.files[j].path != p);
        }
    }
}

/// Law: a full partial-failure run over a transaction with pairwise
/// distinct file paths fails exactly the files at 0-indexed positions two,
/// five, eight, and so on, and applies the rest.
pub proof fn lemma_partial_failure_positions(t: TransactionView)
    requires
        forall|i: int, j: int|
            0 <= i < t.files.len() && 0 <= j < t.files.len() && i != j ==> (
            #[trigger] t.files[i]).path != (#[trigger] t.files[j]).path,
    ensures
        ({
            let paths = sim_file_paths(t);
            let u = after_file_steps(
                t,
                Some(SimulationScenario::PartialFailure),
                paths,
                paths.len() as int,
            );
            &&& u.files.len() == t.files.len()
            &&& forall|j: int|
                0 <= j < u.files.len() ==> (#[trigger] u.files[j]).apply_status == (if j % 3 == 2 {
                    FileApplyStatus::Failed
                } else {
                    FileApplyStatus::Applied
                })
        }),
{
    let paths = sim_file_paths(t);
    assert forall|j: int| 0 <= j < t.files.len() implies paths[j] == (
    #[trigger] t.files[j]).path by {}
    lemma_partial_steps(t, paths, paths.len() as int);
}

/// Law: a partial-failure run's terminal status is `Applied` exactly when
/// no file failed, `Failed` exactly when files failed and none applied, and
/// `PartiallyApplied` otherwise.
pub proof fn lemma_partial_failure_terminal(applied: int, failed: int)
    requires
        applied >= 0,
        failed >= 0,
    ensures
        ({
            let ts = terminal_status(Some(SimulationScenario::PartialFailure), applied, failed);
            &&& (ts == TransactionStatus::Applied <==> failed == 0)
            &&& (ts == TransactionStatus::Failed <==> failed > 0 && applied == 0)
            &&& (ts == TransactionStatus::PartiallyApplied <==> failed > 0 && applied > 0)
        }),
{
}

} // verus!
