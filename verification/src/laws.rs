//! What holds of every index and of every run of the scheduler.
//!
//! The contracts of the functions say what each call returns. The theorems
//! here follow from them; they are stated in the terms in which the
//! contracts speak.

use crate::model::all_visible;
use crate::model::distinct_uuids;
use crate::model::index_of;
use crate::model::is_distribution_of;
use crate::model::lemma_distribution_total;
use crate::model::lemma_index_of_entry;
use crate::model::lemma_index_of_keys;
use crate::model::lemma_index_of_len;
use crate::model::lists;
use crate::model::total;
use crate::model::visible;
use crate::rearrange::lemma_index_of_rearranged;
use crate::scheduler::backoff_secs;
use crate::scheduler::FailureAction;
use crate::scheduler::ReloadOutcome;
use crate::scheduler::SchedulerAction;
use crate::scheduler::SchedulerState;
use vstd::arithmetic::power2::lemma2_to64;
use vstd::prelude::*;

verus! {

/// A UUID that the entries list at a level is visible in their index under
/// exactly the masks that are not below that level.
pub proof fn law_listed_is_visible_from_its_level(
    entries: Seq<(u128, u8)>,
    uuid: u128,
    level: u8,
    mask: u8,
)
    requires
        distinct_uuids(entries),
        entries.contains((uuid, level)),
    ensures
        visible(index_of(entries), uuid, mask) <==> level <= mask,
{
    let i = choose|i: int| 0 <= i < entries.len() && entries[i] == (uuid, level);
    lemma_index_of_entry(entries, i);
}

/// A UUID that the entries do not list is visible in their index under no
/// mask.
pub proof fn law_unlisted_is_never_visible(entries: Seq<(u128, u8)>, uuid: u128, mask: u8)
    requires
        !lists(entries, uuid),
    ensures
        !visible(index_of(entries), uuid, mask),
{
    lemma_index_of_keys(entries);
}

/// Under the mask 255 exactly the UUIDs that the entries list are visible.
pub proof fn law_all_listed_visible_under_full_mask(entries: Seq<(u128, u8)>, uuid: u128)
    ensures
        visible(index_of(entries), uuid, 255) <==> lists(entries, uuid),
{
    lemma_index_of_keys(entries);
}

/// The index of entries without repeats holds as many UUIDs as there are
/// entries.
pub proof fn law_len_is_number_of_entries(entries: Seq<(u128, u8)>)
    requires
        distinct_uuids(entries),
    ensures
        index_of(entries).dom().finite(),
        index_of(entries).dom().len() == entries.len(),
{
    lemma_index_of_len(entries);
}

/// All of no UUIDs are visible, in every index and under every mask.
pub proof fn law_empty_batch_is_visible(index: Map<u128, u8>, mask: u8)
    ensures
        all_visible(index, Seq::<u128>::empty(), mask),
{
}

/// A batch is visible exactly when each of its UUIDs is.
pub proof fn law_batch_is_visible_iff_each_is(index: Map<u128, u8>, uuids: Seq<u128>, mask: u8)
    ensures
        all_visible(index, uuids, mask) <==> forall|uuid: u128|
            uuids.contains(uuid) ==> visible(index, uuid, mask),
{
    if all_visible(index, uuids, mask) {
        assert forall|uuid: u128| uuids.contains(uuid) implies visible(index, uuid, mask) by {
            let i = choose|i: int| 0 <= i < uuids.len() && uuids[i] == uuid;
            assert(visible(index, uuids[i], mask));
        }
    }
    if forall|uuid: u128| uuids.contains(uuid) ==> visible(index, uuid, mask) {
        assert forall|i: int| 0 <= i < uuids.len() implies visible(
            index,
            #[trigger] uuids[i],
            mask,
        ) by {
            assert(uuids.contains(uuids[i]));
        }
    }
}

/// The counts of the distribution of an index add up to the number of UUIDs
/// that the index holds.
pub proof fn law_distribution_adds_up(distribution: Map<u8, usize>, index: Map<u128, u8>)
    requires
        index.dom().finite(),
        is_distribution_of(distribution, index),
    ensures
        total(distribution) == index.dom().len(),
{
    lemma_distribution_total(distribution, index);
}

/// The index does not depend on the order of the entries: entries without
/// repeats and any rearrangement of them describe the same index, so every
/// query has the same answer on both.
pub proof fn law_order_of_entries_is_immaterial(
    entries: Seq<(u128, u8)>,
    rearranged: Seq<(u128, u8)>,
)
    requires
        distinct_uuids(entries),
        entries.to_multiset() == rearranged.to_multiset(),
    ensures
        distinct_uuids(rearranged),
        index_of(rearranged) == index_of(entries),
{
    lemma_index_of_rearranged(entries, rearranged);
}

/// A run of `count` failed checks.
pub open spec fn failures_in_a_row(count: nat) -> Seq<ReloadOutcome> {
    Seq::new(count, |i: int| ReloadOutcome::Failed)
}

/// After a check that went well no failure is counted, whatever came
/// before.
pub proof fn law_success_resets_failures(state: SchedulerState, outcome: ReloadOutcome)
    requires
        outcome != ReloadOutcome::Failed,
    ensures
        state.state_after(outcome).failures.consecutive == 0,
{
}

/// While the limit is not reached, a run of failures is counted one by one,
/// up to the largest count that the counter holds.
proof fn lemma_failures_counted(state: SchedulerState, count: nat)
    requires
        state.failures.consecutive == 0,
        state.failures.max == 0 || count < state.failures.max,
    ensures
        state.state_after_all(failures_in_a_row(count)) == (SchedulerState {
            failures: crate::scheduler::TrackerState {
                consecutive: if count < u32::MAX {
                    count
                } else {
                    u32::MAX as nat
                },
                ..state.failures
            },
            ..state
        }),
    decreases count,
{
    let run = failures_in_a_row(count);
    if count == 0 {
        assert(state.state_after_all(run) == state);
    } else {
        lemma_failures_counted(state, (count - 1) as nat);
        assert(run.drop_last() == failures_in_a_row((count - 1) as nat));
        assert(run.last() == ReloadOutcome::Failed);
    }
}

/// From seven failures in a row on, the delay is 300 seconds.
proof fn lemma_backoff_levels_off(count: nat)
    requires
        count >= 7,
    ensures
        backoff_secs(count) == 300,
{
    lemma2_to64();
    if count > 7 {
        vstd::arithmetic::power2::lemma_pow2_strictly_increases(6, (count - 1) as nat);
    }
}

/// The `count`-th failure in a row, as long as the limit is not reached,
/// leads to a retry after `min(5 * 2^(count - 1), 300)` seconds.
pub proof fn law_backoff_after_failures(state: SchedulerState, count: nat)
    requires
        state.failures.consecutive == 0,
        1 <= count,
        state.failures.max == 0 || count < state.failures.max,
    ensures
        state.state_after_all(failures_in_a_row((count - 1) as nat)).action_after(
            ReloadOutcome::Failed,
        ) == (SchedulerAction::Retry { wait_secs: backoff_secs(count) as u64 }),
        backoff_secs(count) <= 300,
{
    lemma_failures_counted(state, (count - 1) as nat);
    if count >= u32::MAX {
        lemma_backoff_levels_off(count);
        lemma_backoff_levels_off(u32::MAX as nat);
    }
}

/// Where the index is to be cleared at the limit, the failure that reaches
/// the limit clears it and sets the count of failures back to 0; if the
/// limit is above 1, the next failure leads to a retry after 5 seconds, as
/// a first failure does.
pub proof fn law_clear_at_limit(state: SchedulerState)
    requires
        state.failures.consecutive == 0,
        state.failures.action == FailureAction::Clear,
        1 <= state.failures.max <= u32::MAX,
    ensures
        ({
            let before = state.state_after_all(
                failures_in_a_row((state.failures.max - 1) as nat),
            );
            let after = before.state_after(ReloadOutcome::Failed);
            &&& before.action_after(ReloadOutcome::Failed) == (SchedulerAction::Clear {
                wait_secs: state.interval_secs,
            })
            &&& after.failures.consecutive == 0
            &&& state.failures.max > 1 ==> after.action_after(ReloadOutcome::Failed) == (
            SchedulerAction::Retry { wait_secs: 5 })
        }),
{
    lemma_failures_counted(state, (state.failures.max - 1) as nat);
    lemma2_to64();
}

/// Where the process is to be shut down at the limit, the failure that
/// reaches the limit shuts it down, and nothing else: the index is not
/// cleared.
pub proof fn law_shutdown_at_limit(state: SchedulerState)
    requires
        state.failures.consecutive == 0,
        state.failures.action == FailureAction::Shutdown,
        1 <= state.failures.max <= u32::MAX,
    ensures
        state.state_after_all(
            failures_in_a_row((state.failures.max - 1) as nat),
        ).action_after(ReloadOutcome::Failed) == SchedulerAction::Shutdown,
{
    lemma_failures_counted(state, (state.failures.max - 1) as nat);
}

} // verus!
