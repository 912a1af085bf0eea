//! What holds of the relayer registry as a whole.

use crate::config::{config_bytes, law_config_round_trip, stored_config, RelayerConfig};
use crate::relayer_error::RelayerError;
use crate::relayer_map::{distinct, lemma_position, lemma_with_state, lemma_without, listed};
use crate::relayer_map::{position, state_of, without, Entries, RelayerState};
use crate::trusted_relayer::{active_relayer, after_apply, after_leaving};
use crate::trusted_relayer::{applicant_state, apply_refund, apply_refusal, having_status, page};
use crate::trusted_relayer::{reject_refusal, resign_refusal, stake_of, trusted_by_default};
use crate::trusted_relayer::{CallView, StoreView};
use vstd::prelude::*;

verus! {

// The stakes that the contract holds.

/// The stakes of all listed relayers together.
pub open spec fn total_stake(entries: Entries) -> int
    decreases entries.len(),
{
    if entries.len() == 0 {
        0
    } else {
        total_stake(entries.drop_last()) + entries.last().1.stake
    }
}

/// Replacing one entry changes the total by the difference of the stakes.
proof fn lemma_total_update(entries: Entries, i: int, entry: (Seq<char>, RelayerState))
    requires
        0 <= i < entries.len(),
    ensures
        total_stake(entries.update(i, entry)) == total_stake(entries) - entries[i].1.stake
            + entry.1.stake,
    decreases entries.len(),
{
    let after = entries.update(i, entry);
    if i == entries.len() - 1 {
        assert(after.drop_last() =~= entries.drop_last());
    } else {
        assert(after.drop_last() =~= entries.drop_last().update(i, entry));
        lemma_total_update(entries.drop_last(), i, entry);
    }
}

/// What an applicant attaches is what the contract then holds more and what goes back to the
/// applicant.
pub proof fn law_apply_conserves(store: StoreView, call: CallView)
    requires
        apply_refusal(store, call) is None,
    ensures
        total_stake(after_apply(store, call).relayers) + (match apply_refund(store, call) {
            Some(refund) => refund.amount as int,
            None => 0,
        }) == total_stake(store.relayers) + call.deposit,
        apply_refund(store, call) matches Some(refund) ==> refund.receiver == call.predecessor
            && refund.amount > 0,
{
    let after = after_apply(store, call).relayers;
    assert(after.drop_last() =~= store.relayers);
}

/// What is paid out when a relayer leaves is what the contract then holds less.
pub proof fn law_leaving_conserves(store: StoreView, account_id: Seq<char>)
    requires
        listed(store.relayers, account_id),
    ensures
        total_stake(after_leaving(store, account_id).relayers) + stake_of(store, account_id)
            == total_stake(store.relayers),
{
    let entries = store.relayers;
    let p = position(entries, account_id);
    assert(0 <= p < entries.len());
    let moved = entries.update(p, entries.last());
    lemma_total_update(entries, p, entries.last());
    assert(moved.last() == entries.last());
}

/// A step of a contract's life.
pub enum Step {
    /// The caller applies.
    Apply(CallView),
    /// The caller resigns.
    Resign(CallView),
    /// The caller rejects the account.
    Reject(CallView, Seq<char>),
    /// The configuration is set.
    SetConfig(RelayerConfig),
}

/// The store after a step. A step that is refused changes nothing.
pub open spec fn after_step(store: StoreView, step: Step) -> StoreView {
    match step {
        Step::Apply(call) => if apply_refusal(store, call) is None {
            after_apply(store, call)
        } else {
            store
        },
        Step::Resign(call) => if resign_refusal(store, call) is None {
            after_leaving(store, call.predecessor)
        } else {
            store
        },
        Step::Reject(_, account_id) => if reject_refusal(store, account_id) is None {
            after_leaving(store, account_id)
        } else {
            store
        },
        Step::SetConfig(config) => StoreView { config: Some(config_bytes(config)), ..store },
    }
}

/// What comes in with a step. The host gives back what is attached to a step that is refused.
pub open spec fn received(store: StoreView, step: Step) -> int {
    match step {
        Step::Apply(call) => if apply_refusal(store, call) is None {
            call.deposit as int
        } else {
            0
        },
        _ => 0,
    }
}

/// What goes out with a step.
pub open spec fn sent(store: StoreView, step: Step) -> int {
    match step {
        Step::Apply(call) => if apply_refusal(store, call) is None {
            match apply_refund(store, call) {
                Some(refund) => refund.amount as int,
                None => 0,
            }
        } else {
            0
        },
        Step::Resign(call) => if resign_refusal(store, call) is None {
            stake_of(store, call.predecessor) as int
        } else {
            0
        },
        Step::Reject(_, account_id) => if reject_refusal(store, account_id) is None {
            stake_of(store, account_id) as int
        } else {
            0
        },
        Step::SetConfig(_) => 0,
    }
}

/// The store after a number of steps.
pub open spec fn after_steps(store: StoreView, steps: Seq<Step>) -> StoreView
    decreases steps.len(),
{
    if steps.len() == 0 {
        store
    } else {
        after_step(after_steps(store, steps.drop_last()), steps.last())
    }
}

/// What comes in over a number of steps.
pub open spec fn total_received(store: StoreView, steps: Seq<Step>) -> int
    decreases steps.len(),
{
    if steps.len() == 0 {
        0
    } else {
        total_received(store, steps.drop_last()) + received(
            after_steps(store, steps.drop_last()),
            steps.last(),
        )
    }
}

/// What goes out over a number of steps.
pub open spec fn total_sent(store: StoreView, steps: Seq<Step>) -> int
    decreases steps.len(),
{
    if steps.len() == 0 {
        0
    } else {
        total_sent(store, steps.drop_last()) + sent(
            after_steps(store, steps.drop_last()),
            steps.last(),
        )
    }
}

/// Whatever happens, the contract holds exactly the stakes of the listed relayers: what came
/// in is what went out and what it holds more.
pub proof fn law_solvency(store: StoreView, steps: Seq<Step>)
    ensures
        total_stake(store.relayers) + total_received(store, steps) == total_stake(
            after_steps(store, steps).relayers,
        ) + total_sent(store, steps),
    decreases steps.len(),
{
    if steps.len() > 0 {
        law_solvency(store, steps.drop_last());
        let before = after_steps(store, steps.drop_last());
        match steps.last() {
            Step::Apply(call) => if apply_refusal(before, call) is None {
                law_apply_conserves(before, call);
            },
            Step::Resign(call) => if resign_refusal(before, call) is None {
                law_leaving_conserves(before, call.predecessor);
            },
            Step::Reject(_, account_id) => if reject_refusal(before, account_id) is None {
                law_leaving_conserves(before, account_id);
            },
            Step::SetConfig(_) => {},
        }
    }
}

/// No account is ever listed twice.
pub proof fn law_listed_once(store: StoreView, steps: Seq<Step>)
    requires
        distinct(store.relayers),
    ensures
        distinct(after_steps(store, steps).relayers),
    decreases steps.len(),
{
    if steps.len() > 0 {
        law_listed_once(store, steps.drop_last());
        let before = after_steps(store, steps.drop_last());
        match steps.last() {
            Step::Apply(call) => lemma_with_state(
                before.relayers,
                call.predecessor,
                applicant_state(before, call),
            ),
            Step::Resign(call) => lemma_without(before.relayers, call.predecessor),
            Step::Reject(_, account_id) => lemma_without(before.relayers, account_id),
            Step::SetConfig(_) => {},
        }
    }
}

/// The configuration that was set last over a number of steps.
pub open spec fn config_set_last(steps: Seq<Step>) -> Option<RelayerConfig>
    decreases steps.len(),
{
    if steps.len() == 0 {
        None
    } else {
        match steps.last() {
            Step::SetConfig(config) => Some(config),
            _ => config_set_last(steps.drop_last()),
        }
    }
}

/// The configuration in force is the one that was set last, whatever else happened; and where
/// none was set, it is the one that was in force at first.
pub proof fn law_config_in_force(store: StoreView, steps: Seq<Step>)
    ensures
        stored_config(after_steps(store, steps).config) == (match config_set_last(steps) {
            Some(config) => Some(config),
            None => stored_config(store.config),
        }),
    decreases steps.len(),
{
    if steps.len() > 0 {
        law_config_in_force(store, steps.drop_last());
        if let Step::SetConfig(config) = steps.last() {
            law_config_round_trip(config);
        }
    }
}

// The life of one relayer.

/// An account that has applied is listed with the required stake and cannot apply again,
/// whatever it attaches.
pub proof fn law_no_second_application(store: StoreView, call: CallView, again: CallView)
    requires
        distinct(store.relayers),
        apply_refusal(store, call) is None,
        again.predecessor == call.predecessor,
    ensures
        state_of(after_apply(store, call).relayers, call.predecessor) == Some(
            applicant_state(store, call),
        ),
        apply_refusal(after_apply(store, call), again) == Some(RelayerError::AlreadyApplied),
{
    lemma_with_state(store.relayers, call.predecessor, applicant_state(store, call));
}

/// An applicant is active from the end of its waiting period on, and not before.
pub proof fn law_waiting_period(store: StoreView, call: CallView, time: u64)
    requires
        distinct(store.relayers),
        apply_refusal(store, call) is None,
    ensures
        ({
            let wait = stored_config(store.config).unwrap().waiting_period_ns;
            active_relayer(after_apply(store, call), call.predecessor, time) <==> (time >= call.now
                + wait || time == u64::MAX)
        }),
{
    lemma_with_state(store.relayers, call.predecessor, applicant_state(store, call));
}

/// Whether the step takes the account off the list, where it is not refused.
pub open spec fn lets_go(step: Step, account_id: Seq<char>) -> bool {
    match step {
        Step::Apply(_) => false,
        Step::Resign(call) => call.predecessor == account_id,
        Step::Reject(_, rejected) => rejected == account_id,
        Step::SetConfig(_) => false,
    }
}

/// A listed account keeps its state over any steps in which it neither resigns nor is rejected.
pub proof fn law_stays_listed(store: StoreView, steps: Seq<Step>, account_id: Seq<char>)
    requires
        distinct(store.relayers),
        listed(store.relayers, account_id),
        forall|i: int| 0 <= i < steps.len() ==> !lets_go(#[trigger] steps[i], account_id),
    ensures
        state_of(after_steps(store, steps).relayers, account_id) == state_of(
            store.relayers,
            account_id,
        ),
    decreases steps.len(),
{
    if steps.len() > 0 {
        let earlier = steps.drop_last();
        assert forall|i: int| 0 <= i < earlier.len() implies !lets_go(
            #[trigger] earlier[i],
            account_id,
        ) by {
            assert(earlier[i] == steps[i]);
        }
        law_stays_listed(store, earlier, account_id);
        law_listed_once(store, earlier);
        let before = after_steps(store, earlier);
        let step = steps.last();
        assert(!lets_go(steps[steps.len() - 1], account_id));
        let own_application = match step {
            Step::Apply(call) => call.predecessor == account_id,
            _ => false,
        };
        if !own_application {
            law_others_unaffected(before, step, account_id);
        }
    }
}

/// Who is trusted stays trusted: whatever happens as long as the account neither resigns nor is
/// rejected, and at any later time.
pub proof fn law_stays_trusted(
    store: StoreView,
    steps: Seq<Step>,
    account_id: Seq<char>,
    earlier: CallView,
    later: CallView,
)
    requires
        distinct(store.relayers),
        forall|i: int| 0 <= i < steps.len() ==> !lets_go(#[trigger] steps[i], account_id),
        trusted_by_default(store, earlier, account_id),
        earlier.now <= later.now,
        earlier.current_account == later.current_account,
    ensures
        trusted_by_default(after_steps(store, steps), later, account_id),
        active_relayer(store, account_id, earlier.now) ==> active_relayer(
            after_steps(store, steps),
            account_id,
            later.now,
        ),
{
    if active_relayer(store, account_id, earlier.now) {
        law_stays_listed(store, steps, account_id);
    }
}

/// A relayer that resigns once it is active gets back the stake that it was listed with, even
/// where another configuration is in force by then, and the list is what it was before.
pub proof fn law_apply_then_resign(
    store: StoreView,
    apply: CallView,
    config: Option<Seq<u8>>,
    resign: CallView,
)
    requires
        distinct(store.relayers),
        apply_refusal(store, apply) is None,
        resign.predecessor == apply.predecessor,
        resign.now >= applicant_state(store, apply).activate_at,
    ensures
        ({
            let applied = StoreView { config, ..after_apply(store, apply) };
            &&& resign_refusal(applied, resign) is None
            &&& stake_of(applied, resign.predecessor) == stored_config(
                store.config,
            ).unwrap().stake_required
            &&& after_leaving(applied, resign.predecessor).relayers == store.relayers
        }),
{
    let applied = after_apply(store, apply).relayers;
    lemma_with_state(store.relayers, apply.predecessor, applicant_state(store, apply));
    lemma_position(applied, applied.len() - 1);
    assert(without(applied, apply.predecessor) =~= store.relayers);
}

/// A relayer that is still waiting cannot resign, but can be rejected.
pub proof fn law_waiting_relayer(store: StoreView, call: CallView)
    requires
        listed(store.relayers, call.predecessor),
        !active_relayer(store, call.predecessor, call.now),
    ensures
        resign_refusal(store, call) == Some(RelayerError::NotActiveYet),
        reject_refusal(store, call.predecessor) is None,
{
}

/// An account that left is no relayer any more: it can neither resign nor be rejected, it is
/// not trusted unless it is the contract itself, and nothing but the stake stands in the way
/// of a new application.
pub proof fn law_after_leaving(store: StoreView, account_id: Seq<char>, call: CallView)
    requires
        distinct(store.relayers),
    ensures
        ({
            let after = after_leaving(store, account_id);
            &&& state_of(after.relayers, account_id) is None
            &&& reject_refusal(after, account_id) == Some(RelayerError::ApplicationNotFound)
            &&& call.predecessor == account_id ==> resign_refusal(after, call) == Some(
                RelayerError::RelayerNotFound,
            )
            &&& call.predecessor == account_id ==> apply_refusal(after, call) != Some(
                RelayerError::AlreadyApplied,
            )
            &&& trusted_by_default(after, call, account_id) <==> account_id == call.current_account
        }),
{
    lemma_without(store.relayers, account_id);
}

/// What happens to one relayer is nothing to the others.
pub proof fn law_others_unaffected(store: StoreView, step: Step, other: Seq<char>)
    requires
        distinct(store.relayers),
        match step {
            Step::Apply(call) => other != call.predecessor,
            Step::Resign(call) => other != call.predecessor,
            Step::Reject(_, account_id) => other != account_id,
            Step::SetConfig(_) => true,
        },
    ensures
        state_of(after_step(store, step).relayers, other) == state_of(store.relayers, other),
{
    match step {
        Step::Apply(call) => lemma_with_state(
            store.relayers,
            call.predecessor,
            applicant_state(store, call),
        ),
        Step::Resign(call) => lemma_without(store.relayers, call.predecessor),
        Step::Reject(_, account_id) => lemma_without(store.relayers, account_id),
        Step::SetConfig(_) => {},
    }
}

/// What an operation does for an account depends on the configuration and on what is listed
/// for that account alone: two stores that agree on these give the same answers, and agree on
/// them afterwards.
pub proof fn law_own_entry_decides(a: StoreView, b: StoreView, call: CallView, account: Seq<char>)
    requires
        distinct(a.relayers),
        distinct(b.relayers),
        a.config == b.config,
        state_of(a.relayers, account) == state_of(b.relayers, account),
    ensures
        call.predecessor == account ==> apply_refusal(a, call) == apply_refusal(b, call),
        call.predecessor == account ==> applicant_state(a, call) == applicant_state(b, call),
        call.predecessor == account ==> apply_refund(a, call) == apply_refund(b, call),
        call.predecessor == account ==> state_of(after_apply(a, call).relayers, account)
            == state_of(after_apply(b, call).relayers, account),
        call.predecessor == account ==> resign_refusal(a, call) == resign_refusal(b, call),
        reject_refusal(a, account) == reject_refusal(b, account),
        stake_of(a, account) == stake_of(b, account),
        state_of(after_leaving(a, account).relayers, account) == state_of(
            after_leaving(b, account).relayers,
            account,
        ),
        trusted_by_default(a, call, account) == trusted_by_default(b, call, account),
{
    lemma_with_state(a.relayers, call.predecessor, applicant_state(a, call));
    lemma_with_state(b.relayers, call.predecessor, applicant_state(b, call));
    lemma_without(a.relayers, account);
    lemma_without(b.relayers, account);
}

// The lists of relayers.

/// At any time every listed relayer is either active or waiting, and none is both: the two
/// lists hold the same entries as the whole, each as often.
pub proof fn law_active_or_waiting(entries: Entries, now: u64)
    ensures
        having_status(entries, true, now).to_multiset().add(
            having_status(entries, false, now).to_multiset(),
        ) == entries.to_multiset(),
        having_status(entries, true, now).len() + having_status(entries, false, now).len()
            == entries.len(),
        forall|i: int|
            0 <= i < having_status(entries, true, now).len() ==> (#[trigger] having_status(
                entries,
                true,
                now,
            )[i]).1.active(now),
        forall|i: int|
            0 <= i < having_status(entries, false, now).len() ==> !(#[trigger] having_status(
                entries,
                false,
                now,
            )[i]).1.active(now),
    decreases entries.len(),
{
    broadcast use vstd::seq_lib::group_to_multiset_ensures;

    reveal(Seq::filter);
    if entries.len() > 0 {
        let rest = entries.drop_last();
        let last = entries.last();
        law_active_or_waiting(rest, now);
        assert(entries =~= rest.push(last));
        let active = having_status(rest, true, now);
        let waiting = having_status(rest, false, now);
        if last.1.active(now) {
            assert(having_status(entries, true, now) == active.push(last));
            assert(having_status(entries, false, now) == waiting);
        } else {
            assert(having_status(entries, true, now) == active);
            assert(having_status(entries, false, now) == waiting.push(last));
        }
        assert(having_status(entries, true, now).to_multiset().add(
            having_status(entries, false, now).to_multiset(),
        ) =~= entries.to_multiset());
    } else {
        assert(entries =~= Seq::empty());
        assert(having_status(entries, true, now) =~= entries);
        assert(having_status(entries, false, now) =~= entries);
        assert(entries.to_multiset().add(entries.to_multiset()) =~= entries.to_multiset());
    }
}

/// Two pages, of which the second begins where the first ends, are the page of both.
pub proof fn law_pages_continue<T>(list: Seq<T>, from: nat, first: nat, second: nat)
    ensures
        page(list, from, first) + page(list, from + first, second) == page(
            list,
            from,
            first + second,
        ),
{
    assert(page(list, from, first) + page(list, from + first, second) =~= page(
        list,
        from,
        first + second,
    ));
}

/// The first `count` pages of the given size, end to end.
pub open spec fn first_pages<T>(list: Seq<T>, size: nat, count: nat) -> Seq<T>
    decreases count,
{
    if count == 0 {
        Seq::empty()
    } else {
        first_pages(list, size, (count - 1) as nat) + page(
            list,
            ((count - 1) * size) as nat,
            size,
        )
    }
}

/// Pages of one size, end to end, are the beginning of the list, and the whole of it once they reach
/// its end.
pub proof fn law_pages_make_up_the_list<T>(list: Seq<T>, size: nat, count: nat)
    ensures
        first_pages(list, size, count) == page(list, 0, count * size),
        count * size >= list.len() ==> first_pages(list, size, count) == list,
    decreases count,
{
    if count == 0 {
        assert(count * size == 0) by (nonlinear_arith)
            requires
                count == 0,
        ;
        assert(first_pages(list, size, count) =~= page(list, 0, count * size));
    } else {
        let before = (count - 1) as nat;
        law_pages_make_up_the_list(list, size, before);
        assert(before * size + size == count * size && before * size >= 0) by (nonlinear_arith)
            requires
                before == count - 1,
        ;
        law_pages_continue(list, 0, before * size, size);
    }
    law_page_bounds(list, 0, count * size);
}

/// A page has no more entries than the limit, is empty beyond the end of the list, and is the
/// whole list where it begins with the first entry and the limit is not in the way.
pub proof fn law_page_bounds<T>(list: Seq<T>, from: nat, limit: nat)
    ensures
        page(list, from, limit).len() <= limit,
        from >= list.len() ==> page(list, from, limit).len() == 0,
        list.len() <= limit ==> page(list, 0, limit) == list,
{
    if list.len() <= limit {
        assert(page(list, 0, limit) =~= list);
    }
}

} // verus!
