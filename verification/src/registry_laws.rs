//! What the operations of the relayer registry are for, in terms of what is listed and stored.

use crate::config::{config_bytes, default_config, le_bytes, le_value};
use crate::config::{lemma_le_bytes_len, stored_config, RelayerConfig};
use crate::event::{is_plain, plain_json, EventView, TrustedRelayerEvent};
use crate::near_expect::{debug_form, failure_text, NearExpect};
use crate::relayer_error::RelayerError;
use crate::relayer_map::{distinct, entries_of, lemma_position, listed, position, state_of};
use crate::relayer_map::{with_state, without, Entries, RelayerState};
use crate::text::{joined, law_numeral, numeral, numeral_value};
use crate::trusted_relayer::{active_relayer, after_apply, after_leaving, applicant_state};
use crate::trusted_relayer::{apply_event, apply_refund, apply_refusal, having_status};
use crate::trusted_relayer::{page_limit, reject_refusal, resign_refusal, stake_of, status_page};
use crate::trusted_relayer::{transfer_of, trusted_by_default, Call, CallView, PageRequest};
use crate::trusted_relayer::{RelayerStore, StoreView, Transfer, TransferView};
use vstd::arithmetic::power::{lemma_pow0, lemma_pow_positive, pow};
use vstd::prelude::*;

verus! {

// The list of relayers.

/// A relayer is active at its activation time and ever after, and at no time before.
pub proof fn law_activation_time(state: RelayerState, now: u64)
    ensures
        state.active(state.activate_at),
        now > state.activate_at ==> state.active(now),
        now < state.activate_at ==> !state.active(now),
{
}

/// A list has no duplicates exactly where its accounts have none.
pub proof fn law_distinct_accounts(entries: Entries)
    ensures
        distinct(entries) <==> entries.map_values(
            |e: (Seq<char>, RelayerState)| e.0,
        ).no_duplicates(),
{
    let accounts = entries.map_values(|e: (Seq<char>, RelayerState)| e.0);
    if distinct(entries) {
        assert forall|i: int, j: int|
            0 <= i < accounts.len() && 0 <= j < accounts.len() && i != j implies accounts[i]
            != accounts[j] by {
            assert(accounts[i] == entries[i].0 && accounts[j] == entries[j].0);
        }
    }
    if accounts.no_duplicates() {
        assert forall|i: int, j: int|
            0 <= i < entries.len() && 0 <= j < entries.len() && #[trigger] entries[i].0
                == #[trigger] entries[j].0 implies i == j by {
            assert(accounts[i] == entries[i].0 && accounts[j] == entries[j].0);
        }
    }
}

/// The state of an account is what is listed for it, and none where nothing is.
pub proof fn law_state_is_what_is_listed(entries: Entries, account: Seq<char>, state: RelayerState)
    requires
        distinct(entries),
    ensures
        state_of(entries, account) == Some(state) <==> entries.contains((account, state)),
        state_of(entries, account) is None <==> forall|i: int|
            0 <= i < entries.len() ==> (#[trigger] entries[i]).0 != account,
        listed(entries, account) <==> exists|i: int|
            0 <= i < entries.len() && (#[trigger] entries[i]).0 == account,
{
    if entries.contains((account, state)) {
        let i = choose|i: int| 0 <= i < entries.len() && entries[i] == (account, state);
        lemma_position(entries, i);
    }
    if listed(entries, account) {
        let p = position(entries, account);
        assert(0 <= p < entries.len() && entries[p].0 == account);
        assert(entries[p] == (account, entries[p].1));
        if state_of(entries, account) == Some(state) {
            assert(entries.contains(entries[p]));
        }
    }
}

/// An account that joins is listed last; one that is listed keeps its place, and nothing changes
/// at any other place.
pub proof fn law_joining_the_list(entries: Entries, account: Seq<char>, state: RelayerState, p: int)
    requires
        distinct(entries),
    ensures
        (forall|i: int| 0 <= i < entries.len() ==> (#[trigger] entries[i]).0 != account)
            ==> with_state(entries, account, state) == entries.push((account, state)),
        0 <= p < entries.len() && entries[p].0 == account ==> with_state(entries, account, state)
            == entries.update(p, (account, state)),
{
    if 0 <= p < entries.len() && entries[p].0 == account {
        lemma_position(entries, p);
    }
}

/// Where an account leaves, the last one takes its place and all others stay where they are; where
/// it is not listed, nothing changes.
pub proof fn law_leaving_the_list(entries: Entries, account: Seq<char>, p: int)
    requires
        distinct(entries),
    ensures
        (forall|i: int| 0 <= i < entries.len() ==> (#[trigger] entries[i]).0 != account)
            ==> without(entries, account) == entries,
        0 <= p < entries.len() && entries[p].0 == account ==> {
            let after = without(entries, account);
            &&& after.len() == entries.len() - 1
            &&& forall|i: int| 0 <= i < after.len() && i != p ==> #[trigger] after[i] == entries[i]
            &&& p < after.len() ==> after[p] == entries[entries.len() - 1]
        },
{
    if 0 <= p < entries.len() && entries[p].0 == account {
        lemma_position(entries, p);
    }
}

/// Stored entries are seen one for one.
pub proof fn law_entries_one_for_one(list: Seq<(String, RelayerState)>, i: int)
    ensures
        entries_of(list).len() == list.len(),
        0 <= i < list.len() ==> entries_of(list)[i] == (list[i].0@, list[i].1),
{
}

/// Calls, stores and transfers are seen field by field.
pub proof fn law_seen_field_by_field(call: Call, store: RelayerStore, transfer: Option<Transfer>)
    ensures
        call@.predecessor == call.predecessor@,
        call@.current_account == call.current_account@,
        call@.deposit == call.attached_deposit,
        call@.now == call.block_timestamp,
        store@.relayers == store.relayers@,
        store.config is None ==> store@.config is None,
        store.config is Some ==> store@.config == Some(store.config->Some_0@),
        transfer is None ==> transfer_of(transfer) is None,
        transfer matches Some(sent) ==> transfer_of(transfer) == Some(
            TransferView { receiver: sent.receiver@, amount: sent.amount },
        ) && sent@.receiver == sent.receiver@ && sent@.amount == sent.amount,
{
}

// Who is trusted.

/// A contract trusts itself and whoever is listed and past its activation time, whatever its stake,
/// and nobody else.
pub proof fn law_whom_a_contract_trusts(store: StoreView, call: CallView, account_id: Seq<char>)
    requires
        distinct(store.relayers),
    ensures
        trusted_by_default(store, call, account_id) <==> account_id == call.current_account || exists|
            i: int,
        |
            0 <= i < store.relayers.len() && (#[trigger] store.relayers[i]).0 == account_id
                && call.now >= store.relayers[i].1.activate_at,
        active_relayer(store, account_id, call.now) <==> exists|i: int|
            0 <= i < store.relayers.len() && (#[trigger] store.relayers[i]).0 == account_id
                && call.now >= store.relayers[i].1.activate_at,
        active_relayer(store, account_id, call.now) ==> trusted_by_default(store, call, account_id),
{
    let entries = store.relayers;
    if exists|i: int|
        0 <= i < entries.len() && (#[trigger] entries[i]).0 == account_id && call.now
            >= entries[i].1.activate_at {
        let i = choose|i: int|
            0 <= i < entries.len() && (#[trigger] entries[i]).0 == account_id && call.now
                >= entries[i].1.activate_at;
        lemma_position(entries, i);
    }
    if listed(entries, account_id) {
        let p = position(entries, account_id);
        assert(0 <= p < entries.len() && entries[p].0 == account_id);
    }
}

/// Trust does not depend on stakes: two lists that differ in their stakes alone make a contract
/// trust the same accounts.
pub proof fn law_trust_is_blind_to_stakes(
    a: StoreView,
    b: StoreView,
    call: CallView,
    account_id: Seq<char>,
)
    requires
        distinct(a.relayers),
        a.relayers.len() == b.relayers.len(),
        forall|i: int|
            0 <= i < a.relayers.len() ==> (#[trigger] a.relayers[i]).0 == b.relayers[i].0
                && a.relayers[i].1.activate_at == b.relayers[i].1.activate_at,
    ensures
        trusted_by_default(a, call, account_id) == trusted_by_default(b, call, account_id),
        active_relayer(a, account_id, call.now) == active_relayer(b, account_id, call.now),
{
    assert forall|i: int, j: int|
        0 <= i < b.relayers.len() && 0 <= j < b.relayers.len() && #[trigger] b.relayers[i].0
            == #[trigger] b.relayers[j].0 implies i == j by {
        assert(a.relayers[i].0 == a.relayers[j].0);
    }
    if listed(a.relayers, account_id) {
        let p = position(a.relayers, account_id);
        assert(a.relayers[p].0 == account_id && b.relayers[p].0 == account_id);
        lemma_position(a.relayers, p);
        lemma_position(b.relayers, p);
    } else if listed(b.relayers, account_id) {
        let p = position(b.relayers, account_id);
        assert(a.relayers[p].0 == account_id);
    }
}

// Applying.

/// Where nothing has been stored, the configuration in force is a thousand NEAR and seven days.
pub proof fn law_configuration_of_a_fresh_contract()
    ensures
        stored_config(None) is Some,
        stored_config(None)->Some_0.stake_required == 1_000 * 1_000_000_000_000_000_000_000_000,
        stored_config(None)->Some_0.waiting_period_ns == 7 * 24 * 60 * 60 * 1_000_000_000,
        default_config() == stored_config(None)->Some_0,
{
}

/// An application is accepted exactly where the caller is not listed, a configuration is in force
/// and its stake is attached; and what it is refused for is the first of these that fails.
pub proof fn law_who_may_apply(store: StoreView, call: CallView)
    ensures
        ({
            let is_listed = exists|i: int|
                0 <= i < store.relayers.len() && (#[trigger] store.relayers[i]).0
                    == call.predecessor;
            let config = stored_config(store.config);
            let refusal = apply_refusal(store, call);
            &&& refusal is None <==> !is_listed && config is Some && call.deposit
                >= config->Some_0.stake_required
            &&& refusal == Some(RelayerError::AlreadyApplied) <==> is_listed
            &&& refusal == Some(RelayerError::ConfigUnreadable) <==> !is_listed && config is None
            &&& refusal == Some(RelayerError::InsufficientStake) <==> !is_listed && config is Some
                && call.deposit < config->Some_0.stake_required
        }),
{
}

/// On a contract without relayers and without a stored configuration, whoever attaches a thousand
/// NEAR may apply, and nobody who attaches less.
pub proof fn law_first_application(store: StoreView, call: CallView)
    requires
        store.config is None,
        store.relayers.len() == 0,
    ensures
        apply_refusal(store, call) is None <==> call.deposit >= 1_000
            * 1_000_000_000_000_000_000_000_000,
{
}

/// An applicant is listed behind all others with the stake that is required, whatever it attached,
/// and with the end of its waiting period, or the end of time where that is sooner. Nothing else
/// that is stored changes.
pub proof fn law_what_an_application_lists(store: StoreView, call: CallView)
    requires
        apply_refusal(store, call) is None,
    ensures
        ({
            let config = stored_config(store.config)->Some_0;
            let after = after_apply(store, call);
            let entry = after.relayers.last();
            &&& after.config == store.config
            &&& after.relayers.len() == store.relayers.len() + 1
            &&& after.relayers.drop_last() == store.relayers
            &&& entry.0 == call.predecessor
            &&& entry.1.stake == config.stake_required
            &&& call.now + config.waiting_period_ns <= u64::MAX ==> entry.1.activate_at == call.now
                + config.waiting_period_ns
            &&& call.now + config.waiting_period_ns > u64::MAX ==> entry.1.activate_at == u64::MAX
            &&& entry.1 == applicant_state(store, call)
        }),
{
    assert(after_apply(store, call).relayers.drop_last() =~= store.relayers);
}

/// The event of an application says what was then listed.
pub proof fn law_event_of_an_application(store: StoreView, call: CallView)
    requires
        apply_refusal(store, call) is None,
    ensures
        ({
            let entry = after_apply(store, call).relayers.last();
            apply_event(store, call) == (EventView::Apply {
                account_id: entry.0,
                stake: entry.1.stake,
                activate_at: entry.1.activate_at,
            })
        }),
{
}

/// What an applicant gets back and the stake that it is listed with are together what it attached;
/// where it attached no more than the stake, nothing is sent.
pub proof fn law_refund_of_an_application(store: StoreView, call: CallView)
    requires
        apply_refusal(store, call) is None,
    ensures
        ({
            let stake = after_apply(store, call).relayers.last().1.stake;
            &&& apply_refund(store, call) is Some <==> call.deposit > stake
            &&& apply_refund(store, call) matches Some(refund) ==> refund.amount + stake
                == call.deposit && refund.receiver == call.predecessor
        }),
{
}

/// How two applications to the same store relate: who attaches more is listed alike and gets back
/// as much more; who applies later becomes active no sooner.
pub proof fn law_two_applications(store: StoreView, a: CallView, b: CallView)
    requires
        apply_refusal(store, a) is None,
        a.predecessor == b.predecessor,
        a.deposit <= b.deposit,
        a.now <= b.now,
    ensures
        apply_refusal(store, b) is None,
        applicant_state(store, a).stake == applicant_state(store, b).stake,
        applicant_state(store, a).activate_at <= applicant_state(store, b).activate_at,
        (match apply_refund(store, b) {
            Some(refund) => refund.amount as int,
            None => 0,
        }) - (match apply_refund(store, a) {
            Some(refund) => refund.amount as int,
            None => 0,
        }) == b.deposit - a.deposit,
{
}

// Leaving.

/// Who is listed and past its activation time may resign, and nobody else; what a resignation is
/// refused for says which of the two fails.
pub proof fn law_who_may_resign(store: StoreView, call: CallView, i: int)
    requires
        distinct(store.relayers),
    ensures
        0 <= i < store.relayers.len() && store.relayers[i].0 == call.predecessor ==> (if call.now
            >= store.relayers[i].1.activate_at {
            resign_refusal(store, call) is None
        } else {
            resign_refusal(store, call) == Some(RelayerError::NotActiveYet)
        }),
        (forall|k: int|
            0 <= k < store.relayers.len() ==> (#[trigger] store.relayers[k]).0 != call.predecessor)
            ==> resign_refusal(store, call) == Some(RelayerError::RelayerNotFound),
{
    if 0 <= i < store.relayers.len() && store.relayers[i].0 == call.predecessor {
        lemma_position(store.relayers, i);
    }
}

/// Whoever is listed may be rejected, active or not, and nobody else.
pub proof fn law_who_may_be_rejected(store: StoreView, account_id: Seq<char>)
    ensures
        reject_refusal(store, account_id) is None <==> exists|i: int|
            0 <= i < store.relayers.len() && (#[trigger] store.relayers[i]).0 == account_id,
        reject_refusal(store, account_id) is Some ==> reject_refusal(store, account_id) == Some(
            RelayerError::ApplicationNotFound,
        ),
{
}

/// What is paid out for a relayer is the stake that is listed for it, and once it left it is the
/// only one that is missing: every other entry is still there, and none is new. The last of them
/// takes the place that is free, and all others keep theirs.
pub proof fn law_what_leaving_does(store: StoreView, i: int)
    requires
        distinct(store.relayers),
        0 <= i < store.relayers.len(),
    ensures
        ({
            let account_id = store.relayers[i].0;
            let after = after_leaving(store, account_id);
            &&& stake_of(store, account_id) == store.relayers[i].1.stake
            &&& after.config == store.config
            &&& after.relayers.len() == store.relayers.len() - 1
            &&& forall|k: int|
                0 <= k < after.relayers.len() && k != i ==> #[trigger] after.relayers[k]
                    == store.relayers[k]
            &&& i < after.relayers.len() ==> after.relayers[i] == store.relayers.last()
            &&& forall|k: int|
                0 <= k < store.relayers.len() && k != i ==> after.relayers.contains(
                    #[trigger] store.relayers[k],
                )
            &&& forall|k: int|
                0 <= k < after.relayers.len() ==> store.relayers.contains(
                    #[trigger] after.relayers[k],
                ) && after.relayers[k].0 != account_id
        }),
{
    let entries = store.relayers;
    let account_id = entries[i].0;
    let after = after_leaving(store, account_id).relayers;
    lemma_position(entries, i);
    law_leaving_the_list(entries, account_id, i);
    let last = entries.len() - 1;
    assert forall|k: int| 0 <= k < entries.len() && k != i implies after.contains(
        #[trigger] entries[k],
    ) by {
        if k == last {
            assert(after[i] == entries[k]);
        } else {
            assert(after[k] == entries[k]);
        }
    }
    assert forall|k: int| 0 <= k < after.len() implies entries.contains(#[trigger] after[k])
        && after[k].0 != account_id by {
        if k == i {
            assert(after[k] == entries[last]);
            assert(entries[last].0 != entries[i].0 || last == i);
        } else {
            assert(after[k] == entries[k]);
            assert(entries[k].0 != entries[i].0 || k == i);
        }
    }
}

// Pages.

/// The relayers of one status are those entries that have it, in their order: one entry is taken
/// or left by its activation time alone, and lists that are put end to end give what each gives.
pub proof fn law_relayers_of_one_status(a: Entries, b: Entries, active: bool, now: u64)
    ensures
        having_status(a + b, active, now) == having_status(a, active, now) + having_status(
            b,
            active,
            now,
        ),
        a.len() == 1 ==> having_status(a, active, now) == (if (now >= a[0].1.activate_at)
            == active {
            a
        } else {
            Seq::empty()
        }),
        a.len() == 0 ==> having_status(a, active, now).len() == 0,
{
    let matching = |e: (Seq<char>, RelayerState)| e.1.active(now) == active;
    Seq::filter_distributes_over_add(a, b, matching);
    reveal(Seq::filter);
    if a.len() == 1 {
        assert(a.drop_last() =~= Seq::empty());
        assert(a =~= seq![a[0]]);
        assert(Seq::<(Seq<char>, RelayerState)>::empty().filter(matching) =~= Seq::empty());
        assert(having_status(a, active, now) =~= if (now >= a[0].1.activate_at) == active {
            a
        } else {
            Seq::empty()
        });
    }
}

/// A page holds the relayers of the status that it is asked for, in their order, from the given
/// place on and as many as the limit lets through. Without a start it begins with the first of
/// them, whatever the limit, and without a limit it has a hundred at most.
pub proof fn law_what_a_page_holds(
    entries: Entries,
    active: bool,
    now: u64,
    from_index: Option<u32>,
    limit: Option<u32>,
    i: int,
)
    ensures
        ({
            let all = having_status(entries, active, now);
            let from = if from_index is Some {
                from_index->Some_0 as int
            } else {
                0
            };
            let most = if limit is Some {
                limit->Some_0 as int
            } else {
                100
            };
            let found = status_page(entries, active, now, from_index, limit);
            &&& from >= all.len() ==> found.len() == 0
            &&& from < all.len() && most <= all.len() - from ==> found.len() == most
            &&& from < all.len() && most > all.len() - from ==> found.len() == all.len() - from
            &&& 0 <= i < found.len() ==> found[i] == all[from + i]
        }),
{
}

/// To leave out the start is to start with the first, and to leave out the limit is to limit to a
/// hundred.
pub proof fn law_page_defaults(
    entries: Entries,
    active: bool,
    now: u64,
    from_index: Option<u32>,
    limit: Option<u32>,
)
    ensures
        status_page(entries, active, now, None, limit) == status_page(
            entries,
            active,
            now,
            Some(0),
            limit,
        ),
        status_page(entries, active, now, from_index, None) == status_page(
            entries,
            active,
            now,
            from_index,
            Some(100),
        ),
        page_limit(None) == 100,
        limit is Some ==> page_limit(limit) == limit->Some_0,
{
}

/// Without a start a page is the beginning of the relayers of its status: the first as many as the
/// limit, or all of them.
pub proof fn law_page_without_a_start(entries: Entries, active: bool, now: u64, limit: u32)
    ensures
        ({
            let all = having_status(entries, active, now);
            let found = status_page(entries, active, now, None, Some(limit));
            &&& limit <= all.len() ==> found == all.take(limit as int)
            &&& limit > all.len() ==> found == all
        }),
{
    let all = having_status(entries, active, now);
    let found = status_page(entries, active, now, None, Some(limit));
    if limit <= all.len() {
        assert(found =~= all.take(limit as int));
    } else {
        assert(found =~= all);
    }
}

/// Every entry of a page is listed, and has the status that was asked for.
pub proof fn law_page_entries_are_listed(
    entries: Entries,
    active: bool,
    now: u64,
    from_index: Option<u32>,
    limit: Option<u32>,
    i: int,
)
    requires
        0 <= i < status_page(entries, active, now, from_index, limit).len(),
    ensures
        ({
            let entry = status_page(entries, active, now, from_index, limit)[i];
            &&& entries.contains(entry)
            &&& (now >= entry.1.activate_at) == active
        }),
{
    law_what_a_page_holds(entries, active, now, from_index, limit, i);
    let matching = |e: (Seq<char>, RelayerState)| e.1.active(now) == active;
    let all = having_status(entries, active, now);
    let from = match from_index {
        Some(from) => from as int,
        None => 0,
    };
    assert(all.contains(all[from + i]));
    broadcast use vstd::seq_lib::group_seq_properties, Seq::lemma_filter_contains_rev;

    entries.lemma_filter_contains_rev(matching, all[from + i]);
    reveal(Seq::filter);
    entries.filter_lemma(matching);
}

/// A request is for the page of its own status, time, start and limit.
pub proof fn law_request(request: PageRequest, entries: Entries)
    ensures
        request.of(entries) == status_page(
            entries,
            request.active,
            request.now,
            request.from_index,
            request.limit,
        ),
{
}

// The stored configuration.

/// The bytes of a number are its digits to the base of 256, the lowest first.
pub proof fn law_bytes_of_a_number(n: nat, len: nat, i: nat)
    requires
        i < len,
    ensures
        le_bytes(n, len).len() == len,
        le_bytes(n, len)[i as int] == (n as int / pow(256, i)) % 256,
    decreases len,
{
    lemma_le_bytes_len(n, len);
    let rest = (len - 1) as nat;
    lemma_le_bytes_len(n / 256, rest);
    if i == 0 {
        lemma_pow0(256);
        assert(n as int / 1 == n);
    } else {
        let k = (i - 1) as nat;
        law_bytes_of_a_number(n / 256, rest, k);
        assert(le_bytes(n, len)[i as int] == le_bytes(n / 256, rest)[k as int]);
        lemma_pow_positive(256, k);
        reveal_with_fuel(pow, 2);
        assert(pow(256, i) == 256 * pow(256, k));
        vstd::arithmetic::div_mod::lemma_div_denominator(n as int, 256, pow(256, k));
    }
}

/// Bytes stand for the sum of their values by place.
pub proof fn law_number_of_bytes(bytes: Seq<u8>, more: Seq<u8>)
    ensures
        le_value(Seq::empty()) == 0,
        bytes.len() == 1 ==> le_value(bytes) == bytes[0],
        le_value(bytes + more) == le_value(bytes) + pow(256, bytes.len()) * le_value(more),
    decreases bytes.len(),
{
    if bytes.len() == 0 {
        lemma_pow0(256);
        assert(bytes + more =~= more);
    } else {
        let tail = bytes.drop_first();
        law_number_of_bytes(tail, more);
        assert((bytes + more).drop_first() =~= tail + more);
        reveal_with_fuel(pow, 2);
        assert(pow(256, bytes.len()) == 256 * pow(256, tail.len()));
        let p = pow(256, tail.len());
        let m = le_value(more) as int;
        assert(256 * (le_value(tail) + p * m) == 256 * le_value(tail) + (256 * p) * m)
            by (nonlinear_arith);
        if bytes.len() == 1 {
            assert(tail =~= Seq::empty());
        }
    }
}

/// Two configurations with the same bytes are the same, and where they differ in the stake the
/// first sixteen bytes do, where in the waiting period the other eight.
pub proof fn law_bytes_tell_configurations_apart(a: RelayerConfig, b: RelayerConfig)
    ensures
        config_bytes(a).len() == 24,
        config_bytes(a) == config_bytes(b) ==> a == b,
        config_bytes(a).take(16) == config_bytes(b).take(16) <==> a.stake_required
            == b.stake_required,
        config_bytes(a).skip(16) == config_bytes(b).skip(16) <==> a.waiting_period_ns
            == b.waiting_period_ns,
        le_value(config_bytes(a).take(16)) == a.stake_required,
        le_value(config_bytes(a).skip(16)) == a.waiting_period_ns,
{
    law_config_parts(a);
    law_config_parts(b);
}

/// A configuration stands in its bytes: the stake in the first sixteen, the waiting period in the
/// other eight.
pub proof fn law_config_parts(config: RelayerConfig)
    ensures
        config_bytes(config).len() == 24,
        config_bytes(config).take(16) == le_bytes(config.stake_required as nat, 16),
        config_bytes(config).skip(16) == le_bytes(config.waiting_period_ns as nat, 8),
        le_value(config_bytes(config).take(16)) == config.stake_required,
        le_value(config_bytes(config).skip(16)) == config.waiting_period_ns,
{
    let stake = config.stake_required as nat;
    let wait = config.waiting_period_ns as nat;
    lemma_le_bytes_len(stake, 16);
    lemma_le_bytes_len(wait, 8);
    reveal_with_fuel(pow, 17);
    assert(pow(256, 16) == 0x1_0000_0000_0000_0000_0000_0000_0000_0000);
    assert(pow(256, 8) == 0x1_0000_0000_0000_0000);
    crate::config::lemma_le_round_trip(stake, 16);
    crate::config::lemma_le_round_trip(wait, 8);
    assert(config_bytes(config).take(16) =~= le_bytes(stake, 16));
    assert(config_bytes(config).skip(16) =~= le_bytes(wait, 8));
}

/// What is stored is a configuration exactly where it has twenty-four bytes, and then its two parts
/// are the values of the bytes.
pub proof fn law_which_bytes_are_a_configuration(bytes: Seq<u8>)
    ensures
        stored_config(Some(bytes)) is Some <==> bytes.len() == 24,
        bytes.len() == 24 ==> stored_config(Some(bytes))->Some_0.stake_required == le_value(
            bytes.take(16),
        ),
        bytes.len() == 24 ==> stored_config(Some(bytes))->Some_0.waiting_period_ns == le_value(
            bytes.skip(16),
        ),
{
    if bytes.len() == 24 {
        lemma_value_fits(bytes.take(16));
        lemma_value_fits(bytes.skip(16));
        reveal_with_fuel(pow, 17);
        assert(pow(256, 16) == 0x1_0000_0000_0000_0000_0000_0000_0000_0000);
        assert(pow(256, 8) == 0x1_0000_0000_0000_0000);
    }
}

/// The value of bytes fits in them.
proof fn lemma_value_fits(bytes: Seq<u8>)
    ensures
        le_value(bytes) < pow(256, bytes.len()),
    decreases bytes.len(),
{
    if bytes.len() == 0 {
        lemma_pow0(256);
    } else {
        lemma_value_fits(bytes.drop_first());
        reveal_with_fuel(pow, 2);
        assert(pow(256, bytes.len()) == 256 * pow(256, bytes.drop_first().len()));
    }
}

// Log lines.

/// An event is seen as what it is, field by field.
pub proof fn law_event_seen_as_it_is(event: TrustedRelayerEvent)
    ensures
        event matches TrustedRelayerEvent::RelayerApplyEvent { account_id, stake, activate_at }
            ==> event@ == (EventView::Apply { account_id: account_id@, stake, activate_at }),
        event matches TrustedRelayerEvent::RelayerResignEvent { account_id, stake } ==> event@ == (
        EventView::Resign { account_id: account_id@, stake }),
        event matches TrustedRelayerEvent::RelayerRejectEvent { account_id, stake } ==> event@ == (
        EventView::Reject { account_id: account_id@, stake }),
{
}

/// A log line says the account as it is, the stake in decimal, and of an application the activation
/// time in decimal, in this order and nothing else.
pub proof fn law_what_a_log_line_says(event: EventView)
    ensures
        ({
            let account_id = match event {
                EventView::Apply { account_id, .. } => account_id,
                EventView::Resign { account_id, .. } => account_id,
                EventView::Reject { account_id, .. } => account_id,
            };
            let stake = match event {
                EventView::Apply { stake, .. } => stake,
                EventView::Resign { stake, .. } => stake,
                EventView::Reject { stake, .. } => stake,
            };
            let members = event.members();
            &&& event.account() == account_id
            &&& members.len() == (if event is Apply {
                3int
            } else {
                2
            })
            &&& members[0] == ("account_id"@, account_id)
            &&& members[1].0 == "stake"@
            &&& stands_for(members[1].1, stake as nat)
            &&& event is Apply ==> members[2].0 == "activate_at"@ && stands_for(
                members[2].1,
                event->Apply_activate_at as nat,
            )
        }),
{
    match event {
        EventView::Apply { stake, activate_at, .. } => {
            law_decimal_numeral(stake as nat);
            law_decimal_numeral(activate_at as nat);
        },
        EventView::Resign { stake, .. } => law_decimal_numeral(stake as nat),
        EventView::Reject { stake, .. } => law_decimal_numeral(stake as nat),
    }
}

/// Whether a text is the decimal numeral of a number: digits that stand for it, without a zero in
/// front unless that is all.
pub open spec fn stands_for(text: Seq<char>, n: nat) -> bool {
    &&& text.len() > 0
    &&& forall|i: int| 0 <= i < text.len() ==> '0' <= #[trigger] text[i] <= '9'
    &&& numeral_value(text) == n
    &&& text.len() > 1 ==> text[0] != '0'
}

/// Numbers are written in decimal, without zeros in front.
pub proof fn law_decimal_numeral(n: nat)
    ensures
        stands_for(numeral(n), n),
    decreases n,
{
    law_numeral(n);
    if n >= 10 {
        law_decimal_numeral(n / 10);
        let front = numeral(n / 10);
        assert(numeral(n)[0] == front[0]);
        if front.len() == 1 {
            assert(front.drop_last() =~= Seq::empty());
            assert(numeral_value(front) == front[0] as int - '0' as int) by {
                assert(numeral_value(front.drop_last()) == 0);
            }
        }
    }
}

/// Digits have the value of their places.
pub proof fn law_value_of_digits(digits: Seq<char>, last: char)
    ensures
        numeral_value(Seq::empty()) == 0,
        numeral_value(digits.push(last)) == 10 * numeral_value(digits) + (last as int - '0' as int),
{
    assert(digits.push(last).drop_last() =~= digits);
}

/// The kinds of events are told apart by their names.
pub proof fn law_events_are_told_apart(a: EventView, b: EventView)
    ensures
        a.tag() == b.tag() <==> (a is Apply <==> b is Apply) && (a is Resign <==> b is Resign),
        a is Apply ==> a.tag() == "RelayerApplyEvent"@,
        a is Resign ==> a.tag() == "RelayerResignEvent"@,
        a is Reject ==> a.tag() == "RelayerRejectEvent"@,
{
    reveal_strlit("RelayerApplyEvent");
    reveal_strlit("RelayerResignEvent");
    reveal_strlit("RelayerRejectEvent");
    assert("RelayerApplyEvent"@[7] == 'A');
    assert("RelayerResignEvent"@[9] == 's');
    assert("RelayerRejectEvent"@[9] == 'j');
    assert("RelayerResignEvent"@[7] == 'R' && "RelayerRejectEvent"@[7] == 'R');
}

/// Plain text holds no quote, no backslash and no control character.
pub proof fn law_plain_text(text: Seq<char>)
    ensures
        is_plain(text) <==> forall|i: int|
            0 <= i < text.len() ==> (#[trigger] text[i]) as int >= 32 && text[i] != '"' && text[i]
                != '\\',
{
}

/// A plain object opens with its tag and closes with two braces, and the members stand in between
/// with commas between them.
pub proof fn law_plain_object(tag: Seq<char>, members: Seq<(Seq<char>, Seq<char>)>)
    ensures
        ({
            let parts = members.map_values(
                |m: (Seq<char>, Seq<char>)|
                    seq!['"'] + m.0 + seq!['"', ':', '"'] + m.1 + seq!['"'],
            );
            plain_json(tag, members) == seq!['{', '"'] + tag + seq!['"', ':', '{'] + joined(
                parts,
                seq![','],
            ) + seq!['}', '}']
        }),
{
    let parts = members.map_values(
        |m: (Seq<char>, Seq<char>)| seq!['"'] + m.0 + seq!['"', ':', '"'] + m.1 + seq!['"'],
    );
    let written = members.map_values(
        |m: (Seq<char>, Seq<char>)| crate::event::quoted(m.0) + seq![':'] + crate::event::quoted(m.1),
    );
    assert forall|i: int| 0 <= i < members.len() implies parts[i] == written[i] by {
        assert(parts[i] =~= written[i]);
    }
    assert(parts =~= written);
    assert(plain_json(tag, members) =~= seq!['{', '"'] + tag + seq!['"', ':', '{'] + joined(
        parts,
        seq![','],
    ) + seq!['}', '}']);
}

// Unwrapping.

/// The message of a failed result begins with the caller's message and ends with the error, and a
/// colon and a blank are all that stands between them.
pub proof fn law_failure_message(msg: Seq<char>, error: Seq<char>)
    ensures
        ({
            let text = failure_text(msg, error);
            &&& text.len() == msg.len() + 2 + error.len()
            &&& text.take(msg.len() as int) == msg
            &&& text[msg.len() as int] == ':'
            &&& text[msg.len() as int + 1] == ' '
            &&& text.skip(msg.len() as int + 2) == error
        }),
{
    reveal_strlit(": ");
    let text = failure_text(msg, error);
    assert(text.take(msg.len() as int) =~= msg);
    assert(text.skip(msg.len() as int + 2) =~= error);
}

/// An option that holds a value gives that value, and one that holds none gives the message and no
/// other text.
pub proof fn law_expecting_an_option<T>(value: T, msg: Seq<char>, text: Seq<char>)
    ensures
        Some(value).expected() == Some(value),
        None::<T>.expected() is None,
        None::<T>.ends_with(msg, text) <==> text == msg,
{
}

/// A result that succeeded gives its value; what one that failed ends with begins with the message,
/// a colon and a blank, and goes on with the debug form of its own error.
pub proof fn law_expecting_a_result<T, E: core::fmt::Debug>(
    value: T,
    error: E,
    msg: Seq<char>,
    text: Seq<char>,
)
    ensures
        Ok::<T, E>(value).expected() == Some(value),
        Err::<T, E>(error).expected() is None,
        Err::<T, E>(error).ends_with(msg, text) <==> {
            &&& text.len() >= msg.len() + 2
            &&& text.take(msg.len() as int) == msg
            &&& text[msg.len() as int] == ':'
            &&& text[msg.len() as int + 1] == ' '
            &&& debug_form(error, text.skip(msg.len() as int + 2))
        },
{
    reveal_strlit(": ");
    let at = msg.len() as int;
    let rest = text.skip(at + 2);
    let failed = Err::<T, E>(error);
    assert(failed->Err_0 == error);
    let shaped = text.len() >= at + 2 && text.take(at) == msg && text[at] == ':' && text[at + 1]
        == ' ';
    if shaped {
        let built = failure_text(msg, rest);
        assert(built.len() == text.len());
        assert forall|i: int| 0 <= i < text.len() implies built[i] == text[i] by {
            if i < at {
                assert(text.take(at)[i] == text[i]);
            } else if i >= at + 2 {
                assert(rest[i - at - 2] == text[i]);
            }
        }
        assert(built =~= text);
        if debug_form(error, rest) {
            assert(failed.ends_with(msg, text));
        }
    }
    if failed.ends_with(msg, text) {
        let shown = choose|shown: Seq<char>| #[trigger]
            debug_form(failed->Err_0, shown) && text == failure_text(
                msg,
                shown,
            );
        law_failure_message(msg, shown);
        assert(rest == shown);
    }
}

} // verus!
