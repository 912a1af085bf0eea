//! What a caller of each operation can count on, in terms of what goes in and what comes out.

use crate::args_laws::{law_accepted_arguments_are_those_given, law_accepted_exactly_where};
use crate::args_laws::{law_faulty_arguments_are_refused, law_which_fault_counts, lists};
use crate::config::{bytes_of, stored_config, tr_load_config, tr_save_config, RelayerConfig};
use crate::contract::{reject_relayer_application, require_trusted, set_relayer_config};
use crate::contract::{ManagerError, RoleBypass, StakedRelayers};
use crate::error_display::{build_format_string, derive_error_display};
use crate::event::{is_plain, plain_json, tagged_json, TrustedRelayerEvent};
use crate::macro_args::{collect_args, params_of, parse_params, read_args, MacroParam, ReadParams};
use crate::macro_args::TrustedRelayerImplArgs;
use crate::macro_laws::{are_impls, has_slot, law_each_part_stands_in_the_list};
use crate::macro_laws::{law_each_role_stands_in_the_list, law_every_role_is_named};
use crate::macro_laws::{law_expansion_of_a_block, law_expansion_of_a_function};
use crate::macro_laws::{law_filling_one_piece, law_first_slot_counts};
use crate::macro_laws::{law_format_string_field_by_field, law_generated_code_goes_by_the_header};
use crate::macro_laws::{law_guard_comes_first, law_guarding_item_by_item, law_joining};
use crate::macro_laws::{law_keeping_attributes, law_only_marked_methods_change, law_parts_of_parts};
use crate::macro_laws::{law_slots_are_written, law_what_a_marker_is, law_what_begins_an_impl_block};
use crate::macro_laws::{law_what_is_derived, stands_in};
use crate::near_expect::{debug_form, failure_message, failure_text, NearExpect};
use crate::promise::{PromiseOrPromiseIndexOrValue, ReturnAction};
use crate::registry_laws::{law_decimal_numeral, law_failure_message, law_joining_the_list};
use crate::registry_laws::{law_leaving_the_list, law_what_a_page_holds, law_what_leaving_does};
use crate::registry_laws::{law_who_may_apply, stands_for};
use crate::relayer_error::RelayerError;
use crate::relayer_macro::{block_tokens, expand_block, gen_bypass_is_trusted, gen_public_methods};
use crate::relayer_macro::{gen_trait_impl, guard_method, guard_tokens, guarded_block};
use crate::relayer_macro::{guarded_method, inject_guards, is_impl_block, is_marker};
use crate::relayer_macro::{is_trusted_relayer_attr, override_method, process_fn};
use crate::relayer_macro::{process_impl_block, process_impl_block_guard_only, public_methods};
use crate::relayer_macro::{role_names, trait_impl, trusted_relayer};
use crate::relayer_map::{distinct, entries_of, lemma_position, listed, position, state_of, Entries};
use crate::relayer_map::{RelayerMap, RelayerState};
use crate::syntax::{is_error_report, syn_function, syn_impl_block, syn_method, syn_type_item};
use crate::syntax::{syn_variants, Fault, ImplBlock, Method, MethodView};
use crate::templates::{BYPASS_METHOD, GUARD, PUBLIC_METHODS, ROLE_NAME, TRAIT_IMPL};
use crate::text::{decimal, joined, texts};
use crate::tokens::{all_tokens, comma_separated, fill, filled, lexed, slots_of, tokens_of};
use crate::tokens::{Delimiter, Slot, Token};
use crate::trusted_relayer::{having_status, Applied, Call, Left, Page, PageRequest, RelayerStore};
use crate::trusted_relayer::TrustedRelayer;
use proc_macro2::TokenStream;
use vstd::prelude::*;

verus! {

/// Whether some entry is that of the account.
pub open spec fn has_entry(entries: Entries, account_id: Seq<char>) -> bool {
    exists|i: int| 0 <= i < entries.len() && (#[trigger] entries[i]).0 == account_id
}

/// Whether some entry is that of the account and past its activation time.
pub open spec fn has_active_entry(entries: Entries, account_id: Seq<char>, now: u64) -> bool {
    exists|i: int|
        0 <= i < entries.len() && (#[trigger] entries[i]).0 == account_id && now
            >= entries[i].1.activate_at
}

/// The state that is found for an account is that of its entry.
proof fn lemma_entry(entries: Entries, account_id: Seq<char>, now: u64)
    requires
        distinct(entries),
    ensures
        state_of(entries, account_id) is Some <==> has_entry(entries, account_id),
        state_of(entries, account_id) is Some ==> entries.contains(
            (account_id, state_of(entries, account_id)->Some_0),
        ),
        has_active_entry(entries, account_id, now) <==> state_of(entries, account_id) is Some && now
            >= state_of(entries, account_id)->Some_0.activate_at,
{
    if listed(entries, account_id) {
        let p = position(entries, account_id);
        assert(0 <= p < entries.len() && entries[p].0 == account_id);
        assert(entries[p] == (account_id, entries[p].1));
    }
    if has_active_entry(entries, account_id, now) {
        let i = choose|i: int|
            0 <= i < entries.len() && (#[trigger] entries[i]).0 == account_id && now
                >= entries[i].1.activate_at;
        lemma_position(entries, i);
    }
}

// Trust.

/// A relayer is active from its activation time on.
pub proof fn law_activity(state: &RelayerState, now: u64, active: bool)
    requires
        call_ensures(RelayerState::is_active, (state, now), active),
    ensures
        active <==> state.activate_at <= now,
{
}

/// The default answer is yes for the contract itself and for whoever has an entry that is past its
/// activation time, and no for everyone else.
pub proof fn law_answer_of_staked_relayers(
    store: &RelayerStore,
    call: &Call,
    account_id: &str,
    trusted: bool,
)
    requires
        call_ensures(
            StakedRelayers::is_trusted_relayer,
            (&StakedRelayers, store, call, account_id),
            trusted,
        ),
        distinct(store.relayers@),
    ensures
        trusted <==> account_id@ == call.current_account@ || has_active_entry(
            store.relayers@,
            account_id@,
            call.block_timestamp,
        ),
{
    lemma_entry(store.relayers@, account_id@, call.block_timestamp);
}

/// With bypass roles the answer is yes for whoever holds one and for whoever has an entry that is
/// past its activation time, and no for everyone else.
pub proof fn law_answer_of_role_bypass(
    contract: &RoleBypass,
    store: &RelayerStore,
    call: &Call,
    account_id: &str,
    trusted: bool,
)
    requires
        call_ensures(
            RoleBypass::is_trusted_relayer,
            (contract, store, call, account_id),
            trusted,
        ),
        distinct(store.relayers@),
    ensures
        trusted <==> (exists|i: int|
            0 <= i < contract.holders@.len() && (#[trigger] contract.holders@[i])@ == account_id@)
            || has_active_entry(store.relayers@, account_id@, call.block_timestamp),
{
    let names = texts(contract.holders@);
    lemma_entry(store.relayers@, account_id@, call.block_timestamp);
    if exists|i: int|
        0 <= i < contract.holders@.len() && (#[trigger] contract.holders@[i])@ == account_id@ {
        let i = choose|i: int|
            0 <= i < contract.holders@.len() && (#[trigger] contract.holders@[i])@ == account_id@;
        assert(names[i] == account_id@);
    }
    if names.contains(account_id@) {
        let i = choose|i: int| 0 <= i < names.len() && names[i] == account_id@;
        assert(contract.holders@[i]@ == account_id@);
    }
}

/// A guard lets callers through that are trusted, and no others.
pub proof fn law_answer_of_a_guard(trusted: bool, verdict: Result<(), RelayerError>)
    requires
        call_ensures(require_trusted, (trusted,), verdict),
    ensures
        verdict is Ok <==> trusted,
        verdict is Err ==> verdict->Err_0 == RelayerError::NotTrusted,
{
}

// The registry.

/// An application is accepted exactly where the caller has no entry, a configuration is in force
/// and its stake is attached. Then the caller is the last entry, with that stake and the end of its
/// waiting period; the event says the same; and what was attached on top goes back. Where it is
/// refused, nothing changes.
pub proof fn law_applying<C: TrustedRelayer>(
    contract: &mut C,
    store: &mut RelayerStore,
    call: &Call,
    outcome: Result<Applied, RelayerError>,
)
    requires
        call_ensures(C::_tr_apply, (contract, store, call), outcome),
    ensures
        *final(contract) == *old(contract),
        ({
            let entries = old(store).relayers@;
            let config = stored_config(bytes_of(old(store).config));
            let is_listed = has_entry(entries, call.predecessor@);
            &&& outcome is Ok <==> !is_listed && config is Some && call.attached_deposit
                >= config->Some_0.stake_required
            &&& is_listed ==> outcome->Err_0 == RelayerError::AlreadyApplied
            &&& !is_listed && config is None ==> outcome->Err_0 == RelayerError::ConfigUnreadable
            &&& !is_listed && config is Some && call.attached_deposit
                < config->Some_0.stake_required ==> outcome->Err_0
                == RelayerError::InsufficientStake
            &&& outcome is Err ==> *final(store) == *old(store)
            &&& outcome matches Ok(applied) ==> {
                let stake = config->Some_0.stake_required;
                let end = call.block_timestamp + config->Some_0.waiting_period_ns;
                let entry = final(store).relayers@.last();
                &&& final(store).relayers@.len() == entries.len() + 1
                &&& final(store).relayers@.drop_last() == entries
                &&& bytes_of(final(store).config) == bytes_of(old(store).config)
                &&& entry.0 == call.predecessor@
                &&& entry.1.stake == stake
                &&& entry.1.activate_at == (if end <= u64::MAX {
                    end
                } else {
                    u64::MAX as int
                })
                &&& applied.event is RelayerApplyEvent
                &&& applied.event->RelayerApplyEvent_account_id@ == call.predecessor@
                &&& applied.event->RelayerApplyEvent_stake == stake
                &&& applied.event->activate_at == entry.1.activate_at
                &&& applied.refund is Some <==> call.attached_deposit > stake
                &&& applied.refund matches Some(refund) ==> refund.receiver@ == call.predecessor@
                    && refund.amount + stake == call.attached_deposit
            }
        }),
{
    law_who_may_apply(old(store)@, call@);
    if outcome is Ok {
        assert(final(store).relayers@ == final(store)@.relayers);
        assert(final(store).relayers@.drop_last() =~= old(store).relayers@);
    }
}

/// A resignation is accepted exactly where the caller has an entry that is past its activation
/// time. Then that entry is gone, and its stake goes to the caller. Where it is refused, nothing
/// changes.
pub proof fn law_resigning<C: TrustedRelayer>(
    contract: &mut C,
    store: &mut RelayerStore,
    call: &Call,
    outcome: Result<Left, RelayerError>,
    i: int,
)
    requires
        call_ensures(C::_tr_resign, (contract, store, call), outcome),
        distinct(old(store).relayers@),
    ensures
        *final(contract) == *old(contract),
        ({
            let entries = old(store).relayers@;
            let me = call.predecessor@;
            let now = call.block_timestamp;
            &&& outcome is Ok <==> has_active_entry(entries, me, now)
            &&& !has_entry(entries, me) ==> outcome->Err_0 == RelayerError::RelayerNotFound
            &&& has_entry(entries, me) && !has_active_entry(entries, me, now) ==> outcome->Err_0
                == RelayerError::NotActiveYet
            &&& outcome is Err ==> *final(store) == *old(store)
            &&& outcome is Ok && 0 <= i < entries.len() && entries[i].0 == me ==> {
                let left = outcome->Ok_0;
                let after = final(store).relayers@;
                &&& left.event is RelayerResignEvent
                &&& left.event->RelayerResignEvent_account_id@ == me
                &&& left.event->RelayerResignEvent_stake == entries[i].1.stake
                &&& left.payout.receiver@ == me
                &&& left.payout.amount == entries[i].1.stake
                &&& bytes_of(final(store).config) == bytes_of(old(store).config)
                &&& after.len() == entries.len() - 1
                &&& forall|k: int| 0 <= k < after.len() && k != i ==> #[trigger] after[k]
                    == entries[k]
                &&& i < after.len() ==> after[i] == entries.last()
            }
        }),
{
    let entries = old(store).relayers@;
    assert(entries == old(store)@.relayers);
    lemma_entry(entries, call.predecessor@, call.block_timestamp);
    if outcome is Ok && 0 <= i < entries.len() && entries[i].0 == call.predecessor@ {
        lemma_position(entries, i);
        law_what_leaving_does(old(store)@, i);
        assert(final(store).relayers@ == final(store)@.relayers);
    }
}

/// A rejection is accepted exactly where the account has an entry. Then that entry is gone, and its
/// stake goes to the caller. Where it is refused, nothing changes.
pub proof fn law_rejecting<C: TrustedRelayer>(
    contract: &mut C,
    store: &mut RelayerStore,
    call: &Call,
    account_id: &str,
    outcome: Result<Left, RelayerError>,
    i: int,
)
    requires
        call_ensures(C::_tr_reject, (contract, store, call, account_id), outcome),
        distinct(old(store).relayers@),
    ensures
        *final(contract) == *old(contract),
        ({
            let entries = old(store).relayers@;
            &&& outcome is Ok <==> has_entry(entries, account_id@)
            &&& outcome is Err ==> outcome->Err_0 == RelayerError::ApplicationNotFound
                && *final(store) == *old(store)
            &&& outcome is Ok && 0 <= i < entries.len() && entries[i].0 == account_id@ ==> {
                let left = outcome->Ok_0;
                let after = final(store).relayers@;
                &&& left.event is RelayerRejectEvent
                &&& left.event->RelayerRejectEvent_account_id@ == account_id@
                &&& left.event->RelayerRejectEvent_stake == entries[i].1.stake
                &&& left.payout.receiver@ == call.predecessor@
                &&& left.payout.amount == entries[i].1.stake
                &&& bytes_of(final(store).config) == bytes_of(old(store).config)
                &&& after.len() == entries.len() - 1
                &&& forall|k: int| 0 <= k < after.len() && k != i ==> #[trigger] after[k]
                    == entries[k]
                &&& i < after.len() ==> after[i] == entries.last()
            }
        }),
{
    let entries = old(store).relayers@;
    assert(entries == old(store)@.relayers);
    lemma_entry(entries, account_id@, call.block_timestamp);
    if outcome is Ok && 0 <= i < entries.len() && entries[i].0 == account_id@ {
        lemma_position(entries, i);
        law_what_leaving_does(old(store)@, i);
        assert(final(store).relayers@ == final(store)@.relayers);
    }
}

/// Only a manager may reject, and then a rejection succeeds exactly where the account has an entry;
/// without permission nothing changes.
pub proof fn law_rejecting_as_a_manager<C: TrustedRelayer>(
    contract: &mut C,
    store: &mut RelayerStore,
    call: &Call,
    is_manager: bool,
    account_id: &str,
    outcome: Result<Left, ManagerError>,
    i: int,
)
    requires
        call_ensures(
            reject_relayer_application::<C>,
            (contract, store, call, is_manager, account_id),
            outcome,
        ),
        distinct(old(store).relayers@),
    ensures
        *final(contract) == *old(contract),
        ({
            let entries = old(store).relayers@;
            &&& outcome is Ok <==> is_manager && has_entry(entries, account_id@)
            &&& !is_manager ==> outcome->Err_0 == ManagerError::NotPermitted
            &&& is_manager && !has_entry(entries, account_id@) ==> outcome->Err_0
                == ManagerError::Refused(RelayerError::ApplicationNotFound)
            &&& outcome is Err ==> *final(store) == *old(store)
            &&& outcome is Ok && 0 <= i < entries.len() && entries[i].0 == account_id@ ==> {
                &&& outcome->Ok_0.payout.receiver@ == call.predecessor@
                &&& outcome->Ok_0.payout.amount == entries[i].1.stake
                &&& final(store).relayers@.len() == entries.len() - 1
                &&& !has_entry(final(store).relayers@, account_id@)
            }
        }),
{
    let entries = old(store).relayers@;
    assert(entries == old(store)@.relayers);
    lemma_entry(entries, account_id@, call.block_timestamp);
    if outcome is Ok && 0 <= i < entries.len() && entries[i].0 == account_id@ {
        lemma_position(entries, i);
        law_what_leaving_does(old(store)@, i);
        assert(final(store).relayers@ == final(store)@.relayers);
    }
}

/// The configuration that is set is the one that is in force from then on, and the relayers stay as
/// they are; by way of the contract only a caller with permission sets it.
pub proof fn law_setting_the_configuration<C: TrustedRelayer>(
    contract: &mut C,
    store: &mut RelayerStore,
    may_configure: bool,
    stake_required: u128,
    waiting_period_ns: u64,
    outcome: Result<(), ManagerError>,
)
    requires
        call_ensures(
            set_relayer_config::<C>,
            (contract, store, may_configure, stake_required, waiting_period_ns),
            outcome,
        ),
    ensures
        *final(contract) == *old(contract),
        outcome is Ok <==> may_configure,
        !may_configure ==> outcome->Err_0 == ManagerError::NotPermitted && *final(store) == *old(
            store,
        ),
        may_configure ==> {
            let config = stored_config(bytes_of(final(store).config));
            &&& config is Some
            &&& config->Some_0.stake_required == stake_required
            &&& config->Some_0.waiting_period_ns == waiting_period_ns
            &&& final(store).relayers == old(store).relayers
        },
{
}

/// The same of setting it without asking for permission.
pub proof fn law_configuration_is_set<C: TrustedRelayer>(
    contract: &mut C,
    store: &mut RelayerStore,
    stake_required: u128,
    waiting_period_ns: u64,
)
    requires
        call_ensures(
            C::_tr_set_config,
            (contract, store, stake_required, waiting_period_ns),
            (),
        ),
    ensures
        *final(contract) == *old(contract),
        ({
            let config = stored_config(bytes_of(final(store).config));
            &&& config is Some
            &&& config->Some_0.stake_required == stake_required
            &&& config->Some_0.waiting_period_ns == waiting_period_ns
            &&& final(store).relayers == old(store).relayers
        }),
{
}

/// What is loaded of what was saved is the configuration that was saved, and where nothing was saved
/// it is a thousand NEAR and seven days.
pub proof fn law_saving_and_loading(
    stored: &mut Option<Vec<u8>>,
    config: &RelayerConfig,
    saved: Option<Vec<u8>>,
    loaded: Result<RelayerConfig, RelayerError>,
    fresh: Result<RelayerConfig, RelayerError>,
)
    requires
        call_ensures(tr_save_config, (stored, config), ()),
        saved == *final(stored),
        call_ensures(tr_load_config, (&saved,), loaded),
        call_ensures(tr_load_config, (&None::<Vec<u8>>,), fresh),
    ensures
        loaded is Ok,
        loaded->Ok_0 == *config,
        fresh is Ok,
        fresh->Ok_0.stake_required == 1_000 * 1_000_000_000_000_000_000_000_000,
        fresh->Ok_0.waiting_period_ns == 7 * 24 * 60 * 60 * 1_000_000_000,
{
}

/// Bytes load exactly where there are twenty-four of them.
pub proof fn law_loading_bytes(bytes: Vec<u8>, loaded: Result<RelayerConfig, RelayerError>)
    requires
        call_ensures(tr_load_config, (&Some(bytes),), loaded),
    ensures
        loaded is Ok <==> bytes@.len() == 24,
        loaded is Err ==> loaded->Err_0 == RelayerError::ConfigUnreadable,
{
}

/// The application of an account is its entry while it waits, and its stake is shown once it is
/// active: for each entry one of the two, and for an account without an entry neither.
pub proof fn law_application_or_stake<C: TrustedRelayer>(
    contract: &C,
    store: &RelayerStore,
    call: &Call,
    account_id: &str,
    application: Option<RelayerState>,
    stake: Option<u128>,
    i: int,
)
    requires
        call_ensures(C::_tr_get_application, (contract, store, call, account_id), application),
        call_ensures(C::_tr_get_stake, (contract, store, call, account_id), stake),
        distinct(store.relayers@),
    ensures
        ({
            let entries = store.relayers@;
            &&& !has_entry(entries, account_id@) ==> application is None && stake is None
            &&& 0 <= i < entries.len() && entries[i].0 == account_id@ && call.block_timestamp
                < entries[i].1.activate_at ==> application == Some(entries[i].1) && stake is None
            &&& 0 <= i < entries.len() && entries[i].0 == account_id@ && call.block_timestamp
                >= entries[i].1.activate_at ==> application is None && stake == Some(
                entries[i].1.stake,
            )
        }),
{
    let entries = store.relayers@;
    assert(entries == store@.relayers);
    lemma_entry(entries, account_id@, call.block_timestamp);
    if 0 <= i < entries.len() && entries[i].0 == account_id@ {
        lemma_position(entries, i);
    }
}

/// The configuration that is shown is the one in force.
pub proof fn law_configuration_shown<C: TrustedRelayer>(
    contract: &C,
    store: &RelayerStore,
    loaded: Result<RelayerConfig, RelayerError>,
)
    requires
        call_ensures(C::_tr_get_config, (contract, store), loaded),
    ensures
        store.config is None ==> loaded is Ok && loaded->Ok_0.stake_required == 1_000
            * 1_000_000_000_000_000_000_000_000 && loaded->Ok_0.waiting_period_ns == 7 * 24 * 60
            * 60 * 1_000_000_000,
        store.config is Some ==> (loaded is Ok <==> store.config->Some_0@.len() == 24),
        loaded is Ok ==> stored_config(bytes_of(store.config)) == Some(loaded->Ok_0),
{
}

/// A list of active relayers or of those that wait is what is asked for: in the order of all that
/// have the status, from the given place on or else from the first, as many as the limit lets
/// through or else a hundred.
pub proof fn law_listing_relayers<C: TrustedRelayer>(
    contract: &C,
    store: &RelayerStore,
    call: &Call,
    from_index: Option<u32>,
    limit: Option<u32>,
    active: Vec<(String, RelayerState)>,
    waiting: Vec<(String, RelayerState)>,
    i: int,
)
    requires
        call_ensures(
            C::_tr_get_active_relayers,
            (contract, store, call, from_index, limit),
            active,
        ),
        call_ensures(
            C::_tr_get_pending_relayers,
            (contract, store, call, from_index, limit),
            waiting,
        ),
    ensures
        ({
            let from = if from_index is Some {
                from_index->Some_0 as int
            } else {
                0
            };
            let most = if limit is Some {
                limit->Some_0 as int
            } else {
                100
            };
            let now = call.block_timestamp;
            &&& is_part(having_status(store.relayers@, true, now), from, most, active@, i)
            &&& is_part(having_status(store.relayers@, false, now), from, most, waiting@, i)
        }),
{
    let now = call.block_timestamp;
    let entries = store.relayers@;
    assert(entries == store@.relayers);
    law_what_a_page_holds(entries, true, now, from_index, limit, i);
    law_what_a_page_holds(entries, false, now, from_index, limit, i);
    assert(entries_of(active@).len() == active@.len());
    assert(entries_of(waiting@).len() == waiting@.len());
    if 0 <= i < active@.len() {
        assert(entries_of(active@)[i] == (active@[i].0@, active@[i].1));
    }
    if 0 <= i < waiting@.len() {
        assert(entries_of(waiting@)[i] == (waiting@[i].0@, waiting@[i].1));
    }
}

/// Whether `found` is as long as the part of a list from a place on with so many entries at most,
/// and has the right entry at place `i`.
pub open spec fn is_part(
    all: Entries,
    from: int,
    most: int,
    found: Seq<(String, RelayerState)>,
    i: int,
) -> bool {
    &&& from >= all.len() ==> found.len() == 0
    &&& from < all.len() && most <= all.len() - from ==> found.len() == most
    &&& from < all.len() && most > all.len() - from ==> found.len() == all.len() - from
    &&& 0 <= i < found.len() ==> found[i].0@ == all[from + i].0 && found[i].1 == all[from + i].1
}

/// A page that is put together holds what is asked for out of all that was offered, in the order in
/// which it was offered.
pub proof fn law_putting_a_page_together(
    request: PageRequest,
    empty: Page,
    page: Page,
    account_id: String,
    state: RelayerState,
    next: Page,
    full: bool,
    found: Vec<(String, RelayerState)>,
    i: int,
)
    requires
        call_ensures(Page::new, (request,), empty),
        call_ensures(Page::offer, (page, account_id, state), next),
        call_ensures(Page::is_full, (&page,), full),
        call_ensures(Page::finish, (page,), found),
    ensures
        empty.request() == request,
        empty.offered().len() == 0,
        next.request() == page.request(),
        next.offered() == page.offered().push((account_id@, state)),
        ({
            let asked = page.request();
            let from = if asked.from_index is Some {
                asked.from_index->Some_0 as int
            } else {
                0
            };
            let most = if asked.limit is Some {
                asked.limit->Some_0 as int
            } else {
                100
            };
            let all = having_status(page.offered(), asked.active, asked.now);
            &&& is_part(all, from, most, found@, i)
            &&& full <==> found@.len() == most
        }),
{
    let asked = page.request();
    law_what_a_page_holds(
        page.offered(),
        asked.active,
        asked.now,
        asked.from_index,
        asked.limit,
        i,
    );
    assert(entries_of(found@).len() == found@.len());
    if 0 <= i < found@.len() {
        assert(entries_of(found@)[i] == (found@[i].0@, found@[i].1));
    }
}

// The list of relayers.

/// Looking an account up gives the state of its entry, setting a state changes its entry or adds one
/// at the end, and taking an account off puts the last entry in its place.
pub proof fn law_using_the_list(
    map: &mut RelayerMap,
    account_id: String,
    state: RelayerState,
    previous: Option<RelayerState>,
    i: int,
)
    requires
        call_ensures(RelayerMap::insert, (map, account_id, state), previous),
        distinct(old(map)@),
    ensures
        ({
            let entries = old(map)@;
            &&& !has_entry(entries, account_id@) ==> previous is None && final(map)@
                == entries.push((account_id@, state))
            &&& 0 <= i < entries.len() && entries[i].0 == account_id@ ==> previous == Some(
                entries[i].1,
            ) && final(map)@ == entries.update(i, (account_id@, state))
            &&& final(map).modified()
        }),
{
    lemma_entry(old(map)@, account_id@, 0);
    law_joining_the_list(old(map)@, account_id@, state, i);
    if 0 <= i < old(map)@.len() && old(map)@[i].0 == account_id@ {
        lemma_position(old(map)@, i);
    }
}

/// The same of taking an account off and of looking one up.
pub proof fn law_taking_off_the_list(
    map: &mut RelayerMap,
    account_id: &str,
    removed: Option<RelayerState>,
    other: &RelayerMap,
    found: Option<RelayerState>,
    i: int,
)
    requires
        call_ensures(RelayerMap::remove, (map, account_id), removed),
        call_ensures(RelayerMap::get, (other, account_id), found),
        distinct(old(map)@),
        distinct(other@),
    ensures
        ({
            let entries = old(map)@;
            let after = final(map)@;
            &&& !has_entry(entries, account_id@) ==> removed is None && after == entries
            &&& 0 <= i < entries.len() && entries[i].0 == account_id@ ==> {
                &&& removed == Some(entries[i].1)
                &&& after.len() == entries.len() - 1
                &&& forall|k: int| 0 <= k < after.len() && k != i ==> #[trigger] after[k]
                    == entries[k]
                &&& i < after.len() ==> after[i] == entries.last()
            }
            &&& final(map).modified()
        }),
        !has_entry(other@, account_id@) ==> found is None,
        0 <= i < other@.len() && other@[i].0 == account_id@ ==> found == Some(other@[i].1),
{
    lemma_entry(old(map)@, account_id@, 0);
    lemma_entry(other@, account_id@, 0);
    law_leaving_the_list(old(map)@, account_id@, i);
    if 0 <= i < old(map)@.len() && old(map)@[i].0 == account_id@ {
        lemma_position(old(map)@, i);
    }
    if 0 <= i < other@.len() && other@[i].0 == account_id@ {
        lemma_position(other@, i);
    }
}

/// Entries load exactly where no account is there twice, and then as they are.
pub proof fn law_loading_the_list(
    entries: Vec<(String, RelayerState)>,
    map: Option<RelayerMap>,
    i: int,
)
    requires
        call_ensures(RelayerMap::load, (entries,), map),
    ensures
        map is Some <==> forall|a: int, b: int|
            0 <= a < b < entries@.len() ==> (#[trigger] entries@[a]).0@ != (
            #[trigger] entries@[b]).0@,
        map matches Some(loaded) ==> loaded@.len() == entries@.len() && !loaded.modified(),
        map is Some && 0 <= i < entries@.len() ==> map->Some_0@[i] == (entries@[i].0@, entries@[i].1),
{
    let list = entries_of(entries@);
    assert forall|a: int| 0 <= a < list.len() implies (#[trigger] list[a]).0 == entries@[a].0@ by {}
    if distinct(list) {
        assert forall|a: int, b: int| 0 <= a < b < entries@.len() implies (#[trigger] entries@[a]).0@
            != (#[trigger] entries@[b]).0@ by {
            assert(list[a].0 == entries@[a].0@ && list[b].0 == entries@[b].0@);
        }
    }
    if forall|a: int, b: int|
        0 <= a < b < entries@.len() ==> (#[trigger] entries@[a]).0@ != (#[trigger] entries@[b]).0@ {
        assert forall|a: int, b: int|
            0 <= a < list.len() && 0 <= b < list.len() && #[trigger] list[a].0
                == #[trigger] list[b].0 implies a == b by {
            assert(list[a].0 == entries@[a].0@ && list[b].0 == entries@[b].0@);
        }
    }
}

// Text.

/// A number is written in decimal.
pub proof fn law_writing_a_number(n: u128, text: String)
    requires
        call_ensures(decimal, (n,), text),
    ensures
        stands_for(text@, n as nat),
{
    law_decimal_numeral(n as nat);
}

/// The line that is logged for an event is an object that names the kind of event, the account and
/// the stake, and for an application the activation time, with numbers in decimal. Where the account
/// needs no escape, each text stands in it as it is.
pub proof fn law_logging_an_event(
    event: &TrustedRelayerEvent,
    line: String,
    stake: u128,
    stake_text: String,
    time: u64,
    time_text: String,
)
    requires
        call_ensures(TrustedRelayerEvent::emit, (event,), line),
        call_ensures(decimal, (stake,), stake_text),
        call_ensures(decimal, (time as u128,), time_text),
    ensures
        match event {
            TrustedRelayerEvent::RelayerApplyEvent { account_id, stake: staked, activate_at } =>
                staked == stake && activate_at == time ==> is_object(
                line@,
                "RelayerApplyEvent"@,
                seq![
                    ("account_id"@, account_id@),
                    ("stake"@, stake_text@),
                    ("activate_at"@, time_text@),
                ],
                account_id@,
            ),
            TrustedRelayerEvent::RelayerResignEvent { account_id, stake: staked } => staked == stake
                ==> is_object(
                line@,
                "RelayerResignEvent"@,
                seq![("account_id"@, account_id@), ("stake"@, stake_text@)],
                account_id@,
            ),
            TrustedRelayerEvent::RelayerRejectEvent { account_id, stake: staked } => staked == stake
                ==> is_object(
                line@,
                "RelayerRejectEvent"@,
                seq![("account_id"@, account_id@), ("stake"@, stake_text@)],
                account_id@,
            ),
        },
{
}

/// Whether a line is what is written for an object of one member, and that without escapes where a
/// text needs none.
pub open spec fn is_object(
    line: Seq<char>,
    tag: Seq<char>,
    members: Seq<(Seq<char>, Seq<char>)>,
    text: Seq<char>,
) -> bool {
    &&& line == tagged_json(tag, members)
    &&& is_plain(text) ==> line == plain_json(tag, members)
}

/// The message of a failure is the caller's message, a colon, a blank and the error.
pub proof fn law_writing_a_failure(msg: &str, error: &str, text: String)
    requires
        call_ensures(failure_message, (msg, error), text),
    ensures
        text@.len() == msg@.len() + 2 + error@.len(),
        text@.take(msg@.len() as int) == msg@,
        text@[msg@.len() as int] == ':',
        text@[msg@.len() as int + 1] == ' ',
        text@.skip(msg@.len() as int + 2) == error@,
{
    law_failure_message(msg@, error@);
}

/// Unwrapping an option gives its value, or the message where it holds none.
pub proof fn law_unwrapping_an_option<T>(
    option: Option<T>,
    msg: &str,
    outcome: Result<T, String>,
    value: T,
)
    requires
        call_ensures(Option::<T>::near_expect_or_message, (option, msg), outcome),
        option is Some ==> call_ensures(Option::<T>::near_expect, (option, msg), value),
    ensures
        option is Some ==> outcome is Ok && outcome->Ok_0 == option->Some_0 && value
            == option->Some_0,
        option is None ==> outcome is Err && outcome->Err_0@ == msg@,
{
}

/// Unwrapping a result gives its value, or a text that begins with the message, a colon and a blank.
pub proof fn law_unwrapping_a_result<T, E: core::fmt::Debug>(
    result: Result<T, E>,
    msg: &str,
    outcome: Result<T, String>,
)
    requires
        call_ensures(Result::<T, E>::near_expect_or_message, (result, msg), outcome),
    ensures
        result is Ok ==> outcome is Ok && outcome->Ok_0 == result->Ok_0,
        result is Err ==> outcome is Err && outcome->Err_0@.len() >= msg@.len() + 2
            && outcome->Err_0@.take(msg@.len() as int) == msg@ && outcome->Err_0@[msg@.len() as int]
            == ':' && outcome->Err_0@[msg@.len() as int + 1] == ' ',
{
    if let Err(error) = result {
        let text = outcome->Err_0@;
        let shown = choose|shown: Seq<char>| #[trigger]
            debug_form(result->Err_0, shown) && text
                == failure_text(msg@, shown);
        law_failure_message(msg@, shown);
    }
}

/// A promise and an index are returned as they are, and a value as what the encoder makes of it.
pub proof fn law_returning<T, F: FnOnce(T) -> Vec<u8>>(
    outcome: PromiseOrPromiseIndexOrValue<T>,
    encode: F,
    action: ReturnAction,
)
    requires
        call_ensures(
            PromiseOrPromiseIndexOrValue::<T>::as_return::<F>,
            (outcome, encode),
            action,
        ),
    ensures
        outcome matches PromiseOrPromiseIndexOrValue::Promise(promise) ==> action
            == ReturnAction::ReturnPromise(promise),
        outcome matches PromiseOrPromiseIndexOrValue::PromiseIndex(index) ==> action
            == ReturnAction::ReturnPromiseIndex(index),
        outcome matches PromiseOrPromiseIndexOrValue::Value(value) ==> action is ReturnValue
            && call_ensures(encode, (value,), action->ReturnValue_0),
{
}

/// The format string of one more field goes on where that of the others ends.
pub proof fn law_building_format_strings(
    names: &[String],
    more: &[String],
    text: String,
    longer: String,
)
    requires
        call_ensures(build_format_string, (names,), text),
        call_ensures(build_format_string, (more,), longer),
        more@.len() == names@.len() + 1,
        forall|i: int| 0 <= i < names@.len() ==> (#[trigger] more@[i])@ == names@[i]@,
    ensures
        names@.len() == 0 ==> text@ == seq!['{', '}'],
        longer@ == text@ + (if names@.len() == 0 {
            seq![':', ' ']
        } else {
            seq![',', ' ']
        }) + more@[names@.len() as int]@ + seq!['=', '{', '}'],
{
    let last = more@[names@.len() as int]@;
    assert(texts(more@) =~= texts(names@).push(last));
    law_format_string_field_by_field(texts(names@), last);
    if names@.len() == 0 {
        assert(texts(names@) =~= Seq::empty());
    }
}

// The macros.

/// A list is written in its order with a comma between any two: one part more comes behind a comma.
pub proof fn law_writing_a_list(
    list: &Vec<TokenStream>,
    more: &Vec<TokenStream>,
    stream: TokenStream,
    longer: TokenStream,
)
    requires
        call_ensures(comma_separated, (list,), stream),
        call_ensures(comma_separated, (more,), longer),
        more@.len() == list@.len() + 1,
        forall|i: int| 0 <= i < list@.len() ==> #[trigger] more@[i] == list@[i],
    ensures
        list@.len() == 0 ==> tokens_of(stream).len() == 0,
        list@.len() == 0 ==> tokens_of(longer) == tokens_of(more@[0]),
        list@.len() > 0 ==> tokens_of(longer) == tokens_of(stream) + seq![Token::Punct(',', false)]
            + tokens_of(more@[list@.len() as int]),
{
    let sep = seq![Token::Punct(',', false)];
    let last = seq![tokens_of(more@[list@.len() as int])];
    assert(all_tokens(more@) =~= all_tokens(list@) + last);
    law_joining(all_tokens(list@), last, sep);
    law_joining(last, last, sep);
    if list@.len() == 0 {
        assert(all_tokens(list@) =~= Seq::empty());
        assert(all_tokens(more@) =~= last);
    }
}

/// What is written of a template that is one slot is what the slot holds, whatever slots stand
/// behind it.
pub proof fn law_filling_a_slot(
    template: &TokenStream,
    slots: &Vec<Slot>,
    stream: TokenStream,
    name: Seq<char>,
    joint: bool,
    i: int,
)
    requires
        call_ensures(fill, (template, slots), stream),
        tokens_of(*template) == seq![Token::Punct('#', joint), Token::Ident(name)],
        0 <= i < slots@.len(),
        slots@[i].name@ == name,
        forall|k: int| 0 <= k < i ==> (#[trigger] slots@[k]).name@ != name,
    ensures
        tokens_of(stream) == tokens_of(slots@[i].stream),
{
    let values = slots_of(slots@);
    assert forall|k: int| 0 <= k < i implies (#[trigger] values[k]).0 != name by {
        assert(values[k].0 == slots@[k].name@);
    }
    law_first_slot_counts(values, name, i);
    law_filling_one_piece(name, joint, Token::Punct('#', joint), values);
}

/// Every bypass role is written out in the override, as the name by which the access control knows
/// it.
pub proof fn law_override_holds_every_role(
    roles: &Vec<TokenStream>,
    stream: TokenStream,
    i: int,
)
    requires
        call_ensures(gen_bypass_is_trusted, (roles,), stream),
        has_slot(lexed(BYPASS_METHOD@), "roles"@),
        has_slot(lexed(ROLE_NAME@), "role"@),
        0 <= i < roles@.len(),
    ensures
        stands_in(tokens_of(roles@[i]), tokens_of(stream)),
        stands_in(
            filled(lexed(ROLE_NAME@), seq![("role"@, tokens_of(roles@[i]))]),
            tokens_of(stream),
        ),
{
    let given = all_tokens(roles@);
    let role = tokens_of(roles@[i]);
    let one = filled(lexed(ROLE_NAME@), seq![("role"@, role)]);
    let slots = seq![("roles"@, role_names(given))];
    assert(given[i] == role);
    law_every_role_is_named(seq![role], seq![role]);
    law_each_role_stands_in_the_list(given, i);
    assert(role_names(seq![role]) == one);
    law_first_slot_counts(slots, "roles"@, 0);
    law_slots_are_written(lexed(BYPASS_METHOD@), slots, "roles"@);
    law_parts_of_parts(one, role_names(given), tokens_of(stream));
    law_parts_of_parts(role, one, tokens_of(stream));
}

/// A contract that decides by itself gets no trait impl; any other gets one in which every one of
/// its bypass roles is written out.
pub proof fn law_trait_impl_holds_every_role(
    block: &ImplBlock,
    args: &TrustedRelayerImplArgs,
    stream: TokenStream,
    i: int,
)
    requires
        call_ensures(gen_trait_impl, (block, args), stream),
        has_slot(lexed(TRAIT_IMPL@), "self_ty"@),
        has_slot(lexed(TRAIT_IMPL@), "override_method"@),
        has_slot(lexed(BYPASS_METHOD@), "roles"@),
        has_slot(lexed(ROLE_NAME@), "role"@),
    ensures
        args.custom_is_trusted_relayer ==> tokens_of(stream).len() == 0,
        !args.custom_is_trusted_relayer ==> stands_in(
            tokens_of(block.self_ty),
            tokens_of(stream),
        ),
        !args.custom_is_trusted_relayer && args.bypass_roles is Some && 0 <= i
            < args.bypass_roles->Some_0@.len() ==> stands_in(
            tokens_of(args.bypass_roles->Some_0@[i]),
            tokens_of(stream),
        ),
{
    reveal_strlit("impl_generics");
    reveal_strlit("self_ty");
    reveal_strlit("where_clause");
    reveal_strlit("override_method");
    assert("impl_generics"@.len() == 13 && "self_ty"@.len() == 7 && "where_clause"@.len() == 12
        && "override_method"@.len() == 15);
    let slots = seq![
        ("impl_generics"@, block@.impl_generics),
        ("self_ty"@, block@.self_ty),
        ("where_clause"@, block@.where_clause),
        ("override_method"@, override_method(args@.bypass_roles)),
    ];
    law_first_slot_counts(slots, "self_ty"@, 1);
    law_first_slot_counts(slots, "override_method"@, 3);
    law_slots_are_written(lexed(TRAIT_IMPL@), slots, "self_ty"@);
    law_slots_are_written(lexed(TRAIT_IMPL@), slots, "override_method"@);
    if args.bypass_roles is Some && 0 <= i < args.bypass_roles->Some_0@.len() {
        let given = all_tokens(args.bypass_roles->Some_0@);
        let role = given[i];
        let one = filled(lexed(ROLE_NAME@), seq![("role"@, role)]);
        let roles = seq![("roles"@, role_names(given))];
        let overriding = filled(lexed(BYPASS_METHOD@), roles);
        law_every_role_is_named(seq![role], seq![role]);
        law_each_role_stands_in_the_list(given, i);
        law_first_slot_counts(roles, "roles"@, 0);
        law_slots_are_written(lexed(BYPASS_METHOD@), roles, "roles"@);
        law_parts_of_parts(one, role_names(given), overriding);
        law_parts_of_parts(role, one, overriding);
        if !args.custom_is_trusted_relayer {
            law_parts_of_parts(role, overriding, tokens_of(stream));
        }
    }
}

/// Every manager role and every configuration role is written out in the public methods.
pub proof fn law_public_methods_hold_every_role(
    block: &ImplBlock,
    args: &TrustedRelayerImplArgs,
    stream: TokenStream,
    i: int,
)
    requires
        call_ensures(gen_public_methods, (block, args), stream),
        has_slot(lexed(PUBLIC_METHODS@), "self_ty"@),
        has_slot(lexed(PUBLIC_METHODS@), "manager_roles"@),
        has_slot(lexed(PUBLIC_METHODS@), "config_roles"@),
    ensures
        stands_in(tokens_of(block.self_ty), tokens_of(stream)),
        0 <= i < args.manager_roles@.len() ==> stands_in(
            tokens_of(args.manager_roles@[i]),
            tokens_of(stream),
        ),
        0 <= i < args.config_roles@.len() ==> stands_in(
            tokens_of(args.config_roles@[i]),
            tokens_of(stream),
        ),
{
    reveal_strlit("impl_generics");
    reveal_strlit("self_ty");
    reveal_strlit("where_clause");
    reveal_strlit("manager_roles");
    reveal_strlit("config_roles");
    assert("impl_generics"@[0] == 'i' && "self_ty"@[0] == 's' && "where_clause"@[0] == 'w'
        && "manager_roles"@[0] == 'm' && "config_roles"@[0] == 'c');
    let sep = seq![Token::Punct(',', false)];
    let managers = all_tokens(args.manager_roles@);
    let configurers = all_tokens(args.config_roles@);
    let slots = seq![
        ("impl_generics"@, block@.impl_generics),
        ("self_ty"@, block@.self_ty),
        ("where_clause"@, block@.where_clause),
        ("manager_roles"@, joined(managers, sep)),
        ("config_roles"@, joined(configurers, sep)),
    ];
    law_first_slot_counts(slots, "self_ty"@, 1);
    law_first_slot_counts(slots, "manager_roles"@, 3);
    law_first_slot_counts(slots, "config_roles"@, 4);
    law_slots_are_written(lexed(PUBLIC_METHODS@), slots, "self_ty"@);
    law_slots_are_written(lexed(PUBLIC_METHODS@), slots, "manager_roles"@);
    law_slots_are_written(lexed(PUBLIC_METHODS@), slots, "config_roles"@);
    if 0 <= i < managers.len() {
        law_each_part_stands_in_the_list(managers, i);
        law_parts_of_parts(managers[i], joined(managers, sep), tokens_of(stream));
    }
    if 0 <= i < configurers.len() {
        law_each_part_stands_in_the_list(configurers, i);
        law_parts_of_parts(configurers[i], joined(configurers, sep), tokens_of(stream));
    }
}

/// Tokens are taken for an impl block exactly where `impl` is the first word behind hashes and
/// groups.
pub proof fn law_recognising_an_impl_block(
    stream: &TokenStream,
    found: bool,
    front: Seq<Token>,
    rest: Seq<Token>,
)
    requires
        call_ensures(is_impl_block, (stream,), found),
        tokens_of(*stream) == front + rest,
        forall|i: int|
            0 <= i < front.len() ==> (#[trigger] front[i]) is Group || (front[i] is Punct
                && front[i]->Punct_0 == '#'),
        rest.len() > 0 ==> !(rest[0] is Group || (rest[0] is Punct && rest[0]->Punct_0 == '#')),
    ensures
        found <==> rest.len() > 0 && rest[0] is Ident && rest[0]->Ident_0 == "impl"@,
{
    law_what_begins_an_impl_block(front, rest);
    if rest.len() == 0 {
        assert(front + rest =~= front);
    }
}

/// An attribute is a marker exactly where the word `trusted_relayer` comes first in its brackets and
/// behind it nothing, a group or an equals sign.
pub proof fn law_recognising_a_marker(
    attr: &TokenStream,
    marker: bool,
    hash: Token,
    contents: Seq<Token>,
)
    requires
        call_ensures(is_trusted_relayer_attr, (attr,), marker),
        tokens_of(*attr) == seq![hash, Token::Group(Delimiter::Bracket, contents)],
    ensures
        marker <==> {
            &&& contents.len() > 0
            &&& contents[0] == Token::Ident("trusted_relayer"@)
            &&& contents.len() > 1 ==> contents[1] is Group || (contents[1] is Punct
                && contents[1]->Punct_0 == '=')
        },
{
    law_what_a_marker_is(tokens_of(*attr), hash, contents, true);
}

/// A guarded method ends in a group that ends in the guard and the body.
proof fn lemma_guard_and_body(method: MethodView, guard: Seq<Token>, with_markers: bool)
    ensures
        ({
            let out = guarded_method(method, guard, with_markers);
            &&& out.len() > 0
            &&& out.last() is Group
            &&& (guard + method.body).is_suffix_of(out.last()->Group_1)
        }),
{
    law_guard_comes_first(method, guard, with_markers);
    let inside = guarded_method(method, guard, with_markers).last()->Group_1;
    let both = guard + method.body;
    let n = inside.len() - both.len();
    assert(inside.skip(n).take(guard.len() as int) == guard);
    assert(inside.skip(n + guard.len()) == method.body);
    assert forall|j: int| 0 <= j < both.len() implies both[j] == inside[n + j] by {
        if j < guard.len() {
            assert(inside.skip(n).take(guard.len() as int)[j] == inside[n + j]);
        } else {
            assert(inside.skip(n + guard.len())[j - guard.len()] == inside[n + j]);
        }
    }
    assert(inside.subrange(n, inside.len() as int) =~= both);
}

/// A guarded method ends in braces with the guard in front of its body; with no attributes there is
/// nothing else in the braces, and nothing but its head in front of them.
pub proof fn law_guarding_a_method(
    method: &Method,
    guard: TokenStream,
    with_markers: bool,
    stream: TokenStream,
)
    requires
        call_ensures(guard_method, (method, guard, with_markers), stream),
    ensures
        tokens_of(stream).len() > 0,
        tokens_of(stream).last() is Group,
        tokens_of(stream).last()->Group_0 == Delimiter::Brace,
        (tokens_of(guard) + tokens_of(method.body)).is_suffix_of(
            tokens_of(stream).last()->Group_1,
        ),
        tokens_of(method.head).is_suffix_of(tokens_of(stream).drop_last()),
        method.attrs@.len() == 0 ==> tokens_of(stream) == tokens_of(method.head).push(
            Token::Group(Delimiter::Brace, tokens_of(guard) + tokens_of(method.body)),
        ),
{
    law_guard_comes_first(method@, tokens_of(guard), with_markers);
    let out = tokens_of(stream);
    let inside = out.last()->Group_1;
    let both = tokens_of(guard) + tokens_of(method.body);
    lemma_guard_and_body(method@, tokens_of(guard), with_markers);
    let front = out.drop_last();
    let h = tokens_of(method.head);
    let o = front.len() - h.len();
    assert(out.subrange(o, out.len() - 1) == h);
    assert(front.subrange(o, front.len() as int) =~= h);
    if method.attrs@.len() == 0 {
        assert(method@.attrs =~= Seq::empty());
        law_keeping_attributes(Seq::empty(), Seq::empty(), true, with_markers);
        law_keeping_attributes(Seq::empty(), Seq::empty(), false, with_markers);
        assert(inside =~= both);
        assert(out =~= h.push(Token::Group(Delimiter::Brace, both)));
    }
}

/// Guarding a block keeps the number and the order of its items and all that stands around them,
/// and changes an item only where it is a method with a marker.
pub proof fn law_guarding_a_block(block: &mut ImplBlock, i: int, k: int)
    requires
        call_ensures(inject_guards, (block,), ()),
    ensures
        final(block).items@.len() == old(block).items@.len(),
        tokens_of(final(block).frame) == tokens_of(old(block).frame),
        tokens_of(final(block).self_ty) == tokens_of(old(block).self_ty),
        tokens_of(final(block).impl_generics) == tokens_of(old(block).impl_generics),
        tokens_of(final(block).where_clause) == tokens_of(old(block).where_clause),
        0 <= i < old(block).items@.len() ==> {
            let before = tokens_of(old(block).items@[i]);
            let after = tokens_of(final(block).items@[i]);
            let method = syn_method(before);
            &&& method is None ==> after == before
            &&& method is Some && (forall|j: int|
                0 <= j < method->Some_0.attrs.len() ==> !is_marker(
                    #[trigger] method->Some_0.attrs[j],
                )) ==> after == before
            &&& method is Some && 0 <= k < method->Some_0.attrs.len() && is_marker(
                method->Some_0.attrs[k],
            ) ==> after.len() > 0 && after.last() is Group && (guard_tokens(method->Some_0.attrs)
                + method->Some_0.body).is_suffix_of(after.last()->Group_1)
        },
{
    let before = old(block)@;
    let after = final(block)@;
    law_guarding_item_by_item(before, i);
    assert(after.items.len() == final(block).items@.len());
    if 0 <= i < old(block).items@.len() {
        let item = tokens_of(old(block).items@[i]);
        assert(before.items[i] == item);
        assert(after.items[i] == tokens_of(final(block).items@[i]));
        law_only_marked_methods_change(item, k);
        if syn_method(item) is Some {
            let method = syn_method(item)->Some_0;
            let guard = guard_tokens(method.attrs);
            lemma_guard_and_body(method, guard, false);
        }
    }
}

/// On anything but an impl block arguments are reported, and without them the function gets the
/// guard of the contract; on an impl block the first fault is reported, of the arguments before one
/// of the block.
pub proof fn law_expanding_an_attribute(
    args: &TokenStream,
    input: &TokenStream,
    is_block: bool,
    stream: TokenStream,
)
    requires
        call_ensures(is_impl_block, (input,), is_block),
        call_ensures(trusted_relayer, (args, input), stream),
    ensures
        ({
            let given = tokens_of(*args);
            let source = tokens_of(*input);
            let out = tokens_of(stream);
            let block = syn_impl_block(source);
            let function = syn_function(source);
            &&& !is_block && given.len() > 0 ==> is_error_report(
                out,
                "`#[trusted_relayer]` on methods does not accept arguments"@,
            )
            &&& !is_block && given.len() == 0 && function is Err ==> is_error_report(
                out,
                function->Err_0,
            )
            &&& !is_block && given.len() == 0 && function is Ok ==> out.len() > 0
                && out.last() is Group && (lexed(GUARD@) + function->Ok_0.body).is_suffix_of(
                out.last()->Group_1,
            )
            &&& is_block && given.len() > 0 && read_args(given) is Err ==> is_error_report(
                out,
                read_args(given)->Err_0,
            )
            &&& is_block && (given.len() == 0 || read_args(given) is Ok) && block is Err
                ==> is_error_report(out, block->Err_0)
            &&& is_block && given.len() == 0 && block is Ok ==> out == block_tokens(
                guarded_block(block->Ok_0),
            )
            &&& is_block && given.len() > 0 && read_args(given) is Ok && block is Ok ==> out
                == block_tokens(guarded_block(block->Ok_0)) + trait_impl(
                block->Ok_0,
                read_args(given)->Ok_0,
            ) + public_methods(block->Ok_0, read_args(given)->Ok_0)
        }),
{
    let given = tokens_of(*args);
    let source = tokens_of(*input);
    if is_block {
        law_expansion_of_a_block(given, source);
    } else {
        law_expansion_of_a_function(given, source);
        if given.len() == 0 && syn_function(source) is Ok {
            lemma_guard_and_body(syn_function(source)->Ok_0, lexed(GUARD@), true);
        }
    }
}

/// Whether the argument at a place is a list of roles of that name.
pub open spec fn lists_roles(params: Seq<MacroParam>, i: int, name: Seq<char>) -> bool {
    0 <= i < params.len() && params[i] is RoleList && params[i]->RoleList_name.text@ == name
}

/// Arguments that are accepted name managers, and mean what is given: the roles of each list under
/// its name, and the managers for the configuration where no others are named.
pub proof fn law_collecting_arguments(
    params: &Vec<MacroParam>,
    parsed: Result<TrustedRelayerImplArgs, Fault>,
    i: int,
)
    requires
        call_ensures(collect_args, (params,), parsed),
        parsed is Ok,
    ensures
        ({
            let args = parsed->Ok_0;
            let given = params@;
            &&& exists|k: int| #[trigger] lists_roles(given, k, "manager_roles"@)
            &&& lists_roles(given, i, "manager_roles"@) ==> all_tokens(args.manager_roles@)
                == all_tokens(given[i]->roles@)
            &&& lists_roles(given, i, "config_roles"@) ==> all_tokens(args.config_roles@)
                == all_tokens(given[i]->roles@)
            &&& lists_roles(given, i, "bypass_roles"@) ==> args.bypass_roles is Some && all_tokens(
                args.bypass_roles->Some_0@,
            ) == all_tokens(given[i]->roles@)
            &&& (forall|k: int| !(#[trigger] lists_roles(given, k, "bypass_roles"@)))
                ==> args.bypass_roles is None
            &&& (forall|k: int| !(#[trigger] lists_roles(given, k, "config_roles"@))) ==> all_tokens(
                args.config_roles@,
            ) == all_tokens(args.manager_roles@)
            &&& args.bypass_roles is Some ==> !args.custom_is_trusted_relayer
        }),
{
    let given = params@;
    let seen = params_of(given);
    assert forall|k: int, name: Seq<char>| #[trigger] lists_roles(given, k, name) <==> lists(
        seen,
        k,
        name,
    ) by {
        if 0 <= k < given.len() {
            assert(seen[k] == given[k]@);
        }
    }
    if 0 <= i < given.len() {
        assert(seen[i] == given[i]@);
    }
    law_faulty_arguments_are_refused(seen);
    law_accepted_exactly_where(seen);
    law_accepted_arguments_are_those_given(seen, i);
    let k = choose|k: int| #[trigger] lists(seen, k, "manager_roles"@);
    assert(lists_roles(given, k, "manager_roles"@));
    assert forall|k: int, name: Seq<char>| #[trigger] lists(seen, k, name) implies lists_roles(
        given,
        k,
        name,
    ) by {}
    if parsed->Ok_0.bypass_roles is Some {
        let b = choose|b: int| #[trigger] lists(seen, b, "bypass_roles"@);
        assert(lists(seen, b, "bypass_roles"@));
    }
}

/// Arguments are accepted exactly where they can be read, where the set of them is accepted, and
/// where nothing was put off while reading; they then mean what that set means.
pub proof fn law_parsing_arguments(
    args: &TokenStream,
    read: Result<ReadParams, Fault>,
    set: Result<TrustedRelayerImplArgs, Fault>,
    parsed: Result<TrustedRelayerImplArgs, Fault>,
)
    requires
        call_ensures(parse_params, (args,), read),
        read is Ok ==> call_ensures(collect_args, (&read->Ok_0.params,), set),
        call_ensures(TrustedRelayerImplArgs::parse, (args,), parsed),
    ensures
        parsed is Ok <==> read is Ok && set is Ok && read->Ok_0.leftover is None,
        parsed is Ok ==> parsed->Ok_0@ == set->Ok_0@,
        parsed is Err ==> parsed->Err_0.message@ == (if read is Err {
            read->Err_0.message@
        } else if set is Err {
            set->Err_0.message@
        } else {
            read->Ok_0.leftover->Some_0.message@
        }),
        parsed is Err ==> is_error_report(
            tokens_of(parsed->Err_0.report),
            parsed->Err_0.message@,
        ),
{
    law_which_fault_counts(tokens_of(*args));
}

/// What an impl block with arguments becomes ends in its trait impl and then its public methods, and
/// begins with the block itself, guarded.
pub proof fn law_expanding_a_block(
    block: ImplBlock,
    args: &TrustedRelayerImplArgs,
    stream: TokenStream,
    implementation: TokenStream,
    methods: TokenStream,
)
    requires
        call_ensures(expand_block, (block, args), stream),
        call_ensures(gen_trait_impl, (&block, args), implementation),
        call_ensures(gen_public_methods, (&block, args), methods),
    ensures
        tokens_of(stream) == block_tokens(guarded_block(block@)) + tokens_of(implementation)
            + tokens_of(methods),
{
    law_generated_code_goes_by_the_header(guarded_block(block@), block@, args@);
    law_guarding_item_by_item(block@, 0);
}

/// Whatever the attribute stands on, what comes out is what comes out for that kind of item: for an
/// impl block by its arguments, where it has any, and for anything else that of a function.
pub proof fn law_attribute_goes_by_the_item(
    args: &TokenStream,
    input: &TokenStream,
    is_block: bool,
    stream: TokenStream,
    bare: TokenStream,
    full: TokenStream,
    function: TokenStream,
)
    requires
        call_ensures(is_impl_block, (input,), is_block),
        call_ensures(trusted_relayer, (args, input), stream),
        call_ensures(process_impl_block_guard_only, (input,), bare),
        call_ensures(process_impl_block, (args, input), full),
        call_ensures(process_fn, (input,), function),
    ensures
        ({
            let given = tokens_of(*args);
            let source = tokens_of(*input);
            &&& is_block && given.len() == 0 ==> alike(
                tokens_of(stream),
                tokens_of(bare),
                syn_impl_block(source) is Ok,
            )
            &&& is_block && given.len() > 0 ==> alike(
                tokens_of(stream),
                tokens_of(full),
                read_args(given) is Ok && syn_impl_block(source) is Ok,
            )
            &&& !is_block && given.len() == 0 ==> alike(
                tokens_of(stream),
                tokens_of(function),
                syn_function(source) is Ok,
            )
        }),
{
}

/// Whether two outcomes are the same tokens, or, where there is a fault, reports of one message.
pub open spec fn alike(a: Seq<Token>, b: Seq<Token>, accepted: bool) -> bool {
    &&& accepted ==> a == b
    &&& !accepted ==> exists|message: Seq<char>| #[trigger]
        is_error_report(a, message) && is_error_report(b, message)
}

/// Nothing is derived for anything but an enum, which is reported, as is what cannot be read.
pub proof fn law_deriving(input: &TokenStream, stream: TokenStream)
    requires
        call_ensures(derive_error_display, (input,), stream),
    ensures
        ({
            let source = tokens_of(*input);
            let out = tokens_of(stream);
            &&& syn_type_item(source) is Err ==> is_error_report(out, syn_type_item(source)->Err_0)
            &&& syn_type_item(source) is Ok && syn_variants(source) is None ==> is_error_report(
                out,
                "ErrorDisplay can only be derived for enums"@,
            )
            &&& syn_type_item(source) is Ok && syn_variants(source) is Some ==> are_impls(
                out,
                syn_type_item(source)->Ok_0,
                syn_variants(source)->Some_0,
            )
        }),
{
    let source = tokens_of(*input);
    if syn_type_item(source) is Ok && syn_variants(source) is Some {
        law_what_is_derived(
            tokens_of(stream),
            syn_type_item(source)->Ok_0,
            syn_variants(source)->Some_0,
        );
    }
}

} // verus!
