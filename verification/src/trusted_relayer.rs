//! The relayer registry: applying with a stake, resigning, being rejected, and who is trusted.

use vstd::prelude::*;
use crate::config::{bytes_of, config_bytes, stored_config, tr_load_config, tr_save_config, RelayerConfig};
use crate::event::{EventView, TrustedRelayerEvent};
use crate::relayer_error::RelayerError;
use crate::relayer_map::{
    entries_of, listed, state_of, with_state, without, Entries, RelayerMap, RelayerState,
};

verus! {

/// What the host says of the call that is being run.
#[derive(Clone, Debug)]
pub struct Call {
    /// The account that makes the call.
    pub predecessor: String,
    /// The account that the contract runs under.
    pub current_account: String,
    /// The yoctoNEAR that come with the call.
    pub attached_deposit: u128,
    /// The time of the block, in nanoseconds.
    pub block_timestamp: u64,
}

/// A call with its accounts by their characters.
pub struct CallView {
    pub predecessor: Seq<char>,
    pub current_account: Seq<char>,
    pub deposit: u128,
    pub now: u64,
}

impl View for Call {
    type V = CallView;

    open spec fn view(&self) -> CallView {
        CallView {
            predecessor: self.predecessor@,
            current_account: self.current_account@,
            deposit: self.attached_deposit,
            now: self.block_timestamp,
        }
    }
}

/// What a contract keeps in storage for its relayers: the bytes of the configuration, once
/// one was set, and the staked relayers.
pub struct RelayerStore {
    pub config: Option<Vec<u8>>,
    pub relayers: RelayerMap,
}

/// The stored bytes and entries.
#[verifier::ext_equal]
pub struct StoreView {
    pub config: Option<Seq<u8>>,
    pub relayers: Entries,
}

impl View for RelayerStore {
    type V = StoreView;

    open spec fn view(&self) -> StoreView {
        StoreView { config: bytes_of(self.config), relayers: self.relayers@ }
    }
}

/// Yocto that the contract has to send.
#[derive(Clone, Debug)]
pub struct Transfer {
    pub receiver: String,
    pub amount: u128,
}

/// A transfer with its receiver by its characters.
pub struct TransferView {
    pub receiver: Seq<char>,
    pub amount: u128,
}

impl View for Transfer {
    type V = TransferView;

    open spec fn view(&self) -> TransferView {
        TransferView { receiver: self.receiver@, amount: self.amount }
    }
}

/// What is left to do after an application: log the event and, where more than the stake was
/// attached, send the rest back.
#[derive(Clone, Debug)]
pub struct Applied {
    pub event: TrustedRelayerEvent,
    pub refund: Option<Transfer>,
}

/// What is left to do after a relayer left: log the event and send the stake.
#[derive(Clone, Debug)]
pub struct Left {
    pub event: TrustedRelayerEvent,
    pub payout: Transfer,
}

// What the operations do, on the stored values.

/// Why an application is refused, where it is: the applicant is listed, the configuration
/// cannot be read, or less is attached than the stake; the first of these that holds.
pub open spec fn apply_refusal(store: StoreView, call: CallView) -> Option<RelayerError> {
    if listed(store.relayers, call.predecessor) {
        Some(RelayerError::AlreadyApplied)
    } else {
        match stored_config(store.config) {
            None => Some(RelayerError::ConfigUnreadable),
            Some(config) => if call.deposit < config.stake_required {
                Some(RelayerError::InsufficientStake)
            } else {
                None
            },
        }
    }
}

/// When an applicant becomes active: after the waiting period, or at the end of time where
/// that is sooner.
pub open spec fn activation_time(now: u64, waiting_period_ns: u64) -> u64 {
    if now + waiting_period_ns > u64::MAX {
        u64::MAX
    } else {
        (now + waiting_period_ns) as u64
    }
}

/// The state in which an applicant is listed: with the required stake, not with what came
/// on top of it.
pub open spec fn applicant_state(store: StoreView, call: CallView) -> RelayerState {
    let config = stored_config(store.config).unwrap();
    RelayerState {
        stake: config.stake_required,
        activate_at: activation_time(call.now, config.waiting_period_ns),
    }
}

/// The store after an application that is not refused.
pub open spec fn after_apply(store: StoreView, call: CallView) -> StoreView {
    StoreView {
        relayers: with_state(store.relayers, call.predecessor, applicant_state(store, call)),
        ..store
    }
}

/// The event of an application.
pub open spec fn apply_event(store: StoreView, call: CallView) -> EventView {
    let state = applicant_state(store, call);
    EventView::Apply {
        account_id: call.predecessor,
        stake: state.stake,
        activate_at: state.activate_at,
    }
}

/// What an applicant gets back: all that came on top of the stake.
pub open spec fn apply_refund(store: StoreView, call: CallView) -> Option<TransferView> {
    let stake = applicant_state(store, call).stake;
    if call.deposit > stake {
        Some(TransferView { receiver: call.predecessor, amount: (call.deposit - stake) as u128 })
    } else {
        None
    }
}

/// Why a resignation is refused, where it is: the account is not listed, or not active yet.
pub open spec fn resign_refusal(store: StoreView, call: CallView) -> Option<RelayerError> {
    match state_of(store.relayers, call.predecessor) {
        None => Some(RelayerError::RelayerNotFound),
        Some(state) => if state.active(call.now) {
            None
        } else {
            Some(RelayerError::NotActiveYet)
        },
    }
}

/// Why a rejection is refused, where it is: the account is not listed.
pub open spec fn reject_refusal(store: StoreView, account_id: Seq<char>) -> Option<RelayerError> {
    match state_of(store.relayers, account_id) {
        None => Some(RelayerError::ApplicationNotFound),
        Some(_) => None,
    }
}

/// The stake of a listed account.
pub open spec fn stake_of(store: StoreView, account_id: Seq<char>) -> u128 {
    state_of(store.relayers, account_id).unwrap().stake
}

/// The store after an account left.
pub open spec fn after_leaving(store: StoreView, account_id: Seq<char>) -> StoreView {
    StoreView { relayers: without(store.relayers, account_id), ..store }
}

/// Whether the account is listed and active.
pub open spec fn active_relayer(store: StoreView, account_id: Seq<char>, now: u64) -> bool {
    state_of(store.relayers, account_id) matches Some(state) && state.active(now)
}

/// Whom a contract trusts unless it says otherwise: itself, and the active relayers.
pub open spec fn trusted_by_default(
    store: StoreView,
    call: CallView,
    account_id: Seq<char>,
) -> bool {
    account_id == call.current_account || active_relayer(store, account_id, call.now)
}

/// The listed relayers that are active at `now`, or those that are not, in their order.
pub open spec fn having_status(entries: Entries, active: bool, now: u64) -> Entries {
    entries.filter(|e: (Seq<char>, RelayerState)| e.1.active(now) == active)
}

/// The elements of a list from place `from` on, but no more than `limit`.
pub open spec fn page<T>(list: Seq<T>, from: nat, limit: nat) -> Seq<T> {
    let start = if from <= list.len() {
        from
    } else {
        list.len()
    };
    let end = if start + limit <= list.len() {
        start + limit
    } else {
        list.len()
    };
    list.subrange(start as int, end as int)
}

/// The page of relayers of one status that a caller asks for. Without a start it begins with
/// the first, and without a limit it has at most a hundred.
pub open spec fn status_page(
    entries: Entries,
    active: bool,
    now: u64,
    from_index: Option<u32>,
    limit: Option<u32>,
) -> Entries {
    page(
        having_status(entries, active, now),
        (match from_index {
            Some(from) => from as nat,
            None => 0,
        }),
        page_limit(limit),
    )
}

/// One more element at the end of a list is on the page where its place is.
proof fn lemma_page_push<T>(list: Seq<T>, x: T, from: nat, limit: nat)
    ensures
        page(list.push(x), from, limit) == (if from <= list.len() && page(list, from, limit).len()
            < limit {
            page(list, from, limit).push(x)
        } else {
            page(list, from, limit)
        }),
{
    let before = page(list, from, limit);
    let after = page(list.push(x), from, limit);
    if from <= list.len() && before.len() < limit {
        assert(after =~= before.push(x));
    } else {
        assert(after =~= before);
    }
}

/// The relayers of one status among one more entry.
proof fn lemma_status_push(
    entries: Entries,
    entry: (Seq<char>, RelayerState),
    active: bool,
    now: u64,
)
    ensures
        having_status(entries.push(entry), active, now) == (if entry.1.active(now) == active {
            having_status(entries, active, now).push(entry)
        } else {
            having_status(entries, active, now)
        }),
{
    reveal(Seq::filter);
    assert(entries.push(entry).drop_last() =~= entries);
}

/// How many entries a page has at most.
pub open spec fn page_limit(limit: Option<u32>) -> nat {
    match limit {
        Some(limit) => limit as nat,
        None => 100,
    }
}

/// A page that has as many entries as it can have stays as it is, whatever is listed behind those
/// that it was taken from.
pub proof fn law_full_page_stays(
    entries: Entries,
    more: Entries,
    active: bool,
    now: u64,
    from_index: Option<u32>,
    limit: Option<u32>,
)
    requires
        status_page(entries, active, now, from_index, limit).len() == page_limit(limit),
    ensures
        status_page(entries + more, active, now, from_index, limit) == status_page(
            entries,
            active,
            now,
            from_index,
            limit,
        ),
{
    let matching = |e: (Seq<char>, RelayerState)| e.1.active(now) == active;
    Seq::filter_distributes_over_add(entries, more, matching);
    assert(having_status(entries + more, active, now) == having_status(entries, active, now)
        + having_status(more, active, now));
    assert(status_page(entries + more, active, now, from_index, limit) =~= status_page(
        entries,
        active,
        now,
        from_index,
        limit,
    ));
}

/// Which relayers a caller asks for: those that are active at a time or those that are not, from
/// which place on, and how many at most.
#[derive(Clone, Copy, Debug)]
pub struct PageRequest {
    pub active: bool,
    pub now: u64,
    pub from_index: Option<u32>,
    pub limit: Option<u32>,
}

impl PageRequest {
    /// The page that is asked for, out of the listed relayers.
    pub open spec fn of(self, entries: Entries) -> Entries {
        status_page(entries, self.active, self.now, self.from_index, self.limit)
    }
}

/// A page that is put together from listed relayers as they are offered one by one, in their
/// order. It holds the page of those that have been offered.
pub struct Page {
    request: PageRequest,
    passed: usize,
    found: Vec<(String, RelayerState)>,
    offered: Ghost<Entries>,
}

impl Page {
    #[verifier::type_invariant]
    spec fn holds_the_page(self) -> bool {
        let list = having_status(self.offered@, self.request.active, self.request.now);
        let from = match self.request.from_index {
            Some(from) => from as nat,
            None => 0,
        };
        &&& self.passed == (if list.len() < from {
            list.len()
        } else {
            from
        })
        &&& entries_of(self.found@) == self.request.of(self.offered@)
    }

    /// What was asked for.
    pub closed spec fn request(self) -> PageRequest {
        self.request
    }

    /// The relayers that have been offered.
    pub closed spec fn offered(self) -> Entries {
        self.offered@
    }

    /// A page to which nothing has been offered.
    pub fn new(request: PageRequest) -> (page: Page)
        ensures
            page.request() == request,
            page.offered() == Seq::<(Seq<char>, RelayerState)>::empty(),
    {
        let found: Vec<(String, RelayerState)> = Vec::new();
        proof {
            reveal(Seq::filter);
            assert(entries_of(found@) =~= request.of(Seq::empty()));
        }
        Page { request, passed: 0, found, offered: Ghost(Seq::empty()) }
    }

    /// Whether the page has as many entries as it can have.
    pub fn is_full(&self) -> (full: bool)
        ensures
            full == (self.request().of(self.offered()).len() == page_limit(self.request().limit)),
    {
        proof {
            use_type_invariant(self);
            assert(entries_of(self.found@).len() == self.found@.len());
        }
        let most: usize = match self.request.limit {
            Some(limit) => limit as usize,
            None => 100,
        };
        self.found.len() == most
    }

    /// Offers the next of the listed relayers.
    pub fn offer(self, account_id: String, state: RelayerState) -> (page: Page)
        ensures
            page.request() == self.request(),
            page.offered() == self.offered().push((account_id@, state)),
    {
        proof {
            use_type_invariant(&self);
        }
        let request = self.request;
        let ghost before = self.offered@;
        let ghost entry = (account_id@, state);
        let from: usize = match request.from_index {
            Some(from) => from as usize,
            None => 0,
        };
        let most: usize = match request.limit {
            Some(limit) => limit as usize,
            None => 100,
        };
        proof {
            let list = having_status(before, request.active, request.now);
            lemma_status_push(before, entry, request.active, request.now);
            lemma_page_push(list, entry, from as nat, most as nat);
        }
        let mut passed = self.passed;
        let mut found = self.found;
        let ghost so_far = found@;
        assert(entries_of(so_far).len() == so_far.len());
        if state.is_active(request.now) == request.active {
            if passed < from {
                passed = passed + 1;
            } else if found.len() < most {
                found.push((account_id, state));
                assert(entries_of(found@) =~= entries_of(so_far).push(entry));
            }
        }
        Page { request, passed, found, offered: Ghost(before.push(entry)) }
    }

    /// The page of the relayers that have been offered.
    pub fn finish(self) -> (found: Vec<(String, RelayerState)>)
        ensures
            entries_of(found@) == self.request().of(self.offered()),
    {
        proof {
            use_type_invariant(&self);
        }
        self.found
    }
}

/// The page of relayers of one status that a caller asks for. No more of the list is read than
/// the page takes.
fn list_page(relayers: &RelayerMap, request: PageRequest) -> (found: Vec<(String, RelayerState)>)
    ensures
        entries_of(found@) == request.of(relayers@),
{
    let entries = relayers.entries();
    let ghost list = relayers@;
    let mut page = Page::new(request);
    let n: usize = entries.len();
    let mut i: usize = 0;
    assert(list.take(0) =~= Seq::empty());
    while i < n && !page.is_full()
        invariant
            i <= n,
            n == entries@.len(),
            list == entries_of(entries@),
            page.request() == request,
            page.offered() == list.take(i as int),
        ensures
            i <= n,
            page.request() == request,
            page.offered() == list.take(i as int),
            i == n || request.of(page.offered()).len() == page_limit(request.limit),
        decreases n - i,
    {
        page = page.offer(entries[i].0.clone(), entries[i].1);
        assert(list.take(i + 1) =~= list.take(i as int).push(list[i as int]));
        i = i + 1;
    }
    proof {
        assert(list.take(i as int) + list.skip(i as int) =~= list);
        if i < n {
            law_full_page_stays(
                list.take(i as int),
                list.skip(i as int),
                request.active,
                request.now,
                request.from_index,
                request.limit,
            );
        } else {
            assert(list.take(n as int) =~= list);
        }
    }
    page.finish()
}

/// A contract with staked relayers.
///
/// Who is trusted can be decided otherwise by overriding `is_trusted_relayer`. The other
/// operations keep the registry; the public methods of the contract delegate to them.
pub trait TrustedRelayer: Sized {
    /// Whether the account is trusted. Unless overridden: the contract itself is, and so is
    /// every active relayer.
    fn is_trusted_relayer(&self, store: &RelayerStore, call: &Call, account_id: &str) -> (trusted:
        bool)
        default_ensures
            trusted == trusted_by_default(store@, call@, account_id@),
    {
        if *account_id == *call.current_account.as_str() {
            return true;
        }
        match store.relayers.get(account_id) {
            Some(state) => state.is_active(call.block_timestamp),
            None => false,
        }
    }

    /// Lists the caller as an applicant, with the required stake out of what it attached.
    fn _tr_apply(&mut self, store: &mut RelayerStore, call: &Call) -> (outcome: Result<
        Applied,
        RelayerError,
    >)
        ensures
            *final(self) == *old(self),
            match apply_refusal(old(store)@, call@) {
                Some(error) => outcome == Err::<Applied, RelayerError>(error) && *final(store)
                    == *old(store),
                None => {
                    &&& outcome matches Ok(applied)
                    &&& applied.event@ == apply_event(old(store)@, call@)
                    &&& transfer_of(applied.refund) == apply_refund(old(store)@, call@)
                    &&& final(store)@ == after_apply(old(store)@, call@)
                    &&& final(store).relayers.modified()
                },
            },
    {
        if store.relayers.get(call.predecessor.as_str()).is_some() {
            return Err(RelayerError::AlreadyApplied);
        }
        let config = match tr_load_config(&store.config) {
            Ok(config) => config,
            Err(error) => return Err(error),
        };
        if call.attached_deposit < config.stake_required {
            return Err(RelayerError::InsufficientStake);
        }
        let activate_at: u64 = call.block_timestamp.saturating_add(config.waiting_period_ns);
        let excess: u128 = call.attached_deposit.saturating_sub(config.stake_required);
        let ghost before = store@;
        store.relayers.insert(
            call.predecessor.clone(),
            RelayerState { stake: config.stake_required, activate_at },
        );
        assert(store@ == after_apply(before, call@));
        let event = TrustedRelayerEvent::RelayerApplyEvent {
            account_id: call.predecessor.clone(),
            stake: config.stake_required,
            activate_at,
        };
        let refund = if excess > 0 {
            Some(Transfer { receiver: call.predecessor.clone(), amount: excess })
        } else {
            None
        };
        Ok(Applied { event, refund })
    }

    /// Takes the caller, an active relayer, off the list and gives it its stake back.
    fn _tr_resign(&mut self, store: &mut RelayerStore, call: &Call) -> (outcome: Result<
        Left,
        RelayerError,
    >)
        ensures
            *final(self) == *old(self),
            match resign_refusal(old(store)@, call@) {
                Some(error) => outcome == Err::<Left, RelayerError>(error) && *final(store)
                    == *old(store),
                None => {
                    let stake = stake_of(old(store)@, call@.predecessor);
                    &&& outcome matches Ok(left)
                    &&& left.event@ == (EventView::Resign { account_id: call@.predecessor, stake })
                    &&& left.payout@ == (TransferView { receiver: call@.predecessor, amount: stake })
                    &&& final(store)@ == after_leaving(old(store)@, call@.predecessor)
                    &&& final(store).relayers.modified()
                },
            },
    {
        let state = match store.relayers.get(call.predecessor.as_str()) {
            Some(state) => state,
            None => return Err(RelayerError::RelayerNotFound),
        };
        if !state.is_active(call.block_timestamp) {
            return Err(RelayerError::NotActiveYet);
        }
        let _ = store.relayers.remove(call.predecessor.as_str());
        Ok(
            Left {
                event: TrustedRelayerEvent::RelayerResignEvent {
                    account_id: call.predecessor.clone(),
                    stake: state.stake,
                },
                payout: Transfer { receiver: call.predecessor.clone(), amount: state.stake },
            },
        )
    }

    /// Takes an account off the list, whether active or not. Its stake goes to the caller.
    fn _tr_reject(&mut self, store: &mut RelayerStore, call: &Call, account_id: &str) -> (outcome:
        Result<Left, RelayerError>)
        ensures
            *final(self) == *old(self),
            match reject_refusal(old(store)@, account_id@) {
                Some(error) => outcome == Err::<Left, RelayerError>(error) && *final(store)
                    == *old(store),
                None => {
                    let stake = stake_of(old(store)@, account_id@);
                    &&& outcome matches Ok(left)
                    &&& left.event@ == (EventView::Reject { account_id: account_id@, stake })
                    &&& left.payout@ == (TransferView { receiver: call@.predecessor, amount: stake })
                    &&& final(store)@ == after_leaving(old(store)@, account_id@)
                    &&& final(store).relayers.modified()
                },
            },
    {
        let state = match store.relayers.get(account_id) {
            Some(state) => state,
            None => return Err(RelayerError::ApplicationNotFound),
        };
        let _ = store.relayers.remove(account_id);
        Ok(
            Left {
                event: TrustedRelayerEvent::RelayerRejectEvent {
                    account_id: account_id.to_owned(),
                    stake: state.stake,
                },
                payout: Transfer { receiver: call.predecessor.clone(), amount: state.stake },
            },
        )
    }

    /// Sets the configuration for the applications to come.
    fn _tr_set_config(
        &mut self,
        store: &mut RelayerStore,
        stake_required: u128,
        waiting_period_ns: u64,
    )
        ensures
            stored_config(final(store)@.config) == Some(
                RelayerConfig { stake_required, waiting_period_ns },
            ),
            final(store)@.config == Some(
                config_bytes(RelayerConfig { stake_required, waiting_period_ns }),
            ),
            final(store).relayers == old(store).relayers,
            *final(self) == *old(self),
    {
        tr_save_config(&mut store.config, &RelayerConfig { stake_required, waiting_period_ns });
    }

    /// The application of an account that is still waiting.
    fn _tr_get_application(&self, store: &RelayerStore, call: &Call, account_id: &str) -> (found:
        Option<RelayerState>)
        ensures
            found == (match state_of(store@.relayers, account_id@) {
                Some(state) => if state.active(call@.now) {
                    None
                } else {
                    Some(state)
                },
                None => None,
            }),
    {
        match store.relayers.get(account_id) {
            Some(state) => if state.is_active(call.block_timestamp) {
                None
            } else {
                Some(state)
            },
            None => None,
        }
    }

    /// The stake of an account that is active.
    fn _tr_get_stake(&self, store: &RelayerStore, call: &Call, account_id: &str) -> (found: Option<
        u128,
    >)
        ensures
            found == (match state_of(store@.relayers, account_id@) {
                Some(state) => if state.active(call@.now) {
                    Some(state.stake)
                } else {
                    None
                },
                None => None,
            }),
    {
        match store.relayers.get(account_id) {
            Some(state) => if state.is_active(call.block_timestamp) {
                Some(state.stake)
            } else {
                None
            },
            None => None,
        }
    }

    /// The configuration in force.
    fn _tr_get_config(&self, store: &RelayerStore) -> (loaded: Result<RelayerConfig, RelayerError>)
        ensures
            match stored_config(store@.config) {
                Some(config) => loaded == Ok::<RelayerConfig, RelayerError>(config),
                None => loaded == Err::<RelayerConfig, RelayerError>(
                    RelayerError::ConfigUnreadable,
                ),
            },
    {
        tr_load_config(&store.config)
    }

    /// A page of the relayers that are active.
    fn _tr_get_active_relayers(
        &self,
        store: &RelayerStore,
        call: &Call,
        from_index: Option<u32>,
        limit: Option<u32>,
    ) -> (found: Vec<(String, RelayerState)>)
        ensures
            entries_of(found@) == status_page(
                store@.relayers,
                true,
                call@.now,
                from_index,
                limit,
            ),
    {
        list_page(
            &store.relayers,
            PageRequest { active: true, now: call.block_timestamp, from_index, limit },
        )
    }

    /// A page of the applicants that are still waiting.
    fn _tr_get_pending_relayers(
        &self,
        store: &RelayerStore,
        call: &Call,
        from_index: Option<u32>,
        limit: Option<u32>,
    ) -> (found: Vec<(String, RelayerState)>)
        ensures
            entries_of(found@) == status_page(
                store@.relayers,
                false,
                call@.now,
                from_index,
                limit,
            ),
    {
        list_page(
            &store.relayers,
            PageRequest { active: false, now: call.block_timestamp, from_index, limit },
        )
    }
}

/// A transfer that may not be there, with its receiver by its characters.
pub open spec fn transfer_of(transfer: Option<Transfer>) -> Option<TransferView> {
    match transfer {
        Some(transfer) => Some(transfer@),
        None => None,
    }
}

} // verus!
