//! What a contract with relayers does at run time: whom it trusts, and whom it lets do what.
//!
//! The code that `#[trusted_relayer]` writes into a contract is meant to decide in these ways. That
//! it does is seen by reading the templates; nothing here is proved of the generated code.

use crate::config::{stored_config, RelayerConfig};
use crate::event::EventView;
use crate::relayer_error::RelayerError;
use crate::text::texts;
use crate::trusted_relayer::{active_relayer, after_leaving, reject_refusal, stake_of};
use crate::trusted_relayer::{Call, Left, RelayerStore, TransferView, TrustedRelayer};
use vstd::prelude::*;

verus! {

/// A contract that decides in the usual way: it trusts itself and the active relayers.
#[derive(Clone, Copy, Debug)]
pub struct StakedRelayers;

impl TrustedRelayer for StakedRelayers {

}

/// A contract with bypass roles: it trusts whoever holds one of them, and the active
/// relayers. Itself it trusts only where it holds such a role.
#[derive(Clone, Debug)]
pub struct RoleBypass {
    /// The accounts that hold a bypass role, as the access control has them.
    pub holders: Vec<String>,
}

/// Whether an account is among those of a list.
fn is_among(accounts: &Vec<String>, account_id: &str) -> (found: bool)
    ensures
        found == texts(accounts@).contains(account_id@),
{
    let n: usize = accounts.len();
    for i in 0..n
        invariant
            n == accounts@.len(),
            forall|k: int| 0 <= k < i ==> #[trigger] texts(accounts@)[k] != account_id@,
    {
        assert(texts(accounts@)[i as int] == accounts@[i as int]@);
        if *accounts[i].as_str() == *account_id {
            return true;
        }
    }
    false
}

impl TrustedRelayer for RoleBypass {
    fn is_trusted_relayer(&self, store: &RelayerStore, call: &Call, account_id: &str) -> (trusted:
        bool)
        ensures
            trusted == (texts(self.holders@).contains(account_id@) || active_relayer(
                store@,
                account_id@,
                call@.now,
            )),
    {
        if is_among(&self.holders, account_id) {
            return true;
        }
        match store.relayers.get(account_id) {
            Some(state) => state.is_active(call.block_timestamp),
            None => false,
        }
    }
}

/// What a guard says of a caller, given whether it is trusted.
pub fn require_trusted(trusted: bool) -> (verdict: Result<(), RelayerError>)
    ensures
        trusted ==> verdict == Ok::<(), RelayerError>(()),
        !trusted ==> verdict == Err::<(), RelayerError>(RelayerError::NotTrusted),
{
    if trusted {
        Ok(())
    } else {
        Err(RelayerError::NotTrusted)
    }
}

/// Why something that takes a role is refused.
#[derive(Clone, Copy, Debug, PartialEq, Eq, Structural)]
pub enum ManagerError {
    /// The caller holds none of the roles that the method takes. What the call then ends with is
    /// up to the access control.
    NotPermitted,
    /// The registry refuses it.
    Refused(RelayerError),
}

/// Rejects a relayer, where the caller holds a manager role as the access control has it.
pub fn reject_relayer_application<C: TrustedRelayer>(
    contract: &mut C,
    store: &mut RelayerStore,
    call: &Call,
    is_manager: bool,
    account_id: &str,
) -> (outcome: Result<Left, ManagerError>)
    ensures
        *final(contract) == *old(contract),
        !is_manager ==> outcome == Err::<Left, ManagerError>(ManagerError::NotPermitted)
            && *final(store) == *old(store),
        is_manager ==> match reject_refusal(old(store)@, account_id@) {
            Some(error) => outcome == Err::<Left, ManagerError>(ManagerError::Refused(error))
                && *final(store) == *old(store),
            None => {
                let stake = stake_of(old(store)@, account_id@);
                &&& outcome matches Ok(left)
                &&& left.event@ == (EventView::Reject { account_id: account_id@, stake })
                &&& left.payout@ == (TransferView { receiver: call@.predecessor, amount: stake })
                &&& final(store)@ == after_leaving(old(store)@, account_id@)
                &&& final(store).relayers.modified()
            },
        },
{
    if !is_manager {
        return Err(ManagerError::NotPermitted);
    }
    match contract._tr_reject(store, call, account_id) {
        Ok(left) => Ok(left),
        Err(error) => Err(ManagerError::Refused(error)),
    }
}

/// Sets the configuration, where the caller holds a role that may, as the access control has
/// it.
pub fn set_relayer_config<C: TrustedRelayer>(
    contract: &mut C,
    store: &mut RelayerStore,
    may_configure: bool,
    stake_required: u128,
    waiting_period_ns: u64,
) -> (outcome: Result<(), ManagerError>)
    ensures
        *final(contract) == *old(contract),
        !may_configure ==> outcome == Err::<(), ManagerError>(ManagerError::NotPermitted)
            && *final(store) == *old(store),
        may_configure ==> outcome == Ok::<(), ManagerError>(()) && stored_config(
            final(store)@.config,
        ) == Some(RelayerConfig { stake_required, waiting_period_ns }) && final(store).relayers
            == old(store).relayers,
{
    if !may_configure {
        return Err(ManagerError::NotPermitted);
    }
    contract._tr_set_config(store, stake_required, waiting_period_ns);
    Ok(())
}

} // verus!
