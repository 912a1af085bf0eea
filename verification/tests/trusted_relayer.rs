use std::collections::{HashMap, HashSet};

use near_sdk::NearToken;
use omni_utils_core::config::RelayerConfig;
use omni_utils_core::contract::{
    reject_relayer_application, require_trusted, set_relayer_config, ManagerError, RoleBypass,
};
use omni_utils_core::macro_args::{parse_params, MacroParam, TrustedRelayerImplArgs};
use omni_utils_core::relayer_error::RelayerError;
use omni_utils_core::relayer_map::{RelayerMap, RelayerState};
use omni_utils_core::trusted_relayer::{Call, RelayerStore, TrustedRelayer};
use proc_macro2::TokenStream;

const SECOND: u64 = 1_000_000_000;

/// What every transaction costs its signer.
const GAS_FEE: u128 = 1_000_000_000_000_000_000_000;

const CONTRACT_ARGS: &str = "
    manager_roles(Role::Admin, Role::RelayerManager),
    config_roles(Role::Admin),
    bypass_roles(Role::Relayer),
";

const CUSTOM_CONTRACT_ARGS: &str = "
    manager_roles(Role::Admin),
    config_roles(Role::Admin),
    custom_is_trusted_relayer
";

const SPECIAL_METHOD_ARGS: &str = "bypass_roles(Role::SpecialRelayer)";

fn tokens(text: &str) -> TokenStream {
    text.parse().unwrap()
}

fn near(amount: u128) -> u128 {
    NearToken::from_near(amount).as_yoctonear()
}

/// `Role::Admin` as `Admin`.
fn role_names(roles: &[TokenStream]) -> Vec<String> {
    roles
        .iter()
        .map(|role| role.to_string().replace(' ', "").replace("Role::", ""))
        .collect()
}

/// Which accounts hold which roles.
#[derive(Default)]
struct Acl {
    grants: HashSet<(String, String)>,
}

impl Acl {
    fn has_any_role(&self, roles: &[String], account: &str) -> bool {
        roles
            .iter()
            .any(|role| self.grants.contains(&(role.clone(), account.to_string())))
    }

    fn holders(&self, roles: &[String]) -> RoleBypass {
        let mut holders: Vec<String> = self
            .grants
            .iter()
            .filter(|(role, _)| roles.contains(role))
            .map(|(_, account)| account.clone())
            .collect();
        holders.sort();
        RoleBypass { holders }
    }
}

/// A contract that always trusts one account, besides itself and the active relayers.
struct CustomContract {
    always_trusted: Option<String>,
}

impl TrustedRelayer for CustomContract {
    fn is_trusted_relayer(&self, store: &RelayerStore, call: &Call, account_id: &str) -> bool {
        if let Some(trusted) = &self.always_trusted {
            if account_id == trusted {
                return true;
            }
        }
        if account_id == call.current_account {
            return true;
        }
        store
            .relayers
            .get(account_id)
            .is_some_and(|state| call.block_timestamp >= state.activate_at)
    }
}

/// A chain with one contract on it.
struct Env {
    id: String,
    args: TrustedRelayerImplArgs,
    custom: Option<CustomContract>,
    acl: Acl,
    store: RelayerStore,
    value: u64,
    now: u64,
    accounts: usize,
    balances: HashMap<String, u128>,
    logs: Vec<String>,
}

fn deploy(args: &str, custom: Option<CustomContract>) -> Env {
    let id = "contract.sandbox".to_string();
    Env {
        args: TrustedRelayerImplArgs::parse(&tokens(args)).ok().expect("valid arguments"),
        custom,
        acl: Acl::default(),
        store: RelayerStore {
            config: None,
            relayers: RelayerMap::new(),
        },
        value: 0,
        now: 1_700_000_000 * SECOND,
        accounts: 0,
        balances: HashMap::from([(id.clone(), near(50))]),
        logs: Vec::new(),
        id,
    }
}

fn deploy_contract() -> Env {
    deploy(CONTRACT_ARGS, None)
}

fn deploy_custom_contract(always_trusted: Option<&str>) -> Env {
    deploy(
        CUSTOM_CONTRACT_ARGS,
        Some(CustomContract {
            always_trusted: always_trusted.map(str::to_string),
        }),
    )
}

impl Env {
    fn create_account(&mut self, amount: u128) -> String {
        let id = format!("{}.sandbox", self.accounts);
        self.accounts += 1;
        self.balances.insert(id.clone(), near(amount));
        id
    }

    fn grant_role(&mut self, role: &str, account: &str) {
        self.acl.grants.insert((role.to_string(), account.to_string()));
    }

    fn balance(&self, account: &str) -> u128 {
        self.balances[account]
    }

    fn pay(&mut self, account: &str, amount: u128) {
        *self.balances.get_mut(account).unwrap() += amount;
    }

    fn fast_forward(&mut self, blocks: u64) {
        self.now += blocks * SECOND;
    }

    /// Starts a transaction: a block later, and its signer has paid for it.
    fn call(&mut self, predecessor: &str, deposit: u128) -> Call {
        self.fast_forward(1);
        *self.balances.get_mut(predecessor).unwrap() -= GAS_FEE + deposit;
        self.view(predecessor, deposit)
    }

    fn view(&self, predecessor: &str, deposit: u128) -> Call {
        Call {
            predecessor: predecessor.to_string(),
            current_account: self.id.clone(),
            attached_deposit: deposit,
            block_timestamp: self.now,
        }
    }

    fn read(&self) -> Call {
        self.view("", 0)
    }

    /// The contract as its arguments make it.
    fn contract(&self) -> RoleBypass {
        match &self.args.bypass_roles {
            Some(roles) => self.acl.holders(&role_names(roles)),
            None => RoleBypass { holders: vec![] },
        }
    }

    fn apply(&mut self, account: &str, deposit: u128) -> Result<(), RelayerError> {
        let call = self.call(account, deposit);
        match self.contract()._tr_apply(&mut self.store, &call) {
            Ok(applied) => {
                self.logs.push(applied.event.emit());
                if let Some(refund) = applied.refund {
                    self.pay(&refund.receiver, refund.amount);
                }
                Ok(())
            }
            Err(error) => {
                self.pay(account, deposit);
                Err(error)
            }
        }
    }

    fn resign(&mut self, account: &str) -> Result<(), RelayerError> {
        let call = self.call(account, 0);
        let left = self.contract()._tr_resign(&mut self.store, &call)?;
        self.logs.push(left.event.emit());
        self.pay(&left.payout.receiver, left.payout.amount);
        Ok(())
    }

    fn reject(&mut self, manager: &str, account: &str) -> Result<(), ManagerError> {
        let call = self.call(manager, 0);
        let is_manager = self.acl.has_any_role(&role_names(&self.args.manager_roles), manager);
        let mut contract = self.contract();
        let left =
            reject_relayer_application(&mut contract, &mut self.store, &call, is_manager, account)?;
        self.logs.push(left.event.emit());
        self.pay(&left.payout.receiver, left.payout.amount);
        Ok(())
    }

    fn set_config(
        &mut self,
        account: &str,
        stake_near: u128,
        waiting_period_ns: u64,
    ) -> Result<(), ManagerError> {
        self.call(account, 0);
        let may_configure = self.acl.has_any_role(&role_names(&self.args.config_roles), account);
        let mut contract = self.contract();
        set_relayer_config(
            &mut contract,
            &mut self.store,
            may_configure,
            near(stake_near),
            waiting_period_ns,
        )
    }

    fn is_trusted(&self, call: &Call, account: &str) -> bool {
        match &self.custom {
            Some(custom) => custom.is_trusted_relayer(&self.store, call, account),
            None => self.contract().is_trusted_relayer(&self.store, call, account),
        }
    }

    fn is_trusted_relayer(&self, account: &str) -> bool {
        self.is_trusted(&self.read(), account)
    }

    fn guarded(&mut self, account: &str, increment: u64) -> Result<u64, RelayerError> {
        let call = self.call(account, 0);
        require_trusted(self.is_trusted(&call, account))?;
        self.value += increment;
        Ok(self.value)
    }

    fn relayer_only_method(&mut self, account: &str) -> Result<u64, RelayerError> {
        self.guarded(account, 1)
    }

    fn relayer_only_method_secondary(&mut self, account: &str) -> Result<u64, RelayerError> {
        self.guarded(account, 10)
    }

    fn guarded_method(&mut self, account: &str) -> Result<u64, RelayerError> {
        self.guarded(account, 1)
    }

    /// A method whose own bypass roles take the place of those of the contract.
    fn special_relayer_method(&mut self, account: &str) -> Result<u64, RelayerError> {
        let call = self.call(account, 0);
        let params = parse_params(&tokens(SPECIAL_METHOD_ARGS)).ok().unwrap().params;
        let holders = match &params[0] {
            MacroParam::RoleList { name, roles } if name.text == "bypass_roles" => {
                self.acl.holders(&role_names(roles))
            }
            _ => panic!("a list of bypass roles"),
        };
        require_trusted(holders.is_trusted_relayer(&self.store, &call, account))?;
        self.value += 100;
        Ok(self.value)
    }

    fn config(&self) -> RelayerConfig {
        self.contract()._tr_get_config(&self.store).unwrap()
    }

    fn application(&self, account: &str) -> Option<RelayerState> {
        self.contract()._tr_get_application(&self.store, &self.read(), account)
    }

    fn stake(&self, account: &str) -> Option<u128> {
        self.contract()._tr_get_stake(&self.store, &self.read(), account)
    }

    fn active(&self, from: Option<u32>, limit: Option<u32>) -> Vec<(String, RelayerState)> {
        self.contract()
            ._tr_get_active_relayers(&self.store, &self.read(), from, limit)
    }

    fn pending(&self, from: Option<u32>, limit: Option<u32>) -> Vec<(String, RelayerState)> {
        self.contract()
            ._tr_get_pending_relayers(&self.store, &self.read(), from, limit)
    }
}

/// A contract with an admin who has set the given stake and waiting period.
fn configured(stake_near: u128, waiting_period_ns: u64) -> (Env, String) {
    let mut env = deploy_contract();
    let admin = env.create_account(10);
    env.grant_role("Admin", &admin);
    env.set_config(&admin, stake_near, waiting_period_ns).unwrap();
    (env, admin)
}

#[test]
fn test_default_relayer_config() {
    let env = deploy_contract();
    let cfg = env.config();
    assert_eq!(
        cfg.stake_required,
        1000 * 10u128.pow(24),
        "Default stake should be 1000 NEAR"
    );
    assert_eq!(
        cfg.waiting_period_ns,
        7 * 24 * 60 * 60 * 1_000_000_000u64,
        "Default waiting period should be 7 days"
    );
}

#[test]
fn test_set_config_by_manager() {
    let (env, _) = configured(5, 1_000_000_000);
    let config = env.config();
    assert_eq!(config.stake_required, 5 * 10u128.pow(24));
    assert_eq!(config.waiting_period_ns, 1_000_000_000);
}

#[test]
fn test_set_config_by_non_manager_fails() {
    let mut env = deploy_contract();
    let random = env.create_account(10);
    let result = env.set_config(&random, 5, 0);
    assert!(result.is_err(), "Non-admin should not be able to set config");
    assert_eq!(result, Err(ManagerError::NotPermitted));
    assert_eq!(env.config(), RelayerConfig::default());
}

#[test]
fn test_apply_with_sufficient_stake() {
    let (mut env, _) = configured(5, u64::MAX);
    let relayer = env.create_account(20);
    env.apply(&relayer, near(5)).expect("Apply should succeed");
    let app = env.application(&relayer);
    assert!(app.is_some(), "Application should exist for the relayer");
    assert_eq!(
        app.unwrap().stake,
        5 * 10u128.pow(24),
        "Stake should match configured amount"
    );
}

#[test]
fn test_apply_with_insufficient_stake() {
    let (mut env, _) = configured(5, 0);
    let relayer = env.create_account(20);
    let result = env.apply(&relayer, near(1));
    assert!(result.is_err(), "Should fail with insufficient stake");
    assert_eq!(result, Err(RelayerError::InsufficientStake));
    assert_eq!(env.store.relayers.len(), 0);
}

#[test]
fn test_apply_with_excess_stake_refunds() {
    let (mut env, _) = configured(5, 0);
    let relayer = env.create_account(30);
    let balance_before = env.balance(&relayer);
    env.apply(&relayer, near(10)).expect("Apply should succeed");
    let balance_after = env.balance(&relayer);
    let diff_yocto = balance_before - balance_after;
    let five_near = 5 * 10u128.pow(24);
    let six_near = 6 * 10u128.pow(24);
    assert!(
        diff_yocto > five_near && diff_yocto < six_near,
        "Excess should be refunded. Spent {diff_yocto} yoctoNEAR, expected ~{five_near}"
    );
    assert_eq!(diff_yocto, five_near + GAS_FEE);
}

#[test]
fn test_duplicate_application_fails() {
    let (mut env, _) = configured(5, 0);
    let relayer = env.create_account(30);
    env.apply(&relayer, near(5)).expect("First apply should succeed");
    let result = env.apply(&relayer, near(5));
    assert!(result.is_err(), "Duplicate application should fail");
    assert_eq!(result, Err(RelayerError::AlreadyApplied));
}

#[test]
fn test_relayer_not_active_before_waiting_period() {
    let (mut env, _) = configured(5, 3_600_000_000_000);
    let relayer = env.create_account(20);
    env.apply(&relayer, near(5)).expect("Apply should succeed");
    assert!(
        !env.is_trusted_relayer(&relayer),
        "Relayer should not be active before waiting period"
    );
}

#[test]
fn test_relayer_activation_after_waiting_period() {
    let (mut env, _) = configured(5, 5_000_000_000);
    let relayer = env.create_account(20);
    env.apply(&relayer, near(5)).expect("Apply should succeed");
    env.fast_forward(200);
    assert!(
        env.is_trusted_relayer(&relayer),
        "Relayer should be active after waiting period"
    );
    assert!(
        env.stake(&relayer).is_some(),
        "Active relayer should have stake visible"
    );
    assert_eq!(env.stake(&relayer), Some(near(5)));
}

#[test]
fn test_resign_active_relayer() {
    let (mut env, _) = configured(5, 0);
    let relayer = env.create_account(20);
    env.apply(&relayer, near(5)).expect("Apply should succeed");
    let balance_before_resign = env.balance(&relayer);
    env.resign(&relayer).expect("Resign should succeed");
    assert!(
        !env.is_trusted_relayer(&relayer),
        "Relayer should no longer be trusted after resignation"
    );
    let balance_after = env.balance(&relayer);
    assert!(
        balance_after > balance_before_resign,
        "Balance should increase after stake refund"
    );
    assert_eq!(balance_after, balance_before_resign + near(5) - GAS_FEE);
}

#[test]
fn test_resign_before_activation_fails() {
    let (mut env, _) = configured(5, 3_600_000_000_000);
    let relayer = env.create_account(20);
    env.apply(&relayer, near(5)).expect("Apply should succeed");
    let result = env.resign(&relayer);
    assert!(result.is_err(), "Resign before activation should fail");
    assert_eq!(result, Err(RelayerError::NotActiveYet));
    assert!(env.application(&relayer).is_some());
}

#[test]
fn test_reject_by_manager() {
    let (mut env, admin) = configured(5, 3_600_000_000_000);
    let relayer = env.create_account(20);
    env.apply(&relayer, near(5)).expect("Apply should succeed");
    let admin_balance_before = env.balance(&admin);
    env.reject(&admin, &relayer).expect("Reject should succeed");
    assert!(
        env.application(&relayer).is_none(),
        "Application should be removed after rejection"
    );
    let admin_balance_after = env.balance(&admin);
    assert!(
        admin_balance_after > admin_balance_before,
        "Admin should receive the rejected stake"
    );
    assert_eq!(admin_balance_after, admin_balance_before + near(5) - GAS_FEE);
}

#[test]
fn test_reject_by_non_manager_fails() {
    let (mut env, _) = configured(5, 0);
    let relayer = env.create_account(20);
    let random = env.create_account(10);
    env.apply(&relayer, near(5)).expect("Apply should succeed");
    let result = env.reject(&random, &relayer);
    assert!(
        result.is_err(),
        "Non-admin should not be able to reject applications"
    );
    assert_eq!(result, Err(ManagerError::NotPermitted));
    assert!(env.is_trusted_relayer(&relayer));
}

#[test]
fn test_relayer_only_method_with_active_relayer() {
    let (mut env, _) = configured(5, 0);
    let relayer = env.create_account(20);
    env.apply(&relayer, near(5)).expect("Apply should succeed");
    env.relayer_only_method(&relayer)
        .expect("Relayer-only method should succeed for active relayer");
    assert_eq!(env.value, 1, "Value should be incremented by relayer method");
}

#[test]
fn test_relayer_only_method_without_relayer() {
    let mut env = deploy_contract();
    let random = env.create_account(10);
    let result = env.relayer_only_method(&random);
    assert!(
        result.is_err(),
        "Non-relayer should not be able to call relayer-only method"
    );
    assert_eq!(result, Err(RelayerError::NotTrusted));
    assert_eq!(env.value, 0);
}

#[test]
fn test_bypass_role_allows_relayer_method() {
    let mut env = deploy_contract();
    let bypasser = env.create_account(10);
    env.grant_role("Relayer", &bypasser);
    env.relayer_only_method(&bypasser)
        .expect("Bypass role holder should be able to call relayer method");
    assert_eq!(env.value, 1, "Value should be incremented");
}

#[test]
fn test_self_call_bypass() {
    let mut env = deploy_contract();
    let contract_id = env.id.clone();
    assert!(!env.is_trusted_relayer(&contract_id));
    env.grant_role("Relayer", &contract_id);
    env.relayer_only_method(&contract_id).expect("Self-call should succeed");
    assert_eq!(env.value, 1, "Self-call should increment value");
}

#[test]
fn test_secondary_relayer_method_with_active_relayer() {
    let (mut env, _) = configured(5, 0);
    let relayer = env.create_account(20);
    env.apply(&relayer, near(5)).expect("Apply should succeed");
    env.relayer_only_method_secondary(&relayer)
        .expect("Secondary relayer-only method should succeed for active relayer");
    assert_eq!(
        env.value, 10,
        "Value should be incremented by 10 from secondary method"
    );
}

#[test]
fn test_secondary_relayer_method_without_relayer() {
    let mut env = deploy_contract();
    let random = env.create_account(10);
    let result = env.relayer_only_method_secondary(&random);
    assert!(
        result.is_err(),
        "Non-relayer should not be able to call secondary relayer-only method"
    );
}

#[test]
fn test_secondary_bypass_role_allows_method() {
    let mut env = deploy_contract();
    let bypasser = env.create_account(10);
    env.grant_role("Relayer", &bypasser);
    env.relayer_only_method_secondary(&bypasser)
        .expect("Bypass role holder should be able to call secondary relayer method");
    assert_eq!(env.value, 10, "Value should be incremented by 10");
}

#[test]
fn test_relayer_manager_can_reject() {
    let (mut env, _) = configured(5, 3_600_000_000_000);
    let manager = env.create_account(10);
    let relayer = env.create_account(20);
    env.grant_role("RelayerManager", &manager);
    env.apply(&relayer, near(5)).expect("Apply should succeed");
    env.reject(&manager, &relayer)
        .expect("RelayerManager should be able to reject");
    assert!(
        env.application(&relayer).is_none(),
        "Application should be removed after rejection"
    );
}

#[test]
fn test_relayer_manager_cannot_set_config() {
    let mut env = deploy_contract();
    let manager = env.create_account(10);
    env.grant_role("RelayerManager", &manager);
    let result = env.set_config(&manager, 1, 0);
    assert!(
        result.is_err(),
        "RelayerManager should not be able to set config (requires Admin via config_roles)"
    );
}

#[test]
fn test_special_bypass_can_call_special_method() {
    let mut env = deploy_contract();
    let special = env.create_account(10);
    env.grant_role("SpecialRelayer", &special);
    env.special_relayer_method(&special)
        .expect("SpecialRelayer should bypass special_relayer_method");
    assert_eq!(env.value, 100, "Value should be incremented by 100");
}

#[test]
fn test_special_bypass_cannot_call_default_method() {
    let mut env = deploy_contract();
    let special = env.create_account(10);
    env.grant_role("SpecialRelayer", &special);
    let result = env.relayer_only_method(&special);
    assert!(
        result.is_err(),
        "SpecialRelayer should NOT be able to call relayer_only_method (uses impl-level bypass)"
    );
}

#[test]
fn test_default_bypass_cannot_call_special_method() {
    let mut env = deploy_contract();
    let relayer = env.create_account(10);
    env.grant_role("Relayer", &relayer);
    let result = env.special_relayer_method(&relayer);
    assert!(
        result.is_err(),
        "Relayer (impl-level bypass) should NOT be able to call special_relayer_method (overridden to SpecialRelayer)"
    );
}

#[test]
fn test_active_relayer_can_call_special_method() {
    let (mut env, _) = configured(5, 0);
    let relayer = env.create_account(20);
    env.apply(&relayer, near(5)).expect("Apply should succeed");
    env.special_relayer_method(&relayer)
        .expect("Active staked relayer should be able to call special_relayer_method");
    assert_eq!(env.value, 100, "Value should be incremented by 100");
}

#[test]
fn test_custom_always_trusted_can_call_guarded_method() {
    let mut env = deploy_custom_contract(Some("0.sandbox"));
    let trusted = env.create_account(10);
    env.guarded_method(&trusted)
        .expect("always_trusted account should bypass the relayer check");
    assert_eq!(env.value, 1, "Value should be incremented by 1");
}

#[test]
fn test_custom_random_account_cannot_call_guarded_method() {
    let mut env = deploy_custom_contract(Some("0.sandbox"));
    let _trusted = env.create_account(10);
    let random = env.create_account(10);
    let result = env.guarded_method(&random);
    assert!(
        result.is_err(),
        "Random account should not pass the custom is_trusted_relayer check"
    );
}

#[test]
fn test_custom_staked_relayer_can_call_guarded_method() {
    let mut env = deploy_custom_contract(None);
    let admin = env.create_account(10);
    let relayer = env.create_account(20);
    env.grant_role("Admin", &admin);
    env.set_config(&admin, 5, 0).unwrap();
    env.apply(&relayer, near(5)).expect("Apply should succeed");
    env.guarded_method(&relayer)
        .expect("Staked relayer should pass the custom is_trusted_relayer check");
    assert_eq!(env.value, 1, "Value should be incremented by 1");
}

#[test]
fn test_custom_no_always_trusted_random_fails() {
    let mut env = deploy_custom_contract(None);
    let random = env.create_account(10);
    let result = env.guarded_method(&random);
    assert!(
        result.is_err(),
        "Random account should not pass when no always_trusted is set and not staked"
    );
}

#[test]
fn test_custom_generated_public_methods_exist() {
    let mut env = deploy_custom_contract(Some("0.sandbox"));
    let trusted = env.create_account(10);
    assert!(
        env.is_trusted_relayer(&trusted),
        "Custom is_trusted_relayer should return true for always_trusted account"
    );
    assert_eq!(
        env.config(),
        RelayerConfig::default(),
        "get_relayer_config should return a valid config"
    );
    let contract_id = env.id.clone();
    env.grant_role("Admin", &contract_id);
    env.set_config(&contract_id, 1, 0)
        .expect("Admin should be able to set config");
    assert_eq!(env.config().stake_required, near(1));
}

#[test]
fn test_get_active_relayers_empty() {
    let env = deploy_contract();
    assert!(
        env.active(None, None).is_empty(),
        "Should return empty list when no relayers exist"
    );
}

#[test]
fn test_get_pending_relayers_empty() {
    let env = deploy_contract();
    assert!(
        env.pending(None, None).is_empty(),
        "Should return empty list when no relayers exist"
    );
}

#[test]
fn test_get_pending_relayers_returns_pending() {
    let (mut env, _) = configured(5, u64::MAX);
    let relayer = env.create_account(20);
    env.apply(&relayer, near(5)).expect("Apply should succeed");
    let pending = env.pending(None, None);
    assert_eq!(pending.len(), 1, "Should have one pending relayer");
    assert_eq!(pending[0].0, relayer, "Pending relayer account_id should match");
    assert!(
        env.active(None, None).is_empty(),
        "Should have no active relayers while pending"
    );
}

#[test]
fn test_get_active_relayers_returns_active() {
    let (mut env, _) = configured(5, 0);
    let relayer = env.create_account(20);
    env.apply(&relayer, near(5)).expect("Apply should succeed");
    let active = env.active(None, None);
    assert_eq!(active.len(), 1, "Should have one active relayer");
    assert_eq!(active[0].0, relayer, "Active relayer account_id should match");
    assert!(
        env.pending(None, None).is_empty(),
        "Should have no pending relayers when instantly active"
    );
}

#[test]
fn test_get_active_relayers_multiple_with_pagination() {
    let (mut env, _) = configured(5, 0);
    let mut relayers = Vec::new();
    for _ in 0..3 {
        let relayer = env.create_account(20);
        env.apply(&relayer, near(5)).expect("Apply should succeed");
        relayers.push(relayer);
    }
    let ids = |page: Vec<(String, RelayerState)>| -> Vec<String> {
        page.into_iter().map(|(id, _)| id).collect()
    };
    let all = ids(env.active(None, None));
    assert_eq!(all.len(), 3, "Should have 3 active relayers");
    assert_eq!(all, relayers);
    let page1 = ids(env.active(Some(0), Some(2)));
    assert_eq!(page1.len(), 2, "First page should have 2 relayers");
    assert_eq!(page1, relayers[..2]);
    let page2 = ids(env.active(Some(2), Some(2)));
    assert_eq!(page2.len(), 1, "Second page should have 1 relayer");
    assert_eq!(page2, relayers[2..]);
    let page3 = env.active(Some(10), Some(2));
    assert!(page3.is_empty(), "Page beyond range should be empty");
}

#[test]
fn test_get_pending_relayers_multiple_with_pagination() {
    let (mut env, _) = configured(5, u64::MAX);
    for _ in 0..3 {
        let relayer = env.create_account(20);
        env.apply(&relayer, near(5)).expect("Apply should succeed");
    }
    assert_eq!(env.pending(None, None).len(), 3, "Should have 3 pending relayers");
    let page1 = env.pending(Some(0), Some(1));
    assert_eq!(page1.len(), 1, "First page should have 1 relayer");
    let page2 = env.pending(Some(1), Some(2));
    assert_eq!(page2.len(), 2, "Second page should have 2 relayers");
}

#[test]
fn test_get_relayers_mixed_active_and_pending() {
    let (mut env, admin) = configured(5, 0);
    let active_relayer = env.create_account(20);
    env.apply(&active_relayer, near(5)).expect("Apply should succeed");
    env.set_config(&admin, 5, u64::MAX).unwrap();
    let pending_relayer = env.create_account(20);
    env.apply(&pending_relayer, near(5)).expect("Apply should succeed");
    let active = env.active(None, None);
    assert_eq!(active.len(), 1, "Should have exactly 1 active relayer");
    assert_eq!(
        active[0].0, active_relayer,
        "Active relayer should be the one with 0 waiting period"
    );
    let pending = env.pending(None, None);
    assert_eq!(pending.len(), 1, "Should have exactly 1 pending relayer");
    assert_eq!(
        pending[0].0, pending_relayer,
        "Pending relayer should be the one with long waiting period"
    );
}

#[test]
fn test_get_active_relayers_after_resign() {
    let (mut env, _) = configured(5, 0);
    let relayer = env.create_account(20);
    env.apply(&relayer, near(5)).expect("Apply should succeed");
    assert_eq!(
        env.active(None, None).len(),
        1,
        "Should have 1 active relayer before resign"
    );
    env.resign(&relayer).expect("Resign should succeed");
    assert!(
        env.active(None, None).is_empty(),
        "Should have no active relayers after resign"
    );
}

#[test]
fn log_lines_of_a_relayer() {
    let (mut env, admin) = configured(5, 0);
    let relayer = env.create_account(40);
    env.apply(&relayer, near(7)).unwrap();
    env.resign(&relayer).unwrap();
    env.apply(&relayer, near(5)).unwrap();
    env.reject(&admin, &relayer).unwrap();
    assert_eq!(
        env.logs,
        [
            "{\"RelayerApplyEvent\":{\"account_id\":\"1.sandbox\",\"stake\":\"5000000000000000000000000\",\"activate_at\":\"1700000002000000000\"}}",
            "{\"RelayerResignEvent\":{\"account_id\":\"1.sandbox\",\"stake\":\"5000000000000000000000000\"}}",
            "{\"RelayerApplyEvent\":{\"account_id\":\"1.sandbox\",\"stake\":\"5000000000000000000000000\",\"activate_at\":\"1700000004000000000\"}}",
            "{\"RelayerRejectEvent\":{\"account_id\":\"1.sandbox\",\"stake\":\"5000000000000000000000000\"}}",
        ]
    );
}

#[test]
fn stake_is_that_of_the_application() {
    let (mut env, admin) = configured(5, 0);
    let relayer = env.create_account(20);
    let before = env.balance(&relayer);
    env.apply(&relayer, near(5)).unwrap();
    env.set_config(&admin, 9, u64::MAX).unwrap();
    env.resign(&relayer).unwrap();
    assert_eq!(env.balance(&relayer), before - 2 * GAS_FEE);
    assert_eq!(env.apply(&relayer, near(8)), Err(RelayerError::InsufficientStake));
}

#[test]
fn unreadable_configuration_refuses_applications() {
    let mut env = deploy_contract();
    let relayer = env.create_account(20);
    env.store.config = Some(vec![0; 23]);
    assert_eq!(env.apply(&relayer, near(5)), Err(RelayerError::ConfigUnreadable));
    assert_eq!(
        env.contract()._tr_get_config(&env.store).map(|_| ()),
        Err(RelayerError::ConfigUnreadable)
    );
}

#[test]
fn unknown_relayers_cannot_leave() {
    let (mut env, admin) = configured(5, 0);
    let random = env.create_account(20);
    assert_eq!(env.resign(&random), Err(RelayerError::RelayerNotFound));
    assert_eq!(
        env.reject(&admin, &random),
        Err(ManagerError::Refused(RelayerError::ApplicationNotFound))
    );
}

#[test]
fn others_stay_when_one_leaves() {
    let (mut env, _) = configured(5, 0);
    let ids: Vec<String> = (0..4).map(|_| env.create_account(20)).collect();
    for id in &ids {
        env.apply(id, near(5)).unwrap();
    }
    env.resign(&ids[1]).unwrap();
    let left: Vec<String> = env.active(None, None).into_iter().map(|(id, _)| id).collect();
    assert_eq!(left, [ids[0].clone(), ids[3].clone(), ids[2].clone()]);
    assert_eq!(env.stake(&ids[0]), Some(near(5)));
    assert_eq!(env.stake(&ids[1]), None);
}

#[test]
fn contract_holds_what_relayers_have_staked() {
    let (mut env, admin) = configured(5, 0);
    let ids: Vec<String> = (0..3).map(|_| env.create_account(20)).collect();
    let total = |env: &Env| -> u128 { env.balances.values().sum() };
    let at_first = total(&env);
    env.apply(&ids[0], near(6)).unwrap();
    env.apply(&ids[1], near(5)).unwrap();
    env.set_config(&admin, 2, 0).unwrap();
    env.apply(&ids[2], near(9)).unwrap();
    env.resign(&ids[0]).unwrap();
    env.reject(&admin, &ids[2]).unwrap();
    assert_eq!(env.store.relayers.len(), 1);
    assert_eq!(at_first - total(&env), near(5) + 6 * GAS_FEE);
}

#[test]
fn waiting_ends_at_the_last_moment_of_time() {
    let (mut env, _) = configured(5, u64::MAX);
    let relayer = env.create_account(20);
    env.apply(&relayer, near(5)).unwrap();
    assert_eq!(env.application(&relayer).unwrap().activate_at, u64::MAX);
    env.now = u64::MAX - 1;
    assert!(!env.is_trusted_relayer(&relayer));
    env.now = u64::MAX;
    assert!(env.is_trusted_relayer(&relayer));
    assert_eq!(env.application(&relayer), None);
}

#[test]
fn first_hundred_without_a_limit() {
    let (mut env, _) = configured(1, 0);
    for _ in 0..101 {
        let relayer = env.create_account(20);
        env.apply(&relayer, near(1)).unwrap();
    }
    assert_eq!(env.active(None, None).len(), 100);
    assert_eq!(env.active(Some(100), None).len(), 1);
    assert_eq!(env.active(None, Some(0)).len(), 0);
}

#[test]
fn relayers_stay_trusted_until_they_leave() {
    let (mut env, admin) = configured(5, 0);
    let ids: Vec<String> = (0..3).map(|_| env.create_account(20)).collect();
    for id in &ids {
        env.apply(id, near(5)).unwrap();
    }
    env.set_config(&admin, 9, u64::MAX).unwrap();
    assert!(env.apply(&ids[0], near(9)).is_err());
    env.resign(&ids[1]).unwrap();
    env.reject(&admin, &ids[2]).unwrap();
    env.fast_forward(100);
    assert!(env.is_trusted_relayer(&ids[0]));
    assert!(!env.is_trusted_relayer(&ids[1]));
    assert!(!env.is_trusted_relayer(&ids[2]));
}
