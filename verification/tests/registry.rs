use near_sdk::borsh;
use near_sdk::json_types::U64;
use near_sdk::serde_json::Value;
use near_sdk::store::IterableMap;
use near_sdk::NearToken;
use omni_utils_core::config::{tr_load_config, tr_save_config, RelayerConfig};
use omni_utils_core::contract::{
    reject_relayer_application, require_trusted, set_relayer_config, ManagerError, StakedRelayers,
};
use omni_utils_core::event::TrustedRelayerEvent;
use omni_utils_core::relayer_error::RelayerError;
use omni_utils_core::relayer_map::{RelayerMap, RelayerState};
use omni_utils_core::text::decimal;
use omni_utils_core::trusted_relayer::{Call, Page, PageRequest, RelayerStore, TrustedRelayer};

fn state(stake: u128) -> RelayerState {
    RelayerState { stake, activate_at: 10 }
}

fn call(predecessor: &str, deposit: u128, now: u64) -> Call {
    Call {
        predecessor: predecessor.to_string(),
        current_account: "contract.near".to_string(),
        attached_deposit: deposit,
        block_timestamp: now,
    }
}

fn store(stake_required: u128, waiting_period_ns: u64) -> RelayerStore {
    let mut store = RelayerStore { config: None, relayers: RelayerMap::new() };
    StakedRelayers._tr_set_config(&mut store, stake_required, waiting_period_ns);
    store
}

#[test]
fn default_configuration() {
    let config = RelayerConfig::default();
    assert_eq!(config.stake_required, NearToken::from_near(1000).as_yoctonear());
    assert_eq!(config.stake_required, 1_000_000_000_000_000_000_000_000_000);
    assert_eq!(config.waiting_period_ns, 604_800_000_000_000);
    assert_eq!(tr_load_config(&None), Ok(config));
}

#[test]
fn saved_configuration_is_loaded() {
    for config in [
        RelayerConfig { stake_required: 0, waiting_period_ns: 0 },
        RelayerConfig { stake_required: 0x0102_0304, waiting_period_ns: 0x0506 },
        RelayerConfig { stake_required: u128::MAX, waiting_period_ns: u64::MAX },
    ] {
        let mut stored = None;
        tr_save_config(&mut stored, &config);
        assert_eq!(tr_load_config(&stored), Ok(config));
    }
}

#[test]
fn stored_bytes_are_those_of_near_types() {
    let config = RelayerConfig { stake_required: 0x0102_0304, waiting_period_ns: 0x0506 };
    let mut stored = Some(vec![9; 3]);
    tr_save_config(&mut stored, &config);
    let near_types = (NearToken::from_yoctonear(0x0102_0304), U64(0x0506));
    assert_eq!(stored, Some(borsh::to_vec(&near_types).unwrap()));
    let bytes = stored.unwrap();
    assert_eq!(bytes.len(), 24);
    assert_eq!(bytes[..5], [4, 3, 2, 1, 0]);
    assert_eq!(bytes[16..19], [6, 5, 0]);
}

#[test]
fn other_bytes_are_no_configuration() {
    for len in [0, 16, 23, 25, 48] {
        assert_eq!(tr_load_config(&Some(vec![1; len])), Err(RelayerError::ConfigUnreadable));
    }
    assert!(tr_load_config(&Some(vec![255; 24])).is_ok());
}

#[test]
fn numerals() {
    for n in [0, 9, 10, 99, 100, 1_234_567_890, u64::MAX as u128, u128::MAX] {
        assert_eq!(decimal(n), n.to_string());
    }
}

#[test]
fn log_lines() {
    let apply = TrustedRelayerEvent::RelayerApplyEvent {
        account_id: "alice.near".to_string(),
        stake: 5,
        activate_at: 70,
    };
    assert_eq!(
        apply.emit(),
        "{\"RelayerApplyEvent\":{\"account_id\":\"alice.near\",\"stake\":\"5\",\"activate_at\":\"70\"}}"
    );
    let resign = TrustedRelayerEvent::RelayerResignEvent {
        account_id: "bob.near".to_string(),
        stake: u128::MAX,
    };
    assert_eq!(
        resign.emit(),
        "{\"RelayerResignEvent\":{\"account_id\":\"bob.near\",\"stake\":\"340282366920938463463374607431768211455\"}}"
    );
    let reject = TrustedRelayerEvent::RelayerRejectEvent { account_id: String::new(), stake: 0 };
    assert_eq!(reject.emit(), "{\"RelayerRejectEvent\":{\"account_id\":\"\",\"stake\":\"0\"}}");
}

#[test]
fn log_lines_escape_what_json_cannot_hold() {
    let account_id = "a\"b\\c\nd".to_string();
    let line = TrustedRelayerEvent::RelayerResignEvent { account_id: account_id.clone(), stake: 1 }.emit();
    assert_eq!(line, "{\"RelayerResignEvent\":{\"account_id\":\"a\\\"b\\\\c\\nd\",\"stake\":\"1\"}}");
    let read: Value = near_sdk::serde_json::from_str(&line).unwrap();
    assert_eq!(read["RelayerResignEvent"]["account_id"], Value::String(account_id));
}

#[test]
fn map_keeps_the_order_of_a_stored_map() {
    let mut stored: IterableMap<String, u128> = IterableMap::new(b"order".to_vec());
    let mut map = RelayerMap::new();
    let same = |stored: &IterableMap<String, u128>, map: &RelayerMap| {
        let expected: Vec<(String, u128)> = stored.iter().map(|(k, v)| (k.clone(), *v)).collect();
        let found: Vec<(String, u128)> =
            map.entries().iter().map(|(k, v)| (k.clone(), v.stake)).collect();
        assert_eq!(found, expected);
        assert_eq!(map.len(), stored.len() as usize);
    };
    for step in 0..400u128 {
        let key = format!("account{}", (step * step * 7 + step * 3) % 23);
        if step % 3 == 2 {
            assert_eq!(map.remove(&key).map(|state| state.stake), stored.remove(&key));
        } else {
            map.insert(key.clone(), state(step));
            stored.insert(key.clone(), step);
        }
        assert_eq!(map.get(&key).map(|state| state.stake), stored.get(&key).copied());
        same(&stored, &map);
    }
}

#[test]
fn map_knows_whether_it_was_written_to() {
    let mut map = RelayerMap::load(vec![("a".to_string(), state(1))]).unwrap();
    assert!(!map.is_modified());
    assert_eq!(map.get("a"), Some(state(1)));
    assert_eq!(map.entries().len(), 1);
    assert!(!map.is_modified());
    assert_eq!(map.remove("b"), None);
    assert!(map.is_modified());
    let mut other = RelayerMap::new();
    assert!(!other.is_modified());
    other.insert("a".to_string(), state(2));
    assert!(other.is_modified());
}

#[test]
fn map_lists_no_account_twice() {
    let twice = vec![("a".to_string(), state(1)), ("b".to_string(), state(2)), ("a".to_string(), state(3))];
    assert!(RelayerMap::load(twice).is_none());
    let mut map = RelayerMap::new();
    map.insert("a".to_string(), state(1));
    map.insert("b".to_string(), state(2));
    map.insert("a".to_string(), state(3));
    assert_eq!(map.entries(), &vec![("a".to_string(), state(3)), ("b".to_string(), state(2))]);
}

#[test]
fn active_from_the_activation_time_on() {
    assert!(!state(1).is_active(9));
    assert!(state(1).is_active(10));
    assert!(state(1).is_active(11));
}

#[test]
fn contract_trusts_itself_and_active_relayers() {
    let mut store = store(5, 100);
    StakedRelayers._tr_apply(&mut store, &call("relayer.near", 5, 1)).unwrap();
    let trusted = |account: &str, now: u64| {
        StakedRelayers.is_trusted_relayer(&store, &call("x", 0, now), account)
    };
    assert!(trusted("contract.near", 0));
    assert!(!trusted("relayer.near", 100));
    assert!(trusted("relayer.near", 101));
    assert!(!trusted("other.near", 101));
}

#[test]
fn refused_operations_change_nothing() {
    let mut store = store(5, 100);
    StakedRelayers._tr_apply(&mut store, &call("a", 5, 1)).unwrap();
    let entries = store.relayers.entries().clone();
    let config = store.config.clone();
    assert_eq!(
        StakedRelayers._tr_apply(&mut store, &call("a", 500, 1)).err(),
        Some(RelayerError::AlreadyApplied)
    );
    assert_eq!(
        StakedRelayers._tr_apply(&mut store, &call("b", 4, 1)).err(),
        Some(RelayerError::InsufficientStake)
    );
    assert_eq!(
        StakedRelayers._tr_resign(&mut store, &call("a", 0, 100)).err(),
        Some(RelayerError::NotActiveYet)
    );
    assert_eq!(
        StakedRelayers._tr_resign(&mut store, &call("b", 0, 100)).err(),
        Some(RelayerError::RelayerNotFound)
    );
    assert_eq!(
        StakedRelayers._tr_reject(&mut store, &call("m", 0, 1), "b").err(),
        Some(RelayerError::ApplicationNotFound)
    );
    assert_eq!(
        reject_relayer_application(&mut StakedRelayers, &mut store, &call("m", 0, 1), false, "a").err(),
        Some(ManagerError::NotPermitted)
    );
    assert_eq!(
        set_relayer_config(&mut StakedRelayers, &mut store, false, 1, 1),
        Err(ManagerError::NotPermitted)
    );
    assert_eq!(store.relayers.entries(), &entries);
    assert_eq!(store.config, config);
}

#[test]
fn refund_is_what_came_on_top_of_the_stake() {
    let mut store = store(5, 0);
    let applied = StakedRelayers._tr_apply(&mut store, &call("a", 12, 1)).unwrap();
    let refund = applied.refund.unwrap();
    assert_eq!((refund.receiver.as_str(), refund.amount), ("a", 7));
    assert!(StakedRelayers._tr_apply(&mut store, &call("b", 5, 1)).unwrap().refund.is_none());
    assert_eq!(store.relayers.get("a"), Some(RelayerState { stake: 5, activate_at: 1 }));
}

#[test]
fn resigning_undoes_applying() {
    let mut store = store(5, 0);
    StakedRelayers._tr_apply(&mut store, &call("a", 5, 1)).unwrap();
    let before = store.relayers.entries().clone();
    StakedRelayers._tr_apply(&mut store, &call("b", 5, 1)).unwrap();
    StakedRelayers._tr_set_config(&mut store, 50, 9);
    let left = StakedRelayers._tr_resign(&mut store, &call("b", 0, 1)).unwrap();
    assert_eq!((left.payout.receiver.as_str(), left.payout.amount), ("b", 5));
    assert_eq!(store.relayers.entries(), &before);
}

#[test]
fn stake_of_a_rejected_relayer_goes_to_the_caller() {
    let mut store = store(5, 100);
    StakedRelayers._tr_apply(&mut store, &call("a", 5, 1)).unwrap();
    let left =
        reject_relayer_application(&mut StakedRelayers, &mut store, &call("m", 0, 1), true, "a").unwrap();
    assert_eq!((left.payout.receiver.as_str(), left.payout.amount), ("m", 5));
    assert_eq!(
        left.event.emit(),
        "{\"RelayerRejectEvent\":{\"account_id\":\"a\",\"stake\":\"5\"}}"
    );
    assert_eq!(store.relayers.len(), 0);
}

#[test]
fn every_relayer_is_active_or_waiting() {
    let mut store = store(1, 0);
    for n in 0..7u64 {
        StakedRelayers._tr_set_config(&mut store, 1, (n % 3) * 10);
        StakedRelayers._tr_apply(&mut store, &call(&format!("r{n}"), 1, 0)).unwrap();
    }
    for now in [0, 9, 10, 20] {
        let at = call("x", 0, now);
        let active = StakedRelayers._tr_get_active_relayers(&store, &at, None, None);
        let waiting = StakedRelayers._tr_get_pending_relayers(&store, &at, None, None);
        assert_eq!(active.len() + waiting.len(), 7);
        for (id, state) in &active {
            assert_eq!(StakedRelayers._tr_get_stake(&store, &at, id), Some(state.stake));
            assert_eq!(StakedRelayers._tr_get_application(&store, &at, id), None);
        }
        for (id, state) in &waiting {
            assert_eq!(StakedRelayers._tr_get_application(&store, &at, id), Some(*state));
            assert_eq!(StakedRelayers._tr_get_stake(&store, &at, id), None);
        }
    }
}

#[test]
fn pages_make_up_the_list() {
    let mut store = store(1, 0);
    for n in 0..7 {
        StakedRelayers._tr_apply(&mut store, &call(&format!("r{n}"), 1, 0)).unwrap();
    }
    let at = call("x", 0, 0);
    let all = StakedRelayers._tr_get_active_relayers(&store, &at, None, None);
    for size in 1..9u32 {
        let mut pages = Vec::new();
        for start in (0..9).step_by(size as usize) {
            pages.extend(StakedRelayers._tr_get_active_relayers(&store, &at, Some(start), Some(size)));
        }
        assert_eq!(pages, all);
    }
    assert!(StakedRelayers
        ._tr_get_active_relayers(&store, &at, Some(u32::MAX), Some(u32::MAX))
        .is_empty());
}

#[test]
fn guards_let_trusted_callers_through() {
    assert_eq!(require_trusted(true), Ok(()));
    assert_eq!(require_trusted(false), Err(RelayerError::NotTrusted));
}

#[test]
fn messages_of_refusals() {
    let messages = [
        (RelayerError::AlreadyApplied, "Relayer application already exists"),
        (RelayerError::InsufficientStake, "Insufficient stake for relayer application"),
        (RelayerError::RelayerNotFound, "Relayer not found"),
        (RelayerError::NotActiveYet, "Relayer is not active yet"),
        (RelayerError::ApplicationNotFound, "Relayer application not found"),
        (RelayerError::NotTrusted, "Relayer is not active"),
        (RelayerError::ConfigUnreadable, "Failed to deserialize RelayerConfig"),
    ];
    for (error, message) in messages {
        assert_eq!(error.message(), message);
    }
}

#[test]
fn pages_are_put_together_one_by_one() {
    let request = PageRequest { active: true, now: 10, from_index: Some(1), limit: Some(2) };
    let mut page = Page::new(request);
    let waiting = RelayerState { stake: 1, activate_at: 11 };
    for (id, relayer) in
        [("a", state(1)), ("b", waiting), ("c", state(3)), ("d", state(4))]
    {
        assert!(!page.is_full());
        page = page.offer(id.to_string(), relayer);
    }
    assert!(page.is_full());
    page = page.offer("e".to_string(), state(5));
    assert_eq!(page.finish(), vec![("c".to_string(), state(3)), ("d".to_string(), state(4))]);
    let none = PageRequest { limit: Some(0), ..request };
    assert!(Page::new(none).is_full());
    assert!(!Page::new(PageRequest { limit: None, ..request }).is_full());
}
