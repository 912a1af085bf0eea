//! What an application costs and how long it waits, and how that is stored.

use vstd::prelude::*;
use vstd::arithmetic::power::{lemma_pow0, pow};
use crate::relayer_error::RelayerError;

verus! {

/// The yoctoNEAR in one NEAR.
pub const YOCTO_PER_NEAR: u128 = 1_000_000_000_000_000_000_000_000;

/// The stake that an application takes, in yoctoNEAR, and how long the applicant then waits,
/// in nanoseconds.
#[derive(Clone, Copy, Debug, PartialEq, Eq, Structural)]
pub struct RelayerConfig {
    pub stake_required: u128,
    pub waiting_period_ns: u64,
}

/// A thousand NEAR, and seven days.
pub open spec fn default_config() -> RelayerConfig {
    RelayerConfig {
        stake_required: (1000 * YOCTO_PER_NEAR) as u128,
        waiting_period_ns: (7 * 24 * 60 * 60 * 1_000_000_000) as u64,
    }
}

/// `near_sdk::NearToken::from_near` multiplies a number of NEAR by the yoctoNEAR in one, and
/// `near_sdk::NearToken::as_yoctonear` reads the product back.
#[verifier::external_body]
fn yocto_from_near(near: u128) -> (yocto: u128)
    requires
        near * YOCTO_PER_NEAR <= u128::MAX,
    ensures
        yocto == near * YOCTO_PER_NEAR,
{
    near_sdk::NearToken::from_near(near).as_yoctonear()
}

impl Default for RelayerConfig {
    fn default() -> (config: RelayerConfig)
        ensures
            config == default_config(),
    {
        RelayerConfig {
            stake_required: yocto_from_near(1000),
            waiting_period_ns: 7 * 24 * 60 * 60 * 1_000_000_000,
        }
    }
}

/// The lowest `len` bytes of a number, the lowest first.
pub open spec fn le_bytes(n: nat, len: nat) -> Seq<u8>
    decreases len,
{
    if len == 0 {
        Seq::empty()
    } else {
        seq![(n % 256) as u8] + le_bytes(n / 256, (len - 1) as nat)
    }
}

/// The number that bytes stand for, the lowest first.
pub open spec fn le_value(bytes: Seq<u8>) -> nat
    decreases bytes.len(),
{
    if bytes.len() == 0 {
        0
    } else {
        bytes[0] as nat + 256 * le_value(bytes.drop_first())
    }
}

/// As many bytes as are asked for come out.
pub proof fn lemma_le_bytes_len(n: nat, len: nat)
    ensures
        le_bytes(n, len).len() == len,
    decreases len,
{
    if len > 0 {
        lemma_le_bytes_len(n / 256, (len - 1) as nat);
    }
}

/// The bytes of a number that fits in them stand for that number.
pub proof fn lemma_le_round_trip(n: nat, len: nat)
    requires
        n < pow(256, len),
    ensures
        le_value(le_bytes(n, len)) == n,
    decreases len,
{
    if len == 0 {
        lemma_pow0(256);
    } else {
        let rest = (len - 1) as nat;
        reveal_with_fuel(pow, 2);
        assert(pow(256, len) == 256 * pow(256, rest));
        assert(n / 256 < pow(256, rest)) by (nonlinear_arith)
            requires
                n < 256 * pow(256, rest),
        ;
        lemma_le_round_trip(n / 256, rest);
        assert(le_bytes(n, len).drop_first() =~= le_bytes(n / 256, rest));
    }
}

/// How a configuration is stored: the stake in sixteen bytes, then the waiting period in eight.
pub open spec fn config_bytes(config: RelayerConfig) -> Seq<u8> {
    le_bytes(config.stake_required as nat, 16) + le_bytes(config.waiting_period_ns as nat, 8)
}

/// The configuration in force where `stored` is what is stored: the default where nothing is,
/// and none where it is not the bytes of a configuration.
pub open spec fn stored_config(stored: Option<Seq<u8>>) -> Option<RelayerConfig> {
    match stored {
        None => Some(default_config()),
        Some(bytes) => if bytes.len() == 24 {
            Some(
                RelayerConfig {
                    stake_required: le_value(bytes.take(16)) as u128,
                    waiting_period_ns: le_value(bytes.skip(16)) as u64,
                },
            )
        } else {
            None
        },
    }
}

/// What is stored under one key, by its bytes.
pub open spec fn bytes_of(stored: Option<Vec<u8>>) -> Option<Seq<u8>> {
    match stored {
        None => None,
        Some(bytes) => Some(bytes@),
    }
}

/// The error of a failed read, as borsh gives it.
#[verifier::external_type_specification]
#[verifier::external_body]
pub struct ExIoError(std::io::Error);

/// `near_sdk::borsh::to_vec` on a pair of integers writes the little-endian bytes of the one
/// and then of the other, and writing to memory does not fail.
#[verifier::external_body]
fn borsh_encode(stake_required: u128, waiting_period_ns: u64) -> (encoded: Result<Vec<u8>, std::io::Error>)
    ensures
        encoded is Ok,
        encoded->Ok_0@ == le_bytes(stake_required as nat, 16) + le_bytes(waiting_period_ns as nat, 8),
{
    near_sdk::borsh::to_vec(&(stake_required, waiting_period_ns))
}

/// `near_sdk::borsh::BorshDeserialize::try_from_slice` of a pair of integers reads the sixteen little-endian bytes
/// of the one and the eight of the other, and fails where fewer bytes or more are there.
#[verifier::external_body]
fn borsh_decode(bytes: &Vec<u8>) -> (decoded: Result<(u128, u64), std::io::Error>)
    ensures
        decoded is Ok <==> bytes@.len() == 24,
        decoded is Ok ==> decoded->Ok_0.0 == le_value(bytes@.take(16)),
        decoded is Ok ==> decoded->Ok_0.1 == le_value(bytes@.skip(16)),
{
    near_sdk::borsh::BorshDeserialize::try_from_slice(bytes)
}

/// The configuration in force where `stored` is what is stored under its key.
pub fn tr_load_config(stored: &Option<Vec<u8>>) -> (loaded: Result<RelayerConfig, RelayerError>)
    ensures
        match stored_config(bytes_of(*stored)) {
            Some(config) => loaded == Ok::<RelayerConfig, RelayerError>(config),
            None => loaded == Err::<RelayerConfig, RelayerError>(RelayerError::ConfigUnreadable),
        },
{
    match stored {
        None => Ok(RelayerConfig::default()),
        Some(bytes) => match borsh_decode(bytes) {
            Ok((stake_required, waiting_period_ns)) => Ok(
                RelayerConfig { stake_required, waiting_period_ns },
            ),
            Err(_) => Err(RelayerError::ConfigUnreadable),
        },
    }
}

/// Replaces what is stored by the given configuration.
pub fn tr_save_config(stored: &mut Option<Vec<u8>>, config: &RelayerConfig)
    ensures
        bytes_of(*final(stored)) == Some(config_bytes(*config)),
        stored_config(bytes_of(*final(stored))) == Some(*config),
{
    match borsh_encode(config.stake_required, config.waiting_period_ns) {
        Ok(bytes) => {
            proof {
                law_config_round_trip(*config);
            }
            *stored = Some(bytes);
        },
        Err(_) => {},
    }
}

/// A configuration that was saved is the one that is loaded.
pub proof fn law_config_round_trip(config: RelayerConfig)
    ensures
        config_bytes(config).len() == 24,
        stored_config(Some(config_bytes(config))) == Some(config),
{
    let stake = config.stake_required as nat;
    let wait = config.waiting_period_ns as nat;
    lemma_le_bytes_len(stake, 16);
    lemma_le_bytes_len(wait, 8);
    reveal_with_fuel(pow, 17);
    assert(pow(256, 16) == 0x1_0000_0000_0000_0000_0000_0000_0000_0000);
    assert(pow(256, 8) == 0x1_0000_0000_0000_0000);
    lemma_le_round_trip(stake, 16);
    lemma_le_round_trip(wait, 8);
    assert(config_bytes(config).take(16) =~= le_bytes(stake, 16));
    assert(config_bytes(config).skip(16) =~= le_bytes(wait, 8));
}

} // verus!
