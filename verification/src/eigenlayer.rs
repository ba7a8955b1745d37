//! EigenLayer shadow mode: what the registry reports of an operator, the
//! health verdict, the changes worth reporting between two reports, and
//! the commitment the module tracks.

use vstd::prelude::*;
use crate::config::EigenLayerConfig;
use crate::crypto::{hex_bytes, hex_decode};
use crate::text::{decimal, has_prefix, starts_with, u64_to_decimal};
use crate::types::Address;
use crate::u256::U256;
use crate::webhook::state::bytes32_eq;

verus! {

/// Most penalty, in percent, of an operator in good standing.
pub const MAX_HEALTHY_PENALTY_RATE: u128 = 10;

/// Fewest active blocks of an operator in good standing.
pub const MIN_ACTIVE_BLOCKS: u128 = 100;

/// Penalty rate, in percent, above which monitoring warns.
pub const WARN_PENALTY_RATE: u128 = 20;

/// Active blocks without rewards after which monitoring warns.
pub const STALLED_REWARD_BLOCKS: u128 = 1000;

/// Attempts at reading the current block number.
pub const BLOCK_NUMBER_ATTEMPTS: u32 = 3;

/// What the registry's `operators(address)` call returns.
#[derive(Debug)]
pub struct OperatorData {
    pub commitment_hash: [u8; 32],
    pub signature: Vec<u8>,
    pub registration_block: U256,
    pub last_reward_block: U256,
    pub is_active: bool,
    pub accumulated_rewards: U256,
}

/// An operator's standing in shadow mode.
#[derive(Debug, Clone, Copy)]
pub struct ShadowModeStatus {
    pub is_registered: bool,
    pub commitment_hash: [u8; 32],
    pub last_update_block: u64,
    pub penalty_count: u64,
    pub accumulated_rewards: U256,
    pub pending_rewards: U256,
    pub blocks_active: U256,
    pub penalty_rate: U256,
}

/// The status that the registry's answers give: an active operator has
/// been active from its registration block to its last reward block
/// (none when that is earlier), an inactive one for no blocks; the last
/// update block is the last reward block when it fits in a `u64`.
pub fn shadow_status_from(operator: &OperatorData, pending_rewards: U256, penalty_rate: U256) -> (status: ShadowModeStatus)
    ensures
        status.is_registered == operator.is_active,
        status.commitment_hash == operator.commitment_hash,
        status.blocks_active.value() == if operator.is_active && operator.last_reward_block.value() >= operator.registration_block.value() {
            operator.last_reward_block.value() - operator.registration_block.value()
        } else {
            0
        },
        status.last_update_block == if operator.last_reward_block.value() <= u64::MAX { operator.last_reward_block.value() } else { 0 },
        status.penalty_count == 0,
        status.accumulated_rewards == operator.accumulated_rewards,
        status.pending_rewards == pending_rewards,
        status.penalty_rate == penalty_rate,
{
    let blocks_active = if operator.is_active {
        operator.last_reward_block.saturating_sub(&operator.registration_block)
    } else {
        U256::zero()
    };
    ShadowModeStatus {
        is_registered: operator.is_active,
        commitment_hash: operator.commitment_hash,
        last_update_block: operator.last_reward_block.to_u64_or_zero(),
        penalty_count: 0,
        accumulated_rewards: operator.accumulated_rewards,
        pending_rewards,
        blocks_active,
        penalty_rate,
    }
}

/// Good standing: registered, a penalty rate of at most ten percent, and
/// at least a hundred active blocks.
pub open spec fn healthy(status: ShadowModeStatus) -> bool {
    &&& status.is_registered
    &&& status.penalty_rate.value() <= MAX_HEALTHY_PENALTY_RATE
    &&& status.blocks_active.value() >= MIN_ACTIVE_BLOCKS
}

/// Whether the operator is in good standing.
pub fn validate_shadow_mode_health(status: &ShadowModeStatus) -> (good: bool)
    ensures
        good == healthy(*status),
{
    if !status.is_registered {
        return false;
    }
    if status.penalty_rate.gt(&U256::from_u128(MAX_HEALTHY_PENALTY_RATE)) {
        return false;
    }
    if !status.blocks_active.ge(&U256::from_u128(MIN_ACTIVE_BLOCKS)) {
        return false;
    }
    true
}

/// What periodic monitoring warns about.
#[derive(Debug, Clone, Copy, PartialEq, Eq, Structural)]
pub struct MonitoringWarnings {
    /// The operator is not registered.
    pub not_registered: bool,
    /// The penalty rate is above twenty percent.
    pub high_penalty: bool,
    /// Registered and active for over a thousand blocks without rewards.
    pub stalled_rewards: bool,
}

/// The warnings a status gives.
pub fn monitoring_warnings(status: &ShadowModeStatus) -> (warnings: MonitoringWarnings)
    ensures
        warnings.not_registered == !status.is_registered,
        warnings.high_penalty == (status.penalty_rate.value() > WARN_PENALTY_RATE),
        warnings.stalled_rewards == (status.is_registered && status.blocks_active.value() > STALLED_REWARD_BLOCKS
            && status.pending_rewards.value() == 0),
{
    MonitoringWarnings {
        not_registered: !status.is_registered,
        high_penalty: status.penalty_rate.gt(&U256::from_u128(WARN_PENALTY_RATE)),
        stalled_rewards: status.is_registered && status.blocks_active.gt(&U256::from_u128(STALLED_REWARD_BLOCKS))
            && status.pending_rewards.is_zero(),
    }
}

/// A change between two reports on an operator.
#[derive(Debug, Clone, Copy)]
pub enum StatusChange {
    /// The operator became registered.
    Registered,
    /// The operator stopped being registered.
    Deregistered,
    /// Pending rewards grew by this much.
    RewardsIncreased(U256),
    /// The penalty rate changed.
    PenaltyRateChanged { from_rate: U256, to_rate: U256 },
    /// The tracked commitment hash changed.
    CommitmentHashChanged { from_hash: [u8; 32], to_hash: [u8; 32] },
}

/// The changes from `last` to `current`, in the order they are reported.
pub open spec fn changes_between(last: ShadowModeStatus, current: ShadowModeStatus) -> Seq<StatusChange> {
    let registration: Seq<StatusChange> = if last.is_registered != current.is_registered {
        seq![if current.is_registered { StatusChange::Registered } else { StatusChange::Deregistered }]
    } else {
        seq![]
    };
    let rewards: Seq<StatusChange> = if current.pending_rewards.value() > last.pending_rewards.value() {
        seq![StatusChange::RewardsIncreased(U256 { hi: 0, lo: 0 })]
    } else {
        seq![]
    };
    let penalty: Seq<StatusChange> = if current.penalty_rate != last.penalty_rate {
        seq![StatusChange::PenaltyRateChanged { from_rate: last.penalty_rate, to_rate: current.penalty_rate }]
    } else {
        seq![]
    };
    let hash: Seq<StatusChange> = if current.commitment_hash != last.commitment_hash {
        seq![StatusChange::CommitmentHashChanged { from_hash: last.commitment_hash, to_hash: current.commitment_hash }]
    } else {
        seq![]
    };
    registration + rewards + penalty + hash
}

/// The two changes are the same, a reward increase matching any amount.
pub open spec fn same_kind(a: StatusChange, b: StatusChange) -> bool {
    match (a, b) {
        (StatusChange::RewardsIncreased(_), StatusChange::RewardsIncreased(_)) => true,
        _ => a == b,
    }
}

/// How `changes` reports registration from `last` to `current`: an
/// operator that stopped being registered is reported `Deregistered` first
/// and never `Registered`; one that became registered is reported
/// `Registered` first and never `Deregistered`; an unchanged registration
/// is reported neither way.
pub open spec fn registration_reported(last: ShadowModeStatus, current: ShadowModeStatus, changes: Seq<StatusChange>) -> bool {
    &&& last.is_registered && !current.is_registered ==> changes.len() > 0 && changes[0] == StatusChange::Deregistered
        && forall|i: int| 0 <= i < changes.len() ==> #[trigger] changes[i] != StatusChange::Registered
    &&& !last.is_registered && current.is_registered ==> changes.len() > 0 && changes[0] == StatusChange::Registered
        && forall|i: int| 0 <= i < changes.len() ==> #[trigger] changes[i] != StatusChange::Deregistered
    &&& last.is_registered == current.is_registered ==> forall|i: int| 0 <= i < changes.len() ==>
        #[trigger] changes[i] != StatusChange::Registered && changes[i] != StatusChange::Deregistered
}

/// The changes between two statuses report registration the way it went:
/// losing registration is `Deregistered`, gaining it is `Registered`, and
/// no change is neither.
pub proof fn law_registration_changes(last: ShadowModeStatus, current: ShadowModeStatus)
    ensures
        registration_reported(last, current, changes_between(last, current)),
{
    let c = changes_between(last, current);
    assert forall|i: int| 0 <= i < c.len() && (last.is_registered == current.is_registered || i > 0) implies
        #[trigger] c[i] != StatusChange::Registered && c[i] != StatusChange::Deregistered by {
    }
}

/// The changes worth reporting from `last` to `current`: registration,
/// reward growth (with its amount), penalty rate and commitment hash.
pub fn status_changes(last: &ShadowModeStatus, current: &ShadowModeStatus) -> (changes: Vec<StatusChange>)
    ensures
        changes@.len() == changes_between(*last, *current).len(),
        forall|i: int| 0 <= i < changes@.len() ==> same_kind(#[trigger] changes@[i], changes_between(*last, *current)[i]),
        forall|i: int| 0 <= i < changes@.len() ==> (#[trigger] changes@[i] matches StatusChange::RewardsIncreased(d)
            ==> d.value() == current.pending_rewards.value() - last.pending_rewards.value()),
{
    let mut changes: Vec<StatusChange> = Vec::new();
    if last.is_registered != current.is_registered {
        changes.push(if current.is_registered { StatusChange::Registered } else { StatusChange::Deregistered });
    }
    if current.pending_rewards.gt(&last.pending_rewards) {
        changes.push(StatusChange::RewardsIncreased(current.pending_rewards.saturating_sub(&last.pending_rewards)));
    }
    if current.penalty_rate.hi != last.penalty_rate.hi || current.penalty_rate.lo != last.penalty_rate.lo {
        changes.push(StatusChange::PenaltyRateChanged { from_rate: last.penalty_rate, to_rate: current.penalty_rate });
    }
    if !bytes32_eq(&current.commitment_hash, &last.commitment_hash) {
        changes.push(StatusChange::CommitmentHashChanged { from_hash: last.commitment_hash, to_hash: current.commitment_hash });
    }
    changes
}

/// The shadow mode integration's own state: its settings, the commitment
/// it tracks and the last status it saw.
#[derive(Debug)]
pub struct EigenLayerIntegration {
    pub config: EigenLayerConfig,
    pub registry_address: Address,
    pub current_commitment_hash: Option<[u8; 32]>,
    pub last_status_check: Option<ShadowModeStatus>,
}

/// The address that hexadecimal text names: forty digits, with or
/// without a `0x` prefix.
pub open spec fn address_text(text: Seq<char>, address: Address) -> bool {
    let digits = if has_prefix(text, "0x"@) { text.subrange(2, text.len() as int) } else { text };
    hex_bytes(digits) == Some(address.0@)
}

/// Reads an address from hexadecimal text, with or without `0x`.
pub fn parse_address(text: &str) -> (result: Result<Address, String>)
    ensures
        result matches Ok(a) ==> address_text(text@, a),
        result is Err ==> forall|a: Address| !address_text(text@, a),
{
    proof {
        reveal_strlit("0x");
    }
    let prefixed = starts_with(text, "0x");
    let digits = if prefixed { text.substring_char(2, text.unicode_len()) } else { text };
    let ghost digits_view = if has_prefix(text@, "0x"@) { text@.subrange(2, text@.len() as int) } else { text@ };
    assert(digits@ == digits_view);
    match hex_decode(digits) {
        Err(_) => Err(String::from_str("Invalid address")),
        Ok(bytes) => {
            if bytes.len() != 20 {
                return Err(String::from_str("Invalid address"));
            }
            let mut raw: [u8; 20] = [0u8; 20];
            let mut i: usize = 0;
            while i < 20
                invariant
                    i <= 20,
                    bytes@.len() == 20,
                    forall|j: int| 0 <= j < i ==> raw[j] == bytes@[j],
                decreases 20 - i,
            {
                raw[i] = bytes[i];
                i = i + 1;
            }
            assert(raw@ =~= bytes@);
            Ok(Address(raw))
        },
    }
}

impl EigenLayerIntegration {
    /// The integration for `config`: its registry address must parse.
    pub fn with_config(config: EigenLayerConfig) -> (result: Result<EigenLayerIntegration, String>)
        ensures
            result is Ok <==> exists|a: Address| address_text(config.registry_address@, a),
            result matches Ok(i) ==> address_text(config.registry_address@, i.registry_address)
                && i.current_commitment_hash is None && i.last_status_check is None,
            result matches Err(m) ==> m@ == "Invalid registry address"@,
    {
        match parse_address(config.registry_address.as_str()) {
            Err(_) => Err(String::from_str("Invalid registry address")),
            Ok(registry_address) => Ok(EigenLayerIntegration {
                config,
                registry_address,
                current_commitment_hash: None,
                last_status_check: None,
            }),
        }
    }

    /// Monitoring runs when the integration is enabled and an operator
    /// address is configured.
    pub fn is_monitoring_configured(&self) -> (configured: bool)
        ensures
            configured == (self.config.enabled && self.config.operator_address is Some),
    {
        self.config.enabled && self.config.operator_address.is_some()
    }

    /// Whether a commitment with hash `new_hash` differs from the tracked
    /// one; with none tracked yet, it always does.
    pub fn requires_update(&self, new_hash: &[u8; 32]) -> (update: bool)
        ensures
            update == match self.current_commitment_hash {
                Some(current) => current != *new_hash,
                None => true,
            },
    {
        match &self.current_commitment_hash {
            Some(current) => !bytes32_eq(current, new_hash),
            None => true,
        }
    }

    /// The last status seen, without asking the chain.
    pub fn get_cached_status(&self) -> (status: Option<&ShadowModeStatus>)
        ensures
            status == match &self.last_status_check {
                Some(s) => Some(s),
                None => None::<&ShadowModeStatus>,
            },
    {
        match &self.last_status_check {
            Some(s) => Some(s),
            None => None,
        }
    }

    /// Records a new status and returns the changes from the previous one;
    /// the first status gives none.
    pub fn monitor_shadow_mode(&mut self, current: ShadowModeStatus) -> (changes: Vec<StatusChange>)
        ensures
            final(self).last_status_check == Some(current),
            final(self).current_commitment_hash == old(self).current_commitment_hash,
            final(self).config == old(self).config,
            final(self).registry_address == old(self).registry_address,
            old(self).last_status_check is None ==> changes@.len() == 0,
            old(self).last_status_check matches Some(last) ==> changes@.len() == changes_between(last, current).len(),
            old(self).last_status_check matches Some(last) ==> forall|i: int| 0 <= i < changes@.len() ==>
                same_kind(#[trigger] changes@[i], changes_between(last, current)[i]),
            old(self).last_status_check matches Some(last) ==> registration_reported(last, current, changes@),
    {
        let changes = match &self.last_status_check {
            Some(last) => {
                let c = status_changes(last, &current);
                proof {
                    law_registration_changes(*last, current);
                    assert forall|i: int| 0 <= i < c@.len() implies
                        (#[trigger] c@[i] == StatusChange::Registered) == (changes_between(*last, current)[i] == StatusChange::Registered)
                        && (c@[i] == StatusChange::Deregistered) == (changes_between(*last, current)[i] == StatusChange::Deregistered) by {
                        assert(same_kind(c@[i], changes_between(*last, current)[i]));
                    }
                }
                c
            },
            None => Vec::new(),
        };
        self.last_status_check = Some(current);
        changes
    }

    /// The operator that periodic monitoring watches: none when the
    /// integration is disabled, no operator is configured, or its address
    /// does not parse.
    pub fn monitoring_operator(&self) -> (operator: Option<Address>)
        ensures
            !self.config.enabled || self.config.operator_address is None ==> operator is None,
            self.config.enabled ==> (self.config.operator_address matches Some(text) ==> match operator {
                Some(a) => address_text(text@, a),
                None => forall|a: Address| !address_text(text@, a),
            }),
    {
        if !self.config.enabled {
            return None;
        }
        match &self.config.operator_address {
            None => None,
            Some(text) => match parse_address(text.as_str()) {
                Ok(a) => Some(a),
                Err(_) => None,
            },
        }
    }

    /// One periodic monitoring round on the status just read: the warnings
    /// it gives and the changes since the previous round, which it replaces.
    pub fn run_periodic_monitoring(&mut self, status: ShadowModeStatus) -> (report: (MonitoringWarnings, Vec<StatusChange>))
        ensures
            report.0.not_registered == !status.is_registered,
            report.0.high_penalty == (status.penalty_rate.value() > WARN_PENALTY_RATE),
            report.0.stalled_rewards == (status.is_registered && status.blocks_active.value() > STALLED_REWARD_BLOCKS
                && status.pending_rewards.value() == 0),
            final(self).last_status_check == Some(status),
            final(self).current_commitment_hash == old(self).current_commitment_hash,
            final(self).config == old(self).config,
            final(self).registry_address == old(self).registry_address,
            old(self).last_status_check is None ==> report.1@.len() == 0,
            old(self).last_status_check matches Some(last) ==> report.1@.len() == changes_between(last, status).len(),
    {
        let warnings = monitoring_warnings(&status);
        let changes = self.monitor_shadow_mode(status);
        (warnings, changes)
    }

    /// Starts tracking the commitment with hash `hash`.
    pub fn register_commitment(&mut self, hash: [u8; 32])
        ensures
            final(self).current_commitment_hash == Some(hash),
            final(self).last_status_check == old(self).last_status_check,
            final(self).config == old(self).config,
            final(self).registry_address == old(self).registry_address,
    {
        self.current_commitment_hash = Some(hash);
    }

    /// Tracks the commitment with hash `hash` when it differs from the
    /// tracked one; answers whether anything changed.
    pub fn update_commitment(&mut self, hash: [u8; 32]) -> (updated: bool)
        ensures
            updated == (old(self).current_commitment_hash != Some(hash)),
            final(self).current_commitment_hash == Some(hash),
            final(self).last_status_check == old(self).last_status_check,
            final(self).config == old(self).config,
            final(self).registry_address == old(self).registry_address,
            !updated ==> *final(self) == *old(self),
    {
        let unchanged = match &self.current_commitment_hash {
            Some(current) => bytes32_eq(current, &hash),
            None => false,
        };
        if unchanged {
            return false;
        }
        self.current_commitment_hash = Some(hash);
        true
    }
}

/// The chain the provider reports must be the expected one.
pub fn verify_chain_id(expected_chain_id: u64, chain_id: u64) -> (result: Result<(), String>)
    ensures
        result is Ok <==> chain_id == expected_chain_id,
        result matches Err(m) ==> m@ == "Chain ID mismatch: expected "@ + decimal(expected_chain_id as nat) + ", got "@
            + decimal(chain_id as nat),
{
    if chain_id != expected_chain_id {
        let mut m = String::from_str("Chain ID mismatch: expected ");
        m.append(u64_to_decimal(expected_chain_id).as_str());
        m.append(", got ");
        m.append(u64_to_decimal(chain_id).as_str());
        return Err(m);
    }
    Ok(())
}

/// Code must be deployed at the registry address, named by `address_text`.
pub fn verify_contract_deployed(code: &[u8], address_text: &str) -> (result: Result<(), String>)
    ensures
        result is Ok <==> code@.len() > 0,
        result matches Err(m) ==> m@ == "No contract deployed at registry address: "@ + address_text@,
{
    if code.len() == 0 {
        let mut m = String::from_str("No contract deployed at registry address: ");
        m.append(address_text);
        return Err(m);
    }
    Ok(())
}

/// After failed attempt number `attempt` (from zero) at reading the block
/// number: the pause before the next attempt, in milliseconds, or none
/// when the attempts are used up.
pub fn block_number_retry_delay(attempt: u32) -> (delay: Option<u64>)
    ensures
        attempt + 1 < BLOCK_NUMBER_ATTEMPTS ==> delay == Some((100 * (attempt + 1)) as u64),
        attempt + 1 >= BLOCK_NUMBER_ATTEMPTS ==> delay is None,
{
    if attempt < BLOCK_NUMBER_ATTEMPTS - 1 {
        Some(100 * (attempt as u64 + 1))
    } else {
        None
    }
}

} // verus!
