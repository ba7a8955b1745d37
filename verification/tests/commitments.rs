use alloy_sol_types::SolValue;
use xga_commitment::cli::format_ether;
use blst::min_pk::SecretKey;
use xga_commitment::abi_helpers::decode_operator_data;
use xga_commitment::types::{CommitmentHash, RelayId};
use sha2::{Digest, Sha256};
use xga_commitment::abi_helpers::{decode_uint256, encode_address_call, OPERATORS_SELECTOR};
use xga_commitment::commitment::{registration_ssz_bytes, SignedXgaCommitment, XgaCommitment, XgaParameters, XGA_SIGNING_DOMAIN};
use xga_commitment::eigenlayer::{
    block_number_retry_delay, monitoring_warnings, parse_address, shadow_status_from, status_changes, validate_shadow_mode_health,
    verify_chain_id, verify_contract_deployed, EigenLayerIntegration, OperatorData, ShadowModeStatus, StatusChange,
};
use xga_commitment::config::EigenLayerConfig;
use xga_commitment::signer::{signed_commitment, verify_signature, XGA_DST};
use xga_commitment::types::{Address, BlsPublicKey, BlsSignature, ValidatorRegistration, ValidatorRegistrationMessage};
use xga_commitment::u256::U256;
use xga_commitment::validation::{validate_commitment_at, validate_registration};

fn sha(data: &[u8]) -> [u8; 32] {
    Sha256::digest(data).into()
}

fn merkle(mut chunks: Vec<[u8; 32]>) -> [u8; 32] {
    let mut n = 1;
    while n < chunks.len() {
        n *= 2;
    }
    chunks.resize(n, [0u8; 32]);
    while chunks.len() > 1 {
        chunks = chunks
            .chunks(2)
            .map(|p| {
                let mut both = [0u8; 64];
                both[..32].copy_from_slice(&p[0]);
                both[32..].copy_from_slice(&p[1]);
                sha(&both)
            })
            .collect();
    }
    chunks[0]
}

fn u64_leaf(n: u64) -> [u8; 32] {
    let mut leaf = [0u8; 32];
    leaf[..8].copy_from_slice(&n.to_le_bytes());
    leaf
}

fn params() -> XgaParameters {
    XgaParameters { version: 2, min_inclusion_slot: 100, max_inclusion_slot: 200, flags: 1 }
}

#[test]
fn commitment_fields_and_relay_id() {
    let c = XgaCommitment::new_at([0x42; 32], BlsPublicKey([1; 48]), "test-relay", 1, params(), 1_700_000_000);
    assert_eq!(c.registration_hash.as_bytes(), &[0x42; 32]);
    assert_eq!(c.relay_id.as_bytes(), &sha(b"test-relay"));
    assert_eq!(c.xga_version, 1);
    assert_eq!(c.timestamp, 1_700_000_000);
    assert_eq!(c.signing_domain, XGA_SIGNING_DOMAIN);
    assert_eq!(&XGA_SIGNING_DOMAIN[..14], b"XGA_COMMITMENT");
    let d = XgaParameters::default();
    assert_eq!((d.version, d.min_inclusion_slot, d.max_inclusion_slot, d.flags), (1, 0, 0, 0));
}

#[test]
fn tree_hash_root_matches_ssz_merkleization() {
    let c = XgaCommitment::new_at([0x42; 32], BlsPublicKey([1; 48]), "test-relay", 7, params(), 1_700_000_000);
    let mut pk = [[0u8; 32]; 2];
    pk[0].copy_from_slice(&c.validator_pubkey.0[..32]);
    pk[1][..16].copy_from_slice(&c.validator_pubkey.0[32..]);
    let leaves = vec![
        *c.registration_hash.as_bytes(),
        merkle(pk.to_vec()),
        *c.relay_id.as_bytes(),
        u64_leaf(c.xga_version),
        u64_leaf(2),
        u64_leaf(100),
        u64_leaf(200),
        u64_leaf(1),
        u64_leaf(c.timestamp),
        u64_leaf(7),
        c.signing_domain,
    ];
    assert_eq!(c.get_tree_hash_root(), merkle(leaves));
    let mut later = c;
    later.timestamp += 1;
    assert_ne!(c.get_tree_hash_root(), later.get_tree_hash_root());
}

#[test]
fn registration_hash_is_sha256_of_ssz() {
    let r = ValidatorRegistration {
        message: ValidatorRegistrationMessage {
            fee_recipient: Address([2; 20]),
            gas_limit: 30_000_000,
            timestamp: 1_700_000_000,
            pubkey: BlsPublicKey([1; 48]),
        },
        signature: BlsSignature([3; 96]),
    };
    let ssz = registration_ssz_bytes(&r);
    assert_eq!(ssz.len(), 180);
    assert_eq!(&ssz[..48], &[1u8; 48]);
    assert_eq!(&ssz[48..68], &[2u8; 20]);
    assert_eq!(&ssz[68..76], &30_000_000u64.to_le_bytes());
    assert_eq!(&ssz[76..84], &1_700_000_000u64.to_le_bytes());
    assert_eq!(XgaCommitment::hash_registration(&r), sha(&ssz));
    assert!(validate_registration(&r).is_ok());
    let mut bad = r;
    bad.message.gas_limit = 60_000_000;
    assert_eq!(validate_registration(&bad), Err("Invalid gas limit: 60000000 (must be between 1M and 50M)".to_string()));
}

#[test]
fn signature_checks_with_xga_domain() {
    let commitment = XgaCommitment::new_at([0x42; 32], BlsPublicKey([1; 48]), "test-relay", 1, params(), 1_700_000_000);
    let sk = SecretKey::key_gen(b"test key material for BLS signature testing", &[]).unwrap();
    let pk = sk.sk_to_pk();
    let message = commitment.get_tree_hash_root();
    let sig = sk.sign(&message, &XGA_DST, &[]);
    let pubkey = BlsPublicKey(pk.to_bytes());
    let signature = BlsSignature(sig.to_bytes());
    assert!(verify_signature(&commitment, &signature, &pubkey));
    assert!(!verify_signature(&commitment, &signature, &BlsPublicKey([2; 48])));
    let mut modified = commitment;
    modified.timestamp += 1000;
    assert!(!verify_signature(&modified, &signature, &pubkey));
    assert!(!verify_signature(&commitment, &BlsSignature([0; 96]), &pubkey));
    assert_eq!(&XGA_DST[..], b"BLS_SIG_XGA_COMMITMENT_COMMIT_BOOST");

    let mut mine = commitment;
    mine.validator_pubkey = pubkey;
    let sig2 = sk.sign(&mine.get_tree_hash_root(), &XGA_DST, &[]);
    let signed: SignedXgaCommitment = signed_commitment(mine, BlsSignature(sig2.to_bytes())).unwrap();
    assert_eq!(signed.message.timestamp, mine.timestamp);
    assert_eq!(
        signed_commitment(mine, BlsSignature([0; 96])).err(),
        Some("Signature verification failed".to_string())
    );
}

#[test]
fn commitment_validation() {
    let c = XgaCommitment::new_at([0x42; 32], BlsPublicKey([1; 48]), "r", 1, params(), 1_000);
    assert!(validate_commitment_at(&c, 1_000).is_ok());
    assert!(validate_commitment_at(&c, 699).is_err());
    let zero = XgaCommitment::new_at([0x42; 32], BlsPublicKey([0; 48]), "r", 1, params(), 1_000);
    assert!(validate_commitment_at(&zero, 1_000).is_err());
}

#[test]
fn abi_encoding() {
    let address = Address([0x42; 20]);
    let encoded = encode_address_call(OPERATORS_SELECTOR, address);
    assert_eq!(&encoded[0..4], &OPERATORS_SELECTOR);
    assert_eq!(encoded.len(), 36);
    assert_eq!(&encoded[4..16], &[0u8; 12]);
    assert_eq!(&encoded[16..36], &address.0);

    let mut word = [0u8; 32];
    word[30] = 0x30;
    word[31] = 0x39;
    let v = decode_uint256(&word).unwrap();
    assert_eq!(v, U256 { hi: 0, lo: 12345 });
    word[0] = 1;
    assert_eq!(decode_uint256(&word).unwrap().hi, 1u128 << 120);
    assert_eq!(decode_uint256(&[0u8; 31]).err(), Some("Invalid data length for uint256: 31".to_string()));
}

#[test]
fn u256_arithmetic() {
    let a = U256 { hi: 1, lo: 5 };
    let b = U256 { hi: 0, lo: 10 };
    assert_eq!(a.saturating_sub(&b), U256 { hi: 0, lo: u128::MAX - 4 });
    assert_eq!(b.saturating_sub(&a), U256 { hi: 0, lo: 0 });
    assert_eq!(U256 { hi: 0, lo: 77 }.to_u64_or_zero(), 77);
    assert_eq!(a.to_u64_or_zero(), 0);
    assert!(U256::zero().is_zero());
    assert!(a.gt(&b) && a.ge(&a));
}

fn status(registered: bool, penalty: u128, active: u128, pending: u128) -> ShadowModeStatus {
    ShadowModeStatus {
        is_registered: registered,
        commitment_hash: [0; 32],
        last_update_block: 0,
        penalty_count: 0,
        accumulated_rewards: U256::zero(),
        pending_rewards: U256::from_u128(pending),
        blocks_active: U256::from_u128(active),
        penalty_rate: U256::from_u128(penalty),
    }
}

#[test]
fn shadow_mode_status() {
    let op = OperatorData {
        commitment_hash: [7; 32],
        signature: vec![0; 96],
        registration_block: U256::from_u128(100),
        last_reward_block: U256::from_u128(200),
        is_active: true,
        accumulated_rewards: U256::from_u128(500),
    };
    let s = shadow_status_from(&op, U256::from_u128(1000), U256::from_u128(10));
    assert!(s.is_registered);
    assert_eq!(s.blocks_active, U256::from_u128(100));
    assert_eq!(s.last_update_block, 200);
    assert_eq!(s.pending_rewards, U256::from_u128(1000));
    assert!(validate_shadow_mode_health(&s));
    let inactive = OperatorData { is_active: false, ..op };
    assert_eq!(shadow_status_from(&inactive, U256::zero(), U256::zero()).blocks_active, U256::zero());

    assert!(!validate_shadow_mode_health(&status(false, 0, 500, 0)));
    assert!(!validate_shadow_mode_health(&status(true, 11, 500, 0)));
    assert!(!validate_shadow_mode_health(&status(true, 10, 99, 0)));

    let w = monitoring_warnings(&status(true, 21, 1001, 0));
    assert!(!w.not_registered && w.high_penalty && w.stalled_rewards);
    let w = monitoring_warnings(&status(false, 20, 1001, 0));
    assert!(w.not_registered && !w.high_penalty && !w.stalled_rewards);

    let changes = status_changes(&status(false, 5, 0, 10), &status(true, 6, 0, 25));
    assert_eq!(changes.len(), 3);
    assert!(matches!(changes[0], StatusChange::Registered));
    assert!(matches!(changes[1], StatusChange::RewardsIncreased(d) if d == U256::from_u128(15)));
    assert!(matches!(changes[2], StatusChange::PenaltyRateChanged { .. }));
    assert!(status_changes(&status(true, 5, 0, 10), &status(true, 5, 0, 10)).is_empty());
}

#[test]
fn integration_state() {
    let config = EigenLayerConfig {
        enabled: true,
        registry_address: "0x1111111111111111111111111111111111111111".to_string(),
        rpc_url: "https://rpc.example.com".to_string(),
        operator_address: Some("0x2222222222222222222222222222222222222222".to_string()),
    };
    let mut integration = EigenLayerIntegration::with_config(config).unwrap();
    assert_eq!(integration.registry_address, Address([0x11; 20]));
    assert!(integration.is_monitoring_configured());
    assert!(integration.requires_update(&[1; 32]));
    integration.register_commitment([1; 32]);
    assert!(!integration.requires_update(&[1; 32]));
    assert!(integration.requires_update(&[2; 32]));
    assert!(!integration.update_commitment([1; 32]));
    assert_eq!(integration.current_commitment_hash, Some([1; 32]));
    assert_eq!(integration.registry_address, Address([0x11; 20]));
    assert!(integration.update_commitment([2; 32]));
    assert_eq!(integration.current_commitment_hash, Some([2; 32]));
    assert_eq!(integration.registry_address, Address([0x11; 20]));
    assert!(integration.get_cached_status().is_none());
    assert!(integration.monitor_shadow_mode(status(true, 1, 1, 1)).is_empty());
    assert_eq!(integration.monitor_shadow_mode(status(false, 1, 1, 1)).len(), 1);
    assert!(integration.get_cached_status().is_some());

    let bad = EigenLayerConfig { registry_address: "nope".to_string(), ..EigenLayerConfig::default() };
    assert_eq!(EigenLayerIntegration::with_config(bad).err(), Some("Invalid registry address".to_string()));
    assert_eq!(parse_address("aaaaaaaaaaaaaaaaaaaaaaaaaaaaaaaaaaaaaaaa").unwrap(), Address([0xaa; 20]));
    assert!(parse_address("0xaaaa").is_err());
}

#[test]
fn chain_and_contract_checks() {
    assert!(verify_chain_id(1, 1).is_ok());
    assert_eq!(verify_chain_id(1, 5).err(), Some("Chain ID mismatch: expected 1, got 5".to_string()));
    assert!(verify_contract_deployed(&[0x60], "0x11").is_ok());
    assert_eq!(
        verify_contract_deployed(&[], "0x11").err(),
        Some("No contract deployed at registry address: 0x11".to_string())
    );
    assert_eq!(block_number_retry_delay(0), Some(100));
    assert_eq!(block_number_retry_delay(1), Some(200));
    assert_eq!(block_number_retry_delay(2), None);
}

#[test]
fn hex_identifiers() {
    let word = "42".repeat(32);
    assert_eq!(RelayId::from_text(&word), RelayId::from_bytes([0x42; 32]));
    assert_eq!(RelayId::from_text("https://relay.example.com"), RelayId::from_url("https://relay.example.com"));
    assert_eq!(RelayId::from_bytes([0xab; 32]).to_hex(), "ab".repeat(32));
    assert_eq!(CommitmentHash::from_hex(&word).unwrap(), CommitmentHash::from_bytes([0x42; 32]));
    assert_eq!(CommitmentHash::from_hex("4242").err(), Some("CommitmentHash must be 32 bytes".to_string()));
    assert!(CommitmentHash::from_hex("xyz").is_err());
    assert_eq!(CommitmentHash::from_bytes([1; 32]).to_hex(), "01".repeat(32));
}

#[test]
fn commitment_hash_hex_round_trip() {
    let mut bytes = [0u8; 32];
    for (i, b) in bytes.iter_mut().enumerate() {
        *b = (i as u8).wrapping_mul(37).wrapping_add(200);
    }
    let hash = CommitmentHash::from_bytes(bytes);
    assert_eq!(CommitmentHash::from_hex(&hash.to_hex()), Ok(hash));
    let id = RelayId::from_bytes(bytes);
    assert_eq!(RelayId::from_text(&id.to_hex()), id);
}

#[test]
fn operator_data_decoding() {
    let tuple = (
        alloy_primitives::FixedBytes::<32>::from([7u8; 32]),
        alloy_primitives::Bytes::from(vec![1u8; 96]),
        alloy_primitives::U256::from(100u64),
        alloy_primitives::U256::from(200u64),
        true,
        alloy_primitives::U256::from(500u64),
    );
    let encoded = tuple.abi_encode();
    let decoded = decode_operator_data(&encoded).unwrap();
    assert_eq!(decoded.commitment_hash, [7u8; 32]);
    assert_eq!(decoded.signature, vec![1u8; 96]);
    assert_eq!(decoded.registration_block, U256::from_u128(100));
    assert_eq!(decoded.last_reward_block, U256::from_u128(200));
    assert!(decoded.is_active);
    assert_eq!(decoded.accumulated_rewards, U256::from_u128(500));
    assert_eq!(
        decode_operator_data(&[0u8; 10]).err(),
        Some("Invalid data length for operator data: 10".to_string())
    );
    let mut dirty = encoded.clone();
    assert_eq!(dirty[5 * 32 + 31], 1);
    dirty[5 * 32 + 31] = 2;
    assert!(decode_operator_data(&dirty).is_err());
}

#[test]
fn u256_decimal_and_ether() {
    assert_eq!(U256::zero().to_decimal(), "0");
    assert_eq!(U256::from_u128(1234567890123456789012345678901234567).to_decimal(), "1234567890123456789012345678901234567");
    assert_eq!(U256 { hi: u128::MAX, lo: u128::MAX }.to_decimal(),
        "115792089237316195423570985008687907853269984665640564039457584007913129639935");
    let (q, r) = U256 { hi: 1, lo: 7 }.div_rem_u64(10);
    assert_eq!(r, 3);
    assert_eq!(q, U256 { hi: 0, lo: (u128::MAX / 10) + 1 });
    assert_eq!(format_ether(&U256::from_u128(1_500_000_000_000_000_000)), "1.5000");
    assert_eq!(format_ether(&U256::from_u128(1)), "0.0000");
    assert_eq!(format_ether(&U256::from_u128(123_456_789_000_000_000_000)), "123.4567");
    assert_eq!(format_ether(&U256::from_u128(5_000_000_000_000_000)), "0.0050");
}
