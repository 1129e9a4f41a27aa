use oft::errors::OFTError;
use oft::keys::Pubkey;
use oft::override_set::OverrideSet;
use oft::state::{LzReceiveTypesAccounts, OFTStore, OFTType};

fn pubkey(seed: u8) -> Pubkey {
    let mut bytes = [0u8; 32];
    bytes[0] = seed;
    bytes[31] = seed.wrapping_mul(7).wrapping_add(1);
    Pubkey::new_from_array(bytes)
}

fn store_with_rate(rate: u64) -> OFTStore {
    OFTStore::new(OFTType::Adapter, rate, pubkey(1), pubkey(2), pubkey(3), 254, pubkey(4), 16, 8)
        .unwrap()
}

#[test]
fn test_rate_limit_override() {
    let mut oft_store = OFTStore {
        oft_type: OFTType::Native,
        ld2sd_rate: 1000000000000000000,
        token_mint: pubkey(1),
        token_escrow: pubkey(2),
        endpoint_program: pubkey(3),
        bump: 0,
        tvl_ld: 0,
        admin: pubkey(4),
        default_fee_bps: 0,
        paused: false,
        pauser: None,
        unpauser: None,
        rate_limit_override: OverrideSet::new(10),
        rate_limit_override_guids: OverrideSet::new(8), // No guids in the test
    };

    let admin = pubkey(5);
    oft_store.rate_limit_override.add(admin).unwrap();
    assert!(oft_store.is_rate_limit_override(&admin));
}

#[test]
fn new_store_starts_empty() {
    let store = store_with_rate(1_000_000);
    assert_eq!(store.oft_type, OFTType::Adapter);
    assert_eq!(store.ld2sd_rate, 1_000_000);
    assert_eq!(store.token_mint, pubkey(1));
    assert_eq!(store.token_escrow, pubkey(2));
    assert_eq!(store.endpoint_program, pubkey(3));
    assert_eq!(store.bump, 254);
    assert_eq!(store.tvl_ld, 0);
    assert_eq!(store.admin, pubkey(4));
    assert_eq!(store.default_fee_bps, 0);
    assert!(!store.paused);
    assert_eq!(store.pauser, None);
    assert_eq!(store.unpauser, None);
    assert_eq!(store.rate_limit_override.len(), 0);
    assert_eq!(store.rate_limit_override.capacity(), 16);
    assert_eq!(store.rate_limit_override_guids.len(), 0);
    assert_eq!(store.rate_limit_override_guids.capacity(), 8);
}

#[test]
fn new_store_rejects_zero_rate() {
    let result =
        OFTStore::new(OFTType::Native, 0, pubkey(1), pubkey(2), pubkey(3), 0, pubkey(4), 16, 8);
    assert!(matches!(result, Err(OFTError::InvalidConversionRate)));
}

#[test]
fn nine_decimal_shift() {
    let store = store_with_rate(1_000_000_000);
    let amount_ld: u64 = 1_234_567_890_123;
    assert_eq!(store.ld2sd(amount_ld), 1234);
    assert_eq!(store.remove_dust(amount_ld), 1_234_000_000_000);
    assert_eq!(store.sd2ld(1234), Ok(1_234_000_000_000));
}

#[test]
fn round_trip_equals_remove_dust() {
    let rates: [u64; 5] = [1, 3, 1000, 1_000_000_000, u64::MAX];
    let amounts: [u64; 8] = [0, 1, 2, 999, 1000, 1001, 123_456_789_012_345, u64::MAX];
    for rate in rates {
        let store = store_with_rate(rate);
        for amount in amounts {
            let cleaned = store.remove_dust(amount);
            assert_eq!(store.sd2ld(store.ld2sd(amount)), Ok(cleaned));
            assert_eq!(cleaned % rate, 0);
            assert!(cleaned <= amount);
            assert!(amount - cleaned < rate);
        }
    }
}

#[test]
fn shared_of_local_is_identity_when_it_fits() {
    let store = store_with_rate(1000);
    for amount_sd in [0u64, 1, 17, 18_446_744_073_709_551] {
        let amount_ld = store.sd2ld(amount_sd).unwrap();
        assert_eq!(amount_ld, amount_sd * 1000);
        assert_eq!(store.ld2sd(amount_ld), amount_sd);
    }
}

#[test]
fn ld2sd_rounds_down() {
    let store = store_with_rate(1000);
    assert_eq!(store.ld2sd(0), 0);
    assert_eq!(store.ld2sd(999), 0);
    assert_eq!(store.ld2sd(1000), 1);
    assert_eq!(store.ld2sd(1999), 1);
    assert_eq!(store.ld2sd(u64::MAX), 18_446_744_073_709_551);
}

#[test]
fn remove_dust_keeps_multiples() {
    let store = store_with_rate(1000);
    assert_eq!(store.remove_dust(0), 0);
    assert_eq!(store.remove_dust(999), 0);
    assert_eq!(store.remove_dust(1000), 1000);
    assert_eq!(store.remove_dust(1001), 1000);
    assert_eq!(store.remove_dust(u64::MAX), 18_446_744_073_709_551_000);
}

#[test]
fn rate_of_one_loses_nothing() {
    let store = store_with_rate(1);
    assert_eq!(store.ld2sd(u64::MAX), u64::MAX);
    assert_eq!(store.remove_dust(u64::MAX), u64::MAX);
    assert_eq!(store.sd2ld(u64::MAX), Ok(u64::MAX));
}

#[test]
fn sd2ld_reports_overflow() {
    let store = store_with_rate(1_000_000_000);
    assert_eq!(store.sd2ld(18_446_744_073), Ok(18_446_744_073_000_000_000));
    assert_eq!(store.sd2ld(18_446_744_074), Err(OFTError::AmountOverflow));
    assert_eq!(store.sd2ld(u64::MAX), Err(OFTError::AmountOverflow));
    assert_eq!(store.sd2ld(0), Ok(0));
}

#[test]
fn override_queries_read_their_own_set() {
    let mut store = store_with_rate(1000);
    let account = pubkey(9);
    let guid = account.to_bytes();
    assert!(!store.is_rate_limit_override(&account));
    assert!(!store.is_rate_limit_override_guid(&guid));
    store.rate_limit_override.add(account).unwrap();
    assert!(store.is_rate_limit_override(&account));
    assert!(!store.is_rate_limit_override_guid(&guid));
    store.rate_limit_override_guids.add(guid).unwrap();
    assert!(store.is_rate_limit_override_guid(&guid));
    store.rate_limit_override.remove(&account).unwrap();
    assert!(!store.is_rate_limit_override(&account));
    assert!(store.is_rate_limit_override_guid(&guid));
}

#[test]
fn pubkey_bytes_round_trip() {
    let mut bytes = [0u8; 32];
    for (i, b) in bytes.iter_mut().enumerate() {
        *b = (i * 3) as u8;
    }
    let key = Pubkey::new_from_array(bytes);
    assert_eq!(key.to_bytes(), bytes);
    assert_eq!(key, Pubkey::new_from_array(bytes));
    bytes[31] ^= 1;
    assert_ne!(key, Pubkey::new_from_array(bytes));
}

#[test]
fn receive_types_accounts_hold_two_addresses() {
    let accounts = LzReceiveTypesAccounts { oft_store: pubkey(1), token_mint: pubkey(2) };
    assert_eq!(accounts.oft_store, pubkey(1));
    assert_eq!(accounts.token_mint, pubkey(2));
}
