use oft::errors::OFTError;
use oft::keys::{bytes32_eq, OverrideKey, Pubkey};
use oft::override_set::OverrideSet;

fn principal(seed: u8) -> Pubkey {
    let mut bytes = [0u8; 32];
    bytes[31] = seed;
    Pubkey::new_from_array(bytes)
}

fn guid(seed: u8) -> [u8; 32] {
    let mut bytes = [0xabu8; 32];
    bytes[16] = seed;
    bytes
}

#[test]
fn principal_set_fills_to_sixteen() {
    let mut set: OverrideSet<Pubkey> = OverrideSet::new(16);
    assert_eq!(set.add(principal(1)), Ok(()));
    assert!(set.contains(&principal(1)));
    assert_eq!(set.len(), 1);

    assert_eq!(set.add(principal(1)), Err(OFTError::AlreadyInOverrideList));
    assert_eq!(set.len(), 1);

    assert_eq!(set.remove(&principal(2)), Err(OFTError::NotInOverrideList));
    assert_eq!(set.len(), 1);

    for seed in 2..=16u8 {
        assert_eq!(set.add(principal(seed)), Ok(()));
    }
    assert_eq!(set.len(), 16);
    assert_eq!(set.add(principal(17)), Err(OFTError::RateLimitOverrideListFull));
    assert_eq!(set.len(), 16);
    assert!(!set.contains(&principal(17)));
}

#[test]
fn distinct_adds_are_all_held() {
    let mut set: OverrideSet<[u8; 32]> = OverrideSet::new(8);
    for seed in 0..8u8 {
        assert_eq!(set.add(guid(seed)), Ok(()));
        assert_eq!(set.len(), seed as usize + 1);
    }
    for seed in 0..8u8 {
        assert!(set.contains(&guid(seed)));
    }
    let expected: Vec<[u8; 32]> = (0..8u8).map(guid).collect();
    assert_eq!(set.entries(), &expected);
}

#[test]
fn duplicate_add_changes_nothing() {
    let mut set: OverrideSet<Pubkey> = OverrideSet::new(4);
    set.add(principal(1)).unwrap();
    set.add(principal(2)).unwrap();
    let before = set.entries().clone();
    assert_eq!(set.add(principal(2)), Err(OFTError::AlreadyInOverrideList));
    assert_eq!(set.entries(), &before);
    assert_eq!(set.capacity(), 4);
}

#[test]
fn add_beyond_capacity_changes_nothing() {
    let mut set: OverrideSet<Pubkey> = OverrideSet::new(2);
    set.add(principal(1)).unwrap();
    set.add(principal(2)).unwrap();
    let before = set.entries().clone();
    assert_eq!(set.add(principal(3)), Err(OFTError::RateLimitOverrideListFull));
    assert_eq!(set.entries(), &before);
}

#[test]
fn full_list_is_reported_before_duplicate() {
    let mut set: OverrideSet<Pubkey> = OverrideSet::new(1);
    set.add(principal(1)).unwrap();
    assert_eq!(set.add(principal(1)), Err(OFTError::RateLimitOverrideListFull));
}

#[test]
fn zero_capacity_holds_nothing() {
    let mut set: OverrideSet<Pubkey> = OverrideSet::new(0);
    assert_eq!(set.add(principal(1)), Err(OFTError::RateLimitOverrideListFull));
    assert_eq!(set.len(), 0);
    assert_eq!(set.remove(&principal(1)), Err(OFTError::NotInOverrideList));
}

#[test]
fn largest_capacity_fills_up() {
    let mut set: OverrideSet<[u8; 32]> = OverrideSet::new(255);
    for seed in 0..255u8 {
        assert_eq!(set.add(guid(seed)), Ok(()));
    }
    assert_eq!(set.len(), 255);
    assert_eq!(set.add(guid(255)), Err(OFTError::RateLimitOverrideListFull));
}

#[test]
fn remove_shrinks_by_one() {
    let mut set: OverrideSet<Pubkey> = OverrideSet::new(8);
    for seed in 1..=5u8 {
        set.add(principal(seed)).unwrap();
    }
    assert_eq!(set.remove(&principal(3)), Ok(()));
    assert_eq!(set.len(), 4);
    assert!(!set.contains(&principal(3)));
    for seed in [1u8, 2, 4, 5] {
        assert!(set.contains(&principal(seed)));
    }
}

#[test]
fn remove_moves_last_entry_into_place() {
    let mut set: OverrideSet<Pubkey> = OverrideSet::new(8);
    for seed in 1..=4u8 {
        set.add(principal(seed)).unwrap();
    }
    set.remove(&principal(2)).unwrap();
    assert_eq!(set.entries(), &vec![principal(1), principal(4), principal(3)]);
    set.remove(&principal(3)).unwrap();
    assert_eq!(set.entries(), &vec![principal(1), principal(4)]);
    set.remove(&principal(1)).unwrap();
    assert_eq!(set.entries(), &vec![principal(4)]);
    set.remove(&principal(4)).unwrap();
    assert_eq!(set.len(), 0);
}

#[test]
fn remove_absent_changes_nothing() {
    let mut set: OverrideSet<Pubkey> = OverrideSet::new(8);
    set.add(principal(1)).unwrap();
    set.add(principal(2)).unwrap();
    let before = set.entries().clone();
    assert_eq!(set.remove(&principal(9)), Err(OFTError::NotInOverrideList));
    assert_eq!(set.entries(), &before);
}

#[test]
fn removal_frees_a_slot() {
    let mut set: OverrideSet<Pubkey> = OverrideSet::new(2);
    set.add(principal(1)).unwrap();
    set.add(principal(2)).unwrap();
    assert_eq!(set.add(principal(3)), Err(OFTError::RateLimitOverrideListFull));
    set.remove(&principal(1)).unwrap();
    assert_eq!(set.add(principal(3)), Ok(()));
    assert_eq!(set.entries(), &vec![principal(2), principal(3)]);
}

#[test]
fn second_add_of_same_key_is_not_idempotent() {
    let mut set: OverrideSet<[u8; 32]> = OverrideSet::new(8);
    assert_eq!(set.add(guid(1)), Ok(()));
    assert_eq!(set.add(guid(1)), Err(OFTError::AlreadyInOverrideList));
    assert_eq!(set.remove(&guid(1)), Ok(()));
    assert_eq!(set.add(guid(1)), Ok(()));
}

#[test]
fn snapshot_is_independent_copy() {
    let mut set: OverrideSet<Pubkey> = OverrideSet::new(3);
    set.add(principal(1)).unwrap();
    set.add(principal(2)).unwrap();
    let copy = set.snapshot();
    set.remove(&principal(1)).unwrap();
    assert_eq!(copy.entries(), &vec![principal(1), principal(2)]);
    assert_eq!(copy.capacity(), 3);
    assert_eq!(set.entries(), &vec![principal(2)]);
}

#[test]
fn keys_differ_by_any_byte() {
    let base = [7u8; 32];
    assert!(bytes32_eq(&base, &base));
    for i in 0..32 {
        let mut other = base;
        other[i] = 8;
        assert!(!bytes32_eq(&base, &other));
        assert!(!base.same(&other));
        assert!(!Pubkey::new_from_array(base).same(&Pubkey::new_from_array(other)));
    }
    assert!(base.same(&[7u8; 32]));
    assert!(Pubkey::new_from_array(base).same(&Pubkey::new_from_array([7u8; 32])));
}

#[test]
fn repeated_adds_count_each_key_once() {
    let mut set: OverrideSet<Pubkey> = OverrideSet::new(3);
    let mut accepted = 0;
    for seed in [1u8, 2, 1, 3, 2, 3, 1] {
        if set.add(principal(seed)).is_ok() {
            accepted += 1;
        }
    }
    assert_eq!(accepted, 3);
    assert_eq!(set.len(), 3);
    assert_eq!(set.entries(), &vec![principal(1), principal(2), principal(3)]);
    for seed in 1..=3u8 {
        assert!(set.contains(&principal(seed)));
    }
}
