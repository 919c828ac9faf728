use anchor_lang::prelude::Pubkey;
use staking::address::Address;
use staking::state::{
    get_global_pool_pda, get_position_counter_pda, get_stake_position_pda,
    get_user_stake_info_pda, global_pool_seeds, position_counter_seeds, stake_position_seeds,
    user_stake_info_seeds, GlobalPool, PositionCounter, StakePosition, UserStakeInfo,
    ACCUMULATED_REWARD_PER_SHARE_PRECISION, COUNTER_SEED, PERIOD_SECS_1_MONTH,
    PERIOD_SECS_1_YEAR, PERIOD_SECS_3_MONTHS, POOL_SEED, POSITION_SEED, UNCLAIMED_REWARD_FLAG,
};

fn key_bytes(first: u8) -> [u8; 32] {
    let mut bytes = [7u8; 32];
    bytes[0] = first;
    bytes
}

fn derived_directly(seeds: &[&[u8]], program: [u8; 32]) -> ([u8; 32], u8) {
    let (key, bump) = Pubkey::find_program_address(seeds, &Pubkey::new_from_array(program));
    (key.to_bytes(), bump)
}

#[test]
fn tags_spell_their_names() {
    assert_eq!(&POOL_SEED[..], b"pool");
    assert_eq!(&POSITION_SEED[..], b"position");
    assert_eq!(&COUNTER_SEED[..], b"counter");
}

#[test]
fn constants_have_their_values() {
    assert_eq!(ACCUMULATED_REWARD_PER_SHARE_PRECISION, 1_000_000_000_000u128);
    assert_eq!(UNCLAIMED_REWARD_FLAG, 1u128 << 127);
    assert_eq!(PERIOD_SECS_1_MONTH, 60);
    assert_eq!(PERIOD_SECS_3_MONTHS, 3600);
    assert_eq!(PERIOD_SECS_1_YEAR, 86400);
}

#[test]
fn stored_sizes() {
    assert_eq!(GlobalPool::LEN, 146);
    assert_eq!(UserStakeInfo::LEN, 72);
    assert_eq!(PositionCounter::LEN, 12);
    assert_eq!(StakePosition::LEN, 61);
}

#[test]
fn zero_address_is_all_zero_bytes() {
    assert_eq!(Address::zero().bytes, [0u8; 32]);
    assert!(Address::zero() == Address { bytes: [0u8; 32] });
    assert!(Address::zero() != Address { bytes: key_bytes(0) });
}

#[test]
fn blank_records() {
    assert_eq!(Address::default().bytes, [0u8; 32]);
    assert_eq!(
        UserStakeInfo::default(),
        UserStakeInfo { owner: Address { bytes: [0u8; 32] }, amount: 0, reward_debt: 0, unlock_at: 0 }
    );
    assert_eq!(PositionCounter::default(), PositionCounter { next_index: 0 });
}

#[test]
fn addresses_compare_by_every_byte() {
    let a = Address { bytes: [9u8; 32] };
    let mut other = [9u8; 32];
    other[31] = 8;
    assert!(a == Address { bytes: [9u8; 32] });
    assert!(a != Address { bytes: other });
}

#[test]
fn pool_seeds_are_the_tag() {
    assert_eq!(global_pool_seeds(), vec![b"pool".to_vec()]);
}

#[test]
fn bucket_seeds_are_tag_owner_period() {
    let owner = key_bytes(2);
    assert_eq!(
        user_stake_info_seeds(&Address { bytes: owner }, 1),
        vec![b"pool".to_vec(), owner.to_vec(), vec![1u8]]
    );
}

#[test]
fn counter_seeds_are_tag_tag_owner_period() {
    let owner = key_bytes(2);
    assert_eq!(
        position_counter_seeds(&Address { bytes: owner }, 2),
        vec![b"pool".to_vec(), b"counter".to_vec(), owner.to_vec(), vec![2u8]]
    );
}

#[test]
fn position_seeds_end_in_the_index_lowest_byte_first() {
    let owner = key_bytes(2);
    assert_eq!(
        stake_position_seeds(&Address { bytes: owner }, 0, 0x0102_0304),
        vec![
            b"pool".to_vec(),
            b"position".to_vec(),
            owner.to_vec(),
            vec![0u8],
            vec![4u8, 3, 2, 1],
        ]
    );
    assert_eq!(
        stake_position_seeds(&Address { bytes: owner }, 0, u32::MAX)[4],
        vec![255u8, 255, 255, 255]
    );
    assert_eq!(stake_position_seeds(&Address { bytes: owner }, 0, 256)[4], vec![0u8, 1, 0, 0]);
}

#[test]
fn pool_address_is_the_derived_one() {
    let program = key_bytes(1);
    let (expected, bump) = derived_directly(&[b"pool"], program);
    let (address, got_bump) =
        get_global_pool_pda(&Address { bytes: program }).expect("an address is derived");
    assert_eq!(address.bytes, expected);
    assert_eq!(got_bump, bump);
    assert_ne!(address.bytes, program);
}

#[test]
fn bucket_address_is_the_derived_one() {
    let program = key_bytes(1);
    let owner = key_bytes(2);
    let (expected, bump) = derived_directly(&[b"pool", &owner, &[1u8]], program);
    let (address, got_bump) =
        get_user_stake_info_pda(&Address { bytes: program }, &Address { bytes: owner }, 1)
            .expect("an address is derived");
    assert_eq!(address.bytes, expected);
    assert_eq!(got_bump, bump);
    assert_ne!(address.bytes, owner);
}

#[test]
fn position_counter_address_is_the_derived_one() {
    let program = key_bytes(1);
    let owner = key_bytes(2);
    let (expected, bump) = derived_directly(&[b"pool", b"counter", &owner, &[0u8]], program);
    let (address, got_bump) =
        get_position_counter_pda(&Address { bytes: program }, &Address { bytes: owner }, 0)
            .expect("an address is derived");
    assert_eq!(address.bytes, expected);
    assert_eq!(got_bump, bump);
    assert_ne!(address.bytes, owner);
    let (other, _) =
        get_position_counter_pda(&Address { bytes: program }, &Address { bytes: owner }, 1)
            .expect("an address is derived");
    assert_ne!(other.bytes, expected);
}

#[test]
fn stake_position_address_is_the_derived_one() {
    let program = key_bytes(1);
    let owner = key_bytes(2);
    let index: u32 = 0x0102_0304;
    let (expected, bump) = derived_directly(
        &[b"pool", b"position", &owner, &[2u8], &index.to_le_bytes()],
        program,
    );
    let (address, got_bump) = get_stake_position_pda(
        &Address { bytes: program },
        &Address { bytes: owner },
        2,
        index,
    )
    .expect("an address is derived");
    assert_eq!(address.bytes, expected);
    assert_eq!(got_bump, bump);
    assert_ne!(address.bytes, owner);
}

#[test]
fn stake_position_address_depends_on_the_index() {
    let program = Address { bytes: key_bytes(1) };
    let owner = Address { bytes: key_bytes(2) };
    let first = get_stake_position_pda(&program, &owner, 0, 0).expect("derived");
    let second = get_stake_position_pda(&program, &owner, 0, 1).expect("derived");
    assert_ne!(first.0.bytes, second.0.bytes);
    assert_eq!(get_stake_position_pda(&program, &owner, 0, 0).expect("derived").0.bytes, first.0.bytes);
}
