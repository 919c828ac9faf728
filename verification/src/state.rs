use vstd::prelude::*;
use crate::address::Address;
use anchor_lang::prelude::Pubkey;

verus! {

/// The fixed-point scale of the reward accumulator: 1e12.
pub const ACCUMULATED_REWARD_PER_SHARE_PRECISION: u128 = 1_000_000_000_000;

/// Top bit of a bucket's `reward_debt`. Set on an empty bucket, it says that
/// the low bits are a reward still to be paid, and no debt.
pub const UNCLAIMED_REWARD_FLAG: u128 = 0x8000_0000_0000_0000_0000_0000_0000_0000;

/// `b"pool"`: the namespace tag that every storage address starts with.
pub const POOL_SEED: [u8; 4] = [0x70, 0x6f, 0x6f, 0x6c];

/// `b"position"`: the tag of a stake position's address.
pub const POSITION_SEED: [u8; 8] = [0x70, 0x6f, 0x73, 0x69, 0x74, 0x69, 0x6f, 0x6e];

/// `b"counter"`: the tag of a position counter's address.
pub const COUNTER_SEED: [u8; 7] = [0x63, 0x6f, 0x75, 0x6e, 0x74, 0x65, 0x72];

/// Lock of period 0, in seconds.
pub const PERIOD_SECS_1_MONTH: i64 = 60;

/// Lock of period 1, in seconds.
pub const PERIOD_SECS_3_MONTHS: i64 = 60 * 60;

/// Lock of period 2, in seconds.
pub const PERIOD_SECS_1_YEAR: i64 = 24 * 60 * 60;

/// A lock period: 0, 1 or 2, shortest first.
pub type Period = u8;

/// The pool: how much is staked, how fast rewards flow, and the accumulator
/// of reward per staked unit, scaled by 1e12.
#[derive(Clone, Copy, Debug, PartialEq, Eq)]
pub struct GlobalPool {
    pub authority: Address,
    pub staking_mint: Address,
    pub reward_mint: Address,
    pub total_staked: u64,
    pub reward_per_second: u64,
    pub accumulated_reward_per_share: u128,
    pub last_reward_time: i64,
    pub bump: u8,
    pub is_initialized: bool,
}

impl GlobalPool {
    /// Stored size in bytes, the 8-byte type tag included.
    pub const LEN: usize = 8 + 32 + 32 + 32 + 8 + 8 + 16 + 8 + 1 + 1;
}

/// One owner's bucket for one lock period: the sum of the owner's positions
/// there, the settlement cursor, and the latest unlock time.
#[derive(Clone, Copy, Debug, PartialEq, Eq)]
pub struct UserStakeInfo {
    pub owner: Address,
    pub amount: u64,
    pub reward_debt: u128,
    pub unlock_at: i64,
}

impl UserStakeInfo {
    /// Stored size in bytes, the 8-byte type tag included.
    pub const LEN: usize = 8 + 32 + 8 + 16 + 8;
}

impl Default for UserStakeInfo {
    /// A bucket that no owner has claimed: empty, with no debt and no lock.
    fn default() -> (r: UserStakeInfo)
        ensures
            r.owner.is_zero(),
            r.amount == 0,
            r.reward_debt == 0,
            r.unlock_at == 0,
    {
        UserStakeInfo { owner: Address::zero(), amount: 0, reward_debt: 0, unlock_at: 0 }
    }
}

/// The index that the next position of one owner in one lock period gets.
#[derive(Clone, Copy, Debug, PartialEq, Eq)]
pub struct PositionCounter {
    pub next_index: u32,
}

impl PositionCounter {
    /// Stored size in bytes, the 8-byte type tag included.
    pub const LEN: usize = 8 + 4;
}

impl Default for PositionCounter {
    /// A counter that has given no index out yet.
    fn default() -> (r: PositionCounter)
        ensures
            r.next_index == 0,
    {
        PositionCounter { next_index: 0 }
    }
}

/// The record of one stake: written once, never read back by an operation.
#[derive(Clone, Copy, Debug, PartialEq, Eq)]
pub struct StakePosition {
    pub owner: Address,
    pub period: Period,
    pub index: u32,
    pub amount: u64,
    pub unlock_at: i64,
}

impl StakePosition {
    /// Stored size in bytes, the 8-byte type tag included.
    pub const LEN: usize = 8 + 32 + 1 + 4 + 8 + 8;
}

/// What an operation reads of a token account: the mint it is bound to and
/// its balance.
#[derive(Clone, Copy, Debug, PartialEq, Eq)]
pub struct TokenAccount {
    pub mint: Address,
    pub amount: u64,
}

/// The four bytes of a position index, lowest first.
pub open spec fn index_le_bytes(index: u32) -> Seq<u8> {
    seq![
        (index % 256) as u8,
        (index / 256 % 256) as u8,
        (index / 65536 % 256) as u8,
        (index / 16777216) as u8,
    ]
}

/// Seeds of the pool's address: the pool tag.
pub open spec fn spec_global_pool_seeds() -> Seq<Seq<u8>> {
    seq![POOL_SEED@]
}

/// Seeds of a bucket's address: the pool tag, the owner, the period byte.
pub open spec fn spec_user_stake_info_seeds(owner: Seq<u8>, period: Period) -> Seq<Seq<u8>> {
    seq![POOL_SEED@, owner, seq![period]]
}

/// Seeds of a position counter's address: the pool tag, the counter tag, the
/// owner, the period byte.
pub open spec fn spec_position_counter_seeds(owner: Seq<u8>, period: Period) -> Seq<Seq<u8>> {
    seq![POOL_SEED@, COUNTER_SEED@, owner, seq![period]]
}

/// Seeds of a stake position's address: the pool tag, the position tag, the
/// owner, the period byte, the index as four little-endian bytes.
pub open spec fn spec_stake_position_seeds(
    owner: Seq<u8>,
    period: Period,
    index: u32,
) -> Seq<Seq<u8>> {
    seq![POOL_SEED@, POSITION_SEED@, owner, seq![period], index_le_bytes(index)]
}

fn bytes_of<const N: usize>(a: &[u8; N]) -> (v: Vec<u8>)
    ensures
        v@ == a@,
{
    let mut v: Vec<u8> = Vec::new();
    let mut i: usize = 0;
    while i < N
        invariant
            i <= N,
            v@ == a@.subrange(0, i as int),
        decreases N - i,
    {
        v.push(a[i]);
        i += 1;
    }
    assert(a@.subrange(0, N as int) =~= a@);
    v
}

fn period_byte(period: Period) -> (v: Vec<u8>)
    ensures
        v@ == seq![period],
{
    let mut v: Vec<u8> = Vec::new();
    v.push(period);
    v
}

/// Builds the seeds of the pool's address.
pub fn global_pool_seeds() -> (seeds: Vec<Vec<u8>>)
    ensures
        seeds.deep_view() == spec_global_pool_seeds(),
{
    let mut seeds: Vec<Vec<u8>> = Vec::new();
    seeds.push(bytes_of(&POOL_SEED));
    assert(seeds.deep_view() =~~= spec_global_pool_seeds());
    seeds
}

/// Builds the seeds of the address of `owner`'s bucket for `period`.
pub fn user_stake_info_seeds(owner: &Address, period: Period) -> (seeds: Vec<Vec<u8>>)
    ensures
        seeds.deep_view() == spec_user_stake_info_seeds(owner@, period),
{
    let mut seeds: Vec<Vec<u8>> = Vec::new();
    seeds.push(bytes_of(&POOL_SEED));
    seeds.push(bytes_of(&owner.bytes));
    seeds.push(period_byte(period));
    assert(seeds.deep_view() =~~= spec_user_stake_info_seeds(owner@, period));
    seeds
}

/// Builds the seeds of the address of `owner`'s position counter for `period`.
pub fn position_counter_seeds(owner: &Address, period: Period) -> (seeds: Vec<Vec<u8>>)
    ensures
        seeds.deep_view() == spec_position_counter_seeds(owner@, period),
{
    let mut seeds: Vec<Vec<u8>> = Vec::new();
    seeds.push(bytes_of(&POOL_SEED));
    seeds.push(bytes_of(&COUNTER_SEED));
    seeds.push(bytes_of(&owner.bytes));
    seeds.push(period_byte(period));
    assert(seeds.deep_view() =~~= spec_position_counter_seeds(owner@, period));
    seeds
}

/// Builds the seeds of the address of `owner`'s position `index` in `period`.
pub fn stake_position_seeds(owner: &Address, period: Period, index: u32) -> (seeds: Vec<Vec<u8>>)
    ensures
        seeds.deep_view() == spec_stake_position_seeds(owner@, period, index),
{
    let mut le: Vec<u8> = Vec::new();
    le.push((index % 256) as u8);
    le.push((index / 256 % 256) as u8);
    le.push((index / 65536 % 256) as u8);
    le.push((index / 16777216) as u8);
    let mut seeds: Vec<Vec<u8>> = Vec::new();
    seeds.push(bytes_of(&POOL_SEED));
    seeds.push(bytes_of(&POSITION_SEED));
    seeds.push(bytes_of(&owner.bytes));
    seeds.push(period_byte(period));
    seeds.push(le);
    assert(seeds.deep_view() =~~= spec_stake_position_seeds(owner@, period, index));
    seeds
}

/// What `Pubkey::try_find_program_address` derives from a list of seeds and a
/// program's address: the derived address with its bump seed, or nothing
/// where no address can be derived.
pub uninterp spec fn program_address(seeds: Seq<Seq<u8>>, program_id: Seq<u8>) -> Option<(Seq<u8>, u8)>;

/// Whether `derived` is what `program_address` gives for these seeds and
/// this program.
pub open spec fn is_program_address(
    derived: Option<(Address, u8)>,
    seeds: Seq<Seq<u8>>,
    program_id: Seq<u8>,
) -> bool {
    match derived {
        Some((address, bump)) => program_address(seeds, program_id) == Some((address@, bump)),
        None => program_address(seeds, program_id) is None,
    }
}

/// Calls `Pubkey::try_find_program_address`. Not proved: that the result is
/// a function of the seeds and the program's address alone, which is what
/// naming it `program_address` claims. Nothing more is said of it.
#[verifier::external_body]
fn try_find_program_address(
    seeds: &Vec<Vec<u8>>,
    program_id: &Address,
) -> (r: Option<(Address, u8)>)
    ensures
        r matches Some((address, bump))
            ==> program_address(seeds.deep_view(), program_id@) == Some((address@, bump)),
        r is None ==> program_address(seeds.deep_view(), program_id@) is None,
{
    let parts: Vec<&[u8]> = seeds.iter().map(|s| s.as_slice()).collect();
    let id = Pubkey::new_from_array(program_id.bytes);
    Pubkey::try_find_program_address(&parts, &id).map(
        |(key, bump)| (Address { bytes: key.to_bytes() }, bump),
    )
}

/// Address and bump seed of the pool under `program_id`.
pub fn get_global_pool_pda(program_id: &Address) -> (r: Option<(Address, u8)>)
    ensures
        is_program_address(r, spec_global_pool_seeds(), program_id@),
{
    let seeds = global_pool_seeds();
    try_find_program_address(&seeds, program_id)
}

/// Address and bump seed of `owner`'s bucket for `period`.
pub fn get_user_stake_info_pda(
    program_id: &Address,
    owner: &Address,
    period: Period,
) -> (r: Option<(Address, u8)>)
    ensures
        is_program_address(r, spec_user_stake_info_seeds(owner@, period), program_id@),
{
    let seeds = user_stake_info_seeds(owner, period);
    try_find_program_address(&seeds, program_id)
}

/// Address and bump seed of `owner`'s position counter for `period`.
pub fn get_position_counter_pda(
    program_id: &Address,
    owner: &Address,
    period: Period,
) -> (r: Option<(Address, u8)>)
    ensures
        is_program_address(r, spec_position_counter_seeds(owner@, period), program_id@),
{
    let seeds = position_counter_seeds(owner, period);
    try_find_program_address(&seeds, program_id)
}

/// Address and bump seed of `owner`'s position `index` in `period`.
pub fn get_stake_position_pda(
    program_id: &Address,
    owner: &Address,
    period: Period,
    index: u32,
) -> (r: Option<(Address, u8)>)
    ensures
        is_program_address(r, spec_stake_position_seeds(owner@, period, index), program_id@),
{
    let seeds = stake_position_seeds(owner, period, index);
    try_find_program_address(&seeds, program_id)
}

} // verus!
