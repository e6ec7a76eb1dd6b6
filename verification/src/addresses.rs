//! The program id and the program-derived addresses of its accounts.

use vstd::prelude::*;

verus! {

/// The program id, `RoshianbALLAs1RzbvHSHpLRaA8ayaKERQCbfmLb9UP`.
pub const ID: [u8; 32] = [
    6, 90, 240, 177, 218, 150, 106, 217, 233, 137, 234, 135, 93, 244, 238, 214, 100, 17, 78, 110, 88, 191,
    111, 135, 238, 109, 236, 146, 174, 26, 147, 212,
];

/// The address and bump seed `solana_pubkey` derives for `seeds` under
/// `program_id`, or `None` where it derives none.
pub uninterp spec fn program_address(seeds: Seq<Seq<u8>>, program_id: Seq<u8>) -> Option<(Seq<u8>, u8)>;

/// The byte strings of a list of seeds.
pub open spec fn seeds_view(seeds: Seq<Vec<u8>>) -> Seq<Seq<u8>> {
    seeds.map_values(|seed: Vec<u8>| seed@)
}

/// Trusted: `solana_pubkey::Pubkey::try_find_program_address`. The contract
/// claims only that the result is the named function of the seeds and the
/// program id. Left unsaid: the search itself (the largest bump whose hash
/// is off the ed25519 curve), and that it finds nothing for 16 or more seeds
/// or a seed longer than 32 bytes.
#[verifier::external_body]
fn try_find_program_address(seeds: &Vec<Vec<u8>>, program_id: &[u8; 32]) -> (r: Option<([u8; 32], u8)>)
    ensures
        match r {
            Some((key, bump)) => program_address(seeds_view(seeds@), program_id@) == Some((key@, bump)),
            None => program_address(seeds_view(seeds@), program_id@) is None,
        },
{
    let seeds: Vec<&[u8]> = seeds.iter().map(|seed| seed.as_slice()).collect();
    solana_pubkey::Pubkey::try_find_program_address(&seeds, &solana_pubkey::Pubkey::from(*program_id)).map(
        |(key, bump)| (key.to_bytes(), bump),
    )
}

/// The address and bump seed this program derives from `seeds`; `None`
/// where no bump seed yields an address.
pub fn find_program_address(seeds: &Vec<Vec<u8>>) -> (r: Option<([u8; 32], u8)>)
    ensures
        match r {
            Some((key, bump)) => program_address(seeds_view(seeds@), ID@) == Some((key@, bump)),
            None => program_address(seeds_view(seeds@), ID@) is None,
        },
{
    try_find_program_address(seeds, &ID)
}

/// `"share_mint"`, the seed prefix of a vault's share mint.
pub open spec fn share_mint_seed() -> Seq<u8> {
    seq![115u8, 104, 97, 114, 101, 95, 109, 105, 110, 116]
}

/// `"vault"`, the seed prefix of a vault.
pub open spec fn vault_seed() -> Seq<u8> {
    seq![118u8, 97, 117, 108, 116]
}

/// `"asset"`, the seed prefix of an asset registration.
pub open spec fn asset_seed() -> Seq<u8> {
    seq![97u8, 115, 115, 101, 116]
}

/// The byte string `bytes` as a seed.
pub fn seed_from(bytes: &[u8]) -> (r: Vec<u8>)
    ensures
        r@ == bytes@,
{
    let mut seed: Vec<u8> = Vec::new();
    crate::access::append_bytes(&mut seed, bytes);
    seed
}

/// The `"share_mint"` seed.
pub fn share_mint_seed_bytes() -> (r: Vec<u8>)
    ensures
        r@ == share_mint_seed(),
{
    let r = seed_from(&[115u8, 104, 97, 114, 101, 95, 109, 105, 110, 116]);
    assert(r@ =~= share_mint_seed());
    r
}

/// The `"vault"` seed.
pub fn vault_seed_bytes() -> (r: Vec<u8>)
    ensures
        r@ == vault_seed(),
{
    let r = seed_from(&[118u8, 97, 117, 108, 116]);
    assert(r@ =~= vault_seed());
    r
}

/// The `"asset"` seed.
pub fn asset_seed_bytes() -> (r: Vec<u8>)
    ensures
        r@ == asset_seed(),
{
    let r = seed_from(&[97u8, 115, 115, 101, 116]);
    assert(r@ =~= asset_seed());
    r
}

/// The seeds of a vault's share mint: `["share_mint", vault]`.
fn share_mint_seeds(vault: &[u8; 32]) -> (r: Vec<Vec<u8>>)
    ensures
        seeds_view(r@) == seq![share_mint_seed(), vault@],
{
    let mut seeds: Vec<Vec<u8>> = Vec::new();
    seeds.push(share_mint_seed_bytes());
    seeds.push(seed_from(vault));
    assert(seeds_view(seeds@) =~= seq![share_mint_seed(), vault@]);
    seeds
}

/// The share mint of `vault`: derived from `["share_mint", vault]`. The
/// seeds must yield an address.
pub fn find_share_mint_address(vault: &[u8; 32]) -> (r: ([u8; 32], u8))
    requires
        program_address(seq![share_mint_seed(), vault@], ID@) is Some,
    ensures
        program_address(seq![share_mint_seed(), vault@], ID@) == Some((r.0@, r.1)),
{
    match find_program_address(&share_mint_seeds(vault)) {
        Some(found) => found,
        None => {
            assert(false);
            ([0u8; 32], 0)
        },
    }
}

/// The share mint of `vault`, or `None` where its seeds yield no address.
pub fn try_find_share_mint_address(vault: &[u8; 32]) -> (r: Option<([u8; 32], u8)>)
    ensures
        match r {
            Some((key, bump)) => program_address(seq![share_mint_seed(), vault@], ID@) == Some((key@, bump)),
            None => program_address(seq![share_mint_seed(), vault@], ID@) is None,
        },
{
    match find_program_address(&share_mint_seeds(vault)) {
        Some(_) => Some(find_share_mint_address(vault)),
        None => None,
    }
}

} // verus!
