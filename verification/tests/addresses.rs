use roshi::accounts::{verify_deposit_asset, verify_new_asset_address, verify_new_vault_addresses};
use roshi::addresses::{find_share_mint_address, try_find_share_mint_address, ID};
use roshi::error::{ProgramError, RoshiError};
use roshi::state::asset::Asset;
use roshi::oracle::OracleConfig;
use roshi::state::vault::{Vault, VaultControls};
use solana_pubkey::Pubkey;

fn base58_decode(text: &str) -> Vec<u8> {
    let alphabet = b"123456789ABCDEFGHJKLMNPQRSTUVWXYZabcdefghijkmnopqrstuvwxyz";
    let mut bytes = vec![0u8; 32];
    for c in text.bytes() {
        let mut carry = alphabet.iter().position(|a| *a == c).unwrap() as u32;
        for byte in bytes.iter_mut().rev() {
            carry += (*byte as u32) * 58;
            *byte = (carry & 0xff) as u8;
            carry >>= 8;
        }
        assert_eq!(carry, 0);
    }
    bytes
}

#[test]
fn program_id_decodes_from_its_address() {
    assert_eq!(
        base58_decode("RoshianbALLAs1RzbvHSHpLRaA8ayaKERQCbfmLb9UP"),
        ID.to_vec()
    );
}

#[test]
fn share_mint_address_uses_its_seed() {
    let vault = [3u8; 32];
    let (key, bump) = Pubkey::find_program_address(&[b"share_mint", &vault], &Pubkey::from(ID));
    assert_eq!(find_share_mint_address(&vault), (key.to_bytes(), bump));
    assert_eq!(try_find_share_mint_address(&vault), Some((key.to_bytes(), bump)));
}

#[test]
fn asset_address_uses_vault_and_mint() {
    let (key, bump) =
        Pubkey::find_program_address(&[b"asset", &[1u8; 32], &[2u8; 32]], &Pubkey::from(ID));
    assert_eq!(Asset::find_address(&[1; 32], &[2; 32]), (key.to_bytes(), bump));
    assert_eq!(
        Asset::try_find_address(&[1; 32], &[2; 32]),
        Some((key.to_bytes(), bump))
    );
    assert_ne!(Asset::find_address(&[1; 32], &[3; 32]), (key.to_bytes(), bump));
}

#[test]
fn vault_address_uses_tag_and_base_mint() {
    let (key, bump) =
        Pubkey::find_program_address(&[b"vault", b"test", &[2u8; 32]], &Pubkey::from(ID));
    assert_eq!(
        Vault::find_address(b"test", &[2; 32]),
        Ok((key.to_bytes(), bump))
    );
    assert_eq!(
        Vault::find_address(b"", &[2; 32]),
        Err(ProgramError::from(RoshiError::InvalidVaultTag))
    );
    assert_eq!(
        Vault::find_address(&[1u8; 33], &[2; 32]),
        Err(ProgramError::from(RoshiError::InvalidVaultTag))
    );
    assert_eq!(
        Vault::try_find_address(b"test", &[2; 32]),
        Ok((key.to_bytes(), bump))
    );
    assert_eq!(
        Vault::try_find_address(b"", &[2; 32]),
        Err(ProgramError::from(RoshiError::InvalidVaultTag))
    );
}

#[test]
fn verify_address_requires_derived_key_and_bump() {
    let (key, bump) =
        Pubkey::find_program_address(&[b"vault", b"test", &[3u8; 32]], &Pubkey::from(ID));
    let vault = Vault::new(
        b"test",
        [1; 32],
        [2; 32],
        [4; 32],
        [5; 32],
        [3; 32],
        [6; 32],
        6,
        OracleConfig::default(),
        7,
        8,
        [9; 32],
        100,
        250,
        VaultControls::default(),
        false,
        [0; 32],
        bump,
    )
    .unwrap();
    assert_eq!(vault.verify_address(&key.to_bytes()), Ok(()));
    assert_eq!(
        vault.verify_address(&[0; 32]),
        Err(ProgramError::InvalidSeeds)
    );
    let mut wrong_bump = vault;
    wrong_bump.bump = bump.wrapping_sub(1);
    assert_eq!(
        wrong_bump.verify_address(&key.to_bytes()),
        Err(ProgramError::InvalidSeeds)
    );
    assert_eq!(vault.try_verify_address(&key.to_bytes()), Ok(()));
    assert_eq!(
        wrong_bump.try_verify_address(&key.to_bytes()),
        Err(ProgramError::InvalidSeeds)
    );
}

#[test]
fn deposits_price_only_through_an_enabled_registration_of_the_vault() {
    let vault = [1u8; 32];
    let mint = [2u8; 32];
    let (key, bump) =
        Pubkey::find_program_address(&[b"asset", &vault, &mint], &Pubkey::from(ID));
    let key = key.to_bytes();
    let asset = Asset::new(vault, mint, OracleConfig::default(), 6, true, false, u64::MAX, bump)
        .unwrap();
    assert_eq!(verify_deposit_asset(&vault, &mint, &asset, &key), Ok(()));
    let invalid = Err(ProgramError::from(RoshiError::InvalidAssetAccount));
    assert_eq!(verify_deposit_asset(&vault, &mint, &asset, &[0; 32]), invalid);
    assert_eq!(verify_deposit_asset(&[9; 32], &mint, &asset, &key), invalid);
    let mut disabled = asset;
    disabled.set_enabled(false);
    assert_eq!(verify_deposit_asset(&vault, &mint, &disabled, &key), invalid);
}

#[test]
fn new_vault_accounts_sit_at_their_derived_addresses() {
    let base_mint = [2u8; 32];
    let (vault, vault_bump) =
        Pubkey::find_program_address(&[b"vault", b"test", &base_mint], &Pubkey::from(ID));
    let (share_mint, mint_bump) =
        Pubkey::find_program_address(&[b"share_mint", vault.as_ref()], &Pubkey::from(ID));
    let mut tag = [0u8; 32];
    tag[..4].copy_from_slice(b"test");
    let vault = vault.to_bytes();
    let share_mint = share_mint.to_bytes();
    assert_eq!(
        verify_new_vault_addresses(&vault, &share_mint, &tag, 4, &base_mint),
        Ok((tag, 4, vault_bump, mint_bump))
    );
    assert_eq!(
        verify_new_vault_addresses(&vault, &share_mint, &tag, 0, &base_mint),
        Err(ProgramError::from(RoshiError::InvalidVaultTag))
    );
    assert_eq!(
        verify_new_vault_addresses(&[0; 32], &share_mint, &tag, 4, &base_mint),
        Err(ProgramError::InvalidSeeds)
    );
    assert_eq!(
        verify_new_vault_addresses(&vault, &[0; 32], &tag, 4, &base_mint),
        Err(ProgramError::InvalidSeeds)
    );
}

#[test]
fn new_asset_registration_sits_at_its_derived_address() {
    let (asset, bump) =
        Pubkey::find_program_address(&[b"asset", &[1u8; 32], &[2u8; 32]], &Pubkey::from(ID));
    assert_eq!(verify_new_asset_address(&[1; 32], &[2; 32], &asset.to_bytes()), Ok(bump));
    assert_eq!(
        verify_new_asset_address(&[1; 32], &[2; 32], &[0; 32]),
        Err(ProgramError::InvalidSeeds)
    );
}
