use roshi::error::ProgramError;
use roshi::instructions::account_flags::{AccountFlags, PackedAccountFlags};

fn flags() -> [AccountFlags; 3] {
    [
        AccountFlags {
            is_signer: true,
            is_writable: false,
        },
        AccountFlags {
            is_signer: false,
            is_writable: true,
        },
        AccountFlags {
            is_signer: true,
            is_writable: true,
        },
    ]
}

#[test]
fn packs_and_unpacks_three_accounts_in_one_byte() {
    let flags = flags();
    let packed = PackedAccountFlags::from_flags(&flags);

    assert_eq!(packed.accounts_len, 3);
    assert_eq!(packed.bits, vec![0b00_11_10_01]);
    assert_eq!(packed.iter().unwrap(), flags.to_vec());
}

#[test]
fn round_trips_flags_across_bytes() {
    let flags = [
        AccountFlags {
            is_signer: false,
            is_writable: false,
        },
        AccountFlags {
            is_signer: true,
            is_writable: false,
        },
        AccountFlags {
            is_signer: false,
            is_writable: true,
        },
        AccountFlags {
            is_signer: true,
            is_writable: true,
        },
        AccountFlags {
            is_signer: true,
            is_writable: true,
        },
        AccountFlags {
            is_signer: false,
            is_writable: true,
        },
    ];

    let packed = PackedAccountFlags::from_flags(&flags);

    assert_eq!(packed.bits, vec![0b11_10_01_00, 0b0000_1011]);
    assert_eq!(packed.iter().unwrap(), flags.to_vec());
}

#[test]
fn empty_flags_are_canonical() {
    let packed = PackedAccountFlags::from_flags(&[]);

    assert_eq!(packed.accounts_len, 0);
    assert!(packed.bits.is_empty());
    assert!(packed.iter().unwrap().is_empty());
}

#[test]
fn packs_the_maximum_account_count() {
    let flags = vec![
        AccountFlags {
            is_signer: true,
            is_writable: true,
        };
        255
    ];
    let packed = PackedAccountFlags::from_flags(&flags);
    assert_eq!(packed.accounts_len, 255);
    assert_eq!(packed.bits.len(), 64);
    assert_eq!(packed.bits[63], 0b0011_1111);
    assert_eq!(packed.iter().unwrap(), flags);
}

#[test]
fn rejects_short_bits() {
    let packed = PackedAccountFlags {
        accounts_len: 1,
        bits: vec![],
    };

    assert!(matches!(
        packed.iter(),
        Err(ProgramError::InvalidInstructionData)
    ));
}

#[test]
fn rejects_long_bits() {
    let packed = PackedAccountFlags {
        accounts_len: 1,
        bits: vec![0, 0],
    };

    assert!(matches!(
        packed.iter(),
        Err(ProgramError::InvalidInstructionData)
    ));
}

#[test]
fn rejects_nonzero_pad_bits() {
    let packed = PackedAccountFlags {
        accounts_len: 3,
        bits: vec![0b0100_0000],
    };

    assert!(matches!(
        packed.iter(),
        Err(ProgramError::InvalidInstructionData)
    ));
}

#[test]
fn rejects_nonzero_pad_bits_with_one_account() {
    let packed = PackedAccountFlags {
        accounts_len: 1,
        bits: vec![0b0000_0100],
    };

    assert!(matches!(
        packed.iter(),
        Err(ProgramError::InvalidInstructionData)
    ));
}

#[test]
fn canonical_packing_is_recovered_from_its_flags() {
    let packed = PackedAccountFlags {
        accounts_len: 5,
        bits: vec![0b1110_0100, 0b0000_0011],
    };
    let flags = packed.iter().unwrap();
    assert_eq!(PackedAccountFlags::from_flags(&flags), packed);
}
