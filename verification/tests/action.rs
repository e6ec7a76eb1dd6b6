use roshi::action::{
    action_hash_preimage, compute_action_hash_from_metas, AccountMeta, ActionHashError, Op, Ops,
    ResolvedSibling, StoredOp, MAX_ACTION_OPS,
};

fn key(seed: u8) -> [u8; 32] {
    let mut k = [0u8; 32];
    for (i, b) in k.iter_mut().enumerate() {
        *b = seed.wrapping_add(i as u8);
    }
    k
}

#[test]
fn streamed_hash_matches_chunked_reference() {
    let program_id = key(1);
    let ix_data = (0u8..40).collect::<Vec<_>>();
    let account = AccountMeta {
        pubkey: key(2),
        is_signer: true,
        is_writable: true,
    };
    let sibling_accounts = [key(3), key(4)];
    let sibling_data = (10u8..30).collect::<Vec<_>>();
    let siblings = [ResolvedSibling {
        relative_index: -1,
        program_id: key(5),
        data: &sibling_data,
        accounts: &sibling_accounts,
    }];
    let ops = Ops::new(&[
        Op::Noop,
        Op::IngestInstruction { offset: 5, len: 7 },
        Op::IngestAccount { index: 0 },
        Op::IngestInstructionDataSize,
        Op::IngestSiblingInstruction {
            relative_index: -1,
            offset: 2,
            len: 8,
        },
        Op::IngestSiblingAccount {
            relative_index: -1,
            index: 1,
        },
    ])
    .unwrap();

    let mut chunks: Vec<Vec<u8>> = vec![program_id.to_vec()];
    chunks.push(vec![0]);
    chunks.push(vec![1]);
    chunks.push(5u16.to_le_bytes().to_vec());
    chunks.push(vec![7]);
    chunks.push(ix_data[5..12].to_vec());
    chunks.push(vec![2]);
    chunks.push(vec![0]);
    chunks.push(account.pubkey.to_vec());
    chunks.push(vec![1]);
    chunks.push(vec![1]);
    chunks.push(vec![3]);
    chunks.push((ix_data.len() as u32).to_le_bytes().to_vec());
    chunks.push(vec![4]);
    chunks.push(vec![(-1i8) as u8]);
    chunks.push(siblings[0].program_id.to_vec());
    chunks.push(vec![2]);
    chunks.push(vec![8]);
    chunks.push(sibling_data[2..10].to_vec());
    chunks.push(vec![5]);
    chunks.push(vec![(-1i8) as u8]);
    chunks.push(vec![1]);
    chunks.push(sibling_accounts[1].to_vec());
    let refs = chunks.iter().map(Vec::as_slice).collect::<Vec<_>>();
    let reference = solana_sha256_hasher::hashv(&refs).to_bytes();

    let streamed =
        compute_action_hash_from_metas(&program_id, &ops, &[account], &ix_data, &siblings)
            .unwrap();

    assert_eq!(streamed, reference);

    let preimage =
        action_hash_preimage(&program_id, &ops, &[account], &ix_data, &siblings).unwrap();
    assert_eq!(preimage, chunks.concat());
}

#[test]
fn ops_new_enforces_capacity() {
    let ops = vec![Op::Noop; MAX_ACTION_OPS + 1];

    assert_eq!(Ops::new(&ops), Err(ActionHashError::TooManyOps));
}

#[test]
fn ops_new_accepts_exactly_the_capacity() {
    let ops = vec![Op::IngestAccount { index: 3 }; MAX_ACTION_OPS];
    let stored = Ops::new(&ops).unwrap();
    assert_eq!(stored.ops_len as usize, MAX_ACTION_OPS);
    assert_eq!(stored.len(), Ok(MAX_ACTION_OPS));
    assert_eq!(stored.is_empty(), Ok(false));
}

#[test]
fn ops_round_trip_logical_ops() {
    let ops = Ops::new(&[
        Op::Noop,
        Op::IngestInstruction {
            offset: 513,
            len: 7,
        },
        Op::IngestAccount { index: 9 },
        Op::IngestInstructionDataSize,
        Op::IngestSiblingInstruction {
            relative_index: -1,
            offset: 0,
            len: 8,
        },
        Op::IngestSiblingAccount {
            relative_index: 2,
            index: 5,
        },
    ])
    .unwrap();
    let decoded = ops
        .iter()
        .unwrap()
        .into_iter()
        .collect::<Result<Vec<_>, _>>()
        .unwrap();

    assert_eq!(
        decoded,
        vec![
            Op::Noop,
            Op::IngestInstruction {
                offset: 513,
                len: 7,
            },
            Op::IngestAccount { index: 9 },
            Op::IngestInstructionDataSize,
            Op::IngestSiblingInstruction {
                relative_index: -1,
                offset: 0,
                len: 8,
            },
            Op::IngestSiblingAccount {
                relative_index: 2,
                index: 5,
            },
        ]
    );
}

#[test]
fn stored_op_encoding_is_little_endian_and_two_complement() {
    assert_eq!(
        StoredOp::from(Op::IngestInstruction {
            offset: 513,
            len: 7
        }),
        StoredOp {
            kind: 1,
            arg0: 7,
            arg1: 1,
            arg2: 2
        }
    );
    assert_eq!(
        StoredOp::from(Op::IngestSiblingAccount {
            relative_index: -1,
            index: 4
        }),
        StoredOp {
            kind: 5,
            arg0: 255,
            arg1: 4,
            arg2: 0
        }
    );
    assert_eq!(StoredOp::default(), StoredOp::noop());
    assert_eq!(Ops::default(), Ops::empty());
    assert_eq!(Ops::empty().is_empty(), Ok(true));
}

#[test]
fn hash_rejects_corrupt_stored_ops() {
    let program_id = key(7);
    let account_metas: [AccountMeta; 0] = [];
    let ix_data: [u8; 0] = [];

    let mut too_many = Ops::empty();
    too_many.ops_len = u8::try_from(MAX_ACTION_OPS + 1).unwrap();
    assert_eq!(
        compute_action_hash_from_metas(&program_id, &too_many, &account_metas, &ix_data, &[]),
        Err(ActionHashError::TooManyOps)
    );
    assert_eq!(too_many.len(), Err(ActionHashError::TooManyOps));
    assert!(too_many.iter().is_err());

    let mut invalid_kind = Ops::empty();
    invalid_kind.ops[0] = StoredOp {
        kind: 255,
        arg0: 0,
        arg1: 0,
        arg2: 0,
    };
    invalid_kind.ops_len = 1;
    assert_eq!(
        compute_action_hash_from_metas(&program_id, &invalid_kind, &account_metas, &ix_data, &[]),
        Err(ActionHashError::InvalidOp)
    );

    let mut non_canonical = Ops::empty();
    non_canonical.ops[0] = StoredOp {
        kind: 0,
        arg0: 1,
        arg1: 0,
        arg2: 0,
    };
    non_canonical.ops_len = 1;
    assert_eq!(
        compute_action_hash_from_metas(
            &program_id,
            &non_canonical,
            &account_metas,
            &ix_data,
            &[]
        ),
        Err(ActionHashError::InvalidOp)
    );
}

#[test]
fn hash_reports_each_missing_input() {
    let program_id = key(9);
    let data = [1u8, 2, 3];
    let slice_past_end = Ops::new(&[Op::IngestInstruction { offset: 2, len: 2 }]).unwrap();
    assert_eq!(
        compute_action_hash_from_metas(&program_id, &slice_past_end, &[], &data, &[]),
        Err(ActionHashError::InstructionSliceOutOfBounds)
    );
    let missing_account = Ops::new(&[Op::IngestAccount { index: 0 }]).unwrap();
    assert_eq!(
        compute_action_hash_from_metas(&program_id, &missing_account, &[], &data, &[]),
        Err(ActionHashError::AccountIndexOutOfBounds)
    );
    let missing_sibling = Ops::new(&[Op::IngestSiblingAccount {
        relative_index: 1,
        index: 0,
    }])
    .unwrap();
    assert_eq!(
        compute_action_hash_from_metas(&program_id, &missing_sibling, &[], &data, &[]),
        Err(ActionHashError::MissingSibling)
    );
    // The first failing op decides the error; a corrupt op anywhere fails first.
    let mut mixed = Ops::new(&[
        Op::IngestAccount { index: 0 },
        Op::IngestInstruction { offset: 9, len: 1 },
    ])
    .unwrap();
    assert_eq!(
        compute_action_hash_from_metas(&program_id, &mixed, &[], &data, &[]),
        Err(ActionHashError::AccountIndexOutOfBounds)
    );
    mixed.ops[1].kind = 9;
    assert_eq!(
        compute_action_hash_from_metas(&program_id, &mixed, &[], &data, &[]),
        Err(ActionHashError::InvalidOp)
    );
}

#[test]
fn hash_of_empty_program_is_hash_of_program_id() {
    let program_id = key(11);
    let ops = Ops::empty();
    let digest = compute_action_hash_from_metas(&program_id, &ops, &[], &[], &[]).unwrap();
    assert_eq!(digest, solana_sha256_hasher::hash(&program_id).to_bytes());
    assert_ne!(digest, program_id);
}

#[test]
fn preimage_length_is_what_the_ops_commit_to() {
    let program_id = key(40);
    let ix_data = (0u8..40).collect::<Vec<_>>();
    let account = AccountMeta::new(key(41), false);
    let sibling_accounts = [key(42), key(43)];
    let sibling_data = (10u8..30).collect::<Vec<_>>();
    let siblings = [ResolvedSibling {
        relative_index: 2,
        program_id: key(44),
        data: &sibling_data,
        accounts: &sibling_accounts,
    }];
    let ops = Ops::new(&[
        Op::Noop,
        Op::IngestInstruction { offset: 5, len: 7 },
        Op::IngestAccount { index: 0 },
        Op::IngestInstructionDataSize,
        Op::IngestSiblingInstruction {
            relative_index: 2,
            offset: 2,
            len: 8,
        },
        Op::IngestSiblingAccount {
            relative_index: 2,
            index: 0,
        },
    ])
    .unwrap();
    let preimage =
        action_hash_preimage(&program_id, &ops, &[account], &ix_data, &siblings).unwrap();
    assert_eq!(preimage.len(), 32 + 1 + (4 + 7) + 36 + 5 + (36 + 8) + 35);
    assert_eq!(&preimage[..32], &program_id);
}
