//! Authorized actions: the compact op program stored on an Action account and
//! the hash that commits to what a relayed instruction looks like.

use vstd::prelude::*;

use crate::access::append_bytes;
use crate::bytes::{push_u16_le, push_u32_le, read_u16_le, u16_le, u32_le};
use crate::hashing::{hash, sha256};

verus! {

/// Maximum number of authorization predicates stored on one Action account.
///
/// Each stored op is four bytes, so 32 ops reserve 128 bytes inside the fixed
/// Action account layout.
pub const MAX_ACTION_OPS: usize = 32;

/// What an authorized action may be relayed as.
#[derive(Clone, Copy, Debug, PartialEq, Eq, Structural)]
pub enum ActionScope {
    Manager,
    Swap,
    AtomicRedeem,
    /// Strategist-relayed SPL `approve` granting a one-shot delegate on a
    /// sub-account custody account.
    FlashApprove,
}

/// One logical authorization predicate: which part of the relayed
/// instruction (or of a top-level sibling instruction) the hash commits to.
#[allow(inconsistent_fields)]
#[derive(Clone, Copy, Debug, PartialEq, Eq, Structural)]
pub enum Op {
    Noop,
    IngestInstruction { offset: u16, len: u8 },
    IngestAccount { index: u8 },
    IngestInstructionDataSize,
    /// Commit a sibling instruction's program id plus a leading data slice;
    /// `relative_index` locates the sibling relative to the executing
    /// instruction.
    IngestSiblingInstruction { relative_index: i8, offset: u8, len: u8 },
    /// Commit a sibling instruction's account pubkey at `index`.
    IngestSiblingAccount { relative_index: i8, index: u8 },
}

/// The four-byte stored form of an [`Op`].
#[derive(Clone, Copy, Debug, PartialEq, Eq, Structural)]
pub struct StoredOp {
    pub kind: u8,
    pub arg0: u8,
    pub arg1: u8,
    pub arg2: u8,
}

/// Why an action hash could not be computed.
#[derive(Clone, Copy, Debug, PartialEq, Eq, Structural)]
pub enum ActionHashError {
    InvalidOp,
    TooManyOps,
    InstructionSliceOutOfBounds,
    AccountIndexOutOfBounds,
    InvalidInstructionData,
    MissingSibling,
}

/// The stored op with every byte zero.
pub open spec fn noop_stored_op() -> StoredOp {
    StoredOp { kind: 0, arg0: 0, arg1: 0, arg2: 0 }
}

/// The stored form of `op`.
pub open spec fn encode_op(op: Op) -> StoredOp {
    match op {
        Op::Noop => noop_stored_op(),
        Op::IngestInstruction { offset, len } => StoredOp {
            kind: 1,
            arg0: len,
            arg1: u16_le(offset)[0],
            arg2: u16_le(offset)[1],
        },
        Op::IngestAccount { index } => StoredOp { kind: 2, arg0: index, arg1: 0, arg2: 0 },
        Op::IngestInstructionDataSize => StoredOp { kind: 3, arg0: 0, arg1: 0, arg2: 0 },
        Op::IngestSiblingInstruction { relative_index, offset, len } => StoredOp {
            kind: 4,
            arg0: relative_index as u8,
            arg1: offset,
            arg2: len,
        },
        Op::IngestSiblingAccount { relative_index, index } => StoredOp {
            kind: 5,
            arg0: relative_index as u8,
            arg1: index,
            arg2: 0,
        },
    }
}

/// The op a stored op stands for; a kind outside `0..=5`, or a nonzero byte
/// that the kind leaves unused, is an invalid op.
pub open spec fn decode_op(stored: StoredOp) -> Result<Op, ActionHashError> {
    let unused_zero = stored.arg1 == 0 && stored.arg2 == 0;
    if stored.kind == 0 && stored.arg0 == 0 && unused_zero {
        Ok(Op::Noop)
    } else if stored.kind == 1 {
        Ok(Op::IngestInstruction {
            offset: read_u16_le(seq![stored.arg1, stored.arg2], 0),
            len: stored.arg0,
        })
    } else if stored.kind == 2 && unused_zero {
        Ok(Op::IngestAccount { index: stored.arg0 })
    } else if stored.kind == 3 && stored.arg0 == 0 && unused_zero {
        Ok(Op::IngestInstructionDataSize)
    } else if stored.kind == 4 {
        Ok(Op::IngestSiblingInstruction {
            relative_index: stored.arg0 as i8,
            offset: stored.arg1,
            len: stored.arg2,
        })
    } else if stored.kind == 5 && stored.arg2 == 0 {
        Ok(Op::IngestSiblingAccount { relative_index: stored.arg0 as i8, index: stored.arg1 })
    } else {
        Err(ActionHashError::InvalidOp)
    }
}

fn i8_to_u8(x: i8) -> (r: u8)
    ensures
        r == x as u8,
{
    x as u8
}

fn u8_to_i8(x: u8) -> (r: i8)
    ensures
        r == x as i8,
{
    x as i8
}

impl StoredOp {
    /// The stored no-op (all bytes zero).
    pub fn noop() -> (r: Self)
        ensures
            r == noop_stored_op(),
    {
        StoredOp { kind: 0, arg0: 0, arg1: 0, arg2: 0 }
    }

    fn try_to_op(self) -> (r: Result<Op, ActionHashError>)
        ensures
            r == decode_op(self),
    {
        let unused_zero = self.arg1 == 0 && self.arg2 == 0;
        if self.kind == 0 && self.arg0 == 0 && unused_zero {
            Ok(Op::Noop)
        } else if self.kind == 1 {
            let offset: u16 = (self.arg1 as u16) | ((self.arg2 as u16) << 8u16);
            Ok(Op::IngestInstruction { offset, len: self.arg0 })
        } else if self.kind == 2 && unused_zero {
            Ok(Op::IngestAccount { index: self.arg0 })
        } else if self.kind == 3 && self.arg0 == 0 && unused_zero {
            Ok(Op::IngestInstructionDataSize)
        } else if self.kind == 4 {
            Ok(
                Op::IngestSiblingInstruction {
                    relative_index: u8_to_i8(self.arg0),
                    offset: self.arg1,
                    len: self.arg2,
                },
            )
        } else if self.kind == 5 && self.arg2 == 0 {
            Ok(Op::IngestSiblingAccount { relative_index: u8_to_i8(self.arg0), index: self.arg1 })
        } else {
            Err(ActionHashError::InvalidOp)
        }
    }
}

impl Default for StoredOp {
    fn default() -> (r: Self)
        ensures
            r == noop_stored_op(),
    {
        Self::noop()
    }
}

impl From<Op> for StoredOp {
    fn from(op: Op) -> (r: StoredOp) {
        match op {
            Op::Noop => StoredOp::noop(),
            Op::IngestInstruction { offset, len } => StoredOp {
                kind: 1,
                arg0: len,
                arg1: offset as u8,
                arg2: (offset >> 8u16) as u8,
            },
            Op::IngestAccount { index } => StoredOp { kind: 2, arg0: index, arg1: 0, arg2: 0 },
            Op::IngestInstructionDataSize => StoredOp { kind: 3, arg0: 0, arg1: 0, arg2: 0 },
            Op::IngestSiblingInstruction { relative_index, offset, len } => StoredOp {
                kind: 4,
                arg0: i8_to_u8(relative_index),
                arg1: offset,
                arg2: len,
            },
            Op::IngestSiblingAccount { relative_index, index } => StoredOp {
                kind: 5,
                arg0: i8_to_u8(relative_index),
                arg1: index,
                arg2: 0,
            },
        }
    }
}

impl vstd::std_specs::convert::FromSpecImpl<Op> for StoredOp {
    open spec fn obeys_from_spec() -> bool {
        true
    }

    open spec fn from_spec(op: Op) -> StoredOp {
        encode_op(op)
    }
}

/// Decoding the stored form of an op gives the op back.
pub proof fn law_stored_op_round_trips(op: Op)
    ensures
        decode_op(encode_op(op)) == Ok::<Op, ActionHashError>(op),
{
    match op {
        Op::IngestInstruction { offset, len } => {
            crate::bytes::lemma_u16_le_round_trip(offset);
            assert(seq![u16_le(offset)[0], u16_le(offset)[1]] =~= u16_le(offset));
        },
        Op::IngestSiblingInstruction { relative_index, offset, len } => {
            assert(((relative_index as u8) as i8) == relative_index) by (bit_vector);
        },
        Op::IngestSiblingAccount { relative_index, index } => {
            assert(((relative_index as u8) as i8) == relative_index) by (bit_vector);
        },
        _ => {},
    }
}

/// Each op has exactly one accepted stored form: a stored op that decodes to
/// `op` is the stored form of `op`.
pub proof fn law_stored_op_encoding_is_unique(stored: StoredOp, op: Op)
    requires
        decode_op(stored) == Ok::<Op, ActionHashError>(op),
    ensures
        encode_op(op) == stored,
{
    let a0 = stored.arg0;
    let a1 = stored.arg1;
    let a2 = stored.arg2;
    if stored.kind == 1 {
        let offset = read_u16_le(seq![a1, a2], 0);
        assert(offset == ((a1 as u16) | ((a2 as u16) << 8u16)));
        assert(offset as u8 == a1 && (offset >> 8u16) as u8 == a2) by (bit_vector)
            requires
                offset == ((a1 as u16) | ((a2 as u16) << 8u16)),
        ;
    } else if stored.kind == 4 || stored.kind == 5 {
        assert(((a0 as i8) as u8) == a0) by (bit_vector);
    }
}

/// The stored op program of an Action account: the first `ops_len` entries
/// of `ops` are live, the rest are padding.
#[derive(Clone, Copy, Debug, PartialEq, Eq)]
pub struct Ops {
    pub ops: [StoredOp; 32],
    pub ops_len: u8,
}

/// The logical ops that `ops` stores: too many when the live count exceeds
/// [`MAX_ACTION_OPS`], invalid when any live entry does not decode.
pub open spec fn decoded_ops(ops: Ops) -> Result<Seq<Op>, ActionHashError> {
    if ops.ops_len > MAX_ACTION_OPS {
        Err(ActionHashError::TooManyOps)
    } else if exists|i: int| 0 <= i < ops.ops_len && (#[trigger] decode_op(ops.ops@[i])) is Err {
        Err(ActionHashError::InvalidOp)
    } else {
        Ok(
            Seq::new(
                ops.ops_len as nat,
                |i: int|
                    match decode_op(ops.ops@[i]) {
                        Ok(op) => op,
                        Err(_) => Op::Noop,
                    },
            ),
        )
    }
}

impl Ops {
    /// No live ops; every entry is the stored no-op.
    pub fn empty() -> (r: Self)
        ensures
            r.ops_len == 0,
            forall|i: int| 0 <= i < MAX_ACTION_OPS ==> r.ops@[i] == noop_stored_op(),
    {
        let noop = StoredOp::noop();
        Ops { ops: [noop; 32], ops_len: 0 }
    }

    /// Store `ops` in order; more than [`MAX_ACTION_OPS`] is refused.
    pub fn new(ops: &[Op]) -> (r: Result<Self, ActionHashError>)
        ensures
            r is Err <==> ops@.len() > MAX_ACTION_OPS,
            r is Err ==> r == Err::<Ops, ActionHashError>(ActionHashError::TooManyOps),
            r matches Ok(stored) ==> {
                &&& stored.ops_len == ops@.len()
                &&& forall|i: int| 0 <= i < ops@.len() ==> stored.ops@[i] == encode_op(#[trigger] ops@[i])
                &&& forall|i: int| ops@.len() <= i < MAX_ACTION_OPS ==> stored.ops@[i] == noop_stored_op()
            },
    {
        if ops.len() > MAX_ACTION_OPS {
            return Err(ActionHashError::TooManyOps);
        }
        let mut stored = Ops::empty();
        let mut index: usize = 0;
        while index < ops.len()
            invariant
                ops@.len() <= MAX_ACTION_OPS,
                index <= ops@.len(),
                stored.ops_len == index,
                forall|i: int| 0 <= i < index ==> stored.ops@[i] == encode_op(#[trigger] ops@[i]),
                forall|i: int| index <= i < MAX_ACTION_OPS ==> stored.ops@[i] == noop_stored_op(),
            decreases ops@.len() - index,
        {
            stored.ops[index] = StoredOp::from(ops[index]);
            stored.ops_len = (index + 1) as u8;
            index = index + 1;
        }
        Ok(stored)
    }

    /// The live count; more than [`MAX_ACTION_OPS`] is corrupt.
    pub fn len(&self) -> (r: Result<usize, ActionHashError>)
        ensures
            r == (if self.ops_len > MAX_ACTION_OPS {
                Err::<usize, ActionHashError>(ActionHashError::TooManyOps)
            } else {
                Ok::<usize, ActionHashError>(self.ops_len as usize)
            }),
    {
        let len = self.ops_len as usize;
        if len > MAX_ACTION_OPS {
            return Err(ActionHashError::TooManyOps);
        }
        Ok(len)
    }

    /// Whether no op is live; a corrupt count is an error.
    pub fn is_empty(&self) -> (r: Result<bool, ActionHashError>)
        ensures
            r == (if self.ops_len > MAX_ACTION_OPS {
                Err::<bool, ActionHashError>(ActionHashError::TooManyOps)
            } else {
                Ok::<bool, ActionHashError>(self.ops_len == 0)
            }),
    {
        match self.len() {
            Ok(len) => Ok(len == 0),
            Err(e) => Err(e),
        }
    }

    /// The live entries, each decoded on its own; a corrupt count is an error.
    pub fn iter(&self) -> (r: Result<Vec<Result<Op, ActionHashError>>, ActionHashError>)
        ensures
            match r {
                Err(e) => self.ops_len > MAX_ACTION_OPS && e == ActionHashError::TooManyOps,
                Ok(items) => {
                    &&& self.ops_len <= MAX_ACTION_OPS
                    &&& items@.len() == self.ops_len
                    &&& forall|i: int| 0 <= i < items@.len() ==> #[trigger] items@[i] == decode_op(self.ops@[i])
                },
            },
    {
        let len = match self.len() {
            Ok(len) => len,
            Err(e) => return Err(e),
        };
        let mut items: Vec<Result<Op, ActionHashError>> = Vec::new();
        let mut index: usize = 0;
        while index < len
            invariant
                len == self.ops_len,
                len <= MAX_ACTION_OPS,
                index <= len,
                items@.len() == index,
                forall|i: int| 0 <= i < index ==> #[trigger] items@[i] == decode_op(self.ops@[i]),
            decreases len - index,
        {
            items.push(self.ops[index].try_to_op());
            index = index + 1;
        }
        Ok(items)
    }
}

impl Default for Ops {
    fn default() -> (r: Self)
        ensures
            r.ops_len == 0,
            forall|i: int| 0 <= i < MAX_ACTION_OPS ==> r.ops@[i] == noop_stored_op(),
    {
        Self::empty()
    }
}

/// Storing a list of ops and decoding the result gives the list back.
pub proof fn law_ops_round_trip(ops: Seq<Op>, stored: Ops)
    requires
        stored.ops_len == ops.len(),
        ops.len() <= MAX_ACTION_OPS,
        forall|i: int| 0 <= i < ops.len() ==> stored.ops@[i] == encode_op(#[trigger] ops[i]),
    ensures
        decoded_ops(stored) == Ok::<Seq<Op>, ActionHashError>(ops),
{
    assert forall|i: int| 0 <= i < stored.ops_len implies #[trigger] decode_op(stored.ops@[i]) == Ok::<Op, ActionHashError>(ops[i]) by {
        assert(stored.ops@[i] == encode_op(ops[i]));
        law_stored_op_round_trips(ops[i]);
    }
    assert(!exists|i: int| 0 <= i < stored.ops_len && (#[trigger] decode_op(stored.ops@[i])) is Err);
    match decoded_ops(stored) {
        Ok(list) => {
            assert(list =~= ops);
        },
        Err(_) => {},
    }
}

/// An account of the relayed instruction, as the action hash reads it.
#[derive(Clone, Copy, Debug, PartialEq, Eq)]
pub struct AccountMeta {
    pub pubkey: [u8; 32],
    pub is_signer: bool,
    pub is_writable: bool,
}

impl AccountMeta {
    /// A writable account.
    pub fn new(pubkey: [u8; 32], is_signer: bool) -> (r: Self)
        ensures
            r == (AccountMeta { pubkey, is_signer, is_writable: true }),
    {
        AccountMeta { pubkey, is_signer, is_writable: true }
    }

    /// A read-only account.
    pub fn new_readonly(pubkey: [u8; 32], is_signer: bool) -> (r: Self)
        ensures
            r == (AccountMeta { pubkey, is_signer, is_writable: false }),
    {
        AccountMeta { pubkey, is_signer, is_writable: false }
    }
}

/// A top-level sibling instruction already read from the transaction, so
/// that the sibling ops can fold its observed fields. Hashing stays a pure
/// function of its inputs.
pub struct ResolvedSibling<'a> {
    pub relative_index: i8,
    pub program_id: [u8; 32],
    pub data: &'a [u8],
    pub accounts: &'a [[u8; 32]],
}

/// Whether `i` is the first sibling carrying `relative_index`.
pub open spec fn is_first_sibling(siblings: Seq<ResolvedSibling>, relative_index: i8, i: int) -> bool {
    &&& 0 <= i < siblings.len()
    &&& siblings[i].relative_index == relative_index
    &&& forall|j: int| 0 <= j < i ==> (#[trigger] siblings[j]).relative_index != relative_index
}

/// The first sibling carrying `relative_index`, if any.
pub open spec fn find_sibling(siblings: Seq<ResolvedSibling>, relative_index: i8) -> Option<ResolvedSibling> {
    if exists|i: int| is_first_sibling(siblings, relative_index, i) {
        Some(siblings[choose|i: int| is_first_sibling(siblings, relative_index, i)])
    } else {
        None
    }
}

/// The `len` bytes of `data` from `offset`, or out of bounds.
pub open spec fn data_slice(data: Seq<u8>, offset: int, len: int) -> Result<Seq<u8>, ActionHashError> {
    if offset + len <= data.len() {
        Ok(data.subrange(offset, offset + len))
    } else {
        Err(ActionHashError::InstructionSliceOutOfBounds)
    }
}

/// The byte a flag is committed as.
pub open spec fn bool_byte(value: bool) -> u8 {
    if value { 1 } else { 0 }
}

/// The bytes one op contributes to the hash preimage.
pub open spec fn op_chunk(
    op: Op,
    accounts: Seq<AccountMeta>,
    ix_data: Seq<u8>,
    siblings: Seq<ResolvedSibling>,
) -> Result<Seq<u8>, ActionHashError> {
    match op {
        Op::Noop => Ok(seq![0u8]),
        Op::IngestInstruction { offset, len } => match data_slice(ix_data, offset as int, len as int) {
            Ok(slice) => Ok(seq![1u8] + u16_le(offset) + seq![len] + slice),
            Err(e) => Err(e),
        },
        Op::IngestAccount { index } => if index < accounts.len() {
            let account = accounts[index as int];
            Ok(
                seq![2u8, index] + account.pubkey@ + seq![
                    bool_byte(account.is_signer),
                    bool_byte(account.is_writable),
                ],
            )
        } else {
            Err(ActionHashError::AccountIndexOutOfBounds)
        },
        Op::IngestInstructionDataSize => if ix_data.len() <= u32::MAX {
            Ok(seq![3u8] + u32_le(ix_data.len() as u32))
        } else {
            Err(ActionHashError::InvalidInstructionData)
        },
        Op::IngestSiblingInstruction { relative_index, offset, len } => match find_sibling(
            siblings,
            relative_index,
        ) {
            None => Err(ActionHashError::MissingSibling),
            Some(sibling) => match data_slice(sibling.data@, offset as int, len as int) {
                Ok(slice) => Ok(
                    seq![4u8, relative_index as u8] + sibling.program_id@ + seq![offset, len] + slice,
                ),
                Err(e) => Err(e),
            },
        },
        Op::IngestSiblingAccount { relative_index, index } => match find_sibling(
            siblings,
            relative_index,
        ) {
            None => Err(ActionHashError::MissingSibling),
            Some(sibling) => if index < sibling.accounts@.len() {
                Ok(seq![5u8, relative_index as u8, index] + sibling.accounts@[index as int]@)
            } else {
                Err(ActionHashError::AccountIndexOutOfBounds)
            },
        },
    }
}

/// The chunks of the first `n` ops, concatenated; the first failing op
/// decides the error.
pub open spec fn ops_chunks(
    ops: Seq<Op>,
    n: nat,
    accounts: Seq<AccountMeta>,
    ix_data: Seq<u8>,
    siblings: Seq<ResolvedSibling>,
) -> Result<Seq<u8>, ActionHashError>
    decreases n,
{
    if n == 0 {
        Ok(Seq::empty())
    } else {
        match ops_chunks(ops, (n - 1) as nat, accounts, ix_data, siblings) {
            Err(e) => Err(e),
            Ok(prefix) => match op_chunk(ops[n - 1], accounts, ix_data, siblings) {
                Err(e) => Err(e),
                Ok(chunk) => Ok(prefix + chunk),
            },
        }
    }
}

/// The action hash preimage: the program id, then each op's chunk in order.
/// A corrupt op program fails before any op is read.
pub open spec fn action_preimage(
    program_id: Seq<u8>,
    ops: Ops,
    accounts: Seq<AccountMeta>,
    ix_data: Seq<u8>,
    siblings: Seq<ResolvedSibling>,
) -> Result<Seq<u8>, ActionHashError> {
    match decoded_ops(ops) {
        Err(e) => Err(e),
        Ok(list) => match ops_chunks(list, list.len(), accounts, ix_data, siblings) {
            Err(e) => Err(e),
            Ok(chunks) => Ok(program_id + chunks),
        },
    }
}

/// The number of bytes one op contributes, as committed by its own fields.
pub open spec fn op_chunk_len(op: Op) -> nat {
    match op {
        Op::Noop => 1,
        Op::IngestInstruction { len, .. } => 4 + len as nat,
        Op::IngestAccount { .. } => 36,
        Op::IngestInstructionDataSize => 5,
        Op::IngestSiblingInstruction { len, .. } => 36 + len as nat,
        Op::IngestSiblingAccount { .. } => 35,
    }
}

/// The summed chunk lengths of the first `n` ops.
pub open spec fn ops_chunks_len(ops: Seq<Op>, n: nat) -> nat
    decreases n,
{
    if n == 0 {
        0
    } else {
        ops_chunks_len(ops, (n - 1) as nat) + op_chunk_len(ops[n - 1])
    }
}

/// The preimage length an op program commits to.
pub open spec fn preimage_length(ops: Ops) -> Result<nat, ActionHashError> {
    match decoded_ops(ops) {
        Err(e) => Err(e),
        Ok(list) => Ok(32 + ops_chunks_len(list, list.len())),
    }
}

proof fn lemma_chunks_len_bounded(ops: Seq<Op>, n: nat)
    requires
        n <= ops.len(),
    ensures
        ops_chunks_len(ops, n) <= 291 * n,
    decreases n,
{
    if n > 0 {
        lemma_chunks_len_bounded(ops, (n - 1) as nat);
    }
}

proof fn lemma_chunks_error_persists(
    ops: Seq<Op>,
    k: nat,
    n: nat,
    accounts: Seq<AccountMeta>,
    ix_data: Seq<u8>,
    siblings: Seq<ResolvedSibling>,
)
    requires
        k <= n,
        ops_chunks(ops, k, accounts, ix_data, siblings) is Err,
    ensures
        ops_chunks(ops, n, accounts, ix_data, siblings) == ops_chunks(ops, k, accounts, ix_data, siblings),
    decreases n - k,
{
    if k < n {
        lemma_chunks_error_persists(ops, k, (n - 1) as nat, accounts, ix_data, siblings);
    }
}

fn decode_all(ops: &Ops) -> (r: Result<Vec<Op>, ActionHashError>)
    ensures
        match r {
            Ok(list) => decoded_ops(*ops) == Ok::<Seq<Op>, ActionHashError>(list@),
            Err(e) => decoded_ops(*ops) == Err::<Seq<Op>, ActionHashError>(e),
        },
{
    let items = match ops.iter() {
        Ok(items) => items,
        Err(e) => return Err(e),
    };
    let mut list: Vec<Op> = Vec::new();
    let mut index: usize = 0;
    while index < items.len()
        invariant
            items@.len() == ops.ops_len,
            ops.ops_len <= MAX_ACTION_OPS,
            forall|i: int| 0 <= i < items@.len() ==> #[trigger] items@[i] == decode_op(ops.ops@[i]),
            index <= items@.len(),
            list@.len() == index,
            forall|i: int| 0 <= i < index ==> decode_op(ops.ops@[i]) == Ok::<Op, ActionHashError>(#[trigger] list@[i]),
        decreases items@.len() - index,
    {
        match items[index] {
            Ok(op) => list.push(op),
            Err(e) => {
                assert(decode_op(ops.ops@[index as int]) is Err);
                return Err(e);
            },
        }
        index = index + 1;
    }
    proof {
        assert forall|i: int| 0 <= i < ops.ops_len implies !(#[trigger] decode_op(ops.ops@[i]) is Err) by {
            assert(decode_op(ops.ops@[i]) == Ok::<Op, ActionHashError>(list@[i]));
        }
        match decoded_ops(*ops) {
            Ok(decoded) => assert(decoded =~= list@),
            Err(_) => {},
        }
    }
    Ok(list)
}

/// Exact byte length of the hash preimage for `ops`, so the buffer is
/// allocated once; slice bounds are checked when the preimage is built.
fn preimage_len(ops: &Ops) -> (r: Result<usize, ActionHashError>)
    ensures
        match r {
            Ok(len) => preimage_length(*ops) == Ok::<nat, ActionHashError>(len as nat),
            Err(e) => preimage_length(*ops) == Err::<nat, ActionHashError>(e),
        },
{
    let list = match decode_all(ops) {
        Ok(list) => list,
        Err(e) => return Err(e),
    };
    let mut len: usize = 32;
    let mut index: usize = 0;
    while index < list.len()
        invariant
            list@.len() <= MAX_ACTION_OPS,
            index <= list@.len(),
            len == 32 + ops_chunks_len(list@, index as nat),
        decreases list@.len() - index,
    {
        proof {
            lemma_chunks_len_bounded(list@, (index + 1) as nat);
        }
        len = len + match list[index] {
            Op::Noop => 1,
            Op::IngestInstruction { len, .. } => 4 + len as usize,
            Op::IngestAccount { .. } => 36,
            Op::IngestInstructionDataSize => 5,
            Op::IngestSiblingInstruction { len, .. } => 36 + len as usize,
            Op::IngestSiblingAccount { .. } => 35,
        };
        index = index + 1;
    }
    Ok(len)
}

fn instruction_slice<'a>(data: &'a [u8], offset: usize, len: u8) -> (r: Result<&'a [u8], ActionHashError>)
    ensures
        match r {
            Ok(slice) => data_slice(data@, offset as int, len as int) == Ok::<Seq<u8>, ActionHashError>(slice@),
            Err(e) => data_slice(data@, offset as int, len as int) == Err::<Seq<u8>, ActionHashError>(e),
        },
{
    if offset > data.len() || data.len() - offset < len as usize {
        return Err(ActionHashError::InstructionSliceOutOfBounds);
    }
    Ok(vstd::slice::slice_subrange(data, offset, offset + len as usize))
}

fn resolve_sibling<'a, 'b>(siblings: &'a [ResolvedSibling<'b>], relative_index: i8) -> (r: Result<&'a ResolvedSibling<'b>, ActionHashError>)
    ensures
        match r {
            Ok(sibling) => find_sibling(siblings@, relative_index) == Some(*sibling),
            Err(e) => find_sibling(siblings@, relative_index) is None && e == ActionHashError::MissingSibling,
        },
{
    let mut index: usize = 0;
    while index < siblings.len()
        invariant
            index <= siblings@.len(),
            forall|j: int| 0 <= j < index ==> (#[trigger] siblings@[j]).relative_index != relative_index,
        decreases siblings@.len() - index,
    {
        if siblings[index].relative_index == relative_index {
            proof {
                let i = index as int;
                assert(is_first_sibling(siblings@, relative_index, i));
                let k = choose|k: int| is_first_sibling(siblings@, relative_index, k);
                if k < i {
                    assert(siblings@[k].relative_index != relative_index);
                } else if k > i {
                    assert(siblings@[i].relative_index != relative_index);
                }
            }
            return Ok(&siblings[index]);
        }
        index = index + 1;
    }
    Err(ActionHashError::MissingSibling)
}

fn push_bool(buffer: &mut Vec<u8>, value: bool)
    ensures
        final(buffer)@ == old(buffer)@.push(bool_byte(value)),
{
    if value {
        buffer.push(1);
    } else {
        buffer.push(0);
    }
}

/// Append the chunk of `op` to `preimage`, or report why it has none.
fn push_op_chunk(
    preimage: &mut Vec<u8>,
    op: Op,
    accounts: &[AccountMeta],
    ix_data: &[u8],
    siblings: &[ResolvedSibling],
) -> (r: Result<(), ActionHashError>)
    ensures
        match op_chunk(op, accounts@, ix_data@, siblings@) {
            Ok(chunk) => r is Ok && final(preimage)@ == old(preimage)@ + chunk,
            Err(e) => r == Err::<(), ActionHashError>(e),
        },
{
    match op {
        Op::Noop => {
            preimage.push(0);
        },
        Op::IngestInstruction { offset, len } => {
            let slice = match instruction_slice(ix_data, offset as usize, len) {
                Ok(slice) => slice,
                Err(e) => return Err(e),
            };
            preimage.push(1);
            push_u16_le(preimage, offset);
            preimage.push(len);
            append_bytes(preimage, slice);
        },
        Op::IngestAccount { index } => {
            if index as usize >= accounts.len() {
                return Err(ActionHashError::AccountIndexOutOfBounds);
            }
            let account = &accounts[index as usize];
            preimage.push(2);
            preimage.push(index);
            append_bytes(preimage, &account.pubkey);
            push_bool(preimage, account.is_signer);
            push_bool(preimage, account.is_writable);
        },
        Op::IngestInstructionDataSize => {
            if ix_data.len() > u32::MAX as usize {
                return Err(ActionHashError::InvalidInstructionData);
            }
            preimage.push(3);
            push_u32_le(preimage, ix_data.len() as u32);
        },
        Op::IngestSiblingInstruction { relative_index, offset, len } => {
            let sibling = match resolve_sibling(siblings, relative_index) {
                Ok(sibling) => sibling,
                Err(e) => return Err(e),
            };
            let slice = match instruction_slice(sibling.data, offset as usize, len) {
                Ok(slice) => slice,
                Err(e) => return Err(e),
            };
            preimage.push(4);
            preimage.push(i8_to_u8(relative_index));
            append_bytes(preimage, &sibling.program_id);
            preimage.push(offset);
            preimage.push(len);
            append_bytes(preimage, slice);
        },
        Op::IngestSiblingAccount { relative_index, index } => {
            let sibling = match resolve_sibling(siblings, relative_index) {
                Ok(sibling) => sibling,
                Err(e) => return Err(e),
            };
            if index as usize >= sibling.accounts.len() {
                return Err(ActionHashError::AccountIndexOutOfBounds);
            }
            preimage.push(5);
            preimage.push(i8_to_u8(relative_index));
            preimage.push(index);
            append_bytes(preimage, &sibling.accounts[index as usize]);
        },
    }
    proof {
        match op_chunk(op, accounts@, ix_data@, siblings@) {
            Ok(chunk) => assert(preimage@ =~= old(preimage)@ + chunk),
            Err(_) => {},
        }
    }
    Ok(())
}

/// The bytes the action hash is taken over: the program id, then each op's
/// chunk in order.
pub fn action_hash_preimage(
    program_id: &[u8; 32],
    ops: &Ops,
    accounts: &[AccountMeta],
    ix_data: &[u8],
    siblings: &[ResolvedSibling],
) -> (r: Result<Vec<u8>, ActionHashError>)
    ensures
        match r {
            Ok(preimage) => action_preimage(program_id@, *ops, accounts@, ix_data@, siblings@)
                == Ok::<Seq<u8>, ActionHashError>(preimage@),
            Err(e) => action_preimage(program_id@, *ops, accounts@, ix_data@, siblings@)
                == Err::<Seq<u8>, ActionHashError>(e),
        },
{
    let capacity = match preimage_len(ops) {
        Ok(capacity) => capacity,
        Err(e) => return Err(e),
    };
    let list = match decode_all(ops) {
        Ok(list) => list,
        Err(e) => return Err(e),
    };
    let mut preimage: Vec<u8> = Vec::with_capacity(capacity);
    append_bytes(&mut preimage, program_id);
    let mut index: usize = 0;
    while index < list.len()
        invariant
            decoded_ops(*ops) == Ok::<Seq<Op>, ActionHashError>(list@),
            index <= list@.len(),
            ops_chunks(list@, index as nat, accounts@, ix_data@, siblings@) matches Ok(prefix)
                && preimage@ == program_id@ + prefix,
        decreases list@.len() - index,
    {
        let ghost before = preimage@;
        match push_op_chunk(&mut preimage, list[index], accounts, ix_data, siblings) {
            Ok(()) => {
                proof {
                    let prefix = ops_chunks(list@, index as nat, accounts@, ix_data@, siblings@)->Ok_0;
                    let chunk = op_chunk(list@[index as int], accounts@, ix_data@, siblings@)->Ok_0;
                    assert(program_id@ + prefix + chunk =~= program_id@ + (prefix + chunk));
                }
            },
            Err(e) => {
                proof {
                    lemma_chunks_error_persists(
                        list@,
                        (index + 1) as nat,
                        list@.len(),
                        accounts@,
                        ix_data@,
                        siblings@,
                    );
                }
                return Err(e);
            },
        }
        index = index + 1;
    }
    Ok(preimage)
}

/// The action hash: SHA-256 of [`action_hash_preimage`].
pub fn compute_action_hash_from_metas(
    program_id: &[u8; 32],
    ops: &Ops,
    accounts: &[AccountMeta],
    ix_data: &[u8],
    siblings: &[ResolvedSibling],
) -> (r: Result<[u8; 32], ActionHashError>)
    ensures
        match action_preimage(program_id@, *ops, accounts@, ix_data@, siblings@) {
            Ok(preimage) => r matches Ok(digest) && digest@ == sha256(preimage),
            Err(e) => r == Err::<[u8; 32], ActionHashError>(e),
        },
{
    match action_hash_preimage(program_id, ops, accounts, ix_data, siblings) {
        Ok(preimage) => Ok(hash(preimage.as_slice())),
        Err(e) => Err(e),
    }
}

/// Whether the fields `op` reads are there: its instruction-data slice and
/// account index in bounds, the instruction data's length a `u32`, and for
/// a sibling op a sibling with its relative index whose slice or account
/// index is in bounds.
pub open spec fn op_in_bounds(op: Op, accounts: Seq<AccountMeta>, ix_data: Seq<u8>, siblings: Seq<ResolvedSibling>) -> bool {
    match op {
        Op::Noop => true,
        Op::IngestInstruction { offset, len } => offset + len <= ix_data.len(),
        Op::IngestAccount { index } => index < accounts.len(),
        Op::IngestInstructionDataSize => ix_data.len() <= u32::MAX,
        Op::IngestSiblingInstruction { relative_index, offset, len } => find_sibling(siblings, relative_index) matches Some(
            sibling,
        ) && offset + len <= sibling.data@.len(),
        Op::IngestSiblingAccount { relative_index, index } => find_sibling(siblings, relative_index) matches Some(
            sibling,
        ) && index < sibling.accounts@.len(),
    }
}

/// Whether a stored op decodes and the fields its op reads are there.
pub open spec fn stored_op_in_bounds(
    stored: StoredOp,
    accounts: Seq<AccountMeta>,
    ix_data: Seq<u8>,
    siblings: Seq<ResolvedSibling>,
) -> bool {
    match decode_op(stored) {
        Ok(op) => op_in_bounds(op, accounts, ix_data, siblings),
        Err(_) => false,
    }
}

/// The chunks of a run of ops can be built exactly when each op's can.
proof fn lemma_ops_chunks_ok(ops: Seq<Op>, n: nat, accounts: Seq<AccountMeta>, ix_data: Seq<u8>, siblings: Seq<ResolvedSibling>)
    requires
        n <= ops.len(),
    ensures
        ops_chunks(ops, n, accounts, ix_data, siblings) is Ok <==> forall|i: int| 0 <= i < n ==> (#[trigger] op_chunk(
            ops[i],
            accounts,
            ix_data,
            siblings,
        )) is Ok,
    decreases n,
{
    if n > 0 {
        lemma_ops_chunks_ok(ops, (n - 1) as nat, accounts, ix_data, siblings);
    }
}

/// An action hash can be computed exactly when the op program holds at most
/// [`MAX_ACTION_OPS`] live ops, each live op decodes, and every field each
/// op reads is there.
pub proof fn law_action_hash_succeeds_exactly_in_bounds(
    program_id: Seq<u8>,
    ops: Ops,
    accounts: Seq<AccountMeta>,
    ix_data: Seq<u8>,
    siblings: Seq<ResolvedSibling>,
)
    ensures
        action_preimage(program_id, ops, accounts, ix_data, siblings) is Ok <==> {
            &&& ops.ops_len <= MAX_ACTION_OPS
            &&& forall|i: int| 0 <= i < ops.ops_len ==> #[trigger] stored_op_in_bounds(ops.ops@[i], accounts, ix_data, siblings)
        },
{
    if ops.ops_len <= MAX_ACTION_OPS && !exists|i: int| 0 <= i < ops.ops_len && (#[trigger] decode_op(ops.ops@[i])) is Err {
        let list = decoded_ops(ops)->Ok_0;
        lemma_ops_chunks_ok(list, list.len(), accounts, ix_data, siblings);
        assert forall|i: int| 0 <= i < ops.ops_len implies (op_chunk(list[i], accounts, ix_data, siblings) is Ok
            <==> #[trigger] stored_op_in_bounds(ops.ops@[i], accounts, ix_data, siblings)) by {
            assert(decode_op(ops.ops@[i]) is Ok);
        }
        if action_preimage(program_id, ops, accounts, ix_data, siblings) is Ok {
            assert forall|i: int| 0 <= i < ops.ops_len implies #[trigger] stored_op_in_bounds(
                ops.ops@[i],
                accounts,
                ix_data,
                siblings,
            ) by {
                assert(op_chunk(list[i], accounts, ix_data, siblings) is Ok);
            }
        } else {
            let k = choose|k: int| 0 <= k < list.len() && !(#[trigger] op_chunk(list[k], accounts, ix_data, siblings) is Ok);
            assert(!stored_op_in_bounds(ops.ops@[k], accounts, ix_data, siblings));
        }
    } else if ops.ops_len <= MAX_ACTION_OPS {
        let k = choose|k: int| 0 <= k < ops.ops_len && (#[trigger] decode_op(ops.ops@[k])) is Err;
        assert(!stored_op_in_bounds(ops.ops@[k], accounts, ix_data, siblings));
    }
}

/// The chunk an account op contributes: the op's tag `2` and the account
/// index, the indexed account's key, then its signer flag and its writable
/// flag as bytes `0` or `1`.
pub proof fn law_account_chunk_commits_key_and_flags(index: u8, accounts: Seq<AccountMeta>, ix_data: Seq<u8>, siblings: Seq<ResolvedSibling>)
    requires
        index < accounts.len(),
    ensures
        op_chunk(Op::IngestAccount { index }, accounts, ix_data, siblings) == Ok::<Seq<u8>, ActionHashError>(
            seq![2u8, index] + accounts[index as int].pubkey@ + seq![
                if accounts[index as int].is_signer { 1u8 } else { 0u8 },
                if accounts[index as int].is_writable { 1u8 } else { 0u8 },
            ],
        ),
{
}

/// The chunk an instruction-data op contributes: tag `1`, the offset as two
/// little-endian bytes, the length, then that slice of the relayed
/// instruction's data; a slice past the data's end is out of bounds. The
/// data-size op contributes tag `3` and the data length as four
/// little-endian bytes.
pub proof fn law_data_chunks_commit_the_slice(offset: u16, len: u8, accounts: Seq<AccountMeta>, ix_data: Seq<u8>, siblings: Seq<ResolvedSibling>)
    ensures
        offset + len <= ix_data.len() ==> op_chunk(Op::IngestInstruction { offset, len }, accounts, ix_data, siblings)
            == Ok::<Seq<u8>, ActionHashError>(
            seq![1u8, (offset % 256) as u8, (offset / 256) as u8, len] + ix_data.subrange(offset as int, offset + len),
        ),
        offset + len > ix_data.len() ==> op_chunk(Op::IngestInstruction { offset, len }, accounts, ix_data, siblings)
            == Err::<Seq<u8>, ActionHashError>(ActionHashError::InstructionSliceOutOfBounds),
        ix_data.len() <= u32::MAX ==> op_chunk(Op::IngestInstructionDataSize, accounts, ix_data, siblings)
            == Ok::<Seq<u8>, ActionHashError>(
            seq![
                3u8,
                (ix_data.len() % 256) as u8,
                (ix_data.len() / 256 % 256) as u8,
                (ix_data.len() / 65536 % 256) as u8,
                (ix_data.len() / 16777216) as u8,
            ],
        ),
{
    let o = offset;
    assert(o as u8 == (o % 256) as u8 && (o >> 8u16) as u8 == (o / 256) as u8) by (bit_vector);
    assert(seq![1u8] + u16_le(offset) + seq![len] =~= seq![1u8, (offset % 256) as u8, (offset / 256) as u8, len]);
    if ix_data.len() <= u32::MAX {
        let n = ix_data.len() as u32;
        assert(n as u8 == (n % 256) as u8 && (n >> 8u32) as u8 == (n / 256 % 256) as u8 && (n >> 16u32) as u8 == (n
            / 65536 % 256) as u8 && (n >> 24u32) as u8 == (n / 16777216) as u8) by (bit_vector);
        assert(seq![3u8] + u32_le(n) =~= seq![
            3u8,
            (ix_data.len() % 256) as u8,
            (ix_data.len() / 256 % 256) as u8,
            (ix_data.len() / 65536 % 256) as u8,
            (ix_data.len() / 16777216) as u8,
        ]);
    }
}

/// `accounts` with the writability of the account at `index` flipped.
pub open spec fn flip_writable(accounts: Seq<AccountMeta>, index: int) -> Seq<AccountMeta> {
    accounts.update(index, AccountMeta { is_writable: !accounts[index].is_writable, ..accounts[index] })
}

/// Whether `op` ingests the account at `index`.
pub open spec fn ingests_account(op: Op, index: int) -> bool {
    op matches Op::IngestAccount { index: k } && k as int == index
}

/// Flipping one account's writability changes the chunks of a run of ops
/// exactly when one of them ingests that account, and never their length
/// or whether they can be built.
proof fn lemma_chunks_see_writability(
    ops: Seq<Op>,
    n: nat,
    accounts: Seq<AccountMeta>,
    ix_data: Seq<u8>,
    siblings: Seq<ResolvedSibling>,
    index: int,
)
    requires
        n <= ops.len(),
        0 <= index < accounts.len(),
        ops_chunks(ops, n, accounts, ix_data, siblings) is Ok,
    ensures
        ops_chunks(ops, n, flip_writable(accounts, index), ix_data, siblings) is Ok,
        ops_chunks(ops, n, accounts, ix_data, siblings)->Ok_0.len() == ops_chunks(
            ops,
            n,
            flip_writable(accounts, index),
            ix_data,
            siblings,
        )->Ok_0.len(),
        (exists|i: int| 0 <= i < n && #[trigger] ingests_account(ops[i], index)) <==> ops_chunks(
            ops,
            n,
            accounts,
            ix_data,
            siblings,
        ) != ops_chunks(ops, n, flip_writable(accounts, index), ix_data, siblings),
    decreases n,
{
    let flipped = flip_writable(accounts, index);
    if n > 0 {
        let m = (n - 1) as nat;
        lemma_chunks_see_writability(ops, m, accounts, ix_data, siblings, index);
        let pre1 = ops_chunks(ops, m, accounts, ix_data, siblings)->Ok_0;
        let pre2 = ops_chunks(ops, m, flipped, ix_data, siblings)->Ok_0;
        let op = ops[n - 1];
        let ch1 = op_chunk(op, accounts, ix_data, siblings)->Ok_0;
        assert(flipped.len() == accounts.len());
        match op {
            Op::IngestAccount { index: k } => {
                if k as int != index {
                    assert(flipped[k as int] == accounts[k as int]);
                }
            },
            _ => {},
        }
        let ch2 = op_chunk(op, flipped, ix_data, siblings)->Ok_0;
        assert(op_chunk(op, flipped, ix_data, siblings) is Ok);
        assert(ch1.len() == ch2.len());
        if ingests_account(op, index) {
            assert(ch1[35] != ch2[35]);
            assert(ch1 != ch2);
        } else {
            assert(ch1 == ch2);
        }
        let p1 = pre1 + ch1;
        let p2 = pre2 + ch2;
        assert(p1.subrange(0, pre1.len() as int) =~= pre1);
        assert(p2.subrange(0, pre2.len() as int) =~= pre2);
        assert(p1.subrange(pre1.len() as int, p1.len() as int) =~= ch1);
        assert(p2.subrange(pre2.len() as int, p2.len() as int) =~= ch2);
        if exists|i: int| 0 <= i < n && #[trigger] ingests_account(ops[i], index) {
            let i = choose|i: int| 0 <= i < n && #[trigger] ingests_account(ops[i], index);
            if i < m {
                assert(pre1 != pre2);
            } else {
                assert(ch1 != ch2);
            }
            assert(p1 != p2);
        } else {
            assert forall|i: int| 0 <= i < m implies !#[trigger] ingests_account(ops[i], index) by {
                assert(!ingests_account(ops[i], index));
            }
            assert(pre1 == pre2);
            assert(!ingests_account(ops[n - 1], index));
            assert(p1 =~= p2);
        }
    }
}

/// The action hash commits to writability: flipping whether an ingested
/// account is writable, and nothing else, leaves the hash computable and
/// changes its preimage.
pub proof fn law_preimage_commits_to_writability(
    program_id: Seq<u8>,
    ops: Ops,
    accounts: Seq<AccountMeta>,
    ix_data: Seq<u8>,
    siblings: Seq<ResolvedSibling>,
    slot: int,
    index: u8,
)
    requires
        index < accounts.len(),
        0 <= slot < ops.ops_len,
        decode_op(ops.ops@[slot]) == Ok::<Op, ActionHashError>(Op::IngestAccount { index }),
        action_preimage(program_id, ops, accounts, ix_data, siblings) is Ok,
    ensures
        action_preimage(program_id, ops, flip_writable(accounts, index as int), ix_data, siblings) is Ok,
        action_preimage(program_id, ops, accounts, ix_data, siblings) != action_preimage(
            program_id,
            ops,
            flip_writable(accounts, index as int),
            ix_data,
            siblings,
        ),
{
    let list = decoded_ops(ops)->Ok_0;
    assert(list[slot] == Op::IngestAccount { index });
    assert(ingests_account(list[slot], index as int));
    lemma_chunks_see_writability(list, list.len(), accounts, ix_data, siblings, index as int);
    let flipped = flip_writable(accounts, index as int);
    let c1 = ops_chunks(list, list.len(), accounts, ix_data, siblings)->Ok_0;
    let c2 = ops_chunks(list, list.len(), flipped, ix_data, siblings)->Ok_0;
    assert(c1 != c2);
    assert((program_id + c1).subrange(program_id.len() as int, (program_id + c1).len() as int) =~= c1);
    assert((program_id + c2).subrange(program_id.len() as int, (program_id + c2).len() as int) =~= c2);
}

/// The precomputed preimage length is exact: whenever the preimage can be
/// built, its length is the one [`preimage_length`] commits to.
pub proof fn law_preimage_length_is_exact(
    program_id: Seq<u8>,
    ops: Ops,
    accounts: Seq<AccountMeta>,
    ix_data: Seq<u8>,
    siblings: Seq<ResolvedSibling>,
)
    requires
        program_id.len() == 32,
        action_preimage(program_id, ops, accounts, ix_data, siblings) is Ok,
    ensures
        preimage_length(ops) == Ok::<nat, ActionHashError>(
            action_preimage(program_id, ops, accounts, ix_data, siblings)->Ok_0.len(),
        ),
{
    let list = decoded_ops(ops)->Ok_0;
    lemma_chunks_len_exact(list, list.len(), accounts, ix_data, siblings);
}

proof fn lemma_chunks_len_exact(
    ops: Seq<Op>,
    n: nat,
    accounts: Seq<AccountMeta>,
    ix_data: Seq<u8>,
    siblings: Seq<ResolvedSibling>,
)
    requires
        n <= ops.len(),
        ops_chunks(ops, n, accounts, ix_data, siblings) is Ok,
    ensures
        ops_chunks(ops, n, accounts, ix_data, siblings)->Ok_0.len() == ops_chunks_len(ops, n),
    decreases n,
{
    if n > 0 {
        let m = (n - 1) as nat;
        if ops_chunks(ops, m, accounts, ix_data, siblings) is Err {
            lemma_chunks_error_persists(ops, m, n, accounts, ix_data, siblings);
        }
        lemma_chunks_len_exact(ops, m, accounts, ix_data, siblings);
        let op = ops[n - 1];
        match op {
            Op::IngestSiblingInstruction { relative_index, .. } => {
                let sibling = find_sibling(siblings, relative_index)->Some_0;
                assert(sibling.program_id@.len() == 32);
            },
            Op::IngestSiblingAccount { relative_index, index } => {
                let sibling = find_sibling(siblings, relative_index)->Some_0;
                assert(sibling.accounts@[index as int]@.len() == 32);
            },
            _ => {},
        }
    }
}

} // verus!
