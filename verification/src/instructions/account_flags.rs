//! Packed signer/writable privileges for the accounts of a relayed CPI.

use vstd::prelude::*;

use crate::error::ProgramError;

verus! {

/// Requested signer and writable privileges for one relayed CPI account.
#[derive(Clone, Copy, Debug, PartialEq, Eq, Structural)]
pub struct AccountFlags {
    pub is_signer: bool,
    pub is_writable: bool,
}

/// Packed requested privileges for a relayed CPI account slice.
///
/// Account `i` occupies bits `((i % 4) * 2)..((i % 4) * 2 + 2)` in
/// `bits[i / 4]`: bit 0 requests signer and bit 1 requests writable access.
/// The byte vector is canonical: it holds exactly enough bytes for
/// `accounts_len`, and every unused high bit in its last byte is zero.
#[derive(Clone, Debug, PartialEq, Eq)]
pub struct PackedAccountFlags {
    pub accounts_len: u8,
    pub bits: Vec<u8>,
}

/// The two-bit value of one account's flags: signer is bit 0, writable bit 1.
pub open spec fn flags_value(flags: AccountFlags) -> u8 {
    ((if flags.is_signer { 1u8 } else { 0u8 }) + (if flags.is_writable { 2u8 } else { 0u8 })) as u8
}

/// The two-bit value of account `j` once the first `n` accounts are packed.
pub open spec fn slot_value(flags: Seq<AccountFlags>, n: int, j: int) -> int {
    if 0 <= j < n && j < flags.len() {
        flags_value(flags[j]) as int
    } else {
        0
    }
}

/// Byte `b` of the packing once the first `n` accounts are in.
pub open spec fn packed_byte(flags: Seq<AccountFlags>, n: int, b: int) -> int {
    slot_value(flags, n, 4 * b) + 4 * slot_value(flags, n, 4 * b + 1) + 16 * slot_value(flags, n, 4 * b + 2)
        + 64 * slot_value(flags, n, 4 * b + 3)
}

/// Bytes needed for `len` accounts at four accounts per byte.
pub open spec fn packed_len(len: int) -> int {
    (len + 3) / 4
}

/// The canonical packing of `flags`.
pub open spec fn pack_flags(flags: Seq<AccountFlags>) -> Seq<u8> {
    Seq::new(packed_len(flags.len() as int) as nat, |b: int| packed_byte(flags, flags.len() as int, b) as u8)
}

/// Whether `bits` is the canonical byte vector for `accounts_len` accounts.
pub open spec fn is_canonical(accounts_len: u8, bits: Seq<u8>) -> bool {
    &&& bits.len() == packed_len(accounts_len as int)
    &&& accounts_len % 4 != 0 ==> bits[bits.len() - 1] >> (((accounts_len % 4) * 2) as u8) == 0
}

/// The flags of account `i` as stored in `bits`.
pub open spec fn unpack_flag(bits: Seq<u8>, i: int) -> AccountFlags {
    let value = bits[i / 4] >> (((i % 4) * 2) as u8);
    AccountFlags { is_signer: value & 1 != 0, is_writable: value & 2 != 0 }
}

/// The flags a packing stands for; a non-canonical packing is invalid data.
pub open spec fn unpack_flags(packed: PackedAccountFlags) -> Result<Seq<AccountFlags>, ProgramError> {
    if is_canonical(packed.accounts_len, packed.bits@) {
        Ok(Seq::new(packed.accounts_len as nat, |i: int| unpack_flag(packed.bits@, i)))
    } else {
        Err(ProgramError::InvalidInstructionData)
    }
}

proof fn lemma_place_slot(old: u8, value: u8)
    by (bit_vector)
    requires
        value < 4,
    ensures
        old < 1 ==> old | (value << 0u8) == (old + value) as u8,
        old < 4 ==> old | (value << 2u8) == (old + 4 * value) as u8,
        old < 16 ==> old | (value << 4u8) == (old + 16 * value) as u8,
        old < 64 ==> old | (value << 6u8) == (old + 64 * value) as u8,
{
}

proof fn lemma_byte_slots(byte: u8)
    by (bit_vector)
    ensures
        byte == ((byte & 3) + 4 * ((byte >> 2u8) & 3) + 16 * ((byte >> 4u8) & 3) + 64 * ((byte >> 6u8) & 3)) as u8,
        byte >> 2u8 == 0 ==> (byte >> 2u8) & 3 == 0 && (byte >> 4u8) & 3 == 0 && (byte >> 6u8) & 3 == 0,
        byte >> 4u8 == 0 ==> (byte >> 4u8) & 3 == 0 && (byte >> 6u8) & 3 == 0,
        byte >> 6u8 == 0 ==> (byte >> 6u8) & 3 == 0,
        (byte >> 0u8) == byte,
{
}

proof fn lemma_slots_byte(s0: u8, s1: u8, s2: u8, s3: u8)
    by (bit_vector)
    requires
        s0 < 4,
        s1 < 4,
        s2 < 4,
        s3 < 4,
    ensures
        ((s0 + 4 * s1 + 16 * s2 + 64 * s3) as u8) & 3 == s0,
        (((s0 + 4 * s1 + 16 * s2 + 64 * s3) as u8) >> 2u8) & 3 == s1,
        (((s0 + 4 * s1 + 16 * s2 + 64 * s3) as u8) >> 4u8) & 3 == s2,
        (((s0 + 4 * s1 + 16 * s2 + 64 * s3) as u8) >> 6u8) & 3 == s3,
        s1 == 0 && s2 == 0 && s3 == 0 ==> ((s0 + 4 * s1 + 16 * s2 + 64 * s3) as u8) >> 2u8 == 0,
        s2 == 0 && s3 == 0 ==> ((s0 + 4 * s1 + 16 * s2 + 64 * s3) as u8) >> 4u8 == 0,
        s3 == 0 ==> ((s0 + 4 * s1 + 16 * s2 + 64 * s3) as u8) >> 6u8 == 0,
{
}

proof fn lemma_value_bits(x: u8)
    by (bit_vector)
    ensures
        (x & 3) & 1 == x & 1,
        (x & 3) & 2 == x & 2,
        ((if x & 1 != 0 { 1u8 } else { 0u8 }) + (if x & 2 != 0 { 2u8 } else { 0u8 })) == x & 3,
{
}

proof fn lemma_flags_value(flags: AccountFlags)
    ensures
        flags_value(flags) < 4,
        (flags_value(flags) & 1 != 0) == flags.is_signer,
        (flags_value(flags) & 2 != 0) == flags.is_writable,
{
    let v = flags_value(flags);
    assert(v == 0 || v == 1 || v == 2 || v == 3);
    assert((0u8 & 1) == 0 && (0u8 & 2) == 0 && (1u8 & 1) == 1 && (1u8 & 2) == 0 && (2u8 & 1) == 0
        && (2u8 & 2) == 2 && (3u8 & 1) == 1 && (3u8 & 2) == 2) by (bit_vector);
}

/// The slot value of account `4 * b + k` read back from a packed byte.
proof fn lemma_byte_slot(flags: Seq<AccountFlags>, n: int, b: int, k: int)
    requires
        0 <= k < 4,
        0 <= b,
    ensures
        ((packed_byte(flags, n, b) as u8) >> ((k * 2) as u8)) & 3 == slot_value(flags, n, 4 * b + k),
        0 <= packed_byte(flags, n, b) < 256,
{
    let s0 = slot_value(flags, n, 4 * b);
    let s1 = slot_value(flags, n, 4 * b + 1);
    let s2 = slot_value(flags, n, 4 * b + 2);
    let s3 = slot_value(flags, n, 4 * b + 3);
    if 0 <= 4 * b < n && 4 * b < flags.len() {
        lemma_flags_value(flags[4 * b]);
    }
    if 0 <= 4 * b + 1 < n && 4 * b + 1 < flags.len() {
        lemma_flags_value(flags[4 * b + 1]);
    }
    if 0 <= 4 * b + 2 < n && 4 * b + 2 < flags.len() {
        lemma_flags_value(flags[4 * b + 2]);
    }
    if 0 <= 4 * b + 3 < n && 4 * b + 3 < flags.len() {
        lemma_flags_value(flags[4 * b + 3]);
    }
    lemma_slots_byte(s0 as u8, s1 as u8, s2 as u8, s3 as u8);
    lemma_byte_slots(packed_byte(flags, n, b) as u8);
}

proof fn lemma_slot_bounds(flags: Seq<AccountFlags>, n: int, j: int)
    ensures
        0 <= slot_value(flags, n, j) <= 3,
{
    if 0 <= j < n && j < flags.len() {
        lemma_flags_value(flags[j]);
    }
}

/// Packing account `i` into its byte: the byte gains the account's slot and
/// no other byte changes.
proof fn lemma_pack_step(flags: Seq<AccountFlags>, i: int, old: u8, value: u8)
    requires
        0 <= i < flags.len(),
        old as int == packed_byte(flags, i, i / 4),
        value == flags_value(flags[i]),
    ensures
        (old | (value << (((i % 4) * 2) as u8))) as int == packed_byte(flags, i + 1, i / 4),
        forall|c: int| c != i / 4 ==> #[trigger] packed_byte(flags, i + 1, c) == packed_byte(flags, i, c),
{
    let b = i / 4;
    let k = i % 4;
    assert(i == 4 * b + k);
    lemma_flags_value(flags[i]);
    lemma_place_slot(old, value);
    lemma_slot_bounds(flags, i, 4 * b);
    lemma_slot_bounds(flags, i, 4 * b + 1);
    lemma_slot_bounds(flags, i, 4 * b + 2);
    assert forall|c: int| c != b implies #[trigger] packed_byte(flags, i + 1, c) == packed_byte(flags, i, c) by {
        assert(4 * c != i && 4 * c + 1 != i && 4 * c + 2 != i && 4 * c + 3 != i);
    }
    let v = value as int;
    assert(slot_value(flags, i + 1, i) == v);
    assert(slot_value(flags, i, i) == 0);
    if k == 0 {
        assert(old == 0);
        assert(((i % 4) * 2) as u8 == 0u8);
        assert(packed_byte(flags, i + 1, b) == v);
    } else if k == 1 {
        assert(old < 4);
        assert(((i % 4) * 2) as u8 == 2u8);
        assert(packed_byte(flags, i + 1, b) == old + 4 * v);
    } else if k == 2 {
        assert(old < 16);
        assert(((i % 4) * 2) as u8 == 4u8);
        assert(packed_byte(flags, i + 1, b) == old + 16 * v);
    } else {
        assert(old < 64);
        assert(((i % 4) * 2) as u8 == 6u8);
        assert(packed_byte(flags, i + 1, b) == old + 64 * v);
    }
}

/// The last byte of a packing has its unused high bits clear.
proof fn lemma_pack_is_canonical(flags: Seq<AccountFlags>)
    requires
        flags.len() <= u8::MAX,
    ensures
        is_canonical(flags.len() as u8, pack_flags(flags)),
{
    let n = flags.len() as int;
    if n % 4 != 0 {
        let last = packed_len(n) - 1;
        assert(4 * last <= n - 1 < 4 * last + 4);
        let s0 = slot_value(flags, n, 4 * last);
        let s1 = slot_value(flags, n, 4 * last + 1);
        let s2 = slot_value(flags, n, 4 * last + 2);
        let s3 = slot_value(flags, n, 4 * last + 3);
        lemma_slot_bounds(flags, n, 4 * last);
        lemma_slot_bounds(flags, n, 4 * last + 1);
        lemma_slot_bounds(flags, n, 4 * last + 2);
        lemma_slot_bounds(flags, n, 4 * last + 3);
        lemma_slots_byte(s0 as u8, s1 as u8, s2 as u8, s3 as u8);
        assert(pack_flags(flags)[last] == packed_byte(flags, n, last) as u8);
    }
}

/// Unpacking a packing gives back the flags.
proof fn lemma_unpack_pack(flags: Seq<AccountFlags>)
    ensures
        forall|i: int| 0 <= i < flags.len() ==> #[trigger] unpack_flag(pack_flags(flags), i) == flags[i],
{
    let n = flags.len() as int;
    assert forall|i: int| 0 <= i < n implies #[trigger] unpack_flag(pack_flags(flags), i) == flags[i] by {
        let b = i / 4;
        let k = i % 4;
        assert(i == 4 * b + k);
        lemma_byte_slot(flags, n, b, k);
        lemma_flags_value(flags[i]);
        assert(pack_flags(flags)[b] == packed_byte(flags, n, b) as u8);
        lemma_value_bits(pack_flags(flags)[b] >> ((k * 2) as u8));
    }
}

impl PackedAccountFlags {
    /// Pack runtime flags into their canonical wire representation; a relayed
    /// CPI carries at most 255 accounts.
    pub fn from_flags(flags: &[AccountFlags]) -> (r: Self)
        requires
            flags@.len() <= u8::MAX,
        ensures
            r.accounts_len == flags@.len(),
            r.bits@ == pack_flags(flags@),
            is_canonical(r.accounts_len, r.bits@),
            unpack_flags(r) == Ok::<Seq<AccountFlags>, ProgramError>(flags@),
    {
        let byte_count: usize = (flags.len() + 3) / 4;
        let mut bits: Vec<u8> = Vec::new();
        let mut b: usize = 0;
        while b < byte_count
            invariant
                b <= byte_count,
                bits@.len() == b,
                forall|c: int| 0 <= c < b ==> bits@[c] == 0,
            decreases byte_count - b,
        {
            bits.push(0);
            b = b + 1;
        }
        let mut index: usize = 0;
        while index < flags.len()
            invariant
                flags@.len() <= u8::MAX,
                byte_count == packed_len(flags@.len() as int),
                index <= flags@.len(),
                bits@.len() == byte_count,
                forall|c: int| 0 <= c < byte_count ==> bits@[c] as int == #[trigger] packed_byte(flags@, index as int, c),
            decreases flags@.len() - index,
        {
            let entry = flags[index];
            let value: u8 = (if entry.is_signer { 1u8 } else { 0u8 }) + (if entry.is_writable { 2u8 } else { 0u8 });
            let byte_index: usize = index / 4;
            let shift: u8 = ((index % 4) * 2) as u8;
            let old = bits[byte_index];
            let updated: u8 = old | (value << shift);
            proof {
                lemma_pack_step(flags@, index as int, old, value);
            }
            bits.set(byte_index, updated);
            index = index + 1;
        }
        let packed = PackedAccountFlags { accounts_len: flags.len() as u8, bits };
        proof {
            assert(packed.bits@ =~= pack_flags(flags@));
            lemma_pack_is_canonical(flags@);
            lemma_unpack_pack(flags@);
            assert(Seq::new(packed.accounts_len as nat, |i: int| unpack_flag(packed.bits@, i)) =~= flags@);
        }
        packed
    }

    /// Decode canonical packed flags, in account order.
    pub fn iter(&self) -> (r: Result<Vec<AccountFlags>, ProgramError>)
        ensures
            match r {
                Ok(list) => unpack_flags(*self) == Ok::<Seq<AccountFlags>, ProgramError>(list@),
                Err(e) => unpack_flags(*self) == Err::<Seq<AccountFlags>, ProgramError>(e),
            },
    {
        let expected_len: usize = (self.accounts_len as usize + 3) / 4;
        if self.bits.len() != expected_len {
            return Err(ProgramError::InvalidInstructionData);
        }
        let used_bits: u8 = (self.accounts_len % 4) * 2;
        if used_bits != 0 && self.bits[expected_len - 1] >> used_bits != 0 {
            return Err(ProgramError::InvalidInstructionData);
        }
        let mut list: Vec<AccountFlags> = Vec::new();
        let mut index: usize = 0;
        while index < self.accounts_len as usize
            invariant
                self.bits@.len() == packed_len(self.accounts_len as int),
                index <= self.accounts_len,
                list@.len() == index,
                forall|i: int| 0 <= i < index ==> #[trigger] list@[i] == unpack_flag(self.bits@, i),
            decreases self.accounts_len - index,
        {
            let value = self.bits[index / 4] >> (((index % 4) * 2) as u8);
            list.push(AccountFlags { is_signer: value & 1 != 0, is_writable: value & 2 != 0 });
            index = index + 1;
        }
        proof {
            assert(list@ =~= Seq::new(self.accounts_len as nat, |i: int| unpack_flag(self.bits@, i)));
        }
        Ok(list)
    }
}

/// Decoding a canonical packing and packing the result again gives back the
/// same bytes: a canonical packing is determined by the flags it stands for.
pub proof fn law_canonical_packing_is_unique(packed: PackedAccountFlags)
    requires
        is_canonical(packed.accounts_len, packed.bits@),
    ensures
        unpack_flags(packed) matches Ok(flags) && pack_flags(flags) == packed.bits@,
{
    let n = packed.accounts_len as int;
    let bits = packed.bits@;
    let flags = Seq::new(packed.accounts_len as nat, |i: int| unpack_flag(bits, i));
    assert forall|b: int| 0 <= b < packed_len(n) implies #[trigger] (packed_byte(flags, n, b) as u8) == bits[b] by {
        let byte = bits[b];
        lemma_byte_slots(byte);
        lemma_value_bits(byte);
        lemma_value_bits(byte >> 2u8);
        lemma_value_bits(byte >> 4u8);
        lemma_value_bits(byte >> 6u8);
        assert(4 * b < n);
        if b == packed_len(n) - 1 && n % 4 != 0 {
            assert(byte >> (((n % 4) * 2) as u8) == 0);
        }
        assert(slot_value(flags, n, 4 * b) == (byte & 3) as int);
        assert(4 * b + 1 < n ==> slot_value(flags, n, 4 * b + 1) == ((byte >> 2u8) & 3) as int);
        assert(4 * b + 2 < n ==> slot_value(flags, n, 4 * b + 2) == ((byte >> 4u8) & 3) as int);
        assert(4 * b + 3 < n ==> slot_value(flags, n, 4 * b + 3) == ((byte >> 6u8) & 3) as int);
    }
    assert(pack_flags(flags) =~= bits);
}

} // verus!
