//! Byte-addressed memory access over the sparse memory of the processor
//! state: reads and writes of bytes, and little-endian words on top of them.
//! An access to an address that is not mapped fails; no byte is made up.

use vstd::prelude::*;
use vstd::arithmetic::div_mod::lemma_mod_breakdown;
use vstd::arithmetic::power::{lemma_pow_positive, pow};
use vstd::arithmetic::power2::{lemma2_to64, lemma2_to64_rest};
use crate::error::SimError;
use crate::processor::{State, StateView};
use crate::utils::{sign_extend, to_signed, to_unsigned, unsigned};

verus! {

/// The address `i` bytes after `address`, wrapping at 64 bits.
pub open spec fn address_after(address: u64, i: int) -> u64 {
    ((address + i) % 0x1_0000_0000_0000_0000) as u64
}

/// Whether each of the `width` bytes that start at `address` is mapped.
pub open spec fn mapped(memory: Map<u64, u8>, address: u64, width: nat) -> bool {
    forall|i: int| 0 <= i < width ==> memory.contains_key(#[trigger] address_after(address, i))
}

/// The `width` bytes that start at `address`, lowest address first.
pub open spec fn bytes_at(memory: Map<u64, u8>, address: u64, width: nat) -> Seq<u8> {
    Seq::new(width, |i: int| memory[address_after(address, i)])
}

/// The memory after `bytes` are written from `address` on, lowest address first.
pub open spec fn with_bytes(memory: Map<u64, u8>, address: u64, bytes: Seq<u8>) -> Map<u64, u8>
    decreases bytes.len(),
{
    if bytes.len() == 0 {
        memory
    } else {
        with_bytes(memory, address, bytes.drop_last()).insert(
            address_after(address, bytes.len() - 1),
            bytes.last(),
        )
    }
}

/// The number that `bytes` encode in little-endian order: the first byte
/// counts once, the next 256 times, and so on.
pub open spec fn le_value(bytes: Seq<u8>) -> nat
    decreases bytes.len(),
{
    if bytes.len() == 0 {
        0
    } else {
        bytes[0] as nat + 256 * le_value(bytes.drop_first())
    }
}

/// The `width` low bytes of `value` in little-endian order.
pub open spec fn le_bytes(value: nat, width: nat) -> Seq<u8>
    decreases width,
{
    if width == 0 {
        Seq::empty()
    } else {
        seq![(value % 256) as u8] + le_bytes(value / 256, (width - 1) as nat)
    }
}

impl StateView {
    /// The little-endian number in the `width` bytes at `address`, or the
    /// failure when one of them is not mapped.
    pub open spec fn load(self, address: u64, width: nat) -> Result<nat, SimError> {
        if mapped(self.memory, address, width) {
            Ok(le_value(bytes_at(self.memory, address, width)))
        } else {
            Err(SimError::UnmappedMemory)
        }
    }

    /// The number in the `width` bytes at `address`, read as a
    /// two's-complement number of that many bytes and so sign-extended to
    /// 64 bits, or the failure when one of the bytes is not mapped.
    pub open spec fn load_signed(self, address: u64, width: nat) -> Result<i64, SimError> {
        match self.load(address, width) {
            Ok(value) => Ok(sign_extend(value as int, 8 * width) as i64),
            Err(e) => Err(e),
        }
    }

    /// The state after the `width` low bytes of `value` are written at
    /// `address` in little-endian order, or the failure when one of the
    /// addresses is not mapped.
    pub open spec fn store(self, address: u64, width: nat, value: nat) -> Result<
        StateView,
        SimError,
    > {
        if mapped(self.memory, address, width) {
            Ok(self.set_memory(with_bytes(self.memory, address, le_bytes(value, width))))
        } else {
            Err(SimError::UnmappedMemory)
        }
    }
}

/// A little-endian number of `n` bytes is below `256^n`; stated for the
/// widths that fit a 64-bit word.
pub proof fn lemma_le_value_bound(bytes: Seq<u8>)
    ensures
        bytes.len() == 0 ==> le_value(bytes) == 0,
        bytes.len() == 1 ==> le_value(bytes) < 0x100,
        bytes.len() == 2 ==> le_value(bytes) < 0x1_0000,
        bytes.len() == 3 ==> le_value(bytes) < 0x100_0000,
        bytes.len() == 4 ==> le_value(bytes) < 0x1_0000_0000,
        bytes.len() == 5 ==> le_value(bytes) < 0x100_0000_0000,
        bytes.len() == 6 ==> le_value(bytes) < 0x1_0000_0000_0000,
        bytes.len() == 7 ==> le_value(bytes) < 0x100_0000_0000_0000,
        bytes.len() == 8 ==> le_value(bytes) < 0x1_0000_0000_0000_0000,
    decreases bytes.len(),
{
    if bytes.len() > 0 {
        lemma_le_value_bound(bytes.drop_first());
    }
}

/// The little-endian number of one, two and four bytes, written out.
pub proof fn lemma_le_value_unfold(bytes: Seq<u8>)
    ensures
        bytes.len() == 1 ==> le_value(bytes) == bytes[0],
        bytes.len() == 2 ==> le_value(bytes) == bytes[0] + 0x100 * bytes[1],
        bytes.len() == 4 ==> le_value(bytes) == bytes[0] + 0x100 * bytes[1] + 0x1_0000 * bytes[2]
            + 0x100_0000 * bytes[3],
    decreases bytes.len(),
{
    if bytes.len() > 0 {
        let rest = bytes.drop_first();
        if rest.len() > 0 {
            let rest2 = rest.drop_first();
            if rest2.len() > 0 {
                lemma_le_value_unfold(rest2);
                assert(le_value(rest2) == rest2[0] as nat + 256 * le_value(rest2.drop_first()));
            }
            assert(le_value(rest) == rest[0] as nat + 256 * le_value(rest2));
        }
        assert(le_value(bytes) == bytes[0] as nat + 256 * le_value(rest));
    }
}

/// The little-endian bytes of a number are as many as were asked for.
pub proof fn lemma_le_bytes_len(value: nat, width: nat)
    ensures
        le_bytes(value, width).len() == width,
    decreases width,
{
    if width > 0 {
        lemma_le_bytes_len(value / 256, (width - 1) as nat);
    }
}

/// Writing bytes to mapped addresses maps no new address and unmaps none.
pub proof fn lemma_with_bytes_domain(memory: Map<u64, u8>, address: u64, bytes: Seq<u8>)
    requires
        mapped(memory, address, bytes.len()),
    ensures
        with_bytes(memory, address, bytes).dom() == memory.dom(),
    decreases bytes.len(),
{
    if bytes.len() > 0 {
        lemma_with_bytes_domain(memory, address, bytes.drop_last());
        assert(memory.contains_key(address_after(address, bytes.len() - 1)));
        assert(with_bytes(memory, address, bytes).dom() =~= memory.dom());
    }
}

/// After bytes are written from an address on, the byte with index `i` is
/// read back from the address `i` bytes on. At most `2^64` bytes are
/// written, so that no address is written twice.
pub proof fn lemma_with_bytes_reads(memory: Map<u64, u8>, address: u64, bytes: Seq<u8>, i: int)
    requires
        bytes.len() <= 0x1_0000_0000_0000_0000,
        0 <= i < bytes.len(),
    ensures
        with_bytes(memory, address, bytes)[address_after(address, i)] == bytes[i],
    decreases bytes.len(),
{
    let last = bytes.len() - 1;
    if i < last {
        lemma_with_bytes_reads(memory, address, bytes.drop_last(), i);
        assert(address_after(address, i) != address_after(address, last));
    }
}

/// After bytes are written from an address on, an address that is none of
/// those written holds what it held before.
pub proof fn lemma_with_bytes_keeps(memory: Map<u64, u8>, address: u64, bytes: Seq<u8>, other: u64)
    requires
        forall|i: int| 0 <= i < bytes.len() ==> other != address_after(address, i),
    ensures
        with_bytes(memory, address, bytes)[other] == memory[other],
        with_bytes(memory, address, bytes).contains_key(other) == memory.contains_key(other),
    decreases bytes.len(),
{
    if bytes.len() > 0 {
        let front = bytes.drop_last();
        assert forall|i: int| 0 <= i < front.len() implies other != address_after(address, i) by {
            assert(0 <= i < bytes.len());
        }
        lemma_with_bytes_keeps(memory, address, front, other);
        assert(other != address_after(address, bytes.len() - 1));
    }
}

/// The little-endian number of the `width` low bytes of `value` is `value`
/// without what lies above those bytes.
pub proof fn lemma_le_value_of_le_bytes(value: nat, width: nat)
    ensures
        le_value(le_bytes(value, width)) == value % (pow(256, width) as nat),
    decreases width,
{
    reveal(pow);
    if width > 0 {
        let rest = le_bytes(value / 256, (width - 1) as nat);
        let all = le_bytes(value, width);
        lemma_le_value_of_le_bytes(value / 256, (width - 1) as nat);
        assert(all.drop_first() =~= rest);
        lemma_pow_positive(256, (width - 1) as nat);
        lemma_mod_breakdown(value as int, 256, pow(256, (width - 1) as nat));
    }
}

/// A number that is stored is loaded again from the same address, without
/// what lies above the bytes that were stored. The width is at most `2^64`
/// bytes, so that no address is written twice.
pub proof fn lemma_store_then_load(s: StateView, address: u64, width: nat, value: nat)
    requires
        width <= 0x1_0000_0000_0000_0000,
    ensures
        s.store(address, width, value) matches Ok(next) ==> next.load(address, width) == Ok::<
            nat,
            SimError,
        >(value % (pow(256, width) as nat)),
{
    if mapped(s.memory, address, width) {
        let bytes = le_bytes(value, width);
        let next = s.store(address, width, value).unwrap();
        lemma_le_bytes_len(value, width);
        lemma_with_bytes_domain(s.memory, address, bytes);
        assert forall|i: int| 0 <= i < width implies bytes_at(next.memory, address, width)[i]
            == bytes[i] by {
            lemma_with_bytes_reads(s.memory, address, bytes, i);
        }
        assert(bytes_at(next.memory, address, width) =~= bytes);
        lemma_le_value_of_le_bytes(value, width);
    }
}

/// A store changes the bytes at mapped addresses and nothing else: the
/// registers, the program counter and the set of mapped addresses stay as
/// they were. It fails only when an address is not mapped.
pub proof fn lemma_store_keeps_shape(s: StateView, address: u64, width: nat, value: nat)
    ensures
        match s.store(address, width, value) {
            Ok(next) => {
                &&& next == s.set_memory(next.memory)
                &&& next.memory.dom() == s.memory.dom()
            },
            Err(e) => e == SimError::UnmappedMemory,
        },
{
    lemma_le_bytes_len(value, width);
    if mapped(s.memory, address, width) {
        lemma_with_bytes_domain(s.memory, address, le_bytes(value, width));
    }
}

impl State {
    /// Reads the byte at address `pc`.
    pub fn access(&self, pc: i64) -> (r: Result<u8, SimError>)
        ensures
            r == (if self@.memory.contains_key(unsigned(pc)) {
                Ok::<u8, SimError>(self@.memory[unsigned(pc)])
            } else {
                Err(SimError::UnmappedMemory)
            }),
    {
        self.read_byte(to_unsigned(pc))
    }

    /// Reads the byte at `address`.
    pub fn read_byte(&self, address: u64) -> (r: Result<u8, SimError>)
        ensures
            r == (if self@.memory.contains_key(address) {
                Ok::<u8, SimError>(self@.memory[address])
            } else {
                Err(SimError::UnmappedMemory)
            }),
    {
        broadcast use vstd::std_specs::hash::group_hash_axioms;
        match self.memory.get(&address) {
            Some(byte) => Ok(*byte),
            None => Err(SimError::UnmappedMemory),
        }
    }

    /// Reads the `width` bytes that start at `address`, lowest address
    /// first. Fails when one of them is not mapped.
    pub fn read(&self, address: u64, width: usize) -> (r: Result<Vec<u8>, SimError>)
        ensures
            match r {
                Ok(bytes) => mapped(self@.memory, address, width as nat) && bytes@ == bytes_at(
                    self@.memory,
                    address,
                    width as nat,
                ),
                Err(e) => !mapped(self@.memory, address, width as nat) && e
                    == SimError::UnmappedMemory,
            },
    {
        let mut bytes: Vec<u8> = Vec::new();
        let mut i: usize = 0;
        let mut at: u64 = address;
        while i < width
            invariant
                i <= width,
                at == address_after(address, i as int),
                mapped(self@.memory, address, i as nat),
                bytes@ == bytes_at(self@.memory, address, i as nat),
            decreases width - i,
        {
            match self.read_byte(at) {
                Ok(byte) => {
                    bytes.push(byte);
                },
                Err(e) => {
                    return Err(e);
                },
            }
            i = i + 1;
            at = at.wrapping_add(1);
            assert(bytes@ =~= bytes_at(self@.memory, address, i as nat));
        }
        Ok(bytes)
    }

    /// Maps `bytes` from `address` on, lowest address first, over whatever was
    /// mapped there.
    pub fn map_bytes(&mut self, address: u64, bytes: &[u8])
        ensures
            final(self)@ == old(self)@.set_memory(
                with_bytes(old(self)@.memory, address, bytes@),
            ),
    {
        broadcast use vstd::std_specs::hash::group_hash_axioms;
        let mut i: usize = 0;
        let mut at: u64 = address;
        while i < bytes.len()
            invariant
                i <= bytes@.len(),
                at == address_after(address, i as int),
                self@ == old(self)@.set_memory(
                    with_bytes(old(self)@.memory, address, bytes@.take(i as int)),
                ),
            decreases bytes@.len() - i,
        {
            self.memory.insert(at, bytes[i]);
            assert(bytes@.take(i + 1).drop_last() =~= bytes@.take(i as int));
            i = i + 1;
            at = at.wrapping_add(1);
        }
        assert(bytes@.take(i as int) =~= bytes@);
    }

    /// Writes `bytes` from `address` on, lowest address first. Fails, and
    /// writes nothing, when one of the addresses is not mapped.
    pub fn write(&mut self, address: u64, bytes: &[u8]) -> (r: Result<(), SimError>)
        ensures
            mapped(old(self)@.memory, address, bytes@.len()) ==> r is Ok && final(self)@ == old(
                self,
            )@.set_memory(with_bytes(old(self)@.memory, address, bytes@)),
            !mapped(old(self)@.memory, address, bytes@.len()) ==> r == Err::<(), SimError>(
                SimError::UnmappedMemory,
            ) && final(self)@ == old(self)@,
    {
        broadcast use vstd::std_specs::hash::group_hash_axioms;
        let mut i: usize = 0;
        let mut at: u64 = address;
        while i < bytes.len()
            invariant
                i <= bytes@.len(),
                at == address_after(address, i as int),
                mapped(self@.memory, address, i as nat),
                *self == *old(self),
            decreases bytes@.len() - i,
        {
            if !self.memory.contains_key(&at) {
                return Err(SimError::UnmappedMemory);
            }
            i = i + 1;
            at = at.wrapping_add(1);
        }
        self.map_bytes(address, bytes);
        Ok(())
    }
}


/// The little-endian number of a byte sequence, computed.
fn le_value_of(bytes: &Vec<u8>) -> (r: u64)
    requires
        bytes@.len() <= 8,
    ensures
        r == le_value(bytes@),
{
    let n = bytes.len();
    let mut i: usize = n;
    let mut acc: u64 = 0;
    while i > 0
        invariant
            i <= n,
            n == bytes@.len(),
            n <= 8,
            acc == le_value(bytes@.subrange(i as int, n as int)),
        decreases i,
    {
        proof {
            let tail = bytes@.subrange(i - 1, n as int);
            assert(tail.drop_first() =~= bytes@.subrange(i as int, n as int));
            lemma_le_value_bound(tail.drop_first());
            lemma_le_value_bound(tail);
        }
        i = i - 1;
        acc = acc * 256 + bytes[i] as u64;
    }
    assert(bytes@.subrange(0, n as int) =~= bytes@);
    acc
}

/// The `width` low bytes of `value` in little-endian order, computed.
fn le_bytes_of(value: u64, width: usize) -> (r: Vec<u8>)
    ensures
        r@ == le_bytes(value as nat, width as nat),
{
    let mut bytes: Vec<u8> = Vec::new();
    let mut rest: u64 = value;
    let mut i: usize = 0;
    while i < width
        invariant
            i <= width,
            bytes@ + le_bytes(rest as nat, (width - i) as nat) == le_bytes(
                value as nat,
                width as nat,
            ),
        decreases width - i,
    {
        let ghost before = bytes@;
        bytes.push((rest % 256) as u8);
        proof {
            assert(bytes@ + le_bytes((rest / 256) as nat, (width - i - 1) as nat) =~= before
                + le_bytes(rest as nat, (width - i) as nat));
        }
        rest = rest / 256;
        i = i + 1;
    }
    assert(bytes@ + le_bytes(rest as nat, 0) =~= bytes@);
    bytes
}

impl State {
    /// Reads the little-endian number in the `width` bytes at `address`.
    pub fn load_le(&self, address: u64, width: usize) -> (r: Result<u64, SimError>)
        requires
            width <= 8,
        ensures
            match self@.load(address, width as nat) {
                Ok(value) => r == Ok::<u64, SimError>(value as u64) && value <= u64::MAX,
                Err(e) => r == Err::<u64, SimError>(e),
            },
    {
        match self.read(address, width) {
            Ok(bytes) => {
                proof {
                    lemma_le_value_bound(bytes@);
                }
                Ok(le_value_of(&bytes))
            },
            Err(e) => Err(e),
        }
    }

    /// Writes the `width` low bytes of `value` at `address` in little-endian
    /// order. Fails, and writes nothing, when one of the addresses is not
    /// mapped.
    pub fn store_le(&mut self, address: u64, width: usize, value: u64) -> (r: Result<
        (),
        SimError,
    >)
        ensures
            match old(self)@.store(address, width as nat, value as nat) {
                Ok(next) => r is Ok && final(self)@ == next,
                Err(e) => r == Err::<(), SimError>(e) && final(self)@ == old(self)@,
            },
    {
        let bytes = le_bytes_of(value, width);
        proof {
            lemma_le_bytes_len(value as nat, width as nat);
        }
        self.write(address, bytes.as_slice())
    }

    /// Reads the 16-bit little-endian word at `addr`.
    pub fn access_u16(&self, addr: i64) -> (r: Result<u16, SimError>)
        ensures
            match self@.load(unsigned(addr), 2) {
                Ok(value) => r == Ok::<u16, SimError>(value as u16) && value <= u16::MAX,
                Err(e) => r == Err::<u16, SimError>(e),
            },
    {
        let address = to_unsigned(addr);
        proof {
            lemma_le_value_bound(bytes_at(self@.memory, address, 2));
        }
        match self.load_le(address, 2) {
            Ok(value) => Ok(value as u16),
            Err(e) => Err(e),
        }
    }

    /// Reads the 32-bit little-endian word at `addr`.
    pub fn access_u32(&self, addr: i64) -> (r: Result<u32, SimError>)
        ensures
            match self@.load(unsigned(addr), 4) {
                Ok(value) => r == Ok::<u32, SimError>(value as u32) && value <= u32::MAX,
                Err(e) => r == Err::<u32, SimError>(e),
            },
    {
        let address = to_unsigned(addr);
        proof {
            lemma_le_value_bound(bytes_at(self@.memory, address, 4));
        }
        match self.load_le(address, 4) {
            Ok(value) => Ok(value as u32),
            Err(e) => Err(e),
        }
    }

    /// Reads the 64-bit little-endian word at `addr`.
    pub fn access_u64(&self, addr: i64) -> (r: Result<u64, SimError>)
        ensures
            match self@.load(unsigned(addr), 8) {
                Ok(value) => r == Ok::<u64, SimError>(value as u64) && value <= u64::MAX,
                Err(e) => r == Err::<u64, SimError>(e),
            },
    {
        self.load_le(to_unsigned(addr), 8)
    }

    /// Reads the `width` bytes at `addr` as a little-endian two's-complement
    /// number and sign-extends it to 64 bits.
    pub fn load_signed(&self, addr: i64, width: usize) -> (r: Result<i64, SimError>)
        requires
            width == 1 || width == 2 || width == 4 || width == 8,
        ensures
            r == self@.load_signed(unsigned(addr), width as nat),
    {
        let address = to_unsigned(addr);
        proof {
            lemma2_to64();
            lemma2_to64_rest();
            lemma_le_value_bound(bytes_at(self@.memory, address, width as nat));
        }
        match self.load_le(address, width) {
            Ok(value) => {
                if width == 1 {
                    Ok(if value >= 0x80 { value as i64 - 0x100 } else { value as i64 })
                } else if width == 2 {
                    Ok(if value >= 0x8000 { value as i64 - 0x1_0000 } else { value as i64 })
                } else if width == 4 {
                    Ok(
                        if value >= 0x8000_0000 {
                            value as i64 - 0x1_0000_0000
                        } else {
                            value as i64
                        },
                    )
                } else {
                    Ok(to_signed(value))
                }
            },
            Err(e) => Err(e),
        }
    }

    /// Writes `value` at `addr` as four little-endian bytes. Fails, and
    /// writes nothing, when one of the addresses is not mapped.
    pub fn store_u32(&mut self, addr: i64, value: u32) -> (r: Result<(), SimError>)
        ensures
            match old(self)@.store(unsigned(addr), 4, value as nat) {
                Ok(next) => r is Ok && final(self)@ == next,
                Err(e) => r == Err::<(), SimError>(e) && final(self)@ == old(self)@,
            },
    {
        self.store_le(to_unsigned(addr), 4, value as u64)
    }

    /// Writes `value` at `addr` as eight little-endian bytes. Fails, and
    /// writes nothing, when one of the addresses is not mapped.
    pub fn store_u64(&mut self, addr: i64, value: u64) -> (r: Result<(), SimError>)
        ensures
            match old(self)@.store(unsigned(addr), 8, value as nat) {
                Ok(next) => r is Ok && final(self)@ == next,
                Err(e) => r == Err::<(), SimError>(e) && final(self)@ == old(self)@,
            },
    {
        self.store_le(to_unsigned(addr), 8, value)
    }
}

} // verus!
