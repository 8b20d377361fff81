//! The memory that the processors run on.

use vstd::prelude::*;

use crate::bits::{high_byte, low_byte, word_of};

verus! {

/// What an address without memory behind it reads as.
pub const UNMAPPED: u8 = 0xFF;

/// The byte at an address, `UNMAPPED` where there is no memory.
pub open spec fn byte_at(ram: Seq<u8>, addr: int) -> u8 {
    if 0 <= addr < ram.len() {
        ram[addr]
    } else {
        UNMAPPED
    }
}

/// Memory after a byte is stored; nothing happens where there is no memory.
pub open spec fn store_8(ram: Seq<u8>, addr: int, value: u8) -> Seq<u8> {
    if 0 <= addr < ram.len() {
        ram.update(addr, value)
    } else {
        ram
    }
}

/// The little-endian word at an address.
pub open spec fn word_at(ram: Seq<u8>, addr: int) -> u16 {
    word_of(byte_at(ram, addr), byte_at(ram, addr + 1))
}

/// The little-endian double word at an address.
#[verifier::opaque]
pub open spec fn dword_at(ram: Seq<u8>, addr: int) -> u32 {
    ((word_at(ram, addr + 2) as u32) << 16) | (word_at(ram, addr) as u32)
}

/// Memory after a word is stored, low byte first.
pub open spec fn store_16(ram: Seq<u8>, addr: int, value: u16) -> Seq<u8> {
    store_8(store_8(ram, addr, low_byte(value)), addr + 1, high_byte(value))
}

/// Memory after a double word is stored, low byte first.
#[verifier::opaque]
pub open spec fn store_32(ram: Seq<u8>, addr: int, value: u32) -> Seq<u8> {
    store_16(store_16(ram, addr, (value & 0xFFFF) as u16), addr + 2, (value >> 16) as u16)
}

/// Memory after the bytes of `data` are stored one after the other.
pub open spec fn store_bytes(ram: Seq<u8>, addr: int, data: Seq<u8>) -> Seq<u8> {
    Seq::new(
        ram.len(),
        |i: int| if addr <= i < addr + data.len() { data[i - addr] } else { ram[i] },
    )
}

/// The address lines that pass the A20 gate.
pub open spec fn a20_lines(open: bool) -> u32 {
    if open {
        0xFFFF_FFFF
    } else {
        0xFFEF_FFFF
    }
}

/// The memory of the machine and a switch that the 21st address line passes.
pub struct Bus {
    pub ram: Vec<u8>,
    pub a20: bool,
}

impl Bus {
    /// `size` bytes of zeros, with the A20 gate open or closed.
    pub fn new(size: usize, a20: bool) -> (bus: Self)
        ensures
            bus.ram@ == Seq::new(size as nat, |i: int| 0u8),
            bus.a20 == a20,
    {
        let mut ram: Vec<u8> = Vec::new();
        let mut n: usize = 0;
        while n < size
            invariant
                n <= size,
                ram@ == Seq::new(n as nat, |i: int| 0u8),
            decreases size - n,
        {
            ram.push(0);
            n = n + 1;
        }
        Bus { ram, a20 }
    }

    pub fn read_8(&self, addr: usize) -> (value: u8)
        ensures
            value == byte_at(self.ram@, addr as int),
    {
        if addr < self.ram.len() {
            self.ram[addr]
        } else {
            UNMAPPED
        }
    }

    pub fn read_16(&self, addr: usize) -> (value: u16)
        ensures
            value == word_at(self.ram@, addr as int),
    {
        let high: u8 = if addr < usize::MAX {
            self.read_8(addr + 1)
        } else {
            assert(self.ram@.len() == self.ram.len());
            UNMAPPED
        };
        ((high as u16) << 8) | (self.read_8(addr) as u16)
    }

    pub fn read_32(&self, addr: usize) -> (value: u32)
        ensures
            value == dword_at(self.ram@, addr as int),
    {
        reveal(dword_at);
        assert(self.ram@.len() == self.ram.len());
        let high: u16 = if addr < usize::MAX - 1 {
            self.read_16(addr + 2)
        } else {
            ((UNMAPPED as u16) << 8) | (UNMAPPED as u16)
        };
        ((high as u32) << 16) | (self.read_16(addr) as u32)
    }

    pub fn write_8(&mut self, addr: usize, value: u8)
        ensures
            final(self).ram@ == store_8(old(self).ram@, addr as int, value),
            final(self).a20 == old(self).a20,
    {
        if addr < self.ram.len() {
            self.ram[addr] = value;
        }
    }

    pub fn write_16(&mut self, addr: usize, value: u16)
        ensures
            final(self).ram@ == store_16(old(self).ram@, addr as int, value),
            final(self).a20 == old(self).a20,
    {
        self.write_8(addr, (value & 0xFF) as u8);
        assert(self.ram@.len() == self.ram.len());
        if addr < usize::MAX {
            self.write_8(addr + 1, (value >> 8) as u8);
        }
    }

    pub fn write_32(&mut self, addr: usize, value: u32)
        ensures
            final(self).ram@ == store_32(old(self).ram@, addr as int, value),
            final(self).a20 == old(self).a20,
    {
        reveal(store_32);
        self.write_16(addr, (value & 0xFFFF) as u16);
        assert(self.ram@.len() == self.ram.len());
        if addr < usize::MAX - 1 {
            self.write_16(addr + 2, (value >> 16) as u16);
        }
    }

    /// Open or close the switch of address line 20.
    pub fn set_a20(&mut self, open: bool)
        ensures
            final(self).a20 == open,
            final(self).ram == old(self).ram,
    {
        self.a20 = open;
    }

    /// The address lines that pass: all of them, or all but line 20.
    pub fn a20_mask(&self) -> (mask: u32)
        ensures
            mask == a20_lines(self.a20),
    {
        if self.a20 {
            0xFFFF_FFFF
        } else {
            0xFFEF_FFFF
        }
    }

    /// Copy `data` to memory from `addr` on; what runs past the end of
    /// memory is dropped.
    pub fn load_bytes(&mut self, addr: usize, data: &[u8])
        ensures
            final(self).ram@ == store_bytes(old(self).ram@, addr as int, data@),
            final(self).a20 == old(self).a20,
    {
        let mut i: usize = 0;
        let size: usize = self.ram.len();
        while i < data.len() && addr < size && i < size - addr
            invariant
                i <= data.len(),
                i == 0 || (addr < size && i <= size - addr),
                size == self.ram@.len(),
                size == old(self).ram@.len(),
                self.a20 == old(self).a20,
                self.ram@ == store_bytes(old(self).ram@, addr as int, data@.take(i as int)),
            decreases data.len() - i,
        {
            self.ram[addr + i] = data[i];
            i = i + 1;
            proof {
                assert(self.ram@ =~= store_bytes(
                    old(self).ram@,
                    addr as int,
                    data@.take(i as int),
                ));
            }
        }
        assert(self.ram@ =~= store_bytes(old(self).ram@, addr as int, data@));
    }

    /// Put zeros from `from` up to `to`, as far as there is memory.
    pub fn clear(&mut self, from: usize, to: usize)
        ensures
            final(self).ram@ == cleared(old(self).ram@, from as int, to as int),
            final(self).a20 == old(self).a20,
    {
        let mut i: usize = from;
        while i < to && i < self.ram.len()
            invariant
                from <= i,
                i == from || (i <= to && i <= self.ram.len()),
                self.ram@.len() == old(self).ram@.len(),
                self.a20 == old(self).a20,
                self.ram@ == cleared(old(self).ram@, from as int, i as int),
            decreases to - i,
        {
            self.ram[i] = 0;
            i = i + 1;
            assert(self.ram@ =~= cleared(old(self).ram@, from as int, i as int));
        }
        assert(self.ram@ =~= cleared(old(self).ram@, from as int, to as int));
    }
}

/// Memory with zeros from `from` up to `to`.
pub open spec fn cleared(ram: Seq<u8>, from: int, to: int) -> Seq<u8> {
    Seq::new(ram.len(), |i: int| if from <= i < to { 0u8 } else { ram[i] })
}

/// A stored word reads back, wherever both its bytes have memory.
pub proof fn law_word_reads_back(ram: Seq<u8>, addr: int, value: u16)
    requires
        0 <= addr,
        addr + 1 < ram.len(),
    ensures
        word_at(store_16(ram, addr, value), addr) == value,
{
    crate::bits::lemma_word_of_bytes(value);
}

/// A stored double word reads back, wherever its four bytes have memory.
pub proof fn law_dword_reads_back(ram: Seq<u8>, addr: int, value: u32)
    requires
        0 <= addr,
        addr + 3 < ram.len(),
    ensures
        dword_at(store_32(ram, addr, value), addr) == value,
{
    reveal(dword_at);
    reveal(store_32);
    let low = (value & 0xFFFF) as u16;
    let high = (value >> 16) as u16;
    let first = store_16(ram, addr, low);
    law_word_reads_back(ram, addr, low);
    law_word_reads_back(first, addr + 2, high);
    assert(word_at(store_16(first, addr + 2, high), addr) == low);
    lemma_double_word(value, 0, 0);
}

/// Storing leaves memory as large as it is.
pub proof fn law_store_32_keeps_size(ram: Seq<u8>, addr: int, value: u32)
    ensures
        store_32(ram, addr, value).len() == ram.len(),
{
    reveal(store_32);
}

/// Storing a word leaves every byte outside of it as it was.
pub proof fn law_store_16_elsewhere(ram: Seq<u8>, addr: int, value: u16, other: int)
    requires
        other != addr,
        other != addr + 1,
    ensures
        byte_at(store_16(ram, addr, value), other) == byte_at(ram, other),
{
}

/// A word is stored with its low byte first, a double word with its low word
/// first, and both read so.
pub proof fn law_little_endian(ram: Seq<u8>, addr: int, value: u16)
    requires
        0 <= addr,
        addr + 1 < ram.len(),
    ensures
        word_at(ram, addr) == byte_at(ram, addr) + 0x100 * byte_at(ram, addr + 1),
        byte_at(store_16(ram, addr, value), addr) == value % 0x100,
        byte_at(store_16(ram, addr, value), addr + 1) == value / 0x100,
{
    crate::bits::law_words_as_numbers(value, byte_at(ram, addr), byte_at(ram, addr + 1));
}

/// The four bytes of a double word count 1, 100h, 10000h and 1000000h.
pub proof fn law_double_words_as_numbers(ram: Seq<u8>, addr: int)
    ensures
        dword_at(ram, addr) == byte_at(ram, addr) + 0x100 * byte_at(ram, addr + 1) + 0x1_0000
            * byte_at(ram, addr + 2) + 0x100_0000 * byte_at(ram, addr + 3),
{
    reveal(dword_at);
    let low = word_at(ram, addr);
    let high = word_at(ram, addr + 2);
    crate::bits::law_words_as_numbers(0, byte_at(ram, addr), byte_at(ram, addr + 1));
    crate::bits::law_words_as_numbers(0, byte_at(ram, addr + 2), byte_at(ram, addr + 3));
    lemma_double_word(0, low, high);
}

pub(crate) proof fn lemma_double_word(value: u32, low: u16, high: u16)
    by (bit_vector)
    ensures
        (((value >> 16) as u16 as u32) << 16) | ((value & 0xFFFF) as u16 as u32) == value,
        ((high as u32) << 16) | (low as u32) == low + 0x1_0000 * high,
{
}

/// What lies outside of stored bytes stays, and they read as they were stored.
pub proof fn law_stored_bytes(ram: Seq<u8>, addr: int, data: Seq<u8>, i: int)
    requires
        0 <= i < ram.len(),
    ensures
        store_bytes(ram, addr, data).len() == ram.len(),
        addr <= i < addr + data.len() ==> byte_at(store_bytes(ram, addr, data), i) == data[i - addr],
        !(addr <= i < addr + data.len()) ==> byte_at(store_bytes(ram, addr, data), i) == byte_at(
            ram,
            i,
        ),
{
}

} // verus!
