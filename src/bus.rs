use vstd::prelude::*;

use crate::mem::{byte_written, peek_word, word_span_retained, word_written, Mem};

verus! {

/// Last address of the RAM window, whose eight copies fold onto 2KiB.
pub const RAM_MIRRORS_END: u16 = 0x1FFF;

/// First address of the I/O register window.
pub const PPU_REGISTERS: u16 = 0x2000;

/// Last address of the I/O register window.
pub const PPU_REGISTERS_MIRRORS_END: u16 = 0x3FFF;

/// The mirrored address space: 2KiB of RAM folded over [0x0000, 0x1FFF], an
/// I/O register window over [0x2000, 0x3FFF] with no device wired in yet, and
/// open bus everywhere else.
pub struct Bus {
    cpu_vram: Vec<u8>,
}

/// The RAM cell that an address in the RAM window reaches.
pub open spec fn ram_cell(addr: u16) -> u16 {
    addr & 0x07FF
}

/// Whether `addr` falls in the RAM window.
pub open spec fn in_ram(addr: u16) -> bool {
    addr <= RAM_MIRRORS_END
}

/// Whether `addr` falls in the I/O register window.
pub open spec fn in_io_window(addr: u16) -> bool {
    PPU_REGISTERS <= addr <= PPU_REGISTERS_MIRRORS_END
}

impl Bus {
    /// The 2KiB of RAM.
    pub closed spec fn ram(&self) -> Seq<u8> {
        self.cpu_vram@
    }

    pub open spec fn wf(&self) -> bool {
        self.ram().len() == 0x800
    }

    /// A bus whose RAM is all zero.
    pub fn new() -> (b: Self)
        ensures
            b.wf(),
            forall|i: int| 0 <= i < 0x800 ==> #[trigger] b.ram()[i] == 0,
    {
        let mut v: Vec<u8> = Vec::new();
        let mut i: usize = 0;
        while i < 0x800
            invariant
                i <= 0x800,
                v@.len() == i,
                forall|j: int| 0 <= j < i ==> #[trigger] v@[j] == 0,
            decreases 0x800 - i,
        {
            v.push(0);
            i = i + 1;
        }
        Bus { cpu_vram: v }
    }
}

impl Mem for Bus {
    /// Every address but the I/O window, which no device serves yet.
    open spec fn accessible(&self, addr: u16) -> bool {
        self.wf() && !in_io_window(addr)
    }

    open spec fn peek(&self, addr: u16) -> u8 {
        if in_ram(addr) {
            self.ram()[ram_cell(addr) as int]
        } else {
            0
        }
    }

    open spec fn retains(&self, addr: u16) -> bool {
        in_ram(addr)
    }

    open spec fn cell(&self, addr: u16) -> int {
        if in_ram(addr) {
            ram_cell(addr) as int
        } else {
            addr as int + 0x10000
        }
    }

    fn mem_read(&self, addr: u16) -> (r: u8) {
        if addr <= RAM_MIRRORS_END {
            let mirror_down_addr = addr & 0b00000111_11111111;
            assert(mirror_down_addr < 0x800) by (bit_vector)
                requires
                    mirror_down_addr == addr & 0x07FF,
            ;
            self.cpu_vram[mirror_down_addr as usize]
        } else {
            0
        }
    }

    fn mem_write(&mut self, addr: u16, data: u8) {
        if addr <= RAM_MIRRORS_END {
            let mirror_down_addr = addr & 0b00000111_11111111;
            assert(mirror_down_addr < 0x800) by (bit_vector)
                requires
                    mirror_down_addr == addr & 0x07FF,
            ;
            self.cpu_vram.set(mirror_down_addr as usize, data);
        }
        proof {
            assert forall|a: u16| in_ram(a) implies #[trigger] ram_cell(a) < 0x800 by {
                assert((a & 0x07FF) < 0x800) by (bit_vector);
            }
        }
    }
}

/// Two addresses of the RAM window in one mirror class see the same byte: a
/// write through one is read back through the other.
pub proof fn lemma_mirrored_write_visible(before: &Bus, after: &Bus, a1: u16, a2: u16, v: u8)
    requires
        a1 <= RAM_MIRRORS_END,
        a2 <= RAM_MIRRORS_END,
        a1 & 0x07FF == a2 & 0x07FF,
        byte_written(before, after, a1, v),
    ensures
        after.peek(a2) == v,
{
    assert(after.peek(a2) == crate::mem::peek_after_write(before, a1, v, a2));
}

/// A word written anywhere in the RAM window whose two bytes both lie in it
/// reads back unchanged, also across the edge of a 2KiB mirror.
pub proof fn lemma_ram_word_round_trip(before: &Bus, after: &Bus, addr: u16, w: u16)
    requires
        addr < RAM_MIRRORS_END,
        word_written(before, after, addr, w),
    ensures
        peek_word(after, addr) == w as int,
{
    let b = (addr + 1) as u16;
    assert((addr & 0x07FF) != (b & 0x07FF)) by (bit_vector)
        requires
            b == addr + 1,
            addr < 0x1FFF,
    ;
    assert(word_span_retained(before, addr));
    crate::mem::lemma_word_round_trip(before, after, addr, w);
}

} // verus!
