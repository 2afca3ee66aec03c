use vstd::prelude::*;

verus! {

/// Size of the 16-bit address space.
pub const MEMORY_SIZE: usize = 0x10000;

/// The word whose low byte is `lo` and high byte `hi`.
pub(crate) fn join_bytes(lo: u8, hi: u8) -> (r: u16)
    ensures
        r as int == lo as int + 256 * hi as int,
{
    let l = lo as u16;
    let h = hi as u16;
    let r = (h << 8) | l;
    assert(r as int == l as int + 256 * h as int) by (bit_vector)
        requires
            l < 256,
            h < 256,
            r == (h << 8) | l,
    ;
    r
}


/// A byte-addressed memory over the 16-bit address space.
///
/// `peek` is the value a read returns, `cell` names the backing cell an
/// address reaches (two addresses alias when they reach the same cell), and
/// `retains` says whether a write at an address is kept.
pub trait Mem: Sized {
    spec fn accessible(&self, addr: u16) -> bool;

    spec fn peek(&self, addr: u16) -> u8;

    spec fn retains(&self, addr: u16) -> bool;

    spec fn cell(&self, addr: u16) -> int;

    fn mem_read(&self, addr: u16) -> (r: u8)
        requires
            self.accessible(addr),
        ensures
            r == self.peek(addr),
    ;

    fn mem_write(&mut self, addr: u16, data: u8)
        requires
            old(self).accessible(addr),
        ensures
            forall|a: u16|
                #![trigger final(self).accessible(a)]
                #![trigger final(self).retains(a)]
                #![trigger final(self).cell(a)]
                final(self).accessible(a) == old(self).accessible(a) && final(self).retains(a)
                    == old(self).retains(a) && final(self).cell(a) == old(self).cell(a),
            forall|a: u16| #[trigger]
                final(self).peek(a) == if old(self).retains(addr) && old(self).cell(a) == old(
                    self,
                ).cell(addr) {
                    data
                } else {
                    old(self).peek(a)
                },
    ;
}

/// The layout of a memory (what is accessible, what is kept, which cells
/// alias) is the same in `before` and `after`.
pub open spec fn same_layout<M: Mem>(before: &M, after: &M) -> bool {
    forall|a: u16|
        #![trigger after.accessible(a)]
        #![trigger after.retains(a)]
        #![trigger after.cell(a)]
        after.accessible(a) == before.accessible(a) && after.retains(a) == before.retains(a)
            && after.cell(a) == before.cell(a)
}

/// What a read at `a` returns after `data` was written at `addr`.
pub open spec fn peek_after_write<M: Mem>(before: &M, addr: u16, data: u8, a: u16) -> u8 {
    if before.retains(addr) && before.cell(a) == before.cell(addr) {
        data
    } else {
        before.peek(a)
    }
}

/// `after` is `before` with `data` written at `addr`: every address that
/// aliases a retained `addr` reads `data`, every other reads as before.
pub open spec fn byte_written<M: Mem>(before: &M, after: &M, addr: u16, data: u8) -> bool {
    &&& same_layout(before, after)
    &&& forall|a: u16| #[trigger] after.peek(a) == peek_after_write(before, addr, data, a)
}

/// The little-endian word at `addr` and `addr + 1`.
pub open spec fn peek_word<M: Mem>(m: &M, addr: u16) -> int
    recommends
        addr < 0xFFFF,
{
    m.peek(addr) as int + 256 * m.peek((addr + 1) as u16) as int
}

/// The low byte of a word.
pub open spec fn low_byte(w: u16) -> u8 {
    (w & 0xFF) as u8
}

/// The high byte of a word.
pub open spec fn high_byte(w: u16) -> u8 {
    (w >> 8) as u8
}

/// `after` is `before` with the word `w` written at `addr`, low byte first.
pub open spec fn word_written<M: Mem>(before: &M, after: &M, addr: u16, w: u16) -> bool
    recommends
        addr < 0xFFFF,
{
    &&& same_layout(before, after)
    &&& forall|a: u16| #[trigger]
        after.peek(a) == if before.retains((addr + 1) as u16) && before.cell(a) == before.cell(
            (addr + 1) as u16,
        ) {
            high_byte(w)
        } else {
            peek_after_write(before, addr, low_byte(w), a)
        }
}

/// The two bytes at `addr` and `addr + 1` are kept and reach distinct cells.
pub open spec fn word_span_retained<M: Mem>(m: &M, addr: u16) -> bool
    recommends
        addr < 0xFFFF,
{
    &&& m.retains(addr)
    &&& m.retains((addr + 1) as u16)
    &&& m.cell(addr) != m.cell((addr + 1) as u16)
}

/// Reads the little-endian word at `addr`: low byte at `addr`, high byte at
/// `addr + 1`.
pub fn read_word<M: Mem>(m: &M, addr: u16) -> (r: u16)
    requires
        addr < 0xFFFF,
        m.accessible(addr),
        m.accessible((addr + 1) as u16),
    ensures
        r as int == peek_word(m, addr),
{
    let lo = m.mem_read(addr);
    let hi = m.mem_read(addr + 1);
    join_bytes(lo, hi)
}

/// Writes the word `w` at `addr`, low byte first, then the high byte at
/// `addr + 1`.
pub fn write_word<M: Mem>(m: &mut M, addr: u16, w: u16)
    requires
        addr < 0xFFFF,
        old(m).accessible(addr),
        old(m).accessible((addr + 1) as u16),
    ensures
        word_written(old(m), final(m), addr, w),
{
    let hi = (w >> 8) as u8;
    let lo = (w & 0xFF) as u8;
    m.mem_write(addr, lo);
    m.mem_write(addr + 1, hi);
}

/// A word written at `addr` reads back unchanged, wherever both of its bytes
/// are kept in distinct cells.
pub proof fn lemma_word_round_trip<M: Mem>(before: &M, after: &M, addr: u16, w: u16)
    requires
        addr < 0xFFFF,
        word_span_retained(before, addr),
        word_written(before, after, addr, w),
    ensures
        peek_word(after, addr) == w as int,
{
    let b = (addr + 1) as u16;
    assert(after.peek(addr) == low_byte(w));
    assert(after.peek(b) == high_byte(w));
    assert(w as int == (w & 0xFF) as u8 as int + 256 * ((w >> 8) as u8) as int) by (bit_vector);
}


/// A flat 64KiB memory: every address is its own cell and keeps what is
/// written to it.
pub struct FlatMemory {
    bytes: Vec<u8>,
}

impl View for FlatMemory {
    type V = Seq<u8>;

    closed spec fn view(&self) -> Seq<u8> {
        self.bytes@
    }
}

impl FlatMemory {
    /// A memory of 64KiB zero bytes.
    pub fn new() -> (m: Self)
        ensures
            m@.len() == MEMORY_SIZE,
            forall|i: int| 0 <= i < MEMORY_SIZE ==> #[trigger] m@[i] == 0,
    {
        let mut bytes: Vec<u8> = Vec::new();
        let mut i: usize = 0;
        while i < MEMORY_SIZE
            invariant
                i <= MEMORY_SIZE,
                bytes@.len() == i,
                forall|j: int| 0 <= j < i ==> #[trigger] bytes@[j] == 0,
            decreases MEMORY_SIZE - i,
        {
            bytes.push(0);
            i = i + 1;
        }
        FlatMemory { bytes }
    }

    pub fn read(&self, addr: u16) -> (r: u8)
        requires
            self@.len() == MEMORY_SIZE,
        ensures
            r == self@[addr as int],
    {
        self.bytes[addr as usize]
    }

    pub fn write(&mut self, addr: u16, data: u8)
        requires
            old(self)@.len() == MEMORY_SIZE,
        ensures
            final(self)@ == old(self)@.update(addr as int, data),
    {
        self.bytes.set(addr as usize, data);
    }
}

impl Mem for FlatMemory {
    open spec fn accessible(&self, addr: u16) -> bool {
        self@.len() == MEMORY_SIZE
    }

    open spec fn peek(&self, addr: u16) -> u8 {
        self@[addr as int]
    }

    open spec fn retains(&self, addr: u16) -> bool {
        true
    }

    open spec fn cell(&self, addr: u16) -> int {
        addr as int
    }

    fn mem_read(&self, addr: u16) -> (r: u8) {
        self.read(addr)
    }

    fn mem_write(&mut self, addr: u16, data: u8) {
        self.write(addr, data);
    }
}

} // verus!
