use vstd::prelude::*;

use crate::mem::{join_bytes, FlatMemory, MEMORY_SIZE};

verus! {

/// How an instruction's trailing bytes locate its operand.
#[allow(non_camel_case_types)]
#[derive(Debug, Clone, Copy, PartialEq, Eq, Structural)]
pub enum AddressingMode {
    Immediate,
    ZeroPage,
    ZeroPage_X,
    ZeroPage_Y,
    Absolute,
    Absolute_X,
    Absolute_Y,
    Indirect_X,
    Indirect_Y,
    NoneAddressing,
}

/// The operations of the dispatch table.
#[derive(Debug, Clone, Copy, PartialEq, Eq, Structural)]
pub enum Operation {
    Brk,
    Lda,
    Tax,
    Inx,
}

/// Why a run stopped without reaching a halt.
#[derive(Debug, Clone, Copy, PartialEq, Eq, Structural)]
pub enum CpuError {
    /// The opcode at `program_counter` has no entry in the dispatch table.
    UnimplementedOpcode { opcode: u8, program_counter: u16 },
    /// The instruction at `program_counter` would move the program counter
    /// past the end of the address space.
    ProgramCounterOverflow { program_counter: u16 },
}

/// Bit positions of the status flags. Load, transfer and increment
/// operations touch only Zero and Negative.
pub const FLAG_CARRY: u8 = 0b0000_0001;

pub const FLAG_ZERO: u8 = 0b0000_0010;

pub const FLAG_INTERRUPT_DISABLE: u8 = 0b0000_0100;

pub const FLAG_DECIMAL: u8 = 0b0000_1000;

pub const FLAG_BREAK: u8 = 0b0001_0000;

pub const FLAG_OVERFLOW: u8 = 0b0100_0000;

pub const FLAG_NEGATIVE: u8 = 0b1000_0000;

/// Where `load` places a program.
pub const PROGRAM_BASE: u16 = 0x8000;

/// Where the address execution starts at after a reset is kept.
pub const RESET_VECTOR: u16 = 0xFFFC;

/// The CPU's state as mathematical values.
pub struct Machine {
    pub a: u8,
    pub x: u8,
    pub y: u8,
    pub status: u8,
    pub pc: u16,
    pub mem: Seq<u8>,
}

/// The status byte after a result updates Zero and Negative; no other bit
/// changes.
pub open spec fn flags_after(status: u8, result: u8) -> u8 {
    ((status & 0b0111_1101) | (if result == 0 {
        FLAG_ZERO
    } else {
        0u8
    }) | (result & FLAG_NEGATIVE)) as u8
}

pub open spec fn zero_set(status: u8) -> bool {
    status & FLAG_ZERO != 0
}

pub open spec fn negative_set(status: u8) -> bool {
    status & FLAG_NEGATIVE != 0
}

/// After any result `v`, Zero says `v == 0`, Negative says `v >= 0x80`, and
/// every other flag keeps its value.
pub proof fn lemma_flags_after(status: u8, v: u8)
    ensures
        zero_set(flags_after(status, v)) == (v == 0),
        negative_set(flags_after(status, v)) == (v >= 0x80),
        flags_after(status, v) & 0b0111_1101 == status & 0b0111_1101,
{
    let z: u8 = if v == 0 {
        2
    } else {
        0
    };
    let r: u8 = flags_after(status, v);
    assert(r == (status & 0x7D) | z | (v & 0x80));
    assert((((status & 0x7D) | z | (v & 0x80)) & 2 != 0) == (z == 2)) by (bit_vector)
        requires
            z == 0 || z == 2,
    ;
    assert((((status & 0x7D) | z | (v & 0x80)) & 0x80 != 0) == (v >= 0x80)) by (bit_vector)
        requires
            z == 0 || z == 2,
    ;
    assert(((status & 0x7D) | z | (v & 0x80)) & 0x7D == status & 0x7D) by (bit_vector)
        requires
            z == 0 || z == 2,
    ;
}

/// The byte at `addr`.
pub open spec fn byte_at(mem: Seq<u8>, addr: u16) -> u8 {
    mem[addr as int]
}

/// The little-endian word at `addr` and `addr + 1`.
pub open spec fn word_at(mem: Seq<u8>, addr: u16) -> u16
    recommends
        addr < 0xFFFF,
{
    (mem[addr as int] as int + 256 * mem[addr as int + 1] as int) as u16
}

/// The little-endian word at the zero-page location `p`; its high byte
/// comes from `p + 1` wrapped within page zero.
pub open spec fn zero_page_word(mem: Seq<u8>, p: u8) -> u16 {
    (mem[p as int] as int + 256 * mem[((p as int + 1) % 256)] as int) as u16
}

/// `mem` with the word `w` stored at `addr`, low byte first.
pub open spec fn with_word(mem: Seq<u8>, addr: u16, w: u16) -> Seq<u8>
    recommends
        addr < 0xFFFF,
{
    mem.update(addr as int, (w % 256) as u8).update(addr as int + 1, (w / 256) as u8)
}

/// The effective address of an operand under `mode`, where `m.pc` is the
/// first byte after the opcode.
pub open spec fn operand_address(m: Machine, mode: AddressingMode) -> u16 {
    let b = byte_at(m.mem, m.pc);
    match mode {
        AddressingMode::Immediate => m.pc,
        AddressingMode::ZeroPage => b as u16,
        AddressingMode::ZeroPage_X => ((b as int + m.x as int) % 256) as u16,
        AddressingMode::ZeroPage_Y => ((b as int + m.y as int) % 256) as u16,
        AddressingMode::Absolute => word_at(m.mem, m.pc),
        AddressingMode::Absolute_X => ((word_at(m.mem, m.pc) as int + m.x as int)
            % 0x10000) as u16,
        AddressingMode::Absolute_Y => ((word_at(m.mem, m.pc) as int + m.y as int)
            % 0x10000) as u16,
        AddressingMode::Indirect_X => zero_page_word(m.mem, ((b as int + m.x as int) % 256) as u8),
        AddressingMode::Indirect_Y => ((zero_page_word(m.mem, b) as int + m.y as int)
            % 0x10000) as u16,
        AddressingMode::NoneAddressing => 0,
    }
}

/// How many operand bytes follow the opcode under `mode`.
pub open spec fn width_of(mode: AddressingMode) -> u16 {
    match mode {
        AddressingMode::NoneAddressing => 0,
        AddressingMode::Absolute | AddressingMode::Absolute_X | AddressingMode::Absolute_Y => 2,
        _ => 1,
    }
}

/// The dispatch table: the operation and addressing mode of each opcode.
pub open spec fn decoded(opcode: u8) -> Option<(Operation, AddressingMode)> {
    match opcode {
        0x00 => Some((Operation::Brk, AddressingMode::NoneAddressing)),
        0xA9 => Some((Operation::Lda, AddressingMode::Immediate)),
        0xA5 => Some((Operation::Lda, AddressingMode::ZeroPage)),
        0xAD => Some((Operation::Lda, AddressingMode::Absolute)),
        0xAA => Some((Operation::Tax, AddressingMode::NoneAddressing)),
        0xE8 => Some((Operation::Inx, AddressingMode::NoneAddressing)),
        _ => None,
    }
}

/// `m` with the accumulator loaded from the operand.
pub open spec fn after_lda(m: Machine, mode: AddressingMode) -> Machine {
    let v = byte_at(m.mem, operand_address(m, mode));
    Machine { a: v, status: flags_after(m.status, v), ..m }
}

/// `m` with the accumulator stored at the operand.
pub open spec fn after_sta(m: Machine, mode: AddressingMode) -> Machine {
    Machine { mem: m.mem.update(operand_address(m, mode) as int, m.a), ..m }
}

/// `m` with the accumulator copied to X.
pub open spec fn after_tax(m: Machine) -> Machine {
    Machine { x: m.a, status: flags_after(m.status, m.a), ..m }
}

/// `m` with X incremented, wrapping at 256.
pub open spec fn after_inx(m: Machine) -> Machine {
    let v = ((m.x as int + 1) % 256) as u8;
    Machine { x: v, status: flags_after(m.status, v), ..m }
}

/// An immediate load of `v` leaves `v` in the accumulator, sets Zero exactly
/// when `v` is zero and Negative exactly when `v >= 0x80`, and keeps every
/// other flag.
pub proof fn lemma_immediate_load_flags(m: Machine)
    ensures
        after_lda(m, AddressingMode::Immediate).a == byte_at(m.mem, m.pc),
        zero_set(after_lda(m, AddressingMode::Immediate).status) == (byte_at(m.mem, m.pc) == 0),
        negative_set(after_lda(m, AddressingMode::Immediate).status) == (byte_at(m.mem, m.pc)
            >= 0x80),
        after_lda(m, AddressingMode::Immediate).status & 0b0111_1101 == m.status & 0b0111_1101,
{
    lemma_flags_after(m.status, byte_at(m.mem, m.pc));
}

/// What one step of execution does from `m`.
pub enum Step {
    /// A halt opcode was executed; the machine stops in this state.
    Halt(Machine),
    /// An instruction was executed; the machine goes on from this state.
    Next(Machine),
    /// The step failed; the machine stays as it was.
    Fault(CpuError),
}

/// One fetch-decode-execute step from `m`.
pub open spec fn step(m: Machine) -> Step {
    let opcode = byte_at(m.mem, m.pc);
    match decoded(opcode) {
        None => Step::Fault(CpuError::UnimplementedOpcode { opcode, program_counter: m.pc }),
        Some((operation, mode)) => {
            let w = width_of(mode);
            if m.pc as int + 1 + w as int > 0xFFFF {
                Step::Fault(CpuError::ProgramCounterOverflow { program_counter: m.pc })
            } else {
                let n = Machine { pc: (m.pc + 1) as u16, ..m };
                let done = match operation {
                    Operation::Brk => n,
                    Operation::Lda => after_lda(n, mode),
                    Operation::Tax => after_tax(n),
                    Operation::Inx => after_inx(n),
                };
                if operation == Operation::Brk {
                    Step::Halt(done)
                } else {
                    Step::Next(Machine { pc: (m.pc + 1 + w) as u16, ..done })
                }
            }
        },
    }
}

/// Every executed instruction that does not halt moves the program counter
/// forward, past its opcode and operand bytes.
pub proof fn lemma_step_advances(m: Machine)
    ensures
        step(m) is Next ==> step(m)->Next_0.pc > m.pc,
{
}

/// Zero-page indexed addressing stays in page zero, whatever the operand byte
/// and the index registers hold.
pub proof fn lemma_zero_page_indexed_in_page_zero(m: Machine)
    ensures
        operand_address(m, AddressingMode::ZeroPage_X) <= 0x00FF,
        operand_address(m, AddressingMode::ZeroPage_Y) <= 0x00FF,
{
}

/// No run, however it ends, writes memory, changes Y, or touches a flag
/// other than Zero and Negative.
pub proof fn lemma_run_keeps_memory_and_flags(m: Machine)
    ensures
        run_from(m).0.mem == m.mem,
        run_from(m).0.y == m.y,
        run_from(m).0.status & 0b0111_1101 == m.status & 0b0111_1101,
    decreases 0x10000 - m.pc as int,
{
    let opcode = byte_at(m.mem, m.pc);
    let n1 = Machine { pc: (m.pc + 1) as u16, ..m };
    lemma_flags_after(m.status, byte_at(m.mem, operand_address(n1, AddressingMode::Immediate)));
    lemma_flags_after(m.status, byte_at(m.mem, operand_address(n1, AddressingMode::ZeroPage)));
    lemma_flags_after(m.status, byte_at(m.mem, operand_address(n1, AddressingMode::Absolute)));
    lemma_flags_after(m.status, m.a);
    lemma_flags_after(m.status, ((m.x as int + 1) % 256) as u8);
    match step(m) {
        Step::Next(n) => {
            if n.pc > m.pc {
                lemma_run_keeps_memory_and_flags(n);
            }
        },
        _ => {},
    }
}

/// The state and outcome of running from `m` until a halt or a fault. The
/// last branch is never taken (see `lemma_step_advances`); it only makes the
/// recursion's termination evident.
pub open spec fn run_from(m: Machine) -> (Machine, Result<(), CpuError>)
    decreases 0x10000 - m.pc as int,
{
    match step(m) {
        Step::Halt(n) => (n, Ok(())),
        Step::Fault(e) => (m, Err(e)),
        Step::Next(n) => if n.pc > m.pc {
            run_from(n)
        } else {
            (n, Ok(()))
        },
    }
}


/// A 6502-class CPU over a flat 64KiB memory.
pub struct CPU {
    pub register_a: u8,
    pub register_x: u8,
    pub register_y: u8,
    pub status: u8,
    /// Position of the next byte to execute.
    pub program_counter: u16,
    pub memory: FlatMemory,
}

impl View for CPU {
    type V = Machine;

    open spec fn view(&self) -> Machine {
        Machine {
            a: self.register_a,
            x: self.register_x,
            y: self.register_y,
            status: self.status,
            pc: self.program_counter,
            mem: self.ram(),
        }
    }
}

/// The address space after `program` is loaded into `mem`: the program's
/// bytes from `PROGRAM_BASE` on, then `PROGRAM_BASE` little-endian at the
/// reset vector.
pub open spec fn loaded(mem: Seq<u8>, program: Seq<u8>) -> Seq<u8> {
    with_word(
        Seq::new(
            mem.len(),
            |i: int|
                if PROGRAM_BASE <= i < PROGRAM_BASE + program.len() {
                    program[i - PROGRAM_BASE]
                } else {
                    mem[i]
                },
        ),
        RESET_VECTOR,
        PROGRAM_BASE,
    )
}

impl CPU {
    /// The 64KiB address space.
    pub open spec fn ram(&self) -> Seq<u8> {
        self.memory@
    }

    pub open spec fn wf(&self) -> bool {
        self.ram().len() == MEMORY_SIZE
    }

    /// A CPU with every register, flag and byte of memory zero.
    pub fn new() -> (c: Self)
        ensures
            c.wf(),
            c.register_a == 0,
            c.register_x == 0,
            c.register_y == 0,
            c.status == 0,
            c.program_counter == 0,
            forall|i: int| 0 <= i < MEMORY_SIZE ==> #[trigger] c.ram()[i] == 0,
    {
        let memory = FlatMemory::new();
        CPU { register_a: 0, register_x: 0, register_y: 0, status: 0, program_counter: 0, memory }
    }

    pub fn mem_read(&self, addr: u16) -> (r: u8)
        requires
            self.wf(),
        ensures
            r == byte_at(self@.mem, addr),
    {
        self.memory.read(addr)
    }

    pub fn mem_write(&mut self, addr: u16, data: u8)
        requires
            old(self).wf(),
        ensures
            final(self)@ == (Machine { mem: old(self)@.mem.update(addr as int, data), ..old(self)@ }),
            final(self).wf(),
    {
        self.memory.write(addr, data);
    }

    /// Reads the little-endian word at `pos`: low byte at `pos`, high byte at
    /// `pos + 1`.
    pub fn mem_read_u16(&self, pos: u16) -> (r: u16)
        requires
            self.wf(),
            pos < 0xFFFF,
        ensures
            r == word_at(self@.mem, pos),
    {
        let lo = self.mem_read(pos);
        let hi = self.mem_read(pos + 1);
        join_bytes(lo, hi)
    }

    /// Writes the word `data` at `pos`, low byte first.
    pub fn mem_write_u16(&mut self, pos: u16, data: u16)
        requires
            old(self).wf(),
            pos < 0xFFFF,
        ensures
            final(self)@ == (Machine { mem: with_word(old(self)@.mem, pos, data), ..old(self)@ }),
            final(self).wf(),
    {
        let hi = (data >> 8) as u8;
        let lo = (data & 0xff) as u8;
        assert(hi == (data / 256) as u8 && lo == (data % 256) as u8) by (bit_vector)
            requires
                hi == (data >> 8) as u8,
                lo == (data & 0xff) as u8,
        ;
        self.mem_write(pos, lo);
        self.mem_write(pos + 1, hi);
    }

    /// Zeroes the registers and flags and starts at the address kept in the
    /// reset vector.
    pub fn reset(&mut self)
        requires
            old(self).wf(),
        ensures
            final(self).wf(),
            final(self)@ == after_reset(old(self)@),
    {
        self.register_a = 0;
        self.register_x = 0;
        self.register_y = 0;
        self.status = 0;
        self.program_counter = self.mem_read_u16(RESET_VECTOR);
    }

    /// Copies `program` into the ROM window from `PROGRAM_BASE` on and writes
    /// `PROGRAM_BASE` into the reset vector.
    pub fn load(&mut self, program: Vec<u8>)
        requires
            old(self).wf(),
            program@.len() <= 0x8000,
        ensures
            final(self).wf(),
            final(self)@ == (Machine { mem: loaded(old(self)@.mem, program@), ..old(self)@ }),
    {
        let ghost start = self@;
        let n: usize = program.len();
        let mut i: usize = 0;
        while i < n
            invariant
                self.wf(),
                n == program@.len(),
                n <= 0x8000,
                i <= n,
                self@ == (Machine { mem: self@.mem, ..start }),
                forall|j: int|
                    0 <= j < MEMORY_SIZE ==> #[trigger] self@.mem[j] == if PROGRAM_BASE <= j
                        < PROGRAM_BASE + i {
                        program@[j - PROGRAM_BASE]
                    } else {
                        start.mem[j]
                    },
            decreases n - i,
        {
            self.mem_write(PROGRAM_BASE + i as u16, program[i]);
            i = i + 1;
        }
        let ghost copied = self@.mem;
        assert(copied =~= Seq::new(
            start.mem.len(),
            |j: int|
                if PROGRAM_BASE <= j < PROGRAM_BASE + program@.len() {
                    program@[j - PROGRAM_BASE]
                } else {
                    start.mem[j]
                },
        ));
        self.mem_write_u16(RESET_VECTOR, PROGRAM_BASE);
    }

    /// Loads `program`, resets, and runs until a halt or a fault.
    pub fn load_and_run(&mut self, program: Vec<u8>) -> (r: Result<(), CpuError>)
        requires
            old(self).wf(),
            program@.len() <= 0x8000,
        ensures
            final(self).wf(),
            (final(self)@, r) == run_from(
                after_reset(Machine { mem: loaded(old(self)@.mem, program@), ..old(self)@ }),
            ),
    {
        self.load(program);
        self.reset();
        self.run()
    }

    /// The effective address of the operand under `mode`, whose bytes start
    /// at the program counter.
    #[verifier::rlimit(40)]
    pub fn get_operand_address(&self, mode: &AddressingMode) -> (r: u16)
        requires
            self.wf(),
            *mode != AddressingMode::NoneAddressing,
            width_of(*mode) == 2 ==> self.program_counter < 0xFFFF,
        ensures
            r == operand_address(self@, *mode),
            *mode == AddressingMode::ZeroPage_X || *mode == AddressingMode::ZeroPage_Y ==> r
                <= 0x00FF,
    {
        match mode {
            AddressingMode::Immediate => self.program_counter,
            AddressingMode::ZeroPage => self.mem_read(self.program_counter) as u16,
            AddressingMode::Absolute => self.mem_read_u16(self.program_counter),
            AddressingMode::ZeroPage_X => {
                let pos = self.mem_read(self.program_counter);
                pos.wrapping_add(self.register_x) as u16
            },
            AddressingMode::ZeroPage_Y => {
                let pos = self.mem_read(self.program_counter);
                pos.wrapping_add(self.register_y) as u16
            },
            AddressingMode::Absolute_X => {
                let base = self.mem_read_u16(self.program_counter);
                base.wrapping_add(self.register_x as u16)
            },
            AddressingMode::Absolute_Y => {
                let base = self.mem_read_u16(self.program_counter);
                base.wrapping_add(self.register_y as u16)
            },
            AddressingMode::Indirect_X => {
                let base = self.mem_read(self.program_counter);
                let ptr: u8 = base.wrapping_add(self.register_x);
                let lo = self.mem_read(ptr as u16);
                let hi = self.mem_read(ptr.wrapping_add(1) as u16);
                join_bytes(lo, hi)
            },
            AddressingMode::Indirect_Y => {
                let base = self.mem_read(self.program_counter);
                let lo = self.mem_read(base as u16);
                let hi = self.mem_read(base.wrapping_add(1) as u16);
                let deref_base = join_bytes(lo, hi);
                deref_base.wrapping_add(self.register_y as u16)
            },
            AddressingMode::NoneAddressing => unreached(),
        }
    }

    /// LDA: loads the operand into the accumulator.
    pub fn lda(&mut self, mode: &AddressingMode)
        requires
            old(self).wf(),
            *mode != AddressingMode::NoneAddressing,
            width_of(*mode) == 2 ==> old(self).program_counter < 0xFFFF,
        ensures
            final(self).wf(),
            final(self)@ == after_lda(old(self)@, *mode),
    {
        let addr = self.get_operand_address(mode);
        let value = self.mem_read(addr);
        self.register_a = value;
        self.update_zero_and_negative_flags(self.register_a);
    }

    /// STA: stores the accumulator at the operand's address.
    pub fn sta(&mut self, mode: &AddressingMode)
        requires
            old(self).wf(),
            *mode != AddressingMode::NoneAddressing,
            width_of(*mode) == 2 ==> old(self).program_counter < 0xFFFF,
        ensures
            final(self).wf(),
            final(self)@ == after_sta(old(self)@, *mode),
    {
        let addr = self.get_operand_address(mode);
        self.mem_write(addr, self.register_a);
    }

    /// TAX: copies the accumulator into X.
    pub fn tax(&mut self)
        requires
            old(self).wf(),
        ensures
            final(self).wf(),
            final(self)@ == after_tax(old(self)@),
    {
        self.register_x = self.register_a;
        self.update_zero_and_negative_flags(self.register_x);
    }

    /// INX: adds one to X, wrapping at 256.
    pub fn inx(&mut self)
        requires
            old(self).wf(),
        ensures
            final(self).wf(),
            final(self)@ == after_inx(old(self)@),
    {
        self.register_x = self.register_x.wrapping_add(1);
        self.update_zero_and_negative_flags(self.register_x);
    }

    /// Sets Zero when `result` is zero and Negative when its bit 7 is set,
    /// and clears each otherwise.
    pub fn update_zero_and_negative_flags(&mut self, result: u8)
        requires
            old(self).wf(),
        ensures
            final(self).wf(),
            final(self)@ == (Machine { status: flags_after(old(self).status, result), ..old(self)@ }),
    {
        let s0 = self.status;
        let z: u8 = if result == 0 {
            2
        } else {
            0
        };
        if result == 0 {
            self.status = self.status | 0b0000_0010;
        } else {
            self.status = self.status & 0b1111_1101;
        }
        let s1 = self.status;
        if result & 0b1000_0000 != 0 {
            self.status = self.status | 0b1000_0000;
        } else {
            self.status = self.status & 0b0111_1111;
        }
        let s2 = self.status;
        assert(s2 == (s0 & 0x7D) | z | (result & 0x80)) by (bit_vector)
            requires
                z == (if result == 0 {
                    2u8
                } else {
                    0u8
                }),
                s1 == (if result == 0 {
                    s0 | 2
                } else {
                    s0 & 0xFD
                }),
                s2 == (if result & 0x80 != 0 {
                    s1 | 0x80
                } else {
                    s1 & 0x7F
                }),
        ;
    }

    /// Runs from the program counter until a halt opcode, or until an opcode
    /// that the dispatch table lacks or an instruction that would run past the
    /// end of the address space, which stop the run with an error.
    pub fn run(&mut self) -> (r: Result<(), CpuError>)
        requires
            old(self).wf(),
        ensures
            final(self).wf(),
            (final(self)@, r) == run_from(old(self)@),
    {
        loop
            invariant
                self.wf(),
                run_from(self@) == run_from(old(self)@),
            decreases 0x10000 - self.program_counter as int,
        {
            let pc = self.program_counter;
            let opcode = self.mem_read(pc);
            match decode(opcode) {
                None => {
                    assert(step(self@) == Step::Fault(
                        CpuError::UnimplementedOpcode { opcode, program_counter: pc },
                    ));
                    assert(run_from(self@) == (
                    self@,
                    Err::<(), CpuError>(
                        CpuError::UnimplementedOpcode { opcode, program_counter: pc },
                    ),
                    ));
                    return Err(CpuError::UnimplementedOpcode { opcode, program_counter: pc });
                },
                Some((operation, mode)) => {
                    let width = operand_width(mode);
                    if pc >= 0xFFFF - width {
                        assert(step(self@) == Step::Fault(
                            CpuError::ProgramCounterOverflow { program_counter: pc },
                        ));
                        return Err(CpuError::ProgramCounterOverflow { program_counter: pc });
                    }
                    let ghost m = self@;
                    self.program_counter = pc + 1;
                    match operation {
                        Operation::Brk => {
                            assert(step(m) == Step::Halt(self@));
                            assert(run_from(m) == (self@, Ok::<(), CpuError>(())));
                            return Ok(());
                        },
                        Operation::Lda => self.lda(&mode),
                        Operation::Tax => self.tax(),
                        Operation::Inx => self.inx(),
                    }
                    self.program_counter = self.program_counter + width;
                    assert(step(m) == Step::Next(self@));
                },
            }
        }
    }
}


/// `m` after a reset: registers and flags zero, the program counter taken
/// from the reset vector.
pub open spec fn after_reset(m: Machine) -> Machine {
    Machine { a: 0, x: 0, y: 0, status: 0, pc: word_at(m.mem, RESET_VECTOR), ..m }
}

/// Looks `opcode` up in the dispatch table.
pub fn decode(opcode: u8) -> (r: Option<(Operation, AddressingMode)>)
    ensures
        r == decoded(opcode),
{
    match opcode {
        0x00 => Some((Operation::Brk, AddressingMode::NoneAddressing)),
        0xA9 => Some((Operation::Lda, AddressingMode::Immediate)),
        0xA5 => Some((Operation::Lda, AddressingMode::ZeroPage)),
        0xAD => Some((Operation::Lda, AddressingMode::Absolute)),
        0xAA => Some((Operation::Tax, AddressingMode::NoneAddressing)),
        0xE8 => Some((Operation::Inx, AddressingMode::NoneAddressing)),
        _ => None,
    }
}

/// How many operand bytes follow the opcode under `mode`.
pub fn operand_width(mode: AddressingMode) -> (r: u16)
    ensures
        r == width_of(mode),
{
    match mode {
        AddressingMode::NoneAddressing => 0,
        AddressingMode::Absolute | AddressingMode::Absolute_X | AddressingMode::Absolute_Y => 2,
        _ => 1,
    }
}

/// A word written at `pos` of the flat memory reads back unchanged.
pub proof fn lemma_flat_word_round_trip(mem: Seq<u8>, pos: u16, w: u16)
    requires
        mem.len() == MEMORY_SIZE,
        pos < 0xFFFF,
    ensures
        word_at(with_word(mem, pos, w), pos) == w,
{
    let m2 = with_word(mem, pos, w);
    assert(m2[pos as int] == (w % 256) as u8);
    assert(m2[pos as int + 1] == (w / 256) as u8);
}

} // verus!
