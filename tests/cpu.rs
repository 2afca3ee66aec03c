use nes_cpu::cpu::{decode, operand_width, AddressingMode, CpuError, Operation, CPU};

#[test]
fn test_0xa9_lda_immidiate_load_data() {
    let mut cpu = CPU::new();
    // LDA 0x05
    // BRK
    assert_eq!(cpu.load_and_run(vec![0xa9, 0x05, 0x00]), Ok(()));
    assert_eq!(cpu.register_a, 0x05);
    assert!(cpu.status & 0b0000_0010 == 0b00);
    assert!(cpu.status & 0b1000_0000 == 0);
}

#[test]
fn test_0xa9_lda_zero_flag() {
    let mut cpu = CPU::new();
    // LDA 0x00
    // BRK
    assert_eq!(cpu.load_and_run(vec![0xa9, 0x00, 0x00]), Ok(()));
    assert!(cpu.status & 0b0000_0010 == 0b10);
}

#[test]
fn test_0xaa_tax_move_a_to_x() {
    let mut cpu = CPU::new();
    // reset zeroes the accumulator, so it is set between reset and run
    cpu.load(vec![0xaa, 0x00]);
    cpu.reset();
    cpu.register_a = 10;
    assert_eq!(cpu.run(), Ok(()));
    assert_eq!(cpu.register_x, 10);
}

#[test]
fn test_5_ops_working_together() {
    let mut cpu = CPU::new();
    assert_eq!(cpu.load_and_run(vec![0xa9, 0xc0, 0xaa, 0xe8, 0x00]), Ok(()));

    assert_eq!(cpu.register_x, 0xc1)
}

#[test]
fn test_inx_overflow() {
    let mut cpu = CPU::new();
    assert_eq!(cpu.load_and_run(vec![0xa9, 0xff, 0xaa, 0xe8, 0xe8, 0x00]), Ok(()));

    assert_eq!(cpu.register_x, 1)
}

#[test]
fn test_lda_from_memory() {
    let mut cpu = CPU::new();
    cpu.mem_write(0x10, 0x55);

    assert_eq!(cpu.load_and_run(vec![0xa5, 0x10, 0x00]), Ok(()));

    assert_eq!(cpu.register_a, 0x55);
}

#[test]
fn lda_immediate_sets_flags_for_every_byte() {
    for v in 0..=255u8 {
        let mut cpu = CPU::new();
        cpu.load(vec![0xa9, v, 0x00]);
        cpu.reset();
        cpu.status = 0b0110_1101;
        assert_eq!(cpu.run(), Ok(()));
        assert_eq!(cpu.register_a, v);
        assert_eq!(cpu.status & 0b0000_0010 != 0, v == 0);
        assert_eq!(cpu.status & 0b1000_0000 != 0, v >= 0x80);
        assert_eq!(cpu.status & 0b0111_1101, 0b0110_1101);
    }
}

#[test]
fn lda_negative_flag() {
    let mut cpu = CPU::new();
    assert_eq!(cpu.load_and_run(vec![0xa9, 0x80, 0x00]), Ok(()));
    assert_eq!(cpu.status, 0b1000_0000);
}

#[test]
fn load_writes_program_and_reset_vector() {
    let mut cpu = CPU::new();
    cpu.load(vec![0x11, 0x22, 0x33]);
    assert_eq!(cpu.mem_read(0x8000), 0x11);
    assert_eq!(cpu.mem_read(0x8002), 0x33);
    assert_eq!(cpu.mem_read(0x8003), 0x00);
    assert_eq!(cpu.mem_read(0xfffc), 0x00);
    assert_eq!(cpu.mem_read(0xfffd), 0x80);
    assert_eq!(cpu.mem_read_u16(0xfffc), 0x8000);
}

#[test]
fn reset_zeroes_registers_and_reads_vector() {
    let mut cpu = CPU::new();
    cpu.mem_write_u16(0xfffc, 0x1234);
    cpu.register_a = 1;
    cpu.register_x = 2;
    cpu.register_y = 3;
    cpu.status = 0xff;
    cpu.reset();
    assert_eq!(cpu.register_a, 0);
    assert_eq!(cpu.register_x, 0);
    assert_eq!(cpu.register_y, 0);
    assert_eq!(cpu.status, 0);
    assert_eq!(cpu.program_counter, 0x1234);
}

#[test]
fn flat_word_round_trip() {
    let mut cpu = CPU::new();
    cpu.mem_write_u16(0x1000, 0xbeef);
    assert_eq!(cpu.mem_read(0x1000), 0xef);
    assert_eq!(cpu.mem_read(0x1001), 0xbe);
    assert_eq!(cpu.mem_read_u16(0x1000), 0xbeef);
    cpu.mem_write_u16(0xfffe, 0x0102);
    assert_eq!(cpu.mem_read_u16(0xfffe), 0x0102);
}

#[test]
fn unimplemented_opcode_is_reported() {
    let mut cpu = CPU::new();
    assert_eq!(
        cpu.load_and_run(vec![0xa9, 0x01, 0xff, 0x00]),
        Err(CpuError::UnimplementedOpcode { opcode: 0xff, program_counter: 0x8002 })
    );
    assert_eq!(cpu.register_a, 1);
    assert_eq!(cpu.program_counter, 0x8002);
}

#[test]
fn running_off_the_end_is_reported() {
    let mut cpu = CPU::new();
    cpu.mem_write(0xfffe, 0xe8);
    cpu.mem_write(0xffff, 0xe8);
    cpu.program_counter = 0xfffe;
    assert_eq!(cpu.run(), Err(CpuError::ProgramCounterOverflow { program_counter: 0xffff }));
    assert_eq!(cpu.register_x, 1);

    let mut cpu = CPU::new();
    cpu.mem_write(0xfffe, 0xad);
    cpu.program_counter = 0xfffe;
    assert_eq!(cpu.run(), Err(CpuError::ProgramCounterOverflow { program_counter: 0xfffe }));
}

#[test]
fn sta_stores_accumulator() {
    let mut cpu = CPU::new();
    cpu.mem_write(0x0600, 0x20);
    cpu.program_counter = 0x0600;
    cpu.register_a = 0x42;
    cpu.status = 0b0100_0001;
    cpu.sta(&AddressingMode::ZeroPage);
    assert_eq!(cpu.mem_read(0x20), 0x42);
    assert_eq!(cpu.status, 0b0100_0001);
    assert_eq!(cpu.program_counter, 0x0600);
}

#[test]
fn opcodes_outside_the_table_stop_the_run() {
    for op in [0x85u8, 0x8d, 0xa1, 0xb1, 0xb5, 0xea] {
        let mut cpu = CPU::new();
        assert_eq!(
            cpu.load_and_run(vec![op, 0x10, 0x00]),
            Err(CpuError::UnimplementedOpcode { opcode: op, program_counter: 0x8000 })
        );
        assert_eq!(cpu.mem_read(0x10), 0);
        assert_eq!(cpu.program_counter, 0x8000);
    }
}

#[test]
fn lda_absolute() {
    let mut cpu = CPU::new();
    cpu.mem_write(0x1234, 0x77);
    assert_eq!(cpu.load_and_run(vec![0xad, 0x34, 0x12, 0x00]), Ok(()));
    assert_eq!(cpu.register_a, 0x77);
    assert_eq!(cpu.program_counter, 0x8004);
}

fn cpu_at_operand(operand: &[u8], x: u8, y: u8) -> CPU {
    let mut cpu = CPU::new();
    for (i, b) in operand.iter().enumerate() {
        cpu.mem_write(0x0600 + i as u16, *b);
    }
    cpu.program_counter = 0x0600;
    cpu.register_x = x;
    cpu.register_y = y;
    cpu
}

#[test]
fn resolve_immediate_and_zero_page() {
    let cpu = cpu_at_operand(&[0x80], 0, 0);
    assert_eq!(cpu.get_operand_address(&AddressingMode::Immediate), 0x0600);
    assert_eq!(cpu.get_operand_address(&AddressingMode::ZeroPage), 0x0080);
}

#[test]
fn resolve_zero_page_indexed_wraps_in_page_zero() {
    for b in 0..=255u8 {
        for r in [0u8, 1, 0x7f, 0x80, 0xff] {
            let cpu = cpu_at_operand(&[b], r, r);
            let x = cpu.get_operand_address(&AddressingMode::ZeroPage_X);
            let y = cpu.get_operand_address(&AddressingMode::ZeroPage_Y);
            assert!(x <= 0x00ff);
            assert!(y <= 0x00ff);
            assert_eq!(x, b.wrapping_add(r) as u16);
        }
    }
    let cpu = cpu_at_operand(&[0xf0], 0x20, 0x11);
    assert_eq!(cpu.get_operand_address(&AddressingMode::ZeroPage_X), 0x0010);
    assert_eq!(cpu.get_operand_address(&AddressingMode::ZeroPage_Y), 0x0001);
}

#[test]
fn resolve_absolute_forms() {
    let cpu = cpu_at_operand(&[0xf0, 0x12], 0x20, 0x05);
    assert_eq!(cpu.get_operand_address(&AddressingMode::Absolute), 0x12f0);
    assert_eq!(cpu.get_operand_address(&AddressingMode::Absolute_X), 0x1310);
    assert_eq!(cpu.get_operand_address(&AddressingMode::Absolute_Y), 0x12f5);
    let cpu = cpu_at_operand(&[0xff, 0xff], 0x02, 0x01);
    assert_eq!(cpu.get_operand_address(&AddressingMode::Absolute_X), 0x0001);
    assert_eq!(cpu.get_operand_address(&AddressingMode::Absolute_Y), 0x0000);
}

#[test]
fn resolve_indirect_x() {
    let mut cpu = cpu_at_operand(&[0x20], 0x04, 0);
    cpu.mem_write(0x24, 0x74);
    cpu.mem_write(0x25, 0x20);
    assert_eq!(cpu.get_operand_address(&AddressingMode::Indirect_X), 0x2074);
    // pointer and its high byte both wrap within page zero
    let mut cpu = cpu_at_operand(&[0xfe], 0x01, 0);
    cpu.mem_write(0xff, 0x34);
    cpu.mem_write(0x00, 0x12);
    cpu.mem_write(0x100, 0x99);
    assert_eq!(cpu.get_operand_address(&AddressingMode::Indirect_X), 0x1234);
}

#[test]
fn resolve_indirect_y() {
    let mut cpu = cpu_at_operand(&[0x86], 0, 0x10);
    cpu.mem_write(0x86, 0x28);
    cpu.mem_write(0x87, 0x40);
    assert_eq!(cpu.get_operand_address(&AddressingMode::Indirect_Y), 0x4038);
    let mut cpu = cpu_at_operand(&[0xff], 0, 0x01);
    cpu.mem_write(0xff, 0xff);
    cpu.mem_write(0x00, 0xff);
    assert_eq!(cpu.get_operand_address(&AddressingMode::Indirect_Y), 0x0000);
}

#[test]
fn lda_indirect_x_direct() {
    let mut cpu = cpu_at_operand(&[0x20], 0x04, 0);
    cpu.mem_write(0x24, 0x00);
    cpu.mem_write(0x25, 0x03);
    cpu.mem_write(0x0300, 0x5a);
    cpu.lda(&AddressingMode::Indirect_X);
    assert_eq!(cpu.register_a, 0x5a);
    assert_eq!(cpu.status, 0);
}

#[test]
fn decode_table() {
    assert_eq!(decode(0x00), Some((Operation::Brk, AddressingMode::NoneAddressing)));
    assert_eq!(decode(0xa9), Some((Operation::Lda, AddressingMode::Immediate)));
    assert_eq!(decode(0xa5), Some((Operation::Lda, AddressingMode::ZeroPage)));
    assert_eq!(decode(0xad), Some((Operation::Lda, AddressingMode::Absolute)));
    assert_eq!(decode(0xb1), None);
    assert_eq!(decode(0x8d), None);
    assert_eq!(decode(0xaa), Some((Operation::Tax, AddressingMode::NoneAddressing)));
    assert_eq!(decode(0xe8), Some((Operation::Inx, AddressingMode::NoneAddressing)));
    assert_eq!(decode(0x02), None);
    assert_eq!(operand_width(AddressingMode::NoneAddressing), 0);
    assert_eq!(operand_width(AddressingMode::Indirect_X), 1);
    assert_eq!(operand_width(AddressingMode::Absolute_Y), 2);
}

#[test]
fn inx_and_tax_set_flags() {
    let mut cpu = CPU::new();
    cpu.register_x = 0xff;
    cpu.inx();
    assert_eq!(cpu.register_x, 0);
    assert_eq!(cpu.status, 0b0000_0010);
    cpu.register_a = 0x90;
    cpu.tax();
    assert_eq!(cpu.register_x, 0x90);
    assert_eq!(cpu.status, 0b1000_0000);
}
