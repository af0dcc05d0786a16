use chip8::instruction::{Instruction, Operation};

fn instruction(opcode: u16) -> Instruction {
    Instruction::new((opcode >> 8) as u8, (opcode & 0xFF) as u8)
}

#[test]
fn new_pairs_the_bytes_big_endian() {
    assert_eq!(Instruction::new(0x12, 0x34).opcode(), 0x1234);
    assert_eq!(Instruction::new(0x00, 0xE0).opcode(), 0x00E0);
    assert_eq!(Instruction::new(0xFF, 0x00).opcode(), 0xFF00);
    assert_eq!(Instruction::new(0x00, 0xFF).opcode(), 0x00FF);
}

#[test]
fn fields_of_a_draw_instruction() {
    let inst = instruction(0xD123);
    assert_eq!(inst.indicator(), 0xD);
    assert_eq!(inst.x(), 0x1);
    assert_eq!(inst.y(), 0x2);
    assert_eq!(inst.n(), 0x3);
    assert_eq!(inst.nn(), 0x23);
    assert_eq!(inst.nnn(), 0x123);
}

#[test]
fn fields_are_bit_fields_of_every_opcode() {
    let mut op: u32 = 0;
    while op <= 0xFFFF {
        let word: u16 = op as u16;
        let inst = instruction(word);
        assert_eq!(inst.opcode(), word);
        assert_eq!(inst.indicator() as u16, (word >> 12) & 0xF);
        assert_eq!(inst.x() as u16, (word >> 8) & 0xF);
        assert_eq!(inst.y() as u16, (word >> 4) & 0xF);
        assert_eq!(inst.n() as u16, word & 0xF);
        assert_eq!(inst.nn() as u16, word & 0xFF);
        assert_eq!(inst.nnn(), word & 0xFFF);
        op += 1;
    }
}

#[test]
fn no_field_exceeds_its_width() {
    let inst = instruction(0xFFFF);
    assert_eq!(inst.indicator(), 15);
    assert_eq!(inst.x(), 15);
    assert_eq!(inst.y(), 15);
    assert_eq!(inst.n(), 15);
    assert_eq!(inst.nn(), 255);
    assert_eq!(inst.nnn(), 4095);
}

#[test]
fn decode_follows_the_dispatch_table() {
    assert_eq!(instruction(0x00E0).decode(), Operation::ClearScreen);
    assert_eq!(instruction(0x1ABC).decode(), Operation::Jump { nnn: 0xABC });
    assert_eq!(instruction(0x3A05).decode(), Operation::SkipIfEqual { x: 0xA, nn: 0x05 });
    assert_eq!(instruction(0x4B06).decode(), Operation::SkipIfNotEqual { x: 0xB, nn: 0x06 });
    assert_eq!(instruction(0x6C7F).decode(), Operation::LoadImmediate { x: 0xC, nn: 0x7F });
    assert_eq!(instruction(0x7D01).decode(), Operation::AddImmediate { x: 0xD, nn: 0x01 });
    assert_eq!(instruction(0x8E10).decode(), Operation::CopyRegister { x: 0xE, y: 0x1 });
    assert_eq!(instruction(0xA230).decode(), Operation::LoadIndex { nnn: 0x230 });
    assert_eq!(instruction(0xD01F).decode(), Operation::DrawSprite { x: 0, y: 1, n: 15 });
}

#[test]
fn register_copy_ignores_the_low_nibble() {
    assert_eq!(instruction(0x8124).decode(), Operation::CopyRegister { x: 1, y: 2 });
    assert_eq!(instruction(0x812E).decode(), Operation::CopyRegister { x: 1, y: 2 });
}

#[test]
fn class_zero_is_known_only_as_clear_screen() {
    assert_eq!(instruction(0x0000).decode(), Operation::Unknown { opcode: 0x0000 });
    assert_eq!(instruction(0x00E1).decode(), Operation::Unknown { opcode: 0x00E1 });
    assert_eq!(instruction(0x00EE).decode(), Operation::Unknown { opcode: 0x00EE });
    assert_eq!(instruction(0x0123).decode(), Operation::Unknown { opcode: 0x0123 });
}

#[test]
fn classes_outside_the_table_are_unknown() {
    let words: [u16; 7] = [0x2123, 0x5000, 0x9AB0, 0xB123, 0xC0FF, 0xE19E, 0xF107];
    for word in words {
        assert_eq!(instruction(word).decode(), Operation::Unknown { opcode: word });
    }
}
