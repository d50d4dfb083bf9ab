use chip8::memory::Memory;
use chip8::Fault;

#[test]
fn memory_seeds_glyphs_and_zeroes() {
    let m = Memory::new();
    // the glyph bitmap for digit 0 sits at addresses 0-4
    assert_eq!(m.read_byte(0), 0xf0);
    assert_eq!(m.read_byte(1), 0x90);
    assert_eq!(m.read_byte(4), 0xf0);
    // the glyph bitmap for digit F ends at address 79
    assert_eq!(m.read_byte(75), 0xf0);
    assert_eq!(m.read_byte(79), 0x80);
    // everything above the glyph data starts zeroed
    assert_eq!(m.read_byte(80), 0x00);
    assert_eq!(m.read_byte(0x200), 0x00);
    assert_eq!(m.read_byte(4095), 0x00);
}

#[test]
fn memory_read_write_round_trip() {
    let mut m = Memory::new();
    m.write_byte(0x300, 0xab);
    assert_eq!(m.read_byte(0x300), 0xab);
    assert_eq!(m.read_byte(0x2ff), 0x00);
    assert_eq!(m.read_byte(0x301), 0x00);
}

#[test]
fn memory_load_copies_and_checks_bounds() {
    let mut m = Memory::new();
    let data = vec![1u8, 2, 3, 4];
    assert_eq!(m.load(0x200, data.as_slice()), Ok(()));
    assert_eq!(m.read_byte(0x200), 1);
    assert_eq!(m.read_byte(0x203), 4);

    // a load that ends exactly at the capacity is accepted
    assert_eq!(m.load(4092, data.as_slice()), Ok(()));
    assert_eq!(m.read_byte(4095), 4);

    // one byte further is refused whole
    assert_eq!(m.load(4093, data.as_slice()), Err(Fault::MemoryBoundsFault));
    assert_eq!(m.read_byte(4095), 4);
}

#[test]
fn memory_dump_renders_rows() {
    let m = Memory::new();
    let lines = m.dump();
    assert_eq!(lines.len(), 258);
    assert_eq!(lines[0], "---- MEM dump ----");
    assert_eq!(
        lines[1],
        "0x0000: 0xf0 0x90 0x90 0x90 0xf0 0x20 0x60 0x20 0x20 0x70 0xf0 0x10 0xf0 0x80 0xf0 0xf0 "
    );
    assert_eq!(
        lines[33],
        "0x0200: 0x00 0x00 0x00 0x00 0x00 0x00 0x00 0x00 0x00 0x00 0x00 0x00 0x00 0x00 0x00 0x00 "
    );
    assert_eq!(lines[257], "------------------");
}
