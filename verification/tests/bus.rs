//! A console's bus: VRAM that takes the $2007 writes, under the stepper.

use v2c02::bus::{FnVram, VramBus};
use v2c02::fast::Fast;
use v2c02::{DOTS_PER_LINE, LINES};

struct Ciram {
    mem: Vec<u8>,
    reads: usize,
}

impl VramBus for Ciram {
    fn peek(&self, a: u16) -> u8 {
        self.mem[a as usize & 0x3fff]
    }
    fn after_read(&self, _a: u16) -> Ciram {
        Ciram { mem: self.mem.clone(), reads: self.reads + 1 }
    }
    fn written(&self, a: u16, v: u8) -> Ciram {
        let mut mem = self.mem.clone();
        mem[a as usize & 0x3fff] = v;
        Ciram { mem, reads: self.reads }
    }
    fn read(&mut self, a: u16) -> u8 {
        self.reads += 1;
        self.mem[a as usize & 0x3fff]
    }
    fn write(&mut self, a: u16, v: u8) {
        self.mem[a as usize & 0x3fff] = v;
    }
}

#[test]
fn on_a_console_bus_vram_writes_land_and_read_back_through_the_buffer() {
    let bus = Ciram { mem: vec![0; 0x4000], reads: 0 };
    let mut f = Fast::with_table_on_bus(vec![0u16; LINES * DOTS_PER_LINE], bus, [0u8; 32]);
    f.write(6, 0x20);
    f.write(6, 0x10);
    for b in [0xde, 0xad, 0xbe] {
        f.write(7, b);
    }
    assert_eq!(f.vram_writes, vec![(0x2010, 0xde), (0x2011, 0xad), (0x2012, 0xbe)]);
    f.write(6, 0x20);
    f.write(6, 0x10);
    let _stale = f.read(7);
    assert_eq!([f.read(7), f.read(7)], [0xde, 0xad]);
}

#[test]
fn a_pure_world_drops_writes_but_records_them() {
    let mut f = Fast::with_table(vec![0u16; LINES * DOTS_PER_LINE], |a: u16| (a & 0xff) as u8, [0u8; 32]);
    f.write(6, 0x21);
    f.write(6, 0x05);
    f.write(7, 0x99);
    assert_eq!(f.vram_writes, vec![(0x2105, 0x99)]);
    f.write(6, 0x21);
    f.write(6, 0x05);
    let _stale = f.read(7);
    assert_eq!(f.read(7), 0x05, "the world still answers its function");
    let mut w = FnVram::from_fn(|a: u16| (a >> 8) as u8);
    assert_eq!(w.read(0x3412), 0x34);
    w.write(0x3412, 0);
    assert_eq!(w.read(0x3412), 0x34);
}
