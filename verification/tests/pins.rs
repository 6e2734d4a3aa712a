//! The pins: bus values from node levels and back, the CPU access's pin
//! actions per edge, and the CHR bus's edges.

use v2c02::pins::{access_edge, access_schedule, bits_of, bus_value, ChrBus, ChrEdges, PinAction};

#[test]
fn a_bus_value_reads_node_i_as_bit_i() {
    assert_eq!(bus_value(&[]), 0);
    assert_eq!(bus_value(&[true]), 1);
    assert_eq!(bus_value(&[false, true, true]), 6);
    let vpos_241 = [true, false, false, false, true, true, true, true, false];
    assert_eq!(bus_value(&vpos_241), 241);
    assert_eq!(bus_value(&[true; 32]), u32::MAX);
}

#[test]
fn levels_drive_the_low_bits_and_read_back() {
    assert_eq!(bits_of(0b1011, 4), vec![true, true, false, true]);
    assert_eq!(bits_of(0xff, 3), vec![true, true, true]);
    assert!(bits_of(5, 0).is_empty());
    let wide = bits_of(u32::MAX, 34);
    assert!(wide[..32].iter().all(|&b| b));
    assert_eq!(&wide[32..], &[false, false], "nodes past bit 31 are driven low");
    for val in [0u32, 1, 0x3f, 0x1234, 0xdead_beef] {
        for n in [0usize, 3, 8, 14, 32] {
            let back = bus_value(&bits_of(val, n));
            let mask = if n == 32 { u32::MAX } else { (1u32 << n) - 1 };
            assert_eq!(back, val & mask, "{val:#x} over {n} nodes");
        }
    }
}

#[test]
fn a_write_access_drives_address_data_and_rw_then_enables_and_releases() {
    assert_eq!(
        access_edge(false, 6, 0x3f, 24),
        vec![PinAction::DriveRegister(6), PinAction::DriveData(0x3f), PinAction::DriveRw(false)]
    );
    assert_eq!(access_edge(false, 6, 0x3f, 16), vec![PinAction::DriveCe(false)]);
    assert_eq!(access_edge(false, 6, 0x3f, 1), vec![PinAction::DriveCe(true)]);
    for counter in (2..=23).filter(|&c| c != 16) {
        assert!(access_edge(false, 6, 0x3f, counter).is_empty(), "edge {counter}");
    }
}

#[test]
fn a_read_access_floats_the_data_and_samples_it_at_the_last_edge() {
    assert_eq!(
        access_edge(true, 2, 0x99, 24),
        vec![PinAction::DriveRegister(2), PinAction::FloatData, PinAction::DriveRw(true)]
    );
    assert_eq!(access_edge(true, 2, 0, 1), vec![PinAction::SampleData, PinAction::DriveCe(true)]);
    assert!(access_edge(true, 2, 0, 25).is_empty());
    assert!(access_edge(true, 2, 0, 0).is_empty());
}

#[test]
fn the_chr_bus_reacts_to_edges_only() {
    let mut bus = ChrBus::new(false, true, true);
    let none = ChrEdges { latch: false, drive: false, float: false, capture: false };
    assert_eq!(bus.edges(false, true, true), none);
    assert_eq!(bus.edges(true, true, true), ChrEdges { latch: true, ..none });
    bus.latch(0x5234);
    assert_eq!(bus.served_address(), 0x1234);
    assert_eq!(bus.edges(true, true, true), none, "a high ALE latches once");
    assert_eq!(bus.edges(false, false, true), ChrEdges { drive: true, ..none });
    assert_eq!(bus.edges(false, true, false), ChrEdges { float: true, ..none });
    assert_eq!(bus.edges(false, true, true), ChrEdges { capture: true, ..none });
    assert_eq!(bus, ChrBus { ale: false, rd: true, wr: true, addr: 0x5234 });
}

#[test]
fn an_access_is_its_24_edges_counted_down() {

    let s = access_schedule(true, 2, 0);
    assert_eq!(s.len(), 24);
    for (k, edge) in s.iter().enumerate() {
        assert_eq!(edge, &access_edge(true, 2, 0, 24 - k as u32), "edge {}", 24 - k);
    }
    assert_eq!(s[23], vec![PinAction::SampleData, PinAction::DriveCe(true)]);
}
