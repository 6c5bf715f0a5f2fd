use bootstub::e820::{encode_region, E820Entry, E820Info};
use bootstub::start;
use bootstub::vga::{make_vgaentry, Color};

fn blob(entries: &[E820Entry]) -> Vec<u8> {
    let mut data = vec![entries.len() as u8, 0, 0, 0];
    for e in entries {
        data.extend(encode_region(e));
    }
    data
}

#[test]
fn empty_table_is_none_immediately() {
    let mut reader = E820Info::new(vec![0, 0, 0, 0]);
    assert!(reader.next().is_none());
    assert!(reader.next().is_none());
}

#[test]
fn three_regions_in_order_then_terminal_none() {
    let regions = [
        E820Entry { base: 0, length: 0x9FC00, typ: 1, attr: 0 },
        E820Entry { base: 0x9FC00, length: 0x400, typ: 2, attr: 1 },
        E820Entry { base: 0x100000, length: 0x7EE0000, typ: 1, attr: 0 },
    ];
    let mut reader = E820Info::new(blob(&regions));
    for expected in &regions {
        assert_eq!(reader.next(), Some(*expected));
    }
    assert_eq!(reader.next(), None);
    assert_eq!(reader.next(), None);
}

#[test]
fn round_trip_through_the_reader() {
    let region = E820Entry { base: 0x100000, length: 0x1000, typ: 1, attr: 0 };
    let mut reader = E820Info::new(blob(&[region]));
    assert_eq!(reader.next(), Some(region));
    assert_eq!(reader.next(), None);
}

#[test]
fn encoding_is_packed_little_endian() {
    let region = E820Entry {
        base: 0x0807060504030201,
        length: 0x1817161514131211,
        typ: 0x24232221,
        attr: 0x34333231,
    };
    let bytes = encode_region(&region);
    assert_eq!(
        bytes,
        vec![
            0x01, 0x02, 0x03, 0x04, 0x05, 0x06, 0x07, 0x08, // base
            0x11, 0x12, 0x13, 0x14, 0x15, 0x16, 0x17, 0x18, // length
            0x21, 0x22, 0x23, 0x24, // type
            0x31, 0x32, 0x33, 0x34, // attributes
        ]
    );
}

#[test]
fn start_marks_one_cell_per_region() {
    let regions = [
        E820Entry { base: 0, length: 0x1000, typ: 1, attr: 0 },
        E820Entry { base: 0x1000, length: 0x2000, typ: 2, attr: 0 },
    ];
    let console = start(blob(&regions));
    assert_eq!(console.cursor_x(), 2);
    assert_eq!(console.cursor_y(), 0);
    let mark = make_vgaentry('A', Color::White, Color::DarkGray);
    assert_eq!(console.read_cell(0, 0), mark);
    assert_eq!(console.read_cell(1, 0), mark);
    assert_eq!(console.read_cell(2, 0), make_vgaentry('\0', Color::White, Color::DarkGray));
}
