use slcan::line::{LineAccumulator, MAX_LINE};

fn push_all(acc: &mut LineAccumulator, bytes: &[u8]) -> Vec<Vec<u8>> {
    bytes.iter().filter_map(|b| acc.push(*b)).collect()
}

#[test]
fn a_line_is_handed_on_at_its_terminator() {
    let mut acc = LineAccumulator::new();
    for byte in b"hello" {
        assert_eq!(acc.push(*byte), None);
    }
    assert_eq!(acc.push(b'\r'), Some(b"hello".to_vec()));
}

#[test]
fn the_terminator_is_not_part_of_the_line() {
    let mut acc = LineAccumulator::new();
    assert_eq!(push_all(&mut acc, b"t1230\rt4560\x07"), vec![b"t1230".to_vec(), b"t4560".to_vec()]);
}

#[test]
fn lines_shorter_than_a_command_are_not_handed_on() {
    let mut acc = LineAccumulator::new();
    assert_eq!(push_all(&mut acc, b"\r\x07a\rab\rabc\rabcd\r"), Vec::<Vec<u8>>::new());
    assert_eq!(push_all(&mut acc, b"abcde\r"), vec![b"abcde".to_vec()]);
}

#[test]
fn a_line_as_long_as_the_buffer_is_handed_on() {
    let mut acc = LineAccumulator::new();
    let line = vec![b'x'; MAX_LINE];
    assert_eq!(push_all(&mut acc, &line), Vec::<Vec<u8>>::new());
    assert_eq!(acc.push(b'\r'), Some(line));
}

#[test]
fn a_line_longer_than_the_buffer_is_dropped_whole() {
    let mut acc = LineAccumulator::new();
    let line = vec![b'x'; MAX_LINE + 1];
    assert_eq!(push_all(&mut acc, &line), Vec::<Vec<u8>>::new());
    assert_eq!(acc.push(b'\r'), None);
    assert_eq!(push_all(&mut acc, b"after\r"), vec![b"after".to_vec()]);
}

#[test]
fn a_dropped_line_leaves_nothing_behind() {
    let mut acc = LineAccumulator::new();
    let line = vec![b'x'; 5 * MAX_LINE];
    assert_eq!(push_all(&mut acc, &line), Vec::<Vec<u8>>::new());
    assert_eq!(acc.push(0x07), None);
    assert_eq!(push_all(&mut acc, b"ab\r"), Vec::<Vec<u8>>::new());
    assert_eq!(push_all(&mut acc, b"abcdef\r"), vec![b"abcdef".to_vec()]);
}

#[test]
fn a_short_line_leaves_nothing_behind() {
    let mut acc = LineAccumulator::new();
    assert_eq!(push_all(&mut acc, b"abcd\r"), Vec::<Vec<u8>>::new());
    assert_eq!(push_all(&mut acc, b"e\r"), Vec::<Vec<u8>>::new());
    assert_eq!(push_all(&mut acc, b"vwxyz\r"), vec![b"vwxyz".to_vec()]);
}
