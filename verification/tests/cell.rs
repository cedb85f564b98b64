use dice_trials::cell::ReadWhileWriting;

#[test]
fn a_new_cell_reads_its_initial_value() {
    let cell = ReadWhileWriting::new(5);
    assert_eq!(cell.read(), 5);
}

#[test]
fn the_default_cell_holds_zero() {
    let cell = ReadWhileWriting::default();
    assert_eq!(cell.read(), 0);
}

#[test]
fn a_write_replaces_the_whole_value() {
    let mut cell = ReadWhileWriting::new(0);
    cell.write(41);
    assert_eq!(cell.read(), 41);
    cell.write(7);
    assert_eq!(cell.read(), 7);
}

#[test]
fn every_read_is_a_value_that_was_written() {
    let written = [3u64, 9, 27, 81];
    let mut cell = ReadWhileWriting::new(1);
    let mut seen = vec![cell.read()];
    for w in written {
        cell.write(w);
        seen.push(cell.read());
    }
    for value in seen {
        assert!(value == 1 || written.contains(&value));
    }
}

#[test]
fn a_reader_observes_the_writers_stores() {
    let mut cell = ReadWhileWriting::new(0);
    let reader = cell.reader();
    assert_eq!(reader.read(), 0);
    cell.write(123);
    assert_eq!(reader.read(), 123);
    cell.write(456);
    assert_eq!(reader.read(), 456);
}
