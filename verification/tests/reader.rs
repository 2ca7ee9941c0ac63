use client_hello_sni::reader::SliceReader;

#[test]
fn reader_reads_in_order() {
    let bytes = [1u8, 2, 3, 4, 5];
    let mut reader = SliceReader::new(&bytes);
    assert_eq!(reader.position(), 0);
    assert_eq!(reader.available(), 5);
    assert_eq!(reader.read(2), vec![1, 2]);
    assert_eq!(reader.position(), 2);
    assert_eq!(reader.read(0), Vec::<u8>::new());
    assert_eq!(reader.read(2), vec![3, 4]);
    assert_eq!(reader.available(), 1);
}

#[test]
fn reader_gives_what_is_left_at_the_end() {
    let bytes = [1u8, 2, 3];
    let mut reader = SliceReader::new(&bytes);
    assert_eq!(reader.read(10), vec![1, 2, 3]);
    assert_eq!(reader.position(), 3);
    assert_eq!(reader.read(1), Vec::<u8>::new());
    assert_eq!(reader.read(u64::MAX), Vec::<u8>::new());
    assert_eq!(reader.position(), 3);
}

#[test]
fn reader_skips_and_counts() {
    let bytes = [9u8; 40];
    let mut reader = SliceReader::new(&bytes);
    assert_eq!(reader.skip(34), 34);
    assert_eq!(reader.position(), 34);
    assert_eq!(reader.skip(0), 0);
    assert_eq!(reader.skip(34), 6);
    assert_eq!(reader.position(), 40);
    assert_eq!(reader.skip(u64::MAX), 0);
    assert_eq!(reader.available(), 0);
}

#[test]
fn reader_over_nothing() {
    let mut reader = SliceReader::new(&[]);
    assert_eq!(reader.available(), 0);
    assert_eq!(reader.read(3), Vec::<u8>::new());
    assert_eq!(reader.skip(3), 0);
    assert_eq!(reader.position(), 0);
}
