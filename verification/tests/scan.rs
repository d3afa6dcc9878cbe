use ghci::{clear_blocking_reader_until, Scan, ScanBuffer, SCAN_LIMIT};
use std::io::{Error, ErrorKind};

fn more(next: Scan) -> ScanBuffer {
    match next {
        Scan::More(rest) => rest,
        Scan::Done(result) => panic!("the scan ended with {:?}", result),
    }
}

fn done(next: Scan) -> Result<(), Error> {
    match next {
        Scan::More(rest) => panic!("the scan goes on after {:?}", rest.as_slice()),
        Scan::Done(result) => result,
    }
}

#[test]
fn new_buffer_is_empty_and_has_all_its_room() {
    let scan = ScanBuffer::new();
    assert_eq!(scan.as_slice(), b"");
    assert_eq!(scan.spare(), 1024);
    assert_eq!(SCAN_LIMIT, 1024);
}

#[test]
fn scan_ends_when_the_read_ends_with_the_pattern() {
    let next = clear_blocking_reader_until(ScanBuffer::new(), Ok(b"GHCi, version 9\nghci> "), b"> ");
    assert!(done(next).is_ok());
}

#[test]
fn scan_goes_on_until_the_pattern_is_at_the_end() {
    let scan = more(clear_blocking_reader_until(ScanBuffer::new(), Ok(b"GHCi, ver"), b"> "));
    assert_eq!(scan.as_slice(), b"GHCi, ver");
    assert_eq!(scan.spare(), 1024 - 9);
    let scan = more(clear_blocking_reader_until(scan, Ok(b"sion 9\n"), b"> "));
    assert_eq!(scan.as_slice(), b"GHCi, version 9\n");
    let next = clear_blocking_reader_until(scan, Ok(b"ghci> "), b"> ");
    assert!(done(next).is_ok());
}

#[test]
fn scan_finds_a_pattern_split_over_two_reads() {
    let scan = more(clear_blocking_reader_until(ScanBuffer::new(), Ok(b"ghci>"), b"> "));
    let next = clear_blocking_reader_until(scan, Ok(b" "), b"> ");
    assert!(done(next).is_ok());
}

#[test]
fn scan_misses_a_pattern_that_is_not_at_the_end_of_a_read() {
    let scan = more(clear_blocking_reader_until(ScanBuffer::new(), Ok(b"ghci> x"), b"> "));
    assert_eq!(scan.as_slice(), b"ghci> x");
}

#[test]
fn scan_ends_on_a_read_that_brings_nothing() {
    let scan = more(clear_blocking_reader_until(ScanBuffer::new(), Ok(b"abc"), b"> "));
    let next = clear_blocking_reader_until(scan, Ok(b""), b"> ");
    assert!(done(next).is_ok());
}

#[test]
fn scan_tries_again_after_an_interrupted_read() {
    let scan = more(clear_blocking_reader_until(ScanBuffer::new(), Ok(b"abc"), b"> "));
    let scan = more(clear_blocking_reader_until(
        scan,
        Err(Error::from(ErrorKind::Interrupted)),
        b"> ",
    ));
    assert_eq!(scan.as_slice(), b"abc");
}

#[test]
fn scan_ends_with_the_error_of_a_failed_read() {
    let next = clear_blocking_reader_until(
        ScanBuffer::new(),
        Err(Error::from(ErrorKind::BrokenPipe)),
        b"> ",
    );
    let error = done(next).unwrap_err();
    assert_eq!(error.kind(), ErrorKind::BrokenPipe);
}

#[test]
fn scan_treats_invalid_input_as_a_failure() {
    let next = clear_blocking_reader_until(
        ScanBuffer::new(),
        Err(Error::from(ErrorKind::InvalidInput)),
        b"> ",
    );
    assert_eq!(done(next).unwrap_err().kind(), ErrorKind::InvalidInput);
}

#[test]
fn scan_with_an_empty_pattern_ends_after_any_read() {
    let next = clear_blocking_reader_until(ScanBuffer::new(), Ok(b"x"), b"");
    assert!(done(next).is_ok());
}

#[test]
fn full_buffer_ends_the_scan() {
    let filler = [b'x'; 1024];
    let scan = more(clear_blocking_reader_until(ScanBuffer::new(), Ok(&filler), b"> "));
    assert_eq!(scan.spare(), 0);
    assert_eq!(scan.as_slice().len(), 1024);
    let next = clear_blocking_reader_until(scan, Ok(b"> "), b"> ");
    assert!(done(next).is_ok());
}

#[test]
fn scan_looks_at_no_more_than_the_room_left() {
    let filler = [b'x'; 1020];
    let scan = more(clear_blocking_reader_until(ScanBuffer::new(), Ok(&filler), b"> "));
    assert_eq!(scan.spare(), 4);
    let scan = more(clear_blocking_reader_until(scan, Ok(b"abcdef> "), b"> "));
    assert_eq!(scan.spare(), 0);
    assert_eq!(&scan.as_slice()[1020..], b"abcd");
}

#[test]
fn pattern_at_the_very_end_of_the_buffer_is_found() {
    let filler = [b'x'; 1022];
    let scan = more(clear_blocking_reader_until(ScanBuffer::new(), Ok(&filler), b"> "));
    let next = clear_blocking_reader_until(scan, Ok(b"> "), b"> ");
    assert!(done(next).is_ok());
}
