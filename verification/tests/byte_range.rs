use entertainarr::byte_range::{range_header_value, RangeBound, ReadWindow};

const FILE_SIZE: u64 = 64_657_027;

fn read_all(range: (RangeBound, RangeBound), size: u64, chunk: usize) -> u64 {
    let mut w = ReadWindow::new(range, size);
    let mut total: u64 = 0;
    while !w.is_done() {
        let n = w.next_request(chunk);
        assert!(n > 0);
        w.advance(n);
        total += n as u64;
    }
    assert_eq!(w.next_request(chunk), 0);
    total
}

#[test]
fn whole_file_window() {
    assert_eq!(read_all((RangeBound::Unbounded, RangeBound::Unbounded), FILE_SIZE, 8192), 64_657_027);
}

#[test]
fn window_from_start_offset_to_end() {
    assert_eq!(read_all((RangeBound::Included(4_000_000), RangeBound::Unbounded), FILE_SIZE, 8192), 60_657_027);
}

#[test]
fn window_up_to_included_end() {
    assert_eq!(read_all((RangeBound::Unbounded, RangeBound::Included(4_000_000)), FILE_SIZE, 8192), 4_000_000);
}

#[test]
fn window_in_the_middle() {
    assert_eq!(
        read_all((RangeBound::Included(2_000_000), RangeBound::Excluded(4_000_001)), FILE_SIZE, 8192),
        2_000_000
    );
}

#[test]
fn window_positions() {
    let w = ReadWindow::new((RangeBound::Excluded(9), RangeBound::Excluded(20)), 100);
    assert_eq!(w.position(), 10);
    assert_eq!(w.next_request(1000), 9);
    assert_eq!(w.next_request(4), 4);
    let w = ReadWindow::new((RangeBound::Included(50), RangeBound::Included(10)), 100);
    assert!(w.is_done());
    assert_eq!(w.next_request(10), 0);
    assert_eq!(read_all((RangeBound::Included(3), RangeBound::Unbounded), 10, 3), 7);
}

#[test]
fn range_headers() {
    assert_eq!(range_header_value((RangeBound::Included(1), RangeBound::Included(5))), "bytes=1-5");
    assert_eq!(range_header_value((RangeBound::Included(1), RangeBound::Excluded(5))), "bytes=1-4");
    assert_eq!(range_header_value((RangeBound::Included(10), RangeBound::Unbounded)), "bytes=10-");
    assert_eq!(range_header_value((RangeBound::Unbounded, RangeBound::Included(5))), "bytes=0-5");
    assert_eq!(range_header_value((RangeBound::Unbounded, RangeBound::Excluded(5))), "bytes=0-4");
    assert_eq!(range_header_value((RangeBound::Unbounded, RangeBound::Unbounded)), "bytes=0-");
    assert_eq!(range_header_value((RangeBound::Excluded(0), RangeBound::Included(9))), "bytes=1-9");
    assert_eq!(range_header_value((RangeBound::Excluded(0), RangeBound::Excluded(9))), "bytes=1-8");
    assert_eq!(range_header_value((RangeBound::Excluded(99), RangeBound::Unbounded)), "bytes=100-");
    assert_eq!(
        range_header_value((RangeBound::Included(0), RangeBound::Included(u64::MAX))),
        "bytes=0-18446744073709551615"
    );
}

#[test]
fn an_unbounded_start_reads_from_the_first_byte() {
    let w = ReadWindow::new((RangeBound::Unbounded, RangeBound::Included(4_000_000)), 64_657_027);
    assert_eq!(w.position(), 0);
    assert!(range_header_value((RangeBound::Unbounded, RangeBound::Included(4_000_000))).starts_with("bytes=0-"));
    assert_eq!(
        range_header_value((RangeBound::Unbounded, RangeBound::Unbounded)),
        range_header_value((RangeBound::Included(0), RangeBound::Unbounded))
    );
}
