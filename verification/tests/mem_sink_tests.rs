use hoya::mem::check_region;
use hoya::mem::read_region;
use hoya::mem::write_region;
use hoya::sink::OutputBuffers;
use hoya::sink::StreamKind;

#[test]
fn read_region_in_bounds() {
    let mem = vec![1u8, 2, 3, 4, 5];
    assert_eq!(read_region(&mem, 1, 3).unwrap(), vec![2u8, 3, 4]);
    assert_eq!(read_region(&mem, 0, 5).unwrap(), mem);
    assert_eq!(read_region(&mem, 5, 0).unwrap(), Vec::<u8>::new());
}

#[test]
fn read_region_out_of_bounds() {
    let mem = vec![1u8, 2, 3];
    assert!(read_region(&mem, 1, 3).is_none());
    assert!(read_region(&mem, 4, 0).is_none());
}

#[test]
fn region_overflow_is_rejected_not_wrapped() {
    // offset + length overflows the 32-bit address width; the sum must not
    // wrap around into an accepted small region.
    let mem = vec![0u8; 16];
    assert!(!check_region(&mem, u32::MAX, 2));
    assert!(read_region(&mem, u32::MAX, 2).is_none());
    assert!(!check_region(&mem, u32::MAX, u32::MAX));
}

#[test]
fn write_region_replaces_exactly() {
    let mut mem = vec![9u8; 8];
    assert!(write_region(&mut mem, 2, &vec![1u8, 2, 3]));
    assert_eq!(mem, vec![9u8, 9, 1, 2, 3, 9, 9, 9]);
}

#[test]
fn write_region_failure_leaves_memory_untouched() {
    let mut mem = vec![7u8; 4];
    assert!(!write_region(&mut mem, 3, &vec![1u8, 2]));
    assert_eq!(mem, vec![7u8; 4]);
    assert!(!write_region(&mut mem, u32::MAX, &vec![1u8]));
    assert_eq!(mem, vec![7u8; 4]);
}

#[test]
fn sink_preserves_line_order() {
    // The captured stream holds the lines in call order.
    let mut bufs = OutputBuffers::new();
    bufs.write(StreamKind::Stdout, &b"first".to_vec());
    bufs.write(StreamKind::Stdout, &b"second".to_vec());
    bufs.write(StreamKind::Stdout, &b"third".to_vec());
    assert_eq!(bufs.snapshot(StreamKind::Stdout), b"first\nsecond\nthird\n".to_vec());
}

#[test]
fn sink_streams_are_independent() {
    let mut bufs = OutputBuffers::new();
    bufs.write(StreamKind::Stdout, &b"out".to_vec());
    bufs.write(StreamKind::Stderr, &b"err".to_vec());
    assert_eq!(bufs.snapshot(StreamKind::Stdout), b"out\n".to_vec());
    assert_eq!(bufs.snapshot(StreamKind::Stderr), b"err\n".to_vec());
}

#[test]
fn snapshot_does_not_clear() {
    let mut bufs = OutputBuffers::new();
    bufs.write(StreamKind::Stdout, &b"kept".to_vec());
    let first = bufs.snapshot(StreamKind::Stdout);
    let second = bufs.snapshot(StreamKind::Stdout);
    assert_eq!(first, second);
}

#[test]
fn snapshot_string_decodes_utf8() {
    let mut bufs = OutputBuffers::new();
    bufs.write(StreamKind::Stdout, &"héllo".as_bytes().to_vec());
    assert_eq!(bufs.snapshot_string(StreamKind::Stdout).unwrap(), "héllo\n");
    assert_eq!(bufs.snapshot_string(StreamKind::Stderr).unwrap(), "");
}
