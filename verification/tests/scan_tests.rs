use sothis::codec::FormatError;
use sothis::scan::resolve_stride;
use sothis::scan::resolve_terminal;
use sothis::scan::ScanError;
use sothis::scan::StateChangeList;
use sothis::scan::StateScan;
use sothis::scan::StorageSlot;

fn slot(hex: &str) -> StorageSlot {
    StorageSlot::from_hex(hex).unwrap()
}

fn new_scan(origin: u64, terminal: u64, stride: u64) -> Result<StateScan, ScanError> {
    StateScan::new(String::from("0xdead"), slot("0x1"), origin, terminal, stride)
}

#[test]
fn rejects_inverted_range() {
    assert_eq!(new_scan(5, 5, 1).err(), Some(ScanError::Configuration));
    assert_eq!(new_scan(6, 5, 1).err(), Some(ScanError::Configuration));
    assert_eq!(new_scan(u64::MAX, 0, 1).err(), Some(ScanError::Configuration));
    assert!(new_scan(0, 1, 1).is_ok());
}

// Drives a scan over the given per-block values, mimicking the outer loop:
// query the offered block, record what came back.
fn drive(scan: &mut StateScan, values: &[&str]) -> Vec<u64> {
    let mut queried = Vec::new();
    let mut i = 0;
    while let Some(block) = scan.next_query() {
        assert!(i < values.len(), "more queries than supplied values");
        queried.push(block);
        scan.record(String::from(values[i]));
        i += 1;
    }
    queried
}

#[test]
fn deduplicates_consecutive_values() {
    // Values observed at blocks 100..106: v, v, v, w, w, x.
    let mut scan = new_scan(100, 106, 1).unwrap();
    let queried = drive(&mut scan, &["v", "v", "v", "w", "w", "x"]);
    assert_eq!(queried, vec![100, 101, 102, 103, 104, 105]);
    let list: StateChangeList = scan.finish();
    let changes: Vec<(u64, &str)> = list
        .state_changes
        .iter()
        .map(|c| (c.block_number, c.value.as_str()))
        .collect();
    assert_eq!(changes, vec![(100, "v"), (103, "w"), (105, "x")]);
}

#[test]
fn strides_over_the_range() {
    // Stride 5 over [0, 21): exactly five queries, at 0, 5, 10, 15, 20.
    let mut scan = new_scan(0, 21, 5).unwrap();
    let queried = drive(&mut scan, &["a", "b", "c", "d", "e"]);
    assert_eq!(queried, vec![0, 5, 10, 15, 20]);
    assert_eq!(scan.finish().state_changes.len(), 5);
}

#[test]
fn stride_longer_than_range_samples_once() {
    let mut scan = new_scan(3, 10, 100).unwrap();
    let queried = drive(&mut scan, &["a"]);
    assert_eq!(queried, vec![3]);
}

#[test]
fn interrupt_bounds_extra_queries_to_one() {
    // Ten blocks are planned; the signal arrives while the 4th query is in
    // flight. The loop checks the flag only at iteration boundaries, so the
    // 4th completes and is recorded, and no further query is issued.
    let values = ["a", "b", "c", "d", "e", "f", "g", "h", "i", "j"];
    let mut scan = new_scan(0, 10, 1).unwrap();
    let mut interrupted = false;
    let mut queried = Vec::new();
    let mut i = 0;
    loop {
        if interrupted {
            scan.interrupt();
        }
        let block = match scan.next_query() {
            Some(b) => b,
            None => break,
        };
        queried.push(block);
        if queried.len() == 4 {
            // The operator's interrupt lands mid-query: this query still
            // finishes and its value is still recorded.
            interrupted = true;
        }
        scan.record(String::from(values[i]));
        i += 1;
    }
    assert_eq!(queried, vec![0, 1, 2, 3]);
    let list = scan.finish();
    assert_eq!(list.state_changes.len(), 4);
    assert_eq!(list.state_changes.last().unwrap().block_number, 3);
}

#[test]
fn interrupt_before_first_query_flushes_empty_list() {
    let mut scan = new_scan(0, 10, 1).unwrap();
    scan.interrupt();
    assert_eq!(scan.next_query(), None);
    let list = scan.finish();
    assert_eq!(list.address, "0xdead");
    assert!(list.state_changes.is_empty());
}

#[test]
fn advance_saturates_at_the_largest_block() {
    // One sample near the top of the block range: the advance past it cannot
    // wrap around, so the scan still terminates.
    let mut scan = new_scan(u64::MAX - 1, u64::MAX, u64::MAX).unwrap();
    let queried = drive(&mut scan, &["a"]);
    assert_eq!(queried, vec![u64::MAX - 1]);
    assert_eq!(scan.finish().state_changes.len(), 1);
}

#[test]
fn transport_error_aborts_without_flush() {
    // The 4th of ten queries fails in transit: the scan returns the error at
    // once and the output hand-off never happens.
    fn run(flushed: &mut Option<StateChangeList>) -> Result<(), ScanError> {
        let mut scan = new_scan(0, 10, 1).unwrap();
        let mut n = 0;
        while let Some(_block) = scan.next_query() {
            n += 1;
            if n == 4 {
                return Err(ScanError::Transport(String::from("connection reset")));
            }
            scan.record(format!("v{}", n));
        }
        *flushed = Some(scan.finish());
        Ok(())
    }
    let mut flushed = None;
    let r = run(&mut flushed);
    assert_eq!(r, Err(ScanError::Transport(String::from("connection reset"))));
    assert!(flushed.is_none());
}

#[test]
fn resolves_terminal_to_head_only_when_absent() {
    assert_eq!(resolve_terminal(Some(5), 99), 5);
    assert_eq!(resolve_terminal(None, 99), 99);
}

#[test]
fn resolves_stride_default() {
    assert_eq!(resolve_stride(None), 1);
    assert_eq!(resolve_stride(Some(7)), 7);
}

#[test]
fn accepts_canonical_slots() {
    assert_eq!(slot("0x0").as_hex(), "0x0");
    assert_eq!(slot("0x1").as_hex(), "0x1");
    assert_eq!(slot("0xdeadbeef").as_hex(), "0xdeadbeef");
    let max = format!("0x{}", "f".repeat(64));
    assert_eq!(slot(&max).as_hex(), max.as_str());
}

#[test]
fn rejects_malformed_slots() {
    assert_eq!(StorageSlot::from_hex("").err(), Some(FormatError::Malformed));
    assert_eq!(StorageSlot::from_hex("0x").err(), Some(FormatError::Malformed));
    assert_eq!(StorageSlot::from_hex("0X1").err(), Some(FormatError::Malformed));
    assert_eq!(StorageSlot::from_hex("0x01").err(), Some(FormatError::Malformed));
    assert_eq!(StorageSlot::from_hex("0xAB").err(), Some(FormatError::Malformed));
    assert_eq!(StorageSlot::from_hex("1").err(), Some(FormatError::Malformed));
    let too_long = format!("0x1{}", "f".repeat(64));
    assert_eq!(StorageSlot::from_hex(&too_long).err(), Some(FormatError::Malformed));
}
