use metrics::profile::Profiler;
use metrics::profile::TimeBlock;
use metrics::profile::TimeRecord;

#[test]
fn single_zone_single_entry() {
    let mut p = Profiler::new(16);
    let block = TimeBlock::new(&mut p, "alone", 0, 0, 100);
    block.close(&mut p, 175);
    let rec = p.records[0].unwrap();
    assert_eq!(rec.label, "alone");
    assert_eq!(rec.elapsed_exclusive, 75);
    assert_eq!(rec.elapsed_inclusive, 75);
    assert_eq!(rec.hit_count, 1);
    assert_eq!(rec.byte_count, 0);
    assert_eq!(p.current, None);
}

#[test]
fn unnested_zone_sums_its_entries() {
    // A single unnested zone entered three times: exclusive == inclusive ==
    // the sum of the three durations.
    let mut p = Profiler::new(16);
    let b1 = TimeBlock::new(&mut p, "work", 3, 0, 0);
    b1.close(&mut p, 10);
    let b2 = TimeBlock::new(&mut p, "work", 3, 0, 50);
    b2.close(&mut p, 75);
    let b3 = TimeBlock::new(&mut p, "work", 3, 0, 100);
    b3.close(&mut p, 107);
    let rec = p.records[3].unwrap();
    assert_eq!(rec.elapsed_exclusive, 10 + 25 + 7);
    assert_eq!(rec.elapsed_inclusive, 10 + 25 + 7);
    assert_eq!(rec.hit_count, 3);
}

#[test]
fn parent_child_attribution() {
    // A wraps B: A's exclusive excludes B's span, A's inclusive includes it,
    // and exclusive(A) == inclusive(A) - inclusive(B).
    let mut p = Profiler::new(8);
    let a = TimeBlock::new(&mut p, "parent", 0, 0, 1000);
    let b = TimeBlock::new(&mut p, "child", 1, 0, 1200);
    b.close(&mut p, 1700);
    a.close(&mut p, 2000);
    let ra = p.records[0].unwrap();
    let rb = p.records[1].unwrap();
    assert_eq!(ra.elapsed_inclusive, 1000);
    assert_eq!(ra.elapsed_exclusive, 500);
    assert_eq!(rb.elapsed_inclusive, 500);
    assert_eq!(rb.elapsed_exclusive, 500);
    assert_eq!(ra.elapsed_exclusive, ra.elapsed_inclusive - rb.elapsed_inclusive);
    assert!(ra.elapsed_inclusive >= ra.elapsed_exclusive);
    assert!(rb.elapsed_inclusive >= rb.elapsed_exclusive);
}

#[test]
fn three_level_nesting() {
    let mut p = Profiler::new(8);
    let a = TimeBlock::new(&mut p, "a", 0, 0, 0);
    let b = TimeBlock::new(&mut p, "b", 1, 0, 100);
    let c = TimeBlock::new(&mut p, "c", 2, 0, 300);
    c.close(&mut p, 400);
    b.close(&mut p, 600);
    a.close(&mut p, 1000);
    let ra = p.records[0].unwrap();
    let rb = p.records[1].unwrap();
    let rc = p.records[2].unwrap();
    assert_eq!(ra.elapsed_inclusive, 1000);
    assert_eq!(ra.elapsed_exclusive, 500);
    assert_eq!(rb.elapsed_inclusive, 500);
    assert_eq!(rb.elapsed_exclusive, 400);
    assert_eq!(rc.elapsed_inclusive, 100);
    assert_eq!(rc.elapsed_exclusive, 100);
    // the exclusive totals partition the whole span
    assert_eq!(
        ra.elapsed_exclusive + rb.elapsed_exclusive + rc.elapsed_exclusive,
        ra.elapsed_inclusive
    );
}

#[test]
fn recursion_is_ordinary_nesting() {
    // Re-entering the same zone index is treated as ordinary nesting: the
    // inclusive total grows only by the outermost entry's duration.
    let mut p = Profiler::new(4);
    let outer = TimeBlock::new(&mut p, "rec", 2, 0, 10);
    let inner = TimeBlock::new(&mut p, "rec", 2, 0, 20);
    inner.close(&mut p, 30);
    outer.close(&mut p, 50);
    let rec = p.records[2].unwrap();
    assert_eq!(rec.elapsed_inclusive, 40);
    assert_eq!(rec.elapsed_exclusive, 40);
    assert_eq!(rec.hit_count, 2);
}

#[test]
fn sibling_zones_under_one_parent() {
    let mut p = Profiler::new(8);
    let a = TimeBlock::new(&mut p, "a", 0, 0, 0);
    let b = TimeBlock::new(&mut p, "b", 1, 0, 10);
    b.close(&mut p, 30);
    let c = TimeBlock::new(&mut p, "c", 2, 0, 40);
    c.close(&mut p, 90);
    a.close(&mut p, 100);
    let ra = p.records[0].unwrap();
    assert_eq!(ra.elapsed_inclusive, 100);
    assert_eq!(ra.elapsed_exclusive, 100 - 20 - 50);
    assert_eq!(p.records[1].unwrap().elapsed_inclusive, 20);
    assert_eq!(p.records[2].unwrap().elapsed_inclusive, 50);
}

#[test]
fn byte_counts_accumulate_per_entry() {
    let mut p = Profiler::new(4);
    let b1 = TimeBlock::new(&mut p, "io", 1, 4096, 0);
    b1.close(&mut p, 10);
    let b2 = TimeBlock::new(&mut p, "io", 1, 4096, 20);
    b2.close(&mut p, 35);
    let rec = p.records[1].unwrap();
    assert_eq!(rec.byte_count, 8192);
    // re-registration keeps the first label
    assert_eq!(rec.label, "io");
}

#[test]
fn report_lists_registered_zones_in_order() {
    let mut p = Profiler::new(8);
    let b5 = TimeBlock::new(&mut p, "late", 5, 0, 0);
    b5.close(&mut p, 4);
    let b2 = TimeBlock::new(&mut p, "early", 2, 7, 10);
    b2.close(&mut p, 12);
    let rows: Vec<TimeRecord> = p.report();
    assert_eq!(rows.len(), 2);
    assert_eq!(rows[0].label, "early");
    assert_eq!(rows[0].byte_count, 7);
    assert_eq!(rows[1].label, "late");
    assert_eq!(rows[1].elapsed_exclusive, 4);
}

#[test]
fn current_tracks_innermost_zone() {
    let mut p = Profiler::new(8);
    assert_eq!(p.current, None);
    let a = TimeBlock::new(&mut p, "a", 0, 0, 0);
    assert_eq!(p.current, Some(0));
    let b = TimeBlock::new(&mut p, "b", 1, 0, 1);
    assert_eq!(p.current, Some(1));
    assert_eq!(b.parent, Some(0));
    assert_eq!(a.parent, None);
    b.close(&mut p, 2);
    assert_eq!(p.current, Some(0));
    a.close(&mut p, 3);
    assert_eq!(p.current, None);
}

#[test]
fn empty_session_reports_nothing() {
    let p = Profiler::new(8);
    assert!(p.report().is_empty());
    assert_eq!(p.current, None);
}

#[test]
fn zero_capacity_session() {
    let p = Profiler::new(0);
    assert_eq!(p.records.len(), 0);
    assert!(p.report().is_empty());
}

#[test]
fn zone_near_tick_wraparound() {
    // the counter is near the top of its range: differences still come out
    // right because the accumulators live modulo 2^64
    let mut p = Profiler::new(2);
    let b = TimeBlock::new(&mut p, "late", 0, 0, u64::MAX - 10);
    b.close(&mut p, u64::MAX - 3);
    let rec = p.records[0].unwrap();
    assert_eq!(rec.elapsed_exclusive, 7);
    assert_eq!(rec.elapsed_inclusive, 7);
}
