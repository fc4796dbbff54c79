use metrics::timing::estimate_cpu_frequency;
use metrics::timing::os_wait_ticks;
use metrics::workload::BranchPattern;
use metrics::workload::CacheSizeTest;
use metrics::workload::fill_with_branch_pattern;
use metrics::workload::write_to_all_bytes;

#[test]
fn wait_ticks_for_hundred_millis() {
    // a 10 MHz OS timer: 100 ms is one million ticks
    assert_eq!(os_wait_ticks(100, 10_000_000), 1_000_000);
    assert_eq!(os_wait_ticks(0, 10_000_000), 0);
    assert_eq!(os_wait_ticks(1, 999), 0);
}

#[test]
fn frequency_estimate_is_scaled_ratio() {
    // 3_000_000 CPU ticks over 100_000 OS ticks of a 1 MHz OS timer:
    // the CPU runs at 30 MHz.
    assert_eq!(estimate_cpu_frequency(1_000_000, 0, 3_000_000, 500, 100_500), 30_000_000);
    // offsets cancel: only the differences matter
    assert_eq!(estimate_cpu_frequency(1_000_000, 7, 3_000_007, 0, 100_000), 30_000_000);
}

#[test]
fn frequency_estimate_degenerate_timer_gives_zero() {
    // the OS timer did not advance at all: no estimate
    assert_eq!(estimate_cpu_frequency(1_000_000, 0, 3_000_000, 42, 42), 0);
}

#[test]
fn cache_size_test_snaps_to_blocks() {
    // 1000 bytes snap down to three 256-byte blocks (768 bytes); a 10000-byte
    // buffer holds 13 passes of 768 bytes = 9984 bytes really touched.
    let t = CacheSizeTest::new(10_000, 1_000);
    assert_eq!(t.inner_count, 3);
    assert_eq!(t.cache_size(), 768);
    assert_eq!(t.outer_count, 13);
    assert_eq!(t.real_size, 9_984);
    assert!(t.real_size <= 10_000);
}

#[test]
fn cache_size_test_exact_fit() {
    let t = CacheSizeTest::new(1 << 20, 1 << 12);
    assert_eq!(t.inner_count, 16);
    assert_eq!(t.cache_size(), 4096);
    assert_eq!(t.outer_count, 256);
    assert_eq!(t.real_size, 1 << 20);
}

#[test]
fn write_to_all_bytes_stores_low_bytes() {
    let mut buffer: Vec<u8> = vec![0xAA; 600];
    write_to_all_bytes(&mut buffer);
    assert_eq!(buffer.len(), 600);
    assert_eq!(buffer[0], 0);
    assert_eq!(buffer[1], 1);
    assert_eq!(buffer[255], 255);
    assert_eq!(buffer[256], 0);
    assert_eq!(buffer[599], (599 % 256) as u8);
}

#[test]
fn branch_pattern_fills() {
    let mut buffer: Vec<u8> = vec![7; 12];
    fill_with_branch_pattern(&mut buffer, BranchPattern::NeverTaken);
    assert_eq!(buffer, vec![0; 12]);
    fill_with_branch_pattern(&mut buffer, BranchPattern::AlwaysTaken);
    assert_eq!(buffer, vec![0xFF; 12]);
    fill_with_branch_pattern(&mut buffer, BranchPattern::Every2);
    assert_eq!(buffer, vec![0, 1, 0, 1, 0, 1, 0, 1, 0, 1, 0, 1]);
    fill_with_branch_pattern(&mut buffer, BranchPattern::Every3);
    assert_eq!(buffer, vec![0, 1, 2, 0, 1, 2, 0, 1, 2, 0, 1, 2]);
    fill_with_branch_pattern(&mut buffer, BranchPattern::Every4);
    assert_eq!(buffer, vec![0, 1, 2, 3, 0, 1, 2, 3, 0, 1, 2, 3]);
}

#[test]
fn random_patterns_are_not_deterministic() {
    assert!(BranchPattern::Every3.is_deterministic());
    assert!(!BranchPattern::CRTRandom.is_deterministic());
    assert!(!BranchPattern::OSRandom.is_deterministic());
}
