use shardbench::report::{rustc_version_runtime, RunResult};
use shardbench::statm::statm_resident_bytes;

#[test]
fn run_result_echoes_every_field() {
    let r = RunResult::new(
        String::from("rustc1.75.0"),
        String::from("threads-sharded"),
        8,
        1_999_992,
        100_000,
        900,
        42,
        1234,
        4096 * 10,
    );
    assert_eq!(r.runtime_label, "rustc1.75.0");
    assert_eq!(r.model_label, "threads-sharded");
    assert_eq!(r.thread_count, 8);
    assert_eq!(r.effective_iterations, 1_999_992);
    assert_eq!(r.keys, 100_000);
    assert_eq!(r.read_ratio_millis, 900);
    assert_eq!(r.seed, 42);
    assert_eq!(r.duration_ms, 1234);
    assert_eq!(r.resident_memory_bytes, 4096 * 10);
}

#[test]
fn version_label_echoes_or_defaults() {
    assert_eq!(rustc_version_runtime(Some("1.75.0")), "1.75.0");
    assert_eq!(rustc_version_runtime(None), "unknown");
}

#[test]
fn statm_second_field_scaled_to_bytes() {
    let data = b"1234 567 89 0 0 0\n".to_vec();
    assert_eq!(statm_resident_bytes(&data), 567 * 4096);
}

#[test]
fn statm_leading_whitespace_accepted() {
    let data = b"  12 34\n".to_vec();
    assert_eq!(statm_resident_bytes(&data), 34 * 4096);
}

#[test]
fn statm_missing_second_field_is_unmeasured() {
    assert_eq!(statm_resident_bytes(&b"".to_vec()), 0);
    assert_eq!(statm_resident_bytes(&b"12".to_vec()), 0);
    assert_eq!(statm_resident_bytes(&b"12 \n".to_vec()), 0);
}

#[test]
fn statm_non_numeric_second_field_is_unmeasured() {
    assert_eq!(statm_resident_bytes(&b"12 abc 3".to_vec()), 0);
    assert_eq!(statm_resident_bytes(&b"12 3x4".to_vec()), 0);
    assert_eq!(statm_resident_bytes(&b"x y".to_vec()), 0);
}

#[test]
fn statm_oversized_second_field_is_unmeasured() {
    // Does not fit in 64 bits.
    assert_eq!(statm_resident_bytes(&b"1 99999999999999999999".to_vec()), 0);
    // Fits in 64 bits, but not once scaled to bytes.
    assert_eq!(statm_resident_bytes(&b"1 9223372036854775807".to_vec()), 0);
}

#[test]
fn statm_largest_representable_page_count() {
    // u64::MAX / 4096, the largest page count whose byte size fits.
    let data = b"0 4503599627370495".to_vec();
    assert_eq!(statm_resident_bytes(&data), 4503599627370495u64 * 4096);
}
