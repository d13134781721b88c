use tcc_win11::metrics::{
    build_snapshot, gpu_percentages, mem_percent, percent_from_hundredths, FamilyFlags,
    MetricSnapshot,
};

#[test]
fn percent_rounds_half_up_and_clamps() {
    assert_eq!(percent_from_hundredths(0), 0);
    assert_eq!(percent_from_hundredths(749), 7);
    assert_eq!(percent_from_hundredths(750), 8);
    assert_eq!(percent_from_hundredths(9949), 99);
    assert_eq!(percent_from_hundredths(9950), 100);
    assert_eq!(percent_from_hundredths(1_000_000), 100);
}

#[test]
fn mem_percent_formula() {
    // (1 - free/total) * 100, rounded to nearest.
    assert_eq!(mem_percent(100, 25), 75);
    assert_eq!(mem_percent(3, 1), 67);
    assert_eq!(mem_percent(8, 1), 88);
    assert_eq!(mem_percent(100, 0), 100);
    assert_eq!(mem_percent(100, 100), 0);
    // Degenerate probes degrade to zero instead of failing.
    assert_eq!(mem_percent(0, 0), 0);
    assert_eq!(mem_percent(10, 20), 0);
}

#[test]
fn gpu_readings_sum_per_index() {
    let readings = vec![(0usize, 5000u64), (1, 20000), (0, 600), (7, 1000)];
    let v = gpu_percentages(2, &readings);
    assert_eq!(v, vec![56, 100]);
    let none = gpu_percentages(0, &readings);
    assert_eq!(none, Vec::<u8>::new());
}

#[test]
fn snapshot_only_samples_referenced_families() {
    let flags = FamilyFlags { cpu: true, gpu: false, mem: true };
    let s = build_snapshot(flags, Some(4260), Some((100, 30)), 3, &Vec::new());
    assert_eq!(s.cpu, Some(43));
    assert_eq!(s.mem, Some(70));
    assert!(s.gpus.is_empty());
}

#[test]
fn failed_readings_degrade_to_zero() {
    let flags = FamilyFlags { cpu: true, gpu: true, mem: true };
    let s = build_snapshot(flags, None, None, 2, &Vec::new());
    assert_eq!(s.cpu, Some(0));
    assert_eq!(s.mem, Some(0));
    assert_eq!(s.gpus, vec![0, 0]);
}

#[test]
fn gpu_lookup_by_index() {
    let mut s = MetricSnapshot::new();
    s.gpus = vec![10, 20];
    assert_eq!(s.gpu(0), Some(10));
    assert_eq!(s.gpu(1), Some(20));
    assert_eq!(s.gpu(2), None);
}
