use tcc_win11::gpu::{luid_pattern, reconcile_counters, GpuCounter};

fn chars(s: &str) -> Vec<char> {
    s.chars().collect()
}

#[test]
fn luid_pattern_pads_to_eight_hex_digits() {
    assert_eq!(luid_pattern(0x1234A), chars("_luid_0x00000000_0x0001234A_"));
    assert_eq!(luid_pattern(0), chars("_luid_0x00000000_0x00000000_"));
    assert_eq!(luid_pattern(0xDEADBEEF), chars("_luid_0x00000000_0xDEADBEEF_"));
    // More than eight digits are kept whole.
    assert_eq!(luid_pattern(0x1_0000_0001), chars("_luid_0x00000000_0x100000001_"));
}

#[test]
fn multi_string_splits_into_closed_runs() {
    let names = tcc_win11::text::split_nul_str("alpha\u{0}beta\u{0}\u{0}");
    assert_eq!(names, vec![chars("alpha"), chars("beta")]);
    // A trailing run without its terminator is dropped, as are empty runs.
    let names = tcc_win11::text::split_nul_str("one\u{0}\u{0}two\u{0}tail");
    assert_eq!(names, vec![chars("one"), chars("two")]);
    assert_eq!(tcc_win11::text::split_nul_str(""), Vec::<Vec<char>>::new());
}

#[test]
fn counter_set_follows_enumeration() {
    let luid0 = luid_pattern(0x10);
    let name_a = chars("pid_100_luid_0x00000000_0x00000010_engtype_3D");
    let name_b = chars("pid_200_luid_0x00000000_0x00000010_engtype_3D");
    let name_c = chars("pid_300_luid_0x00000000_0x00000010_engtype_Copy");
    let known = vec![
        GpuCounter { name: name_a.clone(), gpu_index: 0 },
        GpuCounter { name: name_b.clone(), gpu_index: 0 },
    ];
    // This tick enumerates {B, C}: A is stale, C is new.
    let enumerated = vec![name_b.clone(), name_c.clone()];
    let luids = vec![luid0];
    let out = reconcile_counters(&known, &enumerated, &luids);

    let names: Vec<&Vec<char>> = out.counters.iter().map(|c| &c.name).collect();
    assert_eq!(names, vec![&name_b, &name_c]);
    assert_eq!(out.added.len(), 1);
    assert_eq!(out.added[0].name, name_c);
    assert_eq!(out.added[0].gpu_index, 0);
    assert_eq!(out.removed.len(), 1);
    assert_eq!(out.removed[0].name, name_a);
    assert!(out.recollect);
}

#[test]
fn unchanged_enumeration_changes_nothing() {
    let name_a = chars("pid_100_luid_0x00000000_0x00000010_engtype_3D");
    let known = vec![GpuCounter { name: name_a.clone(), gpu_index: 0 }];
    let enumerated = vec![name_a.clone()];
    let luids = vec![luid_pattern(0x10)];
    let out = reconcile_counters(&known, &enumerated, &luids);
    assert_eq!(out.counters.len(), 1);
    assert!(out.added.is_empty());
    assert!(out.removed.is_empty());
    assert!(!out.recollect);
}

#[test]
fn unmatched_instances_are_ignored_and_dropped() {
    let foreign = chars("pid_400_luid_0x00000000_0x00000099_engtype_3D");
    let known = vec![GpuCounter { name: foreign.clone(), gpu_index: 0 }];
    let enumerated = vec![foreign.clone()];
    let luids = vec![luid_pattern(0x10)];
    // The enumerated instance belongs to no configured GPU: it is not kept,
    // and the stale tracked entry is released.
    let out = reconcile_counters(&known, &enumerated, &luids);
    assert!(out.counters.is_empty());
    assert!(out.added.is_empty());
    assert_eq!(out.removed.len(), 1);
    assert!(!out.recollect);
}

#[test]
fn new_counter_gets_first_matching_gpu() {
    let name = chars("pid_9_luid_0x00000000_0x00000022_engtype_3D");
    let known: Vec<GpuCounter> = Vec::new();
    let enumerated = vec![name.clone()];
    let luids = vec![luid_pattern(0x11), luid_pattern(0x22), luid_pattern(0x22)];
    let out = reconcile_counters(&known, &enumerated, &luids);
    assert_eq!(out.counters.len(), 1);
    assert_eq!(out.counters[0].gpu_index, 1);
    assert!(out.recollect);
}

#[test]
fn duplicate_enumeration_entries_collapse() {
    let name = chars("pid_9_luid_0x00000000_0x00000010_engtype_3D");
    let known: Vec<GpuCounter> = Vec::new();
    let enumerated = vec![name.clone(), name.clone()];
    let luids = vec![luid_pattern(0x10)];
    let out = reconcile_counters(&known, &enumerated, &luids);
    assert_eq!(out.counters.len(), 1);
    assert_eq!(out.added.len(), 1);
}
