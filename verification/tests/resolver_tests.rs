use tcc_win11::metrics::MetricSnapshot;
use tcc_win11::resolver::{
    pad_value, resolve_label_text, scan_formats, substitute, CustomFormatDef, CustomFormats, Pad,
};

fn chars(s: &str) -> Vec<char> {
    s.chars().collect()
}

fn empty_customs() -> CustomFormats {
    CustomFormats::new()
}

fn snap_with_cpu(v: u8) -> MetricSnapshot {
    let mut s = MetricSnapshot::new();
    s.cpu = Some(v);
    s
}

#[test]
fn padding_value_seven() {
    assert_eq!(pad_value(Pad::Space, 7), chars("  7"));
    assert_eq!(pad_value(Pad::Zero, 7), chars("007"));
    assert_eq!(pad_value(Pad::Bare, 7), chars("7"));
}

#[test]
fn padding_value_hundred() {
    assert_eq!(pad_value(Pad::Space, 100), chars("100"));
    assert_eq!(pad_value(Pad::Zero, 100), chars("100"));
    assert_eq!(pad_value(Pad::Bare, 100), chars("100"));
}

#[test]
fn cpu_token_padded() {
    let snap = snap_with_cpu(7);
    let customs = empty_customs();
    assert_eq!(substitute(&chars("{cpu}"), &snap, &customs, 0, "UTC"), chars("  7"));
    assert_eq!(substitute(&chars("{_cpu}"), &snap, &customs, 0, "UTC"), chars("  7"));
    assert_eq!(substitute(&chars("{0cpu}"), &snap, &customs, 0, "UTC"), chars("007"));
    assert_eq!(substitute(&chars("{-cpu}"), &snap, &customs, 0, "UTC"), chars("7"));
}

#[test]
fn missing_cpu_reads_zero() {
    let snap = MetricSnapshot::new();
    let customs = empty_customs();
    assert_eq!(substitute(&chars("{0cpu}"), &snap, &customs, 0, "UTC"), chars("000"));
    assert_eq!(substitute(&chars("{cpu}"), &snap, &customs, 0, "UTC"), chars("  0"));
    assert_eq!(substitute(&chars("{-mem}"), &snap, &customs, 0, "UTC"), chars("0"));
}

#[test]
fn mem_token_uses_mem_key() {
    let mut snap = MetricSnapshot::new();
    snap.mem = Some(42);
    let customs = empty_customs();
    assert_eq!(substitute(&chars("{mem}"), &snap, &customs, 0, "UTC"), chars(" 42"));
}

#[test]
fn gpu_token_uses_indexed_key() {
    let mut snap = MetricSnapshot::new();
    snap.gpus = vec![0, 0, 0, 42];
    let customs = empty_customs();
    assert_eq!(substitute(&chars("{gpu3}"), &snap, &customs, 0, "UTC"), chars(" 42"));
    assert_eq!(substitute(&chars("{0gpu3}"), &snap, &customs, 0, "UTC"), chars("042"));
}

#[test]
fn gpu_token_twelve_unpadded() {
    let mut snap = MetricSnapshot::new();
    snap.gpus = vec![0; 13];
    snap.gpus[12] = 5;
    let customs = empty_customs();
    assert_eq!(substitute(&chars("{-gpu12}"), &snap, &customs, 0, "UTC"), chars("5"));
}

#[test]
fn gpu_token_absent_key_falls_through_to_empty() {
    let mut snap = MetricSnapshot::new();
    snap.gpus = vec![10, 20];
    let customs = empty_customs();
    // gpu7 is not in the snapshot and no custom format is named `gpu7`.
    assert_eq!(substitute(&chars("a{gpu7}b"), &snap, &customs, 0, "UTC"), chars("ab"));
    // A key written with a leading zero never matches an index.
    assert_eq!(substitute(&chars("{gpu01}"), &snap, &customs, 0, "UTC"), chars(""));
}

#[test]
fn unknown_token_is_empty_and_rest_kept() {
    let snap = MetricSnapshot::new();
    let customs = empty_customs();
    assert_eq!(substitute(&chars("a{xyz}b"), &snap, &customs, 0, "UTC"), chars("ab"));
    // A brace with no closer stays literal.
    assert_eq!(substitute(&chars("abc{def"), &snap, &customs, 0, "UTC"), chars("abc{def"));
    // A closer before any opener stays literal.
    let snap7 = snap_with_cpu(7);
    assert_eq!(substitute(&chars("}{cpu}"), &snap7, &customs, 0, "UTC"), chars("}  7"));
}

#[test]
fn custom_format_replaces_rendered_value() {
    let snap = MetricSnapshot::new();
    let mut customs = CustomFormats::new();
    // The Unix epoch fell on a Thursday: chrono renders `%u` as `4`.
    let mut def = CustomFormatDef::new("weekday", "%u");
    def.add_entry("4", "Thu!");
    customs.add(def);
    assert_eq!(substitute(&chars("{weekday}"), &snap, &customs, 0, "UTC"), chars("Thu!"));
}

#[test]
fn custom_format_wildcard_fallback() {
    let snap = MetricSnapshot::new();
    let mut customs = CustomFormats::new();
    let mut def = CustomFormatDef::new("weekday", "%u");
    def.add_entry("1", "Mon");
    def.add_entry("_", "other");
    customs.add(def);
    assert_eq!(substitute(&chars("{weekday}"), &snap, &customs, 0, "UTC"), chars("other"));
}

#[test]
fn custom_format_miss_without_fallback_is_empty() {
    let snap = MetricSnapshot::new();
    let mut customs = CustomFormats::new();
    let mut def = CustomFormatDef::new("weekday", "%u");
    def.add_entry("1", "Mon");
    customs.add(def);
    assert_eq!(substitute(&chars("x{weekday}y"), &snap, &customs, 0, "UTC"), chars("xy"));
}

#[test]
fn resolution_is_idempotent() {
    let mut snap = MetricSnapshot::new();
    snap.cpu = Some(55);
    let mut customs = CustomFormats::new();
    let mut def = CustomFormatDef::new("weekday", "%u");
    def.add_entry("4", "Thu");
    customs.add(def);
    let first = resolve_label_text("{weekday} %H:%M {cpu}", "UTC", 0, &snap, &customs);
    let second = resolve_label_text("{weekday} %H:%M {cpu}", "UTC", 0, &snap, &customs);
    assert_eq!(first, second);
    assert_eq!(first, "Thu 00:00  55");
}

#[test]
fn final_text_renders_time_in_zone() {
    let snap = MetricSnapshot::new();
    let customs = empty_customs();
    assert_eq!(resolve_label_text("%H:%M", "UTC", 0, &snap, &customs), "00:00");
    assert_eq!(resolve_label_text("%H:%M", "Asia/Tokyo", 0, &snap, &customs), "09:00");
    assert_eq!(
        resolve_label_text("%Y-%m-%d", "UTC", 86_400_000, &snap, &customs),
        "1970-01-02"
    );
}

#[test]
fn substituted_metric_survives_time_formatting() {
    let snap = snap_with_cpu(31);
    let customs = empty_customs();
    assert_eq!(resolve_label_text("{-cpu}%% %H", "UTC", 0, &snap, &customs), "31% 00");
}

#[test]
fn gpu_pattern_found_inside_longer_token() {
    // The GPU keyword is found anywhere inside the token, not only at its
    // start.
    let mut snap = MetricSnapshot::new();
    snap.gpus = vec![9, 8];
    let customs = empty_customs();
    assert_eq!(substitute(&chars("{xgpu1}"), &snap, &customs, 0, "UTC"), chars("  8"));
}

#[test]
fn metric_keywords_shadow_custom_definitions() {
    let snap = snap_with_cpu(7);
    let mut customs = CustomFormats::new();
    let mut def = CustomFormatDef::new("cpu", "%u");
    def.add_entry("_", "never");
    customs.add(def);
    // The exact metric keyword wins over a custom definition of the same
    // name; an unrelated token still reaches the definition table.
    assert_eq!(substitute(&chars("{cpu}"), &snap, &customs, 0, "UTC"), chars("  7"));
    let mut other = CustomFormatDef::new("tag", "%u");
    other.add_entry("_", "seen");
    customs.add(other);
    assert_eq!(substitute(&chars("{tag}"), &snap, &customs, 0, "UTC"), chars("seen"));
}

#[test]
fn scan_formats_flags_referenced_families() {
    let formats = vec![
        "%H:%M {cpu}".to_string(),
        "{0gpu2} busy".to_string(),
        "plain text".to_string(),
    ];
    let flags = scan_formats(&formats);
    assert!(flags.cpu);
    assert!(flags.gpu);
    assert!(!flags.mem);
}

#[test]
fn scan_formats_wants_whole_braced_tokens() {
    // `cpu` without braces, a GPU keyword with junk after the brace, and a
    // digitless GPU keyword do not count as references.
    let formats = vec!["cpu".to_string(), "{xgpu1}".to_string(), "{gpu}".to_string()];
    let flags = scan_formats(&formats);
    assert!(!flags.cpu);
    assert!(!flags.gpu);
    assert!(!flags.mem);
}
