use tcc_win11::clock::tick_delay_ms;
use tcc_win11::color::parse_color;
use tcc_win11::display::{choose_display_id, device_path_id, DisplayRole};
use tcc_win11::geom::Rect;
use tcc_win11::lockscreen::{is_lock_screen, is_taskbar_content_class, WindowRecord};
use tcc_win11::metrics::MetricSnapshot;
use tcc_win11::panel::{
    affordance_hit, capture_source_row, click_gesture, mouse_move_update, panel_origin,
    render_frame, Anchor, DrawOp, FontSpec, Gesture, Label, Panel,
};
use tcc_win11::resolver::CustomFormats;

fn chars(s: &str) -> Vec<char> {
    s.chars().collect()
}

#[test]
fn color_packs_blue_green_red() {
    assert_eq!(parse_color("FF8001"), Some(0x0180FF));
    assert_eq!(parse_color("ff8001"), Some(0x0180FF));
    assert_eq!(parse_color("000000"), Some(0));
    assert_eq!(parse_color("FFFFFF"), Some(0xFFFFFF));
    assert_eq!(parse_color("FFFFFF extra"), Some(0xFFFFFF));
    assert_eq!(parse_color("GG0000"), None);
    assert_eq!(parse_color("FFF"), None);
}

#[test]
fn device_path_becomes_stable_id() {
    let id = device_path_id("\\\\?\\DISPLAY#ABC123#4&deadbeef&0&UID0#{guid-here}");
    assert_eq!(id, chars("DISPLAY\\ABC123\\4&DEADBEEF&0&UID0"));
}

#[test]
fn device_path_without_separator_strips_everything() {
    assert_eq!(device_path_id("\\\\?\\nohash"), chars(""));
}

#[test]
fn display_targets_match_in_precedence_order() {
    let targets = vec!["all".to_string(), "main".to_string(), "DEV\\1".to_string()];
    // The device path wins over the role keywords.
    let hit = choose_display_id(&targets, &chars("DEV\\1"), DisplayRole::Primary);
    assert_eq!(hit, Some((2, chars("DEV\\1"))));
    // Otherwise the primary display takes `main` over `all`.
    let hit = choose_display_id(&targets, &chars("DEV\\9"), DisplayRole::Primary);
    assert_eq!(hit, Some((1, chars("main"))));
    // A secondary display has no `sub` entry here, so `all` matches with a
    // numbered id.
    let hit = choose_display_id(&targets, &chars("DEV\\9"), DisplayRole::Secondary { counter: 2 });
    assert_eq!(hit, Some((0, chars("all_2"))));
    // The primary `all` id carries the number zero.
    let only_all = vec!["all".to_string()];
    let hit = choose_display_id(&only_all, &chars("DEV\\9"), DisplayRole::Primary);
    assert_eq!(hit, Some((0, chars("all_0"))));
    // No rule at all leaves the display unconfigured.
    let none = choose_display_id(&Vec::new(), &chars("DEV\\9"), DisplayRole::Primary);
    assert_eq!(none, None);
}

#[test]
fn lock_screen_detection() {
    let normal = WindowRecord { class: "Shell_TrayWnd".to_string(), exe: "explorer.exe".to_string() };
    let core_lock = WindowRecord {
        class: "Windows.UI.Core.CoreWindow".to_string(),
        exe: "LockApp.exe".to_string(),
    };
    let core_other = WindowRecord {
        class: "Windows.UI.Core.CoreWindow".to_string(),
        exe: "SearchHost.exe".to_string(),
    };
    let proxy = WindowRecord {
        class: "LockScreenControllerProxyWindow".to_string(),
        exe: String::new(),
    };
    // No foreground window at all counts as locked.
    assert!(is_lock_screen(&Vec::new()));
    assert!(!is_lock_screen(&vec![normal]));
    assert!(is_lock_screen(&vec![core_lock]));
    assert!(!is_lock_screen(&vec![core_other]));
    assert!(is_lock_screen(&vec![proxy]));
}

#[test]
fn taskbar_content_class_name() {
    assert!(is_taskbar_content_class("Windows.UI.Composition.DesktopWindowContentBridge"));
    assert!(!is_taskbar_content_class("Shell_TrayWnd"));
}

#[test]
fn panel_origin_by_anchor() {
    let taskbar = Rect::new(100, 1032, 1920, 1080);
    let display = Rect::new(0, 0, 1920, 1080);
    assert_eq!(panel_origin(Anchor::Left, 200, 8, &taskbar, &display), (108, 1032));
    // Center: midpoint of taskbar-left and display-right, minus half the
    // width, plus the offset.
    assert_eq!(panel_origin(Anchor::Center, 200, 0, &taskbar, &display), (910, 1032));
    assert_eq!(panel_origin(Anchor::Right, 200, -10, &taskbar, &display), (1710, 1032));
}

#[test]
fn panel_origin_on_a_monitor_left_of_the_origin() {
    // A monitor to the left of the primary one has negative coordinates;
    // the midpoint halving truncates toward zero as the platform's integer
    // arithmetic does.
    let taskbar = Rect::new(-1923, 1032, 0, 1080);
    let display = Rect::new(-1923, 0, 0, 1080);
    let (x, y) = panel_origin(Anchor::Center, 200, 0, &taskbar, &display);
    assert_eq!((x, y), (-961 - 100, 1032));
}

#[test]
fn affordance_hit_zones() {
    assert!(affordance_hit(Anchor::Left, 400, 0));
    assert!(affordance_hit(Anchor::Left, 400, 15));
    assert!(!affordance_hit(Anchor::Left, 400, 16));
    assert!(affordance_hit(Anchor::Center, 400, 192));
    assert!(affordance_hit(Anchor::Center, 400, 208));
    assert!(!affordance_hit(Anchor::Center, 400, 211));
    assert!(affordance_hit(Anchor::Right, 400, 385));
    assert!(affordance_hit(Anchor::Right, 400, 400));
    assert!(!affordance_hit(Anchor::Right, 400, 384));
}

#[test]
fn mouse_move_repaints_only_on_transition() {
    let mut visible = false;
    assert!(mouse_move_update(&mut visible, Some(Anchor::Left), 400, 5));
    assert!(visible);
    assert!(!mouse_move_update(&mut visible, Some(Anchor::Left), 400, 6));
    assert!(visible);
    assert!(mouse_move_update(&mut visible, Some(Anchor::Left), 400, 300));
    assert!(!visible);
    // A panel without an affordance never repaints from cursor moves.
    let mut v2 = false;
    assert!(!mouse_move_update(&mut v2, None, 400, 5));
    assert!(!v2);
}

#[test]
fn click_gesture_follows_affordance() {
    assert_eq!(click_gesture(true), Gesture::ShowDesktop);
    assert_eq!(click_gesture(false), Gesture::NewWindow);
}

#[test]
fn frame_ops_compose_in_order() {
    let label = Label {
        timezone: "UTC".to_string(),
        format: "%H:%M".to_string(),
        left: 4,
        top: 6,
        color: 0xFFFFFF,
        font: FontSpec { name: "Segoe UI".to_string(), size: 16, bold: false, italic: false },
    };
    let panel = Panel {
        anchor: Anchor::Right,
        width: 400,
        left: 0,
        affordance: Some(Anchor::Right),
        labels: vec![label],
        background_init: true,
    };
    let snap = MetricSnapshot::new();
    let customs = CustomFormats::new();
    let ops = render_frame(&panel, 400, 48, 0, &snap, &customs, true);
    assert_eq!(ops.len(), 3);
    assert!(matches!(ops[0], DrawOp::BlitBackground));
    match &ops[1] {
        DrawOp::Text { x, y, color, label, text } => {
            assert_eq!((*x, *y, *color, *label), (4, 6, 0xFFFFFF, 0));
            assert_eq!(text, "00:00");
        },
        _ => panic!("expected a text op"),
    }
    match &ops[2] {
        DrawOp::Line { x, y_top, y_bottom } => {
            assert_eq!((*x, *y_top, *y_bottom), (393, 2, 46));
        },
        _ => panic!("expected a line op"),
    }
    // Without a captured background and with the affordance hidden only the
    // labels remain.
    let panel2 = Panel { background_init: false, affordance: None, ..panel };
    let ops = render_frame(&panel2, 400, 48, 0, &snap, &customs, true);
    assert_eq!(ops.len(), 1);
    assert!(matches!(ops[0], DrawOp::Text { .. }));
}

#[test]
fn capture_rows_replicate_top_and_bottom() {
    assert_eq!(capture_source_row(0, 48), 0);
    assert_eq!(capture_source_row(1, 48), 47);
    assert_eq!(capture_source_row(47, 48), 47);
}

#[test]
fn tick_delay_lands_on_second_boundary() {
    assert_eq!(tick_delay_ms(0), 1000);
    assert_eq!(tick_delay_ms(250_000_000), 750);
    assert_eq!(tick_delay_ms(999_999_999), 1);
    // A leap-second nanosecond count never underflows.
    assert_eq!(tick_delay_ms(1_500_000_000), 0);
}
