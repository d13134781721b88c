use tcc_win11::geom::Rect;
use tcc_win11::reconciler::{
    tray_in_front_exec, Action, DisplayConf, TaskbarProbe, TaskbarReconciler, Visibility,
};

fn conf() -> DisplayConf {
    DisplayConf {
        display_rect: Rect::new(0, 0, 1920, 1080),
        taskbar_rect: Rect::new(0, 1032, 1920, 1080),
        adjust_left: 0,
        adjust_right: 0,
        tray: 900,
        content: 901,
        panels: vec![42],
    }
}

fn probe(tray_topmost: bool, tray_bottom: i32) -> TaskbarProbe {
    TaskbarProbe {
        tray_topmost,
        tray_visible: true,
        tray_bottom,
        locked: false,
        content_width: 0,
        z_order: Vec::new(),
    }
}

fn count_toggles(actions: &[Action]) -> usize {
    actions
        .iter()
        .filter(|a| matches!(a, Action::ShowPanels | Action::HidePanels))
        .count()
}

#[test]
fn visibility_toggles_once_per_transition() {
    let mut r = TaskbarReconciler::new(conf());
    // Alignment script: aligned, aligned, away, away, aligned.
    let bottoms = [1080, 1080, 700, 700, 1080];
    let mut toggles = 0;
    let mut shows = 0;
    let mut hides = 0;
    for b in bottoms {
        let acts = r.tick(&probe(false, b));
        toggles += count_toggles(&acts);
        shows += acts.iter().filter(|a| matches!(a, Action::ShowPanels)).count();
        hides += acts.iter().filter(|a| matches!(a, Action::HidePanels)).count();
    }
    assert_eq!(toggles, 3);
    assert_eq!(shows, 2);
    assert_eq!(hides, 1);
    assert_eq!(r.state.visible, Visibility::Visible);
}

#[test]
fn background_capture_fires_once() {
    let mut r = TaskbarReconciler::new(conf());
    let p = probe(true, 1080);
    let first = r.tick(&p);
    assert!(first.contains(&Action::CaptureBackgrounds));
    assert!(r.state.background_init);
    let second = r.tick(&p);
    assert!(!second.contains(&Action::CaptureBackgrounds));
    assert!(r.state.background_init);
    // The flag survives any further sequence of probes.
    let third = r.tick(&probe(true, 700));
    assert!(!third.contains(&Action::CaptureBackgrounds));
    assert!(r.state.background_init);
}

#[test]
fn capture_needs_topmost_visible_aligned_unlocked() {
    let mut r = TaskbarReconciler::new(conf());
    let mut p = probe(true, 1080);
    p.locked = true;
    assert!(!r.tick(&p).contains(&Action::CaptureBackgrounds));
    let mut p = probe(true, 1080);
    p.tray_visible = false;
    assert!(!r.tick(&p).contains(&Action::CaptureBackgrounds));
    assert!(!r.tick(&probe(false, 1080)).contains(&Action::CaptureBackgrounds));
    assert!(!r.tick(&probe(true, 700)).contains(&Action::CaptureBackgrounds));
    assert!(!r.state.background_init);
}

#[test]
fn topmost_transitions_move_panels_once() {
    let mut r = TaskbarReconciler::new(conf());
    r.state.background_init = true;
    let up = r.tick(&probe(true, 700));
    assert!(up.contains(&Action::PanelsToTopmost));
    let down = r.tick(&probe(false, 700));
    assert!(down.contains(&Action::PanelsToBottom));
    // Staying non-topmost emits nothing for the z-order.
    let again = r.tick(&probe(false, 700));
    assert!(!again.contains(&Action::PanelsToBottom));
    assert!(!again.contains(&Action::PanelsToTopmost));
}

#[test]
fn foreign_window_above_taskbar_restores_panel() {
    let mut r = TaskbarReconciler::new(conf());
    r.state.background_init = true;
    // First tick makes the taskbar known-topmost.
    r.tick(&probe(true, 700));
    // A foreign window (77) sits between the tray and the panel: front to
    // back the order is tray, foreign, panel.
    let mut p = probe(true, 700);
    p.z_order = vec![900, 77, 42];
    let acts = r.tick(&p);
    assert!(acts.contains(&Action::RaisePanel { panel: 42 }));
    // With the panel already in front of the tray nothing is re-asserted.
    let mut p = probe(true, 700);
    p.z_order = vec![42, 77, 900];
    let acts = r.tick(&p);
    assert!(!acts.contains(&Action::RaisePanel { panel: 42 }));
}

#[test]
fn tray_in_front_walk() {
    assert!(tray_in_front_exec(&vec![900, 42], 900, 42));
    assert!(!tray_in_front_exec(&vec![42, 900], 900, 42));
    assert!(!tray_in_front_exec(&vec![900, 77], 900, 42));
    assert!(tray_in_front_exec(&vec![1, 900, 2, 42, 900], 900, 42));
}

#[test]
fn adjustment_applied_only_at_full_width() {
    let mut c = conf();
    c.adjust_left = 10;
    c.adjust_right = -4;
    let mut r = TaskbarReconciler::new(c);
    r.state.background_init = true;
    let mut p = probe(false, 700);
    p.content_width = 1920;
    let acts = r.tick(&p);
    assert!(acts.contains(&Action::AdjustContent { x: 10, width: 1920 - 10 - 4, height: 48 }));
    // A content host already narrowed is left alone, so the offset never
    // compounds.
    let mut p = probe(false, 700);
    p.content_width = 1906;
    let acts = r.tick(&p);
    assert!(!acts.iter().any(|a| matches!(a, Action::AdjustContent { .. })));
}

#[test]
fn capture_emits_resize_hide_capture_hide() {
    let mut r = TaskbarReconciler::new(conf());
    let acts = r.tick(&probe(true, 1080));
    assert_eq!(acts[0], Action::ResetContentWidth { width: 1920, height: 48 });
    assert_eq!(acts[1], Action::HidePanels);
    assert_eq!(acts[2], Action::CaptureBackgrounds);
    assert_eq!(acts[3], Action::HidePanels);
}
