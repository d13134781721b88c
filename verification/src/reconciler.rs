//! The taskbar reconciler: the per-display state machine, polled on a fixed
//! interval, that keeps overlay panels stacked, shown, sized and
//! background-matched against the externally owned taskbar window.
//!
//! Each tick the surrounding loop probes the live window state and hands the
//! probe here; the machine answers with an ordered list of actions for the
//! loop to perform, in four phases: a one-time background capture, topmost
//! tracking, visibility tracking, and re-application of configured
//! content-host adjustments.

use vstd::prelude::*;

use crate::geom::Rect;

verus! {

/// The remembered visibility of the panels: a tri-state, unknown until the
/// first toggle and after a background capture.
#[derive(Clone, Copy, PartialEq, Eq, Structural, Debug)]
pub enum Visibility {
    Unknown,
    Visible,
    Hidden,
}

/// What a reconciler remembers about one display between ticks.  Mutated
/// only by [`TaskbarReconciler::tick`].
#[derive(Clone, Copy, PartialEq, Eq, Structural, Debug)]
pub struct TrackState {
    /// Whether the one-time background capture has completed.  Never falls
    /// back to `false` once set.
    pub background_init: bool,
    /// Whether the taskbar was topmost at the last tick.
    pub taskbar_topmost: bool,
    /// The visibility the panels were last driven to.
    pub visible: Visibility,
}

impl TrackState {
    /// The state a reconciler starts from.
    pub fn initial() -> (s: TrackState)
        ensures
            !s.background_init,
            !s.taskbar_topmost,
            s.visible == Visibility::Unknown,
    {
        TrackState {
            background_init: false,
            taskbar_topmost: false,
            visible: Visibility::Unknown,
        }
    }
}

/// The fixed per-display configuration the reconciler works against.
pub struct DisplayConf {
    /// The display's bounding rectangle.
    pub display_rect: Rect,
    /// The taskbar rectangle recorded at startup; its height sizes the
    /// content host.
    pub taskbar_rect: Rect,
    /// Configured left pixel adjustment of the taskbar content host.
    pub adjust_left: i32,
    /// Configured right pixel adjustment of the taskbar content host.
    pub adjust_right: i32,
    /// The taskbar tray window.
    pub tray: u64,
    /// The taskbar's content host window.
    pub content: u64,
    /// The panel windows of this display.
    pub panels: Vec<u64>,
}

/// The ghost image of a display configuration.
pub struct ConfView {
    pub display_rect: Rect,
    pub taskbar_rect: Rect,
    pub adjust_left: i32,
    pub adjust_right: i32,
    pub tray: u64,
    pub content: u64,
    pub panels: Seq<u64>,
}

impl View for DisplayConf {
    type V = ConfView;

    open spec fn view(&self) -> ConfView {
        ConfView {
            display_rect: self.display_rect,
            taskbar_rect: self.taskbar_rect,
            adjust_left: self.adjust_left,
            adjust_right: self.adjust_right,
            tray: self.tray,
            content: self.content,
            panels: self.panels@,
        }
    }
}

impl ConfView {
    /// Rectangles ordered and adjustments bounded, so the offset arithmetic
    /// of the actions stays within `i32`.
    pub open spec fn wf(self) -> bool {
        &&& self.display_rect.wf()
        &&& self.taskbar_rect.wf()
        &&& -1000000 <= self.adjust_left <= 1000000
        &&& -1000000 <= self.adjust_right <= 1000000
    }
}

/// One tick's observation of the live window state.
pub struct TaskbarProbe {
    /// The tray window carries the topmost extended style.
    pub tray_topmost: bool,
    /// The tray window carries the visible style.
    pub tray_visible: bool,
    /// The tray window rectangle's bottom edge, as read this tick.
    pub tray_bottom: i32,
    /// The screen is lock-screen-obscured.
    pub locked: bool,
    /// The content host window's current width.
    pub content_width: i32,
    /// All top-level windows, front to back.
    pub z_order: Vec<u64>,
}

/// The ghost image of a probe.
pub struct ProbeView {
    pub tray_topmost: bool,
    pub tray_visible: bool,
    pub tray_bottom: i32,
    pub locked: bool,
    pub content_width: i32,
    pub z_order: Seq<u64>,
}

impl View for TaskbarProbe {
    type V = ProbeView;

    open spec fn view(&self) -> ProbeView {
        ProbeView {
            tray_topmost: self.tray_topmost,
            tray_visible: self.tray_visible,
            tray_bottom: self.tray_bottom,
            locked: self.locked,
            content_width: self.content_width,
            z_order: self.z_order@,
        }
    }
}

/// One operation the surrounding loop performs on the window system.
#[derive(Clone, Copy, PartialEq, Eq, Structural, Debug)]
pub enum Action {
    /// Size the content host back to a plain width at the display's left
    /// edge, without moving it.
    ResetContentWidth { width: i32, height: i32 },
    /// Move and size the content host by the configured adjustments.
    AdjustContent { x: i32, width: i32, height: i32 },
    /// Hide every panel window of the display.
    HidePanels,
    /// Show every panel window of the display.
    ShowPanels,
    /// Capture the desktop rows under each panel as its background bitmap.
    CaptureBackgrounds,
    /// Push every panel window to the bottom of the z-order.
    PanelsToBottom,
    /// Place every panel window at the top of the z-order.
    PanelsToTopmost,
    /// Re-assert one panel's topmost placement above the taskbar.
    RaisePanel { panel: u64 },
}

// ---------------------------------------------------------------------------
// Z-order
// ---------------------------------------------------------------------------
/// The first position at or after `from` holding `w`, or the length of `z`
/// if there is none.
pub open spec fn first_win_idx(z: Seq<u64>, w: u64, from: int) -> int
    decreases z.len() - from,
{
    if !(0 <= from < z.len()) {
        z.len() as int
    } else if z[from] == w {
        from
    } else {
        first_win_idx(z, w, from + 1)
    }
}

/// A position that matches, with none before it matching, is the first.
pub proof fn lemma_first_win_idx_agrees(z: Seq<u64>, w: u64, from: int, j: int)
    requires
        0 <= from <= j <= z.len(),
        j < z.len() ==> z[j] == w,
        forall|k: int| from <= k < j ==> z[k] != w,
        j == z.len() ==> forall|k: int| from <= k < z.len() ==> z[k] != w,
    ensures
        first_win_idx(z, w, from) == j,
    decreases z.len() - from,
{
    if from < z.len() && z[from] != w {
        lemma_first_win_idx_agrees(z, w, from + 1, j);
    }
}

/// The taskbar tray sits in front of the panel: walking from the panel
/// toward the front of the z-order meets the tray.
pub open spec fn tray_in_front(z: Seq<u64>, tray: u64, panel: u64) -> bool {
    let j = first_win_idx(z, panel, 0);
    j < z.len() && exists|i: int| 0 <= i < j && z[i] == tray
}

/// Whether the tray sits in front of the panel in the given z-order.
pub fn tray_in_front_exec(z: &Vec<u64>, tray: u64, panel: u64) -> (r: bool)
    ensures
        r == tray_in_front(z@, tray, panel),
{
    let mut i: usize = 0;
    let mut seen_tray = false;
    while i < z.len()
        invariant
            i <= z@.len(),
            forall|k: int| 0 <= k < i ==> z@[k] != panel,
            seen_tray == exists|k: int| 0 <= k < i && z@[k] == tray,
        decreases z@.len() - i,
    {
        if z[i] == panel {
            proof {
                lemma_first_win_idx_agrees(z@, panel, 0, i as int);
            }
            return seen_tray;
        }
        if z[i] == tray {
            seen_tray = true;
            proof {
                assert(z@[i as int] == tray);
            }
        }
        i += 1;
    }
    proof {
        lemma_first_win_idx_agrees(z@, panel, 0, z@.len() as int);
    }
    false
}

/// The re-assert actions for the panels, in panel order: one for each panel
/// the tray sits in front of.
pub open spec fn raise_actions(z: Seq<u64>, tray: u64, panels: Seq<u64>) -> Seq<Action>
    decreases panels.len(),
{
    if panels.len() == 0 {
        Seq::empty()
    } else {
        (if tray_in_front(z, tray, panels[0]) {
            seq![Action::RaisePanel { panel: panels[0] }]
        } else {
            Seq::empty()
        }) + raise_actions(z, tray, panels.drop_first())
    }
}

/// Every re-assert action is a `RaisePanel`.
pub proof fn lemma_raise_actions_shape(z: Seq<u64>, tray: u64, panels: Seq<u64>)
    ensures
        forall|i: int|
            0 <= i < raise_actions(z, tray, panels).len() ==> (#[trigger] raise_actions(
                z,
                tray,
                panels,
            )[i]) matches Action::RaisePanel { .. },
    decreases panels.len(),
{
    if panels.len() > 0 {
        lemma_raise_actions_shape(z, tray, panels.drop_first());
    }
}

/// Computes the re-assert actions.
fn raise_for_panels(z: &Vec<u64>, tray: u64, panels: &Vec<u64>) -> (acts: Vec<Action>)
    ensures
        acts@ == raise_actions(z@, tray, panels@),
{
    let mut out: Vec<Action> = Vec::new();
    proof {
        assert(panels@.skip(0) =~= panels@);
    }
    let mut i: usize = 0;
    while i < panels.len()
        invariant
            i <= panels@.len(),
            raise_actions(z@, tray, panels@) =~= out@ + raise_actions(
                z@,
                tray,
                panels@.skip(i as int),
            ),
        decreases panels@.len() - i,
    {
        proof {
            assert(panels@.skip(i as int).len() > 0);
            assert(panels@.skip(i as int)[0] == panels@[i as int]);
            assert(panels@.skip(i as int).drop_first() =~= panels@.skip(i as int + 1));
        }
        if tray_in_front_exec(z, tray, panels[i]) {
            out.push(Action::RaisePanel { panel: panels[i] });
        }
        i += 1;
    }
    proof {
        assert(panels@.skip(panels@.len() as int) =~= Seq::<u64>::empty());
        assert(out@ =~= out@ + raise_actions(z@, tray, panels@.skip(panels@.len() as int)));
    }
    out
}

// ---------------------------------------------------------------------------
// The four phases, as specification functions
// ---------------------------------------------------------------------------
/// The one-time background capture fires when the taskbar is simultaneously
/// topmost, visible and aligned with the display's bottom edge, the screen
/// is not lock-screen-obscured, and no capture has happened yet.
pub open spec fn capture_fires(conf: ConfView, st: TrackState, p: ProbeView) -> bool {
    &&& !st.background_init
    &&& p.tray_topmost
    &&& p.tray_visible
    &&& p.tray_bottom == conf.display_rect.bottom
    &&& !p.locked
}

/// The capture phase's actions: widen the content host to the full display,
/// hide the panels, capture their backgrounds, and hide them again.
pub open spec fn capture_actions(conf: ConfView, st: TrackState, p: ProbeView) -> Seq<Action> {
    if capture_fires(conf, st, p) {
        seq![
            Action::ResetContentWidth {
                width: conf.display_rect.width() as i32,
                height: conf.taskbar_rect.height() as i32,
            },
            Action::HidePanels,
            Action::CaptureBackgrounds,
            Action::HidePanels,
        ]
    } else {
        Seq::empty()
    }
}

/// The state after the capture phase: a fired capture marks itself done and
/// forgets the recorded visibility, so the visibility phase re-drives it.
pub open spec fn st_after_capture(conf: ConfView, st: TrackState, p: ProbeView) -> TrackState {
    if capture_fires(conf, st, p) {
        TrackState { background_init: true, taskbar_topmost: st.taskbar_topmost, visible: Visibility::Unknown }
    } else {
        st
    }
}

/// The topmost phase's actions: on losing topmost, push the panels to the
/// bottom once; on gaining it, place them topmost once; while it holds,
/// re-assert any panel the tray has slipped in front of.
pub open spec fn topmost_actions(conf: ConfView, st1: TrackState, p: ProbeView) -> Seq<Action> {
    if !p.tray_topmost {
        if st1.taskbar_topmost {
            seq![Action::PanelsToBottom]
        } else {
            Seq::empty()
        }
    } else {
        if !st1.taskbar_topmost {
            seq![Action::PanelsToTopmost]
        } else {
            raise_actions(p.z_order, conf.tray, conf.panels)
        }
    }
}

/// The visibility the panels are driven to this tick: shown exactly when the
/// taskbar's bottom edge coincides with the display's.
pub open spec fn vis_target(conf: ConfView, p: ProbeView) -> Visibility {
    if p.tray_bottom == conf.display_rect.bottom {
        Visibility::Visible
    } else {
        Visibility::Hidden
    }
}

/// The visibility phase's actions: one show or hide, only on a transition
/// from the unknown or the opposite recorded state.
pub open spec fn visibility_actions(conf: ConfView, st2: TrackState, p: ProbeView) -> Seq<
    Action,
> {
    if st2.visible == vis_target(conf, p) {
        Seq::empty()
    } else if vis_target(conf, p) == Visibility::Visible {
        seq![Action::ShowPanels]
    } else {
        seq![Action::HidePanels]
    }
}

/// The adjustment phase's actions: while adjustments are configured and the
/// content host spans the full display width, move and shrink it by the
/// configured offsets; skip when the widths differ, so the offset never
/// compounds.
pub open spec fn adjust_actions(conf: ConfView, p: ProbeView) -> Seq<Action> {
    if (conf.adjust_left != 0 || conf.adjust_right != 0) && p.content_width
        == conf.display_rect.width() {
        seq![
            Action::AdjustContent {
                x: conf.adjust_left,
                width: (conf.display_rect.width() - conf.adjust_left + conf.adjust_right) as i32,
                height: conf.taskbar_rect.height() as i32,
            },
        ]
    } else {
        Seq::empty()
    }
}

/// All of one tick's actions, in phase order.
pub open spec fn tick_actions(conf: ConfView, st: TrackState, p: ProbeView) -> Seq<Action> {
    let st1 = st_after_capture(conf, st, p);
    capture_actions(conf, st, p) + topmost_actions(conf, st1, p) + visibility_actions(
        conf,
        st1,
        p,
    ) + adjust_actions(conf, p)
}

/// The remembered state after one tick.
pub open spec fn st_after_tick(conf: ConfView, st: TrackState, p: ProbeView) -> TrackState {
    TrackState {
        background_init: st.background_init || capture_fires(conf, st, p),
        taskbar_topmost: p.tray_topmost,
        visible: vis_target(conf, p),
    }
}

// ---------------------------------------------------------------------------
// The reconciler
// ---------------------------------------------------------------------------
/// One display's reconciler: its fixed configuration and its remembered
/// state.
pub struct TaskbarReconciler {
    pub conf: DisplayConf,
    pub state: TrackState,
}

impl TaskbarReconciler {
    /// A reconciler in the initial state.
    pub fn new(conf: DisplayConf) -> (r: TaskbarReconciler)
        ensures
            r.conf@ == conf@,
            !r.state.background_init,
            !r.state.taskbar_topmost,
            r.state.visible == Visibility::Unknown,
    {
        TaskbarReconciler { conf, state: TrackState::initial() }
    }

    /// One polled step: reads this tick's probe, updates the remembered
    /// state, and returns the actions to perform, in order.
    pub fn tick(&mut self, probe: &TaskbarProbe) -> (actions: Vec<Action>)
        requires
            old(self).conf@.wf(),
        ensures
            final(self).conf@ == old(self).conf@,
            final(self).state == st_after_tick(old(self).conf@, old(self).state, probe@),
            actions@ == tick_actions(old(self).conf@, old(self).state, probe@),
    {
        let ghost conf0 = self.conf@;
        let ghost st0 = self.state;
        let mut out: Vec<Action> = Vec::new();

        // Background capture, one-time and conditional.
        let fires = !self.state.background_init && probe.tray_topmost && probe.tray_visible
            && probe.tray_bottom == self.conf.display_rect.bottom && !probe.locked;
        assert(fires == capture_fires(conf0, st0, probe@));
        if fires {
            let width = self.conf.display_rect.right - self.conf.display_rect.left;
            let height = self.conf.taskbar_rect.bottom - self.conf.taskbar_rect.top;
            out.push(Action::ResetContentWidth { width, height });
            out.push(Action::HidePanels);
            out.push(Action::CaptureBackgrounds);
            out.push(Action::HidePanels);
            self.state.background_init = true;
            self.state.visible = Visibility::Unknown;
        }
        let ghost st1 = st_after_capture(conf0, st0, probe@);
        assert(self.state == st1);
        assert(out@ =~= capture_actions(conf0, st0, probe@));

        // Topmost tracking.
        if !probe.tray_topmost {
            if self.state.taskbar_topmost {
                out.push(Action::PanelsToBottom);
            }
        } else {
            if !self.state.taskbar_topmost {
                out.push(Action::PanelsToTopmost);
            } else {
                let raise = raise_for_panels(&probe.z_order, self.conf.tray, &self.conf.panels);
                append_actions(&mut out, &raise);
            }
        }
        self.state.taskbar_topmost = probe.tray_topmost;
        assert(out@ =~= capture_actions(conf0, st0, probe@) + topmost_actions(
            conf0,
            st1,
            probe@,
        ));

        // Visibility tracking, on transitions only.
        let aligned = probe.tray_bottom == self.conf.display_rect.bottom;
        if aligned {
            if !matches!(self.state.visible, Visibility::Visible) {
                self.state.visible = Visibility::Visible;
                out.push(Action::ShowPanels);
            }
        } else {
            if !matches!(self.state.visible, Visibility::Hidden) {
                self.state.visible = Visibility::Hidden;
                out.push(Action::HidePanels);
            }
        }
        assert(out@ =~= capture_actions(conf0, st0, probe@) + topmost_actions(conf0, st1, probe@)
            + visibility_actions(conf0, st1, probe@));

        // Adjustment re-application.
        if (self.conf.adjust_left != 0 || self.conf.adjust_right != 0) && probe.content_width
            == self.conf.display_rect.right - self.conf.display_rect.left {
            let width = self.conf.display_rect.right - self.conf.display_rect.left
                - self.conf.adjust_left + self.conf.adjust_right;
            let height = self.conf.taskbar_rect.bottom - self.conf.taskbar_rect.top;
            out.push(Action::AdjustContent { x: self.conf.adjust_left, width, height });
        }
        assert(out@ =~= tick_actions(conf0, st0, probe@));
        assert(self.state == st_after_tick(conf0, st0, probe@));
        out
    }
}

/// Appends the actions of `src` to `dst`.
fn append_actions(dst: &mut Vec<Action>, src: &Vec<Action>)
    ensures
        final(dst)@ == old(dst)@ + src@,
{
    let mut i: usize = 0;
    while i < src.len()
        invariant
            i <= src@.len(),
            dst@ =~= old(dst)@ + src@.subrange(0, i as int),
        decreases src@.len() - i,
    {
        dst.push(src[i]);
        i += 1;
    }
    proof {
        assert(dst@ =~= old(dst)@ + src@);
    }
}

// ---------------------------------------------------------------------------
// Stated properties
// ---------------------------------------------------------------------------
/// The panels toggle exactly once per true transition: a show or hide is
/// emitted exactly when the recorded visibility differs from this tick's
/// target, and the recorded visibility then equals the target.
pub proof fn lemma_visibility_toggles_once(conf: ConfView, st: TrackState, p: ProbeView)
    ensures
        visibility_actions(conf, st_after_capture(conf, st, p), p).len() == (if st_after_capture(
            conf,
            st,
            p,
        ).visible == vis_target(conf, p) {
            0int
        } else {
            1int
        }),
        st_after_tick(conf, st, p).visible == vis_target(conf, p),
{
}

/// Background capture happens at most once per display per lifetime: the
/// flag never resets, and a capture action is emitted exactly when the
/// qualifying condition holds on a display that has not captured yet.
pub proof fn lemma_capture_at_most_once(conf: ConfView, st: TrackState, p: ProbeView)
    ensures
        st.background_init ==> st_after_tick(conf, st, p).background_init,
        tick_actions(conf, st, p).contains(Action::CaptureBackgrounds) <==> capture_fires(
            conf,
            st,
            p,
        ),
        capture_fires(conf, st, p) ==> !st.background_init,
{
    let st1 = st_after_capture(conf, st, p);
    let ca = capture_actions(conf, st, p);
    let ta = topmost_actions(conf, st1, p);
    let va = visibility_actions(conf, st1, p);
    let aa = adjust_actions(conf, p);
    let all = tick_actions(conf, st, p);
    assert(all =~= ca + ta + va + aa);
    if capture_fires(conf, st, p) {
        assert(all[2] == Action::CaptureBackgrounds);
        assert(all.contains(Action::CaptureBackgrounds));
    } else {
        lemma_raise_actions_shape(p.z_order, conf.tray, conf.panels);
        assert forall|i: int| 0 <= i < all.len() implies all[i]
            != Action::CaptureBackgrounds by {
            if i < ta.len() {
                assert(all[i] == ta[i]);
            } else if i < ta.len() + va.len() {
                assert(all[i] == va[i - ta.len()]);
            } else {
                assert(all[i] == aa[i - ta.len() - va.len()]);
            }
        }
        if all.contains(Action::CaptureBackgrounds) {
            let i = choose|i: int| 0 <= i < all.len() && all[i] == Action::CaptureBackgrounds;
            assert(false);
        }
    }
}

/// A panel that the tray has slipped in front of is re-asserted on the next
/// tick of a topmost taskbar.
pub proof fn lemma_raise_restores_panel(conf: ConfView, st: TrackState, p: ProbeView, i: int)
    requires
        p.tray_topmost,
        st.taskbar_topmost,
        0 <= i < conf.panels.len(),
        tray_in_front(p.z_order, conf.tray, conf.panels[i]),
    ensures
        tick_actions(conf, st, p).contains(Action::RaisePanel { panel: conf.panels[i] }),
{
    let st1 = st_after_capture(conf, st, p);
    assert(st1.taskbar_topmost);
    let ta = topmost_actions(conf, st1, p);
    assert(ta == raise_actions(p.z_order, conf.tray, conf.panels));
    lemma_raise_actions_contain(p.z_order, conf.tray, conf.panels, i);
    let ca = capture_actions(conf, st, p);
    let j = choose|j: int|
        0 <= j < ta.len() && ta[j] == Action::RaisePanel { panel: conf.panels[i] };
    let all = tick_actions(conf, st, p);
    assert(all[ca.len() + j] == ta[j]);
    assert(all.contains(Action::RaisePanel { panel: conf.panels[i] }));
}

/// The re-assert list holds an action for every panel the tray sits in
/// front of.
pub proof fn lemma_raise_actions_contain(z: Seq<u64>, tray: u64, panels: Seq<u64>, i: int)
    requires
        0 <= i < panels.len(),
        tray_in_front(z, tray, panels[i]),
    ensures
        raise_actions(z, tray, panels).contains(Action::RaisePanel { panel: panels[i] }),
    decreases panels.len(),
{
    let ra = raise_actions(z, tray, panels);
    if i == 0 {
        assert(ra[0] == Action::RaisePanel { panel: panels[0] });
    } else {
        lemma_raise_actions_contain(z, tray, panels.drop_first(), i - 1);
        let rest = raise_actions(z, tray, panels.drop_first());
        let j = choose|j: int|
            0 <= j < rest.len() && rest[j] == Action::RaisePanel { panel: panels[i] };
        let head_len = ra.len() - rest.len();
        assert(ra[head_len + j] == rest[j]);
    }
}

} // verus!
