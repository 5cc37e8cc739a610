//! Input mapping: which gamepad button, stick axis or key does what, the
//! per-poll rising-edge flags, and the trigger latches that make a held
//! analog trigger fire once.

use vstd::prelude::*;

verus! {

/// Gamepad buttons the controller reacts to (Xbox layout).
#[derive(Clone, Copy, PartialEq, Eq, Debug, Structural)]
pub enum PadButton {
    South,
    East,
    LeftTrigger,
    LeftTrigger2,
    DPadLeft,
    RightTrigger,
    RightTrigger2,
    DPadRight,
    Start,
    DPadUp,
    DPadDown,
    /// Any other button.
    Other,
}

/// What a button press does.
#[derive(Clone, Copy, PartialEq, Eq, Debug, Structural)]
pub enum ButtonAction {
    /// A: next preset.
    NextPreset,
    /// B: next warp shader.
    NextShader,
    /// LB / LT / D-pad left: shift the palette down.
    PaletteDown,
    /// RB / RT / D-pad right: shift the palette up.
    PaletteUp,
    /// Start / Menu: toggle fullscreen.
    ToggleFullscreen,
    /// D-pad up: more live system audio in the blend.
    LiveMixUp,
    /// D-pad down: less live system audio in the blend.
    LiveMixDown,
    /// Nothing.
    Ignore,
}

/// The button map.
pub open spec fn button_action_spec(b: PadButton) -> ButtonAction {
    match b {
        PadButton::South => ButtonAction::NextPreset,
        PadButton::East => ButtonAction::NextShader,
        PadButton::LeftTrigger | PadButton::LeftTrigger2 | PadButton::DPadLeft => ButtonAction::PaletteDown,
        PadButton::RightTrigger | PadButton::RightTrigger2 | PadButton::DPadRight => ButtonAction::PaletteUp,
        PadButton::Start => ButtonAction::ToggleFullscreen,
        PadButton::DPadUp => ButtonAction::LiveMixUp,
        PadButton::DPadDown => ButtonAction::LiveMixDown,
        PadButton::Other => ButtonAction::Ignore,
    }
}

/// What pressing button `b` does.
pub fn button_action(b: PadButton) -> (a: ButtonAction)
    ensures
        a == button_action_spec(b),
{
    match b {
        PadButton::South => ButtonAction::NextPreset,
        PadButton::East => ButtonAction::NextShader,
        PadButton::LeftTrigger | PadButton::LeftTrigger2 | PadButton::DPadLeft => ButtonAction::PaletteDown,
        PadButton::RightTrigger | PadButton::RightTrigger2 | PadButton::DPadRight => ButtonAction::PaletteUp,
        PadButton::Start => ButtonAction::ToggleFullscreen,
        PadButton::DPadUp => ButtonAction::LiveMixUp,
        PadButton::DPadDown => ButtonAction::LiveMixDown,
        PadButton::Other => ButtonAction::Ignore,
    }
}

/// The button map by hand: A goes to the next preset, B to the next shader,
/// the left bumpers, triggers and D-pad left shift the palette down, their
/// right counterparts up, Start toggles fullscreen, D-pad up and down raise
/// and lower the live-audio blend, and every other button does nothing.
pub proof fn lemma_button_map()
    ensures
        button_action_spec(PadButton::South) == ButtonAction::NextPreset,
        button_action_spec(PadButton::East) == ButtonAction::NextShader,
        button_action_spec(PadButton::LeftTrigger) == ButtonAction::PaletteDown,
        button_action_spec(PadButton::LeftTrigger2) == ButtonAction::PaletteDown,
        button_action_spec(PadButton::DPadLeft) == ButtonAction::PaletteDown,
        button_action_spec(PadButton::RightTrigger) == ButtonAction::PaletteUp,
        button_action_spec(PadButton::RightTrigger2) == ButtonAction::PaletteUp,
        button_action_spec(PadButton::DPadRight) == ButtonAction::PaletteUp,
        button_action_spec(PadButton::Start) == ButtonAction::ToggleFullscreen,
        button_action_spec(PadButton::DPadUp) == ButtonAction::LiveMixUp,
        button_action_spec(PadButton::DPadDown) == ButtonAction::LiveMixDown,
        button_action_spec(PadButton::Other) == ButtonAction::Ignore,
{
}

/// Rising-edge requests gathered during one poll.
#[derive(Clone, Copy, PartialEq, Eq, Debug, Structural)]
pub struct InputEdges {
    pub next_preset_edge: bool,
    pub next_shader_edge: bool,
    pub toggle_fullscreen_edge: bool,
    /// More live system-audio blend requested.
    pub live_mix_inc_edge: bool,
    /// Less live system-audio blend requested.
    pub live_mix_dec_edge: bool,
}

/// No request.
pub open spec fn no_edges() -> InputEdges {
    InputEdges {
        next_preset_edge: false,
        next_shader_edge: false,
        toggle_fullscreen_edge: false,
        live_mix_inc_edge: false,
        live_mix_dec_edge: false,
    }
}

/// The edges after a press with action `a` was read.
pub open spec fn apply_spec(e: InputEdges, a: ButtonAction) -> InputEdges {
    match a {
        ButtonAction::NextPreset => InputEdges { next_preset_edge: true, ..e },
        ButtonAction::NextShader => InputEdges { next_shader_edge: true, ..e },
        ButtonAction::ToggleFullscreen => InputEdges { toggle_fullscreen_edge: true, ..e },
        ButtonAction::LiveMixUp => InputEdges { live_mix_inc_edge: true, ..e },
        ButtonAction::LiveMixDown => InputEdges { live_mix_dec_edge: true, ..e },
        _ => e,
    }
}

/// The edges after reading the presses with actions `actions`, in order,
/// from a cleared state.
pub open spec fn edges_after(actions: Seq<ButtonAction>) -> InputEdges
    decreases actions.len(),
{
    if actions.len() == 0 {
        no_edges()
    } else {
        apply_spec(edges_after(actions.drop_last()), actions.last())
    }
}

impl InputEdges {
    /// No requests.
    pub fn new() -> (e: Self)
        ensures
            e == no_edges(),
    {
        InputEdges {
            next_preset_edge: false,
            next_shader_edge: false,
            toggle_fullscreen_edge: false,
            live_mix_inc_edge: false,
            live_mix_dec_edge: false,
        }
    }

    /// Reset the edge latches before reading new events.
    pub fn clear(&mut self)
        ensures
            *final(self) == no_edges(),
    {
        self.next_preset_edge = false;
        self.next_shader_edge = false;
        self.toggle_fullscreen_edge = false;
        self.live_mix_inc_edge = false;
        self.live_mix_dec_edge = false;
    }

    /// Record a press: set the edge its action requests (palette shifts and
    /// ignored buttons set none).
    pub fn apply(&mut self, a: ButtonAction)
        ensures
            *final(self) == apply_spec(*old(self), a),
    {
        match a {
            ButtonAction::NextPreset => self.next_preset_edge = true,
            ButtonAction::NextShader => self.next_shader_edge = true,
            ButtonAction::ToggleFullscreen => self.toggle_fullscreen_edge = true,
            ButtonAction::LiveMixUp => self.live_mix_inc_edge = true,
            ButtonAction::LiveMixDown => self.live_mix_dec_edge = true,
            _ => {},
        }
    }
}

/// An edge is raised by a poll exactly when one of the presses read during
/// that poll requests it (however often, in whatever order).
pub proof fn lemma_edges_after(actions: Seq<ButtonAction>)
    ensures
        edges_after(actions).next_preset_edge <==> actions.contains(ButtonAction::NextPreset),
        edges_after(actions).next_shader_edge <==> actions.contains(ButtonAction::NextShader),
        edges_after(actions).toggle_fullscreen_edge <==> actions.contains(ButtonAction::ToggleFullscreen),
        edges_after(actions).live_mix_inc_edge <==> actions.contains(ButtonAction::LiveMixUp),
        edges_after(actions).live_mix_dec_edge <==> actions.contains(ButtonAction::LiveMixDown),
    decreases actions.len(),
{
    if actions.len() > 0 {
        let init = actions.drop_last();
        lemma_edges_after(init);
        assert forall|a: ButtonAction| actions.contains(a) <==> (init.contains(a) || actions.last() == a) by {
            if actions.contains(a) {
                let k = choose|k: int| 0 <= k < actions.len() && actions[k] == a;
                if k < actions.len() - 1 {
                    assert(init[k] == a);
                }
            }
            if init.contains(a) {
                let k = choose|k: int| 0 <= k < init.len() && init[k] == a;
                assert(actions[k] == a);
            }
            if actions.last() == a {
                assert(actions[actions.len() - 1] == a);
            }
        }
    } else {
        assert forall|a: ButtonAction| !actions.contains(a) by {}
    }
}

/// Rising-edge latch of an analog trigger: a pull past the threshold fires
/// once, and a held trigger does not fire again until released.
#[derive(Clone, Copy, PartialEq, Eq, Debug, Structural)]
pub struct TriggerLatch {
    pub was_high: bool,
}

impl TriggerLatch {
    /// A released trigger.
    pub fn new() -> (l: Self)
        ensures
            !l.was_high,
    {
        TriggerLatch { was_high: false }
    }

    /// Feed whether the trigger is now past the threshold; returns whether
    /// this is a rising edge (a fresh pull).
    pub fn update(&mut self, high: bool) -> (fire: bool)
        ensures
            fire == latch_fires(old(self).was_high, high),
            fire ==> high,
            fire ==> !old(self).was_high,
            high && !old(self).was_high ==> fire,
            final(self).was_high == high,
    {
        let fire = high && !self.was_high;
        self.was_high = high;
        fire
    }
}

/// Whether a latch that was high (`was_high`) fires on reading `high`.
pub open spec fn latch_fires(was_high: bool, high: bool) -> bool {
    high && !was_high
}

/// Number of times a latch starting at `was_high` fires over `readings`.
pub open spec fn fire_count(was_high: bool, readings: Seq<bool>) -> nat
    decreases readings.len(),
{
    if readings.len() == 0 {
        0
    } else {
        (if latch_fires(was_high, readings[0]) { 1nat } else { 0nat }) + fire_count(
            readings[0],
            readings.drop_first(),
        )
    }
}

/// The latch fires only on a reading past the threshold, only when the
/// previous reading was not, and always on such a fresh pull.
pub proof fn lemma_latch_fires_on_rising_edge(was_high: bool, high: bool)
    ensures
        latch_fires(was_high, high) ==> high,
        latch_fires(was_high, high) ==> !was_high,
        high && !was_high ==> latch_fires(was_high, high),
{
}

/// A trigger left below the threshold never fires, whatever the latch held.
pub proof fn lemma_low_trigger_never_fires(was_high: bool, k: nat)
    ensures
        fire_count(was_high, Seq::new(k, |i: int| false)) == 0,
    decreases k,
{
    if k > 0 {
        let s = Seq::new(k, |i: int| false);
        assert(s.drop_first() =~= Seq::new((k - 1) as nat, |i: int| false));
        lemma_low_trigger_never_fires(false, (k - 1) as nat);
    }
}

/// A held trigger fires once: over `k >= 1` readings past the threshold, a
/// released latch fires exactly once, and a latch that is already high
/// does not fire at all.
pub proof fn lemma_held_trigger_fires_once(k: nat)
    requires
        k >= 1,
    ensures
        fire_count(false, Seq::new(k, |i: int| true)) == 1,
        fire_count(true, Seq::new(k, |i: int| true)) == 0,
    decreases k,
{
    lemma_held_high_no_fire(k);
    let s = Seq::new(k, |i: int| true);
    assert(s.drop_first() =~= Seq::new((k - 1) as nat, |i: int| true));
    lemma_held_high_no_fire((k - 1) as nat);
}

proof fn lemma_held_high_no_fire(k: nat)
    ensures
        fire_count(true, Seq::new(k, |i: int| true)) == 0,
    decreases k,
{
    if k > 0 {
        let s = Seq::new(k, |i: int| true);
        assert(s.drop_first() =~= Seq::new((k - 1) as nat, |i: int| true));
        lemma_held_high_no_fire((k - 1) as nat);
    }
}

/// Gamepad axes the controller reads.
#[derive(Clone, Copy, PartialEq, Eq, Debug, Structural)]
pub enum PadAxis {
    LeftStickX,
    LeftStickY,
    RightStickX,
    RightStickY,
    LeftZ,
    RightZ,
    /// Any other axis.
    Other,
}

/// What moving an axis drives.
#[derive(Clone, Copy, PartialEq, Eq, Debug, Structural)]
pub enum AxisTarget {
    WarpX,
    WarpY,
    Rotate,
    Zoom,
    /// Left analog trigger: dissolve, and a palette shift down on a pull.
    LeftTrigger,
    /// Right analog trigger: dissolve, and a palette shift up on a pull.
    RightTrigger,
    Ignore,
}

/// The axis map: left stick warps, right stick rotates and zooms, the
/// analog triggers dissolve and nudge the palette.
pub open spec fn axis_target_spec(a: PadAxis) -> AxisTarget {
    match a {
        PadAxis::LeftStickX => AxisTarget::WarpX,
        PadAxis::LeftStickY => AxisTarget::WarpY,
        PadAxis::RightStickX => AxisTarget::Rotate,
        PadAxis::RightStickY => AxisTarget::Zoom,
        PadAxis::LeftZ => AxisTarget::LeftTrigger,
        PadAxis::RightZ => AxisTarget::RightTrigger,
        PadAxis::Other => AxisTarget::Ignore,
    }
}

/// The axis map by hand: the left stick warps (x, y), the right stick
/// rotates (x) and zooms (y), the analog triggers go to their trigger
/// handling, and other axes are ignored.
pub proof fn lemma_axis_map()
    ensures
        axis_target_spec(PadAxis::LeftStickX) == AxisTarget::WarpX,
        axis_target_spec(PadAxis::LeftStickY) == AxisTarget::WarpY,
        axis_target_spec(PadAxis::RightStickX) == AxisTarget::Rotate,
        axis_target_spec(PadAxis::RightStickY) == AxisTarget::Zoom,
        axis_target_spec(PadAxis::LeftZ) == AxisTarget::LeftTrigger,
        axis_target_spec(PadAxis::RightZ) == AxisTarget::RightTrigger,
        axis_target_spec(PadAxis::Other) == AxisTarget::Ignore,
{
}

/// What moving axis `a` drives.
pub fn axis_target(a: PadAxis) -> (t: AxisTarget)
    ensures
        t == axis_target_spec(a),
{
    match a {
        PadAxis::LeftStickX => AxisTarget::WarpX,
        PadAxis::LeftStickY => AxisTarget::WarpY,
        PadAxis::RightStickX => AxisTarget::Rotate,
        PadAxis::RightStickY => AxisTarget::Zoom,
        PadAxis::LeftZ => AxisTarget::LeftTrigger,
        PadAxis::RightZ => AxisTarget::RightTrigger,
        PadAxis::Other => AxisTarget::Ignore,
    }
}

/// Keys by position that adjust the live-audio blend.
#[derive(Clone, Copy, PartialEq, Eq, Debug, Structural)]
pub enum KeyCode {
    BracketLeft,
    BracketRight,
    Comma,
    Period,
    ArrowLeft,
    ArrowRight,
    /// Any other physical key.
    Other,
}

/// Keys by meaning that adjust the live-audio blend.
#[derive(Clone, Copy, PartialEq, Eq, Debug, Structural)]
pub enum NamedKey {
    ArrowLeft,
    ArrowRight,
    /// Any other logical key.
    Other,
}

/// A keyboard adjustment of the live-audio blend.
#[derive(Clone, Copy, PartialEq, Eq, Debug, Structural)]
pub enum MixStep {
    /// Less live audio (one step of 0.1).
    Lower,
    /// More live audio (one step of 0.1).
    Raise,
    /// No change.
    Keep,
}

/// The key map: `[`, `,` and left arrow lower, `]`, `.` and right arrow
/// raise; the logical arrow keys count when the physical key is none of
/// these; repeats and releases do nothing.
pub open spec fn mix_step_spec(repeat: bool, pressed: bool, physical: KeyCode, logical: NamedKey) -> MixStep {
    if repeat || !pressed {
        MixStep::Keep
    } else {
        match physical {
            KeyCode::BracketLeft | KeyCode::Comma | KeyCode::ArrowLeft => MixStep::Lower,
            KeyCode::BracketRight | KeyCode::Period | KeyCode::ArrowRight => MixStep::Raise,
            KeyCode::Other => match logical {
                NamedKey::ArrowLeft => MixStep::Lower,
                NamedKey::ArrowRight => MixStep::Raise,
                NamedKey::Other => MixStep::Keep,
            },
        }
    }
}

/// The key map by hand: releases and repeats change nothing; on a fresh
/// press the left-hand keys (`[`, `,`, left arrow) lower the blend and the
/// right-hand keys (`]`, `.`, right arrow) raise it, whatever the logical
/// key; any other physical key goes by the logical arrow keys.
pub proof fn lemma_mix_keys(logical: NamedKey, physical: KeyCode)
    ensures
        mix_step_spec(true, true, physical, logical) == MixStep::Keep,
        mix_step_spec(false, false, physical, logical) == MixStep::Keep,
        mix_step_spec(false, true, KeyCode::BracketLeft, logical) == MixStep::Lower,
        mix_step_spec(false, true, KeyCode::Comma, logical) == MixStep::Lower,
        mix_step_spec(false, true, KeyCode::ArrowLeft, logical) == MixStep::Lower,
        mix_step_spec(false, true, KeyCode::BracketRight, logical) == MixStep::Raise,
        mix_step_spec(false, true, KeyCode::Period, logical) == MixStep::Raise,
        mix_step_spec(false, true, KeyCode::ArrowRight, logical) == MixStep::Raise,
        mix_step_spec(false, true, KeyCode::Other, NamedKey::ArrowLeft) == MixStep::Lower,
        mix_step_spec(false, true, KeyCode::Other, NamedKey::ArrowRight) == MixStep::Raise,
        mix_step_spec(false, true, KeyCode::Other, NamedKey::Other) == MixStep::Keep,
{
}

/// How a keyboard event adjusts the live-audio blend.
pub fn mix_step(repeat: bool, pressed: bool, physical: KeyCode, logical: NamedKey) -> (s: MixStep)
    ensures
        s == mix_step_spec(repeat, pressed, physical, logical),
        repeat || !pressed ==> s == MixStep::Keep,
        !repeat && pressed && (physical == KeyCode::BracketLeft || physical == KeyCode::Comma || physical
            == KeyCode::ArrowLeft) ==> s == MixStep::Lower,
        !repeat && pressed && (physical == KeyCode::BracketRight || physical == KeyCode::Period
            || physical == KeyCode::ArrowRight) ==> s == MixStep::Raise,
        !repeat && pressed && physical == KeyCode::Other ==> s == (if logical == NamedKey::ArrowLeft {
            MixStep::Lower
        } else if logical == NamedKey::ArrowRight {
            MixStep::Raise
        } else {
            MixStep::Keep
        }),
{
    if repeat || !pressed {
        return MixStep::Keep;
    }
    match physical {
        KeyCode::BracketLeft | KeyCode::Comma | KeyCode::ArrowLeft => MixStep::Lower,
        KeyCode::BracketRight | KeyCode::Period | KeyCode::ArrowRight => MixStep::Raise,
        KeyCode::Other => match logical {
            NamedKey::ArrowLeft => MixStep::Lower,
            NamedKey::ArrowRight => MixStep::Raise,
            NamedKey::Other => MixStep::Keep,
        },
    }
}

} // verus!
