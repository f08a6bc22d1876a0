//! The controls of the interactive lighting panel: lighting modes, the
//! selected mode, which slider has focus, and how key presses move them.  The
//! hue and animation phase are real numbers and stay with the caller, which
//! applies the hue steps that `Controls::on_key` returns.
use vstd::prelude::*;

verus! {

/// A lighting mode of the panel.
#[derive(Debug, Clone, Copy, PartialEq, Eq, Structural)]
pub enum Mode {
    Static,
    Rainbow,
    Breathe,
    Off,
}

/// The modes in the order the panel lists them.
pub open spec fn spec_all_modes() -> Seq<Mode> {
    seq![Mode::Static, Mode::Rainbow, Mode::Breathe, Mode::Off]
}

impl Mode {
    /// Every mode, in list order.
    pub fn all() -> (modes: [Mode; 4])
        ensures
            modes@ == spec_all_modes(),
    {
        let modes = [Mode::Static, Mode::Rainbow, Mode::Breathe, Mode::Off];
        assert(modes@ =~= spec_all_modes());
        modes
    }

    pub fn label(self) -> (s: &'static str)
        ensures
            s@ == match self {
                Mode::Static => "Static"@,
                Mode::Rainbow => "Rainbow"@,
                Mode::Breathe => "Breathe"@,
                Mode::Off => "Off"@,
            },
    {
        match self {
            Mode::Static => "Static",
            Mode::Rainbow => "Rainbow",
            Mode::Breathe => "Breathe",
            Mode::Off => "Off",
        }
    }

    pub fn desc(self) -> (s: &'static str)
        ensures
            s@ == match self {
                Mode::Static => "Solid colour"@,
                Mode::Rainbow => "Flowing hue cycle"@,
                Mode::Breathe => "Pulsing glow"@,
                Mode::Off => "Lights out"@,
            },
    {
        match self {
            Mode::Static => "Solid colour",
            Mode::Rainbow => "Flowing hue cycle",
            Mode::Breathe => "Pulsing glow",
            Mode::Off => "Lights out",
        }
    }

    /// Whether the mode changes the colour over time.
    pub fn animated(self) -> (b: bool)
        ensures
            b == (self is Rainbow || self is Breathe),
    {
        matches!(self, Mode::Rainbow | Mode::Breathe)
    }
}

/// The slider that the arrow keys move.
#[derive(Debug, Clone, Copy, PartialEq, Eq, Structural)]
pub enum Focus {
    Hue,
    Sat,
    Bri,
}

/// A key press, as far as the panel tells keys apart.
#[derive(Debug, Clone, Copy, PartialEq, Eq, Structural)]
pub enum Key {
    Char(char),
    Esc,
    Up,
    Down,
    Tab,
    Left,
    Right,
    Other,
}

/// The integer state of the panel.
pub struct Controls {
    selected: usize,
    sat: u8,
    bri: u8,
    focus: Focus,
    quit: bool,
}

/// The panel state as plain values: selected mode index, saturation and
/// brightness in percent, focused slider, and whether the user quit.
pub ghost struct ControlsView {
    pub selected: nat,
    pub sat: nat,
    pub bri: nat,
    pub focus: Focus,
    pub quit: bool,
}

impl View for Controls {
    type V = ControlsView;

    closed spec fn view(&self) -> ControlsView {
        ControlsView {
            selected: self.selected as nat,
            sat: self.sat as nat,
            bri: self.bri as nat,
            focus: self.focus,
            quit: self.quit,
        }
    }
}

/// The slider after `focus` in the cycle hue, saturation, brightness.
pub open spec fn next_focus(focus: Focus) -> Focus {
    match focus {
        Focus::Hue => Focus::Sat,
        Focus::Sat => Focus::Bri,
        Focus::Bri => Focus::Hue,
    }
}

/// A percentage moved by `step` fives, kept within 0..=100.
pub open spec fn step_percent(v: nat, step: int) -> nat {
    let moved = v + 5 * step;
    if moved < 0 {
        0
    } else if moved > 100 {
        100
    } else {
        moved as nat
    }
}

/// The state after a key press, and the hue step (in units of 8 degrees) that
/// it asks for.
pub open spec fn spec_on_key(s: ControlsView, key: Key) -> (ControlsView, int) {
    match key {
        Key::Char('q') | Key::Esc => (ControlsView { quit: true, ..s }, 0),
        Key::Up => (ControlsView { selected: if s.selected == 0 { 0 } else { (s.selected - 1) as nat }, ..s }, 0),
        Key::Down => (ControlsView { selected: if s.selected + 1 < 3 { s.selected + 1 } else { 3 }, ..s }, 0),
        Key::Char(' ') | Key::Tab => (ControlsView { focus: next_focus(s.focus), ..s }, 0),
        Key::Left | Key::Right => {
            let step: int = if key == Key::Right { 1 } else { -1 };
            match s.focus {
                Focus::Hue => (s, step),
                Focus::Sat => (ControlsView { sat: step_percent(s.sat, step), ..s }, 0),
                Focus::Bri => (ControlsView { bri: step_percent(s.bri, step), ..s }, 0),
            }
        },
        _ => (s, 0),
    }
}

fn step_percent_exec(v: u8, step: i32) -> (r: u8)
    requires
        v <= 100,
        step == 1 || step == -1,
    ensures
        r == step_percent(v as nat, step as int),
        r <= 100,
{
    let moved = v as i32 + step * 5;
    (if moved < 0 {
        0
    } else if moved > 100 {
        100
    } else {
        moved
    }) as u8
}

impl Controls {
    #[verifier::type_invariant]
    closed spec fn inv(self) -> bool {
        &&& self.selected < 4
        &&& self.sat <= 100
        &&& self.bri <= 100
    }

    /// The panel at start: static mode, saturation 100%, brightness 85%,
    /// hue focused.
    pub fn new() -> (c: Controls)
        ensures
            c@ == (ControlsView { selected: 0, sat: 100, bri: 85, focus: Focus::Hue, quit: false }),
    {
        Controls { selected: 0, sat: 100, bri: 85, focus: Focus::Hue, quit: false }
    }

    /// The selected mode.
    pub fn mode(&self) -> (m: Mode)
        ensures
            self@.selected < 4,
            m == spec_all_modes()[self@.selected as int],
    {
        proof {
            use_type_invariant(self);
        }
        let modes = Mode::all();
        modes[self.selected]
    }

    pub fn selected(&self) -> (i: usize)
        ensures
            i == self@.selected,
            i < 4,
    {
        proof {
            use_type_invariant(self);
        }
        self.selected
    }

    /// Saturation, in percent.
    pub fn sat(&self) -> (v: u8)
        ensures
            v == self@.sat,
            v <= 100,
    {
        proof {
            use_type_invariant(self);
        }
        self.sat
    }

    /// Brightness, in percent.
    pub fn bri(&self) -> (v: u8)
        ensures
            v == self@.bri,
            v <= 100,
    {
        proof {
            use_type_invariant(self);
        }
        self.bri
    }

    pub fn focus(&self) -> (f: Focus)
        ensures
            f == self@.focus,
    {
        self.focus
    }

    pub fn quit(&self) -> (q: bool)
        ensures
            q == self@.quit,
    {
        self.quit
    }

    /// Apply a key press; returns the hue step it asks for (-1, 0 or 1, in
    /// units of 8 degrees).
    pub fn on_key(&mut self, key: Key) -> (hue_step: i32)
        ensures
            (final(self)@, hue_step as int) == spec_on_key(old(self)@, key),
    {
        proof {
            use_type_invariant(&*self);
        }
        match key {
            Key::Char('q') | Key::Esc => {
                self.quit = true;
                0
            },
            Key::Up => {
                self.selected = self.selected.saturating_sub(1);
                0
            },
            Key::Down => {
                let next = self.selected + 1;
                self.selected = if next < 3 { next } else { 3 };
                0
            },
            Key::Char(' ') | Key::Tab => {
                self.focus = match self.focus {
                    Focus::Hue => Focus::Sat,
                    Focus::Sat => Focus::Bri,
                    Focus::Bri => Focus::Hue,
                };
                0
            },
            Key::Left | Key::Right => {
                let step: i32 = if key == Key::Right { 1 } else { -1 };
                match self.focus {
                    Focus::Hue => step,
                    Focus::Sat => {
                        self.sat = step_percent_exec(self.sat, step);
                        0
                    },
                    Focus::Bri => {
                        self.bri = step_percent_exec(self.bri, step);
                        0
                    },
                }
            },
            _ => 0,
        }
    }
}

/// A panel state within range: a listed mode, percentages up to 100.
pub open spec fn in_range(s: ControlsView) -> bool {
    s.selected < 4 && s.sat <= 100 && s.bri <= 100
}

/// Every key press keeps the panel within range, and asks for a hue step of
/// at most one unit.
pub proof fn lemma_on_key_in_range(s: ControlsView, key: Key)
    requires
        in_range(s),
    ensures
        in_range(spec_on_key(s, key).0),
        -1 <= spec_on_key(s, key).1 <= 1,
{
}

/// Three presses of the focus key bring the focus back where it was.
pub proof fn lemma_focus_cycle(s: ControlsView)
    ensures
        spec_on_key(spec_on_key(spec_on_key(s, Key::Tab).0, Key::Tab).0, Key::Tab).0 == s,
{
}

/// Up undoes Down, except on the last mode.
pub proof fn lemma_down_up(s: ControlsView)
    requires
        s.selected < 3,
    ensures
        spec_on_key(spec_on_key(s, Key::Down).0, Key::Up).0 == s,
{
}

/// An arrow key moves a focused saturation or brightness slider by five
/// percent, up for Right and down for Left, stopping at 100 and at 0, and
/// changes nothing else; under hue focus the panel keeps its state and asks
/// the caller to turn the hue one unit, forward for Right and back for Left.
pub proof fn lemma_arrows_move_focused_slider(s: ControlsView)
    requires
        in_range(s),
    ensures
        s.focus == Focus::Sat ==> spec_on_key(s, Key::Right) == (ControlsView {
            sat: if s.sat + 5 <= 100 {
                s.sat + 5
            } else {
                100
            },
            ..s
        }, 0int),
        s.focus == Focus::Sat ==> spec_on_key(s, Key::Left) == (ControlsView {
            sat: if s.sat >= 5 {
                (s.sat - 5) as nat
            } else {
                0
            },
            ..s
        }, 0int),
        s.focus == Focus::Bri ==> spec_on_key(s, Key::Right) == (ControlsView {
            bri: if s.bri + 5 <= 100 {
                s.bri + 5
            } else {
                100
            },
            ..s
        }, 0int),
        s.focus == Focus::Bri ==> spec_on_key(s, Key::Left) == (ControlsView {
            bri: if s.bri >= 5 {
                (s.bri - 5) as nat
            } else {
                0
            },
            ..s
        }, 0int),
        s.focus == Focus::Hue ==> spec_on_key(s, Key::Right) == (s, 1int),
        s.focus == Focus::Hue ==> spec_on_key(s, Key::Left) == (s, -1int),
        s.focus != Focus::Hue && s.sat < 100 ==> spec_on_key(s, Key::Right).0.sat > s.sat || s.focus
            == Focus::Bri,
        s.focus != Focus::Hue && s.bri < 100 ==> spec_on_key(s, Key::Right).0.bri > s.bri || s.focus
            == Focus::Sat,
{
}

/// A key press asks for a hue step exactly when the hue slider has focus and
/// the key is an arrow; saturation and brightness never turn the hue.
pub proof fn lemma_hue_steps_only_under_hue_focus(s: ControlsView, key: Key)
    ensures
        spec_on_key(s, key).1 != 0 <==> (s.focus == Focus::Hue && (key == Key::Left || key
            == Key::Right)),
        s.focus != Focus::Hue ==> spec_on_key(s, key).1 == 0,
{
}

/// Only `q` and Esc quit, and quitting is never undone; only Up and Down
/// change the mode, by one place within the four modes; only the focus key
/// (Tab or space) changes the focus.
pub proof fn lemma_keys_change_only_their_part(s: ControlsView, key: Key)
    requires
        in_range(s),
    ensures
        spec_on_key(s, key).0.quit == (s.quit || key == Key::Char('q') || key == Key::Esc),
        spec_on_key(s, key).0.selected == if key == Key::Down {
            if s.selected < 3 {
                s.selected + 1
            } else {
                3
            }
        } else if key == Key::Up {
            if s.selected > 0 {
                (s.selected - 1) as nat
            } else {
                0
            }
        } else {
            s.selected
        },
        spec_on_key(s, key).0.focus == if key == Key::Tab || key == Key::Char(' ') {
            next_focus(s.focus)
        } else {
            s.focus
        },
        next_focus(Focus::Hue) == Focus::Sat && next_focus(Focus::Sat) == Focus::Bri
            && next_focus(Focus::Bri) == Focus::Hue,
        key != Key::Left && key != Key::Right ==> spec_on_key(s, key).0.sat == s.sat
            && spec_on_key(s, key).0.bri == s.bri,
{
}

} // verus!
