//! The keys that drive the cockpit.
use vstd::prelude::*;

use crate::cockpit::{Cockpit, CockpitView, FilterView};

verus! {

/// A key the cockpit tells apart.
#[derive(Debug, Clone, Copy, PartialEq, Eq, Structural)]
pub enum Key {
    /// A character.
    Char(char),
    /// Escape.
    Esc,
    /// The down arrow.
    Down,
    /// The up arrow.
    Up,
    /// Enter.
    Enter,
    /// Any other key.
    Other,
}

/// A key press.
#[derive(Debug, Clone, Copy, PartialEq, Eq, Structural)]
pub struct KeyPress {
    /// The key.
    pub code: Key,
    /// Whether the control key was held.
    pub control: bool,
}

/// Whether the loop should keep running or quit.
#[derive(Debug, Clone, Copy, PartialEq, Eq, Structural)]
pub enum Flow {
    /// Keep the cockpit running.
    Continue,
    /// Leave the cockpit.
    Quit,
}

/// The cockpit after a key press.
pub open spec fn pressed(c: CockpitView, key: KeyPress) -> CockpitView {
    if key.control && key.code == Key::Char('c') {
        c
    } else {
        match key.code {
            Key::Esc => CockpitView { detail: false, ..c },
            Key::Down | Key::Char('j') => c.next_selected(),
            Key::Up | Key::Char('k') => c.prev_selected(),
            Key::Enter => CockpitView {
                detail: if c.chosen() is Some {
                    !c.detail
                } else {
                    c.detail
                },
                ..c
            },
            Key::Char('f') => c.role_filter_toggled(),
            Key::Char('c') => CockpitView { filter: c.next_channel_filter(), ..c },
            Key::Char('x') => CockpitView { filter: FilterView::All, ..c },
            _ => c,
        }
    }
}

/// Whether a key press leaves the cockpit: `q`, Ctrl-C, or Esc outside a
/// drill-in.
pub open spec fn quits(c: CockpitView, key: KeyPress) -> bool {
    ||| key.control && key.code == Key::Char('c')
    ||| key.code == Key::Char('q')
    ||| key.code == Key::Esc && !c.detail
}

/// Applies one key press to the cockpit, returning whether to keep running.
pub fn handle_key(cockpit: &mut Cockpit, key: KeyPress) -> (r: Flow)
    requires
        old(cockpit).wf(),
    ensures
        final(cockpit).wf(),
        final(cockpit)@ == pressed(old(cockpit)@, key),
        r == (if quits(old(cockpit)@, key) {
            Flow::Quit
        } else {
            Flow::Continue
        }),
{
    if key.control && key.code == Key::Char('c') {
        return Flow::Quit;
    }
    match key.code {
        Key::Char('q') => Flow::Quit,
        Key::Esc => {
            if cockpit.leave_detail() {
                Flow::Continue
            } else {
                Flow::Quit
            }
        },
        Key::Down | Key::Char('j') => {
            cockpit.select_next();
            Flow::Continue
        },
        Key::Up | Key::Char('k') => {
            cockpit.select_prev();
            Flow::Continue
        },
        Key::Enter => {
            cockpit.toggle_detail();
            Flow::Continue
        },
        Key::Char('f') => {
            cockpit.toggle_role_filter();
            Flow::Continue
        },
        Key::Char('c') => {
            cockpit.cycle_channel_filter();
            Flow::Continue
        },
        Key::Char('x') => {
            cockpit.clear_filter();
            Flow::Continue
        },
        _ => Flow::Continue,
    }
}

/// Esc backs out of a drill-in first, and quits from the overview.
pub proof fn escape_backs_out_then_quits(c: CockpitView)
    ensures
        ({
            let esc = KeyPress { code: Key::Esc, control: false };
            &&& c.detail ==> !quits(c, esc)
            &&& quits(pressed(c, esc), esc)
        }),
{
}

/// No key changes what the crew is known to do: the rows, the feed, the logs
/// and the standing.
pub proof fn keys_leave_the_crew_alone(c: CockpitView, key: KeyPress)
    ensures
        pressed(c, key).rows == c.rows,
        pressed(c, key).feed == c.feed,
        pressed(c, key).logs == c.logs,
        pressed(c, key).standing == c.standing,
{
}

/// Only `q`, Ctrl-C and Esc outside a drill-in leave the cockpit.
pub proof fn few_keys_quit(c: CockpitView, code: Key, control: bool)
    ensures
        quits(c, KeyPress { code: Key::Char('q'), control }),
        quits(c, KeyPress { code: Key::Char('c'), control: true }),
        !c.detail ==> quits(c, KeyPress { code: Key::Esc, control }),
        code != Key::Char('q') && code != Key::Esc && !(control && code == Key::Char('c'))
            ==> !quits(c, KeyPress { code, control }),
        c.detail && code == Key::Esc ==> !quits(c, KeyPress { code, control }),
{
}

/// Each key does its own: the arrows and `j`, `k` move the selection, Enter drills in
/// and out, Esc backs out, `f` filters by the selected role, `c` goes through the
/// channels, and `x` shows everything; every other key does nothing.
pub proof fn each_key_does_its_own(c: CockpitView, other: char)
    ensures
        pressed(c, KeyPress { code: Key::Down, control: false }) == c.next_selected(),
        pressed(c, KeyPress { code: Key::Char('j'), control: false }) == c.next_selected(),
        pressed(c, KeyPress { code: Key::Up, control: false }) == c.prev_selected(),
        pressed(c, KeyPress { code: Key::Char('k'), control: false }) == c.prev_selected(),
        !pressed(c, KeyPress { code: Key::Esc, control: false }).detail,
        c.chosen() is Some ==> pressed(c, KeyPress { code: Key::Enter, control: false }).detail
            == !c.detail,
        c.chosen() is None ==> pressed(c, KeyPress { code: Key::Enter, control: false }).detail
            == c.detail,
        c.chosen() is Some && c.filter != FilterView::Role(c.chosen()->0.role) ==> pressed(
            c,
            KeyPress { code: Key::Char('f'), control: false },
        ).filter == FilterView::Role(c.chosen()->0.role),
        c.filter == FilterView::All && c.channels().len() > 0 ==> pressed(
            c,
            KeyPress { code: Key::Char('c'), control: false },
        ).filter == FilterView::Channel(c.channels()[0]),
        pressed(c, KeyPress { code: Key::Char('x'), control: false }).filter == FilterView::All,
        pressed(c, KeyPress { code: Key::Char('c'), control: true }) == c,
        pressed(c, KeyPress { code: Key::Other, control: false }) == c,
        other != 'j' && other != 'k' && other != 'f' && other != 'c' && other != 'x' ==> pressed(
            c,
            KeyPress { code: Key::Char(other), control: false },
        ) == c,
{
}

/// A key press quits on `q`, on escape outside the detail view, and on control-c, and
/// otherwise changes the view alone: a move key moves the selection.
pub proof fn a_key_press_moves_the_view(c: &mut Cockpit, key: KeyPress, flow: Flow)
    requires
        call_ensures(handle_key, (c, key), flow),
    ensures
        key.control && key.code == Key::Char('c') ==> flow == Flow::Quit && final(c)@ == old(c)@,
        !key.control && key.code == Key::Char('q') ==> flow == Flow::Quit,
        !key.control && key.code == Key::Esc ==> (flow == Flow::Quit <==> !old(c)@.detail),
        !key.control && (key.code == Key::Down || key.code == Key::Char('j')) ==> flow
            == Flow::Continue && final(c)@ == old(c)@.next_selected(),
        !key.control && (key.code == Key::Up || key.code == Key::Char('k')) ==> flow
            == Flow::Continue && final(c)@ == old(c)@.prev_selected(),
        final(c)@.rows == old(c)@.rows && final(c)@.feed == old(c)@.feed && final(c)@.logs
            == old(c)@.logs,
{
}

} // verus!
