//! The console front end's own decisions: how large a canvas fits a terminal,
//! and what each key asks for.
use vstd::prelude::*;

verus! {

/// The console viewer. The loop that reads keys and prints frames lives with
/// the program, outside this library.
pub struct Console {}

impl Console {
    pub fn new() -> (r: Self)
        ensures
            r == (Console {}),
    {
        Console {}
    }
}

impl Default for Console {
    fn default() -> (r: Self)
        ensures
            r == (Console {}),
    {
        Self::new()
    }
}

/// Largest number of columns of a canvas that fits a terminal of `width`
/// characters by `height` lines and leaves a line free: the smaller of
/// `(width + 2) / 3` and `height`, made odd and less than it. No canvas fits
/// where that is below one.
pub open spec fn fitting_cols(width: int, height: int) -> int {
    let across = (width + 2) / 3;
    let m = if across <= height {
        across
    } else {
        height
    };
    if m % 2 == 0 {
        m - 1
    } else {
        m - 2
    }
}

/// Columns of the canvas drawn on a terminal of `width` by `height`
/// characters, or `None` where the terminal is too small for any.
pub fn canvas_cols(width: u16, height: u16) -> (r: Option<usize>)
    ensures
        fitting_cols(width as int, height as int) >= 1 ==> r == Some(
            fitting_cols(width as int, height as int) as usize,
        ),
        fitting_cols(width as int, height as int) < 1 ==> r is None,
        r matches Some(c) ==> c % 2 == 1 && c <= height,
{
    let across: usize = (width as usize + 2) / 3;
    let m: usize = if across <= height as usize {
        across
    } else {
        height as usize
    };
    if m < 2 {
        return None;
    }
    if m % 2 == 0 {
        Some(m - 1)
    } else {
        Some(m - 2)
    }
}

/// Axes of rotation.
#[derive(Debug, Clone, Copy, PartialEq, Eq, Structural)]
pub enum Axis {
    X,
    Y,
    Z,
}

/// A key press, as far as the viewer tells keys apart.
#[derive(Debug, Clone, Copy, PartialEq, Eq, Structural)]
pub enum KeyPress {
    Char(char),
    Up,
    Down,
    Left,
    Right,
    Other,
}

/// What the viewer does in answer to a key.
#[derive(Debug, Clone, Copy, PartialEq, Eq, Structural)]
pub enum Action {
    /// Say goodbye and stop.
    Quit,
    /// Draw the object as it stands.
    Draw,
    /// Turn the object by `steps` times the rotation step (a tenth of a half
    /// turn) about `axis`, then draw it.
    Rotate { axis: Axis, steps: i64 },
    /// Nothing.
    Ignore,
}

/// Action for a key: `q` quits, Enter draws, the arrows turn the object one
/// step (up and down about X, left and right about Y; up and left turn
/// backwards), and every other key is ignored.
pub open spec fn spec_action(key: KeyPress) -> Action {
    match key {
        KeyPress::Char(c) => if c == 'q' {
            Action::Quit
        } else if c == '\n' {
            Action::Draw
        } else {
            Action::Ignore
        },
        KeyPress::Up => Action::Rotate { axis: Axis::X, steps: -1i64 },
        KeyPress::Down => Action::Rotate { axis: Axis::X, steps: 1i64 },
        KeyPress::Left => Action::Rotate { axis: Axis::Y, steps: -1i64 },
        KeyPress::Right => Action::Rotate { axis: Axis::Y, steps: 1i64 },
        KeyPress::Other => Action::Ignore,
    }
}

/// Decides what to do with a key press.
pub fn action_for(key: KeyPress) -> (r: Action)
    ensures
        r == spec_action(key),
{
    match key {
        KeyPress::Char(c) => {
            if c == 'q' {
                Action::Quit
            } else if c == '\n' {
                Action::Draw
            } else {
                Action::Ignore
            }
        },
        KeyPress::Up => Action::Rotate { axis: Axis::X, steps: -1 },
        KeyPress::Down => Action::Rotate { axis: Axis::X, steps: 1 },
        KeyPress::Left => Action::Rotate { axis: Axis::Y, steps: -1 },
        KeyPress::Right => Action::Rotate { axis: Axis::Y, steps: 1 },
        KeyPress::Other => Action::Ignore,
    }
}

} // verus!
