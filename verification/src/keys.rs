//! Key presses, and the language picker that precedes a session.

use crate::l10n::Lang;
use vstd::prelude::*;

verus! {

/// A key press, as far as the editor tells keys apart.
#[derive(Clone, Copy, Debug, PartialEq, Eq, Structural)]
pub enum Key {
    Char(char),
    Esc,
    Up,
    Down,
    Left,
    Right,
    Enter,
    Other,
}

/// How many languages the picker lists.
pub const LANG_COUNT: usize = 3;

/// What the picker does after a key press.
#[derive(Clone, Copy, Debug, PartialEq, Eq, Structural)]
pub enum Picked {
    /// Go on picking, with the cursor on this row.
    Stay(usize),
    /// Leave without a language.
    Quit,
    /// Start the session in this language.
    Chosen(Lang),
}

impl Lang {
    /// The language on row `index` of the picker.
    pub open spec fn spec_at(index: int) -> Lang {
        if index == 0 {
            Lang::En
        } else if index == 1 {
            Lang::Ko
        } else {
            Lang::Ja
        }
    }

    /// The language on row `index` of the picker.
    pub fn at(index: usize) -> (lang: Lang)
        requires
            index < LANG_COUNT,
        ensures
            lang == Lang::spec_at(index as int),
    {
        if index == 0 {
            Lang::En
        } else if index == 1 {
            Lang::Ko
        } else {
            Lang::Ja
        }
    }
}

/// What a key press does to the picker with its cursor on row `cursor`:
/// `q` and Esc leave; Up and `k`, Down and `j` move the cursor and stop at
/// the first and last row; `1`, `2` and `3` choose a language outright;
/// Enter chooses the one under the cursor; any other key changes nothing.
pub open spec fn picked(cursor: usize, key: Key) -> Picked {
    if key == Key::Char('q') || key == Key::Esc {
        Picked::Quit
    } else if key == Key::Up || key == Key::Char('k') {
        Picked::Stay(
            if cursor > 0 {
                (cursor - 1) as usize
            } else {
                cursor
            },
        )
    } else if key == Key::Down || key == Key::Char('j') {
        Picked::Stay(
            if cursor + 1 < LANG_COUNT {
                (cursor + 1) as usize
            } else {
                cursor
            },
        )
    } else if key == Key::Char('1') {
        Picked::Chosen(Lang::En)
    } else if key == Key::Char('2') {
        Picked::Chosen(Lang::Ko)
    } else if key == Key::Char('3') {
        Picked::Chosen(Lang::Ja)
    } else if key == Key::Enter {
        Picked::Chosen(Lang::spec_at(cursor as int))
    } else {
        Picked::Stay(cursor)
    }
}

/// One step of the language picker.
pub fn pick_step(cursor: usize, key: Key) -> (p: Picked)
    requires
        cursor < LANG_COUNT,
    ensures
        p == picked(cursor, key),
        p matches Picked::Stay(row) ==> row < LANG_COUNT,
{
    match key {
        Key::Esc => Picked::Quit,
        Key::Up => Picked::Stay(if cursor > 0 { cursor - 1 } else { cursor }),
        Key::Down => Picked::Stay(if cursor + 1 < LANG_COUNT { cursor + 1 } else { cursor }),
        Key::Enter => Picked::Chosen(Lang::at(cursor)),
        Key::Char(c) => {
            if c == 'q' {
                Picked::Quit
            } else if c == 'k' {
                Picked::Stay(if cursor > 0 { cursor - 1 } else { cursor })
            } else if c == 'j' {
                Picked::Stay(if cursor + 1 < LANG_COUNT { cursor + 1 } else { cursor })
            } else if c == '1' {
                Picked::Chosen(Lang::En)
            } else if c == '2' {
                Picked::Chosen(Lang::Ko)
            } else if c == '3' {
                Picked::Chosen(Lang::Ja)
            } else {
                Picked::Stay(cursor)
            }
        },
        _ => Picked::Stay(cursor),
    }
}

} // verus!
