//! The session: the record being edited, the cursor into the catalog, and
//! the status line, with the commands that a front end issues.
//!
//! The session does no input or output. The front end reads the store and
//! hands over what it found, shows the state, turns each key press into a
//! [`Key`], and after a [`Action::Save`] writes the record and reports how
//! that went.

use crate::cycle::{cycle_field, cycled};
use crate::display::{display_text, display_value, Shown};
use crate::keys::Key;
use crate::l10n::{l10n, texts, L10n, Lang};
use crate::registry::{
    descriptors, lemma_registry_well_formed, registry, setting_defs, SettingDef,
};
use crate::settings::GraphicsSettings;
use crate::store::read_settings;
use vstd::prelude::*;
use vstd::string::StringExecFns;

verus! {

/// What the front end is to do after a key press.
#[derive(Clone, Copy, Debug, PartialEq, Eq, Structural)]
pub enum Action {
    /// Show the state and wait for the next key.
    Continue,
    /// Write the record to the store, then report the outcome with
    /// [`App::save_done`].
    Save,
    /// End the session.
    Quit,
}

/// The state of a session.
pub struct App {
    settings: GraphicsSettings,
    defs: Vec<SettingDef>,
    cursor: usize,
    status: String,
    lang: Lang,
}

/// What a session stands for. Its catalog is always [`registry`].
pub struct AppView {
    pub settings: GraphicsSettings,
    pub cursor: int,
    pub status: Seq<char>,
    pub lang: Lang,
}

/// The cursor `delta` rows on, stopped at the first and the last of `count` rows.
pub open spec fn clamped(cursor: int, delta: int, count: int) -> int {
    if cursor + delta < 0 {
        0
    } else if cursor + delta >= count {
        count - 1
    } else {
        cursor + delta
    }
}

/// The separator between the failure text and the cause of a failed save.
pub open spec fn cause_separator() -> Seq<char> {
    seq![':', ' ']
}

/// The status line after a save: the saved text, or the failure text, a
/// colon, a space and the cause.
pub open spec fn save_status(lang: Lang, written: Result<(), String>) -> Seq<char> {
    match written {
        Ok(_) => texts(lang).saved@,
        Err(cause) => texts(lang).save_failed@ + cause_separator() + cause@,
    }
}

/// The status line at the start: empty if a stored record was used, the
/// notice that defaults are in use if not.
pub open spec fn start_status(lang: Lang, existed: bool) -> Seq<char> {
    if existed {
        Seq::empty()
    } else {
        texts(lang).no_registry@
    }
}

/// The session after a key press, and what the front end is to do: `q` and
/// Esc end the session; Up and `k`, Down and `j` move the cursor, which
/// stops at the first and last row; Right and `l` cycle the setting under
/// the cursor forward, Left and `h` backward; `s` asks for a save; any other
/// key changes nothing.
pub open spec fn after_key(v: AppView, key: Key) -> (AppView, Action) {
    let count = registry().len() as int;
    if key == Key::Char('q') || key == Key::Esc {
        (v, Action::Quit)
    } else if key == Key::Up || key == Key::Char('k') {
        (AppView { cursor: clamped(v.cursor, -1, count), ..v }, Action::Continue)
    } else if key == Key::Down || key == Key::Char('j') {
        (AppView { cursor: clamped(v.cursor, 1, count), ..v }, Action::Continue)
    } else if key == Key::Right || key == Key::Char('l') {
        (
            AppView { settings: cycled(v.settings, registry()[v.cursor], 1), ..v },
            Action::Continue,
        )
    } else if key == Key::Left || key == Key::Char('h') {
        (
            AppView { settings: cycled(v.settings, registry()[v.cursor], -1), ..v },
            Action::Continue,
        )
    } else if key == Key::Char('s') {
        (v, Action::Save)
    } else {
        (v, Action::Continue)
    }
}

impl View for App {
    type V = AppView;

    closed spec fn view(&self) -> AppView {
        AppView {
            settings: self.settings,
            cursor: self.cursor as int,
            status: self.status@,
            lang: self.lang,
        }
    }
}

impl App {
    /// The invariant of a session: its catalog is the registry, and the
    /// cursor is on one of its rows.
    pub closed spec fn wf(&self) -> bool {
        &&& descriptors(self.defs@) == registry()
        &&& self.cursor < self.defs@.len()
    }

    /// In a session the cursor is on a row of the catalog.
    pub proof fn lemma_cursor_in_range(&self)
        requires
            self.wf(),
        ensures
            0 <= self@.cursor < registry().len(),
    {
    }

    /// Starts a session in `lang` from what was found in the store: the
    /// stored record, or `None` if there was none to use, in which case the
    /// session starts from the defaults and says so in the status line.
    pub fn new(lang: Lang, stored: Option<GraphicsSettings>) -> (app: App)
        ensures
            app.wf(),
            app@ == (AppView {
                settings: match stored {
                    Some(s) => s,
                    None => GraphicsSettings::defaults(),
                },
                cursor: 0,
                status: start_status(lang, stored.is_some()),
                lang,
            }),
    {
        let (settings, existed) = read_settings(stored);
        let t = l10n(lang);
        let status = if existed {
            String::new()
        } else {
            String::from_str(t.no_registry)
        };
        let defs = setting_defs();
        assert(descriptors(defs@).len() == registry().len());
        App { settings, defs, cursor: 0, status, lang }
    }

    /// The texts of the session's language.
    pub fn t(&self) -> (t: L10n)
        ensures
            t == texts(self@.lang),
    {
        l10n(self.lang)
    }

    /// The record being edited.
    pub fn settings(&self) -> (s: &GraphicsSettings)
        ensures
            *s == self@.settings,
    {
        &self.settings
    }

    /// The catalog.
    pub fn defs(&self) -> (defs: &Vec<SettingDef>)
        requires
            self.wf(),
        ensures
            descriptors(defs@) == registry(),
    {
        &self.defs
    }

    /// The row under the cursor.
    pub fn cursor(&self) -> (cursor: usize)
        ensures
            cursor == self@.cursor,
    {
        self.cursor
    }

    /// The status line.
    pub fn status(&self) -> (status: &str)
        ensures
            status@ == self@.status,
    {
        self.status.as_str()
    }

    /// The session's language.
    pub fn lang(&self) -> (lang: Lang)
        ensures
            lang == self@.lang,
    {
        self.lang
    }

    /// The first row to show so that the row under the cursor is among the
    /// `visible_height` rows shown; with no row to show, the row after it.
    pub fn scroll_offset(&self, visible_height: usize) -> (offset: usize)
        requires
            self.wf(),
        ensures
            offset == if self@.cursor >= visible_height {
                self@.cursor - visible_height + 1
            } else {
                0
            },
            visible_height > 0 ==> offset <= self@.cursor < offset + visible_height,
    {
        assert(descriptors(self.defs@).len() == registry().len());
        if self.cursor >= visible_height {
            self.cursor - visible_height + 1
        } else {
            0
        }
    }

    /// Moves the cursor by `delta` rows; it stops at the first and at the
    /// last row and does not wrap.
    pub fn move_cursor(&mut self, delta: isize)
        requires
            old(self).wf(),
        ensures
            final(self).wf(),
            final(self)@ == (AppView {
                cursor: clamped(old(self)@.cursor, delta as int, registry().len() as int),
                ..old(self)@
            }),
    {
        let count = self.defs.len();
        if delta < 0 {
            let back: usize = (-(delta + 1)) as usize + 1;
            if back > self.cursor {
                self.cursor = 0;
            } else {
                self.cursor = self.cursor - back;
            }
        } else {
            let ahead: usize = delta as usize;
            if ahead >= count - self.cursor {
                self.cursor = count - 1;
            } else {
                self.cursor = self.cursor + ahead;
            }
        }
    }

    /// Cycles the setting under the cursor by `delta` places.
    pub fn cycle(&mut self, delta: isize)
        requires
            old(self).wf(),
        ensures
            final(self).wf(),
            final(self)@ == (AppView {
                settings: cycled(
                    old(self)@.settings,
                    registry()[old(self)@.cursor],
                    delta as int,
                ),
                ..old(self)@
            }),
    {
        proof {
            lemma_registry_well_formed(self.cursor as int);
            assert(descriptors(self.defs@)[self.cursor as int] == self.defs@[self.cursor as int]@);
        }
        cycle_field(&mut self.settings, &self.defs[self.cursor], delta);
    }

    /// Takes note of how writing the record went: the status line becomes
    /// the saved text, or the failure text with the cause.
    pub fn save_done(&mut self, written: Result<(), String>)
        requires
            old(self).wf(),
        ensures
            final(self).wf(),
            final(self)@ == (AppView {
                status: save_status(old(self)@.lang, written),
                ..old(self)@
            }),
    {
        let t = l10n(self.lang);
        match written {
            Ok(_) => {
                self.status = String::from_str(t.saved);
            },
            Err(cause) => {
                proof {
                    reveal_strlit(": ");
                }
                let mut status = String::from_str(t.save_failed);
                status.append(": ");
                status.append(cause.as_str());
                assert(status@ =~= save_status(self.lang, written));
                self.status = status;
            },
        }
    }

    /// What to show for the current value of the setting on row `idx`.
    pub fn value_display(&self, idx: usize) -> (shown: Shown)
        requires
            self.wf(),
            idx < registry().len(),
        ensures
            match shown {
                Shown::Text(text) => display_text(
                    self@.settings,
                    registry()[idx as int],
                    texts(self@.lang),
                ) == Some(text@),
                Shown::Raw(number) => display_text(
                    self@.settings,
                    registry()[idx as int],
                    texts(self@.lang),
                ).is_none() && number == self@.settings.render_scale,
            },
    {
        proof {
            lemma_registry_well_formed(idx as int);
            assert(descriptors(self.defs@)[idx as int] == self.defs@[idx as int]@);
        }
        let t = l10n(self.lang);
        display_value(&self.settings, &self.defs[idx], &t)
    }

    /// Handles one key press.
    pub fn on_key(&mut self, key: Key) -> (action: Action)
        requires
            old(self).wf(),
        ensures
            final(self).wf(),
            (final(self)@, action) == after_key(old(self)@, key),
    {
        match key {
            Key::Esc => Action::Quit,
            Key::Up => {
                self.move_cursor(-1);
                Action::Continue
            },
            Key::Down => {
                self.move_cursor(1);
                Action::Continue
            },
            Key::Right => {
                self.cycle(1);
                Action::Continue
            },
            Key::Left => {
                self.cycle(-1);
                Action::Continue
            },
            Key::Char(c) => {
                if c == 'q' {
                    Action::Quit
                } else if c == 'k' {
                    self.move_cursor(-1);
                    Action::Continue
                } else if c == 'j' {
                    self.move_cursor(1);
                    Action::Continue
                } else if c == 'l' {
                    self.cycle(1);
                    Action::Continue
                } else if c == 'h' {
                    self.cycle(-1);
                    Action::Continue
                } else if c == 's' {
                    Action::Save
                } else {
                    Action::Continue
                }
            },
            _ => Action::Continue,
        }
    }
}

} // verus!
