//! What is shown for the current value of a setting.

use crate::cycle::{find_i64, find_int, find_scale, find_scale_option};
use crate::l10n::L10n;
use crate::registry::{int_options, scale_options, Descriptor, Domain, SettingDef, SettingKind};
use crate::scale::Scale;
use crate::settings::{get_bool, get_i64, get_scale, GraphicsSettings};
use crate::text::{decimal, decimal_text};
use vstd::prelude::*;
use vstd::string::StringExecFns;

verus! {

/// What to show for a value.
#[derive(Debug, PartialEq, Eq)]
pub enum Shown {
    /// This text.
    Text(String),
    /// A render scale that is none of the factors on offer: the stored
    /// number, for the caller to print with one decimal.
    Raw(Scale),
}

/// The text shown for the setting that `d` describes: the label of the
/// option that the value is found at; for a whole number that is no option,
/// its decimal text; for a flag, the on or off text of `t`. A render scale
/// that is no option has no text here: `None`.
pub open spec fn display_text(s: GraphicsSettings, d: Descriptor, t: L10n) -> Option<Seq<char>> {
    match d.domain {
        Domain::Ints(options) => Some(
            match find_int(options, s.int_of(d.field), 0) {
                Some(i) => options[i].0,
                None => decimal(s.int_of(d.field) as int),
            },
        ),
        Domain::Scales(options) => match find_scale(options, s.scale_of(d.field), 0) {
            Some(i) => Some(options[i].0),
            None => None,
        },
        Domain::Flag => Some(
            if s.flag_of(d.field) {
                t.on@
            } else {
                t.off@
            },
        ),
    }
}

/// What to show for the setting that `def` describes.
pub fn display_value(s: &GraphicsSettings, def: &SettingDef, t: &L10n) -> (shown: Shown)
    requires
        def@.usable(),
    ensures
        match shown {
            Shown::Text(text) => display_text(*s, def@, *t) == Some(text@),
            Shown::Raw(number) => display_text(*s, def@, *t).is_none() && number == s.scale_of(
                def.field,
            ),
        },
{
    match &def.kind {
        SettingKind::SelectI64(options) => {
            let cur = get_i64(s, def.field);
            match find_i64(options, cur) {
                Some(i) => Shown::Text(options[i].0.clone()),
                None => Shown::Text(decimal_text(cur)),
            }
        },
        SettingKind::SelectScale(options) => {
            let cur = get_scale(s, def.field);
            match find_scale_option(options, cur) {
                Some(i) => Shown::Text(options[i].0.clone()),
                None => Shown::Raw(cur),
            }
        },
        SettingKind::Toggle => {
            if get_bool(s, def.field) {
                Shown::Text(String::from_str(t.on))
            } else {
                Shown::Text(String::from_str(t.off))
            }
        },
    }
}

} // verus!
