//! Value cycling: moving one setting forward or backward through its
//! options, wrapping at both ends.
//!
//! The current value is looked up among the options, a whole number by
//! equality and a render-scale factor by the tolerance. A value that is not
//! among them counts as standing at the first option, so the next cycle
//! always lands on an option.

use crate::registry::{
    descriptor_of, int_options, lemma_descriptor_well_formed, scale_options, setting_def,
    Descriptor, Domain, SettingDef, SettingKind,
};
use crate::scale::{close, lemma_close_reflexive, ordinary, Scale};
use crate::settings::{
    get_bool, get_i64, get_scale, set_bool, set_i64, set_scale, Field, GraphicsSettings,
};
use vstd::arithmetic::div_mod::{
    lemma_add_mod_noop_right, lemma_mod_multiples_vanish, lemma_small_mod,
    lemma_sub_mod_noop_right,
};
use vstd::prelude::*;

verus! {

/// The first index from `from` on whose option holds `cur`.
pub open spec fn find_int(options: Seq<(Seq<char>, i64)>, cur: i64, from: int) -> Option<int>
    decreases options.len() - from,
{
    if from < 0 || from >= options.len() {
        None
    } else if options[from].1 == cur {
        Some(from)
    } else {
        find_int(options, cur, from + 1)
    }
}

/// The first index from `from` on whose option lies within the tolerance of `cur`.
pub open spec fn find_scale(options: Seq<(Seq<char>, Scale)>, cur: Scale, from: int) -> Option<
    int,
>
    decreases options.len() - from,
{
    if from < 0 || from >= options.len() {
        None
    } else if close(cur.bits, options[from].1.bits) {
        Some(from)
    } else {
        find_scale(options, cur, from + 1)
    }
}

/// Where a value stands: at the index found, at the first option otherwise.
pub open spec fn position(found: Option<int>) -> int {
    match found {
        Some(i) => i,
        None => 0,
    }
}

/// The index `delta` places after `pos` among `n` options, wrapping around;
/// `%` is the remainder that is never negative.
pub open spec fn wrap(pos: int, delta: int, n: int) -> int {
    (pos + delta) % n
}

/// The record after one cycle of the setting that `d` describes.
pub open spec fn cycled(s: GraphicsSettings, d: Descriptor, delta: int) -> GraphicsSettings {
    match d.domain {
        Domain::Ints(options) => {
            let pos = position(find_int(options, s.int_of(d.field), 0));
            s.with_int(d.field, options[wrap(pos, delta, options.len() as int)].1)
        },
        Domain::Scales(options) => {
            let pos = position(find_scale(options, s.scale_of(d.field), 0));
            s.with_scale(d.field, options[wrap(pos, delta, options.len() as int)].1)
        },
        Domain::Flag => s.with_flag(d.field, !s.flag_of(d.field)),
    }
}

/// The record after `times` cycles, each by `delta`.
pub open spec fn cycled_times(s: GraphicsSettings, d: Descriptor, delta: int, times: nat)
    -> GraphicsSettings
    decreases times,
{
    if times == 0 {
        s
    } else {
        cycled(cycled_times(s, d, delta, (times - 1) as nat), d, delta)
    }
}

/// Whether the setting that `d` describes holds one of its options.
pub open spec fn in_domain(s: GraphicsSettings, d: Descriptor) -> bool {
    match d.domain {
        Domain::Ints(options) => exists|i: int|
            0 <= i < options.len() && (#[trigger] options[i]).1 == s.int_of(d.field),
        Domain::Scales(options) => exists|i: int|
            0 <= i < options.len() && (#[trigger] options[i]).1 == s.scale_of(d.field),
        Domain::Flag => true,
    }
}

/// How many options `d` lists; 2 for a flag.
pub open spec fn domain_size(d: Descriptor) -> nat {
    match d.domain {
        Domain::Ints(options) => options.len(),
        Domain::Scales(options) => options.len(),
        Domain::Flag => 2,
    }
}

/// What `find_int` finds is the first match, and it finds one if there is any.
pub proof fn lemma_find_int(options: Seq<(Seq<char>, i64)>, cur: i64, from: int)
    requires
        0 <= from,
    ensures
        match find_int(options, cur, from) {
            Some(i) => from <= i < options.len() && options[i].1 == cur && forall|j: int|
                from <= j < i ==> (#[trigger] options[j]).1 != cur,
            None => forall|j: int| from <= j < options.len() ==> (#[trigger] options[j]).1 != cur,
        },
    decreases options.len() - from,
{
    if from < options.len() && options[from].1 != cur {
        lemma_find_int(options, cur, from + 1);
    }
}

/// What `find_scale` finds is the first match, and it finds one if there is any.
pub proof fn lemma_find_scale(options: Seq<(Seq<char>, Scale)>, cur: Scale, from: int)
    requires
        0 <= from,
    ensures
        match find_scale(options, cur, from) {
            Some(i) => from <= i < options.len() && close(cur.bits, options[i].1.bits)
                && forall|j: int|
                from <= j < i ==> !close(cur.bits, (#[trigger] options[j]).1.bits),
            None => forall|j: int|
                from <= j < options.len() ==> !close(cur.bits, (#[trigger] options[j]).1.bits),
        },
    decreases options.len() - from,
{
    if from < options.len() && !close(cur.bits, options[from].1.bits) {
        lemma_find_scale(options, cur, from + 1);
    }
}

/// In a well-formed entry every option is found at its own index.
proof fn lemma_found_at(d: Descriptor, k: int)
    requires
        d.well_formed(),
        0 <= k < domain_size(d),
    ensures
        match d.domain {
            Domain::Ints(options) => find_int(options, options[k].1, 0) == Some(k),
            Domain::Scales(options) => find_scale(options, options[k].1, 0) == Some(k),
            Domain::Flag => true,
        },
{
    match d.domain {
        Domain::Ints(options) => {
            lemma_find_int(options, options[k].1, 0);
            let found = find_int(options, options[k].1, 0);
            assert(found.is_some());
            let i = found.unwrap();
            if i < k {
                assert(options[i].1 != options[k].1);
            }
        },
        Domain::Scales(options) => {
            lemma_find_scale(options, options[k].1, 0);
            assert(ordinary(options[k].1.bits));
            lemma_close_reflexive(options[k].1.bits);
            let found = find_scale(options, options[k].1, 0);
            assert(found.is_some());
            let i = found.unwrap();
            if i < k {
                assert(!close(options[k].1.bits, options[i].1.bits));
            }
        },
        Domain::Flag => {},
    }
}

/// One cycle from the option at index `k` leads to the option `delta` places on.
proof fn lemma_cycle_from(s: GraphicsSettings, d: Descriptor, k: int, delta: int)
    requires
        d.well_formed(),
        0 <= k < domain_size(d),
    ensures
        match d.domain {
            Domain::Ints(options) => cycled(s.with_int(d.field, options[k].1), d, delta)
                == s.with_int(d.field, options[wrap(k, delta, options.len() as int)].1),
            Domain::Scales(options) => cycled(s.with_scale(d.field, options[k].1), d, delta)
                == s.with_scale(d.field, options[wrap(k, delta, options.len() as int)].1),
            Domain::Flag => true,
        },
{
    lemma_found_at(d, k);
}

/// Cycling always lands on an option of the setting, whatever it held
/// before: a value from outside the options is gone after one cycle.
pub proof fn lemma_cycle_lands_in_domain(s: GraphicsSettings, d: Descriptor, delta: int)
    requires
        d.well_formed(),
    ensures
        in_domain(cycled(s, d, delta), d),
{
    match d.domain {
        Domain::Ints(options) => {
            let pos = position(find_int(options, s.int_of(d.field), 0));
            let next = wrap(pos, delta, options.len() as int);
            assert(0 <= next < options.len());
            assert(options[next].1 == cycled(s, d, delta).int_of(d.field));
        },
        Domain::Scales(options) => {
            let pos = position(find_scale(options, s.scale_of(d.field), 0));
            let next = wrap(pos, delta, options.len() as int);
            assert(0 <= next < options.len());
            assert(options[next].1 == cycled(s, d, delta).scale_of(d.field));
        },
        Domain::Flag => {},
    }
}

/// After `times` forward cycles from the option at index `k` the setting
/// holds the option at index `(k + times) % n`.
proof fn lemma_forward_times(s: GraphicsSettings, d: Descriptor, k: int, times: nat)
    requires
        d.well_formed(),
        d.domain is Ints,
        0 <= k < domain_size(d),
        s.int_of(d.field) == d.domain->Ints_0[k].1,
    ensures
        cycled_times(s, d, 1, times) == s.with_int(
            d.field,
            d.domain->Ints_0[(k + times) % (domain_size(d) as int)].1,
        ),
    decreases times,
{
    let options = d.domain->Ints_0;
    let n = options.len() as int;
    if times == 0 {
        lemma_small_mod(k as nat, n as nat);
    } else {
        let before = (times - 1) as nat;
        lemma_forward_times(s, d, k, before);
        let at = (k + before) % n;
        lemma_cycle_from(s, d, at, 1);
        lemma_add_mod_noop_right(1, k + before, n);
        assert(wrap(at, 1, n) == (k + times) % n);
    }
}

/// Cycle closure: cycling a whole-number setting forward once for each of
/// its options brings back the value it started from, provided that value
/// was one of the options.
pub proof fn lemma_cycle_closure(s: GraphicsSettings, d: Descriptor)
    requires
        d.well_formed(),
        d.domain is Ints,
        in_domain(s, d),
    ensures
        cycled_times(s, d, 1, domain_size(d)) == s,
{
    let options = d.domain->Ints_0;
    let n = options.len() as int;
    let k = choose|i: int| 0 <= i < options.len() && (#[trigger] options[i]).1 == s.int_of(d.field);
    lemma_forward_times(s, d, k, domain_size(d));
    lemma_mod_multiples_vanish(1, k, n);
    lemma_small_mod(k as nat, n as nat);
}

/// Inverse: one cycle forward and one back, or one back and one forward,
/// leave the record as it was, provided the setting held one of its options.
pub proof fn lemma_cycle_inverse(s: GraphicsSettings, d: Descriptor)
    requires
        d.well_formed(),
        in_domain(s, d),
    ensures
        cycled(cycled(s, d, 1), d, -1) == s,
        cycled(cycled(s, d, -1), d, 1) == s,
{
    let n = domain_size(d) as int;
    match d.domain {
        Domain::Ints(options) => {
            let k = choose|i: int|
                0 <= i < options.len() && (#[trigger] options[i]).1 == s.int_of(d.field);
            lemma_cycle_from(s, d, k, 1);
            lemma_cycle_from(s, d, k, -1);
            lemma_cycle_from(s, d, wrap(k, 1, n), -1);
            lemma_cycle_from(s, d, wrap(k, -1, n), 1);
            lemma_add_mod_noop_right(-1, k + 1, n);
            lemma_add_mod_noop_right(1, k - 1, n);
            lemma_small_mod(k as nat, n as nat);
        },
        Domain::Scales(options) => {
            let k = choose|i: int|
                0 <= i < options.len() && (#[trigger] options[i]).1 == s.scale_of(d.field);
            lemma_cycle_from(s, d, k, 1);
            lemma_cycle_from(s, d, k, -1);
            lemma_cycle_from(s, d, wrap(k, 1, n), -1);
            lemma_cycle_from(s, d, wrap(k, -1, n), 1);
            lemma_add_mod_noop_right(-1, k + 1, n);
            lemma_add_mod_noop_right(1, k - 1, n);
            lemma_small_mod(k as nat, n as nat);
        },
        Domain::Flag => {},
    }
}

/// Two cycles of a flag, in whatever directions, bring back its value.
pub proof fn lemma_toggle_twice(s: GraphicsSettings, d: Descriptor, first: int, second: int)
    requires
        d.domain is Flag,
    ensures
        cycled(cycled(s, d, first), d, second) == s,
{
}

/// Cycle closure in the catalog: for every whole-number setting, as many
/// forward cycles as it has options bring back the value it started from,
/// provided that value was one of the options.
pub proof fn lemma_catalog_cycle_closure(s: GraphicsSettings, field: Field)
    requires
        descriptor_of(field).domain is Ints,
        in_domain(s, descriptor_of(field)),
    ensures
        cycled_times(s, descriptor_of(field), 1, domain_size(descriptor_of(field))) == s,
{
    lemma_descriptor_well_formed(field);
    lemma_cycle_closure(s, descriptor_of(field));
}

/// Inverse in the catalog: for every setting, one cycle forward and one
/// back, or one back and one forward, leave the record as it was, provided
/// the setting held one of its options.
pub proof fn lemma_catalog_cycle_inverse(s: GraphicsSettings, field: Field)
    requires
        in_domain(s, descriptor_of(field)),
    ensures
        cycled(cycled(s, descriptor_of(field), 1), descriptor_of(field), -1) == s,
        cycled(cycled(s, descriptor_of(field), -1), descriptor_of(field), 1) == s,
{
    lemma_descriptor_well_formed(field);
    lemma_cycle_inverse(s, descriptor_of(field));
}

/// Self-healing in the catalog: after one cycle, in either direction, a
/// setting holds one of its options, whatever it held before.
pub proof fn lemma_catalog_cycle_lands_in_domain(s: GraphicsSettings, field: Field, delta: int)
    ensures
        in_domain(cycled(s, descriptor_of(field), delta), descriptor_of(field)),
{
    lemma_descriptor_well_formed(field);
    lemma_cycle_lands_in_domain(s, descriptor_of(field), delta);
}

/// The index of the first option that holds `cur`, if any does.
pub fn find_i64(options: &Vec<(String, i64)>, cur: i64) -> (found: Option<usize>)
    ensures
        match found {
            Some(i) => i < options.len() && find_int(int_options(options@), cur, 0) == Some(
                i as int,
            ),
            None => find_int(int_options(options@), cur, 0).is_none(),
        },
{
    let mut i: usize = 0;
    while i < options.len()
        invariant
            i <= options.len(),
            find_int(int_options(options@), cur, 0) == find_int(
                int_options(options@),
                cur,
                i as int,
            ),
        decreases options.len() - i,
    {
        if options[i].1 == cur {
            return Some(i);
        }
        i = i + 1;
    }
    None
}

/// The index of the first option that lies within the tolerance of `cur`,
/// if any does.
pub fn find_scale_option(options: &Vec<(String, Scale)>, cur: Scale) -> (found: Option<usize>)
    requires
        forall|i: int|
            0 <= i < options.len() ==> ordinary((#[trigger] scale_options(options@)[i]).1.bits),
    ensures
        match found {
            Some(i) => i < options.len() && find_scale(scale_options(options@), cur, 0)
                == Some(i as int),
            None => find_scale(scale_options(options@), cur, 0).is_none(),
        },
{
    let mut i: usize = 0;
    while i < options.len()
        invariant
            i <= options.len(),
            forall|i: int|
                0 <= i < options.len() ==> ordinary(
                    (#[trigger] scale_options(options@)[i]).1.bits,
                ),
            find_scale(scale_options(options@), cur, 0) == find_scale(
                scale_options(options@),
                cur,
                i as int,
            ),
        decreases options.len() - i,
    {
        assert(scale_options(options@)[i as int].1 == options@[i as int].1);
        if cur.is_close(options[i].1) {
            return Some(i);
        }
        i = i + 1;
    }
    None
}

/// The index `delta` places after `pos` among `n` options, wrapping around.
pub fn next_index(pos: usize, delta: isize, n: usize) -> (next: usize)
    requires
        pos < n,
    ensures
        next == wrap(pos as int, delta as int, n as int),
        next < n,
{
    let size: u128 = n as u128;
    if delta >= 0 {
        let ahead: u128 = (delta as u128) % size;
        proof {
            lemma_add_mod_noop_right(pos as int, delta as int, n as int);
        }
        ((pos as u128 + ahead) % size) as usize
    } else {
        let behind: u128 = (-(delta + 1)) as u128 + 1;
        let back: u128 = behind % size;
        proof {
            lemma_sub_mod_noop_right(pos as int, behind as int, n as int);
            lemma_mod_multiples_vanish(1, pos - back, n as int);
        }
        ((pos as u128 + size - back) % size) as usize
    }
}

/// Cycles the setting that `def` describes by `delta` places: forward for a
/// positive `delta`, backward for a negative one. A flag is flipped,
/// whatever `delta` is.
pub fn cycle_field(s: &mut GraphicsSettings, def: &SettingDef, delta: isize)
    requires
        def@.usable(),
    ensures
        *final(s) == cycled(*old(s), def@, delta as int),
{
    match &def.kind {
        SettingKind::SelectI64(options) => {
            let cur = get_i64(s, def.field);
            let pos = match find_i64(options, cur) {
                Some(i) => i,
                None => 0,
            };
            proof {
                lemma_find_int(int_options(options@), cur, 0);
            }
            let next = next_index(pos, delta, options.len());
            set_i64(s, def.field, options[next].1);
        },
        SettingKind::SelectScale(options) => {
            let cur = get_scale(s, def.field);
            let pos = match find_scale_option(options, cur) {
                Some(i) => i,
                None => 0,
            };
            proof {
                lemma_find_scale(scale_options(options@), cur, 0);
            }
            let next = next_index(pos, delta, options.len());
            set_scale(s, def.field, options[next].1);
        },
        SettingKind::Toggle => {
            let cur = get_bool(s, def.field);
            set_bool(s, def.field, !cur);
        },
    }
}

/// Cycles the setting `field` by `delta` places through the options that
/// the catalog lists for it: forward for a positive `delta`, backward for a
/// negative one, wrapping at both ends. A flag is flipped, whatever `delta` is.
pub fn cycle(s: &mut GraphicsSettings, field: Field, delta: isize)
    ensures
        *final(s) == cycled(*old(s), descriptor_of(field), delta as int),
{
    let def = setting_def(field);
    proof {
        lemma_descriptor_well_formed(field);
    }
    cycle_field(s, &def, delta);
}

} // verus!
