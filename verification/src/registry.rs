//! The catalog of editable settings: which field each entry edits, and the
//! values it may take, in the order in which they are shown and cycled.

use crate::scale::{
    close, factor_bits, factor_tenths, lemma_factor_ordinary, lemma_factors_apart, ordinary,
    Scale, FACTOR_COUNT,
};
use crate::settings::{Field, FIELD_COUNT};
use crate::text::{decimal, decimal_text, tenths_label, tenths_text};
use vstd::prelude::*;
use vstd::string::StringExecFns;

verus! {

/// The values a setting may take.
#[derive(Clone, Debug)]
pub enum SettingKind {
    /// One of a list of whole numbers, each with the label shown for it.
    SelectI64(Vec<(String, i64)>),
    /// One of a list of render-scale factors, each with its label.
    SelectScale(Vec<(String, Scale)>),
    /// On or off.
    Toggle,
}

/// One entry of the catalog.
#[derive(Clone, Debug)]
pub struct SettingDef {
    pub field: Field,
    pub kind: SettingKind,
}

/// What a [`SettingKind`] stands for.
pub enum Domain {
    Ints(Seq<(Seq<char>, i64)>),
    Scales(Seq<(Seq<char>, Scale)>),
    Flag,
}

/// What a [`SettingDef`] stands for.
pub struct Descriptor {
    pub field: Field,
    pub domain: Domain,
}

/// The labelled whole numbers that a list of options stands for.
pub open spec fn int_options(options: Seq<(String, i64)>) -> Seq<(Seq<char>, i64)> {
    options.map_values(|p: (String, i64)| (p.0@, p.1))
}

/// The labelled factors that a list of options stands for.
pub open spec fn scale_options(options: Seq<(String, Scale)>) -> Seq<(Seq<char>, Scale)> {
    options.map_values(|p: (String, Scale)| (p.0@, p.1))
}

impl View for SettingKind {
    type V = Domain;

    open spec fn view(&self) -> Domain {
        match self {
            SettingKind::SelectI64(options) => Domain::Ints(int_options(options@)),
            SettingKind::SelectScale(options) => Domain::Scales(scale_options(options@)),
            SettingKind::Toggle => Domain::Flag,
        }
    }
}

impl View for SettingDef {
    type V = Descriptor;

    open spec fn view(&self) -> Descriptor {
        Descriptor { field: self.field, domain: self.kind@ }
    }
}

/// What a list of catalog entries stands for.
pub open spec fn descriptors(defs: Seq<SettingDef>) -> Seq<Descriptor> {
    defs.map_values(|d: SettingDef| d@)
}

impl Descriptor {
    /// What cycling needs of an entry: a list of options is not empty, and a
    /// factor on offer is an ordinary number.
    pub open spec fn usable(self) -> bool {
        match self.domain {
            Domain::Ints(options) => options.len() > 0,
            Domain::Scales(options) => options.len() > 0 && forall|i: int|
                0 <= i < options.len() ==> ordinary((#[trigger] options[i]).1.bits),
            Domain::Flag => true,
        }
    }

    /// A usable entry whose field has the type of its values and whose
    /// options can be told apart: no whole number is listed twice, and no two
    /// factors lie within the tolerance of each other.
    pub open spec fn well_formed(self) -> bool {
        &&& self.usable()
        &&& match self.domain {
            Domain::Ints(options) => self.field.is_int() && forall|i: int, j: int|
                #![trigger options[i], options[j]]
                0 <= i < j < options.len() ==> options[i].1 != options[j].1,
            Domain::Scales(options) => self.field.is_scale() && forall|i: int, j: int|
                #![trigger options[i], options[j]]
                0 <= i < options.len() && 0 <= j < options.len() && i != j ==> !close(
                    options[i].1.bits,
                    options[j].1.bits,
                ),
            Domain::Flag => self.field.is_flag(),
        }
    }
}

/// The label "Off".
pub open spec fn off_label() -> Seq<char> {
    seq!['O', 'f', 'f']
}

/// The label "On".
pub open spec fn on_label() -> Seq<char> {
    seq!['O', 'n']
}

/// `count` whole numbers from `first` up, each labelled with its decimal text.
pub open spec fn numbered(first: int, count: nat) -> Seq<(Seq<char>, i64)> {
    Seq::new(count, |k: int| (decimal(first + k), (first + k) as i64))
}

/// The frame rates on offer: 30, 60 and 120.
pub open spec fn fps_choices() -> Seq<(Seq<char>, i64)> {
    seq![(decimal(30), 30i64), (decimal(60), 60i64), (decimal(120), 120i64)]
}

/// The quality levels 1 to 5.
pub open spec fn quality_choices() -> Seq<(Seq<char>, i64)> {
    numbered(1, 5)
}

/// Off (0) and on (1).
pub open spec fn switch_choices() -> Seq<(Seq<char>, i64)> {
    seq![(off_label(), 0i64), (on_label(), 1i64)]
}

/// Off (0), then the levels 1 to 5.
pub open spec fn upscaling_choices() -> Seq<(Seq<char>, i64)> {
    seq![(off_label(), 0i64)] + numbered(1, 5)
}

/// The first `count` render-scale factors, labelled with one decimal.
pub open spec fn first_factors(count: nat) -> Seq<(Seq<char>, Scale)> {
    Seq::new(
        count,
        |k: int| (tenths_text(factor_tenths(k) as nat), Scale { bits: factor_bits(k) }),
    )
}

/// The render-scale factors 0.6 to 2.0 in steps of 0.2.
pub open spec fn factor_choices() -> Seq<(Seq<char>, Scale)> {
    first_factors(FACTOR_COUNT as nat)
}

/// The entry of the catalog for `field`: the values that the setting may take.
pub open spec fn descriptor_of(field: Field) -> Descriptor {
    Descriptor {
        field,
        domain: match field {
            Field::Fps => Domain::Ints(fps_choices()),
            Field::VSync => Domain::Flag,
            Field::RenderScale => Domain::Scales(factor_choices()),
            Field::ResolutionQuality
            | Field::ShadowQuality
            | Field::LightQuality
            | Field::CharacterQuality
            | Field::EnvDetailQuality
            | Field::ReflectionQuality
            | Field::SfxQuality
            | Field::BloomQuality
            | Field::ParticleTrail => Domain::Ints(quality_choices()),
            Field::AaMode | Field::SelfShadow => Domain::Ints(switch_choices()),
            Field::DlssQuality => Domain::Ints(upscaling_choices()),
        },
    }
}

/// The catalog: the entry of every editable setting, in display and
/// navigation order.
pub open spec fn registry() -> Seq<Descriptor> {
    Seq::new(FIELD_COUNT as nat, |row: int| descriptor_of(Field::spec_at(row)))
}

/// The entry of every setting is well formed.
pub proof fn lemma_descriptor_well_formed(field: Field)
    ensures
        descriptor_of(field).well_formed(),
{
    if field == Field::RenderScale {
        let options = factor_choices();
        assert forall|k: int| 0 <= k < options.len() implies ordinary(
            (#[trigger] options[k]).1.bits,
        ) by {
            lemma_factor_ordinary(k);
        }
        assert forall|j: int, k: int|
            #![trigger options[j], options[k]]
            0 <= j < options.len() && 0 <= k < options.len() && j != k implies !close(
            options[j].1.bits,
            options[k].1.bits,
        ) by {
            lemma_factors_apart(j, k);
        }
    }
}

/// Every entry of the catalog is well formed.
pub proof fn lemma_registry_well_formed(row: int)
    requires
        0 <= row < registry().len(),
    ensures
        registry()[row].well_formed(),
{
    lemma_descriptor_well_formed(Field::spec_at(row));
}

/// Appends `count` whole numbers from `first` up, each with its decimal text.
fn push_numbered(options: &mut Vec<(String, i64)>, first: i64, count: usize)
    requires
        0 <= first,
        first + count <= i64::MAX,
    ensures
        int_options(final(options)@) == int_options(old(options)@) + numbered(
            first as int,
            count as nat,
        ),
{
    let mut k: usize = 0;
    while k < count
        invariant
            k <= count,
            0 <= first,
            first + count <= i64::MAX,
            int_options(options@) =~= int_options(old(options)@) + numbered(
                first as int,
                k as nat,
            ),
        decreases count - k,
    {
        let ghost before = options@;
        let value: i64 = first + k as i64;
        options.push((decimal_text(value), value));
        proof {
            let entry = (decimal(value as int), value);
            assert(int_options(options@) =~= int_options(before).push(entry));
            assert(numbered(first as int, (k + 1) as nat) =~= numbered(
                first as int,
                k as nat,
            ).push(entry));
        }
        k = k + 1;
    }
}

fn fps_list() -> (options: Vec<(String, i64)>)
    ensures
        int_options(options@) == fps_choices(),
{
    let mut options: Vec<(String, i64)> = Vec::new();
    options.push((decimal_text(30), 30));
    options.push((decimal_text(60), 60));
    options.push((decimal_text(120), 120));
    assert(int_options(options@) =~= fps_choices());
    options
}

fn quality_list() -> (options: Vec<(String, i64)>)
    ensures
        int_options(options@) == quality_choices(),
{
    let mut options: Vec<(String, i64)> = Vec::new();
    push_numbered(&mut options, 1, 5);
    assert(int_options(options@) =~= quality_choices());
    options
}

fn off_entry() -> (entry: (String, i64))
    ensures
        entry.0@ == off_label(),
        entry.1 == 0,
{
    proof {
        reveal_strlit("Off");
    }
    let label = String::from_str("Off");
    assert(label@ =~= off_label());
    (label, 0)
}

fn switch_list() -> (options: Vec<(String, i64)>)
    ensures
        int_options(options@) == switch_choices(),
{
    proof {
        reveal_strlit("On");
    }
    let mut options: Vec<(String, i64)> = Vec::new();
    options.push(off_entry());
    let label = String::from_str("On");
    assert(label@ =~= on_label());
    options.push((label, 1));
    assert(int_options(options@) =~= switch_choices());
    options
}

fn upscaling_list() -> (options: Vec<(String, i64)>)
    ensures
        int_options(options@) == upscaling_choices(),
{
    let mut options: Vec<(String, i64)> = Vec::new();
    options.push(off_entry());
    push_numbered(&mut options, 1, 5);
    assert(int_options(options@) =~= upscaling_choices());
    options
}

fn factor_list() -> (options: Vec<(String, Scale)>)
    ensures
        scale_options(options@) == factor_choices(),
{
    let mut options: Vec<(String, Scale)> = Vec::new();
    let mut k: usize = 0;
    while k < FACTOR_COUNT
        invariant
            k <= FACTOR_COUNT,
            scale_options(options@) =~= first_factors(k as nat),
        decreases FACTOR_COUNT - k,
    {
        let ghost before = options@;
        let tenths: u64 = 6 + 2 * (k as u64);
        options.push((tenths_label(tenths), Scale::factor(k)));
        proof {
            let entry = (tenths_text(tenths as nat), Scale { bits: factor_bits(k as int) });
            assert(scale_options(options@) =~= scale_options(before).push(entry));
            assert(first_factors((k + 1) as nat) =~= first_factors(k as nat).push(entry));
        }
        k = k + 1;
    }
    assert(scale_options(options@) =~= factor_choices());
    options
}

/// Builds the entry of the catalog for `field`.
pub fn setting_def(field: Field) -> (def: SettingDef)
    ensures
        def@ == descriptor_of(field),
{
    let kind = match field {
        Field::Fps => SettingKind::SelectI64(fps_list()),
        Field::VSync => SettingKind::Toggle,
        Field::RenderScale => SettingKind::SelectScale(factor_list()),
        Field::ResolutionQuality
        | Field::ShadowQuality
        | Field::LightQuality
        | Field::CharacterQuality
        | Field::EnvDetailQuality
        | Field::ReflectionQuality
        | Field::SfxQuality
        | Field::BloomQuality
        | Field::ParticleTrail => SettingKind::SelectI64(quality_list()),
        Field::AaMode | Field::SelfShadow => SettingKind::SelectI64(switch_list()),
        Field::DlssQuality => SettingKind::SelectI64(upscaling_list()),
    };
    SettingDef { field, kind }
}

/// Builds the catalog.
pub fn setting_defs() -> (defs: Vec<SettingDef>)
    ensures
        descriptors(defs@) == registry(),
{
    let mut defs: Vec<SettingDef> = Vec::new();
    let mut row: usize = 0;
    while row < FIELD_COUNT
        invariant
            row <= FIELD_COUNT,
            defs@.len() == row,
            forall|i: int| 0 <= i < row ==> (#[trigger] defs@[i])@ == registry()[i],
        decreases FIELD_COUNT - row,
    {
        defs.push(setting_def(Field::at(row)));
        row = row + 1;
    }
    assert(descriptors(defs@) =~= registry());
    defs
}

} // verus!
