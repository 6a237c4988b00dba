//! The stored form of the record.
//!
//! The record is kept in the per-user configuration store as one binary
//! value: the text of a structured object, one member for each field of the
//! record, followed by a NUL byte. This module holds what is fixed about that
//! form: where the value lives, the name and type of each member, how the
//! members are put together into a record (all of them, each once, or no
//! record at all), and the framing of the text in bytes. Reading and writing
//! the store, and the text syntax of the object, are the caller's part.

use crate::scale::Scale;
use crate::settings::GraphicsSettings;
use vstd::prelude::*;
use vstd::slice::slice_subrange;
use vstd::string::{StrSliceExecFns, StringSliceAdditionalSpecFns};
use vstd::utf8::{
    char_u32_cast, decode_utf8, encode_scalar, encode_utf8, encode_utf8_decode_utf8,
    encode_utf8_valid_utf8, valid_utf8,
};

verus! {

/// The path of the key under the per-user root of the store.
pub const REG_PATH: &'static str = "Software\\Cognosphere\\Star Rail";

/// The name of the value that holds the record.
pub const REG_VALUE: &'static str = "GraphicsSettings_Model_h2986158309";

/// How many members the stored object has.
pub const SLOT_COUNT: usize = 17;

/// A member of the stored object, one for each field of the record, in the
/// order in which they are written.
#[derive(Clone, Copy, Debug, PartialEq, Eq, Structural)]
pub enum Slot {
    Fps,
    EnableVSync,
    RenderScale,
    ResolutionQuality,
    ShadowQuality,
    LightQuality,
    CharacterQuality,
    EnvDetailQuality,
    ReflectionQuality,
    SfxQuality,
    BloomQuality,
    AaMode,
    EnableMetalFxsu,
    EnableHalfResTransparent,
    EnableSelfShadow,
    DlssQuality,
    ParticleTrailSmoothness,
}

/// The type of a member's value.
#[derive(Clone, Copy, Debug, PartialEq, Eq, Structural)]
pub enum ValueKind {
    Int,
    Real,
    Flag,
}

/// The value of a member.
#[derive(Clone, Copy, Debug, PartialEq, Eq, Structural)]
pub enum Value {
    Int(i64),
    Real(Scale),
    Flag(bool),
}

/// Why a member was not taken into a draft.
#[derive(Clone, Copy, Debug, PartialEq, Eq, Structural)]
pub enum PutError {
    /// The draft already holds a value for the member.
    Duplicate,
    /// The value is not of the member's type.
    WrongType,
}

impl Value {
    /// The type of the value.
    pub open spec fn spec_kind(self) -> ValueKind {
        match self {
            Value::Int(_) => ValueKind::Int,
            Value::Real(_) => ValueKind::Real,
            Value::Flag(_) => ValueKind::Flag,
        }
    }

    /// The type of the value.
    #[verifier::when_used_as_spec(spec_kind)]
    pub fn kind(self) -> (k: ValueKind)
        ensures
            k == self.spec_kind(),
    {
        match self {
            Value::Int(_) => ValueKind::Int,
            Value::Real(_) => ValueKind::Real,
            Value::Flag(_) => ValueKind::Flag,
        }
    }
}

impl Slot {
    /// The place of the member in the written order, from 0.
    pub open spec fn spec_index(self) -> int {
        match self {
            Slot::Fps => 0,
            Slot::EnableVSync => 1,
            Slot::RenderScale => 2,
            Slot::ResolutionQuality => 3,
            Slot::ShadowQuality => 4,
            Slot::LightQuality => 5,
            Slot::CharacterQuality => 6,
            Slot::EnvDetailQuality => 7,
            Slot::ReflectionQuality => 8,
            Slot::SfxQuality => 9,
            Slot::BloomQuality => 10,
            Slot::AaMode => 11,
            Slot::EnableMetalFxsu => 12,
            Slot::EnableHalfResTransparent => 13,
            Slot::EnableSelfShadow => 14,
            Slot::DlssQuality => 15,
            Slot::ParticleTrailSmoothness => 16,
        }
    }

    /// The member at place `index` of the written order.
    pub open spec fn spec_at(index: int) -> Slot {
        if index == 0 {
            Slot::Fps
        } else if index == 1 {
            Slot::EnableVSync
        } else if index == 2 {
            Slot::RenderScale
        } else if index == 3 {
            Slot::ResolutionQuality
        } else if index == 4 {
            Slot::ShadowQuality
        } else if index == 5 {
            Slot::LightQuality
        } else if index == 6 {
            Slot::CharacterQuality
        } else if index == 7 {
            Slot::EnvDetailQuality
        } else if index == 8 {
            Slot::ReflectionQuality
        } else if index == 9 {
            Slot::SfxQuality
        } else if index == 10 {
            Slot::BloomQuality
        } else if index == 11 {
            Slot::AaMode
        } else if index == 12 {
            Slot::EnableMetalFxsu
        } else if index == 13 {
            Slot::EnableHalfResTransparent
        } else if index == 14 {
            Slot::EnableSelfShadow
        } else if index == 15 {
            Slot::DlssQuality
        } else {
            Slot::ParticleTrailSmoothness
        }
    }

    /// The type of the member's value.
    pub open spec fn spec_kind(self) -> ValueKind {
        match self {
            Slot::Fps => ValueKind::Int,
            Slot::EnableVSync => ValueKind::Flag,
            Slot::RenderScale => ValueKind::Real,
            Slot::ResolutionQuality => ValueKind::Int,
            Slot::ShadowQuality => ValueKind::Int,
            Slot::LightQuality => ValueKind::Int,
            Slot::CharacterQuality => ValueKind::Int,
            Slot::EnvDetailQuality => ValueKind::Int,
            Slot::ReflectionQuality => ValueKind::Int,
            Slot::SfxQuality => ValueKind::Int,
            Slot::BloomQuality => ValueKind::Int,
            Slot::AaMode => ValueKind::Int,
            Slot::EnableMetalFxsu => ValueKind::Flag,
            Slot::EnableHalfResTransparent => ValueKind::Flag,
            Slot::EnableSelfShadow => ValueKind::Int,
            Slot::DlssQuality => ValueKind::Int,
            Slot::ParticleTrailSmoothness => ValueKind::Int,
        }
    }

    /// The name of the member in the stored object, letter for letter.
    pub open spec fn spec_name(self) -> Seq<char> {
        match self {
            Slot::Fps => "FPS"@,
            Slot::EnableVSync => "EnableVSync"@,
            Slot::RenderScale => "RenderScale"@,
            Slot::ResolutionQuality => "ResolutionQuality"@,
            Slot::ShadowQuality => "ShadowQuality"@,
            Slot::LightQuality => "LightQuality"@,
            Slot::CharacterQuality => "CharacterQuality"@,
            Slot::EnvDetailQuality => "EnvDetailQuality"@,
            Slot::ReflectionQuality => "ReflectionQuality"@,
            Slot::SfxQuality => "SFXQuality"@,
            Slot::BloomQuality => "BloomQuality"@,
            Slot::AaMode => "AAMode"@,
            Slot::EnableMetalFxsu => "EnableMetalFXSU"@,
            Slot::EnableHalfResTransparent => "EnableHalfResTransparent"@,
            Slot::EnableSelfShadow => "EnableSelfShadow"@,
            Slot::DlssQuality => "DLSSQuality"@,
            Slot::ParticleTrailSmoothness => "ParticleTrailSmoothness"@,
        }
    }

    /// The member that goes by `name`, if there is one. Names are matched
    /// exactly; letter case counts.
    pub open spec fn named(name: Seq<char>) -> Option<Slot> {
        if name == "FPS"@ {
            Some(Slot::Fps)
        } else if name == "EnableVSync"@ {
            Some(Slot::EnableVSync)
        } else if name == "RenderScale"@ {
            Some(Slot::RenderScale)
        } else if name == "ResolutionQuality"@ {
            Some(Slot::ResolutionQuality)
        } else if name == "ShadowQuality"@ {
            Some(Slot::ShadowQuality)
        } else if name == "LightQuality"@ {
            Some(Slot::LightQuality)
        } else if name == "CharacterQuality"@ {
            Some(Slot::CharacterQuality)
        } else if name == "EnvDetailQuality"@ {
            Some(Slot::EnvDetailQuality)
        } else if name == "ReflectionQuality"@ {
            Some(Slot::ReflectionQuality)
        } else if name == "SFXQuality"@ {
            Some(Slot::SfxQuality)
        } else if name == "BloomQuality"@ {
            Some(Slot::BloomQuality)
        } else if name == "AAMode"@ {
            Some(Slot::AaMode)
        } else if name == "EnableMetalFXSU"@ {
            Some(Slot::EnableMetalFxsu)
        } else if name == "EnableHalfResTransparent"@ {
            Some(Slot::EnableHalfResTransparent)
        } else if name == "EnableSelfShadow"@ {
            Some(Slot::EnableSelfShadow)
        } else if name == "DLSSQuality"@ {
            Some(Slot::DlssQuality)
        } else if name == "ParticleTrailSmoothness"@ {
            Some(Slot::ParticleTrailSmoothness)
        } else {
            None
        }
    }

    /// The place of the member in the written order, from 0.
    pub fn index(self) -> (index: usize)
        ensures
            index == self.spec_index(),
            index < SLOT_COUNT,
    {
        match self {
            Slot::Fps => 0,
            Slot::EnableVSync => 1,
            Slot::RenderScale => 2,
            Slot::ResolutionQuality => 3,
            Slot::ShadowQuality => 4,
            Slot::LightQuality => 5,
            Slot::CharacterQuality => 6,
            Slot::EnvDetailQuality => 7,
            Slot::ReflectionQuality => 8,
            Slot::SfxQuality => 9,
            Slot::BloomQuality => 10,
            Slot::AaMode => 11,
            Slot::EnableMetalFxsu => 12,
            Slot::EnableHalfResTransparent => 13,
            Slot::EnableSelfShadow => 14,
            Slot::DlssQuality => 15,
            Slot::ParticleTrailSmoothness => 16,
        }
    }

    /// The member at place `index` of the written order.
    pub fn at(index: usize) -> (slot: Slot)
        requires
            index < SLOT_COUNT,
        ensures
            slot == Slot::spec_at(index as int),
            slot.spec_index() == index,
    {
        if index == 0 {
            Slot::Fps
        } else if index == 1 {
            Slot::EnableVSync
        } else if index == 2 {
            Slot::RenderScale
        } else if index == 3 {
            Slot::ResolutionQuality
        } else if index == 4 {
            Slot::ShadowQuality
        } else if index == 5 {
            Slot::LightQuality
        } else if index == 6 {
            Slot::CharacterQuality
        } else if index == 7 {
            Slot::EnvDetailQuality
        } else if index == 8 {
            Slot::ReflectionQuality
        } else if index == 9 {
            Slot::SfxQuality
        } else if index == 10 {
            Slot::BloomQuality
        } else if index == 11 {
            Slot::AaMode
        } else if index == 12 {
            Slot::EnableMetalFxsu
        } else if index == 13 {
            Slot::EnableHalfResTransparent
        } else if index == 14 {
            Slot::EnableSelfShadow
        } else if index == 15 {
            Slot::DlssQuality
        } else {
            Slot::ParticleTrailSmoothness
        }
    }

    /// The type of the member's value.
    #[verifier::when_used_as_spec(spec_kind)]
    pub fn kind(self) -> (k: ValueKind)
        ensures
            k == self.spec_kind(),
    {
        match self {
            Slot::Fps => ValueKind::Int,
            Slot::EnableVSync => ValueKind::Flag,
            Slot::RenderScale => ValueKind::Real,
            Slot::ResolutionQuality => ValueKind::Int,
            Slot::ShadowQuality => ValueKind::Int,
            Slot::LightQuality => ValueKind::Int,
            Slot::CharacterQuality => ValueKind::Int,
            Slot::EnvDetailQuality => ValueKind::Int,
            Slot::ReflectionQuality => ValueKind::Int,
            Slot::SfxQuality => ValueKind::Int,
            Slot::BloomQuality => ValueKind::Int,
            Slot::AaMode => ValueKind::Int,
            Slot::EnableMetalFxsu => ValueKind::Flag,
            Slot::EnableHalfResTransparent => ValueKind::Flag,
            Slot::EnableSelfShadow => ValueKind::Int,
            Slot::DlssQuality => ValueKind::Int,
            Slot::ParticleTrailSmoothness => ValueKind::Int,
        }
    }

    /// The name of the member in the stored object.
    pub fn name(self) -> (name: &'static str)
        ensures
            name@ == self.spec_name(),
    {
        match self {
            Slot::Fps => "FPS",
            Slot::EnableVSync => "EnableVSync",
            Slot::RenderScale => "RenderScale",
            Slot::ResolutionQuality => "ResolutionQuality",
            Slot::ShadowQuality => "ShadowQuality",
            Slot::LightQuality => "LightQuality",
            Slot::CharacterQuality => "CharacterQuality",
            Slot::EnvDetailQuality => "EnvDetailQuality",
            Slot::ReflectionQuality => "ReflectionQuality",
            Slot::SfxQuality => "SFXQuality",
            Slot::BloomQuality => "BloomQuality",
            Slot::AaMode => "AAMode",
            Slot::EnableMetalFxsu => "EnableMetalFXSU",
            Slot::EnableHalfResTransparent => "EnableHalfResTransparent",
            Slot::EnableSelfShadow => "EnableSelfShadow",
            Slot::DlssQuality => "DLSSQuality",
            Slot::ParticleTrailSmoothness => "ParticleTrailSmoothness",
        }
    }

    /// The member that goes by `name`, if there is one. A name that no
    /// member has is no error: such a member of a stored object is passed over.
    pub fn from_name(name: &str) -> (slot: Option<Slot>)
        ensures
            slot == Slot::named(name@),
    {
        if same_text(name, "FPS") {
            Some(Slot::Fps)
        } else if same_text(name, "EnableVSync") {
            Some(Slot::EnableVSync)
        } else if same_text(name, "RenderScale") {
            Some(Slot::RenderScale)
        } else if same_text(name, "ResolutionQuality") {
            Some(Slot::ResolutionQuality)
        } else if same_text(name, "ShadowQuality") {
            Some(Slot::ShadowQuality)
        } else if same_text(name, "LightQuality") {
            Some(Slot::LightQuality)
        } else if same_text(name, "CharacterQuality") {
            Some(Slot::CharacterQuality)
        } else if same_text(name, "EnvDetailQuality") {
            Some(Slot::EnvDetailQuality)
        } else if same_text(name, "ReflectionQuality") {
            Some(Slot::ReflectionQuality)
        } else if same_text(name, "SFXQuality") {
            Some(Slot::SfxQuality)
        } else if same_text(name, "BloomQuality") {
            Some(Slot::BloomQuality)
        } else if same_text(name, "AAMode") {
            Some(Slot::AaMode)
        } else if same_text(name, "EnableMetalFXSU") {
            Some(Slot::EnableMetalFxsu)
        } else if same_text(name, "EnableHalfResTransparent") {
            Some(Slot::EnableHalfResTransparent)
        } else if same_text(name, "EnableSelfShadow") {
            Some(Slot::EnableSelfShadow)
        } else if same_text(name, "DLSSQuality") {
            Some(Slot::DlssQuality)
        } else if same_text(name, "ParticleTrailSmoothness") {
            Some(Slot::ParticleTrailSmoothness)
        } else {
            None
        }
    }
}

/// Whether two texts are the same, character for character.
pub fn same_text(a: &str, b: &str) -> (same: bool)
    ensures
        same == (a@ == b@),
{
    let x = a.as_bytes();
    let y = b.as_bytes();
    proof {
        encode_utf8_decode_utf8(a@);
        encode_utf8_decode_utf8(b@);
    }
    if x.len() != y.len() {
        return false;
    }
    let mut i: usize = 0;
    while i < x.len()
        invariant
            i <= x.len(),
            x.len() == y.len(),
            x@ == encode_utf8(a@),
            y@ == encode_utf8(b@),
            forall|j: int| 0 <= j < i ==> x@[j] == y@[j],
        decreases x.len() - i,
    {
        if x[i] != y[i] {
            return false;
        }
        i = i + 1;
    }
    assert(x@ =~= y@);
    true
}

/// Every member is found again by its name, so no two members share one.
pub proof fn lemma_name_round_trip(slot: Slot)
    ensures
        Slot::named(slot.spec_name()) == Some(slot),
{
    reveal_strlit("FPS");
    reveal_strlit("EnableVSync");
    reveal_strlit("RenderScale");
    reveal_strlit("ResolutionQuality");
    reveal_strlit("ShadowQuality");
    reveal_strlit("LightQuality");
    reveal_strlit("CharacterQuality");
    reveal_strlit("EnvDetailQuality");
    reveal_strlit("ReflectionQuality");
    reveal_strlit("SFXQuality");
    reveal_strlit("BloomQuality");
    reveal_strlit("AAMode");
    reveal_strlit("EnableMetalFXSU");
    reveal_strlit("EnableHalfResTransparent");
    reveal_strlit("EnableSelfShadow");
    reveal_strlit("DLSSQuality");
    reveal_strlit("ParticleTrailSmoothness");
    assert("FPS"@.len() == 3);
    assert("EnableVSync"@.len() == 11);
    assert("EnableVSync"@[0] == 'E');
    assert("RenderScale"@.len() == 11);
    assert("RenderScale"@[0] == 'R');
    assert("ResolutionQuality"@.len() == 17);
    assert("ResolutionQuality"@[2] == 's');
    assert("ShadowQuality"@.len() == 13);
    assert("LightQuality"@.len() == 12);
    assert("LightQuality"@[0] == 'L');
    assert("CharacterQuality"@.len() == 16);
    assert("CharacterQuality"@[0] == 'C');
    assert("EnvDetailQuality"@.len() == 16);
    assert("EnvDetailQuality"@[0] == 'E');
    assert("EnvDetailQuality"@[2] == 'v');
    assert("ReflectionQuality"@.len() == 17);
    assert("ReflectionQuality"@[2] == 'f');
    assert("SFXQuality"@.len() == 10);
    assert("BloomQuality"@.len() == 12);
    assert("BloomQuality"@[0] == 'B');
    assert("AAMode"@.len() == 6);
    assert("EnableMetalFXSU"@.len() == 15);
    assert("EnableHalfResTransparent"@.len() == 24);
    assert("EnableSelfShadow"@.len() == 16);
    assert("EnableSelfShadow"@[0] == 'E');
    assert("EnableSelfShadow"@[2] == 'a');
    assert("DLSSQuality"@.len() == 11);
    assert("DLSSQuality"@[0] == 'D');
    assert("ParticleTrailSmoothness"@.len() == 23);
}

/// The written order numbers the members: each stands at its own place.
pub proof fn lemma_index_round_trip(slot: Slot)
    ensures
        0 <= slot.spec_index() < SLOT_COUNT,
        Slot::spec_at(slot.spec_index()) == slot,
{
}

impl GraphicsSettings {
    /// The value that the record holds for `slot`.
    pub open spec fn value_of(self, slot: Slot) -> Value {
        match slot {
            Slot::Fps => Value::Int(self.fps),
            Slot::EnableVSync => Value::Flag(self.enable_vsync),
            Slot::RenderScale => Value::Real(self.render_scale),
            Slot::ResolutionQuality => Value::Int(self.resolution_quality),
            Slot::ShadowQuality => Value::Int(self.shadow_quality),
            Slot::LightQuality => Value::Int(self.light_quality),
            Slot::CharacterQuality => Value::Int(self.character_quality),
            Slot::EnvDetailQuality => Value::Int(self.env_detail_quality),
            Slot::ReflectionQuality => Value::Int(self.reflection_quality),
            Slot::SfxQuality => Value::Int(self.sfx_quality),
            Slot::BloomQuality => Value::Int(self.bloom_quality),
            Slot::AaMode => Value::Int(self.aa_mode),
            Slot::EnableMetalFxsu => Value::Flag(self.enable_metal_fxsu),
            Slot::EnableHalfResTransparent => Value::Flag(self.enable_half_res_transparent),
            Slot::EnableSelfShadow => Value::Int(self.enable_self_shadow),
            Slot::DlssQuality => Value::Int(self.dlss_quality),
            Slot::ParticleTrailSmoothness => Value::Int(self.particle_trail_smoothness),
        }
    }

    /// The value that the record holds for `slot`.
    pub fn value_at(&self, slot: Slot) -> (value: Value)
        ensures
            value == self.value_of(slot),
            value.spec_kind() == slot.spec_kind(),
    {
        match slot {
            Slot::Fps => Value::Int(self.fps),
            Slot::EnableVSync => Value::Flag(self.enable_vsync),
            Slot::RenderScale => Value::Real(self.render_scale),
            Slot::ResolutionQuality => Value::Int(self.resolution_quality),
            Slot::ShadowQuality => Value::Int(self.shadow_quality),
            Slot::LightQuality => Value::Int(self.light_quality),
            Slot::CharacterQuality => Value::Int(self.character_quality),
            Slot::EnvDetailQuality => Value::Int(self.env_detail_quality),
            Slot::ReflectionQuality => Value::Int(self.reflection_quality),
            Slot::SfxQuality => Value::Int(self.sfx_quality),
            Slot::BloomQuality => Value::Int(self.bloom_quality),
            Slot::AaMode => Value::Int(self.aa_mode),
            Slot::EnableMetalFxsu => Value::Flag(self.enable_metal_fxsu),
            Slot::EnableHalfResTransparent => Value::Flag(self.enable_half_res_transparent),
            Slot::EnableSelfShadow => Value::Int(self.enable_self_shadow),
            Slot::DlssQuality => Value::Int(self.dlss_quality),
            Slot::ParticleTrailSmoothness => Value::Int(self.particle_trail_smoothness),
        }
    }
}

/// A draft with no member taken yet.
pub open spec fn empty_draft() -> Seq<Option<Value>> {
    Seq::new(SLOT_COUNT as nat, |i: int| None)
}

/// What taking `value` for `slot` makes of a draft: the draft with the value
/// in the member's place, or the reason why it is not taken.
pub open spec fn put_outcome(draft: Seq<Option<Value>>, slot: Slot, value: Value) -> Result<
    Seq<Option<Value>>,
    PutError,
> {
    if value.spec_kind() != slot.spec_kind() {
        Err(PutError::WrongType)
    } else if draft[slot.spec_index()].is_some() {
        Err(PutError::Duplicate)
    } else {
        Ok(draft.update(slot.spec_index(), Some(value)))
    }
}

/// Whether a draft holds a value for every member.
pub open spec fn filled(draft: Seq<Option<Value>>) -> bool {
    forall|i: int| 0 <= i < SLOT_COUNT ==> (#[trigger] draft[i]).is_some()
}

/// The whole number that a draft holds for `slot`.
pub open spec fn int_in(draft: Seq<Option<Value>>, slot: Slot) -> i64 {
    match draft[slot.spec_index()] {
        Some(Value::Int(v)) => v,
        _ => 0,
    }
}

/// The factor that a draft holds for `slot`.
pub open spec fn real_in(draft: Seq<Option<Value>>, slot: Slot) -> Scale {
    match draft[slot.spec_index()] {
        Some(Value::Real(v)) => v,
        _ => Scale { bits: 0 },
    }
}

/// The flag that a draft holds for `slot`.
pub open spec fn flag_in(draft: Seq<Option<Value>>, slot: Slot) -> bool {
    match draft[slot.spec_index()] {
        Some(Value::Flag(v)) => v,
        _ => false,
    }
}

/// The record that a filled draft stands for.
pub open spec fn record_of(draft: Seq<Option<Value>>) -> GraphicsSettings {
    GraphicsSettings {
        fps: int_in(draft, Slot::Fps),
        enable_vsync: flag_in(draft, Slot::EnableVSync),
        render_scale: real_in(draft, Slot::RenderScale),
        resolution_quality: int_in(draft, Slot::ResolutionQuality),
        shadow_quality: int_in(draft, Slot::ShadowQuality),
        light_quality: int_in(draft, Slot::LightQuality),
        character_quality: int_in(draft, Slot::CharacterQuality),
        env_detail_quality: int_in(draft, Slot::EnvDetailQuality),
        reflection_quality: int_in(draft, Slot::ReflectionQuality),
        sfx_quality: int_in(draft, Slot::SfxQuality),
        bloom_quality: int_in(draft, Slot::BloomQuality),
        aa_mode: int_in(draft, Slot::AaMode),
        enable_metal_fxsu: flag_in(draft, Slot::EnableMetalFxsu),
        enable_half_res_transparent: flag_in(draft, Slot::EnableHalfResTransparent),
        enable_self_shadow: int_in(draft, Slot::EnableSelfShadow),
        dlss_quality: int_in(draft, Slot::DlssQuality),
        particle_trail_smoothness: int_in(draft, Slot::ParticleTrailSmoothness),
    }
}

/// What is left of a draft once no more members come: the record, if every
/// member was taken.
pub open spec fn finished(draft: Seq<Option<Value>>) -> Option<GraphicsSettings> {
    if filled(draft) {
        Some(record_of(draft))
    } else {
        None
    }
}

/// The draft after taking the members `entries[from..]` one by one, or
/// `None` if one of them is not taken.
pub open spec fn fill(draft: Seq<Option<Value>>, entries: Seq<(Slot, Value)>, from: int) -> Option<
    Seq<Option<Value>>,
>
    decreases entries.len() - from,
{
    if from < 0 || from >= entries.len() {
        Some(draft)
    } else {
        match put_outcome(draft, entries[from].0, entries[from].1) {
            Ok(next) => fill(next, entries, from + 1),
            Err(_) => None,
        }
    }
}

/// The record that a list of members stands for: every member of the record
/// must come exactly once, in any order, with a value of its type. Anything
/// else gives no record, never a partly filled one.
pub open spec fn decoded(entries: Seq<(Slot, Value)>) -> Option<GraphicsSettings> {
    match fill(empty_draft(), entries, 0) {
        Some(draft) => finished(draft),
        None => None,
    }
}

/// The members of a record, in the written order.
pub open spec fn members(s: GraphicsSettings) -> Seq<(Slot, Value)> {
    Seq::new(SLOT_COUNT as nat, |i: int| (Slot::spec_at(i), s.value_of(Slot::spec_at(i))))
}

/// A record in the making: the members taken so far. A partly filled record
/// exists only here.
pub struct Draft {
    slots: [Option<Value>; SLOT_COUNT],
}

impl View for Draft {
    type V = Seq<Option<Value>>;

    closed spec fn view(&self) -> Seq<Option<Value>> {
        self.slots@
    }
}

impl Draft {
    /// A draft with no member taken yet.
    pub fn new() -> (draft: Draft)
        ensures
            draft@ == empty_draft(),
    {
        let slots: [Option<Value>; SLOT_COUNT] = [None; SLOT_COUNT];
        assert(slots@ =~= empty_draft());
        Draft { slots }
    }

    /// Takes `value` for `slot`. A value of another type than the member's,
    /// or a second value for a member, is refused and leaves the draft as it was.
    pub fn put(&mut self, slot: Slot, value: Value) -> (r: Result<(), PutError>)
        ensures
            match put_outcome(old(self)@, slot, value) {
                Ok(next) => r is Ok && final(self)@ == next,
                Err(e) => r == Err::<(), PutError>(e) && final(self)@ == old(self)@,
            },
    {
        if value.kind() != slot.kind() {
            return Err(PutError::WrongType);
        }
        let i = slot.index();
        if self.slots[i].is_some() {
            return Err(PutError::Duplicate);
        }
        self.slots[i] = Some(value);
        Ok(())
    }

    fn int_at(&self, slot: Slot) -> (v: i64)
        ensures
            v == int_in(self@, slot),
    {
        match self.slots[slot.index()] {
            Some(Value::Int(v)) => v,
            _ => 0,
        }
    }

    fn real_at(&self, slot: Slot) -> (v: Scale)
        ensures
            v == real_in(self@, slot),
    {
        match self.slots[slot.index()] {
            Some(Value::Real(v)) => v,
            _ => Scale::from_bits(0),
        }
    }

    fn flag_at(&self, slot: Slot) -> (v: bool)
        ensures
            v == flag_in(self@, slot),
    {
        match self.slots[slot.index()] {
            Some(Value::Flag(v)) => v,
            _ => false,
        }
    }

    /// The record, if every member was taken; `None` if one is missing.
    pub fn finish(&self) -> (r: Option<GraphicsSettings>)
        ensures
            r == finished(self@),
    {
        let mut i: usize = 0;
        while i < SLOT_COUNT
            invariant
                i <= SLOT_COUNT,
                forall|j: int| 0 <= j < i ==> (#[trigger] self.slots@[j]).is_some(),
            decreases SLOT_COUNT - i,
        {
            if self.slots[i].is_none() {
                return None;
            }
            i = i + 1;
        }
        Some(
            GraphicsSettings {
                fps: self.int_at(Slot::Fps),
                enable_vsync: self.flag_at(Slot::EnableVSync),
                render_scale: self.real_at(Slot::RenderScale),
                resolution_quality: self.int_at(Slot::ResolutionQuality),
                shadow_quality: self.int_at(Slot::ShadowQuality),
                light_quality: self.int_at(Slot::LightQuality),
                character_quality: self.int_at(Slot::CharacterQuality),
                env_detail_quality: self.int_at(Slot::EnvDetailQuality),
                reflection_quality: self.int_at(Slot::ReflectionQuality),
                sfx_quality: self.int_at(Slot::SfxQuality),
                bloom_quality: self.int_at(Slot::BloomQuality),
                aa_mode: self.int_at(Slot::AaMode),
                enable_metal_fxsu: self.flag_at(Slot::EnableMetalFxsu),
                enable_half_res_transparent: self.flag_at(Slot::EnableHalfResTransparent),
                enable_self_shadow: self.int_at(Slot::EnableSelfShadow),
                dlss_quality: self.int_at(Slot::DlssQuality),
                particle_trail_smoothness: self.int_at(Slot::ParticleTrailSmoothness),
            },
        )
    }
}

/// Puts a list of members together into a record.
pub fn from_members(entries: &Vec<(Slot, Value)>) -> (r: Option<GraphicsSettings>)
    ensures
        r == decoded(entries@),
{
    let mut draft = Draft::new();
    let mut i: usize = 0;
    while i < entries.len()
        invariant
            i <= entries.len(),
            fill(empty_draft(), entries@, 0) == fill(draft@, entries@, i as int),
        decreases entries.len() - i,
    {
        let (slot, value) = entries[i];
        if draft.put(slot, value).is_err() {
            return None;
        }
        i = i + 1;
    }
    draft.finish()
}

/// Lists the members of a record, in the written order.
pub fn to_members(s: &GraphicsSettings) -> (entries: Vec<(Slot, Value)>)
    ensures
        entries@ == members(*s),
{
    let mut entries: Vec<(Slot, Value)> = Vec::new();
    let mut i: usize = 0;
    while i < SLOT_COUNT
        invariant
            i <= SLOT_COUNT,
            entries@.len() == i,
            forall|j: int| 0 <= j < i ==> (#[trigger] entries@[j]) == members(*s)[j],
        decreases SLOT_COUNT - i,
    {
        let slot = Slot::at(i);
        entries.push((slot, s.value_at(slot)));
        i = i + 1;
    }
    assert(entries@ =~= members(*s));
    entries
}

/// The first `count` members of `s`, taken into an empty draft.
spec fn taken(s: GraphicsSettings, count: int) -> Seq<Option<Value>> {
    Seq::new(
        SLOT_COUNT as nat,
        |i: int|
            if i < count {
                Some(s.value_of(Slot::spec_at(i)))
            } else {
                None
            },
    )
}

proof fn lemma_fill_members(s: GraphicsSettings, from: int)
    requires
        0 <= from <= SLOT_COUNT,
    ensures
        fill(taken(s, from), members(s), from) == Some(taken(s, SLOT_COUNT as int)),
    decreases SLOT_COUNT - from,
{
    if from < SLOT_COUNT {
        let slot = Slot::spec_at(from);
        assert(slot.spec_index() == from);
        assert(taken(s, from).update(from, Some(s.value_of(slot))) =~= taken(s, from + 1));
        lemma_fill_members(s, from + 1);
    }
}

/// Round trip: the members of a record, put together again, give the record.
pub proof fn lemma_members_round_trip(s: GraphicsSettings)
    ensures
        decoded(members(s)) == Some(s),
{
    lemma_fill_members(s, 0);
    assert(taken(s, 0) =~= empty_draft());
    let full = taken(s, SLOT_COUNT as int);
    assert(full[0] == Some(s.value_of(Slot::Fps)));
    assert(full[1] == Some(s.value_of(Slot::EnableVSync)));
    assert(full[2] == Some(s.value_of(Slot::RenderScale)));
    assert(full[3] == Some(s.value_of(Slot::ResolutionQuality)));
    assert(full[4] == Some(s.value_of(Slot::ShadowQuality)));
    assert(full[5] == Some(s.value_of(Slot::LightQuality)));
    assert(full[6] == Some(s.value_of(Slot::CharacterQuality)));
    assert(full[7] == Some(s.value_of(Slot::EnvDetailQuality)));
    assert(full[8] == Some(s.value_of(Slot::ReflectionQuality)));
    assert(full[9] == Some(s.value_of(Slot::SfxQuality)));
    assert(full[10] == Some(s.value_of(Slot::BloomQuality)));
    assert(full[11] == Some(s.value_of(Slot::AaMode)));
    assert(full[12] == Some(s.value_of(Slot::EnableMetalFxsu)));
    assert(full[13] == Some(s.value_of(Slot::EnableHalfResTransparent)));
    assert(full[14] == Some(s.value_of(Slot::EnableSelfShadow)));
    assert(full[15] == Some(s.value_of(Slot::DlssQuality)));
    assert(full[16] == Some(s.value_of(Slot::ParticleTrailSmoothness)));
}

/// Taking members never empties a place, and fills only the places of the
/// members taken.
proof fn lemma_fill_keeps(
    draft: Seq<Option<Value>>,
    entries: Seq<(Slot, Value)>,
    from: int,
    slot: Slot,
)
    requires
        0 <= from,
        draft.len() == SLOT_COUNT,
        draft[slot.spec_index()].is_none(),
        forall|i: int| from <= i < entries.len() ==> (#[trigger] entries[i]).0 != slot,
    ensures
        match fill(draft, entries, from) {
            Some(last) => last[slot.spec_index()].is_none(),
            None => true,
        },
    decreases entries.len() - from,
{
    if from < entries.len() {
        match put_outcome(draft, entries[from].0, entries[from].1) {
            Ok(next) => {
                assert(entries[from].0 != slot);
                lemma_fill_keeps(next, entries, from + 1, slot);
            },
            Err(_) => {},
        }
    }
}

/// Fail closed: a list that lacks a member gives no record, whatever else it holds.
pub proof fn lemma_missing_member(entries: Seq<(Slot, Value)>, slot: Slot)
    requires
        forall|i: int| 0 <= i < entries.len() ==> (#[trigger] entries[i]).0 != slot,
    ensures
        decoded(entries).is_none(),
{
    lemma_fill_keeps(empty_draft(), entries, 0, slot);
}

/// Whether `entries` holds every member of `r` exactly once, in some order:
/// as many entries as there are members, no member twice, and each entry
/// with the value that `r` has for its member.
pub open spec fn holds_exactly(entries: Seq<(Slot, Value)>, r: GraphicsSettings) -> bool {
    &&& entries.len() == SLOT_COUNT
    &&& forall|i: int|
        0 <= i < entries.len() ==> (#[trigger] entries[i]).1 == r.value_of(entries[i].0)
    &&& forall|i: int, j: int|
        #![trigger entries[i], entries[j]]
        0 <= i < j < entries.len() ==> entries[i].0 != entries[j].0
}

/// How many places of a draft hold a value.
spec fn count_some(draft: Seq<Option<Value>>) -> nat
    decreases draft.len(),
{
    if draft.len() == 0 {
        0
    } else {
        count_some(draft.drop_last()) + if draft.last().is_some() {
            1nat
        } else {
            0nat
        }
    }
}

proof fn lemma_count_update(draft: Seq<Option<Value>>, i: int, value: Value)
    requires
        0 <= i < draft.len(),
        draft[i].is_none(),
    ensures
        count_some(draft.update(i, Some(value))) == count_some(draft) + 1,
    decreases draft.len(),
{
    let next = draft.update(i, Some(value));
    if i == draft.len() - 1 {
        assert(next.drop_last() =~= draft.drop_last());
    } else {
        assert(next.drop_last() =~= draft.drop_last().update(i, Some(value)));
        lemma_count_update(draft.drop_last(), i, value);
    }
}

proof fn lemma_count_bounds(draft: Seq<Option<Value>>)
    ensures
        count_some(draft) <= draft.len(),
        count_some(draft) == draft.len() <==> forall|i: int|
            0 <= i < draft.len() ==> (#[trigger] draft[i]).is_some(),
        count_some(draft) == 0 <==> forall|i: int|
            0 <= i < draft.len() ==> (#[trigger] draft[i]).is_none(),
    decreases draft.len(),
{
    if draft.len() > 0 {
        let front = draft.drop_last();
        lemma_count_bounds(front);
        assert(forall|i: int| 0 <= i < front.len() ==> front[i] == draft[i]);
        if forall|i: int| 0 <= i < draft.len() ==> (#[trigger] draft[i]).is_some() {
            assert forall|i: int| 0 <= i < front.len() implies (#[trigger] front[i]).is_some() by {
                assert(draft[i].is_some());
            }
        }
        if forall|i: int| 0 <= i < draft.len() ==> (#[trigger] draft[i]).is_none() {
            assert forall|i: int| 0 <= i < front.len() implies (#[trigger] front[i]).is_none() by {
                assert(draft[i].is_none());
            }
        }
    }
}

/// What a successful `fill` has done: it filled one empty place for each
/// entry, with the entry's value, and touched nothing else.
proof fn lemma_fill_effect(draft: Seq<Option<Value>>, entries: Seq<(Slot, Value)>, from: int)
    requires
        0 <= from <= entries.len(),
        draft.len() == SLOT_COUNT,
        fill(draft, entries, from).is_some(),
    ensures
        ({
            let last = fill(draft, entries, from).unwrap();
            &&& last.len() == SLOT_COUNT
            &&& count_some(last) == count_some(draft) + (entries.len() - from)
            &&& forall|k: int|
                0 <= k < SLOT_COUNT && (#[trigger] draft[k]).is_some() ==> last[k] == draft[k]
            &&& forall|k: int|
                0 <= k < SLOT_COUNT && (#[trigger] last[k]).is_some() ==> draft[k].is_some()
                    || exists|i: int|
                    from <= i < entries.len() && (#[trigger] entries[i]).0.spec_index() == k
            &&& forall|i: int|
                from <= i < entries.len() ==> {
                    &&& last[(#[trigger] entries[i]).0.spec_index()] == Some(entries[i].1)
                    &&& draft[entries[i].0.spec_index()].is_none()
                    &&& entries[i].1.spec_kind() == entries[i].0.spec_kind()
                }
            &&& forall|i: int, j: int|
                #![trigger entries[i], entries[j]]
                from <= i < j < entries.len() ==> entries[i].0 != entries[j].0
        }),
    decreases entries.len() - from,
{
    if from < entries.len() {
        let slot = entries[from].0;
        let value = entries[from].1;
        let at = slot.spec_index();
        let next = draft.update(at, Some(value));
        assert(put_outcome(draft, slot, value) == Ok::<Seq<Option<Value>>, PutError>(next));
        lemma_fill_effect(next, entries, from + 1);
        lemma_count_update(draft, at, value);
        let last = fill(draft, entries, from).unwrap();
        assert(next[at].is_some());
        assert(last[at] == Some(value));
        assert forall|k: int|
            0 <= k < SLOT_COUNT && (#[trigger] last[k]).is_some() implies draft[k].is_some()
            || exists|i: int|
            from <= i < entries.len() && (#[trigger] entries[i]).0.spec_index() == k by {
            if k == at {
                assert(entries[from].0.spec_index() == k);
            } else if next[k].is_some() {
                assert(draft[k].is_some());
            } else {
                let i = choose|i: int|
                    from + 1 <= i < entries.len() && (#[trigger] entries[i]).0.spec_index() == k;
                assert(entries[i].0.spec_index() == k);
            }
        }
        assert forall|i: int| from <= i < entries.len() implies {
            &&& last[(#[trigger] entries[i]).0.spec_index()] == Some(entries[i].1)
            &&& draft[entries[i].0.spec_index()].is_none()
            &&& entries[i].1.spec_kind() == entries[i].0.spec_kind()
        } by {
            if i > from {
                assert(next[entries[i].0.spec_index()].is_none());
            }
        }
        assert forall|i: int, j: int|
            #![trigger entries[i], entries[j]]
            from <= i < j < entries.len() implies entries[i].0 != entries[j].0 by {
            if i == from {
                assert(next[entries[j].0.spec_index()].is_none());
            }
        }
    }
}

/// Members that are all different, each with a value of its type, are all
/// taken by a draft in which their places are empty.
proof fn lemma_fill_succeeds(
    draft: Seq<Option<Value>>,
    entries: Seq<(Slot, Value)>,
    from: int,
    r: GraphicsSettings,
)
    requires
        0 <= from <= entries.len(),
        draft.len() == SLOT_COUNT,
        forall|i: int|
            from <= i < entries.len() ==> (#[trigger] entries[i]).1 == r.value_of(entries[i].0),
        forall|i: int|
            from <= i < entries.len() ==> draft[(#[trigger] entries[i]).0.spec_index()].is_none(),
        forall|i: int, j: int|
            #![trigger entries[i], entries[j]]
            from <= i < j < entries.len() ==> entries[i].0 != entries[j].0,
    ensures
        fill(draft, entries, from).is_some(),
    decreases entries.len() - from,
{
    if from < entries.len() {
        let slot = entries[from].0;
        let value = entries[from].1;
        let at = slot.spec_index();
        let next = draft.update(at, Some(value));
        assert(value == r.value_of(slot));
        assert(put_outcome(draft, slot, value) == Ok::<Seq<Option<Value>>, PutError>(next));
        assert forall|i: int| from + 1 <= i < entries.len() implies next[(#[trigger] entries[
            i
        ]).0.spec_index()].is_none() by {
            assert(entries[from].0 != entries[i].0);
            lemma_index_round_trip(entries[i].0);
            lemma_index_round_trip(slot);
        }
        lemma_fill_succeeds(next, entries, from + 1, r);
    }
}

/// In a draft filled from entries that carry the values of `r`, the place
/// of `slot` holds the value that `r` has for it.
proof fn lemma_slot_value(
    entries: Seq<(Slot, Value)>,
    last: Seq<Option<Value>>,
    r: GraphicsSettings,
    slot: Slot,
)
    requires
        last[slot.spec_index()].is_some(),
        forall|i: int|
            0 <= i < entries.len() ==> (#[trigger] entries[i]).1 == r.value_of(entries[i].0),
        forall|i: int|
            0 <= i < entries.len() ==> last[(#[trigger] entries[i]).0.spec_index()] == Some(
                entries[i].1,
            ),
        forall|k: int|
            0 <= k < SLOT_COUNT && (#[trigger] last[k]).is_some() ==> exists|i: int|
                0 <= i < entries.len() && (#[trigger] entries[i]).0.spec_index() == k,
    ensures
        last[slot.spec_index()] == Some(r.value_of(slot)),
{
    let k = slot.spec_index();
    assert(last[k].is_some());
    let i = choose|i: int| 0 <= i < entries.len() && (#[trigger] entries[i]).0.spec_index() == k;
    lemma_index_round_trip(entries[i].0);
    lemma_index_round_trip(slot);
    assert(entries[i].0 == slot);
}

/// When a list of members gives a record: exactly when it holds every
/// member of that record once, in whatever order. A member that is missing,
/// comes twice or has a value of another type leaves no record.
pub proof fn lemma_decoded_exactly(entries: Seq<(Slot, Value)>, r: GraphicsSettings)
    ensures
        decoded(entries) == Some(r) <==> holds_exactly(entries, r),
{
    lemma_count_bounds(empty_draft());
    if decoded(entries) == Some(r) {
        let last = fill(empty_draft(), entries, 0).unwrap();
        lemma_fill_effect(empty_draft(), entries, 0);
        lemma_count_bounds(last);
        assert forall|i: int| 0 <= i < entries.len() implies (#[trigger] entries[i]).1
            == r.value_of(entries[i].0) by {
            let slot = entries[i].0;
            assert(last[slot.spec_index()] == Some(entries[i].1));
            assert(entries[i].1.spec_kind() == slot.spec_kind());
        }
    }
    if holds_exactly(entries, r) {
        lemma_fill_succeeds(empty_draft(), entries, 0, r);
        let last = fill(empty_draft(), entries, 0).unwrap();
        lemma_fill_effect(empty_draft(), entries, 0);
        lemma_count_bounds(last);
        assert(filled(last));
        lemma_slot_value(entries, last, r, Slot::Fps);
        lemma_slot_value(entries, last, r, Slot::EnableVSync);
        lemma_slot_value(entries, last, r, Slot::RenderScale);
        lemma_slot_value(entries, last, r, Slot::ResolutionQuality);
        lemma_slot_value(entries, last, r, Slot::ShadowQuality);
        lemma_slot_value(entries, last, r, Slot::LightQuality);
        lemma_slot_value(entries, last, r, Slot::CharacterQuality);
        lemma_slot_value(entries, last, r, Slot::EnvDetailQuality);
        lemma_slot_value(entries, last, r, Slot::ReflectionQuality);
        lemma_slot_value(entries, last, r, Slot::SfxQuality);
        lemma_slot_value(entries, last, r, Slot::BloomQuality);
        lemma_slot_value(entries, last, r, Slot::AaMode);
        lemma_slot_value(entries, last, r, Slot::EnableMetalFxsu);
        lemma_slot_value(entries, last, r, Slot::EnableHalfResTransparent);
        lemma_slot_value(entries, last, r, Slot::EnableSelfShadow);
        lemma_slot_value(entries, last, r, Slot::DlssQuality);
        lemma_slot_value(entries, last, r, Slot::ParticleTrailSmoothness);
        assert(record_of(last) == r);
    }
}

/// What the caller works with after reading the store: the record that was
/// stored, or the defaults, and whether a stored record was used.
///
/// `stored` is `None` when the key or the value is missing, and when what is
/// stored is no complete record; none of these is an error.
pub fn read_settings(stored: Option<GraphicsSettings>) -> (r: (GraphicsSettings, bool))
    ensures
        r == match stored {
            Some(s) => (s, true),
            None => (GraphicsSettings::defaults(), false),
        },
{
    match stored {
        Some(s) => (s, true),
        None => (GraphicsSettings::default(), false),
    }
}

/// The bytes without the NUL bytes at their end.
pub open spec fn trimmed(bytes: Seq<u8>) -> Seq<u8>
    decreases bytes.len(),
{
    if bytes.len() > 0 && bytes.last() == 0 {
        trimmed(bytes.drop_last())
    } else {
        bytes
    }
}

/// The text that the bytes decode to when every byte sequence that is not
/// valid UTF-8 is replaced by U+FFFD.
pub uninterp spec fn lossy_utf8(bytes: Seq<u8>) -> Seq<char>;

/// Calls `String::from_utf8_lossy` and takes the text as an owned string.
/// The contract gives the result its name, and says what the standard
/// library documents for bytes that are valid UTF-8: they decode to the text
/// that they encode, with nothing replaced.
#[verifier::external_body]
fn lossy_text(bytes: &[u8]) -> (text: String)
    ensures
        text@ == lossy_utf8(bytes@),
        valid_utf8(bytes@) ==> text@ == decode_utf8(bytes@),
{
    String::from_utf8_lossy(bytes).into_owned()
}

/// Takes the NUL bytes off the end of `bytes`.
pub fn strip_terminator(bytes: &[u8]) -> (kept: &[u8])
    ensures
        kept@ == trimmed(bytes@),
{
    let mut n: usize = bytes.len();
    assert(bytes@.subrange(0, n as int) =~= bytes@);
    while n > 0 && bytes[n - 1] == 0
        invariant
            n <= bytes.len(),
            trimmed(bytes@) == trimmed(bytes@.subrange(0, n as int)),
        decreases n,
    {
        assert(bytes@.subrange(0, n as int).drop_last() =~= bytes@.subrange(0, n - 1));
        n = n - 1;
    }
    slice_subrange(bytes, 0, n)
}

/// The text of a stored value: the bytes without the NUL terminator (and
/// any further NUL bytes before it), decoded as UTF-8 with invalid
/// sequences replaced.
pub fn decode_blob(bytes: &[u8]) -> (text: String)
    ensures
        text@ == lossy_utf8(trimmed(bytes@)),
        valid_utf8(trimmed(bytes@)) ==> text@ == decode_utf8(trimmed(bytes@)),
{
    lossy_text(strip_terminator(bytes))
}

/// The value to store for `text`: its UTF-8 bytes and one NUL byte.
pub fn encode_blob(text: &str) -> (bytes: Vec<u8>)
    ensures
        bytes@ == encode_utf8(text@) + seq![0u8],
{
    let mut bytes = text.as_bytes_vec();
    bytes.push(0);
    assert(bytes@ =~= encode_utf8(text@) + seq![0u8]);
    bytes
}

proof fn lemma_last_byte_of_scalar(c: u32)
    by (bit_vector)
    requires
        c != 0,
    ensures
        (c & 0x7F) as u8 != 0 || c > 0x7F,
        0x80u8 | (c & 0x3F) as u8 != 0,
{
}

/// The encoding of a text that does not end in NUL does not end in a NUL byte.
proof fn lemma_last_byte(chars: Seq<char>)
    requires
        chars.len() > 0,
        chars.last() != '\0',
    ensures
        encode_utf8(chars).len() > 0,
        encode_utf8(chars).last() != 0,
    decreases chars.len(),
{
    let first = encode_scalar(chars[0] as u32);
    let rest = chars.drop_first();
    assert(first.len() > 0);
    if rest.len() == 0 {
        let c = chars[0] as u32;
        assert(encode_utf8(rest) =~= Seq::<u8>::empty());
        assert(encode_utf8(chars) =~= first);
        if c == 0 {
            char_u32_cast(chars[0], 0u32);
            assert(chars[0] == '\0');
        }
        lemma_last_byte_of_scalar(c);
    } else {
        assert(rest.last() == chars.last());
        lemma_last_byte(rest);
    }
}

/// Framing round trip: the value stored for a text that does not end in NUL
/// is, without its terminator, the valid UTF-8 encoding of that text, and
/// decodes to it.
pub proof fn lemma_blob_round_trip(text: Seq<char>)
    requires
        text.len() == 0 || text.last() != '\0',
    ensures
        trimmed(encode_utf8(text) + seq![0u8]) == encode_utf8(text),
        valid_utf8(trimmed(encode_utf8(text) + seq![0u8])),
        decode_utf8(trimmed(encode_utf8(text) + seq![0u8])) == text,
{
    let body = encode_utf8(text);
    let blob = body + seq![0u8];
    assert(blob.drop_last() =~= body);
    if text.len() > 0 {
        lemma_last_byte(text);
    } else {
        assert(body =~= Seq::<u8>::empty());
    }
    assert(trimmed(body) == body);
    encode_utf8_valid_utf8(text);
    encode_utf8_decode_utf8(text);
}

} // verus!
