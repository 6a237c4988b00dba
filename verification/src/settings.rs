//! The record of settings, the identifiers of the editable ones, and the
//! accessors that read and write a field by its identifier.

use crate::scale::{factor_bits, Scale};
use vstd::prelude::*;

verus! {

/// Every setting with its current value. All fields are always present.
#[derive(Clone, Copy, Debug, PartialEq, Eq, Structural)]
pub struct GraphicsSettings {
    pub fps: i64,
    pub enable_vsync: bool,
    pub render_scale: Scale,
    pub resolution_quality: i64,
    pub shadow_quality: i64,
    pub light_quality: i64,
    pub character_quality: i64,
    pub env_detail_quality: i64,
    pub reflection_quality: i64,
    pub sfx_quality: i64,
    pub bloom_quality: i64,
    pub aa_mode: i64,
    pub enable_metal_fxsu: bool,
    pub enable_half_res_transparent: bool,
    pub enable_self_shadow: i64,
    pub dlss_quality: i64,
    pub particle_trail_smoothness: i64,
}

/// The editable settings. The upscaler flag and half-resolution transparency
/// are part of the record but have no identifier: they are kept, never edited.
#[derive(Clone, Copy, Debug, PartialEq, Eq, Structural)]
pub enum Field {
    Fps,
    VSync,
    RenderScale,
    ResolutionQuality,
    ShadowQuality,
    LightQuality,
    CharacterQuality,
    EnvDetailQuality,
    ReflectionQuality,
    SfxQuality,
    BloomQuality,
    AaMode,
    SelfShadow,
    DlssQuality,
    ParticleTrail,
}

/// How many editable settings there are.
pub const FIELD_COUNT: usize = 15;

impl Field {
    /// The row of the setting in display and navigation order, from 0.
    pub open spec fn spec_row(self) -> int {
        match self {
            Field::Fps => 0,
            Field::VSync => 1,
            Field::RenderScale => 2,
            Field::ResolutionQuality => 3,
            Field::ShadowQuality => 4,
            Field::LightQuality => 5,
            Field::CharacterQuality => 6,
            Field::EnvDetailQuality => 7,
            Field::ReflectionQuality => 8,
            Field::SfxQuality => 9,
            Field::BloomQuality => 10,
            Field::AaMode => 11,
            Field::SelfShadow => 12,
            Field::DlssQuality => 13,
            Field::ParticleTrail => 14,
        }
    }

    /// The setting on row `row`.
    pub open spec fn spec_at(row: int) -> Field {
        if row == 0 {
            Field::Fps
        } else if row == 1 {
            Field::VSync
        } else if row == 2 {
            Field::RenderScale
        } else if row == 3 {
            Field::ResolutionQuality
        } else if row == 4 {
            Field::ShadowQuality
        } else if row == 5 {
            Field::LightQuality
        } else if row == 6 {
            Field::CharacterQuality
        } else if row == 7 {
            Field::EnvDetailQuality
        } else if row == 8 {
            Field::ReflectionQuality
        } else if row == 9 {
            Field::SfxQuality
        } else if row == 10 {
            Field::BloomQuality
        } else if row == 11 {
            Field::AaMode
        } else if row == 12 {
            Field::SelfShadow
        } else if row == 13 {
            Field::DlssQuality
        } else {
            Field::ParticleTrail
        }
    }

    /// The row of the setting in display and navigation order, from 0.
    pub fn row(self) -> (row: usize)
        ensures
            row == self.spec_row(),
            row < FIELD_COUNT,
    {
        match self {
            Field::Fps => 0,
            Field::VSync => 1,
            Field::RenderScale => 2,
            Field::ResolutionQuality => 3,
            Field::ShadowQuality => 4,
            Field::LightQuality => 5,
            Field::CharacterQuality => 6,
            Field::EnvDetailQuality => 7,
            Field::ReflectionQuality => 8,
            Field::SfxQuality => 9,
            Field::BloomQuality => 10,
            Field::AaMode => 11,
            Field::SelfShadow => 12,
            Field::DlssQuality => 13,
            Field::ParticleTrail => 14,
        }
    }

    /// The setting on row `row`.
    pub fn at(row: usize) -> (field: Field)
        requires
            row < FIELD_COUNT,
        ensures
            field == Field::spec_at(row as int),
            field.spec_row() == row,
    {
        if row == 0 {
            Field::Fps
        } else if row == 1 {
            Field::VSync
        } else if row == 2 {
            Field::RenderScale
        } else if row == 3 {
            Field::ResolutionQuality
        } else if row == 4 {
            Field::ShadowQuality
        } else if row == 5 {
            Field::LightQuality
        } else if row == 6 {
            Field::CharacterQuality
        } else if row == 7 {
            Field::EnvDetailQuality
        } else if row == 8 {
            Field::ReflectionQuality
        } else if row == 9 {
            Field::SfxQuality
        } else if row == 10 {
            Field::BloomQuality
        } else if row == 11 {
            Field::AaMode
        } else if row == 12 {
            Field::SelfShadow
        } else if row == 13 {
            Field::DlssQuality
        } else {
            Field::ParticleTrail
        }
    }

    /// Whether the setting holds a whole number.
    pub open spec fn is_int(self) -> bool {
        !self.is_scale() && !self.is_flag()
    }

    /// Whether the setting holds a render-scale factor.
    pub open spec fn is_scale(self) -> bool {
        self == Field::RenderScale
    }

    /// Whether the setting holds a flag.
    pub open spec fn is_flag(self) -> bool {
        self == Field::VSync
    }
}

/// The rows number the settings: each stands on its own row.
pub proof fn lemma_row_round_trip(field: Field)
    ensures
        0 <= field.spec_row() < FIELD_COUNT,
        Field::spec_at(field.spec_row()) == field,
{
}

impl GraphicsSettings {
    /// The record that stands in when nothing usable is stored.
    pub open spec fn defaults() -> GraphicsSettings {
        GraphicsSettings {
            fps: 60,
            enable_vsync: true,
            render_scale: Scale { bits: factor_bits(2) },
            resolution_quality: 3,
            shadow_quality: 3,
            light_quality: 3,
            character_quality: 3,
            env_detail_quality: 3,
            reflection_quality: 3,
            sfx_quality: 3,
            bloom_quality: 3,
            aa_mode: 1,
            enable_metal_fxsu: false,
            enable_half_res_transparent: false,
            enable_self_shadow: 1,
            dlss_quality: 0,
            particle_trail_smoothness: 3,
        }
    }

    /// The whole number held by `f`; 0 for a setting of another type.
    pub open spec fn int_of(self, f: Field) -> i64 {
        match f {
            Field::Fps => self.fps,
            Field::ResolutionQuality => self.resolution_quality,
            Field::ShadowQuality => self.shadow_quality,
            Field::LightQuality => self.light_quality,
            Field::CharacterQuality => self.character_quality,
            Field::EnvDetailQuality => self.env_detail_quality,
            Field::ReflectionQuality => self.reflection_quality,
            Field::SfxQuality => self.sfx_quality,
            Field::BloomQuality => self.bloom_quality,
            Field::AaMode => self.aa_mode,
            Field::SelfShadow => self.enable_self_shadow,
            Field::DlssQuality => self.dlss_quality,
            Field::ParticleTrail => self.particle_trail_smoothness,
            _ => 0,
        }
    }

    /// The record with `v` in `f`; unchanged if `f` holds no whole number.
    pub open spec fn with_int(self, f: Field, v: i64) -> GraphicsSettings {
        match f {
            Field::Fps => GraphicsSettings { fps: v, ..self },
            Field::ResolutionQuality => GraphicsSettings { resolution_quality: v, ..self },
            Field::ShadowQuality => GraphicsSettings { shadow_quality: v, ..self },
            Field::LightQuality => GraphicsSettings { light_quality: v, ..self },
            Field::CharacterQuality => GraphicsSettings { character_quality: v, ..self },
            Field::EnvDetailQuality => GraphicsSettings { env_detail_quality: v, ..self },
            Field::ReflectionQuality => GraphicsSettings { reflection_quality: v, ..self },
            Field::SfxQuality => GraphicsSettings { sfx_quality: v, ..self },
            Field::BloomQuality => GraphicsSettings { bloom_quality: v, ..self },
            Field::AaMode => GraphicsSettings { aa_mode: v, ..self },
            Field::SelfShadow => GraphicsSettings { enable_self_shadow: v, ..self },
            Field::DlssQuality => GraphicsSettings { dlss_quality: v, ..self },
            Field::ParticleTrail => GraphicsSettings { particle_trail_smoothness: v, ..self },
            _ => self,
        }
    }

    /// The factor held by `f`; the number zero for a setting of another type.
    pub open spec fn scale_of(self, f: Field) -> Scale {
        match f {
            Field::RenderScale => self.render_scale,
            _ => Scale { bits: 0 },
        }
    }

    /// The record with `v` in `f`; unchanged if `f` holds no factor.
    pub open spec fn with_scale(self, f: Field, v: Scale) -> GraphicsSettings {
        match f {
            Field::RenderScale => GraphicsSettings { render_scale: v, ..self },
            _ => self,
        }
    }

    /// The flag held by `f`; `false` for a setting of another type.
    pub open spec fn flag_of(self, f: Field) -> bool {
        match f {
            Field::VSync => self.enable_vsync,
            _ => false,
        }
    }

    /// The record with `v` in `f`; unchanged if `f` holds no flag.
    pub open spec fn with_flag(self, f: Field, v: bool) -> GraphicsSettings {
        match f {
            Field::VSync => GraphicsSettings { enable_vsync: v, ..self },
            _ => self,
        }
    }
}

impl Default for GraphicsSettings {
    fn default() -> (s: Self)
        ensures
            s == GraphicsSettings::defaults(),
    {
        GraphicsSettings {
            fps: 60,
            enable_vsync: true,
            render_scale: Scale::factor(2),
            resolution_quality: 3,
            shadow_quality: 3,
            light_quality: 3,
            character_quality: 3,
            env_detail_quality: 3,
            reflection_quality: 3,
            sfx_quality: 3,
            bloom_quality: 3,
            aa_mode: 1,
            enable_metal_fxsu: false,
            enable_half_res_transparent: false,
            enable_self_shadow: 1,
            dlss_quality: 0,
            particle_trail_smoothness: 3,
        }
    }
}

/// Reads the whole number in `f`; 0 if `f` holds none.
pub fn get_i64(s: &GraphicsSettings, f: Field) -> (v: i64)
    ensures
        v == s.int_of(f),
{
    match f {
        Field::Fps => s.fps,
        Field::ResolutionQuality => s.resolution_quality,
        Field::ShadowQuality => s.shadow_quality,
        Field::LightQuality => s.light_quality,
        Field::CharacterQuality => s.character_quality,
        Field::EnvDetailQuality => s.env_detail_quality,
        Field::ReflectionQuality => s.reflection_quality,
        Field::SfxQuality => s.sfx_quality,
        Field::BloomQuality => s.bloom_quality,
        Field::AaMode => s.aa_mode,
        Field::SelfShadow => s.enable_self_shadow,
        Field::DlssQuality => s.dlss_quality,
        Field::ParticleTrail => s.particle_trail_smoothness,
        _ => 0,
    }
}

/// Writes the whole number `v` into `f`; does nothing if `f` holds none.
pub fn set_i64(s: &mut GraphicsSettings, f: Field, v: i64)
    ensures
        *final(s) == old(s).with_int(f, v),
{
    match f {
        Field::Fps => s.fps = v,
        Field::ResolutionQuality => s.resolution_quality = v,
        Field::ShadowQuality => s.shadow_quality = v,
        Field::LightQuality => s.light_quality = v,
        Field::CharacterQuality => s.character_quality = v,
        Field::EnvDetailQuality => s.env_detail_quality = v,
        Field::ReflectionQuality => s.reflection_quality = v,
        Field::SfxQuality => s.sfx_quality = v,
        Field::BloomQuality => s.bloom_quality = v,
        Field::AaMode => s.aa_mode = v,
        Field::SelfShadow => s.enable_self_shadow = v,
        Field::DlssQuality => s.dlss_quality = v,
        Field::ParticleTrail => s.particle_trail_smoothness = v,
        _ => {},
    }
}

/// Reads the factor in `f`; the number zero if `f` holds none.
pub fn get_scale(s: &GraphicsSettings, f: Field) -> (v: Scale)
    ensures
        v == s.scale_of(f),
{
    match f {
        Field::RenderScale => s.render_scale,
        _ => Scale::from_bits(0),
    }
}

/// Writes the factor `v` into `f`; does nothing if `f` holds none.
pub fn set_scale(s: &mut GraphicsSettings, f: Field, v: Scale)
    ensures
        *final(s) == old(s).with_scale(f, v),
{
    match f {
        Field::RenderScale => s.render_scale = v,
        _ => {},
    }
}

/// Reads the flag in `f`; `false` if `f` holds none.
pub fn get_bool(s: &GraphicsSettings, f: Field) -> (v: bool)
    ensures
        v == s.flag_of(f),
{
    match f {
        Field::VSync => s.enable_vsync,
        _ => false,
    }
}

/// Writes the flag `v` into `f`; does nothing if `f` holds none.
pub fn set_bool(s: &mut GraphicsSettings, f: Field, v: bool)
    ensures
        *final(s) == old(s).with_flag(f, v),
{
    match f {
        Field::VSync => s.enable_vsync = v,
        _ => {},
    }
}

} // verus!
