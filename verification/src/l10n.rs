//! The texts of the user interface, in each language on offer.

use crate::registry::SettingDef;
use crate::settings::Field;
use vstd::prelude::*;

verus! {

/// A language of the user interface.
#[derive(Clone, Copy, Debug, PartialEq, Eq, Structural)]
pub enum Lang {
    En,
    Ko,
    Ja,
}

/// Every text of the user interface in one language: the screen texts, the
/// status messages, the two values of a flag, and the name of each setting.
#[derive(Clone, Copy, Debug)]
pub struct L10n {
    pub title: &'static str,
    pub hint: &'static str,
    pub saved: &'static str,
    pub save_failed: &'static str,
    pub no_registry: &'static str,
    pub on: &'static str,
    pub off: &'static str,
    pub fps: &'static str,
    pub vsync: &'static str,
    pub render_scale: &'static str,
    pub resolution_quality: &'static str,
    pub shadow_quality: &'static str,
    pub light_quality: &'static str,
    pub character_quality: &'static str,
    pub env_detail: &'static str,
    pub reflection_quality: &'static str,
    pub sfx_quality: &'static str,
    pub bloom_quality: &'static str,
    pub anti_aliasing: &'static str,
    pub self_shadow: &'static str,
    pub dlss_quality: &'static str,
    pub particle_trail: &'static str,
}

/// The texts of `lang`.
pub open spec fn texts(lang: Lang) -> L10n {
    match lang {
        Lang::En => L10n {
            title: " Star Rail Graphics Settings ",
            hint: " \u{2191}\u{2193} Navigate  \u{2190}\u{2192} Change  S Save  Q Quit ",
            saved: "Settings saved.",
            save_failed: "Save failed",
            no_registry: "Registry key not found \u{2014} using defaults. Save to create it.",
            on: "On",
            off: "Off",
            fps: "FPS",
            vsync: "VSync",
            render_scale: "Render Scale",
            resolution_quality: "Resolution Quality",
            shadow_quality: "Shadow Quality",
            light_quality: "Light Quality",
            character_quality: "Character Quality",
            env_detail: "Environment Detail",
            reflection_quality: "Reflection Quality",
            sfx_quality: "SFX Quality",
            bloom_quality: "Bloom Quality",
            anti_aliasing: "Anti-Aliasing",
            self_shadow: "Self Shadow",
            dlss_quality: "DLSS Quality",
            particle_trail: "Particle Trail",
        },
        Lang::Ko => L10n {
            title: " 붕괴 : 스타레일 그래픽 설정 ",
            hint: " \u{2191}\u{2193} 이동  \u{2190}\u{2192} 변경  S 저장  Q 종료 ",
            saved: "설정이 저장되었습니다.",
            save_failed: "저장 실패",
            no_registry: "레지스트리 키를 찾을 수 없습니다 \u{2014} 기본값 사용 중. 저장하여 생성하세요.",
            on: "켜기",
            off: "끄기",
            fps: "FPS",
            vsync: "수직 동기화",
            render_scale: "렌더 스케일",
            resolution_quality: "해상도 품질",
            shadow_quality: "그림자 품질",
            light_quality: "조명 품질",
            character_quality: "캐릭터 품질",
            env_detail: "환경 디테일",
            reflection_quality: "반사 품질",
            sfx_quality: "효과 품질",
            bloom_quality: "블룸 품질",
            anti_aliasing: "안티앨리어싱",
            self_shadow: "셀프 쉘도우",
            dlss_quality: "DLSS 품질",
            particle_trail: "파티클 트레일",
        },
        Lang::Ja => L10n {
            title: " 崩壊：スターレイル グラフィック設定 ",
            hint: " \u{2191}\u{2193} 移動  \u{2190}\u{2192} 変更  S 保存  Q 終了 ",
            saved: "設定が保存されました。",
            save_failed: "保存失敗",
            no_registry: "レジストリキーが見つかりません \u{2014} デフォルト値を使用中。保存して作成してください。",
            on: "オン",
            off: "オフ",
            fps: "FPS",
            vsync: "垂直同期",
            render_scale: "レンダースケール",
            resolution_quality: "解像度品質",
            shadow_quality: "影の品質",
            light_quality: "ライト品質",
            character_quality: "キャラクター品質",
            env_detail: "環境ディテール",
            reflection_quality: "反射品質",
            sfx_quality: "エフェクト品質",
            bloom_quality: "ブルーム品質",
            anti_aliasing: "アンチエイリアス",
            self_shadow: "セルフシャドウ",
            dlss_quality: "DLSS品質",
            particle_trail: "パーティクルトレイル",
        },
    }
}

/// The name of the setting `field` among the texts `t`.
pub open spec fn label_of(field: Field, t: L10n) -> &'static str {
    match field {
        Field::Fps => t.fps,
        Field::VSync => t.vsync,
        Field::RenderScale => t.render_scale,
        Field::ResolutionQuality => t.resolution_quality,
        Field::ShadowQuality => t.shadow_quality,
        Field::LightQuality => t.light_quality,
        Field::CharacterQuality => t.character_quality,
        Field::EnvDetailQuality => t.env_detail,
        Field::ReflectionQuality => t.reflection_quality,
        Field::SfxQuality => t.sfx_quality,
        Field::BloomQuality => t.bloom_quality,
        Field::AaMode => t.anti_aliasing,
        Field::SelfShadow => t.self_shadow,
        Field::DlssQuality => t.dlss_quality,
        Field::ParticleTrail => t.particle_trail,
    }
}

/// The texts of `lang`.
pub fn l10n(lang: Lang) -> (t: L10n)
    ensures
        t == texts(lang),
{
    match lang {
        Lang::En => L10n {
            title: " Star Rail Graphics Settings ",
            hint: " \u{2191}\u{2193} Navigate  \u{2190}\u{2192} Change  S Save  Q Quit ",
            saved: "Settings saved.",
            save_failed: "Save failed",
            no_registry: "Registry key not found \u{2014} using defaults. Save to create it.",
            on: "On",
            off: "Off",
            fps: "FPS",
            vsync: "VSync",
            render_scale: "Render Scale",
            resolution_quality: "Resolution Quality",
            shadow_quality: "Shadow Quality",
            light_quality: "Light Quality",
            character_quality: "Character Quality",
            env_detail: "Environment Detail",
            reflection_quality: "Reflection Quality",
            sfx_quality: "SFX Quality",
            bloom_quality: "Bloom Quality",
            anti_aliasing: "Anti-Aliasing",
            self_shadow: "Self Shadow",
            dlss_quality: "DLSS Quality",
            particle_trail: "Particle Trail",
        },
        Lang::Ko => L10n {
            title: " 붕괴 : 스타레일 그래픽 설정 ",
            hint: " \u{2191}\u{2193} 이동  \u{2190}\u{2192} 변경  S 저장  Q 종료 ",
            saved: "설정이 저장되었습니다.",
            save_failed: "저장 실패",
            no_registry: "레지스트리 키를 찾을 수 없습니다 \u{2014} 기본값 사용 중. 저장하여 생성하세요.",
            on: "켜기",
            off: "끄기",
            fps: "FPS",
            vsync: "수직 동기화",
            render_scale: "렌더 스케일",
            resolution_quality: "해상도 품질",
            shadow_quality: "그림자 품질",
            light_quality: "조명 품질",
            character_quality: "캐릭터 품질",
            env_detail: "환경 디테일",
            reflection_quality: "반사 품질",
            sfx_quality: "효과 품질",
            bloom_quality: "블룸 품질",
            anti_aliasing: "안티앨리어싱",
            self_shadow: "셀프 쉘도우",
            dlss_quality: "DLSS 품질",
            particle_trail: "파티클 트레일",
        },
        Lang::Ja => L10n {
            title: " 崩壊：スターレイル グラフィック設定 ",
            hint: " \u{2191}\u{2193} 移動  \u{2190}\u{2192} 変更  S 保存  Q 終了 ",
            saved: "設定が保存されました。",
            save_failed: "保存失敗",
            no_registry: "レジストリキーが見つかりません \u{2014} デフォルト値を使用中。保存して作成してください。",
            on: "オン",
            off: "オフ",
            fps: "FPS",
            vsync: "垂直同期",
            render_scale: "レンダースケール",
            resolution_quality: "解像度品質",
            shadow_quality: "影の品質",
            light_quality: "ライト品質",
            character_quality: "キャラクター品質",
            env_detail: "環境ディテール",
            reflection_quality: "反射品質",
            sfx_quality: "エフェクト品質",
            bloom_quality: "ブルーム品質",
            anti_aliasing: "アンチエイリアス",
            self_shadow: "セルフシャドウ",
            dlss_quality: "DLSS品質",
            particle_trail: "パーティクルトレイル",
        },
    }
}

impl SettingDef {
    /// The name of this setting among the texts `t`.
    pub fn label(&self, t: &L10n) -> (name: &'static str)
        ensures
            name == label_of(self.field, *t),
    {
        match self.field {
            Field::Fps => t.fps,
            Field::VSync => t.vsync,
            Field::RenderScale => t.render_scale,
            Field::ResolutionQuality => t.resolution_quality,
            Field::ShadowQuality => t.shadow_quality,
            Field::LightQuality => t.light_quality,
            Field::CharacterQuality => t.character_quality,
            Field::EnvDetailQuality => t.env_detail,
            Field::ReflectionQuality => t.reflection_quality,
            Field::SfxQuality => t.sfx_quality,
            Field::BloomQuality => t.bloom_quality,
            Field::AaMode => t.anti_aliasing,
            Field::SelfShadow => t.self_shadow,
            Field::DlssQuality => t.dlss_quality,
            Field::ParticleTrail => t.particle_trail,
        }
    }
}

} // verus!
