use star_rail_settings::display::{display_value, Shown};
use star_rail_settings::l10n::{l10n, Lang};
use star_rail_settings::registry::{setting_def, setting_defs, SettingKind};
use star_rail_settings::scale::Scale;
use star_rail_settings::settings::{Field, GraphicsSettings, FIELD_COUNT};
use star_rail_settings::text::{decimal_text, push_digits, tenths_label};

fn int_options(kind: &SettingKind) -> Vec<(String, i64)> {
    match kind {
        SettingKind::SelectI64(options) => options.clone(),
        _ => panic!("not a list of whole numbers"),
    }
}

fn pairs(list: &[(&str, i64)]) -> Vec<(String, i64)> {
    list.iter().map(|(l, v)| (l.to_string(), *v)).collect()
}

#[test]
fn the_catalog_lists_the_editable_fields_in_order() {
    let fields: Vec<Field> = setting_defs().iter().map(|d| d.field).collect();
    assert_eq!(
        fields,
        vec![
            Field::Fps,
            Field::VSync,
            Field::RenderScale,
            Field::ResolutionQuality,
            Field::ShadowQuality,
            Field::LightQuality,
            Field::CharacterQuality,
            Field::EnvDetailQuality,
            Field::ReflectionQuality,
            Field::SfxQuality,
            Field::BloomQuality,
            Field::AaMode,
            Field::SelfShadow,
            Field::DlssQuality,
            Field::ParticleTrail,
        ]
    );
}

#[test]
fn each_entry_is_the_entry_of_its_field() {
    assert_eq!(FIELD_COUNT, 15);
    let defs = setting_defs();
    assert_eq!(defs.len(), FIELD_COUNT);
    for (row, def) in defs.iter().enumerate() {
        assert_eq!(def.field, Field::at(row));
        assert_eq!(def.field.row(), row);
        assert_eq!(format!("{def:?}"), format!("{:?}", setting_def(def.field)));
    }
}

#[test]
fn the_catalog_is_the_same_on_every_call() {
    let a = setting_defs();
    let b = setting_defs();
    assert_eq!(format!("{a:?}"), format!("{b:?}"));
}

#[test]
fn the_options_of_each_kind_of_field() {
    let defs = setting_defs();
    assert_eq!(
        int_options(&defs[0].kind),
        pairs(&[("30", 30), ("60", 60), ("120", 120)])
    );
    assert!(matches!(defs[1].kind, SettingKind::Toggle));
    let quality = pairs(&[("1", 1), ("2", 2), ("3", 3), ("4", 4), ("5", 5)]);
    for i in [3, 4, 5, 6, 7, 8, 9, 10, 14] {
        assert_eq!(int_options(&defs[i].kind), quality);
    }
    let switch = pairs(&[("Off", 0), ("On", 1)]);
    assert_eq!(int_options(&defs[11].kind), switch);
    assert_eq!(int_options(&defs[12].kind), switch);
    assert_eq!(
        int_options(&defs[13].kind),
        pairs(&[("Off", 0), ("1", 1), ("2", 2), ("3", 3), ("4", 4), ("5", 5)])
    );
}

#[test]
fn the_render_scale_options_run_from_0_6_to_2_0() {
    let defs = setting_defs();
    let options = match &defs[2].kind {
        SettingKind::SelectScale(options) => options.clone(),
        _ => panic!("the third entry is the render scale"),
    };
    let labels: Vec<&str> = options.iter().map(|(l, _)| l.as_str()).collect();
    assert_eq!(labels, vec!["0.6", "0.8", "1.0", "1.2", "1.4", "1.6", "1.8", "2.0"]);
    let numbers: Vec<f64> = options
        .iter()
        .map(|(_, v)| f64::from_bits(v.to_bits()))
        .collect();
    assert_eq!(numbers, vec![0.6, 0.8, 1.0, 1.2, 1.4, 1.6, 1.8, 2.0]);
    for (label, value) in options.iter() {
        assert_eq!(*label, format!("{:.1}", f64::from_bits(value.to_bits())));
    }
}

#[test]
fn labels_come_from_the_texts_of_the_language() {
    let defs = setting_defs();
    let en = l10n(Lang::En);
    let names: Vec<&str> = defs.iter().map(|d| d.label(&en)).collect();
    assert_eq!(
        names,
        vec![
            "FPS",
            "VSync",
            "Render Scale",
            "Resolution Quality",
            "Shadow Quality",
            "Light Quality",
            "Character Quality",
            "Environment Detail",
            "Reflection Quality",
            "SFX Quality",
            "Bloom Quality",
            "Anti-Aliasing",
            "Self Shadow",
            "DLSS Quality",
            "Particle Trail",
        ]
    );
    let ja = l10n(Lang::Ja);
    assert_eq!(defs[1].label(&ja), "垂直同期");
    let ko = l10n(Lang::Ko);
    assert_eq!(defs[14].label(&ko), "파티클 트레일");
}

#[test]
fn texts_of_each_language() {
    let en = l10n(Lang::En);
    assert_eq!(en.title, " Star Rail Graphics Settings ");
    assert_eq!(en.hint, " ↑↓ Navigate  ←→ Change  S Save  Q Quit ");
    assert_eq!(en.saved, "Settings saved.");
    assert_eq!(en.save_failed, "Save failed");
    assert_eq!(
        en.no_registry,
        "Registry key not found — using defaults. Save to create it."
    );
    assert_eq!(en.on, "On");
    assert_eq!(en.off, "Off");
    let ko = l10n(Lang::Ko);
    assert_eq!(ko.saved, "설정이 저장되었습니다.");
    assert_eq!(ko.on, "켜기");
    assert_eq!(ko.off, "끄기");
    let ja = l10n(Lang::Ja);
    assert_eq!(ja.saved, "設定が保存されました。");
    assert_eq!(ja.save_failed, "保存失敗");
    assert_eq!(ja.on, "オン");
}

#[test]
fn a_value_is_shown_by_its_label() {
    let defs = setting_defs();
    let en = l10n(Lang::En);
    let s = GraphicsSettings::default();
    let shown: Vec<Shown> = defs.iter().map(|d| display_value(&s, d, &en)).collect();
    let expected: Vec<Shown> = [
        "60", "On", "1.0", "3", "3", "3", "3", "3", "3", "3", "3", "On", "On", "Off", "3",
    ]
    .iter()
    .map(|t| Shown::Text(t.to_string()))
    .collect();
    assert_eq!(shown, expected);
}

#[test]
fn a_flag_is_shown_in_the_language() {
    let defs = setting_defs();
    let mut s = GraphicsSettings::default();
    assert_eq!(
        display_value(&s, &defs[1], &l10n(Lang::Ko)),
        Shown::Text("켜기".to_string())
    );
    s.enable_vsync = false;
    assert_eq!(
        display_value(&s, &defs[1], &l10n(Lang::Ja)),
        Shown::Text("オフ".to_string())
    );
    assert_eq!(
        display_value(&s, &defs[1], &l10n(Lang::En)),
        Shown::Text("Off".to_string())
    );
}

#[test]
fn a_whole_number_without_a_label_is_shown_in_digits() {
    let defs = setting_defs();
    let en = l10n(Lang::En);
    let mut s = GraphicsSettings::default();
    s.fps = 45;
    s.shadow_quality = -2;
    s.dlss_quality = i64::MIN;
    assert_eq!(display_value(&s, &defs[0], &en), Shown::Text("45".to_string()));
    assert_eq!(display_value(&s, &defs[4], &en), Shown::Text("-2".to_string()));
    assert_eq!(
        display_value(&s, &defs[13], &en),
        Shown::Text("-9223372036854775808".to_string())
    );
}

#[test]
fn a_render_scale_without_a_label_is_handed_back() {
    let defs = setting_defs();
    let en = l10n(Lang::En);
    let mut s = GraphicsSettings::default();
    s.render_scale = Scale::from_bits(1.3f64.to_bits());
    assert_eq!(
        display_value(&s, &defs[2], &en),
        Shown::Raw(Scale::from_bits(1.3f64.to_bits()))
    );
    s.render_scale = Scale::from_bits(1.4004f64.to_bits());
    assert_eq!(display_value(&s, &defs[2], &en), Shown::Text("1.4".to_string()));
}

#[test]
fn decimal_text_of_whole_numbers() {
    assert_eq!(decimal_text(0), "0");
    assert_eq!(decimal_text(7), "7");
    assert_eq!(decimal_text(-7), "-7");
    assert_eq!(decimal_text(10), "10");
    assert_eq!(decimal_text(120), "120");
    assert_eq!(decimal_text(-1005), "-1005");
    assert_eq!(decimal_text(i64::MAX), "9223372036854775807");
    assert_eq!(decimal_text(i64::MIN), "-9223372036854775808");
    for n in [-321i64, -10, -1, 1, 9, 99, 100, 4096, 1234567890123] {
        assert_eq!(decimal_text(n), n.to_string());
    }
}

#[test]
fn digits_are_appended_to_what_is_there() {
    let mut out = String::from("n=");
    push_digits(&mut out, 0);
    push_digits(&mut out, 42);
    push_digits(&mut out, u64::MAX);
    assert_eq!(out, "n=04218446744073709551615");
}

#[test]
fn tenths_are_written_with_one_decimal() {
    assert_eq!(tenths_label(6), "0.6");
    assert_eq!(tenths_label(20), "2.0");
    assert_eq!(tenths_label(0), "0.0");
    assert_eq!(tenths_label(123), "12.3");
}
