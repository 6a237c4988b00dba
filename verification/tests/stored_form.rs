use star_rail_settings::cycle::cycle_field;
use star_rail_settings::registry::setting_defs;
use star_rail_settings::scale::Scale;
use star_rail_settings::settings::GraphicsSettings;
use star_rail_settings::store::{
    decode_blob, encode_blob, from_members, read_settings, same_text, strip_terminator,
    to_members, Draft, PutError, Slot, Value, ValueKind, REG_PATH, REG_VALUE, SLOT_COUNT,
};

const NAMES: [&str; 17] = [
    "FPS",
    "EnableVSync",
    "RenderScale",
    "ResolutionQuality",
    "ShadowQuality",
    "LightQuality",
    "CharacterQuality",
    "EnvDetailQuality",
    "ReflectionQuality",
    "SFXQuality",
    "BloomQuality",
    "AAMode",
    "EnableMetalFXSU",
    "EnableHalfResTransparent",
    "EnableSelfShadow",
    "DLSSQuality",
    "ParticleTrailSmoothness",
];

fn scale(value: f64) -> Scale {
    Scale::from_bits(value.to_bits())
}

fn sample() -> GraphicsSettings {
    GraphicsSettings {
        fps: 120,
        enable_vsync: false,
        render_scale: scale(1.4),
        resolution_quality: 1,
        shadow_quality: 2,
        light_quality: 3,
        character_quality: 4,
        env_detail_quality: 5,
        reflection_quality: 1,
        sfx_quality: 2,
        bloom_quality: 4,
        aa_mode: 0,
        enable_metal_fxsu: true,
        enable_half_res_transparent: true,
        enable_self_shadow: 0,
        dlss_quality: 5,
        particle_trail_smoothness: 2,
    }
}

/// Reads the text of a stored object into a record, member by member.
fn parse_record(text: &str) -> Option<GraphicsSettings> {
    let parsed: serde_json::Value = serde_json::from_str(text).ok()?;
    let object = parsed.as_object()?;
    let mut entries: Vec<(Slot, Value)> = Vec::new();
    for (name, member) in object.iter() {
        let slot = match Slot::from_name(name) {
            Some(slot) => slot,
            None => continue,
        };
        let value = match slot.kind() {
            ValueKind::Int => Value::Int(member.as_i64()?),
            ValueKind::Real => {
                if !member.is_number() {
                    return None;
                }
                Value::Real(scale(member.as_f64()?))
            }
            ValueKind::Flag => Value::Flag(member.as_bool()?),
        };
        entries.push((slot, value));
    }
    from_members(&entries)
}

/// Writes a record as the text of a stored object.
fn write_record(s: &GraphicsSettings) -> String {
    let mut object = serde_json::Map::new();
    for (slot, value) in to_members(s) {
        let member = match value {
            Value::Int(v) => serde_json::Value::from(v),
            Value::Real(v) => serde_json::Value::from(f64::from_bits(v.to_bits())),
            Value::Flag(v) => serde_json::Value::from(v),
        };
        object.insert(slot.name().to_string(), member);
    }
    serde_json::Value::Object(object).to_string()
}

fn load(stored: Option<&[u8]>) -> (GraphicsSettings, bool) {
    read_settings(stored.and_then(|bytes| parse_record(&decode_blob(bytes))))
}

fn full_text(fps: &str) -> String {
    format!(
        "{{\"FPS\":{fps},\"EnableVSync\":true,\"RenderScale\":1.0,\"ResolutionQuality\":3,\
         \"ShadowQuality\":3,\"LightQuality\":3,\"CharacterQuality\":3,\"EnvDetailQuality\":3,\
         \"ReflectionQuality\":3,\"SFXQuality\":3,\"BloomQuality\":3,\"AAMode\":1,\
         \"EnableMetalFXSU\":false,\"EnableHalfResTransparent\":false,\"EnableSelfShadow\":1,\
         \"DLSSQuality\":0,\"ParticleTrailSmoothness\":3}}"
    )
}

#[test]
fn where_the_record_is_kept() {
    assert_eq!(REG_PATH, "Software\\Cognosphere\\Star Rail");
    assert_eq!(REG_VALUE, "GraphicsSettings_Model_h2986158309");
}

#[test]
fn the_defaults() {
    let s = GraphicsSettings::default();
    assert_eq!(s.fps, 60);
    assert!(s.enable_vsync);
    assert_eq!(f64::from_bits(s.render_scale.to_bits()), 1.0);
    assert_eq!(s.resolution_quality, 3);
    assert_eq!(s.shadow_quality, 3);
    assert_eq!(s.light_quality, 3);
    assert_eq!(s.character_quality, 3);
    assert_eq!(s.env_detail_quality, 3);
    assert_eq!(s.reflection_quality, 3);
    assert_eq!(s.sfx_quality, 3);
    assert_eq!(s.bloom_quality, 3);
    assert_eq!(s.aa_mode, 1);
    assert!(!s.enable_metal_fxsu);
    assert!(!s.enable_half_res_transparent);
    assert_eq!(s.enable_self_shadow, 1);
    assert_eq!(s.dlss_quality, 0);
    assert_eq!(s.particle_trail_smoothness, 3);
}

#[test]
fn member_names_are_exact() {
    assert_eq!(SLOT_COUNT, 17);
    for (i, name) in NAMES.iter().enumerate() {
        let slot = Slot::at(i);
        assert_eq!(slot.index(), i);
        assert_eq!(slot.name(), *name);
        assert_eq!(Slot::from_name(name), Some(slot));
    }
}

#[test]
fn member_names_are_matched_letter_for_letter() {
    assert_eq!(Slot::from_name("FPS"), Some(Slot::Fps));
    assert_eq!(Slot::from_name("fps"), None);
    assert_eq!(Slot::from_name("Fps"), None);
    assert_eq!(Slot::from_name("SfxQuality"), None);
    assert_eq!(Slot::from_name("SFXQuality"), Some(Slot::SfxQuality));
    assert_eq!(Slot::from_name("AaMode"), None);
    assert_eq!(Slot::from_name("EnableVsync"), None);
    assert_eq!(Slot::from_name("FPS "), None);
    assert_eq!(Slot::from_name(""), None);
    assert_eq!(Slot::from_name("Unknown"), None);
}

#[test]
fn member_types() {
    let kinds: Vec<ValueKind> = (0..SLOT_COUNT).map(|i| Slot::at(i).kind()).collect();
    let mut expected = vec![ValueKind::Int; 17];
    expected[1] = ValueKind::Flag;
    expected[2] = ValueKind::Real;
    expected[12] = ValueKind::Flag;
    expected[13] = ValueKind::Flag;
    assert_eq!(kinds, expected);
    assert_eq!(Value::Int(3).kind(), ValueKind::Int);
    assert_eq!(Value::Real(scale(1.0)).kind(), ValueKind::Real);
    assert_eq!(Value::Flag(true).kind(), ValueKind::Flag);
}

#[test]
fn texts_are_compared_character_for_character() {
    assert!(same_text("", ""));
    assert!(same_text("FPS", "FPS"));
    assert!(!same_text("FPS", "FPs"));
    assert!(!same_text("FPS", "FPSS"));
    assert!(!same_text("FPS", ""));
    assert!(same_text("垂直同期", "垂直同期"));
    assert!(!same_text("垂直同期", "垂直同"));
}

#[test]
fn the_members_of_a_record_in_written_order() {
    let s = sample();
    let entries = to_members(&s);
    assert_eq!(entries.len(), 17);
    assert_eq!(entries[0], (Slot::Fps, Value::Int(120)));
    assert_eq!(entries[1], (Slot::EnableVSync, Value::Flag(false)));
    assert_eq!(entries[2], (Slot::RenderScale, Value::Real(scale(1.4))));
    assert_eq!(entries[9], (Slot::SfxQuality, Value::Int(2)));
    assert_eq!(entries[12], (Slot::EnableMetalFxsu, Value::Flag(true)));
    assert_eq!(entries[13], (Slot::EnableHalfResTransparent, Value::Flag(true)));
    assert_eq!(entries[14], (Slot::EnableSelfShadow, Value::Int(0)));
    assert_eq!(entries[16], (Slot::ParticleTrailSmoothness, Value::Int(2)));
    for (i, (slot, value)) in entries.iter().enumerate() {
        assert_eq!(slot.index(), i);
        assert_eq!(*value, s.value_at(*slot));
    }
}

#[test]
fn members_put_together_give_the_record_back() {
    for s in [GraphicsSettings::default(), sample()] {
        assert_eq!(from_members(&to_members(&s)), Some(s));
        let mut reversed = to_members(&s);
        reversed.reverse();
        assert_eq!(from_members(&reversed), Some(s));
    }
}

#[test]
fn a_missing_member_gives_no_record() {
    assert_eq!(from_members(&Vec::new()), None);
    assert_eq!(from_members(&vec![(Slot::Fps, Value::Int(120))]), None);
    for missing in 0..SLOT_COUNT {
        let mut entries = to_members(&sample());
        entries.remove(missing);
        assert_eq!(from_members(&entries), None);
    }
}

#[test]
fn a_member_given_twice_gives_no_record() {
    let mut entries = to_members(&sample());
    entries.push((Slot::Fps, Value::Int(120)));
    assert_eq!(from_members(&entries), None);
}

#[test]
fn a_member_of_the_wrong_type_gives_no_record() {
    let mut entries = to_members(&sample());
    entries[0] = (Slot::Fps, Value::Flag(true));
    assert_eq!(from_members(&entries), None);
    let mut entries = to_members(&sample());
    entries[2] = (Slot::RenderScale, Value::Int(1));
    assert_eq!(from_members(&entries), None);
}

#[test]
fn a_draft_refuses_a_second_value_and_a_wrong_type() {
    let mut draft = Draft::new();
    assert_eq!(draft.finish(), None);
    assert_eq!(draft.put(Slot::Fps, Value::Int(120)), Ok(()));
    assert_eq!(draft.put(Slot::Fps, Value::Int(30)), Err(PutError::Duplicate));
    assert_eq!(draft.put(Slot::EnableVSync, Value::Int(1)), Err(PutError::WrongType));
    assert_eq!(draft.put(Slot::Fps, Value::Flag(true)), Err(PutError::WrongType));
    assert_eq!(draft.finish(), None);
    for (slot, value) in to_members(&sample()) {
        if slot != Slot::Fps {
            assert_eq!(draft.put(slot, value), Ok(()));
        }
    }
    assert_eq!(draft.finish(), Some(sample()));
    assert_eq!(
        draft.put(Slot::DlssQuality, Value::Int(1)),
        Err(PutError::Duplicate)
    );
    assert_eq!(draft.finish(), Some(sample()));
}

#[test]
fn nothing_stored_gives_the_defaults() {
    assert_eq!(read_settings(None), (GraphicsSettings::default(), false));
    assert_eq!(load(None), (GraphicsSettings::default(), false));
}

#[test]
fn a_stored_record_is_used_as_it_is() {
    assert_eq!(read_settings(Some(sample())), (sample(), true));
}

#[test]
fn malformed_text_gives_the_defaults() {
    for text in ["", "{", "not a record", "{\"FPS\":}", "[1,2,3]", "null", "{\"FPS\":60,}"] {
        let mut blob = text.as_bytes().to_vec();
        blob.push(0);
        assert_eq!(load(Some(&blob)), (GraphicsSettings::default(), false));
    }
}

#[test]
fn a_record_with_one_member_only_gives_the_defaults() {
    let mut blob = b"{\"FPS\":120}".to_vec();
    blob.push(0);
    assert_eq!(load(Some(&blob)), (GraphicsSettings::default(), false));
}

#[test]
fn a_member_of_the_wrong_type_in_the_text_gives_the_defaults() {
    for fps in ["\"60\"", "60.5", "true", "null", "[60]"] {
        let mut blob = full_text(fps).into_bytes();
        blob.push(0);
        assert_eq!(load(Some(&blob)), (GraphicsSettings::default(), false));
    }
}

#[test]
fn a_value_outside_the_options_is_read_as_it_is() {
    let mut blob = full_text("45").into_bytes();
    blob.push(0);
    let (mut s, existed) = load(Some(&blob));
    assert!(existed);
    let mut expected = GraphicsSettings::default();
    expected.fps = 45;
    assert_eq!(s, expected);
    cycle_field(&mut s, &setting_defs()[0], 1);
    assert_eq!(s.fps, 60);
}

#[test]
fn members_that_are_not_known_are_passed_over() {
    let text = full_text("30").replacen('{', "{\"Gamma\":2.2,\"Extra\":{\"a\":[1,2]},", 1);
    let mut blob = text.into_bytes();
    blob.push(0);
    let (s, existed) = load(Some(&blob));
    assert!(existed);
    assert_eq!(s.fps, 30);
}

#[test]
fn a_saved_record_loads_back() {
    let defs = setting_defs();
    let mut s = GraphicsSettings::default();
    let mut step: isize = 1;
    for round in 0..40 {
        for (i, def) in defs.iter().enumerate() {
            if (round + i) % 3 != 0 {
                cycle_field(&mut s, def, step);
            }
            step = -step;
        }
        let blob = encode_blob(&write_record(&s));
        assert_eq!(load(Some(&blob)), (s, true));
    }
    let kept = sample();
    let blob = encode_blob(&write_record(&kept));
    assert_eq!(load(Some(&blob)), (kept, true));
}

#[test]
fn the_stored_value_is_the_text_and_one_nul() {
    assert_eq!(encode_blob(""), vec![0u8]);
    assert_eq!(encode_blob("{}"), vec![b'{', b'}', 0]);
    assert_eq!(encode_blob("é"), vec![0xC3, 0xA9, 0]);
    let text = write_record(&GraphicsSettings::default());
    let blob = encode_blob(&text);
    assert_eq!(blob.len(), text.len() + 1);
    assert_eq!(&blob[..text.len()], text.as_bytes());
    assert_eq!(blob[text.len()], 0);
}

#[test]
fn nul_bytes_at_the_end_are_taken_off() {
    assert_eq!(strip_terminator(b"abc\0"), b"abc");
    assert_eq!(strip_terminator(b"abc\0\0\0"), b"abc");
    assert_eq!(strip_terminator(b"abc"), b"abc");
    assert_eq!(strip_terminator(b"a\0bc\0"), b"a\0bc");
    assert_eq!(strip_terminator(b"\0\0"), b"");
    assert_eq!(strip_terminator(b""), b"");
    assert_eq!(strip_terminator(b"\0a"), b"\0a");
}

#[test]
fn a_stored_value_decodes_to_its_text() {
    assert_eq!(decode_blob(b"{\"FPS\":120}\0"), "{\"FPS\":120}");
    assert_eq!(decode_blob(b"abc\0\0"), "abc");
    assert_eq!(decode_blob(b"abc"), "abc");
    assert_eq!(decode_blob(b""), "");
    assert_eq!(decode_blob(&[0xC3, 0xA9, 0]), "é");
    assert_eq!(decode_blob(&encode_blob("設定 ▸")), "設定 ▸");
}

#[test]
fn bytes_that_are_not_utf8_are_replaced() {
    assert_eq!(decode_blob(&[b'a', 0xFF, b'b', 0]), "a\u{FFFD}b");
    assert_eq!(decode_blob(&[0xE2, 0x82, 0, 0]), "\u{FFFD}");
    assert_eq!(decode_blob(&[0xC3, 0]), "\u{FFFD}");
    let (s, existed) = load(Some(&[b'{', 0xFF, b'}', 0]));
    assert_eq!((s, existed), (GraphicsSettings::default(), false));
}
