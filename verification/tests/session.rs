use star_rail_settings::app::{Action, App};
use star_rail_settings::display::Shown;
use star_rail_settings::keys::{pick_step, Key, Picked, LANG_COUNT};
use star_rail_settings::l10n::Lang;
use star_rail_settings::scale::Scale;
use star_rail_settings::settings::GraphicsSettings;

fn text(t: &str) -> Shown {
    Shown::Text(t.to_string())
}

#[test]
fn a_session_without_a_stored_record_starts_from_the_defaults() {
    let app = App::new(Lang::En, None);
    assert_eq!(*app.settings(), GraphicsSettings::default());
    assert_eq!(app.cursor(), 0);
    assert_eq!(
        app.status(),
        "Registry key not found — using defaults. Save to create it."
    );
    assert_eq!(app.lang(), Lang::En);
    assert_eq!(app.defs().len(), 15);
    assert_eq!(app.t().saved, "Settings saved.");
    let ja = App::new(Lang::Ja, None);
    assert_eq!(
        ja.status(),
        "レジストリキーが見つかりません — デフォルト値を使用中。保存して作成してください。"
    );
}

#[test]
fn a_session_with_a_stored_record_starts_from_it() {
    let mut stored = GraphicsSettings::default();
    stored.fps = 30;
    stored.enable_metal_fxsu = true;
    let app = App::new(Lang::Ko, Some(stored));
    assert_eq!(*app.settings(), stored);
    assert_eq!(app.cursor(), 0);
    assert_eq!(app.status(), "");
    assert_eq!(app.lang(), Lang::Ko);
}

#[test]
fn the_cursor_stops_at_both_ends() {
    let mut app = App::new(Lang::En, None);
    app.move_cursor(-1);
    assert_eq!(app.cursor(), 0);
    app.move_cursor(1);
    assert_eq!(app.cursor(), 1);
    for _ in 0..20 {
        app.move_cursor(1);
    }
    assert_eq!(app.cursor(), 14);
    app.move_cursor(-1);
    assert_eq!(app.cursor(), 13);
    app.move_cursor(isize::MAX);
    assert_eq!(app.cursor(), 14);
    app.move_cursor(-3);
    assert_eq!(app.cursor(), 11);
    app.move_cursor(isize::MIN);
    assert_eq!(app.cursor(), 0);
    app.move_cursor(0);
    assert_eq!(app.cursor(), 0);
}

#[test]
fn cycling_acts_on_the_field_under_the_cursor() {
    let mut app = App::new(Lang::En, None);
    app.cycle(1);
    assert_eq!(app.settings().fps, 120);
    app.cycle(1);
    assert_eq!(app.settings().fps, 30);
    app.move_cursor(1);
    app.cycle(-1);
    assert!(!app.settings().enable_vsync);
    app.move_cursor(1);
    app.cycle(-1);
    assert_eq!(f64::from_bits(app.settings().render_scale.to_bits()), 0.8);
    let mut expected = GraphicsSettings::default();
    expected.fps = 30;
    expected.enable_vsync = false;
    expected.render_scale = Scale::factor(1);
    assert_eq!(*app.settings(), expected);
    assert_eq!(app.cursor(), 2);
}

#[test]
fn the_fields_without_an_entry_are_kept() {
    let mut stored = GraphicsSettings::default();
    stored.enable_metal_fxsu = true;
    stored.enable_half_res_transparent = true;
    let mut app = App::new(Lang::En, Some(stored));
    for _ in 0..15 {
        app.cycle(1);
        app.cycle(-1);
        app.cycle(1);
        app.move_cursor(1);
    }
    assert!(app.settings().enable_metal_fxsu);
    assert!(app.settings().enable_half_res_transparent);
}

#[test]
fn keys_are_turned_into_commands() {
    let mut app = App::new(Lang::En, None);
    assert_eq!(app.on_key(Key::Down), Action::Continue);
    assert_eq!(app.cursor(), 1);
    assert_eq!(app.on_key(Key::Char('j')), Action::Continue);
    assert_eq!(app.cursor(), 2);
    assert_eq!(app.on_key(Key::Up), Action::Continue);
    assert_eq!(app.on_key(Key::Char('k')), Action::Continue);
    assert_eq!(app.cursor(), 0);
    assert_eq!(app.on_key(Key::Char('k')), Action::Continue);
    assert_eq!(app.cursor(), 0);
    assert_eq!(app.on_key(Key::Right), Action::Continue);
    assert_eq!(app.settings().fps, 120);
    assert_eq!(app.on_key(Key::Char('l')), Action::Continue);
    assert_eq!(app.settings().fps, 30);
    assert_eq!(app.on_key(Key::Left), Action::Continue);
    assert_eq!(app.settings().fps, 120);
    assert_eq!(app.on_key(Key::Char('h')), Action::Continue);
    assert_eq!(app.settings().fps, 60);
    assert_eq!(app.on_key(Key::Char('s')), Action::Save);
    assert_eq!(app.on_key(Key::Char('q')), Action::Quit);
    assert_eq!(app.on_key(Key::Esc), Action::Quit);
    for key in [Key::Enter, Key::Other, Key::Char('x'), Key::Char('S'), Key::Char('Q')] {
        assert_eq!(app.on_key(key), Action::Continue);
    }
    assert_eq!(*app.settings(), GraphicsSettings::default());
    assert_eq!(app.cursor(), 0);
}

#[test]
fn the_status_tells_how_a_save_went() {
    let mut app = App::new(Lang::En, None);
    app.save_done(Ok(()));
    assert_eq!(app.status(), "Settings saved.");
    app.save_done(Err("Access is denied.".to_string()));
    assert_eq!(app.status(), "Save failed: Access is denied.");
    app.save_done(Err(String::new()));
    assert_eq!(app.status(), "Save failed: ");
    let mut ko = App::new(Lang::Ko, None);
    ko.save_done(Ok(()));
    assert_eq!(ko.status(), "설정이 저장되었습니다.");
    ko.save_done(Err("x".to_string()));
    assert_eq!(ko.status(), "저장 실패: x");
    assert_eq!(*ko.settings(), GraphicsSettings::default());
    assert_eq!(ko.cursor(), 0);
}

#[test]
fn values_are_shown_for_each_row() {
    let mut stored = GraphicsSettings::default();
    stored.fps = 144;
    stored.dlss_quality = 4;
    stored.aa_mode = 0;
    stored.render_scale = Scale::from_bits(0.75f64.to_bits());
    let app = App::new(Lang::Ja, Some(stored));
    assert_eq!(app.value_display(0), text("144"));
    assert_eq!(app.value_display(1), text("オン"));
    assert_eq!(
        app.value_display(2),
        Shown::Raw(Scale::from_bits(0.75f64.to_bits()))
    );
    assert_eq!(app.value_display(3), text("3"));
    assert_eq!(app.value_display(11), text("Off"));
    assert_eq!(app.value_display(12), text("On"));
    assert_eq!(app.value_display(13), text("4"));
    assert_eq!(app.value_display(14), text("3"));
}

#[test]
fn the_list_scrolls_to_keep_the_cursor_in_sight() {
    let mut app = App::new(Lang::En, None);
    assert_eq!(app.scroll_offset(5), 0);
    app.move_cursor(4);
    assert_eq!(app.scroll_offset(5), 0);
    app.move_cursor(1);
    assert_eq!(app.scroll_offset(5), 1);
    app.move_cursor(9);
    assert_eq!(app.cursor(), 14);
    assert_eq!(app.scroll_offset(5), 10);
    assert_eq!(app.scroll_offset(15), 0);
    assert_eq!(app.scroll_offset(1), 14);
    assert_eq!(app.scroll_offset(0), 15);
}

#[test]
fn the_picker_moves_and_chooses() {
    assert_eq!(LANG_COUNT, 3);
    assert_eq!(pick_step(0, Key::Up), Picked::Stay(0));
    assert_eq!(pick_step(0, Key::Down), Picked::Stay(1));
    assert_eq!(pick_step(1, Key::Char('j')), Picked::Stay(2));
    assert_eq!(pick_step(2, Key::Down), Picked::Stay(2));
    assert_eq!(pick_step(2, Key::Char('k')), Picked::Stay(1));
    assert_eq!(pick_step(1, Key::Up), Picked::Stay(0));
    assert_eq!(pick_step(0, Key::Enter), Picked::Chosen(Lang::En));
    assert_eq!(pick_step(1, Key::Enter), Picked::Chosen(Lang::Ko));
    assert_eq!(pick_step(2, Key::Enter), Picked::Chosen(Lang::Ja));
    assert_eq!(pick_step(2, Key::Char('1')), Picked::Chosen(Lang::En));
    assert_eq!(pick_step(0, Key::Char('2')), Picked::Chosen(Lang::Ko));
    assert_eq!(pick_step(0, Key::Char('3')), Picked::Chosen(Lang::Ja));
    assert_eq!(pick_step(1, Key::Char('q')), Picked::Quit);
    assert_eq!(pick_step(1, Key::Esc), Picked::Quit);
    assert_eq!(pick_step(1, Key::Left), Picked::Stay(1));
    assert_eq!(pick_step(1, Key::Right), Picked::Stay(1));
    assert_eq!(pick_step(1, Key::Other), Picked::Stay(1));
    assert_eq!(pick_step(1, Key::Char('4')), Picked::Stay(1));
    assert_eq!(Lang::at(0), Lang::En);
    assert_eq!(Lang::at(1), Lang::Ko);
    assert_eq!(Lang::at(2), Lang::Ja);
}
