use kurve::kurve::{Kurve, KurvePhase, UpdateInput, CurveInput};
use kurve::menu::{MenuInput, PlayerConfigFocus, PlayerKeyModifier, PlayerNameModifier, PlayerColorModifier, RotationDirection, UNSET_KEY};
use kurve::player::Player;

fn quiet_menu() -> MenuInput {
    MenuInput {
        up: false,
        down: false,
        left: false,
        right: false,
        confirm: false,
        cancel: false,
        backspace: false,
        typed: None,
        pressed_key: None,
    }
}

fn idle_curve_input() -> CurveInput {
    CurveInput { ccw: false, cw: false, dir_x: 0, dir_y: 0, turn_x: 0, turn_y: 0 }
}

fn setup_input(now: u64, n: usize) -> UpdateInput {
    UpdateInput {
        now,
        dt_ms: 16,
        size_x: 800,
        size_y: 600,
        pause: false,
        menu: quiet_menu(),
        curves: vec![idle_curve_input(); n],
    }
}

#[test]
fn focus_cursor_wraps_both_ways() {
    assert_eq!(PlayerConfigFocus::Name.next(), PlayerConfigFocus::Keys);
    assert_eq!(PlayerConfigFocus::Keys.next(), PlayerConfigFocus::Color);
    assert_eq!(PlayerConfigFocus::Color.next(), PlayerConfigFocus::Remove);
    assert_eq!(PlayerConfigFocus::Remove.next(), PlayerConfigFocus::Name);
    assert_eq!(PlayerConfigFocus::Name.previous(), PlayerConfigFocus::Remove);
    assert_eq!(PlayerConfigFocus::Remove.previous(), PlayerConfigFocus::Color);
    // next and previous are inverses on every column
    for f in [
        PlayerConfigFocus::Name,
        PlayerConfigFocus::Color,
        PlayerConfigFocus::Keys,
        PlayerConfigFocus::Remove,
    ] {
        assert_eq!(f.next().previous(), f);
        assert_eq!(f.previous().next(), f);
    }
}

#[test]
fn player_new_starts_at_zero() {
    let p = Player::new(String::from("Ada"));
    assert_eq!(p.score, 0);
    assert_eq!(p.name, "Ada");
}

#[test]
fn name_editor_types_and_deletes() {
    let mut m = PlayerNameModifier { buf: String::new() };
    let mut input = quiet_menu();
    input.typed = Some(String::from("Ab"));
    m.update(&input);
    assert_eq!(m.buf, "Ab");
    input.typed = Some(String::from("c"));
    m.update(&input);
    assert_eq!(m.buf, "Abc");
    let mut back = quiet_menu();
    back.backspace = true;
    m.update(&back);
    assert_eq!(m.buf, "Ab");
}

#[test]
fn key_editor_captures_ccw_then_cw() {
    let mut m = PlayerKeyModifier::new();
    assert_eq!(m.dir, RotationDirection::Ccw);
    assert_eq!(m.key_ccw, UNSET_KEY);
    let mut input = quiet_menu();
    input.pressed_key = Some(65);
    m.update(&input);
    assert_eq!(m.key_ccw, 65);
    assert_eq!(m.dir, RotationDirection::Cw);
    input.pressed_key = Some(66);
    m.update(&input);
    assert_eq!(m.key_cw, 66);
    // Backspace steps back to the counter-clockwise slot.
    let mut back = quiet_menu();
    back.backspace = true;
    m.update(&back);
    assert_eq!(m.dir, RotationDirection::Ccw);
    assert_eq!(m.key_cw, UNSET_KEY);
    assert_eq!(m.key_ccw, 65);
}

#[test]
fn color_editor_browses_with_wraparound() {
    let mut m = PlayerColorModifier::new(vec![1, 2, 3]);
    assert_eq!(m.selected, 0);
    m.update(false, true);
    assert_eq!(m.selected, 1);
    m.update(true, false);
    assert_eq!(m.selected, 0);
    m.update(true, false);
    assert_eq!(m.selected, 2);
    m.update(false, true);
    assert_eq!(m.selected, 0);
}

#[test]
fn add_player_grows_roster_until_pools_run_dry() {
    let mut k = Kurve::new(800, 600, 0);
    assert_eq!(k.players.len(), 2);
    // Walk the cursor from Start up to the add-player entry and confirm.
    let mut up = setup_input(10, 2);
    up.menu.up = true;
    k.update(&up);
    for round in 0..3u64 {
        let n = k.players.len();
        let mut add = setup_input(20 + round, n);
        add.menu.confirm = true;
        k.update(&add);
        assert_eq!(k.players.len(), n + 1);
        assert_eq!(k.players[n].score, 0);
        assert_eq!(k.curves[n].player_id, n);
    }
    assert_eq!(k.players.len(), 5);
    // The pools are empty: adding again is a no-op.
    let mut add = setup_input(40, 5);
    add.menu.confirm = true;
    k.update(&add);
    assert_eq!(k.players.len(), 5);
}

#[test]
fn remove_player_returns_colour_and_key_to_pools() {
    let mut k = Kurve::new(800, 600, 0);
    let colors_before = k.menu.colors.len();
    // Move the cursor from Start (index 3) up twice to player 2's row.
    let mut up = setup_input(10, 2);
    up.menu.up = true;
    k.update(&up);
    let mut up2 = setup_input(11, 2);
    up2.menu.up = true;
    k.update(&up2);
    // Step the row cursor left once: Name -> Remove, then confirm.
    let mut nav = setup_input(12, 2);
    nav.menu.left = true;
    nav.menu.confirm = true;
    k.update(&nav);
    assert_eq!(k.players.len(), 1);
    assert_eq!(k.curves.len(), 1);
    assert_eq!(k.curves[0].player_id, 0);
    assert_eq!(k.menu.colors.len(), colors_before + 1);
    assert_eq!(k.state, KurvePhase::Setup);
}
