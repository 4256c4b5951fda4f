use sl::classic::{
    add_c51, add_d51, add_man, add_sl, add_smoke, add_train, handle_event, my_mvaddstr, Config,
    Reaction, SmokeState,
};
use sl::frame::{Canvas, Draw};
use sl::terminal::{InputEvent, KeyCode};

fn triples(draws: &[Draw]) -> Vec<(u16, u16, String)> {
    draws.iter().map(|d| (d.row, d.col, d.text.clone())).collect()
}

fn config(accident: bool, fly: bool, logo: bool, c51: bool) -> Config {
    Config { accident, fly, logo, c51 }
}

#[test]
fn mvaddstr_clips_at_both_edges() {
    let mut out = Canvas::new();
    my_mvaddstr(&mut out, 3, -2, "abcdef", 10, 5);
    my_mvaddstr(&mut out, 3, 7, "abcdef", 10, 5);
    assert_eq!(
        triples(&out.take()),
        vec![(3, 0, "cdef".to_string()), (3, 7, "abc".to_string())]
    );
}

#[test]
fn mvaddstr_draws_nothing_off_screen() {
    let mut out = Canvas::new();
    my_mvaddstr(&mut out, 5, 0, "abc", 10, 5);
    my_mvaddstr(&mut out, -1, 0, "abc", 10, 5);
    my_mvaddstr(&mut out, 0, -6, "abcdef", 10, 5);
    my_mvaddstr(&mut out, 0, 10, "abc", 10, 5);
    my_mvaddstr(&mut out, 0, 0, "", 10, 5);
    assert_eq!(out.len(), 0);
}

#[test]
fn mvaddstr_keeps_multibyte_characters_whole() {
    let mut out = Canvas::new();
    my_mvaddstr(&mut out, 0, -1, "äöü", 10, 5);
    assert_eq!(triples(&out.take()), vec![(0, 0, "öü".to_string())]);
}

#[test]
fn man_waves_or_rests_by_train_column() {
    let mut out = Canvas::new();
    add_man(&mut out, 2, 5, 0, 80, 24);
    assert_eq!(
        triples(&out.take()),
        vec![(2, 5, "Help!".to_string()), (3, 5, "\\O/".to_string())]
    );
    add_man(&mut out, 2, 5, -84, 80, 24);
    assert_eq!(triples(&out.take()), vec![(3, 5, "(O)".to_string())]);
}

#[test]
fn smoke_only_at_every_fourth_column() {
    let mut out = Canvas::new();
    let mut smoke = SmokeState::new();
    add_smoke(&mut out, 5, 9, &mut smoke, 80, 24);
    assert_eq!(smoke.len(), 0);
    assert_eq!(out.len(), 0);
    add_smoke(&mut out, 5, 8, &mut smoke, 80, 24);
    assert_eq!(smoke.len(), 1);
    assert_eq!(triples(&out.take()), vec![(5, 8, "(   )".to_string())]);
    let d = smoke.drop_at(0);
    assert_eq!((d.y, d.x, d.ptrn, d.kind), (5, 8, 0, 0));
}

#[test]
fn smoke_puffs_rise_drift_and_alternate() {
    let mut out = Canvas::new();
    let mut smoke = SmokeState::new();
    add_smoke(&mut out, 10, 20, &mut smoke, 80, 24);
    out.take();
    add_smoke(&mut out, 10, 16, &mut smoke, 80, 24);
    assert_eq!(
        triples(&out.take()),
        vec![
            (10, 20, "     ".to_string()),
            (8, 18, "(    )".to_string()),
            (10, 16, "(@@@)".to_string()),
        ]
    );
    let a = smoke.drop_at(0);
    let b = smoke.drop_at(1);
    assert_eq!((a.y, a.x, a.ptrn, a.kind), (8, 18, 1, 0));
    assert_eq!((b.y, b.x, b.ptrn, b.kind), (10, 16, 0, 1));
}

#[test]
fn smoke_past_the_right_edge_in_its_last_frame_goes() {
    let mut out = Canvas::new();
    let mut narrow = SmokeState::new();
    let mut wide = SmokeState::new();
    for _ in 0..16 {
        add_smoke(&mut out, 20, 8, &mut narrow, 10, 24);
        add_smoke(&mut out, 20, 8, &mut wide, 80, 24);
    }
    assert_eq!(narrow.len(), 15);
    let d = narrow.drop_at(0);
    assert_eq!((d.y, d.x, d.ptrn, d.kind), (15, 23, 14, 1));
    assert_eq!(wide.len(), 16);
    let d = wide.drop_at(0);
    assert_eq!((d.y, d.x, d.ptrn, d.kind), (15, 26, 15, 0));
}

#[test]
fn d51_is_gone_past_its_length() {
    let mut out = Canvas::new();
    let mut smoke = SmokeState::new();
    assert!(!add_d51(&mut out, -84, &config(false, false, false, false), 80, 24, &mut smoke));
    assert_eq!(out.len(), 0);
    assert!(add_d51(&mut out, -83, &config(false, false, false, false), 80, 24, &mut smoke));
}

#[test]
fn d51_at_the_left_edge_shows_its_tail() {
    let mut out = Canvas::new();
    let mut smoke = SmokeState::new();
    assert!(add_d51(&mut out, -80, &config(true, false, false, false), 80, 24, &mut smoke));
    let draws = triples(&out.take());
    assert_eq!(draws.len(), 11);
    assert_eq!(draws[0], (7, 0, "   ".to_string()));
    assert_eq!(draws[10], (17, 0, "   ".to_string()));
}

#[test]
fn c51_and_logo_stop_at_their_lengths() {
    let mut out = Canvas::new();
    let mut smoke = SmokeState::new();
    assert!(!add_c51(&mut out, -88, &config(false, false, false, true), 80, 24, &mut smoke));
    assert!(add_c51(&mut out, -87, &config(false, false, false, true), 80, 24, &mut smoke));
    let mut smoke = SmokeState::new();
    assert!(!add_sl(&mut out, -85, &config(false, false, true, false), 80, 24, &mut smoke));
    assert!(add_sl(&mut out, -84, &config(false, false, true, false), 80, 24, &mut smoke));
}

#[test]
fn train_choice_prefers_the_logo() {
    let mut out = Canvas::new();
    let mut smoke = SmokeState::new();
    assert!(add_train(&mut out, -84, &config(false, false, true, true), 80, 24, &mut smoke));
    assert!(!add_train(&mut out, -85, &config(false, false, true, true), 80, 24, &mut smoke));
    assert!(add_train(&mut out, -87, &config(false, false, false, true), 80, 24, &mut smoke));
    assert!(!add_train(&mut out, -84, &config(false, false, false, false), 80, 24, &mut smoke));
}

#[test]
fn quit_keys_and_resizes() {
    assert_eq!(
        handle_event(&InputEvent::Key { code: KeyCode::Char('c'), control: true }),
        Reaction::Quit
    );
    assert_eq!(
        handle_event(&InputEvent::Key { code: KeyCode::Char('q'), control: false }),
        Reaction::Quit
    );
    assert_eq!(
        handle_event(&InputEvent::Key { code: KeyCode::Char('c'), control: false }),
        Reaction::Continue
    );
    assert_eq!(
        handle_event(&InputEvent::Resize { cols: 100, rows: 30 }),
        Reaction::Resize { cols: 100, rows: 30 }
    );
    assert_eq!(handle_event(&InputEvent::Other), Reaction::Continue);
}

#[test]
fn frames_stay_on_a_small_screen() {
    let mut out = Canvas::new();
    let mut smoke = SmokeState::new();
    let cfg = config(true, true, false, false);
    let mut x = 19;
    while add_train(&mut out, x, &cfg, 20, 8, &mut smoke) {
        for d in out.take() {
            let len = d.text.chars().count() as u16;
            assert!(d.row < 8);
            assert!(len > 0 && d.col + len <= 20);
        }
        x -= 1;
    }
    assert_eq!(x, -84);
}
