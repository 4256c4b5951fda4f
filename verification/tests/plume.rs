use sl::frame::Draw;
use sl::plume::{Config, PuffKind, SmokePlume, Tui};

fn triples(draws: &[Draw]) -> Vec<(u16, u16, String)> {
    draws.iter().map(|d| (d.row, d.col, d.text.clone())).collect()
}

fn config(accident: bool, fly: bool, c51: bool, logo: bool, one: bool) -> Config {
    Config { accident, fly, c51, logo, one }
}

#[test]
fn puff_kinds_take_turns() {
    assert_eq!(PuffKind::default(), PuffKind::White);
    assert_eq!(PuffKind::White.succ(), PuffKind::Black);
    assert_eq!(PuffKind::Black.succ(), PuffKind::White);
    assert_eq!(PuffKind::Black.succ().succ(), PuffKind::Black);
    assert_eq!(PuffKind::Black.shade_index(), 0);
    assert_eq!(PuffKind::White.shade_index(), 1);
}

#[test]
fn draw_text_keeps_the_visible_part() {
    let mut t = Tui::new(Some((10, 5)));
    t.draw_text(3, -2, "abcdef");
    t.draw_text(3, 7, "abcdef");
    t.draw_text(4, -6, "abcdef");
    t.draw_text(5, 0, "abcdef");
    t.draw_text(0, 10, "abcdef");
    assert_eq!(
        triples(&t.canvas.take()),
        vec![(3, 0, "cdef".to_string()), (3, 7, "abc".to_string())]
    );
}

#[test]
fn draw_lines_puts_each_line_one_row_lower() {
    let mut t = Tui::new(Some((10, 5)));
    t.draw_lines(3, 1, &["ab", "cd", "ef"]);
    assert_eq!(
        triples(&t.canvas.take()),
        vec![(3, 1, "ab".to_string()), (4, 1, "cd".to_string())]
    );
}

#[test]
fn man_pose_follows_the_train_length() {
    let mut t = Tui::new(Some((80, 24)));
    t.add_man(2, 1, 83);
    assert_eq!(
        triples(&t.canvas.take()),
        vec![(2, 1, "Help!".to_string()), (3, 1, "\\O/".to_string())]
    );
    t.add_man(2, 43, 83);
    assert_eq!(triples(&t.canvas.take()), vec![(3, 43, "(O)".to_string())]);
}

#[test]
fn plume_keeps_at_most_256_alternating_puffs() {
    let mut t = Tui::new(Some((80, 24)));
    let mut plume = SmokePlume::new();
    for _ in 0..300 {
        plume.add_smoke(&mut t, 0, 0);
        t.canvas.take();
    }
    assert_eq!(plume.len(), 256);
    for i in 0..255 {
        assert_eq!(plume.puff(i).kind.succ(), plume.puff(i + 1).kind);
    }
    assert_eq!(plume.puff(255).kind.succ(), plume.next_puff());
    assert_eq!(plume.puff(255).frame, 0);
    assert_eq!(plume.puff(0).frame, 15);
}

#[test]
fn plume_moves_only_at_every_fourth_column() {
    let mut t = Tui::new(Some((80, 24)));
    let mut plume = SmokePlume::new();
    plume.add_smoke(&mut t, 10, 41);
    assert_eq!(plume.len(), 0);
    assert_eq!(t.canvas.len(), 0);
    plume.add_smoke(&mut t, 10, 40);
    assert_eq!(triples(&t.canvas.take()), vec![(10, 40, "(@@@)".to_string())]);
    plume.add_smoke(&mut t, 10, 36);
    assert_eq!(
        triples(&t.canvas.take()),
        vec![
            (10, 40, "     ".to_string()),
            (8, 38, "(@@@@)".to_string()),
            (10, 36, "(   )".to_string()),
        ]
    );
}

#[test]
fn d51_with_people_crying_for_help() {
    let mut t = Tui::new(Some((80, 24)));
    let mut plume = SmokePlume::new();
    assert!(t.render_d51(&mut plume, &config(true, false, false, false, false), 0));
    let draws = triples(&t.canvas.take());
    assert_eq!(draws.len(), 24);
    assert_eq!(
        draws[0],
        (7, 0, "      ====        ________                ___________ ".to_string())
    );
    assert_eq!(
        draws[9],
        (16, 0, "  \\_/      \\_O=====O=====O=====O/      \\_/            ".to_string())
    );
    assert_eq!(draws[22], (10, 43, "(O)".to_string()));
    assert_eq!(draws[23], (10, 47, "(O)".to_string()));
}

#[test]
fn one_puts_the_train_at_the_bottom() {
    let mut t = Tui::new(Some((80, 24)));
    let mut plume = SmokePlume::new();
    assert!(t.render_d51(&mut plume, &config(false, false, false, false, true), 10));
    let draws = triples(&t.canvas.take());
    assert_eq!(draws.len(), 20);
    assert_eq!(draws[0].0, 14);
    assert_eq!(draws[0].1, 10);
}

#[test]
fn trains_leave_after_their_length() {
    let mut t = Tui::new(Some((80, 24)));
    let mut plume = SmokePlume::new();
    assert!(t.render_train(&mut plume, &config(false, false, false, false, false), -83));
    assert!(!t.render_train(&mut plume, &config(false, false, false, false, false), -84));
    assert!(t.render_train(&mut plume, &config(false, false, true, false, false), -87));
    assert!(!t.render_train(&mut plume, &config(false, false, true, false, false), -88));
    assert!(t.render_train(&mut plume, &config(false, true, false, true, false), -84));
    assert!(!t.render_train(&mut plume, &config(false, true, false, true, false), -85));
    assert!(t.render_c51(&mut plume, &config(false, false, true, false, false), 0));
    assert!(t.render_logo(&mut plume, &config(true, true, false, true, false), 0));
}

#[test]
fn wheels_come_back_every_six_columns() {
    let mut t = Tui::new(Some((200, 24)));
    let mut plume = SmokePlume::new();
    let cfg = config(false, false, false, false, false);
    assert!(t.render_d51(&mut plume, &cfg, 10));
    let a = triples(&t.canvas.take());
    assert!(t.render_d51(&mut plume, &cfg, 16));
    let b = triples(&t.canvas.take());
    assert_eq!(a.len(), b.len());
    for (da, db) in a.iter().zip(b.iter()) {
        assert_eq!((da.0, da.1 + 6, &da.2), (db.0, db.1, &db.2));
    }
    assert!(t.render_d51(&mut plume, &cfg, 11));
    let c = triples(&t.canvas.take());
    assert_ne!(a[8].2, c[8].2);
}
