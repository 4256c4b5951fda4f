use sl::frame::Draw;
use sl::tui::{SmokeEnv, State, Train, Tui};

fn args(words: &[&str]) -> Vec<String> {
    words.iter().map(|w| w.to_string()).collect()
}

fn glyphs(draws: &[Draw]) -> Vec<(u16, u16, String)> {
    draws.iter().map(|d| (d.row, d.col, d.text.clone())).collect()
}

#[test]
fn flags_set_the_options() {
    let st = State::from_args(&args(&["sl", "-aF", "-l"]));
    assert_eq!(st, State { accident: true, train: Train::Logo, fly: true });
    let st = State::from_args(&args(&["sl", "-lc"]));
    assert_eq!(st, State { accident: false, train: Train::C51, fly: false });
    let st = State::from_args(&args(&["sl", "-c", "x-a", "-z"]));
    assert_eq!(st, State { accident: false, train: Train::C51, fly: false });
}

#[test]
fn no_flags_mean_the_plain_d51() {
    let plain = State { accident: false, train: Train::D51, fly: false };
    assert_eq!(State::from_args(&args(&["sl"])), plain);
    assert_eq!(State::from_args(&args(&[])), plain);
    assert_eq!(State::from_args(&args(&["-a"])), plain);
}

#[test]
fn screen_size_falls_back_to_eighty_by_twenty_four() {
    let t = Tui::new(None);
    assert_eq!((t.cols, t.rows), (80, 24));
    let t = Tui::new(Some((100, 40)));
    assert_eq!((t.cols, t.rows), (100, 40));
}

#[test]
fn characters_are_placed_one_cell_at_a_time() {
    let mut t = Tui::new(Some((4, 3)));
    t.my_mvaddstr(2, 2, "xyz");
    t.my_mvaddstr(3, 0, "xyz");
    assert_eq!(
        glyphs(&t.canvas.take()),
        vec![(2, 2, "x".to_string()), (2, 3, "y".to_string())]
    );
}

#[test]
fn every_puff_is_kept_and_kinds_alternate() {
    let mut t = Tui::new(Some((80, 24)));
    let mut env = SmokeEnv::new();
    env.add_smoke(&mut t, 10, 40);
    env.add_smoke(&mut t, 10, 39);
    env.add_smoke(&mut t, 10, 36);
    env.add_smoke(&mut t, 10, 32);
    assert_eq!(env.len(), 3);
    for i in 0..3 {
        assert_eq!(env.smoke(i).kind, i % 2);
    }
    let first = env.smoke(0);
    assert_eq!((first.y, first.x, first.ptrn), (7, 37, 2));
}

#[test]
fn d51_is_drawn_cell_by_cell() {
    let mut t = Tui::new(Some((80, 24)));
    let mut env = SmokeEnv::new();
    let st = State { accident: false, train: Train::D51, fly: false };
    assert!(!t.render_d51(&mut env, &st, 70));
    let draws = glyphs(&t.canvas.take());
    assert_eq!(draws.len(), 110);
    assert_eq!(draws[0], (7, 70, " ".to_string()));
    assert!(t.render_d51(&mut env, &st, -84));
    assert_eq!(t.canvas.len(), 0);
}

#[test]
fn small_train_is_drawn_row_by_row() {
    let mut t = Tui::new(Some((80, 24)));
    let mut env = SmokeEnv::new();
    let st = State { accident: false, train: Train::Logo, fly: false };
    assert!(!t.render_sl(&mut env, &st, 1));
    let draws = glyphs(&t.canvas.take());
    assert_eq!(draws[0], (9, 1, " ".to_string()));
    assert_eq!(draws[21], (9, 22, "_".to_string()));
}

#[test]
fn render_train_reports_whether_the_train_is_visible() {
    let mut t = Tui::new(Some((80, 24)));
    let mut env = SmokeEnv::new();
    let c51 = State { accident: true, train: Train::C51, fly: true };
    assert!(t.render_train(&mut env, &c51, -87));
    assert!(!t.render_train(&mut env, &c51, -88));
    let logo = State { accident: false, train: Train::Logo, fly: false };
    assert!(t.render_train(&mut env, &logo, -84));
    assert!(!t.render_train(&mut env, &logo, -85));
}
