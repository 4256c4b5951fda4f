use sl::classic::my_mvaddstr;
use sl::frame::{Canvas, Draw};
use sl::geometry::man_pose_of;
use sl::terminal::{is_interrupt, InputEvent, KeyCode, TermCommand, TerminalGuard};

fn cells(draws: &[Draw]) -> Vec<(u16, u16, char)> {
    let mut out = Vec::new();
    for d in draws {
        for (i, c) in d.text.chars().enumerate() {
            out.push((d.row, d.col + i as u16, c));
        }
    }
    out
}

#[test]
fn canvas_hands_out_draws_in_order() {
    let mut canvas = Canvas::new();
    canvas.put(1, 2, "ab".to_string());
    canvas.put(0, 0, "c".to_string());
    assert_eq!(canvas.len(), 2);
    let draws = canvas.take();
    assert_eq!(canvas.len(), 0);
    assert_eq!(draws.len(), 2);
    assert_eq!((draws[0].row, draws[0].col, draws[0].text.as_str()), (1, 2, "ab"));
    assert_eq!((draws[1].row, draws[1].col, draws[1].text.as_str()), (0, 0, "c"));
}

#[test]
fn runs_and_cells_paint_the_same_cells() {
    let mut runs = Canvas::new();
    my_mvaddstr(&mut runs, 1, -1, "abc", 2, 5);
    let mut tui = sl::tui::Tui::new(Some((2, 5)));
    tui.my_mvaddstr(1, -1, "abc");
    let a = cells(&runs.take());
    let b = cells(&tui.canvas.take());
    assert_eq!(a, vec![(1, 0, 'b'), (1, 1, 'c')]);
    assert_eq!(a, b);
}

#[test]
fn guard_enters_and_leaves_the_animation_mode() {
    assert_eq!(
        TerminalGuard::enter_commands(),
        vec![
            TermCommand::ResetColor,
            TermCommand::EnterAlternateScreen,
            TermCommand::ClearAll,
            TermCommand::HideCursor,
            TermCommand::MoveTo(0, 0),
            TermCommand::EnableRawMode,
        ]
    );
    assert_eq!(
        TerminalGuard::leave_commands(),
        vec![TermCommand::DisableRawMode, TermCommand::LeaveAlternateScreen, TermCommand::ShowCursor]
    );
}

#[test]
fn only_control_c_interrupts() {
    assert!(is_interrupt(&InputEvent::Key { code: KeyCode::Char('c'), control: true }));
    assert!(!is_interrupt(&InputEvent::Key { code: KeyCode::Char('c'), control: false }));
    assert!(!is_interrupt(&InputEvent::Key { code: KeyCode::Char('q'), control: false }));
    assert!(!is_interrupt(&InputEvent::Resize { cols: 10, rows: 10 }));
    assert!(!is_interrupt(&InputEvent::Other));
}

#[test]
fn man_pose_flips_every_twelve_columns() {
    assert_eq!(man_pose_of(0), 0);
    assert_eq!(man_pose_of(11), 0);
    assert_eq!(man_pose_of(12), 1);
    assert_eq!(man_pose_of(23), 1);
    assert_eq!(man_pose_of(24), 0);
    assert_eq!(man_pose_of(-3), 0);
    assert_eq!(man_pose_of(-12), -1);
}
