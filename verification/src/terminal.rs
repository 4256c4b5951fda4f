//! The terminal around the animation: the commands that put it into the
//! mode the animation needs and back, and the input events the animation
//! reacts to.
use vstd::prelude::*;

verus! {

/// A command sent to the terminal.
#[derive(Clone, Copy, Debug, PartialEq, Eq, Structural)]
pub enum TermCommand {
    ResetColor,
    EnterAlternateScreen,
    LeaveAlternateScreen,
    ClearAll,
    HideCursor,
    ShowCursor,
    MoveTo(u16, u16),
    EnableRawMode,
    DisableRawMode,
}

/// The part of the terminal's state that the commands change.
pub struct TermMode {
    pub raw: bool,
    pub alternate_screen: bool,
    pub cursor_hidden: bool,
}

/// The state of a terminal that no program has changed.
pub open spec fn normal_mode() -> TermMode {
    TermMode { raw: false, alternate_screen: false, cursor_hidden: false }
}

/// The state the animation runs in: raw input, on the alternate screen,
/// without a cursor.
pub open spec fn animation_mode() -> TermMode {
    TermMode { raw: true, alternate_screen: true, cursor_hidden: true }
}

/// What one command does to the terminal's mode.
pub open spec fn apply_command(m: TermMode, c: TermCommand) -> TermMode {
    match c {
        TermCommand::EnterAlternateScreen => TermMode { alternate_screen: true, ..m },
        TermCommand::LeaveAlternateScreen => TermMode { alternate_screen: false, ..m },
        TermCommand::HideCursor => TermMode { cursor_hidden: true, ..m },
        TermCommand::ShowCursor => TermMode { cursor_hidden: false, ..m },
        TermCommand::EnableRawMode => TermMode { raw: true, ..m },
        TermCommand::DisableRawMode => TermMode { raw: false, ..m },
        _ => m,
    }
}

/// What a list of commands, sent in order, does to the terminal's mode.
pub open spec fn apply_commands(m: TermMode, cs: Seq<TermCommand>) -> TermMode
    decreases cs.len(),
{
    if cs.len() == 0 {
        m
    } else {
        apply_command(apply_commands(m, cs.drop_last()), cs.last())
    }
}

/// The commands that prepare the terminal for the animation: reset the
/// colours, switch to the alternate screen, clear it, hide the cursor, move
/// it home and turn raw mode on.
pub open spec fn enter_sequence() -> Seq<TermCommand> {
    seq![
        TermCommand::ResetColor,
        TermCommand::EnterAlternateScreen,
        TermCommand::ClearAll,
        TermCommand::HideCursor,
        TermCommand::MoveTo(0, 0),
        TermCommand::EnableRawMode,
    ]
}

/// The commands that give the terminal back: raw mode off, back to the main
/// screen, cursor shown.
pub open spec fn leave_sequence() -> Seq<TermCommand> {
    seq![
        TermCommand::DisableRawMode,
        TermCommand::LeaveAlternateScreen,
        TermCommand::ShowCursor,
    ]
}

/// Makes sure the terminal is set up for the animation and is left in its
/// normal mode when the animation ends.
pub struct TerminalGuard;

impl TerminalGuard {
    /// The commands to send when the guard is created.
    pub fn enter_commands() -> (cmds: Vec<TermCommand>)
        ensures
            cmds@ == enter_sequence(),
    {
        let mut cmds: Vec<TermCommand> = Vec::new();
        cmds.push(TermCommand::ResetColor);
        cmds.push(TermCommand::EnterAlternateScreen);
        cmds.push(TermCommand::ClearAll);
        cmds.push(TermCommand::HideCursor);
        cmds.push(TermCommand::MoveTo(0, 0));
        cmds.push(TermCommand::EnableRawMode);
        assert(cmds@ =~= enter_sequence());
        cmds
    }

    /// The commands to send when the guard goes away.
    pub fn leave_commands() -> (cmds: Vec<TermCommand>)
        ensures
            cmds@ == leave_sequence(),
    {
        let mut cmds: Vec<TermCommand> = Vec::new();
        cmds.push(TermCommand::DisableRawMode);
        cmds.push(TermCommand::LeaveAlternateScreen);
        cmds.push(TermCommand::ShowCursor);
        assert(cmds@ =~= leave_sequence());
        cmds
    }
}

/// Whatever mode the terminal is in, setting it up puts it in the mode the
/// animation needs.
pub proof fn lemma_enter_reaches_animation_mode(m: TermMode)
    ensures
        apply_commands(m, enter_sequence()) == animation_mode(),
{
    reveal_with_fuel(apply_commands, 7);
}

/// Whatever mode the terminal is in, leaving gives back its normal mode;
/// in particular leaving after entering undoes the set-up.
pub proof fn lemma_leave_restores_normal_mode(m: TermMode)
    ensures
        apply_commands(m, leave_sequence()) == normal_mode(),
        apply_commands(apply_commands(m, enter_sequence()), leave_sequence()) == normal_mode(),
{
    reveal_with_fuel(apply_commands, 7);
}

/// A key, as far as the animation tells keys apart.
#[derive(Clone, Copy, Debug, PartialEq, Eq, Structural)]
pub enum KeyCode {
    Char(char),
    Other,
}

/// An input event from the terminal.
#[derive(Clone, Copy, Debug, PartialEq, Eq, Structural)]
pub enum InputEvent {
    /// A key press; `control` tells whether Control was held.
    Key { code: KeyCode, control: bool },
    /// The terminal now has `cols` columns and `rows` rows.
    Resize { cols: u16, rows: u16 },
    Other,
}

/// The event is Control-C.
pub open spec fn is_control_c(ev: InputEvent) -> bool {
    ev == (InputEvent::Key { code: KeyCode::Char('c'), control: true })
}

/// Tells whether an event asks the animation to stop early: Control-C.
pub fn is_interrupt(ev: &InputEvent) -> (stop: bool)
    ensures
        stop == is_control_c(*ev),
{
    match ev {
        InputEvent::Key { code: KeyCode::Char(c), control } => *c == 'c' && *control,
        _ => false,
    }
}

} // verus!
