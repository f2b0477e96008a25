use sx3d::{action_for, canvas_cols, Action, Axis, Console, KeyPress};

#[test]
fn canvas_fits_the_terminal() {
    assert_eq!(canvas_cols(80, 24), Some(23));
    assert_eq!(canvas_cols(30, 24), Some(9));
    assert_eq!(canvas_cols(31, 24), Some(9));
    assert_eq!(canvas_cols(31, 11), Some(9));
    assert_eq!(canvas_cols(4, 24), Some(1));
    assert_eq!(canvas_cols(2, 24), None);
    assert_eq!(canvas_cols(80, 1), None);
    assert_eq!(canvas_cols(0, 0), None);
    assert_eq!(canvas_cols(u16::MAX, u16::MAX), Some(21843));
}

#[test]
fn keys_become_actions() {
    assert_eq!(action_for(KeyPress::Char('q')), Action::Quit);
    assert_eq!(action_for(KeyPress::Char('\n')), Action::Draw);
    assert_eq!(action_for(KeyPress::Char('x')), Action::Ignore);
    assert_eq!(action_for(KeyPress::Other), Action::Ignore);
    assert_eq!(action_for(KeyPress::Up), Action::Rotate { axis: Axis::X, steps: -1 });
    assert_eq!(action_for(KeyPress::Down), Action::Rotate { axis: Axis::X, steps: 1 });
    assert_eq!(action_for(KeyPress::Left), Action::Rotate { axis: Axis::Y, steps: -1 });
    assert_eq!(action_for(KeyPress::Right), Action::Rotate { axis: Axis::Y, steps: 1 });
}

#[test]
fn console_is_created() {
    let _console = Console::new();
    let _other: Console = Default::default();
}
