use maze_gen::point::WindowPoint;
use maze_gen::ui::{Button, ButtonId, ButtonState, Ui};
use maze_gen::{GFX_UI_PADDING, GFX_UI_X, GFX_UI_Y};

fn highlight_of(button: &Button) -> u8 {
    match button.state {
        ButtonState::Normal { highlight, .. } => highlight,
        ButtonState::Pressed => panic!("expected an idle button"),
    }
}

fn hover_of(button: &Button) -> bool {
    match button.state {
        ButtonState::Normal { is_mouse_over, .. } => is_mouse_over,
        ButtonState::Pressed => panic!("expected an idle button"),
    }
}

fn inside_first_button() -> WindowPoint {
    WindowPoint::new(GFX_UI_X + GFX_UI_PADDING + 1, GFX_UI_Y + GFX_UI_PADDING + 1)
}

#[test]
fn new_lays_out_four_idle_buttons() {
    let ui = Ui::new();
    let buttons = ui.buttons();
    assert_eq!(buttons.len(), 4);

    let ids: Vec<ButtonId> = buttons.iter().map(|b| b.button_id).collect();
    assert_eq!(
        ids,
        vec![
            ButtonId::Step,
            ButtonId::AutoStepOrPause,
            ButtonId::Finish,
            ButtonId::Reset
        ]
    );

    // (768 − 8 − 4·8) / 4 = 182 pixels wide, 96 − 2·8 = 80 high, in a row.
    for (i, button) in buttons.iter().enumerate() {
        assert_eq!(button.width, 182);
        assert_eq!(button.height, 80);
        assert_eq!(button.position.x, 8 + (182 + 8) * i as i64);
        assert_eq!(button.position.y, 768 + 8);
        assert_eq!(highlight_of(button), 0);
        assert!(!hover_of(button));
    }
}

#[test]
fn button_texts() {
    assert_eq!(ButtonId::Step.text(), ("Step", None));
    assert_eq!(ButtonId::AutoStepOrPause.text(), ("Auto-Step", Some("Pause")));
    assert_eq!(ButtonId::Finish.text(), ("Finish", None));
    assert_eq!(ButtonId::Reset.text(), ("Reset", None));

    let ui = Ui::new();
    assert_eq!(ui.buttons()[3].text(), ("Reset", None));
}

#[test]
fn click_inside_reports_the_button() {
    let mut ui = Ui::new();
    let p = inside_first_button();
    ui.on_mouse_press(p);
    assert!(matches!(ui.buttons()[0].state, ButtonState::Pressed));
    let clicked = ui.on_mouse_release(p);
    assert_eq!(clicked, Some(ButtonId::Step));
    assert!(matches!(ui.buttons()[0].state, ButtonState::Normal { .. }));
}

#[test]
fn drag_off_and_release_cancels_the_click() {
    let mut ui = Ui::new();
    ui.on_mouse_press(inside_first_button());
    let clicked = ui.on_mouse_release(WindowPoint::new(0, 0));
    assert_eq!(clicked, None);
    assert!(matches!(ui.buttons()[0].state, ButtonState::Normal { .. }));
}

#[test]
fn release_without_press_reports_nothing() {
    let mut ui = Ui::new();
    let clicked = ui.on_mouse_release(inside_first_button());
    assert_eq!(clicked, None);
}

#[test]
fn release_over_another_button_is_no_click() {
    let mut ui = Ui::new();
    ui.on_mouse_press(inside_first_button());
    // Release inside the second button's bounds, not the first's.
    let clicked = ui.on_mouse_release(WindowPoint::new(8 + 190 + 1, 768 + 9));
    assert_eq!(clicked, None);
}

#[test]
fn highlight_grows_and_decays_clamped() {
    let mut ui = Ui::new();
    let p = inside_first_button();

    ui.on_mouse_move(p);
    assert!(hover_of(&ui.buttons()[0]));

    ui.update();
    assert_eq!(highlight_of(&ui.buttons()[0]), 1);

    for _ in 0..20 {
        ui.update();
    }
    // Clamped at full highlight: ten tenths.
    assert_eq!(highlight_of(&ui.buttons()[0]), 10);

    ui.on_mouse_move(WindowPoint::new(0, 0));
    ui.update();
    ui.update();
    assert_eq!(highlight_of(&ui.buttons()[0]), 8);

    for _ in 0..20 {
        ui.update();
    }
    assert_eq!(highlight_of(&ui.buttons()[0]), 0);
}

#[test]
fn pressed_button_captures_the_mouse() {
    let mut ui = Ui::new();
    ui.on_mouse_press(inside_first_button());

    // While captured, movement over another button is ignored entirely.
    let over_second = WindowPoint::new(8 + 190 + 1, 768 + 9);
    ui.on_mouse_move(over_second);
    assert!(!hover_of(&ui.buttons()[1]));

    // After release the capture ends and hover tracks the mouse again.
    ui.on_mouse_release(over_second);
    assert!(hover_of(&ui.buttons()[1]));
}
