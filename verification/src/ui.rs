//! The clickable button strip. Buttons track hover state and a highlight
//! level, and report a click only when a press and the following release both
//! land inside the same button. While a button is pressed it captures the
//! mouse: other buttons ignore mouse movement until release.
//!
//! The highlight level is an integer number of tenths, `0..=10`, moved one
//! step per update tick; renderers divide by ten to blend colours.

use vstd::prelude::*;

use crate::point::WindowPoint;
use crate::{GFX_UI_HEIGHT, GFX_UI_PADDING, GFX_UI_WIDTH, GFX_UI_X, GFX_UI_Y};

verus! {

/// Full highlight: ten tenths.
pub const HIGHLIGHT_MAX: u8 = 10;

/// The identities of the buttons, in their on-screen order.
#[derive(Clone, Copy, PartialEq, Eq, PartialOrd, Ord, Structural, Debug)]
pub enum ButtonId {
    Step,
    AutoStepOrPause,
    Finish,
    Reset,
}

/// The button identities in on-screen order.
pub open spec fn spec_all_ids() -> Seq<ButtonId> {
    seq![ButtonId::Step, ButtonId::AutoStepOrPause, ButtonId::Finish, ButtonId::Reset]
}

/// The position a button identity occupies in the strip.
pub open spec fn spec_id_index(id: ButtonId) -> int {
    match id {
        ButtonId::Step => 0,
        ButtonId::AutoStepOrPause => 1,
        ButtonId::Finish => 2,
        ButtonId::Reset => 3,
    }
}

impl ButtonId {
    /// Every button identity, in on-screen order.
    pub fn all() -> (r: Vec<ButtonId>)
        ensures
            r@ == spec_all_ids(),
    {
        let r = vec![ButtonId::Step, ButtonId::AutoStepOrPause, ButtonId::Finish, ButtonId::Reset];
        proof {
            assert(r@ =~= spec_all_ids());
        }
        r
    }

    /// The button's label, and the alternative label of a toggling button.
    pub fn text(&self) -> (r: (&str, Option<&str>))
        ensures
            *self == ButtonId::Step ==> r.0@ == "Step"@ && r.1 is None,
            *self == ButtonId::AutoStepOrPause ==> r.0@ == "Auto-Step"@ && (r.1 matches Some(alt)
                && alt@ == "Pause"@),
            *self == ButtonId::Finish ==> r.0@ == "Finish"@ && r.1 is None,
            *self == ButtonId::Reset ==> r.0@ == "Reset"@ && r.1 is None,
    {
        match self {
            ButtonId::Step => ("Step", None),
            ButtonId::AutoStepOrPause => ("Auto-Step", Some("Pause")),
            ButtonId::Finish => ("Finish", None),
            ButtonId::Reset => ("Reset", None),
        }
    }
}

/// A button is either idle — tracking hover and a highlight level — or held
/// pressed.
#[derive(Clone, Copy, PartialEq, Eq, Structural, Debug)]
pub enum ButtonState {
    Normal { is_mouse_over: bool, highlight: u8 },
    Pressed,
}

/// One clickable region.
#[derive(Clone, Copy, PartialEq, Eq, Structural, Debug)]
pub struct Button {
    pub button_id: ButtonId,
    pub position: WindowPoint,
    pub width: i64,
    pub height: i64,
    pub state: ButtonState,
}

/// Whether `p` lies inside `b`'s bounds (left and top edges inclusive).
pub open spec fn spec_button_inside(b: Button, p: WindowPoint) -> bool {
    &&& b.position.x <= p.x < b.position.x + b.width
    &&& b.position.y <= p.y < b.position.y + b.height
}

/// One update tick: the highlight of an idle button grows one tenth under
/// the mouse and decays one tenth otherwise, clamped to `0..=10`; a pressed
/// button is unchanged.
pub open spec fn spec_button_update(b: Button) -> Button {
    match b.state {
        ButtonState::Normal { is_mouse_over, highlight } => {
            let next = if is_mouse_over {
                if highlight >= HIGHLIGHT_MAX {
                    HIGHLIGHT_MAX as int
                } else {
                    highlight + 1
                }
            } else {
                if highlight == 0 {
                    0int
                } else {
                    highlight - 1
                }
            };
            Button {
                button_id: b.button_id,
                position: b.position,
                width: b.width,
                height: b.height,
                state: ButtonState::Normal { is_mouse_over, highlight: next as u8 },
            }
        },
        ButtonState::Pressed => b,
    }
}

/// A mouse movement: an idle button re-evaluates hover; a pressed button is
/// unchanged.
pub open spec fn spec_button_mouse_move(b: Button, p: WindowPoint) -> Button {
    match b.state {
        ButtonState::Normal { is_mouse_over, highlight } => Button {
            button_id: b.button_id,
            position: b.position,
            width: b.width,
            height: b.height,
            state: ButtonState::Normal { is_mouse_over: spec_button_inside(b, p), highlight },
        },
        ButtonState::Pressed => b,
    }
}

/// A release over a button: back to idle, hover re-evaluated, highlight
/// reset.
pub open spec fn spec_button_release(b: Button, p: WindowPoint) -> Button {
    Button {
        button_id: b.button_id,
        position: b.position,
        width: b.width,
        height: b.height,
        state: ButtonState::Normal { is_mouse_over: spec_button_inside(b, p), highlight: 0 },
    }
}

/// A press: the button is held.
pub open spec fn spec_button_press(b: Button) -> Button {
    Button {
        button_id: b.button_id,
        position: b.position,
        width: b.width,
        height: b.height,
        state: ButtonState::Pressed,
    }
}

impl Button {
    /// Geometry small enough for overflow-free hit tests, and a highlight
    /// within range.
    pub open spec fn wf(self) -> bool {
        &&& 0 <= self.position.x <= 4294967296
        &&& 0 <= self.position.y <= 4294967296
        &&& 0 <= self.width <= 4294967296
        &&& 0 <= self.height <= 4294967296
        &&& match self.state {
            ButtonState::Normal { highlight, .. } => highlight <= HIGHLIGHT_MAX,
            ButtonState::Pressed => true,
        }
    }

    /// A fresh idle button.
    fn new(button_id: ButtonId, position: WindowPoint, width: i64, height: i64) -> (r: Self)
        ensures
            r == (Button {
                button_id,
                position,
                width,
                height,
                state: ButtonState::Normal { is_mouse_over: false, highlight: 0 },
            }),
    {
        let state = ButtonState::Normal { is_mouse_over: false, highlight: 0 };

        Self { button_id, position, width, height, state }
    }

    /// The button's label, and the alternative label of a toggling button.
    pub fn text(&self) -> (r: (&str, Option<&str>))
        ensures
            self.button_id == ButtonId::Step ==> r.0@ == "Step"@ && r.1 is None,
            self.button_id == ButtonId::AutoStepOrPause ==> r.0@ == "Auto-Step"@ && (
            r.1 matches Some(alt) && alt@ == "Pause"@),
            self.button_id == ButtonId::Finish ==> r.0@ == "Finish"@ && r.1 is None,
            self.button_id == ButtonId::Reset ==> r.0@ == "Reset"@ && r.1 is None,
    {
        self.button_id.text()
    }

    /// One update tick of the highlight.
    fn update(&mut self)
        requires
            old(self).wf(),
        ensures
            *final(self) == spec_button_update(*old(self)),
            final(self).wf(),
    {
        if let ButtonState::Normal { is_mouse_over, highlight } = self.state {
            let next = if is_mouse_over {
                if highlight >= HIGHLIGHT_MAX {
                    HIGHLIGHT_MAX
                } else {
                    highlight + 1
                }
            } else {
                if highlight == 0 {
                    0
                } else {
                    highlight - 1
                }
            };
            self.state = ButtonState::Normal { is_mouse_over, highlight: next };
        }
    }

    fn on_mouse_move(&mut self, mouse: WindowPoint)
        requires
            old(self).wf(),
        ensures
            *final(self) == spec_button_mouse_move(*old(self), mouse),
            final(self).wf(),
    {
        let mouse_over = self.is_point_inside(mouse);

        if let ButtonState::Normal { highlight, .. } = self.state {
            self.state = ButtonState::Normal { is_mouse_over: mouse_over, highlight };
        }
    }

    fn on_mouse_press(&mut self)
        ensures
            *final(self) == spec_button_press(*old(self)),
    {
        self.state = ButtonState::Pressed;
    }

    fn on_mouse_release(&mut self, mouse: WindowPoint)
        requires
            old(self).wf(),
        ensures
            *final(self) == spec_button_release(*old(self), mouse),
            final(self).wf(),
    {
        let is_mouse_over = self.is_point_inside(mouse);
        self.state = ButtonState::Normal { is_mouse_over, highlight: 0 };
    }

    /// Whether `point` lies inside this button's bounds.
    fn is_point_inside(&self, point: WindowPoint) -> (r: bool)
        requires
            self.wf(),
        ensures
            r == spec_button_inside(*self, point),
    {
        point.x >= self.position.x && point.x < (self.position.x + self.width) && point.y
            >= self.position.y && point.y < (self.position.y + self.height)
    }
}

/// The mathematical state of the button strip.
pub struct UiView {
    pub buttons: Seq<Button>,
    pub pressed: Option<ButtonId>,
}

impl UiView {
    /// One well-formed button per identity, in on-screen order; if a press
    /// is recorded, that button is in the pressed state.
    pub open spec fn wf(self) -> bool {
        &&& self.buttons.len() == spec_all_ids().len()
        &&& forall|i: int|
            0 <= i < self.buttons.len() ==> (#[trigger] self.buttons[i]).button_id
                == spec_all_ids()[i]
        &&& forall|i: int| 0 <= i < self.buttons.len() ==> (#[trigger] self.buttons[i]).wf()
        &&& match self.pressed {
            Some(id) => self.buttons[spec_id_index(id)].state is Pressed,
            None => true,
        }
    }
}

/// A mouse movement over the whole strip: every button re-evaluates hover,
/// unless a pressed button is capturing the mouse, in which case nothing
/// changes.
pub open spec fn spec_ui_on_mouse_move(v: UiView, p: WindowPoint) -> UiView {
    if v.pressed is None {
        UiView { buttons: v.buttons.map_values(|b: Button| spec_button_mouse_move(b, p)), pressed: v.pressed }
    } else {
        v
    }
}

/// The first button at or after position `i` whose bounds contain `p`.
pub open spec fn spec_first_hit_from(bs: Seq<Button>, p: WindowPoint, i: int) -> Option<int>
    decreases bs.len() - i,
{
    if i < 0 || i >= bs.len() {
        None
    } else if spec_button_inside(bs[i], p) {
        Some(i)
    } else {
        spec_first_hit_from(bs, p, i + 1)
    }
}

/// The first button whose bounds contain `p`, if any.
pub open spec fn spec_first_hit(bs: Seq<Button>, p: WindowPoint) -> Option<int> {
    spec_first_hit_from(bs, p, 0)
}

/// A mouse press: after hover is re-evaluated, the first button under the
/// mouse becomes pressed and captures the mouse.
pub open spec fn spec_ui_on_mouse_press(v: UiView, p: WindowPoint) -> UiView {
    let m = spec_ui_on_mouse_move(v, p);
    match spec_first_hit(m.buttons, p) {
        Some(i) => UiView {
            buttons: m.buttons.update(i, spec_button_press(m.buttons[i])),
            pressed: Some(m.buttons[i].button_id),
        },
        None => m,
    }
}

/// A mouse release: the capturing button, if any, returns to idle, the
/// capture ends, and every button re-evaluates hover.
pub open spec fn spec_ui_on_mouse_release(v: UiView, p: WindowPoint) -> UiView {
    let m = spec_ui_on_mouse_move(v, p);
    match v.pressed {
        Some(id) => {
            let i = spec_id_index(id);
            let released = UiView {
                buttons: m.buttons.update(i, spec_button_release(m.buttons[i], p)),
                pressed: None,
            };
            spec_ui_on_mouse_move(released, p)
        },
        None => m,
    }
}

/// The click a release reports: the previously pressed button, but only if
/// the release still lies inside its bounds.
pub open spec fn spec_ui_release_click(v: UiView, p: WindowPoint) -> Option<ButtonId> {
    match v.pressed {
        Some(id) => if spec_button_inside(v.buttons[spec_id_index(id)], p) {
            Some(id)
        } else {
            None
        },
        None => None,
    }
}

/// The button strip: one button per identity, and the identity of the
/// button currently capturing the mouse, if any.
pub struct Ui {
    buttons: Vec<Button>,
    pressed_button_id: Option<ButtonId>,
}

impl View for Ui {
    type V = UiView;

    closed spec fn view(&self) -> UiView {
        UiView { buttons: self.buttons@, pressed: self.pressed_button_id }
    }
}

/// The geometry of button `i`: the buttons share the strip's width evenly,
/// with uniform padding around and between them.
pub open spec fn spec_initial_button(i: int) -> Button {
    let count = spec_all_ids().len() as int;
    let width = (GFX_UI_WIDTH - GFX_UI_PADDING - count * GFX_UI_PADDING) / count;
    Button {
        button_id: spec_all_ids()[i],
        position: WindowPoint {
            x: (GFX_UI_X + GFX_UI_PADDING + (width + GFX_UI_PADDING) * i) as i64,
            y: (GFX_UI_Y + GFX_UI_PADDING) as i64,
        },
        width: width as i64,
        height: (GFX_UI_HEIGHT - GFX_UI_PADDING * 2) as i64,
        state: ButtonState::Normal { is_mouse_over: false, highlight: 0 },
    }
}

impl Ui {
    pub open spec fn wf(self) -> bool {
        self@.wf()
    }

    /// The button strip in its initial state: all buttons idle, none
    /// capturing the mouse.
    pub fn new() -> (r: Self)
        ensures
            r.wf(),
            r@.pressed is None,
            r@.buttons.len() == spec_all_ids().len(),
            forall|i: int| 0 <= i < r@.buttons.len() ==> #[trigger] r@.buttons[i]
                == spec_initial_button(i),
    {
        let all = ButtonId::all();
        let button_count = all.len() as i64;
        let button_width = (GFX_UI_WIDTH - GFX_UI_PADDING - button_count * GFX_UI_PADDING)
            / button_count;
        let button_height = GFX_UI_HEIGHT - GFX_UI_PADDING * 2;

        let mut buttons: Vec<Button> = Vec::new();

        let mut i: usize = 0;
        while i < all.len()
            invariant
                all@ == spec_all_ids(),
                button_count == 4,
                button_width == spec_initial_button(0).width,
                button_height == spec_initial_button(0).height,
                0 <= i <= all@.len(),
                buttons@.len() == i,
                forall|j: int| 0 <= j < i ==> #[trigger] buttons@[j] == spec_initial_button(j),
            decreases all@.len() - i,
        {
            let button_id = all[i];
            let x = GFX_UI_X + GFX_UI_PADDING + ((button_width + GFX_UI_PADDING) * (i as i64));
            let y = GFX_UI_Y + GFX_UI_PADDING;

            let button = Button::new(button_id, WindowPoint::new(x, y), button_width, button_height);

            buttons.push(button);
            i = i + 1;
        }

        let r = Self { buttons, pressed_button_id: None };
        proof {
            assert forall|i: int| 0 <= i < r@.buttons.len() implies (#[trigger] r@.buttons[i]).wf()
                by {
                assert(r@.buttons[i] == spec_initial_button(i));
            }
        }
        r
    }

    /// One update tick: every idle button's highlight moves one step.
    pub fn update(&mut self)
        requires
            old(self).wf(),
        ensures
            final(self).wf(),
            final(self)@.pressed == old(self)@.pressed,
            final(self)@.buttons.len() == old(self)@.buttons.len(),
            forall|i: int| 0 <= i < old(self)@.buttons.len() ==> #[trigger] final(self)@.buttons[i]
                == spec_button_update(old(self)@.buttons[i]),
    {
        let mut i: usize = 0;
        while i < self.buttons.len()
            invariant
                old(self).wf(),
                self@.pressed == old(self)@.pressed,
                self@.buttons.len() == old(self)@.buttons.len(),
                0 <= i <= self@.buttons.len(),
                forall|j: int| 0 <= j < i ==> #[trigger] self@.buttons[j] == spec_button_update(
                    old(self)@.buttons[j],
                ),
                forall|j: int| i <= j < self@.buttons.len() ==> #[trigger] self@.buttons[j] == old(
                    self,
                )@.buttons[j],
            decreases self@.buttons.len() - i,
        {
            let mut b = self.buttons[i];
            b.update();
            self.buttons[i] = b;
            i = i + 1;
        }
        proof {
            assert forall|i: int| 0 <= i < self@.buttons.len() implies (#[trigger] self@.buttons[i]).wf()
                by {
                assert(self@.buttons[i] == spec_button_update(old(self)@.buttons[i]));
            }
        }
    }

    /// A mouse movement: forwarded to every button, unless a pressed button
    /// is capturing the mouse.
    pub fn on_mouse_move(&mut self, mouse: WindowPoint)
        requires
            old(self).wf(),
        ensures
            final(self).wf(),
            final(self)@ == spec_ui_on_mouse_move(old(self)@, mouse),
    {
        if self.pressed_button_id.is_none() {
            let mut i: usize = 0;
            while i < self.buttons.len()
                invariant
                    old(self).wf(),
                    old(self)@.pressed is None,
                    self@.pressed == old(self)@.pressed,
                    self@.buttons.len() == old(self)@.buttons.len(),
                    0 <= i <= self@.buttons.len(),
                    forall|j: int| 0 <= j < i ==> #[trigger] self@.buttons[j]
                        == spec_button_mouse_move(old(self)@.buttons[j], mouse),
                    forall|j: int| i <= j < self@.buttons.len() ==> #[trigger] self@.buttons[j]
                        == old(self)@.buttons[j],
                decreases self@.buttons.len() - i,
            {
                let mut b = self.buttons[i];
                b.on_mouse_move(mouse);
                self.buttons[i] = b;
                i = i + 1;
            }
            proof {
                lemma_ui_move_pointwise(old(self)@, self@, mouse);
            }
        }
    }
}

/// The position a button identity occupies in the strip.
fn id_index(id: ButtonId) -> (r: usize)
    ensures
        r == spec_id_index(id),
{
    match id {
        ButtonId::Step => 0,
        ButtonId::AutoStepOrPause => 1,
        ButtonId::Finish => 2,
        ButtonId::Reset => 3,
    }
}

impl Ui {
    /// A mouse press: hover is re-evaluated, then the first button under the
    /// mouse becomes pressed and captures the mouse.
    pub fn on_mouse_press(&mut self, mouse: WindowPoint)
        requires
            old(self).wf(),
        ensures
            final(self).wf(),
            final(self)@ == spec_ui_on_mouse_press(old(self)@, mouse),
    {
        self.on_mouse_move(mouse);
        let ghost m = self@;

        let mut i: usize = 0;
        while i < self.buttons.len()
            invariant
                old(self).wf(),
                self.wf(),
                self@ == m,
                m == spec_ui_on_mouse_move(old(self)@, mouse),
                0 <= i <= self@.buttons.len(),
                forall|j: int| 0 <= j < i ==> !spec_button_inside(#[trigger] m.buttons[j], mouse),
            decreases self@.buttons.len() - i,
        {
            let b = self.buttons[i];
            if b.is_point_inside(mouse) {
                proof {
                    lemma_first_hit_from_at(m.buttons, mouse, 0, i as int);
                }
                let mut pressed_button = b;
                pressed_button.on_mouse_press();
                self.buttons[i] = pressed_button;
                self.pressed_button_id = Some(b.button_id);
                proof {
                    assert forall|j: int|
                        0 <= j < self@.buttons.len() implies (#[trigger] self@.buttons[j]).wf()
                        && self@.buttons[j].button_id == spec_all_ids()[j] by {
                        if j != i {
                            assert(self@.buttons[j] == m.buttons[j]);
                        }
                    }
                    assert(self@.buttons[spec_id_index(b.button_id)].state is Pressed);
                    assert(self@.buttons =~= m.buttons.update(
                        i as int,
                        spec_button_press(m.buttons[i as int]),
                    ));
                    assert(self@ =~= spec_ui_on_mouse_press(old(self)@, mouse));
                }
                self.on_mouse_move(mouse);
                return;
            }
            i = i + 1;
        }

        proof {
            lemma_first_hit_from_none(m.buttons, mouse, 0);
            lemma_ui_move_idempotent(old(self)@, mouse);
        }
        self.on_mouse_move(mouse);
    }

    /// A mouse release: the capturing button, if any, returns to idle, and
    /// the click is reported exactly when the release still lies inside that
    /// button's bounds.
    pub fn on_mouse_release(&mut self, mouse: WindowPoint) -> (r: Option<ButtonId>)
        requires
            old(self).wf(),
        ensures
            final(self).wf(),
            final(self)@ == spec_ui_on_mouse_release(old(self)@, mouse),
            r == spec_ui_release_click(old(self)@, mouse),
    {
        let mut clicked_button: Option<ButtonId> = None;

        self.on_mouse_move(mouse);
        let ghost m = self@;

        if let Some(pressed_button_id) = self.pressed_button_id {
            let i = id_index(pressed_button_id);

            let button = self.buttons[i];
            let mut released_button = button;
            released_button.on_mouse_release(mouse);
            self.buttons[i] = released_button;

            if released_button.is_point_inside(mouse) {
                clicked_button = Some(pressed_button_id);
            }

            self.pressed_button_id = None;
            proof {
                assert forall|j: int|
                    0 <= j < self@.buttons.len() implies (#[trigger] self@.buttons[j]).wf()
                    && self@.buttons[j].button_id == spec_all_ids()[j] by {
                    if j != i {
                        assert(self@.buttons[j] == m.buttons[j]);
                    }
                }
            }
        } else {
            proof {
                lemma_ui_move_idempotent(old(self)@, mouse);
            }
        }

        self.on_mouse_move(mouse);

        clicked_button
    }

    /// The buttons, in on-screen order.
    pub fn buttons(&self) -> (r: &Vec<Button>)
        ensures
            r@ == self@.buttons,
    {
        &self.buttons
    }
}

/// If `p` hits button `i` and misses all earlier buttons from `k` on, the
/// search from `k` finds `i`.
proof fn lemma_first_hit_from_at(bs: Seq<Button>, p: WindowPoint, k: int, i: int)
    requires
        0 <= k <= i < bs.len(),
        spec_button_inside(bs[i], p),
        forall|j: int| k <= j < i ==> !spec_button_inside(#[trigger] bs[j], p),
    ensures
        spec_first_hit_from(bs, p, k) == Some(i),
    decreases i - k,
{
    if k < i {
        lemma_first_hit_from_at(bs, p, k + 1, i);
    }
}

/// If `p` misses every button from `k` on, the search from `k` finds none.
proof fn lemma_first_hit_from_none(bs: Seq<Button>, p: WindowPoint, k: int)
    requires
        0 <= k,
        forall|j: int| k <= j < bs.len() ==> !spec_button_inside(#[trigger] bs[j], p),
    ensures
        spec_first_hit_from(bs, p, k) is None,
    decreases bs.len() - k,
{
    if k < bs.len() {
        lemma_first_hit_from_none(bs, p, k + 1);
    }
}

/// Re-evaluating hover twice in a row with the same mouse position changes
/// nothing the second time.
proof fn lemma_ui_move_idempotent(v: UiView, p: WindowPoint)
    ensures
        spec_ui_on_mouse_move(spec_ui_on_mouse_move(v, p), p) == spec_ui_on_mouse_move(v, p),
{
    let m = spec_ui_on_mouse_move(v, p);
    if v.pressed is None {
        let mm = spec_ui_on_mouse_move(m, p);
        assert forall|i: int| 0 <= i < mm.buttons.len() implies #[trigger] mm.buttons[i]
            == m.buttons[i] by {
            assert(m.buttons[i] == spec_button_mouse_move(v.buttons[i], p));
            assert(mm.buttons[i] == spec_button_mouse_move(m.buttons[i], p));
        }
        assert(mm.buttons =~= m.buttons);
        assert(mm =~= m);
    }
}

/// Law: when no button is captured and a press lands inside button `i` (and
/// inside no earlier button), then the following release reports a click for
/// exactly that button if it lands inside the button's bounds again, and no
/// click if it lands outside — dragging off a button and releasing cancels
/// the click.
pub proof fn lemma_click_reported(v: UiView, p: WindowPoint, q: WindowPoint, i: int)
    requires
        v.wf(),
        v.pressed is None,
        0 <= i < v.buttons.len(),
        spec_button_inside(v.buttons[i], p),
        forall|j: int| 0 <= j < i ==> !spec_button_inside(#[trigger] v.buttons[j], p),
    ensures
        spec_ui_release_click(spec_ui_on_mouse_press(v, p), q) == (if spec_button_inside(
            v.buttons[i],
            q,
        ) {
            Some(v.buttons[i].button_id)
        } else {
            None::<ButtonId>
        }),
{
    let m = spec_ui_on_mouse_move(v, p);
    assert forall|j: int| 0 <= j < m.buttons.len() implies #[trigger] m.buttons[j].position
        == v.buttons[j].position && m.buttons[j].width == v.buttons[j].width && m.buttons[j].height
        == v.buttons[j].height && m.buttons[j].button_id == v.buttons[j].button_id by {
        assert(m.buttons[j] == spec_button_mouse_move(v.buttons[j], p));
    }
    assert forall|j: int| 0 <= j < i implies !spec_button_inside(#[trigger] m.buttons[j], p) by {}
    lemma_first_hit_from_at(m.buttons, p, 0, i);

    let pressed = spec_ui_on_mouse_press(v, p);
    let id = m.buttons[i].button_id;
    assert(pressed.pressed == Some(id));
    assert(id == spec_all_ids()[i]);
    assert(spec_id_index(id) == i) by {
        if i == 0 {
            assert(spec_all_ids()[0] == ButtonId::Step);
        } else if i == 1 {
            assert(spec_all_ids()[1] == ButtonId::AutoStepOrPause);
        } else if i == 2 {
            assert(spec_all_ids()[2] == ButtonId::Finish);
        } else {
            assert(spec_all_ids()[3] == ButtonId::Reset);
        }
    }
    assert(pressed.buttons[i] == spec_button_press(m.buttons[i]));
    assert(spec_button_inside(pressed.buttons[i], q) == spec_button_inside(v.buttons[i], q));
}

/// Whether a button has the geometry [`Ui::new`] lays out at position `i`.
pub open spec fn has_laid_out_geometry(b: Button, i: int) -> bool {
    &&& b.position == spec_initial_button(i).position
    &&& b.width == spec_initial_button(i).width
    &&& b.height == spec_initial_button(i).height
}

/// Law: the buttons the library lays out are pairwise disjoint — no point
/// lies inside two of them.
pub proof fn lemma_initial_buttons_disjoint(i: int, j: int, p: WindowPoint)
    requires
        0 <= i < spec_all_ids().len(),
        0 <= j < spec_all_ids().len(),
        i != j,
        spec_button_inside(spec_initial_button(i), p),
    ensures
        !spec_button_inside(spec_initial_button(j), p),
{
    assert(spec_all_ids().len() == 4);
    let pad = GFX_UI_PADDING as int;
    let count = spec_all_ids().len() as int;
    let bw = (GFX_UI_WIDTH as int - pad - count * pad) / count;
    assert(count * pad == 32) by (nonlinear_arith)
        requires
            count == 4,
            pad == 8,
    ;
    assert(bw == 182);
    assert((bw + pad) * 0 == 0) by (nonlinear_arith);
    assert((bw + pad) * 1 == 190) by (nonlinear_arith)
        requires
            bw == 182,
            pad == 8,
    ;
    assert((bw + pad) * 2 == 380) by (nonlinear_arith)
        requires
            bw == 182,
            pad == 8,
    ;
    assert((bw + pad) * 3 == 570) by (nonlinear_arith)
        requires
            bw == 182,
            pad == 8,
    ;
}

/// Law: for a button strip in the geometry the library lays out, a press
/// inside button `i` followed by a release reports a click for exactly that
/// button if the release lands inside it again, and no click otherwise. The
/// buttons are pairwise disjoint, so no first-hit premise is needed.
pub proof fn lemma_click_reported_laid_out(v: UiView, p: WindowPoint, q: WindowPoint, i: int)
    requires
        v.wf(),
        v.pressed is None,
        forall|k: int|
            0 <= k < v.buttons.len() ==> has_laid_out_geometry(#[trigger] v.buttons[k], k),
        0 <= i < v.buttons.len(),
        spec_button_inside(v.buttons[i], p),
    ensures
        spec_ui_release_click(spec_ui_on_mouse_press(v, p), q) == (if spec_button_inside(
            v.buttons[i],
            q,
        ) {
            Some(v.buttons[i].button_id)
        } else {
            None::<ButtonId>
        }),
{
    assert(spec_button_inside(spec_initial_button(i), p));
    assert forall|j: int| 0 <= j < i implies !spec_button_inside(#[trigger] v.buttons[j], p) by {
        lemma_initial_buttons_disjoint(i, j, p);
        assert(!spec_button_inside(spec_initial_button(j), p));
    }
    lemma_click_reported(v, p, q, i);
}

/// A state whose buttons are the pointwise mouse-moved buttons of `v` is
/// exactly `spec_ui_on_mouse_move(v, p)`.
proof fn lemma_ui_move_pointwise(v: UiView, w: UiView, p: WindowPoint)
    requires
        v.pressed is None,
        w.pressed == v.pressed,
        w.buttons.len() == v.buttons.len(),
        forall|j: int| 0 <= j < v.buttons.len() ==> #[trigger] w.buttons[j]
            == spec_button_mouse_move(v.buttons[j], p),
        v.wf(),
    ensures
        w == spec_ui_on_mouse_move(v, p),
        w.wf(),
{
    let m = spec_ui_on_mouse_move(v, p);
    assert(m.buttons =~= w.buttons);
    assert(w =~= m);
    assert forall|i: int| 0 <= i < w.buttons.len() implies (#[trigger] w.buttons[i]).wf() by {
        assert(w.buttons[i] == spec_button_mouse_move(v.buttons[i], p));
        assert(v.buttons[i].wf());
    }
    assert forall|i: int|
        0 <= i < w.buttons.len() implies (#[trigger] w.buttons[i]).button_id == spec_all_ids()[i]
        by {
        assert(w.buttons[i] == spec_button_mouse_move(v.buttons[i], p));
    }
}

} // verus!
