//! The running application's UI: the fixed widget layout, one tick of
//! input handling for all widgets, click effects on the global state, and
//! the per-frame draw order.

use vstd::prelude::*;
use vstd::string::StringExecFns;

use crate::animator::spec_click;
use crate::animator::spec_tick;
use crate::cache::AssetCache;
use crate::compositor::GlyphRaster;
use crate::widgets::Button;
use crate::widgets::TextInput;
use crate::widgets::TextPanel;
use crate::widgets::spec_draw_button;
use crate::widgets::spec_draw_panel;
use crate::widgets::spec_draw_text_input;

verus! {

/// The background the application starts with.
pub const DEFAULT_BG: [u8; 4] = [20, 20, 30, 255];

/// The background shown after the recognized passphrase is submitted.
pub const WELCOME_BG: [u8; 4] = [40, 20, 20, 255];

/// Global state the application logic reads and writes.
pub struct AppState {
    pub mouse_pos: (i32, i32),
    pub mouse_pressed: bool,
    pub message: String,
    pub bg_color: [u8; 4],
    pub click_count: u32,
    pub text_input_content: String,
}

impl AppState {
    /// The state the application starts in: the pointer off-screen,
    /// nothing pressed, the startup message over the default background.
    pub fn new() -> (r: AppState)
        ensures
            r.mouse_pos.0 == -1 && r.mouse_pos.1 == -1,
            !r.mouse_pressed,
            r.message@ == "AI Renderer is initializing..."@,
            r.bg_color == DEFAULT_BG,
            r.click_count == 0,
            r.text_input_content@ == Seq::<char>::empty(),
    {
        AppState {
            mouse_pos: (-1, -1),
            mouse_pressed: false,
            message: String::from_str("AI Renderer is initializing..."),
            bg_color: DEFAULT_BG,
            click_count: 0,
            text_input_content: String::new(),
        }
    }
}

/// What one tick's keyboard input means to the text input.
pub enum KeyInput {
    /// No key this tick.
    NoKey,
    /// The backspace key was pressed.
    Backspace,
    /// Committed text arrived.
    Commit(String),
}

/// The id of the button a tick clicks, scanning in order with the last
/// clicked button winning, as the update loop does.
pub open spec fn spec_clicked_id(buttons: Seq<Button>, mouse_pos: (i32, i32), clicked: bool)
    -> Option<usize>
    decreases buttons.len(),
{
    if buttons.len() == 0 {
        None
    } else if spec_click(buttons.last().spec_is_over(mouse_pos), clicked) {
        Some(buttons.last().id)
    } else {
        spec_clicked_id(buttons.drop_last(), mouse_pos, clicked)
    }
}

/// The text input's focus after a tick's pointer handling: a click
/// focuses it exactly when the pointer is over it.
pub open spec fn spec_focus_after_pointer(inp: TextInput, mouse_pos: (i32, i32), clicked: bool)
    -> bool {
    if clicked {
        inp.spec_is_over(mouse_pos)
    } else {
        inp.is_focused
    }
}

/// The text after a tick's key input, applied under the given focus.
pub open spec fn spec_text_after_key(text: Seq<char>, focused: bool, key: KeyInput) -> Seq<char> {
    if !focused {
        text
    } else {
        match key {
            KeyInput::NoKey => text,
            KeyInput::Backspace => if text.len() > 0 {
                text.drop_last()
            } else {
                text
            },
            KeyInput::Commit(s) => text + s@,
        }
    }
}

/// The UI of the running application: two buttons, a text input and a
/// message panel, sharing one asset cache.
pub struct AppUi {
    pub buttons: Vec<Button>,
    pub text_input: TextInput,
    pub text_panel: TextPanel,
    pub cache: AssetCache,
}

/// The fixed widget layout holds.
pub open spec fn standard_layout(ui: AppUi) -> bool {
    &&& ui.buttons@.len() == 2
    &&& ui.buttons@[0].id == 0
    &&& ui.buttons@[0].x == 50 && ui.buttons@[0].y == 50
    &&& ui.buttons@[0].width == 200 && ui.buttons@[0].height == 60
    &&& ui.buttons@[0].text@ == "Submit"@
    &&& ui.buttons@[1].id == 1
    &&& ui.buttons@[1].x == 270 && ui.buttons@[1].y == 50
    &&& ui.buttons@[1].width == 150 && ui.buttons@[1].height == 60
    &&& ui.buttons@[1].text@ == "Clear"@
    &&& ui.text_input.x == 50 && ui.text_input.y == 130
    &&& ui.text_input.width == 370 && ui.text_input.height == 40
    &&& ui.text_panel.x == 50 && ui.text_panel.y == 200
}

impl AppUi {
    /// Builds the UI at the fixed layout, around an already-filled cache.
    pub fn new(cache: AssetCache) -> (r: AppUi)
        ensures
            standard_layout(r),
            r.buttons@[0].state == crate::animator::WidgetVisualState::Stable(
                crate::animator::VisualState::Idle,
            ),
            r.buttons@[1].state == crate::animator::WidgetVisualState::Stable(
                crate::animator::VisualState::Idle,
            ),
            r.text_input.text@ == Seq::<char>::empty(),
            !r.text_input.is_focused,
            r.text_input.cursor_timer_ms == 0,
            !r.text_input.cursor_visible,
            r.cache == cache,
    {
        let mut buttons: Vec<Button> = Vec::new();
        buttons.push(Button::new(0, 50, 50, 200, 60, String::from_str("Submit")));
        buttons.push(Button::new(1, 270, 50, 150, 60, String::from_str("Clear")));
        let text_input = TextInput::new(50, 130, 370, 40);
        let text_panel = TextPanel::new(50, 200);
        AppUi { buttons, text_input, text_panel, cache }
    }

    /// One tick of the whole UI: a click focuses or unfocuses the text
    /// input; the tick's key input edits it while focused; every button
    /// advances its state machine; a click on a button unfocuses the
    /// input and yields the clicked id.
    pub fn update(&mut self, app_state: &AppState, mouse_clicked: bool, key: &KeyInput,
        now_ms: u64) -> (r: Option<usize>)
        requires
            forall|i: int|
                0 <= i < old(self).buttons@.len() ==> (#[trigger] old(
                    self,
                ).buttons@[i]).state.wf_at(now_ms),
        ensures
            r == spec_clicked_id(old(self).buttons@, app_state.mouse_pos, mouse_clicked),
            final(self).buttons@.len() == old(self).buttons@.len(),
            forall|i: int|
                0 <= i < old(self).buttons@.len() ==> {
                    let b = #[trigger] old(self).buttons@[i];
                    let nb = final(self).buttons@[i];
                    nb.state == spec_tick(
                        b.state,
                        now_ms,
                        b.spec_is_over(app_state.mouse_pos),
                        app_state.mouse_pressed,
                    ) && nb.state.wf_at(now_ms) && nb.id == b.id && nb.x == b.x && nb.y == b.y
                        && nb.width == b.width && nb.height == b.height && nb.text@ == b.text@
                },
            final(self).text_input.text@ == spec_text_after_key(
                old(self).text_input.text@,
                spec_focus_after_pointer(old(self).text_input, app_state.mouse_pos, mouse_clicked),
                *key,
            ),
            final(self).text_input.is_focused == (spec_focus_after_pointer(
                old(self).text_input,
                app_state.mouse_pos,
                mouse_clicked,
            ) && r is None),
            final(self).text_input.x == old(self).text_input.x,
            final(self).text_input.y == old(self).text_input.y,
            final(self).text_input.width == old(self).text_input.width,
            final(self).text_input.height == old(self).text_input.height,
            final(self).text_input.cursor_timer_ms == old(self).text_input.cursor_timer_ms,
            final(self).text_input.cursor_visible == old(self).text_input.cursor_visible,
            final(self).text_panel == old(self).text_panel,
            final(self).cache == old(self).cache,
    {
        if mouse_clicked {
            let over = self.text_input.is_over(app_state.mouse_pos);
            self.text_input.is_focused = over;
        }
        match key {
            KeyInput::NoKey => {},
            KeyInput::Backspace => self.text_input.backspace(),
            KeyInput::Commit(s) => self.text_input.key_press(s.as_str()),
        }
        let ghost buttons0 = self.buttons@;
        let mut clicked_id: Option<usize> = None;
        let mut i: usize = 0;
        while i < self.buttons.len()
            invariant
                i <= buttons0.len(),
                self.buttons@.len() == buttons0.len(),
                forall|j: int|
                    0 <= j < buttons0.len() ==> (#[trigger] buttons0[j]).state.wf_at(now_ms),
                forall|j: int| i <= j < buttons0.len() ==> self.buttons@[j] == buttons0[j],
                forall|j: int|
                    0 <= j < i ==> {
                        let b = #[trigger] buttons0[j];
                        let nb = self.buttons@[j];
                        nb.state == spec_tick(
                            b.state,
                            now_ms,
                            b.spec_is_over(app_state.mouse_pos),
                            app_state.mouse_pressed,
                        ) && nb.state.wf_at(now_ms) && nb.id == b.id && nb.x == b.x && nb.y == b.y
                            && nb.width == b.width && nb.height == b.height && nb.text@ == b.text@
                    },
                clicked_id == spec_clicked_id(
                    buttons0.take(i as int),
                    app_state.mouse_pos,
                    mouse_clicked,
                ),
                self.text_input.is_focused == (spec_focus_after_pointer(
                    old(self).text_input,
                    app_state.mouse_pos,
                    mouse_clicked,
                ) && clicked_id is None),
                self.text_input.text@ == spec_text_after_key(
                    old(self).text_input.text@,
                    spec_focus_after_pointer(
                        old(self).text_input,
                        app_state.mouse_pos,
                        mouse_clicked,
                    ),
                    *key,
                ),
                self.text_input.x == old(self).text_input.x,
                self.text_input.y == old(self).text_input.y,
                self.text_input.width == old(self).text_input.width,
                self.text_input.height == old(self).text_input.height,
                self.text_input.cursor_timer_ms == old(self).text_input.cursor_timer_ms,
                self.text_input.cursor_visible == old(self).text_input.cursor_visible,
                self.text_panel == old(self).text_panel,
                self.cache == old(self).cache,
            decreases buttons0.len() - i,
        {
            proof {
                assert(self.buttons@[i as int] == buttons0[i as int]);
                assert(buttons0[i as int].state.wf_at(now_ms));
            }
            let clicked = self.buttons[i].update(app_state.mouse_pos, app_state.mouse_pressed,
                mouse_clicked, now_ms);
            if clicked {
                let id = self.buttons[i].id;
                clicked_id = Some(id);
                self.text_input.is_focused = false;
            }
            proof {
                assert(buttons0.take(i as int + 1).drop_last() =~= buttons0.take(i as int));
                assert(buttons0.take(i as int + 1).last() == buttons0[i as int]);
            }
            i = i + 1;
        }
        proof {
            assert(buttons0.take(buttons0.len() as int) =~= buttons0);
        }
        clicked_id
    }
}

/// Applies a click on a widget to the global state, as the frame loop
/// does: the submit button checks the input against the passphrase and
/// reports it, the clear button resets input, message, background and
/// count. Either click counts before the clear resets the count.
pub fn apply_click(state: &mut AppState, ui: &mut AppUi, clicked_id: usize)
    requires
        old(state).click_count < u32::MAX,
    ensures
        final(state).mouse_pos == old(state).mouse_pos,
        final(state).mouse_pressed == old(state).mouse_pressed,
        final(ui).buttons@ == old(ui).buttons@,
        final(ui).text_panel == old(ui).text_panel,
        final(ui).cache == old(ui).cache,
        final(ui).text_input.x == old(ui).text_input.x,
        final(ui).text_input.y == old(ui).text_input.y,
        final(ui).text_input.width == old(ui).text_input.width,
        final(ui).text_input.height == old(ui).text_input.height,
        final(ui).text_input.is_focused == old(ui).text_input.is_focused,
        final(ui).text_input.cursor_timer_ms == old(ui).text_input.cursor_timer_ms,
        final(ui).text_input.cursor_visible == old(ui).text_input.cursor_visible,
        ({
            if clicked_id == 0 {
                &&& final(ui).text_input.text@ == old(ui).text_input.text@
                &&& final(state).click_count == old(state).click_count + 1
                &&& final(state).text_input_content@ == old(state).text_input_content@
                &&& if old(state).text_input_content@ == "shadowin"@ {
                    final(state).message@ == "Welcome, master."@ && final(state).bg_color
                        == WELCOME_BG
                } else {
                    final(state).message@ == "Submitted: "@ + old(state).text_input_content@
                        && final(state).bg_color == old(state).bg_color
                }
            } else if clicked_id == 1 {
                &&& final(ui).text_input.text@ == Seq::<char>::empty()
                &&& final(state).text_input_content@ == Seq::<char>::empty()
                &&& final(state).message@ == "Cleared."@
                &&& final(state).bg_color == DEFAULT_BG
                &&& final(state).click_count == 0
            } else {
                &&& final(ui).text_input.text@ == old(ui).text_input.text@
                &&& final(state).text_input_content@ == old(state).text_input_content@
                &&& final(state).message@ == old(state).message@
                &&& final(state).bg_color == old(state).bg_color
                &&& final(state).click_count == old(state).click_count + 1
            }
        }),
{
    state.click_count = state.click_count + 1;
    if clicked_id == 0 {
        let passphrase = String::from_str("shadowin");
        if state.text_input_content == passphrase {
            state.message = String::from_str("Welcome, master.");
            state.bg_color = WELCOME_BG;
        } else {
            state.message = String::from_str("Submitted: ").concat(
                state.text_input_content.as_str(),
            );
        }
    } else if clicked_id == 1 {
        ui.text_input.text = String::new();
        state.text_input_content = String::new();
        state.message = String::from_str("Cleared.");
        state.bg_color = DEFAULT_BG;
        state.click_count = 0;
    }
}

/// The frame after every button has been drawn, in order, each with its
/// own pre-rasterized label.
pub open spec fn spec_draw_buttons(
    frame: Seq<u8>,
    sw: int,
    buttons: Seq<Button>,
    c: crate::cache::CacheModel,
    now_ms: u64,
    labels: Seq<GlyphRaster>,
) -> Seq<u8>
    decreases buttons.len(),
{
    if buttons.len() == 0 {
        frame
    } else {
        spec_draw_button(
            spec_draw_buttons(frame, sw, buttons.drop_last(), c, now_ms, labels.drop_last()),
            sw,
            buttons.last(),
            c,
            now_ms,
            labels.last(),
        )
    }
}

impl AppUi {
    /// Draws the whole UI for one frame: every button with its label,
    /// then the message panel, then the text input (which advances its
    /// cursor blink).
    pub fn draw(&mut self, frame: &mut Vec<u8>, screen_width: u32, now_ms: u64,
        button_labels: &Vec<GlyphRaster>, panel_label: &GlyphRaster, input_label: &GlyphRaster)
        requires
            old(self).cache.wf(),
            button_labels@.len() == old(self).buttons@.len(),
            forall|i: int|
                0 <= i < old(self).buttons@.len() ==> (#[trigger] old(
                    self,
                ).buttons@[i]).state.wf_at(now_ms),
            old(self).text_input.cursor_timer_ms <= now_ms,
            old(self).text_input.x + old(self).text_input.width + crate::widgets::INPUT_TEXT_PAD
                + input_label.width <= i32::MAX,
            old(self).text_input.y + old(self).text_input.height <= i32::MAX,
            old(self).text_input.y - input_label.height >= i32::MIN,
        ensures
            final(frame)@ == spec_draw_text_input(
                spec_draw_panel(
                    spec_draw_buttons(
                        old(frame)@,
                        screen_width as int,
                        old(self).buttons@,
                        old(self).cache@,
                        now_ms,
                        button_labels@,
                    ),
                    screen_width as int,
                    old(self).text_panel,
                    *panel_label,
                ),
                screen_width as int,
                old(self).text_input,
                *input_label,
                now_ms,
            ),
            final(self).buttons@ == old(self).buttons@,
            final(self).text_panel == old(self).text_panel,
            final(self).cache == old(self).cache,
            final(self).text_input.x == old(self).text_input.x,
            final(self).text_input.y == old(self).text_input.y,
            final(self).text_input.width == old(self).text_input.width,
            final(self).text_input.height == old(self).text_input.height,
            final(self).text_input.text@ == old(self).text_input.text@,
            final(self).text_input.is_focused == old(self).text_input.is_focused,
            final(self).text_input.cursor_timer_ms <= now_ms,
    {
        let ghost frame0 = frame@;
        let mut i: usize = 0;
        while i < self.buttons.len()
            invariant
                i <= self.buttons@.len(),
                button_labels@.len() == self.buttons@.len(),
                self.cache.wf(),
                forall|j: int|
                    0 <= j < self.buttons@.len() ==> (#[trigger] self.buttons@[j]).state.wf_at(
                        now_ms,
                    ),
                frame@ == spec_draw_buttons(
                    frame0,
                    screen_width as int,
                    self.buttons@.take(i as int),
                    self.cache@,
                    now_ms,
                    button_labels@.take(i as int),
                ),
            decreases self.buttons@.len() - i,
        {
            self.buttons[i].draw(frame, screen_width, &self.cache, now_ms, &button_labels[i]);
            proof {
                assert(self.buttons@.take(i as int + 1).drop_last() =~= self.buttons@.take(
                    i as int,
                ));
                assert(button_labels@.take(i as int + 1).drop_last() =~= button_labels@.take(
                    i as int,
                ));
                assert(self.buttons@.take(i as int + 1).last() == self.buttons@[i as int]);
                assert(button_labels@.take(i as int + 1).last() == button_labels@[i as int]);
            }
            i = i + 1;
        }
        proof {
            assert(self.buttons@.take(self.buttons@.len() as int) =~= self.buttons@);
            assert(button_labels@.take(button_labels@.len() as int) =~= button_labels@);
        }
        self.text_panel.draw(frame, screen_width, panel_label);
        self.text_input.draw(frame, screen_width, input_label, now_ms);
    }
}

} // verus!
