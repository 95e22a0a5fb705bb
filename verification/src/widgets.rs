//! The widgets: buttons with generated backgrounds and animated state,
//! a text panel, and a focusable text input.

use vstd::prelude::*;
use vstd::string::StringExecFns;

use crate::animator::VisualState;
use crate::animator::WidgetVisualState;
use crate::animator::progress_alpha;
use crate::animator::spec_click;
use crate::animator::spec_progress_alpha;
use crate::animator::spec_tick;
use crate::animator::tick;
use crate::cache::AssetCache;
use crate::cache::AssetKey;
use crate::cache::AssetRequest;
use crate::cache::CacheModel;
use crate::compositor::GlyphPixel;
use crate::compositor::GlyphRaster;
use crate::compositor::centered_text_origin;
use crate::compositor::draw_fallback_rect;
use crate::compositor::draw_glyphs_blended;
use crate::compositor::draw_glyphs_mask;
use crate::compositor::draw_image;
use crate::compositor::spec_centered;
use crate::compositor::spec_draw_glyphs_blended;
use crate::compositor::spec_draw_glyphs_mask;
use crate::compositor::spec_draw_image;
use crate::compositor::spec_fill_rect;
use crate::contrast::calculate_contrast_color;
use crate::text::format_usize;
use crate::text::spec_decimal;
use crate::contrast::spec_contrast_color;
use crate::image_data::ImageModel;
use crate::image_data::RasterImage;

verus! {

/// The background prompt for a widget in one visual state; the base asks
/// for a plain background with no text, the suffix names the state.
pub open spec fn spec_prompt_for_state(state: VisualState) -> Seq<char> {
    match state {
        VisualState::Idle => "a crisp UI button background, no text, photorealistic, octane render, trending on artstation, dark sci-fi style, neon blue highlights, normal state"@,
        VisualState::Hovered => "a crisp UI button background, no text, photorealistic, octane render, trending on artstation, dark sci-fi style, neon blue highlights, glowing, hovered state"@,
        VisualState::Pressed => "a crisp UI button background, no text, photorealistic, octane render, trending on artstation, dark sci-fi style, neon blue highlights, pressed down, indented"@,
    }
}

/// The prompt that generates a widget background for one visual state.
pub fn prompt_for_state(state: VisualState) -> (r: &'static str)
    ensures
        r@ == spec_prompt_for_state(state),
{
    match state {
        VisualState::Idle => "a crisp UI button background, no text, photorealistic, octane render, trending on artstation, dark sci-fi style, neon blue highlights, normal state",
        VisualState::Hovered => "a crisp UI button background, no text, photorealistic, octane render, trending on artstation, dark sci-fi style, neon blue highlights, glowing, hovered state",
        VisualState::Pressed => "a crisp UI button background, no text, photorealistic, octane render, trending on artstation, dark sci-fi style, neon blue highlights, pressed down, indented",
    }
}

/// The spelled-out tag of a visual state, the stem under which its asset
/// is persisted.
pub open spec fn spec_state_tag(state: VisualState) -> Seq<char> {
    match state {
        VisualState::Idle => "Idle"@,
        VisualState::Hovered => "Hovered"@,
        VisualState::Pressed => "Pressed"@,
    }
}

/// The spelled-out tag of a visual state.
pub fn state_tag(state: VisualState) -> (r: &'static str)
    ensures
        r@ == spec_state_tag(state),
{
    match state {
        VisualState::Idle => "Idle",
        VisualState::Hovered => "Hovered",
        VisualState::Pressed => "Pressed",
    }
}

/// The persistent-storage path stem of a key: the widget id and the
/// state tag, joined by a dash.
pub open spec fn spec_asset_stem(key: AssetKey) -> Seq<char> {
    spec_decimal(key.widget_id as int) + "-"@ + spec_state_tag(key.state)
}

/// The stem under which a key's asset is persisted.
pub fn asset_stem(key: AssetKey) -> (r: String)
    ensures
        r@ == spec_asset_stem(key),
{
    format_usize(key.widget_id).concat("-").concat(state_tag(key.state))
}

/// An interactive button with an AI-generated background per visual
/// state.
pub struct Button {
    pub id: usize,
    pub x: i32,
    pub y: i32,
    pub width: u32,
    pub height: u32,
    pub state: WidgetVisualState,
    pub text: String,
}

impl Button {
    /// The asset key of this button in the given visual state.
    pub open spec fn spec_key(self, state: VisualState) -> AssetKey {
        AssetKey { widget_id: self.id, state }
    }

    /// A new button starts settled in the Idle visual.
    pub fn new(id: usize, x: i32, y: i32, width: u32, height: u32, text: String) -> (r: Button)
        ensures
            r.id == id,
            r.x == x,
            r.y == y,
            r.width == width,
            r.height == height,
            r.state == WidgetVisualState::Stable(VisualState::Idle),
            r.text@ == text@,
    {
        Button { id, x, y, width, height, state: WidgetVisualState::Stable(VisualState::Idle), text }
    }

    /// The pointer lies over the button, edges inclusive.
    pub open spec fn spec_is_over(self, mouse_pos: (i32, i32)) -> bool {
        self.x <= mouse_pos.0 <= self.x + self.width && self.y <= mouse_pos.1 <= self.y
            + self.height
    }

    fn is_over(&self, mouse_pos: (i32, i32)) -> (r: bool)
        ensures
            r == self.spec_is_over(mouse_pos),
    {
        mouse_pos.0 >= self.x && (mouse_pos.0 as i64) <= self.x as i64 + self.width as i64
            && mouse_pos.1 >= self.y && (mouse_pos.1 as i64) <= self.y as i64 + self.height as i64
    }

    /// One tick: advances the animation state machine from the pointer
    /// facts, and reports whether this tick clicks the button — the
    /// pointer over it and an edge-triggered release arriving.
    pub fn update(&mut self, mouse_pos: (i32, i32), mouse_pressed: bool, mouse_clicked: bool,
        now_ms: u64) -> (r: bool)
        requires
            old(self).state.wf_at(now_ms),
        ensures
            final(self).state == spec_tick(
                old(self).state,
                now_ms,
                old(self).spec_is_over(mouse_pos),
                mouse_pressed,
            ),
            final(self).state.wf_at(now_ms),
            r == spec_click(old(self).spec_is_over(mouse_pos), mouse_clicked),
            final(self).id == old(self).id,
            final(self).x == old(self).x,
            final(self).y == old(self).y,
            final(self).width == old(self).width,
            final(self).height == old(self).height,
            final(self).text@ == old(self).text@,
    {
        let over = self.is_over(mouse_pos);
        self.state = tick(self.state, now_ms, over, mouse_pressed);
        over && mouse_clicked
    }

    /// One request per visual state: the cross-product of this widget
    /// with the fixed state set, at the button's own dimensions.
    pub fn get_render_prompts(&self) -> (r: Vec<AssetRequest>)
        ensures
            r@.len() == 3,
            forall|i: int|
                0 <= i < 3 ==> (#[trigger] r@[i]).key.widget_id == self.id && r@[i].width
                    == self.width && r@[i].height == self.height && r@[i].prompt@
                    == spec_prompt_for_state(r@[i].key.state),
            r@[0].key.state == VisualState::Idle,
            r@[1].key.state == VisualState::Hovered,
            r@[2].key.state == VisualState::Pressed,
    {
        let mut requests: Vec<AssetRequest> = Vec::new();
        requests.push(
            AssetRequest {
                key: AssetKey { widget_id: self.id, state: VisualState::Idle },
                prompt: String::from_str(prompt_for_state(VisualState::Idle)),
                width: self.width,
                height: self.height,
            },
        );
        requests.push(
            AssetRequest {
                key: AssetKey { widget_id: self.id, state: VisualState::Hovered },
                prompt: String::from_str(prompt_for_state(VisualState::Hovered)),
                width: self.width,
                height: self.height,
            },
        );
        requests.push(
            AssetRequest {
                key: AssetKey { widget_id: self.id, state: VisualState::Pressed },
                prompt: String::from_str(prompt_for_state(VisualState::Pressed)),
                width: self.width,
                height: self.height,
            },
        );
        requests
    }
}

/// A fixed-position panel that shows a message.
pub struct TextPanel {
    pub x: i32,
    pub y: i32,
}

impl TextPanel {
    pub fn new(x: i32, y: i32) -> (r: TextPanel)
        ensures
            r.x == x,
            r.y == y,
    {
        TextPanel { x, y }
    }
}

/// Relies on String::pop: removes and returns the string's last
/// character, or returns None and leaves an empty string unchanged.
#[verifier::external_body]
fn string_pop(s: &mut String) -> (r: Option<char>)
    ensures
        old(s)@.len() == 0 ==> r is None && final(s)@ == old(s)@,
        old(s)@.len() > 0 ==> r == Some(old(s)@.last()) && final(s)@ == old(s)@.drop_last(),
{
    s.pop()
}

/// A focusable single-line text input with a blinking cursor.
pub struct TextInput {
    pub x: i32,
    pub y: i32,
    pub width: u32,
    pub height: u32,
    pub text: String,
    pub is_focused: bool,
    pub cursor_timer_ms: u64,
    pub cursor_visible: bool,
}

/// How long the cursor stays in one blink phase, in milliseconds.
pub const CURSOR_BLINK_MS: u64 = 500;

impl TextInput {
    /// A new input is empty, unfocused, and starts an invisible blink
    /// phase at tick zero.
    pub fn new(x: i32, y: i32, width: u32, height: u32) -> (r: TextInput)
        ensures
            r.x == x,
            r.y == y,
            r.width == width,
            r.height == height,
            r.text@ == Seq::<char>::empty(),
            !r.is_focused,
            r.cursor_timer_ms == 0,
            !r.cursor_visible,
    {
        TextInput {
            x,
            y,
            width,
            height,
            text: String::new(),
            is_focused: false,
            cursor_timer_ms: 0,
            cursor_visible: false,
        }
    }

    /// The pointer lies over the input, edges inclusive.
    pub open spec fn spec_is_over(self, mouse_pos: (i32, i32)) -> bool {
        self.x <= mouse_pos.0 <= self.x + self.width && self.y <= mouse_pos.1 <= self.y
            + self.height
    }

    pub fn is_over(&self, mouse_pos: (i32, i32)) -> (r: bool)
        ensures
            r == self.spec_is_over(mouse_pos),
    {
        mouse_pos.0 >= self.x && (mouse_pos.0 as i64) <= self.x as i64 + self.width as i64
            && mouse_pos.1 >= self.y && (mouse_pos.1 as i64) <= self.y as i64 + self.height as i64
    }

    /// Appends committed characters — only while the input is focused.
    pub fn key_press(&mut self, chars: &str)
        ensures
            final(self).text@ == if old(self).is_focused {
                old(self).text@ + chars@
            } else {
                old(self).text@
            },
            final(self).x == old(self).x,
            final(self).y == old(self).y,
            final(self).width == old(self).width,
            final(self).height == old(self).height,
            final(self).is_focused == old(self).is_focused,
            final(self).cursor_timer_ms == old(self).cursor_timer_ms,
            final(self).cursor_visible == old(self).cursor_visible,
    {
        if self.is_focused {
            self.text.append(chars);
        } else {
            proof {
                assert(self.text@ == old(self).text@);
            }
        }
    }

    /// Removes the last character — only while the input is focused.
    pub fn backspace(&mut self)
        ensures
            final(self).text@ == if old(self).is_focused && old(self).text@.len() > 0 {
                old(self).text@.drop_last()
            } else {
                old(self).text@
            },
            final(self).x == old(self).x,
            final(self).y == old(self).y,
            final(self).width == old(self).width,
            final(self).height == old(self).height,
            final(self).is_focused == old(self).is_focused,
            final(self).cursor_timer_ms == old(self).cursor_timer_ms,
            final(self).cursor_visible == old(self).cursor_visible,
    {
        if self.is_focused {
            let _ = string_pop(&mut self.text);
        }
    }
}

/// The flat color a widget falls back to when its background image is
/// absent from the cache.
pub const FALLBACK_COLOR: [u8; 4] = [50, 50, 50, 255];

/// The color the text panel draws messages in.
pub const PANEL_TEXT_COLOR: [u8; 4] = [200, 200, 200, 255];

/// The fixed region a text panel centers its message in.
pub const PANEL_WIDTH: u32 = 700;

/// The fixed region a text panel centers its message in.
pub const PANEL_HEIGHT: u32 = 50;

/// The label drawn centered over a button, in the contrast color of the
/// given background layer.
pub open spec fn spec_label_over(
    frame: Seq<u8>,
    sw: int,
    b: Button,
    src: ImageModel,
    label: GlyphRaster,
) -> Seq<u8> {
    spec_draw_glyphs_blended(
        frame,
        sw,
        label.pixels@,
        spec_centered(b.x as int, b.width as int, label.width as int),
        spec_centered(b.y as int, b.height as int, label.height as int) + label.ascent,
        spec_contrast_color(src),
    )
}

/// Everything one button draw does to the frame: the cached background at
/// full strength when settled; while animating, the departing layer at
/// the complement of the progress — or the flat fallback in its place
/// when that layer is absent — with the arriving layer blended over it at
/// the progress alpha, never a hard cut; and the label, in a contrast
/// color computed from the dominant layer (the arriving layer if present,
/// else the departing one), skipped when neither layer is cached.
pub open spec fn spec_draw_button(
    frame: Seq<u8>,
    sw: int,
    b: Button,
    c: CacheModel,
    now_ms: u64,
    label: GlyphRaster,
) -> Seq<u8> {
    match b.state {
        WidgetVisualState::Stable(s) => {
            let k = b.spec_key(s);
            if c.mem.dom().contains(k) {
                spec_label_over(
                    spec_draw_image(frame, sw, c.mem[k], b.x as int, b.y as int, 255),
                    sw,
                    b,
                    c.mem[k],
                    label,
                )
            } else {
                spec_fill_rect(
                    frame,
                    sw,
                    b.x as int,
                    b.y as int,
                    b.width as int,
                    b.height as int,
                    FALLBACK_COLOR,
                )
            }
        },
        WidgetVisualState::Animating(t) => {
            let fk = b.spec_key(t.from);
            let tk = b.spec_key(t.to);
            let p = spec_progress_alpha(now_ms, t.start_ms);
            let base = if c.mem.dom().contains(fk) {
                spec_draw_image(frame, sw, c.mem[fk], b.x as int, b.y as int, (255 - p) as u8)
            } else {
                spec_fill_rect(
                    frame,
                    sw,
                    b.x as int,
                    b.y as int,
                    b.width as int,
                    b.height as int,
                    FALLBACK_COLOR,
                )
            };
            let faded = if c.mem.dom().contains(tk) {
                spec_draw_image(base, sw, c.mem[tk], b.x as int, b.y as int, p)
            } else {
                base
            };
            if c.mem.dom().contains(tk) {
                spec_label_over(faded, sw, b, c.mem[tk], label)
            } else if c.mem.dom().contains(fk) {
                spec_label_over(faded, sw, b, c.mem[fk], label)
            } else {
                faded
            }
        },
    }
}

/// Draws the label centered in a button in the contrast color of the
/// given layer.
fn label_over(
    frame: &mut Vec<u8>,
    screen_width: u32,
    b: &Button,
    src: &RasterImage,
    label: &GlyphRaster,
)
    requires
        src.wf(),
    ensures
        final(frame)@ == spec_label_over(old(frame)@, screen_width as int, *b, src@, *label),
{
    let color = calculate_contrast_color(src);
    let (ox, oy) = centered_text_origin(b.x, b.y, b.width, b.height, label.width, label.height,
        label.ascent);
    draw_glyphs_blended(frame, screen_width, &label.pixels, ox, oy, color);
}

impl Button {
    /// Draws the button: its cached background — cross-faded while a
    /// transition runs, the flat fallback rectangle standing in for a
    /// layer the cache is missing — then the pre-rasterized label in a
    /// contrast color derived from the dominant layer.
    pub fn draw(
        &self,
        frame: &mut Vec<u8>,
        screen_width: u32,
        cache: &AssetCache,
        now_ms: u64,
        label: &GlyphRaster,
    )
        requires
            cache.wf(),
            self.state.wf_at(now_ms),
        ensures
            final(frame)@ == spec_draw_button(
                old(frame)@,
                screen_width as int,
                *self,
                cache@,
                now_ms,
                *label,
            ),
    {
        match self.state {
            WidgetVisualState::Stable(s) => {
                let key = AssetKey { widget_id: self.id, state: s };
                match cache.lookup(key) {
                    Some(bg) => {
                        draw_image(frame, screen_width, bg, self.x, self.y, 255);
                        label_over(frame, screen_width, self, bg, label);
                    },
                    None => {
                        draw_fallback_rect(frame, screen_width, self.x, self.y, self.width,
                            self.height, FALLBACK_COLOR);
                    },
                }
            },
            WidgetVisualState::Animating(t) => {
                let from_key = AssetKey { widget_id: self.id, state: t.from };
                let to_key = AssetKey { widget_id: self.id, state: t.to };
                let p = progress_alpha(now_ms, t.start_ms);
                match cache.lookup(from_key) {
                    Some(bg) => {
                        draw_image(frame, screen_width, bg, self.x, self.y, 255 - p);
                    },
                    None => {
                        draw_fallback_rect(frame, screen_width, self.x, self.y, self.width,
                            self.height, FALLBACK_COLOR);
                    },
                }
                match cache.lookup(to_key) {
                    Some(top) => {
                        draw_image(frame, screen_width, top, self.x, self.y, p);
                    },
                    None => {},
                }
                match cache.lookup(to_key) {
                    Some(top) => {
                        label_over(frame, screen_width, self, top, label);
                    },
                    None => {
                        match cache.lookup(from_key) {
                            Some(bg) => {
                                label_over(frame, screen_width, self, bg, label);
                            },
                            None => {},
                        }
                    },
                }
            },
        }
    }
}

/// Everything one panel draw does to the frame: the message's coverage
/// samples blended in the panel color, centered in the panel's fixed
/// region.
pub open spec fn spec_draw_panel(frame: Seq<u8>, sw: int, p: TextPanel, label: GlyphRaster)
    -> Seq<u8> {
    spec_draw_glyphs_blended(
        frame,
        sw,
        label.pixels@,
        spec_centered(p.x as int, PANEL_WIDTH as int, label.width as int),
        spec_centered(p.y as int, PANEL_HEIGHT as int, label.height as int) + label.ascent,
        PANEL_TEXT_COLOR,
    )
}

impl TextPanel {
    /// Draws a pre-rasterized message centered in the panel's fixed
    /// region.
    pub fn draw(&self, frame: &mut Vec<u8>, screen_width: u32, label: &GlyphRaster)
        ensures
            final(frame)@ == spec_draw_panel(old(frame)@, screen_width as int, *self, *label),
    {
        let (ox, oy) = centered_text_origin(self.x, self.y, PANEL_WIDTH, PANEL_HEIGHT,
            label.width, label.height, label.ascent);
        draw_glyphs_blended(frame, screen_width, &label.pixels, ox, oy, PANEL_TEXT_COLOR);
    }
}

/// The input's background while focused.
pub const INPUT_FOCUSED_BG: [u8; 4] = [50, 50, 60, 255];

/// The input's background while unfocused.
pub const INPUT_BG: [u8; 4] = [30, 30, 40, 255];

/// The color of the input's text and cursor.
pub const INPUT_TEXT_COLOR: [u8; 4] = [220, 220, 220, 255];

/// The inset of the input's text from its left edge, in pixels.
pub const INPUT_TEXT_PAD: u64 = 10;

/// The blink phase flips once the previous phase has run longer than the
/// blink interval.
pub open spec fn spec_blink_flips(inp: TextInput, now_ms: u64) -> bool {
    inp.is_focused && now_ms - inp.cursor_timer_ms > CURSOR_BLINK_MS
}

/// Whether the cursor shows after this draw's blink update.
pub open spec fn spec_cursor_shown(inp: TextInput, now_ms: u64) -> bool {
    if spec_blink_flips(inp, now_ms) {
        !inp.cursor_visible
    } else {
        inp.cursor_visible
    }
}

/// Everything one input draw does to the frame: its background in the
/// focus-dependent color, the text as an opaque mask inset from the left
/// and vertically centered, and — while focused and in the visible blink
/// phase — a one-pixel cursor line after the text.
pub open spec fn spec_draw_text_input(
    frame: Seq<u8>,
    sw: int,
    inp: TextInput,
    label: GlyphRaster,
    now_ms: u64,
) -> Seq<u8> {
    let bg = if inp.is_focused {
        INPUT_FOCUSED_BG
    } else {
        INPUT_BG
    };
    let base = spec_fill_rect(
        frame,
        sw,
        inp.x as int,
        inp.y as int,
        inp.width as int,
        inp.height as int,
        bg,
    );
    let top = spec_centered(inp.y as int, inp.height as int, label.height as int);
    let with_text = spec_draw_glyphs_mask(
        base,
        sw,
        label.pixels@,
        inp.x + INPUT_TEXT_PAD,
        top + label.ascent,
        INPUT_TEXT_COLOR,
    );
    if inp.is_focused && spec_cursor_shown(inp, now_ms) {
        spec_fill_rect(
            with_text,
            sw,
            inp.x + INPUT_TEXT_PAD + label.width,
            top,
            1,
            label.height as int,
            INPUT_TEXT_COLOR,
        )
    } else {
        with_text
    }
}

impl TextInput {
    /// Draws the input: its background (brighter while focused), the
    /// pre-rasterized text as an opaque mask, and a blinking cursor after
    /// the text while focused.
    pub fn draw(&mut self, frame: &mut Vec<u8>, screen_width: u32, label: &GlyphRaster,
        now_ms: u64)
        requires
            old(self).cursor_timer_ms <= now_ms,
            old(self).x + old(self).width + INPUT_TEXT_PAD + label.width <= i32::MAX,
            old(self).y + old(self).height <= i32::MAX,
            old(self).y - label.height >= i32::MIN,
        ensures
            final(frame)@ == spec_draw_text_input(
                old(frame)@,
                screen_width as int,
                *old(self),
                *label,
                now_ms,
            ),
            final(self).x == old(self).x,
            final(self).y == old(self).y,
            final(self).width == old(self).width,
            final(self).height == old(self).height,
            final(self).text@ == old(self).text@,
            final(self).is_focused == old(self).is_focused,
            final(self).cursor_visible == spec_cursor_shown(*old(self), now_ms),
            final(self).cursor_timer_ms == (if spec_blink_flips(*old(self), now_ms) {
                now_ms
            } else {
                old(self).cursor_timer_ms
            }),
    {
        let bg = if self.is_focused {
            INPUT_FOCUSED_BG
        } else {
            INPUT_BG
        };
        draw_fallback_rect(frame, screen_width, self.x, self.y, self.width, self.height, bg);
        let (ox, oy) = centered_text_origin(self.x, self.y, self.width, self.height, label.width,
            label.height, label.ascent);
        let text_x: i64 = self.x as i64 + INPUT_TEXT_PAD as i64;
        draw_glyphs_mask(frame, screen_width, &label.pixels, text_x, oy, INPUT_TEXT_COLOR);
        if self.is_focused {
            if now_ms - self.cursor_timer_ms > CURSOR_BLINK_MS {
                self.cursor_visible = !self.cursor_visible;
                self.cursor_timer_ms = now_ms;
            }
            if self.cursor_visible {
                let cursor_x: i32 = ((self.x as i64 + INPUT_TEXT_PAD as i64 + label.width as i64)
                    as i32);
                let cursor_top: i32 = ((oy - label.ascent as i64) as i32);
                draw_fallback_rect(frame, screen_width, cursor_x, cursor_top, 1, label.height,
                    INPUT_TEXT_COLOR);
            }
        }
    }
}

} // verus!
