use shadowin::animator::click_edge;
use shadowin::animator::VisualState;
use shadowin::animator::WidgetVisualState;
use shadowin::cache::AssetCache;
use shadowin::compositor::GlyphPixel;
use shadowin::compositor::GlyphRaster;
use shadowin::generation::GenerationError;
use shadowin::image_data::RasterImage;
use shadowin::loading::standard_requests;
use shadowin::loading::LoadingState;
use shadowin::loading::LoadStatus;
use shadowin::ui::apply_click;
use shadowin::ui::AppState;
use shadowin::ui::AppUi;
use shadowin::ui::KeyInput;
use shadowin::ui::DEFAULT_BG;
use shadowin::ui::WELCOME_BG;
use shadowin::widgets::prompt_for_state;
use shadowin::widgets::state_tag;
use shadowin::widgets::Button;

fn flat_image(width: u32, height: u32, v: u8) -> RasterImage {
    let mut data = Vec::new();
    for _ in 0..(width as usize * height as usize) {
        data.extend_from_slice(&[v, v, v, 255]);
    }
    RasterImage::from_raw(width, height, data).unwrap()
}

fn empty_label() -> GlyphRaster {
    GlyphRaster { pixels: Vec::new(), width: 0, height: 0, ascent: 0 }
}

fn app_state_at(pos: (i32, i32), pressed: bool) -> AppState {
    let mut s = AppState::new();
    s.mouse_pos = pos;
    s.mouse_pressed = pressed;
    s
}

#[test]
fn planner_produces_one_request_per_widget_state() {
    let reqs = standard_requests();
    assert_eq!(reqs.len(), 6);
    for (i, req) in reqs.iter().enumerate() {
        assert_eq!(req.key.widget_id, if i < 3 { 0 } else { 1 });
        assert_eq!(req.width, if i < 3 { 200 } else { 150 });
        assert_eq!(req.height, 60);
        assert_eq!(req.prompt, prompt_for_state(req.key.state));
    }
    let states: Vec<VisualState> = reqs.iter().map(|r| r.key.state).collect();
    assert_eq!(
        states,
        vec![
            VisualState::Idle,
            VisualState::Hovered,
            VisualState::Pressed,
            VisualState::Idle,
            VisualState::Hovered,
            VisualState::Pressed,
        ]
    );
    for i in 0..6 {
        for j in (i + 1)..6 {
            assert_ne!(reqs[i].key, reqs[j].key);
        }
    }
}

#[test]
fn prompts_ask_for_text_free_backgrounds() {
    let p = prompt_for_state(VisualState::Hovered);
    assert!(p.starts_with("a crisp UI button background, no text"));
    assert!(p.ends_with("glowing, hovered state"));
    assert_eq!(state_tag(VisualState::Idle), "Idle");
    assert_eq!(state_tag(VisualState::Hovered), "Hovered");
    assert_eq!(state_tag(VisualState::Pressed), "Pressed");
}

#[test]
fn button_prompts_cover_the_state_set() {
    let b = Button::new(3, 0, 0, 64, 32, "Go".to_string());
    let reqs = b.get_render_prompts();
    assert_eq!(reqs.len(), 3);
    for req in reqs.iter() {
        assert_eq!(req.key.widget_id, 3);
        assert_eq!((req.width, req.height), (64, 32));
    }
}

#[test]
fn press_and_release_over_a_button_clicks_once() {
    let mut ui = AppUi::new(AssetCache::new());
    let over_submit = (60, 60);

    // press tick: no edge yet
    let clicked = click_edge(false, true);
    let r = ui.update(&app_state_at(over_submit, true), clicked, &KeyInput::NoKey, 100);
    assert_eq!(r, None);

    // release tick: the edge fires and the button reports id 0
    let clicked = click_edge(true, false);
    let r = ui.update(&app_state_at(over_submit, false), clicked, &KeyInput::NoKey, 116);
    assert_eq!(r, Some(0));
}

#[test]
fn release_after_leaving_the_button_does_not_click() {
    let mut ui = AppUi::new(AssetCache::new());
    let r = ui.update(&app_state_at((60, 60), true), click_edge(false, true), &KeyInput::NoKey, 100);
    assert_eq!(r, None);
    // pointer left before the release
    let r = ui.update(
        &app_state_at((700, 500), false),
        click_edge(true, false),
        &KeyInput::NoKey,
        116,
    );
    assert_eq!(r, None);
}

#[test]
fn hovering_the_submit_button_starts_its_transition() {
    let mut ui = AppUi::new(AssetCache::new());
    ui.update(&app_state_at((60, 60), false), false, &KeyInput::NoKey, 1000);
    match ui.buttons[0].state {
        WidgetVisualState::Animating(t) => {
            assert_eq!(t.from, VisualState::Idle);
            assert_eq!(t.to, VisualState::Hovered);
            assert_eq!(t.start_ms, 1000);
        }
        WidgetVisualState::Stable(_) => panic!("expected a transition"),
    }
    assert_eq!(ui.buttons[1].state, WidgetVisualState::Stable(VisualState::Idle));
}

#[test]
fn clicking_the_input_focuses_it_and_typing_edits_it() {
    let mut ui = AppUi::new(AssetCache::new());
    // click inside the input region (50,130)-(420,170)
    ui.update(&app_state_at((60, 140), false), true, &KeyInput::NoKey, 10);
    assert!(ui.text_input.is_focused);
    ui.update(
        &app_state_at((60, 140), false),
        false,
        &KeyInput::Commit("hi!".to_string()),
        20,
    );
    assert_eq!(ui.text_input.text, "hi!");
    ui.update(&app_state_at((60, 140), false), false, &KeyInput::Backspace, 30);
    assert_eq!(ui.text_input.text, "hi");
    // click away unfocuses; further keys are ignored
    ui.update(&app_state_at((700, 500), false), true, &KeyInput::NoKey, 40);
    assert!(!ui.text_input.is_focused);
    ui.update(
        &app_state_at((700, 500), false),
        false,
        &KeyInput::Commit("zzz".to_string()),
        50,
    );
    assert_eq!(ui.text_input.text, "hi");
}

#[test]
fn submit_reports_the_entered_text() {
    let mut state = AppState::new();
    let mut ui = AppUi::new(AssetCache::new());
    state.text_input_content = "abc".to_string();
    apply_click(&mut state, &mut ui, 0);
    assert_eq!(state.message, "Submitted: abc");
    assert_eq!(state.click_count, 1);
    assert_eq!(state.bg_color, DEFAULT_BG);
}

#[test]
fn the_passphrase_is_welcomed() {
    let mut state = AppState::new();
    let mut ui = AppUi::new(AssetCache::new());
    state.text_input_content = "shadowin".to_string();
    apply_click(&mut state, &mut ui, 0);
    assert_eq!(state.message, "Welcome, master.");
    assert_eq!(state.bg_color, WELCOME_BG);
}

#[test]
fn clear_resets_input_message_background_and_count() {
    let mut state = AppState::new();
    let mut ui = AppUi::new(AssetCache::new());
    state.text_input_content = "abc".to_string();
    ui.text_input.text = "abc".to_string();
    state.click_count = 5;
    state.bg_color = WELCOME_BG;
    apply_click(&mut state, &mut ui, 1);
    assert_eq!(ui.text_input.text, "");
    assert_eq!(state.text_input_content, "");
    assert_eq!(state.message, "Cleared.");
    assert_eq!(state.bg_color, DEFAULT_BG);
    assert_eq!(state.click_count, 0);
}

#[test]
fn loading_with_no_files_queues_everything() {
    let reqs = standard_requests();
    let files = vec![None, None, None, None, None, None];
    let mut ls = LoadingState::new(reqs, files);
    assert_eq!(ls.status, LoadStatus::NeedToGenerate(6));
    assert_eq!(ls.pending.len(), 6);

    // walk the queue: generate each pending asset at its requested size
    while let Some(req) = ls.next_request() {
        assert_eq!(ls.status, LoadStatus::Generating(req.key));
        ls.apply_generation(Ok(flat_image(req.width, req.height, 90)));
    }
    let ui = ls.into_ui();
    for req in standard_requests().iter() {
        let img = ui.cache.lookup(req.key).expect("every key resolved");
        assert_eq!(img.width(), req.width);
        assert_eq!(img.height(), req.height);
    }
}

#[test]
fn loading_resolves_from_persisted_files_without_generation() {
    // first run: generate everything, then collect the persisted bytes
    let reqs = standard_requests();
    let files = vec![None, None, None, None, None, None];
    let mut ls = LoadingState::new(reqs, files);
    while let Some(req) = ls.next_request() {
        ls.apply_generation(Ok(flat_image(req.width, req.height, 90)));
    }
    let ui = ls.into_ui();

    // second run: every file is present, nothing needs generation
    let reqs = standard_requests();
    let files: Vec<Option<Vec<u8>>> = reqs
        .iter()
        .map(|r| Some(ui.cache.disk_bytes(r.key).unwrap().clone()))
        .collect();
    let mut restarted = LoadingState::new(reqs, files);
    assert_eq!(restarted.status, LoadStatus::AllCached);
    assert!(restarted.next_request().is_none());
    let ui2 = restarted.into_ui();
    for req in standard_requests().iter() {
        let a = ui.cache.lookup(req.key).unwrap();
        let b = ui2.cache.lookup(req.key).unwrap();
        assert_eq!(a.data(), b.data());
    }
}

#[test]
fn a_failed_generation_is_reported_and_leaves_the_key_absent() {
    let reqs = standard_requests();
    let first_key = reqs[0].key;
    let files = vec![None, None, None, None, None, None];
    let mut ls = LoadingState::new(reqs, files);
    let req = ls.next_request().unwrap();
    ls.apply_generation(Err(GenerationError::ServiceFailure));
    assert_eq!(ls.status, LoadStatus::GenerationFailed(req.key));
    while let Some(r) = ls.next_request() {
        ls.apply_generation(Ok(flat_image(r.width, r.height, 90)));
    }
    let ui = ls.into_ui();
    assert!(ui.cache.lookup(first_key).is_none());
}

#[test]
fn drawing_a_button_without_its_asset_paints_the_fallback() {
    let mut ui = AppUi::new(AssetCache::new());
    // a 430x120 screen holds both buttons
    let sw: u32 = 430;
    let mut frame = vec![0u8; (sw as usize) * 120 * 4];
    let labels = vec![empty_label(), empty_label()];
    ui.draw(&mut frame, sw, 0, &labels, &empty_label(), &empty_label());
    // inside the submit button: the flat fallback
    let idx = ((60 * sw as usize) + 60) * 4;
    assert_eq!(&frame[idx..idx + 4], &[50, 50, 50, 255]);
    // outside every widget: untouched
    assert_eq!(&frame[0..4], &[0, 0, 0, 0]);
}

#[test]
fn drawing_a_button_with_its_asset_paints_the_image_and_label() {
    let mut ls = LoadingState::new(
        standard_requests(),
        vec![None, None, None, None, None, None],
    );
    while let Some(req) = ls.next_request() {
        // a dark background, so the label color is the light constant
        ls.apply_generation(Ok(flat_image(req.width, req.height, 10)));
    }
    let mut ui = ls.into_ui();
    let sw: u32 = 430;
    let mut frame = vec![0u8; (sw as usize) * 120 * 4];
    let label = GlyphRaster {
        pixels: vec![GlyphPixel { dx: 0, dy: 0, coverage: 255 }],
        width: 1,
        height: 1,
        ascent: 0,
    };
    let labels = vec![label, empty_label()];
    ui.draw(&mut frame, sw, 0, &labels, &empty_label(), &empty_label());
    // inside the submit button: the opaque background image
    let idx = ((60 * sw as usize) + 60) * 4;
    assert_eq!(&frame[idx..idx + 4], &[10, 10, 10, 255]);
    // the one-pixel label lands centered at (149, 79) in the light color
    let idx = ((79 * sw as usize) + 149) * 4;
    assert_eq!(&frame[idx..idx + 4], &[240, 240, 240, 255]);
}

#[test]
fn cross_fade_draws_the_arriving_layer_over_the_fallback() {
    // only the Hovered asset is cached; the departing Idle layer is
    // missing, so the fallback stands in for it — but the arriving layer
    // still fades in, never a hard cut
    let mut cache = AssetCache::new();
    let hovered = shadowin::cache::AssetRequest {
        key: shadowin::cache::AssetKey { widget_id: 0, state: VisualState::Hovered },
        prompt: prompt_for_state(VisualState::Hovered).to_string(),
        width: 200,
        height: 60,
    };
    cache.store_generated(&hovered, flat_image(200, 60, 10)).unwrap();

    let mut button = Button::new(0, 50, 50, 200, 60, "Submit".to_string());
    button.state = WidgetVisualState::Animating(shadowin::animator::TransitionRecord {
        from: VisualState::Idle,
        to: VisualState::Hovered,
        start_ms: 0,
    });

    let sw: u32 = 430;
    let mut frame = vec![0u8; (sw as usize) * 120 * 4];
    // at the full duration the arriving layer is fully opaque
    button.draw(&mut frame, sw, &cache, 200, &empty_label());
    let idx = ((60 * sw as usize) + 60) * 4;
    assert_eq!(&frame[idx..idx + 4], &[10, 10, 10, 255]);

    // midway, the arriving layer is blended over the fallback:
    // (10*127 + 50*128) / 255 = 30 per color channel,
    // (127*127 + 255*128) / 255 = 191 for alpha
    let mut frame = vec![0u8; (sw as usize) * 120 * 4];
    button.draw(&mut frame, sw, &cache, 100, &empty_label());
    assert_eq!(&frame[idx..idx + 4], &[30, 30, 30, 191]);
}

#[test]
fn the_input_cursor_blinks_while_focused() {
    let mut ui = AppUi::new(AssetCache::new());
    ui.update(&app_state_at((60, 140), false), true, &KeyInput::NoKey, 0);
    assert!(ui.text_input.is_focused);
    let sw: u32 = 430;
    let mut frame = vec![0u8; (sw as usize) * 200 * 4];
    let label = empty_label();
    // first draw: within the blink interval, the cursor stays invisible
    ui.text_input.draw(&mut frame, sw, &label, 100);
    let cursor_idx = ((150 * sw as usize) + 60) * 4;
    assert_eq!(&frame[cursor_idx..cursor_idx + 4], &[50, 50, 60, 255]);
    // past the interval the phase flips to visible
    ui.text_input.draw(&mut frame, sw, &label, 601);
    assert!(ui.text_input.cursor_visible);
}
