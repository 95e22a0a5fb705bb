use shadowin::animator::VisualState;
use shadowin::cache::AssetKey;
use shadowin::generation::generation_settings;
use shadowin::loading::status_message;
use shadowin::loading::LoadStatus;
use shadowin::text::format_usize;
use shadowin::widgets::asset_stem;

#[test]
fn decimal_formatting_is_exact() {
    assert_eq!(format_usize(0), "0");
    assert_eq!(format_usize(7), "7");
    assert_eq!(format_usize(10), "10");
    assert_eq!(format_usize(12345), "12345");
    assert_eq!(format_usize(usize::MAX), usize::MAX.to_string());
}

#[test]
fn asset_stems_join_id_and_state_tag() {
    assert_eq!(asset_stem(AssetKey { widget_id: 0, state: VisualState::Idle }), "0-Idle");
    assert_eq!(asset_stem(AssetKey { widget_id: 12, state: VisualState::Pressed }), "12-Pressed");
}

#[test]
fn status_lines_are_worded_exactly() {
    assert_eq!(
        status_message(&LoadStatus::AllCached),
        "All assets loaded from cache. Starting..."
    );
    assert_eq!(
        status_message(&LoadStatus::NeedToGenerate(6)),
        "Need to generate 6 assets."
    );
    let key = AssetKey { widget_id: 1, state: VisualState::Hovered };
    assert_eq!(
        status_message(&LoadStatus::Generating(key)),
        "Generating: '1-Hovered'..."
    );
    assert_eq!(
        status_message(&LoadStatus::GenerationFailed(key)),
        "Error generating: '1-Hovered'!"
    );
}

#[test]
fn the_generation_template_is_fixed() {
    let s = generation_settings();
    assert_eq!(
        s.negative_prompt,
        "blurry, worst quality, low quality, deformed, text, watermark, signature"
    );
    assert_eq!(s.step_count, 20);
    assert_eq!(s.guidance_scale, 7);
    assert_eq!(s.sampler_name, "Euler a");
}
