use shadowin::animator::VisualState;
use shadowin::cache::AssetCache;
use shadowin::cache::AssetKey;
use shadowin::cache::AssetRequest;
use shadowin::codec::decode_png;
use shadowin::generation::interpret_generation_response;
use shadowin::generation::GenerationError;
use shadowin::image_data::RasterImage;

fn key(widget_id: usize, state: VisualState) -> AssetKey {
    AssetKey { widget_id, state }
}

fn request(widget_id: usize, width: u32, height: u32) -> AssetRequest {
    AssetRequest {
        key: key(widget_id, VisualState::Idle),
        prompt: "a test background".to_string(),
        width,
        height,
    }
}

fn checker_image(width: u32, height: u32) -> RasterImage {
    let mut data = Vec::new();
    for i in 0..(width as usize * height as usize) {
        let v = if i % 2 == 0 { 40 } else { 200 };
        data.extend_from_slice(&[v, v / 2, 255 - v, 255]);
    }
    RasterImage::from_raw(width, height, data).unwrap()
}

#[test]
fn resolved_key_has_the_requested_dimensions() {
    let mut cache = AssetCache::new();
    let req = request(0, 3, 2);
    let out = cache
        .load_or_generate(&req, || Ok(checker_image(3, 2)))
        .unwrap();
    assert_eq!(out.width(), 3);
    assert_eq!(out.height(), 2);
    let looked_up = cache.lookup(req.key).expect("resolved key must be served");
    assert_eq!(looked_up.width(), 3);
    assert_eq!(looked_up.height(), 2);
    assert_eq!(looked_up.data(), checker_image(3, 2).data());
}

#[test]
fn second_resolution_never_invokes_the_generator() {
    let mut cache = AssetCache::new();
    let req = request(0, 2, 2);
    cache
        .load_or_generate(&req, || Ok(checker_image(2, 2)))
        .unwrap();
    // a generator that must not run: the key is already resolved
    let out = cache
        .load_or_generate(&req, || -> Result<RasterImage, GenerationError> {
            panic!("the generation collaborator was re-invoked for a resolved key");
        })
        .unwrap();
    assert_eq!(out.data(), checker_image(2, 2).data());
}

#[test]
fn persisted_bytes_decode_back_to_identical_pixels() {
    let mut cache = AssetCache::new();
    let req = request(1, 4, 3);
    let img = checker_image(4, 3);
    cache.store_generated(&req, img).unwrap();
    let bytes = cache
        .disk_bytes(req.key)
        .expect("a stored entry is persisted")
        .clone();
    let reloaded = decode_png(&bytes).expect("persisted bytes decode");
    assert_eq!(reloaded.width(), 4);
    assert_eq!(reloaded.height(), 3);
    assert_eq!(reloaded.data(), checker_image(4, 3).data());
}

#[test]
fn a_restart_resolves_from_persisted_bytes_without_generation() {
    let mut cache = AssetCache::new();
    let req = request(1, 2, 1);
    cache.store_generated(&req, checker_image(2, 1)).unwrap();
    let bytes = cache.disk_bytes(req.key).unwrap().clone();

    // a fresh process: the bytes come back from storage
    let mut restarted = AssetCache::new();
    assert!(restarted.ingest_disk_entry(&req, bytes));
    let out = restarted
        .load_or_generate(&req, || -> Result<RasterImage, GenerationError> {
            panic!("a disk-resolved key must not generate");
        })
        .unwrap();
    assert_eq!(out.data(), checker_image(2, 1).data());
}

#[test]
fn generation_failure_inserts_nothing_and_a_retry_succeeds() {
    let mut cache = AssetCache::new();
    let req = request(0, 2, 2);
    let err = cache
        .load_or_generate(&req, || Err(GenerationError::ServiceFailure))
        .unwrap_err();
    assert_eq!(err, GenerationError::ServiceFailure);
    assert!(cache.lookup(req.key).is_none());
    // the key stayed absent, so a later attempt may succeed
    let out = cache
        .load_or_generate(&req, || Ok(checker_image(2, 2)))
        .unwrap();
    assert_eq!(out.width(), 2);
}

#[test]
fn generated_image_of_wrong_dimensions_is_rejected() {
    let mut cache = AssetCache::new();
    let req = request(0, 2, 2);
    let err = cache
        .load_or_generate(&req, || Ok(checker_image(5, 5)))
        .unwrap_err();
    assert_eq!(err, GenerationError::DimensionMismatch);
    assert!(cache.lookup(req.key).is_none());
}

#[test]
fn stale_disk_bytes_count_as_a_miss() {
    let mut cache = AssetCache::new();
    let req = request(0, 2, 2);
    // undecodable bytes
    assert!(!cache.ingest_disk_entry(&req, vec![1, 2, 3, 4]));
    assert!(cache.lookup(req.key).is_none());
    // decodable bytes of the wrong dimensions
    let mut other = AssetCache::new();
    other.store_generated(&request(0, 4, 4), checker_image(4, 4)).unwrap();
    let wrong = other.disk_bytes(req.key).unwrap().clone();
    assert!(!cache.ingest_disk_entry(&req, wrong));
    assert!(cache.lookup(req.key).is_none());
}

#[test]
fn an_unencodable_image_is_reported_and_inserts_nothing() {
    // a zero-by-zero image cannot be written as a PNG
    let mut cache = AssetCache::new();
    let req = request(0, 0, 0);
    let img = RasterImage::from_raw(0, 0, Vec::new()).unwrap();
    let err = cache.store_generated(&req, img).unwrap_err();
    assert_eq!(err, GenerationError::EncodeFailure);
    assert!(cache.lookup(req.key).is_none());
    assert!(cache.disk_bytes(req.key).is_none());
}

#[test]
fn lookup_never_generates() {
    let cache = AssetCache::new();
    assert!(cache.lookup(key(7, VisualState::Pressed)).is_none());
}

#[test]
fn response_interpretation_reports_each_error_exactly() {
    let ok_image = {
        let mut enc_cache = AssetCache::new();
        enc_cache
            .store_generated(&request(0, 2, 2), checker_image(2, 2))
            .unwrap();
        enc_cache.disk_bytes(key(0, VisualState::Idle)).unwrap().clone()
    };
    let good_b64 = base64::Engine::encode(&base64::engine::general_purpose::STANDARD, &ok_image);

    let r = interpret_generation_response(false, &vec![good_b64.clone()]);
    assert_eq!(r.unwrap_err(), GenerationError::ServiceFailure);

    let r = interpret_generation_response(true, &Vec::new());
    assert_eq!(r.unwrap_err(), GenerationError::EmptyResponse);

    let r = interpret_generation_response(true, &vec!["not base64!!!".to_string()]);
    assert_eq!(r.unwrap_err(), GenerationError::InvalidBase64);

    let garbage = base64::Engine::encode(&base64::engine::general_purpose::STANDARD, b"nonsense");
    let r = interpret_generation_response(true, &vec![garbage]);
    assert_eq!(r.unwrap_err(), GenerationError::UndecodableImage);

    let img = interpret_generation_response(true, &vec![good_b64, "ignored".to_string()]).unwrap();
    assert_eq!(img.width(), 2);
    assert_eq!(img.height(), 2);
    assert_eq!(img.data(), checker_image(2, 2).data());
}
