use hhgoa_face_chain::cli::SearchProvider;
use hhgoa_face_chain::discovery::{find_match, CurlPurpose, DiscoveryAction, DiscoveryEvent};
use hhgoa_face_chain::face::{FaceBox, FaceScan};
use hhgoa_face_chain::search::{
    FaceCheckStatus, ReplyFailure, SearchError, SearchHit, SerpApiImageUploadResponse, SerpApiVisualMatch,
};

fn face() -> FaceScan {
    FaceScan {
        image_path: "in.jpg".to_string(),
        image_sha256: "abc".to_string(),
        detector: "d".to_string(),
        bbox: FaceBox { x: 0, y: 0, width: 1, height: 1 },
        confidence_bits: 0.64f32.to_bits(),
        encoding: "phash256:x".to_string(),
        signature: "1".repeat(256),
    }
}

fn visual(link: &str, image: Option<&str>) -> SerpApiVisualMatch {
    SerpApiVisualMatch {
        title: Some(format!("title {link}")),
        link: Some(link.to_string()),
        source: Some("src".to_string()),
        thumbnail: None,
        image: image.map(String::from),
    }
}

fn curl(action: &DiscoveryAction) -> (CurlPurpose, Vec<String>) {
    match action {
        DiscoveryAction::RunCurl { purpose, args } => (*purpose, args.clone()),
        _ => panic!("expected a curl run"),
    }
}

#[test]
fn fixture_search_reads_fixture_and_verifies_it() {
    let (mut session, action) = find_match(&SearchProvider::Fixture, "in.jpg", &face(), None, None);
    assert!(matches!(action, DiscoveryAction::ReadFixture));
    let hit = SearchHit {
        title: "Post".to_string(),
        url: "https://example.com/post".to_string(),
        source: "fixture".to_string(),
        snippet: None,
        image_url: None,
        verification_image_url: None,
        face_similarity: None,
        face_verified: false,
        face_check_status: FaceCheckStatus::Discovered,
    };
    match session.step(DiscoveryEvent::FixtureLoaded { hit }) {
        DiscoveryAction::Finish { outcome: Ok(report) } => {
            let selected = report.selected.expect("selected");
            assert!(selected.face_verified);
            assert_eq!(selected.face_similarity.map(f32::from_bits), Some(1.0));
            assert_eq!(report.candidates.len(), 1);
        },
        _ => panic!("expected a report"),
    }
    assert!(session.is_finished());
}

#[test]
fn serpapi_without_key_is_refused() {
    let (_, action) = find_match(&SearchProvider::Serpapi, "in.jpg", &face(), None, Some("https://img"));
    assert!(matches!(action, DiscoveryAction::Finish { outcome: Err(SearchError::MissingApiKey) }));
}

#[test]
fn upload_flow_checks_size_then_uploads_then_searches() {
    let (mut session, action) = find_match(&SearchProvider::Serpapi, "in.jpg", &face(), Some("key"), None);
    assert!(matches!(action, DiscoveryAction::ReadImageSize));
    let action = session.step(DiscoveryEvent::ImageSizeRead { size: 1000 });
    let (purpose, args) = curl(&action);
    assert_eq!(purpose, CurlPurpose::Upload);
    assert_eq!(args[8], "image=@in.jpg");
    let action = session.step(DiscoveryEvent::UploadAnswered {
        outcome: Ok(SerpApiImageUploadResponse { image_id: Some("img 1".to_string()), error: None, message: None }),
    });
    let (purpose, args) = curl(&action);
    assert_eq!(purpose, CurlPurpose::LensSearch);
    assert_eq!(args.last().map(String::as_str), Some("https://serpapi.com/search.json?engine=google_lens&image_id=img%201&api_key=key"));
}

fn noisy_png(side: u32) -> Vec<u8> {
    let mut state: u32 = 12345;
    let img = image::RgbImage::from_fn(side, side, |_, _| {
        let mut next = || {
            state = state.wrapping_mul(1_103_515_245).wrapping_add(12_345);
            (state >> 16) as u8
        };
        image::Rgb([next(), next(), next()])
    });
    let mut out = std::io::Cursor::new(Vec::new());
    img.write_to(&mut out, image::ImageFormat::Png).expect("encode png");
    out.into_inner()
}

#[test]
fn oversized_upload_is_compressed_then_uploaded() {
    let bytes = noisy_png(512);
    assert!(bytes.len() > 500_000);
    let (mut session, _) = find_match(&SearchProvider::Serpapi, "big.png", &face(), Some("key"), None);
    let action = session.step(DiscoveryEvent::ImageSizeRead { size: bytes.len() as u64 });
    assert!(matches!(action, DiscoveryAction::ReadImage));
    let stored = match session.step(DiscoveryEvent::ImageRead { bytes }) {
        DiscoveryAction::StoreUploadImage { bytes } => bytes,
        _ => panic!("expected the compressed image"),
    };
    assert!(stored.len() <= 500_000);
    assert_eq!(image::guess_format(&stored).expect("format"), image::ImageFormat::Jpeg);
    let action = session.step(DiscoveryEvent::UploadImageStored { path: "/tmp/up.jpg".to_string() });
    let (purpose, args) = curl(&action);
    assert_eq!(purpose, CurlPurpose::Upload);
    assert_eq!(args[8], "image=@/tmp/up.jpg");
    assert_eq!(args[10], "api_key=key");
}

#[test]
fn oversized_image_that_cannot_be_compressed_is_refused() {
    let (mut session, _) = find_match(&SearchProvider::Serpapi, "big.jpg", &face(), Some("key"), None);
    assert!(matches!(session.step(DiscoveryEvent::ImageSizeRead { size: 700_000 }), DiscoveryAction::ReadImage));
    match session.step(DiscoveryEvent::ImageRead { bytes: vec![0u8; 700_000] }) {
        DiscoveryAction::Finish { outcome: Err(SearchError::ImageTooLarge { path, size_kb }) } => {
            assert_eq!(path, "big.jpg");
            assert_eq!(size_kb, 683);
        },
        _ => panic!("expected a refusal"),
    }
    assert!(session.is_finished());
}

#[test]
fn lens_flow_downloads_judges_and_reports() {
    let (mut session, action) = find_match(&SearchProvider::Serpapi, "in.jpg", &face(), Some("key"), Some("https://img"));
    assert_eq!(curl(&action).0, CurlPurpose::LensSearch);
    let action = session.step(DiscoveryEvent::LensAnswered {
        outcome: Ok(vec![
            visual("https://a.example/1", None),
            visual("https://x.com/2", Some("https://img/2")),
            visual("https://b.example/3", Some("https://img/3")),
        ]),
    });
    let (purpose, args) = curl(&action);
    assert_eq!(purpose, CurlPurpose::Download);
    assert_eq!(args.last().map(String::as_str), Some("https://img/2"));
    // The download is not an image: the candidate stays unchecked and the next one is downloaded.
    let action = session.step(DiscoveryEvent::Downloaded { outcome: Ok(b"junk".to_vec()) });
    assert_eq!(curl(&action).1.last().map(String::as_str), Some("https://img/3"));
    let action = session.step(DiscoveryEvent::Downloaded {
        outcome: Err(ReplyFailure::Failed { stderr: "404".to_string() }),
    });
    match action {
        DiscoveryAction::Finish { outcome: Ok(report) } => {
            assert!(report.selected.is_none());
            assert_eq!(report.candidates.len(), 3);
            assert_eq!(report.candidates[0].url, "https://a.example/1");
        },
        _ => panic!("expected a report"),
    }
}

#[test]
fn lens_failure_is_reported() {
    let (mut session, _) = find_match(&SearchProvider::Serpapi, "in.jpg", &face(), Some("key"), Some("https://img"));
    let action = session.step(DiscoveryEvent::LensAnswered {
        outcome: Err(ReplyFailure::Undecodable { detail: "bad json".to_string() }),
    });
    assert!(matches!(action, DiscoveryAction::Finish { outcome: Err(SearchError::LensFailed { .. }) }));
}

#[test]
fn judged_candidate_is_recorded() {
    let portrait = {
        let mut image = image::RgbImage::from_pixel(160, 160, image::Rgb([28, 34, 44]));
        for x in 50..110 {
            for y in 35..115 {
                image.put_pixel(x, y, image::Rgb([190, 128, 92]));
            }
        }
        let mut out = std::io::Cursor::new(Vec::new());
        image.write_to(&mut out, image::ImageFormat::Png).expect("png");
        out.into_inner()
    };
    let (mut session, _) = find_match(&SearchProvider::Serpapi, "in.jpg", &face(), Some("key"), Some("https://img"));
    session.step(DiscoveryEvent::LensAnswered { outcome: Ok(vec![visual("https://x.com/2", Some("https://img/2"))]) });
    let action = session.step(DiscoveryEvent::Downloaded { outcome: Ok(portrait) });
    let (agreeing, compared) = match action {
        DiscoveryAction::JudgeSimilarity { agreeing, compared } => (agreeing, compared),
        _ => panic!("expected a judgement"),
    };
    assert_eq!(compared, 256);
    assert!(agreeing <= 256);
    match session.step(DiscoveryEvent::Judged { similarity_bits: 0.9f32.to_bits(), verified: true }) {
        DiscoveryAction::Finish { outcome: Ok(report) } => {
            let selected = report.selected.expect("selected");
            assert_eq!(selected.url, "https://x.com/2");
            assert_eq!(selected.face_check_status, FaceCheckStatus::Verified);
        },
        _ => panic!("expected a report"),
    }
}
