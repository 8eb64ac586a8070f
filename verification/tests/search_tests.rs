use hhgoa_face_chain::search::{
    download_command, fixture_report, image_upload_command, is_social_url, lens_candidates, lens_report,
    lens_request_command, query_from_upload, record_face_check, FaceCheckStatus, SearchError, SearchHit, SerpApiImageUploadResponse, SerpApiLensQuery, SerpApiVisualMatch,
    FULL_SIMILARITY_BITS,
};

fn hit(url: &str, sim: Option<f32>, verified: bool) -> SearchHit {
    SearchHit {
        title: format!("t {url}"),
        url: url.to_string(),
        source: "s".to_string(),
        snippet: None,
        image_url: None,
        verification_image_url: None,
        face_similarity: sim.map(f32::to_bits),
        face_verified: verified,
        face_check_status: if verified { FaceCheckStatus::Verified } else { FaceCheckStatus::Discovered },
    }
}

#[test]
fn social_urls_are_recognised() {
    assert!(is_social_url("https://www.instagram.com/p/1"));
    assert!(is_social_url("https://x.com/someone"));
    assert!(is_social_url("https://youtube.com/watch?v=1"));
    assert!(!is_social_url("https://example.com/post"));
    assert!(!is_social_url(""));
}

#[test]
fn visual_matches_become_candidates() {
    let m = |link: Option<&str>| SerpApiVisualMatch {
        title: None,
        link: link.map(String::from),
        source: None,
        thumbnail: Some("thumb".to_string()),
        image: Some("img".to_string()),
    };
    let hits = lens_candidates(vec![m(None), m(Some("   ")), m(Some("https://a.example/1"))]);
    assert_eq!(hits.len(), 1);
    assert_eq!(hits[0].title, "Untitled visual match");
    assert_eq!(hits[0].source, "SerpAPI Google Lens");
    assert_eq!(hits[0].url, "https://a.example/1");
    assert_eq!(hits[0].image_url.as_deref(), Some("thumb"));
    assert_eq!(hits[0].verification_image_url.as_deref(), Some("img"));
    assert!(!hits[0].face_verified);
    let many: Vec<_> = (0..40).map(|i| m(Some(&format!("https://e.example/{i}")))).collect();
    let hits = lens_candidates(many);
    assert_eq!(hits.len(), 30);
    assert_eq!(hits[29].url, "https://e.example/29");
}

#[test]
fn selection_prefers_verified_social_and_sort_is_stable_descending() {
    let candidates = vec![
        hit("https://a.example/1", Some(0.7), true),
        hit("https://b.example/2", None, false),
        hit("https://x.com/3", Some(0.9), true),
        hit("https://c.example/4", Some(0.7), false),
        hit("https://d.example/5", Some(-1.0), false),
    ];
    let report = lens_report(candidates);
    assert_eq!(report.selected.as_ref().map(|h| h.url.as_str()), Some("https://x.com/3"));
    let urls: Vec<&str> = report.candidates.iter().map(|h| h.url.as_str()).collect();
    assert_eq!(
        urls,
        vec!["https://x.com/3", "https://a.example/1", "https://c.example/4", "https://b.example/2", "https://d.example/5"]
    );
}

#[test]
fn selection_falls_back_to_first_verified() {
    let report = lens_report(vec![hit("https://a.example/1", None, false), hit("https://b.example/2", Some(0.8), true)]);
    assert_eq!(report.selected.as_ref().map(|h| h.url.as_str()), Some("https://b.example/2"));
    let report = lens_report(vec![hit("https://a.example/1", None, false)]);
    assert!(report.selected.is_none());
}

#[test]
fn fixture_hit_is_marked_verified() {
    let report = fixture_report(hit("https://example.com/post", None, false));
    let selected = report.selected.expect("selected");
    assert_eq!(selected.face_similarity, Some(FULL_SIMILARITY_BITS));
    assert_eq!(f32::from_bits(FULL_SIMILARITY_BITS), 1.0);
    assert!(selected.face_verified);
    assert_eq!(selected.face_check_status, FaceCheckStatus::Verified);
    assert_eq!(report.candidates.len(), 1);
    assert_eq!(report.candidates[0].url, "https://example.com/post");
}

#[test]
fn face_check_updates_status() {
    let h = record_face_check(hit("u", None, false), 0.5f32.to_bits(), false);
    assert_eq!(h.face_check_status, FaceCheckStatus::Discovered);
    assert_eq!(h.face_similarity, Some(0.5f32.to_bits()));
    let h = record_face_check(h, 0.9f32.to_bits(), true);
    assert!(h.face_verified);
    assert_eq!(h.face_check_status.as_str(), "VERIFIED");
}

#[test]
fn lens_url_encodes_query_and_key() {
    let q = SerpApiLensQuery::Url("https://e.com/a b.jpg".to_string());
    assert_eq!(
        q.google_lens_url("k&y"),
        "https://serpapi.com/search.json?engine=google_lens&url=https%3A%2F%2Fe.com%2Fa%20b.jpg&api_key=k%26y"
    );
    let q = SerpApiLensQuery::ImageId("id-1_~.".to_string());
    assert_eq!(q.google_lens_url("key"), "https://serpapi.com/search.json?engine=google_lens&image_id=id-1_~.&api_key=key");
}

#[test]
fn upload_command_posts_the_file_and_key() {
    let args = image_upload_command("in.jpg", "k");
    assert_eq!(args[6], "https://serpapi.com/image");
    assert_eq!(args[8], "image=@in.jpg");
    assert_eq!(args[10], "api_key=k");
    assert_eq!(args.len(), 11);
}

#[test]
fn upload_answers() {
    let r = |id: Option<&str>, e: Option<&str>, m: Option<&str>| SerpApiImageUploadResponse {
        image_id: id.map(String::from),
        error: e.map(String::from),
        message: m.map(String::from),
    };
    assert!(matches!(query_from_upload(r(Some("i"), None, None)), Ok(SerpApiLensQuery::ImageId(ref i)) if i == "i"));
    assert!(matches!(query_from_upload(r(Some("i"), Some("bad"), Some("m"))), Err(SearchError::UploadRejected { ref message }) if message == "bad"));
    assert!(matches!(query_from_upload(r(None, None, Some("m"))), Err(SearchError::UploadRejected { ref message }) if message == "m"));
    assert!(matches!(query_from_upload(r(None, None, None)), Err(SearchError::MissingImageId)));
}

#[test]
fn curl_commands() {
    assert_eq!(lens_request_command("u"), vec!["-sS", "--fail", "--max-time", "30", "u"]);
    assert_eq!(download_command("u"), vec!["-L", "-sS", "--fail", "--max-time", "5", "u"]);
}
