use sha2::{Digest, Sha256};
use hhgoa_face_chain::evidence::{EvidenceRecord, MAX_EVIDENCE_CANDIDATES};
use hhgoa_face_chain::face::{FaceBox, FaceScan};
use hhgoa_face_chain::search::{FaceCheckStatus, SearchHit};

fn face() -> FaceScan {
    FaceScan {
        image_path: "samples/input.jpg".to_string(),
        image_sha256: "abc".to_string(),
        detector: "test".to_string(),
        bbox: FaceBox { x: 1, y: 2, width: 3, height: 4 },
        confidence_bits: 0.9f32.to_bits(),
        encoding: "phash256:def".to_string(),
        signature: "1010".to_string(),
    }
}

fn post() -> SearchHit {
    SearchHit {
        title: "Post".to_string(),
        url: "https://example.com/post".to_string(),
        source: "test".to_string(),
        snippet: Some("hello".to_string()),
        image_url: None,
        verification_image_url: None,
        face_similarity: Some(1.0f32.to_bits()),
        face_verified: true,
        face_check_status: FaceCheckStatus::Verified,
    }
}

fn opt(o: &Option<String>) -> serde_json::Value {
    match o {
        Some(s) => serde_json::Value::String(s.clone()),
        None => serde_json::Value::Null,
    }
}

/// A canonical JSON text of a record, built field by field.
fn canonical_json(r: &EvidenceRecord) -> String {
    let mut m = serde_json::Map::new();
    m.insert("schema".to_string(), serde_json::Value::String(r.schema.clone()));
    m.insert("created_at".to_string(), serde_json::Value::from(r.created_at_nanos));
    m.insert("face_image_sha256".to_string(), serde_json::Value::String(r.face_image_sha256.clone()));
    m.insert("face_encoding".to_string(), serde_json::Value::String(r.face_encoding.clone()));
    m.insert("discovered_title".to_string(), serde_json::Value::String(r.discovered_title.clone()));
    m.insert("discovered_url".to_string(), serde_json::Value::String(r.discovered_url.clone()));
    m.insert("discovered_source".to_string(), serde_json::Value::String(r.discovered_source.clone()));
    m.insert("discovered_snippet".to_string(), opt(&r.discovered_snippet));
    m.insert("discovered_image_url".to_string(), opt(&r.discovered_image_url));
    m.insert("face_check_status".to_string(), serde_json::Value::String(r.face_check_status.clone()));
    m.insert("face_similarity".to_string(), serde_json::Value::from(r.face_similarity));
    let cands: Vec<serde_json::Value> = r
        .discovered_candidates
        .iter()
        .map(|c| {
            let mut e = serde_json::Map::new();
            e.insert("rank".to_string(), serde_json::Value::from(c.rank));
            e.insert("title".to_string(), serde_json::Value::String(c.title.clone()));
            e.insert("url".to_string(), serde_json::Value::String(c.url.clone()));
            e.insert("source".to_string(), serde_json::Value::String(c.source.clone()));
            e.insert("is_social".to_string(), serde_json::Value::Bool(c.is_social));
            e.insert("face_check_status".to_string(), serde_json::Value::String(c.face_check_status.clone()));
            e.insert("face_similarity".to_string(), serde_json::Value::from(c.face_similarity));
            serde_json::Value::Object(e)
        })
        .collect();
    m.insert("discovered_candidates".to_string(), serde_json::Value::Array(cands));
    serde_json::Value::Object(m).to_string()
}

#[test]
fn evidence_hash_is_stable_for_same_record() {
    let face = face();
    let hit = post();
    let one = EvidenceRecord::new(&face, &hit, &[&hit], 1_700_000_000_000_000_000);
    let two = one.clone();
    assert_eq!(EvidenceRecord::hash_hex(&canonical_json(&one)), EvidenceRecord::hash_hex(&canonical_json(&two)));
}

#[test]
fn evidence_record_copies_face_and_match() {
    let face = face();
    let hit = post();
    let r = EvidenceRecord::new(&face, &hit, &[&hit], 5);
    assert_eq!(r.schema, "hhgoa-face-chain/evidence-v1");
    assert_eq!(r.created_at_nanos, 5);
    assert_eq!(r.face_image_sha256, "abc");
    assert_eq!(r.face_encoding, "phash256:def");
    assert_eq!(r.discovered_title, "Post");
    assert_eq!(r.discovered_snippet.as_deref(), Some("hello"));
    assert_eq!(r.face_check_status, "VERIFIED");
    assert_eq!(r.discovered_candidates.len(), 1);
    assert_eq!(r.discovered_candidates[0].rank, 1);
    assert!(!r.discovered_candidates[0].is_social);
}

#[test]
fn evidence_lists_at_most_eight_ranked_candidates() {
    let face = face();
    let hits: Vec<SearchHit> = (0..10)
        .map(|i| {
            let mut h = post();
            h.url = format!("https://instagram.com/{i}");
            h.face_check_status = FaceCheckStatus::Discovered;
            h
        })
        .collect();
    let refs: Vec<&SearchHit> = hits.iter().collect();
    let r = EvidenceRecord::new(&face, &hits[0], &refs, 0);
    assert_eq!(r.discovered_candidates.len(), MAX_EVIDENCE_CANDIDATES);
    for (i, c) in r.discovered_candidates.iter().enumerate() {
        assert_eq!(c.rank, i + 1);
        assert_eq!(c.url, format!("https://instagram.com/{i}"));
        assert!(c.is_social);
        assert_eq!(c.face_check_status, "DISCOVERED");
    }
}

#[test]
fn evidence_hash_is_sha256_hex_of_json() {
    let text = "{\"a\":1}";
    assert_eq!(EvidenceRecord::hash_hex(text), hex::encode(Sha256::digest(text.as_bytes())));
    assert_ne!(EvidenceRecord::hash_hex(text), EvidenceRecord::hash_hex("{\"a\":2}"));
}
