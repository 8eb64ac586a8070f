use hhgoa_face_chain::chain::ChainReceipt;
use hhgoa_face_chain::face::FaceBox;
use hhgoa_face_chain::report::{
    check_color, clickable_link, clip, evidence_shortlist, format_bbox, format_check, html_escape,
    links_report_html, push_unique, short_hash, social_candidates, solana_explorer_url, styled_check, CheckColor,
};
use hhgoa_face_chain::search::{FaceCheckStatus, SearchHit};

fn hit(url: &str, verified: bool) -> SearchHit {
    SearchHit {
        title: format!("T<{url}>"),
        url: url.to_string(),
        source: "src".to_string(),
        snippet: None,
        image_url: None,
        verification_image_url: None,
        face_similarity: None,
        face_verified: verified,
        face_check_status: if verified { FaceCheckStatus::Verified } else { FaceCheckStatus::Discovered },
    }
}

fn receipt(provider: &str) -> ChainReceipt {
    ChainReceipt {
        provider: provider.to_string(),
        record_id: "SIG".to_string(),
        evidence_hash: "h".to_string(),
        verification: "PASS".to_string(),
    }
}

#[test]
fn bbox_and_checks() {
    assert_eq!(format_bbox(&FaceBox { x: 31, y: 0, width: 97, height: 157 }), "x=31 y=0 width=97 height=157");
    assert_eq!(format_check(&hit("u", true)), "VERIFIED");
    assert_eq!(format_check(&hit("u", false)), "DISCOVERED");
    assert_eq!(styled_check(&hit("u", true)), "\x1b[1m\x1b[32mVERIFIED\x1b[39m\x1b[0m");
    assert_eq!(styled_check(&hit("u", false)), "\x1b[37mDISCOVERED\x1b[39m");
    assert_eq!(check_color(&hit("u", true)), CheckColor::Green);
    assert_eq!(check_color(&hit("u", false)), CheckColor::White);
}

#[test]
fn links_and_clipping() {
    assert_eq!(clickable_link("L", "https://u"), "\x1b]8;;https://u\x1b\\L\x1b]8;;\x1b\\");
    assert_eq!(short_hash("phash256:0123456789abcdef0123456789abcdef", 28), "phash256:0123456789abcdef012...");
    assert_eq!(short_hash("short", 28), "short");
    assert_eq!(short_hash("héllo", 3), "hé...");
    assert_eq!(clip("abcdef", 3), "abc...");
    assert_eq!(clip("abc", 3), "abc");
    assert_eq!(clip("ééé", 2), "éé...");
}

#[test]
fn explorer_url_only_for_solana() {
    assert_eq!(
        solana_explorer_url(&receipt("solana-memo-devnet")).as_deref(),
        Some("https://explorer.solana.com/tx/SIG?cluster=devnet")
    );
    assert!(solana_explorer_url(&receipt("local-simulated-blockchain")).is_none());
}

#[test]
fn escaping() {
    assert_eq!(html_escape("<a href=\"x\">Tom & Jerry's</a>"), "&lt;a href=&quot;x&quot;&gt;Tom &amp; Jerry&#39;s&lt;/a&gt;");
    assert_eq!(html_escape("plain"), "plain");
}

#[test]
fn shortlist_selected_first_five_then_social_unique() {
    let selected = hit("https://x.com/sel", true);
    let candidates = vec![
        hit("https://x.com/sel", true),
        hit("https://a.example/1", false),
        hit("https://a.example/2", false),
        hit("https://a.example/3", false),
        hit("https://a.example/4", false),
        hit("https://a.example/5", false),
        hit("https://instagram.com/6", false),
        hit("https://tiktok.com/7", false),
        hit("https://threads.net/8", false),
    ];
    let list = evidence_shortlist(&selected, &candidates);
    let urls: Vec<&str> = list.iter().map(|h| h.url.as_str()).collect();
    assert_eq!(
        urls,
        vec![
            "https://x.com/sel",
            "https://a.example/1",
            "https://a.example/2",
            "https://a.example/3",
            "https://a.example/4",
            "https://instagram.com/6",
            "https://tiktok.com/7",
            "https://threads.net/8",
        ]
    );
}

#[test]
fn push_unique_skips_known_urls() {
    let a = hit("https://a", false);
    let b = hit("https://a", true);
    let c = hit("https://c", false);
    let mut list = vec![&a];
    push_unique(&mut list, &b);
    assert_eq!(list.len(), 1);
    push_unique(&mut list, &c);
    assert_eq!(list.len(), 2);
}

#[test]
fn social_candidates_in_order() {
    let candidates = vec![hit("https://a", false), hit("https://x.com/1", false), hit("https://youtube.com/2", false)];
    let s = social_candidates(&candidates, 1);
    assert_eq!(s.len(), 1);
    assert_eq!(s[0].url, "https://x.com/1");
}

#[test]
fn links_page_escapes_and_lists() {
    let selected = hit("https://x.com/sel", true);
    let candidates: Vec<SearchHit> = (0..10).map(|i| hit(&format!("https://e/{i}"), false)).collect();
    let html = links_report_html(&selected, &candidates, "HASH", &receipt("solana-memo-devnet"), Some("https://explorer/x?a=1&b=2"));
    assert!(html.starts_with("<!doctype html><html lang=\"en\">"));
    assert!(html.ends_with("</ol></section></main></body></html>"));
    assert!(html.contains("<span class=\"status \">VERIFIED</span>"));
    assert!(html.contains("<strong>T&lt;https://x.com/sel&gt;</strong>"));
    assert!(html.contains("Evidence SHA-256: HASH"));
    assert!(html.contains("href=\"https://explorer/x?a=1&amp;b=2\""));
    assert!(html.contains("https://e/7"));
    assert!(!html.contains("https://e/8"));
    assert_eq!(html.matches("<li>").count(), 8);
}

#[test]
fn escaping_round_trips_through_unescaping() {
    for value in ["plain text", "a & b < c > d \"e\" 'f'", "&amp; already", "&#39;&quot;&lt;&gt;", ""] {
        let escaped = html_escape(value);
        let back = escaped
            .replace("&lt;", "<")
            .replace("&gt;", ">")
            .replace("&quot;", "\"")
            .replace("&#39;", "'")
            .replace("&amp;", "&");
        assert_eq!(back, value);
    }
    assert_eq!(html_escape("plain text"), "plain text");
}
