//! What a run reports: console lines, the evidence shortlist, and the HTML
//! page of clickable proof links.

use vstd::prelude::*;
use vstd::string::*;
use owo_colors::OwoColorize;

use crate::chain::ChainReceipt;
use crate::evidence::MAX_EVIDENCE_CANDIDATES;
use crate::face::FaceBox;
use crate::search::{hits_view, is_social_url, social_url, HitView, SearchHit};
use vstd::slice::slice_subrange;
use crate::text::{chars_of, contains_text, decimal, occurs_at, push_char, push_chars, push_decimal, starts_with_chars, string_of, utf8_len};

verus! {

// ---------------------------------------------------------------------------
// Console text
// ---------------------------------------------------------------------------

/// `x=.. y=.. width=.. height=..` for a face box.
pub open spec fn bbox_text(b: FaceBox) -> Seq<char> {
    "x="@ + decimal(b.x as nat) + " y="@ + decimal(b.y as nat) + " width="@ + decimal(b.width as nat) + " height="@
        + decimal(b.height as nat)
}

/// The face box as `x=.. y=.. width=.. height=..`.
pub fn format_bbox(bbox: &FaceBox) -> (res: String)
    ensures
        res@ == bbox_text(*bbox),
{
    let mut s = String::from_str("x=");
    push_decimal(&mut s, bbox.x as u64);
    s.append(" y=");
    push_decimal(&mut s, bbox.y as u64);
    s.append(" width=");
    push_decimal(&mut s, bbox.width as u64);
    s.append(" height=");
    push_decimal(&mut s, bbox.height as u64);
    s
}

/// The face-check label of a candidate.
pub open spec fn check_text(verified: bool) -> Seq<char> {
    if verified {
        "VERIFIED"@
    } else {
        "DISCOVERED"@
    }
}

/// `VERIFIED` for a face-verified candidate, `DISCOVERED` otherwise.
pub fn format_check(candidate: &SearchHit) -> (res: &'static str)
    ensures
        res@ == check_text(candidate.face_verified),
{
    if candidate.face_verified {
        "VERIFIED"
    } else {
        "DISCOVERED"
    }
}

/// `text` in the ANSI green foreground, as owo-colors writes `.green()`.
pub open spec fn ansi_green(text: Seq<char>) -> Seq<char> {
    "\x1b[32m"@ + text + "\x1b[39m"@
}

/// `text` in the ANSI white foreground, as owo-colors writes `.white()`.
pub open spec fn ansi_white(text: Seq<char>) -> Seq<char> {
    "\x1b[37m"@ + text + "\x1b[39m"@
}

/// `text` in ANSI bold, as owo-colors writes `.bold()`.
pub open spec fn ansi_bold(text: Seq<char>) -> Seq<char> {
    "\x1b[1m"@ + text + "\x1b[0m"@
}

/// Calls owo-colors' `OwoColorize::green` and `to_string`; claims the text is
/// wrapped in `ESC[32m` and `ESC[39m`.
#[verifier::external_body]
fn paint_green(text: &str) -> (res: String)
    ensures
        res@ == ansi_green(text@),
{
    text.green().to_string()
}

/// Calls owo-colors' `OwoColorize::white` and `to_string`; claims the text is
/// wrapped in `ESC[37m` and `ESC[39m`.
#[verifier::external_body]
fn paint_white(text: &str) -> (res: String)
    ensures
        res@ == ansi_white(text@),
{
    text.white().to_string()
}

/// Calls owo-colors' `OwoColorize::bold` and `to_string`; claims the text is
/// wrapped in `ESC[1m` and `ESC[0m`.
#[verifier::external_body]
fn paint_bold(text: &str) -> (res: String)
    ensures
        res@ == ansi_bold(text@),
{
    text.bold().to_string()
}

/// The styled face-check label: bold green `VERIFIED`, or white `DISCOVERED`.
pub fn styled_check(candidate: &SearchHit) -> (res: String)
    ensures
        res@ == if candidate.face_verified {
            ansi_bold(ansi_green("VERIFIED"@))
        } else {
            ansi_white("DISCOVERED"@)
        },
{
    if candidate.face_verified {
        let g = paint_green("VERIFIED");
        paint_bold(g.as_str())
    } else {
        paint_white("DISCOVERED")
    }
}

/// The color a candidate's face-check cell is shown in.
#[derive(Clone, Copy, Debug, PartialEq, Eq, Structural)]
pub enum CheckColor {
    Green,
    White,
}

/// Green for a face-verified candidate, white otherwise.
pub fn check_color(candidate: &SearchHit) -> (res: CheckColor)
    ensures
        res == if candidate.face_verified {
            CheckColor::Green
        } else {
            CheckColor::White
        },
{
    if candidate.face_verified {
        CheckColor::Green
    } else {
        CheckColor::White
    }
}

/// An OSC 8 terminal hyperlink showing `label` and pointing to `url`.
pub open spec fn hyperlink_text(label: Seq<char>, url: Seq<char>) -> Seq<char> {
    "\x1b]8;;"@ + url + "\x1b\\"@ + label + "\x1b]8;;\x1b\\"@
}

/// A terminal hyperlink (OSC 8) showing `label` and pointing to `url`.
pub fn clickable_link(label: &str, url: &str) -> (res: String)
    ensures
        res@ == hyperlink_text(label@, url@),
{
    let mut s = String::from_str("\x1b]8;;");
    s.append(url);
    s.append("\x1b\\");
    s.append(label);
    s.append("\x1b]8;;\x1b\\");
    s
}

/// `keep` falls on a character boundary of `value`.
pub open spec fn byte_boundary(value: Seq<char>, keep: usize) -> bool {
    exists|k: int| 0 <= k <= value.len() && utf8_len(#[trigger] value.take(k)) == keep
}

/// The number of characters of `value` that make up its first `keep` bytes.
pub open spec fn chars_in_bytes(value: Seq<char>, keep: usize) -> int {
    choose|k: int| 0 <= k <= value.len() && utf8_len(#[trigger] value.take(k)) == keep
}

/// The value when it is at most `keep` bytes long, else its first `keep`
/// bytes followed by `...`.
pub open spec fn short_hash_text(value: Seq<char>, keep: usize) -> Seq<char> {
    if utf8_len(value) <= keep {
        value
    } else {
        value.take(chars_in_bytes(value, keep)) + "..."@
    }
}

/// Longer prefixes take more bytes.
proof fn lemma_utf8_len_take_strict(s: Seq<char>, a: int, b: int)
    requires
        0 <= a < b <= s.len(),
    ensures
        utf8_len(s.take(a)) < utf8_len(s.take(b)),
{
    crate::text::lemma_utf8_len_concat(s.take(a), s.subrange(a, b));
    assert(s.take(b) == s.take(a) + s.subrange(a, b));
    crate::text::lemma_utf8_len_at_least(s.subrange(a, b));
}

/// The first `keep` bytes of `value` followed by `...`, or `value` itself when
/// it is no longer than `keep` bytes. `keep` must fall on a character boundary
/// of a longer value.
pub fn short_hash(value: &str, keep: usize) -> (res: String)
    requires
        utf8_len(value@) > keep ==> byte_boundary(value@, keep),
    ensures
        res@ == short_hash_text(value@, keep),
{
    let cs = chars_of(value);
    let n = cs.len();
    proof {
        assert(cs@.subrange(0, n as int) == cs@);
    }
    if !crate::text::utf8_len_exceeds(cs.as_slice(), 0, n, keep) {
        return String::from_str(value);
    }
    let ghost k0 = chars_in_bytes(value@, keep);
    let mut i: usize = 0;
    let mut acc: usize = 0;
    proof {
        assert(cs@.take(0) == Seq::<char>::empty());
        assert(cs@.take(n as int) == cs@);
    }
    while acc < keep
        invariant
            cs@ == value@,
            n == cs@.len(),
            i <= n,
            acc <= keep,
            acc == utf8_len(cs@.take(i as int)),
            utf8_len(cs@) > keep,
            0 <= k0 <= n,
            utf8_len(cs@.take(k0)) == keep,
        decreases keep - acc,
    {
        proof {
            if i == n {
                assert(cs@.take(n as int) == cs@);
            }
        }
        let c = cs[i];
        let u = c as u32;
        let w: usize = if u <= 0x7F {
            1
        } else if u <= 0x7FF {
            2
        } else if u <= 0xFFFF {
            3
        } else {
            4
        };
        proof {
            crate::text::lemma_utf8_len_concat(cs@.take(i as int), seq![c]);
            assert(cs@.take(i + 1) == cs@.take(i as int) + seq![c]);
            crate::text::lemma_utf8_len_cons(seq![c]);
            assert(seq![c].drop_first() == Seq::<char>::empty());
        }
        if w > keep - acc {
            proof {
                if k0 <= i {
                    if k0 < i {
                        lemma_utf8_len_take_strict(cs@, k0, i as int);
                    }
                } else {
                    if k0 > i + 1 {
                        lemma_utf8_len_take_strict(cs@, i + 1, k0);
                    }
                }
            }
            assert(false);
        }
        acc = acc + w;
        i = i + 1;
    }
    proof {
        if k0 < i {
            lemma_utf8_len_take_strict(cs@, k0, i as int);
        } else if i < k0 {
            lemma_utf8_len_take_strict(cs@, i as int, k0);
        }
        assert(k0 == i);
    }
    let mut res = string_of(slice_subrange(cs.as_slice(), 0, i));
    res.append("...");
    proof {
        assert(cs@.subrange(0, i as int) == cs@.take(i as int));
    }
    res
}

/// At most `max_chars` characters of `value`, followed by `...` when some were cut off.
pub open spec fn clip_text(value: Seq<char>, max_chars: usize) -> Seq<char> {
    if value.len() > max_chars {
        value.take(max_chars as int) + "..."@
    } else {
        value
    }
}

/// The first `max_chars` characters of `value`, with `...` when it is longer.
pub fn clip(value: &str, max_chars: usize) -> (res: String)
    ensures
        res@ == clip_text(value@, max_chars),
{
    let cs = chars_of(value);
    if cs.len() > max_chars {
        let mut res = string_of(slice_subrange(cs.as_slice(), 0, max_chars));
        res.append("...");
        proof {
            assert(cs@.subrange(0, max_chars as int) == cs@.take(max_chars as int));
        }
        res
    } else {
        String::from_str(value)
    }
}

/// The Solana Explorer page of a memo transaction, for receipts of the Solana provider.
pub open spec fn explorer_url_text(provider: Seq<char>, record_id: Seq<char>) -> Option<Seq<char>> {
    let prefix = "solana-memo-"@;
    if prefix.len() <= provider.len() && provider.take(prefix.len() as int) == prefix {
        Some(
            "https://explorer.solana.com/tx/"@ + record_id + "?cluster="@ + provider.skip(prefix.len() as int),
        )
    } else {
        None
    }
}

/// The Solana Explorer URL of the recorded transaction, when the receipt comes
/// from the Solana memo provider (its provider is `solana-memo-<cluster>`).
pub fn solana_explorer_url(receipt: &ChainReceipt) -> (res: Option<String>)
    ensures
        match (res, explorer_url_text(receipt.provider@, receipt.record_id@)) {
            (Some(u), Some(v)) => u@ == v,
            (None, None) => true,
            _ => false,
        },
{
    let provider = chars_of(receipt.provider.as_str());
    let prefix = chars_of("solana-memo-");
    if !starts_with_chars(provider.as_slice(), prefix.as_slice()) {
        return None;
    }
    let mut url = String::from_str("https://explorer.solana.com/tx/");
    url.append(receipt.record_id.as_str());
    url.append("?cluster=");
    push_chars(&mut url, slice_subrange(provider.as_slice(), prefix.len(), provider.len()));
    proof {
        assert(provider@.subrange(prefix@.len() as int, provider@.len() as int) == provider@.skip(prefix@.len() as int));
    }
    Some(url)
}

// ---------------------------------------------------------------------------
// HTML
// ---------------------------------------------------------------------------

/// The HTML text of one character: `& < > " '` become entities.
pub open spec fn html_char(c: char) -> Seq<char> {
    if c == '&' {
        "&amp;"@
    } else if c == '<' {
        "&lt;"@
    } else if c == '>' {
        "&gt;"@
    } else if c == '"' {
        "&quot;"@
    } else if c == '\'' {
        "&#39;"@
    } else {
        seq![c]
    }
}

/// Text escaped for HTML, character by character.
pub open spec fn html_escaped(s: Seq<char>) -> Seq<char>
    decreases s.len(),
{
    if s.len() == 0 {
        seq![]
    } else {
        html_escaped(s.drop_last()) + html_char(s.last())
    }
}

/// `value` with `&`, `<`, `>`, `"` and `'` replaced by their HTML entities.
pub fn html_escape(value: &str) -> (res: String)
    ensures
        res@ == html_escaped(value@),
{
    let cs = chars_of(value);
    let mut res = String::new();
    let mut i: usize = 0;
    while i < cs.len()
        invariant
            i <= cs@.len(),
            res@ == html_escaped(cs@.take(i as int)),
        decreases cs@.len() - i,
    {
        let c = cs[i];
        if c == '&' {
            res.append("&amp;");
        } else if c == '<' {
            res.append("&lt;");
        } else if c == '>' {
            res.append("&gt;");
        } else if c == '"' {
            res.append("&quot;");
        } else if c == '\'' {
            res.append("&#39;");
        } else {
            push_char(&mut res, c);
        }
        proof {
            assert(cs@.take(i + 1).drop_last() == cs@.take(i as int));
            assert(cs@.take(i + 1).last() == c);
        }
        i = i + 1;
    }
    proof {
        assert(cs@.take(cs@.len() as int) == cs@);
    }
    res
}

// ---------------------------------------------------------------------------
// Evidence shortlist
// ---------------------------------------------------------------------------

/// The content of a list of hit references.
pub open spec fn refs_view(list: Seq<&SearchHit>) -> Seq<HitView> {
    list.map_values(|h: &SearchHit| h@)
}

/// Some hit of `list` has this URL.
pub open spec fn has_url(list: Seq<HitView>, url: Seq<char>) -> bool {
    exists|i: int| 0 <= i < list.len() && (#[trigger] list[i]).url == url
}

/// `list` with `h` appended, unless a hit with the same URL is listed already.
pub open spec fn with_unique(list: Seq<HitView>, h: HitView) -> Seq<HitView> {
    if has_url(list, h.url) {
        list
    } else {
        list.push(h)
    }
}

/// Adds each candidate in order, skipping URLs already listed.
pub open spec fn add_all_unique(list: Seq<HitView>, cands: Seq<HitView>) -> Seq<HitView>
    decreases cands.len(),
{
    if cands.len() == 0 {
        list
    } else {
        add_all_unique(with_unique(list, cands[0]), cands.drop_first())
    }
}

/// Adds the social candidates in order, skipping URLs already listed, and
/// stops once the list holds eight entries.
pub open spec fn add_social_until_full(list: Seq<HitView>, cands: Seq<HitView>) -> Seq<HitView>
    decreases cands.len(),
{
    if cands.len() == 0 {
        list
    } else if social_url(cands[0].url) {
        let l = with_unique(list, cands[0]);
        if l.len() >= 8 {
            l
        } else {
            add_social_until_full(l, cands.drop_first())
        }
    } else {
        add_social_until_full(list, cands.drop_first())
    }
}

/// The candidates recorded as evidence: the selected match, then the first
/// five candidates, then social candidates, without repeated URLs, at most eight.
pub open spec fn shortlist_of(selected: HitView, cands: Seq<HitView>) -> Seq<HitView> {
    let first = if cands.len() <= 5 {
        cands
    } else {
        cands.take(5)
    };
    let l = add_social_until_full(add_all_unique(seq![selected], first), cands);
    if l.len() > 8 {
        l.take(8)
    } else {
        l
    }
}

/// Appends `candidate` to the shortlist unless a listed hit has the same URL.
pub fn push_unique<'a>(shortlist: &mut Vec<&'a SearchHit>, candidate: &'a SearchHit)
    ensures
        refs_view(final(shortlist)@) == with_unique(refs_view(old(shortlist)@), candidate@),
{
    let ghost lv = refs_view(shortlist@);
    let mut i: usize = 0;
    while i < shortlist.len()
        invariant
            lv == refs_view(shortlist@),
            i <= shortlist@.len(),
            forall|j: int| 0 <= j < i ==> (#[trigger] lv[j]).url != candidate.url@,
        decreases shortlist@.len() - i,
    {
        assert(lv[i as int] == shortlist@[i as int]@);
        if shortlist[i].url == candidate.url {
            return;
        }
        i = i + 1;
    }
    shortlist.push(candidate);
    proof {
        assert(refs_view(shortlist@) == lv.push(candidate@));
    }
}

/// The hits to record as evidence with the selected match.
pub fn evidence_shortlist<'a>(selected: &'a SearchHit, candidates: &'a [SearchHit]) -> (res: Vec<&'a SearchHit>)
    ensures
        refs_view(res@) == shortlist_of(selected@, candidates@.map_values(|h: SearchHit| h@)),
{
    let ghost cv = candidates@.map_values(|h: SearchHit| h@);
    let ghost first = if cv.len() <= 5 {
        cv
    } else {
        cv.take(5)
    };
    let mut shortlist: Vec<&'a SearchHit> = Vec::new();
    push_unique(&mut shortlist, selected);
    proof {
        assert(refs_view(shortlist@) == seq![selected@]);
        assert(first.skip(0) == first);
    }
    let n = candidates.len();
    let limit = if n <= 5 {
        n
    } else {
        5
    };
    let mut i: usize = 0;
    while i < limit
        invariant
            cv == candidates@.map_values(|h: SearchHit| h@),
            limit == first.len(),
            first == (if cv.len() <= 5 { cv } else { cv.take(5) }),
            n == candidates@.len(),
            i <= limit,
            add_all_unique(refs_view(shortlist@), first.skip(i as int)) == add_all_unique(seq![selected@], first),
        decreases limit - i,
    {
        proof {
            assert(first.skip(i as int)[0] == cv[i as int]);
            assert(cv[i as int] == candidates@[i as int]@);
            assert(first.skip(i as int).drop_first() == first.skip(i + 1));
        }
        push_unique(&mut shortlist, &candidates[i]);
        i = i + 1;
    }
    proof {
        assert(first.skip(limit as int) == Seq::<HitView>::empty());
        assert(cv.skip(0) == cv);
    }
    let ghost l1 = refs_view(shortlist@);
    let mut k: usize = 0;
    while k < n
        invariant_except_break
            cv == candidates@.map_values(|h: SearchHit| h@),
            n == candidates@.len(),
            k <= n,
            add_social_until_full(refs_view(shortlist@), cv.skip(k as int)) == add_social_until_full(l1, cv),
        ensures
            refs_view(shortlist@) == add_social_until_full(l1, cv),
        decreases n - k,
    {
        let c = &candidates[k];
        let ghost before = refs_view(shortlist@);
        proof {
            assert(cv.skip(k as int)[0] == cv[k as int]);
            assert(cv[k as int] == c@);
            assert(cv.skip(k as int).drop_first() == cv.skip(k + 1));
        }
        if is_social_url(c.url.as_str()) {
            push_unique(&mut shortlist, c);
            if shortlist.len() >= MAX_EVIDENCE_CANDIDATES {
                proof {
                    assert(refs_view(shortlist@).len() == shortlist@.len());
                }
                break;
            }
        }
        k = k + 1;
        proof {
            if k == n {
                assert(cv.skip(n as int) == Seq::<HitView>::empty());
            }
        }
    }
    let ghost l2 = refs_view(shortlist@);
    assert(l2 == add_social_until_full(l1, cv));
    shortlist.truncate(MAX_EVIDENCE_CANDIDATES);
    proof {
        if l2.len() > 8 {
            assert(refs_view(shortlist@) == l2.take(8));
        } else {
            assert(refs_view(shortlist@) == l2);
        }
    }
    shortlist
}

/// The social candidates among `cands`, in order, at most `limit` of them.
pub open spec fn social_first(cands: Seq<HitView>, limit: nat) -> Seq<HitView> {
    let s = cands.filter(|h: HitView| social_url(h.url));
    if s.len() <= limit {
        s
    } else {
        s.take(limit as int)
    }
}

/// The first `limit` candidates on social sites, in order.
pub fn social_candidates<'a>(candidates: &'a [SearchHit], limit: usize) -> (res: Vec<&'a SearchHit>)
    ensures
        refs_view(res@) == social_first(candidates@.map_values(|h: SearchHit| h@), limit as nat),
{
    let ghost cv = candidates@.map_values(|h: SearchHit| h@);
    let ghost pred = |h: HitView| social_url(h.url);
    let mut res: Vec<&'a SearchHit> = Vec::new();
    let mut i: usize = 0;
    while i < candidates.len()
        invariant
            cv == candidates@.map_values(|h: SearchHit| h@),
            pred == (|h: HitView| social_url(h.url)),
            i <= candidates@.len(),
            refs_view(res@) == social_first(cv.take(i as int), limit as nat),
        decreases candidates@.len() - i,
    {
        let c = &candidates[i];
        let ghost before = refs_view(res@);
        proof {
            assert(cv.take(i + 1).drop_last() == cv.take(i as int));
            assert(cv.take(i + 1).last() == c@);
            reveal_with_fuel(Seq::filter, 1);
        }
        if is_social_url(c.url.as_str()) && res.len() < limit {
            res.push(c);
            proof {
                assert(refs_view(res@) == before.push(c@));
            }
        }
        i = i + 1;
    }
    proof {
        assert(cv.take(candidates@.len() as int) == cv);
    }
    res
}

// ---------------------------------------------------------------------------
// Links page
// ---------------------------------------------------------------------------

/// The style sheet of the links page.
pub const LINKS_STYLE: &'static str = "<style>
body{font-family:-apple-system,BlinkMacSystemFont,'Segoe UI',sans-serif;margin:32px;line-height:1.45;color:#111827;background:#f8fafc}
main{max-width:980px;margin:0 auto}
h1{margin-bottom:4px}
.muted{color:#64748b}
.card{background:white;border:1px solid #e5e7eb;border-radius:8px;padding:16px;margin:14px 0}
.meta{font-family:ui-monospace,SFMono-Regular,Menlo,monospace;font-size:13px;color:#334155;word-break:break-all}
a{color:#0f63c7;text-decoration:none}
a:hover{text-decoration:underline}
.status{display:inline-block;font-size:12px;font-weight:700;color:#166534;background:#dcfce7;border-radius:999px;padding:3px 8px}
.discovered{color:#475569;background:#f1f5f9}
ol{padding-left:22px}
li{margin:12px 0}
</style>";

/// The page head, title and introduction.
pub open spec fn links_head() -> Seq<char> {
    "<!doctype html><html lang=\"en\"><head><meta charset=\"utf-8\">"@
        + "<meta name=\"viewport\" content=\"width=device-width, initial-scale=1\">"@
        + "<title>HH Goa Face Chain Links</title>"@ + LINKS_STYLE@ + "</head><body><main>"@
        + "<h1>HH Goa Face Chain</h1>"@
        + "<p class=\"muted\">Clickable proof links generated by the pipeline.</p>"@
}

/// The section on the selected match.
pub open spec fn selected_section(h: HitView) -> Seq<char> {
    "<section class=\"card\"><h2>Selected Match</h2>"@ + "<p><span class=\"status "@ + (if h.face_verified {
        ""@
    } else {
        "discovered"@
    }) + "\">"@ + html_escaped(check_text(h.face_verified)) + "</span></p>"@ + "<p><strong>"@ + html_escaped(h.title)
        + "</strong></p><p><a href=\""@ + html_escaped(h.url)
        + "\" target=\"_blank\" rel=\"noopener noreferrer\">"@ + html_escaped(h.url) + "</a></p>"@
        + "<p class=\"muted\">Source: "@ + html_escaped(h.source) + "</p>"@ + "</section>"@
}

/// The section on the chain record.
pub open spec fn proof_section(
    evidence_hash: Seq<char>,
    record_id: Seq<char>,
    verification: Seq<char>,
    explorer_url: Option<Seq<char>>,
) -> Seq<char> {
    "<section class=\"card\"><h2>Blockchain Proof</h2>"@ + "<p class=\"meta\">Evidence SHA-256: "@ + html_escaped(
        evidence_hash,
    ) + "</p><p class=\"meta\">Record: "@ + html_escaped(record_id) + "</p><p class=\"meta\">Verification: "@
        + html_escaped(verification) + "</p>"@ + (match explorer_url {
        Some(u) => "<p><a href=\""@ + html_escaped(u)
            + "\" target=\"_blank\" rel=\"noopener noreferrer\">Open Solana Explorer transaction</a></p>"@,
        None => ""@,
    }) + "</section>"@
}

/// One listed candidate.
pub open spec fn candidate_item(h: HitView) -> Seq<char> {
    "<li><strong>"@ + html_escaped(h.title) + "</strong><br><span class=\"muted\">"@ + html_escaped(h.source)
        + "</span><br><a href=\""@ + html_escaped(h.url) + "\" target=\"_blank\" rel=\"noopener noreferrer\">"@
        + html_escaped(h.url) + "</a></li>"@
}

/// The listed candidates, in order.
pub open spec fn candidate_items(cands: Seq<HitView>) -> Seq<char>
    decreases cands.len(),
{
    if cands.len() == 0 {
        seq![]
    } else {
        candidate_items(cands.drop_last()) + candidate_item(cands.last())
    }
}

/// The whole links page; at most the first eight candidates are listed.
pub open spec fn links_page(
    selected: HitView,
    cands: Seq<HitView>,
    evidence_hash: Seq<char>,
    record_id: Seq<char>,
    verification: Seq<char>,
    explorer_url: Option<Seq<char>>,
) -> Seq<char> {
    let listed = if cands.len() <= 8 {
        cands
    } else {
        cands.take(8)
    };
    links_head() + selected_section(selected) + proof_section(evidence_hash, record_id, verification, explorer_url)
        + "<section class=\"card\"><h2>Discovered Candidates</h2><ol>"@ + candidate_items(listed)
        + "</ol></section>"@ + "</main></body></html>"@
}

/// Appends `text` escaped for HTML.
fn push_escaped(html: &mut String, text: &str)
    ensures
        final(html)@ == old(html)@ + html_escaped(text@),
{
    let e = html_escape(text);
    html.append(e.as_str());
}

/// Appends the page head.
fn push_links_head(html: &mut String)
    ensures
        final(html)@ == old(html)@ + links_head(),
{
    html.append("<!doctype html><html lang=\"en\"><head><meta charset=\"utf-8\">");
    html.append("<meta name=\"viewport\" content=\"width=device-width, initial-scale=1\">");
    html.append("<title>HH Goa Face Chain Links</title>");
    html.append(LINKS_STYLE);
    html.append("</head><body><main>");
    html.append("<h1>HH Goa Face Chain</h1>");
    html.append("<p class=\"muted\">Clickable proof links generated by the pipeline.</p>");
    proof {
        assert(final(html)@ =~= old(html)@ + links_head());
    }
}

/// Appends the section on the selected match.
fn push_selected_section(html: &mut String, selected: &SearchHit)
    ensures
        final(html)@ == old(html)@ + selected_section(selected@),
{
    html.append("<section class=\"card\"><h2>Selected Match</h2>");
    html.append("<p><span class=\"status ");
    html.append(if selected.face_verified {
        ""
    } else {
        "discovered"
    });
    html.append("\">");
    push_escaped(html, format_check(selected));
    html.append("</span></p>");
    html.append("<p><strong>");
    push_escaped(html, selected.title.as_str());
    html.append("</strong></p><p><a href=\"");
    push_escaped(html, selected.url.as_str());
    html.append("\" target=\"_blank\" rel=\"noopener noreferrer\">");
    push_escaped(html, selected.url.as_str());
    html.append("</a></p>");
    html.append("<p class=\"muted\">Source: ");
    push_escaped(html, selected.source.as_str());
    html.append("</p>");
    html.append("</section>");
    proof {
        assert(final(html)@ =~= old(html)@ + selected_section(selected@));
    }
}

/// Appends the section on the chain record.
fn push_proof_section(html: &mut String, evidence_hash: &str, receipt: &ChainReceipt, explorer_url: Option<&str>)
    ensures
        final(html)@ == old(html)@ + proof_section(
            evidence_hash@,
            receipt.record_id@,
            receipt.verification@,
            match explorer_url {
                Some(u) => Some(u@),
                None => None,
            },
        ),
{
    html.append("<section class=\"card\"><h2>Blockchain Proof</h2>");
    html.append("<p class=\"meta\">Evidence SHA-256: ");
    push_escaped(html, evidence_hash);
    html.append("</p><p class=\"meta\">Record: ");
    push_escaped(html, receipt.record_id.as_str());
    html.append("</p><p class=\"meta\">Verification: ");
    push_escaped(html, receipt.verification.as_str());
    html.append("</p>");
    let ghost before_link = html@;
    match explorer_url {
        Some(u) => {
            html.append("<p><a href=\"");
            push_escaped(html, u);
            html.append("\" target=\"_blank\" rel=\"noopener noreferrer\">Open Solana Explorer transaction</a></p>");
        },
        None => {
            proof {
                reveal_strlit("");
                assert(before_link + ""@ =~= before_link);
            }
        },
    }
    html.append("</section>");
    proof {
        let ex = match explorer_url {
            Some(u) => Some(u@),
            None => None,
        };
        reveal_strlit("");
        assert(final(html)@ =~= old(html)@ + proof_section(evidence_hash@, receipt.record_id@, receipt.verification@, ex));
    }
}

/// Appends one listed candidate.
fn push_candidate_item(html: &mut String, c: &SearchHit)
    ensures
        final(html)@ == old(html)@ + candidate_item(c@),
{
    html.append("<li><strong>");
    push_escaped(html, c.title.as_str());
    html.append("</strong><br><span class=\"muted\">");
    push_escaped(html, c.source.as_str());
    html.append("</span><br><a href=\"");
    push_escaped(html, c.url.as_str());
    html.append("\" target=\"_blank\" rel=\"noopener noreferrer\">");
    push_escaped(html, c.url.as_str());
    html.append("</a></li>");
    proof {
        assert(final(html)@ =~= old(html)@ + candidate_item(c@));
    }
}

/// The HTML page of clickable proof links: the selected match, the chain
/// record (with the explorer link when there is one) and the first eight
/// candidates. Every text taken from a hit or a receipt is HTML-escaped.
pub fn links_report_html(
    selected: &SearchHit,
    candidates: &[SearchHit],
    evidence_hash: &str,
    receipt: &ChainReceipt,
    explorer_url: Option<&str>,
) -> (res: String)
    ensures
        res@ == links_page(
            selected@,
            candidates@.map_values(|h: SearchHit| h@),
            evidence_hash@,
            receipt.record_id@,
            receipt.verification@,
            match explorer_url {
                Some(u) => Some(u@),
                None => None,
            },
        ),
{
    let mut html = String::new();
    push_links_head(&mut html);
    push_selected_section(&mut html, selected);
    push_proof_section(&mut html, evidence_hash, receipt, explorer_url);
    html.append("<section class=\"card\"><h2>Discovered Candidates</h2><ol>");
    let ghost cv = candidates@.map_values(|h: SearchHit| h@);
    let ghost before_items = html@;
    let limit = if candidates.len() <= MAX_EVIDENCE_CANDIDATES {
        candidates.len()
    } else {
        MAX_EVIDENCE_CANDIDATES
    };
    let mut i: usize = 0;
    proof {
        assert(cv.take(0) == Seq::<HitView>::empty());
        assert(before_items + candidate_items(cv.take(0)) =~= before_items);
    }
    while i < limit
        invariant
            cv == candidates@.map_values(|h: SearchHit| h@),
            limit <= candidates@.len(),
            i <= limit,
            html@ == before_items + candidate_items(cv.take(i as int)),
        decreases limit - i,
    {
        let c = &candidates[i];
        push_candidate_item(&mut html, c);
        proof {
            assert(cv[i as int] == c@);
            assert(cv.take(i + 1).drop_last() == cv.take(i as int));
            assert(cv.take(i + 1).last() == cv[i as int]);
        }
        i = i + 1;
    }
    proof {
        if cv.len() <= 8 {
            assert(cv.take(limit as int) == cv);
        }
    }
    html.append("</ol></section>");
    html.append("</main></body></html>");
    proof {
        let ex = match explorer_url {
            Some(u) => Some(u@),
            None => None,
        };
        let listed = if cv.len() <= 8 { cv } else { cv.take(8) };
        assert(listed == cv.take(limit as int));
        assert(html@ =~= links_page(selected@, cv, evidence_hash@, receipt.record_id@, receipt.verification@, ex));
    }
    html
}

// ---------------------------------------------------------------------------
// Laws
// ---------------------------------------------------------------------------

/// `c` is one of the characters HTML gives meaning to in text and attributes.
pub open spec fn markup_char(c: char) -> bool {
    c == '<' || c == '>' || c == '"' || c == '\''
}

/// Escaped text holds no `<`, `>`, `"` or `'`, so it cannot open a tag or
/// leave a quoted attribute.
pub proof fn law_escaped_text_has_no_markup(s: Seq<char>)
    ensures
        forall|i: int| 0 <= i < html_escaped(s).len() ==> !markup_char(#[trigger] html_escaped(s)[i]),
    decreases s.len(),
{
    if s.len() > 0 {
        law_escaped_text_has_no_markup(s.drop_last());
        let head = html_escaped(s.drop_last());
        let tail = html_char(s.last());
        reveal_strlit("&amp;");
        reveal_strlit("&lt;");
        reveal_strlit("&gt;");
        reveal_strlit("&quot;");
        reveal_strlit("&#39;");
        assert forall|i: int| 0 <= i < html_escaped(s).len() implies !markup_char(#[trigger] html_escaped(s)[i]) by {
            if i < head.len() {
                assert(html_escaped(s)[i] == head[i]);
            } else {
                assert(html_escaped(s)[i] == tail[i - head.len()]);
            }
        }
    }
}

/// HTML text with the entities `&amp;`, `&lt;`, `&gt;`, `&quot;` and `&#39;`
/// decoded, read from the left; any other character stands for itself.
pub open spec fn html_unescaped(s: Seq<char>) -> Seq<char>
    decreases s.len(),
{
    if s.len() == 0 {
        seq![]
    } else if s.len() >= 5 && s[0] == '&' && s[1] == 'a' && s[2] == 'm' && s[3] == 'p' && s[4] == ';' {
        seq!['&'] + html_unescaped(s.skip(5))
    } else if s.len() >= 4 && s[0] == '&' && s[1] == 'l' && s[2] == 't' && s[3] == ';' {
        seq!['<'] + html_unescaped(s.skip(4))
    } else if s.len() >= 4 && s[0] == '&' && s[1] == 'g' && s[2] == 't' && s[3] == ';' {
        seq!['>'] + html_unescaped(s.skip(4))
    } else if s.len() >= 6 && s[0] == '&' && s[1] == 'q' && s[2] == 'u' && s[3] == 'o' && s[4] == 't' && s[5]
        == ';' {
        seq!['"'] + html_unescaped(s.skip(6))
    } else if s.len() >= 5 && s[0] == '&' && s[1] == '#' && s[2] == '3' && s[3] == '9' && s[4] == ';' {
        seq!['\''] + html_unescaped(s.skip(5))
    } else {
        seq![s[0]] + html_unescaped(s.skip(1))
    }
}

proof fn lemma_escaped_concat(a: Seq<char>, b: Seq<char>)
    ensures
        html_escaped(a + b) == html_escaped(a) + html_escaped(b),
    decreases b.len(),
{
    if b.len() == 0 {
        assert(a + b == a);
    } else {
        lemma_escaped_concat(a, b.drop_last());
        assert((a + b).drop_last() == a + b.drop_last());
        assert((a + b).last() == b.last());
    }
}

proof fn lemma_unescape_char(c: char, rest: Seq<char>)
    ensures
        html_unescaped(html_char(c) + rest) == seq![c] + html_unescaped(rest),
{
    reveal_strlit("&amp;");
    reveal_strlit("&lt;");
    reveal_strlit("&gt;");
    reveal_strlit("&quot;");
    reveal_strlit("&#39;");
    let t = html_char(c) + rest;
    let k = html_char(c).len() as int;
    assert(t.skip(k) == rest);
}

/// Escaping loses nothing: decoding the entities of escaped text gives the
/// text back.
pub proof fn law_escape_round_trip(s: Seq<char>)
    ensures
        html_unescaped(html_escaped(s)) == s,
    decreases s.len(),
{
    if s.len() > 0 {
        let rest = s.drop_first();
        law_escape_round_trip(rest);
        assert(s == seq![s[0]] + rest);
        lemma_escaped_concat(seq![s[0]], rest);
        let one = seq![s[0]];
        assert(one.drop_last() == Seq::<char>::empty());
        assert(one.last() == s[0]);
        assert(html_escaped(one.drop_last()) == Seq::<char>::empty());
        assert(Seq::<char>::empty() + html_char(s[0]) == html_char(s[0]));
        assert(html_escaped(one) == html_char(s[0]));
        lemma_unescape_char(s[0], html_escaped(rest));
    }
}

/// `s` with every occurrence of `pat` replaced by `rep`, scanning from the
/// left and not re-reading what was put in (as `str::replace` does).
pub open spec fn replace_all(s: Seq<char>, pat: Seq<char>, rep: Seq<char>) -> Seq<char>
    decreases s.len(),
{
    if s.len() == 0 {
        seq![]
    } else if pat.len() > 0 && pat.len() <= s.len() && s.take(pat.len() as int) == pat {
        rep + replace_all(s.skip(pat.len() as int), pat, rep)
    } else {
        seq![s[0]] + replace_all(s.skip(1), pat, rep)
    }
}

/// HTML text decoded by replacing, in turn, `&lt;`, `&gt;`, `&quot;` and
/// `&#39;` by their characters, and `&amp;` by `&` last.
pub open spec fn html_unescaped_by_replacing(t: Seq<char>) -> Seq<char> {
    let t1 = replace_all(t, "&lt;"@, "<"@);
    let t2 = replace_all(t1, "&gt;"@, ">"@);
    let t3 = replace_all(t2, "&quot;"@, "\""@);
    let t4 = replace_all(t3, "&#39;"@, "'"@);
    replace_all(t4, "&amp;"@, "&"@)
}

/// The character the `k`-th replacement decodes.
spec fn step_char(k: nat) -> char {
    if k == 0 {
        '<'
    } else if k == 1 {
        '>'
    } else if k == 2 {
        '"'
    } else if k == 3 {
        '\''
    } else {
        '&'
    }
}

/// `c` is decoded once the first `k` replacements are done.
spec fn decoded_by(c: char, k: nat) -> bool {
    (c == '<' && k >= 1) || (c == '>' && k >= 2) || (c == '"' && k >= 3) || (c == '\'' && k >= 4) || (c == '&'
        && k >= 5)
}

/// The text of `c` after the first `k` replacements.
spec fn stage_char(c: char, k: nat) -> Seq<char> {
    if decoded_by(c, k) {
        seq![c]
    } else {
        html_char(c)
    }
}

/// Escaped text after the first `k` replacements.
spec fn staged(s: Seq<char>, k: nat) -> Seq<char>
    decreases s.len(),
{
    if s.len() == 0 {
        seq![]
    } else {
        stage_char(s[0], k) + staged(s.skip(1), k)
    }
}

proof fn lemma_replace_plain(d: Seq<char>, rest: Seq<char>, pat: Seq<char>, rep: Seq<char>)
    requires
        pat.len() >= 2,
        pat[0] == '&',
        forall|i: int| 0 <= i < d.len() ==> d[i] != '&',
    ensures
        replace_all(d + rest, pat, rep) == d + replace_all(rest, pat, rep),
    decreases d.len(),
{
    if d.len() > 0 {
        let t = d + rest;
        assert(t[0] == d[0]);
        if pat.len() <= t.len() {
            assert(t.take(pat.len() as int)[0] != pat[0]);
        }
        assert(t.skip(1) == d.skip(1) + rest);
        lemma_replace_plain(d.skip(1), rest, pat, rep);
        assert(seq![d[0]] + d.skip(1) == d);
    } else {
        assert(d + rest == rest);
    }
}

proof fn lemma_replace_chunk(c: Seq<char>, rest: Seq<char>, pat: Seq<char>, rep: Seq<char>)
    requires
        pat.len() >= 2,
        pat[0] == '&',
        c == pat || (c.len() >= 1 && (forall|i: int| 1 <= i < c.len() ==> c[i] != '&') && (c[0] == '&' ==> c.len()
            >= 2 && c[1] != pat[1])),
    ensures
        replace_all(c + rest, pat, rep) == (if c == pat {
            rep
        } else {
            c
        }) + replace_all(rest, pat, rep),
{
    let t = c + rest;
    if c == pat {
        assert(t.take(pat.len() as int) == pat);
        assert(t.skip(pat.len() as int) == rest);
    } else {
        if pat.len() <= t.len() {
            if c[0] == '&' {
                assert(t.take(pat.len() as int)[1] != pat[1]);
            } else {
                assert(t.take(pat.len() as int)[0] != pat[0]);
            }
        }
        assert(t.skip(1) == c.skip(1) + rest);
        lemma_replace_plain(c.skip(1), rest, pat, rep);
        assert(seq![c[0]] + c.skip(1) == c);
    }
}

proof fn lemma_entities()
    ensures
        "&amp;"@ == seq!['&', 'a', 'm', 'p', ';'],
        "&lt;"@ == seq!['&', 'l', 't', ';'],
        "&gt;"@ == seq!['&', 'g', 't', ';'],
        "&quot;"@ == seq!['&', 'q', 'u', 'o', 't', ';'],
        "&#39;"@ == seq!['&', '#', '3', '9', ';'],
        "<"@ == seq!['<'],
        ">"@ == seq!['>'],
        "\""@ == seq!['"'],
        "'"@ == seq!['\''],
        "&"@ == seq!['&'],
{
    reveal_strlit("&amp;");
    reveal_strlit("&lt;");
    reveal_strlit("&gt;");
    reveal_strlit("&quot;");
    reveal_strlit("&#39;");
    reveal_strlit("<");
    reveal_strlit(">");
    reveal_strlit("\"");
    reveal_strlit("'");
    reveal_strlit("&");
}

proof fn lemma_stage_step(s: Seq<char>, k: nat)
    requires
        k < 5,
    ensures
        replace_all(staged(s, k), html_char(step_char(k)), seq![step_char(k)]) == staged(s, k + 1),
    decreases s.len(),
{
    if s.len() > 0 {
        lemma_entities();
        let x = s[0];
        let c = stage_char(x, k);
        let pat = html_char(step_char(k));
        lemma_stage_step(s.skip(1), k);
        assert(pat.len() >= 2 && pat[0] == '&');
        assert(c == pat || (c.len() >= 1 && (forall|i: int| 1 <= i < c.len() ==> c[i] != '&') && (c[0] == '&'
            ==> c.len() >= 2 && c[1] != pat[1])));
        lemma_replace_chunk(c, staged(s.skip(1), k), pat, seq![step_char(k)]);
        assert((if c == pat {
            seq![step_char(k)]
        } else {
            c
        }) == stage_char(x, k + 1));
    }
}

proof fn lemma_staged_ends(s: Seq<char>)
    ensures
        staged(s, 0) == html_escaped(s),
        staged(s, 5) == s,
    decreases s.len(),
{
    if s.len() > 0 {
        let rest = s.skip(1);
        lemma_staged_ends(rest);
        assert(s == seq![s[0]] + rest);
        lemma_escaped_concat(seq![s[0]], rest);
        let one = seq![s[0]];
        assert(one.drop_last() == Seq::<char>::empty());
        assert(html_escaped(one.drop_last()) == Seq::<char>::empty());
        assert(Seq::<char>::empty() + html_char(s[0]) == html_char(s[0]));
        assert(html_escaped(one) == html_char(s[0]));
    }
}

/// Escaping loses nothing for a decoder that replaces entities one after the
/// other either: replacing `&lt;`, `&gt;`, `&quot;`, `&#39;` and then `&amp;`
/// in escaped text gives the text back.
pub proof fn law_escape_round_trip_by_replacing(s: Seq<char>)
    ensures
        html_unescaped_by_replacing(html_escaped(s)) == s,
{
    lemma_entities();
    lemma_staged_ends(s);
    lemma_stage_step(s, 0);
    lemma_stage_step(s, 1);
    lemma_stage_step(s, 2);
    lemma_stage_step(s, 3);
    lemma_stage_step(s, 4);
}

/// Text without `&`, `<`, `>`, `"` or `'` is left as it is.
pub proof fn law_plain_text_is_unchanged(s: Seq<char>)
    requires
        forall|i: int| 0 <= i < s.len() ==> !(#[trigger] s[i] == '&' || markup_char(s[i])),
    ensures
        html_escaped(s) == s,
    decreases s.len(),
{
    if s.len() > 0 {
        assert(!(s[s.len() - 1] == '&' || markup_char(s[s.len() - 1])));
        law_plain_text_is_unchanged(s.drop_last());
        assert(s.drop_last().push(s.last()) == s);
    }
}

/// No two hits of the list share a URL.
pub open spec fn distinct_urls(list: Seq<HitView>) -> bool {
    forall|i: int, j: int| 0 <= i < j < list.len() ==> (#[trigger] list[i]).url != (#[trigger] list[j]).url
}

proof fn lemma_with_unique(list: Seq<HitView>, h: HitView)
    requires
        distinct_urls(list),
    ensures
        distinct_urls(with_unique(list, h)),
        with_unique(list, h).len() <= list.len() + 1,
        with_unique(list, h).len() >= list.len(),
        forall|i: int| 0 <= i < list.len() ==> #[trigger] with_unique(list, h)[i] == list[i],
{
    if !has_url(list, h.url) {
        let l = list.push(h);
        assert forall|i: int, j: int| 0 <= i < j < l.len() implies (#[trigger] l[i]).url != (#[trigger] l[j]).url by {
            if j == list.len() {
                assert(l[i] == list[i]);
            } else {
                assert(l[i] == list[i]);
                assert(l[j] == list[j]);
            }
        }
    }
}

proof fn lemma_add_all_unique(list: Seq<HitView>, cands: Seq<HitView>)
    requires
        distinct_urls(list),
    ensures
        distinct_urls(add_all_unique(list, cands)),
        add_all_unique(list, cands).len() <= list.len() + cands.len(),
        add_all_unique(list, cands).len() >= list.len(),
        forall|i: int| 0 <= i < list.len() ==> #[trigger] add_all_unique(list, cands)[i] == list[i],
    decreases cands.len(),
{
    if cands.len() > 0 {
        lemma_with_unique(list, cands[0]);
        let l = with_unique(list, cands[0]);
        lemma_add_all_unique(l, cands.drop_first());
        assert forall|i: int| 0 <= i < list.len() implies #[trigger] add_all_unique(list, cands)[i] == list[i] by {
            assert(l[i] == list[i]);
        }
    }
}

proof fn lemma_add_social(list: Seq<HitView>, cands: Seq<HitView>)
    requires
        distinct_urls(list),
    ensures
        distinct_urls(add_social_until_full(list, cands)),
        add_social_until_full(list, cands).len() >= list.len(),
        forall|i: int| 0 <= i < list.len() ==> #[trigger] add_social_until_full(list, cands)[i] == list[i],
    decreases cands.len(),
{
    if cands.len() > 0 {
        if social_url(cands[0].url) {
            lemma_with_unique(list, cands[0]);
            let l = with_unique(list, cands[0]);
            if l.len() < 8 {
                lemma_add_social(l, cands.drop_first());
                assert forall|i: int| 0 <= i < list.len() implies #[trigger] add_social_until_full(list, cands)[i] == list[i] by {
                    assert(l[i] == list[i]);
                }
            }
        } else {
            lemma_add_social(list, cands.drop_first());
        }
    }
}

/// The evidence shortlist starts with the selected match, holds between one
/// and eight hits, and never lists a URL twice.
pub proof fn law_shortlist_shape(selected: HitView, cands: Seq<HitView>)
    ensures
        ({
            let l = shortlist_of(selected, cands);
            &&& 1 <= l.len() <= 8
            &&& l[0] == selected
            &&& distinct_urls(l)
        }),
{
    let first = if cands.len() <= 5 {
        cands
    } else {
        cands.take(5)
    };
    let l0 = seq![selected];
    lemma_add_all_unique(l0, first);
    let l1 = add_all_unique(l0, first);
    lemma_add_social(l1, cands);
    let l2 = add_social_until_full(l1, cands);
    assert(l2[0] == l1[0]);
    if l2.len() > 8 {
        let t = l2.take(8);
        assert forall|i: int, j: int| 0 <= i < j < t.len() implies (#[trigger] t[i]).url != (#[trigger] t[j]).url by {
            assert(t[i] == l2[i]);
            assert(t[j] == l2[j]);
        }
    }
}

proof fn lemma_occurs_prefix(hay: Seq<char>, a: Seq<char>, b: Seq<char>, k: int)
    requires
        occurs_at(hay, a + b, k),
    ensures
        occurs_at(hay, a, k),
{
    assert(hay.subrange(k, k + a.len()) =~= (a + b).subrange(0, a.len() as int));
    assert((a + b).subrange(0, a.len() as int) =~= a);
}

proof fn lemma_occurs_shift(pre: Seq<char>, hay: Seq<char>, post: Seq<char>, n: Seq<char>, k: int)
    requires
        occurs_at(hay, n, k),
    ensures
        occurs_at(pre + hay + post, n, pre.len() + k),
{
    let big = pre + hay + post;
    assert(big.subrange(pre.len() + k, pre.len() + k + n.len()) =~= hay.subrange(k, k + n.len()));
}

proof fn lemma_item_in_items(cands: Seq<HitView>, i: int)
    requires
        0 <= i < cands.len(),
    ensures
        exists|k: int| occurs_at(candidate_items(cands), candidate_item(cands[i]), k),
    decreases cands.len(),
{
    let front = candidate_items(cands.drop_last());
    let last = candidate_item(cands.last());
    if i == cands.len() - 1 {
        assert(last.subrange(0, last.len() as int) =~= last);
        assert(occurs_at(last, last, 0));
        lemma_occurs_shift(front, last, Seq::empty(), last, 0);
        assert(front + last + Seq::<char>::empty() =~= candidate_items(cands));
        assert(occurs_at(candidate_items(cands), candidate_item(cands[i]), front.len() as int));
    } else {
        lemma_item_in_items(cands.drop_last(), i);
        assert(cands.drop_last()[i] == cands[i]);
        let k = choose|k: int| occurs_at(front, candidate_item(cands[i]), k);
        lemma_occurs_shift(Seq::empty(), front, last, candidate_item(cands[i]), k);
        assert(Seq::<char>::empty() + front + last =~= candidate_items(cands));
        assert(occurs_at(candidate_items(cands), candidate_item(cands[i]), k));
    }
}

/// The links page lists each of the first eight candidates (all of them when
/// there are fewer) with its HTML-escaped title in bold, followed by its
/// escaped source.
pub proof fn law_links_page_lists_candidate_titles(
    selected: HitView,
    cands: Seq<HitView>,
    evidence_hash: Seq<char>,
    record_id: Seq<char>,
    verification: Seq<char>,
    explorer_url: Option<Seq<char>>,
    i: int,
)
    requires
        0 <= i < cands.len(),
        i < 8,
    ensures
        contains_text(
            links_page(selected, cands, evidence_hash, record_id, verification, explorer_url),
            "<li><strong>"@ + html_escaped(cands[i].title) + "</strong><br><span class=\"muted\">"@ + html_escaped(
                cands[i].source,
            ),
        ),
{
    let listed = if cands.len() <= 8 {
        cands
    } else {
        cands.take(8)
    };
    assert(listed[i] == cands[i]);
    lemma_item_in_items(listed, i);
    let k = choose|k: int| occurs_at(candidate_items(listed), candidate_item(listed[i]), k);
    let h = cands[i];
    let needle = "<li><strong>"@ + html_escaped(h.title) + "</strong><br><span class=\"muted\">"@ + html_escaped(h.source);
    let rest = "</span><br><a href=\""@ + html_escaped(h.url) + "\" target=\"_blank\" rel=\"noopener noreferrer\">"@
        + html_escaped(h.url) + "</a></li>"@;
    assert(candidate_item(h) =~= needle + rest);
    lemma_occurs_prefix(candidate_items(listed), needle, rest, k);
    let pre = links_head() + selected_section(selected) + proof_section(evidence_hash, record_id, verification, explorer_url)
        + "<section class=\"card\"><h2>Discovered Candidates</h2><ol>"@;
    let post = "</ol></section>"@ + "</main></body></html>"@;
    lemma_occurs_shift(pre, candidate_items(listed), post, needle, k);
    assert(pre + candidate_items(listed) + post =~= links_page(selected, cands, evidence_hash, record_id, verification, explorer_url));
    assert(occurs_at(links_page(selected, cands, evidence_hash, record_id, verification, explorer_url), needle, pre.len() + k));
}

} // verus!
