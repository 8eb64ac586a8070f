//! Reverse-image search results: candidates from SerpAPI Google Lens visual
//! matches or from a fixture, the choice of the selected match, and the order
//! candidates are reported in.

use vstd::prelude::*;
use vstd::string::*;
use vstd::utf8::encode_utf8;

pub use crate::discovery::find_match;
use crate::text::{chars_of, contains_text, push_chars, push_decimal, decimal, str_contains, trim, trim_bounds};

verus! {

// ---------------------------------------------------------------------------
// Hits
// ---------------------------------------------------------------------------

/// Outcome of comparing a candidate's image with the input face.
#[derive(Clone, Copy, Debug, PartialEq, Eq, Structural)]
pub enum FaceCheckStatus {
    /// The candidate's face matched the input face.
    Verified,
    /// The candidate was found but its face was not confirmed.
    Discovered,
}

/// The label of a face-check status.
pub open spec fn status_text(s: FaceCheckStatus) -> Seq<char> {
    match s {
        FaceCheckStatus::Verified => "VERIFIED"@,
        FaceCheckStatus::Discovered => "DISCOVERED"@,
    }
}

impl FaceCheckStatus {
    /// `VERIFIED` or `DISCOVERED`.
    pub fn as_str(&self) -> (res: &'static str)
        ensures
            res@ == status_text(*self),
    {
        match self {
            FaceCheckStatus::Verified => "VERIFIED",
            FaceCheckStatus::Discovered => "DISCOVERED",
        }
    }
}

/// One web page that shows a visually similar image.
#[derive(Clone, Debug)]
pub struct SearchHit {
    pub title: String,
    pub url: String,
    pub source: String,
    pub snippet: Option<String>,
    pub image_url: Option<String>,
    pub verification_image_url: Option<String>,
    /// Face similarity with the input, as the bit pattern of an `f32`.
    pub face_similarity: Option<u32>,
    pub face_verified: bool,
    pub face_check_status: FaceCheckStatus,
}

/// The text of an optional string.
pub open spec fn opt_view(o: Option<String>) -> Option<Seq<char>> {
    match o {
        Some(s) => Some(s@),
        None => None,
    }
}

/// The content of a [`SearchHit`].
pub struct HitView {
    pub title: Seq<char>,
    pub url: Seq<char>,
    pub source: Seq<char>,
    pub snippet: Option<Seq<char>>,
    pub image_url: Option<Seq<char>>,
    pub verification_image_url: Option<Seq<char>>,
    pub face_similarity: Option<u32>,
    pub face_verified: bool,
    pub face_check_status: FaceCheckStatus,
}

impl View for SearchHit {
    type V = HitView;

    open spec fn view(&self) -> HitView {
        HitView {
            title: self.title@,
            url: self.url@,
            source: self.source@,
            snippet: opt_view(self.snippet),
            image_url: opt_view(self.image_url),
            verification_image_url: opt_view(self.verification_image_url),
            face_similarity: self.face_similarity,
            face_verified: self.face_verified,
            face_check_status: self.face_check_status,
        }
    }
}

/// The content of a list of hits.
pub open spec fn hits_view(hits: Seq<SearchHit>) -> Seq<HitView> {
    hits.map_values(|h: SearchHit| h@)
}

/// A copy of an optional string with the same text.
pub fn copy_opt_string(o: &Option<String>) -> (res: Option<String>)
    ensures
        opt_view(res) == opt_view(*o),
{
    match o {
        Some(s) => Some(s.clone()),
        None => None,
    }
}

impl SearchHit {
    /// A copy of the hit.
    pub fn duplicate(&self) -> (res: SearchHit)
        ensures
            res@ == self@,
    {
        SearchHit {
            title: self.title.clone(),
            url: self.url.clone(),
            source: self.source.clone(),
            snippet: copy_opt_string(&self.snippet),
            image_url: copy_opt_string(&self.image_url),
            verification_image_url: copy_opt_string(&self.verification_image_url),
            face_similarity: self.face_similarity,
            face_verified: self.face_verified,
            face_check_status: self.face_check_status,
        }
    }
}

/// What a search produced: the selected match, if any, and all candidates.
#[derive(Clone, Debug)]
pub struct SearchReport {
    pub selected: Option<SearchHit>,
    pub candidates: Vec<SearchHit>,
}

// ---------------------------------------------------------------------------
// Social sites
// ---------------------------------------------------------------------------

/// The domains of the social sites whose pages count as social candidates.
pub open spec fn social_domains() -> Seq<Seq<char>> {
    seq![
        "instagram.com"@,
        "x.com"@,
        "twitter.com"@,
        "linkedin.com"@,
        "facebook.com"@,
        "threads.net"@,
        "tiktok.com"@,
        "youtube.com"@,
    ]
}

/// The URL mentions one of the social domains.
pub open spec fn social_url(url: Seq<char>) -> bool {
    exists|i: int| 0 <= i < social_domains().len() && contains_text(url, #[trigger] social_domains()[i])
}

/// Whether the URL belongs to a social site (it contains one of the social domains).
pub fn is_social_url(url: &str) -> (res: bool)
    ensures
        res == social_url(url@),
{
    let domains: [&str; 8] = [
        "instagram.com",
        "x.com",
        "twitter.com",
        "linkedin.com",
        "facebook.com",
        "threads.net",
        "tiktok.com",
        "youtube.com",
    ];
    let ghost ds = social_domains();
    assert(domains@.map_values(|d: &str| d@) =~= ds);
    let mut i: usize = 0;
    while i < 8
        invariant
            i <= 8,
            ds == social_domains(),
            domains@.map_values(|d: &str| d@) == ds,
            forall|j: int| 0 <= j < i ==> !contains_text(url@, #[trigger] ds[j]),
        decreases 8 - i,
    {
        assert(domains@.map_values(|d: &str| d@)[i as int] == domains@[i as int]@);
        if str_contains(url, domains[i]) {
            return true;
        }
        i = i + 1;
    }
    false
}

// ---------------------------------------------------------------------------
// SerpAPI visual matches
// ---------------------------------------------------------------------------

/// One entry of the `visual_matches` of a Google Lens response.
#[derive(Clone, Debug)]
pub struct SerpApiVisualMatch {
    pub title: Option<String>,
    pub link: Option<String>,
    pub source: Option<String>,
    pub thumbnail: Option<String>,
    pub image: Option<String>,
}

/// The content of a [`SerpApiVisualMatch`].
pub struct VisualMatchView {
    pub title: Option<Seq<char>>,
    pub link: Option<Seq<char>>,
    pub source: Option<Seq<char>>,
    pub thumbnail: Option<Seq<char>>,
    pub image: Option<Seq<char>>,
}

impl View for SerpApiVisualMatch {
    type V = VisualMatchView;

    open spec fn view(&self) -> VisualMatchView {
        VisualMatchView {
            title: opt_view(self.title),
            link: opt_view(self.link),
            source: opt_view(self.source),
            thumbnail: opt_view(self.thumbnail),
            image: opt_view(self.image),
        }
    }
}

/// The text of an option, or a default.
pub open spec fn or_default(o: Option<Seq<char>>, d: Seq<char>) -> Seq<char> {
    match o {
        Some(s) => s,
        None => d,
    }
}

/// The candidate a visual match gives: none without a link, or when the link
/// is blank; otherwise an unchecked hit with default title and source.
pub open spec fn hit_of_match(m: VisualMatchView) -> Option<HitView> {
    match m.link {
        None => None,
        Some(url) => if trim(url).len() == 0 {
            None
        } else {
            Some(
                HitView {
                    title: or_default(m.title, "Untitled visual match"@),
                    url,
                    source: or_default(m.source, "SerpAPI Google Lens"@),
                    snippet: None,
                    image_url: m.thumbnail,
                    verification_image_url: m.image,
                    face_similarity: None,
                    face_verified: false,
                    face_check_status: FaceCheckStatus::Discovered,
                },
            )
        },
    }
}

impl SerpApiVisualMatch {
    /// The candidate this match gives, if it has a non-blank link.
    pub fn into_search_hit(self) -> (res: Option<SearchHit>)
        ensures
            match (res, hit_of_match(self@)) {
                (Some(h), Some(v)) => h@ == v,
                (None, None) => true,
                _ => false,
            },
    {
        let url = match self.link {
            Some(u) => u,
            None => return None,
        };
        let cs = chars_of(url.as_str());
        let (a, b) = trim_bounds(cs.as_slice(), 0, cs.len());
        proof {
            assert(cs@.subrange(0, cs@.len() as int) == cs@);
        }
        if a == b {
            return None;
        }
        let title = match self.title {
            Some(t) => t,
            None => String::from_str("Untitled visual match"),
        };
        let source = match self.source {
            Some(s) => s,
            None => String::from_str("SerpAPI Google Lens"),
        };
        Some(SearchHit {
            title,
            url,
            source,
            snippet: None,
            verification_image_url: self.image,
            image_url: self.thumbnail,
            face_similarity: None,
            face_verified: false,
            face_check_status: FaceCheckStatus::Discovered,
        })
    }
}

/// The most candidates taken from one Lens response.
pub const MAX_LENS_CANDIDATES: usize = 30;

/// The candidates of a list of visual matches, in order, skipping matches
/// without a usable link.
pub open spec fn hits_of_matches(ms: Seq<VisualMatchView>) -> Seq<HitView>
    decreases ms.len(),
{
    if ms.len() == 0 {
        seq![]
    } else {
        let rest = hits_of_matches(ms.drop_last());
        match hit_of_match(ms.last()) {
            Some(h) => rest.push(h),
            None => rest,
        }
    }
}

/// The content of a list of visual matches.
pub open spec fn matches_view(ms: Seq<SerpApiVisualMatch>) -> Seq<VisualMatchView> {
    ms.map_values(|m: SerpApiVisualMatch| m@)
}

/// At most the first 30 entries of a sequence.
pub open spec fn first_30<T>(s: Seq<T>) -> Seq<T> {
    if s.len() <= 30 {
        s
    } else {
        s.take(30)
    }
}

/// The first 30 candidates of a Lens response, in order.
pub fn lens_candidates(matches: Vec<SerpApiVisualMatch>) -> (res: Vec<SearchHit>)
    ensures
        hits_view(res@) == first_30(hits_of_matches(matches_view(matches@))),
{
    let ghost mv = matches_view(matches@);
    let mut res: Vec<SearchHit> = Vec::new();
    for m in it: matches
        invariant
            it.seq() == matches@,
            mv == matches_view(matches@),
            hits_view(res@) == first_30(hits_of_matches(matches_view(it.seq().take(it.index() as int)))),
    {
        let ghost i = it.index() as int;
        let ghost before = hits_of_matches(matches_view(it.seq().take(i)));
        proof {
            assert(matches_view(it.seq().take(i + 1)).drop_last() == matches_view(it.seq().take(i)));
            assert(matches_view(it.seq().take(i + 1)).last() == it.seq()[i]@);
        }
        let hit = m.into_search_hit();
        match hit {
            Some(h) => {
                if res.len() < MAX_LENS_CANDIDATES {
                    let ghost old_res = hits_view(res@);
                    res.push(h);
                    proof {
                        assert(hits_view(res@) == old_res.push(h@));
                    }
                }
            },
            None => {},
        }
    }
    proof {
        assert(matches@.take(matches@.len() as int) == matches@);
    }
    res
}

// ---------------------------------------------------------------------------
// Fixture and face checks
// ---------------------------------------------------------------------------

/// The bit pattern of the `f32` 1.0, the similarity a fixture hit gets.
pub const FULL_SIMILARITY_BITS: u32 = 0x3F80_0000;

/// A fixture hit, marked as a verified face match with similarity 1.0.
pub open spec fn fixture_hit(h: HitView) -> HitView {
    HitView {
        face_similarity: Some(FULL_SIMILARITY_BITS),
        face_verified: true,
        face_check_status: FaceCheckStatus::Verified,
        ..h
    }
}

/// The report for a fixture hit: the hit, marked verified with similarity 1.0,
/// is both the selected match and the only candidate.
pub fn fixture_report(hit: SearchHit) -> (res: SearchReport)
    ensures
        res@ == (ReportView { selected: Some(fixture_hit(hit@)), candidates: seq![fixture_hit(hit@)] }),
{
    let selected = SearchHit {
        face_similarity: Some(FULL_SIMILARITY_BITS),
        face_verified: true,
        face_check_status: FaceCheckStatus::Verified,
        ..hit
    };
    let copy = selected.duplicate();
    let mut candidates: Vec<SearchHit> = Vec::new();
    candidates.push(copy);
    proof {
        assert(hits_view(candidates@) == seq![copy@]);
    }
    SearchReport { selected: Some(selected), candidates }
}

/// The image a candidate's face is checked on: the full image if there is
/// one, else the thumbnail.
pub open spec fn check_image_url(h: HitView) -> Option<Seq<char>> {
    match h.verification_image_url {
        Some(u) => Some(u),
        None => h.image_url,
    }
}

/// The URL of the image to compare with the input face, if the hit has one.
pub fn face_check_image_url(hit: &SearchHit) -> (res: Option<&String>)
    ensures
        match (res, check_image_url(hit@)) {
            (Some(u), Some(v)) => u@ == v,
            (None, None) => true,
            _ => false,
        },
{
    match &hit.verification_image_url {
        Some(u) => Some(u),
        None => match &hit.image_url {
            Some(u) => Some(u),
            None => None,
        },
    }
}

/// Records the outcome of a face comparison on a hit: its similarity (bit
/// pattern of an `f32`) and whether it reached the threshold.
pub fn record_face_check(hit: SearchHit, similarity_bits: u32, verified: bool) -> (res: SearchHit)
    ensures
        res@ == (HitView {
            face_similarity: Some(similarity_bits),
            face_verified: verified,
            face_check_status: if verified {
                FaceCheckStatus::Verified
            } else {
                FaceCheckStatus::Discovered
            },
            ..hit@
        }),
{
    SearchHit {
        face_similarity: Some(similarity_bits),
        face_verified: verified,
        face_check_status: if verified {
            FaceCheckStatus::Verified
        } else {
            FaceCheckStatus::Discovered
        },
        ..hit
    }
}

// ---------------------------------------------------------------------------
// Selection
// ---------------------------------------------------------------------------

/// Index of the first hit that satisfies `p`, if any.
pub open spec fn first_where(hits: Seq<HitView>, p: spec_fn(HitView) -> bool) -> Option<int> {
    if exists|i: int| 0 <= i < hits.len() && p(#[trigger] hits[i]) {
        Some(choose|i: int| 0 <= i < hits.len() && p(#[trigger] hits[i]) && forall|j: int| 0 <= j < i ==> !p(#[trigger] hits[j]))
    } else {
        None
    }
}

/// The selected match: the first verified hit on a social site, else the
/// first verified hit, else none.
pub open spec fn selected_index(hits: Seq<HitView>) -> Option<int> {
    match first_where(hits, |h: HitView| h.face_verified && social_url(h.url)) {
        Some(i) => Some(i),
        None => first_where(hits, |h: HitView| h.face_verified),
    }
}

/// `i` is the first index of `hits` whose hit satisfies `p`.
pub open spec fn is_first_where(hits: Seq<HitView>, p: spec_fn(HitView) -> bool, i: int) -> bool {
    0 <= i < hits.len() && p(hits[i]) && forall|j: int| 0 <= j < i ==> !p(#[trigger] hits[j])
}

proof fn lemma_first_where(hits: Seq<HitView>, p: spec_fn(HitView) -> bool, i: int)
    requires
        is_first_where(hits, p, i),
    ensures
        first_where(hits, p) == Some(i),
{
    assert(p(hits[i]));
    let k = choose|k: int| 0 <= k < hits.len() && p(#[trigger] hits[k]) && forall|j: int| 0 <= j < k ==> !p(#[trigger] hits[j]);
    assert(0 <= k < hits.len() && p(hits[k]) && forall|j: int| 0 <= j < k ==> !p(#[trigger] hits[j]));
    if k < i {
        assert(!p(hits[k]));
    }
    if i < k {
        assert(!p(hits[i]));
    }
}

proof fn lemma_first_where_none(hits: Seq<HitView>, p: spec_fn(HitView) -> bool)
    requires
        forall|j: int| 0 <= j < hits.len() ==> !p(#[trigger] hits[j]),
    ensures
        first_where(hits, p) is None,
{
}

/// Picks the selected match among the candidates: the first face-verified
/// social hit, else the first face-verified hit.
pub fn select_match(candidates: &Vec<SearchHit>) -> (res: Option<usize>)
    ensures
        res matches Some(i) ==> i < candidates@.len(),
        match (res, selected_index(hits_view(candidates@))) {
            (Some(i), Some(j)) => i == j,
            (None, None) => true,
            _ => false,
        },
{
    let ghost hv = hits_view(candidates@);
    let ghost social = |h: HitView| h.face_verified && social_url(h.url);
    let ghost verified = |h: HitView| h.face_verified;
    let mut i: usize = 0;
    while i < candidates.len()
        invariant
            hv == hits_view(candidates@),
            i <= candidates@.len(),
            social == (|h: HitView| h.face_verified && social_url(h.url)),
            forall|j: int| 0 <= j < i ==> !social(#[trigger] hv[j]),
        decreases candidates@.len() - i,
    {
        let h = &candidates[i];
        assert(hv[i as int] == h@);
        if h.face_verified && is_social_url(h.url.as_str()) {
            proof {
                lemma_first_where(hv, social, i as int);
            }
            return Some(i);
        }
        i = i + 1;
    }
    proof {
        lemma_first_where_none(hv, social);
    }
    let mut k: usize = 0;
    while k < candidates.len()
        invariant
            hv == hits_view(candidates@),
            k <= candidates@.len(),
            first_where(hv, social) is None,
            social == (|h: HitView| h.face_verified && social_url(h.url)),
            verified == (|h: HitView| h.face_verified),
            forall|j: int| 0 <= j < k ==> !verified(#[trigger] hv[j]),
        decreases candidates@.len() - k,
    {
        assert(hv[k as int] == candidates@[k as int]@);
        if candidates[k].face_verified {
            proof {
                lemma_first_where(hv, verified, k as int);
            }
            return Some(k);
        }
        k = k + 1;
    }
    proof {
        lemma_first_where_none(hv, verified);
    }
    None
}

// ---------------------------------------------------------------------------
// Similarity order
// ---------------------------------------------------------------------------

/// The place of an `f32` bit pattern in the order `f32::total_cmp` uses:
/// patterns with the sign bit clear keep their value, patterns with it set are
/// mapped below zero in reverse.
pub open spec fn total_order_key(bits: u32) -> int {
    if bits < 0x8000_0000 {
        bits as int
    } else {
        0x7FFF_FFFF - bits as int
    }
}

/// The sort key of a hit: its similarity, with no similarity counting as 0.0.
pub open spec fn similarity_key(h: HitView) -> int {
    total_order_key(
        match h.face_similarity {
            Some(b) => b,
            None => 0,
        },
    )
}

/// Hit `p` comes before hit `q`: a higher similarity, or the same similarity
/// and an earlier position.
pub open spec fn ranks_before(hits: Seq<HitView>, p: int, q: int) -> bool {
    similarity_key(hits[p]) > similarity_key(hits[q]) || (similarity_key(hits[p]) == similarity_key(hits[q])
        && p < q)
}

/// `order` lists the positions of `hits` by decreasing similarity, keeping the
/// input order among equal similarities (a stable sort).
pub open spec fn is_similarity_order(hits: Seq<HitView>, order: Seq<usize>) -> bool {
    &&& order.len() == hits.len()
    &&& forall|a: int| 0 <= a < order.len() ==> #[trigger] order[a] < hits.len()
    &&& forall|a: int, b: int| 0 <= a < b < order.len() ==> ranks_before(hits, #[trigger] order[a] as int, #[trigger] order[b] as int)
}

/// The key `similarity_key` computes, for one similarity.
pub fn similarity_sort_key(similarity: Option<u32>) -> (res: i64)
    ensures
        res == total_order_key(
            match similarity {
                Some(b) => b,
                None => 0,
            },
        ),
{
    let bits = match similarity {
        Some(b) => b,
        None => 0,
    };
    if bits < 0x8000_0000 {
        bits as i64
    } else {
        0x7FFF_FFFF - bits as i64
    }
}

/// The positions of `hits` by decreasing similarity, stable among equals.
pub fn similarity_order(hits: &Vec<SearchHit>) -> (order: Vec<usize>)
    ensures
        is_similarity_order(hits_view(hits@), order@),
{
    let ghost hv = hits_view(hits@);
    let n = hits.len();
    let mut keys: Vec<i64> = Vec::new();
    let mut i: usize = 0;
    while i < n
        invariant
            n == hits@.len(),
            hv == hits_view(hits@),
            i <= n,
            keys@.len() == i,
            forall|a: int| 0 <= a < i ==> #[trigger] keys@[a] == similarity_key(hv[a]),
        decreases n - i,
    {
        assert(hv[i as int] == hits@[i as int]@);
        let k = similarity_sort_key(hits[i].face_similarity);
        keys.push(k);
        i = i + 1;
    }
    let mut order: Vec<usize> = Vec::new();
    let mut i: usize = 0;
    while i < n
        invariant
            n == hits@.len(),
            hv == hits_view(hits@),
            hv.len() == n,
            i <= n,
            keys@.len() == n,
            forall|a: int| 0 <= a < n ==> #[trigger] keys@[a] == similarity_key(hv[a]),
            order@.len() == i,
            forall|a: int| 0 <= a < order@.len() ==> #[trigger] order@[a] < i,
            forall|a: int, b: int| 0 <= a < b < order@.len() ==> ranks_before(hv, #[trigger] order@[a] as int, #[trigger] order@[b] as int),
        decreases n - i,
    {
        let ki = keys[i];
        let mut p: usize = 0;
        while p < order.len() && keys[order[p]] >= ki
            invariant
                keys@.len() == n,
                i < n,
                ki == keys@[i as int],
                p <= order@.len(),
                forall|a: int| 0 <= a < order@.len() ==> #[trigger] order@[a] < i,
                forall|a: int| 0 <= a < p ==> keys@[#[trigger] order@[a] as int] >= ki,
            decreases order@.len() - p,
        {
            p = p + 1;
        }
        let ghost old_order = order@;
        proof {
            assert forall|a: int| p <= a < old_order.len() implies keys@[#[trigger] old_order[a] as int] < ki by {
                if a > p {
                    assert(ranks_before(hv, old_order[p as int] as int, old_order[a] as int));
                }
            }
        }
        order.insert(p, i);
        proof {
            let new_order = order@;
            assert(new_order == old_order.insert(p as int, i));
            assert forall|a: int| 0 <= a < new_order.len() implies #[trigger] new_order[a] < i + 1 by {
                if a < p {
                    assert(new_order[a] == old_order[a]);
                } else if a > p {
                    assert(new_order[a] == old_order[a - 1]);
                }
            }
            assert forall|a: int, b: int| 0 <= a < b < new_order.len() implies ranks_before(
                hv,
                #[trigger] new_order[a] as int,
                #[trigger] new_order[b] as int,
            ) by {
                if b < p {
                    assert(new_order[a] == old_order[a]);
                    assert(new_order[b] == old_order[b]);
                } else if b == p {
                    assert(new_order[a] == old_order[a]);
                    assert(keys@[old_order[a] as int] >= ki);
                } else if a < p {
                    assert(new_order[a] == old_order[a]);
                    assert(new_order[b] == old_order[b - 1]);
                    assert(ranks_before(hv, old_order[a] as int, old_order[b - 1] as int));
                } else if a == p {
                    assert(new_order[b] == old_order[b - 1]);
                    assert(keys@[old_order[b - 1] as int] < ki);
                } else {
                    assert(new_order[a] == old_order[a - 1]);
                    assert(new_order[b] == old_order[b - 1]);
                    assert(ranks_before(hv, old_order[a - 1] as int, old_order[b - 1] as int));
                }
            }
        }
        i = i + 1;
    }
    order
}

/// The hits by decreasing similarity (`f32::total_cmp` order, no similarity
/// counting as 0.0), equal similarities in their input order.
pub fn sort_by_similarity(hits: Vec<SearchHit>) -> (res: Vec<SearchHit>)
    ensures
        hits_view(res@) == similarity_sorted(hits_view(hits@)),
{
    let ghost hv = hits_view(hits@);
    let order = similarity_order(&hits);
    let mut res: Vec<SearchHit> = Vec::new();
    let mut k: usize = 0;
    while k < order.len()
        invariant
            hv == hits_view(hits@),
            is_similarity_order(hv, order@),
            k <= order@.len(),
            hits_view(res@) == order@.take(k as int).map_values(|p: usize| hv[p as int]),
        decreases order@.len() - k,
    {
        let p = order[k];
        assert(order@[k as int] < hv.len());
        let h = hits[p].duplicate();
        let ghost before = hits_view(res@);
        res.push(h);
        proof {
            assert(hv[p as int] == hits@[p as int]@);
            assert(hits_view(res@) == before.push(h@));
            assert(order@.take(k + 1) == order@.take(k as int).push(p));
            assert(order@.take(k + 1).map_values(|p: usize| hv[p as int]) == order@.take(k as int).map_values(|p: usize| hv[p as int]).push(hv[p as int]));
        }
        k = k + 1;
    }
    proof {
        assert(order@.take(order@.len() as int) == order@);
        lemma_similarity_sorted(hv, order@);
    }
    res
}

/// The hits in a given order.
pub open spec fn arranged(hits: Seq<HitView>, order: Seq<usize>) -> Seq<HitView> {
    order.map_values(|p: usize| hits[p as int])
}

/// The hits by decreasing similarity, stable among equals (the order is unique,
/// see `law_similarity_order_unique`).
pub open spec fn similarity_sorted(hits: Seq<HitView>) -> Seq<HitView> {
    arranged(hits, choose|o: Seq<usize>| is_similarity_order(hits, o))
}

proof fn lemma_similarity_sorted(hits: Seq<HitView>, order: Seq<usize>)
    requires
        is_similarity_order(hits, order),
    ensures
        similarity_sorted(hits) == order.map_values(|p: usize| hits[p as int]),
{
    let o = choose|o: Seq<usize>| is_similarity_order(hits, o);
    law_similarity_order_unique(hits, order, o);
}

/// The content of a [`SearchReport`].
pub struct ReportView {
    pub selected: Option<HitView>,
    pub candidates: Seq<HitView>,
}

impl View for SearchReport {
    type V = ReportView;

    open spec fn view(&self) -> ReportView {
        ReportView {
            selected: match self.selected {
                Some(h) => Some(h@),
                None => None,
            },
            candidates: hits_view(self.candidates@),
        }
    }
}

/// The report of a Lens search over `hits`: the selected match among the hits
/// in found order, and the hits by decreasing similarity.
pub open spec fn report_of(hits: Seq<HitView>) -> ReportView {
    ReportView {
        selected: match selected_index(hits) {
            Some(i) => Some(hits[i]),
            None => None,
        },
        candidates: similarity_sorted(hits),
    }
}

// ---------------------------------------------------------------------------
// SerpAPI requests
// ---------------------------------------------------------------------------

/// A byte `urlencoding` passes through unchanged: ASCII letters and digits and `-._~`.
pub open spec fn url_safe_byte(b: u8) -> bool {
    (48 <= b && b <= 57) || (65 <= b && b <= 90) || (97 <= b && b <= 122) || b == 45 || b == 46 || b == 95 || b == 126
}

/// Uppercase hexadecimal digit of a nibble `n < 16`.
pub open spec fn hex_digit_upper(n: nat) -> char {
    if n < 10 {
        ((48 + n) as u32) as char
    } else {
        ((55 + n) as u32) as char
    }
}

/// Percent-encoding of a byte sequence: safe bytes stay, every other byte
/// becomes `%` and two uppercase hexadecimal digits.
pub open spec fn percent_encoded(bytes: Seq<u8>) -> Seq<char>
    decreases bytes.len(),
{
    if bytes.len() == 0 {
        seq![]
    } else {
        let b = bytes[0];
        let head = if url_safe_byte(b) {
            seq![(b as u32) as char]
        } else {
            seq!['%', hex_digit_upper((b / 16) as nat), hex_digit_upper((b % 16) as nat)]
        };
        head + percent_encoded(bytes.drop_first())
    }
}

/// Calls `urlencoding::encode`; claims it percent-encodes the UTF-8 bytes of
/// the text, keeping ASCII alphanumerics and `-._~`, writing `%XX` (uppercase)
/// for every other byte.
#[verifier::external_body]
fn url_encode(text: &str) -> (res: String)
    ensures
        res@ == percent_encoded(encode_utf8(text@)),
{
    urlencoding::encode(text).into_owned()
}

/// The Google Lens query: an uploaded image's id, or a public image URL.
#[derive(Clone, Debug)]
pub enum SerpApiLensQuery {
    ImageId(String),
    Url(String),
}

/// The Lens search URL for a query and API key.
pub open spec fn lens_url(image_id: bool, value: Seq<char>, api_key: Seq<char>) -> Seq<char> {
    (if image_id {
        "https://serpapi.com/search.json?engine=google_lens&image_id="@
    } else {
        "https://serpapi.com/search.json?engine=google_lens&url="@
    }) + percent_encoded(encode_utf8(value)) + "&api_key="@ + percent_encoded(encode_utf8(api_key))
}

impl SerpApiLensQuery {
    /// The Google Lens search URL, with the image id or URL and the API key percent-encoded.
    pub fn google_lens_url(&self, api_key: &str) -> (res: String)
        ensures
            res@ == lens_url(self@.image_id, self@.value, api_key@),
    {
        let (mut url, value) = match self {
            SerpApiLensQuery::ImageId(id) => (
                String::from_str("https://serpapi.com/search.json?engine=google_lens&image_id="),
                id,
            ),
            SerpApiLensQuery::Url(u) => (String::from_str("https://serpapi.com/search.json?engine=google_lens&url="), u),
        };
        let v = url_encode(value.as_str());
        url.append(v.as_str());
        url.append("&api_key=");
        let k = url_encode(api_key);
        url.append(k.as_str());
        url
    }
}

/// How a request through `curl` failed.
#[derive(Clone, Debug)]
pub enum ReplyFailure {
    /// `curl` could not be started; the text describes why.
    Launch { detail: String },
    /// `curl` exited unsuccessfully; its trimmed standard error.
    Failed { stderr: String },
    /// The answer is not the expected JSON; the text describes why.
    Undecodable { detail: String },
}

/// Why a SerpAPI search could not be made.
#[derive(Clone, Debug)]
pub enum SearchError {
    /// No API key was given.
    MissingApiKey,
    /// The image is over the 500 KB SerpAPI accepts for uploads, and no JPEG
    /// re-encoding of it fits either (or it does not decode).
    ImageTooLarge { path: String, size_kb: u64 },
    /// The upload answer carried an error or message.
    UploadRejected { message: String },
    /// The upload answer had no image id.
    MissingImageId,
    /// The image upload request failed.
    UploadFailed { failure: ReplyFailure },
    /// The Lens search request failed.
    LensFailed { failure: ReplyFailure },
    /// The search was handed an event it was not waiting for.
    UnexpectedEvent,
}

/// The content of a [`SearchError`].
pub enum SearchErrorView {
    MissingApiKey,
    ImageTooLarge(Seq<char>, u64),
    UploadRejected(Seq<char>),
    MissingImageId,
    UploadFailed(ReplyFailure),
    LensFailed(ReplyFailure),
    UnexpectedEvent,
}

impl View for SearchError {
    type V = SearchErrorView;

    open spec fn view(&self) -> SearchErrorView {
        match self {
            SearchError::MissingApiKey => SearchErrorView::MissingApiKey,
            SearchError::ImageTooLarge { path, size_kb } => SearchErrorView::ImageTooLarge(path@, *size_kb),
            SearchError::UploadRejected { message } => SearchErrorView::UploadRejected(message@),
            SearchError::MissingImageId => SearchErrorView::MissingImageId,
            SearchError::UploadFailed { failure } => SearchErrorView::UploadFailed(*failure),
            SearchError::LensFailed { failure } => SearchErrorView::LensFailed(*failure),
            SearchError::UnexpectedEvent => SearchErrorView::UnexpectedEvent,
        }
    }
}

/// The content of a Lens query: whether it names an uploaded image, and the id or URL.
pub struct QueryView {
    pub image_id: bool,
    pub value: Seq<char>,
}

impl View for SerpApiLensQuery {
    type V = QueryView;

    open spec fn view(&self) -> QueryView {
        match self {
            SerpApiLensQuery::ImageId(id) => QueryView { image_id: true, value: id@ },
            SerpApiLensQuery::Url(u) => QueryView { image_id: false, value: u@ },
        }
    }
}

/// The largest image, in bytes, SerpAPI accepts for upload.
pub const MAX_UPLOAD_BYTES: u64 = 500_000;

/// The `curl` arguments of the upload: a multipart POST of the image file and the key.
pub open spec fn upload_args(image_path: Seq<char>, api_key: Seq<char>) -> Seq<Seq<char>> {
    seq![
        "-sS"@,
        "--fail"@,
        "--max-time"@,
        "30"@,
        "-X"@,
        "POST"@,
        "https://serpapi.com/image"@,
        "-F"@,
        "image=@"@ + image_path,
        "-F"@,
        "api_key="@ + api_key,
    ]
}

/// The upload command for the image file at `image_path`.
pub fn image_upload_command(image_path: &str, api_key: &str) -> (res: Vec<String>)
    ensures
        res.deep_view() == upload_args(image_path@, api_key@),
{
    let mut form_image = String::from_str("image=@");
    form_image.append(image_path);
    let mut form_key = String::from_str("api_key=");
    form_key.append(api_key);
    let mut args: Vec<String> = Vec::new();
    args.push(String::from_str("-sS"));
    args.push(String::from_str("--fail"));
    args.push(String::from_str("--max-time"));
    args.push(String::from_str("30"));
    args.push(String::from_str("-X"));
    args.push(String::from_str("POST"));
    args.push(String::from_str("https://serpapi.com/image"));
    args.push(String::from_str("-F"));
    args.push(form_image);
    args.push(String::from_str("-F"));
    args.push(form_key);
    proof {
        assert(args.deep_view() =~= upload_args(image_path@, api_key@));
    }
    args
}

/// The answer of the SerpAPI image upload.
#[derive(Clone, Debug)]
pub struct SerpApiImageUploadResponse {
    pub image_id: Option<String>,
    pub error: Option<String>,
    pub message: Option<String>,
}

/// The content of a [`SerpApiImageUploadResponse`].
pub struct UploadView {
    pub image_id: Option<Seq<char>>,
    pub error: Option<Seq<char>>,
    pub message: Option<Seq<char>>,
}

impl View for SerpApiImageUploadResponse {
    type V = UploadView;

    open spec fn view(&self) -> UploadView {
        UploadView { image_id: opt_view(self.image_id), error: opt_view(self.error), message: opt_view(self.message) }
    }
}

/// The Lens query an upload answer gives: its error (or else its message) is a
/// refusal; otherwise its image id, which must be present.
pub open spec fn query_of_upload(r: UploadView) -> Result<QueryView, SearchErrorView> {
    let problem = match r.error {
        Some(e) => Some(e),
        None => r.message,
    };
    match problem {
        Some(p) => Err(SearchErrorView::UploadRejected(p)),
        None => match r.image_id {
            Some(id) => Ok(QueryView { image_id: true, value: id }),
            None => Err(SearchErrorView::MissingImageId),
        },
    }
}

/// The content of a query-or-error outcome.
pub open spec fn query_outcome_view(r: Result<SerpApiLensQuery, SearchError>) -> Result<QueryView, SearchErrorView> {
    match r {
        Ok(q) => Ok(q@),
        Err(e) => Err(e@),
    }
}

/// The Lens query an upload answer gives: its error (or else its message) is a
/// refusal; otherwise its image id, which must be present.
pub fn query_from_upload(response: SerpApiImageUploadResponse) -> (res: Result<SerpApiLensQuery, SearchError>)
    ensures
        query_outcome_view(res) == query_of_upload(response@),
{
    let problem = match response.error {
        Some(e) => Some(e),
        None => response.message,
    };
    if let Some(message) = problem {
        return Err(SearchError::UploadRejected { message });
    }
    match response.image_id {
        Some(id) => Ok(SerpApiLensQuery::ImageId(id)),
        None => Err(SearchError::MissingImageId),
    }
}

/// The `curl` arguments of a Lens search request.
pub open spec fn lens_request_args(url: Seq<char>) -> Seq<Seq<char>> {
    seq!["-sS"@, "--fail"@, "--max-time"@, "30"@, url]
}

/// The `curl` arguments that fetch the Lens results for a search URL.
pub fn lens_request_command(url: &str) -> (res: Vec<String>)
    ensures
        res.deep_view() == lens_request_args(url@),
{
    let mut args: Vec<String> = Vec::new();
    args.push(String::from_str("-sS"));
    args.push(String::from_str("--fail"));
    args.push(String::from_str("--max-time"));
    args.push(String::from_str("30"));
    args.push(String::from_str(url));
    proof {
        assert(args.deep_view() =~= lens_request_args(url@));
    }
    args
}

/// The `curl` arguments of a candidate image download.
pub open spec fn download_args(url: Seq<char>) -> Seq<Seq<char>> {
    seq!["-L"@, "-sS"@, "--fail"@, "--max-time"@, "5"@, url]
}

/// The `curl` arguments that download a candidate's image.
pub fn download_command(url: &str) -> (res: Vec<String>)
    ensures
        res.deep_view() == download_args(url@),
{
    let mut args: Vec<String> = Vec::new();
    args.push(String::from_str("-L"));
    args.push(String::from_str("-sS"));
    args.push(String::from_str("--fail"));
    args.push(String::from_str("--max-time"));
    args.push(String::from_str("5"));
    args.push(String::from_str(url));
    proof {
        assert(args.deep_view() =~= download_args(url@));
    }
    args
}

/// A copy of the selected match among the candidates, if there is one.
pub fn selected_copy(candidates: &Vec<SearchHit>) -> (res: Option<SearchHit>)
    ensures
        match (res, selected_index(hits_view(candidates@))) {
            (Some(s), Some(i)) => s@ == hits_view(candidates@)[i],
            (None, None) => true,
            _ => false,
        },
{
    match select_match(candidates) {
        Some(i) => {
            proof {
                assert(hits_view(candidates@)[i as int] == candidates@[i as int]@);
            }
            Some(candidates[i].duplicate())
        },
        None => None,
    }
}

/// The report of a Lens search: the selected match is chosen among the
/// candidates in their found order; the candidates are then sorted by
/// decreasing similarity.
pub fn lens_report(candidates: Vec<SearchHit>) -> (res: SearchReport)
    ensures
        res@ == report_of(hits_view(candidates@)),
{
    let selected = selected_copy(&candidates);
    proof {
        law_selection_prefers_verified_social(hits_view(candidates@));
    }
    let sorted = sort_by_similarity(candidates);
    SearchReport { selected, candidates: sorted }
}

// ---------------------------------------------------------------------------
// Laws
// ---------------------------------------------------------------------------

proof fn lemma_least_witness(hits: Seq<HitView>, p: spec_fn(HitView) -> bool, k: int)
    requires
        0 <= k < hits.len(),
        p(hits[k]),
    ensures
        exists|i: int| is_first_where(hits, p, i),
    decreases k,
{
    if exists|j: int| 0 <= j < k && p(#[trigger] hits[j]) {
        let j = choose|j: int| 0 <= j < k && p(#[trigger] hits[j]);
        lemma_least_witness(hits, p, j);
    } else {
        assert(is_first_where(hits, p, k));
    }
}

/// The selected match is face-verified; it is on a social site whenever some
/// face-verified candidate is; it is the first face-verified social candidate,
/// or else the first face-verified one; and there is one exactly when some
/// candidate is face-verified.
pub proof fn law_selection_prefers_verified_social(hits: Seq<HitView>)
    ensures
        selected_index(hits) matches Some(i) ==> 0 <= i < hits.len() && hits[i].face_verified,
        selected_index(hits) matches Some(i) ==> forall|j: int|
            0 <= j < i ==> !((#[trigger] hits[j]).face_verified && social_url(hits[j].url)),
        selected_index(hits) matches Some(i) ==> (!social_url(hits[i].url) ==> forall|j: int|
            0 <= j < i ==> !(#[trigger] hits[j]).face_verified),
        (exists|j: int| 0 <= j < hits.len() && (#[trigger] hits[j]).face_verified && social_url(hits[j].url))
            ==> (selected_index(hits) matches Some(i) && social_url(hits[i].url)),
        selected_index(hits) is None <==> forall|j: int| 0 <= j < hits.len() ==> !(#[trigger] hits[j]).face_verified,
{
    let social = |h: HitView| h.face_verified && social_url(h.url);
    let verified = |h: HitView| h.face_verified;
    if exists|j: int| 0 <= j < hits.len() && social(#[trigger] hits[j]) {
        let j = choose|j: int| 0 <= j < hits.len() && social(#[trigger] hits[j]);
        lemma_least_witness(hits, social, j);
        let i = choose|i: int| is_first_where(hits, social, i);
        lemma_first_where(hits, social, i);
    } else {
        lemma_first_where_none(hits, social);
        if exists|j: int| 0 <= j < hits.len() && verified(#[trigger] hits[j]) {
            let j = choose|j: int| 0 <= j < hits.len() && verified(#[trigger] hits[j]);
            lemma_least_witness(hits, verified, j);
            let i = choose|i: int| is_first_where(hits, verified, i);
            lemma_first_where(hits, verified, i);
        } else {
            lemma_first_where_none(hits, verified);
        }
    }
    assert((exists|j: int| 0 <= j < hits.len() && (#[trigger] hits[j]).face_verified && social_url(hits[j].url))
        ==> exists|j: int| 0 <= j < hits.len() && social(#[trigger] hits[j]));
    assert((exists|j: int| 0 <= j < hits.len() && (#[trigger] hits[j]).face_verified) ==> exists|j: int|
        0 <= j < hits.len() && verified(#[trigger] hits[j]));
}

/// A URL is social exactly when it contains one of instagram.com, x.com,
/// twitter.com, linkedin.com, facebook.com, threads.net, tiktok.com or youtube.com.
pub proof fn law_social_domains(url: Seq<char>)
    ensures
        social_url(url) <==> (contains_text(url, "instagram.com"@) || contains_text(url, "x.com"@) || contains_text(
            url,
            "twitter.com"@,
        ) || contains_text(url, "linkedin.com"@) || contains_text(url, "facebook.com"@) || contains_text(
            url,
            "threads.net"@,
        ) || contains_text(url, "tiktok.com"@) || contains_text(url, "youtube.com"@)),
{
    let d = social_domains();
    assert(d[0] == "instagram.com"@);
    assert(d[1] == "x.com"@);
    assert(d[2] == "twitter.com"@);
    assert(d[3] == "linkedin.com"@);
    assert(d[4] == "facebook.com"@);
    assert(d[5] == "threads.net"@);
    assert(d[6] == "tiktok.com"@);
    assert(d[7] == "youtube.com"@);
    if social_url(url) {
        let i = choose|i: int| 0 <= i < d.len() && contains_text(url, #[trigger] d[i]);
        assert(0 <= i < 8);
    }
}

/// Candidates taken from visual matches have a non-blank URL and carry no face
/// check yet (not verified, status `DISCOVERED`, no similarity).
pub proof fn law_lens_candidates_unchecked(ms: Seq<VisualMatchView>)
    ensures
        forall|i: int|
            0 <= i < hits_of_matches(ms).len() ==> {
                let h = #[trigger] hits_of_matches(ms)[i];
                &&& trim(h.url).len() > 0
                &&& !h.face_verified
                &&& h.face_check_status == FaceCheckStatus::Discovered
                &&& h.face_similarity is None
            },
    decreases ms.len(),
{
    if ms.len() > 0 {
        law_lens_candidates_unchecked(ms.drop_last());
        let rest = hits_of_matches(ms.drop_last());
        assert forall|i: int| 0 <= i < hits_of_matches(ms).len() implies {
            let h = #[trigger] hits_of_matches(ms)[i];
            &&& trim(h.url).len() > 0
            &&& !h.face_verified
            &&& h.face_check_status == FaceCheckStatus::Discovered
            &&& h.face_similarity is None
        } by {
            if i < rest.len() {
                assert(hits_of_matches(ms)[i] == rest[i]);
            }
        }
    }
}

proof fn lemma_order_covers(hits: Seq<HitView>, o: Seq<usize>, q: int)
    requires
        is_similarity_order(hits, o),
        0 <= q < hits.len(),
    ensures
        exists|b: int| 0 <= b < o.len() && o[b] == q,
{
    let n = hits.len() as int;
    let oi = o.map_values(|p: usize| p as int);
    assert forall|i: int, j: int| 0 <= i < oi.len() && 0 <= j < oi.len() && i != j implies oi[i] != oi[j] by {
        if i < j {
            assert(ranks_before(hits, o[i] as int, o[j] as int));
        } else {
            assert(ranks_before(hits, o[j] as int, o[i] as int));
        }
    }
    assert(oi.no_duplicates());
    oi.unique_seq_to_set();
    vstd::set_lib::lemma_int_range(0, n);
    assert forall|x: int| oi.to_set().contains(x) implies vstd::set_lib::set_int_range(0, n).contains(x) by {
        let b = choose|b: int| 0 <= b < oi.len() && oi[b] == x;
        assert(o[b] < hits.len());
    }
    vstd::set_lib::lemma_subset_equality(oi.to_set(), vstd::set_lib::set_int_range(0, n));
    assert(vstd::set_lib::set_int_range(0, n).contains(q));
    assert(oi.to_set().contains(q));
    let b = choose|b: int| 0 <= b < oi.len() && oi[b] == q;
    assert(o[b] == q);
}

proof fn lemma_orders_agree_upto(hits: Seq<HitView>, o1: Seq<usize>, o2: Seq<usize>, a: int)
    requires
        is_similarity_order(hits, o1),
        is_similarity_order(hits, o2),
        0 <= a < hits.len(),
    ensures
        forall|k: int| 0 <= k <= a ==> o1[k] == o2[k],
    decreases a,
{
    if a > 0 {
        lemma_orders_agree_upto(hits, o1, o2, a - 1);
    }
    let p = o1[a];
    let q = o2[a];
    if p != q {
        if ranks_before(hits, p as int, q as int) {
            lemma_order_covers(hits, o2, p as int);
            let b = choose|b: int| 0 <= b < o2.len() && o2[b] == p;
            if b < a {
                assert(o1[b] == o2[b]);
                assert(ranks_before(hits, o1[b] as int, o1[a] as int));
            } else {
                assert(ranks_before(hits, o2[a] as int, o2[b] as int));
            }
        } else {
            lemma_order_covers(hits, o1, q as int);
            let c = choose|c: int| 0 <= c < o1.len() && o1[c] == q;
            if c < a {
                assert(o1[c] == o2[c]);
                assert(ranks_before(hits, o2[c] as int, o2[a] as int));
            } else {
                assert(ranks_before(hits, o1[a] as int, o1[c] as int));
            }
        }
    }
}

/// The similarity order is unique: a stable sort by decreasing similarity has
/// exactly one outcome, so the candidates' reported order is determined.
pub proof fn law_similarity_order_unique(hits: Seq<HitView>, o1: Seq<usize>, o2: Seq<usize>)
    requires
        is_similarity_order(hits, o1),
        is_similarity_order(hits, o2),
    ensures
        o1 == o2,
{
    if hits.len() > 0 {
        lemma_orders_agree_upto(hits, o1, o2, hits.len() - 1);
    }
    assert(o1 =~= o2);
}

/// The first position of `order` whose hit has a lower similarity than hit `m`,
/// or the length of `order`.
pub open spec fn first_lower(hits: Seq<HitView>, order: Seq<usize>, m: int) -> int
    decreases order.len(),
{
    if order.len() == 0 {
        0
    } else if similarity_key(hits[order[0] as int]) < similarity_key(hits[m]) {
        0
    } else {
        1 + first_lower(hits, order.drop_first(), m)
    }
}

proof fn lemma_first_lower(hits: Seq<HitView>, order: Seq<usize>, m: int)
    ensures
        0 <= first_lower(hits, order, m) <= order.len(),
        forall|a: int| 0 <= a < first_lower(hits, order, m) ==> similarity_key(hits[#[trigger] order[a] as int]) >= similarity_key(hits[m]),
        first_lower(hits, order, m) < order.len() ==> similarity_key(hits[order[first_lower(hits, order, m)] as int])
            < similarity_key(hits[m]),
    decreases order.len(),
{
    if order.len() > 0 && similarity_key(hits[order[0] as int]) >= similarity_key(hits[m]) {
        lemma_first_lower(hits, order.drop_first(), m);
        assert forall|a: int| 0 <= a < first_lower(hits, order, m) implies similarity_key(hits[#[trigger] order[a] as int])
            >= similarity_key(hits[m]) by {
            if a > 0 {
                assert(order[a] == order.drop_first()[a - 1]);
            }
        }
    }
}

/// `order` lists the first `m` positions of `hits` in similarity order.
pub open spec fn is_partial_similarity_order(hits: Seq<HitView>, order: Seq<usize>, m: int) -> bool {
    &&& order.len() == m
    &&& forall|a: int| 0 <= a < order.len() ==> #[trigger] order[a] < m
    &&& forall|a: int, b: int| 0 <= a < b < order.len() ==> ranks_before(hits, #[trigger] order[a] as int, #[trigger] order[b] as int)
}

proof fn lemma_partial_order_exists(hits: Seq<HitView>, m: int)
    requires
        0 <= m <= hits.len(),
        hits.len() <= usize::MAX,
    ensures
        exists|o: Seq<usize>| is_partial_similarity_order(hits, o, m),
    decreases m,
{
    if m == 0 {
        assert(is_partial_similarity_order(hits, Seq::<usize>::empty(), 0));
    } else {
        lemma_partial_order_exists(hits, m - 1);
        let o = choose|o: Seq<usize>| #[trigger] is_partial_similarity_order(hits, o, m - 1);
        let i = m - 1;
        lemma_first_lower(hits, o, i);
        let p = first_lower(hits, o, i);
        assert forall|a: int| p <= a < o.len() implies similarity_key(hits[#[trigger] o[a] as int]) < similarity_key(hits[i]) by {
            if a > p {
                assert(ranks_before(hits, o[p] as int, o[a] as int));
            }
        }
        let n = o.insert(p, i as usize);
        assert forall|a: int| 0 <= a < n.len() implies #[trigger] n[a] < m by {
            if a < p {
                assert(n[a] == o[a]);
            } else if a > p {
                assert(n[a] == o[a - 1]);
            }
        }
        assert forall|a: int, b: int| 0 <= a < b < n.len() implies ranks_before(hits, #[trigger] n[a] as int, #[trigger] n[b] as int) by {
            if b < p {
                assert(n[a] == o[a]);
                assert(n[b] == o[b]);
            } else if b == p {
                assert(n[a] == o[a]);
                assert(similarity_key(hits[o[a] as int]) >= similarity_key(hits[i]));
            } else if a < p {
                assert(n[a] == o[a]);
                assert(n[b] == o[b - 1]);
                assert(ranks_before(hits, o[a] as int, o[b - 1] as int));
            } else if a == p {
                assert(n[b] == o[b - 1]);
                assert(similarity_key(hits[o[b - 1] as int]) < similarity_key(hits[i]));
            } else {
                assert(n[a] == o[a - 1]);
                assert(n[b] == o[b - 1]);
                assert(ranks_before(hits, o[a - 1] as int, o[b - 1] as int));
            }
        }
        assert(is_partial_similarity_order(hits, n, m));
    }
}

/// Every list of hits that fits in memory has a similarity order.
pub proof fn lemma_similarity_order_exists(hits: Seq<HitView>)
    requires
        hits.len() <= usize::MAX,
    ensures
        exists|o: Seq<usize>| is_similarity_order(hits, o),
{
    lemma_partial_order_exists(hits, hits.len() as int);
    let o = choose|o: Seq<usize>| #[trigger] is_partial_similarity_order(hits, o, hits.len() as int);
    assert(is_similarity_order(hits, o));
}

} // verus!
