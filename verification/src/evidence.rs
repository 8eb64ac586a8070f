//! The evidence record: the face fingerprint, the selected match and a short
//! list of discovered candidates, hashed for recording on a chain.

use vstd::prelude::*;
use vstd::string::*;
use vstd::utf8::encode_utf8;

use crate::digest::{is_lower_hex_digit, sha256_hex_of_str, sha256_hex_text};
use crate::face::{FaceScan, FaceScanView};
use crate::search::{copy_opt_string, FaceCheckStatus, is_social_url, opt_view, social_url, status_text, HitView, SearchHit};

verus! {

/// The most candidates an evidence record lists.
pub const MAX_EVIDENCE_CANDIDATES: usize = 8;

/// One listed candidate of an evidence record.
#[derive(Clone, Debug)]
pub struct EvidenceCandidate {
    /// Position in the list, from 1.
    pub rank: usize,
    pub title: String,
    pub url: String,
    pub source: String,
    pub is_social: bool,
    pub face_check_status: String,
    /// Face similarity, as the bit pattern of an `f32`.
    pub face_similarity: Option<u32>,
}

/// The record whose hash is put on the chain. `created_at_nanos` is the
/// creation time in nanoseconds since the Unix epoch, UTC.
#[derive(Clone, Debug)]
pub struct EvidenceRecord {
    pub schema: String,
    pub created_at_nanos: i64,
    pub face_image_sha256: String,
    pub face_encoding: String,
    pub discovered_title: String,
    pub discovered_url: String,
    pub discovered_source: String,
    pub discovered_snippet: Option<String>,
    pub discovered_image_url: Option<String>,
    pub face_check_status: String,
    /// Face similarity of the selected match, as the bit pattern of an `f32`.
    pub face_similarity: Option<u32>,
    pub discovered_candidates: Vec<EvidenceCandidate>,
}

/// The content of an [`EvidenceCandidate`].
pub struct CandidateView {
    pub rank: usize,
    pub title: Seq<char>,
    pub url: Seq<char>,
    pub source: Seq<char>,
    pub is_social: bool,
    pub face_check_status: Seq<char>,
    pub face_similarity: Option<u32>,
}

impl View for EvidenceCandidate {
    type V = CandidateView;

    open spec fn view(&self) -> CandidateView {
        CandidateView {
            rank: self.rank,
            title: self.title@,
            url: self.url@,
            source: self.source@,
            is_social: self.is_social,
            face_check_status: self.face_check_status@,
            face_similarity: self.face_similarity,
        }
    }
}

/// The content of an [`EvidenceRecord`].
pub struct RecordView {
    pub schema: Seq<char>,
    pub created_at_nanos: i64,
    pub face_image_sha256: Seq<char>,
    pub face_encoding: Seq<char>,
    pub discovered_title: Seq<char>,
    pub discovered_url: Seq<char>,
    pub discovered_source: Seq<char>,
    pub discovered_snippet: Option<Seq<char>>,
    pub discovered_image_url: Option<Seq<char>>,
    pub face_check_status: Seq<char>,
    pub face_similarity: Option<u32>,
    pub discovered_candidates: Seq<CandidateView>,
}

impl View for EvidenceRecord {
    type V = RecordView;

    open spec fn view(&self) -> RecordView {
        RecordView {
            schema: self.schema@,
            created_at_nanos: self.created_at_nanos,
            face_image_sha256: self.face_image_sha256@,
            face_encoding: self.face_encoding@,
            discovered_title: self.discovered_title@,
            discovered_url: self.discovered_url@,
            discovered_source: self.discovered_source@,
            discovered_snippet: opt_view(self.discovered_snippet),
            discovered_image_url: opt_view(self.discovered_image_url),
            face_check_status: self.face_check_status@,
            face_similarity: self.face_similarity,
            discovered_candidates: self.discovered_candidates@.map_values(|c: EvidenceCandidate| c@),
        }
    }
}

/// The listed form of a candidate at a rank.
pub open spec fn candidate_entry(rank: usize, h: HitView) -> CandidateView {
    CandidateView {
        rank,
        title: h.title,
        url: h.url,
        source: h.source,
        is_social: social_url(h.url),
        face_check_status: status_text(h.face_check_status),
        face_similarity: h.face_similarity,
    }
}

/// The evidence record for a face, the selected match and the candidates
/// (the first eight are listed, ranked from 1), made at `created_at_nanos`.
pub open spec fn evidence_of(face: FaceScanView, primary: HitView, candidates: Seq<HitView>, created_at_nanos: i64) -> RecordView {
    let listed = if candidates.len() <= 8 {
        candidates.len()
    } else {
        8
    };
    RecordView {
        schema: "hhgoa-face-chain/evidence-v1"@,
        created_at_nanos,
        face_image_sha256: face.image_sha256,
        face_encoding: face.encoding,
        discovered_title: primary.title,
        discovered_url: primary.url,
        discovered_source: primary.source,
        discovered_snippet: primary.snippet,
        discovered_image_url: primary.image_url,
        face_check_status: status_text(primary.face_check_status),
        face_similarity: primary.face_similarity,
        discovered_candidates: Seq::new(listed, |i: int| candidate_entry((i + 1) as usize, candidates[i])),
    }
}

impl EvidenceRecord {
    /// The evidence record for `face`, the selected match `primary` and the
    /// candidates, made at `created_at_nanos`.
    pub fn new(face: &FaceScan, primary: &SearchHit, candidates: &[&SearchHit], created_at_nanos: i64) -> (res: EvidenceRecord)
        ensures
            res@ == evidence_of(face@, primary@, candidates@.map_values(|h: &SearchHit| h@), created_at_nanos),
    {
        let ghost cv = candidates@.map_values(|h: &SearchHit| h@);
        let mut listed: Vec<EvidenceCandidate> = Vec::new();
        let mut i: usize = 0;
        while i < candidates.len() && i < MAX_EVIDENCE_CANDIDATES
            invariant
                cv == candidates@.map_values(|h: &SearchHit| h@),
                i <= candidates@.len(),
                i <= 8,
                listed@.len() == i,
                forall|k: int| 0 <= k < i ==> (#[trigger] listed@[k])@ == candidate_entry((k + 1) as usize, cv[k]),
            decreases candidates@.len() - i,
        {
            let c = candidates[i];
            assert(cv[i as int] == c@);
            let status = c.face_check_status.as_str();
            listed.push(EvidenceCandidate {
                rank: i + 1,
                title: c.title.clone(),
                url: c.url.clone(),
                source: c.source.clone(),
                is_social: is_social_url(c.url.as_str()),
                face_check_status: String::from_str(status),
                face_similarity: c.face_similarity,
            });
            i = i + 1;
        }
        let res = EvidenceRecord {
            schema: String::from_str("hhgoa-face-chain/evidence-v1"),
            created_at_nanos,
            face_image_sha256: face.image_sha256.clone(),
            face_encoding: face.encoding.clone(),
            discovered_title: primary.title.clone(),
            discovered_url: primary.url.clone(),
            discovered_source: primary.source.clone(),
            discovered_snippet: copy_opt_string(&primary.snippet),
            discovered_image_url: copy_opt_string(&primary.image_url),
            face_check_status: String::from_str(primary.face_check_status.as_str()),
            face_similarity: primary.face_similarity,
            discovered_candidates: listed,
        };
        proof {
            let want = evidence_of(face@, primary@, cv, created_at_nanos);
            assert(res@.discovered_candidates =~= want.discovered_candidates);
        }
        res
    }

    /// The evidence hash: the SHA-256 hex of the record's canonical JSON text.
    pub fn hash_hex(canonical_json: &str) -> (res: String)
        ensures
            res@ == sha256_hex_text(encode_utf8(canonical_json@)),
            res@.len() == 64,
            forall|i: int| 0 <= i < res@.len() ==> is_lower_hex_digit(#[trigger] res@[i]),
    {
        sha256_hex_of_str(canonical_json)
    }
}

/// The evidence record lists the first eight candidates (fewer when there
/// are fewer) in their order, ranked from 1, each with its own title, URL,
/// source, similarity and face-check label (`VERIFIED` for a verified hit,
/// else `DISCOVERED`); the selected match is recorded with its own fields and label.
pub proof fn law_evidence_lists_candidates_as_they_are(
    face: FaceScanView,
    primary: HitView,
    candidates: Seq<HitView>,
    created_at_nanos: i64,
)
    ensures
        ({
            let r = evidence_of(face, primary, candidates, created_at_nanos);
            &&& r.discovered_candidates.len() == if candidates.len() <= 8 {
                candidates.len()
            } else {
                8
            }
            &&& forall|i: int|
                0 <= i < r.discovered_candidates.len() ==> {
                    let c = #[trigger] r.discovered_candidates[i];
                    &&& c.rank == i + 1
                    &&& c.title == candidates[i].title
                    &&& c.url == candidates[i].url
                    &&& c.source == candidates[i].source
                    &&& c.face_similarity == candidates[i].face_similarity
                    &&& c.face_check_status == if candidates[i].face_check_status == FaceCheckStatus::Verified {
                        "VERIFIED"@
                    } else {
                        "DISCOVERED"@
                    }
                }
            &&& r.discovered_title == primary.title
            &&& r.discovered_url == primary.url
            &&& r.discovered_source == primary.source
            &&& r.face_similarity == primary.face_similarity
            &&& r.face_check_status == if primary.face_check_status == FaceCheckStatus::Verified {
                "VERIFIED"@
            } else {
                "DISCOVERED"@
            }
            &&& r.face_image_sha256 == face.image_sha256
            &&& r.face_encoding == face.encoding
        }),
{
}

} // verus!
