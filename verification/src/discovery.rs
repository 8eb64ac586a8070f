//! The reverse-image search as a state machine: the caller reads files, runs
//! `curl` and judges face similarities; the session decides what to do next
//! and builds the report.

use vstd::prelude::*;
use vstd::string::*;

use crate::cli::SearchProvider;
use crate::face::{agreeing_positions, min_int, scan_face_bytes, scan_of, signature_agreement, FaceScan, FaceScanView};
use crate::search::{
    check_image_url, download_args, download_command, face_check_image_url, first_30, fixture_hit, fixture_report,
    hits_of_matches, hits_view, image_upload_command, lens_candidates, lens_report, lens_request_args,
    lens_request_command, lens_url, matches_view, query_from_upload, query_of_upload, query_outcome_view,
    record_face_check, report_of, upload_args, FaceCheckStatus, HitView, QueryView, ReplyFailure, ReportView,
    SearchError, SearchErrorView, SearchHit, SearchReport, SerpApiImageUploadResponse, SerpApiLensQuery,
    SerpApiVisualMatch, UploadView, MAX_UPLOAD_BYTES,
};
use crate::upload::{compress_for_upload, compressed_for_upload, lemma_compressed_fits};

verus! {

/// Where a [`DiscoverySession`] stands.
pub enum DiscoveryStage {
    /// Waiting for the fixture hit.
    AwaitFixture,
    /// Waiting for the size of the image file to upload.
    AwaitImageSize,
    /// Waiting for the bytes of the image file, which has `size` bytes, too
    /// many to upload as it is.
    AwaitImageBytes { size: u64 },
    /// Waiting for the compressed image to be stored for upload.
    AwaitUploadFile,
    /// Waiting for the answer to the image upload.
    AwaitUpload,
    /// Waiting for the Lens results.
    AwaitLensResults,
    /// Waiting for the image of `candidates[index]`; `checked` holds the
    /// candidates before it, face-checked.
    AwaitDownload { candidates: Vec<SearchHit>, checked: Vec<SearchHit>, index: usize },
    /// Waiting for the judgement of `candidates[index]`'s face similarity.
    AwaitJudgement { candidates: Vec<SearchHit>, checked: Vec<SearchHit>, index: usize },
    /// The answer has been given.
    Finished,
}

/// One reverse-image search for an input face.
pub struct DiscoverySession {
    pub api_key: String,
    pub image_path: String,
    pub input_face: FaceScan,
    pub stage: DiscoveryStage,
}

/// What a `curl` run is for, and so how its output is to be read.
#[derive(Clone, Copy, Debug, PartialEq, Eq, Structural)]
pub enum CurlPurpose {
    /// Uploading the image; the output is the upload answer (JSON).
    Upload,
    /// The Lens search; the output is its results (JSON).
    LensSearch,
    /// Downloading a candidate image; the output is the image.
    Download,
}

/// What the caller must do next.
pub enum DiscoveryAction {
    /// Read the fixture file as a hit.
    ReadFixture,
    /// Read the size in bytes of the image file.
    ReadImageSize,
    /// Read the bytes of the image file.
    ReadImage,
    /// Store these bytes (a JPEG file) where `curl` can upload them from.
    StoreUploadImage { bytes: Vec<u8> },
    /// Run `curl` with these arguments and report its output.
    RunCurl { purpose: CurlPurpose, args: Vec<String> },
    /// Decide whether a candidate's face matches: `agreeing` of `compared`
    /// signature positions agree.
    JudgeSimilarity { agreeing: u64, compared: u64 },
    /// The search is over, with this answer.
    Finish { outcome: Result<SearchReport, SearchError> },
}

/// What the caller reports back.
pub enum DiscoveryEvent {
    /// The fixture hit was read.
    FixtureLoaded { hit: SearchHit },
    /// The image file has this many bytes.
    ImageSizeRead { size: u64 },
    /// The image file holds these bytes.
    ImageRead { bytes: Vec<u8> },
    /// The image to upload was stored in the file at `path`.
    UploadImageStored { path: String },
    /// The image upload answered.
    UploadAnswered { outcome: Result<SerpApiImageUploadResponse, ReplyFailure> },
    /// The Lens search answered with these visual matches.
    LensAnswered { outcome: Result<Vec<SerpApiVisualMatch>, ReplyFailure> },
    /// The candidate image was downloaded.
    Downloaded { outcome: Result<Vec<u8>, ReplyFailure> },
    /// The face similarity (bit pattern of an `f32`) and whether it reaches the threshold.
    Judged { similarity_bits: u32, verified: bool },
}

/// The content of a [`DiscoveryStage`].
pub enum StageView {
    AwaitFixture,
    AwaitImageSize,
    AwaitImageBytes(u64),
    AwaitUploadFile,
    AwaitUpload,
    AwaitLensResults,
    AwaitDownload(Seq<HitView>, Seq<HitView>, int),
    AwaitJudgement(Seq<HitView>, Seq<HitView>, int),
    Finished,
}

/// The content of a [`DiscoverySession`].
pub struct SessionView {
    pub api_key: Seq<char>,
    pub image_path: Seq<char>,
    pub input_face: FaceScanView,
    pub stage: StageView,
}

/// The content of a [`DiscoveryAction`].
pub enum ActionView {
    ReadFixture,
    ReadImageSize,
    ReadImage,
    StoreUploadImage(Seq<u8>),
    RunCurl(CurlPurpose, Seq<Seq<char>>),
    JudgeSimilarity(u64, u64),
    Finish(Result<ReportView, SearchErrorView>),
}

/// The content of a [`DiscoveryEvent`].
pub enum EventView {
    FixtureLoaded(HitView),
    ImageSizeRead(u64),
    ImageRead(Seq<u8>),
    UploadImageStored(Seq<char>),
    UploadAnswered(Result<UploadView, ReplyFailure>),
    LensAnswered(Result<Seq<crate::search::VisualMatchView>, ReplyFailure>),
    Downloaded(Result<Seq<u8>, ReplyFailure>),
    Judged(u32, bool),
}

impl View for DiscoveryStage {
    type V = StageView;

    open spec fn view(&self) -> StageView {
        match self {
            DiscoveryStage::AwaitFixture => StageView::AwaitFixture,
            DiscoveryStage::AwaitImageSize => StageView::AwaitImageSize,
            DiscoveryStage::AwaitImageBytes { size } => StageView::AwaitImageBytes(*size),
            DiscoveryStage::AwaitUploadFile => StageView::AwaitUploadFile,
            DiscoveryStage::AwaitUpload => StageView::AwaitUpload,
            DiscoveryStage::AwaitLensResults => StageView::AwaitLensResults,
            DiscoveryStage::AwaitDownload { candidates, checked, index } => StageView::AwaitDownload(
                hits_view(candidates@),
                hits_view(checked@),
                *index as int,
            ),
            DiscoveryStage::AwaitJudgement { candidates, checked, index } => StageView::AwaitJudgement(
                hits_view(candidates@),
                hits_view(checked@),
                *index as int,
            ),
            DiscoveryStage::Finished => StageView::Finished,
        }
    }
}

impl View for DiscoverySession {
    type V = SessionView;

    open spec fn view(&self) -> SessionView {
        SessionView {
            api_key: self.api_key@,
            image_path: self.image_path@,
            input_face: self.input_face@,
            stage: self.stage@,
        }
    }
}

/// The content of a report-or-error outcome.
pub open spec fn outcome_view(o: Result<SearchReport, SearchError>) -> Result<ReportView, SearchErrorView> {
    match o {
        Ok(r) => Ok(r@),
        Err(e) => Err(e@),
    }
}

impl View for DiscoveryAction {
    type V = ActionView;

    open spec fn view(&self) -> ActionView {
        match self {
            DiscoveryAction::ReadFixture => ActionView::ReadFixture,
            DiscoveryAction::ReadImageSize => ActionView::ReadImageSize,
            DiscoveryAction::ReadImage => ActionView::ReadImage,
            DiscoveryAction::StoreUploadImage { bytes } => ActionView::StoreUploadImage(bytes@),
            DiscoveryAction::RunCurl { purpose, args } => ActionView::RunCurl(*purpose, args.deep_view()),
            DiscoveryAction::JudgeSimilarity { agreeing, compared } => ActionView::JudgeSimilarity(*agreeing, *compared),
            DiscoveryAction::Finish { outcome } => ActionView::Finish(outcome_view(*outcome)),
        }
    }
}

impl View for DiscoveryEvent {
    type V = EventView;

    open spec fn view(&self) -> EventView {
        match self {
            DiscoveryEvent::FixtureLoaded { hit } => EventView::FixtureLoaded(hit@),
            DiscoveryEvent::ImageSizeRead { size } => EventView::ImageSizeRead(*size),
            DiscoveryEvent::ImageRead { bytes } => EventView::ImageRead(bytes@),
            DiscoveryEvent::UploadImageStored { path } => EventView::UploadImageStored(path@),
            DiscoveryEvent::UploadAnswered { outcome } => EventView::UploadAnswered(
                match outcome {
                    Ok(r) => Ok(r@),
                    Err(f) => Err(*f),
                },
            ),
            DiscoveryEvent::LensAnswered { outcome } => EventView::LensAnswered(
                match outcome {
                    Ok(ms) => Ok(matches_view(ms@)),
                    Err(f) => Err(*f),
                },
            ),
            DiscoveryEvent::Downloaded { outcome } => EventView::Downloaded(
                match outcome {
                    Ok(b) => Ok(b@),
                    Err(f) => Err(*f),
                },
            ),
            DiscoveryEvent::Judged { similarity_bits, verified } => EventView::Judged(*similarity_bits, *verified),
        }
    }
}

/// The session, with a new stage.
pub open spec fn with_stage(s: SessionView, stage: StageView) -> SessionView {
    SessionView { stage, ..s }
}

/// A hit after its face check: its similarity and verdict recorded.
pub open spec fn checked_hit(h: HitView, similarity_bits: u32, verified: bool) -> HitView {
    HitView {
        face_similarity: Some(similarity_bits),
        face_verified: verified,
        face_check_status: if verified {
            FaceCheckStatus::Verified
        } else {
            FaceCheckStatus::Discovered
        },
        ..h
    }
}

/// Moves on from candidate `i`: candidates without an image to compare are
/// kept as they are; the first one with an image is downloaded; when none is
/// left the report is given.
pub open spec fn advance(s: SessionView, cands: Seq<HitView>, checked: Seq<HitView>, i: int) -> (SessionView, ActionView)
    decreases cands.len() - i,
{
    if i < 0 || i >= cands.len() {
        (with_stage(s, StageView::Finished), ActionView::Finish(Ok(report_of(checked))))
    } else {
        match check_image_url(cands[i]) {
            None => advance(s, cands, checked.push(cands[i]), i + 1),
            Some(u) => (with_stage(s, StageView::AwaitDownload(cands, checked, i)), ActionView::RunCurl(CurlPurpose::Download, download_args(u))),
        }
    }
}

/// Moving on does not depend on the stage the session was in.
pub proof fn lemma_advance_ignores_stage(s: SessionView, stage: StageView, cands: Seq<HitView>, checked: Seq<HitView>, i: int)
    ensures
        advance(with_stage(s, stage), cands, checked, i) == advance(s, cands, checked, i),
    decreases cands.len() - i,
{
    assert(with_stage(with_stage(s, stage), StageView::Finished) == with_stage(s, StageView::Finished));
    if 0 <= i < cands.len() {
        match check_image_url(cands[i]) {
            None => lemma_advance_ignores_stage(s, stage, cands, checked.push(cands[i]), i + 1),
            Some(u) => {
                assert(with_stage(with_stage(s, stage), StageView::AwaitDownload(cands, checked, i)) == with_stage(
                    s,
                    StageView::AwaitDownload(cands, checked, i),
                ));
            },
        }
    }
}

/// The Lens request for a query.
pub open spec fn lens_request(q: QueryView, api_key: Seq<char>) -> ActionView {
    ActionView::RunCurl(CurlPurpose::LensSearch, lens_request_args(lens_url(q.image_id, q.value, api_key)))
}

/// The first stage and action of a search.
pub open spec fn discovery_start(
    provider: SearchProvider,
    image_path: Seq<char>,
    input_face: FaceScanView,
    api_key: Option<Seq<char>>,
    image_url: Option<Seq<char>>,
) -> (SessionView, ActionView) {
    let base = SessionView {
        api_key: match api_key {
            Some(k) => k,
            None => Seq::empty(),
        },
        image_path,
        input_face,
        stage: StageView::Finished,
    };
    match provider {
        SearchProvider::Fixture => (with_stage(base, StageView::AwaitFixture), ActionView::ReadFixture),
        SearchProvider::Serpapi => match api_key {
            None => (base, ActionView::Finish(Err(SearchErrorView::MissingApiKey))),
            Some(k) => match image_url {
                Some(u) => (
                    with_stage(base, StageView::AwaitLensResults),
                    lens_request(QueryView { image_id: false, value: u }, k),
                ),
                None => (with_stage(base, StageView::AwaitImageSize), ActionView::ReadImageSize),
            },
        },
    }
}

/// One step of a search: the stage it moves to and the action it asks for.
pub open spec fn discovery_step(s: SessionView, e: EventView) -> (SessionView, ActionView) {
    let done = with_stage(s, StageView::Finished);
    let unexpected = (done, ActionView::Finish(Err(SearchErrorView::UnexpectedEvent)));
    match s.stage {
        StageView::AwaitFixture => match e {
            EventView::FixtureLoaded(h) => (
                done,
                ActionView::Finish(Ok(ReportView { selected: Some(fixture_hit(h)), candidates: seq![fixture_hit(h)] })),
            ),
            _ => unexpected,
        },
        StageView::AwaitImageSize => match e {
            EventView::ImageSizeRead(size) => if size > MAX_UPLOAD_BYTES {
                (with_stage(s, StageView::AwaitImageBytes(size)), ActionView::ReadImage)
            } else {
                (with_stage(s, StageView::AwaitUpload), ActionView::RunCurl(CurlPurpose::Upload, upload_args(s.image_path, s.api_key)))
            },
            _ => unexpected,
        },
        StageView::AwaitImageBytes(size) => match e {
            EventView::ImageRead(bytes) => match compressed_for_upload(bytes) {
                None => (done, ActionView::Finish(Err(SearchErrorView::ImageTooLarge(s.image_path, size / 1024)))),
                Some(jpeg) => (with_stage(s, StageView::AwaitUploadFile), ActionView::StoreUploadImage(jpeg)),
            },
            _ => unexpected,
        },
        StageView::AwaitUploadFile => match e {
            EventView::UploadImageStored(path) => (
                with_stage(s, StageView::AwaitUpload),
                ActionView::RunCurl(CurlPurpose::Upload, upload_args(path, s.api_key)),
            ),
            _ => unexpected,
        },
        StageView::AwaitUpload => match e {
            EventView::UploadAnswered(Err(f)) => (done, ActionView::Finish(Err(SearchErrorView::UploadFailed(f)))),
            EventView::UploadAnswered(Ok(r)) => match query_of_upload(r) {
                Err(err) => (done, ActionView::Finish(Err(err))),
                Ok(q) => (with_stage(s, StageView::AwaitLensResults), lens_request(q, s.api_key)),
            },
            _ => unexpected,
        },
        StageView::AwaitLensResults => match e {
            EventView::LensAnswered(Err(f)) => (done, ActionView::Finish(Err(SearchErrorView::LensFailed(f)))),
            EventView::LensAnswered(Ok(ms)) => advance(s, first_30(hits_of_matches(ms)), Seq::empty(), 0),
            _ => unexpected,
        },
        StageView::AwaitDownload(c, k, i) => match e {
            EventView::Downloaded(outcome) => if i < 0 || i >= c.len() {
                unexpected
            } else {
                let skip = advance(s, c, k.push(c[i]), i + 1);
                match outcome {
                    Err(_) => skip,
                    Ok(bytes) => match check_image_url(c[i]) {
                        None => skip,
                        Some(u) => match scan_of(u, bytes) {
                            Err(_) => skip,
                            Ok(cf) => {
                                let n = min_int(s.input_face.signature.len() as int, cf.signature.len() as int);
                                (
                                    with_stage(s, StageView::AwaitJudgement(c, k, i)),
                                    ActionView::JudgeSimilarity(
                                        agreeing_positions(s.input_face.signature, cf.signature, n as nat) as u64,
                                        n as u64,
                                    ),
                                )
                            },
                        },
                    },
                }
            },
            _ => unexpected,
        },
        StageView::AwaitJudgement(c, k, i) => match e {
            EventView::Judged(bits, verified) => if i < 0 || i >= c.len() {
                unexpected
            } else {
                advance(s, c, k.push(checked_hit(c[i], bits, verified)), i + 1)
            },
            _ => unexpected,
        },
        StageView::Finished => unexpected,
    }
}

/// Starts a reverse-image search for `input_face` with `provider`: the fixture
/// hit, or SerpAPI Google Lens on the public `image_url` or on the image at
/// `image_path` uploaded with `serpapi_key`. Returns the session and its first action.
pub fn find_match(
    provider: &SearchProvider,
    image_path: &str,
    input_face: &FaceScan,
    serpapi_key: Option<&str>,
    image_url: Option<&str>,
) -> (res: (DiscoverySession, DiscoveryAction))
    ensures
        (res.0@, res.1@) == discovery_start(
            *provider,
            image_path@,
            input_face@,
            match serpapi_key {
                Some(k) => Some(k@),
                None => None,
            },
            match image_url {
                Some(u) => Some(u@),
                None => None,
            },
        ),
{
    let api_key = match serpapi_key {
        Some(k) => String::from_str(k),
        None => String::new(),
    };
    let mut session = DiscoverySession {
        api_key,
        image_path: String::from_str(image_path),
        input_face: input_face.duplicate(),
        stage: DiscoveryStage::Finished,
    };
    match provider {
        SearchProvider::Fixture => {
            session.stage = DiscoveryStage::AwaitFixture;
            (session, DiscoveryAction::ReadFixture)
        },
        SearchProvider::Serpapi => match serpapi_key {
            None => (session, DiscoveryAction::Finish { outcome: Err(SearchError::MissingApiKey) }),
            Some(k) => match image_url {
                Some(u) => {
                    let query = SerpApiLensQuery::Url(String::from_str(u));
                    let url = query.google_lens_url(k);
                    session.stage = DiscoveryStage::AwaitLensResults;
                    (session, DiscoveryAction::RunCurl { purpose: CurlPurpose::LensSearch, args: lens_request_command(url.as_str()) })
                },
                None => {
                    session.stage = DiscoveryStage::AwaitImageSize;
                    (session, DiscoveryAction::ReadImageSize)
                },
            },
        },
    }
}

impl DiscoverySession {
    /// Whether the search has given its answer.
    pub fn is_finished(&self) -> (res: bool)
        ensures
            res == (self.stage@ is Finished),
    {
        match self.stage {
            DiscoveryStage::Finished => true,
            _ => false,
        }
    }

    /// Takes the caller's report of the last action and returns the next action.
    pub fn step(&mut self, event: DiscoveryEvent) -> (action: DiscoveryAction)
        ensures
            (final(self)@, action@) == discovery_step(old(self)@, event@),
    {
        let mut stage = DiscoveryStage::Finished;
        std::mem::swap(&mut stage, &mut self.stage);
        let unexpected = DiscoveryAction::Finish { outcome: Err(SearchError::UnexpectedEvent) };
        match stage {
            DiscoveryStage::AwaitFixture => match event {
                DiscoveryEvent::FixtureLoaded { hit } => DiscoveryAction::Finish { outcome: Ok(fixture_report(hit)) },
                _ => unexpected,
            },
            DiscoveryStage::AwaitImageSize => match event {
                DiscoveryEvent::ImageSizeRead { size } => if size > MAX_UPLOAD_BYTES {
                    self.stage = DiscoveryStage::AwaitImageBytes { size };
                    DiscoveryAction::ReadImage
                } else {
                    let args = image_upload_command(self.image_path.as_str(), self.api_key.as_str());
                    self.stage = DiscoveryStage::AwaitUpload;
                    DiscoveryAction::RunCurl { purpose: CurlPurpose::Upload, args }
                },
                _ => unexpected,
            },
            DiscoveryStage::AwaitImageBytes { size } => match event {
                DiscoveryEvent::ImageRead { bytes } => match compress_for_upload(bytes.as_slice()) {
                    None => DiscoveryAction::Finish {
                        outcome: Err(SearchError::ImageTooLarge {
                            path: String::from_str(self.image_path.as_str()),
                            size_kb: size / 1024,
                        }),
                    },
                    Some(jpeg) => {
                        self.stage = DiscoveryStage::AwaitUploadFile;
                        DiscoveryAction::StoreUploadImage { bytes: jpeg }
                    },
                },
                _ => unexpected,
            },
            DiscoveryStage::AwaitUploadFile => match event {
                DiscoveryEvent::UploadImageStored { path } => {
                    let args = image_upload_command(path.as_str(), self.api_key.as_str());
                    self.stage = DiscoveryStage::AwaitUpload;
                    DiscoveryAction::RunCurl { purpose: CurlPurpose::Upload, args }
                },
                _ => unexpected,
            },
            DiscoveryStage::AwaitUpload => match event {
                DiscoveryEvent::UploadAnswered { outcome: Err(failure) } => DiscoveryAction::Finish {
                    outcome: Err(SearchError::UploadFailed { failure }),
                },
                DiscoveryEvent::UploadAnswered { outcome: Ok(response) } => match query_from_upload(response) {
                    Err(e) => DiscoveryAction::Finish { outcome: Err(e) },
                    Ok(query) => {
                        let url = query.google_lens_url(self.api_key.as_str());
                        self.stage = DiscoveryStage::AwaitLensResults;
                        DiscoveryAction::RunCurl { purpose: CurlPurpose::LensSearch, args: lens_request_command(url.as_str()) }
                    },
                },
                _ => unexpected,
            },
            DiscoveryStage::AwaitLensResults => match event {
                DiscoveryEvent::LensAnswered { outcome: Err(failure) } => DiscoveryAction::Finish {
                    outcome: Err(SearchError::LensFailed { failure }),
                },
                DiscoveryEvent::LensAnswered { outcome: Ok(matches) } => {
                    let candidates = lens_candidates(matches);
                    let none: Vec<SearchHit> = Vec::new();
                    proof {
                        assert(hits_view(none@) == Seq::<HitView>::empty());
                        lemma_advance_ignores_stage(self@, old(self)@.stage, hits_view(candidates@), Seq::empty(), 0);
                        assert(with_stage(self@, old(self)@.stage) == old(self)@);
                    }
                    self.advance_from(candidates, none, 0)
                },
                _ => unexpected,
            },
            DiscoveryStage::AwaitDownload { candidates, checked, index } => match event {
                DiscoveryEvent::Downloaded { outcome } => self.on_download(candidates, checked, index, outcome),
                _ => unexpected,
            },
            DiscoveryStage::AwaitJudgement { candidates, checked, index } => match event {
                DiscoveryEvent::Judged { similarity_bits, verified } => self.on_judgement(
                    candidates,
                    checked,
                    index,
                    similarity_bits,
                    verified,
                ),
                _ => unexpected,
            },
            DiscoveryStage::Finished => unexpected,
        }
    }

    /// Handles the download of `candidates[index]`'s image.
    fn on_download(
        &mut self,
        candidates: Vec<SearchHit>,
        checked: Vec<SearchHit>,
        index: usize,
        outcome: Result<Vec<u8>, ReplyFailure>,
    ) -> (action: DiscoveryAction)
        requires
            old(self).stage@ is Finished,
        ensures
            (final(self)@, action@) == discovery_step(
                with_stage(old(self)@, StageView::AwaitDownload(hits_view(candidates@), hits_view(checked@), index as int)),
                EventView::Downloaded(
                    match outcome {
                        Ok(b) => Ok(b@),
                        Err(f) => Err(f),
                    },
                ),
            ),
    {
        let ghost s0 = self@;
        let ghost cv = hits_view(candidates@);
        let ghost kv = hits_view(checked@);
        if index >= candidates.len() {
            return DiscoveryAction::Finish { outcome: Err(SearchError::UnexpectedEvent) };
        }
        proof {
            assert(cv[index as int] == candidates@[index as int]@);
        }
        let face_check = match outcome {
            Err(_) => None,
            Ok(bytes) => match face_check_image_url(&candidates[index]) {
                None => None,
                Some(u) => match scan_face_bytes(u.clone(), bytes.as_slice()) {
                    Err(_) => None,
                    Ok(candidate_face) => Some(signature_agreement(&self.input_face, &candidate_face)),
                },
            },
        };
        match face_check {
            Some((agreeing, compared)) => {
                self.stage = DiscoveryStage::AwaitJudgement { candidates, checked, index };
                DiscoveryAction::JudgeSimilarity { agreeing, compared }
            },
            None => {
                let mut checked = checked;
                checked.push(candidates[index].duplicate());
                proof {
                    assert(hits_view(checked@) == kv.push(cv[index as int]));
                    lemma_advance_ignores_stage(
                        self@,
                        StageView::AwaitDownload(cv, kv, index as int),
                        cv,
                        hits_view(checked@),
                        index + 1,
                    );
                }
                self.advance_from(candidates, checked, index + 1)
            },
        }
    }

    /// Handles the judgement of `candidates[index]`'s face similarity.
    fn on_judgement(
        &mut self,
        candidates: Vec<SearchHit>,
        checked: Vec<SearchHit>,
        index: usize,
        similarity_bits: u32,
        verified: bool,
    ) -> (action: DiscoveryAction)
        requires
            old(self).stage@ is Finished,
        ensures
            (final(self)@, action@) == discovery_step(
                with_stage(old(self)@, StageView::AwaitJudgement(hits_view(candidates@), hits_view(checked@), index as int)),
                EventView::Judged(similarity_bits, verified),
            ),
    {
        let ghost cv = hits_view(candidates@);
        let ghost kv = hits_view(checked@);
        if index >= candidates.len() {
            return DiscoveryAction::Finish { outcome: Err(SearchError::UnexpectedEvent) };
        }
        proof {
            assert(cv[index as int] == candidates@[index as int]@);
        }
        let hit = record_face_check(candidates[index].duplicate(), similarity_bits, verified);
        let mut checked = checked;
        checked.push(hit);
        proof {
            assert(hits_view(checked@) == kv.push(checked_hit(cv[index as int], similarity_bits, verified)));
            lemma_advance_ignores_stage(self@, StageView::AwaitJudgement(cv, kv, index as int), cv, hits_view(checked@), index + 1);
        }
        self.advance_from(candidates, checked, index + 1)
    }

    /// Moves on from candidate `index` (see [`advance`]).
    fn advance_from(&mut self, candidates: Vec<SearchHit>, checked_so_far: Vec<SearchHit>, index: usize) -> (action: DiscoveryAction)
        requires
            old(self).stage@ is Finished,
        ensures
            (final(self)@, action@) == advance(old(self)@, hits_view(candidates@), hits_view(checked_so_far@), index as int),
    {
        let ghost s0 = self@;
        let ghost cv = hits_view(candidates@);
        let ghost start = hits_view(checked_so_far@);
        let mut checked = checked_so_far;
        let mut i = index;
        while i < candidates.len()
            invariant
                self@ == s0,
                s0 == old(self)@,
                s0.stage is Finished,
                cv == hits_view(candidates@),
                i >= index,
                start == hits_view(checked_so_far@),
                advance(s0, cv, hits_view(checked@), i as int) == advance(s0, cv, start, index as int),
            decreases candidates@.len() - i,
        {
            let has_image = face_check_image_url(&candidates[i]).is_some();
            proof {
                assert(cv[i as int] == candidates@[i as int]@);
            }
            if has_image {
                proof {
                    assert(s0 == with_stage(s0, StageView::Finished));
                }
                let url = match face_check_image_url(&candidates[i]) {
                    Some(u) => u.clone(),
                    None => String::new(),
                };
                let args = download_command(url.as_str());
                let ghost kv = hits_view(checked@);
                proof {
                    assert(check_image_url(cv[i as int]) == Some(url@));
                    assert(advance(s0, cv, kv, i as int) == (
                        with_stage(s0, StageView::AwaitDownload(cv, kv, i as int)),
                        ActionView::RunCurl(CurlPurpose::Download, download_args(url@)),
                    ));
                }
                self.stage = DiscoveryStage::AwaitDownload { candidates, checked, index: i };
                proof {
                    assert(self@ == with_stage(s0, StageView::AwaitDownload(cv, kv, i as int)));
                }
                return DiscoveryAction::RunCurl { purpose: CurlPurpose::Download, args };
            }
            let ghost before = hits_view(checked@);
            let h = candidates[i].duplicate();
            checked.push(h);
            proof {
                assert(hits_view(checked@) == before.push(cv[i as int]));
            }
            i = i + 1;
        }
        let report = lens_report(checked);
        DiscoveryAction::Finish { outcome: Ok(report) }
    }
}

// ---------------------------------------------------------------------------
// Laws
// ---------------------------------------------------------------------------

/// A hit shows `VERIFIED` exactly when its face was verified.
pub open spec fn status_matches_verdict(h: HitView) -> bool {
    (h.face_check_status == FaceCheckStatus::Verified) == h.face_verified
}

/// Every hit of the list shows `VERIFIED` exactly when its face was verified.
pub open spec fn all_status_match(hits: Seq<HitView>) -> bool {
    forall|i: int| 0 <= i < hits.len() ==> status_matches_verdict(#[trigger] hits[i])
}

/// The hits a session holds show `VERIFIED` exactly when verified.
pub open spec fn session_statuses_match(s: SessionView) -> bool {
    match s.stage {
        StageView::AwaitDownload(c, k, i) => all_status_match(c) && all_status_match(k) && k.len() == i && i < c.len()
            && c.len() <= usize::MAX,
        StageView::AwaitJudgement(c, k, i) => all_status_match(c) && all_status_match(k) && k.len() == i && i < c.len()
            && c.len() <= usize::MAX,
        _ => true,
    }
}

/// A report whose hits all show `VERIFIED` exactly when verified.
pub open spec fn report_statuses_match(r: ReportView) -> bool {
    all_status_match(r.candidates) && (r.selected matches Some(h) ==> status_matches_verdict(h))
}

proof fn lemma_report_of_statuses(hits: Seq<HitView>)
    requires
        all_status_match(hits),
        hits.len() <= usize::MAX,
    ensures
        report_statuses_match(report_of(hits)),
{
    crate::search::law_selection_prefers_verified_social(hits);
    let o = choose|o: Seq<usize>| crate::search::is_similarity_order(hits, o);
    if exists|o: Seq<usize>| crate::search::is_similarity_order(hits, o) {
        let sorted = crate::search::similarity_sorted(hits);
        assert forall|i: int| 0 <= i < sorted.len() implies status_matches_verdict(#[trigger] sorted[i]) by {
            assert(sorted[i] == hits[o[i] as int]);
        }
    } else {
        crate::search::lemma_similarity_order_exists(hits);
    }
}

proof fn lemma_advance_statuses(s: SessionView, cands: Seq<HitView>, checked: Seq<HitView>, i: int)
    requires
        all_status_match(cands),
        all_status_match(checked),
        0 <= i <= cands.len(),
        checked.len() == i,
        cands.len() <= usize::MAX,
    ensures
        session_statuses_match(advance(s, cands, checked, i).0),
        advance(s, cands, checked, i).1 matches ActionView::Finish(Ok(r)) ==> report_statuses_match(r),
    decreases cands.len() - i,
{
    if i < 0 || i >= cands.len() {
        lemma_report_of_statuses(checked);
    } else {
        match check_image_url(cands[i]) {
            None => {
                let k2 = checked.push(cands[i]);
                assert forall|j: int| 0 <= j < k2.len() implies status_matches_verdict(#[trigger] k2[j]) by {
                    if j < checked.len() {
                        assert(k2[j] == checked[j]);
                    }
                }
                lemma_advance_statuses(s, cands, k2, i + 1);
            },
            Some(u) => {},
        }
    }
}

proof fn lemma_push_status(k: Seq<HitView>, h: HitView)
    requires
        all_status_match(k),
        status_matches_verdict(h),
    ensures
        all_status_match(k.push(h)),
{
    let k2 = k.push(h);
    assert forall|j: int| 0 <= j < k2.len() implies status_matches_verdict(#[trigger] k2[j]) by {
        if j < k.len() {
            assert(k2[j] == k[j]);
        }
    }
}

/// Only a successful face check marks a hit `VERIFIED`: in every session state
/// and in every report a search gives, a hit shows `VERIFIED` exactly when its
/// face was verified, and every other hit stays `DISCOVERED`.
pub proof fn law_verified_label_follows_face_check(s: SessionView, e: EventView)
    requires
        session_statuses_match(s),
    ensures
        session_statuses_match(discovery_step(s, e).0),
        discovery_step(s, e).1 matches ActionView::Finish(Ok(r)) ==> report_statuses_match(r),
{
    match s.stage {
        StageView::AwaitFixture => {
            if let EventView::FixtureLoaded(h) = e {
                let r = ReportView { selected: Some(fixture_hit(h)), candidates: seq![fixture_hit(h)] };
                assert(r.candidates[0] == fixture_hit(h));
                assert(report_statuses_match(r));
            }
        },
        StageView::AwaitLensResults => {
            if let EventView::LensAnswered(Ok(ms)) = e {
                let all = hits_of_matches(ms);
                crate::search::law_lens_candidates_unchecked(ms);
                let c = first_30(all);
                assert forall|j: int| 0 <= j < c.len() implies status_matches_verdict(#[trigger] c[j]) by {
                    assert(c[j] == all[j]);
                }
                lemma_advance_statuses(s, c, Seq::empty(), 0);
            }
        },
        StageView::AwaitDownload(c, k, i) => {
            if let EventView::Downloaded(outcome) = e {
                if 0 <= i < c.len() {
                    lemma_push_status(k, c[i]);
                    lemma_advance_statuses(s, c, k.push(c[i]), i + 1);
                }
            }
        },
        StageView::AwaitJudgement(c, k, i) => {
            if let EventView::Judged(bits, verified) = e {
                if 0 <= i < c.len() {
                    lemma_push_status(k, checked_hit(c[i], bits, verified));
                    lemma_advance_statuses(s, c, k.push(checked_hit(c[i], bits, verified)), i + 1);
                }
            }
        },
        _ => {},
    }
}

/// A search starts in a state where every held hit shows `VERIFIED` exactly
/// when verified (it holds none yet).
pub proof fn law_discovery_start_statuses(
    provider: SearchProvider,
    image_path: Seq<char>,
    input_face: FaceScanView,
    api_key: Option<Seq<char>>,
    image_url: Option<Seq<char>>,
)
    ensures
        session_statuses_match(discovery_start(provider, image_path, input_face, api_key, image_url).0),
{
}

/// A search without an API key is refused at once, before any request.
pub proof fn law_serpapi_needs_key(image_path: Seq<char>, input_face: FaceScanView, image_url: Option<Seq<char>>)
    ensures
        discovery_start(SearchProvider::Serpapi, image_path, input_face, None, image_url).1 == ActionView::Finish(
            Err(SearchErrorView::MissingApiKey),
        ),
{
}

/// An image of at most 500 KB is uploaded as it is, from its own file.
pub proof fn law_small_images_are_uploaded_as_they_are(s: SessionView, size: u64)
    requires
        s.stage is AwaitImageSize,
        size <= MAX_UPLOAD_BYTES,
    ensures
        discovery_step(s, EventView::ImageSizeRead(size)).1 == ActionView::RunCurl(
            CurlPurpose::Upload,
            upload_args(s.image_path, s.api_key),
        ),
{
}

/// An image over 500 KB is compressed before upload: the session reads it,
/// asks for its JPEG re-encoding of at most 500 KB to be stored, and uploads
/// that file; only when no re-encoding fits does the search end with
/// `ImageTooLarge`, giving the size in whole KiB.
pub proof fn law_large_images_are_compressed(s: SessionView, size: u64, bytes: Seq<u8>, stored_at: Seq<char>)
    requires
        s.stage is AwaitImageSize,
        size > MAX_UPLOAD_BYTES,
    ensures
        ({
            let (s1, a1) = discovery_step(s, EventView::ImageSizeRead(size));
            let (s2, a2) = discovery_step(s1, EventView::ImageRead(bytes));
            let (s3, a3) = discovery_step(s2, EventView::UploadImageStored(stored_at));
            &&& a1 == ActionView::ReadImage
            &&& match compressed_for_upload(bytes) {
                Some(jpeg) => {
                    &&& a2 == ActionView::StoreUploadImage(jpeg)
                    &&& jpeg.len() <= MAX_UPLOAD_BYTES
                    &&& a3 == ActionView::RunCurl(CurlPurpose::Upload, upload_args(stored_at, s.api_key))
                    &&& s3.stage is AwaitUpload
                },
                None => a2 == ActionView::Finish(Err(SearchErrorView::ImageTooLarge(s.image_path, size / 1024))),
            }
        }),
{
    lemma_compressed_fits(bytes);
}

proof fn lemma_advance_stores_nothing(s: SessionView, cands: Seq<HitView>, checked: Seq<HitView>, i: int)
    ensures
        !(advance(s, cands, checked, i).1 is StoreUploadImage),
    decreases cands.len() - i,
{
    if 0 <= i < cands.len() {
        lemma_advance_stores_nothing(s, cands, checked.push(cands[i]), i + 1);
    }
}

/// Whatever the session asks to store for upload is at most 500 KB.
pub proof fn law_stored_upload_fits(s: SessionView, e: EventView)
    ensures
        discovery_step(s, e).1 matches ActionView::StoreUploadImage(b) ==> b.len() <= MAX_UPLOAD_BYTES,
{
    match s.stage {
        StageView::AwaitImageBytes(_) => {
            if let EventView::ImageRead(bytes) = e {
                lemma_compressed_fits(bytes);
            }
        },
        StageView::AwaitLensResults => {
            if let EventView::LensAnswered(Ok(ms)) = e {
                lemma_advance_stores_nothing(s, first_30(hits_of_matches(ms)), Seq::empty(), 0);
            }
        },
        StageView::AwaitDownload(c, k, i) => {
            if 0 <= i < c.len() {
                lemma_advance_stores_nothing(s, c, k.push(c[i]), i + 1);
            }
        },
        StageView::AwaitJudgement(c, k, i) => {
            if let EventView::Judged(bits, verified) = e {
                lemma_advance_stores_nothing(s, c, k.push(checked_hit(c[i], bits, verified)), i + 1);
            }
        },
        _ => {},
    }
}

/// Moving on to a candidate downloads its full image when it has one, and
/// its thumbnail only when it has no full image; a candidate with neither is
/// kept unchecked and the next one is taken.
pub proof fn law_face_check_prefers_full_image(s: SessionView, cands: Seq<HitView>, checked: Seq<HitView>, i: int)
    requires
        0 <= i < cands.len(),
    ensures
        cands[i].verification_image_url matches Some(full) ==> advance(s, cands, checked, i).1 == ActionView::RunCurl(
            CurlPurpose::Download,
            seq!["-L"@, "-sS"@, "--fail"@, "--max-time"@, "5"@, full],
        ),
        cands[i].verification_image_url is None ==> (cands[i].image_url matches Some(thumb) ==> advance(
            s,
            cands,
            checked,
            i,
        ).1 == ActionView::RunCurl(CurlPurpose::Download, seq!["-L"@, "-sS"@, "--fail"@, "--max-time"@, "5"@, thumb])),
        (cands[i].verification_image_url is None && cands[i].image_url is None) ==> advance(s, cands, checked, i)
            == advance(s, cands, checked.push(cands[i]), i + 1),
{
}

} // verus!
