//! Recording an evidence hash on a chain and re-verifying it.
//!
//! Two providers: a local hash-linked block list, and Solana memo
//! transactions issued through the `solana` command line tool. Both are
//! driven by [`ChainSession`], a state machine whose actions (load or store
//! the local chain, run a `solana` command, finish) the caller performs and
//! whose events (what was loaded, what a command printed) it hands back.

use vstd::prelude::*;
use vstd::string::*;
use vstd::slice::slice_subrange;
use vstd::utf8::encode_utf8;

use crate::cli::ChainProvider;
use crate::digest::{is_lower_hex_digit, sha256_hex_of_str, sha256_hex_text};
use crate::text::{
    chars_of, contains_text, decimal, line_ranges, lines, push_char, push_decimal, ranges_view,
    str_contains, string_of, trim, trim_bounds, trim_str, utf8_len, utf8_len_exceeds,
};

verus! {

// ---------------------------------------------------------------------------
// Receipts
// ---------------------------------------------------------------------------

/// What a provider reports after recording an evidence hash.
#[derive(Clone, Debug)]
pub struct ChainReceipt {
    pub provider: String,
    pub record_id: String,
    pub evidence_hash: String,
    pub verification: String,
}

/// The text content of a [`ChainReceipt`].
pub struct ReceiptView {
    pub provider: Seq<char>,
    pub record_id: Seq<char>,
    pub evidence_hash: Seq<char>,
    pub verification: Seq<char>,
}

impl View for ChainReceipt {
    type V = ReceiptView;

    open spec fn view(&self) -> ReceiptView {
        ReceiptView {
            provider: self.provider@,
            record_id: self.record_id@,
            evidence_hash: self.evidence_hash@,
            verification: self.verification@,
        }
    }
}

/// Why recording or re-verifying failed.
#[derive(Clone, Debug)]
pub enum ChainError {
    /// No block of the local chain holds the evidence hash with a valid block hash.
    LocalVerificationFailed,
    /// A `solana` command could not be run or reported failure.
    Solana { step: SolanaStep, failure: CommandFailure },
    /// The confirmed transaction does not carry the expected memo.
    MemoNotFound,
    /// The session was handed an event it was not waiting for.
    UnexpectedEvent,
}

/// The `solana` command a failure belongs to.
#[derive(Clone, Copy, Debug, PartialEq, Eq, Structural)]
pub enum SolanaStep {
    ReadingAddress,
    SubmittingMemo,
    FetchingTransaction,
}

/// How an external command failed.
#[derive(Clone, Debug)]
pub enum CommandFailure {
    /// The command could not be started; the text describes why.
    Launch { detail: String },
    /// The command exited unsuccessfully; its trimmed standard error.
    Failed { stderr: String },
}

/// The text content of a receipt-or-error outcome.
pub open spec fn outcome_view(o: Result<ChainReceipt, ChainError>) -> Result<ReceiptView, ChainError> {
    match o {
        Ok(r) => Ok(r@),
        Err(e) => Err(e),
    }
}

// ---------------------------------------------------------------------------
// Local blocks
// ---------------------------------------------------------------------------

/// One block of the local chain. `created_at_nanos` is the creation time in
/// nanoseconds since the Unix epoch, UTC.
#[derive(Clone, Debug)]
pub struct LocalBlock {
    pub height: u64,
    pub created_at_nanos: i64,
    pub previous_hash: String,
    pub evidence_hash: String,
    pub block_hash: String,
}

/// The content of a [`LocalBlock`].
pub struct BlockView {
    pub height: u64,
    pub created_at_nanos: i64,
    pub previous_hash: Seq<char>,
    pub evidence_hash: Seq<char>,
    pub block_hash: Seq<char>,
}

impl View for LocalBlock {
    type V = BlockView;

    open spec fn view(&self) -> BlockView {
        BlockView {
            height: self.height,
            created_at_nanos: self.created_at_nanos,
            previous_hash: self.previous_hash@,
            evidence_hash: self.evidence_hash@,
            block_hash: self.block_hash@,
        }
    }
}

/// The content of a list of blocks.
pub open spec fn blocks_view(blocks: Seq<LocalBlock>) -> Seq<BlockView> {
    blocks.map_values(|b: LocalBlock| b@)
}

/// The RFC 3339 text of a UTC instant given in nanoseconds since the epoch, as
/// chrono's `DateTime::<Utc>::from_timestamp_nanos(n).to_rfc3339()` writes it.
pub uninterp spec fn rfc3339_utc(nanos: i64) -> Seq<char>;

/// Calls chrono's `DateTime::<Utc>::from_timestamp_nanos` (which never fails on
/// an `i64`) and `to_rfc3339`; claims the text is `rfc3339_utc(nanos)`.
#[verifier::external_body]
fn rfc3339_from_nanos(nanos: i64) -> (res: String)
    ensures
        res@ == rfc3339_utc(nanos),
{
    chrono::DateTime::<chrono::Utc>::from_timestamp_nanos(nanos).to_rfc3339()
}

/// The text a block hash is computed over: `height|created_at|previous|evidence`.
pub open spec fn block_payload(
    height: u64,
    created_at_nanos: i64,
    previous_hash: Seq<char>,
    evidence_hash: Seq<char>,
) -> Seq<char> {
    decimal(height as nat) + seq!['|'] + rfc3339_utc(created_at_nanos) + seq!['|'] + previous_hash
        + seq!['|'] + evidence_hash
}

/// The hash a block with these fields must carry.
pub open spec fn block_hash_text(
    height: u64,
    created_at_nanos: i64,
    previous_hash: Seq<char>,
    evidence_hash: Seq<char>,
) -> Seq<char> {
    sha256_hex_text(encode_utf8(block_payload(height, created_at_nanos, previous_hash, evidence_hash)))
}

/// A block whose stored hash is the hash of its own fields.
pub open spec fn block_is_sealed(b: BlockView) -> bool {
    b.block_hash == block_hash_text(b.height, b.created_at_nanos, b.previous_hash, b.evidence_hash)
}

/// The chain holds a sealed block carrying `evidence_hash` (what the local
/// provider checks after writing).
pub open spec fn chain_records(chain: Seq<BlockView>, evidence_hash: Seq<char>) -> bool {
    exists|i: int| 0 <= i < chain.len() && (#[trigger] chain[i]).evidence_hash == evidence_hash
        && block_is_sealed(chain[i])
}

/// The previous hash a new block gets: the last block's hash, or `GENESIS`.
pub open spec fn next_previous_hash(chain: Seq<BlockView>) -> Seq<char> {
    if chain.len() == 0 {
        "GENESIS"@
    } else {
        chain.last().block_hash
    }
}

/// The block appended to `chain` for `evidence_hash` at time `created_at_nanos`.
pub open spec fn next_block(chain: Seq<BlockView>, evidence_hash: Seq<char>, created_at_nanos: i64) -> BlockView {
    let height = chain.len() as u64;
    let prev = next_previous_hash(chain);
    BlockView {
        height,
        created_at_nanos,
        previous_hash: prev,
        evidence_hash,
        block_hash: block_hash_text(height, created_at_nanos, prev, evidence_hash),
    }
}

impl LocalBlock {
    /// A sealed block: its hash is computed over its other fields.
    pub fn new(height: u64, previous_hash: String, evidence_hash: String, created_at_nanos: i64) -> (res: LocalBlock)
        ensures
            res.height == height,
            res.created_at_nanos == created_at_nanos,
            res.previous_hash@ == previous_hash@,
            res.evidence_hash@ == evidence_hash@,
            block_is_sealed(res@),
    {
        let mut block = LocalBlock {
            height,
            created_at_nanos,
            previous_hash,
            evidence_hash,
            block_hash: String::new(),
        };
        block.block_hash = block.compute_hash();
        block
    }

    /// The SHA-256 hex of `height|created_at (RFC 3339)|previous_hash|evidence_hash`.
    pub fn compute_hash(&self) -> (res: String)
        ensures
            res@ == block_hash_text(self.height, self.created_at_nanos, self.previous_hash@, self.evidence_hash@),
            res@.len() == 64,
            forall|i: int| 0 <= i < res@.len() ==> is_lower_hex_digit(#[trigger] res@[i]),
    {
        let mut payload = String::new();
        push_decimal(&mut payload, self.height);
        push_char(&mut payload, '|');
        let created = rfc3339_from_nanos(self.created_at_nanos);
        payload.append(created.as_str());
        push_char(&mut payload, '|');
        payload.append(self.previous_hash.as_str());
        push_char(&mut payload, '|');
        payload.append(self.evidence_hash.as_str());
        proof {
            assert(payload@ == block_payload(self.height, self.created_at_nanos, self.previous_hash@, self.evidence_hash@));
        }
        sha256_hex_of_str(payload.as_str())
    }

    /// Whether the stored hash is the hash of the block's fields.
    pub fn is_sealed(&self) -> (res: bool)
        ensures
            res == block_is_sealed(self@),
    {
        let h = self.compute_hash();
        h == self.block_hash
    }
}

/// A copy of a string with the same text.
pub(crate) fn copy_string(s: &String) -> (res: String)
    ensures
        res@ == s@,
{
    s.clone()
}

/// Appends the block for `evidence_hash` to `chain` and returns its height.
pub fn append_block(chain: &mut Vec<LocalBlock>, evidence_hash: &str, created_at_nanos: i64) -> (height: u64)
    ensures
        blocks_view(final(chain)@) == blocks_view(old(chain)@).push(
            next_block(blocks_view(old(chain)@), evidence_hash@, created_at_nanos),
        ),
        height == old(chain)@.len(),
{
    let ghost before = blocks_view(chain@);
    let n = chain.len();
    let previous_hash = if n == 0 {
        String::from_str("GENESIS")
    } else {
        copy_string(&chain[n - 1].block_hash)
    };
    let height = n as u64;
    let block = LocalBlock::new(height, previous_hash, String::from_str(evidence_hash), created_at_nanos);
    chain.push(block);
    proof {
        assert(blocks_view(chain@) == before.push(block@));
        assert(block@ == next_block(before, evidence_hash@, created_at_nanos));
    }
    height
}

/// Whether `chain` holds a sealed block carrying `evidence_hash`.
pub fn chain_has_record(chain: &Vec<LocalBlock>, evidence_hash: &str) -> (res: bool)
    ensures
        res == chain_records(blocks_view(chain@), evidence_hash@),
{
    let target = String::from_str(evidence_hash);
    let mut i: usize = 0;
    while i < chain.len()
        invariant
            0 <= i <= chain@.len(),
            target@ == evidence_hash@,
            forall|j: int|
                0 <= j < i ==> !((#[trigger] blocks_view(chain@)[j]).evidence_hash == evidence_hash@
                    && block_is_sealed(blocks_view(chain@)[j])),
        decreases chain@.len() - i,
    {
        let b = &chain[i];
        if b.evidence_hash == target && b.is_sealed() {
            assert(blocks_view(chain@)[i as int] == b@);
            return true;
        }
        assert(blocks_view(chain@)[i as int] == b@);
        i = i + 1;
    }
    false
}

/// The receipt of the local provider.
pub open spec fn local_receipt(path: Seq<char>, height: u64, evidence_hash: Seq<char>, block_hash: Seq<char>) -> ReceiptView {
    ReceiptView {
        provider: "local-simulated-blockchain"@,
        record_id: path + seq!['#'] + decimal(height as nat),
        evidence_hash,
        verification: "PASS block_hash="@ + block_hash,
    }
}

/// The chain after publishing, and the provider's answer.
pub open spec fn local_publication(
    chain: Seq<BlockView>,
    evidence_hash: Seq<char>,
    path: Seq<char>,
    created_at_nanos: i64,
) -> (Seq<BlockView>, Result<ReceiptView, ChainError>) {
    let block = next_block(chain, evidence_hash, created_at_nanos);
    let after = chain.push(block);
    if chain_records(after, evidence_hash) {
        (after, Ok(local_receipt(path, block.height, evidence_hash, block.block_hash)))
    } else {
        (after, Err(ChainError::LocalVerificationFailed))
    }
}

/// Appends a block for `evidence_hash` to the local chain read from `path`,
/// then checks that the chain records the hash; returns the chain to store and
/// the receipt, or the failure.
pub fn local_publish_and_verify(
    chain: Vec<LocalBlock>,
    evidence_hash: &str,
    path: &str,
    created_at_nanos: i64,
) -> (res: (Vec<LocalBlock>, Result<ChainReceipt, ChainError>))
    ensures
        (blocks_view(res.0@), outcome_view(res.1)) == local_publication(
            blocks_view(chain@),
            evidence_hash@,
            path@,
            created_at_nanos,
        ),
{
    let ghost before = blocks_view(chain@);
    let mut chain = chain;
    let height = append_block(&mut chain, evidence_hash, created_at_nanos);
    proof {
        assert(blocks_view(chain@).len() == chain@.len());
    }
    let block_hash = copy_string(&chain[chain.len() - 1].block_hash);
    let ghost block = next_block(before, evidence_hash@, created_at_nanos);
    proof {
        assert(blocks_view(chain@)[chain@.len() - 1] == chain@[chain@.len() - 1]@);
        assert(blocks_view(chain@)[chain@.len() - 1] == block);
        assert(block_hash@ == block.block_hash);
        assert(height == block.height);
    }
    if !chain_has_record(&chain, evidence_hash) {
        return (chain, Err(ChainError::LocalVerificationFailed));
    }
    let mut record_id = String::from_str(path);
    push_char(&mut record_id, '#');
    push_decimal(&mut record_id, height);
    proof {
        assert(record_id@ =~= path@ + seq!['#'] + decimal(height as nat));
    }
    let mut verification = String::from_str("PASS block_hash=");
    verification.append(block_hash.as_str());
    let receipt = ChainReceipt {
        provider: String::from_str("local-simulated-blockchain"),
        record_id,
        evidence_hash: String::from_str(evidence_hash),
        verification,
    };
    (chain, Ok(receipt))
}

// ---------------------------------------------------------------------------
// Solana memo transactions
// ---------------------------------------------------------------------------

/// The memo that carries an evidence hash.
pub open spec fn memo_text(evidence_hash: Seq<char>) -> Seq<char> {
    "hhgoa-face-chain:"@ + evidence_hash
}

/// The first line whose trimmed text is longer than 40 bytes.
pub open spec fn first_long_line(ls: Seq<Seq<char>>) -> Option<Seq<char>>
    decreases ls.len(),
{
    if ls.len() == 0 {
        None
    } else if utf8_len(trim(ls[0])) > 40 {
        Some(ls[0])
    } else {
        first_long_line(ls.drop_first())
    }
}

/// The transaction signature in the output of `solana transfer`: the first
/// line longer than 40 bytes once trimmed, else the whole output, trimmed.
pub open spec fn signature_from_output(output: Seq<char>) -> Seq<char> {
    match first_long_line(lines(output)) {
        Some(line) => trim(line),
        None => trim(trim(output)),
    }
}

/// The arguments of the `solana transfer` that carries the memo.
pub open spec fn transfer_args(cluster: Seq<char>, address: Seq<char>, memo: Seq<char>) -> Seq<Seq<char>> {
    seq![
        "-u"@,
        cluster,
        "transfer"@,
        address,
        "0.000001"@,
        "--allow-unfunded-recipient"@,
        "--with-memo"@,
        memo,
    ]
}

/// The arguments of the `solana confirm` that fetches the transaction.
pub open spec fn confirm_args(cluster: Seq<char>, signature: Seq<char>) -> Seq<Seq<char>> {
    seq!["-u"@, cluster, "confirm"@, "-v"@, signature]
}

/// The receipt of the Solana memo provider.
pub open spec fn solana_receipt(cluster: Seq<char>, signature: Seq<char>, evidence_hash: Seq<char>, verification: Seq<char>) -> ReceiptView {
    ReceiptView {
        provider: "solana-memo-"@ + cluster,
        record_id: signature,
        evidence_hash,
        verification,
    }
}

/// The signature found in the output of `solana transfer`.
pub fn signature_in_output(output: &str) -> (res: String)
    ensures
        res@ == signature_from_output(output@),
{
    let cs = chars_of(output);
    let ranges = line_ranges(cs.as_slice());
    let ghost ls = lines(cs@);
    let mut k: usize = 0;
    proof {
        assert(ls.skip(0) == ls);
    }
    while k < ranges.len()
        invariant
            0 <= k <= ranges@.len(),
            ls == lines(cs@),
            ls == ranges_view(cs@, ranges@),
            cs@ == output@,
            forall|j: int| 0 <= j < ranges@.len() ==> #[trigger] ranges@[j].0 <= ranges@[j].1 <= cs@.len(),
            first_long_line(ls) == first_long_line(ls.skip(k as int)),
        decreases ranges@.len() - k,
    {
        let (lo, hi) = ranges[k];
        proof {
            assert(ranges@[k as int].0 <= ranges@[k as int].1 <= cs@.len());
            assert(ls[k as int] == cs@.subrange(lo as int, hi as int));
        }
        let (a, b) = trim_bounds(cs.as_slice(), lo, hi);
        let long = utf8_len_exceeds(cs.as_slice(), a, b, 40);
        proof {
            let rest = ls.skip(k as int);
            assert(rest[0] == ls[k as int]);
            assert(rest.drop_first() == ls.skip(k + 1));
        }
        if long {
            return string_of(slice_subrange(cs.as_slice(), a, b));
        }
        k = k + 1;
    }
    proof {
        assert(ls.skip(k as int) == Seq::<Seq<char>>::empty());
    }
    let (a1, b1) = trim_bounds(cs.as_slice(), 0, cs.len());
    let (a2, b2) = trim_bounds(cs.as_slice(), a1, b1);
    proof {
        assert(cs@.subrange(0, cs@.len() as int) == cs@);
    }
    string_of(slice_subrange(cs.as_slice(), a2, b2))
}

// ---------------------------------------------------------------------------
// The session
// ---------------------------------------------------------------------------

/// Where a [`ChainSession`] stands.
pub enum ChainStage {
    /// Waiting for the local chain to be read.
    LocalAwaitChain,
    /// Waiting for the extended local chain to be written; holds the answer to give then.
    LocalAwaitStore { outcome: Result<ChainReceipt, ChainError> },
    /// Waiting for `solana address`.
    SolanaAwaitAddress,
    /// Waiting for `solana transfer ... --with-memo`.
    SolanaAwaitTransfer,
    /// Waiting for `solana confirm -v <signature>`.
    SolanaAwaitConfirm { signature: String },
    /// The answer has been given.
    Finished,
}

/// Publishing one evidence hash with one provider.
pub struct ChainSession {
    pub evidence_hash: String,
    pub local_chain_path: String,
    pub cluster: String,
    pub skip_verify: bool,
    pub stage: ChainStage,
}

/// What the caller must do next.
pub enum ChainAction {
    /// Read the local chain (an empty list when the file does not exist).
    LoadLocalChain,
    /// Write these blocks as the local chain.
    StoreLocalChain { blocks: Vec<LocalBlock> },
    /// Run `solana` with these arguments.
    RunSolana { args: Vec<String> },
    /// Publishing is over, with this answer.
    Finish { outcome: Result<ChainReceipt, ChainError> },
}

/// What the caller reports back.
pub enum ChainEvent {
    /// The local chain was read; `created_at_nanos` is the current time.
    LocalChainLoaded { blocks: Vec<LocalBlock>, created_at_nanos: i64 },
    /// The local chain was written.
    LocalChainStored,
    /// A `solana` command ended: its standard output, or how it failed.
    CommandFinished { outcome: Result<String, CommandFailure> },
}

/// The content of a [`ChainStage`].
pub enum StageView {
    LocalAwaitChain,
    LocalAwaitStore(Result<ReceiptView, ChainError>),
    SolanaAwaitAddress,
    SolanaAwaitTransfer,
    SolanaAwaitConfirm(Seq<char>),
    Finished,
}

/// The content of a [`ChainSession`].
pub struct SessionView {
    pub evidence_hash: Seq<char>,
    pub local_chain_path: Seq<char>,
    pub cluster: Seq<char>,
    pub skip_verify: bool,
    pub stage: StageView,
}

/// The content of a [`ChainAction`].
pub enum ActionView {
    LoadLocalChain,
    StoreLocalChain(Seq<BlockView>),
    RunSolana(Seq<Seq<char>>),
    Finish(Result<ReceiptView, ChainError>),
}

/// The content of a [`ChainEvent`].
pub enum EventView {
    LocalChainLoaded(Seq<BlockView>, i64),
    LocalChainStored,
    CommandFinished(Result<Seq<char>, CommandFailure>),
}

impl View for ChainStage {
    type V = StageView;

    open spec fn view(&self) -> StageView {
        match self {
            ChainStage::LocalAwaitChain => StageView::LocalAwaitChain,
            ChainStage::LocalAwaitStore { outcome } => StageView::LocalAwaitStore(outcome_view(*outcome)),
            ChainStage::SolanaAwaitAddress => StageView::SolanaAwaitAddress,
            ChainStage::SolanaAwaitTransfer => StageView::SolanaAwaitTransfer,
            ChainStage::SolanaAwaitConfirm { signature } => StageView::SolanaAwaitConfirm(signature@),
            ChainStage::Finished => StageView::Finished,
        }
    }
}

impl View for ChainSession {
    type V = SessionView;

    open spec fn view(&self) -> SessionView {
        SessionView {
            evidence_hash: self.evidence_hash@,
            local_chain_path: self.local_chain_path@,
            cluster: self.cluster@,
            skip_verify: self.skip_verify,
            stage: self.stage@,
        }
    }
}

impl View for ChainAction {
    type V = ActionView;

    open spec fn view(&self) -> ActionView {
        match self {
            ChainAction::LoadLocalChain => ActionView::LoadLocalChain,
            ChainAction::StoreLocalChain { blocks } => ActionView::StoreLocalChain(blocks_view(blocks@)),
            ChainAction::RunSolana { args } => ActionView::RunSolana(args.deep_view()),
            ChainAction::Finish { outcome } => ActionView::Finish(outcome_view(*outcome)),
        }
    }
}

impl View for ChainEvent {
    type V = EventView;

    open spec fn view(&self) -> EventView {
        match self {
            ChainEvent::LocalChainLoaded { blocks, created_at_nanos } => EventView::LocalChainLoaded(
                blocks_view(blocks@),
                *created_at_nanos,
            ),
            ChainEvent::LocalChainStored => EventView::LocalChainStored,
            ChainEvent::CommandFinished { outcome } => EventView::CommandFinished(
                match outcome {
                    Ok(s) => Ok(s@),
                    Err(f) => Err(*f),
                },
            ),
        }
    }
}

/// The session, with a new stage.
pub open spec fn with_stage(s: SessionView, stage: StageView) -> SessionView {
    SessionView { stage, ..s }
}

/// The first stage and action of a session.
pub open spec fn session_start(
    provider: ChainProvider,
    evidence_hash: Seq<char>,
    local_chain_path: Seq<char>,
    cluster: Seq<char>,
    skip_verify: bool,
) -> (SessionView, ActionView) {
    let base = SessionView {
        evidence_hash,
        local_chain_path,
        cluster,
        skip_verify,
        stage: StageView::Finished,
    };
    match provider {
        ChainProvider::Local => (with_stage(base, StageView::LocalAwaitChain), ActionView::LoadLocalChain),
        ChainProvider::SolanaMemo => (
            with_stage(base, StageView::SolanaAwaitAddress),
            ActionView::RunSolana(seq!["address"@]),
        ),
    }
}

/// One step of a session: the stage it moves to and the action it asks for.
pub open spec fn session_step(s: SessionView, e: EventView) -> (SessionView, ActionView) {
    let done = with_stage(s, StageView::Finished);
    let unexpected = (done, ActionView::Finish(Err(ChainError::UnexpectedEvent)));
    match s.stage {
        StageView::LocalAwaitChain => match e {
            EventView::LocalChainLoaded(blocks, t) => {
                let (after, outcome) = local_publication(blocks, s.evidence_hash, s.local_chain_path, t);
                (with_stage(s, StageView::LocalAwaitStore(outcome)), ActionView::StoreLocalChain(after))
            },
            _ => unexpected,
        },
        StageView::LocalAwaitStore(outcome) => match e {
            EventView::LocalChainStored => (done, ActionView::Finish(outcome)),
            _ => unexpected,
        },
        StageView::SolanaAwaitAddress => match e {
            EventView::CommandFinished(Ok(out)) => (
                with_stage(s, StageView::SolanaAwaitTransfer),
                ActionView::RunSolana(transfer_args(s.cluster, trim(out), memo_text(s.evidence_hash))),
            ),
            EventView::CommandFinished(Err(f)) => (
                done,
                ActionView::Finish(Err(ChainError::Solana { step: SolanaStep::ReadingAddress, failure: f })),
            ),
            _ => unexpected,
        },
        StageView::SolanaAwaitTransfer => match e {
            EventView::CommandFinished(Ok(out)) => {
                let sig = signature_from_output(out);
                if s.skip_verify {
                    (done, ActionView::Finish(Ok(solana_receipt(s.cluster, sig, s.evidence_hash, "SKIPPED"@))))
                } else {
                    (with_stage(s, StageView::SolanaAwaitConfirm(sig)), ActionView::RunSolana(confirm_args(s.cluster, sig)))
                }
            },
            EventView::CommandFinished(Err(f)) => (
                done,
                ActionView::Finish(Err(ChainError::Solana { step: SolanaStep::SubmittingMemo, failure: f })),
            ),
            _ => unexpected,
        },
        StageView::SolanaAwaitConfirm(sig) => match e {
            EventView::CommandFinished(Ok(out)) => {
                if contains_text(out, memo_text(s.evidence_hash)) {
                    (
                        done,
                        ActionView::Finish(
                            Ok(solana_receipt(s.cluster, sig, s.evidence_hash, "PASS memo found in confirmed transaction"@)),
                        ),
                    )
                } else {
                    (done, ActionView::Finish(Err(ChainError::MemoNotFound)))
                }
            },
            EventView::CommandFinished(Err(f)) => (
                done,
                ActionView::Finish(Err(ChainError::Solana { step: SolanaStep::FetchingTransaction, failure: f })),
            ),
            _ => unexpected,
        },
        StageView::Finished => unexpected,
    }
}

/// Starts publishing `evidence_hash` with `provider`: the local chain at
/// `local_chain_path`, or a memo transaction on the Solana `solana_cluster`
/// (re-fetched to verify it unless `skip_verify`). Returns the session and its
/// first action.
pub fn publish_and_verify(
    provider: &ChainProvider,
    evidence_hash: &str,
    local_chain_path: &str,
    solana_cluster: &str,
    skip_verify: bool,
) -> (res: (ChainSession, ChainAction))
    ensures
        (res.0@, res.1@) == session_start(*provider, evidence_hash@, local_chain_path@, solana_cluster@, skip_verify),
{
    match provider {
        ChainProvider::Local => {
            let session = ChainSession {
                evidence_hash: String::from_str(evidence_hash),
                local_chain_path: String::from_str(local_chain_path),
                cluster: String::from_str(solana_cluster),
                skip_verify,
                stage: ChainStage::LocalAwaitChain,
            };
            (session, ChainAction::LoadLocalChain)
        },
        ChainProvider::SolanaMemo => solana_memo_publish_and_verify(evidence_hash, local_chain_path, solana_cluster, skip_verify),
    }
}

/// Starts publishing `evidence_hash` as a Solana memo: the first action runs
/// `solana address`.
pub fn solana_memo_publish_and_verify(
    evidence_hash: &str,
    local_chain_path: &str,
    cluster: &str,
    skip_verify: bool,
) -> (res: (ChainSession, ChainAction))
    ensures
        (res.0@, res.1@) == session_start(ChainProvider::SolanaMemo, evidence_hash@, local_chain_path@, cluster@, skip_verify),
{
    let session = ChainSession {
        evidence_hash: String::from_str(evidence_hash),
        local_chain_path: String::from_str(local_chain_path),
        cluster: String::from_str(cluster),
        skip_verify,
        stage: ChainStage::SolanaAwaitAddress,
    };
    let mut args: Vec<String> = Vec::new();
    args.push(String::from_str("address"));
    proof {
        assert(args.deep_view() == seq!["address"@]);
    }
    (session, ChainAction::RunSolana { args })
}

impl ChainSession {
    /// Whether the session has given its answer.
    pub fn is_finished(&self) -> (res: bool)
        ensures
            res == (self.stage@ is Finished),
    {
        match self.stage {
            ChainStage::Finished => true,
            _ => false,
        }
    }

    /// Takes the caller's report of the last action and returns the next action.
    pub fn step(&mut self, event: ChainEvent) -> (action: ChainAction)
        ensures
            (final(self)@, action@) == session_step(old(self)@, event@),
    {
        let mut stage = ChainStage::Finished;
        std::mem::swap(&mut stage, &mut self.stage);
        let ghost s0 = old(self)@;
        match stage {
            ChainStage::LocalAwaitChain => match event {
                ChainEvent::LocalChainLoaded { blocks, created_at_nanos } => {
                    let (after, outcome) = local_publish_and_verify(
                        blocks,
                        self.evidence_hash.as_str(),
                        self.local_chain_path.as_str(),
                        created_at_nanos,
                    );
                    self.stage = ChainStage::LocalAwaitStore { outcome };
                    ChainAction::StoreLocalChain { blocks: after }
                },
                _ => ChainAction::Finish { outcome: Err(ChainError::UnexpectedEvent) },
            },
            ChainStage::LocalAwaitStore { outcome } => match event {
                ChainEvent::LocalChainStored => ChainAction::Finish { outcome },
                _ => ChainAction::Finish { outcome: Err(ChainError::UnexpectedEvent) },
            },
            ChainStage::SolanaAwaitAddress => match event {
                ChainEvent::CommandFinished { outcome: Ok(out) } => {
                    let address = trim_str(out.as_str());
                    let args = self.transfer_command(address.as_str());
                    self.stage = ChainStage::SolanaAwaitTransfer;
                    ChainAction::RunSolana { args }
                },
                ChainEvent::CommandFinished { outcome: Err(failure) } => ChainAction::Finish {
                    outcome: Err(ChainError::Solana { step: SolanaStep::ReadingAddress, failure }),
                },
                _ => ChainAction::Finish { outcome: Err(ChainError::UnexpectedEvent) },
            },
            ChainStage::SolanaAwaitTransfer => match event {
                ChainEvent::CommandFinished { outcome: Ok(out) } => {
                    let signature = signature_in_output(out.as_str());
                    if self.skip_verify {
                        let receipt = self.solana_receipt_with(signature, "SKIPPED");
                        ChainAction::Finish { outcome: Ok(receipt) }
                    } else {
                        let args = self.confirm_command(signature.as_str());
                        self.stage = ChainStage::SolanaAwaitConfirm { signature };
                        ChainAction::RunSolana { args }
                    }
                },
                ChainEvent::CommandFinished { outcome: Err(failure) } => ChainAction::Finish {
                    outcome: Err(ChainError::Solana { step: SolanaStep::SubmittingMemo, failure }),
                },
                _ => ChainAction::Finish { outcome: Err(ChainError::UnexpectedEvent) },
            },
            ChainStage::SolanaAwaitConfirm { signature } => match event {
                ChainEvent::CommandFinished { outcome: Ok(out) } => {
                    let memo = self.memo();
                    if str_contains(out.as_str(), memo.as_str()) {
                        let receipt = self.solana_receipt_with(signature, "PASS memo found in confirmed transaction");
                        ChainAction::Finish { outcome: Ok(receipt) }
                    } else {
                        ChainAction::Finish { outcome: Err(ChainError::MemoNotFound) }
                    }
                },
                ChainEvent::CommandFinished { outcome: Err(failure) } => ChainAction::Finish {
                    outcome: Err(ChainError::Solana { step: SolanaStep::FetchingTransaction, failure }),
                },
                _ => ChainAction::Finish { outcome: Err(ChainError::UnexpectedEvent) },
            },
            ChainStage::Finished => ChainAction::Finish { outcome: Err(ChainError::UnexpectedEvent) },
        }
    }

    /// The memo for this session's evidence hash.
    fn memo(&self) -> (res: String)
        ensures
            res@ == memo_text(self.evidence_hash@),
    {
        let mut memo = String::from_str("hhgoa-face-chain:");
        memo.append(self.evidence_hash.as_str());
        memo
    }

    /// The arguments of `solana transfer` to `address` with the memo.
    fn transfer_command(&self, address: &str) -> (res: Vec<String>)
        ensures
            res.deep_view() == transfer_args(self.cluster@, address@, memo_text(self.evidence_hash@)),
    {
        let mut args: Vec<String> = Vec::new();
        args.push(String::from_str("-u"));
        args.push(copy_string(&self.cluster));
        args.push(String::from_str("transfer"));
        args.push(String::from_str(address));
        args.push(String::from_str("0.000001"));
        args.push(String::from_str("--allow-unfunded-recipient"));
        args.push(String::from_str("--with-memo"));
        args.push(self.memo());
        proof {
            assert(args.deep_view() =~= transfer_args(self.cluster@, address@, memo_text(self.evidence_hash@)));
        }
        args
    }

    /// The arguments of `solana confirm -v <signature>`.
    fn confirm_command(&self, signature: &str) -> (res: Vec<String>)
        ensures
            res.deep_view() == confirm_args(self.cluster@, signature@),
    {
        let mut args: Vec<String> = Vec::new();
        args.push(String::from_str("-u"));
        args.push(copy_string(&self.cluster));
        args.push(String::from_str("confirm"));
        args.push(String::from_str("-v"));
        args.push(String::from_str(signature));
        proof {
            assert(args.deep_view() =~= confirm_args(self.cluster@, signature@));
        }
        args
    }

    /// The Solana receipt for `signature` with the given verification text.
    fn solana_receipt_with(&self, signature: String, verification: &str) -> (res: ChainReceipt)
        ensures
            res@ == solana_receipt(self.cluster@, signature@, self.evidence_hash@, verification@),
    {
        let mut provider = String::from_str("solana-memo-");
        provider.append(self.cluster.as_str());
        ChainReceipt {
            provider,
            record_id: signature,
            evidence_hash: copy_string(&self.evidence_hash),
            verification: String::from_str(verification),
        }
    }
}

// ---------------------------------------------------------------------------
// Laws
// ---------------------------------------------------------------------------

/// A freshly published local block always re-verifies: publishing to any
/// local chain answers with a `PASS` receipt for the new block.
pub proof fn law_local_publish_verifies(
    chain: Seq<BlockView>,
    evidence_hash: Seq<char>,
    path: Seq<char>,
    created_at_nanos: i64,
)
    ensures
        ({
            let (after, outcome) = local_publication(chain, evidence_hash, path, created_at_nanos);
            let block = next_block(chain, evidence_hash, created_at_nanos);
            &&& after == chain.push(block)
            &&& outcome == Ok::<ReceiptView, ChainError>(local_receipt(path, block.height, evidence_hash, block.block_hash))
            &&& chain_records(after, evidence_hash)
        }),
{
    let block = next_block(chain, evidence_hash, created_at_nanos);
    let after = chain.push(block);
    assert(after[chain.len() as int] == block);
    assert(block_is_sealed(block));
    assert(chain_records(after, evidence_hash));
}

/// The local chain is well linked: block `i` has height `i`, points to the
/// hash of block `i - 1` (or `GENESIS` for the first), and is sealed.
pub open spec fn chain_linked(chain: Seq<BlockView>) -> bool {
    forall|i: int|
        0 <= i < chain.len() ==> {
            &&& (#[trigger] chain[i]).height == i
            &&& chain[i].previous_hash == (if i == 0 {
                "GENESIS"@
            } else {
                chain[i - 1].block_hash
            })
            &&& block_is_sealed(chain[i])
        }
}

/// Appending a block keeps a well-linked chain well linked.
pub proof fn law_append_keeps_chain_linked(chain: Seq<BlockView>, evidence_hash: Seq<char>, created_at_nanos: i64)
    requires
        chain_linked(chain),
        chain.len() < u64::MAX,
    ensures
        chain_linked(chain.push(next_block(chain, evidence_hash, created_at_nanos))),
{
    let after = chain.push(next_block(chain, evidence_hash, created_at_nanos));
    assert forall|i: int| 0 <= i < after.len() implies {
        &&& (#[trigger] after[i]).height == i
        &&& after[i].previous_hash == (if i == 0 {
            "GENESIS"@
        } else {
            after[i - 1].block_hash
        })
        &&& block_is_sealed(after[i])
    } by {
        if i < chain.len() {
            assert(after[i] == chain[i]);
            if i > 0 {
                assert(after[i - 1] == chain[i - 1]);
            }
        } else {
            if i > 0 {
                assert(after[i - 1] == chain[i - 1]);
            }
        }
    }
}

/// A session whose pending answer, if any, names the session's evidence hash.
pub open spec fn session_consistent(s: SessionView) -> bool {
    match s.stage {
        StageView::LocalAwaitStore(Ok(r)) => r.evidence_hash == s.evidence_hash,
        _ => true,
    }
}

/// Every receipt a session gives names the evidence hash it was started with,
/// and sessions keep that property from their start through every step.
pub proof fn law_receipt_names_published_hash(s: SessionView, e: EventView)
    requires
        session_consistent(s),
    ensures
        session_consistent(session_step(s, e).0),
        session_step(s, e).0.evidence_hash == s.evidence_hash,
        session_step(s, e).1 matches ActionView::Finish(Ok(r)) ==> r.evidence_hash == s.evidence_hash,
{
}

/// A session starts consistent, holding the hash it publishes.
pub proof fn law_session_start_consistent(
    provider: ChainProvider,
    evidence_hash: Seq<char>,
    local_chain_path: Seq<char>,
    cluster: Seq<char>,
    skip_verify: bool,
)
    ensures
        session_consistent(session_start(provider, evidence_hash, local_chain_path, cluster, skip_verify).0),
        session_start(provider, evidence_hash, local_chain_path, cluster, skip_verify).0.evidence_hash
            == evidence_hash,
{
}

/// A complete Solana run: the transfer carries the memo
/// `hhgoa-face-chain:<hash>`, and with verification on, the run passes exactly
/// when the confirmed transaction shows that memo; the record is the signature
/// found in the transfer's output.
pub proof fn law_solana_memo_round_trip(
    evidence_hash: Seq<char>,
    path: Seq<char>,
    cluster: Seq<char>,
    address_out: Seq<char>,
    transfer_out: Seq<char>,
    confirm_out: Seq<char>,
)
    ensures
        ({
            let (s0, a0) = session_start(ChainProvider::SolanaMemo, evidence_hash, path, cluster, false);
            let (s1, a1) = session_step(s0, EventView::CommandFinished(Ok(address_out)));
            let (s2, a2) = session_step(s1, EventView::CommandFinished(Ok(transfer_out)));
            let (s3, a3) = session_step(s2, EventView::CommandFinished(Ok(confirm_out)));
            let sig = signature_from_output(transfer_out);
            &&& a0 == ActionView::RunSolana(seq!["address"@])
            &&& a1 == ActionView::RunSolana(transfer_args(cluster, trim(address_out), memo_text(evidence_hash)))
            &&& a2 == ActionView::RunSolana(confirm_args(cluster, sig))
            &&& (contains_text(confirm_out, memo_text(evidence_hash)) ==> a3 == ActionView::Finish(
                Ok(solana_receipt(cluster, sig, evidence_hash, "PASS memo found in confirmed transaction"@)),
            ))
            &&& (!contains_text(confirm_out, memo_text(evidence_hash)) ==> a3 == ActionView::Finish(
                Err(ChainError::MemoNotFound),
            ))
            &&& s3.stage is Finished
        }),
{
}

/// With verification skipped, the run ends right after the transfer, without
/// fetching the transaction, with a `SKIPPED` receipt for the signature.
pub proof fn law_solana_skip_verify(
    evidence_hash: Seq<char>,
    path: Seq<char>,
    cluster: Seq<char>,
    address_out: Seq<char>,
    transfer_out: Seq<char>,
)
    ensures
        ({
            let (s0, a0) = session_start(ChainProvider::SolanaMemo, evidence_hash, path, cluster, true);
            let (s1, a1) = session_step(s0, EventView::CommandFinished(Ok(address_out)));
            let (s2, a2) = session_step(s1, EventView::CommandFinished(Ok(transfer_out)));
            &&& a2 == ActionView::Finish(
                Ok(solana_receipt(cluster, signature_from_output(transfer_out), evidence_hash, "SKIPPED"@)),
            )
            &&& s2.stage is Finished
        }),
{
}

/// A finished session answers every further event with `UnexpectedEvent`
/// and stays finished.
pub proof fn law_finished_session_stays_finished(s: SessionView, e: EventView)
    requires
        s.stage is Finished,
    ensures
        session_step(s, e) == (with_stage(s, StageView::Finished), ActionView::Finish(Err(ChainError::UnexpectedEvent))),
{
}

} // verus!
