use sha2::{Digest, Sha256};
use hhgoa_face_chain::chain::{
    local_publish_and_verify, publish_and_verify, signature_in_output, ChainAction, ChainError, ChainEvent,
    CommandFailure, LocalBlock, SolanaStep,
};
use hhgoa_face_chain::cli::ChainProvider;

fn expect_args(action: &ChainAction) -> Vec<String> {
    match action {
        ChainAction::RunSolana { args } => args.clone(),
        _ => panic!("expected a solana command"),
    }
}

#[test]
fn local_chain_publishes_and_verifies() {
    let path = "hhgoa-face-chain-local-test.json";
    let (chain, outcome) = local_publish_and_verify(Vec::new(), "abc123", path, 1_700_000_000_000_000_000);
    let receipt = match outcome {
        Ok(r) => r,
        Err(_) => panic!("publish local block"),
    };
    assert_eq!(receipt.provider, "local-simulated-blockchain");
    assert!(receipt.verification.starts_with("PASS"));
    assert!(chain.iter().any(|b| b.evidence_hash.contains("abc123")));
}

#[test]
fn first_block_points_to_genesis_and_next_links_back() {
    let (chain, _) = local_publish_and_verify(Vec::new(), "first", "data/local_chain.json", 0);
    assert_eq!(chain.len(), 1);
    assert_eq!(chain[0].height, 0);
    assert_eq!(chain[0].previous_hash, "GENESIS");
    let first_hash = chain[0].block_hash.clone();
    let (chain, outcome) = local_publish_and_verify(chain, "second", "data/local_chain.json", 5);
    assert_eq!(chain.len(), 2);
    assert_eq!(chain[1].height, 1);
    assert_eq!(chain[1].previous_hash, first_hash);
    let receipt = match outcome {
        Ok(r) => r,
        Err(_) => panic!("second block"),
    };
    assert_eq!(receipt.record_id, "data/local_chain.json#1");
    assert_eq!(receipt.verification, format!("PASS block_hash={}", chain[1].block_hash));
}

#[test]
fn block_hash_is_sha256_of_payload() {
    let block = LocalBlock::new(0, "GENESIS".to_string(), "abc".to_string(), 0);
    // sha256("0|1970-01-01T00:00:00+00:00|GENESIS|abc")
    let expected = {
        hex::encode(Sha256::digest("0|1970-01-01T00:00:00+00:00|GENESIS|abc".as_bytes()))
    };
    assert_eq!(block.block_hash, expected);
    assert!(block.is_sealed());
}

#[test]
fn tampered_block_is_not_sealed() {
    let mut block = LocalBlock::new(3, "prev".to_string(), "abc".to_string(), 42);
    block.evidence_hash = "abd".to_string();
    assert!(!block.is_sealed());
}

#[test]
fn solana_round_trip_passes_when_memo_is_confirmed() {
    let (mut session, action) = publish_and_verify(&ChainProvider::SolanaMemo, "feed", "unused", "devnet", false);
    assert_eq!(expect_args(&action), vec!["address".to_string()]);
    let action = session.step(ChainEvent::CommandFinished { outcome: Ok("  Wallet111\n".to_string()) });
    assert_eq!(
        expect_args(&action),
        vec![
            "-u", "devnet", "transfer", "Wallet111", "0.000001", "--allow-unfunded-recipient", "--with-memo",
            "hhgoa-face-chain:feed",
        ]
        .into_iter()
        .map(String::from)
        .collect::<Vec<_>>()
    );
    let sig = "5".repeat(44);
    let action = session.step(ChainEvent::CommandFinished { outcome: Ok(format!("\nSignature:\n  {sig}  \n")) });
    assert_eq!(
        expect_args(&action),
        vec!["-u".to_string(), "devnet".to_string(), "confirm".to_string(), "-v".to_string(), sig.clone()]
    );
    let action = session.step(ChainEvent::CommandFinished {
        outcome: Ok("Transaction ... Memo: hhgoa-face-chain:feed ...".to_string()),
    });
    match action {
        ChainAction::Finish { outcome: Ok(r) } => {
            assert_eq!(r.provider, "solana-memo-devnet");
            assert_eq!(r.record_id, sig);
            assert_eq!(r.evidence_hash, "feed");
            assert_eq!(r.verification, "PASS memo found in confirmed transaction");
        },
        _ => panic!("expected a passing receipt"),
    }
    assert!(session.is_finished());
}

#[test]
fn solana_missing_memo_fails() {
    let (mut session, _) = publish_and_verify(&ChainProvider::SolanaMemo, "feed", "unused", "devnet", false);
    session.step(ChainEvent::CommandFinished { outcome: Ok("W".to_string()) });
    session.step(ChainEvent::CommandFinished { outcome: Ok("sig".to_string()) });
    let action = session.step(ChainEvent::CommandFinished { outcome: Ok("no memo here".to_string()) });
    assert!(matches!(action, ChainAction::Finish { outcome: Err(ChainError::MemoNotFound) }));
}

#[test]
fn solana_skip_verify_ends_after_transfer() {
    let (mut session, _) = publish_and_verify(&ChainProvider::SolanaMemo, "feed", "unused", "testnet", true);
    session.step(ChainEvent::CommandFinished { outcome: Ok("W".to_string()) });
    let action = session.step(ChainEvent::CommandFinished { outcome: Ok(" short-sig \n".to_string()) });
    match action {
        ChainAction::Finish { outcome: Ok(r) } => {
            assert_eq!(r.verification, "SKIPPED");
            assert_eq!(r.record_id, "short-sig");
            assert_eq!(r.provider, "solana-memo-testnet");
        },
        _ => panic!("expected a skipped receipt"),
    }
}

#[test]
fn solana_command_failure_names_the_step() {
    let (mut session, _) = publish_and_verify(&ChainProvider::SolanaMemo, "feed", "unused", "devnet", false);
    let action = session.step(ChainEvent::CommandFinished {
        outcome: Err(CommandFailure::Failed { stderr: "no wallet".to_string() }),
    });
    match action {
        ChainAction::Finish { outcome: Err(ChainError::Solana { step, failure: CommandFailure::Failed { stderr } }) } => {
            assert_eq!(step, SolanaStep::ReadingAddress);
            assert_eq!(stderr, "no wallet");
        },
        _ => panic!("expected a reading-address failure"),
    }
}

#[test]
fn local_session_loads_stores_then_finishes() {
    let (mut session, action) = publish_and_verify(&ChainProvider::Local, "abc", "chain.json", "devnet", false);
    assert!(matches!(action, ChainAction::LoadLocalChain));
    let action = session.step(ChainEvent::LocalChainLoaded { blocks: Vec::new(), created_at_nanos: 7 });
    let blocks = match action {
        ChainAction::StoreLocalChain { blocks } => blocks,
        _ => panic!("expected a store"),
    };
    assert_eq!(blocks.len(), 1);
    assert_eq!(blocks[0].evidence_hash, "abc");
    let action = session.step(ChainEvent::LocalChainStored);
    match action {
        ChainAction::Finish { outcome: Ok(r) } => assert_eq!(r.record_id, "chain.json#0"),
        _ => panic!("expected a receipt"),
    }
    let action = session.step(ChainEvent::LocalChainStored);
    assert!(matches!(action, ChainAction::Finish { outcome: Err(ChainError::UnexpectedEvent) }));
}

#[test]
fn signature_is_first_long_line_trimmed() {
    let long = "x".repeat(41);
    assert_eq!(signature_in_output(&format!("short\r\n  {long}\t\nother")), long);
    assert_eq!(signature_in_output("  abc  \n"), "abc");
    assert_eq!(signature_in_output(""), "");
}
