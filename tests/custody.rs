use custody_chain::clock::{get_current_timestamp, seconds_since_epoch};
use custody_chain::digest::{compute_hash, content_digest, genesis_hash};
use custody_chain::evidence::{CustodyError, Store};
use custody_chain::ledger::{ChainStatus, Fault, Ledger};
use custody_chain::session::{Role, Session};

const SAMPLE_DIGEST: &str = "af2bdbe1aa9b6ec1e2ade1d694f41fc71a831d0268e9891562113d8a62add1bf";
const EMPTY_DIGEST: &str = "e3b0c44298fc1c149afbf4c8996fb92427ae41e4649b934ca495991b7852b855";
const SEAL_E1: &str = "7c8f36600ce838874ab18f9f57bf29ed99360311b2acae5933ba96446fa91971";
const SEAL_E2: &str = "dc510f1f1677696c5825c7d0e64021659c5b5188a90e202f373cd3b47b0e44cd";

fn two_registrations() -> Session {
    let mut s = Session::new();
    s.register_at("E1", "sample", Role::Investigator, 1700000000).unwrap();
    s.register_at("E2", "other", Role::Investigator, 1700000060).unwrap();
    s
}

#[test]
fn register_first_item() {
    let mut s = Session::new();
    let r = s.register_at("E1", "sample", Role::Investigator, 1700000000).unwrap();
    assert_eq!(r.block_index, 0);
    assert_eq!(r.id, "E1");
    assert_eq!(r.content_hash, SAMPLE_DIGEST);
    let e = &s.list()[0];
    assert_eq!(e.history.len(), 1);
    assert_eq!(e.history[0].from, None);
    assert_eq!(e.history[0].to, "Investigator");
    assert_eq!(e.history[0].action, "Initial Handoff");
    assert_eq!(e.current_custodian, "Investigator");
    assert_eq!(e.created_at, 1700000000);
    assert_eq!(s.ledger.length(), 1);
}

#[test]
fn register_two_items_links_blocks() {
    let s = two_registrations();
    assert_eq!(s.ledger.length(), 2);
    let b0 = s.ledger.get(0).unwrap();
    let b1 = s.ledger.get(1).unwrap();
    assert_eq!(b1.previous_hash, b0.hash);
    assert_eq!(b0.previous_hash, "0".repeat(64));
    assert_eq!(b0.hash, SEAL_E1);
    assert_eq!(b1.hash, SEAL_E2);
    assert_eq!(b1.index, 1);
    assert_eq!(b1.evidence_id, "E2");
    assert_eq!(s.verify(), ChainStatus::Valid);
}

#[test]
fn transfer_to_evidence_officer() {
    let mut s = Session::new();
    s.register_at("E1", "sample", Role::Investigator, 10).unwrap();
    let h = s.transfer_at("E1", Role::EvidenceOfficer, 20).unwrap();
    assert_eq!(h.id, "E1");
    assert_eq!(h.new_custodian, "EvidenceOfficer");
    let e = &s.list()[0];
    assert_eq!(e.current_custodian, "EvidenceOfficer");
    assert_eq!(e.history.len(), 2);
    assert_eq!(e.history[1].from, Some("Investigator".to_string()));
    assert_eq!(e.history[1].to, "EvidenceOfficer");
    assert_eq!(e.history[1].action, "Transferred");
    assert_eq!(e.history[1].timestamp, 20);
    assert_eq!(s.ledger.length(), 1);
}

#[test]
fn duplicate_registration_is_refused() {
    let mut s = Session::new();
    s.register_at("E1", "sample", Role::Investigator, 10).unwrap();
    let r = s.register_at("E1", "again", Role::Analyst, 11);
    assert_eq!(r.err(), Some(CustodyError::DuplicateId));
    assert_eq!(s.ledger.length(), 1);
    assert_eq!(s.list().len(), 1);
    assert_eq!(s.list()[0].current_custodian, "Investigator");
    assert_eq!(s.list()[0].content_hash, SAMPLE_DIGEST);
}

#[test]
fn corrupt_first_hash_is_caught_at_second_block() {
    let mut s = two_registrations();
    s.ledger.chain[0].hash = "f".repeat(64);
    assert_eq!(s.verify(), ChainStatus::Invalid(1, Fault::BrokenLink));
}

#[test]
fn tampered_timestamp_is_caught() {
    let mut s = two_registrations();
    s.ledger.chain[1].timestamp += 1;
    assert_eq!(s.verify(), ChainStatus::Invalid(1, Fault::HashMismatch));
}

#[test]
fn tampered_evidence_id_is_caught() {
    let mut s = two_registrations();
    s.ledger.chain[1].evidence_id = "E3".to_string();
    assert_eq!(s.verify(), ChainStatus::Invalid(1, Fault::HashMismatch));
}

#[test]
fn tampered_hash_is_caught() {
    let mut s = two_registrations();
    s.ledger.chain[1].hash = "0".repeat(64);
    assert_eq!(s.verify(), ChainStatus::Invalid(1, Fault::HashMismatch));
}

#[test]
fn tampered_link_is_caught() {
    let mut s = two_registrations();
    s.ledger.chain[1].previous_hash = "1".repeat(64);
    assert_eq!(s.verify(), ChainStatus::Invalid(1, Fault::BrokenLink));
}

#[test]
fn tampered_genesis_link_is_caught() {
    let mut s = two_registrations();
    s.ledger.chain[0].previous_hash = "1".repeat(64);
    assert_eq!(s.verify(), ChainStatus::Invalid(0, Fault::BrokenLink));
}

#[test]
fn verify_is_repeatable() {
    let mut s = two_registrations();
    assert_eq!(s.verify(), s.verify());
    s.ledger.chain[1].timestamp = 0;
    let first = s.verify();
    assert_eq!(first, s.verify());
    assert_eq!(first, ChainStatus::Invalid(1, Fault::HashMismatch));
}

#[test]
fn every_registration_keeps_chain_valid() {
    let mut s = Session::new();
    assert_eq!(s.verify(), ChainStatus::Valid);
    for k in 0..5u64 {
        let id = format!("E{}", k);
        s.register_at(&id, "content", Role::Analyst, 100 + k).unwrap();
        assert_eq!(s.verify(), ChainStatus::Valid);
    }
    assert_eq!(s.ledger.length(), 5);
}

#[test]
fn custody_history_is_continuous() {
    let mut s = Session::new();
    s.register_at("E1", "sample", Role::Investigator, 1).unwrap();
    s.transfer_at("E1", Role::EvidenceOfficer, 2).unwrap();
    s.transfer_at("E1", Role::Analyst, 3).unwrap();
    s.transfer_at("E1", Role::Prosecutor, 4).unwrap();
    let h = s.history("E1").unwrap();
    assert_eq!(h.len(), 4);
    assert_eq!(h[0].from, None);
    for k in 0..h.len() - 1 {
        assert_eq!(h[k + 1].from.as_deref(), Some(h[k].to.as_str()));
    }
    assert_eq!(h[3].to, "Prosecutor");
    assert_eq!(s.list()[0].current_custodian, h[3].to);
}

#[test]
fn transfer_of_unknown_id_is_refused() {
    let mut s = Session::new();
    s.register_at("E1", "sample", Role::Investigator, 1).unwrap();
    let r = s.transfer_at("E9", Role::Prosecutor, 2);
    assert_eq!(r.err(), Some(CustodyError::NotFound));
    assert_eq!(s.list()[0].current_custodian, "Investigator");
    assert_eq!(s.list()[0].history.len(), 1);
}

#[test]
fn transfer_on_empty_session_is_refused() {
    let mut s = Session::new();
    assert_eq!(s.transfer_at("E1", Role::Analyst, 2).err(), Some(CustodyError::NotFound));
    assert!(s.history("E1").is_none());
}

#[test]
fn empty_ledger_is_valid() {
    let l = Ledger::new();
    assert_eq!(l.verify(), ChainStatus::Valid);
    assert_eq!(l.length(), 0);
    assert!(l.get(0).is_none());
}

#[test]
fn ledger_append_returns_index() {
    let mut l = Ledger::new();
    assert_eq!(l.append("E1", 1700000000), 0);
    assert_eq!(l.append("E2", 1700000060), 1);
    assert_eq!(l.get(0).unwrap().hash, SEAL_E1);
    assert_eq!(l.get(1).unwrap().hash, SEAL_E2);
    assert_eq!(l.verify(), ChainStatus::Valid);
}

#[test]
fn digests_are_exact() {
    assert_eq!(content_digest("sample"), SAMPLE_DIGEST);
    assert_eq!(content_digest(""), EMPTY_DIGEST);
    assert_eq!(genesis_hash(), "0".repeat(64));
    assert_eq!(compute_hash(0, &"0".repeat(64), "E1", 1700000000), SEAL_E1);
    assert_eq!(compute_hash(1, SEAL_E1, "E2", 1700000060), SEAL_E2);
}

#[test]
fn store_register_and_lookup() {
    let mut st = Store::new();
    assert_eq!(st.register("A", "sample", "Investigator", 5), Ok(0));
    assert_eq!(st.register("B", "", "Analyst", 6), Ok(1));
    assert_eq!(st.register("A", "x", "Analyst", 7), Err(CustodyError::DuplicateId));
    assert_eq!(st.len(), 2);
    assert_eq!(st.position("B"), Some(1));
    assert_eq!(st.position("C"), None);
    let b = st.get("B").unwrap();
    assert_eq!(b.content_hash, EMPTY_DIGEST);
    assert_eq!(b.current_custodian, "Analyst");
    assert_eq!(st.transfer("A", "Prosecutor", 8), Ok(0));
    assert_eq!(st.transfer("C", "Prosecutor", 8), Err(CustodyError::NotFound));
    assert_eq!(st.get("A").unwrap().current_custodian, "Prosecutor");
    assert_eq!(st.list()[1].id, "B");
}

#[test]
fn role_names() {
    assert_eq!(Role::Investigator.name(), "Investigator");
    assert_eq!(Role::EvidenceOfficer.name(), "EvidenceOfficer");
    assert_eq!(Role::Analyst.name(), "Analyst");
    assert_eq!(Role::Prosecutor.name(), "Prosecutor");
}

#[test]
fn clock_stamps_registrations() {
    let before = get_current_timestamp();
    assert!(before > 1_600_000_000);
    let mut s = Session::new();
    s.register("E1", "sample", Role::Investigator).unwrap();
    s.transfer("E1", Role::Analyst).unwrap();
    let e = &s.list()[0];
    assert!(e.created_at >= before);
    assert_eq!(s.ledger.get(0).unwrap().timestamp, e.created_at);
    assert!(e.history[1].timestamp >= e.created_at);
    assert_eq!(s.verify(), ChainStatus::Valid);
}

#[test]
fn clock_readings_become_seconds() {
    assert_eq!(seconds_since_epoch(1700000000), 1700000000);
    assert_eq!(seconds_since_epoch(0), 0);
    assert_eq!(seconds_since_epoch(-5), 0);
    assert_eq!(seconds_since_epoch(i64::MIN), 0);
    assert_eq!(seconds_since_epoch(i64::MAX), i64::MAX as u64);
    assert!(get_current_timestamp() <= i64::MAX as u64);
}

#[test]
fn digests_are_lowercase_hex_of_length_64() {
    let mut s = Session::new();
    let r = s.register_at("E1", "Some Content", Role::Analyst, 3).unwrap();
    for d in [r.content_hash.clone(), s.ledger.get(0).unwrap().hash.clone(), content_digest("x")] {
        assert_eq!(d.len(), 64);
        assert!(d.chars().all(|c| c.is_ascii_digit() || ('a'..='f').contains(&c)));
    }
}
