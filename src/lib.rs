//! Chain-of-custody tracking for evidence items: an evidence store whose
//! custody histories stay continuous, and an append-only, hash-linked ledger
//! that anchors every registration and detects tampering.
pub mod clock;
pub mod digest;
pub mod evidence;
pub mod ledger;
pub mod session;
