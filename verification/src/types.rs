//! Records exchanged with the rest of the network.
use vstd::prelude::*;

verus! {

/// Where an organization's memory may go.
#[derive(Debug, Clone, PartialEq)]
pub enum ExportPolicy {
    LocalOnly,
    AllowList,
    Unrestricted,
}

/// An organization's settings.
#[derive(Debug, Clone)]
pub struct OrgConfig {
    pub org_id: String,
    pub org_name: String,
    pub leader_pubkey: String,
    pub current_epoch: u32,
    pub egress_mode: ExportPolicy,
    pub allowed_providers: Vec<String>,
}

/// A submission waiting for moderation.
#[derive(Debug, Clone)]
pub struct ModerationQueueEntry {
    pub submission_hash: String,
    pub org_id: String,
    pub epoch_id: u32,
    pub contributor_pubkey: String,
    pub stack_hint: Vec<String>,
    pub created_at: String,
    pub status: SubmissionStatus,
}

/// Where a submission stands.
#[derive(Debug, Clone, PartialEq)]
pub enum SubmissionStatus {
    PendingKeyword,
    PendingChain,
    Committed,
    Denied,
}

/// A record of access paid for in a billing epoch.
#[derive(Debug, Clone)]
pub struct UsageReceipt {
    pub receipt_id: String,
    pub org_id: String,
    pub billing_epoch: u32,
    pub access_epochs: Vec<u32>,
    pub agent_pubkey: String,
    pub query_commitment: String,
    pub result_commitment: String,
    pub agent_signature: String,
    pub node_signature: String,
    pub created_at: String,
}

} // verus!
