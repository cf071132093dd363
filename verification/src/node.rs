//! The decisions a node makes about what arrives by gossip: which stubs it
//! accepts, the signer it records for each, the branch each one joins, the
//! message that publishes one, and which graph edges it stores. The node's network loop and
//! the content store run outside this library and call these.
use vstd::prelude::*;

use crate::branch_store::{
    branches_after_attach, first_branch_of, new_branch, stored_branch, with_attachment,
    with_branch, BranchState, BranchStore, BranchStub,
};
use crate::edges::{edge_signature_valid, verify_edge_signature};
use crate::format::Stub;
use crate::graph_store::{upserted, Edge, GraphStore};
use crate::messages::PulseMessage;
use crate::signer_store::{signers_after_add, SignerRecord, SignerStore};
use crate::validation::{validate_stub_at, validation_outcome, ValidationResult};
use crate::ext_std::unix_millis_now;

verus! {

/// The signer record of a stub: its content hash, author, timestamp and
/// signature.
pub open spec fn spec_signer_record(stub: Stub) -> SignerRecord {
    SignerRecord {
        content_hash: stub.content_hash,
        author_pubkey: stub.author_pubkey,
        timestamp: stub.timestamp,
        signature: stub.signature,
    }
}

/// The signer record of a stub.
pub fn signer_record(stub: &Stub) -> (r: SignerRecord)
    ensures
        r == spec_signer_record(*stub),
{
    SignerRecord {
        content_hash: stub.content_hash,
        author_pubkey: stub.author_pubkey,
        timestamp: stub.timestamp,
        signature: stub.signature,
    }
}

/// The stub that gossiped bytes carry, when they decode to a stub that is
/// valid at time `now`; `None` otherwise.
pub fn accept_stub_bytes_at(stub_bytes: &[u8], now: u64) -> (r: Option<Stub>)
    ensures
        r is Some ==> Stub::spec_parses(stub_bytes@),
        !Stub::spec_parses(stub_bytes@) ==> r is None,
        r matches Some(s) ==> s.spec_decodes_from(stub_bytes@) && validation_outcome(
            s,
            now,
            ValidationResult::Valid,
        ),
        Stub::spec_parses(stub_bytes@) && r is None ==> exists|s: Stub|
            s.spec_decodes_from(stub_bytes@) && !validation_outcome(s, now, ValidationResult::Valid),
{
    let stub = match Stub::from_bytes(stub_bytes) {
        Ok(s) => s,
        Err(_) => return None,
    };
    let result = validate_stub_at(&stub, now);
    if result.is_valid() {
        Some(stub)
    } else {
        proof {
            assert(stub.spec_decodes_from(stub_bytes@));
        }
        None
    }
}

/// Whether `r` is what accepting gossiped `bytes` at time `now` gives: the
/// stub they decode to when it is valid at `now`; `None` when they do not
/// decode, or decode to a stub that is not valid at `now`.
pub open spec fn accepted_at(bytes: Seq<u8>, now: u64, r: Option<Stub>) -> bool {
    match r {
        Some(s) => Stub::spec_parses(bytes) && s.spec_decodes_from(bytes) && validation_outcome(
            s,
            now,
            ValidationResult::Valid,
        ),
        None => !Stub::spec_parses(bytes) || exists|s: Stub|
            s.spec_decodes_from(bytes) && !validation_outcome(s, now, ValidationResult::Valid),
    }
}

/// The stub that gossiped bytes carry, when they decode to a stub that is
/// valid now: the outcome of accepting them at the time the clock reads
/// (time 0 where it reads before the Unix epoch).
pub fn accept_stub_bytes(stub_bytes: &[u8]) -> (r: Option<Stub>)
    ensures
        !Stub::spec_parses(stub_bytes@) ==> r is None,
        r matches Some(s) ==> s.spec_decodes_from(stub_bytes@) && exists|now: u64|
            validation_outcome(s, now, ValidationResult::Valid),
        exists|now: u64| #[trigger] accepted_at(stub_bytes@, now, r),
{
    let now = match unix_millis_now() {
        Some(t) => t,
        None => 0,
    };
    let r = accept_stub_bytes_at(stub_bytes, now);
    assert(accepted_at(stub_bytes@, now, r));
    r
}

/// Record the signer of a stub; done for every accepted stub, also when
/// its content is already stored.
pub fn record_signer(signers: &mut SignerStore, stub: &Stub)
    ensures
        final(signers)@ == signers_after_add(old(signers)@, spec_signer_record(*stub)),
{
    let record = signer_record(stub);
    let _ = signers.add_signer(&record);
}

/// The branch that a stub joins, given the recorded attachments: a root
/// stub starts its own; a reply joins the branch of its parent's first
/// attachment, or, when the parent has none, the branch named by the
/// parent's hash.
pub open spec fn joined_branch(attachments: Seq<BranchStub>, stub: Stub) -> [u8; 32] {
    if stub.branch_vector.spec_is_root() {
        stub.content_hash
    } else {
        match first_branch_of(attachments, stub.branch_vector.parent_hash) {
            Some(b) => b,
            None => stub.branch_vector.parent_hash,
        }
    }
}

/// The branch that a stub joins, given the branch state.
pub fn branch_to_join(branches: &BranchStore, stub: &Stub) -> (r: [u8; 32])
    ensures
        r == joined_branch(branches.attachments(), *stub),
{
    if stub.branch_vector.is_root() {
        stub.content_hash
    } else {
        match branches.find_branch_for_stub(&stub.branch_vector.parent_hash) {
            Ok(Some(id)) => id,
            Ok(None) => stub.branch_vector.parent_hash,
            Err(_) => stub.branch_vector.parent_hash,
        }
    }
}

/// What a stub changed in the branch state, for a store that keeps a copy:
/// the attachment it made, and the state of the branch it joined.
#[derive(Debug, Clone, Copy)]
pub struct BranchUpdate {
    /// The branch as it stands after the update; `None` when no such
    /// branch is stored.
    pub branch: Option<BranchState>,
    /// The attachment of the stub to that branch.
    pub attachment: BranchStub,
}

/// The branch that a stub goes to: a root stub starts its own branch; a
/// reply joins the branch of its parent.
pub open spec fn target_branch(rows: Seq<BranchStub>, stub: Stub) -> [u8; 32] {
    if stub.branch_vector.spec_is_root() {
        stub.content_hash
    } else {
        joined_branch(rows, stub)
    }
}

/// The branches after a newly stored stub: a root stub creates its branch
/// (unless it exists); a reply updates the branch it joins, unless it is
/// already attached there.
pub open spec fn branches_after_stub(
    branches: Seq<BranchState>,
    rows: Seq<BranchStub>,
    stub: Stub,
) -> Seq<BranchState> {
    if stub.branch_vector.spec_is_root() {
        with_branch(branches, new_branch(stub.content_hash, stub.timestamp))
    } else {
        branches_after_attach(
            branches,
            rows,
            joined_branch(rows, stub),
            stub.content_hash,
            stub.timestamp,
        )
    }
}

/// The attachments after a newly stored stub: its attachment to the branch
/// it goes to, unless that attachment is there.
pub open spec fn attachments_after_stub(rows: Seq<BranchStub>, stub: Stub) -> Seq<BranchStub> {
    with_attachment(
        rows,
        BranchStub {
            branch_id: target_branch(rows, stub),
            content_hash: stub.content_hash,
            timestamp: stub.timestamp,
        },
    )
}

/// Update the branch state for a newly stored stub: a root stub creates its
/// branch; a reply is attached to the branch it joins. Returns the
/// attachment and the resulting state of that branch.
pub fn update_branch_state(branches: &mut BranchStore, stub: &Stub) -> (r: BranchUpdate)
    ensures
        final(branches).branches() == branches_after_stub(
            old(branches).branches(),
            old(branches).attachments(),
            *stub,
        ),
        final(branches).attachments() == attachments_after_stub(old(branches).attachments(), *stub),
        r.attachment == (BranchStub {
            branch_id: target_branch(old(branches).attachments(), *stub),
            content_hash: stub.content_hash,
            timestamp: stub.timestamp,
        }),
        r.branch == stored_branch(
            final(branches).branches(),
            target_branch(old(branches).attachments(), *stub),
        ),
{
    let branch_id = if stub.branch_vector.is_root() {
        let _ = branches.create_branch(&stub.content_hash, stub.timestamp);
        stub.content_hash
    } else {
        let id = branch_to_join(branches, stub);
        let _ = branches.attach_stub(&id, &stub.content_hash, stub.timestamp);
        id
    };
    let branch = match branches.get_branch(&branch_id) {
        Ok(o) => o,
        Err(_) => None,
    };
    BranchUpdate {
        branch,
        attachment: BranchStub {
            branch_id,
            content_hash: stub.content_hash,
            timestamp: stub.timestamp,
        },
    }
}

/// Take in an edge that arrived by gossip: it is stored (replacing one
/// with the same key) exactly when its signature checks out. Returns
/// whether it was stored.
pub fn accept_edge(store: &mut GraphStore, edge: &Edge) -> (r: bool)
    ensures
        r == edge_signature_valid(*edge),
        final(store)@ == (if r {
            upserted(old(store)@, *edge)
        } else {
            old(store)@
        }),
{
    if !verify_edge_signature(edge) {
        return false;
    }
    let _ = store.put_edge(edge);
    true
}

/// Take in a stub that was accepted, from gossip or from its own author:
/// its signer is always recorded; when its content was newly stored
/// (`content_is_new`), the branch state is updated for it, and the update
/// is returned. Content that was stored before, or could not be stored,
/// leaves the branches as they are.
pub fn ingest_stub(
    signers: &mut SignerStore,
    branches: &mut BranchStore,
    stub: &Stub,
    content_is_new: bool,
) -> (r: Option<BranchUpdate>)
    ensures
        final(signers)@ == signers_after_add(old(signers)@, spec_signer_record(*stub)),
        r is Some <==> content_is_new,
        content_is_new ==> {
            &&& final(branches).branches() == branches_after_stub(
                old(branches).branches(),
                old(branches).attachments(),
                *stub,
            )
            &&& final(branches).attachments() == attachments_after_stub(
                old(branches).attachments(),
                *stub,
            )
            &&& r matches Some(u) && u.attachment == (BranchStub {
                branch_id: target_branch(old(branches).attachments(), *stub),
                content_hash: stub.content_hash,
                timestamp: stub.timestamp,
            }) && u.branch == stored_branch(
                final(branches).branches(),
                target_branch(old(branches).attachments(), *stub),
            )
        },
        !content_is_new ==> final(branches).branches() == old(branches).branches()
            && final(branches).attachments() == old(branches).attachments(),
{
    record_signer(signers, stub);
    if content_is_new {
        Some(update_branch_state(branches, stub))
    } else {
        None
    }
}

/// The gossip message that publishes a stub: its binary form; `None` when
/// the stub cannot be encoded.
pub fn stub_message(stub: &Stub) -> (r: Option<PulseMessage>)
    ensures
        stub.branch_vector.spec_bytes().len() <= crate::format::MAX_BRANCH_VECTOR_LEN ==> (r matches Some(
            PulseMessage::NewStub { stub_bytes },
        ) && stub_bytes@ == stub.spec_bytes()),
        stub.branch_vector.spec_bytes().len() > crate::format::MAX_BRANCH_VECTOR_LEN ==> r is None,
{
    match stub.to_bytes() {
        Ok(stub_bytes) => Some(PulseMessage::NewStub { stub_bytes }),
        Err(_) => None,
    }
}

} // verus!
