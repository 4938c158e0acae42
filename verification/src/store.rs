use vstd::prelude::*;
use std::collections::HashMap;
use crate::submission::SenateCFCModal;
use crate::codec::{encode_submission, spec_encode};

verus! {

broadcast use vstd::std_specs::hash::group_hash_axioms;

/// What is kept for one submitter: the encoded last payload and the id of the
/// message it was published as.
pub struct SubmissionRecord {
    pub encoded_payload: Vec<u8>,
    pub published_message_id: u64,
}

/// Process-resident map from submitter identifier to the record of the last
/// submission. One record per submitter: a later submission replaces it.
pub struct SubmissionStore {
    records: HashMap<u64, SubmissionRecord>,
}

impl View for SubmissionStore {
    type V = Map<u64, SubmissionRecord>;

    closed spec fn view(&self) -> Map<u64, SubmissionRecord> {
        self.records@
    }
}

impl SubmissionStore {
    /// An empty store: no submitter has a record yet.
    pub fn new() -> (r: Self)
        ensures
            r@ == Map::<u64, SubmissionRecord>::empty(),
    {
        SubmissionStore { records: HashMap::new() }
    }

    /// The record of a submitter, if one exists.
    pub fn get(&self, submitter_id: u64) -> (r: Option<&SubmissionRecord>)
        ensures
            match r {
                Option::Some(rec) => self@.contains_key(submitter_id) && *rec
                    == self@.index(submitter_id),
                Option::None => !self@.contains_key(submitter_id),
            },
    {
        self.records.get(&submitter_id)
    }

    /// Upsert: create the submitter's record or overwrite it in place.
    pub fn put(&mut self, submitter_id: u64, encoded_payload: Vec<u8>, published_message_id: u64)
        ensures
            final(self)@ == old(self)@.insert(
                submitter_id,
                (SubmissionRecord { encoded_payload, published_message_id }),
            ),
    {
        self.records.insert(
            submitter_id,
            SubmissionRecord { encoded_payload, published_message_id },
        );
    }

    /// Store a just-published submission: the encoded payload together with
    /// the id of the message it went out as.
    pub fn record_publication(&mut self, submitter_id: u64, m: &SenateCFCModal, message_id: u64)
        ensures
            final(self)@.dom() == old(self)@.dom().insert(submitter_id),
            final(self)@.contains_key(submitter_id),
            final(self)@[submitter_id].encoded_payload@ == spec_encode(m@),
            final(self)@[submitter_id].published_message_id == message_id,
            forall|k: u64|
                k != submitter_id && old(self)@.contains_key(k) ==> final(self)@.contains_key(k)
                    && final(self)@[k] == old(self)@[k],
    {
        let payload = encode_submission(m);
        self.put(submitter_id, payload, message_id);
        proof {
            assert(self@.dom() =~= old(self)@.dom().insert(submitter_id));
        }
    }
}

} // verus!
