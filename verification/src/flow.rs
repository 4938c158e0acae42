use vstd::prelude::*;
use vstd::string::StringExecFns;
use crate::codec::{decode_submission, spec_decode};
use crate::store::{SubmissionRecord, SubmissionStore};
use crate::submission::{spec_is_empty, SenateCFCModal, SubmissionView};
use crate::text::{spec_u64_string, u64_to_string};
use crate::trigger::{should_proceed, spec_should_proceed};

verus! {

/// The standard broadcast form of a submission: the handle (or the fallback
/// line when there is none), the party, a blank line, then the statement.
pub open spec fn spec_render(v: SubmissionView) -> Seq<char> {
    "/"@ + (match v.reddit_user {
        Option::Some(h) => h,
        Option::None => "No Reddit Account"@,
    }) + " | "@ + v.party + "\n\n"@ + v.cfc
}

/// Render a submission into its broadcast form.
pub fn render_submission(m: &SenateCFCModal) -> (r: String)
    ensures
        r@ == spec_render(m@),
{
    let mut s = String::new();
    s.append("/");
    match &m.reddit_user {
        Option::Some(h) => s.append(h.as_str()),
        Option::None => s.append("No Reddit Account"),
    }
    s.append(" | ");
    s.append(m.party.as_str());
    s.append("\n\n");
    s.append(m.cfc.as_str());
    proof {
        assert(s@ =~= spec_render(m@));
    }
    s
}

/// The full published message: an author attribution line, then the rendered
/// submission.
pub open spec fn spec_content(submitter_id: u64, v: SubmissionView) -> Seq<char> {
    "<@"@ + spec_u64_string(submitter_id as nat) + ">\n"@ + spec_render(v)
}

/// Render the full published message for a submitter.
pub fn render_content(submitter_id: u64, m: &SenateCFCModal) -> (r: String)
    ensures
        r@ == spec_content(submitter_id, m@),
{
    let mut s = String::new();
    s.append("<@");
    let id_str = u64_to_string(submitter_id);
    s.append(id_str.as_str());
    s.append(">\n");
    let body = render_submission(m);
    s.append(body.as_str());
    proof {
        assert(s@ =~= spec_content(submitter_id, m@));
    }
    s
}

/// How a submission is to be published: as a new message, or as an edit of
/// the message identified by the submitter's prior record.
pub enum PublishAction {
    Create,
    Edit(u64),
}

/// The create-vs-edit decision: a submitter with a stored record has their
/// earlier message edited; anyone else gets a new message.
pub open spec fn spec_publish_action(store: Map<u64, SubmissionRecord>, submitter_id: u64) -> PublishAction {
    if store.contains_key(submitter_id) {
        PublishAction::Edit(store[submitter_id].published_message_id)
    } else {
        PublishAction::Create
    }
}

/// Decide how to publish for a submitter, from the store's current state.
pub fn publish_action(store: &SubmissionStore, submitter_id: u64) -> (r: PublishAction)
    ensures
        r == spec_publish_action(store@, submitter_id),
{
    match store.get(submitter_id) {
        Option::Some(rec) => PublishAction::Edit(rec.published_message_id),
        Option::None => PublishAction::Create,
    }
}

/// What the orchestration does with an inbound interaction: nothing, or open
/// a form tagged with the submitter's correlation identifier and
/// pre-populated with the prior answers, if any decode.
pub enum FlowAction {
    Ignore,
    OpenForm(u64, Option<SenateCFCModal>),
}

/// The prior answers a form is pre-populated with: the submitter's stored
/// payload, when there is one and it decodes.
pub open spec fn spec_prefill(store: Map<u64, SubmissionRecord>, submitter_id: u64) -> Option<SubmissionView> {
    if store.contains_key(submitter_id) {
        spec_decode(store[submitter_id].encoded_payload@)
    } else {
        Option::None
    }
}

/// Handle an inbound interaction: ignore it unless its token parses and a
/// collection session is active; otherwise open a form for the submitter,
/// pre-populated from their prior record.
pub fn on_component_interaction(
    store: &SubmissionStore,
    destination: u64,
    token: &str,
    submitter_id: u64,
) -> (r: FlowAction)
    ensures
        (r is Ignore) == !spec_should_proceed(token@, destination),
        (match r {
            FlowAction::Ignore => true,
            FlowAction::OpenForm(cid, prefill) => cid == submitter_id && (match prefill {
                Option::Some(p) => spec_prefill(store@, submitter_id) == Option::Some(p@),
                Option::None => spec_prefill(store@, submitter_id) is None,
            }),
        }),
{
    if !should_proceed(token, destination) {
        return FlowAction::Ignore;
    }
    let prefill = match store.get(submitter_id) {
        Option::Some(rec) => decode_submission(&rec.encoded_payload),
        Option::None => Option::None,
    };
    FlowAction::OpenForm(submitter_id, prefill)
}

/// What the orchestration does once the form round is over: publish the
/// rendered submission, or send the submitter the fixed private notice that
/// the form was empty or unanswered.
pub enum SubmissionOutcome {
    Notice,
    Publish(String, PublishAction),
}

/// Handle the form round's result. A timeout (`None`) or an empty submission
/// never reaches the publisher: both yield the private notice, and the store
/// is left untouched. A non-empty submission is rendered and handed to the
/// publisher with the create-vs-edit decision.
pub fn on_form_outcome(
    store: &SubmissionStore,
    submitter_id: u64,
    outcome: Option<SenateCFCModal>,
) -> (r: SubmissionOutcome)
    ensures
        (match outcome {
            Option::None => r is Notice,
            Option::Some(m) => if spec_is_empty(m@) {
                r is Notice
            } else {
                match r {
                    SubmissionOutcome::Publish(content, action) => content@ == spec_content(
                        submitter_id,
                        m@,
                    ) && action == spec_publish_action(store@, submitter_id),
                    SubmissionOutcome::Notice => false,
                }
            },
        }),
{
    match outcome {
        Option::None => SubmissionOutcome::Notice,
        Option::Some(m) => {
            if m.is_empty() {
                SubmissionOutcome::Notice
            } else {
                let content = render_content(submitter_id, &m);
                let action = publish_action(store, submitter_id);
                SubmissionOutcome::Publish(content, action)
            }
        },
    }
}

/// A returning submitter's form is pre-populated with exactly what they last
/// submitted: a record whose payload is a submission's encoding decodes back
/// to that submission.
pub proof fn lemma_prefill_round_trip(
    store: Map<u64, SubmissionRecord>,
    submitter_id: u64,
    v: SubmissionView,
)
    requires
        store.contains_key(submitter_id),
        store[submitter_id].encoded_payload@ == crate::codec::spec_encode(v),
        (v.reddit_user matches Option::Some(h) ==> h.len() <= 0xFFFF_FFFF_FFFF_FFFF),
        v.party.len() <= 0xFFFF_FFFF_FFFF_FFFF,
        v.cfc.len() <= 0xFFFF_FFFF_FFFF_FFFF,
    ensures
        spec_prefill(store, submitter_id) == Option::Some(v),
{
    crate::codec::lemma_round_trip(v);
}

/// First submission: a submitter with no stored record gets a freshly created
/// message, and recording the publication adds exactly one record, which
/// holds that message's id; nobody else's record moves.
pub proof fn lemma_first_submission(
    store: Map<u64, SubmissionRecord>,
    submitter_id: u64,
    rec: SubmissionRecord,
)
    requires
        !store.contains_key(submitter_id),
    ensures
        spec_publish_action(store, submitter_id) is Create,
        store.insert(submitter_id, rec).contains_key(submitter_id),
        store.insert(submitter_id, rec)[submitter_id] == rec,
        store.insert(submitter_id, rec).dom() =~= store.dom().insert(submitter_id),
        store.dom().finite() ==> store.insert(submitter_id, rec).dom().len() == store.dom().len()
            + 1,
        forall|k: u64|
            k != submitter_id && store.contains_key(k) ==> store.insert(submitter_id, rec)[k]
                == store[k],
{
}

/// Resubmission: a submitter with a stored record has the same message edited
/// (the action carries the stored message id), the record is overwritten in
/// place, and the number of records does not change — so the message count on
/// the destination does not increase.
pub proof fn lemma_resubmission_edits(
    store: Map<u64, SubmissionRecord>,
    submitter_id: u64,
    rec: SubmissionRecord,
)
    requires
        store.contains_key(submitter_id),
    ensures
        spec_publish_action(store, submitter_id) == PublishAction::Edit(
            store[submitter_id].published_message_id,
        ),
        store.insert(submitter_id, rec).contains_key(submitter_id),
        store.insert(submitter_id, rec)[submitter_id] == rec,
        store.insert(submitter_id, rec).dom() =~= store.dom(),
        store.dom().finite() ==> store.insert(submitter_id, rec).dom().len()
            == store.dom().len(),
        forall|k: u64|
            k != submitter_id && store.contains_key(k) ==> store.insert(submitter_id, rec)[k]
                == store[k],
{
    assert(store.insert(submitter_id, rec).dom() =~= store.dom());
}

} // verus!
