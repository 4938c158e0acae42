use vstd::prelude::*;
use std::collections::HashSet;
use crate::error::Error;
use crate::submission::{SenateCFCModal, SubmissionView};
use crate::text::{spec_u64_string, u64_to_string};
use vstd::string::StringExecFns;

verus! {

broadcast use vstd::std_specs::hash::group_hash_axioms;

/// The tag attached to a form so that its eventual submission event can be
/// matched back to the submitter that opened it: the submitter identifier
/// followed by a fixed suffix.
pub open spec fn spec_correlation_tag(submitter_id: u64) -> Seq<char> {
    spec_u64_string(submitter_id as nat) + "_cfc"@
}

/// Render the correlation tag for a submitter.
pub fn correlation_tag(submitter_id: u64) -> (r: String)
    ensures
        r@ == spec_correlation_tag(submitter_id),
{
    let mut s = u64_to_string(submitter_id);
    s.append("_cfc");
    s
}

/// The registration table of the form collector: which correlation
/// identifiers have a collector waiting for a submission event. At most one
/// waiting collector is registered per identifier at a time.
pub struct CollectorRegistry {
    waiting: HashSet<u64>,
}

impl View for CollectorRegistry {
    type V = Set<u64>;

    closed spec fn view(&self) -> Set<u64> {
        self.waiting@
    }
}

impl CollectorRegistry {
    /// An empty table: no collector is waiting.
    pub fn new() -> (r: Self)
        ensures
            r@ == Set::<u64>::empty(),
    {
        CollectorRegistry { waiting: HashSet::new() }
    }

    /// Register a collector for a correlation identifier. Fails (and changes
    /// nothing) when one is already waiting: a given identifier can have only
    /// one outstanding collector.
    pub fn register(&mut self, correlation_id: u64) -> (r: bool)
        ensures
            r == !old(self)@.contains(correlation_id),
            final(self)@ == old(self)@.insert(correlation_id),
    {
        self.waiting.insert(correlation_id)
    }

    /// A submission event arrived: consume the matching registration, telling
    /// the caller whether any collector was waiting for it. A consumed
    /// registration is gone, so no later event can satisfy it again.
    pub fn resolve(&mut self, correlation_id: u64) -> (r: bool)
        ensures
            r == old(self)@.contains(correlation_id),
            final(self)@ == old(self)@.remove(correlation_id),
    {
        self.waiting.remove(&correlation_id)
    }

    /// The wait timed out: drop the registration so that no dangling
    /// collector keeps consuming later events.
    pub fn cancel(&mut self, correlation_id: u64)
        ensures
            final(self)@ == old(self)@.remove(correlation_id),
    {
        self.waiting.remove(&correlation_id);
    }
}

/// A form submission event arrived: consume the matching registration, if
/// any, and parse the event's fields. Yields nothing when no collector was
/// waiting for the identifier (a late or unrelated event is dropped); a
/// waiting collector gets the parsed submission, or the parse error, which
/// is never swallowed.
pub fn on_submission_event(
    registry: &mut CollectorRegistry,
    correlation_id: u64,
    fields: &Vec<(String, String)>,
) -> (r: Option<Result<SenateCFCModal, Error>>)
    ensures
        final(registry)@ == old(registry)@.remove(correlation_id),
        (r is Some) == old(registry)@.contains(correlation_id),
        (match r {
            Option::Some(Result::Ok(m)) => spec_parse_fields(fields@) == Option::Some(m@),
            Option::Some(Result::Err(e)) => spec_parse_fields(fields@) is None && e
                == Error::Parse,
            Option::None => true,
        }),
{
    if registry.resolve(correlation_id) {
        Option::Some(parse_fields(fields))
    } else {
        Option::None
    }
}

/// What the submitted fields mean: exactly three values, in order the handle
/// (empty meaning none), the party, and the statement.
pub open spec fn spec_parse_fields(fields: Seq<(String, String)>) -> Option<SubmissionView> {
    if fields.len() == 3 {
        Option::Some(
            (SubmissionView {
                reddit_user: if fields[0].1@.len() == 0 {
                    Option::None
                } else {
                    Option::Some(fields[0].1@)
                },
                party: fields[1].1@,
                cfc: fields[2].1@,
            }),
        )
    } else {
        Option::None
    }
}

/// Parse a form submission event's `(label, value)` fields into a
/// submission. Anything but exactly three fields is a parse error; parsing
/// must not fail silently.
pub fn parse_fields(fields: &Vec<(String, String)>) -> (r: Result<SenateCFCModal, Error>)
    ensures
        match r {
            Result::Ok(m) => spec_parse_fields(fields@) == Option::Some(m@),
            Result::Err(e) => spec_parse_fields(fields@) is None && e == Error::Parse,
        },
{
    if fields.len() != 3 {
        return Result::Err(Error::Parse);
    }
    let handle_raw = &fields[0].1;
    let reddit_user = if handle_raw.as_str().is_empty() {
        Option::None
    } else {
        Option::Some(handle_raw.clone())
    };
    let party = fields[1].1.clone();
    let cfc = fields[2].1.clone();
    Result::Ok(SenateCFCModal { reddit_user, party, cfc })
}

} // verus!
