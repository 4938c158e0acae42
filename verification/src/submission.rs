use vstd::prelude::*;

verus! {

/// The three-field payload a submitter provides through the form: an optional
/// account handle, a party/category line, and the statement body.
#[derive(Debug)]
pub struct SenateCFCModal {
    pub reddit_user: Option<String>,
    pub party: String,
    pub cfc: String,
}

/// Mathematical model of a submission: the three fields as character sequences.
pub ghost struct SubmissionView {
    pub reddit_user: Option<Seq<char>>,
    pub party: Seq<char>,
    pub cfc: Seq<char>,
}

impl View for SenateCFCModal {
    type V = SubmissionView;

    open spec fn view(&self) -> SubmissionView {
        SubmissionView {
            reddit_user: match self.reddit_user {
                Option::Some(s) => Option::Some(s@),
                Option::None => Option::None,
            },
            party: self.party@,
            cfc: self.cfc@,
        }
    }
}

/// A submission with no content in any field is treated as "no submission":
/// it is never published and never stored.
pub open spec fn spec_is_empty(v: SubmissionView) -> bool {
    &&& match v.reddit_user {
        Option::Some(h) => h.len() == 0,
        Option::None => true,
    }
    &&& v.party.len() == 0
    &&& v.cfc.len() == 0
}

impl SenateCFCModal {
    /// True exactly when every field is empty (a missing handle counts as empty).
    pub fn is_empty(&self) -> (r: bool)
        ensures
            r == spec_is_empty(self@),
    {
        let handle_empty = match &self.reddit_user {
            Option::Some(s) => s.as_str().is_empty(),
            Option::None => true,
        };
        handle_empty && self.party.as_str().is_empty() && self.cfc.as_str().is_empty()
    }
}

} // verus!
