use vstd::prelude::*;
use crate::sources::model::Confidence;

verus! {

#[derive(Debug, Clone)]
pub struct ScanArgs {
    pub server: String,
    /// Accept single exact-name candidates without asking.
    pub accept_exact: bool,
}

pub open spec fn confidence_word(c: Confidence) -> Seq<char> {
    match c {
        Confidence::HashConfirmed => "hash-match"@,
        Confidence::ExactName => "exact-name"@,
        Confidence::NameMatch => "name-match"@,
        Confidence::Weak => "weak"@,
    }
}

/// How a candidate's confidence is shown.
pub fn confidence_str(c: Confidence) -> (r: &'static str)
    ensures
        r@ == confidence_word(c),
{
    match c {
        Confidence::HashConfirmed => "hash-match",
        Confidence::ExactName => "exact-name",
        Confidence::NameMatch => "name-match",
        Confidence::Weak => "weak",
    }
}

} // verus!
