//! Outcome tags returned by every operation of the engine.

use vstd::prelude::*;

verus! {

/// The outcome of an operation. Every tag is an ordinary return value that
/// names one precondition that held or failed; none reports a fault of the
/// store itself.
#[derive(Clone, Copy, Debug, PartialEq, Eq, Structural)]
pub enum Result {
    Success,
    DoesntExist,
    Exists,
    TableOccupied,
    TableUnoccupied,
    VariantDoesntExist,
    SizeDoesntExist,
    NoPermission,
    NoSession,
}

impl Result {
    /// The name of the tag, which is the text sent to the caller.
    pub open spec fn name(self) -> Seq<char> {
        match self {
            Result::Success => "Success"@,
            Result::DoesntExist => "DoesntExist"@,
            Result::Exists => "Exists"@,
            Result::TableOccupied => "TableOccupied"@,
            Result::TableUnoccupied => "TableUnoccupied"@,
            Result::VariantDoesntExist => "VariantDoesntExist"@,
            Result::SizeDoesntExist => "SizeDoesntExist"@,
            Result::NoPermission => "NoPermission"@,
            Result::NoSession => "NoSession"@,
        }
    }

    /// The name of the tag.
    pub fn to_string(&self) -> (text: String)
        ensures
            text@ == self.name(),
    {
        match self {
            Result::Success => "Success".to_owned(),
            Result::DoesntExist => "DoesntExist".to_owned(),
            Result::Exists => "Exists".to_owned(),
            Result::TableOccupied => "TableOccupied".to_owned(),
            Result::TableUnoccupied => "TableUnoccupied".to_owned(),
            Result::VariantDoesntExist => "VariantDoesntExist".to_owned(),
            Result::SizeDoesntExist => "SizeDoesntExist".to_owned(),
            Result::NoPermission => "NoPermission".to_owned(),
            Result::NoSession => "NoSession".to_owned(),
        }
    }
}

} // verus!
