use vstd::prelude::*;

verus! {

/// The errors a domain operation can end in.
#[derive(Debug)]
pub enum DomainError {
    NotFound { entity: &'static str },
    AlreadyExists { entity: &'static str, reason: String },
    InvariantViolation(String),
    Validation(String),
    Infrastructure(String),
}

impl DomainError {
    /// The human-readable text of the error.
    pub open spec fn spec_message(&self) -> Seq<char> {
        match self {
            DomainError::NotFound { entity } => entity@ + " not found"@,
            DomainError::AlreadyExists { entity, reason } => entity@ + " already exists: "@
                + reason@,
            DomainError::InvariantViolation(detail) => "Business rule violated: "@ + detail@,
            DomainError::Validation(detail) => "Validation error: "@ + detail@,
            DomainError::Infrastructure(detail) => "Infrastructure error: "@ + detail@,
        }
    }

    /// The human-readable text of the error, as its `Display` shows it.
    pub fn message(&self) -> (text: String)
        ensures
            text@ == self.spec_message(),
    {
        match self {
            DomainError::NotFound { entity } => String::from_str(entity).concat(" not found"),
            DomainError::AlreadyExists { entity, reason } => String::from_str(entity).concat(
                " already exists: ",
            ).concat(reason.as_str()),
            DomainError::InvariantViolation(detail) => String::from_str(
                "Business rule violated: ",
            ).concat(detail.as_str()),
            DomainError::Validation(detail) => String::from_str("Validation error: ").concat(
                detail.as_str(),
            ),
            DomainError::Infrastructure(detail) => String::from_str(
                "Infrastructure error: ",
            ).concat(detail.as_str()),
        }
    }
}

} // verus!
