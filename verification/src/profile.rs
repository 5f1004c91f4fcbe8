use vstd::prelude::*;
use vstd::string::StringExecFns;

use crate::errors::ValidationErrors;
use crate::extract::assembled;
use crate::extract::conforms;
use crate::extract::initial;
use crate::extract::mismatch;
use crate::extract::outcome_of;
use crate::extract::requirement_views;
use crate::extract::ExtractionOutcome;
use crate::extract::FromMultipart;
use crate::extract::MultipartPull;
use crate::extract::PullOutcome;
use crate::extract::Requirement;
use crate::extract::RequirementView;
use crate::extract::WireKind;
use crate::file::UploadedFile;
use crate::record::Field;
use crate::record::FieldValue;
use crate::record::Record;
use crate::record::ValueView;
use crate::text::text_eq;
use crate::validator::verdict;
use crate::validator::Validate;

verus! {

/// A user's profile as a multipart form carries it: two text fields and one
/// uploaded file.
#[derive(Debug)]
pub struct UserProfile {
    pub username: String,
    pub email: String,
    pub avatar: UploadedFile,
}

impl UserProfile {
    /// Starts the pull of the parts of a profile.
    pub fn begin() -> (pull: MultipartPull)
        ensures
            pull.requirements() == Self::required(),
            pull.state() == initial(),
    {
        MultipartPull::new(Self::plan())
    }

    /// Ends a pull with the profile that its parts make up: the profile
    /// where every part of a profile was found, and the failure of the pull
    /// otherwise. A pull of other parts than those of a profile ends in a
    /// transport failure.
    pub fn parse_from_multipart(pull: MultipartPull) -> (outcome: ExtractionOutcome<UserProfile>)
        ensures
            match outcome_of(pull.requirements(), pull.state()) {
                PullOutcome::Failed(reason) => outcome
                    matches ExtractionOutcome::TransportFailure(words) && words@ == reason,
                PullOutcome::Complete(parts) => if conforms(parts, Self::required()) {
                    outcome matches ExtractionOutcome::Value(profile) && profile.username@
                        == parts[0].value->Text_0 && profile.email@ == parts[1].value->Text_0
                        && parts[2].value == ValueView::File(profile.avatar)
                } else {
                    outcome matches ExtractionOutcome::TransportFailure(words) && words@
                        == mismatch()
                },
            },
            pull.requirements() == Self::required() ==> (outcome is Value <==> outcome_of(
                pull.requirements(),
                pull.state(),
            ) is Complete),
    {
        match pull.finish() {
            ExtractionOutcome::Value(record) => assembled(Self::assemble(record)),
            ExtractionOutcome::TransportFailure(reason) => ExtractionOutcome::TransportFailure(
                reason,
            ),
            ExtractionOutcome::ValidationFailure(errors) => ExtractionOutcome::ValidationFailure(
                errors,
            ),
        }
    }
}

impl FromMultipart for UserProfile {
    /// A profile requires its user name and its email as texts and its
    /// avatar as a file, in this order.
    open spec fn required() -> Seq<RequirementView> {
        seq![
            RequirementView { name: "username"@, kind: WireKind::Text },
            RequirementView { name: "email"@, kind: WireKind::Text },
            RequirementView { name: "avatar"@, kind: WireKind::File },
        ]
    }

    /// The profile that the parts of `record` make up, where they are the
    /// required ones.
    open spec fn assembled(record: Record) -> Option<UserProfile> {
        if conforms(record@, Self::required()) {
            Some(
                UserProfile {
                    username: record.fields@[0].value->Text_0,
                    email: record.fields@[1].value->Text_0,
                    avatar: record.fields@[2].value->File_0,
                },
            )
        } else {
            None
        }
    }

    fn plan() -> (plan: Vec<Requirement>) {
        let mut plan: Vec<Requirement> = Vec::new();
        plan.push(Requirement { name: String::from_str("username"), kind: WireKind::Text });
        plan.push(Requirement { name: String::from_str("email"), kind: WireKind::Text });
        plan.push(Requirement { name: String::from_str("avatar"), kind: WireKind::File });
        assert(requirement_views(plan@) =~= Self::required());
        plan
    }

    fn assemble(record: Record) -> (value: Option<UserProfile>)
        ensures
            value is Some <==> conforms(record@, Self::required()),
    {
        let ghost parts = record@;
        let ghost required = Self::required();
        let mut fields = record.fields;
        if fields.len() != 3 {
            return None;
        }
        let third = fields.pop();
        let second = fields.pop();
        let first = fields.pop();
        proof {
            assert(first == Some(record.fields@[0]));
            assert(second == Some(record.fields@[1]));
            assert(third == Some(record.fields@[2]));
            assert(parts[0] == record.fields@[0]@);
            assert(parts[1] == record.fields@[1]@);
            assert(parts[2] == record.fields@[2]@);
            assert(required[0] == RequirementView { name: "username"@, kind: WireKind::Text });
            assert(required[1] == RequirementView { name: "email"@, kind: WireKind::Text });
            assert(required[2] == RequirementView { name: "avatar"@, kind: WireKind::File });
            assert(required.len() == 3);
        }
        match (first, second, third) {
            (
                Some(Field { name: first_name, value: FieldValue::Text(username) }),
                Some(Field { name: second_name, value: FieldValue::Text(email) }),
                Some(Field { name: third_name, value: FieldValue::File(avatar) }),
            ) => {
                if text_eq(first_name.as_str(), "username") && text_eq(second_name.as_str(), "email")
                    && text_eq(third_name.as_str(), "avatar") {
                    Some(UserProfile { username, email, avatar })
                } else {
                    None
                }
            },
            _ => None,
        }
    }
}

impl Validate for UserProfile {
    /// No rule is attached to a profile, so nothing is ever found on one.
    fn validate(&self) -> (checked: Result<(), ValidationErrors>)
        ensures
            checked is Ok,
    {
        verdict(ValidationErrors::new())
    }
}

} // verus!
