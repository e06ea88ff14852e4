//! What can stop the check of the feature groups.
use vstd::prelude::*;
use vstd::string::*;

verus! {

/// Why the feature groups could not be checked. Every failure is fatal to
/// the build step.
#[derive(Debug)]
pub enum FeatureGroupError {
    /// The manifest file does not exist.
    ManifestNotFound { path: String },
    /// The manifest file exists but could not be read.
    ManifestUnreadable { path: String, reason: String },
    /// The manifest is not a well-formed TOML document, or its group table
    /// is not a table.
    ManifestMalformed { reason: String },
    /// A group is declared with something other than an array.
    InvalidGroupShape { group: String, found: String },
    /// An element of a group's array is not a string.
    InvalidOptionType { group: String, found: String },
    /// More than one option of a group is enabled.
    MultipleOptionsSelected { group: String },
    /// No option of a group is enabled.
    NoOptionSelected { group: String },
}

/// A failure as the contracts speak of it: its kind, and the names and
/// renderings it carries.
pub enum Failure {
    NotFound { path: Seq<char> },
    Unreadable { path: Seq<char> },
    Malformed,
    Shape { group: Seq<char>, found: Seq<char> },
    OptionType { group: Seq<char>, found: Seq<char> },
    Multiple { group: Seq<char> },
    NoneSelected { group: Seq<char> },
}

impl FeatureGroupError {
    pub open spec fn view(&self) -> Failure {
        match self {
            FeatureGroupError::ManifestNotFound { path } => Failure::NotFound { path: path@ },
            FeatureGroupError::ManifestUnreadable { path, .. } => Failure::Unreadable {
                path: path@,
            },
            FeatureGroupError::ManifestMalformed { .. } => Failure::Malformed,
            FeatureGroupError::InvalidGroupShape { group, found } => Failure::Shape {
                group: group@,
                found: found@,
            },
            FeatureGroupError::InvalidOptionType { group, found } => Failure::OptionType {
                group: group@,
                found: found@,
            },
            FeatureGroupError::MultipleOptionsSelected { group } => Failure::Multiple {
                group: group@,
            },
            FeatureGroupError::NoOptionSelected { group } => Failure::NoneSelected {
                group: group@,
            },
        }
    }
}

/// The human-readable text of a failure, naming the group and the offending
/// value where there are any.
pub open spec fn message_text(e: FeatureGroupError) -> Seq<char> {
    match e {
        FeatureGroupError::ManifestNotFound { path } => "manifest not found: "@ + path@,
        FeatureGroupError::ManifestUnreadable { path, reason } => "cannot read manifest "@ + path@
            + ": "@ + reason@,
        FeatureGroupError::ManifestMalformed { reason } => "malformed manifest: "@ + reason@,
        FeatureGroupError::InvalidGroupShape { group, found } => "feature group "@ + group@
            + " should be an array of features, found "@ + found@,
        FeatureGroupError::InvalidOptionType { group, found } => "invalid definition of feature group "@
            + group@ + "; features should be strings, found "@ + found@,
        FeatureGroupError::MultipleOptionsSelected { group } =>
            "multiple options defined for feature group "@ + group@,
        FeatureGroupError::NoOptionSelected { group } => "no option defined for feature group "@
            + group@,
    }
}

impl FeatureGroupError {
    /// The text that the build step aborts with.
    pub fn message(&self) -> (r: String)
        ensures
            r@ == message_text(*self),
    {
        match self {
            FeatureGroupError::ManifestNotFound { path } => {
                let mut r = String::from_str("manifest not found: ");
                r.append(path.as_str());
                r
            },
            FeatureGroupError::ManifestUnreadable { path, reason } => {
                let mut r = String::from_str("cannot read manifest ");
                r.append(path.as_str());
                r.append(": ");
                r.append(reason.as_str());
                r
            },
            FeatureGroupError::ManifestMalformed { reason } => {
                let mut r = String::from_str("malformed manifest: ");
                r.append(reason.as_str());
                r
            },
            FeatureGroupError::InvalidGroupShape { group, found } => {
                let mut r = String::from_str("feature group ");
                r.append(group.as_str());
                r.append(" should be an array of features, found ");
                r.append(found.as_str());
                r
            },
            FeatureGroupError::InvalidOptionType { group, found } => {
                let mut r = String::from_str("invalid definition of feature group ");
                r.append(group.as_str());
                r.append("; features should be strings, found ");
                r.append(found.as_str());
                r
            },
            FeatureGroupError::MultipleOptionsSelected { group } => {
                let mut r = String::from_str("multiple options defined for feature group ");
                r.append(group.as_str());
                r
            },
            FeatureGroupError::NoOptionSelected { group } => {
                let mut r = String::from_str("no option defined for feature group ");
                r.append(group.as_str());
                r
            },
        }
    }
}

} // verus!
