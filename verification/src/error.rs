//! Diagnostics raised while validating a container or field description.
//!
//! Every error is a hard stop: the first failure at any stage aborts the whole
//! transformation, and no partial model or partial output is produced.

use vstd::prelude::*;
use vstd::string::StringExecFns;

verus! {

/// One diagnostic. Variants that blame a particular token carry the
/// offending identifier so the rendered message can name it.
#[derive(Clone, Debug, PartialEq, Eq)]
pub enum BitsError {
    /// A `field(...)` attribute with no tokens at all.
    EmptyFieldAttr,
    /// More than one of `R`, `W`, `RW` in one `field(...)` attribute.
    MultiplePermTokens,
    /// More than one bit range in one `field(...)` attribute.
    MultipleRangeTokens,
    /// No bit range in a `field(...)` attribute; exactly one is mandatory.
    MissingRange,
    /// An identifier in a `field(...)` attribute outside `R`, `W`, `RW`, `Try`.
    UnknownFieldArg(String),
    /// A token in a `field(...)` attribute that is neither an identifier
    /// nor a range expression.
    UnparsableFieldToken,
    /// The annotated item has generic parameters.
    GenericNotAllowed,
    /// The annotated item is not a struct.
    OnlyStructAllowed,
    /// The annotated struct has no fields.
    EmptyFields,
    /// A field of the annotated struct has no name.
    UnnamedField,
    /// A field carries an attribute other than `field(...)` or documentation.
    DisallowedAttr,
    /// A field carries no `field(...)` attribute.
    MissingFieldAttr,
    /// A field carries more than one `field(...)` attribute.
    MultipleFieldAttrs,
    /// Two backing-width tokens in one container attribute.
    DuplicatedContainerType,
    /// No backing-width token in the container attribute.
    MissingContainerType,
    /// A container-attribute token outside the recognized set.
    UnknownContainerAttr,
    /// `export` with more than one scope-path argument.
    TooManyExportArgs,
    /// An `export` argument that is not a path.
    ExportArgNotPath,
}

/// The message text of one diagnostic.
pub open spec fn error_text(e: BitsError) -> Seq<char> {
    match e {
        BitsError::EmptyFieldAttr => "Attribute \"field\" cannot be empty"@,
        BitsError::MultiplePermTokens => "Only a single perm token is allowed, one of (R, W, RW)"@,
        BitsError::MultipleRangeTokens
            => "Only a single range token is allowed. Impl virtual bit field instead, if you need a cross bit field"@,
        BitsError::MissingRange => "A range token must be presented"@,
        BitsError::UnknownFieldArg(s) => "Unknown arg: \""@ + s@ + "\" in attribute \"field\""@,
        BitsError::UnparsableFieldToken => "Cannot parse as field attr"@,
        BitsError::GenericNotAllowed => "Generic is not allowed"@,
        BitsError::OnlyStructAllowed => "Only struct is allowed"@,
        BitsError::EmptyFields => "Empty field is disallowed"@,
        BitsError::UnnamedField => "The field must be named"@,
        BitsError::DisallowedAttr => "Only \"field\" attr or doc is allowed"@,
        BitsError::MissingFieldAttr => "Attribute \"field\" must be presented"@,
        BitsError::MultipleFieldAttrs => "Only one \"field\" attr is allowed"@,
        BitsError::DuplicatedContainerType => "Duplicated container type"@,
        BitsError::MissingContainerType => "Container(base) type must be specified"@,
        BitsError::UnknownContainerAttr => "Unknown attribute"@,
        BitsError::TooManyExportArgs => "Only one path can be in export"@,
        BitsError::ExportArgNotPath => "export's argument must be a path"@,
    }
}

impl BitsError {
    /// Renders the diagnostic's message.
    pub fn message(&self) -> (r: String)
        ensures
            r@ == error_text(*self),
    {
        match self {
            BitsError::EmptyFieldAttr => String::from_str("Attribute \"field\" cannot be empty"),
            BitsError::MultiplePermTokens => String::from_str(
                "Only a single perm token is allowed, one of (R, W, RW)",
            ),
            BitsError::MultipleRangeTokens => String::from_str(
                "Only a single range token is allowed. Impl virtual bit field instead, if you need a cross bit field",
            ),
            BitsError::MissingRange => String::from_str("A range token must be presented"),
            BitsError::UnknownFieldArg(s) => {
                let mut m = String::from_str("Unknown arg: \"");
                m.append(s.as_str());
                m.append("\" in attribute \"field\"");
                proof {
                    assert(m@ =~= error_text(*self));
                }
                m
            },
            BitsError::UnparsableFieldToken => String::from_str("Cannot parse as field attr"),
            BitsError::GenericNotAllowed => String::from_str("Generic is not allowed"),
            BitsError::OnlyStructAllowed => String::from_str("Only struct is allowed"),
            BitsError::EmptyFields => String::from_str("Empty field is disallowed"),
            BitsError::UnnamedField => String::from_str("The field must be named"),
            BitsError::DisallowedAttr => String::from_str("Only \"field\" attr or doc is allowed"),
            BitsError::MissingFieldAttr => String::from_str(
                "Attribute \"field\" must be presented",
            ),
            BitsError::MultipleFieldAttrs => String::from_str(
                "Only one \"field\" attr is allowed",
            ),
            BitsError::DuplicatedContainerType => String::from_str("Duplicated container type"),
            BitsError::MissingContainerType => String::from_str(
                "Container(base) type must be specified",
            ),
            BitsError::UnknownContainerAttr => String::from_str("Unknown attribute"),
            BitsError::TooManyExportArgs => String::from_str("Only one path can be in export"),
            BitsError::ExportArgNotPath => String::from_str("export's argument must be a path"),
        }
    }
}

} // verus!
