//! The two classes of failure: of synthesis, and of a synthesized routine.

use vstd::prelude::*;
use vstd::string::StringExecFns;

verus! {

/// How a synthesized routine fails on its input.
#[derive(Clone, Copy, Debug, PartialEq, Eq, Structural)]
pub enum ParseError {
    /// The input ended before the value did; `needed` more bytes were wanted.
    Incomplete { needed: usize },
    /// A value was decoded, and its `Verify` predicate does not hold of it.
    Verify,
    /// No variant answers to the selector.
    Switch,
}

/// Why no routine could be synthesized for a type.
#[derive(Clone, Copy, Debug, PartialEq, Eq, Structural)]
pub enum SynthesisError {
    /// The annotation at `index` is of no known kind, or its shape is not
    /// that of its kind.
    AttributeSyntax { index: usize },
    /// A tagged union with a variant that has fields names no selector type.
    MissingSelector,
    /// The variant at `variant` names no selector pattern.
    MissingVariantSelector { variant: usize },
    /// A fieldless union declares no representation.
    MissingRepr,
    /// The first item of a `repr` list is not a single word.
    MalformedRepr,
    /// The declared representation is none of the integer widths.
    UnsupportedRepr,
    /// The field at `field` has a type that no decoder is known for, and no
    /// override.
    UnsupportedType { field: usize },
    /// The selector type is not a sequence of tokens.
    InvalidSelectorType,
    /// The selector pattern of the variant at `variant` is not a sequence of
    /// tokens.
    InvalidSelector { variant: usize },
    /// The declaration is not of the shape that was asked for.
    UnexpectedShape,
}

impl SynthesisError {
    /// What went wrong, in words.
    pub open spec fn spec_message(self) -> Seq<char> {
        match self {
            SynthesisError::AttributeSyntax { index } => "malformed or unrecognized annotation"@,
            SynthesisError::MissingSelector =>
                "selector required: a tagged union with fields must name its 'Selector' type"@,
            SynthesisError::MissingVariantSelector { variant } =>
                "the 'Selector' annotation must give the pattern of each variant"@,
            SynthesisError::MissingRepr => "a fieldless union must have a 'repr' attribute"@,
            SynthesisError::MalformedRepr => "unsupported item in 'repr'"@,
            SynthesisError::UnsupportedRepr => "cannot parse 'repr' content"@,
            SynthesisError::UnsupportedType { field } =>
                "unsupported field type without a 'Parse' annotation"@,
            SynthesisError::InvalidSelectorType => "invalid selector type"@,
            SynthesisError::InvalidSelector { variant } => "invalid selector value"@,
            SynthesisError::UnexpectedShape => "the declaration has not the expected shape"@,
        }
    }

    /// What went wrong, in words. The place that the error carries says
    /// where.
    pub fn message(&self) -> (r: String)
        ensures
            r@ == self.spec_message(),
    {
        match self {
            SynthesisError::AttributeSyntax { index } => String::from_str(
                "malformed or unrecognized annotation",
            ),
            SynthesisError::MissingSelector => String::from_str(
                "selector required: a tagged union with fields must name its 'Selector' type",
            ),
            SynthesisError::MissingVariantSelector { variant } => String::from_str(
                "the 'Selector' annotation must give the pattern of each variant",
            ),
            SynthesisError::MissingRepr => String::from_str(
                "a fieldless union must have a 'repr' attribute",
            ),
            SynthesisError::MalformedRepr => String::from_str("unsupported item in 'repr'"),
            SynthesisError::UnsupportedRepr => String::from_str("cannot parse 'repr' content"),
            SynthesisError::UnsupportedType { field } => String::from_str(
                "unsupported field type without a 'Parse' annotation",
            ),
            SynthesisError::InvalidSelectorType => String::from_str("invalid selector type"),
            SynthesisError::InvalidSelector { variant } => String::from_str(
                "invalid selector value",
            ),
            SynthesisError::UnexpectedShape => String::from_str(
                "the declaration has not the expected shape",
            ),
        }
    }
}

} // verus!
