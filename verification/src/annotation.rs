use crate::text::str_eq;
use vstd::prelude::*;

verus! {

/// Multiplicity and packing qualifier that a field declaration in a
/// Protocol-Buffers-style schema may carry.
///
/// `Optional` marks a field that may be absent, in which case it assumes its
/// default value; it is also the default annotation.  `Repeated` marks a
/// field that may occur any number of times.  `Required` marks a field that
/// must be present; it is kept for backward compatibility only and never
/// enforced here.  `Mapping`, written `map` in schema text, marks a scalar
/// encoded as a packed, length-prefixed value.
#[derive(Clone, Copy, Debug, PartialEq, Eq, Structural)]
pub enum ProtoAnnotation {
    Optional,
    Repeated,
    Required,
    Mapping,
}

/// Error returned when a keyword names no [`ProtoAnnotation`] variant; it
/// carries no payload.
#[derive(Clone, Copy, Debug, PartialEq, Eq, Structural)]
pub struct ParseProtoAnnotationError;

/// The outcome of parsing the keyword `s`: exactly the four literal keywords
/// are recognized, case-sensitively and without any trimming or
/// normalization, and every other string is rejected.
pub open spec fn annotation_of(s: Seq<char>) -> Result<
    ProtoAnnotation,
    ParseProtoAnnotationError,
> {
    if s == "optional"@ {
        Ok(ProtoAnnotation::Optional)
    } else if s == "repeated"@ {
        Ok(ProtoAnnotation::Repeated)
    } else if s == "required"@ {
        Ok(ProtoAnnotation::Required)
    } else if s == "map"@ {
        Ok(ProtoAnnotation::Mapping)
    } else {
        Err(ParseProtoAnnotationError)
    }
}

impl ProtoAnnotation {
    /// Parses a schema keyword: each recognized keyword yields the matching
    /// variant, and any other input fails with the parse error.
    pub fn from_keyword(s: &str) -> (r: Result<ProtoAnnotation, ParseProtoAnnotationError>)
        ensures
            r == annotation_of(s@),
    {
        if str_eq(s, "optional") {
            Ok(ProtoAnnotation::Optional)
        } else if str_eq(s, "repeated") {
            Ok(ProtoAnnotation::Repeated)
        } else if str_eq(s, "required") {
            Ok(ProtoAnnotation::Required)
        } else if str_eq(s, "map") {
            Ok(ProtoAnnotation::Mapping)
        } else {
            Err(ParseProtoAnnotationError)
        }
    }
}

impl core::str::FromStr for ProtoAnnotation {
    type Err = ParseProtoAnnotationError;

    fn from_str(s: &str) -> Result<Self, Self::Err> {
        ProtoAnnotation::from_keyword(s)
    }
}

impl core::default::Default for ProtoAnnotation {
    /// A default-constructed annotation is `Optional`.
    fn default() -> (r: Self)
        ensures
            r == ProtoAnnotation::Optional,
    {
        ProtoAnnotation::Optional
    }
}

} // verus!
