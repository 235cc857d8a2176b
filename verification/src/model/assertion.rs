//! Where a value was found, and how binding it is.
use vstd::prelude::*;
use vstd::string::*;
use crate::model::concept::SemanticConcept;
use crate::model::semantic_type::SemanticType;
use crate::text::{decimal_s, push_decimal, push_str};

verus! {

/// Byte span of a value inside its source file.
#[derive(Debug, Clone, Copy, PartialEq, Eq, Structural)]
pub struct SourceSpan {
    pub start: usize,
    pub end: usize,
    pub line: usize,
    pub column: usize,
    pub end_line: usize,
    pub end_column: usize,
}

/// Where in the source tree a value was found.
#[derive(Debug, Clone)]
pub struct SourceLocation {
    /// The file, as the path text that the scan produced.
    pub file: String,
    pub line: usize,
    pub column: usize,
    pub key_path: String,
}

impl SourceLocation {
    /// `file:line:column`, or `file:line` when the column is 0.
    pub open spec fn text(self) -> Seq<char> {
        if self.column > 0 {
            self.file@ + ":"@ + decimal_s(self.line as nat) + ":"@ + decimal_s(self.column as nat)
        } else {
            self.file@ + ":"@ + decimal_s(self.line as nat)
        }
    }

    /// `file:line:column`, or `file:line` when the column is 0.
    pub fn to_text(&self) -> (r: String)
        ensures
            r@ == self.text(),
    {
        let mut out = String::new();
        push_str(&mut out, self.file.as_str());
        push_str(&mut out, ":");
        push_decimal(&mut out, self.line as u64);
        if self.column > 0 {
            push_str(&mut out, ":");
            push_decimal(&mut out, self.column as u64);
        }
        out
    }
}

/// How binding an assertion is, ordered `Advisory < Declared < Enforced`.
#[derive(Debug, Clone, Copy, PartialEq, Eq, Structural, Hash, PartialOrd, Ord)]
pub enum Authority {
    /// Informational / advisory (.nvmrc, .tool-versions)
    Advisory,
    /// Declared preference, not mechanically enforced (package.json engines)
    Declared,
    /// Hard constraint: the build breaks if violated (Dockerfile FROM, CI matrix)
    Enforced,
}

impl Authority {
    /// The position of the authority in the order `Advisory < Declared < Enforced`.
    pub open spec fn rank(self) -> nat {
        match self {
            Authority::Advisory => 0,
            Authority::Declared => 1,
            Authority::Enforced => 2,
        }
    }

    /// The rank of the authority as a number.
    pub fn rank_u8(&self) -> (r: u8)
        ensures
            r == self.rank(),
    {
        match self {
            Authority::Advisory => 0,
            Authority::Declared => 1,
            Authority::Enforced => 2,
        }
    }

    /// The lower-case label of the authority.
    pub open spec fn label(self) -> Seq<char> {
        match self {
            Authority::Advisory => "advisory"@,
            Authority::Declared => "declared"@,
            Authority::Enforced => "enforced"@,
        }
    }

    /// The lower-case label of the authority (`advisory`, `declared`, `enforced`).
    pub fn to_text(&self) -> (r: String)
        ensures
            r@ == self.label(),
    {
        match self {
            Authority::Advisory => String::from_str("advisory"),
            Authority::Declared => String::from_str("declared"),
            Authority::Enforced => String::from_str("enforced"),
        }
    }
}


/// A single extracted config assertion: a concept, the typed value and
/// the value as written, where it was found and how binding it is.
#[derive(Debug, Clone)]
pub struct ConfigAssertion {
    pub concept: SemanticConcept,
    pub value: SemanticType,
    pub raw_value: String,
    pub source: SourceLocation,
    pub span: Option<SourceSpan>,
    pub authority: Authority,
    pub extractor_id: String,
    pub is_matrix: bool,
}

impl ConfigAssertion {
    /// An assertion without a span, not from a CI matrix.
    pub fn new(
        concept: SemanticConcept,
        value: SemanticType,
        raw_value: String,
        source: SourceLocation,
        authority: Authority,
        extractor_id: &str,
    ) -> (r: Self)
        ensures
            r.concept == concept,
            r.value == value,
            r.raw_value == raw_value,
            r.source == source,
            r.span is None,
            r.authority == authority,
            r.extractor_id@ == extractor_id@,
            !r.is_matrix,
    {
        ConfigAssertion {
            concept,
            value,
            raw_value,
            source,
            span: None,
            authority,
            extractor_id: String::from_str(extractor_id),
            is_matrix: false,
        }
    }

    /// The assertion with a span; its source takes the span's line and column.
    pub fn with_span(self, span: SourceSpan) -> (r: Self)
        ensures
            r == (ConfigAssertion {
                source: SourceLocation { line: span.line, column: span.column, ..self.source },
                span: Some(span),
                ..self
            }),
    {
        let mut a = self;
        a.source.line = span.line;
        a.source.column = span.column;
        a.span = Some(span);
        a
    }

    /// The assertion with a span when one is given, else unchanged.
    pub fn with_optional_span(self, span: Option<SourceSpan>) -> (r: Self)
        ensures
            match span {
                Some(sp) => r == (ConfigAssertion {
                    source: SourceLocation { line: sp.line, column: sp.column, ..self.source },
                    span: Some(sp),
                    ..self
                }),
                None => r == self,
            },
    {
        match span {
            Some(sp) => self.with_span(sp),
            None => self,
        }
    }

    /// The assertion marked as coming from a CI matrix, or not.
    pub fn with_matrix(self, is_matrix: bool) -> (r: Self)
        ensures
            r == (ConfigAssertion { is_matrix, ..self }),
    {
        let mut a = self;
        a.is_matrix = is_matrix;
        a
    }
}

} // verus!

verus! {

impl SourceLocation {
    /// A field-by-field copy of the location.
    pub fn duplicate(&self) -> (r: Self)
        ensures
            r == *self,
    {
        SourceLocation {
            file: self.file.clone(),
            line: self.line,
            column: self.column,
            key_path: self.key_path.clone(),
        }
    }
}

impl ConfigAssertion {
    /// A field-by-field copy of the assertion.
    pub fn duplicate(&self) -> (r: Self)
        ensures
            r == *self,
    {
        ConfigAssertion {
            concept: self.concept.duplicate(),
            value: self.value.duplicate(),
            raw_value: self.raw_value.clone(),
            source: self.source.duplicate(),
            span: self.span,
            authority: self.authority,
            extractor_id: self.extractor_id.clone(),
            is_matrix: self.is_matrix,
        }
    }
}

} // verus!
