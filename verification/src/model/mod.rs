//! The data model: concepts, authorities, findings and typed values.
pub mod assertion;
pub mod concept;
pub mod finding;
pub mod semantic_type;

pub use assertion::{Authority, ConfigAssertion, SourceLocation, SourceSpan};
pub use concept::{ConceptCategory, SemanticConcept};
pub use finding::{ConceptResult, Finding, ParseDiagnostic, ScanResult, Severity};
pub use semantic_type::{normalize_boolean, parse_port, parse_version, ExactVersion, PortSpec, SemanticType, VersionSpec};
