//! Semantic concepts that several files can assert about.
use vstd::prelude::*;
use vstd::string::*;

verus! {

/// A named semantic concept that multiple files can assert about.
#[derive(Debug, Clone, PartialEq, Eq, Hash)]
pub struct SemanticConcept {
    pub id: String,
    pub display_name: String,
    pub category: ConceptCategory,
}

/// The family a concept belongs to.
#[derive(Debug, Clone, PartialEq, Eq, Hash)]
pub enum ConceptCategory {
    RuntimeVersion,
    Port,
    StrictMode,
    BuildTool,
    PackageManager,
    Custom(String),
}

impl SemanticConcept {
    /// The concept with the given id, display name and category.
    pub open spec fn is(self, id: Seq<char>, name: Seq<char>, category: ConceptCategory) -> bool {
        &&& self.id@ == id
        &&& self.display_name@ == name
        &&& self.category == category
    }

    /// The display name of the concept (what the concept prints as).
    pub fn to_text(&self) -> (r: String)
        ensures
            r@ == self.display_name@,
    {
        self.display_name.clone()
    }

    pub fn node_version() -> (r: Self)
        ensures
            r.is("node-version"@, "Node.js Version"@, ConceptCategory::RuntimeVersion),
    {
        SemanticConcept {
            id: String::from_str("node-version"),
            display_name: String::from_str("Node.js Version"),
            category: ConceptCategory::RuntimeVersion,
        }
    }

    pub fn python_version() -> (r: Self)
        ensures
            r.is("python-version"@, "Python Version"@, ConceptCategory::RuntimeVersion),
    {
        SemanticConcept {
            id: String::from_str("python-version"),
            display_name: String::from_str("Python Version"),
            category: ConceptCategory::RuntimeVersion,
        }
    }

    pub fn go_version() -> (r: Self)
        ensures
            r.is("go-version"@, "Go Version"@, ConceptCategory::RuntimeVersion),
    {
        SemanticConcept {
            id: String::from_str("go-version"),
            display_name: String::from_str("Go Version"),
            category: ConceptCategory::RuntimeVersion,
        }
    }

    pub fn java_version() -> (r: Self)
        ensures
            r.is("java-version"@, "Java Version"@, ConceptCategory::RuntimeVersion),
    {
        SemanticConcept {
            id: String::from_str("java-version"),
            display_name: String::from_str("Java Version"),
            category: ConceptCategory::RuntimeVersion,
        }
    }

    pub fn app_port() -> (r: Self)
        ensures
            r.is("app-port"@, "Application Port"@, ConceptCategory::Port),
    {
        SemanticConcept {
            id: String::from_str("app-port"),
            display_name: String::from_str("Application Port"),
            category: ConceptCategory::Port,
        }
    }

    pub fn ts_strict_mode() -> (r: Self)
        ensures
            r.is("ts-strict-mode"@, "TypeScript Strict Mode"@, ConceptCategory::StrictMode),
    {
        SemanticConcept {
            id: String::from_str("ts-strict-mode"),
            display_name: String::from_str("TypeScript Strict Mode"),
            category: ConceptCategory::StrictMode,
        }
    }

    pub fn node_package_manager() -> (r: Self)
        ensures
            r.is("node-pkg-manager"@, "Node Package Manager"@, ConceptCategory::PackageManager),
    {
        SemanticConcept {
            id: String::from_str("node-pkg-manager"),
            display_name: String::from_str("Node Package Manager"),
            category: ConceptCategory::PackageManager,
        }
    }

    pub fn dotnet_version() -> (r: Self)
        ensures
            r.is("dotnet-version"@, ".NET Version"@, ConceptCategory::RuntimeVersion),
    {
        SemanticConcept {
            id: String::from_str("dotnet-version"),
            display_name: String::from_str(".NET Version"),
            category: ConceptCategory::RuntimeVersion,
        }
    }

    pub fn ruby_version() -> (r: Self)
        ensures
            r.is("ruby-version"@, "Ruby Version"@, ConceptCategory::RuntimeVersion),
    {
        SemanticConcept {
            id: String::from_str("ruby-version"),
            display_name: String::from_str("Ruby Version"),
            category: ConceptCategory::RuntimeVersion,
        }
    }
}

} // verus!

verus! {

impl SemanticConcept {
    /// A field-by-field copy of the concept.
    pub fn duplicate(&self) -> (r: Self)
        ensures
            r == *self,
    {
        let category = match &self.category {
            ConceptCategory::RuntimeVersion => ConceptCategory::RuntimeVersion,
            ConceptCategory::Port => ConceptCategory::Port,
            ConceptCategory::StrictMode => ConceptCategory::StrictMode,
            ConceptCategory::BuildTool => ConceptCategory::BuildTool,
            ConceptCategory::PackageManager => ConceptCategory::PackageManager,
            ConceptCategory::Custom(s) => ConceptCategory::Custom(s.clone()),
        };
        SemanticConcept { id: self.id.clone(), display_name: self.display_name.clone(), category }
    }
}

} // verus!
