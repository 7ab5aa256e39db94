use vstd::prelude::*;
use vstd::string::*;
use crate::ids::{ModuleId, SymbolRef};

verus! {

/// How a module asks for another one.
#[derive(Debug, PartialEq, Eq, Clone, Copy, Structural)]
pub enum ImportKind {
    Import,
    DynamicImport,
    Require,
}

impl ImportKind {
    /// The text by which diagnostics name this kind.
    pub open spec fn spec_name(self) -> Seq<char> {
        match self {
            ImportKind::Import => "import-statement"@,
            ImportKind::DynamicImport => "dynamic-import"@,
            ImportKind::Require => "require-call"@,
        }
    }

    /// Static edges are resolvable at link time; that is every kind but a
    /// dynamic import.
    pub open spec fn spec_is_static(&self) -> bool {
        *self != ImportKind::DynamicImport
    }

    #[verifier::when_used_as_spec(spec_is_static)]
    pub fn is_static(&self) -> (r: bool)
        ensures
            r == self.spec_is_static(),
            r == (*self == ImportKind::Import || *self == ImportKind::Require),
    {
        matches!(self, ImportKind::Import | ImportKind::Require)
    }

    /// The diagnostic name of the kind, as an owned string.
    pub fn to_string(&self) -> (r: String)
        ensures
            r@ == self.spec_name(),
    {
        match self {
            ImportKind::Import => String::from_str("import-statement"),
            ImportKind::DynamicImport => String::from_str("dynamic-import"),
            ImportKind::Require => String::from_str("require-call"),
        }
    }
}

/// An import edge as written in the source, before its target is known.
#[derive(Debug)]
pub struct RawImportRecord {
    pub module_request: String,
    pub kind: ImportKind,
    pub namespace_ref: SymbolRef,
    pub contains_import_star: bool,
    pub contains_import_default: bool,
}

/// An import edge whose target module has been resolved.
#[derive(Debug)]
pub struct ImportRecord {
    pub module_request: String,
    pub resolved_module: ModuleId,
    pub kind: ImportKind,
    pub namespace_ref: SymbolRef,
    pub contains_import_star: bool,
    pub contains_import_default: bool,
}

impl RawImportRecord {
    /// A fresh edge: the request as written, and both usage flags cleared.
    pub fn new(specifier: String, kind: ImportKind, namespace_ref: SymbolRef) -> (r: Self)
        ensures
            r.module_request == specifier,
            r.kind == kind,
            r.namespace_ref == namespace_ref,
            !r.contains_import_star,
            !r.contains_import_default,
    {
        RawImportRecord {
            module_request: specifier,
            kind,
            namespace_ref,
            contains_import_default: false,
            contains_import_star: false,
        }
    }

    /// Consumes the raw edge and the resolved target; every other field is
    /// carried over unchanged.
    pub fn into_import_record(self, resolved_module: ModuleId) -> (r: ImportRecord)
        ensures
            r.module_request == self.module_request,
            r.resolved_module == resolved_module,
            r.kind == self.kind,
            r.namespace_ref == self.namespace_ref,
            r.contains_import_star == self.contains_import_star,
            r.contains_import_default == self.contains_import_default,
    {
        ImportRecord {
            module_request: self.module_request,
            resolved_module,
            kind: self.kind,
            namespace_ref: self.namespace_ref,
            contains_import_star: self.contains_import_star,
            contains_import_default: self.contains_import_default,
        }
    }
}

} // verus!
