//! The ways in which a transformation can fail.

use vstd::prelude::*;

verus! {

/// A TypeScript construct that cannot be erased and is therefore refused.
#[derive(Debug, Clone, Copy, PartialEq, Eq, Structural)]
pub enum Unsupported {
    /// A `this` parameter.
    ThisParameter,
    /// An `enum` declaration.
    EnumDeclaration,
    /// `export = value`.
    ExportAssignment,
    /// `export as namespace N`.
    ExportAsNamespace,
    /// `export declare ...`.
    ExportDeclare,
    /// `import T = ...`.
    ImportEquals,
    /// A `module` or `namespace` declaration behind `declare` or `export`.
    ModuleDeclaration,
    /// `declare global`.
    GlobalDeclaration,
    /// `export * from "m"`.
    ExportAll,
}

/// Why a module could not be transformed.
#[derive(Debug)]
pub enum TransformError {
    /// The parser reported diagnostics; they are held rendered, one per line.
    Parse(String),
    /// The module uses a construct that is not supported.
    Unsupported(Unsupported),
    /// A child that the grammar requires is missing from the tree.
    Malformed,
}

/// The text that describes an unsupported construct.
pub open spec fn unsupported_text(what: Unsupported) -> Seq<char> {
    match what {
        Unsupported::ThisParameter => "unsupported syntax: `this` parameter"@,
        Unsupported::EnumDeclaration => "unsupported syntax: `enum` declaration"@,
        Unsupported::ExportAssignment => "unsupported syntax: `export =`"@,
        Unsupported::ExportAsNamespace => "unsupported syntax: `export as namespace`"@,
        Unsupported::ExportDeclare => "unsupported syntax: `export declare`"@,
        Unsupported::ImportEquals => "unsupported syntax: `import =`"@,
        Unsupported::ModuleDeclaration => "unsupported syntax: `module` declaration"@,
        Unsupported::GlobalDeclaration => "unsupported syntax: `declare global`"@,
        Unsupported::ExportAll => "unsupported syntax: `export *`"@,
    }
}

/// The message that stands for an error at the boundary.
pub open spec fn error_text(error: TransformError) -> Seq<char> {
    match error {
        TransformError::Parse(diagnostics) => diagnostics@,
        TransformError::Unsupported(what) => unsupported_text(what),
        TransformError::Malformed => "malformed syntax tree: a required child is missing"@,
    }
}

impl Unsupported {
    /// The text that describes this construct.
    pub fn message(&self) -> (text: &'static str)
        ensures
            text@ == unsupported_text(*self),
    {
        match self {
            Unsupported::ThisParameter => "unsupported syntax: `this` parameter",
            Unsupported::EnumDeclaration => "unsupported syntax: `enum` declaration",
            Unsupported::ExportAssignment => "unsupported syntax: `export =`",
            Unsupported::ExportAsNamespace => "unsupported syntax: `export as namespace`",
            Unsupported::ExportDeclare => "unsupported syntax: `export declare`",
            Unsupported::ImportEquals => "unsupported syntax: `import =`",
            Unsupported::ModuleDeclaration => "unsupported syntax: `module` declaration",
            Unsupported::GlobalDeclaration => "unsupported syntax: `declare global`",
            Unsupported::ExportAll => "unsupported syntax: `export *`",
        }
    }
}

impl TransformError {
    /// The message that stands for this error at the boundary.
    pub fn message(&self) -> (text: String)
        ensures
            text@ == error_text(*self),
    {
        match self {
            TransformError::Parse(diagnostics) => diagnostics.clone(),
            TransformError::Unsupported(what) => what.message().to_owned(),
            TransformError::Malformed => {
                "malformed syntax tree: a required child is missing".to_owned()
            },
        }
    }
}

} // verus!
