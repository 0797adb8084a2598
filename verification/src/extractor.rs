//! Language-agnostic extraction types and trait.
//!
//! A language extractor turns raw source text into a [`FileAnalysis`]:
//! the package, imports, and top-level declarations of one file. The
//! rule engine consumes this language-neutral representation.

use vstd::prelude::*;

verus! {

/// Package or module declaration extracted from source.
#[derive(Debug, Clone)]
pub struct PackageInfo {
    /// Line number (1-indexed).
    pub line: usize,
    /// Fully qualified package path (e.g., `com.example.domain.model`).
    pub path: String,
}

/// A single import statement extracted from source.
#[derive(Debug, Clone)]
pub struct ImportInfo {
    /// Line number (1-indexed).
    pub line: usize,
    /// Column (0-indexed byte offset within line).
    pub column: usize,
    /// Fully qualified import path.
    pub path: String,
}

/// Kind of declaration.
#[derive(Debug, Clone, Copy, PartialEq, Eq, Structural)]
pub enum DeclKind {
    /// An ordinary class.
    Class,
    /// A data class.
    DataClass,
    /// A sealed class.
    SealedClass,
    /// An enumeration class.
    EnumClass,
    /// An interface.
    Interface,
    /// A singleton object.
    Object,
    /// A free function.
    Function,
}

/// A declaration (class, interface, object, function) extracted from
/// source.
#[derive(Debug, Clone)]
pub struct DeclInfo {
    /// Line number (1-indexed).
    pub line: usize,
    /// Identifier name.
    pub name: String,
    /// Kind of declaration.
    pub kind: DeclKind,
    /// Package this declaration belongs to.
    pub package: String,
}

/// Result of analyzing a single source file.
#[derive(Debug, Clone)]
pub struct FileAnalysis {
    /// Path relative to project root.
    pub file_path: String,
    /// Package declaration, if present.
    pub package: Option<PackageInfo>,
    /// All import statements found.
    pub imports: Vec<ImportInfo>,
    /// All top-level declarations found.
    pub declarations: Vec<DeclInfo>,
}

/// Trait for language-specific extraction.
///
/// Implement this to add support for a new language: the extractor
/// receives raw source text and returns the language-agnostic
/// intermediate representation.
pub trait LanguageExtractor {
    /// Language identifier (e.g., `kotlin`).
    fn language_id(&self) -> &'static str;

    /// File extensions this extractor handles (e.g., `.kt`).
    fn extensions(&self) -> Vec<String>;

    /// Extracts imports, declarations, and package info from source.
    fn analyze(&self, source: &str) -> FileAnalysis;
}

} // verus!
