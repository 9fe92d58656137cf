use vstd::prelude::*;
use vstd::string::StrSliceExecFns;

use crate::diagnostic::{Diagnostic, DiagnosticResult};
use crate::span::Span;

verus! {

/// Relies on `std::path::Path::has_root`. What counts as a root depends on
/// the platform, so nothing is stated of the result.
#[verifier::external_body]
fn path_has_root(s: &str) -> (r: bool) {
    std::path::Path::new(s).has_root()
}

/// Relies on `std::path::Path::extension`: whether the last component has
/// an extension. Platform-dependent, so nothing is stated of the result.
#[verifier::external_body]
fn path_has_extension(s: &str) -> (r: bool) {
    std::path::Path::new(s).extension().is_some()
}

/// Relies on `std::path::Path::parent`: the path without its last
/// component, if it has one. Platform-dependent, so nothing is stated of
/// the result.
#[verifier::external_body]
fn path_parent(s: &str) -> (r: Option<String>) {
    std::path::Path::new(s).parent().map(|p| p.to_string_lossy().into_owned())
}

/// A path to a library file, already resolved.
#[derive(Debug, Clone, PartialEq, Eq, Hash)]
pub struct ExternLibraryPath {
    pub path: String,
}

impl ExternLibraryPath {
    /// The directory that holds the library, if the path has one.
    pub fn lib_dir(&self) -> (r: Option<String>) {
        path_parent(self.path.as_str())
    }

    pub fn to_string(&self) -> (r: String)
        ensures
            r@ == self.path@,
    {
        self.path.clone()
    }
}

/// A foreign library: one the system finds by name, or a file.
#[derive(Debug, Clone, PartialEq, Eq, Hash)]
pub enum ExternLibrary {
    System(String),
    Path(ExternLibraryPath),
}

/// Whether `s` begins with `.`, `/` or `\`.
pub open spec fn starts_like_path(s: Seq<char>) -> bool {
    s.len() > 0 && (s[0] == '.' || s[0] == '/' || s[0] == '\\')
}

/// Whether a library named `s` is a file rather than a system library:
/// it starts like a path, or has a root or an extension.
pub open spec fn names_file(s: Seq<char>, has_root: bool, has_extension: bool) -> bool {
    starts_like_path(s) || has_root || has_extension
}

fn starts_like_path_exec(s: &str) -> (r: bool)
    ensures
        r == starts_like_path(s@),
{
    if s.unicode_len() == 0 {
        return false;
    }
    let c = s.get_char(0);
    c == '.' || c == '/' || c == '\\'
}

/// Whether an imported file may be used: it must lie under the project's
/// root or under the standard library's root. The caller finds out which
/// (`under_root`, `under_std`); the refusal is reported at `span`.
pub fn check_path_is_under_root_or_std(under_root: bool, under_std: bool, span: Span) -> (r:
    DiagnosticResult<()>)
    ensures
        r is Ok <==> under_root || under_std,
        r matches Err(d) ==> d.labels@.len() == 1 && d.labels@[0].span == span,
{
    if under_root || under_std {
        Ok(())
    } else {
        Err(Diagnostic::expected(span, "a module under the project root or the standard library"))
    }
}

impl ExternLibrary {
    /// The library named `s`, given whether `s` as a path has a root and an
    /// extension. A file library must have been resolved to `resolved`;
    /// when it could not be, the error is reported at `span`.
    pub fn classify(
        s: &str,
        has_root: bool,
        has_extension: bool,
        resolved: Option<String>,
        span: Span,
    ) -> (r: DiagnosticResult<ExternLibrary>)
        ensures
            !names_file(s@, has_root, has_extension) ==> (r matches Ok(ExternLibrary::System(name))
                && name@ == s@),
            names_file(s@, has_root, has_extension) && resolved is Some ==> (r matches Ok(
                ExternLibrary::Path(p),
            ) && p.path == resolved->0),
            names_file(s@, has_root, has_extension) && resolved is None ==> (r matches Err(d)
                && d.labels@.len() == 1 && d.labels@[0].span == span),
    {
        if starts_like_path_exec(s) || has_root || has_extension {
            match resolved {
                Some(path) => Ok(ExternLibrary::Path(ExternLibraryPath { path })),
                None => Err(Diagnostic::expected(span, "a library file that exists")),
            }
        } else {
            Ok(ExternLibrary::System(s.to_owned()))
        }
    }

    /// The library named `s`; `resolved` is where the file is, for a file
    /// library.
    pub fn try_from_str(s: &str, resolved: Option<String>, span: Span) -> (r: DiagnosticResult<
        ExternLibrary,
    >)
        ensures
            starts_like_path(s@) && resolved is Some ==> (r matches Ok(ExternLibrary::Path(p))
                && p.path == resolved->0),
            starts_like_path(s@) && resolved is None ==> r is Err,
    {
        let has_root = path_has_root(s);
        let has_extension = path_has_extension(s);
        Self::classify(s, has_root, has_extension, resolved, span)
    }

    /// As `try_from_str`, with the file already resolved to `resolved`.
    pub fn from_str(s: &str, resolved: String) -> (r: ExternLibrary)
        ensures
            starts_like_path(s@) ==> r == (ExternLibrary::Path(ExternLibraryPath { path: resolved })),
    {
        match Self::try_from_str(s, Some(resolved), Span::unknown()) {
            Ok(lib) => lib,
            Err(_) => ExternLibrary::System(s.to_owned()),
        }
    }

    /// The name or path by which the library is loaded.
    pub fn path(&self) -> (r: String)
        ensures
            self matches ExternLibrary::System(name) ==> r@ == name@,
            self matches ExternLibrary::Path(p) ==> r@ == p.path@,
    {
        match self {
            ExternLibrary::System(lib) => lib.clone(),
            ExternLibrary::Path(path) => path.to_string(),
        }
    }
}

} // verus!
