//! The guard in front of opening a photo (or its folder) with an outside program.
//!
//! The caller resolves the configured photo directory and the requested path to
//! their canonical forms (symbolic links followed, `..` removed) and reads
//! whether the latter is a regular file. Then, in this order: the directory
//! must resolve, the path must exist and be a regular file, its extension must
//! be that of a picture (`png`, `jpg`, `jpeg`, `webp`, any letter case), and it
//! must lie inside the directory, compared component by component so that
//! `/photosX` is not inside `/photos`. A folder request yields the parent.

use vstd::prelude::*;
use crate::log_parser::event::opt_view;
use crate::photo_scanner::actor::path_extension;
use crate::photo_scanner::filename::{ci_matches_at, ci_starts_at};
use crate::path::{file_name_bounds};
use crate::text::chars_of;

verus! {

/// What is to be opened.
#[derive(Debug, Clone, Copy, PartialEq, Eq)]
pub enum PhotoTarget {
    /// The photo itself, in a picture viewer.
    Photo,
    /// The folder holding the photo, in the file manager.
    Folder,
}

/// Why a path may not be opened.
#[derive(Debug, Clone, PartialEq, Eq)]
pub enum PhotoAccessError {
    NotFound(String),
    NotAFile(String),
    InvalidExtension(String),
    OutsideScope { file: String, scope: String },
    ScopeNotAccessible(String),
    NoParent(String),
}

pub enum AccessErrorView {
    NotFound(Seq<char>),
    NotAFile(Seq<char>),
    InvalidExtension(Seq<char>),
    OutsideScope(Seq<char>, Seq<char>),
    ScopeNotAccessible(Seq<char>),
    NoParent(Seq<char>),
}

impl View for PhotoAccessError {
    type V = AccessErrorView;

    open spec fn view(&self) -> AccessErrorView {
        match self {
            PhotoAccessError::NotFound(p) => AccessErrorView::NotFound(p@),
            PhotoAccessError::NotAFile(p) => AccessErrorView::NotAFile(p@),
            PhotoAccessError::InvalidExtension(p) => AccessErrorView::InvalidExtension(p@),
            PhotoAccessError::OutsideScope { file, scope } => AccessErrorView::OutsideScope(file@, scope@),
            PhotoAccessError::ScopeNotAccessible(p) => AccessErrorView::ScopeNotAccessible(p@),
            PhotoAccessError::NoParent(p) => AccessErrorView::NoParent(p@),
        }
    }
}

pub open spec fn access_error_text(e: AccessErrorView) -> Seq<char> {
    match e {
        AccessErrorView::NotFound(p) => "photo file not found: "@ + p,
        AccessErrorView::NotAFile(p) => "path is not a regular file: "@ + p,
        AccessErrorView::InvalidExtension(p) => "invalid extension (must be png/jpg/jpeg/webp): "@ + p,
        AccessErrorView::OutsideScope(f, s) => "path is outside the configured photo_directory: file="@ + f
            + ", scope="@ + s,
        AccessErrorView::ScopeNotAccessible(p) => "photo_directory not configured or not accessible: "@ + p,
        AccessErrorView::NoParent(p) => "photo file has no parent directory: "@ + p,
    }
}

impl PhotoAccessError {
    /// The message shown for the error.
    pub fn message(&self) -> (r: String)
        ensures
            r@ == access_error_text(self@),
    {
        match self {
            PhotoAccessError::NotFound(p) => {
                let mut m = String::from_str("photo file not found: ");
                m.append(p.as_str());
                m
            },
            PhotoAccessError::NotAFile(p) => {
                let mut m = String::from_str("path is not a regular file: ");
                m.append(p.as_str());
                m
            },
            PhotoAccessError::InvalidExtension(p) => {
                let mut m = String::from_str("invalid extension (must be png/jpg/jpeg/webp): ");
                m.append(p.as_str());
                m
            },
            PhotoAccessError::OutsideScope { file, scope } => {
                let mut m = String::from_str("path is outside the configured photo_directory: file=");
                m.append(file.as_str());
                m.append(", scope=");
                m.append(scope.as_str());
                m
            },
            PhotoAccessError::ScopeNotAccessible(p) => {
                let mut m = String::from_str("photo_directory not configured or not accessible: ");
                m.append(p.as_str());
                m
            },
            PhotoAccessError::NoParent(p) => {
                let mut m = String::from_str("photo file has no parent directory: ");
                m.append(p.as_str());
                m
            },
        }
    }
}

/// `Path::new(p).starts_with(base)`: `base`'s components are a prefix of `p`'s.
pub uninterp spec fn path_has_prefix(p: Seq<char>, base: Seq<char>) -> bool;

/// `std::path::Path::starts_with`. Its result is named `path_has_prefix`; a path always
/// starts with itself.
#[verifier::external_body]
pub(crate) fn path_starts_with(p: &str, base: &str) -> (r: bool)
    ensures
        r == path_has_prefix(p@, base@),
        p@ == base@ ==> r,
{
    std::path::Path::new(p).starts_with(base)
}

/// `Path::new(p).parent()`: the path without its last component, if it has one.
pub uninterp spec fn path_parent_of(p: Seq<char>) -> Option<Seq<char>>;

/// `std::path::Path::parent`, the result as text. Its result is named `path_parent_of`.
#[verifier::external_body]
fn path_parent(p: &str) -> (r: Option<String>)
    ensures
        opt_view(r) == path_parent_of(p@),
{
    std::path::Path::new(p).parent().map(|q| q.to_string_lossy().into_owned())
}

/// `png`, `jpg`, `jpeg` or `webp`, ignoring ASCII letter case.
pub open spec fn is_openable_ext(e: Seq<char>) -> bool {
    ||| e.len() == 3 && (ci_starts_at(e, 0, "png"@) || ci_starts_at(e, 0, "jpg"@))
    ||| e.len() == 4 && (ci_starts_at(e, 0, "jpeg"@) || ci_starts_at(e, 0, "webp"@))
}

/// What the file system said about the two paths.
#[derive(Debug, Clone, PartialEq, Eq)]
pub struct PhotoPathFacts {
    /// The configured directory, resolved; `None` when it cannot be.
    pub canonical_scope: Option<String>,
    /// The requested path, resolved; `None` when it does not exist.
    pub canonical_file: Option<String>,
    /// Whether the resolved path is a regular file; `None` when that cannot be read.
    pub is_regular_file: Option<bool>,
}

/// The path to open, or why not (see the module's description).
pub open spec fn access_spec(
    file_path: Seq<char>,
    photo_directory: Seq<char>,
    facts: PhotoPathFacts,
    target: PhotoTarget,
) -> Result<Seq<char>, AccessErrorView> {
    match facts.canonical_scope {
        None => Err(AccessErrorView::ScopeNotAccessible(photo_directory)),
        Some(scope) => match facts.canonical_file {
            None => Err(AccessErrorView::NotFound(file_path)),
            Some(file) => match facts.is_regular_file {
                None => Err(AccessErrorView::NotFound(file@)),
                Some(false) => Err(AccessErrorView::NotAFile(file@)),
                Some(true) => if !(path_extension(file@) matches Some(e) && is_openable_ext(e)) {
                    Err(AccessErrorView::InvalidExtension(file@))
                } else if !path_has_prefix(file@, scope@) {
                    Err(AccessErrorView::OutsideScope(file@, scope@))
                } else {
                    match target {
                        PhotoTarget::Photo => Ok(file@),
                        PhotoTarget::Folder => match path_parent_of(file@) {
                            Some(parent) => Ok(parent),
                            None => Err(AccessErrorView::NoParent(file@)),
                        },
                    }
                },
            },
        },
    }
}

pub open spec fn access_view(r: Result<String, PhotoAccessError>) -> Result<Seq<char>, AccessErrorView> {
    match r {
        Ok(p) => Ok(p@),
        Err(e) => Err(e@),
    }
}

fn openable_extension(path: &str) -> (r: bool)
    ensures
        r == (path_extension(path@) matches Some(e) && is_openable_ext(e)),
{
    let p = chars_of(path);
    let (a, b) = match file_name_bounds(p.as_slice()) {
        Some(bounds) => bounds,
        None => return false,
    };
    // the extension, if any, is what the general check of picture names reads
    let ext = crate::photo_scanner::actor::extension_chars(p.as_slice(), a, b);
    match ext {
        None => false,
        Some(e) => {
            let el = e.len();
            (el == 3 && (ci_matches_at(e.as_slice(), 0, "png") || ci_matches_at(e.as_slice(), 0, "jpg")))
                || (el == 4 && (ci_matches_at(e.as_slice(), 0, "jpeg") || ci_matches_at(e.as_slice(), 0, "webp")))
        },
    }
}

/// Decides whether `file_path` may be opened as `target`, given what the file system
/// said about it and about the configured `photo_directory`.
pub fn validate_photo_path(
    file_path: &str,
    photo_directory: &str,
    facts: PhotoPathFacts,
    target: PhotoTarget,
) -> (r: Result<String, PhotoAccessError>)
    ensures
        access_view(r) == access_spec(file_path@, photo_directory@, facts, target),
{
    let ghost f0 = facts;
    let scope = match facts.canonical_scope {
        None => return Err(PhotoAccessError::ScopeNotAccessible(String::from_str(photo_directory))),
        Some(s) => s,
    };
    let file = match facts.canonical_file {
        None => return Err(PhotoAccessError::NotFound(String::from_str(file_path))),
        Some(f) => f,
    };
    match facts.is_regular_file {
        None => return Err(PhotoAccessError::NotFound(file)),
        Some(false) => return Err(PhotoAccessError::NotAFile(file)),
        Some(true) => {},
    }
    if !openable_extension(file.as_str()) {
        return Err(PhotoAccessError::InvalidExtension(file));
    }
    if !path_starts_with(file.as_str(), scope.as_str()) {
        return Err(PhotoAccessError::OutsideScope { file, scope });
    }
    match target {
        PhotoTarget::Photo => Ok(file),
        PhotoTarget::Folder => match path_parent(file.as_str()) {
            Some(parent) => Ok(parent),
            None => Err(PhotoAccessError::NoParent(file)),
        },
    }
}

} // verus!
