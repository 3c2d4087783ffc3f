//! Library paths that are known to be relative or absolute.
use vstd::prelude::*;

verus! {

#[verifier::external_type_specification]
#[verifier::external_body]
pub struct ExUtf8PathBuf(camino::Utf8PathBuf);

/// Whether `camino::Utf8Path::new(path).is_absolute()` holds (on this
/// platform).
pub uninterp spec fn path_is_absolute(path: Seq<char>) -> bool;

/// The kind of a path component (`camino::Utf8Component`).
#[derive(Debug, Clone, Copy, PartialEq, Eq, Structural)]
pub enum ComponentKind {
    Prefix,
    RootDir,
    CurDir,
    ParentDir,
    Normal,
}

/// The kinds of the components of a path (`Utf8Path::components`).
pub uninterp spec fn path_component_kinds(path: Seq<char>) -> Seq<ComponentKind>;

/// Whether one of the path's components is `..`.
pub open spec fn path_has_parent_component(path: Seq<char>) -> bool {
    path_component_kinds(path).contains(ComponentKind::ParentDir)
}

/// `camino::Utf8Path::new(path).is_absolute()`: claims the result is
/// `path_is_absolute(path)`.
#[verifier::external_body]
fn is_absolute_path(path: &str) -> (r: bool)
    ensures
        r == path_is_absolute(path@),
{
    camino::Utf8Path::new(path).is_absolute()
}

/// `camino::Utf8Path::new(path).components()`, each told apart by its
/// variant: claims the result is `path_component_kinds(path)`.
#[verifier::external_body]
fn component_kinds(path: &str) -> (r: Vec<ComponentKind>)
    ensures
        r@ == path_component_kinds(path@),
{
    camino::Utf8Path::new(path)
        .components()
        .map(|c| match c {
            camino::Utf8Component::Prefix(_) => ComponentKind::Prefix,
            camino::Utf8Component::RootDir => ComponentKind::RootDir,
            camino::Utf8Component::CurDir => ComponentKind::CurDir,
            camino::Utf8Component::ParentDir => ComponentKind::ParentDir,
            camino::Utf8Component::Normal(_) => ComponentKind::Normal,
        })
        .collect()
}

fn has_parent_component(path: &str) -> (r: bool)
    ensures
        r == path_has_parent_component(path@),
{
    let kinds = component_kinds(path);
    for i in 0..kinds.len()
        invariant
            kinds@ == path_component_kinds(path@),
            forall|k: int| 0 <= k < i ==> kinds@[k] != ComponentKind::ParentDir,
    {
        if kinds[i] == ComponentKind::ParentDir {
            assert(kinds@[i as int] == ComponentKind::ParentDir);
            return true;
        }
    }
    false
}

/// `camino::Utf8PathBuf::from(String)`. The path is opaque here.
#[verifier::external_body]
fn to_path_buf(path: String) -> (r: camino::Utf8PathBuf) {
    camino::Utf8PathBuf::from(path)
}

/// `Clone::clone` of `camino::Utf8PathBuf` (used by the derived `Clone` of
/// the path types). The buffer is opaque here: nothing is claimed of the
/// copy.
pub assume_specification[ <camino::Utf8PathBuf as Clone>::clone ](p: &camino::Utf8PathBuf) -> (r: camino::Utf8PathBuf);

/// Why a path was refused.
#[derive(Debug, Clone, PartialEq, Eq)]
pub enum PathError {
    /// A relative path was expected (holds the path).
    NotRelative(String),
    /// A relative path may not contain `..` (holds the path).
    ParentEscape(String),
    /// An absolute path was expected (holds the path).
    NotAbsolute(String),
    /// The path is empty.
    Empty,
}

/// A non-empty relative path without `..` components: the `camino` path
/// buffer made from its text, and the text. The derived comparisons look
/// at the buffer first, so paths order by their components.
#[derive(Clone, Debug, PartialEq, Eq, PartialOrd, Ord, Hash)]
pub struct RelativePath {
    buf: camino::Utf8PathBuf,
    path: String,
}

/// A non-empty absolute path: the `camino` path buffer made from its text,
/// and the text. The derived comparisons look at the buffer first, so
/// paths order by their components.
#[derive(Clone, Debug, PartialEq, Eq, PartialOrd, Ord, Hash)]
pub struct AbsolutePath {
    buf: camino::Utf8PathBuf,
    path: String,
}

impl RelativePath {
    /// The path's text.
    pub closed spec fn text(&self) -> Seq<char> {
        self.path@
    }

    /// Accepts a non-empty relative path with no `..` component.
    pub fn new(path: &str) -> (r: Result<Self, PathError>)
        ensures
            path@.len() == 0 ==> r == Err::<Self, PathError>(PathError::Empty),
            path@.len() > 0 && path_is_absolute(path@) ==> (r matches Err(PathError::NotRelative(p)) && p@ == path@),
            path@.len() > 0 && !path_is_absolute(path@) && path_has_parent_component(path@)
                ==> (r matches Err(PathError::ParentEscape(p)) && p@ == path@),
            path@.len() > 0 && !path_is_absolute(path@) && !path_has_parent_component(path@)
                ==> (r matches Ok(rp) && rp.text() == path@),
    {
        if path.is_empty() {
            return Err(PathError::Empty);
        }
        if is_absolute_path(path) {
            return Err(PathError::NotRelative(path.to_owned()));
        }
        if has_parent_component(path) {
            return Err(PathError::ParentEscape(path.to_owned()));
        }
        Ok(RelativePath { path: path.to_owned(), buf: to_path_buf(path.to_owned()) })
    }

    /// The path's text.
    pub fn as_str(&self) -> (r: &str)
        ensures
            r@ == self.text(),
    {
        self.path.as_str()
    }

    /// The path buffer held.
    pub closed spec fn held(&self) -> camino::Utf8PathBuf {
        self.buf
    }

    /// The path as a `camino` path buffer: the one held.
    pub fn into_inner(self) -> (r: camino::Utf8PathBuf)
        ensures
            r == self.held(),
    {
        self.buf
    }
}

impl AbsolutePath {
    /// The path's text.
    pub closed spec fn text(&self) -> Seq<char> {
        self.path@
    }

    /// Accepts a non-empty absolute path.
    pub fn new(path: &str) -> (r: Result<Self, PathError>)
        ensures
            path@.len() == 0 ==> r == Err::<Self, PathError>(PathError::Empty),
            path@.len() > 0 && !path_is_absolute(path@) ==> (r matches Err(PathError::NotAbsolute(p)) && p@ == path@),
            path@.len() > 0 && path_is_absolute(path@) ==> (r matches Ok(ap) && ap.text() == path@),
    {
        if path.is_empty() {
            return Err(PathError::Empty);
        }
        if !is_absolute_path(path) {
            return Err(PathError::NotAbsolute(path.to_owned()));
        }
        Ok(AbsolutePath { path: path.to_owned(), buf: to_path_buf(path.to_owned()) })
    }

    /// The path's text.
    pub fn as_str(&self) -> (r: &str)
        ensures
            r@ == self.text(),
    {
        self.path.as_str()
    }

    /// The path buffer held.
    pub closed spec fn held(&self) -> camino::Utf8PathBuf {
        self.buf
    }

    /// The path as a `camino` path buffer: the one held.
    pub fn into_inner(self) -> (r: camino::Utf8PathBuf)
        ensures
            r == self.held(),
    {
        self.buf
    }
}

impl std::str::FromStr for RelativePath {
    type Err = PathError;

    /// Checks the path with `new`.
    fn from_str(s: &str) -> Result<Self, Self::Err> {
        Self::new(s)
    }
}

impl std::str::FromStr for AbsolutePath {
    type Err = PathError;

    /// Checks the path with `new`.
    fn from_str(s: &str) -> Result<Self, Self::Err> {
        Self::new(s)
    }
}

} // verus!
