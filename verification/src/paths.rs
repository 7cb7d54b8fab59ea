//! Paths as lists of components.
//!
//! The operating system's path type is taken apart and put together by the program
//! around the library; the rules about which components are safe work on these
//! values.

use vstd::prelude::*;
use vstd::string::*;

use crate::lists::push_item;
use crate::PRODUCT_NAME;

verus! {

/// One component of a path.
#[derive(Debug, PartialEq)]
pub enum PathPart {
    /// A drive or share, on systems that have them.
    Prefix(String),
    Root,
    Current,
    Parent,
    Normal(String),
}

/// A path component, by its contents.
#[verifier::ext_equal]
pub enum PathPartModel {
    Prefix(Seq<char>),
    Root,
    Current,
    Parent,
    Normal(Seq<char>),
}

impl DeepView for PathPart {
    type V = PathPartModel;

    open spec fn deep_view(&self) -> PathPartModel {
        match self {
            PathPart::Prefix(text) => PathPartModel::Prefix(text@),
            PathPart::Root => PathPartModel::Root,
            PathPart::Current => PathPartModel::Current,
            PathPart::Parent => PathPartModel::Parent,
            PathPart::Normal(text) => PathPartModel::Normal(text@),
        }
    }
}

impl Clone for PathPart {
    fn clone(&self) -> (out: Self)
        ensures
            out == *self,
    {
        match self {
            PathPart::Prefix(text) => PathPart::Prefix(text.clone()),
            PathPart::Root => PathPart::Root,
            PathPart::Current => PathPart::Current,
            PathPart::Parent => PathPart::Parent,
            PathPart::Normal(text) => PathPart::Normal(text.clone()),
        }
    }
}

/// A copy of a path.
pub fn clone_parts(parts: &Vec<PathPart>) -> (out: Vec<PathPart>)
    ensures
        out@ == parts@,
        out.deep_view() == parts.deep_view(),
{
    let out = parts.clone();
    assert(out@ =~= parts@);
    assert(out.deep_view() =~= parts.deep_view());
    out
}

/// A directory: how the system writes it, and its components.
#[derive(Debug, PartialEq)]
pub struct DirPath {
    pub text: String,
    pub parts: Vec<PathPart>,
}

#[verifier::ext_equal]
pub struct DirPathModel {
    pub text: Seq<char>,
    pub parts: Seq<PathPartModel>,
}

impl DeepView for DirPath {
    type V = DirPathModel;

    open spec fn deep_view(&self) -> DirPathModel {
        DirPathModel { text: self.text@, parts: self.parts.deep_view() }
    }
}

impl Clone for DirPath {
    fn clone(&self) -> (out: Self)
        ensures
            out.deep_view() == self.deep_view(),
    {
        DirPath { text: self.text.clone(), parts: clone_parts(&self.parts) }
    }
}

/// A path with one more component.
pub open spec fn below_parts(parts: Seq<PathPartModel>, name: Seq<char>) -> Seq<PathPartModel> {
    parts.push(PathPartModel::Normal(name))
}

/// The path of `name` in a directory.
pub fn join(parts: &Vec<PathPart>, name: &str) -> (out: Vec<PathPart>)
    ensures
        out.deep_view() == below_parts(parts.deep_view(), name@),
{
    let mut out = clone_parts(parts);
    push_item(&mut out, PathPart::Normal(name.to_owned()));
    out
}

/// Where configuration, identity and trust material are kept.
#[derive(Debug, PartialEq)]
pub enum ConfigDir {
    /// The directory that the environment names.
    Named(String),
    Parts(Vec<PathPart>),
}

/// The directory to use where the platform knows none: the current one.
pub open spec fn or_current(parts: Option<Seq<PathPartModel>>) -> Seq<PathPartModel> {
    match parts {
        Some(parts) => parts,
        None => seq![PathPartModel::Current],
    }
}

fn parts_or_current(parts: Option<Vec<PathPart>>) -> (out: Vec<PathPart>)
    ensures
        out.deep_view() == or_current(parts.deep_view()),
{
    match parts {
        Some(parts) => parts,
        None => {
            let out: Vec<PathPart> = vec![PathPart::Current];
            assert(out.deep_view() =~= seq![PathPartModel::Current]);
            out
        },
    }
}

/// Root directory holding configuration, identity and trust material.
///
/// What the environment names overrides the platform default, which is useful for
/// tests and for running several instances on a single machine. An empty name counts as
/// none.
pub fn config_dir(named: Option<String>, platform: Option<Vec<PathPart>>) -> (out: ConfigDir)
    ensures
        match out {
            ConfigDir::Named(text) => named matches Some(name) && name@.len() > 0 && text@
                == name@,
            ConfigDir::Parts(parts) => !(named matches Some(name) && name@.len() > 0)
                && parts.deep_view() == below_parts(
                or_current(platform.deep_view()),
                PRODUCT_NAME@,
            ),
        },
{
    if let Some(name) = named {
        if name.as_str().unicode_len() > 0 {
            return ConfigDir::Named(name);
        }
    }
    ConfigDir::Parts(join(&parts_or_current(platform), PRODUCT_NAME))
}

/// Directory used as the default destination for received files: below the download
/// directory, else below the home directory.
pub fn default_download_dir(
    downloads: Option<Vec<PathPart>>,
    home: Option<Vec<PathPart>>,
) -> (out: Vec<PathPart>)
    ensures
        out.deep_view() == below_parts(
            or_current(
                if downloads is Some {
                    downloads.deep_view()
                } else {
                    home.deep_view()
                },
            ),
            "UnionDesk"@,
        ),
{
    let base = match downloads {
        Some(parts) => Some(parts),
        None => home,
    };
    join(&parts_or_current(base), "UnionDesk")
}

} // verus!
