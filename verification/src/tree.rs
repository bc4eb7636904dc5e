//! The recovered source tree, and its mirror: one page per eligible file and
//! a navigation menu of the same shape.

use vstd::prelude::*;
use crate::paths::{back_path_of, child_path, eligible_extension, extension_of};

verus! {

/// What reading a source file gave.
#[derive(Clone, Debug)]
pub enum FileContent {
    /// The file's text.
    Text(String),
    /// The file could not be read.
    Unreadable,
    /// The file does not hold text.
    NotText,
}

/// One entry of the recovered source tree.
#[derive(Debug)]
pub enum SourceNode {
    File { name: String, content: FileContent },
    Directory { name: String, children: Vec<SourceNode> },
}

/// The paths that the mirror leaves out.
#[derive(Clone, Debug)]
pub struct Rules {
    /// Relative paths of directories that are neither mirrored nor entered.
    pub excluded: Vec<String>,
    /// Relative path of the directory that keeps the untouched artifact.
    pub pristine: String,
}

/// One entry of the navigation menu.
#[derive(Debug, PartialEq, Eq)]
pub enum MenuNode {
    FileEntry { name: String, relative_path: String, extension: String },
    DirectoryEntry { name: String, children: Vec<MenuNode> },
}

/// The mathematical value of a menu entry.
pub enum MenuTree {
    File { name: Seq<char>, relative_path: Seq<char>, extension: Seq<char> },
    Directory { name: Seq<char>, children: Seq<MenuTree> },
}

/// What the page template is given for one source file. The page is written
/// to the file's relative path with `.html` appended.
#[derive(Clone, Debug, PartialEq, Eq)]
pub struct Page {
    pub relative_path: String,
    pub code: String,
    pub back_path: String,
}

/// The mathematical value of a page.
pub struct PageSpec {
    pub relative_path: Seq<char>,
    pub code: Seq<char>,
    pub back_path: Seq<char>,
}

/// The mirror of a source tree.
#[derive(Debug)]
pub struct Mirror {
    pub menu: Vec<MenuNode>,
    pub pages: Vec<Page>,
}

/// The mathematical value of a mirror.
pub struct MirrorSpec {
    pub menu: Seq<MenuTree>,
    pub pages: Seq<PageSpec>,
}

/// Why a source tree could not be mirrored.
#[derive(Clone, Debug, PartialEq, Eq)]
pub enum MirrorError {
    /// The eligible file at `path` could not be read.
    Io { path: String },
    /// The eligible file at `path` does not hold text.
    Encoding { path: String },
}

/// The mathematical value of a mirror error.
pub enum MirrorFailure {
    Io(Seq<char>),
    Encoding(Seq<char>),
}

pub open spec fn menu_node_view(node: MenuNode) -> MenuTree
    decreases node, 0nat,
{
    match node {
        MenuNode::FileEntry { name, relative_path, extension } => MenuTree::File {
            name: name@,
            relative_path: relative_path@,
            extension: extension@,
        },
        MenuNode::DirectoryEntry { name, children } => MenuTree::Directory {
            name: name@,
            children: menu_prefix_view(children, children.len() as nat),
        },
    }
}

/// The values of the first `n` entries of `nodes`.
pub open spec fn menu_prefix_view(nodes: Vec<MenuNode>, n: nat) -> Seq<MenuTree>
    decreases nodes, n,
{
    if n == 0 || n > nodes.len() {
        Seq::empty()
    } else {
        menu_prefix_view(nodes, (n - 1) as nat).push(menu_node_view(nodes[n - 1]))
    }
}

/// The value of a whole menu.
pub open spec fn menu_view(nodes: Vec<MenuNode>) -> Seq<MenuTree> {
    menu_prefix_view(nodes, nodes.len() as nat)
}

impl View for MenuNode {
    type V = MenuTree;

    open spec fn view(&self) -> MenuTree {
        menu_node_view(*self)
    }
}

impl View for Page {
    type V = PageSpec;

    open spec fn view(&self) -> PageSpec {
        PageSpec {
            relative_path: self.relative_path@,
            code: self.code@,
            back_path: self.back_path@,
        }
    }
}

/// The values of a list of pages.
pub open spec fn pages_view(pages: Seq<Page>) -> Seq<PageSpec> {
    Seq::new(pages.len(), |i: int| pages[i]@)
}

impl View for Mirror {
    type V = MirrorSpec;

    open spec fn view(&self) -> MirrorSpec {
        MirrorSpec { menu: menu_view(self.menu), pages: pages_view(self.pages@) }
    }
}

impl View for MirrorError {
    type V = MirrorFailure;

    open spec fn view(&self) -> MirrorFailure {
        match self {
            MirrorError::Io { path } => MirrorFailure::Io(path@),
            MirrorError::Encoding { path } => MirrorFailure::Encoding(path@),
        }
    }
}

/// The value of what mirroring returns.
pub open spec fn outcome_view(out: Result<Mirror, MirrorError>) -> Result<
    MirrorSpec,
    MirrorFailure,
> {
    match out {
        Ok(m) => Ok(m@),
        Err(e) => Err(e@),
    }
}

/// Whether `path` is one of the excluded paths.
pub open spec fn is_excluded(rules: Rules, path: Seq<char>) -> bool {
    exists|i: int| 0 <= i < rules.excluded.len() && (#[trigger] rules.excluded[i])@ == path
}

/// The mirror of nothing.
pub open spec fn empty_mirror() -> MirrorSpec {
    MirrorSpec { menu: Seq::empty(), pages: Seq::empty() }
}

/// The mirror of one file of the directory `dir`, which lies `depth` levels
/// below the root: a page and a menu entry where its extension is eligible,
/// nothing otherwise. An eligible file that gave no text fails the mirror.
pub open spec fn mirror_file(name: Seq<char>, content: FileContent, dir: Seq<char>, depth: nat)
    -> Result<MirrorSpec, MirrorFailure> {
    let path = child_path(dir, name);
    match extension_of(name) {
        Some(ext) => if eligible_extension(ext) {
            match content {
                FileContent::Text(code) => Ok(
                    MirrorSpec {
                        menu: seq![MenuTree::File { name: name, relative_path: path, extension: ext }],
                        pages: seq![
                            PageSpec {
                                relative_path: path,
                                code: code@,
                                back_path: back_path_of(depth),
                            },
                        ],
                    },
                ),
                FileContent::Unreadable => Err(MirrorFailure::Io(path)),
                FileContent::NotText => Err(MirrorFailure::Encoding(path)),
            }
        } else {
            Ok(empty_mirror())
        },
        None => Ok(empty_mirror()),
    }
}

/// The mirror of the directory at the relative path `dir`, `depth` levels
/// below the root, whose entries are `children`: nothing where the path is
/// excluded, else the mirrors of its entries in their order.
pub open spec fn mirror_dir(children: Vec<SourceNode>, dir: Seq<char>, depth: nat, rules: Rules)
    -> Result<MirrorSpec, MirrorFailure>
    decreases children, children.len() + 1,
{
    if is_excluded(rules, dir) {
        Ok(empty_mirror())
    } else {
        mirror_prefix(children, children.len() as nat, dir, depth, rules)
    }
}

/// The mirrors of the first `n` entries of a directory, one after the other;
/// the first entry that fails decides.
pub open spec fn mirror_prefix(
    children: Vec<SourceNode>,
    n: nat,
    dir: Seq<char>,
    depth: nat,
    rules: Rules,
) -> Result<MirrorSpec, MirrorFailure>
    decreases children, n,
{
    if n == 0 || n > children.len() {
        Ok(empty_mirror())
    } else {
        match mirror_prefix(children, (n - 1) as nat, dir, depth, rules) {
            Err(e) => Err(e),
            Ok(before) => match mirror_child(children[n - 1], dir, depth, rules) {
                Err(e) => Err(e),
                Ok(here) => Ok(
                    MirrorSpec {
                        menu: before.menu + here.menu,
                        pages: before.pages + here.pages,
                    },
                ),
            },
        }
    }
}

/// The mirror of one entry of the directory `dir`. A subdirectory at the
/// pristine path is skipped; one whose own mirror has an empty menu leaves
/// no trace; any other becomes one directory entry over its menu.
pub open spec fn mirror_child(node: SourceNode, dir: Seq<char>, depth: nat, rules: Rules)
    -> Result<MirrorSpec, MirrorFailure>
    decreases node, 0nat,
{
    match node {
        SourceNode::Directory { name, children } => {
            let path = child_path(dir, name@);
            if path == rules.pristine@ {
                Ok(empty_mirror())
            } else {
                match mirror_dir(children, path, depth + 1, rules) {
                    Err(e) => Err(e),
                    Ok(inner) => if inner.menu.len() == 0 {
                        Ok(empty_mirror())
                    } else {
                        Ok(
                            MirrorSpec {
                                menu: seq![MenuTree::Directory { name: name@, children: inner.menu }],
                                pages: inner.pages,
                            },
                        )
                    },
                }
            }
        },
        SourceNode::File { name, content } => mirror_file(name@, content, dir, depth),
    }
}

} // verus!
