//! Mirroring a source tree: the walk that collects pages and menu entries.

use vstd::prelude::*;
use vstd::string::*;
use crate::paths::{
    back_path_of, deeper_back_path, extension, is_eligible, join_path, same_text,
};
use crate::shape::{consistent, lemma_mirror_is_consistent};
use crate::tree::{
    empty_mirror, is_excluded, menu_node_view, menu_prefix_view, menu_view, mirror_child,
    mirror_dir, mirror_file, mirror_prefix, outcome_view, pages_view, FileContent, MenuNode,
    Mirror, MirrorError, MirrorFailure, MirrorSpec, Page, Rules, SourceNode,
};

verus! {

/// The value of a menu is the values of its entries, one for one.
pub proof fn lemma_menu_prefix(nodes: Vec<MenuNode>, n: nat)
    requires
        n <= nodes.len(),
    ensures
        menu_prefix_view(nodes, n).len() == n,
        forall|i: int| 0 <= i < n ==> menu_prefix_view(nodes, n)[i] == menu_node_view(nodes[i]),
    decreases n,
{
    if n > 0 {
        lemma_menu_prefix(nodes, (n - 1) as nat);
    }
}

proof fn lemma_menu_view_concat(a: Vec<MenuNode>, b: Vec<MenuNode>, c: Vec<MenuNode>)
    requires
        c@ == a@ + b@,
    ensures
        menu_view(c) == menu_view(a) + menu_view(b),
{
    lemma_menu_prefix(a, a.len() as nat);
    lemma_menu_prefix(b, b.len() as nat);
    lemma_menu_prefix(c, c.len() as nat);
    assert(menu_view(c) =~= menu_view(a) + menu_view(b));
}

proof fn lemma_prefix_failure_stays(
    children: Vec<SourceNode>,
    k: nat,
    n: nat,
    dir: Seq<char>,
    depth: nat,
    rules: Rules,
)
    requires
        k <= n <= children.len(),
        mirror_prefix(children, k, dir, depth, rules).is_err(),
    ensures
        mirror_prefix(children, n, dir, depth, rules) == mirror_prefix(
            children,
            k,
            dir,
            depth,
            rules,
        ),
    decreases n,
{
    if n > k {
        lemma_prefix_failure_stays(children, k, (n - 1) as nat, dir, depth, rules);
    }
}

fn nothing() -> (m: Mirror)
    ensures
        m@ == empty_mirror(),
        m.menu@.len() == 0,
        m.pages@.len() == 0,
{
    let m = Mirror { menu: Vec::new(), pages: Vec::new() };
    assert(m@.menu =~= Seq::empty());
    assert(m@.pages =~= Seq::empty());
    m
}

/// Whether `path` is one of the excluded paths of `rules`.
pub fn path_is_excluded(rules: &Rules, path: &str) -> (yes: bool)
    ensures
        yes == is_excluded(*rules, path@),
{
    let wanted = String::from_str(path);
    let mut i: usize = 0;
    while i < rules.excluded.len()
        invariant
            i <= rules.excluded.len(),
            wanted@ == path@,
            forall|j: int| 0 <= j < i ==> (#[trigger] rules.excluded[j])@ != path@,
        decreases rules.excluded.len() - i,
    {
        if rules.excluded[i] == wanted {
            return true;
        }
        i = i + 1;
    }
    false
}

/// Whether the walk passes over the directory at `path` without entering
/// it: it is excluded, or it keeps the untouched artifact.
pub fn passes_over(rules: &Rules, path: &str) -> (yes: bool)
    ensures
        yes == (path@ == rules.pristine@ || is_excluded(*rules, path@)),
{
    same_text(path, rules.pristine.as_str()) || path_is_excluded(rules, path)
}

fn mirror_file_exec(
    name: &String,
    content: &FileContent,
    dir: &str,
    back: &str,
    Ghost(depth): Ghost<nat>,
) -> (out: Result<Mirror, MirrorError>)
    requires
        back@ == back_path_of(depth),
    ensures
        outcome_view(out) == mirror_file(name@, *content, dir@, depth),
{
    match extension(name.as_str()) {
        None => Ok(nothing()),
        Some(ext) => {
            if !is_eligible(ext.as_str()) {
                return Ok(nothing());
            }
            let path = join_path(dir, name.as_str());
            match content {
                FileContent::Unreadable => Err(MirrorError::Io { path }),
                FileContent::NotText => Err(MirrorError::Encoding { path }),
                FileContent::Text(code) => {
                    let entry = MenuNode::FileEntry {
                        name: name.clone(),
                        relative_path: path.clone(),
                        extension: ext,
                    };
                    let page = Page {
                        relative_path: path,
                        code: code.clone(),
                        back_path: String::from_str(back),
                    };
                    let mut menu: Vec<MenuNode> = Vec::new();
                    menu.push(entry);
                    let mut pages: Vec<Page> = Vec::new();
                    pages.push(page);
                    let m = Mirror { menu, pages };
                    proof {
                        lemma_menu_prefix(m.menu, 1);
                        assert(m@.menu =~= seq![menu_node_view(entry)]);
                        assert(m@.pages =~= seq![page@]);
                    }
                    Ok(m)
                },
            }
        },
    }
}

fn mirror_child_exec(
    node: &SourceNode,
    dir: &str,
    back: &str,
    rules: &Rules,
    Ghost(depth): Ghost<nat>,
) -> (out: Result<Mirror, MirrorError>)
    requires
        back@ == back_path_of(depth),
    ensures
        outcome_view(out) == mirror_child(*node, dir@, depth, *rules),
    decreases *node, 0nat,
{
    match node {
        SourceNode::File { name, content } => mirror_file_exec(
            name,
            content,
            dir,
            back,
            Ghost(depth),
        ),
        SourceNode::Directory { name, children } => {
            let path = join_path(dir, name.as_str());
            if path == rules.pristine {
                return Ok(nothing());
            }
            let deeper = deeper_back_path(back);
            match mirror_dir_exec(
                children,
                path.as_str(),
                deeper.as_str(),
                rules,
                Ghost(depth + 1),
            ) {
                Err(e) => Err(e),
                Ok(inner) => {
                    proof {
                        lemma_menu_prefix(inner.menu, inner.menu.len() as nat);
                    }
                    if inner.menu.len() == 0 {
                        Ok(nothing())
                    } else {
                        let entry = MenuNode::DirectoryEntry {
                            name: name.clone(),
                            children: inner.menu,
                        };
                        let mut menu: Vec<MenuNode> = Vec::new();
                        menu.push(entry);
                        let m = Mirror { menu, pages: inner.pages };
                        proof {
                            lemma_menu_prefix(m.menu, 1);
                            assert(m@.menu =~= seq![menu_node_view(entry)]);
                        }
                        Ok(m)
                    }
                },
            }
        },
    }
}

fn mirror_dir_exec(
    children: &Vec<SourceNode>,
    dir: &str,
    back: &str,
    rules: &Rules,
    Ghost(depth): Ghost<nat>,
) -> (out: Result<Mirror, MirrorError>)
    requires
        back@ == back_path_of(depth),
    ensures
        outcome_view(out) == mirror_dir(*children, dir@, depth, *rules),
    decreases *children, children.len() + 1,
{
    if path_is_excluded(rules, dir) {
        return Ok(nothing());
    }
    let mut menu: Vec<MenuNode> = Vec::new();
    let mut pages: Vec<Page> = Vec::new();
    let mut i: usize = 0;
    assert(menu_view(menu) =~= Seq::empty());
    assert(pages_view(pages@) =~= Seq::empty());
    while i < children.len()
        invariant
            i <= children.len(),
            back@ == back_path_of(depth),
            !is_excluded(*rules, dir@),
            mirror_prefix(*children, i as nat, dir@, depth, *rules) == Ok::<
                MirrorSpec,
                MirrorFailure,
            >(MirrorSpec { menu: menu_view(menu), pages: pages_view(pages@) }),
        decreases children.len() - i,
    {
        match mirror_child_exec(&children[i], dir, back, rules, Ghost(depth)) {
            Err(e) => {
                proof {
                    assert(mirror_prefix(*children, (i + 1) as nat, dir@, depth, *rules)
                        == Err::<MirrorSpec, MirrorFailure>(e@));
                    lemma_prefix_failure_stays(
                        *children,
                        (i + 1) as nat,
                        children.len() as nat,
                        dir@,
                        depth,
                        *rules,
                    );
                }
                return Err(e);
            },
            Ok(here) => {
                let mut here = here;
                let ghost menu_before = menu;
                let ghost pages_before = pages@;
                let ghost here_menu = here.menu;
                let ghost here_pages = here.pages@;
                menu.append(&mut here.menu);
                pages.append(&mut here.pages);
                proof {
                    lemma_menu_view_concat(menu_before, here_menu, menu);
                    assert(pages_view(pages@) =~= pages_view(pages_before) + pages_view(
                        here_pages,
                    ));
                }
            },
        }
        i = i + 1;
    }
    Ok(Mirror { menu, pages })
}

/// Mirrors the source tree whose top-level entries are `root`: the menu and
/// the pages of every eligible file that no rule leaves out, in the order of
/// the entries, or the failure of the first eligible file that gave no text.
pub fn mirror_tree(root: &Vec<SourceNode>, rules: &Rules) -> (out: Result<Mirror, MirrorError>)
    ensures
        outcome_view(out) == mirror_dir(*root, Seq::empty(), 0, *rules),
        out matches Ok(m) ==> consistent(m@),
{
    proof {
        lemma_mirror_is_consistent(*root, Seq::empty(), 0, *rules);
    }
    let start = String::new();
    mirror_dir_exec(root, start.as_str(), start.as_str(), rules, Ghost(0))
}

} // verus!
