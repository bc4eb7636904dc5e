//! What holds of every mirror: the menu and the pages agree, and no
//! directory entry is empty.

use vstd::prelude::*;
use crate::paths::{back_path_of, child_path, eligible_extension, extension_of, separator};
use crate::tree::{
    empty_mirror, is_excluded, mirror_child, mirror_dir, mirror_file, mirror_prefix, MenuTree, MirrorFailure, MirrorSpec, PageSpec, Rules, SourceNode,
};

verus! {

/// Whether no directory entry in or below `node` is empty.
pub open spec fn pruned(node: MenuTree) -> bool
    decreases node,
{
    match node {
        MenuTree::File { .. } => true,
        MenuTree::Directory { children, .. } => children.len() > 0 && forall|i: int|
            0 <= i < children.len() ==> pruned(#[trigger] children[i]),
    }
}

/// Whether no directory entry anywhere in `menu` is empty.
pub open spec fn menu_is_pruned(menu: Seq<MenuTree>) -> bool {
    forall|i: int| 0 <= i < menu.len() ==> pruned(#[trigger] menu[i])
}

/// The number of file entries in and below `node`.
pub open spec fn file_entries(node: MenuTree) -> nat
    decreases node, 0nat,
{
    match node {
        MenuTree::File { .. } => 1,
        MenuTree::Directory { children, .. } => file_entries_among(children, children.len()),
    }
}

/// The number of file entries in and below the first `n` entries of `menu`.
pub open spec fn file_entries_among(menu: Seq<MenuTree>, n: nat) -> nat
    decreases menu, n,
{
    if n == 0 || n > menu.len() {
        0
    } else {
        file_entries_among(menu, (n - 1) as nat) + file_entries(menu[n - 1])
    }
}

/// The number of file entries of a whole menu.
pub open spec fn menu_file_entries(menu: Seq<MenuTree>) -> nat {
    file_entries_among(menu, menu.len())
}

/// The relative paths of the file entries in and below `node`, in their
/// order.
pub open spec fn entry_paths(node: MenuTree) -> Seq<Seq<char>>
    decreases node, 0nat,
{
    match node {
        MenuTree::File { relative_path, .. } => seq![relative_path],
        MenuTree::Directory { children, .. } => entry_paths_among(children, children.len()),
    }
}

/// The relative paths of the file entries in and below the first `n`
/// entries of `menu`, in their order.
pub open spec fn entry_paths_among(menu: Seq<MenuTree>, n: nat) -> Seq<Seq<char>>
    decreases menu, n,
{
    if n == 0 || n > menu.len() {
        Seq::empty()
    } else {
        entry_paths_among(menu, (n - 1) as nat) + entry_paths(menu[n - 1])
    }
}

/// The relative paths of the file entries of a whole menu, in their order.
pub open spec fn menu_paths(menu: Seq<MenuTree>) -> Seq<Seq<char>> {
    entry_paths_among(menu, menu.len())
}

/// The relative paths of the source files of the pages, in their order.
pub open spec fn page_paths(pages: Seq<PageSpec>) -> Seq<Seq<char>> {
    Seq::new(pages.len(), |k: int| pages[k].relative_path)
}

/// Whether a mirror is consistent: the file entries of its menu name the
/// source files of its pages, one for one and in the same order, and its
/// menu has no empty directory entry.
pub open spec fn consistent(m: MirrorSpec) -> bool {
    &&& menu_is_pruned(m.menu)
    &&& menu_file_entries(m.menu) == m.pages.len()
    &&& menu_paths(m.menu) == page_paths(m.pages)
}

proof fn lemma_paths_of_prefix(a: Seq<MenuTree>, b: Seq<MenuTree>, n: nat)
    requires
        n <= a.len(),
        n <= b.len(),
        forall|i: int| 0 <= i < n ==> a[i] == b[i],
    ensures
        entry_paths_among(a, n) == entry_paths_among(b, n),
    decreases n,
{
    if n > 0 {
        lemma_paths_of_prefix(a, b, (n - 1) as nat);
    }
}

proof fn lemma_paths_concat(a: Seq<MenuTree>, b: Seq<MenuTree>, n: nat)
    requires
        n <= b.len(),
    ensures
        entry_paths_among(a + b, a.len() + n) == menu_paths(a) + entry_paths_among(b, n),
    decreases n,
{
    if n == 0 {
        lemma_paths_of_prefix(a + b, a, a.len());
        assert(menu_paths(a) + entry_paths_among(b, 0) =~= menu_paths(a));
    } else {
        lemma_paths_concat(a, b, (n - 1) as nat);
        assert((a + b)[a.len() + n - 1] == b[n - 1]);
        assert((menu_paths(a) + entry_paths_among(b, (n - 1) as nat)) + entry_paths(b[n - 1])
            =~= menu_paths(a) + (entry_paths_among(b, (n - 1) as nat) + entry_paths(b[n - 1])));
    }
}

proof fn lemma_entries_of_prefix(a: Seq<MenuTree>, b: Seq<MenuTree>, n: nat)
    requires
        n <= a.len(),
        n <= b.len(),
        forall|i: int| 0 <= i < n ==> a[i] == b[i],
    ensures
        file_entries_among(a, n) == file_entries_among(b, n),
    decreases n,
{
    if n > 0 {
        lemma_entries_of_prefix(a, b, (n - 1) as nat);
    }
}

proof fn lemma_entries_concat(a: Seq<MenuTree>, b: Seq<MenuTree>, n: nat)
    requires
        n <= b.len(),
    ensures
        file_entries_among(a + b, a.len() + n) == menu_file_entries(a) + file_entries_among(b, n),
    decreases n,
{
    if n == 0 {
        lemma_entries_of_prefix(a + b, a, a.len());
    } else {
        lemma_entries_concat(a, b, (n - 1) as nat);
        assert((a + b)[a.len() + n - 1] == b[n - 1]);
    }
}

proof fn lemma_nothing_is_consistent()
    ensures
        consistent(empty_mirror()),
{
    assert(page_paths(empty_mirror().pages) =~= Seq::<Seq<char>>::empty());
}

proof fn lemma_consistent_concat(before: MirrorSpec, here: MirrorSpec)
    requires
        consistent(before),
        consistent(here),
    ensures
        consistent(
            MirrorSpec { menu: before.menu + here.menu, pages: before.pages + here.pages },
        ),
{
    lemma_entries_concat(before.menu, here.menu, here.menu.len());
    lemma_paths_concat(before.menu, here.menu, here.menu.len());
    assert(page_paths(before.pages + here.pages) =~= page_paths(before.pages) + page_paths(
        here.pages,
    ));
    let menu = before.menu + here.menu;
    assert forall|i: int| 0 <= i < menu.len() implies pruned(#[trigger] menu[i]) by {
        if i < before.menu.len() {
            assert(menu[i] == before.menu[i]);
        } else {
            assert(menu[i] == here.menu[i - before.menu.len()]);
        }
    }
}

/// Every mirror of a directory is consistent: each page has its file entry
/// in the menu and each file entry its page, under the same relative path
/// and in the same order, and no directory entry is empty, whatever the tree
/// and the rules.
pub proof fn lemma_mirror_is_consistent(
    children: Vec<SourceNode>,
    dir: Seq<char>,
    depth: nat,
    rules: Rules,
)
    ensures
        mirror_dir(children, dir, depth, rules) matches Ok(m) ==> consistent(m),
    decreases children, children.len() + 1,
{
    lemma_nothing_is_consistent();
    if !is_excluded(rules, dir) {
        lemma_prefix_is_consistent(children, children.len() as nat, dir, depth, rules);
    }
}

proof fn lemma_prefix_is_consistent(
    children: Vec<SourceNode>,
    n: nat,
    dir: Seq<char>,
    depth: nat,
    rules: Rules,
)
    ensures
        mirror_prefix(children, n, dir, depth, rules) matches Ok(m) ==> consistent(m),
    decreases children, n,
{
    lemma_nothing_is_consistent();
    if n > 0 && n <= children.len() {
        lemma_prefix_is_consistent(children, (n - 1) as nat, dir, depth, rules);
        lemma_child_is_consistent(children[n - 1], dir, depth, rules);
        match mirror_prefix(children, (n - 1) as nat, dir, depth, rules) {
            Ok(before) => match mirror_child(children[n - 1], dir, depth, rules) {
                Ok(here) => {
                    lemma_consistent_concat(before, here);
                },
                Err(_) => {},
            },
            Err(_) => {},
        }
    }
}

proof fn lemma_child_is_consistent(node: SourceNode, dir: Seq<char>, depth: nat, rules: Rules)
    ensures
        mirror_child(node, dir, depth, rules) matches Ok(m) ==> consistent(m),
    decreases node, 0nat,
{
    lemma_nothing_is_consistent();
    match node {
        SourceNode::Directory { name, children } => {
            let path = child_path(dir, name@);
            lemma_mirror_is_consistent(children, path, depth + 1, rules);
            match mirror_dir(children, path, depth + 1, rules) {
                Ok(inner) => {
                    let entry = MenuTree::Directory { name: name@, children: inner.menu };
                    let menu = seq![entry];
                    assert(file_entries_among(menu, 0) == 0);
                    assert(menu[0] == entry);
                    assert(file_entries_among(menu, 1) == file_entries(entry));
                    assert(entry_paths_among(menu, 0) == Seq::<Seq<char>>::empty());
                    assert(entry_paths_among(menu, 1) =~= entry_paths(entry));
                    assert(entry_paths(entry) == menu_paths(inner.menu));
                },
                Err(_) => {},
            }
        },
        SourceNode::File { name, content } => {
            match mirror_file(name@, content, dir, depth) {
                Ok(m) => {
                    if m.menu.len() > 0 {
                        assert(file_entries_among(m.menu, 0) == 0);
                        assert(file_entries_among(m.menu, 1) == file_entries(m.menu[0]));
                        assert(entry_paths_among(m.menu, 0) == Seq::<Seq<char>>::empty());
                        assert(entry_paths_among(m.menu, 1) =~= entry_paths(m.menu[0]));
                        assert(page_paths(m.pages) =~= seq![m.pages[0].relative_path]);
                    }
                },
                Err(_) => {},
            }
        },
    }
}

/// Whether a file of this name is rendered as a page.
pub open spec fn eligible_name(name: Seq<char>) -> bool {
    extension_of(name) matches Some(ext) && eligible_extension(ext)
}

/// The number of eligible files in and below `node`.
pub open spec fn eligible_files(node: SourceNode) -> nat
    decreases node, 0nat,
{
    match node {
        SourceNode::File { name, .. } => if eligible_name(name@) {
            1
        } else {
            0
        },
        SourceNode::Directory { children, .. } => eligible_files_among(
            children,
            children.len() as nat,
        ),
    }
}

/// The number of eligible files in and below the first `n` of `children`.
pub open spec fn eligible_files_among(children: Vec<SourceNode>, n: nat) -> nat
    decreases children, n,
{
    if n == 0 || n > children.len() {
        0
    } else {
        eligible_files_among(children, (n - 1) as nat) + eligible_files(children[n - 1])
    }
}

/// An entry without any eligible file in or below it leaves no trace: a
/// directory that holds only other files, or only directories of that kind,
/// gets no entry in the menu, nor does any directory inside it, and no page
/// is made, whatever the rules.
pub proof fn lemma_barren_entry_leaves_no_trace(
    node: SourceNode,
    dir: Seq<char>,
    depth: nat,
    rules: Rules,
)
    requires
        eligible_files(node) == 0,
    ensures
        mirror_child(node, dir, depth, rules) == Ok::<MirrorSpec, MirrorFailure>(empty_mirror()),
    decreases node, 0nat,
{
    match node {
        SourceNode::Directory { name, children } => {
            lemma_barren_prefix_leaves_no_trace(
                children,
                children.len() as nat,
                child_path(dir, name@),
                depth + 1,
                rules,
            );
        },
        SourceNode::File { name, content } => {},
    }
}

proof fn lemma_barren_prefix_leaves_no_trace(
    children: Vec<SourceNode>,
    n: nat,
    dir: Seq<char>,
    depth: nat,
    rules: Rules,
)
    requires
        n <= children.len(),
        eligible_files_among(children, n) == 0,
    ensures
        mirror_prefix(children, n, dir, depth, rules) == Ok::<MirrorSpec, MirrorFailure>(
            empty_mirror(),
        ),
    decreases children, n,
{
    if n > 0 {
        lemma_barren_prefix_leaves_no_trace(children, (n - 1) as nat, dir, depth, rules);
        lemma_barren_entry_leaves_no_trace(children[n - 1], dir, depth, rules);
        let none = empty_mirror();
        assert(none.menu + none.menu =~= none.menu);
        assert(none.pages + none.pages =~= none.pages);
    }
}

/// Whether the entry `node` of the directory `dir` is mirrored in full: no
/// directory in or below it is excluded or the pristine copy, and every
/// eligible file gave its text.
pub open spec fn fully_mirrored(node: SourceNode, dir: Seq<char>, rules: Rules) -> bool
    decreases node,
{
    match node {
        SourceNode::File { name, content } => eligible_name(name@) ==> content is Text,
        SourceNode::Directory { name, children } => {
            let path = child_path(dir, name@);
            &&& path != rules.pristine@
            &&& !is_excluded(rules, path)
            &&& forall|i: int|
                0 <= i < children.len() ==> fully_mirrored(#[trigger] children[i], path, rules)
        },
    }
}

/// Where no rule leaves anything out and every eligible file gave its text,
/// the mirror has exactly one page and one file entry for each eligible
/// file of the tree.
pub proof fn lemma_mirror_is_complete(
    children: Vec<SourceNode>,
    dir: Seq<char>,
    depth: nat,
    rules: Rules,
)
    requires
        !is_excluded(rules, dir),
        forall|i: int| 0 <= i < children.len() ==> fully_mirrored(#[trigger] children[i], dir, rules),
    ensures
        mirror_dir(children, dir, depth, rules) matches Ok(m) && m.pages.len()
            == eligible_files_among(children, children.len() as nat) && menu_file_entries(m.menu)
            == eligible_files_among(children, children.len() as nat),
    decreases children, children.len() + 1,
{
    lemma_prefix_is_complete(children, children.len() as nat, dir, depth, rules);
    lemma_mirror_is_consistent(children, dir, depth, rules);
}

proof fn lemma_prefix_is_complete(
    children: Vec<SourceNode>,
    n: nat,
    dir: Seq<char>,
    depth: nat,
    rules: Rules,
)
    requires
        n <= children.len(),
        forall|i: int| 0 <= i < children.len() ==> fully_mirrored(#[trigger] children[i], dir, rules),
    ensures
        mirror_prefix(children, n, dir, depth, rules) matches Ok(m) && m.pages.len()
            == eligible_files_among(children, n),
    decreases children, n,
{
    if n > 0 {
        lemma_prefix_is_complete(children, (n - 1) as nat, dir, depth, rules);
        lemma_child_is_complete(children[n - 1], dir, depth, rules);
    }
}

proof fn lemma_child_is_complete(node: SourceNode, dir: Seq<char>, depth: nat, rules: Rules)
    requires
        fully_mirrored(node, dir, rules),
    ensures
        mirror_child(node, dir, depth, rules) matches Ok(m) && m.pages.len() == eligible_files(
            node,
        ),
    decreases node, 0nat,
{
    match node {
        SourceNode::Directory { name, children } => {
            let path = child_path(dir, name@);
            lemma_mirror_is_complete(children, path, depth + 1, rules);
            lemma_mirror_is_consistent(children, path, depth + 1, rules);
            match mirror_dir(children, path, depth + 1, rules) {
                Ok(inner) => {
                    if inner.menu.len() == 0 {
                        assert(file_entries_among(inner.menu, 0) == 0);
                    }
                },
                Err(_) => {},
            }
        },
        SourceNode::File { name, content } => {},
    }
}

/// The number of separators in a relative path.
pub open spec fn separators(path: Seq<char>) -> nat
    decreases path.len(),
{
    if path.len() == 0 {
        0
    } else if path.last() == '/' {
        separators(path.drop_last()) + 1
    } else {
        separators(path.drop_last())
    }
}

/// The number of components of a relative path; the root has none.
pub open spec fn levels(path: Seq<char>) -> nat {
    if path.len() == 0 {
        0
    } else {
        separators(path) + 1
    }
}

/// Whether a name is one component: not empty and without a separator.
pub open spec fn plain_name(name: Seq<char>) -> bool {
    name.len() > 0 && separators(name) == 0
}

/// Whether every name in and below `node` is one component.
pub open spec fn plain_names(node: SourceNode) -> bool
    decreases node,
{
    match node {
        SourceNode::File { name, .. } => plain_name(name@),
        SourceNode::Directory { name, children } => plain_name(name@) && forall|i: int|
            0 <= i < children.len() ==> plain_names(#[trigger] children[i]),
    }
}

/// Whether the back path of a page has one parent segment for each
/// directory between the root and the page's file.
pub open spec fn leads_back(page: PageSpec) -> bool {
    page.back_path == back_path_of(separators(page.relative_path))
}

/// Whether every page of a mirror leads back to the root.
pub open spec fn all_lead_back(m: MirrorSpec) -> bool {
    forall|k: int| 0 <= k < m.pages.len() ==> leads_back(#[trigger] m.pages[k])
}

proof fn lemma_separators_concat(a: Seq<char>, b: Seq<char>)
    ensures
        separators(a + b) == separators(a) + separators(b),
    decreases b.len(),
{
    if b.len() == 0 {
        assert(a + b =~= a);
    } else {
        assert((a + b).drop_last() =~= a + b.drop_last());
        lemma_separators_concat(a, b.drop_last());
    }
}

proof fn lemma_child_level(dir: Seq<char>, name: Seq<char>)
    requires
        plain_name(name),
    ensures
        separators(child_path(dir, name)) == levels(dir),
        levels(child_path(dir, name)) == levels(dir) + 1,
{
    if dir.len() > 0 {
        lemma_separators_concat(dir, separator());
        lemma_separators_concat(dir + separator(), name);
        assert(separator().len() == 1 && separator().last() == '/');
        assert(separator().drop_last() =~= Seq::<char>::empty());
        assert(separators(separator().drop_last()) == 0);
        assert(separators(separator()) == 1);
    }
}

/// In the mirror of a tree whose names are single components, the back path
/// of every page has exactly one parent segment per directory above the
/// page's file: as many as its relative path has separators.
pub proof fn lemma_back_paths_lead_to_the_root(
    children: Vec<SourceNode>,
    dir: Seq<char>,
    rules: Rules,
)
    requires
        forall|i: int| 0 <= i < children.len() ==> plain_names(#[trigger] children[i]),
    ensures
        mirror_dir(children, dir, levels(dir), rules) matches Ok(m) ==> all_lead_back(m),
    decreases children, children.len() + 1,
{
    if !is_excluded(rules, dir) {
        lemma_prefix_leads_back(children, children.len() as nat, dir, rules);
    }
}

proof fn lemma_prefix_leads_back(children: Vec<SourceNode>, n: nat, dir: Seq<char>, rules: Rules)
    requires
        forall|i: int| 0 <= i < children.len() ==> plain_names(#[trigger] children[i]),
    ensures
        mirror_prefix(children, n, dir, levels(dir), rules) matches Ok(m) ==> all_lead_back(m),
    decreases children, n,
{
    if n > 0 && n <= children.len() {
        lemma_prefix_leads_back(children, (n - 1) as nat, dir, rules);
        lemma_child_leads_back(children[n - 1], dir, rules);
        match mirror_prefix(children, (n - 1) as nat, dir, levels(dir), rules) {
            Ok(before) => match mirror_child(children[n - 1], dir, levels(dir), rules) {
                Ok(here) => {
                    let pages = before.pages + here.pages;
                    assert forall|k: int| 0 <= k < pages.len() implies leads_back(
                        #[trigger] pages[k],
                    ) by {
                        if k < before.pages.len() {
                            assert(pages[k] == before.pages[k]);
                        } else {
                            assert(pages[k] == here.pages[k - before.pages.len()]);
                        }
                    }
                },
                Err(_) => {},
            },
            Err(_) => {},
        }
    }
}

proof fn lemma_child_leads_back(node: SourceNode, dir: Seq<char>, rules: Rules)
    requires
        plain_names(node),
    ensures
        mirror_child(node, dir, levels(dir), rules) matches Ok(m) ==> all_lead_back(m),
    decreases node, 0nat,
{
    match node {
        SourceNode::Directory { name, children } => {
            let path = child_path(dir, name@);
            lemma_child_level(dir, name@);
            lemma_back_paths_lead_to_the_root(children, path, rules);
        },
        SourceNode::File { name, content } => {
            lemma_child_level(dir, name@);
        },
    }
}

/// Whether `menu` holds `entry` under the chain of directory entries named
/// by `chain`, outermost first.
pub open spec fn menu_holds(menu: Seq<MenuTree>, chain: Seq<Seq<char>>, entry: MenuTree) -> bool
    decreases chain.len(),
{
    if chain.len() == 0 {
        menu.contains(entry)
    } else {
        exists|k: int|
            0 <= k < menu.len() && is_directory_entry(#[trigger] menu[k], chain[0])
                && menu_holds(entries_below(menu[k]), chain.subrange(1, chain.len() as int), entry)
    }
}

/// Whether `node` is a directory entry of this name.
pub open spec fn is_directory_entry(node: MenuTree, name: Seq<char>) -> bool {
    node matches MenuTree::Directory { name: own, .. } && own == name
}

/// The entries of a directory entry; a file entry has none.
pub open spec fn entries_below(node: MenuTree) -> Seq<MenuTree> {
    match node {
        MenuTree::Directory { children, .. } => children,
        MenuTree::File { .. } => Seq::empty(),
    }
}

/// Whether `node` is a file of this name.
pub open spec fn is_file(node: SourceNode, name: Seq<char>) -> bool {
    node matches SourceNode::File { name: own, .. } && own@ == name
}

/// Whether `node` is a directory of this name.
pub open spec fn is_directory(node: SourceNode, name: Seq<char>) -> bool {
    node matches SourceNode::Directory { name: own, .. } && own@ == name
}

/// Whether the directory `node` holds a file named `file` under the chain
/// of directories named by `chain`; a file holds none.
pub open spec fn node_holds(node: SourceNode, chain: Seq<Seq<char>>, file: Seq<char>) -> bool
    decreases chain.len(), 1nat,
{
    match node {
        SourceNode::Directory { children, .. } => tree_holds(children, chain, file),
        SourceNode::File { .. } => false,
    }
}

/// Whether the entries `children` hold a file named `file` under the chain
/// of directories named by `chain`, outermost first.
pub open spec fn tree_holds(children: Vec<SourceNode>, chain: Seq<Seq<char>>, file: Seq<char>) -> bool
    decreases chain.len(), 0nat,
{
    if chain.len() == 0 {
        exists|k: int| 0 <= k < children.len() && is_file(#[trigger] children[k], file)
    } else {
        exists|k: int|
            0 <= k < children.len() && is_directory(#[trigger] children[k], chain[0])
                && node_holds(children[k], chain.subrange(1, chain.len() as int), file)
    }
}

/// The relative path of the file `file` under the directories `chain` of
/// the directory `dir`.
pub open spec fn path_under(dir: Seq<char>, chain: Seq<Seq<char>>, file: Seq<char>) -> Seq<char>
    decreases chain.len(),
{
    if chain.len() == 0 {
        child_path(dir, file)
    } else {
        path_under(child_path(dir, chain[0]), chain.subrange(1, chain.len() as int), file)
    }
}

/// The file entry of the eligible file `file` under `chain`.
pub open spec fn entry_of(dir: Seq<char>, chain: Seq<Seq<char>>, file: Seq<char>) -> MenuTree {
    MenuTree::File {
        name: file,
        relative_path: path_under(dir, chain, file),
        extension: extension_of(file).unwrap(),
    }
}

proof fn lemma_prefix_holds_each_child(
    children: Vec<SourceNode>,
    n: nat,
    k: int,
    dir: Seq<char>,
    depth: nat,
    rules: Rules,
)
    requires
        0 <= k < n <= children.len(),
        mirror_prefix(children, n, dir, depth, rules).is_ok(),
    ensures
        mirror_child(children[k], dir, depth, rules) matches Ok(here) && (forall|j: int|
            0 <= j < here.menu.len() ==> mirror_prefix(
                children,
                n,
                dir,
                depth,
                rules,
            )->Ok_0.menu.contains(#[trigger] here.menu[j])),
    decreases n,
{
    let whole = mirror_prefix(children, n, dir, depth, rules)->Ok_0;
    let before = mirror_prefix(children, (n - 1) as nat, dir, depth, rules)->Ok_0;
    let last = mirror_child(children[n - 1], dir, depth, rules)->Ok_0;
    assert(whole.menu == before.menu + last.menu);
    if k < n - 1 {
        lemma_prefix_holds_each_child(children, (n - 1) as nat, k, dir, depth, rules);
        let here = mirror_child(children[k], dir, depth, rules)->Ok_0;
        assert forall|j: int| 0 <= j < here.menu.len() implies whole.menu.contains(
            #[trigger] here.menu[j],
        ) by {
            let i = choose|i: int| 0 <= i < before.menu.len() && before.menu[i] == here.menu[j];
            assert(whole.menu[i] == here.menu[j]);
        }
    } else {
        assert forall|j: int| 0 <= j < last.menu.len() implies whole.menu.contains(
            #[trigger] last.menu[j],
        ) by {
            assert(whole.menu[before.menu.len() + j] == last.menu[j]);
        }
    }
}

/// In a tree that is mirrored in full, the entry of every eligible file
/// lies in the menu under the chain of directory entries named by the
/// directories above the file, with its name, its relative path and its
/// extension.
pub proof fn lemma_entry_lies_under_its_parents(
    children: Vec<SourceNode>,
    dir: Seq<char>,
    depth: nat,
    rules: Rules,
    chain: Seq<Seq<char>>,
    file: Seq<char>,
)
    requires
        !is_excluded(rules, dir),
        forall|i: int| 0 <= i < children.len() ==> fully_mirrored(#[trigger] children[i], dir, rules),
        tree_holds(children, chain, file),
        eligible_name(file),
    ensures
        mirror_dir(children, dir, depth, rules) matches Ok(m) && menu_holds(
            m.menu,
            chain,
            entry_of(dir, chain, file),
        ),
    decreases chain.len(),
{
    lemma_mirror_is_complete(children, dir, depth, rules);
    let m = mirror_dir(children, dir, depth, rules)->Ok_0;
    let entry = entry_of(dir, chain, file);
    if chain.len() == 0 {
        let k = choose|k: int| 0 <= k < children.len() && is_file(#[trigger] children[k], file);
        lemma_prefix_holds_each_child(children, children.len() as nat, k, dir, depth, rules);
        let here = mirror_child(children[k], dir, depth, rules)->Ok_0;
        assert(fully_mirrored(children[k], dir, rules));
        assert(here.menu[0] == entry);
    } else {
        let rest = chain.subrange(1, chain.len() as int);
        let k = choose|k: int|
            0 <= k < children.len() && is_directory(#[trigger] children[k], chain[0])
                && node_holds(children[k], rest, file);
        let path = child_path(dir, chain[0]);
        assert(fully_mirrored(children[k], dir, rules));
        match children[k] {
            SourceNode::Directory { name, children: inner } => {
                lemma_entry_lies_under_its_parents(inner, path, depth + 1, rules, rest, file);
                let below = mirror_dir(inner, path, depth + 1, rules)->Ok_0;
                lemma_menu_that_holds_is_not_empty(below.menu, rest, entry);
                lemma_prefix_holds_each_child(
                    children,
                    children.len() as nat,
                    k,
                    dir,
                    depth,
                    rules,
                );
                let here = mirror_child(children[k], dir, depth, rules)->Ok_0;
                let made = MenuTree::Directory { name: chain[0], children: below.menu };
                assert(here.menu[0] == made);
                assert(m.menu.contains(made));
                let at = choose|i: int| 0 <= i < m.menu.len() && m.menu[i] == made;
                assert(is_directory_entry(m.menu[at], chain[0]));
                assert(entries_below(m.menu[at]) == below.menu);
            },
            SourceNode::File { .. } => {},
        }
    }
}

proof fn lemma_menu_that_holds_is_not_empty(
    menu: Seq<MenuTree>,
    chain: Seq<Seq<char>>,
    entry: MenuTree,
)
    requires
        menu_holds(menu, chain, entry),
    ensures
        menu.len() > 0,
{
}

/// The relative path of `node` where it is a directory of `dir`.
pub open spec fn directory_path(node: SourceNode, dir: Seq<char>) -> Option<Seq<char>> {
    match node {
        SourceNode::Directory { name, .. } => Some(child_path(dir, name@)),
        SourceNode::File { .. } => None,
    }
}

/// A directory at an excluded path leaves no trace: no page is made of any
/// file in or below it and the menu gets no entry for it, whatever it holds.
pub proof fn lemma_excluded_directory_leaves_no_trace(
    node: SourceNode,
    dir: Seq<char>,
    depth: nat,
    rules: Rules,
)
    requires
        directory_path(node, dir) matches Some(path) && is_excluded(rules, path),
    ensures
        mirror_child(node, dir, depth, rules) == Ok::<MirrorSpec, MirrorFailure>(empty_mirror()),
{
}

/// The directory that keeps the untouched artifact leaves no trace either.
pub proof fn lemma_pristine_directory_leaves_no_trace(
    node: SourceNode,
    dir: Seq<char>,
    depth: nat,
    rules: Rules,
)
    requires
        directory_path(node, dir) == Some(rules.pristine@),
    ensures
        mirror_child(node, dir, depth, rules) == Ok::<MirrorSpec, MirrorFailure>(empty_mirror()),
{
}

/// A directory whose own mirror has an empty menu gets no entry in the menu
/// of its parent, and no page.
pub proof fn lemma_empty_directory_is_pruned(
    node: SourceNode,
    dir: Seq<char>,
    depth: nat,
    rules: Rules,
)
    requires
        node matches SourceNode::Directory { name, children } && (mirror_dir(
            children,
            child_path(dir, name@),
            depth + 1,
            rules,
        ) matches Ok(inner) && inner.menu.len() == 0),
    ensures
        mirror_child(node, dir, depth, rules) == Ok::<MirrorSpec, MirrorFailure>(empty_mirror()),
{
}

} // verus!
