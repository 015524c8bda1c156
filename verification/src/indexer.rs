//! Walking a directory listing: every file below a folder, in the order a
//! depth-first descent meets them.

use vstd::prelude::*;
use crate::error::PackError;
use crate::manifest::paths_view;
use crate::path::PackPath;

verus! {

/// One entry of a directory listing, with everything below it.
#[derive(Debug)]
pub enum Node {
    /// A regular file, by name.
    File(String),
    /// A directory, by name, with its entries in listing order.
    Dir(String, Vec<Node>),
    /// A directory that could not be read, by name, with the reason.
    Unreadable(String, String),
}

/// An entry met during a walk.
#[derive(Debug, PartialEq, Eq)]
pub struct Entry {
    pub path: PackPath,
    pub is_dir: bool,
}

/// What an entry stands for in contracts.
pub ghost struct EntryView {
    pub path: Seq<Seq<char>>,
    pub is_dir: bool,
}

impl View for Entry {
    type V = EntryView;

    open spec fn view(&self) -> EntryView {
        EntryView { path: self.path@, is_dir: self.is_dir }
    }
}

/// The entries a run of `Entry`s stands for.
pub open spec fn entries_view(entries: Seq<Entry>) -> Seq<EntryView> {
    Seq::new(entries.len(), |i: int| entries[i]@)
}

/// The reason of the first unreadable directory that a walk of `node`
/// meets, if it meets one.
pub open spec fn failure_of(node: Node) -> Option<Seq<char>>
    decreases node, 0nat,
{
    match node {
        Node::File(_) => None,
        Node::Dir(_, kids) => failure_in(kids@, kids@.len()),
        Node::Unreadable(_, reason) => Some(reason@),
    }
}

/// The same for the first `n` entries of a listing.
pub open spec fn failure_in(nodes: Seq<Node>, n: nat) -> Option<Seq<char>>
    decreases nodes, n,
{
    if n == 0 || n > nodes.len() {
        None
    } else {
        match failure_in(nodes, (n - 1) as nat) {
            Some(reason) => Some(reason),
            None => failure_of(nodes[n - 1]),
        }
    }
}

/// What a walk of `node`, which lies in the folder `prefix`, yields: a file
/// yields itself; a directory yields what its entries yield, in listing
/// order, and after them, where directories are asked for, itself.
pub open spec fn entries_of(prefix: Seq<Seq<char>>, node: Node, with_dirs: bool) -> Seq<EntryView>
    decreases node, 0nat,
{
    match node {
        Node::File(name) => seq![EntryView { path: prefix.push(name@), is_dir: false }],
        Node::Dir(name, kids) => {
            let inner = entries_in(prefix.push(name@), kids@, kids@.len(), with_dirs);
            if with_dirs {
                inner.push(EntryView { path: prefix.push(name@), is_dir: true })
            } else {
                inner
            }
        },
        Node::Unreadable(_, _) => Seq::<EntryView>::empty(),
    }
}

/// The same for the first `n` entries of the listing of the folder `prefix`.
pub open spec fn entries_in(
    prefix: Seq<Seq<char>>,
    nodes: Seq<Node>,
    n: nat,
    with_dirs: bool,
) -> Seq<EntryView>
    decreases nodes, n,
{
    if n == 0 || n > nodes.len() {
        Seq::<EntryView>::empty()
    } else {
        entries_in(prefix, nodes, (n - 1) as nat, with_dirs) + entries_of(
            prefix,
            nodes[n - 1],
            with_dirs,
        )
    }
}

/// The paths of a run of entries.
pub open spec fn paths_of(entries: Seq<EntryView>) -> Seq<Seq<Seq<char>>> {
    Seq::new(entries.len(), |i: int| entries[i].path)
}

/// Walks one node and appends what it yields to `pool`. On failure the pool
/// holds whatever was met before the unreadable directory.
fn walk_node(prefix: &PackPath, node: &Node, with_dirs: bool, pool: &mut Vec<Entry>) -> (r: Result<
    (),
    PackError,
>)
    ensures
        match r {
            Ok(()) => failure_of(*node) is None && entries_view(final(pool)@) == entries_view(
                old(pool)@,
            ) + entries_of(prefix@, *node, with_dirs),
            Err(PackError::Io(reason)) => failure_of(*node) == Some(reason@),
            Err(_) => false,
        },
    decreases node, 0nat,
{
    match node {
        Node::File(name) => {
            let ghost before = entries_view(pool@);
            pool.push(Entry { path: prefix.child(name.as_str()), is_dir: false });
            assert(entries_view(pool@) =~= before + entries_of(prefix@, *node, with_dirs));
            Ok(())
        },
        Node::Dir(name, kids) => {
            let here = prefix.child(name.as_str());
            walk_listing(&here, kids, with_dirs, pool)?;
            if with_dirs {
                let ghost before = entries_view(pool@);
                pool.push(Entry { path: here, is_dir: true });
                assert(entries_view(pool@) =~= before.push(
                    EntryView { path: prefix@.push(name@), is_dir: true },
                ));
            }
            Ok(())
        },
        Node::Unreadable(_, reason) => Err(PackError::Io(reason.clone())),
    }
}

/// Walks the entries of the folder `prefix` in listing order.
fn walk_listing(prefix: &PackPath, nodes: &Vec<Node>, with_dirs: bool, pool: &mut Vec<Entry>) -> (r:
    Result<(), PackError>)
    ensures
        match r {
            Ok(()) => failure_in(nodes@, nodes@.len()) is None && entries_view(final(pool)@)
                == entries_view(old(pool)@) + entries_in(
                prefix@,
                nodes@,
                nodes@.len(),
                with_dirs,
            ),
            Err(PackError::Io(reason)) => failure_in(nodes@, nodes@.len()) == Some(reason@),
            Err(_) => false,
        },
    decreases nodes, 1nat,
{
    let mut i: usize = 0;
    while i < nodes.len()
        invariant
            i <= nodes@.len(),
            failure_in(nodes@, i as nat) is None,
            entries_view(pool@) == entries_view(old(pool)@) + entries_in(
                prefix@,
                nodes@,
                i as nat,
                with_dirs,
            ),
        decreases nodes@.len() - i,
    {
        let ghost before = entries_view(pool@);
        match walk_node(prefix, &nodes[i], with_dirs, pool) {
            Ok(()) => {
                assert(entries_view(pool@) =~= entries_view(old(pool)@) + entries_in(
                    prefix@,
                    nodes@,
                    (i + 1) as nat,
                    with_dirs,
                ));
            },
            Err(e) => {
                proof {
                    lemma_failure_sticks(nodes@, (i + 1) as nat, nodes@.len());
                }
                return Err(e);
            },
        }
        i += 1;
    }
    Ok(())
}

/// Once the first `n` entries of a listing hold an unreadable directory,
/// every longer run of its entries reports the same one.
pub proof fn lemma_failure_sticks(nodes: Seq<Node>, n: nat, m: nat)
    requires
        n <= m <= nodes.len(),
        failure_in(nodes, n) is Some,
    ensures
        failure_in(nodes, m) == failure_in(nodes, n),
    decreases m,
{
    if m > n {
        lemma_failure_sticks(nodes, n, (m - 1) as nat);
    }
}

/// Number of regular files in the tree of `node`.
pub open spec fn file_count_of(node: Node) -> nat
    decreases node, 0nat,
{
    match node {
        Node::File(_) => 1,
        Node::Dir(_, kids) => file_count_in(kids@, kids@.len()),
        Node::Unreadable(_, _) => 0,
    }
}

/// Number of regular files in the trees of the first `n` entries of a
/// listing.
pub open spec fn file_count_in(nodes: Seq<Node>, n: nat) -> nat
    decreases nodes, n,
{
    if n == 0 || n > nodes.len() {
        0
    } else {
        file_count_in(nodes, (n - 1) as nat) + file_count_of(nodes[n - 1])
    }
}

/// A prefix of a prefix is a prefix.
pub proof fn lemma_prefix_chain(a: Seq<Seq<char>>, b: Seq<Seq<char>>, c: Seq<Seq<char>>)
    requires
        a.is_prefix_of(b),
        b.is_prefix_of(c),
    ensures
        a.is_prefix_of(c),
{
    assert(a =~= c.subrange(0, a.len() as int)) by {
        assert forall|i: int| 0 <= i < a.len() implies a[i] == c[i] by {
            assert(a[i] == b.subrange(0, a.len() as int)[i]);
            assert(b[i] == c.subrange(0, b.len() as int)[i]);
        }
    }
}

/// A walk that leaves directories out yields one entry per regular file,
/// and whatever a walk yields lies below the folder it started in.
pub proof fn lemma_walk_of_node(prefix: Seq<Seq<char>>, node: Node, with_dirs: bool)
    ensures
        !with_dirs ==> entries_of(prefix, node, with_dirs).len() == file_count_of(node),
        forall|i: int|
            0 <= i < entries_of(prefix, node, with_dirs).len() ==> prefix.is_prefix_of(
                #[trigger] entries_of(prefix, node, with_dirs)[i].path,
            ),
    decreases node, 0nat,
{
    match node {
        Node::File(name) => {
            assert(prefix =~= prefix.push(name@).subrange(0, prefix.len() as int));
        },
        Node::Dir(name, kids) => {
            let here = prefix.push(name@);
            assert(prefix =~= here.subrange(0, prefix.len() as int));
            lemma_walk_of_listing(here, kids@, kids@.len(), with_dirs);
            let inner = entries_in(here, kids@, kids@.len(), with_dirs);
            let all = entries_of(prefix, node, with_dirs);
            assert forall|i: int| 0 <= i < all.len() implies prefix.is_prefix_of(
                #[trigger] all[i].path,
            ) by {
                if i < inner.len() {
                    assert(all[i] == inner[i]);
                    lemma_prefix_chain(prefix, here, inner[i].path);
                }
            }
        },
        Node::Unreadable(_, _) => {},
    }
}

/// The same for the first `n` entries of a listing.
pub proof fn lemma_walk_of_listing(
    prefix: Seq<Seq<char>>,
    nodes: Seq<Node>,
    n: nat,
    with_dirs: bool,
)
    ensures
        !with_dirs ==> entries_in(prefix, nodes, n, with_dirs).len() == file_count_in(nodes, n),
        forall|i: int|
            0 <= i < entries_in(prefix, nodes, n, with_dirs).len() ==> prefix.is_prefix_of(
                #[trigger] entries_in(prefix, nodes, n, with_dirs)[i].path,
            ),
    decreases nodes, n,
{
    if n == 0 || n > nodes.len() {
    } else {
        lemma_walk_of_listing(prefix, nodes, (n - 1) as nat, with_dirs);
        lemma_walk_of_node(prefix, nodes[n - 1], with_dirs);
        let before = entries_in(prefix, nodes, (n - 1) as nat, with_dirs);
        let last = entries_of(prefix, nodes[n - 1], with_dirs);
        let all = entries_in(prefix, nodes, n, with_dirs);
        assert forall|i: int| 0 <= i < all.len() implies prefix.is_prefix_of(
            #[trigger] all[i].path,
        ) by {
            if i < before.len() {
                assert(all[i] == before[i]);
            } else {
                assert(all[i] == last[i - before.len()]);
            }
        }
    }
}

/// The name a node carries in its folder's listing.
pub open spec fn name_of(node: Node) -> Seq<char> {
    match node {
        Node::File(name) => name@,
        Node::Dir(name, _) => name@,
        Node::Unreadable(name, _) => name@,
    }
}

/// Whether no folder in the tree of `node` lists a name twice.
pub open spec fn distinct_names(node: Node) -> bool
    decreases node, 0nat,
{
    match node {
        Node::Dir(_, kids) => distinct_in(kids@, kids@.len()),
        _ => true,
    }
}

/// The same for the first `n` entries of a listing, which themselves carry
/// `n` different names.
pub open spec fn distinct_in(nodes: Seq<Node>, n: nat) -> bool
    decreases nodes, n,
{
    if n == 0 || n > nodes.len() {
        true
    } else {
        &&& distinct_in(nodes, (n - 1) as nat)
        &&& distinct_names(nodes[n - 1])
        &&& forall|j: int| 0 <= j < n - 1 ==> name_of(#[trigger] nodes[j]) != name_of(nodes[n - 1])
    }
}

/// Whether a run of entries meets no path twice.
pub open spec fn paths_distinct(entries: Seq<EntryView>) -> bool {
    forall|a: int, b: int|
        0 <= a < b < entries.len() ==> (#[trigger] entries[a]).path != (#[trigger] entries[b]).path
}

/// Whatever the walk of a node yields is a path that goes on beyond the
/// folder the walk started in, and goes on with the node's own name.
pub proof fn lemma_walk_begins_with_name(prefix: Seq<Seq<char>>, node: Node, with_dirs: bool)
    ensures
        forall|i: int|
            0 <= i < entries_of(prefix, node, with_dirs).len() ==> {
                let p = (#[trigger] entries_of(prefix, node, with_dirs)[i]).path;
                p.len() > prefix.len() && p[prefix.len() as int] == name_of(node)
            },
    decreases node, 0nat,
{
    match node {
        Node::File(_) => {},
        Node::Dir(name, kids) => {
            let here = prefix.push(name@);
            lemma_walk_of_listing(here, kids@, kids@.len(), with_dirs);
            lemma_listing_begins_with_names(here, kids@, kids@.len(), with_dirs);
            let inner = entries_in(here, kids@, kids@.len(), with_dirs);
            let all = entries_of(prefix, node, with_dirs);
            assert forall|i: int| 0 <= i < all.len() implies ({
                let p = (#[trigger] all[i]).path;
                p.len() > prefix.len() && p[prefix.len() as int] == name_of(node)
            }) by {
                if i < inner.len() {
                    assert(all[i] == inner[i]);
                    let p = inner[i].path;
                    assert(here.is_prefix_of(p));
                    assert(here[prefix.len() as int] == p.subrange(0, here.len() as int)[prefix.len() as int]);
                }
            }
        },
        Node::Unreadable(_, _) => {},
    }
}

/// The same for the first `n` entries of a listing: each path goes on with
/// the name of one of them.
pub proof fn lemma_listing_begins_with_names(
    prefix: Seq<Seq<char>>,
    nodes: Seq<Node>,
    n: nat,
    with_dirs: bool,
)
    ensures
        forall|i: int|
            0 <= i < entries_in(prefix, nodes, n, with_dirs).len() ==> {
                let p = (#[trigger] entries_in(prefix, nodes, n, with_dirs)[i]).path;
                p.len() > prefix.len() && exists|j: int|
                    0 <= j < n && j < nodes.len() && p[prefix.len() as int] == name_of(
                        #[trigger] nodes[j],
                    )
            },
    decreases nodes, n,
{
    if n == 0 || n > nodes.len() {
    } else {
        lemma_listing_begins_with_names(prefix, nodes, (n - 1) as nat, with_dirs);
        lemma_walk_begins_with_name(prefix, nodes[n - 1], with_dirs);
        let before = entries_in(prefix, nodes, (n - 1) as nat, with_dirs);
        let last = entries_of(prefix, nodes[n - 1], with_dirs);
        let all = entries_in(prefix, nodes, n, with_dirs);
        assert forall|i: int| 0 <= i < all.len() implies ({
            let p = (#[trigger] all[i]).path;
            p.len() > prefix.len() && exists|j: int|
                0 <= j < n && j < nodes.len() && p[prefix.len() as int] == name_of(
                    #[trigger] nodes[j],
                )
        }) by {
            if i < before.len() {
                assert(all[i] == before[i]);
                let p = before[i].path;
                let j = choose|j: int|
                    0 <= j < n - 1 && j < nodes.len() && p[prefix.len() as int] == name_of(
                        #[trigger] nodes[j],
                    );
                assert(0 <= j < n && p[prefix.len() as int] == name_of(nodes[j]));
            } else {
                assert(all[i] == last[i - before.len()]);
                assert(last[i - before.len()].path[prefix.len() as int] == name_of(nodes[n - 1]));
            }
        }
    }
}

/// A walk of a tree in which no folder lists a name twice meets no path
/// twice.
pub proof fn lemma_walk_meets_no_path_twice(prefix: Seq<Seq<char>>, node: Node, with_dirs: bool)
    requires
        distinct_names(node),
    ensures
        paths_distinct(entries_of(prefix, node, with_dirs)),
    decreases node, 0nat,
{
    match node {
        Node::File(_) => {},
        Node::Dir(name, kids) => {
            let here = prefix.push(name@);
            lemma_listing_meets_no_path_twice(here, kids@, kids@.len(), with_dirs);
            lemma_listing_begins_with_names(here, kids@, kids@.len(), with_dirs);
            let inner = entries_in(here, kids@, kids@.len(), with_dirs);
            let all = entries_of(prefix, node, with_dirs);
            assert forall|a: int, b: int| 0 <= a < b < all.len() implies (#[trigger] all[a]).path
                != (#[trigger] all[b]).path by {
                assert(all[a] == inner[a]);
                if b < inner.len() {
                    assert(all[b] == inner[b]);
                } else {
                    assert(all[b].path == here);
                    assert(inner[a].path.len() > here.len());
                }
            }
        },
        Node::Unreadable(_, _) => {},
    }
}

/// The same for the first `n` entries of a listing.
pub proof fn lemma_listing_meets_no_path_twice(
    prefix: Seq<Seq<char>>,
    nodes: Seq<Node>,
    n: nat,
    with_dirs: bool,
)
    requires
        distinct_in(nodes, n),
    ensures
        paths_distinct(entries_in(prefix, nodes, n, with_dirs)),
    decreases nodes, n,
{
    if n == 0 || n > nodes.len() {
    } else {
        lemma_listing_meets_no_path_twice(prefix, nodes, (n - 1) as nat, with_dirs);
        lemma_walk_meets_no_path_twice(prefix, nodes[n - 1], with_dirs);
        lemma_listing_begins_with_names(prefix, nodes, (n - 1) as nat, with_dirs);
        lemma_walk_begins_with_name(prefix, nodes[n - 1], with_dirs);
        let before = entries_in(prefix, nodes, (n - 1) as nat, with_dirs);
        let last = entries_of(prefix, nodes[n - 1], with_dirs);
        let all = entries_in(prefix, nodes, n, with_dirs);
        assert forall|a: int, b: int| 0 <= a < b < all.len() implies (#[trigger] all[a]).path
            != (#[trigger] all[b]).path by {
            if b < before.len() {
                assert(all[a] == before[a]);
                assert(all[b] == before[b]);
            } else if a >= before.len() {
                assert(all[a] == last[a - before.len()]);
                assert(all[b] == last[b - before.len()]);
            } else {
                assert(all[a] == before[a]);
                assert(all[b] == last[b - before.len()]);
                let pa = before[a].path;
                let j = choose|j: int|
                    0 <= j < n - 1 && j < nodes.len() && pa[prefix.len() as int] == name_of(
                        #[trigger] nodes[j],
                    );
                assert(name_of(nodes[j]) != name_of(nodes[n - 1]));
                assert(last[b - before.len()].path[prefix.len() as int] == name_of(nodes[n - 1]));
            }
        }
    }
}

/// Every regular file below the folder `root`, whose listing is `listing`,
/// in depth-first order. Directories are descended into and not yielded. An
/// unreadable directory anywhere below fails the whole walk with its reason.
pub fn find_files(root: &PackPath, listing: &Vec<Node>) -> (r: Result<Vec<PackPath>, PackError>)
    ensures
        match r {
            Ok(files) => failure_in(listing@, listing@.len()) is None && paths_view(
                files@,
            ) == paths_of(entries_in(root@, listing@, listing@.len(), false)),
            Err(PackError::Io(reason)) => failure_in(listing@, listing@.len()) == Some(reason@),
            Err(_) => false,
        },
{
    let mut pool: Vec<Entry> = Vec::new();
    walk_listing(root, listing, false, &mut pool)?;
    assert(entries_view(pool@) =~= entries_in(root@, listing@, listing@.len(), false));
    let mut files: Vec<PackPath> = Vec::new();
    let mut i: usize = 0;
    while i < pool.len()
        invariant
            i <= pool@.len(),
            files@.len() == i,
            forall|j: int| 0 <= j < i ==> files@[j]@ == pool@[j]@.path,
        decreases pool@.len() - i,
    {
        files.push(pool[i].path.clone());
        i += 1;
    }
    assert(paths_view(files@) =~= paths_of(entries_view(pool@)));
    Ok(files)
}

/// Every entry below the folder `root`, files and directories, each
/// directory after what it contains.
pub fn find_files_and_dirs(root: &PackPath, listing: &Vec<Node>) -> (r: Result<
    Vec<Entry>,
    PackError,
>)
    ensures
        match r {
            Ok(entries) => failure_in(listing@, listing@.len()) is None && entries_view(entries@)
                == entries_in(root@, listing@, listing@.len(), true),
            Err(PackError::Io(reason)) => failure_in(listing@, listing@.len()) == Some(reason@),
            Err(_) => false,
        },
{
    let mut pool: Vec<Entry> = Vec::new();
    walk_listing(root, listing, true, &mut pool)?;
    assert(entries_view(pool@) =~= entries_in(root@, listing@, listing@.len(), true));
    Ok(pool)
}

} // verus!
