//! The file tree shown for a server: which entries are hidden, the path of a
//! child, and the order (folders first, then by lower-cased name).
use vstd::prelude::*;
use crate::protocol::FileNode;
use crate::sort::{keeps_order_of_ties, sort_with_key, sorted_by_fn};
use crate::text::{lowercase, push_str, str_is, string_of, to_lowercase};

verus! {

/// Entries never shown: git's folder and packwiz's temporary binary.
pub open spec fn hidden_entry(name: Seq<char>) -> bool {
    name == ".git"@ || name == "packwiz.exe"@
}

/// Whether an entry is never shown.
pub fn is_hidden_entry(name: &str) -> (r: bool)
    ensures
        r == hidden_entry(name@),
{
    str_is(name, ".git") || str_is(name, "packwiz.exe")
}

/// The path of the entry `name` of the folder at `rel` (the root where empty).
pub open spec fn child_path_of(rel: Seq<char>, name: Seq<char>) -> Seq<char> {
    if rel.len() == 0 {
        name
    } else {
        rel + "/"@ + name
    }
}

/// The path of an entry below the folder at `rel`.
pub fn child_path(rel: &str, name: &str) -> (r: String)
    ensures
        r@ == child_path_of(rel@, name@),
{
    let mut out: Vec<char> = Vec::new();
    push_str(&mut out, rel);
    if out.len() == 0 {
        push_str(&mut out, name);
        return string_of(&out);
    }
    push_str(&mut out, "/");
    push_str(&mut out, name);
    string_of(&out)
}

/// The key a node is ordered by: folders before files, then the lower-cased
/// name.
pub open spec fn node_key(n: FileNode) -> Seq<char> {
    (if n.is_dir {
        "0"@
    } else {
        "1"@
    }) + lowercase(n.name@)
}

/// The nodes of a folder in the order they are shown; nodes of the same key
/// keep their order.
pub fn sort_file_nodes(nodes: Vec<FileNode>) -> (r: Vec<FileNode>)
    ensures
        sorted_by_fn(r@, |n: FileNode| node_key(n)),
        r@.to_multiset() == nodes@.to_multiset(),
        keeps_order_of_ties(r@, nodes@, |n: FileNode| node_key(n)),
{
    let key = |n: &FileNode| -> (s: String)
        ensures
            s@ == node_key(*n),
        {
            let mut out: Vec<char> = Vec::new();
            if n.is_dir {
                push_str(&mut out, "0");
            } else {
                push_str(&mut out, "1");
            }
            let low = to_lowercase(n.name.as_str());
            push_str(&mut out, low.as_str());
            string_of(&out)
        };
    sort_with_key(nodes, &key, Ghost(|n: FileNode| node_key(n)))
}

/// Folders of a server's root that its file list leaves out.
pub open spec fn excluded_root_dir(name: Seq<char>) -> bool {
    name == "packwiz"@ || name == "libraries"@ || name == "cache"@ || name == ".git"@
}

/// A root entry that is shown.
pub open spec fn shown_at_root(n: FileNode) -> bool {
    !(n.is_dir && excluded_root_dir(n.name@))
}

/// The entries of a server's root that its file list shows, in order.
pub fn visible_root_entries(nodes: Vec<FileNode>) -> (r: Vec<FileNode>)
    ensures
        r@ == nodes@.filter(|n: FileNode| shown_at_root(n)),
{
    let ghost orig = nodes@;
    let ghost pred = |n: FileNode| shown_at_root(n);
    let mut rest = nodes;
    let mut out: Vec<FileNode> = Vec::new();
    let ghost mut k: int = 0;
    assert(orig.take(0).filter(pred) =~= Seq::<FileNode>::empty());
    while rest.len() > 0
        invariant
            0 <= k <= orig.len(),
            rest@ == orig.skip(k),
            pred == (|n: FileNode| shown_at_root(n)),
            out@ == orig.take(k).filter(pred),
        decreases rest.len(),
    {
        let x = rest.remove(0);
        assert(x == orig[k]);
        assert(orig.take(k + 1).drop_last() =~= orig.take(k));
        assert(orig.take(k + 1).last() == x);
        assert(rest@ =~= orig.skip(k + 1));
        let shown = !(x.is_dir && (str_is(x.name.as_str(), "packwiz") || str_is(
            x.name.as_str(),
            "libraries",
        ) || str_is(x.name.as_str(), "cache") || str_is(x.name.as_str(), ".git")));
        assert(shown == pred(x));
        let ghost before = out@;
        let ghost xv = x;
        if shown {
            out.push(x);
        }
        assert(out@ =~= orig.take(k + 1).filter(pred)) by {
            reveal_with_fuel(Seq::<_>::filter, 1);
            assert(orig.take(k + 1).filter(pred) == (if pred(xv) {
                before.push(xv)
            } else {
                before
            }));
        }
        proof {
            k = k + 1;
        }
    }
    assert(orig.take(k) =~= orig);
    out
}

} // verus!
