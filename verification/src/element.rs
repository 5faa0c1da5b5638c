//! The element tree: a node with a name, optional text, optional CDATA and
//! ordered children, together with the construction helpers and the
//! path-based search.

use vstd::prelude::*;
use crate::error::Error;
use crate::text::{spec_split, split_str, str_eq, views_of};

verus! {

/// A node of a parsed XML tree.  Coercion reads `text`; `cdata` is kept
/// for output only.
#[derive(Debug)]
pub struct Node {
    /// Tag name.
    pub name: String,
    /// Text contents of the element, if any.
    pub text: Option<String>,
    /// CDATA contents of the element, if any.
    pub cdata: Option<String>,
    /// Child elements, in document order.
    pub children: Vec<Node>,
}

/// The first element of `cs` whose name reads `name`, if any.
pub open spec fn first_child_named(cs: Seq<Node>, name: Seq<char>) -> Option<Node>
    decreases cs.len(),
{
    if cs.len() == 0 {
        None
    } else if cs[0].name@ == name {
        Some(cs[0])
    } else {
        first_child_named(cs.skip(1), name)
    }
}

/// Scanning past a prefix without a match leaves the first match unchanged.
proof fn lemma_first_child_skip(cs: Seq<Node>, name: Seq<char>, k: int)
    requires
        0 <= k <= cs.len(),
        forall|j: int| 0 <= j < k ==> cs[j].name@ != name,
    ensures
        first_child_named(cs, name) == first_child_named(cs.skip(k), name),
    decreases k,
{
    if k > 0 {
        assert(cs.skip(1).skip(k - 1) =~= cs.skip(k));
        lemma_first_child_skip(cs.skip(1), name, k - 1);
    } else {
        assert(cs.skip(0) =~= cs);
    }
}

/// The node that the path segments `segs` select under `root`: each segment
/// in turn names the first matching child of the node reached so far.
pub open spec fn spec_find_path(root: Node, segs: Seq<Seq<char>>) -> Option<Node>
    decreases segs.len(),
{
    if segs.len() == 0 {
        Some(root)
    } else {
        match first_child_named(root.children@, segs[0]) {
            Some(c) => spec_find_path(c, segs.skip(1)),
            None => None,
        }
    }
}

/// The node that the slash-separated path `path` selects under `root`.
pub open spec fn spec_find(root: Node, path: Seq<char>) -> Option<Node> {
    spec_find_path(root, spec_split(path, '/'))
}

impl Node {
    /// The index of the first child whose name reads `name`, if any.
    fn find_child_idx(&self, name: &str) -> (r: Option<usize>)
        ensures
            match r {
                Some(j) => j < self.children@.len()
                    && first_child_named(self.children@, name@) == Some(self.children@[j as int]),
                None => first_child_named(self.children@, name@) is None,
            },
    {
        let n = self.children.len();
        let mut i: usize = 0;
        while i < n
            invariant
                n == self.children@.len(),
                i <= n,
                forall|j: int| 0 <= j < i ==> self.children@[j].name@ != name@,
            decreases n - i,
        {
            if str_eq(self.children[i].name.as_str(), name) {
                proof {
                    lemma_first_child_skip(self.children@, name@, i as int);
                }
                return Some(i);
            }
            i += 1;
        }
        proof {
            lemma_first_child_skip(self.children@, name@, n as int);
            assert(self.children@.skip(n as int) =~= Seq::<Node>::empty());
        }
        None
    }

    /// Traverses the tree along a slash-separated path such as `a/b/c`,
    /// reading each segment as the name of the next child to descend into.
    /// A path that selects no node is reported as `ElementNotFound`
    /// carrying the path.
    pub fn find<'a>(&'a self, path: &str) -> (r: Result<&'a Node, Error>)
        ensures
            match spec_find(*self, path@) {
                Some(e) => r matches Ok(f) && *f == e,
                None => r matches Err(Error::ElementNotFound { path: p }) && p@ == path@,
            },
    {
        let segs = split_str(path, '/');
        let ghost all = spec_split(path@, '/');
        let mut cur: &Node = self;
        let mut i: usize = 0;
        proof {
            assert(all.skip(0) =~= all);
        }
        while i < segs.len()
            invariant
                all == spec_split(path@, '/'),
                views_of(segs@) == all,
                i <= segs@.len(),
                spec_find_path(*self, all) == spec_find_path(*cur, all.skip(i as int)),
            decreases segs@.len() - i,
        {
            match cur.find_child_idx(segs[i].as_str()) {
                Some(j) => {
                    proof {
                        assert(all.skip(i as int)[0] == all[i as int]);
                        assert(all.skip(i as int).skip(1) =~= all.skip(i + 1));
                    }
                    cur = &cur.children[j];
                    i += 1;
                }
                None => {
                    proof {
                        assert(all[i as int] == segs@[i as int]@);
                        assert(all.skip(i as int)[0] == all[i as int]);
                        assert(spec_find_path(*cur, all.skip(i as int)) is None);
                    }
                    return Err(Error::ElementNotFound { path: path.to_owned() });
                }
            }
        }
        proof {
            assert(all.skip(i as int) =~= Seq::<Seq<char>>::empty());
        }
        Ok(cur)
    }
}

/// Builds an element named `name` that wraps the child elements `v`.
pub fn make_tree_element(name: &str, v: Vec<Node>) -> (e: Node)
    ensures
        e.name@ == name@,
        e.text is None,
        e.cdata is None,
        e.children == v,
{
    Node { name: name.to_owned(), text: None, cdata: None, children: v }
}

/// Builds a leaf element named `name` whose text contents are `v`.
pub fn make_text_element(name: &str, v: String) -> (e: Node)
    ensures
        e.name@ == name@,
        e.text == Some(v),
        e.cdata is None,
        e.children@ == Seq::<Node>::empty(),
{
    Node { name: name.to_owned(), text: Some(v), cdata: None, children: Vec::new() }
}

/// Builds a leaf element named `name` whose CDATA contents are `v`.
pub fn make_cdata_element(name: &str, v: String) -> (e: Node)
    ensures
        e.name@ == name@,
        e.text is None,
        e.cdata == Some(v),
        e.children@ == Seq::<Node>::empty(),
{
    Node { name: name.to_owned(), text: None, cdata: Some(v), children: Vec::new() }
}

} // verus!
