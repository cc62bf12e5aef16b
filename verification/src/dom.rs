//! The document model: a read-only tree of nodes, each carrying its
//! attributes, collected text, raw embedded data, and the ordered results of
//! the selector queries the engine may pose to it.
//!
//! A caller builds this tree from a parsed HTML document; the engine only
//! ever reads it. Selector matching itself is the HTML library's business:
//! here a node simply records, per selector string, the ordered sequence of
//! nodes that the selector yields, which is exactly the interface the
//! extraction logic consumes.

use vstd::prelude::*;
use crate::text;

verus! {

/// One node of a parsed document.
pub struct Node {
    /// Attribute names and values, in document order.
    pub attrs: Vec<(String, String)>,
    /// The node's whitespace-concatenated text content.
    pub text: String,
    /// Raw embedded data (script bodies and the like).
    pub data: String,
    /// For each selector string ever posed to this node, the ordered
    /// sequence of nodes the selector yields.
    pub queries: Vec<(String, Vec<Node>)>,
}

/// Index of the first query entry whose selector equals `sel`, or the length.
pub open spec fn query_idx_from(qs: Seq<(String, Vec<Node>)>, sel: Seq<char>, i: int) -> int
    decreases qs.len() - i,
{
    if i < 0 || i >= qs.len() {
        qs.len() as int
    } else if qs[i].0@ == sel {
        i
    } else {
        query_idx_from(qs, sel, i + 1)
    }
}

/// Index of the first attribute entry whose name equals `name`, or the length.
pub open spec fn attr_idx_from(ats: Seq<(String, String)>, name: Seq<char>, i: int) -> int
    decreases ats.len() - i,
{
    if i < 0 || i >= ats.len() {
        ats.len() as int
    } else if ats[i].0@ == name {
        i
    } else {
        attr_idx_from(ats, name, i + 1)
    }
}

impl Node {
    /// The ordered nodes this node yields for the selector `sel`.
    pub open spec fn sel(self, sel: Seq<char>) -> Seq<Node> {
        let k = query_idx_from(self.queries@, sel, 0);
        if k < self.queries@.len() {
            self.queries@[k].1@
        } else {
            Seq::empty()
        }
    }

    /// The value of the attribute `name`, if present.
    pub open spec fn attr_of(self, name: Seq<char>) -> Option<Seq<char>> {
        let k = attr_idx_from(self.attrs@, name, 0);
        if k < self.attrs@.len() {
            Some(self.attrs@[k].1@)
        } else {
            None
        }
    }

    /// How many nodes the selector yields.
    pub fn select_count(&self, sel: &str) -> (r: usize)
        ensures
            r == self.sel(sel@).len(),
    {
        let selv = text::str_chars(sel);
        let k = self.query_find(&selv, 0);
        if k < self.queries.len() {
            self.queries[k].1.len()
        } else {
            0
        }
    }

    /// The `k`-th node the selector yields.
    pub fn select_nth<'a>(&'a self, sel: &str, k: usize) -> (r: &'a Node)
        requires
            k < self.sel(sel@).len(),
        ensures
            *r == self.sel(sel@)[k as int],
    {
        let selv = text::str_chars(sel);
        let q = self.query_find(&selv, 0);
        &self.queries[q].1[k]
    }

    /// The first node the selector yields, if any.
    pub fn select_first<'a>(&'a self, sel: &str) -> (r: Option<&'a Node>)
        ensures
            match r {
                Some(n) => self.sel(sel@).len() > 0 && *n == self.sel(sel@)[0],
                None => self.sel(sel@).len() == 0,
            },
    {
        if self.select_count(sel) > 0 {
            Some(self.select_nth(sel, 0))
        } else {
            None
        }
    }

    /// The last node the selector yields, if any.
    pub fn select_last<'a>(&'a self, sel: &str) -> (r: Option<&'a Node>)
        ensures
            match r {
                Some(n) => self.sel(sel@).len() > 0 && *n == self.sel(sel@)[self.sel(
                    sel@,
                ).len() - 1],
                None => self.sel(sel@).len() == 0,
            },
    {
        let c = self.select_count(sel);
        if c > 0 {
            Some(self.select_nth(sel, c - 1))
        } else {
            None
        }
    }

    /// The value of the attribute `name`, if present.
    pub fn attr<'a>(&'a self, name: &str) -> (r: Option<&'a String>)
        ensures
            match r {
                Some(s) => self.attr_of(name@) == Some(s@),
                None => self.attr_of(name@) is None,
            },
    {
        let namev = text::str_chars(name);
        let k = self.attr_find(&namev, 0);
        if k < self.attrs.len() {
            Some(&self.attrs[k].1)
        } else {
            None
        }
    }

    fn query_find(&self, selv: &Vec<char>, i: usize) -> (r: usize)
        requires
            i <= self.queries@.len(),
        ensures
            r == query_idx_from(self.queries@, selv@, i as int),
            i <= r <= self.queries@.len(),
        decreases self.queries@.len() - i,
    {
        if i >= self.queries.len() {
            self.queries.len()
        } else {
            let key = text::str_chars(self.queries[i].0.as_str());
            if text::chars_eq(&key, selv) {
                i
            } else {
                self.query_find(selv, i + 1)
            }
        }
    }

    fn attr_find(&self, namev: &Vec<char>, i: usize) -> (r: usize)
        requires
            i <= self.attrs@.len(),
        ensures
            r == attr_idx_from(self.attrs@, namev@, i as int),
            i <= r <= self.attrs@.len(),
        decreases self.attrs@.len() - i,
    {
        if i >= self.attrs.len() {
            self.attrs.len()
        } else {
            let key = text::str_chars(self.attrs[i].0.as_str());
            if text::chars_eq(&key, namev) {
                i
            } else {
                self.attr_find(namev, i + 1)
            }
        }
    }
}

/// A node carries the reserved class that marks client-side template
/// duplicates, which must never reach an output sequence.
pub open spec fn is_clone_marked(n: Node) -> bool {
    match n.attr_of("class"@) {
        Some(c) => text::contains_sub(c, "cloned"@),
        None => false,
    }
}

pub fn clone_marked(n: &Node) -> (r: bool)
    ensures
        r == is_clone_marked(*n),
{
    match n.attr("class") {
        Some(c) => {
            let cv = text::str_chars(c.as_str());
            let marker = text::str_chars("cloned");
            text::has_sub(&cv, &marker)
        },
        None => false,
    }
}

/// The trimmed texts of the nodes `ns[i..]`.
pub open spec fn trimmed_texts_from(ns: Seq<Node>, i: int) -> Seq<Seq<char>>
    decreases ns.len() - i,
{
    if i < 0 || i >= ns.len() {
        Seq::empty()
    } else {
        seq![text::trimmed(ns[i].text@)] + trimmed_texts_from(ns, i + 1)
    }
}

/// Collect the trimmed texts of the nodes the selector yields under
/// `container`, from index `i` on.
pub fn trimmed_texts(container: &Node, selector: &str, i: usize) -> (r: Vec<Vec<char>>)
    requires
        i <= container.sel(selector@).len(),
    ensures
        text::views_of(r@) == trimmed_texts_from(container.sel(selector@), i as int),
    decreases container.sel(selector@).len() - i,
{
    let count = container.select_count(selector);
    if i >= count {
        let r: Vec<Vec<char>> = Vec::new();
        proof {
            assert(text::views_of(r@) =~= trimmed_texts_from(
                container.sel(selector@),
                i as int,
            ));
        }
        r
    } else {
        let n = container.select_nth(selector, i);
        let tv = text::str_chars(n.text.as_str());
        let t = text::trim(&tv);
        let mut r = trimmed_texts(container, selector, i + 1);
        r.insert(0, t);
        proof {
            assert(text::views_of(r@) =~= seq![text::trimmed(
                container.sel(selector@)[i as int].text@,
            )] + trimmed_texts_from(container.sel(selector@), i + 1));
        }
        r
    }
}

} // verus!
