//! A parsed markup document as a flat list of nodes in document order, and
//! the queries the extractor asks of it: subtree membership, visible text,
//! tag names, attributes and classes.

use select::node::Data;
use vstd::prelude::*;

use crate::text::{chars_of, is_white, is_white_char, same_text};

verus! {

/// What one node of a document holds.
#[derive(Debug)]
pub enum NodeData {
    /// An element: its local tag name and its attributes, in source order.
    Element { name: String, attrs: Vec<(String, String)> },
    /// A run of text.
    Text { content: String },
    /// A comment, which adds nothing to the visible text.
    Comment { content: String },
}

/// One node and the index of its parent, if it has one.
#[derive(Debug)]
pub struct RawNode {
    pub parent: Option<usize>,
    pub data: NodeData,
}

/// A document: its nodes in document order, each after its parent.
#[derive(Debug)]
pub struct Markup {
    nodes: Vec<RawNode>,
}

/// The node list that `select` builds from the markup `html`.
pub uninterp spec fn markup_nodes(html: Seq<char>) -> Seq<RawNode>;

/// Relies on `select::document::Document::from(&str)`, which parses HTML with
/// html5ever and lists every node in document order with its parent's index.
/// Each node is copied over as it is.
#[verifier::external_body]
fn parse_nodes(html: &str) -> (r: Vec<RawNode>)
    ensures
        r@ == markup_nodes(html@),
{
    let doc = select::document::Document::from(html);
    doc.nodes.into_iter().map(|raw| RawNode {
        parent: raw.parent,
        data: match raw.data {
            Data::Element(name, attrs) => NodeData::Element {
                name: name.local.to_string(),
                attrs: attrs.into_iter().map(|(k, v)| (k.local.to_string(), v.to_string())).collect(),
            },
            Data::Text(t) => NodeData::Text { content: t.to_string() },
            Data::Comment(t) => NodeData::Comment { content: t.to_string() },
        },
    }).collect()
}

/// Whether node `j` is node `i` or lies below it. A parent link that does not
/// point to an earlier node ends the walk.
pub open spec fn in_subtree(s: Seq<RawNode>, j: int, i: int) -> bool
    decreases j,
{
    if j == i {
        true
    } else if 0 <= j < s.len() {
        match s[j].parent {
            Some(p) => p < j && in_subtree(s, p as int, i),
            None => false,
        }
    } else {
        false
    }
}

/// Whether node `j` is a child of node `i`.
pub open spec fn is_child(s: Seq<RawNode>, j: int, i: int) -> bool {
    0 <= j < s.len() && s[j].parent == Some(i as usize)
}

/// What node `j` adds to the visible text of node `i`.
pub open spec fn text_piece(s: Seq<RawNode>, i: int, j: int) -> Seq<char> {
    if in_subtree(s, j, i) {
        match s[j].data {
            NodeData::Text { content } => content@,
            _ => Seq::empty(),
        }
    } else {
        Seq::empty()
    }
}

/// The visible text of node `i` gathered from the nodes before `k`.
pub open spec fn text_upto(s: Seq<RawNode>, i: int, k: int) -> Seq<char>
    decreases k - i,
{
    if k <= i {
        Seq::empty()
    } else {
        text_upto(s, i, k - 1) + text_piece(s, i, k - 1)
    }
}

/// The visible text of node `i`: its text runs and those below it, in order.
pub open spec fn text_of(s: Seq<RawNode>, i: int) -> Seq<char> {
    text_upto(s, i, s.len() as int)
}

/// Whether node `j` is an element with tag `name`.
pub open spec fn is_named(s: Seq<RawNode>, j: int, name: Seq<char>) -> bool {
    0 <= j < s.len() && match s[j].data {
        NodeData::Element { name: n, .. } => n@ == name,
        _ => false,
    }
}

/// The value of the first attribute called `key` in `attrs`.
pub open spec fn attr_in(attrs: Seq<(String, String)>, key: Seq<char>) -> Option<Seq<char>>
    decreases attrs.len(),
{
    if attrs.len() == 0 {
        None
    } else if attrs[0].0@ == key {
        Some(attrs[0].1@)
    } else {
        attr_in(attrs.drop_first(), key)
    }
}

/// The value of attribute `key` of node `j`, if it is an element that has one.
pub open spec fn attr_of(s: Seq<RawNode>, j: int, key: Seq<char>) -> Option<Seq<char>> {
    if 0 <= j < s.len() {
        match s[j].data {
            NodeData::Element { attrs, .. } => attr_in(attrs@, key),
            _ => None,
        }
    } else {
        None
    }
}

/// Whether `w` is one of the whitespace-separated words of `v`.
pub open spec fn has_word(v: Seq<char>, w: Seq<char>) -> bool {
    &&& w.len() > 0
    &&& forall|i: int| 0 <= i < w.len() ==> !is_white(#[trigger] w[i])
    &&& exists|k: int| word_at(v, w, k)
}

/// Whether `w` stands in `v` at `k`, with whitespace or an end on either side.
pub open spec fn word_at(v: Seq<char>, w: Seq<char>, k: int) -> bool {
    &&& 0 <= k
    &&& k + w.len() <= v.len()
    &&& v.subrange(k, k + w.len()) == w
    &&& (k == 0 || is_white(v[k - 1]))
    &&& (k + w.len() == v.len() || is_white(v[k + w.len()]))
}

/// Whether node `j` carries the class `c`.
pub open spec fn has_class(s: Seq<RawNode>, j: int, c: Seq<char>) -> bool {
    match attr_of(s, j, "class"@) {
        Some(v) => has_word(v, c),
        None => false,
    }
}

/// The first index from `k` on, below `n`, where `p` holds.
pub open spec fn first_from(k: int, n: int, p: spec_fn(int) -> bool) -> Option<int>
    decreases n - k,
{
    if k >= n {
        None
    } else if p(k) {
        Some(k)
    } else {
        first_from(k + 1, n, p)
    }
}

/// Nodes with class `c`.
pub open spec fn class_pred(s: Seq<RawNode>, c: Seq<char>) -> spec_fn(int) -> bool {
    |j: int| has_class(s, j, c)
}

/// Elements with tag `name` and class `c`.
pub open spec fn named_class_pred(s: Seq<RawNode>, name: Seq<char>, c: Seq<char>) -> spec_fn(
    int,
) -> bool {
    |j: int| is_named(s, j, name) && has_class(s, j, c)
}

/// Elements with tag `name` below node `i`.
pub open spec fn named_below_pred(s: Seq<RawNode>, i: int, name: Seq<char>) -> spec_fn(
    int,
) -> bool {
    |j: int| j != i && in_subtree(s, j, i) && is_named(s, j, name)
}

/// The first element with tag `name` below node `i`.
pub open spec fn first_named_below(s: Seq<RawNode>, i: int, name: Seq<char>) -> Option<int> {
    first_from(i + 1, s.len() as int, named_below_pred(s, i, name))
}

/// Whether some node above node `j` carries the class `c`.
pub open spec fn under_class(s: Seq<RawNode>, j: int, c: Seq<char>) -> bool
    decreases j,
{
    if 0 <= j < s.len() {
        match s[j].parent {
            Some(p) => p < j && (has_class(s, p as int, c) || under_class(s, p as int, c)),
            None => false,
        }
    } else {
        false
    }
}

/// An optional index as a mathematical integer.
pub open spec fn as_index(r: Option<usize>) -> Option<int> {
    match r {
        Some(j) => Some(j as int),
        None => None,
    }
}

/// Whether `w` stands in `v` at `k`, with whitespace or an end on either side.
fn word_at_exec(v: &Vec<char>, w: &Vec<char>, k: usize) -> (r: bool)
    requires
        k + w.len() <= v.len(),
    ensures
        r == word_at(v@, w@, k as int),
{
    let mut i: usize = 0;
    while i < w.len()
        invariant
            k + w.len() <= v.len(),
            i <= w.len(),
            v@.subrange(k as int, k + i) == w@.take(i as int),
        decreases w.len() - i,
    {
        if v[k + i] != w[i] {
            assert(v@.subrange(k as int, k + w.len())[i as int] != w@[i as int]);
            return false;
        }
        assert(v@.subrange(k as int, k + i + 1) =~= v@.subrange(k as int, k + i).push(v@[k + i]));
        assert(w@.take(i + 1) =~= w@.take(i as int).push(w@[i as int]));
        i = i + 1;
    }
    assert(w@.take(w.len() as int) =~= w@);
    (k == 0 || is_white_char(v[k - 1])) && (k + w.len() == v.len() || is_white_char(v[k + w.len()]))
}

/// Whether `w` is one of the whitespace-separated words of `v`.
pub fn has_word_exec(v: &Vec<char>, w: &Vec<char>) -> (r: bool)
    ensures
        r == has_word(v@, w@),
{
    if w.len() == 0 {
        return false;
    }
    if w.len() > v.len() {
        assert forall|k: int| !word_at(v@, w@, k) by {}
        return false;
    }
    let mut i: usize = 0;
    while i < w.len()
        invariant
            i <= w.len(),
            forall|j: int| 0 <= j < i ==> !is_white(#[trigger] w@[j]),
        decreases w.len() - i,
    {
        if is_white_char(w[i]) {
            return false;
        }
        i = i + 1;
    }
    let last = v.len() - w.len();
    let mut k: usize = 0;
    while k <= last
        invariant
            last + w.len() == v.len(),
            w.len() > 0,
            forall|j: int| 0 <= j < w.len() ==> !is_white(#[trigger] w@[j]),
            forall|j: int| 0 <= j < k ==> !word_at(v@, w@, j),
        decreases last + 1 - k,
    {
        if word_at_exec(v, w, k) {
            assert(word_at(v@, w@, k as int));
            return true;
        }
        k = k + 1;
    }
    assert forall|j: int| !word_at(v@, w@, j) by {
        if 0 <= j < k {
        }
    }
    false
}

impl View for Markup {
    type V = Seq<RawNode>;

    closed spec fn view(&self) -> Seq<RawNode> {
        self.nodes@
    }
}

impl Markup {
    /// A document made of `nodes`, taken in order.
    pub fn new(nodes: Vec<RawNode>) -> (r: Markup)
        ensures
            r@ == nodes@,
    {
        Markup { nodes }
    }

    /// Parses the markup `html`.
    pub fn parse(html: &str) -> (r: Markup)
        ensures
            r@ == markup_nodes(html@),
    {
        Markup { nodes: parse_nodes(html) }
    }

    pub fn len(&self) -> (r: usize)
        ensures
            r == self@.len(),
    {
        self.nodes.len()
    }

    /// Whether node `j` is node `i` or lies below it.
    pub fn is_within(&self, j: usize, i: usize) -> (r: bool)
        ensures
            r == in_subtree(self@, j as int, i as int),
    {
        let mut cur = j;
        while cur != i
            invariant
                in_subtree(self@, j as int, i as int) == in_subtree(self@, cur as int, i as int),
            decreases cur,
        {
            if cur >= self.nodes.len() {
                return false;
            }
            match self.nodes[cur].parent {
                Some(p) => {
                    if p >= cur {
                        return false;
                    }
                    cur = p;
                },
                None => {
                    return false;
                },
            }
        }
        true
    }

    /// Whether node `j` is a child of node `i`.
    pub fn is_child(&self, j: usize, i: usize) -> (r: bool)
        ensures
            r == is_child(self@, j as int, i as int),
    {
        j < self.nodes.len() && match self.nodes[j].parent {
            Some(p) => p == i,
            None => false,
        }
    }

    /// The visible text of node `i`.
    pub fn text(&self, i: usize) -> (r: String)
        ensures
            r@ == text_of(self@, i as int),
    {
        let n = self.nodes.len();
        let mut r = String::new();
        if i >= n {
            assert(text_upto(self@, i as int, n as int) == Seq::<char>::empty());
            return r;
        }
        let mut k = i;
        while k < n
            invariant
                i <= k <= n == self@.len(),
                r@ == text_upto(self@, i as int, k as int),
            decreases n - k,
        {
            if self.is_within(k, i) {
                match &self.nodes[k].data {
                    NodeData::Text { content } => {
                        r.append(content.as_str());
                    },
                    _ => {
                        assert(r@ =~= r@ + text_piece(self@, i as int, k as int));
                    },
                }
            } else {
                assert(r@ =~= r@ + text_piece(self@, i as int, k as int));
            }
            k = k + 1;
        }
        r
    }

    /// Whether node `j` is an element with tag `name`.
    pub fn is_named(&self, j: usize, name: &str) -> (r: bool)
        ensures
            r == is_named(self@, j as int, name@),
    {
        if j >= self.nodes.len() {
            return false;
        }
        match &self.nodes[j].data {
            NodeData::Element { name: n, .. } => same_text(n.as_str(), name),
            _ => false,
        }
    }

    /// The value of attribute `key` of node `j`.
    pub fn attr(&self, j: usize, key: &str) -> (r: Option<String>)
        ensures
            r matches Some(v) ==> attr_of(self@, j as int, key@) == Some(v@),
            r is None ==> attr_of(self@, j as int, key@) is None,
    {
        if j >= self.nodes.len() {
            return None;
        }
        assert(self@[j as int] == self.nodes@[j as int]);
        match &self.nodes[j].data {
            NodeData::Element { attrs, .. } => {
                assert(attr_of(self@, j as int, key@) == attr_in(attrs@, key@));
                let mut k: usize = 0;
                assert(attrs@.subrange(0, attrs.len() as int) =~= attrs@);
                while k < attrs.len()
                    invariant
                        k <= attrs.len(),
                        attr_of(self@, j as int, key@) == attr_in(attrs@, key@),
                        attr_in(attrs@, key@) == attr_in(attrs@.subrange(k as int, attrs.len() as int), key@),
                    decreases attrs.len() - k,
                {
                    assert(attrs@.subrange(k as int, attrs.len() as int).drop_first() =~= attrs@.subrange(
                        k + 1,
                        attrs.len() as int,
                    ));
                    if same_text(attrs[k].0.as_str(), key) {
                        let v = attrs[k].1.clone();
                        assert(attrs@.subrange(k as int, attrs.len() as int)[0] == attrs@[k as int]);
                        assert(v@ == attrs@[k as int].1@);
                        return Some(v);
                    }
                    k = k + 1;
                }
                None
            },
            _ => None,
        }
    }

    /// Whether node `j` carries the class `c`.
    pub fn has_class(&self, j: usize, c: &str) -> (r: bool)
        ensures
            r == has_class(self@, j as int, c@),
    {
        match self.attr(j, "class") {
            Some(v) => has_word_exec(&chars_of(v.as_str()), &chars_of(c)),
            None => false,
        }
    }

    /// Whether some node above node `j` carries the class `c`.
    pub fn is_under_class(&self, j: usize, c: &str) -> (r: bool)
        ensures
            r == under_class(self@, j as int, c@),
    {
        let mut cur = j;
        loop
            invariant
                under_class(self@, j as int, c@) == under_class(self@, cur as int, c@),
            decreases cur,
        {
            if cur >= self.nodes.len() {
                return false;
            }
            match self.nodes[cur].parent {
                Some(p) => {
                    if p >= cur {
                        return false;
                    }
                    if self.has_class(p, c) {
                        return true;
                    }
                    cur = p;
                },
                None => {
                    return false;
                },
            }
        }
    }

    /// The first node of the document with class `c`.
    pub fn first_with_class(&self, c: &str) -> (r: Option<usize>)
        ensures
            as_index(r) == first_from(0, self@.len() as int, class_pred(self@, c@)),
    {
        let n = self.nodes.len();
        let mut k: usize = 0;
        while k < n
            invariant
                k <= n == self@.len(),
                first_from(0, n as int, class_pred(self@, c@)) == first_from(
                    k as int,
                    n as int,
                    class_pred(self@, c@),
                ),
            decreases n - k,
        {
            if self.has_class(k, c) {
                return Some(k);
            }
            k = k + 1;
        }
        None
    }

    /// The first element of the document with tag `name` and class `c`.
    pub fn first_named_with_class(&self, name: &str, c: &str) -> (r: Option<usize>)
        ensures
            as_index(r) == first_from(0, self@.len() as int, named_class_pred(self@, name@, c@)),
    {
        let n = self.nodes.len();
        let mut k: usize = 0;
        while k < n
            invariant
                k <= n == self@.len(),
                first_from(0, n as int, named_class_pred(self@, name@, c@)) == first_from(
                    k as int,
                    n as int,
                    named_class_pred(self@, name@, c@),
                ),
            decreases n - k,
        {
            if self.is_named(k, name) && self.has_class(k, c) {
                return Some(k);
            }
            k = k + 1;
        }
        None
    }

    /// The first element with tag `name` below node `i`.
    pub fn first_named_below(&self, i: usize, name: &str) -> (r: Option<usize>)
        requires
            i < self@.len(),
        ensures
            as_index(r) == first_named_below(self@, i as int, name@),
    {
        let n = self.nodes.len();
        let mut k: usize = i + 1;
        while k < n
            invariant
                i < k <= n == self@.len(),
                first_named_below(self@, i as int, name@) == first_from(
                    k as int,
                    n as int,
                    named_below_pred(self@, i as int, name@),
                ),
            decreases n - k,
        {
            if self.is_within(k, i) && self.is_named(k, name) {
                return Some(k);
            }
            k = k + 1;
        }
        None
    }
}

} // verus!
