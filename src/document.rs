//! A snapshot of a rendered document tree.
//!
//! Nodes are stored in document order (a pre-order walk of the tree), each with
//! its depth below the root node. The subtree of a node is therefore the run of
//! nodes that follows it while their depth is greater than its own, and the
//! parent of a node is the nearest earlier node of smaller depth.
use vstd::prelude::*;
use crate::text::{contains, text_matches, str_contains, str_equal, str_matches};

verus! {

/// What kind of node a document node is.
#[derive(Clone, Copy, Debug, PartialEq, Eq, Structural)]
pub enum NodeKind {
    Element,
    Text,
    Comment,
}

/// One node of a document, with what the queries read of it.
pub struct Node {
    pub kind: NodeKind,
    /// Distance from the document's root node.
    pub depth: usize,
    /// Local tag name of an element (`input`, `label`), empty for other nodes.
    pub tag: String,
    /// Character data of a text or comment node, empty for elements.
    pub data: String,
    /// The `id` attribute, empty when absent.
    pub id: String,
    /// The `role` attribute.
    pub role: Option<String>,
    /// The `for` attribute of a label: the identifier of the control it describes.
    pub html_for: String,
    /// The `placeholder` attribute, empty when absent.
    pub placeholder: String,
    /// The element's `value` property: what a form control displays; progress,
    /// li and option elements carry one for other ends.
    pub value: String,
}

/// A handle to an element of a document: its position in document order.
/// Two handles are equal exactly when they name the same element.
#[derive(Clone, Copy, Debug, PartialEq, Eq, Structural)]
pub struct TestElement(pub usize);

pub open spec fn is_element(n: Node) -> bool {
    n.kind == NodeKind::Element
}

pub open spec fn is_text(n: Node) -> bool {
    n.kind == NodeKind::Text
}

/// An element named `tag`.
pub open spec fn has_tag(n: Node, tag: Seq<char>) -> bool {
    is_element(n) && n.tag@ == tag
}

/// A control whose value the user reads and edits: an input, a textarea or a
/// select. Elements that carry a value for other ends (progress, li, option) are
/// not among them.
pub open spec fn is_form_control(n: Node) -> bool {
    has_tag(n, "input"@) || has_tag(n, "textarea"@) || has_tag(n, "select"@)
}

/// A single-line or multi-line text field: an input or a textarea.
pub open spec fn is_text_field(n: Node) -> bool {
    has_tag(n, "input"@) || has_tag(n, "textarea"@)
}

/// A node fresh from its constructor: no attributes and no value.
pub open spec fn is_bare(n: Node) -> bool {
    &&& n.id@.len() == 0
    &&& n.role is None
    &&& n.html_for@.len() == 0
    &&& n.placeholder@.len() == 0
    &&& n.value@.len() == 0
}

/// The first position at or after `j` whose depth is at most `depth`, or the length.
pub open spec fn run_end(nodes: Seq<Node>, depth: usize, j: int) -> int
    decreases nodes.len() - j,
{
    if 0 <= j < nodes.len() && nodes[j].depth > depth {
        run_end(nodes, depth, j + 1)
    } else {
        j
    }
}

/// One past the last descendant of node `i`.
pub open spec fn subtree_end(nodes: Seq<Node>, i: int) -> int {
    run_end(nodes, nodes[i].depth, i + 1)
}

/// The nearest node at or before `k` whose depth is below `depth`.
pub open spec fn parent_from(nodes: Seq<Node>, depth: usize, k: int) -> Option<usize>
    decreases k + 1,
{
    if k < 0 || k >= nodes.len() {
        None
    } else if nodes[k].depth < depth {
        Some(k as usize)
    } else {
        parent_from(nodes, depth, k - 1)
    }
}

/// The parent of node `t`, if it has one.
pub open spec fn parent_of(nodes: Seq<Node>, t: int) -> Option<usize> {
    parent_from(nodes, nodes[t].depth, t - 1)
}

/// The text nodes among positions `lo .. hi`, in document order.
pub open spec fn text_nodes_in(nodes: Seq<Node>, lo: int, hi: int) -> Seq<usize>
    decreases hi - lo,
{
    if hi <= lo {
        seq![]
    } else {
        let prev = text_nodes_in(nodes, lo, hi - 1);
        if is_text(nodes[hi - 1]) {
            prev.push((hi - 1) as usize)
        } else {
            prev
        }
    }
}

/// The text nodes of the subtree of `r` (`r` included), in document order.
pub open spec fn text_nodes_of(nodes: Seq<Node>, r: int) -> Seq<usize> {
    text_nodes_in(nodes, r, subtree_end(nodes, r))
}

/// The character data of the nodes `texts`, with `sep` between neighbours.
pub open spec fn joined(nodes: Seq<Node>, texts: Seq<usize>, sep: Seq<char>) -> Seq<char>
    decreases texts.len(),
{
    if texts.len() == 0 {
        seq![]
    } else if texts.len() == 1 {
        nodes[texts[0] as int].data@
    } else {
        joined(nodes, texts.drop_last(), sep) + sep + nodes[texts.last() as int].data@
    }
}

/// The text a reader sees in element `e`: all the text of its subtree, in order.
pub open spec fn rendered_text(nodes: Seq<Node>, e: int) -> Seq<char> {
    joined(nodes, text_nodes_of(nodes, e), seq![])
}

/// The parent of `t`, or position 0 when it has none.
pub open spec fn parent_index(nodes: Seq<Node>, t: int) -> usize {
    match parent_of(nodes, t) {
        Some(p) => p,
        None => 0,
    }
}

/// Text node `t` leads to its parent element for query `q`: the parent's rendered
/// text equals `q` (`exact`), or both the node's own text and the parent's
/// rendered text contain `q`.
pub open spec fn text_qualifies(nodes: Seq<Node>, t: int, q: Seq<char>, exact: bool) -> bool {
    match parent_of(nodes, t) {
        Some(p) => {
            &&& is_element(nodes[p as int])
            &&& exact || contains(nodes[t].data@, q)
            &&& text_matches(rendered_text(nodes, p as int), q, exact)
        },
        None => false,
    }
}

/// One of the first `i` entries of `texts` leads to element `e`: it qualifies
/// for `q` and `e` is its parent.
pub open spec fn led_within(nodes: Seq<Node>, texts: Seq<usize>, q: Seq<char>, exact: bool, i: int, e: int) -> bool {
    exists|k: int|
        0 <= k < i && k < texts.len() && text_qualifies(nodes, #[trigger] texts[k] as int, q, exact)
            && parent_index(nodes, texts[k] as int) == e
}

/// Some entry of `texts` leads to element `e` for `q`.
pub open spec fn led_by(nodes: Seq<Node>, texts: Seq<usize>, q: Seq<char>, exact: bool, e: int) -> bool {
    led_within(nodes, texts, q, exact, texts.len() as int, e)
}

/// The positions below `hi` that entries of `texts` lead to, in increasing order.
pub open spec fn parents_below(nodes: Seq<Node>, texts: Seq<usize>, q: Seq<char>, exact: bool, hi: int) -> Seq<TestElement>
    decreases hi,
{
    if hi <= 0 {
        seq![]
    } else {
        let prev = parents_below(nodes, texts, q, exact, hi - 1);
        if led_by(nodes, texts, q, exact, hi - 1) {
            prev.push(TestElement((hi - 1) as usize))
        } else {
            prev
        }
    }
}

/// The parent elements of the qualifying nodes among `texts`, in document order,
/// each listed once.
pub open spec fn parents_matching(nodes: Seq<Node>, texts: Seq<usize>, q: Seq<char>, exact: bool) -> Seq<TestElement> {
    parents_below(nodes, texts, q, exact, nodes.len() as int)
}

/// `parents_below` lists exactly the positions below `hi` that are led to, in
/// strictly increasing order.
pub proof fn lemma_parents_below(nodes: Seq<Node>, texts: Seq<usize>, q: Seq<char>, exact: bool, hi: int)
    requires
        hi <= usize::MAX + 1,
    ensures
        forall|k: int| 0 <= k < parents_below(nodes, texts, q, exact, hi).len()
            ==> 0 <= #[trigger] parents_below(nodes, texts, q, exact, hi)[k].0 < hi,
        forall|a: int, b: int|
            #![trigger parents_below(nodes, texts, q, exact, hi)[a], parents_below(nodes, texts, q, exact, hi)[b]]
            0 <= a < b < parents_below(nodes, texts, q, exact, hi).len()
                ==> parents_below(nodes, texts, q, exact, hi)[a].0 < parents_below(nodes, texts, q, exact, hi)[b].0,
        forall|e: TestElement| #[trigger] parents_below(nodes, texts, q, exact, hi).contains(e)
            <==> (e.0 < hi && led_by(nodes, texts, q, exact, e.0 as int)),
    decreases hi,
{
    if hi > 0 {
        lemma_parents_below(nodes, texts, q, exact, hi - 1);
        let prev = parents_below(nodes, texts, q, exact, hi - 1);
        let cur = parents_below(nodes, texts, q, exact, hi);
        let x = TestElement((hi - 1) as usize);
        if led_by(nodes, texts, q, exact, hi - 1) {
            assert(cur == prev.push(x));
            assert forall|e: TestElement| #[trigger] cur.contains(e)
                <==> (e.0 < hi && led_by(nodes, texts, q, exact, e.0 as int)) by {
                if cur.contains(e) {
                    let j = choose|j: int| 0 <= j < cur.len() && cur[j] == e;
                    if j < prev.len() {
                        assert(prev[j] == e);
                        assert(prev.contains(e));
                    }
                }
                if e.0 < hi && led_by(nodes, texts, q, exact, e.0 as int) {
                    if e.0 < hi - 1 {
                        assert(prev.contains(e));
                        let j = choose|j: int| 0 <= j < prev.len() && prev[j] == e;
                        assert(cur[j] == e);
                    } else {
                        assert(cur[prev.len() as int] == e);
                    }
                }
            }
        } else {
            assert(cur == prev);
            assert forall|e: TestElement| #[trigger] cur.contains(e)
                <==> (e.0 < hi && led_by(nodes, texts, q, exact, e.0 as int)) by {
                if e.0 < hi && led_by(nodes, texts, q, exact, e.0 as int) {
                    assert(e.0 < hi - 1);
                    assert(prev.contains(e));
                }
                if cur.contains(e) {
                    assert(prev.contains(e));
                }
            }
        }
    }
}

/// Element `e` is listed by the text matcher exactly when some entry of
/// `texts` leads to it.
pub proof fn lemma_parents_matching_member(nodes: Seq<Node>, texts: Seq<usize>, q: Seq<char>, exact: bool, e: TestElement)
    requires
        nodes.len() <= usize::MAX,
    ensures
        parents_matching(nodes, texts, q, exact).contains(e) <==> (e.0 < nodes.len() && led_by(
            nodes,
            texts,
            q,
            exact,
            e.0 as int,
        )),
{
    lemma_parents_below(nodes, texts, q, exact, nodes.len() as int);
}

/// The shape of a pre-order walk: one root at depth 0 that is an element; each
/// later node at most one level below its predecessor, and only an element has a
/// node directly below it.
pub open spec fn wf_nodes(nodes: Seq<Node>) -> bool {
    &&& nodes.len() >= 1
    &&& nodes[0].depth == 0
    &&& is_element(nodes[0])
    &&& forall|j: int| 1 <= j < nodes.len() ==> 1 <= #[trigger] nodes[j].depth <= nodes[j - 1].depth + 1
    &&& forall|j: int|
        1 <= j < nodes.len() && #[trigger] nodes[j].depth == nodes[j - 1].depth + 1 ==> is_element(nodes[j - 1])
}

/// A new child may be appended to `p`: it is an element and nothing follows its
/// subtree yet.
pub open spec fn can_append(nodes: Seq<Node>, p: int) -> bool {
    &&& 0 <= p < nodes.len()
    &&& is_element(nodes[p])
    &&& subtree_end(nodes, p) == nodes.len()
}

/// `run_end` stops at the first node of depth at most `depth`.
pub proof fn lemma_run_end(nodes: Seq<Node>, depth: usize, j: int)
    requires
        0 <= j <= nodes.len(),
    ensures
        j <= run_end(nodes, depth, j) <= nodes.len(),
        forall|k: int| j <= k < run_end(nodes, depth, j) ==> nodes[k].depth > depth,
        run_end(nodes, depth, j) < nodes.len() ==> nodes[run_end(nodes, depth, j)].depth <= depth,
    decreases nodes.len() - j,
{
    if 0 <= j < nodes.len() && nodes[j].depth > depth {
        lemma_run_end(nodes, depth, j + 1);
    }
}

/// `new` is `old` with one more node: a bare child of `parent` of the given kind,
/// tag and data.
pub open spec fn appended(old: Seq<Node>, new: Seq<Node>, parent: int, kind: NodeKind, tag: Seq<char>, data: Seq<char>) -> bool {
    let i = old.len() as int;
    &&& new.len() == i + 1
    &&& new.subrange(0, i) == old
    &&& new[i].kind == kind
    &&& new[i].depth == old[parent].depth + 1
    &&& new[i].tag@ == tag
    &&& new[i].data@ == data
    &&& is_bare(new[i])
}

/// The text nodes of `lo .. hi` lie in that range, in increasing order.
pub proof fn lemma_text_nodes_in(nodes: Seq<Node>, lo: int, hi: int)
    requires
        0 <= lo,
        hi <= nodes.len() <= usize::MAX,
    ensures
        forall|k: int| 0 <= k < text_nodes_in(nodes, lo, hi).len()
            ==> lo <= #[trigger] text_nodes_in(nodes, lo, hi)[k] < hi,
        forall|a: int, b: int| 0 <= a < b < text_nodes_in(nodes, lo, hi).len()
            ==> text_nodes_in(nodes, lo, hi)[a] < text_nodes_in(nodes, lo, hi)[b],
        forall|k: int| 0 <= k < text_nodes_in(nodes, lo, hi).len()
            ==> is_text(nodes[#[trigger] text_nodes_in(nodes, lo, hi)[k] as int]),
    decreases hi - lo,
{
    if hi > lo {
        lemma_text_nodes_in(nodes, lo, hi - 1);
        let prev = text_nodes_in(nodes, lo, hi - 1);
        if is_text(nodes[hi - 1]) {
            assert(text_nodes_in(nodes, lo, hi) == prev.push((hi - 1) as usize));
        }
    }
}

/// A parent found at or before `k` lies at or before `k`.
pub proof fn lemma_parent_from(nodes: Seq<Node>, depth: usize, k: int)
    ensures
        parent_from(nodes, depth, k) matches Some(p) ==> 0 <= p <= k && p < nodes.len(),
    decreases k + 1,
{
    if 0 <= k < nodes.len() && nodes[k].depth >= depth {
        lemma_parent_from(nodes, depth, k - 1);
    }
}

/// In a well-formed document no node lies deeper than its position.
pub proof fn lemma_depth_bound(nodes: Seq<Node>, j: int)
    requires
        wf_nodes(nodes),
        0 <= j < nodes.len(),
    ensures
        nodes[j].depth <= j,
    decreases j,
{
    if j > 0 {
        lemma_depth_bound(nodes, j - 1);
    }
}

/// Nodes stored in document order.
pub struct Document {
    nodes: Vec<Node>,
}

impl View for Document {
    type V = Seq<Node>;

    closed spec fn view(&self) -> Seq<Node> {
        self.nodes@
    }
}

/// A node with the given kind, depth, tag and data, and nothing else.
fn bare_node(kind: NodeKind, depth: usize, tag: &str, data: &str) -> (r: Node)
    ensures
        r.kind == kind,
        r.depth == depth,
        r.tag@ == tag@,
        r.data@ == data@,
        is_bare(r),
{
    Node {
        kind,
        depth,
        tag: String::from_str(tag),
        data: String::from_str(data),
        id: String::new(),
        role: None,
        html_for: String::new(),
        placeholder: String::new(),
        value: String::new(),
    }
}

impl Document {
    #[verifier::type_invariant]
    closed spec fn inv(&self) -> bool {
        wf_nodes(self.nodes@)
    }

    /// A document that holds a single root element named `root_tag`.
    pub fn new(root_tag: &str) -> (r: Document)
        ensures
            r@.len() == 1,
            is_element(r@[0]),
            r@[0].depth == 0,
            r@[0].tag@ == root_tag@,
            r@[0].data@.len() == 0,
            is_bare(r@[0]),
    {
        let empty = String::new();
        let root = bare_node(NodeKind::Element, 0, root_tag, empty.as_str());
        let mut nodes: Vec<Node> = Vec::new();
        nodes.push(root);
        Document { nodes }
    }

    /// The number of nodes. The first is the root element.
    pub fn len(&self) -> (r: usize)
        ensures
            r == self@.len(),
            r >= 1,
            is_element(self@[0]),
    {
        proof {
            use_type_invariant(self);
        }
        self.nodes.len()
    }

    /// Node `i`.
    pub fn node(&self, i: usize) -> (r: &Node)
        requires
            i < self@.len(),
        ensures
            *r == self@[i as int],
    {
        &self.nodes[i]
    }

    /// One past the last descendant of node `i`.
    pub fn subtree_end(&self, i: usize) -> (r: usize)
        requires
            i < self@.len(),
        ensures
            r == subtree_end(self@, i as int),
            i < r <= self@.len(),
    {
        let n = self.nodes.len();
        let d = self.nodes[i].depth;
        let mut j: usize = i + 1;
        proof {
            lemma_run_end(self@, d, i + 1);
        }
        while j < n && self.nodes[j].depth > d
            invariant
                n == self@.len(),
                i < j <= self@.len(),
                d == self@[i as int].depth,
                run_end(self@, d, j as int) == subtree_end(self@, i as int),
            decreases self@.len() - j,
        {
            j += 1;
        }
        j
    }

    /// The parent of node `t`, if it has one.
    pub fn parent(&self, t: usize) -> (r: Option<usize>)
        requires
            t < self@.len(),
        ensures
            r == parent_of(self@, t as int),
            r matches Some(p) ==> p < t,
    {
        let d = self.nodes[t].depth;
        let mut k: usize = t;
        while k > 0
            invariant
                k <= t < self@.len(),
                d == self@[t as int].depth,
                parent_from(self@, d, k - 1) == parent_of(self@, t as int),
            decreases k,
        {
            if self.nodes[k - 1].depth < d {
                return Some(k - 1);
            }
            k -= 1;
        }
        None
    }

    /// Appends `node` as the last child of `parent` when `parent` can take one.
    fn append(&mut self, parent: usize, node: Node) -> (r: Option<usize>)
        requires
            node.depth == old(self)@[parent as int].depth + 1,
        ensures
            r is Some <==> can_append(old(self)@, parent as int),
            r matches Some(i) ==> i == old(self)@.len() && final(self)@ == old(self)@.push(node),
            r is None ==> final(self)@ == old(self)@,
    {
        proof {
            use_type_invariant(&*self);
        }
        if parent >= self.nodes.len() {
            return None;
        }
        if self.nodes[parent].kind != NodeKind::Element {
            return None;
        }
        let end = self.subtree_end(parent);
        if end != self.nodes.len() {
            return None;
        }
        let i = self.nodes.len();
        proof {
            lemma_run_end(self@, self@[parent as int].depth, parent + 1);
            let nodes = self@;
            let n = i as int;
            if n - 1 > parent {
                assert(nodes[n - 1].depth > nodes[parent as int].depth);
            }
        }
        let mut nodes = self.take_nodes();
        nodes.push(node);
        proof {
            let old_nodes = old(self)@;
            assert forall|j: int| 1 <= j < nodes@.len() implies 1 <= #[trigger] nodes@[j].depth <= nodes@[j - 1].depth + 1 by {
                if j < old_nodes.len() {
                    assert(nodes@[j] == old_nodes[j]);
                }
            }
            assert forall|j: int|
                1 <= j < nodes@.len() && #[trigger] nodes@[j].depth == nodes@[j - 1].depth + 1 implies is_element(nodes@[j - 1]) by {
                if j < old_nodes.len() {
                    assert(nodes@[j] == old_nodes[j]);
                }
            }
        }
        *self = Document { nodes };
        Some(i)
    }

    /// Takes the nodes out, leaving a one-node document behind.
    fn take_nodes(&mut self) -> (r: Vec<Node>)
        ensures
            r@ == old(self)@,
            wf_nodes(r@),
    {
        proof {
            use_type_invariant(&*self);
        }
        let empty = String::new();
        let mut taken = Document::new(empty.as_str());
        std::mem::swap(self, &mut taken);
        proof {
            use_type_invariant(&taken);
        }
        let Document { nodes } = taken;
        nodes
    }

    /// Appends a bare node of `kind` as the last child of `parent`.
    fn append_bare(&mut self, parent: usize, kind: NodeKind, tag: &str, data: &str) -> (r: Option<usize>)
        ensures
            r is Some <==> can_append(old(self)@, parent as int),
            r is None ==> final(self)@ == old(self)@,
            r matches Some(i) ==> i == old(self)@.len() && appended(old(self)@, final(self)@, parent as int, kind, tag@, data@),
    {
        proof {
            use_type_invariant(&*self);
        }
        if parent >= self.nodes.len() {
            return None;
        }
        proof {
            lemma_depth_bound(self@, parent as int);
        }
        let node = bare_node(kind, self.nodes[parent].depth + 1, tag, data);
        let r = self.append(parent, node);
        proof {
            if r is Some {
                assert(final(self)@.subrange(0, old(self)@.len() as int) =~= old(self)@);
            }
        }
        r
    }

    /// Appends an element named `tag` as the last child of `parent`. Gives its
    /// position, or `None` when `parent` cannot take a child (see `can_append`).
    pub fn append_element(&mut self, parent: usize, tag: &str) -> (r: Option<usize>)
        ensures
            r is Some <==> can_append(old(self)@, parent as int),
            r is None ==> final(self)@ == old(self)@,
            r matches Some(i) ==> i == old(self)@.len()
                && appended(old(self)@, final(self)@, parent as int, NodeKind::Element, tag@, seq![]),
    {
        let empty = String::new();
        self.append_bare(parent, NodeKind::Element, tag, empty.as_str())
    }

    /// Appends a text node holding `data` as the last child of `parent`. Gives its
    /// position, or `None` when `parent` cannot take a child (see `can_append`).
    pub fn append_text(&mut self, parent: usize, data: &str) -> (r: Option<usize>)
        ensures
            r is Some <==> can_append(old(self)@, parent as int),
            r is None ==> final(self)@ == old(self)@,
            r matches Some(i) ==> i == old(self)@.len()
                && appended(old(self)@, final(self)@, parent as int, NodeKind::Text, seq![], data@),
    {
        let empty = String::new();
        self.append_bare(parent, NodeKind::Text, empty.as_str(), data)
    }

    /// Appends a comment holding `data` as the last child of `parent`. Gives its
    /// position, or `None` when `parent` cannot take a child (see `can_append`).
    pub fn append_comment(&mut self, parent: usize, data: &str) -> (r: Option<usize>)
        ensures
            r is Some <==> can_append(old(self)@, parent as int),
            r is None ==> final(self)@ == old(self)@,
            r matches Some(i) ==> i == old(self)@.len()
                && appended(old(self)@, final(self)@, parent as int, NodeKind::Comment, seq![], data@),
    {
        let empty = String::new();
        self.append_bare(parent, NodeKind::Comment, empty.as_str(), data)
    }

    /// Sets the `id` attribute of element `e`.
    pub fn set_id(&mut self, e: usize, id: &str)
        requires
            e < old(self)@.len(),
        ensures
            final(self)@ == old(self)@.update(e as int, final(self)@[e as int]),
            final(self)@[e as int] == (Node { id: final(self)@[e as int].id, ..old(self)@[e as int] }),
            final(self)@[e as int].id@ == id@,
    {
        let mut nodes = self.take_nodes();
        nodes[e].id = String::from_str(id);
        proof {
            assert(nodes@ =~= old(self)@.update(e as int, nodes@[e as int]));
        }
        *self = Document { nodes };
    }

    /// Sets the `role` attribute of element `e`.
    pub fn set_role(&mut self, e: usize, role: &str)
        requires
            e < old(self)@.len(),
        ensures
            final(self)@ == old(self)@.update(e as int, final(self)@[e as int]),
            final(self)@[e as int] == (Node { role: final(self)@[e as int].role, ..old(self)@[e as int] }),
            final(self)@[e as int].role matches Some(r) && r@ == role@,
    {
        let mut nodes = self.take_nodes();
        nodes[e].role = Some(String::from_str(role));
        proof {
            assert(nodes@ =~= old(self)@.update(e as int, nodes@[e as int]));
        }
        *self = Document { nodes };
    }

    /// Sets the `for` attribute of element `e`, the identifier of the control a
    /// label describes.
    pub fn set_html_for(&mut self, e: usize, html_for: &str)
        requires
            e < old(self)@.len(),
        ensures
            final(self)@ == old(self)@.update(e as int, final(self)@[e as int]),
            final(self)@[e as int] == (Node { html_for: final(self)@[e as int].html_for, ..old(self)@[e as int] }),
            final(self)@[e as int].html_for@ == html_for@,
    {
        let mut nodes = self.take_nodes();
        nodes[e].html_for = String::from_str(html_for);
        proof {
            assert(nodes@ =~= old(self)@.update(e as int, nodes@[e as int]));
        }
        *self = Document { nodes };
    }

    /// Sets the `placeholder` attribute of element `e`.
    pub fn set_placeholder(&mut self, e: usize, placeholder: &str)
        requires
            e < old(self)@.len(),
        ensures
            final(self)@ == old(self)@.update(e as int, final(self)@[e as int]),
            final(self)@[e as int] == (Node { placeholder: final(self)@[e as int].placeholder, ..old(self)@[e as int] }),
            final(self)@[e as int].placeholder@ == placeholder@,
    {
        let mut nodes = self.take_nodes();
        nodes[e].placeholder = String::from_str(placeholder);
        proof {
            assert(nodes@ =~= old(self)@.update(e as int, nodes@[e as int]));
        }
        *self = Document { nodes };
    }

    /// Sets the `value` property of element `e`.
    pub fn set_value(&mut self, e: usize, value: &str)
        requires
            e < old(self)@.len(),
        ensures
            final(self)@ == old(self)@.update(e as int, final(self)@[e as int]),
            final(self)@[e as int] == (Node { value: final(self)@[e as int].value, ..old(self)@[e as int] }),
            final(self)@[e as int].value@ == value@,
    {
        let mut nodes = self.take_nodes();
        nodes[e].value = String::from_str(value);
        proof {
            assert(nodes@ =~= old(self)@.update(e as int, nodes@[e as int]));
        }
        *self = Document { nodes };
    }

    /// Sets the value that form control `e` (an input, textarea or select)
    /// displays.
    pub fn set_display_value(&mut self, e: usize, value: &str)
        requires
            e < old(self)@.len(),
            is_form_control(old(self)@[e as int]),
        ensures
            final(self)@ == old(self)@.update(e as int, final(self)@[e as int]),
            final(self)@[e as int] == (Node { value: final(self)@[e as int].value, ..old(self)@[e as int] }),
            final(self)@[e as int].value@ == value@,
    {
        self.set_value(e, value)
    }

    /// Whether node `i` is an element named `tag`.
    pub fn has_tag(&self, i: usize, tag: &str) -> (r: bool)
        requires
            i < self@.len(),
        ensures
            r == (is_element(self@[i as int]) && self@[i as int].tag@ == tag@),
    {
        self.nodes[i].kind == NodeKind::Element && str_equal(self.nodes[i].tag.as_str(), tag)
    }

    /// Whether node `i` is an element.
    pub fn is_element_at(&self, i: usize) -> (r: bool)
        requires
            i < self@.len(),
        ensures
            r == is_element(self@[i as int]),
    {
        self.nodes[i].kind == NodeKind::Element
    }

    /// Whether node `i` is a form control with a displayed value.
    pub fn is_form_control(&self, i: usize) -> (r: bool)
        requires
            i < self@.len(),
        ensures
            r == is_form_control(self@[i as int]),
    {
        self.has_tag(i, "input") || self.has_tag(i, "textarea") || self.has_tag(i, "select")
    }

    /// Whether node `i` is a single-line or multi-line text field.
    pub fn is_text_field(&self, i: usize) -> (r: bool)
        requires
            i < self@.len(),
        ensures
            r == is_text_field(self@[i as int]),
    {
        self.has_tag(i, "input") || self.has_tag(i, "textarea")
    }

    /// The text a reader sees in node `e`: the text of its subtree, in order.
    pub fn display_text(&self, e: usize) -> (r: String)
        requires
            e < self@.len(),
        ensures
            r@ == rendered_text(self@, e as int),
    {
        let empty = String::new();
        get_all_text_nodes(self, e).join_text(self, empty.as_str())
    }
}

/// Appends the text nodes of the subtree of `node` (`node` included) to
/// `text_nodes`, in document order. Only elements have descendants, so a text
/// node yields itself and a comment nothing.
pub fn find_all_text_nodes(doc: &Document, node: usize, text_nodes: &mut Vec<usize>)
    requires
        node < doc@.len(),
    ensures
        final(text_nodes)@ == old(text_nodes)@ + text_nodes_of(doc@, node as int),
{
    let end = doc.subtree_end(node);
    let mut j: usize = node;
    while j < end
        invariant
            node <= j <= end <= doc@.len(),
            end == subtree_end(doc@, node as int),
            text_nodes@ == old(text_nodes)@ + text_nodes_in(doc@, node as int, j as int),
        decreases end - j,
    {
        if doc.node(j).kind == NodeKind::Text {
            text_nodes.push(j);
        }
        j += 1;
        assert(text_nodes@ =~= old(text_nodes)@ + text_nodes_in(doc@, node as int, j as int));
    }
}

/// The text nodes of the subtree of `node`, in document order.
pub fn get_all_text_nodes(doc: &Document, node: usize) -> (r: TextNodes)
    requires
        node < doc@.len(),
    ensures
        r.0@ == text_nodes_of(doc@, node as int),
        r.within(doc),
{
    let n = doc.len();
    proof {
        lemma_run_end(doc@, doc@[node as int].depth, node + 1);
        lemma_text_nodes_in(doc@, node as int, subtree_end(doc@, node as int));
    }
    let mut text_nodes: Vec<usize> = Vec::new();
    find_all_text_nodes(doc, node, &mut text_nodes);
    assert(text_nodes@ =~= text_nodes_of(doc@, node as int));
    TextNodes(text_nodes)
}

/// Positions of text nodes of one document, in document order.
pub struct TextNodes(pub Vec<usize>);

impl TextNodes {
    /// All entries are positions in `doc`.
    pub open spec fn within(&self, doc: &Document) -> bool {
        forall|k: int| 0 <= k < self.0@.len() ==> #[trigger] self.0@[k] < doc@.len()
    }

    /// The character data of the nodes, with `join_on` between neighbours.
    pub fn join_text(&self, doc: &Document, join_on: &str) -> (r: String)
        requires
            self.within(doc),
        ensures
            r@ == joined(doc@, self.0@, join_on@),
    {
        let texts = &self.0;
        let mut r = String::new();
        let mut i: usize = 0;
        while i < texts.len()
            invariant
                self.within(doc),
                texts@ == self.0@,
                i <= texts@.len(),
                r@ == joined(doc@, texts@.subrange(0, i as int), join_on@),
            decreases texts@.len() - i,
        {
            let t = texts[i];
            if i > 0 {
                r.append(join_on);
            }
            r.append(doc.node(t).data.as_str());
            proof {
                let sub = texts@.subrange(0, i + 1);
                assert(sub.drop_last() =~= texts@.subrange(0, i as int));
                if i == 0 {
                    assert(r@ =~= doc@[t as int].data@);
                }
            }
            i += 1;
        }
        assert(texts@.subrange(0, texts@.len() as int) =~= texts@);
        r
    }

    /// The parents of the nodes that lead to them for `text` (see
    /// `text_qualifies`), in document order, each listed once.
    fn find_parents(&self, doc: &Document, text: &str, exact: bool) -> (r: Vec<TestElement>)
        requires
            self.within(doc),
        ensures
            r@ == parents_matching(doc@, self.0@, text@, exact),
    {
        let texts = &self.0;
        let n = doc.len();
        let mut marks: Vec<bool> = Vec::new();
        let mut j: usize = 0;
        while j < n
            invariant
                n == doc@.len(),
                j <= n,
                marks@.len() == j,
                forall|x: int| 0 <= x < j ==> !marks@[x],
            decreases n - j,
        {
            marks.push(false);
            j += 1;
        }
        let mut i: usize = 0;
        while i < texts.len()
            invariant
                self.within(doc),
                texts@ == self.0@,
                n == doc@.len(),
                i <= texts@.len(),
                marks@.len() == n,
                forall|x: int| 0 <= x < n ==> marks@[x] == led_within(doc@, texts@, text@, exact, i as int, x),
            decreases texts@.len() - i,
        {
            let t = texts[i];
            let ghost before = marks@;
            let parent = doc.parent(t);
            if let Some(p) = parent {
                proof {
                    lemma_parent_from(doc@, doc@[t as int].depth, t - 1);
                }
                if !marks[p] && doc.is_element_at(p) && (exact || str_contains(doc.node(t).data.as_str(), text)) {
                    let shown = doc.display_text(p);
                    if str_matches(shown.as_str(), text, exact) {
                        marks.set(p, true);
                    }
                }
            }
            proof {
                assert forall|x: int| 0 <= x < n implies marks@[x] == led_within(doc@, texts@, text@, exact, i + 1, x) by {
                    if led_within(doc@, texts@, text@, exact, i + 1, x) {
                        let k = choose|k: int|
                            0 <= k < i + 1 && k < texts@.len() && text_qualifies(doc@, #[trigger] texts@[k] as int, text@, exact)
                                && parent_index(doc@, texts@[k] as int) == x;
                        if k < i {
                            assert(led_within(doc@, texts@, text@, exact, i as int, x));
                        }
                    }
                    if led_within(doc@, texts@, text@, exact, i as int, x) {
                        let k = choose|k: int|
                            0 <= k < i && k < texts@.len() && text_qualifies(doc@, #[trigger] texts@[k] as int, text@, exact)
                                && parent_index(doc@, texts@[k] as int) == x;
                        assert(led_within(doc@, texts@, text@, exact, i + 1, x));
                    }
                    if marks@[x] && !before[x] {
                        assert(texts@[i as int] == t);
                        assert(led_within(doc@, texts@, text@, exact, i + 1, x));
                    }
                }
            }
            i += 1;
        }
        let mut r: Vec<TestElement> = Vec::new();
        let mut j: usize = 0;
        while j < n
            invariant
                n == doc@.len(),
                j <= n,
                marks@.len() == n,
                forall|x: int| 0 <= x < n ==> marks@[x] == led_by(doc@, texts@, text@, exact, x),
                r@ == parents_below(doc@, texts@, text@, exact, j as int),
            decreases n - j,
        {
            if marks[j] {
                r.push(TestElement(j));
            }
            j += 1;
        }
        r
    }

    /// The elements whose rendered text equals `text`, reached from their text
    /// nodes: each parent element of a node here whose whole rendered text is
    /// `text`, listed once, in document order.
    pub fn find_parents_of_matching_text(&self, doc: &Document, text: &str) -> (r: Vec<TestElement>)
        requires
            self.within(doc),
        ensures
            r@ == parents_matching(doc@, self.0@, text@, true),
    {
        self.find_parents(doc, text, true)
    }

    /// The elements whose text contains `text`, reached from their text nodes:
    /// each parent element of a node here whose own text contains `text` and whose
    /// whole rendered text contains it too, listed once, in document order.
    pub fn find_parents_of_containing_text(&self, doc: &Document, text: &str) -> (r: Vec<TestElement>)
        requires
            self.within(doc),
        ensures
            r@ == parents_matching(doc@, self.0@, text@, false),
    {
        self.find_parents(doc, text, false)
    }
}

} // verus!
