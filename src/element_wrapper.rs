//! Queries over the subtree of one element of a document.
use vstd::prelude::*;
use crate::document::{
    get_all_text_nodes, is_element, lemma_parents_below, subtree_end, Document, Node, TestElement,
};
use crate::dom_query::{
    all_by_label, all_by_text, label_targets, only_labels, probe_holds, select, select_below, targets_of, DomQuery,
    HoldsElement, Probe,
};
use crate::error::{get_one_inner, GetOneError};
use crate::text::{str_equal, str_matches};

verus! {

/// An element of a document, taken as the root of the queries run on it.
pub struct ElementWrapper<'a> {
    document: &'a Document,
    root: usize,
}

impl<'a> ElementWrapper<'a> {
    #[verifier::type_invariant]
    closed spec fn inv(&self) -> bool {
        &&& self.root < self.document@.len()
        &&& is_element(self.document@[self.root as int])
    }

    /// The document queried.
    pub closed spec fn nodes(&self) -> Seq<Node> {
        self.document@
    }

    /// The position of the root element.
    pub closed spec fn root_index(&self) -> int {
        self.root as int
    }

    /// Queries rooted at node `root` of `document`; `None` unless that node is
    /// an element.
    pub fn new(document: &'a Document, root: usize) -> (r: Option<ElementWrapper<'a>>)
        ensures
            r is Some <==> (root < document@.len() && is_element(document@[root as int])),
            r matches Some(w) ==> w.nodes() == document@ && w.root_index() == root,
    {
        if root < document.len() && document.is_element_at(root) {
            Some(ElementWrapper { document, root })
        } else {
            None
        }
    }

    /// The document queried.
    pub fn document(&self) -> (r: &'a Document)
        ensures
            r@ == self.nodes(),
    {
        self.document
    }

    /// The root element.
    pub fn root(&self) -> (r: TestElement)
        ensures
            r.0 == self.root_index(),
            r.0 < self.nodes().len(),
            is_element(self.nodes()[r.0 as int]),
    {
        proof {
            use_type_invariant(self);
        }
        TestElement(self.root)
    }

    /// Whether node `j` passes `probe` for `q`.
    fn probe_at(&self, j: usize, probe: Probe, q: &str) -> (r: bool)
        requires
            j < self.nodes().len(),
        ensures
            r == probe_holds(probe, self.nodes()[j as int], q@),
    {
        let doc = self.document;
        let n = doc.node(j);
        match probe {
            Probe::Id(exact) => doc.is_element_at(j) && str_matches(n.id.as_str(), q, exact),
            Probe::Role => doc.is_element_at(j) && match &n.role {
                Some(role) => str_equal(role.as_str(), q),
                None => false,
            },
            Probe::Placeholder(exact) => doc.is_text_field(j) && str_matches(n.placeholder.as_str(), q, exact),
            Probe::DisplayValue => doc.is_form_control(j) && str_equal(n.value.as_str(), q),
        }
    }

    /// The descendants of the root that pass `probe` for `q`, in document order.
    fn scan(&self, probe: Probe, q: &str) -> (r: Vec<TestElement>)
        ensures
            r@ == select_below(self.nodes(), self.root_index(), probe, q@),
    {
        proof {
            use_type_invariant(self);
        }
        let end = self.document.subtree_end(self.root);
        let mut r: Vec<TestElement> = Vec::new();
        let mut j: usize = self.root + 1;
        while j < end
            invariant
                self.root < j <= end <= self.nodes().len(),
                end == subtree_end(self.nodes(), self.root_index()),
                r@ == select(self.nodes(), self.root + 1, j as int, probe, q@),
            decreases end - j,
        {
            if self.probe_at(j, probe, q) {
                r.push(TestElement(j));
            }
            j += 1;
        }
        r
    }

    /// The elements found through their text nodes (see `all_by_text`).
    fn by_text(&self, text: &str, exact: bool) -> (r: Vec<TestElement>)
        ensures
            r@ == all_by_text(self.nodes(), self.root_index(), text@, exact),
            forall|k: int| 0 <= k < r@.len() ==> #[trigger] r@[k].0 < self.nodes().len(),
    {
        proof {
            use_type_invariant(self);
        }
        let texts = get_all_text_nodes(self.document, self.root);
        let r = if exact {
            texts.find_parents_of_matching_text(self.document, text)
        } else {
            texts.find_parents_of_containing_text(self.document, text)
        };
        let n = self.document.len();
        proof {
            lemma_parents_below(self.nodes(), texts.0@, text@, exact, n as int);
        }
        r
    }

    /// The controls described by the labels found through their text (see
    /// `all_by_label`).
    fn by_label(&self, text: &str, exact: bool) -> (r: Vec<TestElement>)
        ensures
            r@ == all_by_label(self.nodes(), self.root_index(), text@, exact),
    {
        let found = self.by_text(text, exact);
        let doc = self.document;
        let mut r: Vec<TestElement> = Vec::new();
        let mut i: usize = 0;
        while i < found.len()
            invariant
                doc@ == self.nodes(),
                i <= found@.len(),
                forall|k: int| 0 <= k < found@.len() ==> #[trigger] found@[k].0 < self.nodes().len(),
                r@ == label_targets(self.nodes(), self.root_index(), only_labels(self.nodes(), found@.subrange(0, i as int))),
            decreases found@.len() - i,
        {
            let e = found[i];
            let ghost prev = only_labels(self.nodes(), found@.subrange(0, i as int));
            proof {
                assert(found@.subrange(0, i + 1).drop_last() =~= found@.subrange(0, i as int));
            }
            if doc.has_tag(e.0, "label") {
                proof {
                    assert(prev.push(e).drop_last() =~= prev);
                }
                let target = doc.node(e.0).html_for.as_str();
                if !target.is_empty() {
                    let mut owners = self.scan(Probe::Id(true), target);
                    r.append(&mut owners);
                } else {
                    assert(targets_of(self.nodes(), self.root_index(), e) =~= Seq::<TestElement>::empty());
                    assert(r@ =~= r@ + Seq::<TestElement>::empty());
                }
            }
            i += 1;
        }
        assert(found@.subrange(0, found@.len() as int) =~= found@);
        r
    }
}

impl<'a> DomQuery for ElementWrapper<'a> {
    open spec fn query_nodes(&self) -> Seq<Node> {
        self.nodes()
    }

    open spec fn query_root(&self) -> int {
        self.root_index()
    }

    fn get_by_text(&self, text: &str) -> (r: Result<TestElement, GetOneError>) {
        get_one_inner(self.get_all_by_text(text), "by_text", text)
    }

    fn get_all_by_text(&self, text: &str) -> (r: Vec<TestElement>) {
        self.by_text(text, true)
    }

    fn get_by_text_contains(&self, text: &str) -> (r: Result<TestElement, GetOneError>) {
        get_one_inner(self.get_all_by_text_contains(text), "by_text_contains", text)
    }

    fn get_all_by_text_contains(&self, text: &str) -> (r: Vec<TestElement>) {
        self.by_text(text, false)
    }

    fn get_by_id(&self, id: &str) -> (r: Result<TestElement, GetOneError>) {
        get_one_inner(self.get_all_by_id(id), "by_id", id)
    }

    fn get_all_by_id(&self, id: &str) -> (r: Vec<TestElement>) {
        self.scan(Probe::Id(true), id)
    }

    fn get_by_id_contains(&self, id: &str) -> (r: Result<TestElement, GetOneError>) {
        get_one_inner(self.get_all_by_id_contains(id), "by_id_contains", id)
    }

    fn get_all_by_id_contains(&self, id: &str) -> (r: Vec<TestElement>) {
        self.scan(Probe::Id(false), id)
    }

    fn get_by_label(&self, text: &str) -> (r: Result<TestElement, GetOneError>) {
        get_one_inner(self.get_all_by_label(text), "by_label", text)
    }

    fn get_all_by_label(&self, text: &str) -> (r: Vec<TestElement>) {
        self.by_label(text, true)
    }

    fn get_by_label_contains(&self, text: &str) -> (r: Result<TestElement, GetOneError>) {
        get_one_inner(self.get_all_by_label_contains(text), "by_label_contains", text)
    }

    fn get_all_by_label_contains(&self, text: &str) -> (r: Vec<TestElement>) {
        self.by_label(text, false)
    }

    fn get_by_display_value(&self, value: &str) -> (r: Result<TestElement, GetOneError>) {
        get_one_inner(self.get_all_by_display_value(value), "by_display_value", value)
    }

    fn get_all_by_display_value(&self, value: &str) -> (r: Vec<TestElement>) {
        self.scan(Probe::DisplayValue, value)
    }

    fn get_by_role(&self, role: &str) -> (r: Result<TestElement, GetOneError>) {
        get_one_inner(self.get_all_by_role(role), "by_role", role)
    }

    fn get_all_by_role(&self, role: &str) -> (r: Vec<TestElement>) {
        self.scan(Probe::Role, role)
    }

    fn get_by_placeholder(&self, placeholder: &str) -> (r: Result<TestElement, GetOneError>) {
        get_one_inner(self.get_all_by_placeholder(placeholder), "by_placeholder", placeholder)
    }

    fn get_all_by_placeholder(&self, placeholder: &str) -> (r: Vec<TestElement>) {
        self.scan(Probe::Placeholder(true), placeholder)
    }

    fn get_by_placeholder_contains(&self, placeholder: &str) -> (r: Result<TestElement, GetOneError>) {
        get_one_inner(self.get_all_by_placeholder_contains(placeholder), "by_placeholder_contains", placeholder)
    }

    fn get_all_by_placeholder_contains(&self, placeholder: &str) -> (r: Vec<TestElement>) {
        self.scan(Probe::Placeholder(false), placeholder)
    }
}

/// A whole document is queried from its root element.
impl HoldsElement for Document {
    open spec fn held_nodes(&self) -> Seq<Node> {
        self@
    }

    open spec fn held_root(&self) -> int {
        0
    }

    fn element(&self) -> (r: ElementWrapper<'_>) {
        let _ = self.len();
        ElementWrapper { document: self, root: 0 }
    }
}

} // verus!
