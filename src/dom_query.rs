//! The query facade: what each strategy finds, and the traits through which any
//! holder of a document root gains every query.
use vstd::prelude::*;
use crate::document::{
    has_tag, is_element, is_form_control, is_text_field, parents_matching, subtree_end,
    text_nodes_of, Node, TestElement,
};
use crate::element_wrapper::ElementWrapper;
use crate::error::{reduced, GetOneError};
use crate::text::text_matches;

verus! {

/// A test on one element's attributes or value.
#[derive(Clone, Copy, Debug, PartialEq, Eq, Structural)]
pub enum Probe {
    /// The identifier equals (`true`) or contains (`false`) the query.
    Id(bool),
    /// The `role` attribute is present and equals the query.
    Role,
    /// A text field whose placeholder equals (`true`) or contains (`false`) the query.
    Placeholder(bool),
    /// A form control that displays exactly the query.
    DisplayValue,
}

/// Node `n` passes `probe` for query `q`.
pub open spec fn probe_holds(probe: Probe, n: Node, q: Seq<char>) -> bool {
    match probe {
        Probe::Id(exact) => is_element(n) && text_matches(n.id@, q, exact),
        Probe::Role => is_element(n) && (n.role matches Some(role) && role@ == q),
        Probe::Placeholder(exact) => is_text_field(n) && text_matches(n.placeholder@, q, exact),
        Probe::DisplayValue => is_form_control(n) && n.value@ == q,
    }
}

/// The nodes among positions `lo .. hi` that pass `probe`, in document order.
pub open spec fn select(nodes: Seq<Node>, lo: int, hi: int, probe: Probe, q: Seq<char>) -> Seq<TestElement>
    decreases hi - lo,
{
    if hi <= lo {
        seq![]
    } else {
        let prev = select(nodes, lo, hi - 1, probe, q);
        if probe_holds(probe, nodes[hi - 1], q) {
            prev.push(TestElement((hi - 1) as usize))
        } else {
            prev
        }
    }
}

/// The descendants of `root` (`root` itself excluded) that pass `probe`, in
/// document order.
pub open spec fn select_below(nodes: Seq<Node>, root: int, probe: Probe, q: Seq<char>) -> Seq<TestElement> {
    select(nodes, root + 1, subtree_end(nodes, root), probe, q)
}

/// Elements under `root` whose identifier equals (`exact`) or contains `q`.
pub open spec fn all_by_id(nodes: Seq<Node>, root: int, q: Seq<char>, exact: bool) -> Seq<TestElement> {
    select_below(nodes, root, Probe::Id(exact), q)
}

/// Elements under `root` whose `role` attribute is `q`.
pub open spec fn all_by_role(nodes: Seq<Node>, root: int, q: Seq<char>) -> Seq<TestElement> {
    select_below(nodes, root, Probe::Role, q)
}

/// Inputs and textareas under `root` whose placeholder equals (`exact`) or
/// contains `q`.
pub open spec fn all_by_placeholder(nodes: Seq<Node>, root: int, q: Seq<char>, exact: bool) -> Seq<TestElement> {
    select_below(nodes, root, Probe::Placeholder(exact), q)
}

/// Inputs, textareas and selects under `root` that display `q`.
pub open spec fn all_by_display_value(nodes: Seq<Node>, root: int, q: Seq<char>) -> Seq<TestElement> {
    select_below(nodes, root, Probe::DisplayValue, q)
}

/// Elements of the subtree of `root` (`root` included) found through their
/// text nodes: rendered text equal to `q` (`exact`), or own and rendered text
/// both containing it. Listed in document order, each once.
pub open spec fn all_by_text(nodes: Seq<Node>, root: int, q: Seq<char>, exact: bool) -> Seq<TestElement> {
    parents_matching(nodes, text_nodes_of(nodes, root), q, exact)
}

/// The label elements of `list`, in order.
pub open spec fn only_labels(nodes: Seq<Node>, list: Seq<TestElement>) -> Seq<TestElement>
    decreases list.len(),
{
    if list.len() == 0 {
        seq![]
    } else {
        let prev = only_labels(nodes, list.drop_last());
        if has_tag(nodes[list.last().0 as int], "label"@) {
            prev.push(list.last())
        } else {
            prev
        }
    }
}

/// The controls that label `l` points to: the elements under `root` whose
/// identifier is the label's `for` attribute. A label without one points to none.
pub open spec fn targets_of(nodes: Seq<Node>, root: int, l: TestElement) -> Seq<TestElement> {
    let target = nodes[l.0 as int].html_for@;
    if target.len() == 0 {
        seq![]
    } else {
        all_by_id(nodes, root, target, true)
    }
}

/// The controls the labels of `labels` point to, label by label.
pub open spec fn label_targets(nodes: Seq<Node>, root: int, labels: Seq<TestElement>) -> Seq<TestElement>
    decreases labels.len(),
{
    if labels.len() == 0 {
        seq![]
    } else {
        label_targets(nodes, root, labels.drop_last()) + targets_of(nodes, root, labels.last())
    }
}

/// The controls described by the labels whose text equals (`exact`) or contains
/// `q`. Each label is resolved on its own, to every control that carries its
/// `for` identifier; one that resolves to none adds nothing.
pub open spec fn all_by_label(nodes: Seq<Node>, root: int, q: Seq<char>, exact: bool) -> Seq<TestElement> {
    label_targets(nodes, root, only_labels(nodes, all_by_text(nodes, root, q, exact)))
}

/// Every query, over the subtree of one root element.
///
/// Each `get_all_by_*` lists its matches and never fails; each `get_by_*` is its
/// `get_all_by_*` reduced to exactly one element by `get_one_inner`, tagged with
/// its own strategy name.
pub trait DomQuery {
    /// The document queried.
    spec fn query_nodes(&self) -> Seq<Node>;

    /// The position of the root element queried.
    spec fn query_root(&self) -> int;

    /// The element whose rendered text is exactly `text`.
    fn get_by_text(&self, text: &str) -> (r: Result<TestElement, GetOneError>)
        ensures
            reduced(r, all_by_text(self.query_nodes(), self.query_root(), text@, true), "by_text"@, text@),
    ;

    /// The elements whose rendered text is exactly `text`.
    fn get_all_by_text(&self, text: &str) -> (r: Vec<TestElement>)
        ensures
            r@ == all_by_text(self.query_nodes(), self.query_root(), text@, true),
    ;

    /// The element whose text contains `text`.
    fn get_by_text_contains(&self, text: &str) -> (r: Result<TestElement, GetOneError>)
        ensures
            reduced(r, all_by_text(self.query_nodes(), self.query_root(), text@, false), "by_text_contains"@, text@),
    ;

    /// The elements whose text contains `text`.
    fn get_all_by_text_contains(&self, text: &str) -> (r: Vec<TestElement>)
        ensures
            r@ == all_by_text(self.query_nodes(), self.query_root(), text@, false),
    ;

    /// The element whose identifier is `id`.
    fn get_by_id(&self, id: &str) -> (r: Result<TestElement, GetOneError>)
        ensures
            reduced(r, all_by_id(self.query_nodes(), self.query_root(), id@, true), "by_id"@, id@),
    ;

    /// The elements whose identifier is `id`.
    fn get_all_by_id(&self, id: &str) -> (r: Vec<TestElement>)
        ensures
            r@ == all_by_id(self.query_nodes(), self.query_root(), id@, true),
    ;

    /// The element whose identifier contains `id`.
    fn get_by_id_contains(&self, id: &str) -> (r: Result<TestElement, GetOneError>)
        ensures
            reduced(r, all_by_id(self.query_nodes(), self.query_root(), id@, false), "by_id_contains"@, id@),
    ;

    /// The elements whose identifier contains `id`.
    fn get_all_by_id_contains(&self, id: &str) -> (r: Vec<TestElement>)
        ensures
            r@ == all_by_id(self.query_nodes(), self.query_root(), id@, false),
    ;

    /// The control described by the label whose text is exactly `text`.
    ///
    /// Each matching label is resolved on its own to every control whose
    /// identifier is its `for` attribute; a label whose target is missing adds
    /// nothing instead of failing the query. A failure is reported as this
    /// query's own (`by_label` with the label text), not as the failure of an
    /// identifier lookup.
    fn get_by_label(&self, text: &str) -> (r: Result<TestElement, GetOneError>)
        ensures
            reduced(r, all_by_label(self.query_nodes(), self.query_root(), text@, true), "by_label"@, text@),
    ;

    /// The controls described by the labels whose text is exactly `text`, label
    /// by label. A label whose target is missing adds nothing.
    fn get_all_by_label(&self, text: &str) -> (r: Vec<TestElement>)
        ensures
            r@ == all_by_label(self.query_nodes(), self.query_root(), text@, true),
    ;

    /// The control described by the label whose text contains `text`.
    ///
    /// Labels are resolved as for `get_by_label`; a failure is reported as
    /// `by_label_contains` with the label text, not as the failure of an
    /// identifier lookup.
    fn get_by_label_contains(&self, text: &str) -> (r: Result<TestElement, GetOneError>)
        ensures
            reduced(r, all_by_label(self.query_nodes(), self.query_root(), text@, false), "by_label_contains"@, text@),
    ;

    /// The controls described by the labels whose text contains `text`.
    fn get_all_by_label_contains(&self, text: &str) -> (r: Vec<TestElement>)
        ensures
            r@ == all_by_label(self.query_nodes(), self.query_root(), text@, false),
    ;

    /// The input, textarea or select that displays `value`.
    fn get_by_display_value(&self, value: &str) -> (r: Result<TestElement, GetOneError>)
        ensures
            reduced(r, all_by_display_value(self.query_nodes(), self.query_root(), value@), "by_display_value"@, value@),
    ;

    /// The inputs, textareas and selects that display `value`.
    fn get_all_by_display_value(&self, value: &str) -> (r: Vec<TestElement>)
        ensures
            r@ == all_by_display_value(self.query_nodes(), self.query_root(), value@),
    ;

    /// The element whose ARIA role is `role`.
    fn get_by_role(&self, role: &str) -> (r: Result<TestElement, GetOneError>)
        ensures
            reduced(r, all_by_role(self.query_nodes(), self.query_root(), role@), "by_role"@, role@),
    ;

    /// The elements whose ARIA role is `role`.
    fn get_all_by_role(&self, role: &str) -> (r: Vec<TestElement>)
        ensures
            r@ == all_by_role(self.query_nodes(), self.query_root(), role@),
    ;

    /// The input or textarea whose placeholder is exactly `placeholder`.
    fn get_by_placeholder(&self, placeholder: &str) -> (r: Result<TestElement, GetOneError>)
        ensures
            reduced(r, all_by_placeholder(self.query_nodes(), self.query_root(), placeholder@, true), "by_placeholder"@, placeholder@),
    ;

    /// The inputs and textareas whose placeholder is exactly `placeholder`.
    fn get_all_by_placeholder(&self, placeholder: &str) -> (r: Vec<TestElement>)
        ensures
            r@ == all_by_placeholder(self.query_nodes(), self.query_root(), placeholder@, true),
    ;

    /// The input or textarea whose placeholder contains `placeholder`.
    fn get_by_placeholder_contains(&self, placeholder: &str) -> (r: Result<TestElement, GetOneError>)
        ensures
            reduced(r, all_by_placeholder(self.query_nodes(), self.query_root(), placeholder@, false), "by_placeholder_contains"@, placeholder@),
    ;

    /// The inputs and textareas whose placeholder contains `placeholder`.
    fn get_all_by_placeholder_contains(&self, placeholder: &str) -> (r: Vec<TestElement>)
        ensures
            r@ == all_by_placeholder(self.query_nodes(), self.query_root(), placeholder@, false),
    ;
}

/// Anything that holds a root element to query. Implementing it gives every
/// query of `DomQuery`, run on the element it hands out.
pub trait HoldsElement {
    /// The document of the element handed out.
    spec fn held_nodes(&self) -> Seq<Node>;

    /// The position of the element handed out.
    spec fn held_root(&self) -> int;

    fn element(&self) -> (r: ElementWrapper<'_>)
        ensures
            r.nodes() == self.held_nodes(),
            r.root_index() == self.held_root(),
    ;
}

impl<T: HoldsElement> DomQuery for T {
    open spec fn query_nodes(&self) -> Seq<Node> {
        self.held_nodes()
    }

    open spec fn query_root(&self) -> int {
        self.held_root()
    }

    fn get_by_text(&self, text: &str) -> (r: Result<TestElement, GetOneError>) {
        self.element().get_by_text(text)
    }

    fn get_all_by_text(&self, text: &str) -> (r: Vec<TestElement>) {
        self.element().get_all_by_text(text)
    }

    fn get_by_text_contains(&self, text: &str) -> (r: Result<TestElement, GetOneError>) {
        self.element().get_by_text_contains(text)
    }

    fn get_all_by_text_contains(&self, text: &str) -> (r: Vec<TestElement>) {
        self.element().get_all_by_text_contains(text)
    }

    fn get_by_id(&self, id: &str) -> (r: Result<TestElement, GetOneError>) {
        self.element().get_by_id(id)
    }

    fn get_all_by_id(&self, id: &str) -> (r: Vec<TestElement>) {
        self.element().get_all_by_id(id)
    }

    fn get_by_id_contains(&self, id: &str) -> (r: Result<TestElement, GetOneError>) {
        self.element().get_by_id_contains(id)
    }

    fn get_all_by_id_contains(&self, id: &str) -> (r: Vec<TestElement>) {
        self.element().get_all_by_id_contains(id)
    }

    fn get_by_label(&self, text: &str) -> (r: Result<TestElement, GetOneError>) {
        self.element().get_by_label(text)
    }

    fn get_all_by_label(&self, text: &str) -> (r: Vec<TestElement>) {
        self.element().get_all_by_label(text)
    }

    fn get_by_label_contains(&self, text: &str) -> (r: Result<TestElement, GetOneError>) {
        self.element().get_by_label_contains(text)
    }

    fn get_all_by_label_contains(&self, text: &str) -> (r: Vec<TestElement>) {
        self.element().get_all_by_label_contains(text)
    }

    fn get_by_display_value(&self, value: &str) -> (r: Result<TestElement, GetOneError>) {
        self.element().get_by_display_value(value)
    }

    fn get_all_by_display_value(&self, value: &str) -> (r: Vec<TestElement>) {
        self.element().get_all_by_display_value(value)
    }

    fn get_by_role(&self, role: &str) -> (r: Result<TestElement, GetOneError>) {
        self.element().get_by_role(role)
    }

    fn get_all_by_role(&self, role: &str) -> (r: Vec<TestElement>) {
        self.element().get_all_by_role(role)
    }

    fn get_by_placeholder(&self, placeholder: &str) -> (r: Result<TestElement, GetOneError>) {
        self.element().get_by_placeholder(placeholder)
    }

    fn get_all_by_placeholder(&self, placeholder: &str) -> (r: Vec<TestElement>) {
        self.element().get_all_by_placeholder(placeholder)
    }

    fn get_by_placeholder_contains(&self, placeholder: &str) -> (r: Result<TestElement, GetOneError>) {
        self.element().get_by_placeholder_contains(placeholder)
    }

    fn get_all_by_placeholder_contains(&self, placeholder: &str) -> (r: Vec<TestElement>) {
        self.element().get_all_by_placeholder_contains(placeholder)
    }
}

} // verus!
