//! Properties that relate the queries to one another.
use vstd::prelude::*;
use crate::document::{
    is_element, led_by, lemma_parents_below, lemma_parents_matching_member, parent_index, parent_of, rendered_text, text_nodes_of,
    text_qualifies, Node, TestElement,
};
use crate::dom_query::{
    all_by_display_value, all_by_id, all_by_label, all_by_placeholder, all_by_role, all_by_text,
    label_targets, only_labels, targets_of,
};
use crate::error::{reduced, GetOneError};
use crate::text::{contains, lemma_contains_self};

verus! {

/// Element `e` is the parent of a text node of the subtree of `root`.
pub open spec fn holds_text_of(nodes: Seq<Node>, root: int, e: int) -> bool {
    exists|k: int|
        0 <= k < text_nodes_of(nodes, root).len()
            && parent_of(nodes, #[trigger] text_nodes_of(nodes, root)[k] as int) == Some(e as usize)
}

/// A text query lists its elements in document order, each once.
pub proof fn law_text_results_in_document_order(nodes: Seq<Node>, root: int, q: Seq<char>, exact: bool)
    requires
        nodes.len() <= usize::MAX,
    ensures
        forall|a: int, b: int|
            #![trigger all_by_text(nodes, root, q, exact)[a], all_by_text(nodes, root, q, exact)[b]]
            0 <= a < b < all_by_text(nodes, root, q, exact).len()
                ==> all_by_text(nodes, root, q, exact)[a].0 < all_by_text(nodes, root, q, exact)[b].0,
        all_by_text(nodes, root, q, exact).no_duplicates(),
{
    let texts = text_nodes_of(nodes, root);
    let res = all_by_text(nodes, root, q, exact);
    lemma_parents_below(nodes, texts, q, exact, nodes.len() as int);
    assert forall|a: int, b: int| 0 <= a < res.len() && 0 <= b < res.len() && a != b implies res[a] != res[b] by {
        if a < b {
            assert(res[a].0 < res[b].0);
        } else {
            assert(res[b].0 < res[a].0);
        }
    }
}

/// An exact text query lists each element that directly holds a text node of
/// the queried subtree and whose rendered text is the query, and nothing else.
pub proof fn law_text_exact_finds_equal_text(nodes: Seq<Node>, root: int, q: Seq<char>)
    requires
        nodes.len() <= usize::MAX,
    ensures
        forall|e: TestElement| #[trigger] all_by_text(nodes, root, q, true).contains(e) <==> {
            &&& e.0 < nodes.len()
            &&& is_element(nodes[e.0 as int])
            &&& holds_text_of(nodes, root, e.0 as int)
            &&& rendered_text(nodes, e.0 as int) == q
        },
{
    let texts = text_nodes_of(nodes, root);
    lemma_parents_below(nodes, texts, q, true, nodes.len() as int);
    assert forall|e: TestElement| #[trigger] all_by_text(nodes, root, q, true).contains(e) <==> {
        &&& e.0 < nodes.len()
        &&& is_element(nodes[e.0 as int])
        &&& holds_text_of(nodes, root, e.0 as int)
        &&& rendered_text(nodes, e.0 as int) == q
    } by {
        if all_by_text(nodes, root, q, true).contains(e) {
            assert(led_by(nodes, texts, q, true, e.0 as int));
            let k = choose|k: int|
                0 <= k < texts.len() && k < texts.len() && text_qualifies(nodes, #[trigger] texts[k] as int, q, true)
                    && parent_index(nodes, texts[k] as int) == e.0 as int;
            assert(parent_of(nodes, texts[k] as int) == Some(e.0));
        }
        if e.0 < nodes.len() && is_element(nodes[e.0 as int]) && holds_text_of(nodes, root, e.0 as int)
            && rendered_text(nodes, e.0 as int) == q {
            let k = choose|k: int|
                0 <= k < texts.len() && parent_of(nodes, #[trigger] texts[k] as int) == Some(e.0);
            assert(text_qualifies(nodes, texts[k] as int, q, true));
            assert(led_by(nodes, texts, q, true, e.0 as int));
        }
    }
}

/// Element `e` is the parent of a text node of the subtree of `root` whose own
/// text contains `q`.
pub open spec fn holds_text_containing(nodes: Seq<Node>, root: int, e: int, q: Seq<char>) -> bool {
    exists|j: int|
        0 <= j < text_nodes_of(nodes, root).len()
            && parent_of(nodes, #[trigger] text_nodes_of(nodes, root)[j] as int) == Some(e as usize)
            && contains(nodes[text_nodes_of(nodes, root)[j] as int].data@, q)
}

/// Where each element whose rendered text is the query holds the query in one
/// of its own text nodes (its text is not split across several nodes), every
/// element an exact text query finds is found by the containing query too.
pub proof fn law_text_exact_within_contains(nodes: Seq<Node>, root: int, q: Seq<char>)
    requires
        nodes.len() <= usize::MAX,
        forall|e: int|
            0 <= e < nodes.len() && is_element(nodes[e]) && #[trigger] holds_text_of(nodes, root, e)
                && rendered_text(nodes, e) == q ==> holds_text_containing(nodes, root, e, q),
    ensures
        forall|e: TestElement| #[trigger] all_by_text(nodes, root, q, true).contains(e)
            ==> all_by_text(nodes, root, q, false).contains(e),
{
    let texts = text_nodes_of(nodes, root);
    assert forall|e: TestElement| #[trigger] all_by_text(nodes, root, q, true).contains(e)
        implies all_by_text(nodes, root, q, false).contains(e) by {
        lemma_parents_matching_member(nodes, texts, q, true, e);
        lemma_parents_matching_member(nodes, texts, q, false, e);
        let x = e.0 as int;
        assert(led_by(nodes, texts, q, true, x));
        let k = choose|k: int|
            0 <= k < texts.len() && k < texts.len() && text_qualifies(nodes, #[trigger] texts[k] as int, q, true)
                && parent_index(nodes, texts[k] as int) == x;
        assert(parent_of(nodes, texts[k] as int) == Some(e.0));
        assert(holds_text_of(nodes, root, x));
        assert(holds_text_containing(nodes, root, x, q));
        let j = choose|j: int|
            0 <= j < texts.len() && parent_of(nodes, #[trigger] texts[j] as int) == Some(e.0)
                && contains(nodes[texts[j] as int].data@, q);
        lemma_contains_self(q);
        assert(text_qualifies(nodes, texts[j] as int, q, false));
        assert(led_by(nodes, texts, q, false, x));
    }
}

/// Reducing one list with one strategy and query has one outcome: the same
/// element, or the same kind of failure.
pub proof fn law_reduction_is_determined(
    r1: Result<TestElement, GetOneError>,
    r2: Result<TestElement, GetOneError>,
    list: Seq<TestElement>,
    method: Seq<char>,
    ident: Seq<char>,
)
    requires
        reduced(r1, list, method, ident),
        reduced(r2, list, method, ident),
    ensures
        r1 is Ok <==> r2 is Ok,
        r1 matches Ok(e1) ==> (r2 matches Ok(e2) && e1 == e2),
        r1 matches Err(x1) ==> (r2 matches Err(x2) && (x1 is NotFound <==> x2 is NotFound)
            && x1.method_view() == x2.method_view() && x1.ident_view() == x2.ident_view()),
{
}

/// Every `all` query is a function of the document's nodes, the root and the
/// query: asked twice of the same unchanged document it lists the same elements
/// in the same order.
pub proof fn law_queries_repeatable(n1: Seq<Node>, n2: Seq<Node>, root: int, q: Seq<char>, exact: bool)
    requires
        n1 == n2,
    ensures
        all_by_text(n1, root, q, exact) == all_by_text(n2, root, q, exact),
        all_by_id(n1, root, q, exact) == all_by_id(n2, root, q, exact),
        all_by_label(n1, root, q, exact) == all_by_label(n2, root, q, exact),
        all_by_placeholder(n1, root, q, exact) == all_by_placeholder(n2, root, q, exact),
        all_by_display_value(n1, root, q) == all_by_display_value(n2, root, q),
        all_by_role(n1, root, q) == all_by_role(n2, root, q),
{
}

/// When the label text matches one label only, the label query lists just the
/// controls that label points to; so the single-result query fails with
/// `NotFound` when no control carries the label's identifier and with
/// `MoreThanOne` when two or more do.
pub proof fn law_single_label_resolution(
    nodes: Seq<Node>,
    root: int,
    q: Seq<char>,
    exact: bool,
    label: TestElement,
    r: Result<TestElement, GetOneError>,
    method: Seq<char>,
)
    requires
        only_labels(nodes, all_by_text(nodes, root, q, exact)) == seq![label],
        reduced(r, all_by_label(nodes, root, q, exact), method, q),
    ensures
        all_by_label(nodes, root, q, exact) == targets_of(nodes, root, label),
        nodes[label.0 as int].html_for@.len() > 0 ==> all_by_label(nodes, root, q, exact) == all_by_id(
            nodes,
            root,
            nodes[label.0 as int].html_for@,
            true,
        ),
        targets_of(nodes, root, label).len() == 0 ==> (r matches Err(e) && e is NotFound),
        targets_of(nodes, root, label).len() >= 2 ==> (r matches Err(e) && e is MoreThanOne),
{
    let labels = seq![label];
    assert(labels.drop_last() =~= Seq::<TestElement>::empty());
    assert(label_targets(nodes, root, labels) == label_targets(nodes, root, Seq::<TestElement>::empty())
        + targets_of(nodes, root, label));
    assert(label_targets(nodes, root, labels) =~= targets_of(nodes, root, label));
}

} // verus!
