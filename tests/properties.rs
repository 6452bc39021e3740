use dom_testing_library::{
    find_all_text_nodes, get_all_text_nodes, get_one_inner, Document, DomQuery, ElementWrapper,
    GetOneError, GetOneErrorTrait, TestElement,
};

fn els(v: &[usize]) -> Vec<TestElement> {
    v.iter().map(|i| TestElement(*i)).collect()
}

#[test]
fn two_ids_sharing_a_prefix() {
    let mut doc = Document::new("body");
    let div_1 = doc.append_element(0, "div").unwrap();
    let div_2 = doc.append_element(0, "div").unwrap();
    doc.set_id(div_1, "div_1");
    doc.set_id(div_2, "div_2");
    assert_eq!(
        doc.get_by_id_contains("div"),
        Err(GetOneError::MoreThanOne { method: "by_id_contains", ident: "div".to_string() })
    );
    assert_eq!(doc.get_by_id("div_1"), Ok(TestElement(div_1)));
    assert_eq!(
        doc.get_by_id("div_3"),
        Err(GetOneError::NotFound { method: "by_id", ident: "div_3".to_string() })
    );
    assert_eq!(doc.get_all_by_id_contains("div"), els(&[div_1, div_2]));
    assert_eq!(doc.get_all_by_id("div"), els(&[]));
}

#[test]
fn hello_and_hello_2() {
    let mut doc = Document::new("body");
    let a = doc.append_element(0, "div").unwrap();
    doc.append_text(a, "hello").unwrap();
    let b = doc.append_element(0, "div").unwrap();
    doc.append_text(b, "hello_2").unwrap();
    assert_eq!(doc.get_all_by_text_contains("hello"), els(&[a, b]));
    assert_eq!(doc.get_all_by_text("hello"), els(&[a]));
    assert_eq!(
        doc.get_by_text("hello_3"),
        Err(GetOneError::NotFound { method: "by_text", ident: "hello_3".to_string() })
    );
    assert_eq!(
        doc.get_by_text_contains("hello"),
        Err(GetOneError::MoreThanOne { method: "by_text_contains", ident: "hello".to_string() })
    );
}

#[test]
fn two_labels_with_the_same_text() {
    let mut doc = Document::new("body");
    let l1 = doc.append_element(0, "label").unwrap();
    doc.set_html_for(l1, "field_1");
    doc.append_text(l1, "Field One").unwrap();
    let f1 = doc.append_element(0, "input").unwrap();
    doc.set_id(f1, "field_1");
    let l2 = doc.append_element(0, "label").unwrap();
    doc.set_html_for(l2, "field_2");
    doc.append_text(l2, "Field One").unwrap();
    let f2 = doc.append_element(0, "input").unwrap();
    doc.set_id(f2, "field_2");
    assert_eq!(
        doc.get_by_label_contains("Field"),
        Err(GetOneError::MoreThanOne { method: "by_label_contains", ident: "Field".to_string() })
    );
    assert_eq!(doc.get_all_by_label("Field One"), els(&[f1, f2]));
    assert_eq!(
        doc.get_by_label("Field One"),
        Err(GetOneError::MoreThanOne { method: "by_label", ident: "Field One".to_string() })
    );
}

#[test]
fn display_values_of_controls_only() {
    let mut doc = Document::new("body");
    let input = doc.append_element(0, "input").unwrap();
    doc.set_display_value(input, "1234");
    let area = doc.append_element(0, "textarea").unwrap();
    doc.set_display_value(area, "1234");
    let progress = doc.append_element(0, "progress").unwrap();
    doc.set_value(progress, "1234");
    let list = doc.append_element(0, "ol").unwrap();
    let item = doc.append_element(list, "li").unwrap();
    doc.set_value(item, "1234");
    assert_eq!(doc.get_all_by_display_value("1234"), els(&[input, area]));
    assert_eq!(
        doc.get_by_display_value("1234"),
        Err(GetOneError::MoreThanOne { method: "by_display_value", ident: "1234".to_string() })
    );
}

#[test]
fn select_shows_its_value() {
    let mut doc = Document::new("body");
    let select = doc.append_element(0, "select").unwrap();
    let option = doc.append_element(select, "option").unwrap();
    doc.set_value(option, "b");
    doc.set_display_value(select, "b");
    assert_eq!(doc.get_by_display_value("b"), Ok(TestElement(select)));
    assert!(doc.get_by_display_value("c").is_not_found());
}

#[test]
fn exact_text_results_have_that_text() {
    let mut doc = Document::new("body");
    let p = doc.append_element(0, "p").unwrap();
    doc.append_text(p, "hi ").unwrap();
    let b = doc.append_element(p, "b").unwrap();
    doc.append_text(b, "there").unwrap();
    let c = doc.append_element(0, "span").unwrap();
    doc.append_text(c, "there").unwrap();
    let found = doc.get_all_by_text("there");
    assert_eq!(found, els(&[b, c]));
    for e in &found {
        assert_eq!(doc.display_text(e.0), "there");
    }
    let containing = doc.get_all_by_text_contains("there");
    for e in &found {
        assert!(containing.contains(e));
    }
    assert_eq!(doc.get_all_by_text("hi there"), els(&[p]));
    assert_eq!(doc.display_text(p), "hi there");
}

#[test]
fn split_text_is_found_exactly_but_not_by_containment() {
    let mut doc = Document::new("body");
    let p = doc.append_element(0, "p").unwrap();
    doc.append_text(p, "hel").unwrap();
    let b = doc.append_element(p, "b").unwrap();
    doc.append_text(b, "lo").unwrap();
    assert_eq!(doc.get_all_by_text("hello"), els(&[p]));
    assert_eq!(doc.get_all_by_text_contains("hello"), els(&[]));
}

#[test]
fn element_with_two_matching_text_nodes_is_listed_once() {
    let mut doc = Document::new("body");
    let div = doc.append_element(0, "div").unwrap();
    doc.append_text(div, "hel").unwrap();
    doc.append_comment(div, "gap").unwrap();
    doc.append_text(div, "lo").unwrap();
    assert_eq!(doc.display_text(div), "hello");
    assert_eq!(doc.get_all_by_text("hello"), els(&[div]));
    assert_eq!(doc.get_all_by_text_contains("l"), els(&[div]));
    assert_eq!(doc.get_by_text("hello"), Ok(TestElement(div)));
}

#[test]
fn single_forms_reduce_the_all_forms() {
    let mut doc = Document::new("body");
    let a = doc.append_element(0, "input").unwrap();
    doc.set_placeholder(a, "Name");
    doc.set_role(a, "textbox");
    let b = doc.append_element(0, "textarea").unwrap();
    doc.set_placeholder(b, "Name of pet");
    doc.set_role(b, "textbox");
    let queries = ["Name", "Name of pet", "pet", "textbox", "none"];
    for q in queries {
        assert_eq!(doc.get_by_placeholder(q), get_one_inner(doc.get_all_by_placeholder(q), "by_placeholder", q));
        assert_eq!(
            doc.get_by_placeholder_contains(q),
            get_one_inner(doc.get_all_by_placeholder_contains(q), "by_placeholder_contains", q)
        );
        assert_eq!(doc.get_by_role(q), get_one_inner(doc.get_all_by_role(q), "by_role", q));
        assert_eq!(doc.get_by_text(q), get_one_inner(doc.get_all_by_text(q), "by_text", q));
        assert_eq!(doc.get_by_id(q), get_one_inner(doc.get_all_by_id(q), "by_id", q));
    }
    assert_eq!(doc.get_all_by_placeholder("Name"), els(&[a]));
    assert_eq!(doc.get_all_by_placeholder_contains("Name"), els(&[a, b]));
    assert_eq!(
        doc.get_by_placeholder_contains("Name"),
        Err(GetOneError::MoreThanOne { method: "by_placeholder_contains", ident: "Name".to_string() })
    );
    assert_eq!(doc.get_by_placeholder_contains("pet"), Ok(TestElement(b)));
    assert_eq!(doc.get_all_by_role("textbox"), els(&[a, b]));
}

#[test]
fn queries_repeat_identically() {
    let mut doc = Document::new("body");
    let l = doc.append_element(0, "label").unwrap();
    doc.set_html_for(l, "x");
    doc.append_text(l, "Name").unwrap();
    let i = doc.append_element(0, "input").unwrap();
    doc.set_id(i, "x");
    let d = doc.append_element(0, "div").unwrap();
    doc.append_text(d, "Name here").unwrap();
    assert_eq!(doc.get_all_by_text_contains("Name"), doc.get_all_by_text_contains("Name"));
    assert_eq!(doc.get_all_by_label("Name"), doc.get_all_by_label("Name"));
    assert_eq!(doc.get_all_by_id_contains("x"), doc.get_all_by_id_contains("x"));
    assert_eq!(doc.get_all_by_text_contains("Name"), els(&[l, d]));
    assert_eq!(doc.get_all_by_label("Name"), els(&[i]));
}

#[test]
fn label_pointing_at_no_control() {
    let mut doc = Document::new("body");
    let l = doc.append_element(0, "label").unwrap();
    doc.set_html_for(l, "missing");
    doc.append_text(l, "Email").unwrap();
    assert_eq!(doc.get_all_by_text("Email"), els(&[l]));
    assert_eq!(
        doc.get_by_label("Email"),
        Err(GetOneError::NotFound { method: "by_label", ident: "Email".to_string() })
    );
}

#[test]
fn label_pointing_at_two_controls() {
    let mut doc = Document::new("body");
    let l = doc.append_element(0, "label").unwrap();
    doc.set_html_for(l, "dup");
    doc.append_text(l, "Email").unwrap();
    let a = doc.append_element(0, "input").unwrap();
    doc.set_id(a, "dup");
    let b = doc.append_element(0, "input").unwrap();
    doc.set_id(b, "dup");
    assert_eq!(doc.get_all_by_label("Email"), els(&[a, b]));
    assert_eq!(
        doc.get_by_label("Email"),
        Err(GetOneError::MoreThanOne { method: "by_label", ident: "Email".to_string() })
    );
}

#[test]
fn label_without_for_and_text_outside_labels() {
    let mut doc = Document::new("body");
    let l = doc.append_element(0, "label").unwrap();
    doc.append_text(l, "Alone").unwrap();
    let d = doc.append_element(0, "div").unwrap();
    doc.set_html_for(d, "x");
    doc.append_text(d, "Alone").unwrap();
    let x = doc.append_element(0, "input").unwrap();
    doc.set_id(x, "x");
    let y = doc.append_element(0, "input").unwrap();
    assert_ne!(TestElement(x), TestElement(y));
    assert_eq!(doc.get_all_by_text("Alone"), els(&[l, d]));
    assert_eq!(doc.get_all_by_label("Alone"), els(&[]));
    assert!(doc.get_by_label("Alone").is_not_found());
}

#[test]
fn text_queries_include_the_root_and_id_queries_do_not() {
    let (doc, wrapper, inner) = {
        let mut doc = Document::new("body");
        let w = doc.append_element(0, "div").unwrap();
        doc.set_id(w, "root");
        doc.append_text(w, "top").unwrap();
        let inner = doc.append_element(w, "div").unwrap();
        doc.set_id(inner, "root_child");
        (doc, w, inner)
    };
    let renderer = ElementWrapper::new(&doc, wrapper).unwrap();
    assert_eq!(renderer.root(), TestElement(wrapper));
    assert_eq!(renderer.document().len(), doc.len());
    assert_eq!(renderer.get_all_by_text("top"), els(&[wrapper]));
    assert_eq!(renderer.get_all_by_id("root"), els(&[]));
    assert_eq!(renderer.get_all_by_id_contains("root"), els(&[inner]));
    assert_eq!(renderer.get_all_by_id_contains(""), els(&[inner]));
}

#[test]
fn queries_stay_inside_the_subtree() {
    let mut doc = Document::new("body");
    let left = doc.append_element(0, "section").unwrap();
    let a = doc.append_element(left, "span").unwrap();
    doc.append_text(a, "item").unwrap();
    let right = doc.append_element(0, "section").unwrap();
    let b = doc.append_element(right, "span").unwrap();
    doc.append_text(b, "item").unwrap();
    let l = ElementWrapper::new(&doc, left).unwrap();
    let r = ElementWrapper::new(&doc, right).unwrap();
    assert_eq!(l.get_by_text("item"), Ok(TestElement(a)));
    assert_eq!(r.get_by_text("item"), Ok(TestElement(b)));
    assert!(doc.get_by_text("item").is_more_than_one());
    assert!(ElementWrapper::new(&doc, 99).is_none());
}

#[test]
fn role_matches_exactly() {
    let mut doc = Document::new("body");
    let a = doc.append_element(0, "input").unwrap();
    doc.set_role(a, "password");
    let b = doc.append_element(0, "div").unwrap();
    doc.set_role(b, "");
    let c = doc.append_element(0, "div").unwrap();
    assert_ne!(TestElement(c), TestElement(b));
    assert!(doc.get_by_role("pass").is_not_found());
    assert_eq!(doc.get_by_role("password"), Ok(TestElement(a)));
    assert_eq!(doc.get_all_by_role(""), els(&[b]));
}

#[test]
fn placeholder_only_on_text_fields() {
    let mut doc = Document::new("body");
    let d = doc.append_element(0, "div").unwrap();
    doc.set_placeholder(d, "Search");
    let s = doc.append_element(0, "select").unwrap();
    doc.set_placeholder(s, "Search");
    let t = doc.append_element(0, "textarea").unwrap();
    doc.set_placeholder(t, "Search here");
    assert!(doc.get_by_placeholder("Search").is_not_found());
    assert_eq!(doc.get_by_placeholder_contains("Search"), Ok(TestElement(t)));
}

#[test]
fn appending_only_to_open_elements() {
    let mut doc = Document::new("body");
    let a = doc.append_element(0, "div").unwrap();
    let t = doc.append_text(a, "x").unwrap();
    assert_eq!(doc.append_element(t, "span"), None);
    let c = doc.append_comment(a, "note").unwrap();
    assert_eq!(doc.append_text(c, "y"), None);
    let b = doc.append_element(0, "div").unwrap();
    assert_eq!(doc.append_element(a, "span"), None);
    assert_eq!(doc.append_element(42, "span"), None);
    assert_eq!(doc.len(), 5);
    assert_eq!(doc.append_element(b, "span"), Some(5));
    assert_eq!(doc.node(5).depth, 2);
    assert_eq!(doc.parent(5), Some(b));
    assert_eq!(doc.parent(0), None);
    assert_eq!(doc.subtree_end(a), b);
    assert_eq!(doc.subtree_end(0), 6);
}

#[test]
fn text_nodes_in_document_order() {
    let mut doc = Document::new("body");
    let a = doc.append_element(0, "div").unwrap();
    let t1 = doc.append_text(a, "one").unwrap();
    doc.append_comment(a, "skip").unwrap();
    let b = doc.append_element(a, "b").unwrap();
    let t2 = doc.append_text(b, "two").unwrap();
    let t3 = doc.append_text(0, "three").unwrap();
    assert_eq!(get_all_text_nodes(&doc, 0).0, vec![t1, t2, t3]);
    assert_eq!(get_all_text_nodes(&doc, a).0, vec![t1, t2]);
    assert_eq!(get_all_text_nodes(&doc, t3).0, vec![t3]);
    let mut acc = vec![7];
    find_all_text_nodes(&doc, b, &mut acc);
    assert_eq!(acc, vec![7, t2]);
    assert_eq!(get_all_text_nodes(&doc, 0).join_text(&doc, ", "), "one, two, three");
    assert_eq!(doc.display_text(0), "onetwothree");
    assert_eq!(doc.display_text(a), "onetwo");
}

#[test]
fn reducer_outcomes() {
    assert_eq!(
        get_one_inner(vec![], "by_x", "q"),
        Err(GetOneError::NotFound { method: "by_x", ident: "q".to_string() })
    );
    assert_eq!(get_one_inner(els(&[3]), "by_x", "q"), Ok(TestElement(3)));
    assert_eq!(
        get_one_inner(els(&[3, 4]), "by_x", "q"),
        Err(GetOneError::MoreThanOne { method: "by_x", ident: "q".to_string() })
    );
}

#[test]
fn error_kinds_and_messages() {
    let nf = GetOneError::not_found("by_id", "a".to_string());
    let mto = GetOneError::more_than_one("by_id", "a".to_string());
    assert!(nf.is_not_found() && !nf.is_more_than_one());
    assert!(mto.is_more_than_one() && !mto.is_not_found());
    let ok: Result<TestElement, GetOneError> = Ok(TestElement(1));
    assert!(!ok.is_not_found() && !ok.is_more_than_one());
    assert_eq!(nf.message(), "Not Found:Attempting to find: a by method by_id");
    assert_eq!(
        mto.message(),
        "Found more than one element by method of get_by_id with input of a, if you were expecting more than one match see the get_all_by_id version of this method instead."
    );
}

#[test]
fn case_sensitive_literal_matching() {
    let mut doc = Document::new("body");
    let a = doc.append_element(0, "div").unwrap();
    doc.append_text(a, "Hello (world)").unwrap();
    assert!(doc.get_by_text_contains("hello").is_not_found());
    assert_eq!(doc.get_by_text_contains("(world)"), Ok(TestElement(a)));
    assert_eq!(doc.get_by_text_contains("o (w"), Ok(TestElement(a)));
    assert!(doc.get_by_text("Hello").is_not_found());
    let b = doc.append_element(0, "div").unwrap();
    doc.append_text(b, "héllo wörld").unwrap();
    assert_eq!(doc.get_by_text_contains("wö"), Ok(TestElement(b)));
}

#[test]
fn containing_text_results_in_document_order() {
    let mut doc = Document::new("body");
    let p = doc.append_element(0, "p").unwrap();
    let b = doc.append_element(p, "b").unwrap();
    doc.append_text(b, "hello").unwrap();
    doc.append_text(p, " hello").unwrap();
    assert_eq!(doc.get_all_by_text_contains("hello"), els(&[p, b]));
    let text_nodes = get_all_text_nodes(&doc, 0);
    assert_eq!(text_nodes.find_parents_of_containing_text(&doc, "hello"), els(&[p, b]));
}

#[test]
fn exact_text_results_in_document_order() {
    let mut doc = Document::new("body");
    let a = doc.append_element(0, "div").unwrap();
    let b = doc.append_element(a, "b").unwrap();
    doc.append_text(b, "x").unwrap();
    doc.append_text(a, "").unwrap();
    assert_eq!(doc.get_all_by_text("x"), els(&[a, b]));
    let text_nodes = get_all_text_nodes(&doc, 0);
    assert_eq!(text_nodes.find_parents_of_matching_text(&doc, "x"), els(&[a, b]));
}

#[test]
fn element_listed_once_for_several_text_nodes() {
    let mut doc = Document::new("body");
    let p = doc.append_element(0, "p").unwrap();
    doc.append_text(p, "a").unwrap();
    doc.append_comment(p, "").unwrap();
    doc.append_text(p, "b").unwrap();
    assert_eq!(doc.get_all_by_text("ab"), els(&[p]));
    let d = doc.append_element(0, "div").unwrap();
    doc.append_text(d, "hello ").unwrap();
    let b = doc.append_element(d, "b").unwrap();
    doc.append_text(b, "x").unwrap();
    doc.append_text(d, " hello").unwrap();
    assert_eq!(doc.get_all_by_text_contains("hello"), els(&[d]));
}

#[test]
fn wrapper_root_must_be_an_element() {
    let mut doc = Document::new("body");
    let t = doc.append_text(0, "words").unwrap();
    let c = doc.append_comment(0, "note").unwrap();
    assert!(ElementWrapper::new(&doc, t).is_none());
    assert!(ElementWrapper::new(&doc, c).is_none());
    assert!(ElementWrapper::new(&doc, 0).is_some());
}
