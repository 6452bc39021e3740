use dom_testing_library::{Document, DomQuery, ElementWrapper, GetOneError, GetOneErrorTrait, TestElement};

fn body_with_wrapper() -> (Document, usize) {
    let mut doc = Document::new("body");
    let wrapper = doc.append_element(0, "div").unwrap();
    (doc, wrapper)
}

#[test]
fn by_id() {
    let (mut doc, wrapper) = body_with_wrapper();
    let div = doc.append_element(wrapper, "div").unwrap();
    let div_2 = doc.append_element(wrapper, "div").unwrap();
    doc.set_id(div, "div_1");
    {
        let renderer = ElementWrapper::new(&doc, wrapper).unwrap();
        assert!(renderer.get_by_id_contains("div").is_ok());
        assert_eq!(renderer.get_by_id_contains("div").unwrap(), TestElement(div));
    }
    doc.set_id(div_2, "div_2");
    let renderer = ElementWrapper::new(&doc, wrapper).unwrap();
    assert_ne!(TestElement(div_2), TestElement(div));
    let err = renderer.get_by_id_contains("div");
    assert!(err.is_more_than_one());
    assert_eq!(renderer.get_by_id("div_1").unwrap(), TestElement(div));
    assert!(renderer.get_by_id("div_3").is_not_found());
    assert_ne!(renderer.get_by_id("div_1").unwrap(), renderer.get_by_id("div_2").unwrap());
    assert_eq!(renderer.get_all_by_id_contains("div").len(), 2);
}

#[test]
fn by_label() {
    let (mut doc, wrapper) = body_with_wrapper();
    let div = doc.append_element(wrapper, "div").unwrap();
    let label = doc.append_element(div, "label").unwrap();
    doc.set_html_for(label, "field_1");
    doc.append_text(label, "Field One").unwrap();
    let field = doc.append_element(div, "input").unwrap();
    doc.set_id(field, "field_1");
    {
        let renderer = ElementWrapper::new(&doc, wrapper).unwrap();
        assert!(renderer.get_by_label("Field One").is_ok());
        assert!(renderer.get_by_label_contains("Field").is_ok());
        assert!(renderer.get_by_label("Fiexl").is_not_found());
        assert!(renderer.get_by_label_contains("xx").is_not_found());
    }
    let label = doc.append_element(wrapper, "label").unwrap();
    doc.set_html_for(label, "field_2");
    doc.append_text(label, "Field Two").unwrap();
    let field = doc.append_element(wrapper, "input").unwrap();
    doc.set_id(field, "field_2");
    let label = doc.append_element(wrapper, "label").unwrap();
    doc.set_html_for(label, "field_3");
    doc.append_text(label, "Field One").unwrap();
    let field = doc.append_element(wrapper, "input").unwrap();
    doc.set_id(field, "field_3");
    let renderer = ElementWrapper::new(&doc, wrapper).unwrap();
    assert!(renderer.get_by_label_contains("Field").is_more_than_one());
    assert_eq!(renderer.get_all_by_label("Field One").len(), 2);
    assert_eq!(renderer.get_all_by_label_contains("Field").len(), 3);
}

#[test]
fn by_text() {
    let (mut doc, wrapper) = body_with_wrapper();
    let div = doc.append_element(wrapper, "div").unwrap();
    doc.append_text(div, "hello").unwrap();
    {
        let renderer = ElementWrapper::new(&doc, wrapper).unwrap();
        assert!(renderer.get_by_text_contains("hello").is_ok());
    }
    let div_2 = doc.append_element(wrapper, "div").unwrap();
    doc.append_text(div_2, "hello_2").unwrap();
    let renderer = ElementWrapper::new(&doc, wrapper).unwrap();
    let err = renderer.get_by_text_contains("hello");
    assert!(err.is_more_than_one());
    assert_eq!(renderer.get_by_text("hello").unwrap(), TestElement(div));
    assert_ne!(TestElement(div_2), TestElement(div));
    assert_eq!(renderer.get_by_text("hello_2").unwrap(), TestElement(div_2));
    assert!(renderer.get_by_text("hello_3").is_not_found());
    assert_eq!(renderer.get_all_by_text_contains("hello").len(), 2);
    assert_eq!(renderer.get_all_by_text("hello").len(), 1);
}

#[test]
fn by_display_value() {
    let (mut doc, wrapper) = body_with_wrapper();
    let div = doc.append_element(wrapper, "div").unwrap();
    let label = doc.append_element(div, "label").unwrap();
    doc.set_html_for(label, "field_1");
    doc.append_text(label, "Password").unwrap();
    let field = doc.append_element(div, "input").unwrap();
    doc.set_id(field, "field_1");
    doc.set_display_value(field, "1234");
    {
        let renderer = ElementWrapper::new(&doc, wrapper).unwrap();
        let input = renderer.get_by_display_value("1234").unwrap();
        assert_eq!(input, TestElement(field));
    }
    let area = doc.append_element(div, "textarea").unwrap();
    doc.set_display_value(area, "1234");
    let renderer = ElementWrapper::new(&doc, wrapper).unwrap();
    assert_eq!(renderer.get_all_by_display_value("1234").len(), 2);
}

#[test]
fn by_role() {
    let (mut doc, wrapper) = body_with_wrapper();
    let div = doc.append_element(wrapper, "div").unwrap();
    let label = doc.append_element(div, "label").unwrap();
    doc.set_html_for(label, "field_1");
    let field = doc.append_element(div, "input").unwrap();
    doc.append_text(field, "Password").unwrap();
    doc.set_role(field, "password");
    doc.set_id(field, "field_1");
    let renderer = ElementWrapper::new(&doc, wrapper).unwrap();
    assert!(renderer.get_by_role("password").is_ok());
}

#[test]
fn by_placeholder() {
    let (mut doc, wrapper) = body_with_wrapper();
    let div = doc.append_element(wrapper, "div").unwrap();
    let label = doc.append_element(div, "label").unwrap();
    doc.set_html_for(label, "field_1");
    let field = doc.append_element(div, "input").unwrap();
    doc.set_placeholder(field, "Password");
    doc.set_id(field, "field_1");
    let renderer = ElementWrapper::new(&doc, wrapper).unwrap();
    let input = renderer.get_by_placeholder("Password").unwrap();
    assert_eq!(input, TestElement(field));
}

#[test]
fn find_component_by_text() {
    let mut doc = Document::new("body");
    let div = doc.append_element(0, "div").unwrap();
    let div_2 = doc.append_element(0, "div").unwrap();
    doc.set_id(div, "div_1");
    assert!(doc.get_by_id_contains("div").is_ok());
    assert_eq!(doc.get_by_id_contains("div").unwrap(), TestElement(div));
    doc.set_id(div_2, "div_2");
    assert_ne!(TestElement(div_2), TestElement(div));
    let err = doc.get_by_id_contains("div");
    assert_eq!(
        err,
        Err(GetOneError::MoreThanOne { method: "by_id_contains", ident: "div".to_string() })
    );
    assert_eq!(doc.get_by_id("div_1").unwrap(), TestElement(div));
    assert_eq!(
        doc.get_by_id("div_3"),
        Err(GetOneError::NotFound { ident: "div_3".to_string(), method: "by_id" })
    );
    assert_ne!(doc.get_by_id("div_1").unwrap(), doc.get_by_id("div_2").unwrap());
    assert_eq!(doc.get_all_by_id_contains("div").len(), 2);
}

#[test]
fn by_text_in_document() {
    let mut doc = Document::new("body");
    let div = doc.append_element(0, "div").unwrap();
    doc.append_text(div, "hello").unwrap();
    assert!(doc.get_by_text_contains("hello").is_ok());
    let div_2 = doc.append_element(0, "div").unwrap();
    doc.append_text(div_2, "hello_2").unwrap();
    let err = doc.get_by_text_contains("hello");
    assert!(err.is_err_and(|e| e.is_more_than_one()));
    assert_eq!(doc.get_by_text("hello").unwrap(), TestElement(div));
    assert_eq!(doc.get_by_text("hello_2").unwrap(), TestElement(div_2));
    assert!(doc.get_by_text("hello_3").is_err_and(|e| e.is_not_found()));
    assert_eq!(doc.get_all_by_text_contains("hello").len(), 2);
    assert_eq!(doc.get_all_by_text("hello").len(), 1);
}

#[test]
fn find_parents_of_matching_text() {
    let mut doc = Document::new("body");
    let wrapper = doc.append_element(0, "div").unwrap();
    let div = doc.append_element(wrapper, "div").unwrap();
    doc.append_text(div, "hello").unwrap();
    let text_nodes = dom_testing_library::get_all_text_nodes(&doc, 0);
    let results = text_nodes.find_parents_of_matching_text(&doc, "hello");
    assert_eq!(results, vec![TestElement(div)]);
}

#[test]
fn find_parents_of_containing_text() {
    let mut doc = Document::new("body");
    let wrapper = doc.append_element(0, "div").unwrap();
    let div = doc.append_element(wrapper, "div").unwrap();
    doc.append_text(div, "other").unwrap();
    let text_nodes = dom_testing_library::get_all_text_nodes(&doc, 0);
    let results = text_nodes.find_parents_of_containing_text(&doc, "other");
    assert_eq!(results, vec![TestElement(div)]);
}
