//! Finds elements of a rendered document the way a user perceives them: by
//! visible text, label, identifier, ARIA role, placeholder or displayed value.
pub mod document;
pub mod dom_query;
pub mod element_wrapper;
pub mod error;
pub mod laws;
pub mod text;

pub use document::{find_all_text_nodes, get_all_text_nodes, Document, Node, NodeKind, TestElement, TextNodes};
pub use dom_query::{DomQuery, HoldsElement};
pub use element_wrapper::ElementWrapper;
pub use error::{get_one_inner, GetOneError, GetOneErrorTrait};
