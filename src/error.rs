//! The typed failures of a query that expects exactly one element, and the
//! reducer that turns a list of matches into one element or such a failure.
use vstd::prelude::*;
use crate::document::TestElement;

verus! {

/// Why a query for exactly one element failed. `method` names the strategy
/// (`by_text`, `by_id_contains`, ...) and `ident` what was searched for.
#[derive(Debug, PartialEq)]
pub enum GetOneError {
    NotFound { method: &'static str, ident: String },
    MoreThanOne { method: &'static str, ident: String },
}

/// The sentence `message` gives for `e`.
pub open spec fn message_of(e: GetOneError) -> Seq<char> {
    match e {
        GetOneError::NotFound { method, ident } => "Not Found:Attempting to find: "@ + ident@
            + " by method "@ + method@,
        GetOneError::MoreThanOne { method, ident } => "Found more than one element by method of get_"@
            + method@ + " with input of "@ + ident@
            + ", if you were expecting more than one match see the get_all_"@ + method@
            + " version of this method instead."@,
    }
}

impl GetOneError {
    /// The strategy the failed query used.
    pub open spec fn method_view(&self) -> Seq<char> {
        match self {
            GetOneError::NotFound { method, .. } => method@,
            GetOneError::MoreThanOne { method, .. } => method@,
        }
    }

    /// What the failed query searched for.
    pub open spec fn ident_view(&self) -> Seq<char> {
        match self {
            GetOneError::NotFound { ident, .. } => ident@,
            GetOneError::MoreThanOne { ident, .. } => ident@,
        }
    }

    pub fn more_than_one(method: &'static str, ident: String) -> (r: Self)
        ensures
            r == (GetOneError::MoreThanOne { method, ident }),
    {
        GetOneError::MoreThanOne { method, ident }
    }

    pub fn not_found(method: &'static str, ident: String) -> (r: Self)
        ensures
            r == (GetOneError::NotFound { method, ident }),
    {
        GetOneError::NotFound { method, ident }
    }

    /// A sentence that tells a test's reader what failed.
    pub fn message(&self) -> (r: String)
        ensures
            r@ == message_of(*self),
    {
        match self {
            GetOneError::NotFound { method, ident } => {
                let mut r = String::from_str("Not Found:Attempting to find: ");
                r.append(ident.as_str());
                r.append(" by method ");
                r.append(method);
                r
            },
            GetOneError::MoreThanOne { method, ident } => {
                let mut r = String::from_str("Found more than one element by method of get_");
                r.append(method);
                r.append(" with input of ");
                r.append(ident.as_str());
                r.append(", if you were expecting more than one match see the get_all_");
                r.append(method);
                r.append(" version of this method instead.");
                r
            },
        }
    }
}

/// Tells the two failures apart, on an error or on the result of a query.
pub trait GetOneErrorTrait {
    spec fn not_found_spec(&self) -> bool;

    spec fn more_than_one_spec(&self) -> bool;

    fn is_not_found(&self) -> (r: bool)
        ensures
            r == self.not_found_spec(),
    ;

    fn is_more_than_one(&self) -> (r: bool)
        ensures
            r == self.more_than_one_spec(),
    ;
}

impl GetOneErrorTrait for GetOneError {
    open spec fn not_found_spec(&self) -> bool {
        self is NotFound
    }

    open spec fn more_than_one_spec(&self) -> bool {
        self is MoreThanOne
    }

    fn is_not_found(&self) -> (r: bool) {
        matches!(self, GetOneError::NotFound { .. })
    }

    fn is_more_than_one(&self) -> (r: bool) {
        matches!(self, GetOneError::MoreThanOne { .. })
    }
}

impl<T> GetOneErrorTrait for Result<T, GetOneError> {
    open spec fn not_found_spec(&self) -> bool {
        self matches Err(e) && e is NotFound
    }

    open spec fn more_than_one_spec(&self) -> bool {
        self matches Err(e) && e is MoreThanOne
    }

    fn is_not_found(&self) -> (r: bool) {
        match self {
            Ok(_) => false,
            Err(err) => matches!(err, GetOneError::NotFound { .. }),
        }
    }

    fn is_more_than_one(&self) -> (r: bool) {
        match self {
            Ok(_) => false,
            Err(err) => matches!(err, GetOneError::MoreThanOne { .. }),
        }
    }
}

/// `r` is what reducing `list` to one element gives: that element when there is
/// exactly one, `NotFound` when there is none, `MoreThanOne` otherwise; a failure
/// carries `method` and `ident`.
pub open spec fn reduced(r: Result<TestElement, GetOneError>, list: Seq<TestElement>, method: Seq<char>, ident: Seq<char>) -> bool {
    match r {
        Ok(e) => list.len() == 1 && e == list[0],
        Err(err) => {
            &&& err.method_view() == method
            &&& err.ident_view() == ident
            &&& if list.len() == 0 {
                err is NotFound
            } else {
                list.len() > 1 && err is MoreThanOne
            }
        },
    }
}

/// Reduces the matches of a query to exactly one element.
pub fn get_one_inner(list: Vec<TestElement>, method: &'static str, ident: &str) -> (r: Result<TestElement, GetOneError>)
    ensures
        reduced(r, list@, method@, ident@),
        r is Ok <==> list@.len() == 1,
{
    if list.len() > 1 {
        Err(GetOneError::more_than_one(method, String::from_str(ident)))
    } else if list.len() == 0 {
        Err(GetOneError::not_found(method, String::from_str(ident)))
    } else {
        Ok(list[0])
    }
}

} // verus!
