//! The request-context side of the contact service: the caller's
//! identity as the middleware attaches it, and the small decisions
//! the endpoints make over headers. Fetching key sets and decoding
//! tokens are the shell's work.

use vstd::prelude::*;
use vstd::string::*;
use crate::text::starts_with;

verus! {

/// The caller's identity, as the middleware attaches it to a request.
#[derive(Debug, Clone)]
pub struct UserContext {
    pub user_id: String,
}

/// The bearer token of an authorization header: what follows the
/// bearer prefix, when the header carries one.
pub fn bearer_token(auth_header: &str) -> (r: Option<String>)
    ensures
        starts_with(auth_header@, "Bearer "@) ==> (r matches Some(t) && t@ == auth_header@.skip(
            "Bearer "@.len() as int,
        )),
        !starts_with(auth_header@, "Bearer "@) ==> r is None,
{
    crate::text::strip_prefix_str(auth_header, "Bearer ")
}

/// The request's language: the language header's value, or `es` when
/// the request carries none.
pub fn language_or_default(header: Option<String>) -> (r: String)
    ensures
        match header {
            Some(h) => r@ == h@,
            None => r@ == "es"@,
        },
{
    match header {
        Some(h) => h,
        None => String::from_str("es"),
    }
}

/// The acting user: the attached identity's id, or `anonymous` when
/// the middleware attached none.
pub fn user_id_or_anonymous(ctx: Option<&UserContext>) -> (r: String)
    ensures
        match ctx {
            Some(c) => r@ == c.user_id@,
            None => r@ == "anonymous"@,
        },
{
    match ctx {
        Some(c) => c.user_id.clone(),
        None => String::from_str("anonymous"),
    }
}

/// The listing endpoint's required parameters: the hierarchy, page
/// and size, each demanded in that order, with a bad-request error
/// naming the first one missing.
pub fn require_paging_params(q: &crate::model::QueryParams) -> (r: Result<
    (i32, i32, i32),
    crate::error::HierarchyContactException,
>)
    ensures
        match r {
            Ok(t) => q.hierarchy == Some(t.0) && q.page == Some(t.1) && q.size == Some(t.2),
            Err(e) => match e {
                crate::error::HierarchyContactException::BadRequest(m) => {
                    if q.hierarchy is None {
                        m@ == "Missing hierarchyId"@
                    } else if q.page is None {
                        m@ == "Missing page"@
                    } else {
                        q.size is None && m@ == "Missing size"@
                    }
                },
                _ => false,
            },
        },
{
    let hierarchy = match q.hierarchy {
        Some(h) => h,
        None => {
            return Err(
                crate::error::HierarchyContactException::BadRequest(
                    String::from_str("Missing hierarchyId"),
                ),
            )
        },
    };
    let page = match q.page {
        Some(p) => p,
        None => {
            return Err(
                crate::error::HierarchyContactException::BadRequest(
                    String::from_str("Missing page"),
                ),
            )
        },
    };
    let size = match q.size {
        Some(s) => s,
        None => {
            return Err(
                crate::error::HierarchyContactException::BadRequest(
                    String::from_str("Missing size"),
                ),
            )
        },
    };
    Ok((hierarchy, page, size))
}

} // verus!
