//! The web API's rules: who may call it, what each request asks for, and what is answered.
pub mod routes;

use vstd::prelude::*;
use vstd::string::StringExecFns;

use crate::text::{chars_of, slice_chars, string_of};

verus! {

/// The body of every API answer.
#[derive(Debug, Clone)]
pub struct ApiResponse {
    pub success: bool,
    pub message: String,
}

/// An HTTP status and the answer's body.
#[derive(Debug, Clone)]
pub struct ApiReply {
    pub status: u16,
    pub body: ApiResponse,
}

/// The answer with `status`, `success` and `message`.
pub open spec fn reply_is(r: ApiReply, status: u16, success: bool, message: Seq<char>) -> bool {
    r.status == status && r.body.success == success && r.body.message@ == message
}

pub(crate) fn make_reply(status: u16, success: bool, message: &str) -> (r: ApiReply)
    ensures
        reply_is(r, status, success, message@),
{
    ApiReply { status, body: ApiResponse { success, message: String::from_str(message) } }
}

/// The `Authorization` header that grants access: `Bearer ` and the password.
pub open spec fn expected_authorization(password: Seq<char>) -> Seq<char> {
    "Bearer "@ + password
}

/// What the authorization check answers: `None` lets the request through, a missing header
/// is 401 "Unauthorised", any other header is 403 "Forbidden".
pub open spec fn auth_refusal(header: Option<Seq<char>>, password: Seq<char>) -> Option<(u16, Seq<char>)> {
    match header {
        None => Some((401, "Unauthorised"@)),
        Some(h) => if h == expected_authorization(password) {
            None
        } else {
            Some((403, "Forbidden"@))
        },
    }
}

/// Checks the `Authorization` header (as text; a header that is not visible ASCII counts as
/// missing) against the password.
pub fn authorize(header: Option<&str>, password: &str) -> (r: Result<(), ApiReply>)
    ensures
        match auth_refusal(
            match header {
                Some(h) => Some(h@),
                None => None,
            },
            password@,
        ) {
            None => r is Ok,
            Some((status, message)) => r matches Err(e) && reply_is(e, status, false, message),
        },
{
    match header {
        None => Err(make_reply(401, false, "Unauthorised")),
        Some(h) => {
            let expected = String::from_str("Bearer ").concat(password);
            let given = String::from_str(h);
            if given == expected {
                Ok(())
            } else {
                Err(make_reply(403, false, "Forbidden"))
            }
        },
    }
}

/// The path of the embedded asset that a request path asks for: leading slashes dropped,
/// and `index.html` for the root.
pub open spec fn asset_path_spec(path: Seq<char>) -> Seq<char> {
    let p = drop_leading_slashes(path);
    if p.len() == 0 {
        "index.html"@
    } else {
        p
    }
}

/// `s` without its leading `/` characters.
pub open spec fn drop_leading_slashes(s: Seq<char>) -> Seq<char>
    decreases s.len(),
{
    if s.len() > 0 && s[0] == '/' {
        drop_leading_slashes(s.drop_first())
    } else {
        s
    }
}

proof fn lemma_drop_leading_slashes(s: Seq<char>, i: int)
    requires
        0 <= i <= s.len(),
        forall|j: int| 0 <= j < i ==> s[j] == '/',
    ensures
        drop_leading_slashes(s) == drop_leading_slashes(s.skip(i)),
    decreases i,
{
    if i > 0 {
        assert(s.skip(1) =~= s.drop_first());
        lemma_drop_leading_slashes(s.drop_first(), i - 1);
        assert(s.drop_first().skip(i - 1) =~= s.skip(i));
    } else {
        assert(s.skip(0) =~= s);
    }
}

/// The embedded asset that a request path asks for.
pub fn asset_path(path: &str) -> (r: String)
    ensures
        r@ == asset_path_spec(path@),
{
    let v = chars_of(path);
    let mut i: usize = 0;
    while i < v.len() && v[i] == '/'
        invariant
            i <= v.len(),
            forall|j: int| 0 <= j < i ==> v@[j] == '/',
        decreases v.len() - i,
    {
        i = i + 1;
    }
    proof {
        lemma_drop_leading_slashes(v@, i as int);
    }
    let rest = slice_chars(&v, i, v.len());
    assert(rest@ =~= v@.skip(i as int));
    if rest.len() == 0 {
        String::from_str("index.html")
    } else {
        string_of(&rest)
    }
}

} // verus!
