//! The caller's identity, as the authorization rules read it: a plain
//! claims record with the principal's object id, application roles,
//! granted scopes and email. Verifying a bearer token against the
//! identity provider happens outside; this module only consumes the
//! claims such a verification yields.

use vstd::prelude::*;

use crate::error::APIError;
use crate::strutil::{first_token, leading_word, split_sep, split_sep_exec, str_eq, str_views};

verus! {

/// The extra claims the identity provider places in a token.
pub struct AuthAdditionalClaims {
    pub oid: String,
    pub roles: Vec<String>,
    pub scp: String,
    pub unique_name: String,
}

/// A verified caller: the claims plus the display name the token carried.
pub struct AuthToken {
    pub claims: AuthAdditionalClaims,
    pub display_name: String,
}

impl AuthToken {
    /// The principal's object id, as the identity provider renders it.
    pub fn oid(&self) -> (r: &str)
        ensures
            r@ == self.claims.oid@,
    {
        self.claims.oid.as_str()
    }

    /// The display name, or the empty string when the token had none.
    pub fn name(&self) -> (r: String)
        ensures
            r@ == self.display_name@,
    {
        self.display_name.clone()
    }

    pub fn roles(&self) -> (r: &Vec<String>)
        ensures
            r == &self.claims.roles,
    {
        &self.claims.roles
    }

    /// The granted scopes: the space-separated pieces of the scp claim.
    pub fn scopes(&self) -> (r: Vec<String>)
        ensures
            str_views(r@) == split_sep(self.claims.scp@, ' '),
    {
        split_sep_exec(self.claims.scp.as_str(), ' ')
    }

    pub fn email(&self) -> (r: &str)
        ensures
            r@ == self.claims.unique_name@,
    {
        self.claims.unique_name.as_str()
    }
}

/// Whether the caller carries one of the two application roles every
/// operation demands.
pub open spec fn has_required_role(token: AuthToken) -> bool {
    exists|i: int|
        0 <= i < token.claims.roles@.len() && ((#[trigger] token.claims.roles@[i])@
            == "Administrator"@ || token.claims.roles@[i]@ == "User"@)
}

/// The check behind the role requirement on every operation: the caller
/// must be an Administrator or a User.
pub fn check_required_role(token: &AuthToken) -> (r: bool)
    ensures
        r == has_required_role(*token),
{
    let roles = token.roles();
    let mut i: usize = 0;
    while i < roles.len()
        invariant
            roles == &token.claims.roles,
            i <= roles@.len(),
            forall|j: int|
                0 <= j < i ==> !((#[trigger] roles@[j])@ == "Administrator"@ || roles@[j]@
                    == "User"@),
        decreases roles@.len() - i,
    {
        if str_eq(roles[i].as_str(), "Administrator") || str_eq(roles[i].as_str(), "User") {
            return true;
        }
        i += 1;
    }
    false
}

/// Whether the caller's client was granted a scope.
pub open spec fn has_scope(token: AuthToken, scope: Seq<char>) -> bool {
    split_sep(token.claims.scp@, ' ').contains(scope)
}

/// The check behind the scope requirement on an operation.
pub fn check_scope(token: &AuthToken, scope: &str) -> (r: bool)
    ensures
        r == has_scope(*token, scope@),
{
    let scopes = token.scopes();
    let ghost pieces = split_sep(token.claims.scp@, ' ');
    let mut i: usize = 0;
    while i < scopes.len()
        invariant
            str_views(scopes@) == pieces,
            pieces == split_sep(token.claims.scp@, ' '),
            i <= scopes@.len(),
            forall|j: int| 0 <= j < i ==> pieces[j] != scope@,
        decreases scopes@.len() - i,
    {
        if str_eq(scopes[i].as_str(), scope) {
            proof {
                assert(pieces[i as int] == str_views(scopes@)[i as int]);
                assert(pieces.contains(scope@));
            }
            return true;
        }
        i += 1;
    }
    proof {
        assert(forall|j: int| 0 <= j < pieces.len() ==> pieces[j] != scope@);
    }
    false
}

/// The forbidden error a missing application role produces.
pub fn missing_role_error() -> (r: APIError)
    ensures
        r.code == 403,
        r.error@ == "Forbidden"@,
{
    APIError::new(
        403,
        "Forbidden",
        "You are not authorized to perform this action. Please contact your administrator for permission before trying again.",
    )
}

/// The forbidden error a missing scope produces.
pub fn missing_scope_error() -> (r: APIError)
    ensures
        r.code == 403,
        r.error@ == "Forbidden"@,
{
    APIError::new(
        403,
        "Forbidden",
        "Your client has not been granted permission to access this resource. Please request the necessary access scopes and try again.",
    )
}

/// Whether a header authorizes a bearer: it must start with the Bearer
/// marker and a second whitespace-separated piece must follow.
pub open spec fn bearer_of(header: Seq<char>) -> Seq<char> {
    first_token(header.skip(7))
}

/// Pulls the credential out of an Authorization header: everything
/// between "Bearer " and the next space. A header without the marker,
/// or with nothing after it, is unauthorized.
pub fn bearer_token(header: &str) -> (r: Result<String, APIError>)
    ensures
        r is Ok <==> header@.len() >= 7 && header@.take(7) == "Bearer "@ && bearer_of(
            header@,
        ).len() > 0,
        match r {
            Ok(t) => t@ == bearer_of(header@),
            Err(e) => e.code == 401,
        },
{
    let len = header.unicode_len();
    if len < 7 {
        return Err(APIError::unauthorized());
    }
    let mut i: usize = 0;
    let marker = "Bearer ";
    proof {
        reveal_strlit("Bearer ");
    }
    while i < 7
        invariant
            len == header@.len(),
            len >= 7,
            i <= 7,
            marker@ == "Bearer "@,
            marker@.len() == 7,
            forall|j: int| 0 <= j < i ==> header@[j] == marker@[j],
        decreases 7 - i,
    {
        if header.get_char(i) != marker.get_char(i) {
            return Err(APIError::unauthorized());
        }
        i += 1;
    }
    proof {
        assert(header@.take(7) =~= marker@);
    }
    let rest = header.substring_char(7, len);
    proof {
        assert(rest@ =~= header@.skip(7));
    }
    let tok = leading_word(rest);
    if tok.as_str().is_empty() {
        Err(APIError::unauthorized())
    } else {
        Ok(tok)
    }
}

} // verus!
