//! The operation flows behind the API: each function is the decision
//! core of one route, from the caller's claims and plain arguments to a
//! store operation, with the role, scope, identifier and authorization
//! checks the route performs, in the order it performs them.

use vstd::prelude::*;

use crate::auth::{AuthToken, check_required_role, check_scope, has_required_role, has_scope,
    missing_role_error, missing_scope_error};
use crate::error::APIError;
use crate::ident::{id_of, id_ok, parse_uuid};
use crate::memory::{MemoryStore, matching_ideas};
use crate::models::{
    Collection, GetCollection, GetCollections, GetIdea, GetIdeas, GetRandomIdea,
    GetRoleAssignment, GetRoleAssignments, GetUser, Idea, IdeaView, RemoveCollection, RemoveIdea,
    RemoveRoleAssignment, Role, RoleAssignment, StoreCollection, StoreIdea, StoreRoleAssignment,
    User, tag_set, tags_wf,
};
use crate::rules::{
    can_write, ensure_user_collection, provisioned, provisioned_accounts, role_allows_write,
    token_email_hash, token_uid, token_uid_ok,
};
use crate::table::{find_at, has_partition, opt_view, remove_spec};

verus! {

/// An optional tag and an optional completion flag, as a listing route
/// receives them.
pub struct QueryFilter {
    pub tag: Option<String>,
    pub complete: Option<bool>,
}

/// Whether the caller may use a route at all: an application role and
/// the route's scope.
pub open spec fn authorized(token: AuthToken, scope: Seq<char>) -> bool {
    has_required_role(token) && has_scope(token, scope)
}

/// The role stored for a principal on a collection, if any.
pub open spec fn role_at(s: Seq<RoleAssignment>, cid: u128, uid: u128) -> Option<Role> {
    match find_at(s, cid, uid) {
        Some(a) => Some(a.role),
        None => None,
    }
}

/// The role a principal effectively holds on a collection once their
/// account is provisioned: their own collection always answers Owner,
/// since provisioning grants it; any other collection keeps what the
/// role table already held.
pub open spec fn effective_role(s: Seq<RoleAssignment>, cid: u128, uid: u128) -> Option<Role> {
    if cid == uid {
        Some(Role::Owner)
    } else {
        role_at(s, cid, uid)
    }
}

/// Whether the effective role allows writing.
pub open spec fn effective_write_ok(s: Seq<RoleAssignment>, cid: u128, uid: u128) -> bool {
    match effective_role(s, cid, uid) {
        Some(role) => role_allows_write(role),
        None => false,
    }
}

/// Away from the caller's own provisioning rows — their default
/// collection, their role on it, their user record — the account tables
/// come through an idea route unchanged, whatever the outcome.
pub open spec fn accounts_framed(
    pre: MemoryStore,
    post: MemoryStore,
    uid: u128,
    eh: u128,
) -> bool {
    &&& (forall|pk: u128, rk: u128|
        !(pk == uid && rk == uid) ==> find_at(post.role_rows(), pk, rk) == find_at(
            pre.role_rows(),
            pk,
            rk,
        ))
    &&& (forall|pk: u128, rk: u128|
        !(pk == uid && rk == uid) ==> find_at(post.collection_rows(), pk, rk) == find_at(
            pre.collection_rows(),
            pk,
            rk,
        ))
    &&& (forall|pk: u128, rk: u128|
        !(pk == eh && rk == eh) ==> find_at(post.user_rows(), pk, rk) == find_at(
            pre.user_rows(),
            pk,
            rk,
        ))
}

/// Every route's gate: the caller must hold an application role and the
/// route's scope, in that order of checking.
fn check_access(token: &AuthToken, scope: &str) -> (r: Result<(), APIError>)
    ensures
        match r {
            Ok(_) => authorized(*token, scope@),
            Err(e) => e.code == 403 && !authorized(*token, scope@),
        },
{
    if !check_required_role(token) {
        return Err(missing_role_error());
    }
    if !check_scope(token, scope) {
        return Err(missing_scope_error());
    }
    Ok(())
}

/// Reads one idea out of the caller's own collection.
pub fn get_idea(store: &MemoryStore, token: &AuthToken, id: &str) -> (r: Result<Idea, APIError>)
    requires
        store.wf(),
    ensures
        ({
            let ok_in = authorized(*token, "Ideas.Read"@) && id_ok(id@) && token_uid_ok(*token)
                && find_at(store.idea_rows(), token_uid(*token), id_of(id@)) is Some;
            &&& (r is Ok <==> ok_in)
            &&& (r matches Ok(i) ==> opt_view(
                find_at(store.idea_rows(), token_uid(*token), id_of(id@)),
            ) == Some(i@))
            &&& (r matches Err(e) ==> {
                &&& (!authorized(*token, "Ideas.Read"@) ==> e.code == 403)
                &&& (authorized(*token, "Ideas.Read"@) && !(id_ok(id@) && token_uid_ok(*token))
                    ==> e.code == 400 && e.error@ == "Bad Request"@)
                &&& (authorized(*token, "Ideas.Read"@) && id_ok(id@) && token_uid_ok(*token)
                    ==> e.code == 404)
            })
        }),
{
    match check_access(token, "Ideas.Read") {
        Ok(_) => {},
        Err(e) => {
            return Err(e);
        },
    }
    let idv = match parse_uuid(id, "idea ID") {
        Ok(v) => v,
        Err(e) => {
            return Err(e);
        },
    };
    let uid = match parse_uuid(token.oid(), "auth token oid") {
        Ok(v) => v,
        Err(e) => {
            return Err(e);
        },
    };
    store.get_idea(GetIdea { id: idv, collection: uid })
}

/// Reads one idea out of the caller's own collection, provisioning the
/// caller's account first.
pub fn get_idea_v3(store: &mut MemoryStore, token: &AuthToken, id: &str) -> (r: Result<
    Idea,
    APIError,
>)
    requires
        old(store).wf(),
    ensures
        final(store).wf(),
        ({
            let ok_in = authorized(*token, "Ideas.Read"@) && id_ok(id@) && token_uid_ok(*token)
                && find_at(old(store).idea_rows(), token_uid(*token), id_of(id@)) is Some;
            &&& (r is Ok <==> ok_in)
            &&& final(store).idea_rows() == old(store).idea_rows()
            &&& (r matches Ok(i) ==> provisioned(
                *old(store),
                *final(store),
                token_uid(*token),
                token_email_hash(*token),
                token.display_name@,
            ) && opt_view(find_at(old(store).idea_rows(), token_uid(*token), id_of(id@)))
                == Some(i@))
            &&& accounts_framed(
                *old(store),
                *final(store),
                token_uid(*token),
                token_email_hash(*token),
            )
            &&& (r matches Err(e) ==> {
                &&& (!authorized(*token, "Ideas.Read"@) ==> e.code == 403 && *final(store)
                    == *old(store))
                &&& (authorized(*token, "Ideas.Read"@) && !(id_ok(id@) && token_uid_ok(*token))
                    ==> e.code == 400 && e.error@ == "Bad Request"@
                    && *final(store) == *old(store))
                &&& (authorized(*token, "Ideas.Read"@) && id_ok(id@) && token_uid_ok(*token)
                    ==> {
                    &&& e.code == 404
                    &&& !has_partition(old(store).idea_rows(), token_uid(*token)) ==> e.message@
                        == "The collection ID you provided could not be found. Please check it and try again."@
                    &&& has_partition(old(store).idea_rows(), token_uid(*token)) ==> e.message@
                        == "The idea ID you provided could not be found. Please check it and try again."@
                })
            })
        }),
{
    match check_access(token, "Ideas.Read") {
        Ok(_) => {},
        Err(e) => {
            return Err(e);
        },
    }
    let idv = match parse_uuid(id, "idea ID") {
        Ok(v) => v,
        Err(e) => {
            return Err(e);
        },
    };
    let uid = match parse_uuid(token.oid(), "auth token oid") {
        Ok(v) => v,
        Err(e) => {
            return Err(e);
        },
    };
    match ensure_user_collection(store, token) {
        Ok(_) => {},
        Err(e) => {
            return Err(e);
        },
    }
    store.get_idea(GetIdea { id: idv, collection: uid })
}

/// Reads one idea out of a named collection: the caller needs any role
/// assignment on that collection.
pub fn get_collection_idea_v3(
    store: &mut MemoryStore,
    token: &AuthToken,
    collection: &str,
    id: &str,
) -> (r: Result<Idea, APIError>)
    requires
        old(store).wf(),
    ensures
        final(store).wf(),
        final(store).idea_rows() == old(store).idea_rows(),
        accounts_framed(*old(store), *final(store), token_uid(*token), token_email_hash(*token)),
        ({
            let auth = authorized(*token, "Ideas.Read"@);
            let parses = id_ok(id@) && id_ok(collection@) && token_uid_ok(*token);
            let erole = effective_role(
                old(store).role_rows(),
                id_of(collection@),
                token_uid(*token),
            );
            let ok_in = auth && parses && erole is Some && find_at(
                old(store).idea_rows(),
                id_of(collection@),
                id_of(id@),
            ) is Some;
            &&& (r is Ok <==> ok_in)
            &&& (r matches Ok(i) ==> provisioned(
                *old(store),
                *final(store),
                token_uid(*token),
                token_email_hash(*token),
                token.display_name@,
            ) && opt_view(find_at(old(store).idea_rows(), id_of(collection@), id_of(id@)))
                == Some(i@))
            &&& (r matches Err(e) ==> {
                &&& (!auth ==> e.code == 403 && *final(store) == *old(store))
                &&& (auth && !parses ==> e.code == 400 && e.error@ == "Bad Request"@
                    && *final(store) == *old(store))
                &&& (auth && parses && erole is None ==> e.code == 403)
                &&& (auth && parses && erole is Some ==> e.code == 404)
            })
        }),
{
    match check_access(token, "Ideas.Read") {
        Ok(_) => {},
        Err(e) => {
            return Err(e);
        },
    }
    let idv = match parse_uuid(id, "idea ID") {
        Ok(v) => v,
        Err(e) => {
            return Err(e);
        },
    };
    let cid = match parse_uuid(collection, "collection ID") {
        Ok(v) => v,
        Err(e) => {
            return Err(e);
        },
    };
    let uid = match parse_uuid(token.oid(), "auth token oid") {
        Ok(v) => v,
        Err(e) => {
            return Err(e);
        },
    };
    match ensure_user_collection(store, token) {
        Ok(_) => {},
        Err(e) => {
            return Err(e);
        },
    }
    let ghost mid = *store;
    let role = store.get_role_assignment(GetRoleAssignment { collection_id: cid, principal_id: uid });
    proof {
        if cid != uid {
            assert(find_at(mid.role_rows(), cid, uid) == find_at(old(store).role_rows(), cid, uid));
        }
    }
    match role {
        Ok(_) => {},
        Err(e) => {
            return Err(e);
        },
    }
    store.get_idea(GetIdea { id: idv, collection: cid })
}

/// Removes one idea from the caller's own collection.
pub fn remove_idea(store: &mut MemoryStore, token: &AuthToken, id: &str) -> (r: Result<
    (),
    APIError,
>)
    requires
        old(store).wf(),
    ensures
        final(store).wf(),
        final(store).collection_rows() == old(store).collection_rows(),
        final(store).role_rows() == old(store).role_rows(),
        final(store).user_rows() == old(store).user_rows(),
        ({
            let ok_in = authorized(*token, "Ideas.Write"@) && id_ok(id@) && token_uid_ok(*token)
                && find_at(old(store).idea_rows(), token_uid(*token), id_of(id@)) is Some;
            &&& (r is Ok <==> ok_in)
            &&& (ok_in ==> final(store).idea_rows() == remove_spec(
                old(store).idea_rows(),
                token_uid(*token),
                id_of(id@),
            ))
            &&& (!ok_in ==> final(store).idea_rows() == old(store).idea_rows())
            &&& (r matches Err(e) ==> {
                &&& (!authorized(*token, "Ideas.Write"@) ==> e.code == 403)
                &&& (authorized(*token, "Ideas.Write"@) && !(id_ok(id@) && token_uid_ok(*token))
                    ==> e.code == 400 && e.error@ == "Bad Request"@)
                &&& (authorized(*token, "Ideas.Write"@) && id_ok(id@) && token_uid_ok(*token)
                    ==> e.code == 404)
            })
        }),
{
    match check_access(token, "Ideas.Write") {
        Ok(_) => {},
        Err(e) => {
            return Err(e);
        },
    }
    let idv = match parse_uuid(id, "idea ID") {
        Ok(v) => v,
        Err(e) => {
            return Err(e);
        },
    };
    let uid = match parse_uuid(token.oid(), "auth token oid") {
        Ok(v) => v,
        Err(e) => {
            return Err(e);
        },
    };
    store.remove_idea(RemoveIdea { collection: uid, id: idv })
}

/// Removes one idea from a named collection: the caller's role there
/// must allow writes.
pub fn remove_collection_idea_v3(
    store: &mut MemoryStore,
    token: &AuthToken,
    collection: &str,
    id: &str,
) -> (r: Result<(), APIError>)
    requires
        old(store).wf(),
    ensures
        final(store).wf(),
        accounts_framed(*old(store), *final(store), token_uid(*token), token_email_hash(*token)),
        ({
            let auth = authorized(*token, "Ideas.Write"@);
            let parses = id_ok(id@) && id_ok(collection@) && token_uid_ok(*token);
            let erole = effective_role(
                old(store).role_rows(),
                id_of(collection@),
                token_uid(*token),
            );
            let write_ok = effective_write_ok(
                old(store).role_rows(),
                id_of(collection@),
                token_uid(*token),
            );
            let ok_in = auth && parses && write_ok && find_at(
                old(store).idea_rows(),
                id_of(collection@),
                id_of(id@),
            ) is Some;
            &&& (r is Ok <==> ok_in)
            &&& (ok_in ==> final(store).idea_rows() == remove_spec(
                old(store).idea_rows(),
                id_of(collection@),
                id_of(id@),
            ))
            &&& (!ok_in ==> final(store).idea_rows() == old(store).idea_rows())
            &&& (r is Ok ==> provisioned_accounts(
                *old(store),
                *final(store),
                token_uid(*token),
                token_email_hash(*token),
                token.display_name@,
            ))
            &&& (r matches Err(e) ==> {
                &&& (!auth ==> e.code == 403 && *final(store) == *old(store))
                &&& (auth && !parses ==> e.code == 400 && e.error@ == "Bad Request"@
                    && *final(store) == *old(store))
                &&& (auth && parses && erole is None ==> e.code == 403)
                &&& (auth && parses && erole is Some && !write_ok ==> e.code == 403 && e.message@
                    == "You do not have permission to remove an idea from this collection."@)
                &&& (auth && parses && write_ok ==> e.code == 404)
            })
        }),
{
    match check_access(token, "Ideas.Write") {
        Ok(_) => {},
        Err(e) => {
            return Err(e);
        },
    }
    let idv = match parse_uuid(id, "idea ID") {
        Ok(v) => v,
        Err(e) => {
            return Err(e);
        },
    };
    let cid = match parse_uuid(collection, "collection ID") {
        Ok(v) => v,
        Err(e) => {
            return Err(e);
        },
    };
    let uid = match parse_uuid(token.oid(), "auth token oid") {
        Ok(v) => v,
        Err(e) => {
            return Err(e);
        },
    };
    match ensure_user_collection(store, token) {
        Ok(_) => {},
        Err(e) => {
            return Err(e);
        },
    }
    let ghost mid = *store;
    let looked_up = store.get_role_assignment(
        GetRoleAssignment { collection_id: cid, principal_id: uid },
    );
    proof {
        if cid != uid {
            assert(find_at(mid.role_rows(), cid, uid) == find_at(old(store).role_rows(), cid, uid));
        }
    }
    let role = match looked_up {
        Ok(a) => a,
        Err(e) => {
            return Err(e);
        },
    };
    if can_write(role.role) {
        store.remove_idea(RemoveIdea { collection: cid, id: idv })
    } else {
        Err(
            APIError::new(
                403,
                "Forbidden",
                "You do not have permission to remove an idea from this collection.",
            ),
        )
    }
}

/// Lists the ideas of the caller's own collection that pass the filter.
pub fn get_ideas(store: &MemoryStore, token: &AuthToken, filter: QueryFilter) -> (r: Result<
    Vec<Idea>,
    APIError,
>)
    requires
        store.wf(),
    ensures
        ({
            let ok_in = authorized(*token, "Ideas.Read"@) && token_uid_ok(*token) && has_partition(
                store.idea_rows(),
                token_uid(*token),
            );
            &&& (r is Ok <==> ok_in)
            &&& (r matches Ok(v) ==> crate::table::views_of(v@) == crate::table::views_of(
                matching_ideas(
                    store.idea_rows(),
                    token_uid(*token),
                    filter.tag,
                    filter.complete,
                ),
            ))
            &&& (r matches Err(e) ==> {
                &&& (!authorized(*token, "Ideas.Read"@) ==> e.code == 403)
                &&& (authorized(*token, "Ideas.Read"@) && !token_uid_ok(*token) ==> e.code == 400
                    && e.error@ == "Bad Request"@)
                &&& (authorized(*token, "Ideas.Read"@) && token_uid_ok(*token) ==> e.code == 404)
            })
        }),
{
    match check_access(token, "Ideas.Read") {
        Ok(_) => {},
        Err(e) => {
            return Err(e);
        },
    }
    let uid = match parse_uuid(token.oid(), "auth token oid") {
        Ok(v) => v,
        Err(e) => {
            return Err(e);
        },
    };
    store.get_ideas(GetIdeas { collection: uid, tag: filter.tag, is_completed: filter.complete })
}

/// Lists the caller's own ideas, provisioning their account first. A
/// caller who has stored no idea yet still reads not-found.
pub fn get_ideas_v3(store: &mut MemoryStore, token: &AuthToken, filter: QueryFilter) -> (r: Result<
    Vec<Idea>,
    APIError,
>)
    requires
        old(store).wf(),
    ensures
        final(store).wf(),
        final(store).idea_rows() == old(store).idea_rows(),
        ({
            let ok_in = authorized(*token, "Ideas.Read"@) && token_uid_ok(*token) && has_partition(
                old(store).idea_rows(),
                token_uid(*token),
            );
            &&& (r is Ok <==> ok_in)
            &&& accounts_framed(
                *old(store),
                *final(store),
                token_uid(*token),
                token_email_hash(*token),
            )
            &&& (r matches Ok(v) ==> provisioned(
                *old(store),
                *final(store),
                token_uid(*token),
                token_email_hash(*token),
                token.display_name@,
            ) && crate::table::views_of(v@) == crate::table::views_of(
                matching_ideas(
                    old(store).idea_rows(),
                    token_uid(*token),
                    filter.tag,
                    filter.complete,
                ),
            ))
            &&& (r matches Err(e) ==> {
                &&& (!authorized(*token, "Ideas.Read"@) ==> e.code == 403 && *final(store)
                    == *old(store))
                &&& (authorized(*token, "Ideas.Read"@) && !token_uid_ok(*token) ==> e.code == 400
                    && e.error@ == "Bad Request"@ && *final(store) == *old(store))
                &&& (authorized(*token, "Ideas.Read"@) && token_uid_ok(*token) ==> e.code == 404)
            })
        }),
{
    match check_access(token, "Ideas.Read") {
        Ok(_) => {},
        Err(e) => {
            return Err(e);
        },
    }
    let uid = match parse_uuid(token.oid(), "auth token oid") {
        Ok(v) => v,
        Err(e) => {
            return Err(e);
        },
    };
    match ensure_user_collection(store, token) {
        Ok(_) => {},
        Err(e) => {
            return Err(e);
        },
    }
    match store.get_role_assignment(GetRoleAssignment { principal_id: uid, collection_id: uid }) {
        Ok(_) => {},
        Err(e) => {
            return Err(e);
        },
    }
    store.get_ideas(GetIdeas { collection: uid, tag: filter.tag, is_completed: filter.complete })
}

/// Lists a named collection's ideas: the caller needs any role
/// assignment on it.
pub fn get_collection_ideas_v3(
    store: &mut MemoryStore,
    token: &AuthToken,
    collection: &str,
    filter: QueryFilter,
) -> (r: Result<Vec<Idea>, APIError>)
    requires
        old(store).wf(),
    ensures
        final(store).wf(),
        final(store).idea_rows() == old(store).idea_rows(),
        ({
            let auth = authorized(*token, "Ideas.Read"@);
            let parses = id_ok(collection@) && token_uid_ok(*token);
            let erole = effective_role(
                old(store).role_rows(),
                id_of(collection@),
                token_uid(*token),
            );
            let ok_in = auth && parses && erole is Some && has_partition(
                old(store).idea_rows(),
                id_of(collection@),
            );
            &&& (r is Ok <==> ok_in)
            &&& accounts_framed(
                *old(store),
                *final(store),
                token_uid(*token),
                token_email_hash(*token),
            )
            &&& (r matches Ok(v) ==> provisioned(
                *old(store),
                *final(store),
                token_uid(*token),
                token_email_hash(*token),
                token.display_name@,
            ) && crate::table::views_of(v@) == crate::table::views_of(
                matching_ideas(
                    old(store).idea_rows(),
                    id_of(collection@),
                    filter.tag,
                    filter.complete,
                ),
            ))
            &&& (r matches Err(e) ==> {
                &&& (!auth ==> e.code == 403 && *final(store) == *old(store))
                &&& (auth && !parses ==> e.code == 400 && e.error@ == "Bad Request"@
                    && *final(store) == *old(store))
                &&& (auth && parses && erole is None ==> e.code == 403)
                &&& (auth && parses && erole is Some ==> e.code == 404)
            })
        }),
{
    match check_access(token, "Ideas.Read") {
        Ok(_) => {},
        Err(e) => {
            return Err(e);
        },
    }
    let cid = match parse_uuid(collection, "collection ID") {
        Ok(v) => v,
        Err(e) => {
            return Err(e);
        },
    };
    let uid = match parse_uuid(token.oid(), "auth token oid") {
        Ok(v) => v,
        Err(e) => {
            return Err(e);
        },
    };
    match ensure_user_collection(store, token) {
        Ok(_) => {},
        Err(e) => {
            return Err(e);
        },
    }
    let ghost mid = *store;
    let looked_up = store.get_role_assignment(
        GetRoleAssignment { principal_id: uid, collection_id: cid },
    );
    proof {
        if cid != uid {
            assert(find_at(mid.role_rows(), cid, uid) == find_at(old(store).role_rows(), cid, uid));
        }
    }
    match looked_up {
        Ok(_) => {},
        Err(e) => {
            return Err(e);
        },
    }
    store.get_ideas(GetIdeas { collection: cid, tag: filter.tag, is_completed: filter.complete })
}

/// Draws one idea at random from the caller's own filtered ideas.
#[verifier::rlimit(30)]
pub fn get_random_idea(store: &MemoryStore, token: &AuthToken, filter: QueryFilter) -> (r: Result<
    Idea,
    APIError,
>)
    requires
        store.wf(),
    ensures
        ({
            let m = matching_ideas(
                store.idea_rows(),
                token_uid(*token),
                filter.tag,
                filter.complete,
            );
            let ok_in = authorized(*token, "Ideas.Read"@) && token_uid_ok(*token) && m.len() != 0;
            &&& (r is Ok <==> ok_in)
            &&& (r matches Ok(i) ==> exists|k: int| 0 <= k < m.len() && i@ == (#[trigger] m[k])@)
            &&& (r matches Err(e) ==> {
                &&& (!authorized(*token, "Ideas.Read"@) ==> e.code == 403)
                &&& (authorized(*token, "Ideas.Read"@) && !token_uid_ok(*token) ==> e.code == 400
                    && e.error@ == "Bad Request"@)
                &&& (authorized(*token, "Ideas.Read"@) && token_uid_ok(*token) ==> e.code == 404)
            })
        }),
{
    match check_access(token, "Ideas.Read") {
        Ok(_) => {},
        Err(e) => {
            return Err(e);
        },
    }
    let uid = match parse_uuid(token.oid(), "auth token oid") {
        Ok(v) => v,
        Err(e) => {
            return Err(e);
        },
    };
    let ghost gtag = filter.tag;
    let ghost gcomp = filter.complete;
    let ghost m = matching_ideas(store.idea_rows(), uid, gtag, gcomp);
    let out = store.get_random_idea(
        GetRandomIdea { collection: uid, tag: filter.tag, is_completed: filter.complete },
    );
    proof {
        if out is Err {
            if !has_partition(store.idea_rows(), uid) {
                crate::table::lemma_partition_empty(store.idea_rows(), uid);
                Seq::lemma_filter_len(
                    crate::table::partition_of(store.idea_rows(), uid),
                    crate::memory::matches_query(gtag, gcomp),
                );
            }
            assert(m.len() == 0);
        } else {
            assert(m.len() != 0);
        }
    }
    out
}

/// Draws one idea at random from the caller's own filtered ideas,
/// provisioning their account first.
pub fn get_random_idea_v3(store: &mut MemoryStore, token: &AuthToken, filter: QueryFilter) -> (r:
    Result<Idea, APIError>)
    requires
        old(store).wf(),
    ensures
        final(store).wf(),
        final(store).idea_rows() == old(store).idea_rows(),
        ({
            let m = matching_ideas(
                old(store).idea_rows(),
                token_uid(*token),
                filter.tag,
                filter.complete,
            );
            let ok_in = authorized(*token, "Ideas.Read"@) && token_uid_ok(*token) && m.len() != 0;
            &&& (r is Ok <==> ok_in)
            &&& accounts_framed(
                *old(store),
                *final(store),
                token_uid(*token),
                token_email_hash(*token),
            )
            &&& (r matches Ok(i) ==> provisioned(
                *old(store),
                *final(store),
                token_uid(*token),
                token_email_hash(*token),
                token.display_name@,
            ) && (exists|k: int| 0 <= k < m.len() && i@ == (#[trigger] m[k])@))
            &&& (r matches Err(e) ==> {
                &&& (!authorized(*token, "Ideas.Read"@) ==> e.code == 403 && *final(store)
                    == *old(store))
                &&& (authorized(*token, "Ideas.Read"@) && !token_uid_ok(*token) ==> e.code == 400
                    && e.error@ == "Bad Request"@ && *final(store) == *old(store))
                &&& (authorized(*token, "Ideas.Read"@) && token_uid_ok(*token) ==> e.code == 404)
            })
        }),
{
    match check_access(token, "Ideas.Read") {
        Ok(_) => {},
        Err(e) => {
            return Err(e);
        },
    }
    let uid = match parse_uuid(token.oid(), "auth token oid") {
        Ok(v) => v,
        Err(e) => {
            return Err(e);
        },
    };
    match ensure_user_collection(store, token) {
        Ok(_) => {},
        Err(e) => {
            return Err(e);
        },
    }
    match store.get_role_assignment(GetRoleAssignment { principal_id: uid, collection_id: uid }) {
        Ok(_) => {},
        Err(e) => {
            return Err(e);
        },
    }
    let ghost gtag = filter.tag;
    let ghost gcomp = filter.complete;
    let ghost m = matching_ideas(store.idea_rows(), uid, gtag, gcomp);
    let out = store.get_random_idea(
        GetRandomIdea { collection: uid, tag: filter.tag, is_completed: filter.complete },
    );
    proof {
        if out is Err {
            if !has_partition(store.idea_rows(), uid) {
                crate::table::lemma_partition_empty(store.idea_rows(), uid);
                Seq::lemma_filter_len(
                    crate::table::partition_of(store.idea_rows(), uid),
                    crate::memory::matches_query(gtag, gcomp),
                );
            }
            assert(m.len() == 0);
        } else {
            assert(m.len() != 0);
        }
    }
    out
}

/// Draws one idea at random from a named collection's filtered ideas:
/// the caller needs any role assignment on it.
pub fn get_random_collection_idea_v3(
    store: &MemoryStore,
    token: &AuthToken,
    collection: &str,
    filter: QueryFilter,
) -> (r: Result<Idea, APIError>)
    requires
        store.wf(),
    ensures
        ({
            let m = matching_ideas(
                store.idea_rows(),
                id_of(collection@),
                filter.tag,
                filter.complete,
            );
            let auth = authorized(*token, "Ideas.Read"@);
            let parses = id_ok(collection@) && token_uid_ok(*token);
            let held = role_at(store.role_rows(), id_of(collection@), token_uid(*token));
            let ok_in = auth && parses && held is Some && m.len() != 0;
            &&& (r is Ok <==> ok_in)
            &&& (r matches Ok(i) ==> exists|k: int| 0 <= k < m.len() && i@ == (#[trigger] m[k])@)
            &&& (r matches Err(e) ==> {
                &&& (!auth ==> e.code == 403)
                &&& (auth && !parses ==> e.code == 400 && e.error@ == "Bad Request"@)
                &&& (auth && parses && held is None ==> e.code == 403)
                &&& (auth && parses && held is Some ==> e.code == 404)
            })
        }),
{
    match check_access(token, "Ideas.Read") {
        Ok(_) => {},
        Err(e) => {
            return Err(e);
        },
    }
    let cid = match parse_uuid(collection, "collection ID") {
        Ok(v) => v,
        Err(e) => {
            return Err(e);
        },
    };
    let uid = match parse_uuid(token.oid(), "auth token oid") {
        Ok(v) => v,
        Err(e) => {
            return Err(e);
        },
    };
    match store.get_role_assignment(GetRoleAssignment { principal_id: uid, collection_id: cid }) {
        Ok(_) => {},
        Err(e) => {
            return Err(e);
        },
    }
    let ghost gtag = filter.tag;
    let ghost gcomp = filter.complete;
    let ghost m = matching_ideas(store.idea_rows(), cid, gtag, gcomp);
    let out = store.get_random_idea(
        GetRandomIdea { collection: cid, tag: filter.tag, is_completed: filter.complete },
    );
    proof {
        if out is Err {
            if !has_partition(store.idea_rows(), cid) {
                crate::table::lemma_partition_empty(store.idea_rows(), cid);
                Seq::lemma_filter_len(
                    crate::table::partition_of(store.idea_rows(), cid),
                    crate::memory::matches_query(gtag, gcomp),
                );
            }
            assert(m.len() == 0);
        } else {
            assert(m.len() != 0);
        }
    }
    out
}

/// Creates an idea in the caller's own collection under a fresh random
/// id, provisioning their account first. A new idea starts uncompleted.
pub fn new_idea(
    store: &mut MemoryStore,
    token: &AuthToken,
    name: String,
    description: String,
    tags: Vec<String>,
) -> (r: Result<Idea, APIError>)
    requires
        old(store).wf(),
        tags_wf(tags@),
    ensures
        final(store).wf(),
        r is Ok <==> authorized(*token, "Ideas.Write"@) && token_uid_ok(*token),
        (r matches Ok(i) ==> {
            &&& i@ == (IdeaView {
                id: i.id,
                collection_id: token_uid(*token),
                name: name@,
                description: description@,
                tags: tag_set(tags@),
                completed: false,
            })
            &&& i.wf()
            &&& provisioned_accounts(
                *old(store),
                *final(store),
                token_uid(*token),
                token_email_hash(*token),
                token.display_name@,
            )
            &&& opt_view(find_at(final(store).idea_rows(), token_uid(*token), i.id)) == Some(i@)
            &&& (forall|pk: u128, rk: u128|
                !(pk == token_uid(*token) && rk == i.id) ==> find_at(
                    final(store).idea_rows(),
                    pk,
                    rk,
                ) == find_at(old(store).idea_rows(), pk, rk))
        }),
        (r matches Err(e) ==> {
            &&& (!authorized(*token, "Ideas.Write"@) ==> e.code == 403)
            &&& (authorized(*token, "Ideas.Write"@) && !token_uid_ok(*token) ==> e.code == 400
                && e.error@ == "Bad Request"@)
        }),
        (r is Err ==> *final(store) == *old(store)),
{
    match check_access(token, "Ideas.Write") {
        Ok(_) => {},
        Err(e) => {
            return Err(e);
        },
    }
    let uid = match parse_uuid(token.oid(), "auth token oid") {
        Ok(v) => v,
        Err(e) => {
            return Err(e);
        },
    };
    match ensure_user_collection(store, token) {
        Ok(_) => {},
        Err(e) => {
            return Err(e);
        },
    }
    store.store_idea(
        StoreIdea {
            id: crate::models::new_id(),
            collection: uid,
            name,
            description,
            tags,
            completed: false,
        },
    )
}

/// Upserts an idea under a caller-chosen id in the caller's own
/// collection, provisioning their account first.
pub fn store_idea(
    store: &mut MemoryStore,
    token: &AuthToken,
    id: &str,
    name: String,
    description: String,
    tags: Vec<String>,
    completed: bool,
) -> (r: Result<Idea, APIError>)
    requires
        old(store).wf(),
        tags_wf(tags@),
    ensures
        final(store).wf(),
        r is Ok <==> authorized(*token, "Ideas.Write"@) && id_ok(id@) && token_uid_ok(*token),
        (r matches Ok(i) ==> {
            &&& i@ == (IdeaView {
                id: id_of(id@),
                collection_id: token_uid(*token),
                name: name@,
                description: description@,
                tags: tag_set(tags@),
                completed,
            })
            &&& provisioned_accounts(
                *old(store),
                *final(store),
                token_uid(*token),
                token_email_hash(*token),
                token.display_name@,
            )
            &&& opt_view(find_at(final(store).idea_rows(), token_uid(*token), id_of(id@)))
                == Some(i@)
            &&& (forall|pk: u128, rk: u128|
                !(pk == token_uid(*token) && rk == id_of(id@)) ==> find_at(
                    final(store).idea_rows(),
                    pk,
                    rk,
                ) == find_at(old(store).idea_rows(), pk, rk))
        }),
        (r matches Err(e) ==> {
            &&& (!authorized(*token, "Ideas.Write"@) ==> e.code == 403)
            &&& (authorized(*token, "Ideas.Write"@) && !(id_ok(id@) && token_uid_ok(*token))
                ==> e.code == 400 && e.error@ == "Bad Request"@)
        }),
        (r is Err ==> *final(store) == *old(store)),
{
    match check_access(token, "Ideas.Write") {
        Ok(_) => {},
        Err(e) => {
            return Err(e);
        },
    }
    let idv = match parse_uuid(id, "idea ID") {
        Ok(v) => v,
        Err(e) => {
            return Err(e);
        },
    };
    let uid = match parse_uuid(token.oid(), "auth token oid") {
        Ok(v) => v,
        Err(e) => {
            return Err(e);
        },
    };
    match ensure_user_collection(store, token) {
        Ok(_) => {},
        Err(e) => {
            return Err(e);
        },
    }
    store.store_idea(StoreIdea { id: idv, collection: uid, name, description, tags, completed })
}

/// Upserts an idea into a named collection: the caller's role there
/// must allow writes. A viewer, or a principal with no role at all,
/// never reaches the store.
pub fn store_collection_idea_v3(
    store: &mut MemoryStore,
    token: &AuthToken,
    collection: &str,
    id: &str,
    name: String,
    description: String,
    tags: Vec<String>,
    completed: bool,
) -> (r: Result<Idea, APIError>)
    requires
        old(store).wf(),
        tags_wf(tags@),
    ensures
        final(store).wf(),
        accounts_framed(*old(store), *final(store), token_uid(*token), token_email_hash(*token)),
        ({
            let auth = authorized(*token, "Ideas.Write"@);
            let parses = id_ok(id@) && id_ok(collection@) && token_uid_ok(*token);
            let erole = effective_role(
                old(store).role_rows(),
                id_of(collection@),
                token_uid(*token),
            );
            let write_ok = effective_write_ok(
                old(store).role_rows(),
                id_of(collection@),
                token_uid(*token),
            );
            let ok_in = auth && parses && write_ok;
            &&& (r is Ok <==> ok_in)
            &&& (r matches Ok(i) ==> {
                &&& i@ == (IdeaView {
                    id: id_of(id@),
                    collection_id: id_of(collection@),
                    name: name@,
                    description: description@,
                    tags: tag_set(tags@),
                    completed,
                })
                &&& provisioned_accounts(
                    *old(store),
                    *final(store),
                    token_uid(*token),
                    token_email_hash(*token),
                    token.display_name@,
                )
                &&& opt_view(find_at(final(store).idea_rows(), id_of(collection@), id_of(id@)))
                    == Some(i@)
                &&& (forall|pk: u128, rk: u128|
                    !(pk == id_of(collection@) && rk == id_of(id@)) ==> find_at(
                        final(store).idea_rows(),
                        pk,
                        rk,
                    ) == find_at(old(store).idea_rows(), pk, rk))
            })
            &&& (r matches Err(e) ==> {
                &&& (!auth ==> e.code == 403 && *final(store) == *old(store))
                &&& (auth && !parses ==> e.code == 400 && e.error@ == "Bad Request"@
                    && *final(store) == *old(store))
                &&& (auth && parses && erole is None ==> e.code == 403)
                &&& (auth && parses && erole is Some && !write_ok ==> e.code == 403 && e.message@
                    == "You do not have permission to modify an idea within this collection."@)
            })
            &&& (r is Err ==> final(store).idea_rows() == old(store).idea_rows())
        }),
{
    match check_access(token, "Ideas.Write") {
        Ok(_) => {},
        Err(e) => {
            return Err(e);
        },
    }
    let idv = match parse_uuid(id, "idea ID") {
        Ok(v) => v,
        Err(e) => {
            return Err(e);
        },
    };
    let cid = match parse_uuid(collection, "collection ID") {
        Ok(v) => v,
        Err(e) => {
            return Err(e);
        },
    };
    let uid = match parse_uuid(token.oid(), "auth token oid") {
        Ok(v) => v,
        Err(e) => {
            return Err(e);
        },
    };
    match ensure_user_collection(store, token) {
        Ok(_) => {},
        Err(e) => {
            return Err(e);
        },
    }
    let ghost mid = *store;
    let looked_up = store.get_role_assignment(
        GetRoleAssignment { collection_id: cid, principal_id: uid },
    );
    proof {
        if cid != uid {
            assert(find_at(mid.role_rows(), cid, uid) == find_at(old(store).role_rows(), cid, uid));
        }
    }
    let role = match looked_up {
        Ok(a) => a,
        Err(e) => {
            return Err(e);
        },
    };
    if can_write(role.role) {
        store.store_idea(StoreIdea { id: idv, collection: cid, name, description, tags, completed })
    } else {
        Err(
            APIError::new(
                403,
                "Forbidden",
                "You do not have permission to modify an idea within this collection.",
            ),
        )
    }
}

/// Creates an idea in a named collection under a fresh random id: the
/// caller's role there must allow writes. The caller's account is
/// provisioned first only when they target their own collection.
pub fn new_collection_idea_v3(
    store: &mut MemoryStore,
    token: &AuthToken,
    collection: &str,
    name: String,
    description: String,
    tags: Vec<String>,
    completed: bool,
) -> (r: Result<Idea, APIError>)
    requires
        old(store).wf(),
        tags_wf(tags@),
    ensures
        final(store).wf(),
        accounts_framed(*old(store), *final(store), token_uid(*token), token_email_hash(*token)),
        ({
            let auth = authorized(*token, "Ideas.Write"@);
            let parses = id_ok(collection@) && token_uid_ok(*token);
            let erole = effective_role(
                old(store).role_rows(),
                id_of(collection@),
                token_uid(*token),
            );
            let write_ok = effective_write_ok(
                old(store).role_rows(),
                id_of(collection@),
                token_uid(*token),
            );
            let ok_in = auth && parses && write_ok;
            &&& (r is Ok <==> ok_in)
            &&& (r matches Ok(i) ==> {
                &&& i@ == (IdeaView {
                    id: i.id,
                    collection_id: id_of(collection@),
                    name: name@,
                    description: description@,
                    tags: tag_set(tags@),
                    completed,
                })
                &&& opt_view(find_at(final(store).idea_rows(), id_of(collection@), i.id)) == Some(
                    i@,
                )
                &&& (forall|pk: u128, rk: u128|
                    !(pk == id_of(collection@) && rk == i.id) ==> find_at(
                        final(store).idea_rows(),
                        pk,
                        rk,
                    ) == find_at(old(store).idea_rows(), pk, rk))
            })
            &&& (r matches Err(e) ==> {
                &&& (!auth ==> e.code == 403 && *final(store) == *old(store))
                &&& (auth && !parses ==> e.code == 400 && e.error@ == "Bad Request"@
                    && *final(store) == *old(store))
                &&& (auth && parses && erole is None ==> e.code == 403)
                &&& (auth && parses && erole is Some && !write_ok ==> e.code == 403 && e.message@
                    == "You do not have permission to add an idea to this collection."@)
            })
            &&& (r is Err ==> final(store).idea_rows() == old(store).idea_rows())
        }),
{
    match check_access(token, "Ideas.Write") {
        Ok(_) => {},
        Err(e) => {
            return Err(e);
        },
    }
    let cid = match parse_uuid(collection, "collection ID") {
        Ok(v) => v,
        Err(e) => {
            return Err(e);
        },
    };
    let uid = match parse_uuid(token.oid(), "auth token oid") {
        Ok(v) => v,
        Err(e) => {
            return Err(e);
        },
    };
    if cid == uid {
        match ensure_user_collection(store, token) {
            Ok(_) => {},
            Err(e) => {
                return Err(e);
            },
        }
    }
    let ghost mid = *store;
    let looked_up = store.get_role_assignment(
        GetRoleAssignment { collection_id: cid, principal_id: uid },
    );
    proof {
        if cid != uid {
            assert(find_at(mid.role_rows(), cid, uid) == find_at(old(store).role_rows(), cid, uid));
        }
    }
    let role = match looked_up {
        Ok(a) => a,
        Err(e) => {
            return Err(e);
        },
    };
    if can_write(role.role) {
        store.store_idea(
            StoreIdea {
                id: crate::models::new_id(),
                collection: cid,
                name,
                description,
                tags,
                completed,
            },
        )
    } else {
        Err(
            APIError::new(
                403,
                "Forbidden",
                "You do not have permission to add an idea to this collection.",
            ),
        )
    }
}

/// Reads one collection out of the caller's own partition.
pub fn get_collection_v3(store: &MemoryStore, token: &AuthToken, collection: &str) -> (r: Result<
    Collection,
    APIError,
>)
    requires
        store.wf(),
    ensures
        ({
            let ok_in = authorized(*token, "Collections.Read"@) && id_ok(collection@)
                && token_uid_ok(*token) && find_at(
                store.collection_rows(),
                token_uid(*token),
                id_of(collection@),
            ) is Some;
            &&& (r is Ok <==> ok_in)
            &&& (r matches Ok(c) ==> find_at(
                store.collection_rows(),
                token_uid(*token),
                id_of(collection@),
            ) == Some(c))
            &&& (r matches Err(e) ==> {
                &&& (!authorized(*token, "Collections.Read"@) ==> e.code == 403)
                &&& (authorized(*token, "Collections.Read"@) && !(id_ok(collection@)
                    && token_uid_ok(*token)) ==> e.code == 400 && e.error@ == "Bad Request"@)
                &&& (authorized(*token, "Collections.Read"@) && id_ok(collection@)
                    && token_uid_ok(*token) ==> e.code == 404)
            })
        }),
{
    match check_access(token, "Collections.Read") {
        Ok(_) => {},
        Err(e) => {
            return Err(e);
        },
    }
    let cid = match parse_uuid(collection, "collection ID") {
        Ok(v) => v,
        Err(e) => {
            return Err(e);
        },
    };
    let uid = match parse_uuid(token.oid(), "auth token oid") {
        Ok(v) => v,
        Err(e) => {
            return Err(e);
        },
    };
    store.get_collection(GetCollection { id: cid, principal_id: uid })
}

/// Lists the caller's collections, provisioning their account first: a
/// first-time caller therefore sees at least their default collection.
pub fn get_collections_v3(store: &mut MemoryStore, token: &AuthToken) -> (r: Result<
    Vec<Collection>,
    APIError,
>)
    requires
        old(store).wf(),
    ensures
        final(store).wf(),
        r is Ok <==> authorized(*token, "Collections.Read"@) && token_uid_ok(*token),
        (r matches Ok(v) ==> provisioned(
            *old(store),
            *final(store),
            token_uid(*token),
            token_email_hash(*token),
            token.display_name@,
        ) && v@ == crate::table::partition_of(final(store).collection_rows(), token_uid(*token))
            && v@.len() >= 1),
        (r matches Err(e) ==> {
            &&& (!authorized(*token, "Collections.Read"@) ==> e.code == 403)
            &&& (authorized(*token, "Collections.Read"@) && !token_uid_ok(*token) ==> e.code
                == 400 && e.error@ == "Bad Request"@)
            &&& *final(store) == *old(store)
        }),
{
    match check_access(token, "Collections.Read") {
        Ok(_) => {},
        Err(e) => {
            return Err(e);
        },
    }
    let uid = match parse_uuid(token.oid(), "auth token oid") {
        Ok(v) => v,
        Err(e) => {
            return Err(e);
        },
    };
    match ensure_user_collection(store, token) {
        Ok(_) => {},
        Err(e) => {
            return Err(e);
        },
    }
    proof {
        crate::table::lemma_found_in_partition(store.collection_rows(), uid, uid);
        crate::table::lemma_partition_empty(store.collection_rows(), uid);
    }
    store.get_collections(GetCollections { principal_id: uid })
}

/// Creates a collection under a fresh random id and grants the caller
/// an `Owner` role assignment on it.
pub fn new_collection_v3(store: &mut MemoryStore, token: &AuthToken, name: String) -> (r: Result<
    Collection,
    APIError,
>)
    requires
        old(store).wf(),
    ensures
        final(store).wf(),
        r is Ok <==> authorized(*token, "Collections.Write"@) && token_uid_ok(*token),
        (r matches Ok(c) ==> {
            &&& c.user_id == token_uid(*token)
            &&& c.name@ == name@
            &&& find_at(final(store).collection_rows(), token_uid(*token), c.collection_id)
                == Some(c)
            &&& role_at(final(store).role_rows(), c.collection_id, token_uid(*token)) == Some(
                Role::Owner,
            )
            &&& final(store).idea_rows() == old(store).idea_rows()
            &&& final(store).user_rows() == old(store).user_rows()
            &&& (forall|pk: u128, rk: u128|
                !(pk == token_uid(*token) && rk == c.collection_id) ==> find_at(
                    final(store).collection_rows(),
                    pk,
                    rk,
                ) == find_at(old(store).collection_rows(), pk, rk))
            &&& (forall|pk: u128, rk: u128|
                !(pk == c.collection_id && rk == token_uid(*token)) ==> find_at(
                    final(store).role_rows(),
                    pk,
                    rk,
                ) == find_at(old(store).role_rows(), pk, rk))
        }),
        (r matches Err(e) ==> {
            &&& (!authorized(*token, "Collections.Write"@) ==> e.code == 403)
            &&& (authorized(*token, "Collections.Write"@) && !token_uid_ok(*token) ==> e.code
                == 400 && e.error@ == "Bad Request"@)
            &&& *final(store) == *old(store)
        }),
{
    match check_access(token, "Collections.Write") {
        Ok(_) => {},
        Err(e) => {
            return Err(e);
        },
    }
    let uid = match parse_uuid(token.oid(), "auth token oid") {
        Ok(v) => v,
        Err(e) => {
            return Err(e);
        },
    };
    let cid = crate::models::new_id();
    let coll_msg = StoreCollection { collection_id: cid, principal_id: uid, name };
    let ghost g_coll = coll_msg;
    let stored = match store.store_collection(coll_msg) {
        Ok(c) => c,
        Err(e) => {
            return Err(e);
        },
    };
    let ghost mid = *store;
    proof {
        crate::table::lemma_store_then_get(
            old(store).collection_rows(),
            crate::memory::collection_of(g_coll),
        );
        assert forall|pk: u128, rk: u128| !(pk == uid && rk == cid) implies find_at(
            mid.collection_rows(),
            pk,
            rk,
        ) == find_at(old(store).collection_rows(), pk, rk) by {
            crate::table::lemma_store_frames_others(
                old(store).collection_rows(),
                crate::memory::collection_of(g_coll),
                pk,
                rk,
            );
        }
    }
    let role_msg = StoreRoleAssignment { collection_id: cid, principal_id: uid, role: Role::Owner };
    let ghost g_role = role_msg;
    match store.store_role_assignment(role_msg) {
        Ok(_) => {},
        Err(e) => {
            return Err(e);
        },
    }
    proof {
        crate::table::lemma_store_then_get(
            mid.role_rows(),
            crate::memory::role_assignment_of(g_role),
        );
        assert forall|pk: u128, rk: u128| !(pk == cid && rk == uid) implies find_at(
            final(store).role_rows(),
            pk,
            rk,
        ) == find_at(mid.role_rows(), pk, rk) by {
            crate::table::lemma_store_frames_others(
                mid.role_rows(),
                crate::memory::role_assignment_of(g_role),
                pk,
                rk,
            );
        }
    }
    Ok(stored)
}

/// Upserts a collection under the caller's own partition: a caller may
/// rename only what their own partition holds, so no role is consulted.
pub fn store_collection_v3(
    store: &mut MemoryStore,
    token: &AuthToken,
    collection: &str,
    name: String,
) -> (r: Result<Collection, APIError>)
    requires
        old(store).wf(),
    ensures
        final(store).wf(),
        r is Ok <==> authorized(*token, "Collections.Write"@) && id_ok(collection@)
            && token_uid_ok(*token),
        (r matches Ok(c) ==> {
            &&& c == (Collection {
                collection_id: id_of(collection@),
                user_id: token_uid(*token),
                name,
            })
            &&& final(store).collection_rows() == crate::table::upsert_spec(
                old(store).collection_rows(),
                c,
            )
            &&& final(store).idea_rows() == old(store).idea_rows()
            &&& final(store).role_rows() == old(store).role_rows()
            &&& final(store).user_rows() == old(store).user_rows()
        }),
        (r matches Err(e) ==> {
            &&& (!authorized(*token, "Collections.Write"@) ==> e.code == 403)
            &&& (authorized(*token, "Collections.Write"@) && !(id_ok(collection@)
                && token_uid_ok(*token)) ==> e.code == 400 && e.error@ == "Bad Request"@)
            &&& *final(store) == *old(store)
        }),
{
    match check_access(token, "Collections.Write") {
        Ok(_) => {},
        Err(e) => {
            return Err(e);
        },
    }
    let cid = match parse_uuid(collection, "collection ID") {
        Ok(v) => v,
        Err(e) => {
            return Err(e);
        },
    };
    let uid = match parse_uuid(token.oid(), "auth token oid") {
        Ok(v) => v,
        Err(e) => {
            return Err(e);
        },
    };
    store.store_collection(StoreCollection { collection_id: cid, principal_id: uid, name })
}

/// Removes a collection from the caller's own partition, then the
/// caller's role assignment on it. The two removals are not atomic: a
/// missing role assignment reports not-found after the collection is
/// already gone.
pub fn remove_collection_v3(store: &mut MemoryStore, token: &AuthToken, collection: &str) -> (r:
    Result<(), APIError>)
    requires
        old(store).wf(),
    ensures
        final(store).wf(),
        final(store).idea_rows() == old(store).idea_rows(),
        final(store).user_rows() == old(store).user_rows(),
        ({
            let auth_ok = authorized(*token, "Collections.Write"@) && id_ok(collection@)
                && token_uid_ok(*token);
            let cid = id_of(collection@);
            let uid = token_uid(*token);
            let coll_found = find_at(old(store).collection_rows(), uid, cid) is Some;
            &&& (r is Ok <==> auth_ok && coll_found && find_at(
                old(store).role_rows(),
                cid,
                uid,
            ) is Some)
            &&& (auth_ok ==> final(store).collection_rows() == remove_spec(
                old(store).collection_rows(),
                uid,
                cid,
            ))
            &&& (auth_ok && coll_found ==> final(store).role_rows() == remove_spec(
                old(store).role_rows(),
                cid,
                uid,
            ))
            &&& (!auth_ok ==> *final(store) == *old(store))
            &&& (!coll_found ==> final(store).role_rows() == old(store).role_rows())
            &&& (r matches Err(e) ==> {
                &&& (!authorized(*token, "Collections.Write"@) ==> e.code == 403)
                &&& (authorized(*token, "Collections.Write"@) && !(id_ok(collection@)
                    && token_uid_ok(*token)) ==> e.code == 400 && e.error@ == "Bad Request"@)
                &&& (auth_ok ==> e.code == 404)
            })
        }),
{
    match check_access(token, "Collections.Write") {
        Ok(_) => {},
        Err(e) => {
            return Err(e);
        },
    }
    let cid = match parse_uuid(collection, "collection ID") {
        Ok(v) => v,
        Err(e) => {
            return Err(e);
        },
    };
    let uid = match parse_uuid(token.oid(), "auth token oid") {
        Ok(v) => v,
        Err(e) => {
            return Err(e);
        },
    };
    match store.remove_collection(RemoveCollection { id: cid, principal_id: uid }) {
        Ok(_) => {},
        Err(e) => {
            return Err(e);
        },
    }
    match store.remove_role_assignment(RemoveRoleAssignment { collection_id: cid, principal_id: uid }) {
        Ok(_) => {},
        Err(e) => {
            return Err(e);
        },
    }
    Ok(())
}

/// Reads a principal's role on a collection. A caller may always read
/// their own; reading another principal's demands ownership.
pub fn get_role_assignment_v3(
    store: &MemoryStore,
    token: &AuthToken,
    collection: &str,
    user: &str,
) -> (r: Result<RoleAssignment, APIError>)
    requires
        store.wf(),
    ensures
        ({
            let cid = id_of(collection@);
            let uid = token_uid(*token);
            let tuid = id_of(user@);
            let ok_in = authorized(*token, "RoleAssignments.Write"@) && id_ok(collection@)
                && token_uid_ok(*token) && id_ok(user@) && (uid == tuid || role_at(
                store.role_rows(),
                cid,
                uid,
            ) == Some(Role::Owner)) && find_at(store.role_rows(), cid, tuid) is Some;
            let auth = authorized(*token, "RoleAssignments.Write"@);
            let parses = id_ok(collection@) && token_uid_ok(*token) && id_ok(user@);
            &&& (r is Ok <==> ok_in)
            &&& (r matches Ok(a) ==> find_at(store.role_rows(), cid, tuid) == Some(a))
            &&& (r matches Err(e) ==> {
                &&& (!auth ==> e.code == 403)
                &&& (auth && !parses ==> e.code == 400 && e.error@ == "Bad Request"@)
                &&& (auth && parses && uid != tuid && role_at(store.role_rows(), cid, uid)
                    is None ==> e.code == 403)
                &&& (auth && parses && uid != tuid && (role_at(store.role_rows(), cid, uid)
                    matches Some(role) && role != Role::Owner) ==> e.code == 403 && e.message@
                    == "You do not have permission to view or manage the list of users for this collection."@)
                &&& (auth && parses && (uid == tuid || role_at(store.role_rows(), cid, uid)
                    == Some(Role::Owner)) ==> e.code == 403 && e.message@
                    == "You do not have permission to access this resource."@)
            })
        }),
{
    match check_access(token, "RoleAssignments.Write") {
        Ok(_) => {},
        Err(e) => {
            return Err(e);
        },
    }
    let cid = match parse_uuid(collection, "collection ID") {
        Ok(v) => v,
        Err(e) => {
            return Err(e);
        },
    };
    let uid = match parse_uuid(token.oid(), "auth token oid") {
        Ok(v) => v,
        Err(e) => {
            return Err(e);
        },
    };
    let tuid = match parse_uuid(user, "user ID") {
        Ok(v) => v,
        Err(e) => {
            return Err(e);
        },
    };
    if uid != tuid {
        let own = match store.get_role_assignment(
            GetRoleAssignment { collection_id: cid, principal_id: uid },
        ) {
            Ok(a) => a,
            Err(e) => {
                return Err(e);
            },
        };
        if !crate::rules::can_manage_users(own.role) {
            return Err(
                APIError::new(
                    403,
                    "Forbidden",
                    "You do not have permission to view or manage the list of users for this collection.",
                ),
            );
        }
    }
    store.get_role_assignment(GetRoleAssignment { collection_id: cid, principal_id: tuid })
}

/// Lists every role assignment on a collection: only an owner may see
/// who has access.
pub fn get_role_assignments_v3(store: &MemoryStore, token: &AuthToken, collection: &str) -> (r:
    Result<Vec<RoleAssignment>, APIError>)
    requires
        store.wf(),
    ensures
        ({
            let cid = id_of(collection@);
            let uid = token_uid(*token);
            let ok_in = authorized(*token, "RoleAssignments.Write"@) && id_ok(collection@)
                && token_uid_ok(*token) && role_at(store.role_rows(), cid, uid) == Some(
                Role::Owner,
            );
            let auth = authorized(*token, "RoleAssignments.Write"@);
            let parses = id_ok(collection@) && token_uid_ok(*token);
            &&& (r is Ok <==> ok_in)
            &&& (r matches Ok(v) ==> v@ == crate::table::partition_of(store.role_rows(), cid))
            &&& (r matches Err(e) ==> {
                &&& (!auth ==> e.code == 403)
                &&& (auth && !parses ==> e.code == 400 && e.error@ == "Bad Request"@)
                &&& (auth && parses && role_at(store.role_rows(), cid, uid) is None ==> e.code
                    == 403 && e.message@
                    == "You do not have permission to access this resource."@)
                &&& (auth && parses && (role_at(store.role_rows(), cid, uid) matches Some(role)
                    && role != Role::Owner) ==> e.code == 403 && e.message@
                    == "You do not have permission to view or manage the list of users for this collection."@)
            })
        }),
{
    match check_access(token, "RoleAssignments.Write") {
        Ok(_) => {},
        Err(e) => {
            return Err(e);
        },
    }
    let cid = match parse_uuid(collection, "collection ID") {
        Ok(v) => v,
        Err(e) => {
            return Err(e);
        },
    };
    let uid = match parse_uuid(token.oid(), "auth token oid") {
        Ok(v) => v,
        Err(e) => {
            return Err(e);
        },
    };
    let own = match store.get_role_assignment(
        GetRoleAssignment { collection_id: cid, principal_id: uid },
    ) {
        Ok(a) => a,
        Err(e) => {
            return Err(e);
        },
    };
    if !crate::rules::can_manage_users(own.role) {
        return Err(
            APIError::new(
                403,
                "Forbidden",
                "You do not have permission to view or manage the list of users for this collection.",
            ),
        );
    }
    proof {
        crate::table::lemma_found_in_partition(store.role_rows(), cid, uid);
    }
    store.get_role_assignments(GetRoleAssignments { collection_id: cid })
}

/// Grants or changes another principal's role on a collection the
/// caller owns. The target principal is given the collection in their
/// own partition first when they lack it; a caller may never touch
/// their own role assignment through this path.
pub fn store_role_assignment_v3(
    store: &mut MemoryStore,
    token: &AuthToken,
    collection: &str,
    user: &str,
    role_name: &str,
) -> (r: Result<RoleAssignment, APIError>)
    requires
        old(store).wf(),
    ensures
        final(store).wf(),
        final(store).idea_rows() == old(store).idea_rows(),
        final(store).user_rows() == old(store).user_rows(),
        ({
            let cid = id_of(collection@);
            let uid = token_uid(*token);
            let tuid = id_of(user@);
            let ok_in = authorized(*token, "RoleAssignments.Write"@) && id_ok(collection@)
                && token_uid_ok(*token) && id_ok(user@) && find_at(
                old(store).collection_rows(),
                uid,
                cid,
            ) is Some && tuid != uid && role_at(old(store).role_rows(), cid, uid) == Some(
                Role::Owner,
            );
            let auth = authorized(*token, "RoleAssignments.Write"@);
            let parses = id_ok(collection@) && token_uid_ok(*token) && id_ok(user@);
            let coll_found = find_at(old(store).collection_rows(), uid, cid) is Some;
            &&& (r is Ok <==> ok_in)
            &&& (r matches Ok(a) ==> {
                &&& a.collection_id == cid
                &&& a.user_id == tuid
                &&& a.role == Role::parse_spec(role_name@)
                &&& find_at(final(store).role_rows(), cid, tuid) == Some(a)
                &&& (match find_at(old(store).collection_rows(), tuid, cid) {
                    Some(c) => find_at(final(store).collection_rows(), tuid, cid) == Some(c),
                    None => opt_view(find_at(final(store).collection_rows(), tuid, cid)) == Some(
                        (crate::models::CollectionView {
                            collection_id: cid,
                            user_id: tuid,
                            name: (match find_at(old(store).collection_rows(), uid, cid) {
                                Some(c) => c.name@,
                                None => Seq::<char>::empty(),
                            }),
                        }),
                    ),
                })
                &&& (forall|pk: u128, rk: u128|
                    !(pk == cid && rk == tuid) ==> find_at(final(store).role_rows(), pk, rk)
                        == find_at(old(store).role_rows(), pk, rk))
                &&& (forall|pk: u128, rk: u128|
                    !(pk == tuid && rk == cid) ==> find_at(
                        final(store).collection_rows(),
                        pk,
                        rk,
                    ) == find_at(old(store).collection_rows(), pk, rk))
            })
            &&& (r is Err ==> final(store).role_rows() == old(store).role_rows())
            &&& (r matches Err(e) ==> {
                &&& (!auth ==> e.code == 403)
                &&& (auth && !parses ==> e.code == 400 && e.error@ == "Bad Request"@)
                &&& (auth && parses && !coll_found ==> e.code == 404)
                &&& (auth && parses && coll_found && tuid == uid ==> e.code == 400 && e.message@
                    == "You cannot modify your own role assignment. Please request that another collection owner performs this change for you."@)
                &&& (auth && parses && coll_found && tuid != uid && role_at(
                    old(store).role_rows(),
                    cid,
                    uid,
                ) is None ==> e.code == 403 && e.message@
                    == "You do not have permission to access this resource."@)
                &&& (auth && parses && coll_found && tuid != uid && (role_at(
                    old(store).role_rows(),
                    cid,
                    uid,
                ) matches Some(role) && role != Role::Owner) ==> e.code == 403 && e.message@
                    == "You do not have permission to view or manage the list of users for this collection."@)
            })
        }),
{
    match check_access(token, "RoleAssignments.Write") {
        Ok(_) => {},
        Err(e) => {
            return Err(e);
        },
    }
    let cid = match parse_uuid(collection, "collection ID") {
        Ok(v) => v,
        Err(e) => {
            return Err(e);
        },
    };
    let uid = match parse_uuid(token.oid(), "auth token oid") {
        Ok(v) => v,
        Err(e) => {
            return Err(e);
        },
    };
    let tuid = match parse_uuid(user, "user ID") {
        Ok(v) => v,
        Err(e) => {
            return Err(e);
        },
    };
    let original_collection = match store.get_collection(
        GetCollection { id: cid, principal_id: uid },
    ) {
        Ok(c) => c,
        Err(e) => {
            return Err(e);
        },
    };
    if tuid == uid {
        return Err(
            APIError::new(
                400,
                "Bad Request",
                "You cannot modify your own role assignment. Please request that another collection owner performs this change for you.",
            ),
        );
    }
    let own = match store.get_role_assignment(
        GetRoleAssignment { collection_id: cid, principal_id: uid },
    ) {
        Ok(a) => a,
        Err(e) => {
            return Err(e);
        },
    };
    if !crate::rules::can_manage_users(own.role) {
        return Err(
            APIError::new(
                403,
                "Forbidden",
                "You do not have permission to view or manage the list of users for this collection.",
            ),
        );
    }
    let target_has = store.get_collection(GetCollection { id: cid, principal_id: tuid });
    let ghost mid0 = *store;
    if target_has.is_err() {
        let coll_msg = StoreCollection {
            collection_id: cid,
            principal_id: tuid,
            name: original_collection.name,
        };
        let ghost g_coll = coll_msg;
        match store.store_collection(coll_msg) {
            Ok(_) => {},
            Err(e) => {
                return Err(e);
            },
        }
        proof {
            crate::table::lemma_store_then_get(
                mid0.collection_rows(),
                crate::memory::collection_of(g_coll),
            );
            assert forall|pk: u128, rk: u128| !(pk == tuid && rk == cid) implies find_at(
                store.collection_rows(),
                pk,
                rk,
            ) == find_at(mid0.collection_rows(), pk, rk) by {
                crate::table::lemma_store_frames_others(
                    mid0.collection_rows(),
                    crate::memory::collection_of(g_coll),
                    pk,
                    rk,
                );
            }
        }
    } else {
        proof {
            crate::table::lemma_found_in_partition(store.collection_rows(), tuid, cid);
        }
    }
    let ghost mid1 = *store;
    let role_msg = StoreRoleAssignment {
        collection_id: cid,
        principal_id: tuid,
        role: crate::models::Role::parse(role_name),
    };
    let ghost g_role = role_msg;
    let out = store.store_role_assignment(role_msg);
    proof {
        crate::table::lemma_store_then_get(
            mid1.role_rows(),
            crate::memory::role_assignment_of(g_role),
        );
        assert forall|pk: u128, rk: u128| !(pk == cid && rk == tuid) implies find_at(
            final(store).role_rows(),
            pk,
            rk,
        ) == find_at(mid1.role_rows(), pk, rk) by {
            crate::table::lemma_store_frames_others(
                mid1.role_rows(),
                crate::memory::role_assignment_of(g_role),
                pk,
                rk,
            );
        }
    }
    out
}

/// Removes another principal's role assignment from a collection the
/// caller owns; a caller may never remove their own through this path.
pub fn remove_role_assignment_v3(
    store: &mut MemoryStore,
    token: &AuthToken,
    collection: &str,
    user: &str,
) -> (r: Result<(), APIError>)
    requires
        old(store).wf(),
    ensures
        final(store).wf(),
        final(store).idea_rows() == old(store).idea_rows(),
        final(store).collection_rows() == old(store).collection_rows(),
        final(store).user_rows() == old(store).user_rows(),
        ({
            let cid = id_of(collection@);
            let uid = token_uid(*token);
            let tuid = id_of(user@);
            let ok_in = authorized(*token, "RoleAssignments.Write"@) && id_ok(collection@)
                && token_uid_ok(*token) && id_ok(user@) && tuid != uid && role_at(
                old(store).role_rows(),
                cid,
                uid,
            ) == Some(Role::Owner) && find_at(old(store).role_rows(), cid, tuid) is Some;
            &&& (r is Ok <==> ok_in)
            &&& (ok_in ==> final(store).role_rows() == remove_spec(
                old(store).role_rows(),
                cid,
                tuid,
            ))
            &&& (!ok_in ==> final(store).role_rows() == old(store).role_rows())
            &&& (r matches Err(e) ==> {
                &&& (!authorized(*token, "RoleAssignments.Write"@) ==> e.code == 403)
                &&& (authorized(*token, "RoleAssignments.Write"@) && !(id_ok(collection@)
                    && token_uid_ok(*token) && id_ok(user@)) ==> e.code == 400 && e.error@
                    == "Bad Request"@)
                &&& (authorized(*token, "RoleAssignments.Write"@) && id_ok(collection@)
                    && token_uid_ok(*token) && id_ok(user@) ==> {
                    let cid2 = id_of(collection@);
                    let uid2 = token_uid(*token);
                    let tuid2 = id_of(user@);
                    &&& (tuid2 == uid2 ==> e.code == 400 && e.message@
                        == "You cannot remove yourself from a collection. Please request that another collection owner performs this for you."@)
                    &&& (tuid2 != uid2 && role_at(old(store).role_rows(), cid2, uid2) is None
                        ==> e.code == 403 && e.message@
                        == "You do not have permission to access this resource."@)
                    &&& (tuid2 != uid2 && (role_at(old(store).role_rows(), cid2, uid2)
                        matches Some(role) && role != Role::Owner) ==> e.code == 403 && e.message@
                        == "You do not have permission to view or manage the list of users for this collection."@)
                    &&& (tuid2 != uid2 && role_at(old(store).role_rows(), cid2, uid2) == Some(
                        Role::Owner,
                    ) ==> e.code == 404)
                })
            })
        }),
{
    match check_access(token, "RoleAssignments.Write") {
        Ok(_) => {},
        Err(e) => {
            return Err(e);
        },
    }
    let cid = match parse_uuid(collection, "collection ID") {
        Ok(v) => v,
        Err(e) => {
            return Err(e);
        },
    };
    let uid = match parse_uuid(token.oid(), "auth token oid") {
        Ok(v) => v,
        Err(e) => {
            return Err(e);
        },
    };
    let tuid = match parse_uuid(user, "user ID") {
        Ok(v) => v,
        Err(e) => {
            return Err(e);
        },
    };
    if tuid == uid {
        return Err(
            APIError::new(
                400,
                "Bad Request",
                "You cannot remove yourself from a collection. Please request that another collection owner performs this for you.",
            ),
        );
    }
    let own = match store.get_role_assignment(
        GetRoleAssignment { collection_id: cid, principal_id: uid },
    ) {
        Ok(a) => a,
        Err(e) => {
            return Err(e);
        },
    };
    if !crate::rules::can_manage_users(own.role) {
        return Err(
            APIError::new(
                403,
                "Forbidden",
                "You do not have permission to view or manage the list of users for this collection.",
            ),
        );
    }
    match store.remove_role_assignment(
        RemoveRoleAssignment { collection_id: cid, principal_id: tuid },
    ) {
        Ok(_) => Ok(()),
        Err(e) => Err(e),
    }
}

/// Looks a user up by email hash; any caller with an application role
/// may do so.
pub fn get_user_v3(store: &MemoryStore, token: &AuthToken, user: &str) -> (r: Result<
    User,
    APIError,
>)
    requires
        store.wf(),
    ensures
        ({
            let ok_in = has_required_role(*token) && id_ok(user@) && find_at(
                store.user_rows(),
                id_of(user@),
                id_of(user@),
            ) is Some;
            &&& (r is Ok <==> ok_in)
            &&& (r matches Ok(u) ==> find_at(store.user_rows(), id_of(user@), id_of(user@))
                == Some(u))
            &&& (r matches Err(e) ==> {
                &&& (!has_required_role(*token) ==> e.code == 403)
                &&& (has_required_role(*token) && !id_ok(user@) ==> e.code == 400 && e.error@
                    == "Bad Request"@)
                &&& (has_required_role(*token) && id_ok(user@) ==> e.code == 404)
            })
        }),
{
    if !check_required_role(token) {
        return Err(missing_role_error());
    }
    let tuid = match parse_uuid(user, "user ID") {
        Ok(v) => v,
        Err(e) => {
            return Err(e);
        },
    };
    store.get_user(GetUser { email_hash: tuid })
}

} // verus!
