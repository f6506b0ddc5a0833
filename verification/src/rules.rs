//! The authorization rules: which role may read, write or manage a
//! collection, and the lazy provisioning of a caller's default
//! collection the first time they are seen.

use vstd::prelude::*;

use crate::auth::AuthToken;
use crate::error::APIError;
use crate::ident::{hex_digits_of, hex_value_of, parse_hex_ok, parse_uuid, strip_dashes};
use crate::memory::MemoryStore;
use crate::models::{
    CollectionView, GetCollection, Role, RoleAssignmentView, StoreCollection, StoreRoleAssignment,
    StoreUser, UserView,
};
use crate::strutil::{first_token, leading_word};
use crate::table::{find_at, opt_view};
use crate::wrappers::{lower_of, lowercase, md5_hash, md5_of, trim, trim_of};

verus! {

/// Whether a role authorizes writes: creating, updating or removing an
/// idea, or updating a collection. `Viewer` and `Invalid` never do.
pub open spec fn role_allows_write(role: Role) -> bool {
    role == Role::Owner || role == Role::Contributor
}

pub fn can_write(role: Role) -> (r: bool)
    ensures
        r == role_allows_write(role),
{
    match role {
        Role::Owner => true,
        Role::Contributor => true,
        _ => false,
    }
}

/// Whether a role authorizes managing other principals' role
/// assignments on the collection: only `Owner` does.
pub open spec fn role_manages_users(role: Role) -> bool {
    role == Role::Owner
}

pub fn can_manage_users(role: Role) -> (r: bool)
    ensures
        r == role_manages_users(role),
{
    match role {
        Role::Owner => true,
        _ => false,
    }
}

/// Write permission is monotone in the role: a viewer, or a role string
/// that failed to parse, never authorizes a write that a contributor or
/// an owner is granted, and managing other users demands ownership.
pub proof fn lemma_authorization_monotonicity()
    ensures
        !role_allows_write(Role::Viewer),
        !role_allows_write(Role::Invalid),
        role_allows_write(Role::Contributor),
        role_allows_write(Role::Owner),
        forall|role: Role| role_manages_users(role) ==> role_allows_write(role),
{
}

/// The caller's principal id, as their object id claim parses.
pub open spec fn token_uid(token: AuthToken) -> u128 {
    hex_value_of(hex_digits_of(strip_dashes(token.claims.oid@))) as u128
}

/// Whether the object id claim parses at all.
pub open spec fn token_uid_ok(token: AuthToken) -> bool {
    parse_hex_ok(strip_dashes(token.claims.oid@))
}

/// The hash under which the caller's user record is stored: the digest
/// of their email, lowercased and trimmed.
pub open spec fn token_email_hash(token: AuthToken) -> u128 {
    md5_of(trim_of(lower_of(token.claims.unique_name@)))
}

/// Computes the hash under which a user record is stored.
pub fn email_hash(email: &str) -> (r: u128)
    ensures
        r == md5_of(trim_of(lower_of(email@))),
{
    let lowered = lowercase(email);
    let trimmed = trim(lowered.as_str());
    md5_hash(trimmed)
}

/// What first-use provisioning does to the account tables: the caller
/// has a user record, owns a default collection, and holds an `Owner`
/// role assignment on it; no other user, collection or role entry moves.
pub open spec fn provisioned_accounts(
    pre: MemoryStore,
    post: MemoryStore,
    uid: u128,
    eh: u128,
    name: Seq<char>,
) -> bool {
    &&& post.wf()
    &&& opt_view(find_at(post.user_rows(), eh, eh)) == Some(
        UserView { principal_id: uid, email_hash: eh, first_name: first_token(name) },
    )
    &&& (match find_at(pre.collection_rows(), uid, uid) {
        Some(c) => opt_view(find_at(post.collection_rows(), uid, uid)) == Some(c@),
        None => opt_view(find_at(post.collection_rows(), uid, uid)) == Some(
            CollectionView { collection_id: uid, user_id: uid, name: "My Ideas"@ },
        ),
    })
    &&& opt_view(find_at(post.role_rows(), uid, uid)) == Some(
        RoleAssignmentView { user_id: uid, collection_id: uid, role: Role::Owner },
    )
    &&& (forall|pk: u128, rk: u128|
        !(pk == eh && rk == eh) ==> find_at(post.user_rows(), pk, rk) == find_at(
            pre.user_rows(),
            pk,
            rk,
        ))
    &&& (forall|pk: u128, rk: u128|
        !(pk == uid && rk == uid) ==> find_at(post.collection_rows(), pk, rk) == find_at(
            pre.collection_rows(),
            pk,
            rk,
        ))
    &&& (forall|pk: u128, rk: u128|
        !(pk == uid && rk == uid) ==> find_at(post.role_rows(), pk, rk) == find_at(
            pre.role_rows(),
            pk,
            rk,
        ))
    &&& post.started_at_spec() == pre.started_at_spec()
}

/// First-use provisioning touches the account tables alone: the idea
/// table comes through unchanged.
pub open spec fn provisioned(
    pre: MemoryStore,
    post: MemoryStore,
    uid: u128,
    eh: u128,
    name: Seq<char>,
) -> bool {
    &&& provisioned_accounts(pre, post, uid, eh, name)
    &&& post.idea_rows() == pre.idea_rows()
}

/// First-use provisioning: makes sure the caller has a user record, a
/// default collection (created lazily, named deterministically) and an
/// `Owner` role assignment on it. An unreadable object id claim is the
/// caller's error; nothing else can fail against this backend.
pub fn ensure_user_collection(store: &mut MemoryStore, token: &AuthToken) -> (r: Result<
    (),
    APIError,
>)
    requires
        old(store).wf(),
    ensures
        final(store).wf(),
        match r {
            Ok(_) => token_uid_ok(*token) && provisioned(
                *old(store),
                *final(store),
                token_uid(*token),
                token_email_hash(*token),
                token.display_name@,
            ),
            Err(e) => {
                &&& !token_uid_ok(*token)
                &&& e.code == 400
                &&& e.error@ == "Bad Request"@
                &&& *final(store) == *old(store)
            },
        },
{
    let uid = match parse_uuid(token.oid(), "auth token OID") {
        Ok(v) => v,
        Err(e) => {
            return Err(e);
        },
    };
    let eh = email_hash(token.email());
    let first_name = leading_word(token.name().as_str());

    let user_msg = StoreUser { principal_id: uid, email_hash: eh, first_name };
    let ghost g_user = user_msg;
    let _ = store.store_user(user_msg);
    proof {
        crate::table::lemma_store_then_get(
            old(store).user_rows(),
            crate::memory::user_of(g_user),
        );
    }
    let ghost mid1 = *store;
    proof {
        assert forall|pk: u128, rk: u128| !(pk == eh && rk == eh) implies find_at(
            mid1.user_rows(),
            pk,
            rk,
        ) == find_at(old(store).user_rows(), pk, rk) by {
            crate::table::lemma_store_frames_others(
                old(store).user_rows(),
                crate::memory::user_of(g_user),
                pk,
                rk,
            );
        }
    }

    let had_default = store.get_collection(GetCollection { id: uid, principal_id: uid });
    if had_default.is_err() {
        let coll_msg = StoreCollection {
            collection_id: uid,
            principal_id: uid,
            name: "My Ideas".to_owned(),
        };
        let ghost g_coll2 = coll_msg;
        let _ = store.store_collection(coll_msg);
        proof {
            crate::table::lemma_store_then_get(
                mid1.collection_rows(),
                crate::memory::collection_of(g_coll2),
            );
            assert forall|pk: u128, rk: u128| !(pk == uid && rk == uid) implies find_at(
                store.collection_rows(),
                pk,
                rk,
            ) == find_at(mid1.collection_rows(), pk, rk) by {
                crate::table::lemma_store_frames_others(
                    mid1.collection_rows(),
                    crate::memory::collection_of(g_coll2),
                    pk,
                    rk,
                );
            }
        }
    }
    let ghost mid2 = *store;

    let role_msg = StoreRoleAssignment { collection_id: uid, principal_id: uid, role: Role::Owner };
    let ghost g_role = role_msg;
    let _ = store.store_role_assignment(role_msg);
    proof {
        crate::table::lemma_store_then_get(
            mid2.role_rows(),
            crate::memory::role_assignment_of(g_role),
        );
        assert forall|pk: u128, rk: u128| !(pk == uid && rk == uid) implies find_at(
            final(store).role_rows(),
            pk,
            rk,
        ) == find_at(mid2.role_rows(), pk, rk) by {
            crate::table::lemma_store_frames_others(
                mid2.role_rows(),
                crate::memory::role_assignment_of(g_role),
                pk,
                rk,
            );
        }
    }
    Ok(())
}

} // verus!
