use rex::auth::{AuthAdditionalClaims, AuthToken};
use rex::memory::MemoryStore;
use rex::models::{
    GetCollection, GetRoleAssignment, GetUser, Role, StoreCollection, StoreRoleAssignment,
};
use rex::rules::ensure_user_collection;
use rex::service::{
    QueryFilter, get_collection_idea_v3, get_collection_ideas_v3, get_collection_v3,
    get_collections_v3, get_idea, get_idea_v3, get_ideas, get_ideas_v3, get_random_idea,
    get_role_assignment_v3, get_role_assignments_v3, get_user_v3, new_collection_idea_v3,
    new_collection_v3, new_idea, remove_collection_idea_v3, remove_collection_v3, remove_idea,
    remove_role_assignment_v3, store_collection_idea_v3, store_collection_v3, store_idea,
    store_role_assignment_v3,
};

const ALL_SCOPES: &str =
    "Ideas.Read Ideas.Write Collections.Read Collections.Write RoleAssignments.Write Users.Read";

fn token_for(oid: &str) -> AuthToken {
    AuthToken {
        claims: AuthAdditionalClaims {
            oid: oid.to_string(),
            roles: vec!["Administrator".to_string()],
            scp: ALL_SCOPES.to_string(),
            unique_name: "testy@example.com".to_string(),
        },
        display_name: "Testy McTesterson".to_string(),
    }
}

fn owner_token() -> AuthToken {
    token_for("00000000-0000-0000-0000-000000000000")
}

fn other_token() -> AuthToken {
    token_for("00000000000000000000000000000002")
}

fn seed_collection_with_roles(store: &mut MemoryStore) {
    store
        .store_collection(StoreCollection {
            collection_id: 1,
            principal_id: 0,
            name: "Test Collection".to_string(),
        })
        .expect("storing should succeed");
    store
        .store_role_assignment(StoreRoleAssignment {
            collection_id: 1,
            principal_id: 0,
            role: Role::Owner,
        })
        .expect("storing should succeed");
}

#[test]
fn provisioning_creates_user_collection_and_ownership() {
    let mut store = MemoryStore::new();
    let token = owner_token();
    ensure_user_collection(&mut store, &token).expect("provisioning should succeed");

    let email_hash = 0x05c1de2f5c5e7933bee97a499e818c5e_u128;
    let user = store
        .get_user(GetUser { email_hash })
        .expect("the user record should exist under the md5 of the email");
    assert_eq!(user.principal_id, 0);
    assert_eq!(user.first_name, "Testy");

    let collection = store
        .get_collection(GetCollection { id: 0, principal_id: 0 })
        .expect("the default collection should exist");
    assert_eq!(collection.name, "My Ideas");

    let role = store
        .get_role_assignment(GetRoleAssignment { collection_id: 0, principal_id: 0 })
        .expect("the owner role should exist");
    assert!(matches!(role.role, Role::Owner));
}

#[test]
fn provisioning_keeps_an_existing_default_collection() {
    let mut store = MemoryStore::new();
    store
        .store_collection(StoreCollection {
            collection_id: 0,
            principal_id: 0,
            name: "Renamed".to_string(),
        })
        .expect("storing should succeed");
    let token = owner_token();
    ensure_user_collection(&mut store, &token).expect("provisioning should succeed");
    let collection = store
        .get_collection(GetCollection { id: 0, principal_id: 0 })
        .expect("the collection should still exist");
    assert_eq!(collection.name, "Renamed");
}

#[test]
fn provisioning_rejects_an_unreadable_object_id() {
    let mut store = MemoryStore::new();
    let token = token_for("not-a-hex-id");
    let err = ensure_user_collection(&mut store, &token)
        .expect_err("a malformed object id is the caller's error");
    assert_eq!(err.code, 400);
}

#[test]
fn missing_application_role_is_forbidden() {
    let mut store = MemoryStore::new();
    let mut token = owner_token();
    token.claims.roles = vec!["Guest".to_string()];
    let err = get_ideas_v3(&mut store, &token, QueryFilter { tag: None, complete: None })
        .expect_err("no application role");
    assert_eq!(err.code, 403);
}

#[test]
fn missing_scope_is_forbidden() {
    let mut store = MemoryStore::new();
    let mut token = owner_token();
    token.claims.scp = "Ideas.Read".to_string();
    let err = store_idea(
        &mut store,
        &token,
        "00000000000000000000000000000001",
        "Test Idea".to_string(),
        "This is a test idea".to_string(),
        vec![],
        false,
    )
    .expect_err("the write scope was not granted");
    assert_eq!(err.code, 403);
}

#[test]
fn malformed_idea_id_is_bad_request() {
    let mut store = MemoryStore::new();
    let token = owner_token();
    let err = get_idea_v3(&mut store, &token, "zzz-not-hex")
        .expect_err("a malformed id is the caller's error");
    assert_eq!(err.code, 400);
}

#[test]
fn store_and_get_own_idea_through_routes() {
    let mut store = MemoryStore::new();
    let token = owner_token();
    let stored = store_idea(
        &mut store,
        &token,
        "00000000000000000000000000000001",
        "Test Idea".to_string(),
        "This is a test idea".to_string(),
        vec!["test".to_string()],
        false,
    )
    .expect("the write should succeed");
    assert_eq!(stored.id, 1);
    assert_eq!(stored.collection_id, 0);
    let got = get_idea_v3(&mut store, &token, "00000000000000000000000000000001")
        .expect("the idea should be readable back");
    assert_eq!(got.name, "Test Idea");
    assert_eq!(got.description, "This is a test idea");
    assert_eq!(got.tags, vec!["test".to_string()]);
}

#[test]
fn new_idea_starts_uncompleted_under_a_fresh_id() {
    let mut store = MemoryStore::new();
    let token = owner_token();
    let first = new_idea(
        &mut store,
        &token,
        "Test Idea".to_string(),
        "This is a test idea".to_string(),
        vec![],
    )
    .expect("the write should succeed");
    let second = new_idea(
        &mut store,
        &token,
        "Test Idea".to_string(),
        "This is a test idea".to_string(),
        vec![],
    )
    .expect("the write should succeed");
    assert!(!first.completed);
    assert_ne!(first.id, second.id);
    let listed = get_ideas_v3(&mut store, &token, QueryFilter { tag: None, complete: None })
        .expect("the listing should succeed");
    assert_eq!(listed.len(), 2);
}

#[test]
fn viewer_never_writes_where_contributor_and_owner_do() {
    for (role, allowed) in [
        (Role::Viewer, false),
        (Role::Invalid, false),
        (Role::Contributor, true),
        (Role::Owner, true),
    ] {
        let mut store = MemoryStore::new();
        seed_collection_with_roles(&mut store);
        store
            .store_role_assignment(StoreRoleAssignment {
                collection_id: 1,
                principal_id: 2,
                role,
            })
            .expect("storing should succeed");
        let token = other_token();
        let outcome = store_collection_idea_v3(
            &mut store,
            &token,
            "00000000000000000000000000000001",
            "00000000000000000000000000000009",
            "Test Idea".to_string(),
            "This is a test idea".to_string(),
            vec!["test".to_string()],
            false,
        );
        if allowed {
            let idea = outcome.expect("a writer role must succeed");
            assert_eq!(idea.id, 9);
            assert_eq!(idea.collection_id, 1);
        } else {
            let err = outcome.expect_err("a non-writer role must be forbidden");
            assert_eq!(err.code, 403);
            assert!(store
                .get_idea(rex::models::GetIdea { id: 9, collection: 1 })
                .is_err());
        }
    }
}

#[test]
fn collection_ideas_demand_a_role_assignment() {
    let mut store = MemoryStore::new();
    seed_collection_with_roles(&mut store);
    let token = other_token();
    let err = get_collection_ideas_v3(
        &mut store,
        &token,
        "00000000000000000000000000000001",
        QueryFilter { tag: None, complete: None },
    )
    .expect_err("no role assignment on the collection");
    assert_eq!(err.code, 403);
}

#[test]
fn get_collections_v3_provisions_and_lists() {
    let mut store = MemoryStore::new();
    let token = owner_token();
    let collections = get_collections_v3(&mut store, &token).expect("the listing should succeed");
    assert_eq!(collections.len(), 1);
    assert_eq!(collections[0].name, "My Ideas");
    assert_eq!(collections[0].collection_id, 0);
}

#[test]
fn new_collection_grants_ownership() {
    let mut store = MemoryStore::new();
    let token = owner_token();
    let collection = new_collection_v3(&mut store, &token, "Test Collection".to_string())
        .expect("the write should succeed");
    assert_eq!(collection.user_id, 0);
    assert_eq!(collection.name, "Test Collection");
    let role = store
        .get_role_assignment(GetRoleAssignment {
            collection_id: collection.collection_id,
            principal_id: 0,
        })
        .expect("the owner role should exist");
    assert!(matches!(role.role, Role::Owner));
}

#[test]
fn remove_collection_v3_removes_both_records() {
    let mut store = MemoryStore::new();
    seed_collection_with_roles(&mut store);
    let token = owner_token();
    remove_collection_v3(&mut store, &token, "00000000000000000000000000000001")
        .expect("the removal should succeed");
    let collection = store.get_collection(GetCollection { id: 1, principal_id: 0 });
    assert!(collection.is_err(), "The collection should not exist anymore");
    let role = store.get_role_assignment(GetRoleAssignment { collection_id: 1, principal_id: 0 });
    assert!(role.is_err(), "The role assignment should not exist anymore");
}

#[test]
fn store_role_assignment_v3_shares_the_collection() {
    let mut store = MemoryStore::new();
    seed_collection_with_roles(&mut store);
    let token = owner_token();
    let content = store_role_assignment_v3(
        &mut store,
        &token,
        "00000000000000000000000000000001",
        "00000000000000000000000000000002",
        "Owner",
    )
    .expect("the actor should run");
    assert_eq!(content.collection_id, 1);
    assert_eq!(content.user_id, 2);
    assert!(matches!(content.role, Role::Owner));
    let collection = store
        .get_collection(GetCollection { id: 1, principal_id: 2 })
        .expect("the user should have the new collection");
    assert_eq!(collection.name, "Test Collection");
}

#[test]
fn store_role_assignment_v3_self_is_bad_request() {
    let mut store = MemoryStore::new();
    seed_collection_with_roles(&mut store);
    let token = owner_token();
    let err = store_role_assignment_v3(
        &mut store,
        &token,
        "00000000000000000000000000000001",
        "00000000000000000000000000000000",
        "Viewer",
    )
    .expect_err("nobody may modify their own role assignment");
    assert_eq!(err.code, 400);
    let own = store
        .get_role_assignment(GetRoleAssignment { collection_id: 1, principal_id: 0 })
        .expect("the role assignment should still exist");
    assert!(matches!(own.role, Role::Owner));
}

#[test]
fn store_role_assignment_v3_demands_ownership() {
    let mut store = MemoryStore::new();
    seed_collection_with_roles(&mut store);
    store
        .store_collection(StoreCollection {
            collection_id: 1,
            principal_id: 2,
            name: "Test Collection".to_string(),
        })
        .expect("storing should succeed");
    store
        .store_role_assignment(StoreRoleAssignment {
            collection_id: 1,
            principal_id: 2,
            role: Role::Viewer,
        })
        .expect("storing should succeed");
    let token = other_token();
    let err = store_role_assignment_v3(
        &mut store,
        &token,
        "00000000000000000000000000000001",
        "00000000000000000000000000000003",
        "Viewer",
    )
    .expect_err("a viewer may not manage users");
    assert_eq!(err.code, 403);
}

#[test]
fn remove_role_assignment_v3_removes_it() {
    let mut store = MemoryStore::new();
    seed_collection_with_roles(&mut store);
    store
        .store_role_assignment(StoreRoleAssignment {
            collection_id: 1,
            principal_id: 2,
            role: Role::Viewer,
        })
        .expect("storing should succeed");
    let token = owner_token();
    remove_role_assignment_v3(
        &mut store,
        &token,
        "00000000000000000000000000000001",
        "00000000000000000000000000000002",
    )
    .expect("the actor should have run");
    let gone = store.get_role_assignment(GetRoleAssignment { collection_id: 1, principal_id: 2 });
    assert!(gone.is_err(), "The role assignment should not exist anymore");
}

#[test]
fn remove_role_assignment_v3_self_is_bad_request() {
    let mut store = MemoryStore::new();
    seed_collection_with_roles(&mut store);
    let token = owner_token();
    let err = remove_role_assignment_v3(
        &mut store,
        &token,
        "00000000000000000000000000000001",
        "00000000000000000000000000000000",
    )
    .expect_err("nobody may remove themselves");
    assert_eq!(err.code, 400);
    let kept = store.get_role_assignment(GetRoleAssignment { collection_id: 1, principal_id: 0 });
    assert!(kept.is_ok(), "The role assignment should still exist");
}

#[test]
fn get_role_assignment_v3_reads_another_principal() {
    let mut store = MemoryStore::new();
    seed_collection_with_roles(&mut store);
    store
        .store_role_assignment(StoreRoleAssignment {
            collection_id: 1,
            principal_id: 2,
            role: Role::Viewer,
        })
        .expect("storing should succeed");
    let token = owner_token();
    let content = get_role_assignment_v3(
        &store,
        &token,
        "00000000000000000000000000000001",
        "00000000000000000000000000000002",
    )
    .expect("the read should succeed");
    assert_eq!(content.collection_id, 1);
    assert_eq!(content.user_id, 2);
    assert!(matches!(content.role, Role::Viewer));
}

#[test]
fn get_role_assignment_v3_self() {
    let mut store = MemoryStore::new();
    seed_collection_with_roles(&mut store);
    let token = owner_token();
    let content = get_role_assignment_v3(
        &store,
        &token,
        "00000000000000000000000000000001",
        "00000000000000000000000000000000",
    )
    .expect("a principal may always read their own role");
    assert_eq!(content.collection_id, 1);
    assert_eq!(content.user_id, 0);
    assert!(matches!(content.role, Role::Owner));
}

#[test]
fn get_role_assignments_v3_lists_for_the_owner() {
    let mut store = MemoryStore::new();
    seed_collection_with_roles(&mut store);
    store
        .store_role_assignment(StoreRoleAssignment {
            collection_id: 1,
            principal_id: 2,
            role: Role::Viewer,
        })
        .expect("storing should succeed");
    let token = owner_token();
    let all = get_role_assignments_v3(&store, &token, "00000000000000000000000000000001")
        .expect("the listing should succeed");
    assert_eq!(all.len(), 2);
    assert_eq!(all[0].user_id, 0);
    assert!(matches!(all[0].role, Role::Owner));
    assert_eq!(all[1].user_id, 2);
    assert!(matches!(all[1].role, Role::Viewer));
    let viewer = other_token();
    let err = get_role_assignments_v3(&store, &viewer, "00000000000000000000000000000001")
        .expect_err("a viewer may not list the users");
    assert_eq!(err.code, 403);
}

#[test]
fn get_user_v3_reads_by_email_hash() {
    let mut store = MemoryStore::new();
    store
        .store_user(rex::models::StoreUser {
            email_hash: 1,
            principal_id: 0,
            first_name: "Test".to_string(),
        })
        .expect("storing should succeed");
    let token = owner_token();
    let user = get_user_v3(&store, &token, "00000000000000000000000000000001")
        .expect("the read should succeed");
    assert_eq!(user.email_hash, 1);
    assert_eq!(user.principal_id, 0);
    assert_eq!(user.first_name, "Test");
}

#[test]
fn own_idea_lifecycle_through_the_first_api_version() {
    let mut store = MemoryStore::new();
    let token = owner_token();
    store_idea(
        &mut store,
        &token,
        "00000000000000000000000000000001",
        "Test Idea".to_string(),
        "This is a test idea".to_string(),
        vec!["test".to_string()],
        false,
    )
    .expect("the write should succeed");
    let got = get_idea(&store, &token, "00000000000000000000000000000001")
        .expect("the idea should be readable");
    assert_eq!(got.name, "Test Idea");
    let listed = get_ideas(&store, &token, QueryFilter { tag: None, complete: None })
        .expect("the listing should succeed");
    assert_eq!(listed.len(), 1);
    let drawn = get_random_idea(&store, &token, QueryFilter {
        tag: Some("test".to_string()),
        complete: None,
    })
    .expect("one idea matches");
    assert_eq!(drawn.id, 1);
    remove_idea(&mut store, &token, "00000000000000000000000000000001")
        .expect("the actor should have run");
    let gone = get_idea(&store, &token, "00000000000000000000000000000001");
    assert!(gone.is_err(), "The idea should not exist anymore");
}

#[test]
fn collection_idea_routes_respect_the_role() {
    let mut store = MemoryStore::new();
    seed_collection_with_roles(&mut store);
    store
        .store_role_assignment(StoreRoleAssignment {
            collection_id: 1,
            principal_id: 2,
            role: Role::Contributor,
        })
        .expect("storing should succeed");
    let token = other_token();
    let created = new_collection_idea_v3(
        &mut store,
        &token,
        "00000000000000000000000000000001",
        "Test Idea".to_string(),
        "This is a test idea".to_string(),
        vec!["test".to_string()],
        false,
    )
    .expect("a contributor may add an idea");
    assert_eq!(created.collection_id, 1);
    let read_back = get_collection_idea_v3(
        &mut store,
        &token,
        "00000000000000000000000000000001",
        &rex::ident::hex32(created.id),
    )
    .expect("the idea should be readable through the collection route");
    assert_eq!(read_back.name, "Test Idea");

    store
        .store_role_assignment(StoreRoleAssignment {
            collection_id: 1,
            principal_id: 2,
            role: Role::Viewer,
        })
        .expect("storing should succeed");
    let err = remove_collection_idea_v3(
        &mut store,
        &token,
        "00000000000000000000000000000001",
        &rex::ident::hex32(created.id),
    )
    .expect_err("a viewer may not remove an idea");
    assert_eq!(err.code, 403);
}

#[test]
fn collection_idea_route_returns_the_stored_scenario() {
    let mut store = MemoryStore::new();
    store
        .store_collection(StoreCollection {
            collection_id: 7,
            principal_id: 0,
            name: "Test Collection".to_string(),
        })
        .expect("storing should succeed");
    store
        .store_role_assignment(StoreRoleAssignment {
            collection_id: 7,
            principal_id: 0,
            role: Role::Owner,
        })
        .expect("storing should succeed");
    store
        .store_idea(rex::models::StoreIdea {
            id: 1,
            collection: 7,
            name: "Test Idea".to_string(),
            description: "This is a test idea".to_string(),
            tags: vec!["test".to_string()],
            completed: false,
        })
        .expect("storing should succeed");
    let token = owner_token();
    let idea = get_collection_idea_v3(
        &mut store,
        &token,
        "00000000000000000000000000000007",
        "00000000000000000000000000000001",
    )
    .expect("the stored idea must come back");
    assert_eq!(idea.id, 1);
    assert_eq!(idea.collection_id, 7);
    assert_eq!(idea.name, "Test Idea");
    assert_eq!(idea.description, "This is a test idea");
    assert_eq!(idea.tags, vec!["test".to_string()]);
    assert!(!idea.completed);
}

#[test]
fn get_collection_v3_reads_own_partition() {
    let mut store = MemoryStore::new();
    seed_collection_with_roles(&mut store);
    let token = owner_token();
    let got = get_collection_v3(&store, &token, "00000000000000000000000000000001")
        .expect("the collection should be found");
    assert_eq!(got.name, "Test Collection");
    let missing = get_collection_v3(&store, &token, "00000000000000000000000000000009");
    assert_eq!(missing.expect_err("collection nine does not exist").code, 404);
}

#[test]
fn store_collection_v3_renames_in_place() {
    let mut store = MemoryStore::new();
    seed_collection_with_roles(&mut store);
    let token = owner_token();
    let stored = store_collection_v3(
        &mut store,
        &token,
        "00000000000000000000000000000001",
        "Renamed Collection".to_string(),
    )
    .expect("the write should succeed");
    assert_eq!(stored.collection_id, 1);
    assert_eq!(stored.user_id, 0);
    let got = store
        .get_collection(GetCollection { id: 1, principal_id: 0 })
        .expect("the collection should still be there");
    assert_eq!(got.name, "Renamed Collection");
}
