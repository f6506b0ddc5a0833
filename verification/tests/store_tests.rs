use rex::memory::MemoryStore;
use rex::models::{
    Collection, GetCollection, GetCollections, GetHealth, GetIdea, GetIdeas, GetRandomIdea,
    GetRoleAssignment, GetRoleAssignments, GetUser, RemoveCollection, RemoveIdea,
    RemoveRoleAssignment, Role, StoreCollection, StoreIdea, StoreRoleAssignment, StoreUser,
};

fn store_test_idea(store: &mut MemoryStore, id: u128, collection: u128, tags: Vec<String>) {
    store
        .store_idea(StoreIdea {
            id,
            collection,
            name: "Test Idea".to_string(),
            description: "This is a test idea".to_string(),
            tags,
            completed: false,
        })
        .expect("storing an idea should succeed");
}

#[test]
fn idea_round_trip() {
    let mut store = MemoryStore::new();
    store_test_idea(&mut store, 1, 7, vec!["test".to_string()]);
    let got = store
        .get_idea(GetIdea { id: 1, collection: 7 })
        .expect("the stored idea should be found");
    assert_eq!(got.id, 1);
    assert_eq!(got.collection_id, 7);
    assert_eq!(got.name, "Test Idea");
    assert_eq!(got.description, "This is a test idea");
    assert_eq!(got.tags, vec!["test".to_string()]);
    assert!(!got.completed);
}

#[test]
fn collection_round_trip() {
    let mut store = MemoryStore::new();
    store
        .store_collection(StoreCollection {
            collection_id: 7,
            principal_id: 0,
            name: "Test Collection".to_string(),
        })
        .expect("storing a collection should succeed");
    let got = store
        .get_collection(GetCollection { id: 7, principal_id: 0 })
        .expect("the stored collection should be found");
    assert_eq!(got.collection_id, 7);
    assert_eq!(got.user_id, 0);
    assert_eq!(got.name, "Test Collection");
}

#[test]
fn role_assignment_round_trip() {
    let mut store = MemoryStore::new();
    store
        .store_role_assignment(StoreRoleAssignment {
            collection_id: 7,
            principal_id: 0,
            role: Role::Owner,
        })
        .expect("storing a role assignment should succeed");
    let got = store
        .get_role_assignment(GetRoleAssignment { collection_id: 7, principal_id: 0 })
        .expect("the stored role assignment should be found");
    assert_eq!(got.collection_id, 7);
    assert_eq!(got.user_id, 0);
    assert!(matches!(got.role, Role::Owner));
}

#[test]
fn user_round_trip() {
    let mut store = MemoryStore::new();
    store
        .store_user(StoreUser {
            email_hash: 1,
            principal_id: 0,
            first_name: "Test".to_string(),
        })
        .expect("storing a user should succeed");
    let got = store
        .get_user(GetUser { email_hash: 1 })
        .expect("the stored user should be found");
    assert_eq!(got.email_hash, 1);
    assert_eq!(got.principal_id, 0);
    assert_eq!(got.first_name, "Test");
}

#[test]
fn upsert_replaces_in_place() {
    let mut store = MemoryStore::new();
    store_test_idea(&mut store, 1, 7, vec!["test".to_string()]);
    store
        .store_idea(StoreIdea {
            id: 1,
            collection: 7,
            name: "Test Idea".to_string(),
            description: "This is a test idea with an updated description".to_string(),
            tags: vec!["test".to_string()],
            completed: true,
        })
        .expect("upserting should succeed");
    let got = store
        .get_idea(GetIdea { id: 1, collection: 7 })
        .expect("the idea should still be there");
    assert_eq!(got.description, "This is a test idea with an updated description");
    assert!(got.completed);
    let all = store
        .get_ideas(GetIdeas { collection: 7, tag: None, is_completed: None })
        .expect("the collection should list");
    assert_eq!(all.len(), 1);
}

#[test]
fn ideas_are_isolated_between_collections() {
    let mut store = MemoryStore::new();
    store_test_idea(&mut store, 1, 7, vec!["test".to_string()]);
    store_test_idea(&mut store, 2, 9, vec!["other".to_string()]);
    let in_seven = store
        .get_ideas(GetIdeas { collection: 7, tag: None, is_completed: None })
        .expect("collection seven should list");
    assert_eq!(in_seven.len(), 1);
    assert_eq!(in_seven[0].id, 1);
    let in_nine = store
        .get_ideas(GetIdeas { collection: 9, tag: None, is_completed: None })
        .expect("collection nine should list");
    assert_eq!(in_nine.len(), 1);
    assert_eq!(in_nine[0].id, 2);
    let err = store
        .get_idea(GetIdea { id: 1, collection: 9 })
        .expect_err("an idea of collection seven is invisible from nine");
    assert_eq!(err.code, 404);
}

#[test]
fn absent_partition_is_not_found_rather_than_empty() {
    let store = MemoryStore::new();
    let err = store
        .get_ideas(GetIdeas { collection: 7, tag: None, is_completed: None })
        .expect_err("a collection with no ideas yet reads as not-found");
    assert_eq!(err.code, 404);
    assert_eq!(
        err.message,
        "The collection ID you provided could not be found. Please check it and try again."
    );
}

#[test]
fn get_idea_distinguishes_partition_and_row_wording() {
    let mut store = MemoryStore::new();
    store_test_idea(&mut store, 1, 7, vec![]);
    let no_partition = store
        .get_idea(GetIdea { id: 1, collection: 9 })
        .expect_err("collection nine does not exist");
    assert_eq!(
        no_partition.message,
        "The collection ID you provided could not be found. Please check it and try again."
    );
    let no_row = store
        .get_idea(GetIdea { id: 2, collection: 7 })
        .expect_err("idea two does not exist");
    assert_eq!(
        no_row.message,
        "The idea ID you provided could not be found. Please check it and try again."
    );
}

#[test]
fn remove_is_not_found_twice() {
    let mut store = MemoryStore::new();
    store_test_idea(&mut store, 1, 7, vec![]);
    store
        .remove_idea(RemoveIdea { id: 1, collection: 7 })
        .expect("the first removal should succeed");
    let again = store
        .remove_idea(RemoveIdea { id: 1, collection: 7 })
        .expect_err("the second removal should be not-found");
    assert_eq!(again.code, 404);
    let third = store
        .remove_idea(RemoveIdea { id: 1, collection: 7 })
        .expect_err("it never succeeds twice");
    assert_eq!(third.code, 404);
}

#[test]
fn remove_collection_is_not_found_twice() {
    let mut store = MemoryStore::new();
    store
        .store_collection(StoreCollection {
            collection_id: 7,
            principal_id: 0,
            name: "Test Collection".to_string(),
        })
        .expect("storing should succeed");
    store
        .remove_collection(RemoveCollection { id: 7, principal_id: 0 })
        .expect("the first removal should succeed");
    let again = store
        .remove_collection(RemoveCollection { id: 7, principal_id: 0 })
        .expect_err("the second removal should be not-found");
    assert_eq!(again.code, 404);
}

#[test]
fn tag_filter_keeps_exact_matches_only() {
    let mut store = MemoryStore::new();
    store_test_idea(&mut store, 1, 7, vec!["test".to_string()]);
    store_test_idea(&mut store, 2, 7, vec!["testing".to_string()]);
    store_test_idea(&mut store, 3, 7, vec!["test".to_string(), "extra".to_string()]);
    let matched = store
        .get_ideas(GetIdeas { collection: 7, tag: Some("test".to_string()), is_completed: None })
        .expect("the listing should succeed");
    let ids: Vec<u128> = matched.iter().map(|i| i.id).collect();
    assert_eq!(ids, vec![1, 3]);
}

#[test]
fn completion_filter_applies() {
    let mut store = MemoryStore::new();
    store_test_idea(&mut store, 1, 7, vec![]);
    store
        .store_idea(StoreIdea {
            id: 2,
            collection: 7,
            name: "Done Idea".to_string(),
            description: "Finished".to_string(),
            tags: vec![],
            completed: true,
        })
        .expect("storing should succeed");
    let done = store
        .get_ideas(GetIdeas { collection: 7, tag: None, is_completed: Some(true) })
        .expect("the listing should succeed");
    assert_eq!(done.len(), 1);
    assert_eq!(done[0].id, 2);
    let open = store
        .get_ideas(GetIdeas { collection: 7, tag: None, is_completed: Some(false) })
        .expect("the listing should succeed");
    assert_eq!(open.len(), 1);
    assert_eq!(open[0].id, 1);
}

#[test]
fn random_draw_with_one_match_returns_it() {
    let mut store = MemoryStore::new();
    store_test_idea(&mut store, 1, 7, vec!["test".to_string()]);
    store_test_idea(&mut store, 2, 7, vec!["other".to_string()]);
    for _ in 0..20 {
        let got = store
            .get_random_idea(GetRandomIdea {
                collection: 7,
                tag: Some("test".to_string()),
                is_completed: None,
            })
            .expect("exactly one idea matches, so the draw must return it");
        assert_eq!(got.id, 1);
    }
}

#[test]
fn random_draw_with_no_match_is_not_found() {
    let mut store = MemoryStore::new();
    store_test_idea(&mut store, 1, 7, vec!["test".to_string()]);
    let err = store
        .get_random_idea(GetRandomIdea {
            collection: 7,
            tag: Some("missing".to_string()),
            is_completed: None,
        })
        .expect_err("no idea matches");
    assert_eq!(err.code, 404);
    assert_eq!(err.message, "No random ideas were available.");
}

#[test]
fn random_draw_stays_in_the_filtered_set() {
    let mut store = MemoryStore::new();
    store_test_idea(&mut store, 1, 7, vec!["test".to_string()]);
    store_test_idea(&mut store, 2, 7, vec!["test".to_string()]);
    store_test_idea(&mut store, 3, 7, vec!["other".to_string()]);
    for _ in 0..20 {
        let got = store
            .get_random_idea(GetRandomIdea {
                collection: 7,
                tag: Some("test".to_string()),
                is_completed: None,
            })
            .expect("two ideas match");
        assert!(got.id == 1 || got.id == 2);
    }
}

#[test]
fn role_lookup_absence_is_forbidden() {
    let store = MemoryStore::new();
    let err = store
        .get_role_assignment(GetRoleAssignment { collection_id: 7, principal_id: 0 })
        .expect_err("no assignment exists");
    assert_eq!(err.code, 403);
    assert_eq!(err.message, "You do not have permission to access this resource.");
}

#[test]
fn role_assignments_list_by_collection() {
    let mut store = MemoryStore::new();
    store
        .store_role_assignment(StoreRoleAssignment {
            collection_id: 1,
            principal_id: 0,
            role: Role::Owner,
        })
        .expect("storing should succeed");
    store
        .store_role_assignment(StoreRoleAssignment {
            collection_id: 1,
            principal_id: 2,
            role: Role::Viewer,
        })
        .expect("storing should succeed");
    let all = store
        .get_role_assignments(GetRoleAssignments { collection_id: 1 })
        .expect("the listing should succeed");
    assert_eq!(all.len(), 2);
    assert_eq!(all[0].user_id, 0);
    assert!(matches!(all[0].role, Role::Owner));
    assert_eq!(all[1].user_id, 2);
    assert!(matches!(all[1].role, Role::Viewer));
}

#[test]
fn collections_list_by_owner() {
    let mut store = MemoryStore::new();
    store
        .store_collection(StoreCollection {
            collection_id: 1,
            principal_id: 0,
            name: "Test Collection".to_string(),
        })
        .expect("storing should succeed");
    let all = store
        .get_collections(GetCollections { principal_id: 0 })
        .expect("the listing should succeed");
    assert_eq!(all.len(), 1);
    assert_eq!(all[0].collection_id, 1);
    let err = store
        .get_collections(GetCollections { principal_id: 2 })
        .expect_err("a principal with no collections is not-found");
    assert_eq!(err.code, 404);
}

#[test]
fn health_reports_ok() {
    let store = MemoryStore::new();
    let health = store.get_health(GetHealth {}).expect("health always answers");
    assert!(health.ok);
    let again = store.get_health(GetHealth {}).expect("health always answers");
    assert_eq!(health.started_at, again.started_at);
}

#[test]
fn example_scenario() {
    let mut store = MemoryStore::new();
    let collection: Collection = store
        .store_collection(StoreCollection {
            collection_id: 7,
            principal_id: 0,
            name: "Test Collection".to_string(),
        })
        .expect("storing the collection should succeed");
    assert_eq!(collection.name, "Test Collection");
    store
        .store_role_assignment(StoreRoleAssignment {
            collection_id: 7,
            principal_id: 0,
            role: Role::Owner,
        })
        .expect("storing the role assignment should succeed");
    store_test_idea(&mut store, 1, 7, vec!["test".to_string()]);

    let idea = store
        .get_idea(GetIdea { id: 1, collection: 7 })
        .expect("the idea should be found");
    assert_eq!(idea.id, 1);
    assert_eq!(idea.collection_id, 7);
    assert_eq!(idea.name, "Test Idea");
    assert_eq!(idea.tags, vec!["test".to_string()]);

    let role = store
        .get_role_assignment(GetRoleAssignment { collection_id: 7, principal_id: 0 })
        .expect("the role assignment should be found");
    assert!(matches!(role.role, Role::Owner));

    store
        .remove_collection(RemoveCollection { id: 7, principal_id: 0 })
        .expect("the removal should succeed");
    let err = store
        .get_collection(GetCollection { id: 7, principal_id: 0 })
        .expect_err("the collection should not exist anymore");
    assert_eq!(err.code, 404);
    store
        .remove_role_assignment(RemoveRoleAssignment { collection_id: 7, principal_id: 0 })
        .expect("the role assignment should still be removable");
}
