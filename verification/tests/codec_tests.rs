use rex::error::APIError;
use rex::ident::{hex32, parse_hex_u128, parse_uuid};
use rex::models::StoreIdea;
use rex::tablestorage::{
    RemoteOutcome, build_idea_filter_query, collect_pages, durable_get_ideas,
    durable_get_random_idea, idea_from_row, idea_row_of_store, join_tags, joined_contains_tag,
    pick_random_row, recheck_idea_rows, resolve_get, resolve_remove, resolve_store,
    role_assignment_from_row, split_tags, user_from_row, TableStorageIdea,
    TableStorageRoleAssignment, TableStorageUser,
};

#[test]
fn hex32_renders_zero_padded_lowercase() {
    assert_eq!(hex32(1), "00000000000000000000000000000001");
    assert_eq!(hex32(0), "00000000000000000000000000000000");
    assert_eq!(hex32(0xdeadbeef), "000000000000000000000000deadbeef");
    assert_eq!(hex32(u128::MAX), "ffffffffffffffffffffffffffffffff");
}

#[test]
fn parse_hex_reads_both_cases_and_rejects_junk() {
    assert_eq!(parse_hex_u128("00000000000000000000000000000001"), Some(1));
    assert_eq!(parse_hex_u128("DEADBEEF"), Some(0xdeadbeef));
    assert_eq!(parse_hex_u128("deadbeef"), Some(0xdeadbeef));
    assert_eq!(parse_hex_u128("+ff"), Some(255));
    assert_eq!(parse_hex_u128(""), None);
    assert_eq!(parse_hex_u128("+"), None);
    assert_eq!(parse_hex_u128("xyz"), None);
    assert_eq!(parse_hex_u128("ffffffffffffffffffffffffffffffff"), Some(u128::MAX));
    assert_eq!(parse_hex_u128("1ffffffffffffffffffffffffffffffff"), None);
}

#[test]
fn hex_round_trips_through_parse() {
    for v in [0u128, 1, 7, 0x05c1de2f5c5e7933bee97a499e818c5e, u128::MAX] {
        assert_eq!(parse_hex_u128(hex32(v).as_str()), Some(v));
    }
}

#[test]
fn parse_uuid_accepts_dashed_and_plain_forms() {
    assert_eq!(
        parse_uuid("00000000-0000-0000-0000-000000000001", "user ID").ok(),
        Some(1)
    );
    assert_eq!(
        parse_uuid("00000000000000000000000000000001", "user ID").ok(),
        Some(1)
    );
    let err = parse_uuid("not-an-id", "user ID").expect_err("junk is rejected");
    assert_eq!(err.code, 400);
    assert_eq!(err.error, "Bad Request");
    assert_eq!(
        err.message,
        "The user ID you provided could not be parsed. Please check it and try again."
    );
}

#[test]
fn filter_query_takes_its_documented_shape() {
    assert_eq!(
        build_idea_filter_query(7, None, None),
        "PartitionKey eq '00000000000000000000000000000007'"
    );
    assert_eq!(
        build_idea_filter_query(7, Some(true), None),
        "PartitionKey eq '00000000000000000000000000000007' and Completed eq true"
    );
    assert_eq!(
        build_idea_filter_query(7, Some(false), Some("test".to_string())),
        "PartitionKey eq '00000000000000000000000000000007' and Completed eq false and contains(Tags, 'test')"
    );
}

#[test]
fn filter_query_escapes_quotes_and_percents() {
    assert_eq!(
        build_idea_filter_query(0, None, Some("o'brien %1".to_string())),
        "PartitionKey eq '00000000000000000000000000000000' and contains(Tags, 'o''brien %251')"
    );
}

#[test]
fn tags_join_with_a_leading_comma_each() {
    assert_eq!(join_tags(&vec![]), "");
    assert_eq!(join_tags(&vec!["a".to_string()]), ",a");
    assert_eq!(join_tags(&vec!["a".to_string(), "b".to_string()]), ",a,b");
}

#[test]
fn split_tags_drops_empty_pieces() {
    assert_eq!(split_tags(",a,b"), vec!["a".to_string(), "b".to_string()]);
    assert_eq!(split_tags(""), Vec::<String>::new());
    assert_eq!(split_tags(",,x,,"), vec!["x".to_string()]);
}

#[test]
fn tags_round_trip_through_the_stored_form() {
    let tags = vec!["test".to_string(), "other".to_string()];
    assert_eq!(split_tags(join_tags(&tags).as_str()), tags);
}

#[test]
fn joined_contains_tag_is_exact_membership() {
    assert!(joined_contains_tag(",test,other", "test"));
    assert!(joined_contains_tag(",testing,test", "test"));
    assert!(!joined_contains_tag(",testing", "test"));
    assert!(!joined_contains_tag(",test", "tes"));
}

fn row(id: u128, tags: &str) -> TableStorageIdea {
    TableStorageIdea {
        collection_id: hex32(7),
        id: hex32(id),
        name: "Test Idea".to_string(),
        description: "This is a test idea".to_string(),
        tags: tags.to_string(),
        completed: false,
    }
}

#[test]
fn recheck_corrects_the_substring_prefilter() {
    // The remote contains() query would return both rows for "test";
    // the client-side re-check keeps only the exact match.
    let rows = vec![row(1, ",test"), row(2, ",testing")];
    let kept = recheck_idea_rows(rows, &Some("test".to_string()));
    assert_eq!(kept.len(), 1);
    assert_eq!(kept[0].id, hex32(1));
}

#[test]
fn recheck_with_no_tag_keeps_everything() {
    let rows = vec![row(1, ",test"), row(2, ",testing")];
    assert_eq!(recheck_idea_rows(rows, &None).len(), 2);
    let rows = vec![row(1, ",test"), row(2, ",testing")];
    assert_eq!(recheck_idea_rows(rows, &Some(String::new())).len(), 2);
}

#[test]
fn idea_row_codec_round_trips() {
    let msg = StoreIdea {
        id: 1,
        collection: 7,
        name: "Test Idea".to_string(),
        description: "This is a test idea".to_string(),
        tags: vec!["test".to_string(), "other".to_string()],
        completed: true,
    };
    let stored = idea_row_of_store(&msg);
    assert_eq!(stored.collection_id, "00000000000000000000000000000007");
    assert_eq!(stored.id, "00000000000000000000000000000001");
    assert_eq!(stored.tags, ",test,other");
    let back = idea_from_row(&stored);
    assert_eq!(back.id, 1);
    assert_eq!(back.collection_id, 7);
    assert_eq!(back.name, "Test Idea");
    assert_eq!(back.description, "This is a test idea");
    let mut tags = back.tags.clone();
    tags.sort();
    assert_eq!(tags, vec!["other".to_string(), "test".to_string()]);
    assert!(back.completed);
}

#[test]
fn unreadable_row_keys_fall_back_to_zero() {
    let stored = TableStorageUser {
        email_hash: "junk".to_string(),
        row_key: "junk".to_string(),
        principal_id: hex32(3),
        first_name: "Test".to_string(),
    };
    let back = user_from_row(&stored);
    assert_eq!(back.email_hash, 0);
    assert_eq!(back.principal_id, 3);
}

#[test]
fn role_rows_parse_their_role_string() {
    for (name, want_owner) in [("Owner", true), ("owner", false)] {
        let stored = TableStorageRoleAssignment {
            collection_id: hex32(1),
            principal_id: hex32(2),
            role: name.to_string(),
        };
        let back = role_assignment_from_row(&stored);
        assert_eq!(matches!(back.role, rex::models::Role::Owner), want_owner);
        if !want_owner {
            assert!(matches!(back.role, rex::models::Role::Invalid));
        }
    }
}

#[test]
fn pages_accumulate_in_order() {
    let pages = vec![vec![1, 2], vec![], vec![3]];
    assert_eq!(collect_pages(pages), vec![1, 2, 3]);
    assert_eq!(collect_pages(Vec::<Vec<u32>>::new()), Vec::<u32>::new());
}

#[test]
fn random_row_stays_in_the_set() {
    let rows = vec![row(1, ",test")];
    for _ in 0..10 {
        let picked = pick_random_row(&rows).expect("one row is there");
        assert_eq!(picked.id, hex32(1));
    }
    let empty: Vec<TableStorageIdea> = vec![];
    assert!(pick_random_row(&empty).is_none());
}

#[test]
fn remote_outcomes_map_to_the_documented_errors() {
    let ok: Result<u32, APIError> = resolve_get(RemoteOutcome::Returned(5), APIError::new(404, "Not Found", "missing"));
    assert_eq!(ok.unwrap(), 5);
    let nf = resolve_get::<u32>(RemoteOutcome::CallFailed, APIError::new(404, "Not Found", "missing"))
        .expect_err("a failed read is the chosen not-found");
    assert_eq!(nf.code, 404);
    assert_eq!(nf.message, "missing");
    let bad = resolve_get::<u32>(RemoteOutcome::BadReference, APIError::new(404, "Not Found", "missing"))
        .expect_err("a bad reference is internal");
    assert_eq!(bad.code, 500);
    let unavailable = resolve_store::<u32>(RemoteOutcome::CallFailed)
        .expect_err("a failed write is retryable");
    assert_eq!(unavailable.code, 503);
    assert_eq!(unavailable.error, "Service Unavailable");
    let removed = resolve_remove(RemoteOutcome::Returned(()));
    assert!(removed.is_ok());
    let gone = resolve_remove(RemoteOutcome::CallFailed).expect_err("a failed delete is retryable");
    assert_eq!(gone.code, 503);
}

#[test]
fn removing_a_missing_entity_is_not_found_every_time() {
    // An already-removed key answers not-found, not a retryable
    // failure, and it never succeeds twice.
    for _ in 0..2 {
        let err = resolve_remove(RemoteOutcome::Missing)
            .expect_err("a missing entity never removes");
        assert_eq!(err.code, 404);
        assert_eq!(err.error, "Not Found");
    }
    let missing_read = resolve_get::<u32>(
        RemoteOutcome::Missing,
        APIError::new(404, "Not Found", "missing"),
    )
    .expect_err("a missing entity reads as the chosen not-found");
    assert_eq!(missing_read.code, 404);
}

#[test]
fn durable_listing_pipeline_corrects_the_prefilter() {
    // Two remote pages, as a contains("test") query might return them:
    // the "testing" row is a false match the pipeline must drop.
    let pages = vec![vec![row(1, ",test"), row(2, ",testing")], vec![row(3, ",other,test")]];
    let ideas = durable_get_ideas(pages, &Some("test".to_string()));
    let ids: Vec<u128> = ideas.iter().map(|i| i.id).collect();
    assert_eq!(ids, vec![1, 3]);
    assert_eq!(ideas[0].collection_id, 7);
    assert_eq!(ideas[0].name, "Test Idea");
}

#[test]
fn durable_random_pipeline_draws_from_the_exact_matches() {
    for _ in 0..10 {
        let pages = vec![vec![row(1, ",test"), row(2, ",testing")]];
        let drawn = durable_get_random_idea(pages, &Some("test".to_string()))
            .expect("exactly one row passes the re-check");
        assert_eq!(drawn.id, 1);
    }
    let none = durable_get_random_idea(vec![vec![row(2, ",testing")]], &Some("test".to_string()));
    assert!(none.is_none());
}
