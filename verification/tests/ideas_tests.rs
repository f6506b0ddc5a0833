use rex::auth::{bearer_token, AuthAdditionalClaims, AuthToken};
use rex::errors::Error;
use rex::health::{HealthState, HealthV1, HealthV2};
use rex::ideas::{filter_matches, Idea, IdeaV1, IdeaV2, IdeasState};
use rex::models::{new_id, normalize_tags, Role, StateView};
use rex::rules::email_hash;
use rex::strutil::leading_word;

fn plain_idea(id: u128, tags: Vec<String>) -> Idea {
    Idea {
        id,
        name: "Test Idea".to_string(),
        description: "This is a test idea".to_string(),
        tags,
        completed: false,
    }
}

#[test]
fn ideas_state_round_trips_a_v2_view() {
    let mut state = IdeasState::new();
    let stored: IdeaV2 = state
        .store_idea(&IdeaV2 {
            id: Some("00000000000000000000000000000001".to_string()),
            name: "Test Idea".to_string(),
            description: "This is a test idea".to_string(),
            tags: vec!["test1".to_string(), "test2".to_string()],
            completed: None,
        })
        .expect("the store should accept the idea");
    assert_eq!(stored.id, Some("00000000000000000000000000000001".to_string()));
    let got: IdeaV2 = state.idea(1).expect("the idea should be readable back");
    assert_eq!(got.name, "Test Idea");
    assert_eq!(got.description, "This is a test idea");
    let mut tags = got.tags.clone();
    tags.sort();
    assert_eq!(tags, vec!["test1".to_string(), "test2".to_string()]);
    assert_eq!(got.completed, Some(false));
}

#[test]
fn ideas_state_lists_everything() {
    let mut state = IdeasState::new();
    for id in 1..=3u128 {
        state
            .store_idea::<IdeaV1>(&IdeaV1 {
                id: Some(rex::ident::hex32(id)),
                name: "Test Idea".to_string(),
                description: "This is a test idea".to_string(),
            })
            .expect("the store should accept the idea");
    }
    let all: Vec<IdeaV1> = state.ideas().expect("the listing should succeed");
    assert_eq!(all.len(), 3);
    assert!(state.idea::<IdeaV1>(9).is_none());
}

#[test]
fn ideas_list_in_ascending_id_order() {
    let mut state = IdeasState::new();
    for id in [5u128, 1, 3] {
        state
            .store_idea::<IdeaV1>(&IdeaV1 {
                id: Some(rex::ident::hex32(id)),
                name: "Test Idea".to_string(),
                description: "This is a test idea".to_string(),
            })
            .expect("the store should accept the idea");
    }
    let all: Vec<IdeaV1> = state.ideas().expect("the listing should succeed");
    let ids: Vec<Option<String>> = all.into_iter().map(|v| v.id).collect();
    assert_eq!(
        ids,
        vec![
            Some(rex::ident::hex32(1)),
            Some(rex::ident::hex32(3)),
            Some(rex::ident::hex32(5)),
        ]
    );
}

#[test]
fn ideas_by_applies_the_predicate() {
    let mut state = IdeasState::new();
    state
        .store_idea::<IdeaV2>(&IdeaV2 {
            id: Some(rex::ident::hex32(1)),
            name: "Test Idea".to_string(),
            description: "This is a test idea".to_string(),
            tags: vec!["test1".to_string()],
            completed: None,
        })
        .expect("the store should accept the idea");
    state
        .store_idea::<IdeaV2>(&IdeaV2 {
            id: Some(rex::ident::hex32(2)),
            name: "Test Idea".to_string(),
            description: "This is a test idea".to_string(),
            tags: vec!["test2".to_string()],
            completed: None,
        })
        .expect("the store should accept the idea");
    let tag = Some("test1".to_string());
    let matched: Vec<IdeaV2> = state
        .ideas_by(|i: &Idea| filter_matches(i, &tag, &None))
        .expect("the listing should succeed");
    assert_eq!(matched.len(), 1);
    assert_eq!(matched[0].tags, vec!["test1".to_string()]);
}

#[test]
fn random_idea_respects_the_predicate() {
    let mut state = IdeasState::new();
    state
        .store_idea::<IdeaV2>(&IdeaV2 {
            id: Some(rex::ident::hex32(1)),
            name: "Test Idea".to_string(),
            description: "This is a test idea".to_string(),
            tags: vec!["test1".to_string()],
            completed: None,
        })
        .expect("the store should accept the idea");
    for _ in 0..10 {
        let got: IdeaV2 = state
            .random_idea(|i: &Idea| filter_matches(i, &Some("test1".to_string()), &None))
            .expect("one idea matches");
        assert_eq!(got.tags, vec!["test1".to_string()]);
    }
    let none: Option<IdeaV1> =
        state.random_idea(|i: &Idea| filter_matches(i, &Some("missing".to_string()), &None));
    assert!(none.is_none());
}

#[test]
fn filter_matches_is_exact_on_tags() {
    let idea = plain_idea(1, vec!["test".to_string()]);
    assert!(filter_matches(&idea, &Some("test".to_string()), &None));
    assert!(!filter_matches(&idea, &Some("tes".to_string()), &None));
    assert!(!filter_matches(&idea, &Some("testing".to_string()), &None));
    assert!(filter_matches(&idea, &None, &Some(false)));
    assert!(!filter_matches(&idea, &None, &Some(true)));
}

#[test]
fn normalize_tags_drops_duplicates() {
    let tags = vec!["a".to_string(), "b".to_string(), "a".to_string()];
    assert_eq!(normalize_tags(tags), vec!["a".to_string(), "b".to_string()]);
}

#[test]
fn role_strings_parse_and_render() {
    assert!(matches!(Role::parse("Owner"), Role::Owner));
    assert!(matches!(Role::parse("Contributor"), Role::Contributor));
    assert!(matches!(Role::parse("Viewer"), Role::Viewer));
    assert!(matches!(Role::parse("anything else"), Role::Invalid));
    assert_eq!(Role::Owner.name(), "Owner");
    assert_eq!(Role::Contributor.name(), "Contributor");
    assert_eq!(Role::Viewer.name(), "Viewer");
    assert_eq!(Role::Invalid.name(), "INVALID");
}

#[test]
fn email_hash_matches_a_known_digest() {
    // md5("testy@example.com"), after lowercasing and trimming.
    let want = 0x05c1de2f5c5e7933bee97a499e818c5e_u128;
    assert_eq!(email_hash("testy@example.com"), want);
    assert_eq!(email_hash("Testy@Example.COM"), want);
    assert_eq!(email_hash("  testy@example.com  "), want);
    assert_ne!(email_hash("other@example.com"), want);
}

#[test]
fn leading_word_takes_the_first_name() {
    assert_eq!(leading_word("Testy McTesterson"), "Testy");
    assert_eq!(leading_word("Testy"), "Testy");
    assert_eq!(leading_word(""), "");
}

#[test]
fn new_id_is_a_version_four_identifier() {
    let a = new_id();
    let b = new_id();
    assert_ne!(a, b);
    // The version nibble of a random identifier is always four.
    assert_eq!((a >> 76) & 0xf, 4);
}

#[test]
fn bearer_tokens_come_out_of_the_header() {
    let token = bearer_token("Bearer abc.def").expect("a well-formed header");
    assert_eq!(token, "abc.def");
    assert_eq!(bearer_token("Basic abc").expect_err("wrong scheme").code, 401);
    assert_eq!(bearer_token("Bearer ").expect_err("no credential").code, 401);
    assert_eq!(bearer_token("Bear").expect_err("too short").code, 401);
}

#[test]
fn token_accessors_expose_the_claims() {
    let token = AuthToken {
        claims: AuthAdditionalClaims {
            oid: "00000000-0000-0000-0000-000000000001".to_string(),
            roles: vec!["Administrator".to_string()],
            scp: "Ideas.Read Ideas.Write".to_string(),
            unique_name: "testy@example.com".to_string(),
        },
        display_name: "Testy McTesterson".to_string(),
    };
    assert_eq!(token.oid(), "00000000-0000-0000-0000-000000000001");
    assert_eq!(token.name(), "Testy McTesterson");
    assert_eq!(token.roles(), &vec!["Administrator".to_string()]);
    assert_eq!(token.scopes(), vec!["Ideas.Read".to_string(), "Ideas.Write".to_string()]);
    assert_eq!(token.email(), "testy@example.com");
}

#[test]
fn health_views_carry_the_flag() {
    let state = HealthState::new();
    assert!(state.ok);
    let v1: HealthV1 = state.health();
    assert!(v1.ok);
    let v2: HealthV2 = state.health();
    assert!(v2.ok);
    assert_eq!(v2.started_at, state.started_at);
    // The clock is sane: the process did not start before 2020.
    assert!(state.started_at > 1_577_836_800_000);
}

#[test]
fn error_payloads_carry_their_codes() {
    let nf = Error::not_found();
    assert_eq!(nf.code, 404);
    assert_eq!(nf.error, "Not Found");
    let un = Error::unprocessable();
    assert_eq!(un.code, 422);
    assert_eq!(un.error, "Unprocessable Entity");
    let internal = Error::internal();
    assert_eq!(internal.code, 500);
    assert_eq!(internal.error, "Internal Server Error");
    let unauthorized = rex::APIError::unauthorized();
    assert_eq!(unauthorized.code, 401);
}
