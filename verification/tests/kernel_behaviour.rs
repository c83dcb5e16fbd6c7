use std::cell::RefCell;
use std::collections::HashMap;
use std::time::Duration;

use ddd_core::application::use_cases::query::require_found;
use ddd_core::application::{
    Authenticator, CreateUseCase, CreationPolicy, Principal, QueryUseCase, ReadRepository, WriteRepository,
};
use ddd_core::domain::{AggregateRoot, DomainError, DomainEvent, Entity, EventBus};
use ddd_core::infrastructure::caching::cache::cache_entry;
use ddd_core::infrastructure::caching::{Cache, CachedReadRepository};
use ddd_core::infrastructure::observability::health::readiness_of;
use ddd_core::infrastructure::observability::{HealthCheck, HealthRegistry};
use ddd_core::infrastructure::web::auth_layer::{authenticate_request, extract_credential, UNAUTHORIZED};
use ddd_core::infrastructure::web::error_mapping::BASE_URI;
use ddd_core::infrastructure::web::middleware::{
    MakeRequestUuid, DEFAULT_BODY_LIMIT_BYTES, DEFAULT_TIMEOUT_SECS, REQUEST_ID_HEADER,
};
use ddd_core::infrastructure::web::rest_resource::{default_limit, default_page, parse_id, PageParams};
use ddd_core::infrastructure::web::RestResource;
use ddd_core::infrastructure::InMemoryRepository;

#[derive(Debug, Clone, PartialEq)]
struct Gadget {
    id: Option<u128>,
    label: String,
}

impl Entity for Gadget {
    type Id = u128;

    fn id(&self) -> Option<u128> {
        self.id
    }

    fn entity_name() -> &'static str {
        "Gadget"
    }
}

impl AggregateRoot for Gadget {}

fn gadget(id: u128, label: &str) -> Gadget {
    Gadget { id: Some(id), label: label.to_string() }
}

fn labels(items: &[Gadget]) -> Vec<String> {
    items.iter().map(|g| g.label.clone()).collect()
}

/// The labels of `items`, sorted: a listing walks a hash map, in no set order.
fn sorted_labels(items: &[Gadget]) -> Vec<String> {
    let mut all = labels(items);
    all.sort();
    all
}

/// Reads the id of a URL path as the router does: with the id type's `FromStr`.
fn read_id(raw: &str) -> Result<u128, DomainError> {
    parse_id(raw, raw.parse::<u128>().ok())
}

fn filled(n: u128) -> InMemoryRepository<Gadget> {
    let mut repo = InMemoryRepository::new();
    for i in 0..n {
        repo.create(gadget(100 + i, &format!("g{i}"))).unwrap();
    }
    repo
}

struct AcceptAll;

impl CreationPolicy<Gadget, Gadget> for AcceptAll {
    fn build(&self, input: Gadget) -> Result<Gadget, DomainError> {
        Ok(input)
    }

    fn check_invariants(&self, _entity: &Gadget) -> Result<(), DomainError> {
        Ok(())
    }
}

/// Assigns the id 42 when building; refuses labels that already exist.
struct AssignAndCheck<'a> {
    existing: &'a [&'a str],
}

impl<'a> CreationPolicy<Gadget, Gadget> for AssignAndCheck<'a> {
    fn build(&self, input: Gadget) -> Result<Gadget, DomainError> {
        if input.label == "broken" {
            return Err(DomainError::InvariantViolation("cannot build".into()));
        }
        Ok(Gadget { id: Some(42), label: input.label })
    }

    fn check_invariants(&self, entity: &Gadget) -> Result<(), DomainError> {
        if self.existing.contains(&entity.label.as_str()) {
            return Err(DomainError::AlreadyExists { entity: "Gadget", reason: entity.label.clone() });
        }
        Ok(())
    }
}

// ---- in-memory repository ----

#[test]
fn repository_find_after_create() {
    let mut repo = InMemoryRepository::new();
    let created = repo.create(gadget(7, "seven")).unwrap();
    assert_eq!(created, gadget(7, "seven"));
    assert_eq!(repo.find_by_id(&7).unwrap(), Some(gadget(7, "seven")));
    assert_eq!(repo.find_by_id(&8).unwrap(), None);
}

#[test]
fn repository_create_without_id_is_refused_and_changes_nothing() {
    let mut repo = filled(2);
    let err = repo.create(Gadget { id: None, label: "nobody".into() }).unwrap_err();
    match err {
        DomainError::Infrastructure(text) => {
            assert_eq!(text, "entidad sin id en create() — el dominio debe asignarlo antes")
        }
        other => panic!("unexpected {other:?}"),
    }
    assert_eq!(sorted_labels(&repo.find_all_paginated(10, 0).unwrap()), vec!["g0", "g1"]);
}

#[test]
fn repository_update_without_id_is_refused() {
    let mut repo = filled(1);
    let err = repo.update(Gadget { id: None, label: "nobody".into() }).unwrap_err();
    match err {
        DomainError::Infrastructure(text) => assert_eq!(text, "entidad sin id en update()"),
        other => panic!("unexpected {other:?}"),
    }
}

#[test]
fn repository_update_replaces_what_was_stored() {
    let mut repo = filled(3);
    repo.update(gadget(101, "changed")).unwrap();
    assert_eq!(sorted_labels(&repo.find_all_paginated(10, 0).unwrap()), vec!["changed", "g0", "g2"]);
    assert_eq!(repo.find_by_id(&101).unwrap(), Some(gadget(101, "changed")));
    assert_eq!(repo.find_by_id(&100).unwrap(), Some(gadget(100, "g0")));
}

#[test]
fn repository_update_of_unknown_id_inserts() {
    let mut repo = filled(1);
    repo.update(gadget(900, "late")).unwrap();
    assert_eq!(sorted_labels(&repo.find_all_paginated(10, 0).unwrap()), vec!["g0", "late"]);
}

#[test]
fn repository_create_twice_keeps_one_entry() {
    let mut repo = InMemoryRepository::new();
    repo.create(gadget(5, "first")).unwrap();
    repo.create(gadget(5, "second")).unwrap();
    assert_eq!(labels(&repo.find_all_paginated(10, 0).unwrap()), vec!["second"]);
}

#[test]
fn repository_find_after_delete() {
    let mut repo = filled(3);
    repo.delete(&101).unwrap();
    assert_eq!(repo.find_by_id(&101).unwrap(), None);
    assert_eq!(sorted_labels(&repo.find_all_paginated(10, 0).unwrap()), vec!["g0", "g2"]);
    // deleting an absent id is no error
    assert!(repo.delete(&101).is_ok());
}

#[test]
fn repository_create_then_delete_restores() {
    let mut repo = filled(2);
    let before = sorted_labels(&repo.find_all_paginated(10, 0).unwrap());
    repo.create(gadget(55, "temporary")).unwrap();
    repo.delete(&55).unwrap();
    assert_eq!(sorted_labels(&repo.find_all_paginated(10, 0).unwrap()), before);
    assert_eq!(repo.find_by_id(&55).unwrap(), None);
}

#[test]
fn repository_pagination_slices_the_listing() {
    let repo = filled(5);
    let all = labels(&repo.find_all_paginated(10, 0).unwrap());
    assert_eq!(sorted_labels(&repo.find_all_paginated(10, 0).unwrap()), vec!["g0", "g1", "g2", "g3", "g4"]);
    assert_eq!(labels(&repo.find_all_paginated(2, 0).unwrap()), all[0..2].to_vec());
    assert_eq!(labels(&repo.find_all_paginated(2, 2).unwrap()), all[2..4].to_vec());
    assert_eq!(labels(&repo.find_all_paginated(2, 4).unwrap()), all[4..5].to_vec());
    assert!(repo.find_all_paginated(2, 5).unwrap().is_empty());
    assert!(repo.find_all_paginated(2, 500).unwrap().is_empty());
    assert_eq!(labels(&repo.find_all_paginated(i64::MAX, 3).unwrap()), all[3..5].to_vec());
}

#[test]
fn repository_pagination_clamps_negative_values() {
    let repo = filled(3);
    let all = labels(&repo.find_all_paginated(10, 0).unwrap());
    assert_eq!(labels(&repo.find_all_paginated(2, -4).unwrap()), all[0..2].to_vec());
    assert!(repo.find_all_paginated(-1, 0).unwrap().is_empty());
    assert!(repo.find_all_paginated(0, 1).unwrap().is_empty());
}

#[test]
fn repository_adjacent_pages_cover_both() {
    let repo = filled(7);
    let mut joined = repo.find_all_paginated(3, 1).unwrap();
    joined.extend(repo.find_all_paginated(3, 4).unwrap());
    assert_eq!(joined, repo.find_all_paginated(6, 1).unwrap());
}

#[test]
fn repository_default_is_empty() {
    let repo: InMemoryRepository<Gadget> = Default::default();
    assert!(repo.find_all_paginated(10, 0).unwrap().is_empty());
}

// ---- query use case ----

#[test]
fn query_pages_below_one_are_the_first() {
    let repo = filled(4);
    let query = QueryUseCase::new(&repo);
    let all = labels(&repo.find_all_paginated(10, 0).unwrap());
    assert_eq!(labels(&query.list(0, 2).unwrap()), all[0..2].to_vec());
    assert_eq!(labels(&query.list(-3, 2).unwrap()), all[0..2].to_vec());
    assert_eq!(labels(&query.list(1, 2).unwrap()), all[0..2].to_vec());
    assert_eq!(labels(&query.list(2, 2).unwrap()), all[2..4].to_vec());
    assert!(query.list(3, 2).unwrap().is_empty());
}

#[test]
fn query_missing_entity_is_not_found() {
    let repo = filled(1);
    let query = QueryUseCase::new(&repo);
    match query.find_by_id(999) {
        Err(DomainError::NotFound { entity }) => assert_eq!(entity, "Gadget"),
        other => panic!("unexpected {other:?}"),
    }
    assert_eq!(query.find_by_id(100).unwrap(), gadget(100, "g0"));
}

#[test]
fn require_found_covers_each_answer() {
    assert_eq!(require_found(Ok(Some(3u8)), "N").unwrap(), 3);
    assert!(matches!(require_found::<u8>(Ok(None), "N"), Err(DomainError::NotFound { entity: "N" })));
    assert!(matches!(
        require_found::<u8>(Err(DomainError::Validation("v".into())), "N"),
        Err(DomainError::Validation(_))
    ));
}

// ---- creation use case ----

#[test]
fn creation_steps_stop_at_the_first_failure() {
    let existing = ["taken"];
    let policy = AssignAndCheck { existing: &existing };
    let mut repo = InMemoryRepository::new();
    {
        let mut create = CreateUseCase::new(&mut repo, &policy);
        let err = create.execute(Gadget { id: None, label: "broken".into() }).unwrap_err();
        assert!(matches!(err, DomainError::InvariantViolation(_)));
        let err = create.execute(Gadget { id: None, label: "taken".into() }).unwrap_err();
        assert!(matches!(err, DomainError::AlreadyExists { .. }));
        let made = create.execute(Gadget { id: None, label: "fresh".into() }).unwrap();
        assert_eq!(made, gadget(42, "fresh"));
    }
    assert_eq!(labels(&repo.find_all_paginated(10, 0).unwrap()), vec!["fresh"]);
    assert_eq!(repo.find_by_id(&42).unwrap(), Some(gadget(42, "fresh")));
}

#[test]
fn creation_without_id_fails_in_the_repository() {
    let mut repo = InMemoryRepository::new();
    let mut create = CreateUseCase::new(&mut repo, &AcceptAll);
    let err = create.execute(Gadget { id: None, label: "x".into() }).unwrap_err();
    assert!(matches!(err, DomainError::Infrastructure(_)));
}

// ---- errors ----

#[test]
fn error_messages() {
    assert_eq!(DomainError::NotFound { entity: "Order" }.message(), "Order not found");
    assert_eq!(
        DomainError::AlreadyExists { entity: "Order", reason: "duplicate".into() }.message(),
        "Order already exists: duplicate"
    );
    assert_eq!(DomainError::InvariantViolation("x".into()).message(), "Business rule violated: x");
    assert_eq!(DomainError::Validation("y".into()).message(), "Validation error: y");
    assert_eq!(DomainError::Infrastructure("z".into()).message(), "Infrastructure error: z");
}

#[test]
fn error_problem_types_and_statuses() {
    assert_eq!(DomainError::NotFound { entity: "O" }.problem_type_and_status(), ("not-found", 404));
    assert_eq!(
        DomainError::AlreadyExists { entity: "O", reason: "r".into() }.problem_type_and_status(),
        ("already-exists", 409)
    );
    assert_eq!(DomainError::InvariantViolation("x".into()).problem_type_and_status(), ("invariant-violation", 422));
    assert_eq!(DomainError::Validation("x".into()).problem_type_and_status(), ("validation-failed", 400));
    assert_eq!(DomainError::Infrastructure("x".into()).problem_type_and_status(), ("internal-server-error", 500));
}

#[test]
fn error_problem_detail() {
    let problem = DomainError::NotFound { entity: "Order" }.problem_detail();
    assert_eq!(problem.problem_type, "https://api.ddd-core.internal/problems/not-found");
    assert_eq!(problem.title, "Not Found");
    assert_eq!(problem.status, 404);
    assert_eq!(problem.detail, "Order not found");
    assert!(problem.instance.is_none());
    assert!(problem.errors.is_none());
    let titles: Vec<String> = vec![
        DomainError::AlreadyExists { entity: "O", reason: "r".into() }.problem_detail().title,
        DomainError::InvariantViolation("x".into()).problem_detail().title,
        DomainError::Validation("x".into()).problem_detail().title,
        DomainError::Infrastructure("x".into()).problem_detail().title,
    ];
    assert_eq!(titles, vec!["Conflict", "Unprocessable Entity", "Bad Request", "Internal Server Error"]);
    assert!(BASE_URI.ends_with("/problems/"));
}

// ---- REST resource ----

#[test]
fn rest_resource_crud() {
    let mut resource = RestResource::new(InMemoryRepository::new(), AcceptAll);
    let id = read_id("4242").unwrap();
    assert_eq!(id, 4242);
    let made = resource.create_h(gadget(id, "made")).unwrap();
    assert_eq!(made, gadget(id, "made"));
    assert_eq!(resource.get_h(id).unwrap(), gadget(id, "made"));
    assert_eq!(labels(&resource.list(1, 20).unwrap()), vec!["made"]);
    resource.update_h(id, gadget(id, "remade")).unwrap();
    assert_eq!(resource.get_h(id).unwrap().label, "remade");
    resource.delete_h(id).unwrap();
    assert!(matches!(resource.get_h(id), Err(DomainError::NotFound { entity: "Gadget" })));
}

#[test]
fn rest_resource_refuses_bad_ids() {
    let mut resource = RestResource::new(filled(1), AcceptAll);
    match read_id("not-a-number") {
        Err(DomainError::Validation(text)) => assert_eq!(text, "invalid id: not-a-number"),
        other => panic!("unexpected {other:?}"),
    }
    let id = read_id("100").unwrap();
    match resource.update_h(id, Gadget { id: None, label: "x".into() }) {
        Err(DomainError::Validation(text)) => assert_eq!(text, "body must include the id when updating"),
        other => panic!("unexpected {other:?}"),
    }
    match resource.update_h(id, gadget(5, "x")) {
        Err(DomainError::Validation(text)) => assert_eq!(text, "body id does not match the URL id"),
        other => panic!("unexpected {other:?}"),
    }
    assert_eq!(resource.get_h(id).unwrap(), gadget(100, "g0"));
    assert_eq!(resource.repository().find_by_id(&5).unwrap(), None);
}

#[test]
fn parse_id_takes_what_the_id_type_reads() {
    let value = uuid::Uuid::parse_str("550e8400-e29b-41d4-a716-446655440000").unwrap();
    for text in [
        "550e8400-e29b-41d4-a716-446655440000",
        "550e8400e29b41d4a716446655440000",
        "{550e8400-e29b-41d4-a716-446655440000}",
    ] {
        assert_eq!(parse_id(text, text.parse::<uuid::Uuid>().ok()).unwrap(), value);
    }
    match parse_id("42", "42".parse::<uuid::Uuid>().ok()) {
        Err(DomainError::Validation(text)) => assert_eq!(text, "invalid id: 42"),
        other => panic!("unexpected {other:?}"),
    }
    assert_eq!(read_id("42").unwrap(), 42);
    match parse_id::<String>("abc", None) {
        Err(DomainError::Validation(text)) => assert_eq!(text, "invalid id: abc"),
        other => panic!("unexpected {other:?}"),
    }
    assert_eq!(parse_id("abc", Some("abc".to_string())).unwrap(), "abc");
}

#[test]
fn page_defaults() {
    assert_eq!(default_page(), 1);
    assert_eq!(default_limit(), 20);
    let params = PageParams { page: default_page(), limit: default_limit() };
    assert_eq!((params.page, params.limit), (1, 20));
}

// ---- authentication ----

struct User {
    name: String,
}

impl Principal for User {
    fn subject_id(&self) -> &str {
        &self.name
    }

    fn has_permission(&self, permission: &str) -> bool {
        permission == "read"
    }
}

struct TokenTable;

impl Authenticator for TokenTable {
    type P = User;

    fn authenticate(&self, raw_credential: &str) -> Result<User, DomainError> {
        if raw_credential == "good-token" {
            Ok(User { name: "alice".into() })
        } else {
            Err(DomainError::Validation("unknown token".into()))
        }
    }
}

#[test]
fn bearer_credentials_are_extracted() {
    assert_eq!(extract_credential(Some("Bearer abc.def")), Some("abc.def".to_string()));
    assert_eq!(extract_credential(Some("Bearer ")), Some(String::new()));
    assert_eq!(extract_credential(Some("Basic abc")), None);
    assert_eq!(extract_credential(Some("bearer abc")), None);
    assert_eq!(extract_credential(Some("Bearer")), None);
    assert_eq!(extract_credential(None), None);
    // round trip
    let token = "t0k€n";
    assert_eq!(extract_credential(Some(&format!("Bearer {token}"))), Some(token.to_string()));
}

#[test]
fn requests_are_authenticated() {
    let user = authenticate_request(&TokenTable, Some("Bearer good-token")).ok().unwrap();
    assert_eq!(user.subject_id(), "alice");
    assert!(user.has_permission("read"));
    assert_eq!(authenticate_request(&TokenTable, Some("Bearer bad")).err(), Some(UNAUTHORIZED));
    assert_eq!(authenticate_request(&TokenTable, None).err(), Some(401));
    assert_eq!(authenticate_request(&TokenTable, Some("good-token")).err(), Some(401));
}

// ---- caching ----

struct MapCache {
    entries: RefCell<HashMap<u128, Gadget>>,
}

impl Cache<u128, Gadget> for MapCache {
    fn get(&self, key: &u128) -> Option<Gadget> {
        self.entries.borrow().get(key).cloned()
    }

    fn set(&self, key: u128, value: Gadget, _ttl: Duration) {
        self.entries.borrow_mut().insert(key, value);
    }

    fn invalidate(&self, key: &u128) {
        self.entries.borrow_mut().remove(key);
    }
}

#[test]
fn cached_repository_fills_and_answers_from_cache() {
    let cache = MapCache { entries: RefCell::new(HashMap::new()) };
    cache.entries.borrow_mut().insert(5, gadget(5, "only in cache"));
    let cached = CachedReadRepository::new(filled(2), cache, Duration::from_secs(30));
    // a hit answers without the inner repository
    assert_eq!(cached.find_by_id(&5).unwrap(), Some(gadget(5, "only in cache")));
    // a miss asks the inner repository
    assert_eq!(cached.find_by_id(&101).unwrap(), Some(gadget(101, "g1")));
    assert_eq!(cached.find_by_id(&7).unwrap(), None);
    // listings pass through
    assert_eq!(sorted_labels(&cached.find_all_paginated(10, 0).unwrap()), vec!["g0", "g1"]);
}

struct SharedCache<'a>(&'a MapCache);

impl<'a> Cache<u128, Gadget> for SharedCache<'a> {
    fn get(&self, key: &u128) -> Option<Gadget> {
        self.0.get(key)
    }

    fn set(&self, key: u128, value: Gadget, ttl: Duration) {
        self.0.set(key, value, ttl)
    }

    fn invalidate(&self, key: &u128) {
        self.0.invalidate(key)
    }
}

#[test]
fn cache_is_filled_after_a_miss() {
    let cache = MapCache { entries: RefCell::new(HashMap::new()) };
    let cached = CachedReadRepository::new(filled(2), SharedCache(&cache), Duration::from_secs(1));
    assert!(cache.get(&100).is_none());
    cached.find_by_id(&100).unwrap();
    assert_eq!(cache.get(&100), Some(gadget(100, "g0")));
    // a miss that finds nothing caches nothing
    cached.find_by_id(&3).unwrap();
    assert!(cache.get(&3).is_none());
    cache.invalidate(&100);
    assert!(cache.get(&100).is_none());
}

#[test]
fn cache_entries_after_a_miss() {
    let ttl = Duration::from_secs(9);
    assert_eq!(cache_entry(&4u128, &Ok(Some(gadget(4, "x"))), ttl), Some((4, gadget(4, "x"), ttl)));
    assert_eq!(cache_entry::<u128, Gadget>(&4, &Ok(None), ttl), None);
    assert_eq!(cache_entry::<u128, Gadget>(&4, &Err(DomainError::Validation("v".into())), ttl), None);
}

#[test]
fn a_lookup_gives_what_the_last_write_left() {
    let mut repo = InMemoryRepository::new();
    repo.create(gadget(1, "a")).unwrap();
    repo.create(gadget(2, "b")).unwrap();
    repo.update(gadget(1, "a2")).unwrap();
    repo.delete(&2).unwrap();
    repo.create(gadget(3, "c")).unwrap();
    assert_eq!(repo.find_by_id(&1).unwrap(), Some(gadget(1, "a2")));
    assert_eq!(repo.find_by_id(&2).unwrap(), None);
    assert_eq!(repo.find_by_id(&3).unwrap(), Some(gadget(3, "c")));
    assert_eq!(repo.find_by_id(&4).unwrap(), None);
}

// ---- health ----

#[test]
fn readiness_status_of_outcomes() {
    assert_eq!(readiness_of(&vec![]), 200);
    assert_eq!(readiness_of(&vec![true, true]), 200);
    assert_eq!(readiness_of(&vec![true, false]), 503);
}


struct Fixed(&'static str, bool);

impl HealthCheck for Fixed {
    fn name(&self) -> &'static str {
        self.0
    }

    fn check(&self) -> Result<(), String> {
        if self.1 {
            Ok(())
        } else {
            Err(format!("{} is down", self.0))
        }
    }
}

/// A check of another kind, registered beside `Fixed` ones; it always fails.
struct Other;

impl HealthCheck for Other {
    fn name(&self) -> &'static str {
        "other"
    }

    fn check(&self) -> Result<(), String> {
        Err("unreachable".to_string())
    }
}

#[test]
fn readiness_stops_at_first_failure() {
    let registry = HealthRegistry::new()
        .register(Box::new(Fixed("db", true)))
        .register(Box::new(Other))
        .register(Box::new(Fixed("queue", true)));
    let (status, ran) = registry.readiness();
    assert_eq!(status, 503);
    assert_eq!(ran, vec![true, false]);
    assert_eq!(registry.check_at(ran.len() - 1).name(), "other");
    assert_eq!(registry.len(), 3);
}

#[test]
fn readiness_passes_when_all_pass() {
    let registry = HealthRegistry::new().register(Box::new(Fixed("db", true))).register(Box::new(Fixed("cache", true)));
    assert_eq!(registry.readiness(), (200, vec![true, true]));
    let empty = HealthRegistry::default();
    assert_eq!(empty.readiness(), (200, vec![]));
    assert_eq!(HealthRegistry::liveness(), 200);
}

// ---- middleware ----

#[test]
fn request_ids_are_random_uuids() {
    let mut make = MakeRequestUuid;
    let first = make.make_request_id();
    let second = make.make_request_id();
    assert_ne!(first, second);
    assert_eq!(first.len(), 36);
    for (i, c) in first.chars().enumerate() {
        if [8, 13, 18, 23].contains(&i) {
            assert_eq!(c, '-');
        } else {
            assert!(c.is_ascii_hexdigit() && !c.is_ascii_uppercase());
        }
    }
    assert_eq!(first.chars().nth(14), Some('4'));
    assert!("89ab".contains(first.chars().nth(19).unwrap()));
    assert_eq!(uuid::Uuid::parse_str(&first).unwrap().get_version_num(), 4);
}

#[test]
fn middleware_constants() {
    assert_eq!(REQUEST_ID_HEADER, "x-request-id");
    assert_eq!(DEFAULT_BODY_LIMIT_BYTES, 2 * 1024 * 1024);
    assert_eq!(DEFAULT_TIMEOUT_SECS, 10);
}

// ---- events ----

#[derive(Clone, Debug, PartialEq)]
struct Shipped(u32);

impl DomainEvent for Shipped {}

#[test]
fn event_bus_delivers_to_subscribers() {
    let bus = EventBus::new(8);
    // without subscribers the event is lost, silently
    bus.publish(Shipped(0));
    let mut receiver = bus.subscribe();
    bus.publish(Shipped(1));
    bus.publish(Shipped(2));
    assert_eq!(receiver.try_recv().unwrap(), Shipped(1));
    assert_eq!(receiver.try_recv().unwrap(), Shipped(2));
    assert!(receiver.try_recv().is_err());
}
