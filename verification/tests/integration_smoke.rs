//! A toy domain (`Widget`) going through the whole generic pipeline:
//! Entity/AggregateRoot, InMemoryRepository, QueryUseCase,
//! CreateUseCase + CreationPolicy, and RestResource.
use ddd_core::application::{CreateUseCase, CreationPolicy, QueryUseCase, ReadRepository, WriteRepository};
use ddd_core::domain::{AggregateRoot, DomainError, Entity};
use ddd_core::infrastructure::web::rest_resource::parse_id;
use ddd_core::infrastructure::web::RestResource;
use ddd_core::infrastructure::InMemoryRepository;
use uuid::Uuid;

#[derive(Debug, Clone, PartialEq)]
struct Widget {
    id: Option<Uuid>,
    name: String,
}

impl Entity for Widget {
    type Id = Uuid;

    fn id(&self) -> Option<Uuid> {
        self.id
    }

    fn entity_name() -> &'static str {
        "Widget"
    }
}

impl AggregateRoot for Widget {}

/// Reads the id of a URL path as the router does: with the id type's `FromStr`.
fn read_path_id(raw: &str) -> Result<Uuid, DomainError> {
    parse_id(raw, raw.parse::<Uuid>().ok())
}

struct UniqueNamePolicy;

impl CreationPolicy<Widget, Widget> for UniqueNamePolicy {
    fn build(&self, input: Widget) -> Result<Widget, DomainError> {
        Ok(input)
    }

    fn check_invariants(&self, entity: &Widget) -> Result<(), DomainError> {
        if entity.name.trim().is_empty() {
            return Err(DomainError::Validation("name cannot be empty".into()));
        }
        Ok(())
    }
}

#[test]
fn create_use_case_persists_via_in_memory_repository() {
    let mut repo = InMemoryRepository::<Widget>::new();
    let policy = UniqueNamePolicy;

    let widget = Widget { id: Some(Uuid::new_v4()), name: "bolt".into() };
    let created = {
        let mut create = CreateUseCase::new(&mut repo, &policy);
        create.execute(widget.clone()).expect("create should succeed")
    };
    assert_eq!(created, widget);

    let query = QueryUseCase::new(&repo);
    let found = query.find_by_id(widget.id.unwrap()).expect("should find it");
    assert_eq!(found, widget);
}

#[test]
fn create_use_case_rejects_invalid_invariant() {
    let mut repo = InMemoryRepository::<Widget>::new();
    let policy = UniqueNamePolicy;
    let mut create = CreateUseCase::new(&mut repo, &policy);

    let widget = Widget { id: Some(Uuid::new_v4()), name: "".into() };
    let err = create.execute(widget).expect_err("should reject empty name");
    assert!(matches!(err, DomainError::Validation(_)));
}

#[test]
fn query_use_case_list_paginates() {
    let mut repo = InMemoryRepository::<Widget>::new();
    for i in 0..5 {
        repo.create(Widget { id: Some(Uuid::new_v4()), name: format!("w{i}") }).unwrap();
    }
    let query = QueryUseCase::new(&repo);
    let page = query.list(1, 3).unwrap();
    assert_eq!(page.len(), 3);
}

#[test]
fn update_route_persists_via_write_repository() {
    let mut repo = InMemoryRepository::<Widget>::new();
    let id = Uuid::new_v4();
    repo.create(Widget { id: Some(id), name: "original".into() }).unwrap();

    let mut resource = RestResource::new(repo, UniqueNamePolicy);

    let updated = Widget { id: Some(id), name: "updated".into() };
    let got = resource.update_h(read_path_id(&format!("{id}")).unwrap(), updated).expect("update should succeed");
    assert_eq!(got.name, "updated");

    // the id did not change, only the content was updated
    let found = resource.repository().find_by_id(&id).unwrap().unwrap();
    assert_eq!(found.name, "updated");
}

#[test]
fn update_route_rejects_mismatched_body_id() {
    let mut repo = InMemoryRepository::<Widget>::new();
    let path_id = Uuid::new_v4();
    let body_id = Uuid::new_v4();
    repo.create(Widget { id: Some(path_id), name: "original".into() }).unwrap();

    let mut resource = RestResource::new(repo, UniqueNamePolicy);

    let mismatched = Widget { id: Some(body_id), name: "x".into() };
    let err = resource.update_h(read_path_id(&format!("{path_id}")).unwrap(), mismatched).expect_err("should refuse");
    // exactly 400, not just "some 4xx"
    assert_eq!(err.problem_type_and_status().1, 400);
    let kept = resource.repository().find_by_id(&path_id).unwrap().unwrap();
    assert_eq!(kept.name, "original");
}
