# ddd_core

A generic DDD + hexagonal kernel for Rust back ends, verified with Verus.

- `src/domain`: `Entity` / `AggregateRoot`, `ValueObject`, `Scoped`,
  `DomainError` (with its messages), `DomainEvent` and a best-effort `EventBus`.
- `src/application`: the repository ports (`ReadRepository`,
  `WriteRepository`), the authentication port, `QueryUseCase` and
  `CreateUseCase` with its `CreationPolicy`.
- `src/infrastructure`: `InMemoryRepository` (for tests), the cache
  decorator, health checks, RFC 7807 error mapping, bearer-credential
  extraction, request ids and the REST resource's operations.

Every port carries relations (`found`, `listed`, `created`, ...) that an
adapter defines; the use cases state their outcomes through them, and the
in-memory adapter defines them exactly.

`app/` holds the HTTP edge (axum routes, middleware stack, authentication
layer, RFC 7807 responses), tracing and shutdown signals, and the serde
forms of the kernel's types.
