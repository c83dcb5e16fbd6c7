use vstd::prelude::*;

verus! {

/// Any outside dependency (database pool, cache) implements this: the
/// registry runs the checks without knowing what is behind each one.
///
/// `reports` relates a check to whether `check` may pass (answer `Ok`).
/// Whether a check passes depends on the outside world; the default relation
/// claims nothing.
pub trait HealthCheck {
    closed spec fn reports(&self, passed: bool) -> bool {
        true
    }

    fn name(&self) -> &'static str;

    fn check(&self) -> (outcome: Result<(), String>)
        ensures
            self.reports(outcome is Ok),
    ;
}

/// The status a readiness probe answers, given the outcomes of the checks
/// in the order they run: 200 when every one passed, 503 otherwise.
pub open spec fn readiness_status(passed: Seq<bool>) -> u16 {
    if forall|i: int| 0 <= i < passed.len() ==> #[trigger] passed[i] {
        200
    } else {
        503
    }
}

/// The status a readiness probe answers for the recorded outcomes.
pub fn readiness_of(passed: &Vec<bool>) -> (status: u16)
    ensures
        status == readiness_status(passed@),
{
    let mut i: usize = 0;
    while i < passed.len()
        invariant
            i <= passed@.len(),
            forall|k: int| 0 <= k < i ==> #[trigger] passed@[k],
        decreases passed@.len() - i,
    {
        if !passed[i] {
            return 503;
        }
        i = i + 1;
    }
    200
}

/// The checks of a service, in registration order; one registry gathers
/// checks of any kind (a database pool, a cache...).
pub struct HealthRegistry {
    checks: Vec<Box<dyn HealthCheck>>,
}

impl View for HealthRegistry {
    type V = Seq<Box<dyn HealthCheck>>;

    closed spec fn view(&self) -> Seq<Box<dyn HealthCheck>> {
        self.checks@
    }
}

impl Default for HealthRegistry {
    fn default() -> (registry: Self)
        ensures
            registry@ == Seq::<Box<dyn HealthCheck>>::empty(),
    {
        HealthRegistry { checks: Vec::new() }
    }
}

impl HealthRegistry {
    pub fn new() -> (registry: Self)
        ensures
            registry@ == Seq::<Box<dyn HealthCheck>>::empty(),
    {
        HealthRegistry { checks: Vec::new() }
    }

    pub fn register(self, check: Box<dyn HealthCheck>) -> (registry: Self)
        ensures
            registry@ == self@.push(check),
    {
        let mut checks = self.checks;
        checks.push(check);
        HealthRegistry { checks }
    }

    /// The check registered at position `i`.
    pub fn check_at(&self, i: usize) -> (check: &Box<dyn HealthCheck>)
        requires
            i < self@.len(),
        ensures
            *check == self@[i as int],
    {
        &self.checks[i]
    }

    /// The number of registered checks.
    pub fn len(&self) -> (n: usize)
        ensures
            n == self@.len(),
    {
        self.checks.len()
    }

    /// GET /health: liveness, 200 whenever the process answers, without
    /// looking at any dependency.
    pub fn liveness() -> (status: u16)
        ensures
            status == 200,
    {
        200
    }

    /// GET /ready: readiness. Runs the checks in registration order and stops
    /// at the first that fails: 503 then, 200 when all pass (or there are
    /// none). Returns the status and the outcomes of the checks that ran:
    /// outcome `i` is what the `i`-th registered check answered.
    pub fn readiness(&self) -> (answer: (u16, Vec<bool>))
        ensures
            answer.0 == readiness_status(answer.1@),
            forall|i: int| 0 <= i < answer.1@.len() ==> #[trigger] self@[i].reports(answer.1@[i]),
            answer.1@.len() <= self@.len(),
            answer.1@.len() < self@.len() ==> answer.1@.len() > 0 && !answer.1@.last(),
            forall|i: int| 0 <= i < answer.1@.len() - 1 ==> #[trigger] answer.1@[i],
            answer.0 == 200 <==> (answer.1@.len() == self@.len() && forall|i: int|
                0 <= i < answer.1@.len() ==> #[trigger] answer.1@[i]),
            answer.0 == 200 || answer.0 == 503,
    {
        let mut passed: Vec<bool> = Vec::new();
        let mut i: usize = 0;
        while i < self.checks.len()
            invariant
                i <= self.checks@.len(),
                passed@.len() == i,
                forall|k: int| 0 <= k < i ==> #[trigger] passed@[k],
                forall|k: int| 0 <= k < i ==> #[trigger] self.checks@[k].reports(passed@[k]),
            decreases self.checks@.len() - i,
        {
            let outcome = self.checks[i].check();
            let ok = outcome.is_ok();
            passed.push(ok);
            assert(self.checks@[i as int].reports(passed@[i as int]));
            if !ok {
                assert(!passed@[i as int]);
                let status = readiness_of(&passed);
                return (status, passed);
            }
            i = i + 1;
        }
        let status = readiness_of(&passed);
        (status, passed)
    }
}

} // verus!
