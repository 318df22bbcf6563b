use crate::error::ErrorKind;
use dashmap::DashMap;
use smallstr::SmallString;
use vstd::prelude::*;

verus! {

/// The immutable metadata of one installed service.
#[derive(Debug, Clone)]
pub struct ServiceImpl {
    pub name: String,
    pub paths: Vec<String>,
    pub source: String,
    pub uuid: u128,
}

/// What the pool holds under a service name. A running service carries the
/// generation that its weak handles were issued under.
#[derive(Debug, Clone)]
pub enum ServiceState {
    Running { record: ServiceImpl, generation: u64 },
    Stopped { record: ServiceImpl },
}

impl ServiceState {
    pub open spec fn record(self) -> ServiceImpl {
        match self {
            ServiceState::Running { record, .. } => record,
            ServiceState::Stopped { record } => record,
        }
    }
}

/// Where a name stands in the lifecycle.
#[derive(Debug, Clone, Copy, PartialEq, Eq)]
pub enum Status {
    Absent,
    Running,
    Stopped,
}

pub open spec fn status_in(m: Map<Seq<char>, ServiceState>, name: Seq<char>) -> Status {
    if !m.contains_key(name) {
        Status::Absent
    } else if m[name] is Running {
        Status::Running
    } else {
        Status::Stopped
    }
}

/// The edges of the lifecycle: absent -> running <-> stopped -> absent, or no change.
pub open spec fn valid_step(a: Status, b: Status) -> bool {
    a == b || (a == Status::Absent && b == Status::Running) || (a == Status::Running && b
        == Status::Stopped) || (a == Status::Stopped && b == Status::Running) || (a
        == Status::Stopped && b == Status::Absent)
}

/// Every name of `m2` is where `m1` left it, or one edge of the lifecycle further.
pub open spec fn valid_transition(m1: Map<Seq<char>, ServiceState>, m2: Map<Seq<char>, ServiceState>) -> bool {
    forall|n: Seq<char>| #[trigger] valid_step(status_in(m1, n), status_in(m2, n))
}

/// The lifecycle of every name is a walk in the state machine: when each
/// pool state comes from the one before by a pool operation (each of which
/// ensures `valid_transition`), the statuses that a name shows along the way
/// only ever follow the edges absent -> running <-> stopped -> absent.
pub proof fn lemma_lifecycle_walk(states: Seq<Map<Seq<char>, ServiceState>>, name: Seq<char>)
    requires
        forall|i: int| 0 <= i < states.len() - 1 ==> valid_transition(#[trigger] states[i], states[i + 1]),
    ensures
        forall|i: int| 0 <= i < states.len() - 1 ==> valid_step(
            status_in(#[trigger] states[i], name),
            status_in(states[i + 1], name),
        ),
{
    assert forall|i: int| 0 <= i < states.len() - 1 implies valid_step(
        status_in(#[trigger] states[i], name),
        status_in(states[i + 1], name),
    ) by {
        assert(valid_transition(states[i], states[i + 1]));
        assert(valid_step(status_in(states[i], name), status_in(states[i + 1], name)));
    }
}

/// A weak handle on a running service: it stays valid while the service keeps
/// running under the generation it was issued for.
#[derive(Debug, Clone)]
pub struct RunningService {
    pub name: String,
    pub generation: u64,
}

/// A view on a stopped service: its metadata, without execution capability.
#[derive(Debug, Clone)]
pub struct StoppedService {
    pub record: ServiceImpl,
}

/// A service as seen at the moment of a lookup.
#[derive(Debug, Clone)]
pub enum Service {
    Running(RunningService),
    Stopped(StoppedService),
}

impl RunningService {
    /// The running service's metadata, or `ServiceDropped` once the service
    /// has stopped or been replaced since the handle was issued.
    pub fn try_upgrade(&self, pool: &ServicePool) -> (r: Result<ServiceGuard, ErrorKind>)
        ensures
            r is Ok <==> pool.is_live(*self),
            r is Err ==> r matches Err(ErrorKind::ServiceDropped),
            r matches Ok(g) ==> g.record() == pool.entries()[self.name@].record(),
    {
        match pool.services.get(self.name.as_str()) {
            Some(ServiceState::Running { record, generation }) => {
                if generation == self.generation {
                    Ok(ServiceGuard { inner: record })
                } else {
                    Err(ErrorKind::ServiceDropped)
                }
            },
            _ => Err(ErrorKind::ServiceDropped),
        }
    }

    /// As `try_upgrade`, for a handle known to be live.
    pub fn upgrade(&self, pool: &ServicePool) -> (r: ServiceGuard)
        requires
            pool.is_live(*self),
        ensures
            r.record() == pool.entries()[self.name@].record(),
    {
        match self.try_upgrade(pool) {
            Ok(g) => g,
            Err(_) => vstd::pervasive::unreached(),
        }
    }

    pub fn is_dropped(&self, pool: &ServicePool) -> (r: bool)
        ensures
            r == !pool.is_live(*self),
    {
        !pool.is_live_exec(self)
    }

    /// Whether both handles were issued for the same run of the same service.
    pub fn ptr_eq(&self, other: &Self) -> (r: bool)
        ensures
            r == (self.name@ == other.name@ && self.generation == other.generation),
    {
        self.generation == other.generation && self.name == other.name
    }
}

/// A short-lived guard on a running service's metadata.
#[derive(Debug)]
pub struct ServiceGuard {
    inner: ServiceImpl,
}

impl ServiceGuard {
    pub closed spec fn record(&self) -> ServiceImpl {
        self.inner
    }

    pub fn name(&self) -> (r: &str)
        ensures
            r@ == self.record().name@,
    {
        self.inner.name.as_str()
    }

    pub fn paths(&self) -> (r: &Vec<String>)
        ensures
            *r == self.record().paths,
    {
        &self.inner.paths
    }

    pub fn source(&self) -> (r: &String)
        ensures
            *r == self.record().source,
    {
        &self.inner.source
    }

    pub fn uuid(&self) -> (r: u128)
        ensures
            r == self.record().uuid,
    {
        self.inner.uuid
    }
}

/// The version field of a 128-bit identity in big-endian layout.
pub open spec fn uuid_version(id: u128) -> u128 {
    (id >> 76u128) & 0xfu128
}

/// Relies on uuid::Uuid::new_v4 and Uuid::as_u128: a random identity whose
/// version field is 4.
#[verifier::external_body]
fn new_identity() -> (r: u128)
    ensures
        uuid_version(r) == 4,
{
    uuid::Uuid::new_v4().as_u128()
}

/// The name-to-state map of the pool, kept in a concurrent hash map.
#[verifier::external_body]
pub struct ServiceTable {
    map: DashMap<SmallString<[u8; 16]>, ServiceState>,
}

/// What a `ServiceTable` holds, by name.
pub uninterp spec fn table_entries(t: ServiceTable) -> Map<Seq<char>, ServiceState>;

impl ServiceTable {
    /// Relies on DashMap::new: a new map is empty.
    #[verifier::external_body]
    fn new() -> (r: Self)
        ensures
            table_entries(r).dom().is_empty(),
    {
        ServiceTable { map: DashMap::new() }
    }

    /// Relies on DashMap::get: the value under the key, if any (cloned out of the guard).
    #[verifier::external_body]
    fn get(&self, name: &str) -> (r: Option<ServiceState>)
        ensures
            match r {
                Some(s) => table_entries(*self).contains_key(name@) && s == table_entries(
                    *self,
                )[name@],
                None => !table_entries(*self).contains_key(name@),
            },
    {
        self.map.get(name).map(|e| e.value().clone())
    }

    /// Relies on DashMap::insert: the key now maps to the value.
    #[verifier::external_body]
    fn insert(&mut self, name: &str, state: ServiceState)
        ensures
            table_entries(*final(self)) == table_entries(*old(self)).insert(name@, state),
    {
        self.map.insert(SmallString::from_str(name), state);
    }

    /// Relies on DashMap::remove: the key leaves the map, its value is returned.
    #[verifier::external_body]
    fn remove(&mut self, name: &str) -> (r: Option<ServiceState>)
        ensures
            table_entries(*final(self)) == table_entries(*old(self)).remove(name@),
            match r {
                Some(s) => table_entries(*old(self)).contains_key(name@) && s == table_entries(
                    *old(self),
                )[name@],
                None => !table_entries(*old(self)).contains_key(name@),
            },
    {
        self.map.remove(name).map(|(_, v)| v)
    }

    /// Relies on DashMap::iter: each key of the map is visited exactly once.
    #[verifier::external_body]
    fn keys(&self) -> (r: Vec<String>)
        ensures
            forall|i: int| 0 <= i < r@.len() ==> table_entries(*self).contains_key(#[trigger] r@[i]@),
            forall|k: Seq<char>| table_entries(*self).contains_key(k) ==> exists|i: int|
                0 <= i < r@.len() && #[trigger] r@[i]@ == k,
            forall|i: int, j: int| 0 <= i < j < r@.len() ==> r@[i]@ != r@[j]@,
    {
        self.map.iter().map(|e| e.key().as_str().to_string()).collect()
    }
}

/// The set of installed services, by name.
pub struct ServicePool {
    services: ServiceTable,
    next_generation: u64,
}

impl ServicePool {
    /// The state of each installed service, by name.
    pub closed spec fn entries(&self) -> Map<Seq<char>, ServiceState> {
        table_entries(self.services)
    }

    /// Each entry's record carries the name it is stored under.
    pub open spec fn wf(&self) -> bool {
        forall|n: Seq<char>| #[trigger]
            self.entries().contains_key(n) ==> self.entries()[n].record().name@ == n
    }

    pub open spec fn status(&self, name: Seq<char>) -> Status {
        status_in(self.entries(), name)
    }

    /// A handle is live while its service runs under the handle's generation.
    pub open spec fn is_live(&self, h: RunningService) -> bool {
        &&& self.entries().contains_key(h.name@)
        &&& self.entries()[h.name@] matches ServiceState::Running { generation, .. }
        &&& generation == h.generation
    }

    /// `s` shows what the pool holds under its name.
    pub open spec fn describes(&self, s: Service) -> bool {
        match s {
            Service::Running(h) => self.is_live(h),
            Service::Stopped(v) => self.entries().contains_key(v.record.name@)
                && self.entries()[v.record.name@] == (ServiceState::Stopped { record: v.record }),
        }
    }

    pub open spec fn service_name(s: Service) -> Seq<char> {
        match s {
            Service::Running(h) => h.name@,
            Service::Stopped(v) => v.record.name@,
        }
    }

    pub fn new() -> (r: Self)
        ensures
            r.wf(),
            r.entries() == Map::<Seq<char>, ServiceState>::empty(),
    {
        ServicePool { services: ServiceTable::new(), next_generation: 0 }
    }

    /// Looks a service up by name.
    pub fn get(&self, name: &str) -> (r: Option<Service>)
        requires
            self.wf(),
        ensures
            r is None <==> !self.entries().contains_key(name@),
            r matches Some(s) ==> self.describes(s) && Self::service_name(s) == name@,
            r matches Some(s) ==> (s is Running <==> self.status(name@) == Status::Running),
    {
        match self.services.get(name) {
            Some(ServiceState::Running { generation, .. }) => Some(
                Service::Running(RunningService { name: name.to_owned(), generation }),
            ),
            Some(ServiceState::Stopped { record }) => Some(
                Service::Stopped(StoppedService { record }),
            ),
            None => None,
        }
    }

    /// A handle on the named service, only while it runs.
    pub fn get_running(&self, name: &str) -> (r: Option<RunningService>)
        ensures
            r is Some <==> self.status(name@) == Status::Running,
            r matches Some(h) ==> h.name@ == name@ && self.is_live(h),
    {
        match self.services.get(name) {
            Some(ServiceState::Running { generation, .. }) => Some(
                RunningService { name: name.to_owned(), generation },
            ),
            _ => None,
        }
    }

    /// A snapshot of every installed service, one view per name.
    pub fn list(&self) -> (r: Vec<Service>)
        requires
            self.wf(),
        ensures
            forall|i: int| 0 <= i < r@.len() ==> self.describes(#[trigger] r@[i]),
            forall|n: Seq<char>| self.entries().contains_key(n) ==> exists|i: int|
                0 <= i < r@.len() && Self::service_name(#[trigger] r@[i]) == n,
            r@.len() == self.entries().dom().len(),
    {
        let keys = self.services.keys();
        let mut r: Vec<Service> = Vec::new();
        let mut i: usize = 0;
        while i < keys.len()
            invariant
                self.wf(),
                i <= keys@.len(),
                r@.len() == i,
                forall|j: int| 0 <= j < keys@.len() ==> self.entries().contains_key(#[trigger] keys@[j]@),
                forall|j: int| 0 <= j < i ==> self.describes(#[trigger] r@[j]),
                forall|j: int| 0 <= j < i ==> Self::service_name(#[trigger] r@[j]) == keys@[j]@,
            decreases keys@.len() - i,
        {
            let s = self.get(keys[i].as_str());
            match s {
                Some(s) => r.push(s),
                None => {},
            }
            i = i + 1;
        }
        proof {
            assert forall|n: Seq<char>| self.entries().contains_key(n) implies exists|i: int|
                0 <= i < r@.len() && Self::service_name(#[trigger] r@[i]) == n by {
                let j = choose|j: int| 0 <= j < keys@.len() && #[trigger] keys@[j]@ == n;
                assert(Self::service_name(r@[j]) == n);
            }
            lemma_keys_len(self.entries(), keys@);
        }
        r
    }

    /// Installs a new running service under `name`.
    pub fn create_service(&mut self, name: &str, paths: Vec<String>, source: String) -> (r: Result<
        RunningService,
        ErrorKind,
    >)
        requires
            old(self).wf(),
        ensures
            final(self).wf(),
            valid_transition(old(self).entries(), final(self).entries()),
            r is Ok <==> !old(self).entries().contains_key(name@),
            r is Err ==> (r matches Err(ErrorKind::ServiceExists(n)) && n@ == name@),
            r is Err ==> final(self).entries() == old(self).entries(),
            r matches Ok(h) ==> {
                &&& h.name@ == name@
                &&& final(self).status(name@) == Status::Running
                &&& final(self).is_live(h)
                &&& final(self).entries().remove(name@) == old(self).entries()
                &&& final(self).entries()[name@].record().name@ == name@
                &&& final(self).entries()[name@].record().paths == paths
                &&& final(self).entries()[name@].record().source == source
                &&& uuid_version(final(self).entries()[name@].record().uuid) == 4
            },
    {
        if self.services.get(name).is_some() {
            return Err(ErrorKind::ServiceExists(name.to_owned()));
        }
        let record = ServiceImpl { name: name.to_owned(), paths, source, uuid: new_identity() };
        let generation = self.next_generation;
        self.next_generation = self.next_generation.wrapping_add(1);
        self.services.insert(name, ServiceState::Running { record, generation });
        proof {
            assert(self.entries().remove(name@) =~= old(self).entries());
            lemma_step_one_name(old(self).entries(), self.entries(), name@);
        }
        Ok(RunningService { name: name.to_owned(), generation })
    }

    /// The first half of a stop: the handle that the stop hook runs on.
    pub fn begin_stop(&self, name: &str) -> (r: Result<RunningService, ErrorKind>)
        ensures
            self.status(name@) == Status::Absent ==> (r matches Err(ErrorKind::ServiceNotFound(n))
                && n@ == name@),
            self.status(name@) == Status::Stopped ==> (r matches Err(ErrorKind::ServiceStopped(n))
                && n@ == name@),
            self.status(name@) == Status::Running ==> (r matches Ok(h) && h.name@ == name@
                && self.is_live(h)),
    {
        match self.services.get(name) {
            Some(ServiceState::Running { generation, .. }) => Ok(
                RunningService { name: name.to_owned(), generation },
            ),
            Some(ServiceState::Stopped { .. }) => Err(ErrorKind::ServiceStopped(name.to_owned())),
            None => Err(ErrorKind::ServiceNotFound(name.to_owned())),
        }
    }

    /// Moves a running service to stopped, once its stop hook has run with
    /// outcome `hook`. The service stops whether or not the hook failed; a
    /// hook failure is returned.
    pub fn stop(&mut self, name: &str, hook: Result<(), ErrorKind>) -> (r: Result<
        StoppedService,
        ErrorKind,
    >)
        requires
            old(self).wf(),
        ensures
            final(self).wf(),
            valid_transition(old(self).entries(), final(self).entries()),
            old(self).status(name@) == Status::Absent ==> (r matches Err(
                ErrorKind::ServiceNotFound(n),
            ) && n@ == name@),
            old(self).status(name@) == Status::Stopped ==> (r matches Err(
                ErrorKind::ServiceStopped(n),
            ) && n@ == name@),
            old(self).status(name@) != Status::Running ==> final(self).entries() == old(
                self,
            ).entries(),
            old(self).status(name@) == Status::Running ==> {
                &&& final(self).entries() == old(self).entries().insert(
                    name@,
                    ServiceState::Stopped { record: old(self).entries()[name@].record() },
                )
                &&& (r is Ok <==> hook is Ok)
                &&& final(self).status(name@) == Status::Stopped
                &&& (r matches Ok(v) ==> v.record == old(self).entries()[name@].record())
                &&& (hook matches Err(e) ==> r == Err::<StoppedService, ErrorKind>(e))
            },
    {
        match self.services.get(name) {
            Some(ServiceState::Running { record, .. }) => {
                self.services.insert(name, ServiceState::Stopped { record });
                proof {
                    assert(self.entries().remove(name@) =~= old(self).entries().remove(name@));
                    lemma_step_one_name(old(self).entries(), self.entries(), name@);
                }
                match hook {
                    Ok(()) => match self.services.get(name) {
                        Some(ServiceState::Stopped { record }) => Ok(StoppedService { record }),
                        _ => vstd::pervasive::unreached(),
                    },
                    Err(e) => Err(e),
                }
            },
            Some(ServiceState::Stopped { .. }) => Err(ErrorKind::ServiceStopped(name.to_owned())),
            None => Err(ErrorKind::ServiceNotFound(name.to_owned())),
        }
    }

    /// The first half of a start: a stopped service is marked running under
    /// a fresh generation before its start hook runs.
    pub fn begin_start(&mut self, name: &str) -> (r: Result<RunningService, ErrorKind>)
        requires
            old(self).wf(),
        ensures
            final(self).wf(),
            valid_transition(old(self).entries(), final(self).entries()),
            old(self).status(name@) == Status::Absent ==> (r matches Err(
                ErrorKind::ServiceNotFound(n),
            ) && n@ == name@),
            old(self).status(name@) == Status::Running ==> (r matches Err(
                ErrorKind::ServiceRunning(n),
            ) && n@ == name@),
            r is Err ==> final(self).entries() == old(self).entries(),
            old(self).status(name@) == Status::Stopped ==> (r matches Ok(h) && {
                &&& h.name@ == name@
                &&& final(self).is_live(h)
                &&& final(self).entries() == old(self).entries().insert(
                    name@,
                    ServiceState::Running {
                        record: old(self).entries()[name@].record(),
                        generation: h.generation,
                    },
                )
            }),
    {
        match self.services.get(name) {
            Some(ServiceState::Stopped { record }) => {
                let generation = self.next_generation;
                self.next_generation = self.next_generation.wrapping_add(1);
                self.services.insert(name, ServiceState::Running { record, generation });
                proof {
                    assert(self.entries().remove(name@) =~= old(self).entries().remove(name@));
                    lemma_step_one_name(old(self).entries(), self.entries(), name@);
                }
                Ok(RunningService { name: name.to_owned(), generation })
            },
            Some(ServiceState::Running { .. }) => Err(ErrorKind::ServiceRunning(name.to_owned())),
            None => Err(ErrorKind::ServiceNotFound(name.to_owned())),
        }
    }

    /// Settles a start once the start hook has run with outcome `hook`: on
    /// success the handle is returned; on failure the service goes back to
    /// stopped and the hook's error is returned.
    pub fn start(&mut self, handle: &RunningService, hook: Result<(), ErrorKind>) -> (r: Result<
        RunningService,
        ErrorKind,
    >)
        requires
            old(self).wf(),
        ensures
            final(self).wf(),
            valid_transition(old(self).entries(), final(self).entries()),
            hook is Ok ==> final(self).entries() == old(self).entries(),
            hook is Ok && old(self).is_live(*handle) ==> (r matches Ok(h) && h.name@
                == handle.name@ && h.generation == handle.generation),
            hook is Ok && !old(self).is_live(*handle) ==> r matches Err(ErrorKind::ServiceDropped),
            hook matches Err(e) ==> r == Err::<RunningService, ErrorKind>(e),
            hook is Err && old(self).is_live(*handle) ==> final(self).entries() == old(
                self,
            ).entries().insert(
                handle.name@,
                ServiceState::Stopped { record: old(self).entries()[handle.name@].record() },
            ),
            hook is Err && !old(self).is_live(*handle) ==> final(self).entries() == old(
                self,
            ).entries(),
    {
        let live = self.is_live_exec(handle);
        match hook {
            Ok(()) => {
                if live {
                    Ok(RunningService { name: handle.name.clone(), generation: handle.generation })
                } else {
                    Err(ErrorKind::ServiceDropped)
                }
            },
            Err(e) => {
                if live {
                    match self.services.get(handle.name.as_str()) {
                        Some(ServiceState::Running { record, .. }) => {
                            self.services.insert(
                                handle.name.as_str(),
                                ServiceState::Stopped { record },
                            );
                            proof {
                                assert(self.entries().remove(handle.name@) =~= old(
                                    self,
                                ).entries().remove(handle.name@));
                                lemma_step_one_name(
                                    old(self).entries(),
                                    self.entries(),
                                    handle.name@,
                                );
                            }
                        },
                        _ => {},
                    }
                }
                Err(e)
            },
        }
    }

    /// Whether `h` still refers to the running service it was issued for.
    pub fn is_live_exec(&self, h: &RunningService) -> (r: bool)
        ensures
            r == self.is_live(*h),
    {
        match self.services.get(h.name.as_str()) {
            Some(ServiceState::Running { generation, .. }) => generation == h.generation,
            _ => false,
        }
    }

    /// Handles on every running service: those that a shutdown must stop.
    pub fn running_services(&self) -> (r: Vec<RunningService>)
        ensures
            forall|i: int| 0 <= i < r@.len() ==> self.is_live(#[trigger] r@[i]),
            forall|n: Seq<char>| self.status(n) == Status::Running ==> exists|i: int|
                0 <= i < r@.len() && (#[trigger] r@[i]).name@ == n,
    {
        let keys = self.services.keys();
        let mut r: Vec<RunningService> = Vec::new();
        let mut i: usize = 0;
        while i < keys.len()
            invariant
                i <= keys@.len(),
                forall|j: int| 0 <= j < keys@.len() ==> self.entries().contains_key(#[trigger] keys@[j]@),
                forall|k: Seq<char>| self.entries().contains_key(k) ==> exists|j: int|
                    0 <= j < keys@.len() && #[trigger] keys@[j]@ == k,
                forall|j: int| 0 <= j < r@.len() ==> self.is_live(#[trigger] r@[j]),
                forall|j: int| 0 <= j < i && self.status(#[trigger] keys@[j]@) == Status::Running
                    ==> exists|m: int| 0 <= m < r@.len() && (#[trigger] r@[m]).name@ == keys@[j]@,
            decreases keys@.len() - i,
        {
            let ghost old_r = r@;
            match self.get_running(keys[i].as_str()) {
                Some(h) => {
                    r.push(h);
                    proof {
                        assert(r@[r@.len() - 1].name@ == keys@[i as int]@);
                    }
                },
                None => {},
            }
            proof {
                assert forall|j: int| 0 <= j < i + 1 && self.status(#[trigger] keys@[j]@)
                    == Status::Running implies exists|m: int|
                    0 <= m < r@.len() && (#[trigger] r@[m]).name@ == keys@[j]@ by {
                    if j == i {
                        assert(r@[r@.len() - 1].name@ == keys@[j]@);
                    } else {
                        let m = choose|m: int| 0 <= m < old_r.len() && (#[trigger] old_r[m]).name@ == keys@[j]@;
                        assert(r@[m] == old_r[m]);
                    }
                }
            }
            i = i + 1;
        }
        proof {
            assert forall|n: Seq<char>| self.status(n) == Status::Running implies exists|i: int|
                0 <= i < r@.len() && (#[trigger] r@[i]).name@ == n by {
                let j = choose|j: int| 0 <= j < keys@.len() && #[trigger] keys@[j]@ == n;
                assert(self.status(keys@[j]@) == Status::Running);
            }
        }
        r
    }

    /// Uninstalls a stopped service and hands back its record.
    pub fn remove(&mut self, name: &str) -> (r: Result<ServiceImpl, ErrorKind>)
        requires
            old(self).wf(),
        ensures
            final(self).wf(),
            valid_transition(old(self).entries(), final(self).entries()),
            old(self).status(name@) == Status::Absent ==> (r matches Err(
                ErrorKind::ServiceNotFound(n),
            ) && n@ == name@),
            old(self).status(name@) == Status::Running ==> (r matches Err(
                ErrorKind::ServiceRunning(n),
            ) && n@ == name@),
            r is Err ==> final(self).entries() == old(self).entries(),
            old(self).status(name@) == Status::Stopped ==> (r matches Ok(rec) && rec == old(
                self,
            ).entries()[name@].record() && final(self).entries() == old(self).entries().remove(
                name@,
            )),
            r is Ok ==> final(self).status(name@) == Status::Absent,
    {
        match self.services.get(name) {
            Some(ServiceState::Stopped { .. }) => {
                let removed = self.services.remove(name);
                proof {
                    lemma_step_one_name(old(self).entries(), self.entries(), name@);
                }
                match removed {
                    Some(ServiceState::Stopped { record }) => Ok(record),
                    _ => vstd::pervasive::unreached(),
                }
            },
            Some(ServiceState::Running { .. }) => Err(ErrorKind::ServiceRunning(name.to_owned())),
            None => Err(ErrorKind::ServiceNotFound(name.to_owned())),
        }
    }
}

proof fn lemma_keys_len(m: Map<Seq<char>, ServiceState>, keys: Seq<String>)
    requires
        forall|j: int| 0 <= j < keys.len() ==> m.contains_key(#[trigger] keys[j]@),
        forall|k: Seq<char>| m.contains_key(k) ==> exists|i: int|
            0 <= i < keys.len() && #[trigger] keys[i]@ == k,
        forall|i: int, j: int| 0 <= i < j < keys.len() ==> keys[i]@ != keys[j]@,
    ensures
        m.dom().len() == keys.len(),
        m.dom().finite(),
{
    let views = keys.map_values(|s: String| s@);
    assert(views.no_duplicates()) by {
        assert forall|i: int, j: int| 0 <= i < views.len() && 0 <= j < views.len() && i != j
            implies views[i] != views[j] by {
            if j < i {
                assert(keys[j]@ != keys[i]@);
            }
        }
    }
    views.unique_seq_to_set();
    assert(views.to_set() =~= m.dom()) by {
        assert forall|k: Seq<char>| m.dom().contains(k) implies views.to_set().contains(k) by {
            let i = choose|i: int| 0 <= i < keys.len() && #[trigger] keys[i]@ == k;
            assert(views[i] == k);
        }
        assert forall|k: Seq<char>| views.to_set().contains(k) implies m.dom().contains(k) by {
            let i = choose|i: int| 0 <= i < views.len() && views[i] == k;
            assert(keys[i]@ == k);
        }
    }
}

/// Changing the state under one name only, along an edge of the lifecycle,
/// is a valid transition of the whole map.
proof fn lemma_step_one_name(m1: Map<Seq<char>, ServiceState>, m2: Map<Seq<char>, ServiceState>, name: Seq<char>)
    requires
        forall|n: Seq<char>| n != name ==> (m1.contains_key(n) <==> m2.contains_key(n)),
        forall|n: Seq<char>| n != name && m1.contains_key(n) ==> m1[n] == m2[n],
        valid_step(status_in(m1, name), status_in(m2, name)),
    ensures
        valid_transition(m1, m2),
{
    assert forall|n: Seq<char>| #[trigger] valid_step(status_in(m1, n), status_in(m2, n)) by {
        if n != name {
            if m1.contains_key(n) {
                assert(m1[n] == m2[n]);
            }
        }
    }
}

} // verus!
