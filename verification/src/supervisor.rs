//! The process supervisor: the registry of service instances, the decisions
//! taken for start, kill and status requests, and the routing of captured
//! output lines into each instance's log record.
//!
//! The supervisor never touches the operating system itself. The application
//! around it spawns, signals and polls processes and performs the blocking
//! stream reads; every outcome comes back in as a plain value, and every
//! decision and every piece of bookkeeping is made here.

use vstd::prelude::*;

verus! {

use crate::config::{
    has_name,
    config_of,
    names_unique,
    upsert,
    load_all,
    ConfigData,
    ConfigStore,
    ServiceConfig,
};
use crate::log::{LogRecord, ReadEvent};

/// An opaque, globally unique identifier for one spawned instance; generated
/// fresh per spawn and never reused.
pub type ServiceId = String;

/// One running or exited invocation of a configured service.
pub struct ServiceInstance {
    id: String,
    display_name: String,
    log: LogRecord,
}

/// The mathematical content of a `ServiceInstance`.
pub ghost struct InstanceData {
    pub id: Seq<char>,
    pub display_name: Seq<char>,
    pub log: Seq<Seq<char>>,
}

impl View for ServiceInstance {
    type V = InstanceData;

    closed spec fn view(&self) -> InstanceData {
        InstanceData { id: self.id@, display_name: self.display_name@, log: self.log@ }
    }
}

impl ServiceInstance {
    pub fn display_name(&self) -> (r: String)
        ensures
            r@ == self@.display_name,
    {
        self.display_name.clone()
    }

    pub fn id(&self) -> (r: &String)
        ensures
            r@ == self@.id,
    {
        &self.id
    }
}

/// The externally visible state of an instance: running, or everything else.
#[derive(PartialEq, Eq, Structural, Clone, Copy, Debug)]
pub enum ServiceStatus {
    Running,
    Stopped,
}

/// Why a start request failed.
#[derive(PartialEq, Eq, Structural, Clone, Copy, Debug)]
pub enum StartError {
    /// No configuration carries the requested display name; nothing was
    /// created.
    ConfigNotFound,
    /// The operating system could not spawn the configured executable.
    SpawnFailed,
}

/// What a non-blocking poll of a process handle reported.
#[derive(PartialEq, Eq, Structural, Clone, Copy, Debug)]
pub enum PollEvent {
    /// The process had not exited at the time of the poll.
    StillRunning,
    /// The process has exited.
    Exited,
    /// The poll itself failed.
    PollFailed,
}

/// Whether some registered instance carries this identifier.
pub open spec fn has_id(s: Seq<InstanceData>, id: Seq<char>) -> bool {
    exists|i: int| 0 <= i < s.len() && s[i].id == id
}

/// No two registered instances share an identifier.
pub open spec fn ids_unique(s: Seq<InstanceData>) -> bool {
    forall|i: int, j: int| 0 <= i < j < s.len() ==> s[i].id != s[j].id
}

/// The position of the instance with this identifier; meaningful only under
/// `has_id`.
pub open spec fn id_index(s: Seq<InstanceData>, id: Seq<char>) -> int {
    choose|i: int| 0 <= i < s.len() && s[i].id == id
}

/// The instance with this identifier; meaningful only under `has_id`.
pub open spec fn instance_of(s: Seq<InstanceData>, id: Seq<char>) -> InstanceData {
    s[id_index(s, id)]
}

/// An instance after one more captured line.
pub open spec fn with_line(inst: InstanceData, line: Seq<char>) -> InstanceData {
    InstanceData { id: inst.id, display_name: inst.display_name, log: inst.log.push(line) }
}

/// The process supervisor: the configuration store and the registry of
/// service instances. One should exist per application; instances are
/// registered at spawn time and never removed.
pub struct Supervisor {
    configs: ConfigStore,
    instances: Vec<ServiceInstance>,
}

impl Supervisor {
    pub closed spec fn configs_view(&self) -> Seq<ConfigData> {
        self.configs@
    }

    pub closed spec fn instances_view(&self) -> Seq<InstanceData> {
        self.instances@.map_values(|r: ServiceInstance| r@)
    }

    /// The configuration store and the registry each key their entries
    /// uniquely.
    pub open spec fn wf(&self) -> bool {
        names_unique(self.configs_view()) && ids_unique(self.instances_view())
    }

    pub fn new() -> (r: Supervisor)
        ensures
            r.wf(),
            r.configs_view() == Seq::<ConfigData>::empty(),
            r.instances_view() == Seq::<InstanceData>::empty(),
    {
        let r = Supervisor { configs: ConfigStore::new(), instances: Vec::new() };
        proof {
            assert(r.instances_view() =~= Seq::<InstanceData>::empty());
        }
        r
    }

    /// Read access to the configuration store.
    pub fn get_service_config(&self) -> (r: &ConfigStore)
        ensures
            r@ == self.configs_view(),
    {
        &self.configs
    }

    /// Adds a configuration under `display_name`, overwriting any earlier
    /// one with that name; the registry of instances is untouched.
    pub fn add_service_config(&mut self, exe_path: &String, display_name: &String)
        requires
            old(self).wf(),
        ensures
            final(self).wf(),
            final(self).instances_view() == old(self).instances_view(),
            final(self).configs_view() == upsert(
                old(self).configs_view(),
                (ConfigData { path: exe_path@, display_name: display_name@ }),
            ),
    {
        self.configs.add(exe_path.clone(), display_name.clone());
    }

    /// Loads previously persisted configurations, inserting every record in
    /// order; a later record overwrites an earlier one of the same name.
    pub fn load_service_configs(&mut self, records: Vec<ServiceConfig>)
        requires
            old(self).wf(),
        ensures
            final(self).wf(),
            final(self).instances_view() == old(self).instances_view(),
            final(self).configs_view() == load_all(
                old(self).configs_view(),
                records@.map_values(|c: ServiceConfig| c@),
            ),
    {
        self.configs.load_records(records);
    }

    /// Resolves a start request to the configured executable path, or
    /// reports `ConfigNotFound`. A failed resolution creates nothing: the
    /// supervisor is read, not changed.
    pub fn resolve_service(&self, display_name: &String) -> (r: Result<String, StartError>)
        requires
            self.wf(),
        ensures
            r is Ok <==> has_name(self.configs_view(), display_name@),
            (match r {
                Ok(path) => path@ == config_of(self.configs_view(), display_name@).path,
                Err(e) => e == StartError::ConfigNotFound,
            }),
    {
        match self.configs.get(display_name) {
            Some(cfg) => Ok(cfg.path.clone()),
            None => Err(StartError::ConfigNotFound),
        }
    }

    /// The position of the instance carrying `id`, if any.
    fn find_instance(&self, id: &String) -> (r: Option<usize>)
        ensures
            (match r {
                Some(i) => i < self.instances_view().len() && self.instances_view()[i as int].id
                    == id@,
                None => !has_id(self.instances_view(), id@),
            }),
    {
        let mut i: usize = 0;
        while i < self.instances.len()
            invariant
                i <= self.instances@.len(),
                forall|j: int| 0 <= j < i ==> self.instances_view()[j].id != id@,
            decreases self.instances@.len() - i,
        {
            if self.instances[i].id == *id {
                return Some(i);
            }
            i = i + 1;
        }
        None
    }

    /// Whether an instance is registered under `id`.
    pub fn has_instance(&self, id: &String) -> (r: bool)
        ensures
            r == has_id(self.instances_view(), id@),
    {
        self.find_instance(id).is_some()
    }

    /// Registers a new instance under `id` with an empty log record. The
    /// identifier must be fresh; everything already registered keeps its
    /// place.
    pub fn register_instance(&mut self, id: String, display_name: String)
        requires
            old(self).wf(),
            !has_id(old(self).instances_view(), id@),
        ensures
            final(self).wf(),
            final(self).configs_view() == old(self).configs_view(),
            final(self).instances_view() == old(self).instances_view().push(
                (InstanceData { id: id@, display_name: display_name@, log: Seq::empty() }),
            ),
    {
        let ghost pre = self.instances_view();
        let ghost idv = id@;
        let inst = ServiceInstance { id, display_name, log: LogRecord::new() };
        let ghost instv = inst@;
        self.instances.push(inst);
        proof {
            assert(self.instances_view() =~= pre.push(instv));
            assert(forall|m: int, n: int|
                0 <= m < n < self.instances_view().len()
                    ==> self.instances_view()[m].id != self.instances_view()[n].id) by {
                assert(forall|m: int| 0 <= m < pre.len() ==> self.instances_view()[m] == pre[m]);
                assert(forall|m: int| 0 <= m < pre.len() ==> pre[m].id != idv);
            }
        }
    }

    /// Begins the bookkeeping for a newly spawned process: draws a fresh
    /// identifier, registers an instance with an empty log record under it,
    /// and hands the identifier back. The identifier was not previously
    /// registered and is registered afterwards. Only a drawn identifier that
    /// collides with a registered one — which the randomness of a version-4
    /// UUID makes all but impossible — is refused, and then nothing changes.
    pub fn start_instance(&mut self, display_name: &String) -> (r: Option<ServiceId>)
        requires
            old(self).wf(),
        ensures
            final(self).wf(),
            final(self).configs_view() == old(self).configs_view(),
            (match r {
                Some(id) => !has_id(old(self).instances_view(), id@) && has_id(
                    final(self).instances_view(),
                    id@,
                ) && final(self).instances_view() == old(self).instances_view().push(
                    (InstanceData { id: id@, display_name: display_name@, log: Seq::empty() }),
                ),
                None => final(self).instances_view() == old(self).instances_view(),
            }),
    {
        let id = fresh_service_id();
        if self.has_instance(&id) {
            None
        } else {
            self.register_instance(id.clone(), display_name.clone());
            proof {
                assert(self.instances_view()[self.instances_view().len() - 1].id == id@);
            }
            Some(id)
        }
    }

    /// Interprets one non-blocking poll of an instance's process: `Running`
    /// exactly when the instance is registered and the poll saw the process
    /// still alive. An unknown identifier always reports `Stopped`, and so
    /// does a registered instance whose process has exited — in particular,
    /// after a kill, from the first poll that observes the exit onwards.
    pub fn get_service_status(&self, id: &String, poll: Option<PollEvent>) -> (r: ServiceStatus)
        ensures
            (r == ServiceStatus::Running) <==> (has_id(self.instances_view(), id@) && poll
                == Some(PollEvent::StillRunning)),
            (r == ServiceStatus::Stopped) <==> !(has_id(self.instances_view(), id@) && poll
                == Some(PollEvent::StillRunning)),
    {
        if self.has_instance(id) {
            match poll {
                Some(PollEvent::StillRunning) => ServiceStatus::Running,
                _ => ServiceStatus::Stopped,
            }
        } else {
            ServiceStatus::Stopped
        }
    }

    /// The result reported for a kill request: `true` exactly when the
    /// identifier is registered and the termination signal was accepted.
    /// An unknown identifier reports `false`; acceptance says nothing about
    /// whether the process has exited yet.
    pub fn kill_result(&self, id: &String, signal_accepted: bool) -> (r: bool)
        ensures
            r == (has_id(self.instances_view(), id@) && signal_accepted),
    {
        self.has_instance(id) && signal_accepted
    }

    /// Every registered instance, as a pair of identifier and display name,
    /// in registration order.
    pub fn get_running_services(&self) -> (r: Vec<(String, String)>)
        ensures
            r@.len() == self.instances_view().len(),
            forall|i: int|
                0 <= i < r@.len() ==> r@[i].0@ == self.instances_view()[i].id && r@[i].1@
                    == self.instances_view()[i].display_name,
    {
        let mut out: Vec<(String, String)> = Vec::new();
        let mut i: usize = 0;
        while i < self.instances.len()
            invariant
                i <= self.instances@.len(),
                out@.len() == i,
                forall|j: int|
                    0 <= j < i ==> out@[j].0@ == self.instances_view()[j].id && out@[j].1@
                        == self.instances_view()[j].display_name,
            decreases self.instances@.len() - i,
        {
            out.push((self.instances[i].id.clone(), self.instances[i].display_name.clone()));
            i = i + 1;
        }
        out
    }

    /// The registered instance carrying `id`, if any.
    pub fn get_service_instance(&self, id: &String) -> (r: Option<&ServiceInstance>)
        requires
            self.wf(),
        ensures
            r is Some <==> has_id(self.instances_view(), id@),
            (match r {
                Some(inst) => inst@ == instance_of(self.instances_view(), id@),
                None => true,
            }),
    {
        match self.find_instance(id) {
            Some(i) => {
                proof {
                    self.lemma_found_is_indexed(i as int, id@);
                }
                Some(&self.instances[i])
            },
            None => None,
        }
    }

    /// A copy of the log record captured for `id` over the instance's
    /// lifetime: every line whole, in append order; nothing for an unknown
    /// identifier.
    pub fn get_service_logs(&self, id: &String) -> (r: Option<Vec<String>>)
        requires
            self.wf(),
        ensures
            r is Some <==> has_id(self.instances_view(), id@),
            (match r {
                Some(lines) => lines@.len() == instance_of(self.instances_view(), id@).log.len()
                    && (forall|i: int|
                    0 <= i < lines@.len() ==> lines@[i]@ == instance_of(
                        self.instances_view(),
                        id@,
                    ).log[i]),
                None => true,
            }),
    {
        match self.find_instance(id) {
            Some(i) => {
                proof {
                    self.lemma_found_is_indexed(i as int, id@);
                }
                Some(self.instances[i].log.lines())
            },
            None => None,
        }
    }

    /// One capture-task step routed by instance: a complete line read from
    /// either of the instance's streams is appended, whole, to that
    /// instance's log record — and nothing else changes — and the task
    /// carries on. A closed stream or a failed read changes nothing and ends
    /// the task, as does a line for an identifier no longer registered.
    pub fn capture_event(&mut self, id: &String, event: ReadEvent) -> (cont: bool)
        requires
            old(self).wf(),
        ensures
            final(self).wf(),
            final(self).configs_view() == old(self).configs_view(),
            (match event {
                ReadEvent::Line(l) => {
                    if has_id(old(self).instances_view(), id@) {
                        cont && final(self).instances_view() == old(self).instances_view().update(
                            id_index(old(self).instances_view(), id@),
                            with_line(instance_of(old(self).instances_view(), id@), l@),
                        )
                    } else {
                        !cont && final(self).instances_view() == old(self).instances_view()
                    }
                },
                ReadEvent::EndOfStream => !cont && final(self).instances_view() == old(
                    self,
                ).instances_view(),
                ReadEvent::ReadFailed => !cont && final(self).instances_view() == old(
                    self,
                ).instances_view(),
            }),
    {
        match event {
            ReadEvent::Line(l) => {
                match self.find_instance(id) {
                    Some(i) => {
                        proof {
                            self.lemma_found_is_indexed(i as int, id@);
                        }
                        let ghost pre = self.instances_view();
                        let ghost lv = l@;
                        self.instances[i].log.append(l);
                        proof {
                            assert(self.instances@[i as int]@ == with_line(pre[i as int], lv));
                            assert(self.instances_view() =~= pre.update(
                                i as int,
                                with_line(pre[i as int], lv),
                            ));
                            assert(forall|m: int, n: int|
                                0 <= m < n < self.instances_view().len()
                                    ==> self.instances_view()[m].id
                                    != self.instances_view()[n].id) by {
                                assert(forall|m: int|
                                    0 <= m < pre.len() ==> self.instances_view()[m].id
                                        == pre[m].id);
                            }
                        }
                        true
                    },
                    None => false,
                }
            },
            ReadEvent::EndOfStream => false,
            ReadEvent::ReadFailed => false,
        }
    }

    /// Under unique identifiers, the index where a linear search found `id`
    /// is the index that `id_index` denotes.
    proof fn lemma_found_is_indexed(&self, i: int, id: Seq<char>)
        requires
            self.wf(),
            0 <= i < self.instances_view().len(),
            self.instances_view()[i].id == id,
        ensures
            has_id(self.instances_view(), id),
            id_index(self.instances_view(), id) == i,
            instance_of(self.instances_view(), id) == self.instances_view()[i],
    {
        assert(has_id(self.instances_view(), id));
        let k = id_index(self.instances_view(), id);
        assert(0 <= k < self.instances_view().len() && self.instances_view()[k].id == id);
    }
}

/// A captured line only ever extends its instance's record: the registry
/// after a capture step holds the same instances under the same identifiers,
/// the lines already appended keep their places and their contents, the new
/// line stands at the end, and every other instance is untouched.
pub proof fn lemma_capture_appends_only(
    pre: Seq<InstanceData>,
    post: Seq<InstanceData>,
    id: Seq<char>,
    line: Seq<char>,
)
    requires
        ids_unique(pre),
        has_id(pre, id),
        post == pre.update(id_index(pre, id), with_line(instance_of(pre, id), line)),
    ensures
        post.len() == pre.len(),
        ids_unique(post),
        has_id(post, id),
        instance_of(post, id).log == instance_of(pre, id).log.push(line),
        forall|i: int|
            0 <= i < instance_of(pre, id).log.len() ==> instance_of(post, id).log[i]
                == instance_of(pre, id).log[i],
        forall|j: int| 0 <= j < pre.len() && pre[j].id != id ==> post[j] == pre[j],
{
    let k = id_index(pre, id);
    assert(0 <= k < pre.len() && pre[k].id == id);
    assert(forall|j: int| 0 <= j < post.len() ==> post[j].id == pre[j].id);
    assert(post[k].id == id);
    assert(has_id(post, id));
    let m = id_index(post, id);
    assert(0 <= m < post.len() && post[m].id == id);
    assert(m == k);
}

/// Relies on `uuid::Uuid::new_v4` and the `Display` form of `uuid::Uuid`:
/// a freshly drawn random version-4 UUID, rendered as the 36-character
/// hyphenated string. The value is random; nothing more is assumed of it.
#[verifier::external_body]
fn fresh_service_id() -> (r: String)
    ensures
        r@.len() == 36,
{
    uuid::Uuid::new_v4().to_string()
}

} // verus!
