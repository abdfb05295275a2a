//! Keeps the clock and publishes how it stands.

use crate::config::provider::Provider;
use crate::controllers::time::NS;
use crate::controllers::{exclusive, Input, Output, OutputKind};
use crate::resources::{
    ObjectView, Resource, ResourceObject, ResourceType, ResourceView, TimeStatus,
};
use crate::text::{copy_strings, joined};
use vstd::prelude::*;
use vstd::string::*;

verus! {

/// The clock is stepped where it is off by more than this many nanoseconds.
pub const STEP_THRESHOLD_NS: i128 = 128_000_000;

/// Keeps the clock.
pub struct TimeSyncController {
    provider: Provider,
    sync_count: u64,
}

/// The clock's status as a resource.
pub open spec fn status_object(
    synced: bool,
    server: Seq<char>,
    offset_ns: i64,
    sync_count: u64,
) -> ObjectView {
    ObjectView {
        namespace: NS@,
        id: "time"@,
        spec: ResourceView::TimeStatus { synced, server, offset_ns, sync_count },
    }
}

/// The clock's status as a resource.
pub fn status_obj(synced: bool, server: &str, offset_ns: i64, sync_count: u64) -> (r:
    ResourceObject)
    ensures
        r@ == status_object(synced, server@, offset_ns, sync_count),
{
    ResourceObject::new(
        NS,
        "time",
        Resource::TimeStatus(
            TimeStatus { synced, server: server.to_owned(), offset_ns, sync_count },
        ),
    )
}

/// The servers that are asked: those that are configured, or the default ones.
pub open spec fn servers_of(configured: Seq<Seq<char>>) -> Seq<Seq<char>> {
    if configured.len() == 0 {
        seq!["0.pool.ntp.org"@, "1.pool.ntp.org"@]
    } else {
        configured
    }
}

/// What is to be done next.
#[derive(Debug)]
pub enum TimeAction {
    /// Ask a server how far the clock is off.
    Query { addr: String },
    /// Step the clock by this many nanoseconds.
    Step { offset: i128 },
    /// Publish how the clock stands.
    Publish { status: ResourceObject },
    /// Give up.
    Fail { message: String },
}

/// What came of it.
#[derive(Debug)]
pub enum TimeEvent {
    /// The clock is off by this many nanoseconds.
    Offset { offset: i128 },
    /// The server did not answer.
    NoAnswer,
    Stepped,
    /// The clock could not be stepped.
    StepFailed { message: String },
}

/// How far a synchronisation has come; the server at `k` is asked.
#[derive(Clone, Copy, Debug, PartialEq, Eq)]
pub enum TimeStage {
    Asking { k: usize },
    Stepping { k: usize, offset: i128 },
    Over,
}

/// A synchronisation.
#[derive(Debug)]
pub struct TimeRun {
    servers: Vec<String>,
    sync_count: u64,
    stage: TimeStage,
}

/// What is known of a synchronisation.
#[verifier::ext_equal]
pub struct TimeView {
    pub servers: Seq<Seq<char>>,
    pub sync_count: u64,
    pub stage: TimeStage,
}

impl View for TimeRun {
    type V = TimeView;

    closed spec fn view(&self) -> TimeView {
        TimeView {
            servers: crate::text::texts(self.servers@),
            sync_count: self.sync_count,
            stage: self.stage,
        }
    }
}

/// What an action says.
#[verifier::ext_equal]
pub enum TimeActionView {
    Query { addr: Seq<char> },
    Step { offset: i128 },
    Publish { status: ObjectView },
    Fail { message: Seq<char> },
}

impl View for TimeAction {
    type V = TimeActionView;

    open spec fn view(&self) -> TimeActionView {
        match *self {
            TimeAction::Query { addr } => TimeActionView::Query { addr: addr@ },
            TimeAction::Step { offset } => TimeActionView::Step { offset },
            TimeAction::Publish { status } => TimeActionView::Publish { status: status@ },
            TimeAction::Fail { message } => TimeActionView::Fail { message: message@ },
        }
    }
}

/// Asks the `k`-th server, or reports that the clock is not synchronised.
pub open spec fn asks(v: TimeView, k: int) -> (TimeView, TimeActionView) {
    if k >= v.servers.len() {
        (
            TimeView { stage: TimeStage::Over, ..v },
            TimeActionView::Publish {
                status: status_object(false, Seq::empty(), 0, v.sync_count),
            },
        )
    } else {
        (
            TimeView { stage: TimeStage::Asking { k: k as usize }, ..v },
            TimeActionView::Query { addr: v.servers[k] + ":123"@ },
        )
    }
}

/// The clock is synchronised with the `k`-th server. The status shows the
/// lowest 64 bits of the offset.
pub open spec fn synced(v: TimeView, k: int, offset: i128) -> (TimeView, TimeActionView) {
    let count = (v.sync_count + 1) as u64;
    (
        TimeView { sync_count: count, stage: TimeStage::Over, ..v },
        TimeActionView::Publish {
            status: status_object(true, v.servers[k], offset as i64, count),
        },
    )
}

/// The clock is off by too much.
pub open spec fn is_far(offset: i128) -> bool {
    offset > STEP_THRESHOLD_NS || -offset > STEP_THRESHOLD_NS
}

/// The events that can follow at each stage. The least of all offsets has no
/// magnitude.
pub open spec fn can_follow(stage: TimeStage, e: TimeEvent) -> bool {
    match e {
        TimeEvent::Offset { offset } => stage is Asking && offset > i128::MIN,
        TimeEvent::NoAnswer => stage is Asking,
        TimeEvent::Stepped => stage is Stepping,
        TimeEvent::StepFailed { .. } => stage is Stepping,
    }
}

/// How a synchronisation goes on after an event.
pub open spec fn next(v: TimeView, e: TimeEvent) -> (TimeView, TimeActionView) {
    match e {
        TimeEvent::Offset { offset } => {
            let k = v.stage->Asking_k as int;
            if is_far(offset) {
                (
                    TimeView { stage: TimeStage::Stepping { k: k as usize, offset }, ..v },
                    TimeActionView::Step { offset },
                )
            } else {
                synced(v, k, offset)
            }
        },
        TimeEvent::NoAnswer => asks(v, v.stage->Asking_k + 1),
        TimeEvent::Stepped => synced(v, v.stage->Stepping_k as int, v.stage->Stepping_offset),
        TimeEvent::StepFailed { message } => (
            TimeView { stage: TimeStage::Over, ..v },
            TimeActionView::Fail { message: message@ },
        ),
    }
}

/// What holds of a synchronisation at every moment; the counter has room.
pub open spec fn is_run(v: TimeView) -> bool {
    &&& v.servers.len() <= usize::MAX
    &&& v.stage !is Over ==> v.sync_count < u64::MAX
    &&& v.stage matches TimeStage::Asking { k } ==> k < v.servers.len()
    &&& v.stage matches TimeStage::Stepping { k, offset } ==> k < v.servers.len()
}

impl TimeRun {
    fn ask(&mut self, k: usize) -> (r: TimeAction)
        requires
            old(self)@.servers.len() <= usize::MAX,
            old(self)@.sync_count < u64::MAX,
        ensures
            is_run(final(self)@),
            (final(self)@, r@) == asks(old(self)@, k as int),
    {
        if k >= self.servers.len() {
            self.stage = TimeStage::Over;
            let none = String::new();
            TimeAction::Publish { status: status_obj(false, none.as_str(), 0, self.sync_count) }
        } else {
            assert(self@.servers[k as int] == self.servers@[k as int]@);
            self.stage = TimeStage::Asking { k };
            TimeAction::Query { addr: joined(self.servers[k].as_str(), ":123") }
        }
    }

    fn settle(&mut self, k: usize, offset: i128) -> (r: TimeAction)
        requires
            k < old(self)@.servers.len() <= usize::MAX,
            old(self)@.sync_count < u64::MAX,
        ensures
            is_run(final(self)@),
            (final(self)@, r@) == synced(old(self)@, k as int, offset),
    {
        assert(self@.servers[k as int] == self.servers@[k as int]@);
        self.sync_count = self.sync_count + 1;
        self.stage = TimeStage::Over;
        TimeAction::Publish {
            status: status_obj(
                true,
                self.servers[k].as_str(),
                #[verifier::truncate]
                (offset as i64),
                self.sync_count,
            ),
        }
    }

    /// The number of synchronisations so far.
    pub fn sync_count(&self) -> (r: u64)
        ensures
            r == self@.sync_count,
    {
        self.sync_count
    }

    /// Takes an event in and gives the next action.
    pub fn step(&mut self, event: TimeEvent) -> (r: TimeAction)
        requires
            is_run(old(self)@),
            can_follow(old(self)@.stage, event),
        ensures
            is_run(final(self)@),
            (final(self)@, r@) == next(old(self)@, event),
    {
        match event {
            TimeEvent::Offset { offset } => {
                let k: usize = match self.stage {
                    TimeStage::Asking { k } => k,
                    _ => 0,
                };
                if offset > STEP_THRESHOLD_NS || -offset > STEP_THRESHOLD_NS {
                    self.stage = TimeStage::Stepping { k, offset };
                    TimeAction::Step { offset }
                } else {
                    self.settle(k, offset)
                }
            },
            TimeEvent::NoAnswer => {
                let k: usize = match self.stage {
                    TimeStage::Asking { k } => k,
                    _ => 0,
                };
                self.ask(k + 1)
            },
            TimeEvent::Stepped => {
                let (k, offset) = match self.stage {
                    TimeStage::Stepping { k, offset } => (k, offset),
                    _ => (0, 0),
                };
                self.settle(k, offset)
            },
            TimeEvent::StepFailed { message } => {
                self.stage = TimeStage::Over;
                TimeAction::Fail { message }
            },
        }
    }
}

impl TimeSyncController {
    /// The configuration.
    pub closed spec fn config(self) -> crate::config::types::MachineConfig {
        self.provider.config()
    }

    /// The number of synchronisations so far.
    pub closed spec fn count(self) -> u64 {
        self.sync_count
    }

    pub fn new(provider: Provider) -> (r: TimeSyncController)
        ensures
            r.config() == provider.config(),
            r.count() == 0,
    {
        TimeSyncController { provider, sync_count: 0 }
    }

    /// The controller's name, under which it owns what it publishes.
    pub fn name(&self) -> (r: &'static str)
        ensures
            r@ == "time-sync"@,
    {
        "time-sync"
    }

    pub fn inputs(&self) -> (r: Vec<Input>)
        ensures
            r@.len() == 0,
    {
        Vec::new()
    }

    pub fn outputs(&self) -> (r: Vec<Output>)
        ensures
            r@ == seq![Output { typ: ResourceType::TimeStatus, kind: OutputKind::Exclusive }],
    {
        let r = vec![exclusive(ResourceType::TimeStatus)];
        assert(r@ =~= seq![Output { typ: ResourceType::TimeStatus, kind: OutputKind::Exclusive }]);
        r
    }

    /// The seconds after which the controller runs again: eleven minutes.
    pub fn resync_interval(&self) -> (r: Option<u64>)
        ensures
            r == Some(660u64),
    {
        Some(660)
    }

    /// Begins a synchronisation: the first server is asked. Where
    /// synchronisation is disabled, none is.
    pub fn reconcile(&self) -> (r: (TimeRun, TimeAction))
        requires
            self.count() < u64::MAX,
        ensures
            is_run(r.0@),
            ({
                let time = self.config().machine.time;
                let v = TimeView {
                    servers: servers_of(crate::text::texts(time.servers@)),
                    sync_count: self.count(),
                    stage: TimeStage::Over,
                };
                if time.disabled {
                    r.0@ == v && r.1@ == (TimeActionView::Publish {
                        status: status_object(false, Seq::empty(), 0, self.count()),
                    })
                } else {
                    (r.0@, r.1@) == asks(v, 0)
                }
            }),
    {
        let time = self.provider.time();
        let servers = if time.servers.len() == 0 {
            vec!["0.pool.ntp.org".to_owned(), "1.pool.ntp.org".to_owned()]
        } else {
            copy_strings(&time.servers)
        };
        assert(crate::text::texts(servers@) =~= servers_of(crate::text::texts(time.servers@)));
        assert(servers.len() == servers@.len());
        let mut run = TimeRun { servers, sync_count: self.sync_count, stage: TimeStage::Over };
        if time.disabled {
            let none = String::new();
            let status = status_obj(false, none.as_str(), 0, self.sync_count);
            return (run, TimeAction::Publish { status });
        }
        let action = run.ask(0);
        (run, action)
    }

    /// Takes over the count of a synchronisation that is over.
    pub fn finish(&mut self, run: &TimeRun)
        ensures
            final(self).config() == old(self).config(),
            final(self).count() == run@.sync_count,
    {
        self.sync_count = run.sync_count;
    }
}

/// A clock that is off by no more than the threshold is never stepped.
pub proof fn a_small_offset_is_not_stepped(v: TimeView, offset: i128)
    requires
        -STEP_THRESHOLD_NS <= offset <= STEP_THRESHOLD_NS,
    ensures
        next(v, TimeEvent::Offset { offset }).1 !is Step,
{
}

/// A server that does not answer is passed over: the next one is asked.
pub proof fn the_next_server_is_asked(v: TimeView, k: usize)
    requires
        v.stage == (TimeStage::Asking { k }),
        k + 1 < v.servers.len(),
    ensures
        next(v, TimeEvent::NoAnswer).1 == (TimeActionView::Query {
            addr: v.servers[k + 1] + ":123"@,
        }),
{
}

/// A clock that is off by more than 128 milliseconds, ahead or behind, is
/// stepped by exactly what it is off.
pub proof fn a_large_offset_is_stepped(v: TimeView, offset: i128, action: TimeAction)
    requires
        v.stage is Asking,
        offset > 128_000_000 || offset < -128_000_000,
        action@ == next(v, TimeEvent::Offset { offset }).1,
    ensures
        action == (TimeAction::Step { offset }),
        next(v, TimeEvent::Offset { offset }).0.stage is Stepping,
{
}

/// Whether or not the clock had to be stepped, what is published in the end
/// names the server that was asked and what the clock was off, and counts one
/// synchronisation more.
pub proof fn the_server_that_answered_is_published(v: TimeView, k: usize, offset: i128)
    requires
        v.stage == (TimeStage::Asking { k }),
        v.sync_count < u64::MAX,
        i64::MIN <= offset <= i64::MAX,
    ensures
        ({
            let first = next(v, TimeEvent::Offset { offset });
            let last = if -128_000_000 <= offset <= 128_000_000 {
                first
            } else {
                next(first.0, TimeEvent::Stepped)
            };
            &&& last.1 matches TimeActionView::Publish { status }
            &&& status.namespace == "runtime"@
            &&& status.id == "time"@
            &&& status.spec matches ResourceView::TimeStatus {
                synced,
                server,
                offset_ns,
                sync_count,
            }
            &&& synced
            &&& server == v.servers[k as int]
            &&& offset_ns == offset
            &&& sync_count == v.sync_count + 1
            &&& last.0.sync_count == v.sync_count + 1
            &&& last.0.stage is Over
        }),
{
}

/// A clock that could not be stepped is not reported as synchronised, and the
/// count stays.
pub proof fn a_failed_step_is_no_synchronisation(v: TimeView, message: String, action: TimeAction)
    requires
        v.stage is Stepping,
        action@ == next(v, TimeEvent::StepFailed { message }).1,
    ensures
        action matches TimeAction::Fail { message: told } && told@ == message@,
        next(v, TimeEvent::StepFailed { message }).0.sync_count == v.sync_count,
{
}

/// The state after the first `n` servers have been asked in vain, and what is
/// done then.
pub open spec fn after_silence(v: TimeView, n: nat) -> (TimeView, TimeActionView)
    decreases n,
{
    if n == 0 {
        asks(v, 0)
    } else {
        next(after_silence(v, (n - 1) as nat).0, TimeEvent::NoAnswer)
    }
}

/// The servers are asked one after the other, each at its time port, for as
/// long as none answers. When the last has been asked in vain, the clock is
/// reported as not synchronised.
pub proof fn every_server_is_asked_in_turn(v: TimeView, n: nat)
    requires
        v.servers.len() <= usize::MAX,
        n <= v.servers.len(),
    ensures
        after_silence(v, n).0.servers == v.servers,
        after_silence(v, n).0.sync_count == v.sync_count,
        n < v.servers.len() ==> after_silence(v, n).1 == (TimeActionView::Query {
            addr: v.servers[n as int] + ":123"@,
        }) && after_silence(v, n).0.stage == (TimeStage::Asking { k: n as usize }),
        n == v.servers.len() ==> (after_silence(v, n).1 matches TimeActionView::Publish { status }
            && status.spec == (ResourceView::TimeStatus {
            synced: false,
            server: Seq::empty(),
            offset_ns: 0,
            sync_count: v.sync_count,
        })),
    decreases n,
{
    if n > 0 {
        every_server_is_asked_in_turn(v, (n - 1) as nat);
    }
}

/// Servers that are configured are the ones that are asked; there is always
/// one to ask.
pub proof fn configured_servers_are_asked(configured: Seq<Seq<char>>)
    ensures
        configured.len() > 0 ==> servers_of(configured) == configured,
        configured.len() == 0 ==> servers_of(configured) == seq![
            "0.pool.ntp.org"@,
            "1.pool.ntp.org"@,
        ],
        servers_of(configured).len() > 0,
{
}

} // verus!
