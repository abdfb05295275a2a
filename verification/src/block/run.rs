//! Writing partitions to a disk, step by step. What has to be done to the disk
//! is an action; its outcome is an event; a run turns each event into the next
//! action. A fresh run replaces the partition table; an appending run keeps
//! what is there and refuses labels that exist.

use crate::block::sysfs::SysfsBlock;
use crate::block::{
    duplicate_error, numbered_device, saturating_product, BlockError, ErrorView, PartType,
    PartitionPlan, PlanView,
};
use crate::paths::{file_name, join};
use crate::text::push_dec;
use vstd::prelude::*;
use vstd::string::*;

verus! {

/// What is to be done to the disk next.
pub enum Action {
    /// Open the partition table; a fresh one does not read what is there.
    Open { path: String, fresh: bool },
    /// Drop all entries.
    Clear,
    /// Find the runs of free blocks.
    FreeRuns,
    /// Add an entry.
    Add { label: String, size_bytes: u64, part_type: PartType },
    /// Write the table to the disk.
    Write,
    /// Have the kernel read the table again.
    Reread,
    /// Tell the kernel of the new entries one by one: number, first and last
    /// block.
    Register { block_size: u64, parts: Vec<(u32, u64, u64)> },
    /// See whether a device node exists.
    Probe { device: String },
    /// Wait a moment.
    Wait,
    /// The partitions are there.
    Done { devices: Vec<String> },
    /// The run has failed.
    Fail { error: BlockError },
}

/// What came of an action.
pub enum Event {
    /// The table is open: its block size and the labels of its entries.
    Opened { block_size: u64, labels: Vec<String> },
    /// The lengths of the runs of free blocks.
    Free { runs: Vec<u64> },
    /// The entry was added: its number, and its first and last block where the
    /// table holds it.
    Added { id: u32, extent: Option<(u64, u64)> },
    /// Whether the kernel has read the table again.
    Reread { ok: bool },
    /// Whether the device node exists.
    Seen { present: bool },
    /// The action is done.
    Finished,
    /// The partition table refused the action.
    Failed { message: String },
    /// The kernel refused the new entries.
    Refused { error: BlockError },
}

/// How far a run has come. `k` counts the partitions dealt with, `left` the
/// waits that are left for a device node.
#[derive(Clone, Copy, Debug, PartialEq, Eq)]
pub enum Stage {
    Opening,
    Clearing,
    Sizing { k: usize },
    Adding { k: usize },
    Writing,
    Rereading,
    Registering,
    Checking { k: usize, left: u8 },
    Waiting { k: usize, left: u8 },
    Over,
}

/// A run.
pub struct PartitionRun {
    fresh: bool,
    disk: String,
    path: String,
    dev_root: String,
    plan: Vec<PartitionPlan>,
    stage: Stage,
    block_size: u64,
    added: Vec<(u32, u64, u64)>,
}

/// What a run knows.
#[verifier::ext_equal]
pub struct RunView {
    pub fresh: bool,
    pub disk: Seq<char>,
    pub path: Seq<char>,
    pub dev_root: Seq<char>,
    pub plan: Seq<PlanView>,
    pub stage: Stage,
    pub block_size: u64,
    pub added: Seq<(u32, u64, u64)>,
}

impl View for PartitionRun {
    type V = RunView;

    closed spec fn view(&self) -> RunView {
        RunView {
            fresh: self.fresh,
            disk: self.disk@,
            path: self.path@,
            dev_root: self.dev_root@,
            plan: crate::block::plans(self.plan@),
            stage: self.stage,
            block_size: self.block_size,
            added: self.added@,
        }
    }
}

/// What an action says.
#[verifier::ext_equal]
pub enum ActionView {
    Open { path: Seq<char>, fresh: bool },
    Clear,
    FreeRuns,
    Add { label: Seq<char>, size_bytes: u64, part_type: PartType },
    Write,
    Reread,
    Register { block_size: u64, parts: Seq<(u32, u64, u64)> },
    Probe { device: Seq<char> },
    Wait,
    Done { devices: Seq<Seq<char>> },
    Fail { error: ErrorView },
}

impl View for Action {
    type V = ActionView;

    open spec fn view(&self) -> ActionView {
        match *self {
            Action::Open { path, fresh } => ActionView::Open { path: path@, fresh },
            Action::Clear => ActionView::Clear,
            Action::FreeRuns => ActionView::FreeRuns,
            Action::Add { label, size_bytes, part_type } => ActionView::Add {
                label: label@,
                size_bytes,
                part_type,
            },
            Action::Write => ActionView::Write,
            Action::Reread => ActionView::Reread,
            Action::Register { block_size, parts } => ActionView::Register {
                block_size,
                parts: parts@,
            },
            Action::Probe { device } => ActionView::Probe { device: device@ },
            Action::Wait => ActionView::Wait,
            Action::Done { devices } => ActionView::Done {
                devices: crate::text::texts(devices@),
            },
            Action::Fail { error } => ActionView::Fail { error: error@ },
        }
    }
}

/// The largest of the lengths, or 0 where there is none.
pub open spec fn largest(runs: Seq<u64>) -> u64
    decreases runs.len(),
{
    if runs.len() == 0 {
        0
    } else {
        let before = largest(runs.drop_last());
        if runs.last() > before {
            runs.last()
        } else {
            before
        }
    }
}

/// The name by which the disk's partitions are named.
pub open spec fn disk_name(v: RunView) -> Seq<char> {
    match crate::paths::file_name_of(v.path) {
        Some(name) => name,
        None => v.disk,
    }
}

/// The device node of a partition.
pub open spec fn node(v: RunView, num: nat) -> Seq<char> {
    crate::paths::below(v.dev_root, crate::block::part_name(disk_name(v), num))
}

/// The device nodes of the partitions of the plan: a fresh table numbers them
/// from 1, an appending run goes by the numbers of the added entries.
pub open spec fn nodes(v: RunView) -> Seq<Seq<char>> {
    if v.fresh {
        Seq::new(v.plan.len(), |i: int| node(v, (i + 1) as nat))
    } else {
        Seq::new(v.added.len(), |i: int| node(v, v.added[i].0 as nat))
    }
}

/// The run has come to `stage`.
pub open spec fn at(v: RunView, stage: Stage) -> RunView {
    RunView { stage, ..v }
}

/// The run has failed.
pub open spec fn failed(v: RunView, error: ErrorView) -> (RunView, ActionView) {
    (at(v, Stage::Over), ActionView::Fail { error })
}

/// The run has failed with a message about the partition table.
pub open spec fn table_failed(v: RunView, message: Seq<char>) -> (RunView, ActionView) {
    failed(v, ErrorView::Gpt { device: v.path, message })
}

/// Turns to the `k`-th partition of the plan, or writes the table.
pub open spec fn turn_to(v: RunView, k: int) -> (RunView, ActionView) {
    if k >= v.plan.len() {
        (at(v, Stage::Writing), ActionView::Write)
    } else if v.plan[k].size_bytes == 0 {
        (at(v, Stage::Sizing { k: k as usize }), ActionView::FreeRuns)
    } else {
        (
            at(v, Stage::Adding { k: k as usize }),
            ActionView::Add {
                label: v.plan[k].label,
                size_bytes: v.plan[k].size_bytes,
                part_type: v.plan[k].part_type,
            },
        )
    }
}

/// Looks for the `k`-th device node, or is done.
pub open spec fn look_for(v: RunView, k: int) -> (RunView, ActionView) {
    if k >= nodes(v).len() {
        (at(v, Stage::Over), ActionView::Done { devices: nodes(v) })
    } else {
        (
            at(v, Stage::Checking { k: k as usize, left: 10 }),
            ActionView::Probe { device: nodes(v)[k] },
        )
    }
}

/// The number of leading labels of the plan that do not exist yet.
pub open spec fn new_labels(plan: Seq<PlanView>, labels: Seq<Seq<char>>) -> nat
    decreases plan.len(),
{
    if plan.len() == 0 || labels.contains(plan[0].label) {
        0
    } else {
        1 + new_labels(plan.skip(1), labels)
    }
}

/// Why a partition that was added is missing.
pub open spec fn missing_entry(id: nat) -> Seq<char> {
    "added partition "@ + crate::text::dec(id) + " missing from table"@
}

/// Why a device node is missing.
pub open spec fn missing_node(device: Seq<char>) -> Seq<char> {
    "partition node "@ + device + " did not appear after partition-table update"@
}

/// The events that can follow at each stage.
pub open spec fn can_follow(stage: Stage, e: Event) -> bool {
    match e {
        Event::Opened { .. } => stage is Opening,
        Event::Free { .. } => stage is Sizing,
        Event::Added { .. } => stage is Adding,
        Event::Reread { .. } => stage is Rereading,
        Event::Seen { .. } => stage is Checking,
        Event::Finished => stage is Clearing || stage is Writing || stage is Registering
            || stage is Waiting,
        Event::Failed { .. } => stage is Opening || stage is Clearing || stage is Adding
            || stage is Writing,
        Event::Refused { .. } => stage is Registering,
    }
}

/// How a run goes on after an event: what it knows then, and the next action.
pub open spec fn next(v: RunView, e: Event) -> (RunView, ActionView) {
    match e {
        Event::Opened { block_size, labels } => {
            let w = RunView { block_size, ..v };
            let n = new_labels(w.plan, crate::text::texts(labels@)) as int;
            if w.fresh {
                (at(w, Stage::Clearing), ActionView::Clear)
            } else if n < w.plan.len() {
                table_failed(w, crate::block::duplicate_message(w.plan[n].label, w.disk))
            } else {
                turn_to(w, 0)
            }
        },
        Event::Free { runs } => {
            let k = v.stage->Sizing_k as int;
            (
                at(v, Stage::Adding { k: k as usize }),
                ActionView::Add {
                    label: v.plan[k].label,
                    size_bytes: crate::block::saturated(largest(runs@), v.block_size),
                    part_type: v.plan[k].part_type,
                },
            )
        },
        Event::Added { id, extent } => {
            let k = v.stage->Adding_k as int;
            if v.fresh {
                turn_to(v, k + 1)
            } else {
                match extent {
                    Some((first, last)) => turn_to(
                        RunView { added: v.added.push((id, first, last)), ..v },
                        k + 1,
                    ),
                    None => table_failed(v, missing_entry(id as nat)),
                }
            }
        },
        Event::Reread { ok } => if v.fresh {
            (at(v, Stage::Over), ActionView::Done { devices: nodes(v) })
        } else if ok {
            look_for(v, 0)
        } else {
            (
                at(v, Stage::Registering),
                ActionView::Register { block_size: v.block_size, parts: v.added },
            )
        },
        Event::Seen { present } => {
            let k = v.stage->Checking_k as int;
            let left = v.stage->Checking_left;
            if present {
                look_for(v, k + 1)
            } else if left == 0 {
                table_failed(v, missing_node(nodes(v)[k]))
            } else {
                (
                    at(v, Stage::Waiting { k: k as usize, left: (left - 1) as u8 }),
                    ActionView::Wait,
                )
            }
        },
        Event::Finished => match v.stage {
            Stage::Clearing => turn_to(v, 0),
            Stage::Writing => (at(v, Stage::Rereading), ActionView::Reread),
            Stage::Registering => look_for(v, 0),
            Stage::Waiting { k, left } => (
                at(v, Stage::Checking { k, left }),
                ActionView::Probe { device: nodes(v)[k as int] },
            ),
            _ => (v, ActionView::Wait),
        },
        Event::Failed { message } => table_failed(v, message@),
        Event::Refused { error } => failed(v, error@),
    }
}

/// What holds of a run at every moment.
pub open spec fn is_run(v: RunView) -> bool {
    &&& v.plan.len() <= u32::MAX
    &&& v.added.len() <= usize::MAX
    &&& v.stage matches Stage::Sizing { k } ==> k < v.plan.len()
    &&& v.stage matches Stage::Adding { k } ==> k < v.plan.len()
    &&& v.stage is Registering ==> !v.fresh
    &&& v.stage matches Stage::Checking { k, left } ==> k < nodes(v).len() && !v.fresh
    &&& v.stage matches Stage::Waiting { k, left } ==> k < nodes(v).len() && !v.fresh
}

fn largest_of(runs: &Vec<u64>) -> (r: u64)
    ensures
        r == largest(runs@),
{
    let mut best: u64 = 0;
    let mut i: usize = 0;
    while i < runs.len()
        invariant
            i <= runs@.len(),
            best == largest(runs@.take(i as int)),
        decreases runs@.len() - i,
    {
        assert(runs@.take(i + 1).drop_last() =~= runs@.take(i as int));
        if runs[i] > best {
            best = runs[i];
        }
        i += 1;
    }
    assert(runs@.take(i as int) =~= runs@);
    best
}

fn copy_parts(v: &Vec<(u32, u64, u64)>) -> (r: Vec<(u32, u64, u64)>)
    ensures
        r@ == v@,
{
    let mut out: Vec<(u32, u64, u64)> = Vec::new();
    let mut i: usize = 0;
    while i < v.len()
        invariant
            i <= v@.len(),
            out@ == v@.take(i as int),
        decreases v@.len() - i,
    {
        out.push(v[i]);
        i += 1;
        assert(v@.take(i as int) =~= v@.take(i - 1).push(v@[i - 1]));
    }
    assert(v@.take(i as int) =~= v@);
    out
}

fn holds_label(labels: &Vec<String>, label: &String) -> (r: bool)
    ensures
        r == crate::text::texts(labels@).contains(label@),
{
    let mut i: usize = 0;
    while i < labels.len()
        invariant
            i <= labels@.len(),
            forall|k: int| 0 <= k < i ==> crate::text::texts(labels@)[k] != label@,
        decreases labels@.len() - i,
    {
        assert(crate::text::texts(labels@)[i as int] == labels@[i as int]@);
        if labels[i] == *label {
            return true;
        }
        i += 1;
    }
    false
}

impl PartitionRun {
    /// Begins a run on `disk` and gives its first action.
    pub fn start(block: &SysfsBlock, disk: &str, plan: Vec<PartitionPlan>, fresh: bool) -> (r: (
        PartitionRun,
        Action,
    ))
        requires
            plan@.len() <= u32::MAX,
        ensures
            ({
                let path = if crate::text::begins(disk@, "/"@) {
                    disk@
                } else {
                    crate::paths::below(block.dev(), disk@)
                };
                &&& r.0@ == (RunView {
                    fresh,
                    disk: disk@,
                    path,
                    dev_root: block.dev(),
                    plan: crate::block::plans(plan@),
                    stage: Stage::Opening,
                    block_size: 0,
                    added: seq![],
                })
                &&& r.1@ == (ActionView::Open { path, fresh })
                &&& is_run(r.0@)
            }),
    {
        let path = block.disk_path(disk);
        let run = PartitionRun {
            fresh,
            disk: disk.to_owned(),
            path: path.clone(),
            dev_root: block.device_root(),
            plan,
            stage: Stage::Opening,
            block_size: 0,
            added: Vec::new(),
        };
        (run, Action::Open { path, fresh })
    }

    fn device_node(&self, num: u32) -> (r: String)
        ensures
            r@ == node(self@, num as nat),
    {
        let name = match file_name(self.path.as_str()) {
            Some(name) => name,
            None => self.disk.clone(),
        };
        join(self.dev_root.as_str(), numbered_device(name.as_str(), num as u128).as_str())
    }

    fn device_nodes(&self) -> (r: Vec<String>)
        requires
            self@.plan.len() <= u32::MAX,
        ensures
            crate::text::texts(r@) == nodes(self@),
    {
        let mut out: Vec<String> = Vec::new();
        let ghost all = nodes(self@);
        let n: usize = if self.fresh {
            self.plan.len()
        } else {
            self.added.len()
        };
        let mut i: usize = 0;
        assert(crate::text::texts(out@) =~= all.take(0));
        while i < n
            invariant
                i <= n,
                all == nodes(self@),
                all.len() == n,
                self.fresh ==> n == self.plan@.len() && n <= u32::MAX,
                !self.fresh ==> n == self.added@.len(),
                crate::text::texts(out@) == all.take(i as int),
            decreases n - i,
        {
            let num: u32 = if self.fresh {
                (i + 1) as u32
            } else {
                self.added[i].0
            };
            let device = self.device_node(num);
            proof {
                assert(device@ == all[i as int]);
                assert(all.take(i + 1) =~= all.take(i as int).push(device@));
                assert(crate::text::texts(out@.push(device)) =~= crate::text::texts(out@).push(
                    device@,
                ));
            }
            out.push(device);
            i += 1;
        }
        assert(all.take(i as int) =~= all);
        out
    }

    fn fail_with(&mut self, message: String) -> (r: Action)
        ensures
            (final(self)@, r@) == table_failed(old(self)@, message@),
    {
        self.stage = Stage::Over;
        Action::Fail { error: BlockError::Gpt { device: self.path.clone(), message } }
    }

    fn turn(&mut self, k: usize) -> (r: Action)
        requires
            is_run(old(self)@),
        ensures
            (final(self)@, r@) == turn_to(old(self)@, k as int),
    {
        if k >= self.plan.len() {
            self.stage = Stage::Writing;
            Action::Write
        } else {
            assert(self@.plan[k as int] == self.plan@[k as int]@);
            if self.plan[k].size_bytes == 0 {
                self.stage = Stage::Sizing { k };
                Action::FreeRuns
            } else {
                self.stage = Stage::Adding { k };
                Action::Add {
                    label: self.plan[k].label.clone(),
                    size_bytes: self.plan[k].size_bytes,
                    part_type: self.plan[k].part_type,
                }
            }
        }
    }

    fn look(&mut self, k: usize) -> (r: Action)
        requires
            is_run(old(self)@),
        ensures
            (final(self)@, r@) == look_for(old(self)@, k as int),
    {
        let devices = self.device_nodes();
        assert(devices@.len() == nodes(self@).len());
        if k >= devices.len() {
            self.stage = Stage::Over;
            Action::Done { devices }
        } else {
            assert(crate::text::texts(devices@)[k as int] == devices@[k as int]@);
            self.stage = Stage::Checking { k, left: 10 };
            Action::Probe { device: devices[k].clone() }
        }
    }

    /// The first label of the plan that exists already.
    fn first_duplicate(&self, labels: &Vec<String>) -> (r: Option<usize>)
        ensures
            match r {
                Some(i) => i < self@.plan.len() && i == new_labels(
                    self@.plan,
                    crate::text::texts(labels@),
                ),
                None => new_labels(self@.plan, crate::text::texts(labels@)) == self@.plan.len(),
            },
    {
        let ghost have = crate::text::texts(labels@);
        let ghost plan = self@.plan;
        let mut i: usize = 0;
        assert(plan.skip(0) =~= plan);
        while i < self.plan.len()
            invariant
                i <= self.plan@.len(),
                have == crate::text::texts(labels@),
                plan == self@.plan,
                plan.len() == self.plan@.len(),
                new_labels(plan, have) == i + new_labels(plan.skip(i as int), have),
            decreases self.plan@.len() - i,
        {
            assert(plan.skip(i as int)[0] == self.plan@[i as int]@);
            if holds_label(labels, &self.plan[i].label) {
                return Some(i);
            }
            assert(plan.skip(i as int).skip(1) =~= plan.skip(i + 1));
            i += 1;
        }
        None
    }

    /// Takes an event in and gives the next action.
    #[verifier::rlimit(30)]
    pub fn step(&mut self, event: Event) -> (r: Action)
        requires
            is_run(old(self)@),
            can_follow(old(self)@.stage, event),
        ensures
            is_run(final(self)@),
            (final(self)@, r@) == next(old(self)@, event),
    {
        match event {
            Event::Opened { block_size, labels } => {
                self.block_size = block_size;
                if self.fresh {
                    self.stage = Stage::Clearing;
                    return Action::Clear;
                }
                match self.first_duplicate(&labels) {
                    Some(i) => {
                        assert(self@.plan[i as int] == self.plan@[i as int]@);
                        let error = duplicate_error(
                            self.path.as_str(),
                            self.plan[i].label.as_str(),
                            self.disk.as_str(),
                        );
                        assert(error@ == (ErrorView::Gpt {
                            device: self.path@,
                            message: crate::block::duplicate_message(
                                self@.plan[i as int].label,
                                self.disk@,
                            ),
                        }));
                        self.stage = Stage::Over;
                        Action::Fail { error }
                    },
                    None => self.turn(0),
                }
            },
            Event::Free { runs } => {
                let k: usize = match self.stage {
                    Stage::Sizing { k } => k,
                    _ => 0,
                };
                assert(self@.plan[k as int] == self.plan@[k as int]@);
                let size = saturating_product(largest_of(&runs), self.block_size);
                self.stage = Stage::Adding { k };
                Action::Add {
                    label: self.plan[k].label.clone(),
                    size_bytes: size,
                    part_type: self.plan[k].part_type,
                }
            },
            Event::Added { id, extent } => {
                let k: usize = match self.stage {
                    Stage::Adding { k } => k,
                    _ => 0,
                };
                if self.fresh {
                    return self.turn(k + 1);
                }
                match extent {
                    Some((first, last)) => {
                        let ghost before = self@;
                        self.added.push((id, first, last));
                        assert(self.added.len() == self.added@.len());
                        assert(self@ =~= (RunView {
                            added: before.added.push((id, first, last)),
                            ..before
                        }));
                        self.turn(k + 1)
                    },
                    None => {
                        let mut message = "added partition ".to_owned();
                        push_dec(&mut message, id as u64);
                        message.append(" missing from table");
                        self.fail_with(message)
                    },
                }
            },
            Event::Reread { ok } => {
                if self.fresh {
                    let devices = self.device_nodes();
                    self.stage = Stage::Over;
                    Action::Done { devices }
                } else if ok {
                    self.look(0)
                } else {
                    self.stage = Stage::Registering;
                    Action::Register { block_size: self.block_size, parts: copy_parts(&self.added) }
                }
            },
            Event::Seen { present } => {
                let (k, left) = match self.stage {
                    Stage::Checking { k, left } => (k, left),
                    _ => (0, 0),
                };
                if present {
                    self.look(k + 1)
                } else if left == 0 {
                    let devices = self.device_nodes();
                    assert(crate::text::texts(devices@)[k as int] == devices@[k as int]@);
                    let mut message = "partition node ".to_owned();
                    message.append(devices[k].as_str());
                    message.append(" did not appear after partition-table update");
                    self.fail_with(message)
                } else {
                    self.stage = Stage::Waiting { k, left: left - 1 };
                    Action::Wait
                }
            },
            Event::Finished => match self.stage {
                Stage::Clearing => self.turn(0),
                Stage::Writing => {
                    self.stage = Stage::Rereading;
                    Action::Reread
                },
                Stage::Registering => self.look(0),
                Stage::Waiting { k, left } => {
                    let devices = self.device_nodes();
                    assert(crate::text::texts(devices@)[k as int] == devices@[k as int]@);
                    self.stage = Stage::Checking { k, left };
                    Action::Probe { device: devices[k].clone() }
                },
                _ => Action::Wait,
            },
            Event::Failed { message } => self.fail_with(message),
            Event::Refused { error } => {
                self.stage = Stage::Over;
                Action::Fail { error }
            },
        }
    }
}

/// An appending run never drops what is on the disk.
pub proof fn appending_never_clears(v: RunView, e: Event)
    requires
        !v.fresh,
    ensures
        next(v, e).1 !is Clear,
        !next(v, e).0.fresh,
{
}

/// A label that exists already is refused before anything is added or
/// written: the run is over.
pub proof fn duplicates_are_refused_at_once(v: RunView, block_size: u64, labels: Vec<String>, i: int)
    requires
        !v.fresh,
        0 <= i < v.plan.len(),
        crate::text::texts(labels@).contains(v.plan[i].label),
    ensures
        next(v, Event::Opened { block_size, labels }).1 is Fail,
        next(v, Event::Opened { block_size, labels }).0.stage is Over,
{
    lemma_new_labels(v.plan, crate::text::texts(labels@), i);
}

proof fn lemma_new_labels(plan: Seq<PlanView>, labels: Seq<Seq<char>>, i: int)
    requires
        0 <= i < plan.len(),
        labels.contains(plan[i].label),
    ensures
        new_labels(plan, labels) <= i,
    decreases plan.len(),
{
    if i > 0 && !labels.contains(plan[0].label) {
        lemma_new_labels(plan.skip(1), labels, i - 1);
    }
}

/// The device node that a run is looking for.
pub open spec fn looks_for(stage: Stage) -> Option<int> {
    match stage {
        Stage::Checking { k, .. } => Some(k as int),
        Stage::Waiting { k, .. } => Some(k as int),
        _ => None,
    }
}

/// An appending run is done only when the last of its device nodes has been
/// seen, and it turns to a node only when the one before it has been seen: no
/// partition is handed out whose node does not exist.
pub proof fn done_means_seen(v: RunView, e: Event)
    requires
        !v.fresh,
        can_follow(v.stage, e),
        is_run(v),
    ensures
        next(v, e).1 is Done && v.added.len() > 0 ==> looks_for(v.stage) == Some(
            v.added.len() - 1,
        ) && e == (Event::Seen { present: true }),
        ({
            let now = looks_for(next(v, e).0.stage);
            now is Some && now->0 > 0 ==> looks_for(v.stage) == now || (looks_for(v.stage) == Some(
                now->0 - 1,
            ) && e == (Event::Seen { present: true }))
        }),
{
}

/// The largest run is as long as any, and it is one of the runs.
pub proof fn the_largest_run_is_the_largest(runs: Seq<u64>)
    ensures
        forall|i: int| 0 <= i < runs.len() ==> #[trigger] runs[i] <= largest(runs),
        runs.len() > 0 ==> runs.contains(largest(runs)),
        runs.len() == 0 ==> largest(runs) == 0,
    decreases runs.len(),
{
    if runs.len() > 0 {
        let less = runs.drop_last();
        the_largest_run_is_the_largest(less);
        assert forall|i: int| 0 <= i < runs.len() implies #[trigger] runs[i] <= largest(runs) by {
            if i < less.len() {
                assert(less[i] == runs[i]);
            }
        }
        if runs.last() > largest(less) || less.len() == 0 {
            assert(runs[runs.len() - 1] == runs.last());
            if runs.last() <= largest(less) {
                assert(runs.last() == largest(runs));
            }
        } else {
            let i = choose|i: int| 0 <= i < less.len() && less[i] == largest(less);
            assert(runs[i] == largest(runs));
        }
    }
}

/// What is done on a fresh table when the first `n` partitions of the plan have
/// been added; `runs` are the runs of free blocks wherever they are asked for.
pub open spec fn after_adds(v: RunView, runs: Vec<u64>, n: nat) -> (RunView, ActionView)
    decreases n,
{
    if n == 0 {
        next(v, Event::Finished)
    } else {
        let w = after_adds(v, runs, (n - 1) as nat).0;
        let ready = if w.stage is Sizing {
            next(w, Event::Free { runs }).0
        } else {
            w
        };
        next(ready, Event::Added { id: n as u32, extent: None })
    }
}

/// A fresh table gets every partition of the plan, in its order: each with its
/// own label and type, and with its size, or, where it is to take what is left,
/// with the largest run of free blocks. Then the table is written.
pub proof fn every_planned_partition_is_added(v: RunView, runs: Vec<u64>, n: nat)
    requires
        v.fresh,
        v.stage is Clearing,
        v.plan.len() <= u32::MAX,
        n <= v.plan.len(),
    ensures
        ({
            let r = after_adds(v, runs, n);
            &&& r.0.plan == v.plan
            &&& r.0.block_size == v.block_size
            &&& r.0.fresh
            &&& n == v.plan.len() ==> r.1 is Write && r.0.stage is Writing
            &&& n < v.plan.len() && v.plan[n as int].size_bytes != 0 ==> r.1 == (ActionView::Add {
                label: v.plan[n as int].label,
                size_bytes: v.plan[n as int].size_bytes,
                part_type: v.plan[n as int].part_type,
            }) && r.0.stage == (Stage::Adding { k: n as usize })
            &&& n < v.plan.len() && v.plan[n as int].size_bytes == 0 ==> r.1 is FreeRuns
                && r.0.stage == (Stage::Sizing { k: n as usize }) && next(
                r.0,
                Event::Free { runs },
            ).1 == (ActionView::Add {
                label: v.plan[n as int].label,
                size_bytes: crate::block::saturated(largest(runs@), v.block_size),
                part_type: v.plan[n as int].part_type,
            })
        }),
    decreases n,
{
    if n > 0 {
        every_planned_partition_is_added(v, runs, (n - 1) as nat);
    }
}

/// A fresh table replaces the one that is there, and once it is written and the
/// kernel has been told, there is a device for every partition of the plan.
pub proof fn a_fresh_table_replaces_the_old_one(
    v: RunView,
    block_size: u64,
    labels: Vec<String>,
    ok: bool,
)
    requires
        v.fresh,
    ensures
        v.stage is Opening ==> next(v, Event::Opened { block_size, labels }).1 is Clear,
        v.stage is Writing ==> next(v, Event::Finished).1 is Reread,
        v.stage is Rereading ==> (next(v, Event::Reread { ok }).1 matches ActionView::Done {
            devices,
        } && devices.len() == v.plan.len()),
{
}

/// The devices of a fresh table are numbered from 1; those of added partitions
/// have the numbers that the table gave them. All are named after the disk, and
/// no two are the same.
pub proof fn a_partition_is_found_by_its_number(v: RunView, i: int, j: int)
    requires
        0 <= i < j < nodes(v).len(),
        v.dev_root.len() > 0,
        v.dev_root.last() != '/',
        disk_name(v).len() > 0,
        disk_name(v)[0] != '/',
    ensures
        v.fresh ==> nodes(v)[i] == v.dev_root + "/"@ + crate::block::part_name(
            disk_name(v),
            (i + 1) as nat,
        ),
        !v.fresh ==> nodes(v)[i] == v.dev_root + "/"@ + crate::block::part_name(
            disk_name(v),
            v.added[i].0 as nat,
        ),
        v.fresh ==> nodes(v)[i] != nodes(v)[j],
        !v.fresh && v.added[i].0 != v.added[j].0 ==> nodes(v)[i] != nodes(v)[j],
{
    let a: nat = if v.fresh {
        (i + 1) as nat
    } else {
        v.added[i].0 as nat
    };
    let b: nat = if v.fresh {
        (j + 1) as nat
    } else {
        v.added[j].0 as nat
    };
    let d = disk_name(v);
    crate::block::each_partition_has_its_own_device(d, a, b);
    crate::block::each_partition_has_its_own_device(d, b, a);
    let x = crate::block::part_name(d, a);
    let y = crate::block::part_name(d, b);
    assert(x.take(d.len() as int)[0] == x[0]);
    assert(y.take(d.len() as int)[0] == y[0]);
    reveal_strlit("/");
    let n = v.dev_root.len() as int + 1;
    assert((v.dev_root + "/"@ + x).skip(n) =~= x);
    assert((v.dev_root + "/"@ + y).skip(n) =~= y);
}

/// What the table gave for an added partition is what the kernel is told, and
/// nothing else: its number, its first block and its last.
pub proof fn the_kernel_is_told_what_was_added(v: RunView, id: u32, first: u64, last: u64)
    requires
        !v.fresh,
    ensures
        v.stage is Adding ==> next(
            v,
            Event::Added { id, extent: Some((first, last)) },
        ).0.added == v.added.push((id, first, last)),
        v.stage is Adding ==> next(v, Event::Added { id, extent: None }).1 is Fail,
        v.stage is Rereading ==> next(v, Event::Reread { ok: false }).1 == (ActionView::Register {
            block_size: v.block_size,
            parts: v.added,
        }),
        v.stage is Rereading && v.added.len() > 0 ==> next(v, Event::Reread { ok: true }).1
            == (ActionView::Probe { device: nodes(v)[0] }),
{
}

/// What is done after the device node has been missing `n` times.
pub open spec fn after_misses(v: RunView, n: nat) -> (RunView, ActionView)
    decreases n,
{
    if n == 0 {
        (v, ActionView::Wait)
    } else {
        let r = next(after_misses(v, (n - 1) as nat).0, Event::Seen { present: false });
        if r.0.stage is Waiting {
            next(r.0, Event::Finished)
        } else {
            r
        }
    }
}

/// A device node is looked for eleven times, with a wait in between; then the
/// run fails. Whenever it is there, the run turns to the next.
pub proof fn a_missing_node_is_waited_for(v: RunView, k: usize, n: nat)
    requires
        v.stage == (Stage::Checking { k, left: 10 }),
        1 <= n <= 11,
    ensures
        n <= 10 ==> after_misses(v, n) == (
            RunView { stage: Stage::Checking { k, left: (10 - n) as u8 }, ..v },
            ActionView::Probe { device: nodes(v)[k as int] },
        ),
        n == 11 ==> after_misses(v, n).1 is Fail,
    decreases n,
{
    if n > 1 {
        a_missing_node_is_waited_for(v, k, (n - 1) as nat);
        let w = after_misses(v, (n - 1) as nat).0;
        assert(nodes(w) == nodes(v));
    } else {
        assert(after_misses(v, 0).0 == v);
    }
    let r = next(after_misses(v, (n - 1) as nat).0, Event::Seen { present: false });
    assert(r.0.stage is Waiting ==> nodes(r.0) == nodes(v));
}

/// Whatever is added, fresh or behind others, is a partition of the plan: with
/// its label, its type and, unless it is to take what is left, its size. The partitions are added
/// in their order, and the table is written only behind the last.
pub proof fn what_is_added_was_planned(v: RunView, e: Event)
    requires
        is_run(v),
        can_follow(v.stage, e),
    ensures
        next(v, e).1 matches ActionView::Add { label, size_bytes, part_type } ==> {
            &&& next(v, e).0.stage matches Stage::Adding { k }
            &&& label == v.plan[k as int].label
            &&& part_type == v.plan[k as int].part_type
            &&& v.stage !is Sizing ==> size_bytes == v.plan[k as int].size_bytes && size_bytes != 0
            &&& v.stage matches Stage::Adding { k: before } ==> k == before + 1
            &&& v.stage matches Stage::Sizing { k: before } ==> k == before
            &&& v.stage is Opening || v.stage is Clearing ==> k == 0
        },
        next(v, e).1 is FreeRuns ==> {
            &&& next(v, e).0.stage matches Stage::Sizing { k }
            &&& v.plan[k as int].size_bytes == 0
            &&& v.stage matches Stage::Adding { k: before } ==> k == before + 1
            &&& v.stage is Opening || v.stage is Clearing ==> k == 0
        },
        next(v, e).1 is Write && v.stage is Adding ==> v.stage->Adding_k + 1 == v.plan.len(),
        next(v, e).0.plan == v.plan,
        next(v, e).0.path == v.path,
        next(v, e).0.fresh == v.fresh,
{
}

} // verus!
