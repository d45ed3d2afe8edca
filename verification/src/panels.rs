//! State of the three panels and of the refresh clock: what is selected,
//! what is being edited, which message is shown, and when the next refresh
//! is due. Drawing is not done here.
use crate::affinity::{maskable, CPU_SETSIZE};
use crate::process::ProcessInfo;
use crate::scheduler::{
    builtin_presets_of, preset_calls, preset_calls_of, preset_models, scheduler_calls,
    scheduler_calls_of, set_process_affinity, ControlRun, RunModel, SchedulePolicy, SchedulePreset,
    SysCall, SysCallModel,
};
use crate::text::{
    decimal, decimal_string, parse_unsigned, parse_unsigned_range, push_decimal, to_chars,
};
use vstd::prelude::*;

verus! {

/// Interval between two refreshes of the process list, in milliseconds.
pub const PROCESS_REFRESH_MS: u64 = 1000;

/// Nanoseconds in a millisecond.
pub const NANOS_PER_MILLI: u64 = 1_000_000;

/// The panel that is shown.
#[derive(Clone, Copy, Debug, PartialEq, Eq, Structural)]
pub enum Tab {
    CpuMonitor,
    ProcessList,
    Scheduler,
}

/// State of the CPU monitor panel.
#[derive(Clone, Copy, Debug)]
pub struct CpuMonitorPanel {
    /// The core whose details are shown.
    pub selected_core: Option<usize>,
}

impl CpuMonitorPanel {
    /// A panel with no core selected.
    pub fn new() -> (panel: CpuMonitorPanel)
        ensures
            panel.selected_core is None,
    {
        CpuMonitorPanel { selected_core: None }
    }
}

impl Default for CpuMonitorPanel {
    fn default() -> (panel: CpuMonitorPanel)
        ensures
            panel.selected_core is None,
    {
        CpuMonitorPanel::new()
    }
}

// ---------------------------------------------------------------------------
// The refresh clock.
// ---------------------------------------------------------------------------

/// Decides on each tick whether CPU samples and process list are due for a
/// refresh. Times are in nanoseconds since an arbitrary start.
#[derive(Clone, Copy, Debug)]
pub struct RefreshClock {
    /// Interval between two CPU refreshes, in milliseconds.
    pub cpu_interval_ms: u64,
    /// Time of the last CPU refresh.
    pub last_cpu: u64,
    /// Time of the last refresh of the process list.
    pub last_process: u64,
}

/// What is due at a tick.
#[derive(Clone, Copy, Debug, PartialEq, Eq, Structural)]
pub struct RefreshDue {
    pub cpu: bool,
    pub processes: bool,
}

/// Whether `interval_ms` milliseconds have passed between `last` and `now`.
/// A `now` before `last` counts as no time passed.
pub open spec fn interval_passed(last: u64, now: u64, interval_ms: u64) -> bool {
    (if now >= last {
        now - last
    } else {
        0
    }) >= interval_ms * NANOS_PER_MILLI
}

impl RefreshClock {
    /// A clock started at time `now` that refreshes the CPU samples every
    /// `cpu_interval_ms` milliseconds.
    pub fn new(cpu_interval_ms: u64, now: u64) -> (clock: RefreshClock)
        ensures
            clock == (RefreshClock { cpu_interval_ms, last_cpu: now, last_process: now }),
    {
        RefreshClock { cpu_interval_ms, last_cpu: now, last_process: now }
    }

    /// Tells what is due at time `now`, and takes `now` as the time of the
    /// last refresh of whatever is due. The CPU samples are due once their
    /// interval has passed since their last refresh, the process list once
    /// a second has passed since its last refresh.
    pub fn tick(&mut self, now: u64) -> (due: RefreshDue)
        ensures
            due.cpu == interval_passed(old(self).last_cpu, now, old(self).cpu_interval_ms),
            due.processes == interval_passed(old(self).last_process, now, PROCESS_REFRESH_MS),
            final(self).cpu_interval_ms == old(self).cpu_interval_ms,
            final(self).last_cpu == if due.cpu {
                now
            } else {
                old(self).last_cpu
            },
            final(self).last_process == if due.processes {
                now
            } else {
                old(self).last_process
            },
    {
        let cpu = passed(self.last_cpu, now, self.cpu_interval_ms);
        if cpu {
            self.last_cpu = now;
        }
        let processes = passed(self.last_process, now, PROCESS_REFRESH_MS);
        if processes {
            self.last_process = now;
        }
        RefreshDue { cpu, processes }
    }
}

/// Tells whether `interval_ms` milliseconds have passed between `last` and
/// `now`.
fn passed(last: u64, now: u64, interval_ms: u64) -> (b: bool)
    ensures
        b == interval_passed(last, now, interval_ms),
{
    let elapsed: u64 = if now >= last {
        now - last
    } else {
        0
    };
    let interval: u128 = interval_ms as u128 * 1_000_000;
    elapsed as u128 >= interval
}

// ---------------------------------------------------------------------------
// The process list panel.
// ---------------------------------------------------------------------------

/// The process id in the form in which the kernel calls take it.
pub open spec fn kernel_pid(pid: u32) -> i32 {
    if pid <= i32::MAX {
        pid as i32
    } else {
        (pid - 0x1_0000_0000) as i32
    }
}

/// Computes the process id in the form in which the kernel calls take it.
pub fn to_kernel_pid(pid: u32) -> (p: i32)
    ensures
        p == kernel_pid(pid),
{
    if pid <= 0x7FFF_FFFF {
        pid as i32
    } else {
        (pid - 0x8000_0000) as i32 + i32::MIN
    }
}

/// The numbers of `cores` in decimal, separated by commas.
pub open spec fn comma_list(cores: Seq<usize>) -> Seq<char>
    decreases cores.len(),
{
    if cores.len() == 0 {
        Seq::empty()
    } else if cores.len() == 1 {
        decimal(cores[0] as nat)
    } else {
        comma_list(cores.drop_last()) + seq![','] + decimal(cores.last() as nat)
    }
}

/// How an affinity is shown in the table: as "all" where it names as many
/// CPUs as the host has, as the list of its CPUs where these are four at
/// most, and as their number otherwise.
pub open spec fn affinity_text(affinity: Seq<usize>, logical_cores: nat) -> Seq<char> {
    if affinity.len() == logical_cores {
        "全部"@
    } else if affinity.len() <= 4 {
        comma_list(affinity)
    } else {
        decimal(affinity.len()) + "核"@
    }
}

/// The indices at which `selection` is set, in ascending order.
pub open spec fn selected_indices(selection: Seq<bool>) -> Seq<usize> {
    Seq::new(selection.len(), |i: int| i as usize).filter(
        |i: usize| i < selection.len() && selection[i as int],
    )
}

/// State of the process list panel.
#[derive(Clone, Debug)]
pub struct ProcessListPanel {
    /// The process whose details are shown.
    pub selected_pid: Option<u32>,
    /// The process whose affinity is being edited.
    pub editing_affinity: Option<u32>,
    /// One flag per logical CPU: whether it is ticked in the affinity editor.
    pub affinity_selection: Vec<bool>,
    /// The error that is shown.
    pub error_message: Option<String>,
}

/// The text of an optional message.
pub open spec fn message_text(message: Option<String>) -> Option<Seq<char>> {
    match message {
        Some(m) => Some(m@),
        None => None,
    }
}

impl ProcessListPanel {
    /// A panel with nothing selected and no message.
    pub fn new() -> (panel: ProcessListPanel)
        ensures
            panel.selected_pid is None,
            panel.editing_affinity is None,
            panel.affinity_selection@.len() == 0,
            panel.error_message is None,
    {
        ProcessListPanel {
            selected_pid: None,
            editing_affinity: None,
            affinity_selection: Vec::new(),
            error_message: None,
        }
    }

    /// Writes an affinity for the table.
    pub fn format_affinity(&self, affinity: &[usize], logical_cores: usize) -> (text: String)
        ensures
            text@ == affinity_text(affinity@, logical_cores as nat),
    {
        if affinity.len() == logical_cores {
            String::from_str("全部")
        } else if affinity.len() <= 4 {
            let mut text = String::new();
            let mut i: usize = 0;
            while i < affinity.len()
                invariant
                    i <= affinity@.len(),
                    text@ == comma_list(affinity@.subrange(0, i as int)),
                decreases affinity.len() - i,
            {
                let ghost before = affinity@.subrange(0, i as int);
                let ghost after = affinity@.subrange(0, i + 1);
                proof {
                    assert(after.drop_last() == before);
                    reveal_strlit(",");
                }
                if i > 0 {
                    text.append(",");
                }
                push_decimal(affinity[i] as u64, &mut text);
                i += 1;
            }
            proof {
                assert(affinity@.subrange(0, i as int) == affinity@);
            }
            text
        } else {
            let mut text = decimal_string(affinity.len() as u64);
            text.append("核");
            text
        }
    }

    /// Opens the affinity editor for process `pid`: one flag per logical
    /// CPU, set for the CPUs that the process may run on now.
    pub fn begin_affinity_edit(&mut self, pid: u32, affinity: &[usize], logical_cores: usize)
        ensures
            final(self).editing_affinity == Some(pid),
            final(self).affinity_selection@ == Seq::new(
                logical_cores as nat,
                |i: int| affinity@.contains(i as usize),
            ),
            final(self).selected_pid == old(self).selected_pid,
            final(self).error_message == old(self).error_message,
    {
        let mut selection: Vec<bool> = Vec::new();
        let mut i: usize = 0;
        while i < logical_cores
            invariant
                i <= logical_cores,
                selection@.len() == i,
                forall|k: int| 0 <= k < i ==> !selection@[k],
            decreases logical_cores - i,
        {
            selection.push(false);
            i += 1;
        }
        let mut j: usize = 0;
        while j < affinity.len()
            invariant
                j <= affinity@.len(),
                selection@.len() == logical_cores,
                forall|k: int|
                    0 <= k < logical_cores ==> selection@[k] == affinity@.subrange(
                        0,
                        j as int,
                    ).contains(k as usize),
            decreases affinity.len() - j,
        {
            let core: usize = affinity[j];
            let ghost after = affinity@.subrange(0, j + 1);
            if core < logical_cores {
                selection.set(core, true);
            }
            proof {
                assert forall|k: int| 0 <= k < logical_cores implies selection@[k]
                    == after.contains(k as usize) by {
                    if k == core {
                        assert(after[j as int] == core);
                    }
                }
            }
            j += 1;
        }
        proof {
            assert(affinity@.subrange(0, j as int) == affinity@);
        }
        self.editing_affinity = Some(pid);
        self.affinity_selection = selection;
    }

    /// Lists the CPUs that are ticked in the affinity editor.
    pub fn selected_cores(&self) -> (cores: Vec<usize>)
        ensures
            cores@ == selected_indices(self.affinity_selection@),
            forall|i: int| 0 <= i < cores@.len() ==> cores@[i] < self.affinity_selection@.len(),
    {
        let n: usize = self.affinity_selection.len();
        let ghost all = Seq::new(n as nat, |i: int| i as usize);
        let ghost pred = |i: usize|
            i < self.affinity_selection@.len() && self.affinity_selection@[i as int];
        let mut cores: Vec<usize> = Vec::new();
        let mut i: usize = 0;
        proof {
            assert(all.subrange(0, 0).filter(pred) =~= Seq::<usize>::empty()) by {
                reveal(Seq::filter);
            }
        }
        while i < n
            invariant
                i <= n,
                n == self.affinity_selection@.len(),
                all == Seq::new(n as nat, |i: int| i as usize),
                pred == |i: usize|
                    i < self.affinity_selection@.len() && self.affinity_selection@[i as int],
                cores@ == all.subrange(0, i as int).filter(pred),
                forall|k: int| 0 <= k < cores@.len() ==> cores@[k] < n,
            decreases n - i,
        {
            proof {
                all.subrange(0, i as int).lemma_filter_push(i, pred);
                assert(all.subrange(0, i as int).push(i) == all.subrange(0, i + 1));
            }
            if self.affinity_selection[i] {
                cores.push(i);
            }
            i += 1;
        }
        proof {
            assert(all.subrange(0, n as int) == all);
        }
        cores
    }

    /// Closes the affinity editor with a tick on "apply": gives the call
    /// that binds process `pid` to the ticked CPUs. Where no CPU is ticked
    /// there is no call; the panel shows an error instead and the editor
    /// stays open.
    pub fn commit_affinity(&mut self, pid: u32) -> (call: Option<SysCall>)
        requires
            old(self).affinity_selection@.len() <= CPU_SETSIZE,
        ensures
            selected_indices(old(self).affinity_selection@).len() == 0 ==> call is None
                && message_text(final(self).error_message) == Some("至少选择一个核心"@),
            selected_indices(old(self).affinity_selection@).len() > 0 ==> call is Some
                && call.unwrap()@ == (SysCallModel::SetAffinity {
                pid: kernel_pid(pid),
                cpus: selected_indices(old(self).affinity_selection@).to_set(),
            }) && final(self).error_message == old(self).error_message,
            final(self).selected_pid == old(self).selected_pid,
            final(self).editing_affinity == old(self).editing_affinity,
            final(self).affinity_selection == old(self).affinity_selection,
    {
        let cores = self.selected_cores();
        if cores.len() == 0 {
            self.error_message = Some(String::from_str("至少选择一个核心"));
            None
        } else {
            Some(set_process_affinity(to_kernel_pid(pid), cores.as_slice()))
        }
    }

    /// Takes the result of the call that `commit_affinity` gave: on success
    /// the editor closes and the error is cleared, on failure the error is
    /// shown and the editor stays open.
    pub fn affinity_applied(&mut self, result: Result<(), String>)
        ensures
            final(self).selected_pid == old(self).selected_pid,
            final(self).affinity_selection == old(self).affinity_selection,
            match result {
                Ok(_) => final(self).editing_affinity is None && final(self).error_message is None,
                Err(e) => final(self).editing_affinity == old(self).editing_affinity
                    && final(self).error_message == Some(e),
            },
    {
        match result {
            Ok(_) => {
                self.editing_affinity = None;
                self.error_message = None;
            },
            Err(e) => {
                self.error_message = Some(e);
            },
        }
    }
}

impl Default for ProcessListPanel {
    fn default() -> (panel: ProcessListPanel)
        ensures
            panel.selected_pid is None,
            panel.editing_affinity is None,
            panel.affinity_selection@.len() == 0,
            panel.error_message is None,
    {
        ProcessListPanel::new()
    }
}

// ---------------------------------------------------------------------------
// The scheduler panel.
// ---------------------------------------------------------------------------

/// State of the scheduler panel.
#[derive(Clone, Debug)]
pub struct SchedulerPanel {
    /// The process that changes are applied to.
    pub selected_pid: Option<u32>,
    /// The policy that is being edited.
    pub editing_policy: SchedulePolicy,
    /// The priority that is being edited.
    pub editing_priority: i32,
    /// The presets on offer.
    pub presets: Vec<SchedulePreset>,
    /// Text of the pid entry field.
    pub pid_input: String,
    /// The error that is shown.
    pub error_message: Option<String>,
    /// The confirmation that is shown.
    pub success_message: Option<String>,
}

/// Policy and priority of the first of `processes` that has pid `pid`.
pub open spec fn scheduling_of(processes: Seq<&ProcessInfo>, pid: u32) -> Option<
    (SchedulePolicy, i32),
>
    decreases processes.len(),
{
    if processes.len() == 0 {
        None
    } else if processes[0].pid == pid {
        Some((processes[0].sched_policy, processes[0].priority))
    } else {
        scheduling_of(processes.drop_first(), pid)
    }
}

/// The kind of a call, by which the panel words its messages.
pub open spec fn is_policy_call(call: SysCallModel) -> bool {
    call is SetScheduler
}

/// The messages `(error, success)` that the panel shows after a run of edited
/// policy and priority, given the messages `(error, success)` shown before.
/// Success is confirmed and clears the error. A refused change of policy
/// shows its error and clears the confirmation; a refusal of a later step
/// shows its error and leaves the confirmation. A run that is not over
/// changes nothing.
pub open spec fn scheduler_messages(
    run: RunModel,
    error: Option<Seq<char>>,
    success: Option<Seq<char>>,
) -> (Option<Seq<char>>, Option<Seq<char>>) {
    if run.failure is Some {
        if run.completed < run.calls.len() && !is_policy_call(run.calls[run.completed as int]) {
            (run.failure, success)
        } else {
            (run.failure, None)
        }
    } else if run.completed >= run.calls.len() {
        (None, Some("调度策略已应用"@))
    } else {
        (error, success)
    }
}

/// The error that the panel shows when a step of a preset fails with the
/// error text `failure`: that of a policy step as it is, that of a later
/// step behind the name of the step.
pub open spec fn preset_error(run: RunModel) -> Seq<char> {
    let failure = run.failure.unwrap();
    if run.completed < run.calls.len() {
        match run.calls[run.completed as int] {
            SysCallModel::SetScheduler { .. } => failure,
            SysCallModel::SetNice { .. } => "设置 nice 值失败: "@ + failure,
            SysCallModel::SetAffinity { .. } => "设置亲和性失败: "@ + failure,
        }
    } else {
        failure
    }
}

/// The messages `(error, success)` that the panel shows after a run of the
/// preset named `name`, given the messages shown before.
pub open spec fn preset_messages(
    run: RunModel,
    name: Seq<char>,
    error: Option<Seq<char>>,
    success: Option<Seq<char>>,
) -> (Option<Seq<char>>, Option<Seq<char>>) {
    if run.failure is Some {
        if run.completed < run.calls.len() && !is_policy_call(run.calls[run.completed as int]) {
            (Some(preset_error(run)), success)
        } else {
            (Some(preset_error(run)), None)
        }
    } else if run.completed >= run.calls.len() {
        (None, Some("预设 '"@ + name + "' 已应用"@))
    } else {
        (error, success)
    }
}

impl SchedulerPanel {
    /// A panel with no process selected, the default policy in the editor
    /// and the presets of the host.
    pub fn new(vcache_cores: &[usize], all_cores: usize) -> (panel: SchedulerPanel)
        ensures
            panel.selected_pid is None,
            panel.editing_policy == SchedulePolicy::Other,
            panel.editing_priority == 0,
            preset_models(panel.presets@) == builtin_presets_of(vcache_cores@, all_cores as nat),
            panel.pid_input@ == Seq::<char>::empty(),
            panel.error_message is None,
            panel.success_message is None,
    {
        SchedulerPanel {
            selected_pid: None,
            editing_policy: SchedulePolicy::Other,
            editing_priority: 0,
            presets: SchedulePreset::builtin_presets(vcache_cores, all_cores),
            pid_input: String::new(),
            error_message: None,
            success_message: None,
        }
    }

    /// Takes the process `process` as the one to work on: its pid is
    /// selected and written to the entry field, and the editor shows its
    /// policy and priority.
    pub fn select_process(&mut self, process: &ProcessInfo)
        ensures
            final(self).selected_pid == Some(process.pid),
            final(self).pid_input@ == decimal(process.pid as nat),
            final(self).editing_policy == process.sched_policy,
            final(self).editing_priority == process.priority,
            final(self).presets == old(self).presets,
            final(self).error_message == old(self).error_message,
            final(self).success_message == old(self).success_message,
    {
        self.selected_pid = Some(process.pid);
        self.pid_input = decimal_string(process.pid as u64);
        self.editing_policy = process.sched_policy;
        self.editing_priority = process.priority;
    }

    /// Reads the entry field after it was edited. Where it holds a pid, that
    /// pid is selected, and where `processes` holds a process of that pid,
    /// the editor shows policy and priority of the first such process. Text
    /// that is no pid changes nothing.
    pub fn pid_entered(&mut self, processes: &Vec<&ProcessInfo>)
        ensures
            final(self).pid_input == old(self).pid_input,
            final(self).presets == old(self).presets,
            final(self).error_message == old(self).error_message,
            final(self).success_message == old(self).success_message,
            final(self).selected_pid == match parse_unsigned(
                old(self).pid_input@,
                u32::MAX as nat,
            ) {
                Some(pid) => Some(pid as u32),
                None => old(self).selected_pid,
            },
            (final(self).editing_policy, final(self).editing_priority) == match parse_unsigned(
                old(self).pid_input@,
                u32::MAX as nat,
            ) {
                Some(pid) => match scheduling_of(processes@, pid as u32) {
                    Some(found) => found,
                    None => (old(self).editing_policy, old(self).editing_priority),
                },
                None => (old(self).editing_policy, old(self).editing_priority),
            },
    {
        let v = to_chars(self.pid_input.as_str());
        proof {
            assert(v@.subrange(0, v@.len() as int) == v@);
            assert(processes@.subrange(0, processes@.len() as int) == processes@);
        }
        match parse_unsigned_range(&v, 0, v.len(), u32::MAX as u64) {
            Some(n) => {
                let pid: u32 = n as u32;
                self.selected_pid = Some(pid);
                let mut i: usize = 0;
                while i < processes.len()
                    invariant
                        i <= processes@.len(),
                        scheduling_of(processes@, pid) == scheduling_of(
                            processes@.subrange(i as int, processes@.len() as int),
                            pid,
                        ),
                        parse_unsigned(old(self).pid_input@, u32::MAX as nat) == Some(pid as nat),
                        self.editing_policy == old(self).editing_policy,
                        self.editing_priority == old(self).editing_priority,
                        self.selected_pid == Some(pid),
                        self.pid_input == old(self).pid_input,
                        self.presets == old(self).presets,
                        self.error_message == old(self).error_message,
                        self.success_message == old(self).success_message,
                    decreases processes.len() - i,
                {
                    let ghost rest = processes@.subrange(i as int, processes@.len() as int);
                    proof {
                        assert(rest.drop_first() == processes@.subrange(
                            i + 1,
                            processes@.len() as int,
                        ));
                    }
                    if processes[i].pid == pid {
                        self.editing_policy = processes[i].sched_policy;
                        self.editing_priority = processes[i].priority;
                        return ;
                    }
                    i += 1;
                }
            },
            None => {},
        }
    }

    /// Starts the run that applies the edited policy and priority to
    /// process `pid`: the change of policy, followed under a policy that is
    /// not real-time by the change of niceness unless that is 0.
    pub fn apply_scheduler(&self, pid: i32) -> (run: ControlRun)
        ensures
            run@ == RunModel::start(
                scheduler_calls_of(pid, self.editing_policy, self.editing_priority),
            ),
    {
        ControlRun::new(scheduler_calls(pid, self.editing_policy, self.editing_priority))
    }

    /// Shows what came of a run that `apply_scheduler` started.
    pub fn scheduler_applied(&mut self, run: &ControlRun)
        ensures
            (message_text(final(self).error_message), message_text(final(self).success_message))
                == scheduler_messages(
                run@,
                message_text(old(self).error_message),
                message_text(old(self).success_message),
            ),
            final(self).selected_pid == old(self).selected_pid,
            final(self).editing_policy == old(self).editing_policy,
            final(self).editing_priority == old(self).editing_priority,
            final(self).presets == old(self).presets,
            final(self).pid_input == old(self).pid_input,
    {
        match run.failure() {
            Some(e) => {
                let keep: bool = match run.failed_call() {
                    Some(call) => match call {
                        SysCall::SetScheduler { .. } => false,
                        _ => true,
                    },
                    None => false,
                };
                self.error_message = Some(e.clone());
                if !keep {
                    self.success_message = None;
                }
            },
            None => {
                if run.succeeded() {
                    self.success_message = Some(String::from_str("调度策略已应用"));
                    self.error_message = None;
                }
            },
        }
    }

    /// Starts the run that applies `preset` to process `pid`: policy, then
    /// niceness, then affinity, as far as the preset asks for them.
    pub fn apply_preset(&self, pid: i32, preset: &SchedulePreset) -> (run: ControlRun)
        requires
            preset.affinity_cores matches Some(cores) ==> maskable(cores@),
        ensures
            run@ == RunModel::start(preset_calls_of(pid, preset@)),
    {
        ControlRun::new(preset_calls(pid, preset))
    }

    /// Shows what came of a run that `apply_preset` started for `preset`.
    pub fn preset_applied(&mut self, preset: &SchedulePreset, run: &ControlRun)
        ensures
            (message_text(final(self).error_message), message_text(final(self).success_message))
                == preset_messages(
                run@,
                preset.name@,
                message_text(old(self).error_message),
                message_text(old(self).success_message),
            ),
            final(self).selected_pid == old(self).selected_pid,
            final(self).editing_policy == old(self).editing_policy,
            final(self).editing_priority == old(self).editing_priority,
            final(self).presets == old(self).presets,
            final(self).pid_input == old(self).pid_input,
    {
        match run.failure() {
            Some(e) => {
                let mut message: String;
                let keep: bool;
                match run.failed_call() {
                    Some(call) => match call {
                        SysCall::SetScheduler { .. } => {
                            message = e.clone();
                            keep = false;
                        },
                        SysCall::SetNice { .. } => {
                            message = String::from_str("设置 nice 值失败: ");
                            message.append(e.as_str());
                            keep = true;
                        },
                        SysCall::SetAffinity { .. } => {
                            message = String::from_str("设置亲和性失败: ");
                            message.append(e.as_str());
                            keep = true;
                        },
                    },
                    None => {
                        message = e.clone();
                        keep = false;
                    },
                }
                self.error_message = Some(message);
                if !keep {
                    self.success_message = None;
                }
            },
            None => {
                if run.succeeded() {
                    let mut message = String::from_str("预设 '");
                    message.append(preset.name.as_str());
                    message.append("' 已应用");
                    self.success_message = Some(message);
                    self.error_message = None;
                }
            },
        }
    }
}

} // verus!
