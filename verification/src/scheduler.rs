//! Scheduling control: the policy taxonomy, the kernel calls that change a
//! process's policy, niceness and affinity, and the rules by which a
//! sequence of such calls is carried out.
//!
//! Nothing here talks to the kernel. A change is described by a [`SysCall`]
//! value; whoever performs it hands back a [`SysReply`], and a
//! [`ControlRun`] decides what happens next.
use crate::affinity::{maskable, CpuMask};
use crate::text::{field_range, nth_field, parse_i32_range, parse_signed, to_chars};
use vstd::prelude::*;
use vstd::slice::slice_to_vec;

verus! {

pub const SCHED_OTHER: i32 = 0;

pub const SCHED_FIFO: i32 = 1;

pub const SCHED_RR: i32 = 2;

pub const SCHED_BATCH: i32 = 3;

pub const SCHED_IDLE: i32 = 5;

/// Index of the niceness among the whitespace-separated fields of
/// `/proc/<pid>/stat`, counting from 0.
pub const STAT_NICE_FIELD: usize = 18;

/// Scheduling class of a process.
#[derive(Clone, Copy, Debug, PartialEq, Eq, Structural)]
pub enum SchedulePolicy {
    /// The default time-sharing class.
    Other,
    /// Real-time, first in first out.
    Fifo,
    /// Real-time, round robin.
    RoundRobin,
    /// Batch processing.
    Batch,
    /// Runs only when the CPU is otherwise idle.
    Idle,
    /// A class that is not modelled here, with the kernel's number for it.
    Unknown(i32),
}

/// The policy that the kernel's number `raw` stands for.
pub open spec fn policy_of_raw(raw: i32) -> SchedulePolicy {
    if raw == SCHED_OTHER {
        SchedulePolicy::Other
    } else if raw == SCHED_FIFO {
        SchedulePolicy::Fifo
    } else if raw == SCHED_RR {
        SchedulePolicy::RoundRobin
    } else if raw == SCHED_BATCH {
        SchedulePolicy::Batch
    } else if raw == SCHED_IDLE {
        SchedulePolicy::Idle
    } else {
        SchedulePolicy::Unknown(raw)
    }
}

/// The kernel's number for `policy`.
pub open spec fn raw_of_policy(policy: SchedulePolicy) -> i32 {
    match policy {
        SchedulePolicy::Other => SCHED_OTHER,
        SchedulePolicy::Fifo => SCHED_FIFO,
        SchedulePolicy::RoundRobin => SCHED_RR,
        SchedulePolicy::Batch => SCHED_BATCH,
        SchedulePolicy::Idle => SCHED_IDLE,
        SchedulePolicy::Unknown(v) => v,
    }
}

/// Whether `policy` is one of the two real-time classes.
pub open spec fn is_realtime_policy(policy: SchedulePolicy) -> bool {
    policy == SchedulePolicy::Fifo || policy == SchedulePolicy::RoundRobin
}

/// The policies that can be chosen, in the order they are offered.
pub open spec fn all_policies() -> Seq<SchedulePolicy> {
    seq![
        SchedulePolicy::Other,
        SchedulePolicy::Batch,
        SchedulePolicy::Idle,
        SchedulePolicy::Fifo,
        SchedulePolicy::RoundRobin,
    ]
}

/// The long name of `policy`.
pub open spec fn display_name_of(policy: SchedulePolicy) -> Seq<char> {
    match policy {
        SchedulePolicy::Other => "SCHED_OTHER (默认)"@,
        SchedulePolicy::Fifo => "SCHED_FIFO (实时先进先出)"@,
        SchedulePolicy::RoundRobin => "SCHED_RR (实时轮转)"@,
        SchedulePolicy::Batch => "SCHED_BATCH (批处理)"@,
        SchedulePolicy::Idle => "SCHED_IDLE (空闲)"@,
        SchedulePolicy::Unknown(_) => "未知"@,
    }
}

/// The short name of `policy`.
pub open spec fn short_name_of(policy: SchedulePolicy) -> Seq<char> {
    match policy {
        SchedulePolicy::Other => "OTHER"@,
        SchedulePolicy::Fifo => "FIFO"@,
        SchedulePolicy::RoundRobin => "RR"@,
        SchedulePolicy::Batch => "BATCH"@,
        SchedulePolicy::Idle => "IDLE"@,
        SchedulePolicy::Unknown(_) => "???"@,
    }
}

impl SchedulePolicy {
    /// Maps the kernel's number of a scheduling class to the policy. A number
    /// that stands for no modelled class is kept in `Unknown`.
    pub fn from_raw(policy: i32) -> (p: SchedulePolicy)
        ensures
            p == policy_of_raw(policy),
    {
        if policy == SCHED_OTHER {
            SchedulePolicy::Other
        } else if policy == SCHED_FIFO {
            SchedulePolicy::Fifo
        } else if policy == SCHED_RR {
            SchedulePolicy::RoundRobin
        } else if policy == SCHED_BATCH {
            SchedulePolicy::Batch
        } else if policy == SCHED_IDLE {
            SchedulePolicy::Idle
        } else {
            SchedulePolicy::Unknown(policy)
        }
    }

    /// The kernel's number for this policy.
    pub fn to_raw(&self) -> (raw: i32)
        ensures
            raw == raw_of_policy(*self),
    {
        match self {
            SchedulePolicy::Other => SCHED_OTHER,
            SchedulePolicy::Fifo => SCHED_FIFO,
            SchedulePolicy::RoundRobin => SCHED_RR,
            SchedulePolicy::Batch => SCHED_BATCH,
            SchedulePolicy::Idle => SCHED_IDLE,
            SchedulePolicy::Unknown(v) => *v,
        }
    }

    /// The long name, for display.
    pub fn display_name(&self) -> (name: &'static str)
        ensures
            name@ == display_name_of(*self),
    {
        match self {
            SchedulePolicy::Other => "SCHED_OTHER (默认)",
            SchedulePolicy::Fifo => "SCHED_FIFO (实时先进先出)",
            SchedulePolicy::RoundRobin => "SCHED_RR (实时轮转)",
            SchedulePolicy::Batch => "SCHED_BATCH (批处理)",
            SchedulePolicy::Idle => "SCHED_IDLE (空闲)",
            SchedulePolicy::Unknown(_) => "未知",
        }
    }

    /// The short name, for display in a table.
    pub fn short_name(&self) -> (name: &'static str)
        ensures
            name@ == short_name_of(*self),
    {
        match self {
            SchedulePolicy::Other => "OTHER",
            SchedulePolicy::Fifo => "FIFO",
            SchedulePolicy::RoundRobin => "RR",
            SchedulePolicy::Batch => "BATCH",
            SchedulePolicy::Idle => "IDLE",
            SchedulePolicy::Unknown(_) => "???",
        }
    }

    /// Tells whether this is a real-time policy: `Fifo` or `RoundRobin`.
    pub fn is_realtime(&self) -> (b: bool)
        ensures
            b == is_realtime_policy(*self),
    {
        match self {
            SchedulePolicy::Fifo => true,
            SchedulePolicy::RoundRobin => true,
            _ => false,
        }
    }

    /// The policies that can be chosen.
    pub fn all() -> (policies: &'static [SchedulePolicy])
        ensures
            policies@ == all_policies(),
    {
        &[
            SchedulePolicy::Other,
            SchedulePolicy::Batch,
            SchedulePolicy::Idle,
            SchedulePolicy::Fifo,
            SchedulePolicy::RoundRobin,
        ]
    }
}

/// Every policy that can be chosen comes back unchanged from its kernel
/// number, and a number that stands for no modelled class is kept exactly by
/// `Unknown`. Every number at all comes back unchanged from its policy.
pub proof fn lemma_policy_round_trip(policy: SchedulePolicy, raw: i32)
    ensures
        all_policies().contains(policy) ==> policy_of_raw(raw_of_policy(policy)) == policy,
        raw != SCHED_OTHER && raw != SCHED_FIFO && raw != SCHED_RR && raw != SCHED_BATCH && raw
            != SCHED_IDLE ==> policy_of_raw(raw) == SchedulePolicy::Unknown(raw),
        raw_of_policy(policy_of_raw(raw)) == raw,
{
}

// ---------------------------------------------------------------------------
// Reading the scheduling state.
// ---------------------------------------------------------------------------

/// The niceness in the text of `/proc/<pid>/stat`: its 19th field read as a
/// signed number, 0 where the text is missing, too short or no number.
pub open spec fn nice_of(stat: Option<String>) -> i32 {
    match stat {
        Some(content) => match nth_field(content@, STAT_NICE_FIELD as nat) {
            Some(field) => match parse_signed(field, i32::MIN as int, i32::MAX as int) {
                Some(n) => n as i32,
                None => 0,
            },
            None => 0,
        },
        None => 0,
    }
}

/// Policy and priority that are reported for a process.
pub open spec fn scheduler_info_of(policy: Option<i32>, stat: Option<String>) -> (
    SchedulePolicy,
    i32,
) {
    match policy {
        Some(raw) => if raw < 0 {
            (SchedulePolicy::Unknown(-1i32), 0)
        } else {
            (policy_of_raw(raw), nice_of(stat))
        },
        None => (SchedulePolicy::Other, 0),
    }
}

/// Bounds of the real-time priority that are reported for a policy.
pub open spec fn rt_priority_range_of(policy: SchedulePolicy, os_range: Option<(i32, i32)>) -> (
    i32,
    i32,
) {
    match os_range {
        Some(range) => if is_realtime_policy(policy) {
            range
        } else {
            (0, 0)
        },
        None => (1, 99),
    }
}

/// Reads the niceness of a process from the text of its `/proc/<pid>/stat`,
/// where it is the 19th whitespace-separated field. The answer is 0 where
/// the file could not be read, has fewer fields, or holds no number there.
pub fn get_process_nice(stat: &Option<String>) -> (nice: i32)
    ensures
        nice == nice_of(*stat),
{
    match stat {
        Some(content) => {
            let v = to_chars(content.as_str());
            match field_range(&v, STAT_NICE_FIELD) {
                Some((a, b)) => match parse_i32_range(&v, a, b) {
                    Some(n) => n,
                    None => 0,
                },
                None => 0,
            }
        },
        None => 0,
    }
}

/// Reports policy and priority of a process from what the kernel answered.
/// `policy` is the scheduling class that the kernel returned for the process,
/// negative where the query failed, and `None` on a platform without that
/// query. A failed query yields `(Unknown(-1), 0)`, which tells it apart from
/// a process that runs under `Other`; a platform without the query yields
/// `(Other, 0)`. Otherwise the priority is the niceness found in `stat`, the
/// text of `/proc/<pid>/stat`.
pub fn get_scheduler_info(policy: Option<i32>, stat: &Option<String>) -> (info: (
    SchedulePolicy,
    i32,
))
    ensures
        info == scheduler_info_of(policy, *stat),
{
    match policy {
        Some(raw) => {
            if raw < 0 {
                (SchedulePolicy::Unknown(-1), 0)
            } else {
                (SchedulePolicy::from_raw(raw), get_process_nice(stat))
            }
        },
        None => (SchedulePolicy::Other, 0),
    }
}

/// Reports the bounds `(min, max)` of the real-time priority under `policy`.
/// `os_range` holds the bounds that the kernel gives for the policy's class,
/// and is `None` on a platform without that query. A real-time policy has the
/// kernel's bounds, any other policy `(0, 0)`; a platform without the query
/// has `(1, 99)`.
pub fn get_rt_priority_range(policy: SchedulePolicy, os_range: Option<(i32, i32)>) -> (range: (
    i32,
    i32,
))
    ensures
        range == rt_priority_range_of(policy, os_range),
{
    match os_range {
        Some(r) => {
            if policy.is_realtime() {
                r
            } else {
                (0, 0)
            }
        },
        None => (1, 99),
    }
}

// ---------------------------------------------------------------------------
// Kernel calls and their outcome.
// ---------------------------------------------------------------------------

/// A call that changes the scheduling state of a process.
#[derive(Clone, Debug)]
pub enum SysCall {
    /// `sched_setscheduler(pid, policy, { sched_priority: priority })`
    SetScheduler { pid: i32, policy: i32, priority: i32 },
    /// `setpriority(PRIO_PROCESS, pid, nice)`
    SetNice { pid: i32, nice: i32 },
    /// `sched_setaffinity(pid, mask)`
    SetAffinity { pid: i32, mask: CpuMask },
}

/// Mathematical content of a [`SysCall`].
pub enum SysCallModel {
    SetScheduler { pid: i32, policy: i32, priority: i32 },
    SetNice { pid: i32, nice: i32 },
    SetAffinity { pid: i32, cpus: Set<usize> },
}

impl View for SysCall {
    type V = SysCallModel;

    open spec fn view(&self) -> SysCallModel {
        match *self {
            SysCall::SetScheduler { pid, policy, priority } => SysCallModel::SetScheduler {
                pid,
                policy,
                priority,
            },
            SysCall::SetNice { pid, nice } => SysCallModel::SetNice { pid, nice },
            SysCall::SetAffinity { pid, mask } => SysCallModel::SetAffinity { pid, cpus: mask@ },
        }
    }
}

/// What came of performing a [`SysCall`].
#[derive(Clone, Debug)]
pub enum SysReply {
    /// The kernel accepted the call.
    Done,
    /// The kernel refused the call; the text is the error of the operating
    /// system.
    Failed(String),
    /// The platform has no such call.
    Unsupported,
}

/// Mathematical content of a [`SysReply`].
pub enum SysReplyModel {
    Done,
    Failed(Seq<char>),
    Unsupported,
}

impl View for SysReply {
    type V = SysReplyModel;

    open spec fn view(&self) -> SysReplyModel {
        match *self {
            SysReply::Done => SysReplyModel::Done,
            SysReply::Failed(e) => SysReplyModel::Failed(e@),
            SysReply::Unsupported => SysReplyModel::Unsupported,
        }
    }
}

/// The message that reports that the kernel refused `call` with the error
/// text `error`. Calls that commonly need elevated privilege carry a hint.
pub open spec fn refusal_message(call: SysCallModel, error: Seq<char>) -> Seq<char> {
    match call {
        SysCallModel::SetScheduler { .. } => "设置调度策略失败: "@ + error
            + " (可能需要 root 权限或 CAP_SYS_NICE)"@,
        SysCallModel::SetNice { .. } => "设置 nice 值失败: "@ + error,
        SysCallModel::SetAffinity { .. } => "设置亲和性失败: "@ + error + " (可能需要 root 权限)"@,
    }
}

/// The message that reports that the platform cannot perform `call`.
pub open spec fn unsupported_message(call: SysCallModel) -> Seq<char> {
    match call {
        SysCallModel::SetScheduler { .. } => "调度策略设置仅支持 Linux"@,
        SysCallModel::SetNice { .. } => "nice 值设置仅支持 Linux"@,
        SysCallModel::SetAffinity { .. } => "CPU 亲和性设置仅支持 Linux"@,
    }
}

/// The error of `call` under `reply`; `None` where the call succeeded.
pub open spec fn failure_of(call: SysCallModel, reply: SysReplyModel) -> Option<Seq<char>> {
    match reply {
        SysReplyModel::Done => None,
        SysReplyModel::Failed(error) => Some(refusal_message(call, error)),
        SysReplyModel::Unsupported => Some(unsupported_message(call)),
    }
}

/// The priority that is handed to the kernel with `policy`: the requested
/// one under a real-time policy, and 0 under any other, for which the kernel
/// accepts nothing else.
pub open spec fn effective_priority(policy: SchedulePolicy, priority: i32) -> i32 {
    if is_realtime_policy(policy) {
        priority
    } else {
        0
    }
}

impl SysCall {
    /// Turns the reply to this call into the result for the caller: `Ok`
    /// where the kernel accepted the call, else the error message, which
    /// names the step and holds the error text of the operating system.
    pub fn outcome(&self, reply: &SysReply) -> (r: Result<(), String>)
        ensures
            r.is_ok() == failure_of(self@, reply@).is_none(),
            r.is_err() ==> r.unwrap_err()@ == failure_of(self@, reply@).unwrap(),
    {
        match reply {
            SysReply::Done => Ok(()),
            SysReply::Failed(error) => {
                let mut message: String;
                match self {
                    SysCall::SetScheduler { .. } => {
                        message = String::from_str("设置调度策略失败: ");
                        message.append(error.as_str());
                        message.append(" (可能需要 root 权限或 CAP_SYS_NICE)");
                    },
                    SysCall::SetNice { .. } => {
                        message = String::from_str("设置 nice 值失败: ");
                        message.append(error.as_str());
                    },
                    SysCall::SetAffinity { .. } => {
                        message = String::from_str("设置亲和性失败: ");
                        message.append(error.as_str());
                        message.append(" (可能需要 root 权限)");
                    },
                }
                Err(message)
            },
            SysReply::Unsupported => {
                let message = match self {
                    SysCall::SetScheduler { .. } => String::from_str("调度策略设置仅支持 Linux"),
                    SysCall::SetNice { .. } => String::from_str("nice 值设置仅支持 Linux"),
                    SysCall::SetAffinity { .. } => String::from_str("CPU 亲和性设置仅支持 Linux"),
                };
                Err(message)
            },
        }
    }
}

/// The call that puts process `pid` under `policy`. The priority is handed
/// on only with a real-time policy and is 0 otherwise.
pub fn set_scheduler(pid: i32, policy: SchedulePolicy, priority: i32) -> (call: SysCall)
    ensures
        call@ == (SysCallModel::SetScheduler {
            pid,
            policy: raw_of_policy(policy),
            priority: effective_priority(policy, priority),
        }),
{
    SysCall::SetScheduler {
        pid,
        policy: policy.to_raw(),
        priority: if policy.is_realtime() {
            priority
        } else {
            0
        },
    }
}

/// The call that sets the niceness of process `pid`. The value is handed on
/// as it is; one outside the range that the kernel accepts comes back as a
/// refusal.
pub fn set_process_nice(pid: i32, nice: i32) -> (call: SysCall)
    ensures
        call@ == (SysCallModel::SetNice { pid, nice }),
{
    SysCall::SetNice { pid, nice }
}

/// The call that restricts process `pid` to `cores`. An empty list is handed
/// on as it is; to reject it is the caller's part.
pub fn set_process_affinity(pid: i32, cores: &[usize]) -> (call: SysCall)
    requires
        maskable(cores@),
    ensures
        call@ == (SysCallModel::SetAffinity { pid, cpus: cores@.to_set() }),
{
    SysCall::SetAffinity { pid, mask: CpuMask::from_cores(cores) }
}

// ---------------------------------------------------------------------------
// Presets.
// ---------------------------------------------------------------------------

/// A named bundle of policy, priority and affinity.
#[derive(Clone, Debug)]
pub struct SchedulePreset {
    pub name: String,
    pub description: String,
    pub policy: SchedulePolicy,
    /// Real-time priority under a real-time policy, niceness otherwise.
    pub priority: i32,
    /// The CPUs to bind to; `None` leaves the affinity as it is.
    pub affinity_cores: Option<Vec<usize>>,
}

/// Mathematical content of a [`SchedulePreset`].
pub struct PresetModel {
    pub name: Seq<char>,
    pub description: Seq<char>,
    pub policy: SchedulePolicy,
    pub priority: i32,
    pub affinity_cores: Option<Seq<usize>>,
}

impl View for SchedulePreset {
    type V = PresetModel;

    open spec fn view(&self) -> PresetModel {
        PresetModel {
            name: self.name@,
            description: self.description@,
            policy: self.policy,
            priority: self.priority,
            affinity_cores: match self.affinity_cores {
                Some(cores) => Some(cores@),
                None => None,
            },
        }
    }
}

/// The contents of a list of presets.
pub open spec fn preset_models(presets: Seq<SchedulePreset>) -> Seq<PresetModel> {
    presets.map_values(|p: SchedulePreset| p@)
}

/// The CPUs below `all_cores` that `cores` does not hold, in ascending order.
pub open spec fn complement_of(cores: Seq<usize>, all_cores: nat) -> Seq<usize> {
    Seq::new(all_cores, |i: int| i as usize).filter(|cpu: usize| !cores.contains(cpu))
}

/// The four presets that every host has.
pub open spec fn fixed_presets() -> Seq<PresetModel> {
    seq![
        PresetModel {
            name: "默认"@,
            description: "使用系统默认调度"@,
            policy: SchedulePolicy::Other,
            priority: 0,
            affinity_cores: None,
        },
        PresetModel {
            name: "高优先级"@,
            description: "较低的 nice 值，获得更多 CPU 时间"@,
            policy: SchedulePolicy::Other,
            priority: -10i32,
            affinity_cores: None,
        },
        PresetModel {
            name: "后台任务"@,
            description: "低优先级，仅在空闲时运行"@,
            policy: SchedulePolicy::Idle,
            priority: 0,
            affinity_cores: None,
        },
        PresetModel {
            name: "实时 (FIFO)"@,
            description: "实时调度，最高优先级"@,
            policy: SchedulePolicy::Fifo,
            priority: 50,
            affinity_cores: None,
        },
    ]
}

/// The preset that binds to the V-Cache cores.
pub open spec fn cache_preset(vcache_cores: Seq<usize>) -> PresetModel {
    PresetModel {
        name: "游戏模式 (V-Cache)"@,
        description: "绑定到 3D V-Cache 核心"@,
        policy: SchedulePolicy::Other,
        priority: -5i32,
        affinity_cores: Some(vcache_cores),
    }
}

/// The preset that binds to the cores without V-Cache.
pub open spec fn non_cache_preset(other_cores: Seq<usize>) -> PresetModel {
    PresetModel {
        name: "渲染/编译模式"@,
        description: "绑定到非 V-Cache 核心"@,
        policy: SchedulePolicy::Other,
        priority: 0,
        affinity_cores: Some(other_cores),
    }
}

/// The presets of a host with `all_cores` CPUs of which `vcache_cores` have
/// V-Cache: the fixed four; where there are V-Cache cores, the preset that
/// binds to them; and where some cores are left besides, the preset that
/// binds to those.
pub open spec fn builtin_presets_of(vcache_cores: Seq<usize>, all_cores: nat) -> Seq<PresetModel> {
    let others = complement_of(vcache_cores, all_cores);
    if vcache_cores.len() == 0 {
        fixed_presets()
    } else if others.len() == 0 {
        fixed_presets().push(cache_preset(vcache_cores))
    } else {
        fixed_presets().push(cache_preset(vcache_cores)).push(non_cache_preset(others))
    }
}

/// Tells whether `list` holds `x`.
fn slice_contains(list: &[usize], x: usize) -> (b: bool)
    ensures
        b == list@.contains(x),
{
    let mut i: usize = 0;
    while i < list.len()
        invariant
            i <= list@.len(),
            forall|k: int| 0 <= k < i ==> list@[k] != x,
        decreases list.len() - i,
    {
        if list[i] == x {
            return true;
        }
        i += 1;
    }
    false
}

/// Lists the CPUs below `all_cores` that `cores` does not hold.
pub fn complement(cores: &[usize], all_cores: usize) -> (others: Vec<usize>)
    ensures
        others@ == complement_of(cores@, all_cores as nat),
{
    let ghost all = Seq::new(all_cores as nat, |i: int| i as usize);
    let ghost pred = |cpu: usize| !cores@.contains(cpu);
    let mut others: Vec<usize> = Vec::new();
    let mut i: usize = 0;
    proof {
        assert(all.subrange(0, 0).filter(pred) =~= Seq::<usize>::empty()) by {
            reveal(Seq::filter);
        }
    }
    while i < all_cores
        invariant
            i <= all_cores,
            all == Seq::new(all_cores as nat, |i: int| i as usize),
            pred == |cpu: usize| !cores@.contains(cpu),
            others@ == all.subrange(0, i as int).filter(pred),
        decreases all_cores - i,
    {
        proof {
            all.subrange(0, i as int).lemma_filter_push(i, pred);
            assert(all.subrange(0, i as int).push(i) == all.subrange(0, i + 1));
        }
        if !slice_contains(cores, i) {
            others.push(i);
        }
        i += 1;
    }
    proof {
        assert(all.subrange(0, all_cores as int) == all);
    }
    others
}

/// Builds a preset from its parts.
fn preset(
    name: &str,
    description: &str,
    policy: SchedulePolicy,
    priority: i32,
    affinity_cores: Option<Vec<usize>>,
) -> (p: SchedulePreset)
    ensures
        p@ == (PresetModel {
            name: name@,
            description: description@,
            policy,
            priority,
            affinity_cores: match affinity_cores {
                Some(cores) => Some(cores@),
                None => None,
            },
        }),
{
    SchedulePreset {
        name: String::from_str(name),
        description: String::from_str(description),
        policy,
        priority,
        affinity_cores,
    }
}

impl SchedulePreset {
    /// The presets that are offered on a host with `all_cores` logical CPUs
    /// of which `vcache_cores` sit on a V-Cache domain: default, high
    /// priority, background and real-time FIFO; with V-Cache cores, a preset
    /// bound to them; and with other cores besides, a preset bound to those.
    pub fn builtin_presets(vcache_cores: &[usize], all_cores: usize) -> (presets: Vec<
        SchedulePreset,
    >)
        ensures
            preset_models(presets@) == builtin_presets_of(vcache_cores@, all_cores as nat),
    {
        let mut presets: Vec<SchedulePreset> = Vec::new();
        presets.push(preset("默认", "使用系统默认调度", SchedulePolicy::Other, 0, None));
        presets.push(
            preset("高优先级", "较低的 nice 值，获得更多 CPU 时间", SchedulePolicy::Other, -10, None),
        );
        presets.push(preset("后台任务", "低优先级，仅在空闲时运行", SchedulePolicy::Idle, 0, None));
        presets.push(preset("实时 (FIFO)", "实时调度，最高优先级", SchedulePolicy::Fifo, 50, None));
        if vcache_cores.len() > 0 {
            presets.push(
                preset(
                    "游戏模式 (V-Cache)",
                    "绑定到 3D V-Cache 核心",
                    SchedulePolicy::Other,
                    -5,
                    Some(slice_to_vec(vcache_cores)),
                ),
            );
            let others = complement(vcache_cores, all_cores);
            if others.len() > 0 {
                presets.push(
                    preset("渲染/编译模式", "绑定到非 V-Cache 核心", SchedulePolicy::Other, 0, Some(others)),
                );
            }
        }
        presets
    }
}

// ---------------------------------------------------------------------------
// Carrying out a sequence of calls.
// ---------------------------------------------------------------------------

/// The contents of a list of calls.
pub open spec fn call_models(calls: Seq<SysCall>) -> Seq<SysCallModel> {
    calls.map_values(|c: SysCall| c@)
}

/// The calls that put process `pid` under `policy` with `priority`: the
/// change of policy, followed under a policy that is not real-time by the
/// change of niceness, unless that is 0.
pub open spec fn scheduler_calls_of(pid: i32, policy: SchedulePolicy, priority: i32) -> Seq<
    SysCallModel,
> {
    let first = seq![
        SysCallModel::SetScheduler {
            pid,
            policy: raw_of_policy(policy),
            priority: effective_priority(policy, priority),
        },
    ];
    if !is_realtime_policy(policy) && priority != 0 {
        first.push(SysCallModel::SetNice { pid, nice: priority })
    } else {
        first
    }
}

/// The calls that apply `preset` to process `pid`: policy and priority as in
/// `scheduler_calls_of`, followed by the change of affinity where the preset
/// names cores.
pub open spec fn preset_calls_of(pid: i32, preset: PresetModel) -> Seq<SysCallModel> {
    let base = scheduler_calls_of(pid, preset.policy, preset.priority);
    match preset.affinity_cores {
        Some(cores) => base.push(SysCallModel::SetAffinity { pid, cpus: cores.to_set() }),
        None => base,
    }
}

/// State of a sequence of calls that is carried out in order and stops at
/// the first call that fails.
pub struct RunModel {
    /// The calls to make, in order.
    pub calls: Seq<SysCallModel>,
    /// Number of calls that were made and accepted.
    pub completed: nat,
    /// The error of the call that failed.
    pub failure: Option<Seq<char>>,
}

impl RunModel {
    /// A run of `calls` of which none has been made.
    pub open spec fn start(calls: Seq<SysCallModel>) -> RunModel {
        RunModel { calls, completed: 0, failure: None }
    }

    /// Whether no call is left to make: all were accepted, or one failed.
    pub open spec fn is_finished(self) -> bool {
        self.failure is Some || self.completed >= self.calls.len()
    }

    /// The call to make next.
    pub open spec fn next_call(self) -> Option<SysCallModel> {
        if self.is_finished() {
            None
        } else {
            Some(self.calls[self.completed as int])
        }
    }

    /// The state after the reply to the next call. A failure is kept and
    /// ends the run; the calls that were accepted before stay counted. A
    /// finished run takes no reply.
    pub open spec fn record(self, reply: SysReplyModel) -> RunModel {
        if self.is_finished() {
            self
        } else {
            match failure_of(self.calls[self.completed as int], reply) {
                None => RunModel { completed: self.completed + 1, ..self },
                Some(error) => RunModel { failure: Some(error), ..self },
            }
        }
    }

    /// The state after a sequence of replies.
    pub open spec fn record_all(self, replies: Seq<SysReplyModel>) -> RunModel
        decreases replies.len(),
    {
        if replies.len() == 0 {
            self
        } else {
            self.record_all(replies.drop_last()).record(replies.last())
        }
    }
}

/// A sequence of kernel calls in the course of being carried out.
#[derive(Clone, Debug)]
pub struct ControlRun {
    calls: Vec<SysCall>,
    completed: usize,
    failure: Option<String>,
}

impl View for ControlRun {
    type V = RunModel;

    closed spec fn view(&self) -> RunModel {
        RunModel {
            calls: call_models(self.calls@),
            completed: self.completed as nat,
            failure: match self.failure {
                Some(error) => Some(error@),
                None => None,
            },
        }
    }
}

impl ControlRun {
    /// Starts a run of `calls`.
    pub fn new(calls: Vec<SysCall>) -> (run: ControlRun)
        ensures
            run@ == RunModel::start(call_models(calls@)),
    {
        ControlRun { calls, completed: 0, failure: None }
    }

    /// Tells whether the run is over.
    pub fn is_finished(&self) -> (b: bool)
        ensures
            b == self@.is_finished(),
    {
        self.failure.is_some() || self.completed >= self.calls.len()
    }

    /// The call to make next; `None` once the run is over.
    pub fn next_call(&self) -> (call: Option<&SysCall>)
        ensures
            call.is_some() == self@.next_call().is_some(),
            call.is_some() ==> call.unwrap()@ == self@.next_call().unwrap(),
    {
        if self.is_finished() {
            None
        } else {
            Some(&self.calls[self.completed])
        }
    }

    /// Takes the reply to the call that `next_call` gave. An accepted call
    /// is counted; a failed one ends the run with its error, and the calls
    /// that were accepted before stay as they are.
    pub fn record(&mut self, reply: &SysReply)
        ensures
            final(self)@ == old(self)@.record(reply@),
    {
        if self.failure.is_none() && self.completed < self.calls.len() {
            match self.calls[self.completed].outcome(reply) {
                Ok(_) => {
                    self.completed = self.completed + 1;
                },
                Err(error) => {
                    self.failure = Some(error);
                },
            }
        }
    }

    /// Number of calls that were made and accepted.
    pub fn completed(&self) -> (n: usize)
        ensures
            n == self@.completed,
    {
        self.completed
    }

    /// Tells whether every call was made and accepted.
    pub fn succeeded(&self) -> (b: bool)
        ensures
            b == (self@.failure is None && self@.completed >= self@.calls.len()),
    {
        self.failure.is_none() && self.completed >= self.calls.len()
    }

    /// The error of the call that failed.
    pub fn failure(&self) -> (error: Option<&String>)
        ensures
            error.is_some() == self@.failure.is_some(),
            error.is_some() ==> error.unwrap()@ == self@.failure.unwrap(),
    {
        match &self.failure {
            Some(e) => Some(e),
            None => None,
        }
    }

    /// The call that failed.
    pub fn failed_call(&self) -> (call: Option<&SysCall>)
        ensures
            call.is_some() == (self@.failure is Some && self@.completed < self@.calls.len()),
            call.is_some() ==> call.unwrap()@ == self@.calls[self@.completed as int],
    {
        if self.failure.is_some() && self.completed < self.calls.len() {
            Some(&self.calls[self.completed])
        } else {
            None
        }
    }
}

/// Lists the calls that put process `pid` under `policy` with `priority`.
pub fn scheduler_calls(pid: i32, policy: SchedulePolicy, priority: i32) -> (calls: Vec<SysCall>)
    ensures
        call_models(calls@) == scheduler_calls_of(pid, policy, priority),
{
    let mut calls: Vec<SysCall> = Vec::new();
    calls.push(set_scheduler(pid, policy, priority));
    if !policy.is_realtime() && priority != 0 {
        calls.push(set_process_nice(pid, priority));
    }
    calls
}

/// Lists the calls that apply `preset` to process `pid`, in the order in
/// which they are to be made: policy, niceness, affinity.
pub fn preset_calls(pid: i32, preset: &SchedulePreset) -> (calls: Vec<SysCall>)
    requires
        preset.affinity_cores matches Some(cores) ==> maskable(cores@),
    ensures
        call_models(calls@) == preset_calls_of(pid, preset@),
{
    let mut calls = scheduler_calls(pid, preset.policy, preset.priority);
    match &preset.affinity_cores {
        Some(cores) => {
            calls.push(set_process_affinity(pid, cores.as_slice()));
        },
        None => {},
    }
    calls
}

// ---------------------------------------------------------------------------
// A run stops at the first failure and undoes nothing.
// ---------------------------------------------------------------------------

/// A run that is over stays as it is, whatever replies follow.
pub proof fn lemma_finished_run_stays(run: RunModel, later: Seq<SysReplyModel>)
    requires
        run.is_finished(),
    ensures
        run.record_all(later) == run,
    decreases later.len(),
{
    if later.len() > 0 {
        lemma_finished_run_stays(run, later.drop_last());
    }
}

/// When a call fails, the run ends there: the error is that of the failed
/// call, the calls accepted before it stay counted as made, the list of
/// calls is unchanged, no further call is asked for, and later replies
/// change nothing.
pub proof fn lemma_failure_stops_run(run: RunModel, reply: SysReplyModel, later: Seq<SysReplyModel>)
    requires
        !run.is_finished(),
        failure_of(run.calls[run.completed as int], reply) is Some,
    ensures
        run.record(reply).failure == failure_of(run.calls[run.completed as int], reply),
        run.record(reply).completed == run.completed,
        run.record(reply).calls == run.calls,
        run.record(reply).next_call() is None,
        run.record(reply).record_all(later) == run.record(reply),
{
    lemma_finished_run_stays(run.record(reply), later);
}

/// While every call is accepted, the run advances by one call per reply.
pub proof fn lemma_accepted_calls(calls: Seq<SysCallModel>, k: nat)
    requires
        k <= calls.len(),
    ensures
        RunModel::start(calls).record_all(Seq::new(k, |i: int| SysReplyModel::Done)) == (RunModel {
            calls,
            completed: k,
            failure: None,
        }),
    decreases k,
{
    let replies = Seq::new(k, |i: int| SysReplyModel::Done);
    if k > 0 {
        lemma_accepted_calls(calls, (k - 1) as nat);
        assert(replies.drop_last() == Seq::new((k - 1) as nat, |i: int| SysReplyModel::Done));
    }
}

/// Applying a preset that names cores: when policy and niceness are accepted
/// and the kernel refuses the change of affinity, the run ends with the
/// error of the affinity step, the steps before it stay applied, and no
/// further call is made.
pub proof fn lemma_preset_affinity_failure(
    pid: i32,
    preset: PresetModel,
    error: Seq<char>,
    later: Seq<SysReplyModel>,
)
    requires
        preset.affinity_cores is Some,
    ensures
        ({
            let calls = preset_calls_of(pid, preset);
            let affinity = SysCallModel::SetAffinity {
                pid,
                cpus: preset.affinity_cores.unwrap().to_set(),
            };
            let accepted = Seq::new((calls.len() - 1) as nat, |i: int| SysReplyModel::Done);
            let end = RunModel::start(calls).record_all(
                accepted.push(SysReplyModel::Failed(error)),
            );
            &&& calls.last() == affinity
            &&& calls.drop_last() == scheduler_calls_of(pid, preset.policy, preset.priority)
            &&& end.failure == Some(refusal_message(affinity, error))
            &&& end.completed == calls.len() - 1
            &&& end.calls == calls
            &&& end.next_call() is None
            &&& end.record_all(later) == end
        }),
{
    let calls = preset_calls_of(pid, preset);
    let n = (calls.len() - 1) as nat;
    let accepted = Seq::new(n, |i: int| SysReplyModel::Done);
    let replies = accepted.push(SysReplyModel::Failed(error));
    lemma_accepted_calls(calls, n);
    assert(replies.drop_last() == accepted);
    let before = RunModel::start(calls).record_all(accepted);
    lemma_failure_stops_run(before, SysReplyModel::Failed(error), later);
}

} // verus!
