//! Processes: the record kept of each one, and the list of them with its
//! filter and sort order.
use crate::affinity::{affinity_of, get_process_affinity, CpuMask};
use crate::scheduler::{get_scheduler_info, scheduler_info_of, SchedulePolicy};
use crate::text::{
    contains_chars, contains_seq, decimal, decimal_string, lex_le, push_decimal, to_chars,
};
use vstd::prelude::*;
use vstd::utf8::encode_utf8;

verus! {

pub const KB: u64 = 1024;

pub const MB: u64 = 1024 * 1024;

pub const GB: u64 = 1024 * 1024 * 1024;

/// What is known of a running process.
#[derive(Clone, Debug)]
pub struct ProcessInfo {
    pub pid: u32,
    pub name: String,
    /// The command line, joined with single spaces.
    pub cmd: String,
    /// CPU usage in hundredths of a percent.
    pub cpu_usage_centipercent: u32,
    /// Memory in bytes.
    pub memory: u64,
    /// State of the process, as text.
    pub status: String,
    /// The logical CPUs that the process may run on.
    pub affinity: Vec<usize>,
    pub sched_policy: SchedulePolicy,
    /// Niceness.
    pub priority: i32,
}

/// Mathematical content of a [`ProcessInfo`].
pub struct ProcessModel {
    pub pid: u32,
    pub name: Seq<char>,
    pub cmd: Seq<char>,
    pub cpu_usage_centipercent: u32,
    pub memory: u64,
    pub status: Seq<char>,
    pub affinity: Seq<usize>,
    pub sched_policy: SchedulePolicy,
    pub priority: i32,
}

impl View for ProcessInfo {
    type V = ProcessModel;

    open spec fn view(&self) -> ProcessModel {
        ProcessModel {
            pid: self.pid,
            name: self.name@,
            cmd: self.cmd@,
            cpu_usage_centipercent: self.cpu_usage_centipercent,
            memory: self.memory,
            status: self.status@,
            affinity: self.affinity@,
            sched_policy: self.sched_policy,
            priority: self.priority,
        }
    }
}

/// What was sampled of one live process: the figures of the process table,
/// and the kernel's answers about its scheduling.
#[derive(Clone, Debug)]
pub struct ProcessSample {
    pub name: String,
    /// The words of the command line.
    pub cmd: Vec<String>,
    /// CPU usage in hundredths of a percent.
    pub cpu_usage_centipercent: u32,
    /// Memory in bytes.
    pub memory: u64,
    /// State of the process, as text.
    pub status: String,
    /// The affinity mask; `None` where it could not be read.
    pub affinity_mask: Option<CpuMask>,
    /// The scheduling class that the kernel returned, negative where the
    /// query failed; `None` on a platform without that query.
    pub policy: Option<i32>,
    /// Text of `/proc/<pid>/stat`; `None` where it could not be read.
    pub stat: Option<String>,
}

/// The words joined with single spaces.
pub open spec fn join_words(words: Seq<String>) -> Seq<char>
    decreases words.len(),
{
    if words.len() == 0 {
        Seq::empty()
    } else if words.len() == 1 {
        words[0]@
    } else {
        join_words(words.drop_last()) + seq![' '] + words.last()@
    }
}

/// The command line that is recorded for a process: its words joined with
/// single spaces, and the name of the process where that is empty.
pub open spec fn command_of(sample: ProcessSample) -> Seq<char> {
    if join_words(sample.cmd@).len() == 0 {
        sample.name@
    } else {
        join_words(sample.cmd@)
    }
}

/// The record that is made of process `pid` from a sample.
pub open spec fn process_of(pid: u32, sample: ProcessSample, logical_cores: nat) -> ProcessModel {
    ProcessModel {
        pid,
        name: sample.name@,
        cmd: command_of(sample),
        cpu_usage_centipercent: sample.cpu_usage_centipercent,
        memory: sample.memory,
        status: sample.status@,
        affinity: affinity_of(
            match sample.affinity_mask {
                Some(m) => Some(m@),
                None => None,
            },
            logical_cores,
        ),
        sched_policy: scheduler_info_of(sample.policy, sample.stat).0,
        priority: scheduler_info_of(sample.policy, sample.stat).1,
    }
}

/// Joins `words` with single spaces.
pub fn join_with_spaces(words: &Vec<String>) -> (line: String)
    ensures
        line@ == join_words(words@),
{
    let mut line = String::new();
    let mut i: usize = 0;
    while i < words.len()
        invariant
            i <= words@.len(),
            line@ == join_words(words@.subrange(0, i as int)),
        decreases words.len() - i,
    {
        let ghost before = words@.subrange(0, i as int);
        let ghost after = words@.subrange(0, i + 1);
        proof {
            assert(after.drop_last() == before);
            reveal_strlit(" ");
        }
        if i > 0 {
            line.append(" ");
        }
        line.append(words[i].as_str());
        i += 1;
    }
    proof {
        assert(words@.subrange(0, i as int) == words@);
    }
    line
}

impl ProcessInfo {
    /// Makes the record of process `pid` from a fresh sample. The command
    /// line is joined with single spaces and falls back to the name; a mask
    /// that could not be read gives full affinity; policy and priority come
    /// from the kernel's answers as `get_scheduler_info` reads them.
    pub fn from_process(pid: u32, sample: &ProcessSample, logical_cores: usize) -> (info:
        ProcessInfo)
        ensures
            info@ == process_of(pid, *sample, logical_cores as nat),
    {
        let joined = join_with_spaces(&sample.cmd);
        let cmd = if joined.as_str().unicode_len() == 0 {
            sample.name.clone()
        } else {
            joined
        };
        let affinity = get_process_affinity(sample.affinity_mask.as_ref(), logical_cores);
        let (sched_policy, priority) = get_scheduler_info(sample.policy, &sample.stat);
        ProcessInfo {
            pid,
            name: sample.name.clone(),
            cmd,
            cpu_usage_centipercent: sample.cpu_usage_centipercent,
            memory: sample.memory,
            status: sample.status.clone(),
            affinity,
            sched_policy,
            priority,
        }
    }

    /// Refreshes the record from a new sample of the same process: usage,
    /// memory, state, affinity, policy and priority are replaced; pid, name
    /// and command line stay.
    pub fn update(&mut self, sample: &ProcessSample, logical_cores: usize)
        ensures
            final(self)@ == (ProcessModel {
                pid: old(self)@.pid,
                name: old(self)@.name,
                cmd: old(self)@.cmd,
                ..process_of(old(self).pid, *sample, logical_cores as nat)
            }),
    {
        self.cpu_usage_centipercent = sample.cpu_usage_centipercent;
        self.memory = sample.memory;
        self.status = sample.status.clone();
        self.affinity = get_process_affinity(sample.affinity_mask.as_ref(), logical_cores);
        let (sched_policy, priority) = get_scheduler_info(sample.policy, &sample.stat);
        self.sched_policy = sched_policy;
        self.priority = priority;
    }
}

// ---------------------------------------------------------------------------
// Memory sizes.
// ---------------------------------------------------------------------------

/// `amount / unit` in tenths, rounded to the nearest tenth, and to the even
/// one where two are equally near.
pub open spec fn rounded_tenths(amount: nat, unit: nat) -> nat {
    let q = amount * 10 / unit;
    let r = amount * 10 % unit;
    if 2 * r > unit || (2 * r == unit && q % 2 == 1) {
        q + 1
    } else {
        q
    }
}

/// A number of tenths written with one decimal place.
pub open spec fn one_decimal(tenths: nat) -> Seq<char> {
    decimal(tenths / 10) + seq!['.'] + decimal(tenths % 10)
}

/// A memory size written in the largest binary unit that it reaches, with
/// one decimal place, and in whole bytes below 1 KB.
pub open spec fn memory_text(bytes: u64) -> Seq<char> {
    if bytes >= GB {
        one_decimal(rounded_tenths(bytes as nat, GB as nat)) + " GB"@
    } else if bytes >= MB {
        one_decimal(rounded_tenths(bytes as nat, MB as nat)) + " MB"@
    } else if bytes >= KB {
        one_decimal(rounded_tenths(bytes as nat, KB as nat)) + " KB"@
    } else {
        decimal(bytes as nat) + " B"@
    }
}

/// Computes `amount / unit` in tenths, rounded half to even.
fn tenths_of(amount: u64, unit: u64) -> (t: u64)
    requires
        KB <= unit <= GB,
    ensures
        t == rounded_tenths(amount as nat, unit as nat),
{
    let scaled: u128 = amount as u128 * 10;
    let q: u128 = scaled / unit as u128;
    let r: u128 = scaled % unit as u128;
    assert(q < u64::MAX) by (nonlinear_arith)
        requires
            q == scaled / unit as u128,
            scaled == amount * 10,
            unit >= 1024,
            amount <= u64::MAX,
    ;
    if 2 * r > unit as u128 || (2 * r == unit as u128 && q % 2 == 1) {
        (q + 1) as u64
    } else {
        q as u64
    }
}

/// Writes a memory size for display: `512 B`, `1.5 KB`, `2.0 MB`, `3.2 GB`.
/// From 1 KB on the size is given in the largest unit that it reaches, with
/// one decimal place, rounded half to even.
pub fn format_memory(bytes: u64) -> (text: String)
    ensures
        text@ == memory_text(bytes),
{
    let mut text = String::new();
    if bytes >= KB {
        let (unit, suffix): (u64, &'static str) = if bytes >= GB {
            (GB, " GB")
        } else if bytes >= MB {
            (MB, " MB")
        } else {
            (KB, " KB")
        };
        let tenths = tenths_of(bytes, unit);
        push_decimal(tenths / 10, &mut text);
        proof {
            reveal_strlit(".");
        }
        text.append(".");
        push_decimal(tenths % 10, &mut text);
        text.append(suffix);
    } else {
        push_decimal(bytes, &mut text);
        text.append(" B");
    }
    text
}

// ---------------------------------------------------------------------------
// Order of the process list.
// ---------------------------------------------------------------------------

/// The figure by which the process list is sorted.
#[derive(Clone, Copy, Debug, PartialEq, Eq, Structural)]
pub enum SortField {
    Pid,
    Name,
    CpuUsage,
    Memory,
}

/// The contents of a list of process records.
pub open spec fn models(processes: Seq<ProcessInfo>) -> Seq<ProcessModel> {
    processes.map_values(|p: ProcessInfo| p@)
}

/// Whether `a` may stand before `b` in ascending order by `field`. Names are
/// ordered as byte strings in UTF-8, numbers by size.
pub open spec fn key_le(field: SortField, a: ProcessModel, b: ProcessModel) -> bool {
    match field {
        SortField::Pid => a.pid <= b.pid,
        SortField::Name => lex_le(encode_utf8(a.name), encode_utf8(b.name)),
        SortField::CpuUsage => a.cpu_usage_centipercent <= b.cpu_usage_centipercent,
        SortField::Memory => a.memory <= b.memory,
    }
}

/// `s`, which is in ascending order, with `x` put behind the last element
/// that may stand before it.
pub open spec fn insert_sorted(s: Seq<ProcessModel>, x: ProcessModel, field: SortField) -> Seq<
    ProcessModel,
>
    decreases s.len(),
{
    if s.len() == 0 {
        seq![x]
    } else if key_le(field, s.last(), x) {
        s.push(x)
    } else {
        insert_sorted(s.drop_last(), x, field).push(s.last())
    }
}

/// `s` in ascending order by `field`, where elements that are equal by
/// `field` keep the order they have in `s`.
pub open spec fn stable_sort(s: Seq<ProcessModel>, field: SortField) -> Seq<ProcessModel>
    decreases s.len(),
{
    if s.len() == 0 {
        s
    } else {
        insert_sorted(stable_sort(s.drop_last(), field), s.last(), field)
    }
}

/// `s` as the process list shows it: sorted by `field`, ascending, and
/// turned end for end where the order is descending.
pub open spec fn arranged(s: Seq<ProcessModel>, field: SortField, descending: bool) -> Seq<
    ProcessModel,
> {
    if descending {
        stable_sort(s, field).reverse()
    } else {
        stable_sort(s, field)
    }
}

/// Field and direction after the field `field` is chosen: choosing the
/// field in use turns the direction round, choosing another one starts it
/// off descending.
pub open spec fn next_sort(by: SortField, descending: bool, field: SortField) -> (SortField, bool) {
    if by == field {
        (by, !descending)
    } else {
        (field, true)
    }
}

/// Where `x` goes when it is put into sorted `s`: behind the element at
/// `pos - 1`, which may stand before it, and in front of the elements from
/// `pos` on, which may not.
pub proof fn lemma_insert_sorted(s: Seq<ProcessModel>, x: ProcessModel, field: SortField, pos: int)
    requires
        0 <= pos <= s.len(),
        forall|k: int| pos <= k < s.len() ==> !key_le(field, #[trigger] s[k], x),
        pos == 0 || key_le(field, s[pos - 1], x),
    ensures
        insert_sorted(s, x, field) == s.insert(pos, x),
    decreases s.len() - pos,
{
    if pos < s.len() {
        lemma_insert_sorted(s.drop_last(), x, field, pos);
    }
}

/// Tells whether byte string `a` is no larger than `b` in lexicographic
/// order.
pub fn bytes_le(a: &[u8], b: &[u8]) -> (r: bool)
    ensures
        r == lex_le(a@, b@),
{
    let mut i: usize = 0;
    proof {
        assert(a@.subrange(0, a@.len() as int) == a@);
        assert(b@.subrange(0, b@.len() as int) == b@);
    }
    loop
        invariant
            i <= a@.len(),
            i <= b@.len(),
            lex_le(a@, b@) == lex_le(
                a@.subrange(i as int, a@.len() as int),
                b@.subrange(i as int, b@.len() as int),
            ),
        decreases a@.len() - i,
    {
        let ghost ra = a@.subrange(i as int, a@.len() as int);
        let ghost rb = b@.subrange(i as int, b@.len() as int);
        if i == a.len() {
            return true;
        }
        if i == b.len() {
            return false;
        }
        proof {
            assert(ra.drop_first() == a@.subrange(i + 1, a@.len() as int));
            assert(rb.drop_first() == b@.subrange(i + 1, b@.len() as int));
        }
        if a[i] != b[i] {
            return a[i] < b[i];
        }
        i += 1;
    }
}

/// Tells whether `a` may stand before `b` in ascending order by `field`.
pub fn process_le(field: SortField, a: &ProcessInfo, b: &ProcessInfo) -> (r: bool)
    ensures
        r == key_le(field, a@, b@),
{
    match field {
        SortField::Pid => a.pid <= b.pid,
        SortField::Name => bytes_le(a.name.as_str().as_bytes(), b.name.as_str().as_bytes()),
        SortField::CpuUsage => a.cpu_usage_centipercent <= b.cpu_usage_centipercent,
        SortField::Memory => a.memory <= b.memory,
    }
}

/// Sorts `list` in ascending order by `field`, keeping the order of records
/// that are equal by `field`.
pub fn sort_processes(list: &mut Vec<ProcessInfo>, field: SortField)
    ensures
        models(final(list)@) == stable_sort(models(old(list)@), field),
{
    let ghost start = models(list@);
    let n: usize = list.len();
    let mut i: usize = 0;
    while i < n
        invariant
            i <= n,
            n == list@.len(),
            n == start.len(),
            models(list@).subrange(0, i as int) == stable_sort(start.subrange(0, i as int), field),
            models(list@).subrange(i as int, n as int) == start.subrange(i as int, n as int),
        decreases n - i,
    {
        let ghost before = models(list@);
        let x = list.remove(i);
        let ghost without = models(list@);
        proof {
            assert(before[i as int] == before.subrange(i as int, n as int)[0]);
        }
        let mut pos: usize = i;
        while pos > 0 && !process_le(field, &list[pos - 1], &x)
            invariant
                pos <= i,
                i < n,
                list@.len() == n - 1,
                without == models(list@),
                forall|k: int| pos <= k < i ==> !key_le(field, #[trigger] without[k], x@),
            decreases pos,
        {
            pos -= 1;
        }
        list.insert(pos, x);
        proof {
            let sorted = before.subrange(0, i as int);
            assert(sorted =~= without.subrange(0, i as int));
            lemma_insert_sorted(sorted, x@, field, pos as int);
            let after = models(list@);
            assert(start.subrange(0, i + 1).drop_last() == start.subrange(0, i as int));
            assert(after.subrange(i + 1, n as int) =~= before.subrange(i as int, n as int).drop_first());
        }
        i += 1;
    }
    proof {
        assert(start.subrange(0, n as int) == start);
    }
}

/// Turns `list` end for end.
pub fn reverse_processes(list: &mut Vec<ProcessInfo>)
    ensures
        final(list)@ == old(list)@.reverse(),
{
    let mut turned: Vec<ProcessInfo> = Vec::new();
    let ghost start = list@;
    while list.len() > 0
        invariant
            list@.len() + turned@.len() == start.len(),
            list@ == start.subrange(0, list@.len() as int),
            forall|k: int| 0 <= k < turned@.len() ==> turned@[k] == start[start.len() - 1 - k],
        decreases list@.len(),
    {
        let last = list.pop();
        turned.push(last.unwrap());
    }
    *list = turned;
}

// ---------------------------------------------------------------------------
// The filter.
// ---------------------------------------------------------------------------

/// The lowercase form of a text under the Unicode case mapping.
pub uninterp spec fn lowercase_of(s: Seq<char>) -> Seq<char>;

/// The lowercase form of `s`, by `str::to_lowercase` of the standard
/// library. The contract gives the result a name and claims no more of it
/// than that equal texts have equal lowercase forms.
#[verifier::external_body]
fn to_lowercase(s: &str) -> (lower: String)
    ensures
        lower@ == lowercase_of(s@),
{
    s.to_lowercase()
}

/// Whether a filter that reads `filter_lower` in lowercase picks a process
/// with pid `pid` whose name and command line read `name_lower` and
/// `cmd_lower` in lowercase: the filter text occurs in the name, in the
/// command line or in the pid written in decimal.
pub open spec fn lowered_match(
    name_lower: Seq<char>,
    cmd_lower: Seq<char>,
    pid: u32,
    filter_lower: Seq<char>,
) -> bool {
    ||| contains_seq(name_lower, filter_lower)
    ||| contains_seq(cmd_lower, filter_lower)
    ||| contains_seq(decimal(pid as nat), filter_lower)
}

/// Whether the filter text `filter` picks `process`. The empty filter picks
/// every process; another one picks by `lowered_match` on the lowercase
/// forms, so that case makes no difference.
pub open spec fn filter_picks(filter: Seq<char>, process: ProcessModel) -> bool {
    filter.len() == 0 || lowered_match(
        lowercase_of(process.name),
        lowercase_of(process.cmd),
        process.pid,
        lowercase_of(filter),
    )
}

/// Those of `processes` that the filter text `filter` picks, in their order.
pub open spec fn filtered(processes: Seq<ProcessModel>, filter: Seq<char>) -> Seq<ProcessModel> {
    processes.filter(|p: ProcessModel| filter_picks(filter, p))
}

/// The records that a list of references points to.
pub open spec fn ref_models(picked: Seq<&ProcessInfo>) -> Seq<ProcessModel> {
    picked.map_values(|p: &ProcessInfo| p@)
}

/// Tells whether a filter picks a process, given the lowercase forms of the
/// filter text and of the name and command line of the process.
pub fn matches_lowered(name_lower: &str, cmd_lower: &str, pid: u32, filter_lower: &str) -> (b:
    bool)
    ensures
        b == lowered_match(name_lower@, cmd_lower@, pid, filter_lower@),
{
    let needle = to_chars(filter_lower);
    if contains_chars(&to_chars(name_lower), &needle) {
        return true;
    }
    if contains_chars(&to_chars(cmd_lower), &needle) {
        return true;
    }
    let digits = decimal_string(pid as u64);
    contains_chars(&to_chars(digits.as_str()), &needle)
}

// ---------------------------------------------------------------------------
// The process list.
// ---------------------------------------------------------------------------

/// Mathematical content of a [`ProcessManager`].
pub struct ManagerModel {
    /// The processes, in the order in which they are shown.
    pub processes: Seq<ProcessModel>,
    pub logical_cores: usize,
    /// The filter text.
    pub filter: Seq<char>,
    pub sort_by: SortField,
    pub sort_desc: bool,
}

/// The list of live processes, kept sorted, with a filter for reading it.
#[derive(Clone, Debug)]
pub struct ProcessManager {
    processes: Vec<ProcessInfo>,
    logical_cores: usize,
    filter: String,
    sort_by: SortField,
    sort_desc: bool,
}

impl View for ProcessManager {
    type V = ManagerModel;

    closed spec fn view(&self) -> ManagerModel {
        ManagerModel {
            processes: models(self.processes@),
            logical_cores: self.logical_cores,
            filter: self.filter@,
            sort_by: self.sort_by,
            sort_desc: self.sort_desc,
        }
    }
}

/// The records that are made of a list of samples, each with its pid.
pub open spec fn sampled(samples: Seq<(u32, ProcessSample)>, logical_cores: nat) -> Seq<
    ProcessModel,
> {
    samples.map_values(|s: (u32, ProcessSample)| process_of(s.0, s.1, logical_cores))
}

impl ProcessManager {
    /// An empty list for a host with `logical_cores` CPUs, with no filter,
    /// sorted by CPU usage, highest first.
    pub fn new(logical_cores: usize) -> (manager: ProcessManager)
        ensures
            manager@ == (ManagerModel {
                processes: Seq::empty(),
                logical_cores,
                filter: Seq::empty(),
                sort_by: SortField::CpuUsage,
                sort_desc: true,
            }),
    {
        let manager = ProcessManager {
            processes: Vec::new(),
            logical_cores,
            filter: String::new(),
            sort_by: SortField::CpuUsage,
            sort_desc: true,
        };
        assert(manager@.processes =~= Seq::<ProcessModel>::empty());
        manager
    }

    /// Puts the list into the order that field and direction ask for.
    fn sort(&mut self)
        ensures
            final(self)@ == (ManagerModel {
                processes: arranged(old(self)@.processes, old(self)@.sort_by, old(self)@.sort_desc),
                ..old(self)@
            }),
    {
        sort_processes(&mut self.processes, self.sort_by);
        if self.sort_desc {
            let ghost sorted = self.processes@;
            reverse_processes(&mut self.processes);
            assert(models(sorted.reverse()) =~= models(sorted).reverse());
        }
    }

    /// Replaces the whole list by the records of a fresh enumeration of the
    /// live processes, in the order that field and direction ask for.
    /// Filter, field and direction stay.
    pub fn update(&mut self, samples: &Vec<(u32, ProcessSample)>)
        ensures
            final(self)@ == (ManagerModel {
                processes: arranged(
                    sampled(samples@, old(self)@.logical_cores as nat),
                    old(self)@.sort_by,
                    old(self)@.sort_desc,
                ),
                ..old(self)@
            }),
    {
        let mut fresh: Vec<ProcessInfo> = Vec::new();
        let mut i: usize = 0;
        while i < samples.len()
            invariant
                i <= samples@.len(),
                fresh@.len() == i,
                forall|k: int|
                    0 <= k < i ==> (#[trigger] fresh@[k])@ == process_of(
                        samples@[k].0,
                        samples@[k].1,
                        self.logical_cores as nat,
                    ),
                *self == *old(self),
            decreases samples.len() - i,
        {
            fresh.push(ProcessInfo::from_process(samples[i].0, &samples[i].1, self.logical_cores));
            i += 1;
        }
        assert(models(fresh@) =~= sampled(samples@, self.logical_cores as nat));
        self.processes = fresh;
        self.sort();
    }

    /// Lists the processes that the filter picks, in the order of the list.
    /// The empty filter picks all; another one picks the processes whose
    /// name, command line or pid holds the filter text, whatever the case of
    /// the letters. The list itself is not changed.
    pub fn filtered_processes(&self) -> (picked: Vec<&ProcessInfo>)
        ensures
            ref_models(picked@) == filtered(self@.processes, self@.filter),
    {
        let filter_lower = to_lowercase(self.filter.as_str());
        let all: bool = self.filter.as_str().unicode_len() == 0;
        let ghost pred = |p: ProcessModel| filter_picks(self.filter@, p);
        let mut picked: Vec<&ProcessInfo> = Vec::new();
        let mut i: usize = 0;
        proof {
            assert(models(self.processes@).subrange(0, 0).filter(pred) =~= Seq::<
                ProcessModel,
            >::empty()) by {
                reveal(Seq::filter);
            }
        }
        while i < self.processes.len()
            invariant
                i <= self.processes@.len(),
                all == (self.filter@.len() == 0),
                filter_lower@ == lowercase_of(self.filter@),
                pred == |p: ProcessModel| filter_picks(self.filter@, p),
                ref_models(picked@) == models(self.processes@).subrange(0, i as int).filter(pred),
            decreases self.processes.len() - i,
        {
            let process = &self.processes[i];
            proof {
                let prefix = models(self.processes@).subrange(0, i as int);
                prefix.lemma_filter_push(process@, pred);
                assert(prefix.push(process@) =~= models(self.processes@).subrange(0, i + 1));
            }
            let picks = all || matches_lowered(
                to_lowercase(process.name.as_str()).as_str(),
                to_lowercase(process.cmd.as_str()).as_str(),
                process.pid,
                filter_lower.as_str(),
            );
            if picks {
                picked.push(process);
            }
            i += 1;
        }
        proof {
            assert(models(self.processes@).subrange(0, i as int) == models(self.processes@));
        }
        picked
    }

    /// Sets the filter text. The list is not changed.
    pub fn set_filter(&mut self, filter: String)
        ensures
            final(self)@ == (ManagerModel { filter: filter@, ..old(self)@ }),
    {
        self.filter = filter;
    }

    /// The filter text.
    pub fn filter(&self) -> (text: &str)
        ensures
            text@ == self@.filter,
    {
        self.filter.as_str()
    }

    /// Chooses the field to sort by. Choosing the field in use turns the
    /// direction round; choosing another one sorts by it, descending. The
    /// list is put into the new order at once.
    pub fn set_sort(&mut self, field: SortField)
        ensures
            final(self)@.sort_by == next_sort(old(self)@.sort_by, old(self)@.sort_desc, field).0,
            final(self)@.sort_desc == next_sort(old(self)@.sort_by, old(self)@.sort_desc, field).1,
            final(self)@.processes == arranged(
                old(self)@.processes,
                final(self)@.sort_by,
                final(self)@.sort_desc,
            ),
            final(self)@.filter == old(self)@.filter,
            final(self)@.logical_cores == old(self)@.logical_cores,
    {
        if self.sort_by == field {
            self.sort_desc = !self.sort_desc;
        } else {
            self.sort_by = field;
            self.sort_desc = true;
        }
        self.sort();
    }

    /// The field that the list is sorted by.
    pub fn sort_field(&self) -> (field: SortField)
        ensures
            field == self@.sort_by,
    {
        self.sort_by
    }

    /// Tells whether the list is in descending order.
    pub fn is_sort_desc(&self) -> (b: bool)
        ensures
            b == self@.sort_desc,
    {
        self.sort_desc
    }
}

// ---------------------------------------------------------------------------
// What the order of the list amounts to.
// ---------------------------------------------------------------------------

/// Whether every element of `s` may stand before every later one.
pub open spec fn ascending(s: Seq<ProcessModel>, field: SortField) -> bool {
    forall|i: int, j: int| 0 <= i < j < s.len() ==> key_le(field, s[i], s[j])
}

/// Whether every element of `s` may stand behind every later one.
pub open spec fn descending(s: Seq<ProcessModel>, field: SortField) -> bool {
    forall|i: int, j: int| 0 <= i < j < s.len() ==> key_le(field, s[j], s[i])
}

/// Of two byte strings one is no larger than the other.
pub proof fn lemma_lex_le_total(a: Seq<u8>, b: Seq<u8>)
    ensures
        lex_le(a, b) || lex_le(b, a),
    decreases a.len(),
{
    if a.len() > 0 && b.len() > 0 && a[0] == b[0] {
        lemma_lex_le_total(a.drop_first(), b.drop_first());
    }
}

/// The order of byte strings is transitive.
pub proof fn lemma_lex_le_transitive(a: Seq<u8>, b: Seq<u8>, c: Seq<u8>)
    requires
        lex_le(a, b),
        lex_le(b, c),
    ensures
        lex_le(a, c),
    decreases a.len(),
{
    if a.len() > 0 && b.len() > 0 && c.len() > 0 && a[0] == b[0] && b[0] == c[0] {
        lemma_lex_le_transitive(a.drop_first(), b.drop_first(), c.drop_first());
    }
}

/// Of two processes one may stand before the other, by any field.
pub proof fn lemma_key_le_total(field: SortField, a: ProcessModel, b: ProcessModel)
    ensures
        key_le(field, a, b) || key_le(field, b, a),
{
    lemma_lex_le_total(encode_utf8(a.name), encode_utf8(b.name));
}

/// "May stand before" is transitive, by any field.
pub proof fn lemma_key_le_transitive(
    field: SortField,
    a: ProcessModel,
    b: ProcessModel,
    c: ProcessModel,
)
    requires
        key_le(field, a, b),
        key_le(field, b, c),
    ensures
        key_le(field, a, c),
{
    if field == SortField::Name {
        lemma_lex_le_transitive(encode_utf8(a.name), encode_utf8(b.name), encode_utf8(c.name));
    }
}

/// Putting `x` into an ascending sequence gives an ascending sequence that
/// holds `x` besides the elements it held.
pub proof fn lemma_insert_sorted_ascending(s: Seq<ProcessModel>, x: ProcessModel, field: SortField)
    requires
        ascending(s, field),
    ensures
        ascending(insert_sorted(s, x, field), field),
        insert_sorted(s, x, field).to_multiset() == s.to_multiset().insert(x),
        insert_sorted(s, x, field).len() == s.len() + 1,
    decreases s.len(),
{
    broadcast use vstd::seq_lib::group_to_multiset_ensures;

    let out = insert_sorted(s, x, field);
    if s.len() > 0 && key_le(field, s.last(), x) {
        assert forall|i: int, j: int| 0 <= i < j < out.len() implies key_le(
            field,
            out[i],
            out[j],
        ) by {
            if j == s.len() && i < s.len() - 1 {
                lemma_key_le_transitive(field, s[i], s.last(), x);
            }
        }
    } else if s.len() > 0 {
        let rest = s.drop_last();
        let inner = insert_sorted(rest, x, field);
        lemma_insert_sorted_ascending(rest, x, field);
        lemma_key_le_total(field, s.last(), x);
        assert(rest.push(s.last()) == s);
        assert forall|i: int, j: int| 0 <= i < j < out.len() implies key_le(
            field,
            out[i],
            out[j],
        ) by {
            if j == out.len() - 1 {
                assert(inner.to_multiset().count(inner[i]) > 0);
            }
        }
    }
}

/// A sorted list is ascending and holds the same records as the list it was
/// sorted from, each as often.
pub proof fn lemma_stable_sort(s: Seq<ProcessModel>, field: SortField)
    ensures
        ascending(stable_sort(s, field), field),
        stable_sort(s, field).to_multiset() == s.to_multiset(),
        stable_sort(s, field).len() == s.len(),
    decreases s.len(),
{
    broadcast use vstd::seq_lib::group_to_multiset_ensures;

    if s.len() > 0 {
        lemma_stable_sort(s.drop_last(), field);
        lemma_insert_sorted_ascending(stable_sort(s.drop_last(), field), s.last(), field);
        assert(s.drop_last().push(s.last()) == s);
    }
}

/// The process list as it is shown holds the records it was made of, each as
/// often, in ascending order by the chosen field, or in descending order
/// where that is asked for.
pub proof fn lemma_arranged(s: Seq<ProcessModel>, field: SortField, desc: bool)
    ensures
        arranged(s, field, desc).to_multiset() == s.to_multiset(),
        arranged(s, field, desc).len() == s.len(),
        !desc ==> ascending(arranged(s, field, desc), field),
        desc ==> descending(arranged(s, field, desc), field),
{
    lemma_stable_sort(s, field);
    stable_sort(s, field).lemma_reverse_to_multiset();
}

/// Choosing the same field twice in a row turns the direction round between
/// the two, and choosing another field than the one in use gives descending
/// order by that field.
pub proof fn lemma_sort_toggle(by: SortField, descending: bool, field: SortField)
    ensures
        ({
            let once = next_sort(by, descending, field);
            let twice = next_sort(once.0, once.1, field);
            &&& once.0 == field
            &&& twice.0 == field
            &&& twice.1 == !once.1
            &&& by != field ==> once.1
            &&& by == field ==> once.1 == !descending
        }),
{
}

/// The empty filter picks every process, so that the filtered list is the
/// whole list; and two filter texts with the same lowercase form pick the
/// same processes.
pub proof fn lemma_filter(processes: Seq<ProcessModel>, f1: Seq<char>, f2: Seq<char>)
    ensures
        filtered(processes, Seq::empty()) == processes,
        f1.len() > 0 && f2.len() > 0 && lowercase_of(f1) == lowercase_of(f2) ==> filtered(
            processes,
            f1,
        ) == filtered(processes, f2),
    decreases processes.len(),
{
    reveal(Seq::filter);
    if processes.len() > 0 {
        lemma_filter(processes.drop_last(), f1, f2);
        let pick_all = |p: ProcessModel| filter_picks(Seq::empty(), p);
        let pick_first = |p: ProcessModel| filter_picks(f1, p);
        let pick_second = |p: ProcessModel| filter_picks(f2, p);
        processes.drop_last().lemma_filter_push(processes.last(), pick_all);
        processes.drop_last().lemma_filter_push(processes.last(), pick_first);
        processes.drop_last().lemma_filter_push(processes.last(), pick_second);
    }
}

} // verus!
