//! CPU topology: vendor, per-core placement, L3 cache domains, and the
//! usage and frequency samples that are refreshed while the host runs.
//!
//! Discovery works on a [`SystemProbe`], the raw text of the kernel files
//! that describe the host. A file that could not be read is `None`, and
//! every such gap resolves to a stated default, so discovery always yields a
//! [`CpuInfo`]. Usage is held in hundredths of a percent.
use crate::sysfs::{
    cache_size_kb, cpu_list, parse_cache_size, parse_cpu_list, parse_sysfs_value, sysfs_value,
    table_field, table_value, value_or_zero, VCACHE_THRESHOLD_KB,
};
use crate::text::{contains_chars, contains_seq, to_chars};
use std::collections::HashMap;
use vstd::prelude::*;

verus! {

/// L2 cache size in KB below which an Intel core counts as an efficiency core.
pub const EFFICIENCY_L2_LIMIT_KB: u64 = 1500;

/// Kind of a core on a hybrid processor.
#[derive(Clone, Copy, Debug, PartialEq, Eq, Structural)]
pub enum CoreType {
    /// A performance core, or any core of a processor that is not hybrid.
    Performance,
    /// An efficiency core.
    Efficiency,
    /// Not determined.
    Unknown,
}

/// Vendor of the processor.
#[derive(Clone, Copy, Debug, PartialEq, Eq, Structural)]
pub enum CpuVendor {
    AMD,
    Intel,
    Other,
}

/// One L3 cache domain.
#[derive(Clone, Debug)]
pub struct L3CacheInfo {
    /// Identifier of the domain, unique on the host.
    pub id: u32,
    /// Size in KB; 0 when unknown.
    pub size_kb: u64,
    /// Logical CPUs that share the cache.
    pub shared_cpus: Vec<usize>,
    /// Whether the cache is a stacked 3D V-Cache: larger than 64 MiB.
    pub is_vcache: bool,
}

/// Mathematical content of an [`L3CacheInfo`].
pub struct L3Model {
    pub id: u32,
    pub size_kb: u64,
    pub shared_cpus: Seq<usize>,
    pub is_vcache: bool,
}

impl View for L3CacheInfo {
    type V = L3Model;

    open spec fn view(&self) -> L3Model {
        L3Model {
            id: self.id,
            size_kb: self.size_kb,
            shared_cpus: self.shared_cpus@,
            is_vcache: self.is_vcache,
        }
    }
}

impl L3CacheInfo {
    /// The V-Cache flag agrees with the size.
    pub open spec fn wf(&self) -> bool {
        self.is_vcache == (self.size_kb > VCACHE_THRESHOLD_KB)
    }

    /// Describes a cache domain; the V-Cache flag follows from the size.
    pub fn new(id: u32, size_kb: u64, shared_cpus: Vec<usize>) -> (c: L3CacheInfo)
        ensures
            c.wf(),
            c@ == (L3Model {
                id,
                size_kb,
                shared_cpus: shared_cpus@,
                is_vcache: size_kb > VCACHE_THRESHOLD_KB,
            }),
    {
        L3CacheInfo { id, size_kb, shared_cpus, is_vcache: size_kb > VCACHE_THRESHOLD_KB }
    }
}

/// Placement and current load of one logical CPU.
#[derive(Clone, Copy, Debug)]
pub struct CpuCore {
    /// Logical CPU id, the index of the core in [`CpuInfo::cores`].
    pub cpu_id: usize,
    /// Physical core id; SMT siblings share it.
    pub core_id: usize,
    /// Physical package (socket) id.
    pub package_id: usize,
    /// NUMA node.
    pub numa_node: usize,
    /// Kind of core.
    pub core_type: CoreType,
    /// CCD/CCX on AMD; `None` elsewhere.
    pub cluster_id: Option<usize>,
    /// The L3 domain that the core is joined to.
    pub l3_cache_id: Option<u32>,
    /// Current frequency in MHz; 0 when unknown.
    pub frequency_mhz: u64,
    /// Current usage in hundredths of a percent.
    pub usage_centipercent: u32,
}

/// One usage and frequency sample of a logical CPU.
#[derive(Clone, Copy, Debug)]
pub struct CpuSample {
    /// Usage in hundredths of a percent.
    pub usage_centipercent: u32,
    /// Frequency in MHz.
    pub frequency_mhz: u64,
}

/// Raw text of the sysfs attributes of one logical CPU. `None` stands for a
/// file that could not be read.
#[derive(Clone, Debug)]
pub struct CoreProbe {
    /// `topology/core_id`
    pub core_id: Option<String>,
    /// `topology/physical_package_id`
    pub package_id: Option<String>,
    /// `cache/index2/size`
    pub l2_size: Option<String>,
    /// Whether the directory `cache/index3` exists.
    pub l3_present: bool,
    /// `cache/index3/id`
    pub l3_id: Option<String>,
    /// `cache/index3/size`
    pub l3_size: Option<String>,
    /// `cache/index3/shared_cpu_list`
    pub l3_shared_cpu_list: Option<String>,
}

/// One NUMA node directory: its number and the text of its `cpulist`.
#[derive(Clone, Debug)]
pub struct NodeProbe {
    pub node_id: usize,
    pub cpulist: Option<String>,
}

/// Everything that discovery reads about the host.
#[derive(Clone, Debug)]
pub struct SystemProbe {
    /// Architecture name, used where `/proc/cpuinfo` names no model.
    pub arch: Option<String>,
    /// Text of `/proc/cpuinfo`.
    pub cpuinfo: Option<String>,
    /// `topology/core_siblings_list` of logical CPU 0.
    pub core_siblings_list: Option<String>,
    /// One probe per logical CPU, indexed by CPU id.
    pub cores: Vec<CoreProbe>,
    /// The NUMA node directories, in the order they were listed.
    pub nodes: Vec<NodeProbe>,
    /// `cpufreq/base_frequency` of logical CPU 0, in kHz.
    pub base_frequency: Option<String>,
    /// `cpufreq/cpuinfo_min_freq` of logical CPU 0, in kHz.
    pub min_frequency: Option<String>,
    /// `cpufreq/cpuinfo_max_freq` of logical CPU 0, in kHz.
    pub max_frequency: Option<String>,
}

/// Snapshot of the processor.
#[derive(Clone, Debug)]
pub struct CpuInfo {
    pub model_name: String,
    pub vendor: CpuVendor,
    pub physical_cores: usize,
    pub logical_cores: usize,
    /// Whether several logical CPUs share a physical core.
    pub smt_enabled: bool,
    /// One entry per logical CPU, indexed by CPU id.
    pub cores: Vec<CpuCore>,
    /// The L3 domains, ascending by id.
    pub l3_caches: Vec<L3CacheInfo>,
    /// Base frequency in MHz; 0 when unknown.
    pub base_frequency_mhz: u64,
    /// Maximum frequency in MHz; 0 when unknown.
    pub max_frequency_mhz: u64,
    /// Mean usage over all logical CPUs, in hundredths of a percent.
    pub total_usage_centipercent: u32,
}

// ---------------------------------------------------------------------------
// Model of discovery.
// ---------------------------------------------------------------------------

/// The characters of a probe field, where it was read.
pub open spec fn text_of(field: Option<String>) -> Option<Seq<char>> {
    match field {
        Some(t) => Some(t@),
        None => None,
    }
}

/// The number in a probe field, where the field was read and holds one.
pub open spec fn field_value(field: Option<String>, max: nat) -> Option<nat> {
    match field {
        Some(t) => sysfs_value(t@, max),
        None => None,
    }
}

/// Vendor named by the `vendor_id` entry of `/proc/cpuinfo`.
pub open spec fn vendor_of(cpuinfo: Option<String>) -> CpuVendor {
    match cpuinfo {
        Some(content) => match table_value(content@, "vendor_id"@) {
            Some(v) => if contains_seq(v, "AMD"@) {
                CpuVendor::AMD
            } else if contains_seq(v, "Intel"@) {
                CpuVendor::Intel
            } else {
                CpuVendor::Other
            },
            None => CpuVendor::Other,
        },
        None => CpuVendor::Other,
    }
}

/// Number of physical cores, from the list of CPUs in the package of CPU 0.
/// With `n` CPUs in that list the host has `logical / n` packages (at least
/// one) and `logical` divided by that many physical cores. Without a usable
/// list, two threads per core are taken for granted.
pub open spec fn physical_cores_of(logical: nat, siblings: Option<String>) -> nat {
    match siblings {
        Some(content) => match cpu_list(content@) {
            Some(list) => if list.len() > 0 {
                let packages = logical / list.len();
                logical / (if packages >= 1 {
                    packages
                } else {
                    1
                })
            } else {
                logical / 2
            },
            None => logical / 2,
        },
        None => logical / 2,
    }
}

/// Whether the CPU list of `node` names `cpu`.
pub open spec fn node_holds(node: NodeProbe, cpu: usize) -> bool {
    match node.cpulist {
        Some(content) => match cpu_list(content@) {
            Some(list) => list.contains(cpu),
            None => false,
        },
        None => false,
    }
}

/// NUMA node of `cpu`: the number of the first listed node that names it,
/// 0 when none does.
pub open spec fn numa_node_of(nodes: Seq<NodeProbe>, cpu: usize) -> usize
    decreases nodes.len(),
{
    if nodes.len() == 0 {
        0
    } else if node_holds(nodes[0], cpu) {
        nodes[0].node_id
    } else {
        numa_node_of(nodes.drop_first(), cpu)
    }
}

/// Core kind that the L2 size of an Intel core suggests.
pub open spec fn intel_core_type_of(l2_size: Option<String>) -> CoreType {
    match l2_size {
        Some(content) => if cache_size_kb(content@) < EFFICIENCY_L2_LIMIT_KB {
            CoreType::Efficiency
        } else {
            CoreType::Performance
        },
        None => CoreType::Performance,
    }
}

/// The core record that discovery makes of one probe, before it is joined to
/// an L3 domain.
pub open spec fn core_of(cpu_id: usize, vendor: CpuVendor, probe: CoreProbe, nodes: Seq<NodeProbe>)
    -> CpuCore {
    CpuCore {
        cpu_id,
        core_id: match field_value(probe.core_id, usize::MAX as nat) {
            Some(n) => n as usize,
            None => cpu_id,
        },
        package_id: value_or_zero(field_value(probe.package_id, usize::MAX as nat)) as usize,
        numa_node: numa_node_of(nodes, cpu_id),
        core_type: if vendor == CpuVendor::Intel {
            intel_core_type_of(probe.l2_size)
        } else {
            CoreType::Performance
        },
        cluster_id: if vendor == CpuVendor::AMD {
            match field_value(probe.l3_id, usize::MAX as nat) {
                Some(n) => Some(n as usize),
                None => None,
            }
        } else {
            None
        },
        l3_cache_id: None,
        frequency_mhz: 0,
        usage_centipercent: 0,
    }
}

/// Id of the L3 domain that a probe reports; 0 where the id cannot be read.
pub open spec fn l3_id_of(probe: CoreProbe) -> u32 {
    value_or_zero(field_value(probe.l3_id, u32::MAX as nat)) as u32
}

/// The L3 domain that a probe describes. An unreadable size counts as 0 and
/// an unreadable or malformed CPU list as empty.
pub open spec fn l3_of(probe: CoreProbe) -> L3Model {
    let size_kb = match probe.l3_size {
        Some(t) => cache_size_kb(t@) as u64,
        None => 0,
    };
    L3Model {
        id: l3_id_of(probe),
        size_kb,
        shared_cpus: match probe.l3_shared_cpu_list {
            Some(t) => match cpu_list(t@) {
                Some(list) => list,
                None => Seq::empty(),
            },
            None => Seq::empty(),
        },
        is_vcache: size_kb > VCACHE_THRESHOLD_KB,
    }
}

/// Index of the first probe that reports an L3 domain with id `id`, or the
/// number of probes when none does.
pub open spec fn first_l3_probe(probes: Seq<CoreProbe>, id: u32) -> nat
    decreases probes.len(),
{
    if probes.len() == 0 || (probes[0].l3_present && l3_id_of(probes[0]) == id) {
        0
    } else {
        1 + first_l3_probe(probes.drop_first(), id)
    }
}

/// Whether `caches` are the L3 domains that `probes` report: one entry for
/// each id that a probe with an L3 directory reports, taken from the first
/// such probe, in ascending order of id.
pub open spec fn l3_caches_of(probes: Seq<CoreProbe>, caches: Seq<L3CacheInfo>) -> bool {
    &&& forall|i: int, j: int| 0 <= i < j < caches.len() ==> caches[i].id < caches[j].id
    &&& forall|k: int|
        0 <= k < caches.len() ==> {
            let f = first_l3_probe(probes, #[trigger] caches[k].id) as int;
            f < probes.len() && caches[k]@ == l3_of(probes[f])
        }
    &&& forall|i: int|
        0 <= i < probes.len() && (#[trigger] probes[i]).l3_present ==> exists|k: int|
            0 <= k < caches.len() && (#[trigger] caches[k]).id == l3_id_of(probes[i])
}

/// Id of the first of `caches` that lists `cpu` among its sharers.
pub open spec fn first_cache_with(caches: Seq<L3CacheInfo>, cpu: usize) -> Option<u32>
    decreases caches.len(),
{
    if caches.len() == 0 {
        None
    } else if caches[0].shared_cpus@.contains(cpu) {
        Some(caches[0].id)
    } else {
        first_cache_with(caches.drop_first(), cpu)
    }
}

/// Base and maximum frequency in MHz from the cpufreq attributes, which are
/// in kHz. The base frequency falls back to the minimum frequency; a value
/// that cannot be read is 0.
pub open spec fn frequency_range_of(
    base: Option<String>,
    min: Option<String>,
    max: Option<String>,
) -> (u64, u64) {
    let base_khz = match field_value(base, u64::MAX as nat) {
        Some(f) => Some(f),
        None => field_value(min, u64::MAX as nat),
    };
    (
        (value_or_zero(base_khz) / 1000) as u64,
        (value_or_zero(field_value(max, u64::MAX as nat)) / 1000) as u64,
    )
}

/// Name of the processor model: the `model name` entry of `/proc/cpuinfo`,
/// else the architecture name, else `Unknown`.
pub open spec fn model_name_of(cpuinfo: Option<String>, arch: Option<String>) -> Seq<char> {
    let fallback = match arch {
        Some(a) => a@,
        None => "Unknown"@,
    };
    match cpuinfo {
        Some(content) => match table_value(content@, "model name"@) {
            Some(v) => v,
            None => fallback,
        },
        None => fallback,
    }
}

// ---------------------------------------------------------------------------
// Discovery.
// ---------------------------------------------------------------------------

/// `first_l3_probe` is the least index of a probe that reports `id`.
pub proof fn lemma_first_l3_probe(probes: Seq<CoreProbe>, id: u32, k: int)
    requires
        0 <= k <= probes.len(),
        forall|j: int| 0 <= j < k ==> !((#[trigger] probes[j]).l3_present && l3_id_of(probes[j]) == id),
        k == probes.len() || (probes[k].l3_present && l3_id_of(probes[k]) == id),
    ensures
        first_l3_probe(probes, id) == k,
    decreases k,
{
    if k > 0 {
        let rest = probes.drop_first();
        lemma_first_l3_probe(rest, id, k - 1);
    }
}

/// Tells whether `list` holds `x`.
pub fn list_contains(list: &Vec<usize>, x: usize) -> (b: bool)
    ensures
        b == list@.contains(x),
{
    let mut i: usize = 0;
    while i < list.len()
        invariant
            i <= list.len(),
            forall|k: int| 0 <= k < i ==> list@[k] != x,
        decreases list.len() - i,
    {
        if list[i] == x {
            return true;
        }
        i += 1;
    }
    false
}

/// Determines the vendor from the text of `/proc/cpuinfo`: `AMD` or `Intel`
/// where the `vendor_id` entry holds that word, `Other` for any other vendor,
/// a missing entry or a missing file.
pub fn detect_vendor(cpuinfo: &Option<String>) -> (vendor: CpuVendor)
    ensures
        vendor == vendor_of(*cpuinfo),
{
    match cpuinfo {
        Some(content) => match table_field(content.as_str(), "vendor_id") {
            Some(v) => {
                let chars = to_chars(v.as_str());
                if contains_chars(&chars, &to_chars("AMD")) {
                    CpuVendor::AMD
                } else if contains_chars(&chars, &to_chars("Intel")) {
                    CpuVendor::Intel
                } else {
                    CpuVendor::Other
                }
            },
            None => CpuVendor::Other,
        },
        None => CpuVendor::Other,
    }
}

/// Estimates the number of physical cores from the number of logical CPUs
/// and the `core_siblings_list` of CPU 0. Without a usable list the estimate
/// is half the logical CPUs, which is wrong on hosts without SMT or with more
/// than two threads per core.
pub fn detect_physical_cores(logical_cores: usize, siblings: &Option<String>) -> (n: usize)
    ensures
        n == physical_cores_of(logical_cores as nat, *siblings),
{
    match siblings {
        Some(content) => match parse_cpu_list(content.as_str()) {
            Some(list) => {
                let count: usize = list.len();
                if count > 0 {
                    let packages: usize = logical_cores / count;
                    let divisor: usize = if packages >= 1 {
                        packages
                    } else {
                        1
                    };
                    logical_cores / divisor
                } else {
                    logical_cores / 2
                }
            },
            None => logical_cores / 2,
        },
        None => logical_cores / 2,
    }
}

/// Finds the NUMA node of `cpu_id`: the first listed node whose `cpulist`
/// names it, or node 0.
pub fn detect_numa_node(cpu_id: usize, nodes: &Vec<NodeProbe>) -> (node: usize)
    ensures
        node == numa_node_of(nodes@, cpu_id),
{
    let mut i: usize = 0;
    proof {
        assert(nodes@.subrange(0, nodes.len() as int) == nodes@);
    }
    while i < nodes.len()
        invariant
            i <= nodes.len(),
            numa_node_of(nodes@, cpu_id) == numa_node_of(
                nodes@.subrange(i as int, nodes.len() as int),
                cpu_id,
            ),
        decreases nodes.len() - i,
    {
        let ghost rest = nodes@.subrange(i as int, nodes.len() as int);
        proof {
            assert(rest.drop_first() == nodes@.subrange(i + 1, nodes.len() as int));
        }
        let holds = match &nodes[i].cpulist {
            Some(content) => match parse_cpu_list(content.as_str()) {
                Some(list) => list_contains(&list, cpu_id),
                None => false,
            },
            None => false,
        };
        if holds {
            return nodes[i].node_id;
        }
        i += 1;
    }
    0
}

/// Classifies an Intel core by its L2 size: below 1500 KB it is an
/// efficiency core. A core whose L2 size cannot be read counts as a
/// performance core.
pub fn detect_intel_core_type(l2_size: &Option<String>) -> (kind: CoreType)
    ensures
        kind == intel_core_type_of(*l2_size),
{
    match l2_size {
        Some(content) => {
            if parse_cache_size(content.as_str()) < EFFICIENCY_L2_LIMIT_KB {
                CoreType::Efficiency
            } else {
                CoreType::Performance
            }
        },
        None => CoreType::Performance,
    }
}

/// Reads a probe field as a number no larger than `max`.
fn probe_value(field: &Option<String>, max: u64) -> (r: Option<u64>)
    ensures
        r.is_some() == field_value(*field, max as nat).is_some(),
        r.is_some() ==> r.unwrap() == field_value(*field, max as nat).unwrap(),
{
    match field {
        Some(t) => parse_sysfs_value(t.as_str(), max),
        None => None,
    }
}

/// Reads the CCD/CCX of an AMD core, which is the id of its L3 domain.
pub fn detect_amd_cluster(l3_id: &Option<String>) -> (cluster: Option<usize>)
    ensures
        cluster == match field_value(*l3_id, usize::MAX as nat) {
            Some(n) => Some(n as usize),
            None => None,
        },
{
    match probe_value(l3_id, usize::MAX as u64) {
        Some(n) => Some(n as usize),
        None => None,
    }
}

/// Builds the record of logical CPU `cpu_id` from its probe. The physical
/// core id defaults to `cpu_id` and the package id to 0; the core kind is
/// looked at on Intel only and the cluster on AMD only. The L3 domain is left
/// open, and frequency and usage start at 0.
pub fn detect_core_topology(
    cpu_id: usize,
    vendor: CpuVendor,
    probe: &CoreProbe,
    nodes: &Vec<NodeProbe>,
) -> (core: CpuCore)
    ensures
        core == core_of(cpu_id, vendor, *probe, nodes@),
{
    let core_id: usize = match probe_value(&probe.core_id, usize::MAX as u64) {
        Some(n) => n as usize,
        None => cpu_id,
    };
    let package_id: usize = match probe_value(&probe.package_id, usize::MAX as u64) {
        Some(n) => n as usize,
        None => 0,
    };
    let numa_node = detect_numa_node(cpu_id, nodes);
    let core_type = match vendor {
        CpuVendor::Intel => detect_intel_core_type(&probe.l2_size),
        _ => CoreType::Performance,
    };
    let cluster_id = match vendor {
        CpuVendor::AMD => detect_amd_cluster(&probe.l3_id),
        _ => None,
    };
    CpuCore {
        cpu_id,
        core_id,
        package_id,
        numa_node,
        core_type,
        cluster_id,
        l3_cache_id: None,
        frequency_mhz: 0,
        usage_centipercent: 0,
    }
}

/// Builds the description of the L3 domain that `probe` reports.
fn l3_from_probe(probe: &CoreProbe, id: u32) -> (info: L3CacheInfo)
    requires
        id == l3_id_of(*probe),
    ensures
        info@ == l3_of(*probe),
        info.wf(),
{
    let size_kb: u64 = match &probe.l3_size {
        Some(t) => parse_cache_size(t.as_str()),
        None => 0,
    };
    let shared_cpus: Vec<usize> = match &probe.l3_shared_cpu_list {
        Some(t) => match parse_cpu_list(t.as_str()) {
            Some(list) => list,
            None => Vec::new(),
        },
        None => Vec::new(),
    };
    L3CacheInfo::new(id, size_kb, shared_cpus)
}

/// Collects the L3 cache domains of the host. For each CPU with an L3
/// directory the domain id is read (0 where unreadable); the first CPU that
/// reports an id supplies size and sharers of that domain. The domains come
/// out in ascending order of id, each with its V-Cache flag set by the
/// 64 MiB threshold.
pub fn detect_l3_caches(probes: &Vec<CoreProbe>) -> (caches: Vec<L3CacheInfo>)
    ensures
        l3_caches_of(probes@, caches@),
        forall|k: int| 0 <= k < caches.len() ==> (#[trigger] caches[k]).wf(),
{
    let mut caches: Vec<L3CacheInfo> = Vec::new();
    let mut i: usize = 0;
    while i < probes.len()
        invariant
            i <= probes.len(),
            forall|a: int, b: int| 0 <= a < b < caches.len() ==> caches[a].id < caches[b].id,
            forall|k: int|
                0 <= k < caches.len() ==> {
                    let f = first_l3_probe(probes@, #[trigger] caches[k].id) as int;
                    f < i && caches[k]@ == l3_of(probes@[f])
                },
            forall|k: int| 0 <= k < caches.len() ==> (#[trigger] caches[k]).wf(),
            forall|j: int|
                0 <= j < i && (#[trigger] probes@[j]).l3_present ==> exists|k: int|
                    0 <= k < caches.len() && (#[trigger] caches[k]).id == l3_id_of(probes@[j]),
        decreases probes.len() - i,
    {
        let probe = &probes[i];
        if probe.l3_present {
            let id: u32 = match probe_value(&probe.l3_id, u32::MAX as u64) {
                Some(n) => n as u32,
                None => 0,
            };
            let mut pos: usize = 0;
            while pos < caches.len() && caches[pos].id < id
                invariant
                    pos <= caches.len(),
                    forall|k: int| 0 <= k < pos ==> (#[trigger] caches[k]).id < id,
                decreases caches.len() - pos,
            {
                pos += 1;
            }
            if pos >= caches.len() || caches[pos].id != id {
                let ghost before = caches@;
                proof {
                    lemma_first_l3_probe(probes@, id, i as int);
                }
                let info = l3_from_probe(probe, id);
                caches.insert(pos, info);
                proof {
                    let after = caches@;
                    assert forall|j: int|
                        0 <= j < i + 1 && (#[trigger] probes@[j]).l3_present implies exists|k: int|
                        0 <= k < after.len() && (#[trigger] after[k]).id == l3_id_of(
                            probes@[j],
                        ) by {
                        if j < i {
                            let k0 = choose|k: int|
                                0 <= k < before.len() && (#[trigger] before[k]).id == l3_id_of(
                                    probes@[j],
                                );
                            let k1 = if k0 < pos { k0 } else { k0 + 1 };
                            assert(after[k1] == before[k0]);
                        } else {
                            assert(after[pos as int].id == id);
                        }
                    }
                }
            }
        }
        i += 1;
    }
    caches
}

/// Finds the L3 domain of `cpu`: the first of `caches` that lists it.
pub fn find_l3_cache(caches: &Vec<L3CacheInfo>, cpu: usize) -> (id: Option<u32>)
    ensures
        id == first_cache_with(caches@, cpu),
{
    let mut k: usize = 0;
    proof {
        assert(caches@.subrange(0, caches.len() as int) == caches@);
    }
    while k < caches.len()
        invariant
            k <= caches.len(),
            first_cache_with(caches@, cpu) == first_cache_with(
                caches@.subrange(k as int, caches.len() as int),
                cpu,
            ),
        decreases caches.len() - k,
    {
        let ghost rest = caches@.subrange(k as int, caches.len() as int);
        proof {
            assert(rest.drop_first() == caches@.subrange(k + 1, caches.len() as int));
        }
        if list_contains(&caches[k].shared_cpus, cpu) {
            return Some(caches[k].id);
        }
        k += 1;
    }
    None
}

/// Reads base and maximum frequency of the processor in MHz. The base
/// frequency is taken from `base_frequency`, else from `cpuinfo_min_freq`.
/// A result of 0 means that the frequency is not known.
pub fn detect_frequency_range(
    base: &Option<String>,
    min: &Option<String>,
    max: &Option<String>,
) -> (r: (u64, u64))
    ensures
        r == frequency_range_of(*base, *min, *max),
{
    let base_khz: Option<u64> = match probe_value(base, u64::MAX) {
        Some(f) => Some(f),
        None => probe_value(min, u64::MAX),
    };
    let base_mhz: u64 = match base_khz {
        Some(f) => f / 1000,
        None => 0,
    };
    let max_mhz: u64 = match probe_value(max, u64::MAX) {
        Some(f) => f / 1000,
        None => 0,
    };
    (base_mhz, max_mhz)
}

// ---------------------------------------------------------------------------
// The snapshot.
// ---------------------------------------------------------------------------

/// Sum of the usage values of `samples`.
pub open spec fn usage_sum(samples: Seq<CpuSample>) -> nat
    decreases samples.len(),
{
    if samples.len() == 0 {
        0
    } else {
        usage_sum(samples.drop_last()) + samples.last().usage_centipercent as nat
    }
}

/// Mean usage that a refresh records: the usage of the samples that have a
/// core, summed and divided by the number of samples; 0 without samples.
pub open spec fn mean_usage(samples: Seq<CpuSample>, cores: nat) -> nat {
    if samples.len() == 0 {
        0
    } else if samples.len() <= cores {
        usage_sum(samples) / samples.len()
    } else {
        usage_sum(samples.subrange(0, cores as int)) / samples.len()
    }
}

/// Number of columns in which a grid of `logical_cores` cells is laid out.
pub open spec fn grid_columns_of(logical_cores: nat) -> nat {
    if 1 <= logical_cores <= 4 {
        2
    } else if 5 <= logical_cores <= 16 {
        4
    } else if 17 <= logical_cores <= 64 {
        8
    } else {
        16
    }
}

/// Whether one of `caches` has id `id` and is a V-Cache.
pub open spec fn is_vcache_id(caches: Seq<L3CacheInfo>, id: u32) -> bool {
    exists|k: int| 0 <= k < caches.len() && (#[trigger] caches[k]).id == id && caches[k].is_vcache
}

/// Whether `core` is joined to a V-Cache domain of `caches`.
pub open spec fn on_vcache(caches: Seq<L3CacheInfo>, core: CpuCore) -> bool {
    match core.l3_cache_id {
        Some(id) => is_vcache_id(caches, id),
        None => false,
    }
}

/// The CPU ids of those of `cores` that are joined to a V-Cache domain of
/// `caches`, in the order of `cores`.
pub open spec fn vcache_cores_of(cores: Seq<CpuCore>, caches: Seq<L3CacheInfo>) -> Seq<usize> {
    cores.filter(|c: CpuCore| on_vcache(caches, c)).map_values(|c: CpuCore| c.cpu_id)
}

/// Whether `core` is joined to the L3 domain `id`.
pub open spec fn in_l3(core: CpuCore, id: u32) -> bool {
    core.l3_cache_id == Some(id)
}

/// Those of `cores` that are joined to the L3 domain `id`, in the order of
/// `cores`.
pub open spec fn l3_group(cores: Seq<CpuCore>, id: u32) -> Seq<CpuCore> {
    cores.filter(|c: CpuCore| in_l3(c, id))
}

/// The cores that a list of references points to.
pub open spec fn derefs(members: Seq<&CpuCore>) -> Seq<CpuCore> {
    members.map_values(|c: &CpuCore| *c)
}

impl CpuInfo {
    /// The invariant of a snapshot: there is one core per logical CPU, the
    /// core at index `i` is CPU `i` and is joined to the first L3 domain that
    /// lists it, the SMT flag says whether there are more logical CPUs than
    /// physical cores, and the L3 domains are well formed and ascending by id.
    pub open spec fn wf(&self) -> bool {
        &&& self.cores@.len() == self.logical_cores
        &&& forall|i: int|
            0 <= i < self.cores@.len() ==> {
                &&& (#[trigger] self.cores@[i]).cpu_id == i
                &&& self.cores@[i].l3_cache_id == first_cache_with(self.l3_caches@, i as usize)
            }
        &&& self.smt_enabled == (self.logical_cores > self.physical_cores)
        &&& forall|a: int, b: int|
            0 <= a < b < self.l3_caches@.len() ==> self.l3_caches@[a].id < self.l3_caches@[b].id
        &&& forall|k: int| 0 <= k < self.l3_caches@.len() ==> (#[trigger] self.l3_caches@[k]).wf()
    }

    /// The CPU ids of the cores that are joined to a V-Cache domain, in
    /// ascending order.
    pub open spec fn vcache_cores_spec(&self) -> Seq<usize> {
        vcache_cores_of(self.cores@, self.l3_caches@)
    }

    /// Builds the snapshot of the host from a probe. Discovery never fails:
    /// whatever could not be read takes its default. There is one core per
    /// probed CPU, each joined to the first L3 domain that lists it; usage and
    /// current frequency start at 0.
    pub fn detect(probe: &SystemProbe) -> (info: CpuInfo)
        ensures
            info.wf(),
            info.model_name@ == model_name_of(probe.cpuinfo, probe.arch),
            info.vendor == vendor_of(probe.cpuinfo),
            info.logical_cores == probe.cores@.len(),
            info.physical_cores == physical_cores_of(
                probe.cores@.len(),
                probe.core_siblings_list,
            ),
            l3_caches_of(probe.cores@, info.l3_caches@),
            forall|i: int|
                0 <= i < info.cores@.len() ==> #[trigger] info.cores@[i] == (CpuCore {
                    l3_cache_id: first_cache_with(info.l3_caches@, i as usize),
                    ..core_of(i as usize, info.vendor, probe.cores@[i], probe.nodes@)
                }),
            (info.base_frequency_mhz, info.max_frequency_mhz) == frequency_range_of(
                probe.base_frequency,
                probe.min_frequency,
                probe.max_frequency,
            ),
            info.total_usage_centipercent == 0,
    {
        let fallback: String = match &probe.arch {
            Some(a) => a.clone(),
            None => String::from_str("Unknown"),
        };
        let model_name: String = match &probe.cpuinfo {
            Some(content) => match table_field(content.as_str(), "model name") {
                Some(v) => v,
                None => fallback,
            },
            None => fallback,
        };
        let vendor = detect_vendor(&probe.cpuinfo);
        let logical_cores: usize = probe.cores.len();
        let physical_cores = detect_physical_cores(logical_cores, &probe.core_siblings_list);
        let l3_caches = detect_l3_caches(&probe.cores);
        let mut cores: Vec<CpuCore> = Vec::new();
        let mut cpu_id: usize = 0;
        while cpu_id < logical_cores
            invariant
                logical_cores == probe.cores@.len(),
                cpu_id <= logical_cores,
                cores@.len() == cpu_id,
                forall|i: int|
                    0 <= i < cpu_id ==> #[trigger] cores@[i] == (CpuCore {
                        l3_cache_id: first_cache_with(l3_caches@, i as usize),
                        ..core_of(i as usize, vendor, probe.cores@[i], probe.nodes@)
                    }),
            decreases logical_cores - cpu_id,
        {
            let mut core = detect_core_topology(cpu_id, vendor, &probe.cores[cpu_id], &probe.nodes);
            core.l3_cache_id = find_l3_cache(&l3_caches, cpu_id);
            cores.push(core);
            cpu_id += 1;
        }
        let (base_frequency_mhz, max_frequency_mhz) = detect_frequency_range(
            &probe.base_frequency,
            &probe.min_frequency,
            &probe.max_frequency,
        );
        CpuInfo {
            model_name,
            vendor,
            physical_cores,
            logical_cores,
            smt_enabled: logical_cores > physical_cores,
            cores,
            l3_caches,
            base_frequency_mhz,
            max_frequency_mhz,
            total_usage_centipercent: 0,
        }
    }

    /// Records fresh samples: core `i` takes usage and frequency of sample
    /// `i`, cores without a sample keep theirs, and the total becomes the mean
    /// usage. Nothing else changes.
    pub fn update(&mut self, samples: &Vec<CpuSample>)
        ensures
            final(self).cores@.len() == old(self).cores@.len(),
            forall|i: int|
                0 <= i < old(self).cores@.len() ==> #[trigger] final(self).cores@[i] == (if i
                    < samples@.len() {
                    CpuCore {
                        usage_centipercent: samples@[i].usage_centipercent,
                        frequency_mhz: samples@[i].frequency_mhz,
                        ..old(self).cores@[i]
                    }
                } else {
                    old(self).cores@[i]
                }),
            final(self).total_usage_centipercent == mean_usage(
                samples@,
                old(self).cores@.len(),
            ),
            final(self).model_name == old(self).model_name,
            final(self).vendor == old(self).vendor,
            final(self).physical_cores == old(self).physical_cores,
            final(self).logical_cores == old(self).logical_cores,
            final(self).smt_enabled == old(self).smt_enabled,
            final(self).l3_caches == old(self).l3_caches,
            final(self).base_frequency_mhz == old(self).base_frequency_mhz,
            final(self).max_frequency_mhz == old(self).max_frequency_mhz,
            old(self).wf() ==> final(self).wf(),
    {
        let n: usize = if samples.len() <= self.cores.len() {
            samples.len()
        } else {
            self.cores.len()
        };
        let mut sum: u128 = 0;
        let mut i: usize = 0;
        while i < n
            invariant
                i <= n,
                n <= samples@.len(),
                n <= self.cores@.len(),
                self.cores@.len() == old(self).cores@.len(),
                sum == usage_sum(samples@.subrange(0, i as int)),
                sum <= i * 0xFFFF_FFFF,
                forall|k: int|
                    0 <= k < self.cores@.len() ==> #[trigger] self.cores@[k] == (if k < i {
                        CpuCore {
                            usage_centipercent: samples@[k].usage_centipercent,
                            frequency_mhz: samples@[k].frequency_mhz,
                            ..old(self).cores@[k]
                        }
                    } else {
                        old(self).cores@[k]
                    }),
                self.model_name == old(self).model_name,
                self.vendor == old(self).vendor,
                self.physical_cores == old(self).physical_cores,
                self.logical_cores == old(self).logical_cores,
                self.smt_enabled == old(self).smt_enabled,
                self.l3_caches == old(self).l3_caches,
                self.base_frequency_mhz == old(self).base_frequency_mhz,
                self.max_frequency_mhz == old(self).max_frequency_mhz,
            decreases n - i,
        {
            let sample = samples[i];
            let mut core = self.cores[i];
            core.usage_centipercent = sample.usage_centipercent;
            core.frequency_mhz = sample.frequency_mhz;
            self.cores.set(i, core);
            proof {
                assert(samples@.subrange(0, i + 1).drop_last() == samples@.subrange(0, i as int));
            }
            sum = sum + sample.usage_centipercent as u128;
            i += 1;
        }
        proof {
            if samples@.len() <= old(self).cores@.len() {
                assert(samples@.subrange(0, n as int) == samples@);
            }
        }
        if samples.len() > 0 {
            let len: u128 = samples.len() as u128;
            proof {
                assert(sum / len <= 0xFFFF_FFFF) by (nonlinear_arith)
                    requires
                        sum <= n * 0xFFFF_FFFF,
                        n <= len,
                        len > 0,
                ;
            }
            self.total_usage_centipercent = (sum / len) as u32;
        } else {
            self.total_usage_centipercent = 0;
        }
    }

    /// Suggests a number of columns for a grid with one cell per logical CPU:
    /// 2 for up to 4 CPUs, 4 for up to 16, 8 for up to 64, and 16 beyond that
    /// or where there is no CPU at all.
    pub fn grid_columns(&self) -> (columns: usize)
        ensures
            columns == grid_columns_of(self.logical_cores as nat),
    {
        let n: usize = self.logical_cores;
        if 1 <= n && n <= 4 {
            2
        } else if 5 <= n && n <= 16 {
            4
        } else if 17 <= n && n <= 64 {
            8
        } else {
            16
        }
    }

    /// Groups the cores by the L3 domain they are joined to. Each domain
    /// that has a core is a key; its cores are listed in ascending order of
    /// CPU id. Cores without a domain are left out.
    pub fn cores_by_l3(&self) -> (groups: HashMap<u32, Vec<&CpuCore>>)
        ensures
            forall|id: u32|
                groups@.contains_key(id) <==> exists|i: int|
                    0 <= i < self.cores@.len() && in_l3(#[trigger] self.cores@[i], id),
            forall|id: u32|
                groups@.contains_key(id) ==> derefs((#[trigger] groups@[id])@) == l3_group(
                    self.cores@,
                    id,
                ),
    {
        let mut groups: HashMap<u32, Vec<&CpuCore>> = HashMap::new();
        let mut i: usize = 0;
        while i < self.cores.len()
            invariant
                i <= self.cores@.len(),
                forall|id: u32|
                    groups@.contains_key(id) <==> l3_group(
                        self.cores@.subrange(0, i as int),
                        id,
                    ).len() > 0,
                forall|id: u32|
                    groups@.contains_key(id) ==> derefs((#[trigger] groups@[id])@) == l3_group(
                        self.cores@.subrange(0, i as int),
                        id,
                    ),
            decreases self.cores.len() - i,
        {
            let core = &self.cores[i];
            let ghost prefix = self.cores@.subrange(0, i as int);
            proof {
                assert(prefix.push(*core) == self.cores@.subrange(0, i + 1));
                assert forall|id: u32|
                    l3_group(prefix.push(*core), id) == if in_l3(*core, id) {
                        l3_group(prefix, id).push(*core)
                    } else {
                        l3_group(prefix, id)
                    } by {
                    lemma_l3_group_push(prefix, *core, id);
                }
            }
            match core.l3_cache_id {
                Some(id0) => {
                    let mut members: Vec<&CpuCore> = match groups.remove(&id0) {
                        Some(v) => v,
                        None => Vec::new(),
                    };
                    members.push(core);
                    groups.insert(id0, members);
                },
                None => {},
            }
            i += 1;
        }
        proof {
            assert(self.cores@.subrange(0, i as int) == self.cores@);
            assert forall|id: u32|
                groups@.contains_key(id) <==> exists|i: int|
                    0 <= i < self.cores@.len() && in_l3(#[trigger] self.cores@[i], id) by {
                lemma_l3_group_members(self.cores@, id);
            }
        }
        groups
    }

    /// Lists the CPU ids of the cores that are joined to a V-Cache domain.
    pub fn vcache_cores(&self) -> (ids: Vec<usize>)
        ensures
            ids@ == self.vcache_cores_spec(),
    {
        let mut ids: Vec<usize> = Vec::new();
        let mut i: usize = 0;
        while i < self.cores.len()
            invariant
                i <= self.cores@.len(),
                ids@ == vcache_cores_of(self.cores@.subrange(0, i as int), self.l3_caches@),
            decreases self.cores.len() - i,
        {
            let core = self.cores[i];
            proof {
                lemma_vcache_cores_push(self.cores@.subrange(0, i as int), self.l3_caches@, core);
                assert(self.cores@.subrange(0, i as int).push(core) == self.cores@.subrange(
                    0,
                    i + 1,
                ));
            }
            let joined = match core.l3_cache_id {
                Some(id) => is_vcache_domain(&self.l3_caches, id),
                None => false,
            };
            if joined {
                ids.push(core.cpu_id);
            }
            i += 1;
        }
        proof {
            assert(self.cores@.subrange(0, i as int) == self.cores@);
        }
        ids
    }
}

/// Adding a core at the end adds it to the group of its own domain and to no
/// other.
pub proof fn lemma_l3_group_push(cores: Seq<CpuCore>, core: CpuCore, id: u32)
    ensures
        l3_group(cores.push(core), id) == if in_l3(core, id) {
            l3_group(cores, id).push(core)
        } else {
            l3_group(cores, id)
        },
{
    cores.lemma_filter_push(core, |c: CpuCore| in_l3(c, id));
}

/// A group has a member exactly when some core is joined to its domain.
pub proof fn lemma_l3_group_members(cores: Seq<CpuCore>, id: u32)
    ensures
        l3_group(cores, id).len() > 0 <==> exists|i: int|
            0 <= i < cores.len() && in_l3(#[trigger] cores[i], id),
    decreases cores.len(),
{
    if cores.len() == 0 {
        assert(l3_group(cores, id).len() == 0) by {
            reveal(Seq::filter);
        }
    } else {
        let rest = cores.drop_last();
        lemma_l3_group_members(rest, id);
        lemma_l3_group_push(rest, cores.last(), id);
        assert(rest.push(cores.last()) == cores);
    }
}

/// Adding a core at the end adds its CPU id to the V-Cache cores where the
/// core is joined to a V-Cache domain, and nothing otherwise.
pub proof fn lemma_vcache_cores_push(cores: Seq<CpuCore>, caches: Seq<L3CacheInfo>, core: CpuCore)
    ensures
        vcache_cores_of(cores.push(core), caches) == if on_vcache(caches, core) {
            vcache_cores_of(cores, caches).push(core.cpu_id)
        } else {
            vcache_cores_of(cores, caches)
        },
{
    let pred = |c: CpuCore| on_vcache(caches, c);
    cores.lemma_filter_push(core, pred);
}

/// Tells whether the domain `id` of `caches` is a V-Cache.
pub fn is_vcache_domain(caches: &Vec<L3CacheInfo>, id: u32) -> (b: bool)
    ensures
        b == is_vcache_id(caches@, id),
{
    let mut k: usize = 0;
    while k < caches.len()
        invariant
            k <= caches.len(),
            forall|w: int| 0 <= w < k ==> !((#[trigger] caches@[w]).id == id && caches@[w].is_vcache),
        decreases caches.len() - k,
    {
        if caches[k].id == id && caches[k].is_vcache {
            return true;
        }
        k += 1;
    }
    false
}

// ---------------------------------------------------------------------------
// The V-Cache cores are the CPUs that the V-Cache domains list.
// ---------------------------------------------------------------------------

/// The CPUs that the V-Cache domains among `caches` list as sharers. The set
/// does not depend on the order of `caches`.
pub open spec fn vcache_union(caches: Seq<L3CacheInfo>) -> Set<usize> {
    Set::new(
        |cpu: usize|
            exists|k: int|
                0 <= k < caches.len() && (#[trigger] caches[k]).is_vcache
                    && caches[k].shared_cpus@.contains(cpu),
    )
}

/// Whether every CPU that a V-Cache domain lists is a core of the host and
/// is joined to a V-Cache domain.
pub open spec fn vcache_sharers_joined(info: CpuInfo) -> bool {
    forall|k: int, cpu: usize|
        0 <= k < info.l3_caches@.len() && (#[trigger] info.l3_caches@[k]).is_vcache
            && #[trigger] info.l3_caches@[k].shared_cpus@.contains(cpu) ==> cpu
            < info.logical_cores && on_vcache(info.l3_caches@, info.cores@[cpu as int])
}

/// Whether no CPU is listed by two of the L3 domains, and every listed CPU
/// is a core of the host.
pub open spec fn domains_disjoint(info: CpuInfo) -> bool {
    &&& forall|k: int, cpu: usize|
        0 <= k < info.l3_caches@.len() && #[trigger] info.l3_caches@[k].shared_cpus@.contains(cpu)
            ==> cpu < info.logical_cores
    &&& forall|a: int, b: int, cpu: usize|
        0 <= a < info.l3_caches@.len() && 0 <= b < info.l3_caches@.len()
            && #[trigger] info.l3_caches@[a].shared_cpus@.contains(cpu)
            && #[trigger] info.l3_caches@[b].shared_cpus@.contains(cpu) ==> a == b
}

/// What `first_cache_with` finds: the id of the first domain that lists
/// `cpu`, and nothing when no domain lists it.
pub proof fn lemma_first_cache_with(caches: Seq<L3CacheInfo>, cpu: usize)
    ensures
        match first_cache_with(caches, cpu) {
            Some(id) => exists|k: int|
                0 <= k < caches.len() && (#[trigger] caches[k]).id == id
                    && caches[k].shared_cpus@.contains(cpu) && forall|j: int|
                    0 <= j < k ==> !(#[trigger] caches[j]).shared_cpus@.contains(cpu),
            None => forall|k: int|
                0 <= k < caches.len() ==> !(#[trigger] caches[k]).shared_cpus@.contains(cpu),
        },
    decreases caches.len(),
{
    if caches.len() > 0 {
        if !caches[0].shared_cpus@.contains(cpu) {
            let rest = caches.drop_first();
            lemma_first_cache_with(rest, cpu);
            match first_cache_with(rest, cpu) {
                Some(id) => {
                    let k = choose|k: int|
                        0 <= k < rest.len() && (#[trigger] rest[k]).id == id
                            && rest[k].shared_cpus@.contains(cpu) && forall|j: int|
                            0 <= j < k ==> !(#[trigger] rest[j]).shared_cpus@.contains(cpu);
                    assert forall|j: int| 0 <= j < k + 1 implies !(
                    #[trigger] caches[j]).shared_cpus@.contains(cpu) by {
                        if j > 0 {
                            assert(caches[j] == rest[j - 1]);
                        }
                    }
                },
                None => {
                    assert forall|k: int| 0 <= k < caches.len() implies !(
                    #[trigger] caches[k]).shared_cpus@.contains(cpu) by {
                        if k > 0 {
                            assert(caches[k] == rest[k - 1]);
                        }
                    }
                },
            }
        }
    }
}

/// Among the first `n` cores, the V-Cache cores are the CPUs below `n` whose
/// core is joined to a V-Cache domain, each listed once.
pub proof fn lemma_vcache_cores_prefix(cores: Seq<CpuCore>, caches: Seq<L3CacheInfo>, n: int)
    requires
        0 <= n <= cores.len(),
        forall|i: int| 0 <= i < cores.len() ==> (#[trigger] cores[i]).cpu_id == i,
    ensures
        vcache_cores_of(cores.subrange(0, n), caches).no_duplicates(),
        forall|x: usize|
            vcache_cores_of(cores.subrange(0, n), caches).contains(x) <==> (x < n && on_vcache(
                caches,
                cores[x as int],
            )),
    decreases n,
{
    let now = vcache_cores_of(cores.subrange(0, n), caches);
    if n == 0 {
        assert(cores.subrange(0, 0).filter(|c: CpuCore| on_vcache(caches, c)).len() == 0) by {
            reveal(Seq::filter);
        }
    } else {
        let before = vcache_cores_of(cores.subrange(0, n - 1), caches);
        let core = cores[n - 1];
        lemma_vcache_cores_prefix(cores, caches, n - 1);
        lemma_vcache_cores_push(cores.subrange(0, n - 1), caches, core);
        assert(cores.subrange(0, n - 1).push(core) == cores.subrange(0, n));
        assert forall|x: usize| now.contains(x) <==> (x < n && on_vcache(
            caches,
            cores[x as int],
        )) by {
            if now.contains(x) {
                let i = choose|i: int| 0 <= i < now.len() && now[i] == x;
                if i < before.len() {
                    assert(before.contains(x));
                }
            }
            if x < n && on_vcache(caches, cores[x as int]) {
                if x < n - 1 {
                    assert(before.contains(x));
                    let i = choose|i: int| 0 <= i < before.len() && before[i] == x;
                    assert(now[i] == x);
                } else {
                    assert(now[now.len() - 1] == x);
                }
            }
        }
        if on_vcache(caches, core) {
            assert(!before.contains(core.cpu_id));
        }
    }
}

/// Where the L3 domains are disjoint and list only cores of the host, every
/// CPU that a V-Cache domain lists is joined to a V-Cache domain.
pub proof fn lemma_disjoint_domains_joined(info: CpuInfo)
    requires
        info.wf(),
        domains_disjoint(info),
    ensures
        vcache_sharers_joined(info),
{
    let caches = info.l3_caches@;
    assert forall|k: int, cpu: usize|
        0 <= k < caches.len() && (#[trigger] caches[k]).is_vcache
            && #[trigger] caches[k].shared_cpus@.contains(cpu) implies cpu < info.logical_cores
        && on_vcache(caches, info.cores@[cpu as int]) by {
        lemma_first_cache_with(caches, cpu);
        match first_cache_with(caches, cpu) {
            Some(id) => {
            },
            None => {},
        }
    }
}

/// The V-Cache cores of a snapshot are exactly the CPUs that its V-Cache
/// domains list as sharers, each named once, provided that every such CPU is
/// a core of the host and is joined to a V-Cache domain. That holds in
/// particular where the domains are disjoint, by
/// `lemma_disjoint_domains_joined`.
pub proof fn lemma_vcache_cores_union(info: CpuInfo)
    requires
        info.wf(),
        vcache_sharers_joined(info),
    ensures
        info.vcache_cores_spec().to_set() == vcache_union(info.l3_caches@),
        info.vcache_cores_spec().no_duplicates(),
{
    let caches = info.l3_caches@;
    let cores = info.cores@;
    let ids = info.vcache_cores_spec();
    lemma_vcache_cores_prefix(cores, caches, cores.len() as int);
    assert(cores.subrange(0, cores.len() as int) == cores);
    assert forall|cpu: usize| ids.to_set().contains(cpu) <==> vcache_union(caches).contains(
        cpu,
    ) by {
        if ids.contains(cpu) {
            lemma_first_cache_with(caches, cpu);
        }
    }
}

} // verus!
