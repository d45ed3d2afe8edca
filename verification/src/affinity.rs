//! CPU affinity masks: the set of logical CPUs a process may run on.
use vstd::prelude::*;

verus! {

/// Number of CPUs that an affinity mask can name.
pub const CPU_SETSIZE: usize = 1024;

/// A set of logical CPU ids below [`CPU_SETSIZE`].
#[derive(Clone, Debug)]
pub struct CpuMask {
    bits: Vec<bool>,
}

impl View for CpuMask {
    type V = Set<usize>;

    closed spec fn view(&self) -> Set<usize> {
        Set::new(|cpu: usize| cpu < CPU_SETSIZE && cpu < self.bits@.len() && self.bits@[cpu as int])
    }
}

impl CpuMask {
    /// The empty mask.
    pub fn new() -> (mask: CpuMask)
        ensures
            mask@ == Set::<usize>::empty(),
    {
        let mask = CpuMask { bits: Vec::new() };
        mask
    }

    /// Adds `cpu` to the mask.
    pub fn set(&mut self, cpu: usize)
        requires
            cpu < CPU_SETSIZE,
        ensures
            final(self)@ == old(self)@.insert(cpu),
    {
        while self.bits.len() <= cpu
            invariant
                self.bits@.len() >= old(self).bits@.len(),
                forall|k: int| 0 <= k < old(self).bits@.len() ==> self.bits@[k] == old(self).bits@[k],
                forall|k: int| old(self).bits@.len() <= k < self.bits@.len() ==> !self.bits@[k],
            decreases cpu + 1 - self.bits@.len(),
        {
            self.bits.push(false);
        }
        self.bits.set(cpu, true);
    }

    /// Tells whether the mask holds `cpu`.
    pub fn is_set(&self, cpu: usize) -> (b: bool)
        ensures
            b == self@.contains(cpu),
    {
        cpu < CPU_SETSIZE && cpu < self.bits.len() && self.bits[cpu]
    }

    /// The mask that holds exactly `cores`.
    pub fn from_cores(cores: &[usize]) -> (mask: CpuMask)
        requires
            maskable(cores@),
        ensures
            mask@ == cores@.to_set(),
    {
        let mut mask = CpuMask::new();
        let mut i: usize = 0;
        while i < cores.len()
            invariant
                i <= cores@.len(),
                maskable(cores@),
                mask@ == cores@.subrange(0, i as int).to_set(),
            decreases cores.len() - i,
        {
            mask.set(cores[i]);
            proof {
                let before = cores@.subrange(0, i as int);
                let after = cores@.subrange(0, i + 1);
                assert forall|x: usize| after.to_set().contains(x) <==> before.to_set().insert(
                    cores@[i as int],
                ).contains(x) by {
                    if x == cores@[i as int] {
                        assert(after[i as int] == x);
                    }
                }
            }
            i += 1;
        }
        proof {
            assert(cores@.subrange(0, i as int) == cores@);
        }
        mask
    }
}

/// Whether an affinity mask can hold every one of `cores`.
pub open spec fn maskable(cores: Seq<usize>) -> bool {
    forall|i: int| 0 <= i < cores.len() ==> cores[i] < CPU_SETSIZE
}

/// Tells whether an affinity mask can hold every one of `cores`.
pub fn fits_mask(cores: &[usize]) -> (b: bool)
    ensures
        b == maskable(cores@),
{
    let mut i: usize = 0;
    while i < cores.len()
        invariant
            i <= cores@.len(),
            forall|k: int| 0 <= k < i ==> cores@[k] < CPU_SETSIZE,
        decreases cores.len() - i,
    {
        if cores[i] >= CPU_SETSIZE {
            return false;
        }
        i += 1;
    }
    true
}

/// The CPUs below `limit` that `mask` holds, in ascending order.
pub open spec fn masked_cores(mask: Set<usize>, limit: nat) -> Seq<usize> {
    Seq::new(limit, |i: int| i as usize).filter(|cpu: usize| mask.contains(cpu))
}

/// The affinity that is reported for a process on a host with
/// `logical_cores` CPUs: the CPUs of the mask that the host has, and every
/// CPU of the host where the mask could not be had.
pub open spec fn affinity_of(mask: Option<Set<usize>>, logical_cores: nat) -> Seq<usize> {
    match mask {
        Some(m) => masked_cores(
            m,
            if logical_cores <= CPU_SETSIZE {
                logical_cores
            } else {
                CPU_SETSIZE as nat
            },
        ),
        None => Seq::new(logical_cores, |i: int| i as usize),
    }
}

/// The set that a mask holds, where there is a mask.
pub open spec fn mask_set(mask: Option<&CpuMask>) -> Option<Set<usize>> {
    match mask {
        Some(m) => Some(m@),
        None => None,
    }
}

/// Lists the CPUs that a process may run on, in ascending order, from the
/// affinity mask that the kernel reported for it. `None` stands for a mask
/// that could not be read, on any platform; the answer is then every CPU of
/// the host, which restricts nothing.
pub fn get_process_affinity(mask: Option<&CpuMask>, logical_cores: usize) -> (cores: Vec<usize>)
    ensures
        cores@ == affinity_of(mask_set(mask), logical_cores as nat),
{
    let mut cores: Vec<usize> = Vec::new();
    match mask {
        Some(m) => {
            let limit: usize = if logical_cores <= CPU_SETSIZE {
                logical_cores
            } else {
                CPU_SETSIZE
            };
            let ghost all = Seq::new(limit as nat, |i: int| i as usize);
            let ghost pred = |cpu: usize| m@.contains(cpu);
            let mut i: usize = 0;
            proof {
                assert(all.subrange(0, 0).filter(pred) =~= Seq::<usize>::empty()) by {
                    reveal(Seq::filter);
                }
            }
            while i < limit
                invariant
                    i <= limit,
                    all == Seq::new(limit as nat, |i: int| i as usize),
                    pred == |cpu: usize| m@.contains(cpu),
                    cores@ == all.subrange(0, i as int).filter(pred),
                decreases limit - i,
            {
                proof {
                    all.subrange(0, i as int).lemma_filter_push(i, pred);
                    assert(all.subrange(0, i as int).push(i) == all.subrange(0, i + 1));
                }
                if m.is_set(i) {
                    cores.push(i);
                }
                i += 1;
            }
            proof {
                assert(all.subrange(0, limit as int) == all);
            }
        },
        None => {
            let mut i: usize = 0;
            while i < logical_cores
                invariant
                    i <= logical_cores,
                    cores@ == Seq::new(i as nat, |k: int| k as usize),
                decreases logical_cores - i,
            {
                cores.push(i);
                i += 1;
            }
        },
    }
    cores
}

} // verus!
