//! A bounded first-in first-out buffer, and the usage history that is kept
//! in such buffers.
use std::collections::vec_deque::Iter;
use std::collections::VecDeque;
use vstd::prelude::*;
use vstd::std_specs::iter::IteratorSpec;

verus! {

/// The contents of a buffer of capacity `capacity` after `value` is pushed
/// onto contents `s`: a full buffer first loses its oldest element.
pub open spec fn pushed<T>(s: Seq<T>, capacity: nat, value: T) -> Seq<T> {
    if s.len() >= capacity && s.len() > 0 {
        s.drop_first().push(value)
    } else {
        s.push(value)
    }
}

/// The most elements that a buffer of capacity `capacity` ever holds. A
/// buffer of capacity 0 holds the last element pushed.
pub open spec fn bound_of(capacity: nat) -> nat {
    if capacity == 0 {
        1
    } else {
        capacity
    }
}

/// A buffer that keeps the most recent elements pushed, oldest first.
#[derive(Clone, Debug)]
pub struct RingBuffer<T> {
    data: VecDeque<T>,
    capacity: usize,
}

impl<T> View for RingBuffer<T> {
    type V = Seq<T>;

    closed spec fn view(&self) -> Seq<T> {
        self.data@
    }
}

impl<T: Clone> RingBuffer<T> {
    /// The capacity that the buffer was made with.
    pub closed spec fn spec_capacity(&self) -> nat {
        self.capacity as nat
    }

    /// The buffer holds no more than its bound.
    pub open spec fn wf(&self) -> bool {
        self@.len() <= bound_of(self.spec_capacity())
    }

    /// An empty buffer of the given capacity.
    pub fn new(capacity: usize) -> (buffer: Self)
        ensures
            buffer@ == Seq::<T>::empty(),
            buffer.spec_capacity() == capacity,
            buffer.wf(),
    {
        Self { data: VecDeque::with_capacity(capacity), capacity }
    }

    /// Appends `value`; a full buffer drops its oldest element to make room.
    pub fn push(&mut self, value: T)
        ensures
            final(self)@ == pushed(old(self)@, old(self).spec_capacity(), value),
            final(self).spec_capacity() == old(self).spec_capacity(),
            old(self).wf() ==> final(self).wf(),
    {
        if self.data.len() >= self.capacity {
            self.data.pop_front();
        }
        self.data.push_back(value);
    }

    /// References to the elements, oldest first.
    pub fn as_slice(&self) -> (items: Vec<&T>)
        ensures
            items@.len() == self@.len(),
            forall|i: int| 0 <= i < self@.len() ==> *items@[i] == self@[i],
    {
        let mut items: Vec<&T> = Vec::new();
        let mut i: usize = 0;
        while i < self.data.len()
            invariant
                i <= self.data@.len(),
                items@.len() == i,
                forall|k: int| 0 <= k < i ==> *items@[k] == self.data@[k],
            decreases self.data.len() - i,
        {
            items.push(&self.data[i]);
            i += 1;
        }
        items
    }

    /// Copies of the elements, oldest first.
    pub fn to_vec(&self) -> (items: Vec<T>)
        ensures
            items@.len() == self@.len(),
            forall|i: int| 0 <= i < self@.len() ==> cloned(self@[i], #[trigger] items@[i]),
    {
        let mut items: Vec<T> = Vec::new();
        let mut i: usize = 0;
        while i < self.data.len()
            invariant
                i <= self.data@.len(),
                items@.len() == i,
                forall|k: int| 0 <= k < i ==> cloned(self.data@[k], #[trigger] items@[k]),
            decreases self.data.len() - i,
        {
            items.push(self.data[i].clone());
            i += 1;
        }
        items
    }

    /// Number of elements held.
    pub fn len(&self) -> (n: usize)
        ensures
            n == self@.len(),
    {
        self.data.len()
    }

    /// Tells whether the buffer holds nothing.
    pub fn is_empty(&self) -> (b: bool)
        ensures
            b == (self@.len() == 0),
    {
        self.data.len() == 0
    }

    /// The capacity that the buffer was made with.
    pub fn capacity(&self) -> (n: usize)
        ensures
            n == self.spec_capacity(),
    {
        self.capacity
    }

    /// Drops every element; the capacity stays.
    pub fn clear(&mut self)
        ensures
            final(self)@ == Seq::<T>::empty(),
            final(self).spec_capacity() == old(self).spec_capacity(),
            final(self).wf(),
    {
        self.data.clear();
    }

    /// The element pushed last.
    pub fn latest(&self) -> (item: Option<&T>)
        ensures
            item == if self@.len() > 0 {
                Some(&self@.last())
            } else {
                None
            },
    {
        let n: usize = self.data.len();
        if n > 0 {
            Some(&self.data[n - 1])
        } else {
            None
        }
    }

    /// The oldest element held.
    pub fn oldest(&self) -> (item: Option<&T>)
        ensures
            item == if self@.len() > 0 {
                Some(&self@.first())
            } else {
                None
            },
    {
        if self.data.len() > 0 {
            Some(&self.data[0])
        } else {
            None
        }
    }

    /// An iterator over the elements, oldest first.
    pub fn iter(&self) -> (it: Iter<'_, T>)
        ensures
            it.remaining() == self@.as_ref(),
    {
        self.data.iter()
    }
}

/// Mathematical content of a [`CpuHistory`].
pub struct HistoryModel {
    /// The usage samples of each core, oldest first.
    pub cores: Seq<Seq<u32>>,
    /// The total usage samples, oldest first.
    pub total: Seq<u32>,
    /// The times of the samples, oldest first.
    pub timestamps: Seq<u64>,
    /// Number of data points that are kept.
    pub capacity: nat,
}

/// The pairs of the elements of `times` and `usages` at equal indices, as
/// far as both reach.
pub open spec fn zip_points(times: Seq<u64>, usages: Seq<u32>) -> Seq<(u64, u32)> {
    Seq::new(
        if times.len() <= usages.len() {
            times.len()
        } else {
            usages.len()
        },
        |i: int| (times[i], usages[i]),
    )
}

impl HistoryModel {
    /// The history after a data point is added: each core that has both a
    /// buffer and a sample takes its sample, and the total and the time are
    /// taken in any case.
    pub open spec fn push(self, core_usages: Seq<u32>, total_usage: u32, timestamp: u64)
        -> HistoryModel {
        HistoryModel {
            cores: Seq::new(
                self.cores.len(),
                |i: int|
                    if i < core_usages.len() {
                        pushed(self.cores[i], self.capacity, core_usages[i])
                    } else {
                        self.cores[i]
                    },
            ),
            total: pushed(self.total, self.capacity, total_usage),
            timestamps: pushed(self.timestamps, self.capacity, timestamp),
            capacity: self.capacity,
        }
    }
}

/// The recent usage of every core and of the whole processor, with the time
/// of each data point. Usage is in hundredths of a percent and time in
/// milliseconds.
#[derive(Clone, Debug)]
pub struct CpuHistory {
    core_history: Vec<RingBuffer<u32>>,
    total_history: RingBuffer<u32>,
    timestamps: RingBuffer<u64>,
}

impl View for CpuHistory {
    type V = HistoryModel;

    closed spec fn view(&self) -> HistoryModel {
        HistoryModel {
            cores: Seq::new(self.core_history@.len(), |i: int| self.core_history@[i]@),
            total: self.total_history@,
            timestamps: self.timestamps@,
            capacity: self.total_history.spec_capacity(),
        }
    }
}

/// Copies the elements of a buffer of numbers.
fn copy_u32(buffer: &RingBuffer<u32>) -> (items: Vec<u32>)
    ensures
        items@ == buffer@,
{
    let items = buffer.to_vec();
    items
}

/// Copies the elements of a buffer of times.
fn copy_u64(buffer: &RingBuffer<u64>) -> (items: Vec<u64>)
    ensures
        items@ == buffer@,
{
    let items = buffer.to_vec();
    items
}

/// Pairs times and usages index by index.
fn zip(times: &Vec<u64>, usages: &Vec<u32>) -> (points: Vec<(u64, u32)>)
    ensures
        points@ == zip_points(times@, usages@),
{
    let n: usize = if times.len() <= usages.len() {
        times.len()
    } else {
        usages.len()
    };
    let mut points: Vec<(u64, u32)> = Vec::new();
    let mut i: usize = 0;
    while i < n
        invariant
            i <= n,
            n <= times@.len(),
            n <= usages@.len(),
            points@.len() == i,
            forall|k: int| 0 <= k < i ==> points@[k] == (times@[k], usages@[k]),
        decreases n - i,
    {
        points.push((times[i], usages[i]));
        i += 1;
    }
    points
}

impl CpuHistory {
    /// Whether every buffer of the history has the same capacity.
    pub closed spec fn wf(&self) -> bool {
        &&& self.timestamps.spec_capacity() == self.total_history.spec_capacity()
        &&& forall|i: int|
            0 <= i < self.core_history@.len() ==> (#[trigger] self.core_history@[i]).spec_capacity()
                == self.total_history.spec_capacity()
    }

    /// An empty history for `core_count` cores that keeps `history_size`
    /// data points.
    pub fn new(core_count: usize, history_size: usize) -> (history: CpuHistory)
        ensures
            history.wf(),
            history@ == (HistoryModel {
                cores: Seq::new(core_count as nat, |i: int| Seq::<u32>::empty()),
                total: Seq::<u32>::empty(),
                timestamps: Seq::<u64>::empty(),
                capacity: history_size as nat,
            }),
    {
        let mut core_history: Vec<RingBuffer<u32>> = Vec::new();
        let mut i: usize = 0;
        while i < core_count
            invariant
                i <= core_count,
                core_history@.len() == i,
                forall|k: int|
                    0 <= k < i ==> (#[trigger] core_history@[k])@ == Seq::<u32>::empty()
                        && core_history@[k].spec_capacity() == history_size,
            decreases core_count - i,
        {
            core_history.push(RingBuffer::new(history_size));
            i += 1;
        }
        let history = CpuHistory {
            core_history,
            total_history: RingBuffer::new(history_size),
            timestamps: RingBuffer::new(history_size),
        };
        assert(history@.cores =~= Seq::new(core_count as nat, |i: int| Seq::<u32>::empty()));
        history
    }

    /// Adds a data point: the usage of each core, the total usage and the
    /// time. Samples of cores that the history does not know are dropped.
    pub fn push(&mut self, core_usages: &[u32], total_usage: u32, timestamp: u64)
        requires
            old(self).wf(),
        ensures
            final(self).wf(),
            final(self)@ == old(self)@.push(core_usages@, total_usage, timestamp),
    {
        let n: usize = if core_usages.len() <= self.core_history.len() {
            core_usages.len()
        } else {
            self.core_history.len()
        };
        let ghost capacity = self.total_history.spec_capacity();
        let mut i: usize = 0;
        while i < n
            invariant
                i <= n,
                n <= core_usages@.len(),
                n <= self.core_history@.len(),
                self.core_history@.len() == old(self).core_history@.len(),
                self.total_history == old(self).total_history,
                self.timestamps == old(self).timestamps,
                capacity == old(self).total_history.spec_capacity(),
                forall|k: int|
                    0 <= k < self.core_history@.len() ==> (#[trigger] self.core_history@[k]).spec_capacity()
                        == capacity,
                forall|k: int|
                    0 <= k < self.core_history@.len() ==> (#[trigger] self.core_history@[k])@ == (
                    if k < i {
                        pushed(old(self).core_history@[k]@, capacity, core_usages@[k])
                    } else {
                        old(self).core_history@[k]@
                    }),
            decreases n - i,
        {
            self.core_history[i].push(core_usages[i]);
            i += 1;
        }
        self.total_history.push(total_usage);
        self.timestamps.push(timestamp);
        assert(self@.cores =~= old(self)@.push(core_usages@, total_usage, timestamp).cores);
    }

    /// The samples of core `core_id`, oldest first; `None` for a core that
    /// the history does not know.
    pub fn core_history(&self, core_id: usize) -> (samples: Option<Vec<u32>>)
        ensures
            samples.is_some() == (core_id < self@.cores.len()),
            samples.is_some() ==> samples.unwrap()@ == self@.cores[core_id as int],
    {
        if core_id < self.core_history.len() {
            Some(copy_u32(&self.core_history[core_id]))
        } else {
            None
        }
    }

    /// The total usage samples, oldest first.
    pub fn total_history(&self) -> (samples: Vec<u32>)
        ensures
            samples@ == self@.total,
    {
        copy_u32(&self.total_history)
    }

    /// The times of the data points, oldest first.
    pub fn timestamps(&self) -> (times: Vec<u64>)
        ensures
            times@ == self@.timestamps,
    {
        copy_u64(&self.timestamps)
    }

    /// The points `(time, total usage)` of the history, oldest first.
    pub fn plot_data(&self) -> (points: Vec<(u64, u32)>)
        ensures
            points@ == zip_points(self@.timestamps, self@.total),
    {
        let times = copy_u64(&self.timestamps);
        let usages = copy_u32(&self.total_history);
        zip(&times, &usages)
    }

    /// The points `(time, usage)` of core `core_id`, oldest first; empty for
    /// a core that the history does not know.
    pub fn core_plot_data(&self, core_id: usize) -> (points: Vec<(u64, u32)>)
        ensures
            points@ == if core_id < self@.cores.len() {
                zip_points(self@.timestamps, self@.cores[core_id as int])
            } else {
                Seq::empty()
            },
    {
        let times = copy_u64(&self.timestamps);
        if core_id < self.core_history.len() {
            let usages = copy_u32(&self.core_history[core_id]);
            zip(&times, &usages)
        } else {
            Vec::new()
        }
    }

    /// Number of data points held.
    pub fn len(&self) -> (n: usize)
        ensures
            n == self@.total.len(),
    {
        self.total_history.len()
    }

    /// Tells whether the history holds no data point.
    pub fn is_empty(&self) -> (b: bool)
        ensures
            b == (self@.total.len() == 0),
    {
        self.total_history.is_empty()
    }
}

} // verus!
