//! CPU topology discovery, process bookkeeping and scheduling control for
//! Linux hosts.
//!
//! The library is the part of a system monitor that decides and computes. It
//! works on plain values: the text of kernel files, samples of load, the
//! kernel's answers to scheduling queries. Whoever uses it reads the files,
//! takes the samples and makes the kernel calls that the library describes.
//!
//! * [`text`] and [`sysfs`] read the text formats of `/sys` and `/proc`.
//! * [`cpu_info`] builds the snapshot of the processor and refreshes it.
//! * [`affinity`] holds affinity masks.
//! * [`scheduler`] holds the scheduling policies, the presets, and the runs
//!   of kernel calls that apply them.
//! * [`process`] keeps the list of processes, sorted and filtered.
//! * [`ring_buffer`] keeps the usage history.
//! * [`panels`] holds the state of the user interface and the refresh clock.
pub mod affinity;
pub mod cpu_info;
pub mod panels;
pub mod process;
pub mod ring_buffer;
pub mod scheduler;
pub mod sysfs;
pub mod text;
