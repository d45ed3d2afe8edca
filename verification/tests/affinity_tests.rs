use hexin::affinity::{fits_mask, get_process_affinity, CpuMask, CPU_SETSIZE};

#[test]
fn a_new_mask_is_empty() {
    let mask = CpuMask::new();
    for cpu in 0..2048usize {
        assert!(!mask.is_set(cpu));
    }
}

#[test]
fn set_adds_a_cpu() {
    let mut mask = CpuMask::new();
    mask.set(3);
    mask.set(1023);
    mask.set(3);
    mask.set(0);
    for cpu in 0..2048usize {
        assert_eq!(mask.is_set(cpu), cpu == 0 || cpu == 3 || cpu == 1023);
    }
    assert!(!mask.is_set(usize::MAX));
}

#[test]
fn mask_size() {
    assert_eq!(CPU_SETSIZE, 1024);
}

#[test]
fn affinity_lists_the_cpus_of_the_mask_that_the_host_has() {
    let mask = CpuMask::from_cores(&[0, 2, 5, 9]);
    assert_eq!(get_process_affinity(Some(&mask), 8), vec![0, 2, 5]);
    assert_eq!(get_process_affinity(Some(&mask), 16), vec![0, 2, 5, 9]);
    assert_eq!(get_process_affinity(Some(&mask), 0), Vec::<usize>::new());
    assert_eq!(get_process_affinity(Some(&CpuMask::new()), 8), Vec::<usize>::new());
}

#[test]
fn affinity_without_a_mask_is_every_cpu() {
    assert_eq!(get_process_affinity(None, 4), vec![0, 1, 2, 3]);
    assert_eq!(get_process_affinity(None, 0), Vec::<usize>::new());
    assert_eq!(get_process_affinity(None, 2000).len(), 2000);
}

#[test]
fn affinity_on_a_host_larger_than_the_mask() {
    let all: Vec<usize> = (0..1024).collect();
    let mask = CpuMask::from_cores(&all);
    assert_eq!(get_process_affinity(Some(&mask), 2000), all);
    let top = CpuMask::from_cores(&[1023]);
    assert_eq!(get_process_affinity(Some(&top), 5000), vec![1023]);
}

#[test]
fn cores_fit_a_mask_below_its_size() {
    assert!(fits_mask(&[]));
    assert!(fits_mask(&[0, 5, 1023]));
    assert!(!fits_mask(&[1024]));
    assert!(!fits_mask(&[0, 1, usize::MAX]));
    assert!(!fits_mask(&[2000, 1]));
}
