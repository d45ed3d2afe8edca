use hexin::panels::{
    to_kernel_pid, CpuMonitorPanel, ProcessListPanel, RefreshClock, RefreshDue, SchedulerPanel, Tab,
    PROCESS_REFRESH_MS,
};
use hexin::process::{ProcessInfo, ProcessSample};
use hexin::scheduler::{ControlRun, SchedulePolicy, SysCall, SysReply};

fn process(pid: u32, policy: i32, nice: i32) -> ProcessInfo {
    let sample = ProcessSample {
        name: format!("p{}", pid),
        cmd: vec![],
        cpu_usage_centipercent: 0,
        memory: 0,
        status: "Run".to_string(),
        affinity_mask: None,
        policy: Some(policy),
        stat: Some(format!("a b c d e f g h i j k l m n o p q r {}", nice)),
    };
    ProcessInfo::from_process(pid, &sample, 4)
}

fn describe(call: &SysCall) -> String {
    match call {
        SysCall::SetScheduler { pid, policy, priority } => {
            format!("sched({},{},{})", pid, policy, priority)
        }
        SysCall::SetNice { pid, nice } => format!("nice({},{})", pid, nice),
        SysCall::SetAffinity { pid, mask } => {
            let cpus: Vec<String> =
                (0..1024usize).filter(|c| mask.is_set(*c)).map(|c| c.to_string()).collect();
            format!("affinity({},[{}])", pid, cpus.join(","))
        }
    }
}

fn drive(run: &mut ControlRun, replies: &[SysReply]) -> Vec<String> {
    let mut made = Vec::new();
    let mut next = 0;
    loop {
        let text = match run.next_call() {
            Some(call) => describe(call),
            None => break,
        };
        made.push(text);
        run.record(&replies[next]);
        next += 1;
    }
    made
}

fn refused(text: &str) -> SysReply {
    SysReply::Failed(text.to_string())
}

#[test]
fn tabs_are_distinct() {
    assert_ne!(Tab::CpuMonitor, Tab::ProcessList);
    assert_ne!(Tab::ProcessList, Tab::Scheduler);
    assert_eq!(Tab::Scheduler, Tab::Scheduler);
}

#[test]
fn new_panels_have_nothing_selected() {
    assert_eq!(CpuMonitorPanel::new().selected_core, None);
    let list = ProcessListPanel::new();
    assert_eq!(list.selected_pid, None);
    assert_eq!(list.editing_affinity, None);
    assert!(list.affinity_selection.is_empty());
    assert_eq!(list.error_message, None);
    let panel = SchedulerPanel::new(&[0, 1], 4);
    assert_eq!(panel.selected_pid, None);
    assert_eq!(panel.editing_policy, SchedulePolicy::Other);
    assert_eq!(panel.editing_priority, 0);
    assert_eq!(panel.presets.len(), 6);
    assert_eq!(panel.presets[5].affinity_cores, Some(vec![2, 3]));
    assert_eq!(panel.pid_input, "");
    assert_eq!(panel.error_message, None);
    assert_eq!(panel.success_message, None);
    assert_eq!(SchedulerPanel::new(&[], 4).presets.len(), 4);
}

#[test]
fn default_panels_are_new_panels() {
    assert_eq!(CpuMonitorPanel::default().selected_core, None);
    let list = ProcessListPanel::default();
    assert_eq!(list.selected_pid, None);
    assert_eq!(list.editing_affinity, None);
    assert!(list.affinity_selection.is_empty());
    assert_eq!(list.error_message, None);
}

#[test]
fn clock_tells_what_is_due() {
    let ms = 1_000_000u64;
    let mut clock = RefreshClock::new(500, 10 * ms);
    assert_eq!(clock.tick(10 * ms), RefreshDue { cpu: false, processes: false });
    assert_eq!(clock.tick(509 * ms + 999_999), RefreshDue { cpu: false, processes: false });
    assert_eq!(clock.tick(510 * ms), RefreshDue { cpu: true, processes: false });
    assert_eq!(clock.last_cpu, 510 * ms);
    assert_eq!(clock.last_process, 10 * ms);
    assert_eq!(clock.tick(1009 * ms), RefreshDue { cpu: false, processes: false });
    assert_eq!(clock.tick(1010 * ms), RefreshDue { cpu: true, processes: true });
    assert_eq!(clock.last_cpu, 1010 * ms);
    assert_eq!(clock.last_process, 1010 * ms);
    assert_eq!(clock.tick(5000 * ms), RefreshDue { cpu: true, processes: true });
    assert_eq!(clock.cpu_interval_ms, 500);
    assert_eq!(PROCESS_REFRESH_MS, 1000);
}

#[test]
fn clock_with_unusual_times() {
    let mut clock = RefreshClock::new(0, 100);
    assert_eq!(clock.tick(100), RefreshDue { cpu: true, processes: false });
    assert_eq!(clock.tick(50), RefreshDue { cpu: true, processes: false });
    assert_eq!(clock.last_cpu, 50);
    let mut slow = RefreshClock::new(u64::MAX, 0);
    assert_eq!(slow.tick(u64::MAX), RefreshDue { cpu: false, processes: true });
    let mut back = RefreshClock::new(1, 5_000_000);
    assert_eq!(back.tick(1_000_000), RefreshDue { cpu: false, processes: false });
    assert_eq!(back.last_cpu, 5_000_000);
}

#[test]
fn kernel_pid_of_a_pid() {
    assert_eq!(to_kernel_pid(0), 0);
    assert_eq!(to_kernel_pid(4242), 4242);
    assert_eq!(to_kernel_pid(i32::MAX as u32), i32::MAX);
    assert_eq!(to_kernel_pid(i32::MAX as u32 + 1), i32::MIN);
    assert_eq!(to_kernel_pid(u32::MAX), -1);
    for pid in [0u32, 1, 77, 0x7FFF_FFFF, 0x8000_0000, 0x8000_0001, 0xFFFF_FFFE, 0xFFFF_FFFF] {
        assert_eq!(to_kernel_pid(pid), pid as i32);
    }
}

#[test]
fn affinity_is_written_for_the_table() {
    let panel = ProcessListPanel::new();
    assert_eq!(panel.format_affinity(&[0, 1, 2, 3], 4), "全部");
    assert_eq!(panel.format_affinity(&[], 0), "全部");
    assert_eq!(panel.format_affinity(&[], 4), "");
    assert_eq!(panel.format_affinity(&[2], 4), "2");
    assert_eq!(panel.format_affinity(&[0, 2], 4), "0,2");
    assert_eq!(panel.format_affinity(&[0, 10, 200, 3000], 8), "0,10,200,3000");
    assert_eq!(panel.format_affinity(&[0, 1, 2, 3, 4], 8), "5核");
    assert_eq!(panel.format_affinity(&(0..12).collect::<Vec<usize>>(), 16), "12核");
    assert_eq!(panel.format_affinity(&[5, 6, 7, 8, 9], 5), "全部");
}

#[test]
fn affinity_editor_starts_from_the_current_affinity() {
    let mut panel = ProcessListPanel::new();
    panel.selected_pid = Some(3);
    panel.begin_affinity_edit(77, &[1, 3, 9, 3], 4);
    assert_eq!(panel.editing_affinity, Some(77));
    assert_eq!(panel.affinity_selection, vec![false, true, false, true]);
    assert_eq!(panel.selected_pid, Some(3));
    assert_eq!(panel.selected_cores(), vec![1, 3]);
    panel.begin_affinity_edit(78, &[], 2);
    assert_eq!(panel.editing_affinity, Some(78));
    assert_eq!(panel.affinity_selection, vec![false, false]);
    assert!(panel.selected_cores().is_empty());
    panel.begin_affinity_edit(79, &[0], 0);
    assert!(panel.affinity_selection.is_empty());
}

#[test]
fn committing_an_empty_selection_is_rejected() {
    let mut panel = ProcessListPanel::new();
    panel.begin_affinity_edit(77, &[], 4);
    assert!(panel.commit_affinity(77).is_none());
    assert_eq!(panel.error_message, Some("至少选择一个核心".to_string()));
    assert_eq!(panel.editing_affinity, Some(77));
}

#[test]
fn committing_a_selection_gives_the_call() {
    let mut panel = ProcessListPanel::new();
    panel.begin_affinity_edit(77, &[0, 1, 2, 3], 4);
    panel.affinity_selection[1] = false;
    panel.affinity_selection[3] = false;
    let call = panel.commit_affinity(77).unwrap();
    assert_eq!(describe(&call), "affinity(77,[0,2])");
    assert_eq!(panel.error_message, None);
    assert_eq!(panel.editing_affinity, Some(77));
    panel.affinity_applied(call.outcome(&refused("EPERM")));
    assert_eq!(panel.error_message, Some("设置亲和性失败: EPERM (可能需要 root 权限)".to_string()));
    assert_eq!(panel.editing_affinity, Some(77));
    panel.affinity_applied(call.outcome(&SysReply::Done));
    assert_eq!(panel.error_message, None);
    assert_eq!(panel.editing_affinity, None);
}

#[test]
fn selecting_a_process_fills_the_editor() {
    let mut panel = SchedulerPanel::new(&[], 4);
    panel.error_message = Some("old".to_string());
    panel.select_process(&process(4321, 1, 0));
    assert_eq!(panel.selected_pid, Some(4321));
    assert_eq!(panel.pid_input, "4321");
    assert_eq!(panel.editing_policy, SchedulePolicy::Fifo);
    assert_eq!(panel.editing_priority, 0);
    assert_eq!(panel.error_message, Some("old".to_string()));
    panel.select_process(&process(7, 0, -5));
    assert_eq!(panel.pid_input, "7");
    assert_eq!(panel.editing_policy, SchedulePolicy::Other);
    assert_eq!(panel.editing_priority, -5);
}

#[test]
fn entering_a_pid_selects_it() {
    let a = process(10, 0, 3);
    let b = process(20, 5, 0);
    let again = process(20, 1, 9);
    let listed = vec![&a, &b, &again];
    let mut panel = SchedulerPanel::new(&[], 4);
    panel.pid_input = "20".to_string();
    panel.pid_entered(&listed);
    assert_eq!(panel.selected_pid, Some(20));
    assert_eq!(panel.editing_policy, SchedulePolicy::Idle);
    assert_eq!(panel.editing_priority, 0);
    panel.pid_input = "10".to_string();
    panel.pid_entered(&listed);
    assert_eq!(panel.selected_pid, Some(10));
    assert_eq!((panel.editing_policy, panel.editing_priority), (SchedulePolicy::Other, 3));
    panel.pid_input = "999".to_string();
    panel.pid_entered(&listed);
    assert_eq!(panel.selected_pid, Some(999));
    assert_eq!((panel.editing_policy, panel.editing_priority), (SchedulePolicy::Other, 3));
    assert_eq!(panel.pid_input, "999");
}

#[test]
fn entering_text_that_is_no_pid_changes_nothing() {
    let a = process(10, 1, 3);
    let listed = vec![&a];
    let mut panel = SchedulerPanel::new(&[], 4);
    panel.selected_pid = Some(5);
    for input in ["", "abc", " 10", "10 ", "-10", "4294967296", "1.0"] {
        panel.pid_input = input.to_string();
        panel.pid_entered(&listed);
        assert_eq!(panel.selected_pid, Some(5), "{:?}", input);
        assert_eq!(panel.editing_policy, SchedulePolicy::Other);
        assert_eq!(panel.editing_priority, 0);
    }
    panel.pid_input = "+10".to_string();
    panel.pid_entered(&listed);
    assert_eq!(panel.selected_pid, Some(10));
    assert_eq!(panel.editing_policy, SchedulePolicy::Fifo);
}

#[test]
fn applying_the_edited_policy() {
    let mut panel = SchedulerPanel::new(&[], 4);
    panel.editing_policy = SchedulePolicy::Fifo;
    panel.editing_priority = 40;
    let mut run = panel.apply_scheduler(12);
    assert_eq!(drive(&mut run, &[SysReply::Done]), vec!["sched(12,1,40)"]);
    panel.error_message = Some("before".to_string());
    panel.scheduler_applied(&run);
    assert_eq!(panel.success_message, Some("调度策略已应用".to_string()));
    assert_eq!(panel.error_message, None);

    panel.editing_policy = SchedulePolicy::Batch;
    panel.editing_priority = 5;
    let mut run = panel.apply_scheduler(12);
    assert_eq!(drive(&mut run, &[SysReply::Done, SysReply::Done]), vec!["sched(12,3,0)", "nice(12,5)"]);
    panel.scheduler_applied(&run);
    assert_eq!(panel.success_message, Some("调度策略已应用".to_string()));

    panel.editing_priority = 0;
    let mut run = panel.apply_scheduler(12);
    assert_eq!(drive(&mut run, &[SysReply::Done]), vec!["sched(12,3,0)"]);
}

#[test]
fn a_refused_policy_clears_the_confirmation() {
    let mut panel = SchedulerPanel::new(&[], 4);
    panel.success_message = Some("earlier".to_string());
    panel.editing_policy = SchedulePolicy::Fifo;
    panel.editing_priority = 40;
    let mut run = panel.apply_scheduler(12);
    assert_eq!(drive(&mut run, &[refused("EPERM")]), vec!["sched(12,1,40)"]);
    panel.scheduler_applied(&run);
    assert_eq!(
        panel.error_message,
        Some("设置调度策略失败: EPERM (可能需要 root 权限或 CAP_SYS_NICE)".to_string())
    );
    assert_eq!(panel.success_message, None);
}

#[test]
fn a_refused_niceness_leaves_the_confirmation() {
    let mut panel = SchedulerPanel::new(&[], 4);
    panel.success_message = Some("earlier".to_string());
    panel.editing_policy = SchedulePolicy::Other;
    panel.editing_priority = -5;
    let mut run = panel.apply_scheduler(12);
    assert_eq!(drive(&mut run, &[SysReply::Done, refused("EACCES")]), vec!["sched(12,0,0)", "nice(12,-5)"]);
    panel.scheduler_applied(&run);
    assert_eq!(panel.error_message, Some("设置 nice 值失败: EACCES".to_string()));
    assert_eq!(panel.success_message, Some("earlier".to_string()));
}

#[test]
fn a_run_that_is_not_over_changes_no_message() {
    let mut panel = SchedulerPanel::new(&[], 4);
    panel.success_message = Some("s".to_string());
    panel.error_message = Some("e".to_string());
    let run = panel.apply_scheduler(12);
    panel.scheduler_applied(&run);
    let preset = panel.presets[0].clone();
    panel.preset_applied(&preset, &run);
    assert_eq!(panel.success_message, Some("s".to_string()));
    assert_eq!(panel.error_message, Some("e".to_string()));
}

#[test]
fn applying_a_preset() {
    let mut panel = SchedulerPanel::new(&[0, 1], 4);
    let preset = panel.presets[4].clone();
    let mut run = panel.apply_preset(33, &preset);
    let made = drive(&mut run, &[SysReply::Done, SysReply::Done, SysReply::Done]);
    assert_eq!(made, vec!["sched(33,0,0)", "nice(33,-5)", "affinity(33,[0,1])"]);
    panel.error_message = Some("before".to_string());
    panel.preset_applied(&preset, &run);
    assert_eq!(panel.success_message, Some("预设 '游戏模式 (V-Cache)' 已应用".to_string()));
    assert_eq!(panel.error_message, None);
}

#[test]
fn a_preset_whose_affinity_step_fails() {
    let mut panel = SchedulerPanel::new(&[0, 1], 4);
    panel.success_message = Some("earlier".to_string());
    let preset = panel.presets[4].clone();
    let mut run = panel.apply_preset(33, &preset);
    let made = drive(&mut run, &[SysReply::Done, SysReply::Done, refused("EINVAL")]);
    assert_eq!(made, vec!["sched(33,0,0)", "nice(33,-5)", "affinity(33,[0,1])"]);
    assert_eq!(run.completed(), 2);
    panel.preset_applied(&preset, &run);
    assert_eq!(
        panel.error_message,
        Some("设置亲和性失败: 设置亲和性失败: EINVAL (可能需要 root 权限)".to_string())
    );
    assert_eq!(panel.success_message, Some("earlier".to_string()));
}

#[test]
fn a_preset_whose_earlier_steps_fail() {
    let mut panel = SchedulerPanel::new(&[0, 1], 4);
    panel.success_message = Some("earlier".to_string());
    let preset = panel.presets[4].clone();
    let mut run = panel.apply_preset(33, &preset);
    assert_eq!(drive(&mut run, &[SysReply::Done, refused("EACCES")]).len(), 2);
    panel.preset_applied(&preset, &run);
    assert_eq!(panel.error_message, Some("设置 nice 值失败: 设置 nice 值失败: EACCES".to_string()));
    assert_eq!(panel.success_message, Some("earlier".to_string()));

    let mut run = panel.apply_preset(33, &preset);
    assert_eq!(drive(&mut run, &[SysReply::Unsupported]).len(), 1);
    panel.preset_applied(&preset, &run);
    assert_eq!(panel.error_message, Some("调度策略设置仅支持 Linux".to_string()));
    assert_eq!(panel.success_message, None);
}
