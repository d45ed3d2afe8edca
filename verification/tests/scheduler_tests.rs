use hexin::affinity::CpuMask;
use hexin::scheduler::{
    complement, get_process_nice, get_rt_priority_range, get_scheduler_info, preset_calls,
    scheduler_calls, set_process_affinity, set_process_nice, set_scheduler, ControlRun,
    SchedulePolicy, SchedulePreset, SysCall, SysReply, SCHED_BATCH, SCHED_FIFO, SCHED_IDLE,
    SCHED_OTHER, SCHED_RR,
};

fn stat_with_nice(nice: &str) -> Option<String> {
    Some(format!(
        "1234 (bash) S 1 1234 1234 34816 1234 4194304 1 2 3 4 5 6 7 8 20 {} 1 0 100 200 300\n",
        nice
    ))
}

fn describe(call: &SysCall) -> String {
    match call {
        SysCall::SetScheduler { pid, policy, priority } => {
            format!("sched({},{},{})", pid, policy, priority)
        }
        SysCall::SetNice { pid, nice } => format!("nice({},{})", pid, nice),
        SysCall::SetAffinity { pid, mask } => {
            let cpus: Vec<String> =
                (0..1024usize).filter(|c| mask.is_set(*c)).map(|c| c.to_string()).collect();
            format!("affinity({},[{}])", pid, cpus.join(","))
        }
    }
}

fn describe_all(calls: &[SysCall]) -> Vec<String> {
    calls.iter().map(describe).collect()
}

fn refused(text: &str) -> SysReply {
    SysReply::Failed(text.to_string())
}

/// Carries out a run against the given replies and returns the calls made.
fn drive(run: &mut ControlRun, replies: &[SysReply]) -> Vec<String> {
    let mut made = Vec::new();
    let mut next = 0;
    loop {
        let text = match run.next_call() {
            Some(call) => describe(call),
            None => break,
        };
        made.push(text);
        run.record(&replies[next]);
        next += 1;
    }
    made
}

#[test]
fn policies_have_the_kernel_numbers() {
    assert_eq!(SchedulePolicy::Other.to_raw(), 0);
    assert_eq!(SchedulePolicy::Fifo.to_raw(), 1);
    assert_eq!(SchedulePolicy::RoundRobin.to_raw(), 2);
    assert_eq!(SchedulePolicy::Batch.to_raw(), 3);
    assert_eq!(SchedulePolicy::Idle.to_raw(), 5);
    assert_eq!(SchedulePolicy::Unknown(6).to_raw(), 6);
    assert_eq!((SCHED_OTHER, SCHED_FIFO, SCHED_RR, SCHED_BATCH, SCHED_IDLE), (0, 1, 2, 3, 5));
}

#[test]
fn policy_round_trip() {
    for policy in SchedulePolicy::all() {
        assert_eq!(SchedulePolicy::from_raw(policy.to_raw()), *policy);
    }
    for raw in [-1, 4, 6, 7, 100, i32::MAX, i32::MIN] {
        assert_eq!(SchedulePolicy::from_raw(raw), SchedulePolicy::Unknown(raw));
        assert_eq!(SchedulePolicy::from_raw(raw).to_raw(), raw);
    }
    for raw in -10..20 {
        assert_eq!(SchedulePolicy::from_raw(raw).to_raw(), raw);
    }
}

#[test]
fn all_policies_in_order() {
    assert_eq!(
        SchedulePolicy::all(),
        &[
            SchedulePolicy::Other,
            SchedulePolicy::Batch,
            SchedulePolicy::Idle,
            SchedulePolicy::Fifo,
            SchedulePolicy::RoundRobin,
        ]
    );
}

#[test]
fn only_fifo_and_round_robin_are_realtime() {
    assert!(SchedulePolicy::Fifo.is_realtime());
    assert!(SchedulePolicy::RoundRobin.is_realtime());
    assert!(!SchedulePolicy::Other.is_realtime());
    assert!(!SchedulePolicy::Batch.is_realtime());
    assert!(!SchedulePolicy::Idle.is_realtime());
    assert!(!SchedulePolicy::Unknown(1).is_realtime());
}

#[test]
fn policy_names() {
    assert_eq!(SchedulePolicy::Other.display_name(), "SCHED_OTHER (默认)");
    assert_eq!(SchedulePolicy::Fifo.display_name(), "SCHED_FIFO (实时先进先出)");
    assert_eq!(SchedulePolicy::RoundRobin.display_name(), "SCHED_RR (实时轮转)");
    assert_eq!(SchedulePolicy::Batch.display_name(), "SCHED_BATCH (批处理)");
    assert_eq!(SchedulePolicy::Idle.display_name(), "SCHED_IDLE (空闲)");
    assert_eq!(SchedulePolicy::Unknown(9).display_name(), "未知");
    assert_eq!(SchedulePolicy::Other.short_name(), "OTHER");
    assert_eq!(SchedulePolicy::Fifo.short_name(), "FIFO");
    assert_eq!(SchedulePolicy::RoundRobin.short_name(), "RR");
    assert_eq!(SchedulePolicy::Batch.short_name(), "BATCH");
    assert_eq!(SchedulePolicy::Idle.short_name(), "IDLE");
    assert_eq!(SchedulePolicy::Unknown(9).short_name(), "???");
}

#[test]
fn nice_is_the_19th_field_of_stat() {
    assert_eq!(get_process_nice(&stat_with_nice("0")), 0);
    assert_eq!(get_process_nice(&stat_with_nice("-5")), -5);
    assert_eq!(get_process_nice(&stat_with_nice("19")), 19);
    assert_eq!(get_process_nice(&stat_with_nice("+3")), 3);
    assert_eq!(get_process_nice(&stat_with_nice("x")), 0);
    assert_eq!(get_process_nice(&Some("1 (a) S 1 2 3".to_string())), 0);
    assert_eq!(get_process_nice(&Some(String::new())), 0);
    assert_eq!(get_process_nice(&None), 0);
}

#[test]
fn nice_counts_fields_by_whitespace() {
    let shifted = Some("1 (my proc) S 1 2 3 4 5 6 7 8 9 10 11 12 13 14 15 16 17 18".to_string());
    assert_eq!(get_process_nice(&shifted), 15);
    let exact = Some("a b c d e f g h i j k l m n o p q r -11".to_string());
    assert_eq!(get_process_nice(&exact), -11);
    let short = Some("a b c d e f g h i j k l m n o p q r".to_string());
    assert_eq!(get_process_nice(&short), 0);
}

#[test]
fn scheduler_info_from_the_kernel_answers() {
    assert_eq!(get_scheduler_info(Some(0), &stat_with_nice("-5")), (SchedulePolicy::Other, -5));
    assert_eq!(get_scheduler_info(Some(1), &stat_with_nice("0")), (SchedulePolicy::Fifo, 0));
    assert_eq!(get_scheduler_info(Some(5), &None), (SchedulePolicy::Idle, 0));
    assert_eq!(get_scheduler_info(Some(6), &stat_with_nice("4")), (SchedulePolicy::Unknown(6), 4));
}

#[test]
fn scheduler_info_of_a_failed_query() {
    assert_eq!(get_scheduler_info(Some(-1), &stat_with_nice("-5")), (SchedulePolicy::Unknown(-1), 0));
    assert_eq!(get_scheduler_info(Some(-22), &stat_with_nice("7")), (SchedulePolicy::Unknown(-1), 0));
}

#[test]
fn scheduler_info_without_platform_support() {
    assert_eq!(get_scheduler_info(None, &stat_with_nice("-5")), (SchedulePolicy::Other, 0));
}

#[test]
fn rt_priority_range() {
    assert_eq!(get_rt_priority_range(SchedulePolicy::Fifo, Some((1, 99))), (1, 99));
    assert_eq!(get_rt_priority_range(SchedulePolicy::RoundRobin, Some((2, 50))), (2, 50));
    assert_eq!(get_rt_priority_range(SchedulePolicy::Other, Some((1, 99))), (0, 0));
    assert_eq!(get_rt_priority_range(SchedulePolicy::Batch, Some((0, 0))), (0, 0));
    assert_eq!(get_rt_priority_range(SchedulePolicy::Unknown(1), Some((1, 99))), (0, 0));
    assert_eq!(get_rt_priority_range(SchedulePolicy::Other, None), (1, 99));
    assert_eq!(get_rt_priority_range(SchedulePolicy::Fifo, None), (1, 99));
}

#[test]
fn set_scheduler_hands_on_the_priority_only_when_realtime() {
    assert_eq!(describe(&set_scheduler(42, SchedulePolicy::Fifo, 50)), "sched(42,1,50)");
    assert_eq!(describe(&set_scheduler(42, SchedulePolicy::RoundRobin, 7)), "sched(42,2,7)");
    assert_eq!(describe(&set_scheduler(42, SchedulePolicy::Other, 50)), "sched(42,0,0)");
    assert_eq!(describe(&set_scheduler(42, SchedulePolicy::Batch, -3)), "sched(42,3,0)");
    assert_eq!(describe(&set_scheduler(42, SchedulePolicy::Idle, 1)), "sched(42,5,0)");
    assert_eq!(describe(&set_scheduler(-1, SchedulePolicy::Unknown(9), 1)), "sched(-1,9,0)");
}

#[test]
fn set_nice_and_affinity_hand_on_their_arguments() {
    assert_eq!(describe(&set_process_nice(7, -20)), "nice(7,-20)");
    assert_eq!(describe(&set_process_nice(7, 100)), "nice(7,100)");
    assert_eq!(describe(&set_process_affinity(7, &[3, 1, 3, 1023])), "affinity(7,[1,3,1023])");
    assert_eq!(describe(&set_process_affinity(7, &[])), "affinity(7,[])");
}

#[test]
fn outcome_of_an_accepted_call() {
    assert_eq!(set_scheduler(1, SchedulePolicy::Fifo, 1).outcome(&SysReply::Done), Ok(()));
    assert_eq!(set_process_nice(1, 1).outcome(&SysReply::Done), Ok(()));
    assert_eq!(set_process_affinity(1, &[0]).outcome(&SysReply::Done), Ok(()));
}

#[test]
fn outcome_of_a_refused_call_names_the_step() {
    let reply = refused("Operation not permitted (os error 1)");
    assert_eq!(
        set_scheduler(1, SchedulePolicy::Fifo, 1).outcome(&reply),
        Err("设置调度策略失败: Operation not permitted (os error 1) (可能需要 root 权限或 CAP_SYS_NICE)"
            .to_string())
    );
    assert_eq!(
        set_process_nice(1, -5).outcome(&reply),
        Err("设置 nice 值失败: Operation not permitted (os error 1)".to_string())
    );
    assert_eq!(
        set_process_affinity(1, &[0]).outcome(&reply),
        Err("设置亲和性失败: Operation not permitted (os error 1) (可能需要 root 权限)".to_string())
    );
}

#[test]
fn outcome_on_a_platform_without_the_call() {
    assert_eq!(
        set_scheduler(1, SchedulePolicy::Fifo, 1).outcome(&SysReply::Unsupported),
        Err("调度策略设置仅支持 Linux".to_string())
    );
    assert_eq!(
        set_process_nice(1, -5).outcome(&SysReply::Unsupported),
        Err("nice 值设置仅支持 Linux".to_string())
    );
    assert_eq!(
        set_process_affinity(1, &[0]).outcome(&SysReply::Unsupported),
        Err("CPU 亲和性设置仅支持 Linux".to_string())
    );
}

#[test]
fn complement_lists_the_other_cores() {
    assert_eq!(complement(&[0, 1, 2, 3], 8), vec![4, 5, 6, 7]);
    assert_eq!(complement(&[5, 1], 6), vec![0, 2, 3, 4]);
    assert_eq!(complement(&[], 3), vec![0, 1, 2]);
    assert_eq!(complement(&[0, 1, 9], 2), Vec::<usize>::new());
    assert_eq!(complement(&[7], 0), Vec::<usize>::new());
}

#[test]
fn builtin_presets_without_vcache() {
    let presets = SchedulePreset::builtin_presets(&[], 16);
    assert_eq!(presets.len(), 4);
    let expect = [
        ("默认", "使用系统默认调度", SchedulePolicy::Other, 0),
        ("高优先级", "较低的 nice 值，获得更多 CPU 时间", SchedulePolicy::Other, -10),
        ("后台任务", "低优先级，仅在空闲时运行", SchedulePolicy::Idle, 0),
        ("实时 (FIFO)", "实时调度，最高优先级", SchedulePolicy::Fifo, 50),
    ];
    for (preset, (name, description, policy, priority)) in presets.iter().zip(expect) {
        assert_eq!(preset.name, name);
        assert_eq!(preset.description, description);
        assert_eq!(preset.policy, policy);
        assert_eq!(preset.priority, priority);
        assert_eq!(preset.affinity_cores, None);
    }
}

#[test]
fn builtin_presets_with_vcache() {
    let presets = SchedulePreset::builtin_presets(&[0, 1, 2, 3], 8);
    assert_eq!(presets.len(), 6);
    assert_eq!(presets[3].name, "实时 (FIFO)");
    assert_eq!(presets[4].name, "游戏模式 (V-Cache)");
    assert_eq!(presets[4].description, "绑定到 3D V-Cache 核心");
    assert_eq!(presets[4].policy, SchedulePolicy::Other);
    assert_eq!(presets[4].priority, -5);
    assert_eq!(presets[4].affinity_cores, Some(vec![0, 1, 2, 3]));
    assert_eq!(presets[5].name, "渲染/编译模式");
    assert_eq!(presets[5].description, "绑定到非 V-Cache 核心");
    assert_eq!(presets[5].policy, SchedulePolicy::Other);
    assert_eq!(presets[5].priority, 0);
    assert_eq!(presets[5].affinity_cores, Some(vec![4, 5, 6, 7]));
}

#[test]
fn builtin_presets_when_every_core_has_vcache() {
    let presets = SchedulePreset::builtin_presets(&[1, 0], 2);
    assert_eq!(presets.len(), 5);
    assert_eq!(presets[4].affinity_cores, Some(vec![1, 0]));
}

#[test]
fn scheduler_calls_in_order() {
    assert_eq!(describe_all(&scheduler_calls(9, SchedulePolicy::Fifo, 50)), vec!["sched(9,1,50)"]);
    assert_eq!(describe_all(&scheduler_calls(9, SchedulePolicy::Other, 0)), vec!["sched(9,0,0)"]);
    assert_eq!(
        describe_all(&scheduler_calls(9, SchedulePolicy::Other, -10)),
        vec!["sched(9,0,0)", "nice(9,-10)"]
    );
    assert_eq!(
        describe_all(&scheduler_calls(9, SchedulePolicy::Idle, 3)),
        vec!["sched(9,5,0)", "nice(9,3)"]
    );
}

#[test]
fn preset_calls_in_order() {
    let presets = SchedulePreset::builtin_presets(&[2, 3], 4);
    assert_eq!(describe_all(&preset_calls(5, &presets[0])), vec!["sched(5,0,0)"]);
    assert_eq!(describe_all(&preset_calls(5, &presets[1])), vec!["sched(5,0,0)", "nice(5,-10)"]);
    assert_eq!(describe_all(&preset_calls(5, &presets[2])), vec!["sched(5,5,0)"]);
    assert_eq!(describe_all(&preset_calls(5, &presets[3])), vec!["sched(5,1,50)"]);
    assert_eq!(
        describe_all(&preset_calls(5, &presets[4])),
        vec!["sched(5,0,0)", "nice(5,-5)", "affinity(5,[2,3])"]
    );
    assert_eq!(
        describe_all(&preset_calls(5, &presets[5])),
        vec!["sched(5,0,0)", "affinity(5,[0,1])"]
    );
}

#[test]
fn a_run_makes_every_call_when_all_are_accepted() {
    let presets = SchedulePreset::builtin_presets(&[2, 3], 4);
    let mut run = ControlRun::new(preset_calls(5, &presets[4]));
    assert!(!run.is_finished());
    let made = drive(&mut run, &[SysReply::Done, SysReply::Done, SysReply::Done]);
    assert_eq!(made, vec!["sched(5,0,0)", "nice(5,-5)", "affinity(5,[2,3])"]);
    assert!(run.is_finished());
    assert!(run.succeeded());
    assert_eq!(run.completed(), 3);
    assert_eq!(run.failure(), None);
    assert!(run.failed_call().is_none());
}

#[test]
fn a_run_stops_at_a_failed_affinity_step_and_undoes_nothing() {
    let presets = SchedulePreset::builtin_presets(&[2, 3], 4);
    let mut run = ControlRun::new(preset_calls(5, &presets[4]));
    let made = drive(&mut run, &[SysReply::Done, SysReply::Done, refused("EPERM")]);
    assert_eq!(made, vec!["sched(5,0,0)", "nice(5,-5)", "affinity(5,[2,3])"]);
    assert!(run.is_finished());
    assert!(!run.succeeded());
    assert_eq!(run.completed(), 2);
    assert_eq!(run.failure(), Some(&"设置亲和性失败: EPERM (可能需要 root 权限)".to_string()));
    assert_eq!(describe(run.failed_call().unwrap()), "affinity(5,[2,3])");
    assert!(run.next_call().is_none());
    run.record(&SysReply::Done);
    assert_eq!(run.completed(), 2);
    assert_eq!(run.failure(), Some(&"设置亲和性失败: EPERM (可能需要 root 权限)".to_string()));
}

#[test]
fn a_run_stops_at_the_first_failed_step() {
    let presets = SchedulePreset::builtin_presets(&[2, 3], 4);
    let mut run = ControlRun::new(preset_calls(5, &presets[4]));
    let made = drive(&mut run, &[refused("EPERM")]);
    assert_eq!(made, vec!["sched(5,0,0)"]);
    assert_eq!(run.completed(), 0);
    assert_eq!(
        run.failure(),
        Some(&"设置调度策略失败: EPERM (可能需要 root 权限或 CAP_SYS_NICE)".to_string())
    );
    let mut second = ControlRun::new(preset_calls(5, &presets[4]));
    let made = drive(&mut second, &[SysReply::Done, SysReply::Unsupported]);
    assert_eq!(made, vec!["sched(5,0,0)", "nice(5,-5)"]);
    assert_eq!(second.completed(), 1);
    assert_eq!(second.failure(), Some(&"nice 值设置仅支持 Linux".to_string()));
    assert_eq!(describe(second.failed_call().unwrap()), "nice(5,-5)");
}

#[test]
fn an_empty_run_is_finished_at_once() {
    let mut run = ControlRun::new(Vec::new());
    assert!(run.is_finished());
    assert!(run.succeeded());
    assert!(run.next_call().is_none());
    run.record(&refused("late"));
    assert!(run.succeeded());
    assert_eq!(run.completed(), 0);
}

#[test]
fn mask_in_a_call_is_the_set_of_cores() {
    match set_process_affinity(1, &[0, 5, 5, 64, 1023]) {
        SysCall::SetAffinity { pid, mask } => {
            assert_eq!(pid, 1);
            let expect: CpuMask = CpuMask::from_cores(&[1023, 64, 5, 0]);
            for cpu in 0..1100usize {
                assert_eq!(mask.is_set(cpu), expect.is_set(cpu));
                assert_eq!(mask.is_set(cpu), [0usize, 5, 64, 1023].contains(&cpu));
            }
        }
        _ => panic!("not an affinity call"),
    }
}
