use missioncenter::processes::{
    c_text_of, index_by_pid, map_proc_state, nul_from_exec, parse_procargs2, positive_pids,
    proc_exe_from, proc_name_from, procargs_args, refresh_due, try_usage_deltas, usage_deltas, ProcTaskInfo,
    ProcessRecord, ProcessState, RawStats, WireArg,
};

#[test]
fn state_codes_round_trip() {
    let all = [
        ProcessState::Running, ProcessState::Sleeping, ProcessState::SleepingUninterruptible,
        ProcessState::Zombie, ProcessState::Stopped, ProcessState::Tracing, ProcessState::Dead,
        ProcessState::WakeKill, ProcessState::Waking, ProcessState::Parked, ProcessState::Unknown,
    ];
    for (i, s) in all.iter().enumerate() {
        assert_eq!(s.code() as usize, i);
        assert_eq!(ProcessState::from_code(s.code() as u64), *s);
    }
    assert_eq!(ProcessState::from_code(11), ProcessState::Unknown);
    assert_eq!(ProcessState::from_code(u64::MAX), ProcessState::Unknown);
}

#[test]
fn run_status_mapping() {
    assert_eq!(map_proc_state(1), ProcessState::Sleeping);
    assert_eq!(map_proc_state(2), ProcessState::Running);
    assert_eq!(map_proc_state(3), ProcessState::Stopped);
    assert_eq!(map_proc_state(4), ProcessState::Zombie);
    assert_eq!(map_proc_state(0), ProcessState::Unknown);
    assert_eq!(map_proc_state(5), ProcessState::Unknown);
}

#[test]
fn names_from_kernel_buffers() {
    let mut buf = [0u8; 16];
    buf[..4].copy_from_slice(b"bash");
    assert_eq!(nul_from_exec(&buf, 0), Some(4));
    assert_eq!(c_text_of(&buf, 4), Some("bash".to_string()));
    assert_eq!(c_text_of(&buf, 0), None);
    assert_eq!(proc_name_from(&buf, 4, 77), "bash");
    assert_eq!(proc_name_from(&buf, -1, 77), "pid:77");
    assert_eq!(proc_exe_from(&buf, 0), "");
    assert_eq!(proc_exe_from(b"/bin/ls", 7), "/bin/ls");
    assert_eq!(proc_exe_from(b"/bin/ls", 3), "/bi");
}

#[test]
fn listed_pids_are_positive() {
    let buf = [5, -1, 0, 9, 12, 3];
    assert_eq!(positive_pids(&buf, 5), vec![5, 9, 12]);
    assert_eq!(positive_pids(&buf, 0), Vec::<u32>::new());
    assert_eq!(positive_pids(&buf, -3), Vec::<u32>::new());
}

#[test]
fn procargs_arguments() {
    let rest = b"/bin/ls\0\0\0ls\0-la\0\0/tmp\0ENV=1\0";
    assert_eq!(procargs_args(rest, 3), vec!["ls", "-la", "/tmp"]);
    assert_eq!(procargs_args(rest, 1), vec!["ls"]);
    assert_eq!(procargs_args(rest, 0), Vec::<String>::new());
    assert_eq!(procargs_args(b"/bin/ls", 2), Vec::<String>::new());
    assert_eq!(procargs_args(b"x\0a", 5), vec!["a"]);
    let mut buf = 2u32.to_ne_bytes().to_vec();
    buf.extend_from_slice(rest);
    assert_eq!(parse_procargs2(&buf, buf.len()), vec!["ls", "-la"]);
    assert_eq!(parse_procargs2(&buf, 3), Vec::<String>::new());
}

#[test]
fn usage_counters() {
    let info = ProcTaskInfo { user_time_us: 100, sys_time_us: 50, resident_bytes: 0, disk_read_bytes: 10, disk_write_bytes: 20, thread_count: 1, status: 2 };
    assert_eq!(usage_deltas(&info, None), (0, 0));
    let prev = RawStats { user_time_us: 40, sys_time_us: 60, disk_read_bytes: 5, disk_write_bytes: 5 };
    assert_eq!(usage_deltas(&info, Some(prev)), (60, 20));
    assert_eq!(RawStats::of(&info), RawStats { user_time_us: 100, sys_time_us: 50, disk_read_bytes: 10, disk_write_bytes: 20 });
    assert_eq!(RawStats::default(), RawStats { user_time_us: 0, sys_time_us: 0, disk_read_bytes: 0, disk_write_bytes: 0 });
    assert!(refresh_due(None));
    assert!(!refresh_due(Some(199_999_999)));
    assert!(refresh_due(Some(200_000_000)));
}

#[test]
fn process_table_by_pid() {
    let m = index_by_pid(vec![(3, "a"), (0, "zero"), (3, "b"), (7, "c")]);
    assert_eq!(m.len(), 2);
    assert_eq!(m[&3], "b");
    assert_eq!(m[&7], "c");
    assert!(!m.contains_key(&0));
}

#[test]
fn dbus_process_records() {
    let full = vec![
        WireArg::Text("bash".to_string()),
        WireArg::TextItems(vec![Some("bash".to_string()), None, Some("-l".to_string())]),
        WireArg::Text("/bin/bash".to_string()),
        WireArg::Number(3),
        WireArg::Number((1u64 << 32) + 5),
        WireArg::Number(1),
        WireArg::Usage(6),
        WireArg::Number(4),
    ];
    let r = ProcessRecord::decode(Some(&full));
    assert_eq!(r.name, "bash");
    assert_eq!(r.cmd, vec!["bash", "-l"]);
    assert_eq!(r.exe, "/bin/bash");
    assert_eq!(r.state, ProcessState::Zombie);
    assert_eq!(r.pid, 5);
    assert_eq!(r.parent, 1);
    assert_eq!(r.task_count, 4);
    assert_eq!(r.fields_read, 8);
    let partial = vec![WireArg::Text("x".to_string()), WireArg::Number(1)];
    let r = ProcessRecord::decode(Some(&partial));
    assert_eq!((r.name.as_str(), r.fields_read, r.state), ("x", 1, ProcessState::Unknown));
    let r = ProcessRecord::decode(None);
    assert_eq!((r.name.as_str(), r.fields_read, r.pid), ("", 0, 0));
}

#[test]
fn dbus_process_record_ending_after_parent() {
    let six = vec![
        WireArg::Text("sh".to_string()),
        WireArg::TextItems(vec![Some("sh".to_string())]),
        WireArg::Text("/bin/sh".to_string()),
        WireArg::Number(1),
        WireArg::Number(42),
        WireArg::Number(7),
    ];
    let r = ProcessRecord::decode(Some(&six));
    assert_eq!(r.name, "sh");
    assert_eq!(r.cmd, vec!["sh"]);
    assert_eq!(r.exe, "/bin/sh");
    assert_eq!(r.pid, 42);
    assert_eq!(r.parent, 7);
    assert_eq!(r.task_count, 0);
    assert_eq!(r.fields_read, 6);
}

#[test]
fn usage_counter_overflow_is_refused() {
    let info = ProcTaskInfo { user_time_us: u64::MAX, sys_time_us: 5, resident_bytes: 0, disk_read_bytes: 0, disk_write_bytes: 0, thread_count: 1, status: 1 };
    let prev = RawStats { user_time_us: 0, sys_time_us: 0, disk_read_bytes: 0, disk_write_bytes: 0 };
    assert_eq!(try_usage_deltas(&info, Some(prev)), None);
    assert_eq!(try_usage_deltas(&info, None), Some((0, 0)));
}
