use missioncenter::ipc::{
    accepted_request_len, empty_reply, encode_request, gatherer_bus_name, ipc_command,
    machine_id_reply, parse_request, query_method_name, reply_len, reply_len_prefix,
    u32_from_le, u32_to_le, IpcAction, IpcCommand, IpcQuery, MacosGathererProxy,
    OrgFreedesktopDBusNameLost, PropertyError, RefreshStep, SystemState,
};

#[test]
fn little_endian_round_trip() {
    for x in [0u32, 1, 255, 256, 0x1234_5678, u32::MAX] {
        assert_eq!(u32_to_le(x), x.to_le_bytes());
        assert_eq!(u32_from_le(u32_to_le(x)), x);
    }
}

#[test]
fn request_length_limits() {
    assert_eq!(accepted_request_len(0u32.to_le_bytes()), None);
    assert_eq!(accepted_request_len(1u32.to_le_bytes()), Some(1));
    assert_eq!(accepted_request_len((1024 * 1024u32).to_le_bytes()), Some(1024 * 1024));
    assert_eq!(accepted_request_len((1024 * 1024 + 1u32).to_le_bytes()), None);
    assert_eq!(reply_len(7u32.to_le_bytes()), 7);
    assert_eq!(reply_len_prefix(300), 300u32.to_le_bytes());
}

#[test]
fn request_frame_layout() {
    let f = encode_request("GetApps", None);
    assert_eq!(&f[..4], &8u32.to_le_bytes());
    assert_eq!(&f[4..], b"GetApps\0");
    let f = encode_request("KillProcess", Some("42"));
    assert_eq!(&f[4..], b"KillProcess\x0042");
    let f = encode_request("é", Some("ü"));
    assert_eq!(&f[..4], &5u32.to_le_bytes());
}

#[test]
fn server_reads_back_what_the_client_sent() {
    let f = encode_request("TerminateProcess", Some("123"));
    let n = accepted_request_len([f[0], f[1], f[2], f[3]]).unwrap();
    assert_eq!(n, f.len() - 4);
    let (m, a) = parse_request(&f[4..]).unwrap();
    assert_eq!((m.as_str(), a.as_str()), ("TerminateProcess", "123"));
    assert_eq!(ipc_command(&m, &a), IpcCommand::TerminateProcess(Some(123)));
    let (m, a) = parse_request(b"GetCPUStaticInfo").unwrap();
    assert_eq!((m.as_str(), a.as_str()), ("GetCPUStaticInfo", ""));
    let (m, a) = parse_request(b"A\0B\0C").unwrap();
    assert_eq!((m.as_str(), a.as_str()), ("A", "B\0C"));
    assert_eq!(parse_request(b"\xff\0x"), None);
}

#[test]
fn commands_of_methods() {
    assert_eq!(ipc_command("GetCPUStaticInfo", ""), IpcCommand::Query(IpcQuery::CpuStaticInfo));
    assert_eq!(ipc_command("GetServices", "x"), IpcCommand::Query(IpcQuery::Services));
    assert_eq!(ipc_command("KillProcess", "notanumber"), IpcCommand::KillProcess(None));
    assert_eq!(ipc_command("KillProcess", "4294967296"), IpcCommand::KillProcess(None));
    assert_eq!(ipc_command("SetRefreshInterval", "250"), IpcCommand::SetRefreshInterval(Some(250)));
    assert_eq!(ipc_command("SetCoreCountAffectsPercentages", "true"), IpcCommand::SetCoreCountAffectsPercentages(true));
    assert_eq!(ipc_command("SetCoreCountAffectsPercentages", "1"), IpcCommand::SetCoreCountAffectsPercentages(true));
    assert_eq!(ipc_command("SetCoreCountAffectsPercentages", "yes"), IpcCommand::SetCoreCountAffectsPercentages(false));
    assert_eq!(ipc_command("EnableService", "ssh"), IpcCommand::Unknown);
    assert_eq!(ipc_command("getapps", ""), IpcCommand::Unknown);
    for q in [
        IpcQuery::CpuStaticInfo, IpcQuery::CpuDynamicInfo, IpcQuery::DisksInfo, IpcQuery::GpuList,
        IpcQuery::GpuStaticInfo, IpcQuery::GpuDynamicInfo, IpcQuery::FansInfo, IpcQuery::Processes,
        IpcQuery::Apps, IpcQuery::Services,
    ] {
        assert_eq!(ipc_command(query_method_name(q), ""), IpcCommand::Query(q));
    }
    assert_eq!(empty_reply(), b"{}".to_vec());
}

#[test]
fn state_defaults_and_snapshot_plan() {
    let s = SystemState::new();
    assert_eq!(s.refresh_interval, 1000);
    assert!(s.core_count_affects_percentages);
    assert_eq!(
        s.snapshot(),
        vec![
            RefreshStep::Processes, RefreshStep::CpuDynamicInfo, RefreshStep::Disks,
            RefreshStep::GpuDynamicInfo, RefreshStep::Fans, RefreshStep::Apps, RefreshStep::Services,
        ]
    );
    let mut s2 = SystemState::new();
    s2.core_count_affects_percentages = false;
    assert_eq!(s2.snapshot()[1], RefreshStep::DivideProcessCpuUsageByCoreCount);
    assert_eq!(s2.snapshot().len(), 8);
}

#[test]
fn snapshot_leaves_settings_and_repeats_no_step() {
    let mut s = SystemState::new();
    s.refresh_interval = 250;
    s.core_count_affects_percentages = false;
    let plan = s.snapshot();
    assert_eq!(s.refresh_interval, 250);
    assert!(!s.core_count_affects_percentages);
    assert_eq!(plan[0], RefreshStep::Processes);
    for i in 0..plan.len() {
        for j in (i + 1)..plan.len() {
            assert_ne!(plan[i], plan[j]);
        }
    }
}

#[test]
fn starting_state_has_no_controller_and_no_apps() {
    let mut s = SystemState::new();
    assert!(s.service_controller.is_none());
    assert!(s.apps.app_list().is_empty());
    s.install_service_controller();
    assert!(s.service_controller.is_some());
    assert_eq!((s.refresh_interval, s.core_count_affects_percentages), (1000, true));
    assert!(s.apps.app_list().is_empty());
}

#[test]
fn handling_commands_changes_settings() {
    let mut s = SystemState::new();
    assert_eq!(s.handle(IpcCommand::SetRefreshInterval(Some(250))), IpcAction::Acknowledge);
    assert_eq!(s.refresh_interval, 250);
    assert_eq!(s.handle(IpcCommand::SetRefreshInterval(None)), IpcAction::Acknowledge);
    assert_eq!(s.refresh_interval, 250);
    s.handle(IpcCommand::SetCoreCountAffectsPercentages(false));
    assert!(!s.core_count_affects_percentages);
    assert_eq!(s.handle(IpcCommand::TerminateProcess(Some(9))), IpcAction::TerminateProcess(9));
    assert_eq!(s.handle(IpcCommand::KillProcess(None)), IpcAction::Acknowledge);
    assert_eq!(s.handle(IpcCommand::Query(IpcQuery::Apps)), IpcAction::Reply(IpcQuery::Apps));
    assert_eq!(s.handle(IpcCommand::Unknown), IpcAction::Acknowledge);
    assert_eq!((s.refresh_interval, s.core_count_affects_percentages), (250, false));
    assert!(s.service_controller.is_none());
    assert!(s.apps.app_list().is_empty());
}

#[test]
fn dbus_properties() {
    let mut s = SystemState::new();
    assert_eq!(s.set_refresh_interval_property(Some(500)), Ok(500));
    assert_eq!(s.refresh_interval, 500);
    assert_eq!(s.set_refresh_interval_property(None), Err(PropertyError::InvalidValue));
    assert_eq!(s.refresh_interval, 500);
    assert_eq!(s.set_core_count_affects_percentages_property(Some(0)), Ok(false));
    assert!(!s.core_count_affects_percentages);
    assert_eq!(s.set_core_count_affects_percentages_property(Some(7)), Ok(true));
    assert_eq!(s.set_core_count_affects_percentages_property(None), Err(PropertyError::InvalidValue));
}

#[test]
fn client_requests() {
    let p = MacosGathererProxy::new("/tmp/sock".to_string());
    assert_eq!(p.socket_path, "/tmp/sock");
    assert_eq!(&p.query_request(IpcQuery::GpuList)[4..], b"GetGPUList\0");
    assert_eq!(&p.terminate_process_request(77)[4..], b"TerminateProcess\x0077");
    assert_eq!(&p.kill_process_request(0)[4..], b"KillProcess\x000");
    assert_eq!(&p.service_request("StopService", "cron")[4..], b"StopService\0cron");
    assert_eq!(MacosGathererProxy::service_logs_arg("sshd", Some(12)), "sshd\x0112");
    assert_eq!(MacosGathererProxy::service_logs_arg("sshd", None), "sshd\x010");
    assert_eq!(&p.service_logs_request("a", None)[4..], b"GetServiceLogs\0a\x010");
}

#[test]
fn bus_name_lost_and_machine_id() {
    assert_eq!(gatherer_bus_name(), "io.missioncenter.MissionCenter.Gatherer");
    let own = OrgFreedesktopDBusNameLost { arg0: "io.missioncenter.MissionCenter.Gatherer".to_string() };
    assert!(!own.keeps_running());
    let other = OrgFreedesktopDBusNameLost { arg0: "org.example.Other".to_string() };
    assert!(other.keeps_running());
    assert_eq!(machine_id_reply(Some("  abc123\n")), "abc123");
    assert_eq!(machine_id_reply(None), "UNKNOWN");
}
