use prismarine::manager::ServerManager;
use prismarine::model::{RestartType, ServerStatus, ServerType};
use prismarine::scheduler::restart_due;

fn running_server(interval: u64, restart_type: RestartType, last_start: u64) -> (ServerManager, String) {
    let mut m = ServerManager::new("/srv".to_string());
    let id = m
        .create_server("s".to_string(), "1.20.4".to_string(), ServerType::Vanilla, 25565, "2G".to_string())
        .unwrap()
        .id;
    m.set_auto_restart(&id, true, restart_type, interval, Some("04:00".to_string()), Some("UTC".to_string()))
        .unwrap();
    m.start_server(&id, last_start).unwrap();
    m.mark_started(&id).unwrap();
    (m, id)
}

#[test]
fn interval_due_after_interval() {
    let now = 1_000_000;
    let (m, id) = running_server(3600, RestartType::Interval, now - 3700);
    assert_eq!(m.select_restarts(now), vec![id]);
}

#[test]
fn interval_not_due_before_interval() {
    let now = 1_000_000;
    let (m, _id) = running_server(3600, RestartType::Interval, now - 100);
    assert!(m.select_restarts(now).is_empty());
}

#[test]
fn interval_floor_of_a_minute() {
    let now = 1_000_000;
    let (m, _) = running_server(0, RestartType::Interval, now - 59);
    assert!(m.select_restarts(now).is_empty());
    let (m, id) = running_server(0, RestartType::Interval, now - 60);
    assert_eq!(m.select_restarts(now), vec![id]);
}

#[test]
fn stopped_or_manual_servers_are_skipped() {
    let now = 1_000_000;
    let (mut m, id) = running_server(3600, RestartType::Interval, now - 9000);
    m.set_auto_restart(&id, false, RestartType::Interval, 3600, None, None).unwrap();
    assert!(m.select_restarts(now).is_empty());
    m.set_auto_restart(&id, true, RestartType::Interval, 3600, None, None).unwrap();
    m.stop_server(&id).unwrap();
    m.finish_stop(&id);
    assert!(m.select_restarts(now).is_empty());
}

#[test]
fn schedule_needs_known_zone_and_readable_time() {
    let now = 1_000_000;
    let (mut m, id) = running_server(0, RestartType::Schedule, 0);
    m.set_auto_restart(&id, true, RestartType::Schedule, 0, Some("04:00".to_string()), Some("Not/AZone".to_string()))
        .unwrap();
    assert!(m.select_restarts(now).is_empty());
    m.set_auto_restart(&id, true, RestartType::Schedule, 0, Some("noon".to_string()), Some("UTC".to_string()))
        .unwrap();
    assert!(m.select_restarts(now).is_empty());
    m.set_auto_restart(&id, true, RestartType::Schedule, 0, None, Some("UTC".to_string()))
        .unwrap();
    assert!(m.select_restarts(now).is_empty());
}

#[test]
fn schedule_matches_minute() {
    let (m, id) = running_server(0, RestartType::Schedule, 1000);
    let info = m.get_server(&id).unwrap();
    assert!(restart_due(&info, 5000, Some((4, 0)), Some((4, 0))));
    assert!(!restart_due(&info, 5000, Some((4, 1)), Some((4, 0))));
    assert!(!restart_due(&info, 5000, Some((5, 0)), Some((4, 0))));
    assert!(!restart_due(&info, 5000, None, Some((4, 0))));
    assert!(!restart_due(&info, 5000, Some((4, 0)), None));
}

#[test]
fn schedule_restarts_once_in_guard_window() {
    let t0 = 1_000_000;
    let (mut m, id) = running_server(0, RestartType::Schedule, t0 - 86400);
    let info = m.get_server(&id).unwrap();
    let mut restarts = 0;
    for now in [t0, t0 + 30, t0 + 59] {
        let info_now = m.get_server(&id).unwrap();
        if restart_due(&info_now, now, Some((4, 0)), Some((4, 0))) {
            restarts += 1;
            m.stop_server(&id).unwrap();
            m.finish_stop(&id);
            m.start_server(&id, now).unwrap();
            m.mark_started(&id).unwrap();
        }
    }
    assert_eq!(restarts, 1);
    assert!(restart_due(&info, t0, Some((4, 0)), Some((4, 0))));
    let after = m.get_server(&id).unwrap();
    assert_eq!(after.last_start_time, Some(t0));
    assert!(!restart_due(&after, t0 + 299, Some((4, 0)), Some((4, 0))));
    assert!(restart_due(&after, t0 + 300, Some((4, 0)), Some((4, 0))));
    assert_eq!(after.status, ServerStatus::Running);
}

#[test]
fn schedule_with_known_zone_runs_clock() {
    let now = 1_000_000;
    let (m, id) = running_server(0, RestartType::Schedule, 0);
    let picked = m.select_restarts(now);
    assert!(picked.is_empty() || picked == vec![id.clone()]);
    let (m2, _) = running_server(0, RestartType::Schedule, now - 10);
    assert!(m2.select_restarts(now).is_empty());
}

#[test]
fn schedule_uses_given_instant() {
    // 1_000_000 seconds after the epoch is 13:46:40 UTC.
    let now = 1_000_000;
    let (mut m, id) = running_server(0, RestartType::Schedule, 0);
    m.set_auto_restart(&id, true, RestartType::Schedule, 0, Some("13:46".to_string()), Some("UTC".to_string()))
        .unwrap();
    assert_eq!(m.select_restarts(now), vec![id.clone()]);
    m.set_auto_restart(&id, true, RestartType::Schedule, 0, Some("13:46".to_string()), Some("Asia/Tokyo".to_string()))
        .unwrap();
    assert!(m.select_restarts(now).is_empty());
    m.set_auto_restart(&id, true, RestartType::Schedule, 0, Some("22:46".to_string()), Some("Asia/Tokyo".to_string()))
        .unwrap();
    assert_eq!(m.select_restarts(now), vec![id]);
}
