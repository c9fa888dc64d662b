use prismarine::manager::{
    command_line, grant_op_command, revoke_op_command, RestartStep, ServerError, ServerManager,
    StopPoll, StopStart, GRACE_CEILING_MS, POLL_INTERVAL_MS,
};
use prismarine::model::{RestartType, ServerStatus, ServerType};

fn manager_with_server(max_memory: &str) -> (ServerManager, String) {
    let mut m = ServerManager::new("/srv/games".to_string());
    let info = m
        .create_server(
            "Survival".to_string(),
            "1.20.4".to_string(),
            ServerType::Paper,
            25565,
            max_memory.to_string(),
        )
        .unwrap();
    (m, info.id)
}

fn start(m: &mut ServerManager, id: &str, now: u64) {
    m.start_server(id, now).unwrap();
    m.mark_started(id).unwrap();
}

/// Stops a running server against a process that exits `exit_after_ms` after
/// the stop command (never, for `None`); returns the time waited and the
/// number of kills issued.
fn stop_with(m: &mut ServerManager, id: &str, exit_after_ms: Option<u64>) -> (u64, u32) {
    assert_eq!(m.stop_server(id), Ok(StopStart::Proceed));
    m.take_stdin(id).unwrap();
    m.return_stdin(id);
    let mut elapsed: u64 = 0;
    loop {
        let exited = matches!(exit_after_ms, Some(t) if elapsed >= t);
        match m.poll_stop(id, exited, elapsed) {
            StopPoll::Wait(ms) => elapsed += ms,
            StopPoll::Finish => break,
        }
    }
    let kills = if m.finish_stop(id) { 1 } else { 0 };
    (elapsed, kills)
}

#[test]
fn create_fills_defaults() {
    let (m, id) = manager_with_server("4G");
    let info = m.get_server(&id).unwrap();
    assert_eq!(id.len(), 36);
    assert!(info.path.ends_with(&id));
    assert!(info.path.starts_with("/srv/games"));
    assert_eq!(info.name, "Survival");
    assert_eq!(info.version, "1.20.4");
    assert_eq!(info.server_type, ServerType::Paper);
    assert_eq!(info.status, ServerStatus::Stopped);
    assert_eq!(info.port, 25565);
    assert_eq!(info.max_memory, "4G");
    assert_eq!(info.min_memory, "4G");
    assert_eq!(info.players, "0/20");
    assert!(!info.auto_restart);
    assert_eq!(info.restart_interval, 86400);
    assert_eq!(info.restart_type, RestartType::Interval);
    assert!(info.restart_schedule.is_none());
    assert!(info.time_zone.is_none());
    assert!(info.last_start_time.is_none());
    assert!(!m.has_process(&id));
    assert_eq!(m.get_servers().len(), 1);
}

#[test]
fn start_then_get_is_running() {
    let (mut m, id) = manager_with_server("16G");
    let plan = m.start_server(&id, 1000).unwrap();
    assert_eq!(m.get_server(&id).unwrap().status, ServerStatus::Starting);
    assert_eq!(plan.args.len(), 22);
    assert_eq!(plan.args[0], "-Xmx16G");
    assert!(plan.jar_path.ends_with("server.jar"));
    assert_eq!(plan.args[20], plan.jar_path);
    assert_eq!(plan.working_dir, m.get_server(&id).unwrap().path);
    m.mark_started(&id).unwrap();
    let info = m.get_server(&id).unwrap();
    assert_eq!(info.status, ServerStatus::Running);
    assert_eq!(info.last_start_time, Some(1000));
    assert!(m.has_process(&id));
}

#[test]
fn start_running_is_refused() {
    let (mut m, id) = manager_with_server("4G");
    start(&mut m, &id, 1000);
    assert_eq!(m.start_server(&id, 2000).err(), Some(ServerError::AlreadyRunning));
    let info = m.get_server(&id).unwrap();
    assert_eq!(info.status, ServerStatus::Running);
    assert_eq!(info.last_start_time, Some(1000));
    assert!(m.has_process(&id));
}

#[test]
fn unknown_server_is_not_found() {
    let mut m = ServerManager::new("/srv".to_string());
    assert_eq!(m.start_server("nope", 1).err(), Some(ServerError::NotFound));
    assert_eq!(m.stop_server("nope"), Err(ServerError::NotFound));
    assert_eq!(m.restart_server("nope"), Err(ServerError::NotFound));
    assert_eq!(m.mark_started("nope"), Err(ServerError::NotFound));
    assert_eq!(m.remove_server("nope").err(), Some(ServerError::NotFound));
    assert_eq!(m.get_plugins_path("nope"), Err(ServerError::NotFound));
    assert!(m.get_server("nope").is_none());
}

#[test]
fn failed_spawn_leaves_stopped() {
    let (mut m, id) = manager_with_server("4G");
    m.start_server(&id, 1000).unwrap();
    assert!(!m.finish_stop(&id));
    let info = m.get_server(&id).unwrap();
    assert_eq!(info.status, ServerStatus::Stopped);
    assert!(info.last_start_time.is_none());
}

#[test]
fn stop_twice_is_idempotent() {
    let (mut m, id) = manager_with_server("4G");
    start(&mut m, &id, 1000);
    stop_with(&mut m, &id, Some(0));
    let first = format!("{:?}", m.get_server(&id).unwrap());
    assert_eq!(m.stop_server(&id), Ok(StopStart::AlreadyStopped));
    let second = format!("{:?}", m.get_server(&id).unwrap());
    assert_eq!(first, second);
    let info = m.get_server(&id).unwrap();
    assert_eq!(info.status, ServerStatus::Stopped);
    assert!(info.last_start_time.is_none());
    assert!(!m.has_process(&id));
}

#[test]
fn graceful_stop_without_kill() {
    let (mut m, id) = manager_with_server("4G");
    start(&mut m, &id, 1000);
    let (elapsed, kills) = stop_with(&mut m, &id, Some(2000));
    assert_eq!(elapsed, 2000);
    assert_eq!(kills, 0);
    assert_eq!(m.get_server(&id).unwrap().status, ServerStatus::Stopped);
    assert!(!m.has_process(&id));
}

#[test]
fn stuck_process_is_killed_once_at_ceiling() {
    let (mut m, id) = manager_with_server("4G");
    start(&mut m, &id, 1000);
    let (elapsed, kills) = stop_with(&mut m, &id, None);
    assert_eq!(elapsed, GRACE_CEILING_MS);
    assert_eq!(kills, 1);
    assert_eq!(m.get_server(&id).unwrap().status, ServerStatus::Stopped);
    assert!(!m.has_process(&id));
    assert!(!m.finish_stop(&id));
}

#[test]
fn poll_decisions() {
    let (mut m, id) = manager_with_server("4G");
    start(&mut m, &id, 1000);
    m.stop_server(&id).unwrap();
    assert_eq!(m.poll_stop(&id, false, 0), StopPoll::Wait(POLL_INTERVAL_MS));
    assert!(m.has_process(&id));
    assert_eq!(m.poll_stop(&id, false, GRACE_CEILING_MS), StopPoll::Finish);
    assert!(m.has_process(&id));
    assert_eq!(m.poll_stop(&id, true, 400), StopPoll::Finish);
    assert!(!m.has_process(&id));
    assert_eq!(m.poll_stop(&id, false, 600), StopPoll::Finish);
}

#[test]
fn stdin_is_lent_to_one_writer() {
    let (mut m, id) = manager_with_server("4G");
    assert_eq!(m.take_stdin(&id), Err(ServerError::NotRunning));
    start(&mut m, &id, 1000);
    assert_eq!(m.take_stdin(&id), Ok(()));
    assert_eq!(m.take_stdin(&id), Err(ServerError::NotRunning));
    m.return_stdin(&id);
    assert_eq!(m.take_stdin(&id), Ok(()));
}

#[test]
fn restart_steps() {
    let (mut m, id) = manager_with_server("4G");
    assert_eq!(m.restart_server(&id), Ok(RestartStep::StartOnly));
    m.start_server(&id, 5).unwrap();
    assert_eq!(m.restart_server(&id), Ok(RestartStep::StopThenStart));
    m.mark_started(&id).unwrap();
    assert_eq!(m.restart_server(&id), Ok(RestartStep::StopThenStart));
    m.stop_server(&id).unwrap();
    assert_eq!(m.restart_server(&id), Ok(RestartStep::StartOnly));
}

#[test]
fn persist_then_reload_round_trip() {
    let (mut m, a) = manager_with_server("4G");
    m.create_server("Creative".to_string(), "1.21".to_string(), ServerType::Forge, 25566, "8G".to_string())
        .unwrap();
    m.set_auto_restart(&a, true, RestartType::Schedule, 3600, Some("04:00".to_string()), Some("Asia/Tokyo".to_string()))
        .unwrap();
    let snapshot = m.get_servers();
    let mut fresh = ServerManager::new("/elsewhere".to_string());
    fresh.load_servers(snapshot.clone());
    assert_eq!(fresh.get_servers().len(), 2);
    for rec in &snapshot {
        let back = fresh.get_server(&rec.id).unwrap();
        assert_eq!(format!("{:?}", back), format!("{:?}", rec));
    }
}

#[test]
fn reload_forces_stopped_and_merges() {
    let (mut m, id) = manager_with_server("4G");
    start(&mut m, &id, 77);
    let snapshot = m.get_servers();
    let mut fresh = ServerManager::new("/x".to_string());
    fresh.load_servers(snapshot.clone());
    fresh.load_servers(snapshot);
    let back = fresh.get_server(&id).unwrap();
    assert_eq!(back.status, ServerStatus::Stopped);
    assert!(back.pid.is_none());
    assert_eq!(back.last_start_time, Some(77));
    assert_eq!(fresh.get_servers().len(), 1);
    let again = m.get_servers();
    m.load_servers(again);
    assert_eq!(m.get_server(&id).unwrap().status, ServerStatus::Running);
}

#[test]
fn settings_and_removal() {
    let (mut m, id) = manager_with_server("4G");
    m.set_server_memory(&id, "6G", "2G").unwrap();
    let info = m.get_server(&id).unwrap();
    assert_eq!(info.max_memory, "6G");
    assert_eq!(info.min_memory, "2G");
    m.set_auto_restart(&id, true, RestartType::Interval, 120, None, None).unwrap();
    let info = m.get_server(&id).unwrap();
    assert!(info.auto_restart);
    assert_eq!(info.restart_interval, 120);
    assert_eq!(m.set_server_memory("nope", "1G", "1G"), Err(ServerError::NotFound));
    assert_eq!(m.set_auto_restart("nope", true, RestartType::Interval, 1, None, None), Err(ServerError::NotFound));
    let removed = m.remove_server(&id).unwrap();
    assert_eq!(removed.id, id);
    assert!(m.get_server(&id).is_none());
    assert!(m.get_servers().is_empty());
}

#[test]
fn plugin_directories() {
    let mut m = ServerManager::new("/srv".to_string());
    let paper = m.create_server("p".to_string(), "1.20".to_string(), ServerType::Paper, 1, "1G".to_string()).unwrap();
    let forge = m.create_server("f".to_string(), "1.20".to_string(), ServerType::Forge, 2, "1G".to_string()).unwrap();
    assert!(m.get_plugins_path(&paper.id).unwrap().ends_with("plugins"));
    assert!(m.get_plugins_path(&forge.id).unwrap().ends_with("mods"));
}

#[test]
fn console_lines() {
    assert_eq!(command_line("say hi"), "say hi\n");
    assert_eq!(command_line(" list "), " list \n");
    assert_eq!(command_line("stop"), "stop\n");
    assert_eq!(grant_op_command("Steve"), "op Steve");
    assert_eq!(revoke_op_command("Alex"), "deop Alex");
}

#[test]
fn create_with_given_id() {
    let mut m = ServerManager::new("/srv/games".to_string());
    let info = m
        .create_server_with_id("abc".to_string(), "n".to_string(), "1.20".to_string(), ServerType::Vanilla, 1, "2G".to_string())
        .unwrap();
    assert_eq!(info.id, "abc");
    let sep = std::path::MAIN_SEPARATOR;
    assert_eq!(info.path, format!("/srv/games{}abc", sep));
    assert_eq!(
        m.create_server_with_id("abc".to_string(), "x".to_string(), "1.20".to_string(), ServerType::Paper, 2, "1G".to_string())
            .err(),
        Some(ServerError::DuplicateId)
    );
    assert_eq!(m.get_server("abc").unwrap().name, "n");
    let mut t = ServerManager::new("/srv/".to_string());
    let j = t
        .create_server_with_id("x".to_string(), "n".to_string(), "v".to_string(), ServerType::Vanilla, 1, "1G".to_string())
        .unwrap();
    if sep == '/' {
        assert_eq!(j.path, "/srv/x");
    }
}

#[test]
fn jar_path_joins_install_path() {
    let (mut m, id) = manager_with_server("4G");
    let path = m.get_server(&id).unwrap().path;
    let plan = m.start_server(&id, 1).unwrap();
    assert_eq!(plan.jar_path, format!("{}{}server.jar", path, std::path::MAIN_SEPARATOR));
    assert_eq!(plan.args.len(), 22);
}
