use cloud_sync::control::{finish_sync, handle_control_command, parse_command, reload_reply, ControlAction, ControlCommand, ControlState};
use cloud_sync::status::{format_status, parse_status};

#[test]
fn test_parse_status() {
    let raw = "Status: OK\nPaused: false\nWatch Directory: \"/watch/dir\"\nConfig File: \"private.toml\"\nActive Backends: [\"Google Drive\",\"Dropbox\"]\nFailed Backends: [\"Google Drive\"]\nSyncing: false\nWeb UI Address: \"127.0.0.1:8082\"\n";
    let status = parse_status(raw);
    assert!(!status.paused);
    assert_eq!(status.watch_directory, "/watch/dir");
    assert_eq!(status.config_file, "private.toml");
    assert_eq!(status.active_backends, vec!["Google Drive".to_string(), "Dropbox".to_string()]);
    assert_eq!(status.failed_backends, vec!["Google Drive".to_string()]);
    assert!(!status.syncing);
    assert_eq!(status.web_ui_address, "127.0.0.1:8082");
}

#[test]
fn status_report_reads_back() {
    let names = vec!["Google Drive".to_string(), "Dropbox".to_string()];
    let text = format_status(true, "/home/me/watch", "config.toml", &names, false, &Some("127.0.0.1:8082".to_string()));
    assert_eq!(
        text,
        "Status: OK\nPaused: true\nWatch Directory: \"/home/me/watch\"\nConfig File: config.toml\nActive Backends: [\"Google Drive\", \"Dropbox\"]\nSyncing: false\nWeb UI Address: 127.0.0.1:8082\n"
    );
    let st = parse_status(&text);
    assert!(st.paused);
    assert_eq!(st.watch_directory, "/home/me/watch");
    assert_eq!(st.config_file, "config.toml");
    assert_eq!(st.active_backends, names);
    assert!(st.failed_backends.is_empty());
    assert!(!st.syncing);
    assert_eq!(st.web_ui_address, "127.0.0.1:8082");
}

#[test]
fn status_without_web_address_shows_dash() {
    let text = format_status(false, "w", "c.toml", &vec![], true, &None);
    assert!(text.ends_with("Active Backends: []\nSyncing: true\nWeb UI Address: -\n"));
    let st = parse_status(&text);
    assert!(st.active_backends.is_empty());
    assert!(st.syncing);
    assert_eq!(st.web_ui_address, "-");
}

#[test]
fn status_escapes_special_characters_in_names() {
    let text = format_status(false, "a\"b", "c", &vec!["x\\y".to_string()], false, &None);
    assert!(text.contains("Watch Directory: \"a\\\"b\"\n"));
    assert!(text.contains("Active Backends: [\"x\\\\y\"]\n"));
}

#[test]
fn parse_status_handles_carriage_returns_and_unknown_lines() {
    let st = parse_status("Paused: true\r\nSomething: else\r\nSyncing: true");
    assert!(st.paused);
    assert!(st.syncing);
    let st = parse_status("Paused: yes\nActive Backends: not a list\n");
    assert!(!st.paused);
    assert!(st.active_backends.is_empty());
    let st = parse_status("Active Backends: [\"a\", , \"b\"]\nActive Backends: [\"c\"]\n");
    assert_eq!(st.active_backends, vec!["a".to_string(), "b".to_string(), "c".to_string()]);
}

#[test]
fn empty_status_text_gives_the_defaults() {
    let st = parse_status("");
    assert!(!st.paused);
    assert!(!st.syncing);
    assert_eq!(st.watch_directory, "");
    assert_eq!(st.config_file, "");
    assert_eq!(st.web_ui_address, "");
    assert!(st.active_backends.is_empty());
    assert!(st.failed_backends.is_empty());
}

#[test]
fn listed_backends_are_never_empty_names() {
    let st = parse_status("Active Backends: [\"\", \"a\", ,\"\"]\nFailed Backends: [ \"\" ]\n");
    assert_eq!(st.active_backends, vec!["a".to_string()]);
    assert!(st.failed_backends.is_empty());
}

#[test]
fn control_commands_are_recognised_exactly() {
    assert_eq!(parse_command("status"), ControlCommand::Status);
    assert_eq!(parse_command("pause"), ControlCommand::Pause);
    assert_eq!(parse_command("resume"), ControlCommand::Resume);
    assert_eq!(parse_command("reload"), ControlCommand::Reload);
    assert_eq!(parse_command("sync"), ControlCommand::Sync);
    assert_eq!(parse_command("stop"), ControlCommand::Stop);
    assert_eq!(parse_command("Status"), ControlCommand::Unknown);
    assert_eq!(parse_command(" sync"), ControlCommand::Unknown);
}

#[test]
fn pause_and_resume_change_the_flag() {
    let mut st = ControlState { paused: false, syncing: true };
    let o = handle_control_command("pause", &mut st);
    assert_eq!(o.action, ControlAction::Reply);
    assert_eq!(o.reply, "Status: Paused\n");
    assert_eq!(st, ControlState { paused: true, syncing: true });
    let o = handle_control_command("resume", &mut st);
    assert_eq!(o.reply, "Status: Resumed\n");
    assert_eq!(st, ControlState { paused: false, syncing: true });
}

#[test]
fn manual_sync_is_refused_while_one_runs() {
    let mut st = ControlState { paused: false, syncing: false };
    let o = handle_control_command("sync", &mut st);
    assert_eq!(o.action, ControlAction::StartSync);
    assert_eq!(o.reply, "Status: Sync triggered in background\n");
    assert!(st.syncing);
    let o = handle_control_command("sync", &mut st);
    assert_eq!(o.action, ControlAction::Reply);
    assert_eq!(o.reply, "Error: Sync already in progress\n");
    finish_sync(&mut st);
    assert!(!st.syncing);
    assert_eq!(handle_control_command("sync", &mut st).action, ControlAction::StartSync);
}

#[test]
fn other_commands() {
    let mut st = ControlState { paused: true, syncing: false };
    let o = handle_control_command("status", &mut st);
    assert_eq!(o.action, ControlAction::ReportStatus);
    assert_eq!(handle_control_command("reload", &mut st).action, ControlAction::ReloadConfig);
    let o = handle_control_command("stop", &mut st);
    assert_eq!(o.action, ControlAction::Shutdown);
    assert_eq!(o.reply, "Status: Stopping daemon...\n");
    let o = handle_control_command("restart", &mut st);
    assert_eq!(o.reply, "Error: Unknown command. Supported: status, pause, resume, reload, sync, stop\n");
    assert_eq!(st, ControlState { paused: true, syncing: false });
    assert_eq!(reload_reply(None), "Status: Config reloaded successfully\n");
    assert_eq!(reload_reply(Some("missing file")), "Error: Failed to reload config: missing file\n");
}
