use backmeup::platform::{scaled_screen_dimension, sound_file_name};
use backmeup::service::{
    active_session_user, backup_program_listed, handle_service_control, schtasks_create_args, schtasks_run_args,
    stops_after, ControlHandlerReply,
    ServiceControlRequest, SessionError, ShutdownPoll,
};
use backmeup::window::{close_backup_window, is_window_open};

#[test]
fn control_requests() {
    let r = handle_service_control(ServiceControlRequest::Interrogate);
    assert!(!r.request_shutdown);
    assert_eq!(r.reply, ControlHandlerReply::NoError);
    let r = handle_service_control(ServiceControlRequest::Stop);
    assert!(r.request_shutdown);
    assert_eq!(r.reply, ControlHandlerReply::NoError);
    let r = handle_service_control(ServiceControlRequest::UserEvent(130));
    assert!(r.request_shutdown);
    assert_eq!(r.reply, ControlHandlerReply::NoError);
    let r = handle_service_control(ServiceControlRequest::UserEvent(129));
    assert!(!r.request_shutdown);
    assert_eq!(r.reply, ControlHandlerReply::NoError);
    let r = handle_service_control(ServiceControlRequest::Other);
    assert!(!r.request_shutdown);
    assert_eq!(r.reply, ControlHandlerReply::NotImplemented);
}

#[test]
fn polling_stops_unless_timed_out() {
    assert!(stops_after(ShutdownPoll::Signalled));
    assert!(stops_after(ShutdownPoll::Disconnected));
    assert!(!stops_after(ShutdownPoll::TimedOut));
}

#[test]
fn session_user_from_query_output() {
    let out = " SESSIONNAME       USERNAME                 ID  STATE   TYPE        DEVICE \r\n services                                    0  Disc                        \r\n>console           maldimeriggio             1  Active                      \r\n";
    assert_eq!(active_session_user(out), Ok("maldimeriggio".to_string()));
}

#[test]
fn session_user_errors() {
    assert_eq!(active_session_user(""), Err(SessionError::NoActiveSession));
    assert_eq!(active_session_user("console x 1 Disc\n"), Err(SessionError::NoActiveSession));
    assert_eq!(active_session_user("\n  Active  \n"), Err(SessionError::UnparsableUserName));
}

#[test]
fn session_user_takes_first_active_line() {
    let out = "a Active\nb carol Active\n";
    assert_eq!(active_session_user(out), Ok("Active".to_string()));
    let out = "x\n>rdp-tcp#0  dave  2  Active\n>console  erin  1  Active\n";
    assert_eq!(active_session_user(out), Ok("dave".to_string()));
}

#[test]
fn tasklist_output() {
    assert!(backup_program_listed("backup_program.exe            4242 Console    1     12,000 K\r\n"));
    assert!(!backup_program_listed("INFO: No tasks are running which match the specified criteria.\r\n"));
}

#[test]
fn sound_files() {
    assert_eq!(sound_file_name(0), "blip-131856.mp3");
    assert_eq!(sound_file_name(1), "success-48018.mp3");
    assert_eq!(sound_file_name(2), "stop-13692.mp3");
    assert_eq!(sound_file_name(-7), "stop-13692.mp3");
}

#[test]
fn screen_dimensions_enlarged_by_a_quarter() {
    assert_eq!(scaled_screen_dimension(1920), 2400);
    assert_eq!(scaled_screen_dimension(1080), 1350);
    assert_eq!(scaled_screen_dimension(1366), 1707);
    assert_eq!(scaled_screen_dimension(0), 0);
    assert_eq!(scaled_screen_dimension(-10), -12);
}

#[test]
fn window_flag() {
    let mut flag = false;
    assert!(is_window_open(&flag));
    close_backup_window(&mut flag);
    assert!(flag);
    assert!(!is_window_open(&flag));
    close_backup_window(&mut flag);
    assert!(!is_window_open(&flag));
}

#[test]
fn scheduled_task_arguments() {
    assert_eq!(
        schtasks_create_args("C:\\BackMeUp\\bin\\backup_program.exe", "14:07", "maldimeriggio"),
        vec![
            "/Create",
            "/TN",
            "BackupProgramLauncher",
            "/TR",
            "C:\\BackMeUp\\bin\\backup_program.exe",
            "/SC",
            "ONCE",
            "/ST",
            "14:07",
            "/RU",
            "maldimeriggio",
            "/IT",
            "/F",
            "/RL",
            "HIGHEST",
        ]
    );
    assert_eq!(schtasks_run_args(), vec!["/Run", "/TN", "BackupProgramLauncher"]);
}
