//! The SSH management shell: authentication, line editing and replies.

use nucleo_h723zg_udp_echo::shell::{
    ascii_text, exec_command_fits, execute_command, pubkey_auth_allowed, respond_to_event,
    write_status, ChannelGate, SshEvent, SshResponse, Ipv4Status, LineAction, LineEditor, NetworkStatus, COMMAND_CAPACITY, GOODBYE,
    HELP_TEXT,
};
use nucleo_h723zg_udp_echo::{parse_ssh_command, SshCommand};

const KEY: [u8; 32] = [7; 32];

#[test]
fn only_the_board_user_with_the_authorized_key_logs_in() {
    assert!(pubkey_auth_allowed("board", Some(KEY), &KEY));
    assert!(!pubkey_auth_allowed("root", Some(KEY), &KEY));
    let mut other = KEY;
    other[31] = 8;
    assert!(!pubkey_auth_allowed("board", Some(other), &KEY));
    assert!(!pubkey_auth_allowed("board", None, &KEY));
}

#[test]
fn exec_commands_must_fit_the_line_buffer() {
    assert!(exec_command_fits(&"x".repeat(COMMAND_CAPACITY)));
    assert!(!exec_command_fits(&"x".repeat(COMMAND_CAPACITY + 1)));
}

#[test]
fn one_session_channel_at_a_time() {
    let mut gate = ChannelGate::new();
    assert!(gate.may_open());
    gate.record_opened(3);
    assert!(!gate.may_open());
    assert!(!gate.claim(4));
    assert!(gate.may_open());
    gate.record_opened(5);
    assert!(gate.claim(5));
    assert!(gate.opened.is_none());
}

#[test]
fn the_line_editor_echoes_erases_and_submits() {
    let mut editor = LineEditor::new();
    assert_eq!(editor.feed(b'h'), LineAction::Echo(b'h'));
    assert_eq!(editor.feed(b'x'), LineAction::Echo(b'x'));
    assert_eq!(editor.feed(0x7f), LineAction::Erase);
    assert_eq!(editor.feed(b'i'), LineAction::Echo(b'i'));
    assert_eq!(editor.feed(0x1b), LineAction::Ignore);
    assert_eq!(editor.feed(b'\r'), LineAction::Submit(String::from("hi")));
    // The LF of a CRLF pair is swallowed.
    assert_eq!(editor.feed(b'\n'), LineAction::Ignore);
    // A lone LF submits an empty line.
    assert_eq!(editor.feed(b'\n'), LineAction::Submit(String::new()));
    assert_eq!(editor.feed(0x08), LineAction::Ignore);
    assert_eq!(editor.feed(0x04), LineAction::Close);
}

#[test]
fn the_line_editor_ignores_bytes_beyond_its_capacity() {
    let mut editor = LineEditor::new();
    for _ in 0..COMMAND_CAPACITY {
        assert_eq!(editor.feed(b'a'), LineAction::Echo(b'a'));
    }
    assert_eq!(editor.feed(b'b'), LineAction::Ignore);
    assert_eq!(
        editor.feed(b'\r'),
        LineAction::Submit("a".repeat(COMMAND_CAPACITY))
    );
}

#[test]
fn ascii_bytes_become_the_same_text() {
    assert_eq!(ascii_text(&b"status ~{}".to_vec()), "status ~{}");
    assert_eq!(ascii_text(&Vec::new()), "");
}

fn configured() -> NetworkStatus {
    NetworkStatus {
        link_up: true,
        ipv4: Some(Ipv4Status {
            address: [192, 168, 0, 10],
            prefix_length: 24,
            gateway: Some([192, 168, 0, 1]),
        }),
    }
}

#[test]
fn status_reports_link_address_and_ports() {
    assert_eq!(
        write_status(&configured()),
        "Ethernet link: up\r\nIPv4 address: 192.168.0.10/24\r\nGateway: 192.168.0.1\r\n\
         UDP echo: port 7\r\nSSH: port 2222\r\n"
    );
    let unconfigured = NetworkStatus { link_up: false, ipv4: None };
    assert_eq!(
        write_status(&unconfigured),
        "Ethernet link: down\r\nIPv4 address: not configured\r\nUDP echo: port 7\r\nSSH: port 2222\r\n"
    );
    let no_gateway = NetworkStatus {
        link_up: true,
        ipv4: Some(Ipv4Status { address: [10, 0, 0, 255], prefix_length: 8, gateway: None }),
    };
    assert_eq!(
        write_status(&no_gateway),
        "Ethernet link: up\r\nIPv4 address: 10.0.0.255/8\r\nUDP echo: port 7\r\nSSH: port 2222\r\n"
    );
}

#[test]
fn commands_get_their_replies_and_only_exit_closes() {
    let status = configured();
    let help = execute_command(&SshCommand::Help, &status);
    assert_eq!(help.text, HELP_TEXT);
    assert!(help.keep_open);

    let echo = execute_command(&parse_ssh_command("echo hello"), &status);
    assert_eq!(echo.text, "hello\r\n");
    assert!(echo.keep_open);

    let unknown = execute_command(&parse_ssh_command("reboot now"), &status);
    assert_eq!(unknown.text, "unknown command: reboot now\r\n");
    assert!(unknown.keep_open);

    let exit = execute_command(&parse_ssh_command("exit"), &status);
    assert_eq!(exit.text, GOODBYE);
    assert!(!exit.keep_open);

    let shown = execute_command(&SshCommand::Status, &status);
    assert_eq!(shown.text, write_status(&status));
}

#[test]
fn ssh_events_get_their_fixed_answers() {
    let mut gate = ChannelGate::new();
    assert_eq!(respond_to_event(&mut gate, &SshEvent::Hostkeys, &KEY), SshResponse::SendHostKey);
    assert_eq!(
        respond_to_event(&mut gate, &SshEvent::FirstAuth, &KEY),
        SshResponse::OfferPublicKeyOnly
    );
    assert_eq!(respond_to_event(&mut gate, &SshEvent::PasswordAuth, &KEY), SshResponse::RejectAuth);
    let good = SshEvent::PubkeyAuth { username: "board", key: Some(KEY) };
    assert_eq!(respond_to_event(&mut gate, &good, &KEY), SshResponse::AllowAuth);
    let wrong_user = SshEvent::PubkeyAuth { username: "admin", key: Some(KEY) };
    assert_eq!(respond_to_event(&mut gate, &wrong_user, &KEY), SshResponse::RejectAuth);
    let other_kind = SshEvent::PubkeyAuth { username: "board", key: None };
    assert_eq!(respond_to_event(&mut gate, &other_kind, &KEY), SshResponse::RejectAuth);
    assert_eq!(respond_to_event(&mut gate, &SshEvent::Authenticated, &KEY), SshResponse::Nothing);
    assert_eq!(respond_to_event(&mut gate, &SshEvent::SessionPty, &KEY), SshResponse::Succeed);
    assert_eq!(respond_to_event(&mut gate, &SshEvent::SessionEnv, &KEY), SshResponse::Succeed);
    assert_eq!(respond_to_event(&mut gate, &SshEvent::SessionSubsystem, &KEY), SshResponse::Fail);
    assert_eq!(respond_to_event(&mut gate, &SshEvent::PollAgain, &KEY), SshResponse::Nothing);
    assert_eq!(respond_to_event(&mut gate, &SshEvent::Defunct, &KEY), SshResponse::Finish);
}

#[test]
fn one_channel_carries_one_shell_or_command() {
    let mut gate = ChannelGate::new();
    assert_eq!(respond_to_event(&mut gate, &SshEvent::OpenSession, &KEY), SshResponse::AcceptChannel);
    gate.record_opened(0);
    assert_eq!(respond_to_event(&mut gate, &SshEvent::OpenSession, &KEY), SshResponse::RejectChannel);
    assert_eq!(
        respond_to_event(&mut gate, &SshEvent::SessionShell { channel: 0 }, &KEY),
        SshResponse::QueueShell(0)
    );
    // The channel was claimed: a second request fails.
    assert_eq!(
        respond_to_event(&mut gate, &SshEvent::SessionShell { channel: 0 }, &KEY),
        SshResponse::Fail
    );

    gate.record_opened(1);
    let long = "x".repeat(COMMAND_CAPACITY + 1);
    assert_eq!(
        respond_to_event(&mut gate, &SshEvent::SessionExec { channel: 1, command: &long }, &KEY),
        SshResponse::CommandTooLong
    );
    assert_eq!(gate.opened, Some(1));
    assert_eq!(
        respond_to_event(&mut gate, &SshEvent::SessionExec { channel: 2, command: "status" }, &KEY),
        SshResponse::Fail
    );
    assert_eq!(gate.opened, None);
    gate.record_opened(3);
    assert_eq!(
        respond_to_event(&mut gate, &SshEvent::SessionExec { channel: 3, command: "status" }, &KEY),
        SshResponse::QueueExec(3)
    );
}
