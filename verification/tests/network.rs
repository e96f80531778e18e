//! The link supervisor and the W5500 socket bookkeeping.

use nucleo_h723zg_udp_echo::network::{
    check_chip_version, dhcp_service_due, echo_socket_change, link_supervisor_start,
    link_supervisor_step, macraw_init_status, mask_with_echo, mask_without_echo, ConfigChange,
    EchoSocketChange, InitError, LinkEvent, LinkPhase, MacrawInit, Server, StaticIpv4,
    EXPECTED_CHIP_VERSION,
};
use nucleo_h723zg_udp_echo::{FALLBACK_ADDRESS, FALLBACK_GATEWAY, FALLBACK_PREFIX_LENGTH};

#[test]
fn the_supervisor_starts_with_the_error_led_lit() {
    let step = link_supervisor_start();
    assert_eq!(step.phase, LinkPhase::WaitingForLink);
    assert!(!step.ready_led);
    assert!(step.error_led);
    assert_eq!(step.config, ConfigChange::Keep);
}

#[test]
fn a_dhcp_lease_brings_the_board_into_service() {
    let up = link_supervisor_step(LinkPhase::WaitingForLink, LinkEvent::LinkUp);
    assert_eq!(up.phase, LinkPhase::WaitingForAddress);
    assert!(up.error_led && !up.ready_led);
    assert_eq!(up.config, ConfigChange::Keep);

    let served = link_supervisor_step(up.phase, LinkEvent::AddressConfigured);
    assert_eq!(served.phase, LinkPhase::Serving);
    assert!(served.ready_led && !served.error_led);
    assert_eq!(served.config, ConfigChange::Keep);
}

#[test]
fn a_dhcp_timeout_falls_back_to_the_static_address() {
    let step = link_supervisor_step(LinkPhase::WaitingForAddress, LinkEvent::DhcpTimedOut);
    assert_eq!(step.phase, LinkPhase::Serving);
    assert!(step.ready_led && !step.error_led);
    assert_eq!(
        step.config,
        ConfigChange::UseStatic(StaticIpv4 {
            address: FALLBACK_ADDRESS,
            prefix_length: FALLBACK_PREFIX_LENGTH,
            gateway: FALLBACK_GATEWAY,
        })
    );
}

#[test]
fn losing_the_link_returns_to_dhcp() {
    let step = link_supervisor_step(LinkPhase::Serving, LinkEvent::LinkDown);
    assert_eq!(step.phase, LinkPhase::WaitingForLink);
    assert!(step.error_led && !step.ready_led);
    assert_eq!(step.config, ConfigChange::UseDhcp);
}

#[test]
fn only_the_expected_chip_version_is_accepted() {
    assert!(check_chip_version::<()>(EXPECTED_CHIP_VERSION).is_ok());
    assert!(matches!(
        check_chip_version::<()>(0x05),
        Err(InitError::InvalidVersion(0x05))
    ));
}

#[test]
fn dhcp_runs_when_due_or_when_its_socket_interrupts() {
    assert!(dhcp_service_due(true, 0));
    assert!(dhcp_service_due(false, 0b0000_0001));
    assert!(!dhcp_service_due(false, 0b0000_0110));
}

#[test]
fn the_echo_socket_follows_the_lease() {
    assert_eq!(echo_socket_change(false, true), EchoSocketChange::Bind);
    assert_eq!(echo_socket_change(true, false), EchoSocketChange::Close);
    assert_eq!(echo_socket_change(true, true), EchoSocketChange::Keep);
    assert_eq!(echo_socket_change(false, false), EchoSocketChange::Keep);
}

#[test]
fn interrupt_masks_add_and_remove_the_echo_socket() {
    assert_eq!(mask_with_echo(0b0000_0001, false), 0b0000_0011);
    assert_eq!(mask_with_echo(0b0000_0001, true), 0b0000_0111);
    assert_eq!(mask_without_echo(0b0000_0111), 0b0000_0101);
    assert_eq!(mask_without_echo(0b0000_0001), 0b0000_0001);
}

#[test]
fn macraw_status_words_encode_the_outcome() {
    assert_eq!(macraw_init_status(MacrawInit::Ready), 1);
    assert_eq!(macraw_init_status(MacrawInit::InvalidChipVersion(0x03)), 0x103);
    assert_eq!(macraw_init_status(MacrawInit::SpiError), 0x200);
}

#[test]
fn the_offload_server_echoes_non_empty_datagrams_and_counts_them() {
    let mut server = Server::new();
    assert_eq!(server.echo_count, 0);
    assert_eq!(server.reply_length(0), None);
    assert_eq!(server.reply_length(1472), Some(1472));
    server.record_echo();
    server.record_echo();
    assert_eq!(server.echo_count, 2);

    server.echo_count = u32::MAX;
    server.record_echo();
    assert_eq!(server.echo_count, 0);
}
