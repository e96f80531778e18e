//! Network bring-up decisions: link and IPv4 supervision for the Embassy
//! firmware, and the W5500 hardware-offload socket and DHCP bookkeeping.
use vstd::prelude::*;

use crate::{FALLBACK_ADDRESS, FALLBACK_GATEWAY, FALLBACK_PREFIX_LENGTH};

verus! {

/// Seconds a DHCP server is given before the static fallback is used.
pub const DHCP_TIMEOUT_SECONDS: u64 = 30;

/// What the link supervisor waits for.
#[derive(Clone, Copy, Debug, PartialEq, Eq, Structural)]
pub enum LinkPhase {
    /// No Ethernet link.
    WaitingForLink,
    /// Link up; waiting for DHCP, at most [`DHCP_TIMEOUT_SECONDS`].
    WaitingForAddress,
    /// Link up and IPv4 configured; waiting for the link to drop.
    Serving,
}

/// What the supervisor observed.
#[derive(Clone, Copy, Debug, PartialEq, Eq, Structural)]
pub enum LinkEvent {
    LinkUp,
    AddressConfigured,
    DhcpTimedOut,
    LinkDown,
}

/// A static IPv4 configuration.
#[derive(Clone, Copy, Debug, PartialEq, Eq)]
pub struct StaticIpv4 {
    pub address: [u8; 4],
    pub prefix_length: u8,
    pub gateway: [u8; 4],
}

/// A change to the interface's IPv4 configuration.
#[derive(Clone, Copy, Debug, PartialEq, Eq)]
pub enum ConfigChange {
    Keep,
    /// Use the static fallback.
    UseStatic(StaticIpv4),
    /// Return to DHCP so a reconnect can obtain a fresh lease.
    UseDhcp,
}

/// The supervisor's response to an event.
#[derive(Clone, Copy, Debug, PartialEq, Eq)]
pub struct LinkStep {
    pub phase: LinkPhase,
    pub ready_led: bool,
    pub error_led: bool,
    pub config: ConfigChange,
}

/// The fallback configuration: 192.168.0.10/24 via 192.168.0.1.
pub open spec fn fallback_config() -> StaticIpv4 {
    StaticIpv4 {
        address: FALLBACK_ADDRESS,
        prefix_length: FALLBACK_PREFIX_LENGTH,
        gateway: FALLBACK_GATEWAY,
    }
}

/// The events the supervisor can observe in `phase`.
pub open spec fn expected_event(phase: LinkPhase, event: LinkEvent) -> bool {
    match phase {
        LinkPhase::WaitingForLink => event == LinkEvent::LinkUp,
        LinkPhase::WaitingForAddress => event == LinkEvent::AddressConfigured || event
            == LinkEvent::DhcpTimedOut,
        LinkPhase::Serving => event == LinkEvent::LinkDown,
    }
}

/// The LEDs show the phase: ready exactly when serving, error otherwise.
pub open spec fn leds_match(step: LinkStep) -> bool {
    step.ready_led == (step.phase == LinkPhase::Serving) && step.error_led == !step.ready_led
}

/// The supervisor at power-up: not ready, waiting for a link.
pub fn link_supervisor_start() -> (step: LinkStep)
    ensures
        step.phase == LinkPhase::WaitingForLink,
        step.config == ConfigChange::Keep,
        leds_match(step),
{
    LinkStep { phase: LinkPhase::WaitingForLink, ready_led: false, error_led: true, config: ConfigChange::Keep }
}

/// The supervisor's step on `event` in `phase`. A link comes up: wait for an
/// address. DHCP answers: serve. DHCP times out: serve with the static
/// fallback. The link drops: go back to DHCP and wait for the link.
pub fn link_supervisor_step(phase: LinkPhase, event: LinkEvent) -> (step: LinkStep)
    requires
        expected_event(phase, event),
    ensures
        leds_match(step),
        step.phase == match event {
            LinkEvent::LinkUp => LinkPhase::WaitingForAddress,
            LinkEvent::AddressConfigured => LinkPhase::Serving,
            LinkEvent::DhcpTimedOut => LinkPhase::Serving,
            LinkEvent::LinkDown => LinkPhase::WaitingForLink,
        },
        step.config == match event {
            LinkEvent::DhcpTimedOut => ConfigChange::UseStatic(fallback_config()),
            LinkEvent::LinkDown => ConfigChange::UseDhcp,
            _ => ConfigChange::Keep,
        },
{
    match event {
        LinkEvent::LinkUp => LinkStep {
            phase: LinkPhase::WaitingForAddress,
            ready_led: false,
            error_led: true,
            config: ConfigChange::Keep,
        },
        LinkEvent::AddressConfigured => LinkStep {
            phase: LinkPhase::Serving,
            ready_led: true,
            error_led: false,
            config: ConfigChange::Keep,
        },
        LinkEvent::DhcpTimedOut => LinkStep {
            phase: LinkPhase::Serving,
            ready_led: true,
            error_led: false,
            config: ConfigChange::UseStatic(
                StaticIpv4 {
                    address: FALLBACK_ADDRESS,
                    prefix_length: FALLBACK_PREFIX_LENGTH,
                    gateway: FALLBACK_GATEWAY,
                },
            ),
        },
        LinkEvent::LinkDown => LinkStep {
            phase: LinkPhase::WaitingForLink,
            ready_led: false,
            error_led: true,
            config: ConfigChange::UseDhcp,
        },
    }
}

/// The W5500 socket used by the DHCP client.
pub const DHCP_SOCKET: u8 = 0;

/// The W5500 socket that echoes UDP datagrams.
pub const ECHO_SOCKET: u8 = 1;

/// The W5500 socket that answers profiling requests.
pub const PROFILING_SOCKET: u8 = 2;

/// The W5500 chip version this firmware expects.
pub const EXPECTED_CHIP_VERSION: u8 = 0x04;

/// Why the W5500 could not be brought up.
#[derive(Debug)]
pub enum InitError<E> {
    /// An SPI transaction failed.
    Spi(E),
    /// The chip reported another version.
    InvalidVersion(u8),
}

/// Accept the W5500 only if it reports the expected chip version.
pub fn check_chip_version<E>(version: u8) -> (checked: Result<(), InitError<E>>)
    ensures
        checked is Ok <==> version == EXPECTED_CHIP_VERSION,
        checked matches Err(error) ==> error == InitError::<E>::InvalidVersion(version),
{
    if version != EXPECTED_CHIP_VERSION {
        Err(InitError::InvalidVersion(version))
    } else {
        Ok(())
    }
}

/// DHCP is serviced when its one-second maintenance is due or its socket
/// raised an interrupt.
pub fn dhcp_service_due(maintenance_due: bool, socket_interrupts: u8) -> (due: bool)
    ensures
        due == (maintenance_due || socket_interrupts & 1u8 != 0),
{
    maintenance_due || socket_interrupts & 1u8 != 0
}

/// What happens to the echo socket after DHCP was serviced.
#[derive(Clone, Copy, Debug, PartialEq, Eq, Structural)]
pub enum EchoSocketChange {
    /// A lease arrived: bind and unmask the echo socket, light the ready LED.
    Bind,
    /// The lease was lost: mask and close the echo socket, light the error LED.
    Close,
    Keep,
}

/// The echo socket follows the DHCP lease.
pub fn echo_socket_change(echo_is_bound: bool, has_lease: bool) -> (change: EchoSocketChange)
    ensures
        change == (if has_lease && !echo_is_bound {
            EchoSocketChange::Bind
        } else if !has_lease && echo_is_bound {
            EchoSocketChange::Close
        } else {
            EchoSocketChange::Keep
        }),
{
    if has_lease && !echo_is_bound {
        EchoSocketChange::Bind
    } else if !has_lease && echo_is_bound {
        EchoSocketChange::Close
    } else {
        EchoSocketChange::Keep
    }
}

/// The socket interrupt mask after binding the echo socket (and, in
/// profiling images, the profiling socket).
pub fn mask_with_echo(sockets: u8, profiling: bool) -> (mask: u8)
    ensures
        mask == if profiling {
            sockets | 2u8 | 4u8
        } else {
            sockets | 2u8
        },
{
    if profiling {
        sockets | 2u8 | 4u8
    } else {
        sockets | 2u8
    }
}

/// The socket interrupt mask after closing the echo socket.
pub fn mask_without_echo(sockets: u8) -> (mask: u8)
    ensures
        mask == sockets & !2u8,
{
    sockets & !2u8
}

/// How initializing the W5500 in MACRAW mode ended.
#[derive(Clone, Copy, Debug, PartialEq, Eq, Structural)]
pub enum MacrawInit {
    Ready,
    InvalidChipVersion(u8),
    SpiError,
}

/// The debugger-readable initialization status: `1` on success,
/// `0x100 | version` for an unexpected chip version, `0x200` after an SPI
/// failure.
pub fn macraw_init_status(outcome: MacrawInit) -> (status: u32)
    ensures
        status == match outcome {
            MacrawInit::Ready => 1,
            MacrawInit::InvalidChipVersion(version) => 0x100 + version,
            MacrawInit::SpiError => 0x200,
        },
{
    match outcome {
        MacrawInit::Ready => 1,
        MacrawInit::InvalidChipVersion(version) => 0x100 + version as u32,
        MacrawInit::SpiError => 0x200,
    }
}


/// The UDP echo algorithm for a W5500 hardwired socket: which datagrams to
/// echo, and a diagnostic count of echoed datagrams.
pub struct Server {
    pub echo_count: u32,
}

impl Server {
    /// A server that has echoed nothing.
    pub fn new() -> (server: Self)
        ensures
            server.echo_count == 0,
    {
        Server { echo_count: 0 }
    }

    /// The number of bytes to echo for a datagram of `length` bytes. The
    /// W5500 never completes a SEND of an empty payload, so an empty datagram
    /// is dropped rather than allowed to wedge the socket.
    pub fn reply_length(&self, length: u16) -> (reply: Option<usize>)
        ensures
            reply == (if length == 0 {
                None
            } else {
                Some(length as usize)
            }),
    {
        if length == 0 {
            None
        } else {
            Some(length as usize)
        }
    }

    /// One datagram was echoed; the count wraps instead of overflowing.
    pub fn record_echo(&mut self)
        ensures
            final(self).echo_count == old(self).echo_count.wrapping_add(1),
    {
        self.echo_count = self.echo_count.wrapping_add(1);
    }
}

} // verus!
