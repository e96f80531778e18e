//! Hardware-independent rules of the NUCLEO-H723ZG UDP echo, SSH management
//! and firmware-update firmware, together with the packet formats and
//! bookkeeping of its host-side UDP benchmark.

pub mod bench_protocol;
pub mod bench_runner;
pub mod cli;
pub mod counters;
pub mod digest;
pub mod echo;
pub mod firmware_update;
pub mod network;
pub mod profiling;
pub mod shell;
pub mod ssh_command;
pub mod stats;
pub mod stop_and_wait;
pub mod telemetry;
pub mod update_header;

pub use echo::echo_payload;
pub use ssh_command::{parse_ssh_command, SshCommand};
pub use update_header::{
    has_mcuboot_image_magic, mcuboot_image_ok_block, mcuboot_magic_block,
    mcuboot_test_swap_info_block, trailer_image_ok_offset, trailer_magic_block_offset,
    trailer_swap_info_offset, UpdateHeader, UpdateHeaderError,
};

use vstd::prelude::*;

verus! {

/// Locally administered, unicast Ethernet address used by this example.
pub const MAC_ADDRESS: [u8; 6] = [0x02, 0x00, 0x00, 0x00, 0x00, 0x00];

/// Locally administered address used only by the SPI-connected W5500 shield.
pub const W5500_MAC_ADDRESS: [u8; 6] = [0x02, 0x00, 0x00, 0x00, 0x55, 0x00];

/// UDP port assigned to the traditional echo protocol.
pub const UDP_ECHO_PORT: u16 = 7;

/// UDP endpoint used only by profiling benchmark images.
pub const PROFILING_PORT: u16 = 5001;

/// Marker that starts every profiling request and reply ("STRMPRF1").
pub const PROFILING_MAGIC: [u8; 8] = [0x53, 0x54, 0x52, 0x4d, 0x50, 0x52, 0x46, 0x31];

/// Size of one profiling reply record.
pub const PROFILING_WIRE_SIZE: usize = 48;

/// Unprivileged TCP port used by the embedded SSH server.
pub const SSH_PORT: u16 = 2222;

/// The single account accepted by the SSH service.
pub const SSH_USERNAME: &'static str = "board";

/// Name passed to `ssh -s` for the isolated firmware-upload protocol.
pub const FIRMWARE_UPDATE_SUBSYSTEM: &'static str = "firmware-update";

/// Wire-format marker ("FWUP") of a firmware upload header.
pub const UPDATE_PROTOCOL_MAGIC: [u8; 4] = [0x46, 0x57, 0x55, 0x50];

/// Version of the firmware upload protocol.
pub const UPDATE_PROTOCOL_VERSION: u8 = 1;

/// Size of the fixed firmware upload header.
pub const UPDATE_HEADER_SIZE: usize = 44;

/// Largest signed image that can later fit in MCUboot's active image area.
pub const MAX_SIGNED_IMAGE_SIZE: u32 = 0x0004_0000;

/// MCUboot's image-header magic, represented as it appears in the binary.
pub const MCUBOOT_IMAGE_MAGIC: [u8; 4] = [0x3d, 0xb8, 0xf3, 0x96];

/// Offset of the primary (running) MCUboot slot in internal flash.
pub const PRIMARY_SLOT_OFFSET: u32 = 0x0002_0000;

/// Size of the primary MCUboot slot.
pub const PRIMARY_SLOT_SIZE: u32 = 0x0006_0000;

/// Offset of the secondary (staging) MCUboot slot in internal flash.
pub const SECONDARY_SLOT_OFFSET: u32 = 0x0008_0000;

/// Size of the secondary MCUboot slot.
pub const SECONDARY_SLOT_SIZE: u32 = 0x0008_0000;

/// First byte of an uploaded image: one 128 KiB sector into the secondary slot.
pub const STAGED_IMAGE_OFFSET: u32 = 0x000a_0000;

/// Flash programming granule.
pub const FLASH_WRITE_SIZE: usize = 32;

/// Exact 16-byte magic selected by MCUboot when its maximum alignment is 32.
pub const MCUBOOT_TRAILER_MAGIC: [u8; 16] = [
    0x20, 0x00, 0x2d, 0xe1, 0x5d, 0x29, 0x41, 0x0b, 0x8d, 0x77, 0x67, 0x9c, 0x11, 0x0f, 0x1f, 0x8a,
];

/// Storage reserved for one received UDP datagram.
pub const MAX_DATAGRAM_SIZE: usize = 1536;

/// IPv4 address used when DHCP does not respond.
pub const FALLBACK_ADDRESS: [u8; 4] = [192, 168, 0, 10];

/// IPv4 gateway used when DHCP does not respond.
pub const FALLBACK_GATEWAY: [u8; 4] = [192, 168, 0, 1];

/// Prefix length of the fallback IPv4 configuration.
pub const FALLBACK_PREFIX_LENGTH: u8 = 24;

} // verus!
