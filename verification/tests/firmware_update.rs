//! Whole uploads driven through the firmware-update state machine against a
//! simulated flash.

use nucleo_h723zg_udp_echo::firmware_update::{
    image_ok_write, primary_trailer_magic_offset, progress_line, trial_awaits_confirmation, FirmwareUpdate,
    UpdateAction, UpdateStep, MSG_ERASE_FAILED, MSG_ERASING, MSG_INVALID_HEADER, MSG_NOT_MCUBOOT_IMAGE,
    MSG_READ_BACK_DIGEST, MSG_READY, MSG_REBOOTING, MSG_TRANSFER_DIGEST, MSG_WRITE_FAILED,
};
use nucleo_h723zg_udp_echo::{
    mcuboot_image_ok_block, mcuboot_magic_block, mcuboot_test_swap_info_block,
    trailer_image_ok_offset, trailer_magic_block_offset, trailer_swap_info_offset,
    MCUBOOT_IMAGE_MAGIC, MCUBOOT_TRAILER_MAGIC, PRIMARY_SLOT_OFFSET, PRIMARY_SLOT_SIZE,
    SECONDARY_SLOT_OFFSET, SECONDARY_SLOT_SIZE, STAGED_IMAGE_OFFSET, UPDATE_HEADER_SIZE,
    UPDATE_PROTOCOL_MAGIC, UPDATE_PROTOCOL_VERSION,
};
use sha2::{Digest, Sha256};

const FLASH_SIZE: usize = 0x0010_0000;

fn header(length: u32, digest: &[u8]) -> [u8; UPDATE_HEADER_SIZE] {
    let mut bytes = [0; UPDATE_HEADER_SIZE];
    bytes[..4].copy_from_slice(&UPDATE_PROTOCOL_MAGIC);
    bytes[4] = UPDATE_PROTOCOL_VERSION;
    bytes[8..12].copy_from_slice(&length.to_le_bytes());
    bytes[12..].copy_from_slice(digest);
    bytes
}

fn image(length: usize) -> Vec<u8> {
    let mut bytes: Vec<u8> = (0..length).map(|i| (i * 7 + 3) as u8).collect();
    bytes[..4].copy_from_slice(&MCUBOOT_IMAGE_MAGIC);
    bytes
}

/// What an upload left behind: every status line in order, and the flash.
struct Outcome {
    messages: Vec<&'static str>,
    progress: Vec<(u32, u32)>,
    rebooted: bool,
    flash: Vec<u8>,
    erased: Option<(u32, u32)>,
}

/// Runs one upload; `corrupt_flash` flips one staged byte after programming.
fn upload(header_bytes: [u8; UPDATE_HEADER_SIZE], stream: &[u8], corrupt_flash: bool) -> Outcome {
    let mut update = FirmwareUpdate::new();
    let mut outcome = Outcome {
        messages: Vec::new(),
        progress: Vec::new(),
        rebooted: false,
        flash: vec![0xff; FLASH_SIZE],
        erased: None,
    };
    let mut sent = 0usize;
    let mut step = update.on_header(&header_bytes);
    loop {
        let UpdateStep { progress, message, action } = step;
        if let Some(p) = progress {
            outcome.progress.push(p);
        }
        if let Some(m) = message {
            outcome.messages.push(m);
        }
        step = match action {
            UpdateAction::Erase { from, to } => {
                outcome.erased = Some((from, to));
                for byte in &mut outcome.flash[from as usize..to as usize] {
                    *byte = 0xff;
                }
                update.on_erased(true)
            }
            UpdateAction::Receive { length } => {
                let chunk = &stream[sent..sent + length];
                sent += length;
                update.on_chunk(chunk)
            }
            UpdateAction::Program { offset, data } => {
                let at = offset as usize;
                outcome.flash[at..at + data.len()].copy_from_slice(&data);
                if corrupt_flash && at == STAGED_IMAGE_OFFSET as usize {
                    outcome.flash[at + 100] ^= 0x40;
                }
                update.on_programmed(true)
            }
            UpdateAction::ReadBack { offset, length } => {
                let at = offset as usize;
                let data = outcome.flash[at..at + length].to_vec();
                update.on_read_back(Some(&data))
            }
            UpdateAction::Mark { offset, block } => {
                let at = offset as usize;
                outcome.flash[at..at + block.len()].copy_from_slice(&block);
                update.on_marked(true)
            }
            UpdateAction::Stop => return outcome,
            UpdateAction::Reboot => {
                outcome.rebooted = true;
                return outcome;
            }
        };
    }
}

#[test]
fn a_verified_upload_is_staged_and_marked_for_a_trial_boot() {
    let bytes = image(40_000);
    let digest = Sha256::digest(&bytes);
    let outcome = upload(header(bytes.len() as u32, &digest), &bytes, false);

    assert!(outcome.rebooted);
    assert_eq!(outcome.messages, vec![MSG_ERASING, MSG_READY, MSG_REBOOTING]);
    assert_eq!(outcome.erased, Some((SECONDARY_SLOT_OFFSET, SECONDARY_SLOT_OFFSET + SECONDARY_SLOT_SIZE)));
    assert_eq!(outcome.progress, vec![(16_384, 40_000), (32_768, 40_000), (40_000, 40_000)]);

    let staged = STAGED_IMAGE_OFFSET as usize;
    assert_eq!(&outcome.flash[staged..staged + bytes.len()], &bytes[..]);
    // The last chunk was padded with erased bytes only.
    assert!(outcome.flash[staged + bytes.len()..staged + bytes.len() + 64].iter().all(|b| *b == 0xff));

    let swap = trailer_swap_info_offset(SECONDARY_SLOT_OFFSET, SECONDARY_SLOT_SIZE) as usize;
    assert_eq!(outcome.flash[swap..swap + 32], mcuboot_test_swap_info_block());
    let magic = trailer_magic_block_offset(SECONDARY_SLOT_OFFSET, SECONDARY_SLOT_SIZE) as usize;
    assert_eq!(outcome.flash[magic..magic + 32], mcuboot_magic_block());
    // Nothing outside the secondary slot was written.
    assert!(outcome.flash[..SECONDARY_SLOT_OFFSET as usize].iter().all(|b| *b == 0xff));
}

#[test]
fn an_image_of_the_smallest_size_needs_a_single_chunk() {
    let bytes = image(512);
    let digest = Sha256::digest(&bytes);
    let outcome = upload(header(512, &digest), &bytes, false);
    assert!(outcome.rebooted);
    assert_eq!(outcome.progress, vec![(512, 512)]);
}

#[test]
fn a_wrong_transfer_digest_stops_before_any_marker() {
    let bytes = image(3_000);
    let mut digest = Sha256::digest(&bytes).to_vec();
    digest[31] ^= 1;
    let outcome = upload(header(3_000, &digest), &bytes, false);

    assert!(!outcome.rebooted);
    assert_eq!(outcome.messages, vec![MSG_ERASING, MSG_READY, MSG_TRANSFER_DIGEST]);
    let swap = trailer_swap_info_offset(SECONDARY_SLOT_OFFSET, SECONDARY_SLOT_SIZE) as usize;
    assert!(outcome.flash[swap..].iter().all(|b| *b == 0xff));
}

#[test]
fn a_corrupted_flash_copy_fails_the_read_back_check() {
    let bytes = image(3_000);
    let digest = Sha256::digest(&bytes);
    let outcome = upload(header(3_000, &digest), &bytes, true);

    assert!(!outcome.rebooted);
    assert_eq!(outcome.messages, vec![MSG_ERASING, MSG_READY, MSG_READ_BACK_DIGEST]);
    let magic = trailer_magic_block_offset(SECONDARY_SLOT_OFFSET, SECONDARY_SLOT_SIZE) as usize;
    assert!(outcome.flash[magic..magic + 32].iter().all(|b| *b == 0xff));
}

#[test]
fn an_image_without_the_mcuboot_magic_is_refused() {
    let mut bytes = image(1_000);
    bytes[0] ^= 0xff;
    let digest = Sha256::digest(&bytes);
    let outcome = upload(header(1_000, &digest), &bytes, false);

    assert!(!outcome.rebooted);
    assert_eq!(outcome.messages, vec![MSG_ERASING, MSG_READY, MSG_NOT_MCUBOOT_IMAGE]);
    assert!(outcome.flash.iter().all(|b| *b == 0xff));
}

#[test]
fn an_invalid_header_touches_no_flash() {
    let bytes = image(1_000);
    let digest = Sha256::digest(&bytes);
    let mut header_bytes = header(1_000, &digest);
    header_bytes[0] ^= 1;
    let outcome = upload(header_bytes, &bytes, false);
    assert_eq!(outcome.messages, vec![MSG_INVALID_HEADER]);
    assert_eq!(outcome.erased, None);

    // Shorter than the smallest signed image.
    let outcome = upload(header(100, &digest), &bytes, false);
    assert_eq!(outcome.messages, vec![MSG_INVALID_HEADER]);
    assert_eq!(outcome.erased, None);
}

#[test]
fn flash_failures_end_the_upload() {
    let bytes = image(600);
    let digest = Sha256::digest(&bytes);

    let mut update = FirmwareUpdate::new();
    let step = update.on_header(&header(600, &digest));
    assert!(matches!(step.action, UpdateAction::Erase { .. }));
    let step = update.on_erased(false);
    assert_eq!(step.message, Some(MSG_ERASE_FAILED));
    assert!(matches!(step.action, UpdateAction::Stop));

    let mut update = FirmwareUpdate::new();
    update.on_header(&header(600, &digest));
    let step = update.on_erased(true);
    assert!(matches!(step.action, UpdateAction::Receive { length: 600 }));
    let step = update.on_chunk(&bytes);
    match &step.action {
        UpdateAction::Program { offset, data } => {
            assert_eq!(*offset, STAGED_IMAGE_OFFSET);
            assert_eq!(data.len(), 608);
            assert_eq!(&data[..600], &bytes[..]);
        }
        other => panic!("unexpected action {other:?}"),
    }
    let step = update.on_programmed(false);
    assert_eq!(step.message, Some(MSG_WRITE_FAILED));
    assert!(matches!(step.action, UpdateAction::Stop));
}

#[test]
fn the_running_image_is_confirmed_only_during_a_trial() {
    assert_eq!(
        primary_trailer_magic_offset(),
        trailer_magic_block_offset(PRIMARY_SLOT_OFFSET, PRIMARY_SLOT_SIZE) + 16
    );
    assert!(trial_awaits_confirmation(Some(MCUBOOT_TRAILER_MAGIC)));
    let mut other = MCUBOOT_TRAILER_MAGIC;
    other[15] ^= 1;
    assert!(!trial_awaits_confirmation(Some(other)));
    assert!(!trial_awaits_confirmation(None));

    assert_eq!(
        image_ok_write(Some(0xff)),
        Some((trailer_image_ok_offset(PRIMARY_SLOT_OFFSET, PRIMARY_SLOT_SIZE), mcuboot_image_ok_block()))
    );
    assert_eq!(image_ok_write(Some(1)), None);
    assert_eq!(image_ok_write(None), None);
}

#[test]
fn progress_is_reported_as_received_over_total() {
    assert_eq!(progress_line(16_384, 40_000), "PROGRESS 16384/40000\n");
    assert_eq!(progress_line(0, 4_294_967_295), "PROGRESS 0/4294967295\n");
}
