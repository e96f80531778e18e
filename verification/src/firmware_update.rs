//! Authenticated, bounded firmware staging for MCUboot.
//!
//! The updater accepts one signed MCUboot image, writes it only to the
//! secondary slot, verifies it twice (stream and flash read-back), and writes
//! MCUboot's test-upgrade marker last.
//!
//! The decisions live in [`FirmwareUpdate`], a state machine. Its driver
//! performs each returned [`UpdateAction`] (stream reads, flash erase, program
//! and read) and reports the outcome through the matching method.
use vstd::prelude::*;
use vstd::string::{StrSliceExecFns, StringExecFns};

use crate::counters::{decimal, push_decimal};
use crate::digest::{
    sha256_absorbed, sha256_digest, sha256_finalize_reset, sha256_new, sha256_update,
    Sha256Hasher,
};
use crate::update_header::{
    flag_block_bytes, has_mcuboot_image_magic, le_u32_at, magic_block_bytes, mcuboot_magic_block,
    mcuboot_image_ok_block, mcuboot_test_swap_info_block, trailer_image_ok_offset,
    trailer_magic_block_offset, trailer_swap_info_offset,
    update_header_error, UpdateHeader, MIN_SIGNED_IMAGE_SIZE,
};
use crate::{
    FLASH_WRITE_SIZE, MAX_SIGNED_IMAGE_SIZE, MCUBOOT_TRAILER_MAGIC, PRIMARY_SLOT_OFFSET, PRIMARY_SLOT_SIZE, MCUBOOT_IMAGE_MAGIC, SECONDARY_SLOT_OFFSET,
    SECONDARY_SLOT_SIZE, STAGED_IMAGE_OFFSET, UPDATE_HEADER_SIZE,
};

verus! {

/// Largest number of image bytes received, programmed or read back at once.
pub const TRANSFER_CHUNK: usize = 1024;

/// Upload progress is reported at least once per this many bytes.
pub const PROGRESS_INTERVAL: u32 = 16 * 1024;

pub const MSG_INVALID_HEADER: &'static str = "ERR invalid header\n";
pub const MSG_ERASING: &'static str = "ERASING\n";
pub const MSG_ERASE_FAILED: &'static str = "ERR flash erase\n";
pub const MSG_READY: &'static str = "READY\n";
pub const MSG_NOT_MCUBOOT_IMAGE: &'static str = "ERR not an MCUboot image\n";
pub const MSG_WRITE_FAILED: &'static str = "ERR flash write\n";
pub const MSG_TRANSFER_DIGEST: &'static str = "ERR transfer digest\n";
pub const MSG_READ_BACK_FAILED: &'static str = "ERR flash read-back\n";
pub const MSG_READ_BACK_DIGEST: &'static str = "ERR read-back digest\n";
pub const MSG_MARKER_FAILED: &'static str = "ERR activation marker\n";
pub const MSG_REBOOTING: &'static str = "OK rebooting into trial image\n";

/// Where an upload stands: which outcome the updater waits for.
#[derive(Clone, Copy, Debug, PartialEq, Eq, Structural)]
pub enum UpdatePhase {
    AwaitingHeader,
    AwaitingErase,
    AwaitingChunk,
    AwaitingProgram,
    AwaitingReadBack,
    AwaitingSwapMark,
    AwaitingMagicMark,
    Finished,
}

/// What the driver must do next.
#[derive(Debug)]
pub enum UpdateAction {
    /// Erase flash from `from` up to, not including, `to`.
    Erase { from: u32, to: u32 },
    /// Read exactly `length` image bytes from the upload stream.
    Receive { length: usize },
    /// Program `data` into flash at `offset`.
    Program { offset: u32, data: Vec<u8> },
    /// Read `length` bytes of flash at `offset`.
    ReadBack { offset: u32, length: usize },
    /// Program one trailer word `block` at `offset`.
    Mark { offset: u32, block: [u8; FLASH_WRITE_SIZE] },
    /// End the upload; the running image stays active.
    Stop,
    /// Reset into the staged trial image.
    Reboot,
}

/// A decision: what to tell the client, then what to do.
#[derive(Debug)]
pub struct UpdateStep {
    /// A `PROGRESS received/total` line to send first.
    pub progress: Option<(u32, u32)>,
    /// A status line to send after any progress line.
    pub message: Option<&'static str>,
    pub action: UpdateAction,
}

/// The next transfer length once `done` of `total` bytes are handled.
pub open spec fn chunk_len(done: u32, total: u32) -> nat {
    if total - done < TRANSFER_CHUNK {
        (total - done) as nat
    } else {
        TRANSFER_CHUNK as nat
    }
}

/// `count` rounded up to whole flash write blocks.
pub open spec fn padded_len(count: nat) -> nat {
    ((count + FLASH_WRITE_SIZE - 1) / FLASH_WRITE_SIZE as int * FLASH_WRITE_SIZE as int) as nat
}

/// The data programmed for one received chunk: the chunk, then erased bytes
/// up to a whole number of write blocks.
pub open spec fn programmed_bytes(chunk: Seq<u8>) -> Seq<u8> {
    chunk + Seq::new((padded_len(chunk.len()) - chunk.len()) as nat, |i: int| 0xffu8)
}

/// End of the secondary slot's image area: the first trailer write block.
pub open spec fn staging_limit() -> int {
    SECONDARY_SLOT_OFFSET + SECONDARY_SLOT_SIZE - 128
}

/// The state of one firmware upload.
pub struct FirmwareUpdate {
    phase: UpdatePhase,
    image_length: u32,
    expected: [u8; 32],
    received: u32,
    pending: u32,
    next_progress: u32,
    checked: u32,
    transfer: Sha256Hasher,
    readback: Sha256Hasher,
    image: Ghost<Seq<u8>>,
    read: Ghost<Seq<u8>>,
}

impl FirmwareUpdate {
    /// The outcome the updater waits for.
    pub closed spec fn phase(&self) -> UpdatePhase {
        self.phase
    }

    /// The image length announced by the header.
    pub closed spec fn image_length(&self) -> u32 {
        self.image_length
    }

    /// The SHA-256 digest announced by the header.
    pub closed spec fn expected_digest(&self) -> Seq<u8> {
        self.expected@
    }

    /// The image bytes received so far, in order.
    pub closed spec fn received_image(&self) -> Seq<u8> {
        self.image@
    }

    /// The staged bytes read back from flash so far, in order.
    pub closed spec fn read_back_image(&self) -> Seq<u8> {
        self.read@
    }

    /// The number of image bytes received and programmed.
    pub closed spec fn received(&self) -> nat {
        self.received as nat
    }

    /// The received-byte count at which progress is next reported.
    pub closed spec fn next_progress(&self) -> nat {
        self.next_progress as nat
    }

    /// The number of staged bytes read back.
    pub closed spec fn checked(&self) -> nat {
        self.checked as nat
    }

    /// The updater's internal consistency.
    pub closed spec fn wf(&self) -> bool {
        let p = self.phase;
        &&& (p != UpdatePhase::AwaitingHeader && p != UpdatePhase::Finished) ==> (
        MIN_SIGNED_IMAGE_SIZE <= self.image_length <= MAX_SIGNED_IMAGE_SIZE)
        &&& self.received <= self.image_length
        &&& (self.received % TRANSFER_CHUNK as u32 == 0 || self.received == self.image_length)
        &&& self.checked <= self.image_length
        &&& self.image@.len() == self.received + (if p == UpdatePhase::AwaitingProgram {
            self.pending as int
        } else {
            0
        })
        &&& self.read@.len() == self.checked
        &&& (p == UpdatePhase::AwaitingErase || p == UpdatePhase::AwaitingChunk || p
            == UpdatePhase::AwaitingProgram) ==> sha256_absorbed(self.transfer) == self.image@
        &&& p == UpdatePhase::AwaitingErase ==> self.received == 0
        &&& p == UpdatePhase::AwaitingChunk ==> self.received < self.image_length
        &&& p == UpdatePhase::AwaitingProgram ==> (self.pending == chunk_len(
            self.received,
            self.image_length,
        ) && self.pending > 0)
        &&& p == UpdatePhase::AwaitingReadBack ==> {
            &&& sha256_absorbed(self.readback) == self.read@
            &&& self.checked < self.image_length
            &&& self.received == self.image_length
            &&& sha256_digest(self.image@) == self.expected@
        }
        &&& (p == UpdatePhase::AwaitingSwapMark || p == UpdatePhase::AwaitingMagicMark) ==> {
            &&& self.received == self.image_length
            &&& self.checked == self.image_length
            &&& sha256_digest(self.image@) == self.expected@
            &&& sha256_digest(self.read@) == self.expected@
        }
    }

    /// A fresh upload waiting for its header.
    pub fn new() -> (update: Self)
        ensures
            update.wf(),
            update.phase() == UpdatePhase::AwaitingHeader,
            update.received_image() == Seq::<u8>::empty(),
    {
        FirmwareUpdate {
            phase: UpdatePhase::AwaitingHeader,
            image_length: 0,
            expected: [0u8; 32],
            received: 0,
            pending: 0,
            next_progress: PROGRESS_INTERVAL,
            checked: 0,
            transfer: sha256_new(),
            readback: sha256_new(),
            image: Ghost(Seq::empty()),
            read: Ghost(Seq::empty()),
        }
    }

    fn stop(&mut self, message: &'static str) -> (step: UpdateStep)
        ensures
            final(self).wf(),
            final(self).phase() == UpdatePhase::Finished,
            final(self).image_length() == old(self).image_length(),
            final(self).expected_digest() == old(self).expected_digest(),
            step.progress is None,
            step.message == Some(message),
            step.action is Stop,
    {
        self.phase = UpdatePhase::Finished;
        self.image = Ghost(Seq::empty());
        self.received = 0;
        self.pending = 0;
        self.read = Ghost(Seq::empty());
        self.checked = 0;
        UpdateStep { progress: None, message: Some(message), action: UpdateAction::Stop }
    }

    /// The 44 header bytes arrived. An invalid header ends the upload before
    /// flash is touched; a valid one erases exactly the secondary slot.
    pub fn on_header(&mut self, bytes: &[u8; UPDATE_HEADER_SIZE]) -> (step: UpdateStep)
        requires
            old(self).wf(),
            old(self).phase() == UpdatePhase::AwaitingHeader,
        ensures
            final(self).wf(),
            step.progress is None,
            update_header_error(bytes@) is Some ==> {
                &&& step.message == Some(MSG_INVALID_HEADER)
                &&& step.action is Stop
                &&& final(self).phase() == UpdatePhase::Finished
            },
            update_header_error(bytes@) is None ==> {
                &&& step.message == Some(MSG_ERASING)
                &&& step.action == (UpdateAction::Erase {
                    from: SECONDARY_SLOT_OFFSET,
                    to: (SECONDARY_SLOT_OFFSET + SECONDARY_SLOT_SIZE) as u32,
                })
                &&& final(self).phase() == UpdatePhase::AwaitingErase
                &&& final(self).image_length() == le_u32_at(bytes@, 8)
                &&& final(self).expected_digest() == bytes@.subrange(12, 44)
                &&& final(self).received_image() == Seq::<u8>::empty()
                &&& final(self).next_progress() == PROGRESS_INTERVAL
            },
    {
        match UpdateHeader::decode(bytes) {
            Err(_) => self.stop(MSG_INVALID_HEADER),
            Ok(header) => {
                self.image_length = header.image_length;
                self.expected = header.sha256;
                self.received = 0;
                self.pending = 0;
                self.checked = 0;
                self.next_progress = PROGRESS_INTERVAL;
                self.transfer = sha256_new();
                self.readback = sha256_new();
                self.image = Ghost(Seq::empty());
                self.read = Ghost(Seq::empty());
                self.phase = UpdatePhase::AwaitingErase;
                UpdateStep {
                    progress: None,
                    message: Some(MSG_ERASING),
                    action: UpdateAction::Erase {
                        from: SECONDARY_SLOT_OFFSET,
                        to: SECONDARY_SLOT_OFFSET + SECONDARY_SLOT_SIZE,
                    },
                }
            },
        }
    }

    fn next_chunk(done: u32, total: u32) -> (length: usize)
        requires
            done <= total <= MAX_SIGNED_IMAGE_SIZE,
        ensures
            length == chunk_len(done, total),
    {
        let left = (total - done) as usize;
        if left < TRANSFER_CHUNK {
            left
        } else {
            TRANSFER_CHUNK
        }
    }

    /// The secondary slot was erased, or erasing failed.
    pub fn on_erased(&mut self, erased: bool) -> (step: UpdateStep)
        requires
            old(self).wf(),
            old(self).phase() == UpdatePhase::AwaitingErase,
        ensures
            final(self).wf(),
            step.progress is None,
            !erased ==> {
                &&& step.message == Some(MSG_ERASE_FAILED)
                &&& step.action is Stop
                &&& final(self).phase() == UpdatePhase::Finished
            },
            erased ==> {
                &&& step.message == Some(MSG_READY)
                &&& step.action == (UpdateAction::Receive {
                    length: chunk_len(0, old(self).image_length()) as usize,
                })
                &&& final(self).phase() == UpdatePhase::AwaitingChunk
                &&& final(self).received() == 0
                &&& final(self).received_image() == old(self).received_image()
                &&& final(self).image_length() == old(self).image_length()
                &&& final(self).expected_digest() == old(self).expected_digest()
                &&& final(self).next_progress() == old(self).next_progress()
            },
    {
        if !erased {
            return self.stop(MSG_ERASE_FAILED);
        }
        self.phase = UpdatePhase::AwaitingChunk;
        let length = Self::next_chunk(0, self.image_length);
        UpdateStep {
            progress: None,
            message: Some(MSG_READY),
            action: UpdateAction::Receive { length },
        }
    }

    /// The next `chunk` of the image arrived. The first chunk must begin with
    /// MCUboot's image magic; every chunk is programmed right after the bytes
    /// before it, padded with erased bytes to whole write blocks, and stays
    /// below the slot's trailer.
    pub fn on_chunk(&mut self, chunk: &[u8]) -> (step: UpdateStep)
        requires
            old(self).wf(),
            old(self).phase() == UpdatePhase::AwaitingChunk,
            chunk@.len() == chunk_len(old(self).received() as u32, old(self).image_length()),
        ensures
            final(self).wf(),
            step.progress is None,
            (old(self).received() == 0 && !(chunk@.subrange(0, 4) == MCUBOOT_IMAGE_MAGIC@)) ==> {
                &&& step.message == Some(MSG_NOT_MCUBOOT_IMAGE)
                &&& step.action is Stop
                &&& final(self).phase() == UpdatePhase::Finished
            },
            !(old(self).received() == 0 && !(chunk@.subrange(0, 4) == MCUBOOT_IMAGE_MAGIC@)) ==> {
                &&& step.message is None
                &&& step.action matches UpdateAction::Program { offset, data } && {
                    &&& offset == STAGED_IMAGE_OFFSET + old(self).received()
                    &&& data@ == programmed_bytes(chunk@)
                    &&& offset + data@.len() <= staging_limit()
                    &&& offset + data@.len() <= STAGED_IMAGE_OFFSET + padded_len(
                        old(self).image_length() as nat,
                    )
                }
                &&& final(self).phase() == UpdatePhase::AwaitingProgram
                &&& final(self).received() == old(self).received()
                &&& final(self).received_image() == old(self).received_image() + chunk@
                &&& final(self).image_length() == old(self).image_length()
                &&& final(self).expected_digest() == old(self).expected_digest()
                &&& final(self).next_progress() == old(self).next_progress()
            },
    {
        if self.received == 0 && !has_mcuboot_image_magic(chunk) {
            proof {
                // The minimal image length exceeds the magic's length.
                assert(chunk@.len() >= 4);
            }
            return self.stop(MSG_NOT_MCUBOOT_IMAGE);
        }
        sha256_update(&mut self.transfer, chunk);
        self.image = Ghost(self.image@ + chunk@);
        let count = chunk.len();
        let mut data: Vec<u8> = Vec::new();
        let mut i: usize = 0;
        while i < count
            invariant
                count == chunk@.len(),
                i <= count,
                data@ == chunk@.subrange(0, i as int),
            decreases count - i,
        {
            data.push(chunk[i]);
            i = i + 1;
        }
        assert(data@ =~= chunk@);
        let padded = (count + (FLASH_WRITE_SIZE - 1)) / FLASH_WRITE_SIZE * FLASH_WRITE_SIZE;
        while data.len() < padded
            invariant
                count == chunk@.len(),
                count <= data@.len() <= padded,
                padded == padded_len(count as nat),
                data@ == chunk@ + Seq::new((data@.len() - count) as nat, |j: int| 0xffu8),
            decreases padded - data@.len(),
        {
            data.push(0xff);
            assert(data@ =~= chunk@ + Seq::new((data@.len() - count) as nat, |j: int| 0xffu8));
        }
        self.pending = count as u32;
        self.phase = UpdatePhase::AwaitingProgram;
        let offset = STAGED_IMAGE_OFFSET + self.received;
        proof {
            lemma_padded_chunk_fits(self.received as int, count as int, self.image_length as int);
        }
        UpdateStep { progress: None, message: None, action: UpdateAction::Program { offset, data } }
    }
    /// The last programmed chunk reached flash, or programming failed. After
    /// the whole image is programmed, its SHA-256 digest must equal the
    /// header's before the staged bytes are read back.
    pub fn on_programmed(&mut self, programmed: bool) -> (step: UpdateStep)
        requires
            old(self).wf(),
            old(self).phase() == UpdatePhase::AwaitingProgram,
        ensures
            final(self).wf(),
            !programmed ==> {
                &&& step.progress is None
                &&& step.message == Some(MSG_WRITE_FAILED)
                &&& step.action is Stop
                &&& final(self).phase() == UpdatePhase::Finished
            },
            programmed ==> {
                let done = old(self).received_image().len();
                &&& done == old(self).received() + chunk_len(
                    old(self).received() as u32,
                    old(self).image_length(),
                )
                &&& step.progress is Some <==> (done >= old(self).next_progress() || done
                    == old(self).image_length())
                &&& step.progress matches Some(p) ==> p == (done as u32, old(self).image_length())
                &&& (step.progress is Some && done < old(self).image_length())
                    ==> final(self).next_progress() == done + PROGRESS_INTERVAL
                &&& step.progress is None
                    ==> final(self).next_progress() == old(self).next_progress()
                &&& done < old(self).image_length() ==> {
                    &&& step.message is None
                    &&& step.action == (UpdateAction::Receive {
                        length: chunk_len(done as u32, old(self).image_length()) as usize,
                    })
                    &&& final(self).phase() == UpdatePhase::AwaitingChunk
                    &&& final(self).received() == done
                    &&& final(self).received_image() == old(self).received_image()
                }
                &&& done == old(self).image_length() ==> {
                    &&& sha256_digest(old(self).received_image()) != old(self).expected_digest()
                        ==> {
                        &&& step.message == Some(MSG_TRANSFER_DIGEST)
                        &&& step.action is Stop
                        &&& final(self).phase() == UpdatePhase::Finished
                    }
                    &&& sha256_digest(old(self).received_image()) == old(self).expected_digest()
                        ==> {
                        &&& step.message is None
                        &&& step.action == (UpdateAction::ReadBack {
                            offset: STAGED_IMAGE_OFFSET,
                            length: chunk_len(0, old(self).image_length()) as usize,
                        })
                        &&& final(self).phase() == UpdatePhase::AwaitingReadBack
                        &&& final(self).received_image() == old(self).received_image()
                        &&& final(self).read_back_image() == Seq::<u8>::empty()
                    }
                }
                &&& final(self).image_length() == old(self).image_length()
                &&& final(self).expected_digest() == old(self).expected_digest()
            },
    {
        if !programmed {
            return self.stop(MSG_WRITE_FAILED);
        }
        let done = self.received + self.pending;
        self.received = done;
        self.pending = 0;
        let progress = if done >= self.next_progress || done == self.image_length {
            self.next_progress = done.saturating_add(PROGRESS_INTERVAL);
            Some((done, self.image_length))
        } else {
            None
        };
        if done < self.image_length {
            self.phase = UpdatePhase::AwaitingChunk;
            let length = Self::next_chunk(done, self.image_length);
            return UpdateStep { progress, message: None, action: UpdateAction::Receive { length } };
        }
        let digest = sha256_finalize_reset(&mut self.transfer);
        if !digests_equal(&digest, &self.expected) {
            let stopped = self.stop(MSG_TRANSFER_DIGEST);
            return UpdateStep { progress, message: stopped.message, action: stopped.action };
        }
        self.readback = sha256_new();
        self.read = Ghost(Seq::empty());
        self.checked = 0;
        self.phase = UpdatePhase::AwaitingReadBack;
        let length = Self::next_chunk(0, self.image_length);
        UpdateStep {
            progress,
            message: None,
            action: UpdateAction::ReadBack { offset: STAGED_IMAGE_OFFSET, length },
        }
    }

    /// The next staged bytes were read back from flash (`None`: reading
    /// failed). Only when the read-back image's digest also equals the
    /// header's is the swap-info trailer word programmed.
    pub fn on_read_back(&mut self, data: Option<&[u8]>) -> (step: UpdateStep)
        requires
            old(self).wf(),
            old(self).phase() == UpdatePhase::AwaitingReadBack,
            data matches Some(bytes) ==> bytes@.len() == chunk_len(
                old(self).checked() as u32,
                old(self).image_length(),
            ),
        ensures
            final(self).wf(),
            step.progress is None,
            data is None ==> {
                &&& step.message == Some(MSG_READ_BACK_FAILED)
                &&& step.action is Stop
                &&& final(self).phase() == UpdatePhase::Finished
            },
            data matches Some(bytes) ==> {
                let read = old(self).read_back_image() + bytes@;
                &&& read.len() < old(self).image_length() ==> {
                    &&& step.message is None
                    &&& step.action == (UpdateAction::ReadBack {
                        offset: (STAGED_IMAGE_OFFSET + read.len()) as u32,
                        length: chunk_len(read.len() as u32, old(self).image_length()) as usize,
                    })
                    &&& final(self).phase() == UpdatePhase::AwaitingReadBack
                    &&& final(self).read_back_image() == read
                }
                &&& read.len() == old(self).image_length() ==> {
                    &&& sha256_digest(read) != old(self).expected_digest() ==> {
                        &&& step.message == Some(MSG_READ_BACK_DIGEST)
                        &&& step.action is Stop
                        &&& final(self).phase() == UpdatePhase::Finished
                    }
                    &&& sha256_digest(read) == old(self).expected_digest() ==> {
                        &&& step.message is None
                        &&& step.action matches UpdateAction::Mark { offset, block } && offset
                            == SECONDARY_SLOT_OFFSET + SECONDARY_SLOT_SIZE - 128 && block@
                            == flag_block_bytes(2)
                        &&& final(self).phase() == UpdatePhase::AwaitingSwapMark
                        &&& sha256_digest(old(self).received_image())
                            == old(self).expected_digest()
                        &&& final(self).read_back_image() == read
                    }
                }
            },
    {
        match data {
            None => self.stop(MSG_READ_BACK_FAILED),
            Some(bytes) => {
                sha256_update(&mut self.readback, bytes);
                self.read = Ghost(self.read@ + bytes@);
                let done = self.checked + bytes.len() as u32;
                self.checked = done;
                if done < self.image_length {
                    let length = Self::next_chunk(done, self.image_length);
                    return UpdateStep {
                        progress: None,
                        message: None,
                        action: UpdateAction::ReadBack { offset: STAGED_IMAGE_OFFSET + done, length },
                    };
                }
                let digest = sha256_finalize_reset(&mut self.readback);
                if !digests_equal(&digest, &self.expected) {
                    return self.stop(MSG_READ_BACK_DIGEST);
                }
                self.phase = UpdatePhase::AwaitingSwapMark;
                let offset = trailer_swap_info_offset(SECONDARY_SLOT_OFFSET, SECONDARY_SLOT_SIZE);
                UpdateStep {
                    progress: None,
                    message: None,
                    action: UpdateAction::Mark { offset, block: mcuboot_test_swap_info_block() },
                }
            },
        }
    }

    /// The swap-info word (programmed first) or the trailer magic
    /// (programmed last) reached flash, or programming it failed. The magic
    /// is programmed only after the swap-info word, and a reboot is requested
    /// only after the magic.
    pub fn on_marked(&mut self, programmed: bool) -> (step: UpdateStep)
        requires
            old(self).wf(),
            old(self).phase() == UpdatePhase::AwaitingSwapMark || old(self).phase()
                == UpdatePhase::AwaitingMagicMark,
        ensures
            final(self).wf(),
            step.progress is None,
            !programmed ==> {
                &&& step.message == Some(MSG_MARKER_FAILED)
                &&& step.action is Stop
                &&& final(self).phase() == UpdatePhase::Finished
            },
            programmed && old(self).phase() == UpdatePhase::AwaitingSwapMark ==> {
                &&& step.message is None
                &&& step.action matches UpdateAction::Mark { offset, block } && offset
                    == SECONDARY_SLOT_OFFSET + SECONDARY_SLOT_SIZE - 32 && block@
                    == magic_block_bytes()
                &&& final(self).phase() == UpdatePhase::AwaitingMagicMark
            },
            programmed && old(self).phase() == UpdatePhase::AwaitingMagicMark ==> {
                &&& step.message == Some(MSG_REBOOTING)
                &&& step.action is Reboot
                &&& final(self).phase() == UpdatePhase::Finished
                &&& sha256_digest(old(self).received_image()) == old(self).expected_digest()
                &&& sha256_digest(old(self).read_back_image()) == old(self).expected_digest()
            },
    {
        if !programmed {
            return self.stop(MSG_MARKER_FAILED);
        }
        if self.phase == UpdatePhase::AwaitingSwapMark {
            self.phase = UpdatePhase::AwaitingMagicMark;
            let offset = trailer_magic_block_offset(SECONDARY_SLOT_OFFSET, SECONDARY_SLOT_SIZE);
            UpdateStep {
                progress: None,
                message: None,
                action: UpdateAction::Mark { offset, block: mcuboot_magic_block() },
            }
        } else {
            self.phase = UpdatePhase::Finished;
            UpdateStep { progress: None, message: Some(MSG_REBOOTING), action: UpdateAction::Reboot }
        }
    }
}

/// The status line that reports `received` of `total` image bytes.
pub open spec fn spec_progress_line(received: u32, total: u32) -> Seq<char> {
    "PROGRESS "@ + decimal(received as nat) + "/"@ + decimal(total as nat) + "\n"@
}

/// Format the progress line of an [`UpdateStep`].
pub fn progress_line(received: u32, total: u32) -> (line: String)
    ensures
        line@ == spec_progress_line(received, total),
{
    let mut line = String::from_str("PROGRESS ");
    push_decimal(&mut line, received as u64);
    line.append("/");
    push_decimal(&mut line, total as u64);
    line.append("\n");
    line
}

/// Whether two digests are byte-for-byte equal.
fn digests_equal(a: &[u8; 32], b: &[u8; 32]) -> (equal: bool)
    ensures
        equal == (a@ == b@),
{
    let mut i: usize = 0;
    while i < 32
        invariant
            i <= 32,
            forall|j: int| 0 <= j < i ==> a@[j] == b@[j],
        decreases 32 - i,
    {
        if a[i] != b[i] {
            return false;
        }
        i = i + 1;
    }
    assert(a@ =~= b@);
    true
}

/// Where the running image's trailer magic is read: the last 16 bytes of the
/// primary slot.
pub fn primary_trailer_magic_offset() -> (offset: u32)
    ensures
        offset == PRIMARY_SLOT_OFFSET + PRIMARY_SLOT_SIZE - 16,
{
    trailer_magic_block_offset(PRIMARY_SLOT_OFFSET, PRIMARY_SLOT_SIZE) + 16
}

/// Whether the running image is a trial awaiting confirmation: reading its
/// trailer magic succeeded and found MCUboot's magic. An ordinary
/// factory-installed image has an erased trailer.
pub fn trial_awaits_confirmation(magic: Option<[u8; 16]>) -> (trial: bool)
    ensures
        trial == (magic is Some && magic.unwrap()@ == MCUBOOT_TRAILER_MAGIC@),
{
    match magic {
        None => false,
        Some(bytes) => {
            let mut i: usize = 0;
            while i < 16
                invariant
                    i <= 16,
                    magic == Some(bytes),
                    forall|j: int| 0 <= j < i ==> bytes@[j] == MCUBOOT_TRAILER_MAGIC@[j],
                decreases 16 - i,
            {
                if bytes[i] != MCUBOOT_TRAILER_MAGIC[i] {
                    assert(bytes@[i as int] != MCUBOOT_TRAILER_MAGIC@[i as int]);
                    return false;
                }
                i = i + 1;
            }
            assert(bytes@ =~= MCUBOOT_TRAILER_MAGIC@);
            true
        },
    }
}

/// The write that confirms a trial image, given the first byte of its
/// `image_ok` block (`None`: reading it failed): the `image_ok` word, unless
/// the flag is already set or could not be read. Flash bits only move from
/// one to zero, so the rest of the word stays erased.
pub fn image_ok_write(current: Option<u8>) -> (write: Option<(u32, [u8; FLASH_WRITE_SIZE])>)
    ensures
        write is Some <==> (current matches Some(flag) && flag != 1),
        write matches Some((offset, block)) ==> {
            &&& offset == PRIMARY_SLOT_OFFSET + PRIMARY_SLOT_SIZE - 64
            &&& block@ == flag_block_bytes(1)
        },
{
    match current {
        Some(flag) => if flag != 1 {
            Some(
                (
                    trailer_image_ok_offset(PRIMARY_SLOT_OFFSET, PRIMARY_SLOT_SIZE),
                    mcuboot_image_ok_block(),
                ),
            )
        } else {
            None
        },
        None => None,
    }
}

/// The staging area begins one sector into the secondary slot, holds the
/// largest image below the slot's trailer, and lies wholly after the primary
/// slot: an upload never touches the bootloader or the running image.
pub proof fn lemma_staging_area_layout()
    ensures
        PRIMARY_SLOT_OFFSET + PRIMARY_SLOT_SIZE <= SECONDARY_SLOT_OFFSET,
        SECONDARY_SLOT_OFFSET < STAGED_IMAGE_OFFSET,
        STAGED_IMAGE_OFFSET + padded_len(MAX_SIGNED_IMAGE_SIZE as nat) <= staging_limit(),
        staging_limit() + 128 == SECONDARY_SLOT_OFFSET + SECONDARY_SLOT_SIZE,
{
    assert(padded_len(MAX_SIGNED_IMAGE_SIZE as nat) == MAX_SIGNED_IMAGE_SIZE);
}

/// A chunk that starts on a chunk boundary, padded to write blocks, ends
/// within the largest image.
proof fn lemma_padded_chunk_fits(received: int, count: int, length: int)
    requires
        0 < count <= TRANSFER_CHUNK,
        0 <= received,
        received + count <= length <= MAX_SIGNED_IMAGE_SIZE,
        received % 1024 == 0,
        count == 1024 || received + count == length,
    ensures
        received + padded_len(count as nat) <= MAX_SIGNED_IMAGE_SIZE,
        padded_len(count as nat) <= TRANSFER_CHUNK,
        padded_len(count as nat) >= count,
        received + padded_len(count as nat) <= padded_len(length as nat),
{
    let q = (count + 31) / 32;
    let p = (length + 31) / 32;
    assert(p * 32 <= length + 31 < p * 32 + 32) by (nonlinear_arith)
        requires
            p == (length + 31) / 32,
            length > 0,
    ;
    assert(padded_len(length as nat) == p * 32);
    assert(q * 32 <= count + 31 < q * 32 + 32) by (nonlinear_arith)
        requires
            q == (count + 31) / 32,
            count > 0,
    ;
    assert(padded_len(count as nat) == q * 32);
    if count == 1024 {
        assert(q == 32);
        assert(received + 1024 <= p * 32);
    } else {
        let k = received / 1024;
        assert(received == k * 1024);
        assert(received + q * 32 <= p * 32) by (nonlinear_arith)
            requires
                received == k * 1024,
                received + count == length,
                q * 32 <= count + 31 < q * 32 + 32,
                p * 32 <= length + 31 < p * 32 + 32,
        {
            assert(received + q * 32 == (k * 32 + q) * 32);
            assert(length + 31 < (k * 32 + q) * 32 + 32);
            assert(p * 32 <= length + 31);
            assert(p < k * 32 + q + 1);
            assert(p * 32 >= length);
            assert((k * 32 + q) * 32 <= length + 31);
            assert(k * 32 + q < p + 1);
        }
        // received + q * 32 is the least multiple of 32 that is at least `length`,
        // and the largest image length is itself such a multiple.
        assert(received + q * 32 <= MAX_SIGNED_IMAGE_SIZE) by (nonlinear_arith)
            requires
                received == k * 1024,
                q * 32 <= count + 31,
                q * 32 < count + 32,
                received + count <= 0x40000,
                q * 32 >= count,
        {
            assert(received + q * 32 < received + count + 32);
            assert((k * 32 + q) * 32 == received + q * 32);
            assert(k * 32 + q < 0x2000 + 1);
        }
        assert(q * 32 <= 1024) by (nonlinear_arith)
            requires
                q * 32 < count + 32,
                count < 1024,
        {
            assert(q < 33);
        }
    }
}

} // verus!
