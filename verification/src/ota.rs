//! Firmware update over BLE.
//!
//! A sender cuts the firmware into data packets with running sequence numbers. Each packet is
//! answered; a progress query, or a packet that does not follow on, is answered with the number of
//! bytes received, from which the sender goes on. A commit request ends a complete update.
use vstd::prelude::*;
use vstd::slice::slice_subrange;

verus! {

/// Flash address at which the update partition starts.
pub const OTA_PARTITION_OFFSET: u32 = 0x190000;

/// Size of the update partition in bytes (1.5 MB).
pub const OTA_PARTITION_SIZE: u32 = 0x180000;

/// First byte of a write that carries script text.
pub const CMD_SCRIPT: u8 = 0x01;

/// First byte of a firmware data packet.
pub const CMD_OTA_DATA: u8 = 0x02;

/// First byte of a progress query.
pub const CMD_OTA_STATUS: u8 = 0x03;

/// First byte of a request to finish the update and restart.
pub const CMD_OTA_COMMIT: u8 = 0x04;

/// Bytes in front of the payload of a data packet.
pub const HEADER_LEN: usize = 12;

/// Sequence number that stands for "no packet yet".
pub const NO_SEQ: u16 = 0xFFFF;

// ---------------------------------------------------------------------------
// Packet format
//
// [0x02][seq: u16 LE][total: u32 LE][offset: u32 LE][len: u8][payload][checksum: u8]
// ---------------------------------------------------------------------------

/// The number that two little-endian bytes at `i` spell.
pub open spec fn le16(d: Seq<u8>, i: int) -> nat {
    (d[i] + 0x100 * d[i + 1]) as nat
}

/// The number that four little-endian bytes at `i` spell.
pub open spec fn le32(d: Seq<u8>, i: int) -> nat {
    (d[i] + 0x100 * d[i + 1] + 0x1_0000 * d[i + 2] + 0x100_0000 * d[i + 3]) as nat
}

/// The four little-endian bytes of `n`.
pub open spec fn le32_bytes(n: nat) -> Seq<u8> {
    seq![
        (n % 0x100) as u8,
        (n / 0x100 % 0x100) as u8,
        (n / 0x1_0000 % 0x100) as u8,
        (n / 0x100_0000 % 0x100) as u8,
    ]
}

/// A write that is treated as a data packet: the command byte and a whole header.
pub open spec fn is_data_packet(d: Seq<u8>) -> bool {
    d.len() >= HEADER_LEN && d[0] == CMD_OTA_DATA
}

/// The sequence number in the header.
pub open spec fn packet_seq(d: Seq<u8>) -> nat {
    le16(d, 1)
}

/// The firmware size in the header.
pub open spec fn packet_total(d: Seq<u8>) -> nat {
    le32(d, 3)
}

/// The position of the payload in the firmware, from the header.
pub open spec fn packet_offset(d: Seq<u8>) -> nat {
    le32(d, 7)
}

/// The payload length that the header announces.
pub open spec fn packet_len(d: Seq<u8>) -> nat {
    d[11] as nat
}

/// The payload that counts as received: all announced bytes, or none when the packet ends early.
pub open spec fn packet_payload(d: Seq<u8>) -> Seq<u8> {
    if HEADER_LEN + packet_len(d) <= d.len() {
        d.subrange(HEADER_LEN as int, HEADER_LEN + packet_len(d))
    } else {
        seq![]
    }
}

/// A data packet that ends before the payload that it announces.
pub open spec fn is_cut_short(d: Seq<u8>) -> bool {
    HEADER_LEN + packet_len(d) > d.len()
}

/// The byte behind the announced payload, 0 when the packet ends before it.
pub open spec fn packet_checksum(d: Seq<u8>) -> u8 {
    if HEADER_LEN + packet_len(d) < d.len() {
        d[HEADER_LEN + packet_len(d)]
    } else {
        0
    }
}

/// Exclusive or of all bytes.
pub open spec fn xor_all(s: Seq<u8>) -> u8
    decreases s.len(),
{
    if s.len() == 0 {
        0
    } else {
        xor_all(s.drop_last()) ^ s.last()
    }
}

// ---------------------------------------------------------------------------
// Session model
// ---------------------------------------------------------------------------

/// What a write means to an update session.
pub enum Outcome {
    /// No bytes at all.
    Empty,
    /// Neither a whole data packet nor a status or commit request.
    Unknown,
    /// The payload does not match its checksum.
    BadChecksum,
    /// The packet would open a session for more bytes than the partition holds.
    TooLarge,
    /// The sequence number is neither 0 nor the one after the last.
    OutOfSequence,
    /// The offset is not the number of bytes received.
    WrongOffset,
    /// The payload is taken.
    Accepted,
    /// A progress query.
    Status,
    /// Commit without a session.
    NoSession,
    /// Commit before every byte has arrived.
    Incomplete,
    /// Commit of a complete session.
    Committed,
}

/// An update session in mathematical terms.
#[verifier::ext_equal]
pub struct OtaModel {
    pub total_size: nat,
    pub received: nat,
    pub last_seq: nat,
    pub in_progress: bool,
    pub flash_offset: nat,
    pub response: Seq<u8>,
}

/// The answer to a write: `received` is the number of bytes held after it.
pub open spec fn reply(o: Outcome, received: nat) -> Seq<u8> {
    match o {
        Outcome::Empty | Outcome::Unknown => seq![0x03u8, 0x00u8],
        Outcome::BadChecksum => seq![0x03u8, 0x01u8],
        Outcome::TooLarge => seq![0x03u8, 0x02u8],
        Outcome::NoSession => seq![0x03u8, 0x03u8],
        Outcome::Incomplete => seq![0x03u8, 0x04u8],
        Outcome::Committed => seq![0x03u8, 0xFEu8],
        Outcome::Accepted => seq![0x03u8, 0xFFu8],
        Outcome::Status | Outcome::OutOfSequence | Outcome::WrongOffset => seq![0x03u8]
            + le32_bytes(received),
    }
}

/// Whether the write did what it asked for.
pub open spec fn succeeds(o: Outcome) -> bool {
    o is Accepted || o is Status || o is Committed
}

impl OtaModel {
    /// No session, nothing received, nothing answered.
    pub open spec fn fresh() -> OtaModel {
        OtaModel {
            total_size: 0,
            received: 0,
            last_seq: NO_SEQ as nat,
            in_progress: false,
            flash_offset: 0,
            response: seq![0u8, 0, 0, 0, 0, 0, 0, 0],
        }
    }

    /// Whether the partition holds a firmware of `total` bytes.
    pub open spec fn fits(total: int) -> bool {
        total <= OTA_PARTITION_SIZE
    }

    /// The first `len` bytes of the response buffer, all of it when `len` is larger.
    pub open spec fn answer(self, len: int) -> Seq<u8> {
        self.response.take(if len < 8 { len } else { 8 })
    }

    /// A new session for `total` bytes.
    pub open spec fn begun(self, total: nat) -> OtaModel {
        OtaModel {
            total_size: total,
            received: 0,
            last_seq: NO_SEQ as nat,
            in_progress: true,
            flash_offset: 0,
            response: self.response,
        }
    }

    /// The session that data packet `d` speaks to, at the position it names: the running one or
    /// the one that the packet opens, set back to its start by sequence number 0.
    pub open spec fn positioned(self, d: Seq<u8>) -> OtaModel {
        let s = if self.in_progress {
            self
        } else {
            self.begun(packet_total(d))
        };
        if packet_seq(d) == 0 {
            OtaModel { received: 0, last_seq: NO_SEQ as nat, ..s }
        } else {
            s
        }
    }

    /// What a write means to the session.
    pub open spec fn outcome(self, d: Seq<u8>) -> Outcome {
        if d.len() == 0 {
            Outcome::Empty
        } else if is_data_packet(d) {
            if xor_all(packet_payload(d)) != packet_checksum(d) {
                Outcome::BadChecksum
            } else if !self.in_progress && packet_total(d) > OTA_PARTITION_SIZE {
                Outcome::TooLarge
            } else if packet_seq(d) != 0 && packet_seq(d) != (self.positioned(d).last_seq + 1)
                % 0x1_0000 {
                Outcome::OutOfSequence
            } else if packet_offset(d) != self.positioned(d).received {
                Outcome::WrongOffset
            } else {
                Outcome::Accepted
            }
        } else if d[0] == CMD_OTA_STATUS {
            Outcome::Status
        } else if d[0] == CMD_OTA_COMMIT {
            if !self.in_progress {
                Outcome::NoSession
            } else if self.received != self.total_size {
                Outcome::Incomplete
            } else {
                Outcome::Committed
            }
        } else {
            Outcome::Unknown
        }
    }

    /// The session after a write, answer aside.
    pub open spec fn moved(self, d: Seq<u8>) -> OtaModel {
        match self.outcome(d) {
            Outcome::OutOfSequence | Outcome::WrongOffset => self.positioned(d),
            Outcome::Accepted => OtaModel {
                last_seq: packet_seq(d),
                received: self.positioned(d).received + packet_payload(d).len(),
                ..self.positioned(d)
            },
            Outcome::Committed => OtaModel { in_progress: false, ..self },
            _ => self,
        }
    }

    /// Whether a write sets the session to its start: a sound data packet that has sequence number
    /// 0 or opens a session. Nothing that came before it counts then.
    pub open spec fn restarts(self, d: Seq<u8>) -> bool {
        &&& self.outcome(d) is Accepted || self.outcome(d) is OutOfSequence || self.outcome(
            d,
        ) is WrongOffset
        &&& packet_seq(d) == 0 || !self.in_progress
    }

    /// The answer that a write is given.
    pub open spec fn reply_to(self, d: Seq<u8>) -> Seq<u8> {
        reply(self.outcome(d), self.moved(d).received)
    }

    /// The session after a write, with the answer at the front of the response buffer.
    pub open spec fn handled(self, d: Seq<u8>) -> OtaModel {
        let r = self.reply_to(d);
        OtaModel { response: r + self.response.skip(r.len() as int), ..self.moved(d) }
    }

    /// What every reachable session keeps: a packet adds at most 255 bytes and sequence numbers
    /// never run past 0xFFFF without a fresh start, so the count of received bytes is bounded; and
    /// a running session fits the partition.
    pub open spec fn wf(self) -> bool {
        &&& self.last_seq <= 0xFFFF
        &&& self.received <= 255 * (self.last_seq + 1)
        &&& self.in_progress ==> self.total_size <= OTA_PARTITION_SIZE
        &&& self.response.len() == 8
    }

    /// The session given up: position and size are gone, the rest stays.
    pub open spec fn aborted(self) -> OtaModel {
        OtaModel { in_progress: false, received: 0, total_size: 0, ..self }
    }
}

/// Whether the last `added` of `received` bytes reach or pass a multiple of 10240.
pub open spec fn report_due(received: int, added: int) -> bool {
    received % 10240 < added
}

/// State of a firmware update.
#[derive(Clone, Copy, Debug)]
pub struct OtaState {
    /// Size of the whole firmware in bytes.
    pub total_size: u32,
    /// Bytes received so far.
    pub received: u32,
    /// Sequence number of the last packet taken, to notice lost ones.
    pub last_seq: u16,
    /// Whether an update is running.
    pub in_progress: bool,
    /// Write position in the flash, aligned to sectors.
    pub flash_offset: u32,
    /// The latest answers, each written over the front of the one before.
    pub response: [u8; 8],
}

impl View for OtaState {
    type V = OtaModel;

    open spec fn view(&self) -> OtaModel {
        OtaModel {
            total_size: self.total_size as nat,
            received: self.received as nat,
            last_seq: self.last_seq as nat,
            in_progress: self.in_progress,
            flash_offset: self.flash_offset as nat,
            response: self.response@,
        }
    }
}

/// Reads a little-endian number of two bytes.
pub(crate) fn read_le16(d: &[u8], i: usize) -> (n: u16)
    requires
        i + 2 <= d@.len(),
    ensures
        n == le16(d@, i as int),
{
    d[i] as u16 + 0x100 * (d[i + 1] as u16)
}

/// Reads a little-endian number of four bytes.
fn read_le32(d: &[u8], i: usize) -> (n: u32)
    requires
        i + 4 <= d@.len(),
    ensures
        n == le32(d@, i as int),
{
    d[i] as u32 + 0x100 * (d[i + 1] as u32) + 0x1_0000 * (d[i + 2] as u32) + 0x100_0000 * (
    d[i + 3] as u32)
}

/// Checksum of a payload.
pub fn xor_bytes(s: &[u8]) -> (x: u8)
    ensures
        x == xor_all(s@),
{
    let mut x: u8 = 0;
    let mut i: usize = 0;
    while i < s.len()
        invariant
            i <= s@.len(),
            x == xor_all(s@.take(i as int)),
        decreases s@.len() - i,
    {
        assert(s@.take(i + 1).drop_last() =~= s@.take(i as int));
        x = x ^ s[i];
        i += 1;
    }
    assert(s@.take(i as int) =~= s@);
    x
}

impl OtaState {
    /// No session, nothing received.
    pub fn new() -> (s: OtaState)
        ensures
            s@ == OtaModel::fresh(),
    {
        OtaState {
            total_size: 0,
            received: 0,
            last_seq: NO_SEQ,
            in_progress: false,
            flash_offset: 0,
            response: [0, 0, 0, 0, 0, 0, 0, 0],
        }
    }

    /// Opens a session for `total_size` bytes; refused when the partition is smaller.
    pub fn begin(&mut self, total_size: u32) -> (res: Result<(), &'static str>)
        ensures
            res is Ok <==> OtaModel::fits(total_size as int),
            match res {
                Ok(()) => total_size <= OTA_PARTITION_SIZE && final(self)@ == old(self)@.begun(
                    total_size as nat,
                ),
                Err(e) => total_size > OTA_PARTITION_SIZE && *final(self) == *old(self) && e@
                    == "firmware too large"@,
            },
    {
        if total_size > OTA_PARTITION_SIZE {
            return Err("firmware too large");
        }
        self.total_size = total_size;
        self.received = 0;
        self.last_seq = NO_SEQ;
        self.in_progress = true;
        self.flash_offset = 0;
        Ok(())
    }

    /// Puts a two-byte answer at the front of the response buffer.
    fn respond(&mut self, code: u8)
        ensures
            final(self)@ == (OtaModel {
                response: seq![0x03u8, code] + old(self)@.response.skip(2),
                ..old(self)@
            }),
    {
        self.response[0] = 0x03;
        self.response[1] = code;
        assert(self.response@ =~= seq![0x03u8, code] + old(self).response@.skip(2));
    }

    /// Puts the number of bytes received at the front of the response buffer.
    fn respond_received(&mut self)
        ensures
            final(self)@ == (OtaModel {
                response: seq![0x03u8] + le32_bytes(old(self)@.received)
                    + old(self)@.response.skip(5),
                ..old(self)@
            }),
    {
        let r: u32 = self.received;
        assert((r & 0xFF) as u8 == r % 0x100) by (bit_vector);
        assert(((r >> 8) & 0xFF) as u8 == r / 0x100 % 0x100) by (bit_vector);
        assert(((r >> 16) & 0xFF) as u8 == r / 0x1_0000 % 0x100) by (bit_vector);
        assert(((r >> 24) & 0xFF) as u8 == r / 0x100_0000 % 0x100) by (bit_vector);
        self.response[0] = 0x03;
        self.response[1] = (r & 0xFF) as u8;
        self.response[2] = ((r >> 8) & 0xFF) as u8;
        self.response[3] = ((r >> 16) & 0xFF) as u8;
        self.response[4] = ((r >> 24) & 0xFF) as u8;
        assert(self.response@ =~= seq![0x03u8] + le32_bytes(r as nat) + old(self).response@.skip(5));
    }

    /// Handles one write to the update characteristic.
    ///
    /// Returns whether it succeeded and how many bytes of answer it left in the response buffer.
    /// The count of received bytes must not run past the largest `u32`; in a session that
    /// [`OtaModel::wf`] describes it cannot.
    pub fn handle_packet(&mut self, data: &[u8]) -> (res: (bool, usize))
        requires
            old(self)@.moved(data@).received <= u32::MAX,
        ensures
            final(self)@ == old(self)@.handled(data@),
            res.0 == succeeds(old(self)@.outcome(data@)),
            res.1 == old(self)@.reply_to(data@).len(),
    {
        if data.len() == 0 {
            self.respond(0x00);
            return (false, 2);
        }
        let cmd: u8 = data[0];
        if cmd == CMD_OTA_DATA && data.len() >= HEADER_LEN {
            self.handle_data(data)
        } else if cmd == CMD_OTA_STATUS {
            self.respond_received();
            (true, 5)
        } else if cmd == CMD_OTA_COMMIT {
            if !self.in_progress {
                self.respond(0x03);
                return (false, 2);
            }
            if self.received != self.total_size {
                self.respond(0x04);
                return (false, 2);
            }
            self.in_progress = false;
            self.respond(0xFE);
            (true, 2)
        } else {
            self.respond(0x00);
            (false, 2)
        }
    }

    /// Handles a write that has the command byte and the length of a data packet.
    fn handle_data(&mut self, data: &[u8]) -> (res: (bool, usize))
        requires
            is_data_packet(data@),
            old(self)@.moved(data@).received <= u32::MAX,
        ensures
            final(self)@ == old(self)@.handled(data@),
            res.0 == succeeds(old(self)@.outcome(data@)),
            res.1 == old(self)@.reply_to(data@).len(),
    {
        let seq: u16 = read_le16(data, 1);
        let total: u32 = read_le32(data, 3);
        let offset: u32 = read_le32(data, 7);
        let end: usize = HEADER_LEN + data[11] as usize;
        let payload: &[u8] = if end <= data.len() {
            slice_subrange(data, HEADER_LEN, end)
        } else {
            slice_subrange(data, 0, 0)
        };
        assert(payload@ =~= packet_payload(data@));
        let checksum: u8 = if end < data.len() {
            data[end]
        } else {
            0
        };

        if xor_bytes(payload) != checksum {
            self.respond(0x01);
            return (false, 2);
        }
        if !self.in_progress {
            if let Err(_) = self.begin(total) {
                self.respond(0x02);
                return (false, 2);
            }
        }
        if seq == 0 {
            self.last_seq = NO_SEQ;
            self.received = 0;
        } else if seq != self.last_seq.wrapping_add(1) {
            self.respond_received();
            return (false, 5);
        }
        if offset != self.received {
            self.respond_received();
            return (false, 5);
        }
        self.last_seq = seq;
        self.received += payload.len() as u32;
        self.respond(0xFF);
        (true, 2)
    }

    /// The first `len` bytes of the response buffer, all of it when `len` is larger.
    pub fn get_response(&self, len: usize) -> (r: &[u8])
        ensures
            r@ == self@.answer(len as int),
            r@ == self@.response.take(if len < 8 { len as int } else { 8 }),
    {
        let n: usize = if len < 8 {
            len
        } else {
            8
        };
        slice_subrange(self.response.as_slice(), 0, n)
    }

    /// Gives the session up.
    pub fn abort(&mut self)
        ensures
            final(self)@ == old(self)@.aborted(),
    {
        self.in_progress = false;
        self.received = 0;
        self.total_size = 0;
    }

    /// Whether a progress report is due after a packet of `added` bytes: the count of received
    /// bytes has just reached or passed a multiple of 10240.
    pub fn progress_due(&self, added: usize) -> (due: bool)
        ensures
            due == (self@.received % 10240 < added),
            due == report_due(self@.received as int, added as int),
    {
        ((self.received % 10240) as usize) < added
    }
}

// ---------------------------------------------------------------------------
// Flash
// ---------------------------------------------------------------------------

/// Size of an erasable flash sector in bytes.
pub const SECTOR_SIZE: u32 = 4096;

/// Why flash work failed.
#[derive(Clone, Copy, Debug, PartialEq, Eq, Structural)]
pub enum FlashError {
    Erase,
    Write,
}

impl FlashError {
    /// The failure in words.
    pub fn message(&self) -> (m: &'static str)
        ensures
            m@ == (match *self {
                FlashError::Erase => "erase failed"@,
                FlashError::Write => "write failed"@,
            }),
    {
        match self {
            FlashError::Erase => "erase failed",
            FlashError::Write => "write failed",
        }
    }
}

/// Whether the last of `done` erased sectors is the first or another eighth one after it.
pub open spec fn erase_report_due(done: int) -> bool {
    done > 0 && (done - 1) % 8 == 0
}

/// Sectors that `size` bytes take up.
pub open spec fn sector_count(size: int) -> int {
    (size + SECTOR_SIZE - 1) / (SECTOR_SIZE as int)
}

/// Sectors of the update partition that are still to be erased, in order.
#[derive(Clone, Copy, Debug, PartialEq, Eq, Structural)]
pub struct EraseJob {
    /// Start of the first sector, counted from the start of the partition.
    pub offset: u32,
    /// Sectors to erase in all.
    pub sectors: u32,
    /// Sectors erased so far.
    pub done: u32,
}

impl EraseJob {
    /// Flash address of sector `i` of the job.
    pub open spec fn address(self, i: int) -> int {
        OTA_PARTITION_OFFSET + self.offset + i * SECTOR_SIZE
    }

    /// Every sector lies within the address space.
    pub open spec fn wf(self) -> bool {
        &&& self.done <= self.sectors
        &&& self.sectors > 0 ==> self.address(self.sectors as int) <= u32::MAX
    }

    /// The address range to erase next, `None` when the job is done.
    pub open spec fn next_range(self) -> Option<(int, int)> {
        if self.done < self.sectors {
            Some((self.address(self.done as int), self.address(self.done + 1)))
        } else {
            None
        }
    }

    /// The job once the next sector is erased.
    pub open spec fn one_more(self) -> EraseJob {
        EraseJob { done: (self.done + 1) as u32, ..self }
    }

    /// The job that erases `size` bytes, `offset` bytes into the partition.
    pub open spec fn planned(offset: int, size: int) -> EraseJob {
        EraseJob { offset: offset as u32, sectors: sector_count(size) as u32, done: 0 }
    }

    /// The address range to erase next, `None` when the job is done.
    pub fn next(&self) -> (range: Option<(u32, u32)>)
        requires
            self.wf(),
        ensures
            range is Some == self.next_range() is Some,
            range matches Some((from, to)) ==> (from as int, to as int) == self.next_range()->0,
            match range {
                Some((from, to)) => self.done < self.sectors && from == self.address(
                    self.done as int,
                ) && to == self.address(self.done + 1),
                None => self.done == self.sectors,
            },
    {
        if self.done < self.sectors {
            let from: u32 = OTA_PARTITION_OFFSET + self.offset + self.done * SECTOR_SIZE;
            Some((from, from + SECTOR_SIZE))
        } else {
            None
        }
    }

    /// Takes note of how erasing the next sector went. A failure ends the job.
    pub fn erased(&mut self, ok: bool) -> (res: Result<(), FlashError>)
        requires
            old(self).wf(),
            old(self).done < old(self).sectors,
        ensures
            final(self).wf(),
            *final(self) == if ok {
                old(self).one_more()
            } else {
                *old(self)
            },
            match res {
                Ok(()) => ok && *final(self) == (EraseJob {
                    done: (old(self).done + 1) as u32,
                    ..*old(self)
                }),
                Err(e) => !ok && e == FlashError::Erase && *final(self) == *old(self),
            },
    {
        if ok {
            self.done = self.done + 1;
            Ok(())
        } else {
            Err(FlashError::Erase)
        }
    }

    /// Whether a progress report is due after the sector just erased: with the first and then
    /// with every eighth.
    pub fn progress_due(&self) -> (due: bool)
        ensures
            due == (self.done > 0 && (self.done - 1) % 8 == 0),
            due == erase_report_due(self.done as int),
    {
        self.done > 0 && (self.done - 1) % 8 == 0
    }
}

/// Plans the erasure of `size` bytes of the update partition, `offset` bytes in, whole sectors at
/// a time. [`EraseJob::next`] names the sector to erase, [`EraseJob::erased`] takes the result.
pub fn erase_ota_partition(offset: u32, size: u32) -> (job: EraseJob)
    requires
        size + SECTOR_SIZE - 1 <= u32::MAX,
        size > 0 ==> OTA_PARTITION_OFFSET + offset + sector_count(size as int) * SECTOR_SIZE
            <= u32::MAX,
    ensures
        job.wf(),
        job == EraseJob::planned(offset as int, size as int),
        job.offset == offset,
        job.sectors == sector_count(size as int),
        job.done == 0,
{
    EraseJob { offset, sectors: (size + SECTOR_SIZE - 1) / SECTOR_SIZE, done: 0 }
}

/// Firmware bytes and the flash address they go to.
#[derive(Clone, Copy, Debug)]
pub struct FlashWrite<'a> {
    pub at: u32,
    pub data: &'a [u8],
}

/// The flash address of the byte `offset` bytes into the update partition.
pub open spec fn flash_address(offset: int) -> int {
    OTA_PARTITION_OFFSET + offset
}

/// Places `data` in the update partition, `offset` bytes in.
pub fn write_firmware<'a>(offset: u32, data: &'a [u8]) -> (w: FlashWrite<'a>)
    requires
        OTA_PARTITION_OFFSET + offset <= u32::MAX,
    ensures
        w.at == flash_address(offset as int),
        w.at == OTA_PARTITION_OFFSET + offset,
        w.data@ == data@,
{
    FlashWrite { at: OTA_PARTITION_OFFSET + offset, data }
}

} // verus!
