//! The BLE characteristic: script text and firmware come in by writes, answers go out by reads.
use crate::laws;
use crate::ota;
use crate::ota::{
    erase_ota_partition, read_le16, write_firmware, EraseJob, FlashError, FlashWrite, OtaModel,
    OtaState, Outcome,
    CMD_OTA_COMMIT, CMD_OTA_DATA, CMD_OTA_STATUS, CMD_SCRIPT, HEADER_LEN, OTA_PARTITION_OFFSET,
    OTA_PARTITION_SIZE,
};
use vstd::prelude::*;
use vstd::slice::slice_subrange;

verus! {

/// Bytes of script text that are kept.
pub const SCRIPT_BUF_SIZE: usize = 2048;

/// Firmware bytes that go to the flash at a time.
pub const OTA_BUF_SIZE: usize = 256;

/// What a read gives when no update request was answered.
pub const READBACK: [u8; 9] = [0x55, 0x41, 0x56, 0x4C, 0x45, 0x44, 0x20, 0x4A, 0x53];

/// Flash work under way. `commit` tells that a restart follows it.
#[derive(Clone, Copy, Debug, PartialEq, Eq, Structural)]
pub enum Work {
    Idle,
    Erasing { job: EraseJob, commit: bool },
    Writing { commit: bool },
}

/// What is to be done next outside.
#[derive(Clone, Copy, Debug, PartialEq, Eq, Structural)]
pub enum Action {
    /// Nothing.
    Done,
    /// Erase the flash sector at `from`, up to `to`, and report the result.
    Erase { from: u32, to: u32 },
    /// Write the first `len` gathered firmware bytes to the flash at `at` and report the result.
    Write { at: u32, len: usize },
    /// Nothing: the update was given up for this reason.
    Failed(FlashError),
    /// Restart the device.
    Reboot,
}

/// The characteristic in mathematical terms.
#[verifier::ext_equal]
pub struct LinkModel {
    pub ota: OtaModel,
    pub ota_buf: Seq<u8>,
    pub script: Seq<u8>,
    pub script_ready: bool,
    pub response_len: nat,
    pub flash_erased: bool,
    pub work: Work,
}

/// How many of the gathered bytes go to the flash at a time: a full buffer, or all when there are
/// fewer.
pub open spec fn block_len(buf: Seq<u8>) -> nat {
    if buf.len() < OTA_BUF_SIZE {
        buf.len()
    } else {
        OTA_BUF_SIZE as nat
    }
}

/// The gathered bytes with those of data packet `d` behind them. Of a packet that is cut short,
/// whose bytes do not count as received, come those that arrived, as far as the block has room.
pub open spec fn gathered(buf: Seq<u8>, d: Seq<u8>) -> Seq<u8> {
    if ota::is_cut_short(d) {
        let arrived = d.skip(HEADER_LEN as int);
        let room = OTA_BUF_SIZE - buf.len();
        buf + if arrived.len() <= room {
            arrived
        } else {
            arrived.take(room)
        }
    } else {
        buf + ota::packet_payload(d)
    }
}

/// Bytes before the first zero byte, all of them when there is none.
pub open spec fn text_len(p: Seq<u8>) -> nat
    decreases p.len(),
{
    if p.len() == 0 || p[0] == 0 {
        0
    } else {
        1 + text_len(p.skip(1))
    }
}

/// The script text that a write carries.
pub open spec fn script_payload(d: Seq<u8>) -> Seq<u8> {
    if d[0] == CMD_SCRIPT {
        d.skip(1)
    } else {
        d
    }
}

/// A write that an update session handles.
pub open spec fn is_ota_write(d: Seq<u8>) -> bool {
    d.len() > 0 && (d[0] == CMD_OTA_DATA || d[0] == CMD_OTA_STATUS || d[0] == CMD_OTA_COMMIT)
}

/// The job that erases the whole update partition, `done` sectors into it.
pub open spec fn partition_erasure(done: u32) -> EraseJob {
    EraseJob { offset: 0, sectors: ota::sector_count(OTA_PARTITION_SIZE as int) as u32, done }
}

impl LinkModel {
    /// Nothing received, nothing erased.
    pub open spec fn fresh() -> LinkModel {
        LinkModel {
            ota: OtaModel::fresh(),
            ota_buf: Seq::empty(),
            script: Seq::empty(),
            script_ready: false,
            response_len: 0,
            flash_erased: false,
            work: Work::Idle,
        }
    }

    /// The gathered bytes are enough for flash work: a full block and less than another, or what
    /// is left at the end of an update.
    pub open spec fn has_block(self, commit: bool) -> bool {
        if commit {
            0 < self.ota_buf.len() < OTA_BUF_SIZE && !self.ota.in_progress
        } else {
            OTA_BUF_SIZE <= self.ota_buf.len() < 2 * OTA_BUF_SIZE
        }
    }

    /// What every reachable state keeps: the session is well-formed, the buffers keep to their
    /// sizes, and flash work goes with bytes to write.
    pub open spec fn wf(self) -> bool {
        &&& self.ota.wf()
        &&& self.script.len() <= SCRIPT_BUF_SIZE
        &&& self.response_len <= 8
        &&& match self.work {
            Work::Idle => self.ota_buf.len() < OTA_BUF_SIZE,
            Work::Erasing { job, commit } => {
                &&& self.has_block(commit)
                &&& !self.flash_erased
                &&& job == partition_erasure(job.done)
                &&& job.done < job.sectors
            },
            Work::Writing { commit } => {
                &&& self.has_block(commit)
                &&& self.flash_erased
            },
        }
    }

    /// Asks for the sector that `job` erases next.
    pub open spec fn erasing(self, job: EraseJob, commit: bool) -> (LinkModel, Action) {
        (
            LinkModel { work: Work::Erasing { job, commit }, ..self },
            Action::Erase {
                from: job.address(job.done as int) as u32,
                to: job.address(job.done + 1) as u32,
            },
        )
    }

    /// The place of the gathered bytes in the partition: they are the last of those received. It
    /// is the start when more is gathered than counts as received, which takes a packet that is
    /// cut short.
    pub open spec fn write_offset(self) -> int {
        if self.ota_buf.len() <= self.ota.received {
            self.ota.received - self.ota_buf.len()
        } else {
            0
        }
    }

    /// Asks for a block of the gathered bytes to be written to its place.
    pub open spec fn writing(self, commit: bool) -> (LinkModel, Action) {
        (
            LinkModel { work: Work::Writing { commit }, ..self },
            Action::Write {
                at: (OTA_PARTITION_OFFSET + self.write_offset()) as u32,
                len: block_len(self.ota_buf) as usize,
            },
        )
    }

    /// Nothing left to do: rest, or restart after a commit.
    pub open spec fn finished(self, commit: bool) -> (LinkModel, Action) {
        (
            LinkModel { work: Work::Idle, ..self },
            if commit {
                Action::Reboot
            } else {
                Action::Done
            },
        )
    }

    /// Sends a block of the gathered bytes to the flash, which is erased before the first one of
    /// a transfer.
    pub open spec fn flushed(self, commit: bool) -> (LinkModel, Action) {
        if self.ota_buf.len() == 0 {
            self.finished(commit)
        } else if !self.flash_erased {
            self.erasing(partition_erasure(0), commit)
        } else {
            self.writing(commit)
        }
    }

    /// The update given up: session and gathered bytes are gone.
    pub open spec fn failed(self, e: FlashError) -> (LinkModel, Action) {
        (
            LinkModel {
                ota: self.ota.aborted(),
                ota_buf: Seq::empty(),
                work: Work::Idle,
                ..self
            },
            Action::Failed(e),
        )
    }

    /// The next step once the flash has done, or failed to do, what was asked.
    pub open spec fn reported(self, ok: bool) -> (LinkModel, Action) {
        match self.work {
            Work::Idle => (self, Action::Done),
            Work::Erasing { job, commit } => if !ok {
                self.failed(FlashError::Erase)
            } else if job.done + 1 < job.sectors {
                self.erasing(EraseJob { done: (job.done + 1) as u32, ..job }, commit)
            } else {
                (LinkModel { flash_erased: true, ..self }).writing(commit)
            },
            Work::Writing { commit } => if !ok {
                self.failed(FlashError::Write)
            } else {
                (LinkModel {
                    ota_buf: self.ota_buf.skip(block_len(self.ota_buf) as int),
                    ..self
                }).finished(commit)
            },
        }
    }

    /// Nothing of a transfer is gathered or in the flash.
    pub open spec fn started_over(self) -> LinkModel {
        LinkModel { ota_buf: Seq::empty(), flash_erased: false, ..self }
    }

    /// The effect of a write that an update session handles: the bytes of an accepted packet are
    /// gathered, and a full block goes to the flash; a commit sends what is left. A packet that
    /// sets the session to its start drops what was gathered before, and the partition counts as
    /// not erased.
    pub open spec fn ota_written(self, d: Seq<u8>) -> (LinkModel, Action) {
        let base = if self.ota.restarts(d) {
            self.started_over()
        } else {
            self
        };
        let s = LinkModel {
            ota: self.ota.handled(d),
            response_len: self.ota.reply_to(d).len(),
            ..base
        };
        match self.ota.outcome(d) {
            Outcome::Accepted => {
                let t = LinkModel { ota_buf: gathered(s.ota_buf, d), ..s };
                if t.ota_buf.len() >= OTA_BUF_SIZE {
                    t.flushed(false)
                } else {
                    (t, Action::Done)
                }
            },
            Outcome::Committed => s.flushed(true),
            _ => (s, Action::Done),
        }
    }

    /// The effect of a write of script text: the bytes before the first zero byte are appended as
    /// far as there is room, and the zero byte, if it is reached, ends the script.
    pub open spec fn script_written(self, p: Seq<u8>) -> LinkModel {
        let room = SCRIPT_BUF_SIZE - self.script.len();
        let n = text_len(p);
        LinkModel {
            script: self.script + p.take(if n <= room { n as int } else { room }),
            script_ready: self.script_ready || (n < p.len() && n <= room),
            response_len: 0,
            ..self
        }
    }

    /// The effect of a write.
    pub open spec fn written(self, d: Seq<u8>) -> (LinkModel, Action) {
        if d.len() == 0 {
            (self, Action::Done)
        } else if is_ota_write(d) {
            self.ota_written(d)
        } else {
            (self.script_written(script_payload(d)), Action::Done)
        }
    }

    /// How many bytes a read with room for `room` bytes gives.
    pub open spec fn read_len(self, room: int) -> int {
        if room < self.readable().len() {
            room
        } else {
            self.readable().len() as int
        }
    }

    /// What a buffer that held `out` holds after a read into it.
    pub open spec fn read_into(self, out: Seq<u8>) -> Seq<u8> {
        let n = self.read_len(out.len() as int);
        self.readable().take(n) + out.skip(n)
    }

    /// The script gone.
    pub open spec fn script_cleared(self) -> LinkModel {
        LinkModel { script: Seq::empty(), script_ready: false, ..self }
    }

    /// What a read gives.
    pub open spec fn readable(self) -> Seq<u8> {
        if self.response_len == 0 {
            READBACK@
        } else {
            self.ota.response.take(self.response_len as int)
        }
    }
}

/// State of the characteristic.
#[derive(Debug)]
pub struct Link {
    /// The update session.
    pub ota: OtaState,
    /// Firmware bytes that have not gone to the flash yet.
    pub ota_buf: Vec<u8>,
    /// Script text received so far.
    pub script: Vec<u8>,
    /// Whether the script is complete and waits to be loaded.
    pub script_ready: bool,
    /// Length of the answer to the last update request, 0 when there is none to read.
    pub response_len: usize,
    /// Whether the update partition has been erased for the transfer under way.
    pub flash_erased: bool,
    /// Flash work under way.
    pub work: Work,
}

impl View for Link {
    type V = LinkModel;

    open spec fn view(&self) -> LinkModel {
        LinkModel {
            ota: self.ota@,
            ota_buf: self.ota_buf@,
            script: self.script@,
            script_ready: self.script_ready,
            response_len: self.response_len as nat,
            flash_erased: self.flash_erased,
            work: self.work,
        }
    }
}

/// Converts bytes to text with [`core::str::from_utf8`]: `None` exactly when they are not valid
/// UTF-8, else the text that they encode.
#[verifier::external_body]
fn decode_text(bytes: &[u8]) -> (text: Option<&str>)
    ensures
        text is Some <==> vstd::utf8::valid_utf8(bytes@),
        text matches Some(t) ==> t@ == vstd::utf8::decode_utf8(bytes@),
{
    core::str::from_utf8(bytes).ok()
}

/// Text of `n` bytes with a zero byte or nothing behind it has length `n`.
pub proof fn lemma_text_len(p: Seq<u8>, n: nat)
    requires
        n <= p.len(),
        forall|j: int| 0 <= j < n ==> p[j] != 0,
        n < p.len() ==> p[n as int] == 0,
    ensures
        text_len(p) == n,
    decreases n,
{
    if n > 0 {
        let q = p.skip(1);
        assert forall|j: int| 0 <= j < n - 1 implies q[j] != 0 by {
            assert(q[j] == p[j + 1]);
        }
        lemma_text_len(q, (n - 1) as nat);
    }
}

/// The zero byte found by `text_len` is where it says, with none before it.
pub proof fn lemma_text_len_bounds(p: Seq<u8>)
    ensures
        text_len(p) <= p.len(),
        forall|j: int| 0 <= j < text_len(p) ==> p[j] != 0,
        text_len(p) < p.len() ==> p[text_len(p) as int] == 0,
    decreases p.len(),
{
    if p.len() > 0 && p[0] != 0 {
        let q = p.skip(1);
        lemma_text_len_bounds(q);
        assert forall|j: int| 0 <= j < text_len(p) implies p[j] != 0 by {
            if j > 0 {
                assert(q[j - 1] == p[j]);
            }
        }
    }
}

impl Link {
    /// Nothing received, nothing erased.
    pub fn new() -> (link: Link)
        ensures
            link@ == LinkModel::fresh(),
            link@.wf(),
    {
        Link {
            ota: OtaState::new(),
            ota_buf: Vec::new(),
            script: Vec::new(),
            script_ready: false,
            response_len: 0,
            flash_erased: false,
            work: Work::Idle,
        }
    }

    /// Handles a write to the characteristic and says what to do next outside. The result of an
    /// erasure or a flash write goes to [`Link::on_flash`] before the next write is handled.
    pub fn on_write(&mut self, data: &[u8]) -> (action: Action)
        requires
            old(self)@.wf(),
            old(self)@.work is Idle,
        ensures
            final(self)@.wf(),
            (final(self)@, action) == old(self)@.written(data@),
    {
        if data.len() == 0 {
            return Action::Done;
        }
        let cmd: u8 = data[0];
        if cmd == CMD_OTA_DATA || cmd == CMD_OTA_STATUS || cmd == CMD_OTA_COMMIT {
            proof {
                laws::ota::law_writes_keep_sessions_well_formed(self.ota@, data@);
            }
            let running: bool = self.ota.in_progress;
            let (ok, len): (bool, usize) = self.ota.handle_packet(data);
            self.response_len = len;
            if cmd == CMD_OTA_DATA && data.len() >= HEADER_LEN && (ok || len == 5) {
                if read_le16(data, 1) == 0 || !running {
                    self.start_over();
                }
            }
            if !ok {
                return Action::Done;
            }
            if cmd == CMD_OTA_DATA {
                self.gather(data);
                if self.ota_buf.len() >= OTA_BUF_SIZE {
                    return self.flush_ota_buffer(false);
                }
            }
            if cmd == CMD_OTA_COMMIT {
                return self.flush_ota_buffer(true);
            }
            Action::Done
        } else {
            if cmd == CMD_SCRIPT {
                self.append_script(slice_subrange(data, 1, data.len()));
                assert(data@.subrange(1, data@.len() as int) =~= data@.skip(1));
            } else {
                self.append_script(data);
            }
            Action::Done
        }
    }

    /// Forgets what was gathered and erased for a transfer.
    fn start_over(&mut self)
        ensures
            final(self)@ == old(self)@.started_over(),
    {
        self.ota_buf.clear();
        self.flash_erased = false;
    }

    /// Gathers the bytes of an accepted data packet.
    fn gather(&mut self, data: &[u8])
        requires
            ota::is_data_packet(data@),
            old(self)@.ota_buf.len() < OTA_BUF_SIZE,
        ensures
            final(self)@ == (LinkModel {
                ota_buf: gathered(old(self)@.ota_buf, data@),
                ..old(self)@
            }),
    {
        let announced: usize = HEADER_LEN + data[11] as usize;
        let room: usize = OTA_BUF_SIZE - self.ota_buf.len();
        let end: usize = if announced <= data.len() {
            announced
        } else if data.len() - HEADER_LEN <= room {
            data.len()
        } else {
            HEADER_LEN + room
        };
        let chunk: &[u8] = slice_subrange(data, HEADER_LEN, end);
        let ghost before = self@;
        let mut i: usize = 0;
        while i < chunk.len()
            invariant
                i <= chunk@.len(),
                self@ == (LinkModel { ota_buf: before.ota_buf + chunk@.take(i as int), ..before }),
            decreases chunk@.len() - i,
        {
            self.ota_buf.push(chunk[i]);
            assert(self.ota_buf@ =~= before.ota_buf + chunk@.take(i + 1));
            i += 1;
        }
        assert(chunk@.take(i as int) =~= chunk@);
        assert(self.ota_buf@ =~= gathered(before.ota_buf, data@));
    }

    /// Appends script text up to the zero byte that ends it, as far as there is room.
    fn append_script(&mut self, p: &[u8])
        requires
            old(self)@.script.len() <= SCRIPT_BUF_SIZE,
        ensures
            final(self)@ == old(self)@.script_written(p@),
            final(self)@.script.len() <= SCRIPT_BUF_SIZE,
    {
        self.response_len = 0;
        let ghost before = self@;
        let mut i: usize = 0;
        proof {
            lemma_text_len_bounds(p@);
        }
        while i < p.len()
            invariant
                i <= text_len(p@) <= p@.len(),
                i <= SCRIPT_BUF_SIZE - before.script.len(),
                forall|j: int| 0 <= j < text_len(p@) ==> p@[j] != 0,
                text_len(p@) < p@.len() ==> p@[text_len(p@) as int] == 0,
                self@ == (LinkModel { script: before.script + p@.take(i as int), ..before }),
                before == (LinkModel { response_len: 0, ..old(self)@ }),
            decreases p@.len() - i,
        {
            if p[i] == 0 {
                self.script_ready = true;
                return;
            }
            if self.script.len() >= SCRIPT_BUF_SIZE {
                return;
            }
            self.script.push(p[i]);
            assert(self.script@ =~= before.script + p@.take(i + 1));
            i += 1;
        }
    }

    /// Sends a block of the gathered firmware bytes to the flash, which is erased before the
    /// first one of a transfer.
    pub fn flush_ota_buffer(&mut self, commit: bool) -> (action: Action)
        requires
            old(self)@.ota.wf(),
            old(self)@.ota_buf.len() < 2 * OTA_BUF_SIZE,
            commit ==> old(self)@.ota_buf.len() <= OTA_BUF_SIZE,
        ensures
            (final(self)@, action) == old(self)@.flushed(commit),
    {
        if self.ota_buf.len() == 0 {
            return self.finish(commit);
        }
        if !self.flash_erased {
            let job: EraseJob = erase_ota_partition(0, OTA_PARTITION_SIZE);
            return self.erase_next(job, commit);
        }
        self.write_buffer(commit)
    }

    fn erase_next(&mut self, job: EraseJob, commit: bool) -> (action: Action)
        requires
            job.wf(),
            job.done < job.sectors,
        ensures
            (final(self)@, action) == old(self)@.erasing(job, commit),
    {
        self.work = Work::Erasing { job, commit };
        match job.next() {
            Some((from, to)) => Action::Erase { from, to },
            None => Action::Done,
        }
    }

    fn write_buffer(&mut self, commit: bool) -> (action: Action)
        requires
            old(self)@.ota.wf(),
            old(self)@.ota_buf.len() < 2 * OTA_BUF_SIZE,
        ensures
            (final(self)@, action) == old(self)@.writing(commit),
    {
        self.work = Work::Writing { commit };
        let offset: u32 = self.ota.received.saturating_sub(self.ota_buf.len() as u32);
        let len: usize = self.next_block();
        let block: FlashWrite = write_firmware(
            offset,
            slice_subrange(self.ota_buf.as_slice(), 0, len),
        );
        Action::Write { at: block.at, len: block.data.len() }
    }

    fn next_block(&self) -> (len: usize)
        ensures
            len == block_len(self@.ota_buf),
    {
        if self.ota_buf.len() < OTA_BUF_SIZE {
            self.ota_buf.len()
        } else {
            OTA_BUF_SIZE
        }
    }

    fn finish(&mut self, commit: bool) -> (action: Action)
        ensures
            (final(self)@, action) == old(self)@.finished(commit),
    {
        self.work = Work::Idle;
        if commit {
            Action::Reboot
        } else {
            Action::Done
        }
    }

    fn give_up(&mut self, e: FlashError) -> (action: Action)
        ensures
            (final(self)@, action) == old(self)@.failed(e),
    {
        self.ota.abort();
        self.ota_buf.clear();
        self.work = Work::Idle;
        Action::Failed(e)
    }

    /// Takes the result of the erasure or flash write that was asked for last and says what to do
    /// next.
    pub fn on_flash(&mut self, ok: bool) -> (action: Action)
        requires
            old(self)@.wf(),
            !(old(self)@.work is Idle),
        ensures
            final(self)@.wf(),
            (final(self)@, action) == old(self)@.reported(ok),
    {
        match self.work {
            Work::Idle => Action::Done,
            Work::Erasing { job, commit } => {
                let mut job = job;
                match job.erased(ok) {
                    Err(e) => self.give_up(e),
                    Ok(()) => if job.done < job.sectors {
                        self.erase_next(job, commit)
                    } else {
                        self.flash_erased = true;
                        self.write_buffer(commit)
                    },
                }
            },
            Work::Writing { commit } => {
                if !ok {
                    return self.give_up(FlashError::Write);
                }
                let len: usize = self.next_block();
                let rest: Vec<u8> = self.ota_buf.split_off(len);
                self.ota_buf = rest;
                self.finish(commit)
            },
        }
    }

    /// Handles a read: copies the answer to the last update request, or the device's name when
    /// there is none, to the front of `out`, and returns how many bytes that were.
    pub fn on_read(&self, out: &mut [u8]) -> (n: usize)
        requires
            self@.wf(),
        ensures
            n == self@.read_len(old(out)@.len() as int),
            n == if old(out)@.len() < self@.readable().len() {
                old(out)@.len()
            } else {
                self@.readable().len()
            },
            final(out)@ == self@.read_into(old(out)@),
            final(out)@ == self@.readable().take(n as int) + old(out)@.skip(n as int),
    {
        let readback: [u8; 9] = READBACK;
        let response: &[u8] = if self.response_len == 0 {
            readback.as_slice()
        } else {
            self.ota.get_response(self.response_len)
        };
        let n: usize = if out.len() < response.len() {
            out.len()
        } else {
            response.len()
        };
        let ghost before = out@;
        let mut i: usize = 0;
        while i < n
            invariant
                i <= n <= response@.len(),
                n <= before.len(),
                out@ == response@.take(i as int) + before.skip(i as int),
            decreases n - i,
        {
            out[i] = response[i];
            assert(out@ =~= response@.take(i + 1) + before.skip(i + 1));
            i += 1;
        }
        n
    }

    /// The script text received so far, `None` when it is not valid UTF-8.
    pub fn script_text(&self) -> (text: Option<&str>)
        ensures
            text is Some <==> vstd::utf8::valid_utf8(self@.script),
            text matches Some(t) ==> t@ == vstd::utf8::decode_utf8(self@.script),
    {
        decode_text(self.script.as_slice())
    }

    /// Makes room for the next script.
    pub fn clear_script(&mut self)
        ensures
            final(self)@ == old(self)@.script_cleared(),
            final(self)@ == (LinkModel {
                script: Seq::empty(),
                script_ready: false,
                ..old(self)@
            }),
    {
        self.script.clear();
        self.script_ready = false;
    }
}

} // verus!
