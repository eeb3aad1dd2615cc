//! Laws of the BLE characteristic.
use crate::laws::ota as ota_laws;
use crate::link;
use crate::link::{Action, Link, LinkModel, Work, OTA_BUF_SIZE, READBACK, SCRIPT_BUF_SIZE};
use crate::ota;
use crate::ota::{EraseJob, FlashError, OtaModel, CMD_OTA_COMMIT, OTA_PARTITION_OFFSET, OTA_PARTITION_SIZE};
use vstd::prelude::*;

verus! {

/// Every write, and every result of flash work, keeps the characteristic well-formed.
pub proof fn law_steps_keep_link_well_formed(m: LinkModel, d: Seq<u8>, ok: bool)
    requires
        m.wf(),
    ensures
        m.work is Idle ==> m.written(d).0.wf(),
        m.reported(ok).0.wf(),
{
    ota_laws::law_writes_keep_sessions_well_formed(m.ota, d);
    if d.len() > 0 {
        link::lemma_text_len_bounds(link::script_payload(d));
    }
    assert(m.ota.reply_to(d).len() <= 8);
}

/// Flash work, whoever sends what, stays off everything below the update partition; erasure stays
/// within the partition, and so does a write unless more was received than the partition holds.
pub proof fn law_flash_work_stays_in_partition(m: LinkModel, d: Seq<u8>, ok: bool)
    requires
        m.wf(),
    ensures
        m.work is Idle ==> in_partition(m.written(d)),
        in_partition(m.reported(ok)),
{
    law_steps_keep_link_well_formed(m, d, ok);
}

/// What a step asks of the flash concerns the update partition.
pub open spec fn in_partition(step: (LinkModel, Action)) -> bool {
    match step.1 {
        Action::Erase { from, to } => OTA_PARTITION_OFFSET <= from < to <= OTA_PARTITION_OFFSET
            + OTA_PARTITION_SIZE,
        Action::Write { at, len } => OTA_PARTITION_OFFSET <= at && (step.0.ota.received
            <= OTA_PARTITION_SIZE ==> at + len <= OTA_PARTITION_OFFSET + OTA_PARTITION_SIZE),
        _ => true,
    }
}

/// Erasing flash sets every bit of the range.
pub open spec fn erased(flash: spec_fn(int) -> u8, from: int, to: int) -> spec_fn(int) -> u8 {
    |a: int|
        if from <= a < to {
            0xFFu8
        } else {
            flash(a)
        }
}

/// Writing flash clears the bits that are clear in the data and leaves the others.
pub open spec fn programmed(flash: spec_fn(int) -> u8, at: int, data: Seq<u8>) -> spec_fn(int) -> u8 {
    |a: int|
        if at <= a < at + data.len() {
            flash(a) & data[a - at]
        } else {
            flash(a)
        }
}

/// The flash after what a step asks for has been done.
pub open spec fn performed(m: LinkModel, action: Action, flash: spec_fn(int) -> u8) -> spec_fn(
    int,
) -> u8 {
    match action {
        Action::Erase { from, to } => erased(flash, from as int, to as int),
        Action::Write { at, len } => programmed(flash, at as int, m.ota_buf.take(len as int)),
        _ => flash,
    }
}

/// How many results of flash work are still awaited, at most.
pub open spec fn awaited(m: LinkModel) -> nat {
    match m.work {
        Work::Idle => 0,
        Work::Writing { .. } => 1,
        Work::Erasing { job, .. } => if job.done < job.sectors {
            (job.sectors - job.done + 1) as nat
        } else {
            2
        },
    }
}

/// The end of a step once all flash work that it leads to has succeeded.
pub open spec fn settled(m: LinkModel, action: Action, flash: spec_fn(int) -> u8) -> (
    LinkModel,
    Action,
    spec_fn(int) -> u8,
)
    decreases awaited(m),
{
    if m.work is Idle {
        (m, action, flash)
    } else {
        let next = m.reported(true);
        settled(next.0, next.1, performed(m, action, flash))
    }
}

/// Where the gathered bytes of `m` go.
pub open spec fn write_address(m: LinkModel) -> int {
    OTA_PARTITION_OFFSET + m.write_offset()
}

/// The gathered bytes of `m` that go to the flash next.
pub open spec fn next_block(m: LinkModel) -> Seq<u8> {
    m.ota_buf.take(link::block_len(m.ota_buf) as int)
}

/// The characteristic once a block of the gathered bytes stands in the flash.
pub open spec fn block_written(m: LinkModel) -> LinkModel {
    LinkModel {
        ota_buf: m.ota_buf.skip(link::block_len(m.ota_buf) as int),
        flash_erased: true,
        work: Work::Idle,
        ..m
    }
}

/// How flash work ends that succeeds.
pub open spec fn ended(commit: bool) -> Action {
    if commit {
        Action::Reboot
    } else {
        Action::Done
    }
}

proof fn lemma_write_settles(m: LinkModel, commit: bool, flash: spec_fn(int) -> u8)
    requires
        m.ota.wf(),
        m.ota_buf.len() < 2 * OTA_BUF_SIZE,
        m.flash_erased,
    ensures
        ({
            let step = m.writing(commit);
            let end = settled(step.0, step.1, flash);
            &&& end.0 == block_written(m)
            &&& end.1 == ended(commit)
            &&& end.2 == programmed(flash, write_address(m), next_block(m))
        }),
{
    reveal_with_fuel(settled, 3);
}

proof fn lemma_erasure_settles(m: LinkModel, done: u32, commit: bool, flash: spec_fn(int) -> u8)
    requires
        m.ota.wf(),
        m.ota_buf.len() < 2 * OTA_BUF_SIZE,
        done < link::partition_erasure(done).sectors,
    ensures
        ({
            let job = link::partition_erasure(done);
            let step = m.erasing(job, commit);
            let end = settled(step.0, step.1, flash);
            let blank = erased(
                flash,
                job.address(done as int),
                OTA_PARTITION_OFFSET + OTA_PARTITION_SIZE,
            );
            &&& end.0 == block_written(m)
            &&& end.1 == ended(commit)
            &&& forall|a: int| #[trigger]
                (end.2)(a) == programmed(blank, write_address(m), next_block(m))(a)
        }),
    decreases link::partition_erasure(done).sectors - done,
{
    let job = link::partition_erasure(done);
    let step = m.erasing(job, commit);
    let next = step.0.reported(true);
    let once = performed(step.0, step.1, flash);
    assert(settled(step.0, step.1, flash) == settled(next.0, next.1, once));
    if done + 1 < job.sectors {
        assert(next == m.erasing(link::partition_erasure((done + 1) as u32), commit));
        lemma_erasure_settles(m, (done + 1) as u32, commit, once);
    } else {
        let e = LinkModel { flash_erased: true, ..m };
        assert(next == e.writing(commit));
        lemma_write_settles(e, commit, once);
    }
}

proof fn lemma_flush_settles(m: LinkModel, commit: bool, flash: spec_fn(int) -> u8)
    requires
        m.ota.wf(),
        0 < m.ota_buf.len() < 2 * OTA_BUF_SIZE,
    ensures
        ({
            let step = m.flushed(commit);
            let end = settled(step.0, step.1, flash);
            let base = if m.flash_erased {
                flash
            } else {
                erased(
                    flash,
                    OTA_PARTITION_OFFSET as int,
                    OTA_PARTITION_OFFSET + OTA_PARTITION_SIZE,
                )
            };
            &&& end.0 == block_written(m)
            &&& end.1 == ended(commit)
            &&& forall|a: int| #[trigger]
                (end.2)(a) == programmed(base, write_address(m), next_block(m))(a)
        }),
{
    if m.flash_erased {
        lemma_write_settles(m, commit, flash);
    } else {
        lemma_erasure_settles(m, 0, commit, flash);
    }
}

/// The characteristic and the flash after a list of writes, if all flash work succeeds.
pub open spec fn delivered(m: LinkModel, flash: spec_fn(int) -> u8, writes: Seq<Seq<u8>>) -> (
    LinkModel,
    spec_fn(int) -> u8,
)
    decreases writes.len(),
{
    if writes.len() == 0 {
        (m, flash)
    } else {
        let before = delivered(m, flash, writes.drop_last());
        let step = before.0.written(writes.last());
        let end = settled(step.0, step.1, before.1);
        (end.0, end.2)
    }
}

/// A list of writes that sends `chunks` of a firmware of `total` bytes in order, with any number
/// of writes in between that are no part of the transfer: progress queries, packets and requests
/// that are refused, script text.
pub open spec fn conveys(
    m: LinkModel,
    flash: spec_fn(int) -> u8,
    total: nat,
    writes: Seq<Seq<u8>>,
    chunks: Seq<Seq<u8>>,
) -> bool
    decreases writes.len(),
{
    if writes.len() == 0 {
        chunks.len() == 0
    } else {
        ||| {
            &&& chunks.len() > 0
            &&& writes.last() == ota_laws::last_packet(total, chunks)
            &&& conveys(m, flash, total, writes.drop_last(), chunks.drop_last())
        }
        ||| {
            &&& ota_laws::is_aside(delivered(m, flash, writes.drop_last()).0.ota, writes.last())
            &&& conveys(m, flash, total, writes.drop_last(), chunks)
        }
    }
}

/// Nothing outside the update partition has changed.
pub open spec fn same_outside(flash: spec_fn(int) -> u8, before: spec_fn(int) -> u8) -> bool {
    forall|a: int|
        a < OTA_PARTITION_OFFSET || a >= OTA_PARTITION_OFFSET + OTA_PARTITION_SIZE
            ==> #[trigger] flash(a) == before(a)
}

/// How far a transfer has come: what is not gathered any more stands in the flash, and the rest
/// of the partition is blank if it counts as erased.
pub open spec fn stands(m: LinkModel, flash: spec_fn(int) -> u8, sent: Seq<u8>) -> bool {
    let written = sent.len() - m.ota_buf.len();
    &&& 0 <= written
    &&& m.ota.received == sent.len()
    &&& m.ota_buf == sent.skip(written)
    &&& !m.flash_erased ==> written == 0
    &&& forall|a: int|
        m.flash_erased && OTA_PARTITION_OFFSET + written <= a < OTA_PARTITION_OFFSET
            + OTA_PARTITION_SIZE ==> #[trigger] flash(a) == 0xFF
    &&& forall|i: int|
        0 <= i < written ==> #[trigger] flash(OTA_PARTITION_OFFSET + i) == sent[i]
}

proof fn lemma_flush_stands(
    m: LinkModel,
    commit: bool,
    flash: spec_fn(int) -> u8,
    sent: Seq<u8>,
)
    requires
        m.ota.wf(),
        0 < m.ota_buf.len() < 2 * OTA_BUF_SIZE,
        sent.len() <= OTA_PARTITION_SIZE,
        stands(m, flash, sent),
    ensures
        ({
            let step = m.flushed(commit);
            let end = settled(step.0, step.1, flash);
            &&& end.0 == block_written(m)
            &&& end.1 == ended(commit)
            &&& stands(end.0, end.2, sent)
            &&& same_outside(end.2, flash)
        }),
{
    let step = m.flushed(commit);
    let end = settled(step.0, step.1, flash);
    let written = sent.len() - m.ota_buf.len();
    let n = link::block_len(m.ota_buf);
    lemma_flush_settles(m, commit, flash);
    assert(m.ota_buf.skip(n as int) =~= sent.skip(written + n));
    assert forall|i: int| 0 <= i < written + n implies #[trigger] (end.2)(OTA_PARTITION_OFFSET + i)
        == sent[i] by {
        let b = sent[i];
        assert(0xFFu8 & b == b) by (bit_vector);
        if i >= written {
            assert(next_block(m)[i - written] == b);
        }
    }
}

/// The characteristic with the bytes of an accepted packet gathered.
spec fn taken(m: LinkModel, d: Seq<u8>) -> LinkModel {
    LinkModel {
        ota: m.ota.handled(d),
        response_len: m.ota.reply_to(d).len(),
        ota_buf: link::gathered(
            if m.ota.restarts(d) {
                Seq::empty()
            } else {
                m.ota_buf
            },
            d,
        ),
        flash_erased: m.flash_erased && !m.ota.restarts(d),
        ..m
    }
}

proof fn lemma_accepted_is_taken(m: LinkModel, d: Seq<u8>)
    requires
        m.wf(),
        m.ota.outcome(d) is Accepted,
    ensures
        m.written(d) == if taken(m, d).ota_buf.len() >= OTA_BUF_SIZE {
            taken(m, d).flushed(false)
        } else {
            (taken(m, d), Action::Done)
        },
        taken(m, d).ota.wf(),
        taken(m, d).ota.received == m.ota.moved(d).received,
{
    ota_laws::law_writes_keep_sessions_well_formed(m.ota, d);
}

proof fn lemma_taken_stands(
    m: LinkModel,
    d: Seq<u8>,
    flash: spec_fn(int) -> u8,
    old_sent: Seq<u8>,
)
    requires
        m.wf(),
        m.ota.outcome(d) is Accepted,
        !ota::is_cut_short(d),
        m.ota.restarts(d) ==> old_sent.len() == 0,
        !m.ota.restarts(d) ==> stands(m, flash, old_sent),
    ensures
        stands(taken(m, d), flash, old_sent + ota::packet_payload(d)),
{
    let g = taken(m, d);
    let sent = old_sent + ota::packet_payload(d);
    if m.ota.restarts(d) {
        assert(g.ota_buf =~= sent.skip(0));
    } else {
        let written = old_sent.len() - m.ota_buf.len();
        assert(g.ota_buf =~= sent.skip(written));
        assert forall|i: int| 0 <= i < written implies #[trigger] flash(OTA_PARTITION_OFFSET + i)
            == sent[i] by {
            assert(sent[i] == old_sent[i]);
        }
    }
}

proof fn lemma_packet_stands(
    m: LinkModel,
    d: Seq<u8>,
    flash: spec_fn(int) -> u8,
    old_sent: Seq<u8>,
)
    requires
        m.wf(),
        m.work is Idle,
        m.ota.outcome(d) is Accepted,
        !ota::is_cut_short(d),
        m.ota.restarts(d) ==> old_sent.len() == 0,
        !m.ota.restarts(d) ==> stands(m, flash, old_sent),
        old_sent.len() + ota::packet_payload(d).len() <= OTA_PARTITION_SIZE,
    ensures
        ({
            let step = m.written(d);
            let end = settled(step.0, step.1, flash);
            &&& end.0.wf()
            &&& end.0.work is Idle
            &&& end.0.ota == m.ota.handled(d)
            &&& stands(end.0, end.2, old_sent + ota::packet_payload(d))
            &&& same_outside(end.2, flash)
        }),
{
    let g = taken(m, d);
    lemma_accepted_is_taken(m, d);
    lemma_taken_stands(m, d, flash, old_sent);
    law_steps_keep_link_well_formed(m, d, true);
    if g.ota_buf.len() >= OTA_BUF_SIZE {
        lemma_flush_stands(g, false, flash, old_sent + ota::packet_payload(d));
        assert(block_written(g).wf());
    }
}

proof fn lemma_aside(m: LinkModel, d: Seq<u8>)
    requires
        m.wf(),
        m.work is Idle,
        ota_laws::is_aside(m.ota, d),
    ensures
        ({
            let step = m.written(d);
            &&& step.0.wf()
            &&& step.0.work is Idle
            &&& step.1 is Done
            &&& step.0.ota_buf == m.ota_buf
            &&& step.0.flash_erased == m.flash_erased
            &&& step.0.ota == (OtaModel { response: step.0.ota.response, ..m.ota })
        }),
{
    law_steps_keep_link_well_formed(m, d, true);
    ota_laws::law_asides_leave_session(m.ota, d);
}

proof fn lemma_delivery_stands(
    m: LinkModel,
    flash: spec_fn(int) -> u8,
    total: nat,
    writes: Seq<Seq<u8>>,
    chunks: Seq<Seq<u8>>,
)
    requires
        m.wf(),
        m.work is Idle,
        ota_laws::sendable(m.ota, total, chunks),
        ota_laws::stream(chunks).len() <= total,
        conveys(m, flash, total, writes, chunks),
    ensures
        ({
            let end = delivered(m, flash, writes);
            &&& end.0.wf()
            &&& end.0.work is Idle
            &&& ota_laws::has_taken(end.0.ota, total, chunks)
            &&& chunks.len() > 0 ==> stands(end.0, end.1, ota_laws::stream(chunks))
            &&& same_outside(end.1, flash)
        }),
    decreases writes.len(),
{
    if writes.len() > 0 {
        let before = writes.drop_last();
        let d = writes.last();
        let t = delivered(m, flash, before);
        ota_laws::lemma_sendable_part(m.ota, m.ota, total, chunks);
        if chunks.len() > 0 && d == ota_laws::last_packet(total, chunks) && conveys(
            m,
            flash,
            total,
            before,
            chunks.drop_last(),
        ) {
            let rest = chunks.drop_last();
            lemma_delivery_stands(m, flash, total, before, rest);
            ota_laws::lemma_sendable_part(m.ota, t.0.ota, total, chunks);
            ota_laws::law_next_chunk_is_taken(t.0.ota, total, chunks);
            lemma_packet_stands(t.0, d, t.1, ota_laws::stream(rest));
        } else {
            lemma_delivery_stands(m, flash, total, before, chunks);
            lemma_aside(t.0, d);
        }
    }
}

/// A firmware that is sent in order, in chunks of any size that packets can hold, and then
/// committed stands byte for byte at the start of the update partition when the device restarts,
/// with nothing outside the partition changed, if all flash work succeeds. It does not matter what
/// was gathered or written before, unless an update of another size still runs, or what is asked,
/// refused or sent of a script in between.
pub proof fn law_firmware_reaches_flash(
    m: LinkModel,
    flash: spec_fn(int) -> u8,
    total: nat,
    writes: Seq<Seq<u8>>,
    chunks: Seq<Seq<u8>>,
    commit: Seq<u8>,
)
    requires
        m.wf(),
        m.work is Idle,
        ota_laws::sendable(m.ota, total, chunks),
        conveys(m, flash, total, writes, chunks),
        chunks.len() > 0,
        ota_laws::stream(chunks).len() == total,
        commit.len() > 0,
        commit[0] == CMD_OTA_COMMIT,
    ensures
        ({
            let sent = delivered(m, flash, writes);
            let step = sent.0.written(commit);
            let end = settled(step.0, step.1, sent.1);
            &&& end.1 is Reboot
            &&& forall|i: int|
                0 <= i < total ==> #[trigger] (end.2)(OTA_PARTITION_OFFSET + i)
                    == ota_laws::stream(chunks)[i]
            &&& same_outside(end.2, flash)
        }),
{
    lemma_delivery_stands(m, flash, total, writes, chunks);
    let sent = delivered(m, flash, writes);
    ota_laws::law_writes_keep_sessions_well_formed(sent.0.ota, commit);
    let g = LinkModel {
        ota: sent.0.ota.handled(commit),
        response_len: sent.0.ota.reply_to(commit).len(),
        ..sent.0
    };
    assert(sent.0.written(commit) == g.flushed(true));
    assert(stands(g, sent.1, ota_laws::stream(chunks)));
    if g.ota_buf.len() > 0 {
        lemma_flush_stands(g, true, sent.1, ota_laws::stream(chunks));
    }
}

/// A packet that sets the session to its start leaves nothing gathered but its own bytes, and
/// the partition is erased before anything of the new transfer is written.
pub proof fn law_start_over_forgets_transfer(m: LinkModel, d: Seq<u8>)
    requires
        m.wf(),
        m.work is Idle,
        m.ota.restarts(d),
    ensures
        m.written(d).1 is Done,
        m.written(d).0.ota_buf == if m.ota.outcome(d) is Accepted {
            link::gathered(Seq::empty(), d)
        } else {
            Seq::empty()
        },
        !m.written(d).0.flash_erased,
{
}

/// A packet that arrives twice is gathered once.
pub proof fn law_repeated_packet_is_gathered_once(
    m: LinkModel,
    d: Seq<u8>,
    flash: spec_fn(int) -> u8,
)
    requires
        m.wf(),
        m.work is Idle,
        m.ota.outcome(d) is Accepted,
    ensures
        ({
            let step = m.written(d);
            let once = settled(step.0, step.1, flash).0;
            let twice = once.written(d);
            &&& twice.1 is Done
            &&& twice.0.ota_buf == once.ota_buf
            &&& twice.0.flash_erased == once.flash_erased
        }),
{
    let g = taken(m, d);
    let step = m.written(d);
    let once = settled(step.0, step.1, flash).0;
    lemma_accepted_is_taken(m, d);
    assert(ota::packet_seq(d) < 0x1_0000);
    if g.ota_buf.len() >= OTA_BUF_SIZE {
        lemma_flush_settles(g, false, flash);
    }
    assert(once.ota == m.ota.handled(d));
}

/// The gathered bytes are the last of those received, and what went to the flash before them is
/// whole blocks, as long as an update runs.
pub open spec fn is_in_step(m: LinkModel) -> bool {
    &&& m.ota_buf.len() <= m.ota.received
    &&& m.ota.in_progress || !(m.work is Idle) ==> (m.ota.received - m.ota_buf.len())
        % (OTA_BUF_SIZE as int) == 0
}

/// Flash writes start at whole blocks, and are whole blocks themselves but for the last one of a
/// commit, from a fresh start on and as long as no packet is taken that was cut short.
pub proof fn law_writes_are_whole_blocks(m: LinkModel, d: Seq<u8>, ok: bool)
    requires
        m.wf(),
        is_in_step(m),
        m.ota.outcome(d) is Accepted ==> !ota::is_cut_short(d),
    ensures
        is_in_step(LinkModel::fresh()),
        m.work is Idle ==> is_block_write(m.written(d)) && is_in_step(m.written(d).0),
        is_block_write(m.reported(ok)) && is_in_step(m.reported(ok).0),
{
    law_steps_keep_link_well_formed(m, d, ok);
}

/// A step that asks for a flash write asks for a block.
pub open spec fn is_block_write(step: (LinkModel, Action)) -> bool {
    step.1 matches Action::Write { at, len } ==> {
        &&& at as int % OTA_BUF_SIZE as int == 0
        &&& len == OTA_BUF_SIZE || (len < OTA_BUF_SIZE && len == step.0.ota_buf.len()
            && step.0.work == (Work::Writing { commit: true }))
    }
}

/// Only an accepted packet or commit, or a packet that sets the session to its start, touches the
/// firmware bytes that were gathered or asks anything of the flash: a progress query or a refused
/// write in the middle of a transfer leaves both alone.
pub proof fn law_other_requests_leave_transfer(m: LinkModel, d: Seq<u8>)
    requires
        ota_laws::is_aside(m.ota, d),
    ensures
        m.written(d).1 is Done,
        m.written(d).0.ota_buf == m.ota_buf,
        m.written(d).0.flash_erased == m.flash_erased,
        m.written(d).0.work == m.work,
{
}

/// Failed flash work gives the update up: the session and the gathered bytes are gone, and the
/// device does not restart.
pub proof fn law_flash_failure_gives_up(m: LinkModel)
    requires
        !(m.work is Idle),
    ensures
        m.reported(false).0.work is Idle,
        !m.reported(false).0.ota.in_progress,
        m.reported(false).0.ota.received == 0,
        m.reported(false).0.ota_buf.len() == 0,
        m.reported(false).1 is Failed,
{
}

/// The device restarts only after an accepted commit, with no firmware bytes left to write.
pub proof fn law_restart_only_after_commit(m: LinkModel, d: Seq<u8>, ok: bool)
    requires
        m.wf(),
    ensures
        m.written(d).1 is Reboot ==> m.ota.outcome(d) is Committed && m.ota_buf.len() == 0,
        m.reported(ok).1 is Reboot ==> ok && m.work == (Work::Writing { commit: true })
            && m.reported(ok).0.ota_buf.len() == 0,
{
}

/// A read after an update request gives the whole answer to it and nothing else, whatever flash
/// work followed.
pub proof fn law_answer_can_be_read(m: LinkModel, d: Seq<u8>, ok: bool)
    requires
        m.wf(),
        link::is_ota_write(d),
    ensures
        m.written(d).0.readable() == m.ota.reply_to(d),
        m.written(d).0.reported(ok).0.readable() == m.ota.reply_to(d),
        m.reported(ok).0.readable() == m.readable(),
{
    assert(m.ota.handled(d).response.take(m.ota.reply_to(d).len() as int) =~= m.ota.reply_to(d));
}

/// A read after a write of script text gives the device's name.
pub proof fn law_script_clears_answer(m: LinkModel, d: Seq<u8>)
    requires
        d.len() > 0,
        !link::is_ota_write(d),
    ensures
        m.written(d).0.readable() == READBACK@,
{
}

/// Script text and firmware do not disturb each other.
pub proof fn law_script_and_update_are_separate(m: LinkModel, d: Seq<u8>)
    ensures
        link::is_ota_write(d) ==> m.written(d).0.script == m.script && m.written(d).0.script_ready
            == m.script_ready,
        !link::is_ota_write(d) ==> m.written(d).0.ota == m.ota && m.written(d).0.ota_buf
            == m.ota_buf && m.written(d).0.work == m.work && m.written(d).1 is Done,
{
}

/// The script text that a list of writes carries: all bytes but those 1 that a write starts with.
pub open spec fn script_stream(writes: Seq<Seq<u8>>) -> Seq<u8>
    decreases writes.len(),
{
    if writes.len() == 0 {
        Seq::empty()
    } else {
        script_stream(writes.drop_last()) + if writes.last()[0] == 1 {
            writes.last().skip(1)
        } else {
            writes.last()
        }
    }
}

/// The characteristic after a list of writes that lead to no flash work.
pub open spec fn after_writes(m: LinkModel, writes: Seq<Seq<u8>>) -> LinkModel
    decreases writes.len(),
{
    if writes.len() == 0 {
        m
    } else {
        after_writes(m, writes.drop_last()).written(writes.last()).0
    }
}

/// How far a script has come when `got` of its text and the closing zero byte has arrived.
spec fn script_stands(m: LinkModel, start: LinkModel, text: Seq<u8>, got: Seq<u8>) -> bool {
    &&& m.script == start.script + (if got.len() <= text.len() {
        got
    } else {
        text
    })
    &&& m.script_ready == (start.script_ready || got.len() > text.len())
}

proof fn lemma_script_stands(m: LinkModel, writes: Seq<Seq<u8>>, text: Seq<u8>)
    requires
        forall|i: int| 0 <= i < writes.len() ==> (#[trigger] writes[i]).len() > 0,
        forall|i: int| 0 <= i < writes.len() ==> !link::is_ota_write(#[trigger] writes[i]),
        forall|j: int| 0 <= j < text.len() ==> text[j] != 0,
        m.script.len() + text.len() <= SCRIPT_BUF_SIZE,
        script_stream(writes).len() <= text.len() + 1,
        script_stream(writes) == text.push(0).take(script_stream(writes).len() as int),
    ensures
        script_stands(after_writes(m, writes), m, text, script_stream(writes)),
    decreases writes.len(),
{
    let got = script_stream(writes);
    let whole = text.push(0);
    if writes.len() == 0 {
        assert(m.script + got =~= m.script);
    } else {
        let rest = writes.drop_last();
        let d = writes.last();
        let p = link::script_payload(d);
        let before = script_stream(rest);
        assert forall|i: int| 0 <= i < rest.len() implies (#[trigger] rest[i]).len() > 0
            && !link::is_ota_write(rest[i]) by {
            assert(rest[i] == writes[i]);
        }
        assert(before =~= got.take(before.len() as int));
        assert(before =~= whole.take(before.len() as int));
        lemma_script_stands(m, rest, text);
        let s = after_writes(m, rest);
        assert forall|j: int| 0 <= j < p.len() implies p[j] == whole[before.len() + j] by {
            assert(p[j] == got[before.len() + j]);
        }
        assert(p =~= whole.subrange(before.len() as int, got.len() as int));
        if got.len() <= text.len() {
            assert forall|j: int| 0 <= j < p.len() implies p[j] != 0 by {
                assert(p[j] == text[before.len() + j]);
            }
            link::lemma_text_len(p, p.len());
            assert(s.script + p.take(p.len() as int) =~= m.script + got);
        } else if before.len() <= text.len() {
            let n = (p.len() - 1) as nat;
            assert forall|j: int| 0 <= j < n implies p[j] != 0 by {
                assert(p[j] == text[before.len() + j]);
            }
            link::lemma_text_len(p, n);
            assert(s.script + p.take(n as int) =~= m.script + text);
        } else {
            assert(p.len() == 0);
            assert(s.script + p.take(0) =~= m.script + text);
        }
    }
}

/// A script that arrives in any number of pieces, with a zero byte at its end, is put together
/// again and then waits to be loaded, if there is room for it and no piece starts like an update
/// request.
pub proof fn law_script_pieces_join(m: LinkModel, writes: Seq<Seq<u8>>, text: Seq<u8>)
    requires
        forall|i: int| 0 <= i < writes.len() ==> (#[trigger] writes[i]).len() > 0,
        forall|i: int| 0 <= i < writes.len() ==> !link::is_ota_write(#[trigger] writes[i]),
        forall|j: int| 0 <= j < text.len() ==> text[j] != 0,
        m.script.len() + text.len() <= SCRIPT_BUF_SIZE,
        script_stream(writes) == text.push(0),
    ensures
        after_writes(m, writes).script == m.script + text,
        after_writes(m, writes).script_ready,
{
    assert(text.push(0).take(text.len() as int + 1) =~= text.push(0));
    lemma_script_stands(m, writes, text);
}

/// A script is not loaded before its closing zero byte: text without one leaves it waiting.
pub proof fn law_script_waits_for_end(m: LinkModel, writes: Seq<Seq<u8>>)
    requires
        forall|i: int| 0 <= i < writes.len() ==> (#[trigger] writes[i]).len() > 0,
        forall|i: int| 0 <= i < writes.len() ==> !link::is_ota_write(#[trigger] writes[i]),
        forall|j: int| 0 <= j < script_stream(writes).len() ==> script_stream(writes)[j] != 0,
    ensures
        after_writes(m, writes).script_ready == m.script_ready,
    decreases writes.len(),
{
    if writes.len() > 0 {
        let rest = writes.drop_last();
        let p = link::script_payload(writes.last());
        let got = script_stream(writes);
        let before = script_stream(rest);
        assert forall|i: int| 0 <= i < rest.len() implies (#[trigger] rest[i]).len() > 0
            && !link::is_ota_write(rest[i]) by {
            assert(rest[i] == writes[i]);
        }
        assert forall|j: int| 0 <= j < before.len() implies before[j] != 0 by {
            assert(before[j] == got[j]);
        }
        law_script_waits_for_end(m, rest);
        assert forall|j: int| 0 <= j < p.len() implies p[j] != 0 by {
            assert(p[j] == got[before.len() + j]);
        }
        link::lemma_text_len(p, p.len());
    }
}

/// The characteristic in mathematical terms is what its fields hold.
pub proof fn law_link_is_its_fields(l: Link)
    ensures
        l@.ota == l.ota@,
        l@.ota_buf == l.ota_buf@,
        l@.script == l.script@,
        l@.script_ready == l.script_ready,
        l@.response_len == l.response_len,
        l@.flash_erased == l.flash_erased,
        l@.work == l.work,
{
}

/// A fresh characteristic holds nothing and rests.
pub proof fn law_fresh_link_is_empty()
    ensures
        LinkModel::fresh().ota == OtaModel::fresh(),
        LinkModel::fresh().ota_buf.len() == 0,
        LinkModel::fresh().script.len() == 0,
        !LinkModel::fresh().script_ready,
        LinkModel::fresh().response_len == 0,
        !LinkModel::fresh().flash_erased,
        LinkModel::fresh().work is Idle,
{
}

/// A write that starts with none of 2, 3 and 4 is script text, and all of it but a leading 1. With
/// `n` bytes in front of its first zero byte, or in all when there is none, it appends exactly
/// these, as far as the script stays within 2048 bytes; the script is complete if the zero byte is
/// reached. Nothing else changes but that the device's name can be read again.
pub proof fn law_script_write_appends_its_bytes(m: LinkModel, d: Seq<u8>, n: int)
    requires
        m.script.len() <= 2048,
        d.len() > 0,
        d[0] != 2 && d[0] != 3 && d[0] != 4,
        ({
            let first = if d[0] == 1 {
                1int
            } else {
                0
            };
            &&& 0 <= n <= d.len() - first
            &&& forall|j: int| first <= j < first + n ==> d[j] != 0
            &&& first + n < d.len() ==> d[first + n] == 0
        }),
    ensures
        ({
            let first = if d[0] == 1 {
                1int
            } else {
                0
            };
            let t = m.written(d).0;
            let fits = m.script.len() + n <= 2048;
            &&& t.script.len() == if fits {
                m.script.len() + n
            } else {
                2048
            }
            &&& forall|j: int| 0 <= j < m.script.len() ==> #[trigger] t.script[j] == m.script[j]
            &&& forall|j: int|
                m.script.len() <= j < t.script.len() ==> #[trigger] t.script[j] == d[first + j
                    - m.script.len()]
            &&& t.script_ready == (m.script_ready || (fits && first + n < d.len()))
            &&& t.response_len == 0
            &&& t.ota == m.ota
            &&& t.ota_buf == m.ota_buf
            &&& t.flash_erased == m.flash_erased
            &&& t.work == m.work
            &&& m.written(d).1 is Done
        }),
{
    let first = if d[0] == 1 {
        1int
    } else {
        0
    };
    let p = link::script_payload(d);
    assert forall|j: int| 0 <= j < n implies p[j] != 0 by {
        assert(p[j] == d[first + j]);
    }
    link::lemma_text_len(p, n as nat);
}

/// An empty write does nothing.
pub proof fn law_empty_write_does_nothing(m: LinkModel)
    ensures
        m.written(Seq::empty()) == (m, Action::Done),
{
}

/// Pieces put together.
pub open spec fn joined(writes: Seq<Seq<u8>>) -> Seq<u8>
    decreases writes.len(),
{
    if writes.len() == 0 {
        Seq::empty()
    } else {
        joined(writes.drop_last()) + writes.last()
    }
}

proof fn lemma_plain_stream_is_joined(writes: Seq<Seq<u8>>)
    requires
        forall|i: int|
            0 <= i < writes.len() ==> (#[trigger] writes[i]).len() > 0 && writes[i][0] != 1,
    ensures
        script_stream(writes) == joined(writes),
    decreases writes.len(),
{
    if writes.len() > 0 {
        let rest = writes.drop_last();
        assert forall|i: int| 0 <= i < rest.len() implies (#[trigger] rest[i]).len() > 0
            && rest[i][0] != 1 by {
            assert(rest[i] == writes[i]);
        }
        lemma_plain_stream_is_joined(rest);
        assert(writes[writes.len() - 1][0] != 1);
    }
}

/// A script that is cut anywhere into writes, with a zero byte at its end, comes out as it was and
/// is complete, if there is room for it and no write starts with a command byte.
pub proof fn law_cut_script_comes_out_whole(m: LinkModel, writes: Seq<Seq<u8>>, text: Seq<u8>)
    requires
        forall|i: int|
            0 <= i < writes.len() ==> (#[trigger] writes[i]).len() > 0 && !(1 <= writes[i][0]
                <= 4),
        forall|j: int| 0 <= j < text.len() ==> text[j] != 0,
        m.script.len() + text.len() <= 2048,
        joined(writes) == text.push(0),
    ensures
        after_writes(m, writes).script == m.script + text,
        after_writes(m, writes).script_ready,
{
    assert forall|i: int| 0 <= i < writes.len() implies (#[trigger] writes[i]).len() > 0
        && writes[i][0] != 1 && !link::is_ota_write(writes[i]) by {}
    lemma_plain_stream_is_joined(writes);
    law_script_pieces_join(m, writes, text);
}

/// A read gives the answer to the last update request, and `UAVLED JS` when there is none.
pub proof fn law_read_gives_answer_or_name(m: LinkModel)
    requires
        m.response_len <= m.ota.response.len(),
    ensures
        m.response_len == 0 ==> m.readable() == seq![
            0x55u8,
            0x41u8,
            0x56u8,
            0x4Cu8,
            0x45u8,
            0x44u8,
            0x20u8,
            0x4Au8,
            0x53u8,
        ],
        m.response_len > 0 ==> m.readable().len() == m.response_len,
        m.response_len > 0 ==> forall|k: int|
            0 <= k < m.response_len ==> #[trigger] m.readable()[k] == m.ota.response[k],
{
    assert(READBACK@ =~= seq![
        0x55u8,
        0x41u8,
        0x56u8,
        0x4Cu8,
        0x45u8,
        0x44u8,
        0x20u8,
        0x4Au8,
        0x53u8,
    ]);
}

/// A write that starts with 2, 3 or 4 goes to the update session and leaves the script alone; its
/// answer can be read.
pub proof fn law_update_request_goes_to_session(m: LinkModel, d: Seq<u8>)
    requires
        d.len() > 0,
        2 <= d[0] <= 4,
    ensures
        m.written(d).0.ota == m.ota.handled(d),
        m.written(d).0.response_len == m.ota.reply_to(d).len(),
        m.written(d).0.script == m.script,
        m.written(d).0.script_ready == m.script_ready,
{
}

/// A data packet that is taken brings its bytes behind those gathered, or in their place if it has
/// sequence number 0, after which the partition counts as not erased: its whole payload, or, when
/// it is cut short, what arrived as far as 256 bytes come together. From 256 bytes on a block goes
/// to the flash: the partition is erased before it, sector by sector, unless that was done, and
/// the block is written where its bytes belong.
pub proof fn law_taken_packet_is_gathered(m: LinkModel, d: Seq<u8>)
    requires
        m.wf(),
        m.work is Idle,
        d.len() >= 12,
        d[0] == 2,
        ota::succeeds(m.ota.outcome(d)),
    ensures
        ({
            let first = d[1] + 0x100 * d[2] == 0;
            let kept = if first {
                Seq::empty()
            } else {
                m.ota_buf
            };
            let end = if 12 + d[11] <= d.len() {
                12 + d[11]
            } else if d.len() - 12 <= 256 - kept.len() {
                d.len() as int
            } else {
                12 + 256 - kept.len()
            };
            let buf = kept + d.subrange(12, end);
            let blank = m.flash_erased && !first;
            let received = m.ota.handled(d).received;
            let (t, action) = m.written(d);
            &&& t.ota_buf == buf
            &&& t.flash_erased == blank
            &&& buf.len() < 256 ==> t.work is Idle && action is Done
            &&& buf.len() >= 256 && !blank ==> {
                &&& action == (Action::Erase { from: 0x19_0000, to: 0x19_1000 })
                &&& t.work == (Work::Erasing {
                    job: EraseJob { offset: 0, sectors: 384, done: 0 },
                    commit: false,
                })
            }
            &&& buf.len() >= 256 && blank ==> {
                &&& t.work == (Work::Writing { commit: false })
                &&& action matches Action::Write { at, len } && len == 256 && at == 0x19_0000
                    + if received >= buf.len() {
                    received - buf.len()
                } else {
                    0
                }
            }
        }),
{
    ota_laws::law_writes_keep_sessions_well_formed(m.ota, d);
    assert(d.skip(12) =~= d.subrange(12, d.len() as int));
    let room = 256 - m.ota_buf.len();
    if d.len() - 12 > room {
        assert(d.skip(12).take(room) =~= d.subrange(12, 12 + room));
    }
}

/// An update request that is neither a packet that is taken nor a commit that succeeds asks
/// nothing of the flash. It drops what was gathered if it is a data packet that set the session to
/// its start, which the answer tells by the position, and else leaves it.
pub proof fn law_other_request_asks_no_flash_work(m: LinkModel, d: Seq<u8>)
    requires
        d.len() > 0,
        2 <= d[0] <= 4,
        d[0] == 3 || !ota::succeeds(m.ota.outcome(d)),
    ensures
        ({
            let back = d[0] == 2 && m.ota.reply_to(d).len() == 5 && (d[1] + 0x100 * d[2] == 0
                || !m.ota.in_progress);
            let (t, action) = m.written(d);
            &&& action is Done
            &&& t.work == m.work
            &&& t.ota_buf == if back {
                Seq::empty()
            } else {
                m.ota_buf
            }
            &&& t.flash_erased == (m.flash_erased && !back)
        }),
{
}

/// A commit that succeeds sends what is left to the flash, as one block behind what was written,
/// and restarts the device at once when nothing is left.
pub proof fn law_commit_sends_the_rest(m: LinkModel, d: Seq<u8>)
    requires
        m.wf(),
        m.work is Idle,
        d.len() > 0,
        d[0] == 4,
        ota::succeeds(m.ota.outcome(d)),
    ensures
        ({
            let (t, action) = m.written(d);
            let n = m.ota_buf.len();
            &&& t.ota_buf == m.ota_buf
            &&& t.flash_erased == m.flash_erased
            &&& n == 0 ==> action is Reboot && t.work is Idle
            &&& n > 0 && !m.flash_erased ==> {
                &&& action == (Action::Erase { from: 0x19_0000, to: 0x19_1000 })
                &&& t.work == (Work::Erasing {
                    job: EraseJob { offset: 0, sectors: 384, done: 0 },
                    commit: true,
                })
            }
            &&& n > 0 && m.flash_erased ==> {
                &&& t.work == (Work::Writing { commit: true })
                &&& action matches Action::Write { at, len } && len == n && at == 0x19_0000
                    + if m.ota.received >= n {
                    m.ota.received - n
                } else {
                    0
                }
            }
        }),
{
    ota_laws::law_writes_keep_sessions_well_formed(m.ota, d);
}

/// An erased sector leads to the next one of the 384, and the last of them to the write of the
/// first 256 bytes that are gathered, or of all when there are fewer.
pub proof fn law_erased_sector_leads_on(m: LinkModel)
    requires
        m.wf(),
        m.work is Erasing,
    ensures
        ({
            let job = m.work->job;
            let commit = m.work->Erasing_commit;
            let n = m.ota_buf.len();
            let (t, action) = m.reported(true);
            &&& t.ota == m.ota
            &&& t.ota_buf == m.ota_buf
            &&& t.script == m.script
            &&& t.script_ready == m.script_ready
            &&& t.response_len == m.response_len
            &&& job.done < 383 ==> {
                &&& t.flash_erased == m.flash_erased
                &&& t.work == (Work::Erasing {
                    job: EraseJob { offset: 0, sectors: 384, done: (job.done + 1) as u32 },
                    commit,
                })
                &&& action matches Action::Erase { from, to } && from == 0x19_0000 + 0x1000 * (
                job.done + 1) && to == from + 0x1000
            }
            &&& job.done == 383 ==> {
                &&& t.flash_erased
                &&& t.work == (Work::Writing { commit })
                &&& action matches Action::Write { at, len } && len == (if n < 256 {
                    n as int
                } else {
                    256
                }) && at == 0x19_0000 + if m.ota.received >= n {
                    m.ota.received - n
                } else {
                    0
                }
            }
        }),
{
}

/// A block that was written is no longer gathered, and what is behind it stays. The device
/// restarts if the write was that of a commit.
pub proof fn law_written_block_is_dropped(m: LinkModel)
    requires
        m.wf(),
        m.work is Writing,
    ensures
        ({
            let n = if m.ota_buf.len() < 256 {
                m.ota_buf.len() as int
            } else {
                256
            };
            let (t, action) = m.reported(true);
            &&& t.ota_buf == m.ota_buf.subrange(n, m.ota_buf.len() as int)
            &&& t.work is Idle
            &&& t.ota == m.ota
            &&& t.flash_erased == m.flash_erased
            &&& t.script == m.script
            &&& t.script_ready == m.script_ready
            &&& t.response_len == m.response_len
            &&& action == if m.work->Writing_commit {
                Action::Reboot
            } else {
                Action::Done
            }
        }),
{
    assert(m.reported(true).0.ota_buf =~= m.ota_buf.subrange(
        if m.ota_buf.len() < 256 {
            m.ota_buf.len() as int
        } else {
            256
        },
        m.ota_buf.len() as int,
    ));
}

/// Failed flash work is reported as what it was, and takes the session and the gathered bytes with
/// it but nothing else.
pub proof fn law_failure_is_reported(m: LinkModel)
    requires
        !(m.work is Idle),
    ensures
        ({
            let (t, action) = m.reported(false);
            &&& action == Action::Failed(
                if m.work is Erasing {
                    FlashError::Erase
                } else {
                    FlashError::Write
                },
            )
            &&& t.work is Idle
            &&& t.ota_buf.len() == 0
            &&& t.ota == m.ota.aborted()
            &&& t.flash_erased == m.flash_erased
            &&& t.script == m.script
            &&& t.script_ready == m.script_ready
            &&& t.response_len == m.response_len
        }),
{
}

/// A read gives all there is to read, or as much as there is room for.
pub proof fn law_read_is_cut_to_room(m: LinkModel, room: int)
    requires
        m.wf(),
        0 <= room,
    ensures
        m.read_len(room) <= room,
        m.read_len(room) <= if m.response_len == 0 {
            9
        } else {
            m.response_len
        },
        m.read_len(room) == room || m.read_len(room) == if m.response_len == 0 {
            9
        } else {
            m.response_len
        },
{
}

/// Clearing the script makes room for the next one and touches nothing else.
pub proof fn law_cleared_script_is_gone(m: LinkModel)
    ensures
        m.script_cleared().script.len() == 0,
        !m.script_cleared().script_ready,
        m.script_cleared().ota == m.ota,
        m.script_cleared().ota_buf == m.ota_buf,
        m.script_cleared().response_len == m.response_len,
        m.script_cleared().flash_erased == m.flash_erased,
        m.script_cleared().work == m.work,
{
}

/// A read puts its bytes at the front of the buffer: those of the answer, or of the device's name,
/// and leaves what is behind them.
pub proof fn law_read_fills_the_front(m: LinkModel, out: Seq<u8>, k: int)
    requires
        m.wf(),
        0 <= k < out.len(),
    ensures
        ({
            let t = m.read_into(out);
            &&& t.len() == out.len()
            &&& m.response_len > 0 ==> t[k] == if k < m.response_len {
                m.ota.response[k]
            } else {
                out[k]
            }
            &&& m.response_len == 0 ==> t[k] == if k < 9 {
                seq![0x55u8, 0x41u8, 0x56u8, 0x4Cu8, 0x45u8, 0x44u8, 0x20u8, 0x4Au8, 0x53u8][k]
            } else {
                out[k]
            }
        }),
{
    law_read_gives_answer_or_name(m);
}

} // verus!
