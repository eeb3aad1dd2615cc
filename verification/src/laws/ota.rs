//! Laws of an update session.
use crate::link;
use crate::ota;
use crate::ota::{
    EraseJob, OtaModel, OtaState, CMD_OTA_COMMIT, CMD_OTA_DATA, HEADER_LEN, OTA_PARTITION_OFFSET,
    OTA_PARTITION_SIZE, SECTOR_SIZE,
};
use vstd::prelude::*;

verus! {

/// Every write keeps a well-formed session well-formed, and the count of received bytes far from
/// the largest `u32`.
pub proof fn law_writes_keep_sessions_well_formed(s: OtaModel, d: Seq<u8>)
    requires
        s.wf(),
    ensures
        s.handled(d).wf(),
        s.moved(d).received <= 255 * 0x1_0000,
{
    let r = s.reply_to(d);
    assert(r.len() == 2 || r.len() == 5);
}

/// Opening a session that fits the partition, and giving one up, keep it well-formed.
pub proof fn law_begin_and_abort_keep_sessions_well_formed(s: OtaModel, total: nat)
    requires
        s.wf(),
    ensures
        total <= OTA_PARTITION_SIZE ==> s.begun(total).wf(),
        s.aborted().wf(),
{
}

/// A write that is refused for its form, its checksum, its size or its moment leaves the session
/// as it was.
pub proof fn law_refused_write_leaves_session(s: OtaModel, d: Seq<u8>)
    requires
        s.outcome(d) is Empty || s.outcome(d) is Unknown || s.outcome(d) is BadChecksum
            || s.outcome(d) is TooLarge || s.outcome(d) is NoSession || s.outcome(d) is Incomplete,
    ensures
        s.moved(d) == s,
{
}

/// A number survives being spelled in four little-endian bytes.
#[verifier::spinoff_prover]
pub proof fn law_le32_round_trip(n: nat)
    requires
        n <= u32::MAX,
    ensures
        ota::le32(ota::le32_bytes(n), 0) == n,
{
    let a = n / 0x100;
    let b = a / 0x100;
    let c = b / 0x100;
    assert(n / 0x1_0000 == b);
    assert(n / 0x100_0000 == c);
    assert(c < 0x100);
    assert(n == n % 0x100 + 0x100 * (a % 0x100 + 0x100 * (b % 0x100 + 0x100 * c)));
}

/// A progress query changes nothing.
pub proof fn law_status_changes_nothing(s: OtaModel, d: Seq<u8>)
    requires
        s.outcome(d) is Status,
    ensures
        s.moved(d) == s,
{
}

/// A packet that does not follow on leaves a running session as it was, unless it starts over.
pub proof fn law_gap_leaves_session(s: OtaModel, d: Seq<u8>)
    requires
        s.in_progress,
        s.outcome(d) is OutOfSequence || s.outcome(d) is WrongOffset,
        ota::packet_seq(d) != 0,
    ensures
        s.moved(d) == s,
{
}

/// A progress query, and a packet that does not follow on, are answered with the count of
/// received bytes, from which the sender can go on.
pub proof fn law_position_is_told(s: OtaModel, d: Seq<u8>)
    requires
        s.wf(),
        s.outcome(d) is Status || s.outcome(d) is OutOfSequence || s.outcome(d) is WrongOffset,
    ensures
        s.reply_to(d).len() == 5,
        ota::le32(s.reply_to(d), 1) == s.moved(d).received,
{
    law_le32_round_trip(s.moved(d).received);
    law_writes_keep_sessions_well_formed(s, d);
}

/// A running session takes any sound packet that has the next sequence number and starts where
/// the received bytes end.
pub proof fn law_resume(s: OtaModel, d: Seq<u8>)
    requires
        s.in_progress,
        ota::is_data_packet(d),
        ota::xor_all(ota::packet_payload(d)) == ota::packet_checksum(d),
        ota::packet_seq(d) == s.last_seq + 1,
        ota::packet_offset(d) == s.received,
    ensures
        s.outcome(d) is Accepted,
        s.moved(d) == (OtaModel {
            received: s.received + ota::packet_payload(d).len(),
            last_seq: s.last_seq + 1,
            ..s
        }),
{
    assert(ota::packet_seq(d) < 0x1_0000);
}

/// Sequence number 0 starts over: a sound packet that carries it and offset 0 is taken whatever
/// was received before.
pub proof fn law_restart(s: OtaModel, d: Seq<u8>)
    requires
        s.in_progress || ota::packet_total(d) <= OTA_PARTITION_SIZE,
        ota::is_data_packet(d),
        ota::xor_all(ota::packet_payload(d)) == ota::packet_checksum(d),
        ota::packet_seq(d) == 0,
        ota::packet_offset(d) == 0,
    ensures
        s.outcome(d) is Accepted,
        s.moved(d).in_progress,
        s.moved(d).received == ota::packet_payload(d).len(),
        s.moved(d).last_seq == 0,
{
}

/// A packet that arrives twice counts once.
pub proof fn law_repeated_packet_counts_once(s: OtaModel, d: Seq<u8>)
    requires
        s.outcome(d) is Accepted,
    ensures
        s.moved(d).moved(d) == s.moved(d),
{
    assert(ota::packet_seq(d) < 0x1_0000);
}

/// A commit succeeds exactly when a session runs and every byte of it has arrived; it ends the
/// session, so that a second one is refused.
pub proof fn law_commit_needs_every_byte(s: OtaModel, d: Seq<u8>)
    requires
        d.len() > 0,
        d[0] == CMD_OTA_COMMIT,
    ensures
        ota::succeeds(s.outcome(d)) <==> s.in_progress && s.received == s.total_size,
        ota::succeeds(s.outcome(d)) ==> s.moved(d).outcome(d) is NoSession,
        s.wf() && ota::succeeds(s.outcome(d)) ==> s.received <= OTA_PARTITION_SIZE,
{
}

/// Replacing one byte swaps it in the exclusive or.
proof fn lemma_xor_all_update(s: Seq<u8>, k: int, b: u8)
    requires
        0 <= k < s.len(),
    ensures
        ota::xor_all(s.update(k, b)) == ota::xor_all(s) ^ s[k] ^ b,
    decreases s.len(),
{
    let x = ota::xor_all(s.drop_last());
    let y = s.last();
    if k == s.len() - 1 {
        assert(s.update(k, b).drop_last() =~= s.drop_last());
        assert(x ^ b == (x ^ y) ^ y ^ b) by (bit_vector);
    } else {
        lemma_xor_all_update(s.drop_last(), k, b);
        assert(s.update(k, b).drop_last() =~= s.drop_last().update(k, b));
        let c = s[k];
        assert((x ^ c ^ b) ^ y == (x ^ y) ^ c ^ b) by (bit_vector);
    }
}

/// A packet that arrives with one byte of payload or checksum changed is refused.
pub proof fn law_corrupted_byte_is_noticed(s: OtaModel, d: Seq<u8>, k: int, b: u8)
    requires
        ota::is_data_packet(d),
        ota::xor_all(ota::packet_payload(d)) == ota::packet_checksum(d),
        HEADER_LEN + ota::packet_len(d) <= d.len(),
        HEADER_LEN <= k <= HEADER_LEN + ota::packet_len(d),
        k < d.len(),
        b != d[k],
    ensures
        s.outcome(d.update(k, b)) is BadChecksum,
{
    let e = d.update(k, b);
    let p = ota::packet_payload(d);
    if k < HEADER_LEN + ota::packet_len(d) {
        let j = k - HEADER_LEN;
        assert(ota::packet_payload(e) =~= p.update(j, b));
        lemma_xor_all_update(p, j, b);
        let x = ota::xor_all(p);
        let c = d[k];
        assert(x ^ c ^ b == x ==> b == c) by (bit_vector);
    } else {
        assert(ota::packet_payload(e) =~= p);
    }
}

/// The two little-endian bytes of `n`.
pub open spec fn le16_bytes(n: nat) -> Seq<u8> {
    seq![(n % 0x100) as u8, (n / 0x100 % 0x100) as u8]
}

/// A data packet as a sender builds it.
#[verifier::opaque]
pub open spec fn data_packet(seq: nat, total: nat, offset: nat, payload: Seq<u8>) -> Seq<u8> {
    seq![CMD_OTA_DATA] + le16_bytes(seq) + ota::le32_bytes(total) + ota::le32_bytes(offset)
        + seq![payload.len() as u8] + payload + seq![ota::xor_all(payload)]
}

/// A packet is read as it was built.
pub proof fn law_packet_round_trip(seq: nat, total: nat, offset: nat, payload: Seq<u8>)
    requires
        seq <= 0xFFFF,
        total <= u32::MAX,
        offset <= u32::MAX,
        payload.len() <= 0xFF,
    ensures
        ({
            let d = data_packet(seq, total, offset, payload);
            &&& ota::is_data_packet(d)
            &&& ota::packet_seq(d) == seq
            &&& ota::packet_total(d) == total
            &&& ota::packet_offset(d) == offset
            &&& ota::packet_len(d) == payload.len()
            &&& ota::packet_payload(d) == payload
            &&& ota::packet_checksum(d) == ota::xor_all(payload)
            &&& d.len() == HEADER_LEN + payload.len() + 1
        }),
{
    reveal(data_packet);
    let d = data_packet(seq, total, offset, payload);
    law_le32_round_trip(total);
    law_le32_round_trip(offset);
    assert(d.subrange(3, 7) =~= ota::le32_bytes(total));
    assert(d.subrange(7, 11) =~= ota::le32_bytes(offset));
    assert(d[11] == payload.len());
    assert(ota::packet_payload(d) =~= payload);
}

/// The bytes that a list of chunks carries.
pub open spec fn stream(chunks: Seq<Seq<u8>>) -> Seq<u8>
    decreases chunks.len(),
{
    if chunks.len() == 0 {
        Seq::empty()
    } else {
        stream(chunks.drop_last()) + chunks.last()
    }
}

/// The packet that carries the last of `chunks` when the others went before it.
pub open spec fn last_packet(total: nat, chunks: Seq<Seq<u8>>) -> Seq<u8> {
    data_packet(
        (chunks.len() - 1) as nat,
        total,
        stream(chunks.drop_last()).len(),
        chunks.last(),
    )
}

/// What a sender may send: as many chunks as there are sequence numbers, each of at most 255
/// bytes, for a firmware that fits the partition and is the one that a running session expects.
pub open spec fn sendable(s: OtaModel, total: nat, chunks: Seq<Seq<u8>>) -> bool {
    &&& total <= OTA_PARTITION_SIZE
    &&& s.in_progress ==> s.total_size == total
    &&& chunks.len() <= 0x1_0000
    &&& forall|i: int| 0 <= i < chunks.len() ==> (#[trigger] chunks[i]).len() <= 0xFF
}

/// Chunks hold at most 255 bytes each.
pub proof fn lemma_stream_len(chunks: Seq<Seq<u8>>)
    requires
        forall|i: int| 0 <= i < chunks.len() ==> (#[trigger] chunks[i]).len() <= 0xFF,
    ensures
        stream(chunks).len() <= 0xFF * chunks.len(),
    decreases chunks.len(),
{
    if chunks.len() > 0 {
        let rest = chunks.drop_last();
        assert forall|i: int| 0 <= i < rest.len() implies (#[trigger] rest[i]).len() <= 0xFF by {
            assert(rest[i] == chunks[i]);
        }
        lemma_stream_len(rest);
    }
}

/// A write that is no part of a transfer: a progress query, a refused packet or request, or no
/// update request at all, and nothing that sets the session to its start.
pub open spec fn is_aside(s: OtaModel, d: Seq<u8>) -> bool {
    &&& !(s.outcome(d) is Accepted)
    &&& !(s.outcome(d) is Committed)
    &&& !s.restarts(d)
}

/// A write that is no part of a transfer leaves the session as it was.
pub proof fn law_asides_leave_session(s: OtaModel, d: Seq<u8>)
    requires
        is_aside(s, d),
    ensures
        s.moved(d) == s,
{
}

/// A session that has taken `chunks` of a firmware of `total` bytes, or one at any point that can
/// take the first.
pub open spec fn has_taken(s: OtaModel, total: nat, chunks: Seq<Seq<u8>>) -> bool {
    if chunks.len() == 0 {
        s.in_progress ==> s.total_size == total
    } else {
        &&& s.in_progress
        &&& s.total_size == total
        &&& s.received == stream(chunks).len()
        &&& s.last_seq == chunks.len() - 1
    }
}

/// A session that has taken all chunks but the last takes that one too. The first chunk sets the
/// session to its start, and no other does.
pub proof fn law_next_chunk_is_taken(s: OtaModel, total: nat, chunks: Seq<Seq<u8>>)
    requires
        has_taken(s, total, chunks.drop_last()),
        sendable(s, total, chunks),
        chunks.len() > 0,
    ensures
        ({
            let d = last_packet(total, chunks);
            &&& s.outcome(d) is Accepted
            &&& s.restarts(d) <==> chunks.len() == 1
            &&& ota::packet_payload(d) == chunks.last()
            &&& !ota::is_cut_short(d)
            &&& has_taken(s.handled(d), total, chunks)
            &&& d.len() > 0
            &&& d[0] == CMD_OTA_DATA
        }),
{
    let rest = chunks.drop_last();
    assert forall|i: int| 0 <= i < rest.len() implies (#[trigger] rest[i]).len() <= 0xFF by {
        assert(rest[i] == chunks[i]);
    }
    lemma_stream_len(rest);
    law_packet_round_trip(rest.len(), total, stream(rest).len(), chunks.last());
    let d = last_packet(total, chunks);
    assert(ota::packet_offset(d) == stream(rest).len());
    if rest.len() > 0 {
        law_resume(s, d);
    } else {
        law_restart(s, d);
    }
}

/// The session after a list of writes.
pub open spec fn transferred(s: OtaModel, writes: Seq<Seq<u8>>) -> OtaModel
    decreases writes.len(),
{
    if writes.len() == 0 {
        s
    } else {
        transferred(s, writes.drop_last()).handled(writes.last())
    }
}

/// A list of writes that sends `chunks` of a firmware of `total` bytes in order, with any number
/// of writes in between that are no part of the transfer.
pub open spec fn carries(
    s: OtaModel,
    total: nat,
    writes: Seq<Seq<u8>>,
    chunks: Seq<Seq<u8>>,
) -> bool
    decreases writes.len(),
{
    if writes.len() == 0 {
        chunks.len() == 0
    } else {
        ||| {
            &&& chunks.len() > 0
            &&& writes.last() == last_packet(total, chunks)
            &&& carries(s, total, writes.drop_last(), chunks.drop_last())
        }
        ||| {
            &&& is_aside(transferred(s, writes.drop_last()), writes.last())
            &&& carries(s, total, writes.drop_last(), chunks)
        }
    }
}

/// What can be sent can be sent up to any chunk and from any point.
pub proof fn lemma_sendable_part(s: OtaModel, t: OtaModel, total: nat, chunks: Seq<Seq<u8>>)
    requires
        sendable(s, total, chunks),
        t.in_progress ==> t.total_size == total,
    ensures
        sendable(t, total, chunks),
        chunks.len() > 0 ==> sendable(t, total, chunks.drop_last()),
{
    if chunks.len() > 0 {
        let rest = chunks.drop_last();
        assert forall|i: int| 0 <= i < rest.len() implies (#[trigger] rest[i]).len() <= 0xFF by {
            assert(rest[i] == chunks[i]);
        }
    }
}

/// A transfer in order arrives: after any number of chunks, and whatever was asked or refused in
/// between, the session has received exactly what they carry.
pub proof fn law_transfer_arrives(
    s: OtaModel,
    total: nat,
    writes: Seq<Seq<u8>>,
    chunks: Seq<Seq<u8>>,
)
    requires
        sendable(s, total, chunks),
        carries(s, total, writes, chunks),
    ensures
        has_taken(transferred(s, writes), total, chunks),
    decreases writes.len(),
{
    if writes.len() > 0 {
        let before = writes.drop_last();
        let d = writes.last();
        let t = transferred(s, before);
        lemma_sendable_part(s, s, total, chunks);
        if chunks.len() > 0 && d == last_packet(total, chunks) && carries(
            s,
            total,
            before,
            chunks.drop_last(),
        ) {
            law_transfer_arrives(s, total, before, chunks.drop_last());
            lemma_sendable_part(s, t, total, chunks);
            law_next_chunk_is_taken(t, total, chunks);
        } else {
            law_transfer_arrives(s, total, before, chunks);
            law_asides_leave_session(t, d);
        }
    }
}

/// A transfer that has sent every byte can be committed.
pub proof fn law_complete_transfer_commits(
    s: OtaModel,
    total: nat,
    writes: Seq<Seq<u8>>,
    chunks: Seq<Seq<u8>>,
    commit: Seq<u8>,
)
    requires
        sendable(s, total, chunks),
        carries(s, total, writes, chunks),
        chunks.len() > 0,
        stream(chunks).len() == total,
        commit.len() > 0,
        commit[0] == CMD_OTA_COMMIT,
    ensures
        transferred(s, writes).outcome(commit) is Committed,
{
    law_transfer_arrives(s, total, writes, chunks);
}

/// Erasure goes through adjoining whole sectors from where it starts, and covers the bytes it was
/// asked for with less than a sector to spare.
pub proof fn law_erasure_covers_range(offset: u32, size: u32, i: int)
    ensures
        ({
            let job = EraseJob { offset, sectors: ota::sector_count(size as int) as u32, done: 0 };
            &&& job.address(0) == OTA_PARTITION_OFFSET + offset
            &&& job.address(i + 1) == job.address(i) + SECTOR_SIZE
            &&& OTA_PARTITION_OFFSET + offset + size <= job.address(
                ota::sector_count(size as int),
            ) < OTA_PARTITION_OFFSET + offset + size + SECTOR_SIZE
        }),
{
}

/// Erasing the whole partition erases it and nothing else.
pub proof fn law_partition_is_erased_exactly(done: u32)
    ensures
        link::partition_erasure(done).address(0) == OTA_PARTITION_OFFSET,
        link::partition_erasure(done).address(link::partition_erasure(done).sectors as int)
            == OTA_PARTITION_OFFSET + OTA_PARTITION_SIZE,
{
}

/// A session is what the fields of its state hold.
pub proof fn law_session_is_its_fields(s: OtaState)
    ensures
        s@.total_size == s.total_size,
        s@.received == s.received,
        s@.last_seq == s.last_seq,
        s@.in_progress == s.in_progress,
        s@.flash_offset == s.flash_offset,
        s@.response == s.response@,
{
}

/// The checksum of nothing is 0, that of one byte is the byte, and that of two pieces put together
/// is the exclusive or of theirs.
pub proof fn law_checksum_joins(a: Seq<u8>, b: Seq<u8>, c: u8)
    ensures
        ota::xor_all(Seq::<u8>::empty()) == 0,
        ota::xor_all(seq![c]) == c,
        ota::xor_all(a + b) == ota::xor_all(a) ^ ota::xor_all(b),
    decreases b.len(),
{
    let one = seq![c];
    assert(one.drop_last() =~= Seq::<u8>::empty());
    assert(ota::xor_all(one) == 0u8 ^ c) by {
        reveal_with_fuel(ota::xor_all, 2);
    }
    assert(0u8 ^ c == c) by (bit_vector);
    let x = ota::xor_all(a);
    if b.len() == 0 {
        assert(a + b =~= a);
        assert(x ^ 0u8 == x) by (bit_vector);
    } else {
        law_checksum_joins(a, b.drop_last(), c);
        assert((a + b).drop_last() =~= a + b.drop_last());
        let y = ota::xor_all(b.drop_last());
        let z = b.last();
        assert((x ^ y) ^ z == x ^ (y ^ z)) by (bit_vector);
    }
}

/// Two sessions that differ at most in their answers.
pub open spec fn same_session(s: OtaModel, t: OtaModel) -> bool {
    &&& s.total_size == t.total_size
    &&& s.received == t.received
    &&& s.last_seq == t.last_seq
    &&& s.in_progress == t.in_progress
    &&& s.flash_offset == t.flash_offset
}

/// An answer that gives a position: 3 and then `n`, the lowest byte first.
pub open spec fn tells(r: Seq<u8>, n: nat) -> bool {
    &&& r.len() == 5
    &&& r[0] == 3
    &&& r[1] + 0x100 * r[2] + 0x1_0000 * r[3] + 0x100_0000 * r[4] == n
}

/// The answer stands at the front of the response buffer, and nothing behind it changes.
pub proof fn law_answer_stands_in_front(s: OtaModel, d: Seq<u8>)
    requires
        s.response.len() == 8,
    ensures
        ({
            let r = s.reply_to(d);
            let t = s.handled(d).response;
            &&& r.len() == 2 || r.len() == 5
            &&& t.len() == 8
            &&& forall|k: int| 0 <= k < r.len() ==> #[trigger] t[k] == r[k]
            &&& forall|k: int| r.len() <= k < 8 ==> #[trigger] t[k] == s.response[k]
        }),
{
}

/// A data packet whose checksum byte is not the exclusive or of its payload is answered with
/// `03 01` and changes nothing.
pub proof fn law_unsound_packet_is_refused(s: OtaModel, d: Seq<u8>)
    requires
        d.len() >= 12,
        d[0] == 2,
        ota::xor_all(
            if 12 + d[11] <= d.len() {
                d.subrange(12, 12 + d[11])
            } else {
                Seq::empty()
            },
        ) != if 12 + d[11] < d.len() {
            d[12 + d[11]]
        } else {
            0
        },
    ensures
        !ota::succeeds(s.outcome(d)),
        s.reply_to(d) == seq![3u8, 1u8],
        same_session(s.handled(d), s),
{
}

/// A data packet whose checksum byte is the exclusive or of its payload. A payload that is cut
/// short counts as empty, and a checksum that is missing as 0.
pub open spec fn is_sound(d: Seq<u8>) -> bool {
    let end = 12 + d[11];
    &&& d.len() >= 12
    &&& d[0] == 2
    &&& ota::xor_all(
        if end <= d.len() {
            d.subrange(12, end)
        } else {
            Seq::empty()
        },
    ) == if end < d.len() {
        d[end]
    } else {
        0
    }
}

/// A running session takes a sound packet other than the first if and only if its sequence number
/// is the last one plus 1 and its offset is the number of bytes received. It then counts the bytes
/// that the packet announces, or none when they are not all there. Any other is answered with the
/// position and changes nothing.
pub proof fn law_packets_are_taken_in_order(s: OtaModel, d: Seq<u8>)
    requires
        s.in_progress,
        s.received <= u32::MAX,
        is_sound(d),
        d[1] + 0x100 * d[2] != 0,
    ensures
        ({
            let seq = d[1] + 0x100 * d[2];
            let offset = d[7] + 0x100 * d[8] + 0x1_0000 * d[9] + 0x100_0000 * d[10];
            let count = if 12 + d[11] <= d.len() {
                d[11] as int
            } else {
                0
            };
            let t = s.handled(d);
            &&& ota::succeeds(s.outcome(d)) <==> seq == (s.last_seq + 1) % 0x1_0000 && offset
                == s.received
            &&& ota::succeeds(s.outcome(d)) ==> {
                &&& s.reply_to(d) == seq![3u8, 0xFFu8]
                &&& t.received == s.received + count
                &&& t.last_seq == seq
                &&& t.total_size == s.total_size
                &&& t.in_progress
                &&& t.flash_offset == s.flash_offset
            }
            &&& !ota::succeeds(s.outcome(d)) ==> tells(s.reply_to(d), s.received) && same_session(
                t,
                s,
            )
        }),
{
    law_le32_round_trip(s.received);
}

/// A sound packet with sequence number 0 sets a session to its start, the running one or, where
/// none runs, a new one of the size that the packet names. It is taken if and only if its offset
/// is 0, and else answered with position 0.
pub proof fn law_first_packet_starts(s: OtaModel, d: Seq<u8>)
    requires
        is_sound(d),
        d[1] + 0x100 * d[2] == 0,
        s.in_progress || d[3] + 0x100 * d[4] + 0x1_0000 * d[5] + 0x100_0000 * d[6] <= 0x18_0000,
    ensures
        ({
            let total = d[3] + 0x100 * d[4] + 0x1_0000 * d[5] + 0x100_0000 * d[6];
            let offset = d[7] + 0x100 * d[8] + 0x1_0000 * d[9] + 0x100_0000 * d[10];
            let count = if 12 + d[11] <= d.len() {
                d[11] as int
            } else {
                0
            };
            let t = s.handled(d);
            &&& ota::succeeds(s.outcome(d)) <==> offset == 0
            &&& t.in_progress
            &&& t.total_size == if s.in_progress {
                s.total_size as int
            } else {
                total
            }
            &&& t.flash_offset == if s.in_progress {
                s.flash_offset
            } else {
                0
            }
            &&& offset == 0 ==> s.reply_to(d) == seq![3u8, 0xFFu8] && t.received == count
                && t.last_seq == 0
            &&& offset != 0 ==> tells(s.reply_to(d), 0) && t.received == 0 && t.last_seq == 0xFFFF
        }),
{
    law_le32_round_trip(0);
}

/// Where no session runs, a sound packet for more than the partition holds is answered with
/// `03 02` and changes nothing; one that fits but is not the first opens an empty session of the
/// size that it names and is answered with position 0.
pub proof fn law_session_opens_at_its_start(s: OtaModel, d: Seq<u8>)
    requires
        !s.in_progress,
        is_sound(d),
    ensures
        ({
            let seq = d[1] + 0x100 * d[2];
            let total = d[3] + 0x100 * d[4] + 0x1_0000 * d[5] + 0x100_0000 * d[6];
            let t = s.handled(d);
            &&& total > 0x18_0000 ==> !ota::succeeds(s.outcome(d)) && s.reply_to(d)
                == seq![3u8, 2u8] && same_session(t, s)
            &&& total <= 0x18_0000 && seq != 0 ==> {
                &&& !ota::succeeds(s.outcome(d))
                &&& tells(s.reply_to(d), 0)
                &&& t.in_progress
                &&& t.total_size == total
                &&& t.received == 0
                &&& t.last_seq == 0xFFFF
                &&& t.flash_offset == 0
            }
        }),
{
    law_le32_round_trip(0);
}

/// What is no data packet: a progress query is answered with the position; a commit succeeds with
/// `03 FE` and ends the session if one runs and every byte is there, and is answered with `03 03`
/// or `03 04` otherwise; anything else is answered with `03 00`. Only a commit that succeeds
/// changes the session, and only that it runs.
pub proof fn law_requests_are_answered(s: OtaModel, d: Seq<u8>)
    requires
        s.received <= u32::MAX,
        !(d.len() >= 12 && d[0] == 2),
    ensures
        ({
            let ok = ota::succeeds(s.outcome(d));
            let r = s.reply_to(d);
            let t = s.handled(d);
            if d.len() > 0 && d[0] == 3 {
                ok && tells(r, s.received) && same_session(t, s)
            } else if d.len() > 0 && d[0] == 4 && s.in_progress && s.received == s.total_size {
                &&& ok
                &&& r == seq![3u8, 0xFEu8]
                &&& !t.in_progress
                &&& t.total_size == s.total_size
                &&& t.received == s.received
                &&& t.last_seq == s.last_seq
                &&& t.flash_offset == s.flash_offset
            } else if d.len() > 0 && d[0] == 4 {
                !ok && r == seq![3u8, if s.in_progress { 4u8 } else { 3u8 }] && same_session(t, s)
            } else {
                !ok && r == seq![3u8, 0u8] && same_session(t, s)
            }
        }),
{
    law_le32_round_trip(s.received);
}

/// A fresh state has no session and nothing received; a session that is opened runs, is empty and
/// waits for the first packet; one that is given up does not run and has neither size nor bytes.
pub proof fn law_sessions_open_and_close(s: OtaModel, total: nat)
    ensures
        !OtaModel::fresh().in_progress,
        OtaModel::fresh().total_size == 0,
        OtaModel::fresh().received == 0,
        OtaModel::fresh().last_seq == 0xFFFF,
        OtaModel::fresh().flash_offset == 0,
        OtaModel::fresh().response.len() == 8,
        forall|k: int| 0 <= k < 8 ==> #[trigger] OtaModel::fresh().response[k] == 0,
        s.begun(total).in_progress,
        s.begun(total).total_size == total,
        s.begun(total).received == 0,
        s.begun(total).last_seq == 0xFFFF,
        s.begun(total).flash_offset == 0,
        s.begun(total).response == s.response,
        !s.aborted().in_progress,
        s.aborted().total_size == 0,
        s.aborted().received == 0,
        s.aborted().last_seq == s.last_seq,
        s.aborted().flash_offset == s.flash_offset,
        s.aborted().response == s.response,
{
}

/// Progress is reported when the bytes added reach or pass a multiple of 10240.
pub proof fn law_progress_is_reported_at_multiples(received: int, added: int)
    requires
        0 <= received,
    ensures
        ota::report_due(received, added) <==> exists|k: int|
            received - added < #[trigger] (10240 * k) <= received,
{
    let k = received / 10240;
    assert(10240 * k <= received);
    if ota::report_due(received, added) {
        assert(received - added < 10240 * k <= received);
    } else {
        assert forall|j: int| !(received - added < #[trigger] (10240 * j) <= received) by {
            assert(j <= k || 10240 * j > received);
        }
    }
}

/// Erasure is reported with sectors 1, 9, 17 and so on.
pub proof fn law_erasure_is_reported_every_eighth(done: int)
    requires
        0 <= done,
    ensures
        ota::erase_report_due(done) <==> done % 8 == 1,
{
}

/// The partition starts at 0x190000 and holds 0x180000 bytes, and no more.
pub proof fn law_partition_has_its_place(total: int, offset: int)
    ensures
        OtaModel::fits(total) <==> total <= 0x18_0000,
        ota::flash_address(offset) == 0x19_0000 + offset,
{
}

/// What is read of the response buffer is its front, byte for byte, and never more than it holds.
pub proof fn law_answer_is_the_front(s: OtaModel, len: int)
    requires
        s.response.len() == 8,
        0 <= len,
    ensures
        s.answer(len).len() == if len < 8 {
            len
        } else {
            8
        },
        forall|k: int| 0 <= k < s.answer(len).len() ==> #[trigger] s.answer(len)[k] == s.response[k],
{
}

/// An erasure that is planned has erased nothing; as long as sectors are left, the next one is
/// that behind the last one erased, 4096 bytes long, and an erased one counts.
pub proof fn law_erasure_goes_sector_by_sector(job: EraseJob, offset: u32, size: u32)
    requires
        job.done <= job.sectors,
    ensures
        EraseJob::planned(offset as int, size as int).offset == offset,
        EraseJob::planned(offset as int, size as int).done == 0,
        size <= 4096 * EraseJob::planned(offset as int, size as int).sectors < size + 4096,
        job.next_range() is None <==> job.done == job.sectors,
        job.done < job.sectors ==> {
            let (from, to) = job.next_range()->0;
            let next = job.one_more();
            &&& from == 0x19_0000 + job.offset + 4096 * job.done
            &&& to == from + 4096
            &&& next.done == job.done + 1
            &&& next.sectors == job.sectors
            &&& next.offset == job.offset
        },
{
}

} // verus!
