use uavled::ota::{
    erase_ota_partition, write_firmware, xor_bytes, FlashError, OtaState, CMD_OTA_COMMIT, CMD_OTA_DATA,
    CMD_OTA_STATUS, CMD_SCRIPT, OTA_PARTITION_OFFSET, OTA_PARTITION_SIZE, SECTOR_SIZE,
};

fn packet(seq: u16, total: u32, offset: u32, payload: &[u8]) -> Vec<u8> {
    let mut d = vec![CMD_OTA_DATA];
    d.extend_from_slice(&seq.to_le_bytes());
    d.extend_from_slice(&total.to_le_bytes());
    d.extend_from_slice(&offset.to_le_bytes());
    d.push(payload.len() as u8);
    d.extend_from_slice(payload);
    d.push(payload.iter().fold(0, |a, b| a ^ b));
    d
}

fn send(s: &mut OtaState, d: &[u8]) -> (bool, Vec<u8>) {
    let (ok, len) = s.handle_packet(d);
    (ok, s.get_response(len).to_vec())
}

#[test]
fn constants_of_the_protocol() {
    assert_eq!(OTA_PARTITION_OFFSET, 0x190000);
    assert_eq!(OTA_PARTITION_SIZE, 0x180000);
    assert_eq!([CMD_SCRIPT, CMD_OTA_DATA, CMD_OTA_STATUS, CMD_OTA_COMMIT], [1, 2, 3, 4]);
}

#[test]
fn new_state_has_no_session() {
    let s = OtaState::new();
    assert_eq!(s.total_size, 0);
    assert_eq!(s.received, 0);
    assert_eq!(s.last_seq, 0xFFFF);
    assert!(!s.in_progress);
    assert_eq!(s.flash_offset, 0);
    assert_eq!(s.response, [0; 8]);
}

#[test]
fn begin_accepts_up_to_the_partition_size() {
    let mut s = OtaState::new();
    assert_eq!(s.begin(OTA_PARTITION_SIZE), Ok(()));
    assert!(s.in_progress);
    assert_eq!(s.total_size, OTA_PARTITION_SIZE);
    s.abort();
    assert_eq!(s.begin(OTA_PARTITION_SIZE + 1), Err("firmware too large"));
    assert!(!s.in_progress);
}

#[test]
fn empty_write_is_refused() {
    let mut s = OtaState::new();
    assert_eq!(send(&mut s, &[]), (false, vec![0x03, 0x00]));
}

#[test]
fn unknown_command_is_refused() {
    let mut s = OtaState::new();
    assert_eq!(send(&mut s, &[0x07, 1, 2]), (false, vec![0x03, 0x00]));
    assert_eq!(send(&mut s, &[CMD_SCRIPT]), (false, vec![0x03, 0x00]));
    assert_eq!(send(&mut s, &[CMD_OTA_DATA, 0, 0]), (false, vec![0x03, 0x00]));
}

#[test]
fn first_packet_opens_a_session() {
    let mut s = OtaState::new();
    assert_eq!(send(&mut s, &packet(0, 0x1234, 0, &[1, 2, 4])), (true, vec![0x03, 0xFF]));
    assert!(s.in_progress);
    assert_eq!(s.total_size, 0x1234);
    assert_eq!(s.received, 3);
    assert_eq!(s.last_seq, 0);
}

#[test]
fn wrong_checksum_is_refused_and_changes_nothing() {
    let mut s = OtaState::new();
    let mut d = packet(0, 8, 0, &[1, 2, 3, 4]);
    d[13] ^= 0x10;
    assert_eq!(send(&mut s, &d), (false, vec![0x03, 0x01]));
    assert!(!s.in_progress);
    d[13] ^= 0x10;
    let last = d.len() - 1;
    d[last] ^= 1;
    assert_eq!(send(&mut s, &d), (false, vec![0x03, 0x01]));
    assert_eq!(s.received, 0);
}

#[test]
fn oversized_firmware_is_refused() {
    let mut s = OtaState::new();
    assert_eq!(
        send(&mut s, &packet(0, OTA_PARTITION_SIZE + 1, 0, &[1])),
        (false, vec![0x03, 0x02])
    );
    assert!(!s.in_progress);
}

#[test]
fn lost_packet_is_answered_with_the_position() {
    let mut s = OtaState::new();
    send(&mut s, &packet(0, 1000, 0, &[9; 200]));
    send(&mut s, &packet(1, 1000, 200, &[9; 200]));
    let before = s;
    assert_eq!(send(&mut s, &packet(3, 1000, 600, &[9; 10])), (false, vec![3, 0x90, 0x01, 0, 0]));
    assert_eq!(s.received, before.received);
    assert_eq!(s.last_seq, before.last_seq);
    assert_eq!(send(&mut s, &packet(2, 1000, 400, &[9; 10])), (true, vec![3, 0xFF]));
    assert_eq!(s.received, 410);
}

#[test]
fn wrong_offset_is_answered_with_the_position() {
    let mut s = OtaState::new();
    send(&mut s, &packet(0, 100, 0, &[7; 5]));
    assert_eq!(send(&mut s, &packet(1, 100, 6, &[7; 5])), (false, vec![3, 5, 0, 0, 0]));
    assert_eq!(s.received, 5);
    assert_eq!(s.last_seq, 0);
}

#[test]
fn gap_on_the_first_packet_opens_an_empty_session() {
    let mut s = OtaState::new();
    assert_eq!(send(&mut s, &packet(5, 100, 0, &[7; 5])), (false, vec![3, 0, 0, 0, 0]));
    assert!(s.in_progress);
    assert_eq!(s.total_size, 100);
    assert_eq!(s.received, 0);
}

#[test]
fn sequence_zero_starts_over() {
    let mut s = OtaState::new();
    send(&mut s, &packet(0, 100, 0, &[7; 5]));
    send(&mut s, &packet(1, 100, 5, &[7; 5]));
    assert_eq!(send(&mut s, &packet(0, 100, 0, &[8; 3])), (true, vec![3, 0xFF]));
    assert_eq!(s.received, 3);
    assert_eq!(s.last_seq, 0);
    assert_eq!(send(&mut s, &packet(0, 100, 3, &[8; 3])), (false, vec![3, 0, 0, 0, 0]));
    assert_eq!(s.received, 0);
    assert_eq!(s.last_seq, 0xFFFF);
}

#[test]
fn repeated_packet_counts_once() {
    let mut s = OtaState::new();
    let a = packet(0, 100, 0, &[7; 5]);
    let b = packet(1, 100, 5, &[7; 5]);
    send(&mut s, &a);
    send(&mut s, &a);
    assert_eq!(s.received, 5);
    send(&mut s, &b);
    assert_eq!(send(&mut s, &b), (false, vec![3, 10, 0, 0, 0]));
    assert_eq!(s.received, 10);
}

#[test]
fn status_reports_received_bytes() {
    let mut s = OtaState::new();
    assert_eq!(send(&mut s, &[CMD_OTA_STATUS]), (true, vec![3, 0, 0, 0, 0]));
    s.received = 0x0403_0201;
    assert_eq!(send(&mut s, &[CMD_OTA_STATUS, 9, 9]), (true, vec![3, 1, 2, 3, 4]));
}

#[test]
fn commit_without_session_is_refused() {
    let mut s = OtaState::new();
    assert_eq!(send(&mut s, &[CMD_OTA_COMMIT]), (false, vec![3, 3]));
}

#[test]
fn commit_of_incomplete_firmware_is_refused() {
    let mut s = OtaState::new();
    send(&mut s, &packet(0, 6, 0, &[1; 5]));
    assert_eq!(send(&mut s, &[CMD_OTA_COMMIT]), (false, vec![3, 4]));
    assert!(s.in_progress);
}

#[test]
fn commit_of_complete_firmware_ends_the_session() {
    let mut s = OtaState::new();
    send(&mut s, &packet(0, 10, 0, &[1; 5]));
    send(&mut s, &packet(1, 10, 5, &[2; 5]));
    assert_eq!(send(&mut s, &[CMD_OTA_COMMIT]), (true, vec![3, 0xFE]));
    assert!(!s.in_progress);
    assert_eq!(send(&mut s, &[CMD_OTA_COMMIT]), (false, vec![3, 3]));
}

#[test]
fn truncated_packet_counts_as_empty() {
    let mut s = OtaState::new();
    let mut d = packet(0, 100, 0, &[7; 10]);
    d.truncate(15);
    assert_eq!(send(&mut s, &d), (true, vec![3, 0xFF]));
    assert_eq!(s.received, 0);
    assert_eq!(s.last_seq, 0);
}

#[test]
fn missing_checksum_counts_as_zero() {
    let mut s = OtaState::new();
    let mut d = packet(0, 100, 0, &[5, 5]);
    d.pop();
    assert_eq!(send(&mut s, &d), (true, vec![3, 0xFF]));
    assert_eq!(s.received, 2);
    let mut e = packet(1, 100, 2, &[5, 6]);
    e.pop();
    assert_eq!(send(&mut s, &e), (false, vec![3, 1]));
}

#[test]
fn whole_range_of_sequence_numbers_can_be_used() {
    let mut s = OtaState::new();
    for seq in 0..=0xFFFFu32 {
        let (ok, _) = s.handle_packet(&packet(seq as u16, 0x1_0000, seq, &[seq as u8]));
        assert!(ok);
    }
    assert_eq!(s.received, 0x1_0000);
    assert_eq!(s.last_seq, 0xFFFF);
    assert_eq!(send(&mut s, &[CMD_OTA_COMMIT]), (true, vec![3, 0xFE]));
}

#[test]
fn sequence_wraps_into_a_fresh_start() {
    let mut s = OtaState::new();
    s.begin(100).unwrap();
    s.last_seq = 0xFFFE;
    s.received = 50;
    assert!(s.handle_packet(&packet(0xFFFF, 100, 50, &[1])).0);
    assert_eq!(send(&mut s, &packet(0, 100, 51, &[1])), (false, vec![3, 0, 0, 0, 0]));
}

#[test]
fn answers_overwrite_the_front_of_the_buffer() {
    let mut s = OtaState::new();
    s.received = 0x0403_0201;
    send(&mut s, &[CMD_OTA_STATUS]);
    send(&mut s, &[]);
    assert_eq!(s.response, [3, 0, 2, 3, 4, 0, 0, 0]);
    assert_eq!(s.get_response(0), &[] as &[u8]);
    assert_eq!(s.get_response(5), &[3, 0, 2, 3, 4]);
    assert_eq!(s.get_response(100).len(), 8);
}

#[test]
fn abort_drops_the_session() {
    let mut s = OtaState::new();
    send(&mut s, &packet(0, 10, 0, &[1; 5]));
    s.abort();
    assert!(!s.in_progress);
    assert_eq!(s.received, 0);
    assert_eq!(s.total_size, 0);
    assert_eq!(s.last_seq, 0);
}

#[test]
fn progress_is_due_when_a_multiple_of_ten_kilobytes_is_passed() {
    let mut s = OtaState::new();
    s.received = 10240;
    assert!(s.progress_due(1));
    s.received = 10243;
    assert!(s.progress_due(8));
    assert!(!s.progress_due(3));
    s.received = 10239;
    assert!(!s.progress_due(255));
}

#[test]
fn erasure_walks_through_whole_sectors() {
    let mut job = erase_ota_partition(0x2000, 5000);
    assert_eq!(job.sectors, 2);
    assert!(!job.progress_due());
    assert_eq!(job.next(), Some((0x192000, 0x193000)));
    assert_eq!(job.erased(true), Ok(()));
    assert!(job.progress_due());
    assert_eq!(job.next(), Some((0x193000, 0x194000)));
    assert_eq!(job.erased(true), Ok(()));
    assert!(!job.progress_due());
    assert_eq!(job.next(), None);
}

#[test]
fn erasure_of_nothing_is_done_at_once() {
    assert_eq!(erase_ota_partition(0xFFFF_FFFF, 0).next(), None);
}

#[test]
fn erasure_of_the_partition_covers_it() {
    let mut job = erase_ota_partition(0, OTA_PARTITION_SIZE);
    let mut at = OTA_PARTITION_OFFSET;
    while let Some((from, to)) = job.next() {
        assert_eq!(from, at);
        assert_eq!(to, from + SECTOR_SIZE);
        at = to;
        job.erased(true).unwrap();
    }
    assert_eq!(at, OTA_PARTITION_OFFSET + OTA_PARTITION_SIZE);
    assert_eq!(job.sectors, 384);
}

#[test]
fn failed_erasure_is_reported() {
    let mut job = erase_ota_partition(0, 1);
    let e = job.erased(false).unwrap_err();
    assert_eq!(e, FlashError::Erase);
    assert_eq!(e.message(), "erase failed");
    assert_eq!(FlashError::Write.message(), "write failed");
    assert_eq!(job.done, 0);
}

#[test]
fn firmware_is_written_relative_to_the_partition() {
    let w = write_firmware(0x100, &[1, 2, 3]);
    assert_eq!(w.at, 0x190100);
    assert_eq!(w.data, &[1, 2, 3]);
}

#[test]
fn checksum_is_the_exclusive_or() {
    assert_eq!(xor_bytes(&[]), 0);
    assert_eq!(xor_bytes(&[0x12, 0xF0, 0x01]), 0xE3);
}
