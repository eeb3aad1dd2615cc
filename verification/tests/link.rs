use uavled::link::{Action, Link, Work, SCRIPT_BUF_SIZE};
use uavled::ota::{
    FlashError, CMD_OTA_COMMIT, CMD_OTA_DATA, CMD_OTA_STATUS, CMD_SCRIPT, OTA_PARTITION_OFFSET,
    OTA_PARTITION_SIZE, SECTOR_SIZE,
};

fn packet(seq: u16, total: u32, offset: u32, payload: &[u8]) -> Vec<u8> {
    let mut d = vec![CMD_OTA_DATA];
    d.extend_from_slice(&seq.to_le_bytes());
    d.extend_from_slice(&total.to_le_bytes());
    d.extend_from_slice(&offset.to_le_bytes());
    d.push(payload.len() as u8);
    d.extend_from_slice(payload);
    d.push(payload.iter().fold(0, |a, b| a ^ b));
    d
}

/// Flash memory from address 0 to the end of the update partition.
struct Flash {
    bytes: Vec<u8>,
    erased: usize,
    writes: Vec<(u32, usize)>,
}

impl Flash {
    fn new() -> Flash {
        let len = (OTA_PARTITION_OFFSET + OTA_PARTITION_SIZE + SECTOR_SIZE) as usize;
        Flash { bytes: vec![0x5A; len], erased: 0, writes: vec![] }
    }

    /// Performs all work that follows from `action`.
    fn settle(&mut self, link: &mut Link, mut action: Action) -> Action {
        loop {
            match action {
                Action::Erase { from, to } => {
                    for b in &mut self.bytes[from as usize..to as usize] {
                        *b = 0xFF;
                    }
                    self.erased += 1;
                }
                Action::Write { at, len } => {
                    for (i, b) in link.ota_buf[..len].iter().enumerate() {
                        self.bytes[at as usize + i] &= *b;
                    }
                    self.writes.push((at, len));
                }
                end => return end,
            }
            action = link.on_flash(true);
        }
    }
}

fn read(link: &Link) -> Vec<u8> {
    let mut out = [0xEE; 20];
    let n = link.on_read(&mut out);
    assert!(out[n..].iter().all(|b| *b == 0xEE));
    out[..n].to_vec()
}

#[test]
fn fresh_link_reads_the_device_name() {
    let link = Link::new();
    assert_eq!(read(&link), b"UAVLED JS");
    let mut short = [0u8; 4];
    assert_eq!(link.on_read(&mut short), 4);
    assert_eq!(&short, b"UAVL");
}

#[test]
fn empty_write_does_nothing() {
    let mut link = Link::new();
    assert_eq!(link.on_write(&[CMD_OTA_STATUS]), Action::Done);
    assert_eq!(link.on_write(&[]), Action::Done);
    assert_eq!(read(&link), [3, 0, 0, 0, 0]);
}

#[test]
fn script_pieces_are_joined() {
    let mut link = Link::new();
    for piece in [&b"function up"[..], b"date() {", b"}\0ignored"] {
        assert!(!link.script_ready);
        assert_eq!(link.on_write(piece), Action::Done);
    }
    assert!(link.script_ready);
    assert_eq!(link.script_text(), Some("function update() {}"));
    assert_eq!(read(&link), b"UAVLED JS");
    link.clear_script();
    assert!(!link.script_ready);
    assert_eq!(link.script_text(), Some(""));
}

#[test]
fn script_prefix_is_dropped() {
    let mut link = Link::new();
    link.on_write(&[CMD_SCRIPT, b'a', b'b']);
    link.on_write(&[CMD_SCRIPT]);
    link.on_write(&[0]);
    assert_eq!(link.script_text(), Some("ab"));
    assert!(link.script_ready);
}

#[test]
fn script_text_needs_utf8() {
    let mut link = Link::new();
    link.on_write("灯".as_bytes());
    assert_eq!(link.script_text(), Some("灯"));
    link.on_write(&[0xFF]);
    assert_eq!(link.script_text(), None);
}

#[test]
fn script_buffer_has_a_limit() {
    let mut link = Link::new();
    link.on_write(&vec![b'x'; SCRIPT_BUF_SIZE - 1]);
    link.on_write(b"yz");
    assert_eq!(link.script.len(), SCRIPT_BUF_SIZE);
    assert_eq!(link.script[SCRIPT_BUF_SIZE - 1], b'y');
    link.on_write(b"z\0");
    assert!(!link.script_ready);
    link.on_write(&[0]);
    assert!(link.script_ready);
    assert_eq!(link.script.len(), SCRIPT_BUF_SIZE);
}

#[test]
fn full_script_still_ends_within_the_same_write() {
    let mut link = Link::new();
    let mut d = vec![b'x'; SCRIPT_BUF_SIZE];
    d.push(0);
    link.on_write(&d);
    assert!(link.script_ready);
    assert_eq!(link.script.len(), SCRIPT_BUF_SIZE);
}

#[test]
fn answers_can_be_read_until_a_script_comes() {
    let mut link = Link::new();
    link.on_write(&packet(0, 100, 0, &[1, 2, 3]));
    assert_eq!(read(&link), [3, 0xFF]);
    link.on_write(&[CMD_OTA_STATUS]);
    assert_eq!(read(&link), [3, 3, 0, 0, 0]);
    link.on_write(b"x");
    assert_eq!(read(&link), b"UAVLED JS");
}

#[test]
fn script_and_update_do_not_mix() {
    let mut link = Link::new();
    link.on_write(b"abc");
    link.on_write(&packet(0, 100, 0, &[1, 2, 3]));
    link.on_write(b"def\0");
    assert_eq!(link.script_text(), Some("abcdef"));
    assert_eq!(link.ota_buf, [1, 2, 3]);
    assert_eq!(link.ota.received, 3);
}

#[test]
fn firmware_reaches_the_flash() {
    let firmware: Vec<u8> = (0..1000u32).map(|i| (i * 7 + i / 256) as u8).collect();
    let mut link = Link::new();
    let mut flash = Flash::new();
    for (seq, chunk) in firmware.chunks(8).enumerate() {
        let action = link.on_write(&packet(seq as u16, 1000, seq as u32 * 8, chunk));
        assert_eq!(flash.settle(&mut link, action), Action::Done);
    }
    assert_eq!(flash.erased, 384);
    let action = link.on_write(&[CMD_OTA_COMMIT]);
    assert_eq!(flash.settle(&mut link, action), Action::Reboot);
    let start = OTA_PARTITION_OFFSET as usize;
    let end = start + OTA_PARTITION_SIZE as usize;
    assert_eq!(&flash.bytes[start..start + 1000], &firmware[..]);
    assert!(flash.bytes[start + 1000..end].iter().all(|b| *b == 0xFF));
    assert!(flash.bytes[..start].iter().all(|b| *b == 0x5A));
    assert!(flash.bytes[end..].iter().all(|b| *b == 0x5A));
    assert_eq!(flash.erased, 384);
    assert_eq!(
        flash.writes,
        [(0x190000, 256), (0x190100, 256), (0x190200, 256), (0x190300, 232)]
    );
}

#[test]
fn commit_with_nothing_gathered_restarts_at_once() {
    let mut link = Link::new();
    let mut flash = Flash::new();
    for seq in 0..2u16 {
        let action = link.on_write(&packet(seq, 256, seq as u32 * 128, &[seq as u8; 128]));
        flash.settle(&mut link, action);
    }
    assert_eq!(link.on_write(&[CMD_OTA_COMMIT]), Action::Reboot);
}

#[test]
fn refused_commit_does_not_restart() {
    let mut link = Link::new();
    assert_eq!(link.on_write(&[CMD_OTA_COMMIT]), Action::Done);
    assert_eq!(read(&link), [3, 3]);
    link.on_write(&packet(0, 100, 0, &[1, 2, 3]));
    assert_eq!(link.on_write(&[CMD_OTA_COMMIT]), Action::Done);
    assert_eq!(read(&link), [3, 4]);
    assert_eq!(link.ota_buf, [1, 2, 3]);
}

#[test]
fn firmware_in_seven_byte_packets_reaches_the_flash() {
    let firmware: Vec<u8> = (0..2000u32).map(|i| (i * 13 + i / 200) as u8).collect();
    let mut link = Link::new();
    let mut flash = Flash::new();
    assert_eq!(link.on_write(&[CMD_OTA_STATUS]), Action::Done);
    for (seq, chunk) in firmware.chunks(7).enumerate() {
        let action = link.on_write(&packet(seq as u16, 2000, seq as u32 * 7, chunk));
        assert_eq!(flash.settle(&mut link, action), Action::Done);
        if seq % 50 == 49 {
            assert_eq!(link.on_write(&[CMD_OTA_STATUS]), Action::Done);
            let received = (seq as u32 * 7 + 7).to_le_bytes();
            assert_eq!(read(&link)[1..], received);
            let lost = packet(seq as u16 + 2, 2000, seq as u32 * 7 + 14, chunk);
            assert_eq!(link.on_write(&lost), Action::Done);
        }
        if seq == 100 {
            link.on_write(b"function update() {}\0");
        }
    }
    let action = link.on_write(&[CMD_OTA_COMMIT]);
    assert_eq!(flash.settle(&mut link, action), Action::Reboot);
    let start = OTA_PARTITION_OFFSET as usize;
    assert_eq!(&flash.bytes[start..start + 2000], &firmware[..]);
    assert!(flash.bytes[..start].iter().all(|b| *b == 0x5A));
    assert_eq!(flash.erased, 384);
    let lens: Vec<usize> = flash.writes.iter().map(|w| w.1).collect();
    assert_eq!(lens, [256, 256, 256, 256, 256, 256, 256, 208]);
    assert!(flash.writes.iter().enumerate().all(|(i, w)| w.0 == 0x190000 + 256 * i as u32));
}

#[test]
fn packet_across_a_block_keeps_its_rest() {
    let mut link = Link::new();
    let mut flash = Flash::new();
    for seq in 0..36u16 {
        link.on_write(&packet(seq, 1000, seq as u32 * 7, &[seq as u8; 7]));
    }
    assert_eq!(link.ota_buf.len(), 252);
    let action = link.on_write(&packet(36, 1000, 252, &[1, 2, 3, 4, 5, 6, 7]));
    assert_eq!(action, Action::Erase { from: 0x190000, to: 0x191000 });
    assert_eq!(link.ota_buf.len(), 259);
    assert_eq!(flash.settle(&mut link, action), Action::Done);
    assert_eq!(flash.writes, [(0x190000, 256)]);
    assert_eq!(link.ota_buf, [5, 6, 7]);
    assert_eq!(link.ota.received, 259);
}

#[test]
fn largest_packets_fill_blocks() {
    let mut link = Link::new();
    let mut flash = Flash::new();
    link.on_write(&packet(0, 1000, 0, &[1; 255]));
    let action = link.on_write(&packet(1, 1000, 255, &[2; 255]));
    assert_eq!(link.ota_buf.len(), 510);
    assert_eq!(flash.settle(&mut link, action), Action::Done);
    assert_eq!(link.ota_buf, [2; 254]);
}

#[test]
fn starting_over_drops_what_was_gathered() {
    let mut link = Link::new();
    link.on_write(&packet(0, 1, 0, &[1, 2]));
    link.on_write(&packet(0, 1, 0, &[9]));
    assert_eq!(link.ota_buf, [9]);
    let mut flash = Flash::new();
    let action = link.on_write(&[CMD_OTA_COMMIT]);
    assert_eq!(flash.settle(&mut link, action), Action::Reboot);
    assert_eq!(flash.writes, [(0x190000, 1)]);
    assert_eq!(flash.bytes[0x190000], 9);
}

#[test]
fn first_packet_with_wrong_offset_drops_what_was_gathered() {
    let mut link = Link::new();
    link.on_write(&packet(0, 100, 0, &[1, 2]));
    assert_eq!(link.on_write(&packet(0, 100, 2, &[9])), Action::Done);
    assert_eq!(read(&link), [3, 0, 0, 0, 0]);
    assert!(link.ota_buf.is_empty());
}

#[test]
fn repeated_packet_is_gathered_once() {
    let mut link = Link::new();
    for _ in 0..2 {
        link.on_write(&packet(0, 100, 0, &[1, 2]));
        assert_eq!(link.ota_buf, [1, 2]);
    }
    for _ in 0..2 {
        link.on_write(&packet(1, 100, 2, &[3]));
        assert_eq!(link.ota_buf, [1, 2, 3]);
    }
}

#[test]
fn transfer_that_starts_over_is_written_to_a_blank_partition() {
    let mut link = Link::new();
    let mut flash = Flash::new();
    for round in 0..2 {
        for seq in 0..3u16 {
            let payload = [(0xF0 >> round) as u8; 100];
            let action = link.on_write(&packet(seq, 300, seq as u32 * 100, &payload));
            assert_eq!(flash.settle(&mut link, action), Action::Done);
        }
        assert!(link.flash_erased);
        assert_eq!(flash.erased, 384 * (round + 1));
    }
    let action = link.on_write(&[CMD_OTA_COMMIT]);
    assert_eq!(flash.settle(&mut link, action), Action::Reboot);
    assert_eq!(&flash.bytes[0x190000..0x190000 + 300], &[0x78; 300]);
    assert_eq!(flash.bytes[0x190000 + 300], 0xFF);
}

#[test]
fn truncated_packet_is_gathered_as_far_as_it_goes() {
    let mut link = Link::new();
    let mut d = packet(0, 1000, 0, &[9; 10]);
    d.truncate(15);
    link.on_write(&d);
    assert_eq!(read(&link), [3, 0xFF]);
    assert_eq!(link.ota.received, 0);
    assert_eq!(link.ota_buf, [9, 9, 9]);
}

#[test]
fn truncated_packet_fills_no_more_than_the_block() {
    let mut link = Link::new();
    let mut flash = Flash::new();
    link.on_write(&packet(0, 1000, 0, &[1; 200]));
    link.on_write(&packet(1, 1000, 200, &[2; 50]));
    let mut d = packet(2, 1000, 250, &[3; 20]);
    d.truncate(22);
    let action = link.on_write(&d);
    assert_eq!(link.ota_buf.len(), 256);
    assert_eq!(link.ota.received, 250);
    assert_eq!(flash.settle(&mut link, action), Action::Done);
    assert_eq!(flash.writes, [(0x190000, 256)]);
    assert_eq!(flash.bytes[0x190000 + 255], 3);
    assert!(link.ota_buf.is_empty());
}

#[test]
fn write_position_follows_the_bytes_that_count() {
    let mut link = Link::new();
    let mut flash = Flash::new();
    for seq in 0..5u16 {
        let action = link.on_write(&packet(seq, 1000, seq as u32 * 100, &[1; 100]));
        flash.settle(&mut link, action);
    }
    assert_eq!(link.ota_buf.len(), 244);
    let mut d = packet(5, 1000, 500, &[3; 20]);
    d.truncate(12 + 15);
    let action = link.on_write(&d);
    assert_eq!(flash.settle(&mut link, action), Action::Done);
    assert_eq!(flash.writes[1], (0x190000 + 500 - 256, 256));
}

#[test]
fn write_position_does_not_fall_below_the_partition() {
    let mut link = Link::new();
    let mut flash = Flash::new();
    for seq in 0..86u16 {
        let mut d = packet(seq, 1000, 0, &[9; 10]);
        d.truncate(15);
        let action = link.on_write(&d);
        assert_eq!(action == Action::Done, seq < 85);
        assert_eq!(flash.settle(&mut link, action), Action::Done);
    }
    assert_eq!(flash.writes, [(OTA_PARTITION_OFFSET, 256)]);
    assert!(link.ota_buf.is_empty());
}

#[test]
fn failed_erasure_gives_the_update_up() {
    let mut link = Link::new();
    link.on_write(&packet(0, 1000, 0, &[1; 128]));
    assert!(matches!(link.on_write(&packet(1, 1000, 128, &[1; 128])), Action::Erase { .. }));
    assert!(matches!(link.on_flash(true), Action::Erase { from: 0x191000, .. }));
    assert_eq!(link.on_flash(false), Action::Failed(FlashError::Erase));
    assert_eq!(link.work, Work::Idle);
    assert!(!link.ota.in_progress);
    assert_eq!(link.ota.received, 0);
    assert_eq!(link.ota.total_size, 0);
    assert!(link.ota_buf.is_empty());
    assert!(!link.flash_erased);
}

#[test]
fn failed_write_gives_the_update_up() {
    let mut link = Link::new();
    link.on_write(&packet(0, 3, 0, &[1; 3]));
    let mut action = link.on_write(&[CMD_OTA_COMMIT]);
    while let Action::Erase { .. } = action {
        action = link.on_flash(true);
    }
    assert_eq!(action, Action::Write { at: OTA_PARTITION_OFFSET, len: 3 });
    assert!(link.flash_erased);
    assert_eq!(link.on_flash(false), Action::Failed(FlashError::Write));
    assert!(link.ota_buf.is_empty());
    assert_eq!(read(&link), [3, 0xFE]);
}

#[test]
fn queries_and_refused_packets_leave_the_transfer() {
    let mut link = Link::new();
    link.on_write(&packet(0, 1000, 0, &[1, 2, 3]));
    assert_eq!(link.on_write(&[CMD_OTA_STATUS]), Action::Done);
    assert_eq!(link.on_write(&packet(7, 1000, 3, &[9])), Action::Done);
    assert_eq!(read(&link), [3, 3, 0, 0, 0]);
    assert_eq!(link.ota_buf, [1, 2, 3]);
    assert_eq!(link.on_write(&packet(1, 1000, 3, &[4])), Action::Done);
    assert_eq!(link.ota_buf, [1, 2, 3, 4]);
}
