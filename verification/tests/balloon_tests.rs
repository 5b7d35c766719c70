use aio_exec::balloon::{
    parse_pfn_chain, parse_stats, Balloon, BalloonControlCommand, BalloonStat, BalloonStats,
    CommandAction, PFN_SHIFT,
};

#[test]
fn desc_parsing_inflate() {
    // The inflate chain carries 4-byte little-endian page-frame numbers;
    // each becomes a guest address shifted by the page-frame shift.
    let chain: Vec<u8> = vec![0x10, 0x00, 0x00, 0x00, 0x55, 0xaa, 0x55, 0xaa];
    let addrs = parse_pfn_chain(&chain);
    assert_eq!(addrs.len(), 2);
    assert_eq!(addrs[0], 0x10u64 << PFN_SHIFT);
    assert_eq!(addrs[1], 0xaa55aa55u64 << PFN_SHIFT);
}

#[test]
fn pfn_chain_ignores_trailing_partial_value() {
    let chain: Vec<u8> = vec![1, 0, 0, 0, 9, 9];
    let addrs = parse_pfn_chain(&chain);
    assert_eq!(addrs, vec![1u64 << PFN_SHIFT]);
}

#[test]
fn balloon_offers_its_feature_bits() {
    let b = Balloon::new(1u64 << 32);
    // must-tell-host, stats queue, deflate on out-of-memory
    assert_eq!(b.features(), (1u64 << 32) | 0b111);
    assert_eq!(b.device_type(), 5);
    assert_eq!(b.queue_max_sizes(), vec![128, 128, 128]);
}

#[test]
fn ack_features_keeps_only_acknowledged_bits() {
    let mut b = Balloon::new(0);
    b.ack_features(0b101);
    assert_eq!(b.features(), 0b101);
    b.ack_features(0b001);
    assert_eq!(b.features(), 0b001);
}

#[test]
fn adjust_command_sets_target_pages() {
    let mut b = Balloon::new(0);
    // 8 MiB = 2048 pages of 4096 bytes
    let action = b.apply_command(BalloonControlCommand::Adjust { num_bytes: 8 << 20 });
    assert_eq!(action, CommandAction::SignalConfigChanged);
    let mut data = vec![0u8; 4];
    b.read_config(0, &mut data);
    assert_eq!(u32::from_le_bytes([data[0], data[1], data[2], data[3]]), 2048);
    assert_eq!(b.apply_command(BalloonControlCommand::Stats), CommandAction::RequestStats);
}

#[test]
fn config_space_round_trips_the_actual_count() {
    let mut b = Balloon::new(0);
    // the guest acknowledges 7 pages: bytes 4..8 of the config space
    b.write_config(4, &vec![7, 0, 0, 0]);
    assert_eq!(b.actual_bytes(), 7u64 << PFN_SHIFT);
    let mut data = vec![0u8; 8];
    b.read_config(0, &mut data);
    assert_eq!(data, vec![0, 0, 0, 0, 7, 0, 0, 0]);
    // a window past the end leaves the caller's buffer untouched
    let mut far = vec![0xEEu8; 2];
    b.read_config(100, &mut far);
    assert_eq!(far, vec![0xEE, 0xEE]);
}

#[test]
fn update_stats_sets_the_tagged_field_only() {
    let mut stats = BalloonStats::new();
    BalloonStat { tag: 4, val: 1234 }.update_stats(&mut stats);
    assert_eq!(stats.free_memory, Some(1234));
    assert_eq!(stats.swap_in, None);
    BalloonStat { tag: 0, val: 1 }.update_stats(&mut stats);
    assert_eq!(stats.swap_in, Some(1));
    assert_eq!(stats.free_memory, Some(1234));
    // an unknown tag changes nothing
    let before = stats;
    BalloonStat { tag: 77, val: 9 }.update_stats(&mut stats);
    assert_eq!(stats, before);
}

#[test]
fn parse_stats_decodes_packed_records() {
    let mut bytes = Vec::new();
    bytes.extend_from_slice(&5u16.to_le_bytes());
    bytes.extend_from_slice(&4096u64.to_le_bytes());
    bytes.extend_from_slice(&9u16.to_le_bytes());
    bytes.extend_from_slice(&2u64.to_le_bytes());
    // a trailing partial record is ignored
    bytes.push(0xFF);
    let stats = parse_stats(&bytes);
    assert_eq!(stats.len(), 2);
    assert_eq!(stats[0], BalloonStat { tag: 5, val: 4096 });
    assert_eq!(stats[1], BalloonStat { tag: 9, val: 2 });
}
