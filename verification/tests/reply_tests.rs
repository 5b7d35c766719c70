use aio_exec::reply::{empty, error, GdbErrorData, GdbReply};

fn drain(mut r: GdbReply) -> Vec<u8> {
    let mut out = Vec::new();
    while let Some(b) = r.next() {
        out.push(b);
    }
    out
}

#[test]
fn it_works() {
    assert_eq!(drain(empty()), b"$#00");
    assert_eq!(drain(error(0x55)), b"$E55#AF");
}

#[test]
fn reply_frames_payload_with_checksum() {
    // checksum of "OK" is 0x4F + 0x4B = 0x9A
    let reply = GdbReply::new(b"OK".to_vec());
    assert_eq!(drain(reply), b"$OK#9A");
    // collect_remaining drains the same bytes in one call
    let mut reply = GdbReply::new(b"OK".to_vec());
    assert_eq!(reply.collect_remaining(), b"$OK#9A");
    assert_eq!(reply.next(), None);
}

#[test]
fn reply_checksum_wraps_modulo_256() {
    // 3 bytes of 0xFF sum to 0x2FD, kept modulo 256 = 0xFD
    let reply = GdbReply::new(vec![0xFF, 0xFF, 0xFF]);
    let out = drain(reply);
    assert_eq!(&out[out.len() - 2..], b"FD");
}

#[test]
fn error_data_emits_three_bytes() {
    let mut d = GdbErrorData::new(0x0A);
    assert_eq!(d.next(), Some(b'E'));
    assert_eq!(d.next(), Some(b'0'));
    assert_eq!(d.next(), Some(b'A'));
    assert_eq!(d.next(), None);
    assert_eq!(d.next(), None);
}
