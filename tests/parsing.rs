use master_query::directory::{parse_address, parse_server_list, Server};
use master_query::info::parse_server_info;
use master_query::query::{get_server_info, get_servers, SendResult, RECEIVE_BUFFER_SIZE};
use master_query::segment::{split_segments, DELIMITER};

fn reply(bytes: &[u8]) -> SendResult {
    let mut buffer = [0u8; RECEIVE_BUFFER_SIZE];
    buffer[..bytes.len()].copy_from_slice(bytes);
    SendResult { error: bytes.is_empty(), size: bytes.len(), buffer }
}

const LOOPBACK_REPLY: [u8; 19] = [
    0xFF, 0xFF, 0xFF, 0xFF, 0x63, 0x6F, 0x6D, 0x6D, 0x61, 0x6E, 0x64, 0x5C, 0x7F, 0x00, 0x00,
    0x01, 0x71, 0xAE, 0x5C,
];

#[test]
fn address_is_read_big_endian() {
    let a = parse_address(&[127, 0, 0, 1, 0x71, 0xAE]);
    assert_eq!(a, Server { ip: 0x7F00_0001, port: 29102 });
    let b = parse_address(&[192, 168, 1, 20, 0x00, 0x50]);
    assert_eq!(b, Server { ip: 0xC0A8_0114, port: 80 });
    let c = parse_address(&[255, 255, 255, 255, 0xFF, 0xFF]);
    assert_eq!(c, Server { ip: u32::MAX, port: u16::MAX });
}

#[test]
fn loopback_reply_gives_command_and_server() {
    let res = parse_server_list(&LOOPBACK_REPLY, LOOPBACK_REPLY.len());
    assert_eq!(res.header, vec![0xFF; 4]);
    assert_eq!(res.command, b"command".to_vec());
    assert_eq!(res.servers, vec![Server { ip: 0x7F00_0001, port: 29102 }]);
    assert!(res.invalid.is_empty());
    assert_eq!(res.servers[0].ip.to_be_bytes(), [127, 0, 0, 1]);
}

#[test]
fn truncated_address_segment_is_invalid() {
    let bytes: Vec<u8> = vec![
        0xFF, 0xFF, 0xFF, 0xFF, 0x63, 0x6F, 0x6D, 0x6D, 0x61, 0x6E, 0x64, 0x5C, 0x7F, 0x00, 0x00,
        0x01, 0x71, 0x5C,
    ];
    let res = parse_server_list(&bytes, bytes.len());
    assert_eq!(res.command, b"command".to_vec());
    assert!(res.servers.is_empty());
    assert_eq!(res.invalid, vec![vec![0x7F, 0x00, 0x00, 0x01, 0x71]]);
}

#[test]
fn zero_marker_reply_is_empty() {
    let bytes: Vec<u8> = vec![0x00, 0x00, 0x00, 0x00, 0x63, 0x5C, 0x7F, 0x00, 0x00, 0x01, 0x71, 0xAE, 0x5C];
    let res = parse_server_list(&bytes, bytes.len());
    assert!(res.servers.is_empty());
    assert!(res.command.is_empty());
    assert!(res.invalid.is_empty());
    assert!(res.header.is_empty());
}

#[test]
fn info_reply_text() {
    let bytes: Vec<u8> = vec![0xFF, 0xFF, 0xFF, 0xFF, 0x5C, 0x69, 0x6E, 0x66, 0x6F];
    let info = parse_server_info(&bytes, bytes.len());
    assert!(!info.error);
    assert_eq!(info.text, "info");
}

#[test]
fn missing_marker_gives_no_info() {
    let bytes: Vec<u8> = vec![0xFF, 0xFF, 0x00, 0xFF, 0x5C, 0x69, 0x6E, 0x66, 0x6F];
    let info = parse_server_info(&bytes, bytes.len());
    assert!(info.error);
    assert_eq!(info.text, "");
    let list = parse_server_list(&bytes, bytes.len());
    assert_eq!(list.header, vec![0xFF, 0xFF]);
    assert!(list.servers.is_empty());
}

#[test]
fn short_reply_is_aborted() {
    let bytes: Vec<u8> = vec![0xFF, 0xFF, 0xFF];
    let list = parse_server_list(&bytes, bytes.len());
    assert_eq!(list.header, vec![0xFF; 3]);
    assert!(list.servers.is_empty());
    assert!(list.command.is_empty());
    assert!(parse_server_info(&bytes, bytes.len()).error);
}

#[test]
fn bare_marker_has_no_segments_and_empty_text() {
    let bytes: Vec<u8> = vec![0xFF; 4];
    let list = parse_server_list(&bytes, bytes.len());
    assert_eq!(list.header, vec![0xFF; 4]);
    assert!(list.command.is_empty());
    assert!(list.servers.is_empty());
    assert!(list.invalid.is_empty());
    let info = parse_server_info(&bytes, bytes.len());
    assert!(!info.error);
    assert_eq!(info.text, "");
}

#[test]
fn segment_counts_ignore_order() {
    let mut bytes: Vec<u8> = vec![0xFF, 0xFF, 0xFF, 0xFF, b'c', 0x5C];
    bytes.extend_from_slice(&[1, 2, 3]);
    bytes.push(0x5C);
    bytes.extend_from_slice(&[10, 0, 0, 1, 0x12, 0x34]);
    bytes.push(0x5C);
    bytes.push(0x5C);
    bytes.extend_from_slice(&[10, 0, 0, 2, 0x00, 0x01]);
    bytes.push(0x5C);
    bytes.extend_from_slice(&[1, 2, 3, 4, 5, 6, 7]);
    bytes.push(0x5C);
    bytes.extend_from_slice(&[10, 0, 0, 3, 0x00, 0x02]);
    bytes.push(0x5C);
    let res = parse_server_list(&bytes, bytes.len());
    assert_eq!(res.command, vec![b'c']);
    assert_eq!(res.servers.len(), 3);
    assert_eq!(res.invalid.len(), 3);
    assert_eq!(res.servers[0], Server { ip: 0x0A00_0001, port: 0x1234 });
    assert_eq!(res.servers[1], Server { ip: 0x0A00_0002, port: 1 });
    assert_eq!(res.servers[2], Server { ip: 0x0A00_0003, port: 2 });
    assert_eq!(res.invalid, vec![vec![1, 2, 3], vec![], vec![1, 2, 3, 4, 5, 6, 7]]);
}

#[test]
fn duplicate_servers_are_kept() {
    let mut bytes: Vec<u8> = vec![0xFF, 0xFF, 0xFF, 0xFF, 0x5C];
    bytes.extend_from_slice(&[1, 1, 1, 1, 0, 9, 0x5C]);
    bytes.extend_from_slice(&[1, 1, 1, 1, 0, 9, 0x5C]);
    let res = parse_server_list(&bytes, bytes.len());
    assert!(res.command.is_empty());
    assert_eq!(res.servers, vec![Server { ip: 0x0101_0101, port: 9 }; 2]);
}

#[test]
fn unterminated_tail_is_dropped() {
    let mut bytes = LOOPBACK_REPLY.to_vec();
    bytes.extend_from_slice(&[8, 8, 8, 8, 0, 53]);
    let res = parse_server_list(&bytes, bytes.len());
    assert_eq!(res.servers, vec![Server { ip: 0x7F00_0001, port: 29102 }]);
    assert!(res.invalid.is_empty());
}

#[test]
fn only_received_bytes_are_read() {
    let mut bytes = LOOPBACK_REPLY.to_vec();
    bytes.extend_from_slice(&[8, 8, 8, 8, 0, 53, 0x5C]);
    let res = parse_server_list(&bytes, LOOPBACK_REPLY.len());
    assert_eq!(res.servers.len(), 1);
    let r = reply(&LOOPBACK_REPLY);
    let list = get_servers(&r);
    assert_eq!(list.servers, vec![Server { ip: 0x7F00_0001, port: 29102 }]);
    assert!(list.invalid.is_empty());
}

#[test]
fn parsing_twice_gives_the_same() {
    let a = parse_server_list(&LOOPBACK_REPLY, LOOPBACK_REPLY.len());
    let b = parse_server_list(&LOOPBACK_REPLY, LOOPBACK_REPLY.len());
    assert_eq!(a.header, b.header);
    assert_eq!(a.command, b.command);
    assert_eq!(a.servers, b.servers);
    assert_eq!(a.invalid, b.invalid);
    let bytes: Vec<u8> = vec![0xFF, 0xFF, 0xFF, 0xFF, 0x5C, b'k', 0x5C, b'v'];
    let x = parse_server_info(&bytes, bytes.len());
    let y = parse_server_info(&bytes, bytes.len());
    assert_eq!(x.error, y.error);
    assert_eq!(x.text, y.text);
}

#[test]
fn info_keeps_later_delimiters_and_trims_trailing_zeros() {
    let mut bytes: Vec<u8> = vec![0xFF, 0xFF, 0xFF, 0xFF];
    bytes.extend_from_slice(b"infoResponse\n\\hostname\\srv\\mapname\\mp_rust");
    bytes.extend_from_slice(&[0, 0, 0]);
    let info = parse_server_info(&bytes, bytes.len());
    assert!(!info.error);
    assert_eq!(info.text, "hostname\\srv\\mapname\\mp_rust");
}

#[test]
fn info_keeps_leading_zeros() {
    let bytes: Vec<u8> = vec![0xFF, 0xFF, 0xFF, 0xFF, 0x5C, 0, b'a', 0];
    let info = parse_server_info(&bytes, bytes.len());
    assert!(!info.error);
    assert_eq!(info.text, "\u{0}a");
}

#[test]
fn info_without_delimiter_is_empty() {
    let bytes: Vec<u8> = vec![0xFF, 0xFF, 0xFF, 0xFF, b'a', b'b'];
    let info = parse_server_info(&bytes, bytes.len());
    assert!(!info.error);
    assert_eq!(info.text, "");
}

#[test]
fn info_with_invalid_utf8_fails() {
    let bytes: Vec<u8> = vec![0xFF, 0xFF, 0xFF, 0xFF, 0x5C, b'a', 0xC3, 0x28];
    let info = parse_server_info(&bytes, bytes.len());
    assert!(info.error);
    assert_eq!(info.text, "");
}

#[test]
fn info_decodes_multibyte_text() {
    let mut bytes: Vec<u8> = vec![0xFF, 0xFF, 0xFF, 0xFF, 0x5C];
    bytes.extend_from_slice("caf\u{e9}".as_bytes());
    let info = parse_server_info(&bytes, bytes.len());
    assert!(!info.error);
    assert_eq!(info.text, "caf\u{e9}");
}

#[test]
fn failed_exchange_gives_failed_info() {
    let mut r = reply(&[0xFF, 0xFF, 0xFF, 0xFF, 0x5C, b'x']);
    r.error = true;
    let info = get_server_info(&r);
    assert!(info.error);
    assert_eq!(info.text, "");
    let ok = reply(&[0xFF, 0xFF, 0xFF, 0xFF, 0x5C, b'x']);
    let info = get_server_info(&ok);
    assert!(!info.error);
    assert_eq!(info.text, "x");
}

#[test]
fn split_keeps_only_closed_segments() {
    let bytes: Vec<u8> = vec![b'a', DELIMITER, DELIMITER, b'b', b'c', DELIMITER, b'd'];
    let segs = split_segments(&bytes, 0, bytes.len(), DELIMITER);
    assert_eq!(segs, vec![vec![b'a'], vec![], vec![b'b', b'c']]);
    let none = split_segments(&bytes, 6, bytes.len(), DELIMITER);
    assert!(none.is_empty());
    let part = split_segments(&bytes, 1, 3, DELIMITER);
    assert_eq!(part, vec![vec![], vec![]]);
}
