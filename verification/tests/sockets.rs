use linux_stats::{net, to_ipaddr, to_net_socket, DecodeError, SocketState, SocketTimerState};

#[test]
fn test_to_ipaddr() {
    let addr = to_ipaddr("0100007F".as_bytes()).unwrap();
    assert_eq!(addr, [127, 0, 0, 1]);
}

#[test]
fn test_to_net_socket() {
    let sock = to_net_socket("  49: 0100007F:1132 5B41EE2E:0050 0A 0000000A:00000002 01:0000000B 00000000  1001        0 2796814 1 ffff938ed0741080 20 4 29 10 -1".as_bytes()).unwrap();
    assert_eq!(sock.local_address, [127, 0, 0, 1]);
    assert_eq!(sock.local_port, 4402);
    assert_eq!(sock.remote_address, [46, 238, 65, 91]);
    assert_eq!(sock.remote_port, 80);
    assert_eq!(sock.state, SocketState::Listen);
    assert_eq!(sock.tx_queue, 0xA);
    assert_eq!(sock.rx_queue, 2);
    assert_eq!(sock.timer, SocketTimerState::Active(0xB));
    assert_eq!(sock.uid, 1001);
    assert_eq!(sock.inode, 2796814);
}

#[test]
fn address_bytes_are_reversed() {
    assert_eq!(to_ipaddr("0100007F".as_bytes()).unwrap(), [127, 0, 0, 1]);
    assert_eq!(to_ipaddr("5B41EE2E".as_bytes()).unwrap(), [46, 238, 65, 91]);
}

#[test]
fn address_bad_hex_is_error() {
    assert_eq!(to_ipaddr("ZZZZZZZZ".as_bytes()), Err(DecodeError::BadHex));
    assert_eq!(to_ipaddr("0100007".as_bytes()), Err(DecodeError::BadHex));
}

#[test]
fn address_too_short_is_error() {
    assert_eq!(to_ipaddr("01AB".as_bytes()), Err(DecodeError::BadAddress));
}

#[test]
fn port_decodes_as_hex() {
    let row = "0: 0100007F:0050 00000000:1132 0A 0:0 0:0 0 0 0 1";
    let sock = to_net_socket(row.as_bytes()).unwrap();
    assert_eq!(sock.local_port, 80);
    assert_eq!(sock.remote_port, 4402);
}

#[test]
fn state_listen_from_0a() {
    let row = "0: 0100007F:0050 00000000:0000 0A 0:0 0:0 0 0 0 1";
    assert_eq!(to_net_socket(row.as_bytes()).unwrap().state, SocketState::Listen);
}

#[test]
fn state_zero_is_error() {
    let row = "0: 0100007F:0050 00000000:0000 00 0:0 0:0 0 0 0 1";
    assert_eq!(to_net_socket(row.as_bytes()), Err(DecodeError::BadStateCode));
}

#[test]
fn state_above_eleven_is_error() {
    let row = "0: 0100007F:0050 00000000:0000 0C 0:0 0:0 0 0 0 1";
    assert_eq!(to_net_socket(row.as_bytes()), Err(DecodeError::BadStateCode));
}

#[test]
fn timer_kind_zero_is_inactive() {
    let row = "0: 0100007F:0050 00000000:0000 0A 0:0 00:0000000B 0 0 0 1";
    assert_eq!(to_net_socket(row.as_bytes()).unwrap().timer, SocketTimerState::Inactive);
}

#[test]
fn timer_kind_one_is_active() {
    let row = "0: 0100007F:0050 00000000:0000 0A 0:0 01:B 0 0 0 1";
    assert_eq!(
        to_net_socket(row.as_bytes()).unwrap().timer,
        SocketTimerState::Active(0xB),
    );
}

#[test]
fn queues_decode_as_hex() {
    let row = "0: 0100007F:0050 00000000:0000 0A 000000FF:00000010 0:0 0 0 0 1";
    let sock = to_net_socket(row.as_bytes()).unwrap();
    assert_eq!(sock.tx_queue, 255);
    assert_eq!(sock.rx_queue, 16);
}

#[test]
fn truncated_row_is_error_not_default() {
    let row = "0: 0100007F:0050 00000000:0000 0A 0:0";
    assert_eq!(to_net_socket(row.as_bytes()), Err(DecodeError::MissingField));
}

#[test]
fn table_header_is_skipped() {
    let text = "  sl  local_address rem_address   st tx_queue rx_queue tr tm->when retrnsmt   uid  timeout inode\n   0: 0100007F:0016 00000000:0000 0A 00000000:00000000 00:00000000 00000000     0        0 12345 1";
    let socks = net(text).unwrap();
    assert_eq!(socks.len(), 1);
    assert_eq!(socks[0].local_port, 22);
    assert_eq!(socks[0].inode, 12345);
    assert_eq!(socks[0].sl, 0);
}

#[test]
fn table_bad_row_aborts_whole_table() {
    let text = "header\n0: 0100007F:0016 00000000:0000 0A 0:0 0:0 0 0 0 1\n1: 0100007F:0050 00000000:0000 0A 0:0";
    assert_eq!(net(text), Err(DecodeError::MissingField));
}

#[test]
fn table_rows_keep_document_order() {
    let text = "header\n7: 0100007F:0016 00000000:0000 0A 0:0 0:0 0 0 0 5\n3: 0100007F:0017 00000000:0000 0A 0:0 0:0 0 0 0 6";
    let socks = net(text).unwrap();
    assert_eq!(socks.len(), 2);
    assert_eq!(socks[0].sl, 7);
    assert_eq!(socks[1].sl, 3);
}

#[test]
fn table_empty_input_is_empty_table() {
    assert_eq!(net("").unwrap().len(), 0);
}

#[test]
fn slot_and_uid_and_inode_decode_as_decimal() {
    let row = " 49: 0100007F:0016 00000000:0000 0A 0:0 0:0 0 1001 0 2796814";
    let sock = to_net_socket(row.as_bytes()).unwrap();
    assert_eq!(sock.sl, 49);
    assert_eq!(sock.uid, 1001);
    assert_eq!(sock.inode, 2796814);
}
