use fpv::constants::{
    decimal_string, endpoint, get_tcp_path, parse_data, read_data, DRONE_HOST, DRONE_TCP_PORT,
    DRONE_UDP_PORT,
};

/// A text of the shape of the handshake data: 53 fields of four hexadecimal
/// digits, in lines of eight fields.
fn handshake_shaped_text() -> String {
    let mut text = String::new();
    for i in 0..53u32 {
        if i > 0 {
            text.push(if i % 8 == 0 { '\n' } else { ' ' });
        }
        text.push_str(&format!("{:02x}{:02X}", (i * 7) % 256, (i * 13 + 1) % 256));
    }
    text
}

#[test]
fn test_read_file_valid() {
    let text = handshake_shaped_text();
    let data = read_data(&text);
    assert_eq!(data.len(), 106);
}

#[test]
fn read_data_bytes_in_order() {
    assert_eq!(read_data("cc5a 0102\nff00"), vec![0xcc, 0x5a, 0x01, 0x02, 0xff, 0x00]);
    assert_eq!(read_data("AbCd"), vec![0xab, 0xcd]);
}

#[test]
fn read_data_rest_of_field() {
    // the second byte is the whole rest of the field
    assert_eq!(read_data("0a0b"), vec![0x0a, 0x0b]);
    assert_eq!(read_data("0a00ff"), vec![0x0a, 0xff]);
    assert_eq!(read_data("0a7"), vec![0x0a, 0x07]);
    // an optional plus sign, as base-16 parsing allows
    assert_eq!(read_data("+f+e"), vec![0x0f, 0x0e]);
}

#[test]
fn parse_data_rejects_invalid_fields() {
    assert_eq!(parse_data("invalid"), None);
    assert_eq!(parse_data(""), None);
    assert_eq!(parse_data("ab"), None);
    assert_eq!(parse_data("abcdef"), None);
    assert_eq!(parse_data("0a0b\n"), None);
    assert_eq!(parse_data(" 0a0b"), None);
    assert_eq!(parse_data("0a0b  0c0d"), None);
    assert_eq!(parse_data("zz00"), None);
    assert_eq!(parse_data("0a-1"), None);
    assert_eq!(parse_data("0a+"), None);
    assert_eq!(parse_data("é0a0"), None);
}

#[test]
fn parse_data_accepts_valid_text() {
    assert_eq!(parse_data("0a0b 0c0d"), Some(vec![0x0a, 0x0b, 0x0c, 0x0d]));
}

#[test]
fn tcp_path_of_video_player() {
    assert_eq!(get_tcp_path(), "tcp://127.0.0.1:8889?listen");
}

#[test]
fn endpoints_of_the_drone() {
    assert_eq!(endpoint(DRONE_HOST, DRONE_TCP_PORT), "172.16.10.1:8888");
    assert_eq!(endpoint(DRONE_HOST, DRONE_UDP_PORT), "172.16.10.1:8895");
}

#[test]
fn decimal_numerals() {
    assert_eq!(decimal_string(0), "0");
    assert_eq!(decimal_string(9), "9");
    assert_eq!(decimal_string(10), "10");
    assert_eq!(decimal_string(8889), "8889");
    assert_eq!(decimal_string(usize::MAX), usize::MAX.to_string());
}

#[test]
fn test_read_file_invalid() {
    assert_eq!(parse_data("invalid"), None);
}
