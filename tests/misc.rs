use yubihsm::http::{find_body_start, parse_headers};
use yubihsm::{ConnectorError, ECDSASignature, HttpConfig, Status};

#[test]
fn status_parses_all_fields() {
    let s = Status::parse("status=OK\nserial=0001234567\nversion=1.0.1\npid=12345\n").unwrap();
    assert_eq!(s.message, "OK");
    assert_eq!(s.serial, Some("0001234567".to_owned()));
    assert_eq!(s.version, "1.0.1");
    assert_eq!(s.pid, 12345);
}

#[test]
fn status_star_serial_is_none() {
    let s = Status::parse("pid=+7\n\nversion=3\nserial=*\nstatus=NO_DEVICE\nextra=1").unwrap();
    assert_eq!(s.message, "NO_DEVICE");
    assert_eq!(s.serial, None);
    assert_eq!(s.pid, 7);
}

#[test]
fn status_rejects_malformed_reports() {
    assert!(Status::parse("status=OK\nserial=*\nversion=1").is_err());
    assert!(Status::parse("status=OK\nserial=*\nversion=1\npid=1=2").is_err());
    assert!(Status::parse("status\nserial=*\nversion=1\npid=1").is_err());
    assert!(Status::parse("status=OK\nserial=*\nversion=1\npid=4294967296").is_err());
    assert!(Status::parse("status=OK\nserial=*\nversion=1\npid=12a").is_err());
    assert!(Status::parse("status=OK\nserial=*\nversion=1\npid=").is_err());
    assert_eq!(Status::parse("status=OK\nserial=*\nversion=1\npid=4294967295").unwrap().pid, 4294967295);
}

#[test]
fn ecdsa_signature_accessors() {
    let sig = ECDSASignature(vec![0x30, 0x44, 0x02]);
    assert_eq!(sig.len(), 3);
    assert_eq!(sig.as_slice(), &[0x30, 0x44, 0x02]);
    assert_eq!(sig.into_vec(), vec![0x30, 0x44, 0x02]);
}

#[test]
fn http_config_default() {
    let c = HttpConfig::default();
    assert_eq!(c.addr, "127.0.0.1");
    assert_eq!(c.port, 12345);
    assert_eq!(c.timeout_ms, 5000);
}

#[test]
fn http_headers_give_content_length() {
    let h = "HTTP/1.1 200 OK\r\nServer: x\r\nContent-Length: 12\r\n\r\n";
    assert_eq!(parse_headers(h, h.len()).unwrap(), 12);
    let last = "HTTP/1.1 200 OK\r\nContent-Length: 7";
    assert_eq!(parse_headers(last, 40).unwrap(), 7);
}

#[test]
fn http_headers_rejected() {
    let bad_status = "HTTP/1.1 404 Not Found\r\nContent-Length: 1\r\n\r\n";
    assert!(matches!(parse_headers(bad_status, 50), Err(ConnectorError::Framing)));
    let no_length = "HTTP/1.1 200 OK\r\nServer: x\r\n\r\n";
    assert!(parse_headers(no_length, 40).is_err());
    let too_long = "HTTP/1.1 200 OK\r\nContent-Length: 4090\r\n\r\n";
    assert!(parse_headers(too_long, too_long.len()).is_err());
    let not_number = "HTTP/1.1 200 OK\r\nContent-Length: 1x\r\n\r\n";
    assert!(parse_headers(not_number, 50).is_err());
    assert!(parse_headers("HTTP/1.1 200 OK", 15).is_err());
}

#[test]
fn body_start_after_blank_line() {
    assert_eq!(find_body_start(b"HTTP/1.1 200 OK\r\n\r\nbody"), Some(19));
    assert_eq!(find_body_start(b"HTTP/1.1 200 OK\r\n"), None);
    assert_eq!(find_body_start(b"\r\n\r"), None);
}
