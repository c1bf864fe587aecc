use cargo_criterion::connection::{
    frame_header, frame_length, parse_benchmark_hello, runner_hello, ConnectionError, ProtocolFormat,
    SamplingMethod, NOT_A_BENCHMARK, UNKNOWN_FORMAT,
};

fn hello(magic: &[u8], version: [u8; 3], protocol_version: u16, format: u16) -> Vec<u8> {
    let mut buf = magic.to_vec();
    buf.extend_from_slice(&version);
    buf.extend_from_slice(&protocol_version.to_be_bytes());
    buf.extend_from_slice(&format.to_be_bytes());
    buf
}

#[test]
fn runner_hello_is_magic_then_version() {
    let h = runner_hello([1, 1, 0]);
    assert_eq!(h, b"cargo-criterion\x01\x01\x00".to_vec());
    assert_eq!(h.len(), 18);
}

#[test]
fn benchmark_hello_is_read() {
    let buf = hello(b"Criterion", [0, 3, 4], 1, 1);
    assert_eq!(buf.len(), 16);
    let h = parse_benchmark_hello(&buf).unwrap();
    assert_eq!(h.criterion_rs_version, [0, 3, 4]);
    assert_eq!(h.protocol_version, 1);
    assert_eq!(h.protocol_format, ProtocolFormat::Cbor);
}

#[test]
fn benchmark_hello_protocol_version_is_big_endian() {
    let buf = hello(b"Criterion", [0, 3, 5], 0x0102, 1);
    let h = parse_benchmark_hello(&buf).unwrap();
    assert_eq!(h.protocol_version, 258);
}

#[test]
fn wrong_magic_is_refused() {
    let buf = hello(b"Criterium", [0, 3, 4], 1, 1);
    match parse_benchmark_hello(&buf) {
        Err(ConnectionError::HelloFailed(e)) => assert_eq!(e, NOT_A_BENCHMARK),
        Ok(_) => panic!("accepted a wrong magic number"),
    }
}

#[test]
fn unknown_format_is_refused() {
    let buf = hello(b"Criterion", [0, 3, 4], 1, 2);
    match parse_benchmark_hello(&buf) {
        Err(ConnectionError::HelloFailed(e)) => assert_eq!(e, UNKNOWN_FORMAT),
        Ok(_) => panic!("accepted an unknown format"),
    }
}

#[test]
fn protocol_format_numbers() {
    assert_eq!(ProtocolFormat::from_u16(1).unwrap(), ProtocolFormat::Cbor);
    assert!(ProtocolFormat::from_u16(0).is_err());
    assert!(ProtocolFormat::from_u16(256).is_err());
}

#[test]
fn connection_error_message() {
    let e = ConnectionError::HelloFailed(NOT_A_BENCHMARK);
    assert_eq!(
        e.message(),
        "Failed to connect to Criterion.rs benchmark:\nNot connected to a Criterion.rs benchmark."
    );
}

#[test]
fn frame_header_is_big_endian_length() {
    assert_eq!(frame_header(300), vec![0, 0, 1, 44]);
    assert_eq!(frame_header(0), vec![0, 0, 0, 0]);
    assert_eq!(frame_header(0x0102_0304), vec![1, 2, 3, 4]);
    assert_eq!(frame_header(u32::MAX as usize), vec![255, 255, 255, 255]);
}

#[test]
fn frame_length_reads_header_back() {
    assert_eq!(frame_length(&[0, 0, 1, 44]), 300);
    for len in [0usize, 1, 255, 256, 65_535, 65_536, 0x00ab_cdef, u32::MAX as usize] {
        assert_eq!(frame_length(&frame_header(len)) as usize, len);
    }
}

#[test]
fn sampling_method_linear() {
    assert!(SamplingMethod::Linear.is_linear());
    assert!(!SamplingMethod::Flat.is_linear());
}
