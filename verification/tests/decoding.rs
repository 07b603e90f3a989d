use remoteprocess::cmdline::{
    cmdline_from_query, probe_buffer_size, render_cmdline_bytes, FALLBACK_UNITS,
};
use remoteprocess::error::Error;
use remoteprocess::wide::{decode_utf16_lossy, decode_utf16_prefix_lossy};

fn units_of(text: &str) -> Vec<u16> {
    text.encode_utf16().collect()
}

#[test]
fn decode_ascii_text() {
    let units = units_of("C:\\tools\\profiler.exe");
    let decoded = decode_utf16_lossy(&units);
    assert_eq!(decoded, "C:\\tools\\profiler.exe");
}

#[test]
fn decode_surrogate_pair() {
    let units = units_of("a\u{1D11E}b");
    assert_eq!(units.len(), 4);
    assert_eq!(units[1], 0xD834);
    assert_eq!(units[2], 0xDD1E);
    let decoded = decode_utf16_lossy(&units);
    assert_eq!(decoded, "a\u{1D11E}b");
}

#[test]
fn decode_lone_high_surrogate() {
    let units: Vec<u16> = vec![0xD800];
    let decoded = decode_utf16_lossy(&units);
    assert_eq!(decoded, "\u{FFFD}");
}

#[test]
fn decode_misplaced_low_surrogate() {
    let units: Vec<u16> = vec![0xDC00, 0x41];
    let decoded = decode_utf16_lossy(&units);
    assert_eq!(decoded, "\u{FFFD}A");
}

#[test]
fn decode_high_surrogate_before_non_low() {
    let units: Vec<u16> = vec![0xD800, 0x42];
    let decoded = decode_utf16_lossy(&units);
    assert_eq!(decoded, "\u{FFFD}B");
}

#[test]
fn decode_reported_run_not_whole_buffer() {
    let mut units = units_of("target");
    units.push(0);
    units.push(0x58);
    let decoded = decode_utf16_prefix_lossy(&units, 6);
    assert_eq!(decoded, "target");
}

#[test]
fn decode_empty_buffer_is_empty_text() {
    let units: Vec<u16> = Vec::new();
    assert_eq!(decode_utf16_lossy(&units), "");
}

#[test]
fn probe_size_reported_nonzero_is_kept() {
    assert_eq!(probe_buffer_size(5), 5);
    assert_eq!(probe_buffer_size(1), 1);
}

#[test]
fn probe_size_zero_falls_back() {
    assert_eq!(probe_buffer_size(0), FALLBACK_UNITS);
    assert_eq!(probe_buffer_size(0), 65536);
}

#[test]
fn cmdline_known_literal_round_trips() {
    let text = "profiler.exe --attach \"some target\" -v";
    let units = units_of(text);
    let length_bytes = (units.len() * 2) as u16;
    let mut buffer = units.clone();
    buffer.push(0);
    buffer.push(0x7A);
    let r = cmdline_from_query(0, 0, &buffer, length_bytes).unwrap();
    assert_eq!(r.len(), 1);
    assert_eq!(r[0], text);
}

#[test]
fn cmdline_failed_status_carries_host_code() {
    let buffer: Vec<u16> = Vec::new();
    let r = cmdline_from_query(-1073741790, 5, &buffer, 0);
    assert_eq!(r, Err(Error::Os(5)));
}

#[test]
fn cmdline_bytes_render_separators_and_tail() {
    let bytes: Vec<u8> = b"ls\0-l\0/tmp\0\0".to_vec();
    assert_eq!(render_cmdline_bytes(&bytes), b"ls -l /tmp".to_vec());
}

#[test]
fn cmdline_bytes_render_empty_and_all_nul() {
    assert_eq!(render_cmdline_bytes(&Vec::new()), Vec::<u8>::new());
    let nuls: Vec<u8> = vec![0, 0, 0];
    assert_eq!(render_cmdline_bytes(&nuls), Vec::<u8>::new());
}

#[test]
fn cmdline_empty_run_is_one_empty_string() {
    let buffer: Vec<u16> = vec![0x41, 0x42];
    let r = cmdline_from_query(0, 0, &buffer, 0).unwrap();
    assert_eq!(r.len(), 1);
    assert_eq!(r[0], "");
}
