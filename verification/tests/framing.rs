use relay_bridge::framing::{frame_payload, FrameError, FrameScanner};

fn feed(scanner: &mut FrameScanner, bytes: &[u8]) -> Result<Option<Vec<u8>>, FrameError> {
    for &b in bytes {
        match scanner.push_byte(b)? {
            Some(payload) => return Ok(Some(payload)),
            None => {}
        }
    }
    Ok(None)
}

#[test]
fn frame_payload_adds_sentinels() {
    assert_eq!(frame_payload(&[]), vec![0xAE, 0xEA, 0xCA, 0xAC]);
    assert_eq!(
        frame_payload(&[1, 2, 3]),
        vec![0xAE, 0xEA, 1, 2, 3, 0xCA, 0xAC]
    );
}

#[test]
fn write_then_read_round_trip() {
    // Payloads from length 0 up to the 64-byte bound survive the trip
    // through the wire byte-for-byte.
    for len in 0..=64_usize {
        let payload: Vec<u8> = (0..len).map(|i| (i % 7) as u8).collect();
        let wire = frame_payload(&payload);

        let mut scanner = FrameScanner::new();
        let got = feed(&mut scanner, &wire).expect("no error");
        assert_eq!(got, Some(payload));
    }
}

#[test]
fn bytes_before_start_sentinel_are_discarded() {
    let payload = vec![0x11, 0x22, 0x33];
    let mut wire = vec![0x01, 0x02, 0xFE, 0xAE, 0x05];
    wire.extend_from_slice(&frame_payload(&payload));

    let mut scanner = FrameScanner::new();
    let got = feed(&mut scanner, &wire).expect("no error");
    assert_eq!(got, Some(payload));
}

#[test]
fn frame_split_across_reads_is_reassembled() {
    let payload = vec![9, 8, 7, 6];
    let wire = frame_payload(&payload);
    let (head, tail) = wire.split_at(3);

    let mut scanner = FrameScanner::new();
    assert_eq!(feed(&mut scanner, head), Ok(None));
    let got = feed(&mut scanner, tail).expect("no error");
    assert_eq!(got, Some(payload));
}

#[test]
fn push_bytes_finds_frame() {
    let payload = vec![0x42; 10];
    let wire = frame_payload(&payload);
    let mut scanner = FrameScanner::new();
    let got = scanner.push_bytes(&wire).expect("no error");
    assert_eq!(got, Some(payload));
}

#[test]
fn overlong_frame_is_malformed() {
    // A start sentinel followed by far more than 64 bytes and never a
    // stop sentinel trips the safety valve.
    let mut wire = vec![0xAE, 0xEA];
    wire.extend(std::iter::repeat(0x55_u8).take(80));

    let mut scanner = FrameScanner::new();
    let got = feed(&mut scanner, &wire);
    assert_eq!(got, Err(FrameError::Malformed));
}

#[test]
fn payload_of_65_bytes_is_malformed() {
    // One byte past the bound: the stop sentinel comes too late.
    let payload = vec![0x00_u8; 65];
    let wire = frame_payload(&payload);
    let mut scanner = FrameScanner::new();
    let got = feed(&mut scanner, &wire);
    assert_eq!(got, Err(FrameError::Malformed));
}

#[test]
fn scanner_recovers_after_malformed_stream() {
    let mut wire: Vec<u8> = std::iter::repeat(0x77_u8).take(70).collect();
    let payload = vec![1, 2, 3];
    wire.extend_from_slice(&frame_payload(&payload));

    let mut scanner = FrameScanner::new();
    let mut frames = Vec::new();
    let mut errors = 0_usize;
    for &b in &wire {
        match scanner.push_byte(b) {
            Ok(Some(p)) => frames.push(p),
            Ok(None) => {}
            Err(FrameError::Malformed) => errors += 1,
        }
    }
    assert_eq!(errors, 1);
    assert_eq!(frames, vec![payload]);
}
