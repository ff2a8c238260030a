use uart_bridge::bridge::{Bridge, BridgeOutput, PortId};

fn feed(bridge: &mut Bridge, port: PortId, bytes: &[u8]) -> (Vec<u8>, Vec<u8>) {
    let mut to_console: Vec<u8> = Vec::new();
    let mut to_device: Vec<u8> = Vec::new();
    for &b in bytes {
        let out: BridgeOutput = bridge.on_byte(port, b);
        to_console.extend_from_slice(&out.to_console);
        to_device.extend_from_slice(&out.to_device);
    }
    (to_console, to_device)
}

#[test]
fn typing_a_line_on_the_console() {
    // Typing `hi\n` on port A: A sees the echoes `h`, `i` and then the
    // whole line; B receives the whole line.
    let mut bridge = Bridge::new();
    let (to_console, to_device) = feed(&mut bridge, PortId::A, b"hi\n");
    assert_eq!(to_console, b"hihi\n".to_vec());
    assert_eq!(to_device, b"hi\n".to_vec());
    assert_eq!(bridge.accumulated(PortId::A), b"");
}

#[test]
fn device_line_forwarded_to_console_only() {
    // Sending `ok\n` on port B: A receives `ok\n`; B receives nothing.
    let mut bridge = Bridge::new();
    let (to_console, to_device) = feed(&mut bridge, PortId::B, b"ok\n");
    assert_eq!(to_console, b"ok\n".to_vec());
    assert_eq!(to_device, b"");
    assert_eq!(bridge.accumulated(PortId::B), b"");
}

#[test]
fn echo_is_per_byte_on_console_only() {
    let mut bridge = Bridge::new();
    let out = bridge.on_byte(PortId::A, b'x');
    assert_eq!(out.to_console, vec![b'x']);
    assert_eq!(out.to_device, Vec::<u8>::new());
    let out = bridge.on_byte(PortId::B, b'y');
    assert_eq!(out.to_console, Vec::<u8>::new());
    assert_eq!(out.to_device, Vec::<u8>::new());
    assert_eq!(bridge.accumulated(PortId::A), b"x");
    assert_eq!(bridge.accumulated(PortId::B), b"y");
}

#[test]
fn overflow_on_console_port() {
    // Forty non-terminator bytes on port A: the first 32 echo and fill the
    // accumulator, byte 33 triggers exactly one overflow notice on the
    // console, and the remaining 7 bytes start a fresh accumulation.
    let mut bridge = Bridge::new();
    let input: Vec<u8> = (0u8..40u8).map(|i| b'a' + (i % 20)).collect();
    assert!(input.iter().all(|&b| b != b'\n'));
    let (to_console, to_device) = feed(&mut bridge, PortId::A, &input);
    let mut expected_console: Vec<u8> = input[..32].to_vec();
    expected_console.extend_from_slice(b"Error: Error\n");
    expected_console.extend_from_slice(&input[33..]);
    assert_eq!(to_console, expected_console);
    assert_eq!(to_device, b"");
    assert_eq!(bridge.accumulated(PortId::A), &input[33..]);
}

#[test]
fn overflow_on_device_port() {
    // Thirty-three non-terminator bytes on port B: exactly one overflow
    // notice appears on the console, nothing is forwarded anywhere, and
    // the accumulator is empty again.
    let mut bridge = Bridge::new();
    let input: Vec<u8> = vec![b'z'; 33];
    let (to_console, to_device) = feed(&mut bridge, PortId::B, &input);
    assert_eq!(to_console, b"Error: Error\n".to_vec());
    assert_eq!(to_device, b"");
    assert_eq!(bridge.accumulated(PortId::B), b"");
}

#[test]
fn longest_line_that_fits_is_forwarded() {
    // 31 bytes of body plus the terminator is exactly the capacity.
    let mut bridge = Bridge::new();
    let mut input: Vec<u8> = vec![b'm'; 31];
    input.push(b'\n');
    let (to_console, to_device) = feed(&mut bridge, PortId::B, &input);
    assert_eq!(to_console, input);
    assert_eq!(to_device, b"");
}

#[test]
fn shortest_line_too_long_is_dropped() {
    // 32 bytes of body leave no room for the terminator: the line is
    // dropped with one notice and nothing is forwarded.
    let mut bridge = Bridge::new();
    let mut input: Vec<u8> = vec![b'm'; 32];
    input.push(b'\n');
    let (to_console, to_device) = feed(&mut bridge, PortId::B, &input);
    assert_eq!(to_console, b"Error: Error\n".to_vec());
    assert_eq!(to_device, b"");
    assert_eq!(bridge.accumulated(PortId::B), b"");
}

#[test]
fn accumulator_is_fresh_after_each_line() {
    // After a forwarded line and after an overflow-dropped line the same
    // bridge accepts a fresh line of up to 32 bytes.
    let mut bridge = Bridge::new();
    feed(&mut bridge, PortId::A, b"first\n");
    assert_eq!(bridge.accumulated(PortId::A), b"");
    let (to_console, to_device) = feed(&mut bridge, PortId::A, b"second\n");
    assert_eq!(to_console, b"secondsecond\n".to_vec());
    assert_eq!(to_device, b"second\n".to_vec());
    feed(&mut bridge, PortId::A, &vec![b'q'; 33]);
    assert_eq!(bridge.accumulated(PortId::A), b"");
    let (to_console, to_device) = feed(&mut bridge, PortId::A, b"third\n");
    assert_eq!(to_console, b"thirdthird\n".to_vec());
    assert_eq!(to_device, b"third\n".to_vec());
}

#[test]
fn ports_do_not_share_accumulators() {
    let mut bridge = Bridge::new();
    feed(&mut bridge, PortId::A, b"abc");
    feed(&mut bridge, PortId::B, b"de");
    assert_eq!(bridge.accumulated(PortId::A), b"abc");
    assert_eq!(bridge.accumulated(PortId::B), b"de");
    // Completing B's line does not disturb A's partial line.
    let (to_console, _) = feed(&mut bridge, PortId::B, b"\n");
    assert_eq!(to_console, b"de\n".to_vec());
    assert_eq!(bridge.accumulated(PortId::A), b"abc");
    assert_eq!(bridge.accumulated(PortId::B), b"");
}

#[test]
fn startup_banner_bytes() {
    assert_eq!(uart_bridge::bridge::startup_banner(), b"The answer is  42\n".to_vec());
}

#[test]
fn terminator_is_newline_only() {
    assert!(uart_bridge::bridge::byte_is_terminator(b'\n'));
    assert!(!uart_bridge::bridge::byte_is_terminator(b'\r'));
    assert!(!uart_bridge::bridge::byte_is_terminator(0));
}

#[test]
fn on_bytes_matches_per_byte_processing() {
    let mut per_byte = Bridge::new();
    let mut whole = Bridge::new();
    let input = b"abc\ndef";
    let (to_console, to_device) = feed(&mut per_byte, PortId::A, input);
    let out = whole.on_bytes(PortId::A, input);
    assert_eq!(out.to_console, to_console);
    assert_eq!(out.to_device, to_device);
    assert_eq!(whole.accumulated(PortId::A), per_byte.accumulated(PortId::A));
    assert_eq!(whole.accumulated(PortId::A), b"def");
}

#[test]
fn on_bytes_full_session() {
    // A console line, then a device line, then a device overflow: the
    // console sees everything, the device sees only the console's line.
    let mut bridge = Bridge::new();
    let first = bridge.on_bytes(PortId::A, b"to B\n");
    assert_eq!(first.to_console, b"to Bto B\n".to_vec());
    assert_eq!(first.to_device, b"to B\n".to_vec());
    let second = bridge.on_bytes(PortId::B, b"from B\n");
    assert_eq!(second.to_console, b"from B\n".to_vec());
    assert_eq!(second.to_device, b"");
    let third = bridge.on_bytes(PortId::B, &[b'#'; 33]);
    assert_eq!(third.to_console, b"Error: Error\n".to_vec());
    assert_eq!(third.to_device, b"");
}
