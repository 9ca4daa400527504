use apdu_dispatch::apdu::Command;
use apdu_dispatch::app::{App, Interface, Result as AppResult, Status};
use apdu_dispatch::dispatch::Dispatcher;

fn hex(s: &str) -> Vec<u8> {
    let digits: Vec<u8> = s
        .chars()
        .filter(|c| c.is_ascii_hexdigit())
        .map(|c| c.to_digit(16).unwrap() as u8)
        .collect();
    assert!(digits.len() % 2 == 0);
    digits.chunks(2).map(|p| p[0] * 16 + p[1]).collect()
}

fn ones(n: usize) -> Vec<u8> {
    vec![1u8; n]
}

fn cat(parts: &[Vec<u8>]) -> Vec<u8> {
    let mut v = Vec::new();
    for p in parts {
        v.extend_from_slice(p);
    }
    v
}

fn dump_hex(prefix: &str, data: &[u8]) {
    let text: Vec<String> = data.iter().map(|b| format!("{:02X}", b)).collect();
    println!("{}{}", prefix, text.join(" "));
}

// Echoes to INS 0x10.
pub struct TestApp1 {}

// Echoes to INS 0x20; INS 0x30 answers with 2 KiB of byte-truncated Fibonacci.
pub struct TestApp2 {}

pub struct PanicApp {}

pub enum TestApp {
    Panic(PanicApp),
    One(TestApp1),
    Two(TestApp2),
}

fn echo(apdu: &Command, reply: &mut Vec<u8>) {
    reply.extend_from_slice(&[0, 0, 0, 0, 0]);
    reply.extend_from_slice(apdu.data());
}

fn fibonacci(reply: &mut Vec<u8>) {
    reply.extend_from_slice(&[0, 1, 1]);
    for i in 3..2048 {
        let next = ((reply[i - 1] as u32 + reply[i - 2] as u32) & 0xff) as u8;
        reply.push(next);
    }
}

impl App for TestApp {
    fn aid(&self) -> Vec<u8> {
        match self {
            TestApp::Panic(_) => hex("0A01000003"),
            TestApp::One(_) => hex("0A01000001"),
            TestApp::Two(_) => hex("0A01000002"),
        }
    }

    fn select(&mut self, _interface: Interface, _apdu: &Command, _reply: &mut Vec<u8>) -> AppResult {
        match self {
            TestApp::Panic(_) => panic!("Dont call the panic app"),
            _ => Ok(()),
        }
    }

    fn deselect(&mut self) {
        if let TestApp::Panic(_) = self {
            panic!("Dont call the panic app");
        }
    }

    fn call(&mut self, _interface: Interface, apdu: &Command, reply: &mut Vec<u8>) -> AppResult {
        match self {
            TestApp::Panic(_) => panic!("Dont call the panic app"),
            TestApp::One(_) => match apdu.instruction() {
                0x10 => {
                    echo(apdu, reply);
                    Ok(())
                }
                0x15 => {
                    let size = std::mem::size_of::<Dispatcher>() as u32;
                    reply.extend_from_slice(&size.to_be_bytes());
                    Ok(())
                }
                _ => Err(Status::InstructionNotSupportedOrInvalid),
            },
            TestApp::Two(_) => match apdu.instruction() {
                0x20 => {
                    echo(apdu, reply);
                    Ok(())
                }
                0x30 => {
                    fibonacci(reply);
                    Ok(())
                }
                _ => Err(Status::InstructionNotSupportedOrInvalid),
            },
        }
    }
}

fn run_apdus(apdu_response_pairs: &[Vec<u8>]) {
    assert!(apdu_response_pairs.len() > 0);
    assert!((apdu_response_pairs.len() & 1) == 0);

    let mut apdu_dispatch = Dispatcher::new();
    let mut apps = vec![
        TestApp::Panic(PanicApp {}),
        TestApp::One(TestApp1 {}),
        TestApp::Panic(PanicApp {}),
        TestApp::Two(TestApp2 {}),
        TestApp::Panic(PanicApp {}),
    ];

    for i in (0..apdu_response_pairs.len()).step_by(2) {
        let raw_req = &apdu_response_pairs[i];
        let raw_expected_res = &apdu_response_pairs[i + 1];

        dump_hex("<< ", raw_req);

        let response = apdu_dispatch.poll(Interface::Contact, raw_req, &mut apps);

        dump_hex(">> ", &response);

        if raw_expected_res.as_slice() != response.as_slice() {
            dump_hex("expected: ", raw_expected_res);
            dump_hex("got: ", &response);
            panic!("Expected responses do not match");
        }
    }
}

#[test]
fn malformed_apdus() {
    run_apdus(&[
        // Too short
        hex("00"),
        hex("6F00"),
        // Too short
        hex("0000"),
        hex("6F00"),
        // Too short
        hex("000000"),
        hex("6F00"),
        // Wrong length
        hex("0000000010010101"),
        hex("6F00"),
        // Extra data
        hex("000000000501010101010101010101010101"),
        hex("6F00"),
        // Invalid CLA
        hex("FF000000"),
        hex("6F00"),
        // Invalid extended length
        hex("00000000ff00050101010101"),
        hex("6F00"),
        // sanity check with Valid APDU with extended length
        hex("000000000000050101010101"),
        hex("6A82"),
    ])
}

#[test]
fn select_1() {
    run_apdus(&[hex("00A40400 05 0A01000001"), hex("9000")])
}

#[test]
fn select_2() {
    run_apdus(&[hex("00A40400 05 0A01000002"), hex("9000")])
}

#[test]
fn select_not_found() {
    run_apdus(&[hex("00A40400 05 0A01000100"), hex("6A82")])
}

#[test]
fn echo_1() {
    run_apdus(&[
        hex("00A40400 05 0A01000001"),
        hex("9000"),
        hex("00100000 05 0102030405"),
        hex("0000000000 01020304059000"),
    ])
}

#[test]
fn echo_with_cla_bits_set() {
    run_apdus(&[
        hex("00A40400 05 0A01000001"),
        hex("9000"),
        hex("80100000 05 0102030405"),
        hex("0000000000 0102030405 9000"),
    ])
}

#[test]
fn echo_wrong_instruction() {
    run_apdus(&[
        hex("00A40400 05 0A01000001"),
        hex("9000"),
        hex("00200000 05 0102030405"),
        hex("6d00"),
    ])
}

#[test]
fn echo_2() {
    run_apdus(&[
        hex("00A40400 05 0A01000002"),
        hex("9000"),
        hex("00200000 05 0102030405"),
        hex("0000000000 0102030405 9000"),
    ])
}

#[test]
fn echo_wrong_instruction_2() {
    run_apdus(&[
        hex("00A40400 05 0A01000002"),
        hex("9000"),
        hex("00100000 05 0102030405"),
        hex("6d00"),
    ])
}

#[test]
fn unsolicited_instruction() {
    run_apdus(&[hex("00100000 05 0102030405"), hex("6a82")])
}

#[test]
fn deselect() {
    run_apdus(&[
        // Select 1
        hex("00A40400 05 0A01000001"),
        hex("9000"),
        // Echo 1
        hex("00100000 05 0102030405"),
        hex("0000000000 0102030405 9000"),
        // Select 2
        hex("00A40400 05 0A01000002"),
        hex("9000"),
        // Echo 1
        hex("00100000 05 0102030405"),
        hex("6d00"),
    ])
}

#[test]
fn extended_length_echo() {
    run_apdus(&[
        hex("00A40400 05 0A01000001"),
        hex("9000"),
        // To be echoed: extended Lc of 0x123 bytes
        cat(&[hex("00100000000123"), ones(0x123)]),
        // 296 bytes of echo: a first window of 256, 0x28 remaining
        cat(&[hex("0000000000"), ones(251), hex("6128")]),
        hex("00C00000"),
        cat(&[ones(40), hex("9000")]),
    ])
}

#[test]
fn chained_apdu_1() {
    // 5 header bytes echoed and 255 + 255 + 32 data bytes: 547 bytes in all.
    let reply = cat(&[hex("0000000000"), ones(542)]);
    run_apdus(&[
        hex("00A40400 05 0A01000001"),
        hex("9000"),
        cat(&[hex("10200000FF"), ones(255)]),
        hex("9000"),
        cat(&[hex("10200000FF"), ones(255)]),
        hex("9000"),
        cat(&[hex("0010000020"), ones(32)]),
        cat(&[reply[..256].to_vec(), hex("6100")]),
        hex("00C00000"),
        cat(&[reply[256..512].to_vec(), hex("6123")]),
        hex("00C00000"),
        cat(&[reply[512..].to_vec(), hex("9000")]),
        hex("00C00000"),
        hex("6F00"),
    ])
}

#[test]
fn multiple_chained_apdu_1() {
    run_apdus(&[
        // Select 1
        hex("00A40400 05 0A01000001"),
        hex("9000"),
        // Set chaining bit
        cat(&[hex("10200000ff"), ones(255)]),
        hex("9000"),
        // Send last command
        cat(&[hex("0010000020"), ones(32)]),
        // Expect 0xff + 0x20 + 5 == 292 bytes back: 256 now, 0x24 remaining
        cat(&[hex("0000000000"), ones(251), hex("6124")]),
        // Get Response
        hex("00C00000"),
        cat(&[ones(36), hex("9000")]),
        // Check short commands still work
        hex("00100000 05 0102030405"),
        hex("0000000000 01020304059000"),
        hex("00200000 05 0102030405"),
        hex("6d00"),
        // Check chaining command still works
        cat(&[hex("10200000FF"), ones(255)]),
        hex("9000"),
        cat(&[hex("0010000020"), ones(32)]),
        cat(&[hex("0000000000"), ones(251), hex("6124")]),
        hex("00C00000"),
        cat(&[ones(36), hex("9000")]),
    ])
}

fn fibonacci_reply() -> Vec<u8> {
    let mut expected = Vec::new();
    fibonacci(&mut expected);
    expected
}

fn apdu_res_chunk(data: &[u8], start: &mut usize, size: usize) -> Vec<u8> {
    let mut chunk = Vec::new();
    let end = *start + size;
    chunk.extend_from_slice(&data[*start..end]);
    if data[*start..].len() > 256 {
        chunk.push(0x61);
        if data[end..].len() > 255 {
            chunk.push(0);
        } else {
            chunk.push(data[end..].len() as u8);
        }
    } else {
        chunk.push(0x90);
        chunk.push(0x00);
    }
    *start += size;
    chunk
}

#[test]
fn test_chained_fibonacci_response() {
    let expected = fibonacci_reply();
    let mut start = 0;
    let mut start2 = 0;
    let mut pairs = vec![
        // Select 2
        hex("00A40400 05 0A01000002"),
        hex("9000"),
        // Set chaining bit, command to get long fibonacci back
        cat(&[hex("10300000FF"), ones(255)]),
        hex("9000"),
        // Send last command
        cat(&[hex("0030000020"), ones(32)]),
        apdu_res_chunk(&expected, &mut start, 256),
    ];
    for _ in 0..7 {
        pairs.push(hex("00C00000"));
        pairs.push(apdu_res_chunk(&expected, &mut start, 256));
    }
    // chaining bit, command to get long fibonacci back
    pairs.push(hex("10300000 05 0102030405"));
    pairs.push(hex("9000 "));
    pairs.push(hex("00300000 05 0102030405"));
    pairs.push(apdu_res_chunk(&expected, &mut start2, 256));
    for _ in 0..7 {
        pairs.push(hex("00C00000"));
        pairs.push(apdu_res_chunk(&expected, &mut start2, 256));
    }
    run_apdus(&pairs)
}

#[test]
fn multiple_chained_apdu_interruption() {
    run_apdus(&[
        // Select 1
        hex("00A40400050A01000001"),
        hex("9000"),
        // Set chaining bit
        cat(&[hex("10200000FF"), ones(255)]),
        hex("9000"),
        // Send last command
        cat(&[hex("0010000020"), ones(32)]),
        cat(&[hex("0000000000"), ones(251), hex("6124")]),
        // Just ignore those 36 bytes and do something different
        hex("00100000 05 0102030405"),
        hex("0000000000 0102030405 9000"),
        // GetResponse no longer works
        hex("00C00000"),
        hex("6F00 "),
        // Check that new chaining transaction works
        cat(&[hex("10200000FF"), ones(255)]),
        hex("9000"),
        cat(&[hex("0010000020"), ones(32)]),
        cat(&[hex("0000000000"), ones(251), hex("6124")]),
    ])
}

#[test]
fn chaining_with_unknown_class_range() {
    run_apdus(&[
        hex("00A40400 05 0A01000001"),
        hex("9000"),
        // Set chaining bit + upper range bit
        cat(&[hex("90200000FF"), ones(255)]),
        hex("9000"),
    ])
}

#[test]
fn send_select_preceded_with_zero_chained_data() {
    // Sending a select after chaining 0 bytes should result in successful select operation
    run_apdus(&[
        hex("9060000000"),
        hex("9000"),
        hex("00A40400 05 0A01000001"),
        hex("9000"),
    ])
}

#[test]
fn check_stack_burden() {
    let mut apdu_dispatch = Dispatcher::new();
    let mut apps = vec![TestApp::One(TestApp1 {})];

    let response = apdu_dispatch.poll(Interface::Contact, &hex("00A40400050A01000001"), &mut apps);
    dump_hex(">> ", &response);

    let response = apdu_dispatch.poll(Interface::Contact, &hex("00150000"), &mut apps);
    dump_hex(">> ", &response);

    let payload: [u8; 4] = [response[0], response[1], response[2], response[3]];
    println!("Burden: {} bytes", u32::from_be_bytes(payload));
    assert_eq!(response.len(), 6);
    assert_eq!(&response[4..], &[0x90, 0x00]);
}

