use std::collections::VecDeque;

use gxdl_rs::exchange::{ControlLine, Next, Output, PromptOutcome, Turn};
use gxdl_rs::loader::BootImage;
use gxdl_rs::protocol::{
    checksum_rejected, clean_text_response, find_bytes, find_handshake, find_ordered_runget,
    find_token, find_tolerant_runget, gx_checksum, hex, latin1_string, parse_number,
    NumberFault, RungetMatch, Session,
};

/// Runs an exchange against scripted device output; gives what was sent.
fn drive(
    reads: &[&[u8]],
    session: &mut Session,
    mut step: impl FnMut(&mut Session, u64) -> Result<Turn, String>,
) -> Result<Vec<u8>, String> {
    let mut reads: VecDeque<Vec<u8>> = reads.iter().map(|data| data.to_vec()).collect();
    let mut writes = Vec::new();
    let mut now = 0u64;
    for _ in 0..100_000 {
        let turn = step(session, now)?;
        for output in turn.outputs {
            if let Output::Send(bytes) = output {
                writes.extend_from_slice(&bytes);
            }
        }
        match turn.next {
            Next::Finished => return Ok(writes),
            Next::Continue => {}
            Next::Receive { .. } => {
                if let Some(data) = reads.pop_front() {
                    session.receive(&data);
                }
                now += 1_000;
            }
        }
    }
    Err("exchange did not finish".to_string())
}

fn boot_image() -> BootImage {
    let mut data = vec![0u8; 0x2020];
    data[..4].copy_from_slice(b"toob");
    data[4..6].copy_from_slice(&1u16.to_le_bytes());
    data[6..8].copy_from_slice(&0x6701u16.to_le_bytes());
    data[8..12].copy_from_slice(&115_200u32.to_le_bytes());
    for (index, byte) in data[0x20..].iter_mut().enumerate() {
        *byte = index as u8;
    }
    BootImage::parse("mock.boot".to_string(), data).unwrap()
}

fn handshake_from(reads: &[&[u8]]) -> Option<Vec<u8>> {
    let mut session = Session::new(false);
    for data in reads {
        session.receive(data);
        if let Some(handshake) = session.take_handshake() {
            return Some(handshake);
        }
    }
    None
}

#[test]
fn detects_fragmented_handshake() {
    assert_eq!(
        handshake_from(&[&[0xaa, 0xb8], &[0xb0], &[0xff, 0x58]]).unwrap(),
        [0xb8, 0xb0, 0xff, 0x58]
    );
}

#[test]
fn detects_handshake_after_ipl_noise() {
    assert_eq!(
        handshake_from(&[&[0x19, 0x72, 0xb8], &[0xb0, 0xff], &[0x58]]).unwrap(),
        [0xb8, 0xb0, 0xff, 0x58]
    );
}

#[test]
fn handshake_survives_trimming_of_long_noise() {
    let noise = vec![0x11u8; 40];
    let mut first = noise.clone();
    first.push(0xb8);
    assert_eq!(handshake_from(&[&first, &[0xb0, 0xff, 0x58]]).unwrap(), [0xb8, 0xb0, 0xff, 0x58]);
    let mut session = Session::new(false);
    session.receive(&first);
    assert!(session.take_handshake().is_none());
    assert_eq!(session.pending().len(), 32);
    assert_eq!(find_handshake(&[0x00, 0x01, 0x58]), Some((0, 3)));
    assert_eq!(find_handshake(&[0x01, 0x58, 0x58]), None);
}

#[test]
fn detects_runget_with_separators_and_ipl_noise() {
    let mut session = Session::new(false);
    session.receive(b"19RUkgd:3\r\nNGET");
    let step = session.runget_step(false, false);
    assert!(step.outcome.is_some());
    assert!(session.pending().is_empty());
}

#[test]
fn runget_detectors_on_concrete_noise() {
    assert_eq!(find_tolerant_runget(b"R U N G E T", 4), Some(10));
    assert_eq!(find_tolerant_runget(b"RUxNGET", 4), None);
    assert_eq!(find_ordered_runget(b"..r..u..n..g..e..t", 40), Some(2));
    assert_eq!(find_token(b"xRUN RUN", b"run"), Some(5));
    let mut session = Session::new(false);
    session.receive(b"RUN ");
    let first = session.runget_step(false, false);
    assert!(first.run_detected);
    assert_eq!(first.outcome, None);
    session.receive(&[b'x'; 50]);
    session.receive(b" GET");
    let second = session.runget_step(true, false);
    assert_eq!(second.outcome, Some(RungetMatch::RunThenGet));
    let mut quiet = Session::new(false);
    quiet.receive(b"noise");
    assert_eq!(
        quiet.runget_step(true, true).outcome,
        Some(RungetMatch::RunTimeout)
    );
}

#[test]
fn binary_read_preserves_payload_and_following_markers_in_one_read() {
    let mut session = Session::new(false);
    let mut read = session.binary_read("serialdump BOOT 4", 4).unwrap();
    drive(
        &[
            b"boot>",
            b"serialdump BOOT 4\r\n~st",
            b"a~\x01\x02\x03\x04~crc~\x78\x56\x34\x12~fin~",
        ],
        &mut session,
        |s, now| read.step(s, now, None),
    )
    .unwrap();
    let (data, crc) = read.result().unwrap();
    assert_eq!(*data, [1, 2, 3, 4]);
    assert_eq!(crc, Some(0x12345678));
}

#[test]
fn binary_read_without_crc_warns_and_finishes() {
    let mut session = Session::new(false);
    let mut read = session.binary_read("gx_otp read 0 2", 2).unwrap();
    let sent = drive(
        &[b"boot>", b"gx_otp read 0 2\r\n~sta~\xaa\xbb"],
        &mut session,
        |s, now| read.step(s, now, None),
    )
    .unwrap();
    assert_eq!(sent, b"gx_otp read 0 2\n");
    let (data, crc) = read.result().unwrap();
    assert_eq!(*data, [0xaa, 0xbb]);
    assert_eq!(crc, None);
    assert!(Session::new(false).binary_read("x", 0).is_err());
}

#[test]
fn complete_boot_writes_exact_stage_boundaries() {
    let mut session = Session::new(false);
    let image = boot_image();
    let mut upload = session.boot(&image, false, false);
    let writes = drive(
        &[&[0xb0, 0xb0], &[0x58], b"RUN", b"GET", b"board output\r\nboot>"],
        &mut session,
        |s, now| upload.step(s, now, None),
    )
    .unwrap();
    let output = upload.output().unwrap();
    assert!(find_bytes(output, b"boot>").is_some());

    assert_eq!(&writes[..5], image.stage1_header());
    assert_eq!(
        &writes[5..5 + image.stage1_payload().len()],
        image.stage1_payload()
    );
    let stage1_end = 5 + image.stage1_payload().len();
    assert_eq!(&writes[stage1_end..stage1_end + 4], b"boot");

    let stage2_start = stage1_end + 4;
    let (metadata, content) = image.stage2();
    assert_eq!(&writes[stage2_start..stage2_start + 8], &metadata);
    assert_eq!(&writes[stage2_start + 8..], &content);
}

#[test]
fn boot_without_handshake_times_out() {
    let mut session = Session::new(false);
    let image = boot_image();
    let mut upload = session.boot(&image, true, false);
    let error = drive(&[&[0x01, 0x02]], &mut session, |s, now| {
        upload.step(s, now * 1_000, None)
    })
    .unwrap_err();
    assert_eq!(error, "timeout waiting for handshake; last bytes: 0102");
}

#[test]
fn binary_write_sends_custom_checksum_after_device_request() {
    let mut session = Session::new(false);
    let data = [1, 2, 3, 4, 5];
    let mut write = session.binary_write("gx_otp write 0 5", data.to_vec(), 1_000_000, false).unwrap();
    let writes = drive(
        &[b"boot>", b"gx_otp write 0 5\r\n~sta~", b"~crc~", b"~fin~"],
        &mut session,
        |s, now| write.step(s, now, None),
    )
    .unwrap();

    assert!(find_bytes(&writes, b"gx_otp write 0 5\n").is_some());
    let data_at = find_bytes(&writes, &data).unwrap();
    assert_eq!(
        &writes[data_at + data.len()..],
        &gx_checksum(&data).to_be_bytes()
    );
    assert_eq!(write.response().unwrap(), "~fin~");
}

#[test]
fn binary_write_reports_rejected_checksum() {
    let mut session = Session::new(false);
    let mut write = session.binary_write("serialdown LOGO 3", vec![9, 9, 9], 1_000_000, true).unwrap();
    let error = drive(
        &[b"boot>", b"serialdown LOGO 3\r\n~sta~", b"~crc~", b" CRC Err \r\n"],
        &mut session,
        |s, now| write.step(s, now, None),
    )
    .unwrap_err();
    assert_eq!(error, "device rejected checksum: CRC Err");
    assert!(Session::new(false).binary_write("x", Vec::new(), 1, false).is_err());
    assert!(checksum_rejected(b"ERR: bad CRC"));
    assert!(!checksum_rejected(b"error only"));
}

#[test]
fn silent_loader_is_poked_then_given_up() {
    let mut session = Session::new(false);
    let mut text = session.text_command("flash badinfo", 10_000_000);
    let mut sent = Vec::new();
    let mut now = 0u64;
    let error = loop {
        match text.step(&mut session, now, None) {
            Ok(turn) => {
                for output in turn.outputs {
                    if let Output::Send(bytes) = output {
                        sent.extend_from_slice(&bytes);
                    }
                }
                now += 100_000;
            }
            Err(error) => break error,
        }
    };
    assert_eq!(sent, b"\n");
    assert_eq!(error, "timeout waiting for boot> prompt");
}

#[test]
fn text_command_answer_drops_echo() {
    let mut session = Session::new(false);
    let mut text = session.text_command("flash badinfo", 10_000_000);
    let sent = drive(
        &[b"boot> ", b"flash badinfo\r\n  bad blocks: 0 \r\n\r\nboot>"],
        &mut session,
        |s, now| text.step(s, now, None),
    )
    .unwrap();
    assert_eq!(sent, b"flash badinfo\n");
    assert_eq!(text.result().unwrap(), "bad blocks: 0");
}

#[test]
fn checksum_is_chunk_independent_and_big_endian_ready() {
    let data = [0x00, 0x11, 0x22, 0x33, 0xff];
    let expected: u32 =
        0x12u32 + (0x34u32 ^ 0x11) + (0x56u32 ^ 0x22) + (0x78u32 ^ 0x33) + (0x12u32 ^ 0xff);
    assert_eq!(gx_checksum(&data), expected);
    assert_eq!(gx_checksum(&data).to_be_bytes(), expected.to_be_bytes());
}

#[test]
fn checksum_of_aligned_pieces_adds_up() {
    let a: Vec<u8> = (0..8u8).map(|x| x.wrapping_mul(37)).collect();
    let b: Vec<u8> = (0..13u8).map(|x| x.wrapping_mul(91)).collect();
    let mut whole = a.clone();
    whole.extend_from_slice(&b);
    assert_eq!(
        gx_checksum(&whole),
        gx_checksum(&a).wrapping_add(gx_checksum(&b))
    );
    let big = vec![0xffu8; 1 << 20];
    assert_eq!(gx_checksum(&big), (0xedu32 + 0xcb + 0xa9 + 0x87) * (1 << 18));
}

#[test]
fn parses_decimal_and_hex_numbers() {
    assert_eq!(parse_number("4096").unwrap(), 4096);
    assert_eq!(parse_number("0x1000").unwrap(), 4096);
    assert!(parse_number("wat").is_err());
}

#[test]
fn numbers_follow_from_str_radix() {
    assert_eq!(parse_number("+12").unwrap(), 12);
    assert_eq!(parse_number("0XfF").unwrap(), 255);
    assert_eq!(parse_number("0x+a").unwrap(), 10);
    assert!(parse_number("").is_err());
    assert!(parse_number("+").is_err());
    assert!(parse_number("0x").is_err());
    assert!(parse_number("-1").is_err());
    assert!(parse_number("18446744073709551616").is_err());
    let error = parse_number("12a").unwrap_err();
    assert_eq!(error.fault, NumberFault::Invalid);
    assert_eq!(
        error.message(),
        "invalid number '12a' (expected decimal or 0x-prefixed hexadecimal)"
    );
    for n in [0usize, 7, 10, 4095, 65536, usize::MAX] {
        assert_eq!(parse_number(&n.to_string()).unwrap(), n);
        assert_eq!(parse_number(&format!("0x{n:X}")).unwrap(), n);
        assert_eq!(parse_number(&format!("0X{n:X}")).unwrap(), n);
        assert_eq!(parse_number(&format!("0x{n:x}")).unwrap(), n);
        assert_eq!(parse_number(&format!("0X{n:x}")).unwrap(), n);
    }
    assert!(parse_number("-0x1").is_err());
    assert!(parse_number("0X").is_err());
}

#[test]
fn device_text_is_shown_as_sent() {
    assert_eq!(latin1_string(&[0x41, 0xe9, 0x0a]), "A\u{e9}\n");
    assert_eq!(hex(&[0x00, 0xab, 0x7f]), "00ab7f");
    assert_eq!(
        clean_text_response("gx_otp tread 0 4", b"gx_otp tread 0 4\r\n 00 11 22 33 \r\n"),
        "00 11 22 33"
    );
    assert_eq!(clean_text_response("x", b"  no echo here \n"), "no echo here");
    assert_eq!(clean_text_response("a", b"a\n b \n\n c\r\n"), "b\n\nc");
}

#[test]
fn prompt_wait_consumes_prompt_and_following_space() {
    let mut session = Session::new(false);
    let mut wait = session.wait_for_prompt(2_000_000);
    match wait.step(&mut session, 0).unwrap() {
        PromptOutcome::Turn(turn) => assert!(turn.outputs.is_empty()),
        PromptOutcome::Arrived => panic!("no prompt was received"),
    }
    session.receive(b"noise boot> \r\n ~sta~");
    assert!(matches!(wait.step(&mut session, 1_000).unwrap(), PromptOutcome::Arrived));
    assert_eq!(session.pending(), b"~sta~");
}

#[test]
fn prompt_wait_pokes_once_after_silence() {
    let mut session = Session::new(false);
    let mut wait = session.wait_for_prompt(2_000_000);
    let mut sent = Vec::new();
    for now in [0, 100_000, 200_000, 300_000, 400_000] {
        if let PromptOutcome::Turn(turn) = wait.step(&mut session, now).unwrap() {
            for output in turn.outputs {
                if let Output::Send(bytes) = output {
                    sent.extend_from_slice(&bytes);
                }
            }
        }
    }
    assert_eq!(sent, b"\n");
    assert_eq!(
        wait.step(&mut session, 2_000_000).err(),
        Some("timeout waiting for boot> prompt".to_string())
    );
}

/// Runs an exchange against scripted device output with `tick` µs between
/// reads; gives the error it ends with.
fn drive_to_error(
    reads: &[&[u8]],
    session: &mut Session,
    tick: u64,
    mut step: impl FnMut(&mut Session, u64) -> Result<Turn, String>,
) -> String {
    let mut reads: VecDeque<Vec<u8>> = reads.iter().map(|data| data.to_vec()).collect();
    let mut now = 0u64;
    for _ in 0..100_000 {
        match step(session, now) {
            Err(error) => return error,
            Ok(turn) => match turn.next {
                Next::Finished => panic!("the exchange finished"),
                Next::Continue => {}
                Next::Receive { .. } => {
                    if let Some(data) = reads.pop_front() {
                        session.receive(&data);
                    }
                    now += tick;
                }
            },
        }
    }
    panic!("the exchange neither failed nor finished")
}

#[test]
fn text_command_gives_up_waiting_for_its_answer() {
    let mut session = Session::new(false);
    let mut text = session.text_command("flash badinfo", 3_000_000);
    let error = drive_to_error(&[b"boot>", b"flash badinfo\r\nworking"], &mut session, 500_000, |s, now| {
        text.step(s, now, None)
    });
    assert_eq!(error, "timeout waiting for marker 'boot>'");
}

#[test]
fn binary_read_reports_a_short_payload() {
    let mut session = Session::new(false);
    let mut read = session.binary_read("serialdump BOOT 4", 4).unwrap();
    let error = drive_to_error(
        &[b"boot>", b"serialdump BOOT 4\r\n~sta~", b"\x01\x02"],
        &mut session,
        10_000_000,
        |s, now| read.step(s, now, None),
    );
    assert_eq!(error, "timeout reading binary payload: received 2/4 bytes");
}

#[test]
fn binary_write_needs_the_echo_of_its_command() {
    let mut session = Session::new(false);
    let mut write = session.binary_write("gx_otp write 0 1", vec![7], 1_000_000, false).unwrap();
    let error = drive_to_error(&[b"boot>", b"something else"], &mut session, 1_000_000, |s, now| {
        write.step(s, now, None)
    });
    assert_eq!(error, "device did not echo command 'gx_otp write 0 1'");
}

#[test]
fn binary_write_gives_up_on_a_silent_loader() {
    let mut session = Session::new(false);
    let mut write = session.binary_write("serialdown LOGO 1", vec![7], 3_000_000, true).unwrap();
    let error = drive_to_error(
        &[b"boot>", b"serialdown LOGO 1\r\n~sta~", b"~crc~", b"~fin~"],
        &mut session,
        1_000_000,
        |s, now| write.step(s, now, None),
    );
    assert_eq!(error, "timeout waiting for device completion; last response: ~fin~");
}

#[test]
fn a_failed_read_ends_the_exchange_with_its_error() {
    let mut session = Session::new(false);
    let mut text = session.text_command("flash badinfo", 3_000_000);
    let error = text
        .step(&mut session, 0, Some("serial read failed: gone".to_string()))
        .unwrap_err();
    assert_eq!(error, "serial read failed: gone");

    let mut upload = session.boot(&boot_image(), false, false);
    let mut outcome = upload.step(&mut session, 0, None);
    while let Ok(Turn { next: Next::Continue, .. }) = outcome {
        outcome = upload.step(&mut session, 0, None);
    }
    let error = upload
        .step(&mut session, 0, Some("serial read failed: gone".to_string()))
        .unwrap_err();
    assert_eq!(error, "serial read failed: gone");
}

#[test]
fn runget_wait_gives_up_with_what_arrived() {
    let mut session = Session::new(false);
    let image = boot_image();
    let mut upload = session.boot(&image, false, false);
    let error = drive_to_error(&[&[0xb0, 0xb0, 0x58], b"R\x00N"], &mut session, 1_000_000, |s, now| {
        upload.step(s, now, None)
    });
    assert_eq!(error, "timeout waiting for RUNGET; received: R\u{0}N");
}

#[test]
fn reset_pulses_only_the_chosen_lines_at_the_start() {
    let signals = |dtr: bool, rts: bool| {
        let mut session = Session::new(false);
        session.receive(b"stale");
        let mut upload = session.boot(&boot_image(), dtr, rts);
        let turn = upload.step(&mut session, 0, None).unwrap();
        assert!(session.pending().is_empty());
        let lines: Vec<(ControlLine, bool)> = turn
            .outputs
            .into_iter()
            .filter_map(|output| match output {
                Output::Signal { line, level, .. } => Some((line, level)),
                _ => None,
            })
            .collect();
        let later = upload.step(&mut session, 0, None).unwrap();
        assert!(!later.outputs.iter().any(|output| matches!(output, Output::Signal { .. })));
        lines
    };
    assert!(signals(false, false).is_empty());
    assert_eq!(
        signals(true, false),
        [(ControlLine::Dtr, true), (ControlLine::Dtr, false)]
    );
    assert_eq!(
        signals(true, true),
        [
            (ControlLine::Dtr, true),
            (ControlLine::Dtr, false),
            (ControlLine::Rts, true),
            (ControlLine::Rts, false)
        ]
    );
}

#[test]
fn upload_opens_with_the_loader_banner() {
    let mut session = Session::new(false);
    let image = boot_image();
    let mut upload = session.boot(&image, false, false);
    let turn = upload.step(&mut session, 0, None).unwrap();
    let said: Vec<String> = turn
        .outputs
        .into_iter()
        .filter_map(|output| match output {
            Output::Say(line) => Some(line),
            _ => None,
        })
        .collect();
    assert_eq!(
        said,
        [
            "[+] Loaded boot loader: mock.boot (8224 bytes)",
            "    Version: 0x0001, Chip: 0x6701, Baud: 115200"
        ]
    );
}
