use gxdl_rs::commands::{
    compare_contents, config_plan, parse_config_lines, Command, CommandError, CompareError, ConfigError,
    FlashCommand, GxOtpCommand, SflashOtpCommand, Step, Usage,
};

#[test]
fn parses_all_major_command_families() {
    assert!(matches!(
        Command::parse("serialdump BOOT 0x100 dump.bin").unwrap(),
        Command::SerialDump { size: 256, .. }
    ));
    assert!(matches!(
        Command::parse("gx_otp tread 0x10 32").unwrap(),
        Command::GxOtp(GxOtpCommand::Tread {
            address: 16,
            length: 32
        })
    ));
    assert!(matches!(
        Command::parse("flash erase nospread 0x0 4096").unwrap(),
        Command::Flash(FlashCommand::Erase {
            nospread: true,
            length: Some(4096),
            ..
        })
    ));
    assert!(Command::parse("sflash_otp wat").is_err());
}

#[test]
fn compare_reports_first_difference() {
    let error = compare_contents(&[1, 2, 3], &[1, 9, 3]).unwrap_err();
    assert_eq!(
        error,
        CompareError::Differ {
            offset: 1,
            left: 2,
            right: 9
        }
    );
    let message = error.message("first.bin", "second.bin");
    assert!(message.contains("offset 0x1"));
    assert_eq!(
        message,
        "files differ at offset 0x1: 'first.bin' has 0x02, 'second.bin' has 0x09"
    );
}

#[test]
fn compare_reports_size_and_identity() {
    let error = compare_contents(&[1, 2, 3], &[1, 2]).unwrap_err();
    assert_eq!(
        error.message("a", "b"),
        "files differ in size: 'a' is 3 bytes, 'b' is 2 bytes"
    );
    assert_eq!(compare_contents(&[7; 300], &[7; 300]).unwrap(), 300);
    let mut left = vec![0u8; 0x1000];
    let right = left.clone();
    left[0xabc] = 0xfe;
    assert_eq!(
        compare_contents(&left, &right).unwrap_err().message("l", "r"),
        "files differ at offset 0xABC: 'l' has 0xFE, 'r' has 0x00"
    );
}

#[test]
fn config_parser_includes_documented_usb_dump() {
    let text = "# comment\n\nusbdump BOOT 256 boot.bin\nflash badinfo\n";
    let lines: Vec<String> = text.lines().map(|line| line.to_string()).collect();
    let commands = parse_config_lines(&lines).unwrap();
    assert_eq!(commands.len(), 2);
    assert!(matches!(commands[0].1, Command::UsbDump { size: 256, .. }));
    assert!(matches!(
        commands[1].1,
        Command::Flash(FlashCommand::BadInfo)
    ));
    assert_eq!(commands[0].0, 3);
    assert_eq!(commands[1].0, 4);
}

#[test]
fn config_errors_name_the_line() {
    let lines = vec!["  # only comments".to_string(), "   ".to_string()];
    let empty = parse_config_lines(&lines).unwrap_err();
    assert_eq!(empty, ConfigError::Empty);
    assert_eq!(
        empty.message("x.conf"),
        "config 'x.conf' contains no commands"
    );
    let lines = vec!["flash badinfo".to_string(), "usbdump BOOT".to_string()];
    let error = parse_config_lines(&lines).unwrap_err();
    assert_eq!(
        error.message("x.conf"),
        "config line 2: 'usbdump' expects 3 argument(s), got 1"
    );
}

#[test]
fn surrounding_whitespace_does_not_change_a_command() {
    assert_eq!(
        Command::parse("  flash \t badinfo \n").unwrap(),
        Command::parse("flash badinfo").unwrap()
    );
}

#[test]
fn every_error_has_its_report() {
    assert_eq!(Command::parse("   ").unwrap_err(), CommandError::Empty);
    assert_eq!(Command::parse("").unwrap_err().message(), "empty command");
    assert_eq!(
        Command::parse("serialdown BOOT").unwrap_err().message(),
        "'serialdown' expects 2 argument(s), got 1"
    );
    assert_eq!(
        Command::parse("gx_otp read 1 2").unwrap_err().message(),
        "'gx_otp read' expects 3 argument(s), got 2"
    );
    assert_eq!(
        Command::parse("load_conf_down a").unwrap_err(),
        CommandError::Usage(Usage::LoadConfig)
    );
    assert_eq!(
        Command::parse("load_conf_down a").unwrap_err().message(),
        "usage: load_conf_down <config_file> <transport> [transport_path]"
    );
    assert_eq!(
        Command::parse("gx_otp").unwrap_err().message(),
        "usage: gx_otp <read|tread|write|twrite> ..."
    );
    assert_eq!(
        Command::parse("sflash_otp").unwrap_err().message(),
        "usage: sflash_otp <status|getregion|read|write|erase> ..."
    );
    assert_eq!(
        Command::parse("flash").unwrap_err().message(),
        "usage: flash <erase|badinfo|eraseall> ..."
    );
    assert_eq!(
        Command::parse("flash erase nospread").unwrap_err().message(),
        "usage: flash erase [nospread] <partition|address> [length]"
    );
    assert_eq!(
        Command::parse("reboot now").unwrap_err().message(),
        "unknown command 'reboot'; available: serialdump, serialdown, usbdump, usbdown, gx_otp, sflash_otp, flash, compare, load_conf_down"
    );
    assert_eq!(
        Command::parse("sflash_otp wat").unwrap_err().message(),
        "unknown sflash_otp subcommand 'wat'"
    );
    assert_eq!(
        Command::parse("flash wipe").unwrap_err().message(),
        "unknown flash subcommand 'wipe'"
    );
    assert_eq!(
        Command::parse("gx_otp tread zz 1").unwrap_err().message(),
        "invalid number 'zz' (expected decimal or 0x-prefixed hexadecimal)"
    );
}

#[test]
fn parses_remaining_commands() {
    assert_eq!(
        Command::parse("load_conf_down f.conf usb /mnt").unwrap(),
        Command::LoadConfig {
            config: "f.conf".to_string(),
            transport: "usb".to_string(),
            transport_path: Some("/mnt".to_string())
        }
    );
    assert_eq!(
        Command::parse("sflash_otp read 0 64 spi-otp.bin").unwrap(),
        Command::SflashOtp(SflashOtpCommand::Read {
            address: 0,
            length: 64,
            output: "spi-otp.bin".to_string()
        })
    );
    assert_eq!(
        Command::parse("gx_otp twrite 0 01234567").unwrap(),
        Command::GxOtp(GxOtpCommand::Twrite {
            address: 0,
            hex: "01234567".to_string()
        })
    );
    assert_eq!(
        Command::parse("flash erase LOGO").unwrap(),
        Command::Flash(FlashCommand::Erase {
            target: "LOGO".to_string(),
            length: None,
            nospread: false
        })
    );
    assert!(Command::parse("usbdown LOGO logo.bin")
        .unwrap()
        .allowed_in_config());
    assert!(!Command::parse("compare a b").unwrap().allowed_in_config());
}

#[test]
fn commands_become_wire_text() {
    let step = Command::parse("serialdump BOOT 0x100 dump.bin")
        .unwrap()
        .step(0, false);
    assert_eq!(
        step,
        Step::Read {
            wire: "serialdump BOOT 256".to_string(),
            size: 256,
            output: "dump.bin".to_string()
        }
    );
    let down = Command::parse("serialdown LOGO logo.bin").unwrap();
    assert_eq!(down.input_path().unwrap(), "logo.bin");
    assert_eq!(
        down.step(1234, false),
        Step::Write {
            wire: "serialdown LOGO 1234".to_string(),
            timeout_secs: 120,
            wait_for_reboot: true,
            label: "Serial download".to_string()
        }
    );
    assert_eq!(
        Command::parse("flash erase nospread 0x10000 65536")
            .unwrap()
            .step(0, false),
        Step::Text {
            wire: "flash erase nospread 0x10000 65536".to_string(),
            timeout_secs: 120,
            label: "Flash erase".to_string(),
            confirm: Some("This will erase 0x10000. Proceed with flash erase?".to_string())
        }
    );
    assert_eq!(
        Command::parse("flash eraseall").unwrap().step(0, true),
        Step::Text {
            wire: "flash eraseall".to_string(),
            timeout_secs: 300,
            label: "Flash eraseall".to_string(),
            confirm: None
        }
    );
    assert_eq!(
        Command::parse("usbdump KERNEL 2752512 kernel.bin")
            .unwrap()
            .step(0, false),
        Step::Text {
            wire: "usbdump KERNEL 2752512 kernel.bin".to_string(),
            timeout_secs: 120,
            label: "USB dump".to_string(),
            confirm: None
        }
    );
    assert_eq!(
        Command::parse("gx_otp write 0x10 otp.bin").unwrap().step(8, false),
        Step::Write {
            wire: "gx_otp write 16 8".to_string(),
            timeout_secs: 60,
            wait_for_reboot: false,
            label: "GX OTP write".to_string()
        }
    );
    assert_eq!(
        Command::parse("compare a b").unwrap().step(0, false),
        Step::Host
    );
}

#[test]
fn only_flash_erases_ask_for_confirmation() {
    let asks = |text: &str, yes: bool| {
        matches!(
            Command::parse(text).unwrap().step(16, yes),
            Step::Text { confirm: Some(_), .. }
        )
    };
    assert!(asks("flash erase LOGO", false));
    assert!(asks("flash eraseall", false));
    assert!(!asks("flash erase LOGO", true));
    assert!(!asks("flash eraseall", true));
    for text in [
        "flash badinfo",
        "serialdown LOGO logo.bin",
        "usbdown LOGO logo.bin",
        "gx_otp twrite 0 01234567",
        "gx_otp write 0 otp.bin",
        "sflash_otp erase",
        "sflash_otp write 0 otp.bin",
    ] {
        assert!(!asks(text, false), "{text}");
    }
}

#[test]
fn configuration_runs_up_to_its_first_refused_entry() {
    let entry = |line: usize, text: &str| (line, Command::parse(text).unwrap());
    let entries = vec![
        entry(1, "serialdown BOOT boot.bin"),
        entry(3, "flash erase DATA"),
        entry(4, "gx_otp tread 0 32"),
        entry(5, "usbdump LOGO 16 logo.bin"),
    ];
    assert_eq!(config_plan(&entries), (2, Some(4)));
    assert_eq!(config_plan(&entries[..2]), (2, None));
    assert_eq!(config_plan(&[]), (0, None));
    assert_eq!(config_plan(&[entry(7, "compare a b")]), (0, Some(7)));
}
