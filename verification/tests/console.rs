use gxdl_rs::commands::Command;
use gxdl_rs::console::{is_affirmative, progress_bar, report};
use gxdl_rs::serial::{loopback_payload, loopback_verdict};

#[test]
fn progress_bar_fills_in_proportion() {
    assert_eq!(progress_bar(0, 1024), (0, " ".repeat(28)));
    assert_eq!(
        progress_bar(512, 1024),
        (50, format!("{}{}", "=".repeat(14), " ".repeat(14)))
    );
    assert_eq!(progress_bar(1024, 1024), (100, "=".repeat(28)));
    assert_eq!(progress_bar(1, 3), (33, format!("{}{}", "=".repeat(9), " ".repeat(19))));
}

#[test]
fn progress_bar_of_an_empty_transfer_counts_against_one() {
    assert_eq!(progress_bar(0, 0), (0, " ".repeat(28)));
    assert_eq!(progress_bar(1, 0), (100, "=".repeat(28)));
}

#[test]
fn report_trims_the_answer_or_says_completed() {
    assert_eq!(report("Flash erase", "  \r\n "), "[+] Flash erase command completed");
    assert_eq!(report("USB dump", ""), "[+] USB dump command completed");
    assert_eq!(
        report("Flash bad block info", "\r\n bad blocks: 0 \r\n"),
        "[+] Flash bad block info:\nbad blocks: 0"
    );
}

#[test]
fn confirmation_accepts_y_and_yes_in_any_case() {
    for answer in ["y", "Y\n", " yes ", "YES\r\n", "yEs"] {
        assert!(is_affirmative(answer), "{answer:?}");
    }
    for answer in ["", "\n", "n", "no", "ye", "yess", "y es", "oui"] {
        assert!(!is_affirmative(answer), "{answer:?}");
    }
}

#[test]
fn loopback_accepts_only_the_text_sent() {
    let payload = loopback_payload();
    assert_eq!(payload, b"LOOPBACK_TEST_12345");
    assert_eq!(loopback_verdict(&payload), Ok(19));
    assert_eq!(
        loopback_verdict(b""),
        Err("loopback failed: sent 4c4f4f504241434b5f544553545f3132333435, received nothing".to_string())
    );
    assert_eq!(
        loopback_verdict(b"LOOP"),
        Err("loopback failed: sent 4c4f4f504241434b5f544553545f3132333435, received 4c4f4f50".to_string())
    );
    let mut corrupted = payload.clone();
    corrupted[18] = b'6';
    assert!(loopback_verdict(&corrupted).is_err());
}

#[test]
fn commands_announce_what_they_are_about_to_do() {
    let lines = |text: &str, input_len: usize| {
        Command::parse(text).unwrap().announcement(input_len)
    };
    assert_eq!(
        lines("serialdown LOGO logo.bin", 4096),
        ["[*] Downloading 4096 bytes to LOGO"]
    );
    assert_eq!(
        lines("usbdump KERNEL 2752512 kernel.bin", 0),
        ["[*] USB dump: KERNEL (2752512 bytes) -> kernel.bin"]
    );
    assert_eq!(
        lines("usbdown LOGO logo.bin", 0),
        [
            "[*] USB download: logo.bin -> LOGO",
            "[!] WARNING: This will erase and write flash"
        ]
    );
    assert_eq!(
        lines("gx_otp write 0x1f otp.bin", 64),
        ["[*] Writing 64 bytes to GX OTP at 0x1F"]
    );
    assert_eq!(
        lines("sflash_otp write 255 otp.bin", 8),
        ["[*] Writing 8 bytes to SPI flash OTP at 0xFF"]
    );
    assert_eq!(
        lines("sflash_otp erase", 0),
        ["[*] Erasing SPI flash OTP region (dangerous)"]
    );
    assert_eq!(
        lines("flash eraseall", 0),
        ["[!] WARNING: flash eraseall will erase all flash data and can brick the device"]
    );
    assert_eq!(
        lines("load_conf_down factory.conf serial /mnt", 0),
        ["[*] Loading config via serial: factory.conf (/mnt)"]
    );
    assert!(lines("flash badinfo", 0).is_empty());
    assert!(lines("serialdump BOOT 16 boot.bin", 0).is_empty());
}
