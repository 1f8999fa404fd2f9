use gxdl_rs::{GXUploader, GxUploader};

#[test]
fn uploader_builder_exposes_core_configuration() {
    let uploader = GxUploader::new("test-port").baudrate(230_400).verbose(true);
    assert_eq!(uploader.device(), "test-port");
    assert_eq!(uploader.configured_baudrate(), 230_400);
}

#[test]
fn uploader_defaults_and_each_setting() {
    let uploader: GXUploader = GxUploader::new("/dev/ttyUSB0");
    assert_eq!(uploader.configured_baudrate(), 115_200);
    assert!(!uploader.is_verbose());
    assert!(!uploader.pulses_dtr());
    assert!(!uploader.pulses_rts());
    assert!(!uploader.skips_warnings());
    let uploader = uploader
        .reset_dtr(true)
        .reset_rts(true)
        .skip_warnings(true)
        .verbose(true);
    assert!(uploader.pulses_dtr());
    assert!(uploader.pulses_rts());
    assert!(uploader.skips_warnings());
    assert!(uploader.is_verbose());
    assert_eq!(uploader.device(), "/dev/ttyUSB0");
    assert_eq!(uploader.configured_baudrate(), 115_200);
}
