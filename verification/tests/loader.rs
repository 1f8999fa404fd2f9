use gxdl_rs::loader::embedded;
use gxdl_rs::loader::{embedded_names, resolve, BootImage, LoaderError, Resolved};

fn image() -> BootImage {
    let mut data = vec![0u8; 0x201c + 17];
    data[..4].copy_from_slice(b"toob");
    data[4..6].copy_from_slice(&1u16.to_le_bytes());
    data[6..8].copy_from_slice(&0x6701u16.to_le_bytes());
    data[8..12].copy_from_slice(&115_200u32.to_le_bytes());
    for (index, byte) in data[0x20..].iter_mut().enumerate() {
        *byte = index as u8;
    }
    BootImage::parse("test.boot".to_string(), data).unwrap()
}

#[test]
fn validates_header_and_builds_stage1() {
    let image = image();
    assert_eq!(image.version, 1);
    assert_eq!(image.chip, 0x6701);
    assert_eq!(image.baud, 115_200);
    assert_eq!(image.stage1_payload().len(), 8188);
    assert_eq!(image.stage1_transfer_size(), 0x2000);
    assert_eq!(image.stage1_header(), [0x59, 0x00, 0x08, 0x00, 0x00]);
}

#[test]
fn stage2_skips_header_and_has_valid_metadata() {
    let image = image();
    let (metadata, content) = image.stage2();
    assert_eq!(&content[..4], b"toob");
    assert_eq!(&content[4..8], &[0, 1, 2, 3]);
    assert_eq!(content.len(), image.len());
    assert_eq!(
        u32::from_le_bytes(metadata[4..8].try_into().unwrap()) as usize,
        image.len()
    );
    let sum = content
        .iter()
        .fold(0u32, |sum, byte| sum.wrapping_add(*byte as u32));
    assert_eq!(u32::from_le_bytes(metadata[..4].try_into().unwrap()), sum);
}

#[test]
fn stage1_layout_follows_chip_id() {
    for (chip, transfer_size) in [
        (0x6612, 0x4000),
        (0x6616, 0x2000),
        (0x3211, 0x2000),
        (0x6701, 0x2000),
        (0x6705, 0x2000),
        (0x6613, 0x1000),
    ] {
        let mut data = vec![0u8; 0x4020];
        data[..4].copy_from_slice(b"toob");
        data[6..8].copy_from_slice(&(chip as u16).to_le_bytes());
        let image = BootImage::parse(format!("{chip:x}.boot"), data).unwrap();
        assert_eq!(image.stage1_transfer_size(), transfer_size);
        let expected_payload = if chip == 0x6612 {
            transfer_size - 0x20
        } else {
            transfer_size - 4
        };
        assert_eq!(image.stage1_payload().len(), expected_payload);
        assert_eq!(
            u16::from_le_bytes([image.stage1_header()[1], image.stage1_header()[2]]),
            (transfer_size / 4) as u16
        );
    }
}

#[test]
fn embedded_loader_accepts_filename_and_stem() {
    let names = vec![
        "gemini-6702H5-sflash-24M.boot".to_string(),
        "sirius-6705-nand.boot".to_string(),
    ];
    assert!(!names.is_empty());
    let name = &names[0];
    let stem = name.strip_suffix(".boot").unwrap();
    assert_eq!(embedded::select(&names, name).unwrap(), *name);
    assert_eq!(embedded::select(&names, stem).unwrap(), *name);
}

#[test]
fn embedded_loader_error_explains_feature_requirement() {
    let error = embedded_names().unwrap_err();
    assert!(error.message().contains("--features embed-loaders"));
}

#[test]
fn short_image_is_refused_with_its_size() {
    let error = BootImage::parse("tiny.boot".to_string(), vec![0u8; 16]).unwrap_err();
    assert_eq!(
        error,
        LoaderError::TooSmall {
            name: "tiny.boot".to_string(),
            size: 16
        }
    );
    assert_eq!(
        error.message(),
        "boot loader 'tiny.boot' is too small: 16 bytes (need at least 4128)"
    );
}

#[test]
fn wrong_magic_is_refused() {
    let mut data = vec![0u8; 0x1020];
    data[..4].copy_from_slice(&[0x12, 0xab, 0x00, 0xff]);
    let error = BootImage::parse("x.boot".to_string(), data).unwrap_err();
    assert_eq!(
        error,
        LoaderError::BadMagic {
            magic: vec![0x12, 0xab, 0x00, 0xff]
        }
    );
    assert_eq!(error.message(), "invalid boot loader magic: [12, ab, 00, ff]");
}

#[test]
fn image_smaller_than_its_chip_transfer_is_refused() {
    let mut data = vec![0u8; 0x1020];
    data[..4].copy_from_slice(b"toob");
    data[6..8].copy_from_slice(&0x6612u16.to_le_bytes());
    let error = BootImage::parse("big.boot".to_string(), data).unwrap_err();
    assert_eq!(
        error.message(),
        "boot loader 'big.boot' is too small for chip 0x6612: 4128 bytes (need at least 16384)"
    );
}

#[test]
fn smallest_image_for_ordinary_chip_is_accepted() {
    let mut data = vec![0u8; 0x1020];
    data[..4].copy_from_slice(b"toob");
    data[6..8].copy_from_slice(&0x1234u16.to_le_bytes());
    let image = BootImage::parse("min.boot".to_string(), data).unwrap();
    assert_eq!(image.len(), 0x1020);
    assert!(!image.is_empty());
    assert_eq!(image.stage1_payload_end(), 0x101c);
    assert_eq!(image.stage1_payload().len(), 0xffc);
    let (metadata, content) = image.stage2();
    assert_eq!(&metadata[4..], &[0x20, 0x10, 0x00, 0x00]);
    assert_eq!(&content[4..], &[0u8; 0x101c][..]);
    let sum: u32 = b"toob".iter().map(|b| *b as u32).sum();
    assert_eq!(&metadata[..4], &sum.to_le_bytes());
}

#[test]
fn custom_file_takes_precedence_over_model() {
    match resolve(Some("a.boot"), Some("x")).unwrap() {
        Resolved::File(path) => assert_eq!(path, "a.boot"),
        Resolved::Embedded(_) => panic!("expected a file"),
    }
    assert_eq!(
        resolve(None, None).unwrap_err(),
        LoaderError::NoLoaderSelected
    );
    assert_eq!(
        resolve(None, None).unwrap_err().message(),
        "no boot loader was selected"
    );
    assert_eq!(
        resolve(None, Some("gemini")).unwrap_err(),
        LoaderError::EmbeddedUnavailable
    );
    assert!(embedded::load("gemini").is_err());
    assert!(embedded::names().is_err());
}

#[test]
fn catalogue_reports_missing_and_ambiguous_names() {
    let names = vec!["a.boot".to_string(), "a.boot.boot".to_string()];
    let missing = embedded::select(&names, "b").unwrap_err();
    assert_eq!(
        missing.message(),
        "embedded loader 'b' was not found; use --list-loaders"
    );
    let ambiguous = embedded::select(&names, "a.boot").unwrap_err();
    assert_eq!(
        ambiguous.message(),
        "embedded loader name 'a.boot' is ambiguous"
    );
    assert_eq!(embedded::select(&names, "a").unwrap(), "a.boot");
}
