//! Boot loader images: validating a `.boot` file and laying it out as the
//! BootROM's two upload stages.

pub mod embedded;

use vstd::prelude::*;
use crate::protocol::{append_bytes, lemma_wrapping_step};
use crate::text::{decimal, hex_lower_fixed, hex_upper_fixed, push_decimal, push_hex_fixed, push_str};

verus! {

/// The smallest image the BootROM protocol can carry.
pub const MIN_BOOT_SIZE: usize = 0x1020;

/// `toob`, the magic that opens every loader image.
pub open spec fn boot_magic() -> Seq<u8> {
    seq![116u8, 111, 111, 98]
}

/// Size of the Stage 1 transfer for a chip: its minimum image size too.
pub open spec fn transfer_size(chip: u16) -> nat {
    if chip == 0x6612 {
        0x4000
    } else if chip == 0x6616 || chip == 0x3211 || chip == 0x6701 || chip == 0x6705 {
        0x2000
    } else {
        0x1000
    }
}

/// Where the Stage 1 payload ends in the image (it starts at `0x20`).
pub open spec fn payload_end(chip: u16) -> nat {
    if chip == 0x6612 {
        transfer_size(chip)
    } else {
        (0x20 + transfer_size(chip) - 4) as nat
    }
}

pub open spec fn le_u16(lo: u8, hi: u8) -> u16 {
    (lo + 256 * hi) as u16
}

pub open spec fn le_u32(b0: u8, b1: u8, b2: u8, b3: u8) -> u32 {
    (b0 + 256 * b1 + 65536 * b2 + 16777216 * b3) as u32
}

/// The four little-endian bytes of a 32-bit value.
pub open spec fn le_bytes(x: u32) -> Seq<u8> {
    seq![
        (x % 256) as u8,
        ((x / 256) % 256) as u8,
        ((x / 65536) % 256) as u8,
        ((x / 16777216) % 256) as u8,
    ]
}

/// The Stage 1 header for a chip: `0x59`, the transfer's length in 32-bit
/// words (little-endian), two zero bytes.
pub open spec fn stage1_header_bytes(chip: u16) -> Seq<u8> {
    seq![
        0x59u8,
        ((transfer_size(chip) / 4) % 256) as u8,
        ((transfer_size(chip) / 4) / 256) as u8,
        0u8,
        0u8,
    ]
}

/// Sum of the bytes, without wrapping.
pub open spec fn byte_sum(s: Seq<u8>) -> nat
    decreases s.len(),
{
    if s.len() == 0 {
        0
    } else {
        byte_sum(s.drop_last()) + s.last() as nat
    }
}

/// The Stage 2 content of an image: its magic, then everything after the
/// 32-byte header, then zeros up to the image's size.
pub open spec fn stage2_content(data: Seq<u8>) -> Seq<u8> {
    data.take(4) + data.skip(0x20) + Seq::new(0x1c, |i: int| 0u8)
}

/// Stage 2 as sent: the content's wrapping byte sum and the image's size,
/// both 32-bit little-endian, then the content.
pub open spec fn stage2_bytes(data: Seq<u8>) -> Seq<u8> {
    le_bytes((byte_sum(stage2_content(data)) % 0x1_0000_0000) as u32) + le_bytes(data.len() as u32)
        + stage2_content(data)
}

/// Why a loader image could not be had.
#[derive(Clone, Debug, PartialEq, Eq)]
pub enum LoaderError {
    /// Smaller than the protocol's minimum.
    TooSmall { name: String, size: usize },
    /// Too large for the 32-bit size field of Stage 2.
    TooLarge { name: String },
    /// The first four bytes are not `toob`.
    BadMagic { magic: Vec<u8> },
    /// Smaller than its chip's Stage 1 transfer.
    TooSmallForChip { name: String, chip: u16, size: usize, required: usize },
    /// Neither a file nor a model was named.
    NoLoaderSelected,
    /// This build carries no loaders of its own.
    EmbeddedUnavailable,
    /// No carried loader has the requested name.
    EmbeddedNotFound { requested: String },
    /// More than one carried loader answers to the requested name.
    EmbeddedAmbiguous { requested: String },
}

/// `[..]` around the bytes, each as two lowercase hex digits, `, ` between:
/// what `{:02x?}` writes for a byte vector.
pub open spec fn hex_list(bytes: Seq<u8>) -> Seq<char>
    decreases bytes.len(),
{
    if bytes.len() == 0 {
        seq![]
    } else if bytes.len() == 1 {
        hex_lower_fixed(bytes[0] as nat, 2)
    } else {
        hex_list(bytes.drop_last()) + ", "@ + hex_lower_fixed(bytes.last() as nat, 2)
    }
}

fn push_hex_list(s: &mut String, bytes: &[u8])
    ensures
        final(s)@ == old(s)@ + hex_list(bytes@),
{
    let mut i: usize = 0;
    while i < bytes.len()
        invariant
            i <= bytes@.len(),
            s@ == old(s)@ + hex_list(bytes@.take(i as int)),
        decreases bytes@.len() - i,
    {
        let ghost before = s@;
        if i > 0 {
            push_str(s, ", ");
        }
        push_hex_fixed(s, bytes[i] as u64, 2, false);
        assert(bytes@.take(i + 1).drop_last() =~= bytes@.take(i as int));
        if i == 0 {
            assert(s@ =~= old(s)@ + hex_list(bytes@.take(1)));
        } else {
            assert(s@ =~= old(s)@ + hex_list(bytes@.take(i + 1)));
        }
        i += 1;
    }
    assert(bytes@.take(bytes@.len() as int) =~= bytes@);
}

impl LoaderError {
    /// The text that reports the error.
    pub open spec fn spec_message(&self) -> Seq<char> {
        match self {
            LoaderError::TooSmall { name, size } => "boot loader '"@ + name@ + "' is too small: "@
                + decimal(*size as nat) + " bytes (need at least 4128)"@,
            LoaderError::TooLarge { name } => "boot loader '"@ + name@
                + "' exceeds the protocol's 32-bit size field"@,
            LoaderError::BadMagic { magic } => "invalid boot loader magic: ["@ + hex_list(magic@)
                + "]"@,
            LoaderError::TooSmallForChip { name, chip, size, required } => "boot loader '"@ + name@
                + "' is too small for chip 0x"@ + hex_upper_fixed(*chip as nat, 4) + ": "@
                + decimal(*size as nat) + " bytes (need at least "@ + decimal(*required as nat)
                + ")"@,
            LoaderError::NoLoaderSelected => "no boot loader was selected"@,
            LoaderError::EmbeddedUnavailable =>
                "this build has no embedded loaders; rebuild with --features embed-loaders or use -b"@,
            LoaderError::EmbeddedNotFound { requested } => "embedded loader '"@ + requested@
                + "' was not found; use --list-loaders"@,
            LoaderError::EmbeddedAmbiguous { requested } => "embedded loader name '"@ + requested@
                + "' is ambiguous"@,
        }
    }

    pub fn message(&self) -> (r: String)
        ensures
            r@ == self.spec_message(),
    {
        let mut s = String::new();
        match self {
            LoaderError::TooSmall { name, size } => {
                push_str(&mut s, "boot loader '");
                push_str(&mut s, name.as_str());
                push_str(&mut s, "' is too small: ");
                push_decimal(&mut s, *size as u64);
                push_str(&mut s, " bytes (need at least 4128)");
            },
            LoaderError::TooLarge { name } => {
                push_str(&mut s, "boot loader '");
                push_str(&mut s, name.as_str());
                push_str(&mut s, "' exceeds the protocol's 32-bit size field");
            },
            LoaderError::BadMagic { magic } => {
                push_str(&mut s, "invalid boot loader magic: [");
                push_hex_list(&mut s, magic.as_slice());
                push_str(&mut s, "]");
            },
            LoaderError::TooSmallForChip { name, chip, size, required } => {
                push_str(&mut s, "boot loader '");
                push_str(&mut s, name.as_str());
                push_str(&mut s, "' is too small for chip 0x");
                push_hex_fixed(&mut s, *chip as u64, 4, true);
                push_str(&mut s, ": ");
                push_decimal(&mut s, *size as u64);
                push_str(&mut s, " bytes (need at least ");
                push_decimal(&mut s, *required as u64);
                push_str(&mut s, ")");
            },
            LoaderError::NoLoaderSelected => {
                push_str(&mut s, "no boot loader was selected");
            },
            LoaderError::EmbeddedUnavailable => {
                push_str(
                    &mut s,
                    "this build has no embedded loaders; rebuild with --features embed-loaders or use -b",
                );
            },
            LoaderError::EmbeddedNotFound { requested } => {
                push_str(&mut s, "embedded loader '");
                push_str(&mut s, requested.as_str());
                push_str(&mut s, "' was not found; use --list-loaders");
            },
            LoaderError::EmbeddedAmbiguous { requested } => {
                push_str(&mut s, "embedded loader name '");
                push_str(&mut s, requested.as_str());
                push_str(&mut s, "' is ambiguous");
            },
        }
        assert(s@ =~= self.spec_message());
        s
    }
}


/// A validated loader image and the fields of its header.
#[derive(Clone, Debug)]
pub struct BootImage {
    pub name: String,
    data: Vec<u8>,
    pub version: u16,
    pub chip: u16,
    pub baud: u32,
}

fn required_size(chip: u16) -> (r: usize)
    ensures
        r == transfer_size(chip),
{
    if chip == 0x6612 {
        0x4000
    } else if chip == 0x6616 || chip == 0x3211 || chip == 0x6701 || chip == 0x6705 {
        0x2000
    } else {
        0x1000
    }
}

fn read_u16(lo: u8, hi: u8) -> (r: u16)
    ensures
        r == le_u16(lo, hi),
{
    lo as u16 + hi as u16 * 256
}

pub fn read_u32(b0: u8, b1: u8, b2: u8, b3: u8) -> (r: u32)
    ensures
        r == le_u32(b0, b1, b2, b3),
{
    b0 as u32 + b1 as u32 * 256 + b2 as u32 * 65536 + b3 as u32 * 16777216
}

/// The four little-endian bytes of `x`.
pub fn u32_le_bytes(x: u32) -> (r: [u8; 4])
    ensures
        r@ == le_bytes(x),
{
    let r = [
        (x % 256) as u8,
        ((x / 256) % 256) as u8,
        ((x / 65536) % 256) as u8,
        ((x / 16777216) % 256) as u8,
    ];
    assert(r@ =~= le_bytes(x));
    r
}

/// What `BootImage::parse` refuses in an image named `name`, if anything.
pub open spec fn parse_fault(name: Seq<char>, data: Seq<u8>) -> Option<LoaderFault> {
    let chip = le_u16(data[6], data[7]);
    if data.len() < 0x1020 {
        Some(LoaderFault::TooSmall)
    } else if data.len() > u32::MAX {
        Some(LoaderFault::TooLarge)
    } else if data.take(4) != boot_magic() {
        Some(LoaderFault::BadMagic)
    } else if data.len() < transfer_size(chip) {
        Some(LoaderFault::TooSmallForChip)
    } else {
        None
    }
}

/// The kinds of refusal of `BootImage::parse`.
#[derive(Clone, Copy, Debug, PartialEq, Eq)]
pub enum LoaderFault {
    TooSmall,
    TooLarge,
    BadMagic,
    TooSmallForChip,
}

impl BootImage {
    /// The image's bytes.
    pub closed spec fn bytes(&self) -> Seq<u8> {
        self.data@
    }

    pub closed spec fn spec_name(&self) -> Seq<char> {
        self.name@
    }

    pub closed spec fn spec_version(&self) -> u16 {
        self.version
    }

    /// The chip the header names.
    pub closed spec fn spec_chip(&self) -> u16 {
        self.chip
    }

    pub closed spec fn spec_baud(&self) -> u32 {
        self.baud
    }

    /// The image passed `parse`'s checks for the chip it names.
    pub closed spec fn well_formed(&self) -> bool {
        &&& 0x1020 <= self.bytes().len() <= u32::MAX
        &&& self.bytes().len() >= transfer_size(self.chip)
    }

    /// Validates a loader image: at least 0x1020 bytes, small enough for a
    /// 32-bit size, `toob` magic, and as large as its chip's Stage 1
    /// transfer. The header gives the version (bytes 4..6), chip (6..8) and
    /// baud rate (8..12), little-endian.
    pub fn parse(name: String, data: Vec<u8>) -> (r: Result<BootImage, LoaderError>)
        ensures
            r is Ok <==> parse_fault(name@, data@) is None,
            r matches Ok(image) ==> {
                &&& image.well_formed()
                &&& image.bytes() == data@
                &&& image.spec_name() == name@
                &&& image.spec_version() == le_u16(data@[4], data@[5])
                &&& image.spec_chip() == le_u16(data@[6], data@[7])
                &&& image.spec_baud() == le_u32(data@[8], data@[9], data@[10], data@[11])
            },
            r matches Err(e) ==> match parse_fault(name@, data@) {
                Some(LoaderFault::TooSmall) => e == LoaderError::TooSmall {
                    name: e->TooSmall_name,
                    size: data.len(),
                } && e->TooSmall_name@ == name@,
                Some(LoaderFault::TooLarge) => e is TooLarge && e->TooLarge_name@ == name@,
                Some(LoaderFault::BadMagic) => e is BadMagic && e->BadMagic_magic@ == data@.take(4),
                Some(LoaderFault::TooSmallForChip) => e is TooSmallForChip
                    && e->TooSmallForChip_name@ == name@ && e->TooSmallForChip_chip == le_u16(
                    data@[6],
                    data@[7],
                ) && e->TooSmallForChip_size == data.len() && e->TooSmallForChip_required
                    == transfer_size(le_u16(data@[6], data@[7])),
                None => false,
            },
    {
        let len = data.len();
        if len < MIN_BOOT_SIZE {
            return Err(LoaderError::TooSmall { name, size: len });
        }
        if len > u32::MAX as usize {
            return Err(LoaderError::TooLarge { name });
        }
        if !(data[0] == 116 && data[1] == 111 && data[2] == 111 && data[3] == 98) {
            let magic = vstd::slice::slice_to_vec(vstd::slice::slice_subrange(data.as_slice(), 0, 4));
            assert(data@.take(4) != boot_magic()) by {
                if data@.take(4) == boot_magic() {
                    assert(data@.take(4)[0] == 116 && data@.take(4)[1] == 111);
                    assert(data@.take(4)[2] == 111 && data@.take(4)[3] == 98);
                }
            }
            return Err(LoaderError::BadMagic { magic });
        }
        assert(data@.take(4) =~= boot_magic());
        let chip = read_u16(data[6], data[7]);
        let required = required_size(chip);
        if len < required {
            return Err(LoaderError::TooSmallForChip { name, chip, size: len, required });
        }
        let version = read_u16(data[4], data[5]);
        let baud = read_u32(data[8], data[9], data[10], data[11]);
        Ok(BootImage { name, data, version, chip, baud })
    }

    pub fn name(&self) -> (r: &str)
        ensures
            r@ == self.spec_name(),
    {
        self.name.as_str()
    }

    pub fn version(&self) -> (r: u16)
        ensures
            r == self.spec_version(),
    {
        self.version
    }

    pub fn chip(&self) -> (r: u16)
        ensures
            r == self.spec_chip(),
    {
        self.chip
    }

    pub fn baud(&self) -> (r: u32)
        ensures
            r == self.spec_baud(),
    {
        self.baud
    }

    pub fn len(&self) -> (r: usize)
        ensures
            r == self.bytes().len(),
    {
        self.data.len()
    }

    pub fn is_empty(&self) -> (r: bool)
        ensures
            r == (self.bytes().len() == 0),
    {
        self.data.len() == 0
    }

    /// Size of the Stage 1 transfer: 0x4000 bytes for chip 0x6612, 0x2000
    /// for 0x6616, 0x3211, 0x6701 and 0x6705, 0x1000 for any other.
    pub fn stage1_transfer_size(&self) -> (r: usize)
        ensures
            r == transfer_size(self.spec_chip()),
    {
        required_size(self.chip)
    }

    /// Where the Stage 1 payload ends in the image.
    pub fn stage1_payload_end(&self) -> (r: usize)
        ensures
            r == payload_end(self.spec_chip()),
    {
        let size = required_size(self.chip);
        if self.chip == 0x6612 {
            size
        } else {
            0x20 + size - 4
        }
    }

    /// The Stage 1 payload: the image from offset 0x20 to `payload_end`.
    pub fn stage1_payload(&self) -> (r: &[u8])
        requires
            self.well_formed(),
            self.bytes().len() >= payload_end(self.spec_chip()),
        ensures
            r@ == self.bytes().subrange(0x20, payload_end(self.spec_chip()) as int),
    {
        let end = self.stage1_payload_end();
        vstd::slice::slice_subrange(self.data.as_slice(), 0x20, end)
    }

    /// The Stage 1 header: `0x59`, the transfer's length in 32-bit words
    /// (little-endian), then two zero bytes.
    pub fn stage1_header(&self) -> (r: [u8; 5])
        ensures
            r@ == seq![
                0x59u8,
                ((transfer_size(self.spec_chip()) / 4) % 256) as u8,
                ((transfer_size(self.spec_chip()) / 4) / 256) as u8,
                0u8,
                0u8,
            ],
    {
        let words = self.stage1_transfer_size() / 4;
        let r = [0x59u8, (words % 256) as u8, (words / 256) as u8, 0, 0];
        assert(r@ =~= seq![
            0x59u8,
            ((transfer_size(self.chip) / 4) % 256) as u8,
            ((transfer_size(self.chip) / 4) / 256) as u8,
            0u8,
            0u8,
        ]);
        r
    }

    /// Stage 2: the metadata (the wrapping byte sum of the content, then the
    /// image's size, both 32-bit little-endian) and the content (the magic,
    /// the image after its 32-byte header, zeros up to the image's size).
    pub fn stage2(&self) -> (r: ([u8; 8], Vec<u8>))
        requires
            self.well_formed(),
        ensures
            r.1@ == stage2_content(self.bytes()),
            r.1@.len() == self.bytes().len(),
            r.0@ == le_bytes((byte_sum(r.1@) % 0x1_0000_0000) as u32) + le_bytes(
                self.bytes().len() as u32,
            ),
    {
        let len = self.data.len();
        let mut content: Vec<u8> = Vec::with_capacity(len);
        append_bytes(&mut content, vstd::slice::slice_subrange(self.data.as_slice(), 0, 4));
        append_bytes(&mut content, vstd::slice::slice_subrange(self.data.as_slice(), 0x20, len));
        let ghost prefix = content@;
        while content.len() < len
            invariant
                len == self.bytes().len(),
                0x1020 <= len,
                prefix.len() == len - 0x1c,
                prefix.len() <= content@.len() <= len,
                content@.subrange(0, prefix.len() as int) == prefix,
                forall|i: int| prefix.len() <= i < content@.len() ==> content@[i] == 0u8,
            decreases len - content@.len(),
        {
            content.push(0);
        }
        assert(content@ =~= stage2_content(self.bytes()));
        let mut sum: u32 = 0;
        let mut i: usize = 0;
        assert(content@.take(0) =~= Seq::<u8>::empty());
        while i < content.len()
            invariant
                i <= content@.len(),
                sum == (byte_sum(content@.take(i as int)) % 0x1_0000_0000) as u32,
            decreases content@.len() - i,
        {
            assert(content@.take(i + 1).drop_last() =~= content@.take(i as int));
            proof {
                lemma_wrapping_step(byte_sum(content@.take(i as int)), content@[i as int] as nat);
            }
            sum = sum.wrapping_add(content[i] as u32);
            i += 1;
        }
        assert(content@.take(content@.len() as int) =~= content@);
        let a = u32_le_bytes(sum);
        let b = u32_le_bytes(len as u32);
        let metadata = [a[0], a[1], a[2], a[3], b[0], b[1], b[2], b[3]];
        assert(metadata@ =~= a@ + b@);
        (metadata, content)
    }
}


/// Where the loader to upload comes from.
#[derive(Clone, Debug)]
pub enum Resolved {
    /// A `.boot` file to read from the host's disk.
    File(String),
    /// A loader carried by the executable.
    Embedded(BootImage),
}

/// Chooses the loader: a custom file takes precedence over a model; a model
/// is looked up among the carried loaders; naming neither is an error.
pub fn resolve(custom: Option<&str>, model: Option<&str>) -> (r: Result<Resolved, LoaderError>)
    ensures
        custom matches Some(path) ==> (r matches Ok(Resolved::File(p)) && p@ == path@),
        custom is None && model is None ==> r == Err::<Resolved, LoaderError>(
            LoaderError::NoLoaderSelected,
        ),
        custom is None && model is Some ==> r == Err::<Resolved, LoaderError>(
            LoaderError::EmbeddedUnavailable,
        ),
{
    if let Some(path) = custom {
        return Ok(Resolved::File(String::from_str(path)));
    }
    match model {
        None => Err(LoaderError::NoLoaderSelected),
        Some(model) => match embedded::load(model) {
            Ok(image) => Ok(Resolved::Embedded(image)),
            Err(e) => Err(e),
        },
    }
}

/// The names of the loaders this executable carries.
pub fn embedded_names() -> (r: Result<Vec<String>, LoaderError>)
    ensures
        r == Err::<Vec<String>, LoaderError>(LoaderError::EmbeddedUnavailable),
{
    embedded::names()
}

} // verus!
