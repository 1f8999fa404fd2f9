//! Configuration of an upload: the device and how to talk to it.

use vstd::prelude::*;

verus! {

/// What a [`GxUploader`] is configured with.
pub struct UploaderView {
    pub device: Seq<char>,
    pub baudrate: u32,
    pub verbose: bool,
    pub reset_dtr: bool,
    pub reset_rts: bool,
    pub skip_warnings: bool,
}

/// High-level configuration for a GX device, set with builder methods.
#[derive(Clone, Debug)]
pub struct GxUploader {
    device: String,
    baudrate: u32,
    verbose: bool,
    reset_dtr: bool,
    reset_rts: bool,
    skip_warnings: bool,
}

/// The uploader under its all-capitals name.
pub type GXUploader = GxUploader;

impl View for GxUploader {
    type V = UploaderView;

    closed spec fn view(&self) -> UploaderView {
        UploaderView {
            device: self.device@,
            baudrate: self.baudrate,
            verbose: self.verbose,
            reset_dtr: self.reset_dtr,
            reset_rts: self.reset_rts,
            skip_warnings: self.skip_warnings,
        }
    }
}

impl GxUploader {
    /// An uploader for a serial device at 115200 baud, quiet, pulsing no
    /// control line and asking before flash erases.
    pub fn new(device: &str) -> (r: Self)
        ensures
            r@ == (UploaderView {
                device: device@,
                baudrate: 115_200,
                verbose: false,
                reset_dtr: false,
                reset_rts: false,
                skip_warnings: false,
            }),
    {
        GxUploader {
            device: String::from_str(device),
            baudrate: 115_200,
            verbose: false,
            reset_dtr: false,
            reset_rts: false,
            skip_warnings: false,
        }
    }

    /// Overrides the UART baud rate.
    pub fn baudrate(self, baudrate: u32) -> (r: Self)
        ensures
            r@ == (UploaderView { baudrate, ..self@ }),
    {
        GxUploader { baudrate, ..self }
    }

    /// Enables or disables protocol diagnostics.
    pub fn verbose(self, verbose: bool) -> (r: Self)
        ensures
            r@ == (UploaderView { verbose, ..self@ }),
    {
        GxUploader { verbose, ..self }
    }

    /// Whether DTR is pulsed before BootROM synchronization.
    pub fn reset_dtr(self, enabled: bool) -> (r: Self)
        ensures
            r@ == (UploaderView { reset_dtr: enabled, ..self@ }),
    {
        GxUploader { reset_dtr: enabled, ..self }
    }

    /// Whether RTS is pulsed before BootROM synchronization.
    pub fn reset_rts(self, enabled: bool) -> (r: Self)
        ensures
            r@ == (UploaderView { reset_rts: enabled, ..self@ }),
    {
        GxUploader { reset_rts: enabled, ..self }
    }

    /// Whether the confirmation prompts of flash erases are skipped.
    pub fn skip_warnings(self, enabled: bool) -> (r: Self)
        ensures
            r@ == (UploaderView { skip_warnings: enabled, ..self@ }),
    {
        GxUploader { skip_warnings: enabled, ..self }
    }

    pub fn device(&self) -> (r: &str)
        ensures
            r@ == self@.device,
    {
        self.device.as_str()
    }

    pub fn configured_baudrate(&self) -> (r: u32)
        ensures
            r == self@.baudrate,
    {
        self.baudrate
    }

    pub fn is_verbose(&self) -> (r: bool)
        ensures
            r == self@.verbose,
    {
        self.verbose
    }

    pub fn pulses_dtr(&self) -> (r: bool)
        ensures
            r == self@.reset_dtr,
    {
        self.reset_dtr
    }

    pub fn pulses_rts(&self) -> (r: bool)
        ensures
            r == self@.reset_rts,
    {
        self.reset_rts
    }

    pub fn skips_warnings(&self) -> (r: bool)
        ensures
            r == self@.skip_warnings,
    {
        self.skip_warnings
    }
}

} // verus!
