//! The command line of the uploader, as plain values, and the rules on which
//! options an operation needs.

use vstd::prelude::*;
use crate::commands::{result_view, spec_parse, Command, CommandError, CommandErrorView, CommandView};
use crate::text::push_str;

verus! {

/// How the session with the device starts.
#[derive(Clone, Copy, Debug, PartialEq, Eq)]
pub enum TransferMode {
    /// Upload a loader through the BootROM.
    S,
    /// Use a loader that is already at its `boot>` prompt.
    Nns,
}

/// The options of the uploader's command line.
#[derive(Clone, Debug, PartialEq, Eq)]
pub struct Cli {
    /// Custom `.boot` loader file; takes precedence over `model`.
    pub boot: Option<String>,
    /// Embedded loader filename, or that name without `.boot`.
    pub model: Option<String>,
    /// Serial device, for example `/dev/ttyUSB0` or `COM3`.
    pub device: Option<String>,
    /// Bootloader command and its arguments.
    pub command: Option<String>,
    pub transfer_mode: TransferMode,
    /// Skip flash erase confirmation prompts.
    pub yes: bool,
    /// UART baud rate.
    pub baud: u32,
    /// Print protocol diagnostics.
    pub verbose: bool,
    /// Pulse DTR before waiting for the BootROM handshake.
    pub reset_dtr: bool,
    /// Pulse RTS before waiting for the BootROM handshake.
    pub reset_rts: bool,
    /// Test a physical TX-to-RX loopback instead of contacting a device.
    pub loopback_test: bool,
    /// List loaders compiled into this executable.
    pub list_loaders: bool,
}

/// An operation that lacks an option it needs.
#[derive(Clone, Copy, Debug, PartialEq, Eq)]
pub enum CliError {
    LoopbackNeedsDevice,
    DeviceRequired,
    LoaderRequired,
}

impl CliError {
    pub open spec fn spec_message(&self) -> Seq<char> {
        match self {
            CliError::LoopbackNeedsDevice => "--loopback-test requires -d/--device"@,
            CliError::DeviceRequired => "this operation requires -d/--device"@,
            CliError::LoaderRequired => "transfer mode 's' requires -b/--boot or -m/--model"@,
        }
    }

    /// The text that reports the error.
    pub fn message(&self) -> (r: String)
        ensures
            r@ == self.spec_message(),
    {
        let mut s = String::new();
        match self {
            CliError::LoopbackNeedsDevice => push_str(&mut s, "--loopback-test requires -d/--device"),
            CliError::DeviceRequired => push_str(&mut s, "this operation requires -d/--device"),
            CliError::LoaderRequired => push_str(
                &mut s,
                "transfer mode 's' requires -b/--boot or -m/--model",
            ),
        }
        assert(s@ =~= self.spec_message());
        s
    }
}

/// What `Cli::validate` finds missing, if anything: listing loaders needs
/// nothing; a loopback test needs a device; comparing files needs nothing;
/// everything else needs a device, and uploading also a loader.
pub open spec fn missing_option(cli: Cli, command: Option<CommandView>) -> Option<CliError> {
    if cli.list_loaders {
        None
    } else if cli.loopback_test {
        if cli.device is None {
            Some(CliError::LoopbackNeedsDevice)
        } else {
            None
        }
    } else if command matches Some(CommandView::Compare { .. }) {
        None
    } else if cli.device is None {
        Some(CliError::DeviceRequired)
    } else if cli.transfer_mode == TransferMode::S && cli.boot is None && cli.model is None {
        Some(CliError::LoaderRequired)
    } else {
        None
    }
}

impl Cli {
    /// The bootloader command given with `-c`, read.
    pub fn parsed_command(&self) -> (r: Result<Option<Command>, CommandError>)
        ensures
            self.command is None ==> r matches Ok(None),
            self.command matches Some(text) ==> match r {
                Ok(Some(c)) => spec_parse(text@) == Ok::<CommandView, CommandErrorView>(c@),
                Err(e) => spec_parse(text@) == Err::<CommandView, CommandErrorView>(e@),
                Ok(None) => false,
            },
    {
        match &self.command {
            None => Ok(None),
            Some(text) => {
                let r = Command::parse(text.as_str());
                assert(result_view(r) == spec_parse(text@));
                match r {
                    Ok(c) => Ok(Some(c)),
                    Err(e) => Err(e),
                }
            },
        }
    }

    /// Checks that the options the operation needs are there.
    pub fn validate(&self, command: Option<&Command>) -> (r: Result<(), CliError>)
        ensures
            match missing_option(
                *self,
                match command {
                    Some(c) => Some(c@),
                    None => None,
                },
            ) {
                None => r is Ok,
                Some(e) => r == Err::<(), CliError>(e),
            },
    {
        if self.list_loaders {
            return Ok(());
        }
        if self.loopback_test {
            if self.device.is_none() {
                return Err(CliError::LoopbackNeedsDevice);
            }
            return Ok(());
        }
        if let Some(Command::Compare { .. }) = command {
            return Ok(());
        }
        if self.device.is_none() {
            return Err(CliError::DeviceRequired);
        }
        let upload = match self.transfer_mode {
            TransferMode::S => true,
            TransferMode::Nns => false,
        };
        if upload && self.boot.is_none() && self.model.is_none() {
            return Err(CliError::LoaderRequired);
        }
        Ok(())
    }
}

} // verus!
