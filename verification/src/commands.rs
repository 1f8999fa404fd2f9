//! Bootloader commands: reading a command line into a [`Command`], and what
//! each command asks of the loader.

use vstd::prelude::*;
use crate::protocol::{law_decimal_reads_back, parse_number, spec_parse_number, NumberError, NumberFault};
use crate::text::{
    decimal, hex_upper, hex_upper_fixed, push_decimal, push_hex_fixed, push_hex_upper, push_str,
    split_words, string_views, trim, trim_chars, chars_of, string_from_chars, words,
    law_trim_keeps_words, is_word, spaced, lemma_words_spaced, lemma_decimal_is_word,
};

verus! {

/// A bootloader command, or one of the host's own.
#[derive(Clone, Debug, PartialEq, Eq)]
pub enum Command {
    SerialDump { target: String, size: usize, output: String },
    SerialDown { target: String, input: String },
    UsbDump { target: String, size: usize, filename: String },
    UsbDown { target: String, filename: String },
    GxOtp(GxOtpCommand),
    SflashOtp(SflashOtpCommand),
    Flash(FlashCommand),
    Compare { source: String, destination: String },
    LoadConfig { config: String, transport: String, transport_path: Option<String> },
}

#[derive(Clone, Debug, PartialEq, Eq)]
pub enum GxOtpCommand {
    Read { address: usize, length: usize, output: String },
    Tread { address: usize, length: usize },
    Write { address: usize, input: String },
    Twrite { address: usize, hex: String },
}

#[derive(Clone, Debug, PartialEq, Eq)]
pub enum SflashOtpCommand {
    Status,
    GetRegion,
    Read { address: usize, length: usize, output: String },
    Write { address: usize, input: String },
    Erase,
}

#[derive(Clone, Debug, PartialEq, Eq)]
pub enum FlashCommand {
    Erase { target: String, length: Option<usize>, nospread: bool },
    BadInfo,
    EraseAll,
}

/// A [`Command`] with its texts as character sequences.
pub enum CommandView {
    SerialDump { target: Seq<char>, size: usize, output: Seq<char> },
    SerialDown { target: Seq<char>, input: Seq<char> },
    UsbDump { target: Seq<char>, size: usize, filename: Seq<char> },
    UsbDown { target: Seq<char>, filename: Seq<char> },
    GxOtp(GxOtpView),
    SflashOtp(SflashOtpView),
    Flash(FlashView),
    Compare { source: Seq<char>, destination: Seq<char> },
    LoadConfig { config: Seq<char>, transport: Seq<char>, transport_path: Option<Seq<char>> },
}

pub enum GxOtpView {
    Read { address: usize, length: usize, output: Seq<char> },
    Tread { address: usize, length: usize },
    Write { address: usize, input: Seq<char> },
    Twrite { address: usize, hex: Seq<char> },
}

pub enum SflashOtpView {
    Status,
    GetRegion,
    Read { address: usize, length: usize, output: Seq<char> },
    Write { address: usize, input: Seq<char> },
    Erase,
}

pub enum FlashView {
    Erase { target: Seq<char>, length: Option<usize>, nospread: bool },
    BadInfo,
    EraseAll,
}

pub open spec fn opt_view(o: Option<String>) -> Option<Seq<char>> {
    match o {
        Some(s) => Some(s@),
        None => None,
    }
}

impl View for GxOtpCommand {
    type V = GxOtpView;

    open spec fn view(&self) -> GxOtpView {
        match self {
            GxOtpCommand::Read { address, length, output } => GxOtpView::Read {
                address: *address,
                length: *length,
                output: output@,
            },
            GxOtpCommand::Tread { address, length } => GxOtpView::Tread {
                address: *address,
                length: *length,
            },
            GxOtpCommand::Write { address, input } => GxOtpView::Write {
                address: *address,
                input: input@,
            },
            GxOtpCommand::Twrite { address, hex } => GxOtpView::Twrite {
                address: *address,
                hex: hex@,
            },
        }
    }
}

impl View for SflashOtpCommand {
    type V = SflashOtpView;

    open spec fn view(&self) -> SflashOtpView {
        match self {
            SflashOtpCommand::Status => SflashOtpView::Status,
            SflashOtpCommand::GetRegion => SflashOtpView::GetRegion,
            SflashOtpCommand::Read { address, length, output } => SflashOtpView::Read {
                address: *address,
                length: *length,
                output: output@,
            },
            SflashOtpCommand::Write { address, input } => SflashOtpView::Write {
                address: *address,
                input: input@,
            },
            SflashOtpCommand::Erase => SflashOtpView::Erase,
        }
    }
}

impl View for FlashCommand {
    type V = FlashView;

    open spec fn view(&self) -> FlashView {
        match self {
            FlashCommand::Erase { target, length, nospread } => FlashView::Erase {
                target: target@,
                length: *length,
                nospread: *nospread,
            },
            FlashCommand::BadInfo => FlashView::BadInfo,
            FlashCommand::EraseAll => FlashView::EraseAll,
        }
    }
}

impl View for Command {
    type V = CommandView;

    open spec fn view(&self) -> CommandView {
        match self {
            Command::SerialDump { target, size, output } => CommandView::SerialDump {
                target: target@,
                size: *size,
                output: output@,
            },
            Command::SerialDown { target, input } => CommandView::SerialDown {
                target: target@,
                input: input@,
            },
            Command::UsbDump { target, size, filename } => CommandView::UsbDump {
                target: target@,
                size: *size,
                filename: filename@,
            },
            Command::UsbDown { target, filename } => CommandView::UsbDown {
                target: target@,
                filename: filename@,
            },
            Command::GxOtp(c) => CommandView::GxOtp(c@),
            Command::SflashOtp(c) => CommandView::SflashOtp(c@),
            Command::Flash(c) => CommandView::Flash(c@),
            Command::Compare { source, destination } => CommandView::Compare {
                source: source@,
                destination: destination@,
            },
            Command::LoadConfig { config, transport, transport_path } => CommandView::LoadConfig {
                config: config@,
                transport: transport@,
                transport_path: opt_view(*transport_path),
            },
        }
    }
}

/// The usage line that a malformed command is answered with.
#[derive(Clone, Copy, Debug, PartialEq, Eq)]
pub enum Usage {
    LoadConfig,
    GxOtp,
    SflashOtp,
    Flash,
    FlashErase,
}

/// A command with subcommands.
#[derive(Clone, Copy, Debug, PartialEq, Eq)]
pub enum Family {
    GxOtp,
    SflashOtp,
    Flash,
}

/// Why a command line was refused.
#[derive(Clone, Debug, PartialEq, Eq)]
pub enum CommandError {
    /// The line holds no word.
    Empty,
    /// A (sub)command got the wrong number of arguments.
    ArgCount { command: String, expected: usize, got: usize },
    /// A command's arguments do not fit its usage.
    Usage(Usage),
    UnknownCommand { name: String },
    UnknownSubcommand { family: Family, name: String },
    /// An argument that must be a number is not one.
    Number(NumberError),
}

pub enum CommandErrorView {
    Empty,
    ArgCount { command: Seq<char>, expected: usize, got: nat },
    Usage(Usage),
    UnknownCommand { name: Seq<char> },
    UnknownSubcommand { family: Family, name: Seq<char> },
    Number { fault: NumberFault, value: Seq<char> },
}

impl View for CommandError {
    type V = CommandErrorView;

    open spec fn view(&self) -> CommandErrorView {
        match self {
            CommandError::Empty => CommandErrorView::Empty,
            CommandError::ArgCount { command, expected, got } => CommandErrorView::ArgCount {
                command: command@,
                expected: *expected,
                got: *got as nat,
            },
            CommandError::Usage(u) => CommandErrorView::Usage(*u),
            CommandError::UnknownCommand { name } => CommandErrorView::UnknownCommand {
                name: name@,
            },
            CommandError::UnknownSubcommand { family, name } => CommandErrorView::UnknownSubcommand {
                family: *family,
                name: name@,
            },
            CommandError::Number(e) => CommandErrorView::Number { fault: e.fault, value: e.value@ },
        }
    }
}

// ---------------------------------------------------------------------
// What a command line means
// ---------------------------------------------------------------------

/// `args` has `count` words; otherwise the error that names `command`.
pub open spec fn spec_count(command: Seq<char>, args: Seq<Seq<char>>, count: usize) -> Option<
    CommandErrorView,
> {
    if args.len() == count {
        None
    } else {
        Some(CommandErrorView::ArgCount { command, expected: count, got: args.len() })
    }
}

/// A number argument.
pub open spec fn spec_number(s: Seq<char>) -> Result<usize, CommandErrorView> {
    match spec_parse_number(s) {
        Ok(n) => Ok(n),
        Err(fault) => Err(CommandErrorView::Number { fault, value: s }),
    }
}

/// What the words after `gx_otp` mean.
pub open spec fn spec_parse_gx_otp(args: Seq<Seq<char>>) -> Result<GxOtpView, CommandErrorView> {
    if args.len() == 0 {
        Err(CommandErrorView::Usage(Usage::GxOtp))
    } else {
        let name = args[0];
        let a = args.drop_first();
        if name == "read"@ {
            match spec_count("gx_otp read"@, a, 3) {
                Some(e) => Err(e),
                None => match spec_number(a[0]) {
                    Err(e) => Err(e),
                    Ok(address) => match spec_number(a[1]) {
                        Err(e) => Err(e),
                        Ok(length) => Ok(GxOtpView::Read { address, length, output: a[2] }),
                    },
                },
            }
        } else if name == "tread"@ {
            match spec_count("gx_otp tread"@, a, 2) {
                Some(e) => Err(e),
                None => match spec_number(a[0]) {
                    Err(e) => Err(e),
                    Ok(address) => match spec_number(a[1]) {
                        Err(e) => Err(e),
                        Ok(length) => Ok(GxOtpView::Tread { address, length }),
                    },
                },
            }
        } else if name == "write"@ {
            match spec_count("gx_otp write"@, a, 2) {
                Some(e) => Err(e),
                None => match spec_number(a[0]) {
                    Err(e) => Err(e),
                    Ok(address) => Ok(GxOtpView::Write { address, input: a[1] }),
                },
            }
        } else if name == "twrite"@ {
            match spec_count("gx_otp twrite"@, a, 2) {
                Some(e) => Err(e),
                None => match spec_number(a[0]) {
                    Err(e) => Err(e),
                    Ok(address) => Ok(GxOtpView::Twrite { address, hex: a[1] }),
                },
            }
        } else {
            Err(CommandErrorView::UnknownSubcommand { family: Family::GxOtp, name })
        }
    }
}

/// What the words after `sflash_otp` mean.
pub open spec fn spec_parse_sflash_otp(args: Seq<Seq<char>>) -> Result<
    SflashOtpView,
    CommandErrorView,
> {
    if args.len() == 0 {
        Err(CommandErrorView::Usage(Usage::SflashOtp))
    } else {
        let name = args[0];
        let a = args.drop_first();
        if name == "status"@ {
            match spec_count("sflash_otp status"@, a, 0) {
                Some(e) => Err(e),
                None => Ok(SflashOtpView::Status),
            }
        } else if name == "getregion"@ {
            match spec_count("sflash_otp getregion"@, a, 0) {
                Some(e) => Err(e),
                None => Ok(SflashOtpView::GetRegion),
            }
        } else if name == "read"@ {
            match spec_count("sflash_otp read"@, a, 3) {
                Some(e) => Err(e),
                None => match spec_number(a[0]) {
                    Err(e) => Err(e),
                    Ok(address) => match spec_number(a[1]) {
                        Err(e) => Err(e),
                        Ok(length) => Ok(SflashOtpView::Read { address, length, output: a[2] }),
                    },
                },
            }
        } else if name == "write"@ {
            match spec_count("sflash_otp write"@, a, 2) {
                Some(e) => Err(e),
                None => match spec_number(a[0]) {
                    Err(e) => Err(e),
                    Ok(address) => Ok(SflashOtpView::Write { address, input: a[1] }),
                },
            }
        } else if name == "erase"@ {
            match spec_count("sflash_otp erase"@, a, 0) {
                Some(e) => Err(e),
                None => Ok(SflashOtpView::Erase),
            }
        } else {
            Err(CommandErrorView::UnknownSubcommand { family: Family::SflashOtp, name })
        }
    }
}

/// What the words after `flash` mean.
pub open spec fn spec_parse_flash(args: Seq<Seq<char>>) -> Result<FlashView, CommandErrorView> {
    if args.len() == 0 {
        Err(CommandErrorView::Usage(Usage::Flash))
    } else {
        let name = args[0];
        let a = args.drop_first();
        if name == "erase"@ {
            let nospread = a.len() > 0 && a[0] == "nospread"@;
            let rest = if nospread {
                a.drop_first()
            } else {
                a
            };
            if !(1 <= rest.len() <= 2) {
                Err(CommandErrorView::Usage(Usage::FlashErase))
            } else if rest.len() == 2 {
                match spec_number(rest[1]) {
                    Err(e) => Err(e),
                    Ok(n) => Ok(FlashView::Erase { target: rest[0], length: Some(n), nospread }),
                }
            } else {
                Ok(FlashView::Erase { target: rest[0], length: None, nospread })
            }
        } else if name == "badinfo"@ {
            match spec_count("flash badinfo"@, a, 0) {
                Some(e) => Err(e),
                None => Ok(FlashView::BadInfo),
            }
        } else if name == "eraseall"@ {
            match spec_count("flash eraseall"@, a, 0) {
                Some(e) => Err(e),
                None => Ok(FlashView::EraseAll),
            }
        } else {
            Err(CommandErrorView::UnknownSubcommand { family: Family::Flash, name })
        }
    }
}

/// What a command line's words mean.
pub open spec fn spec_parse_words(w: Seq<Seq<char>>) -> Result<CommandView, CommandErrorView> {
    if w.len() == 0 {
        Err(CommandErrorView::Empty)
    } else {
        let name = w[0];
        let a = w.drop_first();
        if name == "serialdump"@ {
            match spec_count(name, a, 3) {
                Some(e) => Err(e),
                None => match spec_number(a[1]) {
                    Err(e) => Err(e),
                    Ok(size) => Ok(CommandView::SerialDump { target: a[0], size, output: a[2] }),
                },
            }
        } else if name == "serialdown"@ {
            match spec_count(name, a, 2) {
                Some(e) => Err(e),
                None => Ok(CommandView::SerialDown { target: a[0], input: a[1] }),
            }
        } else if name == "usbdump"@ {
            match spec_count(name, a, 3) {
                Some(e) => Err(e),
                None => match spec_number(a[1]) {
                    Err(e) => Err(e),
                    Ok(size) => Ok(CommandView::UsbDump { target: a[0], size, filename: a[2] }),
                },
            }
        } else if name == "usbdown"@ {
            match spec_count(name, a, 2) {
                Some(e) => Err(e),
                None => Ok(CommandView::UsbDown { target: a[0], filename: a[1] }),
            }
        } else if name == "gx_otp"@ {
            match spec_parse_gx_otp(a) {
                Ok(c) => Ok(CommandView::GxOtp(c)),
                Err(e) => Err(e),
            }
        } else if name == "sflash_otp"@ {
            match spec_parse_sflash_otp(a) {
                Ok(c) => Ok(CommandView::SflashOtp(c)),
                Err(e) => Err(e),
            }
        } else if name == "flash"@ {
            match spec_parse_flash(a) {
                Ok(c) => Ok(CommandView::Flash(c)),
                Err(e) => Err(e),
            }
        } else if name == "compare"@ {
            match spec_count(name, a, 2) {
                Some(e) => Err(e),
                None => Ok(CommandView::Compare { source: a[0], destination: a[1] }),
            }
        } else if name == "load_conf_down"@ {
            if !(2 <= a.len() <= 3) {
                Err(CommandErrorView::Usage(Usage::LoadConfig))
            } else {
                Ok(
                    CommandView::LoadConfig {
                        config: a[0],
                        transport: a[1],
                        transport_path: if a.len() == 3 {
                            Some(a[2])
                        } else {
                            None
                        },
                    },
                )
            }
        } else {
            Err(CommandErrorView::UnknownCommand { name })
        }
    }
}

/// What a command line means: its whitespace-separated words, read as a
/// command.
pub open spec fn spec_parse(input: Seq<char>) -> Result<CommandView, CommandErrorView> {
    spec_parse_words(words(input))
}

pub open spec fn result_view<T: View, E: View>(r: Result<T, E>) -> Result<T::V, E::V> {
    match r {
        Ok(t) => Ok(t@),
        Err(e) => Err(e@),
    }
}


fn word_is(w: &String, lit: &str) -> (b: bool)
    ensures
        b == (w@ == lit@),
{
    *w == String::from_str(lit)
}

fn rest_of(args: &[String]) -> (r: &[String])
    requires
        args@.len() > 0,
    ensures
        string_views(r@) == string_views(args@).drop_first(),
{
    let r = vstd::slice::slice_subrange(args, 1, args.len());
    assert(string_views(r@) =~= string_views(args@).drop_first());
    r
}

/// Checks that a (sub)command got `count` arguments.
fn require_count(command: &str, args: &[String], count: usize) -> (r: Result<(), CommandError>)
    ensures
        match spec_count(command@, string_views(args@), count) {
            None => r is Ok,
            Some(e) => r matches Err(x) && x@ == e,
        },
{
    if args.len() == count {
        Ok(())
    } else {
        Err(CommandError::ArgCount { command: String::from_str(command), expected: count, got: args.len() })
    }
}

fn number(arg: &String) -> (r: Result<usize, CommandError>)
    ensures
        result_view(r) == spec_number(arg@),
{
    match parse_number(arg.as_str()) {
        Ok(n) => Ok(n),
        Err(e) => Err(CommandError::Number(e)),
    }
}

impl GxOtpCommand {
    fn parse(args: &[String]) -> (r: Result<Self, CommandError>)
        ensures
            result_view(r) == spec_parse_gx_otp(string_views(args@)),
    {
        if args.len() == 0 {
            return Err(CommandError::Usage(Usage::GxOtp));
        }
        let name = &args[0];
        let a = rest_of(args);
        let ghost v = string_views(a@);
        assert(v.len() == a@.len());
        if word_is(name, "read") {
            require_count("gx_otp read", a, 3)?;
            assert(v[0] == a@[0]@ && v[1] == a@[1]@ && v[2] == a@[2]@);
            let address = number(&a[0])?;
            let length = number(&a[1])?;
            Ok(GxOtpCommand::Read { address, length, output: a[2].clone() })
        } else if word_is(name, "tread") {
            require_count("gx_otp tread", a, 2)?;
            assert(v[0] == a@[0]@ && v[1] == a@[1]@);
            let address = number(&a[0])?;
            let length = number(&a[1])?;
            Ok(GxOtpCommand::Tread { address, length })
        } else if word_is(name, "write") {
            require_count("gx_otp write", a, 2)?;
            assert(v[0] == a@[0]@ && v[1] == a@[1]@);
            let address = number(&a[0])?;
            Ok(GxOtpCommand::Write { address, input: a[1].clone() })
        } else if word_is(name, "twrite") {
            require_count("gx_otp twrite", a, 2)?;
            assert(v[0] == a@[0]@ && v[1] == a@[1]@);
            let address = number(&a[0])?;
            Ok(GxOtpCommand::Twrite { address, hex: a[1].clone() })
        } else {
            Err(CommandError::UnknownSubcommand { family: Family::GxOtp, name: name.clone() })
        }
    }
}


impl SflashOtpCommand {
    fn parse(args: &[String]) -> (r: Result<Self, CommandError>)
        ensures
            result_view(r) == spec_parse_sflash_otp(string_views(args@)),
    {
        if args.len() == 0 {
            return Err(CommandError::Usage(Usage::SflashOtp));
        }
        let name = &args[0];
        let a = rest_of(args);
        let ghost v = string_views(a@);
        assert(v.len() == a@.len());
        if word_is(name, "status") {
            require_count("sflash_otp status", a, 0)?;
            Ok(SflashOtpCommand::Status)
        } else if word_is(name, "getregion") {
            require_count("sflash_otp getregion", a, 0)?;
            Ok(SflashOtpCommand::GetRegion)
        } else if word_is(name, "read") {
            require_count("sflash_otp read", a, 3)?;
            assert(v[0] == a@[0]@ && v[1] == a@[1]@ && v[2] == a@[2]@);
            let address = number(&a[0])?;
            let length = number(&a[1])?;
            Ok(SflashOtpCommand::Read { address, length, output: a[2].clone() })
        } else if word_is(name, "write") {
            require_count("sflash_otp write", a, 2)?;
            assert(v[0] == a@[0]@ && v[1] == a@[1]@);
            let address = number(&a[0])?;
            Ok(SflashOtpCommand::Write { address, input: a[1].clone() })
        } else if word_is(name, "erase") {
            require_count("sflash_otp erase", a, 0)?;
            Ok(SflashOtpCommand::Erase)
        } else {
            Err(CommandError::UnknownSubcommand { family: Family::SflashOtp, name: name.clone() })
        }
    }
}

impl FlashCommand {
    fn parse(args: &[String]) -> (r: Result<Self, CommandError>)
        ensures
            result_view(r) == spec_parse_flash(string_views(args@)),
    {
        if args.len() == 0 {
            return Err(CommandError::Usage(Usage::Flash));
        }
        let name = &args[0];
        let a = rest_of(args);
        let ghost v = string_views(a@);
        assert(v.len() == a@.len());
        if word_is(name, "erase") {
            let nospread = a.len() > 0 && word_is(&a[0], "nospread");
            assert(a@.len() > 0 ==> v[0] == a@[0]@);
            let rest = if nospread {
                rest_of(a)
            } else {
                a
            };
            let ghost rv = string_views(rest@);
            assert(rv.len() == rest@.len());
            if !(1 <= rest.len() && rest.len() <= 2) {
                return Err(CommandError::Usage(Usage::FlashErase));
            }
            assert(rv[0] == rest@[0]@);
            let length = if rest.len() == 2 {
                assert(rv[1] == rest@[1]@);
                Some(number(&rest[1])?)
            } else {
                None
            };
            Ok(FlashCommand::Erase { target: rest[0].clone(), length, nospread })
        } else if word_is(name, "badinfo") {
            require_count("flash badinfo", a, 0)?;
            Ok(FlashCommand::BadInfo)
        } else if word_is(name, "eraseall") {
            require_count("flash eraseall", a, 0)?;
            Ok(FlashCommand::EraseAll)
        } else {
            Err(CommandError::UnknownSubcommand { family: Family::Flash, name: name.clone() })
        }
    }
}

/// A configuration file may hold serial and USB transfers and flash
/// management.
pub open spec fn config_allows(c: CommandView) -> bool {
    c is SerialDump || c is SerialDown || c is UsbDump || c is UsbDown || c is Flash
}

impl Command {
    /// Reads a command line: its words separated on whitespace, so that no
    /// argument can hold whitespace.
    pub fn parse(input: &str) -> (r: Result<Self, CommandError>)
        ensures
            result_view(r) == spec_parse(input@),
    {
        let parts = split_words(input);
        Self::parse_words(parts.as_slice())
    }

    fn parse_words(w: &[String]) -> (r: Result<Self, CommandError>)
        ensures
            result_view(r) == spec_parse_words(string_views(w@)),
    {
        if w.len() == 0 {
            return Err(CommandError::Empty);
        }
        let name = &w[0];
        let args = rest_of(w);
        let ghost v = string_views(args@);
        assert(v.len() == args@.len());
        assert(string_views(w@)[0] == name@);
        if word_is(name, "serialdump") {
            require_count(name.as_str(), args, 3)?;
            assert(v[0] == args@[0]@ && v[1] == args@[1]@ && v[2] == args@[2]@);
            let size = number(&args[1])?;
            Ok(Command::SerialDump { target: args[0].clone(), size, output: args[2].clone() })
        } else if word_is(name, "serialdown") {
            require_count(name.as_str(), args, 2)?;
            assert(v[0] == args@[0]@ && v[1] == args@[1]@);
            Ok(Command::SerialDown { target: args[0].clone(), input: args[1].clone() })
        } else if word_is(name, "usbdump") {
            require_count(name.as_str(), args, 3)?;
            assert(v[0] == args@[0]@ && v[1] == args@[1]@ && v[2] == args@[2]@);
            let size = number(&args[1])?;
            Ok(Command::UsbDump { target: args[0].clone(), size, filename: args[2].clone() })
        } else if word_is(name, "usbdown") {
            require_count(name.as_str(), args, 2)?;
            assert(v[0] == args@[0]@ && v[1] == args@[1]@);
            Ok(Command::UsbDown { target: args[0].clone(), filename: args[1].clone() })
        } else if word_is(name, "gx_otp") {
            Ok(Command::GxOtp(GxOtpCommand::parse(args)?))
        } else if word_is(name, "sflash_otp") {
            Ok(Command::SflashOtp(SflashOtpCommand::parse(args)?))
        } else if word_is(name, "flash") {
            Ok(Command::Flash(FlashCommand::parse(args)?))
        } else if word_is(name, "compare") {
            require_count(name.as_str(), args, 2)?;
            assert(v[0] == args@[0]@ && v[1] == args@[1]@);
            Ok(Command::Compare { source: args[0].clone(), destination: args[1].clone() })
        } else if word_is(name, "load_conf_down") {
            if !(2 <= args.len() && args.len() <= 3) {
                return Err(CommandError::Usage(Usage::LoadConfig));
            }
            assert(v[0] == args@[0]@ && v[1] == args@[1]@);
            let transport_path = if args.len() == 3 {
                assert(v[2] == args@[2]@);
                Some(args[2].clone())
            } else {
                None
            };
            Ok(
                Command::LoadConfig {
                    config: args[0].clone(),
                    transport: args[1].clone(),
                    transport_path,
                },
            )
        } else {
            Err(CommandError::UnknownCommand { name: name.clone() })
        }
    }

    /// Commands that a configuration file may hold: serial and USB
    /// transfers and flash management.
    pub fn allowed_in_config(&self) -> (b: bool)
        ensures
            b == config_allows(self@),
    {
        match self {
            Command::SerialDump { .. } | Command::SerialDown { .. } | Command::UsbDump { .. }
            | Command::UsbDown { .. } | Command::Flash(_) => true,
            _ => false,
        }
    }
}


// ---------------------------------------------------------------------
// What a command asks of the loader
// ---------------------------------------------------------------------

/// The exchange with the loader that carries out a command.
#[derive(Clone, Debug, PartialEq, Eq)]
pub enum Step {
    /// The host does the work; nothing is sent.
    Host,
    /// Send `wire`, then receive `size` bytes for the file `output`.
    Read { wire: String, size: usize, output: String },
    /// Send `wire`, then the input file's bytes and their checksum; wait up
    /// to `timeout_secs` for the loader to finish, through a reboot if
    /// `wait_for_reboot`.
    Write { wire: String, timeout_secs: u64, wait_for_reboot: bool, label: String },
    /// Send `wire` and wait up to `timeout_secs` for the prompt; when
    /// `confirm` holds a question, ask the user it first.
    Text { wire: String, timeout_secs: u64, label: String, confirm: Option<String> },
    /// Run the commands of a configuration file.
    Config { config: String, transport: String, transport_path: Option<String> },
}

pub enum StepView {
    Host,
    Read { wire: Seq<char>, size: usize, output: Seq<char> },
    Write { wire: Seq<char>, timeout_secs: u64, wait_for_reboot: bool, label: Seq<char> },
    Text { wire: Seq<char>, timeout_secs: u64, label: Seq<char>, confirm: Option<Seq<char>> },
    Config { config: Seq<char>, transport: Seq<char>, transport_path: Option<Seq<char>> },
}

impl View for Step {
    type V = StepView;

    open spec fn view(&self) -> StepView {
        match self {
            Step::Host => StepView::Host,
            Step::Read { wire, size, output } => StepView::Read {
                wire: wire@,
                size: *size,
                output: output@,
            },
            Step::Write { wire, timeout_secs, wait_for_reboot, label } => StepView::Write {
                wire: wire@,
                timeout_secs: *timeout_secs,
                wait_for_reboot: *wait_for_reboot,
                label: label@,
            },
            Step::Text { wire, timeout_secs, label, confirm } => StepView::Text {
                wire: wire@,
                timeout_secs: *timeout_secs,
                label: label@,
                confirm: opt_view(*confirm),
            },
            Step::Config { config, transport, transport_path } => StepView::Config {
                config: config@,
                transport: transport@,
                transport_path: opt_view(*transport_path),
            },
        }
    }
}

pub open spec fn text_step(wire: Seq<char>, timeout_secs: u64, label: Seq<char>) -> StepView {
    StepView::Text { wire, timeout_secs, label, confirm: None }
}

/// The wire text of `flash erase`.
pub open spec fn flash_erase_wire(target: Seq<char>, length: Option<usize>, nospread: bool) -> Seq<
    char,
> {
    "flash erase"@ + (if nospread {
        " nospread"@
    } else {
        Seq::<char>::empty()
    }) + " "@ + target + match length {
        Some(n) => " "@ + decimal(n as nat),
        None => Seq::<char>::empty(),
    }
}

/// The exchange for `command`; `input_len` is the size of its input file
/// when it sends one, `yes` skips the confirmation of flash erases.
pub open spec fn spec_step(command: CommandView, input_len: usize, yes: bool) -> StepView {
    match command {
        CommandView::SerialDump { target, size, output } => StepView::Read {
            wire: "serialdump "@ + target + " "@ + decimal(size as nat),
            size,
            output,
        },
        CommandView::SerialDown { target, input } => StepView::Write {
            wire: "serialdown "@ + target + " "@ + decimal(input_len as nat),
            timeout_secs: 120,
            wait_for_reboot: true,
            label: "Serial download"@,
        },
        CommandView::UsbDump { target, size, filename } => text_step(
            "usbdump "@ + target + " "@ + decimal(size as nat) + " "@ + filename,
            120,
            "USB dump"@,
        ),
        CommandView::UsbDown { target, filename } => text_step(
            "usbdown "@ + target + " "@ + filename,
            300,
            "USB download"@,
        ),
        CommandView::GxOtp(c) => match c {
            GxOtpView::Read { address, length, output } => StepView::Read {
                wire: "gx_otp read "@ + decimal(address as nat) + " "@ + decimal(length as nat),
                size: length,
                output,
            },
            GxOtpView::Tread { address, length } => text_step(
                "gx_otp tread "@ + decimal(address as nat) + " "@ + decimal(length as nat),
                5,
                "GX OTP data"@,
            ),
            GxOtpView::Write { address, input } => StepView::Write {
                wire: "gx_otp write "@ + decimal(address as nat) + " "@ + decimal(input_len as nat),
                timeout_secs: 60,
                wait_for_reboot: false,
                label: "GX OTP write"@,
            },
            GxOtpView::Twrite { address, hex } => text_step(
                "gx_otp twrite "@ + decimal(address as nat) + " "@ + hex,
                30,
                "GX OTP twrite"@,
            ),
        },
        CommandView::SflashOtp(c) => match c {
            SflashOtpView::Status => text_step("sflash_otp status"@, 5, "SPI flash OTP"@),
            SflashOtpView::GetRegion => text_step("sflash_otp getregion"@, 5, "SPI flash OTP"@),
            SflashOtpView::Read { address, length, output } => StepView::Read {
                wire: "sflash_otp read "@ + decimal(address as nat) + " "@ + decimal(length as nat),
                size: length,
                output,
            },
            SflashOtpView::Write { address, input } => StepView::Write {
                wire: "sflash_otp write "@ + decimal(address as nat) + " "@ + decimal(
                    input_len as nat,
                ),
                timeout_secs: 60,
                wait_for_reboot: false,
                label: "SPI flash OTP write"@,
            },
            SflashOtpView::Erase => text_step("sflash_otp erase"@, 30, "SPI flash OTP erase"@),
        },
        CommandView::Flash(c) => match c {
            FlashView::Erase { target, length, nospread } => StepView::Text {
                wire: flash_erase_wire(target, length, nospread),
                timeout_secs: 120,
                label: "Flash erase"@,
                confirm: if yes {
                    None
                } else {
                    Some("This will erase "@ + target + ". Proceed with flash erase?"@)
                },
            },
            FlashView::BadInfo => text_step("flash badinfo"@, 10, "Flash bad block info"@),
            FlashView::EraseAll => StepView::Text {
                wire: "flash eraseall"@,
                timeout_secs: 300,
                label: "Flash eraseall"@,
                confirm: if yes {
                    None
                } else {
                    Some("Proceed with flash eraseall?"@)
                },
            },
        },
        CommandView::Compare { .. } => StepView::Host,
        CommandView::LoadConfig { config, transport, transport_path } => StepView::Config {
            config,
            transport,
            transport_path,
        },
    }
}

fn string_of(s: &str) -> (r: String)
    ensures
        r@ == s@,
{
    String::from_str(s)
}

fn text(wire: String, timeout_secs: u64, label: &str) -> (r: Step)
    ensures
        r@ == text_step(wire@, timeout_secs, label@),
{
    Step::Text { wire, timeout_secs, label: string_of(label), confirm: None }
}

/// `prefix`, then two numbers separated by a space.
fn wire_two_numbers(prefix: &str, a: usize, b: usize) -> (r: String)
    ensures
        r@ == prefix@ + decimal(a as nat) + " "@ + decimal(b as nat),
{
    let mut s = string_of(prefix);
    push_decimal(&mut s, a as u64);
    push_str(&mut s, " ");
    push_decimal(&mut s, b as u64);
    s
}

impl Command {
    /// The input file whose bytes the command sends, if it sends one.
    pub fn input_path(&self) -> (r: Option<&String>)
        ensures
            r matches Some(p) ==> match self {
                Command::SerialDown { input, .. } => p@ == input@,
                Command::GxOtp(GxOtpCommand::Write { input, .. }) => p@ == input@,
                Command::SflashOtp(SflashOtpCommand::Write { input, .. }) => p@ == input@,
                _ => false,
            },
            r is None ==> !(self is SerialDown) && !(self matches Command::GxOtp(
                GxOtpCommand::Write { .. },
            )) && !(self matches Command::SflashOtp(SflashOtpCommand::Write { .. })),
    {
        match self {
            Command::SerialDown { input, .. } => Some(input),
            Command::GxOtp(GxOtpCommand::Write { input, .. }) => Some(input),
            Command::SflashOtp(SflashOtpCommand::Write { input, .. }) => Some(input),
            _ => None,
        }
    }

    /// The exchange with the loader that carries out this command. `input_len`
    /// is the size of the input file for a command that sends one; `yes`
    /// skips the confirmation of flash erases.
    pub fn step(&self, input_len: usize, yes: bool) -> (r: Step)
        ensures
            r@ == spec_step(self@, input_len, yes),
    {
        match self {
            Command::SerialDump { target, size, output } => {
                let mut wire = string_of("serialdump ");
                push_str(&mut wire, target.as_str());
                push_str(&mut wire, " ");
                push_decimal(&mut wire, *size as u64);
                Step::Read { wire, size: *size, output: output.clone() }
            },
            Command::SerialDown { target, .. } => {
                let mut wire = string_of("serialdown ");
                push_str(&mut wire, target.as_str());
                push_str(&mut wire, " ");
                push_decimal(&mut wire, input_len as u64);
                Step::Write {
                    wire,
                    timeout_secs: 120,
                    wait_for_reboot: true,
                    label: string_of("Serial download"),
                }
            },
            Command::UsbDump { target, size, filename } => {
                let mut wire = string_of("usbdump ");
                push_str(&mut wire, target.as_str());
                push_str(&mut wire, " ");
                push_decimal(&mut wire, *size as u64);
                push_str(&mut wire, " ");
                push_str(&mut wire, filename.as_str());
                text(wire, 120, "USB dump")
            },
            Command::UsbDown { target, filename } => {
                let mut wire = string_of("usbdown ");
                push_str(&mut wire, target.as_str());
                push_str(&mut wire, " ");
                push_str(&mut wire, filename.as_str());
                text(wire, 300, "USB download")
            },
            Command::GxOtp(c) => match c {
                GxOtpCommand::Read { address, length, output } => Step::Read {
                    wire: wire_two_numbers("gx_otp read ", *address, *length),
                    size: *length,
                    output: output.clone(),
                },
                GxOtpCommand::Tread { address, length } => text(
                    wire_two_numbers("gx_otp tread ", *address, *length),
                    5,
                    "GX OTP data",
                ),
                GxOtpCommand::Write { address, .. } => Step::Write {
                    wire: wire_two_numbers("gx_otp write ", *address, input_len),
                    timeout_secs: 60,
                    wait_for_reboot: false,
                    label: string_of("GX OTP write"),
                },
                GxOtpCommand::Twrite { address, hex } => {
                    let mut wire = string_of("gx_otp twrite ");
                    push_decimal(&mut wire, *address as u64);
                    push_str(&mut wire, " ");
                    push_str(&mut wire, hex.as_str());
                    text(wire, 30, "GX OTP twrite")
                },
            },
            Command::SflashOtp(c) => match c {
                SflashOtpCommand::Status => text(string_of("sflash_otp status"), 5, "SPI flash OTP"),
                SflashOtpCommand::GetRegion => text(
                    string_of("sflash_otp getregion"),
                    5,
                    "SPI flash OTP",
                ),
                SflashOtpCommand::Read { address, length, output } => Step::Read {
                    wire: wire_two_numbers("sflash_otp read ", *address, *length),
                    size: *length,
                    output: output.clone(),
                },
                SflashOtpCommand::Write { address, .. } => Step::Write {
                    wire: wire_two_numbers("sflash_otp write ", *address, input_len),
                    timeout_secs: 60,
                    wait_for_reboot: false,
                    label: string_of("SPI flash OTP write"),
                },
                SflashOtpCommand::Erase => text(
                    string_of("sflash_otp erase"),
                    30,
                    "SPI flash OTP erase",
                ),
            },
            Command::Flash(c) => match c {
                FlashCommand::Erase { target, length, nospread } => {
                    let mut wire = string_of("flash erase");
                    if *nospread {
                        push_str(&mut wire, " nospread");
                    }
                    push_str(&mut wire, " ");
                    push_str(&mut wire, target.as_str());
                    if let Some(length) = length {
                        push_str(&mut wire, " ");
                        push_decimal(&mut wire, *length as u64);
                    }
                    let confirm = if yes {
                        None
                    } else {
                        let mut q = string_of("This will erase ");
                        push_str(&mut q, target.as_str());
                        push_str(&mut q, ". Proceed with flash erase?");
                        Some(q)
                    };
                    assert(wire@ =~= flash_erase_wire(target@, *length, *nospread));
                    Step::Text { wire, timeout_secs: 120, label: string_of("Flash erase"), confirm }
                },
                FlashCommand::BadInfo => text(string_of("flash badinfo"), 10, "Flash bad block info"),
                FlashCommand::EraseAll => {
                    let confirm = if yes {
                        None
                    } else {
                        Some(string_of("Proceed with flash eraseall?"))
                    };
                    Step::Text {
                        wire: string_of("flash eraseall"),
                        timeout_secs: 300,
                        label: string_of("Flash eraseall"),
                        confirm,
                    }
                },
            },
            Command::Compare { .. } => Step::Host,
            Command::LoadConfig { config, transport, transport_path } => Step::Config {
                config: config.clone(),
                transport: transport.clone(),
                transport_path: match transport_path {
                    Some(p) => Some(p.clone()),
                    None => None,
                },
            },
        }
    }
}


/// The lines that a command shows before its exchange begins; `input_len`
/// is the size of its input file when it sends one.
pub open spec fn spec_announcement(command: CommandView, input_len: usize) -> Seq<Seq<char>> {
    match command {
        CommandView::SerialDown { target, .. } => seq![
            "[*] Downloading "@ + decimal(input_len as nat) + " bytes to "@ + target,
        ],
        CommandView::UsbDump { target, size, filename } => seq![
            "[*] USB dump: "@ + target + " ("@ + decimal(size as nat) + " bytes) -> "@ + filename,
        ],
        CommandView::UsbDown { target, filename } => seq![
            "[*] USB download: "@ + filename + " -> "@ + target,
            "[!] WARNING: This will erase and write flash"@,
        ],
        CommandView::GxOtp(GxOtpView::Write { address, .. }) => seq![
            "[*] Writing "@ + decimal(input_len as nat) + " bytes to GX OTP at 0x"@ + hex_upper(
                address as nat,
            ),
        ],
        CommandView::SflashOtp(SflashOtpView::Write { address, .. }) => seq![
            "[*] Writing "@ + decimal(input_len as nat) + " bytes to SPI flash OTP at 0x"@
                + hex_upper(address as nat),
        ],
        CommandView::SflashOtp(SflashOtpView::Erase) => seq![
            "[*] Erasing SPI flash OTP region (dangerous)"@,
        ],
        CommandView::Flash(FlashView::EraseAll) => seq![
            "[!] WARNING: flash eraseall will erase all flash data and can brick the device"@,
        ],
        CommandView::LoadConfig { config, transport, transport_path } => seq![
            "[*] Loading config via "@ + transport + ": "@ + config + match transport_path {
                Some(p) => " ("@ + p + ")"@,
                None => Seq::<char>::empty(),
            },
        ],
        _ => Seq::<Seq<char>>::empty(),
    }
}

fn one_line(line: String) -> (r: Vec<String>)
    ensures
        string_views(r@) == seq![line@],
{
    let mut r: Vec<String> = Vec::new();
    r.push(line);
    assert(string_views(r@) =~= seq![line@]);
    r
}

impl Command {
    /// The lines that this command shows before its exchange begins;
    /// `input_len` is the size of its input file when it sends one.
    pub fn announcement(&self, input_len: usize) -> (r: Vec<String>)
        ensures
            string_views(r@) == spec_announcement(self@, input_len),
    {
        match self {
            Command::SerialDown { target, .. } => {
                let mut m = string_of("[*] Downloading ");
                push_decimal(&mut m, input_len as u64);
                push_str(&mut m, " bytes to ");
                push_str(&mut m, target.as_str());
                assert(m@ == "[*] Downloading "@ + decimal(input_len as nat) + " bytes to "@ + target@);
                one_line(m)
            },
            Command::UsbDump { target, size, filename } => {
                let mut m = string_of("[*] USB dump: ");
                push_str(&mut m, target.as_str());
                push_str(&mut m, " (");
                push_decimal(&mut m, *size as u64);
                push_str(&mut m, " bytes) -> ");
                push_str(&mut m, filename.as_str());
                assert(m@ == "[*] USB dump: "@ + target@ + " ("@ + decimal(*size as nat) + " bytes) -> "@
                    + filename@);
                one_line(m)
            },
            Command::UsbDown { target, filename } => {
                let mut m = string_of("[*] USB download: ");
                push_str(&mut m, filename.as_str());
                push_str(&mut m, " -> ");
                push_str(&mut m, target.as_str());
                let warning = string_of("[!] WARNING: This will erase and write flash");
                let ghost (first, second) = (m@, warning@);
                let mut r: Vec<String> = Vec::new();
                r.push(m);
                r.push(warning);
                assert(string_views(r@)[0] == first && string_views(r@)[1] == second);
                assert(string_views(r@) =~= spec_announcement(self@, input_len));
                r
            },
            Command::GxOtp(GxOtpCommand::Write { address, .. }) => {
                let mut m = string_of("[*] Writing ");
                push_decimal(&mut m, input_len as u64);
                push_str(&mut m, " bytes to GX OTP at 0x");
                push_hex_upper(&mut m, *address as u64);
                assert(m@ == "[*] Writing "@ + decimal(input_len as nat) + " bytes to GX OTP at 0x"@
                    + hex_upper(*address as nat));
                one_line(m)
            },
            Command::SflashOtp(SflashOtpCommand::Write { address, .. }) => {
                let mut m = string_of("[*] Writing ");
                push_decimal(&mut m, input_len as u64);
                push_str(&mut m, " bytes to SPI flash OTP at 0x");
                push_hex_upper(&mut m, *address as u64);
                assert(m@ == "[*] Writing "@ + decimal(input_len as nat) + " bytes to SPI flash OTP at 0x"@
                    + hex_upper(*address as nat));
                one_line(m)
            },
            Command::SflashOtp(SflashOtpCommand::Erase) => one_line(
                string_of("[*] Erasing SPI flash OTP region (dangerous)"),
            ),
            Command::Flash(FlashCommand::EraseAll) => one_line(
                string_of(
                    "[!] WARNING: flash eraseall will erase all flash data and can brick the device",
                ),
            ),
            Command::LoadConfig { config, transport, transport_path } => {
                let mut m = string_of("[*] Loading config via ");
                push_str(&mut m, transport.as_str());
                push_str(&mut m, ": ");
                push_str(&mut m, config.as_str());
                if let Some(p) = transport_path {
                    push_str(&mut m, " (");
                    push_str(&mut m, p.as_str());
                    push_str(&mut m, ")");
                }
                assert(m@ == "[*] Loading config via "@ + transport@ + ": "@ + config@ + match opt_view(
                    *transport_path,
                ) {
                    Some(p) => " ("@ + p + ")"@,
                    None => Seq::<char>::empty(),
                });
                one_line(m)
            },
            _ => {
                let r: Vec<String> = Vec::new();
                assert(string_views(r@) =~= spec_announcement(self@, input_len));
                r
            },
        }
    }
}


// ---------------------------------------------------------------------
// Configuration files
// ---------------------------------------------------------------------

/// A configuration line that holds no command: blank, or a `#` comment.
pub open spec fn is_skipped(line: Seq<char>) -> bool {
    let t = trim(line);
    t.len() == 0 || t[0] == '#'
}

/// The commands of `lines[i..]`, each with its line number (counting from
/// one), or the first line that is not a command, with its error.
pub open spec fn config_from(lines: Seq<Seq<char>>, i: nat) -> Result<
    Seq<(nat, CommandView)>,
    (nat, CommandErrorView),
>
    decreases lines.len() - i,
{
    if i >= lines.len() {
        Ok(seq![])
    } else if is_skipped(lines[i as int]) {
        config_from(lines, i + 1)
    } else {
        match spec_parse(trim(lines[i as int])) {
            Err(e) => Err((i + 1, e)),
            Ok(c) => match config_from(lines, i + 1) {
                Ok(rest) => Ok(seq![(i + 1, c)] + rest),
                Err(x) => Err(x),
            },
        }
    }
}

/// How far a configuration's entries run: the number of entries before the
/// first that a configuration may not hold, and that entry's line number;
/// all of them, and none, when every entry may be run.
pub fn config_plan(entries: &[(usize, Command)]) -> (r: (usize, Option<usize>))
    ensures
        r.0 <= entries@.len(),
        forall|k: int| 0 <= k < r.0 ==> config_allows(#[trigger] entries@[k].1@),
        r.0 < entries@.len() ==> !config_allows(entries@[r.0 as int].1@) && r.1 == Some(
            entries@[r.0 as int].0,
        ),
        r.0 == entries@.len() ==> r.1 is None,
{
    let mut i: usize = 0;
    while i < entries.len()
        invariant
            i <= entries@.len(),
            forall|k: int| 0 <= k < i ==> config_allows(#[trigger] entries@[k].1@),
        decreases entries@.len() - i,
    {
        if !entries[i].1.allowed_in_config() {
            return (i, Some(entries[i].0));
        }
        i += 1;
    }
    (i, None)
}

/// Why a configuration file could not be used.
#[derive(Clone, Debug, PartialEq, Eq)]
pub enum ConfigError {
    /// The line (counting from one) is not a command.
    Line { line: usize, error: CommandError },
    /// No line holds a command.
    Empty,
}

pub open spec fn entry_views(v: Seq<(usize, Command)>) -> Seq<(nat, CommandView)> {
    v.map_values(|e: (usize, Command)| (e.0 as nat, e.1@))
}

pub open spec fn prepend_entries(
    done: Seq<(nat, CommandView)>,
    rest: Result<Seq<(nat, CommandView)>, (nat, CommandErrorView)>,
) -> Result<Seq<(nat, CommandView)>, (nat, CommandErrorView)> {
    match rest {
        Ok(r) => Ok(done + r),
        Err(x) => Err(x),
    }
}

/// Reads a configuration file's lines: one command per line; blank lines
/// and lines that begin with `#` are passed over. A file without commands
/// is refused.
pub fn parse_config_lines(lines: &[String]) -> (r: Result<Vec<(usize, Command)>, ConfigError>)
    ensures
        match config_from(string_views(lines@), 0) {
            Ok(entries) => if entries.len() == 0 {
                r matches Err(ConfigError::Empty)
            } else {
                r matches Ok(v) && entry_views(v@) == entries
            },
            Err((line, e)) => r matches Err(ConfigError::Line { line: l, error: x }) && l == line
                && x@ == e,
        },
{
    let ghost views = string_views(lines@);
    let mut commands: Vec<(usize, Command)> = Vec::new();
    let mut i: usize = 0;
    assert(entry_views(commands@) =~= Seq::<(nat, CommandView)>::empty());
    while i < lines.len()
        invariant
            i <= lines@.len(),
            views == string_views(lines@),
            entry_views(commands@).len() == commands@.len(),
            config_from(views, 0) == prepend_entries(entry_views(commands@), config_from(views, i as nat)),
        decreases lines@.len() - i,
    {
        let cs = chars_of(lines[i].as_str());
        let trimmed = trim_chars(cs.as_slice());
        assert(views[i as int] == lines@[i as int]@);
        let skipped = trimmed.len() == 0 || trimmed[0] == '#';
        if !skipped {
            let text = string_from_chars(trimmed.as_slice());
            match Command::parse(text.as_str()) {
                Err(error) => {
                    return Err(ConfigError::Line { line: i + 1, error });
                },
                Ok(command) => {
                    let ghost before = entry_views(commands@);
                    commands.push((i + 1, command));
                    assert(entry_views(commands@) =~= before.push(((i + 1) as nat, command@)));
                    assert(entry_views(commands@) =~= before + seq![((i + 1) as nat, command@)]);
                    assert(prepend_entries(before, config_from(views, i as nat))
                        == prepend_entries(entry_views(commands@), config_from(views, (i + 1) as nat))) by {
                        match config_from(views, (i + 1) as nat) {
                            Ok(rest) => {
                                assert(before + (seq![((i + 1) as nat, command@)] + rest)
                                    =~= entry_views(commands@) + rest);
                            },
                            Err(x) => {},
                        }
                    }
                },
            }
        }
        i += 1;
    }
    assert(config_from(views, i as nat) == Ok::<Seq<(nat, CommandView)>, (nat, CommandErrorView)>(seq![]));
    assert(entry_views(commands@) + Seq::<(nat, CommandView)>::empty() =~= entry_views(commands@));
    if commands.len() == 0 {
        Err(ConfigError::Empty)
    } else {
        Ok(commands)
    }
}

// ---------------------------------------------------------------------
// Comparing files
// ---------------------------------------------------------------------

/// How two files differ.
#[derive(Clone, Copy, Debug, PartialEq, Eq)]
pub enum CompareError {
    SizeMismatch { first_len: u64, second_len: u64 },
    /// The first byte that differs, with its offset.
    Differ { offset: u64, left: u8, right: u8 },
}

/// Compares two files' contents: equal sizes first, then the first byte
/// that differs. Gives the common size when they are identical.
pub fn compare_contents(first: &[u8], second: &[u8]) -> (r: Result<u64, CompareError>)
    ensures
        first@.len() != second@.len() ==> r == Err::<u64, CompareError>(
            CompareError::SizeMismatch {
                first_len: first@.len() as u64,
                second_len: second@.len() as u64,
            },
        ),
        first@.len() == second@.len() ==> match r {
            Ok(n) => first@ == second@ && n == first@.len(),
            Err(CompareError::Differ { offset, left, right }) => {
                &&& offset < first@.len()
                &&& first@[offset as int] != second@[offset as int]
                &&& left == first@[offset as int]
                &&& right == second@[offset as int]
                &&& forall|j: int| 0 <= j < offset ==> first@[j] == second@[j]
            },
            _ => false,
        },
{
    if first.len() != second.len() {
        return Err(
            CompareError::SizeMismatch {
                first_len: first.len() as u64,
                second_len: second.len() as u64,
            },
        );
    }
    let mut i: usize = 0;
    while i < first.len()
        invariant
            first@.len() == second@.len(),
            i <= first@.len(),
            forall|j: int| 0 <= j < i ==> first@[j] == second@[j],
        decreases first@.len() - i,
    {
        if first[i] != second[i] {
            return Err(CompareError::Differ { offset: i as u64, left: first[i], right: second[i] });
        }
        i += 1;
    }
    assert(first@ =~= second@);
    Ok(first.len() as u64)
}

impl CompareError {
    /// The report of the difference between the files `source` and
    /// `destination`.
    pub open spec fn spec_message(&self, source: Seq<char>, destination: Seq<char>) -> Seq<char> {
        match self {
            CompareError::SizeMismatch { first_len, second_len } => "files differ in size: '"@
                + source + "' is "@ + decimal(*first_len as nat) + " bytes, '"@ + destination
                + "' is "@ + decimal(*second_len as nat) + " bytes"@,
            CompareError::Differ { offset, left, right } => "files differ at offset 0x"@
                + hex_upper(*offset as nat) + ": '"@ + source + "' has 0x"@ + hex_upper_fixed(
                *left as nat,
                2,
            ) + ", '"@ + destination + "' has 0x"@ + hex_upper_fixed(*right as nat, 2),
        }
    }

    pub fn message(&self, source: &str, destination: &str) -> (r: String)
        ensures
            r@ == self.spec_message(source@, destination@),
    {
        let mut s = String::new();
        match self {
            CompareError::SizeMismatch { first_len, second_len } => {
                push_str(&mut s, "files differ in size: '");
                push_str(&mut s, source);
                push_str(&mut s, "' is ");
                push_decimal(&mut s, *first_len);
                push_str(&mut s, " bytes, '");
                push_str(&mut s, destination);
                push_str(&mut s, "' is ");
                push_decimal(&mut s, *second_len);
                push_str(&mut s, " bytes");
            },
            CompareError::Differ { offset, left, right } => {
                push_str(&mut s, "files differ at offset 0x");
                push_hex_upper(&mut s, *offset);
                push_str(&mut s, ": '");
                push_str(&mut s, source);
                push_str(&mut s, "' has 0x");
                push_hex_fixed(&mut s, *left as u64, 2, true);
                push_str(&mut s, ", '");
                push_str(&mut s, destination);
                push_str(&mut s, "' has 0x");
                push_hex_fixed(&mut s, *right as u64, 2, true);
            },
        }
        assert(s@ =~= self.spec_message(source@, destination@));
        s
    }
}


// ---------------------------------------------------------------------
// Reports
// ---------------------------------------------------------------------

pub open spec fn usage_text(u: Usage) -> Seq<char> {
    match u {
        Usage::LoadConfig => "usage: load_conf_down <config_file> <transport> [transport_path]"@,
        Usage::GxOtp => "usage: gx_otp <read|tread|write|twrite> ..."@,
        Usage::SflashOtp => "usage: sflash_otp <status|getregion|read|write|erase> ..."@,
        Usage::Flash => "usage: flash <erase|badinfo|eraseall> ..."@,
        Usage::FlashErase => "usage: flash erase [nospread] <partition|address> [length]"@,
    }
}

pub open spec fn family_name(f: Family) -> Seq<char> {
    match f {
        Family::GxOtp => "gx_otp"@,
        Family::SflashOtp => "sflash_otp"@,
        Family::Flash => "flash"@,
    }
}

impl CommandError {
    pub open spec fn spec_message(&self) -> Seq<char> {
        match self {
            CommandError::Empty => "empty command"@,
            CommandError::ArgCount { command, expected, got } => "'"@ + command@ + "' expects "@
                + decimal(*expected as nat) + " argument(s), got "@ + decimal(*got as nat),
            CommandError::Usage(u) => usage_text(*u),
            CommandError::UnknownCommand { name } => "unknown command '"@ + name@
                + "'; available: serialdump, serialdown, usbdump, usbdown, gx_otp, sflash_otp, flash, compare, load_conf_down"@,
            CommandError::UnknownSubcommand { family, name } => "unknown "@ + family_name(*family)
                + " subcommand '"@ + name@ + "'"@,
            CommandError::Number(e) => e.spec_message(),
        }
    }

    /// The text that reports the error.
    pub fn message(&self) -> (r: String)
        ensures
            r@ == self.spec_message(),
    {
        let mut s = String::new();
        match self {
            CommandError::Empty => push_str(&mut s, "empty command"),
            CommandError::ArgCount { command, expected, got } => {
                push_str(&mut s, "'");
                push_str(&mut s, command.as_str());
                push_str(&mut s, "' expects ");
                push_decimal(&mut s, *expected as u64);
                push_str(&mut s, " argument(s), got ");
                push_decimal(&mut s, *got as u64);
            },
            CommandError::Usage(u) => {
                let text = match u {
                    Usage::LoadConfig => "usage: load_conf_down <config_file> <transport> [transport_path]",
                    Usage::GxOtp => "usage: gx_otp <read|tread|write|twrite> ...",
                    Usage::SflashOtp => "usage: sflash_otp <status|getregion|read|write|erase> ...",
                    Usage::Flash => "usage: flash <erase|badinfo|eraseall> ...",
                    Usage::FlashErase => "usage: flash erase [nospread] <partition|address> [length]",
                };
                push_str(&mut s, text);
            },
            CommandError::UnknownCommand { name } => {
                push_str(&mut s, "unknown command '");
                push_str(&mut s, name.as_str());
                push_str(
                    &mut s,
                    "'; available: serialdump, serialdown, usbdump, usbdown, gx_otp, sflash_otp, flash, compare, load_conf_down",
                );
            },
            CommandError::UnknownSubcommand { family, name } => {
                push_str(&mut s, "unknown ");
                let f = match family {
                    Family::GxOtp => "gx_otp",
                    Family::SflashOtp => "sflash_otp",
                    Family::Flash => "flash",
                };
                push_str(&mut s, f);
                push_str(&mut s, " subcommand '");
                push_str(&mut s, name.as_str());
                push_str(&mut s, "'");
            },
            CommandError::Number(e) => {
                let m = e.message();
                push_str(&mut s, m.as_str());
            },
        }
        assert(s@ =~= self.spec_message());
        s
    }
}

impl ConfigError {
    /// The report for the configuration file `path`.
    pub open spec fn spec_message(&self, path: Seq<char>) -> Seq<char> {
        match self {
            ConfigError::Line { line, error } => "config line "@ + decimal(*line as nat) + ": "@
                + error.spec_message(),
            ConfigError::Empty => "config '"@ + path + "' contains no commands"@,
        }
    }

    pub fn message(&self, path: &str) -> (r: String)
        ensures
            r@ == self.spec_message(path@),
    {
        let mut s = String::new();
        match self {
            ConfigError::Line { line, error } => {
                push_str(&mut s, "config line ");
                push_decimal(&mut s, *line as u64);
                push_str(&mut s, ": ");
                let m = error.message();
                push_str(&mut s, m.as_str());
            },
            ConfigError::Empty => {
                push_str(&mut s, "config '");
                push_str(&mut s, path);
                push_str(&mut s, "' contains no commands");
            },
        }
        assert(s@ =~= self.spec_message(path@));
        s
    }
}


/// A configuration line means what the same text means as a command line:
/// the trimming that the configuration reader does changes no command.
pub proof fn law_config_line_reads_as_command(line: Seq<char>)
    ensures
        spec_parse(trim(line)) == spec_parse(line),
{
    law_trim_keeps_words(line);
}

/// Only `flash erase` and `flash eraseall` ask before they run, and only
/// when `yes` was not given: every other command, a write included, runs
/// without a question.
pub proof fn law_only_flash_erases_ask(command: CommandView, input_len: usize, yes: bool)
    ensures
        (spec_step(command, input_len, yes) matches StepView::Text { confirm: Some(_), .. }) <==> (
        !yes && (command matches CommandView::Flash(FlashView::Erase { .. })
            || command matches CommandView::Flash(FlashView::EraseAll))),
{
}

/// `gx_otp read A L F`: the first number is the address, the second the
/// length (each decimal, or hexadecimal behind `0x`), and the last word the
/// file that receives the bytes.
pub proof fn law_gx_otp_read_parses(address: Seq<char>, length: Seq<char>, output: Seq<char>)
    requires
        is_word(address),
        is_word(length),
        is_word(output),
        spec_parse_number(address) is Ok,
        spec_parse_number(length) is Ok,
    ensures
        spec_parse(spaced(seq!["gx_otp"@, "read"@, address, length, output])) == Ok::<
            CommandView,
            CommandErrorView,
        >(
            CommandView::GxOtp(
                GxOtpView::Read {
                    address: spec_parse_number(address)->Ok_0,
                    length: spec_parse_number(length)->Ok_0,
                    output,
                },
            ),
        ),
{
    reveal_strlit("gx_otp");
    reveal_strlit("read");
    reveal_strlit("serialdump");
    reveal_strlit("serialdown");
    reveal_strlit("usbdump");
    reveal_strlit("usbdown");
    let ws = seq!["gx_otp"@, "read"@, address, length, output];
    assert(is_word("gx_otp"@) && is_word("read"@));
    assert forall|i: int| 0 <= i < ws.len() implies is_word(#[trigger] ws[i]) by {}
    lemma_words_spaced(ws);
    assert(ws.drop_first().drop_first() =~= seq![address, length, output]);
}

proof fn lemma_spaced_four(a: Seq<char>, b: Seq<char>, c: Seq<char>, d: Seq<char>)
    ensures
        spaced(seq![a, b, c, d]) == a + seq![' '] + b + seq![' '] + c + seq![' '] + d,
{
    let ws = seq![a, b, c, d];
    let w1 = ws.drop_first();
    let w2 = w1.drop_first();
    let w3 = w2.drop_first();
    assert(w1 =~= seq![b, c, d]);
    assert(w2 =~= seq![c, d]);
    assert(w3 =~= seq![d]);
    assert(spaced(w3) == d);
    assert(spaced(w2) == c + seq![' '] + d);
    assert(spaced(w1) == b + seq![' '] + (c + seq![' '] + d));
    assert(spaced(ws) == a + seq![' '] + (b + seq![' '] + (c + seq![' '] + d)));
    assert(spaced(ws) =~= a + seq![' '] + b + seq![' '] + c + seq![' '] + d);
}

/// Words and read-back of a read command's wire text `<name> read <address> <length>`.
proof fn lemma_read_wire(name: Seq<char>, address: usize, length: usize)
    requires
        is_word(name),
    ensures
        ({
            let w = words(name + seq![' '] + "read"@ + seq![' '] + decimal(address as nat) + seq![' ']
                + decimal(length as nat));
            &&& w.len() == 4 && w[0] == name && w[1] == "read"@
            &&& spec_parse_number(w[2]) == Ok::<usize, NumberFault>(address)
            &&& spec_parse_number(w[3]) == Ok::<usize, NumberFault>(length)
        }),
{
    reveal_strlit("read");
    lemma_decimal_is_word(address as nat);
    lemma_decimal_is_word(length as nat);
    law_decimal_reads_back(address);
    law_decimal_reads_back(length);
    let g = seq![name, "read"@, decimal(address as nat), decimal(length as nat)];
    assert(is_word("read"@));
    assert forall|i: int| 0 <= i < g.len() implies is_word(#[trigger] g[i]) by {}
    lemma_words_spaced(g);
    lemma_spaced_four(name, "read"@, decimal(address as nat), decimal(length as nat));
}

/// The wire text of `gx_otp read` and of `sflash_otp read` names the address
/// first and the length second, both in decimal: its words read back as the
/// command's own address and length, and the read expects `length` bytes
/// for the command's output file.
pub proof fn law_otp_read_wire(address: usize, length: usize, output: Seq<char>, input_len: usize, yes: bool)
    ensures
        ({
            let c = CommandView::GxOtp(GxOtpView::Read { address, length, output });
            spec_step(c, input_len, yes) matches StepView::Read { wire, size, output: o } && {
                let w = words(wire);
                &&& w.len() == 4 && w[0] == "gx_otp"@ && w[1] == "read"@
                &&& spec_parse_number(w[2]) == Ok::<usize, NumberFault>(address)
                &&& spec_parse_number(w[3]) == Ok::<usize, NumberFault>(length)
                &&& size == length && o == output
            }
        }),
        ({
            let c = CommandView::SflashOtp(SflashOtpView::Read { address, length, output });
            spec_step(c, input_len, yes) matches StepView::Read { wire, size, output: o } && {
                let w = words(wire);
                &&& w.len() == 4 && w[0] == "sflash_otp"@ && w[1] == "read"@
                &&& spec_parse_number(w[2]) == Ok::<usize, NumberFault>(address)
                &&& spec_parse_number(w[3]) == Ok::<usize, NumberFault>(length)
                &&& size == length && o == output
            }
        }),
{
    reveal_strlit("gx_otp");
    reveal_strlit("sflash_otp");
    reveal_strlit("read");
    reveal_strlit("gx_otp read ");
    reveal_strlit("sflash_otp read ");
    reveal_strlit(" ");
    assert(is_word("gx_otp"@) && is_word("sflash_otp"@));
    lemma_read_wire("gx_otp"@, address, length);
    lemma_read_wire("sflash_otp"@, address, length);
    assert("gx_otp read "@ + decimal(address as nat) + " "@ + decimal(length as nat) =~= "gx_otp"@
        + seq![' '] + "read"@ + seq![' '] + decimal(address as nat) + seq![' '] + decimal(length as nat));
    assert("sflash_otp read "@ + decimal(address as nat) + " "@ + decimal(length as nat) =~= "sflash_otp"@
        + seq![' '] + "read"@ + seq![' '] + decimal(address as nat) + seq![' '] + decimal(length as nat));
}

/// A configuration file may hold serialdump, serialdown, usbdump, usbdown
/// and flash commands, and no other.
pub proof fn law_config_entries(c: CommandView)
    ensures
        c matches CommandView::SerialDump { .. } ==> config_allows(c),
        c matches CommandView::SerialDown { .. } ==> config_allows(c),
        c matches CommandView::UsbDump { .. } ==> config_allows(c),
        c matches CommandView::UsbDown { .. } ==> config_allows(c),
        c matches CommandView::Flash(_) ==> config_allows(c),
        c matches CommandView::GxOtp(_) ==> !config_allows(c),
        c matches CommandView::SflashOtp(_) ==> !config_allows(c),
        c matches CommandView::Compare { .. } ==> !config_allows(c),
        c matches CommandView::LoadConfig { .. } ==> !config_allows(c),
{
}

} // verus!
