//! The protocol's exchanges with a device, as state machines.
//!
//! Each exchange (uploading a loader, a text command, a binary read or
//! write) is a machine that decides; the caller does the work. A
//! [`Session`] starts one (`boot`, `wait_for_prompt`, `text_command`,
//! `binary_read`, `binary_write`). The caller
//! feeds what it read into the [`Session`], calls `step` with the time and
//! any read failure, performs the returned [`Output`]s in order, then reads
//! (for [`Next::Receive`]), steps again at once (for [`Next::Continue`]), or
//! stops (for [`Next::Finished`]). Time is in microseconds on any clock
//! that does not go back.

use vstd::prelude::*;
use vstd::string::StringSliceAdditionalSpecFns;
use crate::loader::{le_bytes, le_u32, BootImage};
use crate::protocol::{
    append_bytes, checksum_rejected, clean_response, clean_text_response, crc_bytes, fin_bytes, gx_checksum, hex, hex_text, is_first_match,
    latin1, latin1_string, matches_at, prompt_bytes, prompt_marker, rejects_checksum, spec_gx_checksum, start_bytes,
    Session,
};
use crate::text::{decimal, hex_upper_fixed, push_decimal, push_hex_fixed, push_str, string_from_chars, string_views, trim, trim_chars};

verus! {

/// Work for the caller, in the order given.
#[derive(Clone, Debug, PartialEq, Eq)]
pub enum Output {
    /// Write these bytes to the device and drain them.
    Send(Vec<u8>),
    /// Pause for this many milliseconds.
    Sleep(u64),
    /// Drop what the serial driver holds; on failure, report the text given
    /// followed by the failure.
    Discard(String),
    /// Show a line to the user.
    Say(String),
    /// Show the device's own output as it comes, without a line break.
    Print(String),
    /// Show a warning.
    Warn(String),
    /// Show how far a transfer is.
    Progress { done: usize, total: usize, label: String },
    /// Set a modem control line; on failure, report the text given followed
    /// by the failure.
    Signal { line: ControlLine, level: bool, failure: String },
}

/// The modem control lines that can reset a board.
#[derive(Clone, Copy, Debug, PartialEq, Eq)]
pub enum ControlLine {
    Dtr,
    Rts,
}

/// What the caller does after the outputs.
#[derive(Clone, Copy, Debug, PartialEq, Eq)]
pub enum Next {
    /// Step again at once.
    Continue,
    /// Read from the device, feed the bytes to the session, then step; show
    /// the bytes read when `trace` and the session is verbose.
    Receive { trace: bool },
    /// The exchange is over.
    Finished,
}

/// One decision of an exchange.
#[derive(Clone, Debug, PartialEq, Eq)]
pub struct Turn {
    pub outputs: Vec<Output>,
    pub next: Next,
}

/// The bytes that `outs` send, in order.
pub open spec fn sent_by(outs: Seq<Output>) -> Seq<u8>
    decreases outs.len(),
{
    if outs.len() == 0 {
        seq![]
    } else {
        sent_by(outs.drop_last()) + match outs.last() {
            Output::Send(b) => b@,
            _ => Seq::<u8>::empty(),
        }
    }
}

/// The control-line changes that `outs` ask for, in order.
pub open spec fn signals_of(outs: Seq<Output>) -> Seq<(ControlLine, bool)>
    decreases outs.len(),
{
    if outs.len() == 0 {
        seq![]
    } else {
        signals_of(outs.drop_last()) + match outs.last() {
            Output::Signal { line, level, .. } => seq![(line, level)],
            _ => Seq::<(ControlLine, bool)>::empty(),
        }
    }
}

/// The pulses that reset a board: DTR raised then lowered when `dtr`, then
/// RTS likewise when `rts`.
pub open spec fn reset_pulses(dtr: bool, rts: bool) -> Seq<(ControlLine, bool)> {
    (if dtr {
        seq![(ControlLine::Dtr, true), (ControlLine::Dtr, false)]
    } else {
        Seq::<(ControlLine, bool)>::empty()
    }) + (if rts {
        seq![(ControlLine::Rts, true), (ControlLine::Rts, false)]
    } else {
        Seq::<(ControlLine, bool)>::empty()
    })
}

/// The reset pulses DTR, raised then lowered, exactly when `dtr`, and after
/// it RTS, raised then lowered, exactly when `rts`, each whatever the other
/// line is; nothing else.
pub proof fn law_reset_pulses(dtr: bool, rts: bool)
    ensures
        ({
            let p = reset_pulses(dtr, rts);
            &&& p.len() == (if dtr {
                2int
            } else {
                0int
            }) + (if rts {
                2int
            } else {
                0int
            })
            &&& dtr ==> p.take(2) == seq![(ControlLine::Dtr, true), (ControlLine::Dtr, false)]
            &&& rts ==> p.skip(p.len() - 2) == seq![(ControlLine::Rts, true), (ControlLine::Rts, false)]
            &&& forall|i: int| 0 <= i < p.len() ==> (#[trigger] p[i].0 == ControlLine::Dtr ==> dtr) && (
                p[i].0 == ControlLine::Rts ==> rts)
        }),
{
    let p = reset_pulses(dtr, rts);
    if dtr {
        assert(p.take(2) =~= seq![(ControlLine::Dtr, true), (ControlLine::Dtr, false)]);
    }
    if rts {
        assert(p.skip(p.len() - 2) =~= seq![(ControlLine::Rts, true), (ControlLine::Rts, false)]);
    }
}

proof fn lemma_sent_by_push(outs: Seq<Output>, o: Output)
    ensures
        sent_by(outs.push(o)) == sent_by(outs) + match o {
            Output::Send(b) => b@,
            _ => Seq::<u8>::empty(),
        },
{
    assert(outs.push(o).drop_last() =~= outs);
}

fn emit(outs: &mut Vec<Output>, o: Output)
    ensures
        final(outs)@ == old(outs)@.push(o),
        sent_by(final(outs)@) == sent_by(old(outs)@) + match o {
            Output::Send(b) => b@,
            _ => Seq::<u8>::empty(),
        },
        signals_of(final(outs)@) == signals_of(old(outs)@) + match o {
            Output::Signal { line, level, .. } => seq![(line, level)],
            _ => Seq::<(ControlLine, bool)>::empty(),
        },
{
    proof {
        lemma_sent_by_push(outs@, o);
        assert(outs@.push(o).drop_last() =~= outs@);
    }
    outs.push(o);
}

/// Time passed since `since`.
fn elapsed(since: u64, now: u64) -> (r: u64)
    ensures
        r == if now >= since {
            now - since
        } else {
            0
        },
{
    if now >= since {
        now - since
    } else {
        0
    }
}

/// A line of diagnostics, `[*] ` before it.
fn note(text: &str) -> (r: Output)
    ensures
        r matches Output::Say(line) && line@ == "[*] "@ + text@,
{
    let mut s = String::new();
    push_str(&mut s, "[*] ");
    push_str(&mut s, text);
    Output::Say(s)
}

/// `timeout waiting for marker '…'`.
pub open spec fn marker_timeout_text(marker: Seq<u8>) -> Seq<char> {
    "timeout waiting for marker '"@ + latin1(marker) + "'"@
}

pub fn marker_timeout(marker: &[u8]) -> (r: String)
    ensures
        r@ == marker_timeout_text(marker@),
{
    let mut s = String::new();
    push_str(&mut s, "timeout waiting for marker '");
    let m = latin1_string(marker);
    push_str(&mut s, m.as_str());
    push_str(&mut s, "'");
    s
}

/// `boot>` has not come within the time allowed.
pub open spec fn prompt_timeout_text() -> Seq<char> {
    "timeout waiting for boot> prompt"@
}

/// A wait that started at `since` (at `now`, if it has not started) has
/// lasted `limit` by `now`.
pub open spec fn waited_out(since: Option<u64>, now: u64, limit: int) -> bool {
    let start = match since {
        Some(t) => t,
        None => now,
    };
    (if now >= start {
        now - start
    } else {
        0
    }) >= limit
}

pub open spec fn newline() -> Seq<u8> {
    seq![10u8]
}

/// The bytes that an exchange sends before its command: nothing, or the
/// single line break that pokes a silent loader for its prompt.
pub open spec fn poke_prefix(poked: bool) -> Seq<u8> {
    if poked {
        newline()
    } else {
        Seq::<u8>::empty()
    }
}

pub open spec fn be_bytes(x: u32) -> Seq<u8> {
    le_bytes(x).reverse()
}

/// The checksum of a serial write as sent, big-endian.
pub fn gx_checksum_be(data: &[u8]) -> (r: [u8; 4])
    ensures
        r@ == be_bytes(spec_gx_checksum(data@)),
{
    let c = gx_checksum(data);
    let r = [
        ((c / 16777216) % 256) as u8,
        ((c / 65536) % 256) as u8,
        ((c / 256) % 256) as u8,
        (c % 256) as u8,
    ];
    assert(r@ =~= be_bytes(c));
    r
}

/// `marker` has arrived in `buffered`.
pub open spec fn has_marker(buffered: Seq<u8>, marker: Seq<u8>) -> bool {
    exists|j: int| matches_at(buffered, marker, j)
}

/// `new` is what stays of `old` once everything up to the end of the first
/// `marker` is consumed.
pub open spec fn consumes_marker(old: Seq<u8>, new: Seq<u8>, marker: Seq<u8>) -> bool {
    exists|i: int| #[trigger] is_first_match(old, marker, i) && new == old.skip(i + marker.len())
}

/// `new` is what stays of `old` once its first `boot>` is consumed, with
/// the ASCII whitespace right after it.
pub open spec fn consumes_prompt(old: Seq<u8>, new: Seq<u8>) -> bool {
    exists|i: int|
        #[trigger] is_first_match(old, prompt_marker(), i) && new == old.skip(i + 5).skip(
            crate::protocol::ascii_space_prefix(old.skip(i + 5)) as int,
        )
}

/// The wait for the prompt that opens every command exchange: give up
/// after `limit` (two seconds in every exchange), and poke the loader with
/// a line break once 200 ms have passed in silence.
pub struct PromptWait {
    since: Option<u64>,
    poked: bool,
    limit: u64,
}

pub enum PromptOutcome {
    /// The prompt arrived and was consumed.
    Arrived,
    /// Do this and step again.
    Turn(Turn),
}

impl PromptWait {
    pub closed spec fn spec_poked(&self) -> bool {
        self.poked
    }

    /// The wait has lasted `t` by `now`.
    pub closed spec fn waited(&self, now: u64, t: int) -> bool {
        waited_out(self.since, now, t)
    }

    /// The wait has lasted its limit by `now`.
    pub closed spec fn expired(&self, now: u64) -> bool {
        waited_out(self.since, now, self.limit as int)
    }

    fn new(limit: u64) -> (w: PromptWait)
        ensures
            !w.spec_poked(),
            forall|now: u64| w.expired(now) == (limit == 0),
    {
        PromptWait { since: None, poked: false, limit }
    }

    /// One look at the receive buffer.
    pub fn step(&mut self, session: &mut Session, now: u64) -> (r: Result<PromptOutcome, String>)
        ensures
            final(session).spec_verbose() == old(session).spec_verbose(),
            r matches Ok(PromptOutcome::Arrived) ==> final(self).spec_poked() == old(self).spec_poked()
                && exists|i: int| #[trigger] is_first_match(old(session).buffered(), prompt_marker(), i),
            r matches Ok(PromptOutcome::Turn(t)) ==> {
                &&& forall|j: int| !matches_at(old(session).buffered(), prompt_marker(), j)
                &&& final(session).buffered() == old(session).buffered()
                &&& sent_by(t.outputs@) == poke_prefix(final(self).spec_poked() && !old(self).spec_poked())
                &&& (final(self).spec_poked() || !old(self).spec_poked())
                &&& t.next != Next::Finished
            },
            r matches Err(e) ==> e@ == prompt_timeout_text() && final(self).spec_poked() == old(
                self,
            ).spec_poked(),
            r is Err ==> old(self).expired(now),
            r matches Ok(PromptOutcome::Turn(_)) ==> final(self).spec_poked() == (old(self).spec_poked()
                || old(self).waited(now, 200_000)),
            has_marker(old(session).buffered(), prompt_marker()) <==> r matches Ok(PromptOutcome::Arrived),
            r matches Ok(PromptOutcome::Arrived) ==> consumes_prompt(old(session).buffered(), final(session).buffered()),
            !has_marker(old(session).buffered(), prompt_marker()) ==> (r is Err <==> old(self).expired(now)),
            r matches Ok(PromptOutcome::Turn(t)) ==> t.next == if final(self).spec_poked() && !old(self).spec_poked() {
                Next::Continue
            } else {
                Next::Receive { trace: false }
            },
    {
        if session.take_prompt() {
            return Ok(PromptOutcome::Arrived);
        }
        let since = match self.since {
            Some(t) => t,
            None => now,
        };
        self.since = Some(since);
        let waited = elapsed(since, now);
        if waited >= self.limit {
            return Err(String::from_str("timeout waiting for boot> prompt"));
        }
        let mut outputs: Vec<Output> = Vec::new();
        if !self.poked && waited >= 200_000 {
            self.poked = true;
            emit(&mut outputs, Output::Send(vstd::slice::slice_to_vec(&[10u8])));
            assert(sent_by(outputs@) =~= newline());
            return Ok(PromptOutcome::Turn(Turn { outputs, next: Next::Continue }));
        }
        Ok(PromptOutcome::Turn(Turn { outputs, next: Next::Receive { trace: false } }))
    }
}


// ---------------------------------------------------------------------
// Binary write
// ---------------------------------------------------------------------

/// Where a binary write is.
#[derive(Clone, Copy, Debug, PartialEq, Eq)]
pub enum WriteStage {
    Prompt,
    Echo,
    Start,
    Chunks,
    Crc,
    Completion,
    Done,
}

/// Sends a binary image after a command: waits for the prompt, sends the
/// command and waits for its echo, waits for `~sta~`, sends the image in
/// 1024-byte chunks, waits for `~crc~`, sends the GX checksum big-endian,
/// and waits for the loader to finish; a loader whose answer holds `err`
/// and `crc` refused the checksum.
pub struct BinaryWrite {
    command: String,
    line: Vec<u8>,
    data: Vec<u8>,
    completion_limit: u64,
    wait_for_reboot: bool,
    stage: WriteStage,
    next_chunk: usize,
    prompt: PromptWait,
    since: Option<u64>,
    response: Vec<u8>,
    saw_fin: bool,
    result: Option<String>,
    sent: Ghost<Seq<u8>>,
}

/// The command's bytes followed by a line break.
pub open spec fn command_line(command: Seq<u8>) -> Seq<u8> {
    command + newline()
}

fn line_of(command: &str) -> (r: Vec<u8>)
    ensures
        r@ == command_line(command.spec_bytes()),
{
    let mut v = vstd::slice::slice_to_vec(command.as_bytes());
    v.push(10u8);
    v
}

impl BinaryWrite {
    pub closed spec fn spec_command(&self) -> Seq<char> {
        self.command@
    }

    pub closed spec fn spec_data(&self) -> Seq<u8> {
        self.data@
    }

    pub closed spec fn stage(&self) -> WriteStage {
        self.stage
    }

    /// Everything sent so far.
    pub closed spec fn sent(&self) -> Seq<u8> {
        self.sent@
    }

    /// Whether the prompt wait poked the loader.
    pub closed spec fn poked(&self) -> bool {
        self.prompt.poked
    }

    /// The command line as sent.
    pub closed spec fn spec_line(&self) -> Seq<u8> {
        self.line@
    }

    /// The wait of the current stage has lasted its limit by `now`.
    pub closed spec fn timed_out(&self, now: u64) -> bool {
        match self.stage {
            WriteStage::Prompt => self.prompt.expired(now),
            WriteStage::Echo => waited_out(self.since, now, 5_000_000),
            WriteStage::Start | WriteStage::Crc => waited_out(self.since, now, 10_000_000),
            WriteStage::Completion => waited_out(self.since, now, self.completion_limit as int),
            WriteStage::Chunks | WriteStage::Done => false,
        }
    }

    /// What the exchange sends in all: a poke or not, the command line, the
    /// image, its checksum.
    pub open spec fn full_transfer(&self) -> Seq<u8> {
        poke_prefix(self.poked()) + self.spec_line() + self.spec_data() + be_bytes(
            spec_gx_checksum(self.spec_data()),
        )
    }

    pub closed spec fn inv(&self) -> bool {
        let head = poke_prefix(self.prompt.poked) + self.line@;
        &&& self.line@.len() > 0
        &&& self.data@.len() > 0
        &&& (self.result matches Some(t) ==> t@ == latin1(self.response@))
        &&& self.next_chunk <= self.data@.len()
        &&& match self.stage {
            WriteStage::Prompt => self.sent@ == poke_prefix(self.prompt.poked),
            WriteStage::Echo | WriteStage::Start => self.sent@ == head,
            WriteStage::Chunks => self.next_chunk < self.data@.len() && self.sent@ == head
                + self.data@.take(self.next_chunk as int),
            WriteStage::Crc => self.sent@ == head + self.data@,
            WriteStage::Completion | WriteStage::Done => self.sent@ == head + self.data@
                + be_bytes(spec_gx_checksum(self.data@)),
        }
        &&& (self.stage == WriteStage::Done) == self.result is Some
    }

}


/// How a wait for a marker went in one look.
pub enum MarkerLook {
    /// The marker arrived; the bytes before it.
    Found(Vec<u8>),
    /// The time allowed has passed.
    Expired,
    /// Keep waiting.
    Pending,
}

/// One look of a wait for `marker` that started at `since` (now, if it has
/// not started) and may last `limit`.
fn look_for(session: &mut Session, marker: &[u8], since: &mut Option<u64>, now: u64, limit: u64) -> (r:
    MarkerLook)
    ensures
        final(session).spec_verbose() == old(session).spec_verbose(),
        r matches MarkerLook::Found(before) ==> {
            &&& is_first_match(old(session).buffered(), marker@, before@.len() as int)
            &&& before@ == old(session).buffered().take(before@.len() as int)
            &&& final(session).buffered() == old(session).buffered().skip(
                (before@.len() + marker@.len()) as int,
            )
        },
        !(r is Found) ==> {
            &&& forall|j: int| !matches_at(old(session).buffered(), marker@, j)
            &&& final(session).buffered() == old(session).buffered()
        },
        r is Expired ==> waited_out(*old(since), now, limit as int),
        has_marker(old(session).buffered(), marker@) <==> r is Found,
        r is Found ==> consumes_marker(old(session).buffered(), final(session).buffered(), marker@),
        !has_marker(old(session).buffered(), marker@) ==> (r is Expired <==> waited_out(
            *old(since),
            now,
            limit as int,
        )),
        r is Found ==> *final(since) == *old(since),
{
    match session.take_until(marker) {
        Some(before) => MarkerLook::Found(before),
        None => {
            let start = match *since {
                Some(t) => t,
                None => now,
            };
            *since = Some(start);
            if elapsed(start, now) >= limit {
                MarkerLook::Expired
            } else {
                MarkerLook::Pending
            }
        },
    }
}

fn receive() -> (t: Turn)
    ensures
        t.outputs@ == Seq::<Output>::empty(),
        t.next == (Next::Receive { trace: false }),
{
    Turn { outputs: Vec::new(), next: Next::Receive { trace: false } }
}

/// `device did not echo command '…'`.
pub open spec fn no_echo_text(command: Seq<char>) -> Seq<char> {
    "device did not echo command '"@ + command + "'"@
}

fn no_echo(command: &str) -> (r: String)
    ensures
        r@ == no_echo_text(command@),
{
    let mut s = String::new();
    push_str(&mut s, "device did not echo command '");
    push_str(&mut s, command);
    push_str(&mut s, "'");
    s
}

fn trimmed_latin1(data: &[u8]) -> (r: String)
    ensures
        r@ == trim(latin1(data@)),
{
    let text = latin1_string(data);
    let cs = crate::text::chars_of(text.as_str());
    let t = trim_chars(cs.as_slice());
    string_from_chars(t.as_slice())
}

/// What a step of a binary write in `stage` fails with when the caller
/// reported no failed read; `response` is the loader's answer so far.
pub open spec fn write_failure(stage: WriteStage, command: Seq<char>, response: Seq<u8>) -> Seq<char> {
    match stage {
        WriteStage::Prompt => prompt_timeout_text(),
        WriteStage::Echo => no_echo_text(command),
        WriteStage::Start => marker_timeout_text(crate::protocol::start_marker()),
        WriteStage::Crc => marker_timeout_text(crate::protocol::crc_marker()),
        _ => if rejects_checksum(response) {
            "device rejected checksum: "@ + trim(latin1(response))
        } else {
            "timeout waiting for device completion; last response: "@ + trim(latin1(response))
        },
    }
}

/// The wait for a write to complete is over once bytes have arrived
/// (`arrived`) and the answer so far, `response`, shows an error (`err` in
/// any case), the prompt, a rebooted loader's partition banner, or `~fin~`
/// (`fin`) when no reboot is awaited.
pub open spec fn completion_over(response: Seq<u8>, arrived: bool, fin: bool, wait_for_reboot: bool) -> bool {
    &&& arrived
    &&& {
        ||| exists|j: int| crate::protocol::matches_at_ignore_case(response, crate::protocol::err_word(), j)
        ||| has_marker(response, prompt_marker())
        ||| has_marker(response, crate::protocol::partition_marker())
        ||| (fin && !wait_for_reboot)
    }
}

/// What a step of a binary write promises: the frame conditions on what is
/// sent, that the image goes out only after `~sta~` and the checksum only
/// after `~crc~`, that a write is done only with the image and its checksum
/// sent and not refused, the failures of [`write_failure`], and
/// [`write_progress`].
pub open spec fn write_post(
    o: BinaryWrite,
    n: BinaryWrite,
    old_buf: Seq<u8>,
    new_buf: Seq<u8>,
    now: u64,
    read_error: Option<String>,
    r: Result<Turn, String>,
) -> bool {
    &&& n.inv()
    &&& n.spec_data() == o.spec_data()
    &&& n.spec_line() == o.spec_line()
    &&& n.spec_command() == o.spec_command()
    &&& n.spec_wait_for_reboot() == o.spec_wait_for_reboot()
    &&& (r matches Ok(t) ==> n.sent() == o.sent() + sent_by(t.outputs@))
    &&& (r is Err ==> n.sent() == o.sent())
    &&& (r matches Ok(t) ==> (t.next == Next::Finished <==> n.stage() == WriteStage::Done))
    &&& (n.stage() == WriteStage::Done ==> n.sent() == n.full_transfer())
    &&& (o.stage() == WriteStage::Start && n.stage() != WriteStage::Start ==> exists|i: int|
        #[trigger] is_first_match(old_buf, crate::protocol::start_marker(), i))
    &&& (o.stage() == WriteStage::Crc && n.stage() != WriteStage::Crc ==> exists|i: int|
        #[trigger] is_first_match(old_buf, crate::protocol::crc_marker(), i))
    &&& (o.stage() == WriteStage::Completion && n.stage() == WriteStage::Done ==> !rejects_checksum(
        n.spec_response(),
    ))
    &&& (r matches Err(e) ==> read_error == Some(e) || e@ == write_failure(
        o.stage(),
        o.spec_command(),
        n.spec_response(),
    ))
    &&& (r is Err ==> read_error is Some || o.timed_out(now) || (o.stage() == WriteStage::Completion
        && rejects_checksum(n.spec_response())))
    &&& write_progress(o, n, old_buf, new_buf, now, read_error, r)
}

/// How a step of a binary write moves it on: the prompt leads to the
/// command line, its echo to the wait for `~sta~`, `~sta~` to the image in
/// chunks of 1024 bytes, the last chunk to the wait for `~crc~`, `~crc~`
/// to the checksum, and the loader's answer to the end: an error when it
/// refuses the checksum, else the answer. A wait that is not over reads on;
/// one that is over fails; a failed read ends the write.
pub open spec fn write_progress(
    o: BinaryWrite,
    n: BinaryWrite,
    old_buf: Seq<u8>,
    new_buf: Seq<u8>,
    now: u64,
    read_error: Option<String>,
    r: Result<Turn, String>,
) -> bool {
    &&& (o.stage() == WriteStage::Done ==> (r matches Ok(t) && t.next == Next::Finished && t.outputs@.len()
        == 0))
    &&& (read_error matches Some(e) ==> (o.stage() == WriteStage::Prompt || o.stage() == WriteStage::Start
        || o.stage() == WriteStage::Crc || o.stage() == WriteStage::Completion) ==> r == Err::<Turn, String>(e))
    &&& (read_error is Some && o.stage() == WriteStage::Echo ==> r is Err)
    &&& (read_error is None && o.stage() == WriteStage::Prompt ==> if has_marker(old_buf, prompt_marker()) {
        &&& r matches Ok(t) && t.next == Next::Continue && sent_by(t.outputs@) == o.spec_line()
        &&& n.stage() == WriteStage::Echo
        &&& consumes_prompt(old_buf, new_buf)
    } else {
        &&& (r is Err <==> o.timed_out(now))
        &&& (r is Ok ==> n.stage() == WriteStage::Prompt && new_buf == old_buf)
    })
    &&& (read_error is None && o.stage() == WriteStage::Echo ==> if has_marker(old_buf, o.spec_line().drop_last()) {
        &&& r matches Ok(t) && t.next == Next::Continue && t.outputs@.len() == 0
        &&& n.stage() == WriteStage::Start
        &&& consumes_marker(old_buf, new_buf, o.spec_line().drop_last())
    } else {
        &&& (r is Err <==> o.timed_out(now))
        &&& (r matches Ok(t) ==> t.next == (Next::Receive { trace: false }) && t.outputs@.len() == 0)
        &&& (r is Ok ==> n.stage() == WriteStage::Echo && new_buf == old_buf)
    })
    &&& (read_error is None && o.stage() == WriteStage::Start ==> if has_marker(
        old_buf,
        crate::protocol::start_marker(),
    ) {
        &&& r matches Ok(t) && t.next == Next::Continue && sent_by(t.outputs@) == Seq::<u8>::empty()
        &&& n.stage() == WriteStage::Chunks
        &&& n.spec_next_chunk() == 0
        &&& consumes_marker(old_buf, new_buf, crate::protocol::start_marker())
    } else {
        &&& (r is Err <==> o.timed_out(now))
        &&& (r matches Ok(t) ==> t.next == (Next::Receive { trace: false }) && t.outputs@.len() == 0)
        &&& (r is Ok ==> n.stage() == WriteStage::Start && new_buf == old_buf)
    })
    &&& (o.stage() == WriteStage::Chunks ==> {
        let start = o.spec_next_chunk();
        let len = o.spec_data().len();
        let end = if len - start > 1024 {
            start + 1024
        } else {
            len
        };
        &&& r matches Ok(t) && t.next == Next::Continue && sent_by(t.outputs@) == o.spec_data().subrange(
            start as int,
            end as int,
        )
        &&& n.spec_next_chunk() == end
        &&& n.stage() == if end == len {
            WriteStage::Crc
        } else {
            WriteStage::Chunks
        }
        &&& new_buf == old_buf
    })
    &&& (read_error is None && o.stage() == WriteStage::Crc ==> if has_marker(
        old_buf,
        crate::protocol::crc_marker(),
    ) {
        &&& r matches Ok(t) && t.next == Next::Continue && sent_by(t.outputs@) == be_bytes(
            spec_gx_checksum(o.spec_data()),
        )
        &&& n.stage() == WriteStage::Completion
        &&& consumes_marker(old_buf, new_buf, crate::protocol::crc_marker())
    } else {
        &&& (r is Err <==> o.timed_out(now))
        &&& (r matches Ok(t) ==> t.next == (Next::Receive { trace: false }) && t.outputs@.len() == 0)
        &&& (r is Ok ==> n.stage() == WriteStage::Crc && new_buf == old_buf)
    })
    &&& (read_error is None && o.stage() == WriteStage::Completion ==> {
        let resp = o.spec_response() + old_buf;
        let arrived = old_buf.len() > 0;
        let fin = o.spec_saw_fin() || (arrived && has_marker(resp, crate::protocol::fin_marker()));
        let over = completion_over(resp, arrived, fin, o.spec_wait_for_reboot());
        &&& n.spec_response() == resp
        &&& new_buf == Seq::<u8>::empty()
        &&& (!over && !o.timed_out(now) ==> {
            &&& r matches Ok(t) && t.next == (Next::Receive { trace: false }) && t.outputs@.len() == 0
            &&& n.stage() == WriteStage::Completion
            &&& n.spec_saw_fin() == fin
        })
        &&& (over || o.timed_out(now) ==> if rejects_checksum(resp) || !over {
            r is Err
        } else {
            r matches Ok(t) && t.next == Next::Finished && n.stage() == WriteStage::Done
        })
    })
}

impl BinaryWrite {
    /// The loader's answer so far.
    pub closed spec fn spec_response(&self) -> Seq<u8> {
        self.response@
    }

    /// Where the next chunk of the image starts.
    pub closed spec fn spec_next_chunk(&self) -> nat {
        self.next_chunk as nat
    }

    /// `~fin~` has been seen in the answer.
    pub closed spec fn spec_saw_fin(&self) -> bool {
        self.saw_fin
    }

    /// The write waits through a reboot of the loader.
    pub closed spec fn spec_wait_for_reboot(&self) -> bool {
        self.wait_for_reboot
    }

    /// What the loader answered, once the write is done.
    pub fn response(&self) -> (r: Option<&String>)
        requires
            self.inv(),
        ensures
            (self.stage() == WriteStage::Done) == r is Some,
            r matches Some(text) ==> text@ == latin1(self.spec_response()),
    {
        self.result.as_ref()
    }

    /// One decision of the write.
    pub fn step(&mut self, session: &mut Session, now: u64, read_error: Option<String>) -> (r: Result<Turn, String>)
        requires
            old(self).inv(),
        ensures
            final(session).spec_verbose() == old(session).spec_verbose(),
            write_post(
                *old(self),
                *final(self),
                old(session).buffered(),
                final(session).buffered(),
                now,
                read_error,
                r,
            ),
    {
        match self.stage {
            WriteStage::Done => Ok(Turn { outputs: Vec::new(), next: Next::Finished }),
            WriteStage::Prompt => self.step_prompt(session, now, read_error),
            WriteStage::Echo => self.step_echo(session, now, read_error),
            WriteStage::Start => self.step_start(session, now, read_error),
            WriteStage::Chunks => self.step_chunks(session, now, read_error),
            WriteStage::Crc => self.step_crc(session, now, read_error),
            WriteStage::Completion => self.step_completion(session, now, read_error),
        }
    }

    #[verifier::spinoff_prover]
    fn step_prompt(&mut self, session: &mut Session, now: u64, read_error: Option<String>) -> (r: Result<Turn, String>)
        requires
            old(self).inv(),
            old(self).stage() == WriteStage::Prompt,
        ensures
            final(session).spec_verbose() == old(session).spec_verbose(),
            write_post(
                *old(self),
                *final(self),
                old(session).buffered(),
                final(session).buffered(),
                now,
                read_error,
                r,
            ),
    {
        let verbose = session.is_verbose();
        if let Some(e) = read_error {
            return Err(e);
        }
        match self.prompt.step(session, now)? {
            PromptOutcome::Turn(t) => {
                proof {
                    self.sent@ = self.sent@ + sent_by(t.outputs@);
                }
                return Ok(t);
            },
            PromptOutcome::Arrived => {
                let mut outputs: Vec<Output> = Vec::new();
                if verbose {
                    let mut m = String::from_str("Sending command: ");
                    push_str(&mut m, self.command.as_str());
                    emit(&mut outputs, note(m.as_str()));
                }
                let line = vstd::slice::slice_to_vec(self.line.as_slice());
                emit(&mut outputs, Output::Send(line));
                assert(sent_by(outputs@) =~= self.line@);
                proof {
                    self.sent@ = self.sent@ + sent_by(outputs@);
                }
                self.stage = WriteStage::Echo;
                self.since = None;
                return Ok(Turn { outputs, next: Next::Continue });
            },
        }
    }

    #[verifier::spinoff_prover]
    fn step_echo(&mut self, session: &mut Session, now: u64, read_error: Option<String>) -> (r: Result<Turn, String>)
        requires
            old(self).inv(),
            old(self).stage() == WriteStage::Echo,
        ensures
            final(session).spec_verbose() == old(session).spec_verbose(),
            write_post(
                *old(self),
                *final(self),
                old(session).buffered(),
                final(session).buffered(),
                now,
                read_error,
                r,
            ),
    {
        if read_error.is_some() {
            return Err(no_echo(self.command.as_str()));
        }
        let n = self.line.len();
        let marker = vstd::slice::slice_subrange(self.line.as_slice(), 0, n - 1);
        match look_for(session, marker, &mut self.since, now, 5_000_000) {
            MarkerLook::Found(_) => {
                self.stage = WriteStage::Start;
                self.since = None;
                return Ok(Turn { outputs: Vec::new(), next: Next::Continue });
            },
            MarkerLook::Expired => {
                return Err(no_echo(self.command.as_str()));
            },
            MarkerLook::Pending => {
                return Ok(receive());
            },
        }
    }

    #[verifier::spinoff_prover]
    fn step_start(&mut self, session: &mut Session, now: u64, read_error: Option<String>) -> (r: Result<Turn, String>)
        requires
            old(self).inv(),
            old(self).stage() == WriteStage::Start,
        ensures
            final(session).spec_verbose() == old(session).spec_verbose(),
            write_post(
                *old(self),
                *final(self),
                old(session).buffered(),
                final(session).buffered(),
                now,
                read_error,
                r,
            ),
    {
        if let Some(e) = read_error {
            return Err(e);
        }
        let marker = start_bytes();
        match look_for(session, marker.as_slice(), &mut self.since, now, 10_000_000) {
            MarkerLook::Found(_) => {
                let mut outputs: Vec<Output> = Vec::new();
                emit(
                    &mut outputs,
                    Output::Progress { done: 0, total: self.data.len(), label: String::from_str("Send") },
                );
                self.stage = WriteStage::Chunks;
                self.next_chunk = 0;
                assert(self.data@.take(0) =~= Seq::<u8>::empty());
                return Ok(Turn { outputs, next: Next::Continue });
            },
            MarkerLook::Expired => {
                return Err(marker_timeout(marker.as_slice()));
            },
            MarkerLook::Pending => {
                return Ok(receive());
            },
        }
    }

    #[verifier::spinoff_prover]
    fn step_chunks(&mut self, session: &mut Session, now: u64, read_error: Option<String>) -> (r: Result<Turn, String>)
        requires
            old(self).inv(),
            old(self).stage() == WriteStage::Chunks,
        ensures
            final(session).spec_verbose() == old(session).spec_verbose(),
            write_post(
                *old(self),
                *final(self),
                old(session).buffered(),
                final(session).buffered(),
                now,
                read_error,
                r,
            ),
    {
        let len = self.data.len();
        let start = self.next_chunk;
        let end = if len - start > 1024 {
            start + 1024
        } else {
            len
        };
        let chunk = vstd::slice::slice_to_vec(
            vstd::slice::slice_subrange(self.data.as_slice(), start, end),
        );
        let mut outputs: Vec<Output> = Vec::new();
        emit(&mut outputs, Output::Send(chunk));
        emit(&mut outputs, Output::Progress { done: end, total: len, label: String::from_str("Send") });
        assert(sent_by(outputs@) =~= chunk@);
        assert(self.data@.take(start as int) + chunk@ =~= self.data@.take(end as int));
        let ghost head = poke_prefix(self.prompt.poked) + self.line@;
        assert(self.sent@ + chunk@ =~= head + self.data@.take(end as int));
        proof {
            self.sent@ = self.sent@ + sent_by(outputs@);
        }
        self.next_chunk = end;
        if end == len {
            assert(self.data@.take(len as int) =~= self.data@);
            self.stage = WriteStage::Crc;
            self.since = None;
        }
        return Ok(Turn { outputs, next: Next::Continue });
    }

    #[verifier::spinoff_prover]
    fn step_crc(&mut self, session: &mut Session, now: u64, read_error: Option<String>) -> (r: Result<Turn, String>)
        requires
            old(self).inv(),
            old(self).stage() == WriteStage::Crc,
        ensures
            final(session).spec_verbose() == old(session).spec_verbose(),
            write_post(
                *old(self),
                *final(self),
                old(session).buffered(),
                final(session).buffered(),
                now,
                read_error,
                r,
            ),
    {
        let verbose = session.is_verbose();
        if let Some(e) = read_error {
            return Err(e);
        }
        let marker = crc_bytes();
        match look_for(session, marker.as_slice(), &mut self.since, now, 10_000_000) {
            MarkerLook::Found(_) => {
                let checksum = gx_checksum_be(self.data.as_slice());
                let mut outputs: Vec<Output> = Vec::new();
                emit(&mut outputs, Output::Send(vstd::slice::slice_to_vec(&checksum)));
                if verbose {
                    let mut m = String::from_str("Sent GX checksum 0x");
                    push_hex_fixed(&mut m, gx_checksum(self.data.as_slice()) as u64, 8, true);
                    emit(&mut outputs, note(m.as_str()));
                }
                assert(sent_by(outputs@) =~= checksum@);
                proof {
                    self.sent@ = self.sent@ + sent_by(outputs@);
                }
                self.stage = WriteStage::Completion;
                self.since = None;
                return Ok(Turn { outputs, next: Next::Continue });
            },
            MarkerLook::Expired => {
                return Err(marker_timeout(marker.as_slice()));
            },
            MarkerLook::Pending => {
                return Ok(receive());
            },
        }
    }

    #[verifier::spinoff_prover]
    fn step_completion(&mut self, session: &mut Session, now: u64, read_error: Option<String>) -> (r: Result<Turn, String>)
        requires
            old(self).inv(),
            old(self).stage() == WriteStage::Completion,
        ensures
            final(session).spec_verbose() == old(session).spec_verbose(),
            write_post(
                *old(self),
                *final(self),
                old(session).buffered(),
                final(session).buffered(),
                now,
                read_error,
                r,
            ),
    {
        if let Some(e) = read_error {
            return Err(e);
        }
        let (fin, done) = session.completion_step(&mut self.response, self.saw_fin, self.wait_for_reboot);
        self.saw_fin = fin;
        let start = match self.since {
            Some(t) => t,
            None => now,
        };
        self.since = Some(start);
        if !done && elapsed(start, now) < self.completion_limit {
            return Ok(receive());
        }
        let text = trimmed_latin1(self.response.as_slice());
        if checksum_rejected(self.response.as_slice()) {
            let mut m = String::from_str("device rejected checksum: ");
            push_str(&mut m, text.as_str());
            return Err(m);
        }
        if !done {
            let mut m = String::from_str("timeout waiting for device completion; last response: ");
            push_str(&mut m, text.as_str());
            return Err(m);
        }
        self.result = Some(latin1_string(self.response.as_slice()));
        self.stage = WriteStage::Done;
        return Ok(Turn { outputs: Vec::new(), next: Next::Finished });
    }

}


// ---------------------------------------------------------------------
// Binary read
// ---------------------------------------------------------------------

/// Where a binary read is.
#[derive(Clone, Copy, Debug, PartialEq, Eq)]
pub enum ReadStage {
    Prompt,
    Echo,
    Start,
    Payload,
    Crc,
    CrcBytes,
    Fin,
    Done,
}

/// Reads a binary payload after a command: waits for the prompt, sends the
/// command and waits for its echo, waits for `~sta~`, receives `size`
/// bytes (allowing at least two minutes, and a minute more than 10 kB/s
/// would take), then takes the four-byte CRC after `~crc~` (a missing
/// `~crc~` is only a warning) and waits briefly for `~fin~`.
pub struct BinaryRead {
    command: String,
    line: Vec<u8>,
    size: usize,
    stage: ReadStage,
    prompt: PromptWait,
    since: Option<u64>,
    just_read: bool,
    data: Vec<u8>,
    crc: Option<u32>,
    sent: Ghost<Seq<u8>>,
}

/// Time allowed for a payload of `size` bytes, in microseconds: the larger
/// of two minutes and a minute plus `size / 10000` seconds.
pub open spec fn payload_limit(size: usize) -> int {
    let t = size * 100 + 60_000_000;
    if t > 120_000_000 {
        t
    } else {
        120_000_000
    }
}

fn payload_limit_of(size: usize) -> (r: u64)
    ensures
        r == if payload_limit(size) > u64::MAX {
            u64::MAX as int
        } else {
            payload_limit(size)
        },
{
    let t = match (size as u64).checked_mul(100) {
        Some(x) => match x.checked_add(60_000_000) {
            Some(y) => y,
            None => u64::MAX,
        },
        None => u64::MAX,
    };
    if t > 120_000_000 {
        t
    } else {
        120_000_000
    }
}

/// `<prefix><got>/<want> bytes`.
pub open spec fn count_text(prefix: Seq<char>, got: nat, want: nat) -> Seq<char> {
    prefix + decimal(got) + "/"@ + decimal(want) + " bytes"@
}

fn count_report(prefix: &str, got: usize, want: usize) -> (r: String)
    ensures
        r@ == count_text(prefix@, got as nat, want as nat),
{
    let mut m = String::from_str(prefix);
    push_decimal(&mut m, got as u64);
    push_str(&mut m, "/");
    push_decimal(&mut m, want as u64);
    push_str(&mut m, " bytes");
    m
}

/// What a step of a binary read promises: the frame conditions on what is
/// sent, that the payload is the first `size` bytes after `~sta~` and the
/// CRC the four bytes after `~crc~`, the failures of [`read_failure`], and
/// [`read_progress`].
pub open spec fn read_post(
    o: BinaryRead,
    n: BinaryRead,
    old_buf: Seq<u8>,
    new_buf: Seq<u8>,
    now: u64,
    read_error: Option<String>,
    r: Result<Turn, String>,
) -> bool {
    &&& n.inv()
    &&& n.spec_line() == o.spec_line()
    &&& n.spec_size() == o.spec_size()
    &&& n.spec_command() == o.spec_command()
    &&& (r matches Ok(t) ==> n.sent() == o.sent() + sent_by(t.outputs@))
    &&& (r is Err ==> n.sent() == o.sent())
    &&& (r matches Ok(t) ==> (t.next == Next::Finished <==> n.stage() == ReadStage::Done))
    &&& (n.stage() != ReadStage::Prompt ==> n.sent() == poke_prefix(n.poked()) + n.spec_line())
    &&& (o.stage() == ReadStage::Payload && n.stage() != ReadStage::Payload ==> {
        &&& n.spec_data() == old_buf.take(o.spec_size() as int)
        &&& new_buf == old_buf.skip(o.spec_size() as int)
    })
    &&& (o.stage() != ReadStage::Payload ==> n.spec_data() == o.spec_data())
    &&& (o.stage() == ReadStage::CrcBytes && n.stage() != ReadStage::CrcBytes ==> {
        &&& n.spec_crc() == Some(le_u32(old_buf[0], old_buf[1], old_buf[2], old_buf[3]))
        &&& new_buf == old_buf.skip(4)
    })
    &&& (o.stage() == ReadStage::Crc && n.stage() == ReadStage::Fin ==> n.spec_crc() is None)
    &&& (o.stage() != ReadStage::Crc && o.stage() != ReadStage::CrcBytes ==> n.spec_crc() == o.spec_crc())
    &&& (r matches Err(e) ==> read_error == Some(e) || e@ == read_failure(
        o.stage(),
        o.spec_command(),
        o.spec_size(),
        new_buf,
    ))
    &&& (r is Err ==> read_error is Some || o.timed_out(now))
    &&& read_progress(o, n, old_buf, new_buf, now, read_error, r)
}

/// How a step of a binary read moves it on: the prompt leads to the
/// command line, its echo to the wait for `~sta~`, `~sta~` to the payload,
/// `size` bytes of payload to the wait for `~crc~`, `~crc~` to its four
/// bytes, and these to the wait for `~fin~`, after which the read is done.
/// A wait that is not over reads on; one that is over fails, except the
/// waits for `~crc~` and `~fin~`, which then go on without them; a failed
/// read ends the read, except in those two waits.
pub open spec fn read_progress(
    o: BinaryRead,
    n: BinaryRead,
    old_buf: Seq<u8>,
    new_buf: Seq<u8>,
    now: u64,
    read_error: Option<String>,
    r: Result<Turn, String>,
) -> bool {
    &&& (o.stage() == ReadStage::Done ==> (r matches Ok(t) && t.next == Next::Finished && t.outputs@.len()
        == 0))
    &&& (read_error matches Some(e) ==> (o.stage() == ReadStage::Prompt || o.stage() == ReadStage::Start
        || o.stage() == ReadStage::Payload || o.stage() == ReadStage::CrcBytes) ==> r == Err::<Turn, String>(e))
    &&& (read_error is Some && o.stage() == ReadStage::Echo ==> r is Err)
    &&& (read_error is Some && o.stage() == ReadStage::Crc ==> (r matches Ok(t) && t.next == Next::Continue
        && n.stage() == ReadStage::Fin))
    &&& (read_error is Some && o.stage() == ReadStage::Fin ==> (r matches Ok(t) && t.next == Next::Finished))
    &&& (read_error is None && o.stage() == ReadStage::Prompt ==> if has_marker(old_buf, prompt_marker()) {
        &&& r matches Ok(t) && t.next == Next::Continue && sent_by(t.outputs@) == o.spec_line()
        &&& n.stage() == ReadStage::Echo
        &&& consumes_prompt(old_buf, new_buf)
    } else {
        &&& (r is Err <==> o.timed_out(now))
        &&& (r is Ok ==> n.stage() == ReadStage::Prompt && new_buf == old_buf)
    })
    &&& (read_error is None && o.stage() == ReadStage::Echo ==> if has_marker(old_buf, o.spec_line().drop_last()) {
        &&& r matches Ok(t) && t.next == Next::Continue && t.outputs@.len() == 0
        &&& n.stage() == ReadStage::Start
        &&& consumes_marker(old_buf, new_buf, o.spec_line().drop_last())
    } else {
        &&& (r is Err <==> o.timed_out(now))
        &&& (r matches Ok(t) ==> t.next == (Next::Receive { trace: false }) && t.outputs@.len() == 0)
        &&& (r is Ok ==> n.stage() == ReadStage::Echo && new_buf == old_buf)
    })
    &&& (read_error is None && o.stage() == ReadStage::Start ==> if has_marker(
        old_buf,
        crate::protocol::start_marker(),
    ) {
        &&& r matches Ok(t) && t.next == Next::Continue && sent_by(t.outputs@) == Seq::<u8>::empty()
        &&& n.stage() == ReadStage::Payload
        &&& consumes_marker(old_buf, new_buf, crate::protocol::start_marker())
    } else {
        &&& (r is Err <==> o.timed_out(now))
        &&& (r matches Ok(t) ==> t.next == (Next::Receive { trace: false }) && t.outputs@.len() == 0)
        &&& (r is Ok ==> n.stage() == ReadStage::Start && new_buf == old_buf)
    })
    &&& (read_error is None && o.stage() == ReadStage::Payload ==> if o.spec_just_read() {
        &&& r matches Ok(t) && t.next == Next::Continue && sent_by(t.outputs@) == Seq::<u8>::empty()
        &&& n.stage() == ReadStage::Payload
        &&& !n.spec_just_read()
        &&& new_buf == old_buf
    } else if old_buf.len() >= o.spec_size() {
        &&& r matches Ok(t) && t.next == Next::Continue && t.outputs@.len() == 0
        &&& n.stage() == ReadStage::Crc
    } else {
        &&& (r is Err <==> o.timed_out(now))
        &&& (r matches Ok(t) ==> t.next == (Next::Receive { trace: false }) && t.outputs@.len() == 0)
        &&& (r is Ok ==> n.stage() == ReadStage::Payload && n.spec_just_read() && new_buf == old_buf)
    })
    &&& (read_error is None && o.stage() == ReadStage::Crc ==> if has_marker(
        old_buf,
        crate::protocol::crc_marker(),
    ) {
        &&& r matches Ok(t) && t.next == Next::Continue && t.outputs@.len() == 0
        &&& n.stage() == ReadStage::CrcBytes
        &&& consumes_marker(old_buf, new_buf, crate::protocol::crc_marker())
    } else if o.wait_over(now) {
        &&& r matches Ok(t) && t.next == Next::Continue && sent_by(t.outputs@) == Seq::<u8>::empty()
        &&& n.stage() == ReadStage::Fin
        &&& new_buf == old_buf
    } else {
        &&& r matches Ok(t) && t.next == (Next::Receive { trace: false }) && t.outputs@.len() == 0
        &&& n.stage() == ReadStage::Crc
        &&& new_buf == old_buf
    })
    &&& (read_error is None && o.stage() == ReadStage::CrcBytes ==> if old_buf.len() >= 4 {
        &&& r matches Ok(t) && t.next == Next::Continue && t.outputs@.len() == 0
        &&& n.stage() == ReadStage::Fin
    } else {
        &&& (r is Err <==> o.timed_out(now))
        &&& (r matches Ok(t) ==> t.next == (Next::Receive { trace: false }) && t.outputs@.len() == 0)
        &&& (r is Ok ==> n.stage() == ReadStage::CrcBytes && new_buf == old_buf)
    })
    &&& (read_error is None && o.stage() == ReadStage::Fin ==> if has_marker(
        old_buf,
        crate::protocol::fin_marker(),
    ) {
        &&& r matches Ok(t) && t.next == Next::Finished
        &&& consumes_marker(old_buf, new_buf, crate::protocol::fin_marker())
    } else if o.wait_over(now) {
        &&& r matches Ok(t) && t.next == Next::Finished
        &&& new_buf == old_buf
    } else {
        &&& r matches Ok(t) && t.next == (Next::Receive { trace: false }) && t.outputs@.len() == 0
        &&& n.stage() == ReadStage::Fin
        &&& new_buf == old_buf
    })
}

/// What a step of a binary read in `stage` fails with when the caller
/// reported no failed read; `size` is the payload's length and `buffered`
/// what the session holds after the step.
pub open spec fn read_failure(stage: ReadStage, command: Seq<char>, size: usize, buffered: Seq<u8>) -> Seq<char> {
    match stage {
        ReadStage::Prompt => prompt_timeout_text(),
        ReadStage::Echo => no_echo_text(command),
        ReadStage::Start => marker_timeout_text(crate::protocol::start_marker()),
        ReadStage::Payload => count_text(
            "timeout reading binary payload: received "@,
            buffered.len(),
            size as nat,
        ),
        _ => count_text("timeout reading device CRC: received "@, buffered.len(), 4),
    }
}

impl BinaryRead {
    pub closed spec fn stage(&self) -> ReadStage {
        self.stage
    }

    pub closed spec fn spec_command(&self) -> Seq<char> {
        self.command@
    }

    /// The last step read from the device during the payload, and the next
    /// one reports progress before looking at the buffer.
    pub closed spec fn spec_just_read(&self) -> bool {
        self.just_read
    }

    /// The wait for `~crc~` (5 s) or for `~fin~` (2 s) has lasted its limit
    /// by `now`.
    pub closed spec fn wait_over(&self, now: u64) -> bool {
        match self.stage {
            ReadStage::Crc => waited_out(self.since, now, 5_000_000),
            ReadStage::Fin => waited_out(self.since, now, 2_000_000),
            _ => false,
        }
    }

    /// The wait of the current stage has lasted its limit by `now`; a
    /// missing CRC marker or `~fin~` ends its wait without failing.
    pub closed spec fn timed_out(&self, now: u64) -> bool {
        match self.stage {
            ReadStage::Prompt => self.prompt.expired(now),
            ReadStage::Echo => waited_out(self.since, now, 5_000_000),
            ReadStage::Start => waited_out(self.since, now, 10_000_000),
            ReadStage::Payload => !self.just_read && waited_out(
                self.since,
                now,
                if payload_limit(self.size) > u64::MAX {
                    u64::MAX as int
                } else {
                    payload_limit(self.size)
                },
            ),
            ReadStage::CrcBytes => waited_out(self.since, now, 2_000_000),
            ReadStage::Crc | ReadStage::Fin | ReadStage::Done => false,
        }
    }

    pub closed spec fn sent(&self) -> Seq<u8> {
        self.sent@
    }

    pub closed spec fn spec_line(&self) -> Seq<u8> {
        self.line@
    }

    pub closed spec fn spec_size(&self) -> usize {
        self.size
    }

    pub closed spec fn poked(&self) -> bool {
        self.prompt.poked
    }

    /// The payload, once received.
    pub closed spec fn spec_data(&self) -> Seq<u8> {
        self.data@
    }

    pub closed spec fn spec_crc(&self) -> Option<u32> {
        self.crc
    }

    pub closed spec fn inv(&self) -> bool {
        &&& self.line@.len() > 0
        &&& self.size > 0
        &&& match self.stage {
            ReadStage::Prompt => self.sent@ == poke_prefix(self.prompt.poked),
            _ => self.sent@ == poke_prefix(self.prompt.poked) + self.line@,
        }
        &&& match self.stage {
            ReadStage::Crc | ReadStage::CrcBytes | ReadStage::Fin | ReadStage::Done =>
                self.data@.len() == self.size,
            _ => true,
        }
    }


    /// The payload and the CRC that the device reported, once done.
    pub fn result(&self) -> (r: Option<(&Vec<u8>, Option<u32>)>)
        ensures
            (self.stage() == ReadStage::Done) == r is Some,
            r matches Some((data, crc)) ==> data@ == self.spec_data() && crc == self.spec_crc(),
    {
        if let ReadStage::Done = self.stage {
            Some((&self.data, self.crc))
        } else {
            None
        }
    }

    /// One decision of the read.
    pub fn step(&mut self, session: &mut Session, now: u64, read_error: Option<String>) -> (r: Result<Turn, String>)
        requires
            old(self).inv(),
        ensures
            final(session).spec_verbose() == old(session).spec_verbose(),
            read_post(
                *old(self),
                *final(self),
                old(session).buffered(),
                final(session).buffered(),
                now,
                read_error,
                r,
            ),
    {
        match self.stage {
            ReadStage::Done => Ok(Turn { outputs: Vec::new(), next: Next::Finished }),
            ReadStage::Prompt => self.read_prompt(session, now, read_error),
            ReadStage::Echo => self.read_echo(session, now, read_error),
            ReadStage::Start => self.read_start(session, now, read_error),
            ReadStage::Payload => self.read_payload(session, now, read_error),
            ReadStage::Crc => self.read_crc(session, now, read_error),
            ReadStage::CrcBytes => self.read_crc_bytes(session, now, read_error),
            ReadStage::Fin => self.read_fin(session, now, read_error),
        }
    }

    #[verifier::spinoff_prover]
    fn read_prompt(&mut self, session: &mut Session, now: u64, read_error: Option<String>) -> (r: Result<Turn, String>)
        requires
            old(self).inv(),
            old(self).stage() == ReadStage::Prompt,
        ensures
            final(session).spec_verbose() == old(session).spec_verbose(),
            read_post(
                *old(self),
                *final(self),
                old(session).buffered(),
                final(session).buffered(),
                now,
                read_error,
                r,
            ),
    {
        let verbose = session.is_verbose();
        if let Some(e) = read_error {
            return Err(e);
        }
        match self.prompt.step(session, now)? {
            PromptOutcome::Turn(t) => {
                proof {
                    self.sent@ = self.sent@ + sent_by(t.outputs@);
                }
                Ok(t)
            },
            PromptOutcome::Arrived => {
                let mut outputs: Vec<Output> = Vec::new();
                if verbose {
                    let mut m = String::from_str("Sending command: ");
                    push_str(&mut m, self.command.as_str());
                    emit(&mut outputs, note(m.as_str()));
                }
                let line = vstd::slice::slice_to_vec(self.line.as_slice());
                emit(&mut outputs, Output::Send(line));
                assert(sent_by(outputs@) =~= self.line@);
                proof {
                    self.sent@ = self.sent@ + sent_by(outputs@);
                }
                self.stage = ReadStage::Echo;
                self.since = None;
                Ok(Turn { outputs, next: Next::Continue })
            },
        }
    }

    #[verifier::spinoff_prover]
    fn read_echo(&mut self, session: &mut Session, now: u64, read_error: Option<String>) -> (r: Result<Turn, String>)
        requires
            old(self).inv(),
            old(self).stage() == ReadStage::Echo,
        ensures
            final(session).spec_verbose() == old(session).spec_verbose(),
            read_post(
                *old(self),
                *final(self),
                old(session).buffered(),
                final(session).buffered(),
                now,
                read_error,
                r,
            ),
    {
        if read_error.is_some() {
            return Err(no_echo(self.command.as_str()));
        }
        let n = self.line.len();
        let marker = vstd::slice::slice_subrange(self.line.as_slice(), 0, n - 1);
        match look_for(session, marker, &mut self.since, now, 5_000_000) {
            MarkerLook::Found(_) => {
                self.stage = ReadStage::Start;
                self.since = None;
                Ok(Turn { outputs: Vec::new(), next: Next::Continue })
            },
            MarkerLook::Expired => Err(no_echo(self.command.as_str())),
            MarkerLook::Pending => Ok(receive()),
        }
    }

    #[verifier::spinoff_prover]
    fn read_start(&mut self, session: &mut Session, now: u64, read_error: Option<String>) -> (r: Result<Turn, String>)
        requires
            old(self).inv(),
            old(self).stage() == ReadStage::Start,
        ensures
            final(session).spec_verbose() == old(session).spec_verbose(),
            read_post(
                *old(self),
                *final(self),
                old(session).buffered(),
                final(session).buffered(),
                now,
                read_error,
                r,
            ),
    {
        if let Some(e) = read_error {
            return Err(e);
        }
        let marker = start_bytes();
        match look_for(session, marker.as_slice(), &mut self.since, now, 10_000_000) {
            MarkerLook::Found(_) => {
                let mut outputs: Vec<Output> = Vec::new();
                let mut m = String::from_str("[*] Receiving ");
                push_decimal(&mut m, self.size as u64);
                push_str(&mut m, " bytes");
                emit(&mut outputs, Output::Say(m));
                emit(
                    &mut outputs,
                    Output::Progress { done: 0, total: self.size, label: String::from_str("Receive") },
                );
                assert(sent_by(outputs@) =~= Seq::<u8>::empty());
                self.stage = ReadStage::Payload;
                self.since = Some(now);
                self.just_read = false;
                Ok(Turn { outputs, next: Next::Continue })
            },
            MarkerLook::Expired => Err(marker_timeout(marker.as_slice())),
            MarkerLook::Pending => Ok(receive()),
        }
    }

    #[verifier::spinoff_prover]
    fn read_payload(&mut self, session: &mut Session, now: u64, read_error: Option<String>) -> (r: Result<Turn, String>)
        requires
            old(self).inv(),
            old(self).stage() == ReadStage::Payload,
        ensures
            final(session).spec_verbose() == old(session).spec_verbose(),
            read_post(
                *old(self),
                *final(self),
                old(session).buffered(),
                final(session).buffered(),
                now,
                read_error,
                r,
            ),
    {
        if let Some(e) = read_error {
            return Err(e);
        }
        if self.just_read {
            self.just_read = false;
            let have = session.pending().len();
            let done = if have < self.size {
                have
            } else {
                self.size
            };
            let mut outputs: Vec<Output> = Vec::new();
            emit(
                &mut outputs,
                Output::Progress { done, total: self.size, label: String::from_str("Receive") },
            );
            assert(sent_by(outputs@) =~= Seq::<u8>::empty());
            return Ok(Turn { outputs, next: Next::Continue });
        }
        match session.take_exact(self.size) {
            Some(data) => {
                self.data = data;
                self.stage = ReadStage::Crc;
                self.since = None;
                Ok(Turn { outputs: Vec::new(), next: Next::Continue })
            },
            None => {
                let start = match self.since {
                    Some(t) => t,
                    None => now,
                };
                if elapsed(start, now) >= payload_limit_of(self.size) {
                    return Err(
                        count_report(
                            "timeout reading binary payload: received ",
                            session.pending().len(),
                            self.size,
                        ),
                    );
                }
                self.just_read = true;
                Ok(receive())
            },
        }
    }

    #[verifier::spinoff_prover]
    fn read_crc(&mut self, session: &mut Session, now: u64, read_error: Option<String>) -> (r: Result<Turn, String>)
        requires
            old(self).inv(),
            old(self).stage() == ReadStage::Crc,
        ensures
            final(session).spec_verbose() == old(session).spec_verbose(),
            read_post(
                *old(self),
                *final(self),
                old(session).buffered(),
                final(session).buffered(),
                now,
                read_error,
                r,
            ),
    {
        let marker = crc_bytes();
        let look = match read_error {
            Some(e) => Err(e),
            None => match look_for(session, marker.as_slice(), &mut self.since, now, 5_000_000) {
                MarkerLook::Found(_) => Ok(true),
                MarkerLook::Expired => Err(marker_timeout(marker.as_slice())),
                MarkerLook::Pending => Ok(false),
            },
        };
        match look {
            Ok(true) => {
                self.stage = ReadStage::CrcBytes;
                self.since = None;
                Ok(Turn { outputs: Vec::new(), next: Next::Continue })
            },
            Ok(false) => Ok(receive()),
            Err(e) => {
                let mut outputs: Vec<Output> = Vec::new();
                let mut m = String::from_str("[!] Warning: ");
                push_str(&mut m, e.as_str());
                emit(&mut outputs, Output::Warn(m));
                assert(sent_by(outputs@) =~= Seq::<u8>::empty());
                self.crc = None;
                self.stage = ReadStage::Fin;
                self.since = None;
                Ok(Turn { outputs, next: Next::Continue })
            },
        }
    }

    #[verifier::spinoff_prover]
    fn read_crc_bytes(&mut self, session: &mut Session, now: u64, read_error: Option<String>) -> (r: Result<Turn, String>)
        requires
            old(self).inv(),
            old(self).stage() == ReadStage::CrcBytes,
        ensures
            final(session).spec_verbose() == old(session).spec_verbose(),
            read_post(
                *old(self),
                *final(self),
                old(session).buffered(),
                final(session).buffered(),
                now,
                read_error,
                r,
            ),
    {
        if let Some(e) = read_error {
            return Err(e);
        }
        let ghost b = session.buffered();
        match session.take_exact(4) {
            Some(bytes) => {
                self.crc = Some(crate::loader::read_u32(bytes[0], bytes[1], bytes[2], bytes[3]));
                self.stage = ReadStage::Fin;
                self.since = None;
                Ok(Turn { outputs: Vec::new(), next: Next::Continue })
            },
            None => {
                let start = match self.since {
                    Some(t) => t,
                    None => now,
                };
                self.since = Some(start);
                if elapsed(start, now) >= 2_000_000 {
                    return Err(
                        count_report("timeout reading device CRC: received ", session.pending().len(), 4),
                    );
                }
                Ok(receive())
            },
        }
    }

    #[verifier::spinoff_prover]
    fn read_fin(&mut self, session: &mut Session, now: u64, read_error: Option<String>) -> (r: Result<Turn, String>)
        requires
            old(self).inv(),
            old(self).stage() == ReadStage::Fin,
        ensures
            final(session).spec_verbose() == old(session).spec_verbose(),
            read_post(
                *old(self),
                *final(self),
                old(session).buffered(),
                final(session).buffered(),
                now,
                read_error,
                r,
            ),
    {
        let verbose = session.is_verbose();
        let marker = fin_bytes();
        let finished = match read_error {
            Some(_) => Some(false),
            None => match look_for(session, marker.as_slice(), &mut self.since, now, 2_000_000) {
                MarkerLook::Found(_) => Some(true),
                MarkerLook::Expired => Some(false),
                MarkerLook::Pending => None,
            },
        };
        match finished {
            None => Ok(receive()),
            Some(seen) => {
                let mut outputs: Vec<Output> = Vec::new();
                if !seen && verbose {
                    emit(&mut outputs, note("No ~fin~ marker received after binary read"));
                }
                if let Some(crc) = self.crc {
                    if verbose {
                        let mut m = String::from_str("Device-reported CRC: 0x");
                        push_hex_fixed(&mut m, crc as u64, 8, true);
                        push_str(&mut m, " (not verified)");
                        emit(&mut outputs, note(m.as_str()));
                    }
                }
                assert(sent_by(outputs@) =~= Seq::<u8>::empty());
                self.stage = ReadStage::Done;
                Ok(Turn { outputs, next: Next::Finished })
            },
        }
    }

}


// ---------------------------------------------------------------------
// Text command
// ---------------------------------------------------------------------

/// Sends a text command and takes its answer: waits for the prompt, sends
/// the command line, and waits up to `limit` for the next prompt; the
/// answer is what came before it, without the echoed command line.
pub struct TextCommand {
    command: String,
    line: Vec<u8>,
    limit: u64,
    answering: bool,
    prompt: PromptWait,
    since: Option<u64>,
    result: Option<String>,
    sent: Ghost<Seq<u8>>,
}

impl TextCommand {
    pub closed spec fn spec_command(&self) -> Seq<char> {
        self.command@
    }

    pub closed spec fn spec_line(&self) -> Seq<u8> {
        self.line@
    }

    pub closed spec fn sent(&self) -> Seq<u8> {
        self.sent@
    }

    pub closed spec fn poked(&self) -> bool {
        self.prompt.poked
    }

    /// The command line has been sent.
    pub closed spec fn answering(&self) -> bool {
        self.answering
    }

    pub closed spec fn spec_result(&self) -> Option<String> {
        self.result
    }

    /// The wait for the prompt, before the command or after it, has lasted
    /// its limit by `now`.
    pub closed spec fn timed_out(&self, now: u64) -> bool {
        &&& self.result is None
        &&& if self.answering {
            waited_out(self.since, now, self.limit as int)
        } else {
            self.prompt.expired(now)
        }
    }

    pub closed spec fn inv(&self) -> bool {
        &&& self.answering ==> self.sent@ == poke_prefix(self.prompt.poked) + self.line@
        &&& !self.answering ==> self.sent@ == poke_prefix(self.prompt.poked) && self.result is None
    }


    /// The answer, once it has come.
    pub fn result(&self) -> (r: Option<&String>)
        ensures
            r == match self.spec_result() {
                Some(s) => Some(&s),
                None => None::<&String>,
            },
    {
        self.result.as_ref()
    }

    /// One decision of the exchange.
    #[verifier::spinoff_prover]
    pub fn step(&mut self, session: &mut Session, now: u64, read_error: Option<String>) -> (r: Result<Turn, String>)
        requires
            old(self).inv(),
        ensures
            final(self).inv(),
            final(session).spec_verbose() == old(session).spec_verbose(),
            final(self).spec_command() == old(self).spec_command(),
            final(self).spec_line() == old(self).spec_line(),
            r matches Ok(t) ==> final(self).sent() == old(self).sent() + sent_by(t.outputs@),
            r is Err ==> final(self).sent() == old(self).sent(),
            r matches Ok(t) ==> (t.next == Next::Finished <==> final(self).spec_result() is Some),
            old(self).spec_result() is None ==> (final(self).spec_result() matches Some(answer)
                ==> exists|i: int|
                #[trigger] is_first_match(old(session).buffered(), prompt_marker(), i) && answer@
                    == clean_response(old(self).spec_command(), latin1(old(session).buffered().take(i)))),
            r matches Err(e) ==> read_error == Some(e) || e@ == (if old(self).answering() {
                marker_timeout_text(prompt_marker())
            } else {
                prompt_timeout_text()
            }),
            r is Err ==> read_error is Some || old(self).timed_out(now),
            old(self).spec_result() is Some ==> (r matches Ok(t) && t.next == Next::Finished
                && t.outputs@.len() == 0 && final(self).spec_result() == old(self).spec_result()),
            old(self).spec_result() is None ==> (read_error matches Some(e) ==> r == Err::<Turn, String>(e)),
            old(self).spec_result() is None && read_error is None && !old(self).answering() ==> if has_marker(
                old(session).buffered(),
                prompt_marker(),
            ) {
                &&& r matches Ok(t) && t.next == Next::Continue && sent_by(t.outputs@) == old(self).spec_line()
                &&& final(self).answering()
                &&& final(self).spec_result() is None
                &&& consumes_prompt(old(session).buffered(), final(session).buffered())
            } else {
                &&& (r is Err <==> old(self).timed_out(now))
                &&& (r is Ok ==> !final(self).answering() && final(self).spec_result() is None
                    && final(session).buffered() == old(session).buffered())
            },
            old(self).spec_result() is None && read_error is None && old(self).answering() ==> if has_marker(
                old(session).buffered(),
                prompt_marker(),
            ) {
                &&& r matches Ok(t) && t.next == Next::Finished && t.outputs@.len() == 0
                &&& final(self).spec_result() is Some
                &&& consumes_marker(old(session).buffered(), final(session).buffered(), prompt_marker())
            } else {
                &&& (r is Err <==> old(self).timed_out(now))
                &&& (r matches Ok(t) ==> t.next == (Next::Receive { trace: false }) && t.outputs@.len() == 0)
                &&& (r is Ok ==> final(self).answering() && final(self).spec_result() is None
                    && final(session).buffered() == old(session).buffered())
            },
    {
        if self.result.is_some() {
            return Ok(Turn { outputs: Vec::new(), next: Next::Finished });
        }
        if let Some(e) = read_error {
            return Err(e);
        }
        if !self.answering {
            match self.prompt.step(session, now)? {
                PromptOutcome::Turn(t) => {
                    proof {
                        self.sent@ = self.sent@ + sent_by(t.outputs@);
                    }
                    Ok(t)
                },
                PromptOutcome::Arrived => {
                    let mut outputs: Vec<Output> = Vec::new();
                    if session.is_verbose() {
                        let mut m = String::from_str("Sending command: ");
                        push_str(&mut m, self.command.as_str());
                        emit(&mut outputs, note(m.as_str()));
                    }
                    let line = vstd::slice::slice_to_vec(self.line.as_slice());
                    emit(&mut outputs, Output::Send(line));
                    assert(sent_by(outputs@) =~= self.line@);
                    proof {
                        self.sent@ = self.sent@ + sent_by(outputs@);
                    }
                    self.answering = true;
                    self.since = None;
                    Ok(Turn { outputs, next: Next::Continue })
                },
            }
        } else {
            let marker = prompt_bytes();
            match look_for(session, marker.as_slice(), &mut self.since, now, self.limit) {
                MarkerLook::Found(before) => {
                    let answer = clean_text_response(self.command.as_str(), before.as_slice());
                    proof {
                        assert(is_first_match(old(session).buffered(), prompt_marker(), before@.len() as int));
                    }
                    self.result = Some(answer);
                    Ok(Turn { outputs: Vec::new(), next: Next::Finished })
                },
                MarkerLook::Expired => Err(marker_timeout(marker.as_slice())),
                MarkerLook::Pending => Ok(receive()),
            }
        }
    }
}


// ---------------------------------------------------------------------
// Loader upload
// ---------------------------------------------------------------------

/// Where an upload is.
#[derive(Clone, Copy, Debug, PartialEq, Eq)]
pub enum BootStage {
    Start,
    Handshake,
    Runget,
    Stage2,
    Chunks,
    Output,
    Done,
}

/// Uploads a loader through the BootROM: optionally pulses DTR and RTS,
/// waits for the handshake, sends Stage 1, waits for `RUNGET`, sends
/// Stage 2 in 2048-byte chunks, then collects the loader's start-up output
/// until its prompt, half a second of silence, or fifteen seconds.
pub struct BootUpload {
    reset_dtr: bool,
    reset_rts: bool,
    announce: Vec<String>,
    frame: Vec<u8>,
    metadata: Vec<u8>,
    content: Vec<u8>,
    stage: BootStage,
    since: Option<u64>,
    run_at: Option<u64>,
    next_chunk: usize,
    last_data: u64,
    output: Vec<u8>,
    sent: Ghost<Seq<u8>>,
}

fn hex_label(prefix: &str, data: &[u8]) -> (r: String)
    ensures
        r@ == prefix@ + hex_text(data@),
{
    let mut m = String::from_str(prefix);
    let h = hex(data);
    push_str(&mut m, h.as_str());
    m
}

/// The wait for the loader's start-up output ends when, with `arrived` just
/// added to `output`, the prompt has shown up; when it has lasted 15 s
/// (`waited`, in µs); or when output has come and then nothing for half a
/// second (`quiet`).
pub open spec fn output_ends(output: Seq<u8>, arrived: Seq<u8>, waited: int, quiet: int) -> bool {
    ||| (arrived.len() > 0 && has_marker(output + arrived, prompt_marker()))
    ||| waited >= 15_000_000
    ||| (arrived.len() == 0 && output.len() > 0 && quiet >= 500_000)
}

/// The two lines that open an upload: the loader's name and size, then its
/// version and chip (four uppercase hexadecimal digits each) and baud rate.
pub open spec fn boot_banner(name: Seq<char>, size: nat, version: u16, chip: u16, baud: u32) -> Seq<
    Seq<char>,
> {
    seq![
        "[+] Loaded boot loader: "@ + name + " ("@ + decimal(size) + " bytes)"@,
        "    Version: 0x"@ + hex_upper_fixed(version as nat, 4) + ", Chip: 0x"@ + hex_upper_fixed(
            chip as nat,
            4,
        ) + ", Baud: "@ + decimal(baud as nat),
    ]
}

/// `outs` begin by showing `lines`, in order.
pub open spec fn says_first(outs: Seq<Output>, lines: Seq<Seq<char>>) -> bool {
    &&& outs.len() >= lines.len()
    &&& forall|k: int| 0 <= k < lines.len() ==> (#[trigger] outs[k] matches Output::Say(s) && s@ == lines[k])
}

/// What a step of an upload in `stage` fails with when the caller reported
/// no failed read; `buffered` is what the session holds after the step.
pub open spec fn boot_failure(stage: BootStage, buffered: Seq<u8>) -> Seq<char> {
    if stage == BootStage::Handshake {
        "timeout waiting for handshake; last bytes: "@ + hex_text(buffered)
    } else {
        "timeout waiting for RUNGET; received: "@ + latin1(buffered)
    }
}

impl BootUpload {
    pub closed spec fn stage(&self) -> BootStage {
        self.stage
    }

    /// The wait for the handshake (30 s) or for `RUNGET` (15 s) has lasted
    /// its limit by `now`; no other stage waits with a limit that fails.
    pub closed spec fn timed_out(&self, now: u64) -> bool {
        match self.stage {
            BootStage::Handshake => waited_out(self.since, now, 30_000_000),
            BootStage::Runget => waited_out(self.since, now, 15_000_000),
            _ => false,
        }
    }

    /// When a step of the upload fails: with the failed read the caller
    /// reported, or at the end of a wait, with [`boot_failure`].
    pub open spec fn step_failure(
        old_self: BootUpload,
        new_buffer: Seq<u8>,
        now: u64,
        read_error: Option<String>,
        r: Result<Turn, String>,
    ) -> bool {
        &&& (r matches Err(e) ==> read_error == Some(e) || e@ == boot_failure(old_self.stage(), new_buffer))
        &&& (r is Err ==> read_error is Some || old_self.timed_out(now))
    }

    /// How a step of the upload moves it on. The first step pulses the
    /// chosen lines, empties the buffers and starts the wait for the
    /// handshake. Waiting for the handshake: once
    /// one has arrived, Stage 1 goes out and the wait for `RUNGET` begins;
    /// until then the step reads on, or fails when the wait is over. Waiting
    /// for `RUNGET`: once it is recognised, Stage 2 is next; until then the
    /// step notes a first `RUN` and reads on, or fails when the wait is
    /// over. Stage 2 sends its metadata, then the content goes out in chunks
    /// of 2048 bytes, and the loader's output is read after the last one,
    /// until [`output_ends`]. A failed read ends every wait.
    pub open spec fn step_progress(
        old_self: BootUpload,
        new_self: BootUpload,
        old_buffer: Seq<u8>,
        new_buffer: Seq<u8>,
        now: u64,
        read_error: Option<String>,
        r: Result<Turn, String>,
    ) -> bool {
        &&& (old_self.stage() == BootStage::Start ==> {
            &&& r matches Ok(t) && t.next == Next::Continue
            &&& new_self.stage() == BootStage::Handshake
            &&& forall|m: u64| !new_self.timed_out(m)
        })
        &&& (read_error matches Some(e) ==> (old_self.stage() == BootStage::Handshake || old_self.stage()
            == BootStage::Runget || old_self.stage() == BootStage::Output) ==> r == Err::<Turn, String>(e))
        &&& (old_self.stage() == BootStage::Output && read_error is None ==> {
            let ends = output_ends(
                old_self.spec_output(),
                old_buffer,
                old_self.output_waited(now),
                old_self.output_quiet(now),
            );
            &&& r matches Ok(t) && t.next == if ends {
                Next::Finished
            } else {
                Next::Receive { trace: false }
            }
            &&& new_self.stage() == if ends {
                BootStage::Done
            } else {
                BootStage::Output
            }
            &&& new_buffer == Seq::<u8>::empty()
        })
        &&& (old_self.stage() == BootStage::Handshake && read_error is None ==> if exists|i: int|
            crate::protocol::handshake_at(old_buffer, i) {
            &&& r matches Ok(t) && t.next == Next::Continue && sent_by(t.outputs@)
                == old_self.spec_frame()
            &&& new_self.stage() == BootStage::Runget
            &&& !new_self.run_seen()
            &&& new_buffer == Seq::<u8>::empty()
        } else {
            &&& (r is Ok <==> !old_self.timed_out(now))
            &&& (r matches Ok(t) ==> t.next == (Next::Receive { trace: true }) && t.outputs@.len() == 0
                && new_self.stage() == BootStage::Handshake)
        })
        &&& (old_self.stage() == BootStage::Runget && read_error is None ==> if crate::protocol::runget_outcome(
            old_buffer,
            old_self.run_seen(),
            old_self.run_seen() && old_self.run_elapsed(now) >= 1_000_000,
        ) is Some {
            &&& r matches Ok(t) && t.next == Next::Continue && sent_by(t.outputs@) == Seq::<u8>::empty()
            &&& new_self.stage() == BootStage::Stage2
            &&& new_buffer == Seq::<u8>::empty()
        } else {
            &&& (r is Ok <==> !old_self.timed_out(now))
            &&& (r matches Ok(t) ==> {
                &&& t.next == (Next::Receive { trace: true })
                &&& sent_by(t.outputs@) == Seq::<u8>::empty()
                &&& new_self.stage() == BootStage::Runget
                &&& new_buffer == old_buffer
                &&& new_self.run_seen() == (old_self.run_seen() || exists|j: int|
                    crate::protocol::token_at(old_buffer, crate::protocol::run_word(), j))
                &&& (old_self.run_seen() ==> forall|n: u64| #[trigger] new_self.run_elapsed(n)
                    == old_self.run_elapsed(n))
                &&& (!old_self.run_seen() && new_self.run_seen() ==> forall|n: u64| #[trigger] new_self.run_elapsed(n)
                    == if n >= now {
                    n - now
                } else {
                    0
                })
            })
        })
        &&& (old_self.stage() == BootStage::Stage2 ==> {
            &&& r matches Ok(t) && t.next == Next::Continue && sent_by(t.outputs@)
                == old_self.spec_metadata()
            &&& new_self.spec_next_chunk() == 0
            &&& new_self.stage() == if old_self.spec_content().len() == 0 {
                BootStage::Output
            } else {
                BootStage::Chunks
            }
        })
        &&& (old_self.stage() == BootStage::Chunks ==> {
            let start = old_self.spec_next_chunk();
            let len = old_self.spec_content().len();
            let end = if len - start > 2048 {
                start + 2048
            } else {
                len
            };
            &&& r matches Ok(t) && t.next == Next::Continue && sent_by(t.outputs@)
                == old_self.spec_content().subrange(start as int, end as int)
            &&& new_self.spec_next_chunk() == end
            &&& new_self.stage() == if end == len {
                BootStage::Output
            } else {
                BootStage::Chunks
            }
        })
    }

    pub closed spec fn sent(&self) -> Seq<u8> {
        self.sent@
    }

    /// The lines that the first step shows.
    pub closed spec fn spec_banner(&self) -> Seq<Seq<char>> {
        string_views(self.announce@)
    }

    /// DTR is pulsed before the handshake.
    pub closed spec fn spec_reset_dtr(&self) -> bool {
        self.reset_dtr
    }

    /// RTS is pulsed before the handshake.
    pub closed spec fn spec_reset_rts(&self) -> bool {
        self.reset_rts
    }

    /// Stage 1 as sent.
    pub closed spec fn spec_frame(&self) -> Seq<u8> {
        self.frame@
    }

    /// Stage 2 as sent: its metadata, then its content.
    pub closed spec fn spec_stage2(&self) -> Seq<u8> {
        self.metadata@ + self.content@
    }

    /// The metadata that opens Stage 2.
    pub closed spec fn spec_metadata(&self) -> Seq<u8> {
        self.metadata@
    }

    /// The content of Stage 2, sent in chunks after the metadata.
    pub closed spec fn spec_content(&self) -> Seq<u8> {
        self.content@
    }

    /// Where the next chunk of the content starts.
    pub closed spec fn spec_next_chunk(&self) -> nat {
        self.next_chunk as nat
    }

    /// The loader's start-up output so far.
    pub closed spec fn spec_output(&self) -> Seq<u8> {
        self.output@
    }

    pub closed spec fn inv(&self) -> bool {
        &&& self.next_chunk <= self.content@.len()
        &&& match self.stage {
            BootStage::Start | BootStage::Handshake => self.sent@ == Seq::<u8>::empty(),
            BootStage::Runget | BootStage::Stage2 => self.sent@ == self.frame@,
            BootStage::Chunks => self.next_chunk < self.content@.len() && self.sent@ == self.frame@
                + self.metadata@ + self.content@.take(self.next_chunk as int),
            BootStage::Output | BootStage::Done => self.sent@ == self.frame@ + (self.metadata@
                + self.content@),
        }
    }


    /// The loader's start-up output, once the upload is done.
    pub fn output(&self) -> (r: Option<&Vec<u8>>)
        ensures
            (self.stage() == BootStage::Done) == r is Some,
            r matches Some(o) ==> o@ == self.spec_output(),
    {
        if let BootStage::Done = self.stage {
            Some(&self.output)
        } else {
            None
        }
    }

    /// What one step of the upload promises: the frame condition on what is
    /// sent, that Stage 1 goes out only after the handshake and Stage 2 only
    /// after `RUNGET`, that the output collects what arrived, and that the
    /// control lines are pulsed in the first step only, as chosen.
    pub open spec fn step_post(
        old_self: BootUpload,
        new_self: BootUpload,
        old_buffer: Seq<u8>,
        now: u64,
        r: Result<Turn, String>,
    ) -> bool {
        &&& new_self.inv()
        &&& new_self.spec_frame() == old_self.spec_frame()
        &&& new_self.spec_stage2() == old_self.spec_stage2()
        &&& (r matches Ok(t) ==> new_self.sent() == old_self.sent() + sent_by(t.outputs@))
        &&& (r is Err ==> new_self.sent() == old_self.sent())
        &&& (r matches Ok(t) ==> (t.next == Next::Finished <==> new_self.stage() == BootStage::Done))
        &&& (new_self.stage() == BootStage::Done ==> new_self.sent() == new_self.spec_frame()
            + new_self.spec_stage2())
        &&& (old_self.stage() == BootStage::Handshake && new_self.stage() != BootStage::Handshake
            ==> exists|i: int| #[trigger] crate::protocol::handshake_at(old_buffer, i))
        &&& (old_self.stage() == BootStage::Runget && new_self.stage() != BootStage::Runget
            ==> crate::protocol::runget_outcome(
            old_buffer,
            old_self.run_seen(),
            old_self.run_seen() && old_self.run_elapsed(now) >= 1_000_000,
        ) is Some)
        &&& (r is Ok && old_self.stage() == BootStage::Output ==> new_self.spec_output()
            == old_self.spec_output() + old_buffer)
        &&& (r matches Ok(t) ==> signals_of(t.outputs@) == if old_self.stage() == BootStage::Start {
            reset_pulses(old_self.spec_reset_dtr(), old_self.spec_reset_rts())
        } else {
            Seq::<(ControlLine, bool)>::empty()
        })
        &&& new_self.spec_reset_dtr() == old_self.spec_reset_dtr()
        &&& new_self.spec_banner() == old_self.spec_banner()
        &&& new_self.spec_metadata() == old_self.spec_metadata()
        &&& new_self.spec_content() == old_self.spec_content()
        &&& (old_self.stage() == BootStage::Start ==> (r matches Ok(t) ==> says_first(
            t.outputs@,
            old_self.spec_banner(),
        )))
        &&& new_self.spec_reset_rts() == old_self.spec_reset_rts()
    }

    /// One decision of the upload.
    pub fn step(&mut self, session: &mut Session, now: u64, read_error: Option<String>) -> (r: Result<Turn, String>)
        requires
            old(self).inv(),
        ensures
            final(session).spec_verbose() == old(session).spec_verbose(),
            Self::step_post(*old(self), *final(self), old(session).buffered(), now, r),
            Self::step_failure(*old(self), final(session).buffered(), now, read_error, r),
            old(self).stage() == BootStage::Start ==> final(session).buffered() == Seq::<u8>::empty(),
            Self::step_progress(
                *old(self),
                *final(self),
                old(session).buffered(),
                final(session).buffered(),
                now,
                read_error,
                r,
            ),
    {
        match self.stage {
            BootStage::Done => {
                let outputs: Vec<Output> = Vec::new();
                assert(sent_by(outputs@) =~= Seq::<u8>::empty());
                Ok(Turn { outputs, next: Next::Finished })
            },
            BootStage::Start => self.step_start(session),
            BootStage::Handshake => self.step_handshake(session, now, read_error),
            BootStage::Runget => self.step_runget(session, now, read_error),
            BootStage::Stage2 => self.step_stage2(session),
            BootStage::Chunks => self.step_chunks(session),
            BootStage::Output => self.step_output(session, now, read_error),
        }
    }

    #[verifier::spinoff_prover]
    fn step_start(&mut self, session: &mut Session) -> (r: Result<Turn, String>)
        requires
            old(self).inv(),
            old(self).stage() == BootStage::Start,
        ensures
            final(session).spec_verbose() == old(session).spec_verbose(),
            Self::step_post(*old(self), *final(self), old(session).buffered(), 0, r),
            r is Ok,
            final(session).buffered() == Seq::<u8>::empty(),
            Self::step_progress(
                *old(self),
                *final(self),
                old(session).buffered(),
                final(session).buffered(),
                0,
                None,
                r,
            ),
    {
        let verbose = session.is_verbose();
        let mut outputs: Vec<Output> = Vec::new();

        let mut k: usize = 0;
        while k < self.announce.len()
            invariant
                k <= self.announce@.len(),
                outputs@.len() == k,
                forall|j: int| 0 <= j < k ==> (#[trigger] outputs@[j] matches Output::Say(s) && s@
                    == self.announce@[j]@),
                sent_by(outputs@) == Seq::<u8>::empty(),
                signals_of(outputs@) == Seq::<(ControlLine, bool)>::empty(),
            decreases self.announce@.len() - k,
        {
            emit(&mut outputs, Output::Say(self.announce[k].clone()));
            assert(sent_by(outputs@) =~= Seq::<u8>::empty());
            assert(signals_of(outputs@) =~= Seq::<(ControlLine, bool)>::empty());
            k += 1;
        }
        let ghost banner_outputs = outputs@;
        let ghost dtr_pulses = if self.reset_dtr {
            seq![(ControlLine::Dtr, true), (ControlLine::Dtr, false)]
        } else {
            Seq::<(ControlLine, bool)>::empty()
        };
        if self.reset_dtr {
            emit(&mut outputs, Output::Signal { line: ControlLine::Dtr, level: true, failure: String::from_str("failed to assert DTR") });
            emit(&mut outputs, Output::Sleep(100));
            emit(&mut outputs, Output::Signal { line: ControlLine::Dtr, level: false, failure: String::from_str("failed to lower DTR") });
        }
        assert(signals_of(outputs@) =~= dtr_pulses);
        if self.reset_rts {
            emit(&mut outputs, Output::Signal { line: ControlLine::Rts, level: true, failure: String::from_str("failed to assert RTS") });
            emit(&mut outputs, Output::Sleep(100));
            emit(&mut outputs, Output::Signal { line: ControlLine::Rts, level: false, failure: String::from_str("failed to lower RTS") });
        }
        if self.reset_dtr || self.reset_rts {
            emit(&mut outputs, Output::Sleep(200));
            emit(&mut outputs, Output::Discard(String::from_str("failed to flush after reset")));
        }
        assert(signals_of(outputs@) =~= reset_pulses(self.reset_dtr, self.reset_rts));
        emit(&mut outputs, Output::Discard(String::from_str("failed to flush serial buffers")));
        session.clear();
        if verbose {
            emit(&mut outputs, note("Waiting for device handshake; power-cycle or reset the device now"));
        }
        assert(sent_by(outputs@) =~= Seq::<u8>::empty());
        assert(signals_of(outputs@) =~= reset_pulses(self.reset_dtr, self.reset_rts));
        assert(outputs@.take(banner_outputs.len() as int) == banner_outputs);
        assert forall|k: int| 0 <= k < self.spec_banner().len() implies (#[trigger] outputs@[k] matches Output::Say(s)
            && s@ == self.spec_banner()[k]) by {
            assert(outputs@[k] == outputs@.take(banner_outputs.len() as int)[k]);
        }
        self.stage = BootStage::Handshake;
        self.since = None;
        Ok(Turn { outputs, next: Next::Continue })
    }

    #[verifier::spinoff_prover]
    fn step_handshake(&mut self, session: &mut Session, now: u64, read_error: Option<String>) -> (r: Result<Turn, String>)
        requires
            old(self).inv(),
            old(self).stage() == BootStage::Handshake,
        ensures
            final(session).spec_verbose() == old(session).spec_verbose(),
            Self::step_post(*old(self), *final(self), old(session).buffered(), now, r),
            Self::step_failure(*old(self), final(session).buffered(), now, read_error, r),
            Self::step_progress(
                *old(self),
                *final(self),
                old(session).buffered(),
                final(session).buffered(),
                now,
                read_error,
                r,
            ),
    {
        let verbose = session.is_verbose();
        let mut outputs: Vec<Output> = Vec::new();

        if let Some(e) = read_error {
            return Err(e);
        }
        match session.take_handshake() {
            Some(handshake) => {
                emit(&mut outputs, Output::Sleep(5));
                emit(&mut outputs, Output::Discard(String::from_str("failed to flush IPL noise")));
                if verbose {
                    let m = hex_label("Handshake detected: ", handshake.as_slice());
                    emit(&mut outputs, note(m.as_str()));
                    emit(&mut outputs, note("Sending Stage 1"));
                }
                emit(&mut outputs, Output::Send(vstd::slice::slice_to_vec(self.frame.as_slice())));
                if verbose {
                    let mut m = String::from_str("Stage 1 complete: ");
                    push_decimal(&mut m, self.frame.len() as u64);
                    push_str(&mut m, " bytes");
                    emit(&mut outputs, note(m.as_str()));
                }
                assert(sent_by(outputs@) =~= self.frame@);
                proof {
                    self.sent@ = self.sent@ + sent_by(outputs@);
                }
                self.stage = BootStage::Runget;
                self.since = None;
                self.run_at = None;
                Ok(Turn { outputs, next: Next::Continue })
            },
            None => {
                let start = match self.since {
                    Some(t) => t,
                    None => now,
                };
                self.since = Some(start);
                if elapsed(start, now) >= 30_000_000 {
                    return Err(hex_label("timeout waiting for handshake; last bytes: ", session.pending()));
                }
                Ok(Turn { outputs, next: Next::Receive { trace: true } })
            },
        }
    }

    #[verifier::spinoff_prover]
    fn step_runget(&mut self, session: &mut Session, now: u64, read_error: Option<String>) -> (r: Result<Turn, String>)
        requires
            old(self).inv(),
            old(self).stage() == BootStage::Runget,
        ensures
            final(session).spec_verbose() == old(session).spec_verbose(),
            Self::step_post(*old(self), *final(self), old(session).buffered(), now, r),
            Self::step_failure(*old(self), final(session).buffered(), now, read_error, r),
            Self::step_progress(
                *old(self),
                *final(self),
                old(session).buffered(),
                final(session).buffered(),
                now,
                read_error,
                r,
            ),
    {
        let verbose = session.is_verbose();
        let mut outputs: Vec<Output> = Vec::new();

        if let Some(e) = read_error {
            return Err(e);
        }
        let run_seen = self.run_at.is_some();
        let run_expired = match self.run_at {
            Some(t) => elapsed(t, now) >= 1_000_000,
            None => false,
        };
        let look = session.runget_step(run_seen, run_expired);
        if look.run_detected {
            emit(&mut outputs, Output::Say(String::from_str("[*] Received RUN")));
            self.run_at = Some(now);
        }
        match look.outcome {
            Some(how) => {
                match how {
                    crate::protocol::RungetMatch::Exact => {
                        emit(&mut outputs, Output::Say(String::from_str("[*] Received RUN")));
                        emit(&mut outputs, Output::Say(String::from_str("[*] Received GET")));
                    },
                    crate::protocol::RungetMatch::Tolerant => {
                        emit(&mut outputs, Output::Say(String::from_str("[*] Detected tolerant RUNGET")));
                    },
                    crate::protocol::RungetMatch::Ordered => {
                        emit(&mut outputs, Output::Say(String::from_str("[*] Detected RUNGET through IPL noise")));
                    },
                    crate::protocol::RungetMatch::RunThenGet => {
                        emit(&mut outputs, Output::Say(String::from_str("[*] Received GET")));
                    },
                    crate::protocol::RungetMatch::RunTimeout => {
                        if verbose {
                            emit(&mut outputs, note("Proceeding after RUN without an explicit GET"));
                        }
                    },
                }
                assert(sent_by(outputs@) =~= Seq::<u8>::empty());
                self.stage = BootStage::Stage2;
                Ok(Turn { outputs, next: Next::Continue })
            },
            None => {
                let start = match self.since {
                    Some(t) => t,
                    None => now,
                };
                self.since = Some(start);
                if elapsed(start, now) >= 15_000_000 {
                    let mut m = String::from_str("timeout waiting for RUNGET; received: ");
                    let text = latin1_string(session.pending());
                    push_str(&mut m, text.as_str());
                    return Err(m);
                }
                assert(sent_by(outputs@) =~= Seq::<u8>::empty());
                Ok(Turn { outputs, next: Next::Receive { trace: true } })
            },
        }
    }

    fn step_stage2(&mut self, session: &mut Session) -> (r: Result<Turn, String>)
        requires
            old(self).inv(),
            old(self).stage() == BootStage::Stage2,
        ensures
            final(session).spec_verbose() == old(session).spec_verbose(),
            Self::step_post(*old(self), *final(self), old(session).buffered(), 0, r),
            r is Ok,
            Self::step_progress(
                *old(self),
                *final(self),
                old(session).buffered(),
                final(session).buffered(),
                0,
                None,
                r,
            ),
    {
        let verbose = session.is_verbose();
        let mut outputs: Vec<Output> = Vec::new();

        emit(&mut outputs, Output::Sleep(50));
        if verbose {
            let m = hex_label("Sending Stage 2 metadata: ", self.metadata.as_slice());
            emit(&mut outputs, note(m.as_str()));
        }
        emit(&mut outputs, Output::Send(vstd::slice::slice_to_vec(self.metadata.as_slice())));
        emit(
            &mut outputs,
            Output::Progress { done: 0, total: self.content.len(), label: String::from_str("Loader") },
        );
        assert(sent_by(outputs@) =~= self.metadata@);
        proof {
            self.sent@ = self.sent@ + sent_by(outputs@);
        }
        if self.content.len() == 0 {
            assert(self.content@ =~= Seq::<u8>::empty());
            assert(self.sent@ =~= self.frame@ + (self.metadata@ + self.content@));
            emit(&mut outputs, Output::Say(String::from_str("[+] Boot sequence transferred; reading device output:")));
            assert(sent_by(outputs@) =~= self.metadata@);
            self.stage = BootStage::Output;
            self.since = None;
        } else {
            assert(self.content@.take(0) =~= Seq::<u8>::empty());
            assert(self.sent@ =~= self.frame@ + self.metadata@ + self.content@.take(0));
            self.stage = BootStage::Chunks;
            self.next_chunk = 0;
        }
        Ok(Turn { outputs, next: Next::Continue })
    }

    fn step_chunks(&mut self, session: &mut Session) -> (r: Result<Turn, String>)
        requires
            old(self).inv(),
            old(self).stage() == BootStage::Chunks,
        ensures
            final(session).spec_verbose() == old(session).spec_verbose(),
            Self::step_post(*old(self), *final(self), old(session).buffered(), 0, r),
            r is Ok,
            Self::step_progress(
                *old(self),
                *final(self),
                old(session).buffered(),
                final(session).buffered(),
                0,
                None,
                r,
            ),
    {
        let verbose = session.is_verbose();
        let mut outputs: Vec<Output> = Vec::new();

        let len = self.content.len();
        let start = self.next_chunk;
        let end = if len - start > 2048 {
            start + 2048
        } else {
            len
        };
        let chunk = vstd::slice::slice_to_vec(
            vstd::slice::slice_subrange(self.content.as_slice(), start, end),
        );
        emit(&mut outputs, Output::Send(chunk));
        emit(&mut outputs, Output::Progress { done: end, total: len, label: String::from_str("Loader") });
        assert(self.sent@ + chunk@ =~= self.frame@ + self.metadata@ + self.content@.take(end as int));
        self.next_chunk = end;
        if end == len {
            assert(self.content@.take(len as int) =~= self.content@);
            emit(&mut outputs, Output::Say(String::from_str("[+] Boot sequence transferred; reading device output:")));
            self.stage = BootStage::Output;
            self.since = None;
        }
        assert(sent_by(outputs@) =~= chunk@);
        proof {
            self.sent@ = self.sent@ + sent_by(outputs@);
            if end == len {
                assert(self.sent@ =~= self.frame@ + (self.metadata@ + self.content@));
            }
        }
        Ok(Turn { outputs, next: Next::Continue })
    }

    #[verifier::spinoff_prover]
    fn step_output(&mut self, session: &mut Session, now: u64, read_error: Option<String>) -> (r: Result<Turn, String>)
        requires
            old(self).inv(),
            old(self).stage() == BootStage::Output,
        ensures
            final(session).spec_verbose() == old(session).spec_verbose(),
            Self::step_post(*old(self), *final(self), old(session).buffered(), now, r),
            Self::step_failure(*old(self), final(session).buffered(), now, read_error, r),
            Self::step_progress(
                *old(self),
                *final(self),
                old(session).buffered(),
                final(session).buffered(),
                now,
                read_error,
                r,
            ),
    {
        let verbose = session.is_verbose();
        let mut outputs: Vec<Output> = Vec::new();

        if let Some(e) = read_error {
            return Err(e);
        }
        let start = match self.since {
            Some(t) => t,
            None => {
                self.last_data = now;
                now
            },
        };
        self.since = Some(start);
        let mut done = false;
        match session.output_step(&mut self.output) {
            Some((received, prompt)) => {
                self.last_data = now;
                emit(&mut outputs, Output::Print(latin1_string(received.as_slice())));
                done = prompt;
            },
            None => {},
        }
        if !done {
            let quiet = self.output.len() > 0 && elapsed(self.last_data, now) >= 500_000;
            done = elapsed(start, now) >= 15_000_000 || quiet;
        }
        if done {
            let n = self.output.len();
            if n > 0 && self.output[n - 1] != 10u8 {
                emit(&mut outputs, Output::Say(String::new()));
            }
            emit(&mut outputs, Output::Say(String::from_str("[+] Upload successful")));
            assert(sent_by(outputs@) =~= Seq::<u8>::empty());
            self.stage = BootStage::Done;
            Ok(Turn { outputs, next: Next::Finished })
        } else {
            assert(sent_by(outputs@) =~= Seq::<u8>::empty());
            Ok(Turn { outputs, next: Next::Receive { trace: false } })
        }
    }

    /// How long the wait for the loader's output has lasted by `now`.
    pub closed spec fn output_waited(&self, now: u64) -> int {
        let start = match self.since {
            Some(t) => t,
            None => now,
        };
        if now >= start {
            now - start
        } else {
            0
        }
    }

    /// How long the loader's output has been silent by `now`.
    pub closed spec fn output_quiet(&self, now: u64) -> int {
        if self.since is None {
            0
        } else if now >= self.last_data {
            now - self.last_data
        } else {
            0
        }
    }

    /// `RUN` has been seen while waiting for `RUNGET`.
    pub closed spec fn run_seen(&self) -> bool {
        self.run_at is Some
    }

    /// Time since `RUN` was seen.
    pub closed spec fn run_elapsed(&self, now: u64) -> int {
        match self.run_at {
            Some(t) => if now >= t {
                now - t
            } else {
                0
            },
            None => 0,
        }
    }
}


// ---------------------------------------------------------------------
// Starting an exchange
// ---------------------------------------------------------------------

impl Session {
    /// The wait for the `boot>` prompt, which gives up after `limit`.
    pub fn wait_for_prompt(&self, limit: u64) -> (w: PromptWait)
        ensures
            !w.spec_poked(),
            forall|now: u64| w.expired(now) == (limit == 0),
    {
        PromptWait::new(limit)
    }

    /// The exchange of a text command, whose answer may take `limit`.
    pub fn text_command(&self, command: &str, limit: u64) -> (t: TextCommand)
        ensures
            t.inv(),
            forall|now: u64| !t.timed_out(now),
            !t.answering(),
            t.sent() == Seq::<u8>::empty(),
            t.spec_command() == command@,
            t.spec_line() == command_line(command.spec_bytes()),
            t.spec_result() is None,
    {
        TextCommand {
            command: String::from_str(command),
            line: line_of(command),
            limit,
            answering: false,
            prompt: PromptWait::new(2_000_000),
            since: None,
            result: None,
            sent: Ghost(Seq::empty()),
        }
    }

    /// The exchange of a binary read: `command`, then `size` bytes and the
    /// loader's CRC. A zero-length read is refused.
    pub fn binary_read(&self, command: &str, size: usize) -> (r: Result<BinaryRead, String>)
        ensures
            size == 0 <==> r is Err,
            r matches Err(e) ==> e@ == "binary read length must be greater than zero"@,
            r matches Ok(b) ==> {
                &&& b.inv()
                &&& forall|now: u64| !b.timed_out(now)
                &&& b.stage() == ReadStage::Prompt
                &&& b.sent() == Seq::<u8>::empty()
                &&& b.spec_command() == command@
                &&& b.spec_line() == command_line(command.spec_bytes())
                &&& b.spec_size() == size
            },
    {
        if size == 0 {
            return Err(String::from_str("binary read length must be greater than zero"));
        }
        Ok(
            BinaryRead {
                command: String::from_str(command),
                line: line_of(command),
                size,
                stage: ReadStage::Prompt,
                prompt: PromptWait::new(2_000_000),
                since: None,
                just_read: false,
                data: Vec::new(),
                crc: None,
                sent: Ghost(Seq::empty()),
            },
        )
    }

    /// The exchange of a binary write: `command`, then `data` and its
    /// checksum once the loader asks; `completion_limit` is how long the
    /// loader may take to finish, through a reboot if `wait_for_reboot`.
    /// An empty image is refused.
    pub fn binary_write(&self, command: &str, data: Vec<u8>, completion_limit: u64, wait_for_reboot: bool) -> (r:
        Result<BinaryWrite, String>)
        ensures
            data@.len() == 0 <==> r is Err,
            r matches Err(e) ==> e@ == "refusing to send an empty binary image"@,
            r matches Ok(w) ==> {
                &&& w.inv()
                &&& forall|now: u64| !w.timed_out(now)
                &&& w.stage() == WriteStage::Prompt
                &&& w.sent() == Seq::<u8>::empty()
                &&& w.spec_command() == command@
                &&& w.spec_line() == command_line(command.spec_bytes())
                &&& w.spec_data() == data@
            },
    {
        if data.len() == 0 {
            return Err(String::from_str("refusing to send an empty binary image"));
        }
        let w = BinaryWrite {
            command: String::from_str(command),
            line: line_of(command),
            data,
            completion_limit,
            wait_for_reboot,
            stage: WriteStage::Prompt,
            next_chunk: 0,
            prompt: PromptWait::new(2_000_000),
            since: None,
            response: Vec::new(),
            saw_fin: false,
            result: None,
            sent: Ghost(Seq::empty()),
        };
        Ok(w)
    }

    /// The upload of `image` to the BootROM, after a pulse of the control
    /// lines chosen.
    pub fn boot(&self, image: &BootImage, reset_dtr: bool, reset_rts: bool) -> (b: BootUpload)
        requires
            image.well_formed(),
            image.bytes().len() >= crate::loader::payload_end(image.spec_chip()),
        ensures
            b.inv(),
            forall|now: u64| !b.timed_out(now),
            b.spec_reset_dtr() == reset_dtr,
            b.spec_reset_rts() == reset_rts,
            b.spec_banner() == boot_banner(
                image.spec_name(),
                image.bytes().len(),
                image.spec_version(),
                image.spec_chip(),
                image.spec_baud(),
            ),
            b.stage() == BootStage::Start,
            b.sent() == Seq::<u8>::empty(),
            b.spec_frame() == crate::loader::stage1_header_bytes(image.spec_chip()) + image.bytes().subrange(
                0x20,
                crate::loader::payload_end(image.spec_chip()) as int,
            ) + crate::protocol::stage1_terminator(),
            b.spec_stage2() == crate::loader::stage2_bytes(image.bytes()),
    {
        let frame = crate::protocol::stage1_frame(image);
        let (meta, content) = image.stage2();
        let metadata = vstd::slice::slice_to_vec(&meta);
        let mut first = String::from_str("[+] Loaded boot loader: ");
        push_str(&mut first, image.name());
        push_str(&mut first, " (");
        push_decimal(&mut first, image.len() as u64);
        push_str(&mut first, " bytes)");
        let mut second = String::from_str("    Version: 0x");
        push_hex_fixed(&mut second, image.version() as u64, 4, true);
        push_str(&mut second, ", Chip: 0x");
        push_hex_fixed(&mut second, image.chip() as u64, 4, true);
        push_str(&mut second, ", Baud: ");
        push_decimal(&mut second, image.baud() as u64);
        let ghost lines = seq![first@, second@];
        let mut announce: Vec<String> = Vec::new();
        announce.push(first);
        announce.push(second);
        assert(string_views(announce@) =~= lines);
        assert(metadata@ + content@ =~= crate::loader::stage2_bytes(image.bytes()));
        BootUpload {
            reset_dtr,
            reset_rts,
            announce,
            frame,
            metadata,
            content,
            stage: BootStage::Start,
            since: None,
            run_at: None,
            next_chunk: 0,
            last_data: 0,
            output: Vec::new(),
            sent: Ghost(Seq::empty()),
        }
    }
}

} // verus!
