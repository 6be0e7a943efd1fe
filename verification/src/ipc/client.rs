//! The client's side: one command and its answer, or a stream of states.

use vstd::prelude::*;
use vstd::string::*;
use vstd::utf8::encode_utf8;

use crate::text::{from_utf8_lossy, strip_prefix, trim_start};
use crate::text::{received_text, trimmed_start};

verus! {

/// How long, in seconds, an operation may take whose outcome can be `TimedOut`.
pub const TIMEOUT_SECS: u64 = 2;

/// How an operation with a time limit went.
#[derive(Debug)]
pub enum Outcome<T> {
    Done(T),
    /// It failed, with this error text.
    Failed(String),
    TimedOut,
}

/// An `Outcome` with its texts as sequences.
pub enum OutcomeView<T> {
    Done(T),
    Failed(Seq<char>),
    TimedOut,
}

impl View for Outcome<()> {
    type V = OutcomeView<()>;

    open spec fn view(&self) -> OutcomeView<()> {
        match self {
            Outcome::Done(_) => OutcomeView::Done(()),
            Outcome::Failed(e) => OutcomeView::Failed(e@),
            Outcome::TimedOut => OutcomeView::TimedOut,
        }
    }
}

impl View for Outcome<Vec<u8>> {
    type V = OutcomeView<Seq<u8>>;

    open spec fn view(&self) -> OutcomeView<Seq<u8>> {
        match self {
            Outcome::Done(bytes) => OutcomeView::Done(bytes@),
            Outcome::Failed(e) => OutcomeView::Failed(e@),
            Outcome::TimedOut => OutcomeView::TimedOut,
        }
    }
}

/// The text of a result.
pub open spec fn result_text(r: Result<String, String>) -> Result<Seq<char>, Seq<char>> {
    match r {
        Ok(text) => Ok(text@),
        Err(e) => Err(e@),
    }
}

/// The error text of a result.
pub open spec fn result_error(r: Result<(), String>) -> Result<(), Seq<char>> {
    match r {
        Ok(_) => Ok(()),
        Err(e) => Err(e@),
    }
}

/// Outcomes and results are seen as they are: which way it went, and with what.
pub proof fn law_outcomes_are_seen_as_they_are(
    done: Outcome<()>,
    read: Outcome<Vec<u8>>,
    text: Result<String, String>,
    nothing: Result<(), String>,
)
    ensures
        done is Done ==> done@ is Done,
        done matches Outcome::Failed(e) ==> done@ == OutcomeView::<()>::Failed(e@),
        done is TimedOut ==> done@ is TimedOut,
        read matches Outcome::Done(bytes) ==> read@ == OutcomeView::<Seq<u8>>::Done(bytes@),
        read matches Outcome::Failed(e) ==> read@ == OutcomeView::<Seq<u8>>::Failed(e@),
        read is TimedOut ==> read@ is TimedOut,
        text matches Ok(answer) ==> result_text(text) == Ok::<Seq<char>, Seq<char>>(answer@),
        text matches Err(e) ==> result_text(text) == Err::<Seq<char>, Seq<char>>(e@),
        nothing is Ok ==> result_error(nothing) is Ok,
        nothing matches Err(e) ==> result_error(nothing) == Err::<(), Seq<char>>(e@),
{
}

// ---------------- one command ----------------

/// The arguments of a `dump` command, which can be answered without the daemon.
pub open spec fn dump_args_of(cmd: Seq<char>) -> Option<Seq<char>> {
    let rest = trimmed_start(cmd);
    if "dump"@.is_prefix_of(rest) {
        Some(rest.skip("dump"@.len() as int))
    } else {
        None
    }
}

/// The arguments of a `dump` command.
pub fn dump_args(cmd: &str) -> (r: Option<String>)
    ensures
        match r {
            Some(args) => Some(args@),
            None => None,
        } == dump_args_of(cmd@),
{
    match strip_prefix(trim_start(cmd), "dump") {
        Some(args) => {
            let ghost all = trimmed_start(cmd@);
            assert(all == "dump"@ + args@);
            assert("dump"@.is_prefix_of(all));
            assert(all.skip("dump"@.len() as int) == args@);
            Some(args.to_owned())
        },
        None => None,
    }
}

/// The daemon's socket file.
#[derive(Debug)]
pub struct Socket {
    /// The path as it is shown to the user.
    pub display: String,
    /// Whether the file exists.
    pub exists: bool,
}

/// Where sending a command stands.
pub enum SendView {
    /// Connect to the socket.
    Connect { cmd: Seq<char>, socket: Seq<char> },
    /// Answer a `dump` command locally.
    Dump { args: Seq<char> },
    /// Write the request.
    Write { bytes: Seq<u8> },
    /// Close the sending half.
    Shutdown,
    /// Read the response to its end.
    Read,
    /// The command's answer, or the error.
    Done(Result<Seq<char>, Seq<char>>),
}

/// What becomes of a command that the daemon cannot be asked: a `dump` is
/// answered locally, any other fails.
pub open spec fn without_daemon(cmd: Seq<char>, error: Seq<char>) -> SendView {
    match dump_args_of(cmd) {
        Some(args) => SendView::Dump { args },
        None => SendView::Done(Err(error)),
    }
}

/// The error where nothing listens on the socket.
pub open spec fn not_running_on(socket: Seq<char>) -> Seq<char> {
    "failed to connect to "@ + socket + ": daemon not running"@
}

/// The first step of sending `cmd`, where `socket` is the displayed path and
/// whether it exists, or why it could not be determined.
pub open spec fn send_begin(
    cmd: Seq<char>,
    socket: Result<(Seq<char>, bool), Seq<char>>,
) -> SendView {
    match socket {
        Ok((display, exists)) => if exists {
            SendView::Connect { cmd, socket: display }
        } else {
            without_daemon(cmd, "daemon not running"@)
        },
        Err(e) => SendView::Done(Err(e)),
    }
}

/// The step after connecting.
pub open spec fn send_connected(
    cmd: Seq<char>,
    socket: Seq<char>,
    outcome: OutcomeView<()>,
) -> SendView {
    match outcome {
        OutcomeView::Done(_) => SendView::Write { bytes: encode_utf8(cmd) },
        OutcomeView::Failed(_) => without_daemon(cmd, not_running_on(socket)),
        OutcomeView::TimedOut => without_daemon(cmd, "timeout connecting to daemon"@),
    }
}

/// The step after writing the request.
pub open spec fn send_written(outcome: OutcomeView<()>) -> SendView {
    match outcome {
        OutcomeView::Done(_) => SendView::Shutdown,
        OutcomeView::Failed(e) => SendView::Done(Err("write failed: "@ + e)),
        OutcomeView::TimedOut => SendView::Done(Err("timeout writing to daemon"@)),
    }
}

/// The step after closing the sending half.
pub open spec fn send_closed(outcome: OutcomeView<()>) -> SendView {
    match outcome {
        OutcomeView::Done(_) => SendView::Read,
        OutcomeView::Failed(e) => SendView::Done(Err("shutdown failed: "@ + e)),
        OutcomeView::TimedOut => SendView::Done(Err("timeout finalizing request"@)),
    }
}

/// The step after reading the response.
pub open spec fn send_received(outcome: OutcomeView<Seq<u8>>) -> SendView {
    match outcome {
        OutcomeView::Done(bytes) => SendView::Done(Ok(received_text(bytes))),
        OutcomeView::Failed(e) => SendView::Done(Err("read failed: "@ + e)),
        OutcomeView::TimedOut => SendView::Done(Err("timeout reading response"@)),
    }
}

/// The step of sending a command that is due.
#[derive(Debug)]
pub enum SendStep {
    Connect(SendConnect),
    Dump(SendDump),
    Write(SendWrite),
    Shutdown(SendShutdown),
    Read(SendRead),
    Done(Result<String, String>),
}

/// Connect to the socket and go on with `connected`.
#[derive(Debug)]
pub struct SendConnect {
    pub cmd: String,
    pub socket: String,
}

/// Dump locally with `args` and go on with `output`.
#[derive(Debug)]
pub struct SendDump {
    pub args: String,
}

/// Write `bytes` and go on with `written`.
#[derive(Debug)]
pub struct SendWrite {
    pub bytes: Vec<u8>,
}

/// Close the sending half and go on with `closed`.
#[derive(Debug)]
pub struct SendShutdown {}

/// Read to the end and go on with `received`.
#[derive(Debug)]
pub struct SendRead {}

impl View for SendStep {
    type V = SendView;

    open spec fn view(&self) -> SendView {
        match self {
            SendStep::Connect(step) => SendView::Connect {
                cmd: step.cmd@,
                socket: step.socket@,
            },
            SendStep::Dump(step) => SendView::Dump { args: step.args@ },
            SendStep::Write(step) => SendView::Write { bytes: step.bytes@ },
            SendStep::Shutdown(_) => SendView::Shutdown,
            SendStep::Read(_) => SendView::Read,
            SendStep::Done(answer) => SendView::Done(result_text(*answer)),
        }
    }
}

fn or_dump(cmd: &str, error: String) -> (r: SendStep)
    ensures
        r@ == without_daemon(cmd@, error@),
{
    match dump_args(cmd) {
        Some(args) => SendStep::Dump(SendDump { args }),
        None => SendStep::Done(Err(error)),
    }
}

/// Starts to send `cmd` to the daemon. `socket` is the daemon's socket, or why
/// it could not be determined.
pub fn send_raw(cmd: &str, socket: Result<Socket, String>) -> (r: SendStep)
    ensures
        r@ == send_begin(
            cmd@,
            match socket {
                Ok(found) => Ok((found.display@, found.exists)),
                Err(e) => Err(e@),
            },
        ),
{
    match socket {
        Ok(found) => if found.exists {
            SendStep::Connect(SendConnect { cmd: cmd.to_owned(), socket: found.display })
        } else {
            or_dump(cmd, "daemon not running".to_owned())
        },
        Err(e) => SendStep::Done(Err(e)),
    }
}

impl SendConnect {
    /// Goes on after connecting.
    pub fn connected(self, outcome: Outcome<()>) -> (r: SendStep)
        ensures
            r@ == send_connected(self.cmd@, self.socket@, outcome@),
    {
        match outcome {
            Outcome::Done(_) => SendStep::Write(
                SendWrite { bytes: self.cmd.as_str().as_bytes_vec() },
            ),
            Outcome::Failed(_) => {
                let error = "failed to connect to ".to_owned().concat(self.socket.as_str()).concat(
                    ": daemon not running",
                );
                or_dump(self.cmd.as_str(), error)
            },
            Outcome::TimedOut => or_dump(
                self.cmd.as_str(),
                "timeout connecting to daemon".to_owned(),
            ),
        }
    }
}

impl SendDump {
    /// Goes on with the text of the dump.
    pub fn output(self, text: String) -> (r: SendStep)
        ensures
            r@ == SendView::Done(Ok(text@)),
    {
        SendStep::Done(Ok(text))
    }
}

impl SendWrite {
    /// Goes on after writing the request.
    pub fn written(self, outcome: Outcome<()>) -> (r: SendStep)
        ensures
            r@ == send_written(outcome@),
    {
        match outcome {
            Outcome::Done(_) => SendStep::Shutdown(SendShutdown {  }),
            Outcome::Failed(e) => SendStep::Done(
                Err("write failed: ".to_owned().concat(e.as_str())),
            ),
            Outcome::TimedOut => SendStep::Done(Err("timeout writing to daemon".to_owned())),
        }
    }
}

impl SendShutdown {
    /// Goes on after closing the sending half.
    pub fn closed(self, outcome: Outcome<()>) -> (r: SendStep)
        ensures
            r@ == send_closed(outcome@),
    {
        match outcome {
            Outcome::Done(_) => SendStep::Read(SendRead {  }),
            Outcome::Failed(e) => SendStep::Done(
                Err("shutdown failed: ".to_owned().concat(e.as_str())),
            ),
            Outcome::TimedOut => SendStep::Done(Err("timeout finalizing request".to_owned())),
        }
    }
}

impl SendRead {
    /// Goes on after reading the response.
    pub fn received(self, outcome: Outcome<Vec<u8>>) -> (r: SendStep)
        ensures
            r@ == send_received(outcome@),
    {
        match outcome {
            Outcome::Done(bytes) => SendStep::Done(Ok(from_utf8_lossy(bytes.as_slice()))),
            Outcome::Failed(e) => SendStep::Done(
                Err("read failed: ".to_owned().concat(e.as_str())),
            ),
            Outcome::TimedOut => SendStep::Done(Err("timeout reading response".to_owned())),
        }
    }
}

/// A client that has a socket connects to it with the command unchanged, one
/// whose socket does not exist does not connect, and one whose socket is not known
/// gives up with the reason. The text of a local dump is the answer.
pub proof fn law_client_goes_by_its_socket(
    cmd: &str,
    socket: Result<Socket, String>,
    first: SendStep,
    dump: SendDump,
    text: String,
    last: SendStep,
)
    requires
        call_ensures(send_raw, (cmd, socket), first),
        call_ensures(SendDump::output, (dump, text), last),
    ensures
        socket is Err ==> first is Done && result_text(first->Done_0) == Err::<
            Seq<char>,
            Seq<char>,
        >(socket->Err_0@),
        socket is Ok && socket->Ok_0.exists ==> first is Connect && first->Connect_0.cmd@ == cmd@
            && first->Connect_0.socket@ == socket->Ok_0.display@,
        socket is Ok && !socket->Ok_0.exists ==> first is Dump || first is Done,
        last matches SendStep::Done(Ok(answer)) && answer@ == text@,
{
}

// ---------------- a stream of states ----------------

/// Where watching the daemon stands.
pub enum WatchView {
    /// Connect to the socket.
    Connect { socket: Seq<char> },
    /// Write the request.
    Write { bytes: Seq<u8> },
    /// Close the sending half. This has no time limit, nor has what follows.
    Shutdown,
    /// Read one line.
    ReadLine,
    /// Print this text on standard output.
    Print { text: Seq<char> },
    /// Flush standard output.
    Flush,
    /// Watching ended, well if the daemon closed the stream.
    Done(Result<(), Seq<char>>),
}

/// The first step of watching, where `socket` is the displayed path or why it
/// could not be determined.
pub open spec fn watch_begin(socket: Result<Seq<char>, Seq<char>>) -> WatchView {
    match socket {
        Ok(display) => WatchView::Connect { socket: display },
        Err(e) => WatchView::Done(Err(e)),
    }
}

/// The step after connecting.
pub open spec fn watch_connected(socket: Seq<char>, outcome: OutcomeView<()>) -> WatchView {
    match outcome {
        OutcomeView::Done(_) => WatchView::Write { bytes: encode_utf8("watch"@) },
        OutcomeView::Failed(_) => WatchView::Done(Err(not_running_on(socket))),
        OutcomeView::TimedOut => WatchView::Done(Err("timeout connecting to daemon"@)),
    }
}

/// The step after writing the request.
pub open spec fn watch_written(outcome: OutcomeView<()>) -> WatchView {
    match outcome {
        OutcomeView::Done(_) => WatchView::Shutdown,
        OutcomeView::Failed(e) => WatchView::Done(Err("write failed: "@ + e)),
        OutcomeView::TimedOut => WatchView::Done(Err("timeout writing to daemon"@)),
    }
}

/// `next` if an operation went well, else the error, after what was attempted.
pub open spec fn watch_then(
    attempt: Seq<char>,
    result: Result<(), Seq<char>>,
    next: WatchView,
) -> WatchView {
    match result {
        Ok(_) => next,
        Err(e) => WatchView::Done(Err(attempt + e)),
    }
}

/// The step after closing the sending half.
pub open spec fn watch_closed(result: Result<(), Seq<char>>) -> WatchView {
    watch_then("shutdown failed: "@, result, WatchView::ReadLine)
}

/// The step after reading a line, or the end of the stream.
pub open spec fn watch_line(result: Result<Option<Seq<char>>, Seq<char>>) -> WatchView {
    match result {
        Ok(Some(line)) => WatchView::Print { text: line.push('\n') },
        Ok(None) => WatchView::Done(Ok(())),
        Err(e) => WatchView::Done(Err("read failed: "@ + e)),
    }
}

/// The step after printing.
pub open spec fn watch_printed(result: Result<(), Seq<char>>) -> WatchView {
    watch_then("stdout write failed: "@, result, WatchView::Flush)
}

/// The step after flushing.
pub open spec fn watch_flushed(result: Result<(), Seq<char>>) -> WatchView {
    watch_then("stdout flush failed: "@, result, WatchView::ReadLine)
}

/// The step of watching that is due.
#[derive(Debug)]
pub enum WatchStep {
    Connect(WatchConnect),
    Write(WatchWrite),
    Shutdown(WatchShutdown),
    ReadLine(WatchReadLine),
    Print(WatchPrint),
    Flush(WatchFlush),
    Done(Result<(), String>),
}

/// Connect to the socket and go on with `connected`.
#[derive(Debug)]
pub struct WatchConnect {
    pub socket: String,
}

/// Write `bytes` and go on with `written`.
#[derive(Debug)]
pub struct WatchWrite {
    pub bytes: Vec<u8>,
}

/// Close the sending half and go on with `closed`.
#[derive(Debug)]
pub struct WatchShutdown {}

/// Read one line and go on with `line`.
#[derive(Debug)]
pub struct WatchReadLine {}

/// Print `text` and go on with `printed`.
#[derive(Debug)]
pub struct WatchPrint {
    pub text: String,
}

/// Flush standard output and go on with `flushed`.
#[derive(Debug)]
pub struct WatchFlush {}

impl View for WatchStep {
    type V = WatchView;

    open spec fn view(&self) -> WatchView {
        match self {
            WatchStep::Connect(step) => WatchView::Connect { socket: step.socket@ },
            WatchStep::Write(step) => WatchView::Write { bytes: step.bytes@ },
            WatchStep::Shutdown(_) => WatchView::Shutdown,
            WatchStep::ReadLine(_) => WatchView::ReadLine,
            WatchStep::Print(step) => WatchView::Print { text: step.text@ },
            WatchStep::Flush(_) => WatchView::Flush,
            WatchStep::Done(result) => WatchView::Done(result_error(*result)),
        }
    }
}

/// Starts to watch the daemon: its current state and each later one are printed
/// as one line of JSON.
pub fn watch(socket: Result<String, String>) -> (r: WatchStep)
    ensures
        r@ == watch_begin(result_text(socket)),
{
    match socket {
        Ok(socket) => WatchStep::Connect(WatchConnect { socket }),
        Err(e) => WatchStep::Done(Err(e)),
    }
}

fn failed(attempt: &str, e: String) -> (r: WatchStep)
    ensures
        r@ == WatchView::Done(Err(attempt@ + e@)),
{
    WatchStep::Done(Err(attempt.to_owned().concat(e.as_str())))
}

impl WatchConnect {
    /// Goes on after connecting.
    pub fn connected(self, outcome: Outcome<()>) -> (r: WatchStep)
        ensures
            r@ == watch_connected(self.socket@, outcome@),
    {
        match outcome {
            Outcome::Done(_) => WatchStep::Write(WatchWrite { bytes: "watch".as_bytes_vec() }),
            Outcome::Failed(_) => WatchStep::Done(
                Err(
                    "failed to connect to ".to_owned().concat(self.socket.as_str()).concat(
                        ": daemon not running",
                    ),
                ),
            ),
            Outcome::TimedOut => WatchStep::Done(Err("timeout connecting to daemon".to_owned())),
        }
    }
}

impl WatchWrite {
    /// Goes on after writing the request.
    pub fn written(self, outcome: Outcome<()>) -> (r: WatchStep)
        ensures
            r@ == watch_written(outcome@),
    {
        match outcome {
            Outcome::Done(_) => WatchStep::Shutdown(WatchShutdown {  }),
            Outcome::Failed(e) => failed("write failed: ", e),
            Outcome::TimedOut => WatchStep::Done(Err("timeout writing to daemon".to_owned())),
        }
    }
}

impl WatchShutdown {
    /// Goes on after closing the sending half.
    pub fn closed(self, result: Result<(), String>) -> (r: WatchStep)
        ensures
            r@ == watch_closed(result_error(result)),
    {
        match result {
            Ok(_) => WatchStep::ReadLine(WatchReadLine {  }),
            Err(e) => failed("shutdown failed: ", e),
        }
    }
}

impl WatchReadLine {
    /// Goes on after reading a line, without its line ending, or the end of the
    /// stream.
    pub fn line(self, result: Result<Option<String>, String>) -> (r: WatchStep)
        ensures
            r@ == watch_line(
                match result {
                    Ok(Some(line)) => Ok(Some(line@)),
                    Ok(None) => Ok(None),
                    Err(e) => Err(e@),
                },
            ),
    {
        match result {
            Ok(Some(line)) => {
                let mut text = line;
                text.push('\n');
                WatchStep::Print(WatchPrint { text })
            },
            Ok(None) => WatchStep::Done(Ok(())),
            Err(e) => failed("read failed: ", e),
        }
    }
}

impl WatchPrint {
    /// Goes on after printing.
    pub fn printed(self, result: Result<(), String>) -> (r: WatchStep)
        ensures
            r@ == watch_printed(result_error(result)),
    {
        match result {
            Ok(_) => WatchStep::Flush(WatchFlush {  }),
            Err(e) => failed("stdout write failed: ", e),
        }
    }
}

impl WatchFlush {
    /// Goes on after flushing.
    pub fn flushed(self, result: Result<(), String>) -> (r: WatchStep)
        ensures
            r@ == watch_flushed(result_error(result)),
    {
        match result {
            Ok(_) => WatchStep::ReadLine(WatchReadLine {  }),
            Err(e) => failed("stdout flush failed: ", e),
        }
    }
}

/// Once connected, a client writes the bytes of its command. Where it cannot
/// connect it does not write: it dumps locally, or is done with an error.
pub proof fn law_connected_client_writes_its_command(
    step: SendConnect,
    outcome: Outcome<()>,
    next: SendStep,
)
    requires
        call_ensures(SendConnect::connected, (step, outcome), next),
    ensures
        outcome is Done <==> next is Write,
        outcome is Done ==> next->Write_0.bytes@ == encode_utf8(step.cmd@),
        !(outcome is Done) ==> next is Dump || (next is Done && next->Done_0 is Err),
        next matches SendStep::Dump(dump) ==> dump_args_of(step.cmd@) == Some(dump.args@),
        next is Done ==> dump_args_of(step.cmd@) is None,
        next is Done && outcome is Failed ==> next->Done_0->Err_0@ == "failed to connect to "@
            + step.socket@ + ": daemon not running"@,
        next is Done && outcome is TimedOut ==> next->Done_0->Err_0@
            == "timeout connecting to daemon"@,
{
}

/// After a write the client closes its half, after that it reads, and what it
/// reads is its answer. An operation that fails or takes too long ends it with an
/// error that tells which.
pub proof fn law_client_goes_on_or_tells_why_not(
    write: SendWrite,
    shutdown: SendShutdown,
    read: SendRead,
    outcome: Outcome<()>,
    response: Outcome<Vec<u8>>,
    written: SendStep,
    closed: SendStep,
    received: SendStep,
)
    requires
        call_ensures(SendWrite::written, (write, outcome), written),
        call_ensures(SendShutdown::closed, (shutdown, outcome), closed),
        call_ensures(SendRead::received, (read, response), received),
    ensures
        outcome is Done ==> written is Shutdown && closed is Read,
        !(outcome is Done) ==> written is Done && written->Done_0 is Err && closed is Done
            && closed->Done_0 is Err,
        outcome is TimedOut ==> written->Done_0->Err_0@ == "timeout writing to daemon"@
            && closed->Done_0->Err_0@ == "timeout finalizing request"@,
        outcome is Failed ==> written->Done_0->Err_0@ == "write failed: "@ + outcome->Failed_0@
            && closed->Done_0->Err_0@ == "shutdown failed: "@ + outcome->Failed_0@,
        received is Done,
        received->Done_0 is Ok <==> response is Done,
        response is Done ==> received->Done_0->Ok_0@ == received_text(response->Done_0@),
        response is TimedOut ==> received->Done_0->Err_0@ == "timeout reading response"@,
        response is Failed ==> received->Done_0->Err_0@ == "read failed: "@ + response->Failed_0@,
{
}

/// A watcher connects to its socket, asks for `watch`, closes its half and reads
/// lines. Each is printed with a line feed and flushed before the next is read.
/// The end of the stream ends it well, and a failure with an error that tells
/// which.
pub proof fn law_watcher_prints_each_line(
    connect: WatchConnect,
    write: WatchWrite,
    shutdown: WatchShutdown,
    read: WatchReadLine,
    print: WatchPrint,
    flush: WatchFlush,
    outcome: Outcome<()>,
    result: Result<(), String>,
    line: Result<Option<String>, String>,
    connected: WatchStep,
    written: WatchStep,
    closed: WatchStep,
    found: WatchStep,
    printed: WatchStep,
    flushed: WatchStep,
)
    requires
        call_ensures(WatchConnect::connected, (connect, outcome), connected),
        call_ensures(WatchWrite::written, (write, outcome), written),
        call_ensures(WatchShutdown::closed, (shutdown, result), closed),
        call_ensures(WatchReadLine::line, (read, line), found),
        call_ensures(WatchPrint::printed, (print, result), printed),
        call_ensures(WatchFlush::flushed, (flush, result), flushed),
    ensures
        outcome is Done ==> connected is Write && connected->Write_0.bytes@ == encode_utf8("watch"@)
            && written is Shutdown,
        !(outcome is Done) ==> connected is Done && connected->Done_0 is Err && written is Done
            && written->Done_0 is Err,
        outcome is TimedOut ==> connected->Done_0->Err_0@ == "timeout connecting to daemon"@
            && written->Done_0->Err_0@ == "timeout writing to daemon"@,
        outcome is Failed ==> connected->Done_0->Err_0@ == "failed to connect to "@
            + connect.socket@ + ": daemon not running"@ && written->Done_0->Err_0@
            == "write failed: "@ + outcome->Failed_0@,
        result is Ok ==> closed is ReadLine && printed is Flush && flushed is ReadLine,
        result is Err ==> {
            &&& closed is Done && closed->Done_0 is Err && closed->Done_0->Err_0@
                == "shutdown failed: "@ + result->Err_0@
            &&& printed is Done && printed->Done_0 is Err && printed->Done_0->Err_0@
                == "stdout write failed: "@ + result->Err_0@
            &&& flushed is Done && flushed->Done_0 is Err && flushed->Done_0->Err_0@
                == "stdout flush failed: "@ + result->Err_0@
        },
        line is Ok && line->Ok_0 is Some ==> found is Print && found->Print_0.text@
            == line->Ok_0->0@ + seq!['\n'],
        line is Ok && line->Ok_0 is None ==> found is Done && found->Done_0 is Ok,
        line is Err ==> found is Done && found->Done_0 is Err && found->Done_0->Err_0@
            == "read failed: "@ + line->Err_0@,
{
    if line is Ok && line->Ok_0 is Some {
        let text = line->Ok_0->0@;
        assert(text.push('\n') =~= text + seq!['\n']);
    }
}

} // verus!
