//! The daemon's side: the listening socket, one connection, and the stream of
//! states that a watcher gets.

use vstd::prelude::*;
use vstd::string::*;
use vstd::utf8::encode_utf8;

use super::client::result_error;
use crate::text::{from_utf8_lossy, same_text, trim};
use crate::text::{received_text, trimmed};

verus! {

// ---------------- the listening socket ----------------

/// The path of the socket to listen on.
#[derive(Debug)]
pub struct ListenPath {
    /// The path as it is shown to the user.
    pub display: String,
    /// Whether the path has a parent directory.
    pub has_parent: bool,
}

/// Where starting to listen stands.
pub enum ListenView {
    /// Create the parent directory. A failure is ignored.
    CreateParent { socket: Seq<char> },
    /// Remove a stale socket file. A failure is ignored.
    RemoveStale { socket: Seq<char> },
    /// Bind the socket.
    Bind { socket: Seq<char> },
    /// The socket is bound, or the server cannot start.
    Done(Result<(), Seq<char>>),
}

/// The first step, where `socket` is the displayed path and whether it has a
/// parent, or why it could not be determined.
pub open spec fn listen_begin(socket: Result<(Seq<char>, bool), Seq<char>>) -> ListenView {
    match socket {
        Ok((display, has_parent)) => if has_parent {
            ListenView::CreateParent { socket: display }
        } else {
            ListenView::RemoveStale { socket: display }
        },
        Err(e) => ListenView::Done(Err(e)),
    }
}

/// The step after binding.
pub open spec fn listen_bound(socket: Seq<char>, result: Result<(), Seq<char>>) -> ListenView {
    match result {
        Ok(_) => ListenView::Done(Ok(())),
        Err(e) => ListenView::Done(Err("failed to bind ipc socket "@ + socket + ": "@ + e)),
    }
}

/// The step of starting to listen that is due.
#[derive(Debug)]
pub enum ListenStep {
    CreateParent(ListenCreateParent),
    RemoveStale(ListenRemoveStale),
    Bind(ListenBind),
    Done(Result<(), String>),
}

/// Create the parent directory and go on with `attempted`.
#[derive(Debug)]
pub struct ListenCreateParent {
    pub socket: String,
}

/// Remove the socket file and go on with `attempted`.
#[derive(Debug)]
pub struct ListenRemoveStale {
    pub socket: String,
}

/// Bind the socket and go on with `bound`.
#[derive(Debug)]
pub struct ListenBind {
    pub socket: String,
}

impl View for ListenStep {
    type V = ListenView;

    open spec fn view(&self) -> ListenView {
        match self {
            ListenStep::CreateParent(step) => ListenView::CreateParent { socket: step.socket@ },
            ListenStep::RemoveStale(step) => ListenView::RemoveStale { socket: step.socket@ },
            ListenStep::Bind(step) => ListenView::Bind { socket: step.socket@ },
            ListenStep::Done(result) => ListenView::Done(result_error(*result)),
        }
    }
}

/// Starts the server. `socket` is the path to listen on, or why it could not be
/// determined.
pub fn spawn_ipc_server(socket: Result<ListenPath, String>) -> (r: ListenStep)
    ensures
        r@ == listen_begin(
            match socket {
                Ok(path) => Ok((path.display@, path.has_parent)),
                Err(e) => Err(e@),
            },
        ),
{
    match socket {
        Ok(path) => if path.has_parent {
            ListenStep::CreateParent(ListenCreateParent { socket: path.display })
        } else {
            ListenStep::RemoveStale(ListenRemoveStale { socket: path.display })
        },
        Err(e) => ListenStep::Done(Err(e)),
    }
}

impl ListenCreateParent {
    /// Goes on, whether or not the directory could be created.
    pub fn attempted(self) -> (r: ListenStep)
        ensures
            r@ == (ListenView::RemoveStale { socket: self.socket@ }),
    {
        ListenStep::RemoveStale(ListenRemoveStale { socket: self.socket })
    }
}

impl ListenRemoveStale {
    /// Goes on, whether or not there was a file to remove.
    pub fn attempted(self) -> (r: ListenStep)
        ensures
            r@ == (ListenView::Bind { socket: self.socket@ }),
    {
        ListenStep::Bind(ListenBind { socket: self.socket })
    }
}

impl ListenBind {
    /// Goes on after binding.
    pub fn bound(self, result: Result<(), String>) -> (r: ListenStep)
        ensures
            r@ == listen_bound(self.socket@, result_error(result)),
    {
        match result {
            Ok(_) => ListenStep::Done(Ok(())),
            Err(e) => ListenStep::Done(
                Err(
                    "failed to bind ipc socket ".to_owned().concat(self.socket.as_str()).concat(
                        ": ",
                    ).concat(e.as_str()),
                ),
            ),
        }
    }
}

// ---------------- one connection ----------------

/// What a client asks for.
#[derive(Debug)]
pub enum Request {
    /// Nothing.
    Empty,
    /// The stream of states.
    Watch,
    /// This command, without surrounding whitespace.
    Command(String),
}

/// A `Request` with its text as a sequence.
pub enum RequestView {
    Empty,
    Watch,
    Command(Seq<char>),
}

impl View for Request {
    type V = RequestView;

    open spec fn view(&self) -> RequestView {
        match self {
            Request::Empty => RequestView::Empty,
            Request::Watch => RequestView::Watch,
            Request::Command(cmd) => RequestView::Command(cmd@),
        }
    }
}

/// What a request's text asks for.
pub open spec fn request_of(text: Seq<char>) -> RequestView {
    let cmd = trimmed(text);
    if cmd.len() == 0 {
        RequestView::Empty
    } else if cmd == "watch"@ {
        RequestView::Watch
    } else {
        RequestView::Command(cmd)
    }
}

/// What a request's text asks for.
pub fn request(text: &str) -> (r: Request)
    ensures
        r@ == request_of(text@),
{
    let cmd = trim(text);
    if cmd.is_empty() {
        Request::Empty
    } else if same_text(cmd, "watch") {
        Request::Watch
    } else {
        Request::Command(cmd.to_owned())
    }
}

/// Where serving a connection stands.
pub enum ConnView {
    /// Stream the states to the client.
    Watch,
    /// Carry out the command.
    Route { cmd: Seq<char> },
    /// Write the answer. If `required`, the connection is given up where the
    /// write fails.
    Reply { bytes: Seq<u8>, required: bool },
    /// Close the connection.
    Shutdown,
    /// Nothing is left to do.
    Done,
}

/// The step that a request calls for. One without a command is refused.
pub open spec fn conn_request(request: RequestView) -> ConnView {
    match request {
        RequestView::Empty => ConnView::Reply {
            bytes: encode_utf8("ERROR: empty command"@),
            required: false,
        },
        RequestView::Watch => ConnView::Watch,
        RequestView::Command(cmd) => ConnView::Route { cmd },
    }
}

/// The step after reading the request to its end.
pub open spec fn conn_read(result: Result<Seq<u8>, Seq<char>>) -> ConnView {
    match result {
        Ok(bytes) => conn_request(request_of(received_text(bytes))),
        Err(_) => ConnView::Done,
    }
}

/// The step after the command was carried out.
pub open spec fn conn_routed(response: Seq<char>) -> ConnView {
    ConnView::Reply { bytes: encode_utf8(response), required: true }
}

/// The step after writing the answer.
pub open spec fn conn_written(required: bool, result: Result<(), Seq<char>>) -> ConnView {
    if required && result is Err {
        ConnView::Done
    } else {
        ConnView::Shutdown
    }
}

/// The step of serving a connection that is due.
#[derive(Debug)]
pub enum ConnStep {
    Watch,
    Route(ConnRoute),
    Reply(ConnReply),
    Shutdown,
    Done,
}

/// Carry out `cmd` and go on with `routed`.
#[derive(Debug)]
pub struct ConnRoute {
    pub cmd: String,
}

/// Write `bytes` and go on with `written`.
#[derive(Debug)]
pub struct ConnReply {
    pub bytes: Vec<u8>,
    pub required: bool,
}

impl View for ConnStep {
    type V = ConnView;

    open spec fn view(&self) -> ConnView {
        match self {
            ConnStep::Watch => ConnView::Watch,
            ConnStep::Route(step) => ConnView::Route { cmd: step.cmd@ },
            ConnStep::Reply(step) => ConnView::Reply {
                bytes: step.bytes@,
                required: step.required,
            },
            ConnStep::Shutdown => ConnView::Shutdown,
            ConnStep::Done => ConnView::Done,
        }
    }
}

/// Serves what a client asked for.
pub fn serve_request(request: Request) -> (r: ConnStep)
    ensures
        r@ == conn_request(request@),
{
    match request {
        Request::Empty => ConnStep::Reply(
            ConnReply { bytes: "ERROR: empty command".as_bytes_vec(), required: false },
        ),
        Request::Watch => ConnStep::Watch,
        Request::Command(cmd) => ConnStep::Route(ConnRoute { cmd }),
    }
}

/// Serves a connection whose request was read to its end, or could not be.
pub fn serve_connection(result: Result<Vec<u8>, String>) -> (r: ConnStep)
    ensures
        r@ == conn_read(
            match result {
                Ok(bytes) => Ok(bytes@),
                Err(e) => Err(e@),
            },
        ),
{
    match result {
        Ok(bytes) => {
            let text = from_utf8_lossy(bytes.as_slice());
            serve_request(request(text.as_str()))
        },
        Err(_) => ConnStep::Done,
    }
}

impl ConnRoute {
    /// Goes on with the response to the command.
    pub fn routed(self, response: String) -> (r: ConnStep)
        ensures
            r@ == conn_routed(response@),
    {
        ConnStep::Reply(ConnReply { bytes: response.as_str().as_bytes_vec(), required: true })
    }
}

impl ConnReply {
    /// Goes on after writing the answer.
    pub fn written(self, result: Result<(), String>) -> (r: ConnStep)
        ensures
            r@ == conn_written(self.required, result_error(result)),
    {
        match result {
            Ok(_) => ConnStep::Shutdown,
            Err(_) => if self.required {
                ConnStep::Done
            } else {
                ConnStep::Shutdown
            },
        }
    }
}

/// A connection is served by what its bytes ask for, and a command is carried out
/// as it was asked for.
pub proof fn law_connection_is_served_by_its_bytes(
    result: Result<Vec<u8>, String>,
    first: ConnStep,
    route: ConnRoute,
    response: String,
    reply: ConnStep,
)
    requires
        call_ensures(serve_connection, (result,), first),
        call_ensures(ConnRoute::routed, (route, response), reply),
    ensures
        result is Err ==> first is Done,
        result is Ok ==> !(first is Done) && !(first is Shutdown),
        result matches Ok(bytes) ==> {
            let cmd = trimmed(received_text(bytes@));
            &&& first is Watch <==> cmd.len() > 0 && cmd == "watch"@
            &&& first is Reply <==> cmd.len() == 0
            &&& first matches ConnStep::Route(next) ==> next.cmd@ == cmd
        },
        reply matches ConnStep::Reply(next) && next.bytes@ == encode_utf8(response@)
            && next.required,
{
}

// ---------------- the stream of states ----------------

/// Where streaming the states stands.
pub enum StreamView {
    /// Take the current state and encode it.
    Encode,
    /// Write these bytes. `ends_line` tells a line's end from its text.
    Write { bytes: Seq<u8>, ends_line: bool },
    /// Wait for the next state.
    Wait,
    /// The stream ended.
    Done(Result<(), Seq<char>>),
}

/// The byte that ends a line.
pub open spec fn line_end() -> Seq<u8> {
    seq![10u8]
}

/// The step after encoding. A state that cannot be encoded ends the stream.
pub open spec fn stream_encoded(line: Option<Seq<char>>) -> StreamView {
    match line {
        Some(text) => StreamView::Write { bytes: encode_utf8(text), ends_line: false },
        None => StreamView::Done(Ok(())),
    }
}

/// The step after writing.
pub open spec fn stream_written(ends_line: bool, result: Result<(), Seq<char>>) -> StreamView {
    match result {
        Ok(_) => if ends_line {
            StreamView::Wait
        } else {
            StreamView::Write { bytes: line_end(), ends_line: true }
        },
        Err(e) => StreamView::Done(Err(e)),
    }
}

/// The step after waiting. The stream ends where no further state will come.
pub open spec fn stream_changed(more: bool) -> StreamView {
    if more {
        StreamView::Encode
    } else {
        StreamView::Done(Ok(()))
    }
}

/// The step of streaming the states that is due.
#[derive(Debug)]
pub enum StreamStep {
    Encode(StreamEncode),
    Write(StreamWrite),
    Wait(StreamWait),
    Done(Result<(), String>),
}

/// Encode the current state and go on with `encoded`.
#[derive(Debug)]
pub struct StreamEncode {}

/// Write `bytes` and go on with `written`.
#[derive(Debug)]
pub struct StreamWrite {
    pub bytes: Vec<u8>,
    pub ends_line: bool,
}

/// Wait for the next state and go on with `changed`.
#[derive(Debug)]
pub struct StreamWait {}

impl View for StreamStep {
    type V = StreamView;

    open spec fn view(&self) -> StreamView {
        match self {
            StreamStep::Encode(_) => StreamView::Encode,
            StreamStep::Write(step) => StreamView::Write {
                bytes: step.bytes@,
                ends_line: step.ends_line,
            },
            StreamStep::Wait(_) => StreamView::Wait,
            StreamStep::Done(result) => StreamView::Done(result_error(*result)),
        }
    }
}

/// Starts to stream the states, with the current one first.
pub fn stream_watch() -> (r: StreamStep)
    ensures
        r@ == StreamView::Encode,
{
    StreamStep::Encode(StreamEncode {  })
}

/// A stream begins with the current state.
pub proof fn law_stream_begins_with_the_current_state(first: StreamStep)
    requires
        call_ensures(stream_watch, (), first),
    ensures
        first is Encode,
{
}

impl StreamEncode {
    /// Goes on with the encoded state.
    pub fn encoded(self, line: Option<String>) -> (r: StreamStep)
        ensures
            r@ == stream_encoded(
                match line {
                    Some(text) => Some(text@),
                    None => None,
                },
            ),
    {
        match line {
            Some(text) => StreamStep::Write(
                StreamWrite { bytes: text.as_str().as_bytes_vec(), ends_line: false },
            ),
            None => StreamStep::Done(Ok(())),
        }
    }
}

impl StreamWrite {
    /// Goes on after writing.
    pub fn written(self, result: Result<(), String>) -> (r: StreamStep)
        ensures
            r@ == stream_written(self.ends_line, result_error(result)),
    {
        match result {
            Ok(_) => if self.ends_line {
                StreamStep::Wait(StreamWait {  })
            } else {
                let bytes: Vec<u8> = vec![10u8];
                assert(bytes@ == line_end());
                StreamStep::Write(StreamWrite { bytes, ends_line: true })
            },
            Err(e) => StreamStep::Done(Err(e)),
        }
    }
}

impl StreamWait {
    /// Goes on after waiting, if `more` with a further state.
    pub fn changed(self, more: bool) -> (r: StreamStep)
        ensures
            r@ == stream_changed(more),
    {
        if more {
            StreamStep::Encode(StreamEncode {  })
        } else {
            StreamStep::Done(Ok(()))
        }
    }
}

/// Listening begins with the parent directory where there is one, and succeeds
/// exactly if the socket could be bound.
pub proof fn law_listening_needs_a_bound_socket(
    socket: Result<ListenPath, String>,
    first: ListenStep,
    bind: ListenBind,
    result: Result<(), String>,
    last: ListenStep,
)
    requires
        call_ensures(spawn_ipc_server, (socket,), first),
        call_ensures(ListenBind::bound, (bind, result), last),
    ensures
        socket is Err ==> first is Done && first->Done_0 is Err && first->Done_0->Err_0@
            == socket->Err_0@,
        socket is Ok && socket->Ok_0.has_parent ==> first is CreateParent
            && first->CreateParent_0.socket@ == socket->Ok_0.display@,
        socket is Ok && !socket->Ok_0.has_parent ==> first is RemoveStale
            && first->RemoveStale_0.socket@ == socket->Ok_0.display@,
        last is Done,
        last->Done_0 is Ok <==> result is Ok,
        result is Err ==> last->Done_0->Err_0@ == "failed to bind ipc socket "@ + bind.socket@
            + ": "@ + result->Err_0@,
{
}

/// After an answer the connection is closed, unless the answer was required and
/// could not be written.
pub proof fn law_answered_connection_is_closed(
    reply: ConnReply,
    result: Result<(), String>,
    next: ConnStep,
)
    requires
        call_ensures(ConnReply::written, (reply, result), next),
    ensures
        next is Done <==> reply.required && result is Err,
        next is Shutdown <==> !reply.required || result is Ok,
{
}

/// A state is sent as its text and a line feed, and the next is waited for. The
/// stream ends with a write that failed, and ends well with a state that cannot be
/// encoded or if no further one comes.
pub proof fn law_stream_sends_text_and_line_feed(
    encode: StreamEncode,
    line: Option<String>,
    encoded: StreamStep,
    write: StreamWrite,
    result: Result<(), String>,
    written: StreamStep,
    wait: StreamWait,
    more: bool,
    changed: StreamStep,
)
    requires
        call_ensures(StreamEncode::encoded, (encode, line), encoded),
        call_ensures(StreamWrite::written, (write, result), written),
        call_ensures(StreamWait::changed, (wait, more), changed),
    ensures
        line is Some ==> encoded is Write && encoded->Write_0.bytes@ == encode_utf8(line->0@)
            && !encoded->Write_0.ends_line,
        line is None ==> encoded is Done && encoded->Done_0 is Ok,
        result is Ok && !write.ends_line ==> written is Write && written->Write_0.bytes@
            == seq![10u8] && written->Write_0.ends_line,
        result is Ok && write.ends_line ==> written is Wait,
        result is Err ==> written is Done && written->Done_0 is Err && written->Done_0->Err_0@
            == result->Err_0@,
        more ==> changed is Encode,
        !more ==> changed is Done && changed->Done_0 is Ok,
{
}

} // verus!
