//! What holds of a client and a server together.

use vstd::prelude::*;
use vstd::string::*;
use vstd::utf8::{encode_utf8, encode_utf8_decode_utf8, encode_utf8_valid_utf8};

use super::client::{
    dump_args_of, not_running_on, send_begin, send_closed, send_connected, send_received,
    send_written, watch_begin, watch_closed, watch_connected, watch_flushed, watch_line,
    watch_printed, watch_written, without_daemon,
};
use super::client::{OutcomeView, SendView, WatchView, TIMEOUT_SECS};
use super::server::{
    conn_read, conn_request, conn_routed, conn_written, line_end, listen_begin, listen_bound,
    request_of, stream_changed, stream_encoded, stream_written,
};
use super::server::{
    ConnView, ListenCreateParent, ListenRemoveStale, ListenStep, ListenView, RequestView,
    StreamView,
};
use crate::text::{is_white, law_leading_whitespace_is_trimmed, law_padding_is_trimmed};
use crate::text::{
    framed, lemma_encode_concat, lemma_segments_extend, received_text, segments, trimmed,
};

verus! {

// ---------------- one command ----------------

/// How each operation of the client turns out, and what a local dump gives.
pub struct Link {
    pub connect: OutcomeView<()>,
    pub write: OutcomeView<()>,
    pub shutdown: OutcomeView<()>,
    pub read: OutcomeView<Seq<u8>>,
    pub dump: spec_fn(Seq<char>) -> Seq<char>,
}

/// How many operations are at most ahead of a step.
pub open spec fn send_rank(step: SendView) -> nat {
    match step {
        SendView::Connect { .. } => 4,
        SendView::Write { .. } => 3,
        SendView::Shutdown => 2,
        SendView::Read => 1,
        SendView::Dump { .. } => 1,
        SendView::Done(_) => 0,
    }
}

/// Carries sending a command out from `step` on.
pub open spec fn run_send(link: Link, step: SendView) -> Result<Seq<char>, Seq<char>>
    decreases send_rank(step),
{
    match step {
        SendView::Connect { cmd, socket } => run_send(
            link,
            send_connected(cmd, socket, link.connect),
        ),
        SendView::Dump { args } => run_send(link, SendView::Done(Ok((link.dump)(args)))),
        SendView::Write { .. } => run_send(link, send_written(link.write)),
        SendView::Shutdown => run_send(link, send_closed(link.shutdown)),
        SendView::Read => run_send(link, send_received(link.read)),
        SendView::Done(answer) => answer,
    }
}

proof fn lemma_without_daemon(link: Link, cmd: Seq<char>, error: Seq<char>)
    ensures
        run_send(link, without_daemon(cmd, error)) == (match dump_args_of(cmd) {
            Some(args) => Ok::<Seq<char>, Seq<char>>((link.dump)(args)),
            None => Err(error),
        }),
{
    if let Some(args) = dump_args_of(cmd) {
        let done = SendView::Done(Ok((link.dump)(args)));
        assert(run_send(link, done) == Ok::<Seq<char>, Seq<char>>((link.dump)(args)));
    }
}

proof fn lemma_unreachable(link: Link, cmd: Seq<char>, display: Seq<char>, present: bool)
    requires
        !present || !(link.connect is Done),
    ensures
        run_send(link, send_begin(cmd, Ok((display, present)))) == run_send(
            link,
            without_daemon(
                cmd,
                if !present {
                    "daemon not running"@
                } else if link.connect is Failed {
                    not_running_on(display)
                } else {
                    "timeout connecting to daemon"@
                },
            ),
        ),
{
    if present {
        let step = SendView::Connect { cmd, socket: display };
        assert(send_begin(cmd, Ok((display, present))) == step);
        assert(run_send(link, step) == run_send(
            link,
            send_connected(cmd, display, link.connect),
        ));
        match link.connect {
            OutcomeView::Failed(_) => {},
            OutcomeView::TimedOut => {},
            OutcomeView::Done(_) => {},
        }
    }
}

/// Without a daemon a `dump` is answered locally, whether the socket is
/// missing, nothing listens on it, or connecting takes too long.
pub proof fn law_dump_needs_no_daemon(
    link: Link,
    cmd: Seq<char>,
    display: Seq<char>,
    present: bool,
)
    requires
        dump_args_of(cmd) is Some,
        !present || !(link.connect is Done),
    ensures
        run_send(link, send_begin(cmd, Ok((display, present)))) == Ok::<Seq<char>, Seq<char>>(
            (link.dump)(dump_args_of(cmd)->0),
        ),
{
    lemma_unreachable(link, cmd, display, present);
    lemma_without_daemon(link, cmd, "daemon not running"@);
    lemma_without_daemon(link, cmd, not_running_on(display));
    lemma_without_daemon(link, cmd, "timeout connecting to daemon"@);
}

/// Any other command fails without a daemon, and the error says how.
pub proof fn law_command_needs_daemon(
    link: Link,
    cmd: Seq<char>,
    display: Seq<char>,
    present: bool,
)
    requires
        dump_args_of(cmd) is None,
        !present || !(link.connect is Done),
    ensures
        run_send(link, send_begin(cmd, Ok((display, present)))) == Err::<Seq<char>, Seq<char>>(
            if !present {
                "daemon not running"@
            } else if link.connect is Failed {
                not_running_on(display)
            } else {
                "timeout connecting to daemon"@
            },
        ),
{
    lemma_unreachable(link, cmd, display, present);
    lemma_without_daemon(link, cmd, "daemon not running"@);
    lemma_without_daemon(link, cmd, not_running_on(display));
    lemma_without_daemon(link, cmd, "timeout connecting to daemon"@);
}

/// With a daemon every command, `dump` included, is answered by what the daemon
/// sent, if nothing fails on the way, and only then.
pub proof fn law_answer_is_what_was_received(
    link: Link,
    cmd: Seq<char>,
    display: Seq<char>,
)
    requires
        link.connect is Done,
    ensures
        ({
            let answer = run_send(link, send_begin(cmd, Ok((display, true))));
            &&& answer is Ok <==> link.write is Done && link.shutdown is Done && link.read is Done
            &&& answer is Ok ==> answer->Ok_0 == received_text(link.read->Done_0)
        }),
{
    reveal_with_fuel(run_send, 5);
}

/// With a daemon the first operation that fails or takes too long decides the
/// error.
pub proof fn law_first_failure_is_reported(link: Link, cmd: Seq<char>, display: Seq<char>)
    requires
        link.connect is Done,
    ensures
        ({
            let answer = run_send(link, send_begin(cmd, Ok((display, true))));
            &&& !(link.write is Done) ==> send_written(link.write) == SendView::Done(answer)
            &&& link.write is Done && !(link.shutdown is Done) ==> send_closed(link.shutdown)
                == SendView::Done(answer)
            &&& link.write is Done && link.shutdown is Done ==> send_received(link.read)
                == SendView::Done(answer)
        }),
{
    reveal_with_fuel(run_send, 5);
}

/// A command can be answered without the daemon exactly if `dump` follows the
/// whitespace that it begins with. What comes after `dump` are the arguments.
pub proof fn law_dump_is_told_by_its_first_word(before: Seq<char>, rest: Seq<char>)
    requires
        forall|i: int| 0 <= i < before.len() ==> is_white(#[trigger] before[i]),
        rest.len() > 0 ==> !is_white(rest.first()),
    ensures
        ({
            let args = dump_args_of(before + rest);
            if rest.len() >= 4 && rest[0] == 'd' && rest[1] == 'u' && rest[2] == 'm' && rest[3]
                == 'p' {
                args is Some && rest == seq!['d', 'u', 'm', 'p'] + args->0
            } else {
                args is None
            }
        }),
{
    law_leading_whitespace_is_trimmed(before, rest);
    reveal_strlit("dump");
    let dump = seq!['d', 'u', 'm', 'p'];
    assert("dump"@ =~= dump);
    if rest.len() >= 4 && rest[0] == 'd' && rest[1] == 'u' && rest[2] == 'm' && rest[3] == 'p' {
        assert(rest.take(4) =~= dump);
        assert("dump"@.is_prefix_of(rest));
        assert(rest =~= dump + rest.skip(4));
    } else if "dump"@.is_prefix_of(rest) {
        assert(rest.take(4) == dump);
        assert(rest[0] == rest.take(4)[0]);
        assert(rest[1] == rest.take(4)[1]);
        assert(rest[2] == rest.take(4)[2]);
        assert(rest[3] == rest.take(4)[3]);
    }
}

/// A client without a socket path, or whose operation fails or takes too long,
/// gives up with an error that tells which, and with the text of the failure
/// where there is one. Of several the first counts.
pub proof fn law_errors_tell_what_failed(
    link: Link,
    cmd: Seq<char>,
    display: Seq<char>,
    e: Seq<char>,
)
    ensures
        run_send(link, send_begin(cmd, Err(e))) == Err::<Seq<char>, Seq<char>>(e),
        link.connect is Done ==> {
            let answer = run_send(link, send_begin(cmd, Ok((display, true))));
            &&& link.write matches OutcomeView::Failed(why) ==> answer == Err::<
                Seq<char>,
                Seq<char>,
            >("write failed: "@ + why)
            &&& link.write is TimedOut ==> answer == Err::<Seq<char>, Seq<char>>(
                "timeout writing to daemon"@,
            )
            &&& link.write is Done ==> {
                &&& link.shutdown matches OutcomeView::Failed(why) ==> answer == Err::<
                    Seq<char>,
                    Seq<char>,
                >("shutdown failed: "@ + why)
                &&& link.shutdown is TimedOut ==> answer == Err::<Seq<char>, Seq<char>>(
                    "timeout finalizing request"@,
                )
                &&& link.shutdown is Done ==> {
                    &&& link.read matches OutcomeView::Failed(why) ==> answer == Err::<
                        Seq<char>,
                        Seq<char>,
                    >("read failed: "@ + why)
                    &&& link.read is TimedOut ==> answer == Err::<Seq<char>, Seq<char>>(
                        "timeout reading response"@,
                    )
                }
            }
        },
        not_running_on(display) == "failed to connect to "@ + display + ": daemon not running"@,
{
    reveal_with_fuel(run_send, 5);
}

/// An operation with a time limit may take two seconds.
pub proof fn law_operations_take_two_seconds_at_most()
    ensures
        TIMEOUT_SECS == 2,
{
}

/// A client sends its command as it is, `watch` and `dump` among them: what the
/// daemon makes of the bytes is the command.
pub proof fn law_command_is_sent_as_it_is(cmd: Seq<char>, display: Seq<char>)
    ensures
        send_begin(cmd, Ok((display, true))) == (SendView::Connect { cmd, socket: display }),
        send_connected(cmd, display, OutcomeView::Done(())) matches SendView::Write { bytes }
            && received_text(bytes) == cmd,
{
    law_text_survives(cmd);
}

/// Text that was encoded is received unchanged.
pub proof fn law_text_survives(text: Seq<char>)
    ensures
        received_text(encode_utf8(text)) == text,
{
    encode_utf8_valid_utf8(text);
    encode_utf8_decode_utf8(text);
}

/// A request is a command without the whitespace around it. `watch` asks for the
/// stream of states, nothing but whitespace for nothing.
pub proof fn law_request_is_trimmed(before: Seq<char>, cmd: Seq<char>, after: Seq<char>)
    requires
        forall|i: int| 0 <= i < before.len() ==> is_white(#[trigger] before[i]),
        forall|i: int| 0 <= i < after.len() ==> is_white(#[trigger] after[i]),
        cmd.len() > 0 ==> !is_white(cmd.first()) && !is_white(cmd.last()),
    ensures
        request_of(before + cmd + after) == if cmd.len() == 0 {
            RequestView::Empty
        } else if cmd == seq!['w', 'a', 't', 'c', 'h'] {
            RequestView::Watch
        } else {
            RequestView::Command(cmd)
        },
{
    law_padding_is_trimmed(before, cmd, after);
    reveal_strlit("watch");
    assert("watch"@ =~= seq!['w', 'a', 't', 'c', 'h']);
}

/// A request that could not be read gets no answer. One that was read is refused
/// if it is empty, streamed to if it asks for that, and else carried out. The
/// response is sent as it is. A connection is closed after the answer, and is
/// given up only if the response to a command could not be written.
pub proof fn law_connection_answers_its_request(
    e: Seq<char>,
    bytes: Seq<u8>,
    cmd: Seq<char>,
    response: Seq<char>,
    required: bool,
    result: Result<(), Seq<char>>,
)
    ensures
        conn_read(Err(e)) == ConnView::Done,
        conn_read(Ok(bytes)) == conn_request(request_of(received_text(bytes))),
        conn_request(RequestView::Command(cmd)) == (ConnView::Route { cmd }),
        conn_request(RequestView::Watch) == ConnView::Watch,
        conn_request(RequestView::Empty) matches ConnView::Reply { bytes, required }
            && received_text(bytes) == "ERROR: empty command"@ && !required,
        conn_routed(response) matches ConnView::Reply { bytes, required } && received_text(bytes)
            == response && required,
        conn_written(required, result) == ConnView::Done || conn_written(required, result)
            == ConnView::Shutdown,
        conn_written(required, result) == ConnView::Done <==> required && result is Err,
{
    law_text_survives("ERROR: empty command"@);
    law_text_survives(response);
}

/// A server makes the directory of its socket where there is one, removes a stale
/// socket whether or not that went well, and binds. It listens exactly if it
/// could bind, and else tells which socket it could not bind and why.
pub proof fn law_server_binds_a_fresh_socket(
    display: Seq<char>,
    e: Seq<char>,
    parent: ListenCreateParent,
    stale: ListenRemoveStale,
    after_parent: ListenStep,
    after_stale: ListenStep,
)
    requires
        call_ensures(ListenCreateParent::attempted, (parent,), after_parent),
        call_ensures(ListenRemoveStale::attempted, (stale,), after_stale),
    ensures
        listen_begin(Ok((display, true))) == (ListenView::CreateParent { socket: display }),
        listen_begin(Ok((display, false))) == (ListenView::RemoveStale { socket: display }),
        listen_begin(Err(e)) == ListenView::Done(Err(e)),
        after_parent matches ListenStep::RemoveStale(next) && next.socket@ == parent.socket@,
        after_stale matches ListenStep::Bind(next) && next.socket@ == stale.socket@,
        listen_bound(display, Ok(())) == ListenView::Done(Ok(())),
        listen_bound(display, Err(e)) == ListenView::Done(
            Err("failed to bind ipc socket "@ + display + ": "@ + e),
        ),
{
}

/// What the server writes back to a request, where `route` carries commands
/// out. A watcher gets no answer of this kind.
pub open spec fn answer_to(request: Seq<u8>, route: spec_fn(Seq<char>) -> Seq<char>) -> Option<
    Seq<u8>,
> {
    match conn_read(Ok(request)) {
        ConnView::Reply { bytes, .. } => Some(bytes),
        ConnView::Route { cmd } => match conn_routed(route(cmd)) {
            ConnView::Reply { bytes, .. } => Some(bytes),
            _ => None,
        },
        _ => None,
    }
}

/// A request without a command is answered with the refusal, and the connection
/// is closed whether or not the refusal could be written.
pub proof fn law_blank_request_is_refused(request: Seq<u8>, result: Result<(), Seq<char>>)
    requires
        trimmed(received_text(request)).len() == 0,
    ensures
        conn_read(Ok(request)) == (ConnView::Reply {
            bytes: encode_utf8("ERROR: empty command"@),
            required: false,
        }),
        conn_written(false, result) == ConnView::Shutdown,
{
}

/// A client whose request reaches the server and whose answer comes back whole
/// gets the response to its command without surrounding whitespace, and the
/// refusal if the command is blank.
pub proof fn law_exchange(
    link: Link,
    cmd: Seq<char>,
    display: Seq<char>,
    route: spec_fn(Seq<char>) -> Seq<char>,
)
    requires
        link.connect is Done,
        link.write is Done,
        link.shutdown is Done,
        trimmed(cmd) != "watch"@,
        answer_to(encode_utf8(cmd), route) is Some ==> link.read == OutcomeView::Done(
            answer_to(encode_utf8(cmd), route)->0,
        ),
    ensures
        send_begin(cmd, Ok((display, true))) == (SendView::Connect { cmd, socket: display }),
        send_connected(cmd, display, link.connect) == (SendView::Write {
            bytes: encode_utf8(cmd),
        }),
        answer_to(encode_utf8(cmd), route) is Some,
        run_send(link, send_begin(cmd, Ok((display, true)))) == Ok::<Seq<char>, Seq<char>>(
            if trimmed(cmd).len() == 0 {
                "ERROR: empty command"@
            } else {
                route(trimmed(cmd))
            },
        ),
{
    law_text_survives(cmd);
    law_text_survives("ERROR: empty command"@);
    law_text_survives(route(trimmed(cmd)));
    law_answer_is_what_was_received(link, cmd, display);
}

// ---------------- a stream of states ----------------

/// The request of a watcher is answered by the stream of states.
pub proof fn law_watch_request(socket: Seq<char>)
    ensures
        watch_connected(socket, OutcomeView::Done(())) matches WatchView::Write { bytes }
            && conn_read(Ok(bytes)) == ConnView::Watch,
{
    reveal_strlit("watch");
    law_text_survives("watch"@);
    assert(trimmed("watch"@) == "watch"@);
}

/// A watcher without a socket path, or one of whose operations fails or takes too
/// long, gives up with an error that tells which, and with the text of the failure
/// where there is one. It ends well exactly if the daemon closes the stream.
pub proof fn law_watch_errors_tell_what_failed(socket: Seq<char>, e: Seq<char>, line: Seq<char>)
    ensures
        watch_begin(Err(e)) == WatchView::Done(Err(e)),
        watch_begin(Ok(socket)) == (WatchView::Connect { socket }),
        watch_connected(socket, OutcomeView::Failed(e)) == WatchView::Done(
            Err("failed to connect to "@ + socket + ": daemon not running"@),
        ),
        watch_connected(socket, OutcomeView::TimedOut) == WatchView::Done(
            Err("timeout connecting to daemon"@),
        ),
        watch_written(OutcomeView::Done(())) == WatchView::Shutdown,
        watch_written(OutcomeView::Failed(e)) == WatchView::Done(Err("write failed: "@ + e)),
        watch_written(OutcomeView::TimedOut) == WatchView::Done(Err("timeout writing to daemon"@)),
        watch_closed(Ok(())) == WatchView::ReadLine,
        watch_closed(Err(e)) == WatchView::Done(Err("shutdown failed: "@ + e)),
        watch_line(Err(e)) == WatchView::Done(Err("read failed: "@ + e)),
        watch_line(Ok(None)) == WatchView::Done(Ok(())),
        watch_line(Ok(Some(line))) matches WatchView::Print { text } && text == line + seq!['\n'],
        watch_printed(Ok(())) == WatchView::Flush,
        watch_printed(Err(e)) == WatchView::Done(Err("stdout write failed: "@ + e)),
        watch_flushed(Ok(())) == WatchView::ReadLine,
        watch_flushed(Err(e)) == WatchView::Done(Err("stdout flush failed: "@ + e)),
{
    assert(line.push('\n') =~= line + seq!['\n']);
}

/// A stream ends with the failure of a write, and ends well if a state cannot be
/// encoded or no further one will come. Else it goes on: the text of a state is
/// followed by a line feed, and that by waiting for the next state.
pub proof fn law_stream_ends_only_for_a_reason(
    text: Seq<char>,
    e: Seq<char>,
    ends_line: bool,
)
    ensures
        stream_encoded(None) == StreamView::Done(Ok(())),
        stream_encoded(Some(text)) matches StreamView::Write { bytes, ends_line }
            && received_text(bytes) == text && !ends_line,
        stream_written(ends_line, Err(e)) == StreamView::Done(Err(e)),
        stream_written(false, Ok(())) == (StreamView::Write { bytes: seq![10u8], ends_line: true }),
        stream_written(true, Ok(())) == StreamView::Wait,
        stream_changed(true) == StreamView::Encode,
        stream_changed(false) == StreamView::Done(Ok(())),
{
    law_text_survives(text);
}

/// Lines as text, each with its line end.
pub open spec fn text_of_lines(lines: Seq<Seq<char>>) -> Seq<char>
    decreases lines.len(),
{
    if lines.len() == 0 {
        Seq::empty()
    } else {
        framed(lines.first()) + text_of_lines(lines.drop_first())
    }
}

/// The order of the steps between two states.
pub open spec fn stream_rank(step: StreamView) -> nat {
    match step {
        StreamView::Encode => 0,
        StreamView::Write { ends_line, .. } => if ends_line {
            2
        } else {
            3
        },
        StreamView::Wait => 1,
        StreamView::Done(_) => 0,
    }
}

/// The bytes that the server sends from `step` on, where the states still to
/// come are encoded as `lines` and every write succeeds.
pub open spec fn run_stream(step: StreamView, lines: Seq<Seq<char>>) -> Seq<u8>
    decreases lines.len(), stream_rank(step),
{
    match step {
        StreamView::Encode => if lines.len() == 0 {
            Seq::empty()
        } else {
            run_stream(stream_encoded(Some(lines.first())), lines.drop_first())
        },
        StreamView::Write { bytes, ends_line } => bytes + run_stream(
            stream_written(ends_line, Ok(())),
            lines,
        ),
        StreamView::Wait => run_stream(stream_changed(lines.len() > 0), lines),
        StreamView::Done(_) => Seq::empty(),
    }
}

/// The text that the client prints from `step` on, where the lines still to be
/// read are `lines` and every operation succeeds.
pub open spec fn run_watch(step: WatchView, lines: Seq<Seq<char>>) -> Seq<char>
    decreases lines.len(), watch_rank(step),
{
    match step {
        WatchView::Connect { socket } => run_watch(
            watch_connected(socket, OutcomeView::Done(())),
            lines,
        ),
        WatchView::Write { .. } => run_watch(watch_written(OutcomeView::Done(())), lines),
        WatchView::Shutdown => run_watch(watch_closed(Ok(())), lines),
        WatchView::ReadLine => if lines.len() == 0 {
            run_watch(watch_line(Ok(None)), lines)
        } else {
            run_watch(watch_line(Ok(Some(lines.first()))), lines.drop_first())
        },
        WatchView::Print { text } => text + run_watch(watch_printed(Ok(())), lines),
        WatchView::Flush => run_watch(watch_flushed(Ok(())), lines),
        WatchView::Done(_) => Seq::empty(),
    }
}

/// The order of the steps between two lines.
pub open spec fn watch_rank(step: WatchView) -> nat {
    match step {
        WatchView::Connect { .. } => 6,
        WatchView::Write { .. } => 5,
        WatchView::Shutdown => 4,
        WatchView::Print { .. } => 3,
        WatchView::Flush => 2,
        WatchView::ReadLine => 1,
        WatchView::Done(_) => 0,
    }
}

proof fn lemma_encode_line_end()
    ensures
        encode_utf8(seq!['\n']) == line_end(),
{
    vstd::utf8::is_ascii_chars_encode_utf8(seq!['\n']);
    assert(encode_utf8(seq!['\n']) =~= line_end());
}

/// The server sends each state as one line: the bytes of the stream are those
/// of the lines with their line ends, in order.
pub proof fn law_stream_sends_lines(lines: Seq<Seq<char>>)
    ensures
        run_stream(StreamView::Encode, lines) == encode_utf8(text_of_lines(lines)),
    decreases lines.len(),
{
    if lines.len() > 0 {
        let line = lines.first();
        let rest = lines.drop_first();
        reveal_with_fuel(run_stream, 5);
        lemma_encode_line_end();
        assert(framed(line) == line + seq!['\n']);
        lemma_encode_concat(line, seq!['\n']);
        lemma_encode_concat(framed(line), text_of_lines(rest));
        law_stream_sends_lines(rest);
        assert(run_stream(StreamView::Wait, rest) == run_stream(StreamView::Encode, rest));
        assert(run_stream(StreamView::Encode, lines) == encode_utf8(line) + (line_end()
            + run_stream(StreamView::Encode, rest)));
        assert(encode_utf8(line) + (line_end() + run_stream(StreamView::Encode, rest)) =~= (
        encode_utf8(line) + line_end()) + run_stream(StreamView::Encode, rest));
    } else {
        assert(encode_utf8(text_of_lines(lines)) == Seq::<u8>::empty());
    }
}

proof fn lemma_watch_prints(lines: Seq<Seq<char>>)
    ensures
        run_watch(WatchView::ReadLine, lines) == text_of_lines(lines),
    decreases lines.len(),
{
    reveal_with_fuel(run_watch, 4);
    if lines.len() > 0 {
        lemma_watch_prints(lines.drop_first());
    }
}

/// The client prints every line that it reads, in order, each with a line end.
pub proof fn law_watch_prints_lines(socket: Seq<char>, lines: Seq<Seq<char>>)
    ensures
        run_watch(watch_begin(Ok(socket)), lines) == text_of_lines(lines),
{
    reveal_with_fuel(run_watch, 4);
    lemma_watch_prints(lines);
}

/// Lines without line feeds can be told apart in the text of the stream: split
/// at the line feeds, it gives the lines back.
pub proof fn law_stream_splits_into_lines(lines: Seq<Seq<char>>)
    requires
        forall|i: int| 0 <= i < lines.len() ==> !(#[trigger] lines[i]).contains('\n'),
    ensures
        segments(received_text(run_stream(StreamView::Encode, lines))) == lines.push(Seq::empty()),
{
    law_stream_sends_lines(lines);
    law_text_survives(text_of_lines(lines));
    lemma_lines_split(lines);
}

/// One line more adds itself and its line end to the text.
pub proof fn lemma_lines_extend(lines: Seq<Seq<char>>, line: Seq<char>)
    ensures
        text_of_lines(lines.push(line)) == text_of_lines(lines) + framed(line),
    decreases lines.len(),
{
    reveal_with_fuel(text_of_lines, 2);
    if lines.len() == 0 {
        assert(lines.push(line).drop_first() == lines);
    } else {
        lemma_lines_extend(lines.drop_first(), line);
        assert(lines.push(line).drop_first() == lines.drop_first().push(line));
    }
}

/// Splitting the text of lines at its line feeds gives the lines back.
pub proof fn lemma_lines_split(lines: Seq<Seq<char>>)
    requires
        forall|i: int| 0 <= i < lines.len() ==> !(#[trigger] lines[i]).contains('\n'),
    ensures
        segments(text_of_lines(lines)) == lines.push(Seq::empty()),
    decreases lines.len(),
{
    if lines.len() == 0 {
        assert(segments(text_of_lines(lines)) =~= lines.push(Seq::empty()));
    } else {
        let init = lines.drop_last();
        let line = lines.last();
        lemma_lines_split(init);
        assert(init.push(line) == lines);
        lemma_lines_extend(init, line);
        let text = text_of_lines(init);
        assert(!lines[lines.len() - 1].contains('\n'));
        lemma_segments_extend(text, line);
        assert((text + framed(line)).drop_last() == text + line);
        assert((text + framed(line)).last() == '\n');
        assert(segments(text).drop_last() == init);
        assert(Seq::<char>::empty() + line == line);
    }
}

} // verus!
