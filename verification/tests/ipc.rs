use stasis::ipc::client::{
    dump_args, send_raw, watch, Outcome, SendStep, Socket, WatchStep, TIMEOUT_SECS,
};
use stasis::ipc::server::{
    request, serve_connection, spawn_ipc_server, stream_watch, ConnStep, ListenPath, ListenStep,
    Request, StreamStep,
};

fn socket(exists: bool) -> Result<Socket, String> {
    Ok(Socket { display: "/run/stasis.sock".to_string(), exists })
}

fn connect(cmd: &str, outcome: Outcome<()>) -> SendStep {
    match send_raw(cmd, socket(true)) {
        SendStep::Connect(s) => s.connected(outcome),
        other => panic!("{other:?}"),
    }
}

fn done(step: SendStep) -> Result<String, String> {
    match step {
        SendStep::Dump(s) => done(s.output("dumped".to_string())),
        SendStep::Done(answer) => answer,
        other => panic!("{other:?}"),
    }
}

/// Serves `bytes` and gives what the server writes back.
fn answer(bytes: Vec<u8>) -> Vec<u8> {
    match serve_connection(Ok(bytes)) {
        ConnStep::Reply(s) => s.bytes,
        ConnStep::Route(s) => {
            let response = format!("did {}", s.cmd);
            match s.routed(response) {
                ConnStep::Reply(s) => s.bytes,
                other => panic!("{other:?}"),
            }
        }
        other => panic!("{other:?}"),
    }
}

/// Sends `cmd` all the way to the server and back.
fn exchange(cmd: &str) -> Result<String, String> {
    let (bytes, step) = match connect(cmd, Outcome::Done(())) {
        SendStep::Write(s) => (s.bytes.clone(), s.written(Outcome::Done(()))),
        other => panic!("{other:?}"),
    };
    let step = match step {
        SendStep::Shutdown(s) => s.closed(Outcome::Done(())),
        other => panic!("{other:?}"),
    };
    match step {
        SendStep::Read(s) => done(s.received(Outcome::Done(answer(bytes)))),
        other => panic!("{other:?}"),
    }
}

#[test]
fn dump_arguments() {
    assert_eq!(dump_args("dump 20"), Some(" 20".to_string()));
    assert_eq!(dump_args("  dump"), Some(String::new()));
    assert_eq!(dump_args("dumpster"), Some("ster".to_string()));
    assert_eq!(dump_args("info dump"), None);
}

#[test]
fn commands_need_a_daemon() {
    assert_eq!(TIMEOUT_SECS, 2);
    assert_eq!(done(send_raw("info", socket(false))), Err("daemon not running".to_string()));
    assert_eq!(
        done(connect("info", Outcome::Failed("refused".to_string()))),
        Err("failed to connect to /run/stasis.sock: daemon not running".to_string())
    );
    assert_eq!(
        done(connect("info", Outcome::TimedOut)),
        Err("timeout connecting to daemon".to_string())
    );
    assert_eq!(
        done(send_raw("dump", Err("no runtime directory".to_string()))),
        Err("no runtime directory".to_string())
    );
}

#[test]
fn dumps_need_no_daemon() {
    assert_eq!(done(send_raw("dump 5", socket(false))), Ok("dumped".to_string()));
    assert_eq!(
        done(connect("dump 5", Outcome::Failed("refused".to_string()))),
        Ok("dumped".to_string())
    );
    assert_eq!(done(connect("dump 5", Outcome::TimedOut)), Ok("dumped".to_string()));
}

#[test]
fn failures_after_connecting() {
    let write = |o| match connect("info", Outcome::Done(())) {
        SendStep::Write(s) => s.written(o),
        other => panic!("{other:?}"),
    };
    assert_eq!(done(write(Outcome::Failed("e".to_string()))), Err("write failed: e".to_string()));
    assert_eq!(done(write(Outcome::TimedOut)), Err("timeout writing to daemon".to_string()));
    let close = |o| match write(Outcome::Done(())) {
        SendStep::Shutdown(s) => s.closed(o),
        other => panic!("{other:?}"),
    };
    assert_eq!(
        done(close(Outcome::Failed("e".to_string()))),
        Err("shutdown failed: e".to_string())
    );
    assert_eq!(done(close(Outcome::TimedOut)), Err("timeout finalizing request".to_string()));
    let read = |o| match close(Outcome::Done(())) {
        SendStep::Read(s) => s.received(o),
        other => panic!("{other:?}"),
    };
    assert_eq!(done(read(Outcome::Failed("e".to_string()))), Err("read failed: e".to_string()));
    assert_eq!(done(read(Outcome::TimedOut)), Err("timeout reading response".to_string()));
    assert_eq!(done(read(Outcome::Done(b"a\xffb".to_vec()))), Ok("a\u{fffd}b".to_string()));
}

#[test]
fn commands_travel_and_answers_come_back() {
    assert_eq!(exchange("  pause für 5m\n"), Ok("did pause für 5m".to_string()));
    assert_eq!(exchange("dump 3"), Ok("did dump 3".to_string()));
}

#[test]
fn blank_commands_are_refused() {
    assert_eq!(exchange(""), Ok("ERROR: empty command".to_string()));
    assert_eq!(exchange(" \t\r\n"), Ok("ERROR: empty command".to_string()));
}

#[test]
fn requests() {
    assert!(matches!(request(" "), Request::Empty));
    assert!(matches!(request(" watch\n"), Request::Watch));
    assert!(matches!(request("watch me"), Request::Command(cmd) if cmd == "watch me"));
    match serve_connection(Ok(b" \xff ".to_vec())) {
        ConnStep::Route(s) => assert_eq!(s.cmd, "\u{fffd}"),
        other => panic!("{other:?}"),
    }
    assert!(matches!(serve_connection(Err("e".to_string())), ConnStep::Done));
}

#[test]
fn replies_close_the_connection() {
    let refusal = |r| match serve_connection(Ok(vec![])) {
        ConnStep::Reply(s) => s.written(r),
        other => panic!("{other:?}"),
    };
    assert!(matches!(refusal(Ok(())), ConnStep::Shutdown));
    assert!(matches!(refusal(Err("e".to_string())), ConnStep::Shutdown));
    let reply = |r| match serve_connection(Ok(b"info".to_vec())) {
        ConnStep::Route(s) => match s.routed("text".to_string()) {
            ConnStep::Reply(s) => s.written(r),
            other => panic!("{other:?}"),
        },
        other => panic!("{other:?}"),
    };
    assert!(matches!(reply(Ok(())), ConnStep::Shutdown));
    assert!(matches!(reply(Err("e".to_string())), ConnStep::Done));
}

fn listen(socket: Result<ListenPath, String>, bind: Result<(), String>) -> (String, String) {
    let mut trace = String::new();
    let mut step = spawn_ipc_server(socket);
    loop {
        step = match step {
            ListenStep::CreateParent(s) => {
                trace.push('c');
                s.attempted()
            }
            ListenStep::RemoveStale(s) => {
                trace.push('r');
                s.attempted()
            }
            ListenStep::Bind(s) => {
                trace.push('b');
                s.bound(bind.clone())
            }
            ListenStep::Done(result) => return (trace, format!("{result:?}")),
        };
    }
}

#[test]
fn the_server_starts() {
    let path = |has_parent| Ok(ListenPath { display: "/run/s".to_string(), has_parent });
    assert_eq!(listen(path(true), Ok(())), ("crb".to_string(), "Ok(())".to_string()));
    assert_eq!(listen(path(false), Ok(())), ("rb".to_string(), "Ok(())".to_string()));
    assert_eq!(
        listen(path(true), Err("in use".to_string())),
        ("crb".to_string(), "Err(\"failed to bind ipc socket /run/s: in use\")".to_string())
    );
    assert_eq!(
        listen(Err("no path".to_string()), Ok(())),
        (String::new(), "Err(\"no path\")".to_string())
    );
}

/// Streams `lines` and gives what is sent.
fn stream(lines: &[&str]) -> Vec<u8> {
    let mut sent = Vec::new();
    let mut left = lines.iter();
    let mut step = stream_watch();
    loop {
        step = match step {
            StreamStep::Encode(s) => s.encoded(left.next().map(|l| l.to_string())),
            StreamStep::Write(s) => {
                sent.extend_from_slice(&s.bytes);
                s.written(Ok(()))
            }
            StreamStep::Wait(s) => s.changed(left.len() > 0),
            StreamStep::Done(result) => {
                assert!(result.is_ok());
                return sent;
            }
        };
    }
}

/// Watches a stream of `lines` and gives what is printed.
fn print(lines: &[&str]) -> String {
    let mut printed = String::new();
    let mut left = lines.iter();
    let mut step = watch(Ok("/run/s".to_string()));
    loop {
        step = match step {
            WatchStep::Connect(s) => s.connected(Outcome::Done(())),
            WatchStep::Write(s) => {
                assert!(matches!(serve_connection(Ok(s.bytes.clone())), ConnStep::Watch));
                s.written(Outcome::Done(()))
            }
            WatchStep::Shutdown(s) => s.closed(Ok(())),
            WatchStep::ReadLine(s) => s.line(Ok(left.next().map(|l| l.to_string()))),
            WatchStep::Print(s) => {
                printed.push_str(&s.text);
                s.printed(Ok(()))
            }
            WatchStep::Flush(s) => s.flushed(Ok(())),
            WatchStep::Done(result) => {
                assert!(result.is_ok());
                return printed;
            }
        };
    }
}

#[test]
fn states_are_streamed_as_lines() {
    let lines = ["{\"state\":\"active\"}", "{\"state\":\"größer\"}"];
    let sent = stream(&lines);
    assert_eq!(sent, "{\"state\":\"active\"}\n{\"state\":\"größer\"}\n".as_bytes());
    assert_eq!(print(&lines).as_bytes(), sent);
    let text = String::from_utf8(sent).unwrap();
    assert_eq!(text.lines().collect::<Vec<&str>>(), lines);
}

#[test]
fn streams_end() {
    let encode = |line| match stream_watch() {
        StreamStep::Encode(s) => s.encoded(line),
        other => panic!("{other:?}"),
    };
    assert!(matches!(encode(None), StreamStep::Done(Ok(()))));
    let first = match encode(Some("x".to_string())) {
        StreamStep::Write(s) => s,
        other => panic!("{other:?}"),
    };
    match first.written(Err("gone".to_string())) {
        StreamStep::Done(Err(e)) => assert_eq!(e, "gone"),
        other => panic!("{other:?}"),
    }
}

#[test]
fn watching_fails_with_a_reason() {
    let error = |step| match step {
        WatchStep::Done(Err(e)) => e,
        other => panic!("{other:?}"),
    };
    assert_eq!(error(watch(Err("no path".to_string()))), "no path");
    let connect = |o| match watch(Ok("/run/s".to_string())) {
        WatchStep::Connect(s) => s.connected(o),
        other => panic!("{other:?}"),
    };
    assert_eq!(error(connect(Outcome::TimedOut)), "timeout connecting to daemon");
    assert_eq!(
        error(connect(Outcome::Failed("e".to_string()))),
        "failed to connect to /run/s: daemon not running"
    );
    let write = |o| match connect(Outcome::Done(())) {
        WatchStep::Write(s) => s.written(o),
        other => panic!("{other:?}"),
    };
    assert_eq!(error(write(Outcome::TimedOut)), "timeout writing to daemon");
    assert_eq!(error(write(Outcome::Failed("e".to_string()))), "write failed: e");
    let close = |r| match write(Outcome::Done(())) {
        WatchStep::Shutdown(s) => s.closed(r),
        other => panic!("{other:?}"),
    };
    assert_eq!(error(close(Err("e".to_string()))), "shutdown failed: e");
    let read = |r| match close(Ok(())) {
        WatchStep::ReadLine(s) => s.line(r),
        other => panic!("{other:?}"),
    };
    assert_eq!(error(read(Err("e".to_string()))), "read failed: e");
    let print = |r| match read(Ok(Some("l".to_string()))) {
        WatchStep::Print(s) => s.printed(r),
        other => panic!("{other:?}"),
    };
    assert_eq!(error(print(Err("e".to_string()))), "stdout write failed: e");
    let flush = |r| match print(Ok(())) {
        WatchStep::Flush(s) => s.flushed(r),
        other => panic!("{other:?}"),
    };
    assert_eq!(error(flush(Err("e".to_string()))), "stdout flush failed: e");
    assert!(matches!(flush(Ok(())), WatchStep::ReadLine(_)));
}
