use pty_secret::models::Password;
use pty_secret::pty::{
    looks_like_prompt, Action, Event, PromptSession, PtyConfig, PtyError, PtyResult, Stage,
};

enum Step {
    Out(String),
    Block,
    Fail(&'static str),
}

struct Run {
    outcome: Result<PtyResult, PtyError>,
    writes: Vec<Vec<u8>>,
    elapsed_ms: u64,
}

/// Plays a scripted program against a session. Each read takes the next
/// step of the script; once the script is used up, reads find the end of
/// the output. A pause advances the clock by ten milliseconds. After the
/// secret has been written `n` times, `replies(n, secret)` is appended.
fn play(
    config: &PtyConfig,
    secret: &Password,
    script: Vec<Step>,
    replies: &dyn Fn(usize, &str) -> Vec<Step>,
    exit_code: Option<i32>,
) -> Run {
    let mut session = PromptSession::new(config);
    let mut script: std::collections::VecDeque<Step> = script.into_iter().collect();
    let mut writes: Vec<Vec<u8>> = Vec::new();
    let mut clock: u64 = 0;
    let mut action = Action::CheckClock;
    for _ in 0..100_000 {
        let event = match action {
            Action::CheckClock => Event::Clock(clock),
            Action::Sleep => {
                clock += 10;
                Event::Clock(clock)
            }
            Action::Read => match script.pop_front() {
                Some(Step::Out(s)) => Event::Output(s.into_bytes()),
                Some(Step::Block) => Event::WouldBlock,
                Some(Step::Fail(m)) => Event::ReadFailed(m.to_string()),
                None => Event::Eof,
            },
            Action::InjectSecret => {
                let mut bytes = secret.as_str().as_bytes().to_vec();
                bytes.push(b'\n');
                writes.push(bytes);
                for s in replies(writes.len(), secret.as_str()) {
                    script.push_back(s);
                }
                Event::Injected
            }
            Action::ProbeExit => {
                if script.is_empty() {
                    Event::Exited
                } else {
                    Event::Running
                }
            }
            Action::WaitExit => match exit_code {
                Some(c) => Event::ExitCode(c),
                None => Event::WaitFailed("no child".to_string()),
            },
            Action::Finish(r) => {
                return Run { outcome: Ok(r), writes, elapsed_ms: clock };
            }
            Action::Abort(e) => {
                return Run { outcome: Err(e), writes, elapsed_ms: clock };
            }
        };
        assert!(session.accepts(&event));
        action = session.handle(event);
    }
    panic!("session did not end");
}

fn out(s: &str) -> Step {
    Step::Out(s.to_string())
}

fn no_replies(_: usize, _: &str) -> Vec<Step> {
    Vec::new()
}

fn reverse_echo(n: usize, secret: &str) -> Vec<Step> {
    if n == 1 {
        let rev: String = secret.chars().rev().collect();
        vec![out("\r\n"), out(&format!("OK:{}\r\n", rev))]
    } else {
        Vec::new()
    }
}

#[test]
fn prompt_detection() {
    assert!(looks_like_prompt("Enter password: "));
    assert!(looks_like_prompt("Password:"));
    assert!(looks_like_prompt("Password:  \t"));
    assert!(looks_like_prompt("Password:\r\n"));
    assert!(!looks_like_prompt("Password"));
    assert!(!looks_like_prompt(""));
    assert!(!looks_like_prompt("a: b"));
}

#[test]
fn config_defaults() {
    let c = PtyConfig::default();
    assert_eq!(c.timeout_ms, 30_000);
    assert_eq!(c.password_prompt_count, 1);
    let d = PtyConfig::new(200, 2);
    assert_eq!(d.timeout_ms, 200);
    assert_eq!(d.password_prompt_count, 2);
}

#[test]
fn result_success() {
    let ok = PtyResult { output: String::new(), exit_code: 0 };
    let bad = PtyResult { output: String::from("wrong password"), exit_code: 1 };
    assert!(ok.success());
    assert!(!bad.success());
}

#[test]
fn error_messages() {
    assert_eq!(PtyError::PtyCreation("x".to_string()).to_string(), "Failed to create PTY: x");
    assert_eq!(PtyError::SpawnFailed("y".to_string()).to_string(), "Failed to spawn command: y");
    assert_eq!(PtyError::Timeout.to_string(), "Operation timed out");
    assert_eq!(PtyError::IoError("z".to_string()).to_string(), "I/O error: z");
    assert_eq!(PtyError::CommandFailed("w".to_string()).to_string(), "Command failed: w");
}

#[test]
fn round_trip_reversed_secret() {
    let secret = Password::new("s3cr3t!");
    let run = play(&PtyConfig::default(), &secret, vec![out("Password: ")], &reverse_echo, Some(0));
    let r = run.outcome.unwrap();
    assert!(r.output.contains("OK:!t3rc3s"));
    assert_eq!(r.exit_code, 0);
    assert!(r.success());
    assert_eq!(run.writes, vec![b"s3cr3t!\n".to_vec()]);
}

#[test]
fn two_prompts_two_writes() {
    let secret = Password::new("pw");
    let confirm = |n: usize, _: &str| -> Vec<Step> {
        if n == 1 {
            vec![out("\r\nConfirm password: ")]
        } else if n == 2 {
            vec![out("\r\n\x1b[32mAddress: 0xabc\x1b[0m\r\n")]
        } else {
            Vec::new()
        }
    };
    let config = PtyConfig::new(30_000, 2);
    let run = play(&config, &secret, vec![out("Enter password: ")], &confirm, Some(0));
    let r = run.outcome.unwrap();
    assert_eq!(run.writes.len(), 2);
    assert_eq!(run.writes[0], b"pw\n".to_vec());
    assert_eq!(run.writes[1], b"pw\n".to_vec());
    assert_eq!(r.output, "\r\nAddress: 0xabc\r\n");
    assert!(!r.output.contains("pw"));
}

#[test]
fn prompt_split_across_reads() {
    let secret = Password::new("pw");
    let script = vec![out("Enter pass"), out("word"), out(": ")];
    let run = play(&PtyConfig::default(), &secret, script, &no_replies, Some(0));
    assert!(run.outcome.is_ok());
    assert_eq!(run.writes.len(), 1);
}

#[test]
fn timeout_after_prompt() {
    let secret = Password::new("pw");
    let config = PtyConfig::new(200, 1);
    let hang = |_: usize, _: &str| -> Vec<Step> { (0..1000).map(|_| Step::Block).collect() };
    let run = play(&config, &secret, vec![out("Password: ")], &hang, Some(0));
    assert!(matches!(run.outcome, Err(PtyError::Timeout)));
    assert!(run.elapsed_ms > 200 && run.elapsed_ms < 500);
}

#[test]
fn timeout_without_prompt() {
    let secret = Password::new("pw");
    let config = PtyConfig::new(200, 1);
    let script: Vec<Step> = (0..1000).map(|_| Step::Block).collect();
    let run = play(&config, &secret, script, &no_replies, Some(0));
    assert!(matches!(run.outcome, Err(PtyError::Timeout)));
    assert!(run.writes.is_empty());
}

#[test]
fn slow_output_completes() {
    let secret = Password::new("pw");
    let mut script = Vec::new();
    for piece in ["Pass", "word", ": "].iter() {
        for _ in 0..5 {
            script.push(Step::Block);
        }
        script.push(out(piece));
    }
    let slow = |n: usize, _: &str| -> Vec<Step> {
        if n == 1 {
            vec![Step::Block, Step::Block, out("done"), Step::Block, out("\r\n")]
        } else {
            Vec::new()
        }
    };
    let config = PtyConfig::new(1_000, 1);
    let run = play(&config, &secret, script, &slow, Some(0));
    let r = run.outcome.unwrap();
    assert_eq!(r.output, "done\r\n");
    assert_eq!(run.writes.len(), 1);
}

#[test]
fn early_exit_reports_code() {
    let secret = Password::new("pw");
    let config = PtyConfig::new(30_000, 2);
    let run = play(&config, &secret, vec![out("Error: keystore not found\r\n")], &no_replies, Some(1));
    let r = run.outcome.unwrap();
    assert_eq!(r.exit_code, 1);
    assert!(!r.success());
    assert!(run.writes.is_empty());
    assert_eq!(r.output, "Error: keystore not found\r\n");
}

#[test]
fn read_failure_while_waiting_for_prompt() {
    let secret = Password::new("pw");
    let run = play(&PtyConfig::default(), &secret, vec![Step::Fail("broken pipe")], &no_replies, Some(0));
    match run.outcome {
        Err(PtyError::IoError(m)) => assert_eq!(m, "broken pipe"),
        _ => panic!("expected an I/O error"),
    }
}

#[test]
fn read_failure_after_exit_ends_draining() {
    let secret = Password::new("pw");
    let replies = |n: usize, _: &str| -> Vec<Step> {
        if n == 1 {
            vec![out("ok"), Step::Fail("EIO")]
        } else {
            Vec::new()
        }
    };
    let run = play(&PtyConfig::default(), &secret, vec![out("Password: ")], &replies, Some(0));
    assert_eq!(run.outcome.unwrap().output, "ok");
}

#[test]
fn read_failure_while_running_is_fatal() {
    let secret = Password::new("pw");
    let replies = |n: usize, _: &str| -> Vec<Step> {
        if n == 1 {
            vec![Step::Fail("EIO"), out("more")]
        } else {
            Vec::new()
        }
    };
    let run = play(&PtyConfig::default(), &secret, vec![out("Password: ")], &replies, Some(0));
    match run.outcome {
        Err(PtyError::IoError(m)) => assert_eq!(m, "EIO"),
        _ => panic!("expected an I/O error"),
    }
}

#[test]
fn wait_failure() {
    let secret = Password::new("pw");
    let run = play(&PtyConfig::default(), &secret, vec![out("Password: ")], &no_replies, None);
    match run.outcome {
        Err(PtyError::CommandFailed(m)) => assert_eq!(m, "no child"),
        _ => panic!("expected a wait failure"),
    }
}

#[test]
fn write_failure() {
    let mut session = PromptSession::new(&PtyConfig::default());
    assert!(matches!(session.handle(Event::Clock(0)), Action::Read));
    let a = session.handle(Event::Output(b"Password: ".to_vec()));
    assert!(matches!(a, Action::InjectSecret));
    assert_eq!(session.stage(), Stage::Inject);
    match session.handle(Event::WriteFailed("closed".to_string())) {
        Action::Abort(PtyError::IoError(m)) => assert_eq!(m, "closed"),
        _ => panic!("expected an I/O error"),
    }
    assert_eq!(session.stage(), Stage::Finished);
    assert!(!session.accepts(&Event::Clock(0)));
}

#[test]
fn receive_text_and_invalid_utf8() {
    let mut session = PromptSession::new(&PtyConfig::default());
    session.handle(Event::Clock(0));
    assert!(matches!(session.receive_text("no prompt yet\n"), Action::CheckClock));
    session.handle(Event::Clock(1));
    let a = session.handle(Event::Output(vec![0xff, b'P', b'I', b'N', b':']));
    assert!(matches!(a, Action::InjectSecret));
    session.handle(Event::Injected);
    assert_eq!(session.remaining_prompts(), 0);
    session.handle(Event::Clock(2));
    session.handle(Event::Output(vec![b'o', 0xc3, b'k']));
    session.handle(Event::Clock(3));
    assert!(matches!(session.handle(Event::Eof), Action::WaitExit));
    match session.handle(Event::ExitCode(0)) {
        Action::Finish(r) => assert_eq!(r.output, "o\u{fffd}k"),
        _ => panic!("expected a result"),
    }
}

#[test]
fn zero_prompts_only_collects() {
    let secret = Password::new("pw");
    let config = PtyConfig::new(30_000, 0);
    let run = play(&config, &secret, vec![out("Password: "), out("x")], &no_replies, Some(0));
    assert_eq!(run.outcome.unwrap().output, "Password: x");
    assert!(run.writes.is_empty());
}
