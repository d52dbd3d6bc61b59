//! The commands: screenshots, keyboard delivery and printing.

use nanokvm::capture::{CaptureError, CompressedFrame, DecodeError, MAX_HEIGHT};
use nanokvm::cli::civil::{utc_parts, Civil};
use nanokvm::cli::keys::{
    choose_encoding, compensates, delivered_line, gate, pause, release_line, run_key, run_macro,
    run_type, text_to_type, CapsLockPolicy, Compiled, Delivery, DeliveryEvent, DeliveryStep,
    Failure, KeyArgs, KeyboardReport, KeysEvent, KeysStep, MacroArgs, Outgoing, PauseStep,
    Progress, Script, Stage, Step, TargetInfo, TextSource, TypeArgs, CAPS_LOCK_REFUSAL, NO_TARGET,
    SLICE,
};
use nanokvm::cli::out::{Stream, Written};
use nanokvm::cli::shot::{
    default_name, encode_png, ends_in_eoi, pause_for, summary_line, temporary_for, wait_limit,
    write_context, EncodeError, Picker, Shot, ShotArgs, ShotError, ShotEvent, ShotPolicy, ShotStep,
    ShotTarget, ERROR_PAUSE, GIVE_UP_AFTER, MAX_TIMEOUT_SECS, RESTART_AFTER,
};
use nanokvm::clock::{Nanos, MILLISECOND, SECOND};

// ---- a frame ---------------------------------------------------------------------------------

/// A whole baseline JPEG of one grey.
fn grey(width: u16, height: u16) -> Vec<u8> {
    let mut v = vec![0xFF, 0xD8, 0xFF, 0xDB, 0x00, 0x43, 0x00];
    v.extend_from_slice(&[1u8; 64]);
    v.extend_from_slice(&[0xFF, 0xC0, 0x00, 0x11, 0x08]);
    v.extend_from_slice(&height.to_be_bytes());
    v.extend_from_slice(&width.to_be_bytes());
    v.extend_from_slice(&[0x03, 1, 0x11, 0, 2, 0x11, 0, 3, 0x11, 0]);
    for class in [0x00u8, 0x10] {
        v.extend_from_slice(&[0xFF, 0xC4, 0x00, 0x14, class, 1]);
        v.extend_from_slice(&[0u8; 15]);
        v.push(0);
    }
    v.extend_from_slice(&[0xFF, 0xDA, 0x00, 0x0C, 0x03, 1, 0, 2, 0, 3, 0, 0, 0x3F, 0]);
    let blocks = (usize::from(width) + 7) / 8 * ((usize::from(height) + 7) / 8);
    let bits = blocks * 6;
    v.extend(std::iter::repeat(0u8).take(bits / 8));
    if bits % 8 != 0 {
        v.push(0xFFu8 >> (bits % 8));
    }
    v.extend_from_slice(&[0xFF, 0xD9]);
    v
}

fn frame(jpeg: Vec<u8>) -> CompressedFrame {
    CompressedFrame {
        jpeg,
        width: 1,
        height: 1,
        captured_at: 0,
        sequence: 0,
    }
}

/// Feeds a picker what a source would answer, one answer per millisecond.
fn run(
    picker: &mut Picker,
    answers: Vec<Result<CompressedFrame, CaptureError>>,
) -> (Result<Shot, ShotError>, u32, u32) {
    let mut now: Nanos = 0;
    let mut asked = 0u32;
    let mut restarts = 0u32;
    let mut answers = answers.into_iter();
    let mut event = ShotEvent::Ready { interrupted: false };
    loop {
        event = match picker.pick_frame(event) {
            ShotStep::Ask => {
                asked += 1;
                now += MILLISECOND;
                ShotEvent::Arrived(
                    answers
                        .next()
                        .unwrap_or(Err(CaptureError::Timeout(MILLISECOND))),
                )
            }
            ShotStep::Pause => {
                now += pause_for(picker.deadline, now);
                ShotEvent::Tick { now }
            }
            ShotStep::Clock => ShotEvent::Tick { now },
            ShotStep::Restart => {
                restarts += 1;
                ShotEvent::Restarted(Ok(()))
            }
            ShotStep::Again => ShotEvent::Ready { interrupted: false },
            ShotStep::Kept(shot) => return (Ok(shot), asked, restarts),
            ShotStep::Failed(e) => return (Err(e), asked, restarts),
        };
    }
}

fn frames(n: usize, width: u16, height: u16) -> Vec<Result<CompressedFrame, CaptureError>> {
    (0..n).map(|_| Ok(frame(grey(width, height)))).collect()
}

#[test]
fn a_truncated_frame_has_no_end_of_image_marker() {
    let bytes = grey(64, 64);
    assert!(ends_in_eoi(&bytes));
    assert!(!ends_in_eoi(&bytes[..bytes.len() - 1]));
    assert!(!ends_in_eoi(&bytes[..bytes.len() - 2]));
    assert!(!ends_in_eoi(&[]));
    assert!(!ends_in_eoi(&[0xD9]));
}

#[test]
fn trailing_zero_padding_is_tolerated_but_nothing_else_is() {
    let mut padded = vec![0xFF, 0xD8, 0xFF, 0xD9];
    padded.extend_from_slice(&[0, 0, 0, 0]);
    assert!(ends_in_eoi(&padded));
    padded.push(0x01);
    assert!(!ends_in_eoi(&padded), "trailing junk is not padding");
    assert!(!ends_in_eoi(&[0x00, 0x00]), "padding alone is not a frame");
}

#[test]
fn the_first_frames_are_skipped_and_refused_ones_do_not_count() {
    let policy = ShotPolicy::default();
    let mut picker = Picker::new(policy, Some((640, 480)), 0, 10 * SECOND);
    let mut answers: Vec<Result<CompressedFrame, CaptureError>> = Vec::new();
    for i in 0..3 {
        answers.push(Err(CaptureError::BadFrame(format!("bad {i}"))));
    }
    answers.extend(frames(9, 640, 480));
    let (r, asked, restarts) = run(&mut picker, answers);
    let shot = r.expect("a frame");
    assert_eq!((shot.width, shot.height), (640, 480));
    assert_eq!((shot.skipped, shot.discarded, shot.mismatched), (8, 3, 0));
    assert_eq!((asked, restarts), (12, 0));
    assert!(!shot.restarted);
    assert_eq!(shot.jpeg, grey(640, 480));
}

#[test]
fn every_frame_before_the_kept_one_is_counted() {
    let mut policy = ShotPolicy::default();
    policy.skip = 2;
    let mut picker = Picker::new(policy, Some((640, 480)), 0, 10 * SECOND);
    let mut answers = frames(3, 320, 240);
    answers.push(Err(CaptureError::BadFrame("refused".to_string())));
    answers.push(Ok(frame(vec![0xFF, 0xD8])));
    answers.extend(frames(1, 640, 480));
    let shot = run(&mut picker, answers).0.expect("a frame");
    assert_eq!((shot.skipped, shot.mismatched, shot.discarded), (3, 1, 1));
    assert_eq!(shot.skipped + shot.mismatched, 4, "frames delivered in front of it");
}

#[test]
fn cut_frames_and_bad_headers_are_thrown_away() {
    let policy = ShotPolicy {
        skip: 0,
        ..ShotPolicy::default()
    };
    let mut picker = Picker::new(policy, None, 0, 10 * SECOND);
    let mut cut = grey(640, 480);
    cut.pop();
    let answers = vec![
        Ok(frame(cut)),
        Ok(frame(vec![1, 2, 3, 0xFF, 0xD9])),
        Ok(frame(grey(64, (MAX_HEIGHT + 1) as u16))),
        Ok(frame(grey(320, 240))),
    ];
    let (r, _, _) = run(&mut picker, answers);
    let shot = r.expect("a frame");
    assert_eq!((shot.width, shot.height, shot.skipped), (320, 240, 3));
}

#[test]
fn a_wrong_size_buys_one_restart_and_then_an_error() {
    let policy = ShotPolicy {
        skip: 0,
        ..ShotPolicy::default()
    };
    let mut picker = Picker::new(policy, Some((1920, 1080)), 0, 10 * SECOND);
    let (r, asked, restarts) = run(&mut picker, frames(200, 640, 480));
    assert_eq!((asked, restarts), (GIVE_UP_AFTER, 1));
    let e = r.expect_err("the wrong size for good");
    assert_eq!(
        e.text(),
        "the device is streaming 640x480 but 1920x1080 was negotiated; 90 frames at the wrong \
         size, and restarting the stream did not fix it. The stream is stuck, not the device \
         (C14) — replug the dongle, or pass --any-size to keep the frame as it is"
    );

    let any = ShotPolicy {
        skip: 0,
        any_size: true,
        ..ShotPolicy::default()
    };
    let mut picker = Picker::new(any, Some((1920, 1080)), 0, 10 * SECOND);
    let (r, asked, restarts) = run(&mut picker, frames(1, 640, 480));
    assert_eq!(r.expect("any size").width, 640);
    assert_eq!((asked, restarts), (1, 0));
}

#[test]
fn a_restart_that_helps_ends_in_a_frame() {
    let policy = ShotPolicy {
        skip: 0,
        ..ShotPolicy::default()
    };
    let mut picker = Picker::new(policy, Some((320, 240)), 0, 10 * SECOND);
    let mut answers = frames(RESTART_AFTER as usize, 64, 64);
    answers.extend(frames(1, 320, 240));
    let (r, _, restarts) = run(&mut picker, answers);
    let shot = r.expect("a frame");
    assert_eq!((restarts, shot.mismatched, shot.restarted), (1, 30, true));
    assert_eq!(
        summary_line("a.jpg", 10, &shot),
        "wrote a.jpg: 320x240, 10 bytes, skipped 0 frames, 30 at another size, stream restarted \
         once"
    );
}

#[test]
fn a_frame_in_hand_is_judged_before_the_deadline() {
    let policy = ShotPolicy {
        skip: 0,
        ..ShotPolicy::default()
    };
    let mut picker = Picker::new(policy, None, 0, MILLISECOND / 2);
    let (r, asked, _) = run(&mut picker, frames(1, 64, 64));
    assert!(r.is_ok(), "the frame came after the deadline and was in hand");
    assert_eq!(asked, 1);

    let mut picker = Picker::new(ShotPolicy::default(), None, 0, 5 * MILLISECOND);
    let (r, _, _) = run(&mut picker, Vec::new());
    let e = r.expect_err("nothing came");
    assert_eq!(
        e.text(),
        "no usable frame within 5ms (0 frame(s) skipped, 0 refused by the source, 0 at another \
         size)"
    );
}

#[test]
fn a_source_that_is_gone_or_misconfigured_ends_it_at_once() {
    let mut picker = Picker::new(ShotPolicy::default(), None, 0, SECOND);
    let (r, asked, _) = run(&mut picker, vec![Err(CaptureError::Disconnected)]);
    assert_eq!(
        r.expect_err("gone").text(),
        "the capture device disconnected after 0 frame(s)"
    );
    assert_eq!(asked, 1);
    let mut picker = Picker::new(ShotPolicy::default(), None, 0, SECOND);
    let (r, _, _) = run(
        &mut picker,
        vec![Err(CaptureError::Config("no".to_string()))],
    );
    assert_eq!(r.expect_err("config").text(), "capture configuration: no");
    let mut picker = Picker::new(ShotPolicy::default(), None, 0, SECOND);
    match picker.pick_frame(ShotEvent::Ready { interrupted: true }) {
        ShotStep::Failed(e) => assert_eq!(e.text(), "interrupted"),
        other => panic!("{other:?}"),
    }
    match picker.pick_frame(ShotEvent::Restarted(Err(CaptureError::Disconnected))) {
        ShotStep::Failed(ShotError::Disconnected { skipped: 0 }) => {}
        other => panic!("{other:?}"),
    }
    assert_eq!(pause_for(SECOND, 0), ERROR_PAUSE);
    assert_eq!(pause_for(SECOND, SECOND - 5), 5);
    assert_eq!(pause_for(SECOND, 2 * SECOND), 0);
}

// ---- where it goes ---------------------------------------------------------------------------

#[test]
fn the_default_name_is_the_utc_timestamp() {
    assert_eq!(
        default_name(Some(1_789_134_307)),
        "nanokvm-20260911-134507.jpg"
    );
    assert_eq!(default_name(Some(0)), "nanokvm-19700101-000000.jpg");
    assert_eq!(default_name(None), "nanokvm-19700101-000000.jpg");
}

#[test]
fn the_civil_date_matches_the_calendar_at_its_awkward_points() {
    for (secs, want) in [
        (0u64, (1970, 1, 1, 0, 0, 0)),
        (951_782_400, (2000, 2, 29, 0, 0, 0)),
        (4_107_542_400, (2100, 3, 1, 0, 0, 0)),
        (1_709_164_800, (2024, 2, 29, 0, 0, 0)),
        (1_735_689_599, (2024, 12, 31, 23, 59, 59)),
        (1_789_134_307, (2026, 9, 11, 13, 45, 7)),
    ] {
        let Civil {
            year,
            month,
            day,
            hour,
            minute,
            second,
        } = utc_parts(secs);
        assert_eq!((year, month, day, hour, minute, second), want, "at {secs}");
    }
}

#[test]
fn names_sort_in_the_order_of_time() {
    let mut last = default_name(Some(0));
    let mut at = 1u64;
    while at <= 253_402_300_799 {
        let name = default_name(Some(at));
        assert!(last < name, "{name} sorts before {last}");
        last = name;
        at = at * 3 / 2 + 1;
    }
    assert_eq!(
        default_name(Some(253_402_300_799)),
        "nanokvm-99991231-235959.jpg"
    );
}

#[test]
fn a_timeout_that_cannot_be_waited_for_is_refused_before_anything_opens() {
    for secs in [u64::MAX, MAX_TIMEOUT_SECS + 1] {
        let err = wait_limit(secs).expect_err("refused");
        assert!(err.contains("--timeout"), "{err}");
        assert!(
            err.contains(&MAX_TIMEOUT_SECS.to_string()),
            "the limit must be named: {err}"
        );
    }
    assert_eq!(
        wait_limit(MAX_TIMEOUT_SECS).expect("the limit itself is allowed"),
        u128::from(MAX_TIMEOUT_SECS) * SECOND
    );
}

#[test]
fn the_policy_takes_skip_and_any_size_from_the_command_line_and_the_rest_from_c14() {
    let args = ShotArgs {
        path: None,
        skip: 3,
        any_size: true,
        timeout: 10,
    };
    let policy = ShotPolicy::from_args(&args);
    assert_eq!(policy.skip, 3);
    assert!(policy.any_size);
    assert_eq!(policy.restart_after, RESTART_AFTER);
    assert_eq!(policy.give_up_after, GIVE_UP_AFTER);
    assert!(policy.restart_after > 8);
    assert!(policy.give_up_after > policy.restart_after);
}

#[test]
fn a_path_decides_the_format() {
    let parse = |p: &str| ShotTarget::parse(Some(p), Some(0));
    assert_eq!(parse("-"), Ok(ShotTarget::Stdout));
    assert_eq!(parse("a.jpg"), Ok(ShotTarget::Jpeg("a.jpg".to_string())));
    assert_eq!(
        parse("x/a.b.JPEG"),
        Ok(ShotTarget::Jpeg("x/a.b.JPEG".to_string()))
    );
    assert_eq!(parse("a.Png"), Ok(ShotTarget::Png("a.Png".to_string())));
    assert_eq!(
        ShotTarget::parse(None, Some(0)),
        Ok(ShotTarget::Jpeg("nanokvm-19700101-000000.jpg".to_string()))
    );
    for bare in ["a", ".jpg", "a.", "x.jpg/..", ""] {
        let e = parse(bare).expect_err("no extension");
        assert!(e.contains("has no extension"), "{bare}: {e}");
    }
    assert_eq!(
        parse("screen.BMP").expect_err("a bitmap"),
        "screen.BMP asks for a .bmp file, and the only formats this writes are .jpg (the device's \
         own bytes) and .png (decoded and re-encoded). `-` writes the JPEG to stdout."
    );
    assert_eq!(ShotTarget::Stdout.label(), "stdout");
    assert_eq!(ShotTarget::Png("b.png".to_string()).label(), "b.png");
}

#[test]
fn a_temporary_stands_beside_its_target() {
    assert_eq!(
        temporary_for("shots/a.jpg", 42).expect("a file").text(),
        "shots/.a.jpg.42.tmp"
    );
    assert_eq!(
        temporary_for("a.jpg", 42).expect("a file").text(),
        "./.a.jpg.42.tmp"
    );
    assert_eq!(
        temporary_for("shots/..", 42).expect_err("no file"),
        "shots/.. does not name a file to write"
    );
    assert_eq!(
        write_context("a.jpg", "./.a.jpg.42.tmp"),
        "writing a.jpg (via the temporary ./.a.jpg.42.tmp)"
    );
}

fn shot(jpeg: Vec<u8>, width: u32, height: u32) -> Shot {
    Shot {
        jpeg,
        width,
        height,
        skipped: 8,
        discarded: 2,
        mismatched: 0,
        restarted: false,
    }
}

#[test]
fn a_jpeg_is_written_as_it_came_and_a_png_is_decoded() {
    let s = shot(grey(16, 8), 16, 8);
    let jpeg = ShotTarget::Jpeg("a.jpg".to_string());
    assert_eq!(jpeg.contents(&s).expect("bytes"), grey(16, 8));
    assert_eq!(ShotTarget::Stdout.contents(&s).expect("bytes"), grey(16, 8));
    let file = ShotTarget::Png("a.png".to_string())
        .contents(&s)
        .expect("a PNG");
    let decoder = png::Decoder::new(std::io::Cursor::new(file));
    let mut reader = decoder.read_info().expect("a header");
    let mut pixels = vec![0u8; 16 * 8 * 4];
    let info = reader.next_frame(&mut pixels).expect("an image");
    assert_eq!((info.width, info.height), (16, 8));
    assert_eq!(info.color_type, png::ColorType::Rgba);
    assert!(pixels.chunks(4).all(|p| p == [128, 128, 128, 255]));
    assert_eq!(
        summary_line("a.png", 7, &s),
        "wrote a.png: 16x8, 7 bytes, skipped 8 frames, 0 at another size, 2 refused by the source"
    );
}

#[test]
fn a_frame_that_does_not_decode_is_no_png() {
    let e = encode_png(&shot(vec![0xFF; 64], 16, 8)).expect_err("garbage");
    assert!(
        e.text()
            .starts_with("decoding the captured 16x8 frame for PNG output: jpeg decode failed: "),
        "{}",
        e.text()
    );
    let e = encode_png(&shot(grey(16, 8), 5000, 8)).expect_err("too large");
    assert!(matches!(
        e,
        EncodeError::Decode {
            error: DecodeError::DimensionsTooLarge { .. },
            ..
        }
    ));
    let e = encode_png(&shot(grey(16, 8), 8, 8)).expect_err("another size");
    assert!(matches!(
        e,
        EncodeError::Decode {
            error: DecodeError::DimensionMismatch { .. },
            ..
        }
    ));
}

// ---- the keyboard ----------------------------------------------------------------------------

fn report(modifiers: u8, key: u8) -> KeyboardReport {
    KeyboardReport {
        modifiers,
        keys: [key, 0, 0, 0, 0, 0],
    }
}

/// Text on a US keyboard: one press and one release per character. Where CapsLock is compensated
/// for, shift is inverted on letters.
fn compile_type(text: &str, compensate: bool) -> Script {
    let mut steps = Vec::new();
    for c in text.chars() {
        let (usage, shift) = match c {
            'a'..='z' => (c as u8 - b'a' + 4, compensate),
            '1'..='9' => (c as u8 - b'1' + 0x1e, false),
            '0' => (0x27, false),
            '!' => (0x1e, true),
            other => panic!("{other:?} is not on this keyboard"),
        };
        steps.push(Step::Send(Outgoing {
            label: format!("type {c:?}"),
            report: report(if shift { 2 } else { 0 }, usage),
        }));
        steps.push(Step::Send(Outgoing {
            label: format!("release {c:?}"),
            report: report(0, 0),
        }));
    }
    Script { steps }
}

fn compiled(text: &str) -> Compiled {
    Compiled {
        script: compile_type(text, false),
        compensated: Some(compile_type(text, true)),
    }
}

#[test]
fn only_a_script_whose_encoding_depends_on_capslock_is_affected() {
    assert!(compiled("hello").affected_by_caps_lock());
    assert!(!compiled("1234!").affected_by_caps_lock());
    assert!(!Compiled {
        script: Script {
            steps: vec![Step::Send(Outgoing {
                label: "ctrl+alt+t".to_string(),
                report: report(5, 0x17),
            })],
        },
        compensated: None,
    }
    .affected_by_caps_lock());
}

#[test]
fn refuse_is_the_default_and_names_both_ways_out() {
    let script = compiled("hello");
    let msg = choose_encoding(&script, true, CapsLockPolicy::Refuse).unwrap_err();
    assert!(msg.contains("CapsLock ON"), "{msg}");
    assert!(msg.contains("nanokvm key capslock"), "{msg}");
    assert!(msg.contains("--caps-lock ignore|compensate"), "{msg}");
    assert!(msg.contains("No keyboard report was sent."), "{msg}");
    assert!(
        !msg.contains("Nothing was sent"),
        "the port was opened and queried, so 'nothing' is a claim this cannot make: {msg}"
    );
}

#[test]
fn ignore_sends_the_script_as_compiled_and_compensate_sends_the_other_one() {
    let compiled = compiled("hello");
    let ignored = choose_encoding(&compiled, true, CapsLockPolicy::Ignore).expect("sends");
    assert!(ignored.same(&compiled.script));
    let compensated =
        choose_encoding(&compiled, true, CapsLockPolicy::Compensate).expect("sends");
    assert!(compensated.same(compiled.compensated.as_ref().expect("some")));
    assert!(!compensated.same(&compiled.script));
    assert!(compensates(&compiled, true, CapsLockPolicy::Compensate));
    assert!(!compensates(&compiled, true, CapsLockPolicy::Ignore));
}

#[test]
fn capslock_off_sends_the_ordinary_compilation_whatever_the_policy_says() {
    let compiled = compiled("hello");
    for policy in [
        CapsLockPolicy::Refuse,
        CapsLockPolicy::Ignore,
        CapsLockPolicy::Compensate,
    ] {
        let chosen = choose_encoding(&compiled, false, policy).expect("sends");
        assert!(chosen.same(&compiled.script), "{policy:?}");
    }
}

#[test]
fn nothing_is_sent_to_a_device_without_a_target() {
    let compiled = compiled("1");
    assert_eq!(
        gate(&compiled, false, false, CapsLockPolicy::Ignore).unwrap_err(),
        NO_TARGET
    );
    assert!(gate(&compiled, true, true, CapsLockPolicy::Refuse).is_ok());
}

#[test]
fn a_script_is_delivered_report_by_report() {
    let mut script = compile_type("12", false);
    script.steps.insert(2, Step::Wait(5 * MILLISECOND));
    assert_eq!(script.report_count(), 4);
    let mut progress = Progress::new();
    let mut log: Vec<String> = Vec::new();
    let mut event = KeysEvent::Ready { interrupted: false };
    let sent = loop {
        event = match progress.run(&script, MILLISECOND, event) {
            KeysStep::Pause(d) => {
                log.push(format!("pause {d}"));
                KeysEvent::Paused { interrupted: false }
            }
            KeysStep::Send(i) => {
                log.push(format!("send {i}"));
                KeysEvent::Acked(Ok(()))
            }
            KeysStep::Again => KeysEvent::Ready { interrupted: false },
            KeysStep::Delivered(n) => break n,
            KeysStep::Failed { context, .. } => panic!("{context}"),
        };
    };
    assert_eq!(sent, 4);
    assert_eq!(
        log,
        vec![
            "send 0",
            "pause 1000000",
            "send 1",
            "pause 5000000",
            "pause 1000000",
            "send 3",
            "pause 1000000",
            "send 4",
        ]
    );
    assert_eq!(
        delivered_line(sent),
        "delivered 4 reports; the effect is on the target's screen, not in this ack"
    );
}

#[test]
fn a_failure_says_how_far_it_got() {
    let script = compile_type("12", false);
    let mut progress = Progress::new();
    assert!(matches!(
        progress.run(&script, 0, KeysEvent::Ready { interrupted: false }),
        KeysStep::Send(0)
    ));
    progress.run(&script, 0, KeysEvent::Acked(Ok(())));
    match progress.run(&script, 0, KeysEvent::Acked(Err("timed out".to_string()))) {
        KeysStep::Failed { context, cause } => {
            assert_eq!(
                context,
                "release '1' was not acknowledged; 1 of 4 reports had been delivered, so the \
                 sequence is incomplete"
            );
            assert_eq!(cause.as_deref(), Some("timed out"));
        }
        other => panic!("{other:?}"),
    }
    match progress.run(&script, 0, KeysEvent::Ready { interrupted: true }) {
        KeysStep::Failed { context, cause } => {
            assert_eq!(context, "interrupted after 1 of 4 reports");
            assert_eq!(cause, None);
        }
        other => panic!("{other:?}"),
    }
    match progress.run(&script, 0, KeysEvent::Paused { interrupted: true }) {
        KeysStep::Failed { context, cause } => {
            assert_eq!(context, "after 1 of 4 reports");
            assert_eq!(cause.as_deref(), Some("interrupted"));
        }
        other => panic!("{other:?}"),
    }
    assert_eq!(
        release_line(&Some("gone".to_string())),
        "[release-all] keyboard report UNSENT: gone"
    );
    assert_eq!(release_line(&None), "[release-all] keyboard report sent");
}

#[test]
fn a_pause_is_served_in_slices() {
    assert_eq!(pause(SECOND, 0, false), PauseStep::Sleep(SLICE));
    assert_eq!(pause(SECOND, SECOND - 5, false), PauseStep::Sleep(5));
    assert_eq!(pause(SECOND, SECOND, false), PauseStep::Sleep(0));
    assert_eq!(pause(SECOND, SECOND + 1, false), PauseStep::Over);
    assert_eq!(pause(SECOND, 0, true), PauseStep::Interrupted);
    assert!(matches!(text_to_type("-".to_string()), TextSource::Stdin));
    assert!(matches!(
        text_to_type("--".to_string()),
        TextSource::Given(t) if t == "--"
    ));
}

// ---- printing --------------------------------------------------------------------------------

/// Writes as the commands do, to a sink that says how each write ended.
fn write_to(stream: &mut Stream, sink: &mut dyn FnMut(&str) -> Written, text: &str, newline: bool) {
    if let Some(out) = stream.write_to(text, newline) {
        let how = sink(&out);
        stream.wrote(how);
    }
}

#[test]
fn a_broken_pipe_stops_the_stream_instead_of_panicking() {
    let mut stream = Stream::new();
    let mut calls = 0u32;
    let mut sink = |_: &str| {
        calls += 1;
        Written::BrokenPipe
    };
    write_to(&mut stream, &mut sink, "first", true);
    assert!(stream.gone(), "the stream was not given up");
    write_to(&mut stream, &mut sink, "second", true);
    assert_eq!(calls, 1, "the stream was written to after it had gone");
}

#[test]
fn an_ordinary_write_goes_through_and_the_stream_stays_open() {
    let mut stream = Stream::new();
    let mut buf = String::new();
    let mut sink = |s: &str| {
        buf.push_str(s);
        Written::Done
    };
    write_to(&mut stream, &mut sink, "one", true);
    write_to(&mut stream, &mut sink, "two", false);
    assert_eq!(buf, "one\ntwo");
    assert!(!stream.gone());
}

#[test]
fn another_failure_does_not_close_the_stream() {
    let mut stream = Stream::new();
    stream.wrote(Written::Failed);
    assert!(!stream.gone());
}

fn typing(dry_run: bool, caps_lock: CapsLockPolicy) -> Delivery {
    Delivery {
        delay: MILLISECOND,
        dry_run,
        caps_lock,
    }
}

/// Walks a delivery up to the question to the device.
fn up_to_the_answer(stage: &mut Stage, text: &Compiled, how: &Delivery) {
    let steps = [
        stage.deliver(text, how, "/dev/ttyACM1", DeliveryEvent::Begin),
        stage.deliver(text, how, "/dev/ttyACM1", DeliveryEvent::Opened(Ok(()))),
        stage.deliver(text, how, "/dev/ttyACM1", DeliveryEvent::Synced(Ok(()))),
    ];
    assert!(matches!(
        steps,
        [DeliveryStep::Open, DeliveryStep::Sync, DeliveryStep::Ask]
    ));
}

fn refused(step: DeliveryStep) -> (String, Option<String>) {
    match step {
        DeliveryStep::End {
            note: None,
            failure: Some(Failure { context, cause }),
        } => (context, cause),
        other => panic!("{other:?}"),
    }
}

#[test]
fn a_dry_run_is_over_before_a_port_is_opened() {
    let mut stage = Stage::Ready;
    let how = typing(true, CapsLockPolicy::Refuse);
    let step = stage.deliver(&compiled("hello"), &how, "/dev/x", DeliveryEvent::Begin);
    assert!(matches!(step, DeliveryStep::Print));
    assert!(matches!(stage, Stage::Over));
}

#[test]
fn a_dry_run_of_key_prints_its_chords_whatever_the_port_and_the_delay() {
    for (serial, delay_ms) in [("/dev/ttyACM1", 5), ("", 0), ("/nowhere", u64::MAX)] {
        let args = KeyArgs {
            chords: vec!["a".to_string()],
            delay_ms,
            dry_run: true,
        };
        let plan = run_key(&args, Ok(compile_type("a", false))).expect("it compiles");
        assert!(plan.compiled.script.same(&compile_type("a", false)));
        assert!(plan.compiled.compensated.is_none());
        assert_eq!(plan.how.delay, Nanos::from(delay_ms) * MILLISECOND);
        let mut stage = Stage::Ready;
        let step = stage.deliver(&plan.compiled, &plan.how, serial, DeliveryEvent::Begin);
        assert!(matches!(step, DeliveryStep::Print));
        assert!(matches!(stage, Stage::Over));
    }
    let args = KeyArgs {
        chords: vec!["ctrl+".to_string()],
        delay_ms: 5,
        dry_run: true,
    };
    let refused = run_key(&args, Err("no key in \"ctrl+\"".to_string()));
    assert_eq!(refused.expect_err("it does not compile"), "no key in \"ctrl+\"");
}

#[test]
fn a_chord_is_sent_whatever_capslock_says() {
    let args = KeyArgs {
        chords: vec!["a".to_string()],
        delay_ms: 5,
        dry_run: false,
    };
    let plan = run_key(&args, Ok(compile_type("a", false))).expect("it compiles");
    let mut stage = Stage::Ready;
    up_to_the_answer(&mut stage, &plan.compiled, &plan.how);
    let info = TargetInfo {
        target_connected: true,
        caps_lock: true,
    };
    let step = stage.deliver(
        &plan.compiled,
        &plan.how,
        "/dev/ttyACM1",
        DeliveryEvent::Answered(Ok(info)),
    );
    assert!(matches!(step, DeliveryStep::Send { compensated: false }), "{step:?}");
}

#[test]
fn a_text_is_compiled_twice_and_the_first_error_counts() {
    let args = TypeArgs {
        text: "hi".to_string(),
        layout: None,
        delay_ms: 7,
        dry_run: false,
        caps_lock: CapsLockPolicy::Compensate,
    };
    let plain = || Ok(compile_type("hi", false));
    let inverted = || Ok(compile_type("hi", true));
    let plan = run_type(&args, plain(), inverted()).expect("both compile");
    assert!(plan.compiled.affected_by_caps_lock());
    assert_eq!(plan.how.delay, 7 * MILLISECOND);
    assert_eq!(plan.how.caps_lock, CapsLockPolicy::Compensate);
    assert!(!plan.how.dry_run);
    let one = || Err("one".to_string());
    let two = || Err("two".to_string());
    assert_eq!(run_type(&args, one(), two()).expect_err("neither"), "one");
    assert_eq!(run_type(&args, plain(), two()).expect_err("one of them"), "two");

    let args = MacroArgs {
        file: "commands.macro".to_string(),
        layout: Some("us".to_string()),
        delay_ms: 3,
        dry_run: true,
        caps_lock: CapsLockPolicy::Refuse,
    };
    let plan = run_macro(&args, plain(), inverted()).expect("both compile");
    assert!(plan.how.dry_run && plan.how.delay == 3 * MILLISECOND);
    assert_eq!(plan.how.caps_lock, CapsLockPolicy::Refuse);
    assert_eq!(run_macro(&args, one(), inverted()).expect_err("one of them"), "one");
}

#[test]
fn a_whole_delivery_ends_in_a_release() {
    let mut stage = Stage::Ready;
    let how = typing(false, CapsLockPolicy::Compensate);
    let text = compiled("hello");
    up_to_the_answer(&mut stage, &text, &how);
    let info = TargetInfo {
        target_connected: true,
        caps_lock: true,
    };
    let step = stage.deliver(&text, &how, "/dev/ttyACM1", DeliveryEvent::Answered(Ok(info)));
    assert!(matches!(step, DeliveryStep::Send { compensated: true }));
    match stage.deliver(&text, &how, "/dev/ttyACM1", DeliveryEvent::Ran(Ok(10))) {
        DeliveryStep::Release(Some(say)) => assert_eq!(say, delivered_line(10)),
        other => panic!("{other:?}"),
    }
    match stage.deliver(&text, &how, "/dev/ttyACM1", DeliveryEvent::Released(None)) {
        DeliveryStep::End { note, failure } => {
            assert_eq!(note.as_deref(), Some("[release-all] keyboard report sent"));
            assert!(failure.is_none());
        }
        other => panic!("{other:?}"),
    }
    assert!(matches!(stage, Stage::Over));
}

#[test]
fn a_failed_run_is_released_before_it_is_reported() {
    let mut stage = Stage::Sending;
    let how = typing(false, CapsLockPolicy::Ignore);
    let text = compiled("1");
    let why = Failure {
        context: "interrupted after 1 of 2 reports".to_string(),
        cause: None,
    };
    let step = stage.deliver(&text, &how, "/dev/x", DeliveryEvent::Ran(Err(why)));
    assert!(matches!(step, DeliveryStep::Release(None)));
    let gone = DeliveryEvent::Released(Some("no such device".to_string()));
    match stage.deliver(&text, &how, "/dev/x", gone) {
        DeliveryStep::End { note, failure } => {
            assert_eq!(
                note.as_deref(),
                Some("[release-all] keyboard report UNSENT: no such device")
            );
            assert_eq!(
                failure.map(|f| f.context).as_deref(),
                Some("interrupted after 1 of 2 reports")
            );
        }
        other => panic!("{other:?}"),
    }
}

#[test]
fn each_refusal_comes_before_a_report_and_names_the_port() {
    let text = compiled("hello");
    let how = typing(false, CapsLockPolicy::Refuse);
    let mut stage = Stage::Opening;
    let denied = DeliveryEvent::Opened(Err("permission denied".to_string()));
    let (context, cause) = refused(stage.deliver(&text, &how, "/dev/ttyACM1", denied));
    assert_eq!(
        context,
        "opening the CH9329 serial link on /dev/ttyACM1. Check the path and that you can write \
         to it (it is usually owned by the 'uucp' or 'dialout' group)."
    );
    assert_eq!(cause.as_deref(), Some("permission denied"));
    let mut stage = Stage::Syncing;
    let torn = DeliveryEvent::Synced(Err("timed out".to_string()));
    let (context, _) = refused(stage.deliver(&text, &how, "/dev/ttyACM1", torn));
    assert_eq!(
        context,
        "resynchronising the CH9329 frame parser on /dev/ttyACM1"
    );
    let mut stage = Stage::Asking;
    let silent = DeliveryEvent::Answered(Err("timed out".to_string()));
    let (context, _) = refused(stage.deliver(&text, &how, "/dev/ttyACM1", silent));
    assert_eq!(context, "GET_INFO on /dev/ttyACM1 did not answer");
    for (info, why) in [
        (
            TargetInfo {
                target_connected: false,
                caps_lock: false,
            },
            NO_TARGET,
        ),
        (
            TargetInfo {
                target_connected: true,
                caps_lock: true,
            },
            CAPS_LOCK_REFUSAL,
        ),
    ] {
        let mut stage = Stage::Asking;
        let step = stage.deliver(&text, &how, "/dev/x", DeliveryEvent::Answered(Ok(info)));
        let (context, cause) = refused(step);
        assert_eq!(context, why);
        assert_eq!(cause, None);
        assert!(matches!(stage, Stage::Over));
    }
}
