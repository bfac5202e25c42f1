use cnc_job::exchange::{frame, is_last_line, Exchange, LinkAction, LinkEvent};
use cnc_job::report::{
    both_or_zero, is_idle, needs_unlock, pair_from, parse_status, reported, state_from,
};
use cnc_job::single::Single;
use cnc_job::target::{parse_number, parse_port, parse_target, Target};

fn serial(s: &str) -> (String, u32) {
    match parse_target(s) {
        Target::Serial { path, baud } => (path, baud),
        Target::Tcp(address) => panic!("{address}"),
    }
}

fn tcp(s: &str) -> String {
    match parse_target(s) {
        Target::Tcp(address) => address,
        Target::Serial { path, .. } => panic!("{path}"),
    }
}

#[test]
fn targets() {
    assert_eq!(serial("COM3"), ("COM3".to_string(), 115200));
    assert_eq!(serial("/dev/ttyUSB0"), ("/dev/ttyUSB0".to_string(), 115200));
    assert_eq!(serial("COM3:"), ("COM3:".to_string(), 115200));
    assert_eq!(serial(""), ("".to_string(), 115200));
    assert_eq!(tcp("192.168.0.5:23"), "192.168.0.5:23");
    assert_eq!(tcp("COM3:9600"), "COM3:9600");
    assert_eq!(tcp("tcp://"), "tcp://");
    assert_eq!(tcp("a://b:"), "a://b:");
}

#[test]
fn ports() {
    assert_eq!(parse_port("COM3:9600"), ("COM3".to_string(), 9600));
    assert_eq!(parse_port("a:b:+57600"), ("a:b".to_string(), 57600));
    assert_eq!(parse_port("COM3:fast"), ("COM3:fast".to_string(), 115200));
    assert_eq!(parse_port("COM3:"), ("COM3:".to_string(), 115200));
    assert_eq!(parse_port("COM3"), ("COM3".to_string(), 115200));
}

#[test]
fn numbers_are_those_of_std() {
    for s in [
        "", "+", "-", "0", "+0", "-0", "007", "9600", "4294967295", "4294967296", "42949672950",
        "99999999999999999999", "1 ", " 1", "1_0", "\u{663}", "++1", "+4294967295",
    ] {
        assert_eq!(parse_number(s), s.parse::<u32>().ok(), "{s:?}");
    }
}

#[test]
fn commands_are_framed() {
    assert_eq!(frame("  G0 X1 \r\n"), b"G0 X1\n".to_vec());
    assert_eq!(frame("?"), b"?\n".to_vec());
    assert_eq!(frame("\u{18}"), vec![0x18, b'\n']);
    assert_eq!(frame(" "), b"\n".to_vec());
    assert_eq!(frame("\u{e9}"), vec![0xc3, 0xa9, b'\n']);
}

#[test]
fn last_lines() {
    for s in ["ok\r\n", "ok", "ok \t\n", "error:9\n", "error:", "ALARM:1\r\n"] {
        assert!(is_last_line(s), "{s:?}");
    }
    for s in ["", "\n", " ok\n", "okay\n", "OK\n", "error 9\n", "alarm:1\n", "<Idle|MPos:0,0,0>\r\n"] {
        assert!(!is_last_line(s), "{s:?}");
    }
}

fn finished(action: LinkAction) -> Result<String, String> {
    match action {
        LinkAction::Finish(result) => result,
        LinkAction::ReadLine => panic!("more is read"),
    }
}

fn reads(action: LinkAction) -> bool {
    matches!(action, LinkAction::ReadLine)
}

#[test]
fn a_reply_is_its_lines() {
    let mut exchange = Exchange::start();
    assert!(reads(exchange.step(LinkEvent::Written)));
    assert!(reads(exchange.step(LinkEvent::Line("<Idle>\r\n".to_string()))));
    assert!(reads(exchange.step(LinkEvent::Line("\r\n".to_string()))));
    let end = exchange.step(LinkEvent::Line("ok\r\n".to_string()));
    assert_eq!(finished(end), Ok("<Idle>\r\n\r\nok\r\n".to_string()));
}

#[test]
fn a_reply_may_just_end() {
    let mut exchange = Exchange::start();
    assert!(reads(exchange.step(LinkEvent::Written)));
    assert!(reads(exchange.step(LinkEvent::Line("Grbl".to_string()))));
    assert_eq!(finished(exchange.step(LinkEvent::EndOfStream)), Ok("Grbl".to_string()));
    assert_eq!(finished(Exchange::start().step(LinkEvent::EndOfStream)), Ok("".to_string()));
}

#[test]
fn failures_of_an_exchange() {
    assert_eq!(
        finished(Exchange::start().step(LinkEvent::WriteTimeout)),
        Err("Write timeout".to_string())
    );
    assert_eq!(
        finished(Exchange::start().step(LinkEvent::WriteFailed("gone".to_string()))),
        Err("gone".to_string())
    );
    let mut exchange = Exchange::start();
    exchange.step(LinkEvent::Line("x\n".to_string()));
    assert_eq!(
        finished(exchange.step(LinkEvent::ReadTimeout)),
        Err("Read timeout - no 'ok'/'error'".to_string())
    );
    assert_eq!(
        finished(Exchange::start().step(LinkEvent::ReadFailed("bad".to_string()))),
        Err("bad".to_string())
    );
}

fn two(a: &str, b: &str) -> Option<(String, String)> {
    Some((a.to_string(), b.to_string()))
}

#[test]
fn status_reports() {
    let r = parse_status("<Idle|MPos:1.5,2.0,-3.25|FS:500,8000>");
    assert_eq!(r.state, "Idle");
    assert_eq!(r.position, two("1.5", "-3.25"));
    assert_eq!(r.feed_and_spindle, two("500", "8000"));
    let r = parse_status("<Run|WPos:0.000,1,2|F:10,0>");
    assert_eq!(r.state, "Run");
    assert_eq!(r.position, two("0.000", "2"));
    assert_eq!(r.feed_and_spindle, two("10", "0"));
    let r = parse_status("[MSG:Caution]");
    assert_eq!(r.state, "MSG");
    assert_eq!(r.position, None);
    assert_eq!(r.feed_and_spindle, None);
    assert_eq!(parse_status("ok").state, "ok");
    assert_eq!(parse_status("").state, "Disconnected");
    assert_eq!(parse_status("12 <>").state, "Disconnected");
    assert_eq!(parse_status("<>").state, "Disconnected");
    assert_eq!(parse_status("[]").state, "Disconnected");
    assert_eq!(parse_status("<A|MPos:,,|FS:,>").position, None);
    assert_eq!(parse_status("<A|MPos:,,|FS:,>").feed_and_spindle, None);
    assert_eq!(parse_status("<Disconnected>").state, "Disconnected");
}

/// The end of the run of characters of `class` from `i` on.
fn run(s: &[char], mut i: usize, class: fn(char) -> bool) -> usize {
    while i < s.len() && class(s[i]) {
        i += 1;
    }
    i
}

fn reading(c: char) -> bool {
    c.is_ascii_digit() || c == '-' || c == '.'
}

fn part(s: &[char], a: usize, b: usize) -> String {
    s[a..b].iter().collect()
}

fn expected_state(s: &[char]) -> String {
    let start = if s.first() == Some(&'[') { 1 } else { 0 };
    let end = run(s, start, |c| c.is_ascii_alphabetic());
    if end > start {
        return part(s, start, end);
    }
    for i in 0..s.len() {
        let end = run(s, i + 1, |c| c.is_ascii_alphanumeric() || c == '_');
        if s[i] == '<' && end > i + 1 {
            return part(s, i + 1, end);
        }
    }
    "Disconnected".to_string()
}

/// The readings, with commas between them, that stand from `i` on.
fn readings(s: &[char], mut i: usize, count: usize) -> Option<Vec<String>> {
    let mut found = Vec::new();
    loop {
        let end = run(s, i, reading);
        if end <= i {
            return None;
        }
        found.push(part(s, i, end));
        if found.len() == count {
            return Some(found);
        }
        if end >= s.len() || s[end] != ',' {
            return None;
        }
        i = end + 1;
    }
}

fn expected_position(s: &[char]) -> Option<(String, String)> {
    for i in 0..s.len() {
        let rest = part(s, i, s.len());
        if rest.starts_with("MPos:") || rest.starts_with("WPos:") {
            if let Some(found) = readings(s, i + 5, 3) {
                return two(&found[0], &found[2]);
            }
        }
    }
    None
}

fn expected_feed(s: &[char]) -> Option<(String, String)> {
    for i in 0..s.len() {
        let rest = part(s, i, s.len());
        let at = if rest.starts_with("FS:") {
            i + 3
        } else if rest.starts_with("F:") {
            i + 2
        } else {
            continue;
        };
        if let Some(found) = readings(s, at, 2) {
            return two(&found[0], &found[1]);
        }
    }
    None
}

#[test]
fn reports_in_ascii() {
    let pieces = [
        "<", "[", "Idle", "a_1", "|", "M", "Pos:", "MPos:", "WPos:", "1.5", "-2", ".", ",", ",", "7",
        "F", "S", ":", "FS:", "F:", "0", "\n", "ok",
    ];
    let mut seed: u64 = 1;
    for _ in 0..800 {
        let mut s = String::new();
        for _ in 0..12 {
            seed = seed.wrapping_mul(6364136223846793005).wrapping_add(1442695040888963407);
            s.push_str(pieces[(seed >> 33) as usize % pieces.len()]);
        }
        let chars: Vec<char> = s.chars().collect();
        let r = parse_status(&s);
        assert_eq!(r.state, expected_state(&chars), "{s:?}");
        assert_eq!(r.position, expected_position(&chars), "{s:?}");
        assert_eq!(r.feed_and_spindle, expected_feed(&chars), "{s:?}");
    }
    let heads = ["MPos:", "WPos:1,MPos:", "MPos:1,2,WPos:", "MPos", "XPos:"];
    let lists = ["1,2,3", "1,,3", "-.,.,-", "1,2,3,4", "1, 2,3", "1,2", "1,2,", "1,2,x", "12.5,0,-3|"];
    for head in heads {
        for list in lists {
            let s = format!("<Run|{head}{list}F:{list}FS:{list}");
            let chars: Vec<char> = s.chars().collect();
            let r = parse_status(&s);
            assert_eq!(r.state, "Run");
            assert_eq!(r.position, expected_position(&chars), "{s:?}");
            assert_eq!(r.feed_and_spindle, expected_feed(&chars), "{s:?}");
        }
    }
}

#[test]
fn the_second_coordinate_does_not_matter() {
    for y in ["0", "-1.25", "..", "99"] {
        let r = parse_status(&format!("<Idle|MPos:1.5,{y},-3|FS:1,2>"));
        assert_eq!(r.position, two("1.5", "-3"));
    }
}

#[test]
fn found_groups() {
    let some = |s: &str| Some(s.to_string());
    assert_eq!(state_from(&None), "Disconnected");
    assert_eq!(state_from(&Some(vec![some("<A"), some("A"), None])), "A");
    assert_eq!(state_from(&Some(vec![some("B"), None, some("B")])), "B");
    assert_eq!(state_from(&Some(vec![some("C"), None, None])), "Disconnected");
    assert_eq!(state_from(&Some(vec![])), "Disconnected");
    assert_eq!(pair_from(&None), None);
    assert_eq!(pair_from(&Some(vec![some("x"), some("1"), some("2")])), two("1", "2"));
}

#[test]
fn readings_come_in_pairs() {
    let a = Single { bits: 1.5f32.to_bits() };
    let b = Single { bits: (-2.0f32).to_bits() };
    let zero = Single { bits: 0 };
    assert_eq!(both_or_zero(Some((Some(a), Some(b)))), (a, b));
    assert_eq!(both_or_zero(Some((Some(a), None))), (zero, zero));
    assert_eq!(both_or_zero(Some((None, Some(b)))), (zero, zero));
    assert_eq!(both_or_zero(None), (zero, zero));
}

#[test]
fn idle_machines() {
    assert!(is_idle("<Idle|MPos:0,0,0>"));
    assert!(is_idle("ok\r\n<Idle>"));
    assert!(!is_idle("<Run|MPos:0,0,0>"));
    assert!(!is_idle("Idle"));
    assert!(!is_idle("<idle>"));
    assert!(!is_idle(""));
}

#[test]
fn alarms_and_missing_replies() {
    assert!(needs_unlock(&Some("ALARM:1\r\n".to_string())));
    assert!(!needs_unlock(&Some("<Alarm>".to_string())));
    assert!(!needs_unlock(&None));
    assert_eq!(reported(Some("<Run>".to_string())), "<Run>");
    assert_eq!(reported(None), "<Disconnected>");
}
