use cnc_job::offset::{apply_offset_to_line, is_negligible, numbers_at, or_zero, replace_words};
use cnc_job::panel::{clear_all, emergency_stop, jog};
use cnc_job::pattern::piece;
use cnc_job::program::{lines_of_code, program_lines};
use cnc_job::single::{is_larger, is_smaller, Single, ONE_MILLIONTH, ONE_THOUSANDTH, ZERO};
use cnc_job::status::JobCommand;
use cnc_job::text;

fn single(x: f32) -> Single {
    Single { bits: x.to_bits() }
}

fn shifted(line: &str, offset: f32) -> String {
    let plan = apply_offset_to_line(line, single(offset));
    let mut sums = Vec::new();
    for number in plan.numbers() {
        let old: f32 = number.parse().unwrap_or(0.0);
        sums.push(format!("{:.3}", old + offset));
    }
    plan.finish(&sums)
}

#[test]
fn white_space_is_that_of_unicode() {
    for code in 0..=0x10ffffu32 {
        if let Some(c) = char::from_u32(code) {
            assert_eq!(text::is_whitespace(c), c.is_whitespace(), "{code:x}");
        }
    }
}

#[test]
fn trimming() {
    for s in ["", " ", "a", " a", "a ", "\t a b \r\n", "\u{3000}\u{e9}\u{85}", "\u{200b}x"] {
        assert_eq!(text::trim(s), s.trim());
        assert_eq!(text::trim_end(s), s.trim_end());
        assert_eq!(text::trim(text::trim(s)), s.trim());
    }
}

#[test]
fn searching() {
    assert!(text::contains("G54 G0", "G54"));
    assert!(text::contains("G0 G54", "G54"));
    assert!(text::contains("x", ""));
    assert!(text::contains("", ""));
    assert!(!text::contains("G5", "G54"));
    assert!(!text::contains("G5 4", "G54"));
    assert!(text::starts_with("error:9", "error:"));
    assert!(!text::starts_with("error", "error:"));
    assert!(!text::starts_with(" error:", "error:"));
    assert!(text::same_text("ok", "ok"));
    assert!(!text::same_text("ok", "ok "));
    assert!(!text::same_text("ok", "oK"));
}

#[test]
fn lines_are_those_of_std() {
    for s in ["", "\n", "a", "a\n", "a\nb", "a\r\nb\r\n", "a\r", "\r\n", "\r\r\n", "\n\na\r\rb\n\n", "\u{e9}\n\u{3000}"] {
        let expected: Vec<String> = s.lines().map(|l| l.to_string()).collect();
        assert_eq!(text::lines(s), expected, "{s:?}");
    }
}

#[test]
fn copies_are_equal() {
    let v = vec!["a".to_string(), "".to_string()];
    assert_eq!(text::copy_of(&v), v);
    assert_eq!(text::chars_of("a\u{e9}"), vec!['a', '\u{e9}']);
}

#[test]
fn program_of_a_file() {
    let content = "; header\n(comment)\n\n  g21 \r\ng0 x1 z-2.5\n\t\n ;x\n M30";
    assert_eq!(
        program_lines(content),
        vec!["G21".to_string(), "G0 X1 Z-2.5".to_string(), "M30".to_string()]
    );
    assert_eq!(
        lines_of_code(content),
        vec!["g21".to_string(), "g0 x1 z-2.5".to_string(), "M30".to_string()]
    );
    assert!(program_lines("").is_empty());
    assert!(program_lines(";\n(\n  \n").is_empty());
}

#[test]
fn capitals_beyond_ascii() {
    assert_eq!(program_lines("stra\u{df}e \u{e9}"), vec!["STRASSE \u{c9}".to_string()]);
}

#[test]
fn program_is_stable() {
    let first = program_lines("g1 z1\n; c\n g2 y\n");
    assert_eq!(program_lines(&first.join("\n")), first);
    let code = lines_of_code("\tg1 \u{e9} \r\n(x)\r\n\r\n;\n m30 ; end");
    assert_eq!(code, vec!["g1 \u{e9}".to_string(), "m30 ; end".to_string()]);
    assert_eq!(lines_of_code(&code.join("\n")), code);
    assert!(program_lines(&program_lines("").join("\n")).is_empty());
}

#[test]
fn each_line_is_read_on_its_own() {
    for (a, b) in [("", ""), ("g1\r", " m2"), ("g1\n", "(c\n\u{e9}1"), ("; c", "x\r\ny\n")] {
        let mut lines = program_lines(a);
        lines.extend(program_lines(b));
        assert_eq!(program_lines(&format!("{a}\n{b}")), lines);
    }
}

#[test]
fn a_program_beyond_ascii_reads_back() {
    let first = program_lines(" g1 stra\u{df}e\n\u{3000}\u{149}x \u{e9}\n; \u{e9}");
    assert_eq!(first, vec!["G1 STRASSE".to_string(), "\u{2bc}NX \u{c9}".to_string()]);
    assert_eq!(program_lines(&first.join("\n")), first);
}

#[test]
fn program_lines_are_clean() {
    for line in program_lines("\u{85}g1 a\r\r\n\n\u{b}\n(c\n ;c\nx\ry\n z") {
        assert!(!line.is_empty());
        assert_eq!(line, line.trim());
        assert_eq!(line, line.to_uppercase());
        assert!(!line.contains('\n'));
        assert!(!line.starts_with(';') && !line.starts_with('('));
    }
}

#[test]
fn magnitudes_compare_as_numbers() {
    let limits = [1e-6f32, 0.001];
    let values = [
        0.0f32, -0.0, 1e-6, -1e-6, 9.999999e-7, 1.0000001e-6, 1e-7, 1e-40, -1e-45, 0.001, 0.0010000001,
        0.00099999, -0.002, 1.0, -5.5, f32::MAX, f32::INFINITY, f32::NEG_INFINITY, f32::NAN, -f32::NAN,
    ];
    for limit in limits {
        for x in values {
            assert_eq!(is_smaller(single(x), single(limit)), x.abs() < limit, "{x} {limit}");
            assert_eq!(is_larger(single(x), single(limit)), x.abs() > limit, "{x} {limit}");
        }
    }
}

#[test]
fn limits_are_the_numbers() {
    assert_eq!(f32::from_bits(ONE_MILLIONTH), 1e-6);
    assert_eq!(f32::from_bits(ONE_THOUSANDTH), 0.001);
    assert_eq!(f32::from_bits(ZERO).to_bits(), 0.0f32.to_bits());
}

#[test]
fn negligible_offsets() {
    assert!(is_negligible(single(0.0)));
    assert!(is_negligible(single(-9e-7)));
    assert!(!is_negligible(single(1e-6)));
    assert!(!is_negligible(single(-0.5)));
    assert!(!is_negligible(single(f32::NAN)));
}

#[test]
fn z_words_are_shifted() {
    assert_eq!(shifted("G1 X1 Z5 F100", 1.5), "G1 X1 Z6.500 F100");
    assert_eq!(shifted("Z-2.25", 0.25), "Z-2.000");
    assert_eq!(shifted("Z+.5Z.", 1.0), "Z1.500Z1.000");
    assert_eq!(shifted("Z", -1.0), "Z-1.000");
    assert_eq!(shifted("Z1.2.3", 1.0), "Z2.200.3");
    assert_eq!(shifted("(\u{e9}) Z1 \u{e9}Z2\u{e9}", 1.0), "(\u{e9}) Z2.000 \u{e9}Z3.000\u{e9}");
    assert_eq!(shifted("Z\u{663}", 1.0), "Z1.000");
}

/// What follows each `Z`: a sign, digits, a point and digits, as far as they are
/// there.
fn numbers_after_each_z(line: &[char]) -> Vec<String> {
    let mut numbers = Vec::new();
    for at in 0..line.len() {
        if line[at] != 'Z' {
            continue;
        }
        let digits = |mut i: usize| {
            while i < line.len() && line[i].is_ascii_digit() {
                i += 1;
            }
            i
        };
        let mut end = at + 1;
        if end < line.len() && (line[end] == '+' || line[end] == '-') {
            end += 1;
        }
        end = digits(end);
        if end < line.len() && line[end] == '.' {
            end += 1;
        }
        end = digits(end);
        numbers.push(line[at + 1..end].iter().collect());
    }
    numbers
}

#[test]
fn each_z_of_an_ascii_line_begins_a_word() {
    let numbers = apply_offset_to_line("G0 Z+1.5X2 Z-.5ZZ3. Z1-2z9", single(1.0)).numbers();
    assert_eq!(numbers, ["+1.5", "-.5", "", "3.", "1"].map(|n| n.to_string()).to_vec());
    let alphabet = ['Z', '+', '-', '.', '7', 'a'];
    for len in 0..5u32 {
        for n in 0..alphabet.len().pow(len) {
            let line: Vec<char> =
                (0..len).map(|k| alphabet[n / alphabet.len().pow(k) % alphabet.len()]).collect();
            let text: String = line.iter().collect();
            let plan = apply_offset_to_line(&text, single(1.0));
            assert_eq!(plan.numbers(), numbers_after_each_z(&line), "{text}");
        }
    }
}

#[test]
fn a_shift_is_undone_by_the_opposite_one() {
    for (line, there, back) in [
        ("G1 X1 Z5 F100", "G1 X1 Z6.125 F100", "G1 X1 Z5.000 F100"),
        ("Z-2.25Z.5", "Z-1.125Z1.625", "Z-2.250Z0.500"),
        ("Z1.25.3", "Z2.375.3", "Z1.250.3"),
        ("Z-+Z", "Z1.125+Z1.125", "Z0.000+Z0.000"),
        ("G0 X1", "G0 X1", "G0 X1"),
    ] {
        assert_eq!(shifted(line, 1.125), there);
        assert_eq!(shifted(&shifted(line, 1.125), -1.125), back);
        let plan = apply_offset_to_line(line, single(1.125));
        let again = apply_offset_to_line(there, single(-1.125));
        assert_eq!(again.finish(&plan.numbers()), line);
        assert_eq!(there.matches('Z').count(), line.matches('Z').count());
    }
}

#[test]
fn unreadable_numbers_count_as_zero() {
    assert_eq!(or_zero(Some(single(-2.5))), single(-2.5));
    assert_eq!(or_zero(None), single(0.0));
}

#[test]
fn lines_without_z_and_small_offsets_stay() {
    assert_eq!(shifted("G1 X1 z5", 1.5), "G1 X1 z5");
    assert_eq!(shifted("G1 Z5", 0.0), "G1 Z5");
    assert_eq!(shifted("G1 Z5", 9e-7), "G1 Z5");
    assert_eq!(shifted("", 1.0), "");
    assert!(apply_offset_to_line("Z5", single(0.0)).numbers().is_empty());
}

#[test]
fn words_by_their_places() {
    let spans = vec![(0usize, 2usize), (5usize, 8usize)];
    assert_eq!(numbers_at("Z1 \u{e9}Z-2!", &spans), vec!["1".to_string(), "-2".to_string()]);
    assert_eq!(
        replace_words("Z1 \u{e9}Z-2!", &spans, &vec!["a".to_string(), "\u{e9}".to_string()]),
        "Za \u{e9}Z\u{e9}!"
    );
    assert_eq!(
        replace_words("Z1 \u{e9}Z-2!", &spans, &vec!["1".to_string(), "-2".to_string()]),
        "Z1 \u{e9}Z-2!"
    );
    assert_eq!(piece("a\u{e9}b", 1, 3), "\u{e9}");
}

#[test]
fn jogs() {
    let command = jog(single(1.25), single(0.0), "1.250", "0.000");
    match command {
        Some(JobCommand::SendImmediate(line)) => assert_eq!(line, "$J=G91 X1.250 Z0.000 F1800"),
        _ => panic!("no jog"),
    }
    assert!(jog(single(0.0), single(-0.01), "0.000", "-0.010").is_some());
    assert!(jog(single(0.001), single(-0.001), "0.001", "-0.001").is_none());
    assert!(jog(single(0.0), single(0.0), "0.000", "0.000").is_none());
    assert!(jog(single(f32::NAN), single(0.0), "NaN", "0.000").is_none());
}

#[test]
fn emergency_stop_resets_and_unlocks() {
    match emergency_stop() {
        (JobCommand::SendImmediate(a), JobCommand::SendImmediate(b)) => {
            assert_eq!(a, "\u{18}");
            assert_eq!(b, "$X");
        }
        _ => panic!("other commands"),
    }
}

#[test]
fn cleared_display() {
    let shown = clear_all();
    assert_eq!(shown.state, "Disconnected");
    assert_eq!(shown.position, (single(0.0), single(0.0)));
    assert_eq!(shown.current, -1);
    assert_eq!(shown.progress, cnc_job::effect::Progress::Nothing);
    assert_eq!(shown.job_status, "IDLE");
}
