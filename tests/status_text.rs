use cmd_agent::status_text::{parse_decimal_u64, parse_vm_rss};

const STATUS: &str = "Name:\tpython3\nUmask:\t0022\nState:\tS (sleeping)\nPid:\t4242\nVmPeak:\t   52340 kB\nVmSize:\t   52340 kB\nVmHWM:\t   41200 kB\nVmRSS:\t   40960 kB\nRssAnon:\t   38000 kB\nThreads:\t1\n";

#[test]
fn reads_vm_rss_from_a_status_text() {
    assert_eq!(parse_vm_rss(STATUS.as_bytes()), 40960);
}

#[test]
fn no_vm_rss_line_gives_zero() {
    assert_eq!(parse_vm_rss(b"Name:\tzombie\nState:\tZ (zombie)\n"), 0);
}

#[test]
fn empty_text_gives_zero() {
    assert_eq!(parse_vm_rss(b""), 0);
}

#[test]
fn vm_rss_on_the_first_line_without_newline() {
    assert_eq!(parse_vm_rss(b"VmRSS: 123 kB"), 123);
}

#[test]
fn key_glued_to_value_reads_the_unit_and_gives_zero() {
    assert_eq!(parse_vm_rss(b"VmRSS:123 kB\n"), 0);
}

#[test]
fn key_without_a_value_moves_on_to_a_later_line() {
    assert_eq!(parse_vm_rss(b"VmRSS:\nVmRSS: 77 kB\n"), 77);
}

#[test]
fn first_complete_vm_rss_line_wins() {
    assert_eq!(parse_vm_rss(b"VmRSS: 5 kB\nVmRSS: 9 kB\n"), 5);
}

#[test]
fn value_that_is_not_a_number_gives_zero() {
    assert_eq!(parse_vm_rss(b"VmRSS: 12x kB\nVmRSS: 9 kB\n"), 0);
}

#[test]
fn key_must_start_the_line() {
    assert_eq!(parse_vm_rss(b"  VmRSS: 12 kB\nXVmRSS: 3 kB\n"), 0);
}

#[test]
fn carriage_returns_and_tabs_separate_fields() {
    assert_eq!(parse_vm_rss(b"Pid:\t1\r\nVmRSS:\t\t2048\r\n"), 2048);
}

#[test]
fn largest_u64_value_is_read() {
    assert_eq!(parse_vm_rss(b"VmRSS: 18446744073709551615 kB\n"), u64::MAX);
}

#[test]
fn value_past_u64_gives_zero() {
    assert_eq!(parse_vm_rss(b"VmRSS: 18446744073709551616 kB\n"), 0);
}

#[test]
fn decimal_accepts_digits_and_a_leading_plus() {
    let t = b"+42";
    assert_eq!(parse_decimal_u64(t, 0, 3), Some(42));
    assert_eq!(parse_decimal_u64(t, 1, 3), Some(42));
    assert_eq!(parse_decimal_u64(b"007", 0, 3), Some(7));
}

#[test]
fn decimal_rejects_empty_sign_only_and_minus() {
    assert_eq!(parse_decimal_u64(b"", 0, 0), None);
    assert_eq!(parse_decimal_u64(b"+", 0, 1), None);
    assert_eq!(parse_decimal_u64(b"-1", 0, 2), None);
    assert_eq!(parse_decimal_u64(b"1 2", 0, 3), None);
}

#[test]
fn decimal_reads_only_the_given_range() {
    assert_eq!(parse_decimal_u64(b"ab123cd", 2, 5), Some(123));
}

#[test]
fn decimal_matches_std_on_several_inputs() {
    for s in ["0", "1", "+9", "65535", "18446744073709551615", "18446744073709551616", "99999999999999999999", "", "+", "++1", "1+", " 1"] {
        let b = s.as_bytes();
        assert_eq!(parse_decimal_u64(b, 0, b.len()), s.parse::<u64>().ok(), "input {:?}", s);
    }
}

#[test]
fn no_break_space_separates_fields() {
    assert_eq!(parse_vm_rss("VmRSS:\u{a0}5".as_bytes()), 5);
}

#[test]
fn second_field_after_a_no_break_space_is_read() {
    assert_eq!(parse_vm_rss("VmRSS:\u{a0}7 5".as_bytes()), 7);
}

#[test]
fn every_unicode_whitespace_separates_fields() {
    for sep in [
        '\t', '\n', '\u{b}', '\u{c}', '\r', ' ', '\u{85}', '\u{a0}', '\u{1680}', '\u{2000}', '\u{2005}',
        '\u{200a}', '\u{2028}', '\u{2029}', '\u{202f}', '\u{205f}', '\u{3000}',
    ] {
        assert!(sep.is_whitespace());
        let line = format!("VmRSS:{}{}{}kB", sep, 314, sep);
        let expected = if sep == '\n' { 0 } else { 314 };
        assert_eq!(parse_vm_rss(line.as_bytes()), expected, "separator {:?}", sep);
    }
}

#[test]
fn non_whitespace_characters_do_not_separate_fields() {
    for c in ['\u{200b}', '\u{180e}', '\u{2060}', '\u{feff}', '\u{a1}', '\u{2030}'] {
        assert!(!c.is_whitespace());
        let line = format!("VmRSS: 12{}3 kB", c);
        assert_eq!(parse_vm_rss(line.as_bytes()), 0, "character {:?}", c);
    }
}

#[test]
fn agrees_with_lines_and_split_whitespace() {
    let texts = [
        "VmRSS:\u{3000}900\u{2029}kB\n",
        "Name:\u{1680}x\nVmRSS:\u{85}\u{85}41\u{202f}kB\n",
        "VmRSS:\u{205f}\nVmRSS:\u{2002}+8 kB",
        "VmRSS:\u{a0}7 5",
        "VmRSS: 4\u{a0}2",
        "VmRSSx: 3\n",
    ];
    for t in texts {
        let mut expected = 0u64;
        for line in t.lines() {
            if line.starts_with("VmRSS:") {
                let parts: Vec<&str> = line.split_whitespace().collect();
                if parts.len() >= 2 {
                    expected = parts[1].parse::<u64>().unwrap_or(0);
                    break;
                }
            }
        }
        assert_eq!(parse_vm_rss(t.as_bytes()), expected, "text {:?}", t);
    }
}
