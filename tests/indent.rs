use indentdetect::{
    count_indents, detect_indent, do_lines, format_indent, maybe_gcd, parse_u32, process_args, report, scan_indent,
    str_eq, vim_settings, Collector, OutputFormat,
};

fn lines(v: &[&str]) -> Vec<String> {
    v.iter().map(|s| s.to_string()).collect()
}

#[test]
fn scan_counts_tabs_then_spaces() {
    assert_eq!(scan_indent("\t\t  x"), (2, 2));
    assert_eq!(scan_indent("    x"), (0, 4));
    assert_eq!(scan_indent("\tx"), (1, 0));
    assert_eq!(scan_indent("x"), (0, 0));
    assert_eq!(scan_indent(""), (0, 0));
}

#[test]
fn scan_ignores_tab_after_spaces() {
    assert_eq!(scan_indent(" \t x"), (0, 1));
    assert_eq!(scan_indent("\t \t  "), (1, 1));
}

#[test]
fn gcd_with_zero_sentinel() {
    assert_eq!(maybe_gcd(0, 0), 0);
    assert_eq!(maybe_gcd(0, 7), 7);
    assert_eq!(maybe_gcd(9, 0), 9);
    assert_eq!(maybe_gcd(12, 18), 6);
    assert_eq!(maybe_gcd(18, 12), 6);
    assert_eq!(maybe_gcd(7, 5), 1);
    assert_eq!(maybe_gcd(u32::MAX, u32::MAX), u32::MAX);
}

#[test]
fn space_unit_divides_every_run() {
    let runs = [6u32, 9, 12, 3];
    let (tab_width, unit) = detect_indent(false, &runs, 8).unwrap();
    assert_eq!(tab_width, 0);
    assert_eq!(unit, 3);
    for r in runs {
        assert_eq!(r % unit, 0);
    }
}

#[test]
fn space_unit_of_empty_runs_is_zero() {
    assert_eq!(detect_indent(false, &[], 8), Ok((0, 0)));
}

#[test]
fn detect_tabs_only_uses_default() {
    assert_eq!(detect_indent(true, &[], 8), Ok((8, 0)));
}

#[test]
fn detect_tabs_and_spaces() {
    assert_eq!(detect_indent(true, &[2, 4], 8), Ok((6, 2)));
}

#[test]
fn detect_too_wide() {
    let r = detect_indent(true, &[u32::MAX], 8);
    assert_eq!(r, Err("Indentation too wide".to_string()));
    assert_eq!(detect_indent(true, &[u32::MAX - 1, 1], 8), Ok((u32::MAX, 1)));
}

#[test]
fn scenario_spaces_only() {
    let input = lines(&["fn main() {", "    let x = 1;", "    if x {", "        y();", "    }", "}"]);
    assert_eq!(count_indents(&input), (false, vec![4, 4, 8, 4]));
    assert_eq!(detect_indent(false, &[4, 4, 8, 4], 8), Ok((0, 4)));
    assert_eq!(do_lines(&input, OutputFormat::Generic, 8), Ok("space 4".to_string()));
}

#[test]
fn scenario_tabs_only() {
    let input = lines(&["a", "\tb", "\t\tc", "\td"]);
    assert_eq!(do_lines(&input, OutputFormat::Generic, 8), Ok("tab 8".to_string()));
    assert_eq!(do_lines(&input, OutputFormat::Generic, 3), Ok("tab 3".to_string()));
    assert_eq!(do_lines(&input, OutputFormat::Vim, 8), Ok("set noexpandtab tabstop=8 shiftwidth=8".to_string()));
}

#[test]
fn scenario_mixed() {
    let input = lines(&["\t\t  ", "\t    "]);
    assert_eq!(count_indents(&input), (true, vec![2, 4]));
    assert_eq!(do_lines(&input, OutputFormat::Generic, 8), Ok("tab+space 6 2".to_string()));
    assert_eq!(do_lines(&input, OutputFormat::Vim, 8), Ok("set noexpandtab tabstop=6 shiftwidth=2".to_string()));
}

#[test]
fn scenario_no_indentation() {
    let empty: Vec<String> = Vec::new();
    assert_eq!(do_lines(&empty, OutputFormat::Generic, 8), Err("No indentation".to_string()));
    let flat = lines(&["a", "b", "", "c d"]);
    assert_eq!(do_lines(&flat, OutputFormat::Vim, 8), Err("No indentation".to_string()));
}

#[test]
fn scenario_vim_pure_spaces() {
    let input = lines(&["x", "  y", "    z", "  w"]);
    assert_eq!(do_lines(&input, OutputFormat::Vim, 8), Ok("set expandtab tabstop=2 shiftwidth=2".to_string()));
}

#[test]
fn vim_expandtab_iff_no_tab_width() {
    assert_eq!(vim_settings(0, 2), (true, 2, 2));
    assert_eq!(vim_settings(8, 0), (false, 8, 8));
    assert_eq!(vim_settings(6, 2), (false, 6, 2));
}

#[test]
fn format_generic_kinds() {
    assert_eq!(format_indent((8, 0), OutputFormat::Generic), "tab 8");
    assert_eq!(format_indent((0, 4), OutputFormat::Generic), "space 4");
    assert_eq!(format_indent((10, 2), OutputFormat::Generic), "tab+space 10 2");
    assert_eq!(format_indent((u32::MAX, 0), OutputFormat::Generic), "tab 4294967295");
    assert_eq!(format_indent((0, 1000), OutputFormat::Vim), "set expandtab tabstop=1000 shiftwidth=1000");
}

#[test]
fn pipeline_is_repeatable() {
    let input = lines(&["\t\t  ", "\t    ", "x"]);
    let first = do_lines(&input, OutputFormat::Generic, 4);
    let second = do_lines(&input, OutputFormat::Generic, 4);
    assert_eq!(first, second);
}

#[test]
fn only_first_hundred_indented_lines_are_sampled() {
    let mut v: Vec<String> = Vec::new();
    for _ in 0..100 {
        v.push("    a".to_string());
    }
    v.push("\tb".to_string());
    v.push("  c".to_string());
    assert_eq!(count_indents(&v), (false, vec![4; 100]));
    assert_eq!(do_lines(&v, OutputFormat::Generic, 8), Ok("space 4".to_string()));
}

#[test]
fn unindented_lines_do_not_count_against_cap() {
    let mut v: Vec<String> = Vec::new();
    for _ in 0..150 {
        v.push("flat".to_string());
    }
    v.push("\tb".to_string());
    assert_eq!(do_lines(&v, OutputFormat::Generic, 5), Ok("tab 5".to_string()));
}

#[test]
fn collector_stops_at_cap() {
    let mut c = Collector::new();
    assert!(c.feed("no indent"));
    for _ in 0..99 {
        assert!(c.feed("   x"));
    }
    assert!(!c.feed("\t y"));
    assert!(!c.feed("\t y"));
    assert!(c.tabs());
    assert_eq!(c.sp_counts().len(), 100);
    let (tabs, runs) = c.into_parts();
    assert!(tabs);
    assert_eq!(runs[99], 1);
}

#[test]
fn report_no_indentation() {
    assert_eq!(report(false, &[], OutputFormat::Generic, 8), Err("No indentation".to_string()));
    assert_eq!(report(true, &[3, 6], OutputFormat::Generic, 8), Ok("tab+space 9 3".to_string()));
}

#[test]
fn parse_u32_forms() {
    assert_eq!(parse_u32("8"), Some(8));
    assert_eq!(parse_u32("+8"), Some(8));
    assert_eq!(parse_u32("007"), Some(7));
    assert_eq!(parse_u32("4294967295"), Some(u32::MAX));
    assert_eq!(parse_u32("4294967296"), None);
    assert_eq!(parse_u32("99999999999999999999"), None);
    assert_eq!(parse_u32(""), None);
    assert_eq!(parse_u32("+"), None);
    assert_eq!(parse_u32("-1"), None);
    assert_eq!(parse_u32(" 8"), None);
    assert_eq!(parse_u32("8a"), None);
    for s in ["0", "12", "+3", "-0", "", "+", "1x", "4294967295", "4294967296", "٣"] {
        assert_eq!(parse_u32(s), s.parse::<u32>().ok());
    }
}

#[test]
fn str_eq_compares_characters() {
    assert!(str_eq("vim", "vim"));
    assert!(!str_eq("vim", "vi"));
    assert!(!str_eq("vim", "vin"));
    assert!(str_eq("", ""));
}

#[test]
fn process_args_accepts_valid() {
    assert_eq!(process_args(&["f.txt", "vim", "4"]), Ok(("f.txt", OutputFormat::Vim, 4)));
    assert_eq!(process_args(&["f.txt", "generic", "8"]), Ok(("f.txt", OutputFormat::Generic, 8)));
}

#[test]
fn process_args_rejects_format() {
    assert_eq!(process_args(&["f", "emacs", "4"]), Err("Invalid output format".to_string()));
}

#[test]
fn process_args_rejects_width() {
    assert_eq!(process_args(&["f", "vim", "four"]), Err("Invalid default tab width".to_string()));
    assert_eq!(process_args(&["f", "vim", "0"]), Err("Default tab width can't be zero".to_string()));
}
