//! Tests of option parsing: the end-to-end scenario, type inference,
//! attribute collection, the help extractor, and every diagnostic kind.
use kconfig_parser::{Delimiter, DiagnosticKind, Help, KOption, OptionType, RangeType};

fn has_diag(diags: &[kconfig_parser::Diagnostic], kind: DiagnosticKind) -> bool {
    diags.iter().any(|d| d.kind == kind)
}

#[test]
fn end_to_end_scenario() {
    let input = "config FOO\n    bool \"Enable foo\"\n    depends on BAR\n    default y if BAZ\n    help\n      Does foo things.\n";
    let (o, diags, end) = KOption::parse(input, 0).unwrap();
    assert_eq!(end, input.chars().count());
    assert_eq!(o.name.name, "FOO");
    assert_eq!(o.option_type, OptionType::Bool);
    let prompts = o.prompts.as_ref().unwrap();
    assert_eq!(prompts.len(), 1);
    assert_eq!(
        prompts[0].text.delimiter,
        Delimiter::DoubleQuote(String::from("Enable foo"))
    );
    assert!(prompts[0].condition.is_none());
    let depends = o.depends.as_ref().unwrap();
    assert_eq!(depends.len(), 1);
    assert_eq!(depends[0].expression.val, "BAR");
    assert!(depends[0].condition.is_none());
    let defaults = o.defaults.as_ref().unwrap();
    assert_eq!(defaults.len(), 1);
    assert_eq!(defaults[0].expression.val, "y");
    assert_eq!(
        defaults[0].condition.as_ref().unwrap().expression.val,
        "BAZ"
    );
    let help = o.help.as_ref().unwrap();
    assert_eq!(help.text, vec![String::from("Does foo things.")]);
    assert!(diags.is_empty());
}

#[test]
fn menuconfig_parses_like_config() {
    let (o, _, _) = KOption::parse("menuconfig M\n\tbool\n", 0).unwrap();
    assert_eq!(o.name.name, "M");
    assert_eq!(o.option_type, OptionType::Bool);
}

#[test]
fn def_bool_implies_bool() {
    let (o, diags, _) = KOption::parse("config A\n\tdef_bool y\n", 0).unwrap();
    assert_eq!(o.option_type, OptionType::Bool);
    assert_eq!(o.declared_type, None);
    assert!(!has_diag(&diags, DiagnosticKind::MissingType));
}

#[test]
fn def_tristate_implies_tristate() {
    let (o, diags, _) = KOption::parse("config A\n\tdef_tristate m\n", 0).unwrap();
    assert_eq!(o.option_type, OptionType::Tristate);
    assert!(!has_diag(&diags, DiagnosticKind::MissingType));
}

#[test]
fn missing_type_defaults_to_int_with_diagnostic() {
    let (o, diags, _) = KOption::parse("config A\n\tdepends on B\n", 0).unwrap();
    assert_eq!(o.option_type, OptionType::Int);
    assert!(has_diag(&diags, DiagnosticKind::MissingType));
    let d = diags.iter().find(|d| d.kind == DiagnosticKind::MissingType).unwrap();
    assert_eq!(d.symbol, Some(String::from("A")));
    // the diagnostic points at the start of the declaration it concerns
    assert_eq!(d.pos, 0);
}

#[test]
fn explicit_type_beats_def_bool_with_diagnostic() {
    let (o, diags, _) = KOption::parse("config A\n\tstring\n\tdef_bool y\n", 0).unwrap();
    assert_eq!(o.option_type, OptionType::Str);
    assert!(has_diag(&diags, DiagnosticKind::DefBoolConflict));
}

#[test]
fn def_tristate_conflict_diagnostic() {
    let (o, diags, _) = KOption::parse("config A\n\tbool\n\tdef_tristate m\n", 0).unwrap();
    assert_eq!(o.option_type, OptionType::Bool);
    assert!(has_diag(&diags, DiagnosticKind::DefTristateConflict));
}

#[test]
fn duplicate_type_diagnostic_last_wins() {
    let (o, diags, _) = KOption::parse("config A\n\tbool\n\ttristate\n", 0).unwrap();
    assert_eq!(o.option_type, OptionType::Tristate);
    assert!(has_diag(&diags, DiagnosticKind::DuplicateType));
}

#[test]
fn multiple_prompts_diagnostic() {
    let input = "config A\n\tbool \"first\"\n\tprompt \"second\"\n";
    let (o, diags, _) = KOption::parse(input, 0).unwrap();
    assert_eq!(o.prompts.as_ref().unwrap().len(), 2);
    assert!(has_diag(&diags, DiagnosticKind::MultiplePrompts));
}

#[test]
fn duplicate_help_diagnostic() {
    let input = "config A\n\tbool\n\thelp\n\t  one\n\thelp\n\t  two\n";
    let (o, diags, _) = KOption::parse(input, 0).unwrap();
    assert_eq!(o.help.as_ref().unwrap().text, vec![String::from("two")]);
    assert!(has_diag(&diags, DiagnosticKind::DuplicateHelp));
}

#[test]
fn range_on_string_kept_with_diagnostic() {
    let (o, diags, _) = KOption::parse("config A\n\tstring\n\trange 1 10\n", 0).unwrap();
    assert_eq!(o.option_type, OptionType::Str);
    let ranges = o.ranges.as_ref().unwrap();
    assert_eq!(ranges.len(), 1);
    assert!(matches!(&ranges[0].start, RangeType::Int(v) if v.val == 1));
    assert!(matches!(&ranges[0].end, RangeType::Int(v) if v.val == 10));
    assert!(has_diag(&diags, DiagnosticKind::RangeWrongType));
}

#[test]
fn range_on_int_has_no_diagnostic() {
    let (o, diags, _) = KOption::parse("config A\n\tint\n\trange 1 10\n", 0).unwrap();
    assert_eq!(o.option_type, OptionType::Int);
    assert!(!has_diag(&diags, DiagnosticKind::RangeWrongType));
    assert!(diags.is_empty());
}

#[test]
fn range_hex_pair() {
    let (o, _, _) = KOption::parse("config A\n\thex\n\trange 0x1 0xFF\n", 0).unwrap();
    let ranges = o.ranges.as_ref().unwrap();
    assert!(matches!(&ranges[0].start, RangeType::Hex(v) if v.val == 1));
    assert!(matches!(&ranges[0].end, RangeType::Hex(v) if v.val == 255));
}

#[test]
fn range_symbol_pair() {
    let (o, _, _) = KOption::parse("config A\n\tint\n\trange LO HI if C\n", 0).unwrap();
    let ranges = o.ranges.as_ref().unwrap();
    assert!(matches!(&ranges[0].start, RangeType::Symbol(s) if s.name == "LO"));
    assert!(matches!(&ranges[0].end, RangeType::Symbol(s) if s.name == "HI"));
    assert_eq!(ranges[0].condition.as_ref().unwrap().expression.val, "C");
}

#[test]
fn range_mixed_kinds_fall_back_to_symbols() {
    // a hexadecimal bound beside a decimal one matches neither numeric
    // pairing, so both bounds are read as symbols
    let (o, _, _) = KOption::parse("config A\n\tint\n\trange 0x1 5\n", 0).unwrap();
    let ranges = o.ranges.as_ref().unwrap();
    assert!(matches!(&ranges[0].start, RangeType::Symbol(s) if s.name == "0x1"));
    assert!(matches!(&ranges[0].end, RangeType::Symbol(s) if s.name == "5"));
}

#[test]
fn select_and_imply_collect_symbols() {
    let input = "config A\n\tbool\n\tselect X if C\n\timply Y\n";
    let (o, _, _) = KOption::parse(input, 0).unwrap();
    let selects = o.selects.as_ref().unwrap();
    assert_eq!(selects[0].symbol.name, "X");
    assert_eq!(selects[0].condition.as_ref().unwrap().expression.val, "C");
    let implies = o.implies.as_ref().unwrap();
    assert_eq!(implies[0].symbol.name, "Y");
    assert!(implies[0].condition.is_none());
}

#[test]
fn modules_marker_is_swallowed() {
    let (o, _, end) = KOption::parse("config MODULES\n\tbool \"m\"\n\tmodules\n", 0).unwrap();
    assert_eq!(o.name.name, "MODULES");
    assert_eq!(end, "config MODULES\n\tbool \"m\"\n\tmodules\n".chars().count());
}

#[test]
fn option_ends_at_next_construct() {
    let input = "config A\n\tbool\nconfig B\n\tint\n";
    let (o, _, end) = KOption::parse(input, 0).unwrap();
    assert_eq!(o.name.name, "A");
    let (o2, _, _) = KOption::parse(input, end).unwrap();
    assert_eq!(o2.name.name, "B");
}

#[test]
fn help_indentation_baseline() {
    // the first line sets the baseline; deeper lines keep their excess
    // indentation; the block ends at the first shallower non-blank line
    let input = "help\n  line one\n    line two\n  line three\n";
    let (h, end) = Help::parse("help", input, 0).unwrap();
    assert_eq!(
        h.text,
        vec![
            String::from("line one"),
            String::from("  line two"),
            String::from("line three")
        ]
    );
    assert_eq!(end, input.chars().count());
}

#[test]
fn help_ends_at_shallower_sibling() {
    let input = "config A\n  bool\n  help\n    t1\n      t2\n    t3\n  depends on B\n";
    let (o, _, end) = KOption::parse(input, 0).unwrap();
    assert_eq!(
        o.help.as_ref().unwrap().text,
        vec![String::from("t1"), String::from("  t2"), String::from("t3")]
    );
    assert_eq!(o.depends.as_ref().unwrap()[0].expression.val, "B");
    assert_eq!(end, input.chars().count());
}

#[test]
fn help_keeps_blank_lines() {
    let input = "help\n  a\n\n  b\n";
    let (h, _) = Help::parse("help", input, 0).unwrap();
    assert_eq!(
        h.text,
        vec![String::from("a"), String::from(""), String::from("b")]
    );
}

#[test]
fn help_requires_indented_first_line() {
    assert!(Help::parse("help", "help\nno indent\n", 0).is_none());
}
