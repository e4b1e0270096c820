//! Tests of the serializer: exact renderings of leaves, and round trips
//! that parse canonical output back into an equal tree.
use kconfig_parser::{take_kconfig, Hex, Int, KChoice, KConfigResult, KOption, OptionType};

#[test]
fn display_numbers() {
    assert_eq!(Int { val: 42 }.display_kconfig(), "42");
    assert_eq!(Int { val: -5 }.display_kconfig(), "-5");
    assert_eq!(Int { val: 0 }.display_kconfig(), "0");
    assert_eq!(
        Int { val: i128::MIN }.display_kconfig(),
        "-170141183460469231731687303715884105728"
    );
    assert_eq!(Hex { val: 31 }.display_kconfig(), "0x1f");
    assert_eq!(Hex { val: 0 }.display_kconfig(), "0x0");
    assert_eq!(
        Hex { val: u128::MAX }.display_kconfig(),
        "0xffffffffffffffffffffffffffffffff"
    );
}

#[test]
fn display_option_type_keywords_reparse() {
    assert_eq!(OptionType::Str.display_kconfig(), "string");
    assert_eq!(OptionType::Tristate.display_kconfig(), "tristate");
    assert_eq!(OptionType::Bool.display_kconfig(), "bool");
    assert_eq!(OptionType::Hex.display_kconfig(), "hex");
    assert_eq!(OptionType::Int.display_kconfig(), "int");
}

#[test]
fn display_option_canonical_text() {
    let input = "config FOO\n    bool \"Enable foo\"\n    depends on BAR\n    default y if BAZ\n    help\n      Does foo things.\n";
    let (o, _, _) = KOption::parse(input, 0).unwrap();
    let out = o.display_kconfig();
    assert_eq!(
        out,
        "config FOO\n\tbool \"Enable foo\"\n\tdefault y if BAZ\n\tdepends on BAR\n\thelp\n\t  Does foo things.\n"
    );
}

#[test]
fn option_round_trip() {
    let input = "config FOO\n    bool \"Enable foo\"\n    depends on BAR\n    default y if BAZ\n    help\n      Does foo things.\n";
    let (o, _, _) = KOption::parse(input, 0).unwrap();
    let out = o.display_kconfig();
    let (o2, diags2, end2) = KOption::parse(&out, 0).unwrap();
    assert_eq!(end2, out.chars().count());
    assert_eq!(o, o2);
    assert!(diags2.is_empty());
}

#[test]
fn option_round_trip_with_every_attribute() {
    let input = "config X\n\thex \"label\" if C1\n\tdefault 0x10\n\tdef_bool n\n\tdepends on A && B\n\tselect S if C2\n\timply I\n\trange 0x1 0xff\n\thelp\n\t  first line\n\n\t    deeper line\n";
    let (o, _, end) = KOption::parse(input, 0).unwrap();
    assert_eq!(end, input.chars().count());
    let out = o.display_kconfig();
    let (o2, _, end2) = KOption::parse(&out, 0).unwrap();
    assert_eq!(end2, out.chars().count());
    assert_eq!(o, o2);
}

#[test]
fn multi_prompt_round_trip_keeps_order() {
    let input = "config A\n\tbool \"one\"\n\tprompt \"two\"\n";
    let (o, _, _) = KOption::parse(input, 0).unwrap();
    let out = o.display_kconfig();
    let (o2, _, _) = KOption::parse(&out, 0).unwrap();
    assert_eq!(o, o2);
}

#[test]
fn missing_type_round_trip_is_semantically_equal() {
    // the serializer writes the resolved `int` type out, so the re-parsed
    // option declares explicitly what the original left implicit
    let (o, _, _) = KOption::parse("config A\n\tdepends on B\n", 0).unwrap();
    let out = o.display_kconfig();
    let (o2, diags2, _) = KOption::parse(&out, 0).unwrap();
    assert_eq!(o2.declared_type, Some(OptionType::Int));
    assert_eq!(o.option_type, o2.option_type);
    assert_eq!(o.name, o2.name);
    assert_eq!(o.depends, o2.depends);
    assert!(diags2.is_empty());
}

#[test]
fn choice_round_trip() {
    let input = "choice\n\toptional\n\tbool \"pick one\"\n\tdefault A\n\tdepends on G\n\thelp\n\t  choose wisely\nconfig A\n\tbool \"a\"\nconfig B\n\tbool \"b\"\nendchoice\n";
    let (c, _, end) = KChoice::parse(input, 0).unwrap();
    // the newline after the closing keyword stays for the caller
    assert_eq!(end, input.chars().count() - 1);
    let out = c.display_kconfig();
    let (c2, _, end2) = KChoice::parse(&out, 0).unwrap();
    assert_eq!(end2, out.chars().count() - 1);
    assert_eq!(c, c2);
}

#[test]
fn whole_config_round_trip() {
    let input = "mainmenu \"Top\"\nsource \"sub/Kconfig\"\ncomment \"sep\"\n\tdepends on K\nif GATE\nconfig A\n\tbool \"a\"\nendif\nchoice\n\ttristate \"pick\"\nconfig B\n\ttristate\nendchoice\nmenu \"M\"\n\tdepends on D\nconfig C\n\tint \"c\"\nendmenu\nconfig D\n\tstring \"d\"\n";
    let c1 = match take_kconfig(input) {
        KConfigResult::Complete { config, .. } => config,
        KConfigResult::Partial { consumed, .. } => {
            panic!("first parse stopped at {}", consumed)
        },
    };
    let out = c1.display_kconfig();
    let c2 = match take_kconfig(&out) {
        KConfigResult::Complete { config, .. } => config,
        KConfigResult::Partial { consumed, .. } => {
            panic!("reparse stopped at {} in {:?}", consumed, out)
        },
    };
    assert_eq!(c1, c2);
    // and the canonical form is a fixpoint: serializing again changes nothing
    assert_eq!(out, c2.display_kconfig());
}

#[test]
fn display_block_and_menu_close_their_constructs() {
    let input = "if X\nconfig A\n\tbool\nendif\nmenu \"M\"\nconfig B\n\tbool\nendmenu\n";
    let config = match take_kconfig(input) {
        KConfigResult::Complete { config, .. } => config,
        KConfigResult::Partial { .. } => panic!("expected a complete parse"),
    };
    let out = config.display_kconfig();
    assert!(out.contains("endif\n"));
    assert!(out.contains("endmenu\n"));
}

#[test]
fn display_single_quoted_literal_kept() {
    let (o, _, _) = KOption::parse("config A\n\tbool 'sq'\n", 0).unwrap();
    let out = o.display_kconfig();
    assert!(out.contains("'sq'"));
    let (o2, _, _) = KOption::parse(&out, 0).unwrap();
    assert_eq!(o, o2);
}

#[test]
fn display_escaped_quote_round_trip() {
    let (o, _, _) = KOption::parse("config A\n\tbool \"say \\\"hi\\\"\"\n", 0).unwrap();
    let out = o.display_kconfig();
    let (o2, _, _) = KOption::parse(&out, 0).unwrap();
    assert_eq!(o, o2);
}
