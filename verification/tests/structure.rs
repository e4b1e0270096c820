//! Tests of menus, conditional blocks, the root aggregator, option
//! collection, and the whole-buffer entry point.
use kconfig_parser::{take_kconfig, KConfig, KConfigResult, KMenu, MAX_NESTING_DEPTH};

#[test]
fn menu_with_nested_content() {
    let input = "menu \"Networking\"\n\tvisible if X\n\tdepends on Y\nsource \"net/Kconfig\"\nconfig A\n\tbool\nmenu \"Inner\"\nconfig B\n\tint\nendmenu\nendmenu\n";
    let (m, _, end) = KMenu::parse(input, 0, MAX_NESTING_DEPTH).unwrap();
    assert_eq!(m.description, "\"Networking\"");
    assert_eq!(m.visible.as_ref().unwrap()[0].expression.val, "X");
    assert_eq!(m.depends.as_ref().unwrap()[0].expression.val, "Y");
    assert_eq!(m.configs.as_ref().unwrap().len(), 1);
    assert_eq!(m.options.as_ref().unwrap()[0].name.name, "A");
    let inner = &m.menus.as_ref().unwrap()[0];
    assert_eq!(inner.description, "\"Inner\"");
    assert_eq!(inner.options.as_ref().unwrap()[0].name.name, "B");
    // the newline after the closing keyword stays for the caller
    assert_eq!(end, input.chars().count() - 1);
    let collected = m.collect_options();
    assert_eq!(collected.len(), 2);
    assert_eq!(collected[0].name.name, "A");
    assert_eq!(collected[1].name.name, "B");
}

#[test]
fn conditional_block_wraps_subtree() {
    let input = "if FOO && BAR\nconfig A\n\tbool\nendif\n";
    let r = take_kconfig(input);
    match r {
        KConfigResult::Complete { config, diagnostics } => {
            let blocks = config.blocks.as_ref().unwrap();
            assert_eq!(blocks[0].condition.expression.val, "FOO && BAR");
            assert_eq!(
                blocks[0].config.options.as_ref().unwrap()[0].name.name,
                "A"
            );
            assert!(diagnostics.is_empty());
        },
        KConfigResult::Partial { .. } => panic!("expected a complete parse"),
    }
}

#[test]
fn mainmenu_first_occurrence_wins() {
    let input = "mainmenu \"First\"\nmainmenu \"Second\"\nconfig A\n\tbool\n";
    match take_kconfig(input) {
        KConfigResult::Complete { config, .. } => {
            let p = config.mainmenu.as_ref().unwrap();
            assert_eq!(p.text.display_kconfig(), "\"First\"");
        },
        KConfigResult::Partial { .. } => panic!("expected a complete parse"),
    }
}

#[test]
fn comment_blocks_become_nodes() {
    let input = "comment \"separator\"\n\tdepends on X\nconfig A\n\tbool\n";
    match take_kconfig(input) {
        KConfigResult::Complete { config, .. } => {
            assert_eq!(config.options.as_ref().unwrap().len(), 1);
            let comments = config.comments.as_ref().unwrap();
            assert_eq!(comments.len(), 1);
            assert_eq!(comments[0].prompt.text.display_kconfig(), "\"separator\"");
            assert_eq!(
                comments[0].depends.as_ref().unwrap()[0].expression.val,
                "X"
            );
            assert!(config.choices.is_none());
            assert!(config.menus.is_none());
        },
        KConfigResult::Partial { .. } => panic!("expected a complete parse"),
    }
}

#[test]
fn top_level_comments_and_blank_lines() {
    let input = "# a header comment\n\nconfig A\n\tbool\n# trailing comment\n";
    match take_kconfig(input) {
        KConfigResult::Complete { config, .. } => {
            assert_eq!(config.options.as_ref().unwrap().len(), 1);
        },
        KConfigResult::Partial { .. } => panic!("expected a complete parse"),
    }
}

#[test]
fn leftover_input_is_reported_with_position() {
    let input = "config A\n\tbool\n%% garbage\n";
    match take_kconfig(input) {
        KConfigResult::Partial { config, consumed, .. } => {
            assert_eq!(config.options.as_ref().unwrap().len(), 1);
            assert_eq!(consumed, "config A\n\tbool\n".chars().count());
        },
        KConfigResult::Complete { .. } => panic!("expected leftover input"),
    }
}

#[test]
fn nothing_recognized_reports_position_zero() {
    match take_kconfig("%%\n") {
        KConfigResult::Partial { consumed, .. } => assert_eq!(consumed, 0),
        KConfigResult::Complete { .. } => panic!("expected leftover input"),
    }
}

#[test]
fn empty_input_is_complete() {
    match take_kconfig("") {
        KConfigResult::Complete { config, diagnostics } => {
            assert!(config.options.is_none());
            assert!(diagnostics.is_empty());
        },
        KConfigResult::Partial { .. } => panic!("expected a complete parse"),
    }
}

#[test]
fn unterminated_if_leaves_input() {
    // without `endif` the block production fails and consumes nothing
    match take_kconfig("if FOO\nconfig A\n\tbool\n") {
        KConfigResult::Partial { consumed, .. } => assert_eq!(consumed, 0),
        KConfigResult::Complete { .. } => panic!("expected leftover input"),
    }
}

#[test]
fn collect_options_walks_blocks_choices_menus() {
    let input = "config A\n\tbool\nchoice\n\tprompt \"pick\"\nconfig B\n\tbool\nconfig C\n\tbool\nendchoice\nif X\nconfig D\n\tbool\nendif\nmenu \"M\"\nconfig E\n\tbool\nendmenu\n";
    match take_kconfig(input) {
        KConfigResult::Complete { config, .. } => {
            let names: Vec<&str> = config
                .collect_options()
                .iter()
                .map(|o| o.name.name.as_str())
                .collect();
            assert_eq!(names, vec!["A", "B", "C", "D", "E"]);
        },
        KConfigResult::Partial { .. } => panic!("expected a complete parse"),
    }
}

#[test]
fn deep_nesting_is_bounded() {
    // more `if` nesting than the guard allows is refused, not overflowed
    let depth = MAX_NESTING_DEPTH + 8;
    let mut input = String::new();
    for _ in 0..depth {
        input.push_str("if X\n");
    }
    input.push_str("config A\n\tbool\n");
    for _ in 0..depth {
        input.push_str("endif\n");
    }
    match take_kconfig(&input) {
        KConfigResult::Partial { .. } => {},
        KConfigResult::Complete { .. } => panic!("expected the depth guard to stop the parse"),
    }
}

#[test]
fn parse_is_usable_at_an_offset() {
    let input = "XX config A\n\tbool\n";
    let (config, _, end) = KConfig::parse(input, 3, MAX_NESTING_DEPTH);
    assert_eq!(config.options.as_ref().unwrap()[0].name.name, "A");
    assert_eq!(end, input.chars().count());
}
