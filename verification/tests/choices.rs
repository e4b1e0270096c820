//! Tests of `choice` groups: member collection, type agreement, the
//! `optional` marker, and the choice-level diagnostics.
use kconfig_parser::{Diagnostic, DiagnosticKind, KChoice, OptionType};

fn has_diag(diags: &[Diagnostic], kind: DiagnosticKind) -> bool {
    diags.iter().any(|d| d.kind == kind)
}

#[test]
fn choice_members_differ_resolves_to_last() {
    let input = "choice\n\tprompt \"pick\"\nconfig A\n\tbool\nconfig B\n\ttristate\nendchoice\n";
    let (c, diags, _) = KChoice::parse(input, 0).unwrap();
    assert_eq!(c.options.len(), 2);
    assert_eq!(c.option_type, OptionType::Tristate);
    assert!(has_diag(&diags, DiagnosticKind::ChoiceMembersDiffer));
    assert!(!has_diag(&diags, DiagnosticKind::ChoiceMissingPrompt));
}

#[test]
fn choice_explicit_type_wins() {
    let input = "choice\n\tbool \"pick\"\nconfig A\n\tbool\nconfig B\n\tbool\nendchoice\n";
    let (c, diags, _) = KChoice::parse(input, 0).unwrap();
    assert_eq!(c.option_type, OptionType::Bool);
    assert_eq!(c.declared_type, Some(OptionType::Bool));
    assert!(!has_diag(&diags, DiagnosticKind::ChoiceMembersDiffer));
}

#[test]
fn choice_agreeing_members_no_diagnostic() {
    let input = "choice\n\tprompt \"pick\"\nconfig A\n\tbool\nconfig B\n\tbool\nendchoice\n";
    let (c, diags, _) = KChoice::parse(input, 0).unwrap();
    assert_eq!(c.option_type, OptionType::Bool);
    assert!(!has_diag(&diags, DiagnosticKind::ChoiceMembersDiffer));
}

#[test]
fn choice_missing_prompt_diagnostic() {
    let input = "choice\nconfig A\n\tbool\nendchoice\n";
    let (c, diags, _) = KChoice::parse(input, 0).unwrap();
    assert!(c.prompts.is_empty());
    assert!(has_diag(&diags, DiagnosticKind::ChoiceMissingPrompt));
}

#[test]
fn choice_optional_marker() {
    let input = "choice\n\toptional\n\tbool \"pick\"\nconfig A\n\tbool\nendchoice\n";
    let (c, _, _) = KChoice::parse(input, 0).unwrap();
    assert!(c.optional);
}

#[test]
fn choice_collects_defaults_depends_help() {
    let input = "choice\n\tbool \"pick\"\n\tdefault A if X\n\tdepends on Y\n\thelp\n\t  about\nconfig A\n\tbool\nendchoice\n";
    let (c, _, _) = KChoice::parse(input, 0).unwrap();
    let defaults = c.defaults.as_ref().unwrap();
    assert_eq!(defaults[0].expression.val, "A");
    assert_eq!(defaults[0].condition.as_ref().unwrap().expression.val, "X");
    assert_eq!(c.depends.as_ref().unwrap()[0].expression.val, "Y");
    assert_eq!(c.help.as_ref().unwrap().text, vec![String::from("about")]);
}

#[test]
fn choice_member_diagnostics_ride_along() {
    // the member option is missing a type, and its diagnostic is kept
    let input = "choice\n\tprompt \"pick\"\nconfig A\n\tdepends on B\nendchoice\n";
    let (_, diags, _) = KChoice::parse(input, 0).unwrap();
    assert!(has_diag(&diags, DiagnosticKind::MissingType));
}

#[test]
fn choice_requires_endchoice() {
    assert!(KChoice::parse("choice\n\tbool \"pick\"\nconfig A\n\tbool\n", 0).is_none());
}
