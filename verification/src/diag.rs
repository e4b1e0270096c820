//! Soft consistency diagnostics and the pure type-resolution rules. A
//! diagnostic never aborts a parse: it is collected beside the tree so a
//! caller can inspect or filter it.
use vstd::prelude::*;
use crate::token::OptionType;

verus! {

/// The kinds of soft diagnostics a successful parse can record.
#[derive(Debug, PartialEq, Eq, Structural, Copy, Clone)]
pub enum DiagnosticKind {
    /// An option declared no type and no `def_bool`/`def_tristate`; it was
    /// defaulted to `int`.
    MissingType,
    /// An option declared its type more than once; the last one stands.
    DuplicateType,
    /// An option declared more than one help block; the last one stands.
    DuplicateHelp,
    /// An option carries more than one prompt.
    MultiplePrompts,
    /// `def_bool` entries beside an explicit type other than `bool`; the
    /// explicit type stands.
    DefBoolConflict,
    /// `def_tristate` entries beside an explicit type other than `tristate`;
    /// the explicit type stands.
    DefTristateConflict,
    /// A `range` attached to an option whose type is neither `int` nor
    /// `hex`; the range is kept in the tree all the same.
    RangeWrongType,
    /// Member options of a choice disagree with the choice's resolved type.
    ChoiceMembersDiffer,
    /// A choice carries no prompt at all.
    ChoiceMissingPrompt,
}

/// One recorded diagnostic: its kind, the name of the option it is about,
/// where one exists (a choice is anonymous), and the position, in
/// characters, where the construct it concerns begins.
#[derive(Debug, Clone, PartialEq)]
pub struct Diagnostic {
    pub kind: DiagnosticKind,
    pub symbol: Option<String>,
    pub pos: usize,
}

/// A singleton sequence when `b` holds, else empty; used to assemble
/// diagnostic lists.
pub open spec fn one_if(b: bool, d: Diagnostic) -> Seq<Diagnostic> {
    if b {
        seq![d]
    } else {
        Seq::empty()
    }
}

/// The type an option resolves to: an explicit declaration wins; else
/// `def_bool` entries imply `bool`, `def_tristate` entries imply `tristate`;
/// else the type defaults to `int`.
pub open spec fn spec_resolved_type(
    declared: Option<OptionType>,
    has_def_bool: bool,
    has_def_tristate: bool,
) -> OptionType {
    match declared {
        Some(t) => t,
        None => if has_def_bool {
            OptionType::Bool
        } else if has_def_tristate {
            OptionType::Tristate
        } else {
            OptionType::Int
        },
    }
}

/// Resolve an option's type from the declaration evidence gathered while
/// parsing its body.
pub fn resolve_option_type(
    declared: &Option<OptionType>,
    has_def_bool: bool,
    has_def_tristate: bool,
) -> (t: OptionType)
    ensures
        t == spec_resolved_type(*declared, has_def_bool, has_def_tristate),
{
    match declared {
        Some(t) => *t,
        None => if has_def_bool {
            OptionType::Bool
        } else if has_def_tristate {
            OptionType::Tristate
        } else {
            OptionType::Int
        },
    }
}

/// The type a choice resolves to: an explicit declaration wins; else the
/// type of the last member option; else, with no members at all, `int`.
pub open spec fn spec_resolved_choice_type(
    declared: Option<OptionType>,
    member_types: Seq<OptionType>,
) -> OptionType {
    match declared {
        Some(t) => t,
        None => if member_types.len() == 0 {
            OptionType::Int
        } else {
            member_types.last()
        },
    }
}

/// Resolve a choice's type from its declaration and its members' types.
pub fn resolve_choice_type(declared: &Option<OptionType>, member_types: &Vec<OptionType>) -> (t:
    OptionType)
    ensures
        t == spec_resolved_choice_type(*declared, member_types@),
{
    match declared {
        Some(t) => *t,
        None => if member_types.len() == 0 {
            OptionType::Int
        } else {
            member_types[member_types.len() - 1]
        },
    }
}

/// Whether ranges are meaningful on an option of type `t`.
pub open spec fn numeric_type(t: OptionType) -> bool {
    t == OptionType::Int || t == OptionType::Hex
}

/// Executable check of `numeric_type`.
pub fn is_numeric_type(t: OptionType) -> (r: bool)
    ensures
        r == numeric_type(t),
{
    t == OptionType::Int || t == OptionType::Hex
}

} // verus!
