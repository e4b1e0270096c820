//! A verified parser and serializer for the Kconfig configuration language:
//! expressions, attributes, options, choices, menus, comment blocks and
//! conditional blocks, parsed from one text buffer into a navigable tree
//! that can be re-emitted as canonical Kconfig source.
pub mod util;
pub mod token;
pub mod expr;
pub mod attrs;
pub mod diag;
pub mod koption;
pub mod kcommentblock;
pub mod kchoice;
pub mod kmenu;
pub mod kconfig;
pub mod display;
pub mod laws;

pub use attrs::{Dependency, Help, Prompt, Range, RangeType, ReverseDependency};
pub use kconfig::{take_kconfig, Block, KConfig, KConfigResult, MAX_NESTING_DEPTH};
pub use kmenu::KMenu;
pub use kchoice::KChoice;
pub use kcommentblock::KCommentBlock;
pub use diag::{Diagnostic, DiagnosticKind};
pub use koption::KOption;
pub use expr::{Condition, Expr, Expression, VarType, parse_expr};
pub use token::{ConstantSymbol, Delimiter, Hex, Int, OptionType, Symbol};
pub use util::{count_whitespace, special_space, take_comment, take_continued_line, take_line_ending};
