//! The `config`/`menuconfig` declaration: a named option, its resolved
//! type, and its attribute lists, built by trying a fixed list of
//! alternative productions per body line.
use vstd::prelude::*;
use crate::util::{comment_tok_end, line_end_tok, lit_at, match_lit, skip_space0, space_char,
    space_end, sym_end, take_comment, take_line_ending};
use crate::token::{opttype_at, OptionType, Symbol};
use crate::attrs::{dependency_end, dependency_ok, help_ok, help_result, prompt_end, prompt_ok,
    range_end, range_ok, rdep_end, rdep_ok, Dependency, Help, Prompt, Range, ReverseDependency};
use crate::diag::{one_if, spec_resolved_type, resolve_option_type, numeric_type, is_numeric_type,
    Diagnostic, DiagnosticKind};

verus! {

/// One `config` or `menuconfig` declaration.
#[derive(Debug, PartialEq)]
pub struct KOption {
    /// The option's name; always present.
    pub name: Symbol,
    /// The resolved type; never left undetermined (see `spec_resolved_type`).
    pub option_type: OptionType,
    /// The explicitly declared type, when a type keyword was seen; kept as
    /// evidence so the resolution and its diagnostics stay checkable.
    pub declared_type: Option<OptionType>,
    /// Raw help text, indentation-normalized per line.
    pub help: Option<Help>,
    /// Prompts, from `prompt` lines and the inline prompt of a type line.
    pub prompts: Option<Vec<Prompt>>,
    /// `depends on` entries.
    pub depends: Option<Vec<Dependency>>,
    /// `select` entries.
    pub selects: Option<Vec<ReverseDependency>>,
    /// `imply` entries.
    pub implies: Option<Vec<ReverseDependency>>,
    /// `default` entries.
    pub defaults: Option<Vec<Dependency>>,
    /// `def_bool` entries: each a default that also implies type `bool`.
    pub def_bool: Option<Vec<Dependency>>,
    /// `def_tristate` entries: each a default that also implies `tristate`.
    pub def_tristate: Option<Vec<Dependency>>,
    /// `range` entries; only meaningful on `int` and `hex` options.
    pub ranges: Option<Vec<Range>>,
}

impl KOption {
    /// How many prompts the option carries.
    pub open spec fn prompt_count(&self) -> nat {
        match self.prompts {
            Some(ps) => ps@.len(),
            None => 0,
        }
    }

    /// The option has no type evidence at all.
    pub open spec fn type_is_missing(&self) -> bool {
        self.declared_type is None && self.def_bool is None && self.def_tristate is None
    }

    /// `def_bool` entries stand beside a different explicit type.
    pub open spec fn def_bool_conflicts(&self) -> bool {
        self.def_bool is Some && match self.declared_type {
            Some(t) => t != OptionType::Bool,
            None => false,
        }
    }

    /// `def_tristate` entries stand beside a different explicit type.
    pub open spec fn def_tristate_conflicts(&self) -> bool {
        self.def_tristate is Some && match self.declared_type {
            Some(t) => t != OptionType::Tristate,
            None => false,
        }
    }

    /// Ranges stand on an option whose type is not numeric.
    pub open spec fn range_type_mismatch(&self) -> bool {
        self.ranges is Some && !numeric_type(self.option_type)
    }

    /// Attribute lists are kept only when non-empty: an absent list is
    /// `None`, never `Some` of an empty vector.
    pub open spec fn lists_wf(&self) -> bool {
        &&& (match self.prompts {
            Some(v) => v@.len() > 0,
            None => true,
        })
        &&& (match self.depends {
            Some(v) => v@.len() > 0,
            None => true,
        })
        &&& (match self.selects {
            Some(v) => v@.len() > 0,
            None => true,
        })
        &&& (match self.implies {
            Some(v) => v@.len() > 0,
            None => true,
        })
        &&& (match self.defaults {
            Some(v) => v@.len() > 0,
            None => true,
        })
        &&& (match self.def_bool {
            Some(v) => v@.len() > 0,
            None => true,
        })
        &&& (match self.def_tristate {
            Some(v) => v@.len() > 0,
            None => true,
        })
        &&& (match self.ranges {
            Some(v) => v@.len() > 0,
            None => true,
        })
    }
}

/// A diagnostic about the option `o`, whose declaration begins at `at`.
pub open spec fn option_diag(kind: DiagnosticKind, o: KOption, at: usize) -> Diagnostic {
    Diagnostic { kind, symbol: Some(o.name.name), pos: at }
}

/// The diagnostics recorded for a finished option, in order. `dup_type` and
/// `dup_help` say whether its body declared a type, or a help block, more
/// than once; everything else is read off the option itself.
pub open spec fn spec_option_diags(o: KOption, dup_type: bool, dup_help: bool, at: usize) -> Seq<Diagnostic> {
    one_if(o.type_is_missing(), option_diag(DiagnosticKind::MissingType, o, at)) + one_if(
        dup_type,
        option_diag(DiagnosticKind::DuplicateType, o, at),
    ) + one_if(o.prompt_count() > 1, option_diag(DiagnosticKind::MultiplePrompts, o, at)) + one_if(
        dup_help,
        option_diag(DiagnosticKind::DuplicateHelp, o, at),
    ) + one_if(o.def_bool_conflicts(), option_diag(DiagnosticKind::DefBoolConflict, o, at)) + one_if(
        o.def_tristate_conflicts(),
        option_diag(DiagnosticKind::DefTristateConflict, o, at),
    ) + one_if(o.range_type_mismatch(), option_diag(DiagnosticKind::RangeWrongType, o, at))
}

/// One diagnostic of an option never speaks of a choice: its kind is an
/// option-level one and its symbol is the option's name.
proof fn lemma_option_diag_elem(o: KOption, dup_type: bool, dup_help: bool, at: usize, i: int)
    requires
        0 <= i < spec_option_diags(o, dup_type, dup_help, at).len(),
    ensures
        spec_option_diags(o, dup_type, dup_help, at)[i].kind != DiagnosticKind::ChoiceMembersDiffer,
        spec_option_diags(o, dup_type, dup_help, at)[i].kind != DiagnosticKind::ChoiceMissingPrompt,
        spec_option_diags(o, dup_type, dup_help, at)[i].symbol == Some(o.name.name),
{
    let a1 = one_if(o.type_is_missing(), option_diag(DiagnosticKind::MissingType, o, at));
    let a2 = one_if(dup_type, option_diag(DiagnosticKind::DuplicateType, o, at));
    let a3 = one_if(o.prompt_count() > 1, option_diag(DiagnosticKind::MultiplePrompts, o, at));
    let a4 = one_if(dup_help, option_diag(DiagnosticKind::DuplicateHelp, o, at));
    let a5 = one_if(o.def_bool_conflicts(), option_diag(DiagnosticKind::DefBoolConflict, o, at));
    let a6 = one_if(
        o.def_tristate_conflicts(),
        option_diag(DiagnosticKind::DefTristateConflict, o, at),
    );
    let a7 = one_if(o.range_type_mismatch(), option_diag(DiagnosticKind::RangeWrongType, o, at));
    let s = spec_option_diags(o, dup_type, dup_help, at);
    assert(s == a1 + a2 + a3 + a4 + a5 + a6 + a7);
    let b2 = a1 + a2;
    let b3 = b2 + a3;
    let b4 = b3 + a4;
    let b5 = b4 + a5;
    let b6 = b5 + a6;
    assert(s == b6 + a7);
    if i < b6.len() {
        if i < b5.len() {
            if i < b4.len() {
                if i < b3.len() {
                    if i < b2.len() {
                        if i < a1.len() {
                            assert(s[i] == a1[i]);
                        } else {
                            assert(s[i] == a2[i - a1.len()]);
                        }
                    } else {
                        assert(s[i] == a3[i - b2.len()]);
                    }
                } else {
                    assert(s[i] == a4[i - b3.len()]);
                }
            } else {
                assert(s[i] == a5[i - b4.len()]);
            }
        } else {
            assert(s[i] == a6[i - b5.len()]);
        }
    } else {
        assert(s[i] == a7[i - b6.len()]);
    }
}

/// Diagnostics of an option never speak of a choice: their kinds are the
/// option-level ones and their symbol is the option's name.
pub proof fn lemma_option_diags_are_option_level(o: KOption, dup_type: bool, dup_help: bool, at: usize)
    ensures
        forall|i: int|
            0 <= i < spec_option_diags(o, dup_type, dup_help, at).len() ==> {
                let d = #[trigger] spec_option_diags(o, dup_type, dup_help, at)[i];
                d.kind != DiagnosticKind::ChoiceMembersDiffer && d.kind
                    != DiagnosticKind::ChoiceMissingPrompt && d.symbol == Some(o.name.name)
            },
{
    assert forall|i: int|
        0 <= i < spec_option_diags(o, dup_type, dup_help, at).len() implies {
        let d = #[trigger] spec_option_diags(o, dup_type, dup_help, at)[i];
        d.kind != DiagnosticKind::ChoiceMembersDiffer && d.kind
            != DiagnosticKind::ChoiceMissingPrompt && d.symbol == Some(o.name.name)
    } by {
        lemma_option_diag_elem(o, dup_type, dup_help, at, i);
    }
}

/// Compute the diagnostics of a finished option.
pub fn option_diagnostics(o: &KOption, dup_type: bool, dup_help: bool, at: usize) -> (d: Vec<Diagnostic>)
    ensures
        d@ == spec_option_diags(*o, dup_type, dup_help, at),
{
    let mut d: Vec<Diagnostic> = Vec::new();
    let missing = o.declared_type.is_none() && o.def_bool.is_none() && o.def_tristate.is_none();
    if missing {
        d.push(Diagnostic { kind: DiagnosticKind::MissingType, symbol: Some(o.name.name.clone()), pos: at });
    }
    if dup_type {
        d.push(Diagnostic { kind: DiagnosticKind::DuplicateType, symbol: Some(o.name.name.clone()), pos: at });
    }
    let many_prompts = match &o.prompts {
        Some(ps) => ps.len() > 1,
        None => false,
    };
    if many_prompts {
        d.push(Diagnostic { kind: DiagnosticKind::MultiplePrompts, symbol: Some(o.name.name.clone()), pos: at });
    }
    if dup_help {
        d.push(Diagnostic { kind: DiagnosticKind::DuplicateHelp, symbol: Some(o.name.name.clone()), pos: at });
    }
    let bool_conflict = match (&o.def_bool, &o.declared_type) {
        (Some(_), Some(t)) => *t != OptionType::Bool,
        _ => false,
    };
    if bool_conflict {
        d.push(Diagnostic { kind: DiagnosticKind::DefBoolConflict, symbol: Some(o.name.name.clone()), pos: at });
    }
    let tristate_conflict = match (&o.def_tristate, &o.declared_type) {
        (Some(_), Some(t)) => *t != OptionType::Tristate,
        _ => false,
    };
    if tristate_conflict {
        d.push(Diagnostic { kind: DiagnosticKind::DefTristateConflict, symbol: Some(o.name.name.clone()), pos: at });
    }
    let range_mismatch = o.ranges.is_some() && !is_numeric_type(o.option_type);
    if range_mismatch {
        d.push(Diagnostic { kind: DiagnosticKind::RangeWrongType, symbol: Some(o.name.name.clone()), pos: at });
    }
    proof {
        assert(d@ =~= spec_option_diags(*o, dup_type, dup_help, at));
    }
    d
}

impl KOption {
    /// Parse one `config`/`menuconfig` declaration: the keyword, the name,
    /// then one or more body lines chosen among the alternative productions
    /// (comments, blank lines, a type line with optional inline prompt,
    /// `def_bool`, `def_tristate`, `default`, `depends on`, `select`,
    /// `imply`, `range`, `help`, `prompt`, and the no-op `modules` marker).
    /// The declaration ends where no alternative matches. Every field of
    /// the result is tied to the input by `koption_node_ok`, and the
    /// returned diagnostics are exactly those of `spec_option_diags`.
    pub fn parse(input: &str, pos: usize) -> (r: Option<(KOption, Vec<Diagnostic>, usize)>)
        requires
            pos <= input@.len(),
        ensures
            match r {
                Some(p) => {
                    &&& pos < p.2 <= input@.len()
                    &&& koption_end(input@, pos as int) == Some(p.2 as int)
                    &&& lit_at(input@, space_end(input@, pos as int), "config"@) || lit_at(
                        input@,
                        space_end(input@, pos as int),
                        "menuconfig"@,
                    )
                    &&& koption_node_ok(p.0, input@, pos as int)
                    &&& (match koption_name_start(input@, pos as int) {
                        Some(s0) => p.1@ == spec_option_diags(
                            p.0,
                            koption_type_lines(input@, sym_end(input@, s0)) >= 2,
                            koption_help_blocks(input@, sym_end(input@, s0)) >= 2,
                            pos,
                        ),
                        None => false,
                    })
                },
                None => koption_end(input@, pos as int) is None,
            },
    {
        let n = input.unicode_len();
        let k = skip_space0(input, pos);
        let kw_end: usize = if let Some(e) = match_lit(input, k, "config") {
            e
        } else if let Some(e) = match_lit(input, k, "menuconfig") {
            e
        } else {
            return None;
        };
        if kw_end >= n {
            return None;
        }
        let sp = input.get_char(kw_end);
        if !(sp == ' ' || sp == '\t') {
            return None;
        }
        let s0 = skip_space0(input, kw_end);
        let (name, name_end) = match Symbol::parse(input, s0) {
            Some(p) => p,
            None => {
                return None;
            },
        };
        proof {
            reveal_strlit("config");
            reveal_strlit("menuconfig");
        }
        let mut cur = name_end;
        let mut found_any = false;
        proof {
            assert(koption_name_start(input@, pos as int) == Some(s0 as int));
            assert(name_end == sym_end(input@, s0 as int));
        }
        let mut declared: Option<OptionType> = None;
        let mut n_types: usize = 0;
        let mut inline_prompt: Option<Prompt> = None;
        let mut help: Option<Help> = None;
        let mut n_helps: usize = 0;
        let ghost mut tp_pos: Seq<int> = Seq::empty();
        let ghost mut db_pos: Seq<int> = Seq::empty();
        let ghost mut dt_pos: Seq<int> = Seq::empty();
        let ghost mut df_pos: Seq<int> = Seq::empty();
        let ghost mut dp_pos: Seq<int> = Seq::empty();
        let ghost mut sl_pos: Seq<int> = Seq::empty();
        let ghost mut im_pos: Seq<int> = Seq::empty();
        let ghost mut rg_pos: Seq<int> = Seq::empty();
        let ghost mut hp_pos: Seq<int> = Seq::empty();
        let ghost mut pp_pos: Seq<int> = Seq::empty();
        let mut prompts: Vec<Prompt> = Vec::new();
        let mut ranges: Vec<Range> = Vec::new();
        let mut depends: Vec<Dependency> = Vec::new();
        let mut selects: Vec<ReverseDependency> = Vec::new();
        let mut implies: Vec<ReverseDependency> = Vec::new();
        let mut defaults: Vec<Dependency> = Vec::new();
        let mut def_bool: Vec<Dependency> = Vec::new();
        let mut def_tristate: Vec<Dependency> = Vec::new();
        loop
            invariant
                pos < name_end <= cur <= n,
                n == input@.len(),
                found_any <==> name_end < cur,
                koption_body_end(input@, name_end as int) == koption_body_end(input@, cur as int),
                n_types <= cur - name_end,
                n_helps <= cur - name_end,
                koption_type_lines(input@, name_end as int) == n_types + koption_type_lines(
                    input@,
                    cur as int,
                ),
                koption_help_blocks(input@, name_end as int) == n_helps + koption_help_blocks(
                    input@,
                    cur as int,
                ),
                kopt_positions(input@, name_end as int, KoptProd::TypeLine) == tp_pos
                    + kopt_positions(input@, cur as int, KoptProd::TypeLine),
                kopt_positions(input@, name_end as int, KoptProd::DefBool) == db_pos
                    + kopt_positions(input@, cur as int, KoptProd::DefBool),
                kopt_positions(input@, name_end as int, KoptProd::DefTristate) == dt_pos
                    + kopt_positions(input@, cur as int, KoptProd::DefTristate),
                kopt_positions(input@, name_end as int, KoptProd::Default) == df_pos
                    + kopt_positions(input@, cur as int, KoptProd::Default),
                kopt_positions(input@, name_end as int, KoptProd::Depends) == dp_pos
                    + kopt_positions(input@, cur as int, KoptProd::Depends),
                kopt_positions(input@, name_end as int, KoptProd::Select) == sl_pos
                    + kopt_positions(input@, cur as int, KoptProd::Select),
                kopt_positions(input@, name_end as int, KoptProd::Imply) == im_pos
                    + kopt_positions(input@, cur as int, KoptProd::Imply),
                kopt_positions(input@, name_end as int, KoptProd::RangeProd) == rg_pos
                    + kopt_positions(input@, cur as int, KoptProd::RangeProd),
                kopt_positions(input@, name_end as int, KoptProd::HelpProd) == hp_pos
                    + kopt_positions(input@, cur as int, KoptProd::HelpProd),
                kopt_positions(input@, name_end as int, KoptProd::PromptProd) == pp_pos
                    + kopt_positions(input@, cur as int, KoptProd::PromptProd),
                def_bool@.len() == db_pos.len(),
                forall|i: int|
                    0 <= i < db_pos.len() ==> dependency_ok(
                        #[trigger] def_bool@[i],
                        "def_bool"@,
                        input@,
                        db_pos[i],
                    ),
                def_tristate@.len() == dt_pos.len(),
                forall|i: int|
                    0 <= i < dt_pos.len() ==> dependency_ok(
                        #[trigger] def_tristate@[i],
                        "def_tristate"@,
                        input@,
                        dt_pos[i],
                    ),
                defaults@.len() == df_pos.len(),
                forall|i: int|
                    0 <= i < df_pos.len() ==> dependency_ok(
                        #[trigger] defaults@[i],
                        "default"@,
                        input@,
                        df_pos[i],
                    ),
                depends@.len() == dp_pos.len(),
                forall|i: int|
                    0 <= i < dp_pos.len() ==> dependency_ok(
                        #[trigger] depends@[i],
                        "depends on"@,
                        input@,
                        dp_pos[i],
                    ),
                selects@.len() == sl_pos.len(),
                forall|i: int|
                    0 <= i < sl_pos.len() ==> rdep_ok(
                        #[trigger] selects@[i],
                        "select"@,
                        input@,
                        sl_pos[i],
                    ),
                implies@.len() == im_pos.len(),
                forall|i: int|
                    0 <= i < im_pos.len() ==> rdep_ok(
                        #[trigger] implies@[i],
                        "imply"@,
                        input@,
                        im_pos[i],
                    ),
                ranges@.len() == rg_pos.len(),
                forall|i: int|
                    0 <= i < rg_pos.len() ==> range_ok(
                        #[trigger] ranges@[i],
                        "range"@,
                        input@,
                        rg_pos[i],
                    ),
                prompts@.len() == pp_pos.len(),
                forall|i: int|
                    0 <= i < pp_pos.len() ==> prompt_ok(
                        #[trigger] prompts@[i],
                        "prompt"@,
                        input@,
                        pp_pos[i],
                    ),
                kopt_declared_ok(declared, input@, tp_pos),
                kopt_inline_ok(inline_prompt, input@, tp_pos),
                kopt_help_field_ok(help, input@, hp_pos),
            ensures
                pos < name_end <= cur <= n,
                found_any <==> name_end < cur,
                koption_body_end(input@, name_end as int) == cur,
                koption_type_lines(input@, name_end as int) == n_types,
                koption_help_blocks(input@, name_end as int) == n_helps,
                kopt_positions(input@, name_end as int, KoptProd::TypeLine) == tp_pos,
                kopt_positions(input@, name_end as int, KoptProd::DefBool) == db_pos,
                kopt_positions(input@, name_end as int, KoptProd::DefTristate) == dt_pos,
                kopt_positions(input@, name_end as int, KoptProd::Default) == df_pos,
                kopt_positions(input@, name_end as int, KoptProd::Depends) == dp_pos,
                kopt_positions(input@, name_end as int, KoptProd::Select) == sl_pos,
                kopt_positions(input@, name_end as int, KoptProd::Imply) == im_pos,
                kopt_positions(input@, name_end as int, KoptProd::RangeProd) == rg_pos,
                kopt_positions(input@, name_end as int, KoptProd::HelpProd) == hp_pos,
                kopt_positions(input@, name_end as int, KoptProd::PromptProd) == pp_pos,
                def_bool@.len() == db_pos.len(),
                forall|i: int|
                    0 <= i < db_pos.len() ==> dependency_ok(
                        #[trigger] def_bool@[i],
                        "def_bool"@,
                        input@,
                        db_pos[i],
                    ),
                def_tristate@.len() == dt_pos.len(),
                forall|i: int|
                    0 <= i < dt_pos.len() ==> dependency_ok(
                        #[trigger] def_tristate@[i],
                        "def_tristate"@,
                        input@,
                        dt_pos[i],
                    ),
                defaults@.len() == df_pos.len(),
                forall|i: int|
                    0 <= i < df_pos.len() ==> dependency_ok(
                        #[trigger] defaults@[i],
                        "default"@,
                        input@,
                        df_pos[i],
                    ),
                depends@.len() == dp_pos.len(),
                forall|i: int|
                    0 <= i < dp_pos.len() ==> dependency_ok(
                        #[trigger] depends@[i],
                        "depends on"@,
                        input@,
                        dp_pos[i],
                    ),
                selects@.len() == sl_pos.len(),
                forall|i: int|
                    0 <= i < sl_pos.len() ==> rdep_ok(
                        #[trigger] selects@[i],
                        "select"@,
                        input@,
                        sl_pos[i],
                    ),
                implies@.len() == im_pos.len(),
                forall|i: int|
                    0 <= i < im_pos.len() ==> rdep_ok(
                        #[trigger] implies@[i],
                        "imply"@,
                        input@,
                        im_pos[i],
                    ),
                ranges@.len() == rg_pos.len(),
                forall|i: int|
                    0 <= i < rg_pos.len() ==> range_ok(
                        #[trigger] ranges@[i],
                        "range"@,
                        input@,
                        rg_pos[i],
                    ),
                prompts@.len() == pp_pos.len(),
                forall|i: int|
                    0 <= i < pp_pos.len() ==> prompt_ok(
                        #[trigger] prompts@[i],
                        "prompt"@,
                        input@,
                        pp_pos[i],
                    ),
                kopt_declared_ok(declared, input@, tp_pos),
                kopt_inline_ok(inline_prompt, input@, tp_pos),
                kopt_help_field_ok(help, input@, hp_pos),
            decreases n - cur,
        {
            if let Some(e) = take_comment(input, cur) {
                proof {
                    lemma_kopt_collect_all(input@, cur as int, e as int, tp_pos, db_pos, dt_pos,
                        df_pos, dp_pos, sl_pos, im_pos, rg_pos, hp_pos, pp_pos);
                }
                cur = e;
                found_any = true;
                continue ;
            }
            if let Some(e) = take_line_ending(input, cur) {
                proof {
                    lemma_kopt_collect_all(input@, cur as int, e as int, tp_pos, db_pos, dt_pos,
                        df_pos, dp_pos, sl_pos, im_pos, rg_pos, hp_pos, pp_pos);
                }
                cur = e;
                found_any = true;
                continue ;
            }
            if let Some((t, e)) = OptionType::parse(input, cur) {
                n_types = n_types + 1;
                declared = Some(t);
                match Prompt::parse("", input, e) {
                    Some((p, e2)) => {
                        proof {
                            lemma_kopt_collect_all(input@, cur as int, e2 as int, tp_pos, db_pos,
                                dt_pos, df_pos, dp_pos, sl_pos, im_pos, rg_pos, hp_pos, pp_pos);
                            tp_pos = tp_pos.push(cur as int);
                        }
                        inline_prompt = Some(p);
                        cur = e2;
                    },
                    None => {
                        proof {
                            lemma_kopt_collect_all(input@, cur as int, e as int, tp_pos, db_pos,
                                dt_pos, df_pos, dp_pos, sl_pos, im_pos, rg_pos, hp_pos, pp_pos);
                            tp_pos = tp_pos.push(cur as int);
                        }
                        inline_prompt = None;
                        cur = e;
                    },
                }
                found_any = true;
                continue ;
            }
            if let Some((v, e)) = Dependency::parse("def_bool", input, cur) {
                proof {
                    lemma_kopt_collect_all(input@, cur as int, e as int, tp_pos, db_pos, dt_pos,
                        df_pos, dp_pos, sl_pos, im_pos, rg_pos, hp_pos, pp_pos);
                }
                proof {
                    db_pos = db_pos.push(cur as int);
                }
                def_bool.push(v);
                cur = e;
                found_any = true;
                continue ;
            }
            if let Some((v, e)) = Dependency::parse("def_tristate", input, cur) {
                proof {
                    lemma_kopt_collect_all(input@, cur as int, e as int, tp_pos, db_pos, dt_pos,
                        df_pos, dp_pos, sl_pos, im_pos, rg_pos, hp_pos, pp_pos);
                }
                proof {
                    dt_pos = dt_pos.push(cur as int);
                }
                def_tristate.push(v);
                cur = e;
                found_any = true;
                continue ;
            }
            if let Some((v, e)) = Dependency::parse("default", input, cur) {
                proof {
                    lemma_kopt_collect_all(input@, cur as int, e as int, tp_pos, db_pos, dt_pos,
                        df_pos, dp_pos, sl_pos, im_pos, rg_pos, hp_pos, pp_pos);
                }
                proof {
                    df_pos = df_pos.push(cur as int);
                }
                defaults.push(v);
                cur = e;
                found_any = true;
                continue ;
            }
            if let Some((v, e)) = Dependency::parse("depends on", input, cur) {
                proof {
                    lemma_kopt_collect_all(input@, cur as int, e as int, tp_pos, db_pos, dt_pos,
                        df_pos, dp_pos, sl_pos, im_pos, rg_pos, hp_pos, pp_pos);
                }
                proof {
                    dp_pos = dp_pos.push(cur as int);
                }
                depends.push(v);
                cur = e;
                found_any = true;
                continue ;
            }
            if let Some((v, e)) = ReverseDependency::parse("select", input, cur) {
                proof {
                    lemma_kopt_collect_all(input@, cur as int, e as int, tp_pos, db_pos, dt_pos,
                        df_pos, dp_pos, sl_pos, im_pos, rg_pos, hp_pos, pp_pos);
                }
                proof {
                    sl_pos = sl_pos.push(cur as int);
                }
                selects.push(v);
                cur = e;
                found_any = true;
                continue ;
            }
            if let Some((v, e)) = ReverseDependency::parse("imply", input, cur) {
                proof {
                    lemma_kopt_collect_all(input@, cur as int, e as int, tp_pos, db_pos, dt_pos,
                        df_pos, dp_pos, sl_pos, im_pos, rg_pos, hp_pos, pp_pos);
                }
                proof {
                    im_pos = im_pos.push(cur as int);
                }
                implies.push(v);
                cur = e;
                found_any = true;
                continue ;
            }
            if let Some((v, e)) = Range::parse("range", input, cur) {
                proof {
                    lemma_kopt_collect_all(input@, cur as int, e as int, tp_pos, db_pos, dt_pos,
                        df_pos, dp_pos, sl_pos, im_pos, rg_pos, hp_pos, pp_pos);
                }
                proof {
                    rg_pos = rg_pos.push(cur as int);
                }
                ranges.push(v);
                cur = e;
                found_any = true;
                continue ;
            }
            if let Some((h, e)) = Help::parse("help", input, cur) {
                proof {
                    lemma_kopt_collect_all(input@, cur as int, e as int, tp_pos, db_pos, dt_pos,
                        df_pos, dp_pos, sl_pos, im_pos, rg_pos, hp_pos, pp_pos);
                }
                proof {
                    hp_pos = hp_pos.push(cur as int);
                }
                n_helps = n_helps + 1;
                help = Some(h);
                cur = e;
                found_any = true;
                continue ;
            }
            if let Some((p, e)) = Prompt::parse("prompt", input, cur) {
                proof {
                    lemma_kopt_collect_all(input@, cur as int, e as int, tp_pos, db_pos, dt_pos,
                        df_pos, dp_pos, sl_pos, im_pos, rg_pos, hp_pos, pp_pos);
                }
                proof {
                    pp_pos = pp_pos.push(cur as int);
                }
                prompts.push(p);
                cur = e;
                found_any = true;
                continue ;
            }
            // the no-op `modules` marker line
            if cur < n {
                let c = input.get_char(cur);
                if c == ' ' || c == '\t' {
                    let a = skip_space0(input, cur);
                    if let Some(e) = match_lit(input, a, "modules") {
                        proof {
                            reveal_strlit("modules");
                            lemma_kopt_collect_all(input@, cur as int, e as int, tp_pos, db_pos,
                                dt_pos, df_pos, dp_pos, sl_pos, im_pos, rg_pos, hp_pos, pp_pos);
                        }
                        cur = e;
                        found_any = true;
                        continue ;
                    }
                }
            }
            proof {
                assert(tp_pos + Seq::<int>::empty() =~= tp_pos);
                assert(db_pos + Seq::<int>::empty() =~= db_pos);
                assert(dt_pos + Seq::<int>::empty() =~= dt_pos);
                assert(df_pos + Seq::<int>::empty() =~= df_pos);
                assert(dp_pos + Seq::<int>::empty() =~= dp_pos);
                assert(sl_pos + Seq::<int>::empty() =~= sl_pos);
                assert(im_pos + Seq::<int>::empty() =~= im_pos);
                assert(rg_pos + Seq::<int>::empty() =~= rg_pos);
                assert(hp_pos + Seq::<int>::empty() =~= hp_pos);
                assert(pp_pos + Seq::<int>::empty() =~= pp_pos);
            }
            break ;
        }
        if !found_any {
            return None;
        }
        let option_type = resolve_option_type(&declared, !def_bool.is_empty(),
            !def_tristate.is_empty());
        if let Some(p) = inline_prompt {
            prompts.push(p);
        }
        let o = KOption {
            name,
            option_type,
            declared_type: declared,
            help,
            prompts: if prompts.is_empty() {
                None
            } else {
                Some(prompts)
            },
            depends: if depends.is_empty() {
                None
            } else {
                Some(depends)
            },
            selects: if selects.is_empty() {
                None
            } else {
                Some(selects)
            },
            implies: if implies.is_empty() {
                None
            } else {
                Some(implies)
            },
            defaults: if defaults.is_empty() {
                None
            } else {
                Some(defaults)
            },
            def_bool: if def_bool.is_empty() {
                None
            } else {
                Some(def_bool)
            },
            def_tristate: if def_tristate.is_empty() {
                None
            } else {
                Some(def_tristate)
            },
            ranges: if ranges.is_empty() {
                None
            } else {
                Some(ranges)
            },
        };
        let d = option_diagnostics(&o, n_types >= 2, n_helps >= 2, pos);
        Some((o, d, cur))
    }
}

} // verus!

verus! {

/// One type line of an option or choice body: the type keyword after
/// optional spaces, then an optional inline prompt.
pub open spec fn opttype_line_end(s: Seq<char>, cur: int) -> Option<int> {
    match opttype_at(s, space_end(s, cur)) {
        Some(te) => match prompt_end(""@, s, te.1) {
            Some(e2) => Some(e2),
            None => Some(te.1),
        },
        None => None,
    }
}

/// The no-op `modules` marker line: at least one space, then the keyword.
pub open spec fn modules_end(s: Seq<char>, cur: int) -> Option<int> {
    if 0 <= cur < s.len() && space_char(s[cur]) {
        let a = space_end(s, cur);
        if lit_at(s, a, "modules"@) {
            Some(a + "modules"@.len())
        } else {
            None
        }
    } else {
        None
    }
}

/// One body production of an option, tried in the parser's order: comment,
/// blank lines, type line, `def_bool`, `def_tristate`, `default`,
/// `depends on`, `select`, `imply`, `range`, `help`, `prompt`, `modules`.
pub open spec fn koption_step(s: Seq<char>, cur: int) -> Option<int> {
    if comment_tok_end(s, cur) is Some {
        comment_tok_end(s, cur)
    } else if line_end_tok(s, cur) is Some {
        line_end_tok(s, cur)
    } else if opttype_line_end(s, cur) is Some {
        opttype_line_end(s, cur)
    } else if dependency_end("def_bool"@, s, cur) is Some {
        dependency_end("def_bool"@, s, cur)
    } else if dependency_end("def_tristate"@, s, cur) is Some {
        dependency_end("def_tristate"@, s, cur)
    } else if dependency_end("default"@, s, cur) is Some {
        dependency_end("default"@, s, cur)
    } else if dependency_end("depends on"@, s, cur) is Some {
        dependency_end("depends on"@, s, cur)
    } else if rdep_end("select"@, s, cur) is Some {
        rdep_end("select"@, s, cur)
    } else if rdep_end("imply"@, s, cur) is Some {
        rdep_end("imply"@, s, cur)
    } else if range_end("range"@, s, cur) is Some {
        range_end("range"@, s, cur)
    } else if help_result("help"@, s, cur) is Some {
        match help_result("help"@, s, cur) {
            Some(hr) => Some(hr.1),
            None => None,
        }
    } else if prompt_end("prompt"@, s, cur) is Some {
        prompt_end("prompt"@, s, cur)
    } else {
        modules_end(s, cur)
    }
}

/// The greedy run of option body productions from `cur` on.
pub open spec fn koption_body_end(s: Seq<char>, cur: int) -> int
    decreases s.len() - cur when 0 <= cur <= s.len()
{
    match koption_step(s, cur) {
        Some(e) => if cur < e <= s.len() {
            koption_body_end(s, e)
        } else {
            cur
        },
        None => cur,
    }
}

/// Where the option's name starts, when the `config`/`menuconfig` keyword
/// and its separating space stand at `pos`.
pub open spec fn koption_name_start(s: Seq<char>, pos: int) -> Option<int> {
    let k = space_end(s, pos);
    let kwe = if lit_at(s, k, "config"@) {
        Some(k + "config"@.len())
    } else if lit_at(s, k, "menuconfig"@) {
        Some(k + "menuconfig"@.len())
    } else {
        None
    };
    match kwe {
        Some(ke) => if ke < s.len() && space_char(s[ke]) {
            Some(space_end(s, ke))
        } else {
            None
        },
        None => None,
    }
}

/// How many type lines the greedy body run from `cur` takes: a production
/// counts when neither a comment nor a blank line matched first and a type
/// keyword stands there.
pub open spec fn koption_type_lines(s: Seq<char>, cur: int) -> nat
    decreases s.len() - cur when 0 <= cur <= s.len()
{
    match koption_step(s, cur) {
        Some(e) => if cur < e <= s.len() {
            (if comment_tok_end(s, cur) is None && line_end_tok(s, cur) is None
                && opttype_line_end(s, cur) is Some {
                1nat
            } else {
                0nat
            }) + koption_type_lines(s, e)
        } else {
            0
        },
        None => 0,
    }
}

/// How many help blocks the greedy body run from `cur` takes: a production
/// counts when every alternative before `help` failed and a help block
/// stands there.
pub open spec fn koption_help_blocks(s: Seq<char>, cur: int) -> nat
    decreases s.len() - cur when 0 <= cur <= s.len()
{
    match koption_step(s, cur) {
        Some(e) => if cur < e <= s.len() {
            (if comment_tok_end(s, cur) is None && line_end_tok(s, cur) is None
                && opttype_line_end(s, cur) is None && dependency_end("def_bool"@, s, cur) is None
                && dependency_end("def_tristate"@, s, cur) is None && dependency_end(
                "default"@,
                s,
                cur,
            ) is None && dependency_end("depends on"@, s, cur) is None && rdep_end(
                "select"@,
                s,
                cur,
            ) is None && rdep_end("imply"@, s, cur) is None && range_end("range"@, s, cur) is None
                && help_result("help"@, s, cur) is Some {
                1nat
            } else {
                0nat
            }) + koption_help_blocks(s, e)
        } else {
            0
        },
        None => 0,
    }
}

/// Where a whole `config`/`menuconfig` declaration standing at `pos` ends:
/// the keyword, a space, the name, then at least one body production.
/// `KOption::parse` returns `Some` exactly when this does.
pub open spec fn koption_end(s: Seq<char>, pos: int) -> Option<int> {
    match koption_name_start(s, pos) {
        Some(s0) => if sym_end(s, s0) > s0 {
            let ne = sym_end(s, s0);
            let be = koption_body_end(s, ne);
            if be > ne {
                Some(be)
            } else {
                None
            }
        } else {
            None
        },
        None => None,
    }
}

} // verus!

verus! {

// ---------------------------------------------------------------------------
// Content collectors: which body productions the greedy run takes, and at
// which positions. Together with the attribute payload predicates these tie
// every field of a parsed option to the input.
// ---------------------------------------------------------------------------

/// The kinds of option body production that populate a field.
pub ghost enum KoptProd {
    TypeLine,
    DefBool,
    DefTristate,
    Default,
    Depends,
    Select,
    Imply,
    RangeProd,
    HelpProd,
    PromptProd,
}

/// Whether the body production taken at `c` is of kind `k`: the
/// alternatives before it fail there and its own recognizer succeeds.
pub open spec fn kopt_takes(s: Seq<char>, c: int, k: KoptProd) -> bool {
    let no_skip = comment_tok_end(s, c) is None && line_end_tok(s, c) is None;
    let no_type = no_skip && opttype_line_end(s, c) is None;
    let no_db = no_type && dependency_end("def_bool"@, s, c) is None;
    let no_dt = no_db && dependency_end("def_tristate"@, s, c) is None;
    let no_def = no_dt && dependency_end("default"@, s, c) is None;
    let no_dep = no_def && dependency_end("depends on"@, s, c) is None;
    let no_sel = no_dep && rdep_end("select"@, s, c) is None;
    let no_imp = no_sel && rdep_end("imply"@, s, c) is None;
    let no_rng = no_imp && range_end("range"@, s, c) is None;
    let no_hlp = no_rng && help_result("help"@, s, c) is None;
    match k {
        KoptProd::TypeLine => no_skip && opttype_line_end(s, c) is Some,
        KoptProd::DefBool => no_type && dependency_end("def_bool"@, s, c) is Some,
        KoptProd::DefTristate => no_db && dependency_end("def_tristate"@, s, c) is Some,
        KoptProd::Default => no_dt && dependency_end("default"@, s, c) is Some,
        KoptProd::Depends => no_def && dependency_end("depends on"@, s, c) is Some,
        KoptProd::Select => no_dep && rdep_end("select"@, s, c) is Some,
        KoptProd::Imply => no_sel && rdep_end("imply"@, s, c) is Some,
        KoptProd::RangeProd => no_imp && range_end("range"@, s, c) is Some,
        KoptProd::HelpProd => no_rng && help_result("help"@, s, c) is Some,
        KoptProd::PromptProd => no_hlp && prompt_end("prompt"@, s, c) is Some,
    }
}

/// The positions, in order, at which the greedy body run from `cur` takes a
/// production of kind `k`.
pub open spec fn kopt_positions(s: Seq<char>, cur: int, k: KoptProd) -> Seq<int>
    decreases s.len() - cur when 0 <= cur <= s.len()
{
    match koption_step(s, cur) {
        Some(e) => if cur < e <= s.len() {
            (if kopt_takes(s, cur, k) {
                seq![cur]
            } else {
                Seq::<int>::empty()
            }) + kopt_positions(s, e, k)
        } else {
            Seq::empty()
        },
        None => Seq::empty(),
    }
}

/// A dependency list holds exactly the payloads of the productions taken at
/// `ps`, in order.
pub open spec fn deps_list_ok(
    l: Option<Vec<Dependency>>,
    kw: Seq<char>,
    s: Seq<char>,
    ps: Seq<int>,
) -> bool {
    let v = match l {
        Some(v) => v@,
        None => Seq::<Dependency>::empty(),
    };
    &&& v.len() == ps.len()
    &&& forall|i: int| 0 <= i < v.len() ==> dependency_ok(#[trigger] v[i], kw, s, ps[i])
}

/// A reverse-dependency list holds exactly the payloads of the productions
/// taken at `ps`, in order.
pub open spec fn rdeps_list_ok(
    l: Option<Vec<ReverseDependency>>,
    kw: Seq<char>,
    s: Seq<char>,
    ps: Seq<int>,
) -> bool {
    let v = match l {
        Some(v) => v@,
        None => Seq::<ReverseDependency>::empty(),
    };
    &&& v.len() == ps.len()
    &&& forall|i: int| 0 <= i < v.len() ==> rdep_ok(#[trigger] v[i], kw, s, ps[i])
}

/// A range list holds exactly the payloads of the productions taken at
/// `ps`, in order.
pub open spec fn ranges_list_ok(l: Option<Vec<Range>>, s: Seq<char>, ps: Seq<int>) -> bool {
    let v = match l {
        Some(v) => v@,
        None => Seq::<Range>::empty(),
    };
    &&& v.len() == ps.len()
    &&& forall|i: int| 0 <= i < v.len() ==> range_ok(#[trigger] v[i], "range"@, s, ps[i])
}

/// The help field holds the block of the last help production, or nothing
/// when none was taken.
pub open spec fn kopt_help_field_ok(h: Option<Help>, s: Seq<char>, hps: Seq<int>) -> bool {
    if hps.len() == 0 {
        h is None
    } else {
        match h {
            Some(hh) => help_ok(hh, "help"@, s, hps.last()),
            None => false,
        }
    }
}

/// The declared type is that of the last type line, or nothing when no
/// type line was taken.
pub open spec fn kopt_declared_ok(d: Option<OptionType>, s: Seq<char>, tps: Seq<int>) -> bool {
    if tps.len() == 0 {
        d is None
    } else {
        match opttype_at(s, space_end(s, tps.last())) {
            Some(te) => d == Some(te.0),
            None => false,
        }
    }
}

/// The last type line carries an inline prompt exactly when one stands
/// after its keyword.
pub open spec fn kopt_inline_prompt(s: Seq<char>, tps: Seq<int>) -> bool {
    tps.len() > 0 && (match opttype_at(s, space_end(s, tps.last())) {
        Some(te) => prompt_end(""@, s, te.1) is Some,
        None => false,
    })
}

/// The inline-prompt evidence of the last type line: present with that
/// line's prompt payload, or absent.
pub open spec fn kopt_inline_ok(ip: Option<Prompt>, s: Seq<char>, tps: Seq<int>) -> bool {
    match ip {
        Some(p) => kopt_inline_prompt(s, tps) && (match opttype_at(s, space_end(s, tps.last())) {
            Some(te) => prompt_ok(p, ""@, s, te.1),
            None => false,
        }),
        None => !kopt_inline_prompt(s, tps),
    }
}

/// A prompt sequence holds the payloads of the `prompt` productions in
/// order, followed by the last type line's inline prompt when one stands
/// there.
pub open spec fn prompts_seq_ok(v: Seq<Prompt>, s: Seq<char>, pps: Seq<int>, tps: Seq<int>) -> bool {
    let inline = kopt_inline_prompt(s, tps);
    &&& v.len() == pps.len() + (if inline {
        1int
    } else {
        0int
    })
    &&& forall|i: int| 0 <= i < pps.len() ==> prompt_ok(#[trigger] v[i], "prompt"@, s, pps[i])
    &&& (inline ==> (match opttype_at(s, space_end(s, tps.last())) {
        Some(te) => prompt_ok(v.last(), ""@, s, te.1),
        None => false,
    }))
}

/// The prompt list of an option, in the same shape.
pub open spec fn prompts_list_ok(
    l: Option<Vec<Prompt>>,
    s: Seq<char>,
    pps: Seq<int>,
    tps: Seq<int>,
) -> bool {
    prompts_seq_ok(
        match l {
            Some(v) => v@,
            None => Seq::<Prompt>::empty(),
        },
        s,
        pps,
        tps,
    )
}

/// Everything a parsed option's fields say about the input: the name, the
/// declared-type and inline-prompt evidence, every attribute list tied to
/// the productions its body run takes, the resolved type, and the
/// none-iff-empty list shape.
pub open spec fn koption_node_ok(o: KOption, s: Seq<char>, pos: int) -> bool {
    match koption_name_start(s, pos) {
        Some(s0) => {
            let ne = sym_end(s, s0);
            &&& o.name.name@ == s.subrange(s0, ne)
            &&& o.option_type == spec_resolved_type(
                o.declared_type,
                o.def_bool is Some,
                o.def_tristate is Some,
            )
            &&& o.lists_wf()
            &&& kopt_declared_ok(o.declared_type, s, kopt_positions(s, ne, KoptProd::TypeLine))
            &&& deps_list_ok(
                o.def_bool,
                "def_bool"@,
                s,
                kopt_positions(s, ne, KoptProd::DefBool),
            )
            &&& deps_list_ok(
                o.def_tristate,
                "def_tristate"@,
                s,
                kopt_positions(s, ne, KoptProd::DefTristate),
            )
            &&& deps_list_ok(o.defaults, "default"@, s, kopt_positions(s, ne, KoptProd::Default))
            &&& deps_list_ok(
                o.depends,
                "depends on"@,
                s,
                kopt_positions(s, ne, KoptProd::Depends),
            )
            &&& rdeps_list_ok(o.selects, "select"@, s, kopt_positions(s, ne, KoptProd::Select))
            &&& rdeps_list_ok(o.implies, "imply"@, s, kopt_positions(s, ne, KoptProd::Imply))
            &&& ranges_list_ok(o.ranges, s, kopt_positions(s, ne, KoptProd::RangeProd))
            &&& kopt_help_field_ok(o.help, s, kopt_positions(s, ne, KoptProd::HelpProd))
            &&& prompts_list_ok(
                o.prompts,
                s,
                kopt_positions(s, ne, KoptProd::PromptProd),
                kopt_positions(s, ne, KoptProd::TypeLine),
            )
        },
        None => false,
    }
}

/// One step of every content collector at once.
proof fn lemma_kopt_collect_all(
    s: Seq<char>,
    cur: int,
    e: int,
    tp: Seq<int>,
    db: Seq<int>,
    dt: Seq<int>,
    df: Seq<int>,
    dp: Seq<int>,
    sl: Seq<int>,
    im: Seq<int>,
    rg: Seq<int>,
    hp: Seq<int>,
    pp: Seq<int>,
)
    requires
        0 <= cur < e <= s.len(),
        koption_step(s, cur) == Some(e),
    ensures
        tp + kopt_positions(s, cur, KoptProd::TypeLine) == (if kopt_takes(s, cur, KoptProd::TypeLine) { tp.push(cur) } else { tp }) + kopt_positions(s, e, KoptProd::TypeLine),
        db + kopt_positions(s, cur, KoptProd::DefBool) == (if kopt_takes(s, cur, KoptProd::DefBool) { db.push(cur) } else { db }) + kopt_positions(s, e, KoptProd::DefBool),
        dt + kopt_positions(s, cur, KoptProd::DefTristate) == (if kopt_takes(s, cur, KoptProd::DefTristate) { dt.push(cur) } else { dt }) + kopt_positions(s, e, KoptProd::DefTristate),
        df + kopt_positions(s, cur, KoptProd::Default) == (if kopt_takes(s, cur, KoptProd::Default) { df.push(cur) } else { df }) + kopt_positions(s, e, KoptProd::Default),
        dp + kopt_positions(s, cur, KoptProd::Depends) == (if kopt_takes(s, cur, KoptProd::Depends) { dp.push(cur) } else { dp }) + kopt_positions(s, e, KoptProd::Depends),
        sl + kopt_positions(s, cur, KoptProd::Select) == (if kopt_takes(s, cur, KoptProd::Select) { sl.push(cur) } else { sl }) + kopt_positions(s, e, KoptProd::Select),
        im + kopt_positions(s, cur, KoptProd::Imply) == (if kopt_takes(s, cur, KoptProd::Imply) { im.push(cur) } else { im }) + kopt_positions(s, e, KoptProd::Imply),
        rg + kopt_positions(s, cur, KoptProd::RangeProd) == (if kopt_takes(s, cur, KoptProd::RangeProd) { rg.push(cur) } else { rg }) + kopt_positions(s, e, KoptProd::RangeProd),
        hp + kopt_positions(s, cur, KoptProd::HelpProd) == (if kopt_takes(s, cur, KoptProd::HelpProd) { hp.push(cur) } else { hp }) + kopt_positions(s, e, KoptProd::HelpProd),
        pp + kopt_positions(s, cur, KoptProd::PromptProd) == (if kopt_takes(s, cur, KoptProd::PromptProd) { pp.push(cur) } else { pp }) + kopt_positions(s, e, KoptProd::PromptProd),
{
    lemma_kopt_collect_step(s, cur, e, KoptProd::TypeLine, tp);
    lemma_kopt_collect_step(s, cur, e, KoptProd::DefBool, db);
    lemma_kopt_collect_step(s, cur, e, KoptProd::DefTristate, dt);
    lemma_kopt_collect_step(s, cur, e, KoptProd::Default, df);
    lemma_kopt_collect_step(s, cur, e, KoptProd::Depends, dp);
    lemma_kopt_collect_step(s, cur, e, KoptProd::Select, sl);
    lemma_kopt_collect_step(s, cur, e, KoptProd::Imply, im);
    lemma_kopt_collect_step(s, cur, e, KoptProd::RangeProd, rg);
    lemma_kopt_collect_step(s, cur, e, KoptProd::HelpProd, hp);
    lemma_kopt_collect_step(s, cur, e, KoptProd::PromptProd, pp);
}

/// One step of one content collector: taking the production at `cur`
/// extends exactly the collector whose kind was taken there.
proof fn lemma_kopt_collect_step(s: Seq<char>, cur: int, e: int, k: KoptProd, pre: Seq<int>)
    requires
        0 <= cur < e <= s.len(),
        koption_step(s, cur) == Some(e),
    ensures
        pre + kopt_positions(s, cur, k) == (if kopt_takes(s, cur, k) {
            pre.push(cur)
        } else {
            pre
        }) + kopt_positions(s, e, k),
{
    if kopt_takes(s, cur, k) {
        assert(pre + (seq![cur] + kopt_positions(s, e, k)) =~= pre.push(cur) + kopt_positions(
            s,
            e,
            k,
        ));
    } else {
        assert(pre + (Seq::<int>::empty() + kopt_positions(s, e, k)) =~= pre + kopt_positions(
            s,
            e,
            k,
        ));
    }
}

} // verus!
