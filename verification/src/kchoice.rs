//! The `choice`/`endchoice` group: a mutually exclusive set of member
//! options, with its own prompts, defaults and dependencies. Its type is
//! cross-checked against its members' resolved types.
use vstd::prelude::*;
use crate::util::{comment_tok_end, line_end_tok, lit_at, match_lit, skip_space0, space_end,
    take_comment, take_line_ending};
use crate::token::OptionType;
use crate::attrs::{dependency_end, dependency_ok, help_result, prompt_end, prompt_ok, Dependency,
    Help, Prompt};
use crate::token::opttype_at;
use crate::koption::{deps_list_ok, kopt_declared_ok, kopt_help_field_ok, kopt_inline_ok,
    koption_end, koption_node_ok, opttype_line_end, prompts_seq_ok, KOption,
    lemma_option_diags_are_option_level, spec_option_diags};
use crate::kcommentblock::{kcommentblock_end, KCommentBlock};
use crate::diag::{resolve_choice_type, spec_resolved_choice_type, Diagnostic, DiagnosticKind};

verus! {

/// One `choice` ... `endchoice` group.
#[derive(Debug, PartialEq)]
pub struct KChoice {
    /// The resolved type (see `spec_resolved_choice_type`).
    pub option_type: OptionType,
    /// The explicitly declared type, when a type keyword was seen.
    pub declared_type: Option<OptionType>,
    /// Prompts, from `prompt` lines and the inline prompt of a type line.
    pub prompts: Vec<Prompt>,
    /// The member options, in source order.
    pub options: Vec<KOption>,
    /// Whether the `optional` marker was present.
    pub optional: bool,
    /// `default` entries.
    pub defaults: Option<Vec<Dependency>>,
    /// `depends on` entries.
    pub depends: Option<Vec<Dependency>>,
    /// The help block, when present.
    pub help: Option<Help>,
}

impl KChoice {
    /// Attribute lists are kept only when non-empty: an absent list is
    /// `None`, never `Some` of an empty vector.
    pub open spec fn lists_wf(&self) -> bool {
        &&& (match self.defaults {
            Some(v) => v@.len() > 0,
            None => true,
        })
        &&& (match self.depends {
            Some(v) => v@.len() > 0,
            None => true,
        })
    }
}

/// The resolved types of a sequence of options, in order.
pub open spec fn member_types_of(options: Seq<KOption>) -> Seq<OptionType> {
    options.map_values(|o: KOption| o.option_type)
}

/// The members' resolved types, in order.
pub open spec fn choice_member_types(c: KChoice) -> Seq<OptionType> {
    member_types_of(c.options@)
}

/// Some member's resolved type disagrees with the choice's resolved type.
pub open spec fn choice_members_differ(c: KChoice) -> bool {
    exists|i: int| 0 <= i < c.options@.len() && c.options@[i].option_type != c.option_type
}

/// A diagnostic about a choice, which has no name of its own; `at` is
/// where its `choice` keyword's line begins.
pub open spec fn choice_diag(kind: DiagnosticKind, at: usize) -> Diagnostic {
    Diagnostic { kind, symbol: None, pos: at }
}

impl KChoice {
    /// Parse a `choice` group: the keyword, then one or more body lines
    /// (blank lines, comments, the `optional` marker, help, full member
    /// option declarations, comment blocks, `prompt`, `default`,
    /// `depends on`, or a type line with optional inline prompt), closed by
    /// `endchoice`. Every field of the result is tied to the input by
    /// `kchoice_node_ok`. Member diagnostics are passed through; the
    /// returned list ends with the choice's own: a member-type
    /// disagreement, and a missing prompt, each present exactly when its
    /// condition holds.
    pub fn parse(input: &str, pos: usize) -> (r: Option<(KChoice, Vec<Diagnostic>, usize)>)
        requires
            pos <= input@.len(),
        ensures
            match r {
                Some(p) => {
                    &&& pos < p.2 <= input@.len()
                    &&& kchoice_end(input@, pos as int) == Some(p.2 as int)
                    &&& lit_at(input@, space_end(input@, pos as int), "choice"@)
                    &&& kchoice_node_ok(p.0, input@, pos as int)
                    &&& p.1@.contains(choice_diag(DiagnosticKind::ChoiceMembersDiffer, pos))
                        <==> choice_members_differ(p.0)
                    &&& p.1@.contains(choice_diag(DiagnosticKind::ChoiceMissingPrompt, pos)) <==> p
                        .0.prompts@.len() == 0
                },
                None => kchoice_end(input@, pos as int) is None,
            },
    {
        let n = input.unicode_len();
        let k = skip_space0(input, pos);
        let kw_end = match match_lit(input, k, "choice") {
            Some(e) => e,
            None => {
                return None;
            },
        };
        proof {
            reveal_strlit("choice");
        }
        let mut cur = kw_end;
        let mut found_any = false;
        let mut optional = false;
        let ghost mut op_pos: Seq<int> = Seq::empty();
        let ghost mut hp_pos: Seq<int> = Seq::empty();
        let ghost mut mem_pos: Seq<int> = Seq::empty();
        let ghost mut pp_pos: Seq<int> = Seq::empty();
        let ghost mut df_pos: Seq<int> = Seq::empty();
        let ghost mut dp_pos: Seq<int> = Seq::empty();
        let ghost mut tp_pos: Seq<int> = Seq::empty();
        let mut declared: Option<OptionType> = None;
        let mut inline_prompt: Option<Prompt> = None;
        let mut help: Option<Help> = None;
        let mut prompts: Vec<Prompt> = Vec::new();
        let mut defaults: Vec<Dependency> = Vec::new();
        let mut depends: Vec<Dependency> = Vec::new();
        let mut options: Vec<KOption> = Vec::new();
        let mut mtypes: Vec<OptionType> = Vec::new();
        let mut diags: Vec<Diagnostic> = Vec::new();
        loop
            invariant
                pos < kw_end <= cur <= n,
                n == input@.len(),
                found_any <==> kw_end < cur,
                kchoice_body_end(input@, kw_end as int) == kchoice_body_end(input@, cur as int),
                mtypes@ == member_types_of(options@),
                kchoice_positions(input@, kw_end as int, KchProd::Optional) == op_pos
                    + kchoice_positions(input@, cur as int, KchProd::Optional),
                kchoice_positions(input@, kw_end as int, KchProd::HelpProd) == hp_pos
                    + kchoice_positions(input@, cur as int, KchProd::HelpProd),
                kchoice_positions(input@, kw_end as int, KchProd::Member) == mem_pos
                    + kchoice_positions(input@, cur as int, KchProd::Member),
                kchoice_positions(input@, kw_end as int, KchProd::PromptProd) == pp_pos
                    + kchoice_positions(input@, cur as int, KchProd::PromptProd),
                kchoice_positions(input@, kw_end as int, KchProd::Default) == df_pos
                    + kchoice_positions(input@, cur as int, KchProd::Default),
                kchoice_positions(input@, kw_end as int, KchProd::Depends) == dp_pos
                    + kchoice_positions(input@, cur as int, KchProd::Depends),
                kchoice_positions(input@, kw_end as int, KchProd::TypeLine) == tp_pos
                    + kchoice_positions(input@, cur as int, KchProd::TypeLine),
                optional == (op_pos.len() > 0),
                options@.len() == mem_pos.len(),
                forall|i: int|
                    0 <= i < mem_pos.len() ==> koption_node_ok(
                        #[trigger] options@[i],
                        input@,
                        mem_pos[i],
                    ),
                defaults@.len() == df_pos.len(),
                forall|i: int|
                    0 <= i < df_pos.len() ==> dependency_ok(
                        #[trigger] defaults@[i],
                        "default"@,
                        input@,
                        df_pos[i],
                    ),
                depends@.len() == dp_pos.len(),
                forall|i: int|
                    0 <= i < dp_pos.len() ==> dependency_ok(
                        #[trigger] depends@[i],
                        "depends on"@,
                        input@,
                        dp_pos[i],
                    ),
                prompts@.len() == pp_pos.len(),
                forall|i: int|
                    0 <= i < pp_pos.len() ==> prompt_ok(
                        #[trigger] prompts@[i],
                        "prompt"@,
                        input@,
                        pp_pos[i],
                    ),
                kopt_declared_ok(declared, input@, tp_pos),
                kopt_inline_ok(inline_prompt, input@, tp_pos),
                kopt_help_field_ok(help, input@, hp_pos),
                forall|i: int|
                    0 <= i < diags@.len() ==> #[trigger] diags@[i].kind
                        != DiagnosticKind::ChoiceMembersDiffer && diags@[i].kind
                        != DiagnosticKind::ChoiceMissingPrompt,
            ensures
                pos < kw_end <= cur <= n,
                found_any <==> kw_end < cur,
                kchoice_body_end(input@, kw_end as int) == cur,
                kchoice_positions(input@, kw_end as int, KchProd::Optional) == op_pos,
                kchoice_positions(input@, kw_end as int, KchProd::HelpProd) == hp_pos,
                kchoice_positions(input@, kw_end as int, KchProd::Member) == mem_pos,
                kchoice_positions(input@, kw_end as int, KchProd::PromptProd) == pp_pos,
                kchoice_positions(input@, kw_end as int, KchProd::Default) == df_pos,
                kchoice_positions(input@, kw_end as int, KchProd::Depends) == dp_pos,
                kchoice_positions(input@, kw_end as int, KchProd::TypeLine) == tp_pos,
                optional == (op_pos.len() > 0),
                options@.len() == mem_pos.len(),
                forall|i: int|
                    0 <= i < mem_pos.len() ==> koption_node_ok(
                        #[trigger] options@[i],
                        input@,
                        mem_pos[i],
                    ),
                defaults@.len() == df_pos.len(),
                forall|i: int|
                    0 <= i < df_pos.len() ==> dependency_ok(
                        #[trigger] defaults@[i],
                        "default"@,
                        input@,
                        df_pos[i],
                    ),
                depends@.len() == dp_pos.len(),
                forall|i: int|
                    0 <= i < dp_pos.len() ==> dependency_ok(
                        #[trigger] depends@[i],
                        "depends on"@,
                        input@,
                        dp_pos[i],
                    ),
                prompts@.len() == pp_pos.len(),
                forall|i: int|
                    0 <= i < pp_pos.len() ==> prompt_ok(
                        #[trigger] prompts@[i],
                        "prompt"@,
                        input@,
                        pp_pos[i],
                    ),
                kopt_declared_ok(declared, input@, tp_pos),
                kopt_inline_ok(inline_prompt, input@, tp_pos),
                kopt_help_field_ok(help, input@, hp_pos),
                mtypes@ == member_types_of(options@),
                forall|i: int|
                    0 <= i < diags@.len() ==> #[trigger] diags@[i].kind
                        != DiagnosticKind::ChoiceMembersDiffer && diags@[i].kind
                        != DiagnosticKind::ChoiceMissingPrompt,
            decreases n - cur,
        {
            if let Some(e) = take_line_ending(input, cur) {
                proof {
                    lemma_kch_collect_all(input@, cur as int, e as int, op_pos, hp_pos, mem_pos,
                        pp_pos, df_pos, dp_pos, tp_pos);
                }
                cur = e;
                found_any = true;
                continue ;
            }
            if let Some(e) = take_comment(input, cur) {
                proof {
                    lemma_kch_collect_all(input@, cur as int, e as int, op_pos, hp_pos, mem_pos,
                        pp_pos, df_pos, dp_pos, tp_pos);
                }
                cur = e;
                found_any = true;
                continue ;
            }
            {
                let k2 = skip_space0(input, cur);
                if let Some(e) = match_lit(input, k2, "optional") {
                    proof {
                        reveal_strlit("optional");
                        lemma_kch_collect_all(input@, cur as int, e as int, op_pos, hp_pos,
                            mem_pos, pp_pos, df_pos, dp_pos, tp_pos);
                        op_pos = op_pos.push(cur as int);
                    }
                    optional = true;
                    cur = e;
                    found_any = true;
                    continue ;
                }
            }
            if let Some((h, e)) = Help::parse("help", input, cur) {
                proof {
                    lemma_kch_collect_all(input@, cur as int, e as int, op_pos, hp_pos, mem_pos,
                        pp_pos, df_pos, dp_pos, tp_pos);
                }
                proof {
                    hp_pos = hp_pos.push(cur as int);
                }
                help = Some(h);
                cur = e;
                found_any = true;
                continue ;
            }
            if let Some((o, od, e)) = KOption::parse(input, cur) {
                proof {
                    let (dt, dh) = choose|dt: bool, dh: bool|
                        od@ == spec_option_diags(o, dt, dh, cur);
                    lemma_option_diags_are_option_level(o, dt, dh, cur);
                    assert(member_types_of(options@.push(o)) =~= mtypes@.push(o.option_type));
                    lemma_kch_collect_all(input@, cur as int, e as int, op_pos, hp_pos, mem_pos,
                        pp_pos, df_pos, dp_pos, tp_pos);
                    mem_pos = mem_pos.push(cur as int);
                }
                mtypes.push(o.option_type);
                let mut od_moved = od;
                diags.append(&mut od_moved);
                options.push(o);
                cur = e;
                found_any = true;
                continue ;
            }
            if let Some((_cb, e)) = KCommentBlock::parse(input, cur) {
                // a choice keeps no comment-block nodes of its own
                proof {
                    lemma_kch_collect_all(input@, cur as int, e as int, op_pos, hp_pos, mem_pos,
                        pp_pos, df_pos, dp_pos, tp_pos);
                }
                cur = e;
                found_any = true;
                continue ;
            }
            if let Some((p, e)) = Prompt::parse("prompt", input, cur) {
                proof {
                    lemma_kch_collect_all(input@, cur as int, e as int, op_pos, hp_pos, mem_pos,
                        pp_pos, df_pos, dp_pos, tp_pos);
                }
                proof {
                    pp_pos = pp_pos.push(cur as int);
                }
                prompts.push(p);
                cur = e;
                found_any = true;
                continue ;
            }
            if let Some((v, e)) = Dependency::parse("default", input, cur) {
                proof {
                    lemma_kch_collect_all(input@, cur as int, e as int, op_pos, hp_pos, mem_pos,
                        pp_pos, df_pos, dp_pos, tp_pos);
                }
                proof {
                    df_pos = df_pos.push(cur as int);
                }
                defaults.push(v);
                cur = e;
                found_any = true;
                continue ;
            }
            if let Some((v, e)) = Dependency::parse("depends on", input, cur) {
                proof {
                    lemma_kch_collect_all(input@, cur as int, e as int, op_pos, hp_pos, mem_pos,
                        pp_pos, df_pos, dp_pos, tp_pos);
                }
                proof {
                    dp_pos = dp_pos.push(cur as int);
                }
                depends.push(v);
                cur = e;
                found_any = true;
                continue ;
            }
            if let Some((t, e)) = OptionType::parse(input, cur) {
                declared = Some(t);
                match Prompt::parse("", input, e) {
                    Some((p, e2)) => {
                        proof {
                            lemma_kch_collect_all(input@, cur as int, e2 as int, op_pos, hp_pos,
                                mem_pos, pp_pos, df_pos, dp_pos, tp_pos);
                            tp_pos = tp_pos.push(cur as int);
                        }
                        inline_prompt = Some(p);
                        cur = e2;
                    },
                    None => {
                        proof {
                            lemma_kch_collect_all(input@, cur as int, e as int, op_pos, hp_pos,
                                mem_pos, pp_pos, df_pos, dp_pos, tp_pos);
                            tp_pos = tp_pos.push(cur as int);
                        }
                        inline_prompt = None;
                        cur = e;
                    },
                }
                found_any = true;
                continue ;
            }
            proof {
                assert(op_pos + Seq::<int>::empty() =~= op_pos);
                assert(hp_pos + Seq::<int>::empty() =~= hp_pos);
                assert(mem_pos + Seq::<int>::empty() =~= mem_pos);
                assert(pp_pos + Seq::<int>::empty() =~= pp_pos);
                assert(df_pos + Seq::<int>::empty() =~= df_pos);
                assert(dp_pos + Seq::<int>::empty() =~= dp_pos);
                assert(tp_pos + Seq::<int>::empty() =~= tp_pos);
            }
            break ;
        }
        if !found_any {
            return None;
        }
        let k3 = skip_space0(input, cur);
        let close_end = match match_lit(input, k3, "endchoice") {
            Some(e) => e,
            None => {
                return None;
            },
        };
        proof {
            reveal_strlit("endchoice");
        }
        let end = skip_space0(input, close_end);
        let option_type = resolve_choice_type(&declared, &mtypes);
        if let Some(p) = inline_prompt {
            prompts.push(p);
        }
        // whether some member disagrees with the resolved type
        let mut differ = false;
        let mut i: usize = 0;
        while i < options.len()
            invariant
                0 <= i <= options@.len(),
                differ == exists|j: int|
                    0 <= j < i && options@[j].option_type != option_type,
            decreases options@.len() - i,
        {
            if !(options[i].option_type == option_type) {
                differ = true;
            }
            i = i + 1;
        }
        let has_prompts = prompts.len() > 0;
        let c = KChoice {
            option_type,
            declared_type: declared,
            prompts,
            options,
            optional,
            defaults: if defaults.is_empty() {
                None
            } else {
                Some(defaults)
            },
            depends: if depends.is_empty() {
                None
            } else {
                Some(depends)
            },
            help,
        };
        let ghost pre = diags@;
        if differ {
            diags.push(Diagnostic { kind: DiagnosticKind::ChoiceMembersDiffer, symbol: None,
                pos });
        }
        let ghost mid = diags@;
        if !has_prompts {
            diags.push(Diagnostic { kind: DiagnosticKind::ChoiceMissingPrompt, symbol: None,
                pos });
        }
        proof {
            let md = choice_diag(DiagnosticKind::ChoiceMembersDiffer, pos);
            let mp = choice_diag(DiagnosticKind::ChoiceMissingPrompt, pos);
            assert forall|i: int| 0 <= i < pre.len() implies #[trigger] pre[i].kind
                != DiagnosticKind::ChoiceMembersDiffer && pre[i].kind
                != DiagnosticKind::ChoiceMissingPrompt by {}
            if differ {
                assert(diags@[pre.len() as int] == md);
                assert(diags@.contains(md));
            } else {
                assert forall|i: int| 0 <= i < diags@.len() implies diags@[i] != md by {
                    if i < pre.len() {
                        assert(diags@[i] == pre[i]);
                        assert(pre[i].kind != DiagnosticKind::ChoiceMembersDiffer);
                    } else {
                        assert(diags@[i] == mp);
                    }
                }
                assert(!diags@.contains(md));
            }
            if !has_prompts {
                assert(diags@[mid.len() as int] == mp);
                assert(diags@.contains(mp));
            } else {
                assert forall|i: int| 0 <= i < diags@.len() implies diags@[i] != mp by {
                    if i < pre.len() {
                        assert(diags@[i] == pre[i]);
                        assert(pre[i].kind != DiagnosticKind::ChoiceMissingPrompt);
                    } else {
                        assert(diags@[i] == md);
                    }
                }
                assert(!diags@.contains(mp));
            }
            assert(choice_members_differ(c) == differ);
        }
        Some((c, diags, end))
    }
}

} // verus!

verus! {

/// The `optional` marker line: the keyword after optional spaces.
pub open spec fn optional_end(s: Seq<char>, cur: int) -> Option<int> {
    let k2 = space_end(s, cur);
    if lit_at(s, k2, "optional"@) {
        Some(k2 + "optional"@.len())
    } else {
        None
    }
}

/// One body production of a choice, tried in the parser's order: blank
/// lines, comment, the `optional` marker, help, a member option, a comment
/// block, `prompt`, `default`, `depends on`, or a type line.
pub open spec fn kchoice_step(s: Seq<char>, cur: int) -> Option<int> {
    if line_end_tok(s, cur) is Some {
        line_end_tok(s, cur)
    } else if comment_tok_end(s, cur) is Some {
        comment_tok_end(s, cur)
    } else if optional_end(s, cur) is Some {
        optional_end(s, cur)
    } else if help_result("help"@, s, cur) is Some {
        match help_result("help"@, s, cur) {
            Some(hr) => Some(hr.1),
            None => None,
        }
    } else if koption_end(s, cur) is Some {
        koption_end(s, cur)
    } else if kcommentblock_end(s, cur) is Some {
        kcommentblock_end(s, cur)
    } else if prompt_end("prompt"@, s, cur) is Some {
        prompt_end("prompt"@, s, cur)
    } else if dependency_end("default"@, s, cur) is Some {
        dependency_end("default"@, s, cur)
    } else if dependency_end("depends on"@, s, cur) is Some {
        dependency_end("depends on"@, s, cur)
    } else {
        opttype_line_end(s, cur)
    }
}

/// The greedy run of choice body productions from `cur` on.
pub open spec fn kchoice_body_end(s: Seq<char>, cur: int) -> int
    decreases s.len() - cur when 0 <= cur <= s.len()
{
    match kchoice_step(s, cur) {
        Some(e) => if cur < e <= s.len() {
            kchoice_body_end(s, e)
        } else {
            cur
        },
        None => cur,
    }
}

/// Where a whole `choice` group standing at `pos` ends: the keyword, at
/// least one body production, `endchoice`, and its trailing spaces.
/// `KChoice::parse` returns `Some` exactly when this does.
pub open spec fn kchoice_end(s: Seq<char>, pos: int) -> Option<int> {
    let k = space_end(s, pos);
    if lit_at(s, k, "choice"@) {
        let kwe = k + "choice"@.len();
        let be = kchoice_body_end(s, kwe);
        if be > kwe {
            let k3 = space_end(s, be);
            if lit_at(s, k3, "endchoice"@) {
                Some(space_end(s, k3 + "endchoice"@.len()))
            } else {
                None
            }
        } else {
            None
        }
    } else {
        None
    }
}

} // verus!

verus! {

/// The kinds of choice body production that populate a field.
pub ghost enum KchProd {
    Optional,
    HelpProd,
    Member,
    PromptProd,
    Default,
    Depends,
    TypeLine,
}

/// Whether the body production taken at `c` is of kind `k`: the
/// alternatives before it fail there and its own recognizer succeeds.
pub open spec fn kch_takes(s: Seq<char>, c: int, k: KchProd) -> bool {
    let no_skip = line_end_tok(s, c) is None && comment_tok_end(s, c) is None;
    let no_opt = no_skip && optional_end(s, c) is None;
    let no_hlp = no_opt && help_result("help"@, s, c) is None;
    let no_mem = no_hlp && koption_end(s, c) is None;
    let no_cb = no_mem && kcommentblock_end(s, c) is None;
    let no_pr = no_cb && prompt_end("prompt"@, s, c) is None;
    let no_df = no_pr && dependency_end("default"@, s, c) is None;
    let no_dp = no_df && dependency_end("depends on"@, s, c) is None;
    match k {
        KchProd::Optional => no_skip && optional_end(s, c) is Some,
        KchProd::HelpProd => no_opt && help_result("help"@, s, c) is Some,
        KchProd::Member => no_hlp && koption_end(s, c) is Some,
        KchProd::PromptProd => no_cb && prompt_end("prompt"@, s, c) is Some,
        KchProd::Default => no_pr && dependency_end("default"@, s, c) is Some,
        KchProd::Depends => no_df && dependency_end("depends on"@, s, c) is Some,
        KchProd::TypeLine => no_dp && opttype_line_end(s, c) is Some,
    }
}

/// The positions, in order, at which the greedy choice body run from `cur`
/// takes a production of kind `k`.
pub open spec fn kchoice_positions(s: Seq<char>, cur: int, k: KchProd) -> Seq<int>
    decreases s.len() - cur when 0 <= cur <= s.len()
{
    match kchoice_step(s, cur) {
        Some(e) => if cur < e <= s.len() {
            (if kch_takes(s, cur, k) {
                seq![cur]
            } else {
                Seq::<int>::empty()
            }) + kchoice_positions(s, e, k)
        } else {
            Seq::empty()
        },
        None => Seq::empty(),
    }
}

/// The member list holds exactly the options parsed at `ps`, in order.
pub open spec fn members_list_ok(v: Seq<KOption>, s: Seq<char>, ps: Seq<int>) -> bool {
    &&& v.len() == ps.len()
    &&& forall|i: int| 0 <= i < v.len() ==> koption_node_ok(#[trigger] v[i], s, ps[i])
}

/// Everything a parsed choice's fields say about the input: the declared
/// type and inline prompt of the last type line, the member options each
/// tied to their own production, the `optional` marker, the attribute
/// lists, the resolved type, and the none-iff-empty list shape.
pub open spec fn kchoice_node_ok(c: KChoice, s: Seq<char>, pos: int) -> bool {
    let k = space_end(s, pos);
    if lit_at(s, k, "choice"@) {
        let kwe = k + "choice"@.len();
        &&& c.option_type == spec_resolved_choice_type(c.declared_type, choice_member_types(c))
        &&& c.lists_wf()
        &&& kopt_declared_ok(c.declared_type, s, kchoice_positions(s, kwe, KchProd::TypeLine))
        &&& members_list_ok(c.options@, s, kchoice_positions(s, kwe, KchProd::Member))
        &&& c.optional == (kchoice_positions(s, kwe, KchProd::Optional).len() > 0)
        &&& deps_list_ok(c.defaults, "default"@, s, kchoice_positions(s, kwe, KchProd::Default))
        &&& deps_list_ok(c.depends, "depends on"@, s, kchoice_positions(s, kwe, KchProd::Depends))
        &&& kopt_help_field_ok(c.help, s, kchoice_positions(s, kwe, KchProd::HelpProd))
        &&& prompts_seq_ok(
            c.prompts@,
            s,
            kchoice_positions(s, kwe, KchProd::PromptProd),
            kchoice_positions(s, kwe, KchProd::TypeLine),
        )
    } else {
        false
    }
}

/// One step of one choice content collector.
proof fn lemma_kch_collect_step(s: Seq<char>, cur: int, e: int, k: KchProd, pre: Seq<int>)
    requires
        0 <= cur < e <= s.len(),
        kchoice_step(s, cur) == Some(e),
    ensures
        pre + kchoice_positions(s, cur, k) == (if kch_takes(s, cur, k) {
            pre.push(cur)
        } else {
            pre
        }) + kchoice_positions(s, e, k),
{
    if kch_takes(s, cur, k) {
        assert(pre + (seq![cur] + kchoice_positions(s, e, k)) =~= pre.push(cur)
            + kchoice_positions(s, e, k));
    } else {
        assert(pre + (Seq::<int>::empty() + kchoice_positions(s, e, k)) =~= pre
            + kchoice_positions(s, e, k));
    }
}

/// One step of every choice content collector at once.
proof fn lemma_kch_collect_all(
    s: Seq<char>,
    cur: int,
    e: int,
    op: Seq<int>,
    hp: Seq<int>,
    mp: Seq<int>,
    pp: Seq<int>,
    df: Seq<int>,
    dp: Seq<int>,
    tp: Seq<int>,
)
    requires
        0 <= cur < e <= s.len(),
        kchoice_step(s, cur) == Some(e),
    ensures
        op + kchoice_positions(s, cur, KchProd::Optional) == (if kch_takes(s, cur, KchProd::Optional) { op.push(cur) } else { op }) + kchoice_positions(s, e, KchProd::Optional),
        hp + kchoice_positions(s, cur, KchProd::HelpProd) == (if kch_takes(s, cur, KchProd::HelpProd) { hp.push(cur) } else { hp }) + kchoice_positions(s, e, KchProd::HelpProd),
        mp + kchoice_positions(s, cur, KchProd::Member) == (if kch_takes(s, cur, KchProd::Member) { mp.push(cur) } else { mp }) + kchoice_positions(s, e, KchProd::Member),
        pp + kchoice_positions(s, cur, KchProd::PromptProd) == (if kch_takes(s, cur, KchProd::PromptProd) { pp.push(cur) } else { pp }) + kchoice_positions(s, e, KchProd::PromptProd),
        df + kchoice_positions(s, cur, KchProd::Default) == (if kch_takes(s, cur, KchProd::Default) { df.push(cur) } else { df }) + kchoice_positions(s, e, KchProd::Default),
        dp + kchoice_positions(s, cur, KchProd::Depends) == (if kch_takes(s, cur, KchProd::Depends) { dp.push(cur) } else { dp }) + kchoice_positions(s, e, KchProd::Depends),
        tp + kchoice_positions(s, cur, KchProd::TypeLine) == (if kch_takes(s, cur, KchProd::TypeLine) { tp.push(cur) } else { tp }) + kchoice_positions(s, e, KchProd::TypeLine),
{
    lemma_kch_collect_step(s, cur, e, KchProd::Optional, op);
    lemma_kch_collect_step(s, cur, e, KchProd::HelpProd, hp);
    lemma_kch_collect_step(s, cur, e, KchProd::Member, mp);
    lemma_kch_collect_step(s, cur, e, KchProd::PromptProd, pp);
    lemma_kch_collect_step(s, cur, e, KchProd::Default, df);
    lemma_kch_collect_step(s, cur, e, KchProd::Depends, dp);
    lemma_kch_collect_step(s, cur, e, KchProd::TypeLine, tp);
}

} // verus!
