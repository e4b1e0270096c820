//! The `menu`/`endmenu` group: a titled, possibly conditional grouping of
//! options, choices, sub-menus, comment blocks, conditional blocks and
//! `source` references.
use vstd::prelude::*;
use crate::util::{comment_tok_end, cont_line_end, line_end_tok, lit_at, match_lit, skip_space0,
    space_end, take_comment, take_continued_line, take_line_ending};
use crate::attrs::{dependency_end, dependency_ok, prompt_end, prompt_ok, Dependency, Prompt};
use crate::koption::{koption_end, koption_node_ok, KOption};
use crate::kchoice::{kchoice_end, kchoice_node_ok, KChoice};
use crate::kcommentblock::{kcommentblock_end, kcommentblock_node_ok, KCommentBlock};
use crate::kconfig::{block_end, block_node_ok, blocks_options, choices_options, deref_options,
    menus_options, push_option_refs, seq_of_options, Block};
use crate::diag::Diagnostic;

verus! {

/// One `menu` ... `endmenu` group.
#[derive(Debug, PartialEq)]
pub struct KMenu {
    /// The menu's title line, as written.
    pub description: String,
    pub blocks: Option<Vec<Block>>,
    pub choices: Option<Vec<KChoice>>,
    pub comments: Option<Vec<KCommentBlock>>,
    pub configs: Option<Vec<Prompt>>,
    pub depends: Option<Vec<Dependency>>,
    pub menus: Option<Vec<KMenu>>,
    pub options: Option<Vec<KOption>>,
    pub visible: Option<Vec<Dependency>>,
}

impl KMenu {
    /// Child lists are kept only when non-empty: an absent list is `None`,
    /// never `Some` of an empty vector.
    pub open spec fn lists_wf(&self) -> bool {
        &&& (match self.blocks {
            Some(v) => v@.len() > 0,
            None => true,
        })
        &&& (match self.choices {
            Some(v) => v@.len() > 0,
            None => true,
        })
        &&& (match self.comments {
            Some(v) => v@.len() > 0,
            None => true,
        })
        &&& (match self.configs {
            Some(v) => v@.len() > 0,
            None => true,
        })
        &&& (match self.depends {
            Some(v) => v@.len() > 0,
            None => true,
        })
        &&& (match self.menus {
            Some(v) => v@.len() > 0,
            None => true,
        })
        &&& (match self.options {
            Some(v) => v@.len() > 0,
            None => true,
        })
        &&& (match self.visible {
            Some(v) => v@.len() > 0,
            None => true,
        })
    }
}

/// Every option reachable from a menu: its own, then those of its choices,
/// then those in its sub-menus, then those in its conditional blocks,
/// depth first.
pub open spec fn kmenu_options(m: KMenu) -> Seq<KOption>
    decreases m, 0int, 0int,
{
    seq_of_options(m.options) + (match m.choices {
        Some(cs) => choices_options(cs, 0),
        None => Seq::empty(),
    }) + (match m.menus {
        Some(ms) => menus_options(ms, 0),
        None => Seq::empty(),
    }) + (match m.blocks {
        Some(bs) => blocks_options(bs, 0),
        None => Seq::empty(),
    })
}

impl KMenu {
    /// Collect references to every option reachable from this menu, in the
    /// order of `kmenu_options`.
    pub fn collect_options(&self) -> (r: Vec<&KOption>)
        ensures
            deref_options(r@) == kmenu_options(*self),
        decreases *self,
    {
        let mut out: Vec<&KOption> = Vec::new();
        if let Some(opts) = &self.options {
            push_option_refs(&mut out, opts);
        }
        let ghost base1 = deref_options(out@);
        if let Some(cs) = &self.choices {
            let mut i: usize = 0;
            while i < cs.len()
                invariant
                    0 <= i <= cs@.len(),
                    deref_options(out@) + choices_options(*cs, i as int) =~= base1
                        + choices_options(*cs, 0),
                decreases cs@.len() - i,
            {
                push_option_refs(&mut out, &cs[i].options);
                i = i + 1;
            }
        }
        let ghost base2 = deref_options(out@);
        if let Some(ms) = &self.menus {
            let mut i: usize = 0;
            while i < ms.len()
                invariant
                    0 <= i <= ms@.len(),
                    self.menus == Some(*ms),
                    deref_options(out@) + menus_options(*ms, i as int) =~= base2
                        + menus_options(*ms, 0),
                decreases ms@.len() - i,
            {
                proof {
                    assert(decreases_to!(*self => self.menus));
                    assert(decreases_to!(self.menus => self.menus->0));
                    assert(decreases_to!(self.menus->0 => (self.menus->0)@));
                    assert(decreases_to!((self.menus->0)@ => (self.menus->0)@[i as int]));
                    assert(decreases_to!(*self => ms@[i as int]));
                }
                let mut sub = ms[i].collect_options();
                out.append(&mut sub);
                i = i + 1;
            }
        }
        let ghost base3 = deref_options(out@);
        if let Some(bs) = &self.blocks {
            let mut i: usize = 0;
            while i < bs.len()
                invariant
                    0 <= i <= bs@.len(),
                    self.blocks == Some(*bs),
                    deref_options(out@) + blocks_options(*bs, i as int) =~= base3
                        + blocks_options(*bs, 0),
                decreases bs@.len() - i,
            {
                proof {
                    assert(decreases_to!(*self => self.blocks));
                    assert(decreases_to!(self.blocks => self.blocks->0));
                    assert(decreases_to!(self.blocks->0 => (self.blocks->0)@));
                    assert(decreases_to!((self.blocks->0)@ => (self.blocks->0)@[i as int]));
                    assert(decreases_to!(*self => bs@[i as int].config));
                }
                let mut sub = bs[i].config.collect_options();
                out.append(&mut sub);
                i = i + 1;
            }
        }
        proof {
            assert(deref_options(out@) =~= kmenu_options(*self));
        }
        out
    }

    /// Parse a `menu` group: the keyword, the title taken from the rest of
    /// the logical line, then one or more body items (blank lines,
    /// comments, conditional blocks, choices, sub-menus, options,
    /// `visible if`, `depends on`, `source` references, comment blocks),
    /// closed by `endmenu`. Every field of the result is tied to the input
    /// by `kmenu_node_ok`. `depth` bounds the nesting entered below.
    #[verifier::rlimit(40)]
    pub fn parse(input: &str, pos: usize, depth: usize) -> (r: Option<(KMenu, Vec<Diagnostic>,
        usize)>)
        requires
            pos <= input@.len(),
        ensures
            ({
                let s = input@;
                let kwe = space_end(s, pos as int) + "menu"@.len();
                match r {
                    Some(p) => {
                        &&& pos < p.2 <= s.len()
                        &&& kmenu_end(s, pos as int, depth as nat) == Some(p.2 as int)
                        &&& lit_at(s, space_end(s, pos as int), "menu"@)
                        &&& (match cont_line_end(s, kwe) {
                            Some(de) => p.0.description@ == s.subrange(space_end(s, kwe), de),
                            None => false,
                        })
                        &&& kmenu_node_ok(p.0, s, pos as int, depth as nat)
                    },
                    None => kmenu_end(s, pos as int, depth as nat) is None,
                }
            }),
    decreases input@.len() - pos, 0int,
    {
        if depth == 0 {
            return None;
        }
        let n = input.unicode_len();
        let k = skip_space0(input, pos);
        let kw_end = match match_lit(input, k, "menu") {
            Some(e) => e,
            None => {
                return None;
            },
        };
        proof {
            reveal_strlit("menu");
        }
        let (description, desc_end) = match take_continued_line(input, kw_end) {
            Some(p) => p,
            None => {
                return None;
            },
        };
        proof {
            crate::util::lemma_space_end_ge(input@, kw_end as int);
        }
        let mut blocks: Vec<Block> = Vec::new();
        let mut choices: Vec<KChoice> = Vec::new();
        let mut comments: Vec<KCommentBlock> = Vec::new();
        let mut configs: Vec<Prompt> = Vec::new();
        let mut depends: Vec<Dependency> = Vec::new();
        let mut menus: Vec<KMenu> = Vec::new();
        let mut options: Vec<KOption> = Vec::new();
        let mut visible: Vec<Dependency> = Vec::new();
        let mut diags: Vec<Diagnostic> = Vec::new();
        let ghost mut bl_pos: Seq<int> = Seq::empty();
        let ghost mut ch_pos: Seq<int> = Seq::empty();
        let ghost mut mn_pos: Seq<int> = Seq::empty();
        let ghost mut op_pos: Seq<int> = Seq::empty();
        let ghost mut vi_pos: Seq<int> = Seq::empty();
        let ghost mut dp_pos: Seq<int> = Seq::empty();
        let ghost mut sp_pos: Seq<int> = Seq::empty();
        let ghost mut cb_pos: Seq<int> = Seq::empty();
        let mut cur = desc_end;
        let mut found_any = false;
        loop
            invariant
                pos < kw_end <= desc_end <= cur <= n,
                n == input@.len(),
                depth >= 1,
                found_any <==> desc_end < cur,
                kmenu_body_end(input@, desc_end as int, depth as nat) == kmenu_body_end(
                    input@,
                    cur as int,
                    depth as nat,
                ),
                km_positions(input@, desc_end as int, depth as nat, KmProd::BlockProd) == bl_pos
                    + km_positions(input@, cur as int, depth as nat, KmProd::BlockProd),
                km_positions(input@, desc_end as int, depth as nat, KmProd::ChoiceProd) == ch_pos
                    + km_positions(input@, cur as int, depth as nat, KmProd::ChoiceProd),
                km_positions(input@, desc_end as int, depth as nat, KmProd::MenuProd) == mn_pos
                    + km_positions(input@, cur as int, depth as nat, KmProd::MenuProd),
                km_positions(input@, desc_end as int, depth as nat, KmProd::OptionProd) == op_pos
                    + km_positions(input@, cur as int, depth as nat, KmProd::OptionProd),
                km_positions(input@, desc_end as int, depth as nat, KmProd::Visible) == vi_pos
                    + km_positions(input@, cur as int, depth as nat, KmProd::Visible),
                km_positions(input@, desc_end as int, depth as nat, KmProd::Depends) == dp_pos
                    + km_positions(input@, cur as int, depth as nat, KmProd::Depends),
                km_positions(input@, desc_end as int, depth as nat, KmProd::Source) == sp_pos
                    + km_positions(input@, cur as int, depth as nat, KmProd::Source),
                km_positions(input@, desc_end as int, depth as nat, KmProd::CommentProd) == cb_pos
                    + km_positions(input@, cur as int, depth as nat, KmProd::CommentProd),
                blocks@.len() == bl_pos.len(),
                forall|i: int|
                    0 <= i < bl_pos.len() ==> block_node_ok(
                        #[trigger] blocks@[i],
                        input@,
                        bl_pos[i],
                        (depth - 1) as nat,
                    ),
                choices@.len() == ch_pos.len(),
                forall|i: int|
                    0 <= i < ch_pos.len() ==> kchoice_node_ok(
                        #[trigger] choices@[i],
                        input@,
                        ch_pos[i],
                    ),
                menus@.len() == mn_pos.len(),
                forall|i: int|
                    0 <= i < mn_pos.len() ==> kmenu_node_ok(
                        #[trigger] menus@[i],
                        input@,
                        mn_pos[i],
                        (depth - 1) as nat,
                    ),
                options@.len() == op_pos.len(),
                forall|i: int|
                    0 <= i < op_pos.len() ==> koption_node_ok(
                        #[trigger] options@[i],
                        input@,
                        op_pos[i],
                    ),
                visible@.len() == vi_pos.len(),
                forall|i: int|
                    0 <= i < vi_pos.len() ==> dependency_ok(
                        #[trigger] visible@[i],
                        "visible if"@,
                        input@,
                        vi_pos[i],
                    ),
                depends@.len() == dp_pos.len(),
                forall|i: int|
                    0 <= i < dp_pos.len() ==> dependency_ok(
                        #[trigger] depends@[i],
                        "depends on"@,
                        input@,
                        dp_pos[i],
                    ),
                configs@.len() == sp_pos.len(),
                forall|i: int|
                    0 <= i < sp_pos.len() ==> prompt_ok(
                        #[trigger] configs@[i],
                        "source"@,
                        input@,
                        sp_pos[i],
                    ),
                comments@.len() == cb_pos.len(),
                forall|i: int|
                    0 <= i < cb_pos.len() ==> kcommentblock_node_ok(
                        #[trigger] comments@[i],
                        input@,
                        cb_pos[i],
                    ),
            ensures
                pos < desc_end <= cur <= n,
                found_any <==> desc_end < cur,
                kmenu_body_end(input@, desc_end as int, depth as nat) == cur,
                km_positions(input@, desc_end as int, depth as nat, KmProd::BlockProd) == bl_pos,
                km_positions(input@, desc_end as int, depth as nat, KmProd::ChoiceProd) == ch_pos,
                km_positions(input@, desc_end as int, depth as nat, KmProd::MenuProd) == mn_pos,
                km_positions(input@, desc_end as int, depth as nat, KmProd::OptionProd) == op_pos,
                km_positions(input@, desc_end as int, depth as nat, KmProd::Visible) == vi_pos,
                km_positions(input@, desc_end as int, depth as nat, KmProd::Depends) == dp_pos,
                km_positions(input@, desc_end as int, depth as nat, KmProd::Source) == sp_pos,
                km_positions(input@, desc_end as int, depth as nat, KmProd::CommentProd) == cb_pos,
                blocks@.len() == bl_pos.len(),
                forall|i: int|
                    0 <= i < bl_pos.len() ==> block_node_ok(
                        #[trigger] blocks@[i],
                        input@,
                        bl_pos[i],
                        (depth - 1) as nat,
                    ),
                choices@.len() == ch_pos.len(),
                forall|i: int|
                    0 <= i < ch_pos.len() ==> kchoice_node_ok(
                        #[trigger] choices@[i],
                        input@,
                        ch_pos[i],
                    ),
                menus@.len() == mn_pos.len(),
                forall|i: int|
                    0 <= i < mn_pos.len() ==> kmenu_node_ok(
                        #[trigger] menus@[i],
                        input@,
                        mn_pos[i],
                        (depth - 1) as nat,
                    ),
                options@.len() == op_pos.len(),
                forall|i: int|
                    0 <= i < op_pos.len() ==> koption_node_ok(
                        #[trigger] options@[i],
                        input@,
                        op_pos[i],
                    ),
                visible@.len() == vi_pos.len(),
                forall|i: int|
                    0 <= i < vi_pos.len() ==> dependency_ok(
                        #[trigger] visible@[i],
                        "visible if"@,
                        input@,
                        vi_pos[i],
                    ),
                depends@.len() == dp_pos.len(),
                forall|i: int|
                    0 <= i < dp_pos.len() ==> dependency_ok(
                        #[trigger] depends@[i],
                        "depends on"@,
                        input@,
                        dp_pos[i],
                    ),
                configs@.len() == sp_pos.len(),
                forall|i: int|
                    0 <= i < sp_pos.len() ==> prompt_ok(
                        #[trigger] configs@[i],
                        "source"@,
                        input@,
                        sp_pos[i],
                    ),
                comments@.len() == cb_pos.len(),
                forall|i: int|
                    0 <= i < cb_pos.len() ==> kcommentblock_node_ok(
                        #[trigger] comments@[i],
                        input@,
                        cb_pos[i],
                    ),
            decreases n - cur,
        {
            if let Some(e) = take_line_ending(input, cur) {
                proof {
                    assert(line_end_tok(input@, cur as int) == Some(e as int));
                    assert(kmenu_step(input@, cur as int, depth as nat) == Some(e as int));
                    assert(kmenu_body_end(input@, cur as int, depth as nat) == kmenu_body_end(
                        input@,
                        e as int,
                        depth as nat,
                    ));
                    lemma_km_collect_all(input@, cur as int, e as int, depth as nat, bl_pos,
                        ch_pos, mn_pos, op_pos, vi_pos, dp_pos, sp_pos, cb_pos);
                }
                cur = e;
                found_any = true;
                continue ;
            }
            if let Some(e) = take_comment(input, cur) {
                proof {
                    lemma_km_collect_all(input@, cur as int, e as int, depth as nat, bl_pos,
                        ch_pos, mn_pos, op_pos, vi_pos, dp_pos, sp_pos, cb_pos);
                }
                cur = e;
                found_any = true;
                continue ;
            }
            if let Some((b, mut bd, e)) = Block::parse(input, cur, depth - 1) {
                proof {
                    lemma_km_collect_all(input@, cur as int, e as int, depth as nat, bl_pos,
                        ch_pos, mn_pos, op_pos, vi_pos, dp_pos, sp_pos, cb_pos);
                }
                proof {
                    bl_pos = bl_pos.push(cur as int);
                }
                blocks.push(b);
                diags.append(&mut bd);
                cur = e;
                found_any = true;
                continue ;
            }
            if let Some((c, mut cd, e)) = KChoice::parse(input, cur) {
                proof {
                    lemma_km_collect_all(input@, cur as int, e as int, depth as nat, bl_pos,
                        ch_pos, mn_pos, op_pos, vi_pos, dp_pos, sp_pos, cb_pos);
                }
                proof {
                    ch_pos = ch_pos.push(cur as int);
                }
                choices.push(c);
                diags.append(&mut cd);
                cur = e;
                found_any = true;
                continue ;
            }
            if let Some((m, mut md, e)) = KMenu::parse(input, cur, depth - 1) {
                proof {
                    lemma_km_collect_all(input@, cur as int, e as int, depth as nat, bl_pos,
                        ch_pos, mn_pos, op_pos, vi_pos, dp_pos, sp_pos, cb_pos);
                }
                proof {
                    mn_pos = mn_pos.push(cur as int);
                }
                menus.push(m);
                diags.append(&mut md);
                cur = e;
                found_any = true;
                continue ;
            }
            if let Some((o, mut od, e)) = KOption::parse(input, cur) {
                proof {
                    lemma_km_collect_all(input@, cur as int, e as int, depth as nat, bl_pos,
                        ch_pos, mn_pos, op_pos, vi_pos, dp_pos, sp_pos, cb_pos);
                }
                proof {
                    op_pos = op_pos.push(cur as int);
                }
                options.push(o);
                diags.append(&mut od);
                cur = e;
                found_any = true;
                continue ;
            }
            if let Some((v, e)) = Dependency::parse("visible if", input, cur) {
                proof {
                    lemma_km_collect_all(input@, cur as int, e as int, depth as nat, bl_pos,
                        ch_pos, mn_pos, op_pos, vi_pos, dp_pos, sp_pos, cb_pos);
                }
                proof {
                    vi_pos = vi_pos.push(cur as int);
                }
                visible.push(v);
                cur = e;
                found_any = true;
                continue ;
            }
            if let Some((v, e)) = Dependency::parse("depends on", input, cur) {
                proof {
                    lemma_km_collect_all(input@, cur as int, e as int, depth as nat, bl_pos,
                        ch_pos, mn_pos, op_pos, vi_pos, dp_pos, sp_pos, cb_pos);
                }
                proof {
                    dp_pos = dp_pos.push(cur as int);
                }
                depends.push(v);
                cur = e;
                found_any = true;
                continue ;
            }
            if let Some((p, e)) = Prompt::parse("source", input, cur) {
                proof {
                    reveal_strlit("source");
                    lemma_km_collect_all(input@, cur as int, e as int, depth as nat, bl_pos,
                        ch_pos, mn_pos, op_pos, vi_pos, dp_pos, sp_pos, cb_pos);
                    sp_pos = sp_pos.push(cur as int);
                }
                configs.push(p);
                cur = e;
                found_any = true;
                continue ;
            }
            if let Some((cb, e)) = KCommentBlock::parse(input, cur) {
                proof {
                    lemma_km_collect_all(input@, cur as int, e as int, depth as nat, bl_pos,
                        ch_pos, mn_pos, op_pos, vi_pos, dp_pos, sp_pos, cb_pos);
                }
                proof {
                    cb_pos = cb_pos.push(cur as int);
                }
                comments.push(cb);
                cur = e;
                found_any = true;
                continue ;
            }
            proof {
                assert(bl_pos + Seq::<int>::empty() =~= bl_pos);
                assert(ch_pos + Seq::<int>::empty() =~= ch_pos);
                assert(mn_pos + Seq::<int>::empty() =~= mn_pos);
                assert(op_pos + Seq::<int>::empty() =~= op_pos);
                assert(vi_pos + Seq::<int>::empty() =~= vi_pos);
                assert(dp_pos + Seq::<int>::empty() =~= dp_pos);
                assert(sp_pos + Seq::<int>::empty() =~= sp_pos);
                assert(cb_pos + Seq::<int>::empty() =~= cb_pos);
            }
            break ;
        }
        if !found_any {
            return None;
        }
        let k3 = skip_space0(input, cur);
        let close_end = match match_lit(input, k3, "endmenu") {
            Some(e) => e,
            None => {
                return None;
            },
        };
        proof {
            reveal_strlit("endmenu");
        }
        let end = skip_space0(input, close_end);
        Some((KMenu {
            description,
            blocks: if blocks.is_empty() {
                None
            } else {
                Some(blocks)
            },
            choices: if choices.is_empty() {
                None
            } else {
                Some(choices)
            },
            comments: if comments.is_empty() {
                None
            } else {
                Some(comments)
            },
            configs: if configs.is_empty() {
                None
            } else {
                Some(configs)
            },
            depends: if depends.is_empty() {
                None
            } else {
                Some(depends)
            },
            menus: if menus.is_empty() {
                None
            } else {
                Some(menus)
            },
            options: if options.is_empty() {
                None
            } else {
                Some(options)
            },
            visible: if visible.is_empty() {
                None
            } else {
                Some(visible)
            },
        }, diags, end))
    }
}

} // verus!

verus! {

/// One body production of a menu, tried in the parser's order: blank
/// lines, comment, conditional block, choice, sub-menu, option,
/// `visible if`, `depends on`, `source`, comment block.
pub open spec fn kmenu_step(s: Seq<char>, cur: int, depth: nat) -> Option<int>
    decreases depth, s.len() - cur, 0int,
{
    if line_end_tok(s, cur) is Some {
        line_end_tok(s, cur)
    } else if comment_tok_end(s, cur) is Some {
        comment_tok_end(s, cur)
    } else if depth > 0 && block_end(s, cur, (depth - 1) as nat) is Some {
        block_end(s, cur, (depth - 1) as nat)
    } else if kchoice_end(s, cur) is Some {
        kchoice_end(s, cur)
    } else if depth > 0 && kmenu_end(s, cur, (depth - 1) as nat) is Some {
        kmenu_end(s, cur, (depth - 1) as nat)
    } else if koption_end(s, cur) is Some {
        koption_end(s, cur)
    } else if dependency_end("visible if"@, s, cur) is Some {
        dependency_end("visible if"@, s, cur)
    } else if dependency_end("depends on"@, s, cur) is Some {
        dependency_end("depends on"@, s, cur)
    } else if prompt_end("source"@, s, cur) is Some {
        prompt_end("source"@, s, cur)
    } else {
        kcommentblock_end(s, cur)
    }
}

/// The greedy run of menu body productions from `cur` on.
pub open spec fn kmenu_body_end(s: Seq<char>, cur: int, depth: nat) -> int
    decreases depth, s.len() - cur, 1int,
{
    match kmenu_step(s, cur, depth) {
        Some(e) => if cur < e <= s.len() {
            kmenu_body_end(s, e, depth)
        } else {
            cur
        },
        None => cur,
    }
}

/// Where a whole `menu ... endmenu` group standing at `pos` ends: the
/// keyword, the title line, at least one body production, `endmenu`, and
/// its trailing spaces. `KMenu::parse` returns `Some` exactly when this
/// does, for the same nesting budget.
pub open spec fn kmenu_end(s: Seq<char>, pos: int, depth: nat) -> Option<int>
    decreases depth, s.len() - pos, 2int,
{
    if depth == 0 {
        None
    } else {
        let k = space_end(s, pos);
        if lit_at(s, k, "menu"@) {
            let kwe = k + "menu"@.len();
            match cont_line_end(s, kwe) {
                Some(de) => if pos < de <= s.len() {
                    let be = kmenu_body_end(s, de, depth);
                    if be > de {
                        let k3 = space_end(s, be);
                        if lit_at(s, k3, "endmenu"@) {
                            Some(space_end(s, k3 + "endmenu"@.len()))
                        } else {
                            None
                        }
                    } else {
                        None
                    }
                } else {
                    None
                },
                None => None,
            }
        } else {
            None
        }
    }
}

} // verus!

verus! {

/// The kinds of menu body production that populate a field.
pub ghost enum KmProd {
    BlockProd,
    ChoiceProd,
    MenuProd,
    OptionProd,
    Visible,
    Depends,
    Source,
    CommentProd,
}

/// Whether the body production taken at `c` is of kind `k`: the
/// alternatives before it fail there and its own recognizer succeeds.
pub open spec fn km_takes(s: Seq<char>, c: int, d: nat, k: KmProd) -> bool {
    let no_skip = line_end_tok(s, c) is None && comment_tok_end(s, c) is None;
    let no_blk = no_skip && !(d > 0 && block_end(s, c, (d - 1) as nat) is Some);
    let no_ch = no_blk && kchoice_end(s, c) is None;
    let no_menu = no_ch && !(d > 0 && kmenu_end(s, c, (d - 1) as nat) is Some);
    let no_opt = no_menu && koption_end(s, c) is None;
    let no_vis = no_opt && dependency_end("visible if"@, s, c) is None;
    let no_dep = no_vis && dependency_end("depends on"@, s, c) is None;
    let no_src = no_dep && prompt_end("source"@, s, c) is None;
    match k {
        KmProd::BlockProd => no_skip && d > 0 && block_end(s, c, (d - 1) as nat) is Some,
        KmProd::ChoiceProd => no_blk && kchoice_end(s, c) is Some,
        KmProd::MenuProd => no_ch && d > 0 && kmenu_end(s, c, (d - 1) as nat) is Some,
        KmProd::OptionProd => no_menu && koption_end(s, c) is Some,
        KmProd::Visible => no_opt && dependency_end("visible if"@, s, c) is Some,
        KmProd::Depends => no_vis && dependency_end("depends on"@, s, c) is Some,
        KmProd::Source => no_dep && prompt_end("source"@, s, c) is Some,
        KmProd::CommentProd => no_src && kcommentblock_end(s, c) is Some,
    }
}

/// The positions, in order, at which the greedy menu body run from `cur`
/// takes a production of kind `k`.
pub open spec fn km_positions(s: Seq<char>, cur: int, d: nat, k: KmProd) -> Seq<int>
    decreases s.len() - cur when 0 <= cur <= s.len()
{
    match kmenu_step(s, cur, d) {
        Some(e) => if cur < e <= s.len() {
            (if km_takes(s, cur, d, k) {
                seq![cur]
            } else {
                Seq::<int>::empty()
            }) + km_positions(s, e, d, k)
        } else {
            Seq::empty()
        },
        None => Seq::empty(),
    }
}

/// Everything a parsed menu's fields say about the input: the title taken
/// from the continued line after the keyword, and each child list holding
/// exactly the nodes of the productions its body run takes, in order, each
/// tied to its own position.
pub open spec fn kmenu_node_ok(m: KMenu, s: Seq<char>, pos: int, d: nat) -> bool
    decreases d, 0int,
{
    let k = space_end(s, pos);
    let kwe = k + "menu"@.len();
    let bl = match m.blocks {
        Some(v) => v@,
        None => Seq::<Block>::empty(),
    };
    let ch = match m.choices {
        Some(v) => v@,
        None => Seq::<KChoice>::empty(),
    };
    let cm = match m.comments {
        Some(v) => v@,
        None => Seq::<KCommentBlock>::empty(),
    };
    let cf = match m.configs {
        Some(v) => v@,
        None => Seq::<Prompt>::empty(),
    };
    let mn = match m.menus {
        Some(v) => v@,
        None => Seq::<KMenu>::empty(),
    };
    let op = match m.options {
        Some(v) => v@,
        None => Seq::<KOption>::empty(),
    };
    let vi = match m.visible {
        Some(v) => v@,
        None => Seq::<Dependency>::empty(),
    };
    let dp = match m.depends {
        Some(v) => v@,
        None => Seq::<Dependency>::empty(),
    };
    match cont_line_end(s, kwe) {
        Some(de) => {
            &&& lit_at(s, k, "menu"@)
            &&& m.lists_wf()
            &&& m.description@ == s.subrange(space_end(s, kwe), de)
            &&& bl.len() == km_positions(s, de, d, KmProd::BlockProd).len()
            &&& (forall|i: int|
                0 <= i < bl.len() ==> d > 0 && block_node_ok(
                    #[trigger] bl[i],
                    s,
                    km_positions(s, de, d, KmProd::BlockProd)[i],
                    (d - 1) as nat,
                ))
            &&& ch.len() == km_positions(s, de, d, KmProd::ChoiceProd).len()
            &&& (forall|i: int|
                0 <= i < ch.len() ==> kchoice_node_ok(
                    #[trigger] ch[i],
                    s,
                    km_positions(s, de, d, KmProd::ChoiceProd)[i],
                ))
            &&& cm.len() == km_positions(s, de, d, KmProd::CommentProd).len()
            &&& (forall|i: int|
                0 <= i < cm.len() ==> kcommentblock_node_ok(
                    #[trigger] cm[i],
                    s,
                    km_positions(s, de, d, KmProd::CommentProd)[i],
                ))
            &&& cf.len() == km_positions(s, de, d, KmProd::Source).len()
            &&& (forall|i: int|
                0 <= i < cf.len() ==> prompt_ok(
                    #[trigger] cf[i],
                    "source"@,
                    s,
                    km_positions(s, de, d, KmProd::Source)[i],
                ))
            &&& mn.len() == km_positions(s, de, d, KmProd::MenuProd).len()
            &&& (forall|i: int|
                0 <= i < mn.len() ==> d > 0 && kmenu_node_ok(
                    #[trigger] mn[i],
                    s,
                    km_positions(s, de, d, KmProd::MenuProd)[i],
                    (d - 1) as nat,
                ))
            &&& op.len() == km_positions(s, de, d, KmProd::OptionProd).len()
            &&& (forall|i: int|
                0 <= i < op.len() ==> koption_node_ok(
                    #[trigger] op[i],
                    s,
                    km_positions(s, de, d, KmProd::OptionProd)[i],
                ))
            &&& vi.len() == km_positions(s, de, d, KmProd::Visible).len()
            &&& (forall|i: int|
                0 <= i < vi.len() ==> dependency_ok(
                    #[trigger] vi[i],
                    "visible if"@,
                    s,
                    km_positions(s, de, d, KmProd::Visible)[i],
                ))
            &&& dp.len() == km_positions(s, de, d, KmProd::Depends).len()
            &&& (forall|i: int|
                0 <= i < dp.len() ==> dependency_ok(
                    #[trigger] dp[i],
                    "depends on"@,
                    s,
                    km_positions(s, de, d, KmProd::Depends)[i],
                ))
        },
        None => false,
    }
}

/// One step of one menu content collector.
proof fn lemma_km_collect_step(s: Seq<char>, cur: int, e: int, d: nat, k: KmProd, pre: Seq<int>)
    requires
        0 <= cur < e <= s.len(),
        kmenu_step(s, cur, d) == Some(e),
    ensures
        pre + km_positions(s, cur, d, k) == (if km_takes(s, cur, d, k) {
            pre.push(cur)
        } else {
            pre
        }) + km_positions(s, e, d, k),
{
    if km_takes(s, cur, d, k) {
        assert(pre + (seq![cur] + km_positions(s, e, d, k)) =~= pre.push(cur) + km_positions(
            s,
            e,
            d,
            k,
        ));
    } else {
        assert(pre + (Seq::<int>::empty() + km_positions(s, e, d, k)) =~= pre + km_positions(
            s,
            e,
            d,
            k,
        ));
    }
}

/// One step of every menu content collector at once.
proof fn lemma_km_collect_all(
    s: Seq<char>,
    cur: int,
    e: int,
    d: nat,
    bp: Seq<int>,
    cp: Seq<int>,
    mp: Seq<int>,
    op: Seq<int>,
    vi: Seq<int>,
    dp: Seq<int>,
    sp: Seq<int>,
    cb: Seq<int>,
)
    requires
        0 <= cur < e <= s.len(),
        kmenu_step(s, cur, d) == Some(e),
    ensures
        bp + km_positions(s, cur, d, KmProd::BlockProd) == (if km_takes(s, cur, d, KmProd::BlockProd) { bp.push(cur) } else { bp }) + km_positions(s, e, d, KmProd::BlockProd),
        cp + km_positions(s, cur, d, KmProd::ChoiceProd) == (if km_takes(s, cur, d, KmProd::ChoiceProd) { cp.push(cur) } else { cp }) + km_positions(s, e, d, KmProd::ChoiceProd),
        mp + km_positions(s, cur, d, KmProd::MenuProd) == (if km_takes(s, cur, d, KmProd::MenuProd) { mp.push(cur) } else { mp }) + km_positions(s, e, d, KmProd::MenuProd),
        op + km_positions(s, cur, d, KmProd::OptionProd) == (if km_takes(s, cur, d, KmProd::OptionProd) { op.push(cur) } else { op }) + km_positions(s, e, d, KmProd::OptionProd),
        vi + km_positions(s, cur, d, KmProd::Visible) == (if km_takes(s, cur, d, KmProd::Visible) { vi.push(cur) } else { vi }) + km_positions(s, e, d, KmProd::Visible),
        dp + km_positions(s, cur, d, KmProd::Depends) == (if km_takes(s, cur, d, KmProd::Depends) { dp.push(cur) } else { dp }) + km_positions(s, e, d, KmProd::Depends),
        sp + km_positions(s, cur, d, KmProd::Source) == (if km_takes(s, cur, d, KmProd::Source) { sp.push(cur) } else { sp }) + km_positions(s, e, d, KmProd::Source),
        cb + km_positions(s, cur, d, KmProd::CommentProd) == (if km_takes(s, cur, d, KmProd::CommentProd) { cb.push(cur) } else { cb }) + km_positions(s, e, d, KmProd::CommentProd),
{
    lemma_km_collect_step(s, cur, e, d, KmProd::BlockProd, bp);
    lemma_km_collect_step(s, cur, e, d, KmProd::ChoiceProd, cp);
    lemma_km_collect_step(s, cur, e, d, KmProd::MenuProd, mp);
    lemma_km_collect_step(s, cur, e, d, KmProd::OptionProd, op);
    lemma_km_collect_step(s, cur, e, d, KmProd::Visible, vi);
    lemma_km_collect_step(s, cur, e, d, KmProd::Depends, dp);
    lemma_km_collect_step(s, cur, e, d, KmProd::Source, sp);
    lemma_km_collect_step(s, cur, e, d, KmProd::CommentProd, cb);
}

} // verus!
