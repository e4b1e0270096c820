//! The root aggregator: a `KConfig` is any mixture of options, choices,
//! menus, comment blocks, conditional blocks, `source` references and an
//! optional `mainmenu` title, with no terminator of its own. A `Block` is
//! an `if <expr> ... endif` wrapper around a nested `KConfig`.
use vstd::prelude::*;
use crate::util::{comment_tok_end, line_end_tok, lit_at, match_lit, skip_space0, space_end,
    sspace_end, take_comment, take_line_ending};
use crate::expr::{cond_end, Condition};
use crate::attrs::{prompt_end, prompt_ok, Prompt};
use crate::koption::{koption_end, koption_node_ok, KOption};
use crate::kchoice::{kchoice_end, kchoice_node_ok, KChoice};
use crate::kcommentblock::{kcommentblock_end, kcommentblock_node_ok, KCommentBlock};
use crate::kmenu::{kmenu_end, kmenu_node_ok, kmenu_options, KMenu};
use crate::diag::Diagnostic;

verus! {

/// How many levels of `if`/`menu` nesting the parser will enter before
/// giving up, guarding the call stack against pathological input.
pub const MAX_NESTING_DEPTH: usize = 96;

/// An `if <expr> ... endif` wrapper applying one condition to a nested
/// subtree.
#[derive(Debug, PartialEq)]
pub struct Block {
    pub config: KConfig,
    pub condition: Condition,
}

/// The aggregator node, returned for a whole file and for the body of a
/// `Block` or `KMenu`. Empty attribute lists are kept as `None`.
#[derive(Debug, PartialEq)]
pub struct KConfig {
    pub mainmenu: Option<Prompt>,
    pub blocks: Option<Vec<Block>>,
    pub choices: Option<Vec<KChoice>>,
    pub comments: Option<Vec<KCommentBlock>>,
    pub configs: Option<Vec<Prompt>>,
    pub menus: Option<Vec<KMenu>>,
    pub options: Option<Vec<KOption>>,
}

impl KConfig {
    /// Child lists are kept only when non-empty: an absent list is `None`,
    /// never `Some` of an empty vector.
    pub open spec fn lists_wf(&self) -> bool {
        &&& (match self.blocks {
            Some(v) => v@.len() > 0,
            None => true,
        })
        &&& (match self.choices {
            Some(v) => v@.len() > 0,
            None => true,
        })
        &&& (match self.comments {
            Some(v) => v@.len() > 0,
            None => true,
        })
        &&& (match self.configs {
            Some(v) => v@.len() > 0,
            None => true,
        })
        &&& (match self.menus {
            Some(v) => v@.len() > 0,
            None => true,
        })
        &&& (match self.options {
            Some(v) => v@.len() > 0,
            None => true,
        })
    }
}

/// The options held directly in an optional list.
pub open spec fn seq_of_options(os: Option<Vec<KOption>>) -> Seq<KOption> {
    match os {
        Some(v) => v@,
        None => Seq::empty(),
    }
}

/// The member options of the choices `cs[i..]`, in order.
pub open spec fn choices_options(cs: Vec<KChoice>, i: int) -> Seq<KOption>
    decreases cs, cs.len() - i when 0 <= i
{
    if 0 <= i < cs.len() {
        cs[i as int].options@ + choices_options(cs, i + 1)
    } else {
        Seq::empty()
    }
}

/// The options reachable in the blocks `bs[i..]`, in order.
pub open spec fn blocks_options(bs: Vec<Block>, i: int) -> Seq<KOption>
    decreases bs, bs.len() - i, 1int when 0 <= i
{
    if 0 <= i < bs.len() {
        kconfig_options(bs[i as int].config) + blocks_options(bs, i + 1)
    } else {
        Seq::empty()
    }
}

/// The options reachable in the menus `ms[i..]`, in order.
pub open spec fn menus_options(ms: Vec<KMenu>, i: int) -> Seq<KOption>
    decreases ms, ms.len() - i, 1int when 0 <= i
{
    if 0 <= i < ms.len() {
        kmenu_options(ms[i as int]) + menus_options(ms, i + 1)
    } else {
        Seq::empty()
    }
}

/// Every option reachable from a configuration node: its own, then those of
/// its choices, then those in its conditional blocks, then those in its
/// menus, depth first.
pub open spec fn kconfig_options(c: KConfig) -> Seq<KOption>
    decreases c, 0int, 0int,
{
    seq_of_options(c.options) + (match c.choices {
        Some(cs) => choices_options(cs, 0),
        None => Seq::empty(),
    }) + (match c.blocks {
        Some(bs) => blocks_options(bs, 0),
        None => Seq::empty(),
    }) + (match c.menus {
        Some(ms) => menus_options(ms, 0),
        None => Seq::empty(),
    })
}

/// The sequence of options a vector of references points at.
pub open spec fn deref_options(s: Seq<&KOption>) -> Seq<KOption> {
    s.map_values(|p: &KOption| *p)
}

/// Push references to every element of `from` onto `out`.
pub(crate) fn push_option_refs<'a>(out: &mut Vec<&'a KOption>, from: &'a Vec<KOption>)
    ensures
        deref_options(final(out)@) == deref_options(old(out)@) + from@,
{
    let mut j: usize = 0;
    while j < from.len()
        invariant
            0 <= j <= from@.len(),
            deref_options(out@) =~= deref_options(old(out)@) + from@.subrange(0, j as int),
        decreases from@.len() - j,
    {
        let ghost prev = out@;
        out.push(&from[j]);
        proof {
            assert(deref_options(out@) =~= deref_options(prev).push(from@[j as int]));
            assert(from@.subrange(0, j as int + 1) =~= from@.subrange(0, j as int).push(
                from@[j as int],
            ));
            assert(deref_options(out@) =~= deref_options(old(out)@) + from@.subrange(
                0,
                j as int + 1,
            ));
        }
        j = j + 1;
    }
    proof {
        assert(from@.subrange(0, from@.len() as int) =~= from@);
    }
}

impl KConfig {
    /// Collect references to every option reachable from this node, in the
    /// order of `kconfig_options`.
    pub fn collect_options(&self) -> (r: Vec<&KOption>)
        ensures
            deref_options(r@) == kconfig_options(*self),
        decreases *self,
    {
        let mut out: Vec<&KOption> = Vec::new();
        if let Some(opts) = &self.options {
            push_option_refs(&mut out, opts);
        }
        let ghost base1 = deref_options(out@);
        if let Some(cs) = &self.choices {
            let mut i: usize = 0;
            while i < cs.len()
                invariant
                    0 <= i <= cs@.len(),
                    deref_options(out@) + choices_options(*cs, i as int) =~= base1
                        + choices_options(*cs, 0),
                decreases cs@.len() - i,
            {
                push_option_refs(&mut out, &cs[i].options);
                i = i + 1;
            }
        }
        let ghost base2 = deref_options(out@);
        if let Some(bs) = &self.blocks {
            let mut i: usize = 0;
            while i < bs.len()
                invariant
                    0 <= i <= bs@.len(),
                    self.blocks == Some(*bs),
                    deref_options(out@) + blocks_options(*bs, i as int) =~= base2
                        + blocks_options(*bs, 0),
                decreases bs@.len() - i,
            {
                proof {
                    assert(decreases_to!(*self => self.blocks));
                    assert(decreases_to!(self.blocks => self.blocks->0));
                    assert(decreases_to!(self.blocks->0 => (self.blocks->0)@));
                    assert(decreases_to!((self.blocks->0)@ => (self.blocks->0)@[i as int]));
                    assert(decreases_to!(*self => bs@[i as int].config));
                }
                let mut sub = bs[i].config.collect_options();
                out.append(&mut sub);
                i = i + 1;
            }
        }
        let ghost base3 = deref_options(out@);
        if let Some(ms) = &self.menus {
            let mut i: usize = 0;
            while i < ms.len()
                invariant
                    0 <= i <= ms@.len(),
                    self.menus == Some(*ms),
                    deref_options(out@) + menus_options(*ms, i as int) =~= base3
                        + menus_options(*ms, 0),
                decreases ms@.len() - i,
            {
                proof {
                    assert(decreases_to!(*self => self.menus));
                    assert(decreases_to!(self.menus => self.menus->0));
                    assert(decreases_to!(self.menus->0 => (self.menus->0)@));
                    assert(decreases_to!((self.menus->0)@ => (self.menus->0)@[i as int]));
                    assert(decreases_to!(*self => ms@[i as int]));
                }
                let mut sub = ms[i].collect_options();
                out.append(&mut sub);
                i = i + 1;
            }
        }
        proof {
            assert(deref_options(out@) =~= kconfig_options(*self));
        }
        out
    }

    /// Parse a configuration body at `pos`: any mixture of blank lines,
    /// comments, conditional blocks, `source` references, a `mainmenu`
    /// title (the first occurrence wins), options, menus, choices and
    /// comment blocks, consumed until none of them matches. Never fails;
    /// the returned position says how far it came, and every field of the
    /// result is tied to the input by `kconfig_node_ok`. `depth` bounds the
    /// nesting of `if` and `menu` constructs entered below this node.
    pub fn parse(input: &str, pos: usize, depth: usize) -> (r: (KConfig, Vec<Diagnostic>, usize))
        requires
            pos <= input@.len(),
        ensures
            pos <= r.2 <= input@.len(),
            r.2 == kconfig_body_end(input@, pos as int, depth as nat),
            kconfig_node_ok(r.0, input@, pos as int, depth as nat),
        decreases input@.len() - pos, 1int,
    {
        let n = input.unicode_len();
        let mut mainmenu: Option<Prompt> = None;
        let mut blocks: Vec<Block> = Vec::new();
        let mut choices: Vec<KChoice> = Vec::new();
        let mut comments: Vec<KCommentBlock> = Vec::new();
        let mut configs: Vec<Prompt> = Vec::new();
        let mut menus: Vec<KMenu> = Vec::new();
        let mut options: Vec<KOption> = Vec::new();
        let mut diags: Vec<Diagnostic> = Vec::new();
        let ghost mut bl_pos: Seq<int> = Seq::empty();
        let ghost mut sp_pos: Seq<int> = Seq::empty();
        let ghost mut mm_pos: Seq<int> = Seq::empty();
        let ghost mut op_pos: Seq<int> = Seq::empty();
        let ghost mut mn_pos: Seq<int> = Seq::empty();
        let ghost mut ch_pos: Seq<int> = Seq::empty();
        let ghost mut cb_pos: Seq<int> = Seq::empty();
        let mut cur = pos;
        if depth > 0 {
            loop
                invariant
                    pos <= cur <= n,
                    n == input@.len(),
                    depth > 0,
                    kconfig_body_end(input@, pos as int, depth as nat) == kconfig_body_end(
                        input@,
                        cur as int,
                        depth as nat,
                    ),
                    kcf_positions(input@, pos as int, depth as nat, KcfProd::BlockProd) == bl_pos
                        + kcf_positions(input@, cur as int, depth as nat, KcfProd::BlockProd),
                    kcf_positions(input@, pos as int, depth as nat, KcfProd::Source) == sp_pos
                        + kcf_positions(input@, cur as int, depth as nat, KcfProd::Source),
                    kcf_positions(input@, pos as int, depth as nat, KcfProd::Mainmenu) == mm_pos
                        + kcf_positions(input@, cur as int, depth as nat, KcfProd::Mainmenu),
                    kcf_positions(input@, pos as int, depth as nat, KcfProd::OptionProd) == op_pos
                        + kcf_positions(input@, cur as int, depth as nat, KcfProd::OptionProd),
                    kcf_positions(input@, pos as int, depth as nat, KcfProd::MenuProd) == mn_pos
                        + kcf_positions(input@, cur as int, depth as nat, KcfProd::MenuProd),
                    kcf_positions(input@, pos as int, depth as nat, KcfProd::ChoiceProd) == ch_pos
                        + kcf_positions(input@, cur as int, depth as nat, KcfProd::ChoiceProd),
                    kcf_positions(input@, pos as int, depth as nat, KcfProd::CommentProd) == cb_pos
                        + kcf_positions(input@, cur as int, depth as nat, KcfProd::CommentProd),
                    mainmenu_field_ok(mainmenu, input@, mm_pos),
                    blocks@.len() == bl_pos.len(),
                    forall|i: int|
                        0 <= i < bl_pos.len() ==> block_node_ok(
                            #[trigger] blocks@[i],
                            input@,
                            bl_pos[i],
                            (depth - 1) as nat,
                        ),
                    choices@.len() == ch_pos.len(),
                    forall|i: int|
                        0 <= i < ch_pos.len() ==> kchoice_node_ok(
                            #[trigger] choices@[i],
                            input@,
                            ch_pos[i],
                        ),
                    comments@.len() == cb_pos.len(),
                    forall|i: int|
                        0 <= i < cb_pos.len() ==> kcommentblock_node_ok(
                            #[trigger] comments@[i],
                            input@,
                            cb_pos[i],
                        ),
                    configs@.len() == sp_pos.len(),
                    forall|i: int|
                        0 <= i < sp_pos.len() ==> prompt_ok(
                            #[trigger] configs@[i],
                            "source"@,
                            input@,
                            sp_pos[i],
                        ),
                    menus@.len() == mn_pos.len(),
                    forall|i: int|
                        0 <= i < mn_pos.len() ==> kmenu_node_ok(
                            #[trigger] menus@[i],
                            input@,
                            mn_pos[i],
                            (depth - 1) as nat,
                        ),
                    options@.len() == op_pos.len(),
                    forall|i: int|
                        0 <= i < op_pos.len() ==> koption_node_ok(
                            #[trigger] options@[i],
                            input@,
                            op_pos[i],
                        ),
                ensures
                    pos <= cur <= n,
                    kconfig_body_end(input@, pos as int, depth as nat) == cur,
                    kcf_positions(input@, pos as int, depth as nat, KcfProd::BlockProd) == bl_pos,
                    kcf_positions(input@, pos as int, depth as nat, KcfProd::Source) == sp_pos,
                    kcf_positions(input@, pos as int, depth as nat, KcfProd::Mainmenu) == mm_pos,
                    kcf_positions(input@, pos as int, depth as nat, KcfProd::OptionProd) == op_pos,
                    kcf_positions(input@, pos as int, depth as nat, KcfProd::MenuProd) == mn_pos,
                    kcf_positions(input@, pos as int, depth as nat, KcfProd::ChoiceProd) == ch_pos,
                    kcf_positions(input@, pos as int, depth as nat, KcfProd::CommentProd) == cb_pos,
                    mainmenu_field_ok(mainmenu, input@, mm_pos),
                    blocks@.len() == bl_pos.len(),
                    forall|i: int|
                        0 <= i < bl_pos.len() ==> block_node_ok(
                            #[trigger] blocks@[i],
                            input@,
                            bl_pos[i],
                            (depth - 1) as nat,
                        ),
                    choices@.len() == ch_pos.len(),
                    forall|i: int|
                        0 <= i < ch_pos.len() ==> kchoice_node_ok(
                            #[trigger] choices@[i],
                            input@,
                            ch_pos[i],
                        ),
                    comments@.len() == cb_pos.len(),
                    forall|i: int|
                        0 <= i < cb_pos.len() ==> kcommentblock_node_ok(
                            #[trigger] comments@[i],
                            input@,
                            cb_pos[i],
                        ),
                    configs@.len() == sp_pos.len(),
                    forall|i: int|
                        0 <= i < sp_pos.len() ==> prompt_ok(
                            #[trigger] configs@[i],
                            "source"@,
                            input@,
                            sp_pos[i],
                        ),
                    menus@.len() == mn_pos.len(),
                    forall|i: int|
                        0 <= i < mn_pos.len() ==> kmenu_node_ok(
                            #[trigger] menus@[i],
                            input@,
                            mn_pos[i],
                            (depth - 1) as nat,
                        ),
                    options@.len() == op_pos.len(),
                    forall|i: int|
                        0 <= i < op_pos.len() ==> koption_node_ok(
                            #[trigger] options@[i],
                            input@,
                            op_pos[i],
                        ),
                decreases n - cur,
            {
                if let Some(e) = take_line_ending(input, cur) {
                    proof {
                        assert(line_end_tok(input@, cur as int) == Some(e as int));
                        assert(kconfig_step(input@, cur as int, depth as nat) == Some(e as int));
                        assert(kconfig_body_end(input@, cur as int, depth as nat)
                            == kconfig_body_end(input@, e as int, depth as nat));
                        lemma_kcf_collect_all(input@, cur as int, e as int, depth as nat, bl_pos,
                            sp_pos, mm_pos, op_pos, mn_pos, ch_pos, cb_pos);
                    }
                    cur = e;
                    continue ;
                }
                if let Some(e) = take_comment(input, cur) {
                    proof {
                        lemma_kcf_collect_all(input@, cur as int, e as int, depth as nat, bl_pos,
                            sp_pos, mm_pos, op_pos, mn_pos, ch_pos, cb_pos);
                    }
                    cur = e;
                    continue ;
                }
                if let Some((b, mut bd, e)) = Block::parse(input, cur, depth - 1) {
                    proof {
                        lemma_kcf_collect_all(input@, cur as int, e as int, depth as nat, bl_pos,
                            sp_pos, mm_pos, op_pos, mn_pos, ch_pos, cb_pos);
                    }
                    proof {
                        bl_pos = bl_pos.push(cur as int);
                    }
                    blocks.push(b);
                    diags.append(&mut bd);
                    cur = e;
                    continue ;
                }
                if let Some((p, e)) = Prompt::parse("source", input, cur) {
                    proof {
                        reveal_strlit("source");
                        lemma_kcf_collect_all(input@, cur as int, e as int, depth as nat, bl_pos,
                            sp_pos, mm_pos, op_pos, mn_pos, ch_pos, cb_pos);
                        sp_pos = sp_pos.push(cur as int);
                    }
                    configs.push(p);
                    cur = e;
                    continue ;
                }
                if let Some((p, e)) = Prompt::parse("mainmenu", input, cur) {
                    proof {
                        reveal_strlit("mainmenu");
                        lemma_kcf_collect_all(input@, cur as int, e as int, depth as nat, bl_pos,
                            sp_pos, mm_pos, op_pos, mn_pos, ch_pos, cb_pos);
                        mm_pos = mm_pos.push(cur as int);
                    }
                    if mainmenu.is_none() {
                        mainmenu = Some(p);
                    }
                    cur = e;
                    continue ;
                }
                if let Some((o, mut od, e)) = KOption::parse(input, cur) {
                    proof {
                        lemma_kcf_collect_all(input@, cur as int, e as int, depth as nat, bl_pos,
                            sp_pos, mm_pos, op_pos, mn_pos, ch_pos, cb_pos);
                    }
                    proof {
                        op_pos = op_pos.push(cur as int);
                    }
                    options.push(o);
                    diags.append(&mut od);
                    cur = e;
                    continue ;
                }
                if let Some((m, mut md, e)) = KMenu::parse(input, cur, depth - 1) {
                    proof {
                        lemma_kcf_collect_all(input@, cur as int, e as int, depth as nat, bl_pos,
                            sp_pos, mm_pos, op_pos, mn_pos, ch_pos, cb_pos);
                    }
                    proof {
                        mn_pos = mn_pos.push(cur as int);
                    }
                    menus.push(m);
                    diags.append(&mut md);
                    cur = e;
                    continue ;
                }
                if let Some((c, mut cd, e)) = KChoice::parse(input, cur) {
                    proof {
                        lemma_kcf_collect_all(input@, cur as int, e as int, depth as nat, bl_pos,
                            sp_pos, mm_pos, op_pos, mn_pos, ch_pos, cb_pos);
                    }
                    proof {
                        ch_pos = ch_pos.push(cur as int);
                    }
                    choices.push(c);
                    diags.append(&mut cd);
                    cur = e;
                    continue ;
                }
                if let Some((cb, e)) = KCommentBlock::parse(input, cur) {
                    proof {
                        lemma_kcf_collect_all(input@, cur as int, e as int, depth as nat, bl_pos,
                            sp_pos, mm_pos, op_pos, mn_pos, ch_pos, cb_pos);
                    }
                    proof {
                        cb_pos = cb_pos.push(cur as int);
                    }
                    comments.push(cb);
                    cur = e;
                    continue ;
                }
                proof {
                    assert(bl_pos + Seq::<int>::empty() =~= bl_pos);
                    assert(sp_pos + Seq::<int>::empty() =~= sp_pos);
                    assert(mm_pos + Seq::<int>::empty() =~= mm_pos);
                    assert(op_pos + Seq::<int>::empty() =~= op_pos);
                    assert(mn_pos + Seq::<int>::empty() =~= mn_pos);
                    assert(ch_pos + Seq::<int>::empty() =~= ch_pos);
                    assert(cb_pos + Seq::<int>::empty() =~= cb_pos);
                }
                break ;
            }
        }
        (KConfig {
            mainmenu,
            blocks: if blocks.is_empty() {
                None
            } else {
                Some(blocks)
            },
            choices: if choices.is_empty() {
                None
            } else {
                Some(choices)
            },
            comments: if comments.is_empty() {
                None
            } else {
                Some(comments)
            },
            configs: if configs.is_empty() {
                None
            } else {
                Some(configs)
            },
            menus: if menus.is_empty() {
                None
            } else {
                Some(menus)
            },
            options: if options.is_empty() {
                None
            } else {
                Some(options)
            },
        }, diags, cur)
    }
}

impl Block {
    /// Parse `if <expr>`, a nested configuration body, then `endif`; the
    /// condition and the body are tied to the input by `block_node_ok`. A
    /// failure consumes nothing and reports no diagnostics, so an abandoned
    /// branch leaves no trace.
    pub fn parse(input: &str, pos: usize, depth: usize) -> (r: Option<(Block, Vec<Diagnostic>,
        usize)>)
        requires
            pos <= input@.len(),
        ensures
            match r {
                Some(p) => {
                    &&& pos < p.2 <= input@.len()
                    &&& block_end(input@, pos as int, depth as nat) == Some(p.2 as int)
                    &&& block_node_ok(p.0, input@, pos as int, depth as nat)
                },
                None => block_end(input@, pos as int, depth as nat) is None,
            },
        decreases input@.len() - pos, 0int,
    {
        if depth == 0 {
            return None;
        }
        let (condition, cond_pos_end) = match Condition::parse(input, pos) {
            Some(p) => p,
            None => {
                return None;
            },
        };
        let (config, diags, body_end) = KConfig::parse(input, cond_pos_end, depth - 1);
        let k = skip_space0(input, body_end);
        let close_end = match match_lit(input, k, "endif") {
            Some(e) => e,
            None => {
                return None;
            },
        };
        proof {
            reveal_strlit("endif");
        }
        Some((Block { config, condition }, diags, close_end))
    }
}

/// The outcome of parsing a whole buffer: either the grammar consumed every
/// character, or it stopped early, and the tree covers only the consumed
/// prefix. `consumed` is then the offending position, in characters; a
/// value of zero means nothing was recognized at all. Either way the
/// diagnostics collected along the way ride beside the tree.
#[derive(Debug, PartialEq)]
pub enum KConfigResult {
    Complete { config: KConfig, diagnostics: Vec<Diagnostic> },
    Partial { config: KConfig, diagnostics: Vec<Diagnostic>, consumed: usize },
}

/// Parse one whole Kconfig buffer. Leftover input is reported as a
/// `Partial` outcome rather than an error or a panic, so a caller can
/// decide per file whether to stop, skip or report.
pub fn take_kconfig(input: &str) -> (r: KConfigResult)
    ensures
        ({
            let e = kconfig_body_end(input@, 0, MAX_NESTING_DEPTH as nat);
            match r {
                KConfigResult::Complete { config, diagnostics } => e == input@.len()
                    && kconfig_node_ok(config, input@, 0, MAX_NESTING_DEPTH as nat),
                KConfigResult::Partial { config, diagnostics, consumed } => consumed == e && e
                    < input@.len() && kconfig_node_ok(config, input@, 0, MAX_NESTING_DEPTH as nat),
            }
        }),
{
    let n = input.unicode_len();
    let (config, diagnostics, end) = KConfig::parse(input, 0, MAX_NESTING_DEPTH);
    if end == n {
        KConfigResult::Complete { config, diagnostics }
    } else {
        KConfigResult::Partial { config, diagnostics, consumed: end }
    }
}

} // verus!

verus! {

/// One production of a configuration body, tried in the parser's order:
/// blank lines, comment, conditional block, `source`, `mainmenu`, option,
/// menu, choice, comment block.
pub open spec fn kconfig_step(s: Seq<char>, cur: int, depth: nat) -> Option<int>
    decreases depth, s.len() - cur, 0int,
{
    if line_end_tok(s, cur) is Some {
        line_end_tok(s, cur)
    } else if comment_tok_end(s, cur) is Some {
        comment_tok_end(s, cur)
    } else if depth > 0 && block_end(s, cur, (depth - 1) as nat) is Some {
        block_end(s, cur, (depth - 1) as nat)
    } else if prompt_end("source"@, s, cur) is Some {
        prompt_end("source"@, s, cur)
    } else if prompt_end("mainmenu"@, s, cur) is Some {
        prompt_end("mainmenu"@, s, cur)
    } else if koption_end(s, cur) is Some {
        koption_end(s, cur)
    } else if depth > 0 && kmenu_end(s, cur, (depth - 1) as nat) is Some {
        kmenu_end(s, cur, (depth - 1) as nat)
    } else if kchoice_end(s, cur) is Some {
        kchoice_end(s, cur)
    } else {
        kcommentblock_end(s, cur)
    }
}

/// The greedy run of configuration body productions from `cur` on; with an
/// exhausted nesting budget nothing is consumed.
pub open spec fn kconfig_body_end(s: Seq<char>, cur: int, depth: nat) -> int
    decreases depth, s.len() - cur, 1int,
{
    if depth == 0 {
        cur
    } else {
        match kconfig_step(s, cur, depth) {
            Some(e) => if cur < e <= s.len() {
                kconfig_body_end(s, e, depth)
            } else {
                cur
            },
            None => cur,
        }
    }
}

/// Where a whole `if ... endif` block standing at `pos` ends: the
/// condition, a nested configuration body, then `endif`. `Block::parse`
/// returns `Some` exactly when this does.
pub open spec fn block_end(s: Seq<char>, pos: int, depth: nat) -> Option<int>
    decreases depth, s.len() - pos, 2int,
{
    if depth == 0 {
        None
    } else {
        match cond_end(s, pos) {
            Some(ce) => if pos < ce <= s.len() {
                let be = kconfig_body_end(s, ce, (depth - 1) as nat);
                let k = space_end(s, be);
                if lit_at(s, k, "endif"@) {
                    Some(k + "endif"@.len())
                } else {
                    None
                }
            } else {
                None
            },
            None => None,
        }
    }
}

} // verus!

verus! {

/// The kinds of configuration body production that populate a field.
pub ghost enum KcfProd {
    BlockProd,
    Source,
    Mainmenu,
    OptionProd,
    MenuProd,
    ChoiceProd,
    CommentProd,
}

/// Whether the body production taken at `c` is of kind `k`: the
/// alternatives before it fail there and its own recognizer succeeds.
pub open spec fn kcf_takes(s: Seq<char>, c: int, d: nat, k: KcfProd) -> bool {
    let no_skip = line_end_tok(s, c) is None && comment_tok_end(s, c) is None;
    let no_blk = no_skip && !(d > 0 && block_end(s, c, (d - 1) as nat) is Some);
    let no_src = no_blk && prompt_end("source"@, s, c) is None;
    let no_mm = no_src && prompt_end("mainmenu"@, s, c) is None;
    let no_opt = no_mm && koption_end(s, c) is None;
    let no_menu = no_opt && !(d > 0 && kmenu_end(s, c, (d - 1) as nat) is Some);
    let no_ch = no_menu && kchoice_end(s, c) is None;
    match k {
        KcfProd::BlockProd => no_skip && d > 0 && block_end(s, c, (d - 1) as nat) is Some,
        KcfProd::Source => no_blk && prompt_end("source"@, s, c) is Some,
        KcfProd::Mainmenu => no_src && prompt_end("mainmenu"@, s, c) is Some,
        KcfProd::OptionProd => no_mm && koption_end(s, c) is Some,
        KcfProd::MenuProd => no_opt && d > 0 && kmenu_end(s, c, (d - 1) as nat) is Some,
        KcfProd::ChoiceProd => no_menu && kchoice_end(s, c) is Some,
        KcfProd::CommentProd => no_ch && kcommentblock_end(s, c) is Some,
    }
}

/// The positions, in order, at which the greedy configuration body run from
/// `cur` takes a production of kind `k`; nothing with an exhausted nesting
/// budget.
pub open spec fn kcf_positions(s: Seq<char>, cur: int, d: nat, k: KcfProd) -> Seq<int>
    decreases s.len() - cur when 0 <= cur <= s.len()
{
    if d == 0 {
        Seq::empty()
    } else {
        match kconfig_step(s, cur, d) {
            Some(e) => if cur < e <= s.len() {
                (if kcf_takes(s, cur, d, k) {
                    seq![cur]
                } else {
                    Seq::<int>::empty()
                }) + kcf_positions(s, e, d, k)
            } else {
                Seq::empty()
            },
            None => Seq::empty(),
        }
    }
}

/// The `mainmenu` field holds the prompt of the first `mainmenu` production
/// taken, or nothing when none was.
pub open spec fn mainmenu_field_ok(mm: Option<Prompt>, s: Seq<char>, ps: Seq<int>) -> bool {
    if ps.len() == 0 {
        mm is None
    } else {
        match mm {
            Some(p) => prompt_ok(p, "mainmenu"@, s, ps.first()),
            None => false,
        }
    }
}

/// Everything a parsed conditional block's fields say about the input: the
/// leading condition's verbatim text and the nested body, itself tied to
/// the span between the condition and `endif`.
pub open spec fn block_node_ok(b: Block, s: Seq<char>, pos: int, d: nat) -> bool
    decreases d, 1int,
{
    let a = sspace_end(s, pos);
    let bb = sspace_end(s, a + "if"@.len());
    &&& cond_end(s, pos) is Some
    &&& b.condition.expression.val@.len() > 0
    &&& b.condition.expression.val@ == s.subrange(bb, bb + b.condition.expression.val@.len())
    &&& (match cond_end(s, pos) {
        Some(ce) => d > 0 && kconfig_node_ok(b.config, s, ce, (d - 1) as nat),
        None => false,
    })
}

/// Everything a parsed configuration body's fields say about the input:
/// the first-wins `mainmenu`, and each child list holding exactly the nodes
/// of the productions its body run takes, in order, each tied to its own
/// position.
pub open spec fn kconfig_node_ok(c: KConfig, s: Seq<char>, pos: int, d: nat) -> bool
    decreases d, 2int,
{
    let bl = match c.blocks {
        Some(v) => v@,
        None => Seq::<Block>::empty(),
    };
    let ch = match c.choices {
        Some(v) => v@,
        None => Seq::<KChoice>::empty(),
    };
    let cm = match c.comments {
        Some(v) => v@,
        None => Seq::<KCommentBlock>::empty(),
    };
    let cf = match c.configs {
        Some(v) => v@,
        None => Seq::<Prompt>::empty(),
    };
    let mn = match c.menus {
        Some(v) => v@,
        None => Seq::<KMenu>::empty(),
    };
    let op = match c.options {
        Some(v) => v@,
        None => Seq::<KOption>::empty(),
    };
    &&& c.lists_wf()
    &&& mainmenu_field_ok(c.mainmenu, s, kcf_positions(s, pos, d, KcfProd::Mainmenu))
    &&& bl.len() == kcf_positions(s, pos, d, KcfProd::BlockProd).len()
    &&& (forall|i: int|
        0 <= i < bl.len() ==> d > 0 && block_node_ok(
            #[trigger] bl[i],
            s,
            kcf_positions(s, pos, d, KcfProd::BlockProd)[i],
            (d - 1) as nat,
        ))
    &&& ch.len() == kcf_positions(s, pos, d, KcfProd::ChoiceProd).len()
    &&& (forall|i: int|
        0 <= i < ch.len() ==> kchoice_node_ok(
            #[trigger] ch[i],
            s,
            kcf_positions(s, pos, d, KcfProd::ChoiceProd)[i],
        ))
    &&& cm.len() == kcf_positions(s, pos, d, KcfProd::CommentProd).len()
    &&& (forall|i: int|
        0 <= i < cm.len() ==> kcommentblock_node_ok(
            #[trigger] cm[i],
            s,
            kcf_positions(s, pos, d, KcfProd::CommentProd)[i],
        ))
    &&& cf.len() == kcf_positions(s, pos, d, KcfProd::Source).len()
    &&& (forall|i: int|
        0 <= i < cf.len() ==> prompt_ok(
            #[trigger] cf[i],
            "source"@,
            s,
            kcf_positions(s, pos, d, KcfProd::Source)[i],
        ))
    &&& mn.len() == kcf_positions(s, pos, d, KcfProd::MenuProd).len()
    &&& (forall|i: int|
        0 <= i < mn.len() ==> d > 0 && kmenu_node_ok(
            #[trigger] mn[i],
            s,
            kcf_positions(s, pos, d, KcfProd::MenuProd)[i],
            (d - 1) as nat,
        ))
    &&& op.len() == kcf_positions(s, pos, d, KcfProd::OptionProd).len()
    &&& (forall|i: int|
        0 <= i < op.len() ==> koption_node_ok(
            #[trigger] op[i],
            s,
            kcf_positions(s, pos, d, KcfProd::OptionProd)[i],
        ))
}

/// One step of one configuration content collector.
proof fn lemma_kcf_collect_step(s: Seq<char>, cur: int, e: int, d: nat, k: KcfProd, pre: Seq<int>)
    requires
        0 <= cur < e <= s.len(),
        d > 0,
        kconfig_step(s, cur, d) == Some(e),
    ensures
        pre + kcf_positions(s, cur, d, k) == (if kcf_takes(s, cur, d, k) {
            pre.push(cur)
        } else {
            pre
        }) + kcf_positions(s, e, d, k),
{
    if kcf_takes(s, cur, d, k) {
        assert(pre + (seq![cur] + kcf_positions(s, e, d, k)) =~= pre.push(cur) + kcf_positions(
            s,
            e,
            d,
            k,
        ));
    } else {
        assert(pre + (Seq::<int>::empty() + kcf_positions(s, e, d, k)) =~= pre + kcf_positions(
            s,
            e,
            d,
            k,
        ));
    }
}

/// One step of every configuration content collector at once.
proof fn lemma_kcf_collect_all(
    s: Seq<char>,
    cur: int,
    e: int,
    d: nat,
    bp: Seq<int>,
    sp: Seq<int>,
    mm: Seq<int>,
    op: Seq<int>,
    mp: Seq<int>,
    cp: Seq<int>,
    cb: Seq<int>,
)
    requires
        0 <= cur < e <= s.len(),
        d > 0,
        kconfig_step(s, cur, d) == Some(e),
    ensures
        bp + kcf_positions(s, cur, d, KcfProd::BlockProd) == (if kcf_takes(s, cur, d, KcfProd::BlockProd) { bp.push(cur) } else { bp }) + kcf_positions(s, e, d, KcfProd::BlockProd),
        sp + kcf_positions(s, cur, d, KcfProd::Source) == (if kcf_takes(s, cur, d, KcfProd::Source) { sp.push(cur) } else { sp }) + kcf_positions(s, e, d, KcfProd::Source),
        mm + kcf_positions(s, cur, d, KcfProd::Mainmenu) == (if kcf_takes(s, cur, d, KcfProd::Mainmenu) { mm.push(cur) } else { mm }) + kcf_positions(s, e, d, KcfProd::Mainmenu),
        op + kcf_positions(s, cur, d, KcfProd::OptionProd) == (if kcf_takes(s, cur, d, KcfProd::OptionProd) { op.push(cur) } else { op }) + kcf_positions(s, e, d, KcfProd::OptionProd),
        mp + kcf_positions(s, cur, d, KcfProd::MenuProd) == (if kcf_takes(s, cur, d, KcfProd::MenuProd) { mp.push(cur) } else { mp }) + kcf_positions(s, e, d, KcfProd::MenuProd),
        cp + kcf_positions(s, cur, d, KcfProd::ChoiceProd) == (if kcf_takes(s, cur, d, KcfProd::ChoiceProd) { cp.push(cur) } else { cp }) + kcf_positions(s, e, d, KcfProd::ChoiceProd),
        cb + kcf_positions(s, cur, d, KcfProd::CommentProd) == (if kcf_takes(s, cur, d, KcfProd::CommentProd) { cb.push(cur) } else { cb }) + kcf_positions(s, e, d, KcfProd::CommentProd),
{
    lemma_kcf_collect_step(s, cur, e, d, KcfProd::BlockProd, bp);
    lemma_kcf_collect_step(s, cur, e, d, KcfProd::Source, sp);
    lemma_kcf_collect_step(s, cur, e, d, KcfProd::Mainmenu, mm);
    lemma_kcf_collect_step(s, cur, e, d, KcfProd::OptionProd, op);
    lemma_kcf_collect_step(s, cur, e, d, KcfProd::MenuProd, mp);
    lemma_kcf_collect_step(s, cur, e, d, KcfProd::ChoiceProd, cp);
    lemma_kcf_collect_step(s, cur, e, d, KcfProd::CommentProd, cb);
}

} // verus!
