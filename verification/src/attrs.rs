//! Attribute parsers: the keyword-led lines that populate options, choices
//! and menus (`prompt`, `depends on`, `default`, `select`, `imply`, `range`,
//! `help`), each an expression or symbol with an optional trailing
//! `if <expression>` condition.
use vstd::prelude::*;
use crate::util::{capture, cols_upto, dec_end, dec_val, find_newline, hex_end, hex_val,
    indent_cols, lit_at, match_lit, qstr_close, skip_space0, space_char, space_end, sspace_end,
    sym_end};
use crate::token::{hex_tok_end, int_tok_end, ConstantSymbol, Hex, Int, Symbol};
use crate::expr::{cond_end, expr_end, Condition, Expression};

verus! {

/// A display label: a quoted string with an optional condition.
#[derive(Debug, Clone, PartialEq)]
pub struct Prompt {
    pub text: ConstantSymbol,
    pub condition: Option<Condition>,
}

impl Prompt {
    /// Parse `<keyword> "<label>" [if <expr>]` after optional spaces. The
    /// keyword may be empty, for the inline prompt on a type line.
    pub fn parse(kw: &str, input: &str, pos: usize) -> (r: Option<(Prompt, usize)>)
        requires
            pos <= input@.len(),
        ensures
            ({
                let s = input@;
                let k = space_end(s, pos as int);
                let k2 = space_end(s, k + kw@.len());
                match r {
                    Some(p) => {
                        &&& pos < p.1 <= s.len()
                        &&& prompt_end(kw@, s, pos as int) == Some(p.1 as int)
                        &&& lit_at(s, k, kw@)
                        &&& k2 < s.len() && p.0.text.quote_char() == s[k2]
                        &&& (match qstr_close(s, s[k2], k2 + 1) {
                            Some(ce) => p.0.text.content_view() == s.subrange(k2 + 1, ce)
                                && cond_field_ok(p.0.condition, s, ce + 1, p.1 as int),
                            None => false,
                        })
                        &&& prompt_ok(p.0, kw@, s, pos as int)
                    },
                    None => prompt_end(kw@, s, pos as int) is None,
                }
            }),
    {
        let k = skip_space0(input, pos);
        let kw_end = match match_lit(input, k, kw) {
            Some(e) => e,
            None => {
                return None;
            },
        };
        let (text, text_end) = match ConstantSymbol::parse(input, kw_end) {
            Some(p) => p,
            None => {
                return None;
            },
        };
        match Condition::parse(input, text_end) {
            Some((condition, end)) => Some((Prompt { text, condition: Some(condition) }, end)),
            None => Some((Prompt { text, condition: None }, text_end)),
        }
    }
}

/// A dependency-shaped attribute: an expression with an optional condition.
/// Shared by `depends on`, `default`, `def_bool`, `def_tristate` and
/// `visible if`.
#[derive(Debug, Clone, PartialEq)]
pub struct Dependency {
    pub expression: Expression,
    pub condition: Option<Condition>,
}

impl Dependency {
    /// Parse `<keyword> <expr> [if <expr>]`; at least one space or tab must
    /// separate the keyword from the expression.
    pub fn parse(kw: &str, input: &str, pos: usize) -> (r: Option<(Dependency, usize)>)
        requires
            pos <= input@.len(),
        ensures
            ({
                let s = input@;
                let ke = space_end(s, pos as int) + kw@.len();
                let e0 = space_end(s, ke);
                match r {
                    Some(p) => {
                        &&& pos < p.1 <= s.len()
                        &&& dependency_end(kw@, s, pos as int) == Some(p.1 as int)
                        &&& lit_at(s, space_end(s, pos as int), kw@)
                        &&& ke < s.len() && space_char(s[ke])
                        &&& p.0.expression.val@.len() > 0
                        &&& expr_end(s, e0) == Some(e0 + p.0.expression.val@.len())
                        &&& p.0.expression.val@ == s.subrange(
                            e0,
                            e0 + p.0.expression.val@.len(),
                        )
                        &&& cond_field_ok(
                            p.0.condition,
                            s,
                            e0 + p.0.expression.val@.len(),
                            p.1 as int,
                        )
                        &&& dependency_ok(p.0, kw@, s, pos as int)
                    },
                    None => dependency_end(kw@, s, pos as int) is None,
                }
            }),
    {
        let n = input.unicode_len();
        let k = skip_space0(input, pos);
        let kw_end = match match_lit(input, k, kw) {
            Some(e) => e,
            None => {
                return None;
            },
        };
        if kw_end >= n {
            return None;
        }
        let c = input.get_char(kw_end);
        if !(c == ' ' || c == '\t') {
            return None;
        }
        let e0 = skip_space0(input, kw_end);
        let (expression, expr_end) = match Expression::parse(input, e0) {
            Some(p) => p,
            None => {
                return None;
            },
        };
        match Condition::parse(input, expr_end) {
            Some((condition, end)) => Some((Dependency { expression, condition: Some(condition) },
                end)),
            None => Some((Dependency { expression, condition: None }, expr_end)),
        }
    }
}

/// A reverse dependency: a bare symbol with an optional condition, the shape
/// of `select` and `imply`.
#[derive(Debug, Clone, PartialEq)]
pub struct ReverseDependency {
    pub symbol: Symbol,
    pub condition: Option<Condition>,
}

impl ReverseDependency {
    /// Parse `<keyword> <symbol> [if <expr>]`; at least one space or tab
    /// must separate the keyword from the symbol.
    pub fn parse(kw: &str, input: &str, pos: usize) -> (r: Option<(ReverseDependency, usize)>)
        requires
            pos <= input@.len(),
        ensures
            ({
                let s = input@;
                let ke = space_end(s, pos as int) + kw@.len();
                let s0 = space_end(s, ke);
                match r {
                    Some(p) => {
                        &&& pos < p.1 <= s.len()
                        &&& rdep_end(kw@, s, pos as int) == Some(p.1 as int)
                        &&& lit_at(s, space_end(s, pos as int), kw@)
                        &&& ke < s.len() && space_char(s[ke])
                        &&& p.0.symbol.name@.len() > 0
                        &&& p.0.symbol.name@ == s.subrange(s0, sym_end(s, s0))
                        &&& cond_field_ok(p.0.condition, s, sym_end(s, s0), p.1 as int)
                        &&& rdep_ok(p.0, kw@, s, pos as int)
                    },
                    None => rdep_end(kw@, s, pos as int) is None,
                }
            }),
    {
        let n = input.unicode_len();
        let k = skip_space0(input, pos);
        let kw_end = match match_lit(input, k, kw) {
            Some(e) => e,
            None => {
                return None;
            },
        };
        if kw_end >= n {
            return None;
        }
        let c = input.get_char(kw_end);
        if !(c == ' ' || c == '\t') {
            return None;
        }
        let s0 = skip_space0(input, kw_end);
        let (symbol, sym_end_pos) = match Symbol::parse(input, s0) {
            Some(p) => p,
            None => {
                return None;
            },
        };
        match Condition::parse(input, sym_end_pos) {
            Some((condition, end)) => Some((ReverseDependency { symbol, condition: Some(condition) },
                end)),
            None => Some((ReverseDependency { symbol, condition: None }, sym_end_pos)),
        }
    }
}

/// One bound of a range: a decimal number, a hexadecimal number or a symbol.
#[derive(Debug, Clone, PartialEq)]
pub enum RangeType {
    Int(Int),
    Hex(Hex),
    Symbol(Symbol),
}

/// Both bounds of a range are of the same kind.
pub open spec fn range_same_kind(start: RangeType, end: RangeType) -> bool {
    match (start, end) {
        (RangeType::Int(_a), RangeType::Int(_b)) => true,
        (RangeType::Hex(_a), RangeType::Hex(_b)) => true,
        (RangeType::Symbol(_a), RangeType::Symbol(_b)) => true,
        _ => false,
    }
}

/// A `range <low> <high> [if <expr>]` attribute; both bounds must be of the
/// same kind - two hexadecimal numbers, two decimal numbers or two symbols.
#[derive(Debug, Clone, PartialEq)]
pub struct Range {
    pub start: RangeType,
    pub end: RangeType,
    pub condition: Option<Condition>,
}

/// Parse `<operand> <operand>` where both operands accept through the same
/// sub-parser kind; helper for `Range::parse`.
fn range_pair(input: &str, pos: usize) -> (r: Option<(RangeType, RangeType, usize)>)
    requires
        pos <= input@.len(),
    ensures
        match r {
            Some(p) => pos < p.2 <= input@.len() && range_same_kind(p.0, p.1) && pair_end(
                input@,
                pos as int,
            ) == Some(p.2 as int) && pair_ok(p.0, p.1, input@, pos as int),
            None => pair_end(input@, pos as int) is None,
        },
{
    if let Some((h1, e1)) = Hex::parse(input, pos) {
        if space1_at(input, e1) {
            let s1 = skip_space0(input, e1);
            if let Some((h2, e2)) = Hex::parse(input, s1) {
                return Some((RangeType::Hex(h1), RangeType::Hex(h2), e2));
            }
        }
    }
    if let Some((i1, e1)) = Int::parse(input, pos) {
        if space1_at(input, e1) {
            let s1 = skip_space0(input, e1);
            if let Some((i2, e2)) = Int::parse(input, s1) {
                return Some((RangeType::Int(i1), RangeType::Int(i2), e2));
            }
        }
    }
    if let Some((m1, e1)) = Symbol::parse(input, pos) {
        if space1_at(input, e1) {
            let s1 = skip_space0(input, e1);
            if let Some((m2, e2)) = Symbol::parse(input, s1) {
                return Some((RangeType::Symbol(m1), RangeType::Symbol(m2), e2));
            }
        }
    }
    None
}

/// At least one space or tab stands at `pos`.
fn space1_at(input: &str, pos: usize) -> (r: bool)
    requires
        pos <= input@.len(),
    ensures
        r == (pos < input@.len() && space_char(input@[pos as int])),
{
    if pos < input.unicode_len() {
        let c = input.get_char(pos);
        c == ' ' || c == '\t'
    } else {
        false
    }
}

impl Range {
    /// Parse `<keyword> <low> <high> [if <expr>]`. Mixed-kind bounds are
    /// rejected; the alternatives are tried as hexadecimal pair, decimal
    /// pair, then symbol pair.
    pub fn parse(kw: &str, input: &str, pos: usize) -> (r: Option<(Range, usize)>)
        requires
            pos <= input@.len(),
        ensures
            ({
                let s = input@;
                let ke = space_end(s, pos as int) + kw@.len();
                let p0 = space_end(s, ke);
                match r {
                    Some(p) => {
                        &&& pos < p.1 <= s.len()
                        &&& range_end(kw@, s, pos as int) == Some(p.1 as int)
                        &&& lit_at(s, space_end(s, pos as int), kw@)
                        &&& ke < s.len() && space_char(s[ke])
                        &&& range_same_kind(p.0.start, p.0.end)
                        &&& (match pair_end(s, p0) {
                            Some(pe) => cond_field_ok(p.0.condition, s, pe, p.1 as int),
                            None => false,
                        })
                        &&& range_ok(p.0, kw@, s, pos as int)
                    },
                    None => range_end(kw@, s, pos as int) is None,
                }
            }),
    {
        let n = input.unicode_len();
        let k = skip_space0(input, pos);
        let kw_end = match match_lit(input, k, kw) {
            Some(e) => e,
            None => {
                return None;
            },
        };
        if kw_end >= n {
            return None;
        }
        let c = input.get_char(kw_end);
        if !(c == ' ' || c == '\t') {
            return None;
        }
        let p0 = skip_space0(input, kw_end);
        let (start, end_bound, pair_end) = match range_pair(input, p0) {
            Some(p) => p,
            None => {
                return None;
            },
        };
        match Condition::parse(input, pair_end) {
            Some((condition, end)) => Some((Range { start, end: end_bound, condition: Some(
                condition,
            ) }, end)),
            None => Some((Range { start, end: end_bound, condition: None }, pair_end)),
        }
    }
}

/// A free-form help block: its lines, indentation-normalized against the
/// block's baseline (the indentation of its first line). A deeper line
/// keeps its excess indentation as spaces; a blank line is kept empty.
#[derive(Debug, Clone, PartialEq)]
pub struct Help {
    pub text: Vec<String>,
}

impl Help {
    /// Parse a help block: the keyword alone on its line, then lines at or
    /// beyond the baseline indentation set by the first of them. The block
    /// ends at the first shallower non-blank line, which is not consumed,
    /// or at the end of input.
    pub fn parse(kw: &str, input: &str, pos: usize) -> (r: Option<(Help, usize)>)
        requires
            pos <= input@.len(),
        ensures
            ({
                let s = input@;
                match r {
                    Some(p) => pos < p.1 <= s.len() && (match help_result(kw@, s, pos as int) {
                        Some(hr) => p.1 == hr.1 && lines_view(p.0.text@) == hr.0,
                        None => false,
                    }) && help_ok(p.0, kw@, s, pos as int),
                    None => help_result(kw@, s, pos as int) is None,
                }
            }),
    {
        let n = input.unicode_len();
        let k = skip_space0(input, pos);
        let kw_end = match match_lit(input, k, kw) {
            Some(e) => e,
            None => {
                return None;
            },
        };
        // one or more line terminators, each allowing trailing spaces first
        let mut cur = kw_end;
        let mut got_newline = false;
        loop
            invariant
                kw_end <= cur <= n,
                n == input@.len(),
                got_newline <==> kw_end < cur,
                help_nl_run(input@, kw_end as int) == help_nl_run(input@, cur as int),
            ensures
                kw_end <= cur <= n,
                got_newline <==> kw_end < cur,
                cur == help_nl_run(input@, kw_end as int),
            decreases n - cur,
        {
            let k2 = skip_space0(input, cur);
            if k2 < n && input.get_char(k2) == '\n' {
                cur = k2 + 1;
                got_newline = true;
            } else {
                break ;
            }
        }
        if !got_newline {
            return None;
        }
        // the first line's indentation sets the baseline
        if cur >= n {
            return None;
        }
        let c0 = input.get_char(cur);
        if !(c0 == ' ' || c0 == '\t') {
            return None;
        }
        let cur0 = cur;
        let (base, _bend) = indent_cols(input, cur);
        proof {
            assert(help_result(kw@, input@, pos as int) == help_lines(
                input@,
                cur0 as int,
                base as nat,
            ));
        }
        let mut text: Vec<String> = Vec::new();
        loop
            invariant
                kw_end < cur0 <= cur <= n,
                n == input@.len(),
                base == cols_upto(input@, cur0 as int, space_end(input@, cur0 as int), 0),
                help_result(kw@, input@, pos as int) == help_lines(
                    input@,
                    cur0 as int,
                    base as nat,
                ),
                help_lines(input@, cur0 as int, base as nat) == (match help_lines(
                    input@,
                    cur as int,
                    base as nat,
                ) {
                    Some(t) => Some(
                        (lines_view(text@) + t.0, t.1),
                    ),
                    None => None::<(Seq<Seq<char>>, int)>,
                }),
            ensures
                kw_end < cur <= n,
                help_lines(input@, cur0 as int, base as nat) == Some(
                    (lines_view(text@), cur as int),
                ),
            decreases n - cur,
        {
            if cur >= n {
                proof {
                    lemma_lines_snoc_empty(text@);
                }
                break ;
            }
            let ghost prev = text@;
            let c = input.get_char(cur);
            if c == '\n' {
                // a bare blank line
                let blank = String::new();
                proof {
                    assert forall|rest: Seq<Seq<char>>| true implies lines_view(prev.push(blank))
                        + rest == lines_view(prev) + (seq![blank@] + rest) by {
                        lemma_lines_push(prev, blank, rest);
                    }
                }
                text.push(blank);
                cur = cur + 1;
                continue ;
            }
            if !(c == ' ' || c == '\t') {
                // a line with no indentation ends the block
                proof {
                    lemma_lines_snoc_empty(text@);
                }
                break ;
            }
            let (cols, wend) = indent_cols(input, cur);
            // the line's content runs to the newline or the end of input
            let mut content_end = wend;
            while content_end < n && input.get_char(content_end) != '\n'
                invariant
                    wend <= content_end <= n,
                    n == input@.len(),
                    find_newline(input@, wend as int) == find_newline(input@, content_end as int),
                decreases n - content_end,
            {
                content_end = content_end + 1;
            }
            if content_end == wend {
                // a whitespace-only line stays in the block as a blank line
                let blank = String::new();
                proof {
                    assert forall|rest: Seq<Seq<char>>| true implies lines_view(prev.push(blank))
                        + rest == lines_view(prev) + (seq![blank@] + rest) by {
                        lemma_lines_push(prev, blank, rest);
                    }
                }
                text.push(blank);
                if content_end < n {
                    cur = content_end + 1;
                } else {
                    cur = content_end;
                }
                continue ;
            }
            if cols < base {
                // a shallower non-blank line ends the block, unconsumed
                proof {
                    lemma_lines_snoc_empty(text@);
                }
                break ;
            }
            let excess = cols - base;
            if excess > usize::MAX as u128 {
                return None;
            }
            let mut line = String::new();
            let mut i: usize = 0;
            let excess_sz = excess as usize;
            while i < excess_sz
                invariant
                    0 <= i <= excess_sz,
                    line@ =~= Seq::new(i as nat, |x: int| ' '),
                decreases excess_sz - i,
            {
                line.append(" ");
                proof {
                    reveal_strlit(" ");
                    assert(line@ =~= Seq::new(i as nat + 1, |x: int| ' '));
                }
                i = i + 1;
            }
            let content = capture(input, wend, content_end);
            line.append(content.as_str());
            proof {
                assert(line@ =~= Seq::new((cols - base) as nat, |x: int| ' ') + input@.subrange(
                    wend as int,
                    content_end as int,
                ));
                assert forall|rest: Seq<Seq<char>>| true implies lines_view(prev.push(line)) + rest
                    == lines_view(prev) + (seq![line@] + rest) by {
                    lemma_lines_push(prev, line, rest);
                }
            }
            text.push(line);
            if content_end < n {
                cur = content_end + 1;
            } else {
                cur = content_end;
            }
        }
        Some((Help { text }, cur))
    }
}

} // verus!

verus! {

// ---------------------------------------------------------------------------
// Specification-level recognizer of the attribute grammar. Each function
// mirrors one parser above; the parsers' contracts are stated against
// these, so success, the consumed span and the captured payloads are all
// forced.
// ---------------------------------------------------------------------------

/// Where a quoted literal (after optional spaces) standing at `pos` ends.
pub open spec fn constsym_end(s: Seq<char>, pos: int) -> Option<int> {
    let k = space_end(s, pos);
    if k < s.len() && (s[k] == '\'' || s[k] == '"') {
        match qstr_close(s, s[k], k + 1) {
            Some(c) => Some(c + 1),
            None => None,
        }
    } else {
        None
    }
}

/// The trailing-condition field of an attribute is faithful: it is present
/// exactly when an `if <expression>` stands at `at`, it carries that
/// expression's verbatim text, and the attribute ends at `end`.
pub open spec fn cond_field_ok(cond: Option<Condition>, s: Seq<char>, at: int, end: int) -> bool {
    match cond {
        Some(c) => {
            let a = sspace_end(s, at);
            let b = sspace_end(s, a + "if"@.len());
            &&& cond_end(s, at) == Some(end)
            &&& c.expression.val@.len() > 0
            &&& c.expression.val@ == s.subrange(b, b + c.expression.val@.len())
        },
        None => cond_end(s, at) is None && end == at,
    }
}

/// Where a prompt attribute with keyword `kw` standing at `pos` ends.
pub open spec fn prompt_end(kw: Seq<char>, s: Seq<char>, pos: int) -> Option<int> {
    let k = space_end(s, pos);
    if lit_at(s, k, kw) {
        match constsym_end(s, k + kw.len()) {
            Some(ce) => match cond_end(s, ce) {
                Some(e) => Some(e),
                None => Some(ce),
            },
            None => None,
        }
    } else {
        None
    }
}

/// Where a dependency attribute with keyword `kw` standing at `pos` ends.
pub open spec fn dependency_end(kw: Seq<char>, s: Seq<char>, pos: int) -> Option<int> {
    let k = space_end(s, pos);
    if lit_at(s, k, kw) {
        let ke = k + kw.len();
        if ke < s.len() && space_char(s[ke]) {
            match expr_end(s, space_end(s, ke)) {
                Some(xe) => match cond_end(s, xe) {
                    Some(e) => Some(e),
                    None => Some(xe),
                },
                None => None,
            }
        } else {
            None
        }
    } else {
        None
    }
}

/// Where a reverse-dependency attribute with keyword `kw` standing at
/// `pos` ends.
pub open spec fn rdep_end(kw: Seq<char>, s: Seq<char>, pos: int) -> Option<int> {
    let k = space_end(s, pos);
    if lit_at(s, k, kw) {
        let ke = k + kw.len();
        if ke < s.len() && space_char(s[ke]) {
            let s0 = space_end(s, ke);
            if sym_end(s, s0) > s0 {
                match cond_end(s, sym_end(s, s0)) {
                    Some(e) => Some(e),
                    None => Some(sym_end(s, s0)),
                }
            } else {
                None
            }
        } else {
            None
        }
    } else {
        None
    }
}

/// Where a same-kind pair of range bounds standing at `pos` ends: two
/// hexadecimal literals, else two decimal literals, else two symbols,
/// separated by spaces.
pub open spec fn pair_end(s: Seq<char>, pos: int) -> Option<int> {
    let hp = match hex_tok_end(s, pos) {
        Some(e1) => if e1 < s.len() && space_char(s[e1]) {
            hex_tok_end(s, space_end(s, e1))
        } else {
            None
        },
        None => None,
    };
    let ip = match int_tok_end(s, pos) {
        Some(e1) => if e1 < s.len() && space_char(s[e1]) {
            int_tok_end(s, space_end(s, e1))
        } else {
            None
        },
        None => None,
    };
    if hp is Some {
        hp
    } else if ip is Some {
        ip
    } else if sym_end(s, pos) > pos {
        let e1 = sym_end(s, pos);
        if e1 < s.len() && space_char(s[e1]) {
            let s1 = space_end(s, e1);
            if sym_end(s, s1) > s1 {
                Some(sym_end(s, s1))
            } else {
                None
            }
        } else {
            None
        }
    } else {
        None
    }
}

/// Where a range attribute with keyword `kw` standing at `pos` ends.
pub open spec fn range_end(kw: Seq<char>, s: Seq<char>, pos: int) -> Option<int> {
    let k = space_end(s, pos);
    if lit_at(s, k, kw) {
        let ke = k + kw.len();
        if ke < s.len() && space_char(s[ke]) {
            match pair_end(s, space_end(s, ke)) {
                Some(pe) => match cond_end(s, pe) {
                    Some(e) => Some(e),
                    None => Some(pe),
                },
                None => None,
            }
        } else {
            None
        }
    } else {
        None
    }
}

/// The greedy run of `spaces* '\n'` steps after the `help` keyword.
pub open spec fn help_nl_run(s: Seq<char>, cur: int) -> int
    decreases s.len() - cur when 0 <= cur <= s.len()
{
    let k2 = space_end(s, cur);
    if k2 < s.len() && s[k2] == '\n' {
        if cur < k2 + 1 <= s.len() {
            help_nl_run(s, k2 + 1)
        } else {
            cur
        }
    } else {
        cur
    }
}

/// The lines of a help block from `cur` on, under baseline `base`, and the
/// position where the block ends: a bare or whitespace-only line joins the
/// block as an empty line; a non-blank line at or beyond the baseline
/// joins with its excess indentation rewritten as spaces; a shallower
/// non-blank line, or one with no indentation, ends the block unconsumed.
/// `None` when a line's excess indentation overflows a machine word.
pub open spec fn help_lines(s: Seq<char>, cur: int, base: nat) -> Option<(Seq<Seq<char>>, int)>
    decreases s.len() - cur when 0 <= cur
{
    if cur >= s.len() {
        Some((Seq::empty(), cur))
    } else if s[cur] == '\n' {
        match help_lines(s, cur + 1, base) {
            Some(t) => Some((seq![Seq::<char>::empty()] + t.0, t.1)),
            None => None,
        }
    } else if !space_char(s[cur]) {
        Some((Seq::empty(), cur))
    } else {
        let wend = space_end(s, cur);
        let cols = cols_upto(s, cur, wend, 0);
        let cend = match find_newline(s, wend) {
            Some(j) => j,
            None => s.len() as int,
        };
        let next = if cend < s.len() {
            cend + 1
        } else {
            cend
        };
        if cend == wend {
            if cur < next <= s.len() {
                match help_lines(s, next, base) {
                    Some(t) => Some((seq![Seq::<char>::empty()] + t.0, t.1)),
                    None => None,
                }
            } else {
                Some((Seq::empty(), cur))
            }
        } else if cols < base {
            Some((Seq::empty(), cur))
        } else if cols - base > usize::MAX {
            None
        } else {
            let line = Seq::new((cols - base) as nat, |i: int| ' ') + s.subrange(wend, cend);
            if cur < next <= s.len() {
                match help_lines(s, next, base) {
                    Some(t) => Some((seq![line] + t.0, t.1)),
                    None => None,
                }
            } else {
                Some((Seq::empty(), cur))
            }
        }
    }
}

/// The captured lines and the end of a help block with keyword `kw`
/// standing at `pos`, or `None` when none stands there. `Help::parse`
/// returns `Some` exactly when this does, with exactly these lines.
pub open spec fn help_result(kw: Seq<char>, s: Seq<char>, pos: int) -> Option<(Seq<Seq<char>>,
    int)> {
    let k = space_end(s, pos);
    if lit_at(s, k, kw) {
        let kwe = k + kw.len();
        let cur0 = help_nl_run(s, kwe);
        if cur0 > kwe && cur0 < s.len() && space_char(s[cur0]) {
            help_lines(s, cur0, cols_upto(s, cur0, space_end(s, cur0), 0))
        } else {
            None
        }
    } else {
        None
    }
}

/// The views of a vector of captured lines.
pub open spec fn lines_view(ls: Seq<String>) -> Seq<Seq<char>> {
    ls.map_values(|l: String| l@)
}

} // verus!

verus! {

/// Appending one captured line to the processed prefix keeps the
/// processed-plus-remaining view of a help block intact.
proof fn lemma_lines_push(prev: Seq<String>, x: String, rest: Seq<Seq<char>>)
    ensures
        lines_view(prev.push(x)) + rest == lines_view(prev) + (seq![x@] + rest),
{
    assert(lines_view(prev.push(x)) =~= lines_view(prev).push(x@));
    assert(lines_view(prev.push(x)) + rest =~~= lines_view(prev) + (seq![x@] + rest));
}

/// A finished help block's lines are its processed prefix alone.
proof fn lemma_lines_snoc_empty(ls: Seq<String>)
    ensures
        lines_view(ls) + Seq::<Seq<char>>::empty() == lines_view(ls),
{
    assert(lines_view(ls) + Seq::<Seq<char>>::empty() =~~= lines_view(ls));
}

} // verus!

verus! {

// ---------------------------------------------------------------------------
// Payload predicates: what a parsed attribute's fields hold, as a function
// of the input position its production was taken at. The attribute parsers
// ensure them, and the entity parsers reuse them to tie every element of
// their attribute lists to the input.
// ---------------------------------------------------------------------------

/// The fields of a prompt parsed at `pos` with keyword `kw`.
pub open spec fn prompt_ok(p: Prompt, kw: Seq<char>, s: Seq<char>, pos: int) -> bool {
    let k = space_end(s, pos);
    let k2 = space_end(s, k + kw.len());
    &&& prompt_end(kw, s, pos) is Some
    &&& lit_at(s, k, kw)
    &&& k2 < s.len() && p.text.quote_char() == s[k2]
    &&& (match qstr_close(s, s[k2], k2 + 1) {
        Some(ce) => p.text.content_view() == s.subrange(k2 + 1, ce) && cond_field_ok(
            p.condition,
            s,
            ce + 1,
            match prompt_end(kw, s, pos) {
                Some(e) => e,
                None => 0,
            },
        ),
        None => false,
    })
}

/// The fields of a dependency parsed at `pos` with keyword `kw`.
pub open spec fn dependency_ok(d: Dependency, kw: Seq<char>, s: Seq<char>, pos: int) -> bool {
    let k = space_end(s, pos);
    let ke = k + kw.len();
    let e0 = space_end(s, ke);
    &&& dependency_end(kw, s, pos) is Some
    &&& lit_at(s, k, kw)
    &&& ke < s.len() && space_char(s[ke])
    &&& d.expression.val@.len() > 0
    &&& expr_end(s, e0) == Some(e0 + d.expression.val@.len())
    &&& d.expression.val@ == s.subrange(e0, e0 + d.expression.val@.len())
    &&& cond_field_ok(
        d.condition,
        s,
        e0 + d.expression.val@.len(),
        match dependency_end(kw, s, pos) {
            Some(e) => e,
            None => 0,
        },
    )
}

/// The fields of a reverse dependency parsed at `pos` with keyword `kw`.
pub open spec fn rdep_ok(d: ReverseDependency, kw: Seq<char>, s: Seq<char>, pos: int) -> bool {
    let k = space_end(s, pos);
    let ke = k + kw.len();
    let s0 = space_end(s, ke);
    &&& rdep_end(kw, s, pos) is Some
    &&& lit_at(s, k, kw)
    &&& ke < s.len() && space_char(s[ke])
    &&& d.symbol.name@.len() > 0
    &&& d.symbol.name@ == s.subrange(s0, sym_end(s, s0))
    &&& cond_field_ok(
        d.condition,
        s,
        sym_end(s, s0),
        match rdep_end(kw, s, pos) {
            Some(e) => e,
            None => 0,
        },
    )
}

/// Where a pair of hexadecimal bounds standing at `p0` ends, when one does.
pub open spec fn hex_pair_end(s: Seq<char>, p0: int) -> Option<int> {
    match hex_tok_end(s, p0) {
        Some(e1) => if e1 < s.len() && space_char(s[e1]) {
            hex_tok_end(s, space_end(s, e1))
        } else {
            None
        },
        None => None,
    }
}

/// Where a pair of decimal bounds standing at `p0` ends, when one does.
pub open spec fn int_pair_end(s: Seq<char>, p0: int) -> Option<int> {
    match int_tok_end(s, p0) {
        Some(e1) => if e1 < s.len() && space_char(s[e1]) {
            int_tok_end(s, space_end(s, e1))
        } else {
            None
        },
        None => None,
    }
}

/// The signed value of the decimal literal standing at `pos`.
pub open spec fn int_tok_val(s: Seq<char>, pos: int) -> int {
    let neg = 0 <= pos < s.len() && s[pos] == '-';
    let d0 = if neg {
        pos + 1
    } else {
        pos
    };
    if neg {
        -(dec_val(s, d0, dec_end(s, d0)) as int)
    } else {
        dec_val(s, d0, dec_end(s, d0)) as int
    }
}

/// The unsigned value of the hexadecimal literal standing at `pos`.
pub open spec fn hex_tok_val(s: Seq<char>, pos: int) -> nat {
    hex_val(s, pos + 2, hex_end(s, pos + 2))
}

/// The bounds of a range pair parsed at `p0`: two hexadecimal values, else
/// two decimal values, else two symbol names, each read off the input.
pub open spec fn pair_ok(start: RangeType, endb: RangeType, s: Seq<char>, p0: int) -> bool {
    if hex_pair_end(s, p0) is Some {
        match hex_tok_end(s, p0) {
            Some(e1) => {
                &&& (start matches RangeType::Hex(h) && h.val == hex_tok_val(s, p0))
                &&& (endb matches RangeType::Hex(h2) && h2.val == hex_tok_val(
                    s,
                    space_end(s, e1),
                ))
            },
            None => false,
        }
    } else if int_pair_end(s, p0) is Some {
        match int_tok_end(s, p0) {
            Some(e1) => {
                &&& (start matches RangeType::Int(v) && v.val == int_tok_val(s, p0))
                &&& (endb matches RangeType::Int(v2) && v2.val == int_tok_val(
                    s,
                    space_end(s, e1),
                ))
            },
            None => false,
        }
    } else {
        let e1 = sym_end(s, p0);
        let s1 = space_end(s, e1);
        &&& (start matches RangeType::Symbol(m) && m.name@ == s.subrange(p0, e1))
        &&& (endb matches RangeType::Symbol(m2) && m2.name@ == s.subrange(s1, sym_end(s, s1)))
    }
}

/// The fields of a range parsed at `pos` with keyword `kw`.
pub open spec fn range_ok(r: Range, kw: Seq<char>, s: Seq<char>, pos: int) -> bool {
    let k = space_end(s, pos);
    let ke = k + kw.len();
    let p0 = space_end(s, ke);
    &&& range_end(kw, s, pos) is Some
    &&& lit_at(s, k, kw)
    &&& ke < s.len() && space_char(s[ke])
    &&& pair_ok(r.start, r.end, s, p0)
    &&& (match pair_end(s, p0) {
        Some(pe) => cond_field_ok(
            r.condition,
            s,
            pe,
            match range_end(kw, s, pos) {
                Some(e) => e,
                None => 0,
            },
        ),
        None => false,
    })
}

/// The lines of a help block parsed at `pos` with keyword `kw`.
pub open spec fn help_ok(h: Help, kw: Seq<char>, s: Seq<char>, pos: int) -> bool {
    match help_result(kw, s, pos) {
        Some(hr) => lines_view(h.text@) == hr.0,
        None => false,
    }
}

} // verus!
