//! The boolean/relational expression grammar: `||` over `&&` over `!` over
//! variables, literals and parenthesized groups, with relational suffixes
//! (`=`, `!=`, `<`, `<=`, `>`, `>=`, and the `=y|=m|=n` state forms).
//! Precedence, low to high: or, and, not; `!` is right-recursive.
use vstd::prelude::*;
use crate::util::{capture, lit_at, match_lit, qstr_close, special_space, sspace_end, sym_end};
use crate::token::{hex_tok_end, int_tok_end, Hex, Int, Symbol};

verus! {

/// How many levels of `(...)`, `$(...)` and `!` nesting the expression
/// parser will enter before giving up, guarding the call stack.
pub const EXPR_NESTING_DEPTH: usize = 64;

/// The operand of an expression, as captured text or as a typed literal.
#[derive(Debug, Clone, PartialEq)]
pub enum VarType {
    Hex(Hex),
    Int(Int),
    Str(String),
    Symbol(Symbol),
}

/// An expression tree: a variable, a negation, a conjunction or a
/// disjunction.
#[derive(Debug, PartialEq)]
pub enum Expr {
    Var(VarType),
    Not(Box<Expr>),
    And(Box<Expr>, Box<Expr>),
    Or(Box<Expr>, Box<Expr>),
}

/// Consume a balanced `(...)` or `$(...)` group starting exactly at `pos`.
/// Backslash-escaped `$`, `(` and `)` do not open or close groups; an
/// unbalanced opener is consumed as plain content. Fails at end of input.
fn take_parens(input: &str, pos: usize, depth: usize) -> (r: Option<usize>)
    requires
        pos <= input@.len(),
    ensures
        match r {
            Some(end) => pos < end <= input@.len() && parens_end(input@, pos as int, depth as nat)
                == Some(end as int),
            None => parens_end(input@, pos as int, depth as nat) is None,
        },
    decreases input@.len() - pos,
{
    let n = input.unicode_len();
    if pos >= n {
        return None;
    }
    let c0 = input.get_char(pos);
    let open_end: usize = if c0 == '$' && pos + 1 < n && input.get_char(pos + 1) == '(' {
        pos + 2
    } else if c0 == '(' {
        pos + 1
    } else {
        return None;
    };
    let mut j = open_end;
    proof {
        assert(parens_end(input@, pos as int, depth as nat) == parens_scan(
            input@,
            open_end as int,
            depth as nat,
        ));
    }
    loop
        invariant
            pos < open_end <= j <= n,
            n == input@.len(),
            parens_end(input@, pos as int, depth as nat) == parens_scan(
                input@,
                j as int,
                depth as nat,
            ),
        decreases n - j,
    {
        if j >= n {
            return None;
        }
        let c = input.get_char(j);
        if c == ')' {
            return Some(j + 1);
        }
        if c == '\\' && j + 1 < n {
            let c1 = input.get_char(j + 1);
            if c1 == '$' || c1 == '(' || c1 == ')' {
                j = j + 2;
                continue ;
            }
            j = j + 1;
            continue ;
        }
        if c == '(' || (c == '$' && j + 1 < n && input.get_char(j + 1) == '(') {
            if depth == 0 {
                return None;
            }
            match take_parens(input, j, depth - 1) {
                Some(e) => {
                    j = e;
                    continue ;
                },
                None => {
                    j = j + 1;
                    continue ;
                },
            }
        }
        j = j + 1;
    }
}

/// Consume a quoted string literal starting exactly at `pos`.
fn take_kstring(input: &str, pos: usize) -> (r: Option<usize>)
    requires
        pos <= input@.len(),
    ensures
        match r {
            Some(end) => pos < end <= input@.len() && kstring_end(input@, pos as int) == Some(
                end as int,
            ),
            None => kstring_end(input@, pos as int) is None,
        },
{
    let n = input.unicode_len();
    if pos >= n {
        return None;
    }
    let q = input.get_char(pos);
    if !(q == '\'' || q == '"') {
        return None;
    }
    let mut cur = pos + 1;
    loop
        invariant
            pos + 1 <= cur <= n,
            n == input@.len(),
            q == input@[pos as int],
            qstr_close(input@, q, pos + 1) == qstr_close(input@, q, cur as int),
        ensures
            match qstr_close(input@, q, pos + 1) {
                Some(e) => cur == e && cur < n,
                None => cur == n,
            },
        decreases n - cur,
    {
        if cur >= n {
            break ;
        }
        let c = input.get_char(cur);
        if c == q {
            break ;
        }
        if c == '\\' && cur + 1 < n && input.get_char(cur + 1) == q {
            cur = cur + 2;
        } else {
            cur = cur + 1;
        }
    }
    if cur == n {
        return None;
    }
    Some(cur + 1)
}

/// Consume a tristate-state comparison suffix: `=y`, `=m` or `=n`.
fn take_state(input: &str, pos: usize) -> (r: Option<usize>)
    requires
        pos <= input@.len(),
    ensures
        match r {
            Some(end) => pos < end <= input@.len() && state_end(input@, pos as int) == Some(
                end as int,
            ),
            None => state_end(input@, pos as int) is None,
        },
{
    let n = input.unicode_len();
    if pos < n && input.get_char(pos) == '=' && pos + 1 < n {
        let c = input.get_char(pos + 1);
        if c == 'y' || c == 'm' || c == 'n' {
            return Some(pos + 2);
        }
    }
    None
}

/// Consume a relational operator (`<=`, `>=`, `!=`, `<`, `>`, `=`, tried in
/// that order) surrounded by token whitespace, then its right operand: a
/// hexadecimal or decimal literal, a quoted string, or a symbol.
fn take_operation(input: &str, pos: usize) -> (r: Option<(VarType, usize)>)
    requires
        pos <= input@.len(),
    ensures
        match r {
            Some(p) => pos < p.1 <= input@.len() && operation_end(input@, pos as int) == Some(
                p.1 as int,
            ),
            None => operation_end(input@, pos as int) is None,
        },
{
    let n = input.unicode_len();
    let a = special_space(input, pos);
    let op_end: usize = if a < n && input.get_char(a) == '<' && a + 1 < n && input.get_char(a + 1)
        == '=' {
        a + 2
    } else if a < n && input.get_char(a) == '>' && a + 1 < n && input.get_char(a + 1) == '=' {
        a + 2
    } else if a < n && input.get_char(a) == '!' && a + 1 < n && input.get_char(a + 1) == '=' {
        a + 2
    } else if a < n && input.get_char(a) == '<' {
        a + 1
    } else if a < n && input.get_char(a) == '>' {
        a + 1
    } else if a < n && input.get_char(a) == '=' {
        a + 1
    } else {
        return None;
    };
    let b = special_space(input, op_end);
    if let Some((h, end)) = Hex::parse(input, b) {
        return Some((VarType::Hex(h), end));
    }
    if let Some((v, end)) = Int::parse(input, b) {
        return Some((VarType::Int(v), end));
    }
    if let Some(end) = take_kstring(input, b) {
        let text = capture(input, b, end);
        return Some((VarType::Str(text), end));
    }
    if let Some((sym, end)) = Symbol::parse(input, b) {
        return Some((VarType::Symbol(sym), end));
    }
    None
}

/// Parse one variable operand: a symbol, literal, parenthesized or macro
/// span, with an optional relational suffix; the whole consumed span is
/// kept as the variable's text, for faithful re-emission.
fn var(input: &str, pos: usize, depth: usize) -> (r: Option<(Expr, usize)>)
    requires
        pos <= input@.len(),
    ensures
        match r {
            Some(p) => pos < p.1 <= input@.len() && var_end(input@, pos as int, depth as nat)
                == Some(p.1 as int) && (p.0 matches Expr::Var(VarType::Str(t)) && t@
                == input@.subrange(pos as int, p.1 as int)) && p.0.view_tree() == var_tree(
                input@,
                pos as int,
                depth as nat,
            ),
            None => var_end(input@, pos as int, depth as nat) is None,
        },
{
    let first_end: usize = if let Some((_sym, e)) = Symbol::parse(input, pos) {
        e
    } else if let Some((_h, e)) = Hex::parse(input, pos) {
        e
    } else if let Some((_v, e)) = Int::parse(input, pos) {
        e
    } else if let Some(e) = take_parens(input, pos, depth) {
        e
    } else if let Some(e) = take_kstring(input, pos) {
        e
    } else {
        return None;
    };
    let end: usize = if let Some(e) = take_state(input, first_end) {
        e
    } else if let Some((_op, e)) = take_operation(input, first_end) {
        e
    } else {
        first_end
    };
    let text = capture(input, pos, end);
    Some((Expr::Var(VarType::Str(text)), end))
}

/// Parse a factor: a parenthesized expression, a variable, or a negation.
/// A parenthesized group is tried as a sub-expression first; one whose
/// content is no expression (a macro-call span, say) falls back to a
/// variable.
fn factor(input: &str, pos: usize, depth: usize) -> (r: Option<(Expr, usize)>)
    requires
        pos <= input@.len(),
    ensures
        match r {
            Some(p) => pos < p.1 <= input@.len() && factor_end(input@, pos as int, depth as nat)
                == Some(p.1 as int) && p.0.view_tree() == factor_tree(
                input@,
                pos as int,
                depth as nat,
            ),
            None => factor_end(input@, pos as int, depth as nat) is None,
        },
    decreases input@.len() - pos, 1int,
{
    let n = input.unicode_len();
    // a parenthesized sub-expression, with its surrounding whitespace
    if depth > 0 {
        let a0 = special_space(input, pos);
        if a0 < n && input.get_char(a0) == '(' {
            let b = special_space(input, a0 + 1);
            if let Some((e, expr_end)) = or_expr(input, b, depth - 1) {
                let c = special_space(input, expr_end);
                if c < n && input.get_char(c) == ')' {
                    let d = special_space(input, c + 1);
                    proof {
                        assert(pos < b <= input@.len());
                        assert(paren_expr_end(input@, pos as int, depth as nat) == Some(d as int));
                        assert(factor_end(input@, pos as int, depth as nat) == Some(d as int));
                    }
                    return Some((e, d));
                }
            }
        }
    }
    if let Some(p) = var(input, pos, depth) {
        proof {
            if depth > 0 {
                assert(paren_expr_end(input@, pos as int, depth as nat) is None);
            }
            assert(factor_end(input@, pos as int, depth as nat) == Some(p.1 as int));
        }
        return Some(p);
    }
    if depth == 0 {
        return None;
    }
    // a negation, right-recursive
    let a = special_space(input, pos);
    if a < n && input.get_char(a) == '!' {
        let b = special_space(input, a + 1);
        if let Some((e, end)) = factor(input, b, depth - 1) {
            return Some((Expr::Not(Box::new(e)), end));
        }
    }
    None
}

/// Parse a conjunction: factors joined by `&&`, folded left.
fn and_expr(input: &str, pos: usize, depth: usize) -> (r: Option<(Expr, usize)>)
    requires
        pos <= input@.len(),
    ensures
        match r {
            Some(p) => pos < p.1 <= input@.len() && and_end(input@, pos as int, depth as nat)
                == Some(p.1 as int) && p.0.view_tree() == and_tree(
                input@,
                pos as int,
                depth as nat,
            ),
            None => and_end(input@, pos as int, depth as nat) is None,
        },
    decreases input@.len() - pos, 2int,
{
    let n = input.unicode_len();
    let first = factor(input, pos, depth);
    match first {
        None => None,
        Some((e0, end0)) => {
            let mut acc = e0;
            let mut cur = end0;
            loop
                invariant
                    pos < cur <= n,
                    n == input@.len(),
                    and_end(input@, pos as int, depth as nat) == Some(
                        and_rest_end(input@, cur as int, depth as nat),
                    ),
                    and_tree(input@, pos as int, depth as nat) == and_rest_tree(
                        input@,
                        acc.view_tree(),
                        cur as int,
                        depth as nat,
                    ),
                ensures
                    pos < cur <= n,
                    and_end(input@, pos as int, depth as nat) == Some(cur as int),
                    and_tree(input@, pos as int, depth as nat) == acc.view_tree(),
                decreases n - cur,
            {
                let a = special_space(input, cur);
                if a < n && input.get_char(a) == '&' && a + 1 < n && input.get_char(a + 1)
                    == '&' {
                    let b = special_space(input, a + 2);
                    if let Some((rhs, rhs_end)) = factor(input, b, depth) {
                        acc = Expr::And(Box::new(acc), Box::new(rhs));
                        cur = rhs_end;
                        continue ;
                    }
                }
                break ;
            }
            Some((acc, cur))
        },
    }
}

/// Parse a disjunction: conjunctions joined by `||`, folded left.
fn or_expr(input: &str, pos: usize, depth: usize) -> (r: Option<(Expr, usize)>)
    requires
        pos <= input@.len(),
    ensures
        match r {
            Some(p) => pos < p.1 <= input@.len() && or_end(input@, pos as int, depth as nat)
                == Some(p.1 as int) && p.0.view_tree() == or_tree(
                input@,
                pos as int,
                depth as nat,
            ),
            None => or_end(input@, pos as int, depth as nat) is None,
        },
    decreases input@.len() - pos, 3int,
{
    let n = input.unicode_len();
    let first = and_expr(input, pos, depth);
    match first {
        None => None,
        Some((e0, end0)) => {
            let mut acc = e0;
            let mut cur = end0;
            loop
                invariant
                    pos < cur <= n,
                    n == input@.len(),
                    or_end(input@, pos as int, depth as nat) == Some(
                        or_rest_end(input@, cur as int, depth as nat),
                    ),
                    or_tree(input@, pos as int, depth as nat) == or_rest_tree(
                        input@,
                        acc.view_tree(),
                        cur as int,
                        depth as nat,
                    ),
                ensures
                    pos < cur <= n,
                    or_end(input@, pos as int, depth as nat) == Some(cur as int),
                    or_tree(input@, pos as int, depth as nat) == acc.view_tree(),
                decreases n - cur,
            {
                let a = special_space(input, cur);
                if a < n && input.get_char(a) == '|' && a + 1 < n && input.get_char(a + 1)
                    == '|' {
                    let b = special_space(input, a + 2);
                    if let Some((rhs, rhs_end)) = and_expr(input, b, depth) {
                        acc = Expr::Or(Box::new(acc), Box::new(rhs));
                        cur = rhs_end;
                        continue ;
                    }
                }
                break ;
            }
            Some((acc, cur))
        },
    }
}

/// Parse a whole boolean expression into its tree, with `&&` binding
/// tighter than `||` and `!` tightest. Fails without consuming anything.
pub fn parse_expr(input: &str, pos: usize) -> (r: Option<(Expr, usize)>)
    requires
        pos <= input@.len(),
    ensures
        match r {
            Some(p) => pos < p.1 <= input@.len() && expr_end(input@, pos as int) == Some(
                p.1 as int,
            ) && p.0.view_tree() == expr_tree(input@, pos as int),
            None => expr_end(input@, pos as int) is None,
        },
{
    or_expr(input, pos, EXPR_NESTING_DEPTH)
}

/// One recognized boolean sub-expression, kept as its raw text span for
/// faithful re-emission.
#[derive(Debug, Clone, PartialEq)]
pub struct Expression {
    pub val: String,
}

impl Expression {
    /// Recognize an expression at `pos` and keep its raw text.
    pub fn parse(input: &str, pos: usize) -> (r: Option<(Expression, usize)>)
        requires
            pos <= input@.len(),
        ensures
            match r {
                Some(p) => pos < p.1 <= input@.len() && p.0.val@ == input@.subrange(
                    pos as int,
                    p.1 as int,
                ) && p.0.val@.len() > 0 && expr_end(input@, pos as int) == Some(p.1 as int),
                None => expr_end(input@, pos as int) is None,
            },
    {
        match parse_expr(input, pos) {
            Some((_e, end)) => {
                let val = capture(input, pos, end);
                Some((Expression { val }, end))
            },
            None => None,
        }
    }
}

/// A trailing `if <expression>` condition.
#[derive(Debug, Clone, PartialEq)]
pub struct Condition {
    pub expression: Expression,
}

impl Condition {
    /// Parse `if <expression>`, allowing token whitespace (including escaped
    /// newlines) around the keyword.
    pub fn parse(input: &str, pos: usize) -> (r: Option<(Condition, usize)>)
        requires
            pos <= input@.len(),
        ensures
            ({
                let s = input@;
                let a = sspace_end(s, pos as int);
                let b = sspace_end(s, a + "if"@.len());
                match r {
                    Some(p) => {
                        &&& pos < p.1 <= s.len()
                        &&& cond_end(s, pos as int) == Some(p.1 as int)
                        &&& p.0.expression.val@.len() > 0
                        &&& p.0.expression.val@ == s.subrange(b, b + p.0.expression.val@.len())
                    },
                    None => cond_end(s, pos as int) is None,
                }
            }),
    {
        let a = special_space(input, pos);
        if let Some(kw_end) = match_lit(input, a, "if") {
            proof {
                reveal_strlit("if");
            }
            let b = special_space(input, kw_end);
            match Expression::parse(input, b) {
                Some((expression, end)) => Some((Condition { expression }, end)),
                None => None,
            }
        } else {
            None
        }
    }
}

} // verus!

verus! {

// ---------------------------------------------------------------------------
// Specification-level recognizer of the expression grammar. Each function
// mirrors one parser above and names exactly the inputs it accepts and the
// position it stops at; the parsers' contracts are stated against these.
// ---------------------------------------------------------------------------

/// Where a quoted string literal standing exactly at `pos` ends.
pub open spec fn kstring_end(s: Seq<char>, pos: int) -> Option<int> {
    if 0 <= pos < s.len() && (s[pos] == '\'' || s[pos] == '"') {
        match qstr_close(s, s[pos], pos + 1) {
            Some(c) => Some(c + 1),
            None => None,
        }
    } else {
        None
    }
}

/// Where a `=y`/`=m`/`=n` state suffix standing exactly at `pos` ends.
pub open spec fn state_end(s: Seq<char>, pos: int) -> Option<int> {
    if 0 <= pos && pos + 1 < s.len() && s[pos] == '=' && (s[pos + 1] == 'y' || s[pos + 1] == 'm'
        || s[pos + 1] == 'n') {
        Some(pos + 2)
    } else {
        None
    }
}

/// Where a balanced `(...)`/`$(...)` group standing exactly at `pos` ends.
pub open spec fn parens_end(s: Seq<char>, pos: int, depth: nat) -> Option<int>
    decreases depth, s.len() - pos, 0int,
{
    if 0 <= pos < s.len() {
        if s[pos] == '$' && pos + 1 < s.len() && s[pos + 1] == '(' {
            parens_scan(s, pos + 2, depth)
        } else if s[pos] == '(' {
            parens_scan(s, pos + 1, depth)
        } else {
            None
        }
    } else {
        None
    }
}

/// The scan inside a balanced group: escapes pass, a nested opener recurses
/// (an unbalanced one is plain content), the matching `)` closes.
pub open spec fn parens_scan(s: Seq<char>, j: int, depth: nat) -> Option<int>
    decreases depth, s.len() - j, 1int,
{
    if j < 0 || j >= s.len() {
        None
    } else if s[j] == ')' {
        Some(j + 1)
    } else if s[j] == '\\' && j + 1 < s.len() && (s[j + 1] == '$' || s[j + 1] == '(' || s[j + 1]
        == ')') {
        parens_scan(s, j + 2, depth)
    } else if s[j] == '\\' {
        parens_scan(s, j + 1, depth)
    } else if s[j] == '(' || (s[j] == '$' && j + 1 < s.len() && s[j + 1] == '(') {
        if depth == 0 {
            None
        } else {
            match parens_end(s, j, (depth - 1) as nat) {
                Some(e) => if j < e <= s.len() {
                    parens_scan(s, e, depth)
                } else {
                    None
                },
                None => parens_scan(s, j + 1, depth),
            }
        }
    } else {
        parens_scan(s, j + 1, depth)
    }
}

/// Where a relational-operator suffix standing at `pos` ends: whitespace,
/// one of `<=`, `>=`, `!=`, `<`, `>`, `=` in that order, whitespace, then a
/// hexadecimal or decimal literal, a quoted string, or a symbol.
pub open spec fn operation_end(s: Seq<char>, pos: int) -> Option<int> {
    let a = sspace_end(s, pos);
    let oe = if 0 <= a && a + 1 < s.len() && s[a] == '<' && s[a + 1] == '=' {
        Some(a + 2)
    } else if 0 <= a && a + 1 < s.len() && s[a] == '>' && s[a + 1] == '=' {
        Some(a + 2)
    } else if 0 <= a && a + 1 < s.len() && s[a] == '!' && s[a + 1] == '=' {
        Some(a + 2)
    } else if 0 <= a < s.len() && s[a] == '<' {
        Some(a + 1)
    } else if 0 <= a < s.len() && s[a] == '>' {
        Some(a + 1)
    } else if 0 <= a < s.len() && s[a] == '=' {
        Some(a + 1)
    } else {
        None
    };
    match oe {
        None => None,
        Some(op_end) => {
            let b = sspace_end(s, op_end);
            if hex_tok_end(s, b) is Some {
                hex_tok_end(s, b)
            } else if int_tok_end(s, b) is Some {
                int_tok_end(s, b)
            } else if kstring_end(s, b) is Some {
                kstring_end(s, b)
            } else if sym_end(s, b) > b {
                Some(sym_end(s, b))
            } else {
                None
            }
        },
    }
}

/// Where a variable operand standing exactly at `pos` ends: a symbol,
/// hexadecimal or decimal literal, balanced group or quoted string, with an
/// optional state or relational suffix.
pub open spec fn var_end(s: Seq<char>, pos: int, depth: nat) -> Option<int> {
    let first = if sym_end(s, pos) > pos {
        Some(sym_end(s, pos))
    } else if hex_tok_end(s, pos) is Some {
        hex_tok_end(s, pos)
    } else if int_tok_end(s, pos) is Some {
        int_tok_end(s, pos)
    } else if parens_end(s, pos, depth) is Some {
        parens_end(s, pos, depth)
    } else {
        kstring_end(s, pos)
    };
    match first {
        None => None,
        Some(fe) => match state_end(s, fe) {
            Some(e) => Some(e),
            None => match operation_end(s, fe) {
                Some(e) => Some(e),
                None => Some(fe),
            },
        },
    }
}

/// Where a parenthesized sub-expression standing at `pos` ends, with its
/// surrounding whitespace.
pub open spec fn paren_expr_end(s: Seq<char>, pos: int, depth: nat) -> Option<int>
    decreases s.len() - pos, 0int,
{
    if depth == 0 {
        None
    } else {
        let a0 = sspace_end(s, pos);
        if 0 <= a0 < s.len() && s[a0] == '(' {
            let b = sspace_end(s, a0 + 1);
            if pos < b <= s.len() {
                match or_end(s, b, (depth - 1) as nat) {
                    Some(ee) => {
                        let c = sspace_end(s, ee);
                        if 0 <= c < s.len() && s[c] == ')' {
                            Some(sspace_end(s, c + 1))
                        } else {
                            None
                        }
                    },
                    None => None,
                }
            } else {
                None
            }
        } else {
            None
        }
    }
}

/// Where a factor standing at `pos` ends: a parenthesized sub-expression,
/// a variable, or a negation.
pub open spec fn factor_end(s: Seq<char>, pos: int, depth: nat) -> Option<int>
    decreases s.len() - pos, 1int,
{
    if depth > 0 && paren_expr_end(s, pos, depth) is Some {
        paren_expr_end(s, pos, depth)
    } else if var_end(s, pos, depth) is Some {
        var_end(s, pos, depth)
    } else if depth == 0 {
        None
    } else {
        let a = sspace_end(s, pos);
        if 0 <= a < s.len() && s[a] == '!' {
            let b = sspace_end(s, a + 1);
            if pos < b <= s.len() {
                factor_end(s, b, (depth - 1) as nat)
            } else {
                None
            }
        } else {
            None
        }
    }
}

/// The greedy `&& <factor>` continuation after a conjunct ending at `cur`.
pub open spec fn and_rest_end(s: Seq<char>, cur: int, depth: nat) -> int
    decreases s.len() - cur, 2int,
{
    let a = sspace_end(s, cur);
    if 0 <= a && a + 1 < s.len() && s[a] == '&' && s[a + 1] == '&' {
        let b = sspace_end(s, a + 2);
        if cur < b <= s.len() {
            match factor_end(s, b, depth) {
                Some(fe) => if cur < fe <= s.len() {
                    and_rest_end(s, fe, depth)
                } else {
                    cur
                },
                None => cur,
            }
        } else {
            cur
        }
    } else {
        cur
    }
}

/// Where a conjunction standing at `pos` ends.
pub open spec fn and_end(s: Seq<char>, pos: int, depth: nat) -> Option<int>
    decreases s.len() - pos, 3int,
{
    match factor_end(s, pos, depth) {
        Some(fe) => if pos < fe <= s.len() {
            Some(and_rest_end(s, fe, depth))
        } else {
            None
        },
        None => None,
    }
}

/// The greedy `|| <conjunction>` continuation after a disjunct ending at
/// `cur`.
pub open spec fn or_rest_end(s: Seq<char>, cur: int, depth: nat) -> int
    decreases s.len() - cur, 4int,
{
    let a = sspace_end(s, cur);
    if 0 <= a && a + 1 < s.len() && s[a] == '|' && s[a + 1] == '|' {
        let b = sspace_end(s, a + 2);
        if cur < b <= s.len() {
            match and_end(s, b, depth) {
                Some(ae) => if cur < ae <= s.len() {
                    or_rest_end(s, ae, depth)
                } else {
                    cur
                },
                None => cur,
            }
        } else {
            cur
        }
    } else {
        cur
    }
}

/// Where a whole expression standing at `pos` ends, for a given nesting
/// budget.
pub open spec fn or_end(s: Seq<char>, pos: int, depth: nat) -> Option<int>
    decreases s.len() - pos, 5int,
{
    match and_end(s, pos, depth) {
        Some(ae) => if pos < ae <= s.len() {
            Some(or_rest_end(s, ae, depth))
        } else {
            None
        },
        None => None,
    }
}

/// Where a whole expression standing at `pos` ends. `parse_expr` returns
/// `Some` exactly when this does, stopping exactly here.
pub open spec fn expr_end(s: Seq<char>, pos: int) -> Option<int> {
    or_end(s, pos, EXPR_NESTING_DEPTH as nat)
}

/// Where an `if <expression>` condition standing at `pos` ends.
/// `Condition::parse` returns `Some` exactly when this does.
pub open spec fn cond_end(s: Seq<char>, pos: int) -> Option<int> {
    let a = sspace_end(s, pos);
    if lit_at(s, a, "if"@) {
        expr_end(s, sspace_end(s, a + "if"@.len()))
    } else {
        None
    }
}

} // verus!

verus! {

// ---------------------------------------------------------------------------
// Specification-level expression trees: what tree the parser builds, as a
// function of the input alone. `parse_expr`'s contract ties its result to
// `expr_tree`, so precedence is part of the stated behaviour.
// ---------------------------------------------------------------------------

/// A mathematical expression tree: variables carry their captured text.
pub ghost enum SpecExpr {
    Var(Seq<char>),
    Not(Box<SpecExpr>),
    And(Box<SpecExpr>, Box<SpecExpr>),
    Or(Box<SpecExpr>, Box<SpecExpr>),
}

impl VarType {
    /// The text a variable operand carries. The parser itself only builds
    /// the captured-text form; the typed forms, which callers may build by
    /// hand, view as their symbol's name or as empty.
    pub open spec fn text_view(&self) -> Seq<char> {
        match self {
            VarType::Str(t) => t@,
            VarType::Symbol(sym) => sym.name@,
            VarType::Hex(_h) => Seq::empty(),
            VarType::Int(_v) => Seq::empty(),
        }
    }
}

impl Expr {
    /// The mathematical tree of an expression value.
    pub open spec fn view_tree(&self) -> SpecExpr
        decreases self,
    {
        match self {
            Expr::Var(vt) => SpecExpr::Var(vt.text_view()),
            Expr::Not(e) => SpecExpr::Not(Box::new(e.view_tree())),
            Expr::And(a, b) => SpecExpr::And(Box::new(a.view_tree()), Box::new(b.view_tree())),
            Expr::Or(a, b) => SpecExpr::Or(Box::new(a.view_tree()), Box::new(b.view_tree())),
        }
    }
}

/// The tree of a variable operand: its whole consumed span as text.
pub open spec fn var_tree(s: Seq<char>, pos: int, depth: nat) -> SpecExpr {
    SpecExpr::Var(
        match var_end(s, pos, depth) {
            Some(e) => s.subrange(pos, e),
            None => Seq::empty(),
        },
    )
}

/// The tree of a factor standing at `pos`; meaningful only where
/// `factor_end` succeeds.
pub open spec fn factor_tree(s: Seq<char>, pos: int, depth: nat) -> SpecExpr
    decreases s.len() - pos, 11int,
{
    if depth > 0 && paren_expr_end(s, pos, depth) is Some {
        let a0 = sspace_end(s, pos);
        let b = sspace_end(s, a0 + 1);
        if pos < b <= s.len() {
            or_tree(s, b, (depth - 1) as nat)
        } else {
            SpecExpr::Var(Seq::empty())
        }
    } else if var_end(s, pos, depth) is Some {
        var_tree(s, pos, depth)
    } else if depth == 0 {
        SpecExpr::Var(Seq::empty())
    } else {
        let a = sspace_end(s, pos);
        if 0 <= a < s.len() && s[a] == '!' {
            let b = sspace_end(s, a + 1);
            if pos < b <= s.len() {
                SpecExpr::Not(Box::new(factor_tree(s, b, (depth - 1) as nat)))
            } else {
                SpecExpr::Var(Seq::empty())
            }
        } else {
            SpecExpr::Var(Seq::empty())
        }
    }
}

/// The left fold of `&& <factor>` continuations onto the conjunct `acc`.
pub open spec fn and_rest_tree(s: Seq<char>, acc: SpecExpr, cur: int, depth: nat) -> SpecExpr
    decreases s.len() - cur, 12int,
{
    let a = sspace_end(s, cur);
    if 0 <= a && a + 1 < s.len() && s[a] == '&' && s[a + 1] == '&' {
        let b = sspace_end(s, a + 2);
        if cur < b <= s.len() {
            match factor_end(s, b, depth) {
                Some(fe) => if cur < fe <= s.len() {
                    and_rest_tree(
                        s,
                        SpecExpr::And(Box::new(acc), Box::new(factor_tree(s, b, depth))),
                        fe,
                        depth,
                    )
                } else {
                    acc
                },
                None => acc,
            }
        } else {
            acc
        }
    } else {
        acc
    }
}

/// The tree of a conjunction standing at `pos`.
pub open spec fn and_tree(s: Seq<char>, pos: int, depth: nat) -> SpecExpr
    decreases s.len() - pos, 13int,
{
    match factor_end(s, pos, depth) {
        Some(fe) => if pos < fe <= s.len() {
            and_rest_tree(s, factor_tree(s, pos, depth), fe, depth)
        } else {
            SpecExpr::Var(Seq::empty())
        },
        None => SpecExpr::Var(Seq::empty()),
    }
}

/// The left fold of `|| <conjunction>` continuations onto the disjunct
/// `acc`.
pub open spec fn or_rest_tree(s: Seq<char>, acc: SpecExpr, cur: int, depth: nat) -> SpecExpr
    decreases s.len() - cur, 14int,
{
    let a = sspace_end(s, cur);
    if 0 <= a && a + 1 < s.len() && s[a] == '|' && s[a + 1] == '|' {
        let b = sspace_end(s, a + 2);
        if cur < b <= s.len() {
            match and_end(s, b, depth) {
                Some(ae) => if cur < ae <= s.len() {
                    or_rest_tree(
                        s,
                        SpecExpr::Or(Box::new(acc), Box::new(and_tree(s, b, depth))),
                        ae,
                        depth,
                    )
                } else {
                    acc
                },
                None => acc,
            }
        } else {
            acc
        }
    } else {
        acc
    }
}

/// The tree of a whole expression standing at `pos`, for a given nesting
/// budget.
pub open spec fn or_tree(s: Seq<char>, pos: int, depth: nat) -> SpecExpr
    decreases s.len() - pos, 15int,
{
    match and_end(s, pos, depth) {
        Some(ae) => if pos < ae <= s.len() {
            or_rest_tree(s, and_tree(s, pos, depth), ae, depth)
        } else {
            SpecExpr::Var(Seq::empty())
        },
        None => SpecExpr::Var(Seq::empty()),
    }
}

/// The tree of a whole expression standing at `pos`: `&&` binds tighter
/// than `||`, `!` tightest and right-recursive, both folds lean left.
/// `parse_expr` returns exactly this tree whenever it succeeds.
pub open spec fn expr_tree(s: Seq<char>, pos: int) -> SpecExpr {
    or_tree(s, pos, EXPR_NESTING_DEPTH as nat)
}

} // verus!
