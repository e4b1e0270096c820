//! Lexical primitives of the Kconfig language: character classes, whitespace
//! and comment skipping, line handling, and the measurement of indentation.
use vstd::prelude::*;

verus! {

// ---------------------------------------------------------------------------
// Character classes
// ---------------------------------------------------------------------------

/// Characters allowed in a symbol name: ASCII letters, digits, underscore.
pub open spec fn sym_char(c: char) -> bool {
    ('a' <= c && c <= 'z') || ('A' <= c && c <= 'Z') || ('0' <= c && c <= '9') || c == '_'
}

/// Horizontal whitespace: space or tab.
pub open spec fn space_char(c: char) -> bool {
    c == ' ' || c == '\t'
}

/// Decimal digit.
pub open spec fn dec_digit(c: char) -> bool {
    '0' <= c && c <= '9'
}

/// Hexadecimal digit, either case.
pub open spec fn hex_digit(c: char) -> bool {
    ('0' <= c && c <= '9') || ('a' <= c && c <= 'f') || ('A' <= c && c <= 'F')
}

/// Numeric value of a decimal digit.
pub open spec fn dec_digit_val(c: char) -> nat {
    (c as nat - '0' as nat) as nat
}

/// Numeric value of a hexadecimal digit.
pub open spec fn hex_digit_val(c: char) -> nat {
    if '0' <= c && c <= '9' {
        (c as nat - '0' as nat) as nat
    } else if 'a' <= c && c <= 'f' {
        (c as nat - 'a' as nat + 10) as nat
    } else if 'A' <= c && c <= 'F' {
        (c as nat - 'A' as nat + 10) as nat
    } else {
        0
    }
}

// ---------------------------------------------------------------------------
// Scanning spec functions
// ---------------------------------------------------------------------------

/// End of the run of spaces and tabs starting at `i`.
pub open spec fn space_end(s: Seq<char>, i: int) -> int
    recommends
        0 <= i <= s.len(),
    decreases s.len() - i when 0 <= i <= s.len()
{
    if i < s.len() && space_char(s[i]) {
        space_end(s, i + 1)
    } else {
        i
    }
}

/// End of the run of symbol characters starting at `i`.
pub open spec fn sym_end(s: Seq<char>, i: int) -> int
    recommends
        0 <= i <= s.len(),
    decreases s.len() - i when 0 <= i <= s.len()
{
    if i < s.len() && sym_char(s[i]) {
        sym_end(s, i + 1)
    } else {
        i
    }
}

/// End of the run of decimal digits starting at `i`.
pub open spec fn dec_end(s: Seq<char>, i: int) -> int
    recommends
        0 <= i <= s.len(),
    decreases s.len() - i when 0 <= i <= s.len()
{
    if i < s.len() && dec_digit(s[i]) {
        dec_end(s, i + 1)
    } else {
        i
    }
}

/// End of the run of hexadecimal digits starting at `i`.
pub open spec fn hex_end(s: Seq<char>, i: int) -> int
    recommends
        0 <= i <= s.len(),
    decreases s.len() - i when 0 <= i <= s.len()
{
    if i < s.len() && hex_digit(s[i]) {
        hex_end(s, i + 1)
    } else {
        i
    }
}

/// End of the run of `'0'` characters starting at `i`.
pub open spec fn zeros_end(s: Seq<char>, i: int) -> int
    recommends
        0 <= i <= s.len(),
    decreases s.len() - i when 0 <= i <= s.len()
{
    if i < s.len() && s[i] == '0' {
        zeros_end(s, i + 1)
    } else {
        i
    }
}

/// The literal `lit` occurs in `s` at position `i`.
pub open spec fn lit_at(s: Seq<char>, i: int, lit: Seq<char>) -> bool {
    0 <= i && i + lit.len() <= s.len() && s.subrange(i, i + lit.len()) == lit
}

/// Index of the first `'\n'` at or after `i`, if any.
pub open spec fn find_newline(s: Seq<char>, i: int) -> Option<int>
    recommends
        0 <= i <= s.len(),
    decreases s.len() - i when 0 <= i <= s.len()
{
    if i < s.len() {
        if s[i] == '\n' {
            Some(i)
        } else {
            find_newline(s, i + 1)
        }
    } else {
        None
    }
}

/// One blank-line step: optional spaces, then a line terminator
/// (`"\n"` or `"\r\n"`). Returns the position after the terminator.
pub open spec fn line_ending_step(s: Seq<char>, i: int) -> Option<int>
    recommends
        0 <= i <= s.len(),
{
    let k = space_end(s, i);
    if k < s.len() && s[k] == '\n' {
        Some(k + 1)
    } else if k + 1 < s.len() && s[k] == '\r' && s[k + 1] == '\n' {
        Some(k + 2)
    } else {
        None
    }
}

/// Greedy run of blank-line steps starting at `i`; the fixpoint position.
pub open spec fn line_ending_run(s: Seq<char>, i: int) -> int
    recommends
        0 <= i <= s.len(),
    decreases s.len() - i when 0 <= i <= s.len()
{
    match line_ending_step(s, i) {
        Some(j) => if i < j <= s.len() {
            line_ending_run(s, j)
        } else {
            i
        },
        None => i,
    }
}

/// End of token-separating whitespace: spaces, tabs, and escaped newlines
/// (`'\\'` immediately followed by `'\n'`), so that an expression may span
/// continued lines.
pub open spec fn sspace_end(s: Seq<char>, i: int) -> int
    recommends
        0 <= i <= s.len(),
    decreases s.len() - i when 0 <= i <= s.len()
{
    if i < s.len() && space_char(s[i]) {
        sspace_end(s, i + 1)
    } else if i + 1 < s.len() && s[i] == '\\' && s[i + 1] == '\n' {
        sspace_end(s, i + 2)
    } else {
        i
    }
}

/// Scan of a continued line's tail: stops at a `'#'` (start of a trailing
/// comment, left in place), or just past the character before an unescaped
/// line terminator; an escaped terminator is consumed, joining the next
/// line. `None` when the input ends first.
pub open spec fn cont_scan(s: Seq<char>, i: int) -> Option<int>
    recommends
        0 <= i <= s.len(),
    decreases s.len() - i when 0 <= i <= s.len()
{
    if i >= s.len() {
        None
    } else if s[i] == '#' {
        Some(i)
    } else if s[i] != '\\' && i + 1 < s.len() && (s[i + 1] == '\n' || (s[i + 1] == '\r' && i + 2
        < s.len() && s[i + 2] == '\n')) {
        Some(i + 1)
    } else {
        cont_scan(s, i + 1)
    }
}

/// Position of the closing quote `q` for string-literal content starting at
/// `i`: a backslash immediately before the quote keeps both characters in the
/// content, any other character is content. `None` when unterminated.
pub open spec fn qstr_close(s: Seq<char>, q: char, i: int) -> Option<int>
    recommends
        0 <= i <= s.len(),
    decreases s.len() - i when 0 <= i <= s.len()
{
    if i >= s.len() {
        None
    } else if s[i] == q {
        Some(i)
    } else if s[i] == '\\' && i + 1 < s.len() && s[i + 1] == q {
        qstr_close(s, q, i + 2)
    } else {
        qstr_close(s, q, i + 1)
    }
}

/// Value of the decimal digit run `s[i..j)`, most significant digit first.
pub open spec fn dec_val(s: Seq<char>, i: int, j: int) -> nat
    recommends
        0 <= i <= j <= s.len(),
    decreases j - i when i <= j
{
    if i >= j {
        0
    } else {
        dec_val(s, i, j - 1) * 10 + dec_digit_val(s[j - 1])
    }
}

/// Value of the hexadecimal digit run `s[i..j)`, most significant digit first.
pub open spec fn hex_val(s: Seq<char>, i: int, j: int) -> nat
    recommends
        0 <= i <= j <= s.len(),
    decreases j - i when i <= j
{
    if i >= j {
        0
    } else {
        hex_val(s, i, j - 1) * 16 + hex_digit_val(s[j - 1])
    }
}

/// Columns a tab at column `col` advances to reach the next multiple of 8.
pub open spec fn tab_cols(col: nat) -> nat {
    (8 - col % 8) as nat
}

/// Column reached after rendering `s[i..j)` starting at column `col`:
/// a tab advances to the next multiple of 8, anything else is one column.
pub open spec fn cols_upto(s: Seq<char>, i: int, j: int, col: nat) -> nat
    recommends
        0 <= i <= j <= s.len(),
    decreases j - i when i <= j
{
    if i >= j {
        col
    } else if s[i] == '\t' {
        cols_upto(s, i + 1, j, col + tab_cols(col))
    } else {
        cols_upto(s, i + 1, j, col + 1)
    }
}

/// Indentation width of a whole string, tabs expanding to multiples of 8.
pub open spec fn ws_columns(s: Seq<char>) -> nat {
    cols_upto(s, 0, s.len() as int, 0)
}

// ---------------------------------------------------------------------------
// Lemmas about the scanning functions
// ---------------------------------------------------------------------------

/// Skipping whitespace never moves backwards.
pub proof fn lemma_space_end_ge(s: Seq<char>, i: int)
    requires
        0 <= i <= s.len(),
    ensures
        i <= space_end(s, i) <= s.len(),
    decreases s.len() - i,
{
    if i < s.len() && space_char(s[i]) {
        lemma_space_end_ge(s, i + 1);
    }
}

/// Skipping token whitespace never moves backwards.
pub proof fn lemma_sspace_end_ge(s: Seq<char>, i: int)
    requires
        0 <= i <= s.len(),
    ensures
        i <= sspace_end(s, i) <= s.len(),
    decreases s.len() - i,
{
    if i < s.len() && space_char(s[i]) {
        lemma_sspace_end_ge(s, i + 1);
    } else if i + 1 < s.len() && s[i] == '\\' && s[i + 1] == '\n' {
        lemma_sspace_end_ge(s, i + 2);
    }
}

/// A column count never decreases as more characters are rendered.
pub proof fn lemma_cols_ge(s: Seq<char>, i: int, j: int, col: nat)
    requires
        0 <= i <= j <= s.len(),
    ensures
        cols_upto(s, i, j, col) >= col,
    decreases j - i,
{
    if i < j {
        if s[i] == '\t' {
            lemma_cols_ge(s, i + 1, j, col + tab_cols(col));
        } else {
            lemma_cols_ge(s, i + 1, j, col + 1);
        }
    }
}

/// Appending one more character to a measured range extends the column count
/// by that character's width.
pub proof fn lemma_cols_snoc(s: Seq<char>, i: int, j: int, col: nat)
    requires
        0 <= i <= j < s.len(),
    ensures
        cols_upto(s, i, j + 1, col) == if s[j] == '\t' {
            cols_upto(s, i, j, col) + tab_cols(cols_upto(s, i, j, col))
        } else {
            cols_upto(s, i, j, col) + 1
        },
    decreases j - i,
{
    if i < j {
        if s[i] == '\t' {
            lemma_cols_snoc(s, i + 1, j, col + tab_cols(col));
        } else {
            lemma_cols_snoc(s, i + 1, j, col + 1);
        }
    } else {
        assert(cols_upto(s, i, j, col) == col);
        if s[j] == '\t' {
            assert(cols_upto(s, j + 1, j + 1, col + tab_cols(col)) == col + tab_cols(col));
        } else {
            assert(cols_upto(s, j + 1, j + 1, col + 1) == col + 1);
        }
    }
}

/// A leading zero does not change the value of a hexadecimal run.
pub proof fn lemma_hex_leading_zero(s: Seq<char>, i: int, j: int)
    requires
        0 <= i < j <= s.len(),
        s[i] == '0',
    ensures
        hex_val(s, i, j) == hex_val(s, i + 1, j),
    decreases j - i,
{
    if i + 1 < j {
        lemma_hex_leading_zero(s, i, j - 1);
    } else {
        assert(hex_val(s, i, j) == hex_val(s, i, i) * 16 + hex_digit_val(s[i]));
    }
}

/// All leading zeros of a run can be dropped without changing its value.
pub proof fn lemma_hex_skip_zeros(s: Seq<char>, i: int, z: int, j: int)
    requires
        0 <= i <= z <= j <= s.len(),
        forall|k: int| i <= k < z ==> s[k] == '0',
    ensures
        hex_val(s, i, j) == hex_val(s, z, j),
    decreases z - i,
{
    if i < z {
        lemma_hex_leading_zero(s, i, j);
        lemma_hex_skip_zeros(s, i + 1, z, j);
    }
}

/// Powers of 16, used to bound hexadecimal magnitudes.
pub open spec fn pow16(k: nat) -> nat
    decreases k,
{
    if k == 0 {
        1
    } else {
        16 * pow16((k - 1) as nat)
    }
}

/// Powers of 16 are monotone.
pub proof fn lemma_pow16_mono(a: nat, b: nat)
    requires
        a <= b,
    ensures
        pow16(a) <= pow16(b),
    decreases b,
{
    if a < b {
        lemma_pow16_mono(a, (b - 1) as nat);
        assert(pow16(b) == 16 * pow16((b - 1) as nat));
    }
}

// ---------------------------------------------------------------------------
// Executable scanners
// ---------------------------------------------------------------------------

/// Skip spaces and tabs; returns the first position past them.
pub fn skip_space0(input: &str, pos: usize) -> (end: usize)
    requires
        pos <= input@.len(),
    ensures
        end == space_end(input@, pos as int),
        pos <= end <= input@.len(),
{
    let n = input.unicode_len();
    let mut cur = pos;
    while cur < n
        invariant
            pos <= cur <= n,
            n == input@.len(),
            space_end(input@, pos as int) == space_end(input@, cur as int),
        decreases n - cur,
    {
        let c = input.get_char(cur);
        if !(c == ' ' || c == '\t') {
            return cur;
        }
        cur = cur + 1;
    }
    cur
}

/// Match the literal `lit` at `pos`; returns the position just past it.
pub fn match_lit(input: &str, pos: usize, lit: &str) -> (r: Option<usize>)
    requires
        pos <= input@.len(),
    ensures
        match r {
            Some(end) => lit_at(input@, pos as int, lit@) && end == pos + lit@.len() && end
                <= input@.len(),
            None => !lit_at(input@, pos as int, lit@),
        },
{
    let n = input.unicode_len();
    let m = lit.unicode_len();
    if m > n - pos {
        proof {
            if lit_at(input@, pos as int, lit@) {
                assert(pos + lit@.len() <= input@.len());
            }
        }
        return None;
    }
    let mut j: usize = 0;
    while j < m
        invariant
            0 <= j <= m,
            pos + m <= n,
            n == input@.len(),
            m == lit@.len(),
            forall|k: int| 0 <= k < j ==> input@[pos + k] == lit@[k],
        decreases m - j,
    {
        if input.get_char(pos + j) != lit.get_char(j) {
            proof {
                if lit_at(input@, pos as int, lit@) {
                    assert(input@.subrange(pos as int, pos + lit@.len())[j as int] == lit@[j as int]);
                }
            }
            return None;
        }
        j = j + 1;
    }
    proof {
        assert(input@.subrange(pos as int, pos + lit@.len()) =~= lit@);
    }
    Some(pos + m)
}

/// Capture the characters `input[from..to)` as an owned string.
pub fn capture(input: &str, from: usize, to: usize) -> (s: String)
    requires
        from <= to <= input@.len(),
    ensures
        s@ == input@.subrange(from as int, to as int),
{
    String::from_str(input.substring_char(from, to))
}

/// Width of a whitespace prefix in columns, tabs expanding to multiples of 8.
pub fn count_whitespace(s: &str) -> (r: usize)
    requires
        ws_columns(s@) <= usize::MAX,
    ensures
        r == ws_columns(s@),
{
    let n = s.unicode_len();
    let mut col: usize = 0;
    let mut cur: usize = 0;
    while cur < n
        invariant
            0 <= cur <= n,
            n == s@.len(),
            cols_upto(s@, cur as int, n as int, col as nat) == ws_columns(s@),
            ws_columns(s@) <= usize::MAX,
        decreases n - cur,
    {
        let c = s.get_char(cur);
        proof {
            if c == '\t' {
                lemma_cols_ge(s@, cur + 1, n as int, col as nat + tab_cols(col as nat));
            } else {
                lemma_cols_ge(s@, cur + 1, n as int, col as nat + 1);
            }
        }
        if c == '\t' {
            col = col + (8 - col % 8);
        } else {
            col = col + 1;
        }
        cur = cur + 1;
    }
    col
}

/// Measure the indentation run starting at `pos`: its width in columns and
/// the position of the first character past it.
pub fn indent_cols(input: &str, pos: usize) -> (r: (u128, usize))
    requires
        pos <= input@.len(),
    ensures
        r.1 == space_end(input@, pos as int),
        pos <= r.1 <= input@.len(),
        r.0 == cols_upto(input@, pos as int, space_end(input@, pos as int), 0),
{
    let n = input.unicode_len();
    let mut col: u128 = 0;
    let mut cur = pos;
    loop
        invariant
            pos <= cur <= n,
            n == input@.len(),
            space_end(input@, pos as int) == space_end(input@, cur as int),
            forall|k: int| pos <= k < cur ==> space_char(input@[k]),
            cols_upto(input@, pos as int, cur as int, 0) == col,
            col <= 8 * (cur - pos),
        ensures
            cur == space_end(input@, pos as int),
            pos <= cur <= n,
            cols_upto(input@, pos as int, cur as int, 0) == col,
        decreases n - cur,
    {
        if cur >= n {
            break ;
        }
        let c = input.get_char(cur);
        if !(c == ' ' || c == '\t') {
            break ;
        }
        proof {
            lemma_cols_snoc(input@, pos as int, cur as int, 0);
        }
        if c == '\t' {
            col = col + (8 - col % 8);
        } else {
            col = col + 1;
        }
        cur = cur + 1;
    }
    (col, cur)
}

/// Consume one or more blank lines: each is optional spaces followed by a
/// line terminator. Returns the position after the last one, or `None` when
/// none is present.
pub fn take_line_ending(input: &str, pos: usize) -> (r: Option<usize>)
    requires
        pos <= input@.len(),
    ensures
        match r {
            Some(end) => line_ending_step(input@, pos as int) is Some && end == line_ending_run(
                input@,
                pos as int,
            ) && pos < end <= input@.len(),
            None => line_ending_step(input@, pos as int) is None,
        },
{
    let n = input.unicode_len();
    let first = line_ending_once(input, pos);
    match first {
        None => None,
        Some(start) => {
            let mut cur = start;
            proof {
                lemma_line_ending_run_unfold(input@, pos as int);
            }
            loop
                invariant
                    pos < cur <= n,
                    n == input@.len(),
                    line_ending_run(input@, pos as int) == line_ending_run(input@, cur as int),
                ensures
                    pos < cur <= input@.len(),
                    line_ending_run(input@, pos as int) == cur,
                decreases n - cur,
            {
                match line_ending_once(input, cur) {
                    Some(next) => {
                        proof {
                            lemma_line_ending_run_unfold(input@, cur as int);
                        }
                        cur = next;
                    },
                    None => {
                        proof {
                            lemma_line_ending_run_unfold(input@, cur as int);
                        }
                        break ;
                    },
                }
            }
            Some(cur)
        },
    }
}

/// One blank-line step of `take_line_ending`.
fn line_ending_once(input: &str, pos: usize) -> (r: Option<usize>)
    requires
        pos <= input@.len(),
    ensures
        match r {
            Some(end) => line_ending_step(input@, pos as int) == Some(end as int) && pos < end
                <= input@.len(),
            None => line_ending_step(input@, pos as int) is None,
        },
{
    let n = input.unicode_len();
    let k = skip_space0(input, pos);
    if k < n && input.get_char(k) == '\n' {
        Some(k + 1)
    } else if k < n && input.get_char(k) == '\r' && k + 1 < n && input.get_char(k + 1) == '\n' {
        Some(k + 2)
    } else {
        None
    }
}

/// The greedy blank-line run is a fixpoint: unfolding one step keeps it.
proof fn lemma_line_ending_run_unfold(s: Seq<char>, i: int)
    requires
        0 <= i <= s.len(),
    ensures
        match line_ending_step(s, i) {
            Some(j) => i < j <= s.len() && line_ending_run(s, i) == line_ending_run(s, j),
            None => line_ending_run(s, i) == i,
        },
{
    lemma_space_end_ge(s, i);
}

/// Consume token-separating whitespace: spaces, tabs, escaped newlines.
/// Always succeeds; returns the first position past them.
pub fn special_space(input: &str, pos: usize) -> (end: usize)
    requires
        pos <= input@.len(),
    ensures
        end == sspace_end(input@, pos as int),
        pos <= end <= input@.len(),
{
    let n = input.unicode_len();
    let mut cur = pos;
    loop
        invariant
            pos <= cur <= n,
            n == input@.len(),
            sspace_end(input@, pos as int) == sspace_end(input@, cur as int),
        ensures
            pos <= cur <= input@.len(),
            cur == sspace_end(input@, pos as int),
        decreases n - cur,
    {
        if cur < n {
            let c = input.get_char(cur);
            if c == ' ' || c == '\t' {
                cur = cur + 1;
                continue ;
            }
            if c == '\\' && cur + 1 < n && input.get_char(cur + 1) == '\n' {
                cur = cur + 2;
                continue ;
            }
        }
        break ;
    }
    cur
}

/// Consume a `#` comment after optional spaces, up to but not including the
/// terminating newline. Fails when no `#` follows, or the input ends before
/// a newline.
pub fn take_comment(input: &str, pos: usize) -> (r: Option<usize>)
    requires
        pos <= input@.len(),
    ensures
        ({
            let k = space_end(input@, pos as int);
            match r {
                Some(end) => k < input@.len() && input@[k] == '#' && find_newline(input@, k)
                    == Some(end as int) && pos < end <= input@.len(),
                None => k == input@.len() || input@[k] != '#' || find_newline(input@, k) is None,
            }
        }),
{
    let n = input.unicode_len();
    let k = skip_space0(input, pos);
    if k >= n || input.get_char(k) != '#' {
        return None;
    }
    let mut cur = k;
    while cur < n && input.get_char(cur) != '\n'
        invariant
            k <= cur <= n,
            n == input@.len(),
            find_newline(input@, k as int) == find_newline(input@, cur as int),
            input@[k as int] == '#',
        decreases n - cur,
    {
        cur = cur + 1;
    }
    if cur < n {
        Some(cur)
    } else {
        None
    }
}

/// What `take_line_ending` consumes, in specification form.
pub open spec fn line_end_tok(s: Seq<char>, pos: int) -> Option<int> {
    if line_ending_step(s, pos) is Some {
        Some(line_ending_run(s, pos))
    } else {
        None
    }
}

/// What `take_comment` consumes, in specification form.
pub open spec fn comment_tok_end(s: Seq<char>, pos: int) -> Option<int> {
    let k = space_end(s, pos);
    if k < s.len() && s[k] == '#' {
        find_newline(s, k)
    } else {
        None
    }
}

/// Result of `take_continued_line` in specification form: the position after
/// the consumed span, whose text starts after the leading spaces.
pub open spec fn cont_line_end(s: Seq<char>, i: int) -> Option<int>
    recommends
        0 <= i <= s.len(),
{
    let k = space_end(s, i);
    if k < s.len() && s[k] == '\n' {
        Some(k + 1)
    } else {
        cont_scan(s, k)
    }
}

/// Consume the rest of a logical line: leading spaces are skipped, an escaped
/// newline joins the following line, and the scan stops at a trailing `#`
/// comment or just before the line terminator. Returns the captured text
/// (which is `"\n"` when the line is empty) and the position after it.
pub fn take_continued_line(input: &str, pos: usize) -> (r: Option<(String, usize)>)
    requires
        pos <= input@.len(),
    ensures
        ({
            let k = space_end(input@, pos as int);
            match r {
                Some(p) => cont_line_end(input@, pos as int) == Some(p.1 as int) && k <= p.1
                    <= input@.len() && p.0@ == input@.subrange(k, p.1 as int),
                None => cont_line_end(input@, pos as int) is None,
            }
        }),
{
    let n = input.unicode_len();
    let k = skip_space0(input, pos);
    if k < n && input.get_char(k) == '\n' {
        let text = capture(input, k, k + 1);
        return Some((text, k + 1));
    }
    let mut cur = k;
    loop
        invariant_except_break
            cont_scan(input@, k as int) == cont_scan(input@, cur as int),
        invariant
            k <= cur <= n,
            n == input@.len(),
        ensures
            k <= cur <= n,
            match cont_scan(input@, k as int) {
                Some(e) => cur == e && cur < n,
                None => cur == n,
            },
        decreases n - cur,
    {
        if cur >= n {
            break ;
        }
        let c = input.get_char(cur);
        if c == '#' {
            break ;
        }
        if c != '\\' && cur + 1 < n {
            let c1 = input.get_char(cur + 1);
            if c1 == '\n' {
                cur = cur + 1;
                break ;
            }
            if c1 == '\r' && cur + 2 < n && input.get_char(cur + 2) == '\n' {
                cur = cur + 1;
                break ;
            }
        }
        cur = cur + 1;
    }
    if cur == n {
        return None;
    }
    let text = capture(input, k, cur);
    Some((text, cur))
}

} // verus!
