//! Leaf tokens of the Kconfig language: option types, symbols, quoted
//! string literals, and decimal or hexadecimal numbers.
use vstd::prelude::*;
use crate::util::{capture, dec_digit, dec_digit_val, dec_end, dec_val, hex_digit, hex_digit_val,
    hex_end, hex_val, lemma_hex_skip_zeros, lemma_pow16_mono, lit_at, match_lit, pow16,
    qstr_close, skip_space0, space_end, sym_end, zeros_end};

verus! {

/// The type of a configuration option.
#[derive(Debug, PartialEq, Eq, Structural, Copy, Clone)]
pub enum OptionType {
    Tristate,
    Bool,
    Hex,
    Int,
    Str,
}

/// Which option-type keyword, if any, stands at position `k` of `s`, and the
/// position just past it. The alternatives are tried in a fixed order, so a
/// keyword that is a prefix of another wins accordingly.
pub open spec fn opttype_at(s: Seq<char>, k: int) -> Option<(OptionType, int)> {
    if lit_at(s, k, "tristate"@) {
        Some((OptionType::Tristate, k + "tristate"@.len()))
    } else if lit_at(s, k, "bool"@) {
        Some((OptionType::Bool, k + "bool"@.len()))
    } else if lit_at(s, k, "hex"@) {
        Some((OptionType::Hex, k + "hex"@.len()))
    } else if lit_at(s, k, "int"@) {
        Some((OptionType::Int, k + "int"@.len()))
    } else if lit_at(s, k, "string"@) {
        Some((OptionType::Str, k + "string"@.len()))
    } else {
        None
    }
}

impl OptionType {
    /// Parse an option-type keyword after optional leading spaces.
    pub fn parse(input: &str, pos: usize) -> (r: Option<(OptionType, usize)>)
        requires
            pos <= input@.len(),
        ensures
            ({
                let k = space_end(input@, pos as int);
                match r {
                    Some(p) => opttype_at(input@, k) == Some((p.0, p.1 as int)) && pos < p.1
                        <= input@.len(),
                    None => opttype_at(input@, k) is None,
                }
            }),
    {
        proof {
            reveal_strlit("tristate");
            reveal_strlit("bool");
            reveal_strlit("hex");
            reveal_strlit("int");
            reveal_strlit("string");
        }
        let k = skip_space0(input, pos);
        if let Some(end) = match_lit(input, k, "tristate") {
            return Some((OptionType::Tristate, end));
        }
        if let Some(end) = match_lit(input, k, "bool") {
            return Some((OptionType::Bool, end));
        }
        if let Some(end) = match_lit(input, k, "hex") {
            return Some((OptionType::Hex, end));
        }
        if let Some(end) = match_lit(input, k, "int") {
            return Some((OptionType::Int, end));
        }
        if let Some(end) = match_lit(input, k, "string") {
            return Some((OptionType::Str, end));
        }
        None
    }
}

/// A bare identifier: one or more ASCII letters, digits or underscores.
#[derive(Debug, Clone, PartialEq)]
pub struct Symbol {
    pub name: String,
}

impl Symbol {
    /// Parse the longest run of symbol characters at `pos`.
    pub fn parse(input: &str, pos: usize) -> (r: Option<(Symbol, usize)>)
        requires
            pos <= input@.len(),
        ensures
            match r {
                Some(p) => pos < p.1 <= input@.len() && p.1 == sym_end(input@, pos as int)
                    && p.0.name@ == input@.subrange(pos as int, p.1 as int),
                None => sym_end(input@, pos as int) == pos,
            },
    {
        let n = input.unicode_len();
        let mut cur = pos;
        while cur < n
            invariant
                pos <= cur <= n,
                n == input@.len(),
                sym_end(input@, pos as int) == sym_end(input@, cur as int),
            ensures
                pos <= cur <= n,
                cur == sym_end(input@, pos as int),
            decreases n - cur,
        {
            let c = input.get_char(cur);
            if !((('a' <= c && c <= 'z')) || ('A' <= c && c <= 'Z') || ('0' <= c && c <= '9') || c
                == '_') {
                break ;
            }
            cur = cur + 1;
        }
        if cur == pos {
            None
        } else {
            let name = capture(input, pos, cur);
            Some((Symbol { name }, cur))
        }
    }
}

/// Which quote character, if any, delimits a string literal, carrying its
/// raw content with escapes preserved verbatim.
#[derive(Debug, Clone, PartialEq)]
pub enum Delimiter {
    SingleQuote(String),
    DoubleQuote(String),
}

/// A quoted string literal; its content keeps any `\"`-style escapes exactly
/// as written, so re-emission is byte-for-byte faithful.
#[derive(Debug, Clone, PartialEq)]
pub struct ConstantSymbol {
    pub delimiter: Delimiter,
}

impl ConstantSymbol {
    /// The raw content of the literal, without the delimiters.
    pub open spec fn content_view(&self) -> Seq<char> {
        match self.delimiter {
            Delimiter::SingleQuote(t) => t@,
            Delimiter::DoubleQuote(t) => t@,
        }
    }

    /// The quote character the literal was written with.
    pub open spec fn quote_char(&self) -> char {
        match self.delimiter {
            Delimiter::SingleQuote(_t) => '\'',
            Delimiter::DoubleQuote(_t) => '"',
        }
    }

    /// Parse a quoted string literal after optional leading spaces. The
    /// content runs to the first unescaped matching quote; a backslash
    /// before the quote keeps both characters. Fails when unterminated.
    pub fn parse(input: &str, pos: usize) -> (r: Option<(ConstantSymbol, usize)>)
        requires
            pos <= input@.len(),
        ensures
            ({
                let s = input@;
                let k = space_end(s, pos as int);
                match r {
                    Some(p) => k < s.len() && (s[k] == '\'' || s[k] == '"') && p.0.quote_char()
                        == s[k] && qstr_close(s, s[k], k + 1) == Some(p.1 - 1)
                        && p.0.content_view() == s.subrange(k + 1, p.1 - 1) && pos < p.1
                        <= s.len(),
                    None => k == s.len() || !(s[k] == '\'' || s[k] == '"') || qstr_close(
                        s,
                        s[k],
                        k + 1,
                    ) is None,
                }
            }),
    {
        let n = input.unicode_len();
        let k = skip_space0(input, pos);
        if k >= n {
            return None;
        }
        let q = input.get_char(k);
        if !(q == '\'' || q == '"') {
            return None;
        }
        let mut cur = k + 1;
        loop
            invariant
                k + 1 <= cur <= n,
                n == input@.len(),
                q == input@[k as int],
                qstr_close(input@, q, k + 1) == qstr_close(input@, q, cur as int),
            ensures
                match qstr_close(input@, q, k + 1) {
                    Some(e) => cur == e && cur < n && input@[cur as int] == q,
                    None => cur == n,
                },
            decreases n - cur,
        {
            if cur >= n {
                break ;
            }
            let c = input.get_char(cur);
            if c == q {
                break ;
            }
            if c == '\\' && cur + 1 < n && input.get_char(cur + 1) == q {
                cur = cur + 2;
            } else {
                cur = cur + 1;
            }
        }
        if cur == n {
            return None;
        }
        let content = capture(input, k + 1, cur);
        let delimiter = if q == '\'' {
            Delimiter::SingleQuote(content)
        } else {
            Delimiter::DoubleQuote(content)
        };
        Some((ConstantSymbol { delimiter }, cur + 1))
    }
}

/// Where a decimal literal token ends when one stands at `pos`: an
/// optional minus sign, then digits whose value fits a 128-bit signed
/// number. `None` when no such token stands there. `Int::parse` returns
/// `Some` exactly when this does.
pub open spec fn int_tok_end(s: Seq<char>, pos: int) -> Option<int> {
    let neg = 0 <= pos < s.len() && s[pos] == '-';
    let d0 = if neg {
        pos + 1
    } else {
        pos
    };
    let dend = dec_end(s, d0);
    let mag = dec_val(s, d0, dend);
    if dend > d0 && (if neg {
        mag <= 0x8000_0000_0000_0000_0000_0000_0000_0000
    } else {
        mag <= 0x7fff_ffff_ffff_ffff_ffff_ffff_ffff_ffff
    }) {
        Some(dend)
    } else {
        None
    }
}

/// A signed decimal literal.
#[derive(Debug, PartialEq, Eq, Structural, Copy, Clone)]
pub struct Int {
    pub val: i128,
}

impl Int {
    /// Parse an optionally negated decimal number. A magnitude that does not
    /// fit a 128-bit signed value fails the parse.
    pub fn parse(input: &str, pos: usize) -> (r: Option<(Int, usize)>)
        requires
            pos <= input@.len(),
        ensures
            ({
                let s = input@;
                let p = pos as int;
                let neg = p < s.len() && s[p] == '-';
                let d0 = if neg {
                    p + 1
                } else {
                    p
                };
                let dend = dec_end(s, d0);
                let mag = dec_val(s, d0, dend);
                match r {
                    Some(q) => dend > d0 && q.1 == dend && pos < q.1 <= s.len() && (if neg {
                        q.0.val as int == -(mag as int) && mag
                            <= 0x8000_0000_0000_0000_0000_0000_0000_0000
                    } else {
                        q.0.val as int == mag as int && mag
                            <= 0x7fff_ffff_ffff_ffff_ffff_ffff_ffff_ffff
                    }),
                    None => dend == d0 || (neg && mag > 0x8000_0000_0000_0000_0000_0000_0000_0000)
                        || (!neg && mag > 0x7fff_ffff_ffff_ffff_ffff_ffff_ffff_ffff),
                }
            }),
    {
        let n = input.unicode_len();
        let mut cur = pos;
        let mut neg = false;
        if cur < n && input.get_char(cur) == '-' {
            neg = true;
            cur = cur + 1;
        }
        let d0 = cur;
        let mut mag: u128 = 0;
        let mut overflow = false;
        loop
            invariant
                d0 <= cur <= n,
                n == input@.len(),
                dec_end(input@, d0 as int) == dec_end(input@, cur as int),
                !overflow ==> mag == dec_val(input@, d0 as int, cur as int),
                overflow ==> dec_val(input@, d0 as int, cur as int) > u128::MAX,
            ensures
                d0 <= cur <= n,
                cur == dec_end(input@, d0 as int),
                !overflow ==> mag == dec_val(input@, d0 as int, cur as int),
                overflow ==> dec_val(input@, d0 as int, cur as int) > u128::MAX,
            decreases n - cur,
        {
            if cur >= n {
                break ;
            }
            let c = input.get_char(cur);
            if !('0' <= c && c <= '9') {
                break ;
            }
            let d = (c as u32 - 48) as u128;
            proof {
                assert(d == dec_digit_val(input@[cur as int]));
                assert(dec_val(input@, d0 as int, cur as int + 1) == dec_val(
                    input@,
                    d0 as int,
                    cur as int,
                ) * 10 + dec_digit_val(input@[cur as int]));
            }
            if !overflow {
                if mag > (u128::MAX - d) / 10 {
                    overflow = true;
                } else {
                    mag = mag * 10 + d;
                }
            }
            cur = cur + 1;
        }
        let dend = cur;
        if dend == d0 {
            return None;
        }
        if overflow {
            return None;
        }
        if neg {
            if mag > 0x8000_0000_0000_0000_0000_0000_0000_0000u128 {
                return None;
            }
            let val: i128 = if mag == 0x8000_0000_0000_0000_0000_0000_0000_0000u128 {
                i128::MIN
            } else {
                -(mag as i128)
            };
            Some((Int { val }, dend))
        } else {
            if mag > 0x7fff_ffff_ffff_ffff_ffff_ffff_ffff_ffffu128 {
                return None;
            }
            Some((Int { val: mag as i128 }, dend))
        }
    }
}

/// Where a hexadecimal literal token ends when one stands at `pos`: the
/// `0x` prefix, then digits, at most thirty-two of them significant.
/// `None` when no such token stands there. `Hex::parse` returns `Some`
/// exactly when this does.
pub open spec fn hex_tok_end(s: Seq<char>, pos: int) -> Option<int> {
    if lit_at(s, pos, "0x"@) && hex_end(s, pos + 2) > pos + 2 && hex_end(s, pos + 2) - zeros_end(
        s,
        pos + 2,
    ) <= 32 {
        Some(hex_end(s, pos + 2))
    } else {
        None
    }
}

/// An unsigned hexadecimal literal, written with a `0x` prefix.
#[derive(Debug, PartialEq, Eq, Structural, Copy, Clone)]
pub struct Hex {
    pub val: u128,
}

/// The power-of-16 magnitude bound used while accumulating hexadecimal
/// digits: thirty-two significant digits fill 128 bits exactly.
pub(crate) proof fn lemma_pow16_32()
    ensures
        pow16(32) == 0x1_0000_0000_0000_0000_0000_0000_0000_0000,
{
    reveal_with_fuel(pow16, 33);
}

impl Hex {
    /// Parse a `0x`-prefixed hexadecimal number. Leading zeros are
    /// insignificant; more than thirty-two significant digits would
    /// overflow 128 bits and fail the parse.
    pub fn parse(input: &str, pos: usize) -> (r: Option<(Hex, usize)>)
        requires
            pos <= input@.len(),
        ensures
            ({
                let s = input@;
                let p = pos as int;
                let d0 = p + 2;
                match r {
                    Some(q) => lit_at(s, p, "0x"@) && hex_end(s, d0) > d0 && q.1 == hex_end(s, d0)
                        && q.1 - zeros_end(s, d0) <= 32 && q.0.val == hex_val(s, d0, q.1 as int)
                        && pos < q.1 <= s.len(),
                    None => !lit_at(s, p, "0x"@) || hex_end(s, p + 2) == p + 2 || hex_end(s, p + 2)
                        - zeros_end(s, p + 2) > 32,
                }
            }),
    {
        let n = input.unicode_len();
        let d0 = match match_lit(input, pos, "0x") {
            Some(e) => e,
            None => {
                return None;
            },
        };
        proof {
            assert("0x"@.len() == 2) by {
                reveal_strlit("0x");
            }
        }
        let mut cur = d0;
        loop
            invariant
                d0 <= cur <= n,
                n == input@.len(),
                hex_end(input@, d0 as int) == hex_end(input@, cur as int),
                forall|k: int| d0 <= k < cur ==> hex_digit(input@[k]),
            ensures
                d0 <= cur <= n,
                cur == hex_end(input@, d0 as int),
                forall|k: int| d0 <= k < cur ==> hex_digit(input@[k]),
                cur == n || !hex_digit(input@[cur as int]),
            decreases n - cur,
        {
            if cur >= n {
                break ;
            }
            let c = input.get_char(cur);
            if !(('0' <= c && c <= '9') || ('a' <= c && c <= 'f') || ('A' <= c && c <= 'F')) {
                break ;
            }
            cur = cur + 1;
        }
        let dend = cur;
        if dend == d0 {
            return None;
        }
        let mut z = d0;
        while z < dend && input.get_char(z) == '0'
            invariant
                d0 <= z <= dend <= n,
                n == input@.len(),
                dend == hex_end(input@, d0 as int),
                dend == n || !hex_digit(input@[dend as int]),
                zeros_end(input@, d0 as int) == zeros_end(input@, z as int),
                forall|k: int| d0 <= k < z ==> input@[k] == '0',
            decreases dend - z,
        {
            z = z + 1;
        }
        proof {
            // past `dend` there is no hexadecimal digit, hence no '0' either
            assert(zeros_end(input@, z as int) == z);
        }
        if dend - z > 32 {
            return None;
        }
        let mut mag: u128 = 0;
        let mut i = z;
        while i < dend
            invariant
                z <= i <= dend <= n,
                dend - z <= 32,
                n == input@.len(),
                forall|k: int| z <= k < dend ==> hex_digit(input@[k]),
                mag == hex_val(input@, z as int, i as int),
                mag < pow16((i - z) as nat),
            decreases dend - i,
        {
            let c = input.get_char(i);
            let d: u128 = if '0' <= c && c <= '9' {
                (c as u32 - 48) as u128
            } else if 'a' <= c && c <= 'f' {
                (c as u32 - 97 + 10) as u128
            } else {
                (c as u32 - 65 + 10) as u128
            };
            proof {
                assert(d == hex_digit_val(input@[i as int]));
                assert(hex_val(input@, z as int, i + 1) == hex_val(input@, z as int, i as int) * 16
                    + hex_digit_val(input@[i as int]));
                assert(pow16(((i - z) + 1) as nat) == 16 * pow16((i - z) as nat));
                lemma_pow16_mono(((i - z) + 1) as nat, 32);
                lemma_pow16_32();
            }
            mag = mag * 16 + d;
            i = i + 1;
        }
        proof {
            lemma_hex_skip_zeros(input@, d0 as int, z as int, dend as int);
        }
        Some((Hex { val: mag }, dend))
    }
}

} // verus!
