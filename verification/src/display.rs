//! The serializer: deterministic regeneration of Kconfig surface syntax
//! from a tree. Attribute order and whitespace are normalized (each
//! attribute on its own tab-indented line, help reindented two spaces
//! deeper), so the output need not equal the original input byte for byte,
//! but re-parsing it yields an equivalent tree. Every `display_kconfig`
//! method is pinned to a `render_*` specification function.
use vstd::prelude::*;
use crate::token::{ConstantSymbol, Delimiter, Hex, Int, OptionType, Symbol};
use crate::expr::{Condition, Expression};
use crate::attrs::{Dependency, Help, Prompt, Range, RangeType, ReverseDependency};
use crate::koption::KOption;
use crate::kchoice::KChoice;
use crate::kcommentblock::KCommentBlock;
use crate::kconfig::{Block, KConfig};
use crate::kmenu::KMenu;

verus! {

// ---------------------------------------------------------------------------
// Rendering numbers
// ---------------------------------------------------------------------------

/// The character of one decimal digit.
pub open spec fn digit_char(d: nat) -> char {
    if d == 0 {
        '0'
    } else if d == 1 {
        '1'
    } else if d == 2 {
        '2'
    } else if d == 3 {
        '3'
    } else if d == 4 {
        '4'
    } else if d == 5 {
        '5'
    } else if d == 6 {
        '6'
    } else if d == 7 {
        '7'
    } else if d == 8 {
        '8'
    } else {
        '9'
    }
}

/// The character of one hexadecimal digit, lower case.
pub open spec fn hex_digit_char(d: nat) -> char {
    if d < 10 {
        digit_char(d)
    } else if d == 10 {
        'a'
    } else if d == 11 {
        'b'
    } else if d == 12 {
        'c'
    } else if d == 13 {
        'd'
    } else if d == 14 {
        'e'
    } else {
        'f'
    }
}

/// The decimal digits of `n`, most significant first.
pub open spec fn dec_digits(n: nat) -> Seq<char>
    decreases n,
{
    if n < 10 {
        seq![digit_char(n)]
    } else {
        dec_digits(n / 10).push(digit_char(n % 10))
    }
}

/// The hexadecimal digits of `n`, most significant first, lower case.
pub open spec fn hex_digits(n: nat) -> Seq<char>
    decreases n,
{
    if n < 16 {
        seq![hex_digit_char(n)]
    } else {
        hex_digits(n / 16).push(hex_digit_char(n % 16))
    }
}

/// A signed decimal rendering.
pub open spec fn render_int(v: int) -> Seq<char> {
    if v < 0 {
        "-"@ + dec_digits((-v) as nat)
    } else {
        dec_digits(v as nat)
    }
}

/// A `0x`-prefixed hexadecimal rendering.
pub open spec fn render_hex(n: nat) -> Seq<char> {
    "0x"@ + hex_digits(n)
}

/// One decimal digit as a string slice.
fn digit_str(d: u128) -> (r: &'static str)
    requires
        d < 10,
    ensures
        r@ == seq![digit_char(d as nat)],
{
    proof {
        reveal_strlit("0");
        reveal_strlit("1");
        reveal_strlit("2");
        reveal_strlit("3");
        reveal_strlit("4");
        reveal_strlit("5");
        reveal_strlit("6");
        reveal_strlit("7");
        reveal_strlit("8");
        reveal_strlit("9");
    }
    if d == 0 {
        "0"
    } else if d == 1 {
        "1"
    } else if d == 2 {
        "2"
    } else if d == 3 {
        "3"
    } else if d == 4 {
        "4"
    } else if d == 5 {
        "5"
    } else if d == 6 {
        "6"
    } else if d == 7 {
        "7"
    } else if d == 8 {
        "8"
    } else {
        "9"
    }
}

/// One hexadecimal digit as a string slice, lower case.
fn hex_digit_str(d: u128) -> (r: &'static str)
    requires
        d < 16,
    ensures
        r@ == seq![hex_digit_char(d as nat)],
{
    proof {
        reveal_strlit("a");
        reveal_strlit("b");
        reveal_strlit("c");
        reveal_strlit("d");
        reveal_strlit("e");
        reveal_strlit("f");
    }
    if d < 10 {
        digit_str(d)
    } else if d == 10 {
        "a"
    } else if d == 11 {
        "b"
    } else if d == 12 {
        "c"
    } else if d == 13 {
        "d"
    } else if d == 14 {
        "e"
    } else {
        "f"
    }
}

/// Render an unsigned value in decimal.
fn dec_str(n: u128) -> (s: String)
    ensures
        s@ == dec_digits(n as nat),
    decreases n,
{
    if n < 10 {
        String::from_str(digit_str(n))
    } else {
        let mut s = dec_str(n / 10);
        s.append(digit_str(n % 10));
        proof {
            assert(s@ =~= dec_digits(n as nat));
        }
        s
    }
}

/// Render an unsigned value in `0x`-prefixed hexadecimal.
fn hex_str(n: u128) -> (s: String)
    ensures
        s@ == render_hex(n as nat),
{
    let mut s = String::from_str("0x");
    let digits = hex_str_digits(n);
    s.append(digits.as_str());
    s
}

/// The digits of `hex_str`, without the prefix.
fn hex_str_digits(n: u128) -> (s: String)
    ensures
        s@ == hex_digits(n as nat),
    decreases n,
{
    if n < 16 {
        String::from_str(hex_digit_str(n))
    } else {
        let mut s = hex_str_digits(n / 16);
        s.append(hex_digit_str(n % 16));
        proof {
            assert(s@ =~= hex_digits(n as nat));
        }
        s
    }
}

// ---------------------------------------------------------------------------
// Rendering tokens and attributes
// ---------------------------------------------------------------------------

/// The keyword of an option type. `Str` is written `string`, the keyword
/// the parser accepts, so the output re-parses.
pub open spec fn render_opttype(t: OptionType) -> Seq<char> {
    match t {
        OptionType::Tristate => "tristate"@,
        OptionType::Bool => "bool"@,
        OptionType::Hex => "hex"@,
        OptionType::Int => "int"@,
        OptionType::Str => "string"@,
    }
}

/// A quoted literal, re-emitted with its original delimiter and its raw
/// content, escapes untouched.
pub open spec fn render_constsym(c: ConstantSymbol) -> Seq<char> {
    match c.delimiter {
        Delimiter::SingleQuote(t) => "'"@ + t@ + "'"@,
        Delimiter::DoubleQuote(t) => "\""@ + t@ + "\""@,
    }
}

/// A trailing ` if <expr>` suffix, when a condition is present.
pub open spec fn render_cond_suffix(c: Option<Condition>) -> Seq<char> {
    match c {
        Some(c) => " if "@ + c.expression.val@,
        None => Seq::empty(),
    }
}

/// A prompt: its quoted label and its optional condition.
pub open spec fn render_prompt(p: Prompt) -> Seq<char> {
    render_constsym(p.text) + render_cond_suffix(p.condition)
}

/// A dependency: its expression text and its optional condition.
pub open spec fn render_dependency(d: Dependency) -> Seq<char> {
    d.expression.val@ + render_cond_suffix(d.condition)
}

/// A reverse dependency: its symbol and its optional condition.
pub open spec fn render_rdep(d: ReverseDependency) -> Seq<char> {
    d.symbol.name@ + render_cond_suffix(d.condition)
}

/// One bound of a range.
pub open spec fn render_rangetype(t: RangeType) -> Seq<char> {
    match t {
        RangeType::Int(v) => render_int(v.val as int),
        RangeType::Hex(v) => render_hex(v.val as nat),
        RangeType::Symbol(s) => s.name@,
    }
}

/// A range: both bounds and the optional condition.
pub open spec fn render_range(r: Range) -> Seq<char> {
    render_rangetype(r.start) + " "@ + render_rangetype(r.end) + render_cond_suffix(r.condition)
}

impl OptionType {
    /// The surface keyword of this type.
    pub fn display_kconfig(&self) -> (s: String)
        ensures
            s@ == render_opttype(*self),
    {
        match self {
            OptionType::Tristate => String::from_str("tristate"),
            OptionType::Bool => String::from_str("bool"),
            OptionType::Hex => String::from_str("hex"),
            OptionType::Int => String::from_str("int"),
            OptionType::Str => String::from_str("string"),
        }
    }
}

impl Symbol {
    /// The symbol's name, as written.
    pub fn display_kconfig(&self) -> (s: String)
        ensures
            s@ == self.name@,
    {
        String::from_str(self.name.as_str())
    }
}

impl ConstantSymbol {
    /// The literal with its delimiters, byte for byte as captured.
    pub fn display_kconfig(&self) -> (s: String)
        ensures
            s@ == render_constsym(*self),
    {
        match &self.delimiter {
            Delimiter::SingleQuote(t) => {
                let mut s = String::from_str("'");
                s.append(t.as_str());
                s.append("'");
                s
            },
            Delimiter::DoubleQuote(t) => {
                let mut s = String::from_str("\"");
                s.append(t.as_str());
                s.append("\"");
                s
            },
        }
    }
}

impl Expression {
    /// The expression's captured text.
    pub fn display_kconfig(&self) -> (s: String)
        ensures
            s@ == self.val@,
    {
        String::from_str(self.val.as_str())
    }
}

impl Int {
    /// The value in decimal.
    pub fn display_kconfig(&self) -> (s: String)
        ensures
            s@ == render_int(self.val as int),
    {
        if self.val < 0 {
            let mag: u128 = if self.val == i128::MIN {
                0x8000_0000_0000_0000_0000_0000_0000_0000u128
            } else {
                (-self.val) as u128
            };
            let mut s = String::from_str("-");
            let digits = dec_str(mag);
            s.append(digits.as_str());
            s
        } else {
            dec_str(self.val as u128)
        }
    }
}

impl Hex {
    /// The value in `0x`-prefixed hexadecimal, lower case, so the output
    /// re-parses as the same hexadecimal literal.
    pub fn display_kconfig(&self) -> (s: String)
        ensures
            s@ == render_hex(self.val as nat),
    {
        hex_str(self.val)
    }
}

/// Append the ` if <expr>` suffix of a condition, when one is present.
fn append_cond_suffix(out: &mut String, c: &Option<Condition>)
    ensures
        final(out)@ == old(out)@ + render_cond_suffix(*c),
{
    match c {
        Some(c) => {
            out.append(" if ");
            out.append(c.expression.val.as_str());
        },
        None => {},
    }
}

impl Prompt {
    /// The quoted label, with its condition when present.
    pub fn display_kconfig(&self) -> (s: String)
        ensures
            s@ == render_prompt(*self),
    {
        let mut s = self.text.display_kconfig();
        append_cond_suffix(&mut s, &self.condition);
        s
    }
}

impl Dependency {
    /// The expression text, with its condition when present.
    pub fn display_kconfig(&self) -> (s: String)
        ensures
            s@ == render_dependency(*self),
    {
        let mut s = String::from_str(self.expression.val.as_str());
        append_cond_suffix(&mut s, &self.condition);
        s
    }
}

impl ReverseDependency {
    /// The symbol, with its condition when present.
    pub fn display_kconfig(&self) -> (s: String)
        ensures
            s@ == render_rdep(*self),
    {
        let mut s = String::from_str(self.symbol.name.as_str());
        append_cond_suffix(&mut s, &self.condition);
        s
    }
}

impl RangeType {
    /// One bound of a range.
    pub fn display_kconfig(&self) -> (s: String)
        ensures
            s@ == render_rangetype(*self),
    {
        match self {
            RangeType::Int(v) => v.display_kconfig(),
            RangeType::Hex(v) => v.display_kconfig(),
            RangeType::Symbol(m) => m.display_kconfig(),
        }
    }
}

impl Range {
    /// Both bounds, with the condition when present.
    pub fn display_kconfig(&self) -> (s: String)
        ensures
            s@ == render_range(*self),
    {
        let mut s = self.start.display_kconfig();
        s.append(" ");
        let e = self.end.display_kconfig();
        s.append(e.as_str());
        append_cond_suffix(&mut s, &self.condition);
        s
    }
}

// ---------------------------------------------------------------------------
// Rendering attribute lists
// ---------------------------------------------------------------------------

/// One help line: blank lines stay blank, others are tab-indented two
/// spaces deeper than the attribute keywords.
pub open spec fn render_help_line(l: String) -> Seq<char> {
    if l@.len() == 0 {
        "\n"@
    } else {
        "\t  "@ + l@ + "\n"@
    }
}

/// The help lines from index `i` on.
pub open spec fn render_help_lines(ls: Seq<String>, i: int) -> Seq<char>
    decreases ls.len() - i when 0 <= i
{
    if 0 <= i < ls.len() {
        render_help_line(ls[i]) + render_help_lines(ls, i + 1)
    } else {
        Seq::empty()
    }
}

/// A help block: the keyword line, then every line.
pub open spec fn render_help(h: Option<Help>) -> Seq<char> {
    match h {
        Some(h) => "\thelp\n"@ + render_help_lines(h.text@, 0),
        None => Seq::empty(),
    }
}

impl Help {
    /// The help block's lines, re-indented below a `help` keyword line.
    pub fn display_kconfig(&self) -> (s: String)
        ensures
            s@ == render_help_lines(self.text@, 0),
    {
        let mut s = String::new();
        let mut i: usize = 0;
        while i < self.text.len()
            invariant
                0 <= i <= self.text@.len(),
                s@ + render_help_lines(self.text@, i as int) =~= render_help_lines(
                    self.text@,
                    0,
                ),
            decreases self.text@.len() - i,
        {
            if self.text[i].as_str().unicode_len() == 0 {
                s.append("\n");
            } else {
                s.append("\t  ");
                s.append(self.text[i].as_str());
                s.append("\n");
            }
            i = i + 1;
        }
        s
    }
}

/// Append the help block of an option or choice, when present.
fn append_help(out: &mut String, h: &Option<Help>)
    ensures
        final(out)@ == old(out)@ + render_help(*h),
{
    match h {
        Some(h) => {
            out.append("\thelp\n");
            let lines = h.display_kconfig();
            out.append(lines.as_str());
        },
        None => {},
    }
}

/// Dependency lines from index `i` on: each `\t<kw> <dep>\n`.
pub open spec fn render_dep_lines(kw: Seq<char>, ds: Seq<Dependency>, i: int) -> Seq<char>
    decreases ds.len() - i when 0 <= i
{
    if 0 <= i < ds.len() {
        "\t"@ + kw + " "@ + render_dependency(ds[i]) + "\n"@ + render_dep_lines(kw, ds, i + 1)
    } else {
        Seq::empty()
    }
}

/// The dependency lines of an optional list.
pub open spec fn render_deps(kw: Seq<char>, ds: Option<Vec<Dependency>>) -> Seq<char> {
    match ds {
        Some(v) => render_dep_lines(kw, v@, 0),
        None => Seq::empty(),
    }
}

/// Append one `\t<kw> <dep>\n` line per entry of an optional list.
fn append_deps(out: &mut String, kw: &str, ds: &Option<Vec<Dependency>>)
    ensures
        final(out)@ == old(out)@ + render_deps(kw@, *ds),
{
    match ds {
        Some(v) => {
            let mut i: usize = 0;
            while i < v.len()
                invariant
                    0 <= i <= v@.len(),
                    out@ + render_dep_lines(kw@, v@, i as int) =~= old(out)@ + render_dep_lines(
                        kw@,
                        v@,
                        0,
                    ),
                decreases v@.len() - i,
            {
                out.append("\t");
                out.append(kw);
                out.append(" ");
                let d = v[i].display_kconfig();
                out.append(d.as_str());
                out.append("\n");
                i = i + 1;
            }
        },
        None => {},
    }
}

/// Reverse-dependency lines from index `i` on: each `\t<kw> <sym>\n`.
pub open spec fn render_rdep_lines(kw: Seq<char>, ds: Seq<ReverseDependency>, i: int) -> Seq<char>
    decreases ds.len() - i when 0 <= i
{
    if 0 <= i < ds.len() {
        "\t"@ + kw + " "@ + render_rdep(ds[i]) + "\n"@ + render_rdep_lines(kw, ds, i + 1)
    } else {
        Seq::empty()
    }
}

/// The reverse-dependency lines of an optional list.
pub open spec fn render_rdeps(kw: Seq<char>, ds: Option<Vec<ReverseDependency>>) -> Seq<char> {
    match ds {
        Some(v) => render_rdep_lines(kw, v@, 0),
        None => Seq::empty(),
    }
}

/// Append one `\t<kw> <sym>\n` line per entry of an optional list.
fn append_rdeps(out: &mut String, kw: &str, ds: &Option<Vec<ReverseDependency>>)
    ensures
        final(out)@ == old(out)@ + render_rdeps(kw@, *ds),
{
    match ds {
        Some(v) => {
            let mut i: usize = 0;
            while i < v.len()
                invariant
                    0 <= i <= v@.len(),
                    out@ + render_rdep_lines(kw@, v@, i as int) =~= old(out)@ + render_rdep_lines(
                        kw@,
                        v@,
                        0,
                    ),
                decreases v@.len() - i,
            {
                out.append("\t");
                out.append(kw);
                out.append(" ");
                let d = v[i].display_kconfig();
                out.append(d.as_str());
                out.append("\n");
                i = i + 1;
            }
        },
        None => {},
    }
}

/// Range lines from index `i` on: each `\trange <range>\n`.
pub open spec fn render_range_lines(rs: Seq<Range>, i: int) -> Seq<char>
    decreases rs.len() - i when 0 <= i
{
    if 0 <= i < rs.len() {
        "\trange "@ + render_range(rs[i]) + "\n"@ + render_range_lines(rs, i + 1)
    } else {
        Seq::empty()
    }
}

/// The range lines of an optional list.
pub open spec fn render_ranges(rs: Option<Vec<Range>>) -> Seq<char> {
    match rs {
        Some(v) => render_range_lines(v@, 0),
        None => Seq::empty(),
    }
}

/// Append one `\trange <range>\n` line per entry of an optional list.
fn append_ranges(out: &mut String, rs: &Option<Vec<Range>>)
    ensures
        final(out)@ == old(out)@ + render_ranges(*rs),
{
    match rs {
        Some(v) => {
            let mut i: usize = 0;
            while i < v.len()
                invariant
                    0 <= i <= v@.len(),
                    out@ + render_range_lines(v@, i as int) =~= old(out)@ + render_range_lines(
                        v@,
                        0,
                    ),
                decreases v@.len() - i,
            {
                out.append("\trange ");
                let d = v[i].display_kconfig();
                out.append(d.as_str());
                out.append("\n");
                i = i + 1;
            }
        },
        None => {},
    }
}

/// Explicit `\tprompt <prompt>\n` lines for the prompts `ps[i..]`.
pub open spec fn render_prompt_lines(ps: Seq<Prompt>, i: int, upto: int) -> Seq<char>
    decreases upto - i when 0 <= i
{
    if 0 <= i < upto && i < ps.len() {
        "\tprompt "@ + render_prompt(ps[i]) + "\n"@ + render_prompt_lines(ps, i + 1, upto)
    } else {
        Seq::empty()
    }
}

/// Append `\tprompt <prompt>\n` lines for `ps[0..upto)`.
fn append_prompt_lines(out: &mut String, ps: &Vec<Prompt>, upto: usize)
    requires
        upto <= ps@.len(),
    ensures
        final(out)@ == old(out)@ + render_prompt_lines(ps@, 0, upto as int),
{
    let mut i: usize = 0;
    while i < upto
        invariant
            0 <= i <= upto <= ps@.len(),
            out@ + render_prompt_lines(ps@, i as int, upto as int) =~= old(out)@
                + render_prompt_lines(ps@, 0, upto as int),
        decreases upto - i,
    {
        out.append("\tprompt ");
        let d = ps[i].display_kconfig();
        out.append(d.as_str());
        out.append("\n");
        i = i + 1;
    }
}

} // verus!

verus! {

// ---------------------------------------------------------------------------
// Rendering whole declarations
// ---------------------------------------------------------------------------

/// How many prompts are written as explicit `prompt` lines: all but the
/// last, which rides inline on the type line.
pub open spec fn inline_upto(ps: Seq<Prompt>) -> int {
    if ps.len() > 0 {
        ps.len() - 1
    } else {
        0
    }
}

/// The type line of an option or choice: the keyword, and the last prompt
/// inline when one exists. Re-parsing appends the inline prompt after the
/// explicit ones, which restores the original prompt order.
pub open spec fn render_type_line(t: OptionType, ps: Seq<Prompt>) -> Seq<char> {
    "\t"@ + render_opttype(t) + (if ps.len() > 0 {
        " "@ + render_prompt(ps.last())
    } else {
        Seq::empty()
    }) + "\n"@
}

/// The prompts of an option, empty when none were written.
pub open spec fn option_prompts(o: KOption) -> Seq<Prompt> {
    match o.prompts {
        Some(v) => v@,
        None => Seq::empty(),
    }
}

/// A whole `config` declaration: keyword and name, the type line, then the
/// attribute lines in canonical order, then the help block.
pub open spec fn render_option(o: KOption) -> Seq<char> {
    "config "@ + o.name.name@ + "\n"@ + render_type_line(o.option_type, option_prompts(o))
        + render_prompt_lines(option_prompts(o), 0, inline_upto(option_prompts(o))) + render_deps(
        "default"@,
        o.defaults,
    ) + render_deps("def_bool"@, o.def_bool) + render_deps("def_tristate"@, o.def_tristate)
        + render_deps("depends on"@, o.depends) + render_rdeps("select"@, o.selects) + render_rdeps(
        "imply"@,
        o.implies,
    ) + render_ranges(o.ranges) + render_help(o.help)
}

/// Append the type line of an option or choice.
fn append_type_line(out: &mut String, t: OptionType, ps: &Vec<Prompt>)
    ensures
        final(out)@ == old(out)@ + render_type_line(t, ps@),
{
    out.append("\t");
    let kw = t.display_kconfig();
    out.append(kw.as_str());
    if ps.len() > 0 {
        out.append(" ");
        let p = ps[ps.len() - 1].display_kconfig();
        out.append(p.as_str());
    }
    out.append("\n");
}

impl KOption {
    /// Emit this option as canonical Kconfig text (see `render_option`).
    pub fn display_kconfig(&self) -> (s: String)
        ensures
            s@ == render_option(*self),
    {
        let mut out = String::from_str("config ");
        out.append(self.name.name.as_str());
        out.append("\n");
        let empty_prompts: Vec<Prompt> = Vec::new();
        match &self.prompts {
            Some(ps) => {
                append_type_line(&mut out, self.option_type, ps);
                let upto: usize = if ps.len() > 0 {
                    ps.len() - 1
                } else {
                    0
                };
                append_prompt_lines(&mut out, ps, upto);
            },
            None => {
                append_type_line(&mut out, self.option_type, &empty_prompts);
                proof {
                    assert(render_prompt_lines(option_prompts(*self), 0, 0) =~= Seq::<
                        char,
                    >::empty());
                }
            },
        }
        append_deps(&mut out, "default", &self.defaults);
        append_deps(&mut out, "def_bool", &self.def_bool);
        append_deps(&mut out, "def_tristate", &self.def_tristate);
        append_deps(&mut out, "depends on", &self.depends);
        append_rdeps(&mut out, "select", &self.selects);
        append_rdeps(&mut out, "imply", &self.implies);
        append_ranges(&mut out, &self.ranges);
        append_help(&mut out, &self.help);
        proof {
            assert(out@ =~= render_option(*self));
        }
        out
    }
}

/// A `comment` declaration: its prompt, then its dependencies.
pub open spec fn render_commentblock(cb: KCommentBlock) -> Seq<char> {
    "comment "@ + render_prompt(cb.prompt) + "\n"@ + render_deps("depends on"@, cb.depends)
}

impl KCommentBlock {
    /// Emit this comment block as canonical Kconfig text.
    pub fn display_kconfig(&self) -> (s: String)
        ensures
            s@ == render_commentblock(*self),
    {
        let mut out = String::from_str("comment ");
        let p = self.prompt.display_kconfig();
        out.append(p.as_str());
        out.append("\n");
        append_deps(&mut out, "depends on", &self.depends);
        proof {
            assert(out@ =~= render_commentblock(*self));
        }
        out
    }
}

/// The member options `os[i..]`, each a whole declaration.
pub open spec fn render_options_from(os: Seq<KOption>, i: int) -> Seq<char>
    decreases os.len() - i when 0 <= i
{
    if 0 <= i < os.len() {
        render_option(os[i]) + render_options_from(os, i + 1)
    } else {
        Seq::empty()
    }
}

/// Append every option of `os` as a whole declaration.
fn append_options(out: &mut String, os: &Vec<KOption>)
    ensures
        final(out)@ == old(out)@ + render_options_from(os@, 0),
{
    let mut i: usize = 0;
    while i < os.len()
        invariant
            0 <= i <= os@.len(),
            out@ + render_options_from(os@, i as int) =~= old(out)@ + render_options_from(os@, 0),
        decreases os@.len() - i,
    {
        let o = os[i].display_kconfig();
        out.append(o.as_str());
        i = i + 1;
    }
}

/// A whole `choice` group: the marker and type lines, the attribute lines,
/// the help block, the member options, and the closing keyword.
pub open spec fn render_choice(c: KChoice) -> Seq<char> {
    "choice\n"@ + (if c.optional {
        "\toptional\n"@
    } else {
        Seq::empty()
    }) + render_type_line(c.option_type, c.prompts@) + render_prompt_lines(
        c.prompts@,
        0,
        inline_upto(c.prompts@),
    ) + render_deps("default"@, c.defaults) + render_deps("depends on"@, c.depends) + render_help(
        c.help,
    ) + render_options_from(c.options@, 0) + "endchoice\n"@
}

impl KChoice {
    /// Emit this choice as canonical Kconfig text (see `render_choice`).
    pub fn display_kconfig(&self) -> (s: String)
        ensures
            s@ == render_choice(*self),
    {
        let mut out = String::from_str("choice\n");
        if self.optional {
            out.append("\toptional\n");
        }
        append_type_line(&mut out, self.option_type, &self.prompts);
        let upto: usize = if self.prompts.len() > 0 {
            self.prompts.len() - 1
        } else {
            0
        };
        append_prompt_lines(&mut out, &self.prompts, upto);
        append_deps(&mut out, "default", &self.defaults);
        append_deps(&mut out, "depends on", &self.depends);
        append_help(&mut out, &self.help);
        append_options(&mut out, &self.options);
        out.append("endchoice\n");
        proof {
            assert(out@ =~= render_choice(*self));
        }
        out
    }
}

/// `source` reference lines: each `source <prompt>\n`.
pub open spec fn render_source_lines(ps: Seq<Prompt>, i: int) -> Seq<char>
    decreases ps.len() - i when 0 <= i
{
    if 0 <= i < ps.len() {
        "source "@ + render_prompt(ps[i]) + "\n"@ + render_source_lines(ps, i + 1)
    } else {
        Seq::empty()
    }
}

/// The `source` lines of an optional list.
pub open spec fn render_sources(ps: Option<Vec<Prompt>>) -> Seq<char> {
    match ps {
        Some(v) => render_source_lines(v@, 0),
        None => Seq::empty(),
    }
}

/// Append one `source <prompt>\n` line per entry of an optional list.
fn append_sources(out: &mut String, ps: &Option<Vec<Prompt>>)
    ensures
        final(out)@ == old(out)@ + render_sources(*ps),
{
    match ps {
        Some(v) => {
            let mut i: usize = 0;
            while i < v.len()
                invariant
                    0 <= i <= v@.len(),
                    out@ + render_source_lines(v@, i as int) =~= old(out)@ + render_source_lines(
                        v@,
                        0,
                    ),
                decreases v@.len() - i,
            {
                out.append("source ");
                let p = v[i].display_kconfig();
                out.append(p.as_str());
                out.append("\n");
                i = i + 1;
            }
        },
        None => {},
    }
}

} // verus!

verus! {

/// The comment blocks `cs[i..]`, each rendered whole.
pub open spec fn render_comments_from(cs: Seq<KCommentBlock>, i: int) -> Seq<char>
    decreases cs.len() - i when 0 <= i
{
    if 0 <= i < cs.len() {
        render_commentblock(cs[i]) + render_comments_from(cs, i + 1)
    } else {
        Seq::empty()
    }
}

/// The comment-block lines of an optional list.
pub open spec fn render_comments(cs: Option<Vec<KCommentBlock>>) -> Seq<char> {
    match cs {
        Some(v) => render_comments_from(v@, 0),
        None => Seq::empty(),
    }
}

/// Append every comment block of an optional list, rendered whole.
fn append_comments(out: &mut String, cs: &Option<Vec<KCommentBlock>>)
    ensures
        final(out)@ == old(out)@ + render_comments(*cs),
{
    match cs {
        Some(v) => {
            let mut i: usize = 0;
            while i < v.len()
                invariant
                    0 <= i <= v@.len(),
                    out@ + render_comments_from(v@, i as int) =~= old(out)@ + render_comments_from(
                        v@,
                        0,
                    ),
                decreases v@.len() - i,
            {
                let c = v[i].display_kconfig();
                out.append(c.as_str());
                i = i + 1;
            }
        },
        None => {},
    }
}

/// The choices `cs[i..]`, each a whole group.
pub open spec fn render_choices_from(cs: Seq<KChoice>, i: int) -> Seq<char>
    decreases cs.len() - i when 0 <= i
{
    if 0 <= i < cs.len() {
        render_choice(cs[i]) + render_choices_from(cs, i + 1)
    } else {
        Seq::empty()
    }
}

/// A conditional block: the condition line, the nested body, `endif`.
pub open spec fn render_block(b: Block) -> Seq<char>
    decreases b, 0int, 0int,
{
    "if "@ + b.condition.expression.val@ + "\n"@ + render_config(b.config) + "endif\n"@
}

/// The blocks `bs[i..]`, each rendered whole.
pub open spec fn render_blocks_from(bs: Vec<Block>, i: int) -> Seq<char>
    decreases bs, bs.len() - i, 1int when 0 <= i
{
    if 0 <= i < bs.len() {
        render_block(bs[i as int]) + render_blocks_from(bs, i + 1)
    } else {
        Seq::empty()
    }
}

/// The menus `ms[i..]`, each rendered whole.
pub open spec fn render_menus_from(ms: Vec<KMenu>, i: int) -> Seq<char>
    decreases ms, ms.len() - i, 1int when 0 <= i
{
    if 0 <= i < ms.len() {
        render_menu(ms[i as int]) + render_menus_from(ms, i + 1)
    } else {
        Seq::empty()
    }
}

/// A whole `menu` group: the title line, its conditions and dependencies,
/// its `source` references, and its nested content, closed by `endmenu`.
pub open spec fn render_menu(m: KMenu) -> Seq<char>
    decreases m, 0int, 0int,
{
    "menu "@ + m.description@ + "\n"@ + render_deps("visible if"@, m.visible) + render_deps(
        "depends on"@,
        m.depends,
    ) + render_sources(m.configs) + render_comments(m.comments) + (match m.blocks {
        Some(bs) => render_blocks_from(bs, 0),
        None => Seq::empty(),
    }) + (match m.choices {
        Some(cs) => render_choices_from(cs@, 0),
        None => Seq::empty(),
    }) + (match m.menus {
        Some(ms) => render_menus_from(ms, 0),
        None => Seq::empty(),
    }) + (match m.options {
        Some(os) => render_options_from(os@, 0),
        None => Seq::empty(),
    }) + "endmenu\n"@
}

/// A whole configuration body: the `mainmenu` title when present, then
/// `source` references, blocks, choices, menus and options.
pub open spec fn render_config(c: KConfig) -> Seq<char>
    decreases c, 0int, 0int,
{
    (match c.mainmenu {
        Some(p) => "mainmenu "@ + render_prompt(p) + "\n"@,
        None => Seq::empty(),
    }) + render_sources(c.configs) + render_comments(c.comments) + (match c.blocks {
        Some(bs) => render_blocks_from(bs, 0),
        None => Seq::empty(),
    }) + (match c.choices {
        Some(cs) => render_choices_from(cs@, 0),
        None => Seq::empty(),
    }) + (match c.menus {
        Some(ms) => render_menus_from(ms, 0),
        None => Seq::empty(),
    }) + (match c.options {
        Some(os) => render_options_from(os@, 0),
        None => Seq::empty(),
    })
}

/// Append every choice of an optional list, rendered whole.
fn append_choices(out: &mut String, cs: &Option<Vec<KChoice>>)
    ensures
        final(out)@ == old(out)@ + (match *cs {
            Some(v) => render_choices_from(v@, 0),
            None => Seq::empty(),
        }),
{
    match cs {
        Some(v) => {
            let mut i: usize = 0;
            while i < v.len()
                invariant
                    0 <= i <= v@.len(),
                    out@ + render_choices_from(v@, i as int) =~= old(out)@ + render_choices_from(
                        v@,
                        0,
                    ),
                decreases v@.len() - i,
            {
                let c = v[i].display_kconfig();
                out.append(c.as_str());
                i = i + 1;
            }
        },
        None => {},
    }
}

/// Append every option of an optional list, rendered whole.
fn append_options_opt(out: &mut String, os: &Option<Vec<KOption>>)
    ensures
        final(out)@ == old(out)@ + (match *os {
            Some(v) => render_options_from(v@, 0),
            None => Seq::empty(),
        }),
{
    match os {
        Some(v) => {
            append_options(out, v);
        },
        None => {},
    }
}

impl Block {
    /// Emit this conditional block as canonical Kconfig text.
    pub fn display_kconfig(&self) -> (s: String)
        ensures
            s@ == render_block(*self),
        decreases *self, 0int, 0int,
    {
        let mut out = String::from_str("if ");
        out.append(self.condition.expression.val.as_str());
        out.append("\n");
        let body = self.config.display_kconfig();
        out.append(body.as_str());
        out.append("endif\n");
        proof {
            assert(out@ =~= render_block(*self));
        }
        out
    }
}

impl KConfig {
    /// Emit this configuration body as canonical Kconfig text (see
    /// `render_config`).
    pub fn display_kconfig(&self) -> (s: String)
        ensures
            s@ == render_config(*self),
        decreases *self, 1int, 1int,
    {
        let mut out = String::new();
        match &self.mainmenu {
            Some(p) => {
                out.append("mainmenu ");
                let t = p.display_kconfig();
                out.append(t.as_str());
                out.append("\n");
            },
            None => {},
        }
        append_sources(&mut out, &self.configs);
        append_comments(&mut out, &self.comments);
        if let Some(bs) = &self.blocks {
            let mut i: usize = 0;
            while i < bs.len()
                invariant
                    0 <= i <= bs@.len(),
                    self.blocks == Some(*bs),
                    out@ + render_blocks_from(*bs, i as int) =~= old_out_blocks(*self, out@, *bs, i as int),
                decreases bs@.len() - i,
            {
                proof {
                    assert(decreases_to!(*self => self.blocks));
                    assert(decreases_to!(self.blocks => self.blocks->0));
                    assert(decreases_to!(self.blocks->0 => (self.blocks->0)@));
                    assert(decreases_to!((self.blocks->0)@ => (self.blocks->0)@[i as int]));
                    assert(decreases_to!(*self => bs@[i as int]));
                }
                let b = bs[i].display_kconfig();
                out.append(b.as_str());
                i = i + 1;
            }
        }
        append_choices(&mut out, &self.choices);
        if let Some(ms) = &self.menus {
            let mut i: usize = 0;
            while i < ms.len()
                invariant
                    0 <= i <= ms@.len(),
                    self.menus == Some(*ms),
                    out@ + render_menus_from(*ms, i as int) =~= old_out_menus(*self, out@, *ms, i as int),
                decreases ms@.len() - i,
            {
                proof {
                    assert(decreases_to!(*self => self.menus));
                    assert(decreases_to!(self.menus => self.menus->0));
                    assert(decreases_to!(self.menus->0 => (self.menus->0)@));
                    assert(decreases_to!((self.menus->0)@ => (self.menus->0)@[i as int]));
                    assert(decreases_to!(*self => ms@[i as int]));
                }
                let m = ms[i].display_kconfig();
                out.append(m.as_str());
                i = i + 1;
            }
        }
        append_options_opt(&mut out, &self.options);
        proof {
            assert(out@ =~= render_config(*self));
        }
        out
    }
}

/// The value `out` must hold while the block loop of a configuration body
/// runs: everything before the blocks, plus all blocks rendered so far.
pub open spec fn old_out_blocks(c: KConfig, cur: Seq<char>, bs: Vec<Block>, i: int) -> Seq<char> {
    (match c.mainmenu {
        Some(p) => "mainmenu "@ + render_prompt(p) + "\n"@,
        None => Seq::empty(),
    }) + render_sources(c.configs) + render_comments(c.comments) + render_blocks_from(bs, 0)
}

/// The value `out` must hold while the menu loop of a configuration body
/// runs: everything before the menus, plus all menus rendered so far.
pub open spec fn old_out_menus(c: KConfig, cur: Seq<char>, ms: Vec<KMenu>, i: int) -> Seq<char> {
    (match c.mainmenu {
        Some(p) => "mainmenu "@ + render_prompt(p) + "\n"@,
        None => Seq::empty(),
    }) + render_sources(c.configs) + render_comments(c.comments) + (match c.blocks {
        Some(bs) => render_blocks_from(bs, 0),
        None => Seq::empty(),
    }) + (match c.choices {
        Some(cs) => render_choices_from(cs@, 0),
        None => Seq::empty(),
    }) + render_menus_from(ms, 0)
}

} // verus!

verus! {

/// The value `out` must hold while the block loop of a menu runs:
/// everything before the blocks, plus all blocks rendered so far.
pub open spec fn menu_out_blocks(m: KMenu, bs: Vec<Block>) -> Seq<char> {
    "menu "@ + m.description@ + "\n"@ + render_deps("visible if"@, m.visible) + render_deps(
        "depends on"@,
        m.depends,
    ) + render_sources(m.configs) + render_comments(m.comments) + render_blocks_from(bs, 0)
}

/// The value `out` must hold while the menu loop of a menu runs:
/// everything before the sub-menus, plus all sub-menus rendered so far.
pub open spec fn menu_out_menus(m: KMenu, ms: Vec<KMenu>) -> Seq<char> {
    "menu "@ + m.description@ + "\n"@ + render_deps("visible if"@, m.visible) + render_deps(
        "depends on"@,
        m.depends,
    ) + render_sources(m.configs) + render_comments(m.comments) + (match m.blocks {
        Some(bs) => render_blocks_from(bs, 0),
        None => Seq::empty(),
    }) + (match m.choices {
        Some(cs) => render_choices_from(cs@, 0),
        None => Seq::empty(),
    }) + render_menus_from(ms, 0)
}

impl KMenu {
    /// Emit this menu as canonical Kconfig text (see `render_menu`).
    pub fn display_kconfig(&self) -> (s: String)
        ensures
            s@ == render_menu(*self),
        decreases *self, 1int, 1int,
    {
        let mut out = String::from_str("menu ");
        out.append(self.description.as_str());
        out.append("\n");
        append_deps(&mut out, "visible if", &self.visible);
        append_deps(&mut out, "depends on", &self.depends);
        append_sources(&mut out, &self.configs);
        append_comments(&mut out, &self.comments);
        if let Some(bs) = &self.blocks {
            let mut i: usize = 0;
            while i < bs.len()
                invariant
                    0 <= i <= bs@.len(),
                    self.blocks == Some(*bs),
                    out@ + render_blocks_from(*bs, i as int) =~= menu_out_blocks(*self, *bs),
                decreases bs@.len() - i,
            {
                proof {
                    assert(decreases_to!(*self => self.blocks));
                    assert(decreases_to!(self.blocks => self.blocks->0));
                    assert(decreases_to!(self.blocks->0 => (self.blocks->0)@));
                    assert(decreases_to!((self.blocks->0)@ => (self.blocks->0)@[i as int]));
                    assert(decreases_to!(*self => bs@[i as int]));
                }
                let b = bs[i].display_kconfig();
                out.append(b.as_str());
                i = i + 1;
            }
        }
        append_choices(&mut out, &self.choices);
        if let Some(ms) = &self.menus {
            let mut i: usize = 0;
            while i < ms.len()
                invariant
                    0 <= i <= ms@.len(),
                    self.menus == Some(*ms),
                    out@ + render_menus_from(*ms, i as int) =~= menu_out_menus(*self, *ms),
                decreases ms@.len() - i,
            {
                proof {
                    assert(decreases_to!(*self => self.menus));
                    assert(decreases_to!(self.menus => self.menus->0));
                    assert(decreases_to!(self.menus->0 => (self.menus->0)@));
                    assert(decreases_to!((self.menus->0)@ => (self.menus->0)@[i as int]));
                    assert(decreases_to!(*self => ms@[i as int]));
                }
                let m = ms[i].display_kconfig();
                out.append(m.as_str());
                i = i + 1;
            }
        }
        append_options_opt(&mut out, &self.options);
        out.append("endmenu\n");
        proof {
            assert(out@ =~= render_menu(*self));
        }
        out
    }
}

} // verus!
