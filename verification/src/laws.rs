//! The library's stated laws: what type an option or choice resolves to,
//! when each soft diagnostic is recorded, and that re-parsing serialized
//! tokens recovers them. Each proof function is public: it is part of what
//! the library promises.
use vstd::prelude::*;
use crate::util::{dec_digit, dec_end, dec_val, hex_digit, hex_end, hex_val, lit_at, pow16,
    qstr_close, space_end, sym_char, sym_end, zeros_end};
use crate::token::OptionType;
use crate::diag::{one_if, spec_resolved_type, spec_resolved_choice_type, Diagnostic,
    DiagnosticKind};
use crate::koption::{option_diag, spec_option_diags, KOption};
use crate::kchoice::{choice_member_types, choice_members_differ, KChoice};

verus! {

/// Membership in a concatenation is membership in either part.
proof fn lemma_concat_contains(a: Seq<Diagnostic>, b: Seq<Diagnostic>, x: Diagnostic)
    ensures
        (a + b).contains(x) <==> a.contains(x) || b.contains(x),
{
    if (a + b).contains(x) {
        let i = choose|i: int| 0 <= i < (a + b).len() && (a + b)[i] == x;
        if i < a.len() {
            assert(a[i] == x);
        } else {
            assert(b[i - a.len()] == x);
        }
    }
    if a.contains(x) {
        let i = choose|i: int| 0 <= i < a.len() && a[i] == x;
        assert((a + b)[i] == x);
    }
    if b.contains(x) {
        let i = choose|i: int| 0 <= i < b.len() && b[i] == x;
        assert((a + b)[a.len() + i] == x);
    }
}

/// A conditional singleton contains exactly its element, exactly when its
/// condition holds.
proof fn lemma_one_if_contains(b: bool, d: Diagnostic, x: Diagnostic)
    ensures
        one_if(b, d).contains(x) <==> (b && x == d),
{
    if b {
        assert(one_if(b, d)[0] == d);
    }
}

/// When each diagnostic of an option is recorded: a missing type, a
/// duplicated type declaration, more than one prompt, a duplicated help
/// block, `def_bool`/`def_tristate` against a different explicit type, and
/// a range on a non-numeric option - each present in the list exactly when
/// its condition holds.
pub proof fn lemma_option_diag_contains(o: KOption, dup_type: bool, dup_help: bool, at: usize)
    ensures
        spec_option_diags(o, dup_type, dup_help, at).contains(
            option_diag(DiagnosticKind::MissingType, o, at),
        ) <==> o.type_is_missing(),
        spec_option_diags(o, dup_type, dup_help, at).contains(
            option_diag(DiagnosticKind::DuplicateType, o, at),
        ) <==> dup_type,
        spec_option_diags(o, dup_type, dup_help, at).contains(
            option_diag(DiagnosticKind::MultiplePrompts, o, at),
        ) <==> o.prompt_count() > 1,
        spec_option_diags(o, dup_type, dup_help, at).contains(
            option_diag(DiagnosticKind::DuplicateHelp, o, at),
        ) <==> dup_help,
        spec_option_diags(o, dup_type, dup_help, at).contains(
            option_diag(DiagnosticKind::DefBoolConflict, o, at),
        ) <==> o.def_bool_conflicts(),
        spec_option_diags(o, dup_type, dup_help, at).contains(
            option_diag(DiagnosticKind::DefTristateConflict, o, at),
        ) <==> o.def_tristate_conflicts(),
        spec_option_diags(o, dup_type, dup_help, at).contains(
            option_diag(DiagnosticKind::RangeWrongType, o, at),
        ) <==> o.range_type_mismatch(),
{
    let a1 = one_if(o.type_is_missing(), option_diag(DiagnosticKind::MissingType, o, at));
    let a2 = one_if(dup_type, option_diag(DiagnosticKind::DuplicateType, o, at));
    let a3 = one_if(o.prompt_count() > 1, option_diag(DiagnosticKind::MultiplePrompts, o, at));
    let a4 = one_if(dup_help, option_diag(DiagnosticKind::DuplicateHelp, o, at));
    let a5 = one_if(o.def_bool_conflicts(), option_diag(DiagnosticKind::DefBoolConflict, o, at));
    let a6 = one_if(
        o.def_tristate_conflicts(),
        option_diag(DiagnosticKind::DefTristateConflict, o, at),
    );
    let a7 = one_if(o.range_type_mismatch(), option_diag(DiagnosticKind::RangeWrongType, o, at));
    let b2 = a1 + a2;
    let b3 = b2 + a3;
    let b4 = b3 + a4;
    let b5 = b4 + a5;
    let b6 = b5 + a6;
    assert(spec_option_diags(o, dup_type, dup_help, at) == b6 + a7);
    assert forall|x: Diagnostic| true implies {
        &&& (b6 + a7).contains(x) <==> (a1.contains(x) || a2.contains(x) || a3.contains(x)
            || a4.contains(x) || a5.contains(x) || a6.contains(x) || a7.contains(x))
    } by {
        lemma_concat_contains(b6, a7, x);
        lemma_concat_contains(b5, a6, x);
        lemma_concat_contains(b4, a5, x);
        lemma_concat_contains(b3, a4, x);
        lemma_concat_contains(b2, a3, x);
        lemma_concat_contains(a1, a2, x);
    }
    lemma_one_if_contains(
        o.type_is_missing(),
        option_diag(DiagnosticKind::MissingType, o, at),
        option_diag(DiagnosticKind::MissingType, o, at),
    );
    lemma_one_if_contains(
        dup_type,
        option_diag(DiagnosticKind::DuplicateType, o, at),
        option_diag(DiagnosticKind::DuplicateType, o, at),
    );
    lemma_one_if_contains(
        o.prompt_count() > 1,
        option_diag(DiagnosticKind::MultiplePrompts, o, at),
        option_diag(DiagnosticKind::MultiplePrompts, o, at),
    );
    lemma_one_if_contains(
        dup_help,
        option_diag(DiagnosticKind::DuplicateHelp, o, at),
        option_diag(DiagnosticKind::DuplicateHelp, o, at),
    );
    lemma_one_if_contains(
        o.def_bool_conflicts(),
        option_diag(DiagnosticKind::DefBoolConflict, o, at),
        option_diag(DiagnosticKind::DefBoolConflict, o, at),
    );
    lemma_one_if_contains(
        o.def_tristate_conflicts(),
        option_diag(DiagnosticKind::DefTristateConflict, o, at),
        option_diag(DiagnosticKind::DefTristateConflict, o, at),
    );
    lemma_one_if_contains(
        o.range_type_mismatch(),
        option_diag(DiagnosticKind::RangeWrongType, o, at),
        option_diag(DiagnosticKind::RangeWrongType, o, at),
    );
    assert forall|k1: DiagnosticKind, k2: DiagnosticKind|
        k1 != k2 implies option_diag(k1, o, at) != option_diag(k2, o, at) by {}
}

/// Type inference: with no explicit type, `def_bool` entries resolve an
/// option to `bool` and `def_tristate` entries to `tristate`; with no type
/// evidence at all it resolves to `int`, and the missing type is recorded
/// as a diagnostic - and only then.
pub proof fn lemma_type_inference(o: KOption, dup_type: bool, dup_help: bool, at: usize)
    requires
        o.option_type == spec_resolved_type(
            o.declared_type,
            o.def_bool is Some,
            o.def_tristate is Some,
        ),
    ensures
        o.declared_type is None && o.def_bool is Some ==> o.option_type == OptionType::Bool,
        o.declared_type is None && o.def_bool is None && o.def_tristate is Some ==> o.option_type
            == OptionType::Tristate,
        o.type_is_missing() ==> o.option_type == OptionType::Int,
        spec_option_diags(o, dup_type, dup_help, at).contains(
            option_diag(DiagnosticKind::MissingType, o, at),
        ) <==> o.type_is_missing(),
{
    lemma_option_diag_contains(o, dup_type, dup_help, at);
}

/// Range type agreement: a range list on an option resolved to anything but
/// `int` or `hex` is kept in the tree, and the mismatch is recorded as a
/// diagnostic - and only then.
pub proof fn lemma_range_type_mismatch(o: KOption, dup_type: bool, dup_help: bool, at: usize)
    ensures
        spec_option_diags(o, dup_type, dup_help, at).contains(
            option_diag(DiagnosticKind::RangeWrongType, o, at),
        ) <==> (o.ranges is Some && o.option_type != OptionType::Int && o.option_type
            != OptionType::Hex),
{
    lemma_option_diag_contains(o, dup_type, dup_help, at);
}

/// Choice type agreement: a choice without an explicit type resolves to the
/// type of the last member processed, and when any two members disagree on
/// their type, the disagreement shows against the resolved type.
pub proof fn lemma_choice_type_agreement(c: KChoice)
    requires
        c.option_type == spec_resolved_choice_type(c.declared_type, choice_member_types(c)),
        c.declared_type is None,
        c.options@.len() > 0,
    ensures
        c.option_type == c.options@.last().option_type,
        (exists|i: int, j: int|
            0 <= i < c.options@.len() && 0 <= j < c.options@.len() && c.options@[i].option_type
                != c.options@[j].option_type) ==> choice_members_differ(c),
{
    assert(choice_member_types(c).last() == c.options@.last().option_type);
    if exists|i: int, j: int|
        0 <= i < c.options@.len() && 0 <= j < c.options@.len() && c.options@[i].option_type
            != c.options@[j].option_type {
        let (i, j) = choose|i: int, j: int|
            0 <= i < c.options@.len() && 0 <= j < c.options@.len() && c.options@[i].option_type
                != c.options@[j].option_type;
        if c.options@[i].option_type != c.option_type {
            assert(choice_members_differ(c));
        } else {
            assert(c.options@[j].option_type != c.option_type);
            assert(choice_members_differ(c));
        }
    }
}

} // verus!

verus! {

/// When a run of symbol characters ends at `end` and a non-symbol
/// character (or the end of input) follows, the scan stops exactly there.
proof fn lemma_sym_end_of_run(s: Seq<char>, i: int, end: int)
    requires
        0 <= i <= end <= s.len(),
        forall|k: int| i <= k < end ==> sym_char(s[k]),
        end == s.len() || !sym_char(s[end]),
    ensures
        sym_end(s, i) == end,
    decreases end - i,
{
    if i < end {
        lemma_sym_end_of_run(s, i + 1, end);
    }
}

/// The same, for decimal digit runs.
proof fn lemma_dec_end_of_run(s: Seq<char>, i: int, end: int)
    requires
        0 <= i <= end <= s.len(),
        forall|k: int| i <= k < end ==> dec_digit(s[k]),
        end == s.len() || !dec_digit(s[end]),
    ensures
        dec_end(s, i) == end,
    decreases end - i,
{
    if i < end {
        lemma_dec_end_of_run(s, i + 1, end);
    }
}

/// The same, for hexadecimal digit runs.
proof fn lemma_hex_end_of_run(s: Seq<char>, i: int, end: int)
    requires
        0 <= i <= end <= s.len(),
        forall|k: int| i <= k < end ==> hex_digit(s[k]),
        end == s.len() || !hex_digit(s[end]),
    ensures
        hex_end(s, i) == end,
    decreases end - i,
{
    if i < end {
        lemma_hex_end_of_run(s, i + 1, end);
    }
}

/// Skipping zeros never moves backwards.
proof fn lemma_zeros_end_ge(s: Seq<char>, i: int)
    requires
        0 <= i <= s.len(),
    ensures
        i <= zeros_end(s, i) <= s.len(),
    decreases s.len() - i,
{
    if i < s.len() && s[i] == '0' {
        lemma_zeros_end_ge(s, i + 1);
    }
}

/// A decimal digit's character carries its value.
proof fn lemma_digit_char_props(d: nat)
    requires
        d < 10,
    ensures
        dec_digit(crate::display::digit_char(d)),
        crate::util::dec_digit_val(crate::display::digit_char(d)) == d,
{
}

/// A hexadecimal digit's character carries its value.
proof fn lemma_hex_digit_char_props(d: nat)
    requires
        d < 16,
    ensures
        hex_digit(crate::display::hex_digit_char(d)),
        crate::util::hex_digit_val(crate::display::hex_digit_char(d)) == d,
{
}

/// Every character of a rendered decimal number is a decimal digit.
proof fn lemma_dec_digits_are_digits(n: nat)
    ensures
        forall|i: int|
            0 <= i < crate::display::dec_digits(n).len() ==> dec_digit(
                #[trigger] crate::display::dec_digits(n)[i],
            ),
    decreases n,
{
    if n < 10 {
        lemma_digit_char_props(n);
    } else {
        lemma_dec_digits_are_digits(n / 10);
        lemma_digit_char_props(n % 10);
        let p = crate::display::dec_digits(n / 10);
        assert forall|i: int|
            0 <= i < crate::display::dec_digits(n).len() implies dec_digit(
            crate::display::dec_digits(n)[i],
        ) by {
            if i < p.len() {
                assert(crate::display::dec_digits(n)[i] == p[i]);
            }
        }
    }
}

/// Every character of a rendered hexadecimal number is a hexadecimal digit.
proof fn lemma_hex_digits_are_digits(n: nat)
    ensures
        forall|i: int|
            0 <= i < crate::display::hex_digits(n).len() ==> hex_digit(
                #[trigger] crate::display::hex_digits(n)[i],
            ),
    decreases n,
{
    if n < 16 {
        lemma_hex_digit_char_props(n);
    } else {
        lemma_hex_digits_are_digits(n / 16);
        lemma_hex_digit_char_props(n % 16);
        let p = crate::display::hex_digits(n / 16);
        assert forall|i: int|
            0 <= i < crate::display::hex_digits(n).len() implies hex_digit(
            crate::display::hex_digits(n)[i],
        ) by {
            if i < p.len() {
                assert(crate::display::hex_digits(n)[i] == p[i]);
            }
        }
    }
}

/// The value of a digit run depends only on its characters.
proof fn lemma_dec_val_congruent(s: Seq<char>, t: Seq<char>, si: int, ti: int, len: int)
    requires
        0 <= si,
        0 <= ti,
        0 <= len,
        si + len <= s.len(),
        ti + len <= t.len(),
        forall|k: int| 0 <= k < len ==> #[trigger] s[si + k] == t[ti + k],
    ensures
        dec_val(s, si, si + len) == dec_val(t, ti, ti + len),
    decreases len,
{
    if len > 0 {
        lemma_dec_val_congruent(s, t, si, ti, len - 1);
        assert(s[si + (len - 1)] == t[ti + (len - 1)]);
    }
}

/// The value of a hexadecimal run depends only on its characters.
proof fn lemma_hex_val_congruent(s: Seq<char>, t: Seq<char>, si: int, ti: int, len: int)
    requires
        0 <= si,
        0 <= ti,
        0 <= len,
        si + len <= s.len(),
        ti + len <= t.len(),
        forall|k: int| 0 <= k < len ==> #[trigger] s[si + k] == t[ti + k],
    ensures
        hex_val(s, si, si + len) == hex_val(t, ti, ti + len),
    decreases len,
{
    if len > 0 {
        lemma_hex_val_congruent(s, t, si, ti, len - 1);
        assert(s[si + (len - 1)] == t[ti + (len - 1)]);
    }
}

/// Reading back the rendered decimal digits of `n` yields `n`.
proof fn lemma_dec_digits_val(n: nat)
    ensures
        dec_val(
            crate::display::dec_digits(n),
            0,
            crate::display::dec_digits(n).len() as int,
        ) == n,
    decreases n,
{
    let s = crate::display::dec_digits(n);
    if n < 10 {
        lemma_digit_char_props(n);
        assert(dec_val(s, 0, 1) == dec_val(s, 0, 0) * 10 + crate::util::dec_digit_val(s[0]));
    } else {
        lemma_dec_digits_val(n / 10);
        lemma_digit_char_props(n % 10);
        let p = crate::display::dec_digits(n / 10);
        lemma_dec_val_congruent(s, p, 0, 0, p.len() as int);
        assert(dec_val(s, 0, s.len() as int) == dec_val(s, 0, s.len() - 1) * 10
            + crate::util::dec_digit_val(s[s.len() - 1]));
    }
}

/// Reading back the rendered hexadecimal digits of `n` yields `n`.
proof fn lemma_hex_digits_val(n: nat)
    ensures
        hex_val(
            crate::display::hex_digits(n),
            0,
            crate::display::hex_digits(n).len() as int,
        ) == n,
    decreases n,
{
    let s = crate::display::hex_digits(n);
    if n < 16 {
        lemma_hex_digit_char_props(n);
        assert(hex_val(s, 0, 1) == hex_val(s, 0, 0) * 16 + crate::util::hex_digit_val(s[0]));
    } else {
        lemma_hex_digits_val(n / 16);
        lemma_hex_digit_char_props(n % 16);
        let p = crate::display::hex_digits(n / 16);
        lemma_hex_val_congruent(s, p, 0, 0, p.len() as int);
        assert(hex_val(s, 0, s.len() as int) == hex_val(s, 0, s.len() - 1) * 16
            + crate::util::hex_digit_val(s[s.len() - 1]));
    }
}

/// A value below `16^k` renders to at most `k` hexadecimal digits.
proof fn lemma_hex_digits_len(n: nat, k: nat)
    requires
        k >= 1,
        n < pow16(k),
    ensures
        crate::display::hex_digits(n).len() <= k,
    decreases k,
{
    if n < 16 {
    } else {
        assert(pow16(k) == 16 * pow16((k - 1) as nat));
        assert(n / 16 < pow16((k - 1) as nat)) by (nonlinear_arith)
            requires
                n < 16 * pow16((k - 1) as nat),
        ;
        assert(k >= 2) by {
            if k == 1 {
                assert(pow16(1) == 16);
            }
        }
        lemma_hex_digits_len(n / 16, (k - 1) as nat);
    }
}

/// Round trip of symbols: a rendered symbol name, followed by anything that
/// does not begin with a symbol character, scans back to exactly that name.
/// With `Symbol::parse`'s contract this pins `parse(serialize(sym))` to
/// return `sym` itself.
pub proof fn lemma_symbol_round_trip(name: Seq<char>, rest: Seq<char>)
    requires
        name.len() > 0,
        forall|i: int| 0 <= i < name.len() ==> sym_char(name[i]),
        rest.len() == 0 || !sym_char(rest[0]),
    ensures
        sym_end(name + rest, 0) == name.len(),
        (name + rest).subrange(0, name.len() as int) == name,
{
    let s = name + rest;
    assert forall|k: int| 0 <= k < name.len() implies sym_char(s[k]) by {
        assert(s[k] == name[k]);
    }
    lemma_sym_end_of_run(s, 0, name.len() as int);
    assert(s.subrange(0, name.len() as int) =~= name);
}

/// Round trip of hexadecimal literals: the rendering of any 128-bit value,
/// followed by anything that does not begin with a hexadecimal digit,
/// parses back to the same value. The clauses mirror `Hex::parse`'s
/// contract: the `0x` prefix is found, the digit run is located, it stays
/// within thirty-two significant digits, and its value is the original.
pub proof fn lemma_hex_round_trip(v: u128, rest: Seq<char>)
    requires
        rest.len() == 0 || !hex_digit(rest[0]),
    ensures
        ({
            let s = crate::display::render_hex(v as nat) + rest;
            let dlen = crate::display::hex_digits(v as nat).len() as int;
            &&& lit_at(s, 0, "0x"@)
            &&& hex_end(s, 2) == 2 + dlen
            &&& 2 + dlen <= s.len()
            &&& hex_end(s, 2) - zeros_end(s, 2) <= 32
            &&& hex_val(s, 2, hex_end(s, 2)) == v
        }),
{
    reveal_strlit("0x");
    let d = crate::display::hex_digits(v as nat);
    let s = crate::display::render_hex(v as nat) + rest;
    assert(s.subrange(0, 2) =~= "0x"@);
    lemma_hex_digits_are_digits(v as nat);
    assert forall|k: int| 2 <= k < 2 + d.len() implies hex_digit(s[k]) by {
        assert(s[k] == d[k - 2]);
    }
    lemma_hex_end_of_run(s, 2, 2 + d.len() as int);
    lemma_zeros_end_ge(s, 2);
    crate::token::lemma_pow16_32();
    lemma_hex_digits_len(v as nat, 32);
    lemma_hex_digits_val(v as nat);
    lemma_hex_val_congruent(s, d, 2, 0, d.len() as int);
}

/// Round trip of decimal literals: the rendering of any 128-bit signed
/// value, followed by anything that does not begin with a digit, parses
/// back to the same value. The clauses mirror `Int::parse`'s contract for
/// the unsigned and the negated form.
pub proof fn lemma_int_round_trip(v: i128, rest: Seq<char>)
    requires
        rest.len() == 0 || !dec_digit(rest[0]),
    ensures
        ({
            let s = crate::display::render_int(v as int) + rest;
            if v >= 0 {
                &&& s.len() > 0
                &&& s[0] != '-'
                &&& dec_end(s, 0) == crate::display::dec_digits(v as nat).len()
                &&& dec_end(s, 0) > 0
                &&& dec_val(s, 0, dec_end(s, 0)) == v
            } else {
                &&& s.len() > 1
                &&& s[0] == '-'
                &&& dec_end(s, 1) == 1 + crate::display::dec_digits((-(v as int)) as nat).len()
                &&& dec_val(s, 1, dec_end(s, 1)) == -(v as int)
            }
        }),
{
    reveal_strlit("-");
    if v >= 0 {
        let d = crate::display::dec_digits(v as nat);
        let s = crate::display::render_int(v as int) + rest;
        lemma_dec_digits_are_digits(v as nat);
        assert forall|k: int| 0 <= k < d.len() implies dec_digit(s[k]) by {
            assert(s[k] == d[k]);
        }
        lemma_dec_end_of_run(s, 0, d.len() as int);
        lemma_dec_digits_val(v as nat);
        lemma_dec_val_congruent(s, d, 0, 0, d.len() as int);
        assert(dec_digit(s[0]));
    } else {
        let m = (-(v as int)) as nat;
        let d = crate::display::dec_digits(m);
        let s = crate::display::render_int(v as int) + rest;
        assert(s[0] == ("-"@ + d)[0]);
        lemma_dec_digits_are_digits(m);
        assert forall|k: int| 1 <= k < 1 + d.len() implies dec_digit(s[k]) by {
            assert(s[k] == ("-"@ + d)[k]);
            assert(("-"@ + d)[k] == d[k - 1]);
        }
        assert(!dec_digit('-'));
        lemma_dec_end_of_run(s, 1, 1 + d.len() as int);
        lemma_dec_digits_val(m);
        lemma_dec_val_congruent(s, d, 1, 0, d.len() as int);
    }
}

} // verus!

verus! {

/// Well-formed string-literal content for quote character `q`: every
/// occurrence of `q` is immediately preceded by a backslash, and the
/// content does not end in a bare backslash. Every content the parser
/// accepts has this shape: its scan consumes an unescaped quote only as
/// the closing delimiter.
pub open spec fn qcontent_wf(c: Seq<char>, q: char) -> bool {
    &&& q != '\\'
    &&& (forall|j: int| 0 <= j < c.len() && #[trigger] c[j] == q ==> j > 0 && c[j - 1] == '\\')
    &&& (c.len() == 0 || c[c.len() - 1] != '\\')
}

/// The quote scan over serialized well-formed content always reaches the
/// closing delimiter, never stopping inside the content and never skipping
/// past its end.
proof fn lemma_qstr_scan(s: Seq<char>, q: char, c: Seq<char>, i: int)
    requires
        qcontent_wf(c, q),
        c.len() + 2 <= s.len(),
        forall|k: int| 0 <= k < c.len() ==> s[1 + k] == c[k],
        s[c.len() + 1 as int] == q,
        1 <= i <= c.len() + 1,
        i == c.len() + 1 || s[i] != q,
    ensures
        qstr_close(s, q, i) == Some(c.len() + 1 as int),
    decreases c.len() + 1 - i,
{
    let close = c.len() + 1 as int;
    if i == close {
    } else {
        assert(s[i] == c[i - 1]);
        if s[i] == '\\' && i + 1 < s.len() && s[i + 1] == q {
            // an escaped quote: both characters belong to the content
            assert(i + 1 < close) by {
                if i + 1 == close {
                    // the content would end in a bare backslash
                    assert(c[c.len() - 1] == '\\');
                }
            }
            assert(i + 2 == close || s[i + 2] != q) by {
                if i + 2 < close && s[i + 2] == q {
                    // the quote at i+2 would demand a backslash at i+1
                    assert(c[i + 1] == q);
                    assert(c[i] == '\\');
                }
            }
            lemma_qstr_scan(s, q, c, i + 2);
        } else {
            assert(i + 1 == close || s[i + 1] != q) by {
                if i + 1 < close && s[i + 1] == q {
                    // the quote at i+1 demands a backslash at i, which the
                    // scanner would have consumed as an escape pair
                    assert(c[i] == q);
                    assert(c[i - 1] == '\\');
                    assert(s[i] == '\\');
                }
            }
            lemma_qstr_scan(s, q, c, i + 1);
        }
    }
}

/// Round trip of quoted string literals: rendering a literal with
/// well-formed content, followed by anything at all, scans back to exactly
/// the same content between the same delimiters. With
/// `ConstantSymbol::parse`'s contract this pins `parse(serialize(lit))` to
/// return `lit` itself.
pub proof fn lemma_constsym_round_trip(c: crate::token::ConstantSymbol, rest: Seq<char>)
    requires
        qcontent_wf(c.content_view(), c.quote_char()),
    ensures
        ({
            let s = crate::display::render_constsym(c) + rest;
            let clen = c.content_view().len() as int;
            &&& s.len() >= clen + 2
            &&& space_end(s, 0) == 0
            &&& s[0] == c.quote_char()
            &&& qstr_close(s, c.quote_char(), 1) == Some(clen + 1)
            &&& s.subrange(1, clen + 1) == c.content_view()
        }),
{
    reveal_strlit("'");
    reveal_strlit("\"");
    let q = c.quote_char();
    let content = c.content_view();
    let s = crate::display::render_constsym(c) + rest;
    let clen = content.len() as int;
    assert(s[0] == q);
    assert(s[clen + 1] == q);
    assert forall|k: int| 0 <= k < clen implies s[1 + k] == content[k] by {}
    if clen > 0 {
        assert(s[1] == content[0]);
        if s[1] == q {
            assert(content[0] == q);
        }
    }
    lemma_qstr_scan(s, q, content, 1);
    assert(s.subrange(1, clen + 1) =~= content);
    assert(!crate::util::space_char(q));
}

} // verus!

verus! {

/// A successful quote scan stops at a quote character, inside the input.
proof fn lemma_qstr_close_at_quote(s: Seq<char>, q: char, i: int, close: int)
    requires
        0 <= i <= s.len(),
        qstr_close(s, q, i) == Some(close),
    ensures
        i <= close < s.len(),
        s[close] == q,
    decreases s.len() - i,
{
    if i < s.len() && s[i] == q {
    } else if i < s.len() && s[i] == '\\' && i + 1 < s.len() && s[i + 1] == q {
        lemma_qstr_close_at_quote(s, q, i + 2, close);
    } else if i < s.len() {
        lemma_qstr_close_at_quote(s, q, i + 1, close);
    }
}

/// Along a successful quote scan, every quote character before the close
/// is the second half of an escape pair, and the character just before the
/// close is no bare backslash.
proof fn lemma_qstr_scan_escapes(s: Seq<char>, q: char, i: int, close: int)
    requires
        q != '\\',
        0 <= i <= s.len(),
        qstr_close(s, q, i) == Some(close),
    ensures
        forall|j: int| i <= j < close && #[trigger] s[j] == q ==> j > i && s[j - 1] == '\\',
        close == i || s[close - 1] != '\\',
    decreases s.len() - i,
{
    lemma_qstr_close_at_quote(s, q, i, close);
    if s[i] == q {
        // the scan closed immediately: the content range is empty
    } else if s[i] == '\\' && i + 1 < s.len() && s[i + 1] == q {
        lemma_qstr_scan_escapes(s, q, i + 2, close);
        assert forall|j: int| i <= j < close && #[trigger] s[j] == q implies j > i && s[j - 1]
            == '\\' by {
            if j == i + 1 {
                assert(s[i] == '\\');
            }
        }
    } else {
        lemma_qstr_scan_escapes(s, q, i + 1, close);
    }
}

/// The content a successful quote scan accepts is well formed, so every
/// parsed literal satisfies the premise of `lemma_constsym_round_trip`.
pub proof fn lemma_parsed_qcontent_wf(s: Seq<char>, q: char, i: int, close: int)
    requires
        q == '\'' || q == '"',
        0 <= i <= s.len(),
        qstr_close(s, q, i) == Some(close),
    ensures
        i <= close < s.len(),
        qcontent_wf(s.subrange(i, close), q),
{
    lemma_qstr_close_at_quote(s, q, i, close);
    lemma_qstr_scan_escapes(s, q, i, close);
    let c = s.subrange(i, close);
    assert forall|j: int| 0 <= j < c.len() && #[trigger] c[j] == q implies j > 0 && c[j - 1]
        == '\\' by {
        assert(s[i + j] == c[j]);
        assert(i + j > i && s[i + j - 1] == '\\');
    }
    if c.len() > 0 {
        assert(c[c.len() - 1] == s[close - 1]);
    }
}

} // verus!

verus! {

/// Round trip of type keywords: the rendering of any option type, followed
/// by anything at all, is recognized as exactly that type again. With
/// `OptionType::parse`'s contract this pins `parse(serialize(t))` to
/// return `t` itself.
pub proof fn lemma_opttype_round_trip(t: OptionType, rest: Seq<char>)
    ensures
        ({
            let s = crate::display::render_opttype(t) + rest;
            crate::token::opttype_at(s, 0) == Some(
                (t, crate::display::render_opttype(t).len() as int),
            )
        }),
{
    reveal_strlit("tristate");
    reveal_strlit("bool");
    reveal_strlit("hex");
    reveal_strlit("int");
    reveal_strlit("string");
    let kw = crate::display::render_opttype(t);
    let s = kw + rest;
    assert(s.subrange(0, kw.len() as int) =~= kw);
    match t {
        OptionType::Tristate => {
        },
        OptionType::Bool => {
            assert(!lit_at(s, 0, "tristate"@)) by {
                if lit_at(s, 0, "tristate"@) {
                    assert(s.subrange(0, 8)[0] == 't');
                }
            }
        },
        OptionType::Hex => {
            assert(!lit_at(s, 0, "tristate"@)) by {
                if lit_at(s, 0, "tristate"@) {
                    assert(s.subrange(0, 8)[0] == 't');
                }
            }
            assert(!lit_at(s, 0, "bool"@)) by {
                if lit_at(s, 0, "bool"@) {
                    assert(s.subrange(0, 4)[0] == 'b');
                }
            }
        },
        OptionType::Int => {
            assert(!lit_at(s, 0, "tristate"@)) by {
                if lit_at(s, 0, "tristate"@) {
                    assert(s.subrange(0, 8)[0] == 't');
                }
            }
            assert(!lit_at(s, 0, "bool"@)) by {
                if lit_at(s, 0, "bool"@) {
                    assert(s.subrange(0, 4)[0] == 'b');
                }
            }
            assert(!lit_at(s, 0, "hex"@)) by {
                if lit_at(s, 0, "hex"@) {
                    assert(s.subrange(0, 3)[0] == 'h');
                }
            }
        },
        OptionType::Str => {
            assert(!lit_at(s, 0, "tristate"@)) by {
                if lit_at(s, 0, "tristate"@) {
                    assert(s.subrange(0, 8)[1] == 'r');
                }
            }
            assert(!lit_at(s, 0, "bool"@)) by {
                if lit_at(s, 0, "bool"@) {
                    assert(s.subrange(0, 4)[0] == 'b');
                }
            }
            assert(!lit_at(s, 0, "hex"@)) by {
                if lit_at(s, 0, "hex"@) {
                    assert(s.subrange(0, 3)[0] == 'h');
                }
            }
            assert(!lit_at(s, 0, "int"@)) by {
                if lit_at(s, 0, "int"@) {
                    assert(s.subrange(0, 3)[0] == 'i');
                }
            }
        },
    }
}

} // verus!
