//! Small verified building blocks for assembling log lines: decimal
//! rendering, left-padding, quoting with escapes, prefix tests and
//! comma-joining, each pinned to a spec-level sequence of characters.

use vstd::prelude::*;
use vstd::string::StrSliceExecFns;
use vstd::string::StringExecFns;

verus! {

/// The character for one decimal digit value.
pub open spec fn digit_char(d: nat) -> char {
    if d == 0 {
        '0'
    } else if d == 1 {
        '1'
    } else if d == 2 {
        '2'
    } else if d == 3 {
        '3'
    } else if d == 4 {
        '4'
    } else if d == 5 {
        '5'
    } else if d == 6 {
        '6'
    } else if d == 7 {
        '7'
    } else if d == 8 {
        '8'
    } else {
        '9'
    }
}

/// The decimal digit string of `n`, most significant digit first,
/// without sign or leading zeros (a lone zero for `n == 0`).
pub open spec fn spec_decimal(n: nat) -> Seq<char>
    decreases n,
{
    if n < 10 {
        seq![digit_char(n)]
    } else {
        spec_decimal(n / 10) + seq![digit_char(n % 10)]
    }
}

fn digit_str(d: u64) -> (r: &'static str)
    requires
        d < 10,
    ensures
        r@ == seq![digit_char(d as nat)],
{
    proof {
        reveal_strlit("0");
        reveal_strlit("1");
        reveal_strlit("2");
        reveal_strlit("3");
        reveal_strlit("4");
        reveal_strlit("5");
        reveal_strlit("6");
        reveal_strlit("7");
        reveal_strlit("8");
        reveal_strlit("9");
    }
    let r: &'static str = if d == 0 {
        "0"
    } else if d == 1 {
        "1"
    } else if d == 2 {
        "2"
    } else if d == 3 {
        "3"
    } else if d == 4 {
        "4"
    } else if d == 5 {
        "5"
    } else if d == 6 {
        "6"
    } else if d == 7 {
        "7"
    } else {
        "8"
    };
    let r: &'static str = if d == 9 {
        "9"
    } else {
        r
    };
    proof {
        assert(r@ =~= seq![digit_char(d as nat)]);
    }
    r
}

/// Renders `n` in decimal, without padding.
pub fn u64_decimal(n: u64) -> (r: String)
    ensures
        r@ == spec_decimal(n as nat),
    decreases n,
{
    if n < 10 {
        let mut s = String::new();
        s.append(digit_str(n));
        proof {
            assert(s@ =~= spec_decimal(n as nat));
        }
        s
    } else {
        let mut s = u64_decimal(n / 10);
        s.append(digit_str(n % 10));
        proof {
            assert(s@ =~= spec_decimal(n as nat));
        }
        s
    }
}

/// `k` copies of the character `c`.
pub open spec fn spec_repeat(c: char, k: nat) -> Seq<char> {
    Seq::new(k, |i: int| c)
}

/// `s`, left-padded with `fill` up to `width` characters; `s` unchanged
/// when it is already that wide.
pub open spec fn spec_pad_left(s: Seq<char>, width: nat, fill: char) -> Seq<char> {
    if s.len() >= width {
        s
    } else {
        spec_repeat(fill, (width - s.len()) as nat) + s
    }
}

/// Left-pads `s` with the single-character string `fill` up to `width`.
pub fn pad_left(s: &str, width: usize, fill: &str) -> (r: String)
    requires
        fill@.len() == 1,
    ensures
        r@ == spec_pad_left(s@, width as nat, fill@[0]),
{
    let n = s.unicode_len();
    let mut out = String::new();
    if n < width {
        let mut j: usize = 0;
        while j < width - n
            invariant
                j <= width - n,
                n < width,
                n == s@.len(),
                fill@.len() == 1,
                out@ =~= spec_repeat(fill@[0], j as nat),
            decreases width - n - j,
        {
            out.append(fill);
            proof {
                assert(out@ =~= spec_repeat(fill@[0], (j + 1) as nat));
            }
            j = j + 1;
        }
    }
    out.append(s);
    proof {
        assert(out@ =~= spec_pad_left(s@, width as nat, fill@[0]));
    }
    out
}

/// The decimal digits of `n`, zero-padded on the left up to `width`.
pub open spec fn spec_zero_padded(n: nat, width: nat) -> Seq<char> {
    spec_pad_left(spec_decimal(n), width, '0')
}

/// Renders `n` in decimal, zero-padded on the left up to `width`.
pub fn u64_zero_padded(n: u64, width: usize) -> (r: String)
    ensures
        r@ == spec_zero_padded(n as nat, width as nat),
{
    proof {
        reveal_strlit("0");
    }
    let d = u64_decimal(n);
    pad_left(d.as_str(), width, "0")
}

/// The `", "` separator written between rendered tokens.
pub open spec fn comma_space() -> Seq<char> {
    seq![',', ' ']
}

/// How one character renders inside a quoted string: quotes and
/// backslashes get a backslash escape, all else passes through.
pub open spec fn escape_char(c: char) -> Seq<char> {
    if c == '"' {
        seq!['\\', '"']
    } else if c == '\\' {
        seq!['\\', '\\']
    } else {
        seq![c]
    }
}

/// `s` with every quote and backslash escaped.
pub open spec fn spec_escaped(s: Seq<char>) -> Seq<char>
    decreases s.len(),
{
    if s.len() == 0 {
        s
    } else {
        spec_escaped(s.drop_last()) + escape_char(s.last())
    }
}

/// `s` escaped and wrapped in double quotes.
pub open spec fn spec_quoted(s: Seq<char>) -> Seq<char> {
    seq!['"'] + spec_escaped(s) + seq!['"']
}

/// Quotes `s`: wraps it in double quotes and escapes any quote or
/// backslash inside it.
pub fn quote_string(s: &str) -> (r: String)
    ensures
        r@ == spec_quoted(s@),
{
    proof {
        reveal_strlit("\"");
        reveal_strlit("\\\"");
        reveal_strlit("\\\\");
    }
    let mut out = String::new();
    out.append("\"");
    let n = s.unicode_len();
    let mut i: usize = 0;
    while i < n
        invariant
            i <= n,
            n == s@.len(),
            out@ =~= seq!['"'] + spec_escaped(s@.take(i as int)),
        decreases n - i,
    {
        proof {
            reveal_strlit("\\\"");
            reveal_strlit("\\\\");
        }
        let c = s.get_char(i);
        if c == '"' {
            out.append("\\\"");
        } else if c == '\\' {
            out.append("\\\\");
        } else {
            let piece = s.substring_char(i, i + 1);
            proof {
                assert(piece@ =~= seq![s@[i as int]]);
            }
            out.append(piece);
        }
        proof {
            assert(s@.take(i + 1).drop_last() =~= s@.take(i as int));
            assert(s@.take(i + 1).last() == s@[i as int]);
            assert(out@ =~= seq!['"'] + spec_escaped(s@.take(i + 1)));
        }
        i = i + 1;
    }
    out.append("\"");
    proof {
        assert(s@.take(n as int) =~= s@);
        assert(out@ =~= spec_quoted(s@));
    }
    out
}

/// Whether `p` is a prefix of `s`.
pub open spec fn spec_starts_with(s: Seq<char>, p: Seq<char>) -> bool {
    p.len() <= s.len() && s.take(p.len() as int) =~= p
}

/// Tests whether `s` starts with `p`, character for character.
pub fn str_starts_with(s: &str, p: &str) -> (r: bool)
    ensures
        r == spec_starts_with(s@, p@),
{
    let sn = s.unicode_len();
    let pn = p.unicode_len();
    if pn > sn {
        return false;
    }
    let mut i: usize = 0;
    while i < pn
        invariant
            i <= pn <= sn,
            sn == s@.len(),
            pn == p@.len(),
            forall|k: int| 0 <= k < i ==> s@[k] == p@[k],
        decreases pn - i,
    {
        if s.get_char(i) != p.get_char(i) {
            return false;
        }
        i = i + 1;
    }
    proof {
        assert(s@.take(pn as int) =~= p@);
    }
    true
}

/// Tests whether `a` and `b` hold the same characters.
pub fn str_eq_chars(a: &str, b: &str) -> (r: bool)
    ensures
        r == (a@ == b@),
{
    let an = a.unicode_len();
    let bn = b.unicode_len();
    if an != bn {
        return false;
    }
    let mut i: usize = 0;
    while i < an
        invariant
            i <= an,
            an == a@.len(),
            an == b@.len(),
            forall|k: int| 0 <= k < i ==> a@[k] == b@[k],
        decreases an - i,
    {
        if a.get_char(i) != b.get_char(i) {
            return false;
        }
        i = i + 1;
    }
    proof {
        assert(a@ =~= b@);
    }
    true
}

/// The parts joined with the separator between consecutive parts: empty
/// for no parts, and otherwise `p0 sep p1 sep ... pk`.
pub open spec fn spec_joined(parts: Seq<Seq<char>>, sep: Seq<char>) -> Seq<char>
    decreases parts.len(),
{
    if parts.len() == 0 {
        Seq::empty()
    } else if parts.len() == 1 {
        parts[0]
    } else {
        spec_joined(parts.drop_last(), sep) + sep + parts.last()
    }
}

/// Whether `s` holds no line terminator.
pub open spec fn line_break_free(s: Seq<char>) -> bool {
    forall|k: int| 0 <= k < s.len() ==> s[k] != '\n'
}

/// Concatenating terminator-free texts stays terminator-free.
pub proof fn lemma_line_break_free_concat(a: Seq<char>, b: Seq<char>)
    requires
        line_break_free(a),
        line_break_free(b),
    ensures
        line_break_free(a + b),
{
    assert forall|k: int| 0 <= k < (a + b).len() implies (a + b)[k] != '\n' by {
        if k < a.len() {
            assert((a + b)[k] == a[k]);
        } else {
            assert((a + b)[k] == b[k - a.len()]);
        }
    }
}

/// A decimal digit string holds no line terminator.
pub proof fn lemma_decimal_line_break_free(n: nat)
    ensures
        line_break_free(spec_decimal(n)),
    decreases n,
{
    if n >= 10 {
        lemma_decimal_line_break_free(n / 10);
        assert(line_break_free(seq![digit_char(n % 10)]));
        lemma_line_break_free_concat(spec_decimal(n / 10), seq![digit_char(n % 10)]);
    }
}

/// Padding keeps a terminator-free text terminator-free when the fill
/// character is no terminator.
pub proof fn lemma_pad_left_line_break_free(s: Seq<char>, width: nat, fill: char)
    requires
        line_break_free(s),
        fill != '\n',
    ensures
        line_break_free(spec_pad_left(s, width, fill)),
{
    if s.len() < width {
        assert(line_break_free(spec_repeat(fill, (width - s.len()) as nat)));
        lemma_line_break_free_concat(spec_repeat(fill, (width - s.len()) as nat), s);
    }
}

/// A zero-padded decimal holds no line terminator.
pub proof fn lemma_zero_padded_line_break_free(n: nat, width: nat)
    ensures
        line_break_free(spec_zero_padded(n, width)),
{
    lemma_decimal_line_break_free(n);
    lemma_pad_left_line_break_free(spec_decimal(n), width, '0');
}

/// Escaping keeps a terminator-free text terminator-free.
pub proof fn lemma_escaped_line_break_free(s: Seq<char>)
    requires
        line_break_free(s),
    ensures
        line_break_free(spec_escaped(s)),
    decreases s.len(),
{
    if s.len() > 0 {
        lemma_escaped_line_break_free(s.drop_last());
        assert(s.last() != '\n');
        assert(line_break_free(escape_char(s.last())));
        lemma_line_break_free_concat(spec_escaped(s.drop_last()), escape_char(s.last()));
    }
}

/// Quoting keeps a terminator-free text terminator-free.
pub proof fn lemma_quoted_line_break_free(s: Seq<char>)
    requires
        line_break_free(s),
    ensures
        line_break_free(spec_quoted(s)),
{
    lemma_escaped_line_break_free(s);
    lemma_line_break_free_concat(seq!['"'], spec_escaped(s));
    lemma_line_break_free_concat(seq!['"'] + spec_escaped(s), seq!['"']);
}

/// Joining terminator-free parts with a terminator-free separator stays
/// terminator-free.
pub proof fn lemma_joined_line_break_free(parts: Seq<Seq<char>>, sep: Seq<char>)
    requires
        forall|i: int| 0 <= i < parts.len() ==> line_break_free(#[trigger] parts[i]),
        line_break_free(sep),
    ensures
        line_break_free(spec_joined(parts, sep)),
    decreases parts.len(),
{
    if parts.len() >= 2 {
        assert forall|i: int| 0 <= i < parts.drop_last().len() implies line_break_free(
            #[trigger] parts.drop_last()[i],
        ) by {
            assert(parts.drop_last()[i] == parts[i]);
        }
        lemma_joined_line_break_free(parts.drop_last(), sep);
        assert(line_break_free(parts.last()));
        lemma_line_break_free_concat(spec_joined(parts.drop_last(), sep), sep);
        lemma_line_break_free_concat(spec_joined(parts.drop_last(), sep) + sep, parts.last());
    }
}

/// Any suffix of a terminator-free text is terminator-free.
pub proof fn lemma_skip_line_break_free(s: Seq<char>, k: int)
    requires
        line_break_free(s),
        0 <= k <= s.len(),
    ensures
        line_break_free(s.skip(k)),
{
    assert forall|i: int| 0 <= i < s.skip(k).len() implies s.skip(k)[i] != '\n' by {
        assert(s.skip(k)[i] == s[i + k]);
    }
}

/// Joining one more part appends it, with the separator in front when
/// something came before.
pub proof fn lemma_joined_push(ts: Seq<Seq<char>>, t: Seq<char>, sep: Seq<char>)
    ensures
        spec_joined(ts.push(t), sep) == (if ts.len() == 0 {
            t
        } else {
            spec_joined(ts, sep) + sep + t
        }),
{
    let ts2 = ts.push(t);
    assert(ts2.drop_last() =~= ts);
    assert(ts2.last() == t);
    if ts.len() == 0 {
        assert(spec_joined(ts2, sep) == ts2[0]);
    }
}

/// Joining decomposes at the front as well: the first part, then the
/// separator and the joined rest.
pub proof fn lemma_joined_cons(ts: Seq<Seq<char>>, sep: Seq<char>)
    requires
        ts.len() >= 1,
    ensures
        spec_joined(ts, sep) == (if ts.len() == 1 {
            ts[0]
        } else {
            ts[0] + sep + spec_joined(ts.drop_first(), sep)
        }),
    decreases ts.len(),
{
    if ts.len() == 2 {
        assert(ts.drop_last() =~= seq![ts[0]]);
        assert(spec_joined(ts.drop_last(), sep) == ts.drop_last()[0]);
        assert(ts.drop_first() =~= seq![ts[1]]);
        assert(spec_joined(ts.drop_first(), sep) == ts.drop_first()[0]);
        assert(spec_joined(ts, sep) == spec_joined(ts.drop_last(), sep) + sep + ts.last());
        assert(spec_joined(ts, sep) =~= ts[0] + sep + spec_joined(ts.drop_first(), sep));
    } else if ts.len() > 2 {
        lemma_joined_cons(ts.drop_last(), sep);
        assert(ts.drop_last()[0] == ts[0]);
        assert(ts.drop_last().drop_first() =~= ts.drop_first().drop_last());
        assert(ts.drop_first().last() == ts.last());
        assert(spec_joined(ts.drop_first(), sep) == spec_joined(ts.drop_first().drop_last(), sep)
            + sep + ts.drop_first().last());
        assert(spec_joined(ts, sep) == spec_joined(ts.drop_last(), sep) + sep + ts.last());
        assert(spec_joined(ts, sep) =~= ts[0] + sep + spec_joined(ts.drop_first(), sep));
    }
}

/// Joins the parts with `", "` between consecutive parts.
pub fn join_comma(parts: &Vec<String>) -> (r: String)
    ensures
        r@ == spec_joined(parts.deep_view(), comma_space()),
{
    let mut out = String::new();
    let n = parts.len();
    let mut i: usize = 0;
    while i < n
        invariant
            i <= n,
            n == parts@.len(),
            out@ == spec_joined(parts.deep_view().take(i as int), comma_space()),
        decreases n - i,
    {
        proof {
            reveal_strlit(", ");
        }
        if i > 0 {
            out.append(", ");
        }
        let part: &String = &parts[i];
        out.append(part.as_str());
        proof {
            let dv = parts.deep_view();
            assert(dv.take(i as int + 1).drop_last() =~= dv.take(i as int));
            assert(dv.take(i as int + 1).last() == parts@[i as int]@);
            lemma_joined_push(dv.take(i as int), parts@[i as int]@, comma_space());
            assert(dv.take(i as int).push(parts@[i as int]@) =~= dv.take(i as int + 1));
            assert(", "@ =~= comma_space());
            assert(out@ =~= spec_joined(dv.take(i as int + 1), comma_space()));
        }
        i = i + 1;
    }
    proof {
        assert(parts.deep_view().take(n as int) =~= parts.deep_view());
    }
    out
}

} // verus!
