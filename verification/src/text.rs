//! Canonical textual forms: decimal rendering of fixed-point numbers,
//! rendering of values, lexicographic order on texts, sorted duplicate-free
//! listings, and comma-joined composition. These give the Overconstrained
//! error message its exact shape.

use vstd::prelude::*;
use vstd::string::StrSliceExecFns;
use vstd::string::StringExecFns;

use crate::value::Value;

verus! {

/// The decimal digit character for `d` (0 to 9).
pub open spec fn digit_char(d: int) -> char {
    if d == 0 {
        '0'
    } else if d == 1 {
        '1'
    } else if d == 2 {
        '2'
    } else if d == 3 {
        '3'
    } else if d == 4 {
        '4'
    } else if d == 5 {
        '5'
    } else if d == 6 {
        '6'
    } else if d == 7 {
        '7'
    } else if d == 8 {
        '8'
    } else {
        '9'
    }
}

/// The decimal digits of a non-negative integer, most significant first.
pub open spec fn dec_str(n: int) -> Seq<char>
    decreases n,
{
    if n < 10 {
        seq![digit_char(n)]
    } else {
        dec_str(n / 10).push(digit_char(n % 10))
    }
}

/// The last `w` decimal digits of `n`, zero-padded to exactly `w` characters.
pub open spec fn padded_str(n: int, w: int) -> Seq<char>
    decreases w,
{
    if w <= 0 {
        Seq::empty()
    } else {
        padded_str(n / 10, w - 1).push(digit_char(n % 10))
    }
}

pub proof fn lemma_padded_str_len(n: int, w: int)
    requires
        w >= 0,
    ensures
        padded_str(n, w).len() == w,
    decreases w,
{
    if w > 0 {
        lemma_padded_str_len(n / 10, w - 1);
    }
}

/// `s` with its trailing `'0'` characters removed.
pub open spec fn strip_zeros(s: Seq<char>) -> Seq<char>
    decreases s.len(),
{
    if s.len() == 0 {
        s
    } else if s.last() == '0' {
        strip_zeros(s.drop_last())
    } else {
        s
    }
}

/// The canonical text of the non-negative fixed-point number `m` millionths:
/// the whole part in decimal and, when the fractional part is not zero, a
/// point and the fraction's six digits with trailing zeros removed.
pub open spec fn render_unum(m: int) -> Seq<char> {
    let ip = m / 1_000_000;
    let fp = m % 1_000_000;
    if fp == 0 {
        dec_str(ip)
    } else {
        dec_str(ip) + seq!['.'] + strip_zeros(padded_str(fp, 6))
    }
}

/// The canonical text of the fixed-point number `m` millionths, a leading
/// minus sign for negative numbers.
pub open spec fn render_num(m: int) -> Seq<char> {
    if m < 0 {
        seq!['-'] + render_unum(-m)
    } else {
        render_unum(m)
    }
}

/// The canonical text of a value: numbers in decimal, texts in double
/// quotes, booleans as `true` or `false`.
pub open spec fn render_value(v: Value) -> Seq<char> {
    match v {
        Value::Bool(b) => if b {
            "true"@
        } else {
            "false"@
        },
        Value::Num(m) => render_num(m as int),
        Value::Str(s) => seq!['"'] + s@ + seq!['"'],
    }
}

/// The canonical texts of a sequence of values.
pub open spec fn render_values(vs: Seq<Value>) -> Seq<Seq<char>> {
    vs.map_values(|v: Value| render_value(v))
}

/// The character sequences of a sequence of strings.
pub open spec fn str_views(s: Seq<String>) -> Seq<Seq<char>> {
    s.map_values(|t: String| t@)
}

/// Pushing a string extends the character-sequence view pointwise.
pub proof fn lemma_str_views_push(s: Seq<String>, x: String)
    ensures
        str_views(s.push(x)) == str_views(s).push(x@),
{
    let a = str_views(s.push(x));
    let b = str_views(s).push(x@);
    assert(a.len() == s.len() + 1);
    assert(b.len() == s.len() + 1);
    assert forall|j: int| 0 <= j < a.len() implies a[j] == b[j] by {
        assert(a[j] == s.push(x)[j]@);
        if j < s.len() {
            assert(str_views(s)[j] == s[j]@);
        }
    }
    assert(a =~~= b);
}

/// Appends the digit character of `d` to `out`.
fn push_digit(out: &mut String, d: u64)
    requires
        d < 10,
    ensures
        final(out)@ == old(out)@ + seq![digit_char(d as int)],
{
    if d == 0 {
        out.append("0");
        proof {
            reveal_strlit("0");
            assert(out@ =~= old(out)@ + seq![digit_char(d as int)]);
        }
    } else if d == 1 {
        out.append("1");
        proof {
            reveal_strlit("1");
            assert(out@ =~= old(out)@ + seq![digit_char(d as int)]);
        }
    } else if d == 2 {
        out.append("2");
        proof {
            reveal_strlit("2");
            assert(out@ =~= old(out)@ + seq![digit_char(d as int)]);
        }
    } else if d == 3 {
        out.append("3");
        proof {
            reveal_strlit("3");
            assert(out@ =~= old(out)@ + seq![digit_char(d as int)]);
        }
    } else if d == 4 {
        out.append("4");
        proof {
            reveal_strlit("4");
            assert(out@ =~= old(out)@ + seq![digit_char(d as int)]);
        }
    } else if d == 5 {
        out.append("5");
        proof {
            reveal_strlit("5");
            assert(out@ =~= old(out)@ + seq![digit_char(d as int)]);
        }
    } else if d == 6 {
        out.append("6");
        proof {
            reveal_strlit("6");
            assert(out@ =~= old(out)@ + seq![digit_char(d as int)]);
        }
    } else if d == 7 {
        out.append("7");
        proof {
            reveal_strlit("7");
            assert(out@ =~= old(out)@ + seq![digit_char(d as int)]);
        }
    } else if d == 8 {
        out.append("8");
        proof {
            reveal_strlit("8");
            assert(out@ =~= old(out)@ + seq![digit_char(d as int)]);
        }
    } else {
        out.append("9");
        proof {
            reveal_strlit("9");
            assert(out@ =~= old(out)@ + seq![digit_char(d as int)]);
        }
    }
}

/// Appends the decimal digits of `n` to `out`.
pub fn push_dec(out: &mut String, n: u64)
    ensures
        final(out)@ == old(out)@ + dec_str(n as int),
    decreases n,
{
    if n >= 10 {
        push_dec(out, n / 10);
    }
    push_digit(out, n % 10);
    proof {
        if n < 10 {
            assert(out@ =~= old(out)@ + dec_str(n as int));
        } else {
            assert(dec_str(n as int) =~= dec_str((n / 10) as int) + seq![
                digit_char((n % 10) as int),
            ]);
            assert(out@ =~= old(out)@ + dec_str(n as int));
        }
    }
}

/// Appends the last `w` digits of `n`, zero-padded, to `out`.
fn push_padded(out: &mut String, n: u64, w: u64)
    ensures
        final(out)@ == old(out)@ + padded_str(n as int, w as int),
    decreases w,
{
    if w == 0 {
        proof {
            assert(out@ =~= old(out)@ + padded_str(n as int, 0));
        }
        return ;
    }
    push_padded(out, n / 10, w - 1);
    push_digit(out, n % 10);
    proof {
        assert(padded_str(n as int, w as int) =~= padded_str((n / 10) as int, w as int - 1) + seq![
            digit_char((n % 10) as int),
        ]);
        assert(out@ =~= old(out)@ + padded_str(n as int, w as int));
    }
}

/// Powers of ten.
pub open spec fn p10(k: int) -> int
    decreases k,
{
    if k <= 0 {
        1
    } else {
        10 * p10(k - 1)
    }
}

/// Appends the canonical text of the non-negative fixed-point number `n`
/// millionths to `out`.
fn push_unum(out: &mut String, n: u64)
    ensures
        final(out)@ == old(out)@ + render_unum(n as int),
{
    let ip: u64 = n / 1_000_000;
    let fp: u64 = n % 1_000_000;
    push_dec(out, ip);
    if fp > 0 {
        out.append(".");
        let mut f: u64 = fp;
        let mut w: u64 = 6;
        proof {
            assert(p10(0) == 1);
            assert(p10(1) == 10);
            assert(p10(2) == 100);
            assert(p10(3) == 1000);
            assert(p10(4) == 10000);
            assert(p10(5) == 100000);
            assert(p10(6) == 1000000);
        }
        while f % 10 == 0
            invariant
                1 <= f,
                1 <= w <= 6,
                (f as int) < p10(w as int),
                strip_zeros(padded_str(fp as int, 6)) == strip_zeros(
                    padded_str(f as int, w as int),
                ),
            decreases f,
        {
            proof {
                assert(f >= 10);
                if w == 1 {
                    assert(p10(1) == 10);
                    assert(false);
                }
                assert(p10(w as int) == 10 * p10(w as int - 1));
                assert(padded_str(f as int, w as int) =~= padded_str(
                    (f / 10) as int,
                    w as int - 1,
                ).push(digit_char((f % 10) as int)));
                assert(padded_str(f as int, w as int).drop_last() =~= padded_str(
                    (f / 10) as int,
                    w as int - 1,
                ));
                assert(strip_zeros(padded_str(f as int, w as int)) == strip_zeros(
                    padded_str((f / 10) as int, w as int - 1),
                ));
            }
            f = f / 10;
            w = w - 1;
        }
        proof {
            lemma_padded_str_len(f as int, w as int);
            assert(padded_str(f as int, w as int).last() == digit_char((f % 10) as int));
            assert(digit_char((f % 10) as int) != '0');
            assert(strip_zeros(padded_str(f as int, w as int)) == padded_str(f as int, w as int));
        }
        push_padded(out, f, w);
        proof {
            reveal_strlit(".");
            assert(out@ =~= old(out)@ + render_unum(n as int));
        }
    }
}

/// Appends the canonical text of the fixed-point number `m` millionths to
/// `out`.
pub fn push_num(out: &mut String, m: i64)
    ensures
        final(out)@ == old(out)@ + render_num(m as int),
{
    if m < 0 {
        out.append("-");
        let n: u64 = (-(m as i128)) as u64;
        push_unum(out, n);
        proof {
            reveal_strlit("-");
            assert(out@ =~= old(out)@ + render_num(m as int));
        }
    } else {
        push_unum(out, m as u64);
    }
}

/// Appends the canonical text of a value to `out`.
pub fn push_value(out: &mut String, v: &Value)
    ensures
        final(out)@ == old(out)@ + render_value(*v),
{
    match v {
        Value::Bool(b) => {
            if *b {
                out.append("true");
            } else {
                out.append("false");
            }
        },
        Value::Num(m) => {
            push_num(out, *m);
        },
        Value::Str(s) => {
            out.append("\"");
            out.append(s.as_str());
            out.append("\"");
            proof {
                reveal_strlit("\"");
                assert(out@ =~= old(out)@ + render_value(*v));
            }
        },
    }
}

/// The canonical text of a value, as a fresh string.
pub fn render_value_string(v: &Value) -> (r: String)
    ensures
        r@ == render_value(*v),
{
    let mut out = String::new();
    push_value(&mut out, v);
    out
}

/// Strict lexicographic order on texts, by character code.
pub open spec fn lex_lt(a: Seq<char>, b: Seq<char>) -> bool
    decreases a.len(),
{
    if b.len() == 0 {
        false
    } else if a.len() == 0 {
        true
    } else if a[0] != b[0] {
        (a[0] as int) < (b[0] as int)
    } else {
        lex_lt(a.skip(1), b.skip(1))
    }
}

/// Decides [`lex_lt`].
pub fn str_lt(a: &String, b: &String) -> (r: bool)
    ensures
        r == lex_lt(a@, b@),
{
    let an: usize = a.as_str().unicode_len();
    let bn: usize = b.as_str().unicode_len();
    let n: usize = if an < bn {
        an
    } else {
        bn
    };
    let mut i: usize = 0;
    proof {
        assert(a@.skip(0) =~= a@);
        assert(b@.skip(0) =~= b@);
    }
    while i < n
        invariant
            0 <= i <= n,
            n == if an < bn {
                an as int
            } else {
                bn as int
            },
            an == a@.len(),
            bn == b@.len(),
            lex_lt(a@, b@) == lex_lt(a@.skip(i as int), b@.skip(i as int)),
        decreases n - i,
    {
        let ca: char = a.as_str().get_char(i);
        let cb: char = b.as_str().get_char(i);
        if ca != cb {
            proof {
                assert(a@.skip(i as int)[0] == a@[i as int]);
                assert(b@.skip(i as int)[0] == b@[i as int]);
            }
            return (ca as u32) < (cb as u32);
        }
        proof {
            assert(a@.skip(i as int).skip(1) =~= a@.skip(i as int + 1));
            assert(b@.skip(i as int).skip(1) =~= b@.skip(i as int + 1));
        }
        i = i + 1;
    }
    proof {
        if an < bn {
            assert(a@.skip(i as int).len() == 0);
            assert(b@.skip(i as int).len() > 0);
        } else {
            assert(b@.skip(i as int).len() == 0);
        }
    }
    an < bn
}

/// `x` inserted into the sorted duplicate-free listing `s`: dropped when
/// already present, else placed before the first larger element.
pub open spec fn insert_lex(s: Seq<Seq<char>>, x: Seq<char>) -> Seq<Seq<char>>
    decreases s.len(),
{
    if s.len() == 0 {
        seq![x]
    } else if x == s[0] {
        s
    } else if lex_lt(x, s[0]) {
        seq![x] + s
    } else {
        seq![s[0]] + insert_lex(s.skip(1), x)
    }
}

/// The sorted, duplicate-free listing of `vals`.
pub open spec fn sort_unique(vals: Seq<Seq<char>>) -> Seq<Seq<char>>
    decreases vals.len(),
{
    if vals.len() == 0 {
        Seq::empty()
    } else {
        insert_lex(sort_unique(vals.drop_last()), vals.last())
    }
}

proof fn lemma_insert_lex_split(s: Seq<Seq<char>>, x: Seq<char>, i: int)
    requires
        0 <= i <= s.len(),
        forall|j: int| 0 <= j < i ==> s[j] != x && !lex_lt(x, s[j]),
    ensures
        insert_lex(s, x) == s.take(i) + insert_lex(s.skip(i), x),
    decreases i,
{
    if i == 0 {
        assert(s.skip(0) =~= s);
        assert(s.take(0) + insert_lex(s, x) =~= insert_lex(s, x));
    } else {
        assert(s[0] != x && !lex_lt(x, s[0]));
        lemma_insert_lex_split(s.skip(1), x, i - 1);
        assert(s.take(i) =~~= seq![s[0]] + s.skip(1).take(i - 1));
        assert(s.skip(i) =~~= s.skip(1).skip(i - 1));
        assert(insert_lex(s, x) =~~= s.take(i) + insert_lex(s.skip(i), x));
    }
}

/// Inserts `x` into the sorted duplicate-free vector `v`, as
/// [`insert_lex`] says.
pub fn insert_sorted(v: &mut Vec<String>, x: String)
    ensures
        str_views(final(v)@) == insert_lex(str_views(old(v)@), x@),
{
    let ghost v0 = old(v)@;
    let ghost xv = x@;
    let ghost sv = str_views(old(v)@);
    let mut i: usize = 0;
    while i < v.len()
        invariant
            0 <= i <= v@.len(),
            v@ == old(v)@,
            v0 == old(v)@,
            xv == x@,
            sv == str_views(v0),
            forall|j: int| 0 <= j < i ==> sv[j] != xv && !lex_lt(xv, sv[j]),
        decreases v@.len() - i,
    {
        if x.eq(&v[i]) {
            proof {
                lemma_insert_lex_split(sv, xv, i as int);
                assert(sv.skip(i as int)[0] == sv[i as int]);
                assert(sv[i as int] == v0[i as int]@);
                assert(insert_lex(sv.skip(i as int), xv) == sv.skip(i as int));
                assert(sv.take(i as int) + sv.skip(i as int) =~~= sv);
                assert(str_views(v@) == insert_lex(sv, xv));
            }
            return ;
        }
        if str_lt(&x, &v[i]) {
            proof {
                lemma_insert_lex_split(sv, xv, i as int);
                assert(sv.skip(i as int)[0] == v0[i as int]@);
                assert(insert_lex(sv.skip(i as int), xv) == seq![xv] + sv.skip(i as int));
            }
            v.insert(i, x);
            proof {
                assert(v@ == v0.insert(i as int, x));
                assert(str_views(v@) =~~= sv.take(i as int) + (seq![xv] + sv.skip(i as int)));
                assert(str_views(v@) == insert_lex(sv, xv));
            }
            return ;
        }
        i = i + 1;
    }
    proof {
        lemma_insert_lex_split(sv, xv, i as int);
        assert(sv.skip(i as int).len() == 0);
        assert(insert_lex(sv.skip(i as int), xv) =~~= seq![xv]);
    }
    v.push(x);
    proof {
        assert(str_views(v@) =~~= sv.take(v0.len() as int) + seq![xv]);
        assert(str_views(v@) == insert_lex(sv, xv));
    }
}

/// The sorted, duplicate-free vector of `vals`.
pub fn sort_unique_exec(vals: Vec<String>) -> (r: Vec<String>)
    ensures
        str_views(r@) == sort_unique(str_views(vals@)),
{
    let mut sorted: Vec<String> = Vec::new();
    let mut i: usize = 0;
    while i < vals.len()
        invariant
            0 <= i <= vals@.len(),
            str_views(sorted@) == sort_unique(str_views(vals@.take(i as int))),
        decreases vals@.len() - i,
    {
        let x = vals[i].clone();
        proof {
            assert(x@ == vals@[i as int]@);
        }
        insert_sorted(&mut sorted, x);
        proof {
            assert(str_views(vals@.take(i as int + 1)).drop_last() =~~= str_views(
                vals@.take(i as int),
            ));
            assert(str_views(vals@.take(i as int + 1)).last() == vals@[i as int]@);
            assert(str_views(sorted@) == sort_unique(str_views(vals@.take(i as int + 1))));
        }
        i = i + 1;
    }
    proof {
        assert(vals@.take(vals@.len() as int) =~= vals@);
    }
    sorted
}

/// The elements of `s` joined with `", "`.
pub open spec fn join_comma(s: Seq<Seq<char>>) -> Seq<char>
    decreases s.len(),
{
    if s.len() == 0 {
        Seq::empty()
    } else if s.len() == 1 {
        s[0]
    } else {
        join_comma(s.drop_last()) + seq![',', ' '] + s.last()
    }
}

/// Appends the elements of `v` joined with `", "` to `out`.
pub fn push_join(out: &mut String, v: &Vec<String>)
    ensures
        final(out)@ == old(out)@ + join_comma(str_views(v@)),
{
    let ghost tv = str_views(v@);
    let mut i: usize = 0;
    proof {
        assert(tv.take(0).len() == 0);
        assert(out@ =~= old(out)@ + join_comma(tv.take(0)));
    }
    while i < v.len()
        invariant
            0 <= i <= v@.len(),
            tv == str_views(v@),
            out@ == old(out)@ + join_comma(tv.take(i as int)),
        decreases v@.len() - i,
    {
        if i > 0 {
            out.append(", ");
        }
        out.append(v[i].as_str());
        proof {
            reveal_strlit(", ");
            assert(tv.take(i as int + 1).drop_last() =~~= tv.take(i as int));
            assert(tv.take(i as int + 1).last() == v@[i as int]@);
            if i == 0 {
                assert(tv.take(1).len() == 1);
                assert(join_comma(tv.take(1)) == tv.take(1)[0]);
                assert(tv.take(1)[0] == v@[0]@);
                assert(out@ =~= old(out)@ + join_comma(tv.take(i as int + 1)));
            } else {
                assert(join_comma(tv.take(i as int + 1)) == join_comma(tv.take(i as int)) + seq![
                    ',',
                    ' ',
                ] + v@[i as int]@);
                assert(out@ =~= old(out)@ + join_comma(tv.take(i as int + 1)));
            }
        }
        i = i + 1;
    }
    proof {
        assert(tv.take(v@.len() as int) =~~= tv);
    }
}

} // verus!
