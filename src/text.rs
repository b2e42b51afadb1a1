//! Character-level helpers: splitting a line at tabs and reading decimal integers.
use vstd::prelude::*;

verus! {

/// The fields of `s` between tab characters, as `str::split('\t')` yields them:
/// an empty text has one empty field, and `n` tabs give `n + 1` fields.
pub open spec fn split_tabs(s: Seq<char>) -> Seq<Seq<char>>
    decreases s.len(),
{
    if s.len() == 0 {
        seq![Seq::<char>::empty()]
    } else {
        let init = split_tabs(s.drop_last());
        if s.last() == '\t' {
            init.push(Seq::<char>::empty())
        } else {
            init.update(init.len() - 1, init.last().push(s.last()))
        }
    }
}

/// Field `i` of a split line, or the empty text when the line has fewer fields.
pub open spec fn field(fs: Seq<Seq<char>>, i: int) -> Seq<char> {
    if 0 <= i < fs.len() {
        fs[i]
    } else {
        Seq::<char>::empty()
    }
}

/// The tab-separated line made of the given fields.
pub open spec fn join_tabs(fs: Seq<Seq<char>>) -> Seq<char>
    decreases fs.len(),
{
    if fs.len() <= 1 {
        field(fs, 0)
    } else {
        join_tabs(fs.drop_last()).push('\t') + fs.last()
    }
}

pub open spec fn has_no_tab(s: Seq<char>) -> bool {
    forall|i: int| 0 <= i < s.len() ==> s[i] != '\t'
}

pub open spec fn is_digit(c: char) -> bool {
    '0' <= c && c <= '9'
}

pub open spec fn all_digits(s: Seq<char>) -> bool {
    forall|i: int| 0 <= i < s.len() ==> is_digit(s[i])
}

pub open spec fn digit_value(c: char) -> int {
    c as int - '0' as int
}

/// The number that a run of decimal digits denotes.
pub open spec fn digits_value(s: Seq<char>) -> int
    decreases s.len(),
{
    if s.len() == 0 {
        0
    } else {
        digits_value(s.drop_last()) * 10 + digit_value(s.last())
    }
}

/// The integer written in `s`: an optional `+` or `-`, then one or more decimal digits.
pub open spec fn int_text_value(s: Seq<char>) -> Option<int> {
    if s.len() > 0 && (s[0] == '-' || s[0] == '+') {
        if s.len() > 1 && all_digits(s.drop_first()) {
            Some(
                if s[0] == '-' {
                    -digits_value(s.drop_first())
                } else {
                    digits_value(s.drop_first())
                },
            )
        } else {
            None
        }
    } else if s.len() > 0 && all_digits(s) {
        Some(digits_value(s))
    } else {
        None
    }
}

/// The signed 64-bit integer written in `s`, if it is one and fits.
pub open spec fn i64_of_text(s: Seq<char>) -> Option<i64> {
    match int_text_value(s) {
        Some(v) => if i64::MIN <= v <= i64::MAX {
            Some(v as i64)
        } else {
            None
        },
        None => None,
    }
}

/// The character of a decimal digit `d`, for `0 <= d < 10`.
pub open spec fn digit_char(d: int) -> char {
    seq!['0', '1', '2', '3', '4', '5', '6', '7', '8', '9'][d]
}

/// The decimal digits of `n`, most significant first, with no leading zero.
pub open spec fn decimal_digits(n: nat) -> Seq<char>
    decreases n,
{
    if n < 10 {
        seq![digit_char(n as int)]
    } else {
        decimal_digits(n / 10).push(digit_char((n % 10) as int))
    }
}

/// `v` written in decimal, with a leading `-` when it is negative.
pub open spec fn decimal_text(v: int) -> Seq<char> {
    if v < 0 {
        seq!['-'] + decimal_digits((-v) as nat)
    } else {
        decimal_digits(v as nat)
    }
}

proof fn lemma_digit_char(d: int)
    requires
        0 <= d < 10,
    ensures
        is_digit(digit_char(d)),
        digit_value(digit_char(d)) == d,
{
    let ds = seq!['0', '1', '2', '3', '4', '5', '6', '7', '8', '9'];
    assert(ds[0] == '0' && ds[1] == '1' && ds[2] == '2' && ds[3] == '3' && ds[4] == '4');
    assert(ds[5] == '5' && ds[6] == '6' && ds[7] == '7' && ds[8] == '8' && ds[9] == '9');
}

proof fn lemma_decimal_digits(n: nat)
    ensures
        decimal_digits(n).len() > 0,
        all_digits(decimal_digits(n)),
        digits_value(decimal_digits(n)) == n,
    decreases n,
{
    if n < 10 {
        lemma_digit_char(n as int);
        assert(decimal_digits(n).drop_last() =~= Seq::<char>::empty());
        assert(digits_value(Seq::<char>::empty()) == 0);
    } else {
        lemma_decimal_digits(n / 10);
        lemma_digit_char((n % 10) as int);
        let s = decimal_digits(n);
        assert(s.drop_last() =~= decimal_digits(n / 10));
        assert(s.last() == digit_char((n % 10) as int));
        assert((n / 10) * 10 + n % 10 == n) by (nonlinear_arith);
        assert forall|i: int| 0 <= i < s.len() implies is_digit(s[i]) by {
            if i < s.len() - 1 {
                assert(s[i] == decimal_digits(n / 10)[i]);
            }
        }
    }
}

/// Reading back the decimal text of a 64-bit integer gives that integer.
pub proof fn lemma_decimal_text(v: i64)
    ensures
        i64_of_text(decimal_text(v as int)) == Some(v),
        has_no_tab(decimal_text(v as int)),
{
    let t = decimal_text(v as int);
    if v < 0 {
        let ds = decimal_digits((-v) as nat);
        lemma_decimal_digits((-v) as nat);
        assert(t.drop_first() =~= ds);
        assert(t[0] == '-');
        assert forall|i: int| 0 <= i < t.len() implies t[i] != '\t' by {
            if i > 0 {
                assert(t[i] == ds[i - 1]);
            }
        }
    } else {
        lemma_decimal_digits(v as nat);
        assert(is_digit(t[0]));
    }
}

pub proof fn lemma_split_nonempty(s: Seq<char>)
    ensures
        split_tabs(s).len() >= 1,
    decreases s.len(),
{
    if s.len() > 0 {
        lemma_split_nonempty(s.drop_last());
    }
}

/// Splitting a text with no tab gives that text as the one field.
pub proof fn lemma_split_no_tab(s: Seq<char>)
    requires
        has_no_tab(s),
    ensures
        split_tabs(s) == seq![s],
    decreases s.len(),
{
    if s.len() == 0 {
        assert(s =~= Seq::<char>::empty());
        assert(split_tabs(s) =~= seq![s]);
    } else {
        lemma_split_no_tab(s.drop_last());
        assert(s[s.len() - 1] != '\t');
        assert(s.drop_last().push(s.last()) =~= s);
        assert(split_tabs(s) =~= seq![s]);
    }
}

/// Text without tabs appended to a line extends its last field.
proof fn lemma_split_extend(p: Seq<char>, q: Seq<char>)
    requires
        has_no_tab(q),
    ensures
        split_tabs(p + q) == split_tabs(p).update(
            split_tabs(p).len() - 1,
            split_tabs(p).last() + q,
        ),
    decreases q.len(),
{
    lemma_split_nonempty(p);
    if q.len() == 0 {
        assert(p + q =~= p);
        assert(split_tabs(p).last() + q =~= split_tabs(p).last());
        assert(split_tabs(p + q) =~= split_tabs(p).update(
            split_tabs(p).len() - 1,
            split_tabs(p).last() + q,
        ));
    } else {
        let q0 = q.drop_last();
        lemma_split_extend(p, q0);
        assert((p + q).drop_last() =~= p + q0);
        assert((p + q).last() == q.last());
        assert((split_tabs(p).last() + q0).push(q.last()) =~= split_tabs(p).last() + q);
        assert(split_tabs(p + q) =~= split_tabs(p).update(
            split_tabs(p).len() - 1,
            split_tabs(p).last() + q,
        ));
    }
}

/// Splitting the join of tab-free fields gives the fields back.
pub proof fn lemma_split_join(fs: Seq<Seq<char>>)
    requires
        fs.len() >= 1,
        forall|i: int| 0 <= i < fs.len() ==> has_no_tab(#[trigger] fs[i]),
    ensures
        split_tabs(join_tabs(fs)) == fs,
    decreases fs.len(),
{
    if fs.len() == 1 {
        lemma_split_no_tab(fs[0]);
        assert(seq![fs[0]] =~= fs);
    } else {
        let init = fs.drop_last();
        assert forall|i: int| 0 <= i < init.len() implies has_no_tab(#[trigger] init[i]) by {
            assert(init[i] == fs[i]);
        }
        lemma_split_join(init);
        let p = join_tabs(init).push('\t');
        assert(p.drop_last() =~= join_tabs(init));
        assert(has_no_tab(fs[fs.len() - 1]));
        lemma_split_extend(p, fs.last());
        assert(Seq::<char>::empty() + fs.last() =~= fs.last());
        assert(split_tabs(join_tabs(fs)) =~= fs);
    }
}

proof fn lemma_digits_nonneg(s: Seq<char>)
    requires
        all_digits(s),
    ensures
        digits_value(s) >= 0,
    decreases s.len(),
{
    if s.len() > 0 {
        lemma_digits_nonneg(s.drop_last());
    }
}

/// A prefix of a run of digits denotes no more than the whole run.
proof fn lemma_digits_prefix_le(s: Seq<char>, i: int)
    requires
        all_digits(s),
        0 <= i <= s.len(),
    ensures
        digits_value(s.subrange(0, i)) <= digits_value(s),
    decreases s.len(),
{
    if i < s.len() {
        let init = s.drop_last();
        lemma_digits_prefix_le(init, i);
        assert(init.subrange(0, i) =~= s.subrange(0, i));
        lemma_digits_nonneg(init);
    } else {
        assert(s.subrange(0, i) =~= s);
    }
}

/// Relies on `str::chars`: the characters of the text, in order.
#[verifier::external_body]
pub(crate) fn chars_of(s: &str) -> (r: Vec<char>)
    ensures
        r@ == s@,
{
    s.chars().collect()
}

/// Relies on `String`'s `FromIterator<&char>` (via `collect`): the text made of exactly these characters, in order.
#[verifier::external_body]
pub(crate) fn text_of(cs: &Vec<char>) -> (r: String)
    ensures
        r@ == cs@,
{
    cs.iter().collect()
}

/// Splits a line at every tab character.
pub fn split_tab_fields(line: &str) -> (r: Vec<Vec<char>>)
    ensures
        r@.len() == split_tabs(line@).len(),
        forall|i: int| 0 <= i < r@.len() ==> #[trigger] r@[i]@ == split_tabs(line@)[i],
{
    let cs = chars_of(line);
    let mut fields: Vec<Vec<char>> = Vec::new();
    let mut cur: Vec<char> = Vec::new();
    let mut i: usize = 0;
    proof {
        assert(cs@.subrange(0, 0) =~= Seq::<char>::empty());
    }
    while i < cs.len()
        invariant
            0 <= i <= cs.len(),
            split_tabs(cs@.subrange(0, i as int)).len() == fields@.len() + 1,
            forall|j: int|
                0 <= j < fields@.len() ==> #[trigger] fields@[j]@ == split_tabs(
                    cs@.subrange(0, i as int),
                )[j],
            split_tabs(cs@.subrange(0, i as int)).last() == cur@,
        decreases cs.len() - i,
    {
        let c = cs[i];
        proof {
            assert(cs@.subrange(0, i as int + 1).drop_last() =~= cs@.subrange(0, i as int));
        }
        if c == '\t' {
            fields.push(cur);
            cur = Vec::new();
        } else {
            cur.push(c);
        }
        i = i + 1;
    }
    proof {
        assert(cs@.subrange(0, i as int) =~= cs@);
    }
    fields.push(cur);
    fields
}

/// Reads a signed 64-bit decimal integer: an optional sign, then digits only.
pub fn parse_i64(cs: &Vec<char>) -> (r: Option<i64>)
    ensures
        r == i64_of_text(cs@),
{
    let n = cs.len();
    if n == 0 {
        return None;
    }
    let neg = cs[0] == '-';
    let start: usize = if cs[0] == '-' || cs[0] == '+' {
        1
    } else {
        0
    };
    if start == n {
        return None;
    }
    let limit: u64 = if neg {
        9223372036854775808
    } else {
        9223372036854775807
    };
    let ghost d = cs@.subrange(start as int, n as int);
    proof {
        if start == 1 {
            assert(d =~= cs@.drop_first());
        } else {
            assert(d =~= cs@);
        }
    }
    let mut acc: u64 = 0;
    let mut i: usize = start;
    proof {
        assert(d.subrange(0, 0) =~= Seq::<char>::empty());
    }
    while i < n
        invariant
            start <= i <= n,
            n == cs@.len(),
            d == cs@.subrange(start as int, n as int),
            acc as int == digits_value(d.subrange(0, i - start)),
            acc <= limit,
            all_digits(d.subrange(0, i - start)),
            9223372036854775807 <= limit <= 9223372036854775808,
            n > 0,
            neg == (cs@[0] == '-'),
            neg ==> limit == 9223372036854775808,
            !neg ==> limit == 9223372036854775807,
            start == 1 ==> (cs@[0] == '-' || cs@[0] == '+') && d == cs@.drop_first(),
            start == 0 ==> !(cs@[0] == '-' || cs@[0] == '+') && d == cs@,
            start < n,
            start <= 1,
        decreases n - i,
    {
        let c = cs[i];
        if c < '0' || c > '9' {
            proof {
                assert(d[i - start] == c);
                assert(!is_digit(d[i - start]));
                assert(!all_digits(d));
            }
            return None;
        }
        let dg: u64 = (c as u32 - '0' as u32) as u64;
        let ghost pre = d.subrange(0, i - start);
        let ghost next = d.subrange(0, i - start + 1);
        proof {
            assert(next.drop_last() =~= pre);
            assert(next.last() == c);
        }
        if acc > (limit - dg) / 10 {
            proof {
                assert(acc * 10 + dg > limit) by (nonlinear_arith)
                    requires
                        acc > (limit - dg) / 10,
                        dg <= 9,
                        dg <= limit,
                ;
                if all_digits(d) {
                    lemma_digits_prefix_le(d, i - start + 1);
                }
            }
            return None;
        }
        proof {
            assert(acc * 10 + dg <= limit) by (nonlinear_arith)
                requires
                    acc <= (limit - dg) / 10,
                    dg <= 9,
                    dg <= limit,
            ;
            assert forall|j: int| 0 <= j < next.len() implies is_digit(#[trigger] next[j]) by {
                if j < pre.len() {
                    assert(next[j] == pre[j]);
                }
            }
        }
        acc = acc * 10 + dg;
        i = i + 1;
    }
    proof {
        assert(d.subrange(0, n - start) =~= d);
    }
    if neg {
        if acc == 9223372036854775808 {
            Some(i64::MIN)
        } else {
            Some(-(acc as i64))
        }
    } else {
        Some(acc as i64)
    }
}

} // verus!
