//! Character-sequence utilities: Unicode whitespace, trimming, joining with a
//! separator, and decimal rendering of numbers.

use vstd::prelude::*;

verus! {

/// Unicode `White_Space` property, the set of characters for which
/// `char::is_whitespace` returns `true`.
pub open spec fn is_white_space(c: char) -> bool {
    let n = c as u32;
    ||| 0x09 <= n <= 0x0d
    ||| n == 0x20
    ||| n == 0x85
    ||| n == 0xa0
    ||| n == 0x1680
    ||| 0x2000 <= n <= 0x200a
    ||| n == 0x2028
    ||| n == 0x2029
    ||| n == 0x202f
    ||| n == 0x205f
    ||| n == 0x3000
}

/// Decides `is_white_space`.
pub fn is_white_space_char(c: char) -> (r: bool)
    ensures
        r == is_white_space(c),
{
    let n = c as u32;
    (0x09 <= n && n <= 0x0d) || n == 0x20 || n == 0x85 || n == 0xa0 || n == 0x1680 || (0x2000
        <= n && n <= 0x200a) || n == 0x2028 || n == 0x2029 || n == 0x202f || n == 0x205f || n
        == 0x3000
}

/// `s` without its trailing whitespace.
pub open spec fn trim_end(s: Seq<char>) -> Seq<char>
    decreases s.len(),
{
    if s.len() > 0 && is_white_space(s.last()) {
        trim_end(s.drop_last())
    } else {
        s
    }
}

/// `s` without its leading whitespace.
pub open spec fn trim_start(s: Seq<char>) -> Seq<char>
    decreases s.len(),
{
    if s.len() > 0 && is_white_space(s[0]) {
        trim_start(s.drop_first())
    } else {
        s
    }
}

/// `s` without leading and trailing whitespace.
pub open spec fn trim(s: Seq<char>) -> Seq<char> {
    trim_start(trim_end(s))
}

/// The pieces of `parts` in order, with `sep` between each two neighbours.
pub open spec fn join(parts: Seq<Seq<char>>, sep: Seq<char>) -> Seq<char>
    decreases parts.len(),
{
    if parts.len() == 0 {
        Seq::empty()
    } else if parts.len() == 1 {
        parts[0]
    } else {
        join(parts.drop_last(), sep) + sep + parts.last()
    }
}

/// The ASCII digit for `d < 10`.
pub open spec fn digit_char(d: nat) -> char {
    if d == 0 { '0' }
    else if d == 1 { '1' }
    else if d == 2 { '2' }
    else if d == 3 { '3' }
    else if d == 4 { '4' }
    else if d == 5 { '5' }
    else if d == 6 { '6' }
    else if d == 7 { '7' }
    else if d == 8 { '8' }
    else { '9' }
}

/// Decimal notation of `n`, most significant digit first, without leading zeros.
pub open spec fn decimal(n: nat) -> Seq<char>
    decreases n,
{
    if n < 10 {
        seq![digit_char(n)]
    } else {
        decimal(n / 10).push(digit_char(n % 10))
    }
}

/// The trimmed sequence has no whitespace at its end, and is a prefix of `s`
/// that leaves out only whitespace.
pub proof fn lemma_trim_end(s: Seq<char>)
    ensures
        trim_end(s).len() <= s.len(),
        trim_end(s) =~= s.take(trim_end(s).len() as int),
        trim_end(s).len() > 0 ==> !is_white_space(trim_end(s).last()),
        forall|i: int| trim_end(s).len() <= i < s.len() ==> is_white_space(#[trigger] s[i]),
    decreases s.len(),
{
    if s.len() > 0 && is_white_space(s.last()) {
        lemma_trim_end(s.drop_last());
        let t = trim_end(s.drop_last());
        assert forall|i: int| t.len() <= i < s.len() implies is_white_space(#[trigger] s[i]) by {
            if i < s.len() - 1 {
                assert(s[i] == s.drop_last()[i]);
            }
        }
    }
}

/// The value of the decimal digits `ds`, most significant first.
pub open spec fn digits_value(ds: Seq<char>) -> int
    decreases ds.len(),
{
    if ds.len() == 0 {
        0
    } else {
        digits_value(ds.drop_last()) * 10 + (ds.last() as int - '0' as int)
    }
}

/// The decimal notation of `n` consists of ASCII digits, reads back as `n`,
/// and starts with a zero only when it is `"0"`.
pub proof fn lemma_decimal(n: nat)
    ensures
        decimal(n).len() > 0,
        forall|i: int| 0 <= i < decimal(n).len() ==> '0' <= #[trigger] decimal(n)[i] <= '9',
        digits_value(decimal(n)) == n,
        decimal(n)[0] == '0' ==> n == 0,
    decreases n,
{
    assert(digit_char(n % 10) as int == n % 10 + 48);
    if n < 10 {
        assert(decimal(n).drop_last() =~= Seq::<char>::empty());
        assert(digits_value(Seq::<char>::empty()) == 0);
        assert(decimal(n).last() == digit_char(n));
    }
    if n >= 10 {
        lemma_decimal(n / 10);
        let d = decimal(n);
        assert(d.drop_last() =~= decimal(n / 10));
        assert(d.last() == digit_char(n % 10));
        assert(digits_value(d) == digits_value(decimal(n / 10)) * 10 + (n % 10));
        assert((n / 10) * 10 + n % 10 == n) by (nonlinear_arith);
        assert forall|i: int| 0 <= i < d.len() implies '0' <= #[trigger] d[i] <= '9' by {
            if i < d.len() - 1 {
                assert(d[i] == decimal(n / 10)[i]);
            }
        }
        assert(d[0] == decimal(n / 10)[0]);
    }
}

/// Trimming takes a contiguous part of `s` that neither starts nor ends with
/// whitespace, leaving out only whitespace on either side.
pub proof fn lemma_trim(s: Seq<char>)
    ensures
        exists|i: int, j: int|
            0 <= i <= j <= s.len() && trim(s) == s.subrange(i, j) && (forall|k: int|
                0 <= k < i ==> is_white_space(#[trigger] s[k])) && (forall|k: int|
                j <= k < s.len() ==> is_white_space(#[trigger] s[k])),
        trim(s).len() > 0 ==> !is_white_space(trim(s)[0]) && !is_white_space(trim(s).last()),
{
    lemma_trim_end(s);
    let e = trim_end(s);
    lemma_trim_start(e);
    let i = e.len() - trim(s).len();
    let j = e.len() as int;
    assert(trim(s) =~= s.subrange(i, j));
    assert forall|k: int| 0 <= k < i implies is_white_space(#[trigger] s[k]) by {
        assert(s[k] == e[k]);
    }
}

/// Trimming the start drops a run of leading whitespace and keeps the rest.
pub proof fn lemma_trim_start(s: Seq<char>)
    ensures
        trim_start(s).len() <= s.len(),
        trim_start(s) =~= s.skip(s.len() - trim_start(s).len()),
        forall|k: int| 0 <= k < s.len() - trim_start(s).len() ==> is_white_space(#[trigger] s[k]),
        trim_start(s).len() > 0 ==> !is_white_space(trim_start(s)[0]),
        s.len() > 0 && !is_white_space(s.last()) && trim_start(s).len() > 0 ==> !is_white_space(
            trim_start(s).last(),
        ),
    decreases s.len(),
{
    if s.len() > 0 && is_white_space(s[0]) {
        lemma_trim_start(s.drop_first());
        assert forall|k: int| 0 <= k < s.len() - trim_start(s).len() implies is_white_space(
            #[trigger] s[k],
        ) by {
            if k > 0 {
                assert(s[k] == s.drop_first()[k - 1]);
            }
        }
    }
}

/// Joining one piece gives the piece; joining one more piece adds the
/// separator and the piece.
pub proof fn lemma_join(parts: Seq<Seq<char>>, sep: Seq<char>, p: Seq<char>)
    ensures
        join(seq![p], sep) == p,
        parts.len() > 0 ==> join(parts.push(p), sep) == join(parts, sep) + sep + p,
        join(Seq::empty(), sep) == Seq::<char>::empty(),
{
    assert(parts.push(p).drop_last() =~= parts);
}

fn digit_of(d: u128) -> (c: char)
    requires
        d < 10,
    ensures
        c == digit_char(d as nat),
{
    if d == 0 { '0' }
    else if d == 1 { '1' }
    else if d == 2 { '2' }
    else if d == 3 { '3' }
    else if d == 4 { '4' }
    else if d == 5 { '5' }
    else if d == 6 { '6' }
    else if d == 7 { '7' }
    else if d == 8 { '8' }
    else { '9' }
}

/// Appends the decimal notation of `n` to `out`.
pub fn push_decimal(out: &mut Vec<char>, n: u128)
    ensures
        final(out)@ == old(out)@ + decimal(n as nat),
    decreases n,
{
    if n >= 10 {
        push_decimal(out, n / 10);
    }
    out.push(digit_of(n % 10));
}

/// Appends the characters of `s` to `out`.
pub fn push_str(out: &mut Vec<char>, s: &str)
    ensures
        final(out)@ == old(out)@ + s@,
{
    let ghost start = out@;
    for c in it: s.chars()
        invariant
            out@ == start + it.seq().take(it.index() as int),
            it.seq() == s@,
    {
        out.push(c);
    }
}

/// Removes the trailing whitespace of `v`.
pub fn trim_end_in_place(v: &mut Vec<char>)
    ensures
        final(v)@ == trim_end(old(v)@),
{
    while v.len() > 0 && is_white_space_char(v[v.len() - 1])
        invariant
            trim_end(v@) == trim_end(old(v)@),
        decreases v.len(),
    {
        v.pop();
    }
}

/// A copy of `v` without leading and trailing whitespace.
pub fn trimmed(v: &Vec<char>) -> (r: Vec<char>)
    ensures
        r@ == trim(v@),
{
    let mut end: usize = v.len();
    assert(v@.take(end as int) =~= v@);
    while end > 0 && is_white_space_char(v[end - 1])
        invariant
            end <= v.len(),
            trim_end(v@.take(end as int)) == trim_end(v@),
        decreases end,
    {
        assert(v@.take(end as int).drop_last() =~= v@.take(end - 1));
        end = end - 1;
    }
    assert(trim_end(v@) == v@.take(end as int));
    let mut start: usize = 0;
    while start < end && is_white_space_char(v[start])
        invariant
            start <= end <= v.len(),
            trim_end(v@) == v@.take(end as int),
            trim_start(v@.subrange(start as int, end as int)) == trim(v@),
        decreases end - start,
    {
        assert(v@.subrange(start as int, end as int).drop_first() =~= v@.subrange(
            start + 1,
            end as int,
        ));
        start = start + 1;
    }
    let mut r: Vec<char> = Vec::new();
    let mut i: usize = start;
    while i < end
        invariant
            start <= i <= end <= v.len(),
            r@ =~= v@.subrange(start as int, i as int),
        decreases end - i,
    {
        r.push(v[i]);
        i = i + 1;
    }
    r
}

/// Appends the characters of `s` to `out`.
pub fn push_chars(out: &mut Vec<char>, s: &Vec<char>)
    ensures
        final(out)@ == old(out)@ + s@,
{
    let mut i: usize = 0;
    while i < s.len()
        invariant
            i <= s.len(),
            out@ =~= old(out)@ + s@.take(i as int),
        decreases s.len() - i,
    {
        out.push(s[i]);
        i = i + 1;
    }
}

/// The character sequences held by `rows`.
pub open spec fn char_rows(rows: Seq<Vec<char>>) -> Seq<Seq<char>> {
    rows.map_values(|r: Vec<char>| r@)
}

/// Appends `parts` joined by `sep` to `out`.
pub fn push_joined(out: &mut Vec<char>, parts: &Vec<Vec<char>>, sep: &str)
    ensures
        final(out)@ == old(out)@ + join(char_rows(parts@), sep@),
{
    let ghost views = char_rows(parts@);
    let ghost start = out@;
    let mut i: usize = 0;
    while i < parts.len()
        invariant
            i <= parts.len(),
            views == char_rows(parts@),
            out@ =~= start + join(views.take(i as int), sep@),
        decreases parts.len() - i,
    {
        if i > 0 {
            push_str(out, sep);
        }
        push_chars(out, &parts[i]);
        assert(views.take(i + 1).drop_last() =~= views.take(i as int));
        i = i + 1;
    }
    assert(views.take(parts.len() as int) =~= views);
}

/// A `String` holding exactly the characters of `chars`.
#[verifier::external_body]
pub(crate) fn string_from_chars(chars: &Vec<char>) -> (s: String)
    ensures
        s@ == chars@,
{
    chars.iter().collect()
}

} // verus!
