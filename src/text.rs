use vstd::prelude::*;

verus! {

/// The character views of a sequence of strings.
pub open spec fn views(v: Seq<String>) -> Seq<Seq<char>> {
    v.map_values(|s: String| s@)
}

/// The pieces of `s` between the occurrences of `d`, in order; there is
/// always one more piece than there are occurrences.
pub open spec fn split_on(s: Seq<char>, d: char) -> Seq<Seq<char>>
    decreases s.len(),
{
    if s.len() == 0 {
        seq![Seq::empty()]
    } else {
        let prev = split_on(s.drop_last(), d);
        if s.last() == d {
            prev.push(Seq::empty())
        } else {
            prev.update(prev.len() - 1, prev.last().push(s.last()))
        }
    }
}

/// The parts, in order, with `sep` between each two of them.
pub open spec fn join_seq(parts: Seq<Seq<char>>, sep: Seq<char>) -> Seq<char>
    decreases parts.len(),
{
    if parts.len() == 0 {
        Seq::empty()
    } else if parts.len() == 1 {
        parts[0]
    } else {
        join_seq(parts.drop_last(), sep) + sep + parts.last()
    }
}

pub open spec fn is_digit(c: char) -> bool {
    '0' <= c && c <= '9'
}

pub open spec fn digit_value(c: char) -> nat {
    (c as u32 - '0' as u32) as nat
}

pub open spec fn digit_char(d: nat) -> char {
    seq!['0', '1', '2', '3', '4', '5', '6', '7', '8', '9'][d as int]
}

pub open spec fn all_digits(s: Seq<char>) -> bool {
    forall|i: int| 0 <= i < s.len() ==> is_digit(#[trigger] s[i])
}

/// The number that a string of decimal digits denotes.
pub open spec fn digits_value(s: Seq<char>) -> nat
    decreases s.len(),
{
    if s.len() == 0 {
        0
    } else {
        digits_value(s.drop_last()) * 10 + digit_value(s.last())
    }
}

/// The decimal digits of `n`, with no leading zero.
pub open spec fn decimal(n: nat) -> Seq<char>
    decreases n,
{
    if n < 10 {
        seq![digit_char(n)]
    } else {
        decimal(n / 10).push(digit_char(n % 10))
    }
}

/// The decimal text of a signed integer, with a leading `-` when negative.
pub open spec fn signed_decimal(n: int) -> Seq<char> {
    if n < 0 {
        seq!['-'] + decimal((-n) as nat)
    } else {
        decimal(n as nat)
    }
}

/// A non-empty run of digits whose value is at most `bound`.
pub open spec fn magnitude_within(b: Seq<char>, bound: nat) -> bool {
    b.len() > 0 && all_digits(b) && digits_value(b) <= bound
}

/// `s` without one leading `+`.
pub open spec fn unsigned_body(s: Seq<char>) -> Seq<char> {
    if s.len() > 0 && s[0] == '+' {
        s.drop_first()
    } else {
        s
    }
}

/// The unsigned 64-bit integer that `s` spells: an optional `+`, then
/// decimal digits.
pub open spec fn spec_parse_u64(s: Seq<char>) -> Option<u64> {
    let b = unsigned_body(s);
    if magnitude_within(b, u64::MAX as nat) {
        Some(digits_value(b) as u64)
    } else {
        None
    }
}

/// The signed 64-bit integer that `s` spells: an optional sign, then
/// decimal digits.
pub open spec fn spec_parse_i64(s: Seq<char>) -> Option<i64> {
    if s.len() > 0 && s[0] == '-' {
        let b = s.drop_first();
        if magnitude_within(b, 0x8000_0000_0000_0000) {
            Some((-digits_value(b)) as i64)
        } else {
            None
        }
    } else {
        let b = unsigned_body(s);
        if magnitude_within(b, i64::MAX as nat) {
            Some(digits_value(b) as i64)
        } else {
            None
        }
    }
}

pub uninterp spec fn lower_of(s: Seq<char>) -> Seq<char>;

/// Relies on `str::to_lowercase`: the result depends on the characters alone.
#[verifier::external_body]
pub(crate) fn lowercase(s: &str) -> (r: String)
    ensures
        r@ == lower_of(s@),
{
    s.to_lowercase()
}

/// Relies on `String::push`: appends one character at the end.
#[verifier::external_body]
pub(crate) fn push_char(s: &mut String, c: char)
    ensures
        final(s)@ == old(s)@.push(c),
{
    s.push(c)
}

/// Relies on `itertools::join`: the texts of the items, in order, with `sep`
/// between each two of them.
#[verifier::external_body]
pub(crate) fn join_strings(parts: &Vec<String>, sep: &str) -> (r: String)
    ensures
        r@ == join_seq(views(parts@), sep@),
{
    itertools::join(parts, sep)
}

pub proof fn lemma_split_nonempty(s: Seq<char>, d: char)
    ensures
        split_on(s, d).len() >= 1,
    decreases s.len(),
{
    if s.len() > 0 {
        lemma_split_nonempty(s.drop_last(), d);
    }
}

/// Splits `s` at every occurrence of `d`.
pub fn split_chars(s: &str, d: char) -> (r: Vec<String>)
    ensures
        views(r@) == split_on(s@, d),
        r@.len() == split_on(s@, d).len(),
        r@.len() >= 1,
        forall|i: int| 0 <= i < r@.len() ==> (#[trigger] r@[i])@ == split_on(s@, d)[i],
{
    let n = s.unicode_len();
    let mut pieces: Vec<String> = Vec::new();
    let mut cur = String::new();
    let mut i: usize = 0;
    while i < n
        invariant
            n == s@.len(),
            i <= n,
            views(pieces@).push(cur@) == split_on(s@.subrange(0, i as int), d),
        decreases n - i,
    {
        let c = s.get_char(i);
        let ghost before = pieces@;
        let ghost cur_before = cur@;
        proof {
            let t = s@.subrange(0, i + 1);
            assert(t.drop_last() =~= s@.subrange(0, i as int));
            assert(t.last() == c);
            lemma_split_nonempty(s@.subrange(0, i as int), d);
        }
        if c == d {
            pieces.push(cur);
            cur = String::new();
            assert(views(pieces@) =~= views(before).push(cur_before));
        } else {
            push_char(&mut cur, c);
            assert(views(pieces@).push(cur@) =~= views(before).push(cur_before).update(
                views(before).len() as int,
                cur_before.push(c),
            ));
        }
        i += 1;
    }
    let ghost before = pieces@;
    pieces.push(cur);
    assert(views(pieces@) =~= views(before).push(cur@));
    assert(s@.subrange(0, n as int) =~= s@);
    assert forall|i: int| 0 <= i < pieces@.len() implies (#[trigger] pieces@[i])@ == split_on(
        s@,
        d,
    )[i] by {
        assert(views(pieces@)[i] == pieces@[i]@);
    }
    pieces
}

fn digit_to_char(d: u64) -> (c: char)
    requires
        d < 10,
    ensures
        c == digit_char(d as nat),
{
    match d {
        0 => '0',
        1 => '1',
        2 => '2',
        3 => '3',
        4 => '4',
        5 => '5',
        6 => '6',
        7 => '7',
        8 => '8',
        _ => '9',
    }
}

/// Appends the decimal digits of `n`.
pub fn push_decimal(s: &mut String, n: u64)
    ensures
        final(s)@ == old(s)@ + decimal(n as nat),
    decreases n,
{
    if n >= 10 {
        push_decimal(s, n / 10);
    }
    push_char(s, digit_to_char(n % 10));
    assert(decimal(n as nat) == if n < 10 {
        seq![digit_char(n as nat)]
    } else {
        decimal((n / 10) as nat).push(digit_char((n % 10) as nat))
    });
    if n < 10 {
        assert(old(s)@ + decimal(n as nat) =~= old(s)@.push(digit_char(n as nat)));
    } else {
        assert(old(s)@ + decimal(n as nat) =~= (old(s)@ + decimal((n / 10) as nat)).push(
            digit_char((n % 10) as nat),
        ));
    }
}

/// Appends the decimal text of `n`, with a `-` when negative.
pub fn push_signed_decimal(s: &mut String, n: i64)
    ensures
        final(s)@ == old(s)@ + signed_decimal(n as int),
{
    if n < 0 {
        push_char(s, '-');
        let m: u64 = (-(n as i128)) as u64;
        push_decimal(s, m);
        assert(old(s)@ + signed_decimal(n as int) =~= old(s)@.push('-') + decimal(m as nat));
    } else {
        push_decimal(s, n as u64);
    }
}

proof fn lemma_prefix_value_le(s: Seq<char>, k: int)
    requires
        0 <= k <= s.len(),
    ensures
        digits_value(s.subrange(0, k)) <= digits_value(s),
    decreases s.len() - k,
{
    if k < s.len() {
        lemma_prefix_value_le(s.drop_last(), k);
        assert(s.drop_last().subrange(0, k) =~= s.subrange(0, k));
    } else {
        assert(s.subrange(0, k) =~= s);
    }
}

/// Reads the characters of `s` from `from` on as a decimal number no
/// greater than `bound`.
fn parse_magnitude(s: &str, from: usize, bound: u64) -> (r: Option<u64>)
    requires
        from <= s@.len(),
        bound >= 9,
    ensures
        ({
            let b = s@.subrange(from as int, s@.len() as int);
            match r {
                Some(v) => magnitude_within(b, bound as nat) && v == digits_value(b),
                None => !magnitude_within(b, bound as nat),
            }
        }),
{
    let n = s.unicode_len();
    let ghost b = s@.subrange(from as int, n as int);
    if from >= n {
        return None;
    }
    let mut acc: u64 = 0;
    let mut i: usize = from;
    assert(s@.subrange(from as int, from as int) =~= Seq::<char>::empty());
    while i < n
        invariant
            n == s@.len(),
            from < n,
            from <= i <= n,
            b == s@.subrange(from as int, n as int),
            all_digits(s@.subrange(from as int, i as int)),
            acc == digits_value(s@.subrange(from as int, i as int)),
            acc <= bound,
            bound >= 9,
        decreases n - i,
    {
        let c = s.get_char(i);
        assert(b[i - from] == c);
        if !('0' <= c && c <= '9') {
            assert(!is_digit(b[i - from]));
            return None;
        }
        let d: u64 = (c as u32 - '0' as u32) as u64;
        let ghost next = s@.subrange(from as int, i + 1);
        assert(next.drop_last() =~= s@.subrange(from as int, i as int));
        assert(next.last() == c);
        assert(digits_value(next) == acc * 10 + d);
        assert(next =~= b.subrange(0, i + 1 - from));
        if acc > (bound - d) / 10 {
            assert(acc * 10 + d > bound) by (nonlinear_arith)
                requires
                    acc > (bound - d) / 10,
                    d <= 9,
                    bound >= 9,
            ;
            proof {
                lemma_prefix_value_le(b, i + 1 - from);
            }
            return None;
        }
        assert(acc * 10 + d <= bound) by (nonlinear_arith)
            requires
                acc <= (bound - d) / 10,
                d <= 9,
                bound >= 9,
        ;
        acc = acc * 10 + d;
        i += 1;
        assert forall|j: int| 0 <= j < next.len() implies is_digit(#[trigger] next[j]) by {
            if j < next.len() - 1 {
                assert(next[j] == s@.subrange(from as int, (i - 1) as int)[j]);
            }
        }
    }
    assert(s@.subrange(from as int, i as int) =~= b);
    Some(acc)
}

/// Parses an unsigned 64-bit integer: an optional `+`, then decimal digits.
pub fn parse_u64(s: &str) -> (r: Option<u64>)
    ensures
        r == spec_parse_u64(s@),
{
    let n = s.unicode_len();
    let from: usize = if n > 0 && s.get_char(0) == '+' {
        1
    } else {
        0
    };
    assert(unsigned_body(s@) =~= s@.subrange(from as int, n as int));
    parse_magnitude(s, from, u64::MAX)
}

/// Parses a signed 64-bit integer: an optional sign, then decimal digits.
pub fn parse_i64(s: &str) -> (r: Option<i64>)
    ensures
        r == spec_parse_i64(s@),
{
    let n = s.unicode_len();
    if n > 0 && s.get_char(0) == '-' {
        assert(s@.drop_first() =~= s@.subrange(1, n as int));
        match parse_magnitude(s, 1, 0x8000_0000_0000_0000) {
            Some(m) => Some((-(m as i128)) as i64),
            None => None,
        }
    } else {
        let from: usize = if n > 0 && s.get_char(0) == '+' {
            1
        } else {
            0
        };
        assert(unsigned_body(s@) =~= s@.subrange(from as int, n as int));
        match parse_magnitude(s, from, 0x7fff_ffff_ffff_ffff) {
            Some(m) => Some(m as i64),
            None => None,
        }
    }
}

/// No character of `s` is `d`.
pub open spec fn free_of(s: Seq<char>, d: char) -> bool {
    forall|i: int| 0 <= i < s.len() ==> s[i] != d
}

pub proof fn lemma_split_free(s: Seq<char>, d: char)
    requires
        free_of(s, d),
    ensures
        split_on(s, d) == seq![s],
    decreases s.len(),
{
    if s.len() > 0 {
        lemma_split_free(s.drop_last(), d);
        assert(s.last() != d);
        assert(s.drop_last().push(s.last()) =~= s);
        assert(seq![s.drop_last()].update(0, s.drop_last().push(s.last())) =~= seq![s]);
    } else {
        assert(s =~= Seq::<char>::empty());
    }
}

/// Splitting at a separator splits the two sides apart.
pub proof fn lemma_split_concat(x: Seq<char>, y: Seq<char>, d: char)
    ensures
        split_on(x + seq![d] + y, d) == split_on(x, d) + split_on(y, d),
    decreases y.len(),
{
    let s = x + seq![d] + y;
    lemma_split_nonempty(x, d);
    if y.len() == 0 {
        assert(s.drop_last() =~= x);
        assert(split_on(x, d).push(Seq::empty()) =~= split_on(x, d) + split_on(y, d));
    } else {
        lemma_split_concat(x, y.drop_last(), d);
        assert(s.drop_last() =~= x + seq![d] + y.drop_last());
        lemma_split_nonempty(y.drop_last(), d);
        let a = split_on(x, d);
        let b = split_on(y.drop_last(), d);
        let c = y.last();
        if c == d {
            assert((a + b).push(Seq::empty()) =~= a + b.push(Seq::empty()));
        } else {
            assert((a + b).update(a.len() + b.len() - 1, (a + b).last().push(c)) =~= a + b.update(
                b.len() - 1,
                b.last().push(c),
            ));
        }
    }
}

/// Joining the pieces of a split with the separator gives the text back.
pub proof fn lemma_join_split(s: Seq<char>, d: char)
    ensures
        join_seq(split_on(s, d), seq![d]) == s,
    decreases s.len(),
{
    if s.len() == 0 {
        assert(s =~= Seq::<char>::empty());
    } else {
        let p = split_on(s.drop_last(), d);
        lemma_join_split(s.drop_last(), d);
        lemma_split_nonempty(s.drop_last(), d);
        let c = s.last();
        if c == d {
            let q = p.push(Seq::<char>::empty());
            assert(q.drop_last() =~= p);
            assert(join_seq(q, seq![d]) =~= s);
        } else {
            let q = p.update(p.len() - 1, p.last().push(c));
            assert(s.drop_last().push(c) =~= s);
            if p.len() == 1 {
                assert(q.len() == 1);
                assert(join_seq(p, seq![d]) == p[0]);
                assert(q[0] == p[0].push(c));
                assert(join_seq(q, seq![d]) == q[0]);
            } else {
                assert(q.drop_last() =~= p.drop_last());
                assert(join_seq(q, seq![d]) =~= s);
            }
        }
    }
}

/// Splitting pieces that were joined at a separator they do not hold gives
/// the pieces back.
pub proof fn lemma_split_join(ts: Seq<Seq<char>>, d: char)
    requires
        ts.len() >= 1,
        forall|i: int| 0 <= i < ts.len() ==> free_of(#[trigger] ts[i], d),
    ensures
        split_on(join_seq(ts, seq![d]), d) == ts,
    decreases ts.len(),
{
    lemma_split_free(ts.last(), d);
    if ts.len() == 1 {
        assert(seq![ts[0]] =~= ts);
    } else {
        lemma_split_join(ts.drop_last(), d);
        lemma_split_concat(join_seq(ts.drop_last(), seq![d]), ts.last(), d);
        assert(ts.drop_last() + seq![ts.last()] =~= ts);
    }
}

proof fn lemma_digit_char(d: nat)
    requires
        d < 10,
    ensures
        is_digit(digit_char(d)),
        digit_value(digit_char(d)) == d,
{
    let ds = seq!['0', '1', '2', '3', '4', '5', '6', '7', '8', '9'];
    assert(digit_char(d) == ds[d as int]);
    if d == 0 {
    } else if d == 1 {
    } else if d == 2 {
    } else if d == 3 {
    } else if d == 4 {
    } else if d == 5 {
    } else if d == 6 {
    } else if d == 7 {
    } else if d == 8 {
    } else {
    }
}

/// The decimal text of a number is a non-empty run of digits that denotes it.
pub proof fn lemma_decimal(x: nat)
    ensures
        decimal(x).len() > 0,
        all_digits(decimal(x)),
        digits_value(decimal(x)) == x,
    decreases x,
{
    lemma_digit_char(x % 10);
    let s = decimal(x);
    if x >= 10 {
        lemma_decimal(x / 10);
        assert(s.drop_last() =~= decimal(x / 10));
        assert(s.last() == digit_char(x % 10));
        assert(digits_value(s) == digits_value(decimal(x / 10)) * 10 + digit_value(s.last()));
        assert((x / 10) * 10 + x % 10 == x);
        assert forall|i: int| 0 <= i < s.len() implies is_digit(#[trigger] s[i]) by {
            if i < s.len() - 1 {
                assert(s[i] == decimal(x / 10)[i]);
            }
        }
    } else {
        assert(s.drop_last() =~= Seq::<char>::empty());
        assert(x % 10 == x);
        assert(digits_value(s) == digits_value(s.drop_last()) * 10 + digit_value(s.last()));
        assert(digits_value(Seq::<char>::empty()) == 0);
    }
}

} // verus!
