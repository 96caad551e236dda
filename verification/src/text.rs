use vstd::prelude::*;

verus! {

broadcast use vstd::seq_lib::group_seq_properties;

// -------------------------------------------------------------------
// Characters
// -------------------------------------------------------------------
/// The characters with the Unicode `White_Space` property, the ones that
/// `str::trim` removes.
pub open spec fn is_whitespace(c: char) -> bool {
    let u = c as u32;
    ||| 0x09 <= u <= 0x0d
    ||| u == 0x20
    ||| u == 0x85
    ||| u == 0xa0
    ||| u == 0x1680
    ||| 0x2000 <= u <= 0x200a
    ||| u == 0x2028
    ||| u == 0x2029
    ||| u == 0x202f
    ||| u == 0x205f
    ||| u == 0x3000
}

fn char_is_whitespace(c: char) -> (r: bool)
    ensures
        r == is_whitespace(c),
{
    let u = c as u32;
    (0x09 <= u && u <= 0x0d) || u == 0x20 || u == 0x85 || u == 0xa0 || u == 0x1680 || (0x2000
        <= u && u <= 0x200a) || u == 0x2028 || u == 0x2029 || u == 0x202f || u == 0x205f || u
        == 0x3000
}

/// `c` with an ASCII upper-case letter turned into lower case.
pub open spec fn ascii_lower(c: char) -> char {
    if 'A' <= c <= 'Z' {
        ((c as u32) + 32) as char
    } else {
        c
    }
}

fn char_ascii_lower(c: char) -> (r: char)
    ensures
        r == ascii_lower(c),
{
    if 'A' <= c && c <= 'Z' {
        ((c as u8) + 32) as char
    } else {
        c
    }
}

pub open spec fn is_digit(c: char) -> bool {
    '0' <= c <= '9'
}

pub open spec fn digit_value(c: char) -> nat {
    (c as u32 - '0' as u32) as nat
}

// -------------------------------------------------------------------
// Trimming, comparing, splitting
// -------------------------------------------------------------------
/// `s` without its leading white space.
pub open spec fn trim_start(s: Seq<char>) -> Seq<char>
    decreases s.len(),
{
    if s.len() > 0 && is_whitespace(s[0]) {
        trim_start(s.drop_first())
    } else {
        s
    }
}

/// `s` without its trailing white space.
pub open spec fn trim_end(s: Seq<char>) -> Seq<char>
    decreases s.len(),
{
    if s.len() > 0 && is_whitespace(s.last()) {
        trim_end(s.drop_last())
    } else {
        s
    }
}

/// `s` without leading and trailing white space, as `str::trim` gives it.
pub open spec fn trim(s: Seq<char>) -> Seq<char> {
    trim_end(trim_start(s))
}

/// `a` and `b` are equal once ASCII letters are lower-cased, as
/// `str::eq_ignore_ascii_case` decides.
pub open spec fn eq_ignore_ascii_case(a: Seq<char>, b: Seq<char>) -> bool {
    &&& a.len() == b.len()
    &&& forall|i: int| 0 <= i < a.len() ==> ascii_lower(#[trigger] a[i]) == ascii_lower(b[i])
}

/// The characters of `s`.
pub fn chars_of(s: &str) -> (r: Vec<char>)
    ensures
        r@ == s@,
{
    let mut r: Vec<char> = Vec::new();
    for c in it: s.chars()
        invariant
            it.seq() == s@,
            r@ == s@.take(it.index()),
    {
        proof {
            assert(s@.take(it.index() + 1) == s@.take(it.index()).push(c));
        }
        r.push(c);
    }
    proof {
        assert(s@.take(s@.len() as int) == s@);
    }
    r
}

proof fn lemma_trim_start_skip(s: Seq<char>, i: int)
    requires
        0 <= i <= s.len(),
        forall|j: int| 0 <= j < i ==> is_whitespace(#[trigger] s[j]),
    ensures
        trim_start(s) == trim_start(s.skip(i)),
    decreases i,
{
    if i > 0 {
        assert(s.skip(1) == s.drop_first());
        lemma_trim_start_skip(s.drop_first(), i - 1);
        assert(s.drop_first().skip(i - 1) == s.skip(i));
    } else {
        assert(s.skip(0) == s);
    }
}

proof fn lemma_trim_end_take(s: Seq<char>, i: int)
    requires
        0 <= i <= s.len(),
        forall|j: int| i <= j < s.len() ==> is_whitespace(#[trigger] s[j]),
    ensures
        trim_end(s) == trim_end(s.take(i)),
    decreases s.len() - i,
{
    if i < s.len() {
        assert(s.take(s.len() - 1) == s.drop_last());
        lemma_trim_end_take(s.drop_last(), i);
        assert(s.drop_last().take(i) == s.take(i));
    } else {
        assert(s.take(i) == s);
    }
}

/// Bounds `(start, end)` such that `trim(v) == v[start..end]`.
pub fn trim_bounds(v: &Vec<char>) -> (r: (usize, usize))
    ensures
        r.0 <= r.1 <= v@.len(),
        trim(v@) == v@.subrange(r.0 as int, r.1 as int),
{
    let mut start: usize = 0;
    while start < v.len() && char_is_whitespace(v[start])
        invariant
            start <= v@.len(),
            forall|j: int| 0 <= j < start ==> is_whitespace(#[trigger] v@[j]),
        decreases v@.len() - start,
    {
        start = start + 1;
    }
    proof {
        lemma_trim_start_skip(v@, start as int);
        assert(trim_start(v@.skip(start as int)) == v@.skip(start as int));
    }
    let mut end: usize = v.len();
    while end > start && char_is_whitespace(v[end - 1])
        invariant
            start <= end <= v@.len(),
            forall|j: int| end <= j < v@.len() ==> is_whitespace(#[trigger] v@[j]),
        decreases end,
    {
        end = end - 1;
    }
    proof {
        let t = v@.skip(start as int);
        assert forall|j: int| end - start <= j < t.len() implies is_whitespace(#[trigger] t[j]) by {
            assert(t[j] == v@[start + j]);
        }
        lemma_trim_end_take(t, end - start);
        let u = t.take(end - start);
        assert(u == v@.subrange(start as int, end as int));
        if u.len() > 0 {
            assert(u.last() == v@[end - 1]);
        }
        assert(trim_end(u) == u);
    }
    (start, end)
}

/// `trim(s)` as a `&str` of `s`.
pub fn trim_str(s: &str) -> (r: &str)
    ensures
        r@ == trim(s@),
{
    let v = chars_of(s);
    let (start, end) = trim_bounds(&v);
    s.substring_char(start, end)
}

/// Compares `a[from..to]` with `b` ignoring the case of ASCII letters.
pub fn eq_ignore_case_at(a: &Vec<char>, from: usize, to: usize, b: &str) -> (r: bool)
    requires
        from <= to <= a@.len(),
    ensures
        r == eq_ignore_ascii_case(a@.subrange(from as int, to as int), b@),
{
    let bv = chars_of(b);
    if to - from != bv.len() {
        return false;
    }
    let mut i: usize = 0;
    while i < bv.len()
        invariant
            from <= to <= a@.len(),
            to - from == bv@.len(),
            bv@ == b@,
            0 <= i <= bv@.len(),
            forall|j: int| 0 <= j < i ==> ascii_lower(#[trigger] a@[from + j]) == ascii_lower(bv@[j]),
        decreases bv@.len() - i,
    {
        if char_ascii_lower(a[from + i]) != char_ascii_lower(bv[i]) {
            proof {
                let sub = a@.subrange(from as int, to as int);
                assert(sub[i as int] == a@[from + i]);
            }
            return false;
        }
        i = i + 1;
    }
    proof {
        let sub = a@.subrange(from as int, to as int);
        assert forall|j: int| 0 <= j < sub.len() implies ascii_lower(#[trigger] sub[j])
            == ascii_lower(b@[j]) by {
            assert(sub[j] == a@[from + j]);
        }
    }
    true
}

/// `p` is a prefix of `s`.
pub open spec fn starts_with(s: Seq<char>, p: Seq<char>) -> bool {
    p.len() <= s.len() && s.take(p.len() as int) == p
}

/// `prefix` is a prefix of `a[from..to]`.
pub fn has_prefix_at(a: &Vec<char>, from: usize, to: usize, prefix: &str) -> (r: bool)
    requires
        from <= to <= a@.len(),
    ensures
        r == starts_with(a@.subrange(from as int, to as int), prefix@),
{
    let p = chars_of(prefix);
    if p.len() > to - from {
        return false;
    }
    let mut i: usize = 0;
    while i < p.len()
        invariant
            from <= to <= a@.len(),
            p@.len() <= to - from,
            p@ == prefix@,
            0 <= i <= p@.len(),
            forall|j: int| 0 <= j < i ==> #[trigger] a@[from + j] == p@[j],
        decreases p@.len() - i,
    {
        if a[from + i] != p[i] {
            proof {
                let sub = a@.subrange(from as int, to as int);
                assert(sub.take(prefix@.len() as int)[i as int] == a@[from + i]);
            }
            return false;
        }
        i = i + 1;
    }
    proof {
        let sub = a@.subrange(from as int, to as int);
        assert forall|j: int| 0 <= j < prefix@.len() implies #[trigger] sub.take(
            prefix@.len() as int,
        )[j] == prefix@[j] by {
            assert(sub[j] == a@[from + j]);
        }
        assert(sub.take(prefix@.len() as int) =~= prefix@);
    }
    true
}

/// Position of the first `c` in `a[from..to]`, if any.
pub fn find_char(a: &Vec<char>, from: usize, to: usize, c: char) -> (r: Option<usize>)
    requires
        from <= to <= a@.len(),
    ensures
        match r {
            Some(i) => from <= i < to && a@[i as int] == c && forall|j: int|
                from <= j < i ==> a@[j] != c,
            None => forall|j: int| from <= j < to ==> a@[j] != c,
        },
{
    let mut i: usize = from;
    while i < to
        invariant
            from <= i <= to <= a@.len(),
            forall|j: int| from <= j < i ==> a@[j] != c,
        decreases to - i,
    {
        if a[i] == c {
            return Some(i);
        }
        i = i + 1;
    }
    None
}

// -------------------------------------------------------------------
// Decimal numbers
// -------------------------------------------------------------------
/// The value of the decimal digits `s` (most significant first).
pub open spec fn digits_value(s: Seq<char>) -> nat
    decreases s.len(),
{
    if s.len() == 0 {
        0
    } else {
        digits_value(s.drop_last()) * 10 + digit_value(s.last())
    }
}

pub open spec fn all_digits(s: Seq<char>) -> bool {
    forall|i: int| 0 <= i < s.len() ==> is_digit(#[trigger] s[i])
}

/// What `u64::from_str` (that is, `str::parse::<u64>`) gives for `s`: an
/// optional `+`, then one or more ASCII digits whose value fits in a `u64`.
pub open spec fn parse_u64_spec(s: Seq<char>) -> Option<u64> {
    let body = if s.len() > 0 && s[0] == '+' {
        s.drop_first()
    } else {
        s
    };
    if body.len() > 0 && all_digits(body) && digits_value(body) <= u64::MAX {
        Some(digits_value(body) as u64)
    } else {
        None
    }
}

/// What `i64::from_str` gives for `s`: an optional sign, then one or more
/// ASCII digits whose signed value fits in an `i64`.
pub open spec fn parse_i64_spec(s: Seq<char>) -> Option<i64> {
    let negative = s.len() > 0 && s[0] == '-';
    let body = if s.len() > 0 && (s[0] == '+' || s[0] == '-') {
        s.drop_first()
    } else {
        s
    };
    if body.len() > 0 && all_digits(body) {
        let v: int = if negative {
            -digits_value(body)
        } else {
            digits_value(body) as int
        };
        if i64::MIN <= v <= i64::MAX {
            Some(v as i64)
        } else {
            None
        }
    } else {
        None
    }
}

proof fn lemma_digits_value_grows(s: Seq<char>, i: int)
    requires
        0 <= i <= s.len(),
    ensures
        digits_value(s.take(i)) <= digits_value(s),
    decreases s.len() - i,
{
    if i < s.len() {
        lemma_digits_value_grows(s.drop_last(), i);
        assert(s.drop_last().take(i) == s.take(i));
        assert(s.take(s.len() as int) == s);
    } else {
        assert(s.take(i) == s);
    }
}

/// The value of the digits `a[from..to]` when it fits in a `u64`.
fn digits_to_u64(a: &Vec<char>, from: usize, to: usize) -> (r: Option<u64>)
    requires
        from <= to <= a@.len(),
        all_digits(a@.subrange(from as int, to as int)),
    ensures
        match r {
            Some(v) => v == digits_value(a@.subrange(from as int, to as int)),
            None => digits_value(a@.subrange(from as int, to as int)) > u64::MAX,
        },
{
    let ghost body = a@.subrange(from as int, to as int);
    let mut value: u64 = 0;
    let mut i: usize = from;
    while i < to
        invariant
            from <= i <= to <= a@.len(),
            body == a@.subrange(from as int, to as int),
            all_digits(body),
            value == digits_value(body.take(i - from)),
        decreases to - i,
    {
        let ghost k: int = i - from;
        proof {
            assert(body.take(k + 1).drop_last() == body.take(k));
            assert(body.take(k + 1).last() == a@[i as int]);
            assert(is_digit(body[k]));
        }
        let d = (a[i] as u32 - '0' as u32) as u64;
        let next = match value.checked_mul(10) {
            Some(m) => m.checked_add(d),
            None => None,
        };
        match next {
            Some(n) => {
                value = n;
            },
            None => {
                proof {
                    lemma_digits_value_grows(body, k + 1);
                }
                return None;
            },
        }
        i = i + 1;
    }
    proof {
        assert(body.take(to - from) == body);
    }
    Some(value)
}

/// All of `a[from..to]` are ASCII digits.
fn all_digits_at(a: &Vec<char>, from: usize, to: usize) -> (r: bool)
    requires
        from <= to <= a@.len(),
    ensures
        r == all_digits(a@.subrange(from as int, to as int)),
{
    let mut i: usize = from;
    while i < to
        invariant
            from <= i <= to <= a@.len(),
            forall|j: int| from <= j < i ==> is_digit(#[trigger] a@[j]),
        decreases to - i,
    {
        if !('0' <= a[i] && a[i] <= '9') {
            proof {
                assert(a@.subrange(from as int, to as int)[i - from] == a@[i as int]);
            }
            return false;
        }
        i = i + 1;
    }
    proof {
        let sub = a@.subrange(from as int, to as int);
        assert forall|j: int| 0 <= j < sub.len() implies is_digit(#[trigger] sub[j]) by {
            assert(sub[j] == a@[from + j]);
        }
    }
    true
}

/// Parses `a[from..to]` as `str::parse::<u64>` would.
pub fn parse_u64_at(a: &Vec<char>, from: usize, to: usize) -> (r: Option<u64>)
    requires
        from <= to <= a@.len(),
    ensures
        r == parse_u64_spec(a@.subrange(from as int, to as int)),
{
    let ghost s = a@.subrange(from as int, to as int);
    let start = if from < to && a[from] == '+' {
        from + 1
    } else {
        from
    };
    proof {
        if from < to && a@[from as int] == '+' {
            assert(s[0] == '+');
            assert(s.drop_first() == a@.subrange(start as int, to as int));
        } else {
            assert(s == a@.subrange(start as int, to as int));
        }
    }
    if start == to || !all_digits_at(a, start, to) {
        return None;
    }
    digits_to_u64(a, start, to)
}

/// Parses `s` as `str::parse::<u64>` would.
pub fn parse_u64(s: &str) -> (r: Option<u64>)
    ensures
        r == parse_u64_spec(s@),
{
    let v = chars_of(s);
    proof {
        assert(v@.subrange(0, v@.len() as int) == v@);
    }
    parse_u64_at(&v, 0, v.len())
}

/// Parses `a[from..to]` as `str::parse::<i64>` would.
pub fn parse_i64_at(a: &Vec<char>, from: usize, to: usize) -> (r: Option<i64>)
    requires
        from <= to <= a@.len(),
    ensures
        r == parse_i64_spec(a@.subrange(from as int, to as int)),
{
    let ghost s = a@.subrange(from as int, to as int);
    let negative = from < to && a[from] == '-';
    let start = if from < to && (a[from] == '+' || a[from] == '-') {
        from + 1
    } else {
        from
    };
    proof {
        if from < to && (a@[from as int] == '+' || a@[from as int] == '-') {
            assert(s[0] == a@[from as int]);
            assert(s.drop_first() == a@.subrange(start as int, to as int));
        } else {
            assert(s == a@.subrange(start as int, to as int));
        }
    }
    if start == to || !all_digits_at(a, start, to) {
        return None;
    }
    match digits_to_u64(a, start, to) {
        Some(v) => {
            if negative {
                if v <= 9223372036854775808u64 {
                    if v == 9223372036854775808u64 {
                        Some(i64::MIN)
                    } else {
                        Some(-(v as i64))
                    }
                } else {
                    None
                }
            } else {
                if v <= 9223372036854775807u64 {
                    Some(v as i64)
                } else {
                    None
                }
            }
        },
        None => None,
    }
}

/// The decimal digits of `n`, without leading zeros ("0" for zero).
pub open spec fn decimal(n: nat) -> Seq<char>
    decreases n,
{
    if n < 10 {
        seq![(n + '0' as nat) as char]
    } else {
        decimal(n / 10).push(((n % 10) + '0' as nat) as char)
    }
}

/// The decimal form of `n`, with a leading `-` when negative, as `Display`
/// writes an integer.
pub open spec fn signed_decimal(n: int) -> Seq<char> {
    if n < 0 {
        seq!['-'] + decimal((-n) as nat)
    } else {
        decimal(n as nat)
    }
}

/// Appends `c` to `s` (`String::push`).
#[verifier::external_body]
pub fn push_char(s: &mut String, c: char)
    ensures
        final(s)@ == old(s)@.push(c),
{
    s.push(c);
}

/// Appends the decimal form of `n` to `out`.
pub fn push_decimal(out: &mut String, n: u64)
    ensures
        final(out)@ == old(out)@ + decimal(n as nat),
    decreases n,
{
    if n < 10 {
        let c = ((n as u8) + 48u8) as char;
        push_char(out, c);
        proof {
            assert(decimal(n as nat) == seq![c]);
            assert(old(out)@.push(c) =~= old(out)@ + seq![c]);
        }
    } else {
        let ghost before = out@;
        push_decimal(out, n / 10);
        let c = (((n % 10) as u8) + 48u8) as char;
        push_char(out, c);
        proof {
            assert(decimal(n as nat) == decimal((n / 10) as nat).push(c));
            assert(out@ =~= before + decimal(n as nat));
        }
    }
}

/// Appends the signed decimal form of `n` to `out`.
pub fn push_signed_decimal(out: &mut String, n: i64)
    ensures
        final(out)@ == old(out)@ + signed_decimal(n as int),
{
    if n < 0 {
        push_char(out, '-');
        let magnitude: u64 = if n == i64::MIN {
            9223372036854775808u64
        } else {
            (-n) as u64
        };
        let ghost mid = out@;
        push_decimal(out, magnitude);
        proof {
            assert(out@ =~= old(out)@ + signed_decimal(n as int));
        }
    } else {
        push_decimal(out, n as u64);
    }
}

/// The decimal form of `n` as a `String`.
pub fn u64_to_string(n: u64) -> (r: String)
    ensures
        r@ == decimal(n as nat),
{
    let mut s = String::new();
    push_decimal(&mut s, n);
    proof {
        assert(s@ =~= decimal(n as nat));
    }
    s
}

/// `out` with `s` appended.
pub fn push_str(out: &mut String, s: &str)
    ensures
        final(out)@ == old(out)@ + s@,
{
    let v = chars_of(s);
    let mut i: usize = 0;
    while i < v.len()
        invariant
            0 <= i <= v@.len(),
            v@ == s@,
            out@ == old(out)@ + s@.take(i as int),
        decreases v@.len() - i,
    {
        push_char(out, v[i]);
        proof {
            assert(s@.take(i + 1) == s@.take(i as int).push(v@[i as int]));
            assert(out@ =~= old(out)@ + s@.take(i + 1));
        }
        i = i + 1;
    }
    proof {
        assert(s@.take(s@.len() as int) == s@);
    }
}

} // verus!
