//! Character-level helpers shared by the parsers and formatters: building
//! strings, comparing them, decimal numbers in both directions.
use vstd::prelude::*;

verus! {

/// The characters of each string in a list.
pub open spec fn texts(v: Seq<String>) -> Seq<Seq<char>> {
    v.map_values(|s: String| s@)
}

/// Pushing a string pushes its characters.
pub proof fn lemma_texts_push(v: Seq<String>, x: String)
    ensures
        texts(v.push(x)) == texts(v).push(x@),
{
    assert(texts(v.push(x)) =~= texts(v).push(x@));
}

/// `p` is a prefix of `s`.
pub open spec fn is_prefix(p: Seq<char>, s: Seq<char>) -> bool {
    p.len() <= s.len() && s.subrange(0, p.len() as int) == p
}

/// `p` is a suffix of `s`.
pub open spec fn is_suffix(p: Seq<char>, s: Seq<char>) -> bool {
    p.len() <= s.len() && s.subrange(s.len() - p.len(), s.len() as int) == p
}

/// `s` holds the character `c` somewhere.
pub open spec fn has_char(s: Seq<char>, c: char) -> bool {
    exists|i: int| 0 <= i < s.len() && s[i] == c
}

/// Appends one character to a string (`String::push`).
#[verifier::external_body]
pub fn push_char(s: &mut String, c: char)
    ensures
        final(s)@ == old(s)@.push(c),
{
    s.push(c);
}

/// The characters of a string, in order.
pub fn chars_of(s: &str) -> (res: Vec<char>)
    ensures
        res@ == s@,
{
    let mut res: Vec<char> = Vec::new();
    for c in it: s.chars()
        invariant
            res@ == it.seq().take(it.index() as int),
            it.seq() == s@,
    {
        res.push(c);
    }
    res
}

/// A string made of the given characters.
pub fn string_of(cs: &Vec<char>) -> (res: String)
    ensures
        res@ == cs@,
{
    let mut res = String::new();
    let mut i: usize = 0;
    while i < cs.len()
        invariant
            i <= cs.len(),
            res@ == cs@.take(i as int),
        decreases cs.len() - i,
    {
        push_char(&mut res, cs[i]);
        i = i + 1;
        assert(res@ == cs@.take(i as int));
    }
    assert(cs@.take(cs.len() as int) == cs@);
    res
}

/// A string made of the characters of `cs` from `from` (inclusive) to `to` (exclusive).
pub fn string_of_range(cs: &Vec<char>, from: usize, to: usize) -> (res: String)
    requires
        from <= to <= cs.len(),
    ensures
        res@ == cs@.subrange(from as int, to as int),
{
    let mut res = String::new();
    let mut i: usize = from;
    while i < to
        invariant
            from <= i <= to <= cs.len(),
            res@ == cs@.subrange(from as int, i as int),
        decreases to - i,
    {
        push_char(&mut res, cs[i]);
        i = i + 1;
        assert(res@ == cs@.subrange(from as int, i as int));
    }
    res
}

/// An owned copy of a string slice.
pub fn owned(s: &str) -> (res: String)
    ensures
        res@ == s@,
{
    s.to_owned()
}

/// Appends the characters of `t` to `s`.
pub fn push_str(s: &mut String, t: &str)
    ensures
        final(s)@ == old(s)@ + t@,
{
    let cs = chars_of(t);
    let mut i: usize = 0;
    while i < cs.len()
        invariant
            i <= cs.len(),
            cs@ == t@,
            s@ == old(s)@ + t@.take(i as int),
        decreases cs.len() - i,
    {
        push_char(s, cs[i]);
        i = i + 1;
        assert(s@ == old(s)@ + t@.take(i as int));
    }
    assert(t@.take(cs.len() as int) == t@);
}

/// Two strings hold the same characters.
pub fn str_eq(a: &str, b: &str) -> (res: bool)
    ensures
        res == (a@ == b@),
{
    let x = chars_of(a);
    let y = chars_of(b);
    seq_eq(&x, &y)
}

/// Two character vectors are equal.
pub fn seq_eq(x: &Vec<char>, y: &Vec<char>) -> (res: bool)
    ensures
        res == (x@ == y@),
{
    if x.len() != y.len() {
        return false;
    }
    let mut i: usize = 0;
    while i < x.len()
        invariant
            x.len() == y.len(),
            i <= x.len(),
            forall|j: int| 0 <= j < i ==> x@[j] == y@[j],
        decreases x.len() - i,
    {
        if x[i] != y[i] {
            return false;
        }
        i = i + 1;
    }
    assert(x@ =~= y@);
    true
}

/// `p` is a prefix of `s`, on character vectors.
pub fn vec_starts_with(s: &Vec<char>, p: &Vec<char>) -> (res: bool)
    ensures
        res == is_prefix(p@, s@),
{
    if p.len() > s.len() {
        return false;
    }
    let mut i: usize = 0;
    while i < p.len()
        invariant
            p.len() <= s.len(),
            i <= p.len(),
            forall|j: int| 0 <= j < i ==> s@[j] == p@[j],
        decreases p.len() - i,
    {
        if s[i] != p[i] {
            assert(s@.subrange(0, p.len() as int)[i as int] == s@[i as int]);
            return false;
        }
        i = i + 1;
    }
    assert(s@.subrange(0, p.len() as int) =~= p@);
    true
}

/// `p` is a prefix of `s` (`str::starts_with` with a string pattern).
pub fn starts_with(s: &str, p: &str) -> (res: bool)
    ensures
        res == is_prefix(p@, s@),
{
    let x = chars_of(s);
    let y = chars_of(p);
    vec_starts_with(&x, &y)
}

/// `s` holds the character `c` (`str::contains` with a char pattern).
pub fn contains_char(s: &str, c: char) -> (res: bool)
    ensures
        res == has_char(s@, c),
{
    let cs = chars_of(s);
    let mut i: usize = 0;
    while i < cs.len()
        invariant
            i <= cs.len(),
            cs@ == s@,
            forall|j: int| 0 <= j < i ==> cs@[j] != c,
        decreases cs.len() - i,
    {
        if cs[i] == c {
            return true;
        }
        i = i + 1;
    }
    false
}

/// The decimal digit for a value below ten.
pub open spec fn digit_char(d: nat) -> char {
    if d == 0 {
        '0'
    } else if d == 1 {
        '1'
    } else if d == 2 {
        '2'
    } else if d == 3 {
        '3'
    } else if d == 4 {
        '4'
    } else if d == 5 {
        '5'
    } else if d == 6 {
        '6'
    } else if d == 7 {
        '7'
    } else if d == 8 {
        '8'
    } else {
        '9'
    }
}

/// The decimal representation of `n`, without leading zeros (`"0"` for zero),
/// as `Display` writes an unsigned integer.
pub open spec fn decimal(n: nat) -> Seq<char>
    decreases n,
{
    if n < 10 {
        seq![digit_char(n)]
    } else {
        decimal(n / 10).push(digit_char(n % 10))
    }
}

fn digit_of(d: u64) -> (c: char)
    requires
        d < 10,
    ensures
        c == digit_char(d as nat),
{
    if d == 0 {
        '0'
    } else if d == 1 {
        '1'
    } else if d == 2 {
        '2'
    } else if d == 3 {
        '3'
    } else if d == 4 {
        '4'
    } else if d == 5 {
        '5'
    } else if d == 6 {
        '6'
    } else if d == 7 {
        '7'
    } else if d == 8 {
        '8'
    } else {
        '9'
    }
}

/// Appends the decimal representation of `n` to `s`.
pub fn push_decimal(s: &mut String, n: u64)
    ensures
        final(s)@ == old(s)@ + decimal(n as nat),
    decreases n,
{
    if n < 10 {
        push_char(s, digit_of(n));
        assert(decimal(n as nat) == seq![digit_char(n as nat)]);
    } else {
        push_decimal(s, n / 10);
        push_char(s, digit_of(n % 10));
        assert(old(s)@ + decimal(n as nat) =~= old(s)@ + decimal((n / 10) as nat) + seq![
            digit_char((n % 10) as nat),
        ]);
    }
}

/// The decimal representation of `n` (`n.to_string()`).
pub fn decimal_string(n: u64) -> (res: String)
    ensures
        res@ == decimal(n as nat),
{
    let mut s = String::new();
    push_decimal(&mut s, n);
    assert(Seq::<char>::empty() + decimal(n as nat) =~= decimal(n as nat));
    s
}

/// The value of an ASCII decimal digit.
pub open spec fn digit_value(c: char) -> nat {
    (c as int - '0' as int) as nat
}

/// `c` is an ASCII decimal digit.
pub open spec fn is_digit(c: char) -> bool {
    '0' <= c && c <= '9'
}

/// Every character of `s` is an ASCII decimal digit.
pub open spec fn all_digits(s: Seq<char>) -> bool {
    forall|i: int| 0 <= i < s.len() ==> is_digit(#[trigger] s[i])
}

/// The number that the digits of `s` spell in base ten.
pub open spec fn digits_value(s: Seq<char>) -> nat
    decreases s.len(),
{
    if s.len() == 0 {
        0
    } else {
        digits_value(s.drop_last()) * 10 + digit_value(s.last())
    }
}

/// What `str::parse` gives for an unsigned integer type whose largest value is
/// `max`: an optional `+`, then at least one decimal digit, and a value that fits.
pub open spec fn parse_unsigned(s: Seq<char>, max: nat) -> Option<nat> {
    let body = if s.len() > 0 && s[0] == '+' {
        s.drop_first()
    } else {
        s
    };
    if body.len() > 0 && all_digits(body) && digits_value(body) <= max {
        Some(digits_value(body))
    } else {
        None
    }
}

/// What `str::parse` gives for a signed integer type with range `min..=max`:
/// an optional `+` or `-`, then at least one decimal digit, and a value that fits.
pub open spec fn parse_signed(s: Seq<char>, min: int, max: int) -> Option<int> {
    if s.len() > 0 && s[0] == '-' {
        let body = s.drop_first();
        if body.len() > 0 && all_digits(body) && -digits_value(body) >= min {
            Some(-digits_value(body))
        } else {
            None
        }
    } else {
        let body = if s.len() > 0 && s[0] == '+' {
            s.drop_first()
        } else {
            s
        };
        if body.len() > 0 && all_digits(body) && digits_value(body) <= max {
            Some(digits_value(body) as int)
        } else {
            None
        }
    }
}

proof fn lemma_digits_value_take(s: Seq<char>, i: int)
    requires
        0 <= i < s.len(),
    ensures
        digits_value(s.take(i + 1)) == digits_value(s.take(i)) * 10 + digit_value(s[i]),
{
    assert(s.take(i + 1).drop_last() =~= s.take(i));
}

/// The value of the decimal digits `cs[from..]`, or `None` when one of them is
/// not a digit, the range is empty, or the value passes `max`.
fn digits_up_to(cs: &Vec<char>, from: usize, max: u64) -> (res: Option<u64>)
    requires
        from <= cs.len(),
    ensures
        ({
            let body = cs@.subrange(from as int, cs.len() as int);
            match res {
                Some(v) => body.len() > 0 && all_digits(body) && digits_value(body) == v
                    && v <= max,
                None => !(body.len() > 0 && all_digits(body) && digits_value(body) <= max),
            }
        }),
{
    let ghost body = cs@.subrange(from as int, cs.len() as int);
    if from == cs.len() {
        return None;
    }
    let mut value: u64 = 0;
    let mut i: usize = from;
    while i < cs.len()
        invariant
            from <= i <= cs.len(),
            body == cs@.subrange(from as int, cs.len() as int),
            all_digits(body.take(i - from)),
            value == digits_value(body.take(i - from)),
            value <= max,
        decreases cs.len() - i,
    {
        let c = cs[i];
        if !('0' <= c && c <= '9') {
            assert(body[i - from] == c);
            return None;
        }
        let d = (c as u32 - '0' as u32) as u64;
        proof {
            lemma_digits_value_take(body, (i - from) as int);
            assert(body[i - from] == c);
        }
        if d > max || value > (max - d) / 10 {
            proof {
                assert(digits_value(body.take(i - from + 1)) > max) by (nonlinear_arith)
                    requires
                        d > max || value > (max - d) / 10,
                        digits_value(body.take(i - from + 1)) == value * 10 + d,
                        d <= 9,
                        value >= 0,
                ;
                if all_digits(body) {
                    lemma_prefix_bound(body, (i - from + 1) as int);
                }
            }
            return None;
        }
        proof {
            assert(value * 10 + d <= max) by (nonlinear_arith)
                requires
                    value <= (max - d) / 10,
                    d <= 9,
                    d <= max,
            ;
        }
        value = value * 10 + d;
        i = i + 1;
        assert(all_digits(body.take(i - from)));
    }
    assert(body.take(i - from) =~= body);
    Some(value)
}

/// Extending an all-digit prefix never lowers its value.
proof fn lemma_prefix_bound(s: Seq<char>, k: int)
    requires
        0 <= k <= s.len(),
        all_digits(s),
    ensures
        digits_value(s.take(k)) <= digits_value(s),
    decreases s.len() - k,
{
    if k < s.len() {
        lemma_prefix_bound(s, k + 1);
        lemma_digits_value_take(s, k);
    } else {
        assert(s.take(k) =~= s);
    }
}

/// Parses an unsigned decimal number no larger than `max`, as `str::parse`
/// does for an unsigned integer type whose largest value is `max`.
pub fn parse_unsigned_max(s: &str, max: u64) -> (res: Option<u64>)
    ensures
        match parse_unsigned(s@, max as nat) {
            Some(v) => res == Some(v as u64),
            None => res is None,
        },
{
    let cs = chars_of(s);
    let from: usize = if cs.len() > 0 && cs[0] == '+' {
        1
    } else {
        0
    };
    let ghost body = if s@.len() > 0 && s@[0] == '+' {
        s@.drop_first()
    } else {
        s@
    };
    assert(cs@.subrange(from as int, cs.len() as int) =~= body);
    match digits_up_to(&cs, from, max) {
        Some(v) => Some(v),
        None => {
            proof {
                if body.len() > 0 && all_digits(body) && digits_value(body) <= max {
                    assert(false);
                }
            }
            None
        },
    }
}

/// `s.parse::<usize>()`, as an `Option`.
pub fn parse_usize(s: &str) -> (res: Option<usize>)
    ensures
        match parse_unsigned(s@, usize::MAX as nat) {
            Some(v) => res == Some(v as usize),
            None => res is None,
        },
{
    match parse_unsigned_max(s, usize::MAX as u64) {
        Some(v) => Some(v as usize),
        None => None,
    }
}

/// Parses a signed decimal number in `-(neg_max)..=pos_max`, as `str::parse`
/// does for a signed integer type of that range.
pub fn parse_signed_range(s: &str, neg_max: u64, pos_max: u64) -> (res: Option<(bool, u64)>)
    requires
        neg_max == pos_max + 1,
    ensures
        match parse_signed(s@, -(neg_max as int), pos_max as int) {
            Some(v) => match res {
                Some((neg, m)) => (if neg {
                    v == -(m as int)
                } else {
                    v == m as int
                }) && m <= neg_max,
                None => false,
            },
            None => res is None,
        },
{
    let cs = chars_of(s);
    if cs.len() > 0 && cs[0] == '-' {
        let ghost body = s@.drop_first();
        assert(cs@.subrange(1, cs.len() as int) =~= body);
        match digits_up_to(&cs, 1, neg_max) {
            Some(v) => Some((true, v)),
            None => None,
        }
    } else {
        let from: usize = if cs.len() > 0 && cs[0] == '+' {
            1
        } else {
            0
        };
        let ghost body = if s@.len() > 0 && s@[0] == '+' {
            s@.drop_first()
        } else {
            s@
        };
        assert(cs@.subrange(from as int, cs.len() as int) =~= body);
        match digits_up_to(&cs, from, pos_max) {
            Some(v) => Some((false, v)),
            None => None,
        }
    }
}

/// `s.parse::<isize>()`, as an `Option`.
pub fn parse_isize(s: &str) -> (res: Option<isize>)
    ensures
        match parse_signed(s@, isize::MIN as int, isize::MAX as int) {
            Some(v) => res == Some(v as isize),
            None => res is None,
        },
{
    match parse_signed_range(s, isize::MAX as u64 + 1, isize::MAX as u64) {
        Some((neg, v)) => {
            if neg {
                if v == isize::MAX as u64 + 1 {
                    Some(isize::MIN)
                } else {
                    Some(-(v as isize))
                }
            } else {
                Some(v as isize)
            }
        },
        None => None,
    }
}

/// `s.parse::<i16>()`, as an `Option`.
pub fn parse_i16(s: &str) -> (res: Option<i16>)
    ensures
        match parse_signed(s@, i16::MIN as int, i16::MAX as int) {
            Some(v) => res == Some(v as i16),
            None => res is None,
        },
{
    match parse_signed_range(s, 32768, 32767) {
        Some((neg, v)) => {
            if neg {
                if v == 32768 {
                    Some(i16::MIN)
                } else {
                    Some(-(v as i16))
                }
            } else {
                Some(v as i16)
            }
        },
        None => None,
    }
}

/// The first line of a text, as `str::lines` gives it: the text up to the
/// first newline, without a carriage return right before that newline; no
/// line at all for an empty text.
pub open spec fn first_line(s: Seq<char>) -> Option<Seq<char>> {
    if s.len() == 0 {
        None
    } else if has_char(s, '\n') {
        let i = choose|i: int| 0 <= i < s.len() && s[i] == '\n' && forall|j: int| 0 <= j < i ==> s[j] != '\n';
        if i > 0 && s[i - 1] == '\r' {
            Some(s.subrange(0, i - 1))
        } else {
            Some(s.subrange(0, i))
        }
    } else {
        Some(s)
    }
}

/// The first line of a text (`s.lines().next()`).
pub fn first_line_of(s: &str) -> (res: Option<String>)
    ensures
        match first_line(s@) {
            Some(l) => res is Some && res->0@ == l,
            None => res is None,
        },
{
    let cs = chars_of(s);
    if cs.len() == 0 {
        return None;
    }
    let mut i: usize = 0;
    while i < cs.len()
        invariant
            i <= cs.len(),
            cs@ == s@,
            forall|j: int| 0 <= j < i ==> cs@[j] != '\n',
        decreases cs.len() - i,
    {
        if cs[i] == '\n' {
            proof {
                let k = choose|k: int| 0 <= k < s@.len() && s@[k] == '\n' && forall|j: int| 0 <= j < k ==> s@[j] != '\n';
                if k < i {
                } else if k > i {
                }
                assert(k == i);
            }
            if i > 0 && cs[i - 1] == '\r' {
                return Some(string_of_range(&cs, 0, i - 1));
            } else {
                return Some(string_of_range(&cs, 0, i));
            }
        }
        i = i + 1;
    }
    assert(!has_char(s@, '\n'));
    assert(cs@.subrange(0, cs.len() as int) =~= cs@);
    Some(string_of_range(&cs, 0, cs.len()))
}

/// `char::is_whitespace`: the characters with the Unicode `White_Space` property.
pub open spec fn is_white_space(c: char) -> bool {
    ||| ('\t' <= c && c <= '\r')
    ||| c == ' '
    ||| c == '\u{85}'
    ||| c == '\u{a0}'
    ||| c == '\u{1680}'
    ||| ('\u{2000}' <= c && c <= '\u{200a}')
    ||| c == '\u{2028}'
    ||| c == '\u{2029}'
    ||| c == '\u{202f}'
    ||| c == '\u{205f}'
    ||| c == '\u{3000}'
}

fn white_space(c: char) -> (res: bool)
    ensures
        res == is_white_space(c),
{
    ('\t' <= c && c <= '\r') || c == ' ' || c == '\u{85}' || c == '\u{a0}' || c == '\u{1680}'
        || ('\u{2000}' <= c && c <= '\u{200a}') || c == '\u{2028}' || c == '\u{2029}' || c
        == '\u{202f}' || c == '\u{205f}' || c == '\u{3000}'
}

/// A text without the white space at its start and end (`str::trim`): the part
/// from `start` to `end`, where every character before `start` and from `end`
/// on is white space, and the characters at `start` and `end - 1` are not.
pub open spec fn trimmed(s: Seq<char>, start: int, end: int) -> bool {
    &&& 0 <= start <= end <= s.len()
    &&& forall|j: int| 0 <= j < start ==> is_white_space(#[trigger] s[j])
    &&& forall|j: int| end <= j < s.len() ==> is_white_space(#[trigger] s[j])
    &&& start < end ==> !is_white_space(s[start]) && !is_white_space(s[end - 1])
}

/// The text without leading and trailing white space.
pub open spec fn trim(s: Seq<char>) -> Seq<char> {
    let r = choose|r: (int, int)| trimmed(s, r.0, r.1);
    s.subrange(r.0, r.1)
}

proof fn lemma_trimmed_unique(s: Seq<char>, a: int, b: int, c: int, d: int)
    requires
        trimmed(s, a, b),
        trimmed(s, c, d),
    ensures
        s.subrange(a, b) == s.subrange(c, d),
{
    if a < b && c < d {
        if a < c {
            assert(is_white_space(s[a]));
        }
        if c < a {
            assert(is_white_space(s[c]));
        }
        if b < d {
            assert(is_white_space(s[d - 1]));
        }
        if d < b {
            assert(is_white_space(s[b - 1]));
        }
    } else if a < b {
        if c <= a {
            assert(is_white_space(s[a]));
        } else {
            assert(is_white_space(s[a]));
        }
    } else if c < d {
        if a <= c {
            assert(is_white_space(s[c]));
        } else {
            assert(is_white_space(s[c]));
        }
    }
    assert(s.subrange(a, b) =~= s.subrange(c, d));
}

/// The text without leading and trailing white space (`s.trim()`).
pub fn trim_of(s: &str) -> (res: String)
    ensures
        res@ == trim(s@),
{
    let cs = chars_of(s);
    let mut start: usize = 0;
    while start < cs.len() && white_space(cs[start])
        invariant
            start <= cs.len(),
            cs@ == s@,
            forall|j: int| 0 <= j < start ==> is_white_space(#[trigger] cs@[j]),
        decreases cs.len() - start,
    {
        start = start + 1;
    }
    let mut end: usize = cs.len();
    while end > start && white_space(cs[end - 1])
        invariant
            start <= end <= cs.len(),
            cs@ == s@,
            forall|j: int| end <= j < cs.len() ==> is_white_space(#[trigger] cs@[j]),
        decreases end,
    {
        end = end - 1;
    }
    proof {
        if start == cs.len() {
            assert(end == start);
        }
        assert(trimmed(s@, start as int, end as int));
        let w = (start as int, end as int);
        assert(trimmed(s@, w.0, w.1));
        let r = choose|r: (int, int)| trimmed(s@, r.0, r.1);
        lemma_trimmed_unique(s@, start as int, end as int, r.0, r.1);
    }
    string_of_range(&cs, start, end)
}

/// `a` comes before `b` in the order of `String`'s `Ord`: the first character
/// where they differ is smaller in `a`, or `a` is a proper prefix of `b`.
pub open spec fn text_lt(a: Seq<char>, b: Seq<char>) -> bool
    decreases a.len(),
{
    if a.len() == 0 {
        b.len() > 0
    } else if b.len() == 0 {
        false
    } else if (a[0] as int) < (b[0] as int) {
        true
    } else if a[0] == b[0] {
        text_lt(a.drop_first(), b.drop_first())
    } else {
        false
    }
}

/// The order on texts never puts a text before itself.
pub proof fn lemma_text_lt_irreflexive(a: Seq<char>)
    ensures
        !text_lt(a, a),
    decreases a.len(),
{
    if a.len() > 0 {
        lemma_text_lt_irreflexive(a.drop_first());
    }
}

/// The order on texts is transitive.
pub proof fn lemma_text_lt_transitive(a: Seq<char>, b: Seq<char>, c: Seq<char>)
    requires
        text_lt(a, b),
        text_lt(b, c),
    ensures
        text_lt(a, c),
    decreases a.len(),
{
    if a.len() > 0 && b.len() > 0 && c.len() > 0 && a[0] == b[0] && b[0] == c[0] {
        lemma_text_lt_transitive(a.drop_first(), b.drop_first(), c.drop_first());
    }
}

/// Two different texts are ordered one way or the other.
pub proof fn lemma_text_lt_total(a: Seq<char>, b: Seq<char>)
    requires
        a != b,
    ensures
        text_lt(a, b) || text_lt(b, a),
    decreases a.len(),
{
    if a.len() > 0 && b.len() > 0 && a[0] == b[0] {
        if a.drop_first() == b.drop_first() {
            assert(a =~= seq![a[0]] + a.drop_first());
            assert(b =~= seq![b[0]] + b.drop_first());
        }
        lemma_text_lt_total(a.drop_first(), b.drop_first());
    } else if a.len() > 0 && b.len() > 0 {
        assert((a[0] as int) != (b[0] as int));
    } else if a.len() == 0 && b.len() == 0 {
        assert(a =~= b);
    }
}

/// `a` comes before `b` (`a < b` on strings).
pub fn vec_text_lt(a: &Vec<char>, b: &Vec<char>) -> (res: bool)
    ensures
        res == text_lt(a@, b@),
{
    let mut i: usize = 0;
    proof {
        assert(a@.skip(0) =~= a@);
        assert(b@.skip(0) =~= b@);
    }
    while i < a.len() && i < b.len() && a[i] == b[i]
        invariant
            i <= a.len(),
            i <= b.len(),
            text_lt(a@, b@) == text_lt(a@.skip(i as int), b@.skip(i as int)),
        decreases a.len() - i,
    {
        proof {
            assert(a@.skip(i as int).drop_first() =~= a@.skip(i + 1));
            assert(b@.skip(i as int).drop_first() =~= b@.skip(i + 1));
        }
        i = i + 1;
    }
    proof {
        assert(a@.skip(0) =~= a@);
        assert(b@.skip(0) =~= b@);
    }
    proof {
        if i < a.len() {
            assert(a@.skip(i as int)[0] == a@[i as int]);
        }
        if i < b.len() {
            assert(b@.skip(i as int)[0] == b@[i as int]);
        }
    }
    if i == a.len() {
        i < b.len()
    } else if i == b.len() {
        false
    } else {
        a[i] < b[i]
    }
}

/// The parts with the separator between each two (`join` on a list of strings).
pub open spec fn join(parts: Seq<Seq<char>>, sep: Seq<char>) -> Seq<char>
    decreases parts.len(),
{
    if parts.len() == 0 {
        Seq::empty()
    } else if parts.len() == 1 {
        parts[0]
    } else {
        join(parts.drop_last(), sep) + sep + parts.last()
    }
}

/// The strings with the separator between each two.
pub fn join_strings(parts: &[String], sep: &str) -> (res: String)
    ensures
        res@ == join(texts(parts@), sep@),
{
    let ghost all = texts(parts@);
    let mut res = String::new();
    let mut i: usize = 0;
    while i < parts.len()
        invariant
            i <= parts.len(),
            all == texts(parts@),
            res@ == join(all.take(i as int), sep@),
        decreases parts.len() - i,
    {
        assert(all.take(i + 1).drop_last() =~= all.take(i as int));
        assert(all.take(i + 1).last() == parts@[i as int]@);
        if i > 0 {
            push_str(&mut res, sep);
        } else {
            assert(res@ =~= Seq::<char>::empty());
        }
        push_str(&mut res, parts[i].as_str());
        i = i + 1;
        if i == 1 {
            assert(res@ =~= join(all.take(1), sep@));
        }
    }
    assert(all.take(parts.len() as int) =~= all);
    res
}

/// How `{:?}` writes a string: in double quotes, with escapes.
pub uninterp spec fn debug_text(s: Seq<char>) -> Seq<char>;

/// `<str as Debug>::fmt`, as `format!("{:?}", s)` writes it.
#[verifier::external_body]
pub fn debug_quoted(s: &str) -> (res: String)
    ensures
        res@ == debug_text(s@),
{
    format!("{:?}", s)
}

/// The text with each single quote `'` written as `'\''`.
pub open spec fn escape_single_quotes(s: Seq<char>) -> Seq<char>
    decreases s.len(),
{
    if s.len() == 0 {
        Seq::empty()
    } else if s.last() == '\'' {
        escape_single_quotes(s.drop_last()) + seq!['\'', '\\', '\'', '\'']
    } else {
        escape_single_quotes(s.drop_last()).push(s.last())
    }
}

/// A character that a Unix shell reads specially, so that a word holding it
/// must be quoted.
pub open spec fn is_shell_special(c: char) -> bool {
    c == '\n' || c == '\'' || c == '|' || c == '&' || c == ';' || c == '<' || c == '>' || c == '('
        || c == ')' || c == '$' || c == '`' || c == '\\' || c == '"' || c == ' ' || c == '\t' || c
        == '*' || c == '?' || c == '[' || c == '#' || c == '~' || c == '=' || c == '%'
}

/// The text as a single shell word: `''` for the empty text, the text itself
/// when nothing in it is special, else in single quotes with each single
/// quote inside written as `'\''`.
pub open spec fn shell_quoted(s: Seq<char>) -> Seq<char> {
    if s.len() == 0 {
        seq!['\'', '\'']
    } else if !(exists|i: int| 0 <= i < s.len() && is_shell_special(s[i])) {
        s
    } else {
        seq!['\''] + escape_single_quotes(s) + seq!['\'']
    }
}

/// `shell_words::quote`: the text quoted as one shell word.
#[verifier::external_body]
pub fn shell_quote(s: &str) -> (res: String)
    ensures
        res@ == shell_quoted(s@),
{
    shell_words::quote(s).into_owned()
}

/// The words of a command line as a Unix shell splits them, or `None` where
/// its quotes are not closed.
pub uninterp spec fn shell_words_of(s: Seq<char>) -> Option<Seq<Seq<char>>>;

/// `shell_words::split`: the words of the command line, or `None` on the
/// crate's parse error.
#[verifier::external_body]
pub fn shell_split(s: &str) -> (res: Option<Vec<String>>)
    ensures
        match res {
            Some(words) => shell_words_of(s@) == Some(texts(words@)),
            None => shell_words_of(s@) is None,
        },
{
    shell_words::split(s).ok()
}

/// The texts are in the order of [`text_lt`], equal ones side by side.
pub open spec fn sorted_texts(v: Seq<Seq<char>>) -> bool {
    forall|i: int, j: int| 0 <= i < j < v.len() ==> !text_lt(#[trigger] v[j], #[trigger] v[i])
}

/// `s` holds the texts of `of`, sorted.
pub open spec fn is_sorted_arrangement(s: Seq<Seq<char>>, of: Seq<Seq<char>>) -> bool {
    sorted_texts(s) && s.to_multiset() == of.to_multiset()
}

/// The texts sorted (`sort` on a list of strings).
pub open spec fn sorted_of(v: Seq<Seq<char>>) -> Seq<Seq<char>> {
    choose|s: Seq<Seq<char>>| is_sorted_arrangement(s, v)
}

/// Two texts that are not in either order are equal.
proof fn lemma_text_le_antisymmetric(a: Seq<char>, b: Seq<char>)
    requires
        !text_lt(a, b),
        !text_lt(b, a),
    ensures
        a == b,
{
    if a != b {
        lemma_text_lt_total(a, b);
    }
}

/// The first text of a sorted list is at most any text of the list.
proof fn lemma_sorted_first_least(s: Seq<Seq<char>>, x: Seq<char>)
    requires
        sorted_texts(s),
        s.contains(x),
    ensures
        !text_lt(x, s[0]),
{
    let k = choose|k: int| 0 <= k < s.len() && s[k] == x;
    if k > 0 {
        assert(!text_lt(s[k], s[0]));
    } else {
        lemma_text_lt_irreflexive(x);
    }
}

/// A list of texts has one sorted arrangement only.
pub proof fn lemma_sorted_arrangement_unique(a: Seq<Seq<char>>, b: Seq<Seq<char>>)
    requires
        sorted_texts(a),
        sorted_texts(b),
        a.to_multiset() == b.to_multiset(),
    ensures
        a == b,
    decreases a.len(),
{
    broadcast use vstd::seq_lib::group_to_multiset_ensures;

    assert(a.len() == a.to_multiset().len());
    assert(b.len() == b.to_multiset().len());
    if a.len() > 0 {
        assert(a.to_multiset().contains(a[0]));
        assert(b.to_multiset().contains(b[0]));
        assert(b.contains(a[0]));
        assert(a.contains(b[0]));
        lemma_sorted_first_least(b, a[0]);
        lemma_sorted_first_least(a, b[0]);
        lemma_text_le_antisymmetric(a[0], b[0]);
        assert(a.remove(0) =~= a.drop_first());
        assert(b.remove(0) =~= b.drop_first());
        assert(a.drop_first().to_multiset() == b.drop_first().to_multiset());
        lemma_sorted_arrangement_unique(a.drop_first(), b.drop_first());
        assert(a =~= seq![a[0]] + a.drop_first());
        assert(b =~= seq![b[0]] + b.drop_first());
    } else {
        assert(a =~= b);
    }
}

/// A sorted arrangement is the one that [`sorted_of`] names.
pub proof fn lemma_sorted_of(s: Seq<Seq<char>>, of: Seq<Seq<char>>)
    requires
        is_sorted_arrangement(s, of),
    ensures
        sorted_of(of) == s,
{
    let t = sorted_of(of);
    assert(is_sorted_arrangement(t, of));
    lemma_sorted_arrangement_unique(s, t);
}

/// The strings sorted by `String`'s order (see [`sorted_of`]).
pub fn sort_strings(v: Vec<String>) -> (res: Vec<String>)
    ensures
        texts(res@) == sorted_of(texts(v@)),
{
    broadcast use vstd::seq_lib::group_to_multiset_ensures;

    let ghost all = texts(v@);
    let mut out: Vec<String> = Vec::new();
    let mut i: usize = 0;
    assert(all.take(0) =~= Seq::<Seq<char>>::empty());
    assert(texts(out@) =~= Seq::<Seq<char>>::empty());
    while i < v.len()
        invariant
            i <= v.len(),
            all == texts(v@),
            is_sorted_arrangement(texts(out@), all.take(i as int)),
        decreases v.len() - i,
    {
        let ghost o = texts(out@);
        let x = chars_of(v[i].as_str());
        let mut k: usize = 0;
        let mut stop = false;
        while k < out.len() && !stop
            invariant
                k <= out.len(),
                i < v.len(),
                all.len() == v.len(),
                o == texts(out@),
                x@ == all[i as int],
                forall|j: int| 0 <= j < k ==> !text_lt(x@, #[trigger] o[j]),
                stop ==> k < out.len() && text_lt(x@, o[k as int]),
            decreases out.len() - k + (if stop { 0int } else { 1int }),
        {
            let y = chars_of(out[k].as_str());
            assert(y@ == o[k as int]);
            if vec_text_lt(&x, &y) {
                stop = true;
            } else {
                k = k + 1;
            }
        }
        let ghost at_end = !stop;
        let item = string_of(&x);
        out.insert(k, item);
        proof {
            let n = texts(out@);
            assert(n =~= o.insert(k as int, x@));
            assert(all.take(i + 1) =~= all.take(i as int).push(x@));
            vstd::seq_lib::to_multiset_insert(o, k as int, x@);
            vstd::seq_lib::to_multiset_build(all.take(i as int), x@);
            assert(n.to_multiset() == o.to_multiset().insert(x@));
            assert(all.take(i + 1).to_multiset() == all.take(i as int).to_multiset().insert(x@));
            assert forall|a: int, b: int| 0 <= a < b < n.len() implies !text_lt(#[trigger] n[b], #[trigger] n[a]) by {
                if b < k {
                    assert(n[a] == o[a] && n[b] == o[b]);
                } else if b == k {
                    assert(n[a] == o[a]);
                    assert(!text_lt(x@, o[a]));
                } else if a == k {
                    let ob = o[b - 1];
                    assert(n[b] == ob);
                    if !at_end {
                        if text_lt(ob, x@) {
                            assert(text_lt(x@, o[k as int]));
                            if k < b - 1 {
                                assert(!text_lt(o[b - 1], o[k as int]));
                                if o[b - 1] != o[k as int] {
                                    lemma_text_lt_total(o[b - 1], o[k as int]);
                                    lemma_text_lt_transitive(x@, o[k as int], o[b - 1]);
                                    lemma_text_lt_transitive(o[b - 1], x@, o[b - 1]);
                                    lemma_text_lt_irreflexive(o[b - 1]);
                                } else {
                                    lemma_text_lt_transitive(ob, x@, ob);
                                    lemma_text_lt_irreflexive(ob);
                                }
                            } else {
                                lemma_text_lt_transitive(ob, x@, ob);
                                lemma_text_lt_irreflexive(ob);
                            }
                        }
                    }
                } else if a < k {
                    assert(n[a] == o[a] && n[b] == o[b - 1]);
                    assert(!text_lt(o[b - 1], o[a]));
                } else {
                    assert(n[a] == o[a - 1] && n[b] == o[b - 1]);
                    assert(!text_lt(o[b - 1], o[a - 1]));
                }
            }
            assert(sorted_texts(n));
            assert(is_sorted_arrangement(n, all.take(i + 1)));
        }
        i = i + 1;
    }
    assert(all.take(v.len() as int) =~= all);
    proof {
        lemma_sorted_of(texts(out@), all);
    }
    out
}

} // verus!
