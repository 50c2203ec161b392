use vstd::prelude::*;
use vstd::string::*;
use vstd::utf8::*;

verus! {

/// The pieces of `s` between occurrences of `sep`, from left to right.
/// There is always one more piece than there are separators.
pub open spec fn split_on(s: Seq<char>, sep: char) -> Seq<Seq<char>>
    decreases s.len(),
{
    if s.len() == 0 {
        seq![Seq::empty()]
    } else {
        let r = split_on(s.drop_last(), sep);
        if s.last() == sep {
            r.push(Seq::empty())
        } else {
            r.update(r.len() - 1, r.last().push(s.last()))
        }
    }
}

pub proof fn lemma_split_on_nonempty(s: Seq<char>, sep: char)
    ensures
        split_on(s, sep).len() >= 1,
    decreases s.len(),
{
    if s.len() > 0 {
        lemma_split_on_nonempty(s.drop_last(), sep);
    }
}

pub open spec fn views(v: Seq<String>) -> Seq<Seq<char>> {
    v.map_values(|p: String| p@)
}

/// Splits `s` at every occurrence of `sep`.
pub fn split(s: &str, sep: char) -> (r: Vec<String>)
    ensures
        views(r@) == split_on(s@, sep),
{
    let n = s.unicode_len();
    let mut parts: Vec<String> = Vec::new();
    let mut start: usize = 0;
    let mut i: usize = 0;
    assert(s@.subrange(0, 0) =~= Seq::<char>::empty());
    assert(views(parts@).push(s@.subrange(0, 0)) =~= seq![Seq::<char>::empty()]);
    while i < n
        invariant
            n == s@.len(),
            start <= i <= n,
            views(parts@).push(s@.subrange(start as int, i as int)) == split_on(
                s@.subrange(0, i as int),
                sep,
            ),
        decreases n - i,
    {
        let c = s.get_char(i);
        let ghost pre = s@.subrange(0, i as int);
        let ghost cur = s@.subrange(0, i + 1);
        assert(cur.drop_last() =~= pre);
        assert(cur.last() == c);
        proof {
            lemma_split_on_nonempty(pre, sep);
        }
        if c == sep {
            let piece = String::from_str(s.substring_char(start, i));
            parts.push(piece);
            start = i + 1;
            assert(views(parts@) =~= views(parts@).drop_last().push(piece@));
            assert(s@.subrange(start as int, (i + 1) as int) =~= Seq::<char>::empty());
        } else {
            let ghost old_views = views(parts@);
            assert(s@.subrange(start as int, (i + 1) as int) =~= s@.subrange(
                start as int,
                i as int,
            ).push(c));
            assert(old_views.push(s@.subrange(start as int, (i + 1) as int)) =~= split_on(
                pre,
                sep,
            ).update(split_on(pre, sep).len() - 1, split_on(pre, sep).last().push(c)));
        }
        i = i + 1;
    }
    let last = String::from_str(s.substring_char(start, n));
    parts.push(last);
    assert(s@.subrange(0, n as int) =~= s@);
    assert(views(parts@) =~= views(parts@.drop_last()).push(last@));
    parts
}

/// The position of the first `c` in `s`, or `s.len()` where there is none.
pub open spec fn first_pos(s: Seq<char>, c: char) -> int
    decreases s.len(),
{
    if s.len() == 0 {
        0
    } else if s[0] == c {
        0
    } else {
        1 + first_pos(s.drop_first(), c)
    }
}

pub proof fn lemma_first_pos_bounds(s: Seq<char>, c: char)
    ensures
        0 <= first_pos(s, c) <= s.len(),
        first_pos(s, c) < s.len() ==> s[first_pos(s, c)] == c,
    decreases s.len(),
{
    if s.len() > 0 && s[0] != c {
        lemma_first_pos_bounds(s.drop_first(), c);
    }
}

/// The part of a `key=value` pair before the first `=` (the whole text without one).
pub open spec fn pair_key(p: Seq<char>) -> Seq<char> {
    p.subrange(0, first_pos(p, '='))
}

/// The part of a `key=value` pair after the first `=` (empty without one).
pub open spec fn pair_value(p: Seq<char>) -> Seq<char> {
    if first_pos(p, '=') < p.len() {
        p.subrange(first_pos(p, '=') + 1, p.len() as int)
    } else {
        Seq::empty()
    }
}

/// Finds the first `c` in `s`.
pub fn find_char(s: &str, c: char) -> (r: usize)
    ensures
        r == first_pos(s@, c),
{
    let n = s.unicode_len();
    let mut i: usize = 0;
    assert(s@.subrange(0, n as int) =~= s@);
    while i < n
        invariant
            n == s@.len(),
            i <= n,
            first_pos(s@, c) == i + first_pos(s@.subrange(i as int, n as int), c),
        decreases n - i,
    {
        if s.get_char(i) == c {
            return i;
        }
        assert(s@.subrange(i as int, n as int).drop_first() =~= s@.subrange(i + 1, n as int));
        i = i + 1;
    }
    i
}

/// Splits a `key=value` pair at its first `=`.
pub fn split_pair(p: &str) -> (r: (String, String))
    ensures
        r.0@ == pair_key(p@),
        r.1@ == pair_value(p@),
{
    let n = p.unicode_len();
    let k = find_char(p, '=');
    proof {
        lemma_first_pos_bounds(p@, '=');
    }
    let key = String::from_str(p.substring_char(0, k));
    if k < n {
        (key, String::from_str(p.substring_char(k + 1, n)))
    } else {
        (key, String::new())
    }
}

/// The value of the first pair in `pairs` whose key is `key`.
pub open spec fn lookup(pairs: Seq<Seq<char>>, key: Seq<char>) -> Option<Seq<char>>
    decreases pairs.len(),
{
    if pairs.len() == 0 {
        None
    } else if pair_key(pairs[0]) == key {
        Some(pair_value(pairs[0]))
    } else {
        lookup(pairs.drop_first(), key)
    }
}

/// Looks `key` up among `key=value` pairs.
pub fn find_value(pairs: &Vec<String>, key: &str) -> (r: Option<String>)
    ensures
        r matches Some(v) ==> lookup(views(pairs@), key@) == Some(v@),
        r is None ==> lookup(views(pairs@), key@) is None,
{
    let mut i: usize = 0;
    assert(views(pairs@).subrange(0, pairs@.len() as int) =~= views(pairs@));
    while i < pairs.len()
        invariant
            i <= pairs@.len(),
            lookup(views(pairs@), key@) == lookup(
                views(pairs@).subrange(i as int, pairs@.len() as int),
                key@,
            ),
        decreases pairs@.len() - i,
    {
        let (k, v) = split_pair(pairs[i].as_str());
        let ghost rest = views(pairs@).subrange(i as int, pairs@.len() as int);
        assert(rest[0] == pairs@[i as int]@);
        if k.eq(&String::from_str(key)) {
            return Some(v);
        }
        assert(rest.drop_first() =~= views(pairs@).subrange(i + 1, pairs@.len() as int));
        i = i + 1;
    }
    None
}

pub open spec fn is_digit(c: char) -> bool {
    '0' <= c && c <= '9'
}

/// The number that the decimal digits `s` write.
pub open spec fn digits_value(s: Seq<char>) -> int
    decreases s.len(),
{
    if s.len() == 0 {
        0
    } else {
        digits_value(s.drop_last()) * 10 + (s.last() as int - '0' as int)
    }
}

/// `s` is a decimal number that fits in a `usize`.
pub open spec fn is_index(s: Seq<char>) -> bool {
    &&& s.len() > 0
    &&& forall|i: int| 0 <= i < s.len() ==> is_digit(#[trigger] s[i])
    &&& digits_value(s) <= usize::MAX
}

proof fn lemma_digits_value_nonneg(s: Seq<char>)
    requires
        forall|i: int| 0 <= i < s.len() ==> is_digit(#[trigger] s[i]),
    ensures
        digits_value(s) >= 0,
    decreases s.len(),
{
    if s.len() > 0 {
        lemma_digits_value_nonneg(s.drop_last());
    }
}

proof fn lemma_digits_value_grows(s: Seq<char>, t: Seq<char>)
    requires
        s.len() <= t.len(),
        s == t.subrange(0, s.len() as int),
        forall|i: int| 0 <= i < t.len() ==> is_digit(#[trigger] t[i]),
    ensures
        digits_value(s) <= digits_value(t),
    decreases t.len(),
{
    if s.len() < t.len() {
        let u = t.drop_last();
        assert(s == u.subrange(0, s.len() as int));
        lemma_digits_value_grows(s, u);
        lemma_digits_value_nonneg(u);
    } else {
        assert(s =~= t);
    }
}

/// Reads a decimal index: `None` unless `s` is digits only whose value fits in a `usize`.
pub fn parse_index(s: &str) -> (r: Option<usize>)
    ensures
        r is Some <==> is_index(s@),
        r matches Some(v) ==> v == digits_value(s@),
{
    let n = s.unicode_len();
    if n == 0 {
        return None;
    }
    let mut value: usize = 0;
    let mut i: usize = 0;
    while i < n
        invariant
            n == s@.len(),
            i <= n,
            forall|j: int| 0 <= j < i ==> is_digit(#[trigger] s@[j]),
            value == digits_value(s@.subrange(0, i as int)),
        decreases n - i,
    {
        let c = s.get_char(i);
        assert(s@.subrange(0, i + 1).drop_last() =~= s@.subrange(0, i as int));
        if !('0' <= c && c <= '9') {
            assert(!is_digit(s@[i as int]));
            return None;
        }
        let d = (c as u32 - '0' as u32) as usize;
        if value > (usize::MAX - d) / 10 {
            proof {
                assert(forall|j: int| 0 <= j < i + 1 ==> is_digit(#[trigger] s@[j]));
                assert(digits_value(s@.subrange(0, i + 1)) > usize::MAX) by (nonlinear_arith)
                    requires
                        value > (usize::MAX - d) / 10,
                        d <= 9,
                        digits_value(s@.subrange(0, i + 1)) == value * 10 + d,
                ;
                if forall|j: int| 0 <= j < s@.len() ==> is_digit(#[trigger] s@[j]) {
                    lemma_digits_value_grows(s@.subrange(0, i + 1), s@);
                }
            }
            return None;
        }
        assert(value * 10 + d <= usize::MAX) by (nonlinear_arith)
            requires
                value <= (usize::MAX - d) / 10,
                d <= 9,
        ;
        value = value * 10 + d;
        i = i + 1;
    }
    assert(s@.subrange(0, n as int) =~= s@);
    Some(value)
}

/// The character of the decimal digit `d`.
pub open spec fn digit_char(d: nat) -> char {
    (('0' as nat) + d) as char
}

/// The decimal writing of `n`, without leading zeros.
pub open spec fn decimal_text(n: nat) -> Seq<char>
    decreases n,
{
    if n < 10 {
        seq![digit_char(n)]
    } else {
        decimal_text(n / 10).push(digit_char(n % 10))
    }
}

fn digit_str(d: usize) -> (r: &'static str)
    requires
        d < 10,
    ensures
        r@ == seq![digit_char(d as nat)],
{
    proof {
        reveal_strlit("0");
        reveal_strlit("1");
        reveal_strlit("2");
        reveal_strlit("3");
        reveal_strlit("4");
        reveal_strlit("5");
        reveal_strlit("6");
        reveal_strlit("7");
        reveal_strlit("8");
        reveal_strlit("9");
    }
    let r = if d == 0 {
        "0"
    } else if d == 1 {
        "1"
    } else if d == 2 {
        "2"
    } else if d == 3 {
        "3"
    } else if d == 4 {
        "4"
    } else if d == 5 {
        "5"
    } else if d == 6 {
        "6"
    } else if d == 7 {
        "7"
    } else if d == 8 {
        "8"
    } else {
        "9"
    };
    assert(r@ =~= seq![digit_char(d as nat)]);
    r
}

/// Writes `n` in decimal.
pub fn decimal(n: usize) -> (r: String)
    ensures
        r@ == decimal_text(n as nat),
    decreases n,
{
    if n < 10 {
        String::from_str(digit_str(n))
    } else {
        let prefix = decimal(n / 10);
        let r = prefix.concat(digit_str(n % 10));
        assert(r@ =~= decimal_text(n as nat));
        r
    }
}

pub open spec fn is_hex(b: u8) -> bool {
    (48 <= b && b <= 57) || (65 <= b && b <= 70) || (97 <= b && b <= 102)
}

pub open spec fn hex_value(b: u8) -> int {
    if 48 <= b && b <= 57 {
        b - 48
    } else if 65 <= b && b <= 70 {
        b - 55
    } else {
        b - 87
    }
}

/// The bytes `b` with each `%` and two hex digits replaced by the byte they write,
/// and, where `plus` holds, each `+` by a space.
pub open spec fn unescaped(b: Seq<u8>, plus: bool) -> Seq<u8>
    decreases b.len(),
{
    if b.len() == 0 {
        Seq::empty()
    } else if b[0] == 37 && b.len() >= 3 && is_hex(b[1]) && is_hex(b[2]) {
        seq![(hex_value(b[1]) * 16 + hex_value(b[2])) as u8] + unescaped(
            b.subrange(3, b.len() as int),
            plus,
        )
    } else if plus && b[0] == 43 {
        seq![32u8] + unescaped(b.drop_first(), plus)
    } else {
        seq![b[0]] + unescaped(b.drop_first(), plus)
    }
}

/// The percent-decoded text of `s` (with `+` for a space where `plus` holds), or
/// `None` where the decoded bytes are not UTF-8.
pub open spec fn percent_decoded(s: Seq<char>, plus: bool) -> Option<Seq<char>> {
    let b = unescaped(encode_utf8(s), plus);
    if valid_utf8(b) {
        Some(decode_utf8(b))
    } else {
        None
    }
}

/// Relies on `String::from_utf8`: it accepts exactly the well-formed UTF-8 byte
/// sequences and keeps the characters they encode.
#[verifier::external_body]
fn utf8_text(bytes: Vec<u8>) -> (r: Option<String>)
    ensures
        r is Some <==> valid_utf8(bytes@),
        r matches Some(s) ==> s@ == decode_utf8(bytes@),
{
    String::from_utf8(bytes).ok()
}

fn hex_digit(b: u8) -> (r: Option<u8>)
    ensures
        r is Some <==> is_hex(b),
        r matches Some(v) ==> v == hex_value(b) && v < 16,
{
    if 48 <= b && b <= 57 {
        Some(b - 48)
    } else if 65 <= b && b <= 70 {
        Some(b - 55)
    } else if 97 <= b && b <= 102 {
        Some(b - 87)
    } else {
        None
    }
}

/// Percent-decodes `s`, reading `+` as a space where `plus` holds.
pub fn percent_decode(s: &str, plus: bool) -> (r: Option<String>)
    ensures
        r is Some <==> percent_decoded(s@, plus) is Some,
        r matches Some(t) ==> percent_decoded(s@, plus) == Some(t@),
{
    let b = s.as_bytes();
    let n = b.len();
    let mut out: Vec<u8> = Vec::new();
    let mut i: usize = 0;
    assert(b@.subrange(0, n as int) =~= b@);
    while i < n
        invariant
            n == b@.len(),
            i <= n,
            unescaped(b@, plus) == out@ + unescaped(b@.subrange(i as int, n as int), plus),
        decreases n - i,
    {
        let ghost rest = b@.subrange(i as int, n as int);
        let ghost prev = out@;
        assert(rest[0] == b@[i as int]);
        let mut step: usize = 1;
        let mut byte: u8 = b[i];
        if b[i] == 37 && n - i >= 3 {
            assert(rest[1] == b@[i + 1] && rest[2] == b@[i + 2]);
            match (hex_digit(b[i + 1]), hex_digit(b[i + 2])) {
                (Some(hi), Some(lo)) => {
                    byte = hi * 16 + lo;
                    step = 3;
                },
                _ => {},
            }
        }
        if step == 1 && plus && b[i] == 43 {
            byte = 32;
        }
        out.push(byte);
        assert(rest.subrange(step as int, rest.len() as int) =~= b@.subrange(i + step, n as int));
        assert(rest.drop_first() =~= b@.subrange(i + 1, n as int));
        assert(out@ =~= prev + seq![byte]);
        assert(unescaped(rest, plus) == seq![byte] + unescaped(
            b@.subrange(i + step, n as int),
            plus,
        ));
        assert(prev + unescaped(rest, plus) =~= out@ + unescaped(b@.subrange(i + step, n as int), plus));
        i = i + step;
    }
    assert(b@.subrange(n as int, n as int) =~= Seq::<u8>::empty());
    assert(unescaped(Seq::<u8>::empty(), plus) =~= Seq::<u8>::empty());
    assert(out@ + Seq::<u8>::empty() =~= out@);
    utf8_text(out)
}

} // verus!
