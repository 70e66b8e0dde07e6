//! Character-level helpers shared by the manifest, runtime and process logic.
//!
//! Strings are modelled by their view, a `Seq<char>`; the executable helpers
//! work on a `Vec<char>` copy of a string and on index ranges into it.
use vstd::prelude::*;

verus! {

/// `c` is an ASCII decimal digit.
pub open spec fn is_digit(c: char) -> bool {
    '0' <= c && c <= '9'
}

/// `c` is an ASCII letter.
pub open spec fn is_alpha(c: char) -> bool {
    ('a' <= c && c <= 'z') || ('A' <= c && c <= 'Z')
}

/// `c` is an ASCII letter or digit.
pub open spec fn is_alnum(c: char) -> bool {
    is_digit(c) || is_alpha(c)
}

/// `c` is an ASCII hexadecimal digit (either case).
pub open spec fn is_hex(c: char) -> bool {
    is_digit(c) || ('a' <= c && c <= 'f') || ('A' <= c && c <= 'F')
}

/// `c` has the Unicode `White_Space` property, the set that `char::is_whitespace`
/// and `str::trim` use.
pub open spec fn is_white(c: char) -> bool {
    ('\u{9}' <= c && c <= '\u{d}') || c == ' ' || c == '\u{85}' || c == '\u{a0}' || c
        == '\u{1680}' || ('\u{2000}' <= c && c <= '\u{200a}') || c == '\u{2028}' || c
        == '\u{2029}' || c == '\u{202f}' || c == '\u{205f}' || c == '\u{3000}'
}

/// Every character of `s` is white space, that is, `s.trim()` is empty.
pub open spec fn blank(s: Seq<char>) -> bool {
    forall|i: int| 0 <= i < s.len() ==> is_white(#[trigger] s[i])
}

/// All characters of `s` are ASCII digits (true of the empty sequence).
pub open spec fn all_digits(s: Seq<char>) -> bool {
    forall|i: int| 0 <= i < s.len() ==> is_digit(#[trigger] s[i])
}

/// `s` contains the character `c`.
pub open spec fn has_char(s: Seq<char>, c: char) -> bool {
    exists|i: int| 0 <= i < s.len() && s[i] == c
}

/// The numeric value of a string of decimal digits.
pub open spec fn digits_value(s: Seq<char>) -> nat
    decreases s.len(),
{
    if s.len() == 0 {
        0
    } else {
        digits_value(s.drop_last()) * 10 + ((s.last() as int) - ('0' as int)) as nat
    }
}

/// What `str::parse::<u64>` returns for `s`: an optional leading `+`, then at least
/// one ASCII digit, and a value that fits in a `u64`.
pub open spec fn parse_u64_spec(s: Seq<char>) -> Option<nat> {
    let d = if s.len() > 0 && s[0] == '+' {
        s.drop_first()
    } else {
        s
    };
    if d.len() > 0 && all_digits(d) && digits_value(d) <= u64::MAX {
        Some(digits_value(d))
    } else {
        None
    }
}

/// The pieces that `str::split(c)` yields for `s`: always at least one piece, and
/// one more for each occurrence of `c`.
pub open spec fn split_spec(s: Seq<char>, c: char) -> Seq<Seq<char>>
    decreases s.len(),
{
    if s.len() == 0 {
        seq![Seq::<char>::empty()]
    } else {
        let init = split_spec(s.drop_last(), c);
        if s.last() == c {
            init.push(Seq::<char>::empty())
        } else {
            init.update(init.len() - 1, init.last().push(s.last()))
        }
    }
}

/// Lexicographic comparison of two character sequences by code point, as
/// `str::cmp` orders strings: -1, 0 or 1.
pub open spec fn lex_order(a: Seq<char>, b: Seq<char>) -> int
    decreases a.len(),
{
    if a.len() == 0 && b.len() == 0 {
        0
    } else if a.len() == 0 {
        -1
    } else if b.len() == 0 {
        1
    } else if (a[0] as int) < (b[0] as int) {
        -1
    } else if (a[0] as int) > (b[0] as int) {
        1
    } else {
        lex_order(a.drop_first(), b.drop_first())
    }
}

/// The sign of an integer: -1, 0 or 1.
pub open spec fn sign(x: int) -> int {
    if x < 0 {
        -1
    } else if x > 0 {
        1
    } else {
        0
    }
}

pub proof fn lemma_split_nonempty(s: Seq<char>, c: char)
    ensures
        split_spec(s, c).len() >= 1,
    decreases s.len(),
{
    if s.len() > 0 {
        lemma_split_nonempty(s.drop_last(), c);
    }
}

/// The pieces of a split never contain the separator.
pub proof fn lemma_split_pieces_free(s: Seq<char>, c: char)
    ensures
        forall|k: int|
            0 <= k < split_spec(s, c).len() ==> !has_char(#[trigger] split_spec(s, c)[k], c),
    decreases s.len(),
{
    lemma_split_nonempty(s, c);
    if s.len() > 0 {
        lemma_split_pieces_free(s.drop_last(), c);
        lemma_split_nonempty(s.drop_last(), c);
        let init = split_spec(s.drop_last(), c);
        if s.last() != c {
            let last = init.last().push(s.last());
            assert(!has_char(init.last(), c));
            assert(!has_char(last, c)) by {
                if has_char(last, c) {
                    let i = choose|i: int| 0 <= i < last.len() && last[i] == c;
                    if i < init.last().len() {
                        assert(init.last()[i] == c);
                    }
                }
            }
        }
    }
}

pub proof fn lemma_lex_antisymmetric(a: Seq<char>, b: Seq<char>)
    ensures
        lex_order(a, b) == -lex_order(b, a),
        -1 <= lex_order(a, b) <= 1,
    decreases a.len(),
{
    if a.len() > 0 && b.len() > 0 && a[0] == b[0] {
        lemma_lex_antisymmetric(a.drop_first(), b.drop_first());
    }
}

pub proof fn lemma_lex_transitive(a: Seq<char>, b: Seq<char>, c: Seq<char>)
    requires
        lex_order(a, b) <= 0,
        lex_order(b, c) <= 0,
    ensures
        lex_order(a, c) <= 0,
        lex_order(a, b) < 0 || lex_order(b, c) < 0 ==> lex_order(a, c) < 0,
    decreases a.len(),
{
    if a.len() > 0 && b.len() > 0 && c.len() > 0 && a[0] == b[0] && b[0] == c[0] {
        lemma_lex_transitive(a.drop_first(), b.drop_first(), c.drop_first());
    }
}

pub proof fn lemma_lex_zero_equal(a: Seq<char>, b: Seq<char>)
    ensures
        lex_order(a, b) == 0 <==> a == b,
    decreases a.len(),
{
    if a.len() == 0 && b.len() == 0 {
        assert(a =~= b);
    } else if a.len() > 0 && b.len() > 0 && a[0] == b[0] {
        lemma_lex_zero_equal(a.drop_first(), b.drop_first());
        if a.drop_first() == b.drop_first() {
            assert(a =~= seq![a[0]] + a.drop_first());
            assert(b =~= seq![b[0]] + b.drop_first());
        } else {
            if a == b {
                assert(a.drop_first() == b.drop_first());
            }
        }
    } else {
        if a == b {
            assert(a[0] == b[0]);
        }
    }
}

/// The views of a list of strings.
pub open spec fn views(v: Seq<String>) -> Seq<Seq<char>> {
    v.map_values(|s: String| s@)
}

/// The parts written one after another with `sep` between neighbours.
pub open spec fn joined(parts: Seq<Seq<char>>, sep: Seq<char>) -> Seq<char>
    decreases parts.len(),
{
    if parts.len() == 0 {
        Seq::empty()
    } else if parts.len() == 1 {
        parts[0]
    } else {
        joined(parts.drop_last(), sep) + sep + parts.last()
    }
}

/// `parts.join(sep)`.
pub fn join_strings(parts: &Vec<String>, sep: &str) -> (res: String)
    ensures
        res@ == joined(views(parts@), sep@),
{
    let mut res = String::new();
    let mut i: usize = 0;
    while i < parts.len()
        invariant
            i <= parts.len(),
            res@ == joined(views(parts@.take(i as int)), sep@),
        decreases parts.len() - i,
    {
        let ghost before = views(parts@.take(i as int));
        assert(views(parts@.take(i + 1)) =~= before.push(parts@[i as int]@));
        assert(views(parts@.take(i + 1)).drop_last() =~= before);
        if i > 0 {
            res.append(sep);
        }
        res.append(parts[i].as_str());
        i = i + 1;
    }
    assert(parts@.take(parts.len() as int) =~= parts@);
    res
}

/// The decimal digit character for `d < 10`.
pub open spec fn digit_char(d: nat) -> char {
    seq!['0', '1', '2', '3', '4', '5', '6', '7', '8', '9'][d as int]
}

/// The decimal representation of `n`, without leading zeros.
pub open spec fn decimal(n: nat) -> Seq<char>
    decreases n,
{
    if n < 10 {
        seq![digit_char(n)]
    } else {
        decimal(n / 10).push(digit_char(n % 10))
    }
}

/// The digit character for `d < 10`.
fn digit_of(d: u64) -> (c: char)
    requires
        d < 10,
    ensures
        c == digit_char(d as nat),
{
    match d {
        0 => '0',
        1 => '1',
        2 => '2',
        3 => '3',
        4 => '4',
        5 => '5',
        6 => '6',
        7 => '7',
        8 => '8',
        _ => '9',
    }
}

/// `n.to_string()`.
pub fn decimal_string(n: u64) -> (res: String)
    ensures
        res@ == decimal(n as nat),
    decreases n,
{
    if n < 10 {
        let mut s = String::new();
        push_char(&mut s, digit_of(n));
        s
    } else {
        let mut s = decimal_string(n / 10);
        push_char(&mut s, digit_of(n % 10));
        s
    }
}

/// Copies the characters of `s` into a vector.
pub fn chars_of(s: &str) -> (v: Vec<char>)
    ensures
        v@ == s@,
{
    let mut v: Vec<char> = Vec::new();
    for c in iter: s.chars()
        invariant
            v@ == iter.seq().take(iter.index() as int),
            iter.seq() == s@,
    {
        v.push(c);
    }
    v
}

/// The two strings hold the same characters.
pub fn str_eq(a: &str, b: &str) -> (res: bool)
    ensures
        res == (a@ == b@),
{
    let x = chars_of(a);
    let y = chars_of(b);
    if x.len() != y.len() {
        return false;
    }
    let mut i: usize = 0;
    while i < x.len()
        invariant
            x.len() == y.len(),
            i <= x.len(),
            x@ == a@,
            y@ == b@,
            forall|k: int| 0 <= k < i ==> x@[k] == y@[k],
        decreases x.len() - i,
    {
        if x[i] != y[i] {
            return false;
        }
        i = i + 1;
    }
    assert(x@ =~= y@);
    true
}

/// `char::is_ascii_digit`.
pub fn digit(c: char) -> (res: bool)
    ensures
        res == is_digit(c),
{
    '0' <= c && c <= '9'
}

/// `u8::is_ascii_alphanumeric` on the character.
pub fn alnum(c: char) -> (res: bool)
    ensures
        res == is_alnum(c),
{
    ('0' <= c && c <= '9') || ('a' <= c && c <= 'z') || ('A' <= c && c <= 'Z')
}

/// `u8::is_ascii_hexdigit` on the character.
pub fn hex(c: char) -> (res: bool)
    ensures
        res == is_hex(c),
{
    ('0' <= c && c <= '9') || ('a' <= c && c <= 'f') || ('A' <= c && c <= 'F')
}

/// `char::is_whitespace`.
pub fn white(c: char) -> (res: bool)
    ensures
        res == is_white(c),
{
    ('\u{9}' <= c && c <= '\u{d}') || c == ' ' || c == '\u{85}' || c == '\u{a0}' || c
        == '\u{1680}' || ('\u{2000}' <= c && c <= '\u{200a}') || c == '\u{2028}' || c
        == '\u{2029}' || c == '\u{202f}' || c == '\u{205f}' || c == '\u{3000}'
}

/// `s.trim().is_empty()`: the string holds nothing but white space.
pub fn is_blank(s: &str) -> (res: bool)
    ensures
        res == blank(s@),
{
    let v = chars_of(s);
    let mut i: usize = 0;
    while i < v.len()
        invariant
            i <= v.len(),
            v@ == s@,
            forall|k: int| 0 <= k < i ==> is_white(#[trigger] v@[k]),
        decreases v.len() - i,
    {
        if !white(v[i]) {
            return false;
        }
        i = i + 1;
    }
    true
}

/// `s.contains(c)`.
pub fn contains_char(s: &str, c: char) -> (res: bool)
    ensures
        res == has_char(s@, c),
{
    let v = chars_of(s);
    let mut i: usize = 0;
    while i < v.len()
        invariant
            i <= v.len(),
            v@ == s@,
            forall|k: int| 0 <= k < i ==> v@[k] != c,
        decreases v.len() - i,
    {
        if v[i] == c {
            return true;
        }
        i = i + 1;
    }
    false
}

/// All characters of `v[lo..hi]` are ASCII digits.
pub fn range_all_digits(v: &Vec<char>, lo: usize, hi: usize) -> (res: bool)
    requires
        lo <= hi <= v.len(),
    ensures
        res == all_digits(v@.subrange(lo as int, hi as int)),
{
    let mut i = lo;
    while i < hi
        invariant
            lo <= i <= hi <= v.len(),
            forall|k: int| lo <= k < i ==> is_digit(#[trigger] v@[k]),
        decreases hi - i,
    {
        if !digit(v[i]) {
            assert(!is_digit(v@.subrange(lo as int, hi as int)[i - lo]));
            return false;
        }
        i = i + 1;
    }
    assert forall|k: int| 0 <= k < hi - lo implies is_digit(
        #[trigger] v@.subrange(lo as int, hi as int)[k],
    ) by {
        assert(v@.subrange(lo as int, hi as int)[k] == v@[lo + k]);
    }
    true
}

/// `s.parse::<u64>()` on the characters `v[lo..hi]`.
pub fn parse_u64(v: &Vec<char>, lo: usize, hi: usize) -> (res: Option<u64>)
    requires
        lo <= hi <= v.len(),
    ensures
        match parse_u64_spec(v@.subrange(lo as int, hi as int)) {
            Some(n) => res == Some(n as u64),
            None => res is None,
        },
{
    let ghost s = v@.subrange(lo as int, hi as int);
    let mut start = lo;
    if lo < hi && v[lo] == '+' {
        start = lo + 1;
    }
    let ghost d = v@.subrange(start as int, hi as int);
    assert(d == (if s.len() > 0 && s[0] == '+' {
        s.drop_first()
    } else {
        s
    }));
    if start == hi {
        return None;
    }
    let mut value: u64 = 0;
    let mut i = start;
    while i < hi
        invariant
            lo <= start < hi <= v.len(),
            start <= i <= hi,
            d == v@.subrange(start as int, hi as int),
            s == v@.subrange(lo as int, hi as int),
            d == (if s.len() > 0 && s[0] == '+' {
                s.drop_first()
            } else {
                s
            }),
            all_digits(v@.subrange(start as int, i as int)),
            value == digits_value(v@.subrange(start as int, i as int)),
        decreases hi - i,
    {
        let c = v[i];
        assert(v@.subrange(start as int, i + 1 as int).drop_last() =~= v@.subrange(
            start as int,
            i as int,
        ));
        if !digit(c) {
            assert(d[i - start] == c);
            return None;
        }
        let dv: u64 = (c as u64) - ('0' as u64);
        let ghost t = v@.subrange(start as int, i + 1 as int);
        proof {
            assert(t =~= d.take(i + 1 - start));
            assert(t.last() == c);
            assert(digits_value(t) == value * 10 + dv);
            assert(all_digits(t)) by {
                assert forall|k: int| 0 <= k < t.len() implies is_digit(#[trigger] t[k]) by {
                    if k < t.len() - 1 {
                        assert(t[k] == v@.subrange(start as int, i as int)[k]);
                    }
                }
            }
            lemma_digits_monotone(d, (i + 1 - start) as int);
        }
        let next = value.checked_mul(10);
        if next.is_none() {
            return None;
        }
        let next2 = next.unwrap().checked_add(dv);
        if next2.is_none() {
            return None;
        }
        value = next2.unwrap();
        i = i + 1;
        assert(all_digits(v@.subrange(start as int, i as int))) by {
            assert forall|k: int| 0 <= k < i - start implies is_digit(
                #[trigger] v@.subrange(start as int, i as int)[k],
            ) by {
                if k < i - 1 - start {
                    assert(v@.subrange(start as int, i as int)[k] == v@.subrange(
                        start as int,
                        i - 1 as int,
                    )[k]);
                }
            }
        }
    }
    assert(v@.subrange(start as int, i as int) == d);
    Some(value)
}

/// The value of a digit string never drops when more digits follow.
pub proof fn lemma_digits_monotone(d: Seq<char>, n: int)
    requires
        0 <= n <= d.len(),
        all_digits(d.take(n)),
    ensures
        all_digits(d) ==> digits_value(d) >= digits_value(d.take(n)),
    decreases d.len() - n,
{
    if n < d.len() && all_digits(d) {
        assert(all_digits(d.take(n + 1)));
        lemma_digits_monotone(d, n + 1);
        assert(d.take(n + 1).drop_last() =~= d.take(n));
    } else if all_digits(d) {
        assert(d.take(n) =~= d);
    }
}

/// The pieces of `v[lo..hi]` split at each `c`, as index ranges: piece `k` is
/// `v[r[k].0 .. r[k].1]`; consecutive pieces are one separator apart.
pub fn split_ranges(v: &Vec<char>, lo: usize, hi: usize, c: char) -> (r: Vec<(usize, usize)>)
    requires
        lo <= hi <= v.len(),
    ensures
        r.len() == split_spec(v@.subrange(lo as int, hi as int), c).len(),
        r.len() >= 1,
        r@[0].0 == lo,
        r@[r.len() - 1].1 == hi,
        forall|k: int|
            0 <= k < r.len() ==> lo <= (#[trigger] r@[k]).0 <= r@[k].1 <= hi && v@.subrange(
                r@[k].0 as int,
                r@[k].1 as int,
            ) == split_spec(v@.subrange(lo as int, hi as int), c)[k],
        forall|k: int| 0 <= k < r.len() - 1 ==> (#[trigger] r@[k]).1 + 1 == r@[k + 1].0,
        forall|k: int| 0 <= k < r.len() - 1 ==> v@[(#[trigger] r@[k]).1 as int] == c,
{
    let mut r: Vec<(usize, usize)> = Vec::new();
    let mut start = lo;
    let mut i = lo;
    proof {
        assert(v@.subrange(lo as int, lo as int) =~= Seq::<char>::empty());
    }
    while i < hi
        invariant
            lo <= start <= i <= hi <= v.len(),
            r.len() + 1 == split_spec(v@.subrange(lo as int, i as int), c).len(),
            r.len() == 0 ==> start == lo,
            r.len() > 0 ==> r@[0].0 == lo,
            r.len() > 0 ==> r@[r.len() - 1].1 + 1 == start,
            r.len() > 0 ==> v@[r@[r.len() - 1].1 as int] == c,
            forall|k: int|
                0 <= k < r.len() ==> lo <= (#[trigger] r@[k]).0 <= r@[k].1 < start && v@.subrange(
                    r@[k].0 as int,
                    r@[k].1 as int,
                ) == split_spec(v@.subrange(lo as int, i as int), c)[k],
            forall|k: int| 0 <= k < r.len() - 1 ==> (#[trigger] r@[k]).1 + 1 == r@[k + 1].0,
            forall|k: int| 0 <= k < r.len() - 1 ==> v@[(#[trigger] r@[k]).1 as int] == c,
            v@.subrange(start as int, i as int) == split_spec(
                v@.subrange(lo as int, i as int),
                c,
            ).last(),
        decreases hi - i,
    {
        let ghost prev = split_spec(v@.subrange(lo as int, i as int), c);
        let ghost s1 = v@.subrange(lo as int, i + 1 as int);
        assert(s1.drop_last() =~= v@.subrange(lo as int, i as int));
        assert(s1.last() == v@[i as int]);
        proof {
            lemma_split_nonempty(v@.subrange(lo as int, i as int), c);
        }
        if v[i] == c {
            r.push((start, i));
            start = i + 1;
            assert(v@.subrange(start as int, i + 1 as int) =~= Seq::<char>::empty());
        } else {
            assert(v@.subrange(start as int, i + 1 as int) =~= v@.subrange(
                start as int,
                i as int,
            ).push(v@[i as int]));
        }
        i = i + 1;
    }
    r.push((start, hi));
    proof {
        lemma_split_nonempty(v@.subrange(lo as int, hi as int), c);
    }
    r
}

/// `lex_order` of `v[a0..a1]` and `w[b0..b1]`.
pub fn range_lex_order(v: &Vec<char>, a0: usize, a1: usize, w: &Vec<char>, b0: usize, b1: usize) -> (res: i8)
    requires
        a0 <= a1 <= v.len(),
        b0 <= b1 <= w.len(),
    ensures
        res as int == lex_order(v@.subrange(a0 as int, a1 as int), w@.subrange(b0 as int, b1 as int)),
{
    let mut i = a0;
    let mut j = b0;
    while i < a1 && j < b1
        invariant
            a0 <= i <= a1 <= v.len(),
            b0 <= j <= b1 <= w.len(),
            i - a0 == j - b0,
            lex_order(v@.subrange(a0 as int, a1 as int), w@.subrange(b0 as int, b1 as int))
                == lex_order(v@.subrange(i as int, a1 as int), w@.subrange(j as int, b1 as int)),
        decreases a1 - i,
    {
        let x = v[i];
        let y = w[j];
        let ghost p = v@.subrange(i as int, a1 as int);
        let ghost q = w@.subrange(j as int, b1 as int);
        assert(p[0] == x && q[0] == y);
        if x < y {
            return -1;
        }
        if x > y {
            return 1;
        }
        assert(p.drop_first() =~= v@.subrange(i + 1 as int, a1 as int));
        assert(q.drop_first() =~= w@.subrange(j + 1 as int, b1 as int));
        i = i + 1;
        j = j + 1;
    }
    if i == a1 && j == b1 {
        0
    } else if i == a1 {
        -1
    } else {
        1
    }
}

/// An error message followed by the message of its cause, as an error chain
/// is shown: `context: cause`.
pub open spec fn caused(context: Seq<char>, cause: Seq<char>) -> Seq<char> {
    context + ": "@ + cause
}

/// `caused`, built.
pub fn with_cause(context: &str, cause: &str) -> (res: String)
    ensures
        res@ == caused(context@, cause@),
{
    let mut res = String::from_str(context);
    res.append(": ");
    res.append(cause);
    res
}

/// Calls `String::push`. Trusted to append exactly that character, as the
/// standard library documents.
#[verifier::external_body]
pub(crate) fn push_char(s: &mut String, c: char)
    ensures
        final(s)@ == old(s)@.push(c),
{
    s.push(c);
}

} // verus!
