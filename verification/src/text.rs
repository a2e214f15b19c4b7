//! Text handling on sequences of characters.

use vstd::prelude::*;

verus! {

/// `String::push` appends one character to the end of the string.
pub assume_specification[ String::push ](s: &mut String, ch: char)
    ensures
        final(s)@ == old(s)@.push(ch),
;

/// The characters with the Unicode `White_Space` property.
pub open spec fn is_white(c: char) -> bool {
    let n = c as u32;
    ||| 9 <= n <= 13
    ||| n == 32
    ||| n == 0x85
    ||| n == 0xa0
    ||| n == 0x1680
    ||| 0x2000 <= n <= 0x200a
    ||| n == 0x2028
    ||| n == 0x2029
    ||| n == 0x202f
    ||| n == 0x205f
    ||| n == 0x3000
}

pub fn white(c: char) -> (b: bool)
    ensures
        b == is_white(c),
{
    let n: u32 = c as u32;
    (9 <= n && n <= 13) || n == 32 || n == 0x85 || n == 0xa0 || n == 0x1680 || (0x2000 <= n && n
        <= 0x200a) || n == 0x2028 || n == 0x2029 || n == 0x202f || n == 0x205f || n == 0x3000
}

/// `s` without its leading white space.
pub open spec fn trim_start(s: Seq<char>) -> Seq<char>
    decreases s.len(),
{
    if s.len() > 0 && is_white(s[0]) {
        trim_start(s.drop_first())
    } else {
        s
    }
}

/// `s` without its trailing white space.
pub open spec fn trim_end(s: Seq<char>) -> Seq<char>
    decreases s.len(),
{
    if s.len() > 0 && is_white(s.last()) {
        trim_end(s.drop_last())
    } else {
        s
    }
}

/// `s` without white space at either end.
pub open spec fn trimmed(s: Seq<char>) -> Seq<char> {
    trim_end(trim_start(s))
}

/// The texts behind a sequence of strings.
pub open spec fn texts(v: Seq<String>) -> Seq<Seq<char>> {
    v.map_values(|t: String| t@)
}

/// The text behind an optional string.
pub open spec fn text_opt(t: Option<String>) -> Option<Seq<char>> {
    match t {
        Some(t) => Some(t@),
        None => None,
    }
}

/// The text behind an optional string slice.
pub open spec fn slice_opt(t: Option<&str>) -> Option<Seq<char>> {
    match t {
        Some(t) => Some(t@),
        None => None,
    }
}

/// The position of the first `c` in `s`, or the length of `s`.
pub open spec fn find(s: Seq<char>, c: char) -> nat
    decreases s.len(),
{
    if s.len() == 0 || s[0] == c {
        0
    } else {
        1 + find(s.drop_first(), c)
    }
}

pub proof fn lemma_find(s: Seq<char>, c: char)
    ensures
        find(s, c) <= s.len(),
        forall|j: int| 0 <= j < find(s, c) ==> s[j] != c,
        find(s, c) < s.len() ==> s[find(s, c) as int] == c,
    decreases s.len(),
{
    if s.len() > 0 && s[0] != c {
        let t = s.drop_first();
        lemma_find(t, c);
        assert forall|j: int| 0 <= j < find(s, c) implies s[j] != c by {
            if j > 0 {
                assert(s[j] == t[j - 1]);
            }
        }
    }
}

/// `find` is the only position before which `c` does not occur.
pub proof fn lemma_find_is(s: Seq<char>, c: char, k: nat)
    requires
        k <= s.len(),
        forall|j: int| 0 <= j < k ==> s[j] != c,
        k < s.len() ==> s[k as int] == c,
    ensures
        find(s, c) == k,
{
    lemma_find(s, c);
    if find(s, c) < k {
        assert(s[find(s, c) as int] == c);
    } else if find(s, c) > k {
        assert(s[k as int] == c);
    }
}

/// The pieces of `s` between the occurrences of `c`.
pub open spec fn split(s: Seq<char>, c: char) -> Seq<Seq<char>>
    decreases s.len(),
{
    let k = find(s, c);
    if k < s.len() {
        seq![s.take(k as int)] + split(s.skip(k as int + 1), c)
    } else {
        seq![s]
    }
}

/// `s` without one carriage return at its end.
pub open spec fn strip_return(s: Seq<char>) -> Seq<char> {
    if s.len() > 0 && s.last() == '\r' {
        s.drop_last()
    } else {
        s
    }
}

/// The lines of `s`: each ends at a line feed, with a carriage return before
/// it dropped; text after the last line feed is a line too.
pub open spec fn lines(s: Seq<char>) -> Seq<Seq<char>>
    decreases s.len(),
{
    if s.len() == 0 {
        Seq::empty()
    } else {
        let k = find(s, '\n');
        if k < s.len() {
            seq![strip_return(s.take(k as int))] + lines(s.skip(k as int + 1))
        } else {
            seq![s]
        }
    }
}

/// `s` without the `c`s at its start.
pub open spec fn strip_leading(s: Seq<char>, c: char) -> Seq<char>
    decreases s.len(),
{
    if s.len() > 0 && s[0] == c {
        strip_leading(s.drop_first(), c)
    } else {
        s
    }
}

pub open spec fn starts_with(s: Seq<char>, p: Seq<char>) -> bool {
    p.len() <= s.len() && s.take(p.len() as int) == p
}

pub open spec fn is_digit(c: char) -> bool {
    48 <= c as u32 <= 57
}

pub open spec fn all_digits(s: Seq<char>) -> bool {
    forall|i: int| 0 <= i < s.len() ==> is_digit(#[trigger] s[i])
}

/// The number that the digits of `s` write in base ten.
pub open spec fn digits_value(s: Seq<char>) -> nat
    decreases s.len(),
{
    if s.len() == 0 {
        0
    } else {
        (digits_value(s.drop_last()) * 10 + (s.last() as u32 - 48)) as nat
    }
}

/// The number a decimal text stands for: at least one digit, an optional plus
/// sign before it, and a value that 64 bits hold.
pub open spec fn number(s: Seq<char>) -> Option<u64> {
    let t = if s.len() > 0 && s[0] == '+' {
        s.drop_first()
    } else {
        s
    };
    if t.len() > 0 && all_digits(t) && digits_value(t) <= u64::MAX {
        Some(digits_value(t) as u64)
    } else {
        None
    }
}

pub open spec fn digit_char(d: nat) -> char {
    if d == 0 {
        '0'
    } else if d == 1 {
        '1'
    } else if d == 2 {
        '2'
    } else if d == 3 {
        '3'
    } else if d == 4 {
        '4'
    } else if d == 5 {
        '5'
    } else if d == 6 {
        '6'
    } else if d == 7 {
        '7'
    } else if d == 8 {
        '8'
    } else {
        '9'
    }
}

/// `n` written in base ten.
pub open spec fn decimal(n: nat) -> Seq<char>
    decreases n,
{
    if n < 10 {
        seq![digit_char(n)]
    } else {
        decimal(n / 10).push(digit_char(n % 10))
    }
}

/// What is written in base ten reads as the number again.
pub proof fn lemma_decimal_value(n: nat)
    ensures
        digits_value(decimal(n)) == n,
        all_digits(decimal(n)),
        decimal(n).len() > 0,
    decreases n,
{
    reveal_with_fuel(digits_value, 2);
    if n >= 10 {
        lemma_decimal_value(n / 10);
        assert(decimal(n).drop_last() =~= decimal(n / 10));
    } else {
        assert(decimal(n).drop_last() =~= Seq::<char>::empty());
    }
}

/// `parts` with `sep` between each two.
pub open spec fn join(parts: Seq<Seq<char>>, sep: Seq<char>) -> Seq<char>
    decreases parts.len(),
{
    if parts.len() == 0 {
        Seq::empty()
    } else if parts.len() == 1 {
        parts[0]
    } else {
        join(parts.drop_last(), sep) + sep + parts.last()
    }
}

/// Whether `c` occurs in `s`.
pub open spec fn has_char(s: Seq<char>, c: char) -> bool {
    exists|i: int| 0 <= i < s.len() && s[i] == c
}

/// What was joined with a character that no part holds can be taken apart.
pub proof fn lemma_join_apart(a: Seq<Seq<char>>, b: Seq<Seq<char>>, c: char)
    requires
        a.len() > 0,
        b.len() > 0,
        forall|i: int| 0 <= i < a.len() ==> !has_char(#[trigger] a[i], c),
        forall|i: int| 0 <= i < b.len() ==> !has_char(#[trigger] b[i], c),
        join(a, seq![c]) == join(b, seq![c]),
    ensures
        a == b,
    decreases a.len(),
{
    let s = join(a, seq![c]);
    let (x, y) = (join(a.drop_last(), seq![c]), join(b.drop_last(), seq![c]));
    let (p, q) = (a.last(), b.last());
    if a.len() == 1 {
        if b.len() > 1 {
            assert(s[y.len() as int] == c);
            assert(has_char(a[0], c));
        }
        assert(a =~= b);
    } else if b.len() == 1 {
        assert(s[x.len() as int] == c);
        assert(has_char(b[0], c));
    } else {
        assert(s == x + seq![c] + p && s == y + seq![c] + q);
        assert(s.len() == x.len() + 1 + p.len() && s.len() == y.len() + 1 + q.len());
        assert(s[x.len() as int] == c && s[y.len() as int] == c);
        if x.len() < y.len() {
            assert((x + seq![c] + p)[y.len() as int] == p[y.len() - x.len() - 1]);
            assert(has_char(a[a.len() - 1], c));
        }
        if y.len() < x.len() {
            assert((y + seq![c] + q)[x.len() as int] == q[x.len() - y.len() - 1]);
            assert(has_char(b[b.len() - 1], c));
        }
        assert(x =~= s.take(x.len() as int));
        assert(y =~= s.take(y.len() as int));
        assert(p =~= s.skip(x.len() as int + 1));
        assert(q =~= s.skip(y.len() as int + 1));
        assert forall|i: int| 0 <= i < a.len() - 1 implies !has_char(
            #[trigger] a.drop_last()[i],
            c,
        ) by {
            assert(a.drop_last()[i] == a[i]);
        }
        assert forall|i: int| 0 <= i < b.len() - 1 implies !has_char(
            #[trigger] b.drop_last()[i],
            c,
        ) by {
            assert(b.drop_last()[i] == b[i]);
        }
        lemma_join_apart(a.drop_last(), b.drop_last(), c);
        assert(a =~= a.drop_last().push(p));
        assert(b =~= b.drop_last().push(q));
    }
}

/// What is joined starts with the first part.
pub proof fn lemma_join_first(parts: Seq<Seq<char>>, sep: Seq<char>)
    requires
        parts.len() > 1,
    ensures
        join(parts, sep) == parts[0] + sep + join(parts.drop_first(), sep),
    decreases parts.len(),
{
    reveal_with_fuel(join, 2);
    let front = parts.drop_last();
    let rest = parts.drop_first();
    assert(rest.last() == parts.last());
    if parts.len() == 2 {
        assert(front =~= seq![parts[0]]);
        assert(rest =~= seq![parts[1]]);
    } else {
        lemma_join_first(front, sep);
        assert(front.drop_first() =~= rest.drop_last());
        assert(join(parts, sep) =~= parts[0] + sep + join(rest, sep));
    }
}

/// Whether a text can be a line, as it is.
pub open spec fn is_line(s: Seq<char>) -> bool {
    !has_char(s, '\n') && strip_return(s) == s
}

/// Lines that are joined are the lines of the whole; an empty one at the end
/// is none.
pub proof fn lemma_lines_of_join(parts: Seq<Seq<char>>)
    requires
        parts.len() > 0,
        forall|i: int| 0 <= i < parts.len() ==> is_line(#[trigger] parts[i]),
    ensures
        lines(join(parts, seq!['\n'])) == (if parts.last().len() == 0 {
            parts.drop_last()
        } else {
            parts
        }),
    decreases parts.len(),
{
    let sep = seq!['\n'];
    let s = join(parts, sep);
    let p = parts[0];
    assert(is_line(p));
    if parts.len() == 1 {
        if p.len() > 0 {
            assert forall|j: int| 0 <= j < s.len() implies s[j] != '\n' by {
                assert(p[j] == s[j]);
            }
            lemma_find_is(s, '\n', s.len());
            assert(lines(s) =~= parts);
        } else {
            assert(lines(s) =~= parts.drop_last());
        }
    } else {
        let rest = parts.drop_first();
        let t = join(rest, sep);
        lemma_join_first(parts, sep);
        assert forall|i: int| 0 <= i < rest.len() implies is_line(#[trigger] rest[i]) by {
            assert(rest[i] == parts[i + 1]);
        }
        lemma_lines_of_join(rest);
        let k = p.len();
        assert(s == p + sep + t);
        assert(s.len() == k + 1 + t.len());
        assert forall|j: int| 0 <= j < k implies s[j] != '\n' by {
            assert(s[j] == p[j]);
        }
        assert(s[k as int] == '\n');
        lemma_find_is(s, '\n', k);
        assert(s.take(k as int) =~= p);
        assert(s.skip(k as int + 1) =~= t);
        assert(lines(s) == seq![p] + lines(t));
        assert(rest.last() == parts.last());
        if parts.last().len() == 0 {
            assert(lines(s) =~= parts.drop_last());
        } else {
            assert(lines(s) =~= parts);
        }
    }
}

pub fn same(a: &str, b: &str) -> (r: bool)
    ensures
        r == (a@ == b@),
{
    let x: String = a.to_owned();
    let y: String = b.to_owned();
    x == y
}

pub fn chars_of(s: &str) -> (v: Vec<char>)
    ensures
        v@ == s@,
{
    let mut v: Vec<char> = Vec::new();
    for c in it: s.chars()
        invariant
            it.seq() == s@,
            v@ == s@.take(it.index() as int),
    {
        v.push(c);
        proof {
            assert(s@.take(it.index() + 1) =~= s@.take(it.index() as int).push(c));
        }
    }
    assert(s@.take(s@.len() as int) =~= s@);
    v
}

/// The text of `v` from `from` up to `to`.
pub fn text_of(v: &Vec<char>, from: usize, to: usize) -> (r: String)
    requires
        from <= to <= v@.len(),
    ensures
        r@ == v@.subrange(from as int, to as int),
{
    let mut r: String = String::new();
    let mut i: usize = from;
    while i < to
        invariant
            from <= i <= to <= v@.len(),
            r@ == v@.subrange(from as int, i as int),
        decreases to - i,
    {
        r.push(v[i]);
        proof {
            assert(v@.subrange(from as int, i + 1) =~= v@.subrange(from as int, i as int).push(
                v@[i as int],
            ));
        }
        i = i + 1;
    }
    r
}

/// `s` without white space at either end.
pub fn trim(s: &str) -> (r: &str)
    ensures
        r@ == trimmed(s@),
{
    let v: Vec<char> = chars_of(s);
    let n: usize = v.len();
    let mut i: usize = 0;
    assert(s@.subrange(0, n as int) =~= s@);
    while i < n && white(v[i])
        invariant
            v@ == s@,
            n == v@.len(),
            i <= n,
            trim_start(s@) == trim_start(s@.subrange(i as int, n as int)),
        decreases n - i,
    {
        assert(s@.subrange(i as int, n as int).drop_first() =~= s@.subrange(i + 1, n as int));
        i = i + 1;
    }
    let ghost t = s@.subrange(i as int, n as int);
    assert(trim_start(s@) == t);
    let mut j: usize = n;
    assert(t =~= s@.subrange(i as int, j as int));
    while i < j && white(v[j - 1])
        invariant
            v@ == s@,
            n == v@.len(),
            i <= j <= n,
            trim_end(t) == trim_end(s@.subrange(i as int, j as int)),
        decreases j,
    {
        assert(s@.subrange(i as int, j as int).drop_last() =~= s@.subrange(i as int, j - 1));
        j = j - 1;
    }
    s.substring_char(i, j)
}

/// `c` in lower case, where it is an ASCII capital.
pub open spec fn ascii_lower(c: char) -> char {
    if 65 <= c as u32 <= 90 {
        (c as u32 + 32) as char
    } else {
        c
    }
}

/// Whether two texts differ at most in the case of ASCII letters.
pub open spec fn same_ignoring_case(a: Seq<char>, b: Seq<char>) -> bool {
    a.len() == b.len() && forall|i: int|
        0 <= i < a.len() ==> ascii_lower(#[trigger] a[i]) == ascii_lower(b[i])
}

fn lower_code(c: char) -> (n: u32)
    ensures
        n == ascii_lower(c) as u32,
{
    let n: u32 = c as u32;
    if 65 <= n && n <= 90 {
        n + 32
    } else {
        n
    }
}

/// Whether two texts differ at most in the case of ASCII letters.
pub fn same_text_ignoring_case(a: &str, b: &str) -> (r: bool)
    ensures
        r == same_ignoring_case(a@, b@),
{
    let v: Vec<char> = chars_of(a);
    let w: Vec<char> = chars_of(b);
    if v.len() != w.len() {
        return false;
    }
    let mut i: usize = 0;
    while i < v.len()
        invariant
            v@ == a@,
            w@ == b@,
            v@.len() == w@.len(),
            i <= v@.len(),
            forall|j: int| 0 <= j < i ==> ascii_lower(#[trigger] a@[j]) == ascii_lower(b@[j]),
        decreases v@.len() - i,
    {
        if lower_code(v[i]) != lower_code(w[i]) {
            assert(ascii_lower(a@[i as int]) != ascii_lower(b@[i as int]));
            return false;
        }
        i = i + 1;
    }
    true
}

/// The position of the first `c` at or after `from`, or the length of `v`.
pub fn find_from(v: &Vec<char>, c: char, from: usize) -> (k: usize)
    requires
        from <= v@.len(),
    ensures
        from <= k <= v@.len(),
        k == from + find(v@.skip(from as int), c),
{
    let mut k: usize = from;
    while k < v.len() && v[k] != c
        invariant
            from <= k <= v@.len(),
            forall|j: int| from <= j < k ==> v@[j] != c,
        decreases v@.len() - k,
    {
        k = k + 1;
    }
    proof {
        lemma_find_is(v@.skip(from as int), c, (k - from) as nat);
    }
    k
}

/// The pieces of `s` between the occurrences of `c`.
pub fn split_of(s: &str, c: char) -> (r: Vec<String>)
    ensures
        texts(r@) == split(s@, c),
{
    let v: Vec<char> = chars_of(s);
    let mut r: Vec<String> = Vec::new();
    let mut pos: usize = 0;
    assert(s@.skip(0) =~= s@);
    assert(texts(r@) + split(s@, c) =~= split(s@, c));
    loop
        invariant
            v@ == s@,
            pos <= v@.len(),
            texts(r@) + split(s@.skip(pos as int), c) == split(s@, c),
        decreases v@.len() - pos,
    {
        let k: usize = find_from(&v, c, pos);
        let ghost rest = s@.skip(pos as int);
        let piece: String = text_of(&v, pos, k);
        let ghost before = r@;
        r.push(piece);
        proof {
            assert(piece@ =~= rest.take(k - pos));
            assert(texts(r@) =~= texts(before).push(piece@));
        }
        if k < v.len() {
            proof {
                assert(rest.skip(k - pos + 1) =~= s@.skip(k + 1));
                assert(texts(r@) + split(s@.skip(k + 1), c) =~= texts(before) + split(rest, c));
            }
            pos = k + 1;
        } else {
            proof {
                assert(rest.take(k - pos) =~= rest);
                assert(texts(r@) =~= texts(before) + split(rest, c));
            }
            return r;
        }
    }
}

/// The lines of `s`.
pub fn lines_of(s: &str) -> (r: Vec<String>)
    ensures
        texts(r@) == lines(s@),
{
    let v: Vec<char> = chars_of(s);
    let mut r: Vec<String> = Vec::new();
    let mut pos: usize = 0;
    assert(s@.skip(0) =~= s@);
    assert(texts(r@) + lines(s@) =~= lines(s@));
    while pos < v.len()
        invariant
            v@ == s@,
            pos <= v@.len(),
            texts(r@) + lines(s@.skip(pos as int)) == lines(s@),
        decreases v@.len() - pos,
    {
        let k: usize = find_from(&v, '\n', pos);
        let ghost rest = s@.skip(pos as int);
        let ghost before = r@;
        if k < v.len() {
            let end: usize = if k > pos && v[k - 1] == '\r' {
                k - 1
            } else {
                k
            };
            let piece: String = text_of(&v, pos, end);
            r.push(piece);
            proof {
                assert(piece@ =~= strip_return(rest.take(k - pos)));
                assert(texts(r@) =~= texts(before).push(piece@));
                assert(rest.skip(k - pos + 1) =~= s@.skip(k + 1));
                assert(texts(r@) + lines(s@.skip(k + 1)) =~= texts(before) + lines(rest));
            }
            pos = k + 1;
        } else {
            let piece: String = text_of(&v, pos, k);
            r.push(piece);
            proof {
                assert(piece@ =~= rest);
                assert(texts(r@) =~= texts(before).push(piece@));
                assert(s@.skip(k as int) =~= Seq::<char>::empty());
                assert(texts(r@) + lines(s@.skip(k as int)) =~= texts(before) + lines(rest));
            }
            pos = k;
        }
    }
    proof {
        assert(s@.skip(pos as int) =~= Seq::<char>::empty());
        assert(texts(r@) + lines(s@.skip(pos as int)) =~= texts(r@));
    }
    r
}

/// `s` without the `c`s at its start.
pub fn strip_leading_of(s: &str, c: char) -> (r: &str)
    ensures
        r@ == strip_leading(s@, c),
{
    let v: Vec<char> = chars_of(s);
    let n: usize = v.len();
    let mut i: usize = 0;
    assert(s@.subrange(0, n as int) =~= s@);
    while i < n && v[i] == c
        invariant
            v@ == s@,
            n == v@.len(),
            i <= n,
            strip_leading(s@, c) == strip_leading(s@.subrange(i as int, n as int), c),
        decreases n - i,
    {
        assert(s@.subrange(i as int, n as int).drop_first() =~= s@.subrange(i + 1, n as int));
        i = i + 1;
    }
    s.substring_char(i, n)
}

pub fn has_prefix(s: &str, p: &str) -> (b: bool)
    ensures
        b == starts_with(s@, p@),
{
    let n: usize = s.unicode_len();
    let k: usize = p.unicode_len();
    if k <= n {
        let head: &str = s.substring_char(0, k);
        assert(head@ =~= s@.take(k as int));
        same(head, p)
    } else {
        false
    }
}

/// What follows `p` in `s`, where `s` starts with `p`.
pub fn after_prefix<'a>(s: &'a str, p: &str) -> (r: Option<&'a str>)
    ensures
        r is Some == starts_with(s@, p@),
        r matches Some(t) ==> t@ == s@.skip(p@.len() as int),
{
    if has_prefix(s, p) {
        let n: usize = s.unicode_len();
        let k: usize = p.unicode_len();
        let t: &str = s.substring_char(k, n);
        assert(t@ =~= s@.skip(p@.len() as int));
        Some(t)
    } else {
        None
    }
}

pub fn contains_char(s: &str, c: char) -> (b: bool)
    ensures
        b == has_char(s@, c),
{
    let v: Vec<char> = chars_of(s);
    let mut i: usize = 0;
    while i < v.len()
        invariant
            v@ == s@,
            i <= v@.len(),
            forall|j: int| 0 <= j < i ==> s@[j] != c,
        decreases v@.len() - i,
    {
        if v[i] == c {
            assert(s@[i as int] == c);
            return true;
        }
        i = i + 1;
    }
    false
}

pub proof fn lemma_digits_grow(s: Seq<char>, i: int)
    requires
        0 <= i <= s.len(),
        all_digits(s),
    ensures
        digits_value(s.take(i)) <= digits_value(s),
    decreases s.len(),
{
    if i < s.len() {
        lemma_digits_grow(s.drop_last(), i);
        assert(s.drop_last().take(i) =~= s.take(i));
        assert(is_digit(s.last()));
    } else {
        assert(s.take(i) =~= s);
    }
}

/// The number a decimal text stands for.
pub fn parse_number(s: &str) -> (r: Option<u64>)
    ensures
        r == number(s@),
{
    let v: Vec<char> = chars_of(s);
    let n: usize = v.len();
    let start: usize = if n > 0 && v[0] == '+' {
        1
    } else {
        0
    };
    let ghost t = s@.skip(start as int);
    assert(start == 1 ==> t =~= s@.drop_first());
    assert(start == 0 ==> t =~= s@);
    if start == n {
        return None;
    }
    let mut total: u64 = 0;
    let mut i: usize = start;
    assert(t.take(0) =~= Seq::<char>::empty());
    while i < n
        invariant
            v@ == s@,
            n == v@.len(),
            start <= i <= n,
            start < n,
            t == s@.skip(start as int),
            number(s@) == (if t.len() > 0 && all_digits(t) && digits_value(t) <= u64::MAX {
                Some(digits_value(t) as u64)
            } else {
                None::<u64>
            }),
            forall|j: int| 0 <= j < i - start ==> is_digit(#[trigger] t[j]),
            total == digits_value(t.take(i - start)),
        decreases n - i,
    {
        let code: u32 = v[i] as u32;
        assert(t[i - start] == v@[i as int]);
        if code < 48 || code > 57 {
            assert(!is_digit(t[i - start]));
            return None;
        }
        let digit: u64 = (code - 48) as u64;
        let ghost next = t.take(i - start + 1);
        proof {
            assert(next.drop_last() =~= t.take(i - start));
            assert(next.last() == v@[i as int]);
            assert(digits_value(next) == total * 10 + digit);
        }
        if total > (u64::MAX - digit) / 10 {
            proof {
                if all_digits(t) {
                    lemma_digits_grow(t, i - start + 1);
                }
            }
            return None;
        }
        total = total * 10 + digit;
        i = i + 1;
    }
    assert(t.take(n - start) =~= t);
    Some(total)
}

/// Append `n`, written in base ten.
pub fn push_decimal(out: &mut String, n: u64)
    ensures
        final(out)@ == old(out)@ + decimal(n as nat),
    decreases n,
{
    let d: u64 = n % 10;
    let c: char = if d == 0 {
        '0'
    } else if d == 1 {
        '1'
    } else if d == 2 {
        '2'
    } else if d == 3 {
        '3'
    } else if d == 4 {
        '4'
    } else if d == 5 {
        '5'
    } else if d == 6 {
        '6'
    } else if d == 7 {
        '7'
    } else if d == 8 {
        '8'
    } else {
        '9'
    };
    if n >= 10 {
        push_decimal(out, n / 10);
    }
    out.push(c);
    assert(out@ =~= old(out)@ + decimal(n as nat));
}

/// `parts` with `sep` between each two.
pub fn join_of(parts: &Vec<String>, sep: &str) -> (r: String)
    ensures
        r@ == join(texts(parts@), sep@),
{
    let mut r: String = String::new();
    let mut i: usize = 0;
    assert(texts(parts@).take(0) =~= Seq::<Seq<char>>::empty());
    while i < parts.len()
        invariant
            i <= parts@.len(),
            r@ == join(texts(parts@).take(i as int), sep@),
        decreases parts@.len() - i,
    {
        let ghost done = texts(parts@).take(i as int);
        let ghost next = texts(parts@).take(i + 1);
        proof {
            assert(next.drop_last() =~= done);
            assert(next.last() == parts@[i as int]@);
        }
        if i > 0 {
            r.append(sep);
        }
        r.append(parts[i].as_str());
        assert(r@ =~= join(next, sep@));
        i = i + 1;
    }
    assert(texts(parts@).take(i as int) =~= texts(parts@));
    r
}

/// Blanks, tabs and line ends are white space, and no printed ASCII character
/// is.
pub proof fn blanks_are_white(c: char, b: bool)
    requires
        call_ensures(white, (c,), b),
    ensures
        c == ' ' || c == '\t' || c == '\n' || c == '\r' ==> b,
        33 <= c as u32 <= 126 ==> !b,
        c as u32 <= 8 ==> !b,
        c as u32 == 0xa0 ==> b,
        c as u32 == 0x3000 ==> b,
{
}

/// A trimmed text is the text without what is white at either end: nothing else
/// is taken off, and no white space is left there.
pub proof fn trimming_takes_off_white_space(s: &str, r: &str)
    requires
        call_ensures(trim, (s,), r),
    ensures
        exists|a: int| #[trigger] is_core(s@, r@, a),
        r@.len() > 0 ==> !is_white(r@[0]) && !is_white(r@.last()),
{
    let t = trim_start(s@);
    lemma_trim_start(s@);
    lemma_trim_end(t);
    let a = s@.len() - t.len();
    assert(is_core(s@, r@, a)) by {
        assert(t == s@.skip(a));
        assert(r@ == t.take(r@.len() as int));
        assert(s@.subrange(a, a + r@.len()) =~= r@);
        assert forall|j: int| a + r@.len() <= j < s@.len() implies is_white(#[trigger] s@[j]) by {
            assert(s@[j] == t[j - a]);
        }
    }
    if r@.len() > 0 {
        assert(r@[0] == t[0]);
    }
}

/// `r` is `s` from `a` on, and all of `s` around it is white space.
pub open spec fn is_core(s: Seq<char>, r: Seq<char>, a: int) -> bool {
    &&& 0 <= a
    &&& a + r.len() <= s.len()
    &&& r == s.subrange(a, a + r.len())
    &&& forall|j: int| 0 <= j < a ==> is_white(#[trigger] s[j])
    &&& forall|j: int| a + r.len() <= j < s.len() ==> is_white(#[trigger] s[j])
}

proof fn lemma_trim_start(s: Seq<char>)
    ensures
        ({
            let t = trim_start(s);
            let a = s.len() - t.len();
            &&& 0 <= a <= s.len()
            &&& t == s.skip(a)
            &&& forall|j: int| 0 <= j < a ==> is_white(#[trigger] s[j])
            &&& t.len() > 0 ==> !is_white(t[0])
        }),
    decreases s.len(),
{
    let t = trim_start(s);
    if s.len() > 0 && is_white(s[0]) {
        let u = s.drop_first();
        lemma_trim_start(u);
        let a = s.len() - t.len();
        assert(t =~= s.skip(a));
        assert forall|j: int| 0 <= j < a implies is_white(#[trigger] s[j]) by {
            if j > 0 {
                assert(s[j] == u[j - 1]);
            }
        }
    } else {
        assert(t =~= s.skip(0));
    }
}

proof fn lemma_trim_end(s: Seq<char>)
    ensures
        ({
            let t = trim_end(s);
            &&& t.len() <= s.len()
            &&& t == s.take(t.len() as int)
            &&& forall|j: int| t.len() <= j < s.len() ==> is_white(#[trigger] s[j])
            &&& t.len() > 0 ==> !is_white(t.last())
        }),
    decreases s.len(),
{
    let t = trim_end(s);
    if s.len() > 0 && is_white(s.last()) {
        let u = s.drop_last();
        lemma_trim_end(u);
        assert(t =~= s.take(t.len() as int));
        assert forall|j: int| t.len() <= j < s.len() implies is_white(#[trigger] s[j]) by {
            if j < u.len() {
                assert(s[j] == u[j]);
            }
        }
    } else {
        assert(t =~= s.take(t.len() as int));
    }
}

/// Texts are the same but for case where each character is the same, or the
/// same Latin letter in either case.
pub proof fn letters_are_the_same_in_either_case(a: &str, b: &str, r: bool)
    requires
        call_ensures(same_text_ignoring_case, (a, b), r),
    ensures
        a@ == b@ ==> r,
        r ==> a@.len() == b@.len(),
        r <==> a@.len() == b@.len() && forall|i: int|
            0 <= i < a@.len() ==> {
                let x = (#[trigger] a@[i]) as u32;
                let y = b@[i] as u32;
                ||| x == y
                ||| 65 <= x <= 90 && y == x + 32
                ||| 65 <= y <= 90 && x == y + 32
            },
{
    if a@.len() == b@.len() {
        assert forall|i: int| 0 <= i < a@.len() implies (ascii_lower(#[trigger] a@[i])
            == ascii_lower(b@[i])) == ({
            let x = a@[i] as u32;
            let y = b@[i] as u32;
            ||| x == y
            ||| 65 <= x <= 90 && y == x + 32
            ||| 65 <= y <= 90 && x == y + 32
        }) by {}
        if r {
            assert forall|i: int| 0 <= i < a@.len() implies ({
                let x = (#[trigger] a@[i]) as u32;
                let y = b@[i] as u32;
                ||| x == y
                ||| 65 <= x <= 90 && y == x + 32
                ||| 65 <= y <= 90 && x == y + 32
            }) by {
                assert(ascii_lower(a@[i]) == ascii_lower(b@[i]));
            }
        }
    }
}

/// A character is found at its first place from a start on.
pub proof fn characters_are_found_first(
    v: &Vec<char>,
    c: char,
    from: usize,
    k: usize,
    s: &str,
    b: bool,
)
    requires
        from <= v@.len(),
        call_ensures(find_from, (v, c, from), k),
        call_ensures(contains_char, (s, c), b),
    ensures
        from <= k <= v@.len(),
        forall|j: int| from <= j < k ==> (#[trigger] v@[j]) != c,
        k < v@.len() ==> v@[k as int] == c,
        b <==> s@.contains(c),
{
    let t = v@.skip(from as int);
    lemma_find(t, c);
    assert forall|j: int| from <= j < k implies (#[trigger] v@[j]) != c by {
        assert(t[j - from] == v@[j]);
    }
    if k < v@.len() {
        assert(t[k - from] == v@[k as int]);
    }
}

/// The pieces of a text hold none of the characters it was split at, and joined
/// by it make the text again.
pub proof fn pieces_make_the_text_again(s: &str, c: char, r: Vec<String>)
    requires
        call_ensures(split_of, (s, c), r),
    ensures
        r@.len() > 0,
        join(texts(r@), seq![c]) == s@,
        forall|i: int| 0 <= i < r@.len() ==> !((#[trigger] r@[i])@.contains(c)),
{
    lemma_split(s@, c);
    let p = split(s@, c);
    assert(texts(r@).len() == r@.len());
    assert forall|i: int| 0 <= i < r@.len() implies !((#[trigger] r@[i])@.contains(c)) by {
        assert(p[i] == r@[i]@);
        assert(!p[i].contains(c));
    }
}

proof fn lemma_split(s: Seq<char>, c: char)
    ensures
        split(s, c).len() > 0,
        join(split(s, c), seq![c]) == s,
        forall|i: int| 0 <= i < split(s, c).len() ==> !((#[trigger] split(s, c)[i]).contains(c)),
    decreases s.len(),
{
    let k = find(s, c);
    lemma_find(s, c);
    let p = split(s, c);
    if k < s.len() {
        let t = s.skip(k as int + 1);
        lemma_split(t, c);
        let q = split(t, c);
        assert(p.drop_first() =~= q);
        lemma_join_first(p, seq![c]);
        assert(s =~= s.take(k as int) + seq![c] + t);
        assert forall|i: int| 0 <= i < p.len() implies !((#[trigger] p[i]).contains(c)) by {
            if i == 0 {
                if p[0].contains(c) {
                    let j = choose|j: int| 0 <= j < p[0].len() && p[0][j] == c;
                    assert(s[j] == c);
                }
            } else {
                assert(p[i] == q[i - 1]);
            }
        }
    } else {
        assert(p =~= seq![s]);
        if s.contains(c) {
            let j = choose|j: int| 0 <= j < s.len() && s[j] == c;
            assert(s[j] == c);
        }
    }
}

/// The lines of a text that was put together of lines are those lines; an empty
/// one at the end is none.
pub proof fn lines_come_apart_again(s: &str, r: Vec<String>, parts: Seq<Seq<char>>)
    requires
        call_ensures(lines_of, (s,), r),
        parts.len() > 0,
        forall|i: int| 0 <= i < parts.len() ==> is_line(#[trigger] parts[i]),
        s@ == join(parts, seq!['\n']),
    ensures
        parts.last().len() > 0 ==> texts(r@) == parts,
        parts.last().len() == 0 ==> texts(r@) == parts.drop_last(),
{
    lemma_lines_of_join(parts);
}

/// Stripping takes off every such character at the start, and nothing else.
pub proof fn stripping_takes_off_the_start(s: &str, c: char, r: &str)
    requires
        call_ensures(strip_leading_of, (s, c), r),
    ensures
        r@.len() <= s@.len(),
        r@ == s@.skip(s@.len() - r@.len()),
        forall|j: int| 0 <= j < s@.len() - r@.len() ==> (#[trigger] s@[j]) == c,
        r@.len() > 0 ==> r@[0] != c,
{
    lemma_strip(s@, c);
}

proof fn lemma_strip(s: Seq<char>, c: char)
    ensures
        ({
            let r = strip_leading(s, c);
            &&& r.len() <= s.len()
            &&& r == s.skip(s.len() - r.len())
            &&& forall|j: int| 0 <= j < s.len() - r.len() ==> (#[trigger] s[j]) == c
            &&& r.len() > 0 ==> r[0] != c
        }),
    decreases s.len(),
{
    let r = strip_leading(s, c);
    if s.len() > 0 && s[0] == c {
        let t = s.drop_first();
        lemma_strip(t, c);
        assert(r =~= s.skip(s.len() - r.len()));
        assert forall|j: int| 0 <= j < s.len() - r.len() implies (#[trigger] s[j]) == c by {
            if j > 0 {
                assert(s[j] == t[j - 1]);
            }
        }
    } else {
        assert(r =~= s.skip(0));
    }
}

/// A text starts with another where it is that one and something behind it.
pub proof fn a_prefix_and_its_rest_are_the_text(s: &str, p: &str, b: bool, r: Option<&str>)
    requires
        call_ensures(has_prefix, (s, p), b),
        call_ensures(after_prefix, (s, p), r),
    ensures
        b == r is Some,
        r is Some ==> s@ == p@ + r->0@,
        r is None ==> forall|t: Seq<char>| s@ != #[trigger] (p@ + t),
{
    if r is Some {
        assert(s@ =~= p@ + s@.skip(p@.len() as int));
    } else {
        assert forall|t: Seq<char>| s@ != #[trigger] (p@ + t) by {
            if s@ == p@ + t {
                assert(s@.take(p@.len() as int) =~= p@);
            }
        }
    }
}

/// A number in print is read as that number again, and a text that is no number
/// is not read.
pub proof fn numbers_are_read_as_printed(
    out: &mut String,
    n: u64,
    s: &str,
    r: Option<u64>,
    other: &str,
    q: Option<u64>,
)
    requires
        call_ensures(push_decimal, (out, n), ()),
        old(out)@.len() == 0,
        s@ == final(out)@,
        call_ensures(parse_number, (s,), r),
        call_ensures(parse_number, (other,), q),
    ensures
        r == Some(n),
        other@.len() == 0 ==> q is None,
        (exists|i: int|
            1 <= i < other@.len() && !(48 <= (#[trigger] other@[i]) as u32 <= 57)) ==> q is None,
        n < 10 ==> s@.len() == 1 && s@[0] as u32 == 48 + n,
{
    lemma_decimal_value(n as nat);
    assert(s@ =~= decimal(n as nat));
    assert(is_digit(s@[0]));
    if exists|i: int| 1 <= i < other@.len() && !(48 <= (#[trigger] other@[i]) as u32 <= 57) {
        let i = choose|i: int| 1 <= i < other@.len() && !(48 <= (#[trigger] other@[i]) as u32
            <= 57);
        assert(!is_digit(other@[i]));
        assert(other@.drop_first()[i - 1] == other@[i]);
    }
}

/// What was there stays in front of a number that is appended.
pub proof fn numbers_are_appended(out: &mut String, n: u64)
    requires
        call_ensures(push_decimal, (out, n), ()),
    ensures
        final(out)@.len() > old(out)@.len(),
        final(out)@.take(old(out)@.len() as int) == old(out)@,
{
    lemma_decimal_value(n as nat);
    assert(final(out)@.take(old(out)@.len() as int) =~= old(out)@);
}

/// Parts are joined with the separator between each two.
pub proof fn parts_are_joined(parts: &Vec<String>, sep: &str, r: String)
    requires
        call_ensures(join_of, (parts, sep), r),
    ensures
        parts@.len() == 0 ==> r@.len() == 0,
        parts@.len() == 1 ==> r@ == parts@[0]@,
        parts@.len() == 2 ==> r@ == parts@[0]@ + sep@ + parts@[1]@,
        parts@.len() == 3 ==> r@ == parts@[0]@ + sep@ + parts@[1]@ + sep@ + parts@[2]@,
        parts@.len() > 1 ==> r@ == join(texts(parts@).drop_last(), sep@) + sep@ + parts@.last()@,
{
    let t = texts(parts@);
    assert(t.len() == parts@.len());
    reveal_with_fuel(join, 4);
    if parts@.len() > 0 {
        assert(t[0] == parts@[0]@);
        assert(t.last() == parts@.last()@);
    }
    if parts@.len() == 2 {
        assert(t.drop_last() =~= seq![parts@[0]@]);
    }
    if parts@.len() == 3 {
        assert(t.drop_last() =~= seq![parts@[0]@, parts@[1]@]);
        assert(t.drop_last().drop_last() =~= seq![parts@[0]@]);
    }
}

/// Texts are the same character by character, and a part of a text is what
/// stands there.
pub proof fn texts_are_their_characters(
    a: &str,
    b: &str,
    r: bool,
    v: Vec<char>,
    from: usize,
    to: usize,
    part: String,
)
    requires
        call_ensures(same, (a, b), r),
        call_ensures(chars_of, (a,), v),
        from <= to <= v@.len(),
        call_ensures(text_of, (&v, from, to), part),
    ensures
        r <==> a@ == b@,
        v@ == a@,
        part@.len() == to - from,
        forall|i: int| 0 <= i < part@.len() ==> (#[trigger] part@[i]) == a@[from + i],
{
}

} // verus!
