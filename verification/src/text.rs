//! Text as sequences of characters: splitting, trimming, numbers.

use vstd::prelude::*;
use vstd::slice::slice_subrange;
use vstd::string::StringExecFns;

verus! {

/// `String::push`: appends one character.
pub assume_specification[ String::push ](s: &mut String, c: char)
    ensures
        final(s)@ == old(s)@.push(c),
;

/// Whether a character has the Unicode `White_Space` property.
pub open spec fn white_space(c: char) -> bool {
    let n = c as u32;
    ||| 0x9 <= n <= 0xd
    ||| n == 0x20
    ||| n == 0x85
    ||| n == 0xa0
    ||| n == 0x1680
    ||| 0x2000 <= n <= 0x200a
    ||| n == 0x2028
    ||| n == 0x2029
    ||| n == 0x202f
    ||| n == 0x205f
    ||| n == 0x3000
}

/// Whether a character has the Unicode `White_Space` property.
pub fn is_space(c: char) -> (r: bool)
    ensures
        r == white_space(c),
{
    let n: u32 = c as u32;
    0x9 <= n && n <= 0xd || n == 0x20 || n == 0x85 || n == 0xa0 || n == 0x1680 || 0x2000 <= n && n
        <= 0x200a || n == 0x2028 || n == 0x2029 || n == 0x202f || n == 0x205f || n == 0x3000
}

/// The same text once more, if there is one.
pub fn copy_option(s: &Option<String>) -> (r: Option<String>)
    ensures
        r == *s,
{
    match s {
        Some(t) => Some(t.clone()),
        None => None,
    }
}

/// The characters of a string.
pub fn chars(s: &str) -> (r: Vec<char>)
    ensures
        r@ == s@,
{
    let mut out: Vec<char> = Vec::new();
    for c in it: s.chars()
        invariant
            out@.len() == it.index(),
            it.seq() == s@,
            forall|i: int| 0 <= i < out@.len() ==> out@[i] == s@[i],
    {
        out.push(c);
    }
    out
}

/// The string made of some characters.
pub fn string(cs: &[char]) -> (r: String)
    ensures
        r@ == cs@,
{
    let mut out = String::new();
    let mut i: usize = 0;
    while i < cs.len()
        invariant
            i <= cs@.len(),
            out@ == cs@.take(i as int),
        decreases cs@.len() - i,
    {
        out.push(cs[i]);
        i = i + 1;
        proof {
            assert(cs@.take(i as int) =~= cs@.take(i - 1).push(cs@[i - 1]));
        }
    }
    proof {
        assert(cs@.take(i as int) =~= cs@);
    }
    out
}

/// The part of `s` from `from` up to `to`.
pub fn part<'a>(s: &'a [char], from: usize, to: usize) -> (r: &'a [char])
    requires
        from <= to <= s@.len(),
    ensures
        r@ == s@.subrange(from as int, to as int),
{
    slice_subrange(s, from, to)
}

/// Whether two texts are the same.
pub fn equal(a: &[char], b: &[char]) -> (r: bool)
    ensures
        r == (a@ == b@),
{
    if a.len() != b.len() {
        return false;
    }
    let mut i: usize = 0;
    while i < a.len()
        invariant
            a@.len() == b@.len(),
            i <= a@.len(),
            forall|k: int| 0 <= k < i ==> a@[k] == b@[k],
        decreases a@.len() - i,
    {
        if a[i] != b[i] {
            return false;
        }
        i = i + 1;
    }
    assert(a@ =~= b@);
    true
}

/// Whether a text is a given string.
pub fn is(s: &[char], lit: &str) -> (r: bool)
    ensures
        r == (s@ == lit@),
{
    equal(s, chars(lit).as_slice())
}

/// Whether two strings are the same.
pub fn same(a: &str, b: &str) -> (r: bool)
    ensures
        r == (a@ == b@),
{
    equal(chars(a).as_slice(), chars(b).as_slice())
}

/// Whether `s` begins with `p`.
pub open spec fn begins(s: Seq<char>, p: Seq<char>) -> bool {
    p.len() <= s.len() && s.take(p.len() as int) == p
}

/// Whether `s` begins with a given string.
pub fn begins_with(s: &[char], lit: &str) -> (r: bool)
    ensures
        r == begins(s@, lit@),
{
    let p = chars(lit);
    if p.len() > s.len() {
        return false;
    }
    let head = part(s, 0, p.len());
    assert(head@ =~= s@.take(p@.len() as int));
    equal(head, p.as_slice())
}

/// What follows a given beginning of `s`.
pub open spec fn without_prefix(s: Seq<char>, p: Seq<char>) -> Option<Seq<char>> {
    if begins(s, p) {
        Some(s.skip(p.len() as int))
    } else {
        None
    }
}

/// What follows a given beginning of `s`, if `s` begins so.
pub fn strip_prefix<'a>(s: &'a [char], lit: &str) -> (r: Option<&'a [char]>)
    ensures
        r is Some <==> without_prefix(s@, lit@) is Some,
        r matches Some(t) ==> without_prefix(s@, lit@) == Some(t@),
{
    if begins_with(s, lit) {
        let n: usize = chars(lit).len();
        let rest = part(s, n, s.len());
        assert(rest@ =~= s@.skip(n as int));
        Some(rest)
    } else {
        None
    }
}

/// Whether `needle` occurs in `s`.
pub open spec fn holds(s: Seq<char>, needle: Seq<char>) -> bool {
    exists|i: int|
        0 <= i <= s.len() - needle.len() && #[trigger] s.subrange(i, i + needle.len()) == needle
}

/// Whether a given string occurs in `s`.
pub fn contains(s: &[char], lit: &str) -> (r: bool)
    ensures
        r == holds(s@, lit@),
{
    let needle = chars(lit);
    if needle.len() > s.len() {
        return false;
    }
    let last: usize = s.len() - needle.len();
    let mut i: usize = 0;
    loop
        invariant
            needle@ == lit@,
            last + needle@.len() == s@.len() <= usize::MAX,
            i <= last,
            forall|k: int|
                0 <= k < i ==> #[trigger] s@.subrange(k, k + needle@.len()) != needle@,
        decreases last - i,
    {
        let here = part(s, i, i + needle.len());
        if equal(here, needle.as_slice()) {
            assert(s@.subrange(i as int, i + lit@.len()) == lit@);
            return true;
        }
        if i == last {
            assert(!holds(s@, lit@)) by {
                assert forall|k: int| 0 <= k <= s@.len() - lit@.len() implies #[trigger] s@.subrange(
                    k,
                    k + lit@.len(),
                ) != lit@ by {
                    if k == i {
                        assert(here@ == s@.subrange(k, k + lit@.len()));
                    }
                }
            }
            return false;
        }
        i = i + 1;
    }
}

/// The place of the first `c` in `s`, or the end of `s`.
pub open spec fn first_index(s: Seq<char>, c: char) -> int
    decreases s.len(),
{
    if s.len() == 0 || s[0] == c {
        0
    } else {
        1 + first_index(s.skip(1), c)
    }
}

/// [`first_index`] is the end, or the first place that holds `c`.
pub proof fn first_index_is_first(s: Seq<char>, c: char)
    ensures
        0 <= first_index(s, c) <= s.len(),
        first_index(s, c) < s.len() ==> s[first_index(s, c)] == c,
        forall|k: int| 0 <= k < first_index(s, c) ==> s[k] != c,
    decreases s.len(),
{
    if s.len() > 0 && s[0] != c {
        first_index_is_first(s.skip(1), c);
        assert forall|k: int| 0 <= k < first_index(s, c) implies s[k] != c by {
            if k > 0 {
                assert(s.skip(1)[k - 1] == s[k]);
            }
        }
    }
}

/// A place that is the end or holds `c`, with no `c` before it, is the first.
pub proof fn first_index_is_unique(s: Seq<char>, c: char, i: int)
    requires
        0 <= i <= s.len(),
        i < s.len() ==> s[i] == c,
        forall|k: int| 0 <= k < i ==> s[k] != c,
    ensures
        first_index(s, c) == i,
{
    first_index_is_first(s, c);
}

/// The place of the first `c` in `s`, or the end of `s`.
pub fn index_of(s: &[char], c: char) -> (r: usize)
    ensures
        r == first_index(s@, c),
        r <= s@.len(),
{
    let mut i: usize = 0;
    while i < s.len()
        invariant
            i <= s@.len(),
            forall|k: int| 0 <= k < i ==> s@[k] != c,
        decreases s@.len() - i,
    {
        if s[i] == c {
            proof {
                first_index_is_unique(s@, c, i as int);
            }
            return i;
        }
        i = i + 1;
    }
    proof {
        first_index_is_unique(s@, c, i as int);
    }
    i
}

/// What stands before and after the first `c`, if there is one.
pub open spec fn cut(s: Seq<char>, c: char) -> Option<(Seq<char>, Seq<char>)> {
    let i = first_index(s, c);
    if i < s.len() {
        Some((s.take(i), s.skip(i + 1)))
    } else {
        None
    }
}

/// What stands before and after the first `c`, if there is one.
pub fn split_once<'a>(s: &'a [char], c: char) -> (r: Option<(&'a [char], &'a [char])>)
    ensures
        r is Some <==> cut(s@, c) is Some,
        r matches Some(p) ==> cut(s@, c) == Some((p.0@, p.1@)),
{
    let i: usize = index_of(s, c);
    if i < s.len() {
        let before = part(s, 0, i);
        let after = part(s, i + 1, s.len());
        assert(before@ =~= s@.take(i as int));
        assert(after@ =~= s@.skip(i + 1));
        Some((before, after))
    } else {
        None
    }
}

/// The contents of some slices.
pub open spec fn texts(v: Seq<&[char]>) -> Seq<Seq<char>> {
    v.map_values(|t: &[char]| t@)
}

/// The parts of `s` between the occurrences of `c`.
pub open spec fn pieces(s: Seq<char>, c: char) -> Seq<Seq<char>>
    decreases s.len(),
    via pieces_shrink
{
    match cut(s, c) {
        Some((before, after)) => seq![before] + pieces(after, c),
        None => seq![s],
    }
}

#[via_fn]
proof fn pieces_shrink(s: Seq<char>, c: char) {
    first_index_is_first(s, c);
}

/// The parts of `s` between the occurrences of `c`.
pub fn split<'a>(s: &'a [char], c: char) -> (r: Vec<&'a [char]>)
    ensures
        texts(r@) == pieces(s@, c),
        r@.len() > 0,
{
    let mut out: Vec<&'a [char]> = Vec::new();
    let mut rest: &'a [char] = s;
    proof {
        assert(texts(out@) =~= Seq::<Seq<char>>::empty());
        assert(Seq::<Seq<char>>::empty() + pieces(s@, c) =~= pieces(s@, c));
    }
    loop
        invariant
            pieces(s@, c) == texts(out@) + pieces(rest@, c),
        decreases rest@.len(),
    {
        proof {
            first_index_is_first(rest@, c);
        }
        let ghost before_out = out@;
        match split_once(rest, c) {
            Some((before, after)) => {
                out.push(before);
                proof {
                    assert(texts(out@) =~= texts(before_out).push(before@));
                    assert(texts(before_out) + (seq![before@] + pieces(after@, c)) =~= texts(
                        before_out,
                    ).push(before@) + pieces(after@, c));
                }
                rest = after;
            },
            None => {
                out.push(rest);
                proof {
                    assert(texts(out@) =~= texts(before_out).push(rest@));
                    assert(texts(before_out) + seq![rest@] =~= texts(before_out).push(rest@));
                }
                return out;
            },
        }
    }
}

/// A line without the carriage return that ends it.
pub open spec fn without_return(s: Seq<char>) -> Seq<char> {
    if s.len() > 0 && s.last() == '\r' {
        s.drop_last()
    } else {
        s
    }
}

/// The lines of a text. A carriage return before a line feed belongs to the
/// line break; a line feed at the end starts no further line.
pub open spec fn lines_of(s: Seq<char>) -> Seq<Seq<char>>
    decreases s.len(),
    via lines_shrink
{
    match cut(s, '\n') {
        Some((before, after)) => seq![without_return(before)] + lines_of(after),
        None => if s.len() == 0 {
            Seq::empty()
        } else {
            seq![s]
        },
    }
}

#[via_fn]
proof fn lines_shrink(s: Seq<char>) {
    first_index_is_first(s, '\n');
}

/// The lines of a text.
pub fn lines<'a>(s: &'a [char]) -> (r: Vec<&'a [char]>)
    ensures
        texts(r@) == lines_of(s@),
{
    let mut out: Vec<&'a [char]> = Vec::new();
    let mut rest: &'a [char] = s;
    proof {
        assert(texts(out@) =~= Seq::<Seq<char>>::empty());
        assert(Seq::<Seq<char>>::empty() + lines_of(s@) =~= lines_of(s@));
    }
    loop
        invariant
            lines_of(s@) == texts(out@) + lines_of(rest@),
        decreases rest@.len(),
    {
        proof {
            first_index_is_first(rest@, '\n');
        }
        let ghost before_out = out@;
        match split_once(rest, '\n') {
            Some((before, after)) => {
                let n: usize = before.len();
                let line = if n > 0 && before[n - 1] == '\r' {
                    part(before, 0, n - 1)
                } else {
                    before
                };
                out.push(line);
                proof {
                    assert(line@ =~= without_return(before@));
                    assert(texts(out@) =~= texts(before_out).push(line@));
                    assert(texts(before_out) + (seq![line@] + lines_of(after@)) =~= texts(
                        before_out,
                    ).push(line@) + lines_of(after@));
                }
                rest = after;
            },
            None => {
                if rest.len() > 0 {
                    out.push(rest);
                    proof {
                        assert(texts(out@) =~= texts(before_out).push(rest@));
                        assert(texts(before_out) + seq![rest@] =~= texts(before_out).push(rest@));
                    }
                } else {
                    proof {
                        assert(texts(out@) + Seq::<Seq<char>>::empty() =~= texts(out@));
                    }
                }
                return out;
            },
        }
    }
}

/// `s` without white space at its start.
pub open spec fn trim_front(s: Seq<char>) -> Seq<char>
    decreases s.len(),
{
    if s.len() > 0 && white_space(s[0]) {
        trim_front(s.skip(1))
    } else {
        s
    }
}

/// `s` without white space at its end.
pub open spec fn trim_back(s: Seq<char>) -> Seq<char>
    decreases s.len(),
{
    if s.len() > 0 && white_space(s.last()) {
        trim_back(s.drop_last())
    } else {
        s
    }
}

/// `s` without white space around it.
pub open spec fn trimmed(s: Seq<char>) -> Seq<char> {
    trim_back(trim_front(s))
}

/// `s` without white space around it.
pub fn trim<'a>(s: &'a [char]) -> (r: &'a [char])
    ensures
        r@ == trimmed(s@),
{
    let mut from: usize = 0;
    assert(s@.skip(0) =~= s@);
    while from < s.len() && is_space(s[from])
        invariant
            from <= s@.len(),
            trim_front(s@) == trim_front(s@.skip(from as int)),
        decreases s@.len() - from,
    {
        assert(s@.skip(from as int).skip(1) =~= s@.skip(from + 1));
        from = from + 1;
    }
    assert(trim_front(s@) == s@.skip(from as int));
    let mut to: usize = s.len();
    assert(s@.subrange(from as int, to as int) =~= s@.skip(from as int));
    while to > from && is_space(s[to - 1])
        invariant
            from <= to <= s@.len(),
            trimmed(s@) == trim_back(s@.subrange(from as int, to as int)),
        decreases to,
    {
        assert(s@.subrange(from as int, to as int).drop_last() =~= s@.subrange(
            from as int,
            to - 1,
        ));
        to = to - 1;
    }
    part(s, from, to)
}

/// How many characters of `s` stand before the first white space.
pub open spec fn word_len(s: Seq<char>) -> int
    decreases s.len(),
{
    if s.len() == 0 || white_space(s[0]) {
        0
    } else {
        1 + word_len(s.skip(1))
    }
}

proof fn word_len_bound(s: Seq<char>)
    ensures
        0 <= word_len(s) <= s.len(),
        s.len() > 0 && !white_space(s[0]) ==> word_len(s) > 0,
    decreases s.len(),
{
    if s.len() > 0 && !white_space(s[0]) {
        word_len_bound(s.skip(1));
    }
}

/// The words of `s`: its longest parts without white space.
pub open spec fn words_of(s: Seq<char>) -> Seq<Seq<char>>
    decreases s.len(),
    via words_shrink
{
    if s.len() == 0 {
        Seq::empty()
    } else if white_space(s[0]) {
        words_of(s.skip(1))
    } else {
        seq![s.take(word_len(s))] + words_of(s.skip(word_len(s)))
    }
}

#[via_fn]
proof fn words_shrink(s: Seq<char>) {
    word_len_bound(s);
}

/// The words of `s`.
pub fn words<'a>(s: &'a [char]) -> (r: Vec<&'a [char]>)
    ensures
        texts(r@) == words_of(s@),
{
    let mut out: Vec<&'a [char]> = Vec::new();
    let mut at: usize = 0;
    proof {
        assert(s@.skip(0) =~= s@);
        assert(texts(out@) =~= Seq::<Seq<char>>::empty());
        assert(Seq::<Seq<char>>::empty() + words_of(s@) =~= words_of(s@));
    }
    while at < s.len()
        invariant
            at <= s@.len(),
            words_of(s@) == texts(out@) + words_of(s@.skip(at as int)),
        decreases s@.len() - at,
    {
        let ghost rest = s@.skip(at as int);
        if is_space(s[at]) {
            assert(rest.skip(1) =~= s@.skip(at + 1));
            at = at + 1;
        } else {
            let from: usize = at;
            assert(rest.skip(0) =~= rest);
            while at < s.len() && !is_space(s[at])
                invariant
                    from <= at <= s@.len(),
                    rest == s@.skip(from as int),
                    word_len(rest) == at - from + word_len(s@.skip(at as int)),
                decreases s@.len() - at,
            {
                assert(s@.skip(at as int).skip(1) =~= s@.skip(at + 1));
                at = at + 1;
            }
            let word = part(s, from, at);
            let ghost before_out = out@;
            out.push(word);
            proof {
                word_len_bound(rest);
                assert(word_len(rest) == at - from);
                assert(word@ =~= rest.take(at - from));
                assert(rest.skip(at - from) =~= s@.skip(at as int));
                assert(texts(out@) =~= texts(before_out).push(word@));
                assert(texts(before_out) + (seq![word@] + words_of(s@.skip(at as int))) =~= texts(
                    before_out,
                ).push(word@) + words_of(s@.skip(at as int)));
            }
        }
    }
    proof {
        assert(s@.skip(at as int) =~= Seq::<char>::empty());
        assert(texts(out@) + Seq::<Seq<char>>::empty() =~= texts(out@));
    }
    out
}

/// An ASCII capital as a small letter; any other character as it is.
pub open spec fn lower_char(c: char) -> char {
    if 'A' <= c <= 'Z' {
        (c as u8 + 32) as char
    } else {
        c
    }
}

/// `s` with ASCII capitals as small letters.
pub open spec fn lowered(s: Seq<char>) -> Seq<char> {
    s.map_values(|c: char| lower_char(c))
}

/// `s` with ASCII capitals as small letters.
pub fn lower(s: &[char]) -> (r: Vec<char>)
    ensures
        r@ == lowered(s@),
{
    let mut out: Vec<char> = Vec::new();
    let mut i: usize = 0;
    while i < s.len()
        invariant
            i <= s@.len(),
            out@.len() == i,
            forall|k: int| 0 <= k < i ==> out@[k] == lower_char(s@[k]),
        decreases s@.len() - i,
    {
        let c: char = s[i];
        let l: char = if 'A' <= c && c <= 'Z' {
            (c as u8 + 32) as char
        } else {
            c
        };
        out.push(l);
        i = i + 1;
    }
    assert(out@ =~= lowered(s@));
    out
}

/// The digits of `n` in base ten, without leading zeros.
pub open spec fn dec(n: nat) -> Seq<char>
    decreases n,
{
    if n < 10 {
        seq![digit_char(n)]
    } else {
        dec(n / 10).push(digit_char(n % 10))
    }
}

/// The character of a digit.
pub open spec fn digit_char(d: nat) -> char {
    (48 + d) as u8 as char
}

/// The digits of `n` in base ten.
pub fn decimal(n: u64) -> (r: String)
    ensures
        r@ == dec(n as nat),
    decreases n,
{
    let d: char = (48 + (n % 10) as u8) as char;
    if n < 10 {
        let mut out = String::new();
        out.push(d);
        assert(out@ =~= seq![digit_char(n as nat)]);
        out
    } else {
        let mut out = decimal(n / 10);
        out.push(d);
        out
    }
}

/// The value of a decimal digit.
pub open spec fn digit_value(c: char) -> Option<nat> {
    if '0' <= c <= '9' {
        Some((c as nat - 48) as nat)
    } else {
        None
    }
}

/// The number that digits write, if all are digits and there is one.
pub open spec fn digits_value(s: Seq<char>) -> Option<nat>
    decreases s.len(),
{
    if s.len() == 0 {
        None
    } else {
        match digit_value(s.last()) {
            None => None,
            Some(d) => if s.len() == 1 {
                Some(d)
            } else {
                match digits_value(s.drop_last()) {
                    None => None,
                    Some(v) => Some(v * 10 + d),
                }
            },
        }
    }
}

/// The number that a text writes: digits, with at most a plus sign before.
pub open spec fn number(s: Seq<char>) -> Option<nat> {
    if s.len() > 0 && s[0] == '+' {
        digits_value(s.skip(1))
    } else {
        digits_value(s)
    }
}

/// A number that is not above `max`.
pub open spec fn number_upto(s: Seq<char>, max: nat) -> Option<nat> {
    match number(s) {
        Some(v) => if v <= max {
            Some(v)
        } else {
            None
        },
        None => None,
    }
}

/// A text of digits is a number no smaller than that of a beginning of it.
proof fn digits_grow(s: Seq<char>, n: int)
    requires
        0 < n <= s.len(),
        digits_value(s) is Some,
    ensures
        digits_value(s.take(n)) is Some,
        digits_value(s.take(n))->0 <= digits_value(s)->0,
    decreases s.len(),
{
    if n == s.len() {
        assert(s.take(n) =~= s);
    } else {
        assert(s.drop_last().take(n) =~= s.take(n));
        digits_grow(s.drop_last(), n);
    }
}

/// The digits of a number are read back as that number.
pub proof fn dec_read_back(n: nat)
    ensures
        digits_value(dec(n)) == Some(n),
        dec(n).len() > 0,
        forall|i: int| 0 <= i < dec(n).len() ==> '0' <= #[trigger] dec(n)[i] <= '9',
        dec(n).len() > 1 ==> dec(n)[0] != '0',
        n > 0 ==> dec(n)[0] != '0',
    decreases n,
{
    if n >= 10 {
        dec_read_back(n / 10);
        assert(dec(n).drop_last() =~= dec(n / 10));
        assert forall|i: int| 0 <= i < dec(n).len() implies '0' <= #[trigger] dec(n)[i] <= '9' by {
            if i < dec(n).len() - 1 {
                assert(dec(n)[i] == dec(n / 10)[i]);
            }
        }
        assert(dec(n)[0] == dec(n / 10)[0]);
    }
}

/// The number that a text writes, if it is not above `max`.
pub fn parse_number(s: &[char], max: u64) -> (r: Option<u64>)
    ensures
        r is Some <==> number_upto(s@, max as nat) is Some,
        r matches Some(v) ==> number_upto(s@, max as nat) == Some(v as nat),
{
    let from: usize = if s.len() > 0 && s[0] == '+' {
        1
    } else {
        0
    };
    let body = part(s, from, s.len());
    proof {
        if from == 1 {
            assert(body@ =~= s@.skip(1));
        } else {
            assert(body@ =~= s@);
        }
    }
    if body.len() == 0 {
        return None;
    }
    let mut acc: u64 = 0;
    let mut i: usize = 0;
    while i < body.len()
        invariant
            0 < body@.len(),
            i <= body@.len(),
            number(s@) == digits_value(body@),
            i > 0 ==> digits_value(body@.take(i as int)) == Some(acc as nat),
            i == 0 ==> acc == 0,
            acc <= max,
        decreases body@.len() - i,
    {
        let c: char = body[i];
        let ghost next = body@.take(i + 1);
        proof {
            assert(next.drop_last() =~= body@.take(i as int));
            assert(next.last() == c);
            if digits_value(body@) is Some {
                digits_grow(body@, i + 1);
            }
        }
        if !('0' <= c && c <= '9') {
            return None;
        }
        let d: u64 = (c as u8 - 48) as u64;
        let wide: u128 = acc as u128 * 10 + d as u128;
        if wide > max as u128 {
            return None;
        }
        acc = wide as u64;
        i = i + 1;
    }
    proof {
        assert(body@.take(i as int) =~= body@);
    }
    Some(acc)
}

/// `a` and `b` one after the other.
pub fn cat2(a: &str, b: &str) -> (r: String)
    ensures
        r@ == a@ + b@,
{
    let mut out = a.to_owned();
    out.append(b);
    out
}

/// `a`, `b` and `c` one after the other.
pub fn cat3(a: &str, b: &str, c: &str) -> (r: String)
    ensures
        r@ == a@ + b@ + c@,
{
    let mut out = a.to_owned();
    out.append(b);
    out.append(c);
    out
}

// What the operations on text do.

/// A text begins with another exactly when it continues it, and what is left
/// without the prefix is the continuation.
pub proof fn a_prefix_comes_off(p: Seq<char>, rest: Seq<char>, s: Seq<char>)
    ensures
        begins(p + rest, p),
        without_prefix(p + rest, p) == Some(rest),
        begins(s, p) <==> exists|t: Seq<char>| s == #[trigger] (p + t),
        without_prefix(s, p) is Some <==> begins(s, p),
{
    assert((p + rest).take(p.len() as int) =~= p);
    assert((p + rest).skip(p.len() as int) =~= rest);
    if begins(s, p) {
        assert(s =~= p + s.skip(p.len() as int));
    }
    assert forall|t: Seq<char>| s == #[trigger] (p + t) implies begins(s, p) by {
        assert(s.take(p.len() as int) =~= p);
    }
}

/// A text holds what stands anywhere in it.
pub proof fn an_inner_text_is_held(a: Seq<char>, needle: Seq<char>, b: Seq<char>)
    ensures
        holds(a + needle + b, needle),
{
    let s = a + needle + b;
    assert(s.subrange(a.len() as int, a.len() as int + needle.len()) =~= needle);
}

/// A text is cut at the first such character, and only where there is one.
pub proof fn a_cut_is_at_the_first(a: Seq<char>, c: char, b: Seq<char>)
    requires
        !a.contains(c),
    ensures
        cut(a.push(c) + b, c) == Some((a, b)),
        cut(a, c) is None,
{
    let s = a.push(c) + b;
    let n = a.len() as int;
    assert forall|k: int| 0 <= k < n implies s[k] != c by {
        assert(s[k] == a[k]);
        assert(a.contains(a[k]));
    }
    first_index_is_unique(s, c, n);
    assert(s.take(n) =~= a);
    assert(s.skip(n + 1) =~= b);
    assert forall|k: int| 0 <= k < n implies a[k] != c by {
        assert(a.contains(a[k]));
    }
    first_index_is_unique(a, c, n);
}

/// The pieces of a text are what stands between the separators.
pub proof fn pieces_stand_between_separators(a: Seq<char>, c: char, b: Seq<char>)
    requires
        !a.contains(c),
    ensures
        pieces(a, c) == seq![a],
        pieces(a.push(c) + b, c) == seq![a] + pieces(b, c),
{
    a_cut_is_at_the_first(a, c, b);
}

/// The lines of a text are what stands between the line ends, which are a line
/// feed, or a carriage return and a line feed; there is no line after the last
/// line end.
pub proof fn lines_stand_between_line_ends(a: Seq<char>, b: Seq<char>)
    requires
        !a.contains('\n'),
    ensures
        lines_of(Seq::empty()) == Seq::<Seq<char>>::empty(),
        a.len() > 0 ==> lines_of(a) == seq![a],
        a.len() == 0 || a.last() != '\r' ==> lines_of(a.push('\n') + b) == seq![a] + lines_of(b),
        lines_of(a.push('\r').push('\n') + b) == seq![a] + lines_of(b),
{
    a_cut_is_at_the_first(a, '\n', b);
    let none = Seq::<char>::empty();
    a_cut_is_at_the_first(none, '\n', b);
    let r = a.push('\r');
    assert(!r.contains('\n')) by {
        if r.contains('\n') {
            let k = choose|k: int| 0 <= k < r.len() && r[k] == '\n';
            assert(a[k] == '\n');
        }
    }
    a_cut_is_at_the_first(r, '\n', b);
    assert(r.drop_last() =~= a);
}

/// What is trimmed off a text, on either side, is white space, and what is left
/// neither begins nor ends with any.
pub proof fn trimming_takes_the_outer_space(s: Seq<char>)
    ensures
        trimmed(s).len() > 0 ==> !white_space(trimmed(s)[0]) && !white_space(trimmed(s).last()),
        exists|i: int, j: int|
            0 <= i <= j <= s.len() && trimmed(s) == #[trigger] s.subrange(i, j) && (forall|k: int|
                0 <= k < i ==> white_space(#[trigger] s[k])) && (forall|k: int|
                j <= k < s.len() ==> white_space(#[trigger] s[k])),
{
    let i = trimmed_front(s);
    let f = trim_front(s);
    let n = trimmed_back(f);
    let j = i + n;
    assert(trimmed(s) =~= s.subrange(i, j));
    if n > 0 {
        assert(trimmed(s)[0] == f[0]);
    }
    assert forall|k: int| j <= k < s.len() implies white_space(#[trigger] s[k]) by {
        assert(f[k - i] == s[k]);
    }
}

proof fn trimmed_front(s: Seq<char>) -> (i: int)
    ensures
        0 <= i <= s.len(),
        trim_front(s) == s.skip(i),
        forall|k: int| 0 <= k < i ==> white_space(#[trigger] s[k]),
        i < s.len() ==> !white_space(s[i]),
    decreases s.len(),
{
    if s.len() > 0 && white_space(s[0]) {
        let i = trimmed_front(s.skip(1));
        assert(s.skip(1).skip(i) =~= s.skip(i + 1));
        assert forall|k: int| 0 <= k < i + 1 implies white_space(#[trigger] s[k]) by {
            if k > 0 {
                assert(s.skip(1)[k - 1] == s[k]);
            }
        }
        if i + 1 < s.len() {
            assert(s.skip(1)[i] == s[i + 1]);
        }
        i + 1
    } else {
        assert(s.skip(0) =~= s);
        0
    }
}

proof fn trimmed_back(s: Seq<char>) -> (n: int)
    ensures
        0 <= n <= s.len(),
        trim_back(s) == s.take(n),
        forall|k: int| n <= k < s.len() ==> white_space(#[trigger] s[k]),
        n > 0 ==> !white_space(s[n - 1]),
    decreases s.len(),
{
    if s.len() > 0 && white_space(s.last()) {
        let n = trimmed_back(s.drop_last());
        assert(s.drop_last().take(n) =~= s.take(n));
        assert forall|k: int| n <= k < s.len() implies white_space(#[trigger] s[k]) by {
            if k < s.len() - 1 {
                assert(s.drop_last()[k] == s[k]);
            }
        }
        n
    } else {
        assert(s.take(s.len() as int) =~= s);
        s.len() as int
    }
}

/// A text without white space at its ends stays as it is.
pub proof fn a_trimmed_text_stays(s: Seq<char>)
    requires
        s.len() > 0 ==> !white_space(s[0]) && !white_space(s.last()),
    ensures
        trimmed(s) == s,
{
}

/// The words of a text are what stands between white space.
pub proof fn words_stand_between_spaces(w: Seq<char>, space: char, rest: Seq<char>)
    requires
        w.len() > 0,
        forall|k: int| 0 <= k < w.len() ==> !white_space(#[trigger] w[k]),
        white_space(space),
    ensures
        words_of(Seq::empty()) == Seq::<Seq<char>>::empty(),
        words_of(w) == seq![w],
        words_of(seq![space] + rest) == words_of(rest),
        words_of(w.push(space) + rest) == seq![w] + words_of(rest),
{
    let s = w.push(space) + rest;
    word_ends(w, w);
    word_ends(s, w);
    assert(w.take(w.len() as int) =~= w);
    assert(w.skip(w.len() as int) =~= Seq::<char>::empty());
    assert(s.take(w.len() as int) =~= w);
    let tail = seq![space] + rest;
    assert(s.skip(w.len() as int) =~= tail);
    assert(tail.skip(1) =~= rest);
    assert(s[0] == w[0]);
    assert(words_of(Seq::<char>::empty()) == Seq::<Seq<char>>::empty());
    assert(words_of(tail) == words_of(rest));
}

proof fn word_ends(s: Seq<char>, w: Seq<char>)
    requires
        w.len() <= s.len(),
        forall|k: int| 0 <= k < w.len() ==> s[k] == #[trigger] w[k],
        forall|k: int| 0 <= k < w.len() ==> !white_space(#[trigger] w[k]),
        w.len() == s.len() || white_space(s[w.len() as int]),
    ensures
        word_len(s) == w.len(),
    decreases w.len(),
{
    if w.len() > 0 {
        assert(s[0] == w[0]);
        let (s1, w1) = (s.skip(1), w.skip(1));
        assert forall|k: int| 0 <= k < w1.len() implies s1[k] == #[trigger] w1[k] by {
            assert(s[k + 1] == w[k + 1]);
        }
        assert forall|k: int| 0 <= k < w1.len() implies !white_space(#[trigger] w1[k]) by {
            assert(w1[k] == w[k + 1]);
        }
        word_ends(s1, w1);
    }
}

/// The visible characters of ASCII are no white space; its blanks are.
pub proof fn what_is_white_space(c: char)
    ensures
        '!' <= c <= '~' ==> !white_space(c),
        c == ' ' || c == '\t' || c == '\n' || c == '\r' ==> white_space(c),
{
}

/// Lower case changes the capital letters of ASCII to their small ones, and
/// nothing else.
pub proof fn capitals_are_lowered(s: Seq<char>, i: int)
    requires
        0 <= i < s.len(),
    ensures
        lowered(s).len() == s.len(),
        'A' <= s[i] <= 'Z' ==> lowered(s)[i] as int == s[i] as int - 'A' as int + 'a' as int,
        !('A' <= s[i] <= 'Z') ==> lowered(s)[i] == s[i],
{
}

/// Digits are read in base ten, most significant first, and nothing but digits
/// is read.
pub proof fn digits_are_read_in_base_ten(s: Seq<char>, d: char)
    ensures
        digits_value(Seq::empty()) is None,
        digits_value(s) is Some ==> s.len() > 0 && forall|i: int|
            0 <= i < s.len() ==> '0' <= #[trigger] s[i] <= '9',
        s.len() > 0 && (forall|i: int| 0 <= i < s.len() ==> '0' <= #[trigger] s[i] <= '9')
            ==> digits_value(s) is Some,
        '0' <= d <= '9' ==> digits_value(seq![d]) == Some((d as int - '0' as int) as nat),
        '0' <= d <= '9' && digits_value(s) is Some ==> digits_value(s.push(d)) == Some(
            (10 * digits_value(s)->0 + d as int - '0' as int) as nat,
        ),
    decreases s.len(),
{
    reveal_with_fuel(digits_value, 2);
    assert(s.push(d).drop_last() =~= s);
    if s.len() > 0 {
        let front = s.drop_last();
        digits_are_read_in_base_ten(front, d);
        if digits_value(s) is Some {
            assert forall|i: int| 0 <= i < s.len() implies '0' <= #[trigger] s[i] <= '9' by {
                if i < front.len() {
                    assert(front[i] == s[i]);
                }
            }
        }
        if forall|i: int| 0 <= i < s.len() ==> '0' <= #[trigger] s[i] <= '9' {
            assert forall|i: int| 0 <= i < front.len() implies '0' <= #[trigger] front[i]
                <= '9' by {
                assert(front[i] == s[i]);
            }
            assert('0' <= s[s.len() - 1] <= '9');
        }
    }
}

/// A number is its digits, with or without a plus sign, and one that is too
/// large is none.
pub proof fn numbers_are_bounded(s: Seq<char>, max: nat)
    requires
        digits_value(s) is Some,
    ensures
        number_upto(s, max) == (if digits_value(s)->0 <= max {
            digits_value(s)
        } else {
            None
        }),
        number_upto(seq!['+'] + s, max) == number_upto(s, max),
        number_upto(seq!['-'] + s, max) is None,
        number_upto(Seq::empty(), max) is None,
{
    digits_are_read_in_base_ten(s, '0');
    assert('0' <= s[0] <= '9');
    let plus = seq!['+'] + s;
    assert(plus.skip(1) =~= s);
    let minus = seq!['-'] + s;
    digits_are_read_in_base_ten(minus, '0');
    assert(minus[0] == '-');
    let none = Seq::<char>::empty();
    digits_are_read_in_base_ten(none, '0');
}

/// A text holds what any prefix of it ends with.
pub proof fn what_a_prefix_ends_with_is_held(a: Seq<char>, x: Seq<char>, all: Seq<char>)
    requires
        (a + x).is_prefix_of(all),
    ensures
        holds(all, x),
{
    let n = (a.len() + x.len()) as int;
    an_inner_text_is_held(a, x, all.skip(n));
    assert(a + x + all.skip(n) =~= all);
}

/// What a prefix begins with is a prefix too.
pub proof fn a_front_is_a_prefix(a: Seq<char>, b: Seq<char>, all: Seq<char>)
    requires
        (a + b).is_prefix_of(all),
    ensures
        a.is_prefix_of(all),
{
    assert(all.take(a.len() as int) =~= (a + b).take(a.len() as int));
    assert((a + b).take(a.len() as int) =~= a);
}

} // verus!
