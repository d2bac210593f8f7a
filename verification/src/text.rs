//! Character-level text operations used by the controller logic: substring
//! search, removal of a pattern, splitting at a separator, and decimal
//! parsing. Texts are handled as sequences of `char`.

use vstd::prelude::*;

verus! {

/// The characters of a string slice.
pub fn chars_of(s: &str) -> (r: Vec<char>)
    ensures
        r@ == s@,
{
    let mut r: Vec<char> = Vec::new();
    for c in it: s.chars()
        invariant
            r@ == it.seq().take(it.index() as int),
    {
        r.push(c);
    }
    assert(r@ =~= s@);
    r
}

/// Appends a character to a string (`String::push`).
#[verifier::external_body]
fn push_char(s: &mut String, c: char)
    ensures
        final(s)@ == old(s)@.push(c),
{
    s.push(c);
}

/// The string made of the given characters.
pub fn string_of(chars: &Vec<char>) -> (r: String)
    ensures
        r@ == chars@,
{
    let mut r = String::new();
    let n = chars.len();
    for i in 0..n
        invariant
            n == chars@.len(),
            r@ == chars@.take(i as int),
    {
        push_char(&mut r, chars[i]);
        assert(chars@.take(i + 1) =~= chars@.take(i as int).push(chars@[i as int]));
    }
    assert(chars@.take(n as int) =~= chars@);
    r
}

/// Whether `needle` occurs in `hay` at position `i`.
pub open spec fn occurs_at(hay: Seq<char>, needle: Seq<char>, i: int) -> bool {
    0 <= i && i + needle.len() <= hay.len() && hay.subrange(i, i + needle.len()) == needle
}

/// Whether `needle` occurs anywhere in `hay`.
pub open spec fn contains_text(hay: Seq<char>, needle: Seq<char>) -> bool {
    exists|i: int| occurs_at(hay, needle, i)
}

/// The characters of `hay` from position `i` on spell `needle`, character
/// by character.
pub open spec fn spells_at(hay: Seq<char>, needle: Seq<char>, i: int) -> bool {
    &&& 0 <= i
    &&& i + needle.len() <= hay.len()
    &&& forall|k: int| 0 <= k < needle.len() ==> hay[i + k] == #[trigger] needle[k]
}

/// A text holds a needle wherever it stands: when the characters of `hay`
/// from position `i` on spell `needle`, `hay` contains `needle`, whatever
/// comes before or after it.
pub proof fn lemma_found_anywhere(hay: Seq<char>, needle: Seq<char>, i: int)
    requires
        spells_at(hay, needle, i),
    ensures
        contains_text(hay, needle),
{
    assert(hay.subrange(i, i + needle.len()) =~= needle);
    assert(occurs_at(hay, needle, i));
}

/// A text contains a needle only where its characters spell it somewhere.
pub proof fn lemma_found_somewhere(hay: Seq<char>, needle: Seq<char>)
    requires
        contains_text(hay, needle),
    ensures
        exists|i: int| #[trigger] spells_at(hay, needle, i),
{
    let i = choose|i: int| occurs_at(hay, needle, i);
    assert forall|k: int| 0 <= k < needle.len() implies hay[i + k] == #[trigger] needle[k] by {
        assert(hay.subrange(i, i + needle.len())[k] == hay[i + k]);
    }
    assert(spells_at(hay, needle, i));
}

/// Text around an occurrence does not hide it: if `hay` contains `needle`,
/// so does `before + hay + after`.
pub proof fn lemma_contains_in_context(
    before: Seq<char>,
    hay: Seq<char>,
    after: Seq<char>,
    needle: Seq<char>,
)
    requires
        contains_text(hay, needle),
    ensures
        contains_text(before + hay + after, needle),
{
    lemma_found_somewhere(hay, needle);
    let i = choose|i: int| #[trigger] spells_at(hay, needle, i);
    let whole = before + hay + after;
    assert forall|k: int| 0 <= k < needle.len() implies whole[before.len() + i + k]
        == #[trigger] needle[k] by {
        assert(whole[before.len() + i + k] == hay[i + k]);
    }
    lemma_found_anywhere(whole, needle, before.len() + i);
}

/// Tests whether `needle` occurs in `hay` at position `i`.
pub fn matches_at(hay: &Vec<char>, needle: &Vec<char>, i: usize) -> (r: bool)
    ensures
        r == occurs_at(hay@, needle@, i as int),
{
    if i > hay.len() || needle.len() > hay.len() - i {
        return false;
    }
    let n = needle.len();
    for k in 0..n
        invariant
            n == needle@.len(),
            i + n <= hay.len(),
            forall|j: int| 0 <= j < k ==> hay@[i + j] == needle@[j],
    {
        if hay[i + k] != needle[k] {
            assert(hay@.subrange(i as int, i + n)[k as int] != needle@[k as int]);
            return false;
        }
    }
    assert(hay@.subrange(i as int, i + n) =~= needle@);
    true
}

/// Tests whether `needle` occurs in `hay`.
pub fn text_contains(hay: &Vec<char>, needle: &Vec<char>) -> (r: bool)
    ensures
        r == contains_text(hay@, needle@),
{
    let n = hay.len();
    for i in 0..n
        invariant
            n == hay@.len(),
            forall|j: int| 0 <= j < i ==> !occurs_at(hay@, needle@, j),
    {
        if matches_at(hay, needle, i) {
            return true;
        }
    }
    if matches_at(hay, needle, n) {
        return true;
    }
    assert forall|j: int| !occurs_at(hay@, needle@, j) by {
        if 0 <= j <= n {
        }
    }
    false
}

/// The text `s` with every occurrence of the non-empty pattern `p` removed,
/// occurrences taken from left to right without overlap.
pub open spec fn remove_all(s: Seq<char>, p: Seq<char>) -> Seq<char>
    recommends
        p.len() > 0,
    decreases s.len(),
{
    if s.len() == 0 {
        s
    } else if p.len() > 0 && occurs_at(s, p, 0) {
        remove_all(s.skip(p.len() as int), p)
    } else {
        seq![s[0]] + remove_all(s.drop_first(), p)
    }
}

/// A text in which the pattern does not occur is left as it is.
pub proof fn lemma_remove_absent(s: Seq<char>, p: Seq<char>)
    requires
        p.len() > 0,
        !contains_text(s, p),
    ensures
        remove_all(s, p) == s,
    decreases s.len(),
{
    if s.len() > 0 {
        assert(!occurs_at(s, p, 0));
        assert forall|i: int| !occurs_at(s.drop_first(), p, i) by {
            if occurs_at(s.drop_first(), p, i) {
                assert(s.subrange(i + 1, i + 1 + p.len()) =~= s.drop_first().subrange(
                    i,
                    i + p.len(),
                ));
                assert(occurs_at(s, p, i + 1));
            }
        }
        lemma_remove_absent(s.drop_first(), p);
        assert(seq![s[0]] + s.drop_first() =~= s);
    }
}

/// An occurrence of the pattern at the start is dropped: removing `p` from
/// `p + s` gives what removing it from `s` gives.
pub proof fn lemma_remove_leading(s: Seq<char>, p: Seq<char>)
    requires
        p.len() > 0,
    ensures
        remove_all(p + s, p) == remove_all(s, p),
{
    let t = p + s;
    assert(t.subrange(0, p.len() as int) =~= p);
    assert(occurs_at(t, p, 0));
    assert(t.skip(p.len() as int) =~= s);
}

/// Removes every occurrence of the non-empty pattern `p` from `s`.
pub fn remove_pattern(s: &Vec<char>, p: &Vec<char>) -> (r: Vec<char>)
    requires
        p@.len() > 0,
    ensures
        r@ == remove_all(s@, p@),
{
    let mut r: Vec<char> = Vec::new();
    let mut i: usize = 0;
    let n = s.len();
    assert(s@.skip(0) =~= s@);
    while i < n
        invariant
            n == s@.len(),
            i <= n,
            p@.len() > 0,
            r@ + remove_all(s@.skip(i as int), p@) == remove_all(s@, p@),
        decreases n - i,
    {
        let rest = Ghost(s@.skip(i as int));
        if matches_at(s, p, i) {
            assert(occurs_at(rest@, p@, 0)) by {
                assert(rest@.subrange(0, p@.len() as int) =~= s@.subrange(
                    i as int,
                    i + p@.len(),
                ));
            }
            assert(rest@.skip(p@.len() as int) =~= s@.skip(i + p@.len()));
            i = i + p.len();
        } else {
            assert(!occurs_at(rest@, p@, 0)) by {
                if occurs_at(rest@, p@, 0) {
                    assert(rest@.subrange(0, p@.len() as int) =~= s@.subrange(
                        i as int,
                        i + p@.len(),
                    ));
                }
            }
            assert(rest@.drop_first() =~= s@.skip(i + 1));
            let ghost before = r@;
            r.push(s[i]);
            assert(r@ + remove_all(s@.skip(i + 1), p@) =~= before + (seq![s@[i as int]]
                + remove_all(s@.skip(i + 1), p@)));
            i = i + 1;
        }
    }
    assert(s@.skip(n as int) =~= Seq::<char>::empty());
    assert(r@ + Seq::<char>::empty() =~= r@);
    r
}

/// The pieces of `s` between occurrences of `sep`, given the pieces already
/// complete and the piece being read.
pub open spec fn split_from(
    s: Seq<char>,
    sep: char,
    done: Seq<Seq<char>>,
    current: Seq<char>,
) -> Seq<Seq<char>>
    decreases s.len(),
{
    if s.len() == 0 {
        done.push(current)
    } else if s[0] == sep {
        split_from(s.drop_first(), sep, done.push(current), Seq::empty())
    } else {
        split_from(s.drop_first(), sep, done, current.push(s[0]))
    }
}

/// The pieces of `s` between occurrences of `sep` (`str::split` with a
/// one-character pattern): one more piece than there are separators.
pub open spec fn split_text(s: Seq<char>, sep: char) -> Seq<Seq<char>> {
    split_from(s, sep, Seq::empty(), Seq::empty())
}

/// Splits `s` at every occurrence of `sep`.
pub fn split_at_char(s: &Vec<char>, sep: char) -> (r: Vec<Vec<char>>)
    ensures
        r@.len() == split_text(s@, sep).len(),
        forall|k: int| 0 <= k < r@.len() ==> #[trigger] r@[k]@ == split_text(s@, sep)[k],
{
    let mut done: Vec<Vec<char>> = Vec::new();
    let mut current: Vec<char> = Vec::new();
    let n = s.len();
    assert(s@.skip(0) =~= s@);
    assert(done@.map_values(|piece: Vec<char>| piece@) =~= Seq::<Seq<char>>::empty());
    for i in 0..n
        invariant
            n == s@.len(),
            split_from(
                s@.skip(i as int),
                sep,
                done@.map_values(|piece: Vec<char>| piece@),
                current@,
            ) == split_text(s@, sep),
    {
        let ghost rest = s@.skip(i as int);
        assert(rest.drop_first() =~= s@.skip(i + 1));
        let c = s[i];
        if c == sep {
            let ghost old_done = done@.map_values(|piece: Vec<char>| piece@);
            let piece = current;
            done.push(piece);
            current = Vec::new();
            assert(done@.map_values(|piece: Vec<char>| piece@) =~= old_done.push(piece@));
            assert(current@ =~= Seq::<char>::empty());
        } else {
            current.push(c);
        }
    }
    let ghost old_done = done@.map_values(|piece: Vec<char>| piece@);
    assert(s@.skip(n as int) =~= Seq::<char>::empty());
    done.push(current);
    assert(done@.map_values(|piece: Vec<char>| piece@) =~= old_done.push(current@));
    done
}

/// Whether a character is a decimal digit.
pub open spec fn is_digit(c: char) -> bool {
    '0' <= c <= '9'
}

/// The value of a decimal digit.
pub open spec fn digit_value(c: char) -> int {
    c as int - '0' as int
}

/// The value of a string of decimal digits.
pub open spec fn decimal_value(s: Seq<char>) -> int
    decreases s.len(),
{
    if s.len() == 0 {
        0
    } else {
        decimal_value(s.drop_last()) * 10 + digit_value(s.last())
    }
}

/// The digits of a number text: the text without a leading `+`.
pub open spec fn unsigned_digits(s: Seq<char>) -> Seq<char> {
    if s.len() > 0 && s[0] == '+' {
        s.drop_first()
    } else {
        s
    }
}

/// The result of `str::parse::<u32>`: an optional `+`, then at least one
/// decimal digit and nothing else, of a value that fits in `u32`.
pub open spec fn parse_u32_spec(s: Seq<char>) -> Option<u32> {
    let d = unsigned_digits(s);
    if d.len() > 0 && (forall|k: int| 0 <= k < d.len() ==> is_digit(#[trigger] d[k]))
        && decimal_value(d) <= u32::MAX {
        Some(decimal_value(d) as u32)
    } else {
        None
    }
}

proof fn lemma_decimal_grows(s: Seq<char>, m: int)
    requires
        0 <= m <= s.len(),
        forall|k: int| 0 <= k < s.len() ==> is_digit(#[trigger] s[k]),
    ensures
        0 <= decimal_value(s.take(m)) <= decimal_value(s),
    decreases s.len() - m,
{
    if m < s.len() {
        lemma_decimal_grows(s, m + 1);
        assert(s.take(m + 1).drop_last() =~= s.take(m));
        assert(is_digit(s[m]));
    } else {
        assert(s.take(m) =~= s);
        lemma_decimal_nonneg(s);
    }
}

proof fn lemma_decimal_nonneg(s: Seq<char>)
    requires
        forall|k: int| 0 <= k < s.len() ==> is_digit(#[trigger] s[k]),
    ensures
        0 <= decimal_value(s),
    decreases s.len(),
{
    if s.len() > 0 {
        lemma_decimal_nonneg(s.drop_last());
        assert(is_digit(s[s.len() - 1]));
    }
}

/// The character of a decimal digit (`d` in 0..10).
pub open spec fn digit_char(d: int) -> char {
    if d == 0 {
        '0'
    } else if d == 1 {
        '1'
    } else if d == 2 {
        '2'
    } else if d == 3 {
        '3'
    } else if d == 4 {
        '4'
    } else if d == 5 {
        '5'
    } else if d == 6 {
        '6'
    } else if d == 7 {
        '7'
    } else if d == 8 {
        '8'
    } else {
        '9'
    }
}

/// The decimal rendering of a number, without sign or leading zeros (what
/// `to_string` gives for an unsigned integer).
pub open spec fn decimal_text(n: nat) -> Seq<char>
    decreases n,
{
    if n < 10 {
        seq![digit_char(n as int)]
    } else {
        decimal_text(n / 10).push(digit_char((n % 10) as int))
    }
}

proof fn lemma_decimal_text_digits(n: nat)
    ensures
        decimal_text(n).len() > 0,
        forall|k: int| 0 <= k < decimal_text(n).len() ==> is_digit(#[trigger] decimal_text(n)[k]),
        decimal_value(decimal_text(n)) == n,
    decreases n,
{
    let d = (n % 10) as int;
    assert(digit_value(digit_char(d)) == d && is_digit(digit_char(d)));
    let t = decimal_text(n);
    if n >= 10 {
        lemma_decimal_text_digits(n / 10);
        assert(t.drop_last() =~= decimal_text(n / 10));
        assert(t.last() == digit_char(d));
        assert(decimal_value(t) == decimal_value(decimal_text(n / 10)) * 10 + d);
        assert((n / 10) * 10 + n % 10 == n);
    } else {
        assert(t.drop_last() =~= Seq::<char>::empty());
        assert(t.last() == digit_char(d));
        assert(decimal_value(t.drop_last()) == 0);
        assert(d == n);
        assert(decimal_value(t) == digit_value(t.last()));
    }
}

/// Parsing reads back every rendered `u32`: `str::parse::<u32>` of the
/// decimal rendering of `n` gives `n`.
pub proof fn lemma_parse_rendered(n: u32)
    ensures
        parse_u32_spec(decimal_text(n as nat)) == Some(n),
{
    lemma_decimal_text_digits(n as nat);
    let t = decimal_text(n as nat);
    assert(is_digit(t[0]));
    assert(unsigned_digits(t) == t);
}

/// A rendered number holds no character but digits.
pub proof fn lemma_rendered_has_no(n: nat, c: char)
    requires
        !is_digit(c),
    ensures
        forall|k: int| 0 <= k < decimal_text(n).len() ==> #[trigger] decimal_text(n)[k] != c,
{
    lemma_decimal_text_digits(n);
}

proof fn lemma_split_plain(
    s: Seq<char>,
    rest: Seq<char>,
    sep: char,
    done: Seq<Seq<char>>,
    current: Seq<char>,
)
    requires
        forall|k: int| 0 <= k < s.len() ==> #[trigger] s[k] != sep,
    ensures
        split_from(s + rest, sep, done, current) == split_from(rest, sep, done, current + s),
    decreases s.len(),
{
    if s.len() == 0 {
        assert(s + rest =~= rest);
        assert(current + s =~= current);
    } else {
        assert((s + rest)[0] == s[0]);
        assert((s + rest).drop_first() =~= s.drop_first() + rest);
        lemma_split_plain(s.drop_first(), rest, sep, done, current.push(s[0]));
        assert(current.push(s[0]) + s.drop_first() =~= current + s);
    }
}

/// A text without the separator is one single piece.
pub proof fn lemma_split_none(s: Seq<char>, sep: char)
    requires
        forall|k: int| 0 <= k < s.len() ==> #[trigger] s[k] != sep,
    ensures
        split_text(s, sep) == seq![s],
{
    let e = Seq::<char>::empty();
    lemma_split_plain(s, e, sep, Seq::empty(), e);
    assert(s + e =~= s);
    assert(e + s =~= s);
    assert(Seq::<Seq<char>>::empty().push(s) =~= seq![s]);
}

/// Splitting at `sep` the texts `a`, `b`, `c` joined by `sep` (none of which
/// holds `sep`) gives back exactly `a`, `b` and `c`.
pub proof fn lemma_split_three(a: Seq<char>, b: Seq<char>, c: Seq<char>, sep: char)
    requires
        forall|k: int| 0 <= k < a.len() ==> #[trigger] a[k] != sep,
        forall|k: int| 0 <= k < b.len() ==> #[trigger] b[k] != sep,
        forall|k: int| 0 <= k < c.len() ==> #[trigger] c[k] != sep,
    ensures
        split_text(a + seq![sep] + b + seq![sep] + c, sep) == seq![a, b, c],
{
    let e = Seq::<char>::empty();
    let d = Seq::<Seq<char>>::empty();
    let tail1 = seq![sep] + b + seq![sep] + c;
    assert(a + seq![sep] + b + seq![sep] + c =~= a + tail1);
    lemma_split_plain(a, tail1, sep, d, e);
    assert(e + a =~= a);
    assert(tail1[0] == sep);
    let tail2 = b + (seq![sep] + c);
    assert(tail1.drop_first() =~= tail2);
    lemma_split_plain(b, seq![sep] + c, sep, d.push(a), e);
    assert(e + b =~= b);
    let tail3 = seq![sep] + c;
    assert(tail3[0] == sep);
    assert(tail3.drop_first() =~= c + e);
    lemma_split_plain(c, e, sep, d.push(a).push(b), e);
    assert(e + c =~= c);
    assert(d.push(a).push(b).push(c) =~= seq![a, b, c]);
}

/// Parses a decimal `u32` the way `str::parse::<u32>` does.
pub fn parse_u32(s: &Vec<char>) -> (r: Option<u32>)
    ensures
        r == parse_u32_spec(s@),
{
    let n = s.len();
    let start: usize = if n > 0 && s[0] == '+' { 1 } else { 0 };
    let ghost d = unsigned_digits(s@);
    assert(d =~= s@.skip(start as int));
    if start == n {
        return None;
    }
    let mut value: u64 = 0;
    let mut i = start;
    while i < n
        invariant
            n == s@.len(),
            start <= i <= n,
            d == s@.skip(start as int),
            d == unsigned_digits(s@),
            forall|k: int| 0 <= k < i - start ==> is_digit(#[trigger] d[k]),
            value as int == decimal_value(d.take(i - start)),
            value <= u32::MAX,
        decreases n - i,
    {
        let c = s[i];
        assert(d[i - start] == c);
        if !('0' <= c && c <= '9') {
            assert(!is_digit(d[i - start]));
            return None;
        }
        let digit = (c as u32 - '0' as u32) as u64;
        assert(digit == digit_value(c));
        assert(d.take(i - start + 1).drop_last() =~= d.take(i - start));
        assert(d.take(i - start + 1).last() == c);
        let next = value * 10 + digit;
        if next > 0xffff_ffffu64 {
            proof {
                if forall|k: int| 0 <= k < d.len() ==> is_digit(#[trigger] d[k]) {
                    lemma_decimal_grows(d, i - start + 1);
                }
            }
            return None;
        }
        value = next;
        i = i + 1;
    }
    assert(d.take(n - start) =~= d);
    Some(value as u32)
}

} // verus!
