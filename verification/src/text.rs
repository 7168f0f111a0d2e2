//! Character-level text operations.
//!
//! Texts are modelled as `Seq<char>`. Executable code turns a `&str` into a
//! `Vec<char>` once, works on indices, and builds a `String` at the end.

use vstd::prelude::*;

verus! {

/// Appending one character to a `String` (`String::push`): the new contents
/// are the old ones followed by `ch`.
pub assume_specification[ String::push ](s: &mut String, ch: char)
    ensures
        final(s)@ == old(s)@.push(ch),
;

/// The characters of `s`, in order.
pub fn str_to_chars(s: &str) -> (out: Vec<char>)
    ensures
        out@ == s@,
{
    let mut out: Vec<char> = Vec::new();
    for c in it: s.chars()
        invariant
            it.seq() == s@,
            out@ == it.seq().take(it.index()),
    {
        out.push(c);
    }
    out
}

/// The string made of the characters `chars[from..to]`.
pub fn chars_to_string(chars: &Vec<char>, from: usize, to: usize) -> (out: String)
    requires
        from <= to <= chars.len(),
    ensures
        out@ == chars@.subrange(from as int, to as int),
{
    let mut out = String::new();
    let mut i: usize = from;
    while i < to
        invariant
            from <= i <= to <= chars.len(),
            out@ == chars@.subrange(from as int, i as int),
        decreases to - i,
    {
        out.push(chars[i]);
        i += 1;
    }
    out
}

/// Whether `c` has the Unicode property `White_Space`.
pub open spec fn is_whitespace(c: char) -> bool {
    ||| '\u{0009}' <= c <= '\u{000D}'
    ||| c == ' '
    ||| c == '\u{0085}'
    ||| c == '\u{00A0}'
    ||| c == '\u{1680}'
    ||| '\u{2000}' <= c <= '\u{200A}'
    ||| c == '\u{2028}'
    ||| c == '\u{2029}'
    ||| c == '\u{202F}'
    ||| c == '\u{205F}'
    ||| c == '\u{3000}'
}

/// Tests `c` for the Unicode property `White_Space`.
pub fn char_is_whitespace(c: char) -> (b: bool)
    ensures
        b == is_whitespace(c),
{
    ('\u{0009}' <= c && c <= '\u{000D}') || c == ' ' || c == '\u{0085}' || c == '\u{00A0}' || c
        == '\u{1680}' || ('\u{2000}' <= c && c <= '\u{200A}') || c == '\u{2028}' || c
        == '\u{2029}' || c == '\u{202F}' || c == '\u{205F}' || c == '\u{3000}'
}

/// The index of the first `c` in `s`, or `s.len()` where `s` holds none.
pub open spec fn index_of(s: Seq<char>, c: char) -> nat
    decreases s.len(),
{
    if s.len() == 0 || s[0] == c {
        0
    } else {
        1 + index_of(s.drop_first(), c)
    }
}

/// `index_of` is the least index that holds `c`, and the length where none does.
pub proof fn lemma_index_of(s: Seq<char>, c: char)
    ensures
        index_of(s, c) <= s.len(),
        forall|j: int| 0 <= j < index_of(s, c) ==> s[j] != c,
        index_of(s, c) < s.len() ==> s[index_of(s, c) as int] == c,
    decreases s.len(),
{
    if s.len() != 0 && s[0] != c {
        let rest = s.drop_first();
        lemma_index_of(rest, c);
        assert forall|j: int| 0 <= j < index_of(s, c) implies s[j] != c by {
            if j > 0 {
                assert(s[j] == rest[j - 1]);
            }
        }
    }
}

/// The first position at or after `from` that holds `c`, or the length.
pub fn find_char(chars: &Vec<char>, from: usize, c: char) -> (at: usize)
    requires
        from <= chars.len(),
    ensures
        at == from + index_of(chars@.skip(from as int), c),
        from <= at <= chars.len(),
{
    let mut i: usize = from;
    while i < chars.len() && chars[i] != c
        invariant
            from <= i <= chars.len(),
            index_of(chars@.skip(from as int), c) == (i - from) + index_of(
                chars@.skip(i as int),
                c,
            ),
        decreases chars.len() - i,
    {
        proof {
            assert(chars@.skip(i as int).drop_first() =~= chars@.skip(i + 1));
        }
        i += 1;
    }
    proof {
        lemma_index_of(chars@.skip(i as int), c);
    }
    i
}

/// Whether `needle` stands in `s` at index `i`.
pub open spec fn occurs_at(s: Seq<char>, needle: Seq<char>, i: int) -> bool {
    &&& 0 <= i
    &&& i + needle.len() <= s.len()
    &&& s.subrange(i, i + needle.len()) == needle
}

/// Whether `needle` is a contiguous part of `s`.
pub open spec fn contains(s: Seq<char>, needle: Seq<char>) -> bool {
    exists|i: int| occurs_at(s, needle, i)
}

/// Whether `s` begins with `prefix`.
pub open spec fn starts_with(s: Seq<char>, prefix: Seq<char>) -> bool {
    occurs_at(s, prefix, 0)
}

/// Tests whether `needle` stands in `chars` at index `at`.
pub fn matches_at(chars: &Vec<char>, needle: &Vec<char>, at: usize) -> (b: bool)
    ensures
        b == occurs_at(chars@, needle@, at as int),
{
    if at > chars.len() || needle.len() > chars.len() - at {
        return false;
    }
    let mut k: usize = 0;
    while k < needle.len()
        invariant
            k <= needle.len(),
            at + needle.len() <= chars.len(),
            forall|j: int| 0 <= j < k ==> chars@[at + j] == needle@[j],
        decreases needle.len() - k,
    {
        if chars[at + k] != needle[k] {
            proof {
                assert(chars@.subrange(at as int, at + needle.len())[k as int] == chars@[at + k]);
            }
            return false;
        }
        k += 1;
    }
    proof {
        assert(chars@.subrange(at as int, at + needle.len()) =~= needle@);
    }
    true
}

/// Tests whether `needle` is a contiguous part of `chars`.
pub fn contains_chars(chars: &Vec<char>, needle: &Vec<char>) -> (b: bool)
    ensures
        b == contains(chars@, needle@),
{
    let mut i: usize = 0;
    while i < chars.len()
        invariant
            i <= chars.len(),
            forall|j: int| 0 <= j < i ==> !occurs_at(chars@, needle@, j),
        decreases chars.len() - i,
    {
        if matches_at(chars, needle, i) {
            return true;
        }
        i += 1;
    }
    matches_at(chars, needle, i)
}

/// The index of the first occurrence of `needle` in `s`, or `s.len()`
/// where `s` holds none.
pub open spec fn first_occurrence(s: Seq<char>, needle: Seq<char>) -> nat
    decreases s.len(),
{
    if s.len() < needle.len() || s.len() == 0 {
        s.len()
    } else if starts_with(s, needle) {
        0
    } else {
        1 + first_occurrence(s.drop_first(), needle)
    }
}

/// `first_occurrence` is the least index at which `needle` stands, and the
/// length where it stands nowhere.
pub proof fn lemma_first_occurrence(s: Seq<char>, needle: Seq<char>)
    ensures
        first_occurrence(s, needle) <= s.len(),
        forall|j: int| 0 <= j < first_occurrence(s, needle) ==> !occurs_at(s, needle, j),
        first_occurrence(s, needle) + needle.len() <= s.len() ==> occurs_at(
            s,
            needle,
            first_occurrence(s, needle) as int,
        ),
        first_occurrence(s, needle) + needle.len() > s.len() ==> first_occurrence(s, needle)
            == s.len() && !contains(s, needle),
    decreases s.len(),
{
    if s.len() < needle.len() {
    } else if s.len() == 0 {
        assert(s.subrange(0, 0) =~= needle);
    } else if starts_with(s, needle) {
    } else {
        let rest = s.drop_first();
        let r = first_occurrence(rest, needle) as int;
        lemma_first_occurrence(rest, needle);
        assert forall|j: int| 0 <= j < r + 1 implies !occurs_at(s, needle, j) by {
            if j > 0 && j + needle.len() <= s.len() {
                assert(rest.subrange(j - 1, j - 1 + needle.len()) =~= s.subrange(
                    j,
                    j + needle.len(),
                ));
                assert(!occurs_at(rest, needle, j - 1));
            }
        }
        if r + needle.len() <= rest.len() {
            assert(rest.subrange(r, r + needle.len()) =~= s.subrange(r + 1, r + 1 + needle.len()));
        } else {
            assert forall|j: int| !occurs_at(s, needle, j) by {
                if 0 < j && j + needle.len() <= s.len() {
                    assert(rest.subrange(j - 1, j - 1 + needle.len()) =~= s.subrange(
                        j,
                        j + needle.len(),
                    ));
                    assert(!occurs_at(rest, needle, j - 1));
                }
            }
        }
    }
}

/// The first position at or after `from` at which `needle` stands, or the
/// length.
pub fn find_occurrence(chars: &Vec<char>, from: usize, needle: &Vec<char>) -> (at: usize)
    requires
        from <= chars.len(),
    ensures
        at == from + first_occurrence(chars@.skip(from as int), needle@),
        from <= at <= chars.len(),
{
    let mut i: usize = from;
    while i < chars.len() && !matches_at(chars, needle, i)
        invariant
            from <= i <= chars.len(),
            first_occurrence(chars@.skip(from as int), needle@) == (i - from) + first_occurrence(
                chars@.skip(i as int),
                needle@,
            ),
        decreases chars.len() - i,
    {
        proof {
            let rest = chars@.skip(i as int);
            assert(rest.drop_first() =~= chars@.skip(i + 1));
            if needle@.len() <= rest.len() {
                assert(rest.subrange(0, needle@.len() as int) =~= chars@.subrange(
                    i as int,
                    i + needle@.len(),
                ));
            }
        }
        i += 1;
    }
    proof {
        let rest = chars@.skip(i as int);
        lemma_first_occurrence(rest, needle@);
        if i < chars.len() {
            assert(rest.subrange(0, needle@.len() as int) =~= chars@.subrange(
                i as int,
                i + needle@.len(),
            ));
        }
    }
    i
}

/// The parts of `s` between the occurrences of `separator`, found from the
/// left: one more part than there are separators. An empty separator
/// splits nothing.
pub open spec fn split_on(s: Seq<char>, separator: Seq<char>) -> Seq<Seq<char>>
    decreases s.len(),
{
    let i = first_occurrence(s, separator) as int;
    if separator.len() == 0 || i + separator.len() > s.len() {
        seq![s]
    } else {
        seq![s.take(i)] + split_on(s.skip(i + separator.len()), separator)
    }
}

/// Splits `chars` at the occurrences of `separator`.
pub fn split_on_chars(chars: &Vec<char>, separator: &Vec<char>) -> (parts: Vec<String>)
    ensures
        texts(parts@) == split_on(chars@, separator@),
{
    let mut parts: Vec<String> = Vec::new();
    let mut pos: usize = 0;
    assert(chars@.skip(0) =~= chars@);
    assert(texts(parts@) =~= Seq::<Seq<char>>::empty());
    if separator.len() == 0 {
        parts.push(chars_to_string(chars, 0, chars.len()));
        assert(chars@.subrange(0, chars@.len() as int) =~= chars@);
        assert(texts(parts@) =~= seq![chars@]);
        return parts;
    }
    loop
        invariant
            pos <= chars.len(),
            separator.len() > 0,
            split_on(chars@, separator@) == texts(parts@) + split_on(
                chars@.skip(pos as int),
                separator@,
            ),
        decreases chars.len() - pos,
    {
        let end = find_occurrence(chars, pos, separator);
        let ghost rest = chars@.skip(pos as int);
        let ghost before = texts(parts@);
        proof {
            lemma_first_occurrence(rest, separator@);
        }
        if end >= chars.len() || separator.len() > chars.len() - end {
            parts.push(chars_to_string(chars, pos, chars.len()));
            proof {
                assert(chars@.subrange(pos as int, chars@.len() as int) =~= rest);
                assert(texts(parts@) =~= before + seq![rest]);
            }
            return parts;
        }
        parts.push(chars_to_string(chars, pos, end));
        proof {
            assert(rest.take(end - pos) =~= chars@.subrange(pos as int, end as int));
            assert(rest.skip(end - pos + separator@.len()) =~= chars@.skip(
                end + separator@.len(),
            ));
            assert(texts(parts@) =~= before + seq![rest.take(end - pos)]);
        }
        pos = end + separator.len();
    }
}

/// A copy of `chars[from..to]`.
pub fn copy_range(chars: &Vec<char>, from: usize, to: usize) -> (out: Vec<char>)
    requires
        from <= to <= chars.len(),
    ensures
        out@ == chars@.subrange(from as int, to as int),
{
    let mut out: Vec<char> = Vec::new();
    let mut i: usize = from;
    while i < to
        invariant
            from <= i <= to <= chars.len(),
            out@ == chars@.subrange(from as int, i as int),
        decreases to - i,
    {
        out.push(chars[i]);
        i += 1;
    }
    out
}

/// `s` without its leading whitespace.
pub open spec fn trim_start(s: Seq<char>) -> Seq<char>
    decreases s.len(),
{
    if s.len() > 0 && is_whitespace(s[0]) {
        trim_start(s.drop_first())
    } else {
        s
    }
}

/// `s` without its trailing whitespace.
pub open spec fn trim_end(s: Seq<char>) -> Seq<char>
    decreases s.len(),
{
    if s.len() > 0 && is_whitespace(s.last()) {
        trim_end(s.drop_last())
    } else {
        s
    }
}

/// `s` without its leading and trailing whitespace.
pub open spec fn trim(s: Seq<char>) -> Seq<char> {
    trim_end(trim_start(s))
}

/// The bounds of `chars` without its leading and trailing whitespace.
pub fn trim_bounds(chars: &Vec<char>) -> (bounds: (usize, usize))
    ensures
        bounds.0 <= bounds.1 <= chars.len(),
        chars@.subrange(bounds.0 as int, bounds.1 as int) == trim(chars@),
{
    let mut a: usize = 0;
    assert(chars@.skip(0) =~= chars@);
    while a < chars.len() && char_is_whitespace(chars[a])
        invariant
            a <= chars.len(),
            trim_start(chars@) == trim_start(chars@.skip(a as int)),
        decreases chars.len() - a,
    {
        proof {
            assert(chars@.skip(a as int).drop_first() =~= chars@.skip(a + 1));
        }
        a += 1;
    }
    let mut b: usize = chars.len();
    while b > a && char_is_whitespace(chars[b - 1])
        invariant
            a <= b <= chars.len(),
            trim_start(chars@) == chars@.skip(a as int),
            trim(chars@) == trim_end(chars@.subrange(a as int, b as int)),
        decreases b - a,
    {
        proof {
            assert(chars@.subrange(a as int, b as int).drop_last() =~= chars@.subrange(
                a as int,
                b - 1,
            ));
        }
        b -= 1;
    }
    (a, b)
}

/// A copy of `chars` without its leading and trailing whitespace.
pub fn trim_chars(chars: &Vec<char>) -> (out: Vec<char>)
    ensures
        out@ == trim(chars@),
{
    let (a, b) = trim_bounds(chars);
    copy_range(chars, a, b)
}

/// `s` with every leading repetition of `pattern` removed.
pub open spec fn trim_start_matches(s: Seq<char>, pattern: Seq<char>) -> Seq<char>
    decreases s.len(),
{
    if pattern.len() > 0 && starts_with(s, pattern) {
        trim_start_matches(s.skip(pattern.len() as int), pattern)
    } else {
        s
    }
}

/// The index at which `chars` goes on after every leading repetition of
/// `pattern`.
pub fn skip_repeated_prefix(chars: &Vec<char>, pattern: &Vec<char>) -> (at: usize)
    ensures
        at <= chars.len(),
        chars@.skip(at as int) == trim_start_matches(chars@, pattern@),
{
    let mut at: usize = 0;
    assert(chars@.skip(0) =~= chars@);
    if pattern.len() == 0 {
        return 0;
    }
    while matches_at(chars, pattern, at)
        invariant
            at <= chars.len(),
            pattern.len() > 0,
            trim_start_matches(chars@, pattern@) == trim_start_matches(
                chars@.skip(at as int),
                pattern@,
            ),
        decreases chars.len() - at,
    {
        proof {
            let rest = chars@.skip(at as int);
            assert(rest.subrange(0, pattern@.len() as int) =~= chars@.subrange(
                at as int,
                at + pattern@.len(),
            ));
            assert(rest.skip(pattern@.len() as int) =~= chars@.skip(at + pattern@.len()));
        }
        at += pattern.len();
    }
    proof {
        let rest = chars@.skip(at as int);
        if at + pattern@.len() <= chars@.len() {
            assert(rest.subrange(0, pattern@.len() as int) =~= chars@.subrange(
                at as int,
                at + pattern@.len(),
            ));
        }
    }
    at
}

/// `s` without one trailing carriage return.
pub open spec fn strip_carriage_return(s: Seq<char>) -> Seq<char> {
    if s.len() > 0 && s.last() == '\r' {
        s.drop_last()
    } else {
        s
    }
}

/// The lines of `s`. A line ends at a line feed; the line feed, and a
/// carriage return directly before it, belong to no line. What follows the
/// last line feed is a line of its own unless it is empty.
pub open spec fn lines(s: Seq<char>) -> Seq<Seq<char>>
    decreases s.len(),
{
    if s.len() == 0 {
        Seq::empty()
    } else {
        let i = index_of(s, '\n') as int;
        if i >= s.len() {
            seq![s]
        } else {
            seq![strip_carriage_return(s.take(i))] + lines(s.skip(i + 1))
        }
    }
}

/// The view of each vector of `v`.
pub open spec fn views(v: Seq<Vec<char>>) -> Seq<Seq<char>> {
    Seq::new(v.len(), |i: int| v[i]@)
}

/// The view of each string of `v`.
pub open spec fn texts(v: Seq<String>) -> Seq<Seq<char>> {
    Seq::new(v.len(), |i: int| v[i]@)
}

/// Splits `text` into its lines.
pub fn split_lines(text: &Vec<char>) -> (out: Vec<Vec<char>>)
    ensures
        views(out@) == lines(text@),
{
    let mut out: Vec<Vec<char>> = Vec::new();
    let mut pos: usize = 0;
    assert(text@.skip(0) =~= text@);
    while pos < text.len()
        invariant
            pos <= text.len(),
            lines(text@) == views(out@) + lines(text@.skip(pos as int)),
        decreases text.len() - pos,
    {
        let end = find_char(text, pos, '\n');
        let ghost rest = text@.skip(pos as int);
        let ghost before = views(out@);
        proof {
            lemma_index_of(rest, '\n');
            assert(rest.take(end - pos) =~= text@.subrange(pos as int, end as int));
        }
        if end >= text.len() {
            let line = copy_range(text, pos, end);
            out.push(line);
            proof {
                assert(line@ =~= rest);
                assert(lines(text@.skip(end as int)) =~= Seq::<Seq<char>>::empty());
                assert(views(out@) =~= before + seq![rest]);
            }
            pos = end;
        } else {
            let stop = if end > pos && text[end - 1] == '\r' {
                end - 1
            } else {
                end
            };
            let line = copy_range(text, pos, stop);
            out.push(line);
            proof {
                let raw = rest.take(end - pos);
                assert(line@ =~= strip_carriage_return(raw));
                assert(rest.skip(end - pos + 1) =~= text@.skip(end + 1));
                assert(views(out@) =~= before + seq![strip_carriage_return(raw)]);
            }
            pos = end + 1;
        }
    }
    proof {
        assert(lines(text@.skip(pos as int)) =~= Seq::<Seq<char>>::empty());
    }
    out
}

/// The parts of `s` between the occurrences of `separator`: one more part
/// than there are separators.
pub open spec fn split(s: Seq<char>, separator: char) -> Seq<Seq<char>>
    decreases s.len(),
{
    let i = index_of(s, separator) as int;
    if i >= s.len() {
        seq![s]
    } else {
        seq![s.take(i)] + split(s.skip(i + 1), separator)
    }
}

/// The part of `s` with index `n` among those that `separator` delimits.
pub open spec fn nth_part(s: Seq<char>, separator: char, n: int) -> Option<Seq<char>> {
    if 0 <= n < split(s, separator).len() {
        Some(split(s, separator)[n])
    } else {
        None
    }
}

/// Finds the part of `chars` with index `n` among those that `separator`
/// delimits.
pub fn find_nth_part(chars: &Vec<char>, separator: char, n: usize) -> (part: Option<Vec<char>>)
    ensures
        part is Some == nth_part(chars@, separator, n as int) is Some,
        part matches Some(p) ==> Some(p@) == nth_part(chars@, separator, n as int),
{
    let mut pos: usize = 0;
    let mut k: usize = 0;
    let ghost mut done: Seq<Seq<char>> = Seq::empty();
    assert(chars@.skip(0) =~= chars@);
    loop
        invariant
            pos <= chars.len(),
            k <= n,
            done.len() == k,
            split(chars@, separator) == done + split(chars@.skip(pos as int), separator),
        decreases chars.len() - pos,
    {
        let end = find_char(chars, pos, separator);
        let ghost rest = chars@.skip(pos as int);
        proof {
            lemma_index_of(rest, separator);
            assert(rest.take(end - pos) =~= chars@.subrange(pos as int, end as int));
            assert(rest.take(rest.len() as int) =~= rest);
        }
        if k == n {
            let part = copy_range(chars, pos, end);
            assert(split(rest, separator)[0] == part@);
            return Some(part);
        }
        if end >= chars.len() {
            return None;
        }
        proof {
            assert(rest.skip(end - pos + 1) =~= chars@.skip(end + 1));
            done = done.push(rest.take(end - pos));
            assert(split(chars@, separator) =~= done + split(chars@.skip(end + 1), separator));
        }
        pos = end + 1;
        k += 1;
    }
}

/// The decimal digit that stands for `d`.
pub open spec fn digit(d: nat) -> char {
    if d == 0 {
        '0'
    } else if d == 1 {
        '1'
    } else if d == 2 {
        '2'
    } else if d == 3 {
        '3'
    } else if d == 4 {
        '4'
    } else if d == 5 {
        '5'
    } else if d == 6 {
        '6'
    } else if d == 7 {
        '7'
    } else if d == 8 {
        '8'
    } else {
        '9'
    }
}

/// `n` in decimal digits, without leading zeros.
pub open spec fn decimal(n: nat) -> Seq<char>
    decreases n,
{
    if n < 10 {
        seq![digit(n)]
    } else {
        decimal(n / 10).push(digit(n % 10))
    }
}

/// The decimal digit that stands for `d`.
fn digit_char(d: usize) -> (c: char)
    requires
        d < 10,
    ensures
        c == digit(d as nat),
{
    if d == 0 {
        '0'
    } else if d == 1 {
        '1'
    } else if d == 2 {
        '2'
    } else if d == 3 {
        '3'
    } else if d == 4 {
        '4'
    } else if d == 5 {
        '5'
    } else if d == 6 {
        '6'
    } else if d == 7 {
        '7'
    } else if d == 8 {
        '8'
    } else {
        '9'
    }
}

/// Writes `n` in decimal digits.
pub fn decimal_string(n: usize) -> (out: String)
    ensures
        out@ == decimal(n as nat),
    decreases n,
{
    if n < 10 {
        let mut out = String::new();
        out.push(digit_char(n));
        out
    } else {
        let mut out = decimal_string(n / 10);
        out.push(digit_char(n % 10));
        out
    }
}

} // verus!
