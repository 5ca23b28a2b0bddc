//! Character-sequence helpers shared by the other modules.
//!
//! Contracts are stated over `Seq<char>`, the view of `str` and `String`.
//! The executable functions work on `Vec<char>` internally and convert at
//! their edges.

use vstd::prelude::*;

verus! {

/// Whether `p` is a prefix of `s`.
pub open spec fn is_prefix(p: Seq<char>, s: Seq<char>) -> bool {
    p.len() <= s.len() && s.subrange(0, p.len() as int) == p
}

/// Whether `p` is a suffix of `s`.
pub open spec fn is_suffix(p: Seq<char>, s: Seq<char>) -> bool {
    p.len() <= s.len() && s.subrange(s.len() - p.len(), s.len() as int) == p
}

/// The parts written one after another with `sep` between neighbours.
pub open spec fn join(parts: Seq<Seq<char>>, sep: Seq<char>) -> Seq<char>
    decreases parts.len(),
{
    if parts.len() == 0 {
        Seq::empty()
    } else if parts.len() == 1 {
        parts[0]
    } else {
        join(parts.drop_last(), sep) + sep + parts.last()
    }
}

/// The pieces of `s` between occurrences of `sep`. There is always at least
/// one piece; `n` separators give `n + 1` pieces, some of which may be empty.
pub open spec fn split(s: Seq<char>, sep: char) -> Seq<Seq<char>>
    decreases s.len(),
{
    if s.len() == 0 {
        seq![Seq::empty()]
    } else {
        let head = split(s.drop_last(), sep);
        if s.last() == sep {
            head.push(Seq::empty())
        } else {
            head.drop_last().push(head.last().push(s.last()))
        }
    }
}

/// `s` with every occurrence of `from` replaced by the sequence `to`.
pub open spec fn replace(s: Seq<char>, from: char, to: Seq<char>) -> Seq<char>
    decreases s.len(),
{
    if s.len() == 0 {
        Seq::empty()
    } else if s.last() == from {
        replace(s.drop_last(), from, to) + to
    } else {
        replace(s.drop_last(), from, to).push(s.last())
    }
}

/// The code points with the Unicode `White_Space` property.
pub open spec fn is_space(c: char) -> bool {
    let u = c as u32;
    ||| 0x09 <= u <= 0x0d
    ||| u == 0x20
    ||| u == 0x85
    ||| u == 0xa0
    ||| u == 0x1680
    ||| 0x2000 <= u <= 0x200a
    ||| u == 0x2028
    ||| u == 0x2029
    ||| u == 0x202f
    ||| u == 0x205f
    ||| u == 0x3000
}

/// Whether `s` is empty or holds nothing but white space.
pub open spec fn is_blank(s: Seq<char>) -> bool {
    forall|i: int| 0 <= i < s.len() ==> is_space(#[trigger] s[i])
}

/// The decimal digit for `d`, which is below ten.
pub open spec fn digit(d: nat) -> char {
    if d == 0 {
        '0'
    } else if d == 1 {
        '1'
    } else if d == 2 {
        '2'
    } else if d == 3 {
        '3'
    } else if d == 4 {
        '4'
    } else if d == 5 {
        '5'
    } else if d == 6 {
        '6'
    } else if d == 7 {
        '7'
    } else if d == 8 {
        '8'
    } else {
        '9'
    }
}

/// The decimal numeral of `n`, without leading zeros.
pub open spec fn decimal(n: nat) -> Seq<char>
    decreases n,
{
    if n < 10 {
        seq![digit(n)]
    } else {
        decimal(n / 10).push(digit(n % 10))
    }
}

/// The decimal numeral of `i`, with a leading `-` when negative.
pub open spec fn signed_decimal(i: int) -> Seq<char> {
    if i < 0 {
        seq!['-'] + decimal((-i) as nat)
    } else {
        decimal(i as nat)
    }
}

/// The views of a vector of strings.
pub open spec fn views(v: Seq<String>) -> Seq<Seq<char>> {
    v.map_values(|s: String| s@)
}

/// Splitting always yields at least one piece.
pub proof fn lemma_split_nonempty(s: Seq<char>, sep: char)
    ensures
        split(s, sep).len() >= 1,
    decreases s.len(),
{
    if s.len() > 0 {
        lemma_split_nonempty(s.drop_last(), sep);
    }
}

/// The pieces of two texts with a separator between them are the pieces
/// of the first followed by the pieces of the second.
pub proof fn lemma_split_concat(a: Seq<char>, b: Seq<char>, sep: char)
    ensures
        split(a + seq![sep] + b, sep) == split(a, sep) + split(b, sep),
    decreases b.len(),
{
    let s = a + seq![sep] + b;
    if b.len() == 0 {
        assert(s.drop_last() == a);
        assert(split(b, sep) == seq![Seq::<char>::empty()]);
        assert(split(a, sep).push(Seq::empty()) == split(a, sep) + split(b, sep));
    } else {
        let shorter = b.drop_last();
        lemma_split_concat(a, shorter, sep);
        lemma_split_nonempty(shorter, sep);
        assert(s.drop_last() == a + seq![sep] + shorter);
        assert(s.last() == b.last());
        let head = split(s.drop_last(), sep);
        let hb = split(shorter, sep);
        assert(head == split(a, sep) + hb);
        if b.last() == sep {
            assert(head.push(Seq::empty()) == split(a, sep) + hb.push(Seq::empty()));
        } else {
            assert(head.last() == hb.last());
            assert(head.drop_last() == split(a, sep) + hb.drop_last());
            assert(head.drop_last().push(head.last().push(b.last())) == split(a, sep)
                + hb.drop_last().push(hb.last().push(b.last())));
        }
    }
}

/// Joining the pieces of a text with the separator gives the text back.
pub proof fn lemma_join_split(s: Seq<char>, sep: char)
    ensures
        join(split(s, sep), seq![sep]) == s,
    decreases s.len(),
{
    if s.len() == 0 {
    } else {
        let shorter = s.drop_last();
        lemma_join_split(shorter, sep);
        lemma_split_nonempty(shorter, sep);
        let head = split(shorter, sep);
        if s.last() == sep {
            let all = head.push(Seq::empty());
            assert(all.drop_last() == head);
            assert(join(all, seq![sep]) == join(head, seq![sep]) + seq![sep] + Seq::<char>::empty());
            assert(shorter + seq![sep] + Seq::<char>::empty() == s);
        } else {
            let last = head.last().push(s.last());
            let all = head.drop_last().push(last);
            assert(all.drop_last() == head.drop_last());
            assert(all.last() == last);
            if head.len() == 1 {
                assert(head[0] == shorter);
                assert(all[0] == s);
            } else {
                assert(join(head, seq![sep]) == join(head.drop_last(), seq![sep]) + seq![sep]
                    + head.last());
                assert(join(all, seq![sep]) == join(head.drop_last(), seq![sep]) + seq![sep] + last);
                assert(join(head.drop_last(), seq![sep]) + seq![sep] + last == (join(
                    head.drop_last(),
                    seq![sep],
                ) + seq![sep] + head.last()).push(s.last()));
                assert(shorter.push(s.last()) == s);
            }
        }
    }
}

/// No piece of a split holds the separator.
pub proof fn lemma_split_pieces(s: Seq<char>, sep: char, i: int, j: int)
    requires
        0 <= i < split(s, sep).len(),
        0 <= j < split(s, sep)[i].len(),
    ensures
        split(s, sep)[i][j] != sep,
    decreases s.len(),
{
    if s.len() > 0 {
        let shorter = s.drop_last();
        lemma_split_nonempty(shorter, sep);
        let head = split(shorter, sep);
        if s.last() == sep {
            if i < head.len() {
                lemma_split_pieces(shorter, sep, i, j);
            }
        } else {
            if i < head.len() - 1 {
                lemma_split_pieces(shorter, sep, i, j);
            } else if j < head.last().len() {
                lemma_split_pieces(shorter, sep, i, j);
            }
        }
    }
}

/// `String::push`: appends one character to the end of the string.
#[verifier::external_body]
fn string_push(s: &mut String, c: char)
    ensures
        final(s)@ == old(s)@.push(c),
{
    s.push(c)
}

/// Copies the characters of `s` into a vector.
pub fn chars_of(s: &str) -> (out: Vec<char>)
    ensures
        out@ == s@,
{
    let mut out: Vec<char> = Vec::new();
    for c in it: s.chars()
        invariant
            it.seq() == s@,
            out@ == it.seq().subrange(0, it.index()),
    {
        out.push(c);
    }
    out
}

/// Builds a string from characters.
pub fn string_of(v: &Vec<char>) -> (out: String)
    ensures
        out@ == v@,
{
    let mut out = String::new();
    let mut i: usize = 0;
    while i < v.len()
        invariant
            i <= v.len(),
            out@ == v@.subrange(0, i as int),
        decreases v.len() - i,
    {
        string_push(&mut out, v[i]);
        i = i + 1;
    }
    out
}

/// Appends the characters of `src` to `dst`.
pub fn extend_chars(dst: &mut Vec<char>, src: &Vec<char>)
    ensures
        final(dst)@ == old(dst)@ + src@,
{
    let mut i: usize = 0;
    while i < src.len()
        invariant
            i <= src.len(),
            dst@ == old(dst)@ + src@.subrange(0, i as int),
        decreases src.len() - i,
    {
        dst.push(src[i]);
        i = i + 1;
    }
}

/// Appends the characters of `src` to `dst`.
pub fn extend_str(dst: &mut Vec<char>, src: &str)
    ensures
        final(dst)@ == old(dst)@ + src@,
{
    let chars = chars_of(src);
    extend_chars(dst, &chars);
}

/// Whether two character vectors hold the same characters.
pub fn same_chars(a: &Vec<char>, b: &Vec<char>) -> (r: bool)
    ensures
        r == (a@ == b@),
{
    if a.len() != b.len() {
        return false;
    }
    let mut i: usize = 0;
    while i < a.len()
        invariant
            i <= a.len(),
            a.len() == b.len(),
            a@.subrange(0, i as int) == b@.subrange(0, i as int),
        decreases a.len() - i,
    {
        if a[i] != b[i] {
            assert(a@[i as int] != b@[i as int]);
            return false;
        }
        assert(a@.subrange(0, i + 1) == a@.subrange(0, i as int).push(a@[i as int]));
        assert(b@.subrange(0, i + 1) == b@.subrange(0, i as int).push(b@[i as int]));
        i = i + 1;
    }
    assert(a@ == a@.subrange(0, a.len() as int));
    assert(b@ == b@.subrange(0, b.len() as int));
    true
}

/// Whether two strings hold the same text.
pub fn same_text(a: &str, b: &str) -> (r: bool)
    ensures
        r == (a@ == b@),
{
    let x = chars_of(a);
    let y = chars_of(b);
    same_chars(&x, &y)
}

/// Whether `p` occurs in `s` starting at position `at`.
pub fn occurs_at(s: &Vec<char>, p: &Vec<char>, at: usize) -> (r: bool)
    ensures
        r == (at + p.len() <= s.len() && s@.subrange(at as int, at + p.len()) == p@),
{
    if at > s.len() || p.len() > s.len() - at {
        return false;
    }
    let mut i: usize = 0;
    while i < p.len()
        invariant
            i <= p.len(),
            at + p.len() <= s.len(),
            s@.subrange(at as int, at + i) == p@.subrange(0, i as int),
        decreases p.len() - i,
    {
        if s[at + i] != p[i] {
            assert(s@.subrange(at as int, at + p.len())[i as int] != p@[i as int]);
            return false;
        }
        assert(s@.subrange(at as int, at + i + 1) == s@.subrange(at as int, at + i).push(
            s@[at + i],
        ));
        assert(p@.subrange(0, i + 1) == p@.subrange(0, i as int).push(p@[i as int]));
        i = i + 1;
    }
    assert(p@ == p@.subrange(0, p.len() as int));
    true
}

/// Whether `s` begins with `p`.
pub fn starts_with(s: &str, p: &str) -> (r: bool)
    ensures
        r == is_prefix(p@, s@),
{
    let sv = chars_of(s);
    let pv = chars_of(p);
    occurs_at(&sv, &pv, 0)
}

/// Whether `s` ends with `p`.
pub fn ends_with(s: &str, p: &str) -> (r: bool)
    ensures
        r == is_suffix(p@, s@),
{
    let sv = chars_of(s);
    let pv = chars_of(p);
    if pv.len() > sv.len() {
        false
    } else {
        occurs_at(&sv, &pv, sv.len() - pv.len())
    }
}

/// Joins strings with a separator between neighbours.
pub fn join_strings(parts: &Vec<String>, sep: &str) -> (out: String)
    ensures
        out@ == join(views(parts@), sep@),
{
    let mut acc: Vec<char> = Vec::new();
    let mut i: usize = 0;
    while i < parts.len()
        invariant
            i <= parts.len(),
            acc@ == join(views(parts@).take(i as int), sep@),
        decreases parts.len() - i,
    {
        let ghost before = views(parts@).take(i as int);
        let ghost after = views(parts@).take(i + 1);
        assert(after.drop_last() == before);
        assert(after.last() == parts@[i as int]@);
        if i > 0 {
            extend_str(&mut acc, sep);
        }
        extend_str(&mut acc, parts[i].as_str());
        assert(acc@ == join(after, sep@)) by {
            if i == 0 {
                assert(before.len() == 0);
                assert(Seq::<char>::empty() + parts@[0]@ == parts@[0]@);
            }
        }
        i = i + 1;
    }
    assert(views(parts@).take(parts.len() as int) == views(parts@));
    string_of(&acc)
}

/// Splits a string at every occurrence of `sep`.
pub fn split_text(s: &str, sep: char) -> (out: Vec<String>)
    ensures
        views(out@) == split(s@, sep),
{
    let chars = chars_of(s);
    let mut done: Vec<String> = Vec::new();
    let mut cur: Vec<char> = Vec::new();
    let mut i: usize = 0;
    while i < chars.len()
        invariant
            i <= chars.len(),
            chars@ == s@,
            views(done@).push(cur@) == split(s@.take(i as int), sep),
        decreases chars.len() - i,
    {
        let ghost head = split(s@.take(i as int), sep);
        assert(s@.take(i + 1).drop_last() == s@.take(i as int));
        assert(s@.take(i + 1).last() == s@[i as int]);
        let c = chars[i];
        if c == sep {
            let piece = string_of(&cur);
            let ghost old_done = done@;
            done.push(piece);
            cur = Vec::new();
            assert(views(done@) == views(old_done).push(piece@));
        } else {
            assert(head.drop_last() == views(done@));
            cur.push(c);
        }
        i = i + 1;
    }
    assert(s@.take(chars.len() as int) == s@);
    let piece = string_of(&cur);
    let ghost old_done = done@;
    done.push(piece);
    assert(views(done@) == views(old_done).push(piece@));
    done
}

/// Replaces every occurrence of `from` in `s` by the text `to`.
pub fn replace_char(s: &str, from: char, to: &str) -> (out: String)
    ensures
        out@ == replace(s@, from, to@),
{
    let chars = chars_of(s);
    let with = chars_of(to);
    let mut acc: Vec<char> = Vec::new();
    let mut i: usize = 0;
    while i < chars.len()
        invariant
            i <= chars.len(),
            chars@ == s@,
            with@ == to@,
            acc@ == replace(s@.take(i as int), from, to@),
        decreases chars.len() - i,
    {
        assert(s@.take(i + 1).drop_last() == s@.take(i as int));
        assert(s@.take(i + 1).last() == s@[i as int]);
        if chars[i] == from {
            extend_chars(&mut acc, &with);
        } else {
            acc.push(chars[i]);
        }
        i = i + 1;
    }
    assert(s@.take(chars.len() as int) == s@);
    string_of(&acc)
}

/// Whether `c` is white space.
pub fn char_is_space(c: char) -> (r: bool)
    ensures
        r == is_space(c),
{
    let u: u32 = c as u32;
    (0x09 <= u && u <= 0x0d) || u == 0x20 || u == 0x85 || u == 0xa0 || u == 0x1680 || (0x2000 <= u
        && u <= 0x200a) || u == 0x2028 || u == 0x2029 || u == 0x202f || u == 0x205f || u == 0x3000
}

/// Whether `s` is empty or holds nothing but white space.
pub fn text_is_blank(s: &str) -> (r: bool)
    ensures
        r == is_blank(s@),
{
    let chars = chars_of(s);
    let mut i: usize = 0;
    while i < chars.len()
        invariant
            i <= chars.len(),
            chars@ == s@,
            forall|j: int| 0 <= j < i ==> is_space(#[trigger] s@[j]),
        decreases chars.len() - i,
    {
        if !char_is_space(chars[i]) {
            assert(!is_space(s@[i as int]));
            return false;
        }
        i = i + 1;
    }
    true
}

/// The character for a decimal digit.
pub fn digit_char(d: u8) -> (c: char)
    requires
        d < 10,
    ensures
        c == digit(d as nat),
{
    if d == 0 {
        '0'
    } else if d == 1 {
        '1'
    } else if d == 2 {
        '2'
    } else if d == 3 {
        '3'
    } else if d == 4 {
        '4'
    } else if d == 5 {
        '5'
    } else if d == 6 {
        '6'
    } else if d == 7 {
        '7'
    } else if d == 8 {
        '8'
    } else {
        '9'
    }
}

/// The decimal digits of `n`.
pub fn decimal_chars(n: u64) -> (out: Vec<char>)
    ensures
        out@ == decimal(n as nat),
    decreases n,
{
    if n < 10 {
        let mut out: Vec<char> = Vec::new();
        out.push(digit_char(n as u8));
        out
    } else {
        let mut out = decimal_chars(n / 10);
        out.push(digit_char((n % 10) as u8));
        out
    }
}

/// The decimal numeral of `n`.
pub fn decimal_text(n: u64) -> (out: String)
    ensures
        out@ == decimal(n as nat),
{
    let chars = decimal_chars(n);
    string_of(&chars)
}

/// The decimal numeral of `i`, with a leading `-` when negative.
pub fn signed_decimal_text(i: i64) -> (out: String)
    ensures
        out@ == signed_decimal(i as int),
{
    if i < 0 {
        let magnitude: u64 = if i == i64::MIN {
            9223372036854775808u64
        } else {
            (-i) as u64
        };
        let mut acc: Vec<char> = Vec::new();
        acc.push('-');
        let digits = decimal_chars(magnitude);
        extend_chars(&mut acc, &digits);
        string_of(&acc)
    } else {
        decimal_text(i as u64)
    }
}

/// The texts written one after another.
pub fn concat_text(a: &str, b: &str) -> (out: String)
    ensures
        out@ == a@ + b@,
{
    let mut acc = chars_of(a);
    extend_str(&mut acc, b);
    string_of(&acc)
}

} // verus!
