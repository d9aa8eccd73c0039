//! Executable string operations, each with its meaning in the vocabulary of
//! [`crate::text`].

use crate::text::{
    after_prefix, before_first, before_suffix, blanks, cut_once, decimal_of, digit_char, filled,
    first_index, has_text, is_alnum, is_space, join_of, lemma_take_push, lemma_texts_push, lines_of,
    lower, lower_char, occurs_at, only, opt_slice, opt_text, padded, slices, spaces, split_at_char,
    split_by, strip_leading, strip_trailing, swapped, text_less, texts, trim_end_of, trim_start_of,
    trimmed, without_cr, words_of,
};
use vstd::prelude::*;
use vstd::string::*;

verus! {

broadcast use {lemma_texts_push, lemma_take_push};

/// Appends one character: `String::push` adds the character at the end.
pub assume_specification[ String::push ](s: &mut String, c: char)
    ensures
        final(s)@ == old(s)@.push(c),
;

/// Appends a string slice: `String::push_str` adds its characters at the end.
pub assume_specification[ String::push_str ](s: &mut String, string: &str)
    ensures
        final(s)@ == old(s)@ + string@,
;

/// Whether two strings hold the same characters.
pub fn same(a: &str, b: &str) -> (r: bool)
    ensures
        r == (a@ == b@),
{
    a.to_owned() == b.to_owned()
}

/// The characters of a string.
pub fn chars_of(s: &str) -> (v: Vec<char>)
    ensures
        v@ == s@,
{
    let mut v: Vec<char> = Vec::new();
    for c in it: s.chars()
        invariant
            v@ == it.seq().take(it.index() as int),
    {
        v.push(c);
    }
    v
}

/// Whether a character is white space.
pub fn char_is_space(c: char) -> (r: bool)
    ensures
        r == is_space(c),
{
    let n: u32 = c as u32;
    (0x09 <= n && n <= 0x0d) || n == 0x20 || n == 0x85 || n == 0xa0 || n == 0x1680
        || (0x2000 <= n && n <= 0x200a) || n == 0x2028 || n == 0x2029 || n == 0x202f
        || n == 0x205f || n == 0x3000
}

/// Whether a character is a letter or a digit of ASCII.
pub fn char_is_alnum(c: char) -> (r: bool)
    ensures
        r == is_alnum(c),
{
    ('a' <= c && c <= 'z') || ('A' <= c && c <= 'Z') || ('0' <= c && c <= '9')
}

/// The lower-case form of an ASCII capital; any other character unchanged.
fn char_lower(c: char) -> (r: char)
    ensures
        r == lower_char(c),
{
    if 'A' <= c && c <= 'Z' {
        let n: u8 = c as u8;
        (n + 32) as char
    } else {
        c
    }
}

/// ASCII lower case of a string.
pub fn to_lower(s: &str) -> (r: String)
    ensures
        r@ == lower(s@),
{
    let v = chars_of(s);
    let mut out = String::new();
    let mut i: usize = 0;
    while i < v.len()
        invariant
            i <= v@.len(),
            v@ == s@,
            out@ == lower(s@).take(i as int),
        decreases v.len() - i,
    {
        out.push(char_lower(v[i]));
        i += 1;
    }
    out
}

/// A string with every `from` turned into `to`.
pub fn swap_char(s: &str, from: char, to: char) -> (r: String)
    ensures
        r@ == swapped(s@, from, to),
{
    let v = chars_of(s);
    let mut out = String::new();
    let mut i: usize = 0;
    while i < v.len()
        invariant
            i <= v@.len(),
            v@ == s@,
            out@ == swapped(s@, from, to).take(i as int),
        decreases v.len() - i,
    {
        out.push(if v[i] == from { to } else { v[i] });
        i += 1;
    }
    out
}

/// A string without its leading white space.
pub fn trim_start<'a>(s: &'a str) -> (r: &'a str)
    ensures
        r@ == trim_start_of(s@),
{
    let v = chars_of(s);
    let mut i: usize = 0;
    assert(s@.skip(0) =~= s@);
    while i < v.len() && char_is_space(v[i])
        invariant
            i <= v@.len(),
            v@ == s@,
            trim_start_of(s@) == trim_start_of(s@.skip(i as int)),
        decreases v.len() - i,
    {
        assert(s@.skip(i as int).drop_first() =~= s@.skip(i + 1));
        i += 1;
    }
    assert(s@.skip(i as int) =~= s@.subrange(i as int, s@.len() as int));
    s.substring_char(i, v.len())
}

/// A string without its trailing white space.
pub fn trim_end<'a>(s: &'a str) -> (r: &'a str)
    ensures
        r@ == trim_end_of(s@),
{
    let v = chars_of(s);
    let mut i: usize = v.len();
    assert(s@.take(i as int) =~= s@);
    while i > 0 && char_is_space(v[i - 1])
        invariant
            i <= v@.len(),
            v@ == s@,
            trim_end_of(s@) == trim_end_of(s@.take(i as int)),
        decreases i,
    {
        assert(s@.take(i as int).drop_last() =~= s@.take(i - 1));
        i -= 1;
    }
    assert(s@.take(i as int) =~= s@.subrange(0, i as int));
    s.substring_char(0, i)
}

/// A string without leading and trailing white space.
pub fn trim<'a>(s: &'a str) -> (r: &'a str)
    ensures
        r@ == trimmed(s@),
{
    trim_end(trim_start(s))
}

/// A string without its leading `c`s.
pub fn trim_start_char<'a>(s: &'a str, c: char) -> (r: &'a str)
    ensures
        r@ == strip_leading(s@, c),
{
    let v = chars_of(s);
    let mut i: usize = 0;
    assert(s@.skip(0) =~= s@);
    while i < v.len() && v[i] == c
        invariant
            i <= v@.len(),
            v@ == s@,
            strip_leading(s@, c) == strip_leading(s@.skip(i as int), c),
        decreases v.len() - i,
    {
        assert(s@.skip(i as int).drop_first() =~= s@.skip(i + 1));
        i += 1;
    }
    assert(s@.skip(i as int) =~= s@.subrange(i as int, s@.len() as int));
    s.substring_char(i, v.len())
}

/// A string without its trailing `c`s.
pub fn trim_end_char<'a>(s: &'a str, c: char) -> (r: &'a str)
    ensures
        r@ == strip_trailing(s@, c),
{
    let v = chars_of(s);
    let mut i: usize = v.len();
    assert(s@.take(i as int) =~= s@);
    while i > 0 && v[i - 1] == c
        invariant
            i <= v@.len(),
            v@ == s@,
            strip_trailing(s@, c) == strip_trailing(s@.take(i as int), c),
        decreases i,
    {
        assert(s@.take(i as int).drop_last() =~= s@.take(i - 1));
        i -= 1;
    }
    assert(s@.take(i as int) =~= s@.subrange(0, i as int));
    s.substring_char(0, i)
}

/// Whether a string begins with another.
pub fn starts_with(s: &str, prefix: &str) -> (r: bool)
    ensures
        r == prefix@.is_prefix_of(s@),
{
    strip_prefix(s, prefix).is_some()
}

/// Whether a string ends with another.
pub fn ends_with(s: &str, suffix: &str) -> (r: bool)
    ensures
        r == suffix@.is_suffix_of(s@),
{
    strip_suffix(s, suffix).is_some()
}

/// What follows `prefix` in a string that begins with it.
pub fn strip_prefix<'a>(s: &'a str, prefix: &str) -> (r: Option<&'a str>)
    ensures
        opt_slice(r) == after_prefix(s@, prefix@),
{
    let n: usize = s.unicode_len();
    let m: usize = prefix.unicode_len();
    if n < m {
        return None;
    }
    if same(s.substring_char(0, m), prefix) {
        let rest = s.substring_char(m, n);
        assert(rest@ =~= s@.skip(prefix@.len() as int));
        Some(rest)
    } else {
        None
    }
}

/// What precedes `suffix` in a string that ends with it.
pub fn strip_suffix<'a>(s: &'a str, suffix: &str) -> (r: Option<&'a str>)
    ensures
        opt_slice(r) == before_suffix(s@, suffix@),
{
    let n: usize = s.unicode_len();
    let m: usize = suffix.unicode_len();
    if n < m {
        return None;
    }
    if same(s.substring_char(n - m, n), suffix) {
        let rest = s.substring_char(0, n - m);
        assert(rest@ =~= s@.take(s@.len() - suffix@.len()));
        Some(rest)
    } else {
        None
    }
}

/// The position of the first `c`, or the length of the string.
pub fn index_of_char(s: &str, c: char) -> (r: usize)
    ensures
        r == first_index(s@, c),
        r <= s@.len(),
{
    let v = chars_of(s);
    let mut i: usize = 0;
    assert(s@.skip(0) =~= s@);
    while i < v.len() && v[i] != c
        invariant
            i <= v@.len(),
            v@ == s@,
            first_index(s@, c) == i + first_index(s@.skip(i as int), c),
        decreases v.len() - i,
    {
        assert(s@.skip(i as int).drop_first() =~= s@.skip(i + 1));
        i += 1;
    }
    i
}

/// What stands before the first `c`; the whole string where there is none.
pub fn head_before<'a>(s: &'a str, c: char) -> (r: &'a str)
    ensures
        r@ == before_first(s@, c),
{
    let i: usize = index_of_char(s, c);
    assert(s@.take(i as int) =~= s@.subrange(0, i as int));
    s.substring_char(0, i)
}

/// The two sides of the first `c`.
pub fn split_once<'a>(s: &'a str, c: char) -> (r: Option<(&'a str, &'a str)>)
    ensures
        r matches Some(p) ==> cut_once(s@, c) == Some((p.0@, p.1@)),
        r is None ==> cut_once(s@, c) is None,
{
    let n: usize = s.unicode_len();
    let i: usize = index_of_char(s, c);
    if i < n {
        let left = s.substring_char(0, i);
        let right = s.substring_char(i + 1, n);
        assert(left@ =~= s@.take(i as int));
        assert(right@ =~= s@.skip(i + 1));
        Some((left, right))
    } else {
        None
    }
}

/// The pieces of a string between occurrences of `c`.
pub fn split_char(s: &str, c: char) -> (r: Vec<String>)
    ensures
        texts(r@) == split_at_char(s@, c),
        r@.len() > 0,
{
    let v = chars_of(s);
    let ghost cut = only(c);
    let mut done: Vec<String> = Vec::new();
    let mut current = String::new();
    let mut i: usize = 0;
    assert(texts(done@).push(current@) =~= split_by(s@.take(0), cut));
    while i < v.len()
        invariant
            i <= v@.len(),
            v@ == s@,
            cut == only(c),
            texts(done@).push(current@) == split_by(s@.take(i as int), cut),
        decreases v.len() - i,
    {
        assert(s@.take(i + 1).drop_last() =~= s@.take(i as int));
        let ghost before = texts(done@).push(current@);
        if v[i] == c {
            done.push(current);
            current = String::new();
            assert(texts(done@) =~= before);
        } else {
            current.push(v[i]);
            assert(texts(done@) =~= before.drop_last());
        }
        i += 1;
    }
    assert(s@.take(i as int) =~= s@);
    let ghost before = texts(done@).push(current@);
    done.push(current);
    assert(texts(done@) =~= before);
    done
}

/// The words of a string: what stands between white space.
pub fn words(s: &str) -> (r: Vec<String>)
    ensures
        texts(r@) == words_of(s@),
{
    let v = chars_of(s);
    let ghost cut = blanks();
    let mut done: Vec<String> = Vec::new();
    let ghost mut pieces: Seq<Seq<char>> = Seq::empty();
    let mut current = String::new();
    let mut i: usize = 0;
    assert(pieces.push(current@) =~= split_by(s@.take(0), cut));
    assert(texts(done@) =~= filled(pieces));
    while i < v.len()
        invariant
            i <= v@.len(),
            v@ == s@,
            cut == blanks(),
            pieces.push(current@) == split_by(s@.take(i as int), cut),
            texts(done@) == filled(pieces),
        decreases v.len() - i,
    {
        assert(s@.take(i + 1).drop_last() =~= s@.take(i as int));
        let ghost before = pieces.push(current@);
        if char_is_space(v[i]) {
            assert(before.drop_last() =~= pieces);
            proof {
                pieces = before;
            }
            if !current.as_str().is_empty() {
                let ghost had = texts(done@);
                done.push(current);
                assert(texts(done@) =~= had.push(before.last()));
            }
            current = String::new();
        } else {
            current.push(v[i]);
            assert(before.drop_last() =~= pieces);
        }
        i += 1;
    }
    assert(s@.take(i as int) =~= s@);
    let ghost before = pieces.push(current@);
    assert(before.drop_last() =~= pieces);
    if !current.as_str().is_empty() {
        let ghost had = texts(done@);
        done.push(current);
        assert(texts(done@) =~= had.push(before.last()));
    }
    done
}

/// The parts with `sep` between neighbours.
pub fn join(parts: &[String], sep: &str) -> (r: String)
    ensures
        r@ == join_of(texts(parts@), sep@),
{
    let mut out = String::new();
    let mut i: usize = 0;
    let ghost all = texts(parts@);
    while i < parts.len()
        invariant
            i <= parts@.len(),
            all == texts(parts@),
            out@ == join_of(all.take(i as int), sep@),
        decreases parts.len() - i,
    {
        assert(all.take(i + 1).drop_last() =~= all.take(i as int));
        if i > 0 {
            out.push_str(sep);
        }
        out.push_str(parts[i].as_str());
        assert(out@ =~= join_of(all.take(i + 1), sep@));
        i += 1;
    }
    assert(all.take(i as int) =~= all);
    out
}

/// A line without the carriage return that ends it.
fn drop_cr<'a>(s: &'a str) -> (r: &'a str)
    ensures
        r@ == without_cr(s@),
{
    let n: usize = s.unicode_len();
    if n > 0 && s.get_char(n - 1) == '\r' {
        assert(s@.subrange(0, n - 1) =~= s@.drop_last());
        s.substring_char(0, n - 1)
    } else {
        s
    }
}

/// The lines of a string.
pub fn lines(s: &str) -> (r: Vec<String>)
    ensures
        texts(r@) == lines_of(s@),
{
    let mut parts = split_char(s, '\n');
    let ghost pieces = texts(parts@);
    let last = parts.pop().unwrap();
    let ghost heads = pieces.drop_last();
    assert(texts(parts@) =~= heads);
    assert(last@ == pieces.last());
    let ghost ended = heads.map_values(|l: Seq<char>| without_cr(l));
    let mut out: Vec<String> = Vec::new();
    let mut i: usize = 0;
    while i < parts.len()
        invariant
            i <= parts@.len(),
            texts(parts@) == heads,
            ended == heads.map_values(|l: Seq<char>| without_cr(l)),
            texts(out@) == ended.take(i as int),
        decreases parts.len() - i,
    {
        assert(heads[i as int] == parts@[i as int]@);
        let line = drop_cr(parts[i].as_str()).to_owned();
        out.push(line);
        assert(texts(out@) =~= ended.take(i + 1));
        i += 1;
    }
    assert(ended.take(i as int) =~= ended);
    if !last.as_str().is_empty() {
        out.push(last);
        assert(texts(out@) =~= ended.push(pieces.last()));
    }
    out
}

/// Whether `needle` occurs in `s`.
pub fn contains(s: &str, needle: &str) -> (r: bool)
    ensures
        r == has_text(s@, needle@),
{
    let n: usize = s.unicode_len();
    let m: usize = needle.unicode_len();
    if n < m {
        assert(forall|i: int| !occurs_at(s@, needle@, i));
        return false;
    }
    let mut i: usize = 0;
    while i <= n - m
        invariant
            n == s@.len(),
            m == needle@.len(),
            m <= n,
            i <= n - m + 1,
            forall|j: int| 0 <= j < i ==> !occurs_at(s@, needle@, j),
        decreases n - m + 1 - i,
    {
        if same(s.substring_char(i, i + m), needle) {
            assert(occurs_at(s@, needle@, i as int));
            return true;
        }
        if i == n - m {
            assert(forall|j: int| !occurs_at(s@, needle@, j));
            return false;
        }
        i += 1;
    }
    false
}

/// The position of the first of the strings that equals `x`.
pub fn position_of(list: &[String], x: &str) -> (r: Option<usize>)
    ensures
        r matches Some(i) ==> i < list@.len() && list@[i as int]@ == x@
            && forall|j: int| 0 <= j < i ==> list@[j]@ != x@,
        r is None ==> !texts(list@).contains(x@),
{
    let mut i: usize = 0;
    while i < list.len()
        invariant
            i <= list@.len(),
            forall|j: int| 0 <= j < i ==> list@[j]@ != x@,
        decreases list.len() - i,
    {
        if same(list[i].as_str(), x) {
            return Some(i);
        }
        i += 1;
    }
    None
}

/// Whether one of the strings equals `x`.
pub fn list_has(list: &[String], x: &str) -> (r: bool)
    ensures
        r == texts(list@).contains(x@),
{
    match position_of(list, x) {
        Some(i) => {
            assert(texts(list@)[i as int] == x@);
            true
        },
        None => false,
    }
}

/// Whether one of the slices equals `x`.
pub fn one_of(x: &str, list: &[&str]) -> (r: bool)
    ensures
        r == slices(list@).contains(x@),
{
    let mut i: usize = 0;
    while i < list.len()
        invariant
            i <= list@.len(),
            forall|j: int| 0 <= j < i ==> list@[j]@ != x@,
        decreases list.len() - i,
    {
        if same(list[i], x) {
            assert(slices(list@)[i as int] == x@);
            return true;
        }
        i += 1;
    }
    false
}

/// A copy of a list of strings.
pub fn copy_list(list: &[String]) -> (r: Vec<String>)
    ensures
        texts(r@) == texts(list@),
{
    let mut out: Vec<String> = Vec::new();
    let mut i: usize = 0;
    while i < list.len()
        invariant
            i <= list@.len(),
            texts(out@) == texts(list@).take(i as int),
        decreases list.len() - i,
    {
        let item = list[i].clone();
        assert(item@ == list@[i as int]@);
        out.push(item);
        assert(texts(out@) =~= texts(list@).take(i + 1));
        i += 1;
    }
    assert(texts(list@).take(i as int) =~= texts(list@));
    out
}

/// A copy of an optional string.
pub fn copy_opt(v: &Option<String>) -> (r: Option<String>)
    ensures
        opt_text(r) == opt_text(*v),
{
    match v {
        Some(s) => Some(s.clone()),
        None => None,
    }
}

/// An optional string as an optional slice.
pub fn opt_str<'a>(v: &'a Option<String>) -> (r: Option<&'a str>)
    ensures
        opt_slice(r) == opt_text(*v),
{
    match v {
        Some(s) => Some(s.as_str()),
        None => None,
    }
}

/// Two texts one after the other.
pub fn cat2(a: &str, b: &str) -> (r: String)
    ensures
        r@ == a@ + b@,
{
    let mut out = a.to_owned();
    out.push_str(b);
    out
}

/// Three texts one after the other.
pub fn cat3(a: &str, b: &str, c: &str) -> (r: String)
    ensures
        r@ == a@ + b@ + c@,
{
    let mut out = cat2(a, b);
    out.push_str(c);
    out
}

/// Four texts one after the other.
pub fn cat4(a: &str, b: &str, c: &str, d: &str) -> (r: String)
    ensures
        r@ == a@ + b@ + c@ + d@,
{
    let mut out = cat3(a, b, c);
    out.push_str(d);
    out
}

/// Five texts one after the other.
pub fn cat5(a: &str, b: &str, c: &str, d: &str, e: &str) -> (r: String)
    ensures
        r@ == a@ + b@ + c@ + d@ + e@,
{
    let mut out = cat4(a, b, c, d);
    out.push_str(e);
    out
}

/// Six texts one after the other.
pub fn cat6(a: &str, b: &str, c: &str, d: &str, e: &str, f: &str) -> (r: String)
    ensures
        r@ == a@ + b@ + c@ + d@ + e@ + f@,
{
    let mut out = cat5(a, b, c, d, e);
    out.push_str(f);
    out
}

/// The decimal digits of a number.
pub fn decimal(n: u64) -> (r: String)
    ensures
        r@ == decimal_of(n as nat),
    decreases n,
{
    if n < 10 {
        let mut out = String::new();
        out.push(digit(n));
        assert(out@ =~= seq![digit_char(n as nat)]);
        out
    } else {
        let mut out = decimal(n / 10);
        out.push(digit(n % 10));
        out
    }
}

fn digit(d: u64) -> (c: char)
    requires
        d < 10,
    ensures
        c == digit_char(d as nat),
{
    let n: u8 = d as u8;
    (48u8 + n) as char
}

/// A string filled up with spaces on the right to at least `width` characters.
pub fn pad_right(s: &str, width: usize) -> (r: String)
    ensures
        r@ == padded(s@, width as nat),
{
    let mut out = s.to_owned();
    let mut n: usize = s.unicode_len();
    while n < width
        invariant
            s@.len() <= n,
            n <= width || n == s@.len(),
            out@ == s@ + spaces((n - s@.len()) as nat),
        decreases width - n,
    {
        out.push(' ');
        n += 1;
        assert(out@ =~= s@ + spaces((n - s@.len()) as nat));
    }
    assert(s@ + spaces(0) =~= s@);
    out
}

/// Whether `a` stands before `b` in the order of their characters.
pub fn less_text(a: &str, b: &str) -> (r: bool)
    ensures
        r == text_less(a@, b@),
{
    let x = chars_of(a);
    let y = chars_of(b);
    let mut i: usize = 0;
    assert(a@.skip(0) =~= a@ && b@.skip(0) =~= b@);
    loop
        invariant
            x@ == a@,
            y@ == b@,
            i <= a@.len(),
            i <= b@.len(),
            text_less(a@, b@) == text_less(a@.skip(i as int), b@.skip(i as int)),
        decreases x.len() - i,
    {
        if i == y.len() {
            return false;
        }
        if i == x.len() {
            return true;
        }
        if x[i] != y[i] {
            return x[i] < y[i];
        }
        assert(a@.skip(i as int).drop_first() =~= a@.skip(i + 1));
        assert(b@.skip(i as int).drop_first() =~= b@.skip(i + 1));
        i += 1;
    }
}

} // verus!
