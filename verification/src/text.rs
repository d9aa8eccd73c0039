//! Text as sequences of characters: the vocabulary that the contracts of the
//! library are stated in.

use crate::conditions::{lemma_not_found, lemma_single_piece};
use vstd::prelude::*;

verus! {

/// A character with the Unicode `White_Space` property.
pub open spec fn is_space(c: char) -> bool {
    ||| 0x09 <= c as u32 <= 0x0d
    ||| c as u32 == 0x20
    ||| c as u32 == 0x85
    ||| c as u32 == 0xa0
    ||| c as u32 == 0x1680
    ||| 0x2000 <= c as u32 <= 0x200a
    ||| c as u32 == 0x2028
    ||| c as u32 == 0x2029
    ||| c as u32 == 0x202f
    ||| c as u32 == 0x205f
    ||| c as u32 == 0x3000
}

/// An ASCII letter or digit.
pub open spec fn is_alnum(c: char) -> bool {
    ||| 'a' <= c <= 'z'
    ||| 'A' <= c <= 'Z'
    ||| '0' <= c <= '9'
}

/// The ASCII lower-case form of a character; other characters stay as they are.
pub open spec fn lower_char(c: char) -> char {
    if 'A' <= c <= 'Z' {
        (c as u32 + 32) as char
    } else {
        c
    }
}

/// The ASCII lower-case form of a text.
pub open spec fn lower(s: Seq<char>) -> Seq<char> {
    s.map_values(|c: char| lower_char(c))
}

/// A text with every `from` turned into `to`.
pub open spec fn swapped(s: Seq<char>, from: char, to: char) -> Seq<char> {
    s.map_values(|c: char| if c == from { to } else { c })
}

/// A text without its leading white space.
pub open spec fn trim_start_of(s: Seq<char>) -> Seq<char>
    decreases s.len(),
{
    if s.len() > 0 && is_space(s[0]) {
        trim_start_of(s.drop_first())
    } else {
        s
    }
}

/// A text without its trailing white space.
pub open spec fn trim_end_of(s: Seq<char>) -> Seq<char>
    decreases s.len(),
{
    if s.len() > 0 && is_space(s.last()) {
        trim_end_of(s.drop_last())
    } else {
        s
    }
}

/// A text without leading and trailing white space.
pub open spec fn trimmed(s: Seq<char>) -> Seq<char> {
    trim_end_of(trim_start_of(s))
}

/// A text without its leading `c`s.
pub open spec fn strip_leading(s: Seq<char>, c: char) -> Seq<char>
    decreases s.len(),
{
    if s.len() > 0 && s[0] == c {
        strip_leading(s.drop_first(), c)
    } else {
        s
    }
}

/// A text without its trailing `c`s.
pub open spec fn strip_trailing(s: Seq<char>, c: char) -> Seq<char>
    decreases s.len(),
{
    if s.len() > 0 && s.last() == c {
        strip_trailing(s.drop_last(), c)
    } else {
        s
    }
}

/// The pieces of a text between the characters that satisfy `cut`.
pub open spec fn split_by(s: Seq<char>, cut: spec_fn(char) -> bool) -> Seq<Seq<char>>
    decreases s.len(),
{
    if s.len() == 0 {
        seq![Seq::<char>::empty()]
    } else {
        let head = split_by(s.drop_last(), cut);
        if cut(s.last()) {
            head.push(Seq::<char>::empty())
        } else {
            head.drop_last().push(head.last().push(s.last()))
        }
    }
}

/// The characters equal to `c`.
pub open spec fn only(c: char) -> spec_fn(char) -> bool {
    |x: char| x == c
}

/// The pieces of a text between occurrences of `c`.
pub open spec fn split_at_char(s: Seq<char>, c: char) -> Seq<Seq<char>> {
    split_by(s, only(c))
}

/// The texts of `parts` with `sep` between neighbours.
pub open spec fn join_of(parts: Seq<Seq<char>>, sep: Seq<char>) -> Seq<char>
    decreases parts.len(),
{
    if parts.len() == 0 {
        Seq::empty()
    } else if parts.len() == 1 {
        parts[0]
    } else {
        join_of(parts.drop_last(), sep) + sep + parts.last()
    }
}

/// A line without the carriage return that ends it.
pub open spec fn without_cr(s: Seq<char>) -> Seq<char> {
    if s.len() > 0 && s.last() == '\r' {
        s.drop_last()
    } else {
        s
    }
}

/// The characters that are white space.
pub open spec fn blanks() -> spec_fn(char) -> bool {
    |x: char| is_space(x)
}

/// The texts of a list that are not empty.
pub open spec fn filled(pieces: Seq<Seq<char>>) -> Seq<Seq<char>>
    decreases pieces.len(),
{
    if pieces.len() == 0 {
        Seq::empty()
    } else if pieces.last().len() == 0 {
        filled(pieces.drop_last())
    } else {
        filled(pieces.drop_last()).push(pieces.last())
    }
}

/// The words of a text: what stands between white space.
pub open spec fn words_of(s: Seq<char>) -> Seq<Seq<char>> {
    filled(split_by(s, blanks()))
}

/// The lines of a text: what stands before each line feed, without a carriage
/// return before it, and what stands after the last one, where that is not empty.
pub open spec fn lines_of(s: Seq<char>) -> Seq<Seq<char>> {
    let parts = split_at_char(s, '\n');
    let ended = parts.drop_last().map_values(|l: Seq<char>| without_cr(l));
    if parts.last().len() == 0 {
        ended
    } else {
        ended.push(parts.last())
    }
}

/// Whether `needle` occurs in `s`.
pub open spec fn has_text(s: Seq<char>, needle: Seq<char>) -> bool {
    exists|i: int| #[trigger] occurs_at(s, needle, i)
}

/// Whether `needle` occurs in `s` at position `i`.
pub open spec fn occurs_at(s: Seq<char>, needle: Seq<char>, i: int) -> bool {
    0 <= i && i + needle.len() <= s.len() && s.subrange(i, i + needle.len()) == needle
}

/// The position of the first `c`, or the length of the text.
pub open spec fn first_index(s: Seq<char>, c: char) -> int
    decreases s.len(),
{
    if s.len() == 0 || s[0] == c {
        0
    } else {
        1 + first_index(s.drop_first(), c)
    }
}

/// What stands before the first `c`; the whole text where there is none.
pub open spec fn before_first(s: Seq<char>, c: char) -> Seq<char> {
    s.take(first_index(s, c))
}

/// The two sides of the first `c`.
pub open spec fn cut_once(s: Seq<char>, c: char) -> Option<(Seq<char>, Seq<char>)> {
    let i = first_index(s, c);
    if i < s.len() {
        Some((s.take(i), s.skip(i + 1)))
    } else {
        None
    }
}

/// What follows `prefix` in a text that begins with it.
pub open spec fn after_prefix(s: Seq<char>, prefix: Seq<char>) -> Option<Seq<char>> {
    if prefix.is_prefix_of(s) {
        Some(s.skip(prefix.len() as int))
    } else {
        None
    }
}

/// What precedes `suffix` in a text that ends with it.
pub open spec fn before_suffix(s: Seq<char>, suffix: Seq<char>) -> Option<Seq<char>> {
    if suffix.is_suffix_of(s) {
        Some(s.take(s.len() - suffix.len()))
    } else {
        None
    }
}

/// The texts of a sequence of strings.
pub open spec fn texts(v: Seq<String>) -> Seq<Seq<char>> {
    v.map_values(|s: String| s@)
}

/// The texts of a sequence of string slices.
pub open spec fn slices(v: Seq<&str>) -> Seq<Seq<char>> {
    v.map_values(|s: &str| s@)
}

/// The text of an optional string.
pub open spec fn opt_text(v: Option<String>) -> Option<Seq<char>> {
    match v {
        Some(s) => Some(s@),
        None => None,
    }
}

/// The text of an optional string slice.
pub open spec fn opt_slice(v: Option<&str>) -> Option<Seq<char>> {
    match v {
        Some(s) => Some(s@),
        None => None,
    }
}

/// Whether `a` stands before `b` in the order of their characters.
pub open spec fn text_less(a: Seq<char>, b: Seq<char>) -> bool
    decreases a.len(),
{
    if b.len() == 0 {
        false
    } else if a.len() == 0 {
        true
    } else if a[0] == b[0] {
        text_less(a.drop_first(), b.drop_first())
    } else {
        a[0] < b[0]
    }
}

/// The decimal digits of a number.
pub open spec fn decimal_of(n: nat) -> Seq<char>
    decreases n,
{
    if n < 10 {
        seq![digit_char(n)]
    } else {
        decimal_of(n / 10).push(digit_char(n % 10))
    }
}

/// The character of one decimal digit.
pub open spec fn digit_char(d: nat) -> char {
    (('0' as u32) + d) as char
}

/// `n` spaces.
pub open spec fn spaces(n: nat) -> Seq<char> {
    Seq::new(n, |i: int| ' ')
}

/// A text filled up with spaces on the right to at least `width` characters.
pub open spec fn padded(s: Seq<char>, width: nat) -> Seq<char> {
    if s.len() >= width {
        s
    } else {
        s + spaces((width - s.len()) as nat)
    }
}

/// The texts of a longer list.
pub broadcast proof fn lemma_texts_push(v: Seq<String>, x: String)
    ensures
        #[trigger] texts(v.push(x)) == texts(v).push(x@),
{
    assert(texts(v.push(x)) =~= texts(v).push(x@));
}

/// The texts of a longer list of slices.
pub broadcast proof fn lemma_slices_push(v: Seq<&str>, x: &str)
    ensures
        #[trigger] slices(v.push(x)) == slices(v).push(x@),
{
    assert(slices(v.push(x)) =~= slices(v).push(x@));
}

/// A prefix of one more item.
pub broadcast proof fn lemma_take_push<A>(s: Seq<A>, i: int)
    requires
        0 <= i < s.len(),
    ensures
        #[trigger] s.take(i + 1) == s.take(i).push(s[i]),
{
    assert(s.take(i + 1) =~= s.take(i).push(s[i]));
}

/// Splitting gives at least one piece.
pub proof fn lemma_split_by_nonempty(s: Seq<char>, cut: spec_fn(char) -> bool)
    ensures
        split_by(s, cut).len() > 0,
    decreases s.len(),
{
    if s.len() > 0 {
        lemma_split_by_nonempty(s.drop_last(), cut);
    }
}

/// Splitting takes both sides of a separator apart.
pub proof fn lemma_split_by_concat(a: Seq<char>, b: Seq<char>, c: char, cut: spec_fn(char) -> bool)
    requires
        cut(c),
    ensures
        split_by(a.push(c) + b, cut) == split_by(a, cut) + split_by(b, cut),
    decreases b.len(),
{
    let s = a.push(c) + b;
    lemma_split_by_nonempty(a, cut);
    if b.len() == 0 {
        assert(s =~= a.push(c));
        assert(s.drop_last() =~= a);
        assert(split_by(s, cut) =~= split_by(a, cut) + split_by(b, cut));
    } else {
        lemma_split_by_concat(a, b.drop_last(), c, cut);
        lemma_split_by_nonempty(b.drop_last(), cut);
        assert(s.drop_last() =~= a.push(c) + b.drop_last());
        assert(split_by(s, cut) =~= split_by(a, cut) + split_by(b, cut));
    }
}

/// The order of texts is a strict total order.
pub proof fn law_text_order(a: Seq<char>, b: Seq<char>, c: Seq<char>)
    ensures
        !text_less(a, a),
        text_less(a, b) ==> !text_less(b, a),
        text_less(a, b) && text_less(b, c) ==> text_less(a, c),
        a == b || text_less(a, b) || text_less(b, a),
    decreases a.len(),
{
    if a.len() > 0 && b.len() > 0 {
        let c1 = if c.len() > 0 {
            c.drop_first()
        } else {
            c
        };
        law_text_order(a.drop_first(), b.drop_first(), c1);
        if a[0] == b[0] && a.drop_first() == b.drop_first() {
            assert(a =~= seq![a[0]] + a.drop_first());
            assert(b =~= seq![b[0]] + b.drop_first());
        }
    } else if a.len() == 0 && b.len() == 0 {
        assert(a =~= b);
    } else if a.len() > 0 {
        law_text_order(a.drop_first(), a.drop_first(), a.drop_first());
    }
}

/// Trimming a second time changes nothing.
pub proof fn law_trim_idempotent(s: Seq<char>)
    ensures
        trimmed(trimmed(s)) == trimmed(s),
{
    lemma_trim_start_first(s);
    let t = trim_start_of(s);
    lemma_trim_end_last(t);
    let u = trim_end_of(t);
    if u.len() > 0 {
        assert(u[0] == t[0]);
    }
}

proof fn lemma_trim_start_first(s: Seq<char>)
    ensures
        trim_start_of(s).len() > 0 ==> !is_space(trim_start_of(s)[0]),
    decreases s.len(),
{
    if s.len() > 0 && is_space(s[0]) {
        lemma_trim_start_first(s.drop_first());
    }
}

proof fn lemma_trim_end_last(s: Seq<char>)
    ensures
        trim_end_of(s).len() > 0 ==> !is_space(trim_end_of(s).last()),
        trim_end_of(s).is_prefix_of(s),
    decreases s.len(),
{
    if s.len() > 0 && is_space(s.last()) {
        lemma_trim_end_last(s.drop_last());
        assert(trim_end_of(s.drop_last()).is_prefix_of(s));
    }
}

/// What is left of a trimmed text has no white space at its ends.
pub proof fn lemma_trim_ends(s: Seq<char>)
    ensures
        trimmed(s).len() > 0 ==> !is_space(trimmed(s)[0]) && !is_space(trimmed(s).last()),
{
    lemma_trim_start_first(s);
    let t = trim_start_of(s);
    lemma_trim_end_last(t);
    let u = trim_end_of(t);
    if u.len() > 0 {
        assert(u[0] == t[0]);
    }
}

/// A text without white space at its ends is not changed by trimming.
pub proof fn lemma_trimmed_whole(s: Seq<char>)
    requires
        s.len() > 0 ==> !is_space(s[0]) && !is_space(s.last()),
    ensures
        trimmed(s) == s,
{
}

/// The first position of a character is the one before which it does not occur.
pub proof fn lemma_first_index(s: Seq<char>, c: char, n: int)
    requires
        0 <= n < s.len(),
        s[n] == c,
        forall|k: int| 0 <= k < n ==> #[trigger] s[k] != c,
    ensures
        first_index(s, c) == n,
    decreases n,
{
    if n > 0 {
        assert(s[0] != c);
        let t = s.drop_first();
        assert forall|k: int| 0 <= k < n - 1 implies #[trigger] t[k] != c by {
            assert(t[k] == s[k + 1]);
        }
        lemma_first_index(t, c, n - 1);
    }
}

/// Only white space.
pub open spec fn all_space(s: Seq<char>) -> bool {
    forall|i: int| 0 <= i < s.len() ==> is_space(#[trigger] s[i])
}

/// Trimming takes away the white space at both ends, and nothing else.
pub proof fn law_trimming_takes_the_ends(before: Seq<char>, inner: Seq<char>, after: Seq<char>)
    requires
        all_space(before),
        all_space(after),
        inner.len() > 0 ==> !is_space(inner[0]) && !is_space(inner.last()),
    ensures
        trimmed(before + inner + after) == inner,
    decreases before.len() + after.len(),
{
    let s = before + inner + after;
    if inner.len() == 0 {
        assert(s =~= before + after);
        assert forall|i: int| 0 <= i < s.len() implies is_space(#[trigger] s[i]) by {
            if i < before.len() {
                assert(is_space(before[i]));
            } else {
                assert(is_space(after[i - before.len()]));
            }
        }
        lemma_all_trimmed(s);
        assert(trimmed(s) =~= inner);
    } else {
        lemma_trim_front(before, inner + after);
        assert(before + (inner + after) =~= s);
        lemma_trim_back(inner, after);
    }
}

proof fn lemma_all_trimmed(s: Seq<char>)
    requires
        all_space(s),
    ensures
        trim_start_of(s) == Seq::<char>::empty(),
    decreases s.len(),
{
    if s.len() > 0 {
        assert(is_space(s[0]));
        let t = s.drop_first();
        assert forall|i: int| 0 <= i < t.len() implies is_space(#[trigger] t[i]) by {
            assert(is_space(s[i + 1]));
        }
        lemma_all_trimmed(t);
    } else {
        assert(s =~= Seq::<char>::empty());
    }
}

proof fn lemma_trim_front(before: Seq<char>, rest: Seq<char>)
    requires
        all_space(before),
        rest.len() > 0,
        !is_space(rest[0]),
    ensures
        trim_start_of(before + rest) == rest,
    decreases before.len(),
{
    let s = before + rest;
    if before.len() == 0 {
        assert(s =~= rest);
    } else {
        assert(is_space(before[0]));
        let t = before.drop_first();
        assert forall|i: int| 0 <= i < t.len() implies is_space(#[trigger] t[i]) by {
            assert(is_space(before[i + 1]));
        }
        assert(s.drop_first() =~= t + rest);
        lemma_trim_front(t, rest);
    }
}

proof fn lemma_trim_back(inner: Seq<char>, after: Seq<char>)
    requires
        all_space(after),
        inner.len() > 0,
        !is_space(inner.last()),
    ensures
        trim_end_of(inner + after) == inner,
    decreases after.len(),
{
    let s = inner + after;
    if after.len() == 0 {
        assert(s =~= inner);
    } else {
        assert(is_space(after[after.len() - 1]));
        let t = after.drop_last();
        assert forall|i: int| 0 <= i < t.len() implies is_space(#[trigger] t[i]) by {
            assert(is_space(after[i]));
        }
        assert(s.drop_last() =~= inner + t);
        lemma_trim_back(inner, t);
    }
}

/// Blanks, tabs and the ends of lines are white space; letters, digits and signs are not.
pub proof fn law_what_white_space_is(c: char)
    ensures
        is_space(' ') && is_space('\t') && is_space('\n') && is_space('\r'),
        '!' <= c <= '~' ==> !is_space(c),
        is_alnum(c) ==> !is_space(c),
{
}

/// Capitals are turned into small letters, and every other character stays.
pub proof fn law_capitals_become_small(c: char, s: Seq<char>)
    ensures
        'A' <= c <= 'Z' ==> 'a' <= lower_char(c) <= 'z' && lower_char(c) as int - 'a' as int == c as int - 'A' as int,
        !('A' <= c <= 'Z') ==> lower_char(c) == c,
        is_alnum(lower_char(c)) == is_alnum(c),
        lower(lower(s)) == lower(s),
        lower(s).len() == s.len(),
{
    assert(lower(lower(s)) =~= lower(s));
}

/// What is split is whole again when the pieces are joined, and no piece holds what it is split
/// at.
pub proof fn law_splitting_is_undone_by_joining(s: Seq<char>, c: char, i: int)
    ensures
        join_of(split_at_char(s, c), seq![c]) == s,
        0 <= i < split_at_char(s, c).len() ==> !split_at_char(s, c)[i].contains(c),
    decreases s.len(),
{
    if s.len() > 0 {
        let t = s.drop_last();
        let head = split_at_char(t, c);
        let all = split_at_char(s, c);
        lemma_split_by_nonempty(t, only(c));
        assert(t.push(s.last()) =~= s);
        if s.last() == c {
            law_splitting_is_undone_by_joining(t, c, i);
            assert(all.drop_last() =~= head);
            assert(join_of(all, seq![c]) =~= t + seq![c] + Seq::<char>::empty());
            assert(t + seq![c] + Seq::<char>::empty() =~= s);
        } else {
            law_splitting_is_undone_by_joining(t, c, i);
            assert(all.drop_last() =~= head.drop_last());
            if head.len() == 1 {
                assert(all[0] == head[0].push(s.last()));
                assert(join_of(head, seq![c]) == head[0]);
            } else {
                assert(join_of(all, seq![c]) =~= join_of(head, seq![c]).push(s.last()));
            }
        }
    } else {
        assert(s =~= Seq::<char>::empty());
    }
}

/// The words on both sides of white space are the words of the whole; a text without white
/// space is one word.
pub proof fn law_words_are_apart_by_white_space(a: Seq<char>, c: char, b: Seq<char>)
    requires
        is_space(c),
    ensures
        words_of(a.push(c) + b) == words_of(a) + words_of(b),
        a.len() > 0 && (forall|i: int| 0 <= i < a.len() ==> !is_space(#[trigger] a[i])) ==> words_of(a) == seq![a],
        words_of(Seq::empty()) == Seq::<Seq<char>>::empty(),
{
    lemma_split_by_concat(a, b, c, blanks());
    lemma_filled_concat(split_by(a, blanks()), split_by(b, blanks()));
    assert(split_by(Seq::empty(), blanks()) == seq![Seq::<char>::empty()]);
    let none = Seq::<Seq<char>>::empty();
    assert(filled(none) == none);
    assert(seq![Seq::<char>::empty()].drop_last() =~= none);
    assert(filled(seq![Seq::<char>::empty()]) == none);
    if a.len() > 0 && (forall|i: int| 0 <= i < a.len() ==> !is_space(#[trigger] a[i])) {
        lemma_one_word(a);
        assert(seq![a].drop_last() =~= none);
        assert(filled(seq![a]) =~= seq![a]);
    }
}

proof fn lemma_one_word(a: Seq<char>)
    requires
        forall|i: int| 0 <= i < a.len() ==> !is_space(#[trigger] a[i]),
    ensures
        split_by(a, blanks()) == seq![a],
    decreases a.len(),
{
    if a.len() == 0 {
        assert(a =~= Seq::<char>::empty());
    } else {
        let t = a.drop_last();
        assert forall|i: int| 0 <= i < t.len() implies !is_space(#[trigger] t[i]) by {
            assert(!is_space(a[i]));
        }
        lemma_one_word(t);
        assert(!is_space(a[a.len() - 1]));
        assert(t.push(a.last()) =~= a);
        assert(split_by(a, blanks()) =~= seq![a]);
    }
}

proof fn lemma_filled_concat(a: Seq<Seq<char>>, b: Seq<Seq<char>>)
    ensures
        filled(a + b) == filled(a) + filled(b),
    decreases b.len(),
{
    if b.len() == 0 {
        assert(a + b =~= a);
        assert(filled(a) + filled(b) =~= filled(a));
    } else {
        lemma_filled_concat(a, b.drop_last());
        assert((a + b).drop_last() =~= a + b.drop_last());
        assert(filled(a + b) =~= filled(a) + filled(b));
    }
}

/// A line ends with a line feed or with carriage return and line feed, and what follows are
/// the other lines; the last line needs no end.
pub proof fn law_lines_one_by_one(line: Seq<char>, rest: Seq<char>)
    requires
        !line.contains('\n'),
        line.len() > 0 ==> line.last() != '\r',
    ensures
        lines_of(line.push('\n') + rest) == seq![line] + lines_of(rest),
        lines_of(line.push('\r').push('\n') + rest) == seq![line] + lines_of(rest),
        line.len() > 0 ==> lines_of(line) == seq![line],
        lines_of(Seq::empty()) == Seq::<Seq<char>>::empty(),
{
    let wide = line.push('\r');
    assert(!wide.contains('\n')) by {
        if wide.contains('\n') {
            let k = choose|k: int| 0 <= k < wide.len() && wide[k] == '\n';
            if k < line.len() {
                assert(line[k] == '\n');
            }
        }
    }
    lemma_single_piece(line, '\n');
    lemma_single_piece(wide, '\n');
    lemma_single_piece(Seq::empty(), '\n');
    lemma_line_and_rest(line, rest);
    lemma_line_and_rest(wide, rest);
    assert(wide.drop_last() =~= line);
    assert(seq![line].drop_last().map_values(|l: Seq<char>| without_cr(l)) =~= Seq::<Seq<char>>::empty());
    assert(seq![Seq::<char>::empty()].drop_last().map_values(|l: Seq<char>| without_cr(l)) =~= Seq::<Seq<char>>::empty());
    assert(lines_of(Seq::empty()) =~= Seq::<Seq<char>>::empty());
    if line.len() > 0 {
        assert(lines_of(line) =~= seq![line]);
    }
}

proof fn lemma_line_and_rest(line: Seq<char>, rest: Seq<char>)
    requires
        !line.contains('\n'),
    ensures
        lines_of(line.push('\n') + rest) == seq![without_cr(line)] + lines_of(rest),
{
    lemma_single_piece(line, '\n');
    lemma_split_by_concat(line, rest, '\n', only('\n'));
    lemma_split_by_nonempty(rest, only('\n'));
    let more = split_at_char(rest, '\n');
    let all = split_at_char(line.push('\n') + rest, '\n');
    assert(all == seq![line] + more);
    assert(all.last() == more.last());
    let cr = |l: Seq<char>| without_cr(l);
    assert(all.drop_last().map_values(cr) =~= seq![without_cr(line)] + more.drop_last().map_values(cr));
    assert(lines_of(line.push('\n') + rest) =~= seq![without_cr(line)] + lines_of(rest));
}

/// The number that decimal digits write.
pub open spec fn number_of(digits: Seq<char>) -> int
    decreases digits.len(),
{
    if digits.len() == 0 {
        0
    } else {
        10 * number_of(digits.drop_last()) + (digits.last() as int - '0' as int)
    }
}

/// A number is written in digits, the most significant first and without a leading zero, so that
/// it can be read back.
pub proof fn law_numbers_are_read_back(n: nat, i: int)
    ensures
        number_of(decimal_of(n)) == n,
        decimal_of(n).len() > 0,
        0 <= i < decimal_of(n).len() ==> '0' <= decimal_of(n)[i] <= '9',
        n > 0 ==> decimal_of(n)[0] != '0',
    decreases n,
{
    if n < 10 {
        let d = digit_char(n);
        assert(seq![d].drop_last() =~= Seq::<char>::empty());
        assert(number_of(Seq::<char>::empty()) == 0);
        assert(d as int == '0' as int + n);
    } else {
        let head = decimal_of(n / 10);
        law_numbers_are_read_back(n / 10, i);
        law_numbers_are_read_back(n / 10, 0);
        let d = digit_char(n % 10);
        assert(d as int == '0' as int + n % 10);
        assert(head.push(d).drop_last() =~= head);
    }
}

/// A text is cut where a character occurs for the first time.
pub proof fn law_cut_at_the_first(a: Seq<char>, c: char, b: Seq<char>)
    requires
        !a.contains(c),
    ensures
        cut_once(a.push(c) + b, c) == Some((a, b)),
        before_first(a.push(c) + b, c) == a,
        cut_once(a, c) is None,
{
    let t = a.push(c) + b;
    let n = a.len() as int;
    assert forall|k: int| 0 <= k < n implies #[trigger] t[k] != c by {
        assert(t[k] == a[k]);
    }
    lemma_first_index(t, c, n);
    assert(t.take(n) =~= a);
    assert(t.skip(n + 1) =~= b);
    lemma_not_found(a, c);
}

/// A text is filled up with blanks behind it, to the width and no further.
pub proof fn law_columns_keep_their_width(s: Seq<char>, width: nat, i: int)
    ensures
        s.is_prefix_of(padded(s, width)),
        s.len() <= width ==> padded(s, width).len() == width,
        s.len() > width ==> padded(s, width) == s,
        s.len() <= i < padded(s, width).len() ==> padded(s, width)[i] == ' ',
{
    assert(s =~= padded(s, width).subrange(0, s.len() as int));
}

/// A text comes before every longer one that begins with it, and else the first character in which
/// two texts differ decides.
pub proof fn law_how_texts_are_ordered(common: Seq<char>, a: Seq<char>, b: Seq<char>)
    ensures
        text_less(common + a, common + b) == text_less(a, b),
        b.len() > 0 ==> text_less(common, common + b),
        a.len() > 0 && b.len() > 0 && a[0] < b[0] ==> text_less(common + a, common + b),
    decreases common.len(),
{
    if common.len() == 0 {
        assert(common + a =~= a);
        assert(common + b =~= b);
    } else {
        assert((common + a).drop_first() =~= common.drop_first() + a);
        assert((common + b).drop_first() =~= common.drop_first() + b);
        law_how_texts_are_ordered(common.drop_first(), a, b);
    }
}

/// Swapping changes every character that is asked for and no other.
pub proof fn law_swapping_changes_one_character(s: Seq<char>, from: char, to: char, i: int)
    requires
        0 <= i < s.len(),
    ensures
        swapped(s, from, to).len() == s.len(),
        s[i] == from ==> swapped(s, from, to)[i] == to,
        s[i] != from ==> swapped(s, from, to)[i] == s[i],
        from != to ==> !swapped(s, from, to).contains(from),
{
    if from != to && swapped(s, from, to).contains(from) {
        let k = choose|k: int| 0 <= k < s.len() && swapped(s, from, to)[k] == from;
        assert(s[k] == from || s[k] != from);
    }
}

/// A text is found where it stands, whatever is around it, and is not found in a text that
/// lacks one of its characters.
pub proof fn law_what_is_found_in_a_text(a: Seq<char>, needle: Seq<char>, b: Seq<char>, i: int)
    ensures
        has_text(a + needle + b, needle),
        0 <= i < needle.len() && !a.contains(needle[i]) ==> !has_text(a, needle),
        needle.len() > a.len() ==> !has_text(a, needle),
{
    let s = a + needle + b;
    assert(s.subrange(a.len() as int, (a.len() + needle.len()) as int) =~= needle);
    assert(occurs_at(s, needle, a.len() as int));
    if 0 <= i < needle.len() && has_text(a, needle) {
        let k = choose|k: int| #[trigger] occurs_at(a, needle, k);
        assert(a.subrange(k, k + needle.len())[i] == needle[i]);
        assert(a[k + i] == needle[i]);
    }
}

} // verus!
