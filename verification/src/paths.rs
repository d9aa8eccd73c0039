//! Unix paths as texts: their components and the operations on them.

use crate::strings::{cat2, cat3, chars_of, head_before, join, less_text, same, split_char};
use crate::text::{
    before_first, first_index, join_of, law_text_order, lemma_split_by_concat,
    lemma_split_by_nonempty, lemma_take_push, lemma_texts_push, only, opt_text, split_at_char,
    text_less, texts,
};
use vstd::prelude::*;
use vstd::string::*;

verus! {

broadcast use {lemma_texts_push, lemma_take_push};

/// Whether a path begins at the root.
pub open spec fn absolute(path: Seq<char>) -> bool {
    path.len() > 0 && path[0] == '/'
}

/// A piece between slashes that names something: not empty and not `.`.
pub open spec fn naming(piece: Seq<char>) -> bool {
    piece.len() > 0 && piece != "."@
}

/// What a path begins with: the root, `.`, or nothing.
pub open spec fn lead_of(path: Seq<char>) -> Seq<Seq<char>> {
    if absolute(path) {
        seq!["/"@]
    } else if split_at_char(path, '/')[0] == "."@ {
        seq!["."@]
    } else {
        Seq::empty()
    }
}

/// The pieces of a path that name something, in order.
pub open spec fn body_of(path: Seq<char>) -> Seq<Seq<char>> {
    split_at_char(path, '/').filter(|p: Seq<char>| naming(p))
}

/// The components of a path: `/` for the root, `.` for a leading dot, `..`, and names.
/// Repeated slashes, trailing slashes and inner dots do not count.
pub open spec fn parts_of(path: Seq<char>) -> Seq<Seq<char>> {
    lead_of(path) + body_of(path)
}

/// A component that is a name: not the root, `.` or `..`.
pub open spec fn is_name(part: Seq<char>) -> bool {
    part != "/"@ && part != "."@ && part != ".."@
}

/// `path` seen from `base`: an absolute path stands for itself, any other one
/// is appended to `base`.
pub open spec fn joined(base: Seq<char>, path: Seq<char>) -> Seq<char> {
    if absolute(path) || base.len() == 0 {
        path
    } else if base.last() == '/' {
        base + path
    } else {
        base + "/"@ + path
    }
}

/// The last component, where it is a name.
pub open spec fn file_name_of(path: Seq<char>) -> Option<Seq<char>> {
    let parts = parts_of(path);
    if parts.len() > 0 && is_name(parts.last()) {
        Some(parts.last())
    } else {
        None
    }
}

/// The position of the last `c`, or -1.
pub open spec fn last_index(s: Seq<char>, c: char) -> int
    decreases s.len(),
{
    if s.len() == 0 {
        -1
    } else if s.last() == c {
        s.len() - 1
    } else {
        last_index(s.drop_last(), c)
    }
}

/// A file name without its extension: what precedes the last dot, unless that
/// dot begins the name.
pub open spec fn stem_of(name: Seq<char>) -> Seq<char> {
    let dot = last_index(name, '.');
    if dot <= 0 {
        name
    } else {
        name.take(dot)
    }
}

/// The extension of a file name: what follows its last dot, unless that dot
/// begins the name.
pub open spec fn extension_of(name: Seq<char>) -> Seq<char> {
    let dot = last_index(name, '.');
    if dot <= 0 {
        Seq::empty()
    } else {
        name.skip(dot + 1)
    }
}

/// The length of what a path begins with: a root or a leading dot.
pub open spec fn lead_len(path: Seq<char>) -> int {
    if lead_of(path).len() > 0 {
        1
    } else {
        0
    }
}

/// The path cut before its last piece and the slash before that piece; what it
/// begins with, `lead` characters, stays.
pub open spec fn cut_last_piece(path: Seq<char>, lead: int) -> Seq<char> {
    let slash = last_index(path.skip(lead), '/');
    if slash < 0 {
        path.take(lead)
    } else {
        path.take(lead + slash)
    }
}

/// The last piece of a path, past the `lead` characters that it begins with.
pub open spec fn last_piece(path: Seq<char>, lead: int) -> Seq<char> {
    let slash = last_index(path.skip(lead), '/');
    path.skip(lead + slash + 1)
}

/// The path without trailing pieces that name nothing.
pub open spec fn trim_tail(path: Seq<char>, lead: int) -> Seq<char>
    decreases path.len(),
    when 0 <= lead
{
    if path.len() > lead && !naming(last_piece(path, lead)) {
        proof {
            lemma_last_index(path.skip(lead), '/');
        }
        trim_tail(cut_last_piece(path, lead), lead)
    } else {
        path
    }
}

/// The last occurrence of a character stands within the text.
pub proof fn lemma_last_index(s: Seq<char>, c: char)
    ensures
        -1 <= last_index(s, c) < s.len(),
        last_index(s, c) >= 0 ==> s[last_index(s, c)] == c,
    decreases s.len(),
{
    if s.len() > 0 {
        lemma_last_index(s.drop_last(), c);
    }
}

/// The directory that holds a path: the path without its last component. The
/// root and the empty path have none.
pub open spec fn parent_of(path: Seq<char>) -> Option<Seq<char>> {
    let lead = lead_len(path);
    let rest = trim_tail(path, lead);
    if rest.len() > lead {
        Some(trim_tail(cut_last_piece(rest, lead), lead))
    } else if absolute(path) || lead == 0 {
        None
    } else {
        Some(Seq::empty())
    }
}

/// The order of components: the root, then `.`, then `..`, then names.
pub open spec fn part_rank(part: Seq<char>) -> int {
    if part == "/"@ {
        0
    } else if part == "."@ {
        1
    } else if part == ".."@ {
        2
    } else {
        3
    }
}

/// Whether a component stands before another one.
pub open spec fn part_less(a: Seq<char>, b: Seq<char>) -> bool {
    part_rank(a) < part_rank(b) || (part_rank(a) == part_rank(b) && part_rank(a) == 3 && text_less(a, b))
}

/// Whether a path stands before another one: by the first component in which they differ.
pub open spec fn parts_less(a: Seq<Seq<char>>, b: Seq<Seq<char>>) -> bool
    decreases a.len(),
{
    if b.len() == 0 {
        false
    } else if a.len() == 0 {
        true
    } else if a[0] == b[0] {
        parts_less(a.drop_first(), b.drop_first())
    } else {
        part_less(a[0], b[0])
    }
}

/// The components with `..` taken back against the name before it.
pub open spec fn lexical(parts: Seq<Seq<char>>) -> Seq<Seq<char>>
    decreases parts.len(),
{
    if parts.len() == 0 {
        Seq::empty()
    } else {
        let head = lexical(parts.drop_last());
        let last = parts.last();
        if last == "."@ {
            head
        } else if last == ".."@ {
            if head.len() > 0 && head.last() != ".."@ && head.last() != "/"@ {
                head.drop_last()
            } else {
                head.push(".."@)
            }
        } else {
            head.push(last)
        }
    }
}

/// The number of components that two paths begin with in common.
pub open spec fn common_len(a: Seq<Seq<char>>, b: Seq<Seq<char>>) -> int
    decreases a.len(),
{
    if a.len() == 0 || b.len() == 0 || a[0] != b[0] {
        0
    } else {
        1 + common_len(a.drop_first(), b.drop_first())
    }
}

/// `n` steps up.
pub open spec fn steps_up(n: nat) -> Seq<Seq<char>> {
    Seq::new(n, |i: int| ".."@)
}

/// The components of the way from the directory `from` to `to`.
pub open spec fn way_between(from: Seq<Seq<char>>, to: Seq<Seq<char>>) -> Seq<Seq<char>> {
    let n = common_len(from, to);
    steps_up((from.len() - n) as nat) + to.skip(n)
}

/// The way from the directory `from` to `to` as a path; `.` where they are the same.
pub open spec fn relative_between(from: Seq<char>, to: Seq<char>) -> Option<Seq<char>> {
    if absolute(from) != absolute(to) {
        None
    } else {
        let way = way_between(lexical(parts_of(from)), lexical(parts_of(to)));
        if way.len() == 0 {
            Some("."@)
        } else {
            Some(join_of(way, "/"@))
        }
    }
}

/// Whether a path begins at the root.
pub fn is_absolute(path: &str) -> (r: bool)
    ensures
        r == absolute(path@),
{
    path.unicode_len() > 0 && path.get_char(0) == '/'
}

/// Whether a piece between slashes names something.
fn is_naming(piece: &str) -> (r: bool)
    ensures
        r == naming(piece@),
{
    !piece.is_empty() && !same(piece, ".")
}

/// The components of a path.
pub fn components(path: &str) -> (r: Vec<String>)
    ensures
        texts(r@) == parts_of(path@),
{
    let pieces = split_char(path, '/');
    let ghost all = split_at_char(path@, '/');
    let mut out: Vec<String> = Vec::new();
    if is_absolute(path) {
        out.push("/".to_owned());
    } else if same(pieces[0].as_str(), ".") {
        assert(texts(pieces@)[0] == "."@);
        out.push(".".to_owned());
    } else {
        assert(texts(pieces@)[0] != "."@);
    }
    assert(texts(out@) =~= lead_of(path@));
    let ghost keep = |p: Seq<char>| naming(p);
    let mut i: usize = 0;
    assert(texts(out@) =~= lead_of(path@) + all.take(0).filter(keep)) by {
        reveal(Seq::filter);
    }
    while i < pieces.len()
        invariant
            i <= pieces@.len(),
            texts(pieces@) == all,
            keep == (|p: Seq<char>| naming(p)),
            texts(out@) == lead_of(path@) + all.take(i as int).filter(keep),
        decreases pieces.len() - i,
    {
        let ghost before = texts(out@);
        proof {
            assert(all[i as int] == pieces@[i as int]@);
            lemma_filter_push(all.take(i as int), all[i as int], keep);
        }
        if is_naming(pieces[i].as_str()) {
            out.push(pieces[i].clone());
            assert(texts(out@) =~= lead_of(path@) + all.take(i + 1).filter(keep));
        }
        i += 1;
    }
    assert(all.take(i as int) =~= all);
    out
}

proof fn lemma_filter_push<A>(s: Seq<A>, x: A, keep: spec_fn(A) -> bool)
    ensures
        s.push(x).filter(keep) == if keep(x) {
            s.filter(keep).push(x)
        } else {
            s.filter(keep)
        },
{
    reveal(Seq::filter);
    assert(s.push(x).drop_last() =~= s);
}

/// `path` seen from `base`.
pub fn join_path(base: &str, path: &str) -> (r: String)
    ensures
        r@ == joined(base@, path@),
{
    let n: usize = base.unicode_len();
    if is_absolute(path) || n == 0 {
        path.to_owned()
    } else if base.get_char(n - 1) == '/' {
        cat2(base, path)
    } else {
        cat3(base, "/", path)
    }
}

/// Whether a component is a name.
fn part_is_name(part: &str) -> (r: bool)
    ensures
        r == is_name(part@),
{
    !same(part, "/") && !same(part, ".") && !same(part, "..")
}

/// The last component, where it is a name.
pub fn file_name(path: &str) -> (r: Option<String>)
    ensures
        opt_text(r) == file_name_of(path@),
{
    let mut parts = components(path);
    let ghost all = texts(parts@);
    match parts.pop() {
        Some(last) => {
            assert(last@ == all.last());
            if part_is_name(last.as_str()) {
                Some(last)
            } else {
                None
            }
        },
        None => None,
    }
}

/// The position after the last `c`; 0 where there is none.
fn after_last(s: &str, c: char) -> (r: usize)
    ensures
        r == last_index(s@, c) + 1,
        r <= s@.len(),
{
    let v = chars_of(s);
    let mut i: usize = v.len();
    assert(s@.take(i as int) =~= s@);
    while i > 0 && v[i - 1] != c
        invariant
            i <= v@.len(),
            v@ == s@,
            last_index(s@, c) == last_index(s@.take(i as int), c),
        decreases i,
    {
        assert(s@.take(i as int).drop_last() =~= s@.take(i - 1));
        i -= 1;
    }
    i
}

/// A file name without its extension.
pub fn file_stem(name: &str) -> (r: String)
    ensures
        r@ == stem_of(name@),
{
    let dot: usize = after_last(name, '.');
    if dot <= 1 {
        name.to_owned()
    } else {
        let head = name.substring_char(0, dot - 1);
        assert(head@ =~= name@.take(dot - 1));
        head.to_owned()
    }
}

/// The extension of a file name; empty where it has none.
pub fn extension(name: &str) -> (r: String)
    ensures
        r@ == extension_of(name@),
{
    let dot: usize = after_last(name, '.');
    if dot <= 1 {
        String::new()
    } else {
        let n: usize = name.unicode_len();
        let tail = name.substring_char(dot, n);
        assert(tail@ =~= name@.skip(dot as int));
        tail.to_owned()
    }
}

/// The length of what a path begins with.
fn lead_length(path: &str) -> (r: usize)
    ensures
        r == lead_len(path@),
        r <= path@.len(),
{
    proof {
        lemma_first_piece(path@);
    }
    if is_absolute(path) || same(head_before(path, '/'), ".") {
        proof {
            reveal_strlit(".");
            if !absolute(path@) {
                assert(before_first(path@, '/').len() == 1);
                assert(path@.len() > 0);
            }
        }
        1
    } else {
        0
    }
}

/// The first piece of a path is what stands before the first slash.
proof fn lemma_first_piece(s: Seq<char>)
    ensures
        split_at_char(s, '/')[0] == before_first(s, '/'),
        0 <= first_index(s, '/') <= s.len(),
    decreases s.len(),
{
    if s.len() == 0 {
        assert(split_at_char(s, '/')[0] =~= before_first(s, '/'));
    } else {
        let t = s.drop_last();
        lemma_first_piece(t);
        lemma_split_by_nonempty(t, only('/'));
        lemma_first_index_push(t, s.last(), '/');
        assert(s =~= t.push(s.last()));
        let k = first_index(t, '/');
        if k < t.len() {
            lemma_no_slash_split(t, '/');
            assert(s.take(k) =~= t.take(k));
        } else {
            lemma_no_slash_split(t, '/');
            if s.last() == '/' {
                assert(s.take(k) =~= t.take(k));
            } else {
                assert(s.take(s.len() as int) =~= t.take(k).push(s.last()));
            }
        }
    }
}

proof fn lemma_first_index_push(t: Seq<char>, x: char, c: char)
    ensures
        0 <= first_index(t, c) <= t.len(),
        first_index(t.push(x), c) == if first_index(t, c) < t.len() || x == c {
            first_index(t, c)
        } else {
            t.len() as int + 1
        },
    decreases t.len(),
{
    if t.len() == 0 {
        assert(t.push(x).drop_first() =~= Seq::<char>::empty());
        assert(first_index(Seq::<char>::empty(), c) == 0);
    } else {
        lemma_first_index_push(t.drop_first(), x, c);
        assert(t.push(x).drop_first() =~= t.drop_first().push(x));
    }
}

/// A text splits into one piece exactly where the separator does not occur.
proof fn lemma_no_slash_split(t: Seq<char>, c: char)
    ensures
        (split_at_char(t, c).len() == 1) == (first_index(t, c) == t.len()),
        split_at_char(t, c).len() >= 1,
    decreases t.len(),
{
    if t.len() > 0 {
        let u = t.drop_last();
        lemma_no_slash_split(u, c);
        lemma_first_index_push(u, t.last(), c);
        assert(t =~= u.push(t.last()));
    }
}

/// The path without trailing pieces that name nothing.
fn without_tail<'a>(path: &'a str, lead: usize) -> (r: &'a str)
    requires
        lead <= path@.len(),
    ensures
        r@ == trim_tail(path@, lead as int),
        lead <= r@.len(),
{
    let mut rest: &'a str = path;
    loop
        invariant
            lead <= rest@.len(),
            trim_tail(path@, lead as int) == trim_tail(rest@, lead as int),
        decreases rest@.len(),
    {
        let n: usize = rest.unicode_len();
        if n == lead {
            return rest;
        }
        let tail = rest.substring_char(lead, n);
        assert(tail@ =~= rest@.skip(lead as int));
        let slash: usize = after_last(tail, '/');
        let piece = rest.substring_char(lead + slash, n);
        assert(piece@ =~= last_piece(rest@, lead as int));
        if is_naming(piece) {
            return rest;
        }
        let cut = if slash == 0 {
            rest.substring_char(0, lead)
        } else {
            rest.substring_char(0, lead + slash - 1)
        };
        assert(cut@ =~= cut_last_piece(rest@, lead as int));
        rest = cut;
    }
}

/// The directory that holds a path.
pub fn parent(path: &str) -> (r: Option<String>)
    ensures
        opt_text(r) == parent_of(path@),
{
    let lead: usize = lead_length(path);
    let rest = without_tail(path, lead);
    let n: usize = rest.unicode_len();
    if n > lead {
        let tail = rest.substring_char(lead, n);
        assert(tail@ =~= rest@.skip(lead as int));
        let slash: usize = after_last(tail, '/');
        let cut = if slash == 0 {
            rest.substring_char(0, lead)
        } else {
            rest.substring_char(0, lead + slash - 1)
        };
        assert(cut@ =~= cut_last_piece(rest@, lead as int));
        Some(without_tail(cut, lead).to_owned())
    } else if is_absolute(path) || lead == 0 {
        None
    } else {
        Some(String::new())
    }
}

fn rank_of(part: &str) -> (r: u8)
    ensures
        r == part_rank(part@),
{
    if same(part, "/") {
        0
    } else if same(part, ".") {
        1
    } else if same(part, "..") {
        2
    } else {
        3
    }
}

/// Whether a path stands before another one in component order.
pub fn less_path(a: &str, b: &str) -> (r: bool)
    ensures
        r == parts_less(parts_of(a@), parts_of(b@)),
{
    let x = components(a);
    let y = components(b);
    let ghost xs = parts_of(a@);
    let ghost ys = parts_of(b@);
    let mut i: usize = 0;
    assert(xs.skip(0) =~= xs && ys.skip(0) =~= ys);
    loop
        invariant
            texts(x@) == xs,
            texts(y@) == ys,
            xs == parts_of(a@),
            ys == parts_of(b@),
            i <= xs.len(),
            i <= ys.len(),
            parts_less(xs, ys) == parts_less(xs.skip(i as int), ys.skip(i as int)),
        decreases x.len() - i,
    {
        if i == y.len() {
            return false;
        }
        if i == x.len() {
            return true;
        }
        assert(xs[i as int] == x@[i as int]@ && ys[i as int] == y@[i as int]@);
        if !same(x[i].as_str(), y[i].as_str()) {
            let p: u8 = rank_of(x[i].as_str());
            let q: u8 = rank_of(y[i].as_str());
            return p < q || (p == q && p == 3 && less_text(x[i].as_str(), y[i].as_str()));
        }
        assert(xs.skip(i as int).drop_first() =~= xs.skip(i + 1));
        assert(ys.skip(i as int).drop_first() =~= ys.skip(i + 1));
        i += 1;
    }
}

/// The components of a path with `..` taken back against the name before it.
pub fn lexical_components(path: &str) -> (r: Vec<String>)
    ensures
        texts(r@) == lexical(parts_of(path@)),
{
    let parts = components(path);
    let ghost all = parts_of(path@);
    let mut out: Vec<String> = Vec::new();
    let mut i: usize = 0;
    assert(texts(out@) =~= lexical(all.take(0)));
    while i < parts.len()
        invariant
            i <= parts@.len(),
            texts(parts@) == all,
            texts(out@) == lexical(all.take(i as int)),
        decreases parts.len() - i,
    {
        assert(all.take(i + 1).drop_last() =~= all.take(i as int));
        assert(all[i as int] == parts@[i as int]@);
        let ghost head = texts(out@);
        let part = parts[i].as_str();
        if same(part, ".") {
        } else if same(part, "..") {
            let n: usize = out.len();
            if n > 0 && !same(out[n - 1].as_str(), "..") && !same(out[n - 1].as_str(), "/") {
                assert(head.last() == out@[n - 1]@);
                out.pop();
                assert(texts(out@) =~= head.drop_last());
            } else {
                if n > 0 {
                    assert(head.last() == out@[n - 1]@);
                }
                out.push("..".to_owned());
            }
        } else {
            out.push(parts[i].clone());
        }
        i += 1;
    }
    assert(all.take(i as int) =~= all);
    out
}

/// The number of components that two lists begin with in common.
fn count_common(a: &[String], b: &[String]) -> (r: usize)
    ensures
        r == common_len(texts(a@), texts(b@)),
        r <= a@.len(),
        r <= b@.len(),
{
    let ghost xs = texts(a@);
    let ghost ys = texts(b@);
    let mut i: usize = 0;
    assert(xs.skip(0) =~= xs && ys.skip(0) =~= ys);
    while i < a.len() && i < b.len() && same(a[i].as_str(), b[i].as_str())
        invariant
            xs == texts(a@),
            ys == texts(b@),
            i <= xs.len(),
            i <= ys.len(),
            common_len(xs, ys) == i + common_len(xs.skip(i as int), ys.skip(i as int)),
        decreases a.len() - i,
    {
        assert(xs.skip(i as int).drop_first() =~= xs.skip(i + 1));
        assert(ys.skip(i as int).drop_first() =~= ys.skip(i + 1));
        i += 1;
    }
    i
}

/// The way from the directory `from` to `to`, where both begin at the root or neither does.
pub fn relative_path_between(from: &str, to: &str) -> (r: Option<String>)
    ensures
        opt_text(r) == relative_between(from@, to@),
{
    if is_absolute(from) != is_absolute(to) {
        return None;
    }
    let from_parts = lexical_components(from);
    let to_parts = lexical_components(to);
    let ghost xs = texts(from_parts@);
    let ghost ys = texts(to_parts@);
    let common: usize = count_common(from_parts.as_slice(), to_parts.as_slice());
    let mut way: Vec<String> = Vec::new();
    let mut i: usize = common;
    assert(texts(way@) =~= steps_up(0));
    while i < from_parts.len()
        invariant
            common <= i <= from_parts@.len(),
            texts(way@) == steps_up((i - common) as nat),
        decreases from_parts.len() - i,
    {
        way.push("..".to_owned());
        assert(texts(way@) =~= steps_up((i + 1 - common) as nat));
        i += 1;
    }
    let ghost up = steps_up((xs.len() - common) as nat);
    let mut j: usize = common;
    assert(texts(way@) =~= up + ys.subrange(common as int, common as int));
    while j < to_parts.len()
        invariant
            common <= j <= to_parts@.len(),
            ys == texts(to_parts@),
            texts(way@) == up + ys.subrange(common as int, j as int),
        decreases to_parts.len() - j,
    {
        way.push(to_parts[j].clone());
        assert(texts(way@) =~= up + ys.subrange(common as int, j + 1));
        j += 1;
    }
    assert(ys.subrange(common as int, j as int) =~= ys.skip(common as int));
    if way.is_empty() {
        Some(".".to_owned())
    } else {
        Some(join(way.as_slice(), "/"))
    }
}

/// `path` seen from `base`, unless it begins at the root.
pub fn path_relative_to(base: &str, path: &str) -> (r: String)
    ensures
        r@ == joined(base@, path@),
{
    join_path(base, path)
}

/// Splitting at a separator takes both sides of it apart.
pub proof fn lemma_split_concat(a: Seq<char>, b: Seq<char>, c: char)
    ensures
        split_at_char(a.push(c) + b, c) == split_at_char(a, c) + split_at_char(b, c),
{
    lemma_split_by_concat(a, b, c, only(c));
}

/// The pieces between separators hold no separator.
proof fn lemma_split_pieces(s: Seq<char>, c: char, i: int)
    requires
        0 <= i < split_at_char(s, c).len(),
    ensures
        !split_at_char(s, c)[i].contains(c),
    decreases s.len(),
{
    if s.len() > 0 {
        let t = s.drop_last();
        let head = split_at_char(t, c);
        lemma_split_by_nonempty(t, only(c));
        if s.last() == c {
            if i < head.len() {
                lemma_split_pieces(t, c, i);
            }
        } else {
            lemma_split_pieces(t, c, i);
        }
    }
}

/// The pieces that name something are neither the root nor a dot.
pub proof fn lemma_body_part_is_plain(path: Seq<char>, i: int)
    requires
        0 <= i < body_of(path).len(),
    ensures
        body_of(path)[i] != "/"@,
        body_of(path)[i] != "."@,
        body_of(path)[i].len() > 0,
        !body_of(path)[i].contains('/'),
{
    let pieces = split_at_char(path, '/');
    let keep = |p: Seq<char>| naming(p);
    pieces.lemma_filter_pred(keep, i);
    let x = body_of(path)[i];
    assert(body_of(path).contains(x));
    pieces.lemma_filter_contains_rev(keep, x);
    let j = choose|j: int| 0 <= j < pieces.len() && pieces[j] == x;
    lemma_split_pieces(path, '/', j);
    reveal_strlit("/");
    assert("/"@[0] == '/');
    assert("/"@.contains('/'));
}

/// Joining puts the components of the second path behind those of the first.
pub proof fn law_join_appends_components(base: Seq<char>, path: Seq<char>)
    requires
        base.len() > 0,
        lead_of(path).len() == 0,
    ensures
        parts_of(joined(base, path)) == parts_of(base) + parts_of(path),
{
    lemma_join_body(base, path);
    assert(parts_of(path) =~= body_of(path));
}

/// Joining puts the pieces of the second path that name something behind the first.
proof fn lemma_join_body(base: Seq<char>, path: Seq<char>)
    requires
        base.len() > 0,
        !absolute(path),
    ensures
        parts_of(joined(base, path)) == parts_of(base) + body_of(path),
{
    let keep = |p: Seq<char>| naming(p);
    let whole = joined(base, path);
    lemma_split_by_nonempty(base, only('/'));
    reveal_strlit("/");
    if base.last() == '/' {
        let head = base.drop_last();
        assert(base =~= head.push('/') + Seq::<char>::empty());
        assert(whole =~= head.push('/') + path);
        lemma_split_concat(head, Seq::empty(), '/');
        lemma_split_concat(head, path, '/');
        lemma_split_by_nonempty(head, only('/'));
        Seq::filter_distributes_over_add(split_at_char(head, '/'), split_at_char(path, '/'), keep);
        Seq::filter_distributes_over_add(split_at_char(head, '/'), split_at_char(Seq::empty(), '/'), keep);
        assert(split_at_char(Seq::<char>::empty(), '/').filter(keep) =~= Seq::<Seq<char>>::empty()) by {
            let one = split_at_char(Seq::<char>::empty(), '/');
            assert(one =~= Seq::<Seq<char>>::empty().push(Seq::<char>::empty()));
            lemma_filter_push(Seq::<Seq<char>>::empty(), Seq::<char>::empty(), keep);
            reveal(Seq::filter);
        }
    } else {
        assert("/"@ =~= seq!['/']);
        assert(whole =~= base.push('/') + path);
        lemma_split_concat(base, path, '/');
        Seq::filter_distributes_over_add(split_at_char(base, '/'), split_at_char(path, '/'), keep);
    }
    assert(parts_of(whole) =~= parts_of(base) + body_of(path));
}

/// Names of files are put together and taken apart without loss.
pub proof fn lemma_join_split(names: Seq<Seq<char>>)
    requires
        names.len() > 0,
        forall|i: int| 0 <= i < names.len() ==> !(#[trigger] names[i]).contains('/'),
    ensures
        split_at_char(join_of(names, "/"@), '/') == names,
    decreases names.len(),
{
    reveal_strlit("/");
    assert("/"@ =~= seq!['/']);
    lemma_one_piece(names.last());
    if names.len() == 1 {
        assert(seq![names.last()] =~= names);
    } else {
        let head = names.drop_last();
        assert forall|i: int| 0 <= i < head.len() implies !(#[trigger] head[i]).contains('/') by {
            assert(head[i] == names[i]);
        }
        lemma_join_split(head);
        let a = join_of(head, "/"@);
        assert(join_of(names, "/"@) =~= a.push('/') + names.last());
        lemma_split_concat(a, names.last(), '/');
        assert(head + seq![names.last()] =~= names);
    }
}

proof fn lemma_one_piece(s: Seq<char>)
    requires
        !s.contains('/'),
    ensures
        split_at_char(s, '/') == seq![s],
    decreases s.len(),
{
    if s.len() == 0 {
        assert(s =~= Seq::<char>::empty());
    } else {
        let t = s.drop_last();
        assert(!t.contains('/')) by {
            if t.contains('/') {
                let i = choose|i: int| 0 <= i < t.len() && t[i] == '/';
                assert(s[i] == '/');
            }
        }
        lemma_one_piece(t);
        assert(s[s.len() - 1] == s.last());
        assert(t.push(s.last()) =~= s);
        assert(split_at_char(s, '/') =~= seq![s]);
    }
}

/// Pieces that all name something are all kept.
pub proof fn lemma_all_naming(names: Seq<Seq<char>>)
    requires
        forall|i: int| 0 <= i < names.len() ==> naming(#[trigger] names[i]),
    ensures
        names.filter(|p: Seq<char>| naming(p)) == names,
    decreases names.len(),
{
    reveal(Seq::filter);
    if names.len() > 0 {
        let head = names.drop_last();
        assert forall|i: int| 0 <= i < head.len() implies naming(#[trigger] head[i]) by {
            assert(head[i] == names[i]);
        }
        lemma_all_naming(head);
        assert(naming(names[names.len() - 1]));
        assert(names =~= head.push(names.last()));
    }
}

/// Components in which nothing is left to take back.
spec fn settled(parts: Seq<Seq<char>>) -> bool {
    forall|i: int| 0 <= i < parts.len() ==> {
        &&& #[trigger] parts[i] != "."@
        &&& parts[i] == ".."@ ==> i == 0 || parts[i - 1] == ".."@ || parts[i - 1] == "/"@
    }
}

proof fn lemma_lexical_settled(parts: Seq<Seq<char>>)
    ensures
        settled(lexical(parts)),
    decreases parts.len(),
{
    if parts.len() > 0 {
        lemma_lexical_settled(parts.drop_last());
        reveal_strlit(".");
        reveal_strlit("..");
        assert("."@.len() != ".."@.len());
    }
}

proof fn lemma_lexical_continues(head: Seq<Seq<char>>, base: Seq<Seq<char>>, tail: Seq<Seq<char>>)
    requires
        lexical(head) == base,
        settled(base + tail),
    ensures
        lexical(head + tail) == base + tail,
    decreases tail.len(),
{
    if tail.len() == 0 {
        assert(head + tail =~= head);
        assert(base + tail =~= base);
    } else {
        let t = tail.drop_last();
        assert((base + tail).drop_last() =~= base + t);
        assert forall|i: int| 0 <= i < (base + t).len() implies (base + t)[i] == (base + tail)[i] by {}
        lemma_lexical_continues(head, base, t);
        assert((head + tail).drop_last() =~= head + t);
        assert((base + tail)[base.len() + tail.len() - 1] == tail.last());
        assert(lexical(head + tail) =~= base + tail);
    }
}

proof fn lemma_lexical_up(parts: Seq<Seq<char>>, k: nat)
    requires
        settled(parts),
        k <= parts.len(),
        forall|i: int| parts.len() - k <= i < parts.len() ==> #[trigger] parts[i] != ".."@ && parts[i] != "/"@,
    ensures
        lexical(parts + steps_up(k)) == parts.take(parts.len() - k),
    decreases k,
{
    if k == 0 {
        assert(parts + steps_up(0) =~= Seq::<Seq<char>>::empty() + parts);
        assert(Seq::<Seq<char>>::empty() + parts =~= parts);
        lemma_lexical_continues(Seq::empty(), Seq::empty(), parts);
        assert(parts.take(parts.len() as int) =~= parts);
    } else {
        let j = (k - 1) as nat;
        lemma_lexical_up(parts, j);
        let all = parts + steps_up(k);
        assert(all.drop_last() =~= parts + steps_up(j));
        assert(all.last() == ".."@);
        reveal_strlit(".");
        reveal_strlit("..");
        assert("."@.len() != ".."@.len());
        let head = parts.take(parts.len() - j);
        assert(head.last() == parts[parts.len() - k]);
        assert(head.drop_last() =~= parts.take(parts.len() - k));
    }
}

proof fn lemma_lexical_root(parts: Seq<Seq<char>>, root: bool)
    requires
        parts.len() > 0 && root ==> parts[0] == "/"@,
        forall|i: int| (if root { 1int } else { 0int }) <= i < parts.len() ==> #[trigger] parts[i] != "/"@,
        root ==> parts.len() > 0,
    ensures
        root ==> lexical(parts).len() > 0 && lexical(parts)[0] == "/"@,
        forall|i: int| (if root { 1int } else { 0int }) <= i < lexical(parts).len() ==> #[trigger] lexical(parts)[i] != "/"@,
    decreases parts.len(),
{
    reveal_strlit(".");
    reveal_strlit("..");
    reveal_strlit("/");
    assert(".."@.len() != "/"@.len());
    assert("."@[0] != "/"@[0]);
    if parts.len() > 1 || (parts.len() == 1 && !root) {
        let t = parts.drop_last();
        lemma_lexical_root(t, root);
        assert(parts[parts.len() - 1] == parts.last());
        let head = lexical(t);
        assert forall|i: int| (if root { 1int } else { 0int }) <= i < lexical(parts).len() implies
            #[trigger] lexical(parts)[i] != "/"@ by {
            if i < head.len() {
                assert(head[i] != "/"@);
            }
        }
    } else if parts.len() == 1 {
        assert(parts.drop_last() =~= Seq::<Seq<char>>::empty());
        assert(lexical(parts.drop_last()) =~= Seq::<Seq<char>>::empty());
    }
}

/// What two lists begin with in common stands in both.
pub proof fn lemma_common_len(a: Seq<Seq<char>>, b: Seq<Seq<char>>)
    ensures
        0 <= common_len(a, b) <= a.len(),
        common_len(a, b) <= b.len(),
        a.take(common_len(a, b)) == b.take(common_len(a, b)),
    decreases a.len(),
{
    if a.len() == 0 || b.len() == 0 || a[0] != b[0] {
        assert(a.take(0) =~= b.take(0));
    } else {
        lemma_common_len(a.drop_first(), b.drop_first());
        let n = common_len(a.drop_first(), b.drop_first());
        assert(a.take(n + 1) =~= seq![a[0]] + a.drop_first().take(n));
        assert(b.take(n + 1) =~= seq![b[0]] + b.drop_first().take(n));
    }
}

/// The way from a directory to a path, walked from that directory, leads to that
/// path, unless it would have to leave a `..` whose name is not known.
pub proof fn law_relative_way_leads_there(from: Seq<char>, to: Seq<char>)
    requires
        absolute(from) == absolute(to),
        !lexical(parts_of(from)).skip(common_len(lexical(parts_of(from)), lexical(parts_of(to)))).contains(".."@),
    ensures
        lexical(
            lexical(parts_of(from)) + way_between(lexical(parts_of(from)), lexical(parts_of(to))),
        ) == lexical(parts_of(to)),
{
    let f = lexical(parts_of(from));
    let t = lexical(parts_of(to));
    let n = common_len(f, t);
    let root = absolute(from);
    lemma_common_len(f, t);
    lemma_lexical_settled(parts_of(from));
    lemma_lexical_settled(parts_of(to));
    lemma_parts_root(from);
    lemma_parts_root(to);
    lemma_lexical_root(parts_of(from), root);
    lemma_lexical_root(parts_of(to), root);
    if root {
        lemma_common_len(f.drop_first(), t.drop_first());
        assert(n >= 1);
    }
    let k = (f.len() - n) as nat;
    assert forall|i: int| f.len() - k <= i < f.len() implies #[trigger] f[i] != ".."@ && f[i] != "/"@ by {
        assert(f.skip(n)[i - n] == f[i]);
    }
    lemma_lexical_up(f, k);
    assert(t =~= f.take(n) + t.skip(n));
    lemma_lexical_continues(f + steps_up(k), f.take(n), t.skip(n));
    assert(f + way_between(f, t) =~= (f + steps_up(k)) + t.skip(n));
}

/// A piece of a path that names something or leads up.
spec fn walkable(part: Seq<char>) -> bool {
    naming(part) && !part.contains('/')
}

/// What is left of the components of a path is the root, or names something or leads up.
proof fn lemma_lexical_walkable(parts: Seq<Seq<char>>)
    requires
        forall|i: int| 0 <= i < parts.len() ==> #[trigger] parts[i] == "/"@ || parts[i] == "."@ || walkable(parts[i]),
    ensures
        forall|i: int| 0 <= i < lexical(parts).len() ==> #[trigger] lexical(parts)[i] == "/"@ || walkable(lexical(parts)[i]),
    decreases parts.len(),
{
    if parts.len() > 0 {
        let t = parts.drop_last();
        assert forall|i: int| 0 <= i < t.len() implies #[trigger] t[i] == "/"@ || t[i] == "."@ || walkable(t[i]) by {
            assert(t[i] == parts[i]);
        }
        lemma_lexical_walkable(t);
        lemma_up_is_walkable();
        assert(parts[parts.len() - 1] == parts.last());
        let head = lexical(t);
        let r = lexical(parts);
        assert forall|i: int| 0 <= i < r.len() implies #[trigger] r[i] == "/"@ || walkable(r[i]) by {
            if i < head.len() {
                assert(r[i] == head[i]);
            }
        }
    }
}

proof fn lemma_up_is_walkable()
    ensures
        walkable(".."@),
{
    reveal_strlit(".");
    reveal_strlit("..");
    assert(".."@.len() != "."@.len());
    assert(!".."@.contains('/'));
}

/// Components that name something or lead up, as one relative text, are its components.
proof fn lemma_text_of_components(way: Seq<Seq<char>>)
    requires
        way.len() > 0,
        forall|i: int| 0 <= i < way.len() ==> walkable(#[trigger] way[i]),
    ensures
        !absolute(join_of(way, "/"@)),
        lead_of(join_of(way, "/"@)).len() == 0,
        body_of(join_of(way, "/"@)) == way,
        join_of(way, "/"@) != "."@,
{
    let text = join_of(way, "/"@);
    assert forall|i: int| 0 <= i < way.len() implies !(#[trigger] way[i]).contains('/') && naming(way[i]) by {
        assert(walkable(way[i]));
    }
    lemma_join_split(way);
    lemma_all_naming(way);
    assert(naming(way[0]) && !way[0].contains('/'));
    lemma_first_piece(text);
    assert(before_first(text, '/') == way[0]);
    if absolute(text) {
        assert(first_index(text, '/') == 0);
        assert(before_first(text, '/').len() == 0);
    }
    if text == "."@ {
        reveal_strlit(".");
        assert(!text.contains('/'));
        lemma_one_piece(text);
        assert(way[0] == text);
    }
}

/// A text without a slash that names nothing has no pieces that do.
proof fn lemma_nothing_named(s: Seq<char>)
    requires
        !s.contains('/'),
        !naming(s),
    ensures
        body_of(s) == Seq::<Seq<char>>::empty(),
{
    let keep = |p: Seq<char>| naming(p);
    let none = Seq::<Seq<char>>::empty();
    lemma_one_piece(s);
    assert(split_at_char(s, '/') =~= none.push(s));
    lemma_filter_push(none, s, keep);
    assert(none.filter(keep) =~= none) by {
        reveal(Seq::filter);
    }
}

/// What follows components goes by what is left of them.
proof fn lemma_lexical_of_lexical(a: Seq<Seq<char>>, b: Seq<Seq<char>>)
    ensures
        lexical(a + b) == lexical(lexical(a) + b),
    decreases b.len(),
{
    let f = lexical(a);
    if b.len() == 0 {
        assert(a + b =~= a);
        assert(f + b =~= f);
        lemma_lexical_settled(a);
        assert(Seq::<Seq<char>>::empty() + f =~= f);
        lemma_lexical_continues(Seq::empty(), Seq::empty(), f);
    } else {
        lemma_lexical_of_lexical(a, b.drop_last());
        assert((a + b).drop_last() =~= a + b.drop_last());
        assert((f + b).drop_last() =~= f + b.drop_last());
    }
}

/// The way from one path to another leads there as the text that it is: joined to the first
/// path it comes to the components of the second, unless it would have to leave a `..`
/// whose name is not known. There is none exactly where one path begins at the root and the
/// other does not; it is `.` exactly where both come to the same, and else as many steps up
/// as the first path has components of its own, and then those of the second.
pub proof fn law_relative_path_leads_there(from: Seq<char>, to: Seq<char>)
    ensures
        ({
            let f = lexical(parts_of(from));
            let t = lexical(parts_of(to));
            let n = common_len(f, t);
            match relative_between(from, to) {
                None => absolute(from) != absolute(to),
                Some(p) => {
                    &&& absolute(from) == absolute(to)
                    &&& (p == "."@) == (f == t)
                    &&& f != t ==> parts_of(p) == steps_up((f.len() - n) as nat) + t.skip(n)
                    &&& !f.skip(n).contains(".."@) ==> lexical(parts_of(joined(from, p))) == t
                },
            }
        }),
{
    if absolute(from) == absolute(to) {
        let f = lexical(parts_of(from));
        let t = lexical(parts_of(to));
        let n = common_len(f, t);
        let way = way_between(f, t);
        let p = relative_between(from, to)->0;
        let root = absolute(from);
        lemma_common_len(f, t);
        lemma_parts_root(from);
        lemma_parts_root(to);
        lemma_lexical_root(parts_of(from), root);
        lemma_lexical_root(parts_of(to), root);
        if root {
            lemma_common_len(f.drop_first(), t.drop_first());
            assert(n >= 1);
        }
        lemma_parts_walkable(to);
        lemma_lexical_walkable(parts_of(to));
        lemma_up_is_walkable();
        assert forall|i: int| 0 <= i < way.len() implies walkable(#[trigger] way[i]) by {
            let up = f.len() - n;
            if i >= up {
                assert(way[i] == t[i - up + n]);
            }
        }
        assert((way.len() == 0) == (f == t)) by {
            if way.len() == 0 {
                assert(f.take(n) =~= f);
                assert(t.take(n) =~= t);
            } else if f == t {
                lemma_common_whole(f);
            }
        }
        reveal_strlit(".");
        if way.len() > 0 {
            lemma_text_of_components(way);
            assert(parts_of(p) =~= way);
        } else {
            assert(!absolute(p));
            assert(!p.contains('/'));
            lemma_nothing_named(p);
            assert(body_of(p) =~= way);
        }
        assert(body_of(p) == way);
        if !f.skip(n).contains(".."@) {
            law_relative_way_leads_there(from, to);
            if from.len() > 0 {
                lemma_join_body(from, p);
                lemma_lexical_of_lexical(parts_of(from), way);
            } else {
                lemma_nothing_named(from);
                lemma_one_piece(from);
                assert(from != "."@);
                assert(parts_of(from) =~= Seq::<Seq<char>>::empty());
                assert(f =~= Seq::<Seq<char>>::empty());
                assert(f + way =~= way);
                if way.len() == 0 {
                    lemma_one_piece(p);
                    assert(split_at_char(p, '/')[0] == "."@);
                    assert(parts_of(p) =~= Seq::<Seq<char>>::empty().push("."@));
                    assert(parts_of(p).drop_last() =~= Seq::<Seq<char>>::empty());
                    assert(lexical(parts_of(p)) =~= way);
                }
            }
        }
    }
}

proof fn lemma_common_whole(a: Seq<Seq<char>>)
    ensures
        common_len(a, a) == a.len(),
    decreases a.len(),
{
    if a.len() > 0 {
        lemma_common_whole(a.drop_first());
    }
}

proof fn lemma_parts_walkable(path: Seq<char>)
    ensures
        forall|i: int|
            0 <= i < parts_of(path).len() ==> #[trigger] parts_of(path)[i] == "/"@ || parts_of(path)[i] == "."@
                || walkable(parts_of(path)[i]),
{
    let n = lead_of(path).len() as int;
    assert forall|i: int| 0 <= i < parts_of(path).len() implies #[trigger] parts_of(path)[i] == "/"@
        || parts_of(path)[i] == "."@ || walkable(parts_of(path)[i]) by {
        if i >= n {
            lemma_body_part_is_plain(path, i - n);
            assert(parts_of(path)[i] == body_of(path)[i - n]);
        } else {
            assert(parts_of(path)[i] == lead_of(path)[i]);
        }
    }
}

proof fn lemma_parts_root(path: Seq<char>)
    ensures
        absolute(path) ==> parts_of(path).len() > 0 && parts_of(path)[0] == "/"@,
        forall|i: int| (if absolute(path) { 1int } else { 0int }) <= i < parts_of(path).len()
            ==> #[trigger] parts_of(path)[i] != "/"@,
{
    reveal_strlit(".");
    reveal_strlit("/");
    assert("."@[0] != "/"@[0]);
    let n = lead_of(path).len() as int;
    assert forall|i: int| (if absolute(path) { 1int } else { 0int }) <= i < parts_of(path).len() implies
        #[trigger] parts_of(path)[i] != "/"@ by {
        if i >= n {
            lemma_body_part_is_plain(path, i - n);
        }
    }
}

/// Components are ordered.
proof fn lemma_part_order(a: Seq<char>, b: Seq<char>, c: Seq<char>)
    ensures
        !part_less(a, a),
        part_less(a, b) ==> !part_less(b, a),
        part_less(a, b) && part_less(b, c) ==> part_less(a, c),
        a == b || part_less(a, b) || part_less(b, a),
{
    law_text_order(a, b, c);
    law_text_order(b, a, c);
}

/// Paths are ordered: of two that differ in a component one stands before the other, and
/// the order is one.
pub proof fn law_path_order(a: Seq<Seq<char>>, b: Seq<Seq<char>>, c: Seq<Seq<char>>)
    ensures
        !parts_less(a, a),
        parts_less(a, b) ==> !parts_less(b, a),
        parts_less(a, b) && parts_less(b, c) ==> parts_less(a, c),
        a == b || parts_less(a, b) || parts_less(b, a),
    decreases a.len(),
{
    if a.len() > 0 && b.len() > 0 {
        let c1 = if c.len() > 0 {
            c.drop_first()
        } else {
            c
        };
        let c0 = if c.len() > 0 {
            c[0]
        } else {
            b[0]
        };
        lemma_part_order(a[0], b[0], c0);
        law_path_order(a.drop_first(), b.drop_first(), c1);
        if a[0] == b[0] && a.drop_first() == b.drop_first() {
            assert(a =~= seq![a[0]] + a.drop_first());
            assert(b =~= seq![b[0]] + b.drop_first());
        }
    } else if a.len() == 0 && b.len() == 0 {
        assert(a =~= b);
    } else if a.len() > 0 {
        law_path_order(a.drop_first(), a.drop_first(), a.drop_first());
    }
}

/// A name is a path of one component.
pub proof fn lemma_name_parts(name: Seq<char>)
    requires
        naming(name),
        !name.contains('/'),
    ensures
        lead_of(name).len() == 0,
        parts_of(name) == seq![name],
        !absolute(name),
{
    let way = seq![name];
    assert(join_of(way, "/"@) == name);
    assert forall|i: int| 0 <= i < way.len() implies walkable(#[trigger] way[i]) by {}
    lemma_text_of_components(way);
    assert(parts_of(name) =~= way);
}

/// A path that goes up once and then through two names has just these components.
pub proof fn lemma_up_and_down(first: Seq<char>, second: Seq<char>)
    requires
        naming(first),
        !first.contains('/'),
        naming(second),
        !second.contains('/'),
    ensures
        lead_of(".."@ + "/"@ + first + "/"@ + second).len() == 0,
        parts_of(".."@ + "/"@ + first + "/"@ + second) == seq![".."@, first, second],
{
    reveal_strlit("..");
    reveal_strlit(".");
    reveal_strlit("/");
    let way = seq![".."@, first, second];
    assert(way.drop_last() =~= seq![".."@, first]);
    assert(way.drop_last().drop_last() =~= seq![".."@]);
    assert(join_of(seq![".."@], "/"@) == ".."@);
    assert(join_of(seq![".."@, first], "/"@) == ".."@ + "/"@ + first);
    assert(join_of(way, "/"@) == ".."@ + "/"@ + first + "/"@ + second);
    assert(".."@.len() != "."@.len());
    assert forall|i: int| 0 <= i < way.len() implies walkable(#[trigger] way[i]) by {}
    lemma_text_of_components(way);
    assert(parts_of(join_of(way, "/"@)) =~= way);
}

proof fn lemma_no_last_slash(s: Seq<char>)
    requires
        !s.contains('/'),
    ensures
        last_index(s, '/') == -1,
    decreases s.len(),
{
    if s.len() > 0 {
        let t = s.drop_last();
        assert(!t.contains('/')) by {
            if t.contains('/') {
                let k = choose|k: int| 0 <= k < t.len() && t[k] == '/';
                assert(s[k] == '/');
            }
        }
        assert(s[s.len() - 1] == s.last());
        lemma_no_last_slash(t);
    }
}

proof fn lemma_last_slash(a: Seq<char>, name: Seq<char>)
    requires
        !name.contains('/'),
    ensures
        last_index(a.push('/') + name, '/') == a.len(),
    decreases name.len(),
{
    let s = a.push('/') + name;
    if name.len() == 0 {
        assert(s.last() == '/');
    } else {
        let t = name.drop_last();
        assert(!t.contains('/')) by {
            if t.contains('/') {
                let k = choose|k: int| 0 <= k < t.len() && t[k] == '/';
                assert(name[k] == '/');
            }
        }
        assert(name[name.len() - 1] == s.last());
        assert(s.drop_last() =~= a.push('/') + t);
        lemma_last_slash(a, t);
    }
}

/// The directory of a file is what its name was put behind; a name alone is in the directory
/// that it is seen from, a name at the root in the root, and the root is in no directory.
pub proof fn law_the_directory_of_a_file(base: Seq<char>, name: Seq<char>)
    requires
        naming(name),
        !name.contains('/'),
    ensures
        base.len() > lead_len(base) && naming(last_piece(base, lead_len(base))) ==> parent_of(base.push('/') + name) == Some(
            base,
        ),
        parent_of(name) == Some(Seq::<char>::empty()),
        parent_of(seq!['/'] + name) == Some(seq!['/']),
        parent_of(seq!['/']) is None,
        parent_of(Seq::empty()) is None,
{
    reveal_strlit(".");
    lemma_name_parts(name);
    lemma_no_last_slash(name);
    assert(name.skip(0) =~= name);
    assert(name.take(0) =~= Seq::<char>::empty());
    let top = seq!['/'] + name;
    assert(absolute(top));
    assert(top.skip(1) =~= name);
    assert(top.take(1) =~= seq!['/']);
    assert(absolute(seq!['/']));
    assert(lead_of(Seq::<char>::empty()).len() == 0) by {
        lemma_one_piece(Seq::empty());
        assert("."@.len() == 1);
    }
    if base.len() > lead_len(base) && naming(last_piece(base, lead_len(base))) {
        let path = base.push('/') + name;
        let lead = lead_len(base);
        assert(path[0] == base[0]);
        lemma_split_concat(base, name, '/');
        lemma_split_by_nonempty(base, only('/'));
        assert(split_at_char(path, '/')[0] == split_at_char(base, '/')[0]);
        assert(lead_of(path) == lead_of(base));
        assert(path.skip(lead) =~= base.skip(lead).push('/') + name);
        lemma_last_slash(base.skip(lead), name);
        assert(path.skip((base.len() + 1) as int) =~= name);
        assert(last_piece(path, lead) == name);
        assert(path.take(base.len() as int) =~= base);
        assert(cut_last_piece(path, lead) == base);
    }
}

} // verus!
