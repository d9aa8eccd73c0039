//! The inputs of built-in actions: texts under one of several names.

use crate::conditions::entry;
use crate::config::or_else;
use crate::maps::StringMap;
use crate::strings::{chars_of, same, strip_prefix, to_lower, trim};
use crate::text::{
    after_prefix, law_trim_idempotent, lemma_split_by_concat, lemma_take_push, lemma_texts_push,
    lemma_trimmed_whole, lower, opt_slice, slices, split_by, texts, trimmed,
};
use vstd::prelude::*;
use vstd::string::*;

verus! {

broadcast use {lemma_texts_push, lemma_take_push};

/// The value under the first of the names that is set.
pub open spec fn first_input(m: Map<Seq<char>, Seq<char>>, names: Seq<Seq<char>>) -> Option<Seq<char>>
    decreases names.len(),
{
    if names.len() == 0 {
        None
    } else if first_input(m, names.drop_last()) is Some {
        first_input(m, names.drop_last())
    } else {
        entry(m, names.last())
    }
}

/// Whether a text says yes.
pub open spec fn says_yes(s: Seq<char>) -> bool {
    let t = lower(trimmed(s));
    t == "1"@ || t == "true"@ || t == "yes"@ || t == "on"@
}

/// Whether a text says no.
pub open spec fn says_no(s: Seq<char>) -> bool {
    let t = lower(trimmed(s));
    t == "0"@ || t == "false"@ || t == "no"@ || t == "off"@
}

/// The switch under the first of the names that is set, or how it stands where none is.
pub open spec fn switch(m: Map<Seq<char>, Seq<char>>, names: Seq<Seq<char>>, standard: bool) -> bool {
    match first_input(m, names) {
        Some(v) => says_yes(v),
        None => standard,
    }
}

/// The characters equal to one of two.
pub open spec fn either(a: char, b: char) -> spec_fn(char) -> bool {
    |x: char| x == a || x == b
}

/// One item of a list of paths: without blanks and without the dash of a YAML list.
pub open spec fn path_item(piece: Seq<char>) -> Seq<char> {
    let t = trimmed(piece);
    trimmed(or_else(after_prefix(t, "- "@), t))
}

/// Items that are not blank.
pub open spec fn path_items(pieces: Seq<Seq<char>>) -> Seq<Seq<char>>
    decreases pieces.len(),
{
    if pieces.len() == 0 {
        Seq::empty()
    } else {
        let item = path_item(pieces.last());
        if item.len() == 0 {
            path_items(pieces.drop_last())
        } else {
            path_items(pieces.drop_last()).push(item)
        }
    }
}

/// A list of paths, one on each line or separated by commas.
pub open spec fn path_list(s: Seq<char>) -> Seq<Seq<char>> {
    path_items(split_by(s, either('\n', ',')))
}

/// The value under the first of the names that is set.
pub fn input_value<'a>(values: &'a StringMap, keys: &[&str]) -> (r: Option<&'a str>)
    ensures
        opt_slice(r) == first_input(values@, slices(keys@)),
{
    let ghost all = slices(keys@);
    let mut i: usize = 0;
    while i < keys.len()
        invariant
            i <= keys@.len(),
            all == slices(keys@),
            first_input(values@, all.take(i as int)) is None,
        decreases keys.len() - i,
    {
        assert(all.take(i + 1).drop_last() =~= all.take(i as int));
        if let Some(v) = values.get(keys[i]) {
            proof {
                lemma_first_input_stays(values@, all, i + 1);
            }
            return Some(v.as_str());
        }
        i += 1;
    }
    assert(all.take(i as int) =~= all);
    None
}

proof fn lemma_first_input_stays(m: Map<Seq<char>, Seq<char>>, names: Seq<Seq<char>>, n: int)
    requires
        0 <= n <= names.len(),
        first_input(m, names.take(n)) is Some,
    ensures
        first_input(m, names) == first_input(m, names.take(n)),
    decreases names.len(),
{
    if n == names.len() {
        assert(names.take(n) =~= names);
    } else {
        assert(names.drop_last().take(n) =~= names.take(n));
        lemma_first_input_stays(m, names.drop_last(), n);
    }
}

/// Whether a text says yes.
pub fn parse_bool(value: &str) -> (r: bool)
    ensures
        r == says_yes(value@),
{
    let t = to_lower(trim(value));
    let t = t.as_str();
    same(t, "1") || same(t, "true") || same(t, "yes") || same(t, "on")
}

/// The switch under the first of the names that is set.
pub fn input_bool(values: &StringMap, keys: &[&str], default: bool) -> (r: bool)
    ensures
        r == switch(values@, slices(keys@), default),
{
    match input_value(values, keys) {
        Some(v) => parse_bool(v),
        None => default,
    }
}

/// The pieces of a string between occurrences of two characters.
fn split_either(s: &str, a: char, b: char) -> (r: Vec<String>)
    ensures
        texts(r@) == split_by(s@, either(a, b)),
{
    let v = chars_of(s);
    let ghost cut = either(a, b);
    let mut done: Vec<String> = Vec::new();
    let mut current = String::new();
    let mut i: usize = 0;
    assert(texts(done@).push(current@) =~= split_by(s@.take(0), cut));
    while i < v.len()
        invariant
            i <= v@.len(),
            v@ == s@,
            cut == either(a, b),
            texts(done@).push(current@) == split_by(s@.take(i as int), cut),
        decreases v.len() - i,
    {
        assert(s@.take(i + 1).drop_last() =~= s@.take(i as int));
        let ghost before = texts(done@).push(current@);
        if v[i] == a || v[i] == b {
            done.push(current);
            current = String::new();
            assert(texts(done@) =~= before);
        } else {
            current.push(v[i]);
            assert(texts(done@) =~= before.drop_last());
        }
        i += 1;
    }
    assert(s@.take(i as int) =~= s@);
    done.push(current);
    done
}

/// A list of paths, one on each line or separated by commas.
pub fn parse_path_list(value: &str) -> (r: Vec<String>)
    ensures
        texts(r@) == path_list(value@),
{
    let pieces = split_either(value, '\n', ',');
    let ghost all = texts(pieces@);
    let mut out: Vec<String> = Vec::new();
    let mut i: usize = 0;
    assert(texts(out@) =~= path_items(all.take(0)));
    while i < pieces.len()
        invariant
            i <= pieces@.len(),
            all == texts(pieces@),
            texts(out@) == path_items(all.take(i as int)),
        decreases pieces.len() - i,
    {
        assert(all.take(i + 1).drop_last() =~= all.take(i as int));
        let t = trim(pieces[i].as_str());
        let item = match strip_prefix(t, "- ") {
            Some(rest) => trim(rest),
            None => trim(t),
        };
        if !item.is_empty() {
            out.push(item.to_owned());
        }
        i += 1;
    }
    assert(all.take(i as int) =~= all);
    out
}

/// No item of a list of paths is blank.
pub proof fn law_path_items_are_not_blank(s: Seq<char>, i: int)
    requires
        0 <= i < path_list(s).len(),
    ensures
        path_list(s)[i].len() > 0,
{
    lemma_path_items(split_by(s, either('\n', ',')), i);
}

proof fn lemma_path_items(pieces: Seq<Seq<char>>, i: int)
    requires
        0 <= i < path_items(pieces).len(),
    ensures
        path_items(pieces)[i].len() > 0,
    decreases pieces.len(),
{
    if pieces.len() > 0 {
        let head = path_items(pieces.drop_last());
        if i < head.len() {
            lemma_path_items(pieces.drop_last(), i);
        }
    }
}

/// A list of paths on two lines, or with a comma between, holds the paths of the first
/// part and then those of the second.
pub proof fn law_path_lists_are_put_together(a: Seq<char>, b: Seq<char>)
    ensures
        path_list(a + "\n"@ + b) == path_list(a) + path_list(b),
        path_list(a + ","@ + b) == path_list(a) + path_list(b),
{
    let cut = either('\n', ',');
    reveal_strlit("\n");
    reveal_strlit(",");
    assert(a + "\n"@ + b =~= a.push('\n') + b);
    assert(a + ","@ + b =~= a.push(',') + b);
    lemma_split_by_concat(a, b, '\n', cut);
    lemma_split_by_concat(a, b, ',', cut);
    lemma_path_items_concat(split_by(a, cut), split_by(b, cut));
}

proof fn lemma_path_items_concat(a: Seq<Seq<char>>, b: Seq<Seq<char>>)
    ensures
        path_items(a + b) == path_items(a) + path_items(b),
    decreases b.len(),
{
    if b.len() == 0 {
        assert(a + b =~= a);
        assert(path_items(a) + path_items(b) =~= path_items(a));
    } else {
        lemma_path_items_concat(a, b.drop_last());
        assert((a + b).drop_last() =~= a + b.drop_last());
        assert(path_items(a + b) =~= path_items(a) + path_items(b));
    }
}

/// An input may stand under one of several names: the first that is set counts, and the
/// others do not matter.
pub proof fn law_the_first_name_counts(m: Map<Seq<char>, Seq<char>>, names: Seq<Seq<char>>, i: int)
    requires
        0 <= i <= names.len(),
        forall|j: int| 0 <= j < i ==> !m.contains_key(#[trigger] names[j]),
        i < names.len() ==> m.contains_key(names[i]),
    ensures
        first_input(m, names) == if i < names.len() {
            Some(m[names[i]])
        } else {
            None
        },
    decreases names.len(),
{
    if names.len() > 0 {
        let t = names.drop_last();
        assert forall|j: int| 0 <= j < i && j < t.len() implies !m.contains_key(#[trigger] t[j]) by {
            assert(t[j] == names[j]);
        }
        if i < t.len() {
            assert(t[i] == names[i]);
            law_the_first_name_counts(m, t, i);
        } else {
            law_the_first_name_counts(m, t, t.len() as int);
            if i == names.len() {
                assert(!m.contains_key(names[names.len() - 1]));
            }
        }
    }
}

/// No text says both yes and no, in whatever case and with whatever blanks it is written;
/// a switch that says neither is off.
pub proof fn law_yes_is_not_no(s: Seq<char>, m: Map<Seq<char>, Seq<char>>, name: Seq<char>, standard: bool)
    ensures
        !(says_yes(s) && says_no(s)),
        says_yes(trimmed(s)) == says_yes(s),
        m.contains_key(name) ==> switch(m, seq![name], standard) == says_yes(m[name]),
        !m.contains_key(name) ==> switch(m, seq![name], standard) == standard,
        says_yes("true"@) && says_yes("yes"@) && says_yes("on"@) && says_yes("1"@),
        says_no("false"@) && says_no("no"@) && says_no("off"@) && says_no("0"@),
{
    reveal_strlit("1");
    reveal_strlit("true");
    reveal_strlit("yes");
    reveal_strlit("on");
    reveal_strlit("0");
    reveal_strlit("false");
    reveal_strlit("no");
    reveal_strlit("off");
    assert("0"@[0] != "1"@[0]);
    assert("no"@[0] != "on"@[0]);
    assert("off"@[0] != "yes"@[0]);
    law_trim_idempotent(s);
    let names = seq![name];
    assert(names[0] == name);
    if m.contains_key(name) {
        law_the_first_name_counts(m, names, 0);
    } else {
        law_the_first_name_counts(m, names, 1);
    }
    lemma_trimmed_whole("1"@);
    assert(lower("1"@) =~= "1"@);
    lemma_trimmed_whole("true"@);
    assert(lower("true"@) =~= "true"@);
    lemma_trimmed_whole("yes"@);
    assert(lower("yes"@) =~= "yes"@);
    lemma_trimmed_whole("on"@);
    assert(lower("on"@) =~= "on"@);
    lemma_trimmed_whole("0"@);
    assert(lower("0"@) =~= "0"@);
    lemma_trimmed_whole("false"@);
    assert(lower("false"@) =~= "false"@);
    lemma_trimmed_whole("no"@);
    assert(lower("no"@) =~= "no"@);
    lemma_trimmed_whole("off"@);
    assert(lower("off"@) =~= "off"@);
}

} // verus!
