//! The conditions that steps and jobs run under, and the expressions in their texts.

use crate::arch::{Architecture, canonical_arch};
use crate::config::or_else;
use crate::hooks::{clean_items, items_between, list_items};
use crate::maps::{StringMap, law_names_are_the_domain};
use crate::paths::lemma_split_concat;
use crate::strings::{
    cat2, cat3, chars_of, ends_with, same, split_once, starts_with, strip_prefix, strip_suffix,
    trim,
};
use crate::text::{
    after_prefix, before_suffix, cut_once, first_index, is_space, lemma_first_index,
    lemma_take_push, lemma_texts_push, lemma_trimmed_whole, occurs_at, opt_slice, split_at_char,
    texts, trim_end_of, trim_start_of, trimmed,
};
use crate::yaml::lemma_contains_push;
use vstd::prelude::*;
use vstd::string::*;

verus! {

broadcast use {lemma_texts_push, lemma_take_push};

/// What conditions and expressions are about.
pub struct ExpressionContext<'a> {
    pub event: &'a str,
    pub branch: Option<&'a str>,
    pub env: &'a StringMap,
    pub matrix: &'a StringMap,
    pub inputs: &'a StringMap,
    pub success: bool,
    pub previous_failed: bool,
}

#[verifier::ext_equal]
pub struct ExpressionView {
    pub event: Seq<char>,
    pub branch: Option<Seq<char>>,
    pub env: Map<Seq<char>, Seq<char>>,
    pub matrix: Map<Seq<char>, Seq<char>>,
    pub inputs: Map<Seq<char>, Seq<char>>,
    pub success: bool,
    pub previous_failed: bool,
}

impl<'a> View for ExpressionContext<'a> {
    type V = ExpressionView;

    open spec fn view(&self) -> ExpressionView {
        ExpressionView {
            event: self.event@,
            branch: opt_slice(self.branch),
            env: self.env@,
            matrix: self.matrix@,
            inputs: self.inputs@,
            success: self.success,
            previous_failed: self.previous_failed,
        }
    }
}

/// The value under a name.
pub open spec fn entry(m: Map<Seq<char>, Seq<char>>, name: Seq<char>) -> Option<Seq<char>> {
    if m.contains_key(name) {
        Some(m[name])
    } else {
        None
    }
}

/// What a name stands for: a variable, a value of the matrix, an input, the event or
/// the branch.
pub open spec fn lookup(ctx: ExpressionView, name: Seq<char>) -> Option<Seq<char>> {
    if "env."@.is_prefix_of(name) {
        entry(ctx.env, name.skip("env."@.len() as int))
    } else if "matrix."@.is_prefix_of(name) {
        entry(ctx.matrix, name.skip("matrix."@.len() as int))
    } else if "inputs."@.is_prefix_of(name) {
        entry(ctx.inputs, name.skip("inputs."@.len() as int))
    } else if name == "github.event_name"@ {
        Some(ctx.event)
    } else if name == "github.ref_name"@ {
        ctx.branch
    } else {
        entry(ctx.inputs, name)
    }
}

/// A text without the quotes around it.
pub open spec fn unquoted(s: Seq<char>) -> Option<Seq<char>> {
    if s.len() >= 2 && s[0] == s.last() && (s[0] == '\'' || s[0] == '"') {
        Some(s.subrange(1, s.len() - 1))
    } else {
        None
    }
}

/// What an argument stands for: what is quoted, what a name stands for, or itself.
pub open spec fn value_of(ctx: ExpressionView, s: Seq<char>) -> Seq<char> {
    let t = trimmed(s);
    match unquoted(t) {
        Some(inner) => inner,
        None => or_else(lookup(ctx, t), t),
    }
}

/// The kind of thing that has to exist.
#[derive(Clone, Copy, Debug, PartialEq, Eq, Structural)]
pub enum TargetKind {
    /// A path in the repository, or a command.
    Any,
    Path,
    File,
    Dir,
    Command,
    Env,
}

/// Something that has to exist.
#[derive(Debug)]
pub struct Target {
    pub kind: TargetKind,
    pub name: String,
}

/// Something that has to exist, by its text.
#[verifier::ext_equal]
pub struct TargetView {
    pub kind: TargetKind,
    pub name: Seq<char>,
}

impl View for Target {
    type V = TargetView;

    open spec fn view(&self) -> TargetView {
        TargetView { kind: self.kind, name: self.name@ }
    }
}

/// A condition.
#[derive(Debug)]
pub enum Condition {
    Always,
    Success,
    Failure,
    Literal(bool),
    Arch(String),
    Exists(Target),
    Missing(Target),
    Equal(String, String),
    Differs(String, String),
    Value(String),
    Not(Box<Condition>),
    And(Box<Condition>, Box<Condition>),
    Or(Box<Condition>, Box<Condition>),
}

/// A condition by its texts.
pub enum ConditionView {
    Always,
    Success,
    Failure,
    Literal(bool),
    Arch(Seq<char>),
    Exists(TargetView),
    Missing(TargetView),
    Equal(Seq<char>, Seq<char>),
    Differs(Seq<char>, Seq<char>),
    Value(Seq<char>),
    Not(Box<ConditionView>),
    And(Box<ConditionView>, Box<ConditionView>),
    Or(Box<ConditionView>, Box<ConditionView>),
}

/// A condition by its texts.
pub open spec fn condition_view(c: Condition) -> ConditionView
    decreases c,
{
    match c {
        Condition::Always => ConditionView::Always,
        Condition::Success => ConditionView::Success,
        Condition::Failure => ConditionView::Failure,
        Condition::Literal(b) => ConditionView::Literal(b),
        Condition::Arch(s) => ConditionView::Arch(s@),
        Condition::Exists(t) => ConditionView::Exists(t@),
        Condition::Missing(t) => ConditionView::Missing(t@),
        Condition::Equal(a, b) => ConditionView::Equal(a@, b@),
        Condition::Differs(a, b) => ConditionView::Differs(a@, b@),
        Condition::Value(s) => ConditionView::Value(s@),
        Condition::Not(a) => ConditionView::Not(Box::new(condition_view(*a))),
        Condition::And(a, b) => ConditionView::And(
            Box::new(condition_view(*a)),
            Box::new(condition_view(*b)),
        ),
        Condition::Or(a, b) => ConditionView::Or(
            Box::new(condition_view(*a)),
            Box::new(condition_view(*b)),
        ),
    }
}

/// Where a scan stands in a text: how deep in brackets, and in which quotes.
pub struct Nesting {
    pub depth: int,
    pub quote: Option<char>,
}

/// Where a scan stands after one more character.
pub open spec fn step_nesting(n: Nesting, c: char) -> Nesting {
    match n.quote {
        Some(q) => if c == q {
            Nesting { depth: n.depth, quote: None }
        } else {
            n
        },
        None => if c == '\'' || c == '"' {
            Nesting { depth: n.depth, quote: Some(c) }
        } else if c == '(' {
            Nesting { depth: n.depth + 1, quote: None }
        } else if c == ')' {
            Nesting { depth: n.depth - 1, quote: None }
        } else {
            n
        },
    }
}

/// Where a scan stands after a text.
pub open spec fn nesting(s: Seq<char>) -> Nesting
    decreases s.len(),
{
    if s.len() == 0 {
        Nesting { depth: 0, quote: None }
    } else {
        step_nesting(nesting(s.drop_last()), s.last())
    }
}

/// Whether a word stands at a position, outside of brackets and quotes.
pub open spec fn stands_free(s: Seq<char>, word: Seq<char>, i: int) -> bool {
    occurs_at(s, word, i) && nesting(s.take(i)).depth == 0 && nesting(s.take(i)).quote is None
}

/// The first position at or after `from` where a word stands outside of brackets and quotes.
pub open spec fn free_from(s: Seq<char>, word: Seq<char>, from: int) -> Option<int>
    decreases s.len() - from,
{
    if from >= s.len() {
        None
    } else if stands_free(s, word, from) {
        Some(from)
    } else {
        free_from(s, word, from + 1)
    }
}

/// The arguments in the brackets of a call.
pub open spec fn call_args(s: Seq<char>, name: Seq<char>) -> Option<Seq<char>> {
    if (name + "("@).is_prefix_of(s) && ")"@.is_suffix_of(s) && s.len() > name.len() + 1 {
        Some(s.subrange(name.len() as int + 1, s.len() - 1))
    } else {
        None
    }
}

/// The kind of thing that a prefix asks for.
pub open spec fn target_kind_named(word: Seq<char>) -> Option<TargetKind> {
    if word == "path"@ {
        Some(TargetKind::Path)
    } else if word == "file"@ {
        Some(TargetKind::File)
    } else if word == "dir"@ || word == "directory"@ {
        Some(TargetKind::Dir)
    } else if word == "cmd"@ || word == "command"@ || word == "exe"@ || word == "executable"@ {
        Some(TargetKind::Command)
    } else if word == "env"@ {
        Some(TargetKind::Env)
    } else {
        None
    }
}

/// What an existence check is about.
pub open spec fn target_of(args: Seq<char>) -> TargetView {
    let t = trimmed(args);
    match cut_once(t, ':') {
        Some((word, rest)) => match target_kind_named(word) {
            Some(kind) => TargetView { kind, name: trimmed(rest) },
            None => TargetView { kind: TargetKind::Any, name: t },
        },
        None => TargetView { kind: TargetKind::Any, name: t },
    }
}

/// A condition without operators.
pub open spec fn atom_of(t: Seq<char>) -> ConditionView {
    if t == "always"@ || t == "always()"@ {
        ConditionView::Always
    } else if t == "success"@ || t == "success()"@ {
        ConditionView::Success
    } else if t == "failure"@ || t == "failure()"@ {
        ConditionView::Failure
    } else if t == "true"@ {
        ConditionView::Literal(true)
    } else if t == "false"@ {
        ConditionView::Literal(false)
    } else if call_args(t, "arch"@) is Some {
        ConditionView::Arch(call_args(t, "arch"@)->0)
    } else if call_args(t, "exists"@) is Some {
        ConditionView::Exists(target_of(call_args(t, "exists"@)->0))
    } else if call_args(t, "missing"@) is Some {
        ConditionView::Missing(target_of(call_args(t, "missing"@)->0))
    } else if free_from(t, "=="@, 0) is Some {
        let i = free_from(t, "=="@, 0)->0;
        ConditionView::Equal(t.take(i), t.skip(i + 2))
    } else if free_from(t, "!="@, 0) is Some {
        let i = free_from(t, "!="@, 0)->0;
        ConditionView::Differs(t.take(i), t.skip(i + 2))
    } else {
        ConditionView::Value(t)
    }
}

/// The first of two operators, at its first free position, with its length.
pub open spec fn operator(s: Seq<char>, sign: Seq<char>, word: Seq<char>) -> Option<(int, int)> {
    match free_from(s, sign, 0) {
        Some(i) => Some((i, sign.len() as int)),
        None => match free_from(s, word, 0) {
            Some(i) => Some((i, word.len() as int)),
            None => None,
        },
    }
}

/// The condition that a text stands for. `||` and ` or ` bind least, then `&&` and
/// ` and `, then `!`; brackets group.
pub open spec fn parsed(s: Seq<char>) -> ConditionView
    decreases s.len(),
{
    let t = trimmed(s);
    proof {
        lemma_trimmed_len(s);
        lemma_operator(t, "||"@, " or "@);
        lemma_operator(t, "&&"@, " and "@);
        reveal_strlit("||");
        reveal_strlit(" or ");
        reveal_strlit("&&");
        reveal_strlit(" and ");
    }
    match operator(t, "||"@, " or "@) {
        Some((i, n)) => ConditionView::Or(
            Box::new(parsed(t.take(i))),
            Box::new(parsed(t.skip(i + n))),
        ),
        None => match operator(t, "&&"@, " and "@) {
            Some((i, n)) => ConditionView::And(
                Box::new(parsed(t.take(i))),
                Box::new(parsed(t.skip(i + n))),
            ),
            None => if t.len() > 0 && t[0] == '!' {
                ConditionView::Not(Box::new(parsed(t.skip(1))))
            } else if t.len() >= 2 && t[0] == '(' && t.last() == ')' {
                parsed(t.subrange(1, t.len() - 1))
            } else {
                atom_of(t)
            },
        },
    }
}

/// A condition without the `${{ }}` around it.
pub open spec fn bare_condition(s: Seq<char>) -> Seq<char> {
    let t = trimmed(s);
    match after_prefix(t, "${{"@) {
        Some(rest) => match before_suffix(rest, "}}"@) {
            Some(inner) => inner,
            None => t,
        },
        None => t,
    }
}

/// Trimming makes no text longer.
pub proof fn lemma_trimmed_len(s: Seq<char>)
    ensures
        trimmed(s).len() <= s.len(),
{
    lemma_trim_start_len(s);
    lemma_trim_end_len(trim_start_of(s));
}

proof fn lemma_trim_start_len(s: Seq<char>)
    ensures
        trim_start_of(s).len() <= s.len(),
    decreases s.len(),
{
    if s.len() > 0 && is_space(s[0]) {
        lemma_trim_start_len(s.drop_first());
    }
}

proof fn lemma_trim_end_len(s: Seq<char>)
    ensures
        trim_end_of(s).len() <= s.len(),
    decreases s.len(),
{
    if s.len() > 0 && is_space(s.last()) {
        lemma_trim_end_len(s.drop_last());
    }
}

/// An operator stands within the text.
pub proof fn lemma_operator(s: Seq<char>, sign: Seq<char>, word: Seq<char>)
    ensures
        operator(s, sign, word) matches Some(p) ==> 0 <= p.0 && p.0 + p.1 <= s.len() && p.0 < s.len()
            && (p.1 == sign.len() || p.1 == word.len()),
{
    lemma_free_from(s, sign, 0);
    lemma_free_from(s, word, 0);
}

proof fn lemma_free_from(s: Seq<char>, word: Seq<char>, from: int)
    requires
        0 <= from,
    ensures
        free_from(s, word, from) matches Some(i) ==> from <= i && i + word.len() <= s.len() && i < s.len(),
    decreases s.len() - from,
{
    if from < s.len() && !stands_free(s, word, from) {
        lemma_free_from(s, word, from + 1);
    }
}

/// The first position where a word stands outside of brackets and quotes.
fn find_free(s: &str, word: &str) -> (r: Option<usize>)
    ensures
        match r {
            Some(i) => free_from(s@, word@, 0) == Some(i as int) && i + word@.len() <= s@.len() && i < s@.len(),
            None => free_from(s@, word@, 0) is None,
        },
{
    let v = chars_of(s);
    let n: usize = v.len();
    let m: usize = word.unicode_len();
    let mut depth: i128 = 0;
    let mut quote: Option<char> = None;
    let mut i: usize = 0;
    assert(s@.take(0) =~= Seq::<char>::empty());
    while i < n
        invariant
            n == v@.len(),
            m == word@.len(),
            v@ == s@,
            i <= n,
            -i <= depth <= i,
            nesting(s@.take(i as int)).depth == depth,
            nesting(s@.take(i as int)).quote == quote,
            free_from(s@, word@, 0) == free_from(s@, word@, i as int),
        decreases n - i,
    {
        if depth == 0 && quote.is_none() && m <= n - i && same(s.substring_char(i, i + m), word) {
            assert(stands_free(s@, word@, i as int));
            return Some(i);
        }
        assert(!stands_free(s@, word@, i as int));
        assert(s@.take(i + 1).drop_last() =~= s@.take(i as int));
        let c = v[i];
        match quote {
            Some(q) => if c == q {
                quote = None;
            },
            None => if c == '\'' || c == '"' {
                quote = Some(c);
            } else if c == '(' {
                depth = depth + 1;
            } else if c == ')' {
                depth = depth - 1;
            },
        }
        i += 1;
    }
    None
}

/// The arguments in the brackets of a call.
fn find_call<'a>(s: &'a str, name: &str) -> (r: Option<&'a str>)
    ensures
        opt_slice(r) == call_args(s@, name@),
{
    let n: usize = s.unicode_len();
    let head = cat2(name, "(");
    proof {
        reveal_strlit("(");
    }
    let m: usize = head.as_str().unicode_len();
    if n > m && starts_with(s, head.as_str()) && ends_with(s, ")") {
        Some(s.substring_char(m, n - 1))
    } else {
        None
    }
}

/// The kind of thing that a prefix asks for.
fn parse_target_kind(word: &str) -> (r: Option<TargetKind>)
    ensures
        r == target_kind_named(word@),
{
    if same(word, "path") {
        Some(TargetKind::Path)
    } else if same(word, "file") {
        Some(TargetKind::File)
    } else if same(word, "dir") || same(word, "directory") {
        Some(TargetKind::Dir)
    } else if same(word, "cmd") || same(word, "command") || same(word, "exe") || same(
        word,
        "executable",
    ) {
        Some(TargetKind::Command)
    } else if same(word, "env") {
        Some(TargetKind::Env)
    } else {
        None
    }
}

/// What an existence check is about.
fn parse_target(args: &str) -> (r: Target)
    ensures
        r@ == target_of(args@),
{
    let t = trim(args);
    match split_once(t, ':') {
        Some((word, rest)) => match parse_target_kind(word) {
            Some(kind) => Target { kind, name: trim(rest).to_owned() },
            None => Target { kind: TargetKind::Any, name: t.to_owned() },
        },
        None => Target { kind: TargetKind::Any, name: t.to_owned() },
    }
}

/// The two sides of an operator of `n` characters at position `i`.
fn sides<'a>(s: &'a str, i: usize, n: usize) -> (r: (&'a str, &'a str))
    requires
        i + n <= s@.len(),
    ensures
        r.0@ == s@.take(i as int),
        r.1@ == s@.skip(i + n),
{
    let len: usize = s.unicode_len();
    let left = s.substring_char(0, i);
    let right = s.substring_char(i + n, len);
    assert(left@ =~= s@.take(i as int));
    assert(right@ =~= s@.skip(i + n));
    (left, right)
}

/// A condition without operators.
fn parse_atom(t: &str) -> (r: Condition)
    ensures
        condition_view(r) == atom_of(t@),
{
    if same(t, "always") || same(t, "always()") {
        return Condition::Always;
    }
    if same(t, "success") || same(t, "success()") {
        return Condition::Success;
    }
    if same(t, "failure") || same(t, "failure()") {
        return Condition::Failure;
    }
    if same(t, "true") {
        return Condition::Literal(true);
    }
    if same(t, "false") {
        return Condition::Literal(false);
    }
    if let Some(args) = find_call(t, "arch") {
        return Condition::Arch(args.to_owned());
    }
    if let Some(args) = find_call(t, "exists") {
        return Condition::Exists(parse_target(args));
    }
    if let Some(args) = find_call(t, "missing") {
        return Condition::Missing(parse_target(args));
    }
    proof {
        reveal_strlit("==");
        reveal_strlit("!=");
    }
    if let Some(i) = find_free(t, "==") {
        let (a, b) = sides(t, i, 2);
        return Condition::Equal(a.to_owned(), b.to_owned());
    }
    if let Some(i) = find_free(t, "!=") {
        let (a, b) = sides(t, i, 2);
        return Condition::Differs(a.to_owned(), b.to_owned());
    }
    Condition::Value(t.to_owned())
}

/// The first of two operators, at its first free position, with its length.
fn find_operator(s: &str, sign: &str, word: &str) -> (r: Option<(usize, usize)>)
    ensures
        match r {
            Some(p) => operator(s@, sign@, word@) == Some((p.0 as int, p.1 as int)) && p.0 + p.1 <= s@.len()
                && p.0 < s@.len(),
            None => operator(s@, sign@, word@) is None,
        },
{
    match find_free(s, sign) {
        Some(i) => Some((i, sign.unicode_len())),
        None => match find_free(s, word) {
            Some(i) => Some((i, word.unicode_len())),
            None => None,
        },
    }
}

/// The condition that a text stands for.
pub fn parse_condition(s: &str) -> (r: Condition)
    ensures
        condition_view(r) == parsed(s@),
    decreases s@.len(),
{
    let t = trim(s);
    proof {
        lemma_trimmed_len(s@);
        lemma_operator(t@, "||"@, " or "@);
        lemma_operator(t@, "&&"@, " and "@);
        reveal_strlit("||");
        reveal_strlit(" or ");
        reveal_strlit("&&");
        reveal_strlit(" and ");
    }
    if let Some((i, n)) = find_operator(t, "||", " or ") {
        let (a, b) = sides(t, i, n);
        let left = parse_condition(a);
        let right = parse_condition(b);
        return Condition::Or(Box::new(left), Box::new(right));
    }
    if let Some((i, n)) = find_operator(t, "&&", " and ") {
        let (a, b) = sides(t, i, n);
        let left = parse_condition(a);
        let right = parse_condition(b);
        return Condition::And(Box::new(left), Box::new(right));
    }
    let n: usize = t.unicode_len();
    if n > 0 && t.get_char(0) == '!' {
        let (_, rest) = sides(t, 0, 1);
        let inner = parse_condition(rest);
        return Condition::Not(Box::new(inner));
    }
    if n >= 2 && t.get_char(0) == '(' && t.get_char(n - 1) == ')' {
        return parse_condition(t.substring_char(1, n - 1));
    }
    parse_atom(t)
}

/// A condition without the `${{ }}` around it.
fn strip_marks<'a>(s: &'a str) -> (r: &'a str)
    ensures
        r@ == bare_condition(s@),
{
    let t = trim(s);
    match strip_prefix(t, "${{") {
        Some(rest) => match strip_suffix(rest, "}}") {
            Some(inner) => inner,
            None => t,
        },
        None => t,
    }
}

/// The existence checks in a condition, from left to right.
pub open spec fn targets_in(c: ConditionView) -> Seq<TargetView>
    decreases c,
{
    match c {
        ConditionView::Exists(t) => seq![t],
        ConditionView::Missing(t) => seq![t],
        ConditionView::Not(a) => targets_in(*a),
        ConditionView::And(a, b) => targets_in(*a) + targets_in(*b),
        ConditionView::Or(a, b) => targets_in(*a) + targets_in(*b),
        _ => Seq::empty(),
    }
}

/// Whether an architecture is among those listed. `host` is the one of the host.
pub open spec fn arch_listed(ctx: ExpressionView, items: Seq<Seq<char>>) -> bool {
    exists|i: int| 0 <= i < items.len() && #[trigger] arch_fits(ctx, items[i])
}

/// Whether the selected architecture is the one that an item stands for.
pub open spec fn arch_fits(ctx: ExpressionView, item: Seq<char>) -> bool {
    let wanted = if item == "host"@ || item == "host arch"@ {
        or_else(entry(ctx.env, "CI_HOST_ARCH"@), Seq::empty())
    } else {
        value_of(ctx, item)
    };
    canonical_arch(wanted) is Some && canonical_arch(wanted) == canonical_arch(
        or_else(entry(ctx.env, "CI_ARCH"@), Seq::empty()),
    )
}

/// Whether a value counts as true: it is not empty, `false` or `0`.
pub open spec fn truthy(s: Seq<char>) -> bool {
    s.len() > 0 && s != "false"@ && s != "0"@
}

/// Whether a condition holds, given for each existence check in it whether the thing
/// is there.
pub open spec fn holds(c: ConditionView, ctx: ExpressionView, there: Seq<bool>) -> bool
    decreases c,
{
    match c {
        ConditionView::Always => true,
        ConditionView::Success => ctx.success,
        ConditionView::Failure => ctx.previous_failed,
        ConditionView::Literal(b) => b,
        ConditionView::Arch(args) => arch_listed(ctx, items_between(args, ',')),
        ConditionView::Exists(_) => there[0],
        ConditionView::Missing(_) => !there[0],
        ConditionView::Equal(a, b) => value_of(ctx, a) == value_of(ctx, b),
        ConditionView::Differs(a, b) => value_of(ctx, a) != value_of(ctx, b),
        ConditionView::Value(s) => truthy(value_of(ctx, s)),
        ConditionView::Not(a) => !holds(*a, ctx, there),
        ConditionView::And(a, b) => holds(*a, ctx, there.take(targets_in(*a).len() as int)) && holds(
            *b,
            ctx,
            there.skip(targets_in(*a).len() as int),
        ),
        ConditionView::Or(a, b) => holds(*a, ctx, there.take(targets_in(*a).len() as int)) || holds(
            *b,
            ctx,
            there.skip(targets_in(*a).len() as int),
        ),
    }
}

/// The value under a name.
fn find_entry<'a>(m: &'a StringMap, name: &str) -> (r: Option<&'a str>)
    ensures
        opt_slice(r) == entry(m@, name@),
{
    match m.get(name) {
        Some(v) => Some(v.as_str()),
        None => None,
    }
}

/// What a name stands for.
fn look_up<'a>(ctx: &ExpressionContext<'a>, name: &str) -> (r: Option<&'a str>)
    ensures
        opt_slice(r) == lookup(ctx@, name@),
{
    if let Some(rest) = strip_prefix(name, "env.") {
        return find_entry(ctx.env, rest);
    }
    if let Some(rest) = strip_prefix(name, "matrix.") {
        return find_entry(ctx.matrix, rest);
    }
    if let Some(rest) = strip_prefix(name, "inputs.") {
        return find_entry(ctx.inputs, rest);
    }
    if same(name, "github.event_name") {
        return Some(ctx.event);
    }
    if same(name, "github.ref_name") {
        return ctx.branch;
    }
    find_entry(ctx.inputs, name)
}

/// What an argument stands for.
fn resolve_value(ctx: &ExpressionContext, s: &str) -> (r: String)
    ensures
        r@ == value_of(ctx@, s@),
{
    let t = trim(s);
    let n: usize = t.unicode_len();
    if n >= 2 {
        let first = t.get_char(0);
        let last = t.get_char(n - 1);
        if first == last && (first == '\'' || first == '"') {
            return t.substring_char(1, n - 1).to_owned();
        }
    }
    match look_up(ctx, t) {
        Some(v) => v.to_owned(),
        None => t.to_owned(),
    }
}

/// Whether two optional names are the same.
fn same_arch(a: &Option<Architecture>, b: &Option<Architecture>) -> (r: bool)
    ensures
        r == (a is Some && b is Some && a->0@ == b->0@),
{
    match (a, b) {
        (Some(x), Some(y)) => x.same_as(y),
        _ => false,
    }
}

/// Whether the selected architecture is among those listed.
fn arch_is_listed(ctx: &ExpressionContext, args: &str) -> (r: bool)
    ensures
        r == arch_listed(ctx@, items_between(args@, ',')),
{
    let items = list_items(args, ',');
    let ghost all = items_between(args@, ',');
    let current = match find_entry(ctx.env, "CI_ARCH") {
        Some(v) => v.to_owned(),
        None => String::new(),
    };
    let selected = Architecture::from_alias(current.as_str());
    let mut i: usize = 0;
    while i < items.len()
        invariant
            i <= items@.len(),
            texts(items@) == all,
            all == items_between(args@, ','),
            current@ == or_else(entry(ctx@.env, "CI_ARCH"@), Seq::empty()),
            selected matches Some(a) ==> canonical_arch(current@) == Some(a@),
            selected is None ==> canonical_arch(current@) is None,
            forall|j: int| 0 <= j < i ==> !#[trigger] arch_fits(ctx@, all[j]),
        decreases items.len() - i,
    {
        let item = items[i].as_str();
        assert(all[i as int] == item@);
        let wanted = if same(item, "host") || same(item, "host arch") {
            match find_entry(ctx.env, "CI_HOST_ARCH") {
                Some(v) => v.to_owned(),
                None => String::new(),
            }
        } else {
            resolve_value(ctx, item)
        };
        let arch = Architecture::from_alias(wanted.as_str());
        if same_arch(&arch, &selected) {
            assert(arch_fits(ctx@, all[i as int]));
            return true;
        }
        i += 1;
    }
    false
}

/// The things whose existence a condition asks about, from left to right, with names
/// replaced by what they stand for.
pub open spec fn asked_about(ctx: ExpressionView, targets: Seq<TargetView>) -> Seq<TargetView> {
    targets.map_values(
        |t: TargetView| TargetView { kind: t.kind, name: value_of(ctx, t.name) },
    )
}

/// Targets by their texts.
pub open spec fn target_views(v: Seq<Target>) -> Seq<TargetView> {
    v.map_values(|t: Target| t@)
}

/// Appends what a condition asks about.
fn collect_targets(c: &Condition, ctx: &ExpressionContext, out: &mut Vec<Target>)
    ensures
        target_views(final(out)@) == target_views(old(out)@) + asked_about(
            ctx@,
            targets_in(condition_view(*c)),
        ),
    decreases c,
{
    let ghost before = target_views(out@);
    match c {
        Condition::Exists(t) => {
            let name = resolve_value(ctx, t.name.as_str());
            out.push(Target { kind: t.kind, name });
        },
        Condition::Missing(t) => {
            let name = resolve_value(ctx, t.name.as_str());
            out.push(Target { kind: t.kind, name });
        },
        Condition::Not(a) => {
            collect_targets(a, ctx, out);
        },
        Condition::And(a, b) => {
            collect_targets(a, ctx, out);
            collect_targets(b, ctx, out);
        },
        Condition::Or(a, b) => {
            collect_targets(a, ctx, out);
            collect_targets(b, ctx, out);
        },
        _ => {},
    }
    assert(target_views(out@) =~= before + asked_about(ctx@, targets_in(condition_view(*c))));
}

/// The number of existence checks in a condition.
fn count_targets(c: &Condition) -> (r: usize)
    requires
        targets_in(condition_view(*c)).len() <= usize::MAX,
    ensures
        r == targets_in(condition_view(*c)).len(),
    decreases c,
{
    match c {
        Condition::Exists(_) => 1,
        Condition::Missing(_) => 1,
        Condition::Not(a) => count_targets(a),
        Condition::And(a, b) => count_targets(a) + count_targets(b),
        Condition::Or(a, b) => count_targets(a) + count_targets(b),
        _ => 0,
    }
}

/// Whether a condition holds, given for each existence check in it whether the thing
/// is there.
fn check(c: &Condition, ctx: &ExpressionContext, there: &[bool]) -> (r: bool)
    requires
        there@.len() == targets_in(condition_view(*c)).len(),
    ensures
        r == holds(condition_view(*c), ctx@, there@),
    decreases c,
{
    match c {
        Condition::Always => true,
        Condition::Success => ctx.success,
        Condition::Failure => ctx.previous_failed,
        Condition::Literal(b) => *b,
        Condition::Arch(args) => arch_is_listed(ctx, args.as_str()),
        Condition::Exists(_) => there[0],
        Condition::Missing(_) => !there[0],
        Condition::Equal(a, b) => same(
            resolve_value(ctx, a.as_str()).as_str(),
            resolve_value(ctx, b.as_str()).as_str(),
        ),
        Condition::Differs(a, b) => !same(
            resolve_value(ctx, a.as_str()).as_str(),
            resolve_value(ctx, b.as_str()).as_str(),
        ),
        Condition::Value(s) => {
            let v = resolve_value(ctx, s.as_str());
            !v.as_str().is_empty() && !same(v.as_str(), "false") && !same(v.as_str(), "0")
        },
        Condition::Not(a) => !check(a, ctx, there),
        Condition::And(a, b) => {
            let total: usize = there.len();
            assert(total == there@.len());
            let n: usize = count_targets(a);
            let (left, right) = there.split_at(n);
            assert(left@ =~= there@.take(n as int));
            assert(right@ =~= there@.skip(n as int));
            let x = check(a, ctx, left);
            let y = check(b, ctx, right);
            x && y
        },
        Condition::Or(a, b) => {
            let total: usize = there.len();
            assert(total == there@.len());
            let n: usize = count_targets(a);
            let (left, right) = there.split_at(n);
            assert(left@ =~= there@.take(n as int));
            assert(right@ =~= there@.skip(n as int));
            let x = check(a, ctx, left);
            let y = check(b, ctx, right);
            x || y
        },
    }
}

/// The condition of a step; without one it runs while all is well.
pub open spec fn effective_condition(condition: Option<Seq<char>>) -> ConditionView {
    match condition {
        Some(s) => parsed(bare_condition(s)),
        None => ConditionView::Success,
    }
}

/// The things whose existence decides a condition, from left to right.
pub fn condition_targets(condition: Option<&str>, ctx: &ExpressionContext) -> (r: Vec<Target>)
    ensures
        target_views(r@) == asked_about(ctx@, targets_in(effective_condition(opt_slice(condition)))),
{
    let mut out: Vec<Target> = Vec::new();
    if let Some(s) = condition {
        let c = parse_condition(strip_marks(s));
        collect_targets(&c, ctx, &mut out);
    }
    assert(target_views(out@) =~= asked_about(ctx@, targets_in(effective_condition(opt_slice(condition)))));
    out
}

/// Whether a condition holds. `there` says of each thing that [`condition_targets`]
/// lists whether it exists; without an answer for each of them there is no result.
pub fn evaluate_condition(condition: Option<&str>, ctx: &ExpressionContext, there: &[bool]) -> (r: Option<bool>)
    ensures
        r == if there@.len() == targets_in(effective_condition(opt_slice(condition))).len() {
            Some(holds(effective_condition(opt_slice(condition)), ctx@, there@))
        } else {
            None
        },
{
    match condition {
        Some(s) => {
            let c = parse_condition(strip_marks(s));
            let asked = condition_targets(condition, ctx);
            assert(target_views(asked@).len() == asked@.len());
            if asked.len() == there.len() {
                Some(check(&c, ctx, there))
            } else {
                None
            }
        },
        None => if there.len() == 0 {
            Some(ctx.success)
        } else {
            None
        },
    }
}

/// The position of the first occurrence of a text.
pub open spec fn find_text(s: Seq<char>, needle: Seq<char>) -> Option<int>
    decreases s.len(),
{
    if needle.is_prefix_of(s) {
        Some(0)
    } else if s.len() == 0 {
        None
    } else {
        match find_text(s.drop_first(), needle) {
            Some(i) => Some(i + 1),
            None => None,
        }
    }
}

/// A text with every `${{ name }}` replaced by what the name stands for; by nothing
/// where it stands for nothing.
pub open spec fn interpolated(s: Seq<char>, ctx: ExpressionView) -> Seq<char>
    decreases s.len(),
{
    proof {
        lemma_find_text(s, "${{"@);
        reveal_strlit("${{");
    }
    match find_text(s, "${{"@) {
        None => s,
        Some(i) => {
            let rest = s.skip(i + 3);
            proof {
                lemma_find_text(rest, "}}"@);
                reveal_strlit("}}");
            }
            match find_text(rest, "}}"@) {
                None => s,
                Some(j) => s.take(i) + or_else(lookup(ctx, trimmed(rest.take(j))), Seq::empty())
                    + interpolated(rest.skip(j + 2), ctx),
            }
        },
    }
}

/// What is found stands within the text.
pub proof fn lemma_find_text(s: Seq<char>, needle: Seq<char>)
    ensures
        find_text(s, needle) matches Some(i) ==> 0 <= i && i + needle.len() <= s.len(),
    decreases s.len(),
{
    if !needle.is_prefix_of(s) && s.len() > 0 {
        lemma_find_text(s.drop_first(), needle);
    }
}

/// The position of the first occurrence of a text.
pub fn index_of_text(s: &str, needle: &str) -> (r: Option<usize>)
    ensures
        match r {
            Some(i) => find_text(s@, needle@) == Some(i as int) && i + needle@.len() <= s@.len(),
            None => find_text(s@, needle@) is None,
        },
{
    let n: usize = s.unicode_len();
    let m: usize = needle.unicode_len();
    let mut i: usize = 0;
    assert(s@.skip(0) =~= s@);
    loop
        invariant
            n == s@.len(),
            m == needle@.len(),
            i <= n,
            match find_text(s@.skip(i as int), needle@) {
                Some(j) => find_text(s@, needle@) == Some(i + j),
                None => find_text(s@, needle@) is None,
            },
        decreases n - i,
    {
        let ghost rest = s@.skip(i as int);
        if m <= n - i && same(s.substring_char(i, i + m), needle) {
            assert(rest.subrange(0, m as int) =~= s@.subrange(i as int, i + m));
            assert(needle@.is_prefix_of(rest));
            return Some(i);
        }
        assert(!needle@.is_prefix_of(rest)) by {
            if needle@.is_prefix_of(rest) {
                assert(rest.subrange(0, m as int) =~= s@.subrange(i as int, i + m));
            }
        }
        if i == n {
            return None;
        }
        assert(rest.drop_first() =~= s@.skip(i + 1));
        i += 1;
    }
}

/// A text with every `${{ name }}` replaced by what the name stands for.
pub fn interpolate_expressions(s: &str, ctx: &ExpressionContext) -> (r: String)
    ensures
        r@ == interpolated(s@, ctx@),
    decreases s@.len(),
{
    proof {
        reveal_strlit("${{");
        reveal_strlit("}}");
    }
    let n: usize = s.unicode_len();
    let i: usize = match index_of_text(s, "${{") {
        None => return s.to_owned(),
        Some(i) => i,
    };
    let rest = s.substring_char(i + 3, n);
    assert(rest@ =~= s@.skip(i + 3));
    let j: usize = match index_of_text(rest, "}}") {
        None => return s.to_owned(),
        Some(j) => j,
    };
    let head = s.substring_char(0, i);
    let name = rest.substring_char(0, j);
    let tail = rest.substring_char(j + 2, n - i - 3);
    assert(head@ =~= s@.take(i as int));
    assert(name@ =~= rest@.take(j as int));
    assert(tail@ =~= rest@.skip(j + 2));
    let value = match look_up(ctx, trim(name)) {
        Some(v) => v.to_owned(),
        None => String::new(),
    };
    let more = interpolate_expressions(tail, ctx);
    cat3(head, value.as_str(), more.as_str())
}

/// The values of a map with expressions replaced.
pub open spec fn interpolated_map(m: Map<Seq<char>, Seq<char>>, ctx: ExpressionView) -> Map<Seq<char>, Seq<char>> {
    m.map_values(|v: Seq<char>| interpolated(v, ctx))
}

/// The values of a map with expressions replaced.
pub fn interpolate_map(values: &StringMap, ctx: &ExpressionContext) -> (r: StringMap)
    ensures
        r@ == interpolated_map(values@, ctx@),
{
    let mut out = StringMap::new();
    let mut i: usize = 0;
    while i < values.len()
        invariant
            i <= values.names().len(),
            forall|k: Seq<char>| #[trigger] out@.contains_key(k) <==> values.names().take(i as int).contains(k),
            forall|k: Seq<char>| #[trigger] out@.contains_key(k) ==> values@.contains_key(k) && out@[k]
                == interpolated(values@[k], ctx@),
        decreases values.names().len() - i,
    {
        let ghost names = values.names();
        let name = values.name_at(i).to_owned();
        let value = interpolate_expressions(values.value_at(i).as_str(), ctx);
        let ghost k0 = name@;
        out.insert(name, value);
        proof {
            assert forall|k: Seq<char>| #[trigger] out@.contains_key(k) <==> names.take(i + 1).contains(k) by {
                lemma_contains_push(names.take(i as int), k0, k);
            }
        }
        i += 1;
    }
    proof {
        let names = values.names();
        assert(names.take(i as int) =~= names);
        assert forall|k: Seq<char>| out@.contains_key(k) == values@.contains_key(k) by {
            law_names_are_the_domain(values, k);
        }
        assert(out@ =~= interpolated_map(values@, ctx@));
    }
    out
}

/// Without a condition a step runs exactly while all is well.
pub proof fn law_no_condition_means_success(ctx: ExpressionView)
    ensures
        holds(effective_condition(None), ctx, Seq::empty()) == ctx.success,
        targets_in(effective_condition(None)) == Seq::<TargetView>::empty(),
{
}

/// `missing` is the opposite of `exists`, whatever it is about.
pub proof fn law_missing_is_the_opposite_of_exists(t: TargetView, ctx: ExpressionView, there: Seq<bool>)
    ensures
        holds(ConditionView::Missing(t), ctx, there) == !holds(ConditionView::Exists(t), ctx, there),
        targets_in(ConditionView::Missing(t)) == targets_in(ConditionView::Exists(t)),
{
}

/// A text without `${{` stays as it is.
pub proof fn law_plain_text_is_not_changed(s: Seq<char>, ctx: ExpressionView)
    requires
        find_text(s, "${{"@) is None,
    ensures
        interpolated(s, ctx) == s,
{
}

/// Both sides of an `and` have to hold, and one side of an `or`; each side goes by its own
/// answers, those of the left side first. `not` turns a condition round and asks for the
/// same.
pub proof fn law_operators_join_their_sides(
    a: ConditionView,
    b: ConditionView,
    ctx: ExpressionView,
    left: Seq<bool>,
    right: Seq<bool>,
)
    requires
        left.len() == targets_in(a).len(),
        right.len() == targets_in(b).len(),
    ensures
        ({
            let and = ConditionView::And(Box::new(a), Box::new(b));
            let or = ConditionView::Or(Box::new(a), Box::new(b));
            let not = ConditionView::Not(Box::new(a));
            &&& holds(and, ctx, left + right) == (holds(a, ctx, left) && holds(b, ctx, right))
            &&& holds(or, ctx, left + right) == (holds(a, ctx, left) || holds(b, ctx, right))
            &&& holds(not, ctx, left) == !holds(a, ctx, left)
            &&& targets_in(and) == targets_in(a) + targets_in(b)
            &&& targets_in(or) == targets_in(a) + targets_in(b)
            &&& targets_in(not) == targets_in(a)
        }),
{
    assert((left + right).take(left.len() as int) =~= left);
    assert((left + right).skip(left.len() as int) =~= right);
}

/// An existence check holds exactly where what it asks about is there, and `missing`
/// exactly where it is not.
pub proof fn law_existence_goes_by_the_answer(t: TargetView, ctx: ExpressionView, there: bool)
    ensures
        holds(ConditionView::Exists(t), ctx, seq![there]) == there,
        holds(ConditionView::Missing(t), ctx, seq![there]) == !there,
        targets_in(ConditionView::Exists(t)) == seq![t],
{
}

/// Two sides are equal whichever stands first, every side equals itself, and sides differ
/// exactly where they are not equal.
pub proof fn law_comparisons(a: Seq<char>, b: Seq<char>, ctx: ExpressionView)
    ensures
        holds(ConditionView::Equal(a, b), ctx, Seq::empty()) == holds(ConditionView::Equal(b, a), ctx, Seq::empty()),
        holds(ConditionView::Equal(a, a), ctx, Seq::empty()),
        holds(ConditionView::Differs(a, b), ctx, Seq::empty()) == !holds(ConditionView::Equal(a, b), ctx, Seq::empty()),
{
}

/// A text in quotes stands for what is between them, whatever that is.
pub proof fn law_quoted_text_stands_for_itself(s: Seq<char>, ctx: ExpressionView)
    ensures
        value_of(ctx, seq!['\''] + s + seq!['\'']) == s,
        value_of(ctx, seq!['"'] + s + seq!['"']) == s,
{
    let a = seq!['\''] + s + seq!['\''];
    let b = seq!['"'] + s + seq!['"'];
    lemma_trimmed_whole(a);
    lemma_trimmed_whole(b);
    assert(a.subrange(1, a.len() - 1) =~= s);
    assert(b.subrange(1, b.len() - 1) =~= s);
}

/// A comparison with a text in quotes says what a variable, a value of the matrix or an
/// input is, and goes by nothing else.
pub proof fn law_names_look_where_they_say(n: Seq<char>, ctx: ExpressionView, other: ExpressionView)
    ensures
        lookup(ctx, "env."@ + n) == entry(ctx.env, n),
        lookup(ctx, "matrix."@ + n) == entry(ctx.matrix, n),
        lookup(ctx, "inputs."@ + n) == entry(ctx.inputs, n),
        lookup(ctx, "github.event_name"@) == Some(ctx.event),
        lookup(ctx, "github.ref_name"@) == ctx.branch,
        ctx.env == other.env ==> lookup(ctx, "env."@ + n) == lookup(other, "env."@ + n),
        !n.contains('.') ==> lookup(ctx, n) == entry(ctx.inputs, n),
{
    reveal_strlit("env.");
    reveal_strlit("matrix.");
    reveal_strlit("inputs.");
    reveal_strlit("github.event_name");
    reveal_strlit("github.ref_name");
    let e = "env."@;
    let m = "matrix."@;
    let p = "inputs."@;
    assert((e + n).skip(4) =~= n);
    assert((m + n).skip(7) =~= n);
    assert((p + n).skip(7) =~= n);
    assert(e =~= (e + n).subrange(0, 4));
    assert(m =~= (m + n).subrange(0, 7));
    assert(p =~= (p + n).subrange(0, 7));
    assert((m + n)[0] == 'm');
    assert((p + n)[0] == 'i');
    assert(!e.is_prefix_of(m + n)) by {
        if e.is_prefix_of(m + n) {
            assert(e[0] == (m + n).subrange(0, 4)[0]);
        }
    }
    assert(!e.is_prefix_of(p + n) && !m.is_prefix_of(p + n)) by {
        if e.is_prefix_of(p + n) {
            assert(e[0] == (p + n).subrange(0, 4)[0]);
        }
        if m.is_prefix_of(p + n) {
            assert(m[0] == (p + n).subrange(0, 7)[0]);
        }
    }
    let g = "github.event_name"@;
    let h = "github.ref_name"@;
    lemma_not_prefix(e, g);
    lemma_not_prefix(m, g);
    lemma_not_prefix(p, g);
    lemma_not_prefix(e, h);
    lemma_not_prefix(m, h);
    lemma_not_prefix(p, h);
    assert(g.len() != h.len());
    if !n.contains('.') {
        if e.is_prefix_of(n) {
            assert(n[3] == n.subrange(0, 4)[3]);
        }
        if m.is_prefix_of(n) {
            assert(n[6] == n.subrange(0, 7)[6]);
        }
        if p.is_prefix_of(n) {
            assert(n[6] == n.subrange(0, 7)[6]);
        }
        assert(g[6] == '.' && h[6] == '.');
    }
}

proof fn lemma_not_prefix(a: Seq<char>, b: Seq<char>)
    requires
        a.len() > 0,
        b.len() > 0,
        a[0] != b[0],
    ensures
        !a.is_prefix_of(b),
{
    if a.is_prefix_of(b) {
        assert(a[0] == b.subrange(0, a.len() as int)[0]);
    }
}

/// The words for how a run stands mean it, with brackets behind them or without: `success`
/// while all is well, `failure` after a failed step, `always` in every case.
pub proof fn law_words_for_the_state(ctx: ExpressionView)
    ensures
        holds(effective_condition(Some("success"@)), ctx, Seq::empty()) == ctx.success,
        holds(effective_condition(Some("success()"@)), ctx, Seq::empty()) == ctx.success,
        holds(effective_condition(Some("failure"@)), ctx, Seq::empty()) == ctx.previous_failed,
        holds(effective_condition(Some("failure()"@)), ctx, Seq::empty()) == ctx.previous_failed,
        holds(effective_condition(Some("always"@)), ctx, Seq::empty()),
        holds(effective_condition(Some("always()"@)), ctx, Seq::empty()),
        holds(effective_condition(Some("true"@)), ctx, Seq::empty()),
        !holds(effective_condition(Some("false"@)), ctx, Seq::empty()),
{
    reveal_strlit("success");
    reveal_strlit("success()");
    reveal_strlit("failure");
    reveal_strlit("failure()");
    reveal_strlit("always");
    reveal_strlit("always()");
    reveal_strlit("true");
    reveal_strlit("false");
    reveal_strlit("||");
    reveal_strlit(" or ");
    reveal_strlit("&&");
    reveal_strlit(" and ");
    reveal_strlit("${{");

    lemma_plain_atom("success"@);
    lemma_plain_atom("success()"@);
    lemma_plain_atom("failure"@);
    lemma_plain_atom("failure()"@);
    lemma_plain_atom("always"@);
    lemma_plain_atom("always()"@);
    lemma_plain_atom("true"@);
    lemma_plain_atom("false"@);
    assert("failure"@[0] != "success"@[0]);
    assert("failure()"@[0] != "success()"@[0]);
}

/// A text without operators, marks or blanks is read as it is.
proof fn lemma_plain_atom(t: Seq<char>)
    requires
        t.len() > 0,
        t[0] != '!' && t[0] != '(' && t[0] != '$',
        forall|i: int| 0 <= i < t.len() ==> #[trigger] t[i] != '|' && t[i] != '&' && !is_space(t[i]),
    ensures
        effective_condition(Some(t)) == atom_of(t),
{
    lemma_trimmed_whole(t);
    reveal_strlit("${{");
    reveal_strlit("||");
    reveal_strlit(" or ");
    reveal_strlit("&&");
    reveal_strlit(" and ");
    lemma_not_prefix("${{"@, t);
    lemma_word_is_not_there(t, "||"@, 0);
    lemma_word_is_not_there(t, " or "@, 0);
    lemma_word_is_not_there(t, "&&"@, 0);
    lemma_word_is_not_there(t, " and "@, 0);
}

/// A word whose first letter does not occur is not found.
proof fn lemma_word_is_not_there(t: Seq<char>, word: Seq<char>, from: int)
    requires
        word.len() > 0,
        0 <= from,
        forall|i: int| 0 <= i < t.len() ==> #[trigger] t[i] != word[0],
    ensures
        free_from(t, word, from) is None,
    decreases t.len() - from,
{
    if from < t.len() {
        if stands_free(t, word, from) {
            assert(t[from] == t.subrange(from, from + word.len())[0]);
        }
        lemma_word_is_not_there(t, word, from + 1);
    }
}

/// Whether all brackets and quotes in a text are closed at its end.
pub open spec fn closed_text(s: Seq<char>) -> bool {
    nesting(s).depth == 0 && nesting(s).quote is None
}

/// A word that stands free at a position, and not before, is found there.
proof fn lemma_first_free(t: Seq<char>, word: Seq<char>, from: int, n: int)
    requires
        0 <= from <= n < t.len(),
        stands_free(t, word, n),
        forall|i: int| from <= i < n ==> !#[trigger] stands_free(t, word, i),
    ensures
        free_from(t, word, from) == Some(n),
    decreases n - from,
{
    if from < n {
        lemma_first_free(t, word, from + 1, n);
    }
}

/// A word that stands free nowhere is not found.
proof fn lemma_never_free(t: Seq<char>, word: Seq<char>, from: int)
    requires
        0 <= from,
        forall|i: int| from <= i < t.len() ==> !#[trigger] stands_free(t, word, i),
    ensures
        free_from(t, word, from) is None,
    decreases t.len() - from,
{
    if from < t.len() {
        lemma_never_free(t, word, from + 1);
    }
}

/// A word that does not occur is not found.
proof fn lemma_absent(t: Seq<char>, word: Seq<char>)
    requires
        forall|i: int| !#[trigger] occurs_at(t, word, i),
    ensures
        free_from(t, word, 0) is None,
{
    lemma_never_free(t, word, 0);
}

/// Where an operator stands behind a text in which it does not occur, it is found there.
proof fn lemma_operator_behind(a: Seq<char>, sign: Seq<char>, b: Seq<char>)
    requires
        sign.len() > 0,
        closed_text(a),
        forall|i: int| 0 <= i < a.len() ==> !#[trigger] occurs_at(a + sign + b, sign, i),
    ensures
        free_from(a + sign + b, sign, 0) == Some(a.len() as int),
        (a + sign + b).take(a.len() as int) == a,
        (a + sign + b).skip((a.len() + sign.len()) as int) == b,
{
    let t = a + sign + b;
    let n = a.len() as int;
    assert(t.take(n) =~= a);
    assert(t.skip(n + sign.len()) =~= b);
    assert(t.subrange(n, n + sign.len()) =~= sign);
    lemma_first_free(t, sign, 0, n);
}

proof fn lemma_occurs_first(t: Seq<char>, word: Seq<char>, i: int)
    requires
        occurs_at(t, word, i),
        word.len() > 0,
    ensures
        t[i] == word[0],
{
    assert(t[i] == t.subrange(i, i + word.len())[0]);
}

/// What stands before a free `||` and what stands behind it are the two sides of an `or`:
/// it binds less than everything before it.
pub proof fn law_a_text_with_or(a: Seq<char>, b: Seq<char>)
    requires
        a.len() > 0,
        b.len() > 0,
        !is_space(a[0]),
        !is_space(b.last()),
        closed_text(a),
        !a.contains('|'),
    ensures
        parsed(a + "||"@ + b) == ConditionView::Or(Box::new(parsed(a)), Box::new(parsed(b))),
{
    reveal_strlit("||");
    let t = a + "||"@ + b;
    lemma_trimmed_whole(t);
    assert forall|i: int| 0 <= i < a.len() implies !#[trigger] occurs_at(t, "||"@, i) by {
        if occurs_at(t, "||"@, i) {
            lemma_occurs_first(t, "||"@, i);
            assert(a[i] == '|');
        }
    }
    lemma_operator_behind(a, "||"@, b);
}

/// What stands before the first free `&&` and what stands behind it are the two sides of an
/// `and`, where there is no `or` around it: both have to hold, each with its own answers.
pub proof fn law_a_text_with_and(
    a: Seq<char>,
    b: Seq<char>,
    ctx: ExpressionView,
    left: Seq<bool>,
    right: Seq<bool>,
)
    requires
        a.len() > 0,
        b.len() > 0,
        !is_space(a[0]),
        !is_space(b.last()),
        closed_text(a),
        !a.contains('&'),
        !a.contains('|'),
        !b.contains('|'),
        forall|i: int| !#[trigger] occurs_at(a + "&&"@ + b, " or "@, i),
        left.len() == targets_in(parsed(a)).len(),
        right.len() == targets_in(parsed(b)).len(),
    ensures
        parsed(a + "&&"@ + b) == ConditionView::And(Box::new(parsed(a)), Box::new(parsed(b))),
        targets_in(parsed(a + "&&"@ + b)) == targets_in(parsed(a)) + targets_in(parsed(b)),
        holds(parsed(a + "&&"@ + b), ctx, left + right) == (holds(parsed(a), ctx, left) && holds(parsed(b), ctx, right)),
{
    reveal_strlit("||");
    reveal_strlit("&&");
    let t = a + "&&"@ + b;
    lemma_trimmed_whole(t);
    assert forall|i: int| 0 <= i < a.len() implies !#[trigger] occurs_at(t, "&&"@, i) by {
        if occurs_at(t, "&&"@, i) {
            lemma_occurs_first(t, "&&"@, i);
            assert(a[i] == '&');
        }
    }
    lemma_operator_behind(a, "&&"@, b);
    assert forall|i: int| !#[trigger] occurs_at(t, "||"@, i) by {
        if occurs_at(t, "||"@, i) {
            lemma_occurs_first(t, "||"@, i);
            if i < a.len() {
                assert(a[i] == '|');
            } else if i >= a.len() + 2 {
                assert(b[i - a.len() - 2] == '|');
            }
        }
    }
    lemma_absent(t, "||"@);
    lemma_absent(t, " or "@);
    law_operators_join_their_sides(parsed(a), parsed(b), ctx, left, right);
}

/// ` and ` and ` or ` mean what `&&` and `||` mean, where those signs do not stand.
pub proof fn law_words_for_operators(a: Seq<char>, b: Seq<char>)
    requires
        a.len() > 0,
        b.len() > 0,
        !is_space(a[0]),
        !is_space(b.last()),
        closed_text(a),
        forall|i: int| 0 <= i < a.len() ==> !is_space(#[trigger] a[i]) && a[i] != '|' && a[i] != '&',
        forall|i: int| 0 <= i < b.len() ==> !is_space(#[trigger] b[i]) && b[i] != '|' && b[i] != '&',
    ensures
        parsed(a + " or "@ + b) == ConditionView::Or(Box::new(parsed(a)), Box::new(parsed(b))),
        parsed(a + " and "@ + b) == ConditionView::And(Box::new(parsed(a)), Box::new(parsed(b))),
{
    reveal_strlit("||");
    reveal_strlit("&&");
    reveal_strlit(" or ");
    reveal_strlit(" and ");
    let t = a + " or "@ + b;
    let u = a + " and "@ + b;
    lemma_trimmed_whole(t);
    lemma_trimmed_whole(u);
    assert forall|i: int| 0 <= i < t.len() implies #[trigger] t[i] != '|' && t[i] != '&' by {
        if i < a.len() {
            assert(t[i] == a[i]);
        } else if i >= a.len() + 4 {
            assert(t[i] == b[i - a.len() - 4]);
        }
    }
    assert forall|i: int| 0 <= i < u.len() implies #[trigger] u[i] != '|' && u[i] != '&' by {
        if i < a.len() {
            assert(u[i] == a[i]);
        } else if i >= a.len() + 5 {
            assert(u[i] == b[i - a.len() - 5]);
        }
    }
    lemma_word_is_not_there(t, "||"@, 0);
    lemma_word_is_not_there(u, "||"@, 0);
    lemma_word_is_not_there(u, "&&"@, 0);
    assert forall|i: int| 0 <= i < a.len() implies !#[trigger] occurs_at(t, " or "@, i) by {
        if occurs_at(t, " or "@, i) {
            lemma_occurs_first(t, " or "@, i);
            assert(t[i] == a[i]);
        }
    }
    lemma_operator_behind(a, " or "@, b);
    assert forall|i: int| 0 <= i < a.len() implies !#[trigger] occurs_at(u, " and "@, i) by {
        if occurs_at(u, " and "@, i) {
            lemma_occurs_first(u, " and "@, i);
            assert(u[i] == a[i]);
        }
    }
    lemma_operator_behind(a, " and "@, b);
    assert forall|i: int| !#[trigger] occurs_at(u, " or "@, i) by {
        if occurs_at(u, " or "@, i) {
            lemma_occurs_first(u, " or "@, i);
            assert(u.subrange(i, i + 4)[1] == u[i + 1]);
            if i < a.len() {
                assert(u[i] == a[i]);
            } else if i >= a.len() + 5 {
                assert(u[i] == b[i - a.len() - 5]);
            } else if i == a.len() + 4 {
                assert(u.subrange(i, i + 4)[3] == u[i + 3]);
                assert(u[i + 3] == b[2]);
            }
        }
    }
    lemma_absent(u, " or "@);
}

/// Scanning goes on inside a bracket as it does outside, one deeper.
proof fn lemma_nesting_in_bracket(a: Seq<char>)
    ensures
        nesting(seq!['('] + a) == (Nesting { depth: nesting(a).depth + 1, quote: nesting(a).quote }),
    decreases a.len(),
{
    let t = seq!['('] + a;
    if a.len() == 0 {
        assert(t =~= Seq::<char>::empty().push('('));
        assert(t.drop_last() =~= Seq::<char>::empty());
        assert(nesting(t.drop_last()) == (Nesting { depth: 0, quote: None }));
    } else {
        lemma_nesting_in_bracket(a.drop_last());
        assert(t.drop_last() =~= seq!['('] + a.drop_last());
    }
}

/// Nothing stands free between brackets that enclose a whole text.
proof fn lemma_enclosed(head: Seq<char>, a: Seq<char>, word: Seq<char>)
    requires
        word.len() > 0,
        word[0] != '(' && word[0] != ')',
        closed_text(head),
        forall|k: int| 0 <= k <= a.len() ==> nesting(#[trigger] a.take(k)).depth >= 0,
        forall|i: int| 0 <= i < head.len() ==> #[trigger] head[i] != word[0],
    ensures
        free_from(head + seq!['('] + a + seq![')'], word, 0) is None,
{
    let t = head + seq!['('] + a + seq![')'];
    let n = head.len() as int;
    assert forall|i: int| 0 <= i < t.len() implies !#[trigger] stands_free(t, word, i) by {
        if stands_free(t, word, i) {
            lemma_occurs_first(t, word, i);
            if i < n {
                assert(t[i] == head[i]);
            } else if i > n {
                let k = i - n - 1;
                assert(t.take(i) =~= head + (seq!['('] + a.take(k)));
                lemma_nesting_goes_on(head, seq!['('] + a.take(k));
                lemma_nesting_in_bracket(a.take(k));
                assert(nesting(a.take(k)).depth >= 0);
            }
        }
    }
    lemma_never_free(t, word, 0);
}

/// Behind a closed text scanning goes on as from the start.
proof fn lemma_nesting_goes_on(a: Seq<char>, b: Seq<char>)
    requires
        closed_text(a),
    ensures
        nesting(a + b) == nesting(b),
    decreases b.len(),
{
    if b.len() == 0 {
        assert(a + b =~= a);
    } else {
        lemma_nesting_goes_on(a, b.drop_last());
        assert((a + b).drop_last() =~= a + b.drop_last());
    }
}

/// Brackets around a whole condition change nothing, and `!` before them turns it round.
pub proof fn law_brackets_group(a: Seq<char>)
    requires
        forall|k: int| 0 <= k <= a.len() ==> nesting(#[trigger] a.take(k)).depth >= 0,
    ensures
        parsed(seq!['('] + a + seq![')']) == parsed(a),
        parsed(seq!['!', '('] + a + seq![')']) == ConditionView::Not(Box::new(parsed(a))),
{
    reveal_strlit("||");
    reveal_strlit(" or ");
    reveal_strlit("&&");
    reveal_strlit(" and ");
    let none = Seq::<char>::empty();
    let bang = seq!['!'];
    let t = seq!['('] + a + seq![')'];
    let u = seq!['!', '('] + a + seq![')'];
    assert(t =~= none + seq!['('] + a + seq![')']);
    assert(u =~= bang + seq!['('] + a + seq![')']);
    assert(bang.drop_last() =~= none);
    assert(closed_text(none));
    assert(closed_text(bang));
    lemma_enclosed(none, a, "||"@);
    lemma_enclosed(none, a, " or "@);
    lemma_enclosed(none, a, "&&"@);
    lemma_enclosed(none, a, " and "@);
    lemma_enclosed(bang, a, "||"@);
    lemma_enclosed(bang, a, " or "@);
    lemma_enclosed(bang, a, "&&"@);
    lemma_enclosed(bang, a, " and "@);
    lemma_trimmed_whole(t);
    lemma_trimmed_whole(u);
    assert(t.subrange(1, t.len() - 1) =~= a);
    assert(u.skip(1) =~= t);
}

/// The marks of an expression around a condition change nothing.
pub proof fn law_marks_around_a_condition(s: Seq<char>)
    ensures
        effective_condition(Some("${{"@ + s + "}}"@)) == parsed(s),
{
    reveal_strlit("${{");
    reveal_strlit("}}");
    let t = "${{"@ + s + "}}"@;
    lemma_trimmed_whole(t);
    let rest = s + "}}"@;
    assert("${{"@ =~= t.subrange(0, 3));
    assert(t.skip(3) =~= rest);
    assert("}}"@ =~= rest.subrange(rest.len() - 2, rest.len() as int));
    assert(rest.take(rest.len() - 2) =~= s);
}

proof fn lemma_prefixed_target(word: Seq<char>, n: Seq<char>)
    requires
        word.len() > 0,
        !is_space(word[0]),
        forall|i: int| 0 <= i < word.len() ==> #[trigger] word[i] != ':',
        n.len() > 0,
        !is_space(n[0]),
        !is_space(n.last()),
    ensures
        target_of(word + seq![':'] + n) == match target_kind_named(word) {
            Some(kind) => TargetView { kind, name: n },
            None => TargetView { kind: TargetKind::Any, name: word + seq![':'] + n },
        },
{
    let t = word + seq![':'] + n;
    let k = word.len() as int;
    lemma_trimmed_whole(t);
    lemma_trimmed_whole(n);
    assert forall|i: int| 0 <= i < k implies #[trigger] t[i] != ':' by {
        assert(t[i] == word[i]);
    }
    lemma_first_index(t, ':', k);
    assert(t.take(k) =~= word);
    assert(t.skip(k + 1) =~= n);
}

/// A prefix says what kind of thing has to exist: a path, a file, a directory, a command
/// or a variable, some under more than one name. Without a colon anything will do.
pub proof fn law_prefixes_name_the_kind(n: Seq<char>)
    requires
        n.len() > 0,
        !is_space(n[0]),
        !is_space(n.last()),
    ensures
        target_of("path:"@ + n) == (TargetView { kind: TargetKind::Path, name: n }),
        target_of("file:"@ + n) == (TargetView { kind: TargetKind::File, name: n }),
        target_of("dir:"@ + n) == (TargetView { kind: TargetKind::Dir, name: n }),
        target_of("directory:"@ + n) == (TargetView { kind: TargetKind::Dir, name: n }),
        target_of("cmd:"@ + n) == (TargetView { kind: TargetKind::Command, name: n }),
        target_of("command:"@ + n) == (TargetView { kind: TargetKind::Command, name: n }),
        target_of("exe:"@ + n) == (TargetView { kind: TargetKind::Command, name: n }),
        target_of("executable:"@ + n) == (TargetView { kind: TargetKind::Command, name: n }),
        target_of("env:"@ + n) == (TargetView { kind: TargetKind::Env, name: n }),
        !n.contains(':') ==> target_of(n) == (TargetView { kind: TargetKind::Any, name: n }),
{
    reveal_strlit("path");
    reveal_strlit("file");
    reveal_strlit("dir");
    reveal_strlit("directory");
    reveal_strlit("cmd");
    reveal_strlit("command");
    reveal_strlit("exe");
    reveal_strlit("executable");
    reveal_strlit("env");
    reveal_strlit("path:");
    reveal_strlit("file:");
    reveal_strlit("dir:");
    reveal_strlit("directory:");
    reveal_strlit("cmd:");
    reveal_strlit("command:");
    reveal_strlit("exe:");
    reveal_strlit("executable:");
    reveal_strlit("env:");
    assert("file"@[0] != "path"@[0]);
    assert("cmd"@[0] != "dir"@[0]);
    assert("exe"@[0] != "dir"@[0]);
    assert("exe"@[0] != "cmd"@[0]);
    assert("env"@[0] != "dir"@[0]);
    assert("env"@[0] != "cmd"@[0]);
    assert("env"@[1] != "exe"@[1]);
    lemma_prefixed_target("path"@, n);
    assert("path"@ + seq![':'] + n =~= "path:"@ + n);
    lemma_prefixed_target("file"@, n);
    assert("file"@ + seq![':'] + n =~= "file:"@ + n);
    lemma_prefixed_target("dir"@, n);
    assert("dir"@ + seq![':'] + n =~= "dir:"@ + n);
    lemma_prefixed_target("directory"@, n);
    assert("directory"@ + seq![':'] + n =~= "directory:"@ + n);
    lemma_prefixed_target("cmd"@, n);
    assert("cmd"@ + seq![':'] + n =~= "cmd:"@ + n);
    lemma_prefixed_target("command"@, n);
    assert("command"@ + seq![':'] + n =~= "command:"@ + n);
    lemma_prefixed_target("exe"@, n);
    assert("exe"@ + seq![':'] + n =~= "exe:"@ + n);
    lemma_prefixed_target("executable"@, n);
    assert("executable"@ + seq![':'] + n =~= "executable:"@ + n);
    lemma_prefixed_target("env"@, n);
    assert("env"@ + seq![':'] + n =~= "env:"@ + n);
    lemma_trimmed_whole(n);
    if !n.contains(':') {
        lemma_not_found(n, ':');
    }
}

/// A character that does not occur is not found.
pub proof fn lemma_not_found(s: Seq<char>, c: char)
    requires
        !s.contains(c),
    ensures
        first_index(s, c) == s.len(),
    decreases s.len(),
{
    if s.len() > 0 {
        assert(s[0] != c);
        let t = s.drop_first();
        assert(!t.contains(c)) by {
            if t.contains(c) {
                let i = choose|i: int| 0 <= i < t.len() && t[i] == c;
                assert(s[i + 1] == c);
            }
        }
        lemma_not_found(t, c);
    }
}

/// `exists(..)` and `missing(..)` ask about what stands between their brackets, and
/// `arch(..)` about the architecture.
pub proof fn law_calls_ask_about_their_argument(args: Seq<char>)
    requires
        args.len() > 0,
        forall|k: int| 0 <= k <= args.len() ==> nesting(#[trigger] args.take(k)).depth >= 0,
    ensures
        effective_condition(Some("exists("@ + args + ")"@)) == ConditionView::Exists(target_of(args)),
        effective_condition(Some("missing("@ + args + ")"@)) == ConditionView::Missing(target_of(args)),
        effective_condition(Some("arch("@ + args + ")"@)) == ConditionView::Arch(args),
{
    lemma_exists_call(args);
    lemma_missing_call(args);
    lemma_arch_call(args);
}

proof fn lemma_exists_call(args: Seq<char>)
    requires
        args.len() > 0,
        forall|k: int| 0 <= k <= args.len() ==> nesting(#[trigger] args.take(k)).depth >= 0,
    ensures
        effective_condition(Some("exists("@ + args + ")"@)) == ConditionView::Exists(target_of(args)),
{
    reveal_strlit("always");
    reveal_strlit("always()");
    reveal_strlit("success");
    reveal_strlit("success()");
    reveal_strlit("failure");
    reveal_strlit("failure()");
    reveal_strlit("true");
    reveal_strlit("false");
    reveal_strlit("exists");
    reveal_strlit("exists(");
    reveal_strlit("(");
    reveal_strlit("arch(");
    reveal_strlit("arch");
    let t = "exists("@ + args + ")"@;
    assert("exists"@ + "("@ =~= "exists("@);
    lemma_call("exists"@, args);
    assert(t[0] == 'e');
    assert("arch"@ + "("@ =~= "arch("@);
    lemma_not_prefix("arch("@, t);
}

proof fn lemma_missing_call(args: Seq<char>)
    requires
        args.len() > 0,
        forall|k: int| 0 <= k <= args.len() ==> nesting(#[trigger] args.take(k)).depth >= 0,
    ensures
        effective_condition(Some("missing("@ + args + ")"@)) == ConditionView::Missing(target_of(args)),
{
    reveal_strlit("always");
    reveal_strlit("always()");
    reveal_strlit("success");
    reveal_strlit("success()");
    reveal_strlit("failure");
    reveal_strlit("failure()");
    reveal_strlit("true");
    reveal_strlit("false");
    reveal_strlit("missing");
    reveal_strlit("missing(");
    reveal_strlit("(");
    reveal_strlit("arch(");
    reveal_strlit("arch");
    reveal_strlit("exists(");
    reveal_strlit("exists");
    let t = "missing("@ + args + ")"@;
    assert("missing"@ + "("@ =~= "missing("@);
    lemma_call("missing"@, args);
    assert(t[0] == 'm');
    assert("arch"@ + "("@ =~= "arch("@);
    assert("exists"@ + "("@ =~= "exists("@);
    lemma_not_prefix("arch("@, t);
    lemma_not_prefix("exists("@, t);
}

proof fn lemma_arch_call(args: Seq<char>)
    requires
        args.len() > 0,
        forall|k: int| 0 <= k <= args.len() ==> nesting(#[trigger] args.take(k)).depth >= 0,
    ensures
        effective_condition(Some("arch("@ + args + ")"@)) == ConditionView::Arch(args),
{
    reveal_strlit("always");
    reveal_strlit("always()");
    reveal_strlit("success");
    reveal_strlit("success()");
    reveal_strlit("failure");
    reveal_strlit("failure()");
    reveal_strlit("true");
    reveal_strlit("false");
    reveal_strlit("arch");
    reveal_strlit("arch(");
    reveal_strlit("(");
    let t = "arch("@ + args + ")"@;
    assert("arch"@ + "("@ =~= "arch("@);
    lemma_call("arch"@, args);
    assert(t[1] == 'r');
}

/// A call of a plain name is read as one.
proof fn lemma_call(name: Seq<char>, args: Seq<char>)
    requires
        args.len() > 0,
        name.len() > 0,
        forall|i: int| 0 <= i < name.len() ==> 'a' <= #[trigger] name[i] <= 'z',
        forall|k: int| 0 <= k <= args.len() ==> nesting(#[trigger] args.take(k)).depth >= 0,
    ensures
        effective_condition(Some(name + "("@ + args + ")"@)) == atom_of(name + "("@ + args + ")"@),
        call_args(name + "("@ + args + ")"@, name) == Some(args),
{
    reveal_strlit("(");
    reveal_strlit(")");
    reveal_strlit("${{");
    reveal_strlit("||");
    reveal_strlit(" or ");
    reveal_strlit("&&");
    reveal_strlit(" and ");
    let t = name + "("@ + args + ")"@;
    assert(t =~= name + seq!['('] + args + seq![')']);
    assert(t[0] == name[0]);
    lemma_trimmed_whole(t);
    lemma_not_prefix("${{"@, t);
    lemma_letters_are_closed(name);
    lemma_enclosed(name, args, "||"@);
    lemma_enclosed(name, args, " or "@);
    lemma_enclosed(name, args, "&&"@);
    lemma_enclosed(name, args, " and "@);
    assert(name + "("@ =~= t.subrange(0, name.len() as int + 1));
    assert(")"@ =~= t.subrange(t.len() - 1, t.len() as int));
    assert(t.subrange(name.len() as int + 1, t.len() - 1) =~= args);
}

proof fn lemma_letters_are_closed(s: Seq<char>)
    requires
        forall|i: int| 0 <= i < s.len() ==> 'a' <= #[trigger] s[i] <= 'z',
    ensures
        closed_text(s),
    decreases s.len(),
{
    if s.len() > 0 {
        let t = s.drop_last();
        assert forall|i: int| 0 <= i < t.len() implies 'a' <= #[trigger] t[i] <= 'z' by {
            assert(t[i] == s[i]);
        }
        lemma_letters_are_closed(t);
        assert('a' <= s[s.len() - 1] <= 'z');
    }
}

/// A list of architectures holds where one of its parts does; a name that stands for
/// nothing else holds exactly where it is another name of the selected architecture.
pub proof fn law_architectures_by_any_name(a: Seq<char>, b: Seq<char>, ctx: ExpressionView)
    ensures
        holds(ConditionView::Arch(a + ","@ + b), ctx, Seq::empty()) == (holds(ConditionView::Arch(a), ctx, Seq::empty())
            || holds(ConditionView::Arch(b), ctx, Seq::empty())),
        a.len() > 0 && trimmed(a) == a && !a.contains(',') && unquoted(a) is None && lookup(ctx, a) is None && a
            != "host"@ && a != "host arch"@ && canonical_arch(a) is Some && ctx.env.contains_key("CI_ARCH"@)
            ==> holds(ConditionView::Arch(a), ctx, Seq::empty()) == (canonical_arch(a) == canonical_arch(
            ctx.env["CI_ARCH"@],
        )),
{
    reveal_strlit(",");
    let xs = items_between(a, ',');
    let ys = items_between(b, ',');
    let all = items_between(a + ","@ + b, ',');
    assert(a + ","@ + b =~= a.push(',') + b);
    lemma_split_concat(a, b, ',');
    lemma_clean_items_concat(split_at_char(a, ','), split_at_char(b, ','));
    assert(all == xs + ys);
    if arch_listed(ctx, xs) {
        let i = choose|i: int| 0 <= i < xs.len() && #[trigger] arch_fits(ctx, xs[i]);
        assert(all[i] == xs[i]);
    }
    if arch_listed(ctx, ys) {
        let i = choose|i: int| 0 <= i < ys.len() && #[trigger] arch_fits(ctx, ys[i]);
        assert(all[i + xs.len()] == ys[i]);
    }
    if arch_listed(ctx, all) {
        let i = choose|i: int| 0 <= i < all.len() && #[trigger] arch_fits(ctx, all[i]);
        if i < xs.len() {
            assert(all[i] == xs[i]);
        } else {
            assert(all[i] == ys[i - xs.len()]);
        }
    }
    if a.len() > 0 && trimmed(a) == a && !a.contains(',') {
        lemma_single_piece(a, ',');
        assert(seq![a].drop_last() =~= Seq::<Seq<char>>::empty());
        assert(clean_items(Seq::<Seq<char>>::empty()) =~= Seq::<Seq<char>>::empty());
        assert(trimmed(seq![a].last()) == a);
        assert(xs =~= seq![a]);
        if arch_fits(ctx, a) {
            assert(arch_fits(ctx, xs[0]));
        }
    }
}

/// A text in which a separator does not occur is one piece.
pub proof fn lemma_single_piece(s: Seq<char>, c: char)
    requires
        !s.contains(c),
    ensures
        split_at_char(s, c) == seq![s],
    decreases s.len(),
{
    if s.len() == 0 {
        assert(s =~= Seq::<char>::empty());
        assert(split_at_char(s, c) =~= seq![s]);
    } else {
        let t = s.drop_last();
        assert(!t.contains(c)) by {
            if t.contains(c) {
                let i = choose|i: int| 0 <= i < t.len() && t[i] == c;
                assert(s[i] == c);
            }
        }
        lemma_single_piece(t, c);
        assert(s[s.len() - 1] == s.last());
        assert(t.push(s.last()) =~= s);
        assert(split_at_char(s, c) =~= seq![s]);
    }
}

proof fn lemma_clean_items_concat(a: Seq<Seq<char>>, b: Seq<Seq<char>>)
    ensures
        clean_items(a + b) == clean_items(a) + clean_items(b),
    decreases b.len(),
{
    if b.len() == 0 {
        assert(a + b =~= a);
        assert(clean_items(a) + clean_items(b) =~= clean_items(a));
    } else {
        lemma_clean_items_concat(a, b.drop_last());
        assert((a + b).drop_last() =~= a + b.drop_last());
        assert(clean_items(a + b) =~= clean_items(a) + clean_items(b));
    }
}

/// An expression in a text is replaced by what its name stands for, by nothing where it
/// stands for nothing; what stands before it stays, and what follows is treated alike.
pub proof fn law_expressions_are_replaced(a: Seq<char>, name: Seq<char>, b: Seq<char>, ctx: ExpressionView)
    requires
        !a.contains('$'),
        !name.contains('}'),
    ensures
        interpolated(a + "${{"@ + name + "}}"@ + b, ctx) == a + (match lookup(ctx, trimmed(name)) {
            Some(value) => value,
            None => Seq::empty(),
        }) + interpolated(b, ctx),
{
    reveal_strlit("${{");
    reveal_strlit("}}");
    let t = a + "${{"@ + name + "}}"@ + b;
    let rest = name + "}}"@ + b;
    lemma_found_behind(a, "${{"@, name + "}}"@ + b, '$');
    assert(t =~= a + "${{"@ + (name + "}}"@ + b));
    lemma_found_behind(name, "}}"@, b, '}');
    assert(t.skip(a.len() as int + 3) =~= rest);
    assert(t.take(a.len() as int) =~= a);
    assert(rest.take(name.len() as int) =~= name);
    assert(rest.skip(name.len() as int + 2) =~= b);
}

/// A text behind one in which its first letter does not occur is found there.
proof fn lemma_found_behind(a: Seq<char>, needle: Seq<char>, b: Seq<char>, c: char)
    requires
        needle.len() > 0,
        needle[0] == c,
        !a.contains(c),
    ensures
        find_text(a + needle + b, needle) == Some(a.len() as int),
    decreases a.len(),
{
    let t = a + needle + b;
    if a.len() == 0 {
        assert(needle =~= t.subrange(0, needle.len() as int));
    } else {
        assert(a[0] != c);
        lemma_not_prefix(needle, t);
        let u = a.drop_first();
        assert(!u.contains(c)) by {
            if u.contains(c) {
                let i = choose|i: int| 0 <= i < u.len() && u[i] == c;
                assert(a[i + 1] == c);
            }
        }
        lemma_found_behind(u, needle, b, c);
        assert(t.drop_first() =~= u + needle + b);
    }
}

/// A value counts as true unless it is empty, `false` or `0`.
pub proof fn law_what_counts_as_true(q: Seq<char>, ctx: ExpressionView)
    ensures
        holds(ConditionView::Value(seq!['\''] + q + seq!['\'']), ctx, Seq::empty()) == !(q.len() == 0 || q == "false"@
            || q == "0"@),
{
    law_quoted_text_stands_for_itself(q, ctx);
}

} // verus!
