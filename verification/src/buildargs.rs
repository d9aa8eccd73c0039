//! Arguments that are handed on to the step of a workflow that builds.

use crate::conditions::lemma_single_piece;
use crate::config::{or_else, over};
use crate::error::{CiError, ErrorView, usage};
use crate::strings::{
    cat2, cat3, char_is_alnum, chars_of, contains, join, lines, same, starts_with, to_lower, trim,
};
use crate::text::{
    has_text, is_alnum, is_space, join_of, lemma_take_push, lemma_texts_push, lemma_trimmed_whole,
    lines_of, lower, lower_char, occurs_at, slices, texts, trimmed,
};
use crate::workflow::{NativeStep, StepView};
use vstd::prelude::*;
use vstd::string::*;

verus! {

broadcast use {lemma_texts_push, lemma_take_push};

/// Whether the name of a step says that it builds.
pub open spec fn build_label(s: Seq<char>) -> bool {
    let t = lower(trimmed(s));
    t == "build"@ || "build "@.is_prefix_of(t)
}

/// The commands that build.
pub open spec fn build_commands() -> Seq<Seq<char>> {
    seq![
        "cargo build"@,
        "npm run build"@,
        "npm build"@,
        "yarn build"@,
        "pnpm build"@,
        "go build"@,
        "mvn package"@,
        "mvn install"@,
        "gradle build"@,
        "./gradlew build"@,
        "dotnet build"@,
        "python -m build"@,
        "python3 -m build"@,
    ]
}

/// Whether a text holds one of the others.
pub open spec fn has_one_of(s: Seq<char>, needles: Seq<Seq<char>>) -> bool {
    exists|i: int| 0 <= i < needles.len() && has_text(s, #[trigger] needles[i])
}

/// Whether a line of a script builds: it is no comment and holds a command that builds.
pub open spec fn build_line(line: Seq<char>) -> bool {
    line.len() > 0 && line[0] != '#' && has_one_of(lower(line), build_commands())
}

/// Whether a script builds.
pub open spec fn build_script(script: Seq<char>) -> bool {
    exists|i: int| 0 <= i < lines_of(script).len() && build_line(trimmed(#[trigger] lines_of(script)[i]))
}

/// Whether the name of a step says that it builds.
pub fn is_build_label(value: &str) -> (r: bool)
    ensures
        r == build_label(value@),
{
    let t = to_lower(trim(value));
    same(t.as_str(), "build") || starts_with(t.as_str(), "build ")
}

fn build_command_list() -> (r: Vec<&'static str>)
    ensures
        slices(r@) == build_commands(),
{
    let out = vec![
        "cargo build", "npm run build", "npm build", "yarn build", "pnpm build", "go build",
        "mvn package", "mvn install", "gradle build", "./gradlew build", "dotnet build",
        "python -m build", "python3 -m build",
    ];
    assert(slices(out@) =~= build_commands());
    out
}

/// Whether a line of a script builds.
pub fn is_build_command_line(line: &str) -> (r: bool)
    ensures
        r == build_line(line@),
{
    let n: usize = line.unicode_len();
    if n == 0 || line.get_char(0) == '#' {
        return false;
    }
    let low = to_lower(line);
    let commands = build_command_list();
    let ghost all = build_commands();
    let mut i: usize = 0;
    while i < commands.len()
        invariant
            i <= commands@.len(),
            slices(commands@) == all,
            all == build_commands(),
            low@ == lower(line@),
            line@.len() > 0,
            line@[0] != '#',
            forall|j: int| 0 <= j < i ==> !has_text(low@, #[trigger] all[j]),
        decreases commands.len() - i,
    {
        assert(all[i as int] == commands@[i as int]@);
        if contains(low.as_str(), commands[i]) {
            assert(has_text(lower(line@), build_commands()[i as int]));
            return true;
        }
        i += 1;
    }
    false
}

/// Whether a script builds.
pub fn script_contains_build_command(script: &str) -> (r: bool)
    ensures
        r == build_script(script@),
{
    let list = lines(script);
    let ghost all = lines_of(script@);
    let mut i: usize = 0;
    while i < list.len()
        invariant
            i <= list@.len(),
            texts(list@) == all,
            all == lines_of(script@),
            forall|j: int| 0 <= j < i ==> !build_line(trimmed(#[trigger] all[j])),
        decreases list.len() - i,
    {
        assert(all[i as int] == list@[i as int]@);
        if is_build_command_line(trim(list[i].as_str())) {
            return true;
        }
        i += 1;
    }
    false
}

/// Whether a step is called a build step.
pub open spec fn called_build(step: StepView) -> bool {
    step.name is Some && build_label(step.name->0)
}

/// Whether the script of a step builds.
pub open spec fn runs_build(step: StepView) -> bool {
    step.run is Some && build_script(step.run->0)
}

/// Steps by their texts.
pub open spec fn step_views(steps: Seq<NativeStep>) -> Seq<StepView> {
    steps.map_values(|s: NativeStep| s@)
}

/// The positions of the steps that are called build steps.
pub open spec fn called_build_at(steps: Seq<StepView>) -> Seq<int>
    decreases steps.len(),
{
    if steps.len() == 0 {
        Seq::empty()
    } else if called_build(steps.last()) {
        called_build_at(steps.drop_last()).push(steps.len() - 1)
    } else {
        called_build_at(steps.drop_last())
    }
}

/// The positions of the steps whose scripts build.
pub open spec fn runs_build_at(steps: Seq<StepView>) -> Seq<int>
    decreases steps.len(),
{
    if steps.len() == 0 {
        Seq::empty()
    } else if runs_build(steps.last()) {
        runs_build_at(steps.drop_last()).push(steps.len() - 1)
    } else {
        runs_build_at(steps.drop_last())
    }
}

/// The step that arguments go to: the one that is called so, else the one whose script
/// builds, else the only one. Only the `build` workflow takes arguments.
pub open spec fn argument_step(
    name: Seq<char>,
    path: Seq<char>,
    steps: Seq<StepView>,
    args: Seq<Seq<char>>,
) -> Result<Option<int>, ErrorView> {
    let called = called_build_at(steps);
    let builds = runs_build_at(steps);
    if args.len() == 0 {
        Ok(None)
    } else if name != "build"@ {
        Err(
            ErrorView::Usage(
                "workflow arguments can only be forwarded to the `build` workflow; `"@ + name
                    + "` is not supported"@,
            ),
        )
    } else if called.len() == 1 {
        Ok(Some(called[0]))
    } else if called.len() > 1 {
        Err(
            ErrorView::Usage(
                path
                    + " has multiple steps named `build`; rename the step that should receive workflow arguments"@,
            ),
        )
    } else if builds.len() == 1 {
        Ok(Some(builds[0]))
    } else if builds.len() > 1 {
        Err(
            ErrorView::Usage(
                path + " has multiple possible build steps; name the intended step `build`"@,
            ),
        )
    } else if steps.len() == 1 {
        Ok(Some(0))
    } else {
        Err(
            ErrorView::Usage(
                path
                    + " could not detect which step should receive workflow arguments; name the build step `build`"@,
            ),
        )
    }
}

/// How often something occurs, and where it occurs first.
struct Hits {
    count: usize,
    first: usize,
}

/// The step that arguments go to.
pub fn detect_build_arg_step(name: &str, path: &str, steps: &[NativeStep], args: &[String]) -> (r: Result<
    Option<usize>,
    CiError,
>)
    ensures
        match r {
            Ok(Some(i)) => argument_step(name@, path@, step_views(steps@), texts(args@)) == Ok::<_, ErrorView>(
                Some(i as int),
            ) && i < steps@.len(),
            Ok(None) => argument_step(name@, path@, step_views(steps@), texts(args@)) == Ok::<_, ErrorView>(None::<int>),
            Err(e) => argument_step(name@, path@, step_views(steps@), texts(args@)) == Err::<Option<int>, _>(e@),
        },
{
    assert(texts(args@).len() == args@.len());
    if args.len() == 0 {
        return Ok(None);
    }
    if !same(name, "build") {
        return Err(
            usage(
                cat3(
                    "workflow arguments can only be forwarded to the `build` workflow; `",
                    name,
                    "` is not supported",
                ),
            ),
        );
    }
    let ghost all = step_views(steps@);
    let mut called = Hits { count: 0, first: 0 };
    let mut builds = Hits { count: 0, first: 0 };
    let mut i: usize = 0;
    while i < steps.len()
        invariant
            i <= steps@.len(),
            all == step_views(steps@),
            called.count <= i,
            builds.count <= i,
            called.count == called_build_at(all.take(i as int)).len(),
            called.count > 0 ==> called.first == called_build_at(all.take(i as int))[0] && called.first < i,
            builds.count == runs_build_at(all.take(i as int)).len(),
            builds.count > 0 ==> builds.first == runs_build_at(all.take(i as int))[0] && builds.first < i,
        decreases steps.len() - i,
    {
        assert(all.take(i + 1).drop_last() =~= all.take(i as int));
        assert(all[i as int] == steps@[i as int]@);
        let step = &steps[i];
        let is_called = match &step.name {
            Some(label) => is_build_label(label.as_str()),
            None => false,
        };
        if is_called {
            if called.count == 0 {
                called.first = i;
            }
            called.count = called.count + 1;
        }
        let is_build = match &step.run {
            Some(script) => script_contains_build_command(script.as_str()),
            None => false,
        };
        if is_build {
            if builds.count == 0 {
                builds.first = i;
            }
            builds.count = builds.count + 1;
        }
        i += 1;
    }
    assert(all.take(i as int) =~= all);
    if called.count == 1 {
        return Ok(Some(called.first));
    }
    if called.count > 1 {
        return Err(
            usage(
                cat2(
                    path,
                    " has multiple steps named `build`; rename the step that should receive workflow arguments",
                ),
            ),
        );
    }
    if builds.count == 1 {
        return Ok(Some(builds.first));
    }
    if builds.count > 1 {
        return Err(
            usage(
                cat2(
                    path,
                    " has multiple possible build steps; name the intended step `build`",
                ),
            ),
        );
    }
    if steps.len() == 1 {
        return Ok(Some(0));
    }
    Err(
        usage(
            cat2(
                path,
                " could not detect which step should receive workflow arguments; name the build step `build`",
            ),
        ),
    )
}

/// A character that a shell takes as it is.
pub open spec fn shell_safe(c: char) -> bool {
    is_alnum(c) || c == '@' || c == '%' || c == '_' || c == '+' || c == '=' || c == ':' || c == ','
        || c == '.' || c == '/' || c == '-'
}

/// Whether a shell takes a text as it is.
pub open spec fn all_safe(s: Seq<char>) -> bool {
    forall|i: int| 0 <= i < s.len() ==> shell_safe(#[trigger] s[i])
}

/// A text with every single quote written so that it can stand between single quotes.
pub open spec fn quotes_escaped(s: Seq<char>) -> Seq<char>
    decreases s.len(),
{
    if s.len() == 0 {
        Seq::empty()
    } else if s.last() == '\'' {
        quotes_escaped(s.drop_last()) + seq!['\'', '\\', '\'', '\'']
    } else {
        quotes_escaped(s.drop_last()).push(s.last())
    }
}

/// A text as one word of a shell command.
pub open spec fn quoted(s: Seq<char>) -> Seq<char> {
    if s.len() == 0 {
        seq!['\'', '\'']
    } else if all_safe(s) {
        s
    } else {
        seq!['\''] + quotes_escaped(s) + seq!['\'']
    }
}

/// Texts as words of a shell command.
pub open spec fn quoted_words(args: Seq<Seq<char>>) -> Seq<char> {
    join_of(args.map_values(|a: Seq<char>| quoted(a)), " "@)
}

fn char_is_safe(c: char) -> (r: bool)
    ensures
        r == shell_safe(c),
{
    char_is_alnum(c) || c == '@' || c == '%' || c == '_' || c == '+' || c == '=' || c == ':' || c == ','
        || c == '.' || c == '/' || c == '-'
}

/// A text as one word of a shell command.
pub fn shell_quote(arg: &str) -> (r: String)
    ensures
        r@ == quoted(arg@),
{
    let v = chars_of(arg);
    if v.len() == 0 {
        let mut out = String::new();
        out.push('\'');
        out.push('\'');
        assert(out@ =~= seq!['\'', '\'']);
        return out;
    }
    let mut safe = true;
    let mut escaped = String::new();
    let mut i: usize = 0;
    assert(escaped@ =~= quotes_escaped(arg@.take(0)));
    while i < v.len()
        invariant
            i <= v@.len(),
            v@ == arg@,
            safe == all_safe(arg@.take(i as int)),
            escaped@ == quotes_escaped(arg@.take(i as int)),
        decreases v.len() - i,
    {
        assert(arg@.take(i + 1).drop_last() =~= arg@.take(i as int));
        let c = v[i];
        let ok = char_is_safe(c);
        let ghost before = escaped@;
        proof {
            let next = arg@.take(i + 1);
            assert(next[i as int] == c);
            assert(all_safe(next) == (all_safe(arg@.take(i as int)) && shell_safe(c))) by {
                if all_safe(next) {
                    assert forall|k: int| 0 <= k < i implies shell_safe(#[trigger] arg@.take(i as int)[k]) by {
                        assert(next[k] == arg@.take(i as int)[k]);
                    }
                    assert(shell_safe(next[i as int]));
                }
                if all_safe(arg@.take(i as int)) && shell_safe(c) {
                    assert forall|k: int| 0 <= k < next.len() implies shell_safe(#[trigger] next[k]) by {
                        if k < i {
                            assert(next[k] == arg@.take(i as int)[k]);
                        }
                    }
                }
            }
        }
        safe = safe && ok;
        if c == '\'' {
            escaped.push('\'');
            escaped.push('\\');
            escaped.push('\'');
            escaped.push('\'');
            assert(escaped@ =~= before + seq!['\'', '\\', '\'', '\'']);
        } else {
            escaped.push(c);
        }
        i += 1;
    }
    assert(arg@.take(i as int) =~= arg@);
    if safe {
        return arg.to_owned();
    }
    let mut out = String::new();
    out.push('\'');
    out.push_str(escaped.as_str());
    out.push('\'');
    assert(out@ =~= seq!['\''] + quotes_escaped(arg@) + seq!['\'']);
    out
}

/// Texts as words of a shell command.
pub fn shell_quote_args(args: &[String]) -> (r: String)
    ensures
        r@ == quoted_words(texts(args@)),
{
    let ghost all = texts(args@).map_values(|a: Seq<char>| quoted(a));
    let mut out: Vec<String> = Vec::new();
    let mut i: usize = 0;
    assert(texts(out@) =~= all.take(0));
    while i < args.len()
        invariant
            i <= args@.len(),
            all == texts(args@).map_values(|a: Seq<char>| quoted(a)),
            texts(out@) == all.take(i as int),
        decreases args.len() - i,
    {
        assert(all[i as int] == quoted(args@[i as int]@));
        out.push(shell_quote(args[i].as_str()));
        i += 1;
    }
    assert(all.take(i as int) =~= all);
    join(out.as_slice(), " ")
}

/// The first line that builds.
pub open spec fn first_build_line(list: Seq<Seq<char>>) -> Option<int>
    decreases list.len(),
{
    if list.len() == 0 {
        None
    } else if first_build_line(list.drop_last()) is Some {
        first_build_line(list.drop_last())
    } else if build_line(trimmed(list.last())) {
        Some(list.len() - 1)
    } else {
        None
    }
}

/// The last line that is not blank.
pub open spec fn last_full_line(list: Seq<Seq<char>>) -> Option<int>
    decreases list.len(),
{
    if list.len() == 0 {
        None
    } else if trimmed(list.last()).len() > 0 {
        Some(list.len() - 1)
    } else {
        last_full_line(list.drop_last())
    }
}

/// The line that arguments are appended to: the first that builds, else the last that is
/// not blank, else the first.
pub open spec fn argument_line(list: Seq<Seq<char>>) -> int {
    or_else(over(last_full_line(list), first_build_line(list)), 0)
}

/// A script with arguments appended to the line that takes them.
pub open spec fn script_with_args(script: Seq<char>, args: Seq<Seq<char>>) -> Seq<char> {
    let list = lines_of(script);
    let words = quoted_words(args);
    if list.len() == 0 {
        words
    } else {
        let at = argument_line(list);
        let body = join_of(list.update(at, list[at] + " "@ + words), "\n"@);
        if script.len() > 0 && script.last() == '\n' {
            body + "\n"@
        } else {
            body
        }
    }
}

/// A script with arguments appended to the line that takes them.
pub fn append_args_to_build_script(script: &str, args: &[String]) -> (r: String)
    ensures
        r@ == script_with_args(script@, texts(args@)),
{
    let words = shell_quote_args(args);
    let mut list = lines(script);
    let ghost all = lines_of(script@);
    assert(all.len() == list@.len());
    if list.len() == 0 {
        return words;
    }
    let mut first: Option<usize> = None;
    let mut last: Option<usize> = None;
    let mut i: usize = 0;
    while i < list.len()
        invariant
            i <= list@.len(),
            texts(list@) == all,
            match first {
                Some(k) => first_build_line(all.take(i as int)) == Some(k as int) && k < i,
                None => first_build_line(all.take(i as int)) is None,
            },
            match last {
                Some(k) => last_full_line(all.take(i as int)) == Some(k as int) && k < i,
                None => last_full_line(all.take(i as int)) is None,
            },
        decreases list.len() - i,
    {
        assert(all.take(i + 1).drop_last() =~= all.take(i as int));
        assert(all[i as int] == list@[i as int]@);
        let t = trim(list[i].as_str());
        if first.is_none() && is_build_command_line(t) {
            first = Some(i);
        }
        if !t.is_empty() {
            last = Some(i);
        }
        i += 1;
    }
    assert(all.take(i as int) =~= all);
    let at: usize = match first {
        Some(k) => k,
        None => match last {
            Some(k) => k,
            None => 0,
        },
    };
    assert(at == argument_line(all));
    let line = cat3(list[at].as_str(), " ", words.as_str());
    list.set(at, line);
    assert(texts(list@) =~= all.update(at as int, all[at as int] + " "@ + words@));
    let mut out = join(list.as_slice(), "\n");
    let n: usize = script.unicode_len();
    if n > 0 && script.get_char(n - 1) == '\n' {
        out.push_str("\n");
    }
    out
}

/// Where a shell stands while it reads a word: whether it is between single quotes,
/// whether a backslash came before, what it has read, and whether all of it was plain: a
/// character outside quotes that may mean something to a shell, such as a blank that ends
/// the word, is not.
pub struct ShellState {
    pub quoted: bool,
    pub escaped: bool,
    pub word: Seq<char>,
    pub plain: bool,
}

/// What a shell does with one more character of a word.
pub open spec fn shell_reads(st: ShellState, c: char) -> ShellState {
    if st.escaped {
        ShellState { quoted: st.quoted, escaped: false, word: st.word.push(c), plain: st.plain }
    } else if st.quoted {
        if c == '\'' {
            ShellState { quoted: false, escaped: false, word: st.word, plain: st.plain }
        } else {
            ShellState { quoted: true, escaped: false, word: st.word.push(c), plain: st.plain }
        }
    } else if c == '\'' {
        ShellState { quoted: true, escaped: false, word: st.word, plain: st.plain }
    } else if c == '\\' {
        ShellState { quoted: false, escaped: true, word: st.word, plain: st.plain }
    } else {
        ShellState {
            quoted: false,
            escaped: false,
            word: st.word.push(c),
            plain: st.plain && shell_safe(c),
        }
    }
}

/// What a shell reads of a text that is one word of a command.
pub open spec fn shell_word(s: Seq<char>) -> ShellState
    decreases s.len(),
{
    if s.len() == 0 {
        ShellState { quoted: false, escaped: false, word: Seq::empty(), plain: true }
    } else {
        shell_reads(shell_word(s.drop_last()), s.last())
    }
}

proof fn lemma_safe_word(s: Seq<char>)
    requires
        all_safe(s),
    ensures
        shell_word(s) == (ShellState { quoted: false, escaped: false, word: s, plain: true }),
    decreases s.len(),
{
    if s.len() > 0 {
        let t = s.drop_last();
        assert forall|i: int| 0 <= i < t.len() implies shell_safe(#[trigger] t[i]) by {
            assert(t[i] == s[i]);
        }
        lemma_safe_word(t);
        assert(shell_safe(s[s.len() - 1]));
        assert(t.push(s.last()) =~= s);
    } else {
        assert(s =~= Seq::<char>::empty());
    }
}

proof fn lemma_shell_step(s: Seq<char>, c: char)
    ensures
        shell_word(s.push(c)) == shell_reads(shell_word(s), c),
{
    assert(s.push(c).drop_last() =~= s);
}

proof fn lemma_escaped_word(s: Seq<char>)
    ensures
        shell_word(seq!['\''] + quotes_escaped(s)) == (ShellState { quoted: true, escaped: false, word: s, plain: true }),
    decreases s.len(),
{
    let open = seq!['\''];
    if s.len() == 0 {
        assert(open + quotes_escaped(s) =~= Seq::<char>::empty().push('\''));
        lemma_shell_step(Seq::<char>::empty(), '\'');
        assert(s =~= Seq::<char>::empty());
    } else {
        let t = s.drop_last();
        lemma_escaped_word(t);
        let a = open + quotes_escaped(t);
        assert(t.push(s.last()) =~= s);
        if s.last() == '\'' {
            let b = a.push('\'');
            let c = b.push('\\');
            let d = c.push('\'');
            assert(open + quotes_escaped(s) =~= d.push('\''));
            lemma_shell_step(a, '\'');
            lemma_shell_step(b, '\\');
            lemma_shell_step(c, '\'');
            lemma_shell_step(d, '\'');
        } else {
            assert(open + quotes_escaped(s) =~= a.push(s.last()));
            lemma_shell_step(a, s.last());
        }
    }
}

/// A shell reads a quoted text back as it was, as one whole word: no character stands
/// outside quotes that may mean something to it.
pub proof fn law_quoting_is_undone_by_the_shell(s: Seq<char>)
    ensures
        shell_word(quoted(s)) == (ShellState { quoted: false, escaped: false, word: s, plain: true }),
{
    if s.len() == 0 {
        let empty = Seq::<char>::empty();
        assert(quoted(s) =~= empty.push('\'').push('\''));
        lemma_shell_step(empty, '\'');
        lemma_shell_step(empty.push('\''), '\'');
        assert(s =~= empty);
    } else if all_safe(s) {
        lemma_safe_word(s);
    } else {
        lemma_escaped_word(s);
        let a = seq!['\''] + quotes_escaped(s);
        assert(quoted(s) =~= a.push('\''));
        lemma_shell_step(a, '\'');
    }
}

/// A line builds where it calls one of the tools that build, wherever in the line that
/// stands, unless the line is a comment.
pub proof fn law_lines_that_build(before: Seq<char>, after: Seq<char>)
    requires
        before.len() > 0,
    ensures
        before[0] == '#' ==> !build_line(before + after),
        before[0] != '#' ==> build_line(before + "cargo build"@ + after),
        before[0] != '#' ==> build_line(before + "npm run build"@ + after),
        before[0] != '#' ==> build_line(before + "npm build"@ + after),
        before[0] != '#' ==> build_line(before + "yarn build"@ + after),
        before[0] != '#' ==> build_line(before + "pnpm build"@ + after),
        before[0] != '#' ==> build_line(before + "go build"@ + after),
        before[0] != '#' ==> build_line(before + "mvn package"@ + after),
        before[0] != '#' ==> build_line(before + "mvn install"@ + after),
        before[0] != '#' ==> build_line(before + "gradle build"@ + after),
        before[0] != '#' ==> build_line(before + "./gradlew build"@ + after),
        before[0] != '#' ==> build_line(before + "dotnet build"@ + after),
        before[0] != '#' ==> build_line(before + "python -m build"@ + after),
        before[0] != '#' ==> build_line(before + "python3 -m build"@ + after),
{
    assert((before + after)[0] == before[0]);
    lemma_builds(before, after, 0, "cargo build"@);
    lemma_builds(before, after, 1, "npm run build"@);
    lemma_builds(before, after, 2, "npm build"@);
    lemma_builds(before, after, 3, "yarn build"@);
    lemma_builds(before, after, 4, "pnpm build"@);
    lemma_builds(before, after, 5, "go build"@);
    lemma_builds(before, after, 6, "mvn package"@);
    lemma_builds(before, after, 7, "mvn install"@);
    lemma_builds(before, after, 8, "gradle build"@);
    lemma_builds(before, after, 9, "./gradlew build"@);
    lemma_builds(before, after, 10, "dotnet build"@);
    lemma_builds(before, after, 11, "python -m build"@);
    lemma_builds(before, after, 12, "python3 -m build"@);
}

proof fn lemma_builds(before: Seq<char>, after: Seq<char>, i: int, command: Seq<char>)
    requires
        before.len() > 0,
        0 <= i < build_commands().len(),
        build_commands()[i] == command,
    ensures
        before[0] != '#' ==> build_line(before + command + after),
{
    lemma_commands_are_small(i);
    let line = before + command + after;
    assert(line[0] == before[0]);
    assert(lower(line) =~= lower(before) + command + lower(after));
    assert((lower(before) + command + lower(after)).subrange(
        before.len() as int,
        (before.len() + command.len()) as int,
    ) =~= command);
    assert(occurs_at(lower(line), command, before.len() as int));
    assert(has_text(lower(line), build_commands()[i]));
}

proof fn lemma_commands_are_small(i: int)
    requires
        0 <= i < build_commands().len(),
    ensures
        lower(build_commands()[i]) == build_commands()[i],
{
    lemma_small_0();
    lemma_small_1();
    lemma_small_2();
    lemma_small_3();
    lemma_small_4();
    lemma_small_5();
    lemma_small_6();
    lemma_small_7();
    lemma_small_8();
    lemma_small_9();
    lemma_small_10();
    lemma_small_11();
    lemma_small_12();
}

proof fn lemma_small_0()
    ensures
        lower("cargo build"@) == "cargo build"@,
{
    reveal_strlit("cargo build");
    assert(lower("cargo build"@) =~= "cargo build"@);
}

proof fn lemma_small_1()
    ensures
        lower("npm run build"@) == "npm run build"@,
{
    reveal_strlit("npm run build");
    assert(lower("npm run build"@) =~= "npm run build"@);
}

proof fn lemma_small_2()
    ensures
        lower("npm build"@) == "npm build"@,
{
    reveal_strlit("npm build");
    assert(lower("npm build"@) =~= "npm build"@);
}

proof fn lemma_small_3()
    ensures
        lower("yarn build"@) == "yarn build"@,
{
    reveal_strlit("yarn build");
    assert(lower("yarn build"@) =~= "yarn build"@);
}

proof fn lemma_small_4()
    ensures
        lower("pnpm build"@) == "pnpm build"@,
{
    reveal_strlit("pnpm build");
    assert(lower("pnpm build"@) =~= "pnpm build"@);
}

proof fn lemma_small_5()
    ensures
        lower("go build"@) == "go build"@,
{
    reveal_strlit("go build");
    assert(lower("go build"@) =~= "go build"@);
}

proof fn lemma_small_6()
    ensures
        lower("mvn package"@) == "mvn package"@,
{
    reveal_strlit("mvn package");
    assert(lower("mvn package"@) =~= "mvn package"@);
}

proof fn lemma_small_7()
    ensures
        lower("mvn install"@) == "mvn install"@,
{
    reveal_strlit("mvn install");
    assert(lower("mvn install"@) =~= "mvn install"@);
}

proof fn lemma_small_8()
    ensures
        lower("gradle build"@) == "gradle build"@,
{
    reveal_strlit("gradle build");
    assert(lower("gradle build"@) =~= "gradle build"@);
}

proof fn lemma_small_9()
    ensures
        lower("./gradlew build"@) == "./gradlew build"@,
{
    reveal_strlit("./gradlew build");
    assert(lower("./gradlew build"@) =~= "./gradlew build"@);
}

proof fn lemma_small_10()
    ensures
        lower("dotnet build"@) == "dotnet build"@,
{
    reveal_strlit("dotnet build");
    assert(lower("dotnet build"@) =~= "dotnet build"@);
}

proof fn lemma_small_11()
    ensures
        lower("python -m build"@) == "python -m build"@,
{
    reveal_strlit("python -m build");
    assert(lower("python -m build"@) =~= "python -m build"@);
}

proof fn lemma_small_12()
    ensures
        lower("python3 -m build"@) == "python3 -m build"@,
{
    reveal_strlit("python3 -m build");
    assert(lower("python3 -m build"@) =~= "python3 -m build"@);
}


/// A step is called the build where its name is `build` or begins with that word, in capitals
/// or not.
pub proof fn law_names_of_build_steps(rest: Seq<char>)
    ensures
        build_label("build"@) && build_label("Build"@) && build_label("BUILD"@),
        rest.len() > 0 && !is_space(rest.last()) ==> build_label("build "@ + rest) && build_label("Build "@ + rest),
        rest.len() > 0 && !is_space(rest.last()) && lower_char(rest[0]) != ' ' ==> !build_label("build"@ + rest),
        rest.len() > 0 && !is_space(rest[0]) && !is_space(rest.last()) && lower_char(rest[0]) != 'b' ==> !build_label(rest),
{
    reveal_strlit("build");
    reveal_strlit("Build");
    reveal_strlit("BUILD");
    reveal_strlit("build ");
    reveal_strlit("Build ");
    lemma_trimmed_whole("build"@);
    lemma_trimmed_whole("Build"@);
    lemma_trimmed_whole("BUILD"@);
    assert(lower("build"@) =~= "build"@);
    assert(lower("Build"@) =~= "build"@);
    assert(lower("BUILD"@) =~= "build"@);
    if rest.len() > 0 && !is_space(rest.last()) {
        let a = "build "@ + rest;
        let b = "Build "@ + rest;
        let c = "build"@ + rest;
        lemma_trimmed_whole(a);
        lemma_trimmed_whole(b);
        lemma_trimmed_whole(c);
        assert("build "@ =~= lower(a).subrange(0, 6));
        assert("build "@ =~= lower(b).subrange(0, 6));
        if lower_char(rest[0]) != ' ' {
            assert(lower(c)[5] == lower_char(rest[0]));
            if "build "@.is_prefix_of(lower(c)) {
                assert("build "@[5] == lower(c).subrange(0, 6)[5]);
            }
            assert(lower(c).len() != "build"@.len());
        }
        if !is_space(rest[0]) && lower_char(rest[0]) != 'b' {
            lemma_trimmed_whole(rest);
            assert(lower(rest)[0] == lower_char(rest[0]));
            if "build "@.is_prefix_of(lower(rest)) {
                assert("build "@[0] == lower(rest).subrange(0, 6)[0]);
            }
        }
    }
}

proof fn lemma_called_places(steps: Seq<StepView>)
    ensures
        called_build_at(steps).no_duplicates(),
        forall|i: int|
            #![trigger called_build_at(steps).contains(i)]
            #![trigger steps[i]]
            called_build_at(steps).contains(i) <==> 0 <= i < steps.len() && called_build(steps[i]),
    decreases steps.len(),
{
    if steps.len() > 0 {
        let less = steps.drop_last();
        let head = called_build_at(less);
        let all = called_build_at(steps);
        lemma_called_places(less);
        assert forall|i: int|
            #![trigger all.contains(i)]
            #![trigger steps[i]]
            all.contains(i) <==> 0 <= i < steps.len() && called_build(steps[i]) by {
            if all.contains(i) {
                let k = choose|k: int| 0 <= k < all.len() && all[k] == i;
                if k < head.len() {
                    assert(head[k] == i);
                    assert(head.contains(i));
                    assert(less[i] == steps[i]);
                }
            }
            if 0 <= i < steps.len() && called_build(steps[i]) {
                if i < less.len() {
                    assert(less[i] == steps[i]);
                    let k = choose|k: int| 0 <= k < head.len() && head[k] == i;
                    assert(all[k] == i);
                } else {
                    assert(all[all.len() - 1] == i);
                }
            }
        }
        assert forall|a: int, b: int| 0 <= a < all.len() && 0 <= b < all.len() && a != b implies all[a] != all[b] by {
            if a < head.len() {
                assert(head.contains(head[a]));
                assert(called_build(less[head[a]]));
            }
            if b < head.len() {
                assert(head.contains(head[b]));
                assert(called_build(less[head[b]]));
            }
        }
    }
}

proof fn lemma_running_places(steps: Seq<StepView>)
    ensures
        runs_build_at(steps).no_duplicates(),
        forall|i: int|
            #![trigger runs_build_at(steps).contains(i)]
            #![trigger steps[i]]
            runs_build_at(steps).contains(i) <==> 0 <= i < steps.len() && runs_build(steps[i]),
    decreases steps.len(),
{
    if steps.len() > 0 {
        let less = steps.drop_last();
        let head = runs_build_at(less);
        let all = runs_build_at(steps);
        lemma_running_places(less);
        assert forall|i: int|
            #![trigger all.contains(i)]
            #![trigger steps[i]]
            all.contains(i) <==> 0 <= i < steps.len() && runs_build(steps[i]) by {
            if all.contains(i) {
                let k = choose|k: int| 0 <= k < all.len() && all[k] == i;
                if k < head.len() {
                    assert(head[k] == i);
                    assert(head.contains(i));
                    assert(less[i] == steps[i]);
                }
            }
            if 0 <= i < steps.len() && runs_build(steps[i]) {
                if i < less.len() {
                    assert(less[i] == steps[i]);
                    let k = choose|k: int| 0 <= k < head.len() && head[k] == i;
                    assert(all[k] == i);
                } else {
                    assert(all[all.len() - 1] == i);
                }
            }
        }
        assert forall|a: int, b: int| 0 <= a < all.len() && 0 <= b < all.len() && a != b implies all[a] != all[b] by {
            if a < head.len() {
                assert(head.contains(head[a]));
                assert(runs_build(less[head[a]]));
            }
            if b < head.len() {
                assert(head.contains(head[b]));
                assert(runs_build(less[head[b]]));
            }
        }
    }
}

proof fn lemma_one_place(places: Seq<int>, i: int)
    requires
        places.no_duplicates(),
        forall|k: int| #[trigger] places.contains(k) <==> k == i,
    ensures
        places.len() == 1,
        places[0] == i,
{
    assert(places.contains(i));
    assert(places.contains(places[0]));
    if places.len() > 1 {
        assert(places.contains(places[1]));
    }
}

/// Arguments go to the one step that is called the build; where none is, to the one step
/// that builds; where none does, to the only step. Two steps that are called the build leave it
/// open, and only the workflow `build` takes arguments at all.
pub proof fn law_which_step_takes_the_arguments(
    name: Seq<char>,
    path: Seq<char>,
    steps: Seq<StepView>,
    args: Seq<Seq<char>>,
    i: int,
    j: int,
)
    requires
        0 <= i < steps.len(),
    ensures
        ({
            let step = argument_step(name, path, steps, args);
            let none_called = forall|k: int| 0 <= k < steps.len() ==> !called_build(#[trigger] steps[k]);
            let none_runs = forall|k: int| 0 <= k < steps.len() ==> !runs_build(#[trigger] steps[k]);
            &&& args.len() == 0 ==> step == Ok::<Option<int>, ErrorView>(None)
            &&& args.len() > 0 && name != "build"@ ==> step is Err && step->Err_0 is Usage
            &&& args.len() > 0 && name == "build"@ && called_build(steps[i]) && (forall|k: int|
                0 <= k < steps.len() && k != i ==> !called_build(#[trigger] steps[k])) ==> step == Ok::<_, ErrorView>(Some(i))
            &&& args.len() > 0 && name == "build"@ && called_build(steps[i]) && 0 <= j < steps.len() && j != i
                && called_build(steps[j]) ==> step is Err
            &&& args.len() > 0 && name == "build"@ && none_called && runs_build(steps[i]) && (forall|k: int|
                0 <= k < steps.len() && k != i ==> !runs_build(#[trigger] steps[k])) ==> step == Ok::<_, ErrorView>(Some(i))
            &&& args.len() > 0 && name == "build"@ && none_called && runs_build(steps[i]) && 0 <= j < steps.len() && j != i
                && runs_build(steps[j]) ==> step is Err
            &&& args.len() > 0 && name == "build"@ && none_called && none_runs ==> (step is Ok) == (steps.len() == 1)
                && (step is Ok ==> step->Ok_0 == Some(0int))
        }),
{
    lemma_called_places(steps);
    lemma_running_places(steps);
    let called = called_build_at(steps);
    let builds = runs_build_at(steps);
    if called_build(steps[i]) {
        assert(called.contains(i));
        if forall|k: int| 0 <= k < steps.len() && k != i ==> !called_build(#[trigger] steps[k]) {
            lemma_one_place(called, i);
        }
        if 0 <= j < steps.len() && j != i && called_build(steps[j]) {
            assert(called.contains(j));
            assert(called.len() > 1);
        }
    }
    if forall|k: int| 0 <= k < steps.len() ==> !called_build(#[trigger] steps[k]) {
        if called.len() > 0 {
            assert(called.contains(called[0]));
        }
    }
    if runs_build(steps[i]) {
        assert(builds.contains(i));
        if forall|k: int| 0 <= k < steps.len() && k != i ==> !runs_build(#[trigger] steps[k]) {
            lemma_one_place(builds, i);
        }
        if 0 <= j < steps.len() && j != i && runs_build(steps[j]) {
            assert(builds.contains(j));
            assert(builds.len() > 1);
        }
    }
    if forall|k: int| 0 <= k < steps.len() ==> !runs_build(#[trigger] steps[k]) {
        if builds.len() > 0 {
            assert(builds.contains(builds[0]));
        }
    }
}

proof fn lemma_no_build_line(list: Seq<Seq<char>>)
    requires
        forall|k: int| 0 <= k < list.len() ==> !build_line(trimmed(#[trigger] list[k])),
    ensures
        first_build_line(list) is None,
    decreases list.len(),
{
    if list.len() > 0 {
        let head = list.drop_last();
        assert forall|k: int| 0 <= k < head.len() implies !build_line(trimmed(#[trigger] head[k])) by {
            assert(head[k] == list[k]);
        }
        lemma_no_build_line(head);
        assert(!build_line(trimmed(list[list.len() - 1])));
    }
}

proof fn lemma_the_build_line(list: Seq<Seq<char>>, i: int)
    requires
        0 <= i < list.len(),
        build_line(trimmed(list[i])),
        forall|k: int| 0 <= k < i ==> !build_line(trimmed(#[trigger] list[k])),
    ensures
        first_build_line(list) == Some(i),
    decreases list.len(),
{
    let head = list.drop_last();
    if i == list.len() - 1 {
        assert forall|k: int| 0 <= k < head.len() implies !build_line(trimmed(#[trigger] head[k])) by {
            assert(head[k] == list[k]);
        }
        lemma_no_build_line(head);
    } else {
        assert(head[i] == list[i]);
        assert forall|k: int| 0 <= k < i implies !build_line(trimmed(#[trigger] head[k])) by {
            assert(head[k] == list[k]);
        }
        lemma_the_build_line(head, i);
    }
}

proof fn lemma_the_last_line(list: Seq<Seq<char>>, i: int)
    requires
        0 <= i < list.len(),
        trimmed(list[i]).len() > 0,
        forall|k: int| i < k < list.len() ==> trimmed(#[trigger] list[k]).len() == 0,
    ensures
        last_full_line(list) == Some(i),
    decreases list.len(),
{
    if i < list.len() - 1 {
        let head = list.drop_last();
        assert(trimmed(list[list.len() - 1]).len() == 0);
        assert(head[i] == list[i]);
        assert forall|k: int| i < k < head.len() implies trimmed(#[trigger] head[k]).len() == 0 by {
            assert(head[k] == list[k]);
        }
        lemma_the_last_line(head, i);
    }
}

/// Arguments stand behind the first line of a script that builds, else behind the last one
/// that is not blank; a script of one line is followed by them, each quoted.
pub proof fn law_where_arguments_stand(script: Seq<char>, list: Seq<Seq<char>>, i: int, args: Seq<Seq<char>>)
    requires
        0 <= i < list.len(),
    ensures
        build_line(trimmed(list[i])) && (forall|k: int| 0 <= k < i ==> !build_line(trimmed(#[trigger] list[k])))
            ==> argument_line(list) == i,
        trimmed(list[i]).len() > 0 && (forall|k: int| 0 <= k < list.len() ==> !build_line(trimmed(#[trigger] list[k])))
            && (forall|k: int| i < k < list.len() ==> trimmed(#[trigger] list[k]).len() == 0) ==> argument_line(list) == i,
        script.len() > 0 && !script.contains('\n') ==> script_with_args(script, args) == script + " "@ + quoted_words(args),
        script_with_args(Seq::empty(), args) == quoted_words(args),
{
    if build_line(trimmed(list[i])) && (forall|k: int| 0 <= k < i ==> !build_line(trimmed(#[trigger] list[k]))) {
        lemma_the_build_line(list, i);
    }
    if trimmed(list[i]).len() > 0 && (forall|k: int| 0 <= k < list.len() ==> !build_line(trimmed(#[trigger] list[k])))
        && (forall|k: int| i < k < list.len() ==> trimmed(#[trigger] list[k]).len() == 0) {
        lemma_no_build_line(list);
        lemma_the_last_line(list, i);
    }
    lemma_single_piece(Seq::empty(), '\n');
    assert(lines_of(Seq::empty()) =~= Seq::<Seq<char>>::empty());
    if script.len() > 0 && !script.contains('\n') {
        lemma_single_piece(script, '\n');
        let lines = lines_of(script);
        assert(lines =~= seq![script]);
        assert(lines.drop_last() =~= Seq::<Seq<char>>::empty());
        assert(first_build_line(lines.drop_last()) is None);
        assert(last_full_line(lines.drop_last()) is None);
        assert(argument_line(lines) == 0);
        assert(lines.update(0, lines[0] + " "@ + quoted_words(args)) =~= seq![script + " "@ + quoted_words(args)]);
        assert(script[script.len() - 1] == script.last());
    }
}

/// A word that a shell reads as it stands is not changed by quoting, and words stay apart by
/// one space.
pub proof fn law_plain_words_stay(word: Seq<char>, other: Seq<char>)
    requires
        word.len() > 0,
        forall|i: int| 0 <= i < word.len() ==> is_alnum(#[trigger] word[i]) || word[i] == '-' || word[i] == '=' || word[i] == '/'
            || word[i] == '.' || word[i] == '_',
    ensures
        quoted(word) == word,
        quoted_words(seq![word]) == word,
        quoted_words(seq![word, other]) == word + " "@ + quoted(other),
{
    let q = |a: Seq<char>| quoted(a);
    assert(seq![word].map_values(q) =~= seq![word]);
    assert(seq![word, other].map_values(q) =~= seq![word, quoted(other)]);
    assert(seq![word, quoted(other)].drop_last() =~= seq![word]);
    assert(join_of(seq![word], " "@) == word);
    assert(join_of(seq![word, quoted(other)], " "@) == word + " "@ + quoted(other));
}

} // verus!
