//! A small reader of workflow files: a name, events, and steps with a script each. It
//! takes the lines that it knows and passes over all others.

use crate::conditions::lemma_single_piece;
use crate::paths::lemma_split_concat;
use crate::strings::{
    cat2, chars_of, ends_with, lines, list_has, same, split_char, split_once, starts_with,
    strip_prefix, strip_suffix, trim, trim_end_char, trim_start, trim_start_char,
};
use crate::text::{
    after_prefix, all_space, before_suffix, cut_once, is_space, law_cut_at_the_first,
    law_trimming_takes_the_ends, lemma_take_push, lemma_texts_push, lemma_trimmed_whole, lines_of,
    opt_text, spaces, split_at_char, strip_leading, strip_trailing, texts, trim_start_of, trimmed,
};
use vstd::prelude::*;
use vstd::string::*;

verus! {

broadcast use {lemma_texts_push, lemma_take_push};

/// A workflow as the small reader has it.
#[derive(Debug)]
pub struct YamlWorkflow {
    pub name: Option<String>,
    pub on: Vec<String>,
    pub steps: Vec<YamlStep>,
}

/// A step: a script, and what it is called.
#[derive(Debug)]
pub struct YamlStep {
    pub name: Option<String>,
    pub run: String,
}

#[verifier::ext_equal]
pub struct YamlStepView {
    pub name: Option<Seq<char>>,
    pub run: Seq<char>,
}

impl View for YamlStep {
    type V = YamlStepView;

    open spec fn view(&self) -> YamlStepView {
        YamlStepView { name: opt_text(self.name), run: self.run@ }
    }
}

#[verifier::ext_equal]
pub struct YamlWorkflowView {
    pub name: Option<Seq<char>>,
    pub on: Seq<Seq<char>>,
    pub steps: Seq<YamlStepView>,
}

/// Steps by their texts.
pub open spec fn yaml_steps(v: Seq<YamlStep>) -> Seq<YamlStepView> {
    v.map_values(|s: YamlStep| s@)
}

impl View for YamlWorkflow {
    type V = YamlWorkflowView;

    open spec fn view(&self) -> YamlWorkflowView {
        YamlWorkflowView { name: opt_text(self.name), on: texts(self.on@), steps: yaml_steps(self.steps@) }
    }
}

/// How many blanks a line starts with.
pub open spec fn indent(line: Seq<char>) -> int
    decreases line.len(),
{
    if line.len() > 0 && line[0] == ' ' {
        1 + indent(line.skip(1))
    } else {
        0
    }
}

/// How many blanks a line starts with.
pub fn indent_of(line: &str) -> (r: usize)
    ensures
        r == indent(line@),
        r <= line@.len(),
{
    let v = chars_of(line);
    let mut i: usize = 0;
    assert(line@.skip(0) =~= line@);
    while i < v.len() && v[i] == ' '
        invariant
            i <= v@.len(),
            v@ == line@,
            indent(line@) == i + indent(line@.skip(i as int)),
        decreases v.len() - i,
    {
        assert(line@.skip(i as int)[0] == ' ');
        assert(line@.skip(i as int).skip(1) =~= line@.skip(i + 1));
        i += 1;
    }
    i
}

/// Whether a line starts with a key, without blanks before it.
pub open spec fn top_level(line: Seq<char>, key: Seq<char>) -> bool {
    indent(line) == 0 && key.is_prefix_of(trim_start_of(line))
}

/// Whether a line starts with a key, without blanks before it.
pub fn starts_top_level(line: &str, prefix: &str) -> (r: bool)
    ensures
        r == top_level(line@, prefix@),
{
    indent_of(line) == 0 && starts_with(trim_start(line), prefix)
}

/// What stands behind the first colon.
pub open spec fn behind_colon(s: Seq<char>) -> Seq<char> {
    match cut_once(s, ':') {
        Some((_, right)) => trimmed(right),
        None => Seq::empty(),
    }
}

/// What stands behind the first colon.
pub fn after_colon<'a>(s: &'a str) -> (r: &'a str)
    ensures
        r@ == behind_colon(s@),
{
    match split_once(s, ':') {
        Some((_, right)) => trim(right),
        None => {
            proof {
                reveal_strlit("");
                assert(""@ =~= Seq::<char>::empty());
            }
            ""
        },
    }
}

/// A text without a pair of quotes around it.
pub open spec fn without_quotes(s: Seq<char>, quote: Seq<char>) -> Seq<char> {
    match after_prefix(s, quote) {
        Some(rest) => match before_suffix(rest, quote) {
            Some(inner) => inner,
            None => s,
        },
        None => s,
    }
}

/// The value that a scalar stands for: without blanks and quotes around it.
pub open spec fn scalar(s: Seq<char>) -> Seq<char> {
    trimmed(without_quotes(without_quotes(trimmed(s), "\""@), "'"@))
}

fn strip_quotes<'a>(s: &'a str, quote: &str) -> (r: &'a str)
    ensures
        r@ == without_quotes(s@, quote@),
{
    match strip_prefix(s, quote) {
        Some(rest) => match strip_suffix(rest, quote) {
            Some(inner) => inner,
            None => s,
        },
        None => s,
    }
}

/// The value that a scalar stands for.
pub fn clean_scalar(value: &str) -> (r: String)
    ensures
        r@ == scalar(value@),
{
    trim(strip_quotes(strip_quotes(trim(value), "\""), "'")).to_owned()
}

/// The scalars of a list that are not empty.
pub open spec fn scalars(items: Seq<Seq<char>>) -> Seq<Seq<char>>
    decreases items.len(),
{
    if items.len() == 0 {
        Seq::empty()
    } else {
        let item = scalar(items.last());
        if item.len() == 0 {
            scalars(items.drop_last())
        } else {
            scalars(items.drop_last()).push(item)
        }
    }
}

/// The items of a list in brackets.
pub open spec fn inline_list(s: Seq<char>) -> Seq<Seq<char>> {
    scalars(split_at_char(strip_trailing(strip_leading(trimmed(s), '['), ']'), ','))
}

/// The items of a list in brackets.
pub fn parse_inline_list(value: &str) -> (r: Vec<String>)
    ensures
        texts(r@) == inline_list(value@),
{
    let items = split_char(trim_end_char(trim_start_char(trim(value), '['), ']'), ',');
    let ghost all = texts(items@);
    let mut out: Vec<String> = Vec::new();
    let mut i: usize = 0;
    assert(texts(out@) =~= scalars(all.take(0)));
    while i < items.len()
        invariant
            i <= items@.len(),
            all == texts(items@),
            texts(out@) == scalars(all.take(i as int)),
        decreases items.len() - i,
    {
        assert(all[i as int] == items@[i as int]@);
        assert(all.take(i + 1).drop_last() =~= all.take(i as int));
        let item = clean_scalar(items[i].as_str());
        if !item.as_str().is_empty() {
            out.push(item);
        }
        i += 1;
    }
    assert(all.take(i as int) =~= all);
    out
}

/// Whether a line belongs to the block below a line with that many blanks before it.
pub open spec fn in_block(line: Seq<char>, base: int) -> bool {
    trimmed(line).len() == 0 || indent(line) > base
}

/// A line of a block, without the blanks that all its lines have. One that is not far
/// enough to the right loses its first character instead, where that is a single byte,
/// and otherwise only its blanks.
pub open spec fn block_line(line: Seq<char>, base: int) -> Seq<char> {
    if trimmed(line).len() == 0 {
        Seq::empty()
    } else if indent(line) == base + 1 && line[base + 1] as u32 >= 0x80 {
        trimmed(line)
    } else {
        line.skip(base + 2)
    }
}

/// Where the block ends whose lines start at `i`.
pub open spec fn block_end(lines: Seq<Seq<char>>, i: int, base: int) -> int
    decreases lines.len() - i,
{
    if 0 <= i < lines.len() && in_block(lines[i], base) {
        block_end(lines, i + 1, base)
    } else {
        i
    }
}

/// The text of the lines from `i` to `end` as a block.
pub open spec fn block_text(lines: Seq<Seq<char>>, i: int, end: int, base: int) -> Seq<char>
    decreases end - i,
{
    if i >= end {
        Seq::empty()
    } else {
        block_text(lines, i, end - 1, base) + block_line(lines[end - 1], base).push('\n')
    }
}

proof fn lemma_indent(line: Seq<char>)
    ensures
        0 <= indent(line) <= line.len(),
        forall|k: int| 0 <= k < indent(line) ==> #[trigger] line[k] == ' ',
    decreases line.len(),
{
    if line.len() > 0 && line[0] == ' ' {
        lemma_indent(line.skip(1));
        assert forall|k: int| 0 <= k < indent(line) implies #[trigger] line[k] == ' ' by {
            if k > 0 {
                assert(line[k] == line.skip(1)[k - 1]);
            }
        }
    }
}

proof fn lemma_all_blank(s: Seq<char>)
    requires
        forall|k: int| 0 <= k < s.len() ==> #[trigger] s[k] == ' ',
    ensures
        trimmed(s).len() == 0,
    decreases s.len(),
{
    lemma_blank_start(s);
    assert(trim_start_of(s) =~= Seq::<char>::empty());
}

proof fn lemma_blank_start(s: Seq<char>)
    requires
        forall|k: int| 0 <= k < s.len() ==> #[trigger] s[k] == ' ',
    ensures
        trim_start_of(s).len() == 0,
    decreases s.len(),
{
    if s.len() > 0 {
        assert(s[0] == ' ');
        assert forall|k: int| 0 <= k < s.skip(1).len() implies #[trigger] s.skip(1)[k] == ' ' by {
            assert(s.skip(1)[k] == s[k + 1]);
        }
        lemma_blank_start(s.skip(1));
    }
}

/// The text of the block below a line, and where it ends.
pub fn collect_block(lines: &[String], start: usize, base_indent: usize) -> (r: (String, usize))
    requires
        start < usize::MAX,
    ensures
        r.1 == block_end(texts(lines@), start + 1, base_indent as int),
        start < r.1,
        start < lines@.len() ==> r.1 <= lines@.len(),
        r.0@ == block_text(texts(lines@), start + 1, r.1 as int, base_indent as int),
{
    let ghost all = texts(lines@);
    let ghost base = base_indent as int;
    let mut block = String::new();
    let mut i: usize = start + 1;
    while i < lines.len()
        invariant
            start + 1 <= i,
            start < lines@.len() ==> i <= lines@.len(),
            all == texts(lines@),
            base == base_indent,
            block_end(all, start + 1, base) == block_end(all, i as int, base),
            block@ == block_text(all, start + 1, i as int, base),
        decreases lines.len() - i,
    {
        let line = lines[i].as_str();
        assert(all[i as int] == line@);
        let text = trim(line);
        let deep = indent_of(line);
        proof {
            lemma_indent(line@);
        }
        if !text.is_empty() && deep <= base_indent {
            return (block, i);
        }
        if !text.is_empty() {
            proof {
                if line@.len() <= base + 1 {
                    assert(indent(line@) == line@.len());
                    lemma_all_blank(line@);
                }
            }
            let v = chars_of(line);
            if deep == base_indent + 1 && v[base_indent + 1] as u32 >= 0x80 {
                block.push_str(text);
            } else {
                let rest = line.substring_char(base_indent + 2, v.len());
                assert(rest@ =~= line@.skip(base + 2));
                block.push_str(rest);
            }
        }
        block.push('\n');
        assert(block@ =~= block_text(all, start + 1, i as int, base) + block_line(line@, base).push('\n'));
        i += 1;
    }
    (block, i)
}

/// Which part of the file is being read.
#[derive(Clone, Copy, Debug, PartialEq, Eq, Structural)]
pub enum Section {
    Top,
    On,
    Steps,
}

/// What was read so far.
#[verifier::ext_equal]
pub struct ReadView {
    pub workflow: YamlWorkflowView,
    pub section: Section,
    pub step_name: Option<Seq<char>>,
    pub step_run: Option<Seq<char>>,
}

/// Before the first line.
pub open spec fn nothing_read() -> ReadView {
    ReadView {
        workflow: YamlWorkflowView { name: None, on: Seq::empty(), steps: Seq::empty() },
        section: Section::Top,
        step_name: None,
        step_run: None,
    }
}

/// With the step at hand among the steps, where it has a script; a name alone is dropped.
pub open spec fn flushed(r: ReadView) -> ReadView {
    ReadView {
        workflow: match r.step_run {
            Some(run) => YamlWorkflowView {
                steps: r.workflow.steps.push(YamlStepView { name: r.step_name, run }),
                ..r.workflow
            },
            None => r.workflow,
        },
        step_name: None,
        step_run: None,
        ..r
    }
}

/// Whether a value announces a block.
pub open spec fn opens_block(value: Seq<char>) -> bool {
    value == "|"@ || value == ">"@
}

/// The script behind a key on line `i`, and the line after it.
pub open spec fn script_at(lines: Seq<Seq<char>>, i: int, value: Seq<char>) -> (Seq<char>, int) {
    if opens_block(value) {
        let end = block_end(lines, i + 1, indent(lines[i]));
        (block_text(lines, i + 1, end, indent(lines[i])), end)
    } else {
        (scalar(value), i + 1)
    }
}

/// What is read with line `i`, and the line that comes next.
pub open spec fn read_line(lines: Seq<Seq<char>>, i: int, r: ReadView) -> (ReadView, int) {
    let line = lines[i];
    let text = trimmed(line);
    let item = trimmed(text.skip(2));
    if text.len() == 0 || text[0] == '#' {
        (r, i + 1)
    } else if top_level(line, "name:"@) {
        (
            ReadView {
                workflow: YamlWorkflowView { name: Some(scalar(behind_colon(text))), ..r.workflow },
                section: Section::Top,
                ..r
            },
            i + 1,
        )
    } else if top_level(line, "on:"@) {
        let rest = behind_colon(text);
        let events = if rest.len() > 0 && rest[0] == '[' && rest.last() == ']' {
            inline_list(rest)
        } else if rest.len() > 0 {
            seq![scalar(rest)]
        } else {
            Seq::empty()
        };
        (
            ReadView {
                workflow: YamlWorkflowView { on: r.workflow.on + events, ..r.workflow },
                section: Section::On,
                ..r
            },
            i + 1,
        )
    } else if top_level(line, "steps:"@) {
        (ReadView { section: Section::Steps, ..r }, i + 1)
    } else if r.section == Section::On && "- "@.is_prefix_of(text) {
        (
            ReadView {
                workflow: YamlWorkflowView { on: r.workflow.on.push(scalar(item)), ..r.workflow },
                ..r
            },
            i + 1,
        )
    } else if r.section != Section::Steps {
        (r, i + 1)
    } else if "- "@.is_prefix_of(text) && "name:"@.is_prefix_of(item) {
        (ReadView { step_name: Some(scalar(behind_colon(item))), ..flushed(r) }, i + 1)
    } else if "- "@.is_prefix_of(text) && "run:"@.is_prefix_of(item) {
        let (run, next) = script_at(lines, i, behind_colon(item));
        let done = flushed(r);
        (
            ReadView {
                workflow: YamlWorkflowView {
                    steps: done.workflow.steps.push(YamlStepView { name: None, run }),
                    ..done.workflow
                },
                ..done
            },
            next,
        )
    } else if "run:"@.is_prefix_of(text) {
        let (run, next) = script_at(lines, i, behind_colon(text));
        (ReadView { step_run: Some(run), ..r }, next)
    } else {
        (r, i + 1)
    }
}

proof fn lemma_block_end(lines: Seq<Seq<char>>, i: int, base: int)
    ensures
        i <= block_end(lines, i, base),
        i <= lines.len() ==> block_end(lines, i, base) <= lines.len(),
    decreases lines.len() - i,
{
    if 0 <= i < lines.len() && in_block(lines[i], base) {
        lemma_block_end(lines, i + 1, base);
    }
}

/// What is read from line `i` on.
pub open spec fn read_from(lines: Seq<Seq<char>>, i: int, r: ReadView) -> ReadView
    decreases lines.len() - i,
    via read_from_goes_on
{
    if 0 <= i < lines.len() {
        let (next, at) = read_line(lines, i, r);
        read_from(lines, at, next)
    } else {
        r
    }
}

#[via_fn]
proof fn read_from_goes_on(lines: Seq<Seq<char>>, i: int, r: ReadView) {
    if 0 <= i < lines.len() {
        lemma_block_end(lines, i + 1, indent(lines[i]));
    }
}

/// The workflow that a text holds. Without events it runs by hand.
pub open spec fn yaml_workflow(content: Seq<char>) -> YamlWorkflowView {
    let read = flushed(read_from(lines_of(content), 0, nothing_read())).workflow;
    if read.on.len() == 0 {
        YamlWorkflowView { on: seq!["manual"@], ..read }
    } else {
        read
    }
}

/// Puts the step at hand among the steps, where it has a script; a name alone is dropped.
pub fn flush_step(steps: &mut Vec<YamlStep>, name: &mut Option<String>, run: &mut Option<String>)
    ensures
        *final(name) is None,
        *final(run) is None,
        yaml_steps(final(steps)@) == match opt_text(*old(run)) {
            Some(script) => yaml_steps(old(steps)@).push(
                YamlStepView { name: opt_text(*old(name)), run: script },
            ),
            None => yaml_steps(old(steps)@),
        },
{
    let title = name.take();
    if let Some(run) = run.take() {
        let step = YamlStep { name: title, run };
        steps.push(step);
        assert(yaml_steps(steps@) =~= yaml_steps(old(steps)@).push(step@));
    }
}

struct Reading {
    workflow: YamlWorkflow,
    section: Section,
    step_name: Option<String>,
    step_run: Option<String>,
}

impl View for Reading {
    type V = ReadView;

    closed spec fn view(&self) -> ReadView {
        ReadView {
            workflow: self.workflow@,
            section: self.section,
            step_name: opt_text(self.step_name),
            step_run: opt_text(self.step_run),
        }
    }
}

fn flush(r: &mut Reading)
    ensures
        final(r)@ == flushed(old(r)@),
{
    flush_step(&mut r.workflow.steps, &mut r.step_name, &mut r.step_run);
    assert(r@ =~= flushed(old(r)@));
}

fn find_script(lines: &[String], i: usize, value: &str) -> (r: (String, usize))
    requires
        i < lines@.len(),
    ensures
        (r.0@, r.1 as int) == script_at(texts(lines@), i as int, value@),
        i < r.1 <= lines@.len(),
{
    assert(texts(lines@)[i as int] == lines@[i as int]@);
    let n: usize = lines.len();
    if same(value, "|") || same(value, ">") {
        collect_block(lines, i, indent_of(lines[i].as_str()))
    } else {
        (clean_scalar(value), i + 1)
    }
}

/// Reads what an `on:` line holds.
fn read_events(r: &mut Reading, rest: &str)
    ensures
        final(r)@ == (ReadView {
            workflow: YamlWorkflowView {
                on: old(r)@.workflow.on + if rest@.len() > 0 && rest@[0] == '[' && rest@.last() == ']' {
                    inline_list(rest@)
                } else if rest@.len() > 0 {
                    seq![scalar(rest@)]
                } else {
                    Seq::empty()
                },
                ..old(r)@.workflow
            },
            section: Section::On,
            ..old(r)@
        }),
{
    let n: usize = rest.unicode_len();
    let ghost before = r.workflow.on@;
    if n > 0 && rest.get_char(0) == '[' && rest.get_char(n - 1) == ']' {
        let mut events = parse_inline_list(rest);
        let ghost more = events@;
        r.workflow.on.append(&mut events);
        assert(texts(r.workflow.on@) =~= texts(before) + texts(more));
    } else if n > 0 {
        r.workflow.on.push(clean_scalar(rest));
        assert(texts(r.workflow.on@) =~= texts(before) + seq![scalar(rest@)]);
    }
    r.section = Section::On;
    assert(r@.workflow.on =~= old(r)@.workflow.on + if rest@.len() > 0 && rest@[0] == '[' && rest@.last() == ']' {
        inline_list(rest@)
    } else if rest@.len() > 0 {
        seq![scalar(rest@)]
    } else {
        Seq::empty()
    });
}

/// Reads a line; the result is the line that comes next.
fn read_one(lines: &[String], i: usize, r: &mut Reading) -> (next: usize)
    requires
        i < lines@.len(),
    ensures
        (final(r)@, next as int) == read_line(texts(lines@), i as int, old(r)@),
        i < next <= lines@.len(),
{
    let ghost all = texts(lines@);
    let n: usize = lines.len();
    let line = lines[i].as_str();
    assert(all[i as int] == line@);
    let text = trim(line);
    proof {
        reveal_strlit("- ");
    }
    if text.is_empty() || text.get_char(0) == '#' {
        return i + 1;
    }
    if starts_top_level(line, "name:") {
        r.workflow.name = Some(clean_scalar(after_colon(text)));
        r.section = Section::Top;
        return i + 1;
    }
    if starts_top_level(line, "on:") {
        read_events(r, after_colon(text));
        return i + 1;
    }
    if starts_top_level(line, "steps:") {
        r.section = Section::Steps;
        return i + 1;
    }
    let item = match strip_prefix(text, "- ") {
        Some(rest) => Some(trim(rest)),
        None => None,
    };
    assert(item matches Some(it) ==> it@ == trimmed(text@.skip(2)));
    if r.section == Section::On {
        if let Some(item) = item {
            let ghost before = r.workflow.on@;
            r.workflow.on.push(clean_scalar(item));
            assert(texts(r.workflow.on@) =~= texts(before).push(scalar(item@)));
            assert(r@.workflow.on =~= old(r)@.workflow.on.push(scalar(item@)));
        }
        return i + 1;
    }
    if r.section != Section::Steps {
        return i + 1;
    }
    if let Some(item) = item {
        if starts_with(item, "name:") {
            flush(r);
            r.step_name = Some(clean_scalar(after_colon(item)));
            return i + 1;
        }
        if starts_with(item, "run:") {
            flush(r);
            let (run, next) = find_script(lines, i, after_colon(item));
            let step = YamlStep { name: None, run };
            let ghost before = r.workflow.steps@;
            r.workflow.steps.push(step);
            assert(yaml_steps(r.workflow.steps@) =~= yaml_steps(before).push(step@));
            return next;
        }
    }
    if starts_with(text, "run:") {
        let (run, next) = find_script(lines, i, after_colon(text));
        r.step_run = Some(run);
        return next;
    }
    i + 1
}

/// The workflow that a text holds.
pub fn parse_yaml_workflow(content: &str) -> (r: YamlWorkflow)
    ensures
        r@ == yaml_workflow(content@),
        r@.on.len() > 0,
{
    let lines = lines(content);
    let ghost all = texts(lines@);
    let mut r = Reading {
        workflow: YamlWorkflow { name: None, on: Vec::new(), steps: Vec::new() },
        section: Section::Top,
        step_name: None,
        step_run: None,
    };
    assert(r@ =~= nothing_read());
    let mut i: usize = 0;
    while i < lines.len()
        invariant
            i <= lines@.len(),
            all == texts(lines@),
            read_from(all, 0, nothing_read()) == read_from(all, i as int, r@),
        decreases lines.len() - i,
    {
        i = read_one(lines.as_slice(), i, &mut r);
    }
    flush(&mut r);
    assert(r@.workflow.on.len() == r.workflow.on@.len());
    if r.workflow.on.is_empty() {
        r.workflow.on.push("manual".to_owned());
        assert(texts(r.workflow.on@) =~= seq!["manual"@]);
    }
    r.workflow
}

/// Whether an event runs a workflow of the small reader: by its name, or by what it says
/// it runs on.
pub open spec fn runs_on(name: Seq<char>, on: Option<Seq<Seq<char>>>, event: Seq<char>) -> bool {
    ||| name == event
    ||| ("/"@ + event).is_suffix_of(name)
    ||| (on matches Some(on) && (on.contains(event) || on.contains("all"@)))
}

/// Whether an event runs a workflow; `workflow` is what its file says, where it is a file
/// of the small reader.
pub fn workflow_matches_event(name: &str, workflow: Option<&YamlWorkflow>, event: &str) -> (r: bool)
    ensures
        r == runs_on(
            name@,
            match workflow {
                Some(w) => Some(w@.on),
                None => None,
            },
            event@,
        ),
{
    let ending = cat2("/", event);
    if same(name, event) || ends_with(name, ending.as_str()) {
        return true;
    }
    match workflow {
        Some(w) => list_has(w.on.as_slice(), event) || list_has(w.on.as_slice(), "all"),
        None => false,
    }
}

/// A line that is blank or a comment changes nothing, wherever it stands outside a block.
pub proof fn law_comments_change_nothing(lines: Seq<Seq<char>>, i: int, r: ReadView)
    requires
        0 <= i < lines.len(),
        trimmed(lines[i]).len() == 0 || trimmed(lines[i])[0] == '#',
    ensures
        read_from(lines, i, r) == read_from(lines, i + 1, r),
{
}

/// A value is what stands in it, without white space and quotation marks around it.
pub proof fn law_values_without_quotes(s: Seq<char>)
    requires
        s.len() > 0,
        !is_space(s[0]) && !is_space(s.last()),
        s[0] != '\'' && s[0] != '"',
    ensures
        scalar(s) == s,
        scalar("\""@ + s + "\""@) == s,
        scalar("'"@ + s + "'"@) == s,
        scalar(" "@ + s + " "@) == s,
{
    reveal_strlit("\"");
    reveal_strlit("'");
    reveal_strlit(" ");
    let d = "\""@;
    let q = "'"@;
    lemma_trimmed_whole(s);
    lemma_unquoted(s, d);
    lemma_unquoted(s, q);
    let a = d + s + d;
    lemma_trimmed_whole(a);
    lemma_quoted_value(s, d);
    let b = q + s + q;
    lemma_trimmed_whole(b);
    lemma_quoted_value(s, q);
    lemma_unquoted(b, d);
    law_trimming_takes_the_ends(" "@, s, " "@);
}

proof fn lemma_unquoted(s: Seq<char>, quote: Seq<char>)
    requires
        s.len() > 0,
        quote.len() == 1,
        s[0] != quote[0],
    ensures
        without_quotes(s, quote) == s,
{
    if quote.is_prefix_of(s) {
        assert(quote[0] == s.subrange(0, 1)[0]);
    }
}

proof fn lemma_quoted_value(s: Seq<char>, quote: Seq<char>)
    requires
        quote.len() == 1,
    ensures
        without_quotes(quote + s + quote, quote) == s,
{
    let a = quote + s + quote;
    assert(quote =~= a.subrange(0, 1));
    let rest = a.skip(1);
    assert(rest =~= s + quote);
    assert(quote =~= rest.subrange(rest.len() - 1, rest.len() as int));
    assert(rest.take(rest.len() - 1) =~= s);
}

/// A list in square brackets holds the values between its commas.
pub proof fn law_lists_in_brackets(a: Seq<char>, b: Seq<char>)
    requires
        a.len() > 0 && b.len() > 0,
        !a.contains(',') && !b.contains(','),
        !is_space(a[0]) && !is_space(a.last()) && a[0] != '\'' && a[0] != '"' && a[0] != '[',
        !is_space(b[0]) && !is_space(b.last()) && b[0] != '\'' && b[0] != '"' && b.last() != ']',
    ensures
        inline_list("["@ + a + ", "@ + b + "]"@) == seq![a, b],
{
    reveal_strlit("[");
    reveal_strlit(", ");
    reveal_strlit("]");
    reveal_strlit(" ");
    let whole = "["@ + a + ", "@ + b + "]"@;
    let inner = a + ", "@ + b;
    lemma_trimmed_whole(whole);
    assert(whole.drop_first() =~= inner + "]"@);
    assert((inner + "]"@)[0] == a[0]);
    assert(strip_leading(inner + "]"@, '[') == inner + "]"@);
    assert(strip_leading(whole, '[') == inner + "]"@);
    assert((inner + "]"@).drop_last() =~= inner);
    assert(inner.last() == b.last());
    assert(strip_trailing(inner, ']') == inner);
    assert(strip_trailing(inner + "]"@, ']') == inner);
    let second = " "@ + b;
    assert(!second.contains(',')) by {
        if second.contains(',') {
            let k = choose|k: int| 0 <= k < second.len() && second[k] == ',';
            if k > 0 {
                assert(b[k - 1] == ',');
            }
        }
    }
    assert(inner =~= a.push(',') + second);
    lemma_single_piece(a, ',');
    lemma_single_piece(second, ',');
    lemma_split_concat(a, second, ',');
    assert(split_at_char(inner, ',') =~= seq![a, second]);
    lemma_plain_value(a);
    lemma_plain_value(b);
    law_trimming_takes_the_ends(" "@, b, Seq::empty());
    assert(" "@ + b + Seq::<char>::empty() =~= second);
    assert(scalar(second) == scalar(b)) by {
        lemma_trimmed_whole(b);
    }
    let none = Seq::<Seq<char>>::empty();
    assert(scalars(none) == none);
    assert(seq![a].drop_last() =~= none);
    assert(scalars(seq![a]) =~= seq![a]);
    assert(seq![a, second].drop_last() =~= seq![a]);
    assert(scalars(seq![a, second]) =~= seq![a, b]);
}

proof fn lemma_plain_value(s: Seq<char>)
    requires
        s.len() > 0,
        !is_space(s[0]) && !is_space(s.last()),
        s[0] != '\'' && s[0] != '"',
    ensures
        scalar(s) == s,
{
    law_values_without_quotes(s);
}

/// A script that is written as a block is its lines, each without the indentation of the block
/// and with its end; the block ends with the first line that is not indented further.
pub proof fn law_a_block_is_its_lines(lines: Seq<Seq<char>>, i: int, base: int, n: int)
    requires
        0 <= i <= n <= lines.len(),
        forall|k: int| i <= k < n ==> in_block(#[trigger] lines[k], base),
        n < lines.len() ==> !in_block(lines[n], base),
    ensures
        block_end(lines, i, base) == n,
        i < n ==> block_text(lines, i, n, base) == block_line(lines[i], base).push('\n') + block_text(lines, i + 1, n, base),
        block_text(lines, n, n, base).len() == 0,
    decreases n - i,
{
    if i < n {
        assert(in_block(lines[i], base));
        law_a_block_is_its_lines(lines, i + 1, base, n);
        lemma_block_text_front(lines, i, n, base);
    }
}

proof fn lemma_block_text_front(lines: Seq<Seq<char>>, i: int, n: int, base: int)
    requires
        i < n,
    ensures
        block_text(lines, i, n, base) == block_line(lines[i], base).push('\n') + block_text(lines, i + 1, n, base),
    decreases n - i,
{
    let first = block_line(lines[i], base).push('\n');
    if i + 1 == n {
        assert(block_text(lines, i, i, base) =~= Seq::<char>::empty());
        assert(block_text(lines, i, n, base) =~= first);
        assert(first + block_text(lines, n, n, base) =~= first);
    } else {
        lemma_block_text_front(lines, i, n - 1, base);
        assert(block_text(lines, i, n, base) =~= first + block_text(lines, i + 1, n, base));
    }
}

/// A line of a block that is indented by two more than its key loses just that indentation.
pub proof fn law_the_indentation_of_a_block(text: Seq<char>, base: nat)
    requires
        text.len() > 0,
        !is_space(text[0]),
        !is_space(text.last()),
    ensures
        in_block(spaces(base + 2) + text, base as int),
        block_line(spaces(base + 2) + text, base as int) == text,
        !in_block(spaces(base) + text, base as int),
{
    lemma_indented(text, base + 2);
    lemma_indented(text, base);
    let a = spaces(base + 2) + text;
    let b = spaces(base) + text;
    assert(all_space(spaces(base + 2)));
    assert(all_space(spaces(base)));
    law_trimming_takes_the_ends(spaces(base + 2), text, Seq::empty());
    law_trimming_takes_the_ends(spaces(base), text, Seq::empty());
    assert(a + Seq::<char>::empty() =~= a);
    assert(b + Seq::<char>::empty() =~= b);
    assert(a.skip((base + 2) as int) =~= text);
}

proof fn lemma_indented(text: Seq<char>, n: nat)
    requires
        text.len() > 0,
        !is_space(text[0]),
    ensures
        indent(spaces(n) + text) == n,
    decreases n,
{
    let s = spaces(n) + text;
    if n == 0 {
        assert(s =~= text);
        assert(s[0] != ' ');
    } else {
        let m = (n - 1) as nat;
        assert(s.skip(1) =~= spaces(m) + text);
        lemma_indented(text, m);
    }
}

/// A step is complete with its script; what was read of it is put behind the other steps, under its
/// name.
pub proof fn law_steps_are_put_behind_each_other(r: ReadView, run: Seq<char>)
    ensures
        ({
            let done = flushed(ReadView { step_run: Some(run), ..r });
            &&& done.workflow.steps == r.workflow.steps.push(YamlStepView { name: r.step_name, run })
            &&& done.workflow.name == r.workflow.name && done.workflow.on == r.workflow.on
            &&& done.step_name is None && done.step_run is None && done.section == r.section
            &&& flushed(ReadView { step_run: None, ..r }).workflow == r.workflow
        }),
{
}

/// What a line says: at the margin `name:` names the workflow, `on:` begins its events and
/// `steps:` its steps; below `on:` an item is one more event.
pub proof fn law_what_a_line_says(lines: Seq<Seq<char>>, i: int, r: ReadView, value: Seq<char>)
    requires
        0 <= i < lines.len(),
        value.len() > 0,
        !is_space(value[0]) && !is_space(value.last()),
        value[0] != '\'' && value[0] != '"' && value[0] != '[',
    ensures
        lines[i] == "name: "@ + value ==> ({
            let (next, at) = read_line(lines, i, r);
            next.workflow.name == Some(value) && next.workflow.on == r.workflow.on && next.workflow.steps == r.workflow.steps && at
                == i + 1
        }),
        lines[i] == "on: "@ + value ==> ({
            let (next, at) = read_line(lines, i, r);
            next.workflow.on == r.workflow.on.push(value) && next.workflow.name == r.workflow.name && next.section is On && at == i
                + 1
        }),
        lines[i] == "steps:"@ ==> ({
            let (next, at) = read_line(lines, i, r);
            next.section is Steps && next.workflow == r.workflow && at == i + 1
        }),
        lines[i] == "- "@ + value && r.section is On ==> ({
            let (next, at) = read_line(lines, i, r);
            next.workflow.on == r.workflow.on.push(value) && next.section is On && at == i + 1
        }),
{
    if lines[i] == "name: "@ + value {
        lemma_name_line(lines, i, r, value);
    }
    if lines[i] == "on: "@ + value {
        lemma_on_line(lines, i, r, value);
    }
    if lines[i] == "steps:"@ {
        lemma_steps_line(lines, i, r, value);
    }
    if lines[i] == "- "@ + value && r.section is On {
        lemma_event_line(lines, i, r, value);
    }
}

proof fn lemma_name_line(lines: Seq<Seq<char>>, i: int, r: ReadView, value: Seq<char>)
    requires
        0 <= i < lines.len(),
        value.len() > 0,
        !is_space(value[0]) && !is_space(value.last()),
        value[0] != '\'' && value[0] != '"' && value[0] != '[',
        lines[i] == "name: "@ + value,
    ensures
        read_line(lines, i, r).0.workflow.name == Some(value),
        read_line(lines, i, r).0.workflow.on == r.workflow.on,
        read_line(lines, i, r).0.workflow.steps == r.workflow.steps,
        read_line(lines, i, r).1 == i + 1,
{
    reveal_strlit("name");
    reveal_strlit("name:");
    reveal_strlit("name: ");
    reveal_strlit(": ");
    let line = lines[i];
    lemma_plain_value(value);
    assert("name: "@ =~= "name"@ + ": "@);
    assert("name"@.len() == 4 && "name"@[0] == 'n');
    lemma_keyed("name"@, "name: "@, value);
    assert("name:"@ =~= line.subrange(0, 5));
    assert(line[0] == 'n');
    assert(top_level(line, "name:"@));
}

proof fn lemma_on_line(lines: Seq<Seq<char>>, i: int, r: ReadView, value: Seq<char>)
    requires
        0 <= i < lines.len(),
        value.len() > 0,
        !is_space(value[0]) && !is_space(value.last()),
        value[0] != '\'' && value[0] != '"' && value[0] != '[',
        lines[i] == "on: "@ + value,
    ensures
        read_line(lines, i, r).0.workflow.on == r.workflow.on.push(value),
        read_line(lines, i, r).0.workflow.name == r.workflow.name,
        read_line(lines, i, r).0.section is On,
        read_line(lines, i, r).1 == i + 1,
{
    let line = lines[i];
    lemma_on_line_read(line, value);
    assert(r.workflow.on + seq![value] =~= r.workflow.on.push(value));
}

proof fn lemma_on_line_read(line: Seq<char>, value: Seq<char>)
    requires
        value.len() > 0,
        !is_space(value[0]) && !is_space(value.last()),
        value[0] != '\'' && value[0] != '"',
        line == "on: "@ + value,
    ensures
        trimmed(line) == line,
        line.len() > 0 && line[0] == 'o',
        top_level(line, "on:"@),
        !top_level(line, "name:"@),
        behind_colon(line) == value,
        scalar(value) == value,
{
    reveal_strlit("name:");
    reveal_strlit("on");
    reveal_strlit("on:");
    reveal_strlit("on: ");
    reveal_strlit(": ");
    lemma_plain_value(value);
    assert("on: "@ =~= "on"@ + ": "@);
    assert("on"@.len() == 2 && "on"@[0] == 'o');
    lemma_keyed("on"@, "on: "@, value);
    assert("on:"@ =~= line.subrange(0, 3));
    if "name:"@.is_prefix_of(line) {
        assert("name:"@[0] == line.subrange(0, 5)[0]);
    }
}

proof fn lemma_steps_line(lines: Seq<Seq<char>>, i: int, r: ReadView, value: Seq<char>)
    requires
        0 <= i < lines.len(),
        value.len() > 0,
        !is_space(value[0]) && !is_space(value.last()),
        value[0] != '\'' && value[0] != '"' && value[0] != '[',
        lines[i] == "steps:"@,
    ensures
        read_line(lines, i, r).0.section is Steps,
        read_line(lines, i, r).0.workflow == r.workflow,
        read_line(lines, i, r).1 == i + 1,
{
    reveal_strlit("name:");
    reveal_strlit("on:");
    reveal_strlit("steps:");
    let line = lines[i];
    assert(line[0] == 's' && line.last() == ':');
    lemma_trimmed_whole(line);
    assert(trim_start_of(line) == line);
    assert(indent(line) == 0);
    assert("steps:"@ =~= line.subrange(0, 6));
    if "name:"@.is_prefix_of(line) {
        assert("name:"@[0] == line.subrange(0, 5)[0]);
    }
    if "on:"@.is_prefix_of(line) {
        assert("on:"@[0] == line.subrange(0, 3)[0]);
    }
    assert(top_level(line, "steps:"@));
}

proof fn lemma_event_line(lines: Seq<Seq<char>>, i: int, r: ReadView, value: Seq<char>)
    requires
        0 <= i < lines.len(),
        value.len() > 0,
        !is_space(value[0]) && !is_space(value.last()),
        value[0] != '\'' && value[0] != '"' && value[0] != '[',
        lines[i] == "- "@ + value,
        r.section is On,
    ensures
        read_line(lines, i, r).0.workflow.on == r.workflow.on.push(value),
        read_line(lines, i, r).0.section is On,
        read_line(lines, i, r).1 == i + 1,
{
    reveal_strlit("name:");
    reveal_strlit("on:");
    reveal_strlit("steps:");
    reveal_strlit("- ");
    let line = lines[i];
    lemma_plain_value(value);
    assert(line[0] == '-' && line.last() == value.last());
    lemma_trimmed_whole(line);
    assert(trim_start_of(line) == line);
    if "name:"@.is_prefix_of(line) {
        assert("name:"@[0] == line.subrange(0, 5)[0]);
    }
    if "on:"@.is_prefix_of(line) {
        assert("on:"@[0] == line.subrange(0, 3)[0]);
    }
    if "steps:"@.is_prefix_of(line) {
        assert("steps:"@[0] == line.subrange(0, 6)[0]);
    }
    assert("- "@ =~= line.subrange(0, 2));
    assert(line.skip(2) =~= value);
    lemma_trimmed_whole(value);
}

proof fn lemma_keyed(key: Seq<char>, head: Seq<char>, value: Seq<char>)
    requires
        key.len() > 0,
        head == key + ": "@,
        !key.contains(':'),
        !is_space(key[0]),
        value.len() > 0,
        !is_space(value[0]) && !is_space(value.last()),
    ensures
        trimmed(head + value) == head + value,
        trim_start_of(head + value) == head + value,
        indent(head + value) == 0,
        behind_colon(head + value) == value,
        (head + value)[0] == key[0],
{
    reveal_strlit(": ");
    reveal_strlit(" ");
    let line = head + value;
    assert(line[0] == key[0]);
    lemma_trimmed_whole(line);
    let rest = " "@ + value;
    assert(line =~= key.push(':') + rest);
    law_cut_at_the_first(key, ':', rest);
    law_trimming_takes_the_ends(" "@, value, Seq::empty());
    assert(rest + Seq::<char>::empty() =~= rest);
    assert(" "@ + value + Seq::<char>::empty() =~= rest);
}

/// A workflow without events runs by hand, and only a workflow without events is given one.
pub proof fn law_without_events_by_hand(content: Seq<char>)
    ensures
        ({
            let read = flushed(read_from(lines_of(content), 0, nothing_read())).workflow;
            &&& read.on.len() == 0 ==> yaml_workflow(content).on == seq!["manual"@]
            &&& read.on.len() > 0 ==> yaml_workflow(content).on == read.on
            &&& yaml_workflow(content).steps == read.steps && yaml_workflow(content).name == read.name
        }),
        nothing_read().workflow.on.len() == 0 && nothing_read().workflow.steps.len() == 0 && nothing_read().section is Top,
{
}

/// An event runs the workflow that is called after it, in whichever directory, and every one
/// that lists it or lists `all`; and no other.
pub proof fn law_what_an_event_runs(name: Seq<char>, dir: Seq<char>, event: Seq<char>, on: Seq<Seq<char>>)
    ensures
        runs_on(event, None, event),
        runs_on(dir + "/"@ + event, None, event),
        on.contains(event) ==> runs_on(name, Some(on), event),
        on.contains("all"@) ==> runs_on(name, Some(on), event),
        !on.contains(event) && !on.contains("all"@) ==> runs_on(name, Some(on), event) == runs_on(name, None, event),
        name != event && !("/"@ + event).is_suffix_of(name) ==> !runs_on(name, None, event),
{
    let n = dir + "/"@ + event;
    let t = "/"@ + event;
    assert(t =~= n.subrange(n.len() - t.len(), n.len() as int));
}

} // verus!
