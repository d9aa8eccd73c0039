//! What the files of the tool may hold, as a schema to read.

use crate::config::or_else;
use crate::error::{CiError, ErrorView, outcome, usage};
use crate::strings::{cat3, cat5, join, same};
use crate::text::{
    has_text, join_of, lemma_take_push, lemma_texts_push, occurs_at, opt_slice, slices, texts,
};
use crate::yaml::{config_key_list, config_keys, workflow_key_list, workflow_keys};
use vstd::prelude::*;
use vstd::string::*;

verus! {

broadcast use {lemma_texts_push, lemma_take_push};

/// A key in quotes.
pub open spec fn quoted_key(key: Seq<char>) -> Seq<char> {
    "\""@ + key + "\""@
}

/// The line of a key.
pub open spec fn key_line(key: Seq<char>) -> Seq<char> {
    "    "@ + quoted_key(key) + ": {}"@
}

/// The lines of keys.
pub open spec fn key_lines(keys: Seq<Seq<char>>) -> Seq<Seq<char>> {
    keys.map_values(|k: Seq<char>| key_line(k))
}

/// A schema of that title that accepts keys.
pub open spec fn schema_for(title: Seq<char>, keys: Seq<Seq<char>>) -> Seq<char> {
    "{\n  \"title\": "@ + quoted_key(title)
        + ",\n  \"type\": \"object\",\n  \"additionalProperties\": false,\n  \"properties\": {\n"@ + join_of(
        key_lines(keys),
        ",\n"@,
    ) + "\n  }\n}"@
}

/// The schema of a workflow file.
pub open spec fn workflow_schema() -> Seq<char> {
    schema_for("ci native workflow"@, workflow_keys())
}

/// The schema of a configuration file.
pub open spec fn config_schema() -> Seq<char> {
    schema_for("ci config"@, config_keys())
}

/// The schema for a word; both where none is given.
pub open spec fn schema_named(subject: Option<Seq<char>>) -> Result<Seq<char>, ErrorView> {
    let word = or_else(subject, "all"@);
    if word == "workflow"@ {
        Ok(workflow_schema())
    } else if word == "config"@ {
        Ok(config_schema())
    } else if word == "all"@ {
        Ok("{\n\"config\": "@ + config_schema() + ",\n\"workflow\": "@ + workflow_schema() + "\n}"@)
    } else {
        Err(ErrorView::Usage("unknown schema `"@ + word + "`; use config, workflow, or all"@))
    }
}

fn make_schema(title: &str, keys: &[&str]) -> (r: String)
    ensures
        r@ == schema_for(title@, slices(keys@)),
{
    let ghost all = key_lines(slices(keys@));
    let mut lines: Vec<String> = Vec::new();
    let mut i: usize = 0;
    assert(texts(lines@) =~= all.take(0));
    while i < keys.len()
        invariant
            i <= keys@.len(),
            all == key_lines(slices(keys@)),
            texts(lines@) == all.take(i as int),
        decreases keys.len() - i,
    {
        assert(slices(keys@)[i as int] == keys@[i as int]@);
        let quoted = cat3("\"", keys[i], "\"");
        let line = cat3("    ", quoted.as_str(), ": {}");
        assert(all[i as int] == line@);
        lines.push(line);
        i += 1;
    }
    assert(all.take(i as int) =~= all);
    let body = join(lines.as_slice(), ",\n");
    let quoted = cat3("\"", title, "\"");
    cat5(
        "{\n  \"title\": ",
        quoted.as_str(),
        ",\n  \"type\": \"object\",\n  \"additionalProperties\": false,\n  \"properties\": {\n",
        body.as_str(),
        "\n  }\n}",
    )
}

/// The schema for a word.
pub fn schema_text(subject: Option<&str>) -> (r: Result<String, CiError>)
    ensures
        outcome(r) == schema_named(opt_slice(subject)),
{
    let word = match subject {
        Some(word) => word,
        None => "all",
    };
    let workflow_list = workflow_key_list();
    let config_list = config_key_list();
    let workflow = make_schema("ci native workflow", workflow_list.as_slice());
    let config = make_schema("ci config", config_list.as_slice());
    if same(word, "workflow") {
        Ok(workflow)
    } else if same(word, "config") {
        Ok(config)
    } else if same(word, "all") {
        Ok(cat5("{\n\"config\": ", config.as_str(), ",\n\"workflow\": ", workflow.as_str(), "\n}"))
    } else {
        Err(usage(cat3("unknown schema `", word, "`; use config, workflow, or all")))
    }
}

/// What a text holds is held by one around it.
pub proof fn lemma_within(a: Seq<char>, s: Seq<char>, b: Seq<char>, needle: Seq<char>)
    requires
        has_text(s, needle),
    ensures
        has_text(a + s + b, needle),
{
    let i = choose|i: int| #[trigger] occurs_at(s, needle, i);
    let whole = a + s + b;
    let at = a.len() + i;
    assert(whole.subrange(at, at + needle.len()) =~= s.subrange(i, i + needle.len()));
    assert(occurs_at(whole, needle, at));
}

/// What a part holds is held by the parts put together.
pub proof fn lemma_join_holds(parts: Seq<Seq<char>>, sep: Seq<char>, i: int, needle: Seq<char>)
    requires
        0 <= i < parts.len(),
        has_text(parts[i], needle),
    ensures
        has_text(join_of(parts, sep), needle),
    decreases parts.len(),
{
    if parts.len() > 1 {
        let head = join_of(parts.drop_last(), sep);
        if i == parts.len() - 1 {
            lemma_within(head + sep, parts.last(), Seq::empty(), needle);
            assert(head + sep + parts.last() + Seq::<char>::empty() =~= head + sep + parts.last());
        } else {
            lemma_join_holds(parts.drop_last(), sep, i, needle);
            lemma_within(Seq::empty(), head, sep + parts.last(), needle);
            assert(Seq::<char>::empty() + head + (sep + parts.last()) =~= head + sep + parts.last());
        }
    }
}

/// Every key that a schema is made for stands in it, in quotes.
pub proof fn law_schemas_name_every_key(title: Seq<char>, keys: Seq<Seq<char>>, i: int)
    requires
        0 <= i < keys.len(),
    ensures
        has_text(schema_for(title, keys), quoted_key(keys[i])),
{
    let quoted = quoted_key(keys[i]);
    let lines = key_lines(keys);
    assert(occurs_at(quoted, quoted, 0)) by {
        assert(quoted.subrange(0, quoted.len() as int) =~= quoted);
    }
    lemma_within("    "@, quoted, ": {}"@, quoted);
    assert(lines[i] == "    "@ + quoted + ": {}"@);
    lemma_join_holds(lines, ",\n"@, i, quoted);
    let head = "{\n  \"title\": "@ + quoted_key(title)
        + ",\n  \"type\": \"object\",\n  \"additionalProperties\": false,\n  \"properties\": {\n"@;
    lemma_within(head, join_of(lines, ",\n"@), "\n  }\n}"@, quoted);
}

/// A schema is asked for by name, and names every key of its kind; without a name both are
/// given, and an unknown name is wrong use.
pub proof fn law_schemas_by_name(i: int, j: int, word: Seq<char>)
    requires
        0 <= i < workflow_keys().len(),
        0 <= j < config_keys().len(),
    ensures
        schema_named(None) == schema_named(Some("all"@)),
        schema_named(Some("workflow"@)) matches Ok(t) && has_text(t, quoted_key(workflow_keys()[i])) && t == schema_for(
            "ci native workflow"@,
            workflow_keys(),
        ),
        schema_named(Some("config"@)) matches Ok(t) && has_text(t, quoted_key(config_keys()[j])) && t == schema_for(
            "ci config"@,
            config_keys(),
        ),
        schema_named(None) matches Ok(t) && has_text(t, quoted_key(workflow_keys()[i])) && has_text(
            t,
            quoted_key(config_keys()[j]),
        ),
        word != "workflow"@ && word != "config"@ && word != "all"@ ==> schema_named(Some(word)) is Err && schema_named(
            Some(word),
        )->Err_0.code() == 2,
{
    reveal_strlit("workflow");
    reveal_strlit("config");
    reveal_strlit("all");
    assert("config"@.len() != "workflow"@.len());
    assert("all"@.len() != "workflow"@.len());
    assert("all"@.len() != "config"@.len());
    law_schemas_name_every_key("ci native workflow"@, workflow_keys(), i);
    law_schemas_name_every_key("ci config"@, config_keys(), j);
    let a = "{\n\"config\": "@;
    let b = ",\n\"workflow\": "@;
    let c = "\n}"@;
    let w = quoted_key(workflow_keys()[i]);
    let k = quoted_key(config_keys()[j]);
    let whole = a + config_schema() + b + workflow_schema() + c;
    lemma_within(a, config_schema(), b + workflow_schema() + c, k);
    assert(a + config_schema() + (b + workflow_schema() + c) =~= whole);
    lemma_within(a + config_schema() + b, workflow_schema(), c, w);
}

} // verus!
