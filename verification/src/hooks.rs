//! The Git hooks that the tool stands in for.

use crate::conditions::lemma_single_piece;
use crate::error::{CiError, ErrorView, usage};
use crate::paths::lemma_split_concat;
use crate::strings::{cat3, one_of, same, split_char, trim};
use crate::text::{
    join_of, lemma_slices_push, lemma_take_push, lemma_texts_push, opt_slice, slices, split_at_char,
    texts, trimmed,
};
use vstd::prelude::*;
use vstd::string::*;

verus! {

broadcast use {lemma_texts_push, lemma_take_push, lemma_slices_push};

/// The hooks that Git runs in a working repository.
pub open spec fn client_hook_names() -> Seq<Seq<char>> {
    seq![
        "applypatch-msg"@,
        "pre-applypatch"@,
        "post-applypatch"@,
        "pre-commit"@,
        "pre-merge-commit"@,
        "prepare-commit-msg"@,
        "commit-msg"@,
        "post-commit"@,
        "pre-rebase"@,
        "post-checkout"@,
        "post-merge"@,
        "pre-push"@,
        "pre-auto-gc"@,
        "post-rewrite"@,
        "sendemail-validate"@,
        "fsmonitor-watchman"@,
        "p4-changelist"@,
        "p4-prepare-changelist"@,
        "p4-post-changelist"@,
        "p4-pre-submit"@,
        "post-index-change"@,
    ]
}

/// The hooks that Git runs in a repository that is pushed to.
pub open spec fn server_hook_names() -> Seq<Seq<char>> {
    seq![
        "pre-receive"@,
        "update"@,
        "proc-receive"@,
        "post-receive"@,
        "post-update"@,
        "reference-transaction"@,
        "push-to-checkout"@,
        "pre-auto-gc"@,
    ]
}

/// A list with the items of another one behind it that it does not hold yet.
pub open spec fn add_distinct<T>(base: Seq<T>, more: Seq<T>) -> Seq<T>
    decreases more.len(),
{
    if more.len() == 0 {
        base
    } else {
        let head = add_distinct(base, more.drop_last());
        if head.contains(more.last()) {
            head
        } else {
            head.push(more.last())
        }
    }
}

/// Every hook, each once.
pub open spec fn all_hook_names() -> Seq<Seq<char>> {
    add_distinct(client_hook_names(), server_hook_names())
}

/// Whether Git knows a hook of that name.
pub open spec fn known_hook(name: Seq<char>) -> bool {
    client_hook_names().contains(name) || server_hook_names().contains(name)
}

/// The items of a list with `c` between them, without blanks around them; blank items
/// do not count.
pub open spec fn items_between(s: Seq<char>, c: char) -> Seq<Seq<char>> {
    clean_items(split_at_char(s, c))
}

/// Texts without blanks around them; blank ones do not count.
pub open spec fn clean_items(pieces: Seq<Seq<char>>) -> Seq<Seq<char>>
    decreases pieces.len(),
{
    if pieces.len() == 0 {
        Seq::empty()
    } else {
        let item = trimmed(pieces.last());
        if item.len() == 0 {
            clean_items(pieces.drop_last())
        } else {
            clean_items(pieces.drop_last()).push(item)
        }
    }
}

/// The first of the names that is no hook.
pub open spec fn first_unknown(names: Seq<Seq<char>>) -> Option<Seq<char>>
    decreases names.len(),
{
    if names.len() == 0 {
        None
    } else if first_unknown(names.drop_last()) is Some {
        first_unknown(names.drop_last())
    } else if known_hook(names.last()) {
        None
    } else {
        Some(names.last())
    }
}

/// The hooks that an option asks for: a group or a list of names. Without an option a
/// bare repository asks for the server's hooks, any other for the client's.
pub open spec fn requested_hooks(input: Option<Seq<char>>, is_bare: bool) -> Result<Seq<Seq<char>>, ErrorView> {
    let requested = match input {
        Some(s) => s,
        None => if is_bare {
            "server"@
        } else {
            "client"@
        },
    };
    if requested == "all"@ {
        Ok(all_hook_names())
    } else if requested == "client"@ {
        Ok(client_hook_names())
    } else if requested == "server"@ {
        Ok(server_hook_names())
    } else {
        let names = items_between(requested, ',');
        match first_unknown(names) {
            Some(name) => Err(ErrorView::Usage("unknown Git hook `"@ + name + "`"@)),
            None => Ok(names),
        }
    }
}

/// The hooks that Git runs in a working repository.
pub fn client_hooks() -> (r: Vec<&'static str>)
    ensures
        slices(r@) == client_hook_names(),
{
    let out = vec![
        "applypatch-msg",
        "pre-applypatch",
        "post-applypatch",
        "pre-commit",
        "pre-merge-commit",
        "prepare-commit-msg",
        "commit-msg",
        "post-commit",
        "pre-rebase",
        "post-checkout",
        "post-merge",
        "pre-push",
        "pre-auto-gc",
        "post-rewrite",
        "sendemail-validate",
        "fsmonitor-watchman",
        "p4-changelist",
        "p4-prepare-changelist",
        "p4-post-changelist",
        "p4-pre-submit",
        "post-index-change",
    ];
    assert(slices(out@) =~= client_hook_names());
    out
}

/// The hooks that Git runs in a repository that is pushed to.
pub fn server_hooks() -> (r: Vec<&'static str>)
    ensures
        slices(r@) == server_hook_names(),
{
    let out = vec![
        "pre-receive",
        "update",
        "proc-receive",
        "post-receive",
        "post-update",
        "reference-transaction",
        "push-to-checkout",
        "pre-auto-gc",
    ];
    assert(slices(out@) =~= server_hook_names());
    out
}

/// Whether Git knows a hook of that name.
pub fn is_known_hook(name: &str) -> (r: bool)
    ensures
        r == known_hook(name@),
{
    one_of(name, client_hooks().as_slice()) || one_of(name, server_hooks().as_slice())
}

/// Every hook, each once.
pub fn all_hooks() -> (r: Vec<&'static str>)
    ensures
        slices(r@) == all_hook_names(),
{
    let mut out = client_hooks();
    let more = server_hooks();
    let ghost all = server_hook_names();
    let mut i: usize = 0;
    while i < more.len()
        invariant
            i <= more@.len(),
            slices(more@) == all,
            slices(out@) == add_distinct(client_hook_names(), all.take(i as int)),
        decreases more.len() - i,
    {
        assert(all.take(i + 1).drop_last() =~= all.take(i as int));
        assert(all[i as int] == more@[i as int]@);
        if !one_of(more[i], out.as_slice()) {
            out.push(more[i]);
        }
        i += 1;
    }
    assert(all.take(i as int) =~= all);
    out
}

/// The items of a list with `c` between them.
pub fn list_items(s: &str, c: char) -> (r: Vec<String>)
    ensures
        texts(r@) == items_between(s@, c),
{
    let pieces = split_char(s, c);
    clean_list(pieces.as_slice())
}

/// Texts without blanks around them; blank ones do not count.
pub fn clean_list(pieces: &[String]) -> (r: Vec<String>)
    ensures
        texts(r@) == clean_items(texts(pieces@)),
{
    let ghost all = texts(pieces@);
    let mut out: Vec<String> = Vec::new();
    let mut i: usize = 0;
    assert(texts(out@) =~= clean_items(all.take(0)));
    while i < pieces.len()
        invariant
            i <= pieces@.len(),
            texts(pieces@) == all,
            texts(out@) == clean_items(all.take(i as int)),
        decreases pieces.len() - i,
    {
        assert(all.take(i + 1).drop_last() =~= all.take(i as int));
        let item = trim(pieces[i].as_str());
        if !item.is_empty() {
            out.push(item.to_owned());
        }
        i += 1;
    }
    assert(all.take(i as int) =~= all);
    out
}

/// The hook of that name.
fn find_hook(name: &str) -> (r: Option<&'static str>)
    ensures
        r matches Some(h) ==> h@ == name@ && known_hook(name@),
        r is None ==> !known_hook(name@),
{
    let all = all_hooks();
    proof {
        law_all_hooks_are_the_known_ones(name@);
    }
    let mut i: usize = 0;
    while i < all.len()
        invariant
            i <= all@.len(),
            slices(all@) == all_hook_names(),
            known_hook(name@) == all_hook_names().contains(name@),
            forall|j: int| 0 <= j < i ==> all@[j]@ != name@,
        decreases all.len() - i,
    {
        if same(all[i], name) {
            assert(slices(all@)[i as int] == name@);
            return Some(all[i]);
        }
        i += 1;
    }
    assert forall|j: int| 0 <= j < all_hook_names().len() implies all_hook_names()[j] != name@ by {
        assert(slices(all@)[j] == all@[j]@);
    }
    None
}

/// The hooks that an option asks for.
pub fn parse_hooks(input: Option<&str>, is_bare: bool) -> (r: Result<Vec<&'static str>, CiError>)
    ensures
        r matches Ok(hooks) ==> requested_hooks(opt_slice(input), is_bare) == Ok::<_, ErrorView>(slices(hooks@)),
        r matches Err(e) ==> requested_hooks(opt_slice(input), is_bare) == Err::<Seq<Seq<char>>, _>(e@),
{
    let requested = match input {
        Some(s) => s,
        None => if is_bare {
            "server"
        } else {
            "client"
        },
    };
    if same(requested, "all") {
        return Ok(all_hooks());
    }
    if same(requested, "client") {
        return Ok(client_hooks());
    }
    if same(requested, "server") {
        return Ok(server_hooks());
    }
    let items = list_items(requested, ',');
    let ghost names = items_between(requested@, ',');
    let mut hooks: Vec<&'static str> = Vec::new();
    let mut i: usize = 0;
    assert(slices(hooks@) =~= names.take(0));
    while i < items.len()
        invariant
            i <= items@.len(),
            texts(items@) == names,
            slices(hooks@) == names.take(i as int),
            first_unknown(names.take(i as int)) is None,
            names == items_between(requested@, ','),
            requested_hooks(opt_slice(input), is_bare) == match first_unknown(names) {
                Some(name) => Err::<Seq<Seq<char>>, ErrorView>(
                    ErrorView::Usage("unknown Git hook `"@ + name + "`"@),
                ),
                None => Ok(names),
            },
        decreases items.len() - i,
    {
        assert(names.take(i + 1).drop_last() =~= names.take(i as int));
        assert(names[i as int] == items@[i as int]@);
        match find_hook(items[i].as_str()) {
            Some(hook) => {
                hooks.push(hook);
            },
            None => {
                proof {
                    lemma_first_unknown_stays(names, i + 1);
                }
                return Err(usage(cat3("unknown Git hook `", items[i].as_str(), "`")));
            },
        }
        i += 1;
    }
    assert(names.take(i as int) =~= names);
    Ok(hooks)
}

proof fn lemma_first_unknown_stays(names: Seq<Seq<char>>, n: int)
    requires
        0 <= n <= names.len(),
        first_unknown(names.take(n)) is Some,
    ensures
        first_unknown(names) == first_unknown(names.take(n)),
    decreases names.len(),
{
    if n == names.len() {
        assert(names.take(n) =~= names);
    } else {
        assert(names.drop_last().take(n) =~= names.take(n));
        lemma_first_unknown_stays(names.drop_last(), n);
    }
}

/// What a list holds after new items were added, and that none occurs twice.
pub proof fn lemma_add_distinct<T>(base: Seq<T>, more: Seq<T>, x: T)
    ensures
        add_distinct(base, more).contains(x) == (base.contains(x) || more.contains(x)),
        base.no_duplicates() ==> add_distinct(base, more).no_duplicates(),
    decreases more.len(),
{
    if more.len() > 0 {
        let t = more.drop_last();
        let head = add_distinct(base, t);
        lemma_add_distinct(base, t, x);
        lemma_add_distinct(base, t, more.last());
        assert(more =~= t.push(more.last()));
        assert(more.contains(x) == (t.contains(x) || x == more.last())) by {
            if t.contains(x) {
                let i = choose|i: int| 0 <= i < t.len() && t[i] == x;
                assert(more[i] == x);
            }
            assert(more[more.len() - 1] == more.last());
        }
        let r = add_distinct(base, more);
        if !head.contains(more.last()) {
            assert(r.contains(x) == (head.contains(x) || x == more.last())) by {
                if head.contains(x) {
                    let i = choose|i: int| 0 <= i < head.len() && head[i] == x;
                    assert(r[i] == x);
                }
                assert(r[r.len() - 1] == more.last());
            }
        }
    }
}

/// The list of all hooks holds exactly the known ones.
pub proof fn law_all_hooks_are_the_known_ones(name: Seq<char>)
    ensures
        all_hook_names().contains(name) == known_hook(name),
{
    lemma_add_distinct(client_hook_names(), server_hook_names(), name);
}

/// The length of a name and its fifth letter: no two hooks of the client agree in both.
spec fn mark_of(name: Seq<char>) -> int {
    1000 * name.len() + name[4] as int
}

/// The list of all hooks names each of them once.
pub proof fn law_hooks_are_listed_once()
    ensures
        all_hook_names().no_duplicates(),
{
    reveal_strlit("applypatch-msg");
    reveal_strlit("pre-applypatch");
    reveal_strlit("post-applypatch");
    reveal_strlit("pre-commit");
    reveal_strlit("pre-merge-commit");
    reveal_strlit("prepare-commit-msg");
    reveal_strlit("commit-msg");
    reveal_strlit("post-commit");
    reveal_strlit("pre-rebase");
    reveal_strlit("post-checkout");
    reveal_strlit("post-merge");
    reveal_strlit("pre-push");
    reveal_strlit("pre-auto-gc");
    reveal_strlit("post-rewrite");
    reveal_strlit("sendemail-validate");
    reveal_strlit("fsmonitor-watchman");
    reveal_strlit("p4-changelist");
    reveal_strlit("p4-prepare-changelist");
    reveal_strlit("p4-post-changelist");
    reveal_strlit("p4-pre-submit");
    reveal_strlit("post-index-change");
    let names = client_hook_names();
    let marks: Seq<int> = seq![
        14121,
        14097,
        15045,
        10099,
        16109,
        18097,
        10105,
        11045,
        10114,
        13045,
        10045,
        8112,
        11097,
        12045,
        18101,
        18110,
        13104,
        21114,
        18111,
        13114,
        17045,
    ];
    assert(names.map_values(|n: Seq<char>| mark_of(n)) =~= marks);
    assert forall|i: int, j: int| 0 <= i < j < names.len() implies names[i] != names[j] by {
        assert(mark_of(names[i]) == names.map_values(|n: Seq<char>| mark_of(n))[i]);
        assert(mark_of(names[j]) == names.map_values(|n: Seq<char>| mark_of(n))[j]);
        assert(marks[i] != marks[j]);
    }
    assert(names.no_duplicates());
    lemma_add_distinct(names, server_hook_names(), names[0]);
}

/// Every hook that an option asks for is a known one.
pub proof fn law_requested_hooks_are_known(input: Option<Seq<char>>, is_bare: bool, i: int)
    requires
        requested_hooks(input, is_bare) is Ok,
        0 <= i < requested_hooks(input, is_bare)->Ok_0.len(),
    ensures
        known_hook(requested_hooks(input, is_bare)->Ok_0[i]),
{
    let hooks = requested_hooks(input, is_bare)->Ok_0;
    let requested = match input {
        Some(s) => s,
        None => if is_bare {
            "server"@
        } else {
            "client"@
        },
    };
    if requested == "all"@ {
        law_all_hooks_are_the_known_ones(hooks[i]);
        assert(all_hook_names().contains(hooks[i]));
    } else if requested == "client"@ {
        assert(client_hook_names().contains(hooks[i]));
    } else if requested == "server"@ {
        assert(server_hook_names().contains(hooks[i]));
    } else {
        lemma_first_unknown_none(hooks, i);
    }
}

proof fn lemma_first_unknown_none(names: Seq<Seq<char>>, i: int)
    requires
        first_unknown(names) is None,
        0 <= i < names.len(),
    ensures
        known_hook(names[i]),
    decreases names.len(),
{
    if i < names.len() - 1 {
        lemma_first_unknown_none(names.drop_last(), i);
    }
}

/// The name of a hook starts with a letter.
pub proof fn lemma_hook_names_are_words(name: Seq<char>)
    requires
        known_hook(name),
    ensures
        name.len() > 0,
        name[0] != '-',
{
    reveal_strlit("applypatch-msg");
    reveal_strlit("pre-applypatch");
    reveal_strlit("post-applypatch");
    reveal_strlit("pre-commit");
    reveal_strlit("pre-merge-commit");
    reveal_strlit("prepare-commit-msg");
    reveal_strlit("commit-msg");
    reveal_strlit("post-commit");
    reveal_strlit("pre-rebase");
    reveal_strlit("post-checkout");
    reveal_strlit("post-merge");
    reveal_strlit("pre-push");
    reveal_strlit("pre-auto-gc");
    reveal_strlit("post-rewrite");
    reveal_strlit("sendemail-validate");
    reveal_strlit("fsmonitor-watchman");
    reveal_strlit("p4-changelist");
    reveal_strlit("p4-prepare-changelist");
    reveal_strlit("p4-post-changelist");
    reveal_strlit("p4-pre-submit");
    reveal_strlit("post-index-change");
    reveal_strlit("pre-receive");
    reveal_strlit("update");
    reveal_strlit("proc-receive");
    reveal_strlit("post-receive");
    reveal_strlit("post-update");
    reveal_strlit("reference-transaction");
    reveal_strlit("push-to-checkout");
    if client_hook_names().contains(name) {
        let i = choose|i: int| 0 <= i < client_hook_names().len() && client_hook_names()[i] == name;
        assert(name[0] != '-');
    } else {
        let i = choose|i: int| 0 <= i < server_hook_names().len() && server_hook_names()[i] == name;
        assert(name[0] != '-');
    }
}

/// Hooks are asked for by group, whatever the repository; without a word a bare repository
/// gets those of the server and any other those of the client.
pub proof fn law_groups_of_hooks(is_bare: bool, hook: Seq<char>)
    ensures
        ({
            let client = requested_hooks(Some("client"@), is_bare);
            let server = requested_hooks(Some("server"@), is_bare);
            let all = requested_hooks(Some("all"@), is_bare);
            &&& client is Ok && server is Ok && all is Ok
            &&& all->Ok_0.contains(hook) == (client->Ok_0.contains(hook) || server->Ok_0.contains(hook))
            &&& requested_hooks(None, false) == requested_hooks(Some("client"@), is_bare)
            &&& requested_hooks(None, true) == requested_hooks(Some("server"@), is_bare)
            &&& client->Ok_0.contains("pre-commit"@) && client->Ok_0.contains("pre-push"@) && client->Ok_0.contains(
                "commit-msg"@,
            )
            &&& server->Ok_0.contains("pre-receive"@) && server->Ok_0.contains("update"@) && server->Ok_0.contains(
                "post-receive"@,
            )
            &&& !client->Ok_0.contains("update"@) && !server->Ok_0.contains("pre-commit"@)
        }),
{
    reveal_strlit("all");
    reveal_strlit("client");
    reveal_strlit("server");
    assert("client"@.len() != "all"@.len());
    assert("server"@.len() != "all"@.len());
    assert("server"@[0] != "client"@[0]);
    law_all_hooks_are_the_known_ones(hook);
    let c = client_hook_names();
    let s = server_hook_names();
    assert(c[3] == "pre-commit"@);
    assert(c[11] == "pre-push"@);
    assert(c[6] == "commit-msg"@);
    assert(s[0] == "pre-receive"@);
    assert(s[1] == "update"@);
    assert(s[3] == "post-receive"@);
    reveal_strlit("applypatch-msg");
    reveal_strlit("pre-applypatch");
    reveal_strlit("post-applypatch");
    reveal_strlit("pre-commit");
    reveal_strlit("pre-merge-commit");
    reveal_strlit("prepare-commit-msg");
    reveal_strlit("commit-msg");
    reveal_strlit("post-commit");
    reveal_strlit("pre-rebase");
    reveal_strlit("post-checkout");
    reveal_strlit("post-merge");
    reveal_strlit("pre-push");
    reveal_strlit("pre-auto-gc");
    reveal_strlit("post-rewrite");
    reveal_strlit("sendemail-validate");
    reveal_strlit("fsmonitor-watchman");
    reveal_strlit("p4-changelist");
    reveal_strlit("p4-prepare-changelist");
    reveal_strlit("p4-post-changelist");
    reveal_strlit("p4-pre-submit");
    reveal_strlit("post-index-change");
    reveal_strlit("pre-receive");
    reveal_strlit("update");
    reveal_strlit("proc-receive");
    reveal_strlit("post-receive");
    reveal_strlit("post-update");
    reveal_strlit("reference-transaction");
    reveal_strlit("push-to-checkout");
    assert("update"@.len() != "applypatch-msg"@.len());
    assert("update"@.len() != "pre-applypatch"@.len());
    assert("update"@.len() != "post-applypatch"@.len());
    assert("update"@.len() != "pre-commit"@.len());
    assert("update"@.len() != "pre-merge-commit"@.len());
    assert("update"@.len() != "prepare-commit-msg"@.len());
    assert("update"@.len() != "commit-msg"@.len());
    assert("update"@.len() != "post-commit"@.len());
    assert("update"@.len() != "pre-rebase"@.len());
    assert("update"@.len() != "post-checkout"@.len());
    assert("update"@.len() != "post-merge"@.len());
    assert("update"@.len() != "pre-push"@.len());
    assert("update"@.len() != "pre-auto-gc"@.len());
    assert("update"@.len() != "post-rewrite"@.len());
    assert("update"@.len() != "sendemail-validate"@.len());
    assert("update"@.len() != "fsmonitor-watchman"@.len());
    assert("update"@.len() != "p4-changelist"@.len());
    assert("update"@.len() != "p4-prepare-changelist"@.len());
    assert("update"@.len() != "p4-post-changelist"@.len());
    assert("update"@.len() != "p4-pre-submit"@.len());
    assert("update"@.len() != "post-index-change"@.len());
    assert("pre-commit"@.len() != "pre-receive"@.len());
    assert("pre-commit"@.len() != "update"@.len());
    assert("pre-commit"@.len() != "proc-receive"@.len());
    assert("pre-commit"@.len() != "post-receive"@.len());
    assert("pre-commit"@.len() != "post-update"@.len());
    assert("pre-commit"@.len() != "reference-transaction"@.len());
    assert("pre-commit"@.len() != "push-to-checkout"@.len());
    assert("pre-commit"@.len() != "pre-auto-gc"@.len());
}

/// Names that are written out, with commas between them, ask for just these hooks, in that
/// order.
pub proof fn law_hooks_by_name(names: Seq<Seq<char>>, is_bare: bool)
    requires
        names.len() > 0,
        forall|i: int|
            0 <= i < names.len() ==> (#[trigger] names[i]).len() > 0 && trimmed(names[i]) == names[i] && !names[i].contains(',')
                && known_hook(names[i]),
        join_of(names, ","@) != "all"@ && join_of(names, ","@) != "client"@ && join_of(names, ","@) != "server"@,
    ensures
        requested_hooks(Some(join_of(names, ","@)), is_bare) == Ok::<_, ErrorView>(names),
{
    lemma_split_of_join(names);
    lemma_clean_kept(names);
    lemma_all_known(names);
}

proof fn lemma_split_of_join(names: Seq<Seq<char>>)
    requires
        names.len() > 0,
        forall|i: int| 0 <= i < names.len() ==> !(#[trigger] names[i]).contains(','),
    ensures
        split_at_char(join_of(names, ","@), ',') == names,
    decreases names.len(),
{
    reveal_strlit(",");
    lemma_single_piece(names.last(), ',');
    if names.len() == 1 {
        assert(seq![names.last()] =~= names);
    } else {
        let head = names.drop_last();
        assert forall|i: int| 0 <= i < head.len() implies !(#[trigger] head[i]).contains(',') by {
            assert(head[i] == names[i]);
        }
        lemma_split_of_join(head);
        let a = join_of(head, ","@);
        assert(join_of(names, ","@) =~= a.push(',') + names.last());
        lemma_split_concat(a, names.last(), ',');
        assert(head + seq![names.last()] =~= names);
    }
}

proof fn lemma_clean_kept(names: Seq<Seq<char>>)
    requires
        forall|i: int| 0 <= i < names.len() ==> (#[trigger] names[i]).len() > 0 && trimmed(names[i]) == names[i],
    ensures
        clean_items(names) == names,
    decreases names.len(),
{
    if names.len() > 0 {
        let head = names.drop_last();
        assert forall|i: int| 0 <= i < head.len() implies (#[trigger] head[i]).len() > 0 && trimmed(head[i]) == head[i] by {
            assert(head[i] == names[i]);
        }
        lemma_clean_kept(head);
        assert(trimmed(names[names.len() - 1]) == names.last());
        assert(head.push(names.last()) =~= names);
    }
}

proof fn lemma_all_known(names: Seq<Seq<char>>)
    requires
        forall|i: int| 0 <= i < names.len() ==> known_hook(#[trigger] names[i]),
    ensures
        first_unknown(names) is None,
    decreases names.len(),
{
    if names.len() > 0 {
        let head = names.drop_last();
        assert forall|i: int| 0 <= i < head.len() implies known_hook(#[trigger] head[i]) by {
            assert(head[i] == names[i]);
        }
        lemma_all_known(head);
        assert(known_hook(names[names.len() - 1]));
    }
}

/// The first name that is no hook is the one that is complained of.
pub proof fn law_the_first_unknown_hook(names: Seq<Seq<char>>, i: int)
    requires
        0 <= i < names.len(),
        !known_hook(names[i]),
        forall|k: int| 0 <= k < i ==> known_hook(#[trigger] names[k]),
    ensures
        first_unknown(names) == Some(names[i]),
    decreases names.len(),
{
    let head = names.drop_last();
    if i == names.len() - 1 {
        assert forall|k: int| 0 <= k < head.len() implies known_hook(#[trigger] head[k]) by {
            assert(head[k] == names[k]);
        }
        lemma_all_known(head);
    } else {
        assert(head[i] == names[i]);
        assert forall|k: int| 0 <= k < i implies known_hook(#[trigger] head[k]) by {
            assert(head[k] == names[k]);
        }
        law_the_first_unknown_hook(head, i);
    }
}

} // verus!
