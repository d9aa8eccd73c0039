//! Things that need one another, put in an order in which everything comes after what
//! it needs.

use crate::error::{CiError, ErrorView, message};
use crate::hooks::{add_distinct, lemma_add_distinct};
use crate::strings::{cat5, same};
use crate::text::{lemma_take_push, texts};
use vstd::prelude::*;
use vstd::string::*;

verus! {

broadcast use lemma_take_push;

/// Something that needs others, by their names.
pub struct Node {
    pub id: String,
    pub needs: Vec<String>,
}

/// A node by its texts.
pub struct NodeView {
    pub id: Seq<char>,
    pub needs: Seq<Seq<char>>,
}

impl View for Node {
    type V = NodeView;

    open spec fn view(&self) -> NodeView {
        NodeView { id: self.id@, needs: texts(self.needs@) }
    }
}

/// Nodes by their texts.
pub open spec fn node_views(nodes: Seq<Node>) -> Seq<NodeView> {
    nodes.map_values(|n: Node| n@)
}

/// The position of the last node of a name: a later one replaces an earlier one.
pub open spec fn node_named(nodes: Seq<NodeView>, id: Seq<char>) -> Option<int>
    decreases nodes.len(),
{
    if nodes.len() == 0 {
        None
    } else if nodes.last().id == id {
        Some(nodes.len() - 1)
    } else {
        node_named(nodes.drop_last(), id)
    }
}

/// What is said of a node that needs itself.
pub open spec fn cyclic_error(noun: Seq<char>, id: Seq<char>) -> ErrorView {
    ErrorView::Message("cyclic "@ + noun + " dependency involving `"@ + id + "`"@)
}

/// What is said of a need that is no node.
pub open spec fn unknown_error(noun: Seq<char>, id: Seq<char>) -> ErrorView {
    ErrorView::Message("unknown "@ + noun + " dependency `"@ + id + "`"@)
}

/// The order after the wanted nodes, one by one, each after everything that it needs.
/// `open` are the nodes that wait for what they need; meeting one of them again is a
/// cycle. (There are never more of them than nodes.)
pub open spec fn visit(
    nodes: Seq<NodeView>,
    noun: Seq<char>,
    wanted: Seq<Seq<char>>,
    open: Seq<int>,
    order: Seq<int>,
) -> Result<Seq<int>, ErrorView>
    decreases nodes.len() - open.len(), wanted.len(),
{
    if wanted.len() == 0 {
        Ok(order)
    } else {
        match visit(nodes, noun, wanted.drop_last(), open, order) {
            Err(e) => Err(e),
            Ok(done) => {
                let id = wanted.last();
                match node_named(nodes, id) {
                    None => Err(unknown_error(noun, id)),
                    Some(at) => if done.contains(at) {
                        Ok(done)
                    } else if open.contains(at) || open.len() >= nodes.len() {
                        Err(cyclic_error(noun, id))
                    } else {
                        match visit(nodes, noun, nodes[at].needs, open.push(at), done) {
                            Err(e) => Err(e),
                            Ok(rest) => Ok(rest.push(at)),
                        }
                    },
                }
            },
        }
    }
}

/// The order of the wanted nodes and of what they need.
pub open spec fn needed_order(nodes: Seq<NodeView>, noun: Seq<char>, wanted: Seq<Seq<char>>) -> Result<Seq<int>, ErrorView> {
    visit(nodes, noun, wanted, Seq::empty(), Seq::empty())
}

/// The names of nodes.
pub open spec fn node_ids(nodes: Seq<NodeView>) -> Seq<Seq<char>> {
    nodes.map_values(|n: NodeView| n.id)
}

/// Positions as numbers.
pub open spec fn positions(v: Seq<usize>) -> Seq<int> {
    v.map_values(|x: usize| x as int)
}

proof fn lemma_node_named(nodes: Seq<NodeView>, id: Seq<char>)
    ensures
        node_named(nodes, id) matches Some(at) ==> 0 <= at < nodes.len() && nodes[at].id == id,
        node_named(nodes, id) is None ==> forall|i: int| 0 <= i < nodes.len() ==> (#[trigger] nodes[i]).id != id,
    decreases nodes.len(),
{
    if nodes.len() > 0 {
        lemma_node_named(nodes.drop_last(), id);
        assert forall|i: int| 0 <= i < nodes.len() && node_named(nodes, id) is None implies (#[trigger] nodes[i]).id
            != id by {
            if i < nodes.len() - 1 {
                assert(nodes.drop_last()[i] == nodes[i]);
            }
        }
    }
}

/// The position of the last node of a name.
fn find_node(nodes: &[Node], id: &str) -> (r: Option<usize>)
    ensures
        match r {
            Some(at) => node_named(node_views(nodes@), id@) == Some(at as int) && at < nodes@.len(),
            None => node_named(node_views(nodes@), id@) is None,
        },
{
    let ghost all = node_views(nodes@);
    let mut i: usize = nodes.len();
    assert(all.take(i as int) =~= all);
    while i > 0
        invariant
            i <= nodes@.len(),
            all == node_views(nodes@),
            node_named(all, id@) == node_named(all.take(i as int), id@),
        decreases i,
    {
        assert(all.take(i as int).drop_last() =~= all.take(i - 1));
        if same(nodes[i - 1].id.as_str(), id) {
            return Some(i - 1);
        }
        i -= 1;
    }
    None
}

/// Whether a position is in a list.
fn has_position(list: &Vec<usize>, x: usize) -> (r: bool)
    ensures
        r == positions(list@).contains(x as int),
{
    let mut i: usize = 0;
    while i < list.len()
        invariant
            i <= list@.len(),
            forall|j: int| 0 <= j < i ==> list@[j] != x,
        decreases list.len() - i,
    {
        if list[i] == x {
            assert(positions(list@)[i as int] == x as int);
            return true;
        }
        i += 1;
    }
    false
}

proof fn lemma_positions_push(v: Seq<usize>, x: usize)
    ensures
        positions(v.push(x)) == positions(v).push(x as int),
{
    assert(positions(v.push(x)) =~= positions(v).push(x as int));
}

/// Distinct positions below `n` are at most `n`.
proof fn lemma_few_positions(s: Seq<int>, n: int)
    requires
        s.no_duplicates(),
        forall|i: int| 0 <= i < s.len() ==> 0 <= #[trigger] s[i] < n,
        0 <= n,
    ensures
        s.len() <= n,
{
    s.unique_seq_to_set();
    let all = vstd::set_lib::set_int_range(0, n);
    vstd::set_lib::lemma_int_range(0, n);
    assert(s.to_set().subset_of(all)) by {
        assert forall|x: int| s.to_set().contains(x) implies all.contains(x) by {
            let i = choose|i: int| 0 <= i < s.len() && s[i] == x;
            assert(s[i] == x);
        }
    }
    vstd::set_lib::lemma_len_subset(s.to_set(), all);
}

proof fn lemma_visit_error_stays(
    nodes: Seq<NodeView>,
    noun: Seq<char>,
    wanted: Seq<Seq<char>>,
    open: Seq<int>,
    order: Seq<int>,
    n: int,
)
    requires
        0 <= n <= wanted.len(),
        visit(nodes, noun, wanted.take(n), open, order) is Err,
    ensures
        visit(nodes, noun, wanted, open, order) == visit(nodes, noun, wanted.take(n), open, order),
    decreases wanted.len(),
{
    if n == wanted.len() {
        assert(wanted.take(n) =~= wanted);
    } else {
        assert(wanted.drop_last().take(n) =~= wanted.take(n));
        lemma_visit_error_stays(nodes, noun, wanted.drop_last(), open, order, n);
    }
}

/// Appends the wanted nodes to the order, each after everything that it needs.
fn visit_nodes(
    nodes: &[Node],
    noun: &str,
    wanted: &[String],
    open: &mut Vec<usize>,
    order: &mut Vec<usize>,
) -> (r: Result<(), CiError>)
    requires
        positions(old(open)@).no_duplicates(),
        forall|i: int| 0 <= i < old(open)@.len() ==> #[trigger] old(open)@[i] < nodes@.len(),
        forall|i: int| 0 <= i < old(order)@.len() ==> #[trigger] old(order)@[i] < nodes@.len(),
    ensures
        match r {
            Ok(_) => visit(node_views(nodes@), noun@, texts(wanted@), positions(old(open)@), positions(old(order)@)) == Ok::<
                _,
                ErrorView,
            >(positions(final(order)@)) && final(open)@ == old(open)@,
            Err(e) => visit(node_views(nodes@), noun@, texts(wanted@), positions(old(open)@), positions(old(order)@)) == Err::<
                Seq<int>,
                _,
            >(e@),
        },
        r is Ok ==> forall|i: int| 0 <= i < final(order)@.len() ==> #[trigger] final(order)@[i] < nodes@.len(),
    decreases nodes@.len() - old(open)@.len(),
{
    let ghost all = texts(wanted@);
    let ghost open0 = open@;
    let ghost order0 = order@;
    let mut i: usize = 0;
    while i < wanted.len()
        invariant
            i <= wanted@.len(),
            all == texts(wanted@),
            open@ == open0,
            positions(open0).no_duplicates(),
            forall|k: int| 0 <= k < open0.len() ==> #[trigger] open0[k] < nodes@.len(),
            forall|k: int| 0 <= k < order@.len() ==> #[trigger] order@[k] < nodes@.len(),
            visit(node_views(nodes@), noun@, all.take(i as int), positions(open0), positions(order0)) == Ok::<_, ErrorView>(
                positions(order@),
            ),
            open0 == old(open)@,
            order0 == old(order)@,
        decreases wanted.len() - i,
    {
        assert(all.take(i + 1).drop_last() =~= all.take(i as int));
        assert(all[i as int] == wanted@[i as int]@);
        let ghost done = order@;
        let id = wanted[i].as_str();
        let at = match find_node(nodes, id) {
            Some(at) => at,
            None => {
                proof {
                    lemma_visit_error_stays(node_views(nodes@), noun@, all, positions(open0), positions(order0), i + 1);
                }
                return Err(message(cat5("unknown ", noun, " dependency `", id, "`")));
            },
        };
        if !has_position(order, at) {
            proof {
                lemma_few_positions(positions(open0), nodes@.len() as int);
            }
            if has_position(open, at) {
                proof {
                    lemma_visit_error_stays(node_views(nodes@), noun@, all, positions(open0), positions(order0), i + 1);
                }
                return Err(message(cat5("cyclic ", noun, " dependency involving `", id, "`")));
            }
            proof {
                lemma_positions_push(open0, at);
                let more = positions(open0).push(at as int);
                assert(more.no_duplicates());
                assert forall|k: int| 0 <= k < more.len() implies 0 <= #[trigger] more[k] < nodes@.len() by {
                    if k < open0.len() {
                        assert(more[k] == open0[k] as int);
                    }
                }
                lemma_few_positions(more, nodes@.len() as int);
            }
            open.push(at);
            match visit_nodes(nodes, noun, nodes[at].needs.as_slice(), open, order) {
                Ok(_) => {},
                Err(e) => {
                    proof {
                        lemma_visit_error_stays(node_views(nodes@), noun@, all, positions(open0), positions(order0), i + 1);
                    }
                    return Err(e);
                },
            }
            open.pop();
            assert(open@ =~= open0);
            proof {
                lemma_positions_push(order@, at);
            }
            order.push(at);
        }
        i += 1;
    }
    assert(all.take(i as int) =~= all);
    Ok(())
}

/// The order of the wanted nodes and of what they need: positions in `nodes`.
pub fn order_needed(nodes: &[Node], noun: &str, wanted: &[String]) -> (r: Result<Vec<usize>, CiError>)
    ensures
        match r {
            Ok(order) => needed_order(node_views(nodes@), noun@, texts(wanted@)) == Ok::<_, ErrorView>(positions(order@))
                && forall|i: int| 0 <= i < order@.len() ==> #[trigger] order@[i] < nodes@.len(),
            Err(e) => needed_order(node_views(nodes@), noun@, texts(wanted@)) == Err::<Seq<int>, _>(e@),
        },
{
    let mut open: Vec<usize> = Vec::new();
    let mut order: Vec<usize> = Vec::new();
    assert(positions(open@) =~= Seq::<int>::empty());
    match visit_nodes(nodes, noun, wanted, &mut open, &mut order) {
        Ok(_) => Ok(order),
        Err(e) => Err(e),
    }
}

/// Whether everything in an order comes after what it needs.
pub open spec fn after_needs(nodes: Seq<NodeView>, order: Seq<int>) -> bool {
    forall|k: int, j: int|
        0 <= k < order.len() && 0 <= j < nodes[order[k]].needs.len()
            ==> #[trigger] need_is_met(nodes, order, k, j)
}

/// Whether the `j`th need of the `k`th in an order comes before it.
pub open spec fn need_is_met(nodes: Seq<NodeView>, order: Seq<int>, k: int, j: int) -> bool {
    match node_named(nodes, nodes[order[k]].needs[j]) {
        Some(at) => order.take(k).contains(at),
        None => false,
    }
}

/// What holds of every order that comes about.
spec fn sound(nodes: Seq<NodeView>, order: Seq<int>) -> bool {
    &&& order.no_duplicates()
    &&& forall|i: int| 0 <= i < order.len() ==> 0 <= #[trigger] order[i] < nodes.len()
    &&& after_needs(nodes, order)
}

proof fn lemma_visit_sound(nodes: Seq<NodeView>, noun: Seq<char>, wanted: Seq<Seq<char>>, open: Seq<int>, order: Seq<int>)
    requires
        sound(nodes, order),
        forall|i: int| 0 <= i < open.len() ==> !order.contains(#[trigger] open[i]),
        visit(nodes, noun, wanted, open, order) is Ok,
    ensures
        ({
            let r = visit(nodes, noun, wanted, open, order)->Ok_0;
            &&& sound(nodes, r)
            &&& order.is_prefix_of(r)
            &&& forall|i: int| 0 <= i < open.len() ==> !r.contains(#[trigger] open[i])
            &&& forall|i: int|
                0 <= i < wanted.len() ==> node_named(nodes, #[trigger] wanted[i]) is Some && r.contains(
                    node_named(nodes, wanted[i])->0,
                )
        }),
    decreases nodes.len() - open.len(), wanted.len(),
{
    if wanted.len() > 0 {
        let head = wanted.drop_last();
        lemma_visit_sound(nodes, noun, head, open, order);
        let done = visit(nodes, noun, head, open, order)->Ok_0;
        let id = wanted.last();
        let at = node_named(nodes, id)->0;
        lemma_node_named(nodes, id);
        let r = visit(nodes, noun, wanted, open, order)->Ok_0;
        assert forall|i: int| 0 <= i < head.len() implies node_named(nodes, #[trigger] wanted[i]) is Some
            && done.contains(node_named(nodes, wanted[i])->0) by {
            assert(head[i] == wanted[i]);
        }
        if !done.contains(at) {
            let needs = nodes[at].needs;
            let inner = open.push(at);
            assert forall|i: int| 0 <= i < inner.len() implies !done.contains(#[trigger] inner[i]) by {
                if i < open.len() {
                    assert(inner[i] == open[i]);
                }
            }
            lemma_visit_sound(nodes, noun, needs, inner, done);
            let rest = visit(nodes, noun, needs, inner, done)->Ok_0;
            assert(inner[open.len() as int] == at);
            assert(r == rest.push(at));
            assert(r.no_duplicates());
            assert(order.is_prefix_of(r)) by {
                assert(order =~= r.subrange(0, order.len() as int)) by {
                    assert(order =~= done.subrange(0, order.len() as int));
                    assert(done =~= rest.subrange(0, done.len() as int));
                    assert forall|i: int| 0 <= i < order.len() implies order[i] == r[i] by {
                        assert(order[i] == done.subrange(0, order.len() as int)[i]);
                        assert(done[i] == rest.subrange(0, done.len() as int)[i]);
                    }
                }
            }
            assert forall|k: int, j: int|
                0 <= k < r.len() && 0 <= j < nodes[r[k]].needs.len() implies #[trigger] need_is_met(
                nodes,
                r,
                k,
                j,
            ) by {
                if k < rest.len() {
                    assert(need_is_met(nodes, rest, k, j));
                    assert(r.take(k) =~= rest.take(k));
                } else {
                    assert(r.take(k) =~= rest);
                    assert(needs[j] == nodes[at].needs[j]);
                }
            }
            assert forall|i: int| 0 <= i < open.len() implies !r.contains(#[trigger] open[i]) by {
                assert(inner[i] == open[i]);
            }
            assert forall|x: int| done.contains(x) implies r.contains(x) by {
                let i = choose|i: int| 0 <= i < done.len() && done[i] == x;
                assert(done[i] == rest.subrange(0, done.len() as int)[i]);
                assert(r[i] == x);
            }
            assert(r[rest.len() as int] == at);
        }
        assert forall|i: int| 0 <= i < wanted.len() implies node_named(nodes, #[trigger] wanted[i]) is Some
            && r.contains(node_named(nodes, wanted[i])->0) by {}
    } else {
        assert(order.is_prefix_of(order)) by {
            assert(order =~= order.subrange(0, order.len() as int));
        }
    }
}

/// An order holds every wanted node, everything in it comes after what it needs, and
/// nothing occurs twice.
pub proof fn law_everything_comes_after_its_needs(nodes: Seq<NodeView>, noun: Seq<char>, wanted: Seq<Seq<char>>)
    requires
        needed_order(nodes, noun, wanted) is Ok,
    ensures
        ({
            let order = needed_order(nodes, noun, wanted)->Ok_0;
            &&& order.no_duplicates()
            &&& after_needs(nodes, order)
            &&& forall|i: int|
                0 <= i < wanted.len() ==> node_named(nodes, #[trigger] wanted[i]) is Some && order.contains(
                    node_named(nodes, wanted[i])->0,
                )
        }),
{
    lemma_visit_sound(nodes, noun, wanted, Seq::empty(), Seq::empty());
}

/// An order exists only where every need of everything in it is known.
pub proof fn law_unknown_needs_are_refused(nodes: Seq<NodeView>, noun: Seq<char>, wanted: Seq<Seq<char>>, i: int)
    requires
        0 <= i < wanted.len(),
        node_named(nodes, wanted[i]) is None,
    ensures
        needed_order(nodes, noun, wanted) is Err,
{
    if needed_order(nodes, noun, wanted) is Ok {
        law_everything_comes_after_its_needs(nodes, noun, wanted);
        assert(node_named(nodes, wanted[i]) is Some);
    }
}

/// Nothing that names itself among its needs can be put in an order.
pub proof fn law_no_order_for_a_node_that_needs_itself(nodes: Seq<NodeView>, noun: Seq<char>, wanted: Seq<Seq<char>>, at: int, j: int)
    requires
        0 <= at < nodes.len(),
        0 <= j < nodes[at].needs.len(),
        node_named(nodes, nodes[at].needs[j]) == Some(at),
        exists|i: int| 0 <= i < wanted.len() && node_named(nodes, #[trigger] wanted[i]) == Some(at),
    ensures
        needed_order(nodes, noun, wanted) is Err,
{
    if needed_order(nodes, noun, wanted) is Ok {
        law_everything_comes_after_its_needs(nodes, noun, wanted);
        let order = needed_order(nodes, noun, wanted)->Ok_0;
        let i = choose|i: int| 0 <= i < wanted.len() && node_named(nodes, #[trigger] wanted[i]) == Some(at);
        assert(order.contains(at));
        let k = choose|k: int| 0 <= k < order.len() && order[k] == at;
        assert(need_is_met(nodes, order, k, j));
        let m = choose|m: int| 0 <= m < order.take(k).len() && order.take(k)[m] == at;
        assert(order[m] == order[k]);
    }
}

/// The order of chosen nodes, given by their positions, and of what they need: each
/// chosen one after everything that it needs, and nothing twice.
pub open spec fn full_order(nodes: Seq<NodeView>, noun: Seq<char>, chosen: Seq<int>) -> Result<Seq<int>, ErrorView>
    decreases chosen.len(),
{
    if chosen.len() == 0 {
        Ok(Seq::empty())
    } else {
        match full_order(nodes, noun, chosen.drop_last()) {
            Err(e) => Err(e),
            Ok(head) => match needed_order(nodes, noun, nodes[chosen.last()].needs) {
                Err(e) => Err(e),
                Ok(before) => Ok(add_distinct(head, before.push(chosen.last()))),
            },
        }
    }
}

proof fn lemma_full_error_stays(nodes: Seq<NodeView>, noun: Seq<char>, chosen: Seq<int>, n: int)
    requires
        0 <= n <= chosen.len(),
        full_order(nodes, noun, chosen.take(n)) is Err,
    ensures
        full_order(nodes, noun, chosen) == full_order(nodes, noun, chosen.take(n)),
    decreases chosen.len() - n,
{
    if n == chosen.len() {
        assert(chosen.take(n) =~= chosen);
    } else {
        assert(chosen.take(n + 1).drop_last() =~= chosen.take(n));
        lemma_full_error_stays(nodes, noun, chosen, n + 1);
    }
}

/// Appends positions that a list does not hold yet.
fn append_distinct(list: &mut Vec<usize>, more: &[usize])
    ensures
        positions(final(list)@) == add_distinct(positions(old(list)@), positions(more@)),
        forall|i: int|
            0 <= i < final(list)@.len() ==> old(list)@.contains(#[trigger] final(list)@[i]) || more@.contains(
                final(list)@[i],
            ),
{
    let ghost start = list@;
    let ghost all = positions(more@);
    let mut i: usize = 0;
    assert(add_distinct(positions(start), all.take(0)) == positions(start));
    while i < more.len()
        invariant
            i <= more@.len(),
            all == positions(more@),
            start == old(list)@,
            positions(list@) == add_distinct(positions(start), all.take(i as int)),
            forall|k: int|
                0 <= k < list@.len() ==> start.contains(#[trigger] list@[k]) || more@.contains(list@[k]),
        decreases more.len() - i,
    {
        assert(all.take(i + 1).drop_last() =~= all.take(i as int));
        assert(all.take(i + 1).last() == more@[i as int]);
        let ghost before = list@;
        if !has_position(list, more[i]) {
            list.push(more[i]);
            proof {
                lemma_positions_push(before, more@[i as int]);
            }
            assert forall|k: int| 0 <= k < list@.len() implies start.contains(#[trigger] list@[k])
                || more@.contains(list@[k]) by {
                if k < before.len() {
                    assert(list@[k] == before[k]);
                }
            }
        }
        i += 1;
    }
    assert(all.take(i as int) =~= all);
}

/// The order of chosen nodes and of what they need: positions in `nodes`.
pub fn order_chosen(nodes: &[Node], noun: &str, chosen: &[usize]) -> (r: Result<Vec<usize>, CiError>)
    requires
        forall|i: int| 0 <= i < chosen@.len() ==> #[trigger] chosen@[i] < nodes@.len(),
    ensures
        match r {
            Ok(order) => full_order(node_views(nodes@), noun@, positions(chosen@)) == Ok::<_, ErrorView>(positions(order@))
                && forall|i: int| 0 <= i < order@.len() ==> #[trigger] order@[i] < nodes@.len(),
            Err(e) => full_order(node_views(nodes@), noun@, positions(chosen@)) == Err::<Seq<int>, _>(e@),
        },
{
    let ghost views = node_views(nodes@);
    let ghost all = positions(chosen@);
    let mut order: Vec<usize> = Vec::new();
    let mut i: usize = 0;
    assert(positions(order@) =~= Seq::<int>::empty());
    assert(all.take(0) =~= Seq::<int>::empty());
    while i < chosen.len()
        invariant
            i <= chosen@.len(),
            views == node_views(nodes@),
            all == positions(chosen@),
            forall|k: int| 0 <= k < chosen@.len() ==> #[trigger] chosen@[k] < nodes@.len(),
            full_order(views, noun@, all.take(i as int)) == Ok::<_, ErrorView>(positions(order@)),
            forall|k: int| 0 <= k < order@.len() ==> #[trigger] order@[k] < nodes@.len(),
        decreases chosen.len() - i,
    {
        let at = chosen[i];
        assert(all.take(i + 1).drop_last() =~= all.take(i as int));
        assert(all.take(i + 1).last() == at);
        assert(views[at as int] == nodes@[at as int]@);
        match order_needed(nodes, noun, nodes[at].needs.as_slice()) {
            Err(e) => {
                proof {
                    lemma_full_error_stays(views, noun@, all, i + 1);
                }
                return Err(e);
            },
            Ok(before) => {
                let mut before = before;
                let ghost had = before@;
                before.push(at);
                proof {
                    lemma_positions_push(had, at);
                }
                let ghost list = order@;
                append_distinct(&mut order, before.as_slice());
                assert forall|k: int| 0 <= k < order@.len() implies #[trigger] order@[k] < nodes@.len() by {
                    if list.contains(order@[k]) {
                        let j = choose|j: int| 0 <= j < list.len() && list[j] == order@[k];
                        assert(list[j] < nodes@.len());
                    } else {
                        let j = choose|j: int| 0 <= j < before@.len() && before@[j] == order@[k];
                        if j < had.len() {
                            assert(before@[j] == had[j]);
                        }
                    }
                }
            },
        }
        i += 1;
    }
    assert(all.take(i as int) =~= all);
    Ok(order)
}

proof fn lemma_add_distinct_after_needs(nodes: Seq<NodeView>, a: Seq<int>, b: Seq<int>)
    requires
        after_needs(nodes, a),
        after_needs(nodes, b),
    ensures
        after_needs(nodes, add_distinct(a, b)),
    decreases b.len(),
{
    if b.len() > 0 {
        let t = b.drop_last();
        assert forall|k: int, j: int|
            0 <= k < t.len() && 0 <= j < nodes[t[k]].needs.len() implies #[trigger] need_is_met(nodes, t, k, j) by {
            assert(t[k] == b[k]);
            assert(need_is_met(nodes, b, k, j));
            assert(t.take(k) =~= b.take(k));
        }
        lemma_add_distinct_after_needs(nodes, a, t);
        let head = add_distinct(a, t);
        let r = add_distinct(a, b);
        if !head.contains(b.last()) {
            assert forall|k: int, j: int|
                0 <= k < r.len() && 0 <= j < nodes[r[k]].needs.len() implies #[trigger] need_is_met(
                nodes,
                r,
                k,
                j,
            ) by {
                if k < head.len() {
                    assert(r[k] == head[k]);
                    assert(need_is_met(nodes, head, k, j));
                    assert(r.take(k) =~= head.take(k));
                } else {
                    assert(r[k] == b[b.len() - 1]);
                    assert(need_is_met(nodes, b, b.len() - 1, j));
                    assert(b.take(b.len() - 1) =~= t);
                    let at = node_named(nodes, nodes[b.last()].needs[j])->0;
                    lemma_add_distinct(a, t, at);
                    assert(r.take(k) =~= head);
                }
            }
        }
    }
}

/// What runs because of what was chosen: everything that was chosen is there, everything
/// comes after what it needs, and nothing runs twice.
pub proof fn law_chosen_come_after_their_needs(nodes: Seq<NodeView>, noun: Seq<char>, chosen: Seq<int>)
    requires
        full_order(nodes, noun, chosen) is Ok,
    ensures
        ({
            let order = full_order(nodes, noun, chosen)->Ok_0;
            &&& order.no_duplicates()
            &&& after_needs(nodes, order)
            &&& forall|i: int| 0 <= i < chosen.len() ==> order.contains(#[trigger] chosen[i])
        }),
    decreases chosen.len(),
{
    if chosen.len() > 0 {
        let t = chosen.drop_last();
        law_chosen_come_after_their_needs(nodes, noun, t);
        let head = full_order(nodes, noun, t)->Ok_0;
        let m = chosen.last();
        law_everything_comes_after_its_needs(nodes, noun, nodes[m].needs);
        let before = needed_order(nodes, noun, nodes[m].needs)->Ok_0;
        let b = before.push(m);
        let order = full_order(nodes, noun, chosen)->Ok_0;
        assert forall|k: int, j: int|
            0 <= k < b.len() && 0 <= j < nodes[b[k]].needs.len() implies #[trigger] need_is_met(nodes, b, k, j) by {
            if k < before.len() {
                assert(need_is_met(nodes, before, k, j));
                assert(b.take(k) =~= before.take(k));
            } else {
                assert(b.take(k) =~= before);
                assert(nodes[m].needs[j] == nodes[b[k]].needs[j]);
            }
        }
        lemma_add_distinct_after_needs(nodes, head, b);
        lemma_add_distinct(head, b, m);
        assert(b[before.len() as int] == m);
        assert forall|i: int| 0 <= i < chosen.len() implies order.contains(#[trigger] chosen[i]) by {
            if i < t.len() {
                assert(t[i] == chosen[i]);
                lemma_add_distinct(head, b, chosen[i]);
            }
        }
    }
}

/// Whether one node names another among its needs.
pub open spec fn needs_node(nodes: Seq<NodeView>, a: int, b: int) -> bool {
    exists|j: int| 0 <= j < nodes[a].needs.len() && node_named(nodes, #[trigger] nodes[a].needs[j]) == Some(b)
}

/// Whether nodes follow one another, each needed by the one before it, from a wanted one on.
pub open spec fn walk(nodes: Seq<NodeView>, wanted: Seq<Seq<char>>, p: Seq<int>) -> bool {
    &&& p.len() > 0
    &&& exists|i: int| 0 <= i < wanted.len() && node_named(nodes, #[trigger] wanted[i]) == Some(p[0])
    &&& forall|k: int| 0 < k < p.len() ==> needs_node(nodes, p[k - 1], #[trigger] p[k])
}

/// Whether a wanted node, or a need of a node that is needed for one, is not known.
pub open spec fn unknown_need(nodes: Seq<NodeView>, wanted: Seq<Seq<char>>) -> bool {
    ||| exists|i: int| 0 <= i < wanted.len() && node_named(nodes, #[trigger] wanted[i]) is None
    ||| exists|p: Seq<int>, j: int|
        #[trigger] walk(nodes, wanted, p) && 0 <= j < nodes[p.last()].needs.len() && node_named(
            nodes,
            #[trigger] nodes[p.last()].needs[j],
        ) is None
}

/// Whether a wanted node leads to one that needs itself, at once or through others.
pub open spec fn cycle(nodes: Seq<NodeView>, wanted: Seq<Seq<char>>) -> bool {
    exists|p: Seq<int>| #[trigger] walk(nodes, wanted, p) && !p.no_duplicates()
}

/// Whether nodes that stand in an order hold every wanted one.
spec fn holds_all(nodes: Seq<NodeView>, wanted: Seq<Seq<char>>, order: Seq<int>) -> bool {
    forall|i: int|
        0 <= i < wanted.len() ==> node_named(nodes, #[trigger] wanted[i]) is Some && order.contains(
            node_named(nodes, wanted[i])->0,
        )
}

/// The place of the last node of a walk in an order that holds what is wanted.
proof fn lemma_walk_goes_back(nodes: Seq<NodeView>, wanted: Seq<Seq<char>>, order: Seq<int>, p: Seq<int>)
    requires
        sound(nodes, order),
        holds_all(nodes, wanted, order),
        walk(nodes, wanted, p),
    ensures
        forall|k: int| 0 <= k < p.len() ==> order.contains(#[trigger] p[k]),
        forall|i: int, k: int|
            0 <= i < k < p.len() ==> order.index_of(#[trigger] p[k]) < order.index_of(#[trigger] p[i]),
    decreases p.len(),
{
    if p.len() == 1 {
        let i = choose|i: int| 0 <= i < wanted.len() && node_named(nodes, #[trigger] wanted[i]) == Some(p[0]);
        assert(order.contains(p[0]));
    } else {
        let q = p.drop_last();
        assert forall|k: int| 0 < k < q.len() implies needs_node(nodes, q[k - 1], #[trigger] q[k]) by {
            assert(q[k] == p[k] && q[k - 1] == p[k - 1]);
        }
        lemma_walk_goes_back(nodes, wanted, order, q);
        let a = q.last();
        let b = p.last();
        assert(needs_node(nodes, p[p.len() - 2], p[p.len() - 1]));
        let j = choose|j: int| 0 <= j < nodes[a].needs.len() && node_named(nodes, #[trigger] nodes[a].needs[j]) == Some(b);
        let at = order.index_of(a);
        assert(order.contains(q[q.len() - 1]));
        assert(order[at] == a);
        assert(need_is_met(nodes, order, at, j));
        let m = choose|m: int| 0 <= m < order.take(at).len() && order.take(at)[m] == b;
        assert(order[m] == b);
        let mb = order.index_of(b);
        assert(order[mb] == b);
        assert(mb == m);
        assert forall|k: int| 0 <= k < p.len() implies order.contains(#[trigger] p[k]) by {
            if k < q.len() {
                assert(p[k] == q[k]);
            }
        }
        assert forall|i: int, k: int|
            0 <= i < k < p.len() implies order.index_of(#[trigger] p[k]) < order.index_of(#[trigger] p[i]) by {
            assert(p[i] == q[i]);
            if k < q.len() {
                assert(p[k] == q[k]);
            } else if i < q.len() - 1 {
                assert(order.index_of(q[q.len() - 1]) < order.index_of(q[i]));
            }
        }
    }
}

/// Where an order holds what is wanted, nothing stands in its way.
proof fn lemma_ordered_is_free(nodes: Seq<NodeView>, wanted: Seq<Seq<char>>, order: Seq<int>)
    requires
        sound(nodes, order),
        holds_all(nodes, wanted, order),
    ensures
        !unknown_need(nodes, wanted),
        !cycle(nodes, wanted),
{
    assert forall|p: Seq<int>| #[trigger] walk(nodes, wanted, p) implies p.no_duplicates() && forall|j: int|
        0 <= j < nodes[p.last()].needs.len() ==> node_named(nodes, #[trigger] nodes[p.last()].needs[j]) is Some by {
        lemma_walk_goes_back(nodes, wanted, order, p);
        assert forall|i: int, k: int| 0 <= i < k < p.len() implies p[i] != p[k] by {
            assert(order.index_of(p[k]) < order.index_of(p[i]));
        }
        let a = p.last();
        assert(order.contains(p[p.len() - 1]));
        let at = order.index_of(a);
        assert(order[at] == a);
        assert forall|j: int| 0 <= j < nodes[a].needs.len() implies node_named(nodes, #[trigger] nodes[a].needs[j])
            is Some by {
            assert(need_is_met(nodes, order, at, j));
        }
    }
}

/// Whether texts are wanted where a visit stands: at its start, or as needs of the node
/// that it is at.
spec fn asked_for(nodes: Seq<NodeView>, top: Seq<Seq<char>>, open: Seq<int>, wanted: Seq<Seq<char>>) -> bool {
    forall|i: int|
        0 <= i < wanted.len() ==> if open.len() == 0 {
            top.contains(#[trigger] wanted[i])
        } else {
            nodes[open.last()].needs.contains(wanted[i])
        }
}

/// A visit is refused only for a reason.
proof fn lemma_refusal_has_a_reason(
    nodes: Seq<NodeView>,
    noun: Seq<char>,
    top: Seq<Seq<char>>,
    wanted: Seq<Seq<char>>,
    open: Seq<int>,
    order: Seq<int>,
)
    requires
        open.len() > 0 ==> walk(nodes, top, open),
        open.no_duplicates(),
        forall|i: int| 0 <= i < open.len() ==> 0 <= #[trigger] open[i] < nodes.len(),
        asked_for(nodes, top, open, wanted),
        visit(nodes, noun, wanted, open, order) is Err,
    ensures
        unknown_need(nodes, top) || cycle(nodes, top),
    decreases nodes.len() - open.len(), wanted.len(),
{
    let head = wanted.drop_last();
    assert forall|i: int| 0 <= i < head.len() implies if open.len() == 0 {
        top.contains(#[trigger] head[i])
    } else {
        nodes[open.last()].needs.contains(head[i])
    } by {
        assert(head[i] == wanted[i]);
    }
    if visit(nodes, noun, head, open, order) is Err {
        lemma_refusal_has_a_reason(nodes, noun, top, head, open, order);
    } else {
        let done = visit(nodes, noun, head, open, order)->Ok_0;
        let id = wanted.last();
        assert(wanted[wanted.len() - 1] == id);
        lemma_node_named(nodes, id);
        match node_named(nodes, id) {
            None => if open.len() == 0 {
                let i = choose|i: int| 0 <= i < top.len() && top[i] == id;
                assert(node_named(nodes, top[i]) is None);
            } else {
                let j = choose|j: int| 0 <= j < nodes[open.last()].needs.len() && nodes[open.last()].needs[j] == id;
                assert(walk(nodes, top, open));
                assert(node_named(nodes, nodes[open.last()].needs[j]) is None);
            },
            Some(at) => {
                let next = open.push(at);
                assert(walk(nodes, top, next)) by {
                    if open.len() == 0 {
                        let i = choose|i: int| 0 <= i < top.len() && top[i] == id;
                        assert(node_named(nodes, top[i]) == Some(next[0]));
                    } else {
                        let a = open.last();
                        let j = choose|j: int| 0 <= j < nodes[a].needs.len() && nodes[a].needs[j] == id;
                        assert(node_named(nodes, nodes[a].needs[j]) == Some(at));
                        assert(needs_node(nodes, a, at));
                        assert(next[0] == open[0]);
                        assert forall|k: int| 0 < k < next.len() implies needs_node(nodes, next[k - 1], #[trigger] next[k]) by {
                            if k < open.len() {
                                assert(next[k] == open[k] && next[k - 1] == open[k - 1]);
                            }
                        }
                    }
                }
                if open.contains(at) {
                    let i = choose|i: int| 0 <= i < open.len() && open[i] == at;
                    assert(next[i] == next[open.len() as int]);
                    assert(!next.no_duplicates());
                } else {
                    assert(next.no_duplicates());
                    assert forall|i: int| 0 <= i < next.len() implies 0 <= #[trigger] next[i] < nodes.len() by {
                        if i < open.len() {
                            assert(next[i] == open[i]);
                        }
                    }
                    lemma_few_positions(next, nodes.len() as int);
                    assert forall|i: int| 0 <= i < nodes[at].needs.len() implies nodes[next.last()].needs.contains(
                        #[trigger] nodes[at].needs[i],
                    ) by {}
                    lemma_refusal_has_a_reason(nodes, noun, top, nodes[at].needs, next, done);
                }
            },
        }
    }
}

/// An order is refused exactly where a need is not known or something needs itself, at once
/// or through others.
pub proof fn law_orders_are_refused_for_a_reason(nodes: Seq<NodeView>, noun: Seq<char>, wanted: Seq<Seq<char>>)
    ensures
        needed_order(nodes, noun, wanted) is Err <==> unknown_need(nodes, wanted) || cycle(nodes, wanted),
{
    if needed_order(nodes, noun, wanted) is Ok {
        lemma_visit_sound(nodes, noun, wanted, Seq::empty(), Seq::empty());
        lemma_ordered_is_free(nodes, wanted, needed_order(nodes, noun, wanted)->Ok_0);
    } else {
        lemma_refusal_has_a_reason(nodes, noun, wanted, wanted, Seq::empty(), Seq::empty());
    }
}

/// What was chosen cannot be put in an order exactly where that holds of the needs of
/// something that was chosen.
pub proof fn law_choices_are_refused_for_a_reason(nodes: Seq<NodeView>, noun: Seq<char>, chosen: Seq<int>)
    ensures
        full_order(nodes, noun, chosen) is Err <==> exists|i: int|
            0 <= i < chosen.len() && (unknown_need(nodes, nodes[#[trigger] chosen[i]].needs) || cycle(
                nodes,
                nodes[chosen[i]].needs,
            )),
    decreases chosen.len(),
{
    if chosen.len() > 0 {
        let t = chosen.drop_last();
        law_choices_are_refused_for_a_reason(nodes, noun, t);
        law_orders_are_refused_for_a_reason(nodes, noun, nodes[chosen.last()].needs);
        if full_order(nodes, noun, t) is Err {
            let i = choose|i: int|
                0 <= i < t.len() && (unknown_need(nodes, nodes[#[trigger] t[i]].needs) || cycle(nodes, nodes[t[i]].needs));
            assert(chosen[i] == t[i]);
        } else if full_order(nodes, noun, chosen) is Err {
            assert(chosen[chosen.len() - 1] == chosen.last());
        } else {
            assert forall|i: int| 0 <= i < chosen.len() implies !(unknown_need(nodes, nodes[#[trigger] chosen[i]].needs)
                || cycle(nodes, nodes[chosen[i]].needs)) by {
                if i < t.len() {
                    assert(t[i] == chosen[i]);
                }
            }
        }
    }
}

/// A visit of what is there already adds nothing.
proof fn lemma_nothing_to_add(nodes: Seq<NodeView>, noun: Seq<char>, wanted: Seq<Seq<char>>, open: Seq<int>, order: Seq<int>)
    requires
        holds_all(nodes, wanted, order),
    ensures
        visit(nodes, noun, wanted, open, order) == Ok::<Seq<int>, ErrorView>(order),
    decreases wanted.len(),
{
    if wanted.len() > 0 {
        let head = wanted.drop_last();
        assert forall|i: int| 0 <= i < head.len() implies node_named(nodes, #[trigger] head[i]) is Some && order.contains(
            node_named(nodes, head[i])->0,
        ) by {
            assert(head[i] == wanted[i]);
        }
        lemma_nothing_to_add(nodes, noun, head, open, order);
        assert(wanted[wanted.len() - 1] == wanted.last());
    }
}

/// The needs of each in an order are held by those before it.
proof fn lemma_needs_stand_before(nodes: Seq<NodeView>, order: Seq<int>, k: int)
    requires
        after_needs(nodes, order),
        0 <= k < order.len(),
    ensures
        holds_all(nodes, nodes[order[k]].needs, order.take(k)),
{
    assert forall|j: int| 0 <= j < nodes[order[k]].needs.len() implies node_named(
        nodes,
        #[trigger] nodes[order[k]].needs[j],
    ) is Some && order.take(k).contains(node_named(nodes, nodes[order[k]].needs[j])->0) by {
        assert(need_is_met(nodes, order, k, j));
    }
}

/// Names whose nodes are in order already stay in it.
pub proof fn law_names_in_order_stay(nodes: Seq<NodeView>, noun: Seq<char>, wanted: Seq<Seq<char>>, order: Seq<int>)
    requires
        order.len() == wanted.len(),
        forall|i: int| 0 <= i < wanted.len() ==> node_named(nodes, #[trigger] wanted[i]) == Some(order[i]),
        order.no_duplicates(),
        after_needs(nodes, order),
    ensures
        needed_order(nodes, noun, wanted) == Ok::<Seq<int>, ErrorView>(order),
    decreases wanted.len(),
{
    if wanted.len() > 0 {
        let head = wanted.drop_last();
        let before = order.drop_last();
        let at = order.last();
        let n = order.len() - 1;
        assert forall|i: int| 0 <= i < head.len() implies node_named(nodes, #[trigger] head[i]) == Some(before[i]) by {
            assert(head[i] == wanted[i]);
        }
        lemma_prefix_in_order(nodes, order, n);
        assert(before =~= order.take(n));
        law_names_in_order_stay(nodes, noun, head, before);
        assert(node_named(nodes, wanted[n]) == Some(at));
        lemma_node_named(nodes, wanted.last());
        assert(!before.contains(at)) by {
            if before.contains(at) {
                let i = choose|i: int| 0 <= i < before.len() && before[i] == at;
                assert(order[i] == order[n]);
            }
        }
        lemma_needs_stand_before(nodes, order, n);
        lemma_nothing_to_add(nodes, noun, nodes[at].needs, Seq::empty().push(at), before);
        assert(before.push(at) =~= order);
    } else {
        assert(order =~= Seq::<int>::empty());
    }
}

proof fn lemma_prefix_in_order(nodes: Seq<NodeView>, order: Seq<int>, n: int)
    requires
        after_needs(nodes, order),
        0 <= n <= order.len(),
    ensures
        after_needs(nodes, order.take(n)),
{
    let t = order.take(n);
    assert forall|k: int, j: int|
        0 <= k < t.len() && 0 <= j < nodes[t[k]].needs.len() implies #[trigger] need_is_met(nodes, t, k, j) by {
        assert(t[k] == order[k]);
        assert(need_is_met(nodes, order, k, j));
        assert(t.take(k) =~= order.take(k));
    }
}

/// A visit stays within nodes that hold what is wanted and whatever they need.
proof fn lemma_visit_stays_within(
    nodes: Seq<NodeView>,
    noun: Seq<char>,
    wanted: Seq<Seq<char>>,
    open: Seq<int>,
    order: Seq<int>,
    all: Seq<int>,
)
    requires
        after_needs(nodes, all),
        holds_all(nodes, wanted, all),
        forall|i: int| 0 <= i < order.len() ==> all.contains(#[trigger] order[i]),
        visit(nodes, noun, wanted, open, order) is Ok,
    ensures
        forall|i: int|
            0 <= i < visit(nodes, noun, wanted, open, order)->Ok_0.len() ==> all.contains(
                #[trigger] visit(nodes, noun, wanted, open, order)->Ok_0[i],
            ),
    decreases nodes.len() - open.len(), wanted.len(),
{
    if wanted.len() > 0 {
        let head = wanted.drop_last();
        assert forall|i: int| 0 <= i < head.len() implies node_named(nodes, #[trigger] head[i]) is Some && all.contains(
            node_named(nodes, head[i])->0,
        ) by {
            assert(head[i] == wanted[i]);
        }
        lemma_visit_stays_within(nodes, noun, head, open, order, all);
        let done = visit(nodes, noun, head, open, order)->Ok_0;
        assert(wanted[wanted.len() - 1] == wanted.last());
        let at = node_named(nodes, wanted.last())->0;
        if !done.contains(at) {
            let k = choose|k: int| 0 <= k < all.len() && all[k] == at;
            lemma_needs_stand_before(nodes, all, k);
            let needs = nodes[at].needs;
            assert forall|i: int| 0 <= i < needs.len() implies node_named(nodes, #[trigger] needs[i]) is Some && all.contains(
                node_named(nodes, needs[i])->0,
            ) by {
                let x = node_named(nodes, needs[i])->0;
                let m = choose|m: int| 0 <= m < all.take(k).len() && all.take(k)[m] == x;
                assert(all[m] == x);
            }
            lemma_visit_stays_within(nodes, noun, needs, open.push(at), done, all);
        }
    }
}

proof fn lemma_adds_only_the_last(base: Seq<int>, before: Seq<int>, x: int)
    requires
        forall|i: int| 0 <= i < before.len() ==> base.contains(#[trigger] before[i]),
        !base.contains(x),
    ensures
        add_distinct(base, before) == base,
        add_distinct(base, before.push(x)) == base.push(x),
    decreases before.len(),
{
    assert(before.push(x).drop_last() =~= before);
    if before.len() > 0 {
        lemma_adds_only_the_last(base, before.drop_last(), x);
        assert(base.contains(before[before.len() - 1]));
    }
    assert(add_distinct(base, before) == base);
    assert(before.push(x).last() == x);
    assert(add_distinct(base, before.push(x)) == base.push(x));
}

/// What was chosen in an order in which everything comes after what it needs stays in it.
pub proof fn law_choices_in_order_stay(nodes: Seq<NodeView>, noun: Seq<char>, chosen: Seq<int>)
    requires
        forall|i: int| 0 <= i < chosen.len() ==> 0 <= #[trigger] chosen[i] < nodes.len(),
        chosen.no_duplicates(),
        after_needs(nodes, chosen),
    ensures
        full_order(nodes, noun, chosen) == Ok::<Seq<int>, ErrorView>(chosen),
    decreases chosen.len(),
{
    if chosen.len() > 0 {
        let n = chosen.len() - 1;
        let t = chosen.drop_last();
        let m = chosen.last();
        lemma_prefix_in_order(nodes, chosen, n);
        assert(t =~= chosen.take(n));
        assert forall|i: int| 0 <= i < t.len() implies 0 <= #[trigger] t[i] < nodes.len() by {
            assert(t[i] == chosen[i]);
        }
        law_choices_in_order_stay(nodes, noun, t);
        lemma_needs_stand_before(nodes, chosen, n);
        let needs = nodes[m].needs;
        lemma_ordered_is_free(nodes, needs, t);
        law_orders_are_refused_for_a_reason(nodes, noun, needs);
        lemma_visit_stays_within(nodes, noun, needs, Seq::empty(), Seq::empty(), t);
        let before = needed_order(nodes, noun, needs)->Ok_0;
        assert(!t.contains(m)) by {
            if t.contains(m) {
                let i = choose|i: int| 0 <= i < t.len() && t[i] == m;
                assert(chosen[i] == chosen[n]);
            }
        }
        lemma_adds_only_the_last(t, before, m);
        assert(t.push(m) =~= chosen);
    } else {
        assert(chosen =~= Seq::<int>::empty());
    }
}

} // verus!
