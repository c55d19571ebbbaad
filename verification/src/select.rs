//! Which (node, profile) pairs one invocation acts on, and in which order.

use crate::data::{texts, DataModel, DeploymentData, Node, NodeModel};
use vstd::prelude::*;

verus! {

/// One pair to act on: the name of a node and of one of its profiles.
#[derive(Debug)]
pub struct Target {
    pub node: String,
    pub profile: String,
}

impl View for Target {
    type V = (Seq<char>, Seq<char>);

    open spec fn view(&self) -> (Seq<char>, Seq<char>) {
        (self.node@, self.profile@)
    }
}

/// The pairs that a list of targets names, in order.
pub open spec fn pairs(targets: Seq<Target>) -> Seq<(Seq<char>, Seq<char>)> {
    targets.map_values(|t: Target| t@)
}

/// Why a selection was refused.
#[derive(Debug, Clone, Copy, PartialEq, Eq, Structural)]
pub enum SelectError {
    /// The node that was asked for is not in the deployment data.
    NodeNotFound,
    /// The node has no profile of the name that was asked for.
    ProfileNotFound,
    /// A profile was named without a node.
    ProfileWithoutNode,
}

/// The targets of one node: each profile of its execution order, paired with
/// the node's name.
pub open spec fn node_targets<P>(name: Seq<char>, node: NodeModel<P>) -> Seq<
    (Seq<char>, Seq<char>),
> {
    node.execution_order().map_values(|profile: Seq<char>| (name, profile))
}

/// The targets of every node, node after node in the order of the table.
pub open spec fn all_targets<P>(data: DataModel<P>) -> Seq<(Seq<char>, Seq<char>)> {
    data.nodes.map_values(|e: (Seq<char>, NodeModel<P>)| node_targets(e.0, e.1)).flatten()
}

/// The characters of an optional name.
pub open spec fn text_of_name(name: Option<&str>) -> Option<Seq<char>> {
    match name {
        Some(s) => Some(s@),
        None => None,
    }
}

/// What a selection yields.
pub open spec fn selection<P>(
    data: DataModel<P>,
    node: Option<Seq<char>>,
    profile: Option<Seq<char>>,
) -> Result<Seq<(Seq<char>, Seq<char>)>, SelectError> {
    match (node, profile) {
        (None, Some(_)) => Err(SelectError::ProfileWithoutNode),
        (None, None) => Ok(all_targets(data)),
        (Some(n), _) => if !data.node_names().contains(n) {
            Err(SelectError::NodeNotFound)
        } else {
            let found = data.nodes[data.node_names().index_of(n)].1;
            match profile {
                None => Ok(node_targets(n, found)),
                Some(p) => if found.profile_names().contains(p) {
                    Ok(seq![(n, p)])
                } else {
                    Err(SelectError::ProfileNotFound)
                },
            }
        },
    }
}

/// Whether `name` occurs among `names`.
fn listed(names: &Vec<String>, name: &str) -> (found: bool)
    ensures
        found == texts(names@).contains(name@),
{
    let mut i: usize = 0;
    while i < names.len()
        invariant
            i <= names@.len(),
            forall|k: int| 0 <= k < i ==> (#[trigger] names@[k])@ != name@,
        decreases names@.len() - i,
    {
        if *names[i].as_str() == *name {
            assert(texts(names@)[i as int] == name@);
            return true;
        }
        i += 1;
    }
    false
}

/// The names of a node's profiles in the order in which they are handled:
/// first those that `profiles_order` lists and the node has, as listed, then
/// the node's other profiles in the order of its table.
pub fn profile_order<P>(node: &Node<P>) -> (order: Vec<String>)
    ensures
        texts(order@) == node@.execution_order(),
{
    let ghost wanted = node@.profiles_order;
    let ghost present = node@.profile_names();
    let ghost has = |name: Seq<char>| present.contains(name);
    let ghost unlisted = |name: Seq<char>| !wanted.contains(name);
    assert(present =~= node.profiles.names());
    let mut order: Vec<String> = Vec::new();
    let mut i: usize = 0;
    assert(wanted.take(0) =~= Seq::<Seq<char>>::empty());
    assert(texts(order@) =~= Seq::<Seq<char>>::empty());
    while i < node.profiles_order.len()
        invariant
            i <= node.profiles_order@.len(),
            wanted == texts(node.profiles_order@),
            present == node.profiles.names(),
            has == |name: Seq<char>| present.contains(name),
            texts(order@) == wanted.take(i as int).filter(has),
        decreases node.profiles_order@.len() - i,
    {
        let name = &node.profiles_order[i];
        let found = node.profiles.find(name.as_str());
        proof {
            assert(wanted.take(i + 1) =~= wanted.take(i as int).push(name@));
            wanted.take(i as int).lemma_filter_push(name@, has);
            if found.is_some() {
                assert(present[found.unwrap() as int] == name@);
            }
            assert(has(name@) == found.is_some());
        }
        if found.is_some() {
            let ghost before = order@;
            order.push(name.clone());
            assert(texts(order@) =~= texts(before).push(name@));
        }
        i += 1;
    }
    assert(wanted.take(i as int) =~= wanted);
    let ghost head = texts(order@);
    let count = node.profiles.len();
    let mut j: usize = 0;
    assert(present.take(0) =~= Seq::<Seq<char>>::empty());
    assert(texts(order@) =~= head + present.take(0).filter(unlisted));
    while j < count
        invariant
            j <= count,
            count == node.profiles@.len(),
            wanted == texts(node.profiles_order@),
            present == node.profiles.names(),
            unlisted == |name: Seq<char>| !wanted.contains(name),
            texts(order@) == head + present.take(j as int).filter(unlisted),
        decreases count - j,
    {
        let name = node.profiles.name_at(j);
        let skip = listed(&node.profiles_order, name);
        proof {
            assert(present[j as int] == name@);
            assert(present.take(j + 1) =~= present.take(j as int).push(name@));
            present.take(j as int).lemma_filter_push(name@, unlisted);
            assert(unlisted(name@) == !skip);
        }
        if !skip {
            let ghost before = order@;
            order.push(name.to_owned());
            assert(texts(order@) =~= texts(before).push(name@));
        }
        j += 1;
    }
    assert(present.take(j as int) =~= present);
    order
}

/// Appends the targets of one node to `out`.
fn push_node_targets<P>(name: &str, node: &Node<P>, out: &mut Vec<Target>)
    ensures
        pairs(final(out)@) == pairs(old(out)@) + node_targets(name@, node@),
{
    let order = profile_order(node);
    let ghost start = pairs(out@);
    let ghost wanted = node_targets(name@, node@);
    let mut i: usize = 0;
    assert(pairs(out@) =~= start + wanted.take(0));
    while i < order.len()
        invariant
            i <= order@.len(),
            texts(order@) == node@.execution_order(),
            wanted == node_targets(name@, node@),
            pairs(out@) == start + wanted.take(i as int),
        decreases order@.len() - i,
    {
        let ghost before = out@;
        let target = Target { node: name.to_owned(), profile: order[i].clone() };
        assert(target@ == wanted[i as int]);
        out.push(target);
        assert(pairs(out@) =~= pairs(before).push(wanted[i as int]));
        assert(wanted.take(i + 1) =~= wanted.take(i as int).push(wanted[i as int]));
        i += 1;
    }
    assert(wanted.take(i as int) =~= wanted);
}

/// Lists the pairs to act on.
///
/// With a node and a profile it is that one pair, and both must exist. With a
/// node alone it is every profile of that node in its execution order. With
/// neither it is every node in the order of the table, each with all its
/// profiles in execution order. A profile without a node is refused.
pub fn select<P>(data: &DeploymentData<P>, node: Option<&str>, profile: Option<&str>) -> (out:
    Result<Vec<Target>, SelectError>)
    ensures
        match out {
            Ok(targets) => selection(data@, text_of_name(node), text_of_name(profile)) == Ok::<
                Seq<(Seq<char>, Seq<char>)>,
                SelectError,
            >(pairs(targets@)),
            Err(e) => selection(data@, text_of_name(node), text_of_name(profile)) == Err::<
                Seq<(Seq<char>, Seq<char>)>,
                SelectError,
            >(e),
        },
{
    assert(data@.node_names() =~= data.nodes.names());
    match (node, profile) {
        (None, Some(_)) => Err(SelectError::ProfileWithoutNode),
        (None, None) => {
            let ghost per_node = |e: (Seq<char>, NodeModel<P>)| node_targets(e.0, e.1);
            let ghost nodes = data@.nodes;
            let mut out: Vec<Target> = Vec::new();
            let count = data.nodes.len();
            let mut i: usize = 0;
            assert(nodes.take(0).map_values(per_node) =~= Seq::<
                Seq<(Seq<char>, Seq<char>)>,
            >::empty());
            assert(pairs(out@) =~= nodes.take(0).map_values(per_node).flatten());
            while i < count
                invariant
                    i <= count,
                    count == data.nodes@.len(),
                    nodes == data@.nodes,
                    per_node == |e: (Seq<char>, NodeModel<P>)| node_targets(e.0, e.1),
                    pairs(out@) == nodes.take(i as int).map_values(per_node).flatten(),
                decreases count - i,
            {
                let ghost done = nodes.take(i as int).map_values(per_node);
                push_node_targets(data.nodes.name_at(i), data.nodes.value_at(i), &mut out);
                proof {
                    assert(nodes.take(i + 1).map_values(per_node) =~= done.push(
                        per_node(nodes[i as int]),
                    ));
                    done.lemma_flatten_push(per_node(nodes[i as int]));
                }
                i += 1;
            }
            assert(nodes.take(i as int) =~= nodes);
            Ok(out)
        },
        (Some(n), _) => {
            match data.nodes.get(n) {
                None => Err(SelectError::NodeNotFound),
                Some(found) => {
                    assert(data@.nodes[data@.node_names().index_of(n@)].1 == found@);
                    assert(found@.profile_names() =~= found.profiles.names());
                    match profile {
                        None => {
                            let mut out: Vec<Target> = Vec::new();
                            assert(pairs(out@) =~= Seq::<(Seq<char>, Seq<char>)>::empty());
                            push_node_targets(n, found, &mut out);
                            assert(pairs(out@) =~= node_targets(n@, found@));
                            Ok(out)
                        },
                        Some(p) => {
                            let at = found.profiles.find(p);
                            if at.is_some() {
                                assert(found.profiles.names()[at.unwrap() as int] == p@);
                                let mut out: Vec<Target> = Vec::new();
                                out.push(Target { node: n.to_owned(), profile: p.to_owned() });
                                assert(pairs(out@) =~= seq![(n@, p@)]);
                                Ok(out)
                            } else {
                                Err(SelectError::ProfileNotFound)
                            }
                        },
                    }
                },
            }
        },
    }
}

/// A profile without a node is refused, whatever the data holds.
pub proof fn lemma_profile_without_node_is_refused<P>(data: DataModel<P>, profile: Seq<char>)
    ensures
        selection(data, None, Some(profile)) == Err::<Seq<(Seq<char>, Seq<char>)>, SelectError>(
            SelectError::ProfileWithoutNode,
        ),
{
}

/// The execution order of a node holds the names of its profiles and no
/// other name: every profile is handled, and a name that `profiles_order`
/// lists without the node having such a profile is passed over.
pub proof fn lemma_execution_order_names_the_profiles<P>(node: NodeModel<P>, name: Seq<char>)
    ensures
        node.execution_order().contains(name) <==> node.profile_names().contains(name),
{
    let wanted = node.profiles_order;
    let present = node.profile_names();
    let has = |n: Seq<char>| present.contains(n);
    let unlisted = |n: Seq<char>| !wanted.contains(n);
    let head = wanted.filter(has);
    let tail = present.filter(unlisted);
    if present.contains(name) {
        if wanted.contains(name) {
            let k = choose|k: int| 0 <= k < wanted.len() && wanted[k] == name;
            wanted.lemma_filter_contains(has, k);
            let at = choose|at: int| 0 <= at < head.len() && head[at] == name;
            assert((head + tail)[at] == name);
        } else {
            let k = choose|k: int| 0 <= k < present.len() && present[k] == name;
            present.lemma_filter_contains(unlisted, k);
            let at = choose|at: int| 0 <= at < tail.len() && tail[at] == name;
            assert((head + tail)[head.len() + at] == name);
        }
    }
    if node.execution_order().contains(name) {
        let at = choose|at: int| 0 <= at < (head + tail).len() && (head + tail)[at] == name;
        if at < head.len() {
            wanted.lemma_filter_pred(has, at);
            assert(has(head[at]));
        } else {
            assert(tail[at - head.len()] == name);
            present.lemma_filter_contains_rev(unlisted, name);
        }
    }
}

/// What is kept of a sequence without repetition has no repetition.
proof fn lemma_filter_keeps_distinct<A>(s: Seq<A>, keep: spec_fn(A) -> bool)
    requires
        s.no_duplicates(),
    ensures
        s.filter(keep).no_duplicates(),
    decreases s.len(),
{
    if s.len() > 0 {
        let front = s.drop_last();
        lemma_filter_keeps_distinct(front, keep);
        assert(s =~= front.push(s.last()));
        front.lemma_filter_push(s.last(), keep);
        if front.filter(keep).contains(s.last()) {
            front.lemma_filter_contains_rev(keep, s.last());
            let k = choose|k: int| 0 <= k < front.len() && front[k] == s.last();
            assert(s[k] == s[s.len() - 1]);
        }
    }
}

/// Where `profiles_order` lists no name twice, no profile is handled twice:
/// the execution order holds each profile of the node once.
pub proof fn lemma_execution_order_is_distinct<P>(node: NodeModel<P>)
    requires
        node.profiles_order.no_duplicates(),
        node.profile_names().no_duplicates(),
    ensures
        node.execution_order().no_duplicates(),
{
    let wanted = node.profiles_order;
    let present = node.profile_names();
    let has = |n: Seq<char>| present.contains(n);
    let unlisted = |n: Seq<char>| !wanted.contains(n);
    let head = wanted.filter(has);
    let tail = present.filter(unlisted);
    lemma_filter_keeps_distinct(wanted, has);
    lemma_filter_keeps_distinct(present, unlisted);
    assert forall|i: int, j: int| 0 <= i < head.len() && 0 <= j < tail.len() implies head[i]
        != tail[j] by {
        present.lemma_filter_pred(unlisted, j);
        assert(head.contains(head[i]));
        wanted.lemma_filter_contains_rev(has, head[i]);
    }
    vstd::seq_lib::lemma_no_dup_in_concat(head, tail);
}

/// The pair `x` is among the flattened sequences exactly when one of them
/// holds it.
proof fn lemma_flatten_contains<A>(parts: Seq<Seq<A>>, x: A)
    ensures
        parts.flatten().contains(x) <==> exists|i: int|
            0 <= i < parts.len() && (#[trigger] parts[i]).contains(x),
    decreases parts.len(),
{
    if parts.len() > 0 {
        let rest = parts.drop_first();
        lemma_flatten_contains(rest, x);
        let whole = parts.first() + rest.flatten();
        if whole.contains(x) {
            let at = choose|at: int| 0 <= at < whole.len() && whole[at] == x;
            if at < parts.first().len() {
                assert(parts[0].contains(x));
            } else {
                assert(rest.flatten()[at - parts.first().len()] == x);
                let i = choose|i: int| 0 <= i < rest.len() && (#[trigger] rest[i]).contains(x);
                assert(parts[i + 1].contains(x));
            }
        }
        if exists|i: int| 0 <= i < parts.len() && (#[trigger] parts[i]).contains(x) {
            let i = choose|i: int| 0 <= i < parts.len() && (#[trigger] parts[i]).contains(x);
            if i == 0 {
                let k = choose|k: int| 0 <= k < parts[0].len() && parts[0][k] == x;
                assert(whole[k] == x);
            } else {
                assert(rest[i - 1].contains(x));
                let k = choose|k: int| 0 <= k < rest.flatten().len() && rest.flatten()[k] == x;
                assert(whole[parts.first().len() + k] == x);
            }
        }
    }
}

/// A selection without node and profile holds a pair exactly when the data
/// has a node of the pair's first name with a profile of its second name:
/// every profile of every node is selected, and nothing else.
pub proof fn lemma_all_targets_are_the_pairs_of_data<P>(
    data: DataModel<P>,
    pair: (Seq<char>, Seq<char>),
)
    ensures
        all_targets(data).contains(pair) <==> exists|i: int|
            0 <= i < data.nodes.len() && (#[trigger] data.nodes[i]).0 == pair.0
                && data.nodes[i].1.profile_names().contains(pair.1),
{
    let per_node = |e: (Seq<char>, NodeModel<P>)| node_targets(e.0, e.1);
    let parts = data.nodes.map_values(per_node);
    lemma_flatten_contains(parts, pair);
    if all_targets(data).contains(pair) {
        let i = choose|i: int| 0 <= i < parts.len() && (#[trigger] parts[i]).contains(pair);
        let node = data.nodes[i];
        let found = node_targets(node.0, node.1);
        let k = choose|k: int| 0 <= k < found.len() && found[k] == pair;
        assert(node.1.execution_order()[k] == pair.1);
        assert(node.1.execution_order().contains(pair.1));
        lemma_execution_order_names_the_profiles(node.1, pair.1);
        assert(data.nodes[i].0 == pair.0);
    }
    if exists|i: int|
        0 <= i < data.nodes.len() && (#[trigger] data.nodes[i]).0 == pair.0
            && data.nodes[i].1.profile_names().contains(pair.1) {
        let i = choose|i: int|
            0 <= i < data.nodes.len() && (#[trigger] data.nodes[i]).0 == pair.0
                && data.nodes[i].1.profile_names().contains(pair.1);
        let node = data.nodes[i];
        lemma_execution_order_names_the_profiles(node.1, pair.1);
        let order = node.1.execution_order();
        let k = choose|k: int| 0 <= k < order.len() && order[k] == pair.1;
        assert(node_targets(node.0, node.1)[k] == pair);
        assert(parts[i].contains(pair));
    }
}

} // verus!
