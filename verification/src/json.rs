//! JSON documents as plain trees, and the bounded walks over them.

use vstd::prelude::*;

use crate::text;

verus! {

/// A JSON value that owns its parts. A number is kept as its decimal text, and
/// an object as its fields in document-map order.
pub enum Json {
    Null,
    Bool(bool),
    Number(String),
    Text(String),
    Array(Vec<Json>),
    Object(Vec<(String, Json)>),
}

/// The mathematical value of a JSON document. An object is the sequence of its
/// keys beside the sequence of their values.
pub enum Tree {
    Null,
    Bool(bool),
    Number(Seq<char>),
    Text(Seq<char>),
    Array(Seq<Tree>),
    Object(Seq<Seq<char>>, Seq<Tree>),
}

impl Json {
    /// The document's mathematical value.
    pub open spec fn tree(&self) -> Tree
        decreases self,
    {
        match self {
            Json::Null => Tree::Null,
            Json::Bool(b) => Tree::Bool(*b),
            Json::Number(n) => Tree::Number(n@),
            Json::Text(s) => Tree::Text(s@),
            Json::Array(items) => Tree::Array(
                Seq::new(
                    items@.len(),
                    |i: int|
                        if 0 <= i < items@.len() {
                            items[i].tree()
                        } else {
                            Tree::Null
                        },
                ),
            ),
            Json::Object(fields) => Tree::Object(
                Seq::new(fields@.len(), |i: int| fields@[i].0@),
                Seq::new(
                    fields@.len(),
                    |i: int|
                        if 0 <= i < fields@.len() {
                            fields[i].1.tree()
                        } else {
                            Tree::Null
                        },
                ),
            ),
        }
    }
}

/// The values directly below a value.
pub open spec fn children(t: Tree) -> Seq<Tree> {
    match t {
        Tree::Array(items) => items,
        Tree::Object(_, values) => values,
        _ => seq![],
    }
}

/// The keys of an object; no keys for any other value.
pub open spec fn keys(t: Tree) -> Seq<Seq<char>> {
    match t {
        Tree::Object(names, _) => names,
        _ => seq![],
    }
}

/// Position of the first key equal to `key` at or behind `from`.
pub open spec fn key_position(names: Seq<Seq<char>>, key: Seq<char>, from: int) -> Option<int>
    decreases names.len() - from,
{
    if from < 0 || from >= names.len() {
        None
    } else if names[from] == key {
        Some(from)
    } else {
        key_position(names, key, from + 1)
    }
}

/// The field `key` of an object.
pub open spec fn field(t: Tree, key: Seq<char>) -> Option<Tree> {
    match t {
        Tree::Object(names, values) => match key_position(names, key, 0) {
            Some(at) => Some(values[at]),
            None => None,
        },
        _ => None,
    }
}

/// Every value of a document with its depth, parents before children and
/// children in order.
pub open spec fn walk(t: Tree, depth: nat) -> Seq<(Tree, nat)>
    decreases t, 1nat,
{
    match t {
        Tree::Array(items) => seq![(t, depth)] + walk_all(items, depth + 1),
        Tree::Object(_, values) => seq![(t, depth)] + walk_all(values, depth + 1),
        _ => seq![(t, depth)],
    }
}

/// The walks of several documents, one after the other.
pub open spec fn walk_all(ts: Seq<Tree>, depth: nat) -> Seq<(Tree, nat)>
    decreases ts, 0nat,
{
    if ts.len() == 0 {
        seq![]
    } else {
        walk(ts[0], depth) + walk_all(ts.drop_first(), depth)
    }
}

/// The first result that `f` gives along a walk.
pub open spec fn first_hit<T>(nodes: Seq<(Tree, nat)>, f: spec_fn(Tree) -> Option<T>) -> Option<T>
    decreases nodes.len(),
{
    if nodes.len() == 0 {
        None
    } else {
        match f(nodes[0].0) {
            Some(hit) => Some(hit),
            None => first_hit(nodes.drop_first(), f),
        }
    }
}

/// A prefix without a result changes nothing.
pub proof fn lemma_first_hit_skip<T>(
    nodes: Seq<(Tree, nat)>,
    f: spec_fn(Tree) -> Option<T>,
    from: int,
)
    requires
        0 <= from <= nodes.len(),
        forall|i: int| 0 <= i < from ==> f((#[trigger] nodes[i]).0) is None,
    ensures
        first_hit(nodes, f) == first_hit(nodes.skip(from), f),
    decreases from,
{
    if from == 0 {
        assert(nodes.skip(0) =~= nodes);
    } else {
        let rest = nodes.drop_first();
        assert(f(nodes[0].0) is None);
        assert forall|i: int| 0 <= i < from - 1 implies f((#[trigger] rest[i]).0) is None by {
            assert(rest[i] == nodes[i + 1]);
        }
        lemma_first_hit_skip(rest, f, from - 1);
        assert(rest.skip(from - 1) =~= nodes.skip(from));
    }
}

/// Limits on the shape of a document.
pub struct Limits {
    pub nodes: usize,
    pub depth: usize,
    pub key_bytes: usize,
    pub text_bytes: usize,
}

/// Whether one value of a walk respects the limits on depth, keys and text.
pub open spec fn node_within(node: (Tree, nat), limits: Limits) -> bool {
    &&& node.1 <= limits.depth
    &&& match node.0 {
        Tree::Text(s) => text::byte_len(s) <= limits.text_bytes,
        Tree::Object(names, _) => forall|i: int|
            0 <= i < names.len() ==> text::byte_len(#[trigger] names[i]) <= limits.key_bytes,
        _ => true,
    }
}

/// Whether a document respects the limits.
pub open spec fn within_limits(t: Tree, limits: Limits) -> bool {
    &&& walk(t, 0).len() <= limits.nodes
    &&& forall|i: int| 0 <= i < walk(t, 0).len() ==> node_within(#[trigger] walk(t, 0)[i], limits)
}

/// One value met on a walk.
pub struct Visit<'a> {
    pub value: &'a Json,
    pub depth: usize,
}

impl<'a> Visit<'a> {
    pub open spec fn node(self) -> (Tree, nat) {
        (self.value.tree(), self.depth as nat)
    }
}

/// The values and depths of a list of visits.
pub open spec fn visit_nodes(visits: Seq<Visit<'_>>) -> Seq<(Tree, nat)> {
    Seq::new(visits.len(), |i: int| visits[i].node())
}

/// What a stack of pending visits, with its top last, still contributes.
spec fn pending(stack: Seq<Visit<'_>>) -> Seq<(Tree, nat)>
    decreases stack.len(),
{
    if stack.len() == 0 {
        seq![]
    } else {
        walk(stack.last().value.tree(), stack.last().depth as nat) + pending(stack.drop_last())
    }
}

/// The children of a value, in order.
fn child_values(value: &Json) -> (r: Vec<&Json>)
    ensures
        r@.len() == children(value.tree()).len(),
        forall|i: int| 0 <= i < r@.len() ==> (#[trigger] r@[i]).tree() == children(value.tree())[i],
{
    let mut r: Vec<&Json> = Vec::new();
    match value {
        Json::Array(items) => {
            let mut i: usize = 0;
            while i < items.len()
                invariant
                    i <= items@.len(),
                    r@.len() == i,
                    forall|j: int| 0 <= j < i ==> (#[trigger] r@[j]).tree() == items@[j].tree(),
                decreases items@.len() - i,
            {
                r.push(&items[i]);
                i += 1;
            }
        },
        Json::Object(fields) => {
            let mut i: usize = 0;
            while i < fields.len()
                invariant
                    i <= fields@.len(),
                    r@.len() == i,
                    forall|j: int| 0 <= j < i ==> (#[trigger] r@[j]).tree() == fields@[j].1.tree(),
                decreases fields@.len() - i,
            {
                r.push(&fields[i].1);
                i += 1;
            }
        },
        _ => {},
    }
    r
}

/// Every value of a document with its depth, in walk order.
pub fn visits(root: &Json) -> (r: Vec<Visit<'_>>)
    ensures
        visit_nodes(r@) == walk(root.tree(), 0),
        r@.len() == walk(root.tree(), 0).len(),
{
    let mut out: Vec<Visit<'_>> = Vec::new();
    let mut stack: Vec<Visit<'_>> = Vec::new();
    stack.push(Visit { value: root, depth: 0 });
    proof {
        assert(stack@.drop_last() =~= seq![]);
        reveal_with_fuel(pending, 2);
        assert(pending(stack@) =~= walk(root.tree(), 0));
        assert(visit_nodes(out@) + pending(stack@) =~= walk(root.tree(), 0));
    }
    while stack.len() > 0
        invariant
            visit_nodes(out@) + pending(stack@) == walk(root.tree(), 0),
            forall|i: int| 0 <= i < stack@.len() ==> (#[trigger] stack@[i]).depth <= out@.len(),
        decreases pending(stack@).len(),
    {
        let ghost before = stack@;
        let ghost out_before = out@;
        let visit = stack.pop().unwrap();
        let ghost base = stack@;
        assert(base =~= before.drop_last());
        assert(visit == before.last());
        assert(before[before.len() - 1].depth <= out@.len());
        let value = visit.value;
        let depth: usize = visit.depth;
        let kids = child_values(value);
        let ghost below = children(value.tree());
        out.push(visit);
        let count: usize = out.len();
        assert(visit_nodes(out@) =~= visit_nodes(out_before).push((value.tree(), depth as nat)));
        proof {
            assert(walk(value.tree(), depth as nat) =~= seq![(value.tree(), depth as nat)]
                + walk_all(below, depth as nat + 1));
            assert forall|i: int| 0 <= i < stack@.len() implies (#[trigger] stack@[i]).depth
                <= out@.len() by {
                assert(stack@[i] == before[i]);
            }
        }
        let mut left: usize = kids.len();
        assert(below.skip(left as int) =~= seq![]);
        if left > 0 {
            let next: usize = depth + 1;
            while left > 0
                invariant
                    next == depth + 1,
                    next <= count,
                    count == out@.len(),
                    below == children(value.tree()),
                    left <= kids@.len(),
                    kids@.len() == below.len(),
                    forall|i: int|
                        0 <= i < kids@.len() ==> (#[trigger] kids@[i]).tree() == below[i],
                    pending(stack@) == walk_all(below.skip(left as int), depth as nat + 1)
                        + pending(base),
                    forall|i: int|
                        0 <= i < stack@.len() ==> (#[trigger] stack@[i]).depth <= out@.len(),
                decreases left,
            {
                let ghost stack_before = stack@;
                left -= 1;
                let kid = kids[left];
                stack.push(Visit { value: kid, depth: next });
                proof {
                    assert(stack@.drop_last() =~= stack_before);
                    let rest = below.skip(left as int);
                    assert(rest[0] == below[left as int]);
                    assert(rest.drop_first() =~= below.skip(left as int + 1));
                    assert(walk_all(rest, depth as nat + 1) =~= walk(rest[0], depth as nat + 1)
                        + walk_all(below.skip(left as int + 1), depth as nat + 1));
                    assert(pending(stack@) =~= walk_all(rest, depth as nat + 1) + pending(base));
                }
            }
        }
        assert(below.skip(0) =~= below);
        assert(pending(stack@) =~= walk_all(below, depth as nat + 1) + pending(base));
        assert(visit_nodes(out@) + pending(stack@) =~= visit_nodes(out_before) + pending(before));
    }
    assert(visit_nodes(out@) + pending(stack@) =~= visit_nodes(out@));
    out
}

/// Whether a document respects the limits.
pub fn respects(root: &Json, limits: &Limits) -> (r: bool)
    ensures
        r == within_limits(root.tree(), *limits),
{
    let nodes = visits(root);
    let ghost walked = walk(root.tree(), 0);
    if nodes.len() > limits.nodes {
        return false;
    }
    let mut i: usize = 0;
    while i < nodes.len()
        invariant
            walked == walk(root.tree(), 0),
            visit_nodes(nodes@) == walked,
            nodes@.len() == walked.len(),
            i <= nodes@.len(),
            forall|j: int| 0 <= j < i ==> node_within(#[trigger] walked[j], *limits),
        decreases nodes@.len() - i,
    {
        assert(walked[i as int] == nodes@[i as int].node());
        if nodes[i].depth > limits.depth {
            assert(!node_within(walked[i as int], *limits));
            return false;
        }
        match nodes[i].value {
            Json::Text(s) => {
                if s.as_str().len() > limits.text_bytes {
                    assert(!node_within(walked[i as int], *limits));
                    return false;
                }
            },
            Json::Object(fields) => {
                let ghost names = keys(walked[i as int].0);
                let mut k: usize = 0;
                while k < fields.len()
                    invariant
                        walked == walk(root.tree(), 0),
                        0 <= i < walked.len(),
                        nodes@[i as int].value == Json::Object(*fields),
                        walked[i as int] == nodes@[i as int].node(),
                        names == keys(walked[i as int].0),
                        names.len() == fields@.len(),
                        k <= fields@.len(),
                        forall|j: int|
                            0 <= j < k ==> text::byte_len(#[trigger] names[j]) <= limits.key_bytes,
                    decreases fields@.len() - k,
                {
                    assert(names[k as int] == fields@[k as int].0@);
                    if fields[k].0.as_str().len() > limits.key_bytes {
                        assert(!node_within(walked[i as int], *limits));
                        return false;
                    }
                    k += 1;
                }
            },
            _ => {},
        }
        i += 1;
    }
    true
}

impl Json {
    /// The field `key` of an object.
    pub fn get(&self, key: &str) -> (r: Option<&Json>)
        ensures
            match r {
                Some(value) => field(self.tree(), key@) == Some(value.tree()),
                None => field(self.tree(), key@) is None,
            },
    {
        match self {
            Json::Object(fields) => {
                let wanted = text::chars_of(key);
                let ghost names = keys(self.tree());
                let mut i: usize = 0;
                while i < fields.len()
                    invariant
                        *self == Json::Object(*fields),
                        names == keys(self.tree()),
                        names.len() == fields@.len(),
                        wanted@ == key@,
                        i <= fields@.len(),
                        key_position(names, key@, 0) == key_position(names, key@, i as int),
                    decreases fields@.len() - i,
                {
                    let name = text::chars_of(fields[i].0.as_str());
                    assert(names[i as int] == fields@[i as int].0@);
                    if text::same(name.as_slice(), wanted.as_slice()) {
                        return Some(&fields[i].1);
                    }
                    i += 1;
                }
                None
            },
            _ => None,
        }
    }

    /// Whether the value is an object.
    pub fn is_object(&self) -> (r: bool)
        ensures
            r == (self.tree() is Object),
    {
        match self {
            Json::Object(_) => true,
            _ => false,
        }
    }
}

/// The trees of a list of values.
pub open spec fn trees(values: Seq<&Json>) -> Seq<Tree> {
    Seq::new(values.len(), |i: int| values[i].tree())
}

/// The values of the first `n` fields whose key equals `key` up to ASCII case.
pub open spec fn matching(
    names: Seq<Seq<char>>,
    values: Seq<Tree>,
    key: Seq<char>,
    n: int,
) -> Seq<Tree>
    decreases n,
{
    if n <= 0 {
        seq![]
    } else if text::same_ignoring_case(names[n - 1], key) {
        matching(names, values, key, n - 1).push(values[n - 1])
    } else {
        matching(names, values, key, n - 1)
    }
}

/// Along the first `n` values of a walk, the field values whose key equals
/// `key` up to ASCII case, in order.
pub open spec fn keyed(nodes: Seq<(Tree, nat)>, key: Seq<char>, n: int) -> Seq<Tree>
    decreases n,
{
    if n <= 0 {
        seq![]
    } else {
        keyed(nodes, key, n - 1) + matching(
            keys(nodes[n - 1].0),
            children(nodes[n - 1].0),
            key,
            keys(nodes[n - 1].0).len() as int,
        )
    }
}

/// Every field value of a document whose key equals `key` up to ASCII case, in
/// walk order.
pub open spec fn values_for_key(t: Tree, key: Seq<char>) -> Seq<Tree> {
    keyed(walk(t, 0), key, walk(t, 0).len() as int)
}

/// The first result that `f` gives at or behind `from`.
pub open spec fn first_of<T>(values: Seq<Tree>, f: spec_fn(Tree) -> Option<T>, from: int) -> Option<
    T,
>
    decreases values.len() - from,
{
    if from < 0 || from >= values.len() {
        None
    } else {
        match f(values[from]) {
            Some(hit) => Some(hit),
            None => first_of(values, f, from + 1),
        }
    }
}

/// Whether an object has one of the keys.
pub open spec fn has_any_key(t: Tree, wanted: Seq<Seq<char>>) -> bool {
    exists|i: int| 0 <= i < wanted.len() && field(t, #[trigger] wanted[i]) is Some
}

/// Every field value of a document whose key equals `key` up to ASCII case, in
/// walk order.
pub fn find_values<'a>(root: &'a Json, key: &str) -> (r: Vec<&'a Json>)
    ensures
        trees(r@) == values_for_key(root.tree(), key@),
        r@.len() == values_for_key(root.tree(), key@).len(),
{
    let wanted = text::chars_of(key);
    let nodes = visits(root);
    let ghost walked = walk(root.tree(), 0);
    let mut r: Vec<&'a Json> = Vec::new();
    let mut i: usize = 0;
    assert(trees(r@) =~= seq![]);
    while i < nodes.len()
        invariant
            wanted@ == key@,
            walked == walk(root.tree(), 0),
            visit_nodes(nodes@) == walked,
            nodes@.len() == walked.len(),
            i <= nodes@.len(),
            trees(r@) == keyed(walked, key@, i as int),
        decreases nodes@.len() - i,
    {
        assert(walked[i as int] == nodes@[i as int].node());
        let ghost before = trees(r@);
        let ghost names = keys(walked[i as int].0);
        let ghost below = children(walked[i as int].0);
        match nodes[i].value {
            Json::Object(fields) => {
                let mut k: usize = 0;
                assert(before + Seq::<Tree>::empty() =~= before);
                while k < fields.len()
                    invariant
                        wanted@ == key@,
                        walked[i as int].0 == Json::Object(*fields).tree(),
                        names == keys(walked[i as int].0),
                        below == children(walked[i as int].0),
                        names.len() == fields@.len(),
                        k <= fields@.len(),
                        trees(r@) == before + matching(names, below, key@, k as int),
                    decreases fields@.len() - k,
                {
                    let name = text::chars_of(fields[k].0.as_str());
                    assert(names[k as int] == fields@[k as int].0@);
                    assert(below[k as int] == fields@[k as int].1.tree());
                    if text::eq_ignore_case(name.as_slice(), wanted.as_slice()) {
                        let ghost so_far = trees(r@);
                        r.push(&fields[k].1);
                        assert(trees(r@) =~= so_far.push(below[k as int]));
                        assert(trees(r@) =~= before + matching(names, below, key@, k as int + 1));
                    }
                    k += 1;
                }
            },
            _ => {
                assert(names =~= seq![]);
                assert(before + matching(names, below, key@, 0) =~= before);
            },
        }
        i += 1;
    }
    r
}

/// Whether an object has one of the keys.
pub fn contains_any_key(value: &Json, wanted: &Vec<&str>) -> (r: bool)
    ensures
        r == has_any_key(value.tree(), wanted.deep_view()),
{
    let mut i: usize = 0;
    while i < wanted.len()
        invariant
            i <= wanted@.len(),
            forall|j: int|
                0 <= j < i ==> field(value.tree(), #[trigger] wanted.deep_view()[j]) is None,
        decreases wanted@.len() - i,
    {
        assert(wanted.deep_view()[i as int] == wanted@[i as int]@);
        if value.get(wanted[i]).is_some() {
            assert(field(value.tree(), wanted.deep_view()[i as int]) is Some);
            return true;
        }
        i += 1;
    }
    false
}

/// The value itself where it is an object with one of the keys.
pub open spec fn holder(wanted: Seq<Seq<char>>) -> spec_fn(Tree) -> Option<Tree> {
    |t: Tree|
        if has_any_key(t, wanted) {
            Some(t)
        } else {
            None
        }
}

/// The first object of a walk that has one of the keys.
pub open spec fn first_holder(t: Tree, wanted: Seq<Seq<char>>) -> Option<Tree> {
    first_hit(walk(t, 0), holder(wanted))
}

/// The first object of a document, in walk order, that has one of the keys.
pub fn find_object_containing_any<'a>(root: &'a Json, wanted: &Vec<&str>) -> (r: Option<&'a Json>)
    ensures
        match r {
            Some(found) => first_holder(root.tree(), wanted.deep_view()) == Some(found.tree()),
            None => first_holder(root.tree(), wanted.deep_view()) is None,
        },
{
    let nodes = visits(root);
    let ghost walked = walk(root.tree(), 0);
    let ghost f = holder(wanted.deep_view());
    let mut i: usize = 0;
    while i < nodes.len()
        invariant
            walked == walk(root.tree(), 0),
            f == holder(wanted.deep_view()),
            visit_nodes(nodes@) == walked,
            nodes@.len() == walked.len(),
            i <= nodes@.len(),
            forall|j: int| 0 <= j < i ==> f((#[trigger] walked[j]).0) is None,
        decreases nodes@.len() - i,
    {
        assert(walked[i as int] == nodes@[i as int].node());
        if contains_any_key(nodes[i].value, wanted) {
            proof {
                lemma_first_hit_skip(walked, f, i as int);
                assert(walked.skip(i as int)[0] == walked[i as int]);
            }
            return Some(nodes[i].value);
        }
        i += 1;
    }
    proof {
        lemma_first_hit_skip(walked, f, walked.len() as int);
    }
    None
}

/// Whether each key comes before those behind it.
pub open spec fn ascending(names: Seq<Seq<char>>) -> bool {
    forall|i: int, j: int|
        0 <= i < j < names.len() ==> text::precedes(#[trigger] names[i], #[trigger] names[j])
}

/// Whether the keys of every object in a document ascend.
pub open spec fn ordered(t: Tree) -> bool
    decreases t,
{
    match t {
        Tree::Array(items) => forall|i: int| 0 <= i < items.len() ==> ordered(#[trigger] items[i]),
        Tree::Object(names, values) => names.len() == values.len() && ascending(names) && forall|
            i: int,
        |
            0 <= i < values.len() ==> ordered(#[trigger] values[i]),
        _ => true,
    }
}

/// The first place at or behind `from` whose key comes behind `key`.
pub open spec fn key_slot(
    names: Seq<Seq<char>>,
    order: Seq<usize>,
    key: Seq<char>,
    from: int,
) -> int
    decreases order.len() - from,
{
    if from < 0 || from >= order.len() || text::precedes(key, names[order[from] as int]) {
        from
    } else {
        key_slot(names, order, key, from + 1)
    }
}

/// The positions of the first `n` keys, in ascending order of the keys.
pub open spec fn key_order(names: Seq<Seq<char>>, n: int) -> Seq<usize>
    decreases n,
{
    if n <= 0 {
        seq![]
    } else {
        let before = key_order(names, n - 1);
        before.insert(key_slot(names, before, names[n - 1], 0), (n - 1) as usize)
    }
}

proof fn lemma_key_slot(names: Seq<Seq<char>>, order: Seq<usize>, key: Seq<char>, from: int)
    requires
        0 <= from <= order.len(),
    ensures
        from <= key_slot(names, order, key, from) <= order.len(),
    decreases order.len() - from,
{
    if from < order.len() && !text::precedes(key, names[order[from] as int]) {
        lemma_key_slot(names, order, key, from + 1);
    }
}

/// The order of `n` keys holds `n` positions, all of keys among them.
pub proof fn lemma_key_order(names: Seq<Seq<char>>, n: int)
    requires
        0 <= n <= names.len() <= usize::MAX,
    ensures
        key_order(names, n).len() == n,
        forall|i: int| 0 <= i < n ==> (#[trigger] key_order(names, n)[i]) < n,
    decreases n,
{
    if n > 0 {
        lemma_key_order(names, n - 1);
        let before = key_order(names, n - 1);
        lemma_key_slot(names, before, names[n - 1], 0);
        let at = key_slot(names, before, names[n - 1], 0);
        let all = key_order(names, n);
        assert forall|i: int| 0 <= i < n implies (#[trigger] all[i]) < n by {
            if i < at {
                assert(all[i] == before[i]);
            } else if i > at {
                assert(all[i] == before[i - 1]);
            }
        }
    }
}

/// The positions of an object's fields, in ascending order of their keys.
pub fn order_keys(fields: &Vec<(String, Json)>) -> (r: Vec<usize>)
    ensures
        r@ == key_order(Seq::new(fields@.len(), |i: int| fields@[i].0@), fields@.len() as int),
{
    let ghost names = Seq::new(fields@.len(), |i: int| fields@[i].0@);
    let mut order: Vec<usize> = Vec::new();
    let mut i: usize = 0;
    while i < fields.len()
        invariant
            i <= fields@.len(),
            names == Seq::new(fields@.len(), |k: int| fields@[k].0@),
            order@ == key_order(names, i as int),
        decreases fields@.len() - i,
    {
        proof {
            lemma_key_order(names, i as int);
        }
        let key = text::chars_of(fields[i].0.as_str());
        let mut at: usize = 0;
        let mut searching = at < order.len();
        while searching
            invariant
                key@ == names[i as int],
                i < fields@.len(),
                names == Seq::new(fields@.len(), |k: int| fields@[k].0@),
                order@.len() == i,
                forall|k: int| 0 <= k < i ==> (#[trigger] order@[k]) < i,
                at <= order@.len(),
                searching ==> at < order@.len(),
                key_slot(names, order@, key@, 0) == key_slot(names, order@, key@, at as int),
                !searching ==> key_slot(names, order@, key@, at as int) == at,
            decreases order@.len() - at, (if searching {
                1int
            } else {
                0
            }),
        {
            let place: usize = order[at];
            let other = text::chars_of(fields[place].0.as_str());
            assert(names[place as int] == other@);
            if text::is_before(key.as_slice(), other.as_slice()) {
                searching = false;
            } else {
                at += 1;
                searching = at < order.len();
            }
        }
        order.insert(at, i);
        i += 1;
    }
    order
}

/// Whether a number's text is that of a whole number in the range that documents
/// keep exactly.
pub open spec fn whole_number(n: Seq<char>) -> bool {
    exists|k: int| i64::MIN <= k <= u64::MAX && n == #[trigger] text::signed_digits(k)
}

/// Whether every number in a document is whole.
pub open spec fn whole_numbers(t: Tree) -> bool
    decreases t,
{
    match t {
        Tree::Number(n) => whole_number(n),
        Tree::Array(items) => forall|i: int|
            0 <= i < items.len() ==> whole_numbers(#[trigger] items[i]),
        Tree::Object(_, values) => forall|i: int|
            0 <= i < values.len() ==> whole_numbers(#[trigger] values[i]),
        _ => true,
    }
}

/// Whether arrays and objects are nested at most so deeply in a document.
pub open spec fn nested_within(t: Tree, room: nat) -> bool
    decreases t,
{
    match t {
        Tree::Array(items) => room > 0 && forall|i: int|
            0 <= i < items.len() ==> nested_within(#[trigger] items[i], (room - 1) as nat),
        Tree::Object(_, values) => room > 0 && forall|i: int|
            0 <= i < values.len() ==> nested_within(#[trigger] values[i], (room - 1) as nat),
        _ => true,
    }
}

/// How deeply arrays and objects may be nested in a text that is read back.
pub const MAX_NESTING: usize = 127;

/// Whether a document is read back from its own text: its keys ascend, its numbers
/// are whole, and it is not nested too deeply.
pub open spec fn writable(t: Tree) -> bool {
    ordered(t) && whole_numbers(t) && nested_within(t, MAX_NESTING as nat)
}

/// Whether what was read of a body is the document that the body was written from,
/// where it is the text of a writable one.
pub open spec fn reads_back(body: Seq<u8>, read: Option<Tree>) -> bool {
    forall|t: Tree|
        writable(t) && body == vstd::utf8::encode_utf8(#[trigger] rendered(t)) ==> read == Some(t)
}

/// A JSON value as the parser hands it over.
#[verifier::external_type_specification]
#[verifier::external_body]
pub struct ExValue(serde_json::Value);

/// What a parsed value holds.
pub uninterp spec fn value_tree(value: serde_json::Value) -> Tree;

/// What the JSON parser makes of a document; `None` where it rejects it.
pub uninterp spec fn parsed_json(bytes: Seq<u8>) -> Option<Tree>;

/// One level of a parsed value.
enum Level {
    Null,
    Bool(bool),
    Number(String),
    Text(String),
    Array(Vec<serde_json::Value>),
    Object(Vec<(String, serde_json::Value)>),
}

/// `serde_json::from_slice` reads one whole document. Its result is a function
/// of the bytes alone, and is named `parsed_json`. The compact text of a document
/// with ascending keys and whole numbers, within the parser's limit on nesting, is
/// read back as that document.
#[verifier::external_body]
fn read_value(bytes: &[u8]) -> (value: Option<serde_json::Value>)
    ensures
        match value {
            Some(v) => parsed_json(bytes@) == Some(value_tree(v)),
            None => parsed_json(bytes@) is None,
        },
        reads_back(
            bytes@,
            match value {
                Some(v) => Some(value_tree(v)),
                None => None,
            },
        ),
{
    serde_json::from_slice::<serde_json::Value>(bytes).ok()
}

/// Tells the variants of `serde_json::Value` apart and moves their contents
/// out. A number comes as the text of its `Display`, an object as the pairs of
/// its map in the map's order, which is that of the keys.
#[verifier::external_body]
fn open_value(value: serde_json::Value) -> (level: Level)
    ensures
        match level {
            Level::Null => value_tree(value) == Tree::Null,
            Level::Bool(b) => value_tree(value) == Tree::Bool(b),
            Level::Number(n) => value_tree(value) == Tree::Number(n@),
            Level::Text(s) => value_tree(value) == Tree::Text(s@),
            Level::Array(items) => value_tree(value) == Tree::Array(
                Seq::new(items@.len(), |i: int| value_tree(items@[i])),
            ),
            Level::Object(fields) => value_tree(value) == Tree::Object(
                Seq::new(fields@.len(), |i: int| fields@[i].0@),
                Seq::new(fields@.len(), |i: int| value_tree(fields@[i].1)),
            ) && ascending(Seq::new(fields@.len(), |i: int| fields@[i].0@)),
        },
{
    match value {
        serde_json::Value::Null => Level::Null,
        serde_json::Value::Bool(b) => Level::Bool(b),
        serde_json::Value::Number(n) => Level::Number(n.to_string()),
        serde_json::Value::String(s) => Level::Text(s),
        serde_json::Value::Array(items) => Level::Array(items),
        serde_json::Value::Object(fields) => Level::Object(fields.into_iter().collect()),
    }
}

/// Copies a parsed value into a plain tree.
fn from_value(value: serde_json::Value) -> (r: Json)
    ensures
        r.tree() == value_tree(value),
        ordered(r.tree()),
    decreases value_tree(value),
{
    let ghost whole = value_tree(value);
    match open_value(value) {
        Level::Null => Json::Null,
        Level::Bool(b) => Json::Bool(b),
        Level::Number(n) => Json::Number(n),
        Level::Text(s) => Json::Text(s),
        Level::Array(items) => {
            let mut pending_items = items;
            let ghost all = items@;
            let mut reversed: Vec<Json> = Vec::new();
            while pending_items.len() > 0
                invariant
                    whole == Tree::Array(Seq::new(all.len(), |i: int| value_tree(all[i]))),
                    whole == value_tree(value),
                    pending_items@ == all.take(pending_items@.len() as int),
                    pending_items@.len() + reversed@.len() == all.len(),
                    forall|j: int|
                        0 <= j < reversed@.len() ==> (#[trigger] reversed@[j]).tree() == value_tree(
                            all[all.len() - 1 - j],
                        ) && ordered(reversed@[j].tree()),
                decreases pending_items@.len(),
            {
                let ghost at = pending_items@.len() - 1;
                let item = pending_items.pop().unwrap();
                proof {
                    let trees = children(whole);
                    assert(trees[at] == value_tree(item));
                    assert(decreases_to!(whole => trees));
                    assert(decreases_to!(trees => trees[at]));
                }
                reversed.push(from_value(item));
            }
            let mut copied: Vec<Json> = Vec::new();
            while reversed.len() > 0
                invariant
                    reversed@.len() + copied@.len() == all.len(),
                    forall|j: int|
                        0 <= j < reversed@.len() ==> (#[trigger] reversed@[j]).tree() == value_tree(
                            all[all.len() - 1 - j],
                        ) && ordered(reversed@[j].tree()),
                    forall|j: int|
                        0 <= j < copied@.len() ==> (#[trigger] copied@[j]).tree() == value_tree(
                            all[j],
                        ) && ordered(copied@[j].tree()),
                decreases reversed@.len(),
            {
                copied.push(reversed.pop().unwrap());
            }
            let r = Json::Array(copied);
            assert(children(r.tree()) =~= children(whole));
            assert forall|i: int| 0 <= i < all.len() implies ordered(
                #[trigger] children(whole)[i],
            ) by {
                assert(copied@[i].tree() == children(whole)[i]);
            }
            r
        },
        Level::Object(fields) => {
            let mut pending_fields = fields;
            let ghost all = fields@;
            let mut reversed: Vec<(String, Json)> = Vec::new();
            while pending_fields.len() > 0
                invariant
                    whole == Tree::Object(
                        Seq::new(all.len(), |i: int| all[i].0@),
                        Seq::new(all.len(), |i: int| value_tree(all[i].1)),
                    ),
                    whole == value_tree(value),
                    pending_fields@ == all.take(pending_fields@.len() as int),
                    pending_fields@.len() + reversed@.len() == all.len(),
                    forall|j: int|
                        0 <= j < reversed@.len() ==> (#[trigger] reversed@[j]).1.tree()
                            == value_tree(all[all.len() - 1 - j].1) && reversed@[j].0@ == all[all.len()
                            - 1 - j].0@ && ordered(reversed@[j].1.tree()),
                decreases pending_fields@.len(),
            {
                let ghost at = pending_fields@.len() - 1;
                let (name, item) = pending_fields.pop().unwrap();
                proof {
                    let trees = children(whole);
                    assert(trees[at] == value_tree(item));
                    assert(decreases_to!(whole => trees));
                    assert(decreases_to!(trees => trees[at]));
                }
                reversed.push((name, from_value(item)));
            }
            let mut copied: Vec<(String, Json)> = Vec::new();
            while reversed.len() > 0
                invariant
                    reversed@.len() + copied@.len() == all.len(),
                    forall|j: int|
                        0 <= j < reversed@.len() ==> (#[trigger] reversed@[j]).1.tree()
                            == value_tree(all[all.len() - 1 - j].1) && reversed@[j].0@ == all[all.len()
                            - 1 - j].0@ && ordered(reversed@[j].1.tree()),
                    forall|j: int|
                        0 <= j < copied@.len() ==> (#[trigger] copied@[j]).1.tree() == value_tree(
                            all[j].1,
                        ) && copied@[j].0@ == all[j].0@ && ordered(copied@[j].1.tree()),
                decreases reversed@.len(),
            {
                copied.push(reversed.pop().unwrap());
            }
            let r = Json::Object(copied);
            assert(children(r.tree()) =~= children(whole));
            assert(keys(r.tree()) =~= keys(whole));
            assert forall|i: int| 0 <= i < all.len() implies ordered(
                #[trigger] children(whole)[i],
            ) by {
                assert(copied@[i].1.tree() == children(whole)[i]);
            }
            r
        },
    }
}

/// Reads one JSON document; `None` where the parser rejects it. The keys of its
/// objects ascend, and the text that [`render`] gives of a writable document is
/// read back as that document.
pub fn parse(bytes: &[u8]) -> (r: Option<Json>)
    ensures
        match r {
            Some(document) => parsed_json(bytes@) == Some(document.tree()) && ordered(
                document.tree(),
            ),
            None => parsed_json(bytes@) is None,
        },
        reads_back(bytes@, optional_tree(r)),
{
    match read_value(bytes) {
        Some(value) => Some(from_value(value)),
        None => None,
    }
}

/// A text as a JSON string, with its quotes and escapes.
pub uninterp spec fn json_quoted(source: Seq<char>) -> Seq<char>;

/// `serde_json::to_string` on a text, which cannot fail. The result is named
/// `json_quoted`.
#[verifier::external_body]
fn quote(source: &str) -> (r: String)
    ensures
        r@ == json_quoted(source@),
{
    serde_json::to_string(source).unwrap_or_default()
}

/// The compact JSON text of a value.
pub open spec fn rendered(t: Tree) -> Seq<char>
    decreases t, 0nat,
{
    match t {
        Tree::Null => "null"@,
        Tree::Bool(b) => if b {
            "true"@
        } else {
            "false"@
        },
        Tree::Number(n) => n,
        Tree::Text(s) => json_quoted(s),
        Tree::Array(items) => "["@ + rendered_items(items, items.len()) + "]"@,
        Tree::Object(names, values) => "{"@ + rendered_fields(names, values, values.len()) + "}"@,
    }
}

/// The first `n` items, separated by commas.
pub open spec fn rendered_items(items: Seq<Tree>, n: nat) -> Seq<char>
    decreases items, n,
{
    if n == 0 || n > items.len() {
        seq![]
    } else if n == 1 {
        rendered(items[0])
    } else {
        rendered_items(items, (n - 1) as nat) + ","@ + rendered(items[n - 1])
    }
}

/// The first `n` fields, separated by commas.
pub open spec fn rendered_fields(names: Seq<Seq<char>>, values: Seq<Tree>, n: nat) -> Seq<char>
    decreases values, n,
{
    if n == 0 || n > values.len() {
        seq![]
    } else if n == 1 {
        json_quoted(names[0]) + ":"@ + rendered(values[0])
    } else {
        rendered_fields(names, values, (n - 1) as nat) + ","@ + json_quoted(names[n - 1]) + ":"@
            + rendered(values[n - 1])
    }
}

/// Writes a value as compact JSON text.
pub fn render(value: &Json) -> (r: String)
    ensures
        r@ == rendered(value.tree()),
    decreases value.tree(),
{
    let ghost whole = value.tree();
    match value {
        Json::Null => "null".to_owned(),
        Json::Bool(b) => if *b {
            "true".to_owned()
        } else {
            "false".to_owned()
        },
        Json::Number(n) => n.clone(),
        Json::Text(s) => quote(s.as_str()),
        Json::Array(items) => {
            let ghost all = children(whole);
            let mut r = "[".to_owned();
            let mut i: usize = 0;
            assert(r@ =~= "["@ + rendered_items(all, 0));
            while i < items.len()
                invariant
                    *value == Json::Array(*items),
                    whole == value.tree(),
                    all == children(whole),
                    all.len() == items@.len(),
                    i <= items@.len(),
                    r@ == "["@ + rendered_items(all, i as nat),
                decreases items@.len() - i,
            {
                proof {
                    assert(all[i as int] == items@[i as int].tree());
                    assert(decreases_to!(whole => all));
                    assert(decreases_to!(all => all[i as int]));
                }
                let item = render(&items[i]);
                if i > 0 {
                    r.append(",");
                }
                r.append(item.as_str());
                i += 1;
                assert(r@ =~= "["@ + rendered_items(all, i as nat));
            }
            r.append("]");
            r
        },
        Json::Object(fields) => {
            let ghost all = children(whole);
            let ghost names = keys(whole);
            let mut r = "{".to_owned();
            let mut i: usize = 0;
            assert(r@ =~= "{"@ + rendered_fields(names, all, 0));
            while i < fields.len()
                invariant
                    *value == Json::Object(*fields),
                    whole == value.tree(),
                    all == children(whole),
                    names == keys(whole),
                    all.len() == fields@.len(),
                    i <= fields@.len(),
                    r@ == "{"@ + rendered_fields(names, all, i as nat),
                decreases fields@.len() - i,
            {
                proof {
                    assert(all[i as int] == fields@[i as int].1.tree());
                    assert(names[i as int] == fields@[i as int].0@);
                    assert(decreases_to!(whole => all));
                    assert(decreases_to!(all => all[i as int]));
                }
                let name = quote(fields[i].0.as_str());
                let item = render(&fields[i].1);
                if i > 0 {
                    r.append(",");
                }
                r.append(name.as_str());
                r.append(":");
                r.append(item.as_str());
                i += 1;
                assert(r@ =~= "{"@ + rendered_fields(names, all, i as nat));
            }
            r.append("}");
            r
        },
    }
}

/// A text value.
pub fn owned_text(s: &str) -> (r: Json)
    ensures
        r.tree() == Tree::Text(s@),
{
    Json::Text(s.to_owned())
}

/// The bytes of an optional body.
pub open spec fn optional_bytes(body: Option<&[u8]>) -> Option<Seq<u8>> {
    match body {
        Some(bytes) => Some(bytes@),
        None => None,
    }
}

/// The value of an optional document.
pub open spec fn optional_tree(value: Option<Json>) -> Option<Tree> {
    match value {
        Some(v) => Some(v.tree()),
        None => None,
    }
}

/// Whether the text of a number denotes another number than zero: a digit that
/// is not zero stands before its exponent.
pub open spec fn nonzero_from(n: Seq<char>, from: int) -> bool
    decreases n.len() - from,
{
    if from < 0 || from >= n.len() || n[from] == 'e' || n[from] == 'E' {
        false
    } else {
        ('1' <= n[from] && n[from] <= '9') || nonzero_from(n, from + 1)
    }
}

/// Whether the text of a number denotes another number than zero.
pub fn is_nonzero(number: &str) -> (r: bool)
    ensures
        r == nonzero_from(number@, 0),
{
    let n = text::chars_of(number);
    let mut i: usize = 0;
    while i < n.len()
        invariant
            n@ == number@,
            i <= n@.len(),
            nonzero_from(n@, 0) == nonzero_from(n@, i as int),
        decreases n@.len() - i,
    {
        if n[i] == 'e' || n[i] == 'E' {
            return false;
        }
        if '1' <= n[i] && n[i] <= '9' {
            return true;
        }
        i += 1;
    }
    false
}

/// The document of a body that is not empty, not too long and within limits.
pub open spec fn bounded_document(body: Seq<u8>, max_bytes: usize, limits: Limits) -> Option<Tree> {
    if body.len() == 0 || body.len() > max_bytes {
        None
    } else {
        match parsed_json(body) {
            Some(t) => if within_limits(t, limits) {
                Some(t)
            } else {
                None
            },
            None => None,
        }
    }
}

/// Reads the document of a body that is not empty, not too long and within
/// limits.
pub fn parse_bounded(body: &[u8], max_bytes: usize, limits: &Limits) -> (r: Option<Json>)
    ensures
        match r {
            Some(document) => bounded_document(body@, max_bytes, *limits) == Some(document.tree()),
            None => bounded_document(body@, max_bytes, *limits) is None,
        },
{
    if body.len() == 0 || body.len() > max_bytes {
        return None;
    }
    match parse(body) {
        Some(document) => if respects(&document, limits) {
            Some(document)
        } else {
            None
        },
        None => None,
    }
}

/// A field of an object is the value of the first key of that name.
pub proof fn law_fields_are_those_of_the_first_key(
    names: Seq<Seq<char>>,
    values: Seq<Tree>,
    key: Seq<char>,
)
    ensures
        match field(Tree::Object(names, values), key) {
            Some(value) => exists|at: int|
                0 <= at < names.len() && #[trigger] names[at] == key && value == values[at] && forall|
                    i: int,
                |
                    0 <= i < at ==> #[trigger] names[i] != key,
            None => !names.contains(key),
        },
{
    lemma_first_key(names, key, 0);
}

proof fn lemma_first_key(names: Seq<Seq<char>>, key: Seq<char>, from: int)
    requires
        0 <= from,
    ensures
        match key_position(names, key, from) {
            Some(at) => from <= at < names.len() && names[at] == key && forall|i: int|
                from <= i < at ==> #[trigger] names[i] != key,
            None => forall|i: int| from <= i < names.len() ==> #[trigger] names[i] != key,
        },
    decreases names.len() - from,
{
    if from < names.len() && names[from] != key {
        lemma_first_key(names, key, from + 1);
    }
}

} // verus!
