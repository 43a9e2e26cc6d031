//! Bounded reading of Qwen Cloud responses, whose texts may themselves hold JSON
//! documents.

use vstd::prelude::*;

use crate::error::{ClassifiedError, ErrorKind};
use crate::json;
use crate::json::{Json, Tree};
use crate::text;

verus! {

pub const MAX_RESPONSE_BYTES: usize = 2 * 1024 * 1024;

pub const MAX_JSON_NODES: usize = 32_768;

pub const MAX_JSON_DEPTH: usize = 40;

pub const MAX_JSON_STRING_BYTES: usize = 512 * 1024;

pub const MAX_EMBEDDED_JSON_LAYERS: usize = 6;

/// Whether a text may hide a JSON document: it starts with a brace or bracket.
pub open spec fn looks_embedded(s: Seq<char>) -> bool {
    s.len() > 0 && (s[0] == '{' || s[0] == '[')
}

/// A document with the JSON documents inside its texts expanded, and the number
/// of values visited, where `used` values were visited before. `None` where a
/// limit on values, depth, text, keys or embedding is exceeded.
pub open spec fn expanded(t: Tree, depth: nat, layers: nat, used: nat) -> Option<(Tree, nat)>
    decreases MAX_EMBEDDED_JSON_LAYERS - layers, t, 1nat,
{
    if used + 1 > MAX_JSON_NODES || depth > MAX_JSON_DEPTH {
        None
    } else {
        match t {
            Tree::Text(s) => if text::byte_len(s) > MAX_JSON_STRING_BYTES {
                None
            } else if !looks_embedded(text::trimmed(s)) {
                Some((t, used + 1))
            } else if layers >= MAX_EMBEDDED_JSON_LAYERS {
                None
            } else {
                match json::parsed_json(vstd::utf8::encode_utf8(text::trimmed(s))) {
                    Some(inner) => expanded(inner, depth, layers + 1, used + 1),
                    None => Some((t, used + 1)),
                }
            },
            Tree::Array(items) => match expanded_all(items, depth + 1, layers, used + 1) {
                Some((below, total)) => Some((Tree::Array(below), total)),
                None => None,
            },
            Tree::Object(names, values) => if exists|i: int|
                0 <= i < names.len() && text::byte_len(#[trigger] names[i])
                    > MAX_JSON_STRING_BYTES {
                None
            } else {
                match expanded_all(values, depth + 1, layers, used + 1) {
                    Some((below, total)) => Some((Tree::Object(names, below), total)),
                    None => None,
                }
            },
            _ => Some((t, used + 1)),
        }
    }
}

/// Several documents expanded one after the other.
pub open spec fn expanded_all(ts: Seq<Tree>, depth: nat, layers: nat, used: nat) -> Option<
    (Seq<Tree>, nat),
>
    decreases MAX_EMBEDDED_JSON_LAYERS - layers, ts, 0nat,
{
    if ts.len() == 0 {
        Some((seq![], used))
    } else {
        match expanded_all(ts.drop_last(), depth, layers, used) {
            None => None,
            Some((before, total)) => match expanded(ts.last(), depth, layers, total) {
                None => None,
                Some((last, after)) => Some((before.push(last), after)),
            },
        }
    }
}

/// The expanded document of a response body.
pub open spec fn bounded_document(body: Seq<u8>) -> Option<Tree> {
    if body.len() == 0 || body.len() > MAX_RESPONSE_BYTES {
        None
    } else {
        match json::parsed_json(body) {
            None => None,
            Some(root) => match expanded(root, 0, 0, 0) {
                Some((document, _)) => Some(document),
                None => None,
            },
        }
    }
}

/// A failed prefix fails the whole.
proof fn lemma_expanded_all_failure(ts: Seq<Tree>, n: int, depth: nat, layers: nat, used: nat)
    requires
        0 <= n <= ts.len(),
        expanded_all(ts.take(n), depth, layers, used) is None,
    ensures
        expanded_all(ts, depth, layers, used) is None,
    decreases ts.len() - n,
{
    if n < ts.len() {
        assert(ts.take(n + 1).drop_last() =~= ts.take(n));
        lemma_expanded_all_failure(ts, n + 1, depth, layers, used);
    } else {
        assert(ts.take(n) =~= ts);
    }
}

/// Expands the JSON documents inside the texts of a document, counting the
/// values visited in `used`.
fn expand(value: Json, depth: usize, layers: usize, used: &mut usize) -> (r: Option<Json>)
    requires
        json::ordered(value.tree()),
        *old(used) <= MAX_JSON_NODES,
        depth <= MAX_JSON_DEPTH + 1,
        layers <= MAX_EMBEDDED_JSON_LAYERS,
    ensures
        match r {
            Some(document) => expanded(
                value.tree(),
                depth as nat,
                layers as nat,
                *old(used) as nat,
            ) == Some((document.tree(), *final(used) as nat)) && *final(used) <= MAX_JSON_NODES
                && json::ordered(document.tree()),
            None => expanded(
                value.tree(),
                depth as nat,
                layers as nat,
                *old(used) as nat,
            ) is None,
        },
    decreases MAX_EMBEDDED_JSON_LAYERS - layers, value.tree(),
{
    if *used >= MAX_JSON_NODES || depth > MAX_JSON_DEPTH {
        return None;
    }
    let ghost whole = value.tree();
    let ghost start = *used as nat;
    *used = *used + 1;
    match value {
        Json::Text(s) => {
            if s.as_str().len() > MAX_JSON_STRING_BYTES {
                return None;
            }
            let chars = text::chars_of(s.as_str());
            let plain = text::trim(chars.as_slice());
            if plain.len() > 0 && (plain[0] == '{' || plain[0] == '[') {
                if layers == MAX_EMBEDDED_JSON_LAYERS {
                    return None;
                }
                let inner_text = text::text_of(plain);
                if let Some(inner) = json::parse(inner_text.as_str().as_bytes()) {
                    return expand(inner, depth, layers + 1, used);
                }
            }
            Some(Json::Text(s))
        },
        Json::Array(items) => {
            let ghost all = json::children(whole);
            let mut rest = items;
            let mut reversed: Vec<Json> = Vec::new();
            while rest.len() > 0
                invariant
                    all == json::children(whole),
                    rest@.len() + reversed@.len() == all.len(),
                    forall|j: int|
                        0 <= j < rest@.len() ==> (#[trigger] rest@[j]).tree() == all[j],
                    forall|j: int|
                        0 <= j < reversed@.len() ==> (#[trigger] reversed@[j]).tree()
                            == all[all.len() - 1 - j],
                decreases rest@.len(),
            {
                reversed.push(rest.pop().unwrap());
            }
            let mut below: Vec<Json> = Vec::new();
            assert(all.take(0) =~= seq![]);
            let ghost mut done: Seq<Tree> = seq![];
            while reversed.len() > 0
                invariant
                    whole is Array,
                    all == json::children(whole),
                    value.tree() == whole,
                    start == *old(used) as nat,
                    start + 1 <= MAX_JSON_NODES,
                    depth <= MAX_JSON_DEPTH,
                    layers <= MAX_EMBEDDED_JSON_LAYERS,
                    *used <= MAX_JSON_NODES,
                    below@.len() + reversed@.len() == all.len(),
                    forall|j: int|
                        0 <= j < reversed@.len() ==> (#[trigger] reversed@[j]).tree()
                            == all[all.len() - 1 - j],
                    done.len() == below@.len(),
                    forall|j: int| 0 <= j < below@.len() ==> (#[trigger] below@[j]).tree() == done[j],
                    forall|j: int| 0 <= j < done.len() ==> json::ordered(#[trigger] done[j]),
                    forall|j: int| 0 <= j < all.len() ==> json::ordered(#[trigger] all[j]),
                    expanded_all(
                        all.take(below@.len() as int),
                        depth as nat + 1,
                        layers as nat,
                        start + 1,
                    ) == Some((done, *used as nat)),
                decreases reversed@.len(),
            {
                let ghost at = below@.len() as int;
                let item = reversed.pop().unwrap();
                proof {
                    assert(item.tree() == all[at]);
                    assert(decreases_to!(whole => all));
                    assert(decreases_to!(all => all[at]));
                    assert(all.take(at + 1).drop_last() =~= all.take(at));
                    assert(all.take(at + 1).last() == all[at]);
                }
                match expand(item, depth + 1, layers, used) {
                    Some(document) => {
                        proof {
                            done = done.push(document.tree());
                        }
                        below.push(document);
                    },
                    None => {
                        proof {
                            lemma_expanded_all_failure(
                                all,
                                at + 1,
                                depth as nat + 1,
                                layers as nat,
                                start + 1,
                            );
                        }
                        return None;
                    },
                }
            }
            assert(all.take(below@.len() as int) =~= all);
            let r = Json::Array(below);
            assert(json::children(r.tree()) =~= done);
            Some(r)
        },
        Json::Object(fields) => {
            let ghost all = json::children(whole);
            let ghost names = json::keys(whole);
            let mut rest = fields;
            let mut reversed: Vec<(String, Json)> = Vec::new();
            let mut oversized = false;
            while rest.len() > 0
                invariant
                    all == json::children(whole),
                    names == json::keys(whole),
                    names.len() == all.len(),
                    rest@.len() + reversed@.len() == all.len(),
                    forall|j: int|
                        0 <= j < rest@.len() ==> (#[trigger] rest@[j]).1.tree() == all[j]
                            && rest@[j].0@ == names[j],
                    forall|j: int|
                        0 <= j < reversed@.len() ==> (#[trigger] reversed@[j]).1.tree()
                            == all[all.len() - 1 - j] && reversed@[j].0@ == names[all.len() - 1 - j],
                    oversized == (exists|j: int|
                        rest@.len() <= j < names.len() && text::byte_len(#[trigger] names[j])
                            > MAX_JSON_STRING_BYTES),
                decreases rest@.len(),
            {
                let pair = rest.pop().unwrap();
                if pair.0.as_str().len() > MAX_JSON_STRING_BYTES {
                    assert(text::byte_len(names[rest@.len() as int]) > MAX_JSON_STRING_BYTES);
                    oversized = true;
                }
                reversed.push(pair);
            }
            if oversized {
                return None;
            }
            let mut below: Vec<(String, Json)> = Vec::new();
            assert(all.take(0) =~= seq![]);
            let ghost mut done: Seq<Tree> = seq![];
            while reversed.len() > 0
                invariant
                    whole is Object,
                    all == json::children(whole),
                    names == json::keys(whole),
                    names.len() == all.len(),
                    value.tree() == whole,
                    !exists|j: int|
                        0 <= j < names.len() && text::byte_len(#[trigger] names[j])
                            > MAX_JSON_STRING_BYTES,
                    start == *old(used) as nat,
                    start + 1 <= MAX_JSON_NODES,
                    depth <= MAX_JSON_DEPTH,
                    layers <= MAX_EMBEDDED_JSON_LAYERS,
                    *used <= MAX_JSON_NODES,
                    below@.len() + reversed@.len() == all.len(),
                    forall|j: int|
                        0 <= j < reversed@.len() ==> (#[trigger] reversed@[j]).1.tree()
                            == all[all.len() - 1 - j] && reversed@[j].0@ == names[all.len() - 1 - j],
                    done.len() == below@.len(),
                    forall|j: int|
                        0 <= j < below@.len() ==> (#[trigger] below@[j]).1.tree() == done[j]
                            && below@[j].0@ == names[j],
                    json::ascending(names),
                    forall|j: int| 0 <= j < done.len() ==> json::ordered(#[trigger] done[j]),
                    forall|j: int| 0 <= j < all.len() ==> json::ordered(#[trigger] all[j]),
                    expanded_all(
                        all.take(below@.len() as int),
                        depth as nat + 1,
                        layers as nat,
                        start + 1,
                    ) == Some((done, *used as nat)),
                decreases reversed@.len(),
            {
                let ghost at = below@.len() as int;
                let (name, item) = reversed.pop().unwrap();
                proof {
                    assert(item.tree() == all[at]);
                    assert(decreases_to!(whole => all));
                    assert(decreases_to!(all => all[at]));
                    assert(all.take(at + 1).drop_last() =~= all.take(at));
                    assert(all.take(at + 1).last() == all[at]);
                }
                match expand(item, depth + 1, layers, used) {
                    Some(document) => {
                        proof {
                            done = done.push(document.tree());
                        }
                        below.push((name, document));
                    },
                    None => {
                        proof {
                            lemma_expanded_all_failure(
                                all,
                                at + 1,
                                depth as nat + 1,
                                layers as nat,
                                start + 1,
                            );
                        }
                        return None;
                    },
                }
            }
            assert(all.take(below@.len() as int) =~= all);
            let r = Json::Object(below);
            assert(json::children(r.tree()) =~= done);
            assert(json::keys(r.tree()) =~= names);
            Some(r)
        },
        other => Some(other),
    }
}

/// Whether every body that is written from a document of these limits, has whole
/// numbers and is not too long gives that document.
pub open spec fn reads_back(body: Seq<u8>, r: Result<Json, ClassifiedError>) -> bool {
    forall|t: Tree|
        body == vstd::utf8::encode_utf8(#[trigger] json::rendered(t)) && settled_document(t)
            && json::whole_numbers(t) && 0 < body.len() <= MAX_RESPONSE_BYTES ==> (
        r matches Ok(document) && document.tree() == t)
}

/// Reads a response body under its limits, with embedded documents expanded. The
/// result is complete: no text in it holds a document any more, and its values,
/// depth and texts are within their limits. Written with [`json::render`], a result
/// whose numbers are whole reads back as itself.
pub fn parse_bounded_json(body: &[u8]) -> (r: Result<Json, ClassifiedError>)
    ensures
        match r {
            Ok(document) => bounded_document(body@) == Some(document.tree()) && settled_document(
                document.tree(),
            ),
            Err(error) => bounded_document(body@) is None && error == crate::error::plain(
                ErrorKind::Parse,
            ),
        },
        reads_back(body@, r),
{
    if body.len() == 0 || body.len() > MAX_RESPONSE_BYTES {
        return Err(ClassifiedError::new(ErrorKind::Parse));
    }
    let read = json::parse(body);
    proof {
        assert forall|t: Tree|
            body@ == vstd::utf8::encode_utf8(#[trigger] json::rendered(t)) && settled_document(t)
                && json::whole_numbers(t) implies bounded_document(body@) == Some(t) by {
            lemma_nested_within(t, 0, json::MAX_NESTING as nat);
            assert(json::writable(t));
            law_settled_documents_unchanged(t, 0, 0, 0);
        }
    }
    let root = match read {
        Some(root) => root,
        None => return Err(ClassifiedError::new(ErrorKind::Parse)),
    };
    let ghost whole = root.tree();
    let mut used: usize = 0;
    match expand(root, 0, 0, &mut used) {
        Some(document) => {
            proof {
                law_expansion_is_complete(whole, 0, 0, 0, document.tree(), used as nat);
            }
            Ok(document)
        },
        None => Err(ClassifiedError::new(ErrorKind::Parse)),
    }
}

/// Whether a document is within the limits of a response, its keys ascend, and no
/// text in it holds a document.
pub open spec fn settled_document(t: Tree) -> bool {
    json::ordered(t) && all_settled(json::walk(t, 0), 0) && json::walk(t, 0).len()
        <= MAX_JSON_NODES
}

proof fn lemma_nested_within(t: Tree, depth: nat, room: nat)
    requires
        all_settled(json::walk(t, depth), 0),
        room + depth > MAX_JSON_DEPTH,
    ensures
        json::nested_within(t, room),
    decreases t,
{
    let nodes = json::walk(t, depth);
    assert(settled_node(nodes[0], 0));
    assert(nodes[0] == (t, depth));
    let below = json::children(t);
    assert forall|i: int| 0 <= i < below.len() implies json::nested_within(
        #[trigger] below[i],
        (room - 1) as nat,
    ) by {
        lemma_walk_holds_child(below, depth + 1, i);
        let rest = json::walk_all(below, depth + 1);
        assert(nodes =~= seq![(t, depth)] + rest);
        let inner = json::walk(below[i], depth + 1);
        let start = choose|start: int|
            0 <= start && start + inner.len() <= rest.len() && inner == #[trigger] rest.subrange(
                start,
                start + inner.len(),
            );
        assert forall|k: int| 0 <= k < inner.len() implies settled_node(#[trigger] inner[k], 0) by {
            assert(inner[k] == rest[start + k]);
            assert(nodes[1 + start + k] == rest[start + k]);
        }
        assert(decreases_to!(t => below));
        assert(decreases_to!(below => below[i]));
        lemma_nested_within(below[i], depth + 1, (room - 1) as nat);
    }
}

/// The walk of each of several documents stands in their common walk.
proof fn lemma_walk_holds_child(ts: Seq<Tree>, depth: nat, i: int)
    requires
        0 <= i < ts.len(),
    ensures
        ({
            let rest = json::walk_all(ts, depth);
            let inner = json::walk(ts[i], depth);
            exists|start: int|
                0 <= start && start + inner.len() <= rest.len() && inner
                    == #[trigger] rest.subrange(start, start + inner.len())
        }),
    decreases ts.len(),
{
    let rest = json::walk_all(ts, depth);
    let inner = json::walk(ts[i], depth);
    let first = json::walk(ts[0], depth);
    let tail = json::walk_all(ts.drop_first(), depth);
    assert(rest == first + tail);
    if i == 0 {
        let start: int = 0;
        assert(rest.subrange(start, start + inner.len()) =~= inner);
    } else {
        assert(ts.drop_first()[i - 1] == ts[i]);
        lemma_walk_holds_child(ts.drop_first(), depth, i - 1);
        let start = choose|start: int|
            0 <= start && start + inner.len() <= tail.len() && inner == #[trigger] tail.subrange(
                start,
                start + inner.len(),
            );
        let at = first.len() + start;
        assert(rest.subrange(at, at + inner.len()) =~= tail.subrange(
            start,
            start + inner.len(),
        ));
    }
}

/// A document whose texts hold no documents, within the limits on depth and text,
/// is its own expansion, and each of its values is visited once.
pub proof fn law_settled_documents_unchanged(t: Tree, depth: nat, layers: nat, used: nat)
    requires
        layers <= MAX_EMBEDDED_JSON_LAYERS,
        used + json::walk(t, depth).len() <= MAX_JSON_NODES,
        all_settled(json::walk(t, depth), layers),
    ensures
        expanded(t, depth, layers, used) == Some((t, used + json::walk(t, depth).len())),
    decreases t, 1nat,
{
    let nodes = json::walk(t, depth);
    assert(nodes[0] == (t, depth));
    assert(settled_node(nodes[0], layers));
    match t {
        Tree::Array(items) => {
            let below = json::walk_all(items, depth + 1);
            assert(nodes =~= seq![(t, depth)] + below);
            assert forall|i: int| 0 <= i < below.len() implies settled_node(
                #[trigger] below[i],
                layers,
            ) by {
                assert(nodes[i + 1] == below[i]);
            }
            lemma_settled_all(items, depth + 1, layers, used + 1);
        },
        Tree::Object(names, values) => {
            let below = json::walk_all(values, depth + 1);
            assert(nodes =~= seq![(t, depth)] + below);
            assert forall|i: int| 0 <= i < below.len() implies settled_node(
                #[trigger] below[i],
                layers,
            ) by {
                assert(nodes[i + 1] == below[i]);
            }
            lemma_settled_all(values, depth + 1, layers, used + 1);
        },
        _ => {},
    }
}

/// A value within the limits on depth, text and keys that holds no document: a
/// text that looks like one, where another layer may still be read, parses as
/// none.
pub open spec fn settled_node(node: (Tree, nat), layers: nat) -> bool {
    &&& node.1 <= MAX_JSON_DEPTH
    &&& match node.0 {
        Tree::Text(s) => text::byte_len(s) <= MAX_JSON_STRING_BYTES && (looks_embedded(
            text::trimmed(s),
        ) ==> layers < MAX_EMBEDDED_JSON_LAYERS && json::parsed_json(
            vstd::utf8::encode_utf8(text::trimmed(s)),
        ) is None),
        Tree::Object(names, _) => forall|i: int|
            0 <= i < names.len() ==> text::byte_len(#[trigger] names[i]) <= MAX_JSON_STRING_BYTES,
        _ => true,
    }
}

/// Whether all values of a walk hold no document.
pub open spec fn all_settled(nodes: Seq<(Tree, nat)>, layers: nat) -> bool {
    forall|i: int| 0 <= i < nodes.len() ==> settled_node(#[trigger] nodes[i], layers)
}

proof fn lemma_settled_all(ts: Seq<Tree>, depth: nat, layers: nat, used: nat)
    requires
        layers <= MAX_EMBEDDED_JSON_LAYERS,
        used + json::walk_all(ts, depth).len() <= MAX_JSON_NODES,
        all_settled(json::walk_all(ts, depth), layers),
    ensures
        expanded_all(ts, depth, layers, used) == Some(
            (ts, used + json::walk_all(ts, depth).len()),
        ),
    decreases ts, 0nat,
{
    if ts.len() > 0 {
        let front = ts.drop_last();
        let all = json::walk_all(ts, depth);
        lemma_walk_all_split(ts, depth);
        let head = json::walk_all(front, depth);
        let tail = json::walk(ts.last(), depth);
        assert(all =~= head + tail);
        assert forall|i: int| 0 <= i < head.len() implies settled_node(
            #[trigger] head[i],
            layers,
        ) by {
            assert(all[i] == head[i]);
        }
        assert forall|i: int| 0 <= i < tail.len() implies settled_node(
            #[trigger] tail[i],
            layers,
        ) by {
            assert(all[head.len() + i] == tail[i]);
        }
        lemma_settled_all(front, depth, layers, used);
        law_settled_documents_unchanged(ts.last(), depth, layers, used + head.len());
        assert(front.push(ts.last()) =~= ts);
    } else {
        assert(ts =~= seq![]);
    }
}

/// The walks of several documents end with the walk of the last.
proof fn lemma_walk_all_split(ts: Seq<Tree>, depth: nat)
    requires
        ts.len() > 0,
    ensures
        json::walk_all(ts, depth) == json::walk_all(ts.drop_last(), depth) + json::walk(
            ts.last(),
            depth,
        ),
    decreases ts.len(),
{
    reveal_with_fuel(json::walk_all, 2);
    if ts.len() == 1 {
        assert(ts.drop_first() =~= seq![]);
        assert(ts.drop_last() =~= seq![]);
        assert(json::walk_all(ts, depth) =~= json::walk(ts[0], depth));
    } else {
        let rest = ts.drop_first();
        lemma_walk_all_split(rest, depth);
        assert(rest.drop_last() =~= ts.drop_last().drop_first());
        assert(ts.drop_last()[0] == ts[0]);
        assert(rest.last() == ts.last());
        assert(json::walk_all(ts, depth) =~= json::walk_all(ts.drop_last(), depth) + json::walk(
            ts.last(),
            depth,
        ));
    }
}

/// An expansion is complete: no text of it holds a document any more, it is
/// within the limits on depth, text and keys, and it has no more values than were
/// visited.
pub proof fn law_expansion_is_complete(
    t: Tree,
    depth: nat,
    layers: nat,
    used: nat,
    document: Tree,
    total: nat,
)
    requires
        expanded(t, depth, layers, used) == Some((document, total)),
    ensures
        all_settled(json::walk(document, depth), 0),
        used + json::walk(document, depth).len() <= total <= MAX_JSON_NODES,
    decreases MAX_EMBEDDED_JSON_LAYERS - layers, t, 1nat,
{
    let nodes = json::walk(document, depth);
    match t {
        Tree::Text(s) => {
            if looks_embedded(text::trimmed(s)) && json::parsed_json(
                vstd::utf8::encode_utf8(text::trimmed(s)),
            ) is Some {
                let inner = json::parsed_json(vstd::utf8::encode_utf8(text::trimmed(s)))->0;
                law_expansion_is_complete(inner, depth, layers + 1, used + 1, document, total);
            }
        },
        Tree::Array(items) => {
            let (below, after) = expanded_all(items, depth + 1, layers, used + 1)->0;
            lemma_all_complete(items, depth + 1, layers, used + 1, below, after);
            let rest = json::walk_all(below, depth + 1);
            assert(nodes =~= seq![(document, depth)] + rest);
            assert forall|i: int| 0 <= i < nodes.len() implies settled_node(
                #[trigger] nodes[i],
                0,
            ) by {
                if i > 0 {
                    assert(nodes[i] == rest[i - 1]);
                }
            }
        },
        Tree::Object(names, values) => {
            let (below, after) = expanded_all(values, depth + 1, layers, used + 1)->0;
            lemma_all_complete(values, depth + 1, layers, used + 1, below, after);
            let rest = json::walk_all(below, depth + 1);
            assert(nodes =~= seq![(document, depth)] + rest);
            assert forall|i: int| 0 <= i < nodes.len() implies settled_node(
                #[trigger] nodes[i],
                0,
            ) by {
                if i > 0 {
                    assert(nodes[i] == rest[i - 1]);
                }
            }
        },
        _ => {},
    }
}

proof fn lemma_all_complete(
    ts: Seq<Tree>,
    depth: nat,
    layers: nat,
    used: nat,
    below: Seq<Tree>,
    total: nat,
)
    requires
        used <= MAX_JSON_NODES,
        expanded_all(ts, depth, layers, used) == Some((below, total)),
    ensures
        all_settled(json::walk_all(below, depth), 0),
        used + json::walk_all(below, depth).len() <= total <= MAX_JSON_NODES,
    decreases MAX_EMBEDDED_JSON_LAYERS - layers, ts, 0nat,
{
    if ts.len() > 0 {
        let (before, middle) = expanded_all(ts.drop_last(), depth, layers, used)->0;
        let (last, after) = expanded(ts.last(), depth, layers, middle)->0;
        lemma_all_complete(ts.drop_last(), depth, layers, used, before, middle);
        law_expansion_is_complete(ts.last(), depth, layers, middle, last, after);
        lemma_walk_all_split(below, depth);
        assert(below.drop_last() =~= before);
        let head = json::walk_all(before, depth);
        let tail = json::walk(last, depth);
        let all = json::walk_all(below, depth);
        assert(all == head + tail);
        assert forall|i: int| 0 <= i < all.len() implies settled_node(#[trigger] all[i], 0) by {
            if i < head.len() {
                assert(all[i] == head[i]);
            } else {
                assert(all[i] == tail[i - head.len()]);
            }
        }
    }
}

/// Reading a body a second time changes nothing: where one body gives a document,
/// every body within the limit on bytes that holds just that document gives it
/// too. The document has at most as many values as may be visited.
pub proof fn law_second_reading_changes_nothing(body: Seq<u8>, again: Seq<u8>)
    requires
        bounded_document(body) is Some,
        json::parsed_json(again) == bounded_document(body),
        0 < again.len() <= MAX_RESPONSE_BYTES,
    ensures
        bounded_document(again) == bounded_document(body),
        all_settled(json::walk(bounded_document(body)->0, 0), 0),
        json::walk(bounded_document(body)->0, 0).len() <= MAX_JSON_NODES,
{
    let root = json::parsed_json(body)->0;
    let (document, total) = expanded(root, 0, 0, 0)->0;
    law_expansion_is_complete(root, 0, 0, 0, document, total);
    law_settled_documents_unchanged(document, 0, 0, 0);
}

} // verus!
