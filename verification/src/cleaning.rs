//! Cleaning of request bodies (`[server] clean_empty_content`): in the
//! `input` and `messages` arrays, items whose `content` is empty (`""` or
//! `[]`) are removed, and the other object items that lack a `type` get
//! `"type": "message"`; all other items keep their order and value.
use vstd::prelude::*;
use crate::json::{
    array_length_in_json, facts_view, item_facts_in_json, json_array_length, json_items_of,
    json_with_item_string_member, json_without_item, remove_item_in_json,
    set_item_string_member_in_json, ContentKindView, ItemFacts, ItemFactsView,
};
use crate::text::push_bytes;

verus! {

/// An item's `content` is empty: `""` or `[]`.
pub open spec fn empty_content(f: ItemFactsView) -> bool {
    match f.content {
        ContentKindView::Text(s) => s.len() == 0,
        ContentKindView::Array(n) => n == 0,
        _ => false,
    }
}

/// An item that stays but is an object without `type`.
pub open spec fn needs_type(f: ItemFactsView) -> bool {
    f.object == Some(false) && !empty_content(f)
}

/// The positions of the items that get a `type`, ascending.
pub open spec fn type_positions(f: Seq<ItemFactsView>) -> Seq<usize>
    decreases f.len(),
{
    if f.len() == 0 {
        seq![]
    } else if needs_type(f.last()) {
        type_positions(f.drop_last()).push((f.len() - 1) as usize)
    } else {
        type_positions(f.drop_last())
    }
}

/// The positions of the items that are removed, ascending.
pub open spec fn removed_positions(f: Seq<ItemFactsView>) -> Seq<usize>
    decreases f.len(),
{
    if f.len() == 0 {
        seq![]
    } else if empty_content(f.last()) {
        removed_positions(f.drop_last()).push((f.len() - 1) as usize)
    } else {
        removed_positions(f.drop_last())
    }
}

/// `body` with a `type` set on each item at `pos` of the array `key`, in
/// order.
pub open spec fn with_types(body: Seq<u8>, key: Seq<char>, pos: Seq<usize>) -> Seq<u8>
    decreases pos.len(),
{
    if pos.len() == 0 {
        body
    } else {
        with_types(
            json_with_item_string_member(body, key, pos[0] as nat, "type"@, "message"@),
            key,
            pos.drop_first(),
        )
    }
}

/// `body` with the item at `index` of the array `key` removed, when the
/// array has one there.
pub open spec fn without_item_if_present(body: Seq<u8>, key: Seq<char>, index: usize) -> Seq<u8> {
    match json_array_length(body, key) {
        Some(n) => if index < n {
            json_without_item(body, key, index as nat)
        } else {
            body
        },
        None => body,
    }
}

/// `body` with the items at `pos` of the array `key` removed, the last
/// position first so that the others stay in place.
pub open spec fn without_items(body: Seq<u8>, key: Seq<char>, pos: Seq<usize>) -> Seq<u8>
    decreases pos.len(),
{
    if pos.len() == 0 {
        body
    } else {
        without_items(without_item_if_present(body, key, pos.last()), key, pos.drop_last())
    }
}

/// `body` cleaned in the array member `key`: unchanged when it has none.
/// Items are read at their `type` and `content` members.
pub open spec fn cleaned_in(body: Seq<u8>, key: Seq<char>) -> Seq<u8> {
    match json_items_of(body, key, "type"@, "content"@) {
        Some(f) => without_items(with_types(body, key, type_positions(f)), key, removed_positions(f)),
        None => body,
    }
}

/// `body` cleaned in `input`, then in `messages`.
pub open spec fn cleaned_body(body: Seq<u8>) -> Seq<u8> {
    cleaned_in(cleaned_in(body, "input"@), "messages"@)
}

/// The positions of the items that get a `type` and of those removed.
pub fn cleaning_positions(facts: &Vec<ItemFacts>) -> (r: (Vec<usize>, Vec<usize>))
    ensures
        r.0@ == type_positions(facts_view(facts@)),
        r.1@ == removed_positions(facts_view(facts@)),
{
    let ghost f = facts_view(facts@);
    let mut typed: Vec<usize> = Vec::new();
    let mut removed: Vec<usize> = Vec::new();
    let mut i: usize = 0;
    while i < facts.len()
        invariant
            i <= facts.len(),
            f == facts_view(facts@),
            typed@ == type_positions(f.take(i as int)),
            removed@ == removed_positions(f.take(i as int)),
        decreases facts.len() - i,
    {
        proof {
            assert(f.take(i + 1).drop_last() =~= f.take(i as int));
            assert(f.take(i + 1).last() == facts@[i as int]@);
        }
        let empty = match &facts[i].content {
            crate::json::ContentKind::Text(s) => s.as_str().is_empty(),
            crate::json::ContentKind::Array(n) => *n == 0,
            _ => false,
        };
        if empty {
            removed.push(i);
        } else if facts[i].object == Some(false) {
            typed.push(i);
        }
        i += 1;
    }
    proof {
        assert(f.take(facts.len() as int) =~= f);
    }
    (typed, removed)
}

fn copy_bytes(b: &[u8]) -> (r: Vec<u8>)
    ensures
        r@ == b@,
{
    let mut r: Vec<u8> = Vec::new();
    push_bytes(&mut r, b);
    proof {
        assert(r@ =~= b@);
    }
    r
}

/// `body` cleaned in the array member `key`.
fn clean_in(body: Vec<u8>, key: &str) -> (r: Vec<u8>)
    ensures
        r@ == cleaned_in(body@, key@),
{
    let facts = match item_facts_in_json(body.as_slice(), key, "type", "content") {
        Some(f) => f,
        None => {
            return body;
        },
    };
    let (typed, removed) = cleaning_positions(&facts);
    let ghost b0 = body@;
    let mut cur = body;
    let mut j: usize = 0;
    proof {
        assert(typed@.skip(0) =~= typed@);
    }
    while j < typed.len()
        invariant
            j <= typed.len(),
            with_types(b0, key@, typed@) == with_types(cur@, key@, typed@.skip(j as int)),
        decreases typed.len() - j,
    {
        proof {
            assert(typed@.skip(j as int)[0] == typed@[j as int]);
            assert(typed@.skip(j as int).drop_first() =~= typed@.skip(j + 1));
        }
        cur = set_item_string_member_in_json(cur.as_slice(), key, typed[j], "type", "message");
        j += 1;
    }
    proof {
        assert(typed@.skip(typed.len() as int) =~= Seq::<usize>::empty());
    }
    let ghost b1 = cur@;
    let mut k: usize = removed.len();
    proof {
        assert(removed@.take(k as int) =~= removed@);
    }
    while k > 0
        invariant
            k <= removed.len(),
            without_items(b1, key@, removed@) == without_items(cur@, key@, removed@.take(k as int)),
        decreases k,
    {
        proof {
            assert(removed@.take(k as int).last() == removed@[k - 1]);
            assert(removed@.take(k as int).drop_last() =~= removed@.take(k - 1));
        }
        let index = removed[k - 1];
        match array_length_in_json(cur.as_slice(), key) {
            Some(n) => {
                if index < n {
                    cur = remove_item_in_json(cur.as_slice(), key, index);
                }
            },
            None => {},
        }
        k -= 1;
    }
    cur
}

/// A request body cleaned in `input`, then in `messages`.
pub fn clean_request_body(body: &[u8]) -> (r: Vec<u8>)
    ensures
        r@ == cleaned_body(body@),
{
    let b = copy_bytes(body);
    let b = clean_in(b, "input");
    clean_in(b, "messages")
}

/// An item's `content` is `""` or `[]`.
pub open spec fn content_is_empty_string_or_array(f: ItemFactsView) -> bool {
    f.content == ContentKindView::Text(Seq::<char>::empty()) || f.content
        == ContentKindView::Array(0)
}

/// The positions are below `n` and strictly increasing.
pub open spec fn increasing_below(pos: Seq<usize>, n: nat) -> bool {
    &&& forall|k: int| 0 <= k < pos.len() ==> #[trigger] pos[k] < n
    &&& forall|k: int, l: int| 0 <= k < l < pos.len() ==> pos[k] < pos[l]
}

/// Which items cleaning changes: every item whose `content` is `""` or
/// `[]` is removed, and every other object item without a `type` gets one,
/// no other; the positions of each kind are listed once each, in order.
pub proof fn law_cleaning_positions(f: Seq<ItemFactsView>)
    requires
        f.len() <= usize::MAX,
    ensures
        forall|i: int|
            0 <= i < f.len() ==> (#[trigger] removed_positions(f).contains(i as usize)
                <==> content_is_empty_string_or_array(f[i])),
        forall|i: int|
            0 <= i < f.len() ==> (#[trigger] type_positions(f).contains(i as usize) <==> (
            f[i].object == Some(false) && !content_is_empty_string_or_array(f[i]))),
        increasing_below(removed_positions(f), f.len()),
        increasing_below(type_positions(f), f.len()),
    decreases f.len(),
{
    if f.len() > 0 {
        let init = f.drop_last();
        law_cleaning_positions(init);
        let n = (f.len() - 1) as usize;
        let last = f.last();
        assert(empty_content(last) <==> content_is_empty_string_or_array(last)) by {
            if let ContentKindView::Text(s) = last.content {
                if s.len() == 0 {
                    assert(s =~= Seq::<char>::empty());
                }
            }
        }
        assert forall|i: int| 0 <= i < f.len() implies (#[trigger] removed_positions(
            f,
        ).contains(i as usize) <==> content_is_empty_string_or_array(f[i])) by {
            let r0 = removed_positions(init);
            if i < init.len() {
                assert(f[i] == init[i]);
                assert(r0.contains(i as usize) <==> content_is_empty_string_or_array(init[i]));
                if empty_content(last) {
                    let r = r0.push(n);
                    if r.contains(i as usize) {
                        let k = choose|k: int| 0 <= k < r.len() && r[k] == i as usize;
                        if k < r0.len() {
                            assert(r0[k] == i as usize);
                        }
                    }
                    if r0.contains(i as usize) {
                        let k = choose|k: int| 0 <= k < r0.len() && r0[k] == i as usize;
                        assert(r[k] == i as usize);
                    }
                }
            } else {
                assert(i as usize == n);
                if !(r0.contains(n)) {
                } else {
                    let k = choose|k: int| 0 <= k < r0.len() && r0[k] == n;
                    assert(r0[k] < init.len());
                }
                if empty_content(last) {
                    assert(r0.push(n)[r0.len() as int] == n);
                }
            }
        }
        assert forall|i: int| 0 <= i < f.len() implies (#[trigger] type_positions(f).contains(
            i as usize,
        ) <==> (f[i].object == Some(false) && !content_is_empty_string_or_array(f[i]))) by {
            let t0 = type_positions(init);
            if i < init.len() {
                assert(f[i] == init[i]);
                assert(t0.contains(i as usize) <==> (init[i].object == Some(false)
                    && !content_is_empty_string_or_array(init[i])));
                if needs_type(last) {
                    let t = t0.push(n);
                    if t.contains(i as usize) {
                        let k = choose|k: int| 0 <= k < t.len() && t[k] == i as usize;
                        if k < t0.len() {
                            assert(t0[k] == i as usize);
                        }
                    }
                    if t0.contains(i as usize) {
                        let k = choose|k: int| 0 <= k < t0.len() && t0[k] == i as usize;
                        assert(t[k] == i as usize);
                    }
                }
            } else {
                assert(i as usize == n);
                if t0.contains(n) {
                    let k = choose|k: int| 0 <= k < t0.len() && t0[k] == n;
                    assert(t0[k] < init.len());
                }
                if needs_type(last) {
                    assert(t0.push(n)[t0.len() as int] == n);
                }
            }
        }
    }
}

} // verus!
