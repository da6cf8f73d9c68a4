//! Vectors whose items stand in the order of their keys, each key once.
use vstd::prelude::*;

use crate::text::{same_text, text_less, text_lt};

verus! {

broadcast use crate::text::group_text_order;

/// An item that is found by a text.
pub trait Keyed {
    /// The text that the item is found by.
    spec fn key(&self) -> Seq<char>;

    /// The text that the item is found by.
    fn key_text(&self) -> (r: &str)
        ensures
            r@ == self.key(),
    ;
}

impl Keyed for String {
    open spec fn key(&self) -> Seq<char> {
        self@
    }

    fn key_text(&self) -> (r: &str) {
        self.as_str()
    }
}

/// Every item comes before those behind it, so no key occurs twice.
pub open spec fn ascending<T: Keyed>(items: Seq<T>) -> bool {
    forall|i: int, j: int|
        0 <= i < j < items.len() ==> text_lt(#[trigger] items[i].key(), #[trigger] items[j].key())
}

/// Some item has this key.
pub open spec fn has_key<T: Keyed>(items: Seq<T>, key: Seq<char>) -> bool {
    exists|i: int| 0 <= i < items.len() && #[trigger] items[i].key() == key
}

/// Where an item with this key stands, or else where it belongs, and whether it stands there.
pub fn find_slot<T: Keyed>(items: &Vec<T>, key: &str) -> (r: (usize, bool))
    requires
        ascending(items@),
    ensures
        r.0 <= items.len(),
        forall|i: int| 0 <= i < r.0 ==> text_lt(#[trigger] items@[i].key(), key@),
        r.1 == has_key(items@, key@),
        r.1 ==> r.0 < items.len() && items@[r.0 as int].key() == key@,
        !r.1 ==> forall|i: int|
            r.0 <= i < items.len() ==> text_lt(key@, #[trigger] items@[i].key()),
{
    let mut low: usize = 0;
    let mut high: usize = items.len();
    while low < high
        invariant
            low <= high <= items.len(),
            ascending(items@),
            forall|i: int| 0 <= i < low ==> text_lt(#[trigger] items@[i].key(), key@),
            forall|i: int| high <= i < items.len() ==> !text_lt(#[trigger] items@[i].key(), key@),
        decreases high - low,
    {
        let middle: usize = low + (high - low) / 2;
        let ghost at = items@[middle as int].key();
        if text_less(items[middle].key_text(), key) {
            assert forall|i: int| 0 <= i < middle + 1 implies text_lt(
                #[trigger] items@[i].key(),
                key@,
            ) by {
                assert(i < middle ==> text_lt(items@[i].key(), at));
            }
            low = middle + 1;
        } else {
            assert forall|i: int| middle <= i < items.len() implies !text_lt(
                #[trigger] items@[i].key(),
                key@,
            ) by {
                assert(middle < i ==> text_lt(at, items@[i].key()));
            }
            high = middle;
        }
    }
    let found: bool = low < items.len() && same_text(items[low].key_text(), key);
    proof {
        if found {
            assert(items@[low as int].key() == key@);
        } else {
            assert forall|i: int| low <= i < items.len() implies text_lt(
                key@,
                #[trigger] items@[i].key(),
            ) by {
                assert(low < i ==> text_lt(items@[low as int].key(), items@[i].key()));
            }
        }
    }
    (low, found)
}

/// Putting an item with a new key where it belongs keeps the order.
pub proof fn lemma_insert_keeps_order<T: Keyed>(items: Seq<T>, at: int, item: T)
    requires
        ascending(items),
        0 <= at <= items.len(),
        forall|i: int| 0 <= i < at ==> text_lt(#[trigger] items[i].key(), item.key()),
        forall|i: int| at <= i < items.len() ==> text_lt(item.key(), #[trigger] items[i].key()),
    ensures
        ascending(items.insert(at, item)),
        forall|key: Seq<char>| #[trigger]
            has_key(items.insert(at, item), key) <==> has_key(items, key) || key == item.key(),
{
    let longer = items.insert(at, item);
    assert forall|i: int, j: int| 0 <= i < j < longer.len() implies text_lt(
        #[trigger] longer[i].key(),
        #[trigger] longer[j].key(),
    ) by {
        let before_i = if i < at { items[i] } else { items[i - 1] };
        let before_j = if j < at { items[j] } else { items[j - 1] };
        assert(i != at ==> longer[i] == before_i);
        assert(j != at ==> longer[j] == before_j);
    }
    assert forall|key: Seq<char>| #[trigger]
        has_key(longer, key) <==> has_key(items, key) || key == item.key() by {
        if has_key(longer, key) {
            let i = choose|i: int| 0 <= i < longer.len() && #[trigger] longer[i].key() == key;
            if i < at {
                assert(items[i].key() == key);
            } else if i > at {
                assert(items[i - 1].key() == key);
            }
        }
        if has_key(items, key) {
            let i = choose|i: int| 0 <= i < items.len() && #[trigger] items[i].key() == key;
            if i < at {
                assert(longer[i].key() == key);
            } else {
                assert(longer[i + 1].key() == key);
            }
        }
        if key == item.key() {
            assert(longer[at].key() == key);
        }
    }
}

/// Two ascending sequences with the same keys have them in the same places.
pub proof fn lemma_same_keys<T: Keyed>(a: Seq<T>, b: Seq<T>)
    requires
        ascending(a),
        ascending(b),
        forall|key: Seq<char>| #[trigger] has_key(a, key) == has_key(b, key),
    ensures
        a.len() == b.len(),
        forall|k: int| 0 <= k < a.len() ==> #[trigger] a[k].key() == b[k].key(),
    decreases a.len(),
{
    if a.len() == 0 || b.len() == 0 {
        if a.len() > 0 {
            assert(has_key(a, a[0].key()));
            assert(has_key(b, a[0].key()));
        }
        if b.len() > 0 {
            assert(has_key(b, b[0].key()));
            assert(has_key(a, b[0].key()));
        }
    } else {
        let last_a = a[a.len() - 1].key();
        let last_b = b[b.len() - 1].key();
        assert(has_key(a, last_a)) by {
            assert(a[a.len() - 1].key() == last_a);
        }
        assert(has_key(b, last_b)) by {
            assert(b[b.len() - 1].key() == last_b);
        }
        assert(has_key(b, last_a));
        assert(has_key(a, last_b));
        let at_b = choose|i: int| 0 <= i < b.len() && #[trigger] b[i].key() == last_a;
        let at_a = choose|i: int| 0 <= i < a.len() && #[trigger] a[i].key() == last_b;
        assert(last_a == last_b) by {
            if last_a != last_b {
                assert(at_b < b.len() - 1 ==> text_lt(b[at_b].key(), last_b));
                assert(at_a < a.len() - 1 ==> text_lt(a[at_a].key(), last_a));
            }
        }
        let init_a = a.drop_last();
        let init_b = b.drop_last();
        assert forall|key: Seq<char>| #[trigger] has_key(init_a, key) == has_key(init_b, key) by {
            lemma_has_key_drop_last(a, key);
            lemma_has_key_drop_last(b, key);
            assert(has_key(a, key) == has_key(b, key));
        }
        assert(ascending(init_a)) by {
            assert forall|i: int, j: int| 0 <= i < j < init_a.len() implies text_lt(
                #[trigger] init_a[i].key(),
                #[trigger] init_a[j].key(),
            ) by {
                assert(text_lt(a[i].key(), a[j].key()));
            }
        }
        assert(ascending(init_b)) by {
            assert forall|i: int, j: int| 0 <= i < j < init_b.len() implies text_lt(
                #[trigger] init_b[i].key(),
                #[trigger] init_b[j].key(),
            ) by {
                assert(text_lt(b[i].key(), b[j].key()));
            }
        }
        lemma_same_keys(init_a, init_b);
        assert forall|k: int| 0 <= k < a.len() implies #[trigger] a[k].key() == b[k].key() by {
            if k < init_a.len() {
                assert(init_a[k].key() == init_b[k].key());
            }
        }
    }
}

/// Without its last item an ascending sequence has every key but the last one.
proof fn lemma_has_key_drop_last<T: Keyed>(items: Seq<T>, key: Seq<char>)
    requires
        ascending(items),
        items.len() > 0,
    ensures
        has_key(items.drop_last(), key) <==> has_key(items, key) && key != items.last().key(),
{
    let init = items.drop_last();
    if has_key(init, key) {
        let i = choose|i: int| 0 <= i < init.len() && #[trigger] init[i].key() == key;
        assert(items[i].key() == key);
        assert(text_lt(items[i].key(), items[items.len() - 1].key()));
    }
    if has_key(items, key) && key != items.last().key() {
        let i = choose|i: int| 0 <= i < items.len() && #[trigger] items[i].key() == key;
        assert(init[i].key() == key);
    }
}

} // verus!
