//! Laws of the store, stated once over the map views that every store
//! operation's contract speaks in, and proved for all inputs.

use vstd::prelude::*;

use crate::row::RowView;

verus! {

/// For a key not previously present, inserting and then looking the key up
/// yields exactly the written record — the given value, equal creation and
/// update stamps — and leaves every other key untouched.
///
/// The hypotheses are what `insert` ensures on a fresh key; the conclusion
/// is what `get_clone` then answers.
pub proof fn lemma_insert_then_get(
    pre: Map<Seq<char>, RowView>,
    post: Map<Seq<char>, RowView>,
    key: Seq<char>,
    value: Seq<char>,
)
    requires
        !pre.contains_key(key),
        post.contains_key(key),
        post == pre.insert(key, post[key]),
        post[key].key == key,
        post[key].value == value,
        post[key].created == post[key].updated,
    ensures
        post[key].value == value,
        post[key].created == post[key].updated,
        forall|k2: Seq<char>| #[trigger]
            post.contains_key(k2) && k2 != key ==> pre.contains_key(k2) && post[k2] == pre[k2],
        forall|k2: Seq<char>| #[trigger] pre.contains_key(k2) ==> post.contains_key(k2),
{
}

/// Writing the same value under the same key a second time changes nothing:
/// in particular it moves no timestamp.
///
/// The hypotheses are what `set_or_insert` ensures for the first call (with
/// any prior state) and for the second call made with the same key and
/// value; the conclusion is that the second call left the store as it was.
pub proof fn lemma_set_or_insert_idempotent(
    pre: Map<Seq<char>, RowView>,
    mid: Map<Seq<char>, RowView>,
    post: Map<Seq<char>, RowView>,
    key: Seq<char>,
    value: Seq<char>,
)
    requires
        pre.contains_key(key) && pre[key].value == value ==> mid == pre,
        pre.contains_key(key) && pre[key].value != value ==> ({
            &&& mid.contains_key(key)
            &&& mid == pre.insert(key, mid[key])
            &&& mid[key].value == value
        }),
        !pre.contains_key(key) ==> ({
            &&& mid.contains_key(key)
            &&& mid == pre.insert(key, mid[key])
            &&& mid[key].value == value
        }),
        mid.contains_key(key) && mid[key].value == value ==> post == mid,
    ensures
        post == mid,
{
    if pre.contains_key(key) && pre[key].value == value {
        assert(mid == pre);
        assert(mid[key].value == value);
    }
}

/// Writing a different value under a present key replaces the value, keeps
/// the creation stamp, and moves the update stamp strictly forward —
/// provided the clock reading handed to the write lies after the record's
/// current update stamp.
///
/// The map hypothesis is what `set_or_insert_at` ensures when the value
/// changes.
pub proof fn lemma_set_or_insert_at_updates(
    pre: Map<Seq<char>, RowView>,
    post: Map<Seq<char>, RowView>,
    key: Seq<char>,
    value: Seq<char>,
    now: int,
)
    requires
        pre.contains_key(key),
        pre[key].value != value,
        now > pre[key].updated,
        post == pre.insert(
            key,
            (RowView { key: key, value: value, created: pre[key].created, updated: now }),
        ),
    ensures
        post.contains_key(key),
        post[key].value == value,
        post[key].created == pre[key].created,
        post[key].updated > pre[key].updated,
{
}

/// Deleting a present key removes exactly that entry: the key is gone, the
/// count drops by one, and every other entry stays. Deleting an absent key
/// leaves the store as it was, so the count is unchanged.
///
/// The map hypotheses are what `delete` ensures in its two cases.
pub proof fn lemma_delete_shrinks(
    pre: Map<Seq<char>, RowView>,
    post: Map<Seq<char>, RowView>,
    key: Seq<char>,
)
    requires
        pre.dom().finite(),
        pre.contains_key(key) ==> post == pre.remove(key),
        !pre.contains_key(key) ==> post == pre,
    ensures
        !post.contains_key(key) || !pre.contains_key(key),
        pre.contains_key(key) ==> post.dom().len() == pre.dom().len() - 1,
        !pre.contains_key(key) ==> post.dom().len() == pre.dom().len(),
        forall|k2: Seq<char>| #[trigger]
            pre.contains_key(k2) && k2 != key ==> post.contains_key(k2) && post[k2] == pre[k2],
{
    if pre.contains_key(key) {
        assert(post.dom() =~= pre.dom().remove(key));
        vstd::set::axiom_set_remove_len(pre.dom(), key);
    }
}

} // verus!
