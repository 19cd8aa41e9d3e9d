//! The demo application's todo list: adding, completing and removing items.
use crate::svg::{chars_of, is_whitespace, spec_is_whitespace};
use crate::text::push_chars;
use vstd::prelude::*;

verus! {

/// `cs` without its leading whitespace.
pub open spec fn trim_start(cs: Seq<char>) -> Seq<char>
    decreases cs.len(),
{
    if cs.len() > 0 && spec_is_whitespace(cs[0]) {
        trim_start(cs.skip(1))
    } else {
        cs
    }
}

/// `cs` without its trailing whitespace.
pub open spec fn trim_end(cs: Seq<char>) -> Seq<char>
    decreases cs.len(),
{
    if cs.len() > 0 && spec_is_whitespace(cs.last()) {
        trim_end(cs.drop_last())
    } else {
        cs
    }
}

/// `cs` without leading and trailing whitespace.
pub open spec fn trimmed(cs: Seq<char>) -> Seq<char> {
    trim_end(trim_start(cs))
}

proof fn lemma_trim_start_from(cs: Seq<char>, i: int)
    requires
        0 <= i <= cs.len(),
        forall|k: int| 0 <= k < i ==> spec_is_whitespace(#[trigger] cs[k]),
    ensures
        trim_start(cs) == trim_start(cs.skip(i)),
    decreases i,
{
    if i > 0 {
        assert(spec_is_whitespace(cs[0]));
        let rest = cs.skip(1);
        assert forall|k: int| 0 <= k < i - 1 implies spec_is_whitespace(#[trigger] rest[k]) by {
            assert(rest[k] == cs[k + 1]);
        }
        lemma_trim_start_from(rest, i - 1);
        assert(rest.skip(i - 1) =~= cs.skip(i));
    } else {
        assert(cs.skip(0) =~= cs);
    }
}

proof fn lemma_trim_end_to(cs: Seq<char>, j: int)
    requires
        0 <= j <= cs.len(),
        forall|k: int| j <= k < cs.len() ==> spec_is_whitespace(#[trigger] cs[k]),
    ensures
        trim_end(cs) == trim_end(cs.take(j)),
    decreases cs.len() - j,
{
    if j < cs.len() {
        assert(spec_is_whitespace(cs.last()));
        let rest = cs.drop_last();
        assert forall|k: int| j <= k < rest.len() implies spec_is_whitespace(#[trigger] rest[k]) by {
            assert(rest[k] == cs[k]);
        }
        lemma_trim_end_to(rest, j);
        assert(rest.take(j) =~= cs.take(j));
    } else {
        assert(cs.take(j) =~= cs);
    }
}

/// `text` without leading and trailing whitespace.
pub fn trim(text: &str) -> (r: String)
    ensures
        r@ == trimmed(text@),
{
    let cs = chars_of(text);
    let mut start: usize = 0;
    while start < cs.len() && is_whitespace(cs[start])
        invariant
            start <= cs@.len(),
            forall|k: int| 0 <= k < start ==> spec_is_whitespace(#[trigger] cs@[k]),
        decreases cs@.len() - start,
    {
        start += 1;
    }
    proof {
        lemma_trim_start_from(cs@, start as int);
    }
    let ghost rest = cs@.skip(start as int);
    assert(start == cs@.len() || !spec_is_whitespace(rest[0]));
    assert(trim_start(cs@) == rest);
    let mut end: usize = cs.len();
    while end > start && is_whitespace(cs[end - 1])
        invariant
            start <= end <= cs@.len(),
            forall|k: int| end <= k < cs@.len() ==> spec_is_whitespace(#[trigger] cs@[k]),
        decreases end - start,
    {
        end -= 1;
    }
    proof {
        let n = end - start;
        assert forall|k: int| n <= k < rest.len() implies spec_is_whitespace(#[trigger] rest[k]) by {
            assert(rest[k] == cs@[k + start]);
        }
        lemma_trim_end_to(rest, n as int);
        let kept = rest.take(n as int);
        assert(kept =~= cs@.subrange(start as int, end as int));
        if n > 0 {
            assert(kept.last() == cs@[end - 1]);
        }
        assert(trim_end(kept) == kept);
    }
    let mut r = String::new();
    push_chars(&mut r, &cs, start, end);
    assert(r@ =~= cs@.subrange(start as int, end as int));
    r
}

/// Whether `text` holds nothing but whitespace.
pub fn is_blank(text: &str) -> (r: bool)
    ensures
        r == (trimmed(text@).len() == 0),
{
    let t = trim(text);
    t.as_str().unicode_len() == 0
}

/// A todo entry.
#[derive(Debug, Clone)]
pub struct TodoItem {
    pub id: u32,
    pub text: String,
    pub completed: bool,
}

/// An entry as plain values.
pub open spec fn item_view(item: TodoItem) -> (u32, Seq<char>, bool) {
    (item.id, item.text@, item.completed)
}

/// `entries` without those whose id is `id`, in order.
pub open spec fn without_id(entries: Seq<(u32, Seq<char>, bool)>, id: u32) -> Seq<(u32, Seq<char>, bool)>
    decreases entries.len(),
{
    if entries.len() == 0 {
        Seq::empty()
    } else if entries.last().0 == id {
        without_id(entries.drop_last(), id)
    } else {
        without_id(entries.drop_last(), id).push(entries.last())
    }
}

/// The ids rise strictly along `entries` and stay below `bound`.
pub open spec fn ids_rise_below(entries: Seq<(u32, Seq<char>, bool)>, bound: u32) -> bool {
    &&& forall|i: int| 0 <= i < entries.len() ==> #[trigger] entries[i].0 < bound
    &&& forall|i: int, j: int|
        0 <= i < j < entries.len() ==> #[trigger] entries[i].0 < #[trigger] entries[j].0
}

proof fn lemma_without_id_keeps_order(entries: Seq<(u32, Seq<char>, bool)>, id: u32, bound: u32)
    requires
        ids_rise_below(entries, bound),
    ensures
        ids_rise_below(without_id(entries, id), bound),
        without_id(entries, id).len() <= entries.len(),
    decreases entries.len(),
{
    if entries.len() > 0 {
        let rest = entries.drop_last();
        let x = entries.last();
        assert(ids_rise_below(rest, x.0)) by {
            assert forall|i: int| 0 <= i < rest.len() implies #[trigger] rest[i].0 < x.0 by {
                assert(entries[i].0 < entries[entries.len() - 1].0);
            }
            assert forall|i: int, j: int| 0 <= i < j < rest.len() implies #[trigger] rest[i].0
                < #[trigger] rest[j].0 by {
                assert(entries[i].0 < entries[j].0);
            }
        }
        lemma_without_id_keeps_order(rest, id, x.0);
        assert(ids_rise_below(rest, bound)) by {
            assert forall|i: int| 0 <= i < rest.len() implies #[trigger] rest[i].0 < bound by {
                assert(entries[i].0 < bound);
            }
        }
        lemma_without_id_keeps_order(rest, id, bound);
        let r = without_id(rest, id);
        if x.0 != id {
            let rx = r.push(x);
            assert forall|i: int, j: int| 0 <= i < j < rx.len() implies #[trigger] rx[i].0
                < #[trigger] rx[j].0 by {
                if j == rx.len() - 1 {
                    assert(rx[i] == r[i]);
                } else {
                    assert(rx[i] == r[i] && rx[j] == r[j]);
                }
            }
            assert forall|i: int| 0 <= i < rx.len() implies #[trigger] rx[i].0 < bound by {
                if i < r.len() {
                    assert(rx[i] == r[i]);
                } else {
                    assert(x.0 == entries[entries.len() - 1].0);
                }
            }
        }
    }
}

/// A list whose ids rise has no two entries with one id.
pub proof fn lemma_ids_distinct(entries: Seq<(u32, Seq<char>, bool)>, bound: u32, i: int, j: int)
    requires
        ids_rise_below(entries, bound),
        0 <= i < entries.len(),
        0 <= j < entries.len(),
        i != j,
    ensures
        entries[i].0 != entries[j].0,
{
    if i < j {
        assert(entries[i].0 < entries[j].0);
    } else {
        assert(entries[j].0 < entries[i].0);
    }
}

proof fn lemma_without_absent_id(entries: Seq<(u32, Seq<char>, bool)>, id: u32)
    requires
        forall|i: int| 0 <= i < entries.len() ==> #[trigger] entries[i].0 != id,
    ensures
        without_id(entries, id) == entries,
    decreases entries.len(),
{
    if entries.len() > 0 {
        let rest = entries.drop_last();
        assert forall|i: int| 0 <= i < rest.len() implies #[trigger] rest[i].0 != id by {
            assert(rest[i] == entries[i]);
        }
        lemma_without_absent_id(rest, id);
        assert(entries.last().0 != id);
        assert(rest.push(entries.last()) =~= entries);
    }
}

/// Removing the entry just added gives back the list as it was: the new
/// entry's id is the only one at or above the old next id.
pub proof fn lemma_add_then_remove(entries: Seq<(u32, Seq<char>, bool)>, next: u32, text: Seq<char>)
    requires
        ids_rise_below(entries, next),
    ensures
        without_id(entries.push((next, text, false)), next) == entries,
{
    let added = entries.push((next, text, false));
    assert(added.drop_last() =~= entries);
    assert forall|i: int| 0 <= i < entries.len() implies #[trigger] entries[i].0 != next by {
        assert(entries[i].0 < next);
    }
    lemma_without_absent_id(entries, next);
}

/// The entry with its completion flipped.
pub open spec fn flipped(entry: (u32, Seq<char>, bool)) -> (u32, Seq<char>, bool) {
    (entry.0, entry.1, !entry.2)
}

/// Toggling an entry twice gives back the list as it was: the second toggle
/// finds the same entry, since ids are unique.
pub proof fn lemma_toggle_twice(
    entries: Seq<(u32, Seq<char>, bool)>,
    bound: u32,
    i: int,
    j: int,
)
    requires
        ids_rise_below(entries, bound),
        0 <= i < entries.len(),
        0 <= j < entries.len(),
        entries.update(i, flipped(entries[i]))[j].0 == entries[i].0,
    ensures
        j == i,
        entries.update(i, flipped(entries[i])).update(j, flipped(entries.update(i, flipped(entries[i]))[j]))
            == entries,
{
    let once = entries.update(i, flipped(entries[i]));
    if j != i {
        assert(once[j] == entries[j]);
        lemma_ids_distinct(entries, bound, i, j);
    }
    assert(once.update(j, flipped(once[j])) =~= entries);
}

/// The todo list: its entries, and the id the next entry gets.
pub struct TodoState {
    items: Vec<TodoItem>,
    next_id: u32,
}

impl TodoState {
    /// The entries, in order.
    pub closed spec fn entries(&self) -> Seq<(u32, Seq<char>, bool)> {
        self.items@.map_values(|item: TodoItem| item_view(item))
    }

    /// The id the next entry gets.
    pub closed spec fn next(&self) -> u32 {
        self.next_id
    }

    /// Ids rise along the list and stay below the next id, so no two entries
    /// share an id.
    pub open spec fn wf(&self) -> bool {
        ids_rise_below(self.entries(), self.next())
    }

    /// An empty list whose first entry gets `next_id`.
    pub fn new(next_id: u32) -> (r: Self)
        ensures
            r.entries() == Seq::<(u32, Seq<char>, bool)>::empty(),
            r.next() == next_id,
            r.wf(),
    {
        let r = TodoState { items: Vec::new(), next_id };
        assert(r.entries() =~= Seq::<(u32, Seq<char>, bool)>::empty());
        r
    }

    /// The entries, in order.
    pub fn items(&self) -> (r: &Vec<TodoItem>)
        ensures
            r@.map_values(|item: TodoItem| item_view(item)) == self.entries(),
    {
        &self.items
    }

    /// The id the next entry gets.
    pub fn next_id(&self) -> (r: u32)
        ensures
            r == self.next(),
    {
        self.next_id
    }

    /// Adds `text`, trimmed, as a new open entry with the next id; text that
    /// is only whitespace adds nothing. Returns whether an entry was added.
    pub fn add(&mut self, text: &str) -> (added: bool)
        requires
            old(self).wf(),
            old(self).next() < u32::MAX,
        ensures
            final(self).wf(),
            added == (trimmed(text@).len() > 0),
            added ==> final(self).entries() == old(self).entries().push(
                (old(self).next(), trimmed(text@), false),
            ),
            added ==> final(self).next() == old(self).next() + 1,
            !added ==> final(self).entries() == old(self).entries() && final(self).next()
                == old(self).next(),
    {
        let t = trim(text);
        if t.as_str().unicode_len() == 0 {
            return false;
        }
        let id = self.next_id;
        let ghost before = self.entries();
        self.items.push(TodoItem { id, text: t, completed: false });
        self.next_id = self.next_id + 1;
        let ghost after = self.entries();
        assert(after =~= before.push((id, trimmed(text@), false)));
        assert forall|i: int, j: int| 0 <= i < j < after.len() implies #[trigger] after[i].0
            < #[trigger] after[j].0 by {
            if j == after.len() - 1 {
                assert(after[i] == before[i]);
            } else {
                assert(after[i] == before[i] && after[j] == before[j]);
            }
        }
        assert forall|i: int| 0 <= i < after.len() implies #[trigger] after[i].0 < self.next() by {
            if i < before.len() {
                assert(after[i] == before[i]);
            }
        }
        true
    }

    /// Flips the completion of the entry with `id`; returns whether there is
    /// one.
    pub fn toggle(&mut self, id: u32) -> (found: bool)
        requires
            old(self).wf(),
        ensures
            final(self).wf(),
            final(self).next() == old(self).next(),
            found == exists|i: int| 0 <= i < old(self).entries().len() && #[trigger] old(self).entries()[i].0 == id,
            found ==> exists|i: int|
                {
                    &&& 0 <= i < old(self).entries().len()
                    &&& #[trigger] old(self).entries()[i].0 == id
                    &&& final(self).entries() == old(self).entries().update(
                        i,
                        (id, old(self).entries()[i].1, !old(self).entries()[i].2),
                    )
                },
            !found ==> final(self).entries() == old(self).entries(),
    {
        let ghost all = self.entries();
        let mut i: usize = 0;
        while i < self.items.len()
            invariant
                i <= self.items@.len(),
                all == self.entries(),
                all == old(self).entries(),
                ids_rise_below(all, self.next_id),
                self.items@ == old(self).items@,
                self.next_id == old(self).next_id,
                forall|k: int| 0 <= k < i ==> (#[trigger] self.items@[k]).id != id,
            decreases self.items@.len() - i,
        {
            if self.items[i].id == id {
                let completed = self.items[i].completed;
                let text = self.items[i].text.clone();
                self.items.set(i, TodoItem { id, text, completed: !completed });
                let ghost after = self.entries();
                assert(after =~= all.update(i as int, (id, all[i as int].1, !all[i as int].2)));
                assert(all[i as int].0 == id);
                assert(old(self).entries()[i as int].0 == id);
                assert forall|a: int, b: int| 0 <= a < b < after.len() implies #[trigger] after[a].0
                    < #[trigger] after[b].0 by {
                    assert(after[a].0 == all[a].0 && after[b].0 == all[b].0);
                }
                assert forall|a: int| 0 <= a < after.len() implies #[trigger] after[a].0 < self.next() by {
                    assert(after[a].0 == all[a].0);
                }
                return true;
            }
            i += 1;
        }
        assert forall|k: int| 0 <= k < all.len() implies #[trigger] all[k].0 != id by {
            assert(all[k].0 == self.items@[k].id);
        }
        false
    }

    /// Removes the entries with `id`.
    pub fn remove(&mut self, id: u32)
        requires
            old(self).wf(),
        ensures
            final(self).wf(),
            final(self).next() == old(self).next(),
            final(self).entries() == without_id(old(self).entries(), id),
    {
        let mut kept: Vec<TodoItem> = Vec::new();
        let mut i: usize = 0;
        let ghost all = self.entries();
        while i < self.items.len()
            invariant
                i <= self.items@.len(),
                all == self.entries(),
                kept@.map_values(|item: TodoItem| item_view(item)) == without_id(
                    all.subrange(0, i as int),
                    id,
                ),
            decreases self.items@.len() - i,
        {
            let ghost prefix = all.subrange(0, (i + 1) as int);
            assert(prefix.drop_last() =~= all.subrange(0, i as int));
            assert(prefix.last() == all[i as int]);
            let ghost before = kept@.map_values(|item: TodoItem| item_view(item));
            if self.items[i].id != id {
                let text = self.items[i].text.clone();
                kept.push(TodoItem { id: self.items[i].id, text, completed: self.items[i].completed });
                assert(kept@.map_values(|item: TodoItem| item_view(item)) =~= before.push(all[i as int]));
            }
            i += 1;
        }
        assert(all.subrange(0, self.items@.len() as int) =~= all);
        proof {
            lemma_without_id_keeps_order(all, id, self.next_id);
        }
        self.items = kept;
    }
}

} // verus!
