//! The clipboard history: a bounded, duplicate-free queue of items, most
//! recent first.

use std::collections::VecDeque;
use vstd::prelude::*;
use vstd::string::*;

use crate::common::{ClipboardError, ClipboardItem, ItemView};
use crate::text::{decimal, push_decimal};

verus! {

/// No content occurs twice in `s`.
pub open spec fn no_repeats(s: Seq<ItemView>) -> bool {
    forall|i: int, j: int| 0 <= i < s.len() && 0 <= j < s.len() && i != j ==> s[i] != s[j]
}

/// `s` with its entry at `p` taken out and put in front.
pub open spec fn move_to_front(s: Seq<ItemView>, p: int) -> Seq<ItemView> {
    seq![s[p]] + s.remove(p)
}

/// `v` put in front of `s`, then the oldest entry dropped when that makes
/// the sequence longer than `max`.
pub open spec fn push_front_bounded(s: Seq<ItemView>, v: ItemView, max: nat) -> Seq<ItemView> {
    let t = seq![v] + s;
    if t.len() > max {
        t.drop_last()
    } else {
        t
    }
}

/// The history `s` (capacity `max`) after `v` was copied: content already
/// present is promoted to the front, new content is pushed to the front.
pub open spec fn added(s: Seq<ItemView>, v: ItemView, max: nat) -> Seq<ItemView> {
    match s.index_of_first(v) {
        Some(p) => move_to_front(s, p),
        None => push_front_bounded(s, v, max),
    }
}

/// One line of the printed history: the position, then the text, or the
/// size of an image.
pub open spec fn table_row(pos: nat, v: ItemView) -> Seq<char> {
    "\r\n"@ + decimal(pos) + "       | "@ + match v {
        ItemView::Image { width, height, .. } => "Image ("@ + decimal(width as nat) + ", "@
            + decimal(height as nat) + ")"@,
        ItemView::Text(t) => t,
    } + "     "@
}

/// The lines of the printed history for the items `s`, numbered from 0.
pub open spec fn table_rows(s: Seq<ItemView>) -> Seq<char>
    decreases s.len(),
{
    if s.len() == 0 {
        Seq::empty()
    } else {
        table_rows(s.drop_last()) + table_row((s.len() - 1) as nat, s.last())
    }
}

/// The printed history: a header, then one line per item.
pub open spec fn table(s: Seq<ItemView>) -> Seq<char> {
    "POS     | ITEM     "@ + "\r\n---------------"@ + table_rows(s)
}

/// A clipboard history manager that maintains a fixed-size queue of clipboard
/// items, most recent first. Copying content that is already in the history
/// promotes it to the front instead of storing it twice.
#[derive(PartialEq, Eq, Debug)]
pub struct ClipboardHistory {
    history: VecDeque<ClipboardItem>,
    max_size: usize,
}

impl View for ClipboardHistory {
    type V = Seq<ItemView>;

    /// The contents of the history, most recent first.
    closed spec fn view(&self) -> Seq<ItemView> {
        self.history@.map_values(|x: ClipboardItem| x@)
    }
}

proof fn lemma_move_to_front(s: Seq<ItemView>, p: int)
    requires
        0 <= p < s.len(),
    ensures
        move_to_front(s, p).len() == s.len(),
        move_to_front(s, p)[0] == s[p],
        move_to_front(s, p).to_multiset() == s.to_multiset(),
        no_repeats(s) ==> no_repeats(move_to_front(s, p)),
{
    let t = move_to_front(s, p);
    assert(t =~= s.remove(p).insert(0, s[p]));
    vstd::seq_lib::to_multiset_remove(s, p);
    vstd::seq_lib::to_multiset_insert(s.remove(p), 0, s[p]);
    assert(s.to_multiset().remove(s[p]).insert(s[p]) =~= s.to_multiset()) by {
        broadcast use vstd::multiset::group_multiset_axioms;
        vstd::seq_lib::to_multiset_contains(s, s[p]);
        assert(s.contains(s[p]));
    }
    if no_repeats(s) {
        // Each position of `t` names a distinct position of `s`.
        assert forall|i: int, j: int|
            0 <= i < t.len() && 0 <= j < t.len() && i != j implies t[i] != t[j] by {
            let si = if i == 0 { p } else if i - 1 < p { i - 1 } else { i };
            let sj = if j == 0 { p } else if j - 1 < p { j - 1 } else { j };
            assert(t[i] == s[si]);
            assert(t[j] == s[sj]);
        }
    }
}

proof fn lemma_remove_keeps_no_repeats(s: Seq<ItemView>, p: int)
    requires
        0 <= p < s.len(),
        no_repeats(s),
    ensures
        no_repeats(s.remove(p)),
{
    let t = s.remove(p);
    assert forall|i: int, j: int|
        0 <= i < t.len() && 0 <= j < t.len() && i != j implies t[i] != t[j] by {
        let si = if i < p { i } else { i + 1 };
        let sj = if j < p { j } else { j + 1 };
        assert(t[i] == s[si]);
        assert(t[j] == s[sj]);
    }
}

proof fn lemma_push_front_bounded(s: Seq<ItemView>, v: ItemView, max: nat)
    requires
        s.len() <= max,
        no_repeats(s),
        !s.contains(v),
    ensures
        push_front_bounded(s, v, max).len() <= max,
        no_repeats(push_front_bounded(s, v, max)),
        max > 0 ==> push_front_bounded(s, v, max)[0] == v,
        max > 0 ==> push_front_bounded(s, v, max).len() == (if s.len() < max { s.len() + 1int } else { max as int }),
{
    let t = seq![v] + s;
    assert forall|i: int, j: int|
        0 <= i < t.len() && 0 <= j < t.len() && i != j implies t[i] != t[j] by {
        if i == 0 && j > 0 {
            assert(t[j] == s[j - 1]);
        } else if j == 0 && i > 0 {
            assert(t[i] == s[i - 1]);
        } else {
            assert(t[i] == s[i - 1]);
            assert(t[j] == s[j - 1]);
        }
    }
    let u = push_front_bounded(s, v, max);
    assert forall|i: int, j: int|
        0 <= i < u.len() && 0 <= j < u.len() && i != j implies u[i] != u[j] by {
        assert(u[i] == t[i]);
        assert(u[j] == t[j]);
    }
}

proof fn lemma_first_match(s: Seq<ItemView>, v: ItemView, p: int)
    requires
        0 <= p < s.len(),
        s[p] == v,
        forall|j: int| 0 <= j < p ==> s[j] != v,
    ensures
        s.index_of_first(v) == Some(p),
{
    s.index_of_first_ensures(v);
    assert(s.contains(v));
}

proof fn lemma_no_match(s: Seq<ItemView>, v: ItemView)
    requires
        forall|j: int| 0 <= j < s.len() ==> s[j] != v,
    ensures
        s.index_of_first(v) == None::<int>,
        !s.contains(v),
{
    s.index_of_first_ensures(v);
}

/// Copying the same content twice in a row leaves the history as the first
/// copy left it.
pub proof fn lemma_add_idempotent(s: Seq<ItemView>, v: ItemView, max: nat)
    requires
        s.len() <= max,
        no_repeats(s),
    ensures
        added(added(s, v, max), v, max) == added(s, v, max),
{
    let t = added(s, v, max);
    s.index_of_first_ensures(v);
    match s.index_of_first(v) {
        Some(p) => {
            lemma_move_to_front(s, p);
        },
        None => {
            lemma_push_front_bounded(s, v, max);
        },
    }
    if max == 0 {
        assert(s.len() == 0);
        assert(t =~= Seq::<ItemView>::empty());
        lemma_no_match(t, v);
        assert(added(t, v, max) =~= t);
    } else {
        assert(t[0] == v);
        lemma_first_match(t, v, 0);
        assert(move_to_front(t, 0) =~= t);
    }
}

/// Items are ordered from most recent to oldest: after `a` and then a
/// different `b` are copied into a history that keeps at least two items,
/// `b` is first and `a` second.
pub proof fn lemma_add_recent_first(s: Seq<ItemView>, a: ItemView, b: ItemView, max: nat)
    requires
        s.len() <= max,
        no_repeats(s),
        max >= 2,
        a != b,
    ensures
        added(added(s, a, max), b, max).len() >= 2,
        added(added(s, a, max), b, max)[0] == b,
        added(added(s, a, max), b, max)[1] == a,
{
    let t = added(s, a, max);
    s.index_of_first_ensures(a);
    match s.index_of_first(a) {
        Some(p) => {
            lemma_move_to_front(s, p);
        },
        None => {
            lemma_push_front_bounded(s, a, max);
        },
    }
    assert(t[0] == a);
    t.index_of_first_ensures(b);
    match t.index_of_first(b) {
        Some(p) => {
            assert(p != 0);
            lemma_move_to_front(t, p);
            assert(move_to_front(t, p)[1] == t.remove(p)[0]);
        },
        None => {
            assert(!t.contains(b));
            lemma_push_front_bounded(t, b, max);
            assert(push_front_bounded(t, b, max)[1] == (seq![b] + t)[1]);
        },
    }
}

/// The history (capacity `max`) after the contents `vs` were copied into `s`
/// one after the other, `vs[0]` first.
pub open spec fn added_all(s: Seq<ItemView>, vs: Seq<ItemView>, max: nat) -> Seq<ItemView>
    decreases vs.len(),
{
    if vs.len() == 0 {
        s
    } else {
        added(added_all(s, vs.drop_last(), max), vs.last(), max)
    }
}

/// Items are ordered from most recent to oldest: copying pairwise different
/// contents `vs` into an empty history leaves the newest first, down to the
/// oldest that still fits.
pub proof fn lemma_added_all_newest_first(vs: Seq<ItemView>, max: nat)
    requires
        no_repeats(vs),
    ensures
        added_all(Seq::empty(), vs, max) == vs.reverse().take(
            if vs.len() < max { vs.len() as int } else { max as int },
        ),
    decreases vs.len(),
{
    let k = vs.len() as int;
    let m = if k < max { k } else { max as int };
    if k == 0 {
        assert(vs.reverse().take(0) =~= Seq::<ItemView>::empty());
    } else {
        let front = vs.drop_last();
        let v = vs.last();
        assert(no_repeats(front)) by {
            assert forall|i: int, j: int|
                0 <= i < front.len() && 0 <= j < front.len() && i != j implies front[i] != front[j] by {
                assert(front[i] == vs[i] && front[j] == vs[j]);
            }
        }
        lemma_added_all_newest_first(front, max);
        let m1 = if k - 1 < max { k - 1 } else { max as int };
        let prev = front.reverse().take(m1);
        assert(added_all(Seq::empty(), vs, max) == added(prev, v, max));
        // `v` differs from everything copied before it.
        assert forall|j: int| 0 <= j < prev.len() implies prev[j] != v by {
            assert(prev[j] == vs[k - 2 - j]);
            assert(v == vs[k - 1]);
        }
        assert(no_repeats(prev)) by {
            assert forall|i: int, j: int|
                0 <= i < prev.len() && 0 <= j < prev.len() && i != j implies prev[i] != prev[j] by {
                assert(prev[i] == vs[k - 2 - i] && prev[j] == vs[k - 2 - j]);
            }
        }
        lemma_no_match(prev, v);
        assert(added(prev, v, max) == push_front_bounded(prev, v, max));
        assert(vs.reverse() =~= seq![v] + front.reverse());
        if max == 0 {
            assert(push_front_bounded(prev, v, max) =~= vs.reverse().take(0));
        } else if k - 1 < max {
            assert(push_front_bounded(prev, v, max) =~= vs.reverse().take(m));
        } else {
            assert(push_front_bounded(prev, v, max) =~= vs.reverse().take(m));
        }
    }
}

/// Copying content that is already in the history neither grows nor shrinks
/// it: the same items remain, with that content in front.
pub proof fn lemma_add_present(s: Seq<ItemView>, v: ItemView, max: nat)
    requires
        s.contains(v),
    ensures
        added(s, v, max).len() == s.len(),
        added(s, v, max).to_multiset() == s.to_multiset(),
        added(s, v, max)[0] == v,
{
    s.index_of_first_ensures(v);
    let p = s.index_of_first(v).unwrap();
    lemma_move_to_front(s, p);
}

/// Copying new content into a history grows it by one item, up to its
/// capacity, and keeps every item but the oldest when it is full.
pub proof fn lemma_add_new(s: Seq<ItemView>, v: ItemView, max: nat)
    requires
        !s.contains(v),
        s.len() <= max,
        no_repeats(s),
        max > 0,
    ensures
        added(s, v, max).len() == (if s.len() < max { s.len() + 1int } else { max as int }),
        added(s, v, max)[0] == v,
        forall|i: int| 0 <= i < added(s, v, max).len() - 1 ==> added(s, v, max)[i + 1] == s[i],
{
    s.index_of_first_ensures(v);
    lemma_push_front_bounded(s, v, max);
}

/// Promoting the front item changes nothing.
pub proof fn lemma_promote_front(s: Seq<ItemView>)
    requires
        s.len() > 0,
    ensures
        move_to_front(s, 0) == s,
{
    assert(move_to_front(s, 0) =~= s);
}

/// Promotion only reorders: the same items remain, and the promoted one is
/// first.
pub proof fn lemma_promote_permutes(s: Seq<ItemView>, p: int)
    requires
        0 <= p < s.len(),
    ensures
        move_to_front(s, p).len() == s.len(),
        move_to_front(s, p).to_multiset() == s.to_multiset(),
        move_to_front(s, p)[0] == s[p],
        no_repeats(s) ==> no_repeats(move_to_front(s, p)),
{
    lemma_move_to_front(s, p);
}

/// Deleting the front item right after a promotion deletes the promoted item
/// from where it stood.
pub proof fn lemma_promote_then_delete_front(s: Seq<ItemView>, p: int)
    requires
        0 <= p < s.len(),
    ensures
        move_to_front(s, p).remove(0) == s.remove(p),
{
    assert(move_to_front(s, p).remove(0) =~= s.remove(p));
}

impl ClipboardHistory {
    /// The most items the history keeps.
    pub closed spec fn capacity(&self) -> nat {
        self.max_size as nat
    }

    /// The history holds at most its capacity of items, and no content
    /// twice. Every history that the library builds is well formed, and
    /// every operation keeps it so; a history rebuilt from received parts
    /// is taken as it comes.
    pub open spec fn well_formed(&self) -> bool {
        &&& self@.len() <= self.capacity()
        &&& no_repeats(self@)
    }

    proof fn lemma_view(&self)
        ensures
            self@.len() == self.history@.len(),
            forall|i: int| 0 <= i < self.history@.len() ==> #[trigger] self@[i] == self.history@[i]@,
    {
    }

    /// Creates an empty history that keeps at most `max_size` items.
    pub fn new(max_size: usize) -> (h: Self)
        ensures
            h@ == Seq::<ItemView>::empty(),
            h.capacity() == max_size,
            h.well_formed(),
    {
        let history: VecDeque<ClipboardItem> = VecDeque::with_capacity(max_size);
        assert(history@.map_values(|x: ClipboardItem| x@) =~= Seq::<ItemView>::empty());
        ClipboardHistory { history, max_size }
    }

    /// The position of the first item whose content is that of `item`.
    pub fn position(&self, item: &ClipboardItem) -> (r: Option<usize>)
        ensures
            r matches Some(p) ==> self@.index_of_first(item@) == Some(p as int),
            r is None ==> self@.index_of_first(item@) == None::<int>,
            r matches Some(p) ==> p < self@.len() && self@[p as int] == item@,
            r is None ==> !self@.contains(item@),
    {
        proof {
            self.lemma_view();
        }
        let n = self.history.len();
        let mut i: usize = 0;
        while i < n
            invariant
                n == self@.len(),
                n == self.history@.len(),
                i <= n,
                forall|j: int| 0 <= j < self.history@.len() ==> #[trigger] self@[j] == self.history@[j]@,
                forall|j: int| 0 <= j < i ==> self@[j] != item@,
            decreases n - i,
        {
            if self.history[i].same_content(item) {
                proof {
                    lemma_first_match(self@, item@, i as int);
                }
                return Some(i);
            }
            i = i + 1;
        }
        proof {
            lemma_no_match(self@, item@);
        }
        None
    }

    /// Whether some item of the history has the content of `item`.
    pub fn contains(&self, item: &ClipboardItem) -> (r: bool)
        ensures
            r == self@.contains(item@),
    {
        match self.position(item) {
            Some(_) => true,
            None => false,
        }
    }

    /// Promotes the item at position `pos` to the front of the history.
    /// A position past the end leaves the history as it is and is refused.
    pub fn promote(&mut self, pos: usize) -> (r: Result<(), ClipboardError>)
        ensures
            final(self).capacity() == old(self).capacity(),
            old(self).well_formed() ==> final(self).well_formed(),
            pos < old(self)@.len() ==> r is Ok && final(self)@ == move_to_front(old(self)@, pos as int),
            pos >= old(self)@.len() ==> r == Err::<(), ClipboardError>(ClipboardError::IndexOutOfBound)
                && final(self)@ == old(self)@,
    {
        let ghost before = self@;
        let mut items: VecDeque<ClipboardItem> = VecDeque::new();
        std::mem::swap(&mut items, &mut self.history);
        assert(before =~= items@.map_values(|x: ClipboardItem| x@));
        match items.remove(pos) {
            Some(item) => {
                let ghost removed = items@;
                items.push_front(item);
                proof {
                    assert(removed.map_values(|x: ClipboardItem| x@) =~= before.remove(pos as int));
                    assert(items@.map_values(|x: ClipboardItem| x@) =~= move_to_front(before, pos as int));
                    lemma_move_to_front(before, pos as int);
                }
                self.history = items;
                Ok(())
            },
            None => {
                self.history = items;
                Err(ClipboardError::IndexOutOfBound)
            },
        }
    }

    /// Deletes the item at position `pos` from the history. A position past
    /// the end leaves the history as it is and is refused.
    pub fn delete(&mut self, pos: usize) -> (r: Result<(), ClipboardError>)
        ensures
            final(self).capacity() == old(self).capacity(),
            old(self).well_formed() ==> final(self).well_formed(),
            pos < old(self)@.len() ==> r is Ok && final(self)@ == old(self)@.remove(pos as int),
            pos >= old(self)@.len() ==> r == Err::<(), ClipboardError>(ClipboardError::IndexOutOfBound)
                && final(self)@ == old(self)@,
    {
        let ghost before = self@;
        let mut items: VecDeque<ClipboardItem> = VecDeque::new();
        std::mem::swap(&mut items, &mut self.history);
        assert(before =~= items@.map_values(|x: ClipboardItem| x@));
        match items.remove(pos) {
            Some(_) => {
                proof {
                    assert(items@.map_values(|x: ClipboardItem| x@) =~= before.remove(pos as int));
                    if no_repeats(before) {
                        lemma_remove_keeps_no_repeats(before, pos as int);
                    }
                }
                self.history = items;
                Ok(())
            },
            None => {
                self.history = items;
                Err(ClipboardError::IndexOutOfBound)
            },
        }
    }

    /// Adds a new clipboard item to the history.
    ///
    /// If content equal to the item is already in the history, that entry is
    /// promoted to the front instead of storing a duplicate. Otherwise the
    /// item goes to the front, and the oldest item is dropped when the history
    /// would exceed its capacity.
    pub fn add(&mut self, item: ClipboardItem)
        ensures
            final(self).capacity() == old(self).capacity(),
            final(self)@ == added(old(self)@, item@, old(self).capacity()),
            forall|p: int|
                0 <= p < old(self)@.len() && old(self)@[p] == item@ && (forall|j: int|
                    0 <= j < p ==> old(self)@[j] != item@) ==> final(self)@ == move_to_front(
                    old(self)@,
                    p,
                ),
            !old(self)@.contains(item@) ==> final(self)@ == push_front_bounded(
                old(self)@,
                item@,
                old(self).capacity(),
            ),
            old(self).well_formed() ==> final(self).well_formed(),
            final(self).capacity() > 0 ==> final(self)@[0] == item@,
    {
        if let Some(pos) = self.position(&item) {
            let _ = self.promote(pos);
            proof {
                lemma_move_to_front(old(self)@, pos as int);
                old(self)@.index_of_first_ensures(item@);
                assert forall|p: int|
                    0 <= p < old(self)@.len() && old(self)@[p] == item@ && (forall|j: int|
                        0 <= j < p ==> old(self)@[j] != item@) implies p == pos as int by {
                    if p < pos as int {
                        assert(old(self)@[p] != item@);
                    } else if p > pos as int {
                        assert(old(self)@[pos as int] != item@);
                    }
                }
            }
            return;
        }
        let ghost before = self@;
        let mut items: VecDeque<ClipboardItem> = VecDeque::new();
        std::mem::swap(&mut items, &mut self.history);
        assert(before =~= items@.map_values(|x: ClipboardItem| x@));
        let ghost view_item = item@;
        items.push_front(item);
        assert(items@.map_values(|x: ClipboardItem| x@) =~= seq![view_item] + before);
        if items.len() > self.max_size {
            let _ = items.pop_back();
            assert(items@.map_values(|x: ClipboardItem| x@) =~= (seq![view_item] + before).drop_last());
        }
        proof {
            lemma_no_match(before, view_item);
            if before.len() <= self.max_size && no_repeats(before) {
                lemma_push_front_bounded(before, view_item, self.max_size as nat);
            }
        }
        self.history = items;
    }

    /// A copy of the history: the same items in the same order, with the same
    /// capacity.
    pub fn snapshot(&self) -> (r: Self)
        ensures
            r@ == self@,
            r.capacity() == self.capacity(),
            r.well_formed() == self.well_formed(),
    {
        proof {
            self.lemma_view();
        }
        let n = self.history.len();
        let mut items: VecDeque<ClipboardItem> = VecDeque::with_capacity(self.max_size);
        let mut i: usize = 0;
        while i < n
            invariant
                n == self.history@.len(),
                n == self@.len(),
                i <= n,
                items@.len() == i,
                forall|j: int| 0 <= j < self.history@.len() ==> #[trigger] self@[j] == self.history@[j]@,
                forall|j: int| 0 <= j < i ==> #[trigger] items@[j]@ == self@[j],
            decreases n - i,
        {
            let copy = self.history[i].duplicate();
            items.push_back(copy);
            i = i + 1;
        }
        assert(items@.map_values(|x: ClipboardItem| x@) =~= self@);
        ClipboardHistory { history: items, max_size: self.max_size }
    }

    /// Deletes the item whose content is that of `item`. When no item has
    /// that content the history is left as it is and the request is refused.
    pub fn delete_this(&mut self, item: ClipboardItem) -> (r: Result<(), ClipboardError>)
        ensures
            final(self).capacity() == old(self).capacity(),
            match old(self)@.index_of_first(item@) {
                Some(p) => r is Ok && final(self)@ == old(self)@.remove(p),
                None => r == Err::<(), ClipboardError>(ClipboardError::IndexOutOfBound)
                    && final(self)@ == old(self)@,
            },
            old(self).well_formed() ==> final(self).well_formed(),
            old(self).well_formed() ==> !final(self)@.contains(item@),
    {
        match self.position(&item) {
            Some(pos) => {
                let r = self.delete(pos);
                proof {
                    let s = old(self)@;
                    let t = s.remove(pos as int);
                    assert forall|j: int| 0 <= j < t.len() && no_repeats(s) implies t[j] != item@ by {
                        let sj = if j < pos { j } else { j + 1 };
                        assert(t[j] == s[sj]);
                    }
                }
                r
            },
            None => Err(ClipboardError::IndexOutOfBound),
        }
    }

    /// Returns all items in the history, ordered from most recent (front) to
    /// oldest (back).
    pub fn get_items(&self) -> (r: &VecDeque<ClipboardItem>)
        ensures
            r@.map_values(|x: ClipboardItem| x@) == self@,
    {
        &self.history
    }

    /// The most items the history keeps.
    pub fn max_size(&self) -> (r: usize)
        ensures
            r == self.capacity(),
    {
        self.max_size
    }

    /// Rebuilds a history from its items (most recent first) and capacity, as
    /// a snapshot received from the daemon carries them. The parts are taken
    /// as they come; `well_formed` tells whether they keep the history's
    /// rules.
    pub fn from_parts(items: VecDeque<ClipboardItem>, max_size: usize) -> (r: Self)
        ensures
            r@ == items@.map_values(|x: ClipboardItem| x@),
            r.capacity() == max_size,
    {
        ClipboardHistory { history: items, max_size }
    }

    /// Formats the history as a human-readable table: each item with its
    /// position, text items by their content and images by their size.
    pub fn table(&self) -> (r: String)
        ensures
            r@ == table(self@),
    {
        proof {
            self.lemma_view();
        }
        let mut out = String::from_str("POS     | ITEM     ");
        out.append("\r\n---------------");
        let n = self.history.len();
        let mut i: usize = 0;
        while i < n
            invariant
                n == self.history@.len(),
                n == self@.len(),
                i <= n,
                forall|j: int| 0 <= j < self.history@.len() ==> #[trigger] self@[j] == self.history@[j]@,
                out@ == "POS     | ITEM     "@ + "\r\n---------------"@ + table_rows(self@.take(i as int)),
            decreases n - i,
        {
            let ghost before = out@;
            out.append("\r\n");
            push_decimal(&mut out, i);
            out.append("       | ");
            match &self.history[i] {
                ClipboardItem::Image { width, height, .. } => {
                    out.append("Image (");
                    push_decimal(&mut out, *width);
                    out.append(", ");
                    push_decimal(&mut out, *height);
                    out.append(")");
                },
                ClipboardItem::Text(t) => {
                    out.append(t.as_str());
                },
            }
            out.append("     ");
            proof {
                let s = self@.take(i + 1);
                assert(s.drop_last() =~= self@.take(i as int));
                assert(s.last() == self@[i as int]);
                assert(out@ =~= before + table_row(i as nat, self@[i as int]));
            }
            i = i + 1;
        }
        assert(self@.take(n as int) =~= self@);
        out
    }

    /// Clears all items from the history.
    pub fn clear(&mut self)
        ensures
            final(self).capacity() == old(self).capacity(),
            final(self)@ == Seq::<ItemView>::empty(),
            final(self).well_formed(),
    {
        let mut items: VecDeque<ClipboardItem> = VecDeque::new();
        std::mem::swap(&mut items, &mut self.history);
        items.clear();
        assert(items@.map_values(|x: ClipboardItem| x@) =~= Seq::<ItemView>::empty());
        self.history = items;
    }
}

} // verus!
