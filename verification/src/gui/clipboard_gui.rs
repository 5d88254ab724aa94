//! What the picker window shows and does, apart from drawing it: the history
//! it gets from the daemon, item previews, what a click on an item does, and
//! which emojis a search shows.

use vstd::prelude::*;
use vstd::string::*;
use vstd::utf8::*;

use crate::common::{ClipboardItem, ItemView};
use crate::history::ClipboardHistory;
use crate::services::clipboard_ipc_server::Payload;
use crate::services::clipboard_manager::CLIPBOARD_SIZE;
use crate::text::{
    chars_of, contains_chars, has_substring, is_blank, is_blank_chars, is_white_space, lemma_substring_anywhere,
    occurs_at,
};

verus! {

/// The history that the daemon's reply to a command carries, if any.
/// `reply` is `None` when the daemon could not be reached.
pub fn snapshot_from_reply(reply: Option<Payload>) -> (r: Option<ClipboardHistory>)
    ensures
        match reply {
            Some(Payload::Response(resp)) => r == resp.history_snapshot,
            _ => r is None,
        },
{
    match reply {
        Some(Payload::Response(resp)) => resp.history_snapshot,
        _ => None,
    }
}

/// The history to show: the snapshot in the daemon's reply, or an empty
/// history of the daemon's size when there is none.
pub fn history_from_reply(reply: Option<Payload>) -> (r: ClipboardHistory)
    ensures
        match reply {
            Some(Payload::Response(resp)) if resp.history_snapshot is Some => r
                == resp.history_snapshot.unwrap(),
            _ => r@ == Seq::<ItemView>::empty() && r.capacity() == CLIPBOARD_SIZE,
        },
{
    match snapshot_from_reply(reply) {
        Some(h) => h,
        None => ClipboardHistory::new(CLIPBOARD_SIZE),
    }
}

/// The longest text, in bytes, that is shown whole.
pub const PREVIEW_BYTES: usize = 60;

/// The label of a text item: the text itself when it is at most 60 bytes
/// long, else its first 60 bytes and an ellipsis. The cut must fall on a
/// character boundary.
pub fn text_preview(text: &str) -> (r: String)
    requires
        text.spec_bytes().len() <= usize::MAX,
        text.spec_bytes().len() > PREVIEW_BYTES ==> is_char_boundary(text.spec_bytes(), PREVIEW_BYTES as int),
    ensures
        text.spec_bytes().len() <= PREVIEW_BYTES ==> r@ == text@,
        text.spec_bytes().len() > PREVIEW_BYTES ==> r@ == decode_utf8(
            text.spec_bytes().subrange(0, PREVIEW_BYTES as int),
        ) + "..."@,
{
    if text.len() > PREVIEW_BYTES {
        let parts = text.split_at(PREVIEW_BYTES);
        let head = parts.0;
        proof {
            encode_utf8_decode_utf8(head@);
            assert(encode_utf8(head@) =~= text.spec_bytes().subrange(0, PREVIEW_BYTES as int));
        }
        let mut r = head.to_owned();
        r.append("...");
        r
    } else {
        text.to_owned()
    }
}

/// The number of bytes of an RGBA image of the given size, when it fits in
/// a `usize` (and the row length does too).
pub fn texture_len(width: usize, height: usize) -> (r: Option<usize>)
    ensures
        width * 4 > usize::MAX ==> r is None,
        width * 4 <= usize::MAX && width * 4 * height > usize::MAX ==> r is None,
        width * 4 * height <= usize::MAX && width * 4 <= usize::MAX ==> r == Some(
            (width * 4 * height) as usize,
        ),
{
    let stride = width.checked_mul(4)?;
    stride.checked_mul(height)
}

/// What a click on an item of the history does.
pub enum ClickAction {
    /// Put the text on the clipboard, paste it and close the window.
    PasteText,
    /// Put the image on the clipboard, paste it and close the window.
    PasteImage,
    /// Only close the window.
    Close,
}

/// A click on text that is not blank pastes it, a click on an image with
/// bytes pastes it, and any other click only closes the window.
pub fn click_action(item: &ClipboardItem) -> (r: ClickAction)
    ensures
        match item@ {
            ItemView::Text(t) => if is_blank_chars(t) {
                r is Close
            } else {
                r is PasteText
            },
            ItemView::Image { bytes, .. } => if bytes.len() == 0 {
                r is Close
            } else {
                r is PasteImage
            },
        },
        item@ matches ItemView::Text(t) && (exists|i: int| 0 <= i < t.len() && !is_white_space(
            #[trigger] t[i],
        )) ==> r is PasteText,
        item@ matches ItemView::Text(t) && (forall|i: int| 0 <= i < t.len() ==> is_white_space(
            #[trigger] t[i],
        )) ==> r is Close,
{
    match item {
        ClipboardItem::Text(t) => if is_blank(t.as_str()) {
            assert(forall|i: int| 0 <= i < t@.len() ==> is_white_space(#[trigger] t@[i]));
            ClickAction::Close
        } else {
            ClickAction::PasteText
        },
        ClipboardItem::Image { bytes, .. } => if bytes.len() == 0 {
            ClickAction::Close
        } else {
            ClickAction::PasteImage
        },
    }
}

/// How many times the emoji cleanup looks for the emoji it pasted.
pub const CLEANUP_LOOKS: u64 = 5;

/// The pause, in milliseconds, before look number `attempt` (from 0).
pub open spec fn cleanup_wait(attempt: nat) -> nat {
    120 * (attempt + 1)
}

/// What the emoji cleanup does after a look at the daemon's history.
pub enum CleanupStep {
    /// Wait this many milliseconds, then look again.
    Wait(u64),
    /// The emoji is in the history: delete it from there, and finish.
    Delete,
    /// Give up: the emoji did not show up.
    Finish,
}

/// After an emoji is pasted, the daemon records it like anything copied; the
/// cleanup looks for it in the history a few times, with growing pauses, and
/// deletes it once found.
pub struct EmojiCleanup {
    target: ClipboardItem,
    attempt: u64,
}

impl EmojiCleanup {
    /// The number of looks made so far.
    pub closed spec fn attempt(&self) -> nat {
        self.attempt as nat
    }

    /// The item looked for.
    pub closed spec fn target_view(&self) -> ItemView {
        self.target@
    }

    #[verifier::type_invariant]
    spec fn within_looks(&self) -> bool {
        self.attempt < CLEANUP_LOOKS
    }

    /// A cleanup for the emoji text `emoji`, before its first look.
    pub fn new(emoji: String) -> (r: EmojiCleanup)
        ensures
            r.attempt() == 0,
            r.target_view() == ItemView::Text(emoji@),
    {
        EmojiCleanup { target: ClipboardItem::Text(emoji), attempt: 0 }
    }

    /// The pause before the next look.
    pub fn wait(&self) -> (r: u64)
        ensures
            r == cleanup_wait(self.attempt()),
    {
        proof {
            use_type_invariant(self);
        }
        120 * (self.attempt + 1)
    }

    /// The item to delete once it is found.
    pub fn target(&self) -> (r: &ClipboardItem)
        ensures
            r@ == self.target_view(),
    {
        &self.target
    }

    /// The next step after a look, given the history the daemon sent back
    /// (`None` when it sent none): delete the emoji once it is there, else
    /// look again after a longer pause, until five looks were made.
    pub fn observe(&mut self, snapshot: Option<ClipboardHistory>) -> (r: CleanupStep)
        ensures
            final(self).target_view() == old(self).target_view(),
            final(self).attempt() < CLEANUP_LOOKS,
            snapshot matches Some(h) && h@.contains(old(self).target_view()) ==> r is Delete
                && final(self).attempt() == old(self).attempt(),
            !(snapshot matches Some(h) && h@.contains(old(self).target_view())) ==> if old(
                self,
            ).attempt() + 1 < CLEANUP_LOOKS {
                r == CleanupStep::Wait(cleanup_wait(old(self).attempt() + 1) as u64)
                    && final(self).attempt() == old(self).attempt() + 1
            } else {
                r is Finish && final(self).attempt() == old(self).attempt()
            },
    {
        proof {
            use_type_invariant(&*self);
        }
        let found = match &snapshot {
            Some(h) => h.contains(&self.target),
            None => false,
        };
        if found {
            CleanupStep::Delete
        } else if self.attempt + 1 < CLEANUP_LOOKS {
            self.attempt = self.attempt + 1;
            CleanupStep::Wait(120 * (self.attempt + 1))
        } else {
            CleanupStep::Finish
        }
    }
}

/// One emoji: the glyph and its name.
pub struct EmojiEntry {
    pub glyph: String,
    pub name: String,
}

/// The emoji that the picker never offers.
pub open spec fn hidden_glyph() -> Seq<char> {
    seq!['\u{1F9D1}', '\u{200D}', '\u{1FA70}']
}

/// Whether the picker shows an emoji (glyph, name) for the search text
/// `filter`: a blank search shows every emoji, another search those whose
/// name contains it; the hidden emoji is never shown.
pub open spec fn shown(glyph: Seq<char>, name: Seq<char>, filter: Seq<char>) -> bool {
    glyph != hidden_glyph() && (is_blank_chars(filter) || has_substring(name, filter))
}

/// The glyphs that the picker shows, in catalogue order.
pub open spec fn selected(catalogue: Seq<(Seq<char>, Seq<char>)>, filter: Seq<char>) -> Seq<Seq<char>>
    decreases catalogue.len(),
{
    if catalogue.len() == 0 {
        Seq::empty()
    } else {
        let rest = selected(catalogue.drop_last(), filter);
        let e = catalogue.last();
        if shown(e.0, e.1, filter) {
            rest.push(e.0)
        } else {
            rest
        }
    }
}

/// The catalogue as (glyph, name) pairs.
pub open spec fn catalogue_view(c: Seq<EmojiEntry>) -> Seq<(Seq<char>, Seq<char>)> {
    c.map_values(|e: EmojiEntry| (e.glyph@, e.name@))
}

/// The texts of a list of strings.
pub open spec fn strings_view(v: Seq<String>) -> Seq<Seq<char>> {
    v.map_values(|s: String| s@)
}

fn is_hidden_glyph(glyph: &Vec<char>) -> (r: bool)
    ensures
        r == (glyph@ == hidden_glyph()),
{
    if glyph.len() != 3 {
        return false;
    }
    let r = glyph[0] == '\u{1F9D1}' && glyph[1] == '\u{200D}' && glyph[2] == '\u{1FA70}';
    if r {
        assert(glyph@ =~= hidden_glyph());
    } else {
        assert(glyph@ != hidden_glyph()) by {
            if glyph@ == hidden_glyph() {
                assert(glyph@[0] == hidden_glyph()[0]);
                assert(glyph@[1] == hidden_glyph()[1]);
                assert(glyph@[2] == hidden_glyph()[2]);
            }
        }
    }
    r
}

/// An emoji is shown exactly when it is not the hidden one and either the
/// search text is whitespace only, or the search text occurs in its name at
/// some position.
pub proof fn lemma_shown_law(glyph: Seq<char>, name: Seq<char>, filter: Seq<char>)
    ensures
        shown(glyph, name, filter) <==> (glyph != seq!['\u{1F9D1}', '\u{200D}', '\u{1FA70}'] && ((
        forall|i: int| 0 <= i < filter.len() ==> is_white_space(#[trigger] filter[i])) || (exists|
            k: int,
        |
            0 <= k && k + filter.len() <= name.len() && #[trigger] name.subrange(k, k + filter.len())
                == filter))),
{
    if has_substring(name, filter) {
        let k = choose|k: int| occurs_at(name, filter, k);
        assert(0 <= k && k + filter.len() <= name.len() && name.subrange(k, k + filter.len()) == filter);
    }
    if exists|k: int| 0 <= k && k + filter.len() <= name.len() && #[trigger] name.subrange(k, k + filter.len()) == filter {
        let k = choose|k: int| 0 <= k && k + filter.len() <= name.len() && #[trigger] name.subrange(k, k + filter.len()) == filter;
        assert(occurs_at(name, filter, k));
    }
}

/// A search shows every emoji other than the hidden one whose name holds the
/// search text, wherever in the name it stands.
pub proof fn lemma_shown_anywhere(glyph: Seq<char>, before: Seq<char>, filter: Seq<char>, after: Seq<char>)
    requires
        glyph != hidden_glyph(),
    ensures
        shown(glyph, before + filter + after, filter),
{
    lemma_substring_anywhere(before, filter, after);
}

/// The hidden emoji is never shown.
pub proof fn lemma_hidden_never_shown(name: Seq<char>, filter: Seq<char>)
    ensures
        !shown(hidden_glyph(), name, filter),
{
}

/// The selection holds the glyph of every shown entry of the catalogue; it
/// is never longer than the catalogue.
pub proof fn lemma_selected_law(c: Seq<(Seq<char>, Seq<char>)>, filter: Seq<char>)
    ensures
        selected(c, filter).len() <= c.len(),
        forall|i: int| 0 <= i < c.len() && shown(c[i].0, c[i].1, filter) ==> selected(c, filter).contains(#[trigger] c[i].0),
    decreases c.len(),
{
    if c.len() > 0 {
        let d = c.drop_last();
        lemma_selected_law(d, filter);
        let rest = selected(d, filter);
        let e = c.last();
        assert forall|i: int| 0 <= i < c.len() && shown(c[i].0, c[i].1, filter) implies selected(c, filter).contains(#[trigger] c[i].0) by {
            if i < c.len() - 1 {
                assert(d[i] == c[i]);
                let j = choose|j: int| 0 <= j < rest.len() && rest[j] == d[i].0;
                assert(selected(c, filter)[j] == rest[j]);
            } else {
                assert(selected(c, filter) == rest.push(e.0));
                assert(selected(c, filter)[rest.len() as int] == c[i].0);
            }
        }
    }
}

/// Every glyph in the selection is the glyph of a shown entry of the
/// catalogue: the one returned.
pub proof fn lemma_selected_from(c: Seq<(Seq<char>, Seq<char>)>, filter: Seq<char>, j: int) -> (i: int)
    requires
        0 <= j < selected(c, filter).len(),
    ensures
        0 <= i < c.len(),
        c[i].0 == selected(c, filter)[j],
        shown(c[i].0, c[i].1, filter),
    decreases c.len(),
{
    let d = c.drop_last();
    let rest = selected(d, filter);
    let e = c.last();
    if j < rest.len() {
        let i = lemma_selected_from(d, filter, j);
        assert(c[i] == d[i]);
        i
    } else {
        assert(selected(c, filter) == rest.push(e.0));
        (c.len() - 1) as int
    }
}

/// The glyphs of the catalogue's emojis that the search text `filter`
/// shows, in catalogue order.
pub fn select_emojis(catalogue: &Vec<EmojiEntry>, filter: &str) -> (r: Vec<String>)
    ensures
        strings_view(r@) == selected(catalogue_view(catalogue@), filter@),
{
    let blank = is_blank(filter);
    let pat = chars_of(filter);
    let ghost cat = catalogue_view(catalogue@);
    let mut out: Vec<String> = Vec::new();
    let n = catalogue.len();
    let mut i: usize = 0;
    while i < n
        invariant
            n == catalogue@.len(),
            cat == catalogue_view(catalogue@),
            blank == is_blank_chars(filter@),
            pat@ == filter@,
            i <= n,
            strings_view(out@) == selected(cat.take(i as int), filter@),
        decreases n - i,
    {
        let entry = &catalogue[i];
        let glyph = chars_of(entry.glyph.as_str());
        let name = chars_of(entry.name.as_str());
        let show = !is_hidden_glyph(&glyph) && (blank || contains_chars(&name, &pat));
        let ghost before = out@;
        proof {
            assert(cat.take(i + 1).drop_last() =~= cat.take(i as int));
            assert(cat.take(i + 1).last() == (entry.glyph@, entry.name@));
        }
        if show {
            out.push(entry.glyph.clone());
            assert(strings_view(out@) =~= strings_view(before).push(entry.glyph@));
        }
        i = i + 1;
    }
    assert(cat.take(n as int) =~= cat);
    out
}

/// The entry at position `i` of the `emojis` crate's catalogue (the order of
/// `emojis::iter()`), as (glyph, name); `None` past its end.
pub uninterp spec fn emoji_at(i: nat) -> Option<(Seq<char>, Seq<char>)>;

/// `c` is the crate's catalogue: its entries are those at each position, and
/// it ends where the catalogue ends.
pub open spec fn is_catalogue(c: Seq<(Seq<char>, Seq<char>)>) -> bool {
    &&& forall|i: int| 0 <= i < c.len() ==> emoji_at(i as nat) == Some(#[trigger] c[i])
    &&& emoji_at(c.len()) is None
}

/// The glyphs that the crate's documentation shows first in its catalogue.
pub open spec fn first_glyphs() -> Seq<Seq<char>> {
    seq![seq!['\u{1F600}'], seq!['\u{1F603}'], seq!['\u{1F604}'], seq!['\u{1F601}'], seq!['\u{1F606}']]
}

/// Only one sequence is the crate's catalogue.
pub proof fn lemma_catalogue_unique(c1: Seq<(Seq<char>, Seq<char>)>, c2: Seq<(Seq<char>, Seq<char>)>)
    requires
        is_catalogue(c1),
        is_catalogue(c2),
    ensures
        c1 == c2,
{
    if c1.len() < c2.len() {
        assert(emoji_at(c1.len()) == Some(c2[c1.len() as int]));
    } else if c2.len() < c1.len() {
        assert(emoji_at(c2.len()) == Some(c1[c2.len() as int]));
    }
    assert forall|i: int| 0 <= i < c1.len() implies c1[i] == c2[i] by {
        assert(emoji_at(i as nat) == Some(c1[i]));
        assert(emoji_at(i as nat) == Some(c2[i]));
    }
    assert(c1 =~= c2);
}

/// Selecting from two catalogues one after the other is selecting from both.
pub proof fn lemma_selected_concat(
    a: Seq<(Seq<char>, Seq<char>)>,
    b: Seq<(Seq<char>, Seq<char>)>,
    filter: Seq<char>,
)
    ensures
        selected(a + b, filter) == selected(a, filter) + selected(b, filter),
    decreases b.len(),
{
    if b.len() == 0 {
        assert(a + b =~= a);
        assert(selected(a, filter) + selected(b, filter) =~= selected(a, filter));
    } else {
        lemma_selected_concat(a, b.drop_last(), filter);
        assert((a + b).drop_last() =~= a + b.drop_last());
        assert((a + b).last() == b.last());
        if shown(b.last().0, b.last().1, filter) {
            assert(selected(a + b, filter) =~= selected(a, filter) + selected(b, filter));
        } else {
            assert(selected(a + b, filter) =~= selected(a, filter) + selected(b, filter));
        }
    }
}

proof fn lemma_selected_one(e: (Seq<char>, Seq<char>), filter: Seq<char>)
    requires
        shown(e.0, e.1, filter),
    ensures
        selected(seq![e], filter) == seq![e.0],
{
    let one = seq![e];
    let none = Seq::<(Seq<char>, Seq<char>)>::empty();
    assert(one.drop_last() =~= none);
    assert(one.last() == e);
    assert(selected(none, filter) =~= Seq::<Seq<char>>::empty());
    assert(selected(one, filter) == selected(none, filter).push(e.0));
    assert(selected(one, filter) =~= seq![e.0]);
}

/// Calls `emojis::iter` and copies each emoji's `as_str` and `name` into an
/// entry. The contract claims that the entries are the crate's catalogue in
/// its order (named by `emoji_at`), and that it begins with the five glyphs
/// that the crate's documentation of `iter` shows. Trusted, not proved.
#[verifier::external_body]
fn emoji_catalogue() -> (r: Vec<EmojiEntry>)
    ensures
        forall|i: int| 0 <= i < r@.len() ==> emoji_at(i as nat) == Some((#[trigger] r@[i].glyph@, r@[i].name@)),
        emoji_at(r@.len()) is None,
        r@.len() >= 5,
        forall|i: int| 0 <= i < 5 ==> #[trigger] r@[i].glyph@ == first_glyphs()[i],
{
    emojis::iter().map(|e| EmojiEntry { glyph: e.as_str().to_string(), name: e.name().to_string() }).collect()
}

/// The emojis that the picker shows for the search text `filter`: the
/// crate's catalogue (there is only one, see `lemma_catalogue_unique`),
/// selected by `select_emojis`. A blank search shows all of them, so the list
/// begins with the five glyphs the crate documents first.
pub fn emoji_choices(filter: &str) -> (r: Vec<String>)
    ensures
        exists|c: Seq<(Seq<char>, Seq<char>)>| is_catalogue(c) && strings_view(r@) == selected(c, filter@),
        is_blank_chars(filter@) ==> strings_view(r@).len() >= 5 && strings_view(r@).take(5) == first_glyphs(),
{
    let catalogue = emoji_catalogue();
    let r = select_emojis(&catalogue, filter);
    proof {
        let c = catalogue_view(catalogue@);
        assert(is_catalogue(c)) by {
            assert forall|i: int| 0 <= i < c.len() implies emoji_at(i as nat) == Some(#[trigger] c[i]) by {
                assert(c[i] == (catalogue@[i].glyph@, catalogue@[i].name@));
            }
        }
        if is_blank_chars(filter@) {
            let head = c.take(5);
            assert(c =~= head + c.skip(5));
            lemma_selected_concat(head, c.skip(5), filter@);
            let e0 = c[0];
            let e1 = c[1];
            let e2 = c[2];
            let e3 = c[3];
            let e4 = c[4];
            assert forall|i: int| 0 <= i < 5 implies #[trigger] c[i].0 == first_glyphs()[i] by {
                assert(c[i].0 == catalogue@[i].glyph@);
            }
            assert forall|i: int| 0 <= i < 5 implies shown(#[trigger] c[i].0, c[i].1, filter@) by {
                assert(c[i].0 == first_glyphs()[i]);
                assert(c[i].0.len() == 1);
                assert(hidden_glyph().len() == 3);
            }
            assert(head =~= seq![e0] + seq![e1] + seq![e2] + seq![e3] + seq![e4]);
            lemma_selected_one(e0, filter@);
            lemma_selected_one(e1, filter@);
            lemma_selected_one(e2, filter@);
            lemma_selected_one(e3, filter@);
            lemma_selected_one(e4, filter@);
            lemma_selected_concat(seq![e0], seq![e1], filter@);
            lemma_selected_concat(seq![e0] + seq![e1], seq![e2], filter@);
            lemma_selected_concat(seq![e0] + seq![e1] + seq![e2], seq![e3], filter@);
            lemma_selected_concat(seq![e0] + seq![e1] + seq![e2] + seq![e3], seq![e4], filter@);
            assert(selected(head, filter@) =~= first_glyphs());
            assert(strings_view(r@).take(5) =~= first_glyphs());
        }
    }
    r
}

} // verus!
