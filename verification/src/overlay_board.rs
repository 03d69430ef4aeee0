//! The overlays that live on from one look at the screen to the next. Stable text
//! stays in place, which is what keeps the overlay from jittering.

use crate::screen_translate::{NewOverlay, Overlay, OverlayUpdate};
use crate::sequence::newest;
use crate::text;
use vstd::prelude::*;
use vstd::string::*;

verus! {

broadcast use vstd::string::group_string_axioms;

/// Overlays that are shown at most.
pub const MAX_OVERLAYS: usize = 100;

/// Looks in a row that must miss an overlay for it to be dropped. One miss alone is
/// tolerated.
pub const MAX_MISSES: u8 = 2;

/// A live overlay, and how many looks in a row it has been missed.
#[derive(Debug)]
pub struct LiveOverlay {
    pub overlay: Overlay,
    pub misses: u8,
}

/// What a look at the screen did: how many overlays are shown, and how many of them
/// it added and removed before there were too many.
#[derive(Debug, Clone, Copy, PartialEq, Eq, Structural)]
pub struct BoardChange {
    pub shown: usize,
    pub added: usize,
    pub removed: usize,
}

/// The overlays that are shown, oldest first, and the id that the next one gets.
#[verifier::ext_equal]
pub ghost struct Board {
    pub live: Seq<LiveOverlay>,
    pub next_id: nat,
}

/// What two texts have in common if one of them is enough: white space around them
/// and case do not count.
pub open spec fn normalized(s: Seq<char>) -> Seq<char> {
    text::lowercase(text::trimmed(s))
}

/// `live` shows this text already.
pub open spec fn shows(live: Seq<LiveOverlay>, s: Seq<char>) -> bool {
    exists|i: int|
        0 <= i < live.len() && normalized((#[trigger] live[i]).overlay.text@) == normalized(s)
}

/// The misses of `t` after a look that confirms `keep`.
pub open spec fn misses_after(t: LiveOverlay, keep: Seq<u64>) -> int {
    if keep.contains(t.overlay.id) {
        0
    } else {
        t.misses + 1
    }
}

/// The overlays that a look leaves: those that it confirms and those that it does
/// not miss too often.
pub open spec fn remaining(live: Seq<LiveOverlay>, keep: Seq<u64>) -> Seq<LiveOverlay>
    decreases live.len(),
{
    if live.len() == 0 {
        Seq::empty()
    } else {
        let t = live.last();
        if misses_after(t, keep) < MAX_MISSES {
            remaining(live.drop_last(), keep).push(
                LiveOverlay { overlay: t.overlay, misses: misses_after(t, keep) as u8 },
            )
        } else {
            remaining(live.drop_last(), keep)
        }
    }
}

/// `new` as an overlay with an id.
pub open spec fn numbered(new: NewOverlay, id: u64) -> Overlay {
    Overlay { id, x: new.x, y: new.y, w: new.w, text: new.text }
}

impl Board {
    /// Nothing shown.
    pub open spec fn empty() -> Board {
        Board { live: Seq::empty(), next_id: 1 }
    }

    /// Not too many overlays are shown, none of them is due to be dropped, and no two
    /// of them have the same id or the same text. Ids that are still to be given are
    /// not in use.
    pub open spec fn well_formed(self) -> bool {
        &&& self.live.len() <= MAX_OVERLAYS
        &&& self.distinct()
    }

    /// As [`Board::well_formed`], however many overlays are shown.
    pub open spec fn distinct(self) -> bool {
        &&& forall|i: int| 0 <= i < self.live.len() ==> (#[trigger] self.live[i]).misses < MAX_MISSES
        &&& forall|i: int|
            0 <= i < self.live.len() ==> (#[trigger] self.live[i]).overlay.id < self.next_id
        &&& forall|i: int, j: int|
            #![trigger self.live[i], self.live[j]]
            0 <= i < j < self.live.len() ==> self.live[i].overlay.id
                != self.live[j].overlay.id
        &&& forall|i: int, j: int|
            #![trigger self.live[i], self.live[j]]
            0 <= i < j < self.live.len() ==> normalized(self.live[i].overlay.text@)
                != normalized(self.live[j].overlay.text@)
    }

    /// After a look that confirms `keep`. One that confirms nothing at all is a
    /// change of scene and clears the board at once.
    pub open spec fn confirmed(self, keep: Seq<u64>) -> Board {
        Board {
            live: if keep.len() == 0 {
                Seq::empty()
            } else {
                remaining(self.live, keep)
            },
            ..self
        }
    }

    /// With new overlays, except those whose text is shown already.
    pub open spec fn with(self, add: Seq<NewOverlay>) -> Board
        decreases add.len(),
    {
        if add.len() == 0 {
            self
        } else {
            let board = self.with(add.drop_last());
            if shows(board.live, add.last().text@) {
                board
            } else {
                Board {
                    live: board.live.push(
                        LiveOverlay {
                            overlay: numbered(add.last(), board.next_id as u64),
                            misses: 0,
                        },
                    ),
                    next_id: board.next_id + 1,
                }
            }
        }
    }

    /// With no more than the newest overlays.
    pub open spec fn capped(self) -> Board {
        Board { live: newest(self.live, MAX_OVERLAYS as nat), ..self }
    }

    /// After a look at the screen.
    pub open spec fn updated(self, update: OverlayUpdate) -> Board {
        self.confirmed(update.keep@).with(update.add@).capped()
    }

    /// What a look at the screen did.
    pub open spec fn change(self, update: OverlayUpdate) -> BoardChange {
        let confirmed = self.confirmed(update.keep@).live.len();
        BoardChange {
            shown: self.updated(update).live.len() as usize,
            added: (self.confirmed(update.keep@).with(update.add@).live.len()
                - confirmed) as usize,
            removed: (self.live.len() - confirmed) as usize,
        }
    }
}

fn holds_id(keep: &Vec<u64>, id: u64) -> (found: bool)
    ensures
        found == keep@.contains(id),
{
    let mut at: usize = 0;
    while at < keep.len()
        invariant
            at <= keep@.len(),
            forall|k: int| 0 <= k < at ==> keep@[k] != id,
        decreases keep.len() - at,
    {
        if keep[at] == id {
            assert(keep@[at as int] == id);
            return true;
        }
        at = at + 1;
    }
    false
}

fn is_shown(live: &Vec<LiveOverlay>, s: &str) -> (shown: bool)
    ensures
        shown == shows(live@, s@),
{
    let wanted: String = text::to_lowercase(text::trim(s));
    let mut at: usize = 0;
    while at < live.len()
        invariant
            at <= live@.len(),
            wanted@ == normalized(s@),
            forall|k: int|
                0 <= k < at ==> normalized((#[trigger] live@[k]).overlay.text@) != normalized(s@),
        decreases live.len() - at,
    {
        if text::to_lowercase(text::trim(&live[at].overlay.text)) == wanted {
            assert(normalized(live@[at as int].overlay.text@) == normalized(s@));
            return true;
        }
        at = at + 1;
    }
    false
}

/// Applies what a look at the screen gives: overlays that it no longer confirms are
/// dropped, and new ones are added with fresh ids. Confirmed ones stay as they are.
pub fn apply_update(live: &mut Vec<LiveOverlay>, next_id: &mut u64, update: OverlayUpdate) -> (change:
    BoardChange)
    requires
        (Board { live: old(live)@, next_id: *old(next_id) as nat }).well_formed(),
        *old(next_id) + update.add@.len() <= u64::MAX,
    ensures
        ({
            let before = Board { live: old(live)@, next_id: *old(next_id) as nat };
            let after = Board { live: final(live)@, next_id: *final(next_id) as nat };
            &&& after == before.updated(update)
            &&& after.well_formed()
            &&& change == before.change(update)
        }),
{
    let count: usize = live.len();
    let ghost before = Board { live: live@, next_id: *next_id as nat };
    let ghost all = live@;
    let ghost add = update.add@;
    let mut earlier: Vec<LiveOverlay> = Vec::new();
    std::mem::swap(&mut earlier, live);
    if update.keep.len() > 0 {
        for t in it: earlier
            invariant
                it.seq() == all,
                live@ == remaining(all.take(it.index() as int), update.keep@),
                forall|i: int| 0 <= i < all.len() ==> (#[trigger] all[i]).misses < MAX_MISSES,
        {
            assert(all.take(it.index() + 1).drop_last() =~= all.take(it.index() as int));
            assert(t == all[it.index() as int]);
            let misses: u8 = if holds_id(&update.keep, t.overlay.id) {
                0
            } else {
                t.misses + 1
            };
            if misses < MAX_MISSES {
                live.push(LiveOverlay { overlay: t.overlay, misses });
            }
        }
        assert(all.take(all.len() as int) =~= all);
    }
    assert(live@ =~= before.confirmed(update.keep@).live);
    proof {
        lemma_remaining_len(before.live, update.keep@);
    }
    let confirmed: usize = live.len();
    let ghost base = before.confirmed(update.keep@);
    let ghost start = *next_id as int;
    assert(add.take(0) =~= Seq::empty());
    for new in it: update.add
        invariant
            it.seq() == add,
            base.with(add.take(it.index() as int)) == (Board {
                live: live@,
                next_id: *next_id as nat,
            }),
            start <= *next_id <= start + it.index(),
            start + add.len() <= u64::MAX,
            confirmed <= live@.len(),
    {
        assert(add.take(it.index() + 1).drop_last() =~= add.take(it.index() as int));
        if !is_shown(live, &new.text) {
            live.push(
                LiveOverlay {
                    overlay: Overlay {
                        id: *next_id,
                        x: new.x,
                        y: new.y,
                        w: new.w,
                        text: new.text,
                    },
                    misses: 0,
                },
            );
            *next_id = *next_id + 1;
        }
    }
    assert(add.take(add.len() as int) =~= add);
    let added: usize = live.len() - confirmed;
    if live.len() > MAX_OVERLAYS {
        let drop: usize = live.len() - MAX_OVERLAYS;
        let newest_ones: Vec<LiveOverlay> = live.split_off(drop);
        *live = newest_ones;
    }
    assert(live@ =~= before.updated(update).live);
    proof {
        board_stays_well_formed(before, update);
    }
    BoardChange { shown: live.len(), added, removed: count - confirmed }
}

proof fn lemma_remaining_len(live: Seq<LiveOverlay>, keep: Seq<u64>)
    ensures
        remaining(live, keep).len() <= live.len(),
    decreases live.len(),
{
    if live.len() > 0 {
        lemma_remaining_len(live.drop_last(), keep);
    }
}

proof fn lemma_remaining(live: Seq<LiveOverlay>, keep: Seq<u64>, at: int) -> (from: int)
    requires
        0 <= at < remaining(live, keep).len(),
    ensures
        0 <= from < live.len(),
        remaining(live, keep)[at].overlay == live[from].overlay,
        remaining(live, keep)[at].misses == misses_after(live[from], keep),
        misses_after(live[from], keep) < MAX_MISSES,
        forall|next: int|
            at < next < remaining(live, keep).len() ==> exists|later: int|
                from < later < live.len() && (#[trigger] remaining(live, keep)[next]).overlay
                    == (#[trigger] live[later]).overlay,
    decreases live.len(),
{
    let rest = remaining(live.drop_last(), keep);
    let found = if at < rest.len() {
        lemma_remaining(live.drop_last(), keep, at)
    } else {
        live.len() - 1
    };
    assert forall|next: int| at < next < remaining(live, keep).len() implies exists|later: int|
        found < later < live.len() && (#[trigger] remaining(live, keep)[next]).overlay
            == (#[trigger] live[later]).overlay by {
        if next < rest.len() {
            assert(rest[next].overlay == remaining(live, keep)[next].overlay);
            let later = choose|later: int|
                found < later < live.drop_last().len() && rest[next].overlay == (
                #[trigger] live.drop_last()[later]).overlay;
            assert(live[later].overlay == live.drop_last()[later].overlay);
        } else {
            assert(remaining(live, keep)[next].overlay == live[live.len() - 1].overlay);
        }
    }
    found
}

proof fn lemma_confirmed_distinct(board: Board, keep: Seq<u64>)
    requires
        board.distinct(),
    ensures
        board.confirmed(keep).distinct(),
{
    let after = board.confirmed(keep).live;
    if keep.len() > 0 {
        assert forall|i: int| 0 <= i < after.len() implies (#[trigger] after[i]).misses < MAX_MISSES
            && after[i].overlay.id < board.next_id by {
            let from = lemma_remaining(board.live, keep, i);
            assert(board.live[from].overlay == after[i].overlay);
        }
        assert forall|i: int, j: int|
            #![trigger after[i], after[j]]
            0 <= i < j < after.len() implies after[i].overlay.id != after[j].overlay.id
            && normalized(after[i].overlay.text@) != normalized(after[j].overlay.text@) by {
            let from = lemma_remaining(board.live, keep, i);
            assert(remaining(board.live, keep)[j].overlay == after[j].overlay);
            let later = choose|later: int|
                from < later < board.live.len() && remaining(board.live, keep)[j].overlay == (
                #[trigger] board.live[later]).overlay;
            assert(board.live[from].overlay == after[i].overlay);
            assert(board.live[later].overlay == after[j].overlay);
        }
    }
}

proof fn lemma_with_distinct(board: Board, add: Seq<NewOverlay>)
    requires
        board.distinct(),
        board.next_id + add.len() <= u64::MAX,
    ensures
        board.with(add).distinct(),
        board.next_id <= board.with(add).next_id <= board.next_id + add.len(),
        board.live.len() <= board.with(add).live.len(),
        forall|i: int|
            0 <= i < board.live.len() ==> #[trigger] board.with(add).live[i]
                == board.live[i],
        forall|i: int|
            board.live.len() <= i < board.with(add).live.len() ==> (
            #[trigger] board.with(add).live[i]).overlay.id >= board.next_id,
    decreases add.len(),
{
    if add.len() > 0 {
        lemma_with_distinct(board, add.drop_last());
    }
}

/// Whatever a look at the screen gives, the board stays well-formed.
pub proof fn board_stays_well_formed(board: Board, update: OverlayUpdate)
    requires
        board.well_formed(),
        board.next_id + update.add@.len() <= u64::MAX,
    ensures
        board.updated(update).well_formed(),
{
    lemma_confirmed_distinct(board, update.keep@);
    lemma_with_distinct(board.confirmed(update.keep@), update.add@);
    let all = board.confirmed(update.keep@).with(update.add@).live;
    let after = board.updated(update).live;
    assert forall|i: int| 0 <= i < after.len() implies #[trigger] after[i] == all[i + (all.len()
        - after.len())] by {}
}

proof fn lemma_stays(live: Seq<LiveOverlay>, keep: Seq<u64>, from: int) -> (at: int)
    requires
        0 <= from < live.len(),
        misses_after(live[from], keep) < MAX_MISSES,
    ensures
        0 <= at < remaining(live, keep).len(),
        remaining(live, keep)[at].overlay == live[from].overlay,
        remaining(live, keep)[at].misses == misses_after(live[from], keep),
    decreases live.len(),
{
    let rest = remaining(live.drop_last(), keep);
    if from < live.len() - 1 {
        let at = lemma_stays(live.drop_last(), keep, from);
        assert(remaining(live, keep)[at] == rest[at]);
        at
    } else {
        rest.len() as int
    }
}

proof fn lemma_origin(board: Board, update: OverlayUpdate, at: int) -> (from: int)
    requires
        board.well_formed(),
        board.next_id + update.add@.len() <= u64::MAX,
        0 <= at < board.updated(update).live.len(),
    ensures
        board.updated(update).live[at].overlay.id < board.next_id ==> {
            &&& update.keep@.len() > 0
            &&& 0 <= from < board.live.len()
            &&& board.updated(update).live[at].overlay == board.live[from].overlay
            &&& board.updated(update).live[at].misses == misses_after(board.live[from], update.keep@)
            &&& misses_after(board.live[from], update.keep@) < MAX_MISSES
        },
{
    let base = board.confirmed(update.keep@);
    lemma_confirmed_distinct(board, update.keep@);
    lemma_with_distinct(base, update.add@);
    let all = base.with(update.add@).live;
    let after = board.updated(update).live;
    let index = at + (all.len() - after.len());
    assert(after[at] == all[index]);
    if index < base.live.len() {
        assert(all[index] == base.live[index]);
        lemma_remaining(board.live, update.keep@, index)
    } else {
        0
    }
}

/// An overlay stays as it is for as long as it is shown: its place, its size, and
/// its text do not change. Ids are not given twice.
pub proof fn overlays_never_move(board: Board, update: OverlayUpdate, at: int, from: int)
    requires
        board.well_formed(),
        board.next_id + update.add@.len() <= u64::MAX,
        0 <= at < board.updated(update).live.len(),
        0 <= from < board.live.len(),
        board.updated(update).live[at].overlay.id == board.live[from].overlay.id,
    ensures
        board.updated(update).live[at].overlay == board.live[from].overlay,
{
    let origin = lemma_origin(board, update, at);
    assert(board.live[from].overlay.id < board.next_id);
    if origin != from {
        assert(board.live[origin].overlay.id == board.live[from].overlay.id);
    }
}

/// New overlays follow those that stay, in the order in which they come, with the
/// next ids: there are as many new ids as new overlays.
pub proof fn new_overlays_follow(board: Board, update: OverlayUpdate, at: int)
    requires
        board.well_formed(),
        board.next_id + update.add@.len() <= u64::MAX,
        0 <= at < board.confirmed(update.keep@).with(update.add@).live.len(),
    ensures
        ({
            let kept = board.confirmed(update.keep@).live;
            let all = board.confirmed(update.keep@).with(update.add@);
            &&& kept.is_prefix_of(all.live)
            &&& all.next_id - board.next_id == all.live.len() - kept.len()
            &&& at >= kept.len() ==> all.live[at].overlay.id == board.next_id + (at - kept.len())
                && all.live[at].misses == 0
        }),
{
    lemma_confirmed_distinct(board, update.keep@);
    lemma_with_distinct(board.confirmed(update.keep@), update.add@);
    lemma_with_ids(board.confirmed(update.keep@), update.add@, at);
}

proof fn lemma_with_ids(board: Board, add: Seq<NewOverlay>, at: int)
    requires
        board.next_id + add.len() <= u64::MAX,
        0 <= at < board.with(add).live.len(),
    ensures
        board.with(add).next_id - board.next_id == board.with(add).live.len() - board.live.len(),
        board.with(add).live.len() - board.live.len() <= add.len(),
        at >= board.live.len() ==> board.with(add).live[at].overlay.id == board.next_id + (at
            - board.live.len()) && board.with(add).live[at].misses == 0,
    decreases add.len(),
{
    if add.len() > 0 {
        let before = board.with(add.drop_last());
        if at < before.live.len() {
            lemma_with_ids(board, add.drop_last(), at);
        } else if before.live.len() > 0 {
            lemma_with_ids(board, add.drop_last(), 0);
        } else {
            lemma_with_grows(board, add.drop_last());
        }
    }
}

proof fn lemma_with_grows(board: Board, add: Seq<NewOverlay>)
    ensures
        board.with(add).next_id - board.next_id == board.with(add).live.len() - board.live.len(),
        0 <= board.with(add).live.len() - board.live.len() <= add.len(),
    decreases add.len(),
{
    if add.len() > 0 {
        lemma_with_grows(board, add.drop_last());
    }
}

/// Every new text is shown, whether it is new or was shown already, as long as there
/// is room for it.
pub proof fn new_texts_are_shown(board: Board, update: OverlayUpdate, at: int)
    requires
        0 <= at < update.add@.len(),
        board.confirmed(update.keep@).with(update.add@).live.len() <= MAX_OVERLAYS,
    ensures
        shows(board.updated(update).live, update.add@[at].text@),
{
    lemma_with_shows(board.confirmed(update.keep@), update.add@, at);
}

proof fn lemma_with_shows(board: Board, add: Seq<NewOverlay>, at: int)
    requires
        0 <= at < add.len(),
    ensures
        shows(board.with(add).live, add[at].text@),
    decreases add.len(),
{
    let before = board.with(add.drop_last());
    let after = board.with(add);
    if at < add.len() - 1 {
        lemma_with_shows(board, add.drop_last(), at);
        let found = choose|i: int|
            0 <= i < before.live.len() && normalized((#[trigger] before.live[i]).overlay.text@)
                == normalized(add[at].text@);
        assert(after.live[found] == before.live[found]);
    } else if !shows(before.live, add.last().text@) {
        assert(normalized(after.live[before.live.len() as int].overlay.text@) == normalized(
            add.last().text@,
        ));
    }
}

/// Not too many overlays are shown: the oldest go first and the newest stay. Their
/// ids are used up all the same.
pub proof fn oldest_go_first(board: Board, update: OverlayUpdate)
    ensures
        ({
            let all = board.confirmed(update.keep@).with(update.add@);
            let after = board.updated(update);
            &&& after.live.len() <= 100
            &&& all.live.len() >= 100 ==> after.live.len() == 100
            &&& after.live.len() <= MAX_OVERLAYS
            &&& after.live == all.live.skip(all.live.len() - after.live.len())
            &&& all.live.len() >= MAX_OVERLAYS ==> after.live.len() == MAX_OVERLAYS
            &&& after.next_id == all.next_id
        }),
{
    let all = board.confirmed(update.keep@).with(update.add@);
    assert(all.live.skip(0) =~= all.live);
}

/// An overlay that a look confirms, or misses for the first time in a row, stays, as
/// long as there is room for it.
pub proof fn first_miss_is_tolerated(board: Board, update: OverlayUpdate, from: int) -> (at: int)
    requires
        board.well_formed(),
        board.next_id + update.add@.len() <= u64::MAX,
        0 <= from < board.live.len(),
        update.keep@.len() > 0,
        update.keep@.contains(board.live[from].overlay.id) || board.live[from].misses == 0,
        board.confirmed(update.keep@).with(update.add@).live.len() <= MAX_OVERLAYS,
    ensures
        0 <= at < board.updated(update).live.len(),
        board.updated(update).live[at].overlay == board.live[from].overlay,
        board.updated(update).live[at].misses == (if update.keep@.contains(
            board.live[from].overlay.id,
        ) {
            0int
        } else {
            1int
        }),
{
    let at = lemma_stays(board.live, update.keep@, from);
    lemma_confirmed_distinct(board, update.keep@);
    lemma_with_distinct(board.confirmed(update.keep@), update.add@);
    assert(board.confirmed(update.keep@).live[at].overlay == board.live[from].overlay);
    assert(board.updated(update).live[at] == board.confirmed(update.keep@).live[at]);
    at
}

/// An overlay that is missed for the second time in a row is gone.
pub proof fn second_miss_drops(board: Board, update: OverlayUpdate, from: int, at: int)
    requires
        board.well_formed(),
        board.next_id + update.add@.len() <= u64::MAX,
        0 <= from < board.live.len(),
        board.live[from].misses == 1,
        !update.keep@.contains(board.live[from].overlay.id),
        0 <= at < board.updated(update).live.len(),
    ensures
        board.updated(update).live[at].overlay.id != board.live[from].overlay.id,
{
    let origin = lemma_origin(board, update, at);
    assert(board.live[from].overlay.id < board.next_id);
    if board.updated(update).live[at].overlay.id == board.live[from].overlay.id {
        assert(board.live[origin].overlay.id == board.live[from].overlay.id);
        assert(origin == from);
    }
}

/// A look that confirms nothing clears the board: all that is shown then is new.
pub proof fn scene_change_clears(board: Board, update: OverlayUpdate, at: int)
    requires
        board.well_formed(),
        board.next_id + update.add@.len() <= u64::MAX,
        update.keep@.len() == 0,
        0 <= at < board.updated(update).live.len(),
    ensures
        board.updated(update).live[at].overlay.id >= board.next_id,
{
    lemma_origin(board, update, at);
}

/// A new overlay stands where the model put it and says what the model said: each one
/// comes from an item of the update, with its left, its top, its width, and its text.
pub proof fn new_overlays_are_as_reported(board: Board, update: OverlayUpdate, at: int) -> (from:
    int)
    requires
        board.well_formed(),
        board.next_id + update.add@.len() <= u64::MAX,
        0 <= at < board.updated(update).live.len(),
        board.updated(update).live[at].overlay.id >= board.next_id,
    ensures
        0 <= from < update.add@.len(),
        board.updated(update).live[at].overlay.x == update.add@[from].x,
        board.updated(update).live[at].overlay.y == update.add@[from].y,
        board.updated(update).live[at].overlay.w == update.add@[from].w,
        board.updated(update).live[at].overlay.text == update.add@[from].text,
        board.updated(update).live[at].misses == 0,
{
    let base = board.confirmed(update.keep@);
    lemma_confirmed_distinct(board, update.keep@);
    let all = base.with(update.add@).live;
    let after = board.updated(update).live;
    let index = at + (all.len() - after.len());
    assert(after[at] == all[index]);
    lemma_with_distinct(base, update.add@);
    if index < base.live.len() {
        assert(all[index] == base.live[index]);
        assert(base.live[index].overlay.id < base.next_id);
    }
    lemma_with_reports(base, update.add@, index)
}

proof fn lemma_with_reports(board: Board, add: Seq<NewOverlay>, at: int) -> (from: int)
    requires
        board.live.len() <= at < board.with(add).live.len(),
    ensures
        0 <= from < add.len(),
        board.with(add).live[at].overlay.x == add[from].x,
        board.with(add).live[at].overlay.y == add[from].y,
        board.with(add).live[at].overlay.w == add[from].w,
        board.with(add).live[at].overlay.text == add[from].text,
        board.with(add).live[at].misses == 0,
    decreases add.len(),
{
    let before = board.with(add.drop_last());
    if at < before.live.len() {
        let from = lemma_with_reports(board, add.drop_last(), at);
        assert(board.with(add).live[at] == before.live[at]);
        assert(add.drop_last()[from] == add[from]);
        from
    } else {
        add.len() - 1
    }
}

/// No two overlays say the same, white space around it and case aside.
pub proof fn texts_are_shown_once(board: Board, update: OverlayUpdate, i: int, j: int)
    requires
        board.well_formed(),
        board.next_id + update.add@.len() <= u64::MAX,
        0 <= i < j < board.updated(update).live.len(),
    ensures
        text::lowercase(text::trimmed(board.updated(update).live[i].overlay.text@))
            != text::lowercase(text::trimmed(board.updated(update).live[j].overlay.text@)),
        board.updated(update).live[i].overlay.id != board.updated(update).live[j].overlay.id,
{
    board_stays_well_formed(board, update);
}

/// A new text is left out only for one that says the same: every text of an update is
/// shown then, white space around it and case aside, as long as there is room for it.
pub proof fn no_new_text_is_lost(board: Board, update: OverlayUpdate, at: int) -> (shown: int)
    requires
        0 <= at < update.add@.len(),
        board.confirmed(update.keep@).with(update.add@).live.len() <= MAX_OVERLAYS,
    ensures
        0 <= shown < board.updated(update).live.len(),
        text::lowercase(text::trimmed(board.updated(update).live[shown].overlay.text@))
            == text::lowercase(text::trimmed(update.add@[at].text@)),
{
    new_texts_are_shown(board, update, at);
    choose|i: int|
        0 <= i < board.updated(update).live.len() && normalized(
            (#[trigger] board.updated(update).live[i]).overlay.text@,
        ) == normalized(update.add@[at].text@)
}

/// A new text that nothing shown says yet gets an overlay of its own, where the model
/// put it, as long as there is room for it.
pub proof fn fresh_text_gets_an_overlay(board: Board, update: OverlayUpdate) -> (at: int)
    requires
        board.well_formed(),
        board.next_id + update.add@.len() <= u64::MAX,
        update.add@.len() > 0,
        forall|i: int|
            0 <= i < board.live.len() ==> text::lowercase(
                text::trimmed((#[trigger] board.live[i]).overlay.text@),
            ) != text::lowercase(text::trimmed(update.add@[0].text@)),
        board.confirmed(update.keep@).with(update.add@).live.len() <= MAX_OVERLAYS,
    ensures
        0 <= at < board.updated(update).live.len(),
        board.updated(update).live[at].overlay == (Overlay {
            id: board.next_id as u64,
            x: update.add@[0].x,
            y: update.add@[0].y,
            w: update.add@[0].w,
            text: update.add@[0].text,
        }),
{
    let base = board.confirmed(update.keep@);
    lemma_confirmed_distinct(board, update.keep@);
    assert(!shows(base.live, update.add@[0].text@)) by {
        if shows(base.live, update.add@[0].text@) {
            let i = choose|i: int|
                0 <= i < base.live.len() && normalized((#[trigger] base.live[i]).overlay.text@)
                    == normalized(update.add@[0].text@);
            let from = lemma_remaining(board.live, update.keep@, i);
            assert(board.live[from].overlay == base.live[i].overlay);
        }
    }
    let one = update.add@.take(1);
    assert(one.drop_last() =~= Seq::empty());
    assert(base.with(one.drop_last()) == base);
    assert(one.last() == update.add@[0]);
    lemma_with_prefix(base, update.add@, 1);
    let at = base.live.len() as int;
    assert(base.with(one).live[at].overlay.id == board.next_id);
    at
}

proof fn lemma_with_prefix(board: Board, add: Seq<NewOverlay>, count: int)
    requires
        0 <= count <= add.len(),
    ensures
        board.with(add.take(count)).live.is_prefix_of(board.with(add).live),
    decreases add.len(),
{
    if count < add.len() {
        lemma_with_prefix(board, add.drop_last(), count);
        assert(add.drop_last().take(count) =~= add.take(count));
    } else {
        assert(add.take(count) =~= add);
    }
}

/// New overlays stand behind all that stay, in the order of their ids.
pub proof fn new_overlays_stand_behind(board: Board, update: OverlayUpdate, i: int, j: int)
    requires
        board.well_formed(),
        board.next_id + update.add@.len() <= u64::MAX,
        0 <= i < j < board.updated(update).live.len(),
        board.updated(update).live[i].overlay.id >= board.next_id,
    ensures
        board.updated(update).live[j].overlay.id > board.updated(update).live[i].overlay.id,
{
    let base = board.confirmed(update.keep@);
    let all = base.with(update.add@).live;
    let after = board.updated(update).live;
    let gap = all.len() - after.len();
    lemma_confirmed_distinct(board, update.keep@);
    lemma_with_distinct(base, update.add@);
    assert(after[i] == all[i + gap] && after[j] == all[j + gap]);
    if i + gap < base.live.len() {
        assert(all[i + gap] == base.live[i + gap]);
        assert(base.live[i + gap].overlay.id < base.next_id);
    }
    new_overlays_follow(board, update, i + gap);
    new_overlays_follow(board, update, j + gap);
}

/// What a look did is counted: those that it removed are gone, and those that it added
/// have the ids that it used up.
pub proof fn change_is_counted(board: Board, update: OverlayUpdate)
    requires
        board.well_formed(),
        board.next_id + update.add@.len() <= u64::MAX,
    ensures
        board.change(update).shown == board.updated(update).live.len(),
        board.change(update).added == board.updated(update).next_id - board.next_id,
        board.live.len() - board.change(update).removed + board.change(update).added
            >= board.change(update).shown,
        board.live.len() - board.change(update).removed + board.change(update).added
            <= MAX_OVERLAYS ==> board.live.len() - board.change(update).removed + board.change(
            update,
        ).added == board.change(update).shown,
        update.keep@.len() == 0 ==> board.change(update).removed == board.live.len(),
{
    let base = board.confirmed(update.keep@);
    lemma_remaining_len(board.live, update.keep@);
    lemma_with_grows(base, update.add@);
    assert(update.add@.len() == update.add.len());
}

/// Overlays that stay keep their order.
pub proof fn survivors_keep_their_order(
    board: Board,
    update: OverlayUpdate,
    i: int,
    j: int,
    from_i: int,
    from_j: int,
)
    requires
        board.well_formed(),
        board.next_id + update.add@.len() <= u64::MAX,
        0 <= i < j < board.updated(update).live.len(),
        0 <= from_i < board.live.len(),
        0 <= from_j < board.live.len(),
        board.updated(update).live[i].overlay.id == board.live[from_i].overlay.id,
        board.updated(update).live[j].overlay.id == board.live[from_j].overlay.id,
    ensures
        from_i < from_j,
{
    let base = board.confirmed(update.keep@);
    lemma_confirmed_distinct(board, update.keep@);
    lemma_with_distinct(base, update.add@);
    let all = base.with(update.add@).live;
    let after = board.updated(update).live;
    let gap = all.len() - after.len();
    assert(after[i] == all[i + gap] && after[j] == all[j + gap]);
    assert(board.live[from_i].overlay.id < board.next_id);
    assert(board.live[from_j].overlay.id < board.next_id);
    assert(i + gap < base.live.len() && j + gap < base.live.len());
    assert(all[i + gap] == base.live[i + gap] && all[j + gap] == base.live[j + gap]);
    let found = lemma_remaining(board.live, update.keep@, i + gap);
    assert(remaining(board.live, update.keep@)[j + gap].overlay == base.live[j + gap].overlay);
    let later = choose|later: int|
        found < later < board.live.len() && remaining(board.live, update.keep@)[j + gap].overlay
            == (#[trigger] board.live[later]).overlay;
    assert(board.live[found].overlay.id == board.live[from_i].overlay.id);
    assert(board.live[later].overlay.id == board.live[from_j].overlay.id);
    assert(found == from_i);
    assert(later == from_j);
}

/// Of the items of an update that say the same, the first one gets the overlay, where the
/// model put it, unless something shown says it already; as long as there is room.
pub proof fn first_of_a_text_is_placed(board: Board, update: OverlayUpdate, item: int) -> (at: int)
    requires
        board.well_formed(),
        board.next_id + update.add@.len() <= u64::MAX,
        0 <= item < update.add@.len(),
        forall|i: int|
            0 <= i < board.live.len() ==> text::lowercase(
                text::trimmed((#[trigger] board.live[i]).overlay.text@),
            ) != text::lowercase(text::trimmed(update.add@[item].text@)),
        forall|k: int|
            0 <= k < item ==> text::lowercase(text::trimmed((#[trigger] update.add@[k]).text@))
                != text::lowercase(text::trimmed(update.add@[item].text@)),
        board.confirmed(update.keep@).with(update.add@).live.len() <= MAX_OVERLAYS,
    ensures
        0 <= at < board.updated(update).live.len(),
        board.updated(update).live[at].overlay.id >= board.next_id,
        board.updated(update).live[at].overlay.x == update.add@[item].x,
        board.updated(update).live[at].overlay.y == update.add@[item].y,
        board.updated(update).live[at].overlay.w == update.add@[item].w,
        board.updated(update).live[at].overlay.text == update.add@[item].text,
{
    let base = board.confirmed(update.keep@);
    let add = update.add@;
    let wanted = add[item].text@;
    lemma_confirmed_distinct(board, update.keep@);
    let earlier = base.with(add.take(item));
    lemma_with_distinct(base, add.take(item));
    assert(!shows(earlier.live, wanted)) by {
        if shows(earlier.live, wanted) {
            let i = choose|i: int|
                0 <= i < earlier.live.len() && normalized((#[trigger] earlier.live[i]).overlay.text@)
                    == normalized(wanted);
            if i < base.live.len() {
                assert(earlier.live[i] == base.live[i]);
                let from = lemma_remaining(board.live, update.keep@, i);
                assert(board.live[from].overlay == base.live[i].overlay);
            } else {
                let from = lemma_with_reports(base, add.take(item), i);
                assert(add.take(item)[from] == add[from]);
            }
        }
    }
    assert(add.take(item + 1).drop_last() =~= add.take(item));
    assert(add.take(item + 1).last() == add[item]);
    lemma_with_prefix(base, add, item + 1);
    let at = earlier.live.len() as int;
    assert(base.with(add.take(item + 1)).live[at] == base.with(add).live[at]);
    at
}

}
