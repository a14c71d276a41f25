//! The dispatcher for overlapping panels: every panel that a ray meets can show
//! that it is pointed at, and only the closest one is clicked or grabbed.

use super::{
    aim, does, in_grab_margin, law_hands_act_in_turn, law_hands_do_what_they_do, lemma_in_sum,
    move_event, near_edge, targets_of, turn_of, within_grab_margin, ControllerState, Hand,
    HandState, HandTracking, InputEvent, PanelHit, PanelTarget,
};
use crate::panel::{PanelId, PanelTransform};
use vstd::prelude::*;

verus! {

/// The panels that the hand's ray meets, as they are listed.
pub open spec fn hits_of(panels: Seq<PanelTarget>, hand: Hand) -> Seq<PanelHit>
    decreases panels.len(),
{
    if panels.len() == 0 {
        Seq::empty()
    } else {
        let before = hits_of(panels.drop_last(), hand);
        match panels.last().hit_by(hand) {
            Some(at) => before.push(PanelHit { id: panels.last().id, at }),
            None => before,
        }
    }
}

/// `hit` put behind everything in `sorted` that is no farther away.
pub open spec fn insert_hit(sorted: Seq<PanelHit>, hit: PanelHit) -> Seq<PanelHit>
    decreases sorted.len(),
{
    if sorted.len() == 0 || sorted.last().at.distance.rank() <= hit.at.distance.rank() {
        sorted.push(hit)
    } else {
        insert_hit(sorted.drop_last(), hit).push(sorted.last())
    }
}

/// The hits from the closest to the farthest; equally distant ones stay in the
/// order in which they came.
pub open spec fn by_distance(hits: Seq<PanelHit>) -> Seq<PanelHit>
    decreases hits.len(),
{
    if hits.len() == 0 {
        Seq::empty()
    } else {
        insert_hit(by_distance(hits.drop_last()), hits.last())
    }
}

/// The hits at one distance, in order.
pub open spec fn at_rank(hits: Seq<PanelHit>, rank: int) -> Seq<PanelHit>
    decreases hits.len(),
{
    if hits.len() == 0 {
        Seq::empty()
    } else if hits.last().at.distance.rank() == rank {
        at_rank(hits.drop_last(), rank).push(hits.last())
    } else {
        at_rank(hits.drop_last(), rank)
    }
}

/// No hit is farther away than one behind it.
pub open spec fn sorted_by_distance(hits: Seq<PanelHit>) -> bool {
    forall|i: int, j: int|
        0 <= i <= j < hits.len() ==> (#[trigger] hits[i]).at.distance.rank() <= (
        #[trigger] hits[j]).at.distance.rank()
}

proof fn lemma_insert_position(sorted: Seq<PanelHit>, hit: PanelHit, position: int)
    requires
        0 <= position <= sorted.len(),
        position > 0 ==> sorted[position - 1].at.distance.rank() <= hit.at.distance.rank(),
        forall|i: int|
            position <= i < sorted.len() ==> hit.at.distance.rank() < (
            #[trigger] sorted[i]).at.distance.rank(),
    ensures
        insert_hit(sorted, hit) == sorted.insert(position, hit),
    decreases sorted.len(),
{
    if position == sorted.len() {
        assert(sorted.insert(position, hit) =~= sorted.push(hit));
    } else {
        let rest = sorted.drop_last();
        assert forall|i: int| position <= i < rest.len() implies hit.at.distance.rank() < (
        #[trigger] rest[i]).at.distance.rank() by {
            assert(rest[i] == sorted[i]);
        }
        lemma_insert_position(rest, hit, position);
        assert(sorted.insert(position, hit) =~= rest.insert(position, hit).push(sorted.last()));
    }
}

proof fn lemma_insert_sorted(sorted: Seq<PanelHit>, hit: PanelHit)
    requires
        sorted_by_distance(sorted),
    ensures
        sorted_by_distance(insert_hit(sorted, hit)),
        insert_hit(sorted, hit).len() == sorted.len() + 1,
        forall|i: int|
            0 <= i < insert_hit(sorted, hit).len() ==> (#[trigger] insert_hit(
                sorted,
                hit,
            )[i]).at.distance.rank() <= hit.at.distance.rank() || (sorted.len() > 0
                && insert_hit(sorted, hit)[i].at.distance.rank()
                <= sorted.last().at.distance.rank()),
    decreases sorted.len(),
{
    if sorted.len() == 0 || sorted.last().at.distance.rank() <= hit.at.distance.rank() {
    } else {
        let rest = sorted.drop_last();
        assert(sorted_by_distance(rest));
        lemma_insert_sorted(rest, hit);
        if rest.len() > 0 {
            assert(rest.last() == sorted[sorted.len() - 2]);
        }
    }
}

proof fn lemma_insert_at_rank(sorted: Seq<PanelHit>, hit: PanelHit, rank: int)
    ensures
        at_rank(insert_hit(sorted, hit), rank) == at_rank(sorted.push(hit), rank),
    decreases sorted.len(),
{
    assert(sorted.push(hit).drop_last() =~= sorted);
    if sorted.len() == 0 || sorted.last().at.distance.rank() <= hit.at.distance.rank() {
    } else {
        let rest = sorted.drop_last();
        let placed = insert_hit(rest, hit);
        lemma_insert_at_rank(rest, hit, rank);
        assert(rest.push(hit).drop_last() =~= rest);
        assert(placed.push(sorted.last()).drop_last() =~= placed);
        assert(at_rank(sorted, rank) == if sorted.last().at.distance.rank() == rank {
            at_rank(rest, rank).push(sorted.last())
        } else {
            at_rank(rest, rank)
        });
    }
}

/// The order of the hits: closest first, and at each distance the same hits in
/// the same order as they came in. So the hits are reordered, and none is lost
/// or made up.
pub proof fn law_by_distance(hits: Seq<PanelHit>, rank: int)
    ensures
        sorted_by_distance(by_distance(hits)),
        by_distance(hits).len() == hits.len(),
        at_rank(by_distance(hits), rank) == at_rank(hits, rank),
    decreases hits.len(),
{
    if hits.len() > 0 {
        let rest = hits.drop_last();
        law_by_distance(rest, rank);
        lemma_insert_sorted(by_distance(rest), hits.last());
        lemma_insert_at_rank(by_distance(rest), hits.last(), rank);
        let pushed = by_distance(rest).push(hits.last());
        assert(pushed.drop_last() =~= by_distance(rest));
    }
}

/// Whether the first panel listed under this id can be grabbed anywhere.
pub open spec fn grabbable_anywhere(panels: Seq<PanelTarget>, id: PanelId) -> bool
    decreases panels.len(),
{
    if panels.len() == 0 {
        false
    } else if panels[0].id == id {
        panels[0].grabbable
    } else {
        grabbable_anywhere(panels.drop_first(), id)
    }
}

/// The panel that a fresh grip takes hold of: the closest one hit, if it can be
/// grabbed anywhere or is hit in its margin.
pub open spec fn grab_offer(panels: Seq<PanelTarget>, aimed: Option<PanelHit>) -> Option<PanelId> {
    match aimed {
        Some(hit) => if grabbable_anywhere(panels, hit.id) || within_grab_margin(
            hit.at.u,
            hit.at.v,
        ) {
            Some(hit.id)
        } else {
            None
        },
        None => None,
    }
}

/// The closest of the sorted hits.
pub open spec fn closest(sorted: Seq<PanelHit>) -> Option<PanelHit> {
    if sorted.len() > 0 {
        Some(sorted[0])
    } else {
        None
    }
}

/// Dispatches controller input to panels: hover to all panels hit, clicks and
/// grabs to the closest.
#[derive(Clone, Copy, Debug)]
pub struct InputDispatcher {
    pub left: HandTracking,
    pub right: HandTracking,
}

impl InputDispatcher {
    /// Whether neither hand grabs without gripping.
    pub open spec fn wf(self) -> bool {
        self.left.wf() && self.right.wf()
    }

    /// What is remembered of one hand.
    pub open spec fn of_hand(self, hand: Hand) -> HandTracking {
        match hand {
            Hand::Left => self.left,
            Hand::Right => self.right,
        }
    }

    /// The hover events of one hand, closest panel first.
    pub open spec fn hover_events(hand: Hand, sorted: Seq<PanelHit>) -> Seq<(PanelId, InputEvent)> {
        Seq::new(sorted.len(), |i: int| move_event(hand, sorted[i]))
    }

    /// The events of one hand this frame.
    pub open spec fn hand_events(
        before: HandTracking,
        hand: Hand,
        now: HandState,
        panels: Seq<PanelTarget>,
    ) -> Seq<(PanelId, InputEvent)> {
        let sorted = by_distance(hits_of(panels, hand));
        let aimed = closest(sorted);
        if now.active {
            Self::hover_events(hand, sorted) + before.action_events(
                hand,
                now,
                aimed,
                grab_offer(panels, aimed),
            )
        } else {
            Seq::empty()
        }
    }

    /// What is remembered of one hand after this frame.
    pub open spec fn hand_next(
        before: HandTracking,
        hand: Hand,
        now: HandState,
        panels: Seq<PanelTarget>,
    ) -> HandTracking {
        let aimed = closest(by_distance(hits_of(panels, hand)));
        if now.active {
            before.next(now, grab_offer(panels, aimed))
        } else {
            before
        }
    }

    /// Create a new dispatcher with all input state cleared.
    pub fn new() -> (dispatcher: Self)
        ensures
            dispatcher.left == HandTracking::idle_spec(),
            dispatcher.right == HandTracking::idle_spec(),
            dispatcher.wf(),
    {
        InputDispatcher { left: HandTracking::idle(), right: HandTracking::idle() }
    }

    /// The panel that a hand is grabbing.
    pub fn grab_active(&self, hand: Hand) -> (panel: Option<PanelId>)
        ensures
            panel == self.of_hand(hand).grab_active,
    {
        match hand {
            Hand::Left => self.left.grab_active,
            Hand::Right => self.right.grab_active,
        }
    }

    /// All panels hit by the hand's ray, closest first.
    fn collect_hits(hand: Hand, panels: &[PanelTarget]) -> (sorted: Vec<PanelHit>)
        ensures
            sorted@ == by_distance(hits_of(panels@, hand)),
    {
        let mut sorted: Vec<PanelHit> = Vec::new();
        let mut index: usize = 0;
        while index < panels.len()
            invariant
                index <= panels.len(),
                sorted@ == by_distance(hits_of(panels@.take(index as int), hand)),
            decreases panels.len() - index,
        {
            let ghost seen = panels@.take(index as int);
            let ghost more = panels@.take(index + 1);
            assert(more.drop_last() =~= seen);
            assert(more.last() == panels@[index as int]);
            if let Some(at) = panels[index].hit(hand) {
                let hit = PanelHit { id: panels[index].id, at };
                assert(hits_of(more, hand).drop_last() =~= hits_of(seen, hand));
                let mut position: usize = sorted.len();
                proof {
                    law_by_distance(hits_of(seen, hand), 0);
                }
                while position > 0 && !rank_at_most(&sorted[position - 1], &hit)
                    invariant
                        position <= sorted.len(),
                        forall|i: int|
                            position <= i < sorted@.len() ==> hit.at.distance.rank() < (
                            #[trigger] sorted@[i]).at.distance.rank(),
                    decreases position,
                {
                    position -= 1;
                }
                proof {
                    lemma_insert_position(sorted@, hit, position as int);
                }
                sorted.insert(position, hit);
            }
            index += 1;
        }
        assert(panels@.take(index as int) =~= panels@);
        sorted
    }

    /// Whether the first panel listed under this id can be grabbed anywhere.
    fn panel_grabbable(panels: &[PanelTarget], id: PanelId) -> (answer: bool)
        ensures
            answer == grabbable_anywhere(panels@, id),
    {
        let mut index: usize = 0;
        assert(panels@.skip(0) =~= panels@);
        while index < panels.len()
            invariant
                index <= panels.len(),
                grabbable_anywhere(panels@, id) == grabbable_anywhere(
                    panels@.skip(index as int),
                    id,
                ),
            decreases panels.len() - index,
        {
            assert(panels@.skip(index as int).drop_first() =~= panels@.skip(index + 1));
            assert(panels@.skip(index as int)[0] == panels@[index as int]);
            if panels[index].id == id {
                return panels[index].grabbable;
            }
            index += 1;
        }
        false
    }

    fn process_hand(
        tracking: &mut HandTracking,
        hand: Hand,
        now: &HandState,
        panels: &[PanelTarget],
        events: &mut Vec<(PanelId, InputEvent)>,
    )
        ensures
            *final(tracking) == Self::hand_next(*old(tracking), hand, *now, panels@),
            final(events)@ == old(events)@ + Self::hand_events(
                *old(tracking),
                hand,
                *now,
                panels@,
            ),
    {
        if !now.active {
            assert(events@ =~= old(events)@ + Seq::empty());
            return;
        }
        let sorted = Self::collect_hits(hand, panels);
        let ghost before = events@;
        let ghost hover = Self::hover_events(hand, sorted@);
        let mut index: usize = 0;
        assert(before + hover.take(0) =~= before);
        while index < sorted.len()
            invariant
                index <= sorted.len(),
                hover == Self::hover_events(hand, sorted@),
                events@ == before + hover.take(index as int),
            decreases sorted.len() - index,
        {
            let hit = sorted[index];
            let (u, v, distance) = (hit.at.u, hit.at.v, hit.at.distance);
            events.push((hit.id, InputEvent::PointerMove { hand, u, v, distance }));
            assert(hover.take(index + 1) =~= hover.take(index as int).push(hover[index as int]));
            assert(events@ =~= before + hover.take(index + 1));
            index += 1;
        }
        assert(hover.take(index as int) =~= hover);
        let mut aimed: Option<PanelHit> = None;
        let mut offered: Option<PanelId> = None;
        if sorted.len() > 0 {
            let hit = sorted[0];
            aimed = Some(hit);
            if Self::panel_grabbable(panels, hit.id) || in_grab_margin(hit.at.u, hit.at.v) {
                offered = Some(hit.id);
            }
        }
        let ghost actions = tracking.action_events(hand, *now, aimed, offered);
        tracking.advance(hand, now, aimed, offered, events);
        assert(before + hover + actions =~= before + (hover + actions));
    }

    /// Process one frame: the left hand's events, then the right hand's.
    ///
    /// Returns `(panel_id, event)` pairs to dispatch.
    pub fn process(
        &mut self,
        state: &ControllerState,
        panels: &[(PanelId, &PanelTransform)],
    ) -> (events: Vec<(PanelId, InputEvent)>)
        ensures
            ({
                let targets = targets_of(panels@, *state);
                let (left, right) = (old(self).left, old(self).right);
                &&& final(self).left == Self::hand_next(left, Hand::Left, state.left, targets)
                &&& final(self).right == Self::hand_next(right, Hand::Right, state.right, targets)
                &&& events@ == Self::hand_events(left, Hand::Left, state.left, targets)
                    + Self::hand_events(right, Hand::Right, state.right, targets)
            }),
    {
        let targets = aim(state, panels);
        self.dispatch(state, targets.as_slice())
    }

    /// Process one frame of panels that the rays were tested against.
    pub fn dispatch(
        &mut self,
        state: &ControllerState,
        panels: &[PanelTarget],
    ) -> (events: Vec<(PanelId, InputEvent)>)
        ensures
            final(self).left == Self::hand_next(old(self).left, Hand::Left, state.left, panels@),
            final(self).right == Self::hand_next(
                old(self).right,
                Hand::Right,
                state.right,
                panels@,
            ),
            events@ == Self::hand_events(old(self).left, Hand::Left, state.left, panels@)
                + Self::hand_events(old(self).right, Hand::Right, state.right, panels@),
    {
        let mut events: Vec<(PanelId, InputEvent)> = Vec::new();
        Self::process_hand(&mut self.left, Hand::Left, &state.left, panels, &mut events);
        assert(events@ =~= Self::hand_events(old(self).left, Hand::Left, state.left, panels@));
        Self::process_hand(&mut self.right, Hand::Right, &state.right, panels, &mut events);
        events
    }
}

/// Whether the first hit is no farther away than the second.
fn rank_at_most(first: &PanelHit, second: &PanelHit) -> (answer: bool)
    ensures
        answer == (first.at.distance.rank() <= second.at.distance.rank()),
{
    first.at.distance.ranks_at_most(second.at.distance)
}

proof fn lemma_insert_first(sorted: Seq<PanelHit>, hit: PanelHit)
    requires
        sorted_by_distance(sorted),
    ensures
        insert_hit(sorted, hit).len() == sorted.len() + 1,
        insert_hit(sorted, hit)[0].at.distance.rank() <= hit.at.distance.rank(),
        sorted.len() > 0 ==> insert_hit(sorted, hit)[0].at.distance.rank()
            <= sorted[0].at.distance.rank(),
    decreases sorted.len(),
{
    if sorted.len() == 0 || sorted.last().at.distance.rank() <= hit.at.distance.rank() {
    } else {
        lemma_insert_first(sorted.drop_last(), hit);
    }
}

/// Clicks and grabs go to the closest panel: no panel that the hand's ray meets
/// is closer than the one aimed at.
pub proof fn law_aimed_panel_is_closest(hits: Seq<PanelHit>, i: int)
    requires
        0 <= i < hits.len(),
    ensures
        closest(by_distance(hits)) is Some,
        closest(by_distance(hits))->0.at.distance.rank() <= hits[i].at.distance.rank(),
    decreases hits.len(),
{
    let rest = hits.drop_last();
    law_by_distance(rest, 0);
    lemma_insert_first(by_distance(rest), hits.last());
    if i < rest.len() {
        law_aimed_panel_is_closest(rest, i);
        assert(rest[i] == hits[i]);
    }
}

/// Every panel that an active hand's ray meets is told so, and nothing is told
/// to a panel that it does not meet: there is one hover event per hit.
pub proof fn law_hover_per_hit(panels: Seq<PanelTarget>, hand: Hand)
    ensures
        InputDispatcher::hover_events(hand, by_distance(hits_of(panels, hand))).len() == hits_of(
            panels,
            hand,
        ).len(),
        forall|i: int|
            0 <= i < hits_of(panels, hand).len() ==> (#[trigger] InputDispatcher::hover_events(
                hand,
                by_distance(hits_of(panels, hand)),
            )[i]).1 is PointerMove,
{
    law_by_distance(hits_of(panels, hand), 0);
}

/// A hand that is not there makes no events and forgets nothing.
pub proof fn law_inactive_hand_is_silent(
    before: HandTracking,
    hand: Hand,
    now: HandState,
    panels: Seq<PanelTarget>,
)
    requires
        !now.active,
    ensures
        InputDispatcher::hand_events(before, hand, now, panels).len() == 0,
        InputDispatcher::hand_next(before, hand, now, panels) == before,
{
}

/// The dispatcher keeps that hands grab only while they grip.
pub proof fn law_dispatch_keeps_grabs_gripped(
    before: HandTracking,
    hand: Hand,
    now: HandState,
    panels: Seq<PanelTarget>,
)
    requires
        before.wf(),
    ensures
        InputDispatcher::hand_next(before, hand, now, panels).wf(),
{
}

/// A panel that can be grabbed anywhere is offered to a grip wherever it is
/// hit; any other only in its margin.
pub proof fn law_grabbable_bypasses_margin(panels: Seq<PanelTarget>, hit: PanelHit)
    ensures
        grab_offer(panels, Some(hit)) == Some(hit.id) <==> grabbable_anywhere(panels, hit.id)
            || within_grab_margin(hit.at.u, hit.at.v),
{
}

/// Whether a panel is the closest that a hand's ray meets: no panel that it meets is
/// closer, and none listed before it is as close.
pub open spec fn is_closest(panels: Seq<PanelTarget>, hand: Hand, k: int) -> bool {
    &&& 0 <= k < panels.len()
    &&& panels[k].hit_by(hand) is Some
    &&& forall|j: int|
        0 <= j < panels.len() && (#[trigger] panels[j]).hit_by(hand) is Some ==> {
            let rank = panels[k].hit_by(hand)->0.distance.rank();
            let other = panels[j].hit_by(hand)->0.distance.rank();
            rank <= other && (j < k ==> rank < other)
        }
}

/// The event that a hand points at a panel, where and how far away.
pub open spec fn points_at(panel: PanelTarget, hand: Hand) -> (PanelId, InputEvent) {
    let at = panel.hit_by(hand)->0;
    (panel.id, InputEvent::PointerMove { hand, u: at.u, v: at.v, distance: at.distance })
}

proof fn lemma_insert_contains(sorted: Seq<PanelHit>, hit: PanelHit, x: PanelHit)
    ensures
        insert_hit(sorted, hit).contains(x) <==> sorted.contains(x) || x == hit,
    decreases sorted.len(),
{
    if sorted.len() == 0 || sorted.last().at.distance.rank() <= hit.at.distance.rank() {
        lemma_in_push(sorted, hit, x);
    } else {
        let rest = sorted.drop_last();
        lemma_insert_contains(rest, hit, x);
        lemma_in_push(insert_hit(rest, hit), sorted.last(), x);
        lemma_in_push(rest, sorted.last(), x);
        assert(rest.push(sorted.last()) =~= sorted);
    }
}

proof fn lemma_in_push<T>(s: Seq<T>, last: T, x: T)
    ensures
        s.push(last).contains(x) <==> s.contains(x) || x == last,
{
    let all = s.push(last);
    if s.contains(x) {
        let i = choose|i: int| 0 <= i < s.len() && s[i] == x;
        assert(all[i] == x);
    }
    if x == last {
        assert(all[s.len() as int] == x);
    }
    if all.contains(x) {
        let i = choose|i: int| 0 <= i < all.len() && all[i] == x;
        if i < s.len() {
            assert(s[i] == x);
        }
    }
}

proof fn lemma_sorted_contains(hits: Seq<PanelHit>, x: PanelHit)
    ensures
        by_distance(hits).contains(x) <==> hits.contains(x),
    decreases hits.len(),
{
    if hits.len() > 0 {
        let rest = hits.drop_last();
        lemma_sorted_contains(rest, x);
        lemma_insert_contains(by_distance(rest), hits.last(), x);
        lemma_in_push(rest, hits.last(), x);
        assert(rest.push(hits.last()) =~= hits);
    }
}

/// Whether a hit is one of a hand's ray on one of the panels.
pub open spec fn is_hit(panels: Seq<PanelTarget>, hand: Hand, hit: PanelHit) -> bool {
    exists|j: int|
        0 <= j < panels.len() && (#[trigger] panels[j]).hit_by(hand) == Some(hit.at) && panels[j].id
            == hit.id
}

proof fn lemma_hits(panels: Seq<PanelTarget>, hand: Hand, x: PanelHit)
    ensures
        hits_of(panels, hand).contains(x) <==> is_hit(panels, hand, x),
    decreases panels.len(),
{
    if panels.len() > 0 {
        let rest = panels.drop_last();
        let last = panels.len() - 1;
        lemma_hits(rest, hand, x);
        if is_hit(rest, hand, x) {
            let j = choose|j: int|
                0 <= j < rest.len() && (#[trigger] rest[j]).hit_by(hand) == Some(x.at) && rest[j].id
                    == x.id;
            assert(panels[j] == rest[j]);
        }
        if is_hit(panels, hand, x) {
            let j = choose|j: int|
                0 <= j < panels.len() && (#[trigger] panels[j]).hit_by(hand) == Some(x.at)
                    && panels[j].id == x.id;
            if j < last {
                assert(rest[j] == panels[j]);
            }
        }
        match panels.last().hit_by(hand) {
            Some(at) => {
                lemma_in_push(hits_of(rest, hand), PanelHit { id: panels.last().id, at }, x);
                assert(panels[last] == panels.last());
            },
            None => {},
        }
    } else {
        assert(!hits_of(panels, hand).contains(x));
    }
}

proof fn lemma_first_stays(sorted: Seq<PanelHit>, hit: PanelHit)
    requires
        sorted_by_distance(sorted),
    ensures
        insert_hit(sorted, hit).len() > 0,
        sorted.len() > 0 && sorted[0].at.distance.rank() <= hit.at.distance.rank() ==> insert_hit(
            sorted,
            hit,
        )[0] == sorted[0],
        sorted.len() == 0 || hit.at.distance.rank() < sorted[0].at.distance.rank() ==> insert_hit(
            sorted,
            hit,
        )[0] == hit,
    decreases sorted.len(),
{
    if sorted.len() == 0 || sorted.last().at.distance.rank() <= hit.at.distance.rank() {
        if sorted.len() > 0 {
            assert(sorted[0].at.distance.rank() <= sorted.last().at.distance.rank());
        }
    } else {
        lemma_first_stays(sorted.drop_last(), hit);
    }
}

proof fn lemma_closest(panels: Seq<PanelTarget>, hand: Hand, k: int)
    requires
        is_closest(panels, hand, k),
    ensures
        closest(by_distance(hits_of(panels, hand))) == Some(
            PanelHit { id: panels[k].id, at: panels[k].hit_by(hand)->0 },
        ),
    decreases panels.len(),
{
    let rest = panels.drop_last();
    let last = panels.len() - 1;
    let hits = hits_of(rest, hand);
    let sorted = by_distance(hits);
    law_by_distance(hits, 0);
    assert forall|j: int| 0 <= j < rest.len() implies #[trigger] rest[j] == panels[j] by {}
    if panels[last].hit_by(hand) is None {
        assert(is_closest(rest, hand, k));
        lemma_closest(rest, hand, k);
    } else {
        let hit = PanelHit { id: panels[last].id, at: panels[last].hit_by(hand)->0 };
        assert(hits_of(panels, hand).drop_last() =~= hits);
        lemma_first_stays(sorted, hit);
        if k < last {
            assert(is_closest(rest, hand, k));
            lemma_closest(rest, hand, k);
        } else if sorted.len() > 0 {
            let x = sorted[0];
            assert(sorted.contains(x));
            lemma_sorted_contains(hits, x);
            lemma_hits(rest, hand, x);
            let j = choose|j: int|
                0 <= j < rest.len() && (#[trigger] rest[j]).hit_by(hand) == Some(x.at) && rest[j].id
                    == x.id;
            assert(panels[j] == rest[j]);
        }
    }
}

/// Every panel that an active hand's ray meets is pointed at, where it is met; what else
/// the hand does goes to the closest of them. A grip takes hold of that one near an edge,
/// or anywhere if the panel listed first under its id is a handle.
pub proof fn law_closest_panel_is_served(
    before: HandTracking,
    hand: Hand,
    now: HandState,
    panels: Seq<PanelTarget>,
    k: int,
    listed: int,
    event: (PanelId, InputEvent),
)
    requires
        now.active,
        is_closest(panels, hand, k),
        0 <= listed < panels.len(),
        panels[listed].id == panels[k].id,
        forall|j: int| 0 <= j < listed ==> (#[trigger] panels[j]).id != panels[k].id,
    ensures
        ({
            let at = panels[k].hit_by(hand)->0;
            let id = panels[k].id;
            let offered = if panels[listed].grabbable || near_edge(at) {
                Some(id)
            } else {
                None
            };
            let events = InputDispatcher::hand_events(before, hand, now, panels);
            &&& events.contains(event) <==> (exists|j: int|
                0 <= j < panels.len() && (#[trigger] panels[j]).hit_by(hand) is Some && event
                    == points_at(panels[j], hand)) || does(
                before,
                hand,
                now,
                Some(PanelHit { id, at }),
                offered,
                event,
            )
            &&& events.len() > 0 && events[0] == points_at(panels[k], hand)
            &&& InputDispatcher::hand_next(before, hand, now, panels) == before.next(now, offered)
        }),
{
    let at = panels[k].hit_by(hand)->0;
    let id = panels[k].id;
    let aimed = Some(PanelHit { id, at });
    let offered = if panels[listed].grabbable || near_edge(at) {
        Some(id)
    } else {
        None
    };
    lemma_closest(panels, hand, k);
    lemma_listed(panels, id, listed);
    assert(grab_offer(panels, aimed) == offered);
    let sorted = by_distance(hits_of(panels, hand));
    let hover = InputDispatcher::hover_events(hand, sorted);
    let acted = before.action_events(hand, now, aimed, offered);
    let events = InputDispatcher::hand_events(before, hand, now, panels);
    assert(events =~= hover + acted);
    lemma_in_sum(hover, acted, event);
    law_hands_do_what_they_do(before, hand, now, aimed, offered, event);
    if hover.contains(event) {
        let i = choose|i: int| 0 <= i < hover.len() && hover[i] == event;
        assert(sorted.contains(sorted[i]));
        lemma_sorted_contains(hits_of(panels, hand), sorted[i]);
        lemma_hits(panels, hand, sorted[i]);
        let j = choose|j: int|
            0 <= j < panels.len() && (#[trigger] panels[j]).hit_by(hand) == Some(sorted[i].at)
                && panels[j].id == sorted[i].id;
        assert(event == points_at(panels[j], hand));
    }
    if exists|j: int|
        0 <= j < panels.len() && (#[trigger] panels[j]).hit_by(hand) is Some && event == points_at(
            panels[j],
            hand,
        ) {
        let j = choose|j: int|
            0 <= j < panels.len() && (#[trigger] panels[j]).hit_by(hand) is Some && event
                == points_at(panels[j], hand);
        let x = PanelHit { id: panels[j].id, at: panels[j].hit_by(hand)->0 };
        lemma_hits(panels, hand, x);
        lemma_sorted_contains(hits_of(panels, hand), x);
        let i = choose|i: int| 0 <= i < sorted.len() && sorted[i] == x;
        assert(hover[i] == event);
    }
    assert(hover[0] == points_at(panels[k], hand));
}

proof fn lemma_listed(panels: Seq<PanelTarget>, id: PanelId, listed: int)
    requires
        0 <= listed < panels.len(),
        panels[listed].id == id,
        forall|j: int| 0 <= j < listed ==> (#[trigger] panels[j]).id != id,
    ensures
        grabbable_anywhere(panels, id) == panels[listed].grabbable,
    decreases panels.len(),
{
    if listed > 0 {
        let rest = panels.drop_first();
        assert forall|j: int| 0 <= j < rest.len() implies #[trigger] rest[j] == panels[j + 1] by {}
        lemma_listed(rest, id, listed - 1);
    }
}

/// A hand whose ray meets no panel points at none and clicks none, and a fresh grip takes
/// hold of nothing; it still carries what it holds.
pub proof fn law_pointing_at_nothing(
    before: HandTracking,
    hand: Hand,
    now: HandState,
    panels: Seq<PanelTarget>,
    event: (PanelId, InputEvent),
)
    requires
        now.active,
        forall|j: int| 0 <= j < panels.len() ==> (#[trigger] panels[j]).hit_by(hand) is None,
    ensures
        InputDispatcher::hand_events(before, hand, now, panels).contains(event) <==> does(
            before,
            hand,
            now,
            None,
            None,
            event,
        ),
        InputDispatcher::hand_next(before, hand, now, panels) == before.next(now, None),
{
    let hits = hits_of(panels, hand);
    if hits.len() > 0 {
        lemma_hits(panels, hand, hits[0]);
        assert(hits.contains(hits[0]));
    }
    law_hands_do_what_they_do(before, hand, now, None, None, event);
    assert(InputDispatcher::hand_events(before, hand, now, panels) =~= before.action_events(
        hand,
        now,
        None,
        None,
    ));
}

/// The hits of two lists of panels put together are those of the first and then those of the
/// second; a panel gives one hit where it is met, under its id, and none where it is not.
pub proof fn law_hits_come_as_listed(
    first: Seq<PanelTarget>,
    second: Seq<PanelTarget>,
    only: PanelTarget,
    hand: Hand,
)
    ensures
        hits_of(first + second, hand) == hits_of(first, hand) + hits_of(second, hand),
        only.hit_by(hand) is Some ==> hits_of(seq![only], hand) == seq![
            PanelHit { id: only.id, at: only.hit_by(hand)->0 },
        ],
        only.hit_by(hand) is None ==> hits_of(seq![only], hand).len() == 0,
        hits_of(Seq::empty(), hand).len() == 0,
    decreases second.len(),
{
    reveal_with_fuel(hits_of, 2);
    assert(seq![only].drop_last() =~= Seq::<PanelTarget>::empty());
    if only.hit_by(hand) is Some {
        assert(hits_of(seq![only], hand) =~= seq![
            PanelHit { id: only.id, at: only.hit_by(hand)->0 },
        ]);
    }
    if second.len() == 0 {
        assert(first + second =~= first);
        assert(hits_of(first, hand) + hits_of(second, hand) =~= hits_of(first, hand));
    } else {
        law_hits_come_as_listed(first, second.drop_last(), only, hand);
        assert((first + second).drop_last() =~= first + second.drop_last());
        assert((first + second).last() == second.last());
        assert(hits_of(first + second, hand) =~= hits_of(first, hand) + hits_of(second, hand));
    }
}

/// The events of a hand come in turn: it points at the panels from the closest to the
/// farthest, once for each hit, and then acts, each turn at most once.
pub proof fn law_events_come_in_turn(
    before: HandTracking,
    hand: Hand,
    now: HandState,
    panels: Seq<PanelTarget>,
    i: int,
    j: int,
)
    requires
        now.active,
        0 <= i < j < InputDispatcher::hand_events(before, hand, now, panels).len(),
    ensures
        ({
            let events = InputDispatcher::hand_events(before, hand, now, panels);
            let hits = hits_of(panels, hand).len();
            &&& i < hits <==> events[i].1 is PointerMove
            &&& j < hits ==> events[i].1->PointerMove_distance.rank()
                <= events[j].1->PointerMove_distance.rank()
            &&& j >= hits ==> turn_of(events[i].1) < turn_of(events[j].1)
        }),
{
    let hits = hits_of(panels, hand);
    let sorted = by_distance(hits);
    law_by_distance(hits, 0);
    let aimed = closest(sorted);
    let offered = grab_offer(panels, aimed);
    let hover = InputDispatcher::hover_events(hand, sorted);
    let acted = before.action_events(hand, now, aimed, offered);
    let events = InputDispatcher::hand_events(before, hand, now, panels);
    assert(events =~= hover + acted);
    let n = hover.len() as int;
    assert(n == hits.len());
    if j < n {
        assert(sorted[i].at.distance.rank() <= sorted[j].at.distance.rank());
        assert(events[i] == move_event(hand, sorted[i]));
        assert(events[j] == move_event(hand, sorted[j]));
    } else {
        lemma_acts_after_pointing(before, hand, now, aimed, offered, j - n);
        if i >= n {
            law_hands_act_in_turn(before, hand, now, aimed, offered, i - n, j - n);
        } else {
            assert(events[i] == move_event(hand, sorted[i]));
        }
    }
}

proof fn lemma_acts_after_pointing(
    before: HandTracking,
    hand: Hand,
    now: HandState,
    aimed: Option<PanelHit>,
    offered: Option<PanelId>,
    k: int,
)
    requires
        0 <= k < before.action_events(hand, now, aimed, offered).len(),
    ensures
        turn_of(before.action_events(hand, now, aimed, offered)[k].1) >= 1,
{
    let acted = before.action_events(hand, now, aimed, offered);
    let clicks = super::click_events(hand, aimed, before.trigger, now.trigger_down());
    let grabs = before.grab_events(hand, now, offered);
    let held = before.held_events(hand, now, offered);
    assert(acted =~= clicks + grabs + held);
    assert(clicks.len() <= 1 && grabs.len() <= 1 && held.len() <= 2);
    assert(held.len() >= 1 ==> turn_of(held[0].1) >= 3);
    assert(held.len() == 2 ==> turn_of(held[1].1) >= 3);
}

} // verus!
