//! Atomic rider movement for brush pushers.
//!
//! A pusher either moves together with every body that it carries, or the
//! whole step is undone. [`push_pass`] records candidate moves in a
//! [`PushLedger`]; the caller applies them only when no participant blocks.

use vstd::prelude::*;

use crate::fixed::{sat_sum, saturating_sum};
use crate::world::Vec3I32;

verus! {

/// Live bodies besides the player that one pusher may carry in a single step.
/// Running out of places blocks the step.
pub const MAX_CARRIED_BODIES: usize = 8;

/// The participant whose push could not be completed. A monster that wedges a
/// lift takes the damage itself.
#[derive(Copy, Clone, Debug, PartialEq, Eq, Structural)]
pub enum PushBlocker {
    Player,
    Body(u16),
    /// The ledger had no place for another participant. The step is undone, but
    /// nobody can be named as the victim.
    Capacity,
}

/// A body's box, as the push policy wants it.
#[derive(Copy, Clone, Debug, PartialEq, Eq, Structural)]
pub struct RiderBody {
    pub origin: Vec3I32,
    pub mins: Vec3I32,
    pub maxs: Vec3I32,
}

/// The player's body, lent to the movers.
#[derive(Copy, Clone, Debug, PartialEq, Eq, Structural)]
pub struct Rider {
    pub origin: Vec3I32,
    /// The box around the player, kept in step with `origin`.
    pub mins: Vec3I32,
    pub maxs: Vec3I32,
    /// Only a body on the ground is carried by standing on a pusher.
    pub grounded: bool,
    /// A pusher has moved this body.
    pub carried: bool,
}

/// What the push policy decided for one body.
#[derive(Copy, Clone, Debug, PartialEq, Eq)]
pub struct PushOutcome {
    pub origin: Vec3I32,
    pub carried: bool,
    pub blocked: bool,
    /// The body in the way, when it is another one.
    pub blocking_body: Option<u16>,
}

impl Rider {
    pub fn new(origin: Vec3I32, mins: Vec3I32, maxs: Vec3I32, grounded: bool) -> (rider: Self)
        ensures
            rider == (Rider { origin, mins, maxs, grounded, carried: false }),
    {
        Rider { origin, mins, maxs, grounded, carried: false }
    }

    pub fn body(&self) -> (body: RiderBody)
        ensures
            body == (RiderBody { origin: self.origin, mins: self.mins, maxs: self.maxs }),
    {
        RiderBody { origin: self.origin, mins: self.mins, maxs: self.maxs }
    }

    /// Move the whole body. Only a step that was kept may do this.
    pub fn translate(&mut self, delta: Vec3I32)
        ensures
            *final(self) == (Rider {
                origin: sat_sum(old(self).origin, delta),
                mins: sat_sum(old(self).mins, delta),
                maxs: sat_sum(old(self).maxs, delta),
                carried: true,
                ..*old(self)
            }),
    {
        self.origin = saturating_sum(self.origin, delta);
        self.mins = saturating_sum(self.mins, delta);
        self.maxs = saturating_sum(self.maxs, delta);
        self.carried = true;
    }
}

/// What a ledger says.
#[verifier::ext_equal]
pub struct LedgerView {
    pub player: Option<Vec3I32>,
    pub bodies: Seq<(u16, Vec3I32)>,
    pub blocker: Option<PushBlocker>,
}

pub open spec fn empty_ledger() -> LedgerView {
    LedgerView { player: None, bodies: Seq::empty(), blocker: None }
}

/// The first participant to block stays the blocker.
pub open spec fn first_blocker(known: Option<PushBlocker>, blocked: bool, blocker: PushBlocker) -> Option<
    PushBlocker,
> {
    if known is None && blocked {
        Some(blocker)
    } else {
        known
    }
}

/// Who is in the way of `own`.
pub open spec fn blocker_of(outcome: PushOutcome, own: PushBlocker) -> PushBlocker {
    match outcome.blocking_body {
        Some(index) => PushBlocker::Body(index),
        None => own,
    }
}

pub open spec fn player_staged(ledger: LedgerView, outcome: PushOutcome) -> LedgerView {
    LedgerView {
        player: if outcome.carried {
            Some(outcome.origin)
        } else {
            ledger.player
        },
        bodies: ledger.bodies,
        blocker: first_blocker(
            ledger.blocker,
            outcome.blocked,
            blocker_of(outcome, PushBlocker::Player),
        ),
    }
}

pub open spec fn body_staged(ledger: LedgerView, index: u16, outcome: PushOutcome) -> LedgerView {
    let blocker = first_blocker(
        ledger.blocker,
        outcome.blocked,
        blocker_of(outcome, PushBlocker::Body(index)),
    );
    if !outcome.carried {
        LedgerView { blocker, ..ledger }
    } else if ledger.bodies.len() == MAX_CARRIED_BODIES {
        LedgerView { blocker: first_blocker(blocker, true, PushBlocker::Capacity), ..ledger }
    } else {
        LedgerView { bodies: ledger.bodies.push((index, outcome.origin)), blocker, ..ledger }
    }
}

/// Every body move that one step of a pusher decided, and whether the step may
/// keep them. While it is written no body has moved, so a block found at the
/// last body can be undone as well as one found at the first.
pub struct PushLedger {
    player: Option<Vec3I32>,
    bodies: Vec<(u16, Vec3I32)>,
    blocker: Option<PushBlocker>,
}

impl View for PushLedger {
    type V = LedgerView;

    closed spec fn view(&self) -> LedgerView {
        LedgerView { player: self.player, bodies: self.bodies@, blocker: self.blocker }
    }
}

impl PushLedger {
    pub fn new() -> (ledger: Self)
        ensures
            ledger@ == empty_ledger(),
    {
        let ledger = PushLedger { player: None, bodies: Vec::new(), blocker: None };
        assert(ledger@ =~= empty_ledger());
        ledger
    }

    /// Record what was decided for the player. Nothing moves yet.
    pub fn stage_player(&mut self, outcome: PushOutcome)
        ensures
            final(self)@ == player_staged(old(self)@, outcome),
    {
        if outcome.carried {
            self.player = Some(outcome.origin);
        }
        if outcome.blocked && self.blocker.is_none() {
            self.blocker = Some(
                match outcome.blocking_body {
                    Some(index) => PushBlocker::Body(index),
                    None => PushBlocker::Player,
                },
            );
        }
        assert(self@ =~= player_staged(old(self)@, outcome));
    }

    /// Record what was decided for one body. Nothing moves yet. A body that
    /// does not fit blocks the step: to leave it out would slide the pusher
    /// from under it.
    pub fn stage_body(&mut self, index: u16, outcome: PushOutcome)
        ensures
            final(self)@ == body_staged(old(self)@, index, outcome),
    {
        if outcome.blocked && self.blocker.is_none() {
            self.blocker = Some(
                match outcome.blocking_body {
                    Some(blocker) => PushBlocker::Body(blocker),
                    None => PushBlocker::Body(index),
                },
            );
        }
        if outcome.carried {
            if self.bodies.len() == MAX_CARRIED_BODIES {
                if self.blocker.is_none() {
                    self.blocker = Some(PushBlocker::Capacity);
                }
            } else {
                self.bodies.push((index, outcome.origin));
            }
        }
        assert(self@ =~= body_staged(old(self)@, index, outcome));
    }

    /// The caller has to put the pusher back.
    pub fn blocked(&self) -> (blocked: bool)
        ensures
            blocked == (self@.blocker is Some),
    {
        self.blocker.is_some()
    }

    pub fn blocker(&self) -> (blocker: Option<PushBlocker>)
        ensures
            blocker == self@.blocker,
    {
        self.blocker
    }

    /// Where the player ends up, unless it was not carried or the step was
    /// blocked.
    pub fn player_move(&self) -> (place: Option<Vec3I32>)
        ensures
            place == if self@.blocker is Some {
                None
            } else {
                self@.player
            },
    {
        if self.blocked() {
            return None;
        }
        self.player
    }

    /// Where each carried body ends up; nothing when the step was blocked.
    pub fn body_moves(&self) -> (moves: Vec<(u16, Vec3I32)>)
        ensures
            moves@ == if self@.blocker is Some {
                Seq::empty()
            } else {
                self@.bodies
            },
    {
        let mut moves: Vec<(u16, Vec3I32)> = Vec::new();
        if self.blocked() {
            assert(moves@ =~= Seq::empty());
            return moves;
        }
        let mut index: usize = 0;
        assert(moves@ =~= self.bodies@.subrange(0, 0));
        while index < self.bodies.len()
            invariant
                index <= self.bodies@.len(),
                moves@ == self.bodies@.subrange(0, index as int),
            decreases self.bodies@.len() - index,
        {
            moves.push(self.bodies[index]);
            index += 1;
            assert(moves@ =~= self.bodies@.subrange(0, index as int));
        }
        assert(moves@ =~= self.bodies@);
        moves
    }
}

impl Default for PushLedger {
    fn default() -> (ledger: Self)
        ensures
            ledger@ == empty_ledger(),
    {
        PushLedger::new()
    }
}

/// A body that might be carried. Its outcome counts only when it rests on the
/// pusher or is caught inside it.
#[derive(Copy, Clone, Debug, PartialEq, Eq)]
pub struct PushCandidate {
    pub index: u16,
    pub rests_on: bool,
    pub penetrates: bool,
    pub outcome: PushOutcome,
}

impl PushCandidate {
    pub open spec fn takes_part(self) -> bool {
        self.rests_on || self.penetrates
    }
}

/// Whether the push policy has to be asked about a body.
pub fn takes_part(rests_on: bool, penetrates: bool) -> (part: bool)
    ensures
        part == (rests_on || penetrates),
{
    rests_on || penetrates
}

/// The ledger after the first `count` candidates.
pub open spec fn ledger_after(player: PushOutcome, bodies: Seq<PushCandidate>, count: nat) -> LedgerView
    decreases count,
{
    if count == 0 {
        player_staged(empty_ledger(), player)
    } else {
        let before = ledger_after(player, bodies, (count - 1) as nat);
        let body = bodies[count - 1];
        if body.takes_part() {
            body_staged(before, body.index, body.outcome)
        } else {
            before
        }
    }
}

/// Record one step of a pusher over the player and every candidate, in order.
pub fn push_pass(player: PushOutcome, bodies: &Vec<PushCandidate>) -> (ledger: PushLedger)
    ensures
        ledger@ == ledger_after(player, bodies@, bodies@.len()),
{
    let mut ledger: PushLedger = PushLedger::new();
    ledger.stage_player(player);
    let mut index: usize = 0;
    while index < bodies.len()
        invariant
            index <= bodies@.len(),
            ledger@ == ledger_after(player, bodies@, index as nat),
        decreases bodies@.len() - index,
    {
        let body: PushCandidate = bodies[index];
        if takes_part(body.rests_on, body.penetrates) {
            ledger.stage_body(body.index, body.outcome);
        }
        index += 1;
    }
    ledger
}

/// The moves of the carried bodies among the first `count` candidates.
pub open spec fn carried_moves(bodies: Seq<PushCandidate>, count: nat) -> Seq<(u16, Vec3I32)>
    decreases count,
{
    if count == 0 {
        Seq::empty()
    } else {
        let before = carried_moves(bodies, (count - 1) as nat);
        let body = bodies[count - 1];
        if body.takes_part() && body.outcome.carried {
            before.push((body.index, body.outcome.origin))
        } else {
            before
        }
    }
}

/// Nobody among the first `count` participants blocks.
pub open spec fn nobody_blocks(player: PushOutcome, bodies: Seq<PushCandidate>, count: nat) -> bool {
    &&& !player.blocked
    &&& forall|i: int|
        #![trigger bodies[i]]
        0 <= i < count && bodies[i].takes_part() ==> !bodies[i].outcome.blocked
}

/// A step is kept exactly when nobody blocks and the carried bodies fit the
/// ledger. Then every carried body moves, in the order of the candidates.
pub proof fn a_step_is_all_or_nothing(player: PushOutcome, bodies: Seq<PushCandidate>, count: nat)
    requires
        count <= bodies.len(),
    ensures
        ({
            let ledger = ledger_after(player, bodies, count);
            let kept = nobody_blocks(player, bodies, count) && carried_moves(bodies, count).len()
                <= MAX_CARRIED_BODIES;
            &&& (ledger.blocker is None) == kept
            &&& kept ==> ledger.bodies == carried_moves(bodies, count)
            &&& kept ==> ledger.player == if player.carried {
                Some(player.origin)
            } else {
                None
            }
            &&& ledger.bodies.len() <= MAX_CARRIED_BODIES
        }),
    decreases count,
{
    if count > 0 {
        a_step_is_all_or_nothing(player, bodies, (count - 1) as nat);
        let body = bodies[count - 1];
        let before = ledger_after(player, bodies, (count - 1) as nat);
        assert(nobody_blocks(player, bodies, count) == (nobody_blocks(
            player,
            bodies,
            (count - 1) as nat,
        ) && (body.takes_part() ==> !body.outcome.blocked))) by {
            assert(forall|i: int|
                0 <= i < count ==> (#[trigger] bodies[i]) == bodies[i] && (i < count - 1 || i == count
                    - 1));
        }
    }
}

/// The first participant that blocks is the one that is named, whatever comes
/// after it.
pub proof fn first_blocker_is_kept(
    player: PushOutcome,
    bodies: Seq<PushCandidate>,
    early: nat,
    late: nat,
)
    requires
        early <= late <= bodies.len(),
        ledger_after(player, bodies, early).blocker is Some,
    ensures
        ledger_after(player, bodies, late).blocker == ledger_after(player, bodies, early).blocker,
    decreases late,
{
    if early < late {
        first_blocker_is_kept(player, bodies, early, (late - 1) as nat);
    }
}

/// A carried player is staged at the outcome's place and leaves the bodies alone;
/// one that is not carried stays as it was.
pub proof fn players_are_staged_where_they_go(ledger: LedgerView, outcome: PushOutcome)
    ensures
        ({
            let after = player_staged(ledger, outcome);
            &&& outcome.carried ==> after.player == Some(outcome.origin)
            &&& !outcome.carried ==> after.player == ledger.player
            &&& after.bodies == ledger.bodies
            &&& ledger.blocker is Some ==> after.blocker == ledger.blocker
            &&& ledger.blocker is None && !outcome.blocked ==> after.blocker is None
            &&& ledger.blocker is None && outcome.blocked ==> after.blocker == Some(
                match outcome.blocking_body {
                    Some(index) => PushBlocker::Body(index),
                    None => PushBlocker::Player,
                },
            )
        }),
{
}

/// A carried body is staged last, under its own number and at its own place, as
/// long as there is room; without room the step is blocked.
pub proof fn bodies_are_staged_where_they_go(ledger: LedgerView, index: u16, outcome: PushOutcome)
    ensures
        ({
            let after = body_staged(ledger, index, outcome);
            let room = ledger.bodies.len() != MAX_CARRIED_BODIES;
            &&& after.player == ledger.player
            &&& outcome.carried && room ==> after.bodies.len() == ledger.bodies.len() + 1
                && after.bodies.last() == (index, outcome.origin) && after.bodies.drop_last()
                == ledger.bodies
            &&& !outcome.carried || !room ==> after.bodies == ledger.bodies
            &&& outcome.carried && !room ==> after.blocker is Some
            &&& ledger.blocker is Some ==> after.blocker == ledger.blocker
            &&& ledger.blocker is None && !outcome.blocked && (!outcome.carried || room)
                ==> after.blocker is None
            &&& ledger.blocker is None && outcome.blocked ==> after.blocker == Some(
                match outcome.blocking_body {
                    Some(other) => PushBlocker::Body(other),
                    None => PushBlocker::Body(index),
                },
            )
        }),
{
    let after = body_staged(ledger, index, outcome);
    if outcome.carried && ledger.bodies.len() != MAX_CARRIED_BODIES {
        assert(after.bodies.drop_last() =~= ledger.bodies);
    }
}

/// The moves of a step are those of the bodies that take part and are carried,
/// each to its own place, and of no others.
pub proof fn moves_are_those_of_the_carried(bodies: Seq<PushCandidate>, count: nat)
    requires
        count <= bodies.len(),
    ensures
        forall|k: int|
            #![trigger carried_moves(bodies, count)[k]]
            0 <= k < carried_moves(bodies, count).len() ==> exists|i: int|
                0 <= i < count && (#[trigger] bodies[i]).outcome.carried && (bodies[i].rests_on
                    || bodies[i].penetrates) && carried_moves(bodies, count)[k] == (
                    bodies[i].index,
                    bodies[i].outcome.origin,
                ),
        forall|i: int|
            #![trigger bodies[i]]
            0 <= i < count && bodies[i].outcome.carried && (bodies[i].rests_on
                || bodies[i].penetrates) ==> carried_moves(bodies, count).contains(
                (bodies[i].index, bodies[i].outcome.origin),
            ),
    decreases count,
{
    if count > 0 {
        moves_are_those_of_the_carried(bodies, (count - 1) as nat);
        let before = carried_moves(bodies, (count - 1) as nat);
        let after = carried_moves(bodies, count);
        assert forall|k: int| #![trigger after[k]] 0 <= k < after.len() implies exists|i: int|
            0 <= i < count && (#[trigger] bodies[i]).outcome.carried && (bodies[i].rests_on
                || bodies[i].penetrates) && after[k] == (
                bodies[i].index,
                bodies[i].outcome.origin,
            ) by {
            if k < before.len() {
                assert(after[k] == before[k]);
            } else {
                let last = bodies[count - 1];
                assert(last.outcome.carried);
            }
        }
        assert forall|i: int|
            #![trigger bodies[i]]
            0 <= i < count && bodies[i].outcome.carried && (bodies[i].rests_on
                || bodies[i].penetrates) implies after.contains(
            (bodies[i].index, bodies[i].outcome.origin),
        ) by {
            let wanted = (bodies[i].index, bodies[i].outcome.origin);
            if i < count - 1 {
                let k = choose|k: int| 0 <= k < before.len() && before[k] == wanted;
                assert(after[k] == wanted);
            } else {
                assert(after[before.len() as int] == wanted);
            }
        }
    }
}

} // verus!
