//! The history of a simulation: the grids of the generations gone by, kept so
//! that every step forward can be taken back exactly.

use vstd::prelude::*;
use crate::engine::{next_generation, step};
use crate::grid::{dead_cells, is_grid, Grid};

verus! {

/// A simulation as contracts see it: the grids of the past generations,
/// oldest first, and the grid of the present one.
pub struct Timeline {
    pub past: Seq<Seq<Seq<bool>>>,
    pub current: Seq<Seq<bool>>,
}

impl Timeline {
    /// The number of the present generation: how many lie behind it.
    pub open spec fn generation(self) -> nat {
        self.past.len()
    }

    /// One step forward: the present grid joins the past and its next
    /// generation becomes the present.
    pub open spec fn advance(self) -> Timeline {
        Timeline { past: self.past.push(self.current), current: next_generation(self.current) }
    }

    /// One step back: the latest grid of the past becomes the present again.
    /// With no past there is nothing to go back to, and nothing changes.
    pub open spec fn rewind(self) -> Timeline {
        if self.past.len() == 0 {
            self
        } else {
            Timeline { past: self.past.drop_last(), current: self.past.last() }
        }
    }

    /// `steps` steps forward.
    pub open spec fn advance_by(self, steps: nat) -> Timeline
        decreases steps,
    {
        if steps == 0 {
            self
        } else {
            self.advance().advance_by((steps - 1) as nat)
        }
    }

    /// `steps` steps back.
    pub open spec fn rewind_by(self, steps: nat) -> Timeline
        decreases steps,
    {
        if steps == 0 {
            self
        } else {
            self.rewind().rewind_by((steps - 1) as nat)
        }
    }

    /// Back at the start: no past, and a present grid of the same dimensions
    /// with every cell dead.
    pub open spec fn restart(self) -> Timeline {
        Timeline {
            past: Seq::empty(),
            current: dead_cells(self.current.len(), self.current[0].len()),
        }
    }
}

/// A step back undoes a step forward exactly.
pub proof fn lemma_rewind_undoes_advance(timeline: Timeline)
    ensures
        timeline.advance().rewind() == timeline,
        timeline.advance().generation() == timeline.generation() + 1,
{
    assert(timeline.past.push(timeline.current).drop_last() =~= timeline.past);
}

/// Any number of steps forward followed by as many steps back ends where it
/// began: the same present grid, the same past, the same generation number.
pub proof fn lemma_round_trip(timeline: Timeline, steps: nat)
    ensures
        timeline.advance_by(steps).rewind_by(steps) == timeline,
        timeline.advance_by(steps).generation() == timeline.generation() + steps,
        timeline.advance_by(steps).rewind_by(steps).generation() == timeline.generation(),
    decreases steps,
{
    if steps > 0 {
        lemma_advance_by_ends_with_advance(timeline, (steps - 1) as nat);
        lemma_round_trip(timeline, (steps - 1) as nat);
        let before_last = timeline.advance_by((steps - 1) as nat);
        lemma_rewind_undoes_advance(before_last);
    }
}

/// Stepping forward once and then `steps` times is stepping `steps` times and
/// then once.
pub proof fn lemma_advance_by_ends_with_advance(timeline: Timeline, steps: nat)
    ensures
        timeline.advance_by(steps + 1) == timeline.advance_by(steps).advance(),
    decreases steps,
{
    if steps > 0 {
        lemma_advance_by_ends_with_advance(timeline.advance(), (steps - 1) as nat);
    } else {
        assert(timeline.advance_by(1) == timeline.advance().advance_by(0));
    }
}

/// With no past, stepping back changes nothing, however often it is tried.
pub proof fn lemma_rewind_at_oldest(timeline: Timeline, steps: nat)
    requires
        timeline.generation() == 0,
    ensures
        timeline.rewind() == timeline,
        timeline.rewind_by(steps) == timeline,
    decreases steps,
{
    if steps > 0 {
        lemma_rewind_at_oldest(timeline, (steps - 1) as nat);
    }
}

/// The grids of the past generations and the number of the present one.
pub struct History {
    past: Vec<Grid>,
    generation: usize,
}

impl View for History {
    type V = Seq<Seq<Seq<bool>>>;

    /// The grids of the past, oldest first.
    closed spec fn view(&self) -> Seq<Seq<Seq<bool>>> {
        Seq::new(self.past@.len(), |i: int| self.past@[i]@)
    }
}

impl History {
    /// The generation counter, as contracts see it.
    pub closed spec fn spec_generation(&self) -> usize {
        self.generation
    }

    /// The representation invariant: the generation counter equals the
    /// number of grids kept, and each of them is a grid.
    pub open spec fn wf(&self) -> bool {
        &&& self.spec_generation() == self@.len()
        &&& forall|i: int| 0 <= i < self@.len() ==> is_grid(#[trigger] self@[i])
    }

    /// The timeline made of this past and the given present grid.
    pub open spec fn timeline(&self, current: Grid) -> Timeline {
        Timeline { past: self@, current: current@ }
    }

    /// A history with nothing in it, at generation 0.
    pub fn new() -> (history: History)
        ensures
            history.wf(),
            history@.len() == 0,
            history.generation() == 0,
    {
        History { past: Vec::new(), generation: 0 }
    }

    /// The number of the present generation.
    #[verifier::when_used_as_spec(spec_generation)]
    pub fn generation(&self) -> (generation: usize)
        ensures
            generation == self.spec_generation(),
    {
        self.generation
    }

    /// Whether there is no generation to go back to.
    pub fn is_empty(&self) -> (empty: bool)
        requires
            self.wf(),
        ensures
            empty == (self@.len() == 0),
            empty == (self.generation() == 0),
    {
        self.generation == 0
    }

    /// Steps forward: keeps a copy of `current`, counts one generation more
    /// and returns the generation after `current`.
    pub fn step_forward(&mut self, current: &Grid) -> (next: Grid)
        requires
            old(self).wf(),
            current.wf(),
        ensures
            final(self).wf(),
            next.wf(),
            final(self).timeline(next) == old(self).timeline(*current).advance(),
            final(self)@ == old(self)@.push(current@),
            next@ == next_generation(current@),
            final(self).generation() == old(self).generation() + 1,
    {
        self.past.push(current.clone());
        self.generation = self.past.len();
        assert(self@ =~= old(self)@.push(current@));
        step(current)
    }

    /// Steps back: hands out the latest grid kept, which is then no longer
    /// kept, and counts one generation less. With nothing kept it answers
    /// `None`, and the history is as it was.
    pub fn step_back(&mut self) -> (previous: Option<Grid>)
        requires
            old(self).wf(),
        ensures
            final(self).wf(),
            previous is None <==> old(self)@.len() == 0,
            previous is None ==> final(self)@ == old(self)@ && final(self).generation() == old(
                self,
            ).generation(),
            previous matches Some(grid) ==> {
                &&& grid.wf()
                &&& grid@ == old(self)@.last()
                &&& final(self)@ == old(self)@.drop_last()
                &&& final(self).generation() == old(self).generation() - 1
            },
    {
        match self.past.pop() {
            Some(grid) => {
                self.generation = self.past.len();
                assert(self@ =~= old(self)@.drop_last());
                assert(grid@ == old(self)@[old(self)@.len() - 1]);
                Some(grid)
            },
            None => {
                assert(self@ =~= old(self)@);
                None
            },
        }
    }

    /// Starts over: forgets every grid kept, goes back to generation 0, and
    /// returns a grid of the dimensions of `current` with every cell dead.
    pub fn reset(&mut self, current: &Grid) -> (cleared: Grid)
        requires
            old(self).wf(),
            current.wf(),
        ensures
            final(self).wf(),
            cleared.wf(),
            final(self)@.len() == 0,
            final(self).generation() == 0,
            cleared@ == dead_cells(current@.len(), current@[0].len()),
            final(self).timeline(cleared) == old(self).timeline(*current).restart(),
    {
        self.past.clear();
        self.generation = 0;
        assert(self@ =~= Seq::empty());
        let mut cleared = current.clone();
        cleared.clear();
        cleared
    }
}

} // verus!
