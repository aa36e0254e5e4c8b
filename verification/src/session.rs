//! A session at the simulator: the grid on show, its history, and the
//! switches that the user's commands flip.
//!
//! The session decides; it neither reads input nor draws. Each frame its
//! caller hands it the commands that came in and where the pointer is, and
//! gets back what to report and whether to stop.

use vstd::prelude::*;
use crate::engine::lemma_next_generation_keeps_dimensions;
use crate::grid::{dead_cells, with_cell, Grid};
use crate::history::{History, Timeline};
use crate::world::{fits, lemma_pixel_in_cells_has_cell, World};

verus! {

/// What the user can ask for.
#[derive(Clone, Copy, Debug, PartialEq, Eq, Structural)]
pub enum Command {
    /// End the session.
    Quit,
    /// Show or hide the lines between the cells.
    ToggleGridLines,
    /// Start or stop stepping forward on every frame.
    ToggleAutoplay,
    /// Clear the grid and forget the history.
    Reset,
    /// The painting button went down.
    StartPainting,
    /// The painting button came up.
    StopPainting,
    /// The erasing button went down.
    StartErasing,
    /// The erasing button came up.
    StopErasing,
    /// Go to the next generation.
    StepForward,
    /// Go back to the generation before.
    StepBack,
}

/// What the session reports back for its caller to show.
#[derive(Clone, Copy, Debug, PartialEq, Eq, Structural)]
pub enum Signal {
    /// The session is over.
    Quit,
    /// Grid and history were cleared; the generation is 0 again.
    Restarted,
    /// A step forward was taken; this is the generation reached.
    Advanced(usize),
    /// A step back was taken; this is the generation reached.
    Rewound(usize),
    /// A step back was asked for at the oldest generation. Nothing changed.
    AtOldest,
}

/// A session as contracts see it.
pub struct SessionState {
    pub world: World,
    pub timeline: Timeline,
    pub painting: bool,
    pub erasing: bool,
    pub autoplay: bool,
    pub grid_lines: bool,
}

/// What a run of commands comes to: the state reached, the signals given on
/// the way, and whether the session is over.
pub struct Outcome {
    pub state: SessionState,
    pub signals: Seq<Signal>,
    pub quit: bool,
}

impl SessionState {
    /// Every grid of the session, present and past, has the dimensions of
    /// the world.
    pub open spec fn wf(self) -> bool {
        &&& self.world.wf()
        &&& fits(self.world, self.timeline.current)
        &&& forall|i: int|
            0 <= i < self.timeline.past.len() ==> fits(self.world, #[trigger] self.timeline.past[i])
    }

    /// This state with another timeline.
    pub open spec fn with_timeline(self, timeline: Timeline) -> SessionState {
        SessionState {
            world: self.world,
            timeline,
            painting: self.painting,
            erasing: self.erasing,
            autoplay: self.autoplay,
            grid_lines: self.grid_lines,
        }
    }

    /// The state after one command.
    pub open spec fn handle(self, command: Command) -> SessionState {
        match command {
            Command::Quit => self,
            Command::ToggleGridLines => SessionState {
                world: self.world,
                timeline: self.timeline,
                painting: self.painting,
                erasing: self.erasing,
                autoplay: self.autoplay,
                grid_lines: !self.grid_lines,
            },
            Command::ToggleAutoplay => SessionState {
                world: self.world,
                timeline: self.timeline,
                painting: self.painting,
                erasing: self.erasing,
                autoplay: !self.autoplay,
                grid_lines: self.grid_lines,
            },
            Command::Reset => self.with_timeline(self.timeline.restart()),
            Command::StartPainting => self.with_painting(true),
            Command::StopPainting => self.with_painting(false),
            Command::StartErasing => self.with_erasing(true),
            Command::StopErasing => self.with_erasing(false),
            Command::StepForward => self.with_timeline(self.timeline.advance()),
            Command::StepBack => self.with_timeline(self.timeline.rewind()),
        }
    }

    /// This state with the painting switch set.
    pub open spec fn with_painting(self, painting: bool) -> SessionState {
        SessionState {
            world: self.world,
            timeline: self.timeline,
            painting,
            erasing: self.erasing,
            autoplay: self.autoplay,
            grid_lines: self.grid_lines,
        }
    }

    /// This state with the erasing switch set.
    pub open spec fn with_erasing(self, erasing: bool) -> SessionState {
        SessionState {
            world: self.world,
            timeline: self.timeline,
            painting: self.painting,
            erasing,
            autoplay: self.autoplay,
            grid_lines: self.grid_lines,
        }
    }

    /// What is reported for one command.
    pub open spec fn signal(self, command: Command) -> Option<Signal> {
        match command {
            Command::Quit => Some(Signal::Quit),
            Command::Reset => Some(Signal::Restarted),
            Command::StepForward => Some(
                Signal::Advanced((self.timeline.generation() + 1) as usize),
            ),
            Command::StepBack => if self.timeline.generation() == 0 {
                Some(Signal::AtOldest)
            } else {
                Some(Signal::Rewound((self.timeline.generation() - 1) as usize))
            },
            _ => None,
        }
    }

    /// The state after the cell under the pixel `(x, y)` is made alive or
    /// dead. A pixel with no cell under it changes nothing.
    pub open spec fn draw(self, x: int, y: int, alive: bool) -> SessionState {
        match self.world.cell_of(x, y) {
            Some((row, col)) => self.with_timeline(
                Timeline {
                    past: self.timeline.past,
                    current: with_cell(self.timeline.current, row as int, col as int, alive),
                },
            ),
            None => self,
        }
    }

    /// The state after the pointer at `(x, y)` has done its work: it paints
    /// while the painting switch is on, else it erases while the erasing
    /// switch is on.
    pub open spec fn edit(self, x: int, y: int) -> SessionState {
        if self.painting {
            self.draw(x, y, true)
        } else if self.erasing {
            self.draw(x, y, false)
        } else {
            self
        }
    }

    /// The state after the frame's automatic step, taken while autoplay is on.
    pub open spec fn tick(self) -> SessionState {
        if self.autoplay {
            self.with_timeline(self.timeline.advance())
        } else {
            self
        }
    }

    /// What the commands come to, handled in order. `Quit` ends the run:
    /// commands behind it are not handled.
    pub open spec fn dispatch(self, commands: Seq<Command>) -> Outcome
        decreases commands.len(),
    {
        if commands.len() == 0 {
            Outcome { state: self, signals: Seq::empty(), quit: false }
        } else {
            let before = self.dispatch(commands.drop_last());
            if before.quit {
                before
            } else {
                Outcome {
                    state: before.state.handle(commands.last()),
                    signals: match before.state.signal(commands.last()) {
                        Some(signal) => before.signals.push(signal),
                        None => before.signals,
                    },
                    quit: commands.last() == Command::Quit,
                }
            }
        }
    }

    /// What a whole frame comes to: the commands in order, then the
    /// pointer's work, then the automatic step. A frame that ends the
    /// session stops at `Quit`.
    pub open spec fn frame(self, commands: Seq<Command>, x: int, y: int) -> Outcome {
        let handled = self.dispatch(commands);
        if handled.quit {
            handled
        } else {
            let edited = handled.state.edit(x, y);
            Outcome {
                state: edited.tick(),
                signals: if edited.autoplay {
                    handled.signals.push(
                        Signal::Advanced((edited.timeline.generation() + 1) as usize),
                    )
                } else {
                    handled.signals
                },
                quit: false,
            }
        }
    }
}

/// Once a run of commands has met `Quit`, more commands change nothing.
pub proof fn lemma_quit_ends_dispatch(state: SessionState, commands: Seq<Command>, handled: int)
    requires
        0 <= handled <= commands.len(),
        state.dispatch(commands.take(handled)).quit,
    ensures
        state.dispatch(commands) == state.dispatch(commands.take(handled)),
    decreases commands.len() - handled,
{
    if handled < commands.len() {
        assert(commands.take(handled + 1).drop_last() =~= commands.take(handled));
        lemma_quit_ends_dispatch(state, commands, handled + 1);
    } else {
        assert(commands.take(handled) =~= commands);
    }
}

/// Drawing at a pixel outside the world changes nothing.
pub proof fn lemma_draw_outside_changes_nothing(state: SessionState, x: int, y: int, alive: bool)
    requires
        !(0 <= x < state.world.width() && 0 <= y < state.world.height()),
    ensures
        state.draw(x, y, alive) == state,
        state.edit(x, y) == state,
{
}

/// Drawing at a pixel of the area that the cells cover sets the cell under
/// that pixel and no other: the dimensions stay, every other cell is as it
/// was, and so is the past.
pub proof fn lemma_draw_sets_one_cell(state: SessionState, x: int, y: int, alive: bool)
    requires
        state.wf(),
        0 <= x < state.world.columns() * state.world.cell_size(),
        0 <= y < state.world.rows() * state.world.cell_size(),
    ensures
        ({
            let row = y / (state.world.cell_size() as int);
            let col = x / (state.world.cell_size() as int);
            let before = state.timeline.current;
            let after = state.draw(x, y, alive).timeline.current;
            &&& state.draw(x, y, alive).wf()
            &&& state.draw(x, y, alive).timeline.past == state.timeline.past
            &&& 0 <= row < before.len()
            &&& 0 <= col < before[0].len()
            &&& after[row][col] == alive
            &&& forall|r: int, c: int|
                0 <= r < before.len() && 0 <= c < before[0].len() && !(r == row && c == col)
                    ==> after[r][c] == before[r][c]
        }),
{
    lemma_pixel_in_cells_has_cell(state.world, x, y);
}

/// The grid on show, its history and the switches.
pub struct Session {
    world: World,
    grid: Grid,
    history: History,
    painting: bool,
    erasing: bool,
    autoplay: bool,
    grid_lines: bool,
}

/// What a frame came to: the signals to report, in order, and whether the
/// session is over.
#[derive(Debug)]
pub struct Frame {
    pub signals: Vec<Signal>,
    pub quit: bool,
}

impl View for Session {
    type V = SessionState;

    closed spec fn view(&self) -> SessionState {
        SessionState {
            world: self.world,
            timeline: self.history.timeline(self.grid),
            painting: self.painting,
            erasing: self.erasing,
            autoplay: self.autoplay,
            grid_lines: self.grid_lines,
        }
    }
}

impl Session {
    /// The representation invariant: every grid has the dimensions of the
    /// world, and the generation counter is the length of the history.
    pub open spec fn wf(&self) -> bool {
        &&& self@.wf()
        &&& self.counted()
    }

    /// Whether the generation counter is the length of the history.
    pub closed spec fn counted(&self) -> bool {
        &&& self.history.wf()
        &&& self.grid.wf()
    }

    /// Starts a session in the given world: every cell dead, generation 0,
    /// no history, grid lines shown, nothing else switched on.
    pub fn new(world: World) -> (session: Session)
        requires
            world.wf(),
        ensures
            session.wf(),
            session@ == (SessionState {
                world,
                timeline: Timeline {
                    past: Seq::empty(),
                    current: dead_cells(world.rows() as nat, world.columns() as nat),
                },
                painting: false,
                erasing: false,
                autoplay: false,
                grid_lines: true,
            }),
    {
        let grid = Grid::new(world.columns(), world.rows()).unwrap();
        let history = History::new();
        assert(history@ =~= Seq::empty());
        Session {
            world,
            grid,
            history,
            painting: false,
            erasing: false,
            autoplay: false,
            grid_lines: true,
        }
    }

    /// The world of the session.
    pub fn world(&self) -> (world: World)
        ensures
            world == self@.world,
    {
        self.world
    }

    /// The grid on show.
    pub fn grid(&self) -> (grid: &Grid)
        ensures
            grid@ == self@.timeline.current,
            self.wf() ==> grid.wf(),
    {
        &self.grid
    }

    /// The number of the generation on show.
    pub fn generation(&self) -> (generation: usize)
        requires
            self.wf(),
        ensures
            generation == self@.timeline.generation(),
    {
        self.history.generation()
    }

    /// Whether the pointer paints.
    pub fn painting(&self) -> (on: bool)
        ensures
            on == self@.painting,
    {
        self.painting
    }

    /// Whether the pointer erases, where it does not paint.
    pub fn erasing(&self) -> (on: bool)
        ensures
            on == self@.erasing,
    {
        self.erasing
    }

    /// Whether every frame steps forward by itself.
    pub fn autoplay(&self) -> (on: bool)
        ensures
            on == self@.autoplay,
    {
        self.autoplay
    }

    /// Whether the lines between the cells are to be drawn.
    pub fn grid_lines(&self) -> (on: bool)
        ensures
            on == self@.grid_lines,
    {
        self.grid_lines
    }

    /// Goes to the next generation and returns its number. The grid left
    /// behind joins the history.
    pub fn step_forward(&mut self) -> (generation: usize)
        requires
            old(self).wf(),
        ensures
            final(self).wf(),
            final(self)@ == old(self)@.with_timeline(old(self)@.timeline.advance()),
            generation == old(self)@.timeline.generation() + 1,
    {
        proof {
            lemma_next_generation_keeps_dimensions(self.grid@);
        }
        let next = self.history.step_forward(&self.grid);
        self.grid = next;
        self.history.generation()
    }

    /// Goes back to the generation before and returns its number. At the
    /// oldest generation nothing changes and the answer is `None`.
    pub fn step_back(&mut self) -> (generation: Option<usize>)
        requires
            old(self).wf(),
        ensures
            final(self).wf(),
            final(self)@ == old(self)@.with_timeline(old(self)@.timeline.rewind()),
            generation is None <==> old(self)@.timeline.generation() == 0,
            generation is None ==> final(self)@ == old(self)@,
            generation matches Some(reached) ==> reached == old(self)@.timeline.generation() - 1,
    {
        match self.history.step_back() {
            Some(grid) => {
                self.grid = grid;
                proof {
                    let past = old(self)@.timeline.past;
                    assert(fits(self.world, past[past.len() - 1]));
                    assert forall|i: int| 0 <= i < self@.timeline.past.len() implies fits(
                        self.world,
                        #[trigger] self@.timeline.past[i],
                    ) by {
                        assert(self@.timeline.past[i] == past[i]);
                    }
                }
                Some(self.history.generation())
            },
            None => None,
        }
    }

    /// Clears the grid and forgets the history: every cell dead, generation
    /// 0. The switches stay as they are.
    pub fn reset(&mut self)
        requires
            old(self).wf(),
        ensures
            final(self).wf(),
            final(self)@ == old(self)@.with_timeline(old(self)@.timeline.restart()),
            final(self)@.timeline.generation() == 0,
            final(self)@.timeline.past.len() == 0,
            final(self)@.timeline.current == dead_cells(
                old(self)@.world.rows() as nat,
                old(self)@.world.columns() as nat,
            ),
    {
        let cleared = self.history.reset(&self.grid);
        self.grid = cleared;
    }

    /// Makes the cell under the pixel `(x, y)` alive or dead. A pixel with
    /// no cell under it changes nothing.
    pub fn draw(&mut self, x: i32, y: i32, alive: bool)
        requires
            old(self).wf(),
        ensures
            final(self).wf(),
            final(self)@ == old(self)@.draw(x as int, y as int, alive),
    {
        match self.world.cell_at(x, y) {
            Some((row, col)) => {
                self.grid.set(row, col, alive);
                assert(fits(self.world, self.grid@));
                assert(self@.timeline.past == old(self)@.timeline.past);
            },
            None => {},
        }
    }

    /// Lets the pointer at `(x, y)` work: it paints while the painting
    /// switch is on; while it is off and the erasing switch is on, it erases.
    pub fn edit(&mut self, x: i32, y: i32)
        requires
            old(self).wf(),
        ensures
            final(self).wf(),
            final(self)@ == old(self)@.edit(x as int, y as int),
    {
        if self.painting {
            self.draw(x, y, true);
        } else if self.erasing {
            self.draw(x, y, false);
        }
    }

    /// Takes the frame's automatic step: while autoplay is on, one step
    /// forward, whose generation is returned.
    pub fn tick(&mut self) -> (generation: Option<usize>)
        requires
            old(self).wf(),
        ensures
            final(self).wf(),
            final(self)@ == old(self)@.tick(),
            generation == if old(self)@.autoplay {
                Some((old(self)@.timeline.generation() + 1) as usize)
            } else {
                None
            },
    {
        if self.autoplay {
            Some(self.step_forward())
        } else {
            None
        }
    }

    /// Carries out one command and says what to report.
    pub fn handle(&mut self, command: Command) -> (signal: Option<Signal>)
        requires
            old(self).wf(),
        ensures
            final(self).wf(),
            final(self)@ == old(self)@.handle(command),
            signal == old(self)@.signal(command),
    {
        match command {
            Command::Quit => Some(Signal::Quit),
            Command::ToggleGridLines => {
                self.grid_lines = !self.grid_lines;
                None
            },
            Command::ToggleAutoplay => {
                self.autoplay = !self.autoplay;
                None
            },
            Command::Reset => {
                self.reset();
                Some(Signal::Restarted)
            },
            Command::StartPainting => {
                self.painting = true;
                None
            },
            Command::StopPainting => {
                self.painting = false;
                None
            },
            Command::StartErasing => {
                self.erasing = true;
                None
            },
            Command::StopErasing => {
                self.erasing = false;
                None
            },
            Command::StepForward => Some(Signal::Advanced(self.step_forward())),
            Command::StepBack => match self.step_back() {
                Some(reached) => Some(Signal::Rewound(reached)),
                None => Some(Signal::AtOldest),
            },
        }
    }

    /// Runs one frame: carries out the commands in order, lets the pointer
    /// at `(x, y)` work, and takes the automatic step. At `Quit` the frame
    /// ends on the spot.
    pub fn frame(&mut self, commands: &Vec<Command>, x: i32, y: i32) -> (report: Frame)
        requires
            old(self).wf(),
        ensures
            final(self).wf(),
            final(self)@ == old(self)@.frame(commands@, x as int, y as int).state,
            report.signals@ == old(self)@.frame(commands@, x as int, y as int).signals,
            report.quit == old(self)@.frame(commands@, x as int, y as int).quit,
    {
        let ghost start = self@;
        let mut signals: Vec<Signal> = Vec::new();
        let mut i: usize = 0;
        while i < commands.len()
            invariant
                self.wf(),
                start == old(self)@,
                i <= commands.len(),
                start.dispatch(commands@.take(i as int)) == (Outcome {
                    state: self@,
                    signals: signals@,
                    quit: false,
                }),
            decreases commands.len() - i,
        {
            let command = commands[i];
            let signal = self.handle(command);
            match signal {
                Some(given) => {
                    signals.push(given);
                },
                None => {},
            }
            proof {
                let handled = commands@.take(i + 1);
                assert(handled.drop_last() =~= commands@.take(i as int));
                assert(handled.last() == command);
                assert(start.dispatch(handled) == (Outcome {
                    state: self@,
                    signals: signals@,
                    quit: command == Command::Quit,
                }));
            }
            match command {
                Command::Quit => {
                    proof {
                        lemma_quit_ends_dispatch(start, commands@, i + 1);
                    }
                    return Frame { signals, quit: true };
                },
                _ => {},
            }
            i = i + 1;
        }
        assert(commands@.take(i as int) =~= commands@);
        self.edit(x, y);
        match self.tick() {
            Some(reached) => {
                signals.push(Signal::Advanced(reached));
            },
            None => {},
        }
        Frame { signals, quit: false }
    }
}

} // verus!
