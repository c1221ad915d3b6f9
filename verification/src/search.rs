//! The search core: engine state shared with the watchdog, search
//! constraints and time budgets, per-search bookkeeping (principal
//! variations, killers, history, counter-moves), and the iterative
//! deepening alpha-beta search with quiescence.

use std::sync::atomic::{AtomicUsize, Ordering};
use std::sync::Arc;

use vstd::prelude::*;

use crate::board::Color;
use crate::magics::Tables;
use crate::movement::{Move, NO_MOVE, NULL_MOVE};
use crate::position::{start_position, Position};
use crate::score::{Score, DRAW_SCORE, MATE_SCORE, MAX_SCORE, MIN_SCORE};
use crate::transposition::Table;

verus! {

/// Depth remaining to search, in quarter plies: fractional extensions
/// and reductions stay exact in this fixed-point form.
pub type SearchDepth = i32;

/// One full ply of depth.
pub const DEPTH_PLY: SearchDepth = 4;

pub type Depth = usize;

pub const MAX_PLY: Depth = 127;

/// The deepest remaining depth the search ever passes around.
pub const MAX_DEPTH_FP: SearchDepth = 508;

/// Depths below one ply are quiescence nodes.
pub fn is_quiescence_depth(sd: SearchDepth) -> (r: bool)
    ensures
        r == (sd < DEPTH_PLY),
{
    sd < DEPTH_PLY
}

pub open spec fn spec_score_to_tt(s: int, ply: int) -> int {
    if s < -MATE_SCORE + MAX_PLY {
        s - ply
    } else if s > MATE_SCORE - MAX_PLY {
        s + ply
    } else {
        s
    }
}

pub open spec fn spec_score_from_tt(s: int, ply: int) -> int {
    if s < -MATE_SCORE + MAX_PLY {
        s + ply
    } else if s > MATE_SCORE - MAX_PLY {
        s - ply
    } else {
        s
    }
}

/// Normalizes a mate score for storage: distances become relative to
/// this position instead of the root.
pub fn score_to_tt(s: Score, ply: usize) -> (r: Score)
    requires
        MIN_SCORE <= s <= MAX_SCORE,
        ply <= MAX_PLY,
    ensures
        r == spec_score_to_tt(s as int, ply as int),
        MIN_SCORE - 127 <= r <= MAX_SCORE + 127,
        -MATE_SCORE <= s <= MATE_SCORE ==> -MATE_SCORE - 127 <= r <= MATE_SCORE + 127,
{
    if s < -MATE_SCORE + MAX_PLY as Score {
        s - ply as Score
    } else if s > MATE_SCORE - MAX_PLY as Score {
        s + ply as Score
    } else {
        s
    }
}

/// Undoes the storage normalization when probing at `ply`.
pub fn score_from_tt(s: Score, ply: usize) -> (r: Score)
    requires
        MIN_SCORE - 127 <= s <= MAX_SCORE + 127,
        ply <= MAX_PLY,
    ensures
        r == spec_score_from_tt(s as int, ply as int),
        MIN_SCORE - 254 <= r <= MAX_SCORE + 254,
{
    if s < -MATE_SCORE + MAX_PLY as Score {
        s + ply as Score
    } else if s > MATE_SCORE - MAX_PLY as Score {
        s - ply as Score
    } else {
        s
    }
}

/// Reading a stored score back at the ply it was stored from restores
/// it exactly, for every valid score and ply.
pub proof fn lemma_score_tt_round_trip(s: int, ply: int)
    requires
        MIN_SCORE <= s <= MAX_SCORE,
        0 <= ply <= MAX_PLY,
    ensures
        spec_score_from_tt(spec_score_to_tt(s, ply), ply) == s,
{
}

/// The four engine states shared with the watchdog and the command
/// loop.
pub const WAITING_STATE: usize = 0;

pub const SEARCHING_STATE: usize = 1;

pub const PONDERING_STATE: usize = 2;

pub const STOPPING_STATE: usize = 3;

/// The engine state atom and the search generation counter, shared
/// between the searcher, the watchdog and the command loop. All
/// accesses are sequentially consistent; the values read are never
/// trusted beyond what the pure decision functions conclude from them.
pub struct EngineState {
    pub state: Arc<AtomicUsize>,
    pub generation: Arc<AtomicUsize>,
}

impl Clone for EngineState {
    /// Another handle on the same shared atoms.
    fn clone(&self) -> EngineState {
        EngineState { state: Arc::clone(&self.state), generation: Arc::clone(&self.generation) }
    }
}

impl EngineState {
    pub fn new() -> EngineState {
        EngineState {
            state: Arc::new(AtomicUsize::new(WAITING_STATE)),
            generation: Arc::new(AtomicUsize::new(0)),
        }
    }

    /// Enters the given state.
    pub fn enter(&self, state: usize) {
        self.state.store(state, Ordering::SeqCst);
    }

    /// The state last observed; other threads may change it at any
    /// time.
    pub fn load(&self) -> usize {
        self.state.load(Ordering::SeqCst)
    }

    /// Starts a new search generation and returns its number.
    pub fn bump_generation(&self) -> usize {
        let old_gen = self.generation.fetch_add(1, Ordering::SeqCst);
        old_gen.wrapping_add(1)
    }

    pub fn load_generation(&self) -> usize {
        self.generation.load(Ordering::SeqCst)
    }
}

/// What a woken watchdog must do, as a pure function of what it
/// observed: keep sleeping while the engine ponders, stop a search of
/// its own generation, and exit silently otherwise.
#[derive(Clone, Copy, PartialEq, Eq, Structural, Debug)]
pub enum WatchdogAction {
    Resleep,
    Stop,
    Exit,
}

pub fn watchdog_decision(state: usize, my_generation: usize, current_generation: usize) -> (a:
    WatchdogAction)
    ensures
        state == PONDERING_STATE ==> a == WatchdogAction::Resleep,
        state != PONDERING_STATE && (state != SEARCHING_STATE || my_generation
            != current_generation) ==> a == WatchdogAction::Exit,
        state == SEARCHING_STATE && my_generation == current_generation ==> a
            == WatchdogAction::Stop,
{
    if state == PONDERING_STATE {
        WatchdogAction::Resleep
    } else if state != SEARCHING_STATE || my_generation != current_generation {
        WatchdogAction::Exit
    } else {
        WatchdogAction::Stop
    }
}

/// Whether an observed state and node count oblige the search to stop:
/// an explicit stop always does; the node limit only outside infinite
/// mode; pondering never stops by itself.
pub fn stop_decision(state: usize, nodes: u64, node_limit: u64, infinite: bool) -> (r: bool)
    ensures
        r == (state != PONDERING_STATE && (state == STOPPING_STATE || (nodes >= node_limit
            && !infinite))),
{
    if state == PONDERING_STATE {
        false
    } else if state == STOPPING_STATE {
        true
    } else {
        nodes >= node_limit && !infinite
    }
}

/// How one search ended relative to its window.
#[derive(Clone, Copy, PartialEq, Eq, Structural, Debug)]
pub enum SearchResult {
    Aborted,
    FailHigh,
    FailLow,
    Exact,
}

#[verifier::external_type_specification]
#[verifier::external_body]
pub struct ExInstant(std::time::Instant);

/// Relies on std::time::Instant::now: a timestamp for later elapsed
/// readings. Nothing is promised of the value.
#[verifier::external_body]
fn instant_now() -> std::time::Instant {
    std::time::Instant::now()
}

/// Relies on std::time::Instant::elapsed: the wall time since the
/// instant. Nothing is promised of the value.
#[verifier::external_body]
fn instant_elapsed(t: &std::time::Instant) -> std::time::Duration {
    t.elapsed()
}

/// Relies on std::time::Duration::as_millis, truncated to 64 bits.
/// Nothing is promised of the value.
#[verifier::external_body]
#[verifier::truncate]
fn duration_millis(d: &std::time::Duration) -> u64 {
    d.as_millis() as u64
}

/// Milliseconds elapsed since `t`.
fn elapsed_millis(t: &std::time::Instant) -> u64 {
    let d = instant_elapsed(t);
    duration_millis(&d)
}

pub open spec fn spec_clamp(v: int, lo: int, hi: int) -> int {
    if v < lo {
        lo
    } else if v > hi {
        hi
    } else {
        v
    }
}

pub open spec fn spec_max(a: int, b: int) -> int {
    if a >= b {
        a
    } else {
        b
    }
}

pub open spec fn spec_min(a: int, b: int) -> int {
    if a <= b {
        a
    } else {
        b
    }
}

/// The raw soft budget before pondering and clipping, in milliseconds.
pub open spec fn spec_soft_raw(time: int, inc: int, movestogo: int) -> int {
    if movestogo != 0 {
        time / spec_clamp(movestogo, 2, 20)
    } else {
        time / 30 + inc
    }
}

/// The raw hard budget before clipping, in milliseconds.
pub open spec fn spec_hard_raw(time: int, inc: int, movestogo: int) -> int {
    if movestogo != 0 {
        if movestogo == 1 {
            spec_max(time - 250, time / 2)
        } else {
            spec_min(time / 4, time * 4 / movestogo)
        }
    } else {
        spec_max(time / 5, inc - 250)
    }
}

/// The final soft budget: doubled while pondering, clipped to the
/// remaining clock less the buffer, then scaled down, never negative.
pub open spec fn spec_soft_limit(
    time: int,
    inc: int,
    movestogo: int,
    ponder: bool,
    buffer: int,
) -> int {
    let raw = spec_soft_raw(time, inc, movestogo) * (if ponder {
        2int
    } else {
        1int
    });
    spec_max(0, spec_min(raw, time - buffer) * 6 / 10)
}

/// The final hard budget: twice the raw value, clipped to the clock
/// less the buffer, never negative.
pub open spec fn spec_hard_limit(time: int, inc: int, movestogo: int, buffer: int) -> int {
    spec_max(0, spec_min(2 * spec_hard_raw(time, inc, movestogo), time - buffer))
}

/// The conditions for one search: what to search and when to stop.
pub struct SearchConstraints {
    pub infinite: bool,
    pub ponder: bool,
    pub searchmoves: Vec<Move>,
    pub node_limit: u64,
    pub depth_limit: Depth,
    pub use_timer: bool,
    pub hard_limit: u64,
    pub soft_limit: u64,
    pub start_time: std::time::Instant,
}

impl SearchConstraints {
    pub fn new() -> (c: SearchConstraints)
        ensures
            !c.infinite,
            !c.ponder,
            c.searchmoves@.len() == 0,
            c.node_limit == u64::MAX,
            c.depth_limit == MAX_PLY,
            !c.use_timer,
            c.hard_limit == 0,
            c.soft_limit == 0,
    {
        SearchConstraints {
            infinite: false,
            ponder: false,
            searchmoves: Vec::new(),
            node_limit: u64::MAX,
            depth_limit: MAX_PLY,
            use_timer: false,
            hard_limit: 0,
            soft_limit: 0,
            start_time: instant_now(),
        }
    }

    pub fn clear(&mut self)
        ensures
            !final(self).infinite,
            !final(self).ponder,
            final(self).searchmoves@.len() == 0,
            final(self).node_limit == u64::MAX,
            final(self).depth_limit == MAX_PLY,
            !final(self).use_timer,
            final(self).hard_limit == 0,
            final(self).soft_limit == 0,
    {
        self.infinite = false;
        self.ponder = false;
        self.searchmoves = Vec::new();
        self.node_limit = u64::MAX;
        self.depth_limit = MAX_PLY;
        self.use_timer = false;
        self.hard_limit = 0;
        self.soft_limit = 0;
        self.start_time = instant_now();
    }

    /// Derives the time budgets from the clock fields of a `go`
    /// command: with all clock fields zero the timer stays off;
    /// `movetime` fixes both budgets; otherwise the side to move's
    /// clock and increment set them.
    #[verifier::rlimit(100)]
    pub fn set_timer(
        &mut self,
        us: Color,
        wtime: u32,
        btime: u32,
        winc: u32,
        binc: u32,
        movetime: u32,
        movestogo: u32,
        time_buffer: u32,
    )
        ensures
            final(self).infinite == old(self).infinite,
            final(self).ponder == old(self).ponder,
            final(self).searchmoves@ == old(self).searchmoves@,
            final(self).node_limit == old(self).node_limit,
            final(self).depth_limit == old(self).depth_limit,
            (wtime == 0 && btime == 0 && winc == 0 && binc == 0 && movetime == 0) ==> !final(self).use_timer,
            !(wtime == 0 && btime == 0 && winc == 0 && binc == 0 && movetime == 0) ==> final(self).use_timer,
            final(self).use_timer && movetime != 0 ==> final(self).hard_limit == spec_max(
                0,
                movetime - time_buffer,
            ) && final(self).soft_limit == final(self).hard_limit,
            final(self).use_timer && movetime == 0 ==> {
                let time = (if us == Color::White {
                    wtime
                } else {
                    btime
                }) as int;
                let inc = (if us == Color::White {
                    winc
                } else {
                    binc
                }) as int;
                final(self).soft_limit == spec_soft_limit(
                    time,
                    inc,
                    movestogo as int,
                    old(self).ponder,
                    time_buffer as int,
                ) && final(self).hard_limit == spec_hard_limit(
                    time,
                    inc,
                    movestogo as int,
                    time_buffer as int,
                )
            },
    {
        self.start_time = instant_now();
        if wtime == 0 && btime == 0 && winc == 0 && binc == 0 && movetime == 0 {
            self.use_timer = false;
            return ;
        }
        self.use_timer = true;
        if movetime != 0 {
            let v: i64 = movetime as i64 - time_buffer as i64;
            let h: u64 = if v < 0 {
                0
            } else {
                v as u64
            };
            self.hard_limit = h;
            self.soft_limit = h;
            return ;
        }
        let time: i64 = if us == Color::White {
            wtime as i64
        } else {
            btime as i64
        };
        let inc: i64 = if us == Color::White {
            winc as i64
        } else {
            binc as i64
        };
        let mtg: i64 = movestogo as i64;
        let mut soft: i64;
        let mut hard: i64;
        if mtg != 0 {
            let clamped = if mtg < 2 {
                2
            } else if mtg > 20 {
                20
            } else {
                mtg
            };
            soft = time / clamped;
            hard = if mtg == 1 {
                if time - 250 >= time / 2 {
                    time - 250
                } else {
                    time / 2
                }
            } else {
                if time / 4 <= time * 4 / mtg {
                    time / 4
                } else {
                    time * 4 / mtg
                }
            };
        } else {
            soft = time / 30 + inc;
            hard = if time / 5 >= inc - 250 {
                time / 5
            } else {
                inc - 250
            };
        }
        if self.ponder {
            soft = soft * 2;
        }
        let cap = time - time_buffer as i64;
        soft = (if soft <= cap {
            soft
        } else {
            cap
        }) * 6 / 10;
        if soft < 0 {
            soft = 0;
        }
        hard = 2 * hard;
        if hard > cap {
            hard = cap;
        }
        if hard < 0 {
            hard = 0;
        }
        self.soft_limit = soft as u64;
        self.hard_limit = hard as u64;
    }
}

pub struct SearchStats {
    pub nodes: u64,
    pub qnodes: u64,
    pub pvnodes: u64,
}

impl SearchStats {
    pub fn new() -> (s: SearchStats)
        ensures
            s.nodes == 0,
            s.qnodes == 0,
            s.pvnodes == 0,
    {
        SearchStats { nodes: 0, qnodes: 0, pvnodes: 0 }
    }
}

/// One root move with the score, depth and principal variation from the
/// deepest completed iteration that searched it.
pub struct RootMove {
    pub m: Move,
    pub score: Score,
    pub depth: Depth,
    pub pv: Vec<Move>,
}

impl RootMove {
    pub fn new(m: Move) -> (r: RootMove)
        ensures
            r.m == m,
            r.score == MIN_SCORE,
            r.depth == 0,
            r.pv@.len() == 0,
    {
        RootMove { m, score: MIN_SCORE, depth: 0, pv: Vec::new() }
    }
}

/// The per-ply search stack slot: the two killer moves of the ply.
#[derive(Clone, Copy)]
pub struct Node {
    pub killer1: Move,
    pub killer2: Move,
}

impl Node {
    pub fn new() -> (n: Node)
        ensures
            n.killer1 == NO_MOVE,
            n.killer2 == NO_MOVE,
    {
        Node { killer1: NO_MOVE, killer2: NO_MOVE }
    }
}

pub const MAX_HISTORY: Score = 10000;

pub const MIN_HISTORY: Score = -10000;

/// Halving as the machine does it: rounding toward zero.
pub open spec fn spec_half(x: int) -> int {
    if x >= 0 {
        x / 2
    } else {
        -((-x) / 2)
    }
}

/// A history reward: the squared depth in plies, kept just inside the
/// score range.
pub open spec fn spec_history_raise(h: int, d: int) -> int {
    let v = h + (d / 4) * (d / 4);
    if v >= MAX_SCORE {
        MAX_SCORE - 1
    } else {
        v
    }
}

/// A history penalty: the squared depth in plies, kept just inside the
/// score range.
pub open spec fn spec_history_lower(h: int, d: int) -> int {
    let v = h - (d / 4) * (d / 4);
    if v <= MIN_SCORE {
        MIN_SCORE + 1
    } else {
        v
    }
}

/// The history slot of a move, in specification form.
pub open spec fn spec_history_index(m: Move) -> int {
    crate::movement::move_piece_spec(m) * 64 + crate::movement::move_to_spec(m)
}

/// Everything one search session owns: the position, the root moves,
/// the shared engine state, the principal-variation stack, killers,
/// history and counter-move tables, the transposition table and the
/// attack tables.
pub struct SearchData {
    pub pos: Position,
    pub root_moves: Vec<RootMove>,
    pub current_depth: Depth,
    pub constraints: SearchConstraints,
    pub stats: SearchStats,
    pub state: EngineState,
    pub pv_stack: Vec<Vec<Move>>,
    pub search_stack: Vec<Node>,
    pub history: Vec<Score>,
    pub countermoves: Vec<Move>,
    pub tt: Table,
    pub tables: Tables,
    pub multi_pv: usize,
    pub null_move_enabled: bool,
}

impl SearchData {
    pub open spec fn wf(self) -> bool {
        &&& self.pos.wf()
        &&& self.tables.wf()
        &&& self.tt.wf()
        &&& self.pv_stack.len() == MAX_PLY + 2
        &&& forall|i: int| 0 <= i < self.pv_stack.len() ==> #[trigger] self.pv_stack[i].len() == MAX_PLY + 2
        &&& self.search_stack.len() == MAX_PLY + 2
        &&& self.history.len() == 1024
        &&& forall|i: int|
            0 <= i < 1024 ==> MIN_SCORE < #[trigger] self.history[i] < MAX_SCORE
        &&& self.countermoves.len() == 1024
        &&& self.multi_pv >= 1
    }

    /// A fresh search session standing on the starting position. The
    /// attack tables are built first; `None` only if no magic numbers
    /// were found, which the shipped seeds do not allow.
    pub fn new() -> (r: Option<SearchData>)
        ensures
            r matches Some(d) ==> d.wf(),
    {
        let tables = match crate::magics::build_tables(20230101, 19791211) {
            Some(t) => t,
            None => {
                return None;
            },
        };
        let mut pv_stack: Vec<Vec<Move>> = Vec::new();
        let mut i: usize = 0;
        while i < MAX_PLY + 2
            invariant
                pv_stack.len() == i,
                i <= MAX_PLY + 2,
                forall|j: int| 0 <= j < i ==> #[trigger] pv_stack[j].len() == MAX_PLY + 2,
        decreases MAX_PLY + 2 - i,
        {
            pv_stack.push(vec![NO_MOVE; MAX_PLY + 2]);
            i = i + 1;
        }
        let nd = Node::new();
        Some(
            SearchData {
                pos: start_position(),
                root_moves: Vec::new(),
                current_depth: 0,
                constraints: SearchConstraints::new(),
                stats: SearchStats::new(),
                state: EngineState::new(),
                pv_stack,
                search_stack: vec![nd; MAX_PLY + 2],
                history: vec![0; 1024],
                countermoves: vec![NO_MOVE; 1024],
                tt: Table::new(64 << 20),
                tables,
                multi_pv: 1,
                null_move_enabled: true,
            },
        )
    }

    /// Clears the per-search accumulators: the root moves, the current
    /// depth, the statistics and the whole principal-variation stack.
    /// The position, the constraints, the heuristic tables, the
    /// transposition table and the shared state all stay as they were.
    pub fn reset(&mut self)
        requires
            old(self).wf(),
        ensures
            final(self).wf(),
            final(self).root_moves@.len() == 0,
            final(self).current_depth == 0,
            final(self).stats.nodes == 0,
            final(self).stats.qnodes == 0,
            final(self).stats.pvnodes == 0,
            final(self).pos.eqv(old(self).pos),
            final(self).constraints == old(self).constraints,
            final(self).history == old(self).history,
            final(self).countermoves == old(self).countermoves,
            final(self).search_stack == old(self).search_stack,
            final(self).tt == old(self).tt,
            final(self).tables == old(self).tables,
            final(self).state == old(self).state,
            final(self).multi_pv == old(self).multi_pv,
            final(self).null_move_enabled == old(self).null_move_enabled,
            forall|r: int, i: int|
                0 <= r < MAX_PLY + 2 && 0 <= i < MAX_PLY + 2 ==> #[trigger] final(self).pv_stack[r][i]
                    == NO_MOVE,
    {
        self.root_moves = Vec::new();
        self.current_depth = 0;
        self.stats = SearchStats::new();
        let mut i: usize = 0;
        while i < MAX_PLY + 2
            invariant
                old(self).wf(),
                self.pos.eqv(old(self).pos),
                self.pos == old(self).pos,
                self.tables == old(self).tables,
                self.tt == old(self).tt,
                self.pv_stack.len() == MAX_PLY + 2,
                forall|j: int| 0 <= j < self.pv_stack.len() ==> #[trigger] self.pv_stack[j].len() == MAX_PLY + 2,
                self.search_stack == old(self).search_stack,
                self.history == old(self).history,
                self.countermoves == old(self).countermoves,
                self.multi_pv == old(self).multi_pv,
                self.constraints == old(self).constraints,
                self.state == old(self).state,
                self.null_move_enabled == old(self).null_move_enabled,
                self.root_moves@.len() == 0,
                self.current_depth == 0,
                self.stats.nodes == 0,
                self.stats.qnodes == 0,
                self.stats.pvnodes == 0,
                i <= MAX_PLY + 2,
                forall|r: int, j: int|
                    0 <= r < i && 0 <= j < MAX_PLY + 2 ==> #[trigger] self.pv_stack[r][j]
                        == NO_MOVE,
            decreases MAX_PLY + 2 - i,
        {
            self.pv_stack.set(i, vec![NO_MOVE; MAX_PLY + 2]);
            i = i + 1;
        }
    }

    /// Whether the search must stop now, from the engine state and the
    /// node budget.
    pub fn should_stop(&self) -> bool {
        let state = self.state.load();
        stop_decision(state, self.stats.nodes, self.constraints.node_limit, self.constraints.infinite)
    }

    /// The history table slot of a move: its piece code times 64 plus
    /// its target square, injective over distinct (piece, target)
    /// pairs.
    pub fn history_index(m: Move) -> (i: usize)
        ensures
            i < 1024,
            i == crate::movement::move_piece_spec(m) * 64 + crate::movement::move_to_spec(m),
    {
        crate::movegen::history_index_of(m)
    }

    /// Rewards a move that caused a cutoff: its history grows by the
    /// squared depth in plies, the whole table is halved toward zero
    /// when the entry outgrows the ceiling, and the move becomes the
    /// counter of the opponent's last move.
    pub fn record_success(&mut self, m: Move, d: SearchDepth)
        requires
            old(self).wf(),
            0 <= d <= MAX_DEPTH_FP,
        ensures
            final(self).wf(),
            final(self).pos.eqv(old(self).pos),
            final(self).pv_stack == old(self).pv_stack,
            final(self).search_stack == old(self).search_stack,
            final(self).root_moves == old(self).root_moves,
            final(self).tt == old(self).tt,
            final(self).stats == old(self).stats,
            final(self).constraints == old(self).constraints,
            final(self).current_depth == old(self).current_depth,
            final(self).multi_pv == old(self).multi_pv,
            final(self).state == old(self).state,
            final(self).tables == old(self).tables,
            final(self).null_move_enabled == old(self).null_move_enabled,
            ({
                let idx = spec_history_index(m);
                let v2 = spec_history_raise(old(self).history@[idx] as int, d as int);
                let mid = old(self).history@.update(idx, v2 as i32);
                &&& (v2 > MAX_HISTORY ==> (forall|j: int|
                    0 <= j < 1024 ==> final(self).history@[j] as int == spec_half(
                        (#[trigger] mid[j]) as int,
                    )))
                &&& (v2 <= MAX_HISTORY ==> final(self).history@ == mid)
            }),
            ({
                let lm = old(self).pos.last_mv;
                &&& (lm != NO_MOVE && lm != NULL_MOVE ==> final(self).countermoves@ == old(
                    self,
                ).countermoves@.update(spec_history_index(lm), m))
                &&& (lm == NO_MOVE || lm == NULL_MOVE ==> final(self).countermoves@ == old(
                    self,
                ).countermoves@)
            }),
    {
        let idx = SearchData::history_index(m);
        let plies = d / DEPTH_PLY;
        proof {
            assert(0 <= plies * plies <= 16129) by (nonlinear_arith)
                requires
                    0 <= plies <= 127,
            ;
        }
        let bump = plies * plies;
        let v = self.history[idx] + bump;
        let v2 = if v >= MAX_SCORE {
            MAX_SCORE - 1
        } else {
            v
        };
        self.history.set(idx, v2);
        proof {
            assert(self.history@ == old(self).history@.update(
                spec_history_index(m),
                spec_history_raise(old(self).history@[spec_history_index(m)] as int, d as int) as i32,
            ));
        }
        if v2 > MAX_HISTORY {
            let ghost mid = self.history@;
            let mut i: usize = 0;
            while i < 1024
                invariant
                    self.history.len() == 1024,
                    forall|j: int| 0 <= j < 1024 ==> MIN_SCORE < #[trigger] self.history[j] < MAX_SCORE,
                    i <= 1024,
                    forall|j: int|
                        0 <= j < i ==> self.history@[j] as int == spec_half(
                            (#[trigger] mid[j]) as int,
                        ),
                    forall|j: int| i <= j < 1024 ==> self.history@[j] == #[trigger] mid[j],
                    forall|j: int| 0 <= j < 1024 ==> MIN_SCORE < #[trigger] mid[j] < MAX_SCORE,
                    self.pos == old(self).pos,
                    self.pv_stack == old(self).pv_stack,
                    self.search_stack == old(self).search_stack,
                    self.root_moves == old(self).root_moves,
                    self.tt == old(self).tt,
                    self.stats == old(self).stats,
                    self.constraints == old(self).constraints,
                    self.current_depth == old(self).current_depth,
                    self.multi_pv == old(self).multi_pv,
                    self.tables == old(self).tables,
                    self.countermoves == old(self).countermoves,
                    self.state == old(self).state,
                    self.null_move_enabled == old(self).null_move_enabled,
                decreases 1024 - i,
            {
                let h = self.history[i];
                let h2 = if h >= 0 {
                    h / 2
                } else {
                    -((-h) / 2)
                };
                self.history.set(i, h2);
                i = i + 1;
            }
        }
        let lm = self.pos.last_move();
        if lm != NO_MOVE && lm != NULL_MOVE {
            let ci = SearchData::history_index(lm);
            self.countermoves.set(ci, m);
        }
    }

    /// Penalizes a quiet move that was searched before a cutoff: its
    /// history drops by the squared depth in plies, and the whole table
    /// is halved toward zero when the entry falls below the floor.
    pub fn record_failure(&mut self, m: Move, d: SearchDepth)
        requires
            old(self).wf(),
            0 <= d <= MAX_DEPTH_FP,
        ensures
            final(self).wf(),
            final(self).pos.eqv(old(self).pos),
            final(self).pv_stack == old(self).pv_stack,
            final(self).search_stack == old(self).search_stack,
            final(self).root_moves == old(self).root_moves,
            final(self).tt == old(self).tt,
            final(self).stats == old(self).stats,
            final(self).constraints == old(self).constraints,
            final(self).current_depth == old(self).current_depth,
            final(self).multi_pv == old(self).multi_pv,
            final(self).state == old(self).state,
            final(self).tables == old(self).tables,
            final(self).null_move_enabled == old(self).null_move_enabled,
            final(self).countermoves == old(self).countermoves,
            ({
                let idx = spec_history_index(m);
                let v2 = spec_history_lower(old(self).history@[idx] as int, d as int);
                let mid = old(self).history@.update(idx, v2 as i32);
                &&& (v2 < MIN_HISTORY ==> (forall|j: int|
                    0 <= j < 1024 ==> final(self).history@[j] as int == spec_half(
                        (#[trigger] mid[j]) as int,
                    )))
                &&& (v2 >= MIN_HISTORY ==> final(self).history@ == mid)
            }),
    {
        let idx = SearchData::history_index(m);
        let plies = d / DEPTH_PLY;
        proof {
            assert(0 <= plies * plies <= 16129) by (nonlinear_arith)
                requires
                    0 <= plies <= 127,
            ;
        }
        let bump = plies * plies;
        let v = self.history[idx] - bump;
        let v2 = if v <= MIN_SCORE {
            MIN_SCORE + 1
        } else {
            v
        };
        self.history.set(idx, v2);
        proof {
            assert(self.history@ == old(self).history@.update(
                spec_history_index(m),
                spec_history_lower(old(self).history@[spec_history_index(m)] as int, d as int) as i32,
            ));
        }
        if v2 < MIN_HISTORY {
            let ghost mid = self.history@;
            let mut i: usize = 0;
            while i < 1024
                invariant
                    self.history.len() == 1024,
                    forall|j: int| 0 <= j < 1024 ==> MIN_SCORE < #[trigger] self.history[j] < MAX_SCORE,
                    i <= 1024,
                    forall|j: int|
                        0 <= j < i ==> self.history@[j] as int == spec_half(
                            (#[trigger] mid[j]) as int,
                        ),
                    forall|j: int| i <= j < 1024 ==> self.history@[j] == #[trigger] mid[j],
                    forall|j: int| 0 <= j < 1024 ==> MIN_SCORE < #[trigger] mid[j] < MAX_SCORE,
                    self.pos == old(self).pos,
                    self.pv_stack == old(self).pv_stack,
                    self.search_stack == old(self).search_stack,
                    self.root_moves == old(self).root_moves,
                    self.tt == old(self).tt,
                    self.stats == old(self).stats,
                    self.constraints == old(self).constraints,
                    self.current_depth == old(self).current_depth,
                    self.multi_pv == old(self).multi_pv,
                    self.tables == old(self).tables,
                    self.countermoves == old(self).countermoves,
                    self.state == old(self).state,
                    self.null_move_enabled == old(self).null_move_enabled,
                decreases 1024 - i,
            {
                let h = self.history[i];
                let h2 = if h >= 0 {
                    h / 2
                } else {
                    -((-h) / 2)
                };
                self.history.set(i, h2);
                i = i + 1;
            }
        }
    }

    /// Clears the principal variation of this ply and the next: the
    /// diagonal cell of each of the two rows becomes the absent move
    /// and every other cell of the stack is kept.
    pub fn clear_pv(&mut self, ply: usize)
        requires
            old(self).wf(),
            ply <= MAX_PLY,
        ensures
            final(self).wf(),
            final(self).pos.eqv(old(self).pos),
            final(self).search_stack == old(self).search_stack,
            final(self).history == old(self).history,
            final(self).countermoves == old(self).countermoves,
            final(self).root_moves == old(self).root_moves,
            final(self).tt == old(self).tt,
            final(self).stats == old(self).stats,
            final(self).constraints == old(self).constraints,
            final(self).multi_pv == old(self).multi_pv,
            final(self).state == old(self).state,
            final(self).tables == old(self).tables,
            final(self).null_move_enabled == old(self).null_move_enabled,
            final(self).current_depth == old(self).current_depth,
            forall|r: int|
                0 <= r < MAX_PLY + 2 && r != ply && r != ply + 1 ==> final(self).pv_stack@[r]
                    == old(self).pv_stack@[r],
            final(self).pv_stack[ply as int][ply as int] == NO_MOVE,
            final(self).pv_stack[ply + 1 as int][ply + 1 as int] == NO_MOVE,
            forall|i: int|
                0 <= i < MAX_PLY + 2 && i != ply ==> #[trigger] final(self).pv_stack[ply as int][i]
                    == old(self).pv_stack[ply as int][i],
            forall|i: int|
                0 <= i < MAX_PLY + 2 && i != ply + 1 ==> #[trigger] final(self).pv_stack[ply
                    + 1 as int][i] == old(self).pv_stack[ply + 1 as int][i],
    {
        let mut row = vec![NO_MOVE; MAX_PLY + 2];
        let mut i: usize = 0;
        while i < MAX_PLY + 2
            invariant
                old(self).wf(),
                self == old(self),
                self.pv_stack.len() == MAX_PLY + 2,
                forall|j: int| 0 <= j < self.pv_stack.len() ==> #[trigger] self.pv_stack[j].len() == MAX_PLY + 2,
                row.len() == MAX_PLY + 2,
                ply <= MAX_PLY,
                i <= MAX_PLY + 2,
                forall|j: int| 0 <= j < i ==> row@[j] == self.pv_stack[ply as int][j],
            decreases MAX_PLY + 2 - i,
        {
            assert(ply < self.pv_stack@.len());
            assert(self.pv_stack[ply as int].len() == MAX_PLY + 2);
            let v = self.pv_stack[ply][i];
            row.set(i, v);
            i = i + 1;
        }
        row.set(ply, NO_MOVE);
        self.pv_stack.set(ply, row);
        assert(self.pv_stack[ply + 1 as int].len() == MAX_PLY + 2);
        let mut row2 = vec![NO_MOVE; MAX_PLY + 2];
        let mut i2: usize = 0;
        while i2 < MAX_PLY + 2
            invariant
                old(self).wf(),
                self.pv_stack.len() == MAX_PLY + 2,
                forall|j: int| 0 <= j < self.pv_stack.len() ==> #[trigger] self.pv_stack[j].len() == MAX_PLY + 2,
                self.pos == old(self).pos,
                self.search_stack == old(self).search_stack,
                self.history == old(self).history,
                self.countermoves == old(self).countermoves,
                self.root_moves == old(self).root_moves,
                self.tt == old(self).tt,
                self.stats == old(self).stats,
                self.constraints == old(self).constraints,
                self.multi_pv == old(self).multi_pv,
                self.state == old(self).state,
                self.tables == old(self).tables,
                self.null_move_enabled == old(self).null_move_enabled,
                self.current_depth == old(self).current_depth,
                self.pv_stack@[ply + 1 as int] == old(self).pv_stack@[ply + 1 as int],
                forall|r: int|
                    0 <= r < MAX_PLY + 2 && r != ply ==> self.pv_stack@[r] == old(
                        self,
                    ).pv_stack@[r],
                self.pv_stack[ply as int][ply as int] == NO_MOVE,
                forall|j: int|
                    0 <= j < MAX_PLY + 2 && j != ply ==> #[trigger] self.pv_stack[ply as int][j]
                        == old(self).pv_stack[ply as int][j],
                row2.len() == MAX_PLY + 2,
                ply <= MAX_PLY,
                i2 <= MAX_PLY + 2,
                forall|j: int| 0 <= j < i2 ==> row2@[j] == self.pv_stack[ply + 1 as int][j],
            decreases MAX_PLY + 2 - i2,
        {
            assert(ply + 1 < self.pv_stack@.len());
            assert(self.pv_stack[ply + 1 as int].len() == MAX_PLY + 2);
            let v2 = self.pv_stack[ply + 1][i2];
            row2.set(i2, v2);
            i2 = i2 + 1;
        }
        row2.set(ply + 1, NO_MOVE);
        self.pv_stack.set(ply + 1, row2);
    }

    /// The index of the first absent move in a row at or after `from`;
    /// the end of the stack when the row runs full.
    pub open spec fn spec_pv_terminator(row: Seq<Move>, from: int) -> int
        decreases MAX_PLY + 1 - from,
    {
        if from >= MAX_PLY + 1 {
            MAX_PLY + 1
        } else if row[from] == NO_MOVE {
            from
        } else {
            Self::spec_pv_terminator(row, from + 1)
        }
    }

    proof fn lemma_pv_terminator_at(row: Seq<Move>, from: int, i: int)
        requires
            0 <= from <= i <= MAX_PLY + 1,
            forall|j: int| from <= j < i ==> row[j] != NO_MOVE,
            i < MAX_PLY + 1 ==> row[i] == NO_MOVE,
        ensures
            Self::spec_pv_terminator(row, from) == i,
        decreases i - from,
    {
        if from < i {
            Self::lemma_pv_terminator_at(row, from + 1, i);
        }
    }

    /// Whether the cell of a stack row holds a move.
    fn pv_cell_filled(&self, r: usize, i: usize) -> (b: bool)
        requires
            self.wf(),
            r < MAX_PLY + 2,
            i < MAX_PLY + 2,
        ensures
            b == (self.pv_stack[r as int][i as int] != NO_MOVE),
    {
        proof {
            assert(self.pv_stack[r as int].len() == MAX_PLY + 2);
        }
        self.pv_stack[r][i] != NO_MOVE
    }

    /// Extends this ply's principal variation: its row becomes the
    /// chosen move followed by the next ply's variation up to its
    /// terminator, absent moves everywhere else; every other row is
    /// kept.
    pub fn update_pv(&mut self, ply: usize, m: Move)
        requires
            old(self).wf(),
            ply < MAX_PLY,
        ensures
            final(self).wf(),
            final(self).pos.eqv(old(self).pos),
            final(self).search_stack == old(self).search_stack,
            final(self).history == old(self).history,
            final(self).countermoves == old(self).countermoves,
            final(self).root_moves == old(self).root_moves,
            final(self).tt == old(self).tt,
            final(self).stats == old(self).stats,
            final(self).constraints == old(self).constraints,
            final(self).multi_pv == old(self).multi_pv,
            final(self).state == old(self).state,
            final(self).tables == old(self).tables,
            final(self).null_move_enabled == old(self).null_move_enabled,
            final(self).current_depth == old(self).current_depth,
            forall|r: int|
                0 <= r < MAX_PLY + 2 && r != ply ==> final(self).pv_stack@[r] == old(
                    self,
                ).pv_stack@[r],
            final(self).pv_stack[ply as int][ply as int] == m,
            ({
                let src = old(self).pv_stack[ply + 1 as int]@;
                let k = Self::spec_pv_terminator(src, ply + 1);
                &&& (forall|i: int|
                    ply + 1 <= i < k ==> #[trigger] final(self).pv_stack[ply as int][i] == src[i])
                &&& (forall|i: int|
                    0 <= i < MAX_PLY + 2 && i != ply && !(ply + 1 <= i < k)
                        ==> #[trigger] final(self).pv_stack[ply as int][i] == NO_MOVE)
            }),
    {
        let ghost src = self.pv_stack[ply + 1 as int]@;
        let mut row = vec![NO_MOVE; MAX_PLY + 2];
        row.set(ply, m);
        let mut i: usize = ply + 1;
        while i < MAX_PLY + 1 && self.pv_cell_filled(ply + 1, i)
            invariant
                old(self).wf(),
                self == old(self),
                src == self.pv_stack[ply + 1 as int]@,
                row.len() == MAX_PLY + 2,
                ply < MAX_PLY,
                ply + 1 <= i <= MAX_PLY + 1,
                row@[ply as int] == m,
                forall|j: int| ply + 1 <= j < i ==> #[trigger] row@[j] == src[j],
                forall|j: int| ply + 1 <= j < i ==> #[trigger] src[j] != NO_MOVE,
                forall|j: int|
                    0 <= j < MAX_PLY + 2 && j != ply && !(ply + 1 <= j < i) ==> #[trigger] row@[j]
                        == NO_MOVE,
            decreases MAX_PLY + 1 - i,
        {
            proof {
                assert(self.pv_stack[ply + 1 as int].len() == MAX_PLY + 2);
            }
            let next = self.pv_stack[ply + 1][i];
            row.set(i, next);
            i = i + 1;
        }
        proof {
            Self::lemma_pv_terminator_at(src, ply + 1, i as int);
        }
        self.pv_stack.set(ply, row);
    }

    /// Installs a new position to search from.
    pub fn set_position(&mut self, p: Position)
        requires
            old(self).wf(),
            p.wf(),
        ensures
            final(self).wf(),
            final(self).pos == p,
    {
        self.pos = p;
    }

    /// Starts a new game: the transposition table is emptied and the
    /// history and counter-move tables forget everything.
    pub fn new_game(&mut self)
        requires
            old(self).wf(),
        ensures
            final(self).wf(),
            final(self).pos.eqv(old(self).pos),
            forall|i: int| 0 <= i < 1024 ==> #[trigger] final(self).history[i] == 0,
            forall|i: int| 0 <= i < 1024 ==> #[trigger] final(self).countermoves[i] == NO_MOVE,
    {
        self.tt.clear();
        self.history = vec![0; 1024];
        self.countermoves = vec![NO_MOVE; 1024];
    }

    /// Replaces the transposition table with an empty one of the given
    /// byte budget.
    pub fn resize_tt(&mut self, bytes: usize)
        requires
            old(self).wf(),
        ensures
            final(self).wf(),
            final(self).pos.eqv(old(self).pos),
    {
        self.tt = Table::new(bytes);
    }

    /// The elapsed wall time of this search in milliseconds.
    pub fn elapsed(&self) -> u64 {
        elapsed_millis(&self.constraints.start_time)
    }
}

/// Clamps a wide intermediate value into the score range the search
/// returns.
fn clamp_score(v: i64) -> (s: Score)
    ensures
        -MATE_SCORE <= s <= MATE_SCORE,
        -MATE_SCORE <= v <= MATE_SCORE ==> s == v,
{
    if v < -MATE_SCORE as i64 {
        -MATE_SCORE
    } else if v > MATE_SCORE as i64 {
        MATE_SCORE
    } else {
        v as i32
    }
}

pub open spec fn spec_futility_margin(d: int) -> int {
    if d < DEPTH_PLY {
        65
    } else {
        85 + 15 * d / 4 + d * d / 8
    }
}

/// The futility margin of a remaining depth: wider the deeper the
/// search still has to go; a small constant inside quiescence.
pub fn futility_margin(d: SearchDepth) -> (m: Score)
    requires
        -1000 <= d <= MAX_DEPTH_FP,
    ensures
        0 <= m <= 40000,
        m == spec_futility_margin(d as int),
{
    if d < DEPTH_PLY {
        65
    } else {
        proof {
            assert(0 <= (d as i64) * (d as i64) <= 258064) by (nonlinear_arith)
                requires
                    4 <= d <= 508,
            ;
        }
        let sq: i64 = (d as i64) * (d as i64) / 8;
        let m: i64 = 85 + 15 * (d as i64) / 4 + sq;
        m as i32
    }
}

/// The late-move reduction formula, over the same inputs as the
/// executable function.
pub open spec fn spec_reduction(
    depth: int,
    searched_moves: int,
    searched_quiet_moves: int,
    bad_move: bool,
    special_move: bool,
) -> int {
    if searched_moves > 2 || searched_quiet_moves > 0 {
        let base = if searched_moves > 5 {
            depth / 5
        } else {
            DEPTH_PLY as int
        };
        let with_bad = if searched_moves > 6 && bad_move {
            base + DEPTH_PLY + (if searched_moves > 8 {
                2int
            } else {
                0int
            }) + (if searched_quiet_moves > 8 {
                2int
            } else {
                0int
            })
        } else {
            base
        };
        if special_move {
            with_bad / 2
        } else {
            with_bad
        }
    } else {
        0
    }
}

/// The late-move reduction of a searched move, in quarter plies.
pub fn reduction(
    depth: SearchDepth,
    searched_moves: usize,
    searched_quiet_moves: usize,
    bad_move: bool,
    special_move: bool,
) -> (r: SearchDepth)
    requires
        0 <= depth <= MAX_DEPTH_FP,
    ensures
        0 <= r <= 512,
        r == spec_reduction(
            depth as int,
            searched_moves as int,
            searched_quiet_moves as int,
            bad_move,
            special_move,
        ),
{
    let mut r: SearchDepth = 0;
    if searched_moves > 2 || searched_quiet_moves > 0 {
        r = if searched_moves > 5 {
            depth / 5
        } else {
            DEPTH_PLY
        };
        if searched_moves > 6 && bad_move {
            r = r + DEPTH_PLY;
            if searched_moves > 8 {
                r = r + 2;
            }
            if searched_quiet_moves > 8 {
                r = r + 2;
            }
        }
        if special_move {
            r = r / 2;
        }
    }
    r
}

/// The cached static exchange sign of a move: computed once and then
/// reused from the cache slot.
fn see_sign(data: &SearchData, m: Move, val: &mut Score) -> (v: Score)
    requires
        data.wf(),
    ensures
        -20000 <= v <= 20000,
        v == *final(val),
        *old(val) != MIN_SCORE && -20000 <= *old(val) <= 20000 ==> v == *old(val),
{
    if *val == MIN_SCORE {
        *val = data.pos.static_exchange_sign(&data.tables, m);
    } else if *val < -20000 {
        *val = -20000;
    } else if *val > 20000 {
        *val = 20000;
    }
    *val
}

/// The cached static exchange value of a move. The sign shortcut stores
/// 1, which is recomputed in full here when the exact value matters;
/// any other cached value is reused.
fn see_value(data: &SearchData, m: Move, val: &mut Score) -> (v: Score)
    requires
        data.wf(),
    ensures
        -20000 <= v <= 20000,
        v == *final(val),
        *old(val) != MIN_SCORE && *old(val) != 1 && -20000 <= *old(val) <= 20000 ==> v == *old(
            val,
        ),
{
    if *val == MIN_SCORE || *val == 1 {
        *val = data.pos.static_exchange_eval(&data.tables, m);
    } else if *val < -20000 {
        *val = -20000;
    } else if *val > 20000 {
        *val = 20000;
    }
    *val
}

/// Extracts the continuation of the current variation at `from_ply`.
fn collect_pv(data: &SearchData, from_ply: usize) -> (r: Vec<Move>)
    requires
        data.wf(),
        from_ply <= MAX_PLY,
    ensures
        r.len() <= MAX_PLY + 2,
{
    let mut pv: Vec<Move> = Vec::new();
    let mut i: usize = from_ply;
    while i < MAX_PLY + 1
        invariant
            data.wf(),
            from_ply <= i <= MAX_PLY + 1,
            pv.len() <= i,
        decreases MAX_PLY + 1 - i,
    {
        assert(i < data.pv_stack@.len());
        assert(data.pv_stack[1int].len() == MAX_PLY + 2);
        assert(data.pv_stack[i as int].len() == MAX_PLY + 2);
        let mv = data.pv_stack[1][i];
        if mv == NO_MOVE {
            break ;
        }
        pv.push(mv);
        i = i + 1;
    }
    pv
}

/// The recursive alpha-beta search. The result is a valid score; a
/// drawn position away from the root scores as an exact draw whenever
/// the mate-distance clamp leaves the window open; a window the clamp
/// closes returns the clamped alpha at once; the root move list keeps
/// its length; and the position is exactly as it was when the call
/// returns.
#[verifier::rlimit(100)]
pub fn search(
    data: &mut SearchData,
    ply: usize,
    alpha0: Score,
    beta0: Score,
    depth: SearchDepth,
) -> (r: Score)
    requires
        old(data).wf(),
        ply <= MAX_PLY,
        -1000 <= depth <= MAX_DEPTH_FP,
        MIN_SCORE <= alpha0 < beta0 <= MAX_SCORE,
    ensures
        final(data).wf(),
        final(data).pos.eqv(old(data).pos),
        final(data).root_moves.len() == old(data).root_moves.len(),
        MIN_SCORE <= r <= MAX_SCORE,
        ply >= 1 && old(data).pos.is_draw_spec() && spec_max(
            alpha0 as int,
            -MATE_SCORE + ply,
        ) < spec_min(beta0 as int, MATE_SCORE - ply - 1) ==> r == DRAW_SCORE,
        ply >= 1 && spec_max(alpha0 as int, -MATE_SCORE + ply) >= spec_min(
            beta0 as int,
            MATE_SCORE - ply - 1,
        ) ==> r == spec_max(alpha0 as int, -MATE_SCORE + ply),
    decreases 128 - ply, (if depth >= 0 { depth + 1 } else { 0 }) as int, 1int,
{
    data.clear_pv(if ply <= MAX_PLY {
        ply
    } else {
        MAX_PLY
    });
    if depth < DEPTH_PLY {
        return quiesce(data, ply, alpha0, beta0, depth);
    }
    let root_node = ply == 0;
    let mut alpha = alpha0;
    let mut beta = beta0;
    if !root_node {
        let mlow = crate::score::mated_in(ply);
        let mhigh = crate::score::mate_in(ply + 1);
        if alpha < mlow {
            alpha = mlow;
        }
        if beta > mhigh {
            beta = mhigh;
        }
        if alpha >= beta {
            return alpha;
        }
        if data.pos.is_draw() || ply >= MAX_PLY {
            return DRAW_SCORE;
        }
    }
    if data.should_stop() {
        return DRAW_SCORE;
    }
    let orig_alpha = alpha;
    let open_window = beta as i64 - alpha as i64 > 1;
    let mut tt_move: Move = NO_MOVE;
    let mut tt_score: Score = MIN_SCORE;
    let mut tt_score_type: u8 = crate::score::AT_MOST;
    if root_node {
        if data.root_moves.len() > 0 {
            tt_move = data.root_moves[0].m;
            let rs = data.root_moves[0].score;
            if -MATE_SCORE <= rs && rs <= MATE_SCORE {
                tt_score = rs;
            }
        }
    } else {
        match data.tt.get(data.pos.hash) {
            Some(entry) => {
                tt_move = entry.m;
                let raw = entry.score as Score;
                if -MATE_SCORE - 127 <= raw && raw <= MATE_SCORE + 127 {
                    let ts = score_from_tt(raw, ply);
                    if -MATE_SCORE <= ts && ts <= MATE_SCORE {
                        tt_score = ts;
                        tt_score_type = entry.score_type;
                        if entry.depth as i32 >= depth && !open_window {
                            if ts >= beta && tt_score_type & crate::score::AT_LEAST != 0 {
                                return ts;
                            }
                            if ts <= alpha && tt_score_type & crate::score::AT_MOST != 0 {
                                return ts;
                            }
                        }
                    }
                }
            },
            None => {},
        }
    }
    let in_check = data.pos.checkers(&data.tables) != 0;
    let mut lazy_score = crate::eval::lazy(&data.pos);
    if !in_check && tt_score != MIN_SCORE {
        if (tt_score > lazy_score && tt_score_type & crate::score::AT_LEAST != 0) || (tt_score
            < lazy_score && tt_score_type & crate::score::AT_MOST != 0) {
            lazy_score = tt_score;
        }
    }
    let non_pawn = data.pos.non_pawn_material(data.pos.us());
    // Reverse futility: a position already far above beta with depth to
    // spare is cut immediately.
    if !root_node && depth <= 5 * DEPTH_PLY && !in_check && non_pawn != 0 && (tt_move == NO_MOVE
        || tt_score > -MATE_SCORE + MAX_PLY as Score) {
        let margin = futility_margin(depth);
        let stand = lazy_score as i64 - 2 * margin as i64;
        if stand > beta as i64 {
            return clamp_score(stand);
        }
    }
    if data.null_move_enabled && !open_window && lazy_score as i64 + 200 > beta as i64
        && !crate::score::is_mate_score(beta) && !in_check && non_pawn != 0 && !root_node {
        // Null move: hand the opponent a free move; surviving above
        // beta proves the node safe.
        let u = data.pos.undo_state();
        data.pos.do_nullmove();
        // Reduction of (depth + 10) / 4 plies, plus up to a ply and a
        // half more the further the lazy score stands above beta.
        let mut null_r: SearchDepth = (depth + 10 * DEPTH_PLY) / 4;
        let gap = (lazy_score as i64 - beta as i64) / 25;
        let extra: SearchDepth = if gap <= 0 {
            0
        } else if gap >= 6 {
            6
        } else {
            gap as i32
        };
        null_r = null_r + extra;
        if null_r < 0 {
            null_r = 0;
        }
        let nd = if depth - null_r > -1000 {
            depth - null_r
        } else {
            -1000
        };
        let null_score = -search(data, ply + 1, -beta, -beta + 1, nd);
        data.pos.undo_move(u);
        if null_score >= beta {
            return beta;
        }
    } else if !open_window && data.pos.last_move() != NULL_MOVE && depth <= 14 && tt_move == NO_MOVE
        && !in_check && !crate::score::is_mate_score(beta) && !root_node {
        // Razoring: far below alpha with little depth left, fall into
        // quiescence.
        let razor_margin: Score = if depth <= 7 {
            300
        } else if depth <= 11 {
            300
        } else {
            325
        };
        if (lazy_score as i64 + razor_margin as i64) < beta as i64 {
            if depth <= DEPTH_PLY {
                return quiesce(data, ply, alpha, beta, 0);
            }
            let qbeta = clamp_score(beta as i64 - razor_margin as i64);
            if qbeta > MIN_SCORE + 1 {
                let qscore = quiesce(data, ply, qbeta - 1, qbeta, 0);
                if qscore < qbeta {
                    if alpha >= qscore {
                        return alpha;
                    }
                    return qscore;
                }
            }
        }
    }
    // Internal iterative deepening: a shallow search only to seed the
    // transposition move.
    if tt_move == NO_MOVE && !root_node {
        let margin = beta as i64 - lazy_score as i64;
        let want = (open_window && depth >= 5 * DEPTH_PLY && margin <= 300) || (!open_window
            && depth >= 8 * DEPTH_PLY && margin <= 150);
        if want {
            let iid_depth: SearchDepth = if open_window {
                4 * depth / 5 - 2 * DEPTH_PLY
            } else {
                2 * depth / 3 - 2 * DEPTH_PLY
            };
            proof {
                assert(4 * depth / 5 < depth && 2 * depth / 3 < depth) by (nonlinear_arith)
                    requires
                        depth >= 1,
                ;
            }
            let _ = search(data, ply, alpha, beta, iid_depth);
            match data.tt.get(data.pos.hash) {
                Some(entry) => {
                    tt_move = entry.m;
                },
                None => {
                    tt_move = NO_MOVE;
                },
            }
        }
    }
    let mut best_score: Score = MIN_SCORE;
    let mut best_move: Move = NO_MOVE;
    let ad = crate::position::AttackData::new(&data.pos, &data.tables);
    let node = data.search_stack[if ply < MAX_PLY + 2 {
        ply
    } else {
        0
    }];
    let cm: Move = {
        let lm = data.pos.last_move();
        if lm == NO_MOVE || lm == NULL_MOVE {
            NO_MOVE
        } else {
            data.countermoves[SearchData::history_index(lm)]
        }
    };
    let mut selector = if root_node {
        let mut ms: Vec<Move> = Vec::new();
        let mut ri: usize = 0;
        while ri < data.root_moves.len()
            invariant
                data.wf(),
                ri <= data.root_moves@.len(),
            decreases data.root_moves@.len() - ri,
        {
            ms.push(data.root_moves[ri].m);
            ri = ri + 1;
        }
        crate::movegen::MoveSelector::from_list(ms)
    } else {
        crate::movegen::MoveSelector::new(
            &data.pos,
            &data.tables,
            false,
            node.killer1,
            node.killer2,
            tt_move,
            cm,
            &data.history,
        )
    };
    let mut searched_moves: usize = 0;
    let mut searched_quiets: Vec<Move> = Vec::new();
    loop
        invariant
            data.wf(),
            data.pos.eqv(old(data).pos),
            selector.wf(),
            ply <= MAX_PLY,
            root_node == (ply == 0),
            !root_node ==> ply < MAX_PLY,
            4 <= depth <= MAX_DEPTH_FP,
            MIN_SCORE <= alpha < beta <= MAX_SCORE,
            alpha < beta,
            searched_moves <= 100000,
            searched_quiets.len() <= 128,
            MIN_SCORE <= best_score <= MAX_SCORE,
            orig_alpha <= alpha,
            MIN_SCORE <= orig_alpha,
            ad.wf(),
            ply >= 1 ==> !old(data).pos.is_draw_spec(),
            ply >= 1 ==> spec_max(alpha0 as int, -MATE_SCORE + ply) < spec_min(
                beta0 as int,
                MATE_SCORE - ply - 1,
            ),
            data.root_moves.len() == old(data).root_moves.len(),
        decreases selector.moves@.len() - selector.idx,
    {
        let next = selector.next();
        let m = match next {
            Some(m) => m,
            None => {
                break ;
            },
        };
        if searched_moves >= 90000 {
            break ;
        }
        let mut root_idx: usize = 0;
        if root_node {
            let mut found = false;
            let mut j: usize = 0;
            while j < data.root_moves.len()
                invariant
                    data.wf(),
                    j <= data.root_moves@.len(),
                    found ==> root_idx < data.root_moves@.len(),
                decreases data.root_moves@.len() - j,
            {
                if data.root_moves[j].m == m {
                    root_idx = j;
                    found = true;
                    break ;
                }
                j = j + 1;
            }
            if !found {
                continue ;
            }
        }
        let pt_idx = (crate::movement::move_piece(m) % 8) as usize;
        let from_sq = crate::movement::move_from(m);
        let to_sq = crate::movement::move_to(m);
        let gives_check = !crate::movement::move_is_castle(m) && !crate::movement::move_is_ep(m)
            && pt_idx < 7 && ((ad.potential_checks[pt_idx] >> (to_sq as u64)) & 1 == 1 || ((
        ad.check_discoverers >> (from_sq as u64)) & 1 == 1 && ad.their_king < 64 && (data.tables.ray(
            from_sq,
            to_sq,
        ) >> (ad.their_king as u64)) & 1 == 0));
        let promote = crate::movement::move_promote(m);
        let rel_rank: u8 = if data.pos.stm == Color::White {
            to_sq / 8
        } else {
            7 - to_sq / 8
        };
        let deep_pawn = pt_idx == 1 && rel_rank >= 6 && (promote == 0 || promote == 5);
        let quiet_move = !crate::movement::move_is_capture(m) && promote != 5;
        let late_move = {
            proof {
                assert(0 <= (depth as i64 / 4) * (depth as i64 / 4) <= 16129) by (nonlinear_arith)
                    requires
                        4 <= depth <= 508,
                ;
            }
            let dd = (depth as i64 / 4) * (depth as i64 / 4) + 1;
            searched_moves as i64 > dd
        };
        let mut see = selector.last_see();
        let ext: SearchDepth = if (gives_check || deep_pawn) && see_sign(data, m, &mut see) >= 0 {
            DEPTH_PLY
        } else {
            0
        };
        // Shallow-frontier pruning of unpromising moves.
        if !root_node && ext == 0 && depth < 10 * DEPTH_PLY && (!in_check
            || (!crate::movement::move_is_capture(m) && best_score > -MATE_SCORE + MAX_PLY as Score))
            && searched_moves >= (depth / DEPTH_PLY) as usize && promote != 5 && best_score
            > -MATE_SCORE + MAX_PLY as Score && !selector.special_move() {
            if quiet_move && depth <= 4 * DEPTH_PLY && data.history[SearchData::history_index(m)]
                < 0 {
                continue ;
            }
            if depth <= 5 * DEPTH_PLY {
                let fm = futility_margin(depth);
                let lhs = lazy_score as i64 + see_value(data, m, &mut see) as i64 + fm as i64;
                let rhs = alpha as i64 + 2 * searched_moves as i64;
                if lhs < rhs {
                    continue ;
                }
            }
            if (late_move || depth <= 2 * DEPTH_PLY) && see_value(data, m, &mut see) < 0 {
                continue ;
            }
            let deep_thresh = {
                let dp = depth as i64;
                proof {
                    assert(0 <= (15 * dp / 4 + 5) * dp <= 2000000) by (nonlinear_arith)
                        requires
                            4 <= dp <= 508,
                    ;
                }
                -((15 * dp / 4 + 5) * dp / 4)
            };
            if (see_value(data, m, &mut see) as i64) < deep_thresh {
                continue ;
            }
        }
        if !crate::movegen::pseudo_move_is_legal(&data.pos, &data.tables, &ad, m) {
            continue ;
        }
        let u = data.pos.undo_state();
        data.pos.do_move(&data.tables, m);
        if data.stats.nodes < u64::MAX {
            data.stats.nodes = data.stats.nodes + 1;
        }
        searched_moves = searched_moves + 1;
        let mut full_search = searched_moves == 1 || (root_node && searched_moves <= data.multi_pv);
        let mut score: Score = MIN_SCORE;
        let child_depth = {
            let cd = depth + ext - DEPTH_PLY;
            if cd < -1000 {
                -1000
            } else {
                cd
            }
        };
        if !full_search {
            let lmr_red = reduction(
                depth,
                searched_moves,
                searched_quiets.len(),
                selector.bad_move() || see_sign(data, m, &mut see) < 0,
                selector.special_move(),
            );
            if lmr_red >= DEPTH_PLY {
                let rd = {
                    let v = depth + ext - lmr_red - DEPTH_PLY;
                    if v < -1000 {
                        -1000
                    } else {
                        v
                    }
                };
                score = -search(data, ply + 1, -alpha - 1, -alpha, rd);
            } else {
                score = if alpha < MAX_SCORE {
                    alpha + 1
                } else {
                    MAX_SCORE
                };
            }
            if score > alpha {
                score = -search(data, ply + 1, -alpha - 1, -alpha, child_depth);
                if open_window && score > alpha {
                    full_search = true;
                }
            }
        }
        if full_search {
            score = -search(data, ply + 1, -beta, -alpha, child_depth);
        }
        data.pos.undo_move(u);
        if quiet_move && searched_quiets.len() < 127 {
            searched_quiets.push(m);
        }
        // An abort invalidates the score of the unfinished move.
        if data.should_stop() {
            return DRAW_SCORE;
        }
        if root_node && root_idx < data.root_moves.len() {
            let rm_old_m = data.root_moves[root_idx].m;
            let mut new_rm = RootMove::new(rm_old_m);
            new_rm.depth = (depth / DEPTH_PLY) as usize;
            if full_search || score > alpha {
                new_rm.score = score;
                new_rm.pv = collect_pv(data, 1);
            }
            data.root_moves.set(root_idx, new_rm);
        }
        if score > best_score {
            best_score = score;
            best_move = m;
            if score > alpha {
                alpha = score;
                if open_window && ply < MAX_PLY {
                    data.update_pv(ply, m);
                }
            }
            if score >= beta {
                if !crate::movement::move_is_capture(m) && promote == 0 && !in_check {
                    let k1 = node.killer1;
                    if k1 != m && ply < MAX_PLY + 2 {
                        data.search_stack.set(ply, Node { killer1: m, killer2: k1 });
                    }
                    data.record_success(m, if depth >= 0 {
                        depth
                    } else {
                        0
                    });
                    let mut qi: usize = 0;
                    while qi + 1 < searched_quiets.len()
                        invariant
                            data.wf(),
                            data.pos.eqv(old(data).pos),
                            data.root_moves.len() == old(data).root_moves.len(),
                            searched_quiets.len() <= 128,
                            0 <= depth <= MAX_DEPTH_FP,
                            qi <= searched_quiets@.len(),
                        decreases searched_quiets@.len() - qi,
                    {
                        data.record_failure(searched_quiets[qi], depth);
                        qi = qi + 1;
                    }
                }
                if -MATE_SCORE <= score && score <= MATE_SCORE {
                    let stored = score_to_tt(score, ply);
                    data.tt.put(
                        data.pos.hash,
                        m,
                        (if depth <= 32767 {
                            depth
                        } else {
                            32767
                        }) as i16,
                        stored as i16,
                        crate::score::AT_LEAST,
                    );
                }
                return beta;
            }
        }
    }
    if searched_moves == 0 {
        // No legal move: mate when in check, stalemate otherwise. The
        // selector only skips moves whose legality was actually tested.
        best_score = if in_check {
            crate::score::mated_in(ply)
        } else {
            DRAW_SCORE
        };
    }
    let final_score = clamp_score(best_score as i64);
    let bound = if final_score <= orig_alpha {
        crate::score::AT_MOST
    } else {
        crate::score::EXACT
    };
    let stored = score_to_tt(final_score, ply);
    data.tt.put(
        data.pos.hash,
        best_move,
        (if depth <= 32767 {
            depth
        } else {
            32767
        }) as i16,
        stored as i16,
        bound,
    );
    final_score
}

/// The quiescence search: only tactical moves, standing pat on the
/// static evaluation. Same guarantees as the main search, with the
/// mate-distance clamp applying at every ply.
#[verifier::rlimit(100)]
pub fn quiesce(
    data: &mut SearchData,
    ply: usize,
    alpha0: Score,
    beta0: Score,
    depth: SearchDepth,
) -> (r: Score)
    requires
        old(data).wf(),
        ply <= MAX_PLY,
        -1000 <= depth <= MAX_DEPTH_FP,
        MIN_SCORE <= alpha0 < beta0 <= MAX_SCORE,
    ensures
        final(data).wf(),
        final(data).pos.eqv(old(data).pos),
        final(data).root_moves.len() == old(data).root_moves.len(),
        MIN_SCORE <= r <= MAX_SCORE,
        ply >= 1 && old(data).pos.is_draw_spec() && spec_max(
            alpha0 as int,
            -MATE_SCORE + ply,
        ) < spec_min(beta0 as int, MATE_SCORE - ply - 1) ==> r == DRAW_SCORE,
        spec_max(alpha0 as int, -MATE_SCORE + ply) >= spec_min(
            beta0 as int,
            MATE_SCORE - ply - 1,
        ) ==> r == spec_max(alpha0 as int, -MATE_SCORE + ply),
    decreases 128 - ply, (if depth >= 0 { depth + 1 } else { 0 }) as int, 0int,
{
    data.clear_pv(if ply <= MAX_PLY {
        ply
    } else {
        MAX_PLY
    });
    let mut alpha = alpha0;
    let mut beta = beta0;
    let mlow = crate::score::mated_in(ply);
    let mhigh = crate::score::mate_in(ply + 1);
    if alpha < mlow {
        alpha = mlow;
    }
    if beta > mhigh {
        beta = mhigh;
    }
    if alpha >= beta {
        return alpha;
    }
    if data.pos.is_draw() {
        return DRAW_SCORE;
    }
    if ply >= MAX_PLY {
        return DRAW_SCORE;
    }
    let open_window = beta as i64 - alpha as i64 > 1;
    let orig_alpha = alpha;
    let mut tt_move: Move = NO_MOVE;
    let mut tt_score: Score = MIN_SCORE;
    let mut tt_score_type: u8 = 0;
    match data.tt.get(data.pos.hash) {
        Some(entry) => {
            tt_move = entry.m;
            let raw = entry.score as Score;
            if -MATE_SCORE - 127 <= raw && raw <= MATE_SCORE + 127 {
                let ts = score_from_tt(raw, ply);
                if -MATE_SCORE <= ts && ts <= MATE_SCORE {
                    tt_score = ts;
                    tt_score_type = entry.score_type;
                    if !open_window && entry.depth >= 0 {
                        if ts >= beta && tt_score_type & crate::score::AT_LEAST != 0 {
                            return ts;
                        }
                        if ts <= alpha && tt_score_type & crate::score::AT_MOST != 0 {
                            return ts;
                        }
                    }
                }
            }
        },
        None => {},
    }
    let mut best_move: Move = NO_MOVE;
    let mut best_score: Score = MIN_SCORE;
    let mut static_eval = crate::eval::full(&data.pos);
    let in_check = data.pos.checkers(&data.tables) != 0;
    if !in_check {
        best_score = static_eval;
        if best_score >= alpha {
            alpha = best_score;
            if tt_score != MIN_SCORE && ((tt_score > best_score && tt_score_type
                & crate::score::AT_LEAST != 0) || (tt_score < best_score && tt_score_type
                & crate::score::AT_MOST != 0)) {
                best_score = tt_score;
                static_eval = tt_score;
            }
            if best_score >= beta {
                return beta;
            }
            if alpha >= beta {
                return beta;
            }
        }
    }
    let ad = crate::position::AttackData::new(&data.pos, &data.tables);
    let node = data.search_stack[if ply < MAX_PLY + 2 {
        ply
    } else {
        0
    }];
    let mut selector = crate::movegen::MoveSelector::new(
        &data.pos,
        &data.tables,
        true,
        node.killer1,
        node.killer2,
        tt_move,
        NO_MOVE,
        &data.history,
    );
    let mut num_moves: usize = 0;
    loop
        invariant
            data.wf(),
            data.pos.eqv(old(data).pos),
            selector.wf(),
            ply < MAX_PLY,
            -1000 <= depth <= MAX_DEPTH_FP,
            MIN_SCORE <= alpha < beta <= MAX_SCORE,
            MIN_SCORE <= orig_alpha,
            num_moves <= 100000,
            MIN_SCORE <= best_score <= MAX_SCORE,
            ad.wf(),
            !old(data).pos.is_draw_spec(),
            spec_max(alpha0 as int, -MATE_SCORE + ply) < spec_min(
                beta0 as int,
                MATE_SCORE - ply - 1,
            ),
            data.root_moves.len() == old(data).root_moves.len(),
        decreases selector.moves@.len() - selector.idx,
    {
        let next = selector.next();
        let m = match next {
            Some(m) => m,
            None => {
                break ;
            },
        };
        if num_moves >= 90000 {
            break ;
        }
        let pt_idx = (crate::movement::move_piece(m) % 8) as usize;
        let from_sq = crate::movement::move_from(m);
        let to_sq = crate::movement::move_to(m);
        let gives_check = !crate::movement::move_is_castle(m) && !crate::movement::move_is_ep(m)
            && pt_idx < 7 && ((ad.potential_checks[pt_idx] >> (to_sq as u64)) & 1 == 1 || ((
        ad.check_discoverers >> (from_sq as u64)) & 1 == 1 && ad.their_king < 64 && (data.tables.ray(
            from_sq,
            to_sq,
        ) >> (ad.their_king as u64)) & 1 == 0));
        let see_v = data.pos.static_exchange_eval(&data.tables, m);
        let promote = crate::movement::move_promote(m);
        let is_cap = crate::movement::move_is_capture(m);
        if !gives_check && (!in_check || (!is_cap && best_score > -MATE_SCORE + MAX_PLY as Score))
            && promote != 5 {
            let fm = futility_margin(depth);
            if ((static_eval as i64) + see_v as i64 + fm as i64) < alpha as i64 {
                continue ;
            }
        }
        if !in_check && see_v < 0 {
            continue ;
        }
        if !crate::movegen::pseudo_move_is_legal(&data.pos, &data.tables, &ad, m) {
            continue ;
        }
        let u = data.pos.undo_state();
        data.pos.do_move(&data.tables, m);
        if data.stats.nodes < u64::MAX {
            data.stats.nodes = data.stats.nodes + 1;
        }
        num_moves = num_moves + 1;
        let nd = if depth - DEPTH_PLY >= -1000 {
            depth - DEPTH_PLY
        } else {
            -1000
        };
        let score = -quiesce(data, ply + 1, -beta, -alpha, nd);
        data.pos.undo_move(u);
        if data.should_stop() {
            return DRAW_SCORE;
        }
        if score > best_score {
            best_score = score;
            best_move = m;
            if score > alpha {
                alpha = score;
                if open_window && ply < MAX_PLY {
                    data.update_pv(ply, m);
                }
            }
            if score >= beta {
                if -MATE_SCORE <= score && score <= MATE_SCORE {
                    let stored = score_to_tt(score, ply);
                    data.tt.put(data.pos.hash, m, 0, stored as i16, crate::score::AT_LEAST);
                }
                return beta;
            }
        }
    }
    // Checkmate shows up here because check evasions are always
    // generated; stalemate cannot be told apart from a quiet position.
    if num_moves == 0 && in_check {
        best_score = crate::score::mated_in(ply);
    }
    let final_score = clamp_score(best_score as i64);
    let bound = if final_score <= orig_alpha {
        crate::score::AT_MOST
    } else {
        crate::score::EXACT
    };
    let stored = score_to_tt(final_score, ply);
    data.tt.put(data.pos.hash, best_move, 0, stored as i16, bound);
    final_score
}

/// Whether another deepening iteration should start, from everything
/// the decision depends on: never past the maximal depth, always while
/// pondering, never once stopped, always in infinite mode, within the
/// depth limit, and — under the timer — only while less than the soft
/// budget has elapsed.
pub fn should_deepen_decision(
    current_depth: usize,
    state: usize,
    stop: bool,
    infinite: bool,
    depth_limit: usize,
    use_timer: bool,
    elapsed: u64,
    soft_limit: u64,
) -> (r: bool)
    ensures
        r == (current_depth != MAX_PLY - 1 && (state == PONDERING_STATE || (!stop && (infinite || (
        depth_limit >= current_depth && (!use_timer || elapsed <= soft_limit)))))),
{
    if current_depth == MAX_PLY - 1 {
        return false;
    }
    if state == PONDERING_STATE {
        return true;
    }
    if stop {
        return false;
    }
    if infinite {
        return true;
    }
    if depth_limit < current_depth {
        return false;
    }
    if !use_timer {
        return true;
    }
    elapsed <= soft_limit
}

/// Root move `a` may stand before `b`: deeper first, then the better
/// score.
pub open spec fn spec_root_ordered(a_depth: int, a_score: int, b_depth: int, b_score: int) -> bool {
    a_depth > b_depth || (a_depth == b_depth && a_score >= b_score)
}

/// The root move list is sorted by depth reached and then by score,
/// both descending.
pub open spec fn spec_roots_sorted(v: Seq<RootMove>) -> bool {
    forall|i: int, j: int|
        0 <= i < j < v.len() ==> spec_root_ordered(
            (#[trigger] v[i]).depth as int,
            v[i].score as int,
            (#[trigger] v[j]).depth as int,
            v[j].score as int,
        )
}

fn root_move_orders_before(a_depth: usize, a_score: Score, b_depth: usize, b_score: Score) -> (r:
    bool)
    ensures
        r == spec_root_ordered(a_depth as int, a_score as int, b_depth as int, b_score as int),
{
    a_depth > b_depth || (a_depth == b_depth && a_score >= b_score)
}

/// True when the entry before `j` must move behind the entry at `j`.
fn root_needs_swap(moves: &Vec<RootMove>, j: usize) -> (r: bool)
    requires
        0 < j < moves.len(),
    ensures
        r == !spec_root_ordered(
            moves@[j - 1].depth as int,
            moves@[j - 1].score as int,
            moves@[j as int].depth as int,
            moves@[j as int].score as int,
        ),
{
    let prev = &moves[j - 1];
    let cur = &moves[j];
    !root_move_orders_before(prev.depth, prev.score, cur.depth, cur.score)
}

/// Sorts the root moves by depth reached and then by score, both
/// descending, so the best known move stands first: the result is a
/// sorted permutation of the input.
pub fn sort_root_moves(moves: &mut Vec<RootMove>)
    ensures
        final(moves).len() == old(moves).len(),
        spec_roots_sorted(final(moves)@),
        final(moves)@.to_multiset() == old(moves)@.to_multiset(),
{
    let n = moves.len();
    let mut i: usize = 1;
    while i < n
        invariant
            moves.len() == n,
            1 <= i,
            n > 0 ==> i <= n,
            moves@.to_multiset() == old(moves)@.to_multiset(),
            i <= n ==> spec_roots_sorted(moves@.take(i as int)),
        decreases n - i,
    {
        proof {
            assert forall|a: int, b: int| 0 <= a < b < i implies spec_root_ordered(
                (#[trigger] moves@[a]).depth as int,
                moves@[a].score as int,
                (#[trigger] moves@[b]).depth as int,
                moves@[b].score as int,
            ) by {
                assert(moves@.take(i as int)[a] == moves@[a]);
                assert(moves@.take(i as int)[b] == moves@[b]);
            }
        }
        let mut j: usize = i;
        while j > 0 && root_needs_swap(moves, j)
            invariant
                moves.len() == n,
                j <= i < n,
                moves@.to_multiset() == old(moves)@.to_multiset(),
                forall|a: int, b: int|
                    0 <= a < b <= i && a != j && b != j ==> spec_root_ordered(
                        (#[trigger] moves@[a]).depth as int,
                        moves@[a].score as int,
                        (#[trigger] moves@[b]).depth as int,
                        moves@[b].score as int,
                    ),
                forall|b: int|
                    j < b <= i ==> spec_root_ordered(
                        moves@[j as int].depth as int,
                        moves@[j as int].score as int,
                        (#[trigger] moves@[b]).depth as int,
                        moves@[b].score as int,
                    ),
            decreases j,
        {
            let ghost before = moves@;
            let x = moves.remove(j);
            moves.insert(j - 1, x);
            proof {
                broadcast use vstd::seq_lib::group_to_multiset_ensures, vstd::seq_lib::to_multiset_insert, vstd::multiset::group_multiset_axioms;

                assert(moves@.to_multiset() =~= before.to_multiset());
                assert forall|k: int| 0 <= k < n && k != j && k != j - 1 implies moves@[k]
                    == before[k] by {}
                assert(moves@[j - 1] == before[j as int]);
                assert(moves@[j as int] == before[j - 1]);
            }
            j = j - 1;
        }
        proof {
            assert forall|a: int, b: int| 0 <= a < b <= i implies spec_root_ordered(
                (#[trigger] moves@[a]).depth as int,
                moves@[a].score as int,
                (#[trigger] moves@[b]).depth as int,
                moves@[b].score as int,
            ) by {
                if a == j && b > j {
                } else if b == j {
                    assert(j > 0);
                    assert(spec_root_ordered(
                        moves@[j - 1].depth as int,
                        moves@[j - 1].score as int,
                        moves@[j as int].depth as int,
                        moves@[j as int].score as int,
                    ));
                    if a < j - 1 {
                        assert(spec_root_ordered(
                            moves@[a].depth as int,
                            moves@[a].score as int,
                            moves@[j - 1].depth as int,
                            moves@[j - 1].score as int,
                        ));
                    }
                }
            }
            assert forall|a: int, b: int| 0 <= a < b < i + 1 implies spec_root_ordered(
                (#[trigger] moves@.take(i + 1)[a]).depth as int,
                moves@.take(i + 1)[a].score as int,
                (#[trigger] moves@.take(i + 1)[b]).depth as int,
                moves@.take(i + 1)[b].score as int,
            ) by {
                assert(moves@.take(i + 1)[a] == moves@[a]);
                assert(moves@.take(i + 1)[b] == moves@[b]);
            }
        }
        i = i + 1;
    }
    proof {
        if n == 0 {
            assert(spec_roots_sorted(moves@)) by {
                assert(moves@.len() == 0);
            }
        } else {
            assert(i == n);
            assert(moves@.take(n as int) =~= moves@);
        }
    }
}

/// The widening schedule of the aspiration window.
fn aspire_margin(failures: usize) -> (m: Score)
    ensures
        10 <= m <= 600,
{
    if failures == 0 {
        10
    } else if failures == 1 {
        35
    } else if failures == 2 {
        75
    } else if failures == 3 {
        300
    } else {
        600
    }
}

/// The iterative deepening loop: searches each depth in turn inside an
/// aspiration window around the previous score, widening the violated
/// side on failure, and keeps the root moves sorted best first: on
/// return the root list is a sorted permutation, by depth reached and
/// then score, both descending, of what each iteration left, so the
/// first root move is the best of the deepest completed iteration.
pub fn deepening_search(data: &mut SearchData)
    requires
        old(data).wf(),
    ensures
        final(data).wf(),
        final(data).pos.eqv(old(data).pos),
        final(data).root_moves.len() == old(data).root_moves.len(),
        spec_roots_sorted(final(data).root_moves@),
{
    sort_root_moves(&mut data.root_moves);
    let mut cur: usize = 1;
    data.current_depth = 1;
    let mut alpha: Score = MIN_SCORE;
    let mut beta: Score = MAX_SCORE;
    let mut last_score: Score = 0;
    let mut rounds: usize = 0;
    while rounds < MAX_PLY
        invariant
            data.wf(),
            data.pos.eqv(old(data).pos),
            data.root_moves.len() == old(data).root_moves.len(),
            spec_roots_sorted(data.root_moves@),
            MIN_SCORE <= alpha < beta <= MAX_SCORE,
            MIN_SCORE <= last_score <= MAX_SCORE,
            1 <= cur <= MAX_PLY,
            rounds <= MAX_PLY,
        decreases MAX_PLY - rounds,
    {
        data.current_depth = cur;
        let state = data.state.load();
        let stop = data.should_stop();
        let elapsed = data.elapsed();
        if !should_deepen_decision(
            cur,
            state,
            stop,
            data.constraints.infinite,
            data.constraints.depth_limit,
            data.constraints.use_timer,
            elapsed,
            data.constraints.soft_limit,
        ) {
            return ;
        }
        if cur > 5 && data.multi_pv == 1 {
            let a = last_score as i64 - 10;
            let b = last_score as i64 + 10;
            alpha = if a < MIN_SCORE as i64 {
                MIN_SCORE
            } else {
                a as i32
            };
            beta = if b > MAX_SCORE as i64 {
                MAX_SCORE
            } else {
                b as i32
            };
        } else {
            alpha = MIN_SCORE;
            beta = MAX_SCORE;
        }
        let mut fail_lows: usize = 0;
        let mut fail_highs: usize = 0;
        let mut attempt: usize = 0;
        while attempt < 16
            invariant
                data.wf(),
                data.pos.eqv(old(data).pos),
                data.root_moves.len() == old(data).root_moves.len(),
                spec_roots_sorted(data.root_moves@),
                MIN_SCORE <= alpha < beta <= MAX_SCORE,
                MIN_SCORE <= last_score <= MAX_SCORE,
                1 <= cur <= MAX_PLY,
                fail_lows <= 16,
                fail_highs <= 16,
                attempt <= 16,
            decreases 16 - attempt,
        {
            let sd: SearchDepth = (cur as SearchDepth) * DEPTH_PLY;
            last_score = search(data, 0, alpha, beta, sd);
            sort_root_moves(&mut data.root_moves);
            if data.should_stop() {
                return ;
            }
            if last_score <= alpha {
                fail_lows = if fail_lows < 16 {
                    fail_lows + 1
                } else {
                    16
                };
                fail_highs = 0;
                if fail_lows >= 5 {
                    alpha = MIN_SCORE;
                } else {
                    let a = last_score as i64 - aspire_margin(fail_lows) as i64;
                    alpha = if a < MIN_SCORE as i64 {
                        MIN_SCORE
                    } else {
                        a as i32
                    };
                }
            } else if last_score >= beta {
                fail_highs = if fail_highs < 16 {
                    fail_highs + 1
                } else {
                    16
                };
                fail_lows = 0;
                if fail_highs >= 5 {
                    beta = MAX_SCORE;
                } else {
                    let b = last_score as i64 + aspire_margin(fail_highs) as i64;
                    beta = if b > MAX_SCORE as i64 {
                        MAX_SCORE
                    } else {
                        b as i32
                    };
                }
            } else {
                break ;
            }
            if alpha >= beta {
                alpha = MIN_SCORE;
                beta = MAX_SCORE;
            }
            attempt = attempt + 1;
        }
        if cur < MAX_PLY {
            cur = cur + 1;
        }
        data.current_depth = cur;
        rounds = rounds + 1;
    }
}

/// Prepares the root of a search: resets the accumulators, fills the
/// root move list from the explicit search moves or from every legal
/// move, and opens a new transposition generation. Every root entry is
/// fresh, and with explicit search moves every entry comes from that
/// list. False when there is nothing to search, in which case no move
/// must be reported.
pub fn prepare_search(data: &mut SearchData) -> (has_moves: bool)
    requires
        old(data).wf(),
    ensures
        final(data).wf(),
        final(data).pos.eqv(old(data).pos),
        has_moves == (final(data).root_moves.len() > 0),
        final(data).current_depth == 0,
        final(data).stats.nodes == 0,
        final(data).constraints == old(data).constraints,
        final(data).history == old(data).history,
        final(data).countermoves == old(data).countermoves,
        final(data).search_stack == old(data).search_stack,
        final(data).tt.entries@ == old(data).tt.entries@,
        final(data).tables == old(data).tables,
        forall|i: int|
            0 <= i < final(data).root_moves.len() ==> (#[trigger] final(data).root_moves[i]).score
                == MIN_SCORE && final(data).root_moves[i].depth == 0
                && final(data).root_moves[i].pv.len() == 0,
        old(data).constraints.searchmoves.len() > 0 ==> forall|i: int|
            0 <= i < final(data).root_moves.len() ==> old(data).constraints.searchmoves@.contains(
                (#[trigger] final(data).root_moves[i]).m,
            ),
{
    data.reset();
    let legal = crate::movegen::legal_moves(&data.pos, &data.tables);
    let use_all = data.constraints.searchmoves.len() == 0;
    let mut i: usize = 0;
    while i < legal.len()
        invariant
            data.wf(),
            data.pos.eqv(old(data).pos),
            data.current_depth == 0,
            data.stats.nodes == 0,
            data.constraints == old(data).constraints,
            data.history == old(data).history,
            data.countermoves == old(data).countermoves,
            data.search_stack == old(data).search_stack,
            data.tt == old(data).tt,
            data.tables == old(data).tables,
            use_all == (old(data).constraints.searchmoves.len() == 0),
            i <= legal.len(),
            forall|k: int|
                0 <= k < data.root_moves.len() ==> (#[trigger] data.root_moves[k]).score
                    == MIN_SCORE && data.root_moves[k].depth == 0 && data.root_moves[k].pv.len()
                    == 0,
            !use_all ==> forall|k: int|
                0 <= k < data.root_moves.len() ==> old(data).constraints.searchmoves@.contains(
                    (#[trigger] data.root_moves[k]).m,
                ),
        decreases legal.len() - i,
    {
        let m = legal[i];
        let keep = if use_all {
            true
        } else {
            let mut found = false;
            let mut j: usize = 0;
            while j < data.constraints.searchmoves.len()
                invariant
                    data.wf(),
                    data.constraints == old(data).constraints,
                    j <= data.constraints.searchmoves@.len(),
                    found ==> old(data).constraints.searchmoves@.contains(m),
                decreases data.constraints.searchmoves@.len() - j,
            {
                if data.constraints.searchmoves[j] == m {
                    found = true;
                    break ;
                }
                j = j + 1;
            }
            found
        };
        if keep {
            data.root_moves.push(RootMove::new(m));
        }
        i = i + 1;
    }
    data.tt.new_generation();
    data.root_moves.len() > 0
}

/// The best move of the last completed iteration and the reply to
/// ponder on, if the principal variation has one.
pub fn best_root_move(data: &SearchData) -> (r: (Move, Move))
    requires
        data.wf(),
    ensures
        data.root_moves.len() == 0 ==> r.0 == NO_MOVE,
        data.root_moves.len() > 0 ==> r.0 == data.root_moves[0].m,
        data.root_moves.len() > 0 && data.root_moves[0].pv.len() > 0 ==> r.1
            == data.root_moves[0].pv[0],
{
    if data.root_moves.len() == 0 {
        (NO_MOVE, NO_MOVE)
    } else {
        let best = data.root_moves[0].m;
        let ponder = if data.root_moves[0].pv.len() > 0 {
            data.root_moves[0].pv[0]
        } else {
            NO_MOVE
        };
        (best, ponder)
    }
}

/// Counts the leaf nodes of the legal move tree to the given depth: the
/// standard check of move generation. The position comes back exactly
/// as it went in.
pub fn perft(pos: &mut Position, tb: &Tables, depth: usize) -> (n: u64)
    requires
        old(pos).wf(),
        tb.wf(),
    ensures
        final(pos).wf(),
        final(pos).eqv(*old(pos)),
    decreases depth,
{
    if depth == 0 {
        return 1;
    }
    let moves = crate::movegen::legal_moves(pos, tb);
    if depth == 1 {
        return moves.len() as u64;
    }
    let mut total: u64 = 0;
    let mut i: usize = 0;
    while i < moves.len()
        invariant
            pos.wf(),
            pos.eqv(*old(pos)),
            tb.wf(),
            depth >= 2,
            i <= moves.len(),
        decreases moves.len() - i,
    {
        let u = pos.undo_state();
        pos.do_move(tb, moves[i]);
        let sub = perft(pos, tb, depth - 1);
        pos.undo_move(u);
        if total <= u64::MAX - sub {
            total = total + sub;
        }
        i = i + 1;
    }
    total
}

} // verus!
