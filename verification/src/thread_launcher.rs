//! The orchestrator: several workers deepen one position on one shared
//! table, each at a depth staggered by its number, and publish what they find
//! into one slot that only a deeper result may overwrite. The workers take
//! turns in the order of their numbers.

use crate::position::{ChessMove, Position};
use crate::score::{is_value, ScoreTy, MATED};
use crate::search::{
    all_miss, first_mate, fresh_killers, hint_of, lemma_mate_in_one_is_found, mates, pvs_root_spec,
    Engine, SearchState,
};
use crate::transposition::{empty_table, is_table_size, lookup, CacheItem, TTable};
use std::sync::atomic::AtomicBool;
use vstd::prelude::*;
use vstd::std_specs::bits::{axiom_u64_trailing_zeros, u64_trailing_zeros};

verus! {

/// The shared result of a search: the best move with its score, and the depth
/// of the search that found it.
#[derive(Clone, Copy, Debug, PartialEq, Eq)]
pub struct BestMoveSlot {
    pub best: Option<(ChessMove, ScoreTy)>,
    pub depth: u8,
}

/// What a worker keeps to itself between its turns.
pub struct WorkerModel {
    pub id: usize,
    pub killers: Seq<Seq<Option<ChessMove>>>,
    pub nodes: usize,
}

/// How far ahead of the frontier worker `id` searches: the number of zero
/// bits at the low end of its number.
pub open spec fn stagger_of(id: usize) -> u8 {
    u64_trailing_zeros(id as u64) as u8
}

/// The depth that worker `id` searches next when the slot holds a result of
/// depth `reached`: one more, and its stagger; no depth is above 255.
pub open spec fn next_depth_of(reached: u8, id: usize) -> u8 {
    if reached + 1 + stagger_of(id) > 255 {
        255
    } else {
        (reached + 1 + stagger_of(id)) as u8
    }
}

/// The hint that worker `id` takes from the slot: the best move, but only for
/// a worker without stagger.
pub open spec fn hint_for(slot: BestMoveSlot, id: usize) -> Option<ChessMove> {
    if stagger_of(id) == 0 {
        hint_of(slot.best)
    } else {
        None
    }
}

/// The slot after a worker has offered what it found at `depth`: a result
/// replaces the slot's only if it is deeper.
pub open spec fn published(slot: BestMoveSlot, found: Option<(ChessMove, ScoreTy)>, depth: u8) -> BestMoveSlot {
    if found is Some && slot.depth < depth {
        BestMoveSlot { best: found, depth }
    } else {
        slot
    }
}

/// One turn of one worker, when no stop signal arrives: a root search at its
/// next depth on the shared table, and its result offered to the slot.
pub open spec fn turn_spec(table: Seq<CacheItem>, slot: BestMoveSlot, worker: WorkerModel, pos: Position) -> (
    Seq<CacheItem>,
    BestMoveSlot,
    WorkerModel,
) {
    let depth = next_depth_of(slot.depth, worker.id);
    let (after, found) = pvs_root_spec(
        SearchState { table, killers: worker.killers, nodes: worker.nodes },
        depth,
        pos,
        hint_for(slot, worker.id),
    );
    (
        after.table,
        published(slot, found, depth),
        WorkerModel { id: worker.id, killers: after.killers, nodes: after.nodes },
    )
}

/// One round, from the worker at index `from` on: each worker takes its turn
/// unless the slot has reached `max_depth` by then.
pub open spec fn round_spec(
    table: Seq<CacheItem>,
    slot: BestMoveSlot,
    workers: Seq<WorkerModel>,
    from: int,
    max_depth: u8,
    pos: Position,
) -> (Seq<CacheItem>, BestMoveSlot, Seq<WorkerModel>)
    decreases workers.len() - from,
{
    if from < 0 || from >= workers.len() {
        (table, slot, workers)
    } else if slot.depth >= max_depth {
        round_spec(table, slot, workers, from + 1, max_depth, pos)
    } else {
        let (shared, offered, worker) = turn_spec(table, slot, workers[from], pos);
        round_spec(shared, offered, workers.update(from, worker), from + 1, max_depth, pos)
    }
}

/// How much deeper the slot has to get.
pub open spec fn depth_left(slot: BestMoveSlot, max_depth: u8) -> nat {
    if slot.depth < max_depth {
        (max_depth - slot.depth) as nat
    } else {
        0
    }
}

/// The whole search, when no stop signal arrives: rounds are played until the
/// slot has reached `max_depth`, or until a round leaves the slot's depth as
/// it was.
pub open spec fn launch_spec(
    table: Seq<CacheItem>,
    slot: BestMoveSlot,
    workers: Seq<WorkerModel>,
    max_depth: u8,
    pos: Position,
) -> (Seq<CacheItem>, BestMoveSlot, Seq<WorkerModel>)
    decreases depth_left(slot, max_depth),
{
    if slot.depth >= max_depth {
        (table, slot, workers)
    } else {
        let (shared, offered, played) = round_spec(table, slot, workers, 0, max_depth, pos);
        if offered.depth > slot.depth {
            launch_spec(shared, offered, played, max_depth, pos)
        } else {
            (shared, offered, played)
        }
    }
}

/// The workers of a new search: numbered from one, with no killers and no
/// nodes counted.
pub open spec fn fresh_workers(n_jobs: usize) -> Seq<WorkerModel> {
    Seq::new(
        n_jobs as nat,
        |i: int| WorkerModel { id: (i + 1) as usize, killers: fresh_killers(), nodes: 0 },
    )
}

/// The empty slot.
pub open spec fn empty_slot() -> BestMoveSlot {
    BestMoveSlot { best: None, depth: 0 }
}

/// What a worker keeps to itself.
pub open spec fn model_of(engine: Engine) -> WorkerModel {
    WorkerModel { id: engine.id(), killers: engine.state().killers, nodes: engine.state().nodes }
}

/// What the workers keep to themselves.
pub open spec fn models_of(engines: Seq<Engine>) -> Seq<WorkerModel> {
    Seq::new(engines.len(), |i: int| model_of(engines[i]))
}

/// Determinism: two searches on tables with the same entries, with as many
/// workers, of the same position to the same depth, that see no stop signal,
/// leave the same table and return the same move and score.
pub proof fn lemma_equal_searches_agree(
    first: ThreadLauncher,
    second: ThreadLauncher,
    max_depth: u8,
    pos: Position,
    first_found: (Seq<CacheItem>, BestMoveSlot, Seq<WorkerModel>),
    second_found: (Seq<CacheItem>, BestMoveSlot, Seq<WorkerModel>),
)
    requires
        first.table() == second.table(),
        first.jobs() == second.jobs(),
        first_found == launch_spec(first.table(), empty_slot(), fresh_workers(first.jobs()), max_depth, pos),
        second_found == launch_spec(
            second.table(),
            empty_slot(),
            fresh_workers(second.jobs()),
            max_depth,
            pos,
        ),
    ensures
        first_found == second_found,
{
}

/// Mate in one: where a legal move mates at once, one worker searching to
/// depth one on a table that holds nothing returns a move that mates at once,
/// the first of them in generation order, with the mate score.
pub proof fn lemma_one_worker_finds_mate_in_one(table: Seq<CacheItem>, pos: Position, at: int)
    requires
        all_miss(table),
        0 <= at < pos.moves().len(),
        mates(pos, pos.moves()[at]),
    ensures
        launch_spec(table, empty_slot(), fresh_workers(1), 1, pos).1.best == Some(
            (pos.moves()[first_mate(pos, pos.moves(), 0)], -MATED as ScoreTy),
        ),
        mates(pos, pos.moves()[first_mate(pos, pos.moves(), 0)]),
{
    reveal_with_fuel(launch_spec, 2);
    reveal_with_fuel(round_spec, 2);
    lemma_first_worker_leads();
    let st = SearchState { table, killers: fresh_killers(), nodes: 0 };
    lemma_mate_in_one_is_found(st, pos, None, at);
}

/// The first worker searches at the frontier: its number ends in a one bit.
pub proof fn lemma_first_worker_leads()
    ensures
        stagger_of(1) == 0,
{
    axiom_u64_trailing_zeros(1u64);
    assert((1u64 >> 0u64) & 1u64 == 1u64) by (bit_vector);
}

/// How far ahead of the frontier a worker searches.
pub fn stagger(search_id: usize) -> (ahead: u8)
    ensures
        ahead == stagger_of(search_id),
        ahead <= 64,
{
    proof {
        axiom_u64_trailing_zeros(search_id as u64);
    }
    (search_id as u64).trailing_zeros() as u8
}

/// The depth that a worker searches next.
pub fn next_depth(reached: u8, search_id: usize) -> (depth: u8)
    ensures
        depth == next_depth_of(reached, search_id),
        depth > reached || reached == 255,
{
    let wanted: u16 = reached as u16 + 1 + stagger(search_id) as u16;
    if wanted > 255 {
        255
    } else {
        wanted as u8
    }
}

impl BestMoveSlot {
    /// The slot before anything has been found.
    pub fn new() -> (slot: BestMoveSlot)
        ensures
            slot == empty_slot(),
    {
        BestMoveSlot { best: None, depth: 0 }
    }

    /// Offers a result found at `depth`; it is taken if it holds a move and is
    /// deeper than what the slot has.
    pub fn publish(&mut self, found: Option<(ChessMove, ScoreTy)>, depth: u8) -> (taken: bool)
        ensures
            *final(self) == published(*old(self), found, depth),
            taken == (found is Some && old(self).depth < depth),
    {
        if found.is_some() && self.depth < depth {
            self.best = found;
            self.depth = depth;
            true
        } else {
            false
        }
    }

    /// The hint for a worker: the best move so far, for a worker without
    /// stagger only.
    pub fn hint(&self, search_id: usize) -> (pv: Option<ChessMove>)
        ensures
            pv == hint_for(*self, search_id),
    {
        if stagger(search_id) == 0 {
            match self.best {
                Some((m, _)) => Some(m),
                None => None,
            }
        } else {
            None
        }
    }
}

/// The orchestrator of a search: the shared table and the number of workers.
pub struct ThreadLauncher {
    memo: TTable,
    n_jobs: usize,
    stopped: bool,
}

impl ThreadLauncher {
    /// The shared table is well formed.
    pub closed spec fn wf(&self) -> bool {
        self.memo.wf()
    }

    /// The entries of the shared table.
    pub closed spec fn table(&self) -> Seq<CacheItem> {
        self.memo@
    }

    /// The number of workers.
    pub closed spec fn jobs(&self) -> usize {
        self.n_jobs
    }

    /// Whether a worker saw the stop signal during the last search.
    pub closed spec fn stopped(&self) -> bool {
        self.stopped
    }

    /// Makes an orchestrator with a table of `tt_size` entries and `n_jobs`
    /// workers.
    pub fn new(tt_size: usize, n_jobs: usize) -> (launcher: ThreadLauncher)
        requires
            is_table_size(tt_size),
        ensures
            launcher.wf(),
            launcher.table() == empty_table(tt_size as nat),
            forall|hash: u64| lookup(launcher.table(), hash) is None,
            launcher.jobs() == n_jobs,
            !launcher.stopped(),
    {
        Self { memo: TTable::new(tt_size), n_jobs, stopped: false }
    }

    /// The shared table.
    pub fn memo(&self) -> (memo: &TTable)
        ensures
            memo@ == self.table(),
            memo.wf() == self.wf(),
    {
        &self.memo
    }

    /// Whether a worker saw the stop signal during the last search.
    pub fn was_stopped(&self) -> (stopped: bool)
        ensures
            stopped == self.stopped(),
    {
        self.stopped
    }

    fn recruit(n_jobs: usize) -> (searchers: Vec<Engine>)
        ensures
            searchers@.len() == n_jobs,
            models_of(searchers@) == fresh_workers(n_jobs),
            forall|j: int|
                0 <= j < searchers@.len() ==> (#[trigger] searchers@[j]).wf() && !searchers@[j].stopped(),
    {
        let mut searchers: Vec<Engine> = Vec::new();
        let mut id: usize = 0;
        while id < n_jobs
            invariant
                id <= n_jobs,
                searchers@.len() == id,
                models_of(searchers@) =~= fresh_workers(id),
                forall|j: int|
                    0 <= j < searchers@.len() ==> (#[trigger] searchers@[j]).wf()
                        && !searchers@[j].stopped(),
            decreases n_jobs - id,
        {
            let ghost before = searchers@;
            id = id + 1;
            assert(1usize & 0usize == 0usize) by (bit_vector);
            searchers.push(Engine::with_table(id, TTable::new(1)));
            proof {
                assert forall|j: int| 0 <= j < id implies models_of(searchers@)[j] == fresh_workers(
                    id,
                )[j] by {
                    if j < id - 1 {
                        assert(searchers@[j] == before[j]);
                        assert(models_of(before)[j] == fresh_workers((id - 1) as usize)[j]);
                    }
                }
            }
        }
        searchers
    }

    /// One turn of the worker at index `at`.
    fn turn(
        &mut self,
        searchers: &mut Vec<Engine>,
        at: usize,
        slot: &mut BestMoveSlot,
        board: Position,
        stop: Option<&AtomicBool>,
    )
        requires
            old(self).wf(),
            at < old(searchers)@.len(),
            forall|j: int|
                0 <= j < old(searchers)@.len() ==> (#[trigger] old(searchers)@[j]).wf(),
            !old(self).stopped() ==> forall|j: int|
                0 <= j < old(searchers)@.len() ==> !(#[trigger] old(searchers)@[j]).stopped(),
        ensures
            final(self).wf(),
            final(self).table().len() == old(self).table().len(),
            final(self).jobs() == old(self).jobs(),
            final(searchers)@.len() == old(searchers)@.len(),
            forall|j: int|
                0 <= j < final(searchers)@.len() ==> (#[trigger] final(searchers)@[j]).wf(),
            old(self).stopped() ==> final(self).stopped(),
            stop is None && !old(self).stopped() ==> !final(self).stopped(),
            !final(self).stopped() ==> forall|j: int|
                0 <= j < final(searchers)@.len() ==> !(#[trigger] final(searchers)@[j]).stopped(),
            !final(self).stopped() ==> (final(self).table(), *final(slot), models_of(final(searchers)@)) == ({
                let (shared, offered, worker) = turn_spec(
                    old(self).table(),
                    *old(slot),
                    models_of(old(searchers)@)[at as int],
                    board,
                );
                (shared, offered, models_of(old(searchers)@).update(at as int, worker))
            }),
            forall|j: int|
                0 <= j < final(searchers)@.len() ==> (#[trigger] final(searchers)@[j]).id() == old(
                    searchers,
                )@[j].id(),
            final(slot).depth >= old(slot).depth,
            *final(slot) == *old(slot) || (final(slot).best is Some && final(slot).depth > old(
                slot,
            ).depth),
            old(slot).best is None && board.moves().len() == 0 ==> final(slot).best is None,
            old(slot).best is Some ==> final(slot).best is Some,
            final(slot).best is Some && !(old(slot).best is Some && final(slot).best == old(slot).best)
                ==> board.moves().contains(final(slot).best.unwrap().0) && is_value(
                final(slot).best.unwrap().1 as int,
            ),
            !final(self).stopped() && board.moves().len() > 0 && old(slot).depth < 255 && stagger_of(
                old(searchers)@[at as int].id(),
            ) == 0 ==> final(slot).depth > old(slot).depth,
    {
        reveal(pvs_root_spec);
        let ghost before = searchers@;
        let mut engine = searchers.remove(at);
        let id = engine.search_id();
        let sdepth = next_depth(slot.depth, id);
        let pv = slot.hint(id);
        engine.swap_table(&mut self.memo);
        let res = engine.pvs_root(sdepth, board, pv, stop);
        engine.swap_table(&mut self.memo);
        if engine.is_stopped() {
            self.stopped = true;
        }
        slot.publish(res, sdepth);
        let ghost played = engine;
        searchers.insert(at, engine);
        proof {
            assert(searchers@ =~= before.update(at as int, played));
            assert(models_of(searchers@) =~= models_of(before).update(at as int, model_of(played)));
            assert forall|j: int| 0 <= j < searchers@.len() implies (#[trigger] searchers@[j]).wf() by {
                if j != at {
                    assert(searchers@[j] == before[j]);
                }
            }
            assert forall|j: int| 0 <= j < searchers@.len() implies (#[trigger] searchers@[j]).id()
                == before[j].id() by {
                if j != at {
                    assert(searchers@[j] == before[j]);
                }
            }
            if !self.stopped() {
                assert forall|j: int| 0 <= j < searchers@.len() implies !(
                #[trigger] searchers@[j]).stopped() by {
                    if j != at {
                        assert(searchers@[j] == before[j]);
                    }
                }
            }
        }
    }

    /// Searches `board` until the slot holds a result of depth `max_depth`:
    /// the workers take turns in rounds, each searching at its next depth on
    /// the shared table and offering what it finds. The search ends early when
    /// a round gets the slot no deeper, as it does where the game is over,
    /// without workers, and after a stop signal.
    pub fn best_move(&mut self, max_depth: u8, board: Position, stop: Option<&AtomicBool>) -> (found: Option<
        (ChessMove, ScoreTy),
    >)
        requires
            old(self).wf(),
        ensures
            final(self).wf(),
            final(self).table().len() == old(self).table().len(),
            final(self).jobs() == old(self).jobs(),
            stop is None ==> !final(self).stopped(),
            !final(self).stopped() ==> ({
                let (shared, offered, played) = launch_spec(
                    old(self).table(),
                    empty_slot(),
                    fresh_workers(old(self).jobs()),
                    max_depth,
                    board,
                );
                final(self).table() == shared && found == offered.best
            }),
            board.moves().len() == 0 ==> found is None,
            old(self).jobs() == 0 ==> found is None,
            found is Some ==> board.moves().contains(found.unwrap().0) && is_value(
                found.unwrap().1 as int,
            ),
            !final(self).stopped() && max_depth > 0 && old(self).jobs() > 0 && board.moves().len() > 0
                ==> found is Some,
            found is Some && board.moves().len() == 1 ==> found.unwrap().0 == board.moves()[0],
    {
        self.stopped = false;
        let mut searchers = Self::recruit(self.n_jobs);
        let mut slot = BestMoveSlot::new();
        let ghost goal = launch_spec(self.memo@, slot, models_of(searchers@), max_depth, board);
        let mut progress = true;
        while slot.depth < max_depth && progress
            invariant
                self.memo.wf(),
                self.memo@.len() == old(self).table().len(),
                self.jobs() == old(self).jobs(),
                searchers@.len() == self.jobs(),
                stop is None ==> !self.stopped(),
                forall|j: int| 0 <= j < searchers@.len() ==> (#[trigger] searchers@[j]).wf(),
                !self.stopped() ==> forall|j: int|
                    0 <= j < searchers@.len() ==> !(#[trigger] searchers@[j]).stopped(),
                self.jobs() > 0 ==> searchers@[0].id() == 1,
                !self.stopped() && progress ==> goal == launch_spec(
                    self.memo@,
                    slot,
                    models_of(searchers@),
                    max_depth,
                    board,
                ),
                !self.stopped() && !progress ==> goal == (self.memo@, slot, models_of(searchers@)),
                board.moves().len() == 0 ==> slot.best is None,
                self.jobs() == 0 ==> slot.best is None,
                slot.best is Some ==> board.moves().contains(slot.best.unwrap().0) && is_value(
                    slot.best.unwrap().1 as int,
                ),
                slot.depth > 0 ==> slot.best is Some,
                !progress && !self.stopped() && self.jobs() > 0 && board.moves().len() > 0
                    ==> slot.depth > 0,
            decreases depth_left(slot, max_depth) + (if progress { 1int } else { 0int }),
        {
            let before = slot.depth;
            let ghost round_goal = round_spec(
                self.memo@,
                slot,
                models_of(searchers@),
                0,
                max_depth,
                board,
            );
            let ghost round_start = slot;
            let ghost stopped_before = self.stopped();
            proof {
                lemma_first_worker_leads();
            }
            let workers = searchers.len();
            let mut at: usize = 0;
            while at < workers
                invariant
                    at <= workers,
                    workers == searchers@.len(),
                    self.memo.wf(),
                    self.memo@.len() == old(self).table().len(),
                    self.jobs() == old(self).jobs(),
                    searchers@.len() == self.jobs(),
                    stop is None ==> !self.stopped(),
                    forall|j: int| 0 <= j < searchers@.len() ==> (#[trigger] searchers@[j]).wf(),
                    !self.stopped() ==> forall|j: int|
                        0 <= j < searchers@.len() ==> !(#[trigger] searchers@[j]).stopped(),
                    self.jobs() > 0 ==> searchers@[0].id() == 1,
                    !self.stopped() ==> round_goal == round_spec(
                        self.memo@,
                        slot,
                        models_of(searchers@),
                        at as int,
                        max_depth,
                        board,
                    ),
                    before == round_start.depth,
                    before < max_depth,
                    stopped_before ==> self.stopped(),
                    at == 0 ==> slot == round_start,
                    stagger_of(1) == 0,
                    slot.depth >= before,
                    board.moves().len() == 0 ==> slot.best is None,
                    self.jobs() == 0 ==> slot.best is None,
                    slot.best is Some ==> board.moves().contains(slot.best.unwrap().0) && is_value(
                        slot.best.unwrap().1 as int,
                    ),
                    slot.depth > 0 ==> slot.best is Some,
                    at > 0 && !self.stopped() && board.moves().len() > 0 ==> slot.depth > before,
                decreases workers - at,
            {
                if slot.depth < max_depth {
                    self.turn(&mut searchers, at, &mut slot, board, stop);
                }
                at = at + 1;
            }
            progress = slot.depth > before;
        }
        slot.best
    }
}

} // verus!
