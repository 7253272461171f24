//! Backfill: finding the blocks that the store lacks and bringing them in.
//!
//! One pass probes the store for the numbers between genesis and the node's
//! head that have no block, asks the node for them in bounded chunks,
//! inserts what came back as one batch and records how many blocks that
//! were. A pass that found nothing missing, or inserted nothing, is the last.

use crate::database::Data;
use crate::error::ArchiveError;
use crate::types::{BatchBlock, Block, BlockView, blocks_view};
use vstd::prelude::*;

verus! {

/// The most block numbers that one request to the node asks for.
pub const FETCH_CHUNK: usize = 100_000;

/// Whether `number` is a gap: at or below the head `latest`, and not among `stored`.
pub open spec fn is_gap(stored: Seq<u32>, latest: u32, number: u32) -> bool {
    number <= latest && !stored.contains(number)
}

/// The gaps below `bound`, in ascending order.
pub open spec fn gaps_below(stored: Seq<u32>, bound: nat) -> Seq<u32>
    decreases bound,
{
    if bound == 0 {
        Seq::empty()
    } else {
        let below = gaps_below(stored, (bound - 1) as nat);
        if stored.contains((bound - 1) as u32) {
            below
        } else {
            below.push((bound - 1) as u32)
        }
    }
}

/// The numbers from genesis to the head `latest` that are not among
/// `stored`, in ascending order.
pub open spec fn gaps(stored: Seq<u32>, latest: u32) -> Seq<u32> {
    gaps_below(stored, (latest + 1) as nat)
}

/// Whether the numbers stand in strictly ascending order.
pub open spec fn ascending(numbers: Seq<u32>) -> bool {
    forall|i: int, j: int| 0 <= i < j < numbers.len() ==> numbers[i] < numbers[j]
}

proof fn lemma_take_contains(stored: Seq<u32>, i: int, number: u32)
    requires
        0 <= i < stored.len(),
    ensures
        stored.take(i + 1).contains(number) <==> stored.take(i).contains(number) || stored[i]
            == number,
{
    let longer = stored.take(i + 1);
    let shorter = stored.take(i);
    if longer.contains(number) {
        let j = choose|j: int| 0 <= j < longer.len() && longer[j] == number;
        if j < i {
            assert(shorter[j] == number);
        }
    }
    if shorter.contains(number) {
        let j = choose|j: int| 0 <= j < shorter.len() && shorter[j] == number;
        assert(longer[j] == number);
    }
    if stored[i] == number {
        assert(longer[i] == number);
    }
}

/// What [`gaps_below`] holds: every gap below the bound, nothing else,
/// each once and in ascending order.
pub proof fn lemma_gaps_below(stored: Seq<u32>, bound: nat)
    requires
        bound <= u32::MAX + 1,
    ensures
        ascending(gaps_below(stored, bound)),
        forall|number: u32|
            #![trigger gaps_below(stored, bound).contains(number)]
            gaps_below(stored, bound).contains(number) <==> number < bound && !stored.contains(
                number,
            ),
    decreases bound,
{
    if bound > 0 {
        let below = gaps_below(stored, (bound - 1) as nat);
        let all = gaps_below(stored, bound);
        let last = (bound - 1) as u32;
        lemma_gaps_below(stored, (bound - 1) as nat);
        assert forall|i: int, j: int| 0 <= i < j < all.len() implies all[i] < all[j] by {
            if j < below.len() {
                assert(all[i] == below[i] && all[j] == below[j]);
            } else {
                assert(all[j] == last);
                assert(all[i] == below[i]);
                assert(below.contains(below[i]));
                assert(below[i] < bound - 1);
            }
        }
        assert forall|number: u32| all.contains(number) <==> number < bound && !stored.contains(
            number,
        ) by {
            if all.contains(number) {
                let j = choose|j: int| 0 <= j < all.len() && all[j] == number;
                if j < below.len() {
                    assert(below[j] == number);
                    assert(below.contains(number));
                }
            }
            if number < bound && !stored.contains(number) {
                if number < bound - 1 {
                    assert(below.contains(number));
                    let j = choose|j: int| 0 <= j < below.len() && below[j] == number;
                    assert(all[j] == number);
                } else {
                    assert(all[all.len() - 1] == number);
                }
            }
        }
    }
}

/// Gap detection is complete and exact: the missing numbers are all the
/// gaps between genesis and the head and nothing else, each once, in
/// ascending order.
pub proof fn lemma_gaps(stored: Seq<u32>, latest: u32)
    ensures
        ascending(gaps(stored, latest)),
        forall|number: u32|
            #![trigger gaps(stored, latest).contains(number)]
            gaps(stored, latest).contains(number) <==> is_gap(stored, latest, number),
{
    lemma_gaps_below(stored, (latest + 1) as nat);
    let all = gaps_below(stored, (latest + 1) as nat);
    assert forall|number: u32| gaps(stored, latest).contains(number) <==> is_gap(
        stored,
        latest,
        number,
    ) by {
        assert(all.contains(number) <==> number < latest + 1 && !stored.contains(number));
    }
}

/// The numbers from genesis to the head `latest` that are not among
/// `stored`, in ascending order. `stored` may hold its numbers in any order,
/// more than once, and numbers beyond the head.
pub fn missing_blocks(stored: &Vec<u32>, latest: u32) -> (missing: Vec<u32>)
    ensures
        missing@ == gaps(stored@, latest),
{
    let size: usize = latest as usize;
    let mut seen: Vec<bool> = Vec::new();
    let mut k: usize = 0;
    while k < size
        invariant
            k <= size,
            seen@.len() == k,
            forall|n: int| 0 <= n < k ==> !seen@[n],
        decreases size - k,
    {
        seen.push(false);
        k = k + 1;
    }
    let mut head_seen = false;
    let mut i: usize = 0;
    while i < stored.len()
        invariant
            i <= stored.len(),
            size == latest,
            seen@.len() == size,
            head_seen <==> stored@.take(i as int).contains(latest),
            forall|n: int|
                0 <= n < size ==> (#[trigger] seen@[n] <==> stored@.take(i as int).contains(
                    n as u32,
                )),
        decreases stored.len() - i,
    {
        let number = stored[i];
        if number < latest {
            seen.set(number as usize, true);
        } else if number == latest {
            head_seen = true;
        }
        proof {
            lemma_take_contains(stored@, i as int, latest);
        }
        assert forall|n: int| 0 <= n < size implies (#[trigger] seen@[n] <==> stored@.take(
            i as int + 1,
        ).contains(n as u32)) by {
            lemma_take_contains(stored@, i as int, n as u32);
        }
        i = i + 1;
    }
    assert(stored@.take(stored@.len() as int) =~= stored@);
    let mut missing: Vec<u32> = Vec::new();
    let mut n: usize = 0;
    while n < size
        invariant
            n <= size,
            size == latest,
            seen@.len() == size,
            forall|m: int| 0 <= m < size ==> (#[trigger] seen@[m] <==> stored@.contains(m as u32)),
            missing@ == gaps_below(stored@, n as nat),
        decreases size - n,
    {
        if !seen[n] {
            missing.push(n as u32);
        }
        n = n + 1;
    }
    if !head_seen {
        missing.push(latest);
    }
    missing
}

/// The number of chunks of at most `size` that `len` items come to.
pub open spec fn chunk_count(len: nat, size: nat) -> nat {
    ((len + size - 1) / (size as int)) as nat
}

/// The `index`-th chunk of at most `size` of the numbers: the numbers from
/// position `index * size` up to the next chunk, or to the end.
pub open spec fn chunk_at(numbers: Seq<u32>, size: nat, index: int) -> Seq<u32> {
    let start = index * size;
    let end = if start + size <= numbers.len() {
        start + size
    } else {
        numbers.len() as int
    };
    numbers.subrange(start, end)
}

/// The numbers cut into chunks of `size`, in their order; only the last
/// chunk may be shorter, and none is empty.
pub open spec fn chunked(numbers: Seq<u32>, size: nat) -> Seq<Seq<u32>> {
    Seq::new(chunk_count(numbers.len(), size), |i: int| chunk_at(numbers, size, i))
}

/// The numbers of each chunk.
pub open spec fn chunks_view(chunks: Seq<Vec<u32>>) -> Seq<Seq<u32>> {
    Seq::new(chunks.len(), |i: int| chunks[i]@)
}

proof fn lemma_chunk_step(count: int, size: int)
    ensures
        (count + 1) * size == count * size + size,
{
    assert((count + 1) * size == count * size + size) by (nonlinear_arith);
}

proof fn lemma_chunk_count(len: int, size: int, count: int)
    requires
        size > 0,
        count >= 0,
        len >= 0,
        (count - 1) * size < len <= count * size,
    ensures
        (len + size - 1) / size == count,
{
    assert((len + size - 1) / size == count) by (nonlinear_arith)
        requires
            size > 0,
            (count - 1) * size < len <= count * size,
    ;
}

/// Cuts the numbers into chunks of `size`, in their order; only the last
/// chunk may be shorter, and none is empty.
pub fn chunks(numbers: &Vec<u32>, size: usize) -> (chunks: Vec<Vec<u32>>)
    requires
        size > 0,
    ensures
        chunks_view(chunks@) == chunked(numbers@, size as nat),
        chunks@.len() == chunk_count(numbers@.len(), size as nat),
        forall|i: int|
            0 <= i < chunks@.len() ==> (#[trigger] chunks@[i])@ == chunk_at(
                numbers@,
                size as nat,
                i,
            ),
{
    let len = numbers.len();
    let mut chunks: Vec<Vec<u32>> = Vec::new();
    let mut start: usize = 0;
    proof {
        lemma_chunk_step(-1, size as int);
        lemma_chunk_step(0, size as int);
    }
    while start < len
        invariant
            size > 0,
            len == numbers@.len(),
            start <= len,
            start < len ==> start == chunks@.len() * size,
            start == len ==> (chunks@.len() - 1) * size < len <= chunks@.len() * size,
            forall|i: int|
                0 <= i < chunks@.len() ==> (#[trigger] chunks@[i])@ == chunk_at(
                    numbers@,
                    size as nat,
                    i,
                ),
        decreases len - start,
    {
        let end: usize = if len - start < size {
            len
        } else {
            start + size
        };
        let mut chunk: Vec<u32> = Vec::new();
        let mut at: usize = start;
        while at < end
            invariant
                start <= at <= end <= len,
                len == numbers@.len(),
                chunk@ == numbers@.subrange(start as int, at as int),
            decreases end - at,
        {
            chunk.push(numbers[at]);
            at = at + 1;
        }
        proof {
            lemma_chunk_step(chunks@.len() as int, size as int);
            lemma_chunk_step(chunks@.len() as int - 1, size as int);
        }
        chunks.push(chunk);
        start = end;
    }
    proof {
        if len == 0 {
            assert((0 + size - 1) / (size as int) == 0) by (nonlinear_arith)
                requires
                    size > 0,
            ;
        } else {
            lemma_chunk_count(len as int, size as int, chunks@.len() as int);
        }
    }
    chunks
}

/// The blocks of each answer.
pub open spec fn answers_view(answers: Seq<Vec<Block>>) -> Seq<Seq<Block>> {
    Seq::new(answers.len(), |i: int| answers[i]@)
}

/// Lays the node's answers end to end, in the order in which they stand.
pub fn flatten(answers: Vec<Vec<Block>>) -> (blocks: Vec<Block>)
    ensures
        blocks@ == answers_view(answers@).flatten(),
{
    let ghost all = answers_view(answers@);
    let mut blocks: Vec<Block> = Vec::new();
    for answer in it: answers
        invariant
            all == answers_view(it.seq()),
            blocks@ == all.take(it.index() as int).flatten(),
    {
        let ghost j = it.index() as int;
        let mut answer = answer;
        proof {
            all.take(j).lemma_flatten_push(answer@);
            assert(all.take(j).push(answer@) =~= all.take(j + 1));
        }
        blocks.append(&mut answer);
    }
    assert(all.take(all.len() as int) =~= all);
    blocks
}

/// What the backfill remembers from pass to pass: how many passes have run,
/// and how many blocks the last one inserted.
#[derive(Debug, Clone, Copy, PartialEq, Eq, Structural)]
pub struct Sync {
    pub looped: usize,
    pub missing: usize,
}

impl Sync {
    /// The state before the first pass.
    pub fn new() -> (sync: Sync)
        ensures
            sync == (Sync { looped: 0, missing: 0 }),
    {
        Sync { looped: 0, missing: 0 }
    }

    /// The state after one more pass, in which `inserted` blocks went in.
    pub open spec fn recorded(self, inserted: usize) -> Sync {
        Sync { looped: (self.looped + 1) as usize, missing: inserted }
    }

    /// Closes a pass in which `inserted` blocks went into the store: the
    /// pass is counted and the number kept, and the backfill is done when
    /// the pass inserted nothing.
    pub fn sync(self, inserted: usize) -> (next: (Sync, bool))
        requires
            self.looped < usize::MAX,
        ensures
            next.0 == self.recorded(inserted),
            next.1 == (inserted == 0),
    {
        let looped = self.looped + 1;
        let missing = inserted;
        let done = missing == 0;
        (Sync { looped, missing }, done)
    }
}

/// Where a pass stands.
#[derive(Debug, Clone, PartialEq, Eq)]
pub enum Stage {
    /// Waiting for the store's block numbers and the node's head.
    Probing,
    /// Waiting for the node's answers: `outstanding` of them are still to
    /// come, `answers` have come, in the order in which they came.
    Fetching { outstanding: usize, answers: Vec<Vec<Block>> },
    /// Waiting for the store to take the batch.
    Inserting,
    /// Nothing was missing, or nothing went in: the backfill has caught up.
    Done,
}

/// What a [`Stage`] stands for.
pub enum StageView {
    Probing,
    Fetching { outstanding: nat, answers: Seq<Seq<BlockView>> },
    Inserting,
    Done,
}

/// The blocks of each answer, by their views.
pub open spec fn answers_deep_view(answers: Seq<Vec<Block>>) -> Seq<Seq<BlockView>> {
    Seq::new(answers.len(), |i: int| blocks_view(answers[i]@))
}

impl View for Stage {
    type V = StageView;

    open spec fn view(&self) -> StageView {
        match self {
            Stage::Probing => StageView::Probing,
            Stage::Fetching { outstanding, answers } => StageView::Fetching {
                outstanding: *outstanding as nat,
                answers: answers_deep_view(answers@),
            },
            Stage::Inserting => StageView::Inserting,
            Stage::Done => StageView::Done,
        }
    }
}

/// What happened outside since the engine last said what to do.
#[derive(Debug, Clone, PartialEq, Eq)]
pub enum Event {
    /// The store holds blocks with the numbers `stored`, and the node's head is `latest`.
    Probed { stored: Vec<u32>, latest: u32 },
    /// The node answered one request with these blocks.
    Fetched(Vec<Block>),
    /// The store took the batch, and so many rows went in.
    Inserted(usize),
    /// The node or the store failed on what it was asked.
    Failed(ArchiveError),
}

/// What an [`Event`] stands for.
pub enum EventView {
    Probed { stored: Seq<u32>, latest: u32 },
    Fetched(Seq<BlockView>),
    Inserted(usize),
    Failed(ArchiveError),
}

impl View for Event {
    type V = EventView;

    open spec fn view(&self) -> EventView {
        match self {
            Event::Probed { stored, latest } => EventView::Probed {
                stored: stored@,
                latest: *latest,
            },
            Event::Fetched(blocks) => EventView::Fetched(blocks_view(blocks@)),
            Event::Inserted(rows) => EventView::Inserted(*rows),
            Event::Failed(error) => EventView::Failed(*error),
        }
    }
}

/// What is to be done outside next.
#[derive(Debug, Clone, PartialEq, Eq)]
pub enum Action {
    /// Ask the node for its head and the store for its block numbers up to it.
    Probe,
    /// Ask the node for the blocks with these numbers, one request for each
    /// chunk, all at once.
    Fetch(Vec<Vec<u32>>),
    /// Other answers are still to come.
    Wait,
    /// Insert these blocks as one batch.
    Insert(BatchBlock),
    /// The backfill has caught up.
    Finish,
}

/// What an [`Action`] stands for.
pub enum ActionView {
    Probe,
    Fetch(Seq<Seq<u32>>),
    Wait,
    Insert(Seq<BlockView>),
    Finish,
}

impl View for Action {
    type V = ActionView;

    open spec fn view(&self) -> ActionView {
        match self {
            Action::Probe => ActionView::Probe,
            Action::Fetch(requests) => ActionView::Fetch(chunks_view(requests@)),
            Action::Wait => ActionView::Wait,
            Action::Insert(batch) => ActionView::Insert(batch@),
            Action::Finish => ActionView::Finish,
        }
    }
}

/// The backfill as a state machine: it is told what happened and says
/// what to do next.
#[derive(Debug, Clone, PartialEq, Eq)]
pub struct SyncEngine {
    pub sync: Sync,
    pub stage: Stage,
}

/// What a [`SyncEngine`] stands for.
pub struct SyncEngineView {
    pub sync: Sync,
    pub stage: StageView,
}

impl View for SyncEngine {
    type V = SyncEngineView;

    open spec fn view(&self) -> SyncEngineView {
        SyncEngineView { sync: self.sync, stage: self.stage@ }
    }
}

impl SyncEngineView {
    /// The engine in another stage.
    pub open spec fn at(self, stage: StageView) -> SyncEngineView {
        SyncEngineView { sync: self.sync, stage }
    }

    /// The engine after a pass in which `inserted` blocks went in: done if
    /// that were none, else probing again.
    pub open spec fn closed(self, inserted: usize) -> (SyncEngineView, ActionView) {
        let sync = self.sync.recorded(inserted);
        if inserted == 0 {
            (SyncEngineView { sync, stage: StageView::Done }, ActionView::Finish)
        } else {
            (SyncEngineView { sync, stage: StageView::Probing }, ActionView::Probe)
        }
    }

    /// The engine after `event`, and what is to be done next.
    ///
    /// Probing, it learns what the store holds. Nothing missing closes the
    /// pass with no block inserted. Else the missing numbers are cut into
    /// chunks and fetched. Fetching, it collects the answers until none is
    /// outstanding, and then has all blocks inserted as one batch, in the
    /// order in which the answers came. Inserting, it closes the pass with
    /// the number of rows that went in. A failure outside fails the pass
    /// with its error, whatever the stage: no chunk is skipped. An event that
    /// the stage does not wait for fails the pass too: as a fault of the node
    /// if it is an answer, of the store if not.
    pub open spec fn step(self, event: EventView) -> Result<
        (SyncEngineView, ActionView),
        ArchiveError,
    > {
        match (self.stage, event) {
            (_, EventView::Failed(error)) => Err(error),
            (StageView::Probing, EventView::Probed { stored, latest }) => {
                let missing = gaps(stored, latest);
                if missing.len() == 0 {
                    Ok(self.closed(0))
                } else {
                    let requests = chunked(missing, FETCH_CHUNK as nat);
                    Ok(
                        (
                            self.at(
                                StageView::Fetching {
                                    outstanding: requests.len(),
                                    answers: Seq::empty(),
                                },
                            ),
                            ActionView::Fetch(requests),
                        ),
                    )
                }
            },
            (StageView::Fetching { outstanding, answers }, EventView::Fetched(blocks)) => {
                let answers = answers.push(blocks);
                if outstanding <= 1 {
                    Ok((self.at(StageView::Inserting), ActionView::Insert(answers.flatten())))
                } else {
                    Ok(
                        (
                            self.at(
                                StageView::Fetching {
                                    outstanding: (outstanding - 1) as nat,
                                    answers,
                                },
                            ),
                            ActionView::Wait,
                        ),
                    )
                }
            },
            (StageView::Inserting, EventView::Inserted(rows)) => Ok(self.closed(rows)),
            (_, EventView::Fetched(_)) => Err(ArchiveError::NodeCommunicationError),
            (_, _) => Err(ArchiveError::StoreError),
        }
    }
}

/// What [`SyncEngine::step`] returns, by its view.
pub open spec fn step_view(result: Result<(SyncEngine, Action), ArchiveError>) -> Result<
    (SyncEngineView, ActionView),
    ArchiveError,
> {
    match result {
        Ok((engine, action)) => Ok((engine@, action@)),
        Err(e) => Err(e),
    }
}

proof fn lemma_flatten_views(answers: Seq<Vec<Block>>)
    ensures
        blocks_view(answers_view(answers).flatten()) == answers_deep_view(answers).flatten(),
    decreases answers.len(),
{
    let plain = answers_view(answers);
    let deep = answers_deep_view(answers);
    if answers.len() > 0 {
        let front = answers.drop_last();
        lemma_flatten_views(front);
        assert(plain =~= answers_view(front).push(answers.last()@));
        assert(deep =~= answers_deep_view(front).push(blocks_view(answers.last()@)));
        answers_view(front).lemma_flatten_push(answers.last()@);
        answers_deep_view(front).lemma_flatten_push(blocks_view(answers.last()@));
        assert(blocks_view(answers_view(front).flatten() + answers.last()@) =~= blocks_view(
            answers_view(front).flatten(),
        ) + blocks_view(answers.last()@));
    }
}

impl SyncEngine {
    /// An engine at the start of a pass, with what the passes before left.
    pub fn new(sync: Sync) -> (engine: SyncEngine)
        ensures
            engine@ == (SyncEngineView { sync, stage: StageView::Probing }),
    {
        SyncEngine { sync, stage: Stage::Probing }
    }

    /// Whether the backfill has caught up.
    pub fn is_done(&self) -> (done: bool)
        ensures
            done == (self@.stage is Done),
    {
        match self.stage {
            Stage::Done => true,
            _ => false,
        }
    }

    fn close(sync: Sync, inserted: usize) -> (next: (SyncEngine, Action))
        requires
            sync.looped < usize::MAX,
        ensures
            (next.0@, next.1@) == (SyncEngineView { sync, stage: StageView::Probing }).closed(
                inserted,
            ),
    {
        let (sync, done) = sync.sync(inserted);
        if done {
            (SyncEngine { sync, stage: Stage::Done }, Action::Finish)
        } else {
            (SyncEngine { sync, stage: Stage::Probing }, Action::Probe)
        }
    }

    /// Takes the engine one event further and says what to do next.
    pub fn step(self, event: Event) -> (result: Result<(SyncEngine, Action), ArchiveError>)
        requires
            self.sync.looped < usize::MAX,
        ensures
            step_view(result) == self@.step(event@),
    {
        let SyncEngine { sync, stage } = self;
        match (stage, event) {
            (_, Event::Failed(error)) => Err(error),
            (Stage::Probing, Event::Probed { stored, latest }) => {
                let missing = missing_blocks(&stored, latest);
                if missing.len() == 0 {
                    Ok(Self::close(sync, 0))
                } else {
                    let requests = chunks(&missing, FETCH_CHUNK);
                    let outstanding = requests.len();
                    let answers: Vec<Vec<Block>> = Vec::new();
                    assert(answers_deep_view(answers@) =~= Seq::empty());
                    Ok(
                        (
                            SyncEngine { sync, stage: Stage::Fetching { outstanding, answers } },
                            Action::Fetch(requests),
                        ),
                    )
                }
            },
            (Stage::Fetching { outstanding, answers }, Event::Fetched(blocks)) => {
                let ghost before = answers_deep_view(answers@);
                let mut answers = answers;
                answers.push(blocks);
                assert(answers_deep_view(answers@) =~= before.push(blocks_view(blocks@)));
                if outstanding <= 1 {
                    proof {
                        lemma_flatten_views(answers@);
                    }
                    let batch = BatchBlock::new(flatten(answers));
                    Ok((SyncEngine { sync, stage: Stage::Inserting }, Action::Insert(batch)))
                } else {
                    Ok(
                        (
                            SyncEngine {
                                sync,
                                stage: Stage::Fetching { outstanding: outstanding - 1, answers },
                            },
                            Action::Wait,
                        ),
                    )
                }
            },
            (Stage::Inserting, Event::Inserted(rows)) => Ok(Self::close(sync, rows)),
            (_, Event::Fetched(_)) => Err(ArchiveError::NodeCommunicationError),
            (_, _) => Err(ArchiveError::StoreError),
        }
    }
}

/// Where an incoming item goes.
#[derive(Debug, Clone, PartialEq, Eq)]
pub enum Routed {
    /// A note on progress: so many blocks are missing. It is reported, not stored.
    Progress(usize),
    /// Anything else is inserted.
    Insert(Data),
}

/// Decides where an incoming item goes: a note on progress to the log,
/// everything else to the store.
pub fn handle_data(data: Data) -> (routed: Routed)
    ensures
        routed == match data {
            Data::SyncProgress(missing_blocks) => Routed::Progress(missing_blocks),
            _ => Routed::Insert(data),
        },
{
    match data {
        Data::SyncProgress(missing_blocks) => Routed::Progress(missing_blocks),
        c => Routed::Insert(c),
    }
}

proof fn lemma_count_bounds(len: int, size: int)
    requires
        size > 0,
        len >= 0,
    ensures
        ({
            let count = (len + size - 1) / size;
            &&& count >= 0
            &&& (count - 1) * size < len <= count * size
            &&& len == 0 ==> count == 0
        }),
{
    let count = (len + size - 1) / size;
    assert(count >= 0 && (count - 1) * size < len <= count * size && (len == 0 ==> count == 0))
        by (nonlinear_arith)
        requires
            size > 0,
            len >= 0,
            count == (len + size - 1) / size,
    ;
}

proof fn lemma_chunked_prefix(numbers: Seq<u32>, size: nat, k: nat)
    requires
        size > 0,
        k <= chunk_count(numbers.len(), size),
    ensures
        ({
            let end = if k * size <= numbers.len() {
                (k * size) as int
            } else {
                numbers.len() as int
            };
            chunked(numbers, size).take(k as int).flatten() == numbers.subrange(0, end)
        }),
    decreases k,
{
    let all = chunked(numbers, size);
    lemma_count_bounds(numbers.len() as int, size as int);
    if k > 0 {
        let j = (k - 1) as nat;
        lemma_chunked_prefix(numbers, size, j);
        let count = chunk_count(numbers.len(), size) as int;
        assert(j * size < numbers.len() && (j + 1) * size == j * size + size) by (nonlinear_arith)
            requires
                0 <= j <= count - 1,
                size > 0,
                (count - 1) * size < numbers.len(),
        ;
        assert(all.take(k as int) =~= all.take(j as int).push(all[j as int]));
        all.take(j as int).lemma_flatten_push(all[j as int]);
        let end = if k * size <= numbers.len() {
            (k * size) as int
        } else {
            numbers.len() as int
        };
        assert(all[j as int] == chunk_at(numbers, size, j as int));
        assert(numbers.subrange(0, (j * size) as int) + chunk_at(numbers, size, j as int)
            =~= numbers.subrange(0, end));
    }
}

/// Chunking asks for every number once: the chunks laid end to end are the
/// numbers in their order, no chunk is empty, and none holds more than `size`.
pub proof fn lemma_chunked(numbers: Seq<u32>, size: nat)
    requires
        size > 0,
    ensures
        chunked(numbers, size).flatten() == numbers,
        numbers.len() > 0 ==> chunked(numbers, size).len() > 0,
        forall|i: int|
            0 <= i < chunked(numbers, size).len() ==> 1 <= (#[trigger] chunked(
                numbers,
                size,
            )[i]).len() <= size,
{
    let all = chunked(numbers, size);
    let count = chunk_count(numbers.len(), size);
    lemma_count_bounds(numbers.len() as int, size as int);
    lemma_chunked_prefix(numbers, size, count);
    assert(all.take(count as int) =~= all);
    assert forall|i: int| 0 <= i < all.len() implies 1 <= (#[trigger] all[i]).len() <= size by {
        assert(i * size < numbers.len() && (i + 1) * size == i * size + size) by (nonlinear_arith)
            requires
                0 <= i <= count - 1,
                size > 0,
                (count - 1) * size < numbers.len(),
        ;
    }
}

/// Once the gaps of a store are filled, nothing is missing: with the
/// missing numbers of one probe added to what the store held, a probe under
/// the same head finds no gap.
pub proof fn lemma_filled(stored: Seq<u32>, latest: u32)
    ensures
        gaps(stored + gaps(stored, latest), latest).len() == 0,
{
    let filled = stored + gaps(stored, latest);
    let missing = gaps(filled, latest);
    lemma_gaps(stored, latest);
    lemma_gaps(filled, latest);
    if missing.len() > 0 {
        let number = missing[0];
        assert(missing.contains(number));
        if stored.contains(number) {
            let j = choose|j: int| 0 <= j < stored.len() && stored[j] == number;
            assert(filled[j] == number);
        } else {
            assert(gaps(stored, latest).contains(number));
            let found = gaps(stored, latest);
            let j = choose|j: int| 0 <= j < found.len() && found[j] == number;
            assert(filled[stored.len() + j] == number);
        }
    }
}

/// The backfill converges under a head that stands still. The first
/// pass asks the node for exactly the missing numbers, each once; when the
/// blocks with these numbers are in the store, the next probe finds nothing
/// missing, and the engine closes that pass with no block inserted, is done,
/// and asks for nothing more, so that the store stays as it is.
pub proof fn lemma_converges(engine: SyncEngineView, stored: Seq<u32>, latest: u32)
    requires
        engine.stage is Probing,
    ensures
        ({
            let missing = gaps(stored, latest);
            let first = engine.step(EventView::Probed { stored, latest });
            let second = engine.step(EventView::Probed { stored: stored + missing, latest });
            &&& missing.len() > 0 ==> first is Ok && first->Ok_0.1 is Fetch
                && first->Ok_0.1->Fetch_0.flatten() == missing
            &&& second == Ok::<(SyncEngineView, ActionView), ArchiveError>(
                (
                    SyncEngineView { sync: engine.sync.recorded(0), stage: StageView::Done },
                    ActionView::Finish,
                ),
            )
        }),
{
    lemma_filled(stored, latest);
    lemma_chunked(gaps(stored, latest), FETCH_CHUNK as nat);
}

/// The engine is done only when nothing is outstanding: a step ends in
/// `Done` only from probing a store without gaps or from an insertion that
/// took no row, never while answers are awaited; and blocks are handed to
/// the store only with the last outstanding answer, all answers together.
pub proof fn lemma_done_after_all(engine: SyncEngineView, event: EventView)
    requires
        engine.step(event) is Ok,
    ensures
        ({
            let (next, action) = engine.step(event)->Ok_0;
            &&& next.stage is Done ==> !(engine.stage is Fetching) && action is Finish
                && next.sync.missing == 0
            &&& engine.stage is Fetching && engine.stage->outstanding > 1 ==> next.stage is Fetching
                && next.stage->outstanding == engine.stage->outstanding - 1 && action is Wait
            &&& action is Insert ==> engine.stage is Fetching && engine.stage->outstanding <= 1
                && event is Fetched && action->Insert_0 == engine.stage->answers.push(
                event->Fetched_0,
            ).flatten()
        }),
{
}

} // verus!
