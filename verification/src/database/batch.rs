//! Multi-row statements under a ceiling on bound parameters.
//!
//! A [`Batch`] is filled row by row: `reserve` announces how many parameters
//! the next row binds, `append` adds statement text, `bind` adds a parameter
//! and its placeholder. When a row would take the statement under
//! construction past [`CHUNK_MAX`] parameters, `reserve` closes it and opens
//! another with the same leading text, so every row lies in one statement.

use crate::database::decimal::{decimal, push_decimal};
use crate::error::ArchiveError;
use crate::value::{SqlValue, SqlValueView, Statement, StatementView, statements_view, values_view};
use vstd::prelude::*;

verus! {

/// The most parameters one statement may bind.
pub const CHUNK_MAX: usize = 30_000;

/// One statement under construction.
struct Chunk {
    query: String,
    arguments: Vec<SqlValue>,
}

/// What a statement under construction holds: its text so far and the
/// parameters bound so far.
pub struct ChunkView {
    pub query: Seq<char>,
    pub arguments: Seq<SqlValueView>,
}

impl ChunkView {
    /// A statement that holds only its leading text.
    pub open spec fn start(leading: Seq<char>) -> ChunkView {
        ChunkView { query: leading, arguments: Seq::empty() }
    }

    /// The statement with `fragment` added to its text.
    pub open spec fn append(self, fragment: Seq<char>) -> ChunkView {
        ChunkView { query: self.query + fragment, arguments: self.arguments }
    }

    /// The statement with one more parameter, and `$` and the parameter's
    /// number (counted from 1) added to its text.
    pub open spec fn bind(self, value: SqlValueView) -> ChunkView {
        ChunkView {
            query: self.query + "$"@ + decimal(self.arguments.len() + 1),
            arguments: self.arguments.push(value),
        }
    }

    /// The finished statement: the text closed by `trailing`.
    pub open spec fn finish(self, trailing: Seq<char>) -> StatementView {
        StatementView { sql: self.query + trailing, arguments: self.arguments }
    }
}

impl View for Chunk {
    type V = ChunkView;

    closed spec fn view(&self) -> ChunkView {
        ChunkView { query: self.query@, arguments: values_view(self.arguments@) }
    }
}

impl Chunk {
    fn new(sql: &str) -> (chunk: Chunk)
        ensures
            chunk@ == ChunkView::start(sql@),
    {
        let chunk = Chunk { query: sql.to_owned(), arguments: Vec::new() };
        assert(values_view(chunk.arguments@) =~= Seq::empty());
        chunk
    }

    fn append(&mut self, sql: &str)
        ensures
            final(self)@ == old(self)@.append(sql@),
    {
        self.query.append(sql);
    }

    fn bind(&mut self, value: SqlValue)
        ensures
            final(self)@ == old(self)@.bind(value@),
    {
        self.arguments.push(value);
        self.query.append("$");
        push_decimal(&mut self.query, self.arguments.len());
        assert(values_view(self.arguments@) =~= values_view(old(self).arguments@).push(value@));
    }

    fn args_len(&self) -> (n: usize)
        ensures
            n == self@.arguments.len(),
    {
        self.arguments.len()
    }

    fn finish(self, trailing: &str) -> (statement: Statement)
        ensures
            statement@ == self@.finish(trailing@),
    {
        let Chunk { query, arguments } = self;
        let mut sql = query;
        sql.append(trailing);
        Statement { sql, arguments }
    }
}

/// Whether the store's wire format can carry every value of a row.
pub open spec fn all_encodable(row: Seq<SqlValueView>) -> bool {
    forall|i: int| 0 <= i < row.len() ==> (#[trigger] row[i]).encodable()
}

/// Whether the store's wire format can carry every value of `row`.
pub fn row_is_encodable(row: &Vec<SqlValue>) -> (yes: bool)
    ensures
        yes == all_encodable(values_view(row@)),
{
    let mut i: usize = 0;
    while i < row.len()
        invariant
            i <= row.len(),
            forall|j: int| 0 <= j < i ==> (#[trigger] values_view(row@)[j]).encodable(),
        decreases row.len() - i,
    {
        if !row[i].is_encodable() {
            assert(!values_view(row@)[i as int].encodable());
            return false;
        }
        i = i + 1;
    }
    true
}

spec fn chunks_view(chunks: Seq<Chunk>) -> Seq<ChunkView> {
    Seq::new(chunks.len(), |i: int| chunks[i]@)
}

/// A multi-row statement that splits itself under the parameter ceiling.
pub struct Batch {
    name: String,
    leading: String,
    trailing: String,
    closed: Vec<Chunk>,
    open: Chunk,
    len: usize,
}

/// What a [`Batch`] holds: the table's name, the text that every statement
/// starts and ends with, the statements so far in the order they were opened
/// (the last one is under construction), and the number of rows reserved.
pub struct BatchView {
    pub name: Seq<char>,
    pub leading: Seq<char>,
    pub trailing: Seq<char>,
    pub chunks: Seq<ChunkView>,
    pub len: nat,
}

impl BatchView {
    /// A batch always holds the statement under construction.
    pub open spec fn wf(self) -> bool {
        self.chunks.len() >= 1
    }

    /// The batch before any row: one statement that holds the leading text.
    pub open spec fn start(name: Seq<char>, leading: Seq<char>, trailing: Seq<char>) -> BatchView {
        BatchView { name, leading, trailing, chunks: seq![ChunkView::start(leading)], len: 0 }
    }

    /// The statement under construction.
    pub open spec fn current(self) -> ChunkView {
        self.chunks.last()
    }

    /// The batch with another statement in place of the one under construction.
    pub open spec fn with_current(self, chunk: ChunkView) -> BatchView {
        BatchView { chunks: self.chunks.drop_last().push(chunk), ..self }
    }

    /// The batch after a row of `arguments` parameters was announced: one row
    /// more, and a fresh statement if the row does not fit into the current one.
    pub open spec fn reserve(self, arguments: nat) -> BatchView {
        BatchView {
            chunks: if self.current().arguments.len() + arguments > CHUNK_MAX {
                self.chunks.push(ChunkView::start(self.leading))
            } else {
                self.chunks
            },
            len: self.len + 1,
            ..self
        }
    }

    /// The batch with `fragment` added to the text of the current statement.
    pub open spec fn append(self, fragment: Seq<char>) -> BatchView {
        self.with_current(self.current().append(fragment))
    }

    /// The batch with `value` bound in the current statement.
    pub open spec fn bind(self, value: SqlValueView) -> BatchView {
        self.with_current(self.current().bind(value))
    }

    /// The batch after the values of `row` were bound one after another,
    /// with a comma between two of them.
    pub open spec fn bind_all(self, row: Seq<SqlValueView>) -> BatchView
        decreases row.len(),
    {
        if row.len() == 0 {
            self
        } else {
            let before = self.bind_all(row.drop_last());
            let separated = if row.len() > 1 {
                before.append(","@)
            } else {
                before
            };
            separated.bind(row.last())
        }
    }

    /// The batch after one row: the row is reserved, a comma parts it from
    /// a row that the statement already holds, and its values are bound
    /// between parentheses.
    pub open spec fn with_row(self, row: Seq<SqlValueView>) -> BatchView {
        let reserved = self.reserve(row.len());
        let separated = if reserved.current().arguments.len() > 0 {
            reserved.append(","@)
        } else {
            reserved
        };
        separated.append("("@).bind_all(row).append(")"@)
    }

    /// The batch after the rows, first to last.
    pub open spec fn with_rows(self, rows: Seq<Seq<SqlValueView>>) -> BatchView
        decreases rows.len(),
    {
        if rows.len() == 0 {
            self
        } else {
            self.with_rows(rows.drop_last()).with_row(rows.last())
        }
    }

    /// The statements to execute, in order: none where no row was reserved,
    /// else every statement closed by the trailing text.
    pub open spec fn statements(self) -> Seq<StatementView> {
        if self.len == 0 {
            Seq::empty()
        } else {
            Seq::new(self.chunks.len(), |i: int| self.chunks[i].finish(self.trailing))
        }
    }
}

impl View for Batch {
    type V = BatchView;

    closed spec fn view(&self) -> BatchView {
        BatchView {
            name: self.name@,
            leading: self.leading@,
            trailing: self.trailing@,
            chunks: chunks_view(self.closed@).push(self.open@),
            len: self.len as nat,
        }
    }
}

impl Batch {
    /// A batch for the table `name`, whose statements start with `leading`
    /// (up to and including `VALUES`) and end with `trailing` (the conflict clause).
    pub fn new(name: &str, leading: &str, trailing: &str) -> (batch: Batch)
        ensures
            batch@ == BatchView::start(name@, leading@, trailing@),
    {
        let batch = Batch {
            name: name.to_owned(),
            leading: leading.to_owned(),
            trailing: trailing.to_owned(),
            closed: Vec::new(),
            open: Chunk::new(leading),
            len: 0,
        };
        assert(batch@.chunks =~= seq![ChunkView::start(leading@)]);
        batch
    }

    /// Announces a row of `arguments` parameters. A row that no statement can
    /// hold is refused and leaves the batch as it was. Otherwise the row is
    /// counted, and if the current statement cannot take it, that statement is
    /// closed and a fresh one opened; what was appended and bound before stays
    /// where it is.
    pub fn reserve(&mut self, arguments: usize) -> (result: Result<(), ArchiveError>)
        requires
            old(self)@.len < usize::MAX,
        ensures
            final(self)@.wf(),
            arguments > CHUNK_MAX ==> result == Err::<(), ArchiveError>(
                ArchiveError::ParameterLimitExceeded,
            ) && final(self)@ == old(self)@,
            arguments <= CHUNK_MAX ==> result == Ok::<(), ArchiveError>(()) && final(self)@ == old(
                self,
            )@.reserve(arguments as nat),
    {
        if arguments > CHUNK_MAX {
            return Err(ArchiveError::ParameterLimitExceeded);
        }
        self.len = self.len + 1;
        if self.open.args_len() > CHUNK_MAX - arguments {
            let mut chunk = Chunk::new(self.leading.as_str());
            std::mem::swap(&mut self.open, &mut chunk);
            self.closed.push(chunk);
            assert(self@.chunks =~= old(self)@.chunks.push(ChunkView::start(self.leading@)));
        }
        Ok(())
    }

    /// Adds `sql` to the text of the statement under construction.
    pub fn append(&mut self, sql: &str)
        ensures
            final(self)@.wf(),
            final(self)@ == old(self)@.append(sql@),
    {
        self.open.append(sql);
        assert(self@.chunks =~= old(self)@.append(sql@).chunks);
    }

    /// Binds `value` as the next parameter of the statement under
    /// construction and writes its placeholder. A value that the store's wire
    /// format cannot carry is refused and leaves the batch as it was.
    pub fn bind(&mut self, value: SqlValue) -> (result: Result<(), ArchiveError>)
        ensures
            final(self)@.wf(),
            value@.encodable() ==> result == Ok::<(), ArchiveError>(()) && final(self)@ == old(
                self,
            )@.bind(value@),
            !value@.encodable() ==> result == Err::<(), ArchiveError>(
                ArchiveError::EncodingError,
            ) && final(self)@ == old(self)@,
    {
        if !value.is_encodable() {
            return Err(ArchiveError::EncodingError);
        }
        self.open.bind(value);
        assert(self@.chunks =~= old(self)@.bind(value@).chunks);
        Ok(())
    }

    /// The number of parameters bound in the statement under construction.
    pub fn current_num_arguments(&self) -> (n: usize)
        ensures
            n == self@.current().arguments.len(),
    {
        self.open.args_len()
    }

    /// The name of the table that the batch is for.
    pub fn name(&self) -> (name: &str)
        ensures
            name@ == self@.name,
    {
        self.name.as_str()
    }

    /// The number of rows reserved so far.
    pub fn len(&self) -> (n: usize)
        ensures
            n == self@.len,
    {
        self.len
    }

    /// Adds one row whose parameters are `row`, in that order. A row that no
    /// statement can hold, or that holds a value without a representation in
    /// the store's wire format, is refused and leaves the batch as it was, so
    /// that the rows added before are not lost.
    pub fn push_row(&mut self, row: Vec<SqlValue>) -> (result: Result<(), ArchiveError>)
        requires
            old(self)@.len < usize::MAX,
        ensures
            final(self)@.wf(),
            row@.len() > CHUNK_MAX ==> result == Err::<(), ArchiveError>(
                ArchiveError::ParameterLimitExceeded,
            ) && final(self)@ == old(self)@,
            row@.len() <= CHUNK_MAX && !all_encodable(values_view(row@)) ==> result == Err::<
                (),
                ArchiveError,
            >(ArchiveError::EncodingError) && final(self)@ == old(self)@,
            row@.len() <= CHUNK_MAX && all_encodable(values_view(row@)) ==> result == Ok::<
                (),
                ArchiveError,
            >(()) && final(self)@ == old(self)@.with_row(values_view(row@)) && final(self)@.len
                == old(self)@.len + 1,
    {
        let ghost values = values_view(row@);
        if row.len() > CHUNK_MAX {
            return Err(ArchiveError::ParameterLimitExceeded);
        }
        if !row_is_encodable(&row) {
            return Err(ArchiveError::EncodingError);
        }
        match self.reserve(row.len()) {
            Ok(()) => {},
            Err(e) => {
                return Err(e);
            },
        }
        if self.current_num_arguments() > 0 {
            self.append(",");
        }
        self.append("(");
        let ghost base = self@;
        let mut first = true;
        for value in it: row
            invariant
                values_view(it.seq()) == values,
                all_encodable(values),
                first == (it.index() == 0),
                self@.wf(),
                self@.len == base.len,
                self@ == base.bind_all(values.take(it.index() as int)),
        {
            let ghost j = it.index() as int;
            if !first {
                self.append(",");
            }
            first = false;
            assert(value@ == values[j]);
            match self.bind(value) {
                Ok(()) => {},
                Err(e) => {
                    return Err(e);
                },
            }
            assert(values.take(j + 1).drop_last() =~= values.take(j));
        }
        assert(values.take(values.len() as int) =~= values);
        self.append(")");
        Ok(())
    }

    /// Closes every statement with the trailing text and hands them out in
    /// the order in which they are to be executed.
    pub fn finish(self) -> (statements: Vec<Statement>)
        ensures
            statements_view(statements@) == self@.statements(),
    {
        let Batch { name: _, leading: _, trailing, closed, open, len } = self;
        let mut statements: Vec<Statement> = Vec::new();
        if len > 0 {
            let ghost closed_view = chunks_view(closed@);
            for chunk in it: closed
                invariant
                    closed_view == chunks_view(it.seq()),
                    statements@.len() == it.index(),
                    forall|i: int|
                        0 <= i < statements@.len() ==> (#[trigger] statements@[i])@
                            == closed_view[i].finish(trailing@),
            {
                statements.push(chunk.finish(trailing.as_str()));
            }
            statements.push(open.finish(trailing.as_str()));
        }
        statements
    }
}

/// The placeholders of `count` parameters that follow `first` bound ones,
/// with a comma between two of them: `$4,$5,$6` for three after three.
pub open spec fn placeholders(first: nat, count: nat) -> Seq<char>
    decreases count,
{
    if count == 0 {
        Seq::empty()
    } else {
        let before = placeholders(first, (count - 1) as nat);
        let separated = if count > 1 {
            before + ","@
        } else {
            before
        };
        separated + "$"@ + decimal(first + count)
    }
}

/// The text of one row of `count` parameters that follow `first` bound
/// ones: its placeholders between parentheses.
pub open spec fn row_text(first: nat, count: nat) -> Seq<char> {
    "("@ + placeholders(first, count) + ")"@
}

impl ChunkView {
    /// The statement with one more row: a comma if it already holds
    /// parameters, the text of the row, and the row's parameters after those
    /// that it holds.
    pub open spec fn with_row(self, row: Seq<SqlValueView>) -> ChunkView {
        let separator = if self.arguments.len() > 0 {
            ","@
        } else {
            Seq::empty()
        };
        ChunkView {
            query: self.query + separator + row_text(self.arguments.len(), row.len()),
            arguments: self.arguments + row,
        }
    }
}

/// Binding the values of a row one after another adds their placeholders
/// to the text of the current statement and the values to its parameters,
/// and touches nothing else.
pub proof fn lemma_bind_all(batch: BatchView, row: Seq<SqlValueView>)
    requires
        batch.wf(),
    ensures
        batch.bind_all(row) == batch.with_current(
            ChunkView {
                query: batch.current().query + placeholders(
                    batch.current().arguments.len(),
                    row.len(),
                ),
                arguments: batch.current().arguments + row,
            },
        ),
    decreases row.len(),
{
    let current = batch.current();
    let first = current.arguments.len();
    if row.len() == 0 {
        assert(batch.chunks.drop_last().push(current) =~= batch.chunks);
    } else {
        lemma_bind_all(batch, row.drop_last());
        let after = batch.bind_all(row);
        assert(after.current().arguments =~= current.arguments + row);
        assert(after.current().query =~= current.query + placeholders(first, row.len()));
        assert(after.chunks =~= batch.chunks.drop_last().push(
            ChunkView {
                query: current.query + placeholders(first, row.len()),
                arguments: current.arguments + row,
            },
        ));
    }
}

/// One row goes whole into one statement: into the current one if its
/// parameters fit under the ceiling beside those that the statement holds,
/// else into a fresh one, which the row then opens. The statements before
/// stay as they are, and the row is counted.
pub proof fn lemma_with_row(batch: BatchView, row: Seq<SqlValueView>)
    requires
        batch.wf(),
    ensures
        batch.with_row(row).wf(),
        batch.with_row(row) == (BatchView {
            chunks: if batch.current().arguments.len() + row.len() <= CHUNK_MAX {
                batch.chunks.drop_last().push(batch.current().with_row(row))
            } else {
                batch.chunks.push(ChunkView::start(batch.leading).with_row(row))
            },
            len: batch.len + 1,
            ..batch
        }),
{
    let reserved = batch.reserve(row.len());
    let current = reserved.current();
    let separated = if current.arguments.len() > 0 {
        reserved.append(","@)
    } else {
        reserved
    };
    let opened = separated.append("("@);
    lemma_bind_all(opened, row);
    let bound = opened.bind_all(row);
    assert(bound.chunks.drop_last() =~= reserved.chunks.drop_last());
    assert(bound.append(")"@).current().query =~= current.with_row(row).query);
    if batch.current().arguments.len() + row.len() > CHUNK_MAX {
        assert(reserved.chunks.drop_last() =~= batch.chunks);
    }
}

/// The multi-row statements that hold `rows`, in the order in which they
/// are to be run: none where there is no row.
pub open spec fn batched(
    name: Seq<char>,
    leading: Seq<char>,
    trailing: Seq<char>,
    rows: Seq<Seq<SqlValueView>>,
) -> Seq<StatementView> {
    BatchView::start(name, leading, trailing).with_rows(rows).statements()
}

/// The rows of each statement: a row joins the rows of the statement
/// before it while their parameters together stay under the ceiling, and
/// opens the next statement when they do not.
pub open spec fn grouped(rows: Seq<Seq<SqlValueView>>) -> Seq<Seq<Seq<SqlValueView>>>
    decreases rows.len(),
{
    if rows.len() == 0 {
        Seq::empty()
    } else {
        let before = grouped(rows.drop_last());
        let row = rows.last();
        if before.len() > 0 && before.last().flatten().len() + row.len() <= CHUNK_MAX {
            before.drop_last().push(before.last().push(row))
        } else {
            before.push(seq![row])
        }
    }
}

/// The text of the rows of one statement: row after row between
/// parentheses, a comma before every row that follows parameters, the
/// placeholders numbered through.
pub open spec fn group_text(group: Seq<Seq<SqlValueView>>) -> Seq<char>
    decreases group.len(),
{
    if group.len() == 0 {
        Seq::empty()
    } else {
        let front = group.drop_last();
        let held = front.flatten().len();
        let separator = if held > 0 {
            ","@
        } else {
            Seq::empty()
        };
        group_text(front) + separator + row_text(held, group.last().len())
    }
}

/// Whether no row asks for more parameters than one statement may bind.
pub open spec fn rows_fit(rows: Seq<Seq<SqlValueView>>) -> bool {
    forall|i: int| 0 <= i < rows.len() ==> (#[trigger] rows[i]).len() <= CHUNK_MAX
}

/// Grouping parts the rows and loses none: the groups laid end to end are
/// the rows in their order, no group is empty, and no group holds more
/// parameters than one statement may bind.
pub proof fn lemma_grouped(rows: Seq<Seq<SqlValueView>>)
    requires
        rows_fit(rows),
    ensures
        grouped(rows).flatten() == rows,
        rows.len() > 0 ==> grouped(rows).len() > 0,
        forall|i: int|
            0 <= i < grouped(rows).len() ==> (#[trigger] grouped(rows)[i]).len() >= 1
                && grouped(rows)[i].flatten().len() <= CHUNK_MAX,
    decreases rows.len(),
{
    if rows.len() > 0 {
        let front = rows.drop_last();
        let row = rows.last();
        let before = grouped(front);
        lemma_rows_fit_front(rows);
        lemma_grouped(front);
        assert(front.push(row) =~= rows);
        if before.len() > 0 && before.last().flatten().len() + row.len() <= CHUNK_MAX {
            let last = before.last();
            assert(before.drop_last().push(last) =~= before);
            before.drop_last().lemma_flatten_push(last);
            before.drop_last().lemma_flatten_push(last.push(row));
            last.lemma_flatten_push(row);
        } else {
            before.lemma_flatten_push(seq![row]);
            Seq::<Seq<SqlValueView>>::empty().lemma_flatten_push(row);
        }
    }
}

proof fn lemma_rows_fit_front(rows: Seq<Seq<SqlValueView>>)
    requires
        rows_fit(rows),
        rows.len() > 0,
    ensures
        rows_fit(rows.drop_last()),
        rows.last().len() <= CHUNK_MAX,
{
    let front = rows.drop_last();
    assert forall|i: int| 0 <= i < front.len() implies (#[trigger] front[i]).len()
        <= CHUNK_MAX by {
        assert(front[i] == rows[i]);
    }
}

proof fn lemma_group_alone(row: Seq<SqlValueView>)
    ensures
        seq![row].flatten() == row,
        group_text(seq![row]) == row_text(0, row.len()),
{
    let alone: Seq<Seq<SqlValueView>> = seq![row];
    Seq::<Seq<SqlValueView>>::empty().lemma_flatten_push(row);
    assert(alone.drop_last() =~= Seq::<Seq<SqlValueView>>::empty());
    assert(group_text(alone.drop_last()) =~= Seq::<char>::empty());
}

/// The statements of a batch are the groups of its rows: as many
/// statements as groups, each with the parameters of the rows of its group,
/// in their order, and every row counted.
pub proof fn lemma_with_rows(
    name: Seq<char>,
    leading: Seq<char>,
    trailing: Seq<char>,
    rows: Seq<Seq<SqlValueView>>,
)
    requires
        rows_fit(rows),
    ensures
        ({
            let batch = BatchView::start(name, leading, trailing).with_rows(rows);
            &&& batch.wf()
            &&& batch.len == rows.len()
            &&& batch.leading == leading
            &&& batch.trailing == trailing
            &&& rows.len() == 0 ==> batch == BatchView::start(name, leading, trailing)
            &&& rows.len() > 0 ==> batch.chunks.len() == grouped(rows).len()
            &&& rows.len() > 0 ==> forall|i: int|
                0 <= i < batch.chunks.len() ==> (#[trigger] batch.chunks[i]).arguments == grouped(
                    rows,
                )[i].flatten() && batch.chunks[i].query == leading + group_text(grouped(rows)[i])
        }),
    decreases rows.len(),
{
    let start = BatchView::start(name, leading, trailing);
    if rows.len() > 0 {
        let front = rows.drop_last();
        let row = rows.last();
        let before = start.with_rows(front);
        let last = grouped(front).last();
        lemma_rows_fit_front(rows);
        lemma_with_rows(name, leading, trailing, front);
        lemma_grouped(front);
        lemma_with_row(before, row);
        lemma_group_alone(row);
        if front.len() > 0 && last.flatten().len() + row.len() <= CHUNK_MAX {
            last.lemma_flatten_push(row);
            assert(last.push(row).drop_last() =~= last);
        }
    }
}

/// Splitting a batch is exact: there are as many statements as groups of
/// rows, statement by statement the parameters are those of the rows of its
/// group in their order and the text is that of these rows between the
/// leading and the trailing text, the groups laid end to end are the rows, so that
/// every row lies whole in one statement and in no other, and no statement
/// binds more parameters than the ceiling allows. Where every statement
/// affects as many rows as it holds, the rows affected come to the number
/// of rows.
pub proof fn lemma_batched(
    name: Seq<char>,
    leading: Seq<char>,
    trailing: Seq<char>,
    rows: Seq<Seq<SqlValueView>>,
)
    requires
        rows_fit(rows),
    ensures
        ({
            let statements = batched(name, leading, trailing, rows);
            let groups = grouped(rows);
            &&& statements.len() == groups.len()
            &&& groups.flatten() == rows
            &&& forall|i: int|
                0 <= i < statements.len() ==> (#[trigger] statements[i]).arguments
                    == groups[i].flatten() && statements[i].sql == leading + group_text(groups[i])
                    + trailing && groups[i].len() >= 1 && statements[i].arguments.len()
                    <= CHUNK_MAX
        }),
{
    lemma_with_rows(name, leading, trailing, rows);
    lemma_grouped(rows);
}

/// Whether every row binds `width` parameters.
pub open spec fn rows_uniform(rows: Seq<Seq<SqlValueView>>, width: nat) -> bool {
    forall|i: int| 0 <= i < rows.len() ==> (#[trigger] rows[i]).len() == width
}

proof fn lemma_uniform_parameters(rows: Seq<Seq<SqlValueView>>, width: nat)
    requires
        rows_uniform(rows, width),
    ensures
        rows.flatten().len() == rows.len() * width,
    decreases rows.len(),
{
    if rows.len() > 0 {
        let front = rows.drop_last();
        lemma_rows_uniform_front(rows, width);
        lemma_uniform_parameters(front, width);
        front.lemma_flatten_push(rows.last());
        assert(front.push(rows.last()) =~= rows);
        assert((front.len() + 1) * width == front.len() * width + width) by (nonlinear_arith);
    }
}

proof fn lemma_rows_uniform_front(rows: Seq<Seq<SqlValueView>>, width: nat)
    requires
        rows_uniform(rows, width),
        rows.len() > 0,
    ensures
        rows_uniform(rows.drop_last(), width),
        rows.last().len() == width,
{
    let front = rows.drop_last();
    assert forall|i: int| 0 <= i < front.len() implies (#[trigger] front[i]).len() == width by {
        assert(front[i] == rows[i]);
    }
}

proof fn lemma_fits(held: int, width: int, per: int)
    requires
        width >= 1,
        held >= 0,
        per == CHUNK_MAX as int / width,
    ensures
        held * width + width <= CHUNK_MAX <==> held + 1 <= per,
{
    let max = CHUNK_MAX as int;
    assert(held * width + width <= max <==> held + 1 <= max / width) by (nonlinear_arith)
        requires
            width >= 1,
            held >= 0,
            max >= 0,
    ;
}

proof fn lemma_count(rows: int, per: int, groups: int, last: int)
    requires
        per >= 1,
        groups >= 1,
        1 <= last <= per,
        rows == (groups - 1) * per + last,
    ensures
        (rows + per - 1) / per == groups,
{
    assert((rows + per - 1) / per == groups) by (nonlinear_arith)
        requires
            per >= 1,
            1 <= last <= per,
            rows == (groups - 1) * per + last,
    ;
}

proof fn lemma_enough(rows: int, width: int, per: int, groups: int, last: int)
    requires
        width >= 1,
        per >= 1,
        groups >= 1,
        1 <= last <= per,
        per * width <= CHUNK_MAX,
        rows == (groups - 1) * per + last,
    ensures
        groups * CHUNK_MAX >= width * rows,
{
    let max = CHUNK_MAX as int;
    assert(groups * max >= width * rows) by (nonlinear_arith)
        requires
            width >= 1,
            per >= 1,
            groups >= 1,
            1 <= last <= per,
            per * width <= max,
            rows == (groups - 1) * per + last,
    ;
}

/// Rows of one width fill the statements evenly. With `per` the number of
/// rows of that width that fit under the ceiling, every statement but the
/// last holds `per` rows and the last at least one, so the statements are
/// the rows divided by `per`, rounded up: never fewer than the parameters
/// of all rows divided by the ceiling, rounded up.
pub proof fn lemma_grouped_uniform(rows: Seq<Seq<SqlValueView>>, width: nat)
    requires
        1 <= width <= CHUNK_MAX,
        rows_uniform(rows, width),
    ensures
        ({
            let per = CHUNK_MAX as int / width as int;
            let groups = grouped(rows);
            &&& per >= 1
            &&& groups.len() == (rows.len() + per - 1) / per
            &&& groups.len() * CHUNK_MAX >= width * rows.len()
            &&& forall|i: int|
                0 <= i < groups.len() ==> rows_uniform(#[trigger] groups[i], width)
            &&& forall|i: int| 0 <= i < groups.len() - 1 ==> (#[trigger] groups[i]).len() == per
            &&& rows.len() > 0 ==> groups.len() >= 1 && 1 <= groups.last().len() <= per
                && rows.len() == (groups.len() - 1) * per + groups.last().len()
        }),
    decreases rows.len(),
{
    let max = CHUNK_MAX as int;
    let per = max / width as int;
    assert(per >= 1 && per * width <= max) by (nonlinear_arith)
        requires
            1 <= width <= max,
            per == max / width as int,
    ;
    if rows.len() == 0 {
        assert((0 + per - 1) / per == 0) by (nonlinear_arith)
            requires
                per >= 1,
        ;
    } else {
        let front = rows.drop_last();
        let row = rows.last();
        let before = grouped(front);
        let groups = grouped(rows);
        lemma_rows_uniform_front(rows, width);
        lemma_grouped_uniform(front, width);
        if before.len() > 0 {
            let last = before.last();
            lemma_uniform_parameters(last, width);
            lemma_fits(last.len() as int, width as int, per);
            if last.flatten().len() + row.len() <= CHUNK_MAX {
                assert forall|i: int| 0 <= i < groups.len() implies rows_uniform(
                    #[trigger] groups[i],
                    width,
                ) by {
                    if i == groups.len() - 1 {
                        assert forall|j: int| 0 <= j < groups[i].len() implies (
                        #[trigger] groups[i][j]).len() == width by {
                            if j < last.len() {
                                assert(groups[i][j] == last[j]);
                            }
                        }
                    }
                }
            } else {
                assert(last.len() == per);
                assert((before.len() - 1) * per + per == (before.len() + 1 - 1) * per)
                    by (nonlinear_arith);
            }
        }
        lemma_count(rows.len() as int, per, groups.len() as int, groups.last().len() as int);
        lemma_enough(
            rows.len() as int,
            width as int,
            per,
            groups.len() as int,
            groups.last().len() as int,
        );
    }
}

/// Splitting rows of one width. For rows of `width` parameters each, with
/// `per` the number of such rows that fit under the ceiling: the statements
/// are the rows divided by `per`, rounded up, which is never fewer than the
/// parameters of all rows divided by the ceiling, rounded up; every
/// statement but the last holds the parameters of `per` rows and the last
/// those of at least one; and the parameters of the statements laid end to
/// end are those of the rows, so that every row lies whole in one statement
/// and, where every statement affects as many rows as it holds, the rows
/// affected come to the number of rows.
pub proof fn lemma_batch_splitting(
    name: Seq<char>,
    leading: Seq<char>,
    trailing: Seq<char>,
    rows: Seq<Seq<SqlValueView>>,
    width: nat,
)
    requires
        1 <= width <= CHUNK_MAX,
        rows_uniform(rows, width),
    ensures
        ({
            let per = CHUNK_MAX as int / width as int;
            let statements = batched(name, leading, trailing, rows);
            let groups = grouped(rows);
            &&& per >= 1
            &&& statements.len() == (rows.len() + per - 1) / per
            &&& statements.len() * CHUNK_MAX >= width * rows.len()
            &&& statements.len() == groups.len()
            &&& groups.flatten() == rows
            &&& forall|i: int|
                0 <= i < statements.len() ==> (#[trigger] statements[i]).arguments
                    == groups[i].flatten() && statements[i].arguments.len() == groups[i].len()
                    * width
            &&& forall|i: int| 0 <= i < statements.len() - 1 ==> (#[trigger] groups[i]).len() == per
            &&& rows.len() > 0 ==> 1 <= groups.last().len() <= per
        }),
{
    assert(rows_fit(rows));
    lemma_batched(name, leading, trailing, rows);
    lemma_grouped_uniform(rows, width);
    let statements = batched(name, leading, trailing, rows);
    let groups = grouped(rows);
    assert forall|i: int| 0 <= i < statements.len() implies (#[trigger] statements[i]).arguments
        == groups[i].flatten() && statements[i].arguments.len() == groups[i].len() * width by {
        lemma_uniform_parameters(groups[i], width);
    }
}

} // verus!
