//! The reader of a grid: which bytes a lookup needs, what is known of the
//! file so far, and a cursor over all cells.
//!
//! The reader never touches the byte source. It says what has to be read,
//! the caller reads it and hands the line back.
use crate::error::{Error, Failure};
use crate::header::EsriASCIIRasterHeader;
use crate::numeric::Numerical;
use crate::text::{
    lossy_text, next_token, number_value, parse_number, skips_advance, text_of, tokens,
    tokens_from,
};
use vstd::arithmetic::div_mod::{
    lemma_fundamental_div_mod_converse_div, lemma_fundamental_div_mod_converse_mod,
};
use vstd::prelude::*;

verus! {

/// The index of the first token at or after `from` that writes no number of
/// type `U`, or the number of tokens where all of them do.
pub open spec fn unparsable_from<U: Numerical>(words: Seq<Seq<u8>>, from: int) -> int
    decreases words.len() - from,
{
    if from < 0 || from >= words.len() {
        words.len() as int
    } else if number_value::<U>(words[from]) is None {
        from
    } else {
        unparsable_from::<U>(words, from + 1)
    }
}

/// The integers that a sequence of numbers stands for.
pub open spec fn values_of<U: Numerical>(numbers: Seq<U>) -> Seq<int> {
    numbers.map_values(|n: U| n.value())
}

/// What a data line holds for a grid of `ncols` columns: its numbers, or the
/// reason why it is no row. The first token that writes no number of type
/// `U` is reported before a wrong number of tokens.
pub open spec fn parsed_row<U: Numerical>(line: Seq<u8>, ncols: usize) -> Result<Seq<int>, Failure> {
    let words = tokens(line);
    let bad = unparsable_from::<U>(words, 0);
    if bad < words.len() {
        Err(Failure::TypeCast(lossy_text(words[bad]), "grid value"@, U::name()))
    } else if words.len() != ncols {
        Err(Failure::MismatchColumnCount(ncols, words.len() as usize))
    } else {
        Ok(Seq::new(words.len(), |i: int| number_value::<U>(words[i]).unwrap()))
    }
}

/// The numbers of a data line that is a row, and no numbers for any other
/// line.
pub open spec fn row_numbers<U: Numerical>(line: Seq<u8>, ncols: usize) -> Seq<int> {
    match parsed_row::<U>(line, ncols) {
        Ok(numbers) => numbers,
        Err(_) => Seq::empty(),
    }
}

/// Reads a data line as a row of `ncols` numbers.
pub fn parse_row<U: Numerical>(line: &[u8], ncols: usize) -> (row: Result<Vec<U>, Error>)
    ensures
        match row {
            Ok(values) => parsed_row::<U>(line@, ncols) == Ok::<Seq<int>, Failure>(
                values_of(values@),
            ),
            Err(e) => parsed_row::<U>(line@, ncols) == Err::<Seq<int>, Failure>(e@),
        },
{
    let mut values: Vec<U> = Vec::new();
    let mut pos: usize = 0;
    let ghost words = tokens(line@);
    loop
        invariant
            pos <= line@.len(),
            values@.len() <= pos,
            words == tokens(line@),
            values@.len() <= words.len(),
            words =~= words.subrange(0, values@.len() as int) + tokens_from(line@, pos as int),
            unparsable_from::<U>(words, 0) == unparsable_from::<U>(words, values@.len() as int),
            forall|i: int|
                0 <= i < values@.len() ==> number_value::<U>(words[i]) == Some(
                    (#[trigger] values@[i]).value(),
                ),
        decreases line@.len() - pos,
    {
        let (start, end) = next_token(line, pos);
        let ghost k = values@.len() as int;
        if start >= line.len() {
            proof {
                assert(tokens_from(line@, pos as int) =~= Seq::<Seq<u8>>::empty());
                assert(words.len() == k);
                assert(words.len() <= usize::MAX);
            }
            if values.len() != ncols {
                return Err(Error::MismatchColumnCount(ncols, values.len()));
            }
            proof {
                let expected = Seq::new(words.len(), |i: int| number_value::<U>(words[i]).unwrap());
                assert(values_of(values@) =~= expected);
            }
            return Ok(values);
        }
        proof {
            skips_advance(line@, pos as int);
            skips_advance(line@, start as int);
            assert(tokens_from(line@, pos as int) =~= seq![line@.subrange(start as int, end as int)]
                + tokens_from(line@, end as int));
            assert(words[k] == line@.subrange(start as int, end as int));
            assert(words.subrange(0, k + 1) =~= words.subrange(0, k).push(words[k]));
        }
        let word: &[u8] = vstd::slice::slice_subrange(line, start, end);
        match parse_number::<U>(word) {
            Some(n) => {
                values.push(n);
            },
            None => {
                return Err(
                    Error::TypeCast(text_of(word), "grid value".to_owned(), U::label()),
                );
            },
        }
        pos = end;
    }
}

/// The furthest line whose start is known, and where it starts.
#[derive(Debug)]
pub struct LineSeeker {
    pub line: usize,
    pub position: u64,
}

impl LineSeeker {
    /// Moves on to another line and its start.
    pub fn update(&mut self, line: usize, position: u64)
        ensures
            final(self).line == line,
            final(self).position == position,
    {
        self.line = line;
        self.position = position;
    }
}

/// What a lookup of one cell comes to.
#[derive(Debug)]
pub enum Fetch<U> {
    /// The row is in the cache: here is the cell's value.
    Value(U),
    /// The row starts at this offset of the byte source. Seek there, read one
    /// line and hand it to `load_row`.
    Read(u64),
    /// The row's start is not known yet. The furthest line whose start is
    /// known is `line`, which starts at `offset`: seek there, read that
    /// line, tell `skip_line` where it ends, and look the cell up again.
    Scan { line: usize, offset: u64 },
}

/// A reader of a grid that keeps what it has learnt of the file: where the
/// lines start, and the rows it has parsed.
///
/// Both caches only ever grow. Row 0 is the first data line of the file.
#[derive(Debug)]
pub struct EsriASCIIReader<T: Numerical, U: Numerical> {
    pub header: EsriASCIIRasterHeader<T, U>,
    line_cache: Vec<Option<Vec<U>>>,
    line_start_cache: Vec<Option<u64>>,
    data_start: u64,
    line_seeker: LineSeeker,
}

/// A cached row as a sequence.
pub open spec fn row_view<U>(row: Option<Vec<U>>) -> Option<Seq<U>> {
    match row {
        Some(values) => Some(values@),
        None => None,
    }
}

impl<T: Numerical, U: Numerical> EsriASCIIReader<T, U> {
    /// The header of the grid.
    pub closed spec fn grid(&self) -> EsriASCIIRasterHeader<T, U> {
        self.header
    }

    /// The parsed rows, by row index: nothing where a row was not read yet.
    pub closed spec fn rows(&self) -> Seq<Option<Seq<U>>> {
        self.line_cache@.map_values(|row: Option<Vec<U>>| row_view(row))
    }

    /// The offsets at which the rows start, by row index: nothing where a
    /// row was not reached yet.
    pub closed spec fn starts(&self) -> Seq<Option<u64>> {
        self.line_start_cache@
    }

    /// The offset of the first data line.
    pub closed spec fn data_start(&self) -> u64 {
        self.data_start
    }

    /// The furthest line whose start is known.
    pub closed spec fn furthest(&self) -> usize {
        self.line_seeker.line
    }

    /// Where the furthest line whose start is known starts.
    pub closed spec fn furthest_start(&self) -> u64 {
        self.line_seeker.position
    }

    /// What the reader holds is consistent: one cache entry per row, the
    /// starts of all lines up to the furthest one and of no other, and only
    /// whole rows.
    pub open spec fn wf(&self) -> bool {
        let nrows = self.grid().nrows as int;
        &&& self.grid().wf()
        &&& self.rows().len() == nrows
        &&& self.starts().len() == nrows
        &&& self.furthest() < nrows
        &&& self.starts()[0] == Some(self.data_start())
        &&& self.starts()[self.furthest() as int] == Some(self.furthest_start())
        &&& forall|i: int| 0 <= i <= self.furthest() ==> (#[trigger] self.starts()[i]) is Some
        &&& forall|i: int| self.furthest() < i < nrows ==> (#[trigger] self.starts()[i]) is None
        &&& forall|i: int|
            0 <= i < nrows ==> ((#[trigger] self.rows()[i]) matches Some(values)
                ==> values.len() == self.grid().ncols)
    }

    /// What a lookup of the cell at `row` and `col` comes to, the cell being
    /// in the grid.
    pub open spec fn plan(&self, row: int, col: int) -> Fetch<U> {
        match self.rows()[row] {
            Some(values) => Fetch::Value(values[col]),
            None => match self.starts()[row] {
                Some(offset) => Fetch::Read(offset),
                None => Fetch::Scan { line: self.furthest(), offset: self.furthest_start() },
            },
        }
    }

    /// What a lookup of the cell that holds a point comes to: nothing where
    /// the point lies outside the grid's bounds.
    pub open spec fn found(&self, x: int, y: int) -> Option<Fetch<U>> {
        if self.grid().covers(x, y) {
            let (row, col) = self.grid().cell_of(x, y);
            Some(self.plan(row, col))
        } else {
            None
        }
    }

    /// Whether the start of every row is known.
    pub open spec fn indexed(&self) -> bool {
        forall|i: int| 0 <= i < self.grid().nrows ==> (#[trigger] self.starts()[i]) is Some
    }

    /// A reader for a grid whose data starts at `data_start`. Nothing is
    /// known of the file yet but where its first row starts.
    pub fn new(header: EsriASCIIRasterHeader<T, U>, data_start: u64) -> (reader: Self)
        requires
            header.wf(),
        ensures
            reader.wf(),
            reader.grid() == header,
            reader.data_start() == data_start,
            reader.furthest() == 0,
            reader.furthest_start() == data_start,
            reader.rows() == Seq::new(header.nrows as nat, |i: int| None::<Seq<U>>),
            reader.starts() == Seq::new(
                header.nrows as nat,
                |i: int| if i == 0 { Some(data_start) } else { None },
            ),
    {
        let nrows: usize = header.num_rows();
        let mut line_cache: Vec<Option<Vec<U>>> = Vec::new();
        let mut line_start_cache: Vec<Option<u64>> = Vec::new();
        let mut i: usize = 0;
        while i < nrows
            invariant
                i <= nrows,
                line_cache@.len() == i,
                line_start_cache@.len() == i,
                forall|j: int| 0 <= j < i ==> (#[trigger] line_cache@[j]) is None,
                forall|j: int|
                    0 <= j < i ==> (#[trigger] line_start_cache@[j]) == (if j == 0 {
                        Some(data_start)
                    } else {
                        None
                    }),
            decreases nrows - i,
        {
            line_cache.push(None);
            line_start_cache.push(if i == 0 { Some(data_start) } else { None });
            i += 1;
        }
        let reader = Self {
            header,
            line_cache,
            line_start_cache,
            data_start,
            line_seeker: LineSeeker { line: 0, position: data_start },
        };
        assert(reader.rows() =~= Seq::new(header.nrows as nat, |i: int| None::<Seq<U>>));
        assert(reader.starts() =~= Seq::new(
            header.nrows as nat,
            |i: int| if i == 0 { Some(data_start) } else { None },
        ));
        reader
    }
}

impl<T: Numerical, U: Numerical> EsriASCIIReader<T, U> {
    /// The header of the grid.
    pub fn header(&self) -> (h: EsriASCIIRasterHeader<T, U>)
        ensures
            h == self.grid(),
    {
        self.header
    }

    /// What a lookup of the cell at `row` and `col` needs: nothing more where
    /// the row is cached, else the line to read or the lines to pass first.
    pub fn get_index(&self, row: usize, col: usize) -> (found: Result<Fetch<U>, Error>)
        requires
            self.wf(),
        ensures
            found is Ok <==> row < self.grid().nrows && col < self.grid().ncols,
            found matches Ok(fetch) ==> fetch == self.plan(row as int, col as int),
            found matches Err(e) ==> e@ == Failure::OutOfBounds(row, col),
    {
        if row >= self.header.nrows || col >= self.header.ncols {
            return Err(Error::OutOfBounds(row, col));
        }
        assert(self.rows()[row as int] == row_view(self.line_cache@[row as int]));
        if let Some(values) = &self.line_cache[row] {
            return Ok(Fetch::Value(values[col]));
        }
        match self.line_start_cache[row] {
            Some(offset) => Ok(Fetch::Read(offset)),
            None => Ok(
                Fetch::Scan { line: self.line_seeker.line, offset: self.line_seeker.position },
            ),
        }
    }

    /// What a lookup of the cell that holds the point comes to, or nothing
    /// where the point lies outside the grid's bounds. A point within the
    /// bounds always has a cell.
    pub fn get(&self, x: T, y: T) -> (found: Option<Fetch<U>>)
        requires
            self.wf(),
        ensures
            found == self.found(x.value(), y.value()),
            found is Some <==> self.grid().covers(x.value(), y.value()),
            found matches Some(fetch) ==> {
                let (row, col) = self.grid().cell_of(x.value(), y.value());
                &&& 0 <= row < self.grid().nrows
                &&& 0 <= col < self.grid().ncols
            },
    {
        match self.header.index_of(x, y) {
            Some((row, col)) => match self.get_index(row, col) {
                Ok(fetch) => Some(fetch),
                Err(_) => None,
            },
            None => None,
        }
    }

    /// Whether the start of every row is known, so that no lookup has to
    /// pass over lines any more.
    pub fn is_indexed(&self) -> (whole: bool)
        requires
            self.wf(),
        ensures
            whole == self.indexed(),
            whole == (self.furthest() + 1 == self.grid().nrows),
    {
        let whole: bool = self.line_seeker.line + 1 == self.header.nrows;
        proof {
            if !whole {
                assert(self.starts()[self.furthest() + 1] is None);
            }
        }
        whole
    }

    /// A lookup at a corner of the grid finds a cell, and a lookup one cell
    /// size beyond a corner, along either axis, finds none.
    pub proof fn corners_are_found(self)
        requires
            self.wf(),
        ensures
            ({
                let size = self.grid().cellsize.value();
                let (min_x, min_y) = (self.grid().xll.value(), self.grid().yll.value());
                let (max_x, max_y) = (self.grid().xur.value(), self.grid().yur.value());
                &&& self.found(min_x, min_y) is Some
                &&& self.found(max_x, max_y) is Some
                &&& self.found(min_x, max_y) is Some
                &&& self.found(max_x, min_y) is Some
                &&& self.found(min_x - size, min_y) is None
                &&& self.found(min_x, min_y - size) is None
                &&& self.found(max_x + size, max_y) is None
                &&& self.found(max_x, max_y + size) is None
                &&& self.found(min_x - size, max_y) is None
                &&& self.found(min_x, max_y + size) is None
                &&& self.found(max_x + size, min_y) is None
                &&& self.found(max_x, min_y - size) is None
            }),
    {
        self.grid().corners_are_covered();
    }

    /// Takes note of the end of the furthest known line, which is the start
    /// of the next one, on the way to `row`. With no offset, the data ended
    /// before `row`: that is an error, and nothing changes.
    pub fn skip_line(&mut self, row: usize, next_start: Option<u64>) -> (done: Result<(), Error>)
        requires
            old(self).wf(),
            old(self).furthest() < row < old(self).grid().nrows,
        ensures
            final(self).grid() == old(self).grid(),
            final(self).rows() == old(self).rows(),
            final(self).data_start() == old(self).data_start(),
            match next_start {
                Some(offset) => {
                    &&& done is Ok
                    &&& final(self).wf()
                    &&& final(self).furthest() == old(self).furthest() + 1
                    &&& final(self).furthest_start() == offset
                    &&& final(self).starts() == old(self).starts().update(
                        old(self).furthest() + 1,
                        Some(offset),
                    )
                },
                None => {
                    &&& done matches Err(e) && e@ == Failure::MismatchedRowCount(
                        row,
                        old(self).furthest(),
                    )
                    &&& *final(self) == *old(self)
                },
            },
    {
        match next_start {
            Some(offset) => {
                let line: usize = self.line_seeker.line + 1;
                self.line_start_cache.set(line, Some(offset));
                self.line_seeker.update(line, offset);
                Ok(())
            },
            None => Err(Error::MismatchedRowCount(row, self.line_seeker.line)),
        }
    }

    /// Takes in the line of `row` and gives the value of its cell at `col`.
    ///
    /// A row that is cached already stays as it is. Else the line is parsed:
    /// a whole row goes into the cache, anything else is an error and
    /// changes nothing. With no line, the data ended before `row`.
    pub fn load_row(&mut self, row: usize, col: usize, line: Option<&[u8]>) -> (value: Result<
        U,
        Error,
    >)
        requires
            old(self).wf(),
            row < old(self).grid().nrows,
            col < old(self).grid().ncols,
        ensures
            final(self).wf(),
            final(self).grid() == old(self).grid(),
            final(self).starts() == old(self).starts(),
            final(self).data_start() == old(self).data_start(),
            final(self).furthest() == old(self).furthest(),
            final(self).furthest_start() == old(self).furthest_start(),
            forall|i: int|
                0 <= i < old(self).rows().len() && i != row ==> final(self).rows()[i] == old(
                    self,
                ).rows()[i],
            match old(self).rows()[row as int] {
                Some(cached) => final(self).rows() == old(self).rows() && value == Ok::<U, Error>(
                    cached[col as int],
                ),
                None => match line {
                    None => {
                        &&& final(self).rows() == old(self).rows()
                        &&& value matches Err(e) && e@ == Failure::MismatchedRowCount(row, row)
                    },
                    Some(bytes) => match parsed_row::<U>(bytes@, old(self).grid().ncols) {
                        Ok(numbers) => {
                            &&& value matches Ok(v) && v.value() == numbers[col as int]
                            &&& final(self).rows()[row as int] matches Some(values) && values_of(
                                values,
                            ) == numbers
                        },
                        Err(failure) => {
                            &&& final(self).rows() == old(self).rows()
                            &&& value matches Err(e) && e@ == failure
                        },
                    },
                },
            },
    {
        assert(self.rows()[row as int] == row_view(self.line_cache@[row as int]));
        if let Some(values) = &self.line_cache[row] {
            return Ok(values[col]);
        }
        let bytes: &[u8] = match line {
            Some(bytes) => bytes,
            None => {
                return Err(Error::MismatchedRowCount(row, row));
            },
        };
        let values: Vec<U> = match parse_row::<U>(bytes, self.header.ncols) {
            Ok(values) => values,
            Err(e) => {
                return Err(e);
            },
        };
        assert(values_of(values@).len() == values@.len());
        let value: U = values[col];
        let ghost before = self.rows();
        let ghost kept = values@;
        self.line_cache.set(row, Some(values));
        proof {
            assert(self.rows() =~= before.update(row as int, Some(kept)));
        }
        Ok(value)
    }
}

/// Where a forward pass over the data lines stands with its byte source.
#[derive(Debug, PartialEq, Eq, Clone, Copy, Structural)]
pub enum LineReader {
    /// The source was not moved to the first data line yet.
    Uninitialized { data_start: u64 },
    /// The source stands in the data: lines are read one after the other.
    Initialized,
    /// The source could not be moved to the first data line.
    Invalid,
}

/// What a forward pass needs of its byte source to get its next line.
#[derive(Debug, PartialEq, Eq, Clone, Copy, Structural)]
pub enum LineRequest {
    /// Seek to this offset, and say with `sought` how it went.
    Seek(u64),
    /// Read the next line.
    Line,
    /// Nothing: no line will come.
    Nothing,
}

impl LineReader {
    /// What getting the next line takes in this state.
    pub open spec fn request(self) -> LineRequest {
        match self {
            LineReader::Uninitialized { data_start } => LineRequest::Seek(data_start),
            LineReader::Initialized => LineRequest::Line,
            LineReader::Invalid => LineRequest::Nothing,
        }
    }

    /// The state after a seek to the first data line that `reached` it or
    /// failed. Only a pass that was not started yet changes.
    pub open spec fn after_seek(self, reached: bool) -> LineReader {
        match self {
            LineReader::Uninitialized { data_start } => if reached {
                LineReader::Initialized
            } else {
                LineReader::Invalid
            },
            other => other,
        }
    }

    /// What getting the next line takes.
    pub fn next(&self) -> (request: LineRequest)
        ensures
            request == self.request(),
    {
        match self {
            LineReader::Uninitialized { data_start } => LineRequest::Seek(*data_start),
            LineReader::Initialized => LineRequest::Line,
            LineReader::Invalid => LineRequest::Nothing,
        }
    }

    /// Takes note of how the seek to the first data line went.
    pub fn sought(&mut self, reached: bool)
        ensures
            *final(self) == old(self).after_seek(reached),
    {
        let after: LineReader = match self {
            LineReader::Uninitialized { data_start } => if reached {
                LineReader::Initialized
            } else {
                LineReader::Invalid
            },
            LineReader::Initialized => LineReader::Initialized,
            LineReader::Invalid => LineReader::Invalid,
        };
        *self = after;
    }
}

/// One step of a pass over all cells.
#[derive(Debug)]
pub enum Step<U> {
    /// Seek the byte source to this offset, then call `sought`, or `failed`
    /// with the error.
    Seek(u64),
    /// Read the next line and hand it to `line`, or the error to `failed`.
    Line,
    /// The next cell: its row, its column and its value.
    Cell(usize, usize, U),
    /// The pass is over.
    End,
}

/// A single pass over all cells of a grid, row by row from the first data
/// line on, each row from left to right.
///
/// The pass ends after the last cell of the last row, at the end of the
/// data, or with the first error. Once it has ended it stays so.
#[derive(Debug)]
pub struct EsriASCIIRasterIntoIterator<T: Numerical, U: Numerical> {
    pub header: EsriASCIIRasterHeader<T, U>,
    line_reader: LineReader,
    row_it: Option<Vec<U>>,
    row: usize,
    col: usize,
    terminated: bool,
}

impl<T: Numerical, U: Numerical> EsriASCIIRasterIntoIterator<T, U> {
    /// The header of the grid.
    pub closed spec fn grid(&self) -> EsriASCIIRasterHeader<T, U> {
        self.header
    }

    /// Where the pass stands with its byte source.
    pub closed spec fn source(&self) -> LineReader {
        self.line_reader
    }

    /// The row that is being handed out, if one is loaded.
    pub closed spec fn loaded(&self) -> Option<Seq<U>> {
        row_view(self.row_it)
    }

    /// The row of the next cell, or of the last one where its row is done.
    pub closed spec fn row(&self) -> usize {
        self.row
    }

    /// The column of the next cell, or the number of columns where the row
    /// is done.
    pub closed spec fn col(&self) -> usize {
        self.col
    }

    /// Whether the pass has ended.
    pub closed spec fn terminated(&self) -> bool {
        self.terminated
    }

    /// What the pass holds is consistent.
    pub open spec fn wf(&self) -> bool {
        &&& self.grid().wf()
        &&& self.row() <= self.grid().nrows
        &&& self.col() <= self.grid().ncols
        &&& !self.terminated() ==> self.row() < self.grid().nrows
        &&& self.loaded() matches Some(values) ==> values.len() == self.grid().ncols
    }

    /// The number of cells handed out so far.
    pub open spec fn yielded(&self) -> int {
        self.row() * self.grid().ncols + self.col()
    }

    /// Whether the pass waits for a line.
    pub open spec fn awaits_line(&self) -> bool {
        &&& !self.terminated()
        &&& self.source() == LineReader::Initialized
        &&& self.loaded() is None
    }

    /// A pass over the grid of `header`, whose data starts at `data_start`.
    pub fn new(header: EsriASCIIRasterHeader<T, U>, data_start: u64) -> (pass: Self)
        requires
            header.wf(),
        ensures
            pass.wf(),
            pass.grid() == header,
            pass.source() == (LineReader::Uninitialized { data_start }),
            pass.loaded() is None,
            pass.row() == 0,
            pass.col() == 0,
            !pass.terminated(),
    {
        Self {
            header,
            line_reader: LineReader::Uninitialized { data_start },
            row_it: None,
            row: 0,
            col: 0,
            terminated: false,
        }
    }

    /// The header of the grid.
    pub fn header(&self) -> (h: EsriASCIIRasterHeader<T, U>)
        ensures
            h == self.grid(),
    {
        self.header
    }

    /// The next step of the pass.
    ///
    /// A pass that has ended stays ended. Else a row that is done gives way
    /// to the next one, and the pass ends after the last row. Then the step
    /// is the next cell of the loaded row, or what it takes to load one.
    pub fn next(&mut self) -> (step: Step<U>)
        requires
            old(self).wf(),
        ensures
            final(self).wf(),
            final(self).grid() == old(self).grid(),
            final(self).source() == old(self).source(),
            old(self).terminated() ==> step is End && *final(self) == *old(self),
            !old(self).terminated() ==> {
                let done = old(self).col() >= old(self).grid().ncols;
                let row = if done { old(self).row() + 1 } else { old(self).row() as int };
                let col = if done { 0 } else { old(self).col() as int };
                let loaded = if done { None } else { old(self).loaded() };
                if row >= old(self).grid().nrows {
                    step is End && final(self).terminated()
                } else {
                    &&& final(self).row() == row
                    &&& match loaded {
                        Some(values) => {
                            &&& step == Step::Cell(row as usize, col as usize, values[col])
                            &&& final(self).col() == col + 1
                            &&& final(self).loaded() == loaded
                            &&& !final(self).terminated()
                            &&& row * old(self).grid().ncols + col == old(self).yielded()
                            &&& final(self).yielded() == old(self).yielded() + 1
                        },
                        None => {
                            &&& final(self).col() == col
                            &&& final(self).loaded() is None
                            &&& match old(self).source().request() {
                                LineRequest::Seek(offset) => step == Step::<U>::Seek(offset)
                                    && !final(self).terminated(),
                                LineRequest::Line => step is Line && !final(self).terminated(),
                                LineRequest::Nothing => step is End && final(self).terminated(),
                            }
                        },
                    }
                }
            },
    {
        if self.terminated {
            return Step::End;
        }
        if self.col >= self.header.ncols {
            assert((self.row + 1) * self.header.ncols == self.row * self.header.ncols
                + self.header.ncols) by (nonlinear_arith);
            self.row_it = None;
            self.row += 1;
            self.col = 0;
            if self.row >= self.header.nrows {
                self.terminated = true;
                return Step::End;
            }
        }
        if self.row_it.is_none() {
            match self.line_reader.next() {
                LineRequest::Seek(offset) => {
                    return Step::Seek(offset);
                },
                LineRequest::Line => {
                    return Step::Line;
                },
                LineRequest::Nothing => {
                    self.terminated = true;
                    return Step::End;
                },
            }
        }
        let current_col: usize = self.col;
        let current_row: usize = self.row;
        let value: U = match &self.row_it {
            Some(values) => values[current_col],
            None => {
                return Step::End;
            },
        };
        self.col += 1;
        Step::Cell(current_row, current_col, value)
    }

    /// Takes note that the seek to the first data line went well.
    pub fn sought(&mut self)
        requires
            old(self).wf(),
        ensures
            final(self).wf(),
            final(self).source() == old(self).source().after_seek(true),
            final(self).grid() == old(self).grid(),
            final(self).loaded() == old(self).loaded(),
            final(self).row() == old(self).row(),
            final(self).col() == old(self).col(),
            final(self).terminated() == old(self).terminated(),
    {
        self.line_reader.sought(true);
    }

    /// Takes in the next line of the data, or its end.
    ///
    /// A pass that waits for no line does not change. For one that does,
    /// the end of the data ends the pass quietly; a line that is a row is
    /// loaded; any other line ends the pass with the error that is
    /// returned.
    pub fn line(&mut self, line: Option<&[u8]>) -> (error: Option<Error>)
        requires
            old(self).wf(),
        ensures
            final(self).wf(),
            final(self).grid() == old(self).grid(),
            final(self).source() == old(self).source(),
            final(self).row() == old(self).row(),
            final(self).col() == old(self).col(),
            !old(self).awaits_line() ==> error is None && *final(self) == *old(self),
            old(self).awaits_line() ==> match line {
                None => error is None && final(self).terminated() && final(self).loaded() is None,
                Some(bytes) => match parsed_row::<U>(bytes@, old(self).grid().ncols) {
                    Ok(numbers) => {
                        &&& error is None
                        &&& !final(self).terminated()
                        &&& final(self).loaded() matches Some(values) && values_of(values)
                            == numbers
                    },
                    Err(failure) => {
                        &&& error matches Some(e) && e@ == failure
                        &&& final(self).terminated()
                        &&& final(self).loaded() is None
                    },
                },
            },
    {
        let waiting: bool = !self.terminated && self.row_it.is_none() && match self.line_reader {
            LineReader::Initialized => true,
            _ => false,
        };
        if !waiting {
            return None;
        }
        let bytes: &[u8] = match line {
            Some(bytes) => bytes,
            None => {
                self.terminated = true;
                return None;
            },
        };
        match parse_row::<U>(bytes, self.header.ncols) {
            Ok(values) => {
                assert(values_of(values@).len() == values@.len());
                self.row_it = Some(values);
                None
            },
            Err(e) => {
                self.terminated = true;
                Some(e)
            },
        }
    }

    /// Takes note that the byte source failed, and gives the error to hand
    /// out. The pass has ended; one that was not started yet never will be.
    pub fn failed(&mut self, error: std::io::Error) -> (e: Error)
        requires
            old(self).wf(),
        ensures
            final(self).wf(),
            e@ == Failure::Io(error),
            final(self).terminated(),
            final(self).source() == old(self).source().after_seek(false),
            final(self).grid() == old(self).grid(),
            final(self).loaded() == old(self).loaded(),
            final(self).row() == old(self).row(),
            final(self).col() == old(self).col(),
    {
        self.line_reader.sought(false);
        self.terminated = true;
        Error::Io(error)
    }
}

impl<T: Numerical, U: Numerical> EsriASCIIReader<T, U> {
    /// Gives up the caches for a single pass over all cells, from the first
    /// data line on.
    pub fn into_iter(self) -> (pass: EsriASCIIRasterIntoIterator<T, U>)
        requires
            self.wf(),
        ensures
            pass.wf(),
            pass.grid() == self.grid(),
            pass.source() == (LineReader::Uninitialized { data_start: self.data_start() }),
            pass.loaded() is None,
            pass.row() == 0,
            pass.col() == 0,
            !pass.terminated(),
    {
        EsriASCIIRasterIntoIterator::new(self.header, self.data_start)
    }
}

/// The number of data lines, from `from` on, that a pass gets through: it
/// stops at the first line that is no row, at the end of the lines, and
/// after `nrows` lines.
pub open spec fn whole_rows<U: Numerical>(
    lines: Seq<Vec<u8>>,
    ncols: usize,
    nrows: int,
    from: int,
) -> int
    decreases nrows - from,
{
    if from < 0 || from >= nrows || from >= lines.len() {
        from
    } else if parsed_row::<U>(lines[from]@, ncols) is Err {
        from
    } else {
        whole_rows::<U>(lines, ncols, nrows, from + 1)
    }
}

/// The cells that a pass over the data lines of a grid hands out, in order:
/// row, column and value. They are the cells of the rows that the pass gets
/// through, row by row, each row from its first column to its last.
pub open spec fn cells_of<T: Numerical, U: Numerical>(
    header: EsriASCIIRasterHeader<T, U>,
    lines: Seq<Vec<u8>>,
) -> Seq<(int, int, int)> {
    let ncols = header.ncols;
    let rows = whole_rows::<U>(lines, ncols, header.nrows as int, 0);
    Seq::new(
        (rows * ncols) as nat,
        |i: int|
            (
                i / (ncols as int),
                i % (ncols as int),
                row_numbers::<U>(lines[i / (ncols as int)]@, ncols)[i % (ncols as int)],
            ),
    )
}

/// The error that ends a pass over the data lines of a grid, if one does:
/// what is wrong with the first line that is no row, unless the pass ends
/// before it.
pub open spec fn failure_of<T: Numerical, U: Numerical>(
    header: EsriASCIIRasterHeader<T, U>,
    lines: Seq<Vec<u8>>,
) -> Option<Failure> {
    let rows = whole_rows::<U>(lines, header.ncols, header.nrows as int, 0);
    if rows < header.nrows && rows < lines.len() {
        match parsed_row::<U>(lines[rows]@, header.ncols) {
            Ok(_) => None,
            Err(failure) => Some(failure),
        }
    } else {
        None
    }
}

/// What a pass over all cells came to.
#[derive(Debug)]
pub struct Cells<U> {
    /// The cells that were handed out, in order: row, column and value.
    pub cells: Vec<(usize, usize, U)>,
    /// The error that ended the pass, if one did.
    pub error: Option<Error>,
}

/// The steps that a pass has before it at most.
pub open spec fn steps_left<T: Numerical, U: Numerical>(
    pass: EsriASCIIRasterIntoIterator<T, U>,
) -> int {
    (pass.grid().nrows - pass.row()) * (pass.grid().ncols + 1) - pass.col() - (if pass.loaded()
        is Some {
        1int
    } else {
        0int
    }) + (if pass.source() is Uninitialized {
        1int
    } else {
        0int
    })
}

/// Runs a pass over a grid whose data lines are in memory, and collects what
/// it hands out.
pub fn read_cells<T: Numerical, U: Numerical>(
    header: EsriASCIIRasterHeader<T, U>,
    lines: &Vec<Vec<u8>>,
) -> (out: Cells<U>)
    requires
        header.wf(),
    ensures
        out.cells@.len() == cells_of(header, lines@).len(),
        forall|i: int|
            0 <= i < out.cells@.len() ==> {
                let cell = #[trigger] out.cells@[i];
                (cell.0 as int, cell.1 as int, cell.2.value()) == cells_of(header, lines@)[i]
            },
        match failure_of(header, lines@) {
            Some(failure) => out.error matches Some(e) && e@ == failure,
            None => out.error is None,
        },
{
    let mut pass: EsriASCIIRasterIntoIterator<T, U> = EsriASCIIRasterIntoIterator::new(header, 0);
    let mut cells: Vec<(usize, usize, U)> = Vec::new();
    let mut error: Option<Error> = None;
    let mut fed: usize = 0;
    let ghost ncols = header.ncols as int;
    let ghost nrows = header.nrows as int;
    proof {
        assert((nrows - 0) * (ncols + 1) >= ncols + 1) by (nonlinear_arith)
            requires
                nrows >= 1,
                ncols >= 1,
        ;
    }
    loop
        invariant_except_break
            !pass.terminated(),
            error is None,
            fed == pass.row() + (if pass.loaded() is Some { 1int } else { 0int }),
            pass.loaded() matches Some(values) ==> parsed_row::<U>(
                lines@[pass.row() as int]@,
                header.ncols,
            ) == Ok::<Seq<int>, Failure>(values_of(values)),
        invariant
            header.wf(),
            ncols == header.ncols,
            nrows == header.nrows,
            pass.wf(),
            pass.grid() == header,
            !(pass.source() is Invalid),
            fed <= lines@.len(),
            fed <= nrows,
            whole_rows::<U>(lines@, header.ncols, nrows, 0) == whole_rows::<U>(
                lines@,
                header.ncols,
                nrows,
                fed as int,
            ),
            forall|j: int| 0 <= j < fed ==> (#[trigger] parsed_row::<U>(lines@[j]@, header.ncols)) is Ok,
            pass.loaded() is None ==> pass.col() == 0 || pass.terminated(),
            cells@.len() == pass.row() * ncols + pass.col() || pass.terminated(),
            forall|i: int|
                0 <= i < cells@.len() ==> {
                    let cell = #[trigger] cells@[i];
                    &&& cell.0 == i / ncols
                    &&& cell.1 == i % ncols
                    &&& cell.0 < fed
                    &&& cell.2.value() == row_numbers::<U>(lines@[i / ncols]@, header.ncols)[i
                        % ncols]
                },
            steps_left(pass) >= 0 || pass.terminated(),
        ensures
            pass.terminated(),
            cells@.len() == whole_rows::<U>(lines@, header.ncols, nrows, 0) * ncols,
            match failure_of(header, lines@) {
                Some(failure) => error matches Some(e) && e@ == failure,
                None => error is None,
            },
        decreases steps_left(pass),
    {
        let ghost before = pass;
        proof {
            assert((nrows - (pass.row() + 1)) * (ncols + 1) == (nrows - pass.row()) * (ncols + 1)
                - (ncols + 1)) by (nonlinear_arith);
            assert((pass.row() + 1) * ncols == pass.row() * ncols + ncols) by (nonlinear_arith);
            assert(nrows * ncols == (nrows - 1) * ncols + ncols) by (nonlinear_arith);
            if pass.row() + 1 < nrows {
                assert((nrows - (pass.row() + 1)) * (ncols + 1) >= ncols + 1) by (nonlinear_arith)
                    requires
                        nrows - (pass.row() + 1) >= 1,
                        ncols >= 1,
                ;
            }
        }
        match pass.next() {
            Step::Seek(_) => {
                pass.sought();
            },
            Step::Line => {
                if fed < lines.len() {
                    match pass.line(Some(lines[fed].as_slice())) {
                        Some(e) => {
                            error = Some(e);
                            break ;
                        },
                        None => {
                            fed += 1;
                        },
                    }
                } else {
                    pass.line(None);
                    break ;
                }
            },
            Step::Cell(row, col, value) => {
                proof {
                    lemma_fundamental_div_mod_converse_div(
                        cells@.len() as int,
                        ncols,
                        row as int,
                        col as int,
                    );
                    lemma_fundamental_div_mod_converse_mod(
                        cells@.len() as int,
                        ncols,
                        row as int,
                        col as int,
                    );
                }
                cells.push((row, col, value));
            },
            Step::End => {
                break ;
            },
        }
    }
    Cells { cells, error }
}

/// A pass over the data lines of a grid does not look at the grid's place
/// in the world: two headers of the same size, whatever their anchoring and
/// origin, give the same cells and the same error over the same lines.
pub proof fn cells_ignore_anchoring<T: Numerical, U: Numerical>(
    one: EsriASCIIRasterHeader<T, U>,
    other: EsriASCIIRasterHeader<T, U>,
    lines: Seq<Vec<u8>>,
)
    requires
        one.ncols == other.ncols,
        one.nrows == other.nrows,
    ensures
        cells_of(one, lines) == cells_of(other, lines),
        failure_of(one, lines) == failure_of(other, lines),
{
}

/// A pass over a grid whose first `nrows` data lines are all rows hands out
/// every cell exactly once: as many cells as the grid has, the cell at
/// `row` and `col` as number `row * ncols + col`, and no error.
pub proof fn pass_visits_every_cell<T: Numerical, U: Numerical>(
    header: EsriASCIIRasterHeader<T, U>,
    lines: Seq<Vec<u8>>,
    row: int,
    col: int,
)
    requires
        header.wf(),
        lines.len() >= header.nrows,
        forall|j: int|
            0 <= j < header.nrows ==> (#[trigger] parsed_row::<U>(lines[j]@, header.ncols)) is Ok,
        0 <= row < header.nrows,
        0 <= col < header.ncols,
    ensures
        cells_of(header, lines).len() == header.nrows * header.ncols,
        failure_of(header, lines) is None,
        0 <= row * header.ncols + col < cells_of(header, lines).len(),
        cells_of(header, lines)[row * header.ncols + col] == (
            row,
            col,
            row_numbers::<U>(lines[row]@, header.ncols)[col],
        ),
{
    let ncols = header.ncols as int;
    let nrows = header.nrows as int;
    all_rows_are_whole::<U>(lines, header.ncols, nrows, 0);
    lemma_fundamental_div_mod_converse_div(row * ncols + col, ncols, row, col);
    lemma_fundamental_div_mod_converse_mod(row * ncols + col, ncols, row, col);
    assert(0 <= row * ncols + col < nrows * ncols) by (nonlinear_arith)
        requires
            0 <= row < nrows,
            0 <= col < ncols,
    ;
}

/// A pass gets through all of the first `nrows` lines where each is a row.
pub proof fn all_rows_are_whole<U: Numerical>(lines: Seq<Vec<u8>>, ncols: usize, nrows: int, from: int)
    requires
        0 <= from <= nrows <= lines.len(),
        forall|j: int| 0 <= j < nrows ==> (#[trigger] parsed_row::<U>(lines[j]@, ncols)) is Ok,
    ensures
        whole_rows::<U>(lines, ncols, nrows, from) == nrows,
    decreases nrows - from,
{
    if from < nrows {
        all_rows_are_whole::<U>(lines, ncols, nrows, from + 1);
    }
}

} // verus!
