//! The header of a grid: its size, its place in the world, and the mapping
//! between world coordinates and cells.
use crate::error::{Error, Failure};
use crate::numeric::{
    below, checked_difference, checked_product, checked_sum, half, quotient, representable,
    Numerical,
};
use crate::text::{
    is_named, leading_tokens, lossy_text, names, names_text, number_value, parse_number, text_of,
    tokens,
};
use vstd::prelude::*;
use vstd::string::StringExecFns;

verus! {

/// What the header's origin refers to.
#[derive(Debug, PartialEq, Eq, Clone, Copy, Structural)]
pub enum CornerType {
    /// The lower-left corner of the lower-left cell.
    Corner,
    /// The centre of the lower-left cell.
    Center,
}

/// The header of a grid.
///
/// Whatever the file declares, the origin is kept as the lower-left corner of
/// the lower-left cell. Row 0 is the top row of the raster, so the row of a
/// point falls as its `y` rises.
#[derive(Debug, Clone, Copy)]
pub struct EsriASCIIRasterHeader<T: Numerical, U: Numerical> {
    pub ncols: usize,
    pub nrows: usize,
    pub xll: T,
    pub yll: T,
    pub yur: T,
    pub xur: T,
    pub cornertype: CornerType,
    pub cellsize: T,
    pub nodata_value: Option<U>,
}

/// The corner coordinate that a declared origin stands for.
pub open spec fn corner_origin(declared: int, cellsize: int, cornertype: CornerType) -> int {
    match cornertype {
        CornerType::Corner => declared,
        CornerType::Center => declared - cellsize / 2,
    }
}

/// Whether the given size, declared origin and cell size describe a grid
/// whose bounds the coordinate type `T` holds.
pub open spec fn describes_grid<T: Numerical>(
    ncols: int,
    nrows: int,
    xll: int,
    yll: int,
    cornertype: CornerType,
    cellsize: int,
) -> bool {
    let x = corner_origin(xll, cellsize, cornertype);
    let y = corner_origin(yll, cellsize, cornertype);
    &&& ncols >= 1
    &&& nrows >= 1
    &&& cellsize > 0
    &&& representable::<T>(cellsize * ncols)
    &&& representable::<T>(cellsize * nrows)
    &&& representable::<T>(x)
    &&& representable::<T>(y)
    &&& representable::<T>(x + cellsize * ncols)
    &&& representable::<T>(y + cellsize * nrows)
}

/// The index of the cell, along one axis, that holds a point at `distance`
/// from the lower bound. A point on the upper bound belongs to the last cell.
pub open spec fn cell_index(distance: int, cellsize: int, cells: int) -> int {
    if distance == cellsize * cells {
        cells - 1
    } else {
        distance / cellsize
    }
}

/// A cell count times a positive cell size grows with the count.
pub proof fn span_grows(cellsize: int, fewer: int, more: int)
    requires
        cellsize > 0,
        0 <= fewer <= more,
    ensures
        0 <= cellsize * fewer <= cellsize * more,
        fewer < more ==> cellsize * fewer + cellsize <= cellsize * more,
        fewer <= cellsize * fewer,
{
    assert(0 <= cellsize * fewer <= cellsize * more) by (nonlinear_arith)
        requires
            cellsize > 0,
            0 <= fewer <= more,
    ;
    assert(fewer < more ==> cellsize * fewer + cellsize <= cellsize * more) by (nonlinear_arith)
        requires
            cellsize > 0,
            0 <= fewer <= more,
    ;
    assert(fewer <= cellsize * fewer) by (nonlinear_arith)
        requires
            cellsize > 0,
            0 <= fewer,
    ;
}

/// The cell index of a distance within the grid's span lies within the grid,
/// and the cell it names holds the distance.
pub proof fn cell_index_is_inside(distance: int, cellsize: int, cells: int)
    requires
        cellsize > 0,
        cells >= 1,
        0 <= distance <= cellsize * cells,
    ensures
        0 <= cell_index(distance, cellsize, cells) < cells,
        0 <= distance / cellsize <= cells,
        distance < cellsize * cells ==> distance / cellsize < cells,
        cellsize * cell_index(distance, cellsize, cells) <= distance,
        distance <= cellsize * cell_index(distance, cellsize, cells) + cellsize,
{
    let q = distance / cellsize;
    assert(0 <= q && cellsize * q <= distance < cellsize * q + cellsize) by (nonlinear_arith)
        requires
            cellsize > 0,
            distance >= 0,
            q == distance / cellsize,
    ;
    assert(q <= cells && (distance < cellsize * cells ==> q < cells)) by (nonlinear_arith)
        requires
            cellsize > 0,
            cellsize * q <= distance,
            distance <= cellsize * cells,
    ;
    assert(cellsize * (cells - 1) + cellsize == cellsize * cells) by (nonlinear_arith);
}

impl<T: Numerical, U: Numerical> EsriASCIIRasterHeader<T, U> {
    /// Whether the header describes a grid: at least one row and one column,
    /// a positive cell size, and upper bounds that lie the grid's span above
    /// the origin.
    pub open spec fn wf(&self) -> bool {
        let size = self.cellsize.value();
        &&& self.ncols >= 1
        &&& self.nrows >= 1
        &&& size > 0
        &&& representable::<T>(size * self.ncols)
        &&& representable::<T>(size * self.nrows)
        &&& self.xur.value() == self.xll.value() + size * self.ncols
        &&& self.yur.value() == self.yll.value() + size * self.nrows
    }

    /// Whether the point lies within the grid's bounds, the bounds included.
    pub open spec fn covers(&self, x: int, y: int) -> bool {
        &&& self.xll.value() <= x <= self.xur.value()
        &&& self.yll.value() <= y <= self.yur.value()
    }

    /// The row and column of the cell that holds a point within the bounds.
    pub open spec fn cell_of(&self, x: int, y: int) -> (int, int) {
        let size = self.cellsize.value();
        (
            self.nrows - 1 - cell_index(y - self.yll.value(), size, self.nrows as int),
            cell_index(x - self.xll.value(), size, self.ncols as int),
        )
    }

    /// The lower-left corner of a cell.
    pub open spec fn cell_corner(&self, row: int, col: int) -> (int, int) {
        let size = self.cellsize.value();
        (self.xll.value() + size * col, self.yur.value() - size * row - size)
    }

    /// A header from what the file declares, if that describes a grid.
    pub fn try_new(
        ncols: usize,
        nrows: usize,
        xll: T,
        yll: T,
        cornertype: CornerType,
        cellsize: T,
        nodata_value: Option<U>,
    ) -> (made: Option<Self>)
        ensures
            made is Some <==> describes_grid::<T>(
                ncols as int,
                nrows as int,
                xll.value(),
                yll.value(),
                cornertype,
                cellsize.value(),
            ),
            made matches Some(h) ==> {
                &&& h.wf()
                &&& h.ncols == ncols
                &&& h.nrows == nrows
                &&& h.xll.value() == corner_origin(xll.value(), cellsize.value(), cornertype)
                &&& h.yll.value() == corner_origin(yll.value(), cellsize.value(), cornertype)
                &&& h.cornertype == cornertype
                &&& h.cellsize == cellsize
                &&& h.nodata_value == nodata_value
            },
    {
        proof {
            T::value_is_faithful(cellsize, cellsize);
            T::range_is_wide();
        }
        let zero: T = T::from_usize(0).unwrap();
        if ncols < 1 || nrows < 1 || !below(zero, cellsize) {
            return None;
        }
        let width: T = match Self::span(cellsize, ncols) {
            Some(w) => w,
            None => {
                return None;
            },
        };
        let height: T = match Self::span(cellsize, nrows) {
            Some(h) => h,
            None => {
                return None;
            },
        };
        let shift: T = match cornertype {
            CornerType::Corner => zero,
            CornerType::Center => half(cellsize),
        };
        let x: T = match checked_difference(xll, shift) {
            Some(x) => x,
            None => {
                return None;
            },
        };
        let y: T = match checked_difference(yll, shift) {
            Some(y) => y,
            None => {
                return None;
            },
        };
        let xur: T = match checked_sum(x, width) {
            Some(v) => v,
            None => {
                return None;
            },
        };
        let yur: T = match checked_sum(y, height) {
            Some(v) => v,
            None => {
                return None;
            },
        };
        Some(Self { ncols, nrows, xll: x, yll: y, yur, xur, cornertype, cellsize, nodata_value })
    }

    /// The length of `count` cells, if the coordinate type holds it.
    fn span(cellsize: T, count: usize) -> (length: Option<T>)
        requires
            cellsize.value() > 0,
        ensures
            length is Some <==> representable::<T>(cellsize.value() * count),
            length matches Some(l) ==> l.value() == cellsize.value() * count,
    {
        proof {
            span_grows(cellsize.value(), count as int, count as int);
            T::value_is_faithful(cellsize, cellsize);
            T::range_is_wide();
        }
        match T::from_usize(count) {
            Some(cells) => checked_product(cellsize, cells),
            None => None,
        }
    }

    /// A header from what the file declares.
    ///
    /// With `CornerType::Center` the origin is moved down and left by half a
    /// cell, so that it is a corner from then on.
    pub fn new(
        ncols: usize,
        nrows: usize,
        xll: T,
        yll: T,
        cornertype: CornerType,
        cellsize: T,
        nodata_value: Option<U>,
    ) -> (h: Self)
        requires
            describes_grid::<T>(
                ncols as int,
                nrows as int,
                xll.value(),
                yll.value(),
                cornertype,
                cellsize.value(),
            ),
        ensures
            h.wf(),
            h.ncols == ncols,
            h.nrows == nrows,
            h.xll.value() == corner_origin(xll.value(), cellsize.value(), cornertype),
            h.yll.value() == corner_origin(yll.value(), cellsize.value(), cornertype),
            h.xur.value() - h.xll.value() == cellsize.value() * ncols,
            h.yur.value() - h.yll.value() == cellsize.value() * nrows,
            h.cornertype == cornertype,
            h.cellsize == cellsize,
            h.nodata_value == nodata_value,
    {
        Self::try_new(ncols, nrows, xll, yll, cornertype, cellsize, nodata_value).unwrap()
    }

    /// The number of rows.
    pub fn num_rows(&self) -> (n: usize)
        ensures
            n == self.nrows,
    {
        self.nrows
    }

    /// The number of columns.
    pub fn num_cols(&self) -> (n: usize)
        ensures
            n == self.ncols,
    {
        self.ncols
    }

    /// The left bound: the `x` of the lower-left corner of the grid.
    pub fn min_x(&self) -> (x: T)
        ensures
            x == self.xll,
    {
        self.xll
    }

    /// The right bound: the `x` of the upper-right corner of the grid.
    pub fn max_x(&self) -> (x: T)
        ensures
            x == self.xur,
    {
        self.xur
    }

    /// The lower bound: the `y` of the lower-left corner of the grid.
    pub fn min_y(&self) -> (y: T)
        ensures
            y == self.yll,
    {
        self.yll
    }

    /// The upper bound: the `y` of the upper-right corner of the grid.
    pub fn max_y(&self) -> (y: T)
        ensures
            y == self.yur,
    {
        self.yur
    }

    /// The side of a cell.
    pub fn cell_size(&self) -> (size: T)
        ensures
            size == self.cellsize,
    {
        self.cellsize
    }

    /// The value that marks a cell without data, if the file names one.
    pub fn no_data_value(&self) -> (value: Option<U>)
        ensures
            value == self.nodata_value,
    {
        self.nodata_value
    }

    /// What the file declared its origin to be. The header's own origin is
    /// a corner either way.
    pub fn corner_type(&self) -> (kind: CornerType)
        ensures
            kind == self.cornertype,
    {
        self.cornertype
    }

    /// The lower-left corner of the cell at the given row and column, or
    /// nothing where the grid has no such cell.
    pub fn index_pos(&self, row: usize, col: usize) -> (corner: Option<(T, T)>)
        requires
            self.wf(),
        ensures
            corner is Some <==> row < self.nrows && col < self.ncols,
            corner matches Some((x, y)) ==> (x.value(), y.value()) == self.cell_corner(
                row as int,
                col as int,
            ),
    {
        if row >= self.nrows || col >= self.ncols {
            return None;
        }
        let size: T = self.cellsize;
        proof {
            let s = size.value();
            span_grows(s, col as int, self.ncols as int);
            span_grows(s, row as int, self.nrows as int);
            span_grows(s, 0, col as int);
            span_grows(s, 0, row as int);
            T::value_is_faithful(self.xll, self.xur);
            T::value_is_faithful(self.yll, self.yur);
            T::range_is_wide();
        }
        let right: T = Self::span(size, col).unwrap();
        let down: T = Self::span(size, row).unwrap();
        let x: T = checked_sum(self.xll, right).unwrap();
        let above: T = checked_difference(self.yur, down).unwrap();
        let y: T = checked_difference(above, size).unwrap();
        Some((x, y))
    }

    /// The index, along one axis, of the cell that holds a point at
    /// `distance` from the lower bound.
    fn axis_index(distance: T, cellsize: T, cells: usize) -> (index: usize)
        requires
            cellsize.value() > 0,
            cells >= 1,
            0 <= distance.value() <= cellsize.value() * cells,
        ensures
            index == cell_index(distance.value(), cellsize.value(), cells as int),
            index < cells,
    {
        proof {
            cell_index_is_inside(distance.value(), cellsize.value(), cells as int);
            T::value_is_faithful(distance, cellsize);
            T::range_is_wide();
        }
        let steps: usize = quotient(distance, cellsize).to_usize().unwrap();
        if steps == cells {
            assert(distance.value() == cellsize.value() * cells) by (nonlinear_arith)
                requires
                    cellsize.value() > 0,
                    distance.value() / cellsize.value() == cells,
                    0 <= distance.value() <= cellsize.value() * cells,
            ;
            steps - 1
        } else {
            assert(distance.value() != cellsize.value() * cells) by (nonlinear_arith)
                requires
                    cellsize.value() > 0,
                    distance.value() / cellsize.value() != cells,
            ;
            steps
        }
    }

    /// The row and column of the cell that holds the point, or nothing where
    /// the point lies outside the grid's bounds. A point on the right or the
    /// upper bound belongs to the last column or to row 0.
    pub fn index_of(&self, x: T, y: T) -> (cell: Option<(usize, usize)>)
        requires
            self.wf(),
        ensures
            cell is Some <==> self.covers(x.value(), y.value()),
            cell matches Some((row, col)) ==> {
                &&& (row as int, col as int) == self.cell_of(x.value(), y.value())
                &&& row < self.nrows
                &&& col < self.ncols
            },
    {
        if below(x, self.xll) || below(self.xur, x) || below(y, self.yll) || below(self.yur, y) {
            return None;
        }
        proof {
            T::value_is_faithful(self.xll, self.xur);
            T::value_is_faithful(self.yll, self.yur);
            T::range_is_wide();
        }
        let dist_x: T = checked_difference(x, self.xll).unwrap();
        let dist_y: T = checked_difference(y, self.yll).unwrap();
        let col: usize = Self::axis_index(dist_x, self.cellsize, self.ncols);
        let up: usize = Self::axis_index(dist_y, self.cellsize, self.nrows);
        Some((self.nrows - up - 1, col))
    }
}

impl CornerType {
    /// The anchoring that a header field's name declares, whatever its case:
    /// `xllcorner` and `yllcorner` a corner, `xllcenter` and `yllcenter` a
    /// centre, anything else none.
    pub open spec fn named_by(word: Seq<u8>) -> Option<CornerType> {
        if names(word, "xllcorner") || names(word, "yllcorner") {
            Some(CornerType::Corner)
        } else if names(word, "xllcenter") || names(word, "yllcenter") {
            Some(CornerType::Center)
        } else {
            None
        }
    }

    /// The anchoring that a header field's name declares.
    pub fn from_name(word: &[u8]) -> (kind: Result<CornerType, Error>)
        ensures
            match Self::named_by(word@) {
                Some(k) => kind matches Ok(found) && found == k,
                None => kind matches Err(e) && e@ == Failure::ParseEnum(
                    lossy_text(word@),
                    "CornerType"@,
                ),
            },
    {
        if is_named(word, "xllcorner") || is_named(word, "yllcorner") {
            Ok(CornerType::Corner)
        } else if is_named(word, "xllcenter") || is_named(word, "yllcenter") {
            Ok(CornerType::Center)
        } else {
            Err(Error::ParseEnum(text_of(word), "CornerType"))
        }
    }
}

impl std::str::FromStr for CornerType {
    type Err = Error;

    /// The anchoring that a header field's name declares.
    fn from_str(s: &str) -> (kind: Result<Self, Error>) {
        Self::from_name(s.as_bytes())
    }
}

/// What a header line holds for the field `expected`: its value, or the
/// reason why it holds none. The line is wanted as the field's name, in any
/// case, and then a number of type `N`; what follows the number is ignored.
pub open spec fn header_line<N: Numerical>(line: Option<Seq<u8>>, expected: &str) -> Result<
    int,
    Failure,
> {
    match line {
        None => Err(Failure::MissingField(expected@)),
        Some(bytes) => {
            let words = tokens(bytes);
            if words.len() == 0 {
                Err(Failure::MissingField(expected@))
            } else if !names(words[0], expected) {
                Err(Failure::MismatchedField(expected@, lossy_text(words[0])))
            } else if words.len() == 1 {
                Err(Failure::MissingValue(expected@))
            } else {
                match number_value::<N>(words[1]) {
                    Some(v) => Ok(v),
                    None => Err(
                        Failure::TypeCast(lossy_text(words[1]), lossy_text(words[0]), N::name()),
                    ),
                }
            }
        },
    }
}

/// Reads a header line as the field `expected` and its value.
pub fn parse_header_line<N: Numerical>(line: Option<&[u8]>, expected: &str) -> (value: Result<
    N,
    Error,
>)
    ensures
        match header_line::<N>(line_view(line), expected) {
            Ok(v) => value matches Ok(n) && n.value() == v,
            Err(failure) => value matches Err(e) && e@ == failure,
        },
{
    let bytes: &[u8] = match line {
        Some(bytes) => bytes,
        None => {
            return Err(Error::MissingField(expected.to_owned()));
        },
    };
    let (field, value) = leading_tokens(bytes);
    let (field_start, field_end) = match field {
        Some(span) => span,
        None => {
            return Err(Error::MissingField(expected.to_owned()));
        },
    };
    let name: &[u8] = vstd::slice::slice_subrange(bytes, field_start, field_end);
    if !is_named(name, expected) {
        return Err(Error::MismatchedField(expected.to_owned(), text_of(name)));
    }
    let (value_start, value_end) = match value {
        Some(span) => span,
        None => {
            return Err(Error::MissingValue(expected.to_owned()));
        },
    };
    let word: &[u8] = vstd::slice::slice_subrange(bytes, value_start, value_end);
    match parse_number::<N>(word) {
        Some(n) => Ok(n),
        None => Err(Error::TypeCast(text_of(word), text_of(name), N::label())),
    }
}

/// A line that may be missing, as a sequence of bytes.
pub open spec fn line_view(line: Option<&[u8]>) -> Option<Seq<u8>> {
    match line {
        Some(bytes) => Some(bytes@),
        None => None,
    }
}

/// The words by which a missing origin is reported: both names that the
/// field may have.
pub open spec fn origin_label(prefix: Seq<char>) -> Seq<char> {
    prefix + "corner or "@ + prefix + "center"@
}

/// The anchoring that a word declares as the name of the origin along the
/// axis of `prefix`: a corner as the prefix and `corner`, a centre as the
/// prefix and `center`, in any case. Any other word declares none, the name
/// of an origin along another axis too.
pub open spec fn origin_kind(word: Seq<u8>, prefix: Seq<char>) -> Option<CornerType> {
    if names_text(word, prefix + "corner"@) {
        Some(CornerType::Corner)
    } else if names_text(word, prefix + "center"@) {
        Some(CornerType::Center)
    } else {
        None
    }
}

/// What a header line holds for the origin along the axis of `prefix`: the
/// anchoring that its name declares and its value, or the reason why it
/// holds none. The name of an origin along another axis is a mismatched
/// field, any other word no anchoring at all.
pub open spec fn origin_line<N: Numerical>(line: Option<Seq<u8>>, prefix: Seq<char>) -> Result<
    (CornerType, int),
    Failure,
> {
    match line {
        None => Err(Failure::MissingField(origin_label(prefix))),
        Some(bytes) => {
            let words = tokens(bytes);
            if words.len() == 0 {
                Err(Failure::MissingField(origin_label(prefix)))
            } else {
                match origin_kind(words[0], prefix) {
                    None => if CornerType::named_by(words[0]) is Some {
                        Err(Failure::MismatchedField(origin_label(prefix), lossy_text(words[0])))
                    } else {
                        Err(Failure::ParseEnum(lossy_text(words[0]), "CornerType"@))
                    },
                    Some(kind) => if words.len() == 1 {
                        Err(Failure::MissingValue(origin_label(prefix)))
                    } else {
                        match number_value::<N>(words[1]) {
                            Some(v) => Ok((kind, v)),
                            None => Err(
                                Failure::TypeCast(
                                    lossy_text(words[1]),
                                    lossy_text(words[0]),
                                    N::name(),
                                ),
                            ),
                        }
                    },
                }
            }
        },
    }
}

/// Reads a header line as the origin along the axis of `expected_prefix`: a
/// field whose name starts with the prefix and declares the anchoring, and
/// its value.
pub fn parse_ll<N: Numerical>(line: Option<&[u8]>, expected_prefix: &str) -> (origin: Result<
    (CornerType, N),
    Error,
>)
    ensures
        match origin_line::<N>(line_view(line), expected_prefix@) {
            Ok((kind, v)) => origin matches Ok((found, n)) && found == kind && n.value() == v,
            Err(failure) => origin matches Err(e) && e@ == failure,
        },
{
    let label: String = String::from_str(expected_prefix).concat("corner or ").concat(
        expected_prefix,
    ).concat("center");
    let bytes: &[u8] = match line {
        Some(bytes) => bytes,
        None => {
            return Err(Error::MissingField(label));
        },
    };
    let (field, value) = leading_tokens(bytes);
    let (field_start, field_end) = match field {
        Some(span) => span,
        None => {
            return Err(Error::MissingField(label));
        },
    };
    let name: &[u8] = vstd::slice::slice_subrange(bytes, field_start, field_end);
    let corner: String = String::from_str(expected_prefix).concat("corner");
    let center: String = String::from_str(expected_prefix).concat("center");
    let kind: CornerType = if is_named(name, corner.as_str()) {
        CornerType::Corner
    } else if is_named(name, center.as_str()) {
        CornerType::Center
    } else {
        return match CornerType::from_name(name) {
            Ok(_) => Err(Error::MismatchedField(label, text_of(name))),
            Err(e) => Err(e),
        };
    };
    let (value_start, value_end) = match value {
        Some(span) => span,
        None => {
            return Err(Error::MissingValue(label));
        },
    };
    let word: &[u8] = vstd::slice::slice_subrange(bytes, value_start, value_end);
    match parse_number::<N>(word) {
        Some(n) => Ok((kind, n)),
        None => Err(Error::TypeCast(text_of(word), text_of(name), N::label())),
    }
}

/// What the lines of a header declare.
pub struct Declared {
    pub ncols: int,
    pub nrows: int,
    pub xll: int,
    pub yll: int,
    pub cornertype: CornerType,
    pub cellsize: int,
    pub nodata_value: Option<int>,
    /// The number of lines that belong to the header: five, or six with a
    /// line for `nodata_value`.
    pub lines: int,
}

/// A line of a file, or nothing past its end.
pub open spec fn line_at(lines: Seq<Vec<u8>>, i: int) -> Option<Seq<u8>> {
    if 0 <= i < lines.len() {
        Some(lines[i]@)
    } else {
        None
    }
}

/// Whether a line is the header's sixth: one whose first token names the
/// field `nodata_value`.
pub open spec fn declares_nodata(line: Option<Seq<u8>>) -> bool {
    match line {
        Some(bytes) => tokens(bytes).len() > 0 && names(tokens(bytes)[0], "nodata_value"),
        None => false,
    }
}

/// What the first lines of a file declare as a header with coordinates of
/// type `T` and values of type `U`, or the first reason why they are none.
///
/// The lines are `ncols`, `nrows`, the origin along `x`, the origin along
/// `y` and `cellsize`, in that order. A sixth line belongs to the header where it names `nodata_value`;
/// if its value is missing or no number, the grid has no such value. The
/// two origins must declare the same anchoring, and the whole a grid.
pub open spec fn declared<T: Numerical, U: Numerical>(lines: Seq<Vec<u8>>) -> Result<
    Declared,
    Failure,
> {
    match header_line::<usize>(line_at(lines, 0), "ncols") {
        Err(failure) => Err(failure),
        Ok(ncols) => match header_line::<usize>(line_at(lines, 1), "nrows") {
            Err(failure) => Err(failure),
            Ok(nrows) => match origin_line::<T>(line_at(lines, 2), "xll"@) {
                Err(failure) => Err(failure),
                Ok((kind_x, xll)) => match origin_line::<T>(line_at(lines, 3), "yll"@) {
                    Err(failure) => Err(failure),
                    Ok((kind_y, yll)) => if kind_x != kind_y {
                        Err(Failure::BrokenInvariant("corner type disagree"@))
                    } else {
                        match header_line::<T>(line_at(lines, 4), "cellsize") {
                            Err(failure) => Err(failure),
                            Ok(cellsize) => if !describes_grid::<T>(
                                ncols,
                                nrows,
                                xll,
                                yll,
                                kind_x,
                                cellsize,
                            ) {
                                Err(Failure::BrokenInvariant("header describes no grid"@))
                            } else {
                                Ok(
                                    Declared {
                                        ncols,
                                        nrows,
                                        xll,
                                        yll,
                                        cornertype: kind_x,
                                        cellsize,
                                        nodata_value: match header_line::<U>(
                                            line_at(lines, 5),
                                            "nodata_value",
                                        ) {
                                            Ok(v) => Some(v),
                                            Err(_) => None,
                                        },
                                        lines: if declares_nodata(line_at(lines, 5)) {
                                            6
                                        } else {
                                            5
                                        },
                                    },
                                )
                            },
                        }
                    },
                },
            },
        },
    }
}

/// The line of a file at `i`, or nothing past its end.
fn line_of(lines: &Vec<Vec<u8>>, i: usize) -> (line: Option<&[u8]>)
    ensures
        line_view(line) == line_at(lines@, i as int),
{
    if i < lines.len() {
        Some(lines[i].as_slice())
    } else {
        None
    }
}

/// Whether a line is the header's sixth.
fn is_nodata_line(line: Option<&[u8]>) -> (is: bool)
    ensures
        is == declares_nodata(line_view(line)),
{
    match line {
        Some(bytes) => {
            let (field, _) = leading_tokens(bytes);
            match field {
                Some((start, end)) => is_named(
                    vstd::slice::slice_subrange(bytes, start, end),
                    "nodata_value",
                ),
                None => false,
            }
        },
        None => false,
    }
}

impl<T: Numerical, U: Numerical> EsriASCIIRasterHeader<T, U> {
    /// Whether the header is the one that `declared` describes.
    pub open spec fn holds(&self, declared: Declared) -> bool {
        &&& self.wf()
        &&& self.ncols == declared.ncols
        &&& self.nrows == declared.nrows
        &&& self.xll.value() == corner_origin(declared.xll, declared.cellsize, declared.cornertype)
        &&& self.yll.value() == corner_origin(declared.yll, declared.cellsize, declared.cornertype)
        &&& self.cornertype == declared.cornertype
        &&& self.cellsize.value() == declared.cellsize
        &&& match self.nodata_value {
            Some(v) => declared.nodata_value == Some(v.value()),
            None => declared.nodata_value is None,
        }
    }

    /// Reads the header from the first lines of a file, and says how many of
    /// them belong to it: the data starts on the line after those.
    ///
    /// Only the first six lines are looked at.
    pub fn from_lines(lines: &Vec<Vec<u8>>) -> (parsed: Result<(Self, usize), Error>)
        ensures
            match declared::<T, U>(lines@) {
                Ok(d) => parsed matches Ok((header, used)) && header.holds(d) && used == d.lines,
                Err(failure) => parsed matches Err(e) && e@ == failure,
            },
    {
        let ncols: usize = match parse_header_line::<usize>(line_of(lines, 0), "ncols") {
            Ok(n) => n,
            Err(e) => {
                return Err(e);
            },
        };
        let nrows: usize = match parse_header_line::<usize>(line_of(lines, 1), "nrows") {
            Ok(n) => n,
            Err(e) => {
                return Err(e);
            },
        };
        let (corner_type_x, xll) = match parse_ll::<T>(line_of(lines, 2), "xll") {
            Ok(origin) => origin,
            Err(e) => {
                return Err(e);
            },
        };
        let (corner_type_y, yll) = match parse_ll::<T>(line_of(lines, 3), "yll") {
            Ok(origin) => origin,
            Err(e) => {
                return Err(e);
            },
        };
        if corner_type_x != corner_type_y {
            return Err(Error::BrokenInvariant("corner type disagree".to_owned()));
        }
        let cellsize: T = match parse_header_line::<T>(line_of(lines, 4), "cellsize") {
            Ok(size) => size,
            Err(e) => {
                return Err(e);
            },
        };
        let last: Option<&[u8]> = line_of(lines, 5);
        let nodata_value: Option<U> = match parse_header_line::<U>(last, "nodata_value") {
            Ok(value) => Some(value),
            Err(_) => None,
        };
        let used: usize = if is_nodata_line(last) {
            6
        } else {
            5
        };
        match Self::try_new(ncols, nrows, xll, yll, corner_type_x, cellsize, nodata_value) {
            Some(header) => Ok((header, used)),
            None => Err(Error::BrokenInvariant("header describes no grid".to_owned())),
        }
    }
}

/// The four cells between which a value is interpolated, and where the
/// point lies among them.
///
/// The cells are the one at `row` and `col`, which is the lower left one,
/// its right neighbour, and the two in the row above, at `row - 1`.
#[derive(Debug, Clone, Copy)]
pub struct Neighbourhood<T: Numerical> {
    pub row: usize,
    pub col: usize,
    /// How far right of the lower-left cell's corner the point lies.
    pub dx: T,
    /// How far above the lower-left cell's corner the point lies.
    pub dy: T,
}

impl<T: Numerical, U: Numerical> EsriASCIIRasterHeader<T, U> {
    /// The lower left of the four cells around a point within the bounds:
    /// the cell that holds the point, moved off the last column and the top
    /// row so that it has a right neighbour and a row above.
    pub open spec fn anchor_of(&self, x: int, y: int) -> (int, int) {
        let (row, col) = self.cell_of(x, y);
        (
            if row < 1 { 1 } else { row },
            if col > self.ncols - 2 { self.ncols - 2 } else { col },
        )
    }

    /// The four cells around a point and the point's offsets from the corner
    /// of the lower left one, or nothing where the point lies outside the
    /// grid's bounds.
    ///
    /// The grid must have two rows and two columns at least.
    pub fn neighbourhood(&self, x: T, y: T) -> (around: Option<Neighbourhood<T>>)
        requires
            self.wf(),
            self.ncols >= 2,
            self.nrows >= 2,
        ensures
            around is Some <==> self.covers(x.value(), y.value()),
            around matches Some(n) ==> {
                let corner = self.cell_corner(n.row as int, n.col as int);
                &&& (n.row as int, n.col as int) == self.anchor_of(x.value(), y.value())
                &&& 1 <= n.row < self.nrows
                &&& n.col + 1 < self.ncols
                &&& n.dx.value() == x.value() - corner.0
                &&& n.dy.value() == y.value() - corner.1
                &&& 0 <= n.dx.value() <= 2 * self.cellsize.value()
                &&& 0 <= n.dy.value() <= 2 * self.cellsize.value()
            },
    {
        let (cell_row, cell_col) = match self.index_of(x, y) {
            Some(cell) => cell,
            None => {
                return None;
            },
        };
        let col: usize = if cell_col > self.ncols - 2 {
            self.ncols - 2
        } else {
            cell_col
        };
        let row: usize = if cell_row < 1 {
            1
        } else {
            cell_row
        };
        let (ll_x, ll_y) = self.index_pos(row, col).unwrap();
        proof {
            let size = self.cellsize.value();
            cell_index_is_inside(x.value() - self.xll.value(), size, self.ncols as int);
            cell_index_is_inside(y.value() - self.yll.value(), size, self.nrows as int);
            span_grows(size, 2, self.ncols as int);
            T::value_is_faithful(self.cellsize, self.cellsize);
            T::range_is_wide();
            let up = cell_index(y.value() - self.yll.value(), size, self.nrows as int);
            assert(size * (self.nrows - 1 - up) == size * self.nrows - size - size * up)
                by (nonlinear_arith);
            assert(size * (self.ncols - 2) == size * (self.ncols - 1) - size) by (nonlinear_arith);
            assert(size * (self.ncols - 1) == size * self.ncols - size) by (nonlinear_arith);
            assert(size * 1 == size) by (nonlinear_arith);
            assert(size * 2 == 2 * size) by (nonlinear_arith);
            assert(size * row + size + size * (self.nrows - 1 - row) == size * self.nrows)
                by (nonlinear_arith);
            assert(size * (self.nrows - 2) == size * (self.nrows - 1) - size) by (nonlinear_arith);
            assert(size * (self.nrows - 1) == size * self.nrows - size) by (nonlinear_arith);
            T::value_is_faithful(ll_x, ll_y);
            T::value_is_faithful(x, y);
            T::range_is_wide();
        }
        let dx: T = checked_difference(x, ll_x).unwrap();
        let dy: T = checked_difference(y, ll_y).unwrap();
        Some(Neighbourhood { row, col, dx, dy })
    }

    /// The bounds of a grid lie its whole span apart: the cell size times
    /// the number of columns, and times the number of rows.
    pub proof fn bounds_span_the_grid(self)
        requires
            self.wf(),
        ensures
            self.xur.value() - self.xll.value() == self.cellsize.value() * self.ncols,
            self.yur.value() - self.yll.value() == self.cellsize.value() * self.nrows,
    {
    }

    /// The corner of a cell of the grid lies within the bounds, and the cell
    /// that holds it is that cell.
    pub proof fn corner_lies_in_its_cell(self, row: int, col: int)
        requires
            self.wf(),
            0 <= row < self.nrows,
            0 <= col < self.ncols,
        ensures
            self.covers(self.cell_corner(row, col).0, self.cell_corner(row, col).1),
            self.cell_of(self.cell_corner(row, col).0, self.cell_corner(row, col).1) == (row, col),
    {
        let size = self.cellsize.value();
        let up = self.nrows - 1 - row;
        span_grows(size, col, self.ncols as int);
        span_grows(size, up, self.nrows as int);
        assert(size * up == size * self.nrows - size * row - size) by (nonlinear_arith)
            requires
                up == self.nrows - 1 - row,
        ;
        assert((size * col) / size == col) by (nonlinear_arith)
            requires
                size > 0,
        ;
        assert((size * up) / size == up) by (nonlinear_arith)
            requires
                size > 0,
        ;
    }

    /// The four corners of the grid lie within the bounds, each in the cell
    /// at that corner, and a point one cell size beyond a corner, along
    /// either axis, lies outside.
    pub proof fn corners_are_covered(self)
        requires
            self.wf(),
        ensures
            ({
                let size = self.cellsize.value();
                let (min_x, min_y) = (self.xll.value(), self.yll.value());
                let (max_x, max_y) = (self.xur.value(), self.yur.value());
                &&& self.covers(min_x, min_y) && self.cell_of(min_x, min_y) == (self.nrows - 1, 0int)
                &&& self.covers(max_x, max_y) && self.cell_of(max_x, max_y) == (
                    0int,
                    self.ncols - 1,
                )
                &&& self.covers(min_x, max_y) && self.cell_of(min_x, max_y) == (0int, 0int)
                &&& self.covers(max_x, min_y) && self.cell_of(max_x, min_y) == (
                    self.nrows - 1,
                    self.ncols - 1,
                )
                &&& !self.covers(min_x - size, min_y) && !self.covers(min_x, min_y - size)
                &&& !self.covers(max_x + size, max_y) && !self.covers(max_x, max_y + size)
                &&& !self.covers(min_x - size, max_y) && !self.covers(min_x, max_y + size)
                &&& !self.covers(max_x + size, min_y) && !self.covers(max_x, min_y - size)
            }),
    {
        let size = self.cellsize.value();
        span_grows(size, 0, self.ncols as int);
        span_grows(size, 0, self.nrows as int);
        span_grows(size, 1, self.ncols as int);
        span_grows(size, 1, self.nrows as int);
        assert(size * 0 == 0) by (nonlinear_arith);
        assert(0int / size == 0) by (nonlinear_arith)
            requires
                size > 0,
        ;
    }

    /// At the lower-left corner of the grid the four cells of an
    /// interpolation start with the cell at that corner, and the point lies
    /// on that cell's corner: both offsets are zero.
    pub proof fn origin_is_its_own_anchor(self)
        requires
            self.wf(),
            self.ncols >= 2,
            self.nrows >= 2,
        ensures
            self.anchor_of(self.xll.value(), self.yll.value()) == (self.nrows - 1, 0int),
            self.anchor_of(self.xll.value(), self.yll.value()) == self.cell_of(
                self.xll.value(),
                self.yll.value(),
            ),
            self.cell_corner(self.nrows - 1, 0) == (self.xll.value(), self.yll.value()),
    {
        let size = self.cellsize.value();
        self.corners_are_covered();
        assert(size * 0 == 0) by (nonlinear_arith);
        assert(size * (self.nrows - 1) == size * self.nrows - size) by (nonlinear_arith);
    }

    /// Two headers that differ only in the anchoring their file declares
    /// have bounds that lie half a cell size apart, on both axes and at both
    /// ends: the one declared by its centre lies lower and further left.
    pub proof fn anchoring_shifts_bounds(
        self,
        other: Self,
        as_corner: Declared,
        as_center: Declared,
    )
        requires
            self.holds(as_corner),
            other.holds(as_center),
            as_corner.cornertype == CornerType::Corner,
            as_center == (Declared { cornertype: CornerType::Center, ..as_corner }),
        ensures
            other.ncols == self.ncols,
            other.nrows == self.nrows,
            other.cellsize == self.cellsize,
            other.xll.value() == self.xll.value() - self.cellsize.value() / 2,
            other.yll.value() == self.yll.value() - self.cellsize.value() / 2,
            other.xur.value() == self.xur.value() - self.cellsize.value() / 2,
            other.yur.value() == self.yur.value() - self.cellsize.value() / 2,
    {
        T::value_is_faithful(self.cellsize, other.cellsize);
    }
}

} // verus!
