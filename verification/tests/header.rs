use esri_ascii_grid::header::{parse_header_line, parse_ll, CornerType, EsriASCIIRasterHeader};
use std::str::FromStr;
use esri_ascii_grid::Error;

fn lines_of(text: &str) -> Vec<Vec<u8>> {
    text.lines().map(|line| line.as_bytes().to_vec()).collect()
}

const HEADER: &str = "ncols         4
nrows         6
xllcorner     0
yllcorner     0
cellsize      50
NODATA_value  -9999
-9999 -9999 5 2";

fn parse(text: &str) -> Result<(EsriASCIIRasterHeader<i64, i64>, usize), Error> {
    EsriASCIIRasterHeader::from_lines(&lines_of(text))
}

#[test]
fn test_header() {
    let header = parse(HEADER);
    assert!(header.is_ok());
    let (header, used) = header.unwrap();
    assert_eq!(used, 6);
    assert_eq!(header.ncols, 4);
    assert_eq!(header.nrows, 6);
    assert_eq!(header.xll, 0);
    assert_eq!(header.yll, 0);
    assert_eq!(header.cornertype, CornerType::Corner);
    assert_eq!(header.cellsize, 50);
    assert_eq!(header.nodata_value, Some(-9999));
}

#[test]
fn new_header_has_corner_bounds() {
    let header: EsriASCIIRasterHeader<i64, i64> =
        EsriASCIIRasterHeader::new(4, 6, 0, 0, CornerType::Corner, 50, Some(-9999));
    assert_eq!(header.num_cols(), 4);
    assert_eq!(header.num_rows(), 6);
    assert_eq!(header.min_x(), 0);
    assert_eq!(header.min_y(), 0);
    assert_eq!(header.max_x(), 200);
    assert_eq!(header.max_y(), 300);
    assert_eq!(header.cell_size(), 50);
    assert_eq!(header.no_data_value(), Some(-9999));
    assert_eq!(header.corner_type(), CornerType::Corner);
}

#[test]
fn bounds_lie_the_span_apart() {
    for (ncols, nrows, xll, yll, size) in
        [(4usize, 6usize, 0i64, 0i64, 50i64), (1, 1, -7, 12, 3), (2000, 1000, 390_000, 344_000, 1)]
    {
        for kind in [CornerType::Corner, CornerType::Center] {
            let header: EsriASCIIRasterHeader<i64, i64> =
                EsriASCIIRasterHeader::new(ncols, nrows, xll, yll, kind, size, None);
            assert_eq!(header.max_x() - header.min_x(), size * ncols as i64);
            assert_eq!(header.max_y() - header.min_y(), size * nrows as i64);
        }
    }
}

#[test]
fn center_origin_moves_by_half_a_cell() {
    let header: EsriASCIIRasterHeader<i64, i64> =
        EsriASCIIRasterHeader::new(4, 6, 0, 0, CornerType::Center, 50, None);
    assert_eq!(header.min_x(), -25);
    assert_eq!(header.min_y(), -25);
    assert_eq!(header.max_x(), 175);
    assert_eq!(header.max_y(), 275);
    // an odd cell size is halved downwards
    let odd: EsriASCIIRasterHeader<i64, i64> =
        EsriASCIIRasterHeader::new(2, 2, 10, 10, CornerType::Center, 5, None);
    assert_eq!(odd.min_x(), 8);
    assert_eq!(odd.max_x(), 18);
}

#[test]
fn try_new_refuses_what_is_no_grid() {
    let make = |ncols, nrows, xll: i16, yll: i16, kind, size: i16| {
        EsriASCIIRasterHeader::<i16, i16>::try_new(ncols, nrows, xll, yll, kind, size, None)
    };
    assert!(make(4, 6, 0, 0, CornerType::Corner, 50).is_some());
    assert!(make(0, 6, 0, 0, CornerType::Corner, 50).is_none());
    assert!(make(4, 0, 0, 0, CornerType::Corner, 50).is_none());
    assert!(make(4, 6, 0, 0, CornerType::Corner, 0).is_none());
    assert!(make(4, 6, 0, 0, CornerType::Corner, -1).is_none());
    // 50 * 656 is more than an i16 holds
    assert!(make(656, 6, 0, 0, CornerType::Corner, 50).is_none());
    assert!(make(655, 6, 0, 0, CornerType::Corner, 50).is_some());
    // the right bound is more than an i16 holds
    assert!(make(655, 6, 18, 0, CornerType::Corner, 50).is_none());
    assert!(make(655, 6, 17, 0, CornerType::Corner, 50).is_some());
    // the centre's corner lies below what an i16 holds
    assert!(make(4, 6, i16::MIN, 0, CornerType::Center, 50).is_none());
    assert!(make(4, 6, i16::MIN, 0, CornerType::Corner, 50).is_some());
    assert!(make(4, 6, i16::MIN + 25, 0, CornerType::Center, 50).is_some());
    // more columns than an i16 holds
    assert!(make(40_000, 1, 0, 0, CornerType::Corner, 1).is_none());
}

#[test]
fn test_index_pos() {
    let (header, _) = parse(HEADER).unwrap();
    let cell_size = header.cell_size();
    // max_x and max_y are the top right corner of the grid, and index_pos gives a cell's bottom left corner
    let max_index_x = header.max_x() - cell_size;
    let max_index_y = header.max_y() - cell_size;
    let min_index_x = header.min_x();
    let min_index_y = header.min_y();
    assert_eq!(header.index_pos(0, 0).unwrap(), (min_index_x, max_index_y));
    assert_eq!(
        header.index_pos(header.num_rows() - 1, header.num_cols() - 1).unwrap(),
        (max_index_x, min_index_y)
    );
    assert_eq!(header.index_pos(header.num_rows() - 1, 0).unwrap(), (min_index_x, min_index_y));
    assert_eq!(header.index_pos(0, header.num_cols() - 1).unwrap(), (max_index_x, max_index_y));
    assert_eq!(header.index_pos(2, 3).unwrap(), (150, 150));
    assert_eq!(header.index_pos(6, 0), None);
    assert_eq!(header.index_pos(0, 4), None);
}

#[test]
fn test_index_of() {
    let (header, _) = parse(HEADER).unwrap();
    assert_eq!(
        header.index_of(header.min_x(), header.min_y()).unwrap(),
        (header.num_rows() - 1, 0)
    );
    assert_eq!(
        header.index_of(header.max_x(), header.max_y()).unwrap(),
        (0, header.num_cols() - 1)
    );
    assert_eq!(header.index_of(header.min_x(), header.max_y()).unwrap(), (0, 0));
    assert_eq!(
        header.index_of(header.max_x(), header.min_y()).unwrap(),
        (header.num_rows() - 1, header.num_cols() - 1)
    );
}

#[test]
fn index_of_floors_within_a_cell() {
    let (header, _) = parse(HEADER).unwrap();
    assert_eq!(header.index_of(49, 49), Some((5, 0)));
    assert_eq!(header.index_of(50, 50), Some((4, 1)));
    assert_eq!(header.index_of(120, 149), Some((3, 2)));
    assert_eq!(header.index_of(199, 299), Some((0, 3)));
    assert_eq!(header.index_of(200, 299), Some((0, 3)));
    assert_eq!(header.index_of(201, 0), None);
    assert_eq!(header.index_of(0, 301), None);
    assert_eq!(header.index_of(-1, 0), None);
    assert_eq!(header.index_of(0, -1), None);
}

#[test]
fn index_of_undoes_index_pos() {
    for kind in [CornerType::Corner, CornerType::Center] {
        let header: EsriASCIIRasterHeader<i32, i32> =
            EsriASCIIRasterHeader::new(7, 5, -100, 40, kind, 9, None);
        for row in 0..5 {
            for col in 0..7 {
                let (x, y) = header.index_pos(row, col).unwrap();
                assert_eq!(header.index_of(x, y), Some((row, col)));
            }
        }
    }
}

#[test]
fn neighbourhood_stays_inside_the_grid() {
    let (header, _) = parse(HEADER).unwrap();
    let at = |x, y| {
        let n = header.neighbourhood(x, y).unwrap();
        (n.row, n.col, n.dx, n.dy)
    };
    assert_eq!(at(0, 0), (5, 0, 0, 0));
    assert_eq!(at(60, 70), (4, 1, 10, 20));
    assert_eq!(at(149, 250), (1, 2, 49, 50));
    assert_eq!(at(150, 260), (1, 2, 50, 60));
    assert_eq!(at(200, 300), (1, 2, 100, 100));
    assert_eq!(at(200, 0), (5, 2, 100, 0));
    assert_eq!(at(0, 300), (1, 0, 0, 100));
    assert!(header.neighbourhood(250, 0).is_none());
    assert!(header.neighbourhood(0, -50).is_none());
}

#[test]
fn example_grid_header_and_bounds() {
    let (header, used) =
        parse("ncols 4\nnrows 6\nxllcorner 0\nyllcorner 0\ncellsize 50\nnodata_value -9999\n-9999 -9999 5 2")
            .unwrap();
    assert_eq!(used, 6);
    assert_eq!((header.max_x(), header.max_y()), (200, 300));
    assert_eq!(header.index_of(0, 0), Some((5, 0)));
    assert_eq!(header.index_of(header.max_x() + header.cell_size(), 0), None);
}

#[test]
fn header_without_cellsize_is_refused() {
    // the file ends where the cell size should stand
    let missing = parse("ncols 4\nnrows 6\nxllcorner 0\nyllcorner 0");
    assert!(matches!(missing, Err(Error::MissingField(name)) if name == "cellsize"));
    // an empty line stands where the cell size should stand
    let blank = parse("ncols 4\nnrows 6\nxllcorner 0\nyllcorner 0\n   \n1 2 3 4");
    assert!(matches!(blank, Err(Error::MissingField(name)) if name == "cellsize"));
    // another field stands where the cell size should stand
    let other = parse("ncols 4\nnrows 6\nxllcorner 0\nyllcorner 0\nNODATA_value -9999\n1 2 3 4");
    assert!(matches!(
        other,
        Err(Error::MismatchedField(expected, found))
            if expected == "cellsize" && found == "NODATA_value"
    ));
}

#[test]
fn header_errors_name_what_is_wrong() {
    assert!(matches!(parse(""), Err(Error::MissingField(name)) if name == "ncols"));
    assert!(matches!(parse("ncols 4"), Err(Error::MissingField(name)) if name == "nrows"));
    assert!(matches!(
        parse("nrows 4"),
        Err(Error::MismatchedField(expected, found)) if expected == "ncols" && found == "nrows"
    ));
    assert!(matches!(parse("ncols"), Err(Error::MissingValue(name)) if name == "ncols"));
    assert!(matches!(
        parse("NCols four"),
        Err(Error::TypeCast(word, field, of)) if word == "four" && field == "NCols" && of == "usize"
    ));
    assert!(matches!(
        parse("ncols -4"),
        Err(Error::TypeCast(word, _, of)) if word == "-4" && of == "usize"
    ));
    assert!(matches!(
        parse("ncols 4\nnrows 6"),
        Err(Error::MissingField(name)) if name == "xllcorner or xllcenter"
    ));
    assert!(matches!(
        parse("ncols 4\nnrows 6\nxllcorner 0"),
        Err(Error::MissingField(name)) if name == "yllcorner or yllcenter"
    ));
    assert!(matches!(
        parse("ncols 4\nnrows 6\nxllcorner"),
        Err(Error::MissingValue(name)) if name == "xllcorner or xllcenter"
    ));
    assert!(matches!(
        parse("ncols 4\nnrows 6\nxllmiddle 0"),
        Err(Error::ParseEnum(word, of)) if word == "xllmiddle" && of == "CornerType"
    ));
    assert!(matches!(
        parse("ncols 4\nnrows 6\nxllcorner 0.5"),
        Err(Error::TypeCast(word, field, of)) if word == "0.5" && field == "xllcorner" && of == "i64"
    ));
    assert!(matches!(
        parse("ncols 4\nnrows 6\nxllcorner 0\nyllcenter 0\ncellsize 50"),
        Err(Error::BrokenInvariant(reason)) if reason == "corner type disagree"
    ));
    assert!(matches!(
        parse("ncols 4\nnrows 6\nxllcorner 0\nyllcorner 0\ncellsize 0"),
        Err(Error::BrokenInvariant(reason)) if reason == "header describes no grid"
    ));
    assert!(matches!(
        parse("ncols 0\nnrows 6\nxllcorner 0\nyllcorner 0\ncellsize 50"),
        Err(Error::BrokenInvariant(reason)) if reason == "header describes no grid"
    ));
    assert!(matches!(
        parse("ncols 4\nnrows 6\nxllcorner 9223372036854775800\nyllcorner 0\ncellsize 50"),
        Err(Error::BrokenInvariant(reason)) if reason == "header describes no grid"
    ));
}

#[test]
fn nodata_line_is_optional() {
    let (header, used) =
        parse("ncols 4\nnrows 6\nxllcorner 0\nyllcorner 0\ncellsize 50\n1 2 3 4").unwrap();
    assert_eq!(header.no_data_value(), None);
    assert_eq!(used, 5);
    let (header, used) = parse("ncols 4\nnrows 6\nxllcorner 0\nyllcorner 0\ncellsize 50").unwrap();
    assert_eq!(header.no_data_value(), None);
    assert_eq!(used, 5);
    // a value that is no number leaves the grid without one, and the line is the header's
    let (header, used) =
        parse("ncols 4\nnrows 6\nxllcorner 0\nyllcorner 0\ncellsize 50\nnodata_value none").unwrap();
    assert_eq!(header.no_data_value(), None);
    assert_eq!(used, 6);
    let (header, used) =
        parse("ncols 4\nnrows 6\nxllcorner 0\nyllcorner 0\ncellsize 50\nNoData_Value").unwrap();
    assert_eq!(header.no_data_value(), None);
    assert_eq!(used, 6);
}

#[test]
fn field_names_match_in_any_case() {
    let (header, _) =
        parse("NCOLS 4\nNRows 6\nXLLCENTER 0\nYllCenter 0\nCELLSIZE 50\nnodata_VALUE 7").unwrap();
    assert_eq!(header.corner_type(), CornerType::Center);
    assert_eq!(header.no_data_value(), Some(7));
    assert_eq!(CornerType::from_name(b"xllcorner").unwrap(), CornerType::Corner);
    assert_eq!(CornerType::from_name(b"YLLCORNER").unwrap(), CornerType::Corner);
    assert_eq!(CornerType::from_name(b"xllCenter").unwrap(), CornerType::Center);
    assert_eq!(CornerType::from_name(b"yllcenter").unwrap(), CornerType::Center);
    assert!(matches!(
        CornerType::from_name(b"llcorner"),
        Err(Error::ParseEnum(word, of)) if word == "llcorner" && of == "CornerType"
    ));
}

#[test]
fn header_lines_one_by_one() {
    assert_eq!(parse_header_line::<i32>(Some(b"  cellsize \t 50  extra"), "cellsize").unwrap(), 50);
    assert_eq!(parse_header_line::<i32>(Some(b"cellsize +50"), "cellsize").unwrap(), 50);
    assert!(matches!(
        parse_header_line::<i16>(Some(b"cellsize 40000"), "cellsize"),
        Err(Error::TypeCast(word, field, of)) if word == "40000" && field == "cellsize" && of == "i16"
    ));
    assert!(matches!(
        parse_header_line::<i32>(None, "cellsize"),
        Err(Error::MissingField(name)) if name == "cellsize"
    ));
    let (kind, value) = parse_ll::<i64>(Some(b"XLLCenter -12"), "xll").unwrap();
    assert_eq!((kind, value), (CornerType::Center, -12));
    assert!(matches!(
        parse_ll::<i64>(None, "yll"),
        Err(Error::MissingField(name)) if name == "yllcorner or yllcenter"
    ));
}

#[test]
fn words_that_are_no_text_are_reported_with_a_mark() {
    let line: &[u8] = &[0xff, b'x', b' ', b'1'];
    assert!(matches!(
        parse_header_line::<i32>(Some(line), "ncols"),
        Err(Error::MismatchedField(_, found)) if found == "\u{fffd}x"
    ));
}

#[test]
fn origins_come_in_their_order() {
    // the y origin where the x origin should stand
    assert!(matches!(
        parse_ll::<i64>(Some(b"yllcorner 0"), "xll"),
        Err(Error::MismatchedField(expected, found))
            if expected == "xllcorner or xllcenter" && found == "yllcorner"
    ));
    assert!(matches!(
        parse_ll::<i64>(Some(b"XLLCENTER 0"), "yll"),
        Err(Error::MismatchedField(expected, found))
            if expected == "yllcorner or yllcenter" && found == "XLLCENTER"
    ));
    assert!(matches!(
        parse_ll::<i64>(Some(b"zllcorner 0"), "xll"),
        Err(Error::ParseEnum(word, of)) if word == "zllcorner" && of == "CornerType"
    ));
    assert_eq!(parse_ll::<i64>(Some(b"YllCorner 7"), "yll").unwrap(), (CornerType::Corner, 7));
    assert_eq!(parse_ll::<i64>(Some(b"xllcenter 5"), "xll").unwrap(), (CornerType::Center, 5));
    // a file with its origins swapped is refused, not misread
    assert!(matches!(
        parse("ncols 2\nnrows 2\nyllcorner 5\nxllcorner 7\ncellsize 1"),
        Err(Error::MismatchedField(expected, found))
            if expected == "xllcorner or xllcenter" && found == "yllcorner"
    ));
    assert!(matches!(
        parse("ncols 2\nnrows 2\nxllcorner 5\nxllcorner 7\ncellsize 1"),
        Err(Error::MismatchedField(expected, found))
            if expected == "yllcorner or yllcenter" && found == "xllcorner"
    ));
    let (header, _) = parse("ncols 2\nnrows 2\nxllcorner 5\nyllcorner 7\ncellsize 1").unwrap();
    assert_eq!((header.min_x(), header.min_y()), (5, 7));
}

#[test]
fn counts_take_no_minus() {
    assert!(matches!(
        parse("ncols -0\nnrows 2\nxllcorner 5\nyllcorner 7\ncellsize 1"),
        Err(Error::TypeCast(word, field, of)) if word == "-0" && field == "ncols" && of == "usize"
    ));
    assert!(matches!(
        parse_header_line::<usize>(Some(b"ncols -0"), "ncols"),
        Err(Error::TypeCast(word, field, of)) if word == "-0" && field == "ncols" && of == "usize"
    ));
    assert_eq!(parse_header_line::<usize>(Some(b"ncols +0"), "ncols").unwrap(), 0);
    assert_eq!(parse_header_line::<i32>(Some(b"cellsize -0"), "cellsize").unwrap(), 0);
    // a value type without negative numbers has no such sentinel
    let lines = lines_of("ncols 2\nnrows 2\nxllcorner 5\nyllcorner 7\ncellsize 1\nnodata_value -0");
    let (header, used) = EsriASCIIRasterHeader::<i64, usize>::from_lines(&lines).unwrap();
    assert_eq!((header.no_data_value(), used), (None, 6));
    let (header, _) = EsriASCIIRasterHeader::<i64, i64>::from_lines(&lines).unwrap();
    assert_eq!(header.no_data_value(), Some(0));
}

#[test]
fn header_fields_split_at_any_white_space() {
    let (header, used) = parse(
        "ncols\u{a0}4\nnrows\u{2009}6\nxllcorner\u{3000}0\n\u{1680}yllcorner 0\ncellsize\u{205f}\u{202f}50\nnodata_value\u{85}-9999\u{2029}",
    )
    .unwrap();
    assert_eq!((header.ncols, header.nrows, header.cellsize, used), (4, 6, 50, 6));
    assert_eq!(header.no_data_value(), Some(-9999));
}

#[test]
fn anchorings_parse_from_text() {
    assert_eq!(CornerType::from_str("xllcorner").unwrap(), CornerType::Corner);
    assert_eq!("YLLCENTER".parse::<CornerType>().unwrap(), CornerType::Center);
    assert!(matches!(
        "corner".parse::<CornerType>(),
        Err(Error::ParseEnum(word, of)) if word == "corner" && of == "CornerType"
    ));
}
