//! The layout of trajectory tables.
//!
//! A trajectory is a comma-separated table: a header row naming the columns
//! `time, body0_x, body0_y, body0_z, body1_x, ...`, then one row per step
//! holding the time and each body's position in body order. A reader infers
//! the number of bodies from the width of the rows.
use vstd::prelude::*;

verus! {

/// The decimal digits.
pub open spec fn digits() -> Seq<char> {
    seq!['0', '1', '2', '3', '4', '5', '6', '7', '8', '9']
}

/// The decimal form of `n`, without leading zeros.
pub open spec fn decimal(n: nat) -> Seq<char>
    decreases n,
{
    if n < 10 {
        seq![digits()[n as int]]
    } else {
        decimal(n / 10).push(digits()[(n % 10) as int])
    }
}

/// The three column names of body `i`, each after a comma.
pub open spec fn body_columns(i: nat) -> Seq<char> {
    ",body"@ + decimal(i) + "_x,body"@ + decimal(i) + "_y,body"@ + decimal(i) + "_z"@
}

/// The header row of a table of `n` bodies.
pub open spec fn header_text(n: nat) -> Seq<char>
    decreases n,
{
    if n == 0 {
        "time"@
    } else {
        header_text((n - 1) as nat) + body_columns((n - 1) as nat)
    }
}

/// The number of times `c` occurs in `s`.
pub open spec fn count_char(s: Seq<char>, c: char) -> nat
    decreases s.len(),
{
    if s.len() == 0 {
        0
    } else {
        count_char(s.drop_last(), c) + if s.last() == c {
            1nat
        } else {
            0nat
        }
    }
}

/// The number of comma-separated fields of a row.
pub open spec fn field_count(row: Seq<char>) -> nat {
    count_char(row, ',') + 1
}

/// Why a trajectory table cannot be read.
#[derive(Clone, Copy, Debug, PartialEq, Eq, Structural)]
pub enum TrajectoryError {
    /// The first row has fewer than the four columns of time and one body.
    TooFewColumns,
    /// A row has fewer columns than the bodies of the first row need.
    MissingColumn,
    /// The text is not a well-formed CSV table.
    Malformed,
    /// The table has no data row.
    NoRecords,
}

/// The data records of a CSV text, as `csv`'s reader with a header row
/// reads them, or `None` where it reports an error.
pub uninterp spec fn csv_data_of(bytes: Seq<u8>) -> Option<Seq<Seq<Seq<char>>>>;

/// `csv::Error`, the error of a CSV reader, carried opaque.
#[verifier::external_type_specification]
#[verifier::external_body]
pub struct ExCsvError(csv::Error);

/// The texts of a sequence of strings.
pub open spec fn strings_view(v: Seq<String>) -> Seq<Seq<char>> {
    v.map_values(|s: String| s@)
}

/// The field texts of a sequence of records.
pub open spec fn rows_view(rows: Seq<Vec<String>>) -> Seq<Seq<Seq<char>>> {
    rows.map_values(|r: Vec<String>| strings_view(r@))
}

/// Relies on `csv::ReaderBuilder::has_headers(true)` and
/// `csv::Reader::records`: the data records after the header row, each as its
/// fields, or an error for malformed input. The reader is not `flexible`, so a
/// record whose field count differs from the header's is an error.
#[verifier::external_body]
fn csv_data_records(bytes: &[u8]) -> (r: Result<Vec<Vec<String>>, csv::Error>)
    ensures
        match r {
            Ok(rows) => {
                &&& csv_data_of(bytes@) == Some(rows_view(rows@))
                &&& forall|i: int, j: int|
                    0 <= i < rows.len() && 0 <= j < rows.len() ==> #[trigger] rows[i].len()
                        == #[trigger] rows[j].len()
            },
            Err(_) => csv_data_of(bytes@) is None,
        },
{
    let mut reader = csv::ReaderBuilder::new().has_headers(true).from_reader(bytes);
    reader
        .records()
        .map(|record| record.map(|fields| fields.iter().map(String::from).collect()))
        .collect()
}

/// One data row of a trajectory table: the time text, then the coordinate
/// texts `x, y, z` of every body in body order.
#[derive(Debug)]
pub struct FrameText {
    pub time: String,
    pub coordinates: Vec<String>,
}

impl View for FrameText {
    type V = (Seq<char>, Seq<Seq<char>>);

    open spec fn view(&self) -> (Seq<char>, Seq<Seq<char>>) {
        (self.time@, strings_view(self.coordinates@))
    }
}

/// The texts of a trajectory table: its number of bodies and its frames.
#[derive(Debug)]
pub struct TrajectoryText {
    pub num_bodies: usize,
    pub frames: Vec<FrameText>,
}

/// What a trajectory table holds: its number of bodies and, for each data
/// row, the time text and the coordinate texts.
pub type TrajectoryModel = (nat, Seq<(Seq<char>, Seq<Seq<char>>)>);

impl View for TrajectoryText {
    type V = TrajectoryModel;

    open spec fn view(&self) -> TrajectoryModel {
        (self.num_bodies as nat, self.frames@.map_values(|f: FrameText| f@))
    }
}

/// The frame that a row of a table of `n` bodies holds.
pub open spec fn frame_of(row: Seq<Seq<char>>, n: nat) -> (Seq<char>, Seq<Seq<char>>) {
    (row[0], row.subrange(1, (1 + 3 * n) as int))
}

/// The trajectory that the data rows `rows` describe: the first row fixes
/// the number of bodies, and every row must hold all their coordinates.
pub open spec fn frames_of(rows: Seq<Seq<Seq<char>>>) -> Result<TrajectoryModel, TrajectoryError> {
    if rows.len() == 0 {
        Err(TrajectoryError::NoRecords)
    } else {
        match bodies_of(rows[0].len()) {
            Err(e) => Err(e),
            Ok(n) => if exists|i: int| 0 <= i < rows.len() && #[trigger] rows[i].len() < 1 + 3 * n {
                Err(TrajectoryError::MissingColumn)
            } else {
                Ok((n, rows.map_values(|r: Seq<Seq<char>>| frame_of(r, n))))
            },
        }
    }
}

/// The trajectory that a CSV text describes.
pub open spec fn trajectory_of(bytes: Seq<u8>) -> Result<TrajectoryModel, TrajectoryError> {
    match csv_data_of(bytes) {
        None => Err(TrajectoryError::Malformed),
        Some(rows) => frames_of(rows),
    }
}

/// Whether `r` is the reading that `model` describes.
pub open spec fn reads_as(
    r: Result<TrajectoryText, TrajectoryError>,
    model: Result<TrajectoryModel, TrajectoryError>,
) -> bool {
    match (r, model) {
        (Ok(t), Ok(m)) => t@ == m,
        (Err(e), Err(f)) => e == f,
        _ => false,
    }
}

/// The number of bodies that a table whose first row has `num_fields`
/// fields describes, or the reason it describes none.
pub open spec fn bodies_of(num_fields: nat) -> Result<nat, TrajectoryError> {
    if num_fields < 4 {
        Err(TrajectoryError::TooFewColumns)
    } else {
        Ok(((num_fields - 1) / 3) as nat)
    }
}

/// The digit `d` as a one-character string.
fn digit_str(d: usize) -> (r: &'static str)
    requires
        d < 10,
    ensures
        r@ == seq![digits()[d as int]],
{
    proof {
        reveal_strlit("0");
        reveal_strlit("1");
        reveal_strlit("2");
        reveal_strlit("3");
        reveal_strlit("4");
        reveal_strlit("5");
        reveal_strlit("6");
        reveal_strlit("7");
        reveal_strlit("8");
        reveal_strlit("9");
    }
    let r = if d == 0 {
        "0"
    } else if d == 1 {
        "1"
    } else if d == 2 {
        "2"
    } else if d == 3 {
        "3"
    } else if d == 4 {
        "4"
    } else if d == 5 {
        "5"
    } else if d == 6 {
        "6"
    } else if d == 7 {
        "7"
    } else if d == 8 {
        "8"
    } else {
        "9"
    };
    assert(r@ =~= seq![digits()[d as int]]);
    r
}

/// Appends the decimal form of `n` to `s`.
pub fn push_decimal(s: &mut String, n: usize)
    ensures
        final(s)@ == old(s)@ + decimal(n as nat),
    decreases n,
{
    if n >= 10 {
        push_decimal(s, n / 10);
    }
    s.append(digit_str(n % 10));
    assert(s@ =~= old(s)@ + decimal(n as nat));
}

/// The header row of a trajectory table of `num_bodies` bodies.
pub fn trajectory_header(num_bodies: usize) -> (r: String)
    ensures
        r@ == header_text(num_bodies as nat),
{
    let mut h = String::from_str("time");
    for i in 0..num_bodies
        invariant
            h@ == header_text(i as nat),
    {
        h.append(",body");
        push_decimal(&mut h, i);
        h.append("_x,body");
        push_decimal(&mut h, i);
        h.append("_y,body");
        push_decimal(&mut h, i);
        h.append("_z");
        assert(h@ =~= header_text((i + 1) as nat));
    }
    h
}

/// The number of bodies that a table whose first row has `num_fields`
/// fields describes: one time column, then three columns per body.
pub fn body_count(num_fields: usize) -> (r: Result<usize, TrajectoryError>)
    ensures
        match (r, bodies_of(num_fields as nat)) {
            (Ok(n), Ok(m)) => n == m,
            (Err(e), Err(f)) => e == f,
            _ => false,
        },
{
    if num_fields < 4 {
        Err(TrajectoryError::TooFewColumns)
    } else {
        Ok((num_fields - 1) / 3)
    }
}

/// A copy of the strings `v[lo..hi]`.
fn copy_range(v: &Vec<String>, lo: usize, hi: usize) -> (r: Vec<String>)
    requires
        lo <= hi <= v.len(),
    ensures
        strings_view(r@) == strings_view(v@).subrange(lo as int, hi as int),
{
    let mut r: Vec<String> = Vec::new();
    let mut i: usize = lo;
    while i < hi
        invariant
            lo <= i <= hi <= v.len(),
            strings_view(r@) == strings_view(v@).subrange(lo as int, i as int),
        decreases hi - i,
    {
        let ghost before_push = r@;
        r.push(v[i].clone());
        assert(strings_view(r@) =~= strings_view(before_push).push(v@[i as int]@));
        assert(strings_view(v@).subrange(lo as int, i + 1) =~= strings_view(v@).subrange(
            lo as int,
            i as int,
        ).push(v@[i as int]@));
        i = i + 1;
    }
    r
}

/// The trajectory texts of the data rows of a table: the first row fixes the
/// number of bodies, each row gives a frame.
pub fn frames_from_records(rows: &Vec<Vec<String>>) -> (r: Result<TrajectoryText, TrajectoryError>)
    ensures
        reads_as(r, frames_of(rows_view(rows@))),
{
    let ghost model = rows_view(rows@);
    if rows.len() == 0 {
        return Err(TrajectoryError::NoRecords);
    }
    assert(model[0] == strings_view(rows@[0]@));
    let n = match body_count(rows[0].len()) {
        Ok(n) => n,
        Err(e) => {
            return Err(e);
        },
    };
    let width: usize = 1 + 3 * n;
    let mut frames: Vec<FrameText> = Vec::new();
    let mut i: usize = 0;
    while i < rows.len()
        invariant
            i <= rows.len(),
            model == rows_view(rows@),
            model.len() == rows.len(),
            rows.len() > 0,
            bodies_of(model[0].len()) == Ok::<nat, TrajectoryError>(n as nat),
            width == 1 + 3 * n,
            forall|k: int| 0 <= k < i ==> (#[trigger] model[k]).len() >= width,
            frames@.map_values(|f: FrameText| f@) == model.take(i as int).map_values(
                |r: Seq<Seq<char>>| frame_of(r, n as nat),
            ),
        decreases rows.len() - i,
    {
        let row = &rows[i];
        assert(model[i as int] == strings_view(row@));
        if row.len() < width {
            assert(model[i as int].len() < 1 + 3 * (n as nat));
            return Err(TrajectoryError::MissingColumn);
        }
        let frame = FrameText { time: row[0].clone(), coordinates: copy_range(row, 1, width) };
        assert(frame@ == frame_of(model[i as int], n as nat));
        let ghost before_push = frames@;
        frames.push(frame);
        assert(frames@.map_values(|f: FrameText| f@) =~= before_push.map_values(
            |f: FrameText| f@,
        ).push(frame@));
        assert(model.take(i + 1).map_values(|r: Seq<Seq<char>>| frame_of(r, n as nat))
            =~= model.take(i as int).map_values(|r: Seq<Seq<char>>| frame_of(r, n as nat)).push(
            frame_of(model[i as int], n as nat),
        ));
        i = i + 1;
    }
    assert(model.take(i as int) =~= model);
    Ok(TrajectoryText { num_bodies: n, frames })
}

/// Reads the trajectory that a CSV text describes: a header row, then one
/// row per frame with the time and every body's coordinates.
pub fn read_trajectory(bytes: &[u8]) -> (r: Result<TrajectoryText, TrajectoryError>)
    ensures
        reads_as(r, trajectory_of(bytes@)),
        r != Err::<TrajectoryText, TrajectoryError>(TrajectoryError::MissingColumn),
{
    match csv_data_records(bytes) {
        Ok(rows) => {
            proof {
                let m = rows_view(rows@);
                if m.len() > 0 && m[0].len() >= 4 {
                    let w = m[0].len() as int;
                    let n = (w - 1) / 3;
                    assert(1 + 3 * n <= w) by (nonlinear_arith)
                        requires
                            n == (w - 1) / 3,
                            w >= 4,
                    ;
                    assert forall|i: int| 0 <= i < m.len() implies !(#[trigger] m[i].len() < 1 + 3
                        * n) by {
                        assert(rows[i].len() == rows[0].len());
                    }
                }
            }
            frames_from_records(&rows)
        },
        Err(_) => Err(TrajectoryError::Malformed),
    }
}

/// Occurrences of a character add up over a concatenation.
proof fn lemma_count_concat(a: Seq<char>, b: Seq<char>, c: char)
    ensures
        count_char(a + b, c) == count_char(a, c) + count_char(b, c),
    decreases b.len(),
{
    if b.len() > 0 {
        lemma_count_concat(a, b.drop_last(), c);
        assert((a + b).drop_last() =~= a + b.drop_last());
    } else {
        assert(a + b =~= a);
    }
}

/// A decimal form holds no comma.
proof fn lemma_decimal_no_comma(n: nat)
    ensures
        count_char(decimal(n), ',') == 0,
    decreases n,
{
    assert(forall|d: int| 0 <= d < 10 ==> #[trigger] digits()[d] != ',') by {
        assert forall|d: int| 0 <= d < 10 implies #[trigger] digits()[d] != ',' by {
            if d < 5 {
            } else {
            }
        }
    }
    let s = decimal(n);
    if n < 10 {
        assert(s.drop_last() =~= Seq::<char>::empty());
        assert(count_char(s.drop_last(), ',') == 0);
        assert(s.last() == digits()[n as int]);
    } else {
        lemma_decimal_no_comma(n / 10);
        assert(s.drop_last() =~= decimal(n / 10));
        assert(s.last() == digits()[(n % 10) as int]);
    }
    assert(s.len() > 0);
    assert(count_char(s, ',') == count_char(s.drop_last(), ','));
}

/// The number of commas in a short literal.
proof fn lemma_literal_commas()
    ensures
        count_char("time"@, ',') == 0,
        count_char(",body"@, ',') == 1,
        count_char("_x,body"@, ',') == 1,
        count_char("_y,body"@, ',') == 1,
        count_char("_z"@, ',') == 0,
{
    reveal_strlit("time");
    reveal_strlit(",body");
    reveal_strlit("_x,body");
    reveal_strlit("_y,body");
    reveal_strlit("_z");
    reveal_with_fuel(count_char, 8);
    assert("time"@.drop_last().drop_last().drop_last().drop_last() =~= Seq::<char>::empty());
    assert(",body"@.drop_last().drop_last().drop_last().drop_last().drop_last() =~= Seq::<char>::empty());
    assert("_x,body"@.drop_last().drop_last().drop_last().drop_last().drop_last().drop_last().drop_last() =~= Seq::<char>::empty());
    assert("_y,body"@.drop_last().drop_last().drop_last().drop_last().drop_last().drop_last().drop_last() =~= Seq::<char>::empty());
    assert("_z"@.drop_last().drop_last() =~= Seq::<char>::empty());
}

/// The header of `n` bodies holds `3 * n` commas.
proof fn lemma_header_commas(n: nat)
    ensures
        count_char(header_text(n), ',') == 3 * n,
    decreases n,
{
    lemma_literal_commas();
    if n > 0 {
        let i = (n - 1) as nat;
        lemma_header_commas(i);
        lemma_decimal_no_comma(i);
        let d = decimal(i);
        lemma_count_concat(",body"@, d, ',');
        lemma_count_concat(",body"@ + d, "_x,body"@, ',');
        lemma_count_concat(",body"@ + d + "_x,body"@, d, ',');
        lemma_count_concat(",body"@ + d + "_x,body"@ + d, "_y,body"@, ',');
        lemma_count_concat(",body"@ + d + "_x,body"@ + d + "_y,body"@, d, ',');
        lemma_count_concat(",body"@ + d + "_x,body"@ + d + "_y,body"@ + d, "_z"@, ',');
        lemma_count_concat(header_text(i), body_columns(i), ',');
    }
}

/// A table written with the header of `n` bodies, whose rows are as wide as
/// its header, is read back as a table of `n` bodies.
pub proof fn lemma_header_body_count(n: nat)
    requires
        n >= 1,
    ensures
        field_count(header_text(n)) == 1 + 3 * n,
        bodies_of(field_count(header_text(n))) == Ok::<nat, TrajectoryError>(n),
{
    lemma_header_commas(n);
    assert((1 + 3 * n - 1) / 3 == n) by (nonlinear_arith)
        requires n >= 1;
}

/// Data rows written for `n >= 1` bodies, each the time followed by `3 * n`
/// coordinates, are read back as a table of `n` bodies whose frames hold the
/// same times and the same coordinates, in the same order.
pub proof fn lemma_rows_read_back(n: nat, times: Seq<Seq<char>>, coords: Seq<Seq<Seq<char>>>)
    requires
        n >= 1,
        times.len() == coords.len(),
        times.len() > 0,
        forall|i: int| 0 <= i < coords.len() ==> (#[trigger] coords[i]).len() == 3 * n,
    ensures
        frames_of(Seq::new(times.len(), |i: int| seq![times[i]] + coords[i])) == Ok::<
            TrajectoryModel,
            TrajectoryError,
        >((n, Seq::new(times.len(), |i: int| (times[i], coords[i])))),
{
    let rows = Seq::new(times.len(), |i: int| seq![times[i]] + coords[i]);
    assert(rows[0].len() == 1 + 3 * n);
    assert((1 + 3 * n - 1) / 3 == n) by (nonlinear_arith)
        requires
            n >= 1,
    ;
    assert forall|i: int| 0 <= i < rows.len() implies !(#[trigger] rows[i].len() < 1 + 3 * n) by {
        assert(rows[i].len() == 1 + coords[i].len());
    }
    assert forall|i: int| 0 <= i < rows.len() implies #[trigger] frame_of(rows[i], n) == (
        times[i],
        coords[i],
    ) by {
        assert(rows[i].subrange(1, (1 + 3 * n) as int) =~= coords[i]);
    }
    assert(rows.map_values(|r: Seq<Seq<char>>| frame_of(r, n)) =~= Seq::new(
        times.len(),
        |i: int| (times[i], coords[i]),
    ));
}

} // verus!
