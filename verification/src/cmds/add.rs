//! Adding a layout: a submitted matrix becomes an assignment of keys to
//! positions and fingers, and the layout enters the registry.

use vstd::prelude::*;
use crate::util::consts::{FMAP_ANGLE, FMAP_STANDARD, FREE_CHAR};
use crate::util::conv::layout::{map_of, Entry};
use crate::util::keys::Layout;
use crate::util::layout::{check_name, check_name_spec};
use crate::util::memory::{has_name, ServerLayouts};
use crate::util::model::{Finger, LayoutConfig, Position};
use crate::util::parser::{get_layout, layout_parts};
use crate::util::text::{
    chars_of, count_leading_whitespace, decimal, decimal_of, leading_whitespace, lines_of, push_all,
    push_str, split_lines, string_of, views,
};

verus! {

/// The shape of a board.
#[derive(Debug, PartialEq, Eq, Copy, Clone, Structural)]
pub enum Board {
    Ortho,
    Angle,
    Stagger,
    Mini,
}

/// Why a matrix gives no layout.
#[derive(Debug, PartialEq, Eq, Copy, Clone, Structural)]
pub enum MatrixError {
    /// The matrix has fewer than three rows; this many.
    TooFewRows(usize),
    /// The indentation of the rows fits no board shape.
    Undefined,
    /// The matrix has more rows than the shape can have; this many.
    TooManyRows(Board, usize),
    /// This character is assigned twice.
    Duplicate(char),
}

/// Why a layout was not added.
#[derive(Debug)]
pub enum AddError {
    /// The name breaks a rule; this is the message.
    Name(String),
    /// The matrix gives no layout.
    Matrix(MatrixError),
    /// A layout of this name exists already.
    Exists(String),
}

impl Board {
    /// The name of the shape.
    pub open spec fn name_spec(self) -> Seq<char> {
        match self {
            Board::Ortho => "ortho"@,
            Board::Angle => "angle"@,
            Board::Stagger => "stagger"@,
            Board::Mini => "mini"@,
        }
    }

    /// How many rows a board of the shape can have: a fourth row, for the
    /// thumbs, on a mini board only.
    pub open spec fn max_rows_spec(self) -> int {
        if self == Board::Mini {
            4
        } else {
            3
        }
    }

    /// The name of the shape.
    pub fn name(self) -> (r: &'static str)
        ensures
            r@ == self.name_spec(),
    {
        match self {
            Board::Ortho => "ortho",
            Board::Angle => "angle",
            Board::Stagger => "stagger",
            Board::Mini => "mini",
        }
    }

    /// How many rows a board of the shape can have.
    pub fn max_rows(self) -> (r: usize)
        ensures
            r == self.max_rows_spec(),
    {
        match self {
            Board::Mini => 4,
            _ => 3,
        }
    }
}

/// The shape that the indentation of the first three rows tells: stagger
/// where it grows from row to row; where the first two rows are level, mini
/// if the third is indented by more than one and a fourth row is there,
/// angle if the third is indented by one more than they, ortho if it is
/// level with them.
pub open spec fn shape_of(s0: int, s1: int, s2: int, row_count: int) -> Option<Board> {
    if s0 < s1 && s1 < s2 {
        Some(Board::Stagger)
    } else if s0 == s1 && s2 > 1 && row_count > 3 {
        Some(Board::Mini)
    } else if s0 == s1 && s2 == s1 + 1 {
        Some(Board::Angle)
    } else if s0 == s1 && s1 == s2 {
        Some(Board::Ortho)
    } else {
        None
    }
}

/// Whether a character of a row is a key: neither a space nor the free slot
/// marker.
pub open spec fn is_key(c: char) -> bool {
    c != ' ' && c != FREE_CHAR
}

/// The keys of a row, in order.
pub open spec fn keys_of(line: Seq<char>) -> Seq<char>
    decreases line.len(),
{
    if line.len() == 0 {
        Seq::empty()
    } else if is_key(line.last()) {
        keys_of(line.drop_last()).push(line.last())
    } else {
        keys_of(line.drop_last())
    }
}

/// The finger of a column by the standard table.
pub open spec fn standard_finger(col: int) -> Finger {
    if col <= 0 {
        0
    } else if col == 1 {
        1
    } else if col == 2 {
        2
    } else if col == 3 || col == 4 {
        3
    } else if col == 5 || col == 6 {
        6
    } else if col == 7 {
        7
    } else if col == 8 {
        8
    } else {
        9
    }
}

/// The finger of a column on the last row of an angle board.
pub open spec fn angle_finger(col: int) -> Finger {
    if col <= 0 {
        1
    } else if col == 1 {
        2
    } else if col == 2 || col == 3 || col == 4 {
        3
    } else {
        standard_finger(col)
    }
}

/// The finger of the key at a row and a column of a board.
pub open spec fn finger_at(board: Board, row: int, col: int) -> Finger {
    if row == 2 && board == Board::Angle {
        angle_finger(col)
    } else {
        standard_finger(col)
    }
}

/// The entries of one of the first three rows: each key at its row and its
/// index among the keys of the row, on the finger of that column.
pub open spec fn row_entries(keys: Seq<char>, row: int, board: Board) -> Seq<Entry> {
    Seq::new(
        keys.len(),
        |j: int| (keys[j], ((row % 256) as u8, (j % 256) as u8, finger_at(board, row, j))),
    )
}

/// The finger of the thumb row: the left thumb where the row is indented by
/// more than eight, else the right thumb.
pub open spec fn thumb_finger(indent: int) -> Finger {
    if indent > 8 {
        4
    } else {
        5
    }
}

/// The entries of the thumb row.
pub open spec fn thumb_entries(keys: Seq<char>, indent: int) -> Seq<Entry> {
    Seq::new(keys.len(), |j: int| (keys[j], (3u8, (j % 256) as u8, thumb_finger(indent))))
}

/// The entries of a matrix on a board, row by row.
pub open spec fn all_entries(rows: Seq<Seq<char>>, board: Board) -> Seq<Entry> {
    row_entries(keys_of(rows[0]), 0, board) + row_entries(keys_of(rows[1]), 1, board) + row_entries(
        keys_of(rows[2]),
        2,
        board,
    ) + (if board == Board::Mini && rows.len() > 3 {
        thumb_entries(keys_of(rows[3]), leading_whitespace(rows[3]))
    } else {
        Seq::<Entry>::empty()
    })
}

/// The shape and the entries of a matrix, before any is checked against the
/// others.
pub open spec fn matrix_entries(matrix: Seq<char>) -> Result<(Board, Seq<Entry>), MatrixError> {
    let rows = lines_of(matrix);
    if rows.len() < 3 {
        Err(MatrixError::TooFewRows(rows.len() as usize))
    } else {
        match shape_of(
            leading_whitespace(rows[0]),
            leading_whitespace(rows[1]),
            leading_whitespace(rows[2]),
            rows.len() as int,
        ) {
            None => Err(MatrixError::Undefined),
            Some(board) => if rows.len() > board.max_rows_spec() {
                Err(MatrixError::TooManyRows(board, rows.len() as usize))
            } else {
                Ok((board, all_entries(rows, board)))
            },
        }
    }
}

/// Whether the key of an entry stands in an entry before it.
pub open spec fn repeats_at(es: Seq<Entry>, j: int) -> bool {
    exists|i: int| 0 <= i < j && (#[trigger] es[i]).0 == es[j].0
}

/// Whether no key stands in two entries.
pub open spec fn distinct_keys(es: Seq<Entry>) -> bool {
    forall|j: int| 0 <= j < es.len() ==> !#[trigger] repeats_at(es, j)
}

/// Whether `j` is the first entry whose key stands in an entry before it.
pub open spec fn is_first_repeat(es: Seq<Entry>, j: int) -> bool {
    &&& 0 <= j < es.len()
    &&& repeats_at(es, j)
    &&& forall|k: int| 0 <= k < j ==> !#[trigger] repeats_at(es, k)
}

/// What a matrix gives: the first error in the order of the checks (rows,
/// shape, row limit, repeated key), or the board and the assignment of all
/// its keys. No assignment is given where any check fails.
pub open spec fn parse_post(matrix: Seq<char>, r: Result<(Board, Map<char, Position>), MatrixError>) -> bool {
    match matrix_entries(matrix) {
        Err(e) => r == Err::<(Board, Map<char, Position>), MatrixError>(e),
        Ok((board, es)) => match r {
            Ok((b, keys)) => b == board && distinct_keys(es) && keys == map_of(es),
            Err(MatrixError::Duplicate(c)) => exists|j: int|
                is_first_repeat(es, j) && (#[trigger] es[j]).0 == c,
            Err(_) => false,
        },
    }
}

impl MatrixError {
    /// The message of the error.
    pub open spec fn message(self) -> Seq<char> {
        match self {
            MatrixError::TooFewRows(n) => "Expected 3 lines, got "@ + decimal_of(n as nat),
            MatrixError::Undefined => "Error: board shape is undefined"@,
            MatrixError::TooManyRows(board, n) => "Error: board type `"@ + board.name_spec()
                + "` supports at most "@ + decimal_of(board.max_rows_spec() as nat) + " rows, got "@
                + decimal_of(n as nat),
            MatrixError::Duplicate(c) => "Error: `"@ + seq![c] + "` is defined twice"@,
        }
    }

    /// The message of the error.
    pub fn to_string(&self) -> (r: String)
        ensures
            r@ == self.message(),
    {
        let mut out: Vec<char> = Vec::new();
        match self {
            MatrixError::TooFewRows(n) => {
                push_str(&mut out, "Expected 3 lines, got ");
                push_all(&mut out, &decimal(*n));
                assert(out@ =~= self.message());
            },
            MatrixError::Undefined => {
                push_str(&mut out, "Error: board shape is undefined");
                assert(out@ =~= self.message());
            },
            MatrixError::TooManyRows(board, n) => {
                push_str(&mut out, "Error: board type `");
                push_str(&mut out, board.name());
                push_str(&mut out, "` supports at most ");
                push_all(&mut out, &decimal(board.max_rows()));
                push_str(&mut out, " rows, got ");
                push_all(&mut out, &decimal(*n));
                assert(out@ =~= self.message());
            },
            MatrixError::Duplicate(c) => {
                push_str(&mut out, "Error: `");
                out.push(*c);
                push_str(&mut out, "` is defined twice");
                assert(out@ =~= self.message());
            },
        }
        string_of(&out)
    }
}

impl AddError {
    /// The message of the error.
    pub open spec fn message(self) -> Seq<char> {
        match self {
            AddError::Name(message) => message@,
            AddError::Matrix(e) => e.message(),
            AddError::Exists(name) => "Error: `"@ + name@ + "` already exists"@,
        }
    }

    /// The message of the error.
    pub fn to_string(&self) -> (r: String)
        ensures
            r@ == self.message(),
    {
        match self {
            AddError::Name(message) => message.clone(),
            AddError::Matrix(e) => e.to_string(),
            AddError::Exists(name) => {
                let mut out: Vec<char> = Vec::new();
                push_str(&mut out, "Error: `");
                push_str(&mut out, name.as_str());
                push_str(&mut out, "` already exists");
                assert(out@ =~= self.message());
                string_of(&out)
            },
        }
    }
}

/// The shape that the indentation of the first three rows tells.
pub fn shape(s0: usize, s1: usize, s2: usize, row_count: usize) -> (r: Option<Board>)
    ensures
        r == shape_of(s0 as int, s1 as int, s2 as int, row_count as int),
{
    if s0 < s1 && s1 < s2 {
        Some(Board::Stagger)
    } else if s0 == s1 && s2 > 1 && row_count > 3 {
        Some(Board::Mini)
    } else if s0 == s1 && s2 > s1 && s2 - s1 == 1 {
        Some(Board::Angle)
    } else if s0 == s1 && s1 == s2 {
        Some(Board::Ortho)
    } else {
        None
    }
}

/// The keys of a row, in order.
pub fn row_keys(line: &Vec<char>) -> (r: Vec<char>)
    ensures
        r@ == keys_of(line@),
{
    let mut keys: Vec<char> = Vec::new();
    let mut i: usize = 0;
    assert(line@.take(0) =~= Seq::<char>::empty());
    while i < line.len()
        invariant
            i <= line.len(),
            keys@ == keys_of(line@.take(i as int)),
        decreases line.len() - i,
    {
        let c = line[i];
        proof {
            assert(line@.take(i + 1).drop_last() =~= line@.take(i as int));
            assert(line@.take(i + 1).last() == c);
        }
        if c != ' ' && c != FREE_CHAR {
            keys.push(c);
        }
        i += 1;
    }
    assert(line@.take(line@.len() as int) =~= line@);
    keys
}

/// The finger of the key at a row and a column of a board.
pub fn finger_of(board: Board, row: usize, col: usize) -> (r: Finger)
    ensures
        r == finger_at(board, row as int, col as int),
{
    let c = if col < 9 {
        col
    } else {
        9
    };
    if row == 2 && board == Board::Angle {
        FMAP_ANGLE[c]
    } else {
        FMAP_STANDARD[c]
    }
}

/// Appends the entries of one of the first three rows.
fn push_row(entries: &mut Vec<Entry>, line: &Vec<char>, row: usize, board: Board)
    requires
        row < 3,
    ensures
        final(entries)@ == old(entries)@ + row_entries(keys_of(line@), row as int, board),
{
    let keys = row_keys(line);
    let mut j: usize = 0;
    while j < keys.len()
        invariant
            j <= keys.len(),
            row < 3,
            keys@ == keys_of(line@),
            entries@ == old(entries)@ + row_entries(keys@, row as int, board).take(j as int),
        decreases keys.len() - j,
    {
        let finger = finger_of(board, row, j);
        let ghost whole = row_entries(keys@, row as int, board);
        entries.push((keys[j], (row as u8, (j % 256) as u8, finger)));
        proof {
            assert(whole.take(j + 1) =~= whole.take(j as int).push(whole[j as int]));
            assert(entries@ =~= old(entries)@ + whole.take(j + 1));
        }
        j += 1;
    }
    proof {
        let whole = row_entries(keys@, row as int, board);
        assert(whole.take(keys@.len() as int) =~= whole);
    }
}

/// Appends the entries of the thumb row.
fn push_thumb_row(entries: &mut Vec<Entry>, line: &Vec<char>)
    ensures
        final(entries)@ == old(entries)@ + thumb_entries(keys_of(line@), leading_whitespace(line@)),
{
    let indent = count_leading_whitespace(line);
    let finger: Finger = if indent > 8 {
        4
    } else {
        5
    };
    let keys = row_keys(line);
    let mut j: usize = 0;
    while j < keys.len()
        invariant
            j <= keys.len(),
            keys@ == keys_of(line@),
            indent == leading_whitespace(line@),
            finger == thumb_finger(indent as int),
            entries@ == old(entries)@ + thumb_entries(keys@, indent as int).take(j as int),
        decreases keys.len() - j,
    {
        let ghost whole = thumb_entries(keys@, indent as int);
        entries.push((keys[j], (3, (j % 256) as u8, finger)));
        proof {
            assert(whole.take(j + 1) =~= whole.take(j as int).push(whole[j as int]));
            assert(entries@ =~= old(entries)@ + whole.take(j + 1));
        }
        j += 1;
    }
    proof {
        let whole = thumb_entries(keys@, indent as int);
        assert(whole.take(keys@.len() as int) =~= whole);
    }
}

/// The assignment that holds the entries, or the key of the first entry
/// whose key stands in an entry before it.
pub fn layout_from_entries(entries: &Vec<Entry>) -> (r: Result<Layout, char>)
    ensures
        match r {
            Ok(layout) => distinct_keys(entries@) && layout@ == map_of(entries@),
            Err(c) => exists|j: int| is_first_repeat(entries@, j) && (#[trigger] entries@[j]).0 == c,
        },
{
    let ghost es = entries@;
    let mut layout = Layout::new();
    let mut i: usize = 0;
    assert(layout@ =~= map_of(es.take(0)));
    while i < entries.len()
        invariant
            i <= entries.len(),
            es == entries@,
            forall|k: int| 0 <= k < i ==> !#[trigger] repeats_at(es, k),
            layout@ == map_of(es.take(i as int)),
        decreases entries.len() - i,
    {
        let e = entries[i];
        let ghost before = layout@;
        let ghost done = es.take(i as int);
        if layout.contains_key(e.0) {
            proof {
                let k = choose|k: int| 0 <= k < done.len() && (#[trigger] done[k]).0 == e.0;
                assert(es[k].0 == es[i as int].0);
                assert(repeats_at(es, i as int));
                assert(is_first_repeat(es, i as int));
            }
            return Err(e.0);
        }
        layout.insert(e.0, e.1);
        proof {
            let next = es.take(i + 1);
            assert(!repeats_at(es, i as int)) by {
                if repeats_at(es, i as int) {
                    let k = choose|k: int| 0 <= k < i && (#[trigger] es[k]).0 == es[i as int].0;
                    assert(done[k].0 == e.0);
                }
            }
            assert forall|c: char| layout@.contains_key(c) == map_of(next).contains_key(c) by {
                if map_of(next).contains_key(c) {
                    let k = choose|k: int| 0 <= k < next.len() && (#[trigger] next[k]).0 == c;
                    if k < i {
                        assert(done[k].0 == c);
                    }
                }
                if before.contains_key(c) {
                    let k = choose|k: int| 0 <= k < done.len() && (#[trigger] done[k]).0 == c;
                    assert(next[k].0 == c);
                }
                if c == e.0 {
                    assert(next[i as int].0 == c);
                }
            }
            assert forall|c: char| #[trigger] layout@.contains_key(c) implies layout@[c] == map_of(
                next,
            )[c] by {
                let k = choose|k: int| 0 <= k < next.len() && (#[trigger] next[k]).0 == c;
                if c == e.0 {
                    if k < i {
                        assert(es[k].0 == es[i as int].0);
                        assert(repeats_at(es, i as int));
                    }
                } else {
                    assert(k < i);
                    assert(done[k].0 == c);
                    let k2 = choose|k2: int| 0 <= k2 < done.len() && (#[trigger] done[k2]).0 == c;
                    if k != k2 {
                        let lo = if k < k2 { k } else { k2 };
                        let hi = if k < k2 { k2 } else { k };
                        assert(es[lo].0 == es[hi].0);
                        assert(repeats_at(es, hi));
                    }
                }
            }
            assert(layout@ =~= map_of(next));
        }
        i += 1;
    }
    assert(es.take(es.len() as int) =~= es);
    Ok(layout)
}

/// Reads a matrix: three or four rows of keys, whose indentation tells the
/// shape of the board. Each key gets its row, its index among the keys of
/// its row, and the finger of that column. A key that is there twice stops
/// the whole reading.
pub fn parse_matrix(matrix: &str) -> (r: Result<(Board, Layout), MatrixError>)
    ensures
        match r {
            Ok((board, layout)) => parse_post(matrix@, Ok((board, layout@))),
            Err(e) => parse_post(matrix@, Err(e)),
        },
{
    let chars = chars_of(matrix);
    let rows = split_lines(&chars);
    let ghost lines = lines_of(matrix@);
    let row_count = rows.len();
    assert(views(rows@).len() == rows@.len());
    if row_count < 3 {
        return Err(MatrixError::TooFewRows(row_count));
    }
    proof {
        assert(views(rows@)[0] == rows@[0]@);
        assert(views(rows@)[1] == rows@[1]@);
        assert(views(rows@)[2] == rows@[2]@);
    }
    let s0 = count_leading_whitespace(&rows[0]);
    let s1 = count_leading_whitespace(&rows[1]);
    let s2 = count_leading_whitespace(&rows[2]);
    let board = match shape(s0, s1, s2, row_count) {
        Some(board) => board,
        None => {
            return Err(MatrixError::Undefined);
        },
    };
    if row_count > board.max_rows() {
        return Err(MatrixError::TooManyRows(board, row_count));
    }
    let mut entries: Vec<Entry> = Vec::new();
    push_row(&mut entries, &rows[0], 0, board);
    push_row(&mut entries, &rows[1], 1, board);
    push_row(&mut entries, &rows[2], 2, board);
    if board == Board::Mini && row_count > 3 {
        assert(views(rows@)[3] == rows@[3]@);
        push_thumb_row(&mut entries, &rows[3]);
    }
    assert(entries@ =~= all_entries(lines, board));
    assert(matrix_entries(matrix@) == Ok::<(Board, Seq<Entry>), MatrixError>(
        (board, all_entries(lines, board)),
    ));
    match layout_from_entries(&entries) {
        Ok(layout) => {
            assert(parse_post(matrix@, Ok((board, layout@))));
            Ok((board, layout))
        },
        Err(c) => {
            proof {
                let es = all_entries(lines, board);
                let j = choose|j: int| is_first_repeat(entries@, j) && (#[trigger] entries@[j]).0 == c;
                assert(is_first_repeat(es, j) && es[j].0 == c);
                assert(matrix_entries(matrix@)->Ok_0.1 == es);
            }
            assert(parse_post(matrix@, Err(MatrixError::Duplicate(c))));
            Err(MatrixError::Duplicate(c))
        },
    }
}

/// The command that adds a layout.
pub struct Command;

/// What adding does: the name is checked, then the matrix is read, and only
/// then the registry changes: the layout goes to its end under the name, with
/// the caller as its owner. Where anything fails the registry stays as it was.
pub open spec fn add_post(
    arg: Seq<char>,
    id: u64,
    before: Seq<LayoutConfig>,
    after: Seq<LayoutConfig>,
    r: Result<String, AddError>,
) -> bool {
    let (name, matrix) = layout_parts(arg);
    match r {
        Err(AddError::Name(message)) => {
            &&& check_name_spec(name) == Err::<(), Seq<char>>(message@)
            &&& after == before
        },
        Err(AddError::Matrix(e)) => {
            &&& check_name_spec(name) is Ok
            &&& parse_post(matrix, Err(e))
            &&& after == before
        },
        Err(AddError::Exists(n)) => {
            &&& check_name_spec(name) is Ok
            &&& matrix_entries(matrix) is Ok
            &&& distinct_keys(matrix_entries(matrix)->Ok_0.1)
            &&& has_name(before, name)
            &&& n@ == name
            &&& after == before
        },
        Ok(n) => {
            &&& check_name_spec(name) is Ok
            &&& matrix_entries(matrix) is Ok
            &&& distinct_keys(matrix_entries(matrix)->Ok_0.1)
            &&& !has_name(before, name)
            &&& n@ == name
            &&& after.len() == before.len() + 1
            &&& after.drop_last() == before
            &&& after.last().name@ == name
            &&& after.last().user == id
            &&& after.last().board@ == matrix_entries(matrix)->Ok_0.0.name_spec()
            &&& after.last().keys@ == map_of(matrix_entries(matrix)->Ok_0.1)
        },
    }
}

impl Command {
    /// Adds the layout that the argument text submits, for the caller `id`,
    /// and returns its name.
    pub fn exec(&self, arg: &str, id: u64, layouts: &mut ServerLayouts) -> (r: Result<
        String,
        AddError,
    >)
        ensures
            add_post(arg@, id, old(layouts)@, final(layouts)@, r),
    {
        let (name, matrix) = get_layout(arg);
        if let Err(message) = check_name(name.as_str()) {
            return Err(AddError::Name(message));
        }
        let (board, keymap) = match parse_matrix(matrix.as_str()) {
            Ok(parsed) => parsed,
            Err(e) => {
                return Err(AddError::Matrix(e));
            },
        };
        let data = LayoutConfig::new(
            name.clone(),
            id,
            crate::util::text::str_owned(board.name()),
            keymap,
        );
        if layouts.add(data) {
            assert(layouts@.drop_last() =~= old(layouts)@);
            Ok(name)
        } else {
            Err(AddError::Exists(name))
        }
    }

    /// How the command is called.
    pub fn usage(&self) -> (r: &'static str)
        ensures
            r@ == "add <layout> ``\u{200b}`keys`\u{200b}``"@,
    {
        "add <layout> ``\u{200b}`keys`\u{200b}``"
    }

    /// What the command does.
    pub fn desc(&self) -> (r: &'static str)
        ensures
            r@ == "contribute a new layout"@,
    {
        "contribute a new layout"
    }
}

} // verus!
