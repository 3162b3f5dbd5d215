//! Names of layouts, and a layout drawn as a matrix.

use vstd::prelude::*;
use vstd::string::StringExecFns;
use vstd::string::StringSliceAdditionalSpecFns;
use crate::util::conv::layout::{canonical, sorted_entries, Entry};
use crate::util::model::LayoutConfig;
use crate::util::text::{chars_of, push_all, push_str, str_eq, string_of};

verus! {

/// Whether a character may stand in a layout's name.
pub open spec fn is_allowed(c: char) -> bool {
    ||| 'a' <= c <= 'z'
    ||| 'A' <= c <= 'Z'
    ||| '0' <= c <= '9'
    ||| c == '_'
    ||| c == '\''
    ||| c == '-'
    ||| c == '('
    ||| c == ')'
    ||| c == ':'
    ||| c == '~'
}

/// The first character of a name that may not stand in one.
pub open spec fn first_disallowed(s: Seq<char>) -> Option<char>
    decreases s.len(),
{
    if s.len() == 0 {
        None
    } else if !is_allowed(s[0]) {
        Some(s[0])
    } else {
        first_disallowed(s.drop_first())
    }
}

/// The verdict on a name: the message of the first rule it breaks. A name
/// does not begin with an underscore, takes at least three bytes, and holds
/// allowed characters only.
pub open spec fn check_name_spec(s: Seq<char>) -> Result<(), Seq<char>> {
    if s.len() > 0 && s[0] == '_' {
        Err("Error: names cannot start with an underscore"@)
    } else if vstd::utf8::encode_utf8(s).len() < 3 {
        Err("Error: names must be at least 3 characters long"@)
    } else {
        match first_disallowed(s) {
            Some(c) => Err("names cannot contain `"@ + seq![c] + "`"@),
            None => Ok(()),
        }
    }
}

/// The first disallowed character of a text is the one before which all are
/// allowed.
pub proof fn lemma_first_disallowed(s: Seq<char>, m: int)
    requires
        0 <= m <= s.len(),
        forall|j: int| 0 <= j < m ==> is_allowed(s[j]),
        m == s.len() || !is_allowed(s[m]),
    ensures
        first_disallowed(s) == (if m == s.len() {
            None
        } else {
            Some(s[m])
        }),
    decreases m,
{
    if m > 0 {
        let t = s.drop_first();
        assert forall|j: int| 0 <= j < m - 1 implies is_allowed(t[j]) by {
            assert(t[j] == s[j + 1]);
        }
        lemma_first_disallowed(t, m - 1);
    }
}

fn is_char_allowed_in_name(c: char) -> (r: bool)
    ensures
        r == is_allowed(c),
{
    ('a' <= c && c <= 'z') || ('A' <= c && c <= 'Z') || ('0' <= c && c <= '9') || c == '_' || c
        == '\'' || c == '-' || c == '(' || c == ')' || c == ':' || c == '~'
}

/// Checks a layout's name, and says which rule it breaks.
pub fn check_name(name: &str) -> (r: Result<(), String>)
    ensures
        match r {
            Ok(_) => check_name_spec(name@) is Ok,
            Err(message) => check_name_spec(name@) == Err::<(), Seq<char>>(message@),
        },
{
    let chars = chars_of(name);
    if chars.len() > 0 && chars[0] == '_' {
        return Err(String::from_str("Error: names cannot start with an underscore"));
    }
    assert(name.spec_bytes() == vstd::utf8::encode_utf8(name@));
    if name.as_bytes().len() < 3 {
        return Err(String::from_str("Error: names must be at least 3 characters long"));
    }
    let mut i: usize = 0;
    while i < chars.len()
        invariant
            i <= chars.len(),
            chars@ == name@,
            !(name@.len() > 0 && name@[0] == '_'),
            vstd::utf8::encode_utf8(name@).len() >= 3,
            forall|j: int| 0 <= j < i ==> is_allowed(chars@[j]),
        decreases chars.len() - i,
    {
        let c = chars[i];
        if !is_char_allowed_in_name(c) {
            proof {
                lemma_first_disallowed(chars@, i as int);
            }
            let mut message: Vec<char> = Vec::new();
            push_str(&mut message, "names cannot contain `");
            message.push(c);
            push_str(&mut message, "`");
            assert(message@ =~= "names cannot contain `"@ + seq![c] + "`"@);
            return Err(string_of(&message));
        }
        i += 1;
    }
    proof {
        lemma_first_disallowed(chars@, chars@.len() as int);
    }
    Ok(())
}

/// How many rows a drawn matrix has at most.
pub const ROWS: usize = 4;

/// How many columns a drawn matrix has.
pub const COLS: usize = 16;

/// What stands in a cell of the matrix: the key of the last entry that sits
/// there, or a space where none does.
pub open spec fn cell(es: Seq<Entry>, row: int, col: int) -> char
    decreases es.len(),
{
    if es.len() == 0 {
        ' '
    } else if es.last().1.0 == row && es.last().1.1 == col {
        es.last().0
    } else {
        cell(es.drop_last(), row, col)
    }
}

/// The indentation of a row: two spaces, one more for the last row of an
/// angle board, and one more a row on a stagger board.
pub open spec fn indent(board: Seq<char>, row: int) -> Seq<char> {
    if board == "angle"@ && row == 2 {
        "   "@
    } else if board == "stagger"@ && row == 1 {
        "   "@
    } else if board == "stagger"@ && row == 2 {
        "    "@
    } else {
        "  "@
    }
}

/// The cells of a row: each followed by a space, and one more space between
/// the fifth and the sixth.
pub open spec fn cells(es: Seq<Entry>, row: int) -> Seq<char> {
    Seq::new(
        33,
        |k: int|
            if k < 10 {
                if k % 2 == 0 {
                    cell(es, row, k / 2)
                } else {
                    ' '
                }
            } else if k == 10 {
                ' '
            } else if (k - 11) % 2 == 0 {
                cell(es, row, 5 + (k - 11) / 2)
            } else {
                ' '
            },
    )
}

/// A row of the drawn matrix.
pub open spec fn row_text(board: Seq<char>, es: Seq<Entry>, row: int) -> Seq<char> {
    indent(board, row) + cells(es, row)
}

/// Whether no key sits in a row.
pub open spec fn row_is_empty(es: Seq<Entry>, row: int) -> bool {
    forall|col: int| 0 <= col < COLS ==> #[trigger] cell(es, row, col) == ' '
}

/// The drawn matrix: three rows, and the thumb row where a key sits in it.
pub open spec fn matrix_text(board: Seq<char>, es: Seq<Entry>) -> Seq<char> {
    let three = row_text(board, es, 0) + "\n"@ + row_text(board, es, 1) + "\n"@ + row_text(
        board,
        es,
        2,
    );
    if row_is_empty(es, 3) {
        three
    } else {
        three + "\n"@ + row_text(board, es, 3)
    }
}

/// The indentation of a row.
fn push_indent(out: &mut Vec<char>, board: &str, row: usize)
    ensures
        final(out)@ == old(out)@ + indent(board@, row as int),
{
    if str_eq(board, "angle") && row == 2 {
        push_str(out, "   ");
    } else if str_eq(board, "stagger") && row == 1 {
        push_str(out, "   ");
    } else if str_eq(board, "stagger") && row == 2 {
        push_str(out, "    ");
    } else {
        push_str(out, "  ");
    }
}

/// The text of a row of a grid.
fn push_cells(out: &mut Vec<char>, grid_row: &Vec<char>, Ghost(es): Ghost<Seq<Entry>>, Ghost(row): Ghost<int>)
    requires
        grid_row@.len() == COLS,
        forall|c: int| 0 <= c < COLS ==> grid_row@[c] == cell(es, row, c),
    ensures
        final(out)@ == old(out)@ + cells(es, row),
{
    let ghost before = out@;
    let mut c: usize = 0;
    while c < 5
        invariant
            c <= 5,
            grid_row@.len() == COLS,
            out@.len() == before.len() + 2 * c,
            forall|k: int| 0 <= k < before.len() ==> out@[k] == before[k],
            forall|k: int| 0 <= k < 2 * c ==> out@[before.len() + k] == cells(es, row)[k],
            forall|c: int| 0 <= c < COLS ==> grid_row@[c] == cell(es, row, c),
        decreases 5 - c,
    {
        out.push(grid_row[c]);
        out.push(' ');
        c += 1;
    }
    out.push(' ');
    while c < COLS
        invariant
            5 <= c <= COLS,
            grid_row@.len() == COLS,
            out@.len() == before.len() + 2 * c + 1,
            forall|k: int| 0 <= k < before.len() ==> out@[k] == before[k],
            forall|k: int| 0 <= k < 2 * c + 1 ==> out@[before.len() + k] == cells(es, row)[k],
            forall|c: int| 0 <= c < COLS ==> grid_row@[c] == cell(es, row, c),
        decreases COLS - c,
    {
        out.push(grid_row[c]);
        out.push(' ');
        c += 1;
    }
    assert(out@ =~= before + cells(es, row));
}

/// The layout drawn as a matrix: the keys of rows 0 to 3 and columns 0 to 15
/// at their places, the rows indented as the board shape asks. Where two
/// keys sit in one cell, the one that stands later in the order of the packed
/// text is drawn.
pub fn get_matrix_str(ll: &LayoutConfig) -> (r: String)
    ensures
        r@ == matrix_text(ll.board@, canonical(ll.keys@)),
{
    let entries = sorted_entries(&ll.keys);
    let ghost es = entries@;
    let mut keyboard: Vec<Vec<char>> = Vec::new();
    let mut row: usize = 0;
    while row < ROWS
        invariant
            row <= ROWS,
            keyboard@.len() == row,
            forall|r: int| 0 <= r < row ==> (#[trigger] keyboard@[r])@.len() == COLS,
            forall|r: int, c: int|
                0 <= r < row && 0 <= c < COLS ==> #[trigger] keyboard@[r]@[c] == ' ',
        decreases ROWS - row,
    {
        let mut line: Vec<char> = Vec::new();
        let mut col: usize = 0;
        while col < COLS
            invariant
                col <= COLS,
                line@.len() == col,
                forall|c: int| 0 <= c < col ==> line@[c] == ' ',
            decreases COLS - col,
        {
            line.push(' ');
            col += 1;
        }
        keyboard.push(line);
        row += 1;
    }
    let mut i: usize = 0;
    assert(es.take(0) =~= Seq::<Entry>::empty());
    while i < entries.len()
        invariant
            i <= entries.len(),
            es == entries@,
            keyboard@.len() == ROWS,
            forall|r: int| 0 <= r < ROWS ==> (#[trigger] keyboard@[r])@.len() == COLS,
            forall|r: int, c: int|
                0 <= r < ROWS && 0 <= c < COLS ==> #[trigger] keyboard@[r]@[c] == cell(
                    es.take(i as int),
                    r,
                    c,
                ),
        decreases entries.len() - i,
    {
        let (key, pos) = entries[i];
        let (row, col, _) = pos;
        proof {
            assert(es.take(i + 1).drop_last() =~= es.take(i as int));
            assert(es.take(i + 1).last() == es[i as int]);
        }
        if (row as usize) < ROWS && (col as usize) < COLS {
            let mut line: Vec<char> = Vec::new();
            std::mem::swap(&mut line, &mut keyboard[row as usize]);
            line.set(col as usize, key);
            std::mem::swap(&mut line, &mut keyboard[row as usize]);
        }
        i += 1;
    }
    assert(es.take(es.len() as int) =~= es);

    let mut out: Vec<char> = Vec::new();
    let board = ll.board.as_str();
    push_indent(&mut out, board, 0);
    push_cells(&mut out, &keyboard[0], Ghost(es), Ghost(0));
    push_str(&mut out, "\n");
    push_indent(&mut out, board, 1);
    push_cells(&mut out, &keyboard[1], Ghost(es), Ghost(1));
    push_str(&mut out, "\n");
    push_indent(&mut out, board, 2);
    push_cells(&mut out, &keyboard[2], Ghost(es), Ghost(2));
    let ghost three = out@;
    assert(three =~= row_text(ll.board@, es, 0) + "\n"@ + row_text(ll.board@, es, 1) + "\n"@
        + row_text(ll.board@, es, 2));

    let mut thumbs = false;
    let mut col: usize = 0;
    while col < COLS
        invariant
            col <= COLS,
            keyboard@.len() == ROWS,
            keyboard@[3]@.len() == COLS,
            forall|c: int| 0 <= c < COLS ==> keyboard@[3]@[c] == cell(es, 3, c),
            !thumbs ==> forall|c: int| 0 <= c < col ==> #[trigger] cell(es, 3, c) == ' ',
            thumbs ==> !row_is_empty(es, 3),
        decreases COLS - col,
    {
        if keyboard[3][col] != ' ' {
            assert(cell(es, 3, col as int) != ' ');
            thumbs = true;
        }
        col += 1;
    }
    if thumbs {
        push_str(&mut out, "\n");
        push_indent(&mut out, board, 3);
        push_cells(&mut out, &keyboard[3], Ghost(es), Ghost(3));
        assert(out@ =~= three + "\n"@ + row_text(ll.board@, es, 3));
    }
    string_of(&out)
}

} // verus!
