//! The list of commands, and what each says of itself.

use vstd::prelude::*;
use crate::cmds::{_8ball, add, assign, corpus, github, like, likes, remove, rename, suggest, unlike, view};
use crate::util::text::{push_str, str_eq, string_of};

verus! {

/// How wide a column of the list is.
pub const ALIGN: usize = 16;

/// A command in the table: its name, how it is called, what it does.
pub type Row = (&'static str, &'static str, &'static str);

/// The names of the commands, in ascending order.
pub open spec fn names_spec() -> Seq<Seq<char>> {
    seq![
        "8ball"@,
        "add"@,
        "assign"@,
        "corpus"@,
        "gh"@,
        "github"@,
        "help"@,
        "like"@,
        "likes"@,
        "remove"@,
        "rename"@,
        "suggest"@,
        "unlike"@,
        "view"@,
    ]
}

/// The table of commands: the names in ascending order, each with what the
/// command says of itself.
pub fn commands() -> (r: Vec<Row>)
    ensures
        r@.len() == names_spec().len(),
        forall|i: int| 0 <= i < r@.len() ==> (#[trigger] r@[i]).0@ == names_spec()[i],
        forall|i: int| 0 <= i < r@.len() ==> (#[trigger] r@[i]).0@.len() <= ALIGN,
{
    let mut table: Vec<Row> = Vec::new();
    table.push(("8ball", _8ball::Command.usage(), _8ball::Command.desc()));
    table.push(("add", add::Command.usage(), add::Command.desc()));
    table.push(("assign", assign::Command.usage(), assign::Command.desc()));
    table.push(("corpus", corpus::Command.usage(), corpus::Command.desc()));
    table.push(("gh", github::Command.usage(), github::Command.desc()));
    table.push(("github", github::Command.usage(), github::Command.desc()));
    table.push(("help", Command.usage(), Command.desc()));
    table.push(("like", like::Command.usage(), like::Command.desc()));
    table.push(("likes", likes::Command.usage(), likes::Command.desc()));
    table.push(("remove", remove::Command.usage(), remove::Command.desc()));
    table.push(("rename", rename::Command.usage(), rename::Command.desc()));
    table.push(("suggest", suggest::Command.usage(), suggest::Command.desc()));
    table.push(("unlike", unlike::Command.usage(), unlike::Command.desc()));
    table.push(("view", view::Command.usage(), view::Command.desc()));
    proof {
        reveal_strlit("8ball");
        reveal_strlit("add");
        reveal_strlit("assign");
        reveal_strlit("corpus");
        reveal_strlit("gh");
        reveal_strlit("github");
        reveal_strlit("help");
        reveal_strlit("like");
        reveal_strlit("likes");
        reveal_strlit("remove");
        reveal_strlit("rename");
        reveal_strlit("suggest");
        reveal_strlit("unlike");
        reveal_strlit("view");
    }
    table
}

/// As many spaces as the count says.
pub open spec fn spaces(count: int) -> Seq<char> {
    Seq::new(
        if count > 0 {
            count as nat
        } else {
            0
        },
        |i: int| ' ',
    )
}

/// A name filled up with spaces to the width of a column.
pub open spec fn padded(name: Seq<char>) -> Seq<char> {
    name + spaces(ALIGN - name.len())
}

/// The rows of the list from `from` on: the names of the first half on the
/// left, those of the second half beside them on the right.
pub open spec fn rows_from(names: Seq<Seq<char>>, from: int) -> Seq<char>
    decreases names.len() - from,
{
    let mid = names.len() / 2 + names.len() % 2;
    if from < 0 || mid + from >= names.len() {
        Seq::empty()
    } else {
        padded(names[from]) + padded(names[mid + from]) + "\n"@ + rows_from(names, from + 1)
    }
}

/// The list of the names in two columns.
pub open spec fn columns(names: Seq<Seq<char>>) -> Seq<char> {
    rows_from(names, 0)
}

/// The names of the rows.
pub open spec fn names_of(table: Seq<Row>) -> Seq<Seq<char>> {
    Seq::new(table.len(), |i: int| table[i].0@)
}

/// The first row of the name, if any.
pub open spec fn row_of(table: Seq<Row>, name: Seq<char>) -> Option<Row>
    decreases table.len(),
{
    if table.len() == 0 {
        None
    } else if table[0].0@ == name {
        Some(table[0])
    } else {
        row_of(table.drop_first(), name)
    }
}

/// The help page of a command.
pub open spec fn page_spec(name: Seq<char>, row: Row) -> Seq<char> {
    "Help page for `"@ + name + "`:```\n"@ + row.1@ + "\n"@ + row.2@ + "\n```"@
}

/// What the command answers: the page of the command that the argument
/// names, or the list of all commands in two columns.
pub open spec fn answer(arg: Seq<char>, table: Seq<Row>) -> Seq<char> {
    if arg.len() > 0 {
        match row_of(table, arg) {
            Some(row) => page_spec(arg, row),
            None => "Unknown command "@ + arg,
        }
    } else {
        "Usage: `!cmini (command) [args]`\n```"@ + columns(names_of(table)) + "```"@
    }
}

/// Appends a name filled up with spaces to the width of a column.
fn push_padded(out: &mut Vec<char>, name: &str)
    requires
        name@.len() <= ALIGN,
    ensures
        final(out)@ == old(out)@ + padded(name@),
{
    let chars = crate::util::text::chars_of(name);
    crate::util::text::push_all(out, &chars);
    let ghost filled = out@;
    let count = ALIGN - chars.len();
    let mut i: usize = 0;
    while i < count
        invariant
            i <= count,
            filled == old(out)@ + name@,
            count == ALIGN - name@.len(),
            out@.len() == filled.len() + i,
            forall|k: int| 0 <= k < filled.len() ==> out@[k] == filled[k],
            forall|k: int| filled.len() <= k < filled.len() + i ==> out@[k] == ' ',
        decreases count - i,
    {
        out.push(' ');
        i += 1;
    }
    proof {
        let pad = spaces(ALIGN - name@.len());
        assert(pad.len() == count);
        let want = old(out)@ + padded(name@);
        assert(want.len() == out@.len());
        assert forall|k: int| 0 <= k < out@.len() implies out@[k] == want[k] by {
            if k < filled.len() {
                assert(out@[k] == filled[k]);
            } else {
                assert(want[k] == pad[k - filled.len()]);
            }
        }
        assert(out@ =~= want);
    }
}

/// Appends the list of the names in two columns.
pub fn two_column_display(out: &mut Vec<char>, cmds: &Vec<Row>)
    requires
        forall|i: int| 0 <= i < cmds@.len() ==> (#[trigger] cmds@[i]).0@.len() <= ALIGN,
    ensures
        final(out)@ == old(out)@ + columns(names_of(cmds@)),
{
    let len = cmds.len();
    let rem_count = len % 2;
    let mid_pt = len / 2 + rem_count;
    let ghost names = names_of(cmds@);
    let mut k: usize = 0;
    while mid_pt + k < len
        invariant
            mid_pt + k <= len,
            len == cmds@.len(),
            mid_pt == len / 2 + len % 2,
            names == names_of(cmds@),
            forall|i: int| 0 <= i < cmds@.len() ==> (#[trigger] cmds@[i]).0@.len() <= ALIGN,
            out@ + rows_from(names, k as int) == old(out)@ + rows_from(names, 0),
        decreases len - mid_pt - k,
    {
        let ghost before = out@;
        push_padded(out, cmds[k].0);
        push_padded(out, cmds[mid_pt + k].0);
        push_str(out, "\n");
        proof {
            assert(names[k as int] == cmds@[k as int].0@);
            assert(names[mid_pt + k] == cmds@[mid_pt + k].0@);
            assert(out@ + rows_from(names, k + 1) =~= before + rows_from(names, k as int));
        }
        k += 1;
    }
    assert(out@ + rows_from(names, k as int) =~= out@);
}

/// The command that lists the commands.
pub struct Command;

impl Command {
    /// The page of the command that the argument names, or the list of all
    /// commands.
    pub fn exec(&self, arg: &str, table: &Vec<Row>) -> (r: String)
        requires
            forall|i: int| 0 <= i < table@.len() ==> (#[trigger] table@[i]).0@.len() <= ALIGN,
        ensures
            r@ == answer(arg@, table@),
    {
        let cmd_name = arg;
        let mut out: Vec<char> = Vec::new();
        if !cmd_name.is_empty() {
            let mut i: usize = 0;
            assert(table@.skip(0) =~= table@);
            while i < table.len()
                invariant
                    i <= table.len(),
                    out@.len() == 0,
                    cmd_name@ == arg@,
                    arg@.len() > 0,
                    row_of(table@, cmd_name@) == row_of(table@.skip(i as int), cmd_name@),
                decreases table.len() - i,
            {
                let row = table[i];
                proof {
                    assert(table@.skip(i as int)[0] == row);
                    assert(table@.skip(i as int).drop_first() =~= table@.skip(i + 1));
                }
                if str_eq(row.0, cmd_name) {
                    push_str(&mut out, "Help page for `");
                    push_str(&mut out, cmd_name);
                    push_str(&mut out, "`:```\n");
                    push_str(&mut out, row.1);
                    push_str(&mut out, "\n");
                    push_str(&mut out, row.2);
                    push_str(&mut out, "\n```");
                    assert(out@ =~= page_spec(cmd_name@, row));
                    return string_of(&out);
                }
                i += 1;
            }
            push_str(&mut out, "Unknown command ");
            push_str(&mut out, cmd_name);
            assert(out@ =~= "Unknown command "@ + cmd_name@);
            string_of(&out)
        } else {
            push_str(&mut out, "Usage: `!cmini (command) [args]`\n```");
            two_column_display(&mut out, table);
            push_str(&mut out, "```");
            assert(out@ =~= answer(arg@, table@));
            string_of(&out)
        }
    }

    /// How the command is called.
    pub fn usage(&self) -> (r: &'static str)
        ensures
            r@ == "help [command name]"@,
    {
        "help [command name]"
    }

    /// What the command does.
    pub fn desc(&self) -> (r: &'static str)
        ensures
            r@ == "view list of commands or usage of a command"@,
    {
        "view list of commands or usage of a command"
    }
}

} // verus!
