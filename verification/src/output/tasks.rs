//! The list of tasks, as it is shown.

use vstd::prelude::*;
use vstd::string::*;
use crate::output::style::{bold, command, info, muted, styled};
use crate::text::{blank, is_blank};

verus! {

/// One task of the list.
#[derive(Debug, Clone)]
pub struct TaskRow {
    pub name: String,
    pub description: String,
    pub command: String,
}

/// What is shown for one task: its name; its description, unless that is
/// blank; and its command, or a dash where that is blank.
pub open spec fn task_block(row: TaskRow, colors: bool) -> Seq<char> {
    styled("1"@, row.name@, colors) + "\n"@ + (if blank(row.description@) {
        Seq::empty()
    } else {
        "  description: "@ + row.description@ + "\n"@
    }) + "  command: "@ + styled(
        "96"@,
        if blank(row.command@) {
            "-"@
        } else {
            row.command@
        },
        colors,
    ) + "\n"@
}

/// What is shown for the first `n` tasks, with an empty line between two.
pub open spec fn task_blocks(rows: Seq<TaskRow>, n: nat, colors: bool) -> Seq<char>
    decreases n,
{
    if n == 0 {
        Seq::empty()
    } else {
        task_blocks(rows, (n - 1) as nat, colors) + (if n > 1 {
            "\n"@
        } else {
            Seq::empty()
        }) + task_block(rows[n - 1], colors)
    }
}

/// What is shown for a list of tasks.
pub open spec fn task_list(rows: Seq<TaskRow>, colors: bool) -> Seq<char> {
    if rows.len() == 0 {
        styled("96"@, "i"@, colors) + " "@ + styled("2"@, "No tasks found."@, colors) + "\n"@
    } else {
        task_blocks(rows, rows.len(), colors)
    }
}

fn push_task(out: &mut String, row: &TaskRow, colors: bool)
    ensures
        final(out)@ == old(out)@ + task_block(*row, colors),
{
    out.append(bold(row.name.as_str(), colors).as_str());
    out.append("\n");
    let ghost mid = out@;
    if !is_blank(row.description.as_str()) {
        out.append("  description: ");
        out.append(row.description.as_str());
        out.append("\n");
    }
    let ghost described = out@;
    assert(described =~= mid + (if blank(row.description@) {
        Seq::<char>::empty()
    } else {
        "  description: "@ + row.description@ + "\n"@
    }));
    out.append("  command: ");
    let shown = if is_blank(row.command.as_str()) {
        "-"
    } else {
        row.command.as_str()
    };
    out.append(command(shown, colors).as_str());
    out.append("\n");
    assert(out@ =~= old(out)@ + task_block(*row, colors));
}

/// The text that lists the tasks.
pub fn print_tasks(rows: &Vec<TaskRow>, colors: bool) -> (out: String)
    ensures
        out@ == task_list(rows@, colors),
{
    let mut out = String::new();
    if rows.len() == 0 {
        out.append(info("i", colors).as_str());
        out.append(" ");
        out.append(muted("No tasks found.", colors).as_str());
        out.append("\n");
        assert(out@ =~= task_list(rows@, colors));
        return out;
    }
    let mut i: usize = 0;
    while i < rows.len()
        invariant
            i <= rows.len(),
            out@ == task_blocks(rows@, i as nat, colors),
        decreases rows.len() - i,
    {
        let ghost before = out@;
        if i > 0 {
            out.append("\n");
        }
        let ghost mid = out@;
        assert(mid =~= before + (if i > 0 {
            "\n"@
        } else {
            Seq::<char>::empty()
        }));
        push_task(&mut out, &rows[i], colors);
        i += 1;
    }
    out
}

} // verus!
