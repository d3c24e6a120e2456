//! The list of past runs, as it is shown.

use vstd::prelude::*;
use vstd::string::*;
use crate::model::{RunSource, RunStatus, source_to_str, source_word};
use crate::output::rendered_millis;
use crate::output::format_duration_ms;
use crate::output::style::{accent, failure, info, number, styled, success};
use crate::outside::{format_time, formatted_time};
use crate::text::{push_signed_decimal, signed_decimal};

verus! {

/// The format in which the start of a run is shown.
pub const STARTED_FORMAT: &'static str = "[year]-[month]-[day] [hour]:[minute]:[second]";

/// One past run of the list.
#[derive(Debug, Clone)]
pub struct HistoryRow {
    pub name: String,
    pub source: RunSource,
    pub status: RunStatus,
    pub exit_code: i32,
    /// Nanoseconds since the Unix epoch, UTC.
    pub started_at: i128,
    pub duration_ms: i64,
}

/// The start of a run as it is shown: a dash where it cannot be written.
pub open spec fn started_text(started_at: int) -> Seq<char> {
    match formatted_time(started_at, STARTED_FORMAT@) {
        Some(text) => text,
        None => "-"@,
    }
}

/// What is shown for one run.
pub open spec fn history_block(row: HistoryRow, colors: bool) -> Seq<char> {
    styled("36"@, row.name@, colors) + " "@ + (match row.status {
        RunStatus::Success => styled("32"@, "ok success"@, colors),
        RunStatus::Failed => styled("31"@, "x failed"@, colors),
    }) + "\n"@ + "  source: "@ + source_word(row.source) + "\n"@ + "  exit: "@ + styled(
        "96"@,
        signed_decimal(row.exit_code as int),
        colors,
    ) + "\n"@ + "  started (UTC): "@ + started_text(row.started_at as int) + "\n"@
        + "  duration: "@ + styled("96"@, rendered_millis(row.duration_ms as int), colors) + "\n"@
}

/// What is shown for the first `n` runs, with an empty line between two.
pub open spec fn history_blocks(rows: Seq<HistoryRow>, n: nat, colors: bool) -> Seq<char>
    decreases n,
{
    if n == 0 {
        Seq::empty()
    } else {
        history_blocks(rows, (n - 1) as nat, colors) + (if n > 1 {
            "\n"@
        } else {
            Seq::empty()
        }) + history_block(rows[n - 1], colors)
    }
}

/// What is shown for a list of runs.
pub open spec fn history_list(rows: Seq<HistoryRow>, colors: bool) -> Seq<char> {
    if rows.len() == 0 {
        styled("96"@, "i"@, colors) + " No run history yet."@ + "\n"@
    } else {
        history_blocks(rows, rows.len(), colors)
    }
}

fn push_run(out: &mut String, row: &HistoryRow, colors: bool)
    ensures
        final(out)@ == old(out)@ + history_block(*row, colors),
{
    let status = match row.status {
        RunStatus::Success => success("ok success", colors),
        RunStatus::Failed => failure("x failed", colors),
    };
    let started = match format_time(row.started_at, STARTED_FORMAT) {
        Some(text) => text,
        None => "-".to_string(),
    };
    let mut code = String::new();
    push_signed_decimal(&mut code, row.exit_code as i128);
    assert(code@ =~= signed_decimal(row.exit_code as int));
    let mut block = accent(row.name.as_str(), colors);
    block.append(" ");
    block.append(status.as_str());
    block.append("\n");
    block.append("  source: ");
    block.append(source_to_str(row.source));
    block.append("\n");
    block.append("  exit: ");
    block.append(number(code.as_str(), colors).as_str());
    block.append("\n");
    block.append("  started (UTC): ");
    block.append(started.as_str());
    block.append("\n");
    block.append("  duration: ");
    block.append(number(format_duration_ms(row.duration_ms).as_str(), colors).as_str());
    block.append("\n");
    assert(block@ == history_block(*row, colors));
    out.append(block.as_str());
}

/// The text that lists the runs.
pub fn print_history(rows: &Vec<HistoryRow>, colors: bool) -> (out: String)
    ensures
        out@ == history_list(rows@, colors),
{
    let mut out = String::new();
    if rows.len() == 0 {
        out.append(info("i", colors).as_str());
        out.append(" No run history yet.");
        out.append("\n");
        assert(out@ =~= history_list(rows@, colors));
        return out;
    }
    let mut i: usize = 0;
    while i < rows.len()
        invariant
            i <= rows.len(),
            out@ == history_blocks(rows@, i as nat, colors),
        decreases rows.len() - i,
    {
        let ghost before = out@;
        if i > 0 {
            out.append("\n");
        }
        assert(out@ =~= before + (if i > 0 {
            "\n"@
        } else {
            Seq::<char>::empty()
        }));
        push_run(&mut out, &rows[i], colors);
        i += 1;
    }
    out
}

} // verus!
