//! The store of past runs: where it lies, and which of its records a query
//! gives.

use vstd::prelude::*;
use crate::model::{source_to_str, source_word, status_to_str, status_word, RunRecord};
use crate::text::{chars_of, str_eq, string_of, trim, trimmed};

verus! {

/// Where the store lies unless told otherwise.
pub const DEFAULT_PATH: &'static str = ".otto/history.jsonl";

/// Which records a query asks for.
#[derive(Debug, Clone, Default)]
pub struct Filter {
    pub limit: Option<usize>,
    pub status: Option<String>,
    pub source: Option<String>,
}

/// The store of past runs, one record to a line of its file.
#[derive(Debug, Clone)]
pub struct Store {
    path: String,
}

/// Whether `record` is one that `filter` asks for, by status and by source.
pub open spec fn wanted(record: RunRecord, filter: Filter) -> bool {
    &&& match filter.status {
        Some(status) => status_word(record.status) == status@,
        None => true,
    }
    &&& match filter.source {
        Some(source) => source_word(record.source) == source@,
        None => true,
    }
}

/// The records that `filter` asks for, the newest, which is the last, first.
pub open spec fn newest_first(records: Seq<RunRecord>, filter: Filter) -> Seq<RunRecord>
    decreases records.len(),
{
    if records.len() == 0 {
        Seq::empty()
    } else {
        (if wanted(records.last(), filter) {
            seq![records.last()]
        } else {
            Seq::empty()
        }) + newest_first(records.drop_last(), filter)
    }
}

/// The class of the records that `filter` asks for.
pub open spec fn asked(filter: Filter) -> spec_fn(RunRecord) -> bool {
    |record: RunRecord| wanted(record, filter)
}

/// The records that a query asks for, newest first, are the records of the
/// store that pass the filter, in the reverse of their order.
pub proof fn lemma_newest_first(records: Seq<RunRecord>, filter: Filter)
    ensures
        newest_first(records, filter) == records.filter(asked(filter)).reverse(),
    decreases records.len(),
{
    reveal(Seq::filter);
    let kept = records.filter(asked(filter));
    if records.len() == 0 {
        assert(newest_first(records, filter) =~= kept.reverse());
    } else {
        let rest = records.drop_last();
        lemma_newest_first(rest, filter);
        let before = rest.filter(asked(filter));
        if wanted(records.last(), filter) {
            assert(kept == before.push(records.last()));
            assert(kept.reverse() =~= seq![records.last()] + before.reverse());
        } else {
            assert(kept == before);
            assert(newest_first(records, filter) =~= newest_first(rest, filter));
        }
    }
}

/// The first `limit` of `records`, or all of them where no limit is set.
pub open spec fn capped(records: Seq<RunRecord>, limit: Option<usize>) -> Seq<RunRecord> {
    match limit {
        Some(n) if records.len() > n => records.take(n as int),
        _ => records,
    }
}

/// What a query gives of the records of the store, which stand oldest first.
pub open spec fn listed(records: Seq<RunRecord>, filter: Filter) -> Seq<RunRecord> {
    capped(newest_first(records, filter), filter.limit)
}

/// Whether `record` is one that `filter` asks for.
pub fn matches_filter(record: &RunRecord, filter: &Filter) -> (r: bool)
    ensures
        r == wanted(*record, *filter),
{
    if let Some(status) = &filter.status {
        if !str_eq(status_to_str(record.status), status.as_str()) {
            return false;
        }
    }
    if let Some(source) = &filter.source {
        if !str_eq(source_to_str(record.source), source.as_str()) {
            return false;
        }
    }
    true
}

/// What a query gives of `records`, the records of the store, oldest first.
pub fn select(records: Vec<RunRecord>, filter: &Filter) -> (out: Vec<RunRecord>)
    ensures
        out@ == listed(records@, *filter),
{
    let mut rest = records;
    let mut out: Vec<RunRecord> = Vec::new();
    let ghost mut kept: Seq<RunRecord> = Seq::empty();
    assert(kept + newest_first(rest@, *filter) =~= newest_first(rest@, *filter));
    while rest.len() > 0
        invariant
            newest_first(records@, *filter) == kept + newest_first(rest@, *filter),
            out@ == capped(kept, filter.limit),
        decreases rest.len(),
    {
        let ghost before = rest@;
        let record = rest.pop().unwrap();
        assert(rest@ == before.drop_last());
        if matches_filter(&record, filter) {
            let room = match filter.limit {
                Some(n) => out.len() < n,
                None => true,
            };
            if room {
                out.push(record);
            }
            proof {
                assert(kept + newest_first(before, *filter) =~= kept.push(record) + newest_first(
                    rest@,
                    *filter,
                ));
                kept = kept.push(record);
                assert(out@ =~= capped(kept, filter.limit));
            }
        } else {
            assert(kept + newest_first(before, *filter) =~= kept + newest_first(rest@, *filter));
        }
    }
    assert(kept + newest_first(rest@, *filter) =~= kept);
    out
}

/// What a line of the store's file holds of a record: the line without the
/// whitespace around it, or nothing where the line is blank.
pub fn record_line(line: &str) -> (r: Option<String>)
    ensures
        match r {
            Some(text) => trimmed(line@).len() > 0 && text@ == trimmed(line@),
            None => trimmed(line@).len() == 0,
        },
{
    let chars = chars_of(line);
    let kept = trim(&chars);
    if kept.len() == 0 {
        None
    } else {
        Some(string_of(&kept, 0, kept.len()))
    }
}

impl Store {
    /// The path of the store's file.
    pub closed spec fn location(&self) -> Seq<char> {
        self.path@
    }

    /// The store whose file lies at `path`.
    pub fn new(path: String) -> (store: Self)
        ensures
            store.location() == path@,
    {
        Store { path }
    }

    /// The path of the store's file.
    pub fn path(&self) -> (path: &str)
        ensures
            path@ == self.location(),
    {
        self.path.as_str()
    }
}

} // verus!
