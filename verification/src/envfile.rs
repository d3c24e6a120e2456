//! The `KEY=VALUE` file format for environment variables.

use vstd::prelude::*;
use vstd::string::*;
use crate::outside::{json_string, parse_json_string, quote, quoted, regex_is_match, regex_match};
use crate::sorted_map::SortedMap;
use crate::text::{
    chars_of, concat, decimal, find_char, find_from, find_str, lines, lines_of, line_views, occurs_at,
    only, push_decimal, slice, starts_with, string_of, trim, trimmed, without_trailing,
    lemma_tail_run_len,
};

verus! {

/// The pattern that a key must match.
pub const KEY_PATTERN: &'static str = "^[A-Za-z_][A-Za-z0-9_]*$";

/// What one line of the file says.
pub enum Line {
    /// Nothing: the line is blank or a comment.
    Skip,
    /// That a key is bound to a value.
    Pair(Seq<char>, Seq<char>),
    /// Nothing that can be read; the reason is given.
    Bad(Seq<char>),
}

/// The values of a map of strings, as views.
pub open spec fn env_view(m: SortedMap<String>) -> Map<Seq<char>, Seq<char>> {
    m@.map_values(|s: String| s@)
}

/// The value that the text after `=` stands for: the string of a JSON string
/// in double quotes; the text between single quotes; else the text itself, up
/// to a space and `#` where one follows.
pub open spec fn value_of(value: Seq<char>) -> Result<Seq<char>, Seq<char>> {
    if value.len() == 0 {
        Ok(Seq::empty())
    } else if value[0] == '"' {
        if value.last() != '"' || value.len() == 1 {
            Err("unterminated double-quoted value"@)
        } else {
            match json_string(value) {
                Some(s) => Ok(s),
                None => Err("invalid double-quoted value"@),
            }
        }
    } else if value[0] == '\'' {
        if value.last() != '\'' || value.len() == 1 {
            Err("unterminated single-quoted value"@)
        } else {
            Ok(value.subrange(1, value.len() - 1))
        }
    } else {
        match find_from(value, " #"@, 0) {
            Some(at) => Ok(trimmed(value.take(at))),
            None => Ok(value),
        }
    }
}

/// The line without a leading `export `.
pub open spec fn without_export(line: Seq<char>) -> Seq<char> {
    if occurs_at(line, "export "@, 0) {
        trimmed(line.skip("export "@.len() as int))
    } else {
        line
    }
}

/// What the line `raw` says.
pub open spec fn line_of(raw: Seq<char>) -> Line {
    let text = trimmed(without_trailing(raw, only('\r')));
    if text.len() == 0 || text[0] == '#' {
        Line::Skip
    } else {
        let line = without_export(text);
        match line.index_of_first('=') {
            Some(cut) if 0 < cut < line.len() => {
                let key = trimmed(line.take(cut));
                if regex_match(KEY_PATTERN@, key) != Some(true) {
                    Line::Bad("invalid key "@ + quoted(key))
                } else {
                    match value_of(trimmed(line.skip(cut + 1))) {
                        Ok(value) => Line::Pair(key, value),
                        Err(reason) => Line::Bad(reason),
                    }
                }
            },
            _ => Line::Bad("expected KEY=VALUE"@),
        }
    }
}

/// What the first `n` lines bind, a later line overriding an earlier one; or
/// the first line among them that cannot be read, with its number.
pub open spec fn bindings(lines: Seq<Seq<char>>, n: nat) -> Result<
    Map<Seq<char>, Seq<char>>,
    Seq<char>,
>
    decreases n,
{
    if n == 0 {
        Ok(Map::empty())
    } else {
        match bindings(lines, (n - 1) as nat) {
            Err(e) => Err(e),
            Ok(m) => match line_of(lines[n - 1]) {
                Line::Skip => Ok(m),
                Line::Pair(key, value) => Ok(m.insert(key, value)),
                Line::Bad(reason) => Err("line "@ + decimal(n) + ": "@ + reason),
            },
        }
    }
}

/// What the file `text` binds, or why it cannot be read.
pub open spec fn parsed(text: Seq<char>) -> Result<Map<Seq<char>, Seq<char>>, Seq<char>> {
    bindings(lines_of(text), lines_of(text).len())
}

/// Reads the text after `=`.
pub fn parse_value(value: &Vec<char>) -> (r: Result<String, String>)
    ensures
        match value_of(value@) {
            Ok(v) => r is Ok && r->Ok_0@ == v,
            Err(e) => r is Err && r->Err_0@ == e,
        },
{
    let n: usize = value.len();
    if n == 0 {
        return Ok(String::new());
    }
    if value[0] == '"' {
        if value[n - 1] != '"' || n == 1 {
            return Err("unterminated double-quoted value".to_string());
        }
        let text = string_of(value, 0, n);
        assert(text@ == value@);
        return match parse_json_string(text.as_str()) {
            Some(s) => Ok(s),
            None => Err("invalid double-quoted value".to_string()),
        };
    }
    if value[0] == '\'' {
        if value[n - 1] != '\'' || n == 1 {
            return Err("unterminated single-quoted value".to_string());
        }
        return Ok(string_of(value, 1, n - 1));
    }
    match find_str(value, " #") {
        Some(at) => {
            proof {
                reveal_strlit(" #");
            }
            let head = slice(value, 0, at);
            let kept = trim(&head);
            Ok(string_of(&kept, 0, kept.len()))
        },
        None => {
            let text = string_of(value, 0, n);
            assert(text@ == value@);
            Ok(text)
        },
    }
}

/// What one line says.
enum Read {
    Skip,
    Pair(String, String),
    Bad(String),
}

impl Read {
    spec fn says(self) -> Line {
        match self {
            Read::Skip => Line::Skip,
            Read::Pair(k, v) => Line::Pair(k@, v@),
            Read::Bad(e) => Line::Bad(e@),
        }
    }
}

fn read_line(raw: &Vec<char>) -> (r: Read)
    ensures
        r.says() == line_of(raw@),
{
    let mut end: usize = raw.len();
    while end > 0 && raw[end - 1] == '\r'
        invariant
            end <= raw.len(),
            forall|i: int| end <= i < raw.len() ==> raw@[i] == '\r',
        decreases end,
    {
        end -= 1;
    }
    proof {
        lemma_tail_run_len(raw@, only('\r'), raw.len() - end);
    }
    let stripped = slice(raw, 0, end);
    let text = trim(&stripped);
    if text.len() == 0 || text[0] == '#' {
        return Read::Skip;
    }
    let line = if starts_with(&text, "export ") {
        proof {
            reveal_strlit("export ");
        }
        let rest = slice(&text, 7, text.len());
        trim(&rest)
    } else {
        text
    };
    assert(line@ == without_export(trimmed(without_trailing(raw@, only('\r')))));
    let cut = match find_char(&line, 0, '=') {
        Some(cut) => cut,
        None => {
            assert(line@.skip(0) == line@);
            return Read::Bad("expected KEY=VALUE".to_string());
        },
    };
    assert(line@.skip(0) == line@);
    if cut == 0 {
        return Read::Bad("expected KEY=VALUE".to_string());
    }
    let head = slice(&line, 0, cut);
    let key_chars = trim(&head);
    let key = string_of(&key_chars, 0, key_chars.len());
    assert(key@ == trimmed(line@.take(cut as int)));
    let matched = match regex_is_match(KEY_PATTERN, key.as_str()) {
        Some(true) => true,
        _ => false,
    };
    if !matched {
        return Read::Bad(concat("invalid key ", quote(key.as_str()).as_str()));
    }
    let rest = slice(&line, cut + 1, line.len());
    let value_chars = trim(&rest);
    assert(value_chars@ == trimmed(line@.skip(cut + 1)));
    match parse_value(&value_chars) {
        Ok(value) => Read::Pair(key, value),
        Err(reason) => Read::Bad(reason),
    }
}

/// Reads a file of `KEY=VALUE` lines.
pub fn parse(text: &str) -> (r: Result<SortedMap<String>, String>)
    ensures
        match parsed(text@) {
            Ok(m) => r is Ok && env_view(r->Ok_0) == m,
            Err(e) => r is Err && r->Err_0@ == e,
        },
{
    let chars = chars_of(text);
    let all = lines(&chars);
    let ghost views = line_views(all@);
    let mut out: SortedMap<String> = SortedMap::new();
    let mut i: usize = 0;
    assert(env_view(out) =~= Map::<Seq<char>, Seq<char>>::empty());
    while i < all.len()
        invariant
            i <= all.len(),
            views == line_views(all@),
            views == lines_of(text@),
            bindings(views, i as nat) == Ok::<Map<Seq<char>, Seq<char>>, Seq<char>>(env_view(out)),
        decreases all.len() - i,
    {
        let ghost before = env_view(out);
        assert(views[i as int] == all@[i as int]@);
        match read_line(&all[i]) {
            Read::Skip => {},
            Read::Pair(key, value) => {
                out.insert(key, value);
                assert(env_view(out) =~= before.insert(key@, value@));
            },
            Read::Bad(reason) => {
                let mut message = "line ".to_string();
                push_decimal(&mut message, (i + 1) as u128);
                message.append(": ");
                message.append(reason.as_str());
                proof {
                    lemma_bindings_fail(views, (i + 1) as nat, all.len() as nat);
                }
                return Err(message);
            },
        }
        i += 1;
    }
    Ok(out)
}

/// Once a line cannot be read, further lines change nothing.
proof fn lemma_bindings_fail(lines: Seq<Seq<char>>, k: nat, n: nat)
    requires
        k <= n,
        bindings(lines, k) is Err,
    ensures
        bindings(lines, n) == bindings(lines, k),
    decreases n,
{
    if k < n {
        lemma_bindings_fail(lines, k, (n - 1) as nat);
    }
}

} // verus!
