//! Variable references in text: `$NAME` and `${NAME}`, and how a task's
//! environment, directory and command are expanded before it runs.

use vstd::prelude::*;
use vstd::string::*;
use vstd::map::*;
use crate::config::{command_preview, join_command_preview, ResolvedTask};
use crate::envfile::env_view;
use crate::sorted_map::SortedMap;
use crate::text::{
    chars_of, find_char, lemma_first_index, lemma_run_len, run_len, string_of, views,
};

verus! {

/// Whether `c` can begin a name: an ASCII letter or `_`.
pub open spec fn name_start(c: char) -> bool {
    ('a' <= c <= 'z') || ('A' <= c <= 'Z') || c == '_'
}

/// The class of characters that can continue a name: ASCII letters, digits
/// and `_`.
pub open spec fn name_part() -> spec_fn(char) -> bool {
    |c: char| name_start(c) || ('0' <= c <= '9')
}

/// The length of the name that `s` begins with; 0 where it begins with none.
pub open spec fn name_len(s: Seq<char>) -> nat {
    if s.len() > 0 && name_start(s[0]) {
        1 + run_len(s.drop_first(), name_part())
    } else {
        0
    }
}

/// What stands for a reference to `key`: its value, or the reference itself
/// in braces where `key` has none.
pub open spec fn reference(key: Seq<char>, lookup: Map<Seq<char>, Seq<char>>) -> Seq<char> {
    if lookup.contains_key(key) {
        lookup[key]
    } else {
        "${"@ + key + "}"@
    }
}

/// `text` with its references replaced. A reference is `${`, any characters
/// and `}`, or `$` and a name. A `$` that begins neither stays, and so does
/// every other character.
pub open spec fn expanded(text: Seq<char>, lookup: Map<Seq<char>, Seq<char>>) -> Seq<char>
    decreases text.len(),
{
    if text.len() == 0 {
        Seq::empty()
    } else if text[0] != '$' {
        seq![text[0]] + expanded(text.skip(1), lookup)
    } else if text.len() == 1 {
        seq!['$']
    } else if text[1] == '{' {
        match text.skip(2).index_of_first('}') {
            Some(k) if 0 <= k < text.len() - 2 => reference(text.subrange(2, 2 + k), lookup)
                + expanded(text.skip(k + 3), lookup),
            _ => seq!['$'] + expanded(text.skip(1), lookup),
        }
    } else {
        let n = name_len(text.skip(1)) as int;
        if 0 < n < text.len() {
            reference(text.subrange(1, 1 + n), lookup) + expanded(text.skip(1 + n), lookup)
        } else {
            seq!['$'] + expanded(text.skip(1), lookup)
        }
    }
}

fn is_name_start(c: char) -> (r: bool)
    ensures
        r == name_start(c),
{
    ('a' <= c && c <= 'z') || ('A' <= c && c <= 'Z') || c == '_'
}

fn is_name_part(c: char) -> (r: bool)
    ensures
        r == name_part()(c),
{
    is_name_start(c) || ('0' <= c && c <= '9')
}

/// Appends what stands for a reference to the key `v[from..to]`.
fn push_reference(
    out: &mut String,
    v: &Vec<char>,
    from: usize,
    to: usize,
    lookup: &SortedMap<String>,
)
    requires
        from <= to <= v.len(),
    ensures
        final(out)@ == old(out)@ + reference(v@.subrange(from as int, to as int), env_view(*lookup)),
{
    let key = string_of(v, from, to);
    match lookup.get(key.as_str()) {
        Some(found) => {
            out.append(found.as_str());
        },
        None => {
            out.append("${");
            out.append(key.as_str());
            out.append("}");
            assert(out@ =~= old(out)@ + ("${"@ + key@ + "}"@));
        },
    }
}

/// `value` with its references replaced by what `lookup` binds them to.
pub fn expand_variables(value: &str, lookup: &SortedMap<String>) -> (out: String)
    ensures
        out@ == expanded(value@, env_view(*lookup)),
{
    let v = chars_of(value);
    let n: usize = v.len();
    let ghost look = env_view(*lookup);
    let mut out = String::new();
    let mut i: usize = 0;
    assert(v@.skip(0) == v@);
    assert(out@ + expanded(v@, look) =~= expanded(v@, look));
    while i < n
        invariant
            i <= n == v.len(),
            look == env_view(*lookup),
            expanded(v@, look) == out@ + expanded(v@.skip(i as int), look),
        decreases n - i,
    {
        let ghost rest = v@.skip(i as int);
        let ghost before = out@;
        assert(rest[0] == v@[i as int]);
        if v[i] != '$' {
            out.push(v[i]);
            assert(rest.skip(1) == v@.skip(i + 1));
            assert(before + (seq![rest[0]] + expanded(rest.skip(1), look)) =~= out@ + expanded(
                v@.skip(i + 1),
                look,
            ));
            i += 1;
            continue ;
        }
        if i + 1 >= n {
            out.push('$');
            assert(rest.len() == 1);
            assert(v@.skip(n as int).len() == 0);
            assert(before + seq!['$'] =~= out@ + expanded(v@.skip(n as int), look));
            i = n;
            continue ;
        }
        assert(rest[1] == v@[i + 1]);
        if v[i + 1] == '{' {
            assert(rest.skip(2) == v@.skip(i + 2));
            match find_char(&v, i + 2, '}') {
                Some(end) => {
                    push_reference(&mut out, &v, i + 2, end, lookup);
                    proof {
                        let k = end - (i + 2);
                        assert(rest.subrange(2, 2 + k) == v@.subrange(i + 2, end as int));
                        assert(rest.skip(k + 3) == v@.skip(end + 1));
                        assert(before + (reference(rest.subrange(2, 2 + k), look) + expanded(
                            rest.skip(k + 3),
                            look,
                        )) =~= out@ + expanded(v@.skip(end + 1), look));
                    }
                    i = end + 1;
                },
                None => {
                    out.push('$');
                    assert(rest.skip(1) == v@.skip(i + 1));
                    assert(before + (seq!['$'] + expanded(rest.skip(1), look)) =~= out@
                        + expanded(v@.skip(i + 1), look));
                    i += 1;
                },
            }
            continue ;
        }
        let mut j: usize = i + 1;
        if is_name_start(v[j]) {
            j += 1;
            while j < n && is_name_part(v[j])
                invariant
                    i + 2 <= j <= n == v.len(),
                    forall|k: int| i + 2 <= k < j ==> name_part()(#[trigger] v@[k]),
                decreases n - j,
            {
                j += 1;
            }
        }
        proof {
            let after = rest.skip(1);
            assert(after == v@.skip(i + 1));
            assert(after[0] == v@[i + 1]);
            if j > i + 1 {
                let tail = after.drop_first();
                assert(tail == v@.skip(i + 2));
                assert forall|k: int| 0 <= k < j - (i + 2) implies name_part()(
                    #[trigger] tail[k],
                ) by {
                    assert(tail[k] == v@[k + i + 2]);
                }
                if j < n {
                    assert(tail[j - (i + 2)] == v@[j as int]);
                }
                lemma_run_len(tail, name_part(), j - (i + 2));
            }
            assert(name_len(after) == j - (i + 1));
        }
        if j == i + 1 {
            out.push('$');
            assert(rest.skip(1) == v@.skip(i + 1));
            assert(before + (seq!['$'] + expanded(rest.skip(1), look)) =~= out@ + expanded(
                v@.skip(i + 1),
                look,
            ));
            i += 1;
            continue ;
        }
        push_reference(&mut out, &v, i + 1, j, lookup);
        proof {
            let m = j - (i + 1);
            assert(rest.subrange(1, 1 + m) == v@.subrange(i + 1, j as int));
            assert(rest.skip(1 + m) == v@.skip(j as int));
            assert(before + (reference(rest.subrange(1, 1 + m), look) + expanded(
                rest.skip(1 + m),
                look,
            )) =~= out@ + expanded(v@.skip(j as int), look));
        }
        i = j;
    }
    assert(v@.skip(n as int).len() == 0);
    assert(out@ + expanded(v@.skip(n as int), look) =~= out@);
    out
}

/// What references are looked up in before a task's own environment: the
/// environment of the process, and what the dotenv file binds beyond it.
pub open spec fn with_dotenv(
    process: Map<Seq<char>, Seq<char>>,
    dotenv: Map<Seq<char>, Seq<char>>,
) -> Map<Seq<char>, Seq<char>> {
    Map::new(
        |k: Seq<char>| process.contains_key(k) || dotenv.contains_key(k),
        |k: Seq<char>|
            if process.contains_key(k) {
                process[k]
            } else {
                dotenv[k]
            },
    )
}

/// What of the dotenv file is handed to the command: the bindings of the
/// keys that the environment of the process lacks.
pub open spec fn dotenv_additions(
    process: Map<Seq<char>, Seq<char>>,
    dotenv: Map<Seq<char>, Seq<char>>,
) -> Map<Seq<char>, Seq<char>> {
    Map::new(
        |k: Seq<char>| dotenv.contains_key(k) && !process.contains_key(k),
        |k: Seq<char>| dotenv[k],
    )
}

/// What references are looked up in after the first `n` entries of a task's
/// environment: each entry, in the order of the keys, is expanded against
/// what stood before it and then bound.
pub open spec fn chained_lookup(
    keys: Seq<Seq<char>>,
    values: Seq<String>,
    n: nat,
    start: Map<Seq<char>, Seq<char>>,
) -> Map<Seq<char>, Seq<char>>
    decreases n,
{
    if n == 0 {
        start
    } else {
        let before = chained_lookup(keys, values, (n - 1) as nat, start);
        before.insert(keys[n - 1], expanded(values[n - 1]@, before))
    }
}

/// What is handed to the command after the first `n` entries of a task's
/// environment: `additions`, and each entry as it was expanded.
pub open spec fn chained_env(
    keys: Seq<Seq<char>>,
    values: Seq<String>,
    n: nat,
    start: Map<Seq<char>, Seq<char>>,
    additions: Map<Seq<char>, Seq<char>>,
) -> Map<Seq<char>, Seq<char>>
    decreases n,
{
    if n == 0 {
        additions
    } else {
        chained_env(keys, values, (n - 1) as nat, start, additions).insert(
            keys[n - 1],
            expanded(values[n - 1]@, chained_lookup(keys, values, (n - 1) as nat, start)),
        )
    }
}

/// Each of `tokens`, expanded.
pub open spec fn expanded_all(
    tokens: Seq<Seq<char>>,
    lookup: Map<Seq<char>, Seq<char>>,
) -> Seq<Seq<char>> {
    tokens.map_values(|t: Seq<char>| expanded(t, lookup))
}

/// What the references of the task `task` are looked up in, once its own
/// environment is expanded.
pub open spec fn task_lookup(
    task: ResolvedTask,
    process: Map<Seq<char>, Seq<char>>,
    dotenv: Map<Seq<char>, Seq<char>>,
) -> Map<Seq<char>, Seq<char>> {
    chained_lookup(
        task.env.keys(),
        task.env.values(),
        task.env.keys().len(),
        with_dotenv(process, dotenv),
    )
}

/// Whether `now` is `task` made ready to run: its environment expanded entry
/// by entry, with what the dotenv file adds; its directory and its command
/// expanded against the result; the preview made anew from the command; and
/// nothing else changed.
pub open spec fn made_ready(
    task: ResolvedTask,
    process: Map<Seq<char>, Seq<char>>,
    dotenv: Map<Seq<char>, Seq<char>>,
    now: ResolvedTask,
) -> bool {
    let lookup = task_lookup(task, process, dotenv);
    &&& env_view(now.env) == chained_env(
        task.env.keys(),
        task.env.values(),
        task.env.keys().len(),
        with_dotenv(process, dotenv),
        dotenv_additions(process, dotenv),
    )
    &&& now.dir@ == expanded(task.dir@, lookup)
    &&& if task.use_shell {
        &&& now.shell@ == expanded(task.shell@, lookup)
        &&& now.command_preview@ == now.shell@
        &&& now.argv == task.argv
    } else {
        &&& now.shell == task.shell
        &&& views(now.argv@) == expanded_all(views(task.argv@), lookup)
        &&& now.command_preview@ == if task.argv@.len() > 0 {
            command_preview(views(now.argv@))
        } else {
            task.command_preview@
        }
    }
    &&& now.name == task.name
    &&& now.source == task.source
    &&& now.sub_tasks == task.sub_tasks
    &&& now.parallel == task.parallel
    &&& now.use_shell == task.use_shell
    &&& now.timeout == task.timeout
    &&& now.retries == task.retries
    &&& now.retry_backoff == task.retry_backoff
    &&& now.notify_on == task.notify_on
}

/// The environment of the process and what the first `i` entries of the
/// dotenv file bind beyond it.
spec fn layered(
    p: Map<Seq<char>, Seq<char>>,
    keys: Seq<Seq<char>>,
    values: Seq<String>,
    i: nat,
) -> Map<Seq<char>, Seq<char>>
    decreases i,
{
    if i == 0 {
        p
    } else {
        let m = layered(p, keys, values, (i - 1) as nat);
        if p.contains_key(keys[i - 1]) {
            m
        } else {
            m.insert(keys[i - 1], values[i - 1]@)
        }
    }
}

/// What the first `i` entries of the dotenv file bind beyond the environment
/// of the process.
spec fn added_upto(
    p: Map<Seq<char>, Seq<char>>,
    keys: Seq<Seq<char>>,
    values: Seq<String>,
    i: nat,
) -> Map<Seq<char>, Seq<char>>
    decreases i,
{
    if i == 0 {
        Map::empty()
    } else {
        let m = added_upto(p, keys, values, (i - 1) as nat);
        if p.contains_key(keys[i - 1]) {
            m
        } else {
            m.insert(keys[i - 1], values[i - 1]@)
        }
    }
}

proof fn lemma_layers(
    p: Map<Seq<char>, Seq<char>>,
    d: Map<Seq<char>, Seq<char>>,
    keys: Seq<Seq<char>>,
    values: Seq<String>,
    i: nat,
    k: Seq<char>,
)
    requires
        i <= keys.len() == values.len(),
        forall|j: int|
            0 <= j < keys.len() ==> d.contains_key(#[trigger] keys[j]) && d[keys[j]] == values[j]@,
    ensures
        layered(p, keys, values, i).contains_key(k) == (p.contains_key(k) || keys.take(
            i as int,
        ).contains(k)),
        layered(p, keys, values, i).contains_key(k) ==> layered(p, keys, values, i)[k] == (if p.contains_key(
            k,
        ) {
            p[k]
        } else {
            d[k]
        }),
        added_upto(p, keys, values, i).contains_key(k) == (!p.contains_key(k) && keys.take(
            i as int,
        ).contains(k)),
        added_upto(p, keys, values, i).contains_key(k) ==> d.contains_key(k) && added_upto(
            p,
            keys,
            values,
            i,
        )[k] == d[k],
    decreases i,
{
    if i > 0 {
        lemma_layers(p, d, keys, values, (i - 1) as nat, k);
        let now = keys.take(i as int);
        let prev = keys.take(i - 1);
        let key = keys[i - 1];
        assert(now.contains(k) == (prev.contains(k) || k == key)) by {
            if now.contains(k) {
                let j = choose|j: int| 0 <= j < now.len() && now[j] == k;
                if j < i - 1 {
                    assert(prev[j] == k);
                }
            }
            if prev.contains(k) {
                let j = choose|j: int| 0 <= j < prev.len() && prev[j] == k;
                assert(now[j] == k);
            }
            assert(now[i - 1] == key);
        }
        assert(d.contains_key(keys[i - 1]) && d[keys[i - 1]] == values[i - 1]@);
    } else {
        assert(keys.take(0).len() == 0);
    }
}

/// The lookup and the additions before a task's own environment.
fn dotenv_layers(process_env: &SortedMap<String>, dotenv_vars: &SortedMap<String>) -> (r: (
    SortedMap<String>,
    SortedMap<String>,
))
    ensures
        env_view(r.0) == with_dotenv(env_view(*process_env), env_view(*dotenv_vars)),
        env_view(r.1) == dotenv_additions(env_view(*process_env), env_view(*dotenv_vars)),
{
    let ghost p = env_view(*process_env);
    let ghost d = env_view(*dotenv_vars);
    let ghost keys = dotenv_vars.keys();
    let ghost values = dotenv_vars.values();
    let mut lookup = process_env.duplicate();
    let mut added: SortedMap<String> = SortedMap::new();
    let n = dotenv_vars.len();
    let mut i: usize = 0;
    assert(env_view(lookup) =~= p);
    assert(env_view(added) =~= Map::<Seq<char>, Seq<char>>::empty());
    while i < n
        invariant
            i <= n == keys.len(),
            keys == dotenv_vars.keys(),
            values == dotenv_vars.values(),
            p == env_view(*process_env),
            env_view(lookup) == layered(p, keys, values, i as nat),
            env_view(added) == added_upto(p, keys, values, i as nat),
        decreases n - i,
    {
        let key = dotenv_vars.key_at(i);
        let value = dotenv_vars.value_at(i);
        let ghost before_lookup = env_view(lookup);
        let ghost before_added = env_view(added);
        if !process_env.contains_key(key.as_str()) {
            added.insert(key.clone(), value.clone());
            lookup.insert(key.clone(), value.clone());
            assert(env_view(added) =~= before_added.insert(key@, value@));
            assert(env_view(lookup) =~= before_lookup.insert(key@, value@));
        }
        i += 1;
    }
    proof {
        assert forall|j: int| 0 <= j < keys.len() implies d.contains_key(#[trigger] keys[j])
            && d[keys[j]] == values[j]@ by {
            assert(dotenv_vars@.contains_key(keys[j]));
        }
        assert(keys.take(n as int) == keys);
        assert forall|k: Seq<char>| d.contains_key(k) == keys.contains(k) by {
            assert(dotenv_vars@.contains_key(k) == keys.contains(k));
        }
        let l = env_view(lookup);
        let a = env_view(added);
        let both = with_dotenv(p, d);
        let more = dotenv_additions(p, d);
        assert_maps_equal!(l, both, k => {
            lemma_layers(p, d, keys, values, n as nat, k);
        });
        assert_maps_equal!(a, more, k => {
            lemma_layers(p, d, keys, values, n as nat, k);
        });
    }
    (lookup, added)
}

/// Each of `tokens`, expanded.
fn expand_all(tokens: &Vec<String>, lookup: &SortedMap<String>) -> (out: Vec<String>)
    ensures
        views(out@) == expanded_all(views(tokens@), env_view(*lookup)),
{
    let mut out: Vec<String> = Vec::new();
    let mut i: usize = 0;
    while i < tokens.len()
        invariant
            i <= tokens.len(),
            out@.len() == i,
            forall|j: int|
                0 <= j < i ==> (#[trigger] out@[j])@ == expanded(tokens@[j]@, env_view(*lookup)),
        decreases tokens.len() - i,
    {
        out.push(expand_variables(tokens[i].as_str(), lookup));
        i += 1;
    }
    assert(views(out@) =~= expanded_all(views(tokens@), env_view(*lookup)));
    out
}

/// Makes a task ready to run: expands its environment, its directory and its
/// command. `process_env` is the environment of the process, `dotenv_vars`
/// what the dotenv file binds.
pub fn apply_runtime_env(
    resolved: &mut ResolvedTask,
    process_env: &SortedMap<String>,
    dotenv_vars: &SortedMap<String>,
)
    ensures
        made_ready(*old(resolved), env_view(*process_env), env_view(*dotenv_vars), *final(resolved)),
{
    let ghost start = with_dotenv(env_view(*process_env), env_view(*dotenv_vars));
    let ghost additions = dotenv_additions(env_view(*process_env), env_view(*dotenv_vars));
    let ghost keys = resolved.env.keys();
    let ghost values = resolved.env.values();
    let (mut lookup, mut runtime_env) = dotenv_layers(process_env, dotenv_vars);
    let n = resolved.env.len();
    let mut i: usize = 0;
    while i < n
        invariant
            i <= n == keys.len(),
            keys == resolved.env.keys(),
            values == resolved.env.values(),
            *resolved == *old(resolved),
            env_view(lookup) == chained_lookup(keys, values, i as nat, start),
            env_view(runtime_env) == chained_env(keys, values, i as nat, start, additions),
        decreases n - i,
    {
        let key = resolved.env.key_at(i);
        let value = resolved.env.value_at(i);
        let ghost before_lookup = env_view(lookup);
        let ghost before_env = env_view(runtime_env);
        let expanded_value = expand_variables(value.as_str(), &lookup);
        runtime_env.insert(key.clone(), expanded_value.clone());
        lookup.insert(key.clone(), expanded_value);
        assert(env_view(runtime_env) =~= before_env.insert(key@, expanded_value@));
        assert(env_view(lookup) =~= before_lookup.insert(key@, expanded_value@));
        i += 1;
    }
    if !resolved.dir.as_str().is_empty() {
        resolved.dir = expand_variables(resolved.dir.as_str(), &lookup);
    } else {
        assert(resolved.dir@ =~= expanded(resolved.dir@, env_view(lookup)));
    }
    if resolved.use_shell {
        resolved.shell = expand_variables(resolved.shell.as_str(), &lookup);
        resolved.command_preview = resolved.shell.clone();
    } else if resolved.argv.len() > 0 {
        let tokens = expand_all(&resolved.argv, &lookup);
        resolved.command_preview = join_command_preview(&tokens);
        resolved.argv = tokens;
    } else {
        assert(views(resolved.argv@) =~= expanded_all(views(resolved.argv@), env_view(lookup)));
    }
    resolved.env = runtime_env;
}

/// Text without `$` stays as it is.
pub proof fn lemma_plain_text_stays(text: Seq<char>, lookup: Map<Seq<char>, Seq<char>>)
    requires
        forall|i: int| 0 <= i < text.len() ==> text[i] != '$',
    ensures
        expanded(text, lookup) == text,
    decreases text.len(),
{
    if text.len() > 0 {
        let rest = text.skip(1);
        assert forall|i: int| 0 <= i < rest.len() implies rest[i] != '$' by {
            assert(rest[i] == text[i + 1]);
        }
        lemma_plain_text_stays(rest, lookup);
        assert(seq![text[0]] + rest =~= text);
    } else {
        assert(text =~= Seq::<char>::empty());
    }
}

/// A reference in braces gives way to what stands for its key, and the text
/// after it is expanded in its turn.
pub proof fn lemma_braced_reference(
    key: Seq<char>,
    rest: Seq<char>,
    lookup: Map<Seq<char>, Seq<char>>,
)
    requires
        !key.contains('}'),
    ensures
        expanded("${"@ + key + "}"@ + rest, lookup) == reference(key, lookup) + expanded(
            rest,
            lookup,
        ),
{
    reveal_strlit("${");
    reveal_strlit("}");
    let text = "${"@ + key + "}"@ + rest;
    assert(text[0] == '$');
    assert(text[1] == '{');
    let after = text.skip(2);
    let k = key.len() as int;
    assert(after[k] == '}');
    assert forall|j: int| 0 <= j < k implies after[j] != '}' by {
        assert(after[j] == key[j]);
    }
    lemma_first_index(after, '}', k);
    assert(text.subrange(2, 2 + k) =~= key);
    assert(text.skip(k + 3) =~= rest);
}

/// A reference in braces to a key that is not bound stays as it is written.
pub proof fn lemma_unresolved_reference_stays(
    key: Seq<char>,
    rest: Seq<char>,
    lookup: Map<Seq<char>, Seq<char>>,
)
    requires
        !key.contains('}'),
        !lookup.contains_key(key),
    ensures
        expanded("${"@ + key + "}"@ + rest, lookup) == "${"@ + key + "}"@ + expanded(rest, lookup),
{
    lemma_braced_reference(key, rest, lookup);
}

/// A reference in braces to a key that is bound gives way to the value, as
/// it is.
pub proof fn lemma_resolved_reference_substituted(
    key: Seq<char>,
    rest: Seq<char>,
    lookup: Map<Seq<char>, Seq<char>>,
)
    requires
        !key.contains('}'),
        lookup.contains_key(key),
    ensures
        expanded("${"@ + key + "}"@ + rest, lookup) == lookup[key] + expanded(rest, lookup),
{
    lemma_braced_reference(key, rest, lookup);
}

/// A `$` and a name give way to what stands for the name: its value, or the
/// name in braces after a `$`. The name ends where the text does or where a
/// character follows that no name holds.
pub proof fn lemma_bare_reference(
    name: Seq<char>,
    rest: Seq<char>,
    lookup: Map<Seq<char>, Seq<char>>,
)
    requires
        name.len() > 0,
        name_start(name[0]),
        forall|i: int| 0 < i < name.len() ==> name_part()(#[trigger] name[i]),
        rest.len() > 0 ==> !name_part()(rest[0]),
    ensures
        expanded(seq!['$'] + name + rest, lookup) == reference(name, lookup) + expanded(
            rest,
            lookup,
        ),
{
    let text = seq!['$'] + name + rest;
    let after = text.skip(1);
    assert(after =~= name + rest);
    assert(text[1] == name[0]);
    let tail = after.drop_first();
    let k = name.len() - 1;
    assert forall|i: int| 0 <= i < k implies name_part()(#[trigger] tail[i]) by {
        assert(tail[i] == name[i + 1]);
    }
    if k < tail.len() {
        assert(tail[k] == rest[0]);
    }
    lemma_run_len(tail, name_part(), k);
    assert(name_len(after) == name.len());
    assert(text.subrange(1, 1 + k + 1) =~= name);
    assert(text.skip(1 + k + 1) =~= rest);
}

} // verus!
