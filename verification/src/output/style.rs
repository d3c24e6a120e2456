//! Colours, as terminal escape sequences.

use vstd::prelude::*;
use vstd::string::*;
use crate::text::chars_of;

verus! {

/// The lower-case form of an ASCII capital; any other character itself.
pub open spec fn ascii_lower(c: char) -> char {
    if 'A' <= c <= 'Z' {
        ((c as u8) + 32) as char
    } else {
        c
    }
}

/// Whether `a` and `b` are the same but for the case of ASCII letters.
pub open spec fn same_ignoring_case(a: Seq<char>, b: Seq<char>) -> bool {
    a.len() == b.len() && forall|i: int|
        0 <= i < a.len() ==> ascii_lower(#[trigger] a[i]) == ascii_lower(b[i])
}

/// Whether colours are used: not where the caller or the `NO_COLOR` variable
/// turns them off or the terminal is `dumb`; but always where
/// `CLICOLOR_FORCE` is `1`.
pub open spec fn colors_enabled(
    no_color: bool,
    no_color_set: bool,
    term: Option<Seq<char>>,
    force: Option<Seq<char>>,
) -> bool {
    if force == Some("1"@) {
        true
    } else if no_color || no_color_set {
        false
    } else {
        match term {
            Some(t) => !same_ignoring_case(t, "dumb"@),
            None => true,
        }
    }
}

/// `text` in the style `code`: unchanged where it is empty or colours are
/// off, else between the escape sequence for `code` and the one that resets.
pub open spec fn styled(code: Seq<char>, text: Seq<char>, colors: bool) -> Seq<char> {
    if text.len() == 0 || !colors {
        text
    } else {
        "\x1b["@ + code + "m"@ + text + "\x1b[0m"@
    }
}

fn lower(c: char) -> (r: char)
    ensures
        r == ascii_lower(c),
{
    if 'A' <= c && c <= 'Z' {
        ((c as u8) + 32) as char
    } else {
        c
    }
}

fn eq_ignoring_case(a: &str, b: &str) -> (r: bool)
    ensures
        r == same_ignoring_case(a@, b@),
{
    let x = chars_of(a);
    let y = chars_of(b);
    if x.len() != y.len() {
        return false;
    }
    let mut i: usize = 0;
    while i < x.len()
        invariant
            x@ == a@,
            y@ == b@,
            x.len() == y.len(),
            i <= x.len(),
            forall|j: int| 0 <= j < i ==> ascii_lower(#[trigger] x@[j]) == ascii_lower(y@[j]),
        decreases x.len() - i,
    {
        if lower(x[i]) != lower(y[i]) {
            return false;
        }
        i += 1;
    }
    true
}

/// Decides whether colours are used. `no_color` is the caller's wish;
/// `no_color_set` says whether the variable `NO_COLOR` is set; `term` and
/// `force` are the values of `TERM` and `CLICOLOR_FORCE`.
pub fn configure(no_color: bool, no_color_set: bool, term: Option<&str>, force: Option<&str>) -> (r:
    bool)
    ensures
        r == colors_enabled(
            no_color,
            no_color_set,
            match term {
                Some(t) => Some(t@),
                None => None,
            },
            match force {
                Some(f) => Some(f@),
                None => None,
            },
        ),
{
    let mut enabled = !no_color;
    if no_color_set {
        enabled = false;
    }
    if let Some(t) = term {
        if eq_ignoring_case(t, "dumb") {
            enabled = false;
        }
    }
    if let Some(f) = force {
        if crate::text::str_eq(f, "1") {
            enabled = true;
        }
    }
    enabled
}

/// `text` in the style `code`.
pub fn style(code: &str, text: &str, colors: bool) -> (r: String)
    ensures
        r@ == styled(code@, text@, colors),
{
    if text.is_empty() || !colors {
        return text.to_string();
    }
    let mut r = "\x1b[".to_string();
    r.append(code);
    r.append("m");
    r.append(text);
    r.append("\x1b[0m");
    r
}

/// `text` in bold.
pub fn bold(text: &str, colors: bool) -> (r: String)
    ensures
        r@ == styled("1"@, text@, colors),
{
    style("1", text, colors)
}

/// `text` dimmed.
pub fn muted(text: &str, colors: bool) -> (r: String)
    ensures
        r@ == styled("2"@, text@, colors),
{
    style("2", text, colors)
}

/// `text` in cyan.
pub fn accent(text: &str, colors: bool) -> (r: String)
    ensures
        r@ == styled("36"@, text@, colors),
{
    style("36", text, colors)
}

/// `text` in green.
pub fn success(text: &str, colors: bool) -> (r: String)
    ensures
        r@ == styled("32"@, text@, colors),
{
    style("32", text, colors)
}

/// `text` in red.
pub fn failure(text: &str, colors: bool) -> (r: String)
    ensures
        r@ == styled("31"@, text@, colors),
{
    style("31", text, colors)
}

/// `text` in yellow.
pub fn warning(text: &str, colors: bool) -> (r: String)
    ensures
        r@ == styled("33"@, text@, colors),
{
    style("33", text, colors)
}

/// `text` in bright cyan, for notes.
pub fn info(text: &str, colors: bool) -> (r: String)
    ensures
        r@ == styled("96"@, text@, colors),
{
    style("96", text, colors)
}

/// `text` in bright cyan, for commands and paths.
pub fn command(text: &str, colors: bool) -> (r: String)
    ensures
        r@ == styled("96"@, text@, colors),
{
    style("96", text, colors)
}

/// `text` in bright cyan, for numbers.
pub fn number(text: &str, colors: bool) -> (r: String)
    ensures
        r@ == styled("96"@, text@, colors),
{
    style("96", text, colors)
}

/// `text` in bright blue.
pub fn bullet(text: &str, colors: bool) -> (r: String)
    ensures
        r@ == styled("94"@, text@, colors),
{
    style("94", text, colors)
}

} // verus!
