//! The line that is shown for one host.

use vstd::prelude::*;

use crate::text::{copy, same};

verus! {

/// A row of spaces.
pub open spec fn spaces(n: nat) -> Seq<char> {
    Seq::new(n, |i: int| ' ')
}

/// A text filled up with spaces on the right to at least `width` characters.
pub open spec fn padded(s: Seq<char>, width: nat) -> Seq<char> {
    if s.len() < width {
        s + spaces((width - s.len()) as nat)
    } else {
        s
    }
}

/// A text filled up with spaces on the left to at least `width` characters.
pub open spec fn padded_left(s: Seq<char>, width: nat) -> Seq<char> {
    if s.len() < width {
        spaces((width - s.len()) as nat) + s
    } else {
        s
    }
}

/// A row of spaces.
pub fn blanks(n: usize) -> (r: String)
    ensures
        r@ == spaces(n as nat),
{
    let mut out = String::new();
    let mut i: usize = 0;
    while i < n
        invariant
            i <= n,
            out@ == spaces(i as nat),
        decreases n - i,
    {
        out.push(' ');
        i += 1;
        assert(out@ =~= spaces(i as nat));
    }
    assert(out@ =~= spaces(n as nat));
    out
}

/// Fills a text up with spaces on the right.
pub fn pad(s: &str, width: usize) -> (r: String)
    ensures
        r@ == padded(s@, width as nat),
{
    let n: usize = s.unicode_len();
    let mut out = copy(s);
    if n < width {
        let fill = blanks(width - n);
        out.append(fill.as_str());
    }
    out
}

/// Fills a text up with spaces on the left.
pub fn pad_left(s: &str, width: usize) -> (r: String)
    ensures
        r@ == padded_left(s@, width as nat),
{
    let n: usize = s.unicode_len();
    if n < width {
        let mut out = blanks(width - n);
        out.append(s);
        out
    } else {
        copy(s)
    }
}

/// The symbol shown for a status.
pub open spec fn status_symbol(status: Seq<char>) -> Seq<char> {
    if status == "ok"@ {
        "✓"@
    } else if status == "error"@ {
        "✗"@
    } else if status == "skip"@ {
        "⊘"@
    } else {
        "·"@
    }
}

/// The terminal colour shown for a status: green, red, yellow or white.
pub open spec fn status_color(status: Seq<char>) -> Seq<char> {
    if status == "ok"@ {
        "\x1b[32m"@
    } else if status == "error"@ {
        "\x1b[31m"@
    } else if status == "skip"@ {
        "\x1b[33m"@
    } else {
        "\x1b[37m"@
    }
}

/// The line for one host: its name in brackets, filled to twelve characters,
/// the coloured symbol of the status, and the detail.
pub open spec fn host_line_text(host: Seq<char>, status: Seq<char>, detail: Seq<char>) -> Seq<
    char,
> {
    "["@ + padded(host, 12) + "]  "@ + status_color(status) + status_symbol(status) + "\x1b[0m "@
        + detail
}

/// The line for one host.
pub fn host_line(host: &str, status: &str, detail: &str) -> (r: String)
    ensures
        r@ == host_line_text(host@, status@, detail@),
{
    let mut out = copy("[");
    out.append(pad(host, 12).as_str());
    out.append("]  ");
    if same(status, "ok") {
        out.append("\x1b[32m");
        out.append("✓");
    } else if same(status, "error") {
        out.append("\x1b[31m");
        out.append("✗");
    } else if same(status, "skip") {
        out.append("\x1b[33m");
        out.append("⊘");
    } else {
        out.append("\x1b[37m");
        out.append("·");
    }
    out.append("\x1b[0m ");
    out.append(detail);
    out
}

// ---------------------------------------------------------------------------
// Laws
// ---------------------------------------------------------------------------

/// A padded text begins with the text, or ends with it where it is padded in front, is as
/// wide as asked for, and holds nothing else but spaces.
pub proof fn padding_adds_spaces_alone(s: Seq<char>, width: nat)
    ensures
        padded(s, width).len() == (if s.len() < width {
            width
        } else {
            s.len()
        }),
        padded(s, width).take(s.len() as int) == s,
        forall|i: int| s.len() <= i < padded(s, width).len()
            ==> #[trigger] padded(s, width)[i] == ' ',
        padded_left(s, width).len() == padded(s, width).len(),
        padded_left(s, width).skip(padded_left(s, width).len() - s.len()) == s,
        forall|i: int|
            0 <= i < padded_left(s, width).len() - s.len() ==> #[trigger] padded_left(s, width)[i]
                == ' ',
{
    assert(padded(s, width).take(s.len() as int) =~= s);
    let l = padded_left(s, width);
    assert(l.skip(l.len() - s.len()) =~= s);
}

/// A success, an error and a skip each have a sign of their own.
pub proof fn signs_tell_the_status(status: Seq<char>)
    ensures
        status_symbol("ok"@) == "✓"@,
        status_symbol("error"@) == "✗"@,
        status_symbol("skip"@) == "⊘"@,
        status != "ok"@ && status != "error"@ && status != "skip"@ ==> status_symbol(status)
            == "·"@,
        status_color("ok"@) == "\x1b[32m"@,
        status_color("error"@) == "\x1b[31m"@,
        status_color("skip"@) == "\x1b[33m"@,
{
    reveal_strlit("ok");
    reveal_strlit("error");
    reveal_strlit("skip");
    assert("ok"@.len() == 2 && "error"@.len() == 5 && "skip"@.len() == 4);
}

} // verus!
