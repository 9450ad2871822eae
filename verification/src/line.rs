//! The text of one row: prefix, displayed name and the size and time behind
//! it.

use crate::entry::EntryKind;
use vstd::prelude::*;

verus! {

/// The numeral of one decimal digit.
pub open spec fn digit_text(d: int) -> Seq<char> {
    if d == 0 {
        "0"@
    } else if d == 1 {
        "1"@
    } else if d == 2 {
        "2"@
    } else if d == 3 {
        "3"@
    } else if d == 4 {
        "4"@
    } else if d == 5 {
        "5"@
    } else if d == 6 {
        "6"@
    } else if d == 7 {
        "7"@
    } else if d == 8 {
        "8"@
    } else {
        "9"@
    }
}

/// A number in decimal notation, without sign, separators or leading zeros.
pub open spec fn decimal_text(n: nat) -> Seq<char>
    decreases n,
{
    if n < 10 {
        digit_text(n as int)
    } else {
        decimal_text(n / 10) + digit_text((n % 10) as int)
    }
}

/// What stands for the target of a link: the target, or a marker where the
/// target could not be read.
pub open spec fn target_text(link_target: Option<String>) -> Seq<char> {
    match link_target {
        Some(target) => target@,
        None => "[unresolved]"@,
    }
}

/// The name as displayed: for a symbolic link the name, an arrow and the
/// target; for anything else the name alone. `painted` is the name with
/// whatever styling it was given.
pub open spec fn display_text(
    painted: Seq<char>,
    kind: EntryKind,
    link_target: Option<String>,
) -> Seq<char> {
    if kind == EntryKind::Symlink {
        painted + " -> "@ + target_text(link_target)
    } else {
        painted
    }
}

/// What follows the name: the size in bytes and the time of the last
/// modification, in parentheses.
pub open spec fn suffix_text(size: u64, stamp: Seq<char>) -> Seq<char> {
    " ("@ + decimal_text(size as nat) + " bytes, modified: "@ + stamp + ")"@
}

/// One row, without the newline that ends it.
pub open spec fn line_text(
    prefix: Seq<char>,
    display: Seq<char>,
    size: u64,
    stamp: Seq<char>,
) -> Seq<char> {
    prefix + display + suffix_text(size, stamp)
}

/// The first `n` rows as they are written out: each row ended by a newline.
pub open spec fn page_text(lines: Seq<String>, n: int) -> Seq<char>
    decreases n,
{
    if n <= 0 {
        Seq::empty()
    } else {
        page_text(lines, n - 1) + lines[n - 1]@ + "\n"@
    }
}

/// The numeral of a digit.
fn digit(d: u64) -> (text: &'static str)
    requires
        d < 10,
    ensures
        text@ == digit_text(d as int),
{
    if d == 0 {
        "0"
    } else if d == 1 {
        "1"
    } else if d == 2 {
        "2"
    } else if d == 3 {
        "3"
    } else if d == 4 {
        "4"
    } else if d == 5 {
        "5"
    } else if d == 6 {
        "6"
    } else if d == 7 {
        "7"
    } else if d == 8 {
        "8"
    } else {
        "9"
    }
}

/// Writes a number in decimal notation.
pub fn decimal(n: u64) -> (text: String)
    ensures
        text@ == decimal_text(n as nat),
    decreases n,
{
    if n < 10 {
        String::from_str(digit(n))
    } else {
        let mut text = decimal(n / 10);
        text.append(digit(n % 10));
        text
    }
}

/// Writes the name as displayed, from the styled name.
pub fn display_name(painted: &str, kind: EntryKind, link_target: &Option<String>) -> (text: String)
    ensures
        text@ == display_text(painted@, kind, *link_target),
{
    let mut text = String::from_str(painted);
    if kind == EntryKind::Symlink {
        text.append(" -> ");
        match link_target {
            Some(target) => text.append(target.as_str()),
            None => text.append("[unresolved]"),
        }
    }
    text
}

/// Writes one row from its parts.
pub fn compose_line(prefix: &str, display: &str, size: u64, stamp: &str) -> (line: String)
    ensures
        line@ == line_text(prefix@, display@, size, stamp@),
{
    let mut line = String::from_str(prefix);
    line.append(display);
    line.append(" (");
    line.append(decimal(size).as_str());
    line.append(" bytes, modified: ");
    line.append(stamp);
    line.append(")");
    line
}

/// Writes the rows out as one text, a newline behind each.
pub fn join_lines(lines: &Vec<String>) -> (text: String)
    ensures
        text@ == page_text(lines@, lines.len() as int),
{
    let mut text = String::new();
    let mut i: usize = 0;
    while i < lines.len()
        invariant
            i <= lines.len(),
            text@ == page_text(lines@, i as int),
        decreases lines.len() - i,
    {
        text.append(lines[i].as_str());
        text.append("\n");
        i += 1;
    }
    text
}

} // verus!
