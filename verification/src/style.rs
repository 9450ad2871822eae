//! How a name is styled, and the calls that style it.

use crate::entry::EntryKind;
use colored::Colorize;
use vstd::prelude::*;

verus! {

/// The styles a name can be given.
#[derive(Clone, Copy, Debug, PartialEq, Eq, Structural)]
pub enum NameStyle {
    /// The name as it is.
    Plain,
    /// Bold and blue: a directory.
    Emphasized,
    /// Green: a symbolic link.
    Link,
}

/// The style of a name: with styling switched off every name is plain; with
/// it on, directories are emphasized and symbolic links set apart.
pub open spec fn style_of(kind: EntryKind, styled: bool) -> NameStyle {
    if !styled {
        NameStyle::Plain
    } else if kind == EntryKind::Directory {
        NameStyle::Emphasized
    } else if kind == EntryKind::Symlink {
        NameStyle::Link
    } else {
        NameStyle::Plain
    }
}

/// The character that every terminal escape sequence begins with.
pub open spec fn escape_char() -> char {
    '\u{1b}'
}

/// Whether `painted` is `name` with something in front of it and something
/// behind it, either of which may be nothing.
pub open spec fn wraps(painted: Seq<char>, name: Seq<char>) -> bool {
    exists|lead: Seq<char>, tail: Seq<char>| painted == lead + name + tail
}

/// What is known of a styled name. A plain one is the name itself. What the
/// other styles put around the name is up to the terminal the process runs
/// on, but a name free of escape characters comes back whole, with at most
/// something before it and something behind it.
pub open spec fn painted_fits(painted: Seq<char>, name: Seq<char>, style: NameStyle) -> bool {
    &&& style == NameStyle::Plain ==> painted == name
    &&& !name.contains(escape_char()) ==> wraps(painted, name)
}

/// Chooses the style of a name.
pub fn style_for(kind: EntryKind, styled: bool) -> (style: NameStyle)
    ensures
        style == style_of(kind, styled),
{
    if !styled {
        NameStyle::Plain
    } else if kind == EntryKind::Directory {
        NameStyle::Emphasized
    } else if kind == EntryKind::Symlink {
        NameStyle::Link
    } else {
        NameStyle::Plain
    }
}

/// `colored`'s `bold` and `blue` on a string slice, written out with
/// `to_string`. `colored` looks at the environment and at whether standard
/// output is a terminal, and according to that returns the name bare or
/// between the escape sequences of the style. Which of the two is not
/// claimed, only what holds either way: a name without an escape character
/// comes back whole. (One with a reset sequence inside is patched up in the
/// middle.)
#[verifier::external_body]
fn bold_blue(name: &str) -> (painted: String)
    ensures
        !name@.contains(escape_char()) ==> wraps(painted@, name@),
{
    name.bold().blue().to_string()
}

/// `colored`'s `normal` and `green` on a string slice, written out with
/// `to_string`. The claim is that of bold blue, for the same reason.
#[verifier::external_body]
fn green(name: &str) -> (painted: String)
    ensures
        !name@.contains(escape_char()) ==> wraps(painted@, name@),
{
    name.normal().green().to_string()
}

/// Styles a name.
pub fn paint(name: &str, style: NameStyle) -> (painted: String)
    ensures
        painted_fits(painted@, name@, style),
{
    match style {
        NameStyle::Plain => {
            assert(name@ =~= Seq::<char>::empty() + name@ + Seq::<char>::empty());
            String::from_str(name)
        },
        NameStyle::Emphasized => bold_blue(name),
        NameStyle::Link => green(name),
    }
}

} // verus!
