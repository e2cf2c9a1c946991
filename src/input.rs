//! The rules that turn raw input into session commands: key presses, file
//! change notifications and the paths given on the command line.
use crate::session::{Command, UpdateView};
use vstd::prelude::*;

verus! {

/// The modifier keys held with a key press.
#[derive(Debug, PartialEq, Eq, Structural, Clone, Copy)]
pub enum Modifiers {
    /// No modifier at all.
    Plain,
    /// Control and nothing else.
    Control,
    /// Any other combination.
    Other,
}

/// A terminal input event, reduced to what the key bindings look at.
#[derive(Debug, PartialEq, Eq, Structural, Clone, Copy)]
pub enum InputEvent {
    /// A key that types a character.
    Key(Modifiers, char),
    /// The terminal changed size.
    Resize,
    /// Anything else.
    Other,
}

/// The key bindings: `<` and `>` move between tabs, `d` and `u` scroll by one
/// line, Ctrl-C closes, a resize redraws; all else is ignored.
pub open spec fn input_command(event: InputEvent) -> Option<Command> {
    match event {
        InputEvent::Key(Modifiers::Plain, ch) => if ch == '<' {
            Some(Command::PrevView)
        } else if ch == '>' {
            Some(Command::NextView)
        } else if ch == 'd' {
            Some(Command::Scroll(1i16))
        } else if ch == 'u' {
            Some(Command::Scroll(-1i16))
        } else {
            None
        },
        InputEvent::Key(Modifiers::Control, ch) => if ch == 'c' {
            Some(Command::Close)
        } else {
            None
        },
        InputEvent::Resize => Some(Command::Update(UpdateView::Resize)),
        _ => None,
    }
}

/// The command bound to an input event, if any.
pub fn command_for_input(event: InputEvent) -> (r: Option<Command>)
    ensures
        r == input_command(event),
{
    match event {
        InputEvent::Key(Modifiers::Plain, ch) => {
            if ch == '<' {
                Some(Command::PrevView)
            } else if ch == '>' {
                Some(Command::NextView)
            } else if ch == 'd' {
                Some(Command::Scroll(1))
            } else if ch == 'u' {
                Some(Command::Scroll(-1))
            } else {
                None
            }
        },
        InputEvent::Key(Modifiers::Control, ch) => {
            if ch == 'c' {
                Some(Command::Close)
            } else {
                None
            }
        },
        InputEvent::Resize => Some(Command::Update(UpdateView::Resize)),
        _ => None,
    }
}

/// The kind of a file-system notification, reduced to what the session uses.
#[derive(Debug, PartialEq, Eq, Structural, Clone, Copy)]
pub enum ChangeKind {
    /// A file was removed.
    FileRemoved,
    /// A file opened for writing was closed.
    WriteClosed,
    /// Anything else.
    Other,
}

/// The command for a file-system notification of `kind` on `paths`: the last
/// of the paths is the one reported.
pub fn command_for_change(kind: ChangeKind, paths: Vec<String>) -> (r: Option<Command>)
    ensures
        kind == ChangeKind::FileRemoved && paths@.len() > 0 ==> r == Some(
            Command::Update(UpdateView::Remove(paths@.last())),
        ),
        kind == ChangeKind::WriteClosed && paths@.len() > 0 ==> r == Some(
            Command::Update(UpdateView::Reload(paths@.last())),
        ),
        kind == ChangeKind::Other || paths@.len() == 0 ==> r is None,
{
    let mut paths = paths;
    match kind {
        ChangeKind::FileRemoved => match paths.pop() {
            Some(path) => Some(Command::Update(UpdateView::Remove(path))),
            None => None,
        },
        ChangeKind::WriteClosed => match paths.pop() {
            Some(path) => Some(Command::Update(UpdateView::Reload(path))),
            None => None,
        },
        ChangeKind::Other => None,
    }
}

/// The command-line arguments: the files to show, as canonical paths.
#[derive(Debug, PartialEq, Eq)]
pub struct Args {
    pub files: Vec<String>,
}

/// A path as given on the command line, with its canonical form when the
/// file could be found.
#[derive(Debug, PartialEq, Eq)]
pub struct ResolvedPath {
    pub given: String,
    pub canonical: Option<String>,
}

/// Why the command-line paths cannot open a session.
#[derive(Debug, PartialEq, Eq)]
pub enum ArgsError {
    /// No path was given.
    NoFiles,
    /// These paths, as given, could not be found.
    Unresolved(Vec<String>),
}

/// The canonical forms of the paths that were found, in order.
pub open spec fn canonical_paths(rs: Seq<ResolvedPath>) -> Seq<Seq<char>>
    decreases rs.len(),
{
    if rs.len() == 0 {
        Seq::empty()
    } else {
        let prev = canonical_paths(rs.drop_last());
        match rs.last().canonical {
            Some(c) => prev.push(c@),
            None => prev,
        }
    }
}

/// The paths, as given, that were not found, in order.
pub open spec fn unresolved_paths(rs: Seq<ResolvedPath>) -> Seq<Seq<char>>
    decreases rs.len(),
{
    if rs.len() == 0 {
        Seq::empty()
    } else {
        let prev = unresolved_paths(rs.drop_last());
        match rs.last().canonical {
            Some(_) => prev,
            None => prev.push(rs.last().given@),
        }
    }
}

/// The models of a sequence of strings.
pub open spec fn string_seq(v: Seq<String>) -> Seq<Seq<char>> {
    v.map_values(|s: String| s@)
}

/// Checks the command-line paths: the session opens on their canonical forms
/// when every one was found; otherwise the error lists those that were not.
pub fn collect_files(resolved: Vec<ResolvedPath>) -> (r: Result<Args, ArgsError>)
    ensures
        resolved@.len() == 0 <==> r == Err::<Args, ArgsError>(ArgsError::NoFiles),
        r is Ok <==> resolved@.len() > 0 && unresolved_paths(resolved@).len() == 0,
        r matches Ok(args) ==> string_seq(args.files@) == canonical_paths(resolved@),
        r matches Err(ArgsError::Unresolved(v)) ==> string_seq(v@) == unresolved_paths(
            resolved@,
        ) && v@.len() > 0,
{
    if resolved.len() == 0 {
        return Err(ArgsError::NoFiles);
    }
    let mut good: Vec<String> = Vec::new();
    let mut bad: Vec<String> = Vec::new();
    let n = resolved.len();
    let mut i: usize = 0;
    while i < n
        invariant
            n == resolved@.len(),
            i <= n,
            string_seq(good@) == canonical_paths(resolved@.take(i as int)),
            string_seq(bad@) == unresolved_paths(resolved@.take(i as int)),
        decreases n - i,
    {
        assert(resolved@.take(i + 1).drop_last() == resolved@.take(i as int));
        let ghost g = good@;
        let ghost b = bad@;
        match &resolved[i].canonical {
            Some(c) => {
                good.push(c.clone());
                assert(string_seq(good@) =~= string_seq(g).push(c@));
            },
            None => {
                bad.push(resolved[i].given.clone());
                assert(string_seq(bad@) =~= string_seq(b).push(resolved@[i as int].given@));
            },
        }
        i = i + 1;
    }
    assert(resolved@.take(n as int) == resolved@);
    if bad.len() == 0 {
        Ok(Args { files: good })
    } else {
        Err(ArgsError::Unresolved(bad))
    }
}

} // verus!
