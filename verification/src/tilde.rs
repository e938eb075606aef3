//! Paths that start with `~`.
use vstd::prelude::*;

verus! {

/// Whether a path starts with the directory of the user: a `~` that ends the path or stands before
/// a `/`.
pub open spec fn starts_at_home(path: Seq<char>) -> bool {
    path.len() > 0 && path[0] == '~' && (path.len() == 1 || path[1] == '/')
}

/// Whether a path starts with a `~` before a `\`, which is a separator on some systems only.
pub open spec fn starts_with_backslash(path: Seq<char>) -> bool {
    path.len() > 1 && path[0] == '~' && path[1] == '\\'
}

/// The path with the directory of the user, if there is one, in place of its first character.
pub open spec fn below_home(path: Seq<char>, home: Option<Seq<char>>) -> Seq<char> {
    match home {
        Some(home) => home + path.skip(1),
        None => path,
    }
}

/// Whether `expanded` is what a path stands for if `home` is the directory of the user: a path that
/// starts with that directory has it in place of the `~`, and any other stands for itself. Where
/// the `~` stands before a `\`, it is the one or the other.
pub open spec fn tilde_expansion(
    path: Seq<char>,
    home: Option<Seq<char>>,
    expanded: Seq<char>,
) -> bool {
    if starts_at_home(path) {
        expanded == below_home(path, home)
    } else if starts_with_backslash(path) {
        expanded == path || expanded == below_home(path, home)
    } else {
        expanded == path
    }
}

/// The text of a directory of the user.
pub open spec fn home_text(home: Option<String>) -> Option<Seq<char>> {
    match home {
        Some(home) => Some(home@),
        None => None,
    }
}

/// Expands a leading `~` with `shellexpand::tilde_with_context`: a path that does not start with
/// `~`, or goes on otherwise than with a separator, is handed back as it is; in any other the `~`
/// is replaced by `home`, if there is one. A `\` counts as a separator on some systems only.
#[verifier::external_body]
pub(crate) fn expand_tilde(path: &str, home: Option<String>) -> (expanded: String)
    ensures
        tilde_expansion(path@, home_text(home), expanded@),
{
    shellexpand::tilde_with_context(path, || home).into_owned()
}

/// Expands a leading `~` with `shellexpand::tilde`, which takes the directory of the user from the
/// environment. Which directory that is, and whether there is one, is not said.
#[verifier::external_body]
fn expand_tilde_here(path: &str) -> (expanded: String)
    ensures
        exists|home: Option<Seq<char>>| #[trigger] tilde_expansion(path@, home, expanded@),
{
    shellexpand::tilde(path).into_owned()
}

/// The directory of the user on this machine, if it is known: what `~` stands for there. Which
/// directory that is depends on the environment.
pub fn home_dir() -> (home: Option<String>)
    ensures
        home matches Some(home) ==> home@ != "~"@,
{
    let home = expand_tilde_here("~");
    if home == "~".to_owned() {
        None
    } else {
        Some(home)
    }
}

/// A `~` alone or before a `/` stands for the home directory, and what follows it stays; without a
/// home directory, and in every path that does not start with a `~` or where a name follows it, all
/// stays as it is written. Nothing else of the path matters.
pub proof fn law_tilde(rest: Seq<char>, home: Seq<char>, path: Seq<char>, expanded: Seq<char>)
    ensures
        rest.len() == 0 || rest[0] == '/' ==> (tilde_expansion(
            seq!['~'] + rest,
            Some(home),
            expanded,
        ) <==> expanded == home + rest),
        tilde_expansion(path, None, expanded) <==> expanded == path,
        path.len() == 0 || path[0] != '~' ==> (tilde_expansion(path, Some(home), expanded)
            <==> expanded == path),
        path.len() > 1 && path[1] != '/' && path[1] != '\\' ==> (tilde_expansion(
            path,
            Some(home),
            expanded,
        ) <==> expanded == path),
        path.len() > 1 && path[0] == '~' && path[1] == '\\' && tilde_expansion(
            path,
            Some(home),
            expanded,
        ) ==> expanded == path || expanded == home + path.drop_first(),
{
    let whole = seq!['~'] + rest;
    assert(whole.skip(1) =~= rest);
    if rest.len() > 0 {
        assert(whole[1] == rest[0]);
    }
    if path.len() > 0 {
        assert(path.skip(1) =~= path.drop_first());
    }
}

/// The home directory is the text that is given.
pub proof fn law_home(home: Option<String>)
    ensures
        home is None ==> home_text(home) is None,
        home matches Some(dir) ==> home_text(home) == Some(dir@),
{
}

} // verus!
