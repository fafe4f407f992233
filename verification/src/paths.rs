use vstd::prelude::*;

verus! {

// ---------------------------------------------------------------------------
// Tilde expansion
// ---------------------------------------------------------------------------

/// What resolving a leading `~` against a home directory yields: a `~`
/// standing alone or followed by `/` is replaced by the home directory;
/// every other input (including `~user/...` forms) is left unchanged.
pub open spec fn tilde_expanded(s: Seq<char>, home: Seq<char>) -> Seq<char> {
    if s.len() >= 1 && s[0] == '~' && (s.len() == 1 || s[1] == '/') {
        home + s.skip(1)
    } else {
        s
    }
}

/// Relies on `shellexpand::tilde_with_context`, with the home directory
/// supplied as a fixed lookup: its source replaces a leading `~` that is
/// alone or followed by `/` with the looked-up home directory and returns
/// any other input unchanged.
#[verifier::external_body]
fn shell_tilde(path: &str, home: &str) -> (r: String)
    ensures
        r@ == tilde_expanded(path@, home@),
{
    shellexpand::tilde_with_context(path, || Some::<&str>(home)).into_owned()
}

/// Resolve an entry path that may still carry a leading `~`.
pub fn resolve_path(path: &str, home: &str) -> (r: String)
    ensures
        r@ == tilde_expanded(path@, home@),
{
    shell_tilde(path, home)
}

/// Relies on `dirs::home_dir` for the user's home directory; the value
/// is whatever the environment reports, so nothing is promised of it.
#[verifier::external_body]
fn home_dir_raw() -> (r: Option<String>)
{
    dirs::home_dir().map(|p| p.to_string_lossy().into_owned())
}

/// Accept a reported home directory exactly when it is in the absolute
/// form the home-relative path convention rests on, and hand it through
/// unchanged; anything else is treated as no home at all. This is the
/// whole decision between the environment's answer and the directory
/// the library maps paths against.
pub fn accept_home(h: Option<String>) -> (r: Option<String>)
    ensures
        r is Some <==> (h matches Some(x) && is_abs(x@)),
        (r matches Some(v) ==> h == Some(v)),
{
    match h {
        Some(x) => {
            if x.unicode_len() > 0 && x.get_char(0) == '/' {
                Some(x)
            } else {
                None
            }
        },
        None => None,
    }
}

/// The user's home directory, accepted only in the absolute form the
/// home-relative path convention rests on; anything else is reported as
/// missing.
pub fn current_home() -> (r: Option<String>)
    ensures
        (r matches Some(h) ==> is_abs(h@)),
{
    accept_home(home_dir_raw())
}

// ---------------------------------------------------------------------------
// The home-relative path convention
// ---------------------------------------------------------------------------

/// An absolute path: non-empty and rooted at `/`.
pub open spec fn is_abs(p: Seq<char>) -> bool {
    p.len() > 0 && p[0] == '/'
}

/// The home-relative form of `path`: defined exactly when `path` lies
/// strictly below the home directory, in which case it is the non-empty
/// remainder after `home` and the separating `/`.
///
/// The convention demands that separating `/` after the home prefix, so
/// a home of `/` alone places nothing: no well-formed absolute path has
/// a second `/` right after the root. Under a root home every entry is
/// therefore reported as outside-home — refused explicitly, never
/// mis-mapped.
pub open spec fn home_rel_of(path: Seq<char>, home: Seq<char>) -> Option<Seq<char>> {
    if path.len() > home.len() + 1 && path.subrange(0, home.len() as int) == home
        && path[home.len() as int] == '/' {
        Some(path.skip(home.len() as int + 1))
    } else {
        None
    }
}

/// Where an entry with home-relative path `rel` lives on the filesystem.
pub open spec fn dest_path_of(home: Seq<char>, rel: Seq<char>) -> Seq<char> {
    home + "/"@ + rel
}

/// The backup root for one restore invocation, labeled by its timestamp.
pub open spec fn backup_root_of(label: Seq<char>) -> Seq<char> {
    "backups/"@ + label
}

/// Where an overwritten entry is moved to during a restore.
pub open spec fn backup_path_of(label: Seq<char>, rel: Seq<char>) -> Seq<char> {
    backup_root_of(label) + "/"@ + rel
}

/// Where the extracted container holds an entry before it is copied in.
pub open spec fn staged_path_of(rel: Seq<char>) -> Seq<char> {
    "restitch_tmp/"@ + rel
}

/// Compute the home-relative form of an absolute path, or `None` when the
/// path does not lie strictly below the home directory.
pub fn home_rel(path: &str, home: &str) -> (r: Option<String>)
    ensures
        match r {
            Some(rel) => home_rel_of(path@, home@) == Some(rel@),
            None => home_rel_of(path@, home@) is None,
        },
{
    let path_len = path.unicode_len();
    let home_len = home.unicode_len();
    if path_len <= home_len || path_len - home_len <= 1 {
        return None;
    }
    let mut i: usize = 0;
    while i < home_len
        invariant
            0 <= i <= home_len,
            home_len == home@.len(),
            path_len == path@.len(),
            path_len > home_len + 1,
            forall|j: int| 0 <= j < i ==> path@[j] == home@[j],
        decreases home_len - i,
    {
        if path.get_char(i) != home.get_char(i) {
            proof {
                assert(path@.subrange(0, home@.len() as int) != home@) by {
                    assert(path@.subrange(0, home@.len() as int)[i as int] == path@[i as int]);
                }
            }
            return None;
        }
        i += 1;
    }
    if path.get_char(home_len) != '/' {
        return None;
    }
    let rel = path.substring_char(home_len + 1, path_len).to_owned();
    proof {
        assert(path@.subrange(0, home@.len() as int) =~= home@);
        assert(rel@ =~= path@.skip(home@.len() as int + 1));
    }
    Some(rel)
}

/// Build the absolute destination path of an entry from its
/// home-relative path.
pub fn join_home(home: &str, rel: &str) -> (r: String)
    ensures
        r@ == dest_path_of(home@, rel@),
{
    let mut s = home.to_owned();
    s.append("/");
    s.append(rel);
    proof {
        assert(s@ =~= dest_path_of(home@, rel@));
    }
    s
}

/// Build the backup location of an entry inside the backup root named
/// `label`.
pub fn backup_path(label: &str, rel: &str) -> (r: String)
    ensures
        r@ == backup_path_of(label@, rel@),
{
    let mut s = String::from_str("backups/");
    s.append(label);
    s.append("/");
    s.append(rel);
    proof {
        assert(s@ =~= backup_path_of(label@, rel@));
    }
    s
}

/// Build the backup root directory path for `label`.
pub fn backup_root(label: &str) -> (r: String)
    ensures
        r@ == backup_root_of(label@),
{
    let mut s = String::from_str("backups/");
    s.append(label);
    s
}

/// Build the path at which the extraction workspace holds an entry.
pub fn staged_path(rel: &str) -> (r: String)
    ensures
        r@ == staged_path_of(rel@),
{
    let mut s = String::from_str("restitch_tmp/");
    s.append(rel);
    s
}

// ---------------------------------------------------------------------------
// The guarantees of the shared convention, which container, backup root and
// live filesystem all address entries by: the mapping round-trips both ways,
// each of the three path families is injective in the relative path, and the
// families never collide. There is no translation ambiguity to exploit.
// ---------------------------------------------------------------------------

/// Stripping the home prefix undoes joining a non-empty relative path
/// under home.
pub proof fn lemma_home_rel_round_trip(home: Seq<char>, rel: Seq<char>)
    requires
        rel.len() > 0,
    ensures
        home_rel_of(dest_path_of(home, rel), home) == Some(rel),
{
    reveal_strlit("/");
    let p = dest_path_of(home, rel);
    assert(p.subrange(0, home.len() as int) =~= home);
    assert(p[home.len() as int] == '/');
    assert(p.skip(home.len() as int + 1) =~= rel);
}

/// Joining the home-relative form of a path back under home gives the
/// path itself.
pub proof fn lemma_join_home_rel(path: Seq<char>, home: Seq<char>)
    requires
        home_rel_of(path, home) is Some,
    ensures
        dest_path_of(home, home_rel_of(path, home)->Some_0) == path,
{
    reveal_strlit("/");
    let rel = home_rel_of(path, home)->Some_0;
    assert(dest_path_of(home, rel) =~= path);
}

/// Two entries with different home-relative paths live at different
/// destinations.
pub proof fn lemma_dest_path_injective(home: Seq<char>, r1: Seq<char>, r2: Seq<char>)
    requires
        dest_path_of(home, r1) == dest_path_of(home, r2),
    ensures
        r1 == r2,
{
    reveal_strlit("/");
    assert(r1 =~= dest_path_of(home, r1).skip(home.len() as int + 1));
    assert(r2 =~= dest_path_of(home, r2).skip(home.len() as int + 1));
}

/// Within one backup root, different relative paths get different backup
/// locations.
pub proof fn lemma_backup_path_injective(label: Seq<char>, r1: Seq<char>, r2: Seq<char>)
    requires
        backup_path_of(label, r1) == backup_path_of(label, r2),
    ensures
        r1 == r2,
{
    reveal_strlit("backups/");
    reveal_strlit("/");
    let n = backup_root_of(label).len() + 1;
    assert(r1 =~= backup_path_of(label, r1).skip(n as int));
    assert(r2 =~= backup_path_of(label, r2).skip(n as int));
}

/// Different relative paths are staged at different workspace locations.
pub proof fn lemma_staged_path_injective(r1: Seq<char>, r2: Seq<char>)
    requires
        staged_path_of(r1) == staged_path_of(r2),
    ensures
        r1 == r2,
{
    reveal_strlit("restitch_tmp/");
    let n = "restitch_tmp/"@.len();
    assert(r1 =~= staged_path_of(r1).skip(n as int));
    assert(r2 =~= staged_path_of(r2).skip(n as int));
}

/// Destinations (absolute), backup locations (under `backups/`) and staged
/// locations (under the workspace) can never alias one another, whatever
/// the relative paths and label.
pub proof fn lemma_families_disjoint(
    home: Seq<char>,
    label: Seq<char>,
    r1: Seq<char>,
    r2: Seq<char>,
)
    requires
        is_abs(home),
    ensures
        dest_path_of(home, r1) != backup_path_of(label, r2),
        dest_path_of(home, r1) != staged_path_of(r2),
        backup_path_of(label, r1) != staged_path_of(r2),
{
    reveal_strlit("backups/");
    reveal_strlit("restitch_tmp/");
    reveal_strlit("/");
    assert(dest_path_of(home, r1)[0] == '/');
    assert(backup_path_of(label, r2)[0] == 'b');
    assert(backup_path_of(label, r1)[0] == 'b');
    assert(staged_path_of(r2)[0] == 'r');
}

} // verus!
