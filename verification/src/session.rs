use vstd::prelude::*;

verus! {

/// The three things one invocation can do.
#[derive(Clone, Copy, PartialEq, Eq, Structural, Debug)]
pub enum Mode {
    Package,
    Restore,
    Revert,
}

/// Decide the mode from the command-line flags. The dry-run modifier
/// belongs to restoring alone: asking for it in any other mode is a
/// usage error, reported as `None` before anything else runs. Revert
/// takes precedence over restore; with neither flag the run packages.
pub fn select_mode(restore_flag: bool, revert_flag: bool, dry_run: bool) -> (r: Option<Mode>)
    ensures
        r is None <==> (dry_run && !restore_flag),
        (r matches Some(m) ==> m == (if revert_flag {
            Mode::Revert
        } else if restore_flag {
            Mode::Restore
        } else {
            Mode::Package
        })),
{
    if dry_run && !restore_flag {
        return None;
    }
    if revert_flag {
        Some(Mode::Revert)
    } else if restore_flag {
        Some(Mode::Restore)
    } else {
        Some(Mode::Package)
    }
}

/// An ASCII whitespace character, as the confirmation prompt tolerates
/// around the answer.
pub open spec fn is_space(c: char) -> bool {
    c == ' ' || c == '\t' || c == '\n' || c == '\r'
}

/// The input with leading whitespace removed.
pub open spec fn trim_front(s: Seq<char>) -> Seq<char>
    decreases s.len(),
{
    if s.len() > 0 && is_space(s[0]) {
        trim_front(s.skip(1))
    } else {
        s
    }
}

/// The input with trailing whitespace removed.
pub open spec fn trim_back(s: Seq<char>) -> Seq<char>
    decreases s.len(),
{
    if s.len() > 0 && is_space(s.last()) {
        trim_back(s.drop_last())
    } else {
        s
    }
}

/// Whether an operator's reply counts as an explicit yes: exactly the
/// letter `y`, in either case, once surrounding whitespace is gone.
/// Everything else declines, and declining is a clean no-op.
pub open spec fn affirmative(s: Seq<char>) -> bool {
    let t = trim_back(trim_front(s));
    t.len() == 1 && (t[0] == 'y' || t[0] == 'Y')
}

/// Decide whether a reply from the confirmation prompt affirms the
/// operation.
pub fn confirmation_accepts(input: &str) -> (r: bool)
    ensures
        r == affirmative(input@),
{
    let len = input.unicode_len();
    proof {
        assert(input@.skip(0) =~= input@);
    }
    let mut start: usize = 0;
    while start < len && is_space_char(input.get_char(start))
        invariant
            0 <= start <= len,
            len == input@.len(),
            trim_front(input@) == trim_front(input@.skip(start as int)),
        decreases len - start,
    {
        proof {
            assert(input@.skip(start as int)[0] == input@[start as int]);
            assert(input@.skip(start as int).skip(1) =~= input@.skip(start as int + 1));
        }
        start += 1;
    }
    proof {
        if start < len {
            assert(input@.skip(start as int)[0] == input@[start as int]);
        }
        assert(trim_front(input@) == input@.skip(start as int));
    }
    let ghost t = input@.skip(start as int);
    let mut end: usize = len;
    proof {
        assert(t.take(len - start as int) =~= t);
    }
    while end > start && is_space_char(input.get_char(end - 1))
        invariant
            start <= end <= len,
            len == input@.len(),
            t == input@.skip(start as int),
            trim_back(t) == trim_back(t.take(end - start as int)),
        decreases end,
    {
        proof {
            let k = end - start as int;
            assert(t.take(k).last() == input@[end - 1]);
            assert(t.take(k).drop_last() =~= t.take(k - 1));
        }
        end -= 1;
    }
    proof {
        let k = end - start as int;
        if end > start {
            assert(t.take(k).last() == input@[end - 1]);
        }
        assert(trim_back(t) == t.take(k));
    }
    if end - start != 1 {
        return false;
    }
    let c = input.get_char(start);
    proof {
        assert(t.take(1)[0] == input@[start as int]);
    }
    c == 'y' || c == 'Y'
}

/// Decide `is_space` on one character.
fn is_space_char(c: char) -> (r: bool)
    ensures
        r == is_space(c),
{
    c == ' ' || c == '\t' || c == '\n' || c == '\r'
}

} // verus!
