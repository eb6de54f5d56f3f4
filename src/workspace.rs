use vstd::prelude::*;

use crate::text::{chars_of, decimal, push_char, push_decimal, push_str, str_eq, string_of};

verus! {

/// Whether a directory is left out of file listings and searches.
pub fn should_skip_dir(name: &str) -> (r: bool)
    ensures
        r == (name@ == ".git"@ || name@ == "node_modules"@ || name@ == "dist"@ || name@ == "target"@ || name@
            == "release-artifacts"@),
{
    str_eq(name, ".git") || str_eq(name, "node_modules") || str_eq(name, "dist") || str_eq(name, "target")
        || str_eq(name, "release-artifacts")
}

pub open spec fn slash_for_backslash(c: char) -> char {
    if c == '\\' { '/' } else { c }
}

/// Replaces every backslash in a path with a forward slash.
pub fn normalize_git_path(path: &str) -> (r: String)
    ensures
        r@ == path@.map_values(|c: char| slash_for_backslash(c)),
{
    let cs = chars_of(path);
    let mut out = String::new();
    let mut i: usize = 0;
    while i < cs.len()
        invariant
            cs@ == path@,
            i <= cs@.len(),
            out@ == cs@.subrange(0, i as int).map_values(|c: char| slash_for_backslash(c)),
        decreases cs@.len() - i,
    {
        let c = cs[i];
        push_char(&mut out, if c == '\\' { '/' } else { c });
        i = i + 1;
        assert(out@ =~= cs@.subrange(0, i as int).map_values(|c: char| slash_for_backslash(c)));
    }
    assert(cs@.subrange(0, cs@.len() as int) =~= cs@);
    out
}

/// The characters that have a meaning in a regular expression.
pub open spec fn is_regex_special(c: char) -> bool {
    c == '.' || c == '^' || c == '$' || c == '*' || c == '+' || c == '?' || c == '(' || c == ')' || c == '['
        || c == ']' || c == '{' || c == '}' || c == '|' || c == '\\'
}

/// `s` with a backslash put before every special character.
pub open spec fn escaped(s: Seq<char>) -> Seq<char>
    decreases s.len(),
{
    if s.len() == 0 {
        Seq::empty()
    } else if is_regex_special(s.last()) {
        escaped(s.drop_last()) + seq!['\\', s.last()]
    } else {
        escaped(s.drop_last()).push(s.last())
    }
}

/// Escapes `input` so that a regular expression search matches it literally.
pub fn escape_rg_regex(input: &str) -> (r: String)
    ensures
        r@ == escaped(input@),
{
    let cs = chars_of(input);
    let mut out = String::new();
    let mut i: usize = 0;
    while i < cs.len()
        invariant
            cs@ == input@,
            i <= cs@.len(),
            out@ == escaped(cs@.subrange(0, i as int)),
        decreases cs@.len() - i,
    {
        let c = cs[i];
        let special = c == '.' || c == '^' || c == '$' || c == '*' || c == '+' || c == '?' || c == '(' || c == ')'
            || c == '[' || c == ']' || c == '{' || c == '}' || c == '|' || c == '\\';
        if special {
            push_char(&mut out, '\\');
        }
        push_char(&mut out, c);
        assert(cs@.subrange(0, i + 1).drop_last() =~= cs@.subrange(0, i as int));
        i = i + 1;
        assert(out@ =~= escaped(cs@.subrange(0, i as int)));
    }
    assert(cs@.subrange(0, cs@.len() as int) =~= cs@);
    out
}

/// Whether `needle` occurs in `hay` at position `i`.
pub open spec fn occurs_at(hay: Seq<char>, needle: Seq<char>, i: int) -> bool {
    0 <= i && i + needle.len() <= hay.len() && hay.subrange(i, i + needle.len()) == needle
}

/// Whether `needle` occurs anywhere in `hay`.
pub open spec fn contains_text(hay: Seq<char>, needle: Seq<char>) -> bool {
    exists|i: int| occurs_at(hay, needle, i)
}

/// Searches `hay` for `needle`.
pub fn contains_str(hay: &str, needle: &str) -> (r: bool)
    ensures
        r == contains_text(hay@, needle@),
{
    let h = chars_of(hay);
    let n = chars_of(needle);
    if n.len() > h.len() {
        assert forall|i: int| !occurs_at(hay@, needle@, i) by {}
        return false;
    }
    let hl = h.len();
    let last = hl - n.len();
    let mut i: usize = 0;
    while i <= last
        invariant
            last == h@.len() - n@.len(),
            hl == h@.len(),
            h@ == hay@,
            n@ == needle@,
            n@.len() <= h@.len(),
            i <= h@.len() - n@.len() + 1,
            forall|k: int| 0 <= k < i ==> !occurs_at(hay@, needle@, k),
        decreases h@.len() + 1 - i,
    {
        let mut j: usize = 0;
        let mut same = true;
        while j < n.len()
            invariant
                h@ == hay@,
                n@ == needle@,
                i <= last,
                last + n@.len() == h@.len(),
                h@.len() <= usize::MAX,
                j <= n@.len(),
                same == (forall|k: int| 0 <= k < j ==> h@[i + k] == n@[k]),
            decreases n@.len() - j,
        {
            if h[i + j] != n[j] {
                same = false;
            }
            j = j + 1;
        }
        if same {
            assert(hay@.subrange(i as int, i + needle@.len()) =~= needle@);
            assert(occurs_at(hay@, needle@, i as int));
            return true;
        }
        assert(!occurs_at(hay@, needle@, i as int)) by {
            let k = choose|k: int| 0 <= k < n@.len() && h@[i + k] != n@[k];
            assert(hay@.subrange(i as int, i + needle@.len())[k] != needle@[k]);
        }
        i = i + 1;
    }
    assert forall|k: int| !occurs_at(hay@, needle@, k) by {
        if 0 <= k < i {
        }
    }
    false
}

/// Whether a git error says that the worktree is gone already.
pub fn is_missing_worktree_error(error: &str) -> (r: bool)
    ensures
        r == contains_text(error@, "is not a working tree"@),
{
    contains_str(error, "is not a working tree")
}

/// Whether a character may stand in a worktree directory name.
pub open spec fn is_name_char(c: char) -> bool {
    ('a' <= c <= 'z') || ('A' <= c <= 'Z') || ('0' <= c <= '9') || c == '-' || c == '_' || c == '.'
}

pub open spec fn name_char(c: char) -> char {
    if is_name_char(c) { c } else { '-' }
}

/// `s` without the dashes at its start.
pub open spec fn trim_dashes_start(s: Seq<char>) -> Seq<char>
    decreases s.len(),
{
    if s.len() > 0 && s[0] == '-' { trim_dashes_start(s.drop_first()) } else { s }
}

/// `s` without the dashes at its end.
pub open spec fn trim_dashes_end(s: Seq<char>) -> Seq<char>
    decreases s.len(),
{
    if s.len() > 0 && s.last() == '-' { trim_dashes_end(s.drop_last()) } else { s }
}

/// The directory name for a branch: every character that may not stand
/// in it becomes a dash, dashes at both ends go, and an empty result
/// becomes `worktree`.
pub open spec fn sanitized(branch: Seq<char>) -> Seq<char> {
    let t = trim_dashes_end(trim_dashes_start(branch.map_values(|c: char| name_char(c))));
    if t.len() == 0 { "worktree"@ } else { t }
}

/// Turns a branch name into a directory name for its worktree.
pub fn sanitize_worktree_name(branch: &str) -> (r: String)
    ensures
        r@ == sanitized(branch@),
{
    let cs = chars_of(branch);
    let mut mapped: Vec<char> = Vec::new();
    let mut i: usize = 0;
    while i < cs.len()
        invariant
            cs@ == branch@,
            i <= cs@.len(),
            mapped@ == cs@.subrange(0, i as int).map_values(|c: char| name_char(c)),
        decreases cs@.len() - i,
    {
        let c = cs[i];
        let keep = ('a' <= c && c <= 'z') || ('A' <= c && c <= 'Z') || ('0' <= c && c <= '9') || c == '-' || c
            == '_' || c == '.';
        mapped.push(if keep { c } else { '-' });
        i = i + 1;
        assert(mapped@ =~= cs@.subrange(0, i as int).map_values(|c: char| name_char(c)));
    }
    assert(cs@.subrange(0, cs@.len() as int) =~= cs@);
    let ghost m = mapped@;
    assert(m.subrange(0, m.len() as int) =~= m);
    let mut a: usize = 0;
    while a < mapped.len() && mapped[a] == '-'
        invariant
            m == mapped@,
            a <= m.len(),
            trim_dashes_start(m) == trim_dashes_start(m.subrange(a as int, m.len() as int)),
        decreases m.len() - a,
    {
        assert(m.subrange(a as int, m.len() as int).drop_first() =~= m.subrange(a + 1, m.len() as int));
        a = a + 1;
    }
    assert(m.subrange(a as int, m.len() as int) == trim_dashes_start(m)) by {
        assert(m.subrange(a as int, m.len() as int) == trim_dashes_start(m.subrange(a as int, m.len() as int)));
    }
    let mut b: usize = mapped.len();
    while b > a && mapped[b - 1] == '-'
        invariant
            m == mapped@,
            a <= b <= m.len(),
            trim_dashes_end(trim_dashes_start(m)) == trim_dashes_end(m.subrange(a as int, b as int)),
        decreases b - a,
    {
        assert(m.subrange(a as int, b as int).drop_last() =~= m.subrange(a as int, b - 1));
        b = b - 1;
    }
    if a == b {
        assert(m.subrange(a as int, b as int).len() == 0);
        String::from_str("worktree")
    } else {
        string_of(&mapped, a, b)
    }
}

/// `name` inside the directory `base`.
pub open spec fn join_path(base: Seq<char>, name: Seq<char>) -> Seq<char> {
    if base.len() == 0 {
        name
    } else if base.last() == '/' {
        base + name
    } else {
        base + seq!['/'] + name
    }
}

/// The `k`-th path tried for a worktree: the plain name first, then the
/// name with `-2`, `-3`, ... appended.
pub open spec fn worktree_candidate(base: Seq<char>, name: Seq<char>, k: nat) -> Seq<char> {
    if k < 2 {
        join_path(base, name)
    } else {
        join_path(base, name + seq!['-'] + decimal(k))
    }
}

/// The first candidate from the `k`-th on, up to the 999th, that is not
/// taken or is the worktree's own `current` path.
pub open spec fn free_candidate(base: Seq<char>, name: Seq<char>, taken: Seq<Seq<char>>, current: Option<Seq<char>>, k: nat) -> Option<Seq<char>>
    decreases 1000 - k,
{
    if k >= 1000 {
        None
    } else {
        let c = worktree_candidate(base, name, k);
        if current == Some(c) || !taken.contains(c) {
            Some(c)
        } else {
            free_candidate(base, name, taken, current, k + 1)
        }
    }
}

/// Writes the `k`-th candidate path (see `worktree_candidate`).
pub fn worktree_path_candidate(base_dir: &str, name: &str, k: u64) -> (r: String)
    ensures
        r@ == worktree_candidate(base_dir@, name@, k as nat),
{
    let mut leaf = String::from_str(name);
    if k >= 2 {
        push_char(&mut leaf, '-');
        push_decimal(&mut leaf, k);
    }
    let b = chars_of(base_dir);
    let mut out = String::from_str(base_dir);
    if b.len() > 0 && b[b.len() - 1] != '/' {
        push_char(&mut out, '/');
    }
    push_str(&mut out, leaf.as_str());
    assert(out@ =~= worktree_candidate(base_dir@, name@, k as nat));
    out
}

fn is_taken(taken: &Vec<String>, path: &String) -> (r: bool)
    ensures
        r == taken@.map_values(|s: String| s@).contains(path@),
{
    let ghost view = taken@.map_values(|s: String| s@);
    let mut i: usize = 0;
    while i < taken.len()
        invariant
            i <= taken@.len(),
            view == taken@.map_values(|s: String| s@),
            forall|j: int| 0 <= j < i ==> view[j] != path@,
        decreases taken@.len() - i,
    {
        if taken[i] == *path {
            assert(view[i as int] == path@);
            return true;
        }
        i = i + 1;
    }
    false
}

fn pick_worktree_path(base_dir: &str, name: &str, taken: &Vec<String>, current: Option<&String>) -> (r: Result<String, String>)
    ensures
        match free_candidate(
            base_dir@,
            name@,
            taken@.map_values(|s: String| s@),
            match current {
                Some(c) => Some(c@),
                None => None,
            },
            1,
        ) {
            Some(p) => r matches Ok(s) && s@ == p,
            None => r matches Err(m) && m@ == "Failed to find an available worktree path under "@ + base_dir@ + "."@,
        },
{
    let ghost cur = match current {
        Some(c) => Some(c@),
        None => None,
    };
    let ghost view = taken@.map_values(|s: String| s@);
    let mut k: u64 = 1;
    while k < 1000
        invariant
            1 <= k <= 1000,
            view == taken@.map_values(|s: String| s@),
            cur == (match current {
                Some(c) => Some(c@),
                None => None::<Seq<char>>,
            }),
            free_candidate(base_dir@, name@, view, cur, 1) == free_candidate(base_dir@, name@, view, cur, k as nat),
        decreases 1000 - k,
    {
        let candidate = worktree_path_candidate(base_dir, name, k);
        let own = match current {
            Some(c) => *c == candidate,
            None => false,
        };
        if own || !is_taken(taken, &candidate) {
            return Ok(candidate);
        }
        k = k + 1;
    }
    let mut m = String::from_str("Failed to find an available worktree path under ");
    push_str(&mut m, base_dir);
    push_str(&mut m, ".");
    Err(m)
}

/// Chooses the path of a new worktree: the first candidate (see
/// `worktree_candidate`) that is not among the paths already `taken`.
pub fn unique_worktree_path(base_dir: &str, name: &str, taken: &Vec<String>) -> (r: Result<String, String>)
    ensures
        match free_candidate(base_dir@, name@, taken@.map_values(|s: String| s@), None, 1) {
            Some(p) => r matches Ok(s) && s@ == p,
            None => r matches Err(m) && m@ == "Failed to find an available worktree path under "@ + base_dir@ + "."@,
        },
{
    pick_worktree_path(base_dir, name, taken, None)
}

/// Chooses the path of a renamed worktree: as `unique_worktree_path`, but
/// the worktree's own current path counts as free.
pub fn unique_worktree_path_for_rename(base_dir: &str, name: &str, current_path: &String, taken: &Vec<String>) -> (r: Result<String, String>)
    ensures
        match free_candidate(base_dir@, name@, taken@.map_values(|s: String| s@), Some(current_path@), 1) {
            Some(p) => r matches Ok(s) && s@ == p,
            None => r matches Err(m) && m@ == "Failed to find an available worktree path under "@ + base_dir@ + "."@,
        },
{
    pick_worktree_path(base_dir, name, taken, Some(current_path))
}

} // verus!
