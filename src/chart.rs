//! Score files and the chart files they refer to.
//!
//! Score logs live under `score/`, in a tree that mirrors the chart tree
//! under `songs/` with one more directory level; the chart path is derived
//! from the score path by that convention.
use vstd::prelude::*;
use crate::text::chars_of;

verus! {

/// A score log found under the score tree: its path as text (for messages)
/// and as its components, leaf last.
pub struct ScoreFile {
    pub display: String,
    pub components: Vec<String>,
}

/// Why no chart path can be derived.
#[derive(Clone, Copy, Debug, PartialEq, Eq, Structural)]
pub enum ChartPathError {
    /// The score path has fewer than five components.
    TooShallow,
}

pub open spec fn components_view(c: Seq<String>) -> Seq<Seq<char>> {
    c.map_values(|s: String| s@)
}

/// The index of the last `.` in `s`, or -1.
pub open spec fn last_dot(s: Seq<char>) -> int
    decreases s.len(),
{
    if s.len() == 0 {
        -1
    } else if s.last() == '.' {
        s.len() - 1
    } else {
        last_dot(s.drop_last())
    }
}

/// A file name with its extension set to `ksh`: the stem (all before the
/// last dot, unless that dot leads the name), a dot, then `ksh`.
pub open spec fn with_ksh(name: Seq<char>) -> Seq<char> {
    let k = last_dot(name);
    let stem = if k > 0 { name.subrange(0, k) } else { name };
    stem + ".ksh"@
}

/// The chart path of a score path: the leaf takes the `ksh` extension, the
/// component four above the leaf is dropped and the one five above it
/// becomes `songs`.
pub open spec fn chart_path_spec(c: Seq<Seq<char>>) -> Seq<Seq<char>> {
    let n = c.len() as int;
    c.subrange(0, n - 5) + seq!["songs"@] + c.subrange(n - 3, n - 1) + seq![with_ksh(c[n - 1])]
}

fn last_dot_of(s: &Vec<char>) -> (r: Option<usize>)
    ensures
        match r {
            Some(k) => last_dot(s@) == k as int && k < s@.len(),
            None => last_dot(s@) == -1,
        },
{
    let mut i: usize = s.len();
    assert(s@.subrange(0, i as int) =~= s@);
    while i > 0
        invariant
            i <= s@.len(),
            last_dot(s@) == last_dot(s@.subrange(0, i as int)),
        decreases i,
    {
        let t = Ghost(s@.subrange(0, i as int));
        assert(t@.drop_last() =~= s@.subrange(0, i as int - 1));
        if s[i - 1] == '.' {
            return Some(i - 1);
        }
        i = i - 1;
    }
    assert(s@.subrange(0, 0) =~= Seq::<char>::empty());
    None
}

fn ksh_name(name: &String) -> (r: String)
    ensures
        r@ == with_ksh(name@),
{
    let cs = chars_of(name.as_str());
    let stem = match last_dot_of(&cs) {
        Some(k) if k > 0 => String::from_str(name.as_str().substring_char(0, k)),
        _ => name.clone(),
    };
    stem.concat(".ksh")
}

/// Derives the chart path of a score file from its path components.
pub fn chart_path(components: &Vec<String>) -> (r: Result<Vec<String>, ChartPathError>)
    ensures
        components@.len() < 5 ==> r == Err::<Vec<String>, ChartPathError>(
            ChartPathError::TooShallow,
        ),
        components@.len() >= 5 ==> (r matches Ok(p) && components_view(p@) == chart_path_spec(
            components_view(components@),
        )),
{
    let n = components.len();
    if n < 5 {
        return Err(ChartPathError::TooShallow);
    }
    let ghost c = components_view(components@);
    let mut r: Vec<String> = Vec::new();
    let mut i: usize = 0;
    while i < n - 5
        invariant
            n == components@.len(),
            n >= 5,
            i <= n - 5,
            c == components_view(components@),
            components_view(r@) == c.subrange(0, i as int),
        decreases n - 5 - i,
    {
        let ghost before = r@;
        let x = components[i].clone();
        assert(x@ == c[i as int]);
        r.push(x);
        assert(components_view(r@) =~= components_view(before).push(x@));
        assert(components_view(r@) =~= c.subrange(0, i as int + 1));
        i = i + 1;
    }
    let ghost before = r@;
    let songs = String::from_str("songs");
    r.push(songs);
    assert(components_view(r@) =~= components_view(before).push(songs@));
    assert(components_view(r@) =~= c.subrange(0, n - 5) + seq!["songs"@]);
    let mut j: usize = n - 3;
    while j < n - 1
        invariant
            n == components@.len(),
            n >= 5,
            n - 3 <= j <= n - 1,
            c == components_view(components@),
            components_view(r@) == c.subrange(0, n - 5) + seq!["songs"@] + c.subrange(
                n - 3,
                j as int,
            ),
        decreases n - 1 - j,
    {
        let ghost before = r@;
        let x = components[j].clone();
        assert(x@ == c[j as int]);
        r.push(x);
        assert(components_view(r@) =~= components_view(before).push(x@));
        assert(components_view(r@) =~= c.subrange(0, n - 5) + seq!["songs"@] + c.subrange(
            n - 3,
            j as int + 1,
        ));
        j = j + 1;
    }
    let ghost before = r@;
    let leaf = ksh_name(&components[n - 1]);
    r.push(leaf);
    assert(components_view(r@) =~= components_view(before).push(leaf@));
    assert(components_view(r@) =~= chart_path_spec(c));
    Ok(r)
}

/// The extension of a file name: what follows its last dot, unless that dot
/// leads the name.
pub open spec fn extension_of(name: Seq<char>) -> Option<Seq<char>> {
    let k = last_dot(name);
    if k > 0 {
        Some(name.subrange(k + 1, name.len() as int))
    } else {
        None
    }
}

/// Whether `e` is `ksc` in any mix of ASCII case.
pub open spec fn is_ksc(e: Seq<char>) -> bool {
    &&& e.len() == 3
    &&& (e[0] == 'k' || e[0] == 'K')
    &&& (e[1] == 's' || e[1] == 'S')
    &&& (e[2] == 'c' || e[2] == 'C')
}

pub open spec fn is_score_file_spec(name: Seq<char>) -> bool {
    extension_of(name) matches Some(e) && is_ksc(e)
}

/// Whether a file name names a score log: its extension is `ksc`, compared
/// without regard to ASCII case.
pub fn is_score_file(name: &String) -> (r: bool)
    ensures
        r == is_score_file_spec(name@),
{
    let cs = chars_of(name.as_str());
    match last_dot_of(&cs) {
        Some(k) if k > 0 => {
            let n = cs.len();
            if n - k != 4 {
                return false;
            }
            let a = cs[k + 1];
            let b = cs[k + 2];
            let c = cs[k + 3];
            assert(extension_of(name@) == Some(name@.subrange(k + 1, n as int)));
            (a == 'k' || a == 'K') && (b == 's' || b == 'S') && (c == 'c' || c == 'C')
        },
        _ => false,
    }
}

} // verus!
