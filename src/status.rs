//! Read-only status of a patch, from the results of three best-effort
//! probes: a failed probe yields a neutral value instead of an error.
use vstd::prelude::*;

use crate::text::{chars_of, string_of};

verus! {

/// How a patch's local tree compares with its worktree.
#[derive(Debug, Clone, Copy, PartialEq, Eq, Structural)]
pub enum DiffState {
    Clean,
    Modified,
    MissingWorktree,
}

/// How a worktree stands against its upstream-tracking ref.
#[derive(Debug, Clone, Copy, PartialEq, Eq, Structural)]
pub enum UpstreamState {
    Synced,
    Behind(u64),
    Ahead(u64),
}

/// One row of the status report.
#[derive(Debug, Clone)]
pub struct StatusRow {
    pub path: String,
    pub diff: DiffState,
    pub upstream: UpstreamState,
    pub conflicts: bool,
}

/// `c` is an ASCII decimal digit.
pub open spec fn is_digit(c: char) -> bool {
    '0' <= c && c <= '9'
}

pub open spec fn digit_value(c: char) -> nat {
    (c as u32 - '0' as u32) as nat
}

/// The value of a string of decimal digits.
pub open spec fn decimal_value(s: Seq<char>) -> nat
    decreases s.len(),
{
    if s.len() == 0 {
        0
    } else {
        decimal_value(s.drop_last()) * 10 + digit_value(s.last())
    }
}

/// The count a probe printed: `Some` exactly for a non-empty run of decimal
/// digits whose value fits in 64 bits.
pub open spec fn count_of(s: Seq<char>) -> Option<u64> {
    if s.len() > 0 && (forall|i: int| 0 <= i < s.len() ==> is_digit(#[trigger] s[i]))
        && decimal_value(s) <= u64::MAX {
        Some(decimal_value(s) as u64)
    } else {
        None
    }
}

proof fn lemma_decimal_monotone(s: Seq<char>, i: int)
    requires
        0 <= i <= s.len(),
    ensures
        decimal_value(s.take(i)) <= decimal_value(s),
    decreases s.len() - i,
{
    if i < s.len() {
        lemma_decimal_monotone(s, i + 1);
        assert(s.take(i + 1).drop_last() =~= s.take(i));
    } else {
        assert(s.take(i) =~= s);
    }
}

/// Reads a commit count printed by a probe (see [`count_of`]).
pub fn parse_count(s: &str) -> (r: Option<u64>)
    ensures
        r == count_of(s@),
{
    let v = chars_of(s);
    if v.len() == 0 {
        return None;
    }
    let mut acc: u64 = 0;
    let mut i: usize = 0;
    while i < v.len()
        invariant
            i <= v.len(),
            v@ == s@,
            acc as nat == decimal_value(v@.take(i as int)),
            forall|k: int| 0 <= k < i ==> is_digit(#[trigger] v@[k]),
        decreases v.len() - i,
    {
        let c = v[i];
        assert(v@.take(i + 1).drop_last() =~= v@.take(i as int));
        if !('0' <= c && c <= '9') {
            return None;
        }
        let d = (c as u32 - '0' as u32) as u64;
        if acc > (u64::MAX - d) / 10 {
            proof {
                assert(decimal_value(v@.take(i + 1)) > u64::MAX) by (nonlinear_arith)
                    requires
                        decimal_value(v@.take(i + 1)) == acc * 10 + d,
                        acc > (u64::MAX - d) / 10,
                        d <= 9,
                ;
                lemma_decimal_monotone(v@, i + 1);
            }
            return None;
        }
        assert(acc * 10 + d <= u64::MAX) by (nonlinear_arith)
            requires
                acc <= (u64::MAX - d) / 10,
                d <= 9,
        ;
        acc = acc * 10 + d;
        i = i + 1;
    }
    assert(v@.take(v.len() as int) =~= v@);
    Some(acc)
}

/// The upstream lag from the two counts (a failed probe counts as zero):
/// behind wins over ahead.
pub open spec fn upstream_of(behind: Option<u64>, ahead: Option<u64>) -> UpstreamState {
    let b = match behind {
        Some(n) => n,
        None => 0,
    };
    let a = match ahead {
        Some(n) => n,
        None => 0,
    };
    if b != 0 {
        UpstreamState::Behind(b)
    } else if a != 0 {
        UpstreamState::Ahead(a)
    } else {
        UpstreamState::Synced
    }
}

/// The status row of a patch. With the worktree missing, the other probes
/// are skipped. Otherwise a failed content comparison counts as clean, a
/// failed or unreadable count as zero, and a failed conflict listing as no
/// conflict.
pub open spec fn row_of(
    worktree_present: bool,
    trees_equal: Option<bool>,
    behind: Option<Seq<char>>,
    ahead: Option<Seq<char>>,
    unmerged: Option<Seq<char>>,
) -> (DiffState, UpstreamState, bool) {
    if !worktree_present {
        (DiffState::MissingWorktree, UpstreamState::Synced, false)
    } else {
        let diff = match trees_equal {
            Some(false) => DiffState::Modified,
            _ => DiffState::Clean,
        };
        let count = |o: Option<Seq<char>>|
            match o {
                Some(t) => count_of(t),
                None => None,
            };
        let conflicts = match unmerged {
            Some(u) => u.len() > 0,
            None => false,
        };
        (diff, upstream_of(count(behind), count(ahead)), conflicts)
    }
}

fn parse_probe(o: Option<&str>) -> (r: Option<u64>)
    ensures
        r == match o {
            Some(t) => count_of(t@),
            None => None,
        },
{
    match o {
        Some(t) => parse_count(t),
        None => None,
    }
}

/// Builds the status row of the patch at `path` from its probes: whether the
/// worktree exists, whether the trees are equal, the printed behind and
/// ahead counts, and the unmerged-file listing (`None` for a failed probe).
pub fn status_row(
    path: String,
    worktree_present: bool,
    trees_equal: Option<bool>,
    behind: Option<&str>,
    ahead: Option<&str>,
    unmerged: Option<&str>,
) -> (r: StatusRow)
    ensures
        r.path == path,
        (r.diff, r.upstream, r.conflicts) == row_of(
            worktree_present,
            trees_equal,
            match behind {
                Some(t) => Some(t@),
                None => None,
            },
            match ahead {
                Some(t) => Some(t@),
                None => None,
            },
            match unmerged {
                Some(t) => Some(t@),
                None => None,
            },
        ),
{
    if !worktree_present {
        return StatusRow {
            path,
            diff: DiffState::MissingWorktree,
            upstream: UpstreamState::Synced,
            conflicts: false,
        };
    }
    let diff = match trees_equal {
        Some(false) => DiffState::Modified,
        _ => DiffState::Clean,
    };
    let b = match parse_probe(behind) {
        Some(n) => n,
        None => 0,
    };
    let a = match parse_probe(ahead) {
        Some(n) => n,
        None => 0,
    };
    let upstream = if b != 0 {
        UpstreamState::Behind(b)
    } else if a != 0 {
        UpstreamState::Ahead(a)
    } else {
        UpstreamState::Synced
    };
    let conflicts = match unmerged {
        Some(u) => !u.is_empty(),
        None => false,
    };
    StatusRow { path, diff, upstream, conflicts }
}

/// The decimal digits of `n`, most significant first.
pub open spec fn decimal_of(n: nat) -> Seq<char>
    decreases n,
{
    if n < 10 {
        seq![(n + '0' as u32) as char]
    } else {
        decimal_of(n / 10).push(((n % 10) + '0' as u32) as char)
    }
}

fn push_decimal(n: u64, out: &mut Vec<char>)
    ensures
        final(out)@ == old(out)@ + decimal_of(n as nat),
    decreases n,
{
    if n < 10 {
        out.push(((n as u32) + ('0' as u32)) as u8 as char);
    } else {
        push_decimal(n / 10, out);
        out.push((((n % 10) as u32) + ('0' as u32)) as u8 as char);
    }
    assert(final(out)@ =~= old(out)@ + decimal_of(n as nat));
}

/// Renders a count in decimal.
pub fn decimal_string(n: u64) -> (r: String)
    ensures
        r@ == decimal_of(n as nat),
{
    let mut out: Vec<char> = Vec::new();
    push_decimal(n, &mut out);
    assert(out@ =~= decimal_of(n as nat));
    string_of(out.as_slice())
}

/// Text of a diff state in the report.
pub open spec fn diff_label(d: DiffState) -> Seq<char> {
    match d {
        DiffState::Clean => "Clean"@,
        DiffState::Modified => "Modified"@,
        DiffState::MissingWorktree => "Missing WT"@,
    }
}

/// Text of an upstream state in the report: `Synced`, `<n> behind` or `<n> ahead`.
pub open spec fn upstream_label(u: UpstreamState) -> Seq<char> {
    match u {
        UpstreamState::Synced => "Synced"@,
        UpstreamState::Behind(n) => decimal_of(n as nat) + " behind"@,
        UpstreamState::Ahead(n) => decimal_of(n as nat) + " ahead"@,
    }
}

/// Text of the conflict column in the report.
pub open spec fn conflicts_label(c: bool) -> Seq<char> {
    if c {
        "Yes"@
    } else {
        "No"@
    }
}

impl DiffState {
    pub fn label(&self) -> (r: String)
        ensures
            r@ == diff_label(*self),
    {
        match self {
            DiffState::Clean => String::from_str("Clean"),
            DiffState::Modified => String::from_str("Modified"),
            DiffState::MissingWorktree => String::from_str("Missing WT"),
        }
    }
}

impl UpstreamState {
    pub fn label(&self) -> (r: String)
        ensures
            r@ == upstream_label(*self),
    {
        match self {
            UpstreamState::Synced => String::from_str("Synced"),
            UpstreamState::Behind(n) => decimal_string(*n).concat(" behind"),
            UpstreamState::Ahead(n) => decimal_string(*n).concat(" ahead"),
        }
    }
}

impl StatusRow {
    pub fn conflicts_label(&self) -> (r: String)
        ensures
            r@ == conflicts_label(self.conflicts),
    {
        if self.conflicts {
            String::from_str("Yes")
        } else {
            String::from_str("No")
        }
    }
}

} // verus!
