//! Command lines recorded in the append-only replay log, and the rule that
//! keeps the log free of repeated lines.
use vstd::prelude::*;

use crate::text::{
    chars_of, is_ws, lemma_last_line, lines_of, same_chars, split_lines, string_of, strip_cr,
    trim_end_ws, trim_str, trim_ws,
};

verus! {

/// `use <alias> <remote>`.
pub open spec fn use_command(alias: Seq<char>, remote: Seq<char>) -> Seq<char> {
    "use "@ + alias + seq![' '] + remote
}

/// `patch <spec> <path>`.
pub open spec fn patch_command(spec: Seq<char>, path: Seq<char>) -> Seq<char> {
    "patch "@ + spec + seq![' '] + path
}

/// The command that registers remote `alias` at `remote`.
pub fn command_use(alias: &str, remote: &str) -> (r: String)
    ensures
        r@ == use_command(alias@, remote@),
{
    proof {
        reveal_strlit(" ");
    }
    String::from_str("use ").concat(alias).concat(" ").concat(remote)
}

/// The command that vendors `spec` into `path`.
pub fn command_patch(spec: &str, path: &str) -> (r: String)
    ensures
        r@ == patch_command(spec@, path@),
{
    proof {
        reveal_strlit(" ");
    }
    String::from_str("patch ").concat(spec).concat(" ").concat(path)
}

/// A command as the log records it: `cross <command>`.
pub open spec fn log_line(command: Seq<char>) -> Seq<char> {
    "cross "@ + command
}

/// The log line of a command.
pub fn crossfile_line(command: &str) -> (r: String)
    ensures
        r@ == log_line(command@),
{
    String::from_str("cross ").concat(command)
}

/// The log after appending `line`: a '\n' first when the log is non-empty
/// and does not end with one, then the line and a '\n'.
pub open spec fn appended(content: Seq<char>, line: Seq<char>) -> Seq<char> {
    let sep = if content.len() > 0 && content.last() != '\n' {
        seq!['\n']
    } else {
        Seq::<char>::empty()
    };
    content + sep + line + seq!['\n']
}

/// Some line of the log equals `line` once both are trimmed.
pub open spec fn already_recorded(content: Seq<char>, line: Seq<char>) -> bool {
    exists|k: int|
        0 <= k < lines_of(content).len() && trim_ws(#[trigger] lines_of(content)[k]) == trim_ws(line)
}

/// A line appended to the log counts as recorded in the text that results,
/// so recording the same line again leaves the log unchanged.
pub proof fn lemma_appended_is_recorded(content: Seq<char>, line: Seq<char>)
    requires
        !line.contains('\n'),
    ensures
        already_recorded(appended(content, line), line),
{
    let sep = if content.len() > 0 && content.last() != '\n' {
        seq!['\n']
    } else {
        Seq::<char>::empty()
    };
    let p = content + sep;
    assert(p.len() == 0 || p.last() == '\n');
    assert(appended(content, line) =~= p + line + seq!['\n']);
    lemma_last_line(p, line);
    let ls = lines_of(appended(content, line));
    let k = ls.len() - 1;
    assert(trim_ws(ls[k]) == trim_ws(line)) by {
        if line.len() > 0 && line.last() == '\r' {
            assert(is_ws(line.last()));
            assert(trim_end_ws(line) == trim_end_ws(line.drop_last()));
        }
    }
}

/// Appends `line` to the log text (see [`appended`]).
pub fn append_line(content: &str, line: &str) -> (r: String)
    ensures
        r@ == appended(content@, line@),
{
    proof {
        reveal_strlit("\n");
    }
    let v = chars_of(content);
    let base = String::from_str(content);
    let with_sep = if v.len() > 0 && v[v.len() - 1] != '\n' {
        base.concat("\n")
    } else {
        base
    };
    with_sep.concat(line).concat("\n")
}

/// Whether `wanted` is among `lines` (all already trimmed).
pub fn contains_line(lines: &Vec<String>, wanted: &str) -> (r: bool)
    ensures
        r == exists|k: int| 0 <= k < lines@.len() && (#[trigger] lines@[k])@ == wanted@,
{
    let w = chars_of(wanted);
    let mut k: usize = 0;
    while k < lines.len()
        invariant
            k <= lines.len(),
            w@ == wanted@,
            forall|j: int| 0 <= j < k ==> (#[trigger] lines@[j])@ != wanted@,
        decreases lines.len() - k,
    {
        let l = chars_of(lines[k].as_str());
        if same_chars(&l, &w) {
            return true;
        }
        k = k + 1;
    }
    false
}

/// The log text after recording `line`: `None` when a line equal to it
/// (once both are trimmed) is already there, otherwise the text with the
/// line appended.
pub fn crossfile_update(content: &str, line: &str) -> (r: Option<String>)
    ensures
        r is None <==> already_recorded(content@, line@),
        r is Some ==> r->0@ == appended(content@, line@),
        r is Some && !line@.contains('\n') ==> already_recorded(r->0@, line@),
{
    let lines = split_lines(content);
    let ghost ls = lines_of(content@);
    let mut trimmed_lines: Vec<String> = Vec::new();
    let mut k: usize = 0;
    while k < lines.len()
        invariant
            k <= lines.len(),
            lines@.map_values(|l: Vec<char>| l@) == ls,
            trimmed_lines@.len() == k,
            forall|j: int| 0 <= j < k ==> (#[trigger] trimmed_lines@[j])@ == trim_ws(ls[j]),
        decreases lines.len() - k,
    {
        let s = string_of(lines[k].as_slice());
        assert(s@ == ls[k as int]);
        let t = trim_str(s.as_str());
        trimmed_lines.push(String::from_str(t));
        k = k + 1;
    }
    let wanted = trim_str(line);
    let found = contains_line(&trimmed_lines, wanted);
    proof {
        assert(ls.len() == lines@.len());
        if found {
            let j = choose|j: int| 0 <= j < trimmed_lines@.len() && (#[trigger] trimmed_lines@[j])@ == wanted@;
            assert(trim_ws(ls[j]) == trim_ws(line@));
        }
        if already_recorded(content@, line@) {
            let j = choose|j: int| 0 <= j < ls.len() && trim_ws(#[trigger] ls[j]) == trim_ws(line@);
            assert(trimmed_lines@[j]@ == wanted@);
        }
    }
    if found {
        None
    } else {
        proof {
            if !line@.contains('\n') {
                lemma_appended_is_recorded(content@, line@);
            }
        }
        Some(append_line(content, line))
    }
}

} // verus!
