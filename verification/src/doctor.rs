//! Diagnosis: whether the user belongs to the group that may read input
//! devices, told from the text of the system's group file.

use crate::text::has_prefix;
use crate::text::same_chars;
use crate::text::split;
use crate::text::split_bounds;
use crate::text::to_chars;
use vstd::prelude::*;

verus! {

/// Calls `whoami::username`, which asks the operating system for the name
/// of the user. Nothing is claimed of the name.
#[verifier::external_body]
fn user_name() -> (name: String) {
    whoami::username()
}

/// Line `k` of `text`: the piece between line feeds, without the carriage
/// return that stands before the line feed, if one does.
pub open spec fn line_at(text: Seq<char>, k: int) -> Seq<char> {
    let pieces = split(text, '\n');
    if k < pieces.len() - 1 && pieces[k].len() > 0 && pieces[k].last() == '\r' {
        pieces[k].drop_last()
    } else {
        pieces[k]
    }
}

/// Field `n` of a line of fields that colons divide; empty where the line
/// has no such field.
pub open spec fn field(line: Seq<char>, n: int) -> Seq<char> {
    if 0 <= n < split(line, ':').len() {
        split(line, ':')[n]
    } else {
        Seq::empty()
    }
}

/// Whether `user` is one of the names that commas divide in `members`.
pub open spec fn lists(members: Seq<char>, user: Seq<char>) -> bool {
    exists|j: int| 0 <= j < split(members, ',').len() && #[trigger] split(members, ',')[j] == user
}

/// Whether `line` is the entry of the group `input` and names `user` among
/// its members, which are its fourth field.
pub open spec fn names_member(line: Seq<char>, user: Seq<char>) -> bool {
    has_prefix(line, "input:"@) && lists(field(line, 3), user)
}

/// Whether some line of the group file `text` makes `user` a member of the
/// group `input`.
pub open spec fn input_member(text: Seq<char>, user: Seq<char>) -> bool {
    exists|k: int|
        0 <= k < split(text, '\n').len() && names_member(#[trigger] line_at(text, k), user)
}

/// Whether `user` is among the names of `v` from `from` to `to`, which
/// commas divide.
fn lists_user(v: &Vec<char>, from: usize, to: usize, user: &Vec<char>) -> (b: bool)
    requires
        from <= to <= v.len(),
    ensures
        b == lists(v@.subrange(from as int, to as int), user@),
{
    let ghost members = v@.subrange(from as int, to as int);
    let names = split_bounds(v, from, to, ',');
    let mut j: usize = 0;
    while j < names.len()
        invariant
            j <= names.len(),
            members == v@.subrange(from as int, to as int),
            names.len() == split(members, ',').len(),
            forall|k: int|
                0 <= k < names.len() ==> {
                    &&& from <= (#[trigger] names[k]).0 <= names[k].1 <= to
                    &&& v@.subrange(names[k].0 as int, names[k].1 as int) == split(members, ',')[k]
                },
            to <= v.len(),
            forall|k: int| 0 <= k < j ==> #[trigger] split(members, ',')[k] != user@,
        decreases names.len() - j,
    {
        let (a, b) = names[j];
        if same_chars(v, a, b, user) {
            assert(split(members, ',')[j as int] == user@);
            return true;
        }
        j += 1;
    }
    false
}

/// Whether the line of `v` from `from` to `to` is the entry of the group
/// `input` and names `user` among its members.
fn line_names(v: &Vec<char>, from: usize, to: usize, user: &Vec<char>) -> (b: bool)
    requires
        from <= to <= v.len(),
    ensures
        b == names_member(v@.subrange(from as int, to as int), user@),
{
    let ghost line = v@.subrange(from as int, to as int);
    let tag = to_chars("input:");
    proof {
        reveal_strlit("input:");
    }
    if to - from < 6 {
        return false;
    }
    assert(line.subrange(0, 6) == v@.subrange(from as int, from + 6));
    if !same_chars(v, from, from + 6, &tag) {
        return false;
    }
    let fields = split_bounds(v, from, to, ':');
    if fields.len() <= 3 {
        assert(field(line, 3) =~= Seq::<char>::empty());
        assert(v@.subrange(from as int, from as int) =~= Seq::<char>::empty());
        return lists_user(v, from, from, user);
    }
    let (a, b) = fields[3];
    lists_user(v, a, b, user)
}

/// Whether the group file `group_text` makes `user` a member of the group
/// `input`: some line begins with `input:` and lists `user` in its fourth
/// field.
pub fn is_input_member(group_text: &str, user: &str) -> (b: bool)
    ensures
        b == input_member(group_text@, user@),
{
    let v = to_chars(group_text);
    let u = to_chars(user);
    let n = v.len();
    assert(v@.subrange(0, n as int) == v@);
    let lines = split_bounds(&v, 0, n, '\n');
    let mut i: usize = 0;
    while i < lines.len()
        invariant
            i <= lines.len(),
            v@ == group_text@,
            u@ == user@,
            n == v.len(),
            lines.len() == split(v@, '\n').len(),
            forall|k: int|
                0 <= k < lines.len() ==> {
                    &&& 0 <= (#[trigger] lines[k]).0 <= lines[k].1 <= n
                    &&& v@.subrange(lines[k].0 as int, lines[k].1 as int) == split(v@, '\n')[k]
                },
            forall|k: int| 0 <= k < i ==> !names_member(#[trigger] line_at(v@, k), u@),
        decreases lines.len() - i,
    {
        let (a, b) = lines[i];
        let end = if i + 1 < lines.len() && b > a && v[b - 1] == '\r' {
            b - 1
        } else {
            b
        };
        assert(v@.subrange(a as int, end as int) == line_at(v@, i as int)) by {
            let piece = split(v@, '\n')[i as int];
            assert(piece == v@.subrange(a as int, b as int));
            if end < b {
                assert(piece.drop_last() == v@.subrange(a as int, end as int));
            }
        }
        if line_names(&v, a, end, &u) {
            return true;
        }
        i += 1;
    }
    false
}

/// Whether the group file `group_text` makes the current user, as the
/// operating system names it, a member of the group `input`.
pub fn check_in_input_group(group_text: &str) -> (b: bool)
    ensures
        exists|user: Seq<char>| b == input_member(group_text@, user),
{
    let user = user_name();
    is_input_member(group_text, user.as_str())
}

} // verus!
