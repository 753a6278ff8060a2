//! The profiles on disk: which files of the profiles directory are
//! profiles, and their names in order.

use crate::text::slice;
use crate::text::same_chars;
use crate::text::to_chars;
use vstd::prelude::*;
use vstd::seq_lib::to_multiset_remove;

verus! {

/// The index of the last dot of `s`; -1 where it has none.
pub open spec fn last_dot(s: Seq<char>) -> int
    decreases s.len(),
{
    if s.len() == 0 {
        -1
    } else if s.last() == '.' {
        s.len() - 1
    } else {
        last_dot(s.drop_last())
    }
}

/// The name of the profile that the file `file_name` holds, if it is a
/// profile: what stands before the last dot, where `toml` follows the dot
/// and the dot is not the first character.
pub open spec fn stem_of(file_name: Seq<char>) -> Option<Seq<char>> {
    let dot = last_dot(file_name);
    if dot > 0 && file_name.subrange(dot + 1, file_name.len() as int) == "toml"@ {
        Some(file_name.subrange(0, dot))
    } else {
        None
    }
}

/// The profile names among the first `n` file names, in their order.
pub open spec fn stems(files: Seq<String>, n: int) -> Seq<Seq<char>>
    decreases n,
{
    if n <= 0 {
        Seq::empty()
    } else {
        match stem_of(files[n - 1]@) {
            Some(stem) => stems(files, n - 1).push(stem),
            None => stems(files, n - 1),
        }
    }
}

/// Whether `a` comes before `b` in the order of the dictionary, or is `b`:
/// the first character in which they differ decides, and a text comes
/// before those that it begins.
pub open spec fn lex_le(a: Seq<char>, b: Seq<char>) -> bool
    decreases a.len(),
{
    if a.len() == 0 {
        true
    } else if b.len() == 0 {
        false
    } else if a[0] != b[0] {
        a[0] < b[0]
    } else {
        lex_le(a.drop_first(), b.drop_first())
    }
}

/// Whether the texts of `s` stand in the order of the dictionary.
pub open spec fn sorted(s: Seq<Seq<char>>) -> bool {
    forall|i: int, j: int| 0 <= i < j < s.len() ==> lex_le(#[trigger] s[i], #[trigger] s[j])
}

/// The views of the texts of `v`, in order.
pub open spec fn texts(v: Seq<String>) -> Seq<Seq<char>> {
    Seq::new(v.len(), |k: int| v[k]@)
}

/// Of two texts one comes before the other, or they are the same.
pub proof fn lemma_lex_total(a: Seq<char>, b: Seq<char>)
    ensures
        lex_le(a, b) || lex_le(b, a),
    decreases a.len(),
{
    if a.len() > 0 && b.len() > 0 && a[0] == b[0] {
        lemma_lex_total(a.drop_first(), b.drop_first());
    }
}

/// The order of the dictionary is transitive.
pub proof fn lemma_lex_trans(a: Seq<char>, b: Seq<char>, c: Seq<char>)
    requires
        lex_le(a, b),
        lex_le(b, c),
    ensures
        lex_le(a, c),
    decreases a.len(),
{
    if a.len() > 0 && b.len() > 0 && c.len() > 0 {
        if a[0] == b[0] && b[0] == c[0] {
            lemma_lex_trans(a.drop_first(), b.drop_first(), c.drop_first());
        }
    }
}

/// Computes `last_dot` for the characters of `v`.
fn find_last_dot(v: &Vec<char>) -> (r: Option<usize>)
    ensures
        match r {
            Some(i) => last_dot(v@) == i && i < v.len(),
            None => last_dot(v@) == -1,
        },
{
    let mut i: usize = v.len();
    assert(v@.take(i as int) == v@);
    while i > 0
        invariant
            i <= v.len(),
            last_dot(v@) == last_dot(v@.take(i as int)),
        decreases i,
    {
        assert(v@.take(i as int).last() == v@[i - 1]);
        if v[i - 1] == '.' {
            return Some(i - 1);
        }
        assert(v@.take(i as int).drop_last() == v@.take(i - 1));
        i -= 1;
    }
    None
}

/// The name of the profile that the file `file_name` holds, if it is a
/// profile.
pub fn profile_stem(file_name: &str) -> (r: Option<String>)
    ensures
        match r {
            Some(stem) => stem_of(file_name@) == Some(stem@),
            None => stem_of(file_name@) is None,
        },
{
    let v = to_chars(file_name);
    match find_last_dot(&v) {
        Some(dot) => {
            let ext = to_chars("toml");
            if dot > 0 && same_chars(&v, dot + 1, v.len(), &ext) {
                Some(slice(file_name, 0, dot))
            } else {
                None
            }
        },
        None => None,
    }
}

/// Computes `lex_le`.
pub fn text_le(a: &str, b: &str) -> (le: bool)
    ensures
        le == lex_le(a@, b@),
{
    let x = to_chars(a);
    let y = to_chars(b);
    let mut i: usize = 0;
    assert(x@.skip(0) == x@);
    assert(y@.skip(0) == y@);
    while i < x.len() && i < y.len()
        invariant
            i <= x.len(),
            i <= y.len(),
            x@ == a@,
            y@ == b@,
            lex_le(x@, y@) == lex_le(x@.skip(i as int), y@.skip(i as int)),
        decreases x.len() - i,
    {
        assert(x@.skip(i as int).len() > 0 && y@.skip(i as int).len() > 0);
        assert(x@.skip(i as int)[0] == x@[i as int]);
        assert(y@.skip(i as int)[0] == y@[i as int]);
        if x[i] != y[i] {
            return x[i] < y[i];
        }
        assert(x@.skip(i as int).drop_first() == x@.skip(i + 1));
        assert(y@.skip(i as int).drop_first() == y@.skip(i + 1));
        i += 1;
    }
    assert(x@.skip(i as int).len() == x.len() - i);
    assert(y@.skip(i as int).len() == y.len() - i);
    i == x.len()
}

/// Puts `name` into the sorted list `names` at its place.
fn insert_sorted(names: &mut Vec<String>, name: String)
    requires
        sorted(texts(old(names)@)),
    ensures
        sorted(texts(final(names)@)),
        texts(final(names)@).to_multiset() == texts(old(names)@).to_multiset().insert(name@),
{
    let ghost before = texts(names@);
    let mut i: usize = 0;
    while i < names.len() && text_le(names[i].as_str(), name.as_str())
        invariant
            i <= names.len(),
            before == texts(names@),
            forall|k: int| 0 <= k < i ==> lex_le(#[trigger] before[k], name@),
        decreases names.len() - i,
    {
        i += 1;
    }
    let ghost at = i as int;
    proof {
        if at < before.len() {
            lemma_lex_total(before[at], name@);
        }
    }
    names.insert(i, name);
    let ghost after = texts(names@);
    assert(after =~= before.insert(at, name@));
    assert(sorted(after)) by {
        assert forall|p: int, q: int| 0 <= p < q < after.len() implies lex_le(
            #[trigger] after[p],
            #[trigger] after[q],
        ) by {
            if q < at {
                assert(after[p] == before[p] && after[q] == before[q]);
            } else if q == at {
                assert(after[p] == before[p]);
            } else if p < at {
                assert(after[p] == before[p] && after[q] == before[q - 1]);
                assert(lex_le(before[p], before[q - 1]));
            } else if p == at {
                assert(after[q] == before[q - 1]);
                assert(lex_le(name@, before[at]));
                if q - 1 > at {
                    assert(lex_le(before[at], before[q - 1]));
                    lemma_lex_trans(name@, before[at], before[q - 1]);
                }
            } else {
                assert(after[p] == before[p - 1] && after[q] == before[q - 1]);
            }
        }
    }
    proof {
        to_multiset_remove(after, at);
        after.to_multiset_ensures();
        assert(after.remove(at) =~= before);
        assert(after[at] == name@);
        assert(after.contains(name@));
        assert(after.to_multiset() =~= before.to_multiset().insert(name@));
    }
}

/// The names of the profiles among the files of the profiles directory, in
/// the order of the dictionary. A file is a profile where its name ends in
/// `.toml`; the profile's name is what stands before.
pub fn list_profiles(file_names: &Vec<String>) -> (names: Vec<String>)
    ensures
        sorted(texts(names@)),
        texts(names@).to_multiset() == stems(file_names@, file_names@.len() as int).to_multiset(),
{
    let mut names: Vec<String> = Vec::new();
    let mut i: usize = 0;
    assert(texts(names@) =~= stems(file_names@, 0));
    while i < file_names.len()
        invariant
            i <= file_names.len(),
            sorted(texts(names@)),
            texts(names@).to_multiset() == stems(file_names@, i as int).to_multiset(),
        decreases file_names.len() - i,
    {
        match profile_stem(file_names[i].as_str()) {
            Some(stem) => {
                proof {
                    vstd::seq_lib::to_multiset_build(stems(file_names@, i as int), stem@);
                }
                insert_sorted(&mut names, stem);
            },
            None => {},
        }
        i += 1;
    }
    names
}

} // verus!
