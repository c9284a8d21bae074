//! Paths are held as strings. Joining follows the rules of a Unix path: an absolute
//! segment replaces the base, otherwise one separator stands between base and segment.
use vstd::prelude::*;

verus! {

/// The path that `base` joined with `segment` denotes.
pub open spec fn join_spec(base: Seq<char>, segment: Seq<char>) -> Seq<char> {
    if segment.len() > 0 && segment[0] == '/' {
        segment
    } else if base.len() == 0 || base.last() == '/' {
        base + segment
    } else {
        base + seq!['/'] + segment
    }
}

/// Joins `segment` onto `base`.
pub fn join_path(base: &str, segment: &str) -> (joined: String)
    ensures
        joined@ == join_spec(base@, segment@),
{
    let segment_len = segment.unicode_len();
    if segment_len > 0 && segment.get_char(0) == '/' {
        return String::from_str(segment);
    }
    let base_len = base.unicode_len();
    let mut joined = String::from_str(base);
    if base_len > 0 && base.get_char(base_len - 1) != '/' {
        proof {
            reveal_strlit("/");
        }
        joined.append("/");
    }
    joined.append(segment);
    joined
}


/// The position of the last '.' in `s`, or -1 when there is none.
pub open spec fn last_dot(s: Seq<char>) -> int
    decreases s.len(),
{
    if s.len() == 0 {
        -1
    } else if s.last() == '.' {
        s.len() - 1
    } else {
        last_dot(s.drop_last())
    }
}

/// What `last_dot` finds.
pub proof fn lemma_last_dot(s: Seq<char>)
    ensures
        -1 <= last_dot(s) < s.len(),
        last_dot(s) >= 0 ==> s[last_dot(s)] == '.',
        forall|j: int| last_dot(s) < j < s.len() ==> s[j] != '.',
    decreases s.len(),
{
    if s.len() > 0 && s.last() != '.' {
        lemma_last_dot(s.drop_last());
        assert forall|j: int| last_dot(s) < j < s.len() implies s[j] != '.' by {
            if j < s.len() - 1 {
                assert(s.drop_last()[j] == s[j]);
            }
        }
    }
}

/// The file name "..", which has neither stem nor extension of its own.
pub open spec fn is_parent_name(name: Seq<char>) -> bool {
    name == seq!['.', '.']
}

/// The stem of a file name: the part before its last '.', or the whole name when it has no
/// '.' after its first character (so ".hidden" is its own stem).
pub open spec fn file_stem_spec(name: Seq<char>) -> Seq<char> {
    if is_parent_name(name) || last_dot(name) <= 0 {
        name
    } else {
        name.subrange(0, last_dot(name))
    }
}

/// The extension of a file name: the part after its last '.', when that '.' is not its first
/// character.
pub open spec fn extension_spec(name: Seq<char>) -> Option<Seq<char>> {
    if is_parent_name(name) || last_dot(name) <= 0 {
        None
    } else {
        Some(name.subrange(last_dot(name) + 1, name.len() as int))
    }
}

/// Splits a file name into its stem and its extension.
pub fn file_name_parts(name: &str) -> (parts: (String, Option<String>))
    ensures
        parts.0@ == file_stem_spec(name@),
        match parts.1 {
            Some(extension) => extension_spec(name@) == Some(extension@),
            None => extension_spec(name@) is None,
        },
{
    let n = name.unicode_len();
    if n == 2 && name.get_char(0) == '.' && name.get_char(1) == '.' {
        assert(name@ =~= seq!['.', '.']);
        return (String::from_str(name), None);
    }
    proof {
        lemma_last_dot(name@);
    }
    let mut i: usize = n;
    let mut dot: Option<usize> = None;
    while i > 0
        invariant_except_break
            dot is None,
        invariant
            n == name@.len(),
            i <= n,
            forall|j: int| i <= j < n ==> name@[j] != '.',
        ensures
            dot is None ==> i == 0,
            dot matches Some(d) ==> d < n && name@[d as int] == '.' && forall|j: int|
                d < j < n ==> name@[j] != '.',
        decreases i,
    {
        if name.get_char(i - 1) == '.' {
            dot = Some(i - 1);
            break;
        }
        i = i - 1;
    }
    match dot {
        Some(d) => {
            assert(name@[d as int] == '.');
            assert(last_dot(name@) == d);
            if d == 0 {
                (String::from_str(name), None)
            } else {
                let stem = name.substring_char(0, d);
                let extension = name.substring_char(d + 1, n);
                (String::from_str(stem), Some(String::from_str(extension)))
            }
        },
        None => {
            assert(last_dot(name@) == -1);
            (String::from_str(name), None)
        },
    }
}

} // verus!
