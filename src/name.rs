//! Splitting an entry's name into stem and extension.
use vstd::prelude::*;
use vstd::string::*;

verus! {

/// Position of the last `.` in `s`, or -1 when there is none.
pub open spec fn last_dot(s: Seq<char>) -> int
    decreases s.len(),
{
    if s.len() == 0 {
        -1
    } else if s.last() == '.' {
        s.len() - 1
    } else {
        last_dot(s.drop_last())
    }
}

/// Whether `s` is a name that stands for no entry of its own: empty, `.` or `..`.
pub open spec fn is_bare_name(s: Seq<char>) -> bool {
    s.len() == 0 || s == seq!['.'] || s == seq!['.', '.']
}

/// The (stem, extension) pair of a name.
///
/// The extension follows the last `.` that is not the name's first character;
/// the stem is what precedes that `.`. Without such a `.` the whole name is
/// the stem and the extension is empty.
pub open spec fn split_spec(s: Seq<char>) -> Option<(Seq<char>, Seq<char>)> {
    if is_bare_name(s) {
        None
    } else if last_dot(s) <= 0 {
        Some((s, Seq::<char>::empty()))
    } else {
        Some((s.subrange(0, last_dot(s)), s.subrange(last_dot(s) + 1, s.len() as int)))
    }
}

/// The name made of a stem and an extension: `stem.ext`, or the bare stem when
/// the extension is empty.
pub open spec fn join_spec(stem: Seq<char>, ext: Seq<char>) -> Seq<char> {
    if ext.len() == 0 {
        stem
    } else {
        stem + seq!['.'] + ext
    }
}

pub proof fn lemma_last_dot(s: Seq<char>)
    ensures
        -1 <= last_dot(s) < s.len(),
        last_dot(s) >= 0 ==> s[last_dot(s)] == '.',
        forall|j: int| last_dot(s) < j < s.len() ==> s[j] != '.',
    decreases s.len(),
{
    if s.len() > 0 && s.last() != '.' {
        let t = s.drop_last();
        lemma_last_dot(t);
        assert forall|j: int| last_dot(s) < j < s.len() implies s[j] != '.' by {
            if j < t.len() {
                assert(s[j] == t[j]);
            }
        }
    }
}

/// A name whose only `.` is, if anywhere, its first character has an empty
/// extension, and its stem is the whole name.
pub proof fn lemma_split_no_dot(s: Seq<char>)
    requires
        !is_bare_name(s),
        forall|j: int| 0 < j < s.len() ==> s[j] != '.',
    ensures
        split_spec(s) == Some((s, Seq::<char>::empty())),
{
    lemma_last_dot(s);
}

/// Joining the stem and a non-empty extension of a name gives a name that
/// splits the same way.
pub proof fn lemma_split_join(s: Seq<char>, stem: Seq<char>, ext: Seq<char>)
    requires
        split_spec(s) == Some((stem, ext)),
        ext.len() > 0,
    ensures
        split_spec(join_spec(stem, ext)) == Some((stem, ext)),
{
    lemma_last_dot(s);
    assert(stem + seq!['.'] + ext =~= s);
}

/// Splits a name into its stem and its extension; `None` for a name that
/// has no stem (empty, `.` or `..`).
pub fn split_name(name: &str) -> (r: Option<(String, String)>)
    ensures
        r matches Some((stem, ext)) ==> split_spec(name@) == Some((stem@, ext@)),
        r is None <==> split_spec(name@) is None,
{
    let n = name.unicode_len();
    if n == 0 {
        return None;
    }
    if n <= 2 {
        let c0 = name.get_char(0);
        if n == 1 && c0 == '.' {
            assert(name@ =~= seq!['.']);
            return None;
        }
        if n == 2 && c0 == '.' && name.get_char(1) == '.' {
            assert(name@ =~= seq!['.', '.']);
            return None;
        }
    }
    assert(!is_bare_name(name@));
    let mut i: usize = n;
    assert(name@.subrange(0, n as int) =~= name@);
    while i > 0 && name.get_char(i - 1) != '.'
        invariant
            0 <= i <= n,
            n == name@.len(),
            last_dot(name@) == last_dot(name@.subrange(0, i as int)),
        decreases i,
    {
        assert(name@.subrange(0, i as int).drop_last() =~= name@.subrange(0, i - 1));
        i = i - 1;
    }
    proof {
        if i > 0 {
            assert(name@.subrange(0, i as int).last() == '.');
        } else {
            assert(name@.subrange(0, 0) =~= Seq::<char>::empty());
        }
    }
    if i <= 1 {
        Some((name.to_owned(), String::new()))
    } else {
        let stem = name.substring_char(0, i - 1).to_owned();
        let ext = name.substring_char(i, n).to_owned();
        Some((stem, ext))
    }
}

/// The name of a stem and an extension: `stem.ext`, or the stem alone when
/// the extension is empty.
pub fn join_name(stem: &str, ext: &str) -> (r: String)
    ensures
        r@ == join_spec(stem@, ext@),
{
    let s = String::from_str(stem);
    proof {
        reveal_strlit(".");
    }
    if ext.unicode_len() == 0 {
        s
    } else {
        s.concat(".").concat(ext)
    }
}

} // verus!
