//! The rules that rewrite a stem.
use vstd::prelude::*;
use vstd::string::*;
use crate::name::is_bare_name;
use crate::text::{hash_of, hash_text, is_space, is_white_space, lower_of, to_lower, to_upper, upper_of};

verus! {

/// `s` with every non-overlapping occurrence of `old`, taken from left to
/// right, replaced by `new`. An empty `old` occurs before every character
/// and at the end.
pub open spec fn replace_spec(s: Seq<char>, old: Seq<char>, new: Seq<char>) -> Seq<char>
    decreases s.len(),
{
    if s.len() == 0 {
        if old.len() == 0 {
            new
        } else {
            s
        }
    } else if old.len() == 0 {
        new + seq![s[0]] + replace_spec(s.drop_first(), old, new)
    } else if old.len() <= s.len() && s.subrange(0, old.len() as int) == old {
        new + replace_spec(s.subrange(old.len() as int, s.len() as int), old, new)
    } else {
        seq![s[0]] + replace_spec(s.drop_first(), old, new)
    }
}

/// The number of occurrences of a non-empty `old` that `replace_spec` replaces.
pub open spec fn count_spec(s: Seq<char>, old: Seq<char>) -> nat
    decreases s.len(),
{
    if s.len() == 0 || old.len() == 0 {
        0
    } else if old.len() <= s.len() && s.subrange(0, old.len() as int) == old {
        1 + count_spec(s.subrange(old.len() as int, s.len() as int), old)
    } else {
        count_spec(s.drop_first(), old)
    }
}

/// Whether `old` occurs in `s` at position `i`.
fn occurs_at(s: &str, i: usize, old: &str) -> (r: bool)
    requires
        i <= s@.len(),
    ensures
        r == (i + old@.len() <= s@.len() && s@.subrange(i as int, i + old@.len()) == old@),
{
    let n = s.unicode_len();
    let m = old.unicode_len();
    if m > n - i {
        return false;
    }
    let mut j: usize = 0;
    while j < m
        invariant
            j <= m,
            m == old@.len(),
            n == s@.len(),
            i + m <= n,
            forall|k: int| 0 <= k < j ==> s@[i + k] == old@[k],
        decreases m - j,
    {
        if s.get_char(i + j) != old.get_char(j) {
            assert(s@.subrange(i as int, i + m)[j as int] != old@[j as int]);
            return false;
        }
        j = j + 1;
    }
    assert(s@.subrange(i as int, i + m) =~= old@);
    true
}

/// The rest of `s` from `i` on.
spec fn tail(s: Seq<char>, i: int) -> Seq<char> {
    s.subrange(i, s.len() as int)
}

/// Replaces every non-overlapping occurrence of `old` in `stem`, from left to
/// right, by `new`.
pub fn replace(stem: &str, old: &str, new: &str) -> (r: String)
    ensures
        r@ == replace_spec(stem@, old@, new@),
{
    let n = stem.unicode_len();
    let m = old.unicode_len();
    let mut out = String::new();
    let mut i: usize = 0;
    assert(tail(stem@, 0) =~= stem@);
    while i < n
        invariant
            i <= n,
            n == stem@.len(),
            m == old@.len(),
            out@ + replace_spec(tail(stem@, i as int), old@, new@) == replace_spec(stem@, old@, new@),
        decreases n - i,
    {
        let t = Ghost(tail(stem@, i as int));
        let t1 = Ghost(tail(stem@, i + 1));
        assert(t@.drop_first() =~= t1@);
        assert(t@[0] == stem@[i as int]);
        proof {
            if i + m <= n {
                assert(t@.subrange(0, m as int) =~= stem@.subrange(i as int, i + m));
            }
        }
        if m > 0 && occurs_at(stem, i, old) {
            assert(t@.subrange(m as int, t@.len() as int) =~= tail(stem@, i + m));
            let ghost prev = out@;
            out = out.concat(new);
            assert(prev + replace_spec(t@, old@, new@) =~= out@ + replace_spec(tail(stem@, i + m), old@, new@));
            i = i + m;
        } else {
            let c = stem.substring_char(i, i + 1);
            assert(c@ =~= seq![stem@[i as int]]);
            let ghost prev = out@;
            if m == 0 {
                out = out.concat(new);
            }
            out = out.concat(c);
            assert(prev + replace_spec(t@, old@, new@) =~= out@ + replace_spec(t1@, old@, new@));
            i = i + 1;
        }
    }
    assert(tail(stem@, n as int) =~= Seq::<char>::empty());
    if m == 0 {
        out = out.concat(new);
    }
    out
}

/// Removes every non-overlapping occurrence of `sub` from `stem`: a
/// replacement by the empty text.
pub fn remove(stem: &str, sub: &str) -> (r: String)
    ensures
        r@ == replace_spec(stem@, sub@, Seq::<char>::empty()),
{
    let empty = "";
    proof {
        reveal_strlit("");
    }
    assert(empty@ =~= Seq::<char>::empty());
    replace(stem, sub, empty)
}

/// Replacing the `k` occurrences of a non-empty `old` takes `k` copies of
/// `old` out of the stem and puts `k` copies of `new` in.
pub proof fn lemma_replace_len(s: Seq<char>, old: Seq<char>, new: Seq<char>)
    requires
        old.len() > 0,
    ensures
        replace_spec(s, old, new).len() + count_spec(s, old) * old.len()
            == s.len() + count_spec(s, old) * new.len(),
    decreases s.len(),
{
    let o = old.len() as int;
    let w = new.len() as int;
    let total = count_spec(s, old) as int;
    if s.len() == 0 {
        assert(total == 0);
        assert(replace_spec(s, old, new) == s);
        assert(total * o == 0 && total * w == 0);
    } else if old.len() <= s.len() && s.subrange(0, old.len() as int) == old {
        let rest = s.subrange(old.len() as int, s.len() as int);
        lemma_replace_len(rest, old, new);
        let c = count_spec(rest, old) as int;
        let r = replace_spec(s, old, new).len() as int;
        let r1 = replace_spec(rest, old, new).len() as int;
        let l = s.len() as int;
        assert(total == 1 + c);
        assert(r == w + r1);
        assert(rest.len() == l - o);
        assert(r + total * o == l + total * w) by (nonlinear_arith)
            requires
                total == 1 + c,
                r == w + r1,
                r1 + c * o == (l - o) + c * w,
        ;
    } else {
        lemma_replace_len(s.drop_first(), old, new);
        let c = count_spec(s.drop_first(), old) as int;
        let r = replace_spec(s, old, new).len() as int;
        let r1 = replace_spec(s.drop_first(), old, new).len() as int;
        let l = s.len() as int;
        assert(total == c);
        assert(r == 1 + r1);
        assert(r + total * o == l + total * w) by (nonlinear_arith)
            requires
                total == c,
                r == 1 + r1,
                r1 + c * o == (l - 1) + c * w,
        ;
    }
}

/// The texts of `parts` joined with `sep` between each two.
pub open spec fn join_parts(parts: Seq<Seq<char>>, sep: Seq<char>) -> Seq<char>
    decreases parts.len(),
{
    if parts.len() == 0 {
        Seq::<char>::empty()
    } else if parts.len() == 1 {
        parts[0]
    } else {
        parts[0] + sep + join_parts(parts.drop_first(), sep)
    }
}

/// Whether no occurrence of `old` in `t` starts before position `n`.
pub open spec fn no_match_before(t: Seq<char>, old: Seq<char>, n: int) -> bool {
    forall|p: int|
        0 <= p < n && p + old.len() <= t.len() ==> #[trigger] t.subrange(p, p + old.len()) != old
}

/// Text with no occurrence of `old` in front of `rest` is kept as it is.
pub proof fn lemma_replace_skip(u: Seq<char>, rest: Seq<char>, old: Seq<char>, new: Seq<char>)
    requires
        old.len() > 0,
        no_match_before(u + rest, old, u.len() as int),
    ensures
        replace_spec(u + rest, old, new) == u + replace_spec(rest, old, new),
    decreases u.len(),
{
    let t = u + rest;
    if u.len() == 0 {
        assert(t =~= rest);
    } else {
        let m = old.len() as int;
        if m <= t.len() {
            let z: int = 0;
            assert(t.subrange(z, z + old.len()) != old);
            assert(t.subrange(0, m) != old);
        }
        let u1 = u.drop_first();
        assert(t.drop_first() =~= u1 + rest);
        assert forall|p: int|
            0 <= p < u1.len() && p + m <= (u1 + rest).len() implies #[trigger] (u1
            + rest).subrange(p, p + m) != old by {
            assert((u1 + rest).subrange(p, p + m) =~= t.subrange(p + 1, p + 1 + m));
        }
        lemma_replace_skip(u1, rest, old, new);
        assert(seq![t[0]] + (u1 + replace_spec(rest, old, new)) =~= u + replace_spec(rest, old, new));
    }
}

/// Where a stem is `u0 + old + u1 + ... + old + uk`, each `old` there being
/// the leftmost occurrence from where the last one ended and `uk` holding
/// none, replacing `old` by `new` gives `u0 + new + u1 + ... + new + uk`.
pub proof fn lemma_replace_parts(parts: Seq<Seq<char>>, old: Seq<char>, new: Seq<char>)
    requires
        old.len() > 0,
        parts.len() >= 1,
        forall|i: int|
            0 <= i < parts.len() - 1 ==> no_match_before(
                #[trigger] parts[i] + old,
                old,
                parts[i].len() as int,
            ),
        no_match_before(parts.last(), old, parts.last().len() as int),
    ensures
        replace_spec(join_parts(parts, old), old, new) == join_parts(parts, new),
    decreases parts.len(),
{
    let u = parts[0];
    let m = old.len() as int;
    if parts.len() == 1 {
        assert(u + Seq::<char>::empty() =~= u);
        assert(replace_spec(Seq::<char>::empty(), old, new) == Seq::<char>::empty());
        lemma_replace_skip(u, Seq::<char>::empty(), old, new);
        assert(u + Seq::<char>::empty() =~= u);
    } else {
        let rest = parts.drop_first();
        let tail_old = join_parts(rest, old);
        let whole = old + tail_old;
        assert(u + old + tail_old =~= u + whole);
        assert forall|p: int|
            0 <= p < u.len() && p + m <= (u + whole).len() implies #[trigger] (u + whole).subrange(
            p,
            p + m,
        ) != old by {
            assert((u + whole).subrange(p, p + m) =~= (u + old).subrange(p, p + m));
            assert(no_match_before(parts[0] + old, old, parts[0].len() as int));
        }
        lemma_replace_skip(u, whole, old, new);
        assert(whole.subrange(0, m) =~= old);
        assert(whole.subrange(m, whole.len() as int) =~= tail_old);
        assert forall|i: int| 0 <= i < rest.len() - 1 implies no_match_before(
            #[trigger] rest[i] + old,
            old,
            rest[i].len() as int,
        ) by {
            assert(rest[i] == parts[i + 1]);
            assert(no_match_before(parts[i + 1] + old, old, parts[i + 1].len() as int));
        }
        assert(rest.last() == parts.last());
        lemma_replace_parts(rest, old, new);
        assert(u + (new + join_parts(rest, new)) =~= u + new + join_parts(rest, new));
    }
}

/// Puts `p` in front of `stem`.
pub fn prefix(stem: &str, p: &str) -> (r: String)
    ensures
        r@ == p@ + stem@,
{
    String::from_str(p).concat(stem)
}

/// Puts `sx` after `stem`.
pub fn suffix(stem: &str, sx: &str) -> (r: String)
    ensures
        r@ == stem@ + sx@,
{
    String::from_str(stem).concat(sx)
}

/// Taking the first `p.len()` characters off a prefixed stem gives the stem back.
pub proof fn lemma_prefix_strip(stem: Seq<char>, p: Seq<char>)
    ensures
        (p + stem).subrange(p.len() as int, (p + stem).len() as int) == stem,
        (p + stem).subrange(0, p.len() as int) == p,
{
    assert((p + stem).subrange(p.len() as int, (p + stem).len() as int) =~= stem);
    assert((p + stem).subrange(0, p.len() as int) =~= p);
}

/// The character of a decimal digit.
pub open spec fn digit_char(d: nat) -> char {
    if d == 0 { '0' }
    else if d == 1 { '1' }
    else if d == 2 { '2' }
    else if d == 3 { '3' }
    else if d == 4 { '4' }
    else if d == 5 { '5' }
    else if d == 6 { '6' }
    else if d == 7 { '7' }
    else if d == 8 { '8' }
    else { '9' }
}

/// The decimal digits of `n`, most significant first, without leading zeros.
pub open spec fn decimal_spec(n: nat) -> Seq<char>
    decreases n,
{
    if n < 10 {
        seq![digit_char(n)]
    } else {
        decimal_spec(n / 10) + seq![digit_char(n % 10)]
    }
}

/// One decimal digit as a text.
fn digit_text(d: u64) -> (r: &'static str)
    requires
        d < 10,
    ensures
        r@ == seq![digit_char(d as nat)],
{
    let digits = "0123456789";
    proof {
        reveal_strlit("0123456789");
    }
    let k = d as usize;
    let r = digits.substring_char(k, k + 1);
    assert(r@ =~= seq![digits@[k as int]]);
    r
}

/// `n` written in decimal.
pub fn to_decimal(n: u64) -> (r: String)
    ensures
        r@ == decimal_spec(n as nat),
{
    let mut out = String::from_str(digit_text(n % 10));
    let mut rest: u64 = n / 10;
    while rest > 0
        invariant
            rest == 0 ==> out@ == decimal_spec(n as nat),
            rest > 0 ==> decimal_spec(n as nat) == decimal_spec(rest as nat) + out@,
        decreases rest,
    {
        let ghost prev = out@;
        out = String::from_str(digit_text(rest % 10)).concat(out.as_str());
        proof {
            if rest >= 10 {
                assert(decimal_spec(rest as nat) + prev =~= decimal_spec((rest / 10) as nat) + out@);
            }
        }
        rest = rest / 10;
    }
    out
}

/// Replaces `stem` by the decimal value of the hash of its text.
pub fn hash(stem: &str) -> (r: String)
    ensures
        r@ == decimal_spec(hash_of(stem@) as nat),
{
    to_decimal(hash_text(stem))
}

/// A rewritten stem where it can stand as a stem, or `None` where it cannot:
/// where it is empty, `.` or `..`.
pub fn checked_stem(s: String) -> (r: Option<String>)
    ensures
        r is None <==> is_bare_name(s@),
        r matches Some(t) ==> t@ == s@,
{
    let n = s.as_str().unicode_len();
    if n == 0 {
        return None;
    }
    if n <= 2 {
        let c0 = s.as_str().get_char(0);
        if n == 1 && c0 == '.' {
            assert(s@ =~= seq!['.']);
            return None;
        }
        if n == 2 && c0 == '.' && s.as_str().get_char(1) == '.' {
            assert(s@ =~= seq!['.', '.']);
            return None;
        }
    }
    Some(s)
}

/// The stem in lower case; `None` where that leaves no stem.
pub fn lowercase(stem: &str) -> (r: Option<String>)
    ensures
        r is None <==> is_bare_name(lower_of(stem@)),
        r matches Some(t) ==> t@ == lower_of(stem@),
{
    checked_stem(to_lower(stem))
}

/// The stem in upper case; `None` where that leaves no stem.
pub fn uppercase(stem: &str) -> (r: Option<String>)
    ensures
        r is None <==> is_bare_name(upper_of(stem@)),
        r matches Some(t) ==> t@ == upper_of(stem@),
{
    checked_stem(to_upper(stem))
}

/// `s` without its whitespace characters.
pub open spec fn strip_spec(s: Seq<char>) -> Seq<char> {
    s.filter(|c: char| !is_white_space(c))
}

/// Deletes every whitespace character of `s` and keeps the others in order.
pub fn strip_whitespace(s: &str) -> (r: String)
    ensures
        r@ == strip_spec(s@),
{
    let n = s.unicode_len();
    let mut out = String::new();
    let mut i: usize = 0;
    proof {
        reveal(Seq::filter);
        assert(s@.subrange(0, 0) =~= Seq::<char>::empty());
    }
    while i < n
        invariant
            i <= n,
            n == s@.len(),
            out@ == strip_spec(s@.subrange(0, i as int)),
        decreases n - i,
    {
        let ghost prev = s@.subrange(0, i as int);
        let ghost next = s@.subrange(0, i + 1);
        proof {
            reveal(Seq::filter);
            assert(next.drop_last() =~= prev);
            assert(next.last() == s@[i as int]);
        }
        let c = s.get_char(i);
        if !is_space(c) {
            let one = s.substring_char(i, i + 1);
            assert(one@ =~= seq![c]);
            out = out.concat(one);
            assert(out@ =~= strip_spec(prev).push(c));
        }
        i = i + 1;
    }
    assert(s@.subrange(0, n as int) =~= s@);
    out
}

/// What is left of a text after its whitespace is deleted holds no
/// whitespace, and keeps every other character in order.
pub proof fn lemma_strip(s: Seq<char>)
    ensures
        forall|j: int| 0 <= j < strip_spec(s).len() ==> !is_white_space(#[trigger] strip_spec(s)[j]),
        strip_spec(s).len() <= s.len(),
        forall|c: char| !is_white_space(c) ==> (s.contains(c) <==> strip_spec(s).contains(c)),
{
    let pred = |c: char| !is_white_space(c);
    s.lemma_filter_len(pred);
    assert forall|j: int| 0 <= j < strip_spec(s).len() implies !is_white_space(
        #[trigger] strip_spec(s)[j],
    ) by {
        s.lemma_filter_pred(pred, j);
    }
    assert forall|c: char| !is_white_space(c) implies (s.contains(c) <==> strip_spec(s).contains(c)) by {
        if s.contains(c) {
            let k = choose|k: int| 0 <= k < s.len() && s[k] == c;
            s.lemma_filter_contains(pred, k);
        }
        if strip_spec(s).contains(c) {
            s.lemma_filter_contains_rev(pred, c);
        }
    }
}

/// The stem without whitespace; `None` where that leaves no stem. What it
/// returns holds no whitespace.
pub fn whitespace(stem: &str) -> (r: Option<String>)
    ensures
        r is None <==> is_bare_name(strip_spec(stem@)),
        r matches Some(t) ==> t@ == strip_spec(stem@),
        r matches Some(t) ==> forall|j: int| 0 <= j < t@.len() ==> !is_white_space(#[trigger] t@[j]),
{
    proof {
        lemma_strip(stem@);
    }
    checked_stem(strip_whitespace(stem))
}

} // verus!
