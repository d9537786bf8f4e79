//! Prefix tests and slicing on text.
use vstd::prelude::*;

verus! {

/// `s` begins with `p`.
pub open spec fn starts_with(s: Seq<char>, p: Seq<char>) -> bool {
    p.len() <= s.len() && s.subrange(0, p.len() as int) == p
}

/// The text of `s` after its first `n` characters, or nothing when `s` is shorter.
pub open spec fn drop_chars(s: Seq<char>, n: nat) -> Seq<char> {
    if n <= s.len() {
        s.skip(n as int)
    } else {
        Seq::empty()
    }
}

/// `p` occurs in `s` starting at index `i`.
pub open spec fn occurs_at(s: Seq<char>, p: Seq<char>, i: int) -> bool {
    0 <= i && i + p.len() <= s.len() && s.subrange(i, i + p.len()) == p
}

/// Tests whether `p` occurs in `s` starting at index `at`.
pub fn matches_at(s: &str, p: &str, at: usize) -> (r: bool)
    ensures
        r == occurs_at(s@, p@, at as int),
{
    let pl = p.unicode_len();
    let sl = s.unicode_len();
    if at > sl || pl > sl - at {
        return false;
    }
    let ghost t = s@.subrange(at as int, at + pl);
    let mut i: usize = 0;
    while i < pl
        invariant
            pl == p@.len(),
            sl == s@.len(),
            at + pl <= sl,
            i <= pl,
            t == s@.subrange(at as int, at + pl),
            forall|j: int| 0 <= j < i ==> t[j] == p@[j],
        decreases pl - i,
    {
        if s.get_char(at + i) != p.get_char(i) {
            assert(t[i as int] != p@[i as int]);
            return false;
        }
        i = i + 1;
    }
    assert(t =~= p@);
    true
}

/// Tests whether `s` begins with `token`.
pub fn has_prefix(token: &str, s: &str) -> (r: bool)
    ensures
        r == starts_with(s@, token@),
{
    matches_at(s, token, 0)
}

/// The text of `s` after its first `n` characters; empty when `s` is shorter.
pub fn skip_chars(s: &str, n: usize) -> (r: String)
    ensures
        r@ == drop_chars(s@, n as nat),
{
    let len = s.unicode_len();
    if n <= len {
        s.substring_char(n, len).to_owned()
    } else {
        proof {
            assert(drop_chars(s@, n as nat) == Seq::<char>::empty());
        }
        String::new()
    }
}

/// The text of `s` after `token` when `s` begins with `token`, else `None`.
pub fn take(token: &str, s: &str) -> (r: Option<String>)
    ensures
        r is Some <==> starts_with(s@, token@),
        r matches Some(v) ==> v@ == s@.skip(token@.len() as int),
{
    if has_prefix(token, s) {
        let v = skip_chars(s, token.unicode_len());
        Some(v)
    } else {
        None
    }
}

/// Tests whether the characters `from..to` of `s` hold `c`.
pub fn contains_char(s: &str, from: usize, to: usize, c: char) -> (r: bool)
    requires
        from <= to <= s@.len(),
    ensures
        r == s@.subrange(from as int, to as int).contains(c),
{
    let ghost t = s@.subrange(from as int, to as int);
    let mut i: usize = from;
    while i < to
        invariant
            from <= i <= to <= s@.len(),
            t == s@.subrange(from as int, to as int),
            forall|j: int| 0 <= j < i - from ==> t[j] != c,
        decreases to - i,
    {
        if s.get_char(i) == c {
            assert(t[i - from] == c);
            return true;
        }
        i = i + 1;
    }
    false
}

} // verus!
