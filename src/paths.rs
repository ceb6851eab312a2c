//! Home-directory contraction and expansion of local paths.

use vstd::prelude::*;

verus! {

/// `p` lies under the home directory `home`: `home` is a non-empty prefix of
/// `p` that ends at a path-component boundary.
pub open spec fn under_home(p: Seq<char>, home: Seq<char>) -> bool {
    &&& home.len() > 0
    &&& home.len() <= p.len()
    &&& p.take(home.len() as int) == home
    &&& (p.len() == home.len() || p[home.len() as int] == '/')
}

/// `p` starts with the home shorthand `~`.
pub open spec fn starts_with_tilde(p: Seq<char>) -> bool {
    p.len() > 0 && p[0] == '~'
}

/// Home contraction: the home prefix of a path under it becomes `~`.
pub open spec fn contracted(p: Seq<char>, home: Seq<char>) -> Seq<char> {
    if under_home(p, home) {
        seq!['~'] + p.skip(home.len() as int)
    } else {
        p
    }
}

/// Home expansion: a leading `~` becomes the home directory.
pub open spec fn expanded(p: Seq<char>, home: Seq<char>) -> Seq<char> {
    if starts_with_tilde(p) {
        home + p.skip(1)
    } else {
        p
    }
}

/// Whether `p` begins with `prefix`.
pub fn has_prefix(p: &str, prefix: &str) -> (r: bool)
    ensures
        r == (prefix@.len() <= p@.len() && p@.take(prefix@.len() as int) == prefix@),
{
    let n = p.unicode_len();
    let m = prefix.unicode_len();
    if m > n {
        return false;
    }
    let mut i: usize = 0;
    while i < m
        invariant
            m == prefix@.len(),
            n == p@.len(),
            m <= n,
            0 <= i <= m,
            forall|j: int| 0 <= j < i ==> p@[j] == prefix@[j],
        decreases m - i,
    {
        if p.get_char(i) != prefix.get_char(i) {
            assert(p@.take(m as int)[i as int] != prefix@[i as int]);
            return false;
        }
        i = i + 1;
    }
    assert(p@.take(m as int) =~= prefix@);
    true
}

/// Replaces the home directory at the start of `path` by `~`, so that the
/// path stays valid for another user; any other path is returned as it is.
pub fn contract_home(path: &String, home: &String) -> (r: String)
    ensures
        r@ == contracted(path@, home@),
{
    let p = path.as_str();
    let h = home.as_str();
    let n = p.unicode_len();
    let m = h.unicode_len();
    if m > 0 && has_prefix(p, h) && (m == n || p.get_char(m) == '/') {
        let mut r = String::from_str("~");
        proof {
            reveal_strlit("~");
        }
        r.append(p.substring_char(m, n));
        assert(r@ =~= seq!['~'] + path@.skip(m as int));
        r
    } else {
        path.clone()
    }
}

/// Replaces a leading `~` of `path` by the home directory; any other path is
/// returned as it is.
pub fn expand_home(path: &String, home: &String) -> (r: String)
    ensures
        r@ == expanded(path@, home@),
{
    let p = path.as_str();
    let n = p.unicode_len();
    if n > 0 && p.get_char(0) == '~' {
        let mut r = home.clone();
        r.append(p.substring_char(1, n));
        assert(r@ =~= home@ + path@.skip(1));
        r
    } else {
        path.clone()
    }
}

/// Expansion undoes contraction for every path under the home directory, and
/// leaves a path alone that is neither under it nor starts with `~`.
pub proof fn lemma_expand_contract(p: Seq<char>, home: Seq<char>)
    requires
        under_home(p, home) || !starts_with_tilde(p),
    ensures
        expanded(contracted(p, home), home) == p,
{
    if under_home(p, home) {
        let c = seq!['~'] + p.skip(home.len() as int);
        assert(c.skip(1) =~= p.skip(home.len() as int));
        assert(home + p.skip(home.len() as int) =~= p);
    }
}

/// Contraction undoes expansion for a path written as `~` or `~/...`, when the
/// home directory is absolute-like (non-empty).
pub proof fn lemma_contract_expand(p: Seq<char>, home: Seq<char>)
    requires
        home.len() > 0,
        starts_with_tilde(p),
        p.len() == 1 || p[1] == '/',
    ensures
        contracted(expanded(p, home), home) == p,
{
    let e = home + p.skip(1);
    assert(e.take(home.len() as int) =~= home);
    if p.len() > 1 {
        assert(e[home.len() as int] == p[1]);
    }
    assert(e.skip(home.len() as int) =~= p.skip(1));
    assert(seq!['~'] + p.skip(1) =~= p);
}

} // verus!
