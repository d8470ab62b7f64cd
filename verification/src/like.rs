//! Matching of titles against LIKE patterns: `%` stands for any run of
//! characters, `_` for any one character, and ASCII letters match without
//! regard to case.

use vstd::prelude::*;

verus! {

/// The ASCII lower-case form of a code point.
pub open spec fn ascii_lower(x: u32) -> u32 {
    if 65 <= x && x <= 90 {
        (x + 32) as u32
    } else {
        x
    }
}

/// Pattern character `p` matches text character `c`: they are equal, or both
/// are ASCII and equal but for case.
pub open spec fn chars_match(p: char, c: char) -> bool {
    p == c || ((p as u32) < 128 && (c as u32) < 128 && ascii_lower(p as u32) == ascii_lower(c as u32))
}

/// Text `s` matches LIKE pattern `p`.
pub open spec fn like(p: Seq<char>, s: Seq<char>) -> bool
    decreases p.len() + s.len(),
{
    if p.len() == 0 {
        s.len() == 0
    } else if p[0] == '%' {
        like(p.drop_first(), s) || (s.len() > 0 && like(p, s.drop_first()))
    } else if s.len() == 0 {
        false
    } else if p[0] == '_' || chars_match(p[0], s[0]) {
        like(p.drop_first(), s.drop_first())
    } else {
        false
    }
}

/// The pattern that selects the texts containing `name`.
pub open spec fn containing_pattern(name: Seq<char>) -> Seq<char> {
    seq!['%'] + name + seq!['%']
}

fn chars_match_exec(p: char, c: char) -> (r: bool)
    ensures
        r == chars_match(p, c),
{
    if p == c {
        return true;
    }
    let a = p as u32;
    let b = c as u32;
    if a < 128 && b < 128 {
        let la = if 65 <= a && a <= 90 {
            a + 32
        } else {
            a
        };
        let lb = if 65 <= b && b <= 90 {
            b + 32
        } else {
            b
        };
        la == lb
    } else {
        false
    }
}

/// The characters of `s`.
pub fn chars_of(s: &str) -> (r: Vec<char>)
    ensures
        r@ == s@,
{
    let n = s.unicode_len();
    let mut out: Vec<char> = Vec::new();
    let mut i: usize = 0;
    while i < n
        invariant
            n == s@.len(),
            i <= n,
            out@ == s@.take(i as int),
        decreases n - i,
    {
        out.push(s.get_char(i));
        assert(out@ =~= s@.take(i + 1));
        i = i + 1;
    }
    assert(out@ =~= s@);
    out
}

proof fn lemma_like_step(p: Seq<char>, s: Seq<char>, i: int, j: int)
    requires
        0 <= i < p.len(),
        0 <= j <= s.len(),
    ensures
        p.skip(i)[0] == p[i],
        p.skip(i).drop_first() == p.skip(i + 1),
        j < s.len() ==> s.skip(j)[0] == s[j],
        j < s.len() ==> s.skip(j).drop_first() == s.skip(j + 1),
        p.skip(i).len() == p.len() - i,
        s.skip(j).len() == s.len() - j,
{
    assert(p.skip(i).drop_first() =~= p.skip(i + 1));
    if j < s.len() {
        assert(s.skip(j).drop_first() =~= s.skip(j + 1));
    }
}

/// Whether text `s` matches LIKE pattern `p`.
pub fn like_exec(p: &Vec<char>, s: &Vec<char>) -> (r: bool)
    ensures
        r == like(p@, s@),
{
    let m = p.len();
    let n = s.len();
    // next[j] == like(p.skip(i + 1), s.skip(j)) for the row below the one being filled
    let mut next: Vec<bool> = Vec::new();
    let mut j: usize = 0;
    while j < n
        invariant
            n == s@.len(),
            j <= n,
            next@.len() == j,
            forall|k: int| 0 <= k < j ==> !next@[k],
        decreases n - j,
    {
        next.push(false);
        j = j + 1;
    }
    next.push(true);
    proof {
        assert forall|k: int| 0 <= k <= n implies next@[k] == like(p@.skip(m as int), s@.skip(k)) by {
            assert(p@.skip(m as int).len() == 0);
        }
    }
    let mut i: usize = m;
    while i > 0
        invariant
            m == p@.len(),
            n == s@.len(),
            i <= m,
            next@.len() == n + 1,
            forall|k: int| 0 <= k <= n ==> #[trigger] next@[k] == like(p@.skip(i as int), s@.skip(k)),
        decreases i,
    {
        i = i - 1;
        let pc = p[i];
        let mut cur: Vec<bool> = Vec::new();
        let mut k: usize = 0;
        while k < n
            invariant
                n == s@.len(),
                k <= n,
                cur@.len() == k,
            decreases n - k,
        {
            cur.push(false);
            k = k + 1;
        }
        cur.push(false);
        let mut j: usize = n;
        loop
            invariant
                m == p@.len(),
                n == s@.len(),
                i < m,
                pc == p@[i as int],
                j <= n,
                cur@.len() == n + 1,
                next@.len() == n + 1,
                forall|k: int| 0 <= k <= n ==> #[trigger] next@[k] == like(p@.skip(i + 1), s@.skip(k)),
                forall|k: int| j < k <= n ==> #[trigger] cur@[k] == like(p@.skip(i as int), s@.skip(k)),
            ensures
                cur@.len() == n + 1,
                forall|k: int| 0 <= k <= n ==> #[trigger] cur@[k] == like(p@.skip(i as int), s@.skip(k)),
            decreases j,
        {
            proof {
                lemma_like_step(p@, s@, i as int, j as int);
            }
            let v = if pc == '%' {
                next[j] || (j < n && cur[j + 1])
            } else if j == n {
                false
            } else if pc == '_' || chars_match_exec(pc, s[j]) {
                next[j + 1]
            } else {
                false
            };
            cur.set(j, v);
            if j == 0 {
                break;
            }
            j = j - 1;
        }
        next = cur;
    }
    proof {
        assert(p@.skip(0) =~= p@);
        assert(s@.skip(0) =~= s@);
    }
    next[0]
}

} // verus!
