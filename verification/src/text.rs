//! Character-level scanning over `&str`, with exact specifications over
//! `Seq<char>`: substring search, single-character search (forward and
//! backward), string equality and ASCII case folding.
//!
//! These are the primitives the diagnostic and progress parsers are built
//! on; every extraction rule in those parsers is stated in terms of the
//! spec functions defined here.

use vstd::prelude::*;

verus! {

use vstd::string::StrSliceExecFns;

/// The pattern `p` occurs in `s` starting at index `i`.
pub open spec fn occurs_at(s: Seq<char>, p: Seq<char>, i: int) -> bool {
    0 <= i && i + p.len() <= s.len() && s.subrange(i, i + p.len()) == p
}

/// Index of the first occurrence of `p` in `s` at or after `from`.
pub open spec fn first_occur_from(s: Seq<char>, p: Seq<char>, from: int) -> Option<int>
    decreases s.len() - from,
{
    if from < 0 {
        first_occur_from(s, p, 0)
    } else if from + p.len() > s.len() {
        None
    } else if occurs_at(s, p, from) {
        Some(from)
    } else if from >= s.len() {
        None
    } else {
        first_occur_from(s, p, from + 1)
    }
}

/// Index of the first occurrence of `p` anywhere in `s`.
pub open spec fn find_sub(s: Seq<char>, p: Seq<char>) -> Option<int> {
    first_occur_from(s, p, 0)
}

/// `s` contains the pattern `p`.
pub open spec fn contains_sub(s: Seq<char>, p: Seq<char>) -> bool {
    find_sub(s, p) is Some
}

/// Index of the first occurrence of the character `c` at or after `from`.
pub open spec fn first_char_from(s: Seq<char>, c: char, from: int) -> Option<int>
    decreases s.len() - from,
{
    if from < 0 {
        first_char_from(s, c, 0)
    } else if from >= s.len() {
        None
    } else if s[from] == c {
        Some(from)
    } else {
        first_char_from(s, c, from + 1)
    }
}

/// Index of the last occurrence of the character `c` strictly before `end`.
pub open spec fn last_char_before(s: Seq<char>, c: char, end: int) -> Option<int>
    decreases end,
{
    if end <= 0 || end > s.len() {
        None
    } else if s[end - 1] == c {
        Some(end - 1)
    } else {
        last_char_before(s, c, end - 1)
    }
}

/// Skipping over occurrence-free ground does not change the first occurrence.
proof fn lemma_first_occur_skip(s: Seq<char>, p: Seq<char>, from: int, i: int)
    requires
        0 <= from <= i,
        forall|j: int| from <= j < i ==> !occurs_at(s, p, j),
    ensures
        first_occur_from(s, p, from) == first_occur_from(s, p, i),
    decreases i - from,
{
    if from < i {
        lemma_first_occur_skip(s, p, from + 1, i);
    }
}

proof fn lemma_first_char_skip(s: Seq<char>, c: char, from: int, i: int)
    requires
        0 <= from <= i,
        forall|j: int| from <= j < i ==> s[j] != c,
    ensures
        first_char_from(s, c, from) == first_char_from(s, c, i),
    decreases i - from,
{
    if from < i {
        lemma_first_char_skip(s, c, from + 1, i);
    }
}

proof fn lemma_last_char_skip(s: Seq<char>, c: char, end: int, i: int)
    requires
        0 <= i <= end <= s.len(),
        forall|j: int| i <= j < end ==> s[j] != c,
    ensures
        last_char_before(s, c, end) == last_char_before(s, c, i),
    decreases end - i,
{
    if i < end {
        lemma_last_char_skip(s, c, end - 1, i);
    }
}

/// A found occurrence lies at or after the start index and really occurs.
pub proof fn lemma_first_occur_props(s: Seq<char>, p: Seq<char>, from: int)
    ensures
        match first_occur_from(s, p, from) {
            Some(i) => occurs_at(s, p, i) && (if from < 0 {
                0
            } else {
                from
            }) <= i,
            None => true,
        },
    decreases s.len() - from,
{
    if from < 0 {
        lemma_first_occur_props(s, p, 0);
    } else if from + p.len() > s.len() {
    } else if occurs_at(s, p, from) {
    } else if from >= s.len() {
    } else {
        lemma_first_occur_props(s, p, from + 1);
    }
}

/// A found character lies at or after the start index, before the end,
/// and is the character sought.
pub proof fn lemma_first_char_props(s: Seq<char>, c: char, from: int)
    ensures
        match first_char_from(s, c, from) {
            Some(i) => (if from < 0 {
                0
            } else {
                from
            }) <= i < s.len() && s[i] == c,
            None => true,
        },
    decreases s.len() - from,
{
    if from < 0 {
        lemma_first_char_props(s, c, 0);
    } else if from >= s.len() {
    } else if s[from] == c {
    } else {
        lemma_first_char_props(s, c, from + 1);
    }
}

/// Does `p` occur in `s` at index `i`?
fn matches_at(s: &str, n: usize, p: &str, m: usize, i: usize) -> (b: bool)
    requires
        n == s@.len(),
        m == p@.len(),
        i <= n,
        m <= n - i,
    ensures
        b == occurs_at(s@, p@, i as int),
{
    let mut j: usize = 0;
    while j < m
        invariant
            n == s@.len(),
            m == p@.len(),
            i <= n,
            m <= n - i,
            j <= m,
            forall|k: int| 0 <= k < j ==> s@[i + k] == p@[k],
        decreases m - j,
    {
        if s.get_char(i + j) != p.get_char(j) {
            assert(!occurs_at(s@, p@, i as int)) by {
                if occurs_at(s@, p@, i as int) {
                    assert(s@.subrange(i as int, i + p@.len())[j as int] == p@[j as int]);
                }
            }
            return false;
        }
        j += 1;
    }
    assert(s@.subrange(i as int, i + p@.len()) =~= p@);
    true
}

/// First occurrence of `p` in `s` at or after `from`, as the spec says.
pub fn find_sub_from(s: &str, p: &str, from: usize) -> (r: Option<usize>)
    requires
        from <= s@.len(),
    ensures
        match r {
            Some(i) => first_occur_from(s@, p@, from as int) == Some(i as int) && i
                <= s@.len(),
            None => first_occur_from(s@, p@, from as int) is None,
        },
{
    let n = s.unicode_len();
    let m = p.unicode_len();
    if m == 0 {
        proof {
            assert(s@.subrange(from as int, from as int) =~= p@);
        }
        return Some(from);
    }
    if m > n || from > n - m {
        return None;
    }
    let mut i: usize = from;
    while i <= n - m
        invariant
            n == s@.len(),
            m == p@.len(),
            1 <= m <= n,
            from <= i <= n - m + 1,
            forall|j: int| from <= j < i ==> !occurs_at(s@, p@, j),
        decreases n - i,
    {
        if matches_at(s, n, p, m, i) {
            proof {
                lemma_first_occur_skip(s@, p@, from as int, i as int);
            }
            return Some(i);
        }
        i += 1;
    }
    proof {
        lemma_first_occur_skip(s@, p@, from as int, i as int);
    }
    None
}

/// First occurrence of `p` anywhere in `s`.
pub fn find_substr(s: &str, p: &str) -> (r: Option<usize>)
    ensures
        match r {
            Some(i) => find_sub(s@, p@) == Some(i as int) && i <= s@.len(),
            None => find_sub(s@, p@) is None,
        },
{
    find_sub_from(s, p, 0)
}

/// Does `s` contain the pattern `p`?
pub fn contains_str(s: &str, p: &str) -> (b: bool)
    ensures
        b == contains_sub(s@, p@),
{
    match find_sub_from(s, p, 0) {
        Some(_) => true,
        None => false,
    }
}

/// First occurrence of the character `c` in `s` at or after `from`.
pub fn find_char_from(s: &str, c: char, from: usize) -> (r: Option<usize>)
    requires
        from <= s@.len(),
    ensures
        match r {
            Some(i) => first_char_from(s@, c, from as int) == Some(i as int) && from <= i
                < s@.len(),
            None => first_char_from(s@, c, from as int) is None,
        },
{
    let n = s.unicode_len();
    let mut i: usize = from;
    while i < n
        invariant
            n == s@.len(),
            from <= i <= n,
            forall|j: int| from <= j < i ==> s@[j] != c,
        decreases n - i,
    {
        if s.get_char(i) == c {
            proof {
                lemma_first_char_skip(s@, c, from as int, i as int);
            }
            return Some(i);
        }
        i += 1;
    }
    proof {
        lemma_first_char_skip(s@, c, from as int, i as int);
    }
    None
}

/// Last occurrence of the character `c` in `s` strictly before `end`.
pub fn rfind_char_before(s: &str, c: char, end: usize) -> (r: Option<usize>)
    requires
        end <= s@.len(),
    ensures
        match r {
            Some(i) => last_char_before(s@, c, end as int) == Some(i as int) && i < end,
            None => last_char_before(s@, c, end as int) is None,
        },
{
    let mut i: usize = end;
    while i > 0
        invariant
            end <= s@.len(),
            i <= end,
            forall|j: int| i <= j < end ==> s@[j] != c,
        decreases i,
    {
        i -= 1;
        if s.get_char(i) == c {
            proof {
                lemma_last_char_skip(s@, c, end as int, i + 1);
            }
            return Some(i);
        }
    }
    proof {
        lemma_last_char_skip(s@, c, end as int, 0);
    }
    None
}

/// Character-for-character string equality.
pub fn str_eq(a: &str, b: &str) -> (r: bool)
    ensures
        r == (a@ == b@),
{
    let n = a.unicode_len();
    let m = b.unicode_len();
    if n != m {
        return false;
    }
    let mut i: usize = 0;
    while i < n
        invariant
            n == a@.len(),
            n == b@.len(),
            i <= n,
            forall|j: int| 0 <= j < i ==> a@[j] == b@[j],
        decreases n - i,
    {
        if a.get_char(i) != b.get_char(i) {
            return false;
        }
        i += 1;
    }
    assert(a@ =~= b@);
    true
}

/// ASCII case folding of one character: `A`..`Z` map to `a`..`z`.
pub open spec fn lower_char(c: char) -> char {
    if 'A' <= c && c <= 'Z' {
        ((c as u8) + 32) as char
    } else {
        c
    }
}

/// ASCII case folding of a whole sequence.
pub open spec fn seq_lower(s: Seq<char>) -> Seq<char> {
    s.map_values(|c: char| lower_char(c))
}

fn lower_char_exec(c: char) -> (r: char)
    ensures
        r == lower_char(c),
{
    if 'A' <= c && c <= 'Z' {
        ((c as u8) + 32) as char
    } else {
        c
    }
}

/// Does `a`, folded to ASCII lower case, equal `b` as it stands?
pub fn eq_lower(a: &str, b: &str) -> (r: bool)
    ensures
        r == (seq_lower(a@) == b@),
{
    let n = a.unicode_len();
    let m = b.unicode_len();
    if n != m {
        assert(seq_lower(a@).len() == a@.len());
        return false;
    }
    let mut i: usize = 0;
    while i < n
        invariant
            n == a@.len(),
            n == b@.len(),
            i <= n,
            forall|j: int| 0 <= j < i ==> lower_char(a@[j]) == b@[j],
        decreases n - i,
    {
        if lower_char_exec(a.get_char(i)) != b.get_char(i) {
            assert(seq_lower(a@)[i as int] == lower_char(a@[i as int]));
            return false;
        }
        i += 1;
    }
    assert(seq_lower(a@) =~= b@);
    true
}

/// The substring of `s` from `from` (inclusive) to `to` (exclusive), owned.
pub fn substring(s: &str, from: usize, to: usize) -> (r: String)
    requires
        from <= to <= s@.len(),
    ensures
        r@ == s@.subrange(from as int, to as int),
{
    s.substring_char(from, to).to_owned()
}

} // verus!
