//! Splitting a stored line into its first two space-separated tokens.
//!
//! Both file formats are a keyword or date followed by one payload token.
//! Splitting follows the storage convention exactly: tokens are the
//! segments between single space characters, the second token may be
//! empty, and anything after it is ignored.

use vstd::prelude::*;

verus! {

/// No character of `s` is a space.
pub open spec fn no_space_chars(s: Seq<char>) -> bool {
    forall|i: int| 0 <= i < s.len() ==> #[trigger] s[i] != ' '
}

/// Index of the first space at or after `i`, or the length of `s` when
/// there is none.
pub open spec fn space_from(s: Seq<char>, i: int) -> int
    recommends
        0 <= i <= s.len(),
    decreases s.len() - i,
{
    if i < 0 || i >= s.len() {
        s.len() as int
    } else if s[i] == ' ' {
        i
    } else {
        space_from(s, i + 1)
    }
}

pub proof fn lemma_space_from(s: Seq<char>, i: int)
    requires
        0 <= i <= s.len(),
    ensures
        i <= space_from(s, i) <= s.len(),
        space_from(s, i) < s.len() ==> s[space_from(s, i)] == ' ',
        forall|k: int| i <= k < space_from(s, i) ==> s[k] != ' ',
    decreases s.len() - i,
{
    if i < s.len() && s[i] != ' ' {
        lemma_space_from(s, i + 1);
    }
}

/// The first two tokens of `s`: the segment before the first space, and
/// the segment between the first space and the next one (or the end).
/// `None` when `s` holds no space at all.
pub open spec fn two_words_spec(s: Seq<char>) -> Option<(Seq<char>, Seq<char>)> {
    let i = space_from(s, 0);
    if i == s.len() {
        None
    } else {
        Some((s.subrange(0, i), s.subrange(i + 1, space_from(s, i + 1))))
    }
}

/// Joining two space-free tokens with a single space splits back into
/// exactly those tokens.
pub proof fn lemma_two_words_of_join(a: Seq<char>, b: Seq<char>)
    requires
        no_space_chars(a),
        no_space_chars(b),
    ensures
        space_from(a + seq![' '] + b, 0) == a.len(),
        space_from(a + seq![' '] + b, a.len() as int + 1) == (a + seq![' '] + b).len(),
        two_words_spec(a + seq![' '] + b) == Some((a, b)),
{
    let line = a + seq![' '] + b;
    assert(line.len() == a.len() + 1 + b.len());
    assert(line[a.len() as int] == ' ');
    lemma_space_from(line, 0);
    let i = space_from(line, 0);
    assert forall|k: int| 0 <= k < a.len() implies line[k] != ' ' by {
        assert(line[k] == a[k]);
    }
    if i < a.len() {
        assert(line[i] == ' ');
        assert(false);
    }
    if i > a.len() {
        assert(line[a.len() as int] != ' ');
        assert(false);
    }
    lemma_space_from(line, i + 1);
    let j = space_from(line, i + 1);
    assert forall|k: int| a.len() + 1 <= k < line.len() implies line[k] != ' ' by {
        assert(line[k] == b[k - a.len() - 1]);
    }
    if j < line.len() {
        assert(line[j] == ' ');
        assert(false);
    }
    assert(line.subrange(0, i) =~= a);
    assert(line.subrange(i + 1, j) =~= b);
}

/// First two space-separated tokens of `line`, or `None` when the line
/// has no second token.
pub fn get_two_words_from_line<'a>(line: &'a str) -> (r: Option<(&'a str, &'a str)>)
    ensures
        match r {
            Some(w) => two_words_spec(line@) matches Some(t) && w.0@ == t.0 && w.1@ == t.1,
            None => two_words_spec(line@) is None,
        },
{
    let n = line.unicode_len();
    let mut i: usize = 0;
    while i < n && line.get_char(i) != ' '
        invariant
            i <= n,
            n == line@.len(),
            forall|k: int| 0 <= k < i ==> line@[k] != ' ',
        decreases n - i,
    {
        i = i + 1;
    }
    proof {
        lemma_space_from(line@, 0);
        assert(space_from(line@, 0) == i);
    }
    if i == n {
        return None;
    }
    let first = line.substring_char(0, i);
    let mut j: usize = i + 1;
    while j < n && line.get_char(j) != ' '
        invariant
            i + 1 <= j <= n,
            n == line@.len(),
            forall|k: int| i + 1 <= k < j ==> line@[k] != ' ',
        decreases n - j,
    {
        j = j + 1;
    }
    proof {
        lemma_space_from(line@, i + 1);
        assert(space_from(line@, i + 1) == j);
    }
    let second = line.substring_char(i + 1, j);
    Some((first, second))
}

} // verus!
