//! The selection of tests by name: all of them, a set of names, or a pattern.
//!
//! In a pattern `*` stands for any run of characters, the empty one
//! included, and `?` for any one character; every other character stands
//! for itself.

use crate::text::same_text;
use vstd::prelude::*;
use vstd::string::*;

verus! {

/// Whether `pattern` matches the whole of `text`.
pub open spec fn glob_matches(pattern: Seq<char>, text: Seq<char>) -> bool
    decreases pattern.len(), text.len(),
{
    if pattern.len() == 0 {
        text.len() == 0
    } else if pattern[0] == '*' {
        glob_matches(pattern.drop_first(), text) || (text.len() > 0 && glob_matches(
            pattern,
            text.drop_first(),
        ))
    } else if text.len() == 0 {
        false
    } else if pattern[0] == '?' || pattern[0] == text[0] {
        glob_matches(pattern.drop_first(), text.drop_first())
    } else {
        false
    }
}

/// Whether the rest of `pattern` from `i` matches the rest of `text` from `j`.
pub open spec fn rest_matches(pattern: Seq<char>, text: Seq<char>, i: int, j: int) -> bool {
    glob_matches(pattern.skip(i), text.skip(j))
}

/// How a match of the rests at `i` and `j` follows from matches of shorter
/// rests.
proof fn lemma_rest_matches(pattern: Seq<char>, text: Seq<char>, i: int, j: int)
    requires
        0 <= i <= pattern.len(),
        0 <= j <= text.len(),
    ensures
        i == pattern.len() ==> rest_matches(pattern, text, i, j) == (j == text.len()),
        i < pattern.len() && pattern[i] == '*' ==> rest_matches(pattern, text, i, j) == (
        rest_matches(pattern, text, i + 1, j) || (j < text.len() && rest_matches(
            pattern,
            text,
            i,
            j + 1,
        ))),
        i < pattern.len() && pattern[i] != '*' && j == text.len() ==> !rest_matches(
            pattern,
            text,
            i,
            j,
        ),
        i < pattern.len() && pattern[i] != '*' && j < text.len() ==> rest_matches(
            pattern,
            text,
            i,
            j,
        ) == ((pattern[i] == '?' || pattern[i] == text[j]) && rest_matches(
            pattern,
            text,
            i + 1,
            j + 1,
        )),
{
    let p = pattern.skip(i);
    let t = text.skip(j);
    if i < pattern.len() {
        assert(p[0] == pattern[i]);
        assert(p.drop_first() =~= pattern.skip(i + 1));
    }
    if j < text.len() {
        assert(t[0] == text[j]);
        assert(t.drop_first() =~= text.skip(j + 1));
    }
}

/// The characters of `s`.
///
/// A string does not know where its characters begin, so that this takes
/// time in the square of its length: it is meant for names and patterns.
pub fn chars_of(s: &str) -> (v: Vec<char>)
    ensures
        v@ == s@,
{
    let n = s.unicode_len();
    let mut v: Vec<char> = Vec::new();
    let mut i: usize = 0;
    while i < n
        invariant
            i <= n,
            n == s@.len(),
            v@ == s@.take(i as int),
        decreases n - i,
    {
        v.push(s.get_char(i));
        i = i + 1;
        assert(v@ =~= s@.take(i as int));
    }
    assert(s@.take(n as int) =~= s@);
    v
}

/// Whether `pattern` matches the whole of `text`.
pub fn glob_match(pattern: &str, text: &str) -> (b: bool)
    ensures
        b == glob_matches(pattern@, text@),
{
    let p = chars_of(pattern);
    let t = chars_of(text);
    let n = p.len();
    let m = t.len();
    // `row[j]` and `tail` say whether the rest of the pattern from `i`
    // matches the rest of the text from `j`, and from its end.
    let mut row: Vec<bool> = Vec::new();
    let mut j: usize = 0;
    while j < m
        invariant
            j <= m,
            m == t@.len(),
            n == p@.len(),
            row@.len() == j,
            forall|k: int| 0 <= k < j ==> row@[k] == rest_matches(p@, t@, n as int, k),
        decreases m - j,
    {
        proof {
            lemma_rest_matches(p@, t@, n as int, j as int);
        }
        row.push(false);
        j = j + 1;
    }
    let mut tail = true;
    proof {
        lemma_rest_matches(p@, t@, n as int, m as int);
    }
    let mut i: usize = n;
    while i > 0
        invariant
            i <= n,
            m == t@.len(),
            n == p@.len(),
            row@.len() == m,
            tail == rest_matches(p@, t@, i as int, m as int),
            forall|k: int| 0 <= k < m ==> row@[k] == rest_matches(p@, t@, i as int, k),
        decreases i,
    {
        i = i - 1;
        let c = p[i];
        let star = c == '*';
        // the entries to the right of `j`, before and after this round
        let mut old_right = tail;
        proof {
            lemma_rest_matches(p@, t@, i as int, m as int);
        }
        tail = star && tail;
        let mut new_right = tail;
        let mut j: usize = m;
        while j > 0
            invariant
                j <= m,
                i < n,
                m == t@.len(),
                n == p@.len(),
                row@.len() == m,
                c == p@[i as int],
                star == (c == '*'),
                tail == rest_matches(p@, t@, i as int, m as int),
                old_right == rest_matches(p@, t@, i + 1, j as int),
                new_right == rest_matches(p@, t@, i as int, j as int),
                forall|k: int| 0 <= k < j ==> row@[k] == rest_matches(p@, t@, i + 1, k),
                forall|k: int| j <= k < m ==> row@[k] == rest_matches(p@, t@, i as int, k),
            decreases j,
        {
            j = j - 1;
            let old_here = row[j];
            proof {
                lemma_rest_matches(p@, t@, i as int, j as int);
            }
            let here = if star {
                old_here || new_right
            } else {
                (c == '?' || c == t[j]) && old_right
            };
            row.set(j, here);
            old_right = old_here;
            new_right = here;
        }
    }
    assert(p@.skip(0) =~= p@);
    assert(t@.skip(0) =~= t@);
    if m == 0 {
        tail
    } else {
        row[0]
    }
}

/// Which tests of a suite to run.
#[derive(Clone, Debug, PartialEq, Eq)]
pub enum NameFilter {
    /// Every test.
    All,
    /// The tests whose name is one of these.
    Names(Vec<String>),
    /// The tests whose name the pattern matches.
    Pattern(String),
}

/// Whether `name` is one of `names`.
pub open spec fn is_listed(names: Seq<String>, name: Seq<char>) -> bool {
    exists|k: int| 0 <= k < names.len() && (#[trigger] names[k])@ == name
}

impl NameFilter {
    /// Whether the filter lets the test called `name` run.
    pub open spec fn selects(self, name: Seq<char>) -> bool {
        match self {
            NameFilter::All => true,
            NameFilter::Names(names) => is_listed(names@, name),
            NameFilter::Pattern(pattern) => glob_matches(pattern@, name),
        }
    }

    /// Whether the filter lets the test called `name` run.
    pub fn accepts(&self, name: &str) -> (b: bool)
        ensures
            b == self.selects(name@),
    {
        match self {
            NameFilter::All => true,
            NameFilter::Names(names) => {
                let mut k: usize = 0;
                while k < names.len()
                    invariant
                        k <= names.len(),
                        *self == NameFilter::Names(*names),
                        forall|l: int| 0 <= l < k ==> (#[trigger] names@[l])@ != name@,
                    decreases names.len() - k,
                {
                    if same_text(names[k].as_str(), name) {
                        assert(names@[k as int]@ == name@);
                        return true;
                    }
                    k = k + 1;
                }
                false
            },
            NameFilter::Pattern(pattern) => glob_match(pattern.as_str(), name),
        }
    }
}

/// A pattern without `*` and `?` matches its own text and no other.
pub proof fn lemma_plain_pattern_matches_itself(pattern: Seq<char>, text: Seq<char>)
    requires
        forall|i: int| 0 <= i < pattern.len() ==> pattern[i] != '*' && pattern[i] != '?',
    ensures
        glob_matches(pattern, text) <==> pattern == text,
    decreases pattern.len(),
{
    if pattern.len() == 0 {
        assert(text.len() == 0 <==> pattern =~= text);
    } else if text.len() == 0 {
    } else {
        lemma_plain_pattern_matches_itself(pattern.drop_first(), text.drop_first());
        if pattern[0] == text[0] && pattern.drop_first() == text.drop_first() {
            assert forall|i: int| 0 <= i < pattern.len() implies pattern[i] == text[i] by {
                if i > 0 {
                    assert(pattern[i] == pattern.drop_first()[i - 1]);
                    assert(text[i] == text.drop_first()[i - 1]);
                }
            }
            assert(pattern.len() == pattern.drop_first().len() + 1);
            assert(text.len() == text.drop_first().len() + 1);
            assert(pattern =~= text);
        }
    }
}

/// The pattern `*` matches every text.
pub proof fn lemma_star_matches_all(text: Seq<char>)
    ensures
        glob_matches(seq!['*'], text),
    decreases text.len(),
{
    let star = seq!['*'];
    assert(star.drop_first() =~= Seq::<char>::empty());
    reveal_with_fuel(glob_matches, 2);
    if text.len() > 0 {
        lemma_star_matches_all(text.drop_first());
    }
}

} // verus!
