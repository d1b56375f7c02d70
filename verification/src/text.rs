//! Text: comparing, searching and cutting strings by their characters.
use vstd::prelude::*;
use vstd::string::*;
use vstd::utf8::*;

verus! {

/// Two texts with the same UTF-8 bytes hold the same characters.
proof fn lemma_same_bytes_same_text(a: Seq<char>, b: Seq<char>)
    requires
        encode_utf8(a) == encode_utf8(b),
    ensures
        a == b,
{
    encode_utf8_decode_utf8(a);
    encode_utf8_decode_utf8(b);
}

/// Whether two strings hold the same characters.
pub fn same(a: &str, b: &str) -> (r: bool)
    ensures
        r == (a@ == b@),
{
    let x = a.as_bytes();
    let y = b.as_bytes();
    if x.len() != y.len() {
        return false;
    }
    let mut i: usize = 0;
    while i < x.len()
        invariant
            i <= x.len(),
            x.len() == y.len(),
            x@ == encode_utf8(a@),
            y@ == encode_utf8(b@),
            forall|j: int| 0 <= j < i ==> x@[j] == y@[j],
        decreases x.len() - i,
    {
        if x[i] != y[i] {
            return false;
        }
        i += 1;
    }
    proof {
        assert(x@ =~= y@);
        lemma_same_bytes_same_text(a@, b@);
    }
    true
}

/// The characters of a string, in order.
pub fn to_chars(s: &str) -> (r: Vec<char>)
    ensures
        r@ == s@,
{
    let mut r: Vec<char> = Vec::new();
    for c in it: s.chars()
        invariant
            it.seq() == s@,
            r@ == s@.take(it.index()),
    {
        r.push(c);
    }
    r
}

/// The last place at which a character stands in a text.
pub open spec fn last_index(s: Seq<char>, c: char) -> Option<int>
    decreases s.len(),
{
    if s.len() == 0 {
        None
    } else if s.last() == c {
        Some(s.len() - 1)
    } else {
        last_index(s.drop_last(), c)
    }
}

/// A last place holds the character, and nothing after it does.
pub proof fn lemma_last_index(s: Seq<char>, c: char)
    ensures
        match last_index(s, c) {
            Some(k) => 0 <= k < s.len() && s[k] == c && forall|j: int|
                k < j < s.len() ==> s[j] != c,
            None => forall|j: int| 0 <= j < s.len() ==> s[j] != c,
        },
    decreases s.len(),
{
    if s.len() > 0 && s.last() != c {
        let t = s.drop_last();
        lemma_last_index(t, c);
        assert forall|j: int| 0 <= j < s.len() && j != s.len() - 1 implies s[j] == t[j] by {}
    }
}

/// Only the last place holds the character with nothing after it.
pub proof fn lemma_last_index_is(s: Seq<char>, c: char, k: int)
    requires
        0 <= k < s.len(),
        s[k] == c,
        forall|j: int| k < j < s.len() ==> s[j] != c,
    ensures
        last_index(s, c) == Some(k),
{
    lemma_last_index(s, c);
}

/// Finds the last place at which a character stands.
pub fn find_last(s: &Vec<char>, c: char) -> (r: Option<usize>)
    ensures
        match r {
            Some(k) => last_index(s@, c) == Some(k as int),
            None => last_index(s@, c) is None,
        },
{
    let mut i: usize = s.len();
    while i > 0
        invariant
            i <= s.len(),
            forall|j: int| i <= j < s.len() ==> s@[j] != c,
        decreases i,
    {
        if s[i - 1] == c {
            proof {
                lemma_last_index_is(s@, c, i - 1);
            }
            return Some(i - 1);
        }
        i -= 1;
    }
    proof {
        lemma_last_index(s@, c);
    }
    None
}

/// The first place at which a character stands in a text, or its length where there is none.
pub open spec fn first_index(s: Seq<char>, c: char) -> int
    decreases s.len(),
{
    if s.len() == 0 || s[0] == c {
        0
    } else {
        1 + first_index(s.drop_first(), c)
    }
}

/// A first place holds the character, and nothing before it does.
pub proof fn lemma_first_index(s: Seq<char>, c: char)
    ensures
        0 <= first_index(s, c) <= s.len(),
        first_index(s, c) < s.len() ==> s[first_index(s, c)] == c,
        forall|j: int| 0 <= j < first_index(s, c) ==> s[j] != c,
    decreases s.len(),
{
    if s.len() > 0 && s[0] != c {
        let t = s.drop_first();
        lemma_first_index(t, c);
        assert forall|j: int| 0 <= j < first_index(s, c) implies s[j] != c by {
            if j > 0 {
                assert(s[j] == t[j - 1]);
            }
        }
    }
}

/// Only the first place has nothing before it that holds the character.
pub proof fn lemma_first_index_is(s: Seq<char>, c: char, k: int)
    requires
        0 <= k <= s.len(),
        k < s.len() ==> s[k] == c,
        forall|j: int| 0 <= j < k ==> s[j] != c,
    ensures
        first_index(s, c) == k,
{
    lemma_first_index(s, c);
}

/// Finds the first place at which a character stands, or the length.
pub fn find_first(s: &Vec<char>, c: char) -> (r: usize)
    ensures
        r == first_index(s@, c),
{
    let mut i: usize = 0;
    while i < s.len()
        invariant
            i <= s.len(),
            forall|j: int| 0 <= j < i ==> s@[j] != c,
        decreases s.len() - i,
    {
        if s[i] == c {
            proof {
                lemma_first_index_is(s@, c, i as int);
            }
            return i;
        }
        i += 1;
    }
    proof {
        lemma_first_index_is(s@, c, i as int);
    }
    i
}

/// Whether a dollar sign and an opening brace stand side by side in a text, as they do where a
/// variable is to be substituted.
pub open spec fn has_variable(s: Seq<char>) -> bool {
    exists|i: int| 0 <= i < s.len() - 1 && #[trigger] s[i] == '$' && s[i + 1] == '{'
}

/// Whether a text holds `${`.
pub fn contains_variable(s: &str) -> (r: bool)
    ensures
        r == has_variable(s@),
{
    let cs = to_chars(s);
    let mut i: usize = 1;
    while i < cs.len()
        invariant
            cs@ == s@,
            1 <= i,
            forall|j: int| 0 <= j < i - 1 && j < s@.len() - 1 ==> !(#[trigger] s@[j] == '$' && s@[j
                + 1] == '{'),
        decreases cs.len() - i,
    {
        if cs[i - 1] == '$' && cs[i] == '{' {
            proof {
                assert(s@[i - 1] == '$' && s@[i - 1 + 1] == '{');
            }
            return true;
        }
        i += 1;
    }
    false
}

/// A letter from A to Z in lower case; any other character as it is.
pub open spec fn ascii_lower(c: char) -> char {
    if 'A' <= c && c <= 'Z' {
        (c as u32 + 32) as char
    } else {
        c
    }
}

/// A text with its letters from A to Z in lower case.
pub open spec fn ascii_lowercase(s: Seq<char>) -> Seq<char> {
    s.map_values(|c: char| ascii_lower(c))
}

/// Whether a text ends in another.
pub open spec fn is_suffix(s: Seq<char>, tail: Seq<char>) -> bool {
    tail.len() <= s.len() && s.skip(s.len() - tail.len()) == tail
}

/// Whether a text ends in `tail` once its letters from A to Z are put in lower case.
pub fn lowercase_ends_with(s: &str, tail: &str) -> (r: bool)
    ensures
        r == is_suffix(ascii_lowercase(s@), tail@),
{
    let cs = to_chars(s);
    let ts = to_chars(tail);
    let ghost low = ascii_lowercase(s@);
    if ts.len() > cs.len() {
        return false;
    }
    let start: usize = cs.len() - ts.len();
    let mut i: usize = 0;
    while i < ts.len()
        invariant
            cs@ == s@,
            ts@ == tail@,
            low == ascii_lowercase(s@),
            i <= ts.len() <= cs.len(),
            start == cs.len() - ts.len(),
            forall|j: int| 0 <= j < i ==> low[start + j] == #[trigger] ts@[j],
        decreases ts.len() - i,
    {
        let c = cs[start + i];
        let t = ts[i];
        let equal = if 'A' <= c && c <= 'Z' {
            c as u32 + 32 == t as u32
        } else {
            c == t
        };
        proof {
            assert(low[start + i] == ascii_lower(c));
            if 'A' <= c && c <= 'Z' {
                assert(ascii_lower(c) as u32 == c as u32 + 32);
            }
            char_u32_cast(t, t as u32);
            char_u32_cast(ascii_lower(c), ascii_lower(c) as u32);
            assert(equal == (ascii_lower(c) == t));
        }
        if !equal {
            proof {
                assert(low.skip(start as int)[i as int] != tail@[i as int]);
            }
            return false;
        }
        i += 1;
    }
    proof {
        assert(low.skip(start as int) =~= tail@);
    }
    true
}

/// Two texts with a slash between them.
pub open spec fn slash_joined(a: Seq<char>, b: Seq<char>) -> Seq<char> {
    a.push('/') + b
}

/// Two texts with a dot between them.
pub open spec fn dot_joined(a: Seq<char>, b: Seq<char>) -> Seq<char> {
    a.push('.') + b
}

/// Joins two texts with a slash.
pub fn join_with_slash(a: &str, b: &str) -> (r: String)
    ensures
        r@ == slash_joined(a@, b@),
{
    proof {
        reveal_strlit("/");
    }
    let mut r = a.to_owned();
    r.append("/");
    r.append(b);
    assert(r@ =~= slash_joined(a@, b@));
    r
}

/// Joins two texts with a dot.
pub fn join_with_dot(a: &str, b: &str) -> (r: String)
    ensures
        r@ == dot_joined(a@, b@),
{
    proof {
        reveal_strlit(".");
    }
    let mut r = a.to_owned();
    r.append(".");
    r.append(b);
    assert(r@ =~= dot_joined(a@, b@));
    r
}

} // verus!
