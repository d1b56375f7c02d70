//! Paths: where a prim, or a property of one, stands in a scene.
//!
//! A prim path is a slash, or names joined by slashes, most often after a leading slash. A
//! property path is a prim path other than the slash, a dot and the property's name.
use crate::error::Error;
use crate::text;
use vstd::prelude::*;

verus! {

/// Whether a text is the path of a prim.
pub open spec fn is_prim_text(s: Seq<char>) -> bool {
    &&& s.len() > 0
    &&& !s.contains('.')
    &&& s == seq!['/'] || (s.last() != '/' && forall|i: int|
        0 <= i < s.len() - 1 && s[i] == '/' ==> #[trigger] s[i + 1] != '/')
}

/// Whether a text is the name of a prim or of a property.
pub open spec fn is_name(s: Seq<char>) -> bool {
    s.len() > 0 && !s.contains('.') && !s.contains('/')
}

/// Whether a prim path can have properties: the root cannot.
pub open spec fn holds_properties(s: Seq<char>) -> bool {
    is_prim_text(s) && s != seq!['/']
}

/// The part of a path before the dot: the path of the prim.
pub open spec fn prim_part(s: Seq<char>) -> Seq<char> {
    s.take(text::first_index(s, '.'))
}

/// Whether a text is a path.
pub open spec fn is_path_text(s: Seq<char>) -> bool {
    if s.contains('.') {
        holds_properties(prim_part(s)) && is_name(s.skip(text::first_index(s, '.') + 1))
    } else {
        is_prim_text(s)
    }
}

/// The path of a property of the prim at `s`.
pub open spec fn property(s: Seq<char>, name: Seq<char>) -> Option<Seq<char>> {
    if holds_properties(s) && is_name(name) {
        Some(text::dot_joined(s, name))
    } else {
        None
    }
}

/// The path above `s`: what stands before its last slash, unless that is nothing.
pub open spec fn parent(s: Seq<char>) -> Option<Seq<char>> {
    match text::last_index(s, '/') {
        Some(k) => if k == 0 {
            None
        } else {
            Some(s.take(k))
        },
        None => None,
    }
}

/// The path of the prim `name` under the one at `s`, where the two make one.
pub open spec fn child(s: Seq<char>, name: Seq<char>) -> Option<Seq<char>> {
    if is_path_text(text::slash_joined(s, name)) {
        Some(text::slash_joined(s, name))
    } else {
        None
    }
}

/// The last name in a path. The root has none.
pub open spec fn name_of(s: Seq<char>) -> Option<Seq<char>> {
    if s == seq!['/'] {
        None
    } else if s.contains('.') {
        Some(s.skip(text::first_index(s, '.') + 1))
    } else {
        match text::last_index(s, '/') {
            Some(k) => Some(s.skip(k + 1)),
            None => Some(s),
        }
    }
}

/// A path in a scene. Its text always is one.
#[derive(Debug, PartialEq, Eq)]
pub struct Path {
    text: String,
}

impl View for Path {
    type V = Seq<char>;

    closed spec fn view(&self) -> Seq<char> {
        self.text@
    }
}

impl Clone for Path {
    fn clone(&self) -> (r: Self)
        ensures
            r@ == self@,
    {
        proof {
            use_type_invariant(self);
        }
        Path { text: self.text.clone() }
    }
}

/// Whether characters are the path of a prim.
fn is_prim_path(s: &Vec<char>) -> (r: bool)
    ensures
        r == is_prim_text(s@),
{
    if s.len() == 0 || text::find_first(s, '.') < s.len() {
        proof {
            text::lemma_first_index(s@, '.');
        }
        return false;
    }
    proof {
        text::lemma_first_index(s@, '.');
        assert(!s@.contains('.'));
    }
    if s.len() == 1 && s[0] == '/' {
        proof {
            assert(s@ =~= seq!['/']);
        }
        return true;
    }
    proof {
        assert(s@ != seq!['/']) by {
            assert(seq!['/'].len() == 1 && seq!['/'][0] == '/');
        }
    }
    if s[s.len() - 1] == '/' {
        return false;
    }
    let mut i: usize = 1;
    while i < s.len()
        invariant
            1 <= i <= s.len(),
            forall|j: int| 0 <= j < i - 1 && s@[j] == '/' ==> #[trigger] s@[j + 1] != '/',
        decreases s.len() - i,
    {
        if s[i - 1] == '/' && s[i] == '/' {
            proof {
                assert(s@[i - 1 + 1] == '/');
            }
            return false;
        }
        i += 1;
    }
    true
}

/// Whether characters are a name.
fn is_plain_name(s: &Vec<char>) -> (r: bool)
    ensures
        r == is_name(s@),
{
    proof {
        text::lemma_first_index(s@, '.');
        text::lemma_first_index(s@, '/');
    }
    s.len() > 0 && text::find_first(s, '.') == s.len() && text::find_first(s, '/') == s.len()
}

/// A part of some characters.
fn cut(s: &Vec<char>, from: usize, to: usize) -> (r: Vec<char>)
    requires
        from <= to <= s.len(),
    ensures
        r@ == s@.subrange(from as int, to as int),
{
    let mut r: Vec<char> = Vec::new();
    let mut i: usize = from;
    while i < to
        invariant
            from <= i <= to <= s.len(),
            r@ == s@.subrange(from as int, i as int),
        decreases to - i,
    {
        r.push(s[i]);
        i += 1;
    }
    r
}

/// Whether characters are a path.
fn is_path(s: &Vec<char>) -> (r: bool)
    ensures
        r == is_path_text(s@),
{
    let dot: usize = text::find_first(s, '.');
    proof {
        text::lemma_first_index(s@, '.');
    }
    if dot == s.len() {
        proof {
            assert(!s@.contains('.'));
        }
        is_prim_path(s)
    } else {
        proof {
            assert(s@.contains('.'));
        }
        let before = cut(s, 0, dot);
        let after = cut(s, dot + 1, s.len());
        proof {
            assert(before@ =~= prim_part(s@));
            assert(after@ =~= s@.skip(dot + 1));
            assert(seq!['/'].len() == 1 && seq!['/'][0] == '/');
            if before@.len() == 1 && before@[0] == '/' {
                assert(before@ =~= seq!['/']);
            }
        }
        is_prim_path(&before) && !(before.len() == 1 && before[0] == '/') && is_plain_name(&after)
    }
}

/// What stands before the last slash of a path is the path of a prim.
pub proof fn lemma_parent_is_prim(s: Seq<char>)
    requires
        is_path_text(s),
    ensures
        parent(s) matches Some(q) ==> is_prim_text(q) && holds_properties(q) && q.len() < s.len(),
{
    text::lemma_last_index(s, '/');
    text::lemma_first_index(s, '.');
    if parent(s) is Some {
        let k = text::last_index(s, '/')->0;
        let q = s.take(k);
        let dot = text::first_index(s, '.');
        if s.contains('.') {
            if k > dot {
                let name = s.skip(dot + 1);
                assert(name[k - dot - 1] == '/');
                assert(name.contains('/'));
            }
            let p = prim_part(s);
            assert(p[k] == s[k]);
            assert(p.len() == 1 ==> p =~= seq!['/']);
            assert forall|i: int| 0 <= i < q.len() implies q[i] != '.' by {}
            assert(p[k - 1 + 1] == '/');
            assert(p[k - 1] != '/');
            assert forall|i: int| 0 <= i < q.len() - 1 && q[i] == '/' implies #[trigger] q[i + 1]
                != '/' by {
                assert(p[i] == q[i] && p[i + 1] == q[i + 1]);
            }
        } else {
            assert forall|i: int| 0 <= i < q.len() implies q[i] != '.' by {
                assert(s[i] == q[i]);
            }
            assert(seq!['/'].len() == 1);
            assert(s[k - 1 + 1] == '/');
            assert(s[k - 1] != '/');
            assert forall|i: int| 0 <= i < q.len() - 1 && q[i] == '/' implies #[trigger] q[i + 1]
                != '/' by {
                assert(s[i] == q[i] && s[i + 1] == q[i + 1]);
            }
        }
        assert(q.last() == s[k - 1]);
        assert(q != seq!['/']) by {
            assert(seq!['/'].last() == '/');
        }
    }
}

/// A property path is a path, and its prim is the one that it was made from.
pub proof fn lemma_property_is_path(s: Seq<char>, name: Seq<char>)
    requires
        holds_properties(s),
        is_name(name),
    ensures
        is_path_text(text::dot_joined(s, name)),
        prim_part(text::dot_joined(s, name)) == s,
        name_of(text::dot_joined(s, name)) == Some(name),
{
    let t = text::dot_joined(s, name);
    assert(t[s.len() as int] == '.');
    assert forall|j: int| 0 <= j < s.len() implies t[j] != '.' by {
        assert(t[j] == s[j]);
        assert(s.contains(s[j]));
    }
    text::lemma_first_index_is(t, '.', s.len() as int);
    assert(t.take(s.len() as int) =~= s);
    assert(t.skip(s.len() as int + 1) =~= name);
    assert(t.contains('.'));
    assert(t != seq!['/']) by {
        assert(seq!['/'].len() == 1);
    }
}

impl Path {
    /// The text of a path is one.
    #[verifier::type_invariant]
    pub open spec fn well_formed(&self) -> bool {
        is_path_text(self@)
    }

    /// The path that a text stands for.
    pub fn new(s: &str) -> (r: Result<Path, Error>)
        ensures
            r is Ok <==> is_path_text(s@),
            r matches Ok(p) ==> p@ == s@,
            r matches Err(e) ==> e@ == (crate::error::ErrorView::InvalidPath { text: s@ }),
    {
        let cs = text::to_chars(s);
        if is_path(&cs) {
            Ok(Path { text: s.to_owned() })
        } else {
            Err(Error::InvalidPath { text: s.to_owned() })
        }
    }

    /// The text of the path.
    pub fn as_str(&self) -> (r: &str)
        ensures
            r@ == self@,
    {
        self.text.as_str()
    }

    /// Whether this is the path of a prim other than the root.
    pub fn is_prim(&self) -> (r: bool)
        ensures
            r == holds_properties(self@),
    {
        let cs = text::to_chars(self.text.as_str());
        proof {
            assert(seq!['/'].len() == 1 && seq!['/'][0] == '/');
            if cs@.len() == 1 && cs@[0] == '/' {
                assert(cs@ =~= seq!['/']);
            }
        }
        is_prim_path(&cs) && !(cs.len() == 1 && cs[0] == '/')
    }

    /// The path of a property of this prim.
    pub fn append_property(&self, name: &str) -> (r: Result<Path, Error>)
        ensures
            r is Ok <==> property(self@, name@) is Some,
            r matches Ok(p) ==> property(self@, name@) == Some(p@),
            r matches Err(e) ==> e@ == (crate::error::ErrorView::InvalidPath {
                text: text::dot_joined(self@, name@),
            }),
    {
        let ns = text::to_chars(name);
        let joined = text::join_with_dot(self.text.as_str(), name);
        if self.is_prim() && is_plain_name(&ns) {
            proof {
                lemma_property_is_path(self@, name@);
            }
            Ok(Path { text: joined })
        } else {
            Err(Error::InvalidPath { text: joined })
        }
    }

    /// The path of the prim that this path names or whose property it names.
    pub fn prim_path(&self) -> (r: Path)
        ensures
            r@ == prim_part(self@),
    {
        proof {
            use_type_invariant(self);
            text::lemma_first_index(self@, '.');
            lemma_prim_part(self@);
        }
        let cs = text::to_chars(self.text.as_str());
        let dot: usize = text::find_first(&cs, '.');
        Path { text: self.text.as_str().substring_char(0, dot).to_owned() }
    }

    /// The last name in the path. The root has none.
    pub fn name(&self) -> (r: Option<String>)
        ensures
            match r {
                Some(n) => name_of(self@) == Some(n@),
                None => name_of(self@) is None,
            },
    {
        let cs = text::to_chars(self.text.as_str());
        let dot: usize = text::find_first(&cs, '.');
        proof {
            text::lemma_first_index(self@, '.');
            text::lemma_last_index(self@, '/');
            assert(seq!['/'].len() == 1 && seq!['/'][0] == '/');
            if cs@.len() == 1 && cs@[0] == '/' {
                assert(cs@ =~= seq!['/']);
            }
        }
        if cs.len() == 1 && cs[0] == '/' {
            return None;
        }
        let from: usize = if dot < cs.len() {
            dot + 1
        } else {
            match text::find_last(&cs, '/') {
                Some(k) => k + 1,
                None => 0,
            }
        };
        let r = self.text.as_str().substring_char(from, cs.len()).to_owned();
        proof {
            assert(r@ =~= self@.skip(from as int));
            assert(self@.skip(0) =~= self@);
        }
        Some(r)
    }
}

/// The prim part of a path is the path of a prim.
pub proof fn lemma_prim_part(s: Seq<char>)
    requires
        is_path_text(s),
    ensures
        is_prim_text(prim_part(s)),
        is_path_text(prim_part(s)),
{
    text::lemma_first_index(s, '.');
    if !s.contains('.') {
        assert(prim_part(s) =~= s);
    }
}

/// The path above a path, if any.
pub fn parent_path(path: &Path) -> (r: Option<Path>)
    ensures
        match r {
            Some(p) => parent(path@) == Some(p@),
            None => parent(path@) is None,
        },
{
    let cs = text::to_chars(path.as_str());
    let slash: usize = match text::find_last(&cs, '/') {
        Some(k) => k,
        None => {
            return None;
        },
    };
    if slash == 0 {
        return None;
    }
    proof {
        use_type_invariant(path);
        lemma_parent_is_prim(path@);
        text::lemma_last_index(path@, '/');
    }
    match Path::new(path.as_str().substring_char(0, slash)) {
        Ok(p) => Some(p),
        Err(_) => None,
    }
}

/// The path of the root.
pub fn root_path() -> (r: Path)
    ensures
        r@ == seq!['/'],
{
    let mut text = String::new();
    text.append("/");
    proof {
        reveal_strlit("/");
        assert(text@ =~= seq!['/']);
        assert(!seq!['/'].contains('.'));
    }
    Path { text }
}

/// The prim that holds the one at `s`: the one above it, or the root.
pub open spec fn holder(s: Seq<char>) -> Seq<char> {
    match parent(s) {
        Some(q) => q,
        None => seq!['/'],
    }
}

/// Whether the path `s` is `top` or stands somewhere under it.
pub open spec fn is_within(s: Seq<char>, top: Seq<char>) -> bool {
    s == top || (top.len() < s.len() && s.take(top.len() as int) == top && s[top.len() as int]
        == '/')
}

/// Whether a path is another one or stands somewhere under it.
pub fn path_is_within(s: &Path, top: &Path) -> (r: bool)
    ensures
        r == is_within(s@, top@),
{
    let cs = text::to_chars(s.as_str());
    let ts = text::to_chars(top.as_str());
    if cs.len() < ts.len() {
        return false;
    }
    let mut i: usize = 0;
    while i < ts.len()
        invariant
            cs@ == s@,
            ts@ == top@,
            i <= ts.len() <= cs.len(),
            forall|j: int| 0 <= j < i ==> cs@[j] == ts@[j],
        decreases ts.len() - i,
    {
        if cs[i] != ts[i] {
            proof {
                assert(s@.take(top@.len() as int)[i as int] != top@[i as int]);
            }
            return false;
        }
        i += 1;
    }
    proof {
        assert(s@.take(top@.len() as int) =~= top@);
        if s@.len() == top@.len() {
            assert(s@ =~= top@);
        }
    }
    cs.len() == ts.len() || cs[ts.len()] == '/'
}

} // verus!
