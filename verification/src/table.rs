//! A table of what each field of each path answers.
use crate::error::{Error, ErrorView};
use crate::path::Path;
use crate::text;
use vstd::prelude::*;

verus! {

/// What can be asked of a path.
#[derive(Clone, Copy, Debug, PartialEq, Eq, Structural)]
pub enum FieldKey {
    /// The type of a prim.
    TypeName,
    /// The value of an attribute outside of any time.
    Default,
    /// The values of an attribute over time.
    TimeSamples,
    /// How many numbers of an array belong together.
    ElementSize,
    /// The references of a prim.
    References,
    /// The payloads of a prim.
    Payload,
    /// The prims under a prim.
    PrimChildren,
    /// The targets of a relationship.
    TargetPaths,
    /// The sources that an attribute is connected to.
    ConnectionPaths,
    /// Which axis of the scene points up, a field of the root.
    UpAxis,
    /// How many meters a unit of the scene has, a field of the root.
    MetersPerUnit,
}

/// One answer.
#[derive(Debug)]
pub struct Entry<V> {
    pub path: Path,
    pub key: FieldKey,
    pub answer: Result<V, Error>,
}

/// Answers by path and field. A later answer replaces an earlier one.
#[derive(Debug)]
pub struct Table<V> {
    entries: Vec<Entry<V>>,
}

/// An answer, with the model of its error.
pub open spec fn answer_view<V>(answer: Result<V, Error>) -> Result<V, ErrorView> {
    match answer {
        Ok(v) => Ok(v),
        Err(e) => Err(e@),
    }
}

/// What a list of answers amounts to.
pub open spec fn answers<V>(entries: Seq<Entry<V>>) -> Map<
    (Seq<char>, FieldKey),
    Result<V, ErrorView>,
>
    decreases entries.len(),
{
    if entries.len() == 0 {
        Map::empty()
    } else {
        answers(entries.drop_last()).insert(
            (entries.last().path@, entries.last().key),
            answer_view(entries.last().answer),
        )
    }
}

impl<V> View for Table<V> {
    type V = Map<(Seq<char>, FieldKey), Result<V, ErrorView>>;

    closed spec fn view(&self) -> Map<(Seq<char>, FieldKey), Result<V, ErrorView>> {
        answers(self.entries@)
    }
}

impl<V> Table<V> {
    /// A table without answers.
    pub fn new() -> (r: Self)
        ensures
            r@ == Map::<(Seq<char>, FieldKey), Result<V, ErrorView>>::empty(),
    {
        Table { entries: Vec::new() }
    }

    /// Records an answer.
    pub fn set(&mut self, path: Path, key: FieldKey, answer: Result<V, Error>)
        ensures
            final(self)@ == old(self)@.insert((path@, key), answer_view(answer)),
    {
        self.entries.push(Entry { path, key, answer });
        assert(self.entries@.drop_last() =~= old(self).entries@);
    }

    /// Looks an answer up.
    pub fn get(&self, path: &Path, key: FieldKey) -> (r: Option<&Result<V, Error>>)
        ensures
            match r {
                Some(a) => self@.contains_key((path@, key)) && self@[(path@, key)] == answer_view(*a),
                None => !self@.contains_key((path@, key)),
            },
    {
        let mut i: usize = self.entries.len();
        proof {
            assert(self.entries@.take(i as int) =~= self.entries@);
        }
        while i > 0
            invariant
                i <= self.entries.len(),
                self@.contains_key((path@, key)) == answers(
                    self.entries@.take(i as int),
                ).contains_key((path@, key)),
                self@.contains_key((path@, key)) ==> self@[(path@, key)] == answers(
                    self.entries@.take(i as int),
                )[(path@, key)],
            decreases i,
        {
            let ghost rest = self.entries@.take(i as int);
            proof {
                assert(rest.drop_last() =~= self.entries@.take(i - 1));
                assert(rest.last() == self.entries@[i - 1]);
            }
            let e = &self.entries[i - 1];
            if e.key == key && text::same(e.path.as_str(), path.as_str()) {
                return Some(&e.answer);
            }
            i -= 1;
        }
        None
    }
}

} // verus!
