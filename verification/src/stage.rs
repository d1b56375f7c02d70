//! The stage: what a composed scene answers when it is asked.
//!
//! A stage holds the answers themselves. Something else composes the scene and records them;
//! what was never recorded is absent.
use crate::error::{Error, ErrorView};
use crate::path::{parent_path, path_is_within, root_path, Path};
use crate::table::{FieldKey, Table};
use crate::text;
use crate::value::Value;
use vstd::prelude::*;

verus! {

/// Which payloads are loaded when a stage is opened.
#[derive(Clone, Copy, Debug, PartialEq, Eq, Structural)]
pub enum InitialLoadSet {
    LoadAll,
    LoadNone,
}

/// Whether a viewer wants payloads loaded.
#[derive(Clone, Copy, Debug, PartialEq, Eq, Structural)]
pub enum StageLoadPolicy {
    LoadAll,
    NoPayloads,
}

impl Default for StageLoadPolicy {
    fn default() -> (r: Self)
        ensures
            r == StageLoadPolicy::LoadAll,
    {
        StageLoadPolicy::LoadAll
    }
}

/// Something that went wrong while the scene was composed.
#[derive(Debug, PartialEq, Eq)]
pub enum CompositionError {
    /// The layer of an arc could not be found.
    UnresolvedLayer { asset_path: String },
    /// A sublayer could not be found.
    UnresolvedSublayer { asset_path: String },
    /// Anything else.
    Other { message: String },
}

impl CompositionError {
    /// The asset that could not be found, where that is what went wrong.
    pub open spec fn missing_asset(self) -> Option<Seq<char>> {
        match self {
            CompositionError::UnresolvedLayer { asset_path } => Some(asset_path@),
            CompositionError::UnresolvedSublayer { asset_path } => Some(asset_path@),
            CompositionError::Other { .. } => None,
        }
    }
}

/// The texts of paths.
pub open spec fn path_texts(v: Seq<Path>) -> Seq<Seq<char>> {
    v.map_values(|p: Path| p@)
}

/// The texts of the paths of an answer.
pub open spec fn link_texts(a: Result<Vec<Path>, ErrorView>) -> Result<Seq<Seq<char>>, ErrorView> {
    match a {
        Ok(v) => Ok(path_texts(v@)),
        Err(e) => Err(e),
    }
}

/// The model of a [`Stage`].
pub struct StageView {
    /// The identifier of the root layer.
    pub identifier: Seq<char>,
    /// Which payloads were loaded.
    pub load: InitialLoadSet,
    /// The prims that a traversal of the whole scene visits, in its order.
    pub traversal: Seq<Seq<char>>,
    /// What the fields that hold a value answer.
    pub values: Map<(Seq<char>, FieldKey), Result<Value, ErrorView>>,
    /// What the fields that hold paths answer.
    pub links: Map<(Seq<char>, FieldKey), Result<Seq<Seq<char>>, ErrorView>>,
    /// What went wrong while the whole scene was composed.
    pub errors: Seq<CompositionError>,
    /// The asset paths that can be found.
    pub found: Set<Seq<char>>,
}

impl StageView {
    /// What a field that holds a value answers.
    pub open spec fn field(self, path: Seq<char>, key: FieldKey) -> Result<
        Option<Value>,
        ErrorView,
    > {
        if self.values.contains_key((path, key)) {
            match self.values[(path, key)] {
                Ok(v) => Ok(Some(v)),
                Err(e) => Err(e),
            }
        } else {
            Ok(None)
        }
    }

    /// The value of a field, where it has one that can be had.
    pub open spec fn value(self, path: Seq<char>, key: FieldKey) -> Option<Value> {
        match self.field(path, key) {
            Ok(v) => v,
            Err(_) => None,
        }
    }

    /// What a field that holds paths answers.
    pub open spec fn paths(self, path: Seq<char>, key: FieldKey) -> Result<
        Seq<Seq<char>>,
        ErrorView,
    > {
        if self.links.contains_key((path, key)) {
            self.links[(path, key)]
        } else {
            Ok(seq![])
        }
    }

    /// The first path that a field holds, where it holds one and can be had.
    pub open spec fn first_path(self, path: Seq<char>, key: FieldKey) -> Option<Seq<char>> {
        match self.paths(path, key) {
            Ok(v) => if v.len() > 0 {
                Some(v[0])
            } else {
                None
            },
            Err(_) => None,
        }
    }
}

/// The place right after the last prim of `t` that is `top` or stands under it.
pub open spec fn place_after(t: Seq<Seq<char>>, top: Seq<char>) -> Option<int>
    decreases t.len(),
{
    if t.len() == 0 {
        None
    } else if crate::path::is_within(t.last(), top) {
        Some(t.len() as int)
    } else {
        place_after(t.drop_last(), top)
    }
}

/// The place at which a new prim under `top` is visited: after everything under `top`, or last.
pub open spec fn place_under(t: Seq<Seq<char>>, top: Seq<char>) -> int {
    match place_after(t, top) {
        Some(k) => k,
        None => t.len() as int,
    }
}

impl StageView {
    /// The stage with one more prim, unless it is there already: it becomes the last child of the
    /// prim above it, and is visited right after what was visited under that prim.
    pub open spec fn with_prim(self, path: Seq<char>) -> StageView {
        let top = crate::path::holder(path);
        if self.traversal.contains(path) {
            self
        } else {
            StageView {
                traversal: self.traversal.insert(place_under(self.traversal, top), path),
                links: match self.paths(top, FieldKey::PrimChildren) {
                    Ok(v) => self.links.insert(
                        (top, FieldKey::PrimChildren),
                        Ok(v.push(path)),
                    ),
                    Err(_) => self.links,
                },
                ..self
            }
        }
    }
}

/// A composed scene, as the answers that it gives.
#[derive(Debug)]
pub struct Stage {
    identifier: String,
    load: InitialLoadSet,
    traversal: Vec<Path>,
    values: Table<Value>,
    links: Table<Vec<Path>>,
    errors: Vec<CompositionError>,
    found: Vec<String>,
}

/// The answers of a table of paths, as texts.
pub open spec fn link_answers(t: Map<(Seq<char>, FieldKey), Result<Vec<Path>, ErrorView>>) -> Map<
    (Seq<char>, FieldKey),
    Result<Seq<Seq<char>>, ErrorView>,
> {
    t.map_values(|a: Result<Vec<Path>, ErrorView>| link_texts(a))
}

impl View for Stage {
    type V = StageView;

    closed spec fn view(&self) -> StageView {
        StageView {
            identifier: self.identifier@,
            load: self.load,
            traversal: path_texts(self.traversal@),
            values: self.values@,
            links: link_answers(self.links@),
            errors: self.errors@,
            found: crate::value::texts(self.found@).to_set(),
        }
    }
}

/// How a stage is going to be opened.
#[derive(Debug)]
pub struct StageBuilder {
    load: InitialLoadSet,
}

impl StageBuilder {
    /// Which payloads will be loaded.
    pub closed spec fn load_set(self) -> InitialLoadSet {
        self.load
    }

    /// Chooses which payloads are loaded.
    pub fn load(self, load: InitialLoadSet) -> (r: Self)
        ensures
            r.load_set() == load,
    {
        StageBuilder { load }
    }

    /// Chooses which payloads are loaded: all of them, or none.
    pub fn load_policy(self, policy: StageLoadPolicy) -> (r: Self)
        ensures
            r.load_set() == (match policy {
                StageLoadPolicy::LoadAll => InitialLoadSet::LoadAll,
                StageLoadPolicy::NoPayloads => InitialLoadSet::LoadNone,
            }),
    {
        match policy {
            StageLoadPolicy::LoadAll => self.load(InitialLoadSet::LoadAll),
            StageLoadPolicy::NoPayloads => self.load(InitialLoadSet::LoadNone),
        }
    }

    /// Opens an empty stage.
    pub fn in_memory(self, identifier: &str) -> (r: Stage)
        ensures
            r@ == (StageView {
                identifier: identifier@,
                load: self.load_set(),
                traversal: seq![],
                values: Map::empty(),
                links: Map::empty(),
                errors: seq![],
                found: Set::empty(),
            }),
    {
        let r = Stage {
            identifier: identifier.to_owned(),
            load: self.load,
            traversal: Vec::new(),
            values: Table::new(),
            links: Table::new(),
            errors: Vec::new(),
            found: Vec::new(),
        };
        proof {
            assert(r@.traversal =~= seq![]);
            assert(r@.links =~= Map::empty());
            assert(r@.errors =~= seq![]);
            assert(r@.found =~= Set::empty());
        }
        r
    }
}

impl Stage {
    /// A builder that loads everything.
    pub fn builder() -> (r: StageBuilder)
        ensures
            r.load_set() == InitialLoadSet::LoadAll,
    {
        StageBuilder { load: InitialLoadSet::LoadAll }
    }

    /// Adds a prim. The root and a property are none.
    pub fn define_prim(&mut self, path: &Path) -> (r: Result<(), Error>)
        ensures
            r is Ok <==> crate::path::holds_properties(path@),
            r is Ok ==> final(self)@ == old(self)@.with_prim(path@),
            r matches Err(e) ==> final(self)@ == old(self)@ && e@ == (ErrorView::InvalidPath {
                text: path@,
            }),
    {
        if !path.is_prim() {
            return Err(Error::InvalidPath { text: path.as_str().to_owned() });
        }
        let top = match parent_path(path) {
            Some(q) => q,
            None => root_path(),
        };
        let ghost visited = path_texts(self.traversal@);
        let ghost before = self@;
        let mut i: usize = self.traversal.len();
        let mut place: Option<usize> = None;
        proof {
            assert(visited.take(i as int) =~= visited);
        }
        while i > 0
            invariant
                i <= self.traversal.len(),
                crate::path::holds_properties(path@),
                visited == path_texts(self.traversal@),
                forall|j: int| i <= j < visited.len() ==> visited[j] != path@,
                match place {
                    Some(k) => k <= visited.len() && place_after(visited, top@) == Some(k as int),
                    None => place_after(visited, top@) == place_after(
                        visited.take(i as int),
                        top@,
                    ),
                },
            decreases i,
        {
            let ghost rest = visited.take(i as int);
            proof {
                assert(rest.last() == visited[i - 1]);
                assert(rest.drop_last() =~= visited.take(i - 1));
            }
            if text::same(self.traversal[i - 1].as_str(), path.as_str()) {
                proof {
                    assert(visited[i - 1] == path@);
                }
                return Ok(());
            }
            if place.is_none() && path_is_within(&self.traversal[i - 1], &top) {
                place = Some(i);
            }
            i -= 1;
        }
        let at: usize = match place {
            Some(k) => k,
            None => self.traversal.len(),
        };
        self.traversal.insert(at, path.clone());
        proof {
            assert(path_texts(self.traversal@) =~= visited.insert(at as int, path@));
            assert(self@.paths(top@, FieldKey::PrimChildren) == before.paths(
                top@,
                FieldKey::PrimChildren,
            ));
        }
        match self.paths(&top, FieldKey::PrimChildren) {
            Ok(mut children) => {
                let ghost old_children = path_texts(children@);
                children.push(path.clone());
                assert(path_texts(children@) =~= old_children.push(path@));
                self.set_paths(&top, FieldKey::PrimChildren, Ok(children));
            },
            Err(_) => {},
        }
        Ok(())
    }

    /// Records what a field that holds a value answers.
    pub fn set_value(&mut self, path: &Path, key: FieldKey, answer: Result<Value, Error>)
        ensures
            final(self)@ == (StageView {
                values: old(self)@.values.insert(
                    (path@, key),
                    crate::table::answer_view(answer),
                ),
                ..old(self)@
            }),
    {
        self.values.set(path.clone(), key, answer);
    }

    /// Records what a field that holds paths answers.
    pub fn set_paths(&mut self, path: &Path, key: FieldKey, answer: Result<Vec<Path>, Error>)
        ensures
            final(self)@ == (StageView {
                links: old(self)@.links.insert(
                    (path@, key),
                    link_texts(crate::table::answer_view(answer)),
                ),
                ..old(self)@
            }),
    {
        self.links.set(path.clone(), key, answer);
        assert(self@.links =~= old(self)@.links.insert(
            (path@, key),
            link_texts(crate::table::answer_view(answer)),
        ));
    }

    /// Records something that went wrong while the scene was composed.
    pub fn add_composition_error(&mut self, error: CompositionError)
        ensures
            final(self)@ == (StageView { errors: old(self)@.errors.push(error), ..old(self)@ }),
    {
        self.errors.push(error);
    }

    /// Records that an asset path can be found.
    pub fn add_found_asset(&mut self, asset_path: &str)
        ensures
            final(self)@ == (StageView {
                found: old(self)@.found.insert(asset_path@),
                ..old(self)@
            }),
    {
        let ghost before = crate::value::texts(self.found@);
        self.found.push(asset_path.to_owned());
        proof {
            let after = crate::value::texts(self.found@);
            assert(after =~= before.push(asset_path@));
            assert(after.to_set() =~= before.to_set().insert(asset_path@)) by {
                assert(after[before.len() as int] == asset_path@);
                assert forall|s: Seq<char>| before.contains(s) implies after.contains(s) by {
                    let i = choose|i: int| 0 <= i < before.len() && before[i] == s;
                    assert(after[i] == s);
                }
            }
        }
    }

    /// Which payloads were loaded.
    pub fn load(&self) -> (r: InitialLoadSet)
        ensures
            r == self@.load,
    {
        self.load
    }

    /// The identifier of the root layer.
    pub fn root_layer_identifier(&self) -> (r: &str)
        ensures
            r@ == self@.identifier,
    {
        self.identifier.as_str()
    }

    /// The prims that a traversal of the whole scene visits, in its order.
    pub fn traverse(&self) -> (r: &Vec<Path>)
        ensures
            path_texts(r@) == self@.traversal,
    {
        &self.traversal
    }

    /// What went wrong while the whole scene was composed.
    pub fn composition_errors(&self) -> (r: &Vec<CompositionError>)
        ensures
            r@ == self@.errors,
    {
        &self.errors
    }

    /// Whether an asset path can be found.
    pub fn asset_resolves(&self, asset_path: &str) -> (r: bool)
        ensures
            r == self@.found.contains(asset_path@),
    {
        let ghost all = crate::value::texts(self.found@);
        let mut i: usize = 0;
        while i < self.found.len()
            invariant
                i <= self.found.len(),
                all == crate::value::texts(self.found@),
                forall|j: int| 0 <= j < i ==> all[j] != asset_path@,
            decreases self.found.len() - i,
        {
            if text::same(self.found[i].as_str(), asset_path) {
                proof {
                    assert(all[i as int] == asset_path@);
                }
                return true;
            }
            i += 1;
        }
        false
    }

    /// The value of a field.
    pub fn field(&self, path: &Path, key: FieldKey) -> (r: Result<Option<&Value>, Error>)
        ensures
            match r {
                Ok(Some(v)) => self@.field(path@, key) == Ok::<Option<Value>, ErrorView>(Some(*v)),
                Ok(None) => self@.field(path@, key) == Ok::<Option<Value>, ErrorView>(None),
                Err(e) => self@.field(path@, key) == Err::<Option<Value>, ErrorView>(e@),
            },
    {
        match self.values.get(path, key) {
            Some(Ok(v)) => Ok(Some(v)),
            Some(Err(e)) => Err(e.clone()),
            None => Ok(None),
        }
    }

    /// The value of a field, where it has one that can be had.
    pub fn value(&self, path: &Path, key: FieldKey) -> (r: Option<&Value>)
        ensures
            match r {
                Some(v) => self@.value(path@, key) == Some(*v),
                None => self@.value(path@, key) is None,
            },
    {
        match self.values.get(path, key) {
            Some(Ok(v)) => Some(v),
            _ => None,
        }
    }

    /// The paths that a field holds.
    pub fn paths(&self, path: &Path, key: FieldKey) -> (r: Result<Vec<Path>, Error>)
        ensures
            match r {
                Ok(v) => self@.paths(path@, key) == Ok::<Seq<Seq<char>>, ErrorView>(path_texts(v@)),
                Err(e) => self@.paths(path@, key) == Err::<Seq<Seq<char>>, ErrorView>(e@),
            },
    {
        match self.links.get(path, key) {
            Some(Ok(v)) => Ok(copy_paths(v)),
            Some(Err(e)) => Err(e.clone()),
            None => {
                let r: Vec<Path> = Vec::new();
                assert(path_texts(r@) =~= seq![]);
                Ok(r)
            },
        }
    }

    /// The first path that a field holds, where it holds one and can be had.
    pub fn first_path(&self, path: &Path, key: FieldKey) -> (r: Option<Path>)
        ensures
            match r {
                Some(p) => self@.first_path(path@, key) == Some(p@),
                None => self@.first_path(path@, key) is None,
            },
    {
        match self.links.get(path, key) {
            Some(Ok(v)) => if v.len() > 0 {
                Some(v[0].clone())
            } else {
                None
            },
            _ => None,
        }
    }
}

/// Copies paths.
pub fn copy_paths(v: &Vec<Path>) -> (r: Vec<Path>)
    ensures
        path_texts(r@) == path_texts(v@),
{
    let mut r: Vec<Path> = Vec::new();
    let mut i: usize = 0;
    while i < v.len()
        invariant
            i <= v.len(),
            path_texts(r@) == path_texts(v@.take(i as int)),
        decreases v.len() - i,
    {
        let ghost before = r@;
        r.push(v[i].clone());
        i += 1;
        assert(path_texts(r@) =~= path_texts(before).push(v@[i - 1]@));
        assert(path_texts(v@.take(i as int)) =~= path_texts(v@.take(i - 1)).push(v@[i - 1]@));
    }
    assert(v@.take(i as int) =~= v@);
    r
}

} // verus!
