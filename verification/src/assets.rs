//! The assets that a scene refers to: which are missing, and which were left unloaded.
use crate::path::Path;
use crate::stage::{CompositionError, InitialLoadSet, Stage, StageView};
use crate::table::FieldKey;
use crate::text;
use crate::value::{
    copy_payloads, copy_references, Payload, PayloadView, Reference, ReferenceView, Value,
};
use vstd::prelude::*;

verus! {

/// A payload that was not loaded, and the prim that has it.
#[derive(Debug, PartialEq, Eq)]
pub struct SkippedPayload {
    pub asset_path: String,
    pub prim_path: Path,
}

/// The model of a [`SkippedPayload`].
pub struct SkippedView {
    pub asset_path: Seq<char>,
    pub prim_path: Seq<char>,
}

impl View for SkippedPayload {
    type V = SkippedView;

    open spec fn view(&self) -> SkippedView {
        SkippedView { asset_path: self.asset_path@, prim_path: self.prim_path@ }
    }
}

impl Clone for SkippedPayload {
    fn clone(&self) -> (r: Self)
        ensures
            r@ == self@,
    {
        SkippedPayload { asset_path: self.asset_path.clone(), prim_path: self.prim_path.clone() }
    }
}

/// The models of several skipped payloads.
pub open spec fn skipped_views(v: Seq<SkippedPayload>) -> Seq<SkippedView> {
    v.map_values(|s: SkippedPayload| s@)
}

/// The assets of references.
pub open spec fn reference_assets(v: Seq<ReferenceView>) -> Seq<Seq<char>> {
    v.map_values(|r: ReferenceView| r.asset_path)
}

/// The assets of payloads.
pub open spec fn payload_assets(v: Seq<PayloadView>) -> Seq<Seq<char>> {
    v.map_values(|p: PayloadView| p.asset_path)
}

/// The payloads of a prim, each with the prim.
pub open spec fn skipped_at(v: Seq<PayloadView>, prim: Seq<char>) -> Seq<SkippedView> {
    v.map_values(|p: PayloadView| SkippedView { asset_path: p.asset_path, prim_path: prim })
}

/// The assets that composition errors say are missing, in order.
pub open spec fn missing_assets(errors: Seq<CompositionError>) -> Seq<Seq<char>>
    decreases errors.len(),
{
    if errors.len() == 0 {
        seq![]
    } else {
        let before = missing_assets(errors.drop_last());
        match errors.last().missing_asset() {
            Some(a) => before.push(a),
            None => before,
        }
    }
}

impl StageView {
    /// The references of a prim: those of its strongest opinion.
    pub open spec fn references(self, path: Seq<char>) -> Seq<ReferenceView> {
        match self.value(path, FieldKey::References) {
            Some(Value::ReferenceListOp(op)) => crate::value::reference_views(op@),
            _ => seq![],
        }
    }

    /// The payloads of a prim: those of its strongest opinion.
    pub open spec fn payloads(self, path: Seq<char>) -> Seq<PayloadView> {
        match self.value(path, FieldKey::Payload) {
            Some(Value::Payload(p)) => seq![p@],
            Some(Value::PayloadListOp(op)) => crate::value::payload_views(op@),
            _ => seq![],
        }
    }

    /// The assets that a prim refers to: those of its references, then those of its payloads.
    pub open spec fn assets_at(self, path: Seq<char>) -> Seq<Seq<char>> {
        reference_assets(self.references(path)) + payload_assets(self.payloads(path))
    }

    /// The assets that prims refer to, prim by prim.
    pub open spec fn assets_along(self, prims: Seq<Seq<char>>) -> Seq<Seq<char>>
        decreases prims.len(),
    {
        if prims.len() == 0 {
            seq![]
        } else {
            self.assets_along(prims.drop_last()) + self.assets_at(prims.last())
        }
    }

    /// Whether an asset path is one that should be found and is not. What is empty stands for the
    /// scene itself, and what holds a variable is not a path yet.
    pub open spec fn is_missing(self, asset: Seq<char>) -> bool {
        asset.len() > 0 && !text::has_variable(asset) && !self.found.contains(asset)
    }

    /// A report to which the missing ones of some assets are added, each once.
    pub open spec fn reported(self, report: Seq<Seq<char>>, assets: Seq<Seq<char>>) -> Seq<
        Seq<char>,
    >
        decreases assets.len(),
    {
        if assets.len() == 0 {
            report
        } else {
            let before = self.reported(report, assets.drop_last());
            if self.is_missing(assets.last()) && !before.contains(assets.last()) {
                before.push(assets.last())
            } else {
                before
            }
        }
    }

    /// The assets that are missing: those that composition stumbled over, then those that the
    /// prims refer to and that are not among them yet.
    pub open spec fn unresolved_assets(self) -> Seq<Seq<char>> {
        self.reported(missing_assets(self.errors), self.assets_along(self.traversal))
    }

    /// The payloads of prims, prim by prim.
    pub open spec fn payloads_along(self, prims: Seq<Seq<char>>) -> Seq<SkippedView>
        decreases prims.len(),
    {
        if prims.len() == 0 {
            seq![]
        } else {
            self.payloads_along(prims.drop_last()) + skipped_at(
                self.payloads(prims.last()),
                prims.last(),
            )
        }
    }

    /// The payloads that were not loaded.
    pub open spec fn skipped_payloads(self) -> Seq<SkippedView> {
        if self.load == InitialLoadSet::LoadNone {
            self.payloads_along(self.traversal)
        } else {
            seq![]
        }
    }
}

/// The references of a prim.
pub fn authored_references_at(stage: &Stage, path: &Path) -> (r: Vec<Reference>)
    ensures
        crate::value::reference_views(r@) == stage@.references(path@),
{
    match stage.value(path, FieldKey::References) {
        Some(Value::ReferenceListOp(op)) => copy_references(op),
        _ => {
            let r: Vec<Reference> = Vec::new();
            assert(crate::value::reference_views(r@) =~= seq![]);
            r
        },
    }
}

/// The payloads of a prim.
pub fn authored_payloads_at(stage: &Stage, path: &Path) -> (r: Vec<Payload>)
    ensures
        crate::value::payload_views(r@) == stage@.payloads(path@),
{
    match stage.value(path, FieldKey::Payload) {
        Some(Value::Payload(payload)) => {
            let mut r: Vec<Payload> = Vec::new();
            r.push(payload.clone());
            assert(crate::value::payload_views(r@) =~= seq![payload@]);
            r
        },
        Some(Value::PayloadListOp(op)) => copy_payloads(op),
        _ => {
            let r: Vec<Payload> = Vec::new();
            assert(crate::value::payload_views(r@) =~= seq![]);
            r
        },
    }
}

impl Stage {
    /// The references of a prim.
    pub fn references_in(&self, path: &Path) -> (r: Vec<Reference>)
        ensures
            crate::value::reference_views(r@) == self@.references(path@),
    {
        authored_references_at(self, path)
    }

    /// The payloads of a prim.
    pub fn payloads_in(&self, path: &Path) -> (r: Vec<Payload>)
        ensures
            crate::value::payload_views(r@) == self@.payloads(path@),
    {
        authored_payloads_at(self, path)
    }

    /// Lists the assets that composition errors say are missing.
    fn missing_in_errors(&self) -> (r: Vec<String>)
        ensures
            crate::value::texts(r@) == missing_assets(self@.errors),
    {
        let errors = self.composition_errors();
        let mut r: Vec<String> = Vec::new();
        let mut i: usize = 0;
        proof {
            assert(crate::value::texts(r@) =~= seq![]);
        }
        while i < errors.len()
            invariant
                i <= errors.len(),
                crate::value::texts(r@) == missing_assets(errors@.take(i as int)),
            decreases errors.len() - i,
        {
            let ghost before = r@;
            let error = &errors[i];
            i += 1;
            proof {
                assert(errors@.take(i as int).drop_last() =~= errors@.take(i - 1));
                assert(errors@.take(i as int).last() == *error);
            }
            match error {
                CompositionError::UnresolvedLayer { asset_path } => {
                    r.push(asset_path.clone());
                    assert(crate::value::texts(r@) =~= crate::value::texts(before).push(
                        asset_path@,
                    ));
                },
                CompositionError::UnresolvedSublayer { asset_path } => {
                    r.push(asset_path.clone());
                    assert(crate::value::texts(r@) =~= crate::value::texts(before).push(
                        asset_path@,
                    ));
                },
                CompositionError::Other { .. } => {},
            }
        }
        assert(errors@.take(i as int) =~= errors@);
        r
    }

    /// Lists the assets that a prim refers to.
    fn list_assets_at(&self, path: &Path) -> (r: Vec<String>)
        ensures
            crate::value::texts(r@) == self@.assets_at(path@),
    {
        let references = self.references_in(path);
        let payloads = self.payloads_in(path);
        let ghost from_references = reference_assets(crate::value::reference_views(references@));
        let ghost from_payloads = payload_assets(crate::value::payload_views(payloads@));
        let mut r: Vec<String> = Vec::new();
        let mut i: usize = 0;
        while i < references.len()
            invariant
                i <= references.len(),
                from_references == reference_assets(crate::value::reference_views(references@)),
                crate::value::texts(r@) == from_references.take(i as int),
            decreases references.len() - i,
        {
            let ghost before = r@;
            r.push(references[i].asset_path.clone());
            i += 1;
            assert(crate::value::texts(r@) =~= crate::value::texts(before).push(
                from_references[i - 1],
            ));
        }
        let mut j: usize = 0;
        proof {
            assert(from_references.take(i as int) =~= from_references);
            assert(from_references =~= from_references + from_payloads.take(0));
        }
        while j < payloads.len()
            invariant
                j <= payloads.len(),
                from_payloads == payload_assets(crate::value::payload_views(payloads@)),
                crate::value::texts(r@) == from_references + from_payloads.take(j as int),
            decreases payloads.len() - j,
        {
            let ghost before = r@;
            r.push(payloads[j].asset_path.clone());
            j += 1;
            assert(crate::value::texts(r@) =~= crate::value::texts(before).push(
                from_payloads[j - 1],
            ));
        }
        assert(from_payloads.take(j as int) =~= from_payloads);
        r
    }

    /// Adds the missing ones of some assets to a report, each once.
    fn report_missing(&self, report: &mut Vec<String>, assets: &Vec<String>)
        ensures
            crate::value::texts(final(report)@) == self@.reported(
                crate::value::texts(old(report)@),
                crate::value::texts(assets@),
            ),
    {
        let ghost start = crate::value::texts(report@);
        let ghost all = crate::value::texts(assets@);
        let mut i: usize = 0;
        while i < assets.len()
            invariant
                i <= assets.len(),
                all == crate::value::texts(assets@),
                start == crate::value::texts(old(report)@),
                crate::value::texts(report@) == self@.reported(start, all.take(i as int)),
            decreases assets.len() - i,
        {
            let asset = &assets[i];
            i += 1;
            proof {
                assert(all.take(i as int).drop_last() =~= all.take(i - 1));
                assert(all.take(i as int).last() == asset@);
            }
            if !asset.as_str().is_empty() && !text::contains_variable(asset.as_str())
                && !self.asset_resolves(asset.as_str()) && !is_listed(report, asset.as_str()) {
                let ghost before = report@;
                report.push(asset.clone());
                assert(crate::value::texts(report@) =~= crate::value::texts(before).push(asset@));
            }
        }
        assert(all.take(i as int) =~= all);
    }

    /// Lists the assets that are missing.
    pub fn unresolved_assets(&self) -> (r: Vec<String>)
        ensures
            crate::value::texts(r@) == self@.unresolved_assets(),
    {
        let mut unresolved = self.missing_in_errors();
        let ghost start = crate::value::texts(unresolved@);
        let prims = self.traverse();
        let ghost paths = crate::stage::path_texts(prims@);
        let mut i: usize = 0;
        while i < prims.len()
            invariant
                i <= prims.len(),
                paths == crate::stage::path_texts(prims@),
                crate::value::texts(unresolved@) == self@.reported(
                    start,
                    self@.assets_along(paths.take(i as int)),
                ),
            decreases prims.len() - i,
        {
            let assets = self.list_assets_at(&prims[i]);
            self.report_missing(&mut unresolved, &assets);
            i += 1;
            proof {
                let before = self@.assets_along(paths.take(i - 1));
                assert(paths.take(i as int).drop_last() =~= paths.take(i - 1));
                assert(paths.take(i as int).last() == prims@[i - 1]@);
                lemma_reported_concat(self@, start, before, crate::value::texts(assets@));
            }
        }
        assert(paths.take(i as int) =~= paths);
        unresolved
    }

    /// Lists the payloads that were not loaded.
    pub fn skipped_payloads(&self) -> (r: Vec<SkippedPayload>)
        ensures
            skipped_views(r@) == self@.skipped_payloads(),
    {
        let mut skipped: Vec<SkippedPayload> = Vec::new();
        proof {
            assert(skipped_views(skipped@) =~= seq![]);
        }
        if self.load() != InitialLoadSet::LoadNone {
            return skipped;
        }
        let prims = self.traverse();
        let ghost paths = crate::stage::path_texts(prims@);
        let mut i: usize = 0;
        while i < prims.len()
            invariant
                i <= prims.len(),
                paths == crate::stage::path_texts(prims@),
                skipped_views(skipped@) == self@.payloads_along(paths.take(i as int)),
            decreases prims.len() - i,
        {
            let payloads = self.payloads_in(&prims[i]);
            let ghost before = skipped_views(skipped@);
            let ghost here = skipped_at(crate::value::payload_views(payloads@), prims@[i as int]@);
            let mut j: usize = 0;
            proof {
                assert(before =~= before + here.take(0));
            }
            while j < payloads.len()
                invariant
                    i < prims.len(),
                    j <= payloads.len(),
                    here == skipped_at(crate::value::payload_views(payloads@), prims@[i as int]@),
                    skipped_views(skipped@) == before + here.take(j as int),
                decreases payloads.len() - j,
            {
                let ghost so_far = skipped@;
                skipped.push(
                    SkippedPayload {
                        asset_path: payloads[j].asset_path.clone(),
                        prim_path: prims[i].clone(),
                    },
                );
                j += 1;
                assert(skipped_views(skipped@) =~= skipped_views(so_far).push(here[j - 1]));
            }
            i += 1;
            proof {
                assert(here.take(j as int) =~= here);
                assert(paths.take(i as int).drop_last() =~= paths.take(i - 1));
                assert(paths.take(i as int).last() == prims@[i - 1]@);
            }
        }
        assert(paths.take(i as int) =~= paths);
        skipped
    }
}

/// Whether a text is in a list.
fn is_listed(list: &Vec<String>, s: &str) -> (r: bool)
    ensures
        r == crate::value::texts(list@).contains(s@),
{
    let ghost all = crate::value::texts(list@);
    let mut i: usize = 0;
    while i < list.len()
        invariant
            i <= list.len(),
            all == crate::value::texts(list@),
            forall|j: int| 0 <= j < i ==> all[j] != s@,
        decreases list.len() - i,
    {
        if text::same(list[i].as_str(), s) {
            proof {
                assert(all[i as int] == s@);
            }
            return true;
        }
        i += 1;
    }
    false
}

/// Reporting assets in two portions reports them all.
pub proof fn lemma_reported_concat(
    s: StageView,
    report: Seq<Seq<char>>,
    a: Seq<Seq<char>>,
    b: Seq<Seq<char>>,
)
    ensures
        s.reported(s.reported(report, a), b) == s.reported(report, a + b),
    decreases b.len(),
{
    if b.len() == 0 {
        assert(a + b =~= a);
    } else {
        lemma_reported_concat(s, report, a, b.drop_last());
        assert((a + b).drop_last() =~= a + b.drop_last());
        assert((a + b).last() == b.last());
    }
}

} // verus!
