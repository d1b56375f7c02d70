//! Which assets are reported and which payloads were skipped, from what was recorded for the
//! visited prims.
use crate::assets::SkippedView;
use crate::stage::{CompositionError, InitialLoadSet, StageView};
use crate::table::FieldKey;
use crate::value::Value;
use vstd::prelude::*;

verus! {

/// The references of a prim are those of the list that was recorded for it, each with its asset
/// and its prim, in the same order; without a list there are none.
pub proof fn law_references(s: StageView, path: Seq<char>, k: int)
    ensures
        s.values.contains_key((path, FieldKey::References)) ==> match s.values[(
            path,
            FieldKey::References,
        )] {
            Ok(Value::ReferenceListOp(op)) => s.references(path).len() == op@.len() && (0 <= k
                < op@.len() ==> s.references(path)[k].asset_path == op@[k].asset_path@
                && s.references(path)[k].layer_offset == op@[k].layer_offset
                && match op@[k].prim_path {
                Some(p) => s.references(path)[k].prim_path == Some(p@),
                None => s.references(path)[k].prim_path is None,
            }),
            _ => s.references(path).len() == 0,
        },
        !s.values.contains_key((path, FieldKey::References)) ==> s.references(path).len() == 0,
{
}

/// The payloads of a prim are those of the list that was recorded for it, or the single one; in
/// every other case there are none.
pub proof fn law_payloads(s: StageView, path: Seq<char>, k: int)
    ensures
        s.values.contains_key((path, FieldKey::Payload)) ==> match s.values[(
            path,
            FieldKey::Payload,
        )] {
            Ok(Value::Payload(x)) => s.payloads(path).len() == 1 && s.payloads(path)[0].asset_path
                == x.asset_path@ && s.payloads(path)[0].layer_offset == x.layer_offset
                && match x.prim_path {
                Some(p) => s.payloads(path)[0].prim_path == Some(p@),
                None => s.payloads(path)[0].prim_path is None,
            },
            Ok(Value::PayloadListOp(op)) => s.payloads(path).len() == op@.len() && (0 <= k
                < op@.len() ==> s.payloads(path)[k].asset_path == op@[k].asset_path@ && s.payloads(
                path,
            )[k].layer_offset == op@[k].layer_offset && match op@[k].prim_path {
                Some(p) => s.payloads(path)[k].prim_path == Some(p@),
                None => s.payloads(path)[k].prim_path is None,
            }),
            _ => s.payloads(path).len() == 0,
        },
        !s.values.contains_key((path, FieldKey::Payload)) ==> s.payloads(path).len() == 0,
{
}

/// What a prim refers to: the assets of its references, then those of its payloads, whether
/// payloads are loaded or not.
pub proof fn law_assets_at(s: StageView, path: Seq<char>, k: int)
    ensures
        s.assets_at(path).len() == s.references(path).len() + s.payloads(path).len(),
        0 <= k < s.references(path).len() ==> s.assets_at(path)[k] == s.references(
            path,
        )[k].asset_path,
        0 <= k < s.payloads(path).len() ==> s.assets_at(path)[s.references(path).len() + k]
            == s.payloads(path)[k].asset_path,
{
}

/// What prims one after the other refer to is what the first ones do, then what the others do.
pub proof fn law_assets_in_order(
    s: StageView,
    a: Seq<Seq<char>>,
    b: Seq<Seq<char>>,
    path: Seq<char>,
)
    ensures
        s.assets_along(a + b) == s.assets_along(a) + s.assets_along(b),
        s.assets_along(seq![path]) == s.assets_at(path),
    decreases b.len(),
{
    reveal_with_fuel(StageView::assets_along, 2);
    assert(seq![path].drop_last() =~= Seq::<Seq<char>>::empty());
    assert(s.assets_along(seq![path]) =~= s.assets_at(path));
    if b.len() == 0 {
        assert(a + b =~= a);
        assert(s.assets_along(a) + s.assets_along(b) =~= s.assets_along(a));
    } else {
        law_assets_in_order(s, a, b.drop_last(), path);
        assert((a + b).drop_last() =~= a + b.drop_last());
        assert((a + b).last() == b.last());
        assert(s.assets_along(a + b) =~= s.assets_along(a) + s.assets_along(b));
    }
}

/// An asset is missing exactly where it is named, has no variable in it, and is not found.
pub proof fn law_missing(s: StageView, asset: Seq<char>)
    ensures
        asset.len() == 0 ==> !s.is_missing(asset),
        crate::text::has_variable(asset) ==> !s.is_missing(asset),
        s.found.contains(asset) ==> !s.is_missing(asset),
        asset.len() > 0 && !crate::text::has_variable(asset) && !s.found.contains(asset)
            ==> s.is_missing(asset),
{
}

/// Reporting one asset more adds it at the end where it is missing and not reported yet, and
/// otherwise nothing; and nothing is reported of no assets.
pub proof fn law_one_more_report(
    s: StageView,
    report: Seq<Seq<char>>,
    assets: Seq<Seq<char>>,
    a: Seq<char>,
)
    ensures
        s.reported(report, Seq::empty()) == report,
        s.is_missing(a) && !s.reported(report, assets).contains(a) ==> s.reported(
            report,
            assets.push(a),
        ) == s.reported(report, assets).push(a),
        !s.is_missing(a) || s.reported(report, assets).contains(a) ==> s.reported(
            report,
            assets.push(a),
        ) == s.reported(report, assets),
{
    assert(assets.push(a).drop_last() =~= assets);
}

/// Composition stumbled over an asset where it could not resolve a layer or a sublayer; these are
/// reported first, each of them, in the order of the errors. No other error names one.
pub proof fn law_errors_are_reported(
    a: Seq<CompositionError>,
    b: Seq<CompositionError>,
    e: CompositionError,
)
    ensures
        crate::assets::missing_assets(a + b) == crate::assets::missing_assets(a)
            + crate::assets::missing_assets(b),
        match e {
            CompositionError::UnresolvedLayer { asset_path } => crate::assets::missing_assets(
                seq![e],
            ) == seq![asset_path@],
            CompositionError::UnresolvedSublayer { asset_path } => crate::assets::missing_assets(
                seq![e],
            ) == seq![asset_path@],
            CompositionError::Other { .. } => crate::assets::missing_assets(seq![e]).len() == 0,
        },
    decreases b.len(),
{
    reveal_with_fuel(crate::assets::missing_assets, 2);
    assert(seq![e].drop_last() =~= Seq::<CompositionError>::empty());
    if b.len() == 0 {
        assert(a + b =~= a);
        assert(crate::assets::missing_assets(b) =~= Seq::<Seq<char>>::empty());
    } else {
        law_errors_are_reported(a, b.drop_last(), e);
        assert((a + b).drop_last() =~= a + b.drop_last());
        assert((a + b).last() == b.last());
    }
}

/// The report starts with what composition stumbled over, and goes on with what the visited prims
/// refer to, in the order of the traversal.
pub proof fn law_unresolved_in_order(s: StageView, a: Seq<Seq<char>>, b: Seq<Seq<char>>)
    requires
        s.traversal == a + b,
    ensures
        s.unresolved_assets() == s.reported(
            s.reported(crate::assets::missing_assets(s.errors), s.assets_along(a)),
            s.assets_along(b),
        ),
{
    law_assets_in_order(s, a, b, seq![]);
    crate::assets::lemma_reported_concat(
        s,
        crate::assets::missing_assets(s.errors),
        s.assets_along(a),
        s.assets_along(b),
    );
}

/// An asset is named by what was recorded for the references of a prim.
pub open spec fn is_referred_to(s: StageView, path: Seq<char>, asset: Seq<char>) -> bool {
    s.values.contains_key((path, FieldKey::References)) && match s.values[(
        path,
        FieldKey::References,
    )] {
        Ok(Value::ReferenceListOp(op)) => exists|k: int|
            0 <= k < op@.len() && (#[trigger] op@[k]).asset_path@ == asset,
        _ => false,
    }
}

/// An asset is named by what was recorded for the payloads of a prim.
pub open spec fn is_payload(s: StageView, path: Seq<char>, asset: Seq<char>) -> bool {
    s.values.contains_key((path, FieldKey::Payload)) && match s.values[(path, FieldKey::Payload)] {
        Ok(Value::Payload(x)) => x.asset_path@ == asset,
        Ok(Value::PayloadListOp(op)) => exists|k: int|
            0 <= k < op@.len() && (#[trigger] op@[k]).asset_path@ == asset,
        _ => false,
    }
}

/// The references name what was recorded.
proof fn lemma_referred_to(s: StageView, path: Seq<char>, asset: Seq<char>)
    ensures
        is_referred_to(s, path, asset) <==> exists|k: int|
            0 <= k < s.references(path).len() && (#[trigger] s.references(path)[k]).asset_path
                == asset,
{
    if is_referred_to(s, path, asset) {
        if let Ok(Value::ReferenceListOp(op)) = s.values[(path, FieldKey::References)] {
            let k = choose|k: int| 0 <= k < op@.len() && (#[trigger] op@[k]).asset_path@ == asset;
            assert(s.references(path)[k].asset_path == asset);
        }
    }
    if exists|k: int|
        0 <= k < s.references(path).len() && (#[trigger] s.references(path)[k]).asset_path
            == asset {
        let k = choose|k: int|
            0 <= k < s.references(path).len() && (#[trigger] s.references(path)[k]).asset_path
                == asset;
        law_references(s, path, k);
        if let Ok(Value::ReferenceListOp(op)) = s.values[(path, FieldKey::References)] {
            assert(op@[k].asset_path@ == asset);
        }
    }
}

/// The payloads name what was recorded.
proof fn lemma_payload(s: StageView, path: Seq<char>, asset: Seq<char>)
    ensures
        is_payload(s, path, asset) <==> exists|k: int|
            0 <= k < s.payloads(path).len() && (#[trigger] s.payloads(path)[k]).asset_path == asset,
{
    if is_payload(s, path, asset) {
        match s.values[(path, FieldKey::Payload)] {
            Ok(Value::Payload(x)) => {
                assert(s.payloads(path)[0].asset_path == asset);
            },
            Ok(Value::PayloadListOp(op)) => {
                let k = choose|k: int|
                    0 <= k < op@.len() && (#[trigger] op@[k]).asset_path@ == asset;
                assert(s.payloads(path)[k].asset_path == asset);
            },
            _ => {},
        }
    }
    if exists|k: int|
        0 <= k < s.payloads(path).len() && (#[trigger] s.payloads(path)[k]).asset_path == asset {
        let k = choose|k: int|
            0 <= k < s.payloads(path).len() && (#[trigger] s.payloads(path)[k]).asset_path == asset;
        law_payloads(s, path, k);
        if let Ok(Value::PayloadListOp(op)) = s.values[(path, FieldKey::Payload)] {
            assert(op@[k].asset_path@ == asset);
        }
    }
}

/// A prim names the assets of its references and of its payloads, and no others.
proof fn lemma_assets_at(s: StageView, path: Seq<char>, asset: Seq<char>)
    ensures
        s.assets_at(path).contains(asset) <==> is_referred_to(s, path, asset) || is_payload(
            s,
            path,
            asset,
        ),
{
    let r = s.references(path);
    let p = s.payloads(path);
    let all = s.assets_at(path);
    lemma_referred_to(s, path, asset);
    lemma_payload(s, path, asset);
    if all.contains(asset) {
        let k = choose|k: int| 0 <= k < all.len() && all[k] == asset;
        law_assets_at(s, path, k);
        law_assets_at(s, path, k - r.len());
        if k < r.len() {
            assert(r[k].asset_path == asset);
        } else {
            assert(p[k - r.len()].asset_path == asset);
        }
    }
    if is_referred_to(s, path, asset) {
        let k = choose|k: int| 0 <= k < r.len() && (#[trigger] r[k]).asset_path == asset;
        law_assets_at(s, path, k);
        assert(all[k] == asset);
    }
    if is_payload(s, path, asset) {
        let k = choose|k: int| 0 <= k < p.len() && (#[trigger] p[k]).asset_path == asset;
        law_assets_at(s, path, k);
        assert(all[r.len() + k] == asset);
    }
}

/// Whatever is loaded, every asset of a reference or a payload of a visited prim that is named,
/// has no variable in it and is not found is reported; and beyond those that composition stumbled
/// over, nothing else is.
pub proof fn law_unresolved_are_recorded(s: StageView, asset: Seq<char>)
    ensures
        s.unresolved_assets().contains(asset) <==> (exists|i: int|
            0 <= i < s.errors.len() && match #[trigger] s.errors[i] {
                CompositionError::UnresolvedLayer { asset_path } => asset_path@ == asset,
                CompositionError::UnresolvedSublayer { asset_path } => asset_path@ == asset,
                CompositionError::Other { .. } => false,
            }) || (asset.len() > 0 && !crate::text::has_variable(asset) && !s.found.contains(asset)
            && exists|i: int|
            0 <= i < s.traversal.len() && (is_referred_to(s, #[trigger] s.traversal[i], asset)
                || is_payload(s, s.traversal[i], asset))),
{
    crate::laws::law_unresolved_assets(s, asset);
    law_missing(s, asset);
    lemma_missing_assets(s.errors, asset);
    assert forall|i: int| 0 <= i < s.traversal.len() implies (s.assets_at(
        #[trigger] s.traversal[i],
    ).contains(asset) <==> is_referred_to(s, s.traversal[i], asset) || is_payload(
        s,
        s.traversal[i],
        asset,
    )) by {
        lemma_assets_at(s, s.traversal[i], asset);
    }
}

/// An asset that composition stumbled over is that of an error.
proof fn lemma_missing_assets(errors: Seq<CompositionError>, asset: Seq<char>)
    ensures
        crate::assets::missing_assets(errors).contains(asset) <==> exists|i: int|
            0 <= i < errors.len() && match #[trigger] errors[i] {
                CompositionError::UnresolvedLayer { asset_path } => asset_path@ == asset,
                CompositionError::UnresolvedSublayer { asset_path } => asset_path@ == asset,
                CompositionError::Other { .. } => false,
            },
    decreases errors.len(),
{
    if errors.len() > 0 {
        let rest = errors.drop_last();
        let before = crate::assets::missing_assets(rest);
        let all = crate::assets::missing_assets(errors);
        lemma_missing_assets(rest, asset);
        if all.contains(asset) {
            let k = choose|k: int| 0 <= k < all.len() && all[k] == asset;
            if k < before.len() {
                assert(before[k] == asset);
                let i = choose|i: int|
                    0 <= i < rest.len() && match #[trigger] rest[i] {
                        CompositionError::UnresolvedLayer { asset_path } => asset_path@ == asset,
                        CompositionError::UnresolvedSublayer { asset_path } => asset_path@ == asset,
                        CompositionError::Other { .. } => false,
                    };
                assert(errors[i] == rest[i]);
            } else {
                assert(errors[errors.len() - 1] == errors.last());
            }
        }
        if exists|i: int|
            0 <= i < errors.len() && match #[trigger] errors[i] {
                CompositionError::UnresolvedLayer { asset_path } => asset_path@ == asset,
                CompositionError::UnresolvedSublayer { asset_path } => asset_path@ == asset,
                CompositionError::Other { .. } => false,
            } {
            let i = choose|i: int|
                0 <= i < errors.len() && match #[trigger] errors[i] {
                    CompositionError::UnresolvedLayer { asset_path } => asset_path@ == asset,
                    CompositionError::UnresolvedSublayer { asset_path } => asset_path@ == asset,
                    CompositionError::Other { .. } => false,
                };
            if i < rest.len() {
                assert(rest[i] == errors[i]);
                let k = choose|k: int| 0 <= k < before.len() && before[k] == asset;
                assert(all[k] == asset);
            } else {
                assert(all[before.len() as int] == asset);
            }
        }
    }
}

/// What is reported of assets hangs on what was recorded and on what is found alone.
proof fn lemma_same_report(
    s: StageView,
    t: StageView,
    report: Seq<Seq<char>>,
    assets: Seq<Seq<char>>,
)
    requires
        s.found == t.found,
    ensures
        s.reported(report, assets) == t.reported(report, assets),
    decreases assets.len(),
{
    if assets.len() > 0 {
        lemma_same_report(s, t, report, assets.drop_last());
        assert(s.is_missing(assets.last()) == t.is_missing(assets.last()));
    }
}

/// What prims refer to hangs on what was recorded alone.
proof fn lemma_same_assets(s: StageView, t: StageView, prims: Seq<Seq<char>>)
    requires
        s.values == t.values,
    ensures
        s.assets_along(prims) == t.assets_along(prims),
    decreases prims.len(),
{
    if prims.len() > 0 {
        lemma_same_assets(s, t, prims.drop_last());
        assert(s.assets_at(prims.last()) == t.assets_at(prims.last()));
    }
}

/// Which assets are unresolved does not hang on what is loaded: two stages that differ in nothing
/// but their load set report the same.
pub proof fn law_loading_changes_no_report(s: StageView, load: InitialLoadSet)
    ensures
        (StageView { load, ..s }).unresolved_assets() == s.unresolved_assets(),
{
    let t = StageView { load, ..s };
    lemma_same_assets(s, t, s.traversal);
    lemma_same_report(
        s,
        t,
        crate::assets::missing_assets(s.errors),
        s.assets_along(s.traversal),
    );
}

/// The payloads that were skipped along prims one after the other are those of the first ones,
/// then those of the others.
pub proof fn law_skipped_in_order(
    s: StageView,
    a: Seq<Seq<char>>,
    b: Seq<Seq<char>>,
    path: Seq<char>,
    k: int,
)
    ensures
        s.payloads_along(a + b) == s.payloads_along(a) + s.payloads_along(b),
        s.payloads_along(seq![path]).len() == s.payloads(path).len(),
        0 <= k < s.payloads(path).len() ==> s.payloads_along(seq![path])[k].asset_path
            == s.payloads(path)[k].asset_path && s.payloads_along(seq![path])[k].prim_path == path,
    decreases b.len(),
{
    reveal_with_fuel(StageView::payloads_along, 2);
    assert(seq![path].drop_last() =~= Seq::<Seq<char>>::empty());
    if b.len() == 0 {
        assert(a + b =~= a);
        assert(s.payloads_along(a) + s.payloads_along(b) =~= s.payloads_along(a));
    } else {
        law_skipped_in_order(s, a, b.drop_last(), path, k);
        assert((a + b).drop_last() =~= a + b.drop_last());
        assert((a + b).last() == b.last());
        assert(s.payloads_along(a + b) =~= s.payloads_along(a) + s.payloads_along(b));
    }
}

/// Where no payload is loaded all of those along the traversal were skipped, in that order, and
/// where payloads are loaded none was.
pub proof fn law_skipped(s: StageView)
    ensures
        s.load == InitialLoadSet::LoadNone ==> s.skipped_payloads() == s.payloads_along(
            s.traversal,
        ),
        s.load == InitialLoadSet::LoadAll ==> s.skipped_payloads().len() == 0,
{
}

/// A payload was skipped exactly where nothing is loaded and it was recorded for a visited prim.
pub proof fn law_skipped_are_recorded(s: StageView, x: SkippedView)
    ensures
        s.skipped_payloads().contains(x) <==> s.load == InitialLoadSet::LoadNone
            && s.traversal.contains(x.prim_path) && is_payload(s, x.prim_path, x.asset_path),
{
    crate::laws::law_skipped_payloads(s, x);
    lemma_payload(s, x.prim_path, x.asset_path);
    let p = s.payloads(x.prim_path);
    let assets = crate::assets::payload_assets(p);
    if is_payload(s, x.prim_path, x.asset_path) {
        let k = choose|k: int| 0 <= k < p.len() && (#[trigger] p[k]).asset_path == x.asset_path;
        assert(assets[k] == x.asset_path);
    }
    if assets.contains(x.asset_path) {
        let k = choose|k: int| 0 <= k < assets.len() && assets[k] == x.asset_path;
        assert(p[k].asset_path == x.asset_path);
    }
}

/// A payload that was skipped, is named, has no variable in it and is not found is reported as
/// unresolved too.
pub proof fn law_skipped_and_missing_is_reported(s: StageView, x: SkippedView)
    requires
        s.skipped_payloads().contains(x),
        x.asset_path.len() > 0,
        !crate::text::has_variable(x.asset_path),
        !s.found.contains(x.asset_path),
    ensures
        s.unresolved_assets().contains(x.asset_path),
{
    law_skipped_are_recorded(s, x);
    law_unresolved_are_recorded(s, x.asset_path);
    let i = choose|i: int| 0 <= i < s.traversal.len() && s.traversal[i] == x.prim_path;
    assert(is_payload(s, s.traversal[i], x.asset_path));
}

} // verus!
