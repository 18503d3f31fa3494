//! A model of the observable state behind the BC-API, and what each applier
//! call does to it. The idempotence and boundary laws of applying envelopes
//! are stated and proved against this model; the tests run the same model.
//!
//! The model holds what replication can observe: the program and preview
//! scenes, studio mode, and per scene the items with their transforms, image
//! content (as the bytes applied) and filters.

use vstd::prelude::*;
use crate::protocol::FilterData;
use crate::protocol::FilterDataView;
use crate::protocol::TransformData;
use crate::protocol::views_of;
use crate::slave::BcCall;
use crate::slave::BcCallView;
use crate::wire::str_eq;

verus! {

/// One scene item as the model sees it.
#[derive(Clone, Debug, PartialEq)]
pub struct BcItemState {
    pub scene_item_id: i64,
    pub source_name: String,
    pub enabled: bool,
    pub transform: TransformData,
    pub image: Option<Vec<u8>>,
    pub filters: Vec<FilterData>,
}

pub struct BcItemStateView {
    pub scene_item_id: i64,
    pub source_name: Seq<char>,
    pub enabled: bool,
    pub transform: TransformData,
    pub image: Option<Seq<u8>>,
    pub filters: Seq<FilterDataView>,
}

impl View for BcItemState {
    type V = BcItemStateView;

    open spec fn view(&self) -> BcItemStateView {
        BcItemStateView {
            scene_item_id: self.scene_item_id,
            source_name: self.source_name@,
            enabled: self.enabled,
            transform: self.transform,
            image: match self.image {
                Some(ref b) => Some(b@),
                None => None,
            },
            filters: views_of(self.filters@),
        }
    }
}

/// One scene as the model sees it.
#[derive(Clone, Debug, PartialEq)]
pub struct BcSceneState {
    pub name: String,
    pub items: Vec<BcItemState>,
}

pub struct BcSceneStateView {
    pub name: Seq<char>,
    pub items: Seq<BcItemStateView>,
}

impl View for BcSceneState {
    type V = BcSceneStateView;

    open spec fn view(&self) -> BcSceneStateView {
        BcSceneStateView { name: self.name@, items: views_of(self.items@) }
    }
}

/// The whole observable state.
#[derive(Clone, Debug, PartialEq)]
pub struct BcState {
    pub program_scene: String,
    pub preview_scene: Option<String>,
    pub studio_mode: bool,
    pub scenes: Vec<BcSceneState>,
}

pub struct BcStateView {
    pub program_scene: Seq<char>,
    pub preview_scene: Option<Seq<char>>,
    pub studio_mode: bool,
    pub scenes: Seq<BcSceneStateView>,
}

impl View for BcState {
    type V = BcStateView;

    open spec fn view(&self) -> BcStateView {
        BcStateView {
            program_scene: self.program_scene@,
            preview_scene: match self.preview_scene {
                Some(ref p) => Some(p@),
                None => None,
            },
            studio_mode: self.studio_mode,
            scenes: views_of(self.scenes@),
        }
    }
}

/// A transform update laid over a current transform: the five scalars the
/// update carries replace the current ones, a missing scalar keeps the
/// current one, and width and height are always preserved.
pub open spec fn spec_merge_transform(cur: TransformData, up: TransformData) -> TransformData {
    TransformData {
        position_x: if up.position_x is Some {
            up.position_x
        } else {
            cur.position_x
        },
        position_y: if up.position_y is Some {
            up.position_y
        } else {
            cur.position_y
        },
        rotation: if up.rotation is Some {
            up.rotation
        } else {
            cur.rotation
        },
        scale_x: if up.scale_x is Some {
            up.scale_x
        } else {
            cur.scale_x
        },
        scale_y: if up.scale_y is Some {
            up.scale_y
        } else {
            cur.scale_y
        },
        width: cur.width,
        height: cur.height,
    }
}

/// Lays a transform update over a current transform.
pub fn merge_transform(cur: &TransformData, up: &TransformData) -> (r: TransformData)
    ensures
        r == spec_merge_transform(*cur, *up),
{
    TransformData {
        position_x: if up.position_x.is_some() {
            up.position_x
        } else {
            cur.position_x
        },
        position_y: if up.position_y.is_some() {
            up.position_y
        } else {
            cur.position_y
        },
        rotation: if up.rotation.is_some() {
            up.rotation
        } else {
            cur.rotation
        },
        scale_x: if up.scale_x.is_some() {
            up.scale_x
        } else {
            cur.scale_x
        },
        scale_y: if up.scale_y.is_some() {
            up.scale_y
        } else {
            cur.scale_y
        },
        width: cur.width,
        height: cur.height,
    }
}

/// What one call does to one filter of a matching source.
pub open spec fn filter_apply(fl: FilterDataView, c: BcCallView) -> FilterDataView {
    match c {
        BcCallView::SetFilterSettings { filter_name, settings, .. } => {
            if fl.name == filter_name {
                FilterDataView { settings: settings, ..fl }
            } else {
                fl
            }
        },
        BcCallView::SetFilterEnabled { filter_name, enabled, .. } => {
            if fl.name == filter_name {
                FilterDataView { enabled: enabled, ..fl }
            } else {
                fl
            }
        },
        _ => fl,
    }
}

/// What one call does to one item of one scene.
pub open spec fn item_apply(scene_name: Seq<char>, it: BcItemStateView, c: BcCallView) -> BcItemStateView {
    match c {
        BcCallView::ApplyTransform { scene_name: s, scene_item_id: id, update } => {
            if scene_name == s && it.scene_item_id == id {
                BcItemStateView { transform: spec_merge_transform(it.transform, update), ..it }
            } else {
                it
            }
        },
        BcCallView::WriteImage { source_name, bytes, .. } => {
            if it.source_name == source_name {
                BcItemStateView { image: Some(bytes), ..it }
            } else {
                it
            }
        },
        BcCallView::SetFilterSettings { source_name, .. } => {
            if it.source_name == source_name {
                BcItemStateView {
                    filters: Seq::new(it.filters.len(), |j: int| filter_apply(it.filters[j], c)),
                    ..it
                }
            } else {
                it
            }
        },
        BcCallView::SetFilterEnabled { source_name, .. } => {
            if it.source_name == source_name {
                BcItemStateView {
                    filters: Seq::new(it.filters.len(), |j: int| filter_apply(it.filters[j], c)),
                    ..it
                }
            } else {
                it
            }
        },
        BcCallView::SetItemEnabled { scene_name: s, scene_item_id: id, enabled } => {
            if scene_name == s && it.scene_item_id == id {
                BcItemStateView { enabled: enabled, ..it }
            } else {
                it
            }
        },
        _ => it,
    }
}

/// The predicate that keeps every item but the one with the given id.
pub open spec fn keeps_item(id: i64) -> spec_fn(BcItemStateView) -> bool {
    |it: BcItemStateView| it.scene_item_id != id
}

/// What one call does to one scene.
pub open spec fn scene_apply(sc: BcSceneStateView, c: BcCallView) -> BcSceneStateView {
    match c {
        BcCallView::CreateItem { scene_name, source_name, enabled, transform } => {
            if sc.name == scene_name {
                BcSceneStateView {
                    items: sc.items.push(
                        BcItemStateView {
                            scene_item_id: sc.items.len() as i64,
                            source_name: source_name,
                            enabled: match enabled {
                                Some(e) => e,
                                None => true,
                            },
                            transform: match transform {
                                Some(t) => t,
                                None => TransformData {
                                    position_x: None,
                                    position_y: None,
                                    rotation: None,
                                    scale_x: None,
                                    scale_y: None,
                                    width: None,
                                    height: None,
                                },
                            },
                            image: None,
                            filters: Seq::empty(),
                        },
                    ),
                    ..sc
                }
            } else {
                sc
            }
        },
        BcCallView::RemoveItem { scene_name, scene_item_id } => {
            if sc.name == scene_name {
                BcSceneStateView { items: sc.items.filter(keeps_item(scene_item_id)), ..sc }
            } else {
                sc
            }
        },
        _ => BcSceneStateView {
            items: Seq::new(sc.items.len(), |i: int| item_apply(sc.name, sc.items[i], c)),
            ..sc
        },
    }
}

/// What one call does to the whole observable state. A preview change
/// outside studio mode changes nothing.
pub open spec fn spec_apply_call(bc: BcStateView, c: BcCallView) -> BcStateView {
    match c {
        BcCallView::SetProgramScene { scene_name } => BcStateView {
            program_scene: scene_name,
            ..bc
        },
        BcCallView::SetPreviewScene { scene_name } => {
            if bc.studio_mode {
                BcStateView { preview_scene: Some(scene_name), ..bc }
            } else {
                bc
            }
        },
        _ => BcStateView {
            scenes: Seq::new(bc.scenes.len(), |i: int| scene_apply(bc.scenes[i], c)),
            ..bc
        },
    }
}

/// Whether the BC-API would accept the call: a preview change needs studio
/// mode; calls that target an item, source or filter need it present.
pub open spec fn call_ok(bc: BcStateView, c: BcCallView) -> bool {
    match c {
        BcCallView::SetProgramScene { .. } => true,
        BcCallView::SetPreviewScene { .. } => bc.studio_mode,
        BcCallView::CreateItem { scene_name, .. } => has_scene(bc, scene_name),
        BcCallView::RemoveItem { scene_name, scene_item_id } => has_item(
            bc,
            scene_name,
            scene_item_id,
        ),
        BcCallView::SetItemEnabled { scene_name, scene_item_id, .. } => has_item(
            bc,
            scene_name,
            scene_item_id,
        ),
        BcCallView::ApplyTransform { scene_name, scene_item_id, .. } => has_item(
            bc,
            scene_name,
            scene_item_id,
        ),
        BcCallView::WriteImage { source_name, .. } => has_source(bc, source_name),
        BcCallView::SetFilterSettings { source_name, .. } => has_source(bc, source_name),
        BcCallView::SetFilterEnabled { source_name, .. } => has_source(bc, source_name),
    }
}

pub open spec fn has_scene(bc: BcStateView, name: Seq<char>) -> bool {
    exists|i: int| 0 <= i < bc.scenes.len() && (#[trigger] bc.scenes[i]).name == name
}

pub open spec fn has_item(bc: BcStateView, scene: Seq<char>, id: i64) -> bool {
    exists|i: int, j: int|
        0 <= i < bc.scenes.len() && 0 <= j < (#[trigger] bc.scenes[i]).items.len()
            && bc.scenes[i].name == scene && (#[trigger] bc.scenes[i].items[j]).scene_item_id == id
}

pub open spec fn has_source(bc: BcStateView, source: Seq<char>) -> bool {
    exists|i: int, j: int|
        0 <= i < bc.scenes.len() && 0 <= j < (#[trigger] bc.scenes[i]).items.len() && (
        #[trigger] bc.scenes[i].items[j]).source_name == source
}

/// Folding a call list over the state, left to right.
pub open spec fn spec_apply_calls(bc: BcStateView, calls: Seq<BcCallView>) -> BcStateView
    decreases calls.len(),
{
    if calls.len() == 0 {
        bc
    } else {
        spec_apply_calls(spec_apply_call(bc, calls[0]), calls.drop_first())
    }
}

/// How many calls of the list the BC-API rejects, each judged against the
/// state at its turn.
pub open spec fn spec_failed_count(bc: BcStateView, calls: Seq<BcCallView>) -> nat
    decreases calls.len(),
{
    if calls.len() == 0 {
        0
    } else {
        (if call_ok(bc, calls[0]) {
            0nat
        } else {
            1nat
        }) + spec_failed_count(spec_apply_call(bc, calls[0]), calls.drop_first())
    }
}

// ---------------------------------------------------------------------------
// the model executor
// ---------------------------------------------------------------------------

/// A byte-for-byte copy.
fn clone_bytes(v: &Vec<u8>) -> (r: Vec<u8>)
    ensures
        r@ == v@,
{
    let mut out: Vec<u8> = Vec::new();
    let mut i: usize = 0;
    while i < v.len()
        invariant
            0 <= i <= v@.len(),
            out@ =~= v@.take(i as int),
        decreases v@.len() - i,
    {
        out.push(v[i]);
        proof {
            assert(out@ =~= v@.take(i + 1));
        }
        i += 1;
    }
    proof {
        assert(v@.take(v@.len() as int) =~= v@);
    }
    out
}

fn clone_filter(f: &FilterData) -> (r: FilterData)
    ensures
        r@ == f@,
{
    FilterData {
        name: f.name.clone(),
        enabled: f.enabled,
        settings: f.settings.clone(),
    }
}

fn clone_filters(fs: &Vec<FilterData>) -> (r: Vec<FilterData>)
    ensures
        views_of(r@) == views_of(fs@),
{
    let mut out: Vec<FilterData> = Vec::new();
    let mut i: usize = 0;
    while i < fs.len()
        invariant
            0 <= i <= fs@.len(),
            views_of(out@) =~= views_of(fs@).take(i as int),
        decreases fs@.len() - i,
    {
        let e = clone_filter(&fs[i]);
        out.push(e);
        proof {
            assert(views_of(fs@).take(i + 1) =~= views_of(fs@).take(i as int).push(
                views_of(fs@)[i as int],
            ));
            assert(views_of(out@) =~= views_of(fs@).take(i + 1));
        }
        i += 1;
    }
    proof {
        assert(views_of(fs@).take(fs@.len() as int) =~= views_of(fs@));
    }
    out
}

fn clone_item(it: &BcItemState) -> (r: BcItemState)
    ensures
        r@ == it@,
{
    BcItemState {
        scene_item_id: it.scene_item_id,
        source_name: it.source_name.clone(),
        enabled: it.enabled,
        transform: it.transform,
        image: match &it.image {
            Some(b) => Some(clone_bytes(b)),
            None => None,
        },
        filters: clone_filters(&it.filters),
    }
}

fn apply_to_filter(fl: &FilterData, call: &BcCall) -> (r: FilterData)
    ensures
        r@ == filter_apply(fl@, call@),
{
    match call {
        BcCall::SetFilterSettings { filter_name, settings, .. } => {
            if str_eq(fl.name.as_str(), filter_name.as_str()) {
                FilterData {
                    name: fl.name.clone(),
                    enabled: fl.enabled,
                    settings: settings.clone(),
                }
            } else {
                clone_filter(fl)
            }
        },
        BcCall::SetFilterEnabled { filter_name, enabled, .. } => {
            if str_eq(fl.name.as_str(), filter_name.as_str()) {
                FilterData {
                    name: fl.name.clone(),
                    enabled: *enabled,
                    settings: fl.settings.clone(),
                }
            } else {
                clone_filter(fl)
            }
        },
        _ => clone_filter(fl),
    }
}

fn apply_filters(fs: &Vec<FilterData>, call: &BcCall) -> (r: Vec<FilterData>)
    ensures
        views_of(r@) == Seq::new(views_of(fs@).len(), |j: int| filter_apply(views_of(fs@)[j], call@)),
{
    let ghost target = Seq::new(
        views_of(fs@).len(),
        |j: int| filter_apply(views_of(fs@)[j], call@),
    );
    let mut out: Vec<FilterData> = Vec::new();
    let mut i: usize = 0;
    while i < fs.len()
        invariant
            0 <= i <= fs@.len(),
            target == Seq::new(
                views_of(fs@).len(),
                |j: int| filter_apply(views_of(fs@)[j], call@),
            ),
            views_of(out@) =~= target.take(i as int),
        decreases fs@.len() - i,
    {
        let e = apply_to_filter(&fs[i], call);
        out.push(e);
        proof {
            assert(target.take(i + 1) =~= target.take(i as int).push(target[i as int]));
            assert(views_of(out@) =~= target.take(i + 1));
        }
        i += 1;
    }
    proof {
        assert(target.take(target.len() as int) =~= target);
    }
    out
}

fn apply_to_item(scene_name: &String, it: &BcItemState, call: &BcCall) -> (r: BcItemState)
    ensures
        r@ == item_apply(scene_name@, it@, call@),
{
    match call {
        BcCall::ApplyTransform { scene_name: s, scene_item_id: id, update } => {
            if str_eq(scene_name.as_str(), s.as_str()) && it.scene_item_id == *id {
                let mut r = clone_item(it);
                r.transform = merge_transform(&it.transform, update);
                r
            } else {
                clone_item(it)
            }
        },
        BcCall::WriteImage { source_name, bytes, .. } => {
            if str_eq(it.source_name.as_str(), source_name.as_str()) {
                let mut r = clone_item(it);
                r.image = Some(clone_bytes(bytes));
                r
            } else {
                clone_item(it)
            }
        },
        BcCall::SetFilterSettings { source_name, .. } => {
            if str_eq(it.source_name.as_str(), source_name.as_str()) {
                let mut r = clone_item(it);
                r.filters = apply_filters(&it.filters, call);
                r
            } else {
                clone_item(it)
            }
        },
        BcCall::SetFilterEnabled { source_name, .. } => {
            if str_eq(it.source_name.as_str(), source_name.as_str()) {
                let mut r = clone_item(it);
                r.filters = apply_filters(&it.filters, call);
                r
            } else {
                clone_item(it)
            }
        },
        BcCall::SetItemEnabled { scene_name: s, scene_item_id: id, enabled } => {
            if str_eq(scene_name.as_str(), s.as_str()) && it.scene_item_id == *id {
                let mut r = clone_item(it);
                r.enabled = *enabled;
                r
            } else {
                clone_item(it)
            }
        },
        _ => clone_item(it),
    }
}

fn apply_to_scene(sc: &BcSceneState, call: &BcCall) -> (r: BcSceneState)
    ensures
        r@ == scene_apply(sc@, call@),
{
    match call {
        BcCall::CreateItem { scene_name, source_name, enabled, transform } => {
            if str_eq(sc.name.as_str(), scene_name.as_str()) {
                let mut items = clone_items(&sc.items);
                let fresh = BcItemState {
                    scene_item_id: sc.items.len() as i64,
                    source_name: source_name.clone(),
                    enabled: match enabled {
                        Some(e) => *e,
                        None => true,
                    },
                    transform: match transform {
                        Some(t) => *t,
                        None => TransformData {
                            position_x: None,
                            position_y: None,
                            rotation: None,
                            scale_x: None,
                            scale_y: None,
                            width: None,
                            height: None,
                        },
                    },
                    image: None,
                    filters: Vec::new(),
                };
                proof {
                    assert(fresh@.filters =~= Seq::<FilterDataView>::empty());
                }
                items.push(fresh);
                proof {
                    assert(views_of(items@)[views_of(items@).len() - 1] == scene_apply(
                        sc@,
                        call@,
                    ).items[scene_apply(sc@, call@).items.len() - 1]);
                    assert(views_of(items@) =~= scene_apply(sc@, call@).items);
                }
                BcSceneState { name: sc.name.clone(), items }
            } else {
                BcSceneState { name: sc.name.clone(), items: clone_items(&sc.items) }
            }
        },
        BcCall::RemoveItem { scene_name, scene_item_id } => {
            if str_eq(sc.name.as_str(), scene_name.as_str()) {
                let mut items: Vec<BcItemState> = Vec::new();
                let mut i: usize = 0;
                proof {
                    reveal(Seq::filter);
                    assert(views_of(sc.items@).take(0) =~= Seq::<BcItemStateView>::empty());
                }
                while i < sc.items.len()
                    invariant
                        0 <= i <= sc.items@.len(),
                        call@ matches BcCallView::RemoveItem { scene_item_id: id, .. } && id
                            == scene_item_id,
                        views_of(items@) =~= views_of(sc.items@).take(i as int).filter(
                            keeps_item(*scene_item_id),
                        ),
                    decreases sc.items@.len() - i,
                {
                    let ghost pre = views_of(sc.items@).take(i as int);
                    proof {
                        assert(views_of(sc.items@).take(i + 1) =~= pre.push(
                            views_of(sc.items@)[i as int],
                        ));
                        reveal(Seq::filter);
                        assert(pre.push(views_of(sc.items@)[i as int]).drop_last() =~= pre);
                        assert(pre.push(views_of(sc.items@)[i as int]).last() == views_of(
                            sc.items@,
                        )[i as int]);
                        assert(pre.push(views_of(sc.items@)[i as int]).filter(
                            keeps_item(*scene_item_id),
                        ) == (if views_of(sc.items@)[i as int].scene_item_id != scene_item_id {
                            pre.filter(keeps_item(*scene_item_id)).push(
                                views_of(sc.items@)[i as int],
                            )
                        } else {
                            pre.filter(keeps_item(*scene_item_id))
                        }));
                    }
                    if sc.items[i].scene_item_id != *scene_item_id {
                        let e = clone_item(&sc.items[i]);
                        items.push(e);
                    }
                    proof {
                        assert(views_of(items@) =~= views_of(sc.items@).take(i + 1).filter(
                            keeps_item(*scene_item_id),
                        ));
                    }
                    i += 1;
                }
                proof {
                    assert(views_of(sc.items@).take(sc.items@.len() as int) =~= views_of(
                        sc.items@,
                    ));
                }
                BcSceneState { name: sc.name.clone(), items }
            } else {
                BcSceneState { name: sc.name.clone(), items: clone_items(&sc.items) }
            }
        },
        _ => {
            let ghost target = Seq::new(
                sc@.items.len(),
                |i: int| item_apply(sc@.name, sc@.items[i], call@),
            );
            let mut items: Vec<BcItemState> = Vec::new();
            let mut i: usize = 0;
            while i < sc.items.len()
                invariant
                    0 <= i <= sc.items@.len(),
                    target == Seq::new(
                        sc@.items.len(),
                        |j: int| item_apply(sc@.name, sc@.items[j], call@),
                    ),
                    !(call@ is CreateItem),
                    !(call@ is RemoveItem),
                    views_of(items@) =~= target.take(i as int),
                decreases sc.items@.len() - i,
            {
                let e = apply_to_item(&sc.name, &sc.items[i], call);
                items.push(e);
                proof {
                    assert(target.take(i + 1) =~= target.take(i as int).push(target[i as int]));
                    assert(views_of(items@) =~= target.take(i + 1));
                }
                i += 1;
            }
            proof {
                assert(target.take(target.len() as int) =~= target);
            }
            BcSceneState { name: sc.name.clone(), items }
        },
    }
}

fn clone_items(items: &Vec<BcItemState>) -> (r: Vec<BcItemState>)
    ensures
        views_of(r@) == views_of(items@),
{
    let mut out: Vec<BcItemState> = Vec::new();
    let mut i: usize = 0;
    while i < items.len()
        invariant
            0 <= i <= items@.len(),
            views_of(out@) =~= views_of(items@).take(i as int),
        decreases items@.len() - i,
    {
        let e = clone_item(&items[i]);
        out.push(e);
        proof {
            assert(views_of(items@).take(i + 1) =~= views_of(items@).take(i as int).push(
                views_of(items@)[i as int],
            ));
            assert(views_of(out@) =~= views_of(items@).take(i + 1));
        }
        i += 1;
    }
    proof {
        assert(views_of(items@).take(items@.len() as int) =~= views_of(items@));
    }
    out
}

fn scene_has_item(sc: &BcSceneState, id: i64) -> (r: bool)
    ensures
        r == exists|j: int|
            0 <= j < sc@.items.len() && (#[trigger] sc@.items[j]).scene_item_id == id,
{
    let mut j: usize = 0;
    while j < sc.items.len()
        invariant
            0 <= j <= sc.items@.len(),
            forall|k: int| 0 <= k < j ==> (#[trigger] sc@.items[k]).scene_item_id != id,
        decreases sc.items@.len() - j,
    {
        if sc.items[j].scene_item_id == id {
            proof {
                assert(sc@.items[j as int].scene_item_id == id);
            }
            return true;
        }
        j += 1;
    }
    false
}

fn scene_has_source(sc: &BcSceneState, source: &str) -> (r: bool)
    ensures
        r == exists|j: int|
            0 <= j < sc@.items.len() && (#[trigger] sc@.items[j]).source_name == source@,
{
    let mut j: usize = 0;
    while j < sc.items.len()
        invariant
            0 <= j <= sc.items@.len(),
            forall|k: int| 0 <= k < j ==> (#[trigger] sc@.items[k]).source_name != source@,
        decreases sc.items@.len() - j,
    {
        if str_eq(sc.items[j].source_name.as_str(), source) {
            proof {
                assert(sc@.items[j as int].source_name == source@);
            }
            return true;
        }
        j += 1;
    }
    false
}

fn has_scene_exec(bc: &BcState, name: &str) -> (r: bool)
    ensures
        r == has_scene(bc@, name@),
{
    let mut i: usize = 0;
    while i < bc.scenes.len()
        invariant
            0 <= i <= bc.scenes@.len(),
            forall|k: int| 0 <= k < i ==> (#[trigger] bc@.scenes[k]).name != name@,
        decreases bc.scenes@.len() - i,
    {
        if str_eq(bc.scenes[i].name.as_str(), name) {
            proof {
                assert(bc@.scenes[i as int].name == name@);
            }
            return true;
        }
        i += 1;
    }
    false
}

fn has_item_exec(bc: &BcState, scene: &str, id: i64) -> (r: bool)
    ensures
        r == has_item(bc@, scene@, id),
{
    let mut i: usize = 0;
    while i < bc.scenes.len()
        invariant
            0 <= i <= bc.scenes@.len(),
            forall|k: int, j: int|
                0 <= k < i && 0 <= j < (#[trigger] bc@.scenes[k]).items.len() ==> !(
                bc@.scenes[k].name == scene@ && (#[trigger] bc@.scenes[k].items[j]).scene_item_id
                    == id),
        decreases bc.scenes@.len() - i,
    {
        if str_eq(bc.scenes[i].name.as_str(), scene) && scene_has_item(&bc.scenes[i], id) {
            proof {
                let j = choose|j: int|
                    0 <= j < bc@.scenes[i as int].items.len() && (#[trigger] bc@.scenes[
                        i as int].items[j]).scene_item_id == id;
                assert(bc@.scenes[i as int].name == scene@);
                assert(has_item(bc@, scene@, id));
            }
            return true;
        }
        i += 1;
    }
    false
}

fn has_source_exec(bc: &BcState, source: &str) -> (r: bool)
    ensures
        r == has_source(bc@, source@),
{
    let mut i: usize = 0;
    while i < bc.scenes.len()
        invariant
            0 <= i <= bc.scenes@.len(),
            forall|k: int, j: int|
                0 <= k < i && 0 <= j < (#[trigger] bc@.scenes[k]).items.len() ==> (
                #[trigger] bc@.scenes[k].items[j]).source_name != source@,
        decreases bc.scenes@.len() - i,
    {
        if scene_has_source(&bc.scenes[i], source) {
            proof {
                let j = choose|j: int|
                    0 <= j < bc@.scenes[i as int].items.len() && (#[trigger] bc@.scenes[
                        i as int].items[j]).source_name == source@;
                assert(has_source(bc@, source@));
            }
            return true;
        }
        i += 1;
    }
    false
}

/// Whether the BC-API would accept this call against this state.
pub fn check_call_ok(bc: &BcState, call: &BcCall) -> (r: bool)
    ensures
        r == call_ok(bc@, call@),
{
    match call {
        BcCall::SetProgramScene { .. } => true,
        BcCall::SetPreviewScene { .. } => bc.studio_mode,
        BcCall::CreateItem { scene_name, .. } => has_scene_exec(bc, scene_name.as_str()),
        BcCall::RemoveItem { scene_name, scene_item_id } => has_item_exec(
            bc,
            scene_name.as_str(),
            *scene_item_id,
        ),
        BcCall::SetItemEnabled { scene_name, scene_item_id, .. } => has_item_exec(
            bc,
            scene_name.as_str(),
            *scene_item_id,
        ),
        BcCall::ApplyTransform { scene_name, scene_item_id, .. } => has_item_exec(
            bc,
            scene_name.as_str(),
            *scene_item_id,
        ),
        BcCall::WriteImage { source_name, .. } => has_source_exec(bc, source_name.as_str()),
        BcCall::SetFilterSettings { source_name, .. } => has_source_exec(
            bc,
            source_name.as_str(),
        ),
        BcCall::SetFilterEnabled { source_name, .. } => has_source_exec(bc, source_name.as_str()),
    }
}

/// Runs one call against the model and says whether the BC-API would have
/// accepted it.
pub fn apply_call(bc: &BcState, call: &BcCall) -> (r: (BcState, bool))
    ensures
        r.0@ == spec_apply_call(bc@, call@),
        r.1 == call_ok(bc@, call@),
{
    let ok = check_call_ok(bc, call);
    match call {
        BcCall::SetProgramScene { scene_name } => {
            let next = BcState {
                program_scene: scene_name.clone(),
                preview_scene: clone_opt_string(&bc.preview_scene),
                studio_mode: bc.studio_mode,
                scenes: clone_scenes(&bc.scenes),
            };
            (next, ok)
        },
        BcCall::SetPreviewScene { scene_name } => {
            if bc.studio_mode {
                let next = BcState {
                    program_scene: bc.program_scene.clone(),
                    preview_scene: Some(scene_name.clone()),
                    studio_mode: bc.studio_mode,
                    scenes: clone_scenes(&bc.scenes),
                };
                (next, ok)
            } else {
                (clone_state(bc), ok)
            }
        },
        _ => {
            let ghost target = Seq::new(
                bc@.scenes.len(),
                |i: int| scene_apply(bc@.scenes[i], call@),
            );
            let mut scenes: Vec<BcSceneState> = Vec::new();
            let mut i: usize = 0;
            while i < bc.scenes.len()
                invariant
                    0 <= i <= bc.scenes@.len(),
                    target == Seq::new(
                        bc@.scenes.len(),
                        |j: int| scene_apply(bc@.scenes[j], call@),
                    ),
                    !(call@ is SetProgramScene),
                    !(call@ is SetPreviewScene),
                    views_of(scenes@) =~= target.take(i as int),
                decreases bc.scenes@.len() - i,
            {
                let e = apply_to_scene(&bc.scenes[i], call);
                scenes.push(e);
                proof {
                    assert(target.take(i + 1) =~= target.take(i as int).push(target[i as int]));
                    assert(views_of(scenes@) =~= target.take(i + 1));
                }
                i += 1;
            }
            proof {
                assert(target.take(target.len() as int) =~= target);
            }
            let next = BcState {
                program_scene: bc.program_scene.clone(),
                preview_scene: clone_opt_string(&bc.preview_scene),
                studio_mode: bc.studio_mode,
                scenes,
            };
            (next, ok)
        },
    }
}

fn clone_opt_string(o: &Option<String>) -> (r: Option<String>)
    ensures
        (r is Some) == (o is Some),
        o matches Some(v) ==> (r matches Some(w) && w@ == v@),
{
    match o {
        Some(v) => Some(v.clone()),
        None => None,
    }
}

fn clone_scenes(scenes: &Vec<BcSceneState>) -> (r: Vec<BcSceneState>)
    ensures
        views_of(r@) == views_of(scenes@),
{
    let mut out: Vec<BcSceneState> = Vec::new();
    let mut i: usize = 0;
    while i < scenes.len()
        invariant
            0 <= i <= scenes@.len(),
            views_of(out@) =~= views_of(scenes@).take(i as int),
        decreases scenes@.len() - i,
    {
        let e = BcSceneState {
            name: scenes[i].name.clone(),
            items: clone_items(&scenes[i].items),
        };
        out.push(e);
        proof {
            assert(views_of(scenes@).take(i + 1) =~= views_of(scenes@).take(i as int).push(
                views_of(scenes@)[i as int],
            ));
            assert(views_of(out@) =~= views_of(scenes@).take(i + 1));
        }
        i += 1;
    }
    proof {
        assert(views_of(scenes@).take(scenes@.len() as int) =~= views_of(scenes@));
    }
    out
}

/// A deep copy of the model state.
pub fn clone_state(bc: &BcState) -> (r: BcState)
    ensures
        r@ == bc@,
{
    BcState {
        program_scene: bc.program_scene.clone(),
        preview_scene: clone_opt_string(&bc.preview_scene),
        studio_mode: bc.studio_mode,
        scenes: clone_scenes(&bc.scenes),
    }
}

/// Runs a whole call list against the model and counts the calls the BC-API
/// would have rejected.
pub fn apply_calls(bc: &BcState, calls: &Vec<BcCall>) -> (r: (BcState, usize))
    ensures
        r.0@ == spec_apply_calls(bc@, views_of(calls@)),
        r.1 == spec_failed_count(bc@, views_of(calls@)),
{
    let mut state = clone_state(bc);
    let mut failed: usize = 0;
    let mut i: usize = 0;
    proof {
        lemma_apply_calls_split(bc@, views_of(calls@), 0);
    }
    while i < calls.len()
        invariant
            0 <= i <= calls@.len(),
            state@ == spec_apply_calls(bc@, views_of(calls@).take(i as int)),
            failed == spec_failed_count(bc@, views_of(calls@).take(i as int)),
            failed <= i,
        decreases calls@.len() - i,
    {
        let (next, ok) = apply_call(&state, &calls[i]);
        state = next;
        if !ok {
            failed += 1;
        }
        proof {
            lemma_apply_calls_snoc(bc@, views_of(calls@).take(i as int), views_of(calls@)[i as int]);
            assert(views_of(calls@).take(i + 1) =~= views_of(calls@).take(i as int).push(
                views_of(calls@)[i as int],
            ));
        }
        i += 1;
    }
    proof {
        assert(views_of(calls@).take(calls@.len() as int) =~= views_of(calls@));
    }
    (state, failed)
}

/// Folding one more call extends the fold and the failure count at the end.
proof fn lemma_apply_calls_snoc(bc: BcStateView, calls: Seq<BcCallView>, c: BcCallView)
    ensures
        spec_apply_calls(bc, calls.push(c)) == spec_apply_call(spec_apply_calls(bc, calls), c),
        spec_failed_count(bc, calls.push(c)) == spec_failed_count(bc, calls) + (
        if call_ok(spec_apply_calls(bc, calls), c) {
            0nat
        } else {
            1nat
        }),
    decreases calls.len(),
{
    if calls.len() == 0 {
        assert(calls.push(c)[0] == c);
        assert(calls.push(c).drop_first() =~= Seq::<BcCallView>::empty());
        assert(spec_apply_calls(bc, calls) == bc);
        assert(spec_apply_calls(bc, calls.push(c)) == spec_apply_calls(
            spec_apply_call(bc, c),
            Seq::<BcCallView>::empty(),
        ));
        assert(spec_failed_count(bc, calls.push(c)) == (if call_ok(bc, c) {
            0nat
        } else {
            1nat
        }) + spec_failed_count(spec_apply_call(bc, c), Seq::<BcCallView>::empty()));
    } else {
        assert(calls.push(c)[0] == calls[0]);
        assert(calls.push(c).drop_first() =~= calls.drop_first().push(c));
        lemma_apply_calls_snoc(spec_apply_call(bc, calls[0]), calls.drop_first(), c);
        assert(spec_failed_count(bc, calls.push(c)) == (if call_ok(bc, calls[0]) {
            0nat
        } else {
            1nat
        }) + spec_failed_count(spec_apply_call(bc, calls[0]), calls.drop_first().push(c)));
        assert(spec_failed_count(bc, calls) == (if call_ok(bc, calls[0]) {
            0nat
        } else {
            1nat
        }) + spec_failed_count(spec_apply_call(bc, calls[0]), calls.drop_first()));
        assert(spec_apply_calls(bc, calls.push(c)) == spec_apply_calls(
            spec_apply_call(bc, calls[0]),
            calls.drop_first().push(c),
        ));
    }
}

proof fn lemma_apply_calls_split(bc: BcStateView, calls: Seq<BcCallView>, i: int)
    requires
        0 <= i <= calls.len(),
    ensures
        calls.take(0) =~= Seq::<BcCallView>::empty(),
        spec_apply_calls(bc, Seq::<BcCallView>::empty()) == bc,
        spec_failed_count(bc, Seq::<BcCallView>::empty()) == 0,
{
}


/// Folding a concatenation is folding the parts in turn, for the state and
/// for the failure count alike.
pub proof fn lemma_apply_calls_append(bc: BcStateView, a: Seq<BcCallView>, b: Seq<BcCallView>)
    ensures
        spec_apply_calls(bc, a + b) == spec_apply_calls(spec_apply_calls(bc, a), b),
        spec_failed_count(bc, a + b) == spec_failed_count(bc, a) + spec_failed_count(
            spec_apply_calls(bc, a),
            b,
        ),
    decreases a.len(),
{
    if a.len() == 0 {
        assert(a + b =~= b);
        assert(spec_apply_calls(bc, a) == bc);
        assert(spec_failed_count(bc, a) == 0);
    } else {
        assert((a + b)[0] == a[0]);
        assert((a + b).drop_first() =~= a.drop_first() + b);
        lemma_apply_calls_append(spec_apply_call(bc, a[0]), a.drop_first(), b);
    }
}

/// No call changes whether studio mode is on.
pub proof fn lemma_studio_mode_preserved(bc: BcStateView, cs: Seq<BcCallView>)
    ensures
        spec_apply_calls(bc, cs).studio_mode == bc.studio_mode,
    decreases cs.len(),
{
    if cs.len() > 0 {
        lemma_studio_mode_preserved(spec_apply_call(bc, cs[0]), cs.drop_first());
    }
}


// ---------------------------------------------------------------------------
// laws
// ---------------------------------------------------------------------------

/// Switching the program scene to the scene already shown changes nothing:
/// a `SceneChange` is idempotent when the program scene already matches.
pub proof fn lemma_scene_change_idempotent(bc: BcStateView, scene: Seq<char>)
    requires
        bc.program_scene == scene,
    ensures
        spec_apply_call(bc, BcCallView::SetProgramScene { scene_name: scene }) == bc,
{
}

/// A transform update preserves width and height always, and preserves every
/// scalar the update does not carry; every scalar it carries is taken.
pub proof fn lemma_transform_update_preserves(cur: TransformData, up: TransformData)
    ensures
        spec_merge_transform(cur, up).width == cur.width,
        spec_merge_transform(cur, up).height == cur.height,
        up.position_x is None ==> spec_merge_transform(cur, up).position_x == cur.position_x,
        up.position_y is None ==> spec_merge_transform(cur, up).position_y == cur.position_y,
        up.rotation is None ==> spec_merge_transform(cur, up).rotation == cur.rotation,
        up.scale_x is None ==> spec_merge_transform(cur, up).scale_x == cur.scale_x,
        up.scale_y is None ==> spec_merge_transform(cur, up).scale_y == cur.scale_y,
        up.position_x is Some ==> spec_merge_transform(cur, up).position_x == up.position_x,
        up.position_y is Some ==> spec_merge_transform(cur, up).position_y == up.position_y,
        up.rotation is Some ==> spec_merge_transform(cur, up).rotation == up.rotation,
        up.scale_x is Some ==> spec_merge_transform(cur, up).scale_x == up.scale_x,
        up.scale_y is Some ==> spec_merge_transform(cur, up).scale_y == up.scale_y,
{
}

/// A list every element of which passes the test is left whole by filtering.
proof fn lemma_filter_all(s: Seq<BcItemStateView>, pred: spec_fn(BcItemStateView) -> bool)
    requires
        forall|i: int| 0 <= i < s.len() ==> pred(#[trigger] s[i]),
    ensures
        s.filter(pred) == s,
    decreases s.len(),
{
    reveal(Seq::filter);
    if s.len() > 0 {
        lemma_filter_all(s.drop_last(), pred);
        assert(s.filter(pred) =~= s);
    }
}

proof fn lemma_filter_apply_idempotent(fl: FilterDataView, c: BcCallView)
    ensures
        filter_apply(filter_apply(fl, c), c) == filter_apply(fl, c),
{
}

proof fn lemma_item_apply_idempotent(scene_name: Seq<char>, it: BcItemStateView, c: BcCallView)
    ensures
        item_apply(scene_name, item_apply(scene_name, it, c), c) == item_apply(scene_name, it, c),
{
    let it1 = item_apply(scene_name, it, c);
    let it2 = item_apply(scene_name, it1, c);
    match c {
        BcCallView::SetFilterSettings { source_name, .. } => {
            if it.source_name == source_name {
                assert forall|j: int| 0 <= j < it1.filters.len() implies #[trigger] filter_apply(
                    it1.filters[j],
                    c,
                ) == it1.filters[j] by {
                    lemma_filter_apply_idempotent(it.filters[j], c);
                }
                assert(it2.filters =~= it1.filters);
            }
        },
        BcCallView::SetFilterEnabled { source_name, .. } => {
            if it.source_name == source_name {
                assert forall|j: int| 0 <= j < it1.filters.len() implies #[trigger] filter_apply(
                    it1.filters[j],
                    c,
                ) == it1.filters[j] by {
                    lemma_filter_apply_idempotent(it.filters[j], c);
                }
                assert(it2.filters =~= it1.filters);
            }
        },
        _ => {},
    }
}

proof fn lemma_scene_apply_idempotent(sc: BcSceneStateView, c: BcCallView)
    requires
        !(c is CreateItem),
    ensures
        scene_apply(scene_apply(sc, c), c) == scene_apply(sc, c),
{
    let s1 = scene_apply(sc, c);
    let s2 = scene_apply(s1, c);
    match c {
        BcCallView::RemoveItem { scene_name, scene_item_id } => {
            if sc.name == scene_name {
                sc.items.filter_lemma(keeps_item(scene_item_id));
                lemma_filter_all(sc.items.filter(keeps_item(scene_item_id)), keeps_item(scene_item_id));
                assert forall|i: int|
                    0 <= i < s1.items.len() implies keeps_item(scene_item_id)(
                    #[trigger] s1.items[i],
                ) by {}
                assert(s2.items =~= s1.items);
                assert(s2 == s1);
            }
        },
        BcCallView::CreateItem { .. } => {},
        _ => {
            assert forall|j: int| 0 <= j < s1.items.len() implies #[trigger] item_apply(
                s1.name,
                s1.items[j],
                c,
            ) == s1.items[j] by {
                lemma_item_apply_idempotent(sc.name, sc.items[j], c);
            }
            assert(s2.items =~= s1.items);
        },
    }
}

/// Every call the applier plans is idempotent on the model, except creating
/// an item (which adds a new one each time): applying it a second time
/// changes nothing more. This is the ground the snapshot-idempotence law
/// stands on.
pub proof fn lemma_apply_call_idempotent(bc: BcStateView, c: BcCallView)
    requires
        !(c is CreateItem),
    ensures
        spec_apply_call(spec_apply_call(bc, c), c) == spec_apply_call(bc, c),
{
    let s1 = spec_apply_call(bc, c);
    let s2 = spec_apply_call(s1, c);
    match c {
        BcCallView::SetProgramScene { .. } => {},
        BcCallView::SetPreviewScene { .. } => {},
        _ => {
            assert forall|i: int| 0 <= i < s1.scenes.len() implies #[trigger] scene_apply(
                s1.scenes[i],
                c,
            ) == s1.scenes[i] by {
                lemma_scene_apply_idempotent(bc.scenes[i], c);
            }
            assert(s2.scenes =~= s1.scenes);
        },
    }
}

/// A preview change outside studio mode is refused and changes nothing; in
/// studio mode it is accepted.
pub proof fn lemma_preview_needs_studio_mode(bc: BcStateView, scene: Seq<char>)
    ensures
        call_ok(bc, BcCallView::SetPreviewScene { scene_name: scene }) == bc.studio_mode,
        !bc.studio_mode ==> spec_apply_call(
            bc,
            BcCallView::SetPreviewScene { scene_name: scene },
        ) == bc,
{
}


} // verus!
