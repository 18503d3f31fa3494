//! The slave engine's decision core: the expected-state projection, the
//! applier that turns one incoming envelope into the BC-API calls to make,
//! the drift-detector tick, and the alerts both of them raise.
//!
//! The applier updates the projection before it hands any call out, so a
//! later drift check measures what the master last said against what the
//! local broadcasting application reports.

use vstd::prelude::*;
use crate::diff::DiffDetector;
use crate::diff::ExpectedState;
use crate::diff::ExpectedStateView;
use crate::diff::spec_detect;
use crate::images::b64_bytes_of;
use crate::images::cache_file_name;
use crate::images::b64_decode;
use crate::images::spec_cache_file_name;
use crate::protocol::DiffSeverity;
use crate::protocol::FilterData;
use crate::protocol::FilterDataView;
use crate::protocol::LocalStatePayload;
use crate::protocol::Payload;
use crate::protocol::PayloadView;
use crate::protocol::SceneData;
use crate::protocol::SceneDataView;
use crate::protocol::SceneItemData;
use crate::protocol::SceneItemDataView;
use crate::protocol::StateReportPayload;
use crate::protocol::SourceUpdateAction;
use crate::protocol::SyncMessage;
use crate::protocol::SyncMessageType;
use crate::protocol::SyncMessageView;
use crate::protocol::TransformData;
use crate::protocol::views_of;

verus! {

/// How serious an alert is.
#[derive(Clone, Copy, Debug, PartialEq, Eq, Structural)]
pub enum AlertSeverity {
    Warning,
    Error,
}

/// A human-directed notification of an apply failure or detected drift.
#[derive(Clone, Debug, PartialEq)]
pub struct DesyncAlert {
    pub id: String,
    pub timestamp: i64,
    pub scene_name: String,
    pub source_name: String,
    pub message: String,
    pub severity: AlertSeverity,
}

pub struct DesyncAlertView {
    pub id: Seq<char>,
    pub timestamp: i64,
    pub scene_name: Seq<char>,
    pub source_name: Seq<char>,
    pub message: Seq<char>,
    pub severity: AlertSeverity,
}

impl View for DesyncAlert {
    type V = DesyncAlertView;

    open spec fn view(&self) -> DesyncAlertView {
        DesyncAlertView {
            id: self.id@,
            timestamp: self.timestamp,
            scene_name: self.scene_name@,
            source_name: self.source_name@,
            message: self.message@,
            severity: self.severity,
        }
    }
}

/// The deterministic part of an alert: everything but its random id and its
/// clock stamp.
pub struct AlertCore {
    pub scene_name: Seq<char>,
    pub source_name: Seq<char>,
    pub message: Seq<char>,
    pub severity: AlertSeverity,
}

pub open spec fn core_of(a: DesyncAlertView) -> AlertCore {
    AlertCore {
        scene_name: a.scene_name,
        source_name: a.source_name,
        message: a.message,
        severity: a.severity,
    }
}

pub open spec fn cores_of(alerts: Seq<DesyncAlertView>) -> Seq<AlertCore> {
    Seq::new(alerts.len(), |i: int| core_of(alerts[i]))
}

/// Relies on `uuid::Uuid::new_v4` and its hyphenated rendering: a fresh
/// random identifier, 36 characters long.
#[verifier::external_body]
fn new_alert_id() -> (r: String)
    ensures
        r@.len() == 36,
{
    uuid::Uuid::new_v4().to_string()
}

/// Builds an alert around a fresh random id and the given clock stamp.
pub fn make_alert(
    scene_name: String,
    source_name: String,
    message: String,
    severity: AlertSeverity,
    now: i64,
) -> (r: DesyncAlert)
    ensures
        r@.scene_name == scene_name@,
        r@.source_name == source_name@,
        r@.message == message@,
        r@.severity == severity,
        r@.timestamp == now,
        core_of(r@) == (AlertCore {
            scene_name: scene_name@,
            source_name: source_name@,
            message: message@,
            severity: severity,
        }),
{
    DesyncAlert {
        id: new_alert_id(),
        timestamp: now,
        scene_name,
        source_name,
        message,
        severity,
    }
}

/// One mutation the applier asks the BC-API to make.
#[derive(Clone, Debug, PartialEq)]
pub enum BcCall {
    /// Switch the program scene.
    SetProgramScene { scene_name: String },
    /// Stage the preview scene (only possible in studio mode).
    SetPreviewScene { scene_name: String },
    /// Overwrite the scalars the update carries, keeping the others.
    ApplyTransform { scene_name: String, scene_item_id: i64, update: TransformData },
    /// Write the image bytes under the cache file name and point the input
    /// at the new file.
    WriteImage { source_name: String, file_name: String, bytes: Vec<u8> },
    /// Replace a filter's settings (overlaying onto what is there).
    SetFilterSettings { source_name: String, filter_name: String, settings: String },
    /// Enable or disable a filter.
    SetFilterEnabled { source_name: String, filter_name: String, enabled: bool },
    /// Create a scene item for a source, then apply the transform if one is
    /// carried.
    CreateItem {
        scene_name: String,
        source_name: String,
        enabled: Option<bool>,
        transform: Option<TransformData>,
    },
    /// Remove a scene item.
    RemoveItem { scene_name: String, scene_item_id: i64 },
    /// Set a scene item's enabled state.
    SetItemEnabled { scene_name: String, scene_item_id: i64, enabled: bool },
}

pub enum BcCallView {
    SetProgramScene { scene_name: Seq<char> },
    SetPreviewScene { scene_name: Seq<char> },
    ApplyTransform { scene_name: Seq<char>, scene_item_id: i64, update: TransformData },
    WriteImage { source_name: Seq<char>, file_name: Seq<char>, bytes: Seq<u8> },
    SetFilterSettings { source_name: Seq<char>, filter_name: Seq<char>, settings: Seq<char> },
    SetFilterEnabled { source_name: Seq<char>, filter_name: Seq<char>, enabled: bool },
    CreateItem {
        scene_name: Seq<char>,
        source_name: Seq<char>,
        enabled: Option<bool>,
        transform: Option<TransformData>,
    },
    RemoveItem { scene_name: Seq<char>, scene_item_id: i64 },
    SetItemEnabled { scene_name: Seq<char>, scene_item_id: i64, enabled: bool },
}

impl View for BcCall {
    type V = BcCallView;

    open spec fn view(&self) -> BcCallView {
        match self {
            BcCall::SetProgramScene { scene_name } => BcCallView::SetProgramScene {
                scene_name: scene_name@,
            },
            BcCall::SetPreviewScene { scene_name } => BcCallView::SetPreviewScene {
                scene_name: scene_name@,
            },
            BcCall::ApplyTransform { scene_name, scene_item_id, update } => {
                BcCallView::ApplyTransform {
                    scene_name: scene_name@,
                    scene_item_id: *scene_item_id,
                    update: *update,
                }
            },
            BcCall::WriteImage { source_name, file_name, bytes } => BcCallView::WriteImage {
                source_name: source_name@,
                file_name: file_name@,
                bytes: bytes@,
            },
            BcCall::SetFilterSettings { source_name, filter_name, settings } => {
                BcCallView::SetFilterSettings {
                    source_name: source_name@,
                    filter_name: filter_name@,
                    settings: settings@,
                }
            },
            BcCall::SetFilterEnabled { source_name, filter_name, enabled } => {
                BcCallView::SetFilterEnabled {
                    source_name: source_name@,
                    filter_name: filter_name@,
                    enabled: *enabled,
                }
            },
            BcCall::CreateItem { scene_name, source_name, enabled, transform } => {
                BcCallView::CreateItem {
                    scene_name: scene_name@,
                    source_name: source_name@,
                    enabled: *enabled,
                    transform: *transform,
                }
            },
            BcCall::RemoveItem { scene_name, scene_item_id } => BcCallView::RemoveItem {
                scene_name: scene_name@,
                scene_item_id: *scene_item_id,
            },
            BcCall::SetItemEnabled { scene_name, scene_item_id, enabled } => {
                BcCallView::SetItemEnabled {
                    scene_name: scene_name@,
                    scene_item_id: *scene_item_id,
                    enabled: *enabled,
                }
            },
        }
    }
}

// ---------------------------------------------------------------------------
// the projection
// ---------------------------------------------------------------------------

/// How one envelope moves the expected-state projection: a scene change or a
/// snapshot names the scene the master now shows; everything else leaves the
/// projection alone.
pub open spec fn spec_project(proj: ExpectedStateView, m: SyncMessageView) -> ExpectedStateView {
    match m.payload {
        PayloadView::SceneChange(p) => ExpectedStateView {
            current_scene: p.scene_name,
            ..proj
        },
        PayloadView::StateSync(p) => ExpectedStateView {
            current_scene: p.current_program_scene,
            ..proj
        },
        _ => proj,
    }
}

// ---------------------------------------------------------------------------
// the applier's call plan
// ---------------------------------------------------------------------------

/// The calls one filter of a snapshot item asks for: its settings, then its
/// enabled state.
pub open spec fn spec_filter_calls(source: Seq<char>, fs: Seq<FilterDataView>) -> Seq<BcCallView>
    decreases fs.len(),
{
    if fs.len() == 0 {
        Seq::empty()
    } else {
        seq![
            BcCallView::SetFilterSettings {
                source_name: source,
                filter_name: fs[0].name,
                settings: fs[0].settings,
            },
            BcCallView::SetFilterEnabled {
                source_name: source,
                filter_name: fs[0].name,
                enabled: fs[0].enabled,
            },
        ] + spec_filter_calls(source, fs.drop_first())
    }
}

/// The calls one snapshot item asks for: its transform, its image content
/// when carried and decodable, then its filters.
pub open spec fn spec_item_calls(scene: Seq<char>, item: SceneItemDataView, now: i64) -> Seq<
    BcCallView,
> {
    let transform_part: Seq<BcCallView> = match item.transform {
        Some(t) => seq![
            BcCallView::ApplyTransform {
                scene_name: scene,
                scene_item_id: item.scene_item_id,
                update: t,
            },
        ],
        None => Seq::empty(),
    };
    let image_part: Seq<BcCallView> = match item.image_data {
        Some(img) => match b64_bytes_of(img.data) {
            Some(bytes) => seq![
                BcCallView::WriteImage {
                    source_name: item.source_name,
                    file_name: spec_cache_file_name(img.file, item.source_name, bytes, now),
                    bytes: bytes,
                },
            ],
            None => Seq::empty(),
        },
        None => Seq::empty(),
    };
    transform_part + image_part + spec_filter_calls(item.source_name, item.filters)
}

/// The calls a snapshot's scenes ask for, scene by scene, item by item.
pub open spec fn spec_items_calls(
    scene: Seq<char>,
    items: Seq<SceneItemDataView>,
    now: i64,
) -> Seq<BcCallView>
    decreases items.len(),
{
    if items.len() == 0 {
        Seq::empty()
    } else {
        spec_item_calls(scene, items[0], now) + spec_items_calls(scene, items.drop_first(), now)
    }
}

pub open spec fn spec_scenes_calls(scenes: Seq<SceneDataView>, now: i64) -> Seq<BcCallView>
    decreases scenes.len(),
{
    if scenes.len() == 0 {
        Seq::empty()
    } else {
        spec_items_calls(scenes[0].name, scenes[0].items, now) + spec_scenes_calls(
            scenes.drop_first(),
            now,
        )
    }
}

/// Every call one envelope asks the BC-API for, in order. A snapshot walks
/// its scenes, then switches the program scene, then attempts the preview
/// scene when one is carried.
pub open spec fn spec_plan_calls(m: SyncMessageView, now: i64) -> Seq<BcCallView> {
    match m.payload {
        PayloadView::SceneChange(p) => seq![
            BcCallView::SetProgramScene { scene_name: p.scene_name },
        ],
        PayloadView::TransformUpdate(p) => seq![
            BcCallView::ApplyTransform {
                scene_name: p.scene_name,
                scene_item_id: p.scene_item_id,
                update: p.transform,
            },
        ],
        PayloadView::ImageUpdate(p) => match p.image_data {
            None => Seq::empty(),
            Some(text) => match b64_bytes_of(text) {
                Some(bytes) => seq![
                    BcCallView::WriteImage {
                        source_name: p.source_name,
                        file_name: spec_cache_file_name(p.file, p.source_name, bytes, now),
                        bytes: bytes,
                    },
                ],
                None => Seq::empty(),
            },
        },
        PayloadView::FilterUpdate(p) => seq![
            BcCallView::SetFilterSettings {
                source_name: p.source_name,
                filter_name: p.filter_name,
                settings: p.filter_settings,
            },
        ],
        PayloadView::SourceUpdate(p) => match p.action {
            SourceUpdateAction::Created => seq![
                BcCallView::CreateItem {
                    scene_name: p.scene_name,
                    source_name: p.source_name,
                    enabled: p.scene_item_enabled,
                    transform: p.transform,
                },
            ],
            SourceUpdateAction::Removed => seq![
                BcCallView::RemoveItem {
                    scene_name: p.scene_name,
                    scene_item_id: p.scene_item_id,
                },
            ],
            SourceUpdateAction::EnabledStateChanged => match p.scene_item_enabled {
                Some(e) => seq![
                    BcCallView::SetItemEnabled {
                        scene_name: p.scene_name,
                        scene_item_id: p.scene_item_id,
                        enabled: e,
                    },
                ],
                None => Seq::empty(),
            },
            SourceUpdateAction::SettingsChanged => Seq::empty(),
        },
        PayloadView::StateSync(p) => {
            let preview_part: Seq<BcCallView> = match p.current_preview_scene {
                Some(pv) => seq![BcCallView::SetPreviewScene { scene_name: pv }],
                None => Seq::empty(),
            };
            spec_scenes_calls(p.scenes, now) + seq![
                BcCallView::SetProgramScene { scene_name: p.current_program_scene },
            ] + preview_part
        },
        PayloadView::StateReport(_) => Seq::empty(),
        PayloadView::Empty => Seq::empty(),
    }
}

/// The alert an envelope raises while being planned: only an image update
/// whose carried data is not valid base64 raises one here (apply failures
/// are reported by whoever makes the calls).
pub open spec fn spec_plan_alert_cores(m: SyncMessageView) -> Seq<AlertCore> {
    match m.payload {
        PayloadView::ImageUpdate(p) => match p.image_data {
            Some(text) => match b64_bytes_of(text) {
                Some(_) => Seq::empty(),
                None => seq![
                    AlertCore {
                        scene_name: Seq::empty(),
                        source_name: p.source_name,
                        message: ("Failed to update image: invalid base64 data")@,
                        severity: AlertSeverity::Warning,
                    },
                ],
            },
            None => Seq::empty(),
        },
        _ => Seq::empty(),
    }
}

// ---------------------------------------------------------------------------
// the engine
// ---------------------------------------------------------------------------

/// The slave engine's state: the expected-state projection.
pub struct SlaveSync {
    pub expected_state: ExpectedState,
}

fn filter_calls_from(
    source: &String,
    filters: &Vec<FilterData>,
    i: usize,
    out: &mut Vec<BcCall>,
)
    requires
        i <= filters@.len(),
    ensures
        views_of(final(out)@) == views_of(old(out)@) + spec_filter_calls(
            source@,
            views_of(filters@).skip(i as int),
        ),
    decreases filters@.len() - i,
{
    if i == filters.len() {
        proof {
            assert(views_of(filters@).skip(i as int) =~= Seq::<FilterDataView>::empty());
            assert(views_of(out@) + spec_filter_calls(source@, views_of(filters@).skip(i as int))
                =~= views_of(out@));
        }
        return ;
    }
    let settings_call = BcCall::SetFilterSettings {
        source_name: source.clone(),
        filter_name: filters[i].name.clone(),
        settings: filters[i].settings.clone(),
    };
    let enabled_call = BcCall::SetFilterEnabled {
        source_name: source.clone(),
        filter_name: filters[i].name.clone(),
        enabled: filters[i].enabled,
    };
    out.push(settings_call);
    out.push(enabled_call);
    let ghost mid = out@;
    filter_calls_from(source, filters, i + 1, out);
    proof {
        let fvs = views_of(filters@);
        assert(fvs.skip(i as int)[0] == fvs[i as int]);
        assert(fvs.skip(i as int).drop_first() =~= fvs.skip(i + 1));
        assert(views_of(mid) =~= views_of(old(out)@).push(mid[mid.len() - 2]@).push(
            mid[mid.len() - 1]@,
        ));
        assert(views_of(final(out)@) =~= views_of(old(out)@) + spec_filter_calls(
            source@,
            fvs.skip(i as int),
        ));
    }
}

/// Plans the calls for one snapshot item.
fn push_item_calls(scene: &String, item: &SceneItemData, now: i64, out: &mut Vec<BcCall>)
    ensures
        views_of(final(out)@) == views_of(old(out)@) + spec_item_calls(scene@, item@, now),
{
    let ghost start = out@;
    match &item.transform {
        Some(t) => {
            out.push(
                BcCall::ApplyTransform {
                    scene_name: scene.clone(),
                    scene_item_id: item.scene_item_id,
                    update: *t,
                },
            );
        },
        None => {},
    }
    let ghost after_transform = out@;
    match &item.image_data {
        Some(img) => {
            match b64_decode(img.data.as_str()) {
                Ok(bytes) => {
                    let file_name = cache_file_name(
                        img.file.as_str(),
                        item.source_name.as_str(),
                        &bytes,
                        now,
                    );
                    out.push(
                        BcCall::WriteImage {
                            source_name: item.source_name.clone(),
                            file_name,
                            bytes,
                        },
                    );
                },
                Err(_) => {},
            }
        },
        None => {},
    }
    let ghost after_image = out@;
    filter_calls_from(&item.source_name, &item.filters, 0, out);
    proof {
        assert(views_of(item.filters@).skip(0) =~= item@.filters);
        assert(views_of(final(out)@) =~= views_of(old(out)@) + spec_item_calls(
            scene@,
            item@,
            now,
        ));
    }
}

fn items_calls_from(scene: &String, items: &Vec<SceneItemData>, i: usize, now: i64, out: &mut Vec<
    BcCall,
>)
    requires
        i <= items@.len(),
    ensures
        views_of(final(out)@) == views_of(old(out)@) + spec_items_calls(
            scene@,
            views_of(items@).skip(i as int),
            now,
        ),
    decreases items@.len() - i,
{
    if i == items.len() {
        proof {
            assert(views_of(items@).skip(i as int) =~= Seq::<SceneItemDataView>::empty());
            assert(views_of(out@) + spec_items_calls(
                scene@,
                views_of(items@).skip(i as int),
                now,
            ) =~= views_of(out@));
        }
        return ;
    }
    push_item_calls(scene, &items[i], now, out);
    let ghost mid = out@;
    items_calls_from(scene, items, i + 1, now, out);
    proof {
        let ivs = views_of(items@);
        assert(ivs.skip(i as int)[0] == ivs[i as int]);
        assert(ivs.skip(i as int).drop_first() =~= ivs.skip(i + 1));
        assert(views_of(final(out)@) =~= views_of(old(out)@) + spec_items_calls(
            scene@,
            ivs.skip(i as int),
            now,
        ));
    }
}

fn scenes_calls_from(scenes: &Vec<SceneData>, i: usize, now: i64, out: &mut Vec<BcCall>)
    requires
        i <= scenes@.len(),
    ensures
        views_of(final(out)@) == views_of(old(out)@) + spec_scenes_calls(
            views_of(scenes@).skip(i as int),
            now,
        ),
    decreases scenes@.len() - i,
{
    if i == scenes.len() {
        proof {
            assert(views_of(scenes@).skip(i as int) =~= Seq::<SceneDataView>::empty());
            assert(views_of(out@) + spec_scenes_calls(views_of(scenes@).skip(i as int), now)
                =~= views_of(out@));
        }
        return ;
    }
    items_calls_from(&scenes[i].name, &scenes[i].items, 0, now, out);
    let ghost mid = out@;
    scenes_calls_from(scenes, i + 1, now, out);
    proof {
        let svs = views_of(scenes@);
        assert(svs.skip(i as int)[0] == svs[i as int]);
        assert(svs.skip(i as int).drop_first() =~= svs.skip(i + 1));
        assert(views_of(scenes@[i as int].items@).skip(0) =~= svs[i as int].items);
        assert(views_of(final(out)@) =~= views_of(old(out)@) + spec_scenes_calls(
            svs.skip(i as int),
            now,
        ));
    }
}

impl SlaveSync {
    /// A fresh engine with an empty projection.
    pub fn new() -> (r: SlaveSync)
        ensures
            r.expected_state@.current_scene.len() == 0,
            r.expected_state@.sources is None,
    {
        SlaveSync { expected_state: ExpectedState::new() }
    }

    /// Moves the projection for one envelope, before anything is applied.
    pub fn update_expected_state(&mut self, message: &SyncMessage)
        ensures
            final(self).expected_state@ == spec_project(old(self).expected_state@, message@),
    {
        match &message.payload {
            Payload::SceneChange(p) => {
                self.expected_state.current_scene = p.scene_name.clone();
            },
            Payload::StateSync(p) => {
                self.expected_state.current_scene = p.current_program_scene.clone();
            },
            _ => {},
        }
    }

    /// Applies one envelope: first the projection moves, then the calls the
    /// envelope asks for are handed back in order, together with any alert
    /// raised while planning. The caller makes the calls and reports their
    /// failures itself.
    pub fn handle_message(&mut self, message: &SyncMessage, now: i64) -> (r: (
        Vec<BcCall>,
        Vec<DesyncAlert>,
    ))
        ensures
            final(self).expected_state@ == spec_project(old(self).expected_state@, message@),
            views_of(r.0@) == spec_plan_calls(message@, now),
            cores_of(views_of(r.1@)) == spec_plan_alert_cores(message@),
            forall|i: int| 0 <= i < r.1@.len() ==> (#[trigger] r.1@[i])@.timestamp == now,
    {
        self.update_expected_state(message);
        let mut calls: Vec<BcCall> = Vec::new();
        let mut alerts: Vec<DesyncAlert> = Vec::new();
        match &message.payload {
            Payload::SceneChange(p) => {
                calls.push(BcCall::SetProgramScene { scene_name: p.scene_name.clone() });
            },
            Payload::TransformUpdate(p) => {
                calls.push(
                    BcCall::ApplyTransform {
                        scene_name: p.scene_name.clone(),
                        scene_item_id: p.scene_item_id,
                        update: p.transform,
                    },
                );
            },
            Payload::ImageUpdate(p) => {
                match &p.image_data {
                    Some(text) => {
                        match b64_decode(text.as_str()) {
                            Ok(bytes) => {
                                let file_name = cache_file_name(
                                    p.file.as_str(),
                                    p.source_name.as_str(),
                                    &bytes,
                                    now,
                                );
                                calls.push(
                                    BcCall::WriteImage {
                                        source_name: p.source_name.clone(),
                                        file_name,
                                        bytes,
                                    },
                                );
                            },
                            Err(_) => {
                                alerts.push(
                                    make_alert(
                                        String::new(),
                                        p.source_name.clone(),
                                        String::from_str(
                                            "Failed to update image: invalid base64 data",
                                        ),
                                        AlertSeverity::Warning,
                                        now,
                                    ),
                                );
                            },
                        }
                    },
                    None => {},
                }
            },
            Payload::FilterUpdate(p) => {
                calls.push(
                    BcCall::SetFilterSettings {
                        source_name: p.source_name.clone(),
                        filter_name: p.filter_name.clone(),
                        settings: p.filter_settings.clone(),
                    },
                );
            },
            Payload::SourceUpdate(p) => {
                match p.action {
                    SourceUpdateAction::Created => {
                        calls.push(
                            BcCall::CreateItem {
                                scene_name: p.scene_name.clone(),
                                source_name: p.source_name.clone(),
                                enabled: p.scene_item_enabled,
                                transform: p.transform,
                            },
                        );
                    },
                    SourceUpdateAction::Removed => {
                        calls.push(
                            BcCall::RemoveItem {
                                scene_name: p.scene_name.clone(),
                                scene_item_id: p.scene_item_id,
                            },
                        );
                    },
                    SourceUpdateAction::EnabledStateChanged => {
                        match p.scene_item_enabled {
                            Some(e) => {
                                calls.push(
                                    BcCall::SetItemEnabled {
                                        scene_name: p.scene_name.clone(),
                                        scene_item_id: p.scene_item_id,
                                        enabled: e,
                                    },
                                );
                            },
                            None => {},
                        }
                    },
                    SourceUpdateAction::SettingsChanged => {},
                }
            },
            Payload::StateSync(p) => {
                scenes_calls_from(&p.scenes, 0, now, &mut calls);
                calls.push(
                    BcCall::SetProgramScene { scene_name: p.current_program_scene.clone() },
                );
                match &p.current_preview_scene {
                    Some(pv) => {
                        calls.push(BcCall::SetPreviewScene { scene_name: pv.clone() });
                    },
                    None => {},
                }
                proof {
                    assert(views_of(p.scenes@).skip(0) =~= message@.payload->StateSync_0.scenes);
                }
            },
            Payload::StateReport(_) => {},
            Payload::Empty => {},
        }
        proof {
            assert(views_of(calls@) =~= spec_plan_calls(message@, now));
            assert(cores_of(views_of(alerts@)) =~= spec_plan_alert_cores(message@));
        }
        (calls, alerts)
    }

    /// One drift-detector tick: compares the sampled local state against the
    /// projection and builds the report to send upstream plus an alert per
    /// difference — critical differences become errors, the rest warnings.
    /// While the projection is still empty the tick reports nothing.
    pub fn periodic_check(&self, local_state: LocalStatePayload, now: i64) -> (r: (
        Option<StateReportPayload>,
        Vec<DesyncAlert>,
    ))
        ensures
            self.expected_state.is_empty_spec() ==> (r.0 is None && r.1@.len() == 0),
            !self.expected_state.is_empty_spec() ==> (r.0 matches Some(report)
                && report@.is_synced == (spec_detect(local_state@, self.expected_state@).len()
                == 0) && report@.desync_details == spec_detect(
                local_state@,
                self.expected_state@,
            ) && report@.current_state == local_state@),
            !self.expected_state.is_empty_spec() ==> {
                let diffs = spec_detect(local_state@, self.expected_state@);
                &&& r.1@.len() == diffs.len()
                &&& forall|i: int|
                    0 <= i < diffs.len() ==> (#[trigger] r.1@[i])@.scene_name
                        == diffs[i].scene_name && r.1@[i]@.source_name == diffs[i].source_name
                        && r.1@[i]@.message == diffs[i].description && r.1@[i]@.severity == (
                    if diffs[i].severity is Critical {
                        AlertSeverity::Error
                    } else {
                        AlertSeverity::Warning
                    }) && r.1@[i]@.timestamp == now
            },
    {
        if self.expected_state.is_empty() {
            return (None, Vec::new());
        }
        let diffs = DiffDetector::detect_differences(&local_state, &self.expected_state);
        let mut alerts: Vec<DesyncAlert> = Vec::new();
        let mut i: usize = 0;
        while i < diffs.len()
            invariant
                0 <= i <= diffs@.len(),
                alerts@.len() == i,
                views_of(diffs@) == spec_detect(local_state@, self.expected_state@),
                forall|j: int|
                    0 <= j < i ==> (#[trigger] alerts@[j])@.scene_name == views_of(diffs@)[j].scene_name
                        && alerts@[j]@.source_name == views_of(diffs@)[j].source_name
                        && alerts@[j]@.message == views_of(diffs@)[j].description
                        && alerts@[j]@.severity == (if views_of(diffs@)[j].severity is Critical {
                        AlertSeverity::Error
                    } else {
                        AlertSeverity::Warning
                    }) && alerts@[j]@.timestamp == now,
            decreases diffs@.len() - i,
        {
            let severity = match diffs[i].severity {
                DiffSeverity::Critical => AlertSeverity::Error,
                _ => AlertSeverity::Warning,
            };
            let alert = make_alert(
                diffs[i].scene_name.clone(),
                diffs[i].source_name.clone(),
                diffs[i].description.clone(),
                severity,
                now,
            );
            alerts.push(alert);
            i += 1;
        }
        let is_synced = DiffDetector::is_synced(&diffs);
        let report = StateReportPayload {
            is_synced,
            desync_details: diffs,
            current_state: local_state,
        };
        (Some(report), alerts)
    }
}


/// An image update that carries no image data is a no-op on the slave: no
/// call, no alert, and the projection is untouched.
pub proof fn lemma_image_update_without_data_is_noop(
    m: SyncMessageView,
    now: i64,
    proj: ExpectedStateView,
)
    requires
        m.payload matches PayloadView::ImageUpdate(p) && p.image_data is None,
    ensures
        spec_plan_calls(m, now).len() == 0,
        spec_plan_alert_cores(m).len() == 0,
        spec_project(proj, m) == proj,
{
}

/// No call of a snapshot's scene walk touches the program or preview scene.
proof fn lemma_filter_calls_kinds(source: Seq<char>, fs: Seq<FilterDataView>)
    ensures
        forall|i: int|
            0 <= i < spec_filter_calls(source, fs).len() ==> !((
            #[trigger] spec_filter_calls(source, fs)[i]) is SetPreviewScene) && !(
            spec_filter_calls(source, fs)[i] is SetProgramScene),
    decreases fs.len(),
{
    if fs.len() > 0 {
        lemma_filter_calls_kinds(source, fs.drop_first());
    }
}

proof fn lemma_item_calls_kinds(scene: Seq<char>, item: SceneItemDataView, now: i64)
    ensures
        forall|i: int|
            0 <= i < spec_item_calls(scene, item, now).len() ==> !((
            #[trigger] spec_item_calls(scene, item, now)[i]) is SetPreviewScene) && !(
            spec_item_calls(scene, item, now)[i] is SetProgramScene),
{
    lemma_filter_calls_kinds(item.source_name, item.filters);
}

proof fn lemma_items_calls_kinds(scene: Seq<char>, items: Seq<SceneItemDataView>, now: i64)
    ensures
        forall|i: int|
            0 <= i < spec_items_calls(scene, items, now).len() ==> !((
            #[trigger] spec_items_calls(scene, items, now)[i]) is SetPreviewScene) && !(
            spec_items_calls(scene, items, now)[i] is SetProgramScene),
    decreases items.len(),
{
    if items.len() > 0 {
        lemma_item_calls_kinds(scene, items[0], now);
        lemma_items_calls_kinds(scene, items.drop_first(), now);
    }
}

proof fn lemma_scenes_calls_kinds(scenes: Seq<SceneDataView>, now: i64)
    ensures
        forall|i: int|
            0 <= i < spec_scenes_calls(scenes, now).len() ==> !((
            #[trigger] spec_scenes_calls(scenes, now)[i]) is SetPreviewScene) && !(
            spec_scenes_calls(scenes, now)[i] is SetProgramScene),
    decreases scenes.len(),
{
    if scenes.len() > 0 {
        lemma_items_calls_kinds(scenes[0].name, scenes[0].items, now);
        lemma_scenes_calls_kinds(scenes.drop_first(), now);
    }
}

/// The shape of a snapshot's plan: the scene walk first (which never touches
/// the program or preview scene), then exactly one program switch, and —
/// exactly when the snapshot carries a preview scene — one preview attempt
/// as the last call. So a snapshot with a preview scene makes exactly one
/// preview attempt, which outside studio mode is the one call that fails.
pub proof fn lemma_state_sync_plan_shape(m: SyncMessageView, now: i64)
    requires
        m.payload is StateSync,
    ensures
        ({
            let p = m.payload->StateSync_0;
            let plan = spec_plan_calls(m, now);
            let walk = spec_scenes_calls(p.scenes, now);
            &&& (p.current_preview_scene matches Some(pv) ==> plan.len() == walk.len() + 2
                && plan.last() == (BcCallView::SetPreviewScene { scene_name: pv }))
            &&& (p.current_preview_scene is None ==> plan.len() == walk.len() + 1)
            &&& forall|i: int|
                0 <= i < walk.len() + 1 ==> !((#[trigger] plan[i]) is SetPreviewScene)
        }),
{
    let p = m.payload->StateSync_0;
    let plan = spec_plan_calls(m, now);
    let walk = spec_scenes_calls(p.scenes, now);
    lemma_scenes_calls_kinds(p.scenes, now);
    assert forall|i: int| 0 <= i < walk.len() + 1 implies !((#[trigger] plan[i])
        is SetPreviewScene) by {
        if i < walk.len() {
            assert(plan[i] == walk[i]);
        } else {
            assert(plan[i] == (BcCallView::SetProgramScene {
                scene_name: p.current_program_scene,
            }));
        }
    }
}


/// The one warning a preview-carrying snapshot is owed outside studio mode:
/// when the local machine accepts every call of the snapshot's scene walk,
/// exactly one call of the whole plan — the preview attempt — is refused.
pub proof fn lemma_preview_without_studio_mode_fails_once(
    bc: crate::bcmodel::BcStateView,
    m: SyncMessageView,
    now: i64,
)
    requires
        m.payload matches PayloadView::StateSync(p) && p.current_preview_scene is Some,
        !bc.studio_mode,
        crate::bcmodel::spec_failed_count(
            bc,
            spec_scenes_calls(m.payload->StateSync_0.scenes, now),
        ) == 0,
    ensures
        crate::bcmodel::spec_failed_count(bc, spec_plan_calls(m, now)) == 1,
{
    let p = m.payload->StateSync_0;
    let walk = spec_scenes_calls(p.scenes, now);
    let prog = seq![BcCallView::SetProgramScene { scene_name: p.current_program_scene }];
    let preview = seq![
        BcCallView::SetPreviewScene { scene_name: p.current_preview_scene.unwrap() },
    ];
    assert(spec_plan_calls(m, now) =~= walk + (prog + preview));
    crate::bcmodel::lemma_apply_calls_append(bc, walk, prog + preview);
    let after_walk = crate::bcmodel::spec_apply_calls(bc, walk);
    crate::bcmodel::lemma_apply_calls_append(after_walk, prog, preview);
    assert((prog + preview).drop_first() =~= preview);
    crate::bcmodel::lemma_studio_mode_preserved(bc, walk);
    crate::bcmodel::lemma_studio_mode_preserved(after_walk, prog);
    let after_prog = crate::bcmodel::spec_apply_calls(after_walk, prog);
    assert(crate::bcmodel::spec_failed_count(after_walk, prog) == 0) by {
        assert(crate::bcmodel::call_ok(after_walk, prog[0]));
        assert(crate::bcmodel::spec_failed_count(
            crate::bcmodel::spec_apply_call(after_walk, prog[0]),
            prog.drop_first(),
        ) == 0) by {
            assert(prog.drop_first() =~= Seq::<BcCallView>::empty());
        }
    }
    assert(crate::bcmodel::spec_failed_count(after_prog, preview) == 1) by {
        assert(!crate::bcmodel::call_ok(after_prog, preview[0]));
        assert(crate::bcmodel::spec_failed_count(
            crate::bcmodel::spec_apply_call(after_prog, preview[0]),
            preview.drop_first(),
        ) == 0) by {
            assert(preview.drop_first() =~= Seq::<BcCallView>::empty());
        }
    }
}

/// The spine of apply order: the applier processes whatever prefix of the
/// master's production sequence has been delivered, so the message types it
/// has processed are exactly a prefix of the produced types. (That delivered
/// frames are a prefix in production order rests on the in-order, reliable
/// transport.)
pub open spec fn message_types_of(ms: Seq<SyncMessageView>) -> Seq<SyncMessageType> {
    Seq::new(ms.len(), |i: int| ms[i].message_type)
}

pub proof fn lemma_applier_prefix_order(ms: Seq<SyncMessageView>, n: int)
    requires
        0 <= n <= ms.len(),
    ensures
        message_types_of(ms.take(n)) == message_types_of(ms).take(n),
{
    assert(message_types_of(ms.take(n)) =~= message_types_of(ms).take(n));
}

} // verus!
