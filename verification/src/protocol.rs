//! The wire protocol's data model: the message envelope, the payload shape
//! belonging to each message type, and the constructors that stamp envelopes
//! with a wall-clock timestamp.
//!
//! Every exec type has a spec-level view (`...View`) over `Seq<char>` and the
//! plain integer fields, so that contracts elsewhere can speak of message
//! contents independently of `String` allocation.
//!
//! Transform scalars (positions, rotation, scales, width, height) are carried
//! as signed integers in thousandths of a unit, so that the drift tolerances
//! and the codec stay exact.

use vstd::prelude::*;

verus! {

/// The views of a sequence of viewable values.
pub open spec fn views_of<T: View>(s: Seq<T>) -> Seq<T::V> {
    Seq::new(s.len(), |i: int| s[i]@)
}

/// The kind of a protocol envelope.
#[derive(Clone, Copy, Debug, PartialEq, Eq, Structural)]
pub enum SyncMessageType {
    SourceUpdate,
    TransformUpdate,
    SceneChange,
    ImageUpdate,
    FilterUpdate,
    Heartbeat,
    StateSync,
    StateSyncRequest,
    StateReport,
}

/// The coarse replication category an envelope belongs to.
#[derive(Clone, Copy, Debug, PartialEq, Eq, Structural)]
pub enum SyncTargetType {
    Source,
    Preview,
    Program,
}

/// What a `SourceUpdate` reports happened to a scene item.
#[derive(Clone, Copy, Debug, PartialEq, Eq, Structural)]
pub enum SourceUpdateAction {
    Created,
    Removed,
    EnabledStateChanged,
    SettingsChanged,
}

/// A scene-item transform. Each scalar is in thousandths of a unit and is
/// optional: a missing scalar in an update means "leave the local value".
#[derive(Clone, Copy, Debug, PartialEq, Eq, Structural)]
pub struct TransformData {
    pub position_x: Option<i64>,
    pub position_y: Option<i64>,
    pub rotation: Option<i64>,
    pub scale_x: Option<i64>,
    pub scale_y: Option<i64>,
    pub width: Option<i64>,
    pub height: Option<i64>,
}

/// Payload of a `SceneChange` envelope.
#[derive(Clone, Debug, PartialEq)]
pub struct SceneChangePayload {
    pub scene_name: String,
}

pub struct SceneChangeView {
    pub scene_name: Seq<char>,
}

impl View for SceneChangePayload {
    type V = SceneChangeView;

    open spec fn view(&self) -> SceneChangeView {
        SceneChangeView { scene_name: self.scene_name@ }
    }
}

/// Payload of a `TransformUpdate` envelope.
#[derive(Clone, Debug, PartialEq)]
pub struct TransformUpdatePayload {
    pub scene_name: String,
    pub scene_item_id: i64,
    pub transform: TransformData,
}

pub struct TransformUpdateView {
    pub scene_name: Seq<char>,
    pub scene_item_id: i64,
    pub transform: TransformData,
}

impl View for TransformUpdatePayload {
    type V = TransformUpdateView;

    open spec fn view(&self) -> TransformUpdateView {
        TransformUpdateView {
            scene_name: self.scene_name@,
            scene_item_id: self.scene_item_id,
            transform: self.transform,
        }
    }
}

/// Payload of an `ImageUpdate` envelope. `image_data` is the base64 encoding
/// of the image file's bytes, or `None` when the master could not read them.
#[derive(Clone, Debug, PartialEq)]
pub struct ImageUpdatePayload {
    pub scene_name: String,
    pub source_name: String,
    pub file: String,
    pub image_data: Option<String>,
}

pub struct ImageUpdateView {
    pub scene_name: Seq<char>,
    pub source_name: Seq<char>,
    pub file: Seq<char>,
    pub image_data: Option<Seq<char>>,
}

impl View for ImageUpdatePayload {
    type V = ImageUpdateView;

    open spec fn view(&self) -> ImageUpdateView {
        ImageUpdateView {
            scene_name: self.scene_name@,
            source_name: self.source_name@,
            file: self.file@,
            image_data: match self.image_data {
                Some(ref d) => Some(d@),
                None => None,
            },
        }
    }
}

/// Payload of a `FilterUpdate` envelope. `filter_settings` carries the
/// filter's settings object as opaque text.
#[derive(Clone, Debug, PartialEq)]
pub struct FilterUpdatePayload {
    pub scene_name: String,
    pub scene_item_id: i64,
    pub source_name: String,
    pub filter_name: String,
    pub filter_settings: String,
}

pub struct FilterUpdateView {
    pub scene_name: Seq<char>,
    pub scene_item_id: i64,
    pub source_name: Seq<char>,
    pub filter_name: Seq<char>,
    pub filter_settings: Seq<char>,
}

impl View for FilterUpdatePayload {
    type V = FilterUpdateView;

    open spec fn view(&self) -> FilterUpdateView {
        FilterUpdateView {
            scene_name: self.scene_name@,
            scene_item_id: self.scene_item_id,
            source_name: self.source_name@,
            filter_name: self.filter_name@,
            filter_settings: self.filter_settings@,
        }
    }
}

/// Payload of a `SourceUpdate` envelope.
#[derive(Clone, Debug, PartialEq)]
pub struct SourceUpdatePayload {
    pub scene_name: String,
    pub scene_item_id: i64,
    pub source_name: String,
    pub action: SourceUpdateAction,
    pub source_type: Option<String>,
    pub scene_item_enabled: Option<bool>,
    pub transform: Option<TransformData>,
}

pub struct SourceUpdateView {
    pub scene_name: Seq<char>,
    pub scene_item_id: i64,
    pub source_name: Seq<char>,
    pub action: SourceUpdateAction,
    pub source_type: Option<Seq<char>>,
    pub scene_item_enabled: Option<bool>,
    pub transform: Option<TransformData>,
}

impl View for SourceUpdatePayload {
    type V = SourceUpdateView;

    open spec fn view(&self) -> SourceUpdateView {
        SourceUpdateView {
            scene_name: self.scene_name@,
            scene_item_id: self.scene_item_id,
            source_name: self.source_name@,
            action: self.action,
            source_type: match self.source_type {
                Some(ref t) => Some(t@),
                None => None,
            },
            scene_item_enabled: self.scene_item_enabled,
            transform: self.transform,
        }
    }
}

/// A filter attached to a source, as carried inside a snapshot.
#[derive(Clone, Debug, PartialEq)]
pub struct FilterData {
    pub name: String,
    pub enabled: bool,
    pub settings: String,
}

pub struct FilterDataView {
    pub name: Seq<char>,
    pub enabled: bool,
    pub settings: Seq<char>,
}

impl View for FilterData {
    type V = FilterDataView;

    open spec fn view(&self) -> FilterDataView {
        FilterDataView { name: self.name@, enabled: self.enabled, settings: self.settings@ }
    }
}

/// Inlined image content carried for an image source inside a snapshot:
/// the original file path and the base64 encoding of the file's bytes.
#[derive(Clone, Debug, PartialEq)]
pub struct ImageData {
    pub file: String,
    pub data: String,
}

pub struct ImageDataView {
    pub file: Seq<char>,
    pub data: Seq<char>,
}

impl View for ImageData {
    type V = ImageDataView;

    open spec fn view(&self) -> ImageDataView {
        ImageDataView { file: self.file@, data: self.data@ }
    }
}

/// One scene item inside a snapshot.
#[derive(Clone, Debug, PartialEq)]
pub struct SceneItemData {
    pub source_name: String,
    pub scene_item_id: i64,
    pub source_type: String,
    pub transform: Option<TransformData>,
    pub image_data: Option<ImageData>,
    pub filters: Vec<FilterData>,
}

pub struct SceneItemDataView {
    pub source_name: Seq<char>,
    pub scene_item_id: i64,
    pub source_type: Seq<char>,
    pub transform: Option<TransformData>,
    pub image_data: Option<ImageDataView>,
    pub filters: Seq<FilterDataView>,
}

impl View for SceneItemData {
    type V = SceneItemDataView;

    open spec fn view(&self) -> SceneItemDataView {
        SceneItemDataView {
            source_name: self.source_name@,
            scene_item_id: self.scene_item_id,
            source_type: self.source_type@,
            transform: self.transform,
            image_data: match self.image_data {
                Some(ref d) => Some(d@),
                None => None,
            },
            filters: views_of(self.filters@),
        }
    }
}

/// One scene inside a snapshot.
#[derive(Clone, Debug, PartialEq)]
pub struct SceneData {
    pub name: String,
    pub items: Vec<SceneItemData>,
}

pub struct SceneDataView {
    pub name: Seq<char>,
    pub items: Seq<SceneItemDataView>,
}

impl View for SceneData {
    type V = SceneDataView;

    open spec fn view(&self) -> SceneDataView {
        SceneDataView {
            name: self.name@,
            items: views_of(self.items@),
        }
    }
}

/// Payload of a `StateSync` envelope: a full snapshot of the master's state.
#[derive(Clone, Debug, PartialEq)]
pub struct StateSyncPayload {
    pub current_program_scene: String,
    pub current_preview_scene: Option<String>,
    pub scenes: Vec<SceneData>,
}

pub struct StateSyncView {
    pub current_program_scene: Seq<char>,
    pub current_preview_scene: Option<Seq<char>>,
    pub scenes: Seq<SceneDataView>,
}

impl View for StateSyncPayload {
    type V = StateSyncView;

    open spec fn view(&self) -> StateSyncView {
        StateSyncView {
            current_program_scene: self.current_program_scene@,
            current_preview_scene: match self.current_preview_scene {
                Some(ref p) => Some(p@),
                None => None,
            },
            scenes: views_of(self.scenes@),
        }
    }
}

/// How far a slave's local state diverges from its projection in one respect.
#[derive(Clone, Copy, Debug, PartialEq, Eq, Structural)]
pub enum DiffCategory {
    SceneMismatch,
    SourceMissing,
    TransformMismatch,
    SettingsMismatch,
}

/// How severe a detected difference is.
#[derive(Clone, Copy, Debug, PartialEq, Eq, Structural)]
pub enum DiffSeverity {
    Critical,
    Warning,
    Info,
}

/// One detected divergence between a slave's local state and its projection.
#[derive(Clone, Debug, PartialEq)]
pub struct StateDifference {
    pub category: DiffCategory,
    pub scene_name: String,
    pub source_name: String,
    pub description: String,
    pub severity: DiffSeverity,
}

pub struct StateDifferenceView {
    pub category: DiffCategory,
    pub scene_name: Seq<char>,
    pub source_name: Seq<char>,
    pub description: Seq<char>,
    pub severity: DiffSeverity,
}

impl View for StateDifference {
    type V = StateDifferenceView;

    open spec fn view(&self) -> StateDifferenceView {
        StateDifferenceView {
            category: self.category,
            scene_name: self.scene_name@,
            source_name: self.source_name@,
            description: self.description@,
            severity: self.severity,
        }
    }
}

/// A source in the slave's sampled local state, with its transform when the
/// sample could read it.
#[derive(Clone, Debug, PartialEq)]
pub struct LocalSourceState {
    pub name: String,
    pub transform: Option<TransformData>,
}

pub struct LocalSourceStateView {
    pub name: Seq<char>,
    pub transform: Option<TransformData>,
}

impl View for LocalSourceState {
    type V = LocalSourceStateView;

    open spec fn view(&self) -> LocalSourceStateView {
        LocalSourceStateView { name: self.name@, transform: self.transform }
    }
}

/// The slave's sampled local state: the current program scene and the sources
/// in it.
#[derive(Clone, Debug, PartialEq)]
pub struct LocalStatePayload {
    pub current_scene: String,
    pub sources: Vec<LocalSourceState>,
}

pub struct LocalStateView {
    pub current_scene: Seq<char>,
    pub sources: Seq<LocalSourceStateView>,
}

impl View for LocalStatePayload {
    type V = LocalStateView;

    open spec fn view(&self) -> LocalStateView {
        LocalStateView {
            current_scene: self.current_scene@,
            sources: views_of(self.sources@),
        }
    }
}

/// Payload of a `StateReport` envelope: what a slave sends upstream after a
/// drift-detector tick.
#[derive(Clone, Debug, PartialEq)]
pub struct StateReportPayload {
    pub is_synced: bool,
    pub desync_details: Vec<StateDifference>,
    pub current_state: LocalStatePayload,
}

pub struct StateReportView {
    pub is_synced: bool,
    pub desync_details: Seq<StateDifferenceView>,
    pub current_state: LocalStateView,
}

impl View for StateReportPayload {
    type V = StateReportView;

    open spec fn view(&self) -> StateReportView {
        StateReportView {
            is_synced: self.is_synced,
            desync_details: views_of(self.desync_details@),
            current_state: self.current_state@,
        }
    }
}

/// The payload of an envelope, shaped by the envelope's message type.
/// `Heartbeat`, `StateSyncRequest` and unknown-typed envelopes carry `Empty`.
#[derive(Clone, Debug, PartialEq)]
pub enum Payload {
    SceneChange(SceneChangePayload),
    TransformUpdate(TransformUpdatePayload),
    ImageUpdate(ImageUpdatePayload),
    FilterUpdate(FilterUpdatePayload),
    SourceUpdate(SourceUpdatePayload),
    StateSync(StateSyncPayload),
    StateReport(StateReportPayload),
    Empty,
}

pub enum PayloadView {
    SceneChange(SceneChangeView),
    TransformUpdate(TransformUpdateView),
    ImageUpdate(ImageUpdateView),
    FilterUpdate(FilterUpdateView),
    SourceUpdate(SourceUpdateView),
    StateSync(StateSyncView),
    StateReport(StateReportView),
    Empty,
}

impl View for Payload {
    type V = PayloadView;

    open spec fn view(&self) -> PayloadView {
        match self {
            Payload::SceneChange(p) => PayloadView::SceneChange(p@),
            Payload::TransformUpdate(p) => PayloadView::TransformUpdate(p@),
            Payload::ImageUpdate(p) => PayloadView::ImageUpdate(p@),
            Payload::FilterUpdate(p) => PayloadView::FilterUpdate(p@),
            Payload::SourceUpdate(p) => PayloadView::SourceUpdate(p@),
            Payload::StateSync(p) => PayloadView::StateSync(p@),
            Payload::StateReport(p) => PayloadView::StateReport(p@),
            Payload::Empty => PayloadView::Empty,
        }
    }
}

/// A protocol envelope.
#[derive(Clone, Debug, PartialEq)]
pub struct SyncMessage {
    pub message_type: SyncMessageType,
    pub timestamp: i64,
    pub target_type: SyncTargetType,
    pub payload: Payload,
}

pub struct SyncMessageView {
    pub message_type: SyncMessageType,
    pub timestamp: i64,
    pub target_type: SyncTargetType,
    pub payload: PayloadView,
}

impl View for SyncMessage {
    type V = SyncMessageView;

    open spec fn view(&self) -> SyncMessageView {
        SyncMessageView {
            message_type: self.message_type,
            timestamp: self.timestamp,
            target_type: self.target_type,
            payload: self.payload@,
        }
    }
}

/// The payload shape each message type carries.
pub open spec fn payload_matches(t: SyncMessageType, p: PayloadView) -> bool {
    match t {
        SyncMessageType::SceneChange => p is SceneChange,
        SyncMessageType::TransformUpdate => p is TransformUpdate,
        SyncMessageType::ImageUpdate => p is ImageUpdate,
        SyncMessageType::FilterUpdate => p is FilterUpdate,
        SyncMessageType::SourceUpdate => p is SourceUpdate,
        SyncMessageType::StateSync => p is StateSync,
        SyncMessageType::StateReport => p is StateReport,
        SyncMessageType::Heartbeat => p is Empty,
        SyncMessageType::StateSyncRequest => p is Empty,
    }
}

impl SyncMessageView {
    /// A well-formed envelope: the payload has the shape its type demands and
    /// the timestamp is non-zero.
    pub open spec fn wf(self) -> bool {
        &&& payload_matches(self.message_type, self.payload)
        &&& self.timestamp > 0
    }
}

/// Relies on `chrono::Utc::now().timestamp_millis()`: the wall clock as
/// milliseconds since the Unix epoch. Nothing is assumed of the value.
#[verifier::external_body]
fn now_millis() -> i64 {
    chrono::Utc::now().timestamp_millis()
}

/// A non-zero stand-in for a clock reading, so that every envelope carries a
/// non-zero timestamp even if the wall clock reports the epoch itself.
fn nonzero_timestamp(t: i64) -> (r: i64)
    ensures
        r == if t <= 0 { 1i64 } else { t },
        r > 0,
{
    if t <= 0 {
        1
    } else {
        t
    }
}

impl SyncMessage {
    /// Builds an envelope of the given type and target around `payload`,
    /// stamped with the wall clock (clamped to be non-zero).
    pub fn new(
        message_type: SyncMessageType,
        target_type: SyncTargetType,
        payload: Payload,
    ) -> (r: SyncMessage)
        requires
            payload_matches(message_type, payload@),
        ensures
            r@.message_type == message_type,
            r@.target_type == target_type,
            r@.payload == payload@,
            r@.wf(),
    {
        let t = now_millis();
        SyncMessage {
            message_type,
            timestamp: nonzero_timestamp(t),
            target_type,
            payload,
        }
    }

    /// The envelope a slave sends to ask the master for a fresh snapshot:
    /// a `StateSyncRequest` with an empty payload, targeted at `Program`.
    pub fn state_sync_request() -> (r: SyncMessage)
        ensures
            r@.message_type == SyncMessageType::StateSyncRequest,
            r@.target_type == SyncTargetType::Program,
            r@.payload is Empty,
            r@.wf(),
    {
        SyncMessage::new(
            SyncMessageType::StateSyncRequest,
            SyncTargetType::Program,
            Payload::Empty,
        )
    }
}

} // verus!
