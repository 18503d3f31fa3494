//! The master sync engine's decision core: which events are replicated under
//! the active targets, what auxiliary data each needs, and the exact
//! envelope built once that data is at hand.
//!
//! The BC-API calls and the event loop live outside the library; they consult
//! [`MasterSync::plan_event`], perform the fetch it asks for, and then call
//! the builder for the message.

use vstd::prelude::*;
use crate::images::b64_encode;
use crate::images::b64_of;
use crate::obs::OBSEvent;
use crate::protocol::FilterUpdatePayload;
use crate::protocol::ImageUpdatePayload;
use crate::protocol::Payload;
use crate::protocol::SceneChangePayload;
use crate::protocol::StateSyncPayload;
use crate::protocol::SyncMessage;
use crate::protocol::SyncMessageType;
use crate::protocol::SyncTargetType;
use crate::protocol::TransformData;
use crate::protocol::TransformUpdatePayload;

verus! {

/// The name text of the `file` entry of an input's settings object, as
/// `serde_json` reads it: present exactly when the parsed settings carry a
/// textual `file` field.
pub uninterp spec fn file_field(settings_text: Seq<char>) -> Option<Seq<char>>;

/// Relies on `serde_json::from_str` and `Value::get`/`Value::as_str`: what
/// the `file` entry of the settings object holds is a function of the
/// settings text alone.
#[verifier::external_body]
fn settings_file_field(settings_text: &str) -> (r: Option<String>)
    ensures
        (r is Some) == (file_field(settings_text@) is Some),
        r matches Some(v) ==> file_field(settings_text@) == Some(v@),
{
    let parsed: serde_json::Value = serde_json::from_str(settings_text).ok()?;
    let file = parsed.get("file")?.as_str()?;
    Some(file.to_string())
}

/// What the event loop must do for one BC-API event.
#[derive(Clone, Debug, PartialEq)]
pub enum EventPlan {
    /// The event's target is inactive, or the event is log-only: no message.
    Drop,
    /// The message needs nothing fetched: enqueue it as it is.
    Emit(SyncMessage),
    /// Fetch the item's transform, then build a transform update.
    FetchTransform { scene_name: String, scene_item_id: i64 },
    /// Fetch the input's settings, then consult
    /// [`MasterSync::plan_input_settings`].
    FetchImage { input_name: String },
    /// Resolve the filter's source and fetch its settings, then build a
    /// filter update.
    FetchFilter { scene_name: String, scene_item_id: i64, filter_name: String },
}

/// The master sync engine's replicated-target set.
pub struct MasterSync {
    pub active_targets: Vec<SyncTargetType>,
}

impl MasterSync {
    /// Whether a target is replicated at the moment.
    pub open spec fn targets_contain(self, t: SyncTargetType) -> bool {
        self.active_targets@.contains(t)
    }

    /// A fresh engine replicating the default targets: the program scene and
    /// the sources.
    pub fn new() -> (r: MasterSync)
        ensures
            r.targets_contain(SyncTargetType::Program),
            r.targets_contain(SyncTargetType::Source),
            !r.targets_contain(SyncTargetType::Preview),
            r.active_targets@.len() == 2,
    {
        let mut targets: Vec<SyncTargetType> = Vec::new();
        targets.push(SyncTargetType::Program);
        targets.push(SyncTargetType::Source);
        let r = MasterSync { active_targets: targets };
        proof {
            assert(r.active_targets@[0] == SyncTargetType::Program);
            assert(r.active_targets@[1] == SyncTargetType::Source);
            assert forall|i: int|
                0 <= i < r.active_targets@.len() implies #[trigger] r.active_targets@[i]
                != SyncTargetType::Preview by {}
        }
        r
    }

    /// Replaces the target set atomically; messages planned after this see
    /// the new set.
    pub fn set_active_targets(&mut self, targets: Vec<SyncTargetType>)
        ensures
            final(self).active_targets@ == targets@,
    {
        self.active_targets = targets;
    }

    fn contains_target(&self, t: SyncTargetType) -> (r: bool)
        ensures
            r == self.targets_contain(t),
    {
        let mut i: usize = 0;
        while i < self.active_targets.len()
            invariant
                0 <= i <= self.active_targets@.len(),
                forall|j: int| 0 <= j < i ==> self.active_targets@[j] != t,
            decreases self.active_targets@.len() - i,
        {
            let here = self.active_targets[i];
            let same = match (here, t) {
                (SyncTargetType::Source, SyncTargetType::Source) => true,
                (SyncTargetType::Preview, SyncTargetType::Preview) => true,
                (SyncTargetType::Program, SyncTargetType::Program) => true,
                _ => false,
            };
            if same {
                proof {
                    assert(self.active_targets@[i as int] == t);
                }
                return true;
            }
            i += 1;
        }
        false
    }

    /// Decides what one BC-API event becomes. A scene change is emitted at
    /// once when its target is active; transform, filter and input-settings
    /// changes first need auxiliary data; source creation and destruction
    /// are log-only; anything whose target is inactive is dropped.
    pub fn plan_event(&self, event: &OBSEvent) -> (r: EventPlan)
        ensures
            event matches OBSEvent::SceneChanged { scene_name } ==> (
            if self.targets_contain(SyncTargetType::Program) {
                r matches EventPlan::Emit(m) && m@.message_type == SyncMessageType::SceneChange
                    && m@.target_type == SyncTargetType::Program && (
                m@.payload matches crate::protocol::PayloadView::SceneChange(p) && p.scene_name
                    == scene_name@) && m@.wf()
            } else {
                r is Drop
            }),
            event matches OBSEvent::CurrentPreviewSceneChanged { scene_name } ==> (
            if self.targets_contain(SyncTargetType::Preview) {
                r matches EventPlan::Emit(m) && m@.message_type == SyncMessageType::SceneChange
                    && m@.target_type == SyncTargetType::Preview && (
                m@.payload matches crate::protocol::PayloadView::SceneChange(p) && p.scene_name
                    == scene_name@) && m@.wf()
            } else {
                r is Drop
            }),
            event matches OBSEvent::SceneItemTransformChanged { scene_name, scene_item_id } ==> (
            if self.targets_contain(SyncTargetType::Source) {
                r matches EventPlan::FetchTransform { scene_name: s, scene_item_id: id } && s@
                    == scene_name@ && id == scene_item_id
            } else {
                r is Drop
            }),
            event matches OBSEvent::SceneItemFilterChanged { scene_name, scene_item_id, filter_name }
                ==> (
            if self.targets_contain(SyncTargetType::Source) {
                r matches EventPlan::FetchFilter { scene_name: s, scene_item_id: id, filter_name: f }
                    && s@ == scene_name@ && id == scene_item_id && f@ == filter_name@
            } else {
                r is Drop
            }),
            event matches OBSEvent::InputSettingsChanged { input_name } ==> (
            if self.targets_contain(SyncTargetType::Source) {
                r matches EventPlan::FetchImage { input_name: n } && n@ == input_name@
            } else {
                r is Drop
            }),
            event is SourceCreated ==> r is Drop,
            event is SourceDestroyed ==> r is Drop,
    {
        match event {
            OBSEvent::SceneChanged { scene_name } => {
                if self.contains_target(SyncTargetType::Program) {
                    EventPlan::Emit(
                        SyncMessage::new(
                            SyncMessageType::SceneChange,
                            SyncTargetType::Program,
                            Payload::SceneChange(
                                SceneChangePayload { scene_name: scene_name.clone() },
                            ),
                        ),
                    )
                } else {
                    EventPlan::Drop
                }
            },
            OBSEvent::CurrentPreviewSceneChanged { scene_name } => {
                if self.contains_target(SyncTargetType::Preview) {
                    EventPlan::Emit(
                        SyncMessage::new(
                            SyncMessageType::SceneChange,
                            SyncTargetType::Preview,
                            Payload::SceneChange(
                                SceneChangePayload { scene_name: scene_name.clone() },
                            ),
                        ),
                    )
                } else {
                    EventPlan::Drop
                }
            },
            OBSEvent::SceneItemTransformChanged { scene_name, scene_item_id } => {
                if self.contains_target(SyncTargetType::Source) {
                    EventPlan::FetchTransform {
                        scene_name: scene_name.clone(),
                        scene_item_id: *scene_item_id,
                    }
                } else {
                    EventPlan::Drop
                }
            },
            OBSEvent::SceneItemFilterChanged { scene_name, scene_item_id, filter_name } => {
                if self.contains_target(SyncTargetType::Source) {
                    EventPlan::FetchFilter {
                        scene_name: scene_name.clone(),
                        scene_item_id: *scene_item_id,
                        filter_name: filter_name.clone(),
                    }
                } else {
                    EventPlan::Drop
                }
            },
            OBSEvent::InputSettingsChanged { input_name } => {
                if self.contains_target(SyncTargetType::Source) {
                    EventPlan::FetchImage { input_name: input_name.clone() }
                } else {
                    EventPlan::Drop
                }
            },
            OBSEvent::SourceCreated { .. } => EventPlan::Drop,
            OBSEvent::SourceDestroyed { .. } => EventPlan::Drop,
        }
    }

    /// Decides whether an input-settings change becomes an image update: only
    /// when the fetched settings carry a non-empty `file` entry is there a
    /// file to read and replicate; otherwise no message is produced.
    pub fn plan_input_settings(&self, settings_text: &str) -> (r: Option<String>)
        ensures
            file_field(settings_text@) is None ==> r is None,
            file_field(settings_text@) matches Some(f) ==> (if f.len() == 0 {
                r is None
            } else {
                r matches Some(p) && p@ == f
            }),
    {
        match settings_file_field(settings_text) {
            Some(path) => {
                if path.as_str().unicode_len() == 0 {
                    None
                } else {
                    Some(path)
                }
            },
            None => None,
        }
    }
}

/// Builds the transform update for one fetched transform.
pub fn transform_update_message(
    scene_name: String,
    scene_item_id: i64,
    transform: TransformData,
) -> (r: SyncMessage)
    ensures
        r@.message_type == SyncMessageType::TransformUpdate,
        r@.target_type == SyncTargetType::Source,
        (r@.payload matches crate::protocol::PayloadView::TransformUpdate(p) && p.scene_name
            == scene_name@ && p.scene_item_id == scene_item_id && p.transform == transform),
        r@.wf(),
{
    SyncMessage::new(
        SyncMessageType::TransformUpdate,
        SyncTargetType::Source,
        Payload::TransformUpdate(
            TransformUpdatePayload { scene_name, scene_item_id, transform },
        ),
    )
}

/// Builds the image update for one input: the file the input points at, and
/// the base64 text of the file's bytes when the master could read them. The
/// scene name is left empty, as an image belongs to the input itself.
pub fn image_update_message(source_name: String, file: String, data: Option<Vec<u8>>) -> (r:
    SyncMessage)
    ensures
        r@.message_type == SyncMessageType::ImageUpdate,
        r@.target_type == SyncTargetType::Source,
        (r@.payload matches crate::protocol::PayloadView::ImageUpdate(p) && p.source_name
            == source_name@ && p.file == file@ && p.scene_name.len() == 0 && p.image_data == (
        match data {
            Some(b) => Some(b64_of(b@)),
            None => None,
        })),
        r@.wf(),
{
    let image_data = match data {
        Some(bytes) => Some(b64_encode(&bytes)),
        None => None,
    };
    SyncMessage::new(
        SyncMessageType::ImageUpdate,
        SyncTargetType::Source,
        Payload::ImageUpdate(
            ImageUpdatePayload { scene_name: String::new(), source_name, file, image_data },
        ),
    )
}

/// Builds the filter update for one resolved filter.
pub fn filter_update_message(
    scene_name: String,
    scene_item_id: i64,
    source_name: String,
    filter_name: String,
    filter_settings: String,
) -> (r: SyncMessage)
    ensures
        r@.message_type == SyncMessageType::FilterUpdate,
        r@.target_type == SyncTargetType::Source,
        (r@.payload matches crate::protocol::PayloadView::FilterUpdate(p) && p.scene_name
            == scene_name@ && p.scene_item_id == scene_item_id && p.source_name == source_name@
            && p.filter_name == filter_name@ && p.filter_settings == filter_settings@),
        r@.wf(),
{
    SyncMessage::new(
        SyncMessageType::FilterUpdate,
        SyncTargetType::Source,
        Payload::FilterUpdate(
            FilterUpdatePayload {
                scene_name,
                scene_item_id,
                source_name,
                filter_name,
                filter_settings,
            },
        ),
    )
}

/// Wraps an assembled snapshot in the one `StateSync` envelope that
/// `send_initial_state` enqueues.
pub fn state_sync_message(snapshot: StateSyncPayload) -> (r: SyncMessage)
    ensures
        r@.message_type == SyncMessageType::StateSync,
        r@.target_type == SyncTargetType::Program,
        (r@.payload matches crate::protocol::PayloadView::StateSync(p) && p == snapshot@),
        r@.wf(),
{
    SyncMessage::new(
        SyncMessageType::StateSync,
        SyncTargetType::Program,
        Payload::StateSync(snapshot),
    )
}

} // verus!
