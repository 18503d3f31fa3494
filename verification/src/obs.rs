//! Plain-value types for the broadcasting-application control API (the
//! BC-API): the events the master reacts to, connection settings and status,
//! and the pure bookkeeping that the shell's source listing uses.

use vstd::prelude::*;
use crate::protocol::views_of;
use crate::wire::str_eq;

verus! {

/// An event from the BC-API's asynchronous stream, reduced to the plain
/// values the sync engine reads.
#[derive(Clone, Debug, PartialEq)]
pub enum OBSEvent {
    SceneChanged { scene_name: String },
    SceneItemTransformChanged { scene_name: String, scene_item_id: i64 },
    SceneItemFilterChanged { scene_name: String, scene_item_id: i64, filter_name: String },
    SourceCreated { source_name: String },
    SourceDestroyed { source_name: String },
    InputSettingsChanged { input_name: String },
    CurrentPreviewSceneChanged { scene_name: String },
}

pub enum OBSEventView {
    SceneChanged { scene_name: Seq<char> },
    SceneItemTransformChanged { scene_name: Seq<char>, scene_item_id: i64 },
    SceneItemFilterChanged { scene_name: Seq<char>, scene_item_id: i64, filter_name: Seq<char> },
    SourceCreated { source_name: Seq<char> },
    SourceDestroyed { source_name: Seq<char> },
    InputSettingsChanged { input_name: Seq<char> },
    CurrentPreviewSceneChanged { scene_name: Seq<char> },
}

impl View for OBSEvent {
    type V = OBSEventView;

    open spec fn view(&self) -> OBSEventView {
        match self {
            OBSEvent::SceneChanged { scene_name } => OBSEventView::SceneChanged {
                scene_name: scene_name@,
            },
            OBSEvent::SceneItemTransformChanged { scene_name, scene_item_id } => {
                OBSEventView::SceneItemTransformChanged {
                    scene_name: scene_name@,
                    scene_item_id: *scene_item_id,
                }
            },
            OBSEvent::SceneItemFilterChanged { scene_name, scene_item_id, filter_name } => {
                OBSEventView::SceneItemFilterChanged {
                    scene_name: scene_name@,
                    scene_item_id: *scene_item_id,
                    filter_name: filter_name@,
                }
            },
            OBSEvent::SourceCreated { source_name } => OBSEventView::SourceCreated {
                source_name: source_name@,
            },
            OBSEvent::SourceDestroyed { source_name } => OBSEventView::SourceDestroyed {
                source_name: source_name@,
            },
            OBSEvent::InputSettingsChanged { input_name } => OBSEventView::InputSettingsChanged {
                input_name: input_name@,
            },
            OBSEvent::CurrentPreviewSceneChanged { scene_name } => {
                OBSEventView::CurrentPreviewSceneChanged { scene_name: scene_name@ }
            },
        }
    }
}

/// How to reach the BC-API.
#[derive(Clone, Debug, PartialEq)]
pub struct OBSConnectionConfig {
    pub host: String,
    pub port: u16,
    pub password: Option<String>,
}

/// What the shell learns about the BC-API connection.
#[derive(Clone, Debug, PartialEq)]
pub struct OBSConnectionStatus {
    pub connected: bool,
    pub obs_version: Option<String>,
    pub obs_websocket_version: Option<String>,
}

/// Builds the status the shell polls: connected with both version strings
/// when a version reply is at hand, else disconnected with neither.
pub fn connection_status_from(version: Option<(String, String)>) -> (r: OBSConnectionStatus)
    ensures
        r.connected == version is Some,
        version matches Some(v) ==> ((r.obs_version matches Some(a) && a@ == v.0@) && (
        r.obs_websocket_version matches Some(b) && b@ == v.1@)),
        version is None ==> r.obs_version is None && r.obs_websocket_version is None,
{
    match version {
        Some((app, ws)) => OBSConnectionStatus {
            connected: true,
            obs_version: Some(app),
            obs_websocket_version: Some(ws),
        },
        None => OBSConnectionStatus {
            connected: false,
            obs_version: None,
            obs_websocket_version: None,
        },
    }
}

/// A source as the shell's listing shows it.
#[derive(Clone, Debug, PartialEq)]
pub struct SourceListing {
    pub source_name: String,
    pub source_kind: String,
}

pub struct SourceListingView {
    pub source_name: Seq<char>,
    pub source_kind: Seq<char>,
}

impl View for SourceListing {
    type V = SourceListingView;

    open spec fn view(&self) -> SourceListingView {
        SourceListingView { source_name: self.source_name@, source_kind: self.source_kind@ }
    }
}

/// Whether some listing in the prefix carries this name.
pub open spec fn listing_has_name(xs: Seq<SourceListingView>, name: Seq<char>) -> bool {
    exists|i: int| 0 <= i < xs.len() && (#[trigger] xs[i]).source_name == name
}

/// Collapses scene-item listings to one entry per source name, keeping the
/// first occurrence's kind and the first-seen order.
pub fn collect_unique_sources(items: &Vec<SourceListing>) -> (r: Vec<SourceListing>)
    ensures
        forall|i: int, j: int|
            0 <= i < j < r@.len() ==> (#[trigger] r@[i])@.source_name != (#[trigger] r@[j])@.source_name,
        forall|i: int|
            0 <= i < items@.len() ==> listing_has_name(
                views_of(r@),
                (#[trigger] items@[i])@.source_name,
            ),
        forall|i: int|
            0 <= i < r@.len() ==> listing_has_name(
                views_of(items@),
                (#[trigger] r@[i])@.source_name,
            ),
{
    let mut out: Vec<SourceListing> = Vec::new();
    let mut i: usize = 0;
    while i < items.len()
        invariant
            0 <= i <= items@.len(),
            forall|a: int, b: int|
                0 <= a < b < out@.len() ==> (#[trigger] out@[a])@.source_name != (
                #[trigger] out@[b])@.source_name,
            forall|a: int|
                0 <= a < i ==> listing_has_name(views_of(out@), (#[trigger] items@[a])@.source_name),
            forall|a: int|
                0 <= a < out@.len() ==> listing_has_name(
                    views_of(items@),
                    (#[trigger] out@[a])@.source_name,
                ),
        decreases items@.len() - i,
    {
        let mut seen = false;
        let mut j: usize = 0;
        while j < out.len()
            invariant
                0 <= j <= out@.len(),
                i < items@.len(),
                seen == exists|b: int|
                    0 <= b < j && (#[trigger] out@[b])@.source_name == items@[i as int]@.source_name,
            decreases out@.len() - j,
        {
            if str_eq(out[j].source_name.as_str(), items[i].source_name.as_str()) {
                seen = true;
            }
            j += 1;
        }
        let ghost pre = out@;
        if !seen {
            let entry = SourceListing {
                source_name: items[i].source_name.clone(),
                source_kind: items[i].source_kind.clone(),
            };
            out.push(entry);
        }
        proof {
            assert(pre.len() <= out@.len());
            assert forall|b: int| 0 <= b < pre.len() implies (#[trigger] out@[b]) == pre[b] by {}
            if !seen {
                assert(out@[pre.len() as int]@.source_name == items@[i as int]@.source_name);
            }
            assert forall|a: int| 0 <= a < i + 1 implies listing_has_name(
                views_of(out@),
                (#[trigger] items@[a])@.source_name,
            ) by {
                if a < i {
                    assert(listing_has_name(views_of(pre), items@[a]@.source_name));
                    let w = choose|b: int|
                        0 <= b < pre.len() && (#[trigger] views_of(pre)[b]).source_name
                            == items@[a]@.source_name;
                    assert(views_of(out@)[w].source_name == items@[a]@.source_name);
                } else {
                    if seen {
                        let w = choose|b: int|
                            0 <= b < pre.len() && (#[trigger] pre[b])@.source_name == items@[
                                i as int]@.source_name;
                        assert(views_of(out@)[w].source_name == items@[i as int]@.source_name);
                    } else {
                        assert(views_of(out@)[pre.len() as int].source_name == items@[
                            i as int]@.source_name);
                    }
                }
            }
            assert forall|a: int| 0 <= a < out@.len() implies listing_has_name(
                views_of(items@),
                (#[trigger] out@[a])@.source_name,
            ) by {
                if a < pre.len() {
                    assert(listing_has_name(views_of(items@), pre[a]@.source_name));
                } else {
                    assert(views_of(items@)[i as int].source_name == items@[i as int]@.source_name);
                }
            }
            assert forall|a: int, b: int| 0 <= a < b < out@.len() implies (
            #[trigger] out@[a])@.source_name != (#[trigger] out@[b])@.source_name by {
                if b == pre.len() {
                    assert(!seen);
                    assert(out@[b]@.source_name == items@[i as int]@.source_name);
                }
            }
        }
        i += 1;
    }
    out
}

} // verus!
