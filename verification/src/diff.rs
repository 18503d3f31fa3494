//! The drift detector: compares a slave's sampled local state against its
//! expected-state projection and reports each divergence.
//!
//! Transform scalars are thousandths of a unit, so the tolerances are exact
//! integers: positions may drift by up to half a unit (500 thousandths) and
//! scales by up to a hundredth (10 thousandths) before a mismatch is flagged.

use vstd::prelude::*;
use crate::protocol::DiffCategory;
use crate::protocol::DiffSeverity;
use crate::protocol::LocalSourceState;
use crate::protocol::LocalSourceStateView;
use crate::protocol::LocalStatePayload;
use crate::protocol::LocalStateView;
use crate::protocol::StateDifference;
use crate::protocol::StateDifferenceView;
use crate::protocol::TransformData;
use crate::protocol::views_of;
use crate::wire::enc_i64;
use crate::wire::push_i64;
use crate::wire::str_eq;

verus! {

/// How far a position may drift, in thousandths of a unit, before the
/// detector flags it.
pub const POSITION_TOLERANCE: i64 = 500;

/// How far a scale may drift, in thousandths, before the detector flags it.
pub const SCALE_TOLERANCE: i64 = 10;

/// The slave's best guess of what the master last said was true. The scene
/// name is empty until a snapshot or scene change arrives; the source list is
/// absent until something fills it.
#[derive(Clone, Debug, PartialEq)]
pub struct ExpectedState {
    pub current_scene: String,
    pub sources: Option<Vec<LocalSourceState>>,
}

pub struct ExpectedStateView {
    pub current_scene: Seq<char>,
    pub sources: Option<Seq<LocalSourceStateView>>,
}

impl View for ExpectedState {
    type V = ExpectedStateView;

    open spec fn view(&self) -> ExpectedStateView {
        ExpectedStateView {
            current_scene: self.current_scene@,
            sources: match self.sources {
                Some(ref ss) => Some(views_of(ss@)),
                None => None,
            },
        }
    }
}

impl ExpectedState {
    /// A projection holding nothing yet.
    pub fn new() -> (r: ExpectedState)
        ensures
            r@.current_scene.len() == 0,
            r@.sources is None,
    {
        ExpectedState { current_scene: String::new(), sources: None }
    }

    /// Nothing is known yet: no scene has been announced by the master.
    pub open spec fn is_empty_spec(self) -> bool {
        self@.current_scene.len() == 0
    }

    pub fn is_empty(&self) -> (r: bool)
        ensures
            r == self.is_empty_spec(),
    {
        self.current_scene.unicode_len() == 0
    }
}

/// A position scalar, with the absent value reading as zero.
pub open spec fn pos_val(o: Option<i64>) -> int {
    match o {
        Some(v) => v as int,
        None => 0,
    }
}

/// A scale scalar, with the absent value reading as one unit (a thousand
/// thousandths).
pub open spec fn scale_val(o: Option<i64>) -> int {
    match o {
        Some(v) => v as int,
        None => 1000,
    }
}

/// The positions of two transforms differ beyond tolerance.
pub open spec fn position_mismatch(local: TransformData, expected: TransformData) -> bool {
    ||| pos_val(local.position_x) - pos_val(expected.position_x) > POSITION_TOLERANCE
    ||| pos_val(expected.position_x) - pos_val(local.position_x) > POSITION_TOLERANCE
    ||| pos_val(local.position_y) - pos_val(expected.position_y) > POSITION_TOLERANCE
    ||| pos_val(expected.position_y) - pos_val(local.position_y) > POSITION_TOLERANCE
}

/// The scales of two transforms differ beyond tolerance.
pub open spec fn scale_mismatch(local: TransformData, expected: TransformData) -> bool {
    ||| scale_val(local.scale_x) - scale_val(expected.scale_x) > SCALE_TOLERANCE
    ||| scale_val(expected.scale_x) - scale_val(local.scale_x) > SCALE_TOLERANCE
    ||| scale_val(local.scale_y) - scale_val(expected.scale_y) > SCALE_TOLERANCE
    ||| scale_val(expected.scale_y) - scale_val(local.scale_y) > SCALE_TOLERANCE
}

/// The scene-mismatch description: the exact human-readable sentence the
/// report carries.
pub open spec fn scene_mismatch_text(local: Seq<char>, expected: Seq<char>) -> Seq<char> {
    ("Current scene mismatch: local='")@ + local + ("', expected='")@ + expected + ("'")@
}

/// The missing-source description.
pub open spec fn source_missing_text(name: Seq<char>) -> Seq<char> {
    ("Source '")@ + name + ("' is missing")@
}

/// The position-mismatch description, over thousandth-unit scalars.
pub open spec fn position_mismatch_text(local: TransformData, expected: TransformData) -> Seq<
    char,
> {
    ("Position mismatch: local=(")@ + enc_i64(pos_or_zero(local.position_x)) + (", ")@ + enc_i64(
        pos_or_zero(local.position_y),
    ) + ("), expected=(")@ + enc_i64(pos_or_zero(expected.position_x)) + (", ")@ + enc_i64(
        pos_or_zero(expected.position_y),
    ) + (")")@
}

/// The scale-mismatch description, over thousandth-unit scalars.
pub open spec fn scale_mismatch_text(local: TransformData, expected: TransformData) -> Seq<char> {
    ("Scale mismatch: local=(")@ + enc_i64(scale_or_unit(local.scale_x)) + (", ")@ + enc_i64(
        scale_or_unit(local.scale_y),
    ) + ("), expected=(")@ + enc_i64(scale_or_unit(expected.scale_x)) + (", ")@ + enc_i64(
        scale_or_unit(expected.scale_y),
    ) + (")")@
}

pub open spec fn pos_or_zero(o: Option<i64>) -> i64 {
    match o {
        Some(v) => v,
        None => 0,
    }
}

pub open spec fn scale_or_unit(o: Option<i64>) -> i64 {
    match o {
        Some(v) => v,
        None => 1000,
    }
}

/// The differences that comparing one pair of transforms yields: a position
/// entry when positions drift beyond tolerance, then a scale entry likewise.
pub open spec fn spec_compare_transforms(
    local: Option<TransformData>,
    expected: Option<TransformData>,
    scene: Seq<char>,
    source: Seq<char>,
) -> Seq<StateDifferenceView> {
    match (local, expected) {
        (Some(lt), Some(et)) => {
            let pos: Seq<StateDifferenceView> = if position_mismatch(lt, et) {
                seq![
                    StateDifferenceView {
                        category: DiffCategory::TransformMismatch,
                        scene_name: scene,
                        source_name: source,
                        description: position_mismatch_text(lt, et),
                        severity: DiffSeverity::Warning,
                    },
                ]
            } else {
                Seq::empty()
            };
            let sc: Seq<StateDifferenceView> = if scale_mismatch(lt, et) {
                seq![
                    StateDifferenceView {
                        category: DiffCategory::TransformMismatch,
                        scene_name: scene,
                        source_name: source,
                        description: scale_mismatch_text(lt, et),
                        severity: DiffSeverity::Warning,
                    },
                ]
            } else {
                Seq::empty()
            };
            pos + sc
        },
        _ => Seq::empty(),
    }
}

/// The first local source of the given name, if any.
pub open spec fn find_source(
    sources: Seq<LocalSourceStateView>,
    name: Seq<char>,
) -> Option<LocalSourceStateView>
    decreases sources.len(),
{
    if sources.len() == 0 {
        None
    } else if sources[0].name == name {
        Some(sources[0])
    } else {
        find_source(sources.drop_first(), name)
    }
}

/// The differences contributed by the expected sources, in order: a
/// missing-source entry for each name absent locally, and the transform
/// comparison for each name present.
pub open spec fn spec_source_diffs(
    local_sources: Seq<LocalSourceStateView>,
    expected_sources: Seq<LocalSourceStateView>,
    local_scene: Seq<char>,
) -> Seq<StateDifferenceView>
    decreases expected_sources.len(),
{
    if expected_sources.len() == 0 {
        Seq::empty()
    } else {
        let head = expected_sources[0];
        let here: Seq<StateDifferenceView> = match find_source(local_sources, head.name) {
            None => seq![
                StateDifferenceView {
                    category: DiffCategory::SourceMissing,
                    scene_name: local_scene,
                    source_name: head.name,
                    description: source_missing_text(head.name),
                    severity: DiffSeverity::Warning,
                },
            ],
            Some(ls) => spec_compare_transforms(ls.transform, head.transform, local_scene, head.name),
        };
        here + spec_source_diffs(local_sources, expected_sources.drop_first(), local_scene)
    }
}

/// Everything the detector reports for one sample: the scene mismatch first
/// (when the projection names a scene and the local one differs), then the
/// per-source differences (only when the projection carries sources).
pub open spec fn spec_detect(local: LocalStateView, expected: ExpectedStateView) -> Seq<
    StateDifferenceView,
> {
    let scene_part: Seq<StateDifferenceView> = if expected.current_scene.len() > 0
        && local.current_scene != expected.current_scene {
        seq![
            StateDifferenceView {
                category: DiffCategory::SceneMismatch,
                scene_name: expected.current_scene,
                source_name: Seq::empty(),
                description: scene_mismatch_text(local.current_scene, expected.current_scene),
                severity: DiffSeverity::Critical,
            },
        ]
    } else {
        Seq::empty()
    };
    let source_part: Seq<StateDifferenceView> = match expected.sources {
        None => Seq::empty(),
        Some(ss) => spec_source_diffs(local.sources, ss, local.current_scene),
    };
    scene_part + source_part
}

/// The drift detector.
pub struct DiffDetector;

fn append_i64(out: &mut String, n: i64)
    ensures
        final(out)@ == old(out)@ + enc_i64(n),
{
    push_i64(out, n);
}

/// Builds the scene-mismatch sentence.
fn build_scene_mismatch_text(local: &str, expected: &str) -> (r: String)
    ensures
        r@ == scene_mismatch_text(local@, expected@),
{
    let mut out = String::from_str("Current scene mismatch: local='");
    out.append(local);
    out.append("', expected='");
    out.append(expected);
    out.append("'");
    out
}

/// Builds the missing-source sentence.
fn build_source_missing_text(name: &str) -> (r: String)
    ensures
        r@ == source_missing_text(name@),
{
    let mut out = String::from_str("Source '");
    out.append(name);
    out.append("' is missing");
    out
}

fn pos_or_zero_exec(o: &Option<i64>) -> (r: i64)
    ensures
        r == pos_or_zero(*o),
{
    match o {
        Some(v) => *v,
        None => 0,
    }
}

fn scale_or_unit_exec(o: &Option<i64>) -> (r: i64)
    ensures
        r == scale_or_unit(*o),
{
    match o {
        Some(v) => *v,
        None => 1000,
    }
}

fn build_position_mismatch_text(local: &TransformData, expected: &TransformData) -> (r: String)
    ensures
        r@ == position_mismatch_text(*local, *expected),
{
    let mut out = String::from_str("Position mismatch: local=(");
    append_i64(&mut out, pos_or_zero_exec(&local.position_x));
    out.append(", ");
    append_i64(&mut out, pos_or_zero_exec(&local.position_y));
    out.append("), expected=(");
    append_i64(&mut out, pos_or_zero_exec(&expected.position_x));
    out.append(", ");
    append_i64(&mut out, pos_or_zero_exec(&expected.position_y));
    out.append(")");
    out
}

fn build_scale_mismatch_text(local: &TransformData, expected: &TransformData) -> (r: String)
    ensures
        r@ == scale_mismatch_text(*local, *expected),
{
    let mut out = String::from_str("Scale mismatch: local=(");
    append_i64(&mut out, scale_or_unit_exec(&local.scale_x));
    out.append(", ");
    append_i64(&mut out, scale_or_unit_exec(&local.scale_y));
    out.append("), expected=(");
    append_i64(&mut out, scale_or_unit_exec(&expected.scale_x));
    out.append(", ");
    append_i64(&mut out, scale_or_unit_exec(&expected.scale_y));
    out.append(")");
    out
}

fn out_of_tolerance(a: i64, b: i64, tolerance: i64) -> (r: bool)
    requires
        tolerance >= 0,
    ensures
        r == (a - b > tolerance || b - a > tolerance),
{
    if a >= b {
        let d = a as i128 - b as i128;
        d > tolerance as i128
    } else {
        let d = b as i128 - a as i128;
        d > tolerance as i128
    }
}

impl DiffDetector {
    /// Compares one pair of transforms; `None` means no difference to
    /// report, `Some` carries the position and scale entries found.
    pub fn compare_transforms(
        local_transform: &Option<TransformData>,
        expected_transform: &Option<TransformData>,
        scene_name: &str,
        source_name: &str,
    ) -> (r: Option<Vec<StateDifference>>)
        ensures
            match r {
                Some(v) => views_of(v@) == spec_compare_transforms(
                    *local_transform,
                    *expected_transform,
                    scene_name@,
                    source_name@,
                ) && v@.len() > 0,
                None => spec_compare_transforms(
                    *local_transform,
                    *expected_transform,
                    scene_name@,
                    source_name@,
                ).len() == 0,
            },
    {
        let (lt, et) = match (local_transform, expected_transform) {
            (Some(lt), Some(et)) => (lt, et),
            _ => {
                return None;
            },
        };
        let mut diffs: Vec<StateDifference> = Vec::new();
        let pos_bad = out_of_tolerance(
            pos_or_zero_exec(&lt.position_x),
            pos_or_zero_exec(&et.position_x),
            POSITION_TOLERANCE,
        ) || out_of_tolerance(
            pos_or_zero_exec(&lt.position_y),
            pos_or_zero_exec(&et.position_y),
            POSITION_TOLERANCE,
        );
        if pos_bad {
            diffs.push(
                StateDifference {
                    category: DiffCategory::TransformMismatch,
                    scene_name: String::from_str(scene_name),
                    source_name: String::from_str(source_name),
                    description: build_position_mismatch_text(lt, et),
                    severity: DiffSeverity::Warning,
                },
            );
        }
        let scale_bad = out_of_tolerance(
            scale_or_unit_exec(&lt.scale_x),
            scale_or_unit_exec(&et.scale_x),
            SCALE_TOLERANCE,
        ) || out_of_tolerance(
            scale_or_unit_exec(&lt.scale_y),
            scale_or_unit_exec(&et.scale_y),
            SCALE_TOLERANCE,
        );
        if scale_bad {
            diffs.push(
                StateDifference {
                    category: DiffCategory::TransformMismatch,
                    scene_name: String::from_str(scene_name),
                    source_name: String::from_str(source_name),
                    description: build_scale_mismatch_text(lt, et),
                    severity: DiffSeverity::Warning,
                },
            );
        }
        proof {
            assert(views_of(diffs@) =~= spec_compare_transforms(
                *local_transform,
                *expected_transform,
                scene_name@,
                source_name@,
            ));
        }
        if diffs.len() == 0 {
            None
        } else {
            Some(diffs)
        }
    }

    /// Samples-to-projection comparison: every difference the detector sees,
    /// in report order.
    pub fn detect_differences(
        local_state: &LocalStatePayload,
        expected_state: &ExpectedState,
    ) -> (r: Vec<StateDifference>)
        ensures
            views_of(r@) == spec_detect(local_state@, expected_state@),
    {
        let mut diffs: Vec<StateDifference> = Vec::new();
        let expected_scene_empty = expected_state.current_scene.unicode_len() == 0;
        if !expected_scene_empty && !str_eq(
            local_state.current_scene.as_str(),
            expected_state.current_scene.as_str(),
        ) {
            diffs.push(
                StateDifference {
                    category: DiffCategory::SceneMismatch,
                    scene_name: expected_state.current_scene.clone(),
                    source_name: String::new(),
                    description: build_scene_mismatch_text(
                        local_state.current_scene.as_str(),
                        expected_state.current_scene.as_str(),
                    ),
                    severity: DiffSeverity::Critical,
                },
            );
        }
        let ghost scene_part = views_of(diffs@);
        proof {
            assert(scene_part =~= spec_detect(local_state@, expected_state@).take(
                scene_part.len() as int,
            ));
        }
        match &expected_state.sources {
            None => {
                proof {
                    assert(views_of(diffs@) =~= spec_detect(local_state@, expected_state@));
                }
            },
            Some(expected_sources) => {
                let ghost evs = views_of(expected_sources@);
                let mut i: usize = 0;
                while i < expected_sources.len()
                    invariant
                        0 <= i <= expected_sources@.len(),
                        evs == views_of(expected_sources@),
                        expected_state@.sources == Some(evs),
                        scene_part == spec_detect(local_state@, expected_state@).take(
                            scene_part.len() as int,
                        ),
                        spec_detect(local_state@, expected_state@) == scene_part
                            + spec_source_diffs(
                            local_state@.sources,
                            evs,
                            local_state@.current_scene,
                        ),
                        views_of(diffs@) =~= scene_part + spec_source_diffs(
                            local_state@.sources,
                            evs.take(i as int),
                            local_state@.current_scene,
                        ),
                    decreases expected_sources@.len() - i,
                {
                    let ghost pre = views_of(diffs@);
                    let name = &expected_sources[i].name;
                    let found = find_source_exec(&local_state.sources, name.as_str());
                    match found {
                        None => {
                            diffs.push(
                                StateDifference {
                                    category: DiffCategory::SourceMissing,
                                    scene_name: local_state.current_scene.clone(),
                                    source_name: name.clone(),
                                    description: build_source_missing_text(name.as_str()),
                                    severity: DiffSeverity::Warning,
                                },
                            );
                        },
                        Some(ls) => {
                            let lt = ls.transform;
                            match DiffDetector::compare_transforms(
                                &lt,
                                &expected_sources[i].transform,
                                local_state.current_scene.as_str(),
                                name.as_str(),
                            ) {
                                Some(mut more) => {
                                    diffs.append(&mut more);
                                },
                                None => {},
                            }
                        },
                    }
                    proof {
                        lemma_source_diffs_snoc(
                            local_state@.sources,
                            evs.take(i as int),
                            evs[i as int],
                            local_state@.current_scene,
                        );
                        assert(evs.take(i + 1) =~= evs.take(i as int).push(evs[i as int]));
                        assert(views_of(diffs@) =~= pre + source_entry(
                            local_state@.sources,
                            evs[i as int],
                            local_state@.current_scene,
                        ));
                        assert(views_of(diffs@) =~= scene_part + spec_source_diffs(
                            local_state@.sources,
                            evs.take(i + 1),
                            local_state@.current_scene,
                        ));
                    }
                    i += 1;
                }
                proof {
                    assert(evs.take(evs.len() as int) =~= evs);
                    assert(views_of(diffs@) =~= spec_detect(local_state@, expected_state@));
                }
            },
        }
        diffs
    }

    /// A report is in sync exactly when no difference was found.
    pub fn is_synced(diffs: &Vec<StateDifference>) -> (r: bool)
        ensures
            r == (diffs@.len() == 0),
    {
        diffs.len() == 0
    }

    /// Whether any difference is critical (the scene itself diverges).
    pub fn has_critical_diffs(diffs: &Vec<StateDifference>) -> (r: bool)
        ensures
            r == exists|i: int|
                0 <= i < diffs@.len() && (#[trigger] diffs@[i])@.severity is Critical,
    {
        let mut i: usize = 0;
        while i < diffs.len()
            invariant
                0 <= i <= diffs@.len(),
                forall|j: int| 0 <= j < i ==> !((#[trigger] diffs@[j])@.severity is Critical),
            decreases diffs@.len() - i,
        {
            let is_critical = match diffs[i].severity {
                DiffSeverity::Critical => true,
                _ => false,
            };
            if is_critical {
                return true;
            }
            i += 1;
        }
        false
    }
}

/// Walking one more expected source appends exactly that source's entries.
proof fn lemma_source_diffs_snoc(
    local_sources: Seq<LocalSourceStateView>,
    xs: Seq<LocalSourceStateView>,
    x: LocalSourceStateView,
    local_scene: Seq<char>,
)
    ensures
        spec_source_diffs(local_sources, xs.push(x), local_scene) == spec_source_diffs(
            local_sources,
            xs,
            local_scene,
        ) + source_entry(local_sources, x, local_scene),
    decreases xs.len(),
{
    if xs.len() == 0 {
        assert(xs.push(x)[0] == x);
        assert(xs.push(x).drop_first() =~= Seq::<LocalSourceStateView>::empty());
        let tail = spec_source_diffs(
            local_sources,
            Seq::<LocalSourceStateView>::empty(),
            local_scene,
        );
        assert(tail =~= Seq::<StateDifferenceView>::empty());
        assert(spec_source_diffs(local_sources, xs.push(x), local_scene) == source_entry(
            local_sources,
            x,
            local_scene,
        ) + tail);
        assert(spec_source_diffs(local_sources, xs.push(x), local_scene) =~= source_entry(
            local_sources,
            x,
            local_scene,
        ));
        assert(spec_source_diffs(local_sources, xs, local_scene) + source_entry(
            local_sources,
            x,
            local_scene,
        ) =~= source_entry(local_sources, x, local_scene));
    } else {
        assert(xs.push(x)[0] == xs[0]);
        assert(xs.push(x).drop_first() =~= xs.drop_first().push(x));
        lemma_source_diffs_snoc(local_sources, xs.drop_first(), x, local_scene);
        assert(spec_source_diffs(local_sources, xs.push(x), local_scene) == source_entry(
            local_sources,
            xs[0],
            local_scene,
        ) + spec_source_diffs(local_sources, xs.drop_first().push(x), local_scene));
        assert(spec_source_diffs(local_sources, xs, local_scene) == source_entry(
            local_sources,
            xs[0],
            local_scene,
        ) + spec_source_diffs(local_sources, xs.drop_first(), local_scene));
        assert(spec_source_diffs(local_sources, xs.push(x), local_scene) =~= spec_source_diffs(
            local_sources,
            xs,
            local_scene,
        ) + source_entry(local_sources, x, local_scene));
    }
}

/// What one expected source contributes.
pub open spec fn source_entry(
    local_sources: Seq<LocalSourceStateView>,
    expected: LocalSourceStateView,
    local_scene: Seq<char>,
) -> Seq<StateDifferenceView> {
    match find_source(local_sources, expected.name) {
        None => seq![
            StateDifferenceView {
                category: DiffCategory::SourceMissing,
                scene_name: local_scene,
                source_name: expected.name,
                description: source_missing_text(expected.name),
                severity: DiffSeverity::Warning,
            },
        ],
        Some(ls) => spec_compare_transforms(ls.transform, expected.transform, local_scene, expected.name),
    }
}

/// Finds the first local source with the given name.
fn find_source_exec<'a>(sources: &'a Vec<LocalSourceState>, name: &str) -> (r: Option<
    &'a LocalSourceState,
>)
    ensures
        match r {
            Some(ls) => find_source(views_of(sources@), name@) == Some(ls@),
            None => find_source(views_of(sources@), name@) is None,
        },
{
    proof {
        assert(views_of(sources@).skip(0) =~= views_of(sources@));
    }
    let mut i: usize = 0;
    while i < sources.len()
        invariant
            0 <= i <= sources@.len(),
            find_source(views_of(sources@), name@) == find_source(
                views_of(sources@).skip(i as int),
                name@,
            ),
        decreases sources@.len() - i,
    {
        if str_eq(sources[i].name.as_str(), name) {
            proof {
                assert(views_of(sources@).skip(i as int)[0] == sources@[i as int]@);
            }
            return Some(&sources[i]);
        }
        proof {
            assert(views_of(sources@).skip(i as int)[0] == sources@[i as int]@);
            assert(views_of(sources@).skip(i as int).drop_first() =~= views_of(sources@).skip(
                i + 1,
            ));
        }
        i += 1;
    }
    proof {
        assert(views_of(sources@).skip(i as int).len() == 0);
    }
    None
}

/// The tolerance law: within the tolerances — positions within half a unit,
/// scales within a hundredth — the detector never flags a transform
/// mismatch, whatever the scene or source names.
pub proof fn lemma_diff_tolerance(
    local: TransformData,
    expected: TransformData,
    scene: Seq<char>,
    source: Seq<char>,
)
    requires
        -POSITION_TOLERANCE <= pos_val(local.position_x) - pos_val(expected.position_x)
            <= POSITION_TOLERANCE,
        -POSITION_TOLERANCE <= pos_val(local.position_y) - pos_val(expected.position_y)
            <= POSITION_TOLERANCE,
        -SCALE_TOLERANCE <= scale_val(local.scale_x) - scale_val(expected.scale_x)
            <= SCALE_TOLERANCE,
        -SCALE_TOLERANCE <= scale_val(local.scale_y) - scale_val(expected.scale_y)
            <= SCALE_TOLERANCE,
    ensures
        spec_compare_transforms(Some(local), Some(expected), scene, source).len() == 0,
{
}

} // verus!
