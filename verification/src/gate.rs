//! The capability gate: a scene is looked at before its renderer starts.
//!
//! A scene that needs what this build cannot do is refused before anything is
//! touched; an inspector that cannot answer never stands in the way.

use vstd::prelude::*;

use crate::apply::ApplyError;
use crate::inspect::InspectReport;
use crate::model::RendererKind;
use crate::names::NameMap;
use crate::probe;
use crate::text;
use crate::text::same;

verus! {

/// What an inspection came to.
#[derive(Debug, PartialEq, Eq)]
pub enum Inspection {
    /// The scene was read: these capabilities it requires.
    Inventoried { required: Vec<String> },
    /// The inspector itself refuses the content.
    Incompatible { reason: String },
    /// There is no answer.
    Unavailable { reason: String },
}

/// What an inspector's record says of a scene.
#[derive(Debug, PartialEq, Eq)]
pub struct InspectionRecord {
    pub outcome: String,
    pub reason: String,
    pub required: Vec<String>,
}

/// What a report means for a scene that is to be applied. A record that neither
/// takes an inventory nor refuses the content is no answer.
pub fn read_inspection(report: InspectReport<InspectionRecord>) -> (inspection: Inspection)
    ensures
        match report {
            InspectReport::Record(record) => if record.outcome@ == "inventoried"@ {
                inspection == (Inspection::Inventoried { required: record.required })
            } else if record.outcome@ == "incompatible"@ {
                inspection == (Inspection::Incompatible { reason: record.reason })
            } else {
                inspection == (Inspection::Unavailable { reason: record.reason })
            },
            _ => inspection matches Inspection::Unavailable { reason } && report.named() == Some(
                reason@,
            ),
        },
{
    let reason: String = match report.reason() {
        Some(name) => name.to_owned(),
        None => String::new(),
    };
    match report {
        InspectReport::Record(record) => {
            if same(record.outcome.as_str(), "inventoried") {
                Inspection::Inventoried { required: record.required }
            } else if same(record.outcome.as_str(), "incompatible") {
                Inspection::Incompatible { reason: record.reason }
            } else {
                Inspection::Unavailable { reason: record.reason }
            }
        },
        _ => Inspection::Unavailable { reason },
    }
}

/// What is let through: the limitations that the scene runs with, and
/// why there was no inspection if there was none.
#[derive(Debug, PartialEq, Eq)]
pub struct Passage {
    pub limitations: Vec<String>,
    pub inspection_unavailable: Option<String>,
}

/// Only scenes are inspected.
pub fn needs_inspection(kind: RendererKind) -> (needed: bool)
    ensures
        needed == (kind == RendererKind::Scene),
{
    kind == RendererKind::Scene
}

/// The required capabilities from `from` on that are in one of the two classes:
/// not supported but tolerated (`tolerable`), or neither (`!tolerable`).
pub open spec fn shortfall(
    required: Seq<String>,
    supported: Map<Seq<char>, ()>,
    tolerated: Map<Seq<char>, ()>,
    tolerable: bool,
    from: nat,
) -> Seq<Seq<char>>
    decreases required.len() - from,
{
    if from >= required.len() {
        seq![]
    } else {
        let id = required[from as int]@;
        let later = shortfall(required, supported, tolerated, tolerable, from + 1);
        if !supported.contains_key(id) && tolerated.contains_key(id) == tolerable {
            seq![id] + later
        } else {
            later
        }
    }
}

/// The strings separated by commas.
pub open spec fn comma_separated(parts: Seq<Seq<char>>) -> Seq<char>
    decreases parts.len(),
{
    if parts.len() == 0 {
        seq![]
    } else if parts.len() == 1 {
        parts[0]
    } else {
        comma_separated(parts.drop_last()) + ", "@ + parts.last()
    }
}

fn collect(
    required: &Vec<String>,
    supported: &NameMap<()>,
    tolerated: &NameMap<()>,
    tolerable: bool,
) -> (found: Vec<String>)
    requires
        supported.wf(),
        tolerated.wf(),
    ensures
        text::views(found@) == shortfall(required@, supported@, tolerated@, tolerable, 0),
{
    let mut found: Vec<String> = Vec::new();
    let mut i: usize = 0;
    let ghost all = shortfall(required@, supported@, tolerated@, tolerable, 0);
    assert(text::views(found@) + all =~= all);
    while i < required.len()
        invariant
            supported.wf(),
            tolerated.wf(),
            i <= required@.len(),
            all == shortfall(required@, supported@, tolerated@, tolerable, 0),
            text::views(found@) + shortfall(
                required@,
                supported@,
                tolerated@,
                tolerable,
                i as nat,
            ) == all,
        decreases required.len() - i,
    {
        let id: &str = required[i].as_str();
        let ghost before = found@;
        if !supported.contains(id) && tolerated.contains(id) == tolerable {
            found.push(required[i].clone());
            proof {
                let later = shortfall(
                    required@,
                    supported@,
                    tolerated@,
                    tolerable,
                    (i + 1) as nat,
                );
                assert(text::views(found@) =~= text::views(before) + seq![id@]);
                assert(text::views(before) + (seq![id@] + later) =~= text::views(found@) + later);
            }
        }
        i = i + 1;
    }
    assert(text::views(found@) =~= all);
    found
}

fn join_commas(parts: &Vec<String>) -> (joined: String)
    ensures
        joined@ == comma_separated(text::views(parts@)),
{
    let mut joined = String::new();
    let mut i: usize = 0;
    let ghost all = text::views(parts@);
    while i < parts.len()
        invariant
            i <= parts@.len(),
            all == text::views(parts@),
            joined@ == comma_separated(all.take(i as int)),
        decreases parts.len() - i,
    {
        if i > 0 {
            joined.append(", ");
        }
        joined.append(parts[i].as_str());
        proof {
            let longer = all.take(i + 1);
            assert(longer.drop_last() =~= all.take(i as int));
            assert(longer.last() == parts@[i as int]@);
            assert(joined@ =~= comma_separated(longer));
        }
        i = i + 1;
    }
    assert(all.take(all.len() as int) =~= all);
    joined
}

/// What is refused: missing capabilities, with the list; or content that
/// the inspector refuses, with its reason.
pub open spec fn gate_refusal(
    inspection: Inspection,
    supported: Map<Seq<char>, ()>,
    tolerated: Map<Seq<char>, ()>,
) -> Option<(Seq<char>, Seq<Seq<char>>, Option<Seq<char>>)> {
    match inspection {
        Inspection::Inventoried { required } => {
            let missing = shortfall(required@, supported, tolerated, false, 0);
            if missing.len() > 0 {
                Some(
                    (
                        "scene requires capabilities this build does not implement: "@
                            + comma_separated(missing),
                        missing,
                        None,
                    ),
                )
            } else {
                None
            }
        },
        Inspection::Incompatible { reason } => Some(
            ("the scene inspector refused the content: "@ + reason@, seq![], Some(reason@)),
        ),
        Inspection::Unavailable { reason } => None,
    }
}

/// Decides on a scene whose inspection came to `inspection`.
pub fn scene_capability_gate(
    inspection: Inspection,
    supported: &NameMap<()>,
    tolerated: &NameMap<()>,
) -> (decision: Result<Passage, ApplyError>)
    requires
        supported.wf(),
        tolerated.wf(),
    ensures
        match decision {
            Ok(passage) => {
                &&& gate_refusal(inspection, supported@, tolerated@) is None
                &&& match inspection {
                    Inspection::Inventoried { required } => {
                        &&& text::views(passage.limitations@) == shortfall(
                            required@,
                            supported@,
                            tolerated@,
                            true,
                            0,
                        )
                        &&& passage.inspection_unavailable is None
                    },
                    Inspection::Incompatible { reason } => false,
                    Inspection::Unavailable { reason } => {
                        &&& passage.limitations@.len() == 0
                        &&& probe::option_view(passage.inspection_unavailable) == Some(reason@)
                    },
                }
            },
            Err(error) => gate_refusal(inspection, supported@, tolerated@) matches Some(
                (text, list, reason),
            ) && (error matches ApplyError::CapabilityGate { detail, missing, inspection_reason }
                && detail@ == text && text::views(missing@) == list && probe::option_view(
                inspection_reason,
            ) == reason),
        },
{
    match inspection {
        Inspection::Inventoried { required } => {
            let missing = collect(&required, supported, tolerated, false);
            if missing.len() > 0 {
                let list = join_commas(&missing);
                let mut detail =
                    "scene requires capabilities this build does not implement: ".to_owned();
                detail.append(list.as_str());
                assert(text::views(missing@).len() > 0);
                return Err(
                    ApplyError::CapabilityGate { detail, missing, inspection_reason: None },
                );
            }
            assert(text::views(missing@).len() == 0);
            let limitations = collect(&required, supported, tolerated, true);
            Ok(Passage { limitations, inspection_unavailable: None })
        },
        Inspection::Incompatible { reason } => {
            let mut detail = "the scene inspector refused the content: ".to_owned();
            detail.append(reason.as_str());
            let missing: Vec<String> = Vec::new();
            assert(text::views(missing@) =~= seq![]);
            Err(
                ApplyError::CapabilityGate { detail, missing, inspection_reason: Some(reason) },
            )
        },
        Inspection::Unavailable { reason } => Ok(
            Passage { limitations: Vec::new(), inspection_unavailable: Some(reason) },
        ),
    }
}

/// An inspector that gives no answer never refuses a scene, and a scene passes
/// as soon as everything it requires is supported or tolerated.
pub proof fn law_gate_refuses_only_what_is_missing(
    inspection: Inspection,
    supported: Map<Seq<char>, ()>,
    tolerated: Map<Seq<char>, ()>,
)
    ensures
        inspection is Unavailable ==> gate_refusal(inspection, supported, tolerated) is None,
        inspection matches Inspection::Inventoried { required } ==> ((forall|i: int|
            0 <= i < required@.len() ==> supported.contains_key(#[trigger] required@[i]@)
                || tolerated.contains_key(required@[i]@)) ==> gate_refusal(
            inspection,
            supported,
            tolerated,
        ) is None),
        inspection matches Inspection::Inventoried { required } ==> forall|i: int|
            0 <= i < required@.len() && !supported.contains_key(#[trigger] required@[i]@)
                && !tolerated.contains_key(required@[i]@) ==> gate_refusal(
                inspection,
                supported,
                tolerated,
            ) is Some,
{
    if let Inspection::Inventoried { required } = inspection {
        lemma_shortfall(required@, supported, tolerated, 0);
    }
}

proof fn lemma_shortfall(
    required: Seq<String>,
    supported: Map<Seq<char>, ()>,
    tolerated: Map<Seq<char>, ()>,
    from: nat,
)
    ensures
        (forall|i: int|
            from <= i < required.len() ==> supported.contains_key(#[trigger] required[i]@)
                || tolerated.contains_key(required[i]@)) ==> shortfall(
            required,
            supported,
            tolerated,
            false,
            from,
        ).len() == 0,
        forall|i: int|
            from <= i < required.len() && !supported.contains_key(#[trigger] required[i]@)
                && !tolerated.contains_key(required[i]@) ==> shortfall(
                required,
                supported,
                tolerated,
                false,
                from,
            ).len() > 0,
    decreases required.len() - from,
{
    if from < required.len() {
        lemma_shortfall(required, supported, tolerated, from + 1);
    }
}

} // verus!
