//! What happens before a renderer is started: a request or a playlist entry
//! becomes a plan, or is refused.
//!
//! Nothing is started, stored or switched here, so a refusal leaves everything
//! as it was.

use vstd::prelude::*;

use crate::apply;
use crate::apply::{
    build_apply_spec, catalog_content_path, catalog_item, check_content, content_hash_for,
    content_spec_for, default_apply_fps, default_apply_height, default_apply_width,
    frame_size_for, previous_for, require_kind, target_output, ApplyError, ApplyWallpaperParams,
};
use crate::assignments;
use crate::assignments::{Assignment, PreviousWallpaper};
use crate::gate;
use crate::gate::{needs_inspection, scene_capability_gate, Inspection};
use crate::model::{CatalogItem, RendererKind, ScalingMode, StartSpec, WorkerStatus};
use crate::names::NameMap;
use crate::probe;
use crate::probe::OutputInfo;
use crate::text;
use crate::transaction::ApplyPlan;
use crate::verdict;
use crate::verdict::foreign_renderer_live;

verus! {

/// What a preparation waits for.
#[derive(Debug, Clone, Copy, PartialEq, Eq, Structural)]
pub enum PrepareStage {
    /// The output that a playlist applies to.
    ResolvingOutput,
    /// The preflight of the content that the request names.
    PreflightClient,
    /// The catalog.
    Lookup,
    /// What the content paths resolve to on disk.
    Canonicalizing,
    /// The preflight of the catalog's content.
    PreflightCatalog,
    /// A fresh enumeration of the outputs.
    Enumerating,
    /// The inspection of a scene.
    Inspecting,
    Ready,
    Refused,
}

/// The stages that may follow a stage.
pub open spec fn may_follow(from: PrepareStage, to: PrepareStage) -> bool {
    match from {
        PrepareStage::ResolvingOutput => to == PrepareStage::Lookup || to == PrepareStage::Refused,
        PrepareStage::PreflightClient => to == PrepareStage::Lookup || to == PrepareStage::Refused,
        PrepareStage::Lookup => to == PrepareStage::Canonicalizing || to == PrepareStage::Refused,
        PrepareStage::Canonicalizing => to == PrepareStage::PreflightCatalog || to
            == PrepareStage::Refused,
        PrepareStage::PreflightCatalog => to == PrepareStage::Enumerating || to
            == PrepareStage::Refused,
        PrepareStage::Enumerating => to == PrepareStage::Inspecting || to == PrepareStage::Ready
            || to == PrepareStage::Refused,
        PrepareStage::Inspecting => to == PrepareStage::Ready || to == PrepareStage::Refused,
        PrepareStage::Ready => false,
        PrepareStage::Refused => false,
    }
}

/// Where the apply goes: the output, its desktop, and what stood there.
pub struct Target {
    pub desktop_index: usize,
    pub previous: PreviousWallpaper,
    pub old_assignment: Option<Assignment>,
}

/// The preparation of an apply.
pub struct Preparation {
    pub stage: PrepareStage,
    pub output_name: String,
    pub kind: RendererKind,
    /// The content that the request names.
    pub named_content: Option<String>,
    /// The edges that the request pins.
    pub width: Option<u32>,
    pub height: Option<u32>,
    pub retry: bool,
    /// A playlist entry takes over the scaling and the frame rate of its
    /// output.
    pub follows_output: bool,
    pub spec: StartSpec,
    pub item: Option<CatalogItem>,
    pub content: String,
    pub target: Option<Target>,
    /// Why a scene was not inspected.
    pub inspection_unavailable: Option<String>,
    pub error: Option<ApplyError>,
}

impl Preparation {
    pub open spec fn wf(&self) -> bool {
        &&& self.error is Some <==> self.stage == PrepareStage::Refused
        &&& self.stage == PrepareStage::Canonicalizing || self.stage
            == PrepareStage::PreflightCatalog ==> self.item is Some && self.kind
            != RendererKind::Test
        &&& self.stage == PrepareStage::Inspecting || self.stage == PrepareStage::Ready
            ==> self.target is Some
    }

    /// What does not change on the way.
    pub open spec fn same_request(before: &Self, after: &Self) -> bool {
        &&& after.output_name == before.output_name
        &&& after.named_content == before.named_content
        &&& after.width == before.width
        &&& after.height == before.height
        &&& after.retry == before.retry
        &&& after.follows_output == before.follows_output
    }

    /// The preparation ended with a refusal.
    pub open spec fn refused_with(&self, error: ApplyError) -> bool {
        self.stage == PrepareStage::Refused && self.error == Some(error)
    }

    /// The preparation ended with an invalid request.
    pub open spec fn refused_as_invalid(&self, detail: Seq<char>) -> bool {
        self.stage == PrepareStage::Refused && (self.error matches Some(error) && error is Invalid
            && error.text() == Some(detail))
    }

    fn refuse(&mut self, error: ApplyError)
        requires
            old(self).wf(),
        ensures
            final(self).wf(),
            Self::same_request(old(self), final(self)),
            final(self).refused_with(error),
    {
        self.stage = PrepareStage::Refused;
        self.error = Some(error);
    }

    /// Begins the preparation of a request. Only one transaction runs at a time.
    pub fn begin(params: ApplyWallpaperParams, lock_free: bool) -> (begun: Result<
        Preparation,
        ApplyError,
    >)
        ensures
            match begun {
                Ok(preparation) => {
                    &&& lock_free
                    &&& apply::request_refusal(params) is None
                    &&& preparation.wf()
                    &&& preparation.stage == (if params.content is Some {
                        PrepareStage::PreflightClient
                    } else {
                        PrepareStage::Lookup
                    })
                    &&& preparation.output_name == params.output
                    &&& preparation.kind == params.kind
                    &&& preparation.named_content == params.content
                    &&& preparation.width == params.width
                    &&& preparation.height == params.height
                    &&& preparation.retry == params.retry
                    &&& !preparation.follows_output
                    &&& preparation.spec.wallpaper_id@ == params.wallpaper_id@
                    &&& preparation.spec.content_hash@ == "pending"@
                    &&& preparation.spec.fps == params.fps
                    &&& preparation.spec.kind == params.kind
                    &&& preparation.spec.capability_limitations@.len() == 0
                    &&& preparation.item is None
                    &&& preparation.target is None
                    &&& preparation.inspection_unavailable is None
                    &&& preparation.spec.scaling == params.scaling
                    &&& match params.content {
                        Some(path) => preparation.spec.content matches Some(content)
                            && apply::content_matches(content, params.kind, path@),
                        None => preparation.spec.content is None,
                    }
                },
                Err(error) => if !lock_free {
                    error is Busy
                } else {
                    error is Invalid && error.text() == apply::request_refusal(params)
                        && error.text() is Some
                },
            },
    {
        if !lock_free {
            return Err(ApplyError::Busy);
        }
        let spec = match build_apply_spec(&params) {
            Ok(spec) => spec,
            Err(error) => { return Err(error) },
        };
        let stage: PrepareStage = if params.content.is_some() {
            PrepareStage::PreflightClient
        } else {
            PrepareStage::Lookup
        };
        Ok(
            Preparation {
                stage,
                output_name: params.output,
                kind: params.kind,
                named_content: params.content,
                width: params.width,
                height: params.height,
                retry: params.retry,
                follows_output: false,
                spec,
                item: None,
                content: String::new(),
                target: None,
                inspection_unavailable: None,
                error: None,
            },
        )
    }

    /// Begins the preparation of a playlist entry, once the lock is held and
    /// the supervisor was looked at again: a renderer that somebody else put
    /// there meanwhile is left alone.
    pub fn begin_playlist(
        wallpaper_id: String,
        lock_free: bool,
        status: Option<&WorkerStatus>,
        applied: Option<&str>,
    ) -> (begun: Result<Preparation, ApplyError>)
        ensures
            match begun {
                Ok(preparation) => {
                    &&& lock_free
                    &&& status matches Some(seen) ==> !verdict::foreign_live(
                        *seen,
                        wallpaper_id@,
                        verdict::borrowed(applied),
                    )
                    &&& preparation.wf()
                    &&& preparation.stage == PrepareStage::ResolvingOutput
                    &&& preparation.named_content is None
                    &&& preparation.width is None
                    &&& preparation.height is None
                    &&& !preparation.retry
                    &&& preparation.follows_output
                    &&& preparation.spec.wallpaper_id@ == wallpaper_id@
                    &&& preparation.spec.content_hash@ == "pending"@
                    &&& preparation.spec.content is None
                    &&& preparation.spec.capability_limitations@.len() == 0
                    &&& preparation.item is None
                    &&& preparation.target is None
                    &&& preparation.inspection_unavailable is None
                    &&& preparation.spec.width == 960
                    &&& preparation.spec.height == 540
                    &&& preparation.spec.fps == 30
                    &&& preparation.spec.scaling == ScalingMode::Aspect
                },
                Err(error) => if !lock_free {
                    error is Busy
                } else {
                    status matches Some(seen) && verdict::foreign_live(
                        *seen,
                        wallpaper_id@,
                        verdict::borrowed(applied),
                    ) && error is Yielded && error.text() == Some(
                        "foreign renderer "@ + apply::requested_name(seen.requested_wallpaper_id)
                            + " is live; the playlist yields"@,
                    )
                },
            },
    {
        if !lock_free {
            return Err(ApplyError::Busy);
        }
        match status {
            Some(seen) => {
                if foreign_renderer_live(seen, wallpaper_id.as_str(), applied) {
                    let mut detail = "foreign renderer ".to_owned();
                    match &seen.requested_wallpaper_id {
                        Some(name) => detail.append(name.as_str()),
                        None => detail.append("none"),
                    }
                    detail.append(" is live; the playlist yields");
                    return Err(ApplyError::Yielded(detail));
                }
            },
            None => {},
        }
        Ok(
            Preparation {
                stage: PrepareStage::ResolvingOutput,
                output_name: String::new(),
                kind: RendererKind::Scene,
                named_content: None,
                width: None,
                height: None,
                retry: false,
                follows_output: true,
                spec: StartSpec {
                    wallpaper_id,
                    content_hash: "pending".to_owned(),
                    width: default_apply_width(),
                    height: default_apply_height(),
                    fps: default_apply_fps(),
                    kind: RendererKind::Scene,
                    content: None,
                    scaling: ScalingMode::Aspect,
                    capability_limitations: Vec::new(),
                },
                item: None,
                content: String::new(),
                target: None,
                inspection_unavailable: None,
                error: None,
            },
        )
    }

    /// Takes what the preflight of the named content came to.
    pub fn client_preflighted(&mut self, result: Result<(), String>)
        requires
            old(self).wf(),
            old(self).stage == PrepareStage::PreflightClient,
        ensures
            final(self).wf(),
            Self::same_request(old(self), final(self)),
            may_follow(old(self).stage, final(self).stage),
            match result {
                Ok(()) => *final(self) == (Preparation { stage: PrepareStage::Lookup, ..*old(self) }),
                Err(failure) => final(self).refused_as_invalid(failure@),
            },
    {
        match result {
            Ok(()) => {
                self.stage = PrepareStage::Lookup;
            },
            Err(failure) => self.refuse(ApplyError::Invalid(failure)),
        }
    }

    /// Takes the output that was resolved for a playlist.
    pub fn output_resolved(&mut self, resolved: Result<String, ApplyError>)
        requires
            old(self).wf(),
            old(self).stage == PrepareStage::ResolvingOutput,
        ensures
            final(self).wf(),
            may_follow(old(self).stage, final(self).stage),
            match resolved {
                Err(error) => final(self).refused_with(error),
                Ok(name) => *final(self) == (Preparation {
                    stage: PrepareStage::Lookup,
                    output_name: name,
                    ..*old(self)
                }),
            },
    {
        match resolved {
            Ok(name) => {
                self.output_name = name;
                self.stage = PrepareStage::Lookup;
            },
            Err(error) => self.refuse(error),
        }
    }

    /// Looks the wallpaper up: an item that is not usable counts as unknown,
    /// and a request is for its own kind only. A playlist entry is applied as
    /// the kind that the catalog says.
    pub fn looked_up(&mut self, items: &Vec<CatalogItem>)
        requires
            old(self).wf(),
            old(self).stage == PrepareStage::Lookup,
            !old(self).follows_output ==> old(self).kind != RendererKind::Test,
        ensures
            final(self).wf(),
            Self::same_request(old(self), final(self)),
            may_follow(old(self).stage, final(self).stage),
            match apply::usable_item(items@, old(self).spec.wallpaper_id@) {
                None => final(self).stage == PrepareStage::Refused && (final(self).error matches Some(
                    error,
                ) && error is UnknownWallpaper && error.text() == Some(
                    old(self).spec.wallpaper_id@,
                )),
                Some(item) => if old(self).follows_output || item.kind.renderer() == Some(
                    old(self).kind,
                ) {
                    &&& item.kind.renderer() == Some(final(self).kind)
                    &&& final(self).content@ == apply::content_path(item, final(self).kind)
                    &&& *final(self) == (Preparation {
                        stage: PrepareStage::Canonicalizing,
                        kind: final(self).kind,
                        spec: StartSpec { kind: final(self).kind, ..old(self).spec },
                        item: Some(item),
                        content: final(self).content,
                        ..*old(self)
                    })
                } else {
                    final(self).stage == PrepareStage::Refused && (final(self).error matches Some(
                        error,
                    ) && error is Incompatible && error.text() == Some(
                        old(self).spec.wallpaper_id@ + " is a "@ + item.kind.name()
                            + " project, not "@ + old(self).kind.name(),
                    ))
                },
            },
    {
        let item: &CatalogItem = match catalog_item(items, self.spec.wallpaper_id.as_str()) {
            Ok(item) => item,
            Err(error) => {
                self.refuse(error);
                return ;
            },
        };
        if self.follows_output {
            match crate::model::renderer_kind_for(item) {
                Some(kind) => {
                    self.kind = kind;
                    self.spec.kind = kind;
                },
                None => {},
            }
        } else {
            match require_kind(item, self.spec.wallpaper_id.as_str(), self.kind) {
                Ok(()) => {
                    self.spec.kind = self.kind;
                },
                Err(error) => {
                    self.refuse(error);
                    return ;
                },
            }
        }
        self.content = catalog_content_path(item, self.kind);
        self.item = Some(copy_item(item));
        self.stage = PrepareStage::Canonicalizing;
    }

    /// Takes what the named and the catalog's path resolve to on disk: named
    /// content must be the catalog's own, which is what the renderer runs.
    pub fn canonicalized(
        &mut self,
        client_canonical: Option<String>,
        catalog_canonical: Option<String>,
    )
        requires
            old(self).wf(),
            old(self).stage == PrepareStage::Canonicalizing,
        ensures
            final(self).wf(),
            Self::same_request(old(self), final(self)),
            may_follow(old(self).stage, final(self).stage),
            ({
                let foreign = old(self).named_content is Some && !apply::same_canonical(
                    client_canonical,
                    catalog_canonical,
                );
                if foreign {
                    final(self).refused_as_invalid(
                        "content "@ + old(self).named_content->0@
                            + " does not match the catalog item's resolved content "@ + old(self).content@,
                    )
                } else if old(self).content@.len() > apply::MAX_CONTENT_CHARS {
                    final(self).refused_as_invalid(
                        "catalog content path exceeds 4096 characters"@,
                    )
                } else {
                    &&& final(self).spec.content matches Some(content) && apply::content_matches(
                        content,
                        old(self).kind,
                        old(self).content@,
                    )
                    &&& *final(self) == (Preparation {
                        stage: PrepareStage::PreflightCatalog,
                        spec: StartSpec { content: final(self).spec.content, ..old(self).spec },
                        ..*old(self)
                    })
                }
            }),
    {
        match check_content(
            &self.named_content,
            &client_canonical,
            self.content.as_str(),
            &catalog_canonical,
        ) {
            Ok(()) => {
                self.spec.content = Some(content_spec_for(self.kind, self.content.as_str()));
                self.stage = PrepareStage::PreflightCatalog;
            },
            Err(error) => self.refuse(error),
        }
    }

    /// Takes what the preflight of the catalog's content came to, and the bytes
    /// of its canonical path, which identify content without metadata.
    pub fn catalog_preflighted(&mut self, result: Result<(), String>, canonical_path: &[u8])
        requires
            old(self).wf(),
            old(self).stage == PrepareStage::PreflightCatalog,
        ensures
            final(self).wf(),
            Self::same_request(old(self), final(self)),
            may_follow(old(self).stage, final(self).stage),
            match result {
                Err(failure) => final(self).refused_as_invalid(failure@),
                Ok(()) => {
                    &&& final(self).spec.content_hash@ == (match old(self).item->0.metadata_hash {
                        Some(hash) => hash@,
                        None => apply::hex_text(apply::sha256(canonical_path@)),
                    })
                    &&& *final(self) == (Preparation {
                        stage: PrepareStage::Enumerating,
                        spec: StartSpec {
                            content_hash: final(self).spec.content_hash,
                            ..old(self).spec
                        },
                        ..*old(self)
                    })
                },
            },
    {
        match result {
            Err(failure) => {
                self.refuse(ApplyError::Invalid(failure));
                return ;
            },
            Ok(()) => {},
        }
        match &self.item {
            Some(item) => {
                let hash = content_hash_for(item, canonical_path);
                self.spec.content_hash = hash;
            },
            None => {},
        }
        self.stage = PrepareStage::Enumerating;
    }

    /// The scaling that the apply ends up with.
    pub open spec fn scaling_on(&self, stored: Option<assignments::AssignmentView>) -> ScalingMode {
        if self.follows_output {
            match stored {
                Some(record) => record.scaling,
                None => ScalingMode::Aspect,
            }
        } else {
            self.spec.scaling
        }
    }

    /// The frame rate that the apply ends up with.
    pub open spec fn fps_on(&self, stored: Option<assignments::AssignmentView>) -> u32 {
        if self.follows_output {
            match stored {
                Some(record) => if 1 <= record.fps <= 240 {
                    record.fps
                } else {
                    self.spec.fps
                },
                None => self.spec.fps,
            }
        } else {
            self.spec.fps
        }
    }

    /// Takes a fresh enumeration and the output's record: the output must have
    /// a desktop, the canvas follows it, and what stands there is noted.
    pub fn enumerated(
        &mut self,
        enumerated: Result<Vec<OutputInfo>, ApplyError>,
        stored: Option<&Assignment>,
    )
        requires
            old(self).wf(),
            old(self).stage == PrepareStage::Enumerating,
        ensures
            final(self).wf(),
            Self::same_request(old(self), final(self)),
            may_follow(old(self).stage, final(self).stage),
            match enumerated {
                Err(failure) => final(self).refused_with(failure),
                Ok(outputs) => match apply::target_refusal(outputs@, old(self).output_name@) {
                    Some((true, detail)) => final(self).stage == PrepareStage::Refused && (final(self).error matches Some(
                        error,
                    ) && error is OutputMissing && error.text() == Some(detail)),
                    Some((false, detail)) => final(self).stage == PrepareStage::Refused && (final(self).error matches Some(
                        error,
                    ) && error is Transaction && error.text() == Some(detail)),
                    None => {
                        let output = apply::output_named(outputs@, old(self).output_name@)->0;
                        match apply::previous_wallpaper(output, apply::stored_view(stored)) {
                            None => final(self).stage == PrepareStage::Refused && (final(self).error matches Some(
                                error,
                            ) && error is Transaction && error.text() == Some(
                                "output "@ + output.name@
                                    + " has no wallpaper plugin to save as previous"@,
                            )),
                            Some(previous) => {
                                &&& final(self).stage == (if old(self).kind == RendererKind::Scene {
                                    PrepareStage::Inspecting
                                } else {
                                    PrepareStage::Ready
                                })
                                &&& final(self).target matches Some(target) && Some(
                                    target.desktop_index,
                                ) == output.desktop_index && target.previous@ == previous
                                    && assignments_view(target.old_assignment) == apply::stored_view(
                                    stored,
                                )
                                &&& (final(self).spec.width as int, final(self).spec.height as int)
                                    == apply::canvas(
                                    old(self).width,
                                    old(self).height,
                                    probe::geometry_view(output.geometry),
                                )
                                &&& final(self).spec.scaling == old(self).scaling_on(
                                    apply::stored_view(stored),
                                )
                                &&& final(self).spec.fps == old(self).fps_on(
                                    apply::stored_view(stored),
                                )
                                &&& *final(self) == (Preparation {
                                    stage: final(self).stage,
                                    target: final(self).target,
                                    spec: StartSpec {
                                        width: final(self).spec.width,
                                        height: final(self).spec.height,
                                        fps: final(self).spec.fps,
                                        scaling: final(self).spec.scaling,
                                        ..old(self).spec
                                    },
                                    ..*old(self)
                                })
                            },
                        }
                    },
                },
            },
    {
        let outputs: Vec<OutputInfo> = match enumerated {
            Ok(outputs) => outputs,
            Err(error) => {
                self.refuse(error);
                return ;
            },
        };
        let (output, desktop_index) = match target_output(&outputs, self.output_name.as_str()) {
            Ok(target) => target,
            Err(error) => {
                self.refuse(error);
                return ;
            },
        };
        let previous = match previous_for(output, stored) {
            Ok(previous) => previous,
            Err(error) => {
                self.refuse(error);
                return ;
            },
        };
        let (width, height): (u32, u32) = frame_size_for(self.width, self.height, output.geometry);
        self.spec.width = width;
        self.spec.height = height;
        if self.follows_output {
            match stored {
                Some(record) => {
                    self.spec.scaling = record.scaling;
                    if record.fps >= 1 && record.fps <= 240 {
                        self.spec.fps = record.fps;
                    }
                },
                None => {
                    self.spec.scaling = ScalingMode::Aspect;
                },
            }
        }
        let old_assignment: Option<Assignment> = match stored {
            Some(record) => Some(record.clone()),
            None => None,
        };
        self.target = Some(Target { desktop_index, previous, old_assignment });
        if needs_inspection(self.kind) {
            self.stage = PrepareStage::Inspecting;
        } else {
            self.stage = PrepareStage::Ready;
        }
    }

    /// Takes what the inspection of a scene came to.
    pub fn inspected(
        &mut self,
        inspection: Inspection,
        supported: &NameMap<()>,
        tolerated: &NameMap<()>,
    )
        requires
            old(self).wf(),
            old(self).stage == PrepareStage::Inspecting,
            supported.wf(),
            tolerated.wf(),
        ensures
            final(self).wf(),
            Self::same_request(old(self), final(self)),
            may_follow(old(self).stage, final(self).stage),
            match gate::gate_refusal(inspection, supported@, tolerated@) {
                Some((text, list, reason)) => final(self).stage == PrepareStage::Refused && (final(self).error matches Some(
                    ApplyError::CapabilityGate { detail, missing, inspection_reason },
                ) && detail@ == text && text::views(missing@) == list && probe::option_view(
                    inspection_reason,
                ) == reason),
                None => {
                    &&& *final(self) == (Preparation {
                        stage: PrepareStage::Ready,
                        spec: StartSpec {
                            capability_limitations: final(self).spec.capability_limitations,
                            ..old(self).spec
                        },
                        inspection_unavailable: final(self).inspection_unavailable,
                        ..*old(self)
                    })
                    &&& match inspection {
                        Inspection::Inventoried { required } => text::views(
                            final(self).spec.capability_limitations@,
                        ) == gate::shortfall(required@, supported@, tolerated@, true, 0) && final(self).inspection_unavailable is None,
                        Inspection::Incompatible { reason } => false,
                        Inspection::Unavailable { reason } => final(self).spec.capability_limitations@.len()
                            == 0 && probe::option_view(final(self).inspection_unavailable) == Some(
                            reason@,
                        ),
                    }
                },
            },
    {
        match scene_capability_gate(inspection, supported, tolerated) {
            Ok(passage) => {
                self.spec.capability_limitations = passage.limitations;
                self.inspection_unavailable = passage.inspection_unavailable;
                self.stage = PrepareStage::Ready;
            },
            Err(error) => self.refuse(error),
        }
    }

    /// The plan of a finished preparation, or its refusal.
    pub fn into_plan(self) -> (plan: Result<ApplyPlan, ApplyError>)
        requires
            self.wf(),
            self.stage == PrepareStage::Ready || self.stage == PrepareStage::Refused,
        ensures
            match plan {
                Ok(plan) => {
                    &&& self.stage == PrepareStage::Ready
                    &&& plan.spec == self.spec
                    &&& plan.content == self.content
                    &&& plan.output_name == self.output_name
                    &&& self.target matches Some(target) && plan.desktop_index
                        == target.desktop_index && plan.previous == target.previous
                        && plan.old_assignment == target.old_assignment
                    &&& plan.retry == self.retry
                },
                Err(error) => self.stage == PrepareStage::Refused && self.error == Some(error),
            },
    {
        match (self.error, self.target) {
            (Some(error), _) => Err(error),
            (None, Some(target)) => Ok(
                ApplyPlan {
                    spec: self.spec,
                    content: self.content,
                    output_name: self.output_name,
                    desktop_index: target.desktop_index,
                    previous: target.previous,
                    old_assignment: target.old_assignment,
                    retry: self.retry,
                },
            ),
            (None, None) => Err(ApplyError::Busy),
        }
    }
}

pub open spec fn assignments_view(record: Option<Assignment>) -> Option<
    assignments::AssignmentView,
> {
    match record {
        Some(assignment) => Some(assignment@),
        None => None,
    }
}

fn copy_item(item: &CatalogItem) -> (copy: CatalogItem)
    ensures
        copy == *item,
{
    CatalogItem {
        workshop_id: item.workshop_id.clone(),
        kind: item.kind,
        content_root: item.content_root.clone(),
        entry_file: item.entry_file.clone(),
        metadata_hash: item.metadata_hash.clone(),
        workshop_state: item.workshop_state.clone(),
    }
}

/// A run of the preparation: the stages that it goes through, one after the
/// other.
pub open spec fn is_run(stages: Seq<PrepareStage>) -> bool {
    stages.len() > 0 && (stages[0] == PrepareStage::PreflightClient || stages[0]
        == PrepareStage::Lookup || stages[0] == PrepareStage::ResolvingOutput) && forall|i: int|
        0 < i < stages.len() ==> may_follow(stages[i - 1], #[trigger] stages[i])
}

/// The outputs of an apply are enumerated only for content that the catalog
/// knows and that passed its preflight, and a plan is ready only after that.
pub proof fn law_shell_is_asked_only_for_known_content(stages: Seq<PrepareStage>, i: int)
    requires
        is_run(stages),
        0 <= i < stages.len(),
    ensures
        stages[i] == PrepareStage::Enumerating ==> i > 2 && stages[i - 1]
            == PrepareStage::PreflightCatalog && stages[i - 2] == PrepareStage::Canonicalizing
            && stages[i - 3] == PrepareStage::Lookup,
        stages[i] == PrepareStage::Ready ==> i > 0 && (stages[i - 1] == PrepareStage::Enumerating
            || (i > 1 && stages[i - 1] == PrepareStage::Inspecting && stages[i - 2]
            == PrepareStage::Enumerating)),
{
    if i > 0 {
        assert(may_follow(stages[i - 1], stages[i]));
        if i > 1 {
            assert(may_follow(stages[i - 2], stages[i - 1]));
            if i > 2 {
                assert(may_follow(stages[i - 3], stages[i - 2]));
            }
        }
    }
}

} // verus!
