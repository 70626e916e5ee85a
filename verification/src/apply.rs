//! The rules of putting a wallpaper on an output and taking it off again.

use sha2::Digest;
use vstd::prelude::*;

use crate::assignments;
use crate::assignments::{copy_strings, Assignment, AssignmentStore, PreviousWallpaper};
use crate::identity;
use crate::identity::validate_identity_part;
use crate::model;
use crate::model::{
    is_playable, phase_name, CatalogItem, ContentSpec, RendererKind, ScalingMode, StartSpec,
    WorkerPhase, WorkerStatus,
};
use crate::names;
use crate::names::NameMap;
use crate::probe;
use crate::probe::{OutputInfo, ProbeError};
use crate::text;
use crate::text::{push_decimal, same};

verus! {

/// The wallpaper plugin that the daemon assigns to desktops it manages.
pub const KWE_PLUGIN: &'static str = "org.kde.kwe.wallpaper";

/// The stock plugin that restores fall back to.
pub const IMAGE_PLUGIN: &'static str = "org.kde.image";

/// The longest content path of a request or a catalog item, in characters.
pub const MAX_CONTENT_CHARS: usize = 4096;

/// The longest edge of a derived canvas.
pub const MAX_FRAME_EDGE: u32 = 2560;

/// The shortest edge of a derived canvas.
pub const MIN_FRAME_EDGE: u32 = 64;

// ---------------------------------------------------------------------------
// Errors
// ---------------------------------------------------------------------------

/// Why a wallpaper request failed.
#[derive(Debug, PartialEq, Eq)]
pub enum ApplyError {
    /// The request breaks the start rules.
    Invalid(String),
    /// No usable catalog item has this id.
    UnknownWallpaper(String),
    /// The catalog item is not of the requested kind.
    Incompatible(String),
    /// The content needs capabilities that are not there, or the inspector
    /// itself refuses it.
    CapabilityGate { detail: String, missing: Vec<String>, inspection_reason: Option<String> },
    /// No enumerated output has this name.
    OutputMissing(String),
    /// Another transaction is in flight.
    Busy,
    /// Somebody else's renderer is live: the playlist steps back.
    Yielded(String),
    /// The shell or its tooling cannot be reached.
    ShellUnreachable(String),
    /// There is no display server in reach.
    DisplayUnavailable(String),
    /// A step of the transaction failed; it has been rolled back.
    Transaction(String),
    /// The content is disabled after repeated failures.
    Quarantined(String),
    /// The restore script could not be executed.
    RestoreFailed(String),
}

impl ApplyError {
    pub open spec fn wire_code(&self) -> Seq<char> {
        match self {
            ApplyError::Invalid(_) => "invalid_params"@,
            ApplyError::UnknownWallpaper(_) => "apply_unknown_wallpaper"@,
            ApplyError::Incompatible(_) => "apply_incompatible"@,
            ApplyError::CapabilityGate { .. } => "apply_incompatible"@,
            ApplyError::OutputMissing(_) => "output_missing"@,
            ApplyError::Busy => "apply_busy"@,
            ApplyError::Yielded(_) => "apply_yielded"@,
            ApplyError::ShellUnreachable(_) => "shell_unreachable"@,
            ApplyError::DisplayUnavailable(_) => "display_unavailable"@,
            ApplyError::Transaction(_) => "apply_failed"@,
            ApplyError::Quarantined(_) => "apply_quarantined"@,
            ApplyError::RestoreFailed(_) => "restore_failed"@,
        }
    }

    /// The detail, where the error has one.
    pub open spec fn text(&self) -> Option<Seq<char>> {
        match self {
            ApplyError::Invalid(detail) => Some(detail@),
            ApplyError::UnknownWallpaper(detail) => Some(detail@),
            ApplyError::Incompatible(detail) => Some(detail@),
            ApplyError::CapabilityGate { detail, .. } => Some(detail@),
            ApplyError::OutputMissing(detail) => Some(detail@),
            ApplyError::Busy => None,
            ApplyError::Yielded(detail) => Some(detail@),
            ApplyError::ShellUnreachable(detail) => Some(detail@),
            ApplyError::DisplayUnavailable(detail) => Some(detail@),
            ApplyError::Transaction(detail) => Some(detail@),
            ApplyError::Quarantined(detail) => Some(detail@),
            ApplyError::RestoreFailed(detail) => Some(detail@),
        }
    }

    /// The code on the wire.
    pub fn code(&self) -> (code: &'static str)
        ensures
            code@ == self.wire_code(),
    {
        match self {
            ApplyError::Invalid(_) => "invalid_params",
            ApplyError::UnknownWallpaper(_) => "apply_unknown_wallpaper",
            ApplyError::Incompatible(_) => "apply_incompatible",
            ApplyError::CapabilityGate { .. } => "apply_incompatible",
            ApplyError::OutputMissing(_) => "output_missing",
            ApplyError::Busy => "apply_busy",
            ApplyError::Yielded(_) => "apply_yielded",
            ApplyError::ShellUnreachable(_) => "shell_unreachable",
            ApplyError::DisplayUnavailable(_) => "display_unavailable",
            ApplyError::Transaction(_) => "apply_failed",
            ApplyError::Quarantined(_) => "apply_quarantined",
            ApplyError::RestoreFailed(_) => "restore_failed",
        }
    }

    /// The detail, where the error has one.
    pub fn detail(&self) -> (detail: Option<&str>)
        ensures
            match detail {
                Some(value) => self.text() == Some(value@),
                None => self.text() is None,
            },
    {
        match self {
            ApplyError::Invalid(detail) => Some(detail.as_str()),
            ApplyError::UnknownWallpaper(detail) => Some(detail.as_str()),
            ApplyError::Incompatible(detail) => Some(detail.as_str()),
            ApplyError::CapabilityGate { detail, .. } => Some(detail.as_str()),
            ApplyError::OutputMissing(detail) => Some(detail.as_str()),
            ApplyError::Busy => None,
            ApplyError::Yielded(detail) => Some(detail.as_str()),
            ApplyError::ShellUnreachable(detail) => Some(detail.as_str()),
            ApplyError::DisplayUnavailable(detail) => Some(detail.as_str()),
            ApplyError::Transaction(detail) => Some(detail.as_str()),
            ApplyError::Quarantined(detail) => Some(detail.as_str()),
            ApplyError::RestoreFailed(detail) => Some(detail.as_str()),
        }
    }

    /// What a capability refusal says besides its detail.
    pub fn extra_fields(&self) -> (fields: Option<(&Vec<String>, &Option<String>)>)
        ensures
            match fields {
                Some((listed, reason)) => *self matches ApplyError::CapabilityGate {
                    missing,
                    inspection_reason,
                    ..
                } && *listed == missing && *reason == inspection_reason,
                None => !(self is CapabilityGate),
            },
    {
        match self {
            ApplyError::CapabilityGate { missing, inspection_reason, .. } => Some(
                (missing, inspection_reason),
            ),
            _ => None,
        }
    }
}

/// An enumeration failure is an unreachable shell, except that a missing
/// display stays distinct: the user can fix it.
pub fn enumeration_error(error: ProbeError) -> (mapped: ApplyError)
    ensures
        mapped.text() == Some(error.text()),
        error is DisplayUnavailable ==> mapped is DisplayUnavailable,
        !(error is DisplayUnavailable) ==> mapped is ShellUnreachable,
{
    match error {
        ProbeError::DisplayUnavailable(detail) => ApplyError::DisplayUnavailable(detail),
        other => ApplyError::ShellUnreachable(other.message()),
    }
}

// ---------------------------------------------------------------------------
// The canvas
// ---------------------------------------------------------------------------

pub fn default_apply_width() -> (width: u32)
    ensures
        width == 960,
{
    960
}

pub fn default_apply_height() -> (height: u32)
    ensures
        height == 540,
{
    540
}

pub fn default_apply_fps() -> (fps: u32)
    ensures
        fps == 30,
{
    30
}

/// An edge scaled so that the long edge becomes `MAX_FRAME_EDGE`, rounded down
/// to an even number of pixels.
pub open spec fn scaled_edge(edge: int, long: int) -> int {
    let scaled = edge * MAX_FRAME_EDGE / long;
    scaled - scaled % 2
}

/// An edge within the bounds of a derived canvas.
pub open spec fn clamped_edge(edge: int) -> int {
    if edge < MIN_FRAME_EDGE {
        MIN_FRAME_EDGE as int
    } else if edge > MAX_FRAME_EDGE {
        MAX_FRAME_EDGE as int
    } else {
        edge
    }
}

/// The canvas that an output of this size gets: the output's own size, with the
/// long edge capped and the aspect kept.
pub open spec fn derived_canvas(out_w: int, out_h: int) -> (int, int) {
    let long = if out_w > out_h { out_w } else { out_h };
    if long > MAX_FRAME_EDGE {
        (clamped_edge(scaled_edge(out_w, long)), clamped_edge(scaled_edge(out_h, long)))
    } else {
        (clamped_edge(out_w), clamped_edge(out_h))
    }
}

/// The canvas where the request pins no edge: the output's, or 960x540 when the
/// output has no usable geometry.
pub open spec fn free_canvas(geometry: Option<Seq<i32>>) -> (int, int) {
    match geometry {
        Some(numbers) => if numbers[2] > 0 && numbers[3] > 0 {
            derived_canvas(numbers[2] as int, numbers[3] as int)
        } else {
            (960, 540)
        },
        None => (960, 540),
    }
}

/// The canvas of an apply: a pinned edge is kept, the rest follows the output.
pub open spec fn canvas(
    width: Option<u32>,
    height: Option<u32>,
    geometry: Option<Seq<i32>>,
) -> (int, int) {
    let free = free_canvas(geometry);
    (
        match width {
            Some(pinned) => pinned as int,
            None => free.0,
        },
        match height {
            Some(pinned) => pinned as int,
            None => free.1,
        },
    )
}

fn scale_edge(edge: u64, long: u64) -> (scaled: u64)
    requires
        0 < edge <= long <= 0x7fff_ffff,
        long > MAX_FRAME_EDGE,
    ensures
        scaled == scaled_edge(edge as int, long as int),
        scaled <= MAX_FRAME_EDGE,
{
    assert(edge * MAX_FRAME_EDGE <= 0x7fff_ffff * 2560) by (nonlinear_arith)
        requires
            edge <= 0x7fff_ffff,
            MAX_FRAME_EDGE == 2560,
    ;
    let product: u64 = edge * MAX_FRAME_EDGE as u64;
    let scaled: u64 = product / long;
    assert(scaled <= 2560) by (nonlinear_arith)
        requires
            product == edge * 2560,
            edge <= long,
            long > 0,
            scaled == product / long,
    ;
    scaled - scaled % 2
}

fn clamp_edge(edge: u64) -> (clamped: u32)
    ensures
        clamped == clamped_edge(edge as int),
{
    if edge < MIN_FRAME_EDGE as u64 {
        MIN_FRAME_EDGE
    } else if edge > MAX_FRAME_EDGE as u64 {
        MAX_FRAME_EDGE
    } else {
        edge as u32
    }
}

/// The canvas of an apply.
pub fn frame_size_for(
    width: Option<u32>,
    height: Option<u32>,
    geometry: Option<[i32; 4]>,
) -> (size: (u32, u32))
    ensures
        (size.0 as int, size.1 as int) == canvas(width, height, probe::geometry_view(geometry)),
{
    let (free_w, free_h): (u32, u32) = match geometry {
        Some(numbers) => {
            let out_w: i32 = numbers[2];
            let out_h: i32 = numbers[3];
            if out_w > 0 && out_h > 0 {
                let w: u64 = out_w as u64;
                let h: u64 = out_h as u64;
                let long: u64 = if w > h {
                    w
                } else {
                    h
                };
                if long > MAX_FRAME_EDGE as u64 {
                    (clamp_edge(scale_edge(w, long)), clamp_edge(scale_edge(h, long)))
                } else {
                    (clamp_edge(w), clamp_edge(h))
                }
            } else {
                (default_apply_width(), default_apply_height())
            }
        },
        None => (default_apply_width(), default_apply_height()),
    };
    (width.unwrap_or(free_w), height.unwrap_or(free_h))
}

/// Explicit edges are kept as they are; a canvas derived from an output stays
/// within its bounds, has the capped edge at the cap, and fits twice, with four
/// bytes per pixel and the header, into the mapping of 128 MiB.
pub proof fn law_canvas_is_bounded(geometry: Option<Seq<i32>>)
    ensures
        forall|w: u32, h: u32| #[trigger]
            canvas(Some(w), Some(h), geometry) == (w as int, h as int),
        ({
            let (w, h) = canvas(None, None, geometry);
            &&& MIN_FRAME_EDGE <= w <= MAX_FRAME_EDGE
            &&& MIN_FRAME_EDGE <= h <= MAX_FRAME_EDGE
            &&& 64 + 2 * (w * h * 4) <= 128 * 1024 * 1024
            &&& geometry matches Some(numbers) ==> (numbers[2] > 0 && numbers[3] > 0 && (numbers[2]
                > MAX_FRAME_EDGE || numbers[3] > MAX_FRAME_EDGE) ==> w == MAX_FRAME_EDGE || h
                == MAX_FRAME_EDGE)
        }),
{
    let (w, h) = canvas(None, None, geometry);
    assert(w * h * 4 <= 2560 * 2560 * 4) by (nonlinear_arith)
        requires
            64 <= w <= 2560,
            64 <= h <= 2560,
    ;
    if geometry is Some {
        let numbers = geometry->0;
        let long = if numbers[2] > numbers[3] { numbers[2] as int } else { numbers[3] as int };
        if numbers[2] > 0 && numbers[3] > 0 && long > MAX_FRAME_EDGE {
            assert(long * 2560 / long == 2560) by (nonlinear_arith)
                requires
                    long > 0,
            ;
        }
    }
}

// ---------------------------------------------------------------------------
// From the request to the start spec
// ---------------------------------------------------------------------------

/// What `wallpaper.apply` asks for. Content that is named must be the catalog
/// item's own; without an edge the canvas follows the output.
#[derive(Debug, PartialEq, Eq)]
pub struct ApplyWallpaperParams {
    pub output: String,
    pub wallpaper_id: String,
    pub kind: RendererKind,
    pub content: Option<String>,
    pub width: Option<u32>,
    pub height: Option<u32>,
    pub fps: u32,
    pub scaling: ScalingMode,
    /// Clear the failure record of this content first.
    pub retry: bool,
}

/// What `wallpaper.restore` asks for.
#[derive(Debug, PartialEq, Eq)]
pub struct RestoreWallpaperParams {
    pub output: String,
}

/// Why the request itself is refused.
pub open spec fn request_refusal(params: ApplyWallpaperParams) -> Option<Seq<char>> {
    if params.kind == RendererKind::Test {
        Some("wallpaper.apply does not accept the test renderer kind"@)
    } else if params.content matches Some(content) && !(1 <= content@.len() <= MAX_CONTENT_CHARS) {
        Some("content path must be 1..=4096 characters"@)
    } else {
        None
    }
}

/// `content` is the path that `kind` runs.
pub open spec fn content_matches(content: ContentSpec, kind: RendererKind, path: Seq<char>) -> bool {
    content.kind() == kind && content.location() == path
}

/// The content of a kind at a path.
pub fn content_spec_for(kind: RendererKind, path: &str) -> (content: ContentSpec)
    requires
        kind != RendererKind::Test,
    ensures
        content_matches(content, kind, path@),
{
    match kind {
        RendererKind::Video => ContentSpec::Video { path: path.to_owned() },
        RendererKind::Web => ContentSpec::Web { root: path.to_owned() },
        _ => ContentSpec::Scene { path: path.to_owned() },
    }
}

/// The start spec of a request, before the catalog is asked: the content hash
/// is pending, and content that is named is still to be looked at.
pub fn build_apply_spec(params: &ApplyWallpaperParams) -> (spec: Result<StartSpec, ApplyError>)
    ensures
        match spec {
            Ok(start) => {
                &&& request_refusal(*params) is None
                &&& start.wallpaper_id@ == params.wallpaper_id@
                &&& start.content_hash@ == "pending"@
                &&& start.width == (match params.width {
                    Some(width) => width,
                    None => 960u32,
                })
                &&& start.height == (match params.height {
                    Some(height) => height,
                    None => 540u32,
                })
                &&& start.fps == params.fps
                &&& start.kind == params.kind
                &&& start.scaling == params.scaling
                &&& start.capability_limitations@.len() == 0
                &&& match params.content {
                    Some(path) => start.content matches Some(content) && content_matches(
                        content,
                        params.kind,
                        path@,
                    ),
                    None => start.content is None,
                }
            },
            Err(error) => error is Invalid && error.text() == request_refusal(*params)
                && error.text() is Some,
        },
{
    if params.kind == RendererKind::Test {
        return Err(
            ApplyError::Invalid(
                "wallpaper.apply does not accept the test renderer kind".to_owned(),
            ),
        );
    }
    let content: Option<ContentSpec> = match &params.content {
        Some(path) => {
            let count: usize = path.as_str().unicode_len();
            if count == 0 || count > MAX_CONTENT_CHARS {
                return Err(
                    ApplyError::Invalid("content path must be 1..=4096 characters".to_owned()),
                );
            }
            Some(content_spec_for(params.kind, path.as_str()))
        },
        None => None,
    };
    Ok(
        StartSpec {
            wallpaper_id: params.wallpaper_id.clone(),
            content_hash: "pending".to_owned(),
            width: params.width.unwrap_or(default_apply_width()),
            height: params.height.unwrap_or(default_apply_height()),
            fps: params.fps,
            kind: params.kind,
            content,
            scaling: params.scaling,
            capability_limitations: Vec::new(),
        },
    )
}

/// The position of the first item with this id, or the end.
pub open spec fn item_position(items: Seq<CatalogItem>, id: Seq<char>, from: nat) -> nat
    decreases items.len() - from,
{
    if from >= items.len() {
        items.len()
    } else if items[from as int].workshop_id@ == id {
        from
    } else {
        item_position(items, id, from + 1)
    }
}

/// The item with this id, if it can be applied.
pub open spec fn usable_item(items: Seq<CatalogItem>, id: Seq<char>) -> Option<CatalogItem> {
    let at = item_position(items, id, 0);
    if at < items.len() && model::playable(items[at as int]) {
        Some(items[at as int])
    } else {
        None
    }
}

/// Looks an item up; one that cannot be applied counts as unknown.
pub fn catalog_item<'a>(items: &'a Vec<CatalogItem>, wallpaper_id: &str) -> (found: Result<
    &'a CatalogItem,
    ApplyError,
>)
    ensures
        match found {
            Ok(item) => usable_item(items@, wallpaper_id@) == Some(*item),
            Err(error) => usable_item(items@, wallpaper_id@) is None && error is UnknownWallpaper
                && error.text() == Some(wallpaper_id@),
        },
{
    let mut i: usize = 0;
    while i < items.len()
        invariant
            i <= items@.len(),
            item_position(items@, wallpaper_id@, 0) == item_position(
                items@,
                wallpaper_id@,
                i as nat,
            ),
        decreases items.len() - i,
    {
        if same(items[i].workshop_id.as_str(), wallpaper_id) {
            if is_playable(&items[i]) {
                return Ok(&items[i]);
            }
            return Err(ApplyError::UnknownWallpaper(wallpaper_id.to_owned()));
        }
        i = i + 1;
    }
    Err(ApplyError::UnknownWallpaper(wallpaper_id.to_owned()))
}

/// Refuses an item of another kind than the requested one.
pub fn require_kind(item: &CatalogItem, wallpaper_id: &str, kind: RendererKind) -> (checked: Result<
    (),
    ApplyError,
>)
    ensures
        match checked {
            Ok(()) => item.kind.renderer() == Some(kind),
            Err(error) => item.kind.renderer() != Some(kind) && error is Incompatible
                && error.text() == Some(
                wallpaper_id@ + " is a "@ + item.kind.name() + " project, not "@ + kind.name(),
            ),
        },
{
    match model::renderer_kind_for(item) {
        Some(found) => {
            if found == kind {
                return Ok(());
            }
        },
        None => {},
    }
    let mut detail = wallpaper_id.to_owned();
    detail.append(" is a ");
    let name = model::project_kind_name(&item.kind);
    detail.append(name.as_str());
    detail.append(" project, not ");
    detail.append(kind.as_str());
    Err(ApplyError::Incompatible(detail))
}

/// A file name below a directory.
pub open spec fn joined(directory: Seq<char>, name: Seq<char>) -> Seq<char> {
    if directory.len() == 0 {
        name
    } else if directory.last() == '/' {
        directory + name
    } else {
        directory + "/"@ + name
    }
}

/// Joins a directory and a relative file name.
pub fn join_path(directory: &str, name: &str) -> (path: String)
    ensures
        path@ == joined(directory@, name@),
{
    let count: usize = directory.unicode_len();
    let mut path = directory.to_owned();
    if count > 0 && directory.get_char(count - 1) != '/' {
        path.append("/");
    }
    path.append(name);
    path
}

/// The path that a renderer of `kind` runs for an item: the whole root for web,
/// else the declared entry, else `scene.json`.
pub open spec fn content_path(item: CatalogItem, kind: RendererKind) -> Seq<char> {
    if kind == RendererKind::Web {
        item.content_root@
    } else {
        match item.entry_file {
            Some(entry) => entry@,
            None => joined(item.content_root@, "scene.json"@),
        }
    }
}

/// The content path of a catalog item.
pub fn catalog_content_path(item: &CatalogItem, kind: RendererKind) -> (path: String)
    ensures
        path@ == content_path(*item, kind),
{
    if kind == RendererKind::Web {
        return item.content_root.clone();
    }
    match &item.entry_file {
        Some(entry) => entry.clone(),
        None => join_path(item.content_root.as_str(), "scene.json"),
    }
}

/// The two canonical paths are the same one.
pub open spec fn same_canonical(client: Option<String>, catalog: Option<String>) -> bool {
    probe::option_view(client) == probe::option_view(catalog)
}

fn equal_options(left: &Option<String>, right: &Option<String>) -> (equal: bool)
    ensures
        equal == same_canonical(*left, *right),
{
    match (left, right) {
        (Some(a), Some(b)) => same(a.as_str(), b.as_str()),
        (None, None) => true,
        _ => false,
    }
}

/// Refuses content that is not the catalog item's own, and a catalog path that
/// is too long. `client_canonical` and `catalog_canonical` are what the two
/// paths resolve to on disk.
pub fn check_content(
    client: &Option<String>,
    client_canonical: &Option<String>,
    content: &str,
    catalog_canonical: &Option<String>,
) -> (checked: Result<(), ApplyError>)
    ensures
        match checked {
            Ok(()) => (client is Some ==> same_canonical(*client_canonical, *catalog_canonical))
                && content@.len() <= MAX_CONTENT_CHARS,
            Err(error) => error is Invalid && if client is Some && !same_canonical(
                *client_canonical,
                *catalog_canonical,
            ) {
                error.text() == Some(
                    "content "@ + client->0@
                        + " does not match the catalog item's resolved content "@ + content@,
                )
            } else {
                content@.len() > MAX_CONTENT_CHARS && error.text() == Some(
                    "catalog content path exceeds 4096 characters"@,
                )
            },
        },
{
    match client {
        Some(named) => {
            if !equal_options(client_canonical, catalog_canonical) {
                let mut detail = "content ".to_owned();
                detail.append(named.as_str());
                detail.append(" does not match the catalog item's resolved content ");
                detail.append(content);
                return Err(ApplyError::Invalid(detail));
            }
        },
        None => {},
    }
    if content.unicode_len() > MAX_CONTENT_CHARS {
        return Err(
            ApplyError::Invalid("catalog content path exceeds 4096 characters".to_owned()),
        );
    }
    Ok(())
}

// ---------------------------------------------------------------------------
// Content identity
// ---------------------------------------------------------------------------

/// The SHA-256 digest of a byte string.
pub uninterp spec fn sha256(data: Seq<u8>) -> Seq<u8>;

/// `sha2::Sha256::digest`: the SHA-256 digest of the bytes, 32 bytes long. What
/// the digest of given bytes is, is left to the name.
#[verifier::external_body]
fn sha256_of(data: &[u8]) -> (digest: Vec<u8>)
    ensures
        digest@ == sha256(data@),
        digest@.len() == 32,
{
    sha2::Sha256::digest(data).to_vec()
}

/// A hexadecimal digit in lower case.
pub open spec fn hex_char(digit: nat) -> char {
    if digit < 10 {
        (digit + '0' as nat) as char
    } else {
        (digit - 10 + 'a' as nat) as char
    }
}

/// Two lower-case hexadecimal digits per byte, high half first.
pub open spec fn hex_text(bytes: Seq<u8>) -> Seq<char> {
    Seq::new(
        2 * bytes.len(),
        |i: int|
            if i % 2 == 0 {
                hex_char((bytes[i / 2] / 16) as nat)
            } else {
                hex_char((bytes[i / 2] % 16) as nat)
            },
    )
}

/// `hex::encode`: each byte as two lower-case hexadecimal digits.
#[verifier::external_body]
fn hex_of(bytes: &Vec<u8>) -> (text: String)
    ensures
        text@ == hex_text(bytes@),
{
    hex::encode(bytes)
}

/// The identity of an item's content: the hash of its metadata where it has
/// one, else the digest of its canonical path.
pub fn content_identity(item: &CatalogItem, path_digest: &Vec<u8>) -> (identity: String)
    ensures
        identity@ == (match item.metadata_hash {
            Some(hash) => hash@,
            None => hex_text(path_digest@),
        }),
{
    match &item.metadata_hash {
        Some(hash) => hash.clone(),
        None => hex_of(path_digest),
    }
}

/// The identity of an item's content, whose canonical path has these bytes.
pub fn content_hash_for(item: &CatalogItem, canonical_path: &[u8]) -> (identity: String)
    ensures
        identity@ == (match item.metadata_hash {
            Some(hash) => hash@,
            None => hex_text(sha256(canonical_path@)),
        }),
{
    let digest = sha256_of(canonical_path);
    content_identity(item, &digest)
}

// ---------------------------------------------------------------------------
// The target output and what stood on it
// ---------------------------------------------------------------------------

/// The position of the first output with this name, or the end.
pub open spec fn output_position(outputs: Seq<OutputInfo>, name: Seq<char>, from: nat) -> nat
    decreases outputs.len() - from,
{
    if from >= outputs.len() {
        outputs.len()
    } else if outputs[from as int].name@ == name {
        from
    } else {
        output_position(outputs, name, from + 1)
    }
}

/// The output with this name.
pub open spec fn output_named(outputs: Seq<OutputInfo>, name: Seq<char>) -> Option<OutputInfo> {
    let at = output_position(outputs, name, 0);
    if at < outputs.len() {
        Some(outputs[at as int])
    } else {
        None
    }
}

/// The output with this name.
pub fn find_output<'a>(outputs: &'a Vec<OutputInfo>, name: &str) -> (found: Option<&'a OutputInfo>)
    ensures
        match found {
            Some(output) => output_named(outputs@, name@) == Some(*output) && output.name@ == name@,
            None => output_named(outputs@, name@) is None,
        },
{
    let mut i: usize = 0;
    while i < outputs.len()
        invariant
            i <= outputs@.len(),
            output_position(outputs@, name@, 0) == output_position(outputs@, name@, i as nat),
        decreases outputs.len() - i,
    {
        if same(outputs[i].name.as_str(), name) {
            return Some(&outputs[i]);
        }
        i = i + 1;
    }
    None
}

/// Why an enumeration has no desktop to switch for this output.
pub open spec fn target_refusal(outputs: Seq<OutputInfo>, name: Seq<char>) -> Option<
    (bool, Seq<char>),
> {
    match output_named(outputs, name) {
        None => Some((true, name)),
        Some(output) => if output.desktop_index is None {
            Some((false, "output "@ + name + " has no desktop containment"@))
        } else {
            None
        },
    }
}

/// The output with this name and the desktop on it.
pub fn target_output<'a>(outputs: &'a Vec<OutputInfo>, name: &str) -> (target: Result<
    (&'a OutputInfo, usize),
    ApplyError,
>)
    ensures
        match target {
            Ok((output, index)) => output_named(outputs@, name@) == Some(*output)
                && output.desktop_index == Some(index) && output.name@ == name@,
            Err(error) => match target_refusal(outputs@, name@) {
                Some((true, detail)) => error is OutputMissing && error.text() == Some(detail),
                Some((false, detail)) => error is Transaction && error.text() == Some(detail),
                None => false,
            },
        },
{
    match find_output(outputs, name) {
        Some(output) => match output.desktop_index {
            Some(index) => Ok((output, index)),
            None => {
                let mut detail = "output ".to_owned();
                detail.append(output.name.as_str());
                detail.append(" has no desktop containment");
                Err(ApplyError::Transaction(detail))
            },
        },
        None => Err(ApplyError::OutputMissing(name.to_owned())),
    }
}

/// The live wallpaper of an output, in the form in which it is saved.
pub open spec fn live_wallpaper(output: OutputInfo) -> Option<assignments::PreviousView> {
    match output.wallpaper_plugin {
        Some(plugin) => Some(
            assignments::PreviousView {
                wallpaper_plugin: plugin@,
                config_group: text::views(output.config_group@),
                image: probe::option_view(output.image),
            },
        ),
        None => None,
    }
}

/// The output already shows the daemon's own plugin.
pub open spec fn shows_kwe(output: OutputInfo) -> bool {
    output.wallpaper_plugin matches Some(plugin) && plugin@ == KWE_PLUGIN@
}

/// The wallpaper to save before an apply: what the stored record saved, while
/// the daemon's own plugin is live, else what is live.
pub open spec fn previous_wallpaper(
    output: OutputInfo,
    stored: Option<assignments::AssignmentView>,
) -> Option<assignments::PreviousView> {
    match stored {
        Some(record) => if shows_kwe(output) && record.previous is Some {
            record.previous
        } else {
            live_wallpaper(output)
        },
        None => live_wallpaper(output),
    }
}

pub open spec fn stored_view(stored: Option<&Assignment>) -> Option<assignments::AssignmentView> {
    match stored {
        Some(record) => Some(record@),
        None => None,
    }
}

/// The wallpaper to save before an apply.
pub fn previous_for(output: &OutputInfo, stored: Option<&Assignment>) -> (previous: Result<
    PreviousWallpaper,
    ApplyError,
>)
    ensures
        match previous {
            Ok(saved) => previous_wallpaper(*output, stored_view(stored)) == Some(saved@),
            Err(error) => previous_wallpaper(*output, stored_view(stored)) is None
                && error is Transaction && error.text() == Some(
                "output "@ + output.name@ + " has no wallpaper plugin to save as previous"@,
            ),
        },
{
    match (&output.wallpaper_plugin, stored) {
        (Some(plugin), Some(record)) => {
            if same(plugin.as_str(), KWE_PLUGIN) {
                match &record.previous {
                    Some(saved) => { return Ok(saved.clone()) },
                    None => {},
                }
            }
        },
        _ => {},
    }
    match &output.wallpaper_plugin {
        Some(plugin) => Ok(
            PreviousWallpaper {
                wallpaper_plugin: plugin.clone(),
                config_group: copy_strings(&output.config_group),
                image: output.image.clone(),
            },
        ),
        None => {
            let mut detail = "output ".to_owned();
            detail.append(output.name.as_str());
            detail.append(" has no wallpaper plugin to save as previous");
            Err(ApplyError::Transaction(detail))
        },
    }
}

/// Applying again over the daemon's own wallpaper never loses the wallpaper
/// that was there first.
pub proof fn law_reapply_keeps_the_original(
    output: OutputInfo,
    stored: assignments::AssignmentView,
)
    requires
        shows_kwe(output),
        stored.previous is Some,
    ensures
        previous_wallpaper(output, Some(stored)) == stored.previous,
{
}

// ---------------------------------------------------------------------------
// Promotion
// ---------------------------------------------------------------------------

/// The supervisor's request is ours.
pub open spec fn is_ours(status: WorkerStatus, id: Seq<char>, hash: Seq<char>) -> bool {
    probe::option_view(status.requested_wallpaper_id) == Some(id) && probe::option_view(
        status.requested_content_hash,
    ) == Some(hash)
}

/// Whether the supervisor's request is ours.
pub fn status_is_ours(status: &WorkerStatus, wallpaper_id: &str, content_hash: &str) -> (ours: bool)
    ensures
        ours == is_ours(*status, wallpaper_id@, content_hash@),
{
    match (&status.requested_wallpaper_id, &status.requested_content_hash) {
        (Some(id), Some(hash)) => same(id.as_str(), wallpaper_id) && same(
            hash.as_str(),
            content_hash,
        ),
        _ => false,
    }
}

/// A phase that a renderer does not leave by itself for better.
pub open spec fn terminal(phase: WorkerPhase) -> bool {
    phase == WorkerPhase::RolledBack || phase == WorkerPhase::Quarantined || phase
        == WorkerPhase::Stopped
}

/// A phase in which a renderer is on screen or about to be.
pub open spec fn promoted(phase: WorkerPhase) -> bool {
    phase == WorkerPhase::Live || phase == WorkerPhase::AwaitingAck
}

/// The failure that a terminal phase reports.
pub open spec fn failure_text(phase: WorkerPhase, detail: Option<Seq<char>>) -> Seq<char> {
    match detail {
        Some(text) => text,
        None => phase.name(),
    }
}

/// What a phase means for a renderer that is waited for: our own promotion, a
/// failure, or nothing yet.
pub open spec fn verdict(phase: WorkerPhase, ours: bool, detail: Option<Seq<char>>) -> Option<
    Result<(), Seq<char>>,
> {
    if ours && promoted(phase) {
        Some(Ok(()))
    } else if terminal(phase) {
        Some(Err(failure_text(phase, detail)))
    } else {
        None
    }
}

pub open spec fn borrowed_view(value: Option<&str>) -> Option<Seq<char>> {
    match value {
        Some(text) => Some(text@),
        None => None,
    }
}

/// What a phase means for the renderer that is waited for.
pub fn promotion_verdict(
    phase: WorkerPhase,
    ours: bool,
    last_failure_detail: Option<&str>,
) -> (result: Option<Result<(), String>>)
    ensures
        match result {
            Some(Ok(())) => verdict(phase, ours, borrowed_view(last_failure_detail)) == Some(
                Ok::<(), Seq<char>>(()),
            ),
            Some(Err(failure)) => verdict(phase, ours, borrowed_view(last_failure_detail)) == Some(
                Err::<(), Seq<char>>(failure@),
            ),
            None => verdict(phase, ours, borrowed_view(last_failure_detail)) is None,
        },
{
    match phase {
        WorkerPhase::Live | WorkerPhase::AwaitingAck => {
            if ours {
                Some(Ok(()))
            } else {
                None
            }
        },
        WorkerPhase::RolledBack | WorkerPhase::Quarantined | WorkerPhase::Stopped => {
            match last_failure_detail {
                Some(detail) => Some(Err(detail.to_owned())),
                None => Some(Err(phase_name(&phase).to_owned())),
            }
        },
        _ => None,
    }
}

/// Somebody else's renderer never counts as our promotion.
pub proof fn law_only_our_renderer_promotes(phase: WorkerPhase, detail: Option<Seq<char>>)
    ensures
        verdict(phase, false, detail) != Some(Ok::<(), Seq<char>>(())),
        verdict(phase, true, detail) == Some(Ok::<(), Seq<char>>(())) <==> promoted(phase),
{
}

/// The name of a requested part, or `none`.
pub open spec fn requested_name(part: Option<String>) -> Seq<char> {
    match part {
        Some(name) => name@,
        None => "none"@,
    }
}

/// What a changed owner is reported as.
pub open spec fn ownership_text(status: WorkerStatus, id: Seq<char>, hash: Seq<char>) -> Seq<char> {
    "renderer ownership changed (requested "@ + requested_name(status.requested_wallpaper_id)
        + ":"@ + requested_name(status.requested_content_hash) + ", expected "@ + id + ":"@ + hash
        + ")"@
}

fn ownership_error(status: &WorkerStatus, wallpaper_id: &str, content_hash: &str) -> (error:
    ApplyError)
    ensures
        error is Transaction,
        error.text() == Some(ownership_text(*status, wallpaper_id@, content_hash@)),
{
    let mut detail = "renderer ownership changed (requested ".to_owned();
    match &status.requested_wallpaper_id {
        Some(name) => detail.append(name.as_str()),
        None => detail.append("none"),
    }
    detail.append(":");
    match &status.requested_content_hash {
        Some(name) => detail.append(name.as_str()),
        None => detail.append("none"),
    }
    detail.append(", expected ");
    detail.append(wallpaper_id);
    detail.append(":");
    detail.append(content_hash);
    detail.append(")");
    ApplyError::Transaction(detail)
}

/// Fails as soon as the supervisor's request is no longer ours.
pub fn ensure_ours(status: &WorkerStatus, wallpaper_id: &str, content_hash: &str) -> (checked:
    Result<(), ApplyError>)
    ensures
        match checked {
            Ok(()) => is_ours(*status, wallpaper_id@, content_hash@),
            Err(error) => !is_ours(*status, wallpaper_id@, content_hash@) && error is Transaction
                && error.text() == Some(ownership_text(*status, wallpaper_id@, content_hash@)),
        },
{
    if status_is_ours(status, wallpaper_id, content_hash) {
        Ok(())
    } else {
        Err(ownership_error(status, wallpaper_id, content_hash))
    }
}

/// What one look at the supervisor means while a promotion is waited for.
#[derive(Debug, PartialEq, Eq)]
pub enum Waiting {
    Promoted,
    KeepWaiting,
    Failed(ApplyError),
}

/// What one look at the supervisor means: a changed owner fails at once, our
/// promotion ends the wait, a terminal phase fails, and the deadline bounds the
/// rest.
pub open spec fn waiting_outcome(
    status: WorkerStatus,
    id: Seq<char>,
    hash: Seq<char>,
    overdue: bool,
    timeout_ms: u64,
) -> Option<Result<(), Seq<char>>> {
    let ours = is_ours(status, id, hash);
    if !ours && status.phase != WorkerPhase::Idle {
        Some(Err(ownership_text(status, id, hash)))
    } else {
        match verdict(status.phase, ours, probe::option_view(status.last_failure_detail)) {
            Some(Ok(())) => Some(Ok(())),
            Some(Err(failure)) => Some(Err("renderer did not promote ("@ + failure + ")"@)),
            None => if overdue {
                Some(
                    Err(
                        "renderer did not promote within "@ + text::decimal(timeout_ms as nat)
                            + " ms"@,
                    ),
                )
            } else {
                None
            },
        }
    }
}

/// Decides whether to go on waiting for our promotion.
pub fn wait_for_promotion(
    status: &WorkerStatus,
    wallpaper_id: &str,
    content_hash: &str,
    overdue: bool,
    timeout_ms: u64,
) -> (waiting: Waiting)
    ensures
        match waiting {
            Waiting::Promoted => waiting_outcome(
                *status,
                wallpaper_id@,
                content_hash@,
                overdue,
                timeout_ms,
            ) == Some(Ok::<(), Seq<char>>(())),
            Waiting::KeepWaiting => waiting_outcome(
                *status,
                wallpaper_id@,
                content_hash@,
                overdue,
                timeout_ms,
            ) is None,
            Waiting::Failed(error) => error is Transaction && (waiting_outcome(
                *status,
                wallpaper_id@,
                content_hash@,
                overdue,
                timeout_ms,
            ) matches Some(Err(detail)) && error.text() == Some(detail)),
        },
{
    let ours: bool = status_is_ours(status, wallpaper_id, content_hash);
    if !ours && status.phase != WorkerPhase::Idle {
        return Waiting::Failed(ownership_error(status, wallpaper_id, content_hash));
    }
    let detail: Option<&str> = match &status.last_failure_detail {
        Some(text) => Some(text.as_str()),
        None => None,
    };
    match promotion_verdict(status.phase, ours, detail) {
        Some(Ok(())) => Waiting::Promoted,
        Some(Err(failure)) => {
            let mut text = "renderer did not promote (".to_owned();
            text.append(failure.as_str());
            text.append(")");
            Waiting::Failed(ApplyError::Transaction(text))
        },
        None => {
            if overdue {
                let mut text = "renderer did not promote within ".to_owned();
                push_decimal(&mut text, timeout_ms as u128);
                text.append(" ms");
                Waiting::Failed(ApplyError::Transaction(text))
            } else {
                Waiting::KeepWaiting
            }
        },
    }
}

/// Why the supervisor's answer to a start ends the transaction at once.
pub open spec fn start_refusal(started: WorkerStatus) -> Option<(bool, Seq<char>)> {
    let detail = failure_text(started.phase, probe::option_view(started.last_failure_detail));
    if started.phase == WorkerPhase::Quarantined || started.phase == WorkerPhase::RolledBack {
        if started.quarantined {
            Some(
                (
                    true,
                    "disabled after "@ + text::decimal(started.failures as nat)
                        + " failures under this build; last failure: "@ + detail,
                ),
            )
        } else {
            Some(
                (
                    false,
                    "renderer rejected the start ("@ + started.phase.name() + ": "@ + detail + ")"@,
                ),
            )
        }
    } else {
        None
    }
}

/// Accepts a start unless the supervisor answered with a terminal phase: a
/// quarantined record says why, a failed spawn is a failed transaction.
pub fn check_started(started: &WorkerStatus) -> (checked: Result<(), ApplyError>)
    ensures
        match checked {
            Ok(()) => start_refusal(*started) is None,
            Err(error) => match start_refusal(*started) {
                Some((true, detail)) => error is Quarantined && error.text() == Some(detail),
                Some((false, detail)) => error is Transaction && error.text() == Some(detail),
                None => false,
            },
        },
{
    if started.phase != WorkerPhase::Quarantined && started.phase != WorkerPhase::RolledBack {
        return Ok(());
    }
    let detail: String = match &started.last_failure_detail {
        Some(text) => text.clone(),
        None => phase_name(&started.phase).to_owned(),
    };
    if started.quarantined {
        let mut text = "disabled after ".to_owned();
        push_decimal(&mut text, started.failures as u128);
        text.append(" failures under this build; last failure: ");
        text.append(detail.as_str());
        return Err(ApplyError::Quarantined(text));
    }
    let mut text = "renderer rejected the start (".to_owned();
    text.append(phase_name(&started.phase));
    text.append(": ");
    text.append(detail.as_str());
    text.append(")");
    Err(ApplyError::Transaction(text))
}

// ---------------------------------------------------------------------------
// Switching and its verification
// ---------------------------------------------------------------------------

/// What a failed switch script is reported as.
pub fn switch_error(error: ProbeError) -> (mapped: ApplyError)
    ensures
        error is Unreachable ==> mapped is ShellUnreachable && mapped.text() == Some(error.text()),
        !(error is Unreachable) ==> mapped is Transaction && mapped.text() == Some(
            "wallpaper switch failed: "@ + error.text(),
        ),
{
    match error {
        ProbeError::Unreachable(detail) => ApplyError::ShellUnreachable(detail),
        other => ApplyError::Transaction(
            "wallpaper switch failed: ".to_owned().concat(other.message().as_str()),
        ),
    }
}

/// What a failed restore script is reported as.
pub fn restore_error(error: ProbeError) -> (mapped: ApplyError)
    ensures
        mapped.text() == Some(error.text()),
        error is Unreachable ==> mapped is ShellUnreachable,
        !(error is Unreachable) ==> mapped is RestoreFailed,
{
    match error {
        ProbeError::Unreachable(detail) => ApplyError::ShellUnreachable(detail),
        other => ApplyError::RestoreFailed(other.message()),
    }
}

/// The debug notation of a string: quoted, and escaped where that is needed.
pub uninterp spec fn debug_text(value: Seq<char>) -> Seq<char>;

/// The formatting of a string with `{:?}`. What the notation of a given string
/// is, is left to the name.
#[verifier::external_body]
fn debug_of(value: &str) -> (text: String)
    ensures
        text@ == debug_text(value@),
{
    format!("{:?}", value)
}

/// The debug notation of an optional string.
pub open spec fn debug_option(value: Option<String>) -> Seq<char> {
    match value {
        Some(text) => "Some("@ + debug_text(text@) + ")"@,
        None => "None"@,
    }
}

fn push_debug(out: &mut String, value: &Option<String>)
    ensures
        final(out)@ == old(out)@ + debug_option(*value),
{
    match value {
        Some(text) => {
            let ghost before = out@;
            out.append("Some(");
            let notation = debug_of(text.as_str());
            out.append(notation.as_str());
            out.append(")");
            assert(out@ =~= before + debug_option(*value));
        },
        None => out.append("None"),
    }
}

/// The debug notation of an optional number.
pub open spec fn index_text(index: Option<usize>) -> Seq<char> {
    match index {
        Some(number) => "Some("@ + text::decimal(number as nat) + ")"@,
        None => "None"@,
    }
}

/// The output shows the daemon's plugin on this desktop.
pub open spec fn switched_to_kwe(output: OutputInfo, desktop_index: usize) -> bool {
    shows_kwe(output) && output.desktop_index == Some(desktop_index)
}

/// Why a switch does not count as done.
pub open spec fn switch_refusal(
    outputs: Seq<OutputInfo>,
    name: Seq<char>,
    desktop_index: usize,
) -> Option<Seq<char>> {
    match output_named(outputs, name) {
        None => Some("post-switch verification: output "@ + name + " is gone"@),
        Some(output) => if switched_to_kwe(output, desktop_index) {
            None
        } else {
            Some(
                "post-switch verification failed: output "@ + name + " reports plugin "@
                    + debug_option(output.wallpaper_plugin) + " on desktop "@
                    + index_text(output.desktop_index)
                    + ", expected org.kde.kwe.wallpaper on desktop "@ + text::decimal(
                    desktop_index as nat,
                ),
            )
        },
    }
}

/// Whether the plugin is the daemon's own.
fn plugin_is(plugin: &Option<String>, expected: &str) -> (yes: bool)
    ensures
        yes == (probe::option_view(*plugin) == Some(expected@)),
{
    match plugin {
        Some(name) => same(name.as_str(), expected),
        None => false,
    }
}

/// Confirms a switch against a fresh enumeration: a script that silently did
/// nothing must not pass for a switch.
pub fn verify_switch(outputs: &Vec<OutputInfo>, output_name: &str, desktop_index: usize) -> (checked:
    Result<(), ApplyError>)
    ensures
        match checked {
            Ok(()) => switch_refusal(outputs@, output_name@, desktop_index) is None,
            Err(error) => error is Transaction && error.text() == switch_refusal(
                outputs@,
                output_name@,
                desktop_index,
            ),
        },
{
    let output: &OutputInfo = match find_output(outputs, output_name) {
        Some(output) => output,
        None => {
            let mut text = "post-switch verification: output ".to_owned();
            text.append(output_name);
            text.append(" is gone");
            return Err(ApplyError::Transaction(text));
        },
    };
    let on_desktop: bool = match output.desktop_index {
        Some(index) => index == desktop_index,
        None => false,
    };
    if on_desktop && plugin_is(&output.wallpaper_plugin, KWE_PLUGIN) {
        return Ok(());
    }
    let mut text = "post-switch verification failed: output ".to_owned();
    text.append(output_name);
    text.append(" reports plugin ");
    push_debug(&mut text, &output.wallpaper_plugin);
    text.append(" on desktop ");
    match output.desktop_index {
        Some(index) => {
            let mut number = "Some(".to_owned();
            push_decimal(&mut number, index as u128);
            number.append(")");
            text.append(number.as_str());
        },
        None => text.append("None"),
    }
    text.append(", expected org.kde.kwe.wallpaper on desktop ");
    push_decimal(&mut text, desktop_index as u128);
    Err(ApplyError::Transaction(text))
}

/// Why a restore does not count as done.
pub open spec fn restored_refusal(
    outputs: Seq<OutputInfo>,
    name: Seq<char>,
    expected: Seq<char>,
) -> Option<Seq<char>> {
    match output_named(outputs, name) {
        None => Some("post-restore verification: output "@ + name + " is gone"@),
        Some(output) => if probe::option_view(output.wallpaper_plugin) == Some(expected) {
            None
        } else {
            Some(
                "post-restore verification failed: output "@ + name + " reports plugin "@
                    + debug_option(output.wallpaper_plugin) + ", expected "@
                    + debug_text(expected),
            )
        },
    }
}

/// Confirms a restore against a fresh enumeration.
pub fn verify_restore(outputs: &Vec<OutputInfo>, output_name: &str, expected_plugin: &str) -> (checked:
    Result<(), ApplyError>)
    ensures
        match checked {
            Ok(()) => restored_refusal(outputs@, output_name@, expected_plugin@) is None,
            Err(error) => error is RestoreFailed && error.text() == restored_refusal(
                outputs@,
                output_name@,
                expected_plugin@,
            ),
        },
{
    let output: &OutputInfo = match find_output(outputs, output_name) {
        Some(output) => output,
        None => {
            let mut text = "post-restore verification: output ".to_owned();
            text.append(output_name);
            text.append(" is gone");
            return Err(ApplyError::RestoreFailed(text));
        },
    };
    if plugin_is(&output.wallpaper_plugin, expected_plugin) {
        return Ok(());
    }
    let mut text = "post-restore verification failed: output ".to_owned();
    text.append(output_name);
    text.append(" reports plugin ");
    push_debug(&mut text, &output.wallpaper_plugin);
    text.append(", expected ");
    let expected = debug_of(expected_plugin);
    text.append(expected.as_str());
    Err(ApplyError::RestoreFailed(text))
}

// ---------------------------------------------------------------------------
// Restoring
// ---------------------------------------------------------------------------

/// The stock images, in the order in which they are tried.
pub open spec fn stock_candidates() -> Seq<Seq<char>> {
    seq![
        "/usr/share/wallpapers/cachyos-wallpapers/Cachy depths 5K.png"@,
        "/usr/share/wallpapers/cachyos-wallpapers/Abstract.png"@,
        "/usr/share/wallpapers/Next/contents/images/Next.jpg"@,
    ]
}

/// The first stock image that is present, as `present` answers.
pub fn stock_image_path<P: Fn(&str) -> bool>(present: P) -> (image: Option<String>)
    requires
        forall|path: &str| call_requires(present, (path,)),
    ensures
        match image {
            Some(path) => exists|i: int|
                0 <= i < 3 && path@ == #[trigger] stock_candidates()[i] && (exists|asked: &str|
                    asked@ == path@ && #[trigger] call_ensures(present, (asked,), true)) && forall|
                    j: int,
                |
                    0 <= j < i ==> exists|asked: &str|
                        asked@ == #[trigger] stock_candidates()[j] && #[trigger] call_ensures(
                            present,
                            (asked,),
                            false,
                        ),
            None => forall|j: int|
                0 <= j < 3 ==> exists|asked: &str|
                    asked@ == #[trigger] stock_candidates()[j] && #[trigger] call_ensures(
                        present,
                        (asked,),
                        false,
                    ),
        },
{
    let first: &str = "/usr/share/wallpapers/cachyos-wallpapers/Cachy depths 5K.png";
    let second: &str = "/usr/share/wallpapers/cachyos-wallpapers/Abstract.png";
    let third: &str = "/usr/share/wallpapers/Next/contents/images/Next.jpg";
    assert(stock_candidates()[0] == first@);
    assert(stock_candidates()[1] == second@);
    assert(stock_candidates()[2] == third@);
    if present(first) {
        return Some(first.to_owned());
    }
    if present(second) {
        return Some(second.to_owned());
    }
    if present(third) {
        return Some(third.to_owned());
    }
    None
}

/// What a restore puts on the desktop, and where that comes from.
#[derive(Debug, PartialEq, Eq)]
pub struct RestoreTarget {
    pub wallpaper_plugin: String,
    pub config_group: Vec<String>,
    pub image: Option<String>,
    pub mode: &'static str,
}

/// The saved wallpaper that a restore may go back to: one that is not the
/// daemon's own.
pub open spec fn saved_wallpaper(stored: Option<assignments::AssignmentView>) -> Option<
    assignments::PreviousView,
> {
    match stored {
        Some(record) => match record.previous {
            Some(saved) => if saved.wallpaper_plugin != KWE_PLUGIN@ {
                Some(saved)
            } else {
                None
            },
            None => None,
        },
        None => None,
    }
}

/// What a restore goes back to, and its mode.
pub open spec fn restore_choice(
    stored: Option<assignments::AssignmentView>,
    stock_image: Option<Seq<char>>,
) -> (assignments::PreviousView, Seq<char>) {
    match saved_wallpaper(stored) {
        Some(saved) => (saved, "assignment"@),
        None => (
            assignments::PreviousView {
                wallpaper_plugin: IMAGE_PLUGIN@,
                config_group: seq!["Wallpaper"@, IMAGE_PLUGIN@, "General"@],
                image: stock_image,
            },
            "stock"@,
        ),
    }
}

/// What a restore goes back to: the saved wallpaper, or the stock image plugin
/// when there is none. It is never the daemon's own plugin.
pub fn restore_target(stored: Option<Assignment>, stock_image: Option<String>) -> (target:
    RestoreTarget)
    ensures
        ({
            let stored_record = match stored {
                Some(record) => Some(record@),
                None => None,
            };
            let (choice, mode) = restore_choice(stored_record, probe::option_view(stock_image));
            &&& target.wallpaper_plugin@ == choice.wallpaper_plugin
            &&& text::views(target.config_group@) == choice.config_group
            &&& probe::option_view(target.image) == choice.image
            &&& target.mode@ == mode
        }),
{
    match stored {
        Some(record) => match record.previous {
            Some(saved) => {
                if !same(saved.wallpaper_plugin.as_str(), KWE_PLUGIN) {
                    return RestoreTarget {
                        wallpaper_plugin: saved.wallpaper_plugin,
                        config_group: saved.config_group,
                        image: saved.image,
                        mode: "assignment",
                    };
                }
            },
            None => {},
        },
        None => {},
    }
    let mut group: Vec<String> = Vec::new();
    group.push("Wallpaper".to_owned());
    group.push(IMAGE_PLUGIN.to_owned());
    group.push("General".to_owned());
    assert(text::views(group@) =~= seq!["Wallpaper"@, IMAGE_PLUGIN@, "General"@]);
    RestoreTarget {
        wallpaper_plugin: IMAGE_PLUGIN.to_owned(),
        config_group: group,
        image: stock_image,
        mode: "stock",
    }
}

/// A restore never leaves a desktop to the daemon's renderer.
pub proof fn law_restore_never_targets_the_daemon(
    stored: Option<assignments::AssignmentView>,
    stock_image: Option<Seq<char>>,
)
    ensures
        restore_choice(stored, stock_image).0.wallpaper_plugin != KWE_PLUGIN@,
{
    reveal_strlit("org.kde.kwe.wallpaper");
    reveal_strlit("org.kde.image");
    assert(KWE_PLUGIN@.len() == 21 && IMAGE_PLUGIN@.len() == 13);
}

// ---------------------------------------------------------------------------
// The output that a playlist applies to
// ---------------------------------------------------------------------------

/// The output carries one of the playlist's entries.
pub open spec fn carries_entry(
    records: Map<Seq<char>, Assignment>,
    entries: Map<Seq<char>, ()>,
    output: Seq<char>,
) -> bool {
    records.contains_key(output) && entries.contains_key(records[output].wallpaper_id@)
}

/// `first` was assigned after `second`; of two assignments made in the same
/// second, the one on the output that comes first by name counts as later.
pub open spec fn assigned_after(
    records: Map<Seq<char>, Assignment>,
    first: Seq<char>,
    second: Seq<char>,
) -> bool {
    let a = records[first].applied_at_unix_seconds;
    let b = records[second].applied_at_unix_seconds;
    a > b || (a == b && names::precedes(first, second))
}

/// `output` is the last assigned output among those that carry an entry of the
/// playlist.
pub open spec fn last_assigned(
    records: Map<Seq<char>, Assignment>,
    entries: Map<Seq<char>, ()>,
    output: Seq<char>,
) -> bool {
    carries_entry(records, entries, output) && forall|other: Seq<char>| #[trigger]
        carries_entry(records, entries, other) && other != output ==> assigned_after(
            records,
            output,
            other,
        )
}

/// No output carries an entry of the playlist.
pub open spec fn none_carries(
    records: Map<Seq<char>, Assignment>,
    entries: Map<Seq<char>, ()>,
) -> bool {
    forall|other: Seq<char>| !#[trigger] carries_entry(records, entries, other)
}

/// The last assigned output that carries one of the entries.
pub fn last_assigned_output(store: &AssignmentStore, entries: &NameMap<()>) -> (output: Option<
    String,
>)
    requires
        store.wf(),
        entries.wf(),
    ensures
        match output {
            Some(name) => last_assigned(store@, entries@, name@),
            None => none_carries(store@, entries@),
        },
{
    let records: &NameMap<Assignment> = store.all();
    let count: usize = records.len();
    let ghost names = records.names();
    let mut best: Option<usize> = None;
    let mut i: usize = 0;
    proof {
        records.lemma_names();
    }
    while i < count
        invariant
            records.wf(),
            entries.wf(),
            records@ == store@,
            names == records.names(),
            count == names.len(),
            i <= count,
            forall|a: int, b: int|
                0 <= a < b < names.len() ==> names::precedes(
                    #[trigger] names[a],
                    #[trigger] names[b],
                ),
            match best {
                Some(k) => k < i && carries_entry(store@, entries@, names[k as int]) && forall|
                    j: int,
                |
                    0 <= j < i && j != k && carries_entry(store@, entries@, #[trigger] names[j])
                        ==> assigned_after(store@, names[k as int], names[j]),
                None => forall|j: int|
                    0 <= j < i ==> !carries_entry(store@, entries@, #[trigger] names[j]),
            },
        decreases count - i,
    {
        let name = records.name_at(i);
        let record = records.value_at(i);
        if entries.contains(record.wallpaper_id.as_str()) {
            assert(carries_entry(store@, entries@, names[i as int]));
            match best {
                Some(k) => {
                    assert(names::precedes(names[k as int], names[i as int]));
                    if record.applied_at_unix_seconds > records.value_at(k).applied_at_unix_seconds {
                        best = Some(i);
                    }
                },
                None => {
                    best = Some(i);
                },
            }
        }
        i = i + 1;
    }
    proof {
        records.lemma_names();
        assert forall|other: Seq<char>| #[trigger] carries_entry(
            store@,
            entries@,
            other,
        ) implies exists|j: int| 0 <= j < count && #[trigger] names[j] == other by {
            assert(records@.contains_key(other));
            assert(names.contains(other));
        }
    }
    match best {
        Some(k) => Some(records.name_at(k).clone()),
        None => None,
    }
}

/// The position of the first enabled, connected output, or the end.
pub open spec fn live_position(outputs: Seq<OutputInfo>, from: nat) -> nat
    decreases outputs.len() - from,
{
    if from >= outputs.len() {
        outputs.len()
    } else if outputs[from as int].enabled && outputs[from as int].connected {
        from
    } else {
        live_position(outputs, from + 1)
    }
}

/// The output that a playlist without a configured one applies to: the last
/// assigned one while it is still there, else the first enabled, connected one.
pub open spec fn playlist_output(stored: Option<Seq<char>>, outputs: Seq<OutputInfo>) -> Option<
    Seq<char>,
> {
    match stored {
        Some(name) => if output_named(outputs, name) is Some {
            Some(name)
        } else {
            first_live(outputs)
        },
        None => first_live(outputs),
    }
}

pub open spec fn first_live(outputs: Seq<OutputInfo>) -> Option<Seq<char>> {
    let at = live_position(outputs, 0);
    if at < outputs.len() {
        Some(outputs[at as int].name@)
    } else {
        None
    }
}

/// Picks the output of a playlist from a fresh enumeration.
pub fn pick_output(stored: Option<String>, outputs: &Vec<OutputInfo>) -> (picked: Result<
    String,
    ApplyError,
>)
    ensures
        match picked {
            Ok(name) => playlist_output(probe::option_view(stored), outputs@) == Some(name@),
            Err(error) => playlist_output(probe::option_view(stored), outputs@) is None
                && error is OutputMissing && error.text() == Some("no enabled, connected output"@),
        },
{
    match stored {
        Some(name) => {
            if find_output(outputs, name.as_str()).is_some() {
                return Ok(name);
            }
        },
        None => {},
    }
    let mut i: usize = 0;
    while i < outputs.len()
        invariant
            i <= outputs@.len(),
            live_position(outputs@, 0) == live_position(outputs@, i as nat),
            playlist_output(probe::option_view(stored), outputs@) == first_live(outputs@),
        decreases outputs.len() - i,
    {
        if outputs[i].enabled && outputs[i].connected {
            return Ok(outputs[i].name.clone());
        }
        i = i + 1;
    }
    Err(ApplyError::OutputMissing("no enabled, connected output".to_owned()))
}

/// The output that a playlist applies to. A configured output wins and is
/// checked as an identity; otherwise `enumerate` says what is there, and the
/// last assigned output that carries one of the entries is taken while it is
/// there.
pub fn resolve_playlist_output<F: FnOnce() -> Result<Vec<OutputInfo>, ApplyError>>(
    output: Option<&str>,
    store: &AssignmentStore,
    playlist_entries: &NameMap<()>,
    enumerate: F,
) -> (resolved: Result<String, ApplyError>)
    requires
        store.wf(),
        playlist_entries.wf(),
        output is None ==> call_requires(enumerate, ()),
    ensures
        match output {
            Some(configured) => match resolved {
                Ok(name) => identity::valid_identity(configured@) && name@ == configured@,
                Err(error) => !identity::valid_identity(configured@) && error is Invalid
                    && error.text() == Some(identity::identity_error("output"@)),
            },
            None => {
                ||| resolved matches Err(error) && call_ensures(enumerate, (), Err(error))
                ||| exists|outputs: Vec<OutputInfo>, stored: Option<Seq<char>>|
                    {
                        &&& #[trigger] call_ensures(enumerate, (), Ok(outputs))
                        &&& match stored {
                            Some(name) => last_assigned(store@, playlist_entries@, name),
                            None => forall|other: Seq<char>|
                                !#[trigger] carries_entry(store@, playlist_entries@, other),
                        }
                        &&& match resolved {
                            Ok(name) => #[trigger] playlist_output(stored, outputs@) == Some(name@),
                            Err(error) => playlist_output(stored, outputs@) is None
                                && error is OutputMissing && error.text() == Some(
                                "no enabled, connected output"@,
                            ),
                        }
                    }
            },
        },
{
    match output {
        Some(configured) => {
            return match validate_identity_part("output", configured) {
                Ok(()) => Ok(configured.to_owned()),
                Err(error) => Err(ApplyError::Invalid(error)),
            }
        },
        None => {},
    }
    let stored = last_assigned_output(store, playlist_entries);
    let ghost chosen = probe::option_view(stored);
    match enumerate() {
        Ok(outputs) => {
            let picked = pick_output(stored, &outputs);
            assert(call_ensures(enumerate, (), Ok(outputs)));
            assert(playlist_output(chosen, outputs@) == playlist_output(chosen, outputs@));
            picked
        },
        Err(error) => Err(error),
    }
}

} // verus!
