//! Whether the daemon still runs the binary that is installed.
//!
//! An upgrade puts another file in the place of the binary while the daemon
//! runs on. Its device and inode tell.

use vstd::prelude::*;

use crate::text;
use crate::text::{chars_of, stands_at, string_of};

verus! {

/// What the kernel puts behind the name of a binary that is gone.
pub const DELETED_SUFFIX: &'static str = " (deleted)";

/// A path without the mark of a binary that is gone.
pub open spec fn bare_path(path: Seq<char>) -> Seq<char> {
    if text::ends_with(path, DELETED_SUFFIX@) {
        path.take(path.len() - DELETED_SUFFIX@.len())
    } else {
        path
    }
}

fn without_deleted(path: &str) -> (bare: String)
    ensures
        bare@ == bare_path(path@),
{
    let chars = chars_of(path);
    let suffix = chars_of(DELETED_SUFFIX);
    if chars.len() >= suffix.len() && stands_at(&chars, &suffix, chars.len() - suffix.len()) {
        let bare = string_of(&chars, 0, chars.len() - suffix.len());
        assert(bare@ =~= path@.take(path@.len() - suffix@.len()));
        assert(text::ends_with(path@, DELETED_SUFFIX@));
        bare
    } else {
        assert(!text::ends_with(path@, DELETED_SUFFIX@));
        path.to_owned()
    }
}

/// The binary that the daemon was started from.
#[derive(Debug, Clone, PartialEq, Eq)]
pub struct InstalledBinary {
    path: String,
    device: u64,
    inode: u64,
}

impl InstalledBinary {
    /// Where it is installed.
    pub closed spec fn place(&self) -> Seq<char> {
        self.path@
    }

    /// The device and inode that it had.
    pub closed spec fn file(&self) -> (u64, u64) {
        (self.device, self.inode)
    }

    /// The binary at `path` as `stat` finds it now, by device and inode. There
    /// is none if `stat` finds none.
    pub fn for_path<F: FnOnce(&str) -> Option<(u64, u64)>>(path: &str, stat: F) -> (binary: Option<
        Self,
    >)
        requires
            forall|asked: &str|
                asked@ == bare_path(path@) ==> #[trigger] call_requires(stat, (asked,)),
        ensures
            exists|asked: &str, found: Option<(u64, u64)>|
                {
                    &&& asked@ == bare_path(path@)
                    &&& #[trigger] call_ensures(stat, (asked,), found)
                    &&& match (found, binary) {
                        (Some(file), Some(binary)) => binary.place() == bare_path(path@)
                            && binary.file() == file,
                        (None, None) => true,
                        _ => false,
                    }
                },
    {
        let bare = without_deleted(path);
        let asked: &str = bare.as_str();
        let found: Option<(u64, u64)> = stat(asked);
        assert(asked@ == bare_path(path@) && call_ensures(stat, (asked,), found));
        match found {
            Some((device, inode)) => Some(InstalledBinary { path: bare, device, inode }),
            None => None,
        }
    }

    /// Whether the file at its path is another one now, or none. A file that
    /// cannot be looked at counts as gone: that is what an upgrade looks like
    /// in its middle.
    pub fn is_stale(&self, current: Option<(u64, u64)>) -> (stale: bool)
        ensures
            stale == (current != Some(self.file())),
    {
        match current {
            Some((device, inode)) => device != self.device || inode != self.inode,
            None => true,
        }
    }

    /// Where it is installed.
    pub fn path(&self) -> (path: &str)
        ensures
            path@ == self.place(),
    {
        self.path.as_str()
    }
}

/// What the daemon knows of its own binary: nothing until it has looked, and
/// then what it found, for good.
pub struct Installed {
    pub captured: Option<Option<InstalledBinary>>,
}

/// The binary that was found first, if one was.
pub open spec fn known(installed: Installed) -> Option<InstalledBinary> {
    match installed.captured {
        Some(binary) => binary,
        None => None,
    }
}

/// Takes up what the daemon's binary is, the first time.
pub fn init(installed: &mut Installed, captured: Option<InstalledBinary>)
    ensures
        final(installed).captured == (match old(installed).captured {
            Some(binary) => Some(binary),
            None => Some(captured),
        }),
{
    if installed.captured.is_none() {
        installed.captured = Some(captured);
    }
}

/// Whether the binary is known and is not the one at its path any more.
pub fn is_stale(installed: &Installed, current: Option<(u64, u64)>) -> (stale: bool)
    ensures
        stale == (match known(*installed) {
            Some(binary) => current != Some(binary.file()),
            None => false,
        }),
{
    match &installed.captured {
        Some(Some(binary)) => binary.is_stale(current),
        Some(None) => false,
        None => false,
    }
}

/// What a user of a stale daemon is told.
pub open spec fn stale_text(path: Seq<char>) -> Seq<char> {
    "the wallpaper service binary "@ + path
        + " was replaced after the service started (package upgrade); restart it with `systemctl --user daemon-reload && systemctl --user restart kwe-daemon`, then apply again"@
}

/// What a user of a stale daemon is told, with the command that helps.
pub fn stale_detail(binary: &InstalledBinary) -> (detail: String)
    ensures
        detail@ == stale_text(binary.place()),
{
    let mut detail = "the wallpaper service binary ".to_owned();
    detail.append(binary.path());
    detail.append(
        " was replaced after the service started (package upgrade); restart it with `systemctl --user daemon-reload && systemctl --user restart kwe-daemon`, then apply again",
    );
    detail
}

/// The error code and detail that a stale daemon answers an apply with.
pub fn stale_error(installed: &Installed, current: Option<(u64, u64)>) -> (error: Option<
    (String, String),
>)
    ensures
        match known(*installed) {
            Some(binary) => if current != Some(binary.file()) {
                error matches Some((code, detail)) && code@ == "service_stale"@ && detail@
                    == stale_text(binary.place())
            } else {
                error is None
            },
            None => error is None,
        },
{
    match &installed.captured {
        Some(Some(binary)) => {
            if binary.is_stale(current) {
                Some(("service_stale".to_owned(), stale_detail(binary)))
            } else {
                None
            }
        },
        Some(None) => None,
        None => None,
    }
}

// ---------------------------------------------------------------------------
// Laws
// ---------------------------------------------------------------------------

/// The mark of a binary that is gone is not part of its path.
pub proof fn law_deleted_mark_is_dropped(path: Seq<char>)
    ensures
        bare_path(path + DELETED_SUFFIX@) == path,
{
    let marked = path + DELETED_SUFFIX@;
    assert(marked.subrange(path.len() as int, marked.len() as int) =~= DELETED_SUFFIX@);
    assert(text::ends_with(marked, DELETED_SUFFIX@));
    assert(marked.take(marked.len() - DELETED_SUFFIX@.len()) =~= path);
}

} // verus!
