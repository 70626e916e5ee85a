//! The command lines that web wallpapers run under: a browser inside `bwrap`,
//! without the network unless it is granted.

use vstd::prelude::*;

use crate::text;
use crate::text::{chars_of, find_char, push_decimal, read_unsigned, same, string_of};

verus! {

/// A program and its arguments.
#[derive(Debug, Clone, PartialEq, Eq)]
pub struct WebSandboxCommand {
    pub program: String,
    pub arguments: Vec<String>,
}

pub open spec fn literals(strings: Seq<&str>) -> Seq<Seq<char>> {
    Seq::new(strings.len(), |i: int| strings[i]@)
}

/// Appends copies of `more`.
fn extend(arguments: &mut Vec<String>, more: &[&str])
    ensures
        text::views(final(arguments)@) == text::views(old(arguments)@) + literals(more@),
{
    let ghost before = text::views(arguments@);
    let mut i: usize = 0;
    assert(literals(more@).take(0) =~= Seq::empty());
    assert(before + Seq::<Seq<char>>::empty() =~= before);
    while i < more.len()
        invariant
            i <= more@.len(),
            text::views(arguments@) == before + literals(more@).take(i as int),
        decreases more.len() - i,
    {
        let ghost earlier = text::views(arguments@);
        arguments.push(more[i].to_owned());
        proof {
            let all = literals(more@);
            assert(text::views(arguments@) =~= earlier.push(all[i as int]));
            assert(all.take(i + 1) =~= all.take(i as int).push(all[i as int]));
            assert(before + all.take(i + 1) =~= (before + all.take(i as int)).push(all[i as int]));
        }
        i = i + 1;
    }
    assert(literals(more@).take(more@.len() as int) =~= literals(more@));
}

/// What keeps the network out.
pub open spec fn network_options(network_allowed: bool) -> Seq<Seq<char>> {
    if network_allowed {
        seq![]
    } else {
        seq!["--unshare-net"@]
    }
}

// ---------------------------------------------------------------------------
// The plain browser
// ---------------------------------------------------------------------------

pub open spec fn plain_arguments(root: Seq<char>, network_allowed: bool) -> Seq<Seq<char>> {
    network_options(network_allowed) + seq![
        "--die-with-parent"@,
        "--new-session"@,
        "--ro-bind"@,
        root,
        "/wallpaper"@,
        "--proc"@,
        "/proc"@,
        "--dev"@,
        "/dev"@,
        "--tmpfs"@,
        "/tmp"@,
        "--chdir"@,
        "/wallpaper"@,
        "--"@,
        "chromium"@,
        "--no-first-run"@,
        "--no-default-browser-check"@,
        "--disable-extensions"@,
        "--user-data-dir=/tmp/kwe-chromium"@,
        "file:///wallpaper/index.html"@,
    ]
}

/// A browser that sees the content at `root` and nothing else.
pub fn chromium_command(root: &str, network_allowed: bool) -> (command: WebSandboxCommand)
    ensures
        command.program@ == "bwrap"@,
        text::views(command.arguments@) == plain_arguments(root@, network_allowed),
{
    let mut arguments: Vec<String> = network_arguments(network_allowed);
    extend(
        &mut arguments,
        &[
            "--die-with-parent",
            "--new-session",
            "--ro-bind",
            root,
            "/wallpaper",
            "--proc",
            "/proc",
            "--dev",
            "/dev",
            "--tmpfs",
            "/tmp",
            "--chdir",
            "/wallpaper",
            "--",
            "chromium",
            "--no-first-run",
            "--no-default-browser-check",
            "--disable-extensions",
            "--user-data-dir=/tmp/kwe-chromium",
            "file:///wallpaper/index.html",
        ],
    );
    assert(text::views(arguments@) =~= plain_arguments(root@, network_allowed));
    WebSandboxCommand { program: "bwrap".to_owned(), arguments }
}

fn network_arguments(network_allowed: bool) -> (arguments: Vec<String>)
    ensures
        text::views(arguments@) == network_options(network_allowed),
{
    let mut arguments: Vec<String> = Vec::new();
    if !network_allowed {
        arguments.push("--unshare-net".to_owned());
    }
    assert(text::views(arguments@) =~= network_options(network_allowed));
    arguments
}

// ---------------------------------------------------------------------------
// The isolated browser
// ---------------------------------------------------------------------------

/// The isolation that every web wallpaper runs under: the browser's own system
/// paths read-only, the content at `/wallpaper`, a throwaway `/tmp`.
pub open spec fn isolation(root: Seq<char>, network_allowed: bool) -> Seq<Seq<char>> {
    network_options(network_allowed) + seq![
        "--die-with-parent"@,
        "--new-session"@,
        "--ro-bind"@,
        "/usr"@,
        "/usr"@,
        "--ro-bind"@,
        "/etc"@,
        "/etc"@,
        "--ro-bind"@,
        "/lib"@,
        "/lib"@,
        "--ro-bind"@,
        "/lib64"@,
        "/lib64"@,
        "--ro-bind"@,
        "/bin"@,
        "/bin"@,
        "--ro-bind"@,
        "/sbin"@,
        "/sbin"@,
        "--ro-bind"@,
        root,
        "/wallpaper"@,
        "--proc"@,
        "/proc"@,
        "--dev"@,
        "/dev"@,
        "--tmpfs"@,
        "/tmp"@,
        "--chdir"@,
        "/wallpaper"@,
    ]
}

fn isolation_arguments(root: &str, network_allowed: bool) -> (arguments: Vec<String>)
    ensures
        text::views(arguments@) == isolation(root@, network_allowed),
{
    let mut arguments: Vec<String> = network_arguments(network_allowed);
    extend(
        &mut arguments,
        &[
            "--die-with-parent",
            "--new-session",
            "--ro-bind",
            "/usr",
            "/usr",
            "--ro-bind",
            "/etc",
            "/etc",
            "--ro-bind",
            "/lib",
            "/lib",
            "--ro-bind",
            "/lib64",
            "/lib64",
            "--ro-bind",
            "/bin",
            "/bin",
            "--ro-bind",
            "/sbin",
            "/sbin",
            "--ro-bind",
            root,
            "/wallpaper",
            "--proc",
            "/proc",
            "--dev",
            "/dev",
            "--tmpfs",
            "/tmp",
            "--chdir",
            "/wallpaper",
        ],
    );
    assert(text::views(arguments@) =~= isolation(root@, network_allowed));
    arguments
}

pub open spec fn window_size(width: u32, height: u32) -> Seq<char> {
    "--window-size="@ + text::decimal(width as nat) + ","@ + text::decimal(height as nat)
}

/// The headless browser that is driven through a pipe.
pub open spec fn renderer_program(width: u32, height: u32) -> Seq<Seq<char>> {
    seq![
        "--"@,
        "chromium"@,
        "--headless=new"@,
        "--no-sandbox"@,
        "--disable-dev-shm-usage"@,
        "--disable-gpu"@,
        "--no-first-run"@,
        "--no-default-browser-check"@,
        "--disable-extensions"@,
        "--remote-debugging-pipe"@,
        window_size(width, height),
        "--user-data-dir=/tmp/kwe-profile"@,
        "file:///wallpaper/index.html"@,
    ]
}

/// The supervised web renderer.
pub fn web_renderer_command(root: &str, network_allowed: bool, width: u32, height: u32) -> (command:
    WebSandboxCommand)
    ensures
        command.program@ == "bwrap"@,
        text::views(command.arguments@) == isolation(root@, network_allowed) + renderer_program(
            width,
            height,
        ),
{
    let mut arguments = isolation_arguments(root, network_allowed);
    let mut size = "--window-size=".to_owned();
    push_decimal(&mut size, width as u128);
    size.append(",");
    push_decimal(&mut size, height as u128);
    extend(
        &mut arguments,
        &[
            "--",
            "chromium",
            "--headless=new",
            "--no-sandbox",
            "--disable-dev-shm-usage",
            "--disable-gpu",
            "--no-first-run",
            "--no-default-browser-check",
            "--disable-extensions",
            "--remote-debugging-pipe",
            size.as_str(),
            "--user-data-dir=/tmp/kwe-profile",
            "file:///wallpaper/index.html",
        ],
    );
    assert(text::views(arguments@) =~= isolation(root@, network_allowed) + renderer_program(
        width,
        height,
    ));
    WebSandboxCommand { program: "bwrap".to_owned(), arguments }
}

// ---------------------------------------------------------------------------
// Displays
// ---------------------------------------------------------------------------

/// What stands between the colon and the first dot.
pub open spec fn display_digits(display: Seq<char>) -> Seq<char> {
    let rest = display.skip(1);
    rest.take(text::index_of(rest, '.', 0) as int)
}

/// The number of a local X11 display: `:N` or `:N.S`. A display on a host has
/// none.
pub open spec fn x11_number(display: Seq<char>) -> Option<nat> {
    let digits = display_digits(display);
    if display.len() > 0 && display[0] == ':' && digits.len() > 0 && text::all_digits(digits)
        && text::digits_value(digits) <= u32::MAX {
        Some(text::digits_value(digits))
    } else {
        None
    }
}

/// The number of a local X11 display.
pub fn x11_display_number(display: &str) -> (number: Option<u32>)
    ensures
        match number {
            Some(n) => x11_number(display@) == Some(n as nat),
            None => x11_number(display@) is None,
        },
{
    let chars = chars_of(display);
    if chars.len() == 0 || chars[0] != ':' {
        return None;
    }
    let rest = chars_of(string_of(&chars, 1, chars.len()).as_str());
    assert(rest@ =~= display@.skip(1));
    let end: usize = find_char(&rest, '.', 0);
    assert(rest@.subrange(0, end as int) =~= display_digits(display@));
    if end > 0 && rest[0] == '+' {
        assert(!text::is_digit(display_digits(display@)[0]));
        return None;
    }
    match read_unsigned(&rest, 0, end, u32::MAX as u64) {
        Some(n) => Some(n as u32),
        None => None,
    }
}

/// A directory without the slashes at its end.
pub open spec fn without_slashes(path: Seq<char>) -> Seq<char>
    decreases path.len(),
{
    if path.len() > 0 && path.last() == '/' {
        without_slashes(path.drop_last())
    } else {
        path
    }
}

fn trim_slashes(path: &str) -> (bare: String)
    ensures
        bare@ == without_slashes(path@),
{
    let chars = chars_of(path);
    let mut end: usize = chars.len();
    assert(chars@.take(end as int) =~= chars@);
    while end > 0 && chars[end - 1] == '/'
        invariant
            end <= chars@.len(),
            chars@ == path@,
            without_slashes(chars@.take(end as int)) == without_slashes(path@),
        decreases end,
    {
        assert(chars@.take(end as int).drop_last() =~= chars@.take(end - 1));
        end = end - 1;
    }
    let bare = string_of(&chars, 0, end);
    assert(bare@ =~= chars@.take(end as int));
    bare
}

pub open spec fn bind(source: Seq<char>) -> Seq<Seq<char>> {
    seq!["--ro-bind"@, source, source]
}

/// The directory of the X11 sockets, for a local X11 display.
pub open spec fn x11_socket(display: Option<&str>) -> Option<Seq<char>> {
    match display {
        Some(name) => if x11_number(name@) is Some {
            Some("/tmp/.X11-unix"@)
        } else {
            None
        },
        None => None,
    }
}

/// The file of the Wayland socket. A session without one says so with an empty
/// name or with `none`.
pub open spec fn wayland_socket(
    wayland_display: Option<&str>,
    xdg_runtime_dir: Option<&str>,
) -> Option<Seq<char>> {
    match (wayland_display, xdg_runtime_dir) {
        (Some(name), Some(runtime)) => if name@.len() > 0 && name@ != "none"@ {
            Some(without_slashes(runtime@) + "/"@ + name@)
        } else {
            None
        },
        _ => None,
    }
}

pub open spec fn binds_of(socket: Option<Seq<char>>) -> Seq<Seq<char>> {
    match socket {
        Some(source) => bind(source),
        None => seq![],
    }
}

fn find_x11_socket(display: Option<&str>) -> (socket: Option<String>)
    ensures
        crate::probe::option_view(socket) == x11_socket(display),
{
    match display {
        Some(name) => if x11_display_number(name).is_some() {
            Some("/tmp/.X11-unix".to_owned())
        } else {
            None
        },
        None => None,
    }
}

fn find_wayland_socket(wayland_display: Option<&str>, xdg_runtime_dir: Option<&str>) -> (socket:
    Option<String>)
    ensures
        crate::probe::option_view(socket) == wayland_socket(wayland_display, xdg_runtime_dir),
{
    match (wayland_display, xdg_runtime_dir) {
        (Some(name), Some(runtime)) => {
            if name.unicode_len() > 0 && !same(name, "none") {
                let mut socket = trim_slashes(runtime);
                socket.append("/");
                socket.append(name);
                Some(socket)
            } else {
                None
            }
        },
        _ => None,
    }
}

/// The read-only binds that let a windowed browser reach the session's
/// displays. Nothing is looked up; whoever starts the browser leaves out what
/// is not there.
pub fn display_binds(
    display: Option<&str>,
    wayland_display: Option<&str>,
    xdg_runtime_dir: Option<&str>,
) -> (binds: Vec<String>)
    ensures
        text::views(binds@) == binds_of(x11_socket(display)) + binds_of(
            wayland_socket(wayland_display, xdg_runtime_dir),
        ),
{
    let mut binds: Vec<String> = Vec::new();
    assert(text::views(binds@) =~= seq![]);
    let x11 = find_x11_socket(display);
    match &x11 {
        Some(source) => {
            extend(&mut binds, &["--ro-bind", source.as_str(), source.as_str()]);
        },
        None => {},
    }
    assert(text::views(binds@) =~= binds_of(x11_socket(display)));
    let wayland = find_wayland_socket(wayland_display, xdg_runtime_dir);
    match &wayland {
        Some(source) => {
            extend(&mut binds, &["--ro-bind", source.as_str(), source.as_str()]);
        },
        None => {},
    }
    assert(text::views(binds@) =~= binds_of(x11_socket(display)) + binds_of(
        wayland_socket(wayland_display, xdg_runtime_dir),
    ));
    binds
}

// ---------------------------------------------------------------------------
// The preview
// ---------------------------------------------------------------------------

/// The browser with a window.
pub open spec fn preview_program() -> Seq<Seq<char>> {
    seq![
        "--"@,
        "chromium"@,
        "--no-sandbox"@,
        "--disable-dev-shm-usage"@,
        "--no-first-run"@,
        "--no-default-browser-check"@,
        "--disable-extensions"@,
        "--user-data-dir=/tmp/kwe-preview-profile"@,
        "file:///wallpaper/index.html"@,
    ]
}

/// `present` is what `exists` can say of a socket, if there is one.
pub open spec fn looked_up<F: Fn(&str) -> bool>(
    socket: Option<Seq<char>>,
    exists_at: F,
    present: Option<Seq<char>>,
) -> bool {
    match socket {
        Some(source) => exists|asked: &str, answer: bool|
            {
                &&& asked@ == source
                &&& #[trigger] call_ensures(exists_at, (asked,), answer)
                &&& present == if answer {
                    Some(source)
                } else {
                    None
                }
            },
        None => present is None,
    }
}

fn keep_present<F: Fn(&str) -> bool>(socket: Option<String>, exists_at: &F) -> (present: Option<
    String,
>)
    requires
        forall|asked: &str| call_requires(*exists_at, (asked,)),
    ensures
        looked_up(
            crate::probe::option_view(socket),
            *exists_at,
            crate::probe::option_view(present),
        ),
{
    match socket {
        Some(source) => {
            let asked: &str = source.as_str();
            let answer: bool = exists_at(asked);
            assert(asked@ == source@ && call_ensures(*exists_at, (asked,), answer));
            if answer {
                Some(source)
            } else {
                None
            }
        },
        None => None,
    }
}

/// The preview's command line over the sockets that are there.
pub open spec fn preview_arguments(
    root: Seq<char>,
    network_allowed: bool,
    x11: Option<Seq<char>>,
    wayland: Option<Seq<char>>,
) -> Seq<Seq<char>> {
    isolation(root, network_allowed) + binds_of(x11) + binds_of(wayland) + preview_program()
}

/// `arguments` is a preview over sockets that are there as far as `exists_at`
/// says.
pub open spec fn previews<F: Fn(&str) -> bool>(
    root: Seq<char>,
    network_allowed: bool,
    x11: Option<Seq<char>>,
    wayland: Option<Seq<char>>,
    exists_at: F,
    arguments: Seq<Seq<char>>,
) -> bool {
    exists|a: Option<Seq<char>>, b: Option<Seq<char>>|
        {
            &&& looked_up(x11, exists_at, a)
            &&& looked_up(wayland, exists_at, b)
            &&& arguments == #[trigger] preview_arguments(root, network_allowed, a, b)
        }
}

/// The preview that the user sees: the same isolation, a window, and the
/// session's display sockets as far as they are there.
pub fn web_preview_command<F: Fn(&str) -> bool>(
    root: &str,
    network_allowed: bool,
    display: Option<&str>,
    wayland_display: Option<&str>,
    xdg_runtime_dir: Option<&str>,
    exists_at: F,
) -> (command: WebSandboxCommand)
    requires
        forall|asked: &str| call_requires(exists_at, (asked,)),
    ensures
        command.program@ == "bwrap"@,
        previews(
            root@,
            network_allowed,
            x11_socket(display),
            wayland_socket(wayland_display, xdg_runtime_dir),
            exists_at,
            text::views(command.arguments@),
        ),
{
    let mut arguments = isolation_arguments(root, network_allowed);
    let x11 = keep_present(find_x11_socket(display), &exists_at);
    match &x11 {
        Some(source) => {
            extend(&mut arguments, &["--ro-bind", source.as_str(), source.as_str()]);
        },
        None => {},
    }
    let ghost a = crate::probe::option_view(x11);
    assert(text::views(arguments@) =~= isolation(root@, network_allowed) + binds_of(a));
    let wayland = keep_present(
        find_wayland_socket(wayland_display, xdg_runtime_dir),
        &exists_at,
    );
    match &wayland {
        Some(source) => {
            extend(&mut arguments, &["--ro-bind", source.as_str(), source.as_str()]);
        },
        None => {},
    }
    let ghost b = crate::probe::option_view(wayland);
    assert(text::views(arguments@) =~= isolation(root@, network_allowed) + binds_of(a) + binds_of(
        b,
    ));
    extend(
        &mut arguments,
        &[
            "--",
            "chromium",
            "--no-sandbox",
            "--disable-dev-shm-usage",
            "--no-first-run",
            "--no-default-browser-check",
            "--disable-extensions",
            "--user-data-dir=/tmp/kwe-preview-profile",
            "file:///wallpaper/index.html",
        ],
    );
    assert(text::views(arguments@) =~= preview_arguments(root@, network_allowed, a, b));
    WebSandboxCommand { program: "bwrap".to_owned(), arguments }
}

/// The content root of a web wallpaper: a directory that holds an
/// `index.html`. `canonical` is where the path leads, if anywhere.
pub fn sandbox_root(canonical: Option<String>, is_dir: bool, has_index: bool) -> (root: Option<
    String,
>)
    ensures
        root == (if is_dir && has_index {
            canonical
        } else {
            None
        }),
{
    if is_dir && has_index {
        canonical
    } else {
        None
    }
}

// ---------------------------------------------------------------------------
// Laws
// ---------------------------------------------------------------------------

/// The isolated browser has no network unless it is granted: the first thing
/// that every command line says is that there is none, and one with a grant
/// does not say it.
pub proof fn law_no_network_without_a_grant(
    root: Seq<char>,
    x11: Option<Seq<char>>,
    wayland: Option<Seq<char>>,
    width: u32,
    height: u32,
)
    ensures
        plain_arguments(root, false)[0] == "--unshare-net"@,
        (isolation(root, false) + renderer_program(width, height))[0] == "--unshare-net"@,
        preview_arguments(root, false, x11, wayland)[0] == "--unshare-net"@,
        plain_arguments(root, true)[0] == "--die-with-parent"@,
        (isolation(root, true) + renderer_program(width, height))[0] == "--die-with-parent"@,
        preview_arguments(root, true, x11, wayland)[0] == "--die-with-parent"@,
        plain_arguments(root, false) == seq!["--unshare-net"@] + plain_arguments(root, true),
        isolation(root, false) == seq!["--unshare-net"@] + isolation(root, true),
{
    assert(plain_arguments(root, false) =~= seq!["--unshare-net"@] + plain_arguments(root, true));
    assert(isolation(root, false) =~= seq!["--unshare-net"@] + isolation(root, true));
}

/// The sockets of the displays are bound before the separator, and what the
/// separator is followed by is the browser.
pub proof fn law_display_sockets_are_bound_in_the_sandbox(
    root: Seq<char>,
    network_allowed: bool,
    x11: Option<Seq<char>>,
    wayland: Option<Seq<char>>,
)
    ensures
        ({
            let arguments = preview_arguments(root, network_allowed, x11, wayland);
            let at = isolation(root, network_allowed).len() + binds_of(x11).len() + binds_of(
                wayland,
            ).len();
            &&& arguments[at as int] == "--"@
            &&& arguments[at as int + 1] == "chromium"@
            &&& arguments.subrange(isolation(root, network_allowed).len() as int, at as int)
                == binds_of(x11) + binds_of(wayland)
        }),
{
    let arguments = preview_arguments(root, network_allowed, x11, wayland);
    let before = isolation(root, network_allowed);
    let at = before.len() + binds_of(x11).len() + binds_of(wayland).len();
    assert(arguments.subrange(before.len() as int, at as int) =~= binds_of(x11) + binds_of(
        wayland,
    ));
    assert(arguments[at as int] == preview_program()[0]);
    assert(arguments[at as int + 1] == preview_program()[1]);
}

proof fn lemma_without_slashes(path: Seq<char>)
    ensures
        without_slashes(path).len() <= path.len(),
        without_slashes(path) == path.take(without_slashes(path).len() as int),
        forall|i: int| without_slashes(path).len() <= i < path.len() ==> #[trigger] path[i] == '/',
    decreases path.len(),
{
    if path.len() > 0 && path.last() == '/' {
        lemma_without_slashes(path.drop_last());
        let bare = without_slashes(path);
        assert(path.drop_last().take(bare.len() as int) =~= path.take(bare.len() as int));
        assert forall|i: int| bare.len() <= i < path.len() implies #[trigger] path[i] == '/' by {
            if i < path.len() - 1 {
                assert(path.drop_last()[i] == '/');
            }
        }
    } else {
        assert(path.take(path.len() as int) =~= path);
    }
}

/// The runtime directory as a whole is never bound, only a socket in it. Names
/// that are made of slashes alone stand for no socket.
pub proof fn law_runtime_directory_is_never_bound(
    wayland_display: &str,
    xdg_runtime_dir: &str,
)
    requires
        exists|i: int| 0 <= i < wayland_display@.len() && #[trigger] wayland_display@[i] != '/',
    ensures
        wayland_socket(Some(wayland_display), Some(xdg_runtime_dir)) matches Some(socket)
            ==> socket != xdg_runtime_dir@ && socket != without_slashes(xdg_runtime_dir@),
{
    let runtime = xdg_runtime_dir@;
    let bare = without_slashes(runtime);
    let name = wayland_display@;
    let socket = bare + "/"@ + name;
    reveal_strlit("/");
    lemma_without_slashes(runtime);
    let i = choose|i: int| 0 <= i < name.len() && #[trigger] name[i] != '/';
    let at = bare.len() + 1 + i;
    assert(socket[at] == name[i]);
    if socket == runtime {
        assert(runtime[at] == '/');
    }
    assert(socket.len() > bare.len());
}

} // verus!
