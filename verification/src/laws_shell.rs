//! What is promised of the shell: the scripts that it is sent, the desktops
//! that stand in for it, the commands that reach it, and the inspector.
//!
//! Each law speaks of what a function may answer, or leave behind.

use vstd::prelude::*;

use crate::inspect::{
    bounded_detail, expected_parent, finalize, keep_tail, launch_failed, plan_launch,
    report_stream_max_bytes, stopped_report, take_report, take_stdout, Frame, FrameKind,
    FrameStream, InspectConfig, InspectReport, LaunchFault, LaunchPlan, Stopped, SuperviseStage,
    Supervision, WaitOutcome,
};
use crate::laws_apply::same_option;
use crate::laws_stores::is_name;
use crate::macos_desktop::{
    load_state, outputs_of, parse_switch_script, quoted_after, unescape_js, DesktopRecord, Display,
    DisplayLister, Evaluated, MacDesktopProbe, SwitchCommand,
};
use crate::names::NameMap;
use crate::probe::{ProbeError, ProbeReply, SystemOutput};
use crate::script::{apply_script, escape_js_string, probe_script, restore_script};
use crate::shell::{
    evaluated, find_in_path, split_path, ChildOutcome, CommandLine, DisplaySource,
    QdbusShellProbe, ShellEvaluator, StubProbe,
};

verus! {

// ---------------------------------------------------------------------------
// Scripts
// ---------------------------------------------------------------------------

/// `part` stands in `text` somewhere.
pub open spec fn has_part(text: Seq<char>, part: Seq<char>) -> bool {
    exists|at: int| #[trigger] part_at(text, part, at)
}

/// `part` stands in `text` at `at`.
pub open spec fn part_at(text: Seq<char>, part: Seq<char>, at: int) -> bool {
    &&& 0 <= at && at + part.len() <= text.len()
    &&& forall|i: int| 0 <= i < part.len() ==> #[trigger] text[at + i] == part[i]
}

/// A character that ends a line, or a literal, or begins an escape.
pub open spec fn needs_escape(c: char) -> bool {
    let code = c as int;
    code == 92 || code == 34 || code == 10 || code == 13 || code == 0x2028 || code == 0x2029
}

/// What was escaped is read back as it was, stands on one line, and closes no
/// literal; and a value that needs no escapes is its own literal.
pub proof fn law_escaped_values_are_read_back(value: &str, literal: String, out: String)
    requires
        call_ensures(escape_js_string, (value,), literal),
        call_ensures(unescape_js, (literal,), out),
    ensures
        out@ == value@,
        forall|i: int|
            0 <= i < literal@.len() ==> {
                let c = (#[trigger] literal@[i]) as int;
                &&& c != 10 && c != 13 && c != 0x2028 && c != 0x2029
                &&& c == 34 ==> i > 0 && literal@[i - 1] as int == 92
            },
        (forall|i: int| 0 <= i < value@.len() ==> !needs_escape(#[trigger] value@[i])) ==> literal@
            == value@,
{
    crate::macos_desktop::law_unescape_reverses_escape(value@);
    crate::macos_desktop::law_escaped_value_is_one_line(value@);
    assert forall|i: int| 0 <= i < literal@.len() implies {
        let c = (#[trigger] literal@[i]) as int;
        &&& c != 10 && c != 13 && c != 0x2028 && c != 0x2029
        &&& c == 34 ==> i > 0 && literal@[i - 1] as int == 92
    } by {
        let c = crate::script::escaped(value@)[i];
        assert(c == literal@[i]);
    }
    if forall|i: int| 0 <= i < value@.len() ==> !needs_escape(#[trigger] value@[i]) {
        lemma_unescaped(value@);
    }
}

proof fn lemma_unescaped(value: Seq<char>)
    requires
        forall|i: int| 0 <= i < value.len() ==> !needs_escape(#[trigger] value[i]),
    ensures
        crate::script::escaped(value) == value,
    decreases value.len(),
{
    if value.len() > 0 {
        let rest = value.drop_first();
        assert forall|i: int| 0 <= i < rest.len() implies !needs_escape(#[trigger] rest[i]) by {
            assert(rest[i] == value[i + 1]);
        }
        lemma_unescaped(rest);
        assert(!needs_escape(value[0]));
        assert(crate::script::escaped(value) =~= value);
    }
}

/// Two values after each other are escaped one after the other; and what needs
/// an escape is written the way a script writes it.
pub proof fn law_values_are_escaped_in_order(
    value: &str,
    literal: String,
    c: char,
    longer: &str,
    longer_literal: String,
)
    requires
        longer@ == value@.push(c),
        call_ensures(escape_js_string, (value,), literal),
        call_ensures(escape_js_string, (longer,), longer_literal),
    ensures
        !needs_escape(c) ==> longer_literal@ == literal@.push(c),
        c == '\\' || c == '"' ==> longer_literal@ == literal@.push('\\').push(c),
        c == '\n' ==> longer_literal@ == literal@.push('\\').push('n'),
        c == '\r' ==> longer_literal@ == literal@.push('\\').push('r'),
        c == '\u{2028}' ==> longer_literal@ == literal@ + "\\u2028"@,
        c == '\u{2029}' ==> longer_literal@ == literal@ + "\\u2029"@,
{
    crate::script::lemma_escaped_push(value@, c);
    reveal_strlit("\\u2028");
    reveal_strlit("\\u2029");
    let tail = crate::script::escaped_char(c);
    assert(longer_literal@ == literal@ + tail);
    if c == '\u{2028}' {
        assert(tail =~= "\\u2028"@);
    }
    if c == '\u{2029}' {
        assert(tail =~= "\\u2029"@);
    }
    if !needs_escape(c) {
        assert(longer_literal@ =~= literal@.push(c));
    }
    if c == '\\' || c == '"' {
        assert(longer_literal@ =~= literal@.push('\\').push(c));
    }
    if c == '\n' {
        assert(longer_literal@ =~= literal@.push('\\').push('n'));
    }
    if c == '\r' {
        assert(longer_literal@ =~= literal@.push('\\').push('r'));
    }
}

/// The script that assigns a plugin takes the desktop at its index and ends by
/// giving it the plugin, which is a name; and whoever reads the script learns
/// just that.
pub proof fn law_apply_script_assigns_its_plugin(
    index: usize,
    plugin: &str,
    script: Result<String, String>,
    read: Result<SwitchCommand, ProbeError>,
    text: &str,
)
    requires
        call_ensures(apply_script, (index, plugin), script),
        script is Ok ==> text@ == script->Ok_0@,
        call_ensures(parse_switch_script, (text,), read),
    ensures
        script is Ok <==> is_name(plugin@),
        script is Ok ==> {
            &&& read is Ok
            &&& read->Ok_0.desktop_index == index
            &&& read->Ok_0.plugin@ == plugin@
            &&& !read->Ok_0.touches_image && read->Ok_0.image is None
            &&& part_at(
                text@,
                "var d = desktops()["@ + crate::text::decimal(index as nat) + "]"@,
                0,
            )
            &&& part_at(
                text@,
                "d.wallpaperPlugin = \""@ + plugin@ + "\";"@,
                text@.len() - plugin@.len() - 23,
            )
        },
{
    crate::laws_stores::lemma_names(plugin@);
    if script is Ok {
        crate::round_trip::law_apply_script_reads_back(index as nat, plugin@);
        let digits = crate::text::decimal(index as nat);
        reveal_strlit("var d = desktops()[");
        reveal_strlit("]");
        reveal_strlit("]; if (!d) throw \"no desktop ");
        reveal_strlit("\"; d.wallpaperPlugin = \"");
        reveal_strlit("d.wallpaperPlugin = \"");
        reveal_strlit("\";");
        let opening = "var d = desktops()["@ + digits + "]"@;
        let closing = "d.wallpaperPlugin = \""@ + plugin@ + "\";"@;
        let n = text@.len() - plugin@.len() - 23;
        assert(closing.len() == plugin@.len() + 23);
        assert(text@ =~= opening + ("]; if (!d) throw \"no desktop "@).skip(1) + digits
            + "\"; d.wallpaperPlugin = \""@ + plugin@ + "\";"@);
        assert(text@ =~= text@.take(n) + closing);
    }
}

/// The script that restores a wallpaper is read back as that wallpaper, on its
/// desktop; it is refused exactly if the plugin or a part of the group is no
/// name, the group does not have one to four parts, or the image is empty or
/// too long.
pub proof fn law_restore_script_carries_its_wallpaper(
    index: usize,
    plugin: &str,
    group: &[String],
    image: Option<&str>,
    script: Result<String, String>,
    read: Result<SwitchCommand, ProbeError>,
    text: &str,
)
    requires
        call_ensures(restore_script, (index, plugin, group, image), script),
        script is Ok ==> text@ == script->Ok_0@,
        call_ensures(parse_switch_script, (text,), read),
    ensures
        script is Ok <==> {
            &&& is_name(plugin@)
            &&& 0 < group@.len() < 5
            &&& forall|i: int| 0 <= i < group@.len() ==> is_name((#[trigger] group@[i])@)
            &&& image is Some ==> 0 < image->0@.len() && vstd::utf8::encode_utf8(image->0@).len()
                <= 4096
        },
        script is Ok ==> {
            &&& read is Ok
            &&& read->Ok_0.desktop_index == index
            &&& read->Ok_0.plugin@ == plugin@
            &&& read->Ok_0.touches_image
            &&& read->Ok_0.image is Some <==> image is Some
            &&& image is Some ==> read->Ok_0.image->0@ == image->0@
            &&& part_at(
                text@,
                "var d = desktops()["@ + crate::text::decimal(index as nat) + "]"@,
                0,
            )
        },
{
    crate::laws_stores::lemma_names(plugin@);
    assert forall|i: int| 0 <= i < group@.len() implies (crate::identity::valid_identity(
        (#[trigger] group@[i])@,
    ) <==> is_name(group@[i]@)) by {
        crate::laws_stores::lemma_names(group@[i]@);
    }
    if script is Ok {
        crate::round_trip::law_restore_script_reads_back(index as nat, plugin@, group@, image);
        reveal_strlit("var d = desktops()[");
        reveal_strlit("]");
        reveal_strlit("];\nif (!d) throw \"no desktop ");
        let digits = crate::text::decimal(index as nat);
        let opening = "var d = desktops()["@ + digits + "]"@;
        assert forall|i: int| 0 <= i < opening.len() implies #[trigger] text@[0 + i]
            == opening[i] by {}
    } else {
        assert(crate::script::restore_refusal(plugin@, group@, image) is Some);
        if group@.len() > 0 && group@.len() <= 4 && !crate::script::valid_group(group@) {
            let i = choose|i: int|
                0 <= i < group@.len() && !crate::identity::valid_identity(
                    (#[trigger] group@[i])@,
                );
            assert(!is_name(group@[i]@));
        }
    }
}

/// The enumeration asks for the screen of every connector, each of which is a
/// name; with one that is not there is none.
pub proof fn law_probe_asks_for_every_connector(
    names: &[String],
    script: Result<String, String>,
    k: int,
)
    requires
        call_ensures(probe_script, (names,), script),
        0 <= k < names@.len(),
    ensures
        script is Ok ==> is_name(names@[k]@),
        !is_name(names@[k]@) ==> script is Err,
        script is Ok ==> has_part(
            script->Ok_0@,
            "\""@ + names@[k]@ + "\": screenForConnector(\""@ + names@[k]@ + "\")"@,
        ),
{
    crate::laws_stores::lemma_names(names@[k]@);
    if script is Ok {
        let entry = crate::script::connector_entry(names@[k]@);
        lemma_entries(names@, k);
        let entries = crate::script::connector_entries(names@);
        let at = choose|at: int| #[trigger] part_at(entries, entry, at);
        let before = crate::script::PROBE_OPENING@ + crate::script::PROBE_LOOP@ + "{"@;
        let whole = script->Ok_0@;
        assert forall|i: int| 0 <= i < entry.len() implies #[trigger] whole[before.len() + at + i]
            == entry[i] by {
            assert(entries[at + i] == entry[i]);
            assert(whole[before.len() + (at + i)] == entries[at + i]);
        }
        assert(part_at(whole, entry, before.len() + at));
    }
}

proof fn lemma_entries(names: Seq<String>, k: int)
    requires
        0 <= k < names.len(),
    ensures
        has_part(
            crate::script::connector_entries(names),
            crate::script::connector_entry(names[k]@),
        ),
    decreases names.len(),
{
    let entries = crate::script::connector_entries(names);
    let entry = crate::script::connector_entry(names[k]@);
    if names.len() == 1 {
        assert(part_at(entries, entry, 0));
    } else if k == names.len() - 1 {
        let at = entries.len() - entry.len();
        assert(part_at(entries, entry, at));
    } else {
        let shorter = names.drop_last();
        assert(shorter[k] == names[k]);
        lemma_entries(shorter, k);
        let earlier = crate::script::connector_entries(shorter);
        let at = choose|at: int| #[trigger] part_at(earlier, entry, at);
        assert forall|i: int| 0 <= i < entry.len() implies #[trigger] entries[at + i]
            == entry[i] by {
            assert(earlier[at + i] == entry[i]);
        }
        assert(part_at(entries, entry, at));
    }
}

// ---------------------------------------------------------------------------
// Recorded desktops
// ---------------------------------------------------------------------------

/// Only a regular file of version 1 within 64 KiB is taken up, whole.
pub proof fn law_recorded_desktops_are_taken_up(
    file: Option<(bool, u64)>,
    parsed: Option<(u32, NameMap<DesktopRecord>)>,
    desktops: NameMap<DesktopRecord>,
)
    requires
        call_ensures(load_state, (file, parsed), desktops),
    ensures
        match (file, parsed) {
            (Some((is_file, size)), Some((version, state))) => {
                &&& is_file && size <= 65536 && version == 1 ==> desktops == state
                &&& !(is_file && size <= 65536 && version == 1) ==> desktops@.dom() =~= Set::empty()
            },
            _ => desktops@.dom() =~= Set::empty(),
        },
{
}

/// The desktops stand in for a shell on macOS alone, and only while no command
/// does.
pub proof fn law_desktops_stand_in_on_macos<L: DisplayLister>(
    macos: bool,
    lister: L,
    command: Option<&str>,
    saved: NameMap<DesktopRecord>,
    probe: Option<MacDesktopProbe<L>>,
)
    requires
        call_ensures(
            MacDesktopProbe::<L>::from_config,
            (macos, lister, command, saved),
            probe,
        ),
    ensures
        probe is Some <==> macos && command is None,
        probe is Some ==> probe->0.lister == lister && probe->0.desktops == saved,
{
}

/// Every display is reported as one desktop, in order and on its own screen,
/// with what was recorded for it; a display that nothing was recorded for has
/// the stock plugin and no image.
pub proof fn law_displays_are_reported_as_recorded<L: DisplayLister>(
    probe: &MacDesktopProbe<L>,
    displays: &Vec<Display>,
    reply: ProbeReply,
    i: int,
)
    requires
        displays@.len() <= 1000,
        0 <= i < displays@.len(),
        call_ensures(MacDesktopProbe::<L>::probe_reply, (probe, displays), reply),
    ensures
        reply.desktops@.len() == displays@.len(),
        reply.desktops@[i].index == i,
        reply.desktops@[i].id == i + 1,
        reply.desktops@[i].screen == i,
        reply.connectors@.contains_key(displays@[i].name@),
        (forall|j: int| i < j < displays@.len() ==> (#[trigger] displays@[j]).name@
            != displays@[i].name@) ==> reply.connectors@[displays@[i].name@] == i,
        probe.desktops@.contains_key(displays@[i].name@) ==> {
            let record = probe.desktops@[displays@[i].name@];
            &&& reply.desktops@[i].wp@ == record.plugin@
            &&& same_option(reply.desktops@[i].image, record.image)
        },
        !probe.desktops@.contains_key(displays@[i].name@) ==> reply.desktops@[i].wp@
            == "org.kde.image"@ && reply.desktops@[i].image is None,
{
    lemma_screens(displays@, i);
    assert(crate::macos_desktop::reported_desktop(
        probe.desktops@,
        displays@,
        i,
        reply.desktops@[i],
    ));
}

proof fn lemma_screens(displays: Seq<Display>, i: int)
    requires
        displays.len() <= 1000,
        0 <= i < displays.len(),
    ensures
        crate::macos_desktop::display_screens(displays).contains_key(displays[i].name@),
        (forall|j: int| i < j < displays.len() ==> (#[trigger] displays[j]).name@
            != displays[i].name@) ==> crate::macos_desktop::display_screens(
            displays,
        )[displays[i].name@] == i,
    decreases displays.len(),
{
    if i < displays.len() - 1 {
        let shorter = displays.drop_last();
        assert(shorter[i] == displays[i]);
        lemma_screens(shorter, i);
        if forall|j: int| i < j < displays.len() ==> (#[trigger] displays[j]).name@
            != displays[i].name@ {
            assert forall|j: int| i < j < shorter.len() implies (#[trigger] shorter[j]).name@
                != shorter[i].name@ by {
                assert(shorter[j] == displays[j]);
            }
            assert(displays[displays.len() - 1].name@ != displays[i].name@);
        }
    }
}

/// A switch is recorded for its display and for no other: the plugin that the
/// script assigns, and its image where it touches one. A script for a display
/// that is not there changes nothing.
pub proof fn law_switch_is_recorded_for_its_display<L: DisplayLister>(
    probe: &mut MacDesktopProbe<L>,
    displays: &Vec<Display>,
    script: &str,
    read: Result<SwitchCommand, ProbeError>,
    done: Result<(), ProbeError>,
    other: Seq<char>,
)
    requires
        call_ensures(parse_switch_script, (script,), read),
        call_ensures(MacDesktopProbe::<L>::apply_switch, (probe, displays, script), done),
    ensures
        done is Ok <==> read is Ok && read->Ok_0.desktop_index < displays@.len(),
        done is Err ==> final(probe).desktops == old(probe).desktops,
        done is Ok ==> {
            let command = read->Ok_0;
            let name = displays@[command.desktop_index as int].name@;
            let before = old(probe).desktops@;
            let after = final(probe).desktops@;
            &&& after.contains_key(name) && after[name].plugin@ == command.plugin@
            &&& command.touches_image ==> same_option(after[name].image, command.image)
            &&& !command.touches_image && before.contains_key(name) ==> same_option(
                after[name].image,
                before[name].image,
            )
            &&& !command.touches_image && !before.contains_key(name) ==> after[name].image is None
            &&& other != name ==> (after.contains_key(other) <==> before.contains_key(other))
            &&& other != name && before.contains_key(other) ==> after[other] == before[other]
        },
        final(probe).lister == old(probe).lister,
{
    if done is Ok {
        let command = read->Ok_0;
        let name = displays@[command.desktop_index as int].name@;
        let before = probe.desktops@;
        let after = final(probe).desktops@;
        assert(after == before.insert(name, after[name]));
        assert(after.contains_key(name));
        assert(after[name]@ == crate::macos_desktop::switched(before, name, command@));
        if other != name && before.contains_key(other) {
            assert(before.insert(name, after[name])[other] == before[other]);
        }
    }
}

/// Every display is an output that is enabled and connected, under its own name
/// and with its own geometry.
pub proof fn law_displays_are_outputs(
    displays: &Vec<Display>,
    outputs: Vec<SystemOutput>,
    i: int,
)
    requires
        call_ensures(outputs_of, (displays,), outputs),
        0 <= i < displays@.len(),
    ensures
        outputs@.len() == displays@.len(),
        outputs@[i].name@ == displays@[i].name@,
        outputs@[i].enabled && outputs@[i].connected,
        outputs@[i].geometry is Some && outputs@[i].geometry->0@ == displays@[i].geometry@,
{
    assert(outputs@[i]@.geometry == Some(displays@[i].geometry@));
}

// ---------------------------------------------------------------------------
// Commands
// ---------------------------------------------------------------------------

/// The directories of a search path stand in it, one after another, with a
/// colon between two.
pub open spec fn directories_stand(
    path: Seq<char>,
    from: int,
    directories: Seq<Seq<char>>,
    places: Seq<int>,
) -> bool {
    &&& directories.len() > 0 && places.len() == directories.len()
    &&& places[0] == from
    &&& places.last() + directories.last().len() == path.len()
    &&& forall|k: int|
        0 <= k < directories.len() ==> 0 <= #[trigger] places[k] && places[k]
            + directories[k].len() <= path.len() && path.subrange(
            places[k],
            places[k] + directories[k].len(),
        ) == directories[k] && !directories[k].contains(':')
    &&& forall|k: int|
        0 <= k < directories.len() - 1 ==> (#[trigger] places[k]) + directories[k].len() + 1
            == places[k + 1] && path[places[k] + directories[k].len()] == ':'
}

/// A search path is split at its colons, and nowhere else.
pub proof fn law_search_path_is_split_at_colons(path: &str, directories: Vec<String>)
    requires
        call_ensures(split_path, (path,), directories),
    ensures
        exists|places: Seq<int>| #[trigger]
            directories_stand(
                path@,
                0,
                crate::laws_text::texts_of(directories@),
                places,
            ),
{
    assert(crate::laws_text::texts_of(directories@) =~= crate::text::views(directories@));
    lemma_pieces(path@, 0);
}

proof fn lemma_pieces(s: Seq<char>, from: nat)
    requires
        from <= s.len(),
    ensures
        exists|places: Seq<int>| #[trigger]
            directories_stand(s, from as int, crate::shell::path_pieces(s, from), places),
    decreases s.len() - from,
{
    let pieces = crate::shell::path_pieces(s, from);
    let end = crate::text::index_of(s, ':', from);
    crate::text::lemma_index_of(s, ':', from);
    if end >= s.len() {
        let piece = s.skip(from as int);
        assert(pieces =~= seq![piece]);
        assert(s.subrange(from as int, s.len() as int) =~= piece);
        if piece.contains(':') {
            let i = choose|i: int| 0 <= i < piece.len() && piece[i] == ':';
            assert(s[from + i] == ':');
        }
        assert(directories_stand(s, from as int, pieces, seq![from as int]));
    } else {
        lemma_pieces(s, end + 1);
        let later = crate::shell::path_pieces(s, end + 1);
        let after = choose|after: Seq<int>| #[trigger]
            directories_stand(s, end as int + 1, later, after);
        let piece = s.subrange(from as int, end as int);
        if piece.contains(':') {
            let i = choose|i: int| 0 <= i < piece.len() && piece[i] == ':';
            assert(s[from + i] == ':');
        }
        assert(pieces == seq![piece] + later);
        let places = seq![from as int] + after;
        assert(s[end as int] == ':');
        assert forall|k: int| 0 <= k < pieces.len() implies 0 <= #[trigger] places[k] && places[k]
            + pieces[k].len() <= s.len() && s.subrange(places[k], places[k] + pieces[k].len())
            == pieces[k] && !pieces[k].contains(':') by {
            if k > 0 {
                assert(places[k] == after[k - 1] && pieces[k] == later[k - 1]);
            }
        }
        assert forall|k: int| 0 <= k < pieces.len() - 1 implies (#[trigger] places[k])
            + pieces[k].len() + 1 == places[k + 1] && s[places[k] + pieces[k].len()] == ':' by {
            assert(places[k + 1] == after[k]);
            if k > 0 {
                assert(places[k] == after[k - 1] && pieces[k] == later[k - 1]);
            }
        }
        assert(places.last() == after.last() && pieces.last() == later.last());
        assert(directories_stand(s, from as int, pieces, places));
    }
}

/// A tool that was found is a file of one of the names in one of the
/// directories; without a search path none is found.
pub proof fn law_found_tool_is_a_file<P: Fn(&str) -> bool>(
    path_var: Option<&str>,
    names: &Vec<String>,
    is_file: P,
    found: Option<String>,
)
    requires
        call_ensures(find_in_path::<P>, (path_var, names, is_file), found),
    ensures
        path_var is None ==> found is None,
        found matches Some(path) ==> exists|asked: &str|
            asked@ == path@ && #[trigger] call_ensures(is_file, (asked,), true),
{
    if found is Some {
        let path = found->0@;
        let search = path_var->0@;
        let directories = crate::shell::path_pieces(search, 0);
        let wanted = crate::text::views(names@);
        let (n, d) = choose|n: int, d: int|
            {
                &&& 0 <= n < wanted.len()
                &&& 0 <= d < directories.len()
                &&& path == #[trigger] crate::apply::joined(directories[d], wanted[n])
                &&& crate::shell::answers(is_file, path, true)
            };
        assert(crate::shell::answers(is_file, path, true));
    }
}

/// What a script was answered is what its command printed, without the white
/// space around; a command that failed is an error, and one that could not be
/// run is no refusal.
pub proof fn law_answer_is_what_was_printed(
    outcome: ChildOutcome,
    reply: Result<String, ProbeError>,
    printed: &str,
    bare: String,
)
    requires
        call_ensures(evaluated, (outcome,), reply),
        outcome is Exited ==> printed@ == outcome->stdout@,
        call_ensures(crate::text::trimmed, (printed,), bare),
    ensures
        reply is Ok <==> outcome is Exited && outcome->success,
        reply is Ok ==> reply->Ok_0@ == bare@,
        outcome is Exited && !outcome->success ==> reply->Err_0 is Rejected,
        outcome is NotRun ==> if has_part(outcome->NotRun_0@, "timed out"@) {
            reply->Err_0 is TimedOut && reply->Err_0->TimedOut_0@ == outcome->NotRun_0@
        } else {
            reply->Err_0 is Unreachable && reply->Err_0->Unreachable_0@ == outcome->NotRun_0@
        },
{
    if outcome is NotRun {
        lemma_contains(outcome->NotRun_0@, "timed out"@);
    }
}

/// A shell is reached by the command that stands in for it, if there is one,
/// and by `qdbus` if not; nothing was recovered yet.
pub proof fn law_probe_begins_as_set_up(
    service: String,
    qdbus: Option<String>,
    command: Option<String>,
    kscreen: String,
    systemctl: Option<String>,
    timeout: u64,
    probe: QdbusShellProbe,
)
    requires
        call_ensures(
            QdbusShellProbe::new,
            (service, qdbus, command, kscreen, systemctl, timeout),
            probe,
        ),
    ensures
        probe.evaluator is External <==> command is Some,
        command is Some ==> probe.evaluator->External_0 == command->0,
        command is None ==> probe.evaluator->shell_service == service
            && probe.evaluator->qdbus_binary == qdbus,
        probe.kscreen_binary == kscreen,
        probe.systemctl_binary == systemctl,
        probe.display_env is None,
        probe.timeout_ms == timeout,
{
}

/// A script is the last thing that its command is told; a command that stands
/// in for the shell is told nothing else, and `qdbus` is told to evaluate it.
pub proof fn law_script_is_handed_to_the_shell(
    probe: &QdbusShellProbe,
    script: &str,
    on_path: Option<String>,
    command: Result<CommandLine, ProbeError>,
)
    requires
        call_ensures(QdbusShellProbe::evaluation, (probe, script, on_path), command),
    ensures
        command matches Ok(line) ==> line.arguments@.len() > 0 && line.arguments@.last()@
            == script@,
        probe.evaluator matches ShellEvaluator::External(path) ==> command is Ok
            && command->Ok_0.program@ == path@ && command->Ok_0.arguments@.len() == 1,
        probe.evaluator matches ShellEvaluator::Qdbus { shell_service, qdbus_binary } ==> {
            &&& command is Ok <==> qdbus_binary is Some || on_path is Some
            &&& command is Err ==> command->Err_0 is Unreachable
            &&& qdbus_binary is Some ==> command->Ok_0.program@ == qdbus_binary->0@
            &&& qdbus_binary is None && on_path is Some ==> command->Ok_0.program@ == on_path->0@
            &&& command matches Ok(line) ==> line.arguments@.len() == 4 && line.arguments@[0]@
                == shell_service@ && line.arguments@[1]@ == "/PlasmaShell"@ && line.arguments@[2]@
                == "evaluateScript"@
        },
{
    if let Ok(line) = command {
        let views = crate::text::views(line.arguments@);
        assert(views.len() == line.arguments@.len());
        assert(views.last() == line.arguments@.last()@);
        if probe.evaluator is Qdbus {
            assert(views[0] == line.arguments@[0]@ && views[1] == line.arguments@[1]@ && views[2]
                == line.arguments@[2]@);
        }
    }
}

/// The daemon's own display comes first, then what was recovered before, and a
/// recovery last; it takes no longer than a probe, nor than a second and a
/// half.
pub proof fn law_display_is_recovered_last(
    probe: &QdbusShellProbe,
    ambient: bool,
    source: DisplaySource,
    budget: u64,
    on_path: Option<String>,
    command: Result<CommandLine, ProbeError>,
    listing: CommandLine,
)
    requires
        call_ensures(QdbusShellProbe::display_env, (probe, ambient), source),
        call_ensures(QdbusShellProbe::recovery_budget, (probe,), budget),
        call_ensures(QdbusShellProbe::recovery, (probe, on_path), command),
        call_ensures(QdbusShellProbe::enumeration, (probe,), listing),
    ensures
        source is Inherited <==> ambient,
        source is Cached <==> !ambient && probe.display_env is Some,
        source is Recover <==> !ambient && probe.display_env is None,
        source matches DisplaySource::Cached(entries) ==> entries@.len()
            == probe.display_env->0@.len() && forall|i: int|
            0 <= i < entries@.len() ==> (#[trigger] entries@[i]).0@
                == probe.display_env->0@[i].0@ && entries@[i].1@ == probe.display_env->0@[i].1@,
        budget <= probe.timeout_ms && budget <= 1500 && (budget == probe.timeout_ms || budget
            == 1500),
        command is Ok <==> probe.systemctl_binary is Some || on_path is Some,
        command matches Ok(line) ==> line.arguments@.len() == 2 && line.arguments@[0]@ == "--user"@
            && line.arguments@[1]@ == "show-environment"@ && line.program@ == (
        if probe.systemctl_binary is Some {
            probe.systemctl_binary->0@
        } else {
            on_path->0@
        }),
        command is Err ==> command->Err_0 is DisplayUnavailable,
        listing.program@ == probe.kscreen_binary@,
        listing.arguments@.len() == 1 && listing.arguments@[0]@ == "-o"@,
{
    let listed = crate::text::views(listing.arguments@);
    assert(listed.len() == listing.arguments@.len());
    assert(listed[0] == listing.arguments@[0]@);
    if let Ok(line) = command {
        let views = crate::text::views(line.arguments@);
        assert(views.len() == line.arguments@.len());
        assert(views[0] == line.arguments@[0]@ && views[1] == line.arguments@[1]@);
    }
    if let DisplaySource::Cached(entries) = source {
        let kept = probe.display_env->0@;
        let a = crate::probe::pair_views(entries@);
        let b = crate::probe::pair_views(kept);
        assert(a.len() == entries@.len() && b.len() == kept.len());
        assert forall|i: int| 0 <= i < entries@.len() implies (#[trigger] entries@[i]).0@
            == kept[i].0@ && entries@[i].1@ == kept[i].1@ by {
            assert(a[i] == (entries@[i].0@, entries@[i].1@));
            assert(b[i] == (kept[i].0@, kept[i].1@));
        }
    }
}

/// A display that was recovered is kept until an enumeration fails with it, and
/// a recovery that gave none is not kept.
pub proof fn law_recovered_display_is_kept(
    probe: &mut QdbusShellProbe,
    outcome: ChildOutcome,
    entries: Result<Vec<(String, String)>, ProbeError>,
    failing: &mut QdbusShellProbe,
    recovered: bool,
    listed: ChildOutcome,
    outputs: Result<Vec<SystemOutput>, ProbeError>,
)
    requires
        call_ensures(QdbusShellProbe::recovered, (probe, outcome), entries),
        call_ensures(QdbusShellProbe::enumerated, (failing, recovered, listed), outputs),
    ensures
        entries is Ok ==> outcome is Exited && outcome->success && entries->Ok_0@.len() > 0
            && final(probe).display_env is Some && final(probe).display_env->0@.len()
            == entries->Ok_0@.len(),
        entries is Err ==> entries->Err_0 is DisplayUnavailable && final(probe).display_env
            == old(probe).display_env,
        outcome is NotRun || !outcome->success ==> entries is Err,
        final(probe).evaluator == old(probe).evaluator,
        final(probe).timeout_ms == old(probe).timeout_ms,
        outputs is Ok <==> listed is Exited && listed->success,
        outputs is Err && recovered ==> final(failing).display_env is None,
        outputs is Ok || !recovered ==> final(failing).display_env == old(failing).display_env,
        listed is Exited && !listed->success ==> outputs->Err_0 is Rejected,
{
    if let Ok(list) = entries {
        assert(crate::probe::pair_views(list@).len() == list@.len());
        let kept = final(probe).display_env->0@;
        assert(crate::probe::pair_views(kept).len() == kept.len());
    }
}

// ---------------------------------------------------------------------------
// Inspection
// ---------------------------------------------------------------------------

/// The inspector is given the scene, its time, and the descriptor to report on,
/// in a home of its own; without an inspector nothing is launched.
pub proof fn law_inspector_is_given_the_scene(
    config: &InspectConfig,
    input: &str,
    pid: u32,
    serial: u64,
    plan: Option<LaunchPlan>,
)
    requires
        call_ensures(plan_launch, (config, input, pid, serial), plan),
    ensures
        plan is Some <==> config.inspector_path is Some,
        plan matches Some(launch) ==> {
            &&& launch.program == config.inspector_path->0
            &&& launch.args@.len() == 6
            &&& launch.args@[0]@ == "--input"@ && launch.args@[1]@ == input@
            &&& launch.args@[2]@ == "--max-wall-ms"@ && launch.args@[3]@ == crate::text::decimal(
                config.wall_timeout_ms as nat,
            )
            &&& launch.args@[4]@ == "--report-fd"@ && launch.args@[5]@ == crate::text::decimal(3)
        },
{
    if let Some(launch) = plan {
        let views = crate::text::views(launch.args@);
        assert(views.len() == launch.args@.len());
        assert(views[0] == launch.args@[0]@ && views[1] == launch.args@[1]@ && views[2]
            == launch.args@[2]@ && views[3] == launch.args@[3]@ && views[4] == launch.args@[4]@
            && views[5] == launch.args@[5]@);
    }
}

/// Two launches of one daemon never share a home.
pub proof fn law_launches_share_no_home(
    config: &InspectConfig,
    input: &str,
    other_input: &str,
    pid: u32,
    serial: u64,
    later: u64,
    plan: Option<LaunchPlan>,
    other: Option<LaunchPlan>,
)
    requires
        call_ensures(plan_launch, (config, input, pid, serial), plan),
        call_ensures(plan_launch, (config, other_input, pid, later), other),
        plan is Some && other is Some,
        plan->0.home_dir@ == other->0.home_dir@,
    ensures
        serial == later,
{
    let a = crate::text::decimal(serial as nat);
    let b = crate::text::decimal(later as nat);
    crate::text::lemma_decimal_digits(serial as nat);
    crate::text::lemma_decimal_digits(later as nat);
    let name = "inspect-home-"@ + crate::text::decimal(pid as nat) + "-"@;
    let dir = config.runtime_dir@;
    let base = if dir.len() == 0 {
        name
    } else if dir.last() == '/' {
        dir + name
    } else {
        dir + "/"@ + name
    };
    assert(plan->0.home_dir@ =~= base + a);
    assert(other->0.home_dir@ =~= base + b);
    assert((base + a).skip(base.len() as int) =~= a);
    assert((base + b).skip(base.len() as int) =~= b);
}

/// A launch that failed leaves nothing behind, and no process number is passed
/// on that does not fit.
pub proof fn law_failed_launch_is_cleaned_up<T>(
    fault: LaunchFault,
    ended: (InspectReport<T>, bool),
    pid: u32,
    parent: Result<i32, LaunchFault>,
)
    requires
        call_ensures(launch_failed::<T>, (fault,), ended),
        call_ensures(expected_parent, (pid,), parent),
    ensures
        ended.0 is Unavailable,
        ended.1 <==> fault != LaunchFault::HomeNotCreated,
        parent is Ok <==> pid < 0x8000_0000,
        parent is Ok ==> parent->Ok_0 == pid,
        parent is Err ==> parent->Err_0 == LaunchFault::PidOverflow,
{
}

/// What the inspector wrote is kept whole up to its bound, and said to be too
/// much exactly beyond it; of its complaints the last 512 bytes are kept.
pub proof fn law_inspector_output_is_bounded(
    stdout: &mut Vec<u8>,
    report: &mut Vec<u8>,
    stderr: &mut Vec<u8>,
    chunk: &[u8],
    stream_max: usize,
    too_much: bool,
    too_long: bool,
)
    requires
        call_ensures(take_stdout, (stdout, chunk), too_much),
        call_ensures(take_report, (report, chunk, stream_max), too_long),
        call_ensures(keep_tail, (stderr, chunk), ()),
    ensures
        old(stdout)@.len() <= 65536 ==> final(stdout)@ == old(stdout)@ + chunk@,
        too_much <==> final(stdout)@.len() > 65536,
        old(report)@.len() < stream_max ==> final(report)@ == old(report)@ + chunk@,
        too_long <==> final(report)@.len() >= stream_max,
        final(stderr)@.len() <= 512,
        old(stderr)@.len() + chunk@.len() <= 512 ==> final(stderr)@ == old(stderr)@ + chunk@,
        old(stderr)@.len() + chunk@.len() > 512 ==> final(stderr)@.len() == 512,
        final(stderr)@ == (old(stderr)@ + chunk@).skip(
            old(stderr)@.len() + chunk@.len() - final(stderr)@.len(),
        ),
{
    let all = stderr@ + chunk@;
    assert(all.len() == stderr@.len() + chunk@.len());
    assert(all.skip(0) =~= all);
}

/// The longest report stream is every frame's header, all payload, and a byte
/// more.
pub proof fn law_longest_stream(payload: usize, frames: usize, header: usize, bytes: usize)
    requires
        call_ensures(report_stream_max_bytes, (payload, frames, header), bytes),
    ensures
        bytes == payload + frames * header + 1,
{
}

/// A detail is the longest beginning of at most 256 bytes.
pub proof fn law_detail_is_a_beginning(text: &str, detail: String)
    requires
        call_ensures(bounded_detail, (text,), detail),
    ensures
        detail@.len() <= text@.len() && detail@ == text@.take(detail@.len() as int),
        vstd::utf8::encode_utf8(detail@).len() <= 256,
        vstd::utf8::encode_utf8(text@).len() <= 256 ==> detail@ == text@,
        detail@.len() < text@.len() ==> vstd::utf8::encode_utf8(
            text@.take(detail@.len() as int + 1),
        ).len() > 256,
{
    crate::inspect::law_short_detail_is_kept_whole(text@, detail@);
}

/// An inspector has until its deadline. It is killed when it outlives that,
/// writes too much, or cannot be waited for, and for nothing else; and its
/// report is read only once it has ended by itself.
pub proof fn law_inspector_is_supervised(
    now: u64,
    wall: u64,
    ready: bool,
    begun: Supervision,
    run: &mut Supervision,
    outcome: WaitOutcome,
    at: u64,
    drained: &mut Supervision,
    much: bool,
    long: bool,
    slept: &mut Supervision,
    killed: &mut Supervision,
)
    requires
        call_ensures(Supervision::begin, (now, wall, ready), begun),
        call_ensures(Supervision::waited, (run, outcome, at), ()),
        call_ensures(Supervision::drained, (drained, much, long), ()),
        drained.stage is Draining || drained.stage is LastDrain,
        call_ensures(Supervision::slept, (slept,), ()),
        killed.stage is Killing,
        call_ensures(Supervision::killed, (killed,), ()),
    ensures
        begun.deadline == now + wall,
        begun.stage is Draining <==> ready,
        !ready ==> begun.stage == SuperviseStage::Killing(Stopped::Unavailable),
        final(run).deadline == old(run).deadline,
        final(run).stage is LastDrain <==> outcome is Exited,
        outcome is Exited ==> final(run).stage->LastDrain_success == outcome->success,
        outcome == WaitOutcome::Running && at >= old(run).deadline ==> final(run).stage
            == SuperviseStage::Killing(Stopped::Timeout),
        outcome == WaitOutcome::Running && at < old(run).deadline ==> final(run).stage is Sleeping,
        outcome == WaitOutcome::WaitFailed ==> final(run).stage == SuperviseStage::Killing(
            Stopped::Unavailable,
        ),
        final(drained).stage is Finalizing <==> old(drained).stage is LastDrain && !much && !long,
        old(drained).stage is Draining && !much && !long ==> final(drained).stage is Waiting,
        old(drained).stage is Draining && (much || long) ==> final(drained).stage
            == SuperviseStage::Killing(Stopped::Oversize),
        old(drained).stage is LastDrain && (much || long) ==> final(drained).stage
            == SuperviseStage::Ended(Stopped::Oversize),
        final(drained).stage is Finalizing ==> final(drained).stage->Finalizing_success == old(drained).stage->LastDrain_success,
        final(drained).deadline == old(drained).deadline,
        final(slept).stage is Draining && final(slept).deadline == old(slept).deadline,
        final(killed).stage == SuperviseStage::Ended(old(killed).stage->Killing_0),
{
}

/// An inspection that was stopped is reported by why, and every report without
/// a record has a name of its own.
pub proof fn law_stopped_inspections_are_reported<T>(
    why: Stopped,
    report: InspectReport<T>,
    reason: Option<&'static str>,
    any: &InspectReport<T>,
    name: Option<&'static str>,
)
    requires
        call_ensures(stopped_report::<T>, (why,), report),
        call_ensures(InspectReport::<T>::reason, (&report,), reason),
        call_ensures(InspectReport::<T>::reason, (any,), name),
    ensures
        report is Unavailable <==> why == Stopped::Unavailable,
        report is Oversize <==> why == Stopped::Oversize,
        report is Timeout <==> why == Stopped::Timeout,
        reason is Some,
        name is None <==> *any is Record,
        *any is Timeout ==> name->0@ == "timeout"@,
        *any is Unavailable ==> name->0@ == "inspector-unavailable"@,
        *any is Oversize ==> name->0@ == "report-oversize"@,
        *any is Failed ==> name->0@ == "inspector-failed"@,
        *any is Malformed ==> name->0@ == "report-malformed"@,
        *any is Missing ==> name->0@ == "report-missing"@,
        *any is Duplicate ==> name->0@ == "report-duplicate"@,
{
}

/// The frame carries an inspection.
pub open spec fn carries_inspection(frames: Seq<Frame>, i: int) -> bool {
    0 <= i < frames.len() && frames[i].kind == FrameKind::SceneInspection
}

proof fn lemma_inspections(frames: Seq<Frame>)
    ensures
        crate::inspect::inspections(frames) == 0 <==> forall|i: int|
            !#[trigger] carries_inspection(frames, i),
        crate::inspect::inspections(frames) == 1 ==> forall|i: int, j: int| #[trigger]
            carries_inspection(frames, i) && #[trigger] carries_inspection(frames, j) ==> i == j,
        crate::inspect::inspections(frames) > 1 ==> exists|i: int, j: int| #[trigger]
            carries_inspection(frames, i) && #[trigger] carries_inspection(frames, j) && i != j,
    decreases frames.len(),
{
    if frames.len() > 0 {
        let shorter = frames.drop_last();
        lemma_inspections(shorter);
        let last = frames.len() - 1;
        assert forall|i: int| #[trigger] carries_inspection(shorter, i) implies carries_inspection(
            frames,
            i,
        ) by {
            assert(shorter[i] == frames[i]);
        }
        assert forall|i: int| #[trigger] carries_inspection(frames, i) && i != last implies
            carries_inspection(shorter, i) by {
            assert(shorter[i] == frames[i]);
        }
        if frames.last().kind == FrameKind::SceneInspection {
            assert(carries_inspection(frames, last));
            if crate::inspect::inspections(shorter) == 1 {
                assert(exists|i: int| #[trigger] carries_inspection(shorter, i));
                let i = choose|i: int| #[trigger] carries_inspection(shorter, i);
                assert(carries_inspection(frames, i) && carries_inspection(frames, last));
            }
            if crate::inspect::inspections(shorter) > 1 {
                let (i, j) = choose|i: int, j: int| #[trigger]
                    carries_inspection(shorter, i) && #[trigger] carries_inspection(shorter, j)
                        && i != j;
                assert(carries_inspection(frames, i) && carries_inspection(frames, j));
            }
        } else {
            assert(!carries_inspection(frames, last));
            if crate::inspect::inspections(shorter) > 1 {
                let (i, j) = choose|i: int, j: int| #[trigger]
                    carries_inspection(shorter, i) && #[trigger] carries_inspection(shorter, j)
                        && i != j;
                assert(carries_inspection(frames, i) && carries_inspection(frames, j));
            }
            if exists|i: int| #[trigger] carries_inspection(shorter, i) {
                let i = choose|i: int| #[trigger] carries_inspection(shorter, i);
                assert(carries_inspection(frames, i));
            }
        }
    } else {
        assert forall|i: int| !#[trigger] carries_inspection(frames, i) by {}
    }
}

/// A record is what was read of the only inspection that an inspector reported
/// which succeeded. One that failed is a failure whatever it reported; a stream
/// with an error is malformed, one without an inspection is missing, and one
/// with two is a duplicate.
pub proof fn law_record_is_of_the_only_inspection<R, V: FnOnce(&Vec<u8>) -> Result<R, String>>(
    success: bool,
    stream: FrameStream,
    stderr_tail: &Vec<u8>,
    validate: V,
    report: InspectReport<R>,
    i: int,
    j: int,
)
    requires
        call_ensures(finalize::<R, V>, (success, stream, stderr_tail, validate), report),
    ensures
        report is Failed <==> !success,
        success && stream.error is Some ==> report is Malformed,
        success && stream.error is None && (forall|k: int|
            !#[trigger] carries_inspection(stream.frames@, k)) ==> report is Missing,
        success && stream.error is None && i != j && carries_inspection(stream.frames@, i)
            && carries_inspection(stream.frames@, j) ==> report is Duplicate,
        report is Record ==> stream.error is None && exists|k: int|
            carries_inspection(stream.frames@, k) && #[trigger] call_ensures(
                validate,
                (&stream.frames@[k].payload,),
                Ok(report->Record_0),
            ),
{
    lemma_inspections(stream.frames@);
    let frames = stream.frames@;
    if report is Record {
        let at = choose|at: int|
            {
                &&& 0 <= at < frames.len()
                &&& (#[trigger] frames[at]).kind == FrameKind::SceneInspection
                &&& crate::inspect::validated(frames[at].payload, stderr_tail@, validate, report)
            };
        assert(carries_inspection(frames, at));
        assert(call_ensures(validate, (&frames[at].payload,), Ok(report->Record_0)));
    }
}

// ---------------------------------------------------------------------------
// Evaluating scripts without a shell
// ---------------------------------------------------------------------------

/// The literal after a marker is what stands there up to the quote that closes
/// it.
pub proof fn law_literal_follows_its_marker(script: &str, marker: &str, literal: Option<String>)
    requires
        call_ensures(quoted_after, (script, marker), literal),
    ensures
        literal matches Some(text) ==> has_part(script@, marker@ + text@ + seq!['"']),
{
    lemma_place(script@, marker@, 0);
}

proof fn lemma_literal_end(s: Seq<char>, at: nat)
    ensures
        crate::macos_desktop::literal_end(s, at) matches Some(end) ==> at <= end < s.len()
            && s[end as int] == '"',
    decreases s.len() - at,
{
    if at < s.len() {
        lemma_literal_end(s, at + 1);
        if at + 1 < s.len() {
            lemma_literal_end(s, at + 2);
        }
    }
}

/// The enumeration is answered and changes nothing; any other script switches
/// or is rejected.
pub proof fn law_only_switches_change_a_desktop<L: DisplayLister>(
    probe: &mut MacDesktopProbe<L>,
    displays: &Vec<Display>,
    script: &str,
    result: Result<Evaluated, ProbeError>,
    read: Result<SwitchCommand, ProbeError>,
    begins: bool,
    opening: &str,
)
    requires
        opening@ == "var d = desktops();\nvar out = [];"@,
        call_ensures(crate::text::begins_with, (script, opening), begins),
        call_ensures(parse_switch_script, (script,), read),
        call_ensures(MacDesktopProbe::<L>::evaluate_on, (probe, displays, script), result),
    ensures
        begins ==> result is Ok && result->Ok_0 is Reply && final(probe).desktops == old(probe).desktops && result->Ok_0->Reply_0.desktops@.len() == displays@.len(),
        !begins ==> (result is Ok <==> read is Ok && read->Ok_0.desktop_index < displays@.len()),
        !begins && result is Ok ==> result->Ok_0 is Switched,
        result is Err ==> result->Err_0 is Rejected && final(probe).desktops == old(probe).desktops,
        final(probe).lister == old(probe).lister,
{
}

/// Scripts are evaluated over the displays that are active, and those are the
/// outputs; where they cannot be listed, neither can be had.
pub proof fn law_active_displays_are_what_counts<L: DisplayLister>(
    probe: &mut MacDesktopProbe<L>,
    script: &str,
    result: Result<Evaluated, ProbeError>,
    other: &MacDesktopProbe<L>,
    outputs: Result<Vec<SystemOutput>, ProbeError>,
    lister: L,
    saved: NameMap<DesktopRecord>,
    fresh: MacDesktopProbe<L>,
)
    requires
        call_ensures(MacDesktopProbe::<L>::evaluate_script, (probe, script), result),
        call_ensures(MacDesktopProbe::<L>::system_outputs, (other,), outputs),
        call_ensures(MacDesktopProbe::<L>::with_lister, (lister, saved), fresh),
    ensures
        exists|listed: Result<Vec<Display>, ProbeError>| #[trigger]
            call_ensures(L::active_displays, (&old(probe).lister,), listed) && (listed is Err
                ==> result is Err && result->Err_0 == listed->Err_0 && final(probe).desktops == old(probe).desktops) && (result is Ok && result->Ok_0 is Reply ==> listed is Ok
                && result->Ok_0->Reply_0.desktops@.len() == listed->Ok_0@.len()),
        exists|listed: Result<Vec<Display>, ProbeError>| #[trigger]
            call_ensures(L::active_displays, (&other.lister,), listed) && (listed is Ok
                <==> outputs is Ok) && (outputs is Ok ==> outputs->Ok_0@.len()
                == listed->Ok_0@.len() && forall|i: int|
                0 <= i < listed->Ok_0@.len() ==> (#[trigger] outputs->Ok_0@[i]).name@
                    == listed->Ok_0@[i].name@ && outputs->Ok_0@[i].enabled
                    && outputs->Ok_0@[i].connected),
        fresh.lister == lister && fresh.desktops == saved,
{
    let seen = choose|listed: Result<Vec<Display>, ProbeError>| #[trigger]
        call_ensures(L::active_displays, (&probe.lister,), listed) && match listed {
            Ok(displays) => crate::macos_desktop::evaluates(
                probe.desktops,
                displays@,
                script@,
                result,
                final(probe).desktops,
            ),
            Err(error) => result == Err::<Evaluated, ProbeError>(error) && final(probe).desktops
                == probe.desktops,
        };
    assert(call_ensures(L::active_displays, (&probe.lister,), seen));
    let listed = choose|listed: Result<Vec<Display>, ProbeError>| #[trigger]
        call_ensures(L::active_displays, (&other.lister,), listed) && match listed {
            Ok(displays) => outputs matches Ok(list) && crate::macos_desktop::lists_displays(
                list@,
                displays@,
            ),
            Err(error) => outputs == Err::<Vec<SystemOutput>, ProbeError>(error),
        };
    assert(call_ensures(L::active_displays, (&other.lister,), listed));
    if outputs is Ok && listed is Ok {
        assert forall|i: int| 0 <= i < listed->Ok_0@.len() implies (
        #[trigger] outputs->Ok_0@[i]).name@ == listed->Ok_0@[i].name@
            && outputs->Ok_0@[i].enabled && outputs->Ok_0@[i].connected by {
            assert(outputs->Ok_0@[i]@.name == listed->Ok_0@[i].name@);
        }
    }
}

/// A display environment that is forgotten is gone, and nothing else is.
pub proof fn law_forgotten_display_is_gone(probe: &mut QdbusShellProbe)
    requires
        call_ensures(QdbusShellProbe::forget_display_env, (probe,), ()),
    ensures
        final(probe).display_env is None,
        final(probe).evaluator == old(probe).evaluator,
        final(probe).kscreen_binary == old(probe).kscreen_binary,
        final(probe).systemctl_binary == old(probe).systemctl_binary,
        final(probe).timeout_ms == old(probe).timeout_ms,
{
}

/// The stand-in begins with what it is given and has seen no script; what it is
/// to answer after the switch changes nothing else.
pub proof fn law_stand_in_begins_as_given(
    outputs: Vec<SystemOutput>,
    reply: Option<String>,
    stub: StubProbe,
    after: String,
    later: StubProbe,
    scripts: Vec<String>,
)
    requires
        call_ensures(StubProbe::new, (outputs, reply), stub),
        call_ensures(StubProbe::after_switch, (stub, after), later),
        call_ensures(StubProbe::scripts, (&later,), scripts),
    ensures
        later.outputs == outputs && later.reply == reply,
        later.kwe_reply == Some(after) && stub.kwe_reply is None,
        !later.reject_scripts && !later.kwe_assigned,
        scripts@.len() == 0,
{
}

// ---------------------------------------------------------------------------
// Failures in words, and what was read of them
// ---------------------------------------------------------------------------

/// A command that failed is told by what it complained of, and by how it ended
/// where it did not.
pub proof fn law_failed_commands_are_told(
    outcome: ChildOutcome,
    reply: Result<String, ProbeError>,
    complaint: &str,
    said: String,
    probe: &mut QdbusShellProbe,
    recovered: bool,
    listed: Result<Vec<SystemOutput>, ProbeError>,
)
    requires
        outcome is Exited && !outcome->success,
        call_ensures(evaluated, (outcome,), reply),
        complaint@ == outcome->stderr@,
        call_ensures(crate::text::trimmed, (complaint,), said),
        call_ensures(QdbusShellProbe::enumerated, (probe, recovered, outcome), listed),
    ensures
        said@.len() > 0 ==> reply->Err_0->Rejected_0@ == said@ && listed->Err_0->Rejected_0@
            == said@,
        said@.len() == 0 ==> reply->Err_0->Rejected_0@ == "evaluateScript exited "@
            + outcome->status@,
        said@.len() == 0 ==> listed->Err_0->Rejected_0@ == "kscreen-doctor exited "@
            + outcome->status@,
{
    reveal_strlit("evaluateScript exited ");
    reveal_strlit("kscreen-doctor exited ");
    reveal_strlit("evaluateScript");
    reveal_strlit("kscreen-doctor");
    reveal_strlit(" exited ");
    assert("evaluateScript exited "@ =~= "evaluateScript"@ + " exited "@);
    assert("kscreen-doctor exited "@ =~= "kscreen-doctor"@ + " exited "@);
}

/// The outputs that an enumeration lists are those that the report is read as,
/// and the display that a recovery gives is what the environment holds.
pub proof fn law_what_was_printed_is_what_was_read(
    outcome: ChildOutcome,
    report: &str,
    probe: &mut QdbusShellProbe,
    recovered: bool,
    listed: Result<Vec<SystemOutput>, ProbeError>,
    outputs: Vec<SystemOutput>,
    recovering: &mut QdbusShellProbe,
    entries: Result<Vec<(String, String)>, ProbeError>,
    held: Vec<(String, String)>,
    i: int,
)
    requires
        outcome is Exited && outcome->success,
        report@ == outcome->stdout@,
        call_ensures(QdbusShellProbe::enumerated, (probe, recovered, outcome), listed),
        call_ensures(crate::probe::parse_kscreen_doctor, (report,), outputs),
        call_ensures(QdbusShellProbe::recovered, (recovering, outcome), entries),
        call_ensures(crate::probe::parse_display_env, (report,), held),
    ensures
        listed->Ok_0@.len() == outputs@.len(),
        0 <= i < outputs@.len() ==> listed->Ok_0@[i].name@ == outputs@[i].name@
            && listed->Ok_0@[i].enabled == outputs@[i].enabled && listed->Ok_0@[i].connected
            == outputs@[i].connected && (listed->Ok_0@[i].geometry is Some
            <==> outputs@[i].geometry is Some) && (outputs@[i].geometry is Some
            ==> listed->Ok_0@[i].geometry->0@ == outputs@[i].geometry->0@),
        entries is Ok <==> held@.len() > 0,
        entries is Ok ==> entries->Ok_0@.len() == held@.len() && final(recovering).display_env->0@.len() == held@.len(),
        entries is Ok && 0 <= i < held@.len() ==> entries->Ok_0@[i].0@ == held@[i].0@
            && entries->Ok_0@[i].1@ == held@[i].1@ && final(recovering).display_env->0@[i].0@
            == held@[i].0@ && final(recovering).display_env->0@[i].1@ == held@[i].1@,
{
    let a = crate::probe::system_views(listed->Ok_0@);
    let b = crate::probe::system_views(outputs@);
    assert(a.len() == listed->Ok_0@.len() && b.len() == outputs@.len());
    if 0 <= i < outputs@.len() {
        assert(a[i] == listed->Ok_0@[i]@ && b[i] == outputs@[i]@);
    }
    let d = crate::probe::pair_views(held@);
    assert(d.len() == held@.len());
    if entries is Ok {
        let c = crate::probe::pair_views(entries->Ok_0@);
        let kept = final(recovering).display_env->0@;
        let e = crate::probe::pair_views(kept);
        assert(c.len() == entries->Ok_0@.len() && e.len() == kept.len());
        if 0 <= i < held@.len() {
            assert(c[i] == (entries->Ok_0@[i].0@, entries->Ok_0@[i].1@));
            assert(d[i] == (held@[i].0@, held@[i].1@));
            assert(e[i] == (kept[i].0@, kept[i].1@));
        }
    }
}

/// A tool is found under the earliest name that is a file anywhere, in the
/// earliest directory; where none is found, none was there.
pub proof fn law_earlier_names_are_preferred<P: Fn(&str) -> bool>(
    search: &str,
    names: &Vec<String>,
    is_file: P,
    found: Option<String>,
    directories: Vec<String>,
    n: int,
    d: int,
    path: String,
    directory: &str,
    name: &str,
)
    requires
        call_ensures(find_in_path::<P>, (Some(search), names, is_file), found),
        call_ensures(split_path, (search,), directories),
        0 <= n < names@.len(),
        0 <= d < directories@.len(),
        directory@ == directories@[d]@,
        name@ == names@[n]@,
        call_ensures(crate::apply::join_path, (directory, name), path),
        forall|asked: &str, answer: bool| #[trigger]
            call_ensures(is_file, (asked,), answer) && asked@ == path@ ==> answer,
    ensures
        found is Some,
        exists|m: int, e: int|
            0 <= m <= n && 0 <= e < directories@.len() && (m < n || e <= d) && found->0@
                == #[trigger] crate::apply::joined(directories@[e]@, names@[m]@),
{
    let pieces = crate::shell::path_pieces(search@, 0);
    let wanted = crate::text::views(names@);
    let views = crate::text::views(directories@);
    assert(views == pieces);
    assert(views[d] == directories@[d]@ && wanted[n] == names@[n]@);
    let there = crate::apply::joined(pieces[d], wanted[n]);
    assert(path@ == there);
    assert(!crate::shell::answers(is_file, there, false)) by {
        if crate::shell::answers(is_file, there, false) {
            let asked = choose|asked: &str|
                asked@ == there && #[trigger] call_ensures(is_file, (asked,), false);
            assert(call_ensures(is_file, (asked,), false));
        }
    }
    assert(found is Some);
    let file = found->0@;
    let (m, e) = choose|m: int, e: int|
        {
            &&& 0 <= m < wanted.len()
            &&& 0 <= e < pieces.len()
            &&& file == #[trigger] crate::apply::joined(pieces[e], wanted[m])
            &&& crate::shell::answers(is_file, file, true)
            &&& forall|k: int, l: int|
                0 <= k <= m && 0 <= l < pieces.len() && (k < m || l < e)
                    ==> crate::shell::answers(
                    is_file,
                    #[trigger] crate::apply::joined(pieces[l], wanted[k]),
                    false,
                )
        };
    assert(m < n || (m == n && e <= d)) by {
        if n < m || (n == m && d < e) {
            assert(crate::shell::answers(
                is_file,
                crate::apply::joined(pieces[d], wanted[n]),
                false,
            ));
        }
    }
    assert(views[e] == directories@[e]@ && wanted[m] == names@[m]@);
    assert(found->0@ == crate::apply::joined(directories@[e]@, names@[m]@));
}

// ---------------------------------------------------------------------------
// Reading literals and scripts
// ---------------------------------------------------------------------------

/// A plain character is read as itself, and so is one after a backslash that
/// means nothing else; what follows is read as if nothing stood before it.
pub proof fn law_literals_are_read_from_the_front(
    c: char,
    escaped: bool,
    rest: String,
    rest_out: String,
    whole: String,
    whole_out: String,
)
    requires
        call_ensures(unescape_js, (rest,), rest_out),
        call_ensures(unescape_js, (whole,), whole_out),
        !escaped ==> c != '\\' && whole@ == seq![c] + rest@,
        escaped ==> c != 'n' && c != 'r' && c != 'u' && whole@ == seq!['\\', c] + rest@,
    ensures
        whole_out@ == seq![c] + rest_out@,
{
    let n: nat = if escaped {
        2
    } else {
        1
    };
    assert(whole@.skip(n as int) =~= rest@);
    lemma_read_from(whole@, n, rest@, 0);
    if escaped {
        assert(whole@[0] == '\\' && whole@[1] == c);
    } else {
        assert(whole@[0] == c);
    }
}

proof fn lemma_read_from(s: Seq<char>, by: nat, rest: Seq<char>, from: nat)
    requires
        by <= s.len(),
        rest == s.skip(by as int),
        from <= rest.len(),
    ensures
        crate::macos_desktop::unescaped_from(s, by + from) == crate::macos_desktop::unescaped_from(
            rest,
            from,
        ),
    decreases rest.len() - from,
{
    if from < rest.len() {
        assert(rest[from as int] == s[by as int + from]);
        if rest[from as int] != '\\' {
            lemma_read_from(s, by, rest, from + 1);
        } else if from + 1 < rest.len() {
            assert(rest[from as int + 1] == s[by as int + from + 1]);
            lemma_read_from(s, by, rest, from + 2);
            let end: nat = if from + 6 <= rest.len() {
                from + 6
            } else {
                rest.len()
            };
            lemma_read_from(s, by, rest, end);
            assert(rest.subrange(from as int + 2, end as int) =~= s.subrange(
                by as int + from + 2,
                by as int + end,
            ));
        }
    }
}

/// An escape of four hexadecimal digits is read as the character of that
/// number, where there is one.
pub proof fn law_coded_characters_are_read(
    digits: Seq<char>,
    rest: String,
    rest_out: String,
    whole: String,
    whole_out: String,
    code: int,
)
    requires
        call_ensures(unescape_js, (rest,), rest_out),
        call_ensures(unescape_js, (whole,), whole_out),
        digits.len() == 4,
        forall|i: int|
            0 <= i < 4 ==> (48 <= (#[trigger] digits[i]) as int <= 57 || 97 <= digits[i] as int
                <= 102),
        code == ((crate::laws_apply::half_byte(digits[0]) * 16 + crate::laws_apply::half_byte(
            digits[1],
        )) * 16 + crate::laws_apply::half_byte(digits[2])) * 16 + crate::laws_apply::half_byte(
            digits[3],
        ),
        code < 0xd800 || code > 0xdfff,
        whole@ == seq!['\\', 'u'] + digits + rest@,
    ensures
        whole_out@.len() == rest_out@.len() + 1,
        whole_out@[0] as int == code,
        whole_out@.skip(1) == rest_out@,
{
    assert(whole@.skip(6) =~= rest@);
    lemma_read_from(whole@, 6, rest@, 0);
    assert(whole@[0] == '\\' && whole@[1] == 'u');
    assert(whole@.subrange(2, 6) =~= digits);
    let a = digits.take(1);
    let b = digits.take(2);
    let c = digits.take(3);
    assert(digits.drop_last() =~= c && digits.last() == digits[3]);
    assert(c.drop_last() =~= b && c.last() == digits[2]);
    assert(b.drop_last() =~= a && b.last() == digits[1]);
    assert(a.drop_last() =~= Seq::empty() && a.last() == digits[0]);
    assert(crate::macos_desktop::hex_digits(Seq::empty()) == Some(0nat));
    assert(48 <= digits[0] as int <= 57 || 97 <= digits[0] as int <= 102);
    assert(48 <= digits[1] as int <= 57 || 97 <= digits[1] as int <= 102);
    assert(48 <= digits[2] as int <= 57 || 97 <= digits[2] as int <= 102);
    assert(48 <= digits[3] as int <= 57 || 97 <= digits[3] as int <= 102);
    assert(crate::macos_desktop::hex_digits(a) == Some(
        crate::laws_apply::half_byte(digits[0]) as nat,
    ));
    let h0 = crate::laws_apply::half_byte(digits[0]);
    let h1 = crate::laws_apply::half_byte(digits[1]);
    let h2 = crate::laws_apply::half_byte(digits[2]);
    let h3 = crate::laws_apply::half_byte(digits[3]);
    assert(crate::macos_desktop::hex_digit(digits[1]) == Some(h1 as nat));
    assert(crate::macos_desktop::hex_digit(digits[2]) == Some(h2 as nat));
    assert(crate::macos_desktop::hex_digit(digits[3]) == Some(h3 as nat));
    assert(crate::macos_desktop::hex_digits(b) == Some((h0 * 16 + h1) as nat));
    assert(crate::macos_desktop::hex_digits(c) == Some(((h0 * 16 + h1) * 16 + h2) as nat));
    assert(crate::macos_desktop::hex_digits(digits) == Some(code as nat));
    let out = whole_out@;
    assert(out == seq![(code as nat) as char] + rest_out@);
    assert(out.skip(1) =~= rest_out@);
}

/// A script that is read as a switch says so: the plugin stands in it, after the
/// words that assign it, and is made of name characters; the index stands
/// between the brackets of `desktops()`; and the image is touched exactly if a
/// config group is selected.
pub proof fn law_switches_stand_in_their_script(
    script: &str,
    read: Result<SwitchCommand, ProbeError>,
)
    requires
        call_ensures(parse_switch_script, (script,), read),
    ensures
        read is Err ==> read->Err_0 is Rejected,
        read matches Ok(command) ==> {
            &&& command.plugin@.len() > 0
            &&& forall|i: int|
                0 <= i < command.plugin@.len() ==> crate::laws_stores::is_name_char(
                    #[trigger] command.plugin@[i],
                )
            &&& has_part(script@, "wallpaperPlugin = \""@ + command.plugin@ + seq!['"'])
            &&& exists|digits: Seq<char>|
                #[trigger] has_part(script@, "desktops()["@ + digits + seq![']'])
                    && crate::text::parse_unsigned(digits, usize::MAX as nat) == Some(
                    command.desktop_index as nat,
                )
            &&& command.touches_image <==> has_part(script@, "currentConfigGroup = ["@)
            &&& command.image is Some ==> has_part(script@, "writeConfig(\"Image\", \""@)
        },
{
    if let Ok(command) = read {
        let s = script@;
        assert forall|i: int| 0 <= i < command.plugin@.len() implies
            crate::laws_stores::is_name_char(#[trigger] command.plugin@[i]) by {
            assert(crate::identity::identity_char(command.plugin@[i]));
        }
        let opening = "wallpaperPlugin = \""@;
        let from = crate::macos_desktop::plugin_from(s);
        lemma_place(s, opening, from);
        let place = crate::macos_desktop::literal_place(s, opening, from)->0;
        assert(command.plugin@ == s.subrange(place.0 as int, place.1 as int));
        let marker = "desktops()["@;
        crate::text::lemma_find_result(s, marker, 0);
        let found = crate::text::find_from(s, marker, 0)->0;
        let start = found + marker.len();
        crate::text::lemma_index_of(s, ']', start);
        let end = crate::text::index_of(s, ']', start);
        let digits = s.subrange(start as int, end as int);
        let whole = marker + digits + seq![']'];
        assert forall|i: int| 0 <= i < whole.len() implies #[trigger] s[found + i] == whole[i] by {
            if i < marker.len() {
                assert(s.subrange(found as int, (found + marker.len()) as int)[i] == s[found + i]);
            } else if i < marker.len() + digits.len() {
                assert(digits[i - marker.len()] == s[found + i]);
            }
        }
        assert(part_at(s, whole, found as int));
        assert(has_part(s, whole));
        lemma_contains(s, "currentConfigGroup = ["@);
        if command.image is Some {
            crate::text::lemma_find_result(s, "writeConfig(\"Image\", \""@, 0);
            lemma_contains(s, "writeConfig(\"Image\", \""@);
        }
    }
}

proof fn lemma_contains(s: Seq<char>, marker: Seq<char>)
    ensures
        crate::text::contains(s, marker) <==> has_part(s, marker),
        forall|at: int| #[trigger] crate::text::occurs_at(s, marker, at) ==> has_part(s, marker),
{
    assert forall|at: int| #[trigger] crate::text::occurs_at(s, marker, at) implies has_part(
        s,
        marker,
    ) by {
        let part = s.subrange(at, at + marker.len());
        assert forall|i: int| 0 <= i < marker.len() implies #[trigger] s[at + i] == marker[i] by {
            assert(part[i] == s[at + i]);
        }
        assert(part_at(s, marker, at));
    }
    if has_part(s, marker) {
        let at = choose|at: int| #[trigger] part_at(s, marker, at);
        assert forall|i: int| 0 <= i < marker.len() implies s.subrange(at, at + marker.len())[i]
            == marker[i] by {
            assert(s[at + i] == marker[i]);
        }
        assert(s.subrange(at, at + marker.len()) =~= marker);
        assert(crate::text::occurs_at(s, marker, at));
    }
}

proof fn lemma_place(s: Seq<char>, marker: Seq<char>, from: nat)
    ensures
        crate::macos_desktop::literal_place(s, marker, from) matches Some((start, end)) ==> has_part(
            s,
            marker + s.subrange(start as int, end as int) + seq!['"'],
        ),
{
    if let Some((start, end)) = crate::macos_desktop::literal_place(s, marker, from) {
        crate::text::lemma_find_result(s, marker, from);
        lemma_literal_end(s, start);
        let at = start - marker.len();
        let text = s.subrange(start as int, end as int);
        let whole = marker + text + seq!['"'];
        assert(s.subrange(at, at + marker.len()) == marker);
        assert forall|i: int| 0 <= i < whole.len() implies #[trigger] s[at + i] == whole[i] by {
            if i < marker.len() {
                assert(s.subrange(at, at + marker.len())[i] == s[at + i]);
            } else if i < marker.len() + text.len() {
                assert(text[i - marker.len()] == s[at + i]);
            }
        }
        assert(part_at(s, whole, at));
    }
}

/// What an inspector complained of last is told where its report was of no use.
pub proof fn law_complaints_are_told<R, V: FnOnce(&Vec<u8>) -> Result<R, String>>(
    success: bool,
    stream: FrameStream,
    stderr_tail: &Vec<u8>,
    validate: V,
    report: InspectReport<R>,
)
    requires
        call_ensures(finalize::<R, V>, (success, stream, stderr_tail, validate), report),
    ensures
        report matches InspectReport::Failed { stderr_tail: said } ==> said@
            == crate::inspect::lossy(stderr_tail@),
        report matches InspectReport::Missing { stderr_tail: said } ==> said@
            == crate::inspect::lossy(stderr_tail@),
        report matches InspectReport::Malformed { detail, stderr_tail: said } ==> said@
            == crate::inspect::lossy(stderr_tail@),
        success && stream.error is Some ==> report->detail@.len() <= stream.error->0@.len()
            && report->detail@ == stream.error->0@.take(report->detail@.len() as int),
{
    lemma_inspections(stream.frames@);
}

// ---------------------------------------------------------------------------
// The group of a restored wallpaper
// ---------------------------------------------------------------------------

proof fn lemma_part_within(before: Seq<char>, middle: Seq<char>, after: Seq<char>, part: Seq<char>)
    requires
        has_part(middle, part),
    ensures
        has_part(before + middle + after, part),
{
    let at = choose|at: int| #[trigger] part_at(middle, part, at);
    let whole = before + middle + after;
    assert forall|i: int| 0 <= i < part.len() implies #[trigger] whole[before.len() + at + i]
        == part[i] by {
        assert(middle[at + i] == part[i]);
    }
    assert(part_at(whole, part, before.len() + at));
}

/// A literal of this text.
pub open spec fn quoted(text: Seq<char>) -> Seq<char> {
    "\""@ + text + "\""@
}

proof fn lemma_quoted_pair(group: Seq<String>, k: int)
    requires
        0 <= k < group.len() - 1,
    ensures
        has_part(
            crate::script::quoted_parts(group),
            quoted(group[k]@) + ", "@ + quoted(group[k + 1]@),
        ),
    decreases group.len(),
{
    let shorter = group.drop_last();
    let all = crate::script::quoted_parts(group);
    let rest = crate::script::quoted_parts(shorter);
    let pair = quoted(group[k]@) + ", "@ + quoted(group[k + 1]@);
    if k == group.len() - 2 {
        lemma_quoted_last(shorter);
        assert(shorter.last() == group[k]);
        let own = quoted(group[k]@);
        let start = rest.len() - own.len();
        assert(rest.skip(start) =~= own);
        assert(all =~= rest.take(start) + pair);
        assert(part_at(all, pair, start));
    } else {
        lemma_quoted_pair(shorter, k);
        assert(shorter[k] == group[k] && shorter[k + 1] == group[k + 1]);
        let own = ", "@ + quoted(group.last()@);
        lemma_part_within(seq![], rest, own, pair);
        assert(all =~= seq![] + rest + own);
    }
}

proof fn lemma_quoted_last(group: Seq<String>)
    requires
        group.len() > 0,
    ensures
        ({
            let all = crate::script::quoted_parts(group);
            let own = quoted(group.last()@);
            &&& all.len() >= own.len()
            &&& all.skip(all.len() - own.len()) == own
        }),
{
    let all = crate::script::quoted_parts(group);
    let own = quoted(group.last()@);
    if group.len() == 1 {
        assert(all =~= own);
        assert(all.skip(0) =~= own);
    } else {
        let rest = crate::script::quoted_parts(group.drop_last());
        assert(all =~= rest + ", "@ + own);
        assert(all.skip(all.len() - own.len()) =~= own);
    }
}

proof fn lemma_quoted_first(group: Seq<String>)
    requires
        group.len() > 0,
    ensures
        part_at(crate::script::quoted_parts(group), quoted(group[0]@), 0),
    decreases group.len(),
{
    let all = crate::script::quoted_parts(group);
    if group.len() > 1 {
        let shorter = group.drop_last();
        lemma_quoted_first(shorter);
        let rest = crate::script::quoted_parts(shorter);
        let own = quoted(group[0]@);
        assert forall|i: int| 0 <= i < own.len() implies #[trigger] all[0 + i] == own[i] by {
            assert(rest[0 + i] == own[i]);
        }
    }
}

/// The script that restores a wallpaper selects its config group before it
/// assigns the plugin, which it does last: the parts of the group as literals,
/// from the first to the last, each behind the one before it.
pub proof fn law_restore_script_selects_its_group(
    index: usize,
    plugin: &str,
    group: &[String],
    image: Option<&str>,
    script: Result<String, String>,
    k: int,
)
    requires
        call_ensures(restore_script, (index, plugin, group, image), script),
        script is Ok,
    ensures
        has_part(script->Ok_0@, "d.currentConfigGroup = ["@ + quoted(group@[0]@)),
        0 <= k < group@.len() - 1 ==> has_part(
            script->Ok_0@,
            quoted(group@[k]@) + ", "@ + quoted(group@[k + 1]@),
        ),
        has_part(script->Ok_0@, quoted(group@.last()@) + "];\n"@),
        script->Ok_0@.len() >= plugin@.len() + 23,
        part_at(
            script->Ok_0@,
            "d.wallpaperPlugin = \""@ + plugin@ + "\";"@,
            script->Ok_0@.len() - plugin@.len() - 23,
        ),
{
    reveal_strlit("d.wallpaperPlugin = \"");
    reveal_strlit("\";");
    let whole = script->Ok_0@;
    let digits = crate::text::decimal(index as nat);
    let parts = crate::script::quoted_parts(group@);
    let before = "var d = desktops()["@ + digits + "];\nif (!d) throw \"no desktop "@ + digits
        + "\";\n"@;
    let select = "d.currentConfigGroup = ["@;
    let closing = "];\n"@;
    let last = "d.wallpaperPlugin = \""@ + plugin@ + "\";"@;
    let line = crate::script::image_line(image);
    assert(whole =~= (before + select) + parts + (closing + line + last));
    if 0 <= k < group@.len() - 1 {
        lemma_quoted_pair(group@, k);
        lemma_part_within(
            before + select,
            parts,
            closing + line + last,
            quoted(group@[k]@) + ", "@ + quoted(group@[k + 1]@),
        );
    }
    lemma_quoted_first(group@);
    let first = select + quoted(group@[0]@);
    assert forall|i: int| 0 <= i < first.len() implies #[trigger] (select + parts)[0 + i]
        == first[i] by {
        if i >= select.len() {
            assert(parts[0 + (i - select.len())] == quoted(group@[0]@)[i - select.len()]);
        }
    }
    assert(part_at(select + parts, first, 0));
    lemma_part_within(before, select + parts, closing + line + last, first);
    assert(whole =~= before + (select + parts) + (closing + line + last));
    lemma_quoted_last(group@);
    let own = quoted(group@.last()@);
    let start = parts.len() - own.len();
    assert(parts + closing =~= parts.take(start) + (own + closing));
    assert(part_at(parts + closing, own + closing, start));
    lemma_part_within(before + select, parts + closing, line + last, own + closing);
    assert(whole =~= (before + select) + (parts + closing) + (line + last));
}

} // verus!
