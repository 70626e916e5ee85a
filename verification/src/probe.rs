//! What the daemon learns about displays and desktops: the parsers for the
//! tools it runs, and the merged per-output view.

use vstd::prelude::*;

use crate::names::NameMap;
use crate::text;
use crate::text::{
    after_prefix, chars_of, cut_once, has_marker, read_signed, same, split_lines, split_words,
    trimmed,
};

verus! {

// ---------------------------------------------------------------------------
// Probe failures
// ---------------------------------------------------------------------------

/// Why a shell probe failed. `Unreachable` means the shell or its tooling could
/// not be reached at all, `Rejected` that it ran and refused;
/// `DisplayUnavailable` is the case that the user can fix: there is no display
/// server to talk to.
#[derive(Debug, Clone, PartialEq, Eq)]
pub enum ProbeError {
    Unreachable(String),
    Rejected(String),
    TimedOut(String),
    Parse(String),
    DisplayUnavailable(String),
}

impl ProbeError {
    /// The detail, whatever the failure.
    pub open spec fn text(&self) -> Seq<char> {
        match self {
            ProbeError::Unreachable(detail) => detail@,
            ProbeError::Rejected(detail) => detail@,
            ProbeError::TimedOut(detail) => detail@,
            ProbeError::Parse(detail) => detail@,
            ProbeError::DisplayUnavailable(detail) => detail@,
        }
    }

    /// The failure in words.
    pub fn message(&self) -> (detail: String)
        ensures
            detail@ == self.text(),
    {
        match self {
            ProbeError::Unreachable(detail) => detail.clone(),
            ProbeError::Rejected(detail) => detail.clone(),
            ProbeError::TimedOut(detail) => detail.clone(),
            ProbeError::Parse(detail) => detail.clone(),
            ProbeError::DisplayUnavailable(detail) => detail.clone(),
        }
    }
}

/// Classifies the failure of a bounded child: killed at the deadline is a
/// timeout, anything else is a toolchain that cannot be reached.
pub fn classify_probe_failure(detail: &str) -> (error: ProbeError)
    ensures
        error.text() == detail@,
        text::contains(detail@, "timed out"@) ==> error is TimedOut,
        !text::contains(detail@, "timed out"@) ==> error is Unreachable,
{
    let chars = chars_of(detail);
    let marker = chars_of("timed out");
    if has_marker(&chars, &marker) {
        ProbeError::TimedOut(detail.to_owned())
    } else {
        ProbeError::Unreachable(detail.to_owned())
    }
}

/// The message of a child killed at its deadline is classified as a timeout,
/// whatever tool name stands before it.
pub proof fn law_killed_child_is_a_timeout(prefix: Seq<char>, timeout_ms: nat)
    ensures
        text::contains(
            prefix + ("timed out after "@ + text::decimal(timeout_ms) + " ms and was killed"@),
            "timed out"@,
        ),
{
    reveal_strlit("timed out");
    reveal_strlit("timed out after ");
    let message = "timed out after "@ + text::decimal(timeout_ms) + " ms and was killed"@;
    let whole = prefix + message;
    assert(whole.subrange(prefix.len() as int, prefix.len() as int + 9) =~= "timed out"@);
    assert(text::occurs_at(whole, "timed out"@, prefix.len() as int));
}

// ---------------------------------------------------------------------------
// Terminal escapes
// ---------------------------------------------------------------------------

pub open spec fn is_letter(c: char) -> bool {
    ('a' <= c && c <= 'z') || ('A' <= c && c <= 'Z')
}

/// The position after the letter that ends a control sequence, or the end.
pub open spec fn after_letter(s: Seq<char>, from: nat) -> nat
    decreases s.len() - from,
{
    if from >= s.len() {
        s.len()
    } else if is_letter(s[from as int]) {
        from + 1
    } else {
        after_letter(s, from + 1)
    }
}

/// The position after the bell that ends a system command, or the end.
pub open spec fn after_bell(s: Seq<char>, from: nat) -> nat
    decreases s.len() - from,
{
    if from >= s.len() {
        s.len()
    } else if s[from as int] == '\u{7}' {
        from + 1
    } else {
        after_bell(s, from + 1)
    }
}

pub proof fn lemma_after_letter(s: Seq<char>, from: nat)
    requires
        from <= s.len(),
    ensures
        from <= after_letter(s, from) <= s.len(),
    decreases s.len() - from,
{
    if from < s.len() && !is_letter(s[from as int]) {
        lemma_after_letter(s, from + 1);
    }
}

pub proof fn lemma_after_bell(s: Seq<char>, from: nat)
    requires
        from <= s.len(),
    ensures
        from <= after_bell(s, from) <= s.len(),
    decreases s.len() - from,
{
    if from < s.len() && s[from as int] != '\u{7}' {
        lemma_after_bell(s, from + 1);
    }
}

/// The text from `from` on without escape sequences: `ESC [` up to a letter,
/// `ESC ]` up to a bell, `ESC` with any other character.
pub open spec fn without_ansi(s: Seq<char>, from: nat) -> Seq<char>
    decreases s.len() - from,
{
    if from >= s.len() {
        seq![]
    } else if s[from as int] != '\u{1b}' {
        seq![s[from as int]] + without_ansi(s, from + 1)
    } else if from + 1 >= s.len() {
        seq![]
    } else {
        proof {
            lemma_after_letter(s, from + 2);
            lemma_after_bell(s, from + 2);
        }
        if s[from as int + 1] == '[' {
            without_ansi(s, after_letter(s, from + 2))
        } else if s[from as int + 1] == ']' {
            without_ansi(s, after_bell(s, from + 2))
        } else {
            without_ansi(s, from + 2)
        }
    }
}

/// Strips terminal escape sequences.
pub fn strip_ansi(line: &str) -> (plain: String)
    ensures
        plain@ == without_ansi(line@, 0),
{
    let chars = chars_of(line);
    let mut out = String::new();
    let mut i: usize = 0;
    assert(out@ + without_ansi(chars@, 0) =~= without_ansi(chars@, 0));
    while i < chars.len()
        invariant
            i <= chars.len(),
            out@ + without_ansi(chars@, i as nat) == without_ansi(chars@, 0),
        decreases chars.len() - i,
    {
        let ghost before = out@;
        if chars[i] != '\u{1b}' {
            out.push(chars[i]);
            assert(before + (seq![chars@[i as int]] + without_ansi(chars@, (i + 1) as nat))
                =~= out@ + without_ansi(chars@, (i + 1) as nat));
            i = i + 1;
        } else if i + 1 == chars.len() {
            i = i + 1;
            assert(without_ansi(chars@, i as nat) =~= seq![]);
        } else {
            let kind: char = chars[i + 1];
            let ghost start = i;
            i = i + 2;
            if kind == '[' {
                proof {
                    lemma_after_letter(chars@, (start + 2) as nat);
                }
                let mut done = false;
                while i < chars.len() && !done
                    invariant
                        start + 2 <= i <= chars.len(),
                        !done ==> after_letter(chars@, (start + 2) as nat) == after_letter(
                            chars@,
                            i as nat,
                        ),
                        done ==> i == after_letter(chars@, (start + 2) as nat),
                    decreases chars.len() - i,
                {
                    let c: char = chars[i];
                    if (c >= 'a' && c <= 'z') || (c >= 'A' && c <= 'Z') {
                        done = true;
                    }
                    i = i + 1;
                }
            } else if kind == ']' {
                proof {
                    lemma_after_bell(chars@, (start + 2) as nat);
                }
                let mut done = false;
                while i < chars.len() && !done
                    invariant
                        start + 2 <= i <= chars.len(),
                        !done ==> after_bell(chars@, (start + 2) as nat) == after_bell(
                            chars@,
                            i as nat,
                        ),
                        done ==> i == after_bell(chars@, (start + 2) as nat),
                    decreases chars.len() - i,
                {
                    if chars[i] == '\u{7}' {
                        done = true;
                    }
                    i = i + 1;
                }
            }
        }
    }
    assert(out@ =~= out@ + without_ansi(chars@, i as nat));
    out
}

// ---------------------------------------------------------------------------
// kscreen-doctor
// ---------------------------------------------------------------------------

/// One output as `kscreen-doctor -o` reports it.
#[derive(Debug, Clone, PartialEq, Eq)]
pub struct SystemOutput {
    pub name: String,
    pub enabled: bool,
    pub connected: bool,
    /// `[x, y, width, height]` when the doctor reported geometry.
    pub geometry: Option<[i32; 4]>,
}

/// What an output is, apart from its representation.
#[verifier::ext_equal]
pub struct SystemOutputView {
    pub name: Seq<char>,
    pub enabled: bool,
    pub connected: bool,
    pub geometry: Option<Seq<i32>>,
}

/// The four numbers of a geometry.
pub open spec fn geometry_view(geometry: Option<[i32; 4]>) -> Option<Seq<i32>> {
    match geometry {
        Some(numbers) => Some(numbers@),
        None => None,
    }
}

impl View for SystemOutput {
    type V = SystemOutputView;

    open spec fn view(&self) -> SystemOutputView {
        SystemOutputView {
            name: self.name@,
            enabled: self.enabled,
            connected: self.connected,
            geometry: geometry_view(self.geometry),
        }
    }
}

/// `x,y WxH` as four numbers; anything else is no geometry.
pub open spec fn geometry_of(s: Seq<char>) -> Option<Seq<i32>> {
    let words = text::words_from(s, 0);
    if words.len() < 2 {
        None
    } else {
        match (text::split_once(words[0], ','), text::split_once(words[1], 'x')) {
            (Some((x, y)), Some((w, h))) => match (
                text::parse_signed(x),
                text::parse_signed(y),
                text::parse_signed(w),
                text::parse_signed(h),
            ) {
                (Some(x), Some(y), Some(w), Some(h)) => Some(
                    seq![x as i32, y as i32, w as i32, h as i32],
                ),
                _ => None,
            },
            _ => None,
        }
    }
}

/// Reads a whole text as a signed number.
fn signed(number: &str) -> (value: Option<i32>)
    ensures
        match value {
            Some(n) => text::parse_signed(number@) == Some(n as int),
            None => text::parse_signed(number@) is None,
        },
{
    let chars = chars_of(number);
    assert(chars@.subrange(0, chars@.len() as int) =~= number@);
    read_signed(&chars, 0, chars.len())
}

/// `x,y WxH` as `[x, y, w, h]`.
pub fn parse_geometry(text: &str) -> (geometry: Option<[i32; 4]>)
    ensures
        geometry_view(geometry) == geometry_of(text@),
{
    let words = split_words(text);
    let ghost spec_words = text::words_from(text@, 0);
    assert(words@.len() == text::views(words@).len() == spec_words.len());
    if words.len() < 2 {
        return None;
    }
    assert(words@[0]@ == text::views(words@)[0] && words@[1]@ == text::views(words@)[1]);
    let position = match cut_once(words[0].as_str(), ',') {
        Some(parts) => parts,
        None => { return None },
    };
    let size = match cut_once(words[1].as_str(), 'x') {
        Some(parts) => parts,
        None => { return None },
    };
    let x: i32 = match signed(position.0.as_str()) {
        Some(n) => n,
        None => { return None },
    };
    let y: i32 = match signed(position.1.as_str()) {
        Some(n) => n,
        None => { return None },
    };
    let w: i32 = match signed(size.0.as_str()) {
        Some(n) => n,
        None => { return None },
    };
    let h: i32 = match signed(size.1.as_str()) {
        Some(n) => n,
        None => { return None },
    };
    let numbers: [i32; 4] = [x, y, w, h];
    assert(numbers@ =~= seq![x, y, w, h]);
    Some(numbers)
}

/// The text of a doctor line that carries meaning.
pub open spec fn doctor_line(raw: Seq<char>) -> Seq<char> {
    text::trim(without_ansi(raw, 0))
}

/// The output that a heading `Output: <index> <name> ...` opens.
pub open spec fn opened_output(rest: Seq<char>) -> Option<SystemOutputView> {
    let words = text::words_from(rest, 0);
    if words.len() < 2 {
        None
    } else {
        Some(
            SystemOutputView { name: words[1], enabled: true, connected: false, geometry: None },
        )
    }
}

/// An output after one more of its lines.
pub open spec fn described(output: SystemOutputView, line: Seq<char>) -> SystemOutputView {
    if line == "enabled"@ {
        SystemOutputView { enabled: true, ..output }
    } else if line == "disabled"@ {
        SystemOutputView { enabled: false, ..output }
    } else if line == "connected"@ {
        SystemOutputView { connected: true, ..output }
    } else if line == "disconnected"@ {
        SystemOutputView { connected: false, ..output }
    } else if text::starts_with(line, "Geometry: "@) {
        SystemOutputView { geometry: geometry_of(line.skip("Geometry: "@.len() as int)), ..output }
    } else {
        output
    }
}

/// The outputs that the lines from `from` on report, where `current` is the
/// output whose block is being read.
pub open spec fn doctor_outputs(
    lines: Seq<Seq<char>>,
    from: nat,
    current: Option<SystemOutputView>,
) -> Seq<SystemOutputView>
    decreases lines.len() - from,
{
    let closed_block = match current {
        Some(output) => seq![output],
        None => seq![],
    };
    if from >= lines.len() {
        closed_block
    } else {
        let line = doctor_line(lines[from as int]);
        if text::starts_with(line, "Output: "@) {
            closed_block + doctor_outputs(
                lines,
                from + 1,
                opened_output(line.skip("Output: "@.len() as int)),
            )
        } else {
            doctor_outputs(
                lines,
                from + 1,
                match current {
                    Some(output) => Some(described(output, line)),
                    None => None,
                },
            )
        }
    }
}

/// The views of a list of outputs.
pub open spec fn system_views(outputs: Seq<SystemOutput>) -> Seq<SystemOutputView> {
    Seq::new(outputs.len(), |i: int| outputs[i]@)
}

pub open spec fn current_view(current: Option<SystemOutput>) -> Option<SystemOutputView> {
    match current {
        Some(output) => Some(output@),
        None => None,
    }
}

/// Applies one line to the output whose block it stands in.
fn describe(output: SystemOutput, line: &str) -> (updated: SystemOutput)
    ensures
        updated@ == described(output@, line@),
{
    let mut output = output;
    if same(line, "enabled") {
        output.enabled = true;
    } else if same(line, "disabled") {
        output.enabled = false;
    } else if same(line, "connected") {
        output.connected = true;
    } else if same(line, "disconnected") {
        output.connected = false;
    } else {
        match after_prefix(line, "Geometry: ") {
            Some(rest) => {
                output.geometry = parse_geometry(rest.as_str());
            },
            None => {},
        }
    }
    output
}

/// Parses `kscreen-doctor -o`: `Output: <index> <name> <uuid>` blocks with
/// `enabled`, `connected` and `Geometry: x,y WxH` lines. Other lines are
/// ignored, and terminal escapes are stripped.
pub fn parse_kscreen_doctor(text: &str) -> (outputs: Vec<SystemOutput>)
    ensures
        system_views(outputs@) == doctor_outputs(text::lines_from(text@, 0), 0, None),
{
    let lines = split_lines(text);
    let ghost all = text::views(lines@);
    let mut outputs: Vec<SystemOutput> = Vec::new();
    let mut current: Option<SystemOutput> = None;
    let mut i: usize = 0;
    assert(system_views(outputs@) + doctor_outputs(all, 0, None) =~= doctor_outputs(all, 0, None));
    while i < lines.len()
        invariant
            i <= lines.len(),
            all == text::views(lines@),
            system_views(outputs@) + doctor_outputs(all, i as nat, current_view(current))
                == doctor_outputs(all, 0, None),
        decreases lines.len() - i,
    {
        let ghost before = outputs@;
        let ghost was = current_view(current);
        assert(all[i as int] == lines@[i as int]@);
        let plain = strip_ansi(lines[i].as_str());
        let line = trimmed(plain.as_str());
        match after_prefix(line.as_str(), "Output: ") {
            Some(rest) => {
                match current {
                    Some(done) => {
                        outputs.push(done);
                        assert(system_views(outputs@) =~= system_views(before) + seq![done@]);
                    },
                    None => {},
                }
                let words = split_words(rest.as_str());
                assert(words@.len() == text::views(words@).len());
                if words.len() >= 2 {
                    assert(words@[1]@ == text::views(words@)[1]);
                    current = Some(
                        SystemOutput {
                            name: words[1].clone(),
                            enabled: true,
                            connected: false,
                            geometry: None,
                        },
                    );
                } else {
                    current = None;
                }
                proof {
                    let block = match was {
                        Some(output) => seq![output],
                        None => seq![],
                    };
                    let later = doctor_outputs(all, (i + 1) as nat, current_view(current));
                    assert(current_view(current) == opened_output(rest@));
                    assert(doctor_outputs(all, i as nat, was) == block + later);
                    assert(system_views(outputs@) =~= system_views(before) + block);
                    assert(system_views(before) + (block + later) =~= system_views(outputs@)
                        + later);
                }
            },
            None => {
                current = match current {
                    Some(output) => Some(describe(output, line.as_str())),
                    None => None,
                };
            },
        }
        i = i + 1;
    }
    let ghost before = outputs@;
    match current {
        Some(last) => {
            outputs.push(last);
            assert(system_views(outputs@) =~= system_views(before) + seq![last@]);
        },
        None => {},
    }
    assert(system_views(outputs@) =~= doctor_outputs(all, 0, None));
    outputs
}

// ---------------------------------------------------------------------------
// The display environment
// ---------------------------------------------------------------------------

/// The longest display value, in bytes.
pub const MAX_DISPLAY_VALUE_BYTES: usize = 128;

/// What the user is told when there is no display to talk to.
pub const DISPLAY_UNAVAILABLE_HINT: &'static str =
    "the wallpaper service cannot reach the display server (it started before the desktop session did); run `systemctl --user restart kwe-daemon`";

/// A printable ASCII character that is neither a space nor used for quoting.
pub open spec fn display_char(c: char) -> bool {
    '!' <= c && c <= '~' && c != '"' && c != '\'' && c != '`' && c != '$' && c != '\\'
}

/// A value that may be handed to a child process as its display.
pub open spec fn valid_display(value: Seq<char>) -> bool {
    1 <= value.len() <= MAX_DISPLAY_VALUE_BYTES && forall|i: int|
        0 <= i < value.len() ==> display_char(#[trigger] value[i])
}

/// The keys that name a display.
pub open spec fn display_key(key: Seq<char>) -> bool {
    key == "WAYLAND_DISPLAY"@ || key == "DISPLAY"@
}

/// The value without one layer of surrounding double quotes.
pub open spec fn unquoted(value: Seq<char>) -> Seq<char> {
    if value.len() >= 2 && value[0] == '"' && value.last() == '"' {
        value.subrange(1, value.len() - 1)
    } else {
        value
    }
}

/// The display variable that a `KEY=VALUE` line sets.
pub open spec fn display_entry(line: Seq<char>) -> Option<(Seq<char>, Seq<char>)> {
    match text::split_once(line, '=') {
        Some((key, value)) => if display_key(key) && valid_display(unquoted(value)) {
            Some((key, unquoted(value)))
        } else {
            None
        },
        None => None,
    }
}

/// The display variables that the lines from `from` on set.
pub open spec fn display_entries(lines: Seq<Seq<char>>, from: nat) -> Seq<(Seq<char>, Seq<char>)>
    decreases lines.len() - from,
{
    if from >= lines.len() {
        seq![]
    } else {
        let later = display_entries(lines, from + 1);
        match display_entry(lines[from as int]) {
            Some(entry) => seq![entry] + later,
            None => later,
        }
    }
}

pub open spec fn pair_views(pairs: Seq<(String, String)>) -> Seq<(Seq<char>, Seq<char>)> {
    Seq::new(pairs.len(), |i: int| (pairs[i].0@, pairs[i].1@))
}

/// Whether `value` is a bounded, non-empty run of printable ASCII without
/// white space and quoting characters.
pub fn valid_display_value(value: &str) -> (valid: bool)
    ensures
        valid == valid_display(value@),
{
    let count: usize = value.unicode_len();
    if count == 0 || count > MAX_DISPLAY_VALUE_BYTES {
        return false;
    }
    for c in it: value.chars()
        invariant
            it.seq() == value@,
            forall|i: int| 0 <= i < it.index() ==> display_char(#[trigger] value@[i]),
    {
        if !(c >= '!' && c <= '~') || c == '"' || c == '\'' || c == '`' || c == '$' || c == '\\' {
            assert(!display_char(value@[it.index() as int]));
            return false;
        }
    }
    true
}

/// The display variable that `line` sets, if it does.
fn read_display_entry(line: &str) -> (entry: Option<(String, String)>)
    ensures
        match entry {
            Some((key, value)) => display_entry(line@) == Some((key@, value@)),
            None => display_entry(line@) is None,
        },
{
    let (key, value) = match cut_once(line, '=') {
        Some(parts) => parts,
        None => { return None },
    };
    if !same(key.as_str(), "WAYLAND_DISPLAY") && !same(key.as_str(), "DISPLAY") {
        return None;
    }
    let chars = chars_of(value.as_str());
    let count: usize = chars.len();
    let plain: String = if count >= 2 && chars[0] == '"' && chars[count - 1] == '"' {
        text::string_of(&chars, 1, count - 1)
    } else {
        value
    };
    if valid_display_value(plain.as_str()) {
        Some((key, plain))
    } else {
        None
    }
}

/// Picks the display variables out of `systemctl show-environment`; a value
/// that is no plain printable token is dropped.
pub fn parse_display_env(text: &str) -> (entries: Vec<(String, String)>)
    ensures
        pair_views(entries@) == display_entries(text::lines_from(text@, 0), 0),
{
    let lines = split_lines(text);
    let ghost all = text::views(lines@);
    let mut entries: Vec<(String, String)> = Vec::new();
    let mut i: usize = 0;
    assert(pair_views(entries@) + display_entries(all, 0) =~= display_entries(all, 0));
    while i < lines.len()
        invariant
            i <= lines.len(),
            all == text::views(lines@),
            pair_views(entries@) + display_entries(all, i as nat) == display_entries(all, 0),
        decreases lines.len() - i,
    {
        let ghost before = entries@;
        assert(all[i as int] == lines@[i as int]@);
        match read_display_entry(lines[i].as_str()) {
            Some(entry) => {
                let ghost added = (entry.0@, entry.1@);
                entries.push(entry);
                proof {
                    let later = display_entries(all, (i + 1) as nat);
                    assert(pair_views(entries@) =~= pair_views(before) + seq![added]);
                    assert(pair_views(before) + (seq![added] + later) =~= pair_views(entries@)
                        + later);
                }
            },
            None => {},
        }
        i = i + 1;
    }
    assert(pair_views(entries@) =~= pair_views(entries@) + display_entries(all, i as nat));
    entries
}

/// Whatever the environment holds, only display variables with plain values
/// come out of it.
pub proof fn law_display_entries_are_plain(lines: Seq<Seq<char>>, from: nat)
    ensures
        forall|i: int|
            #![trigger display_entries(lines, from)[i]]
            0 <= i < display_entries(lines, from).len() ==> display_key(
                display_entries(lines, from)[i].0,
            ) && valid_display(display_entries(lines, from)[i].1),
    decreases lines.len() - from,
{
    if from < lines.len() {
        law_display_entries_are_plain(lines, from + 1);
        let later = display_entries(lines, from + 1);
        match display_entry(lines[from as int]) {
            Some(entry) => {
                assert forall|i: int|
                    0 <= i < display_entries(lines, from).len() implies display_key(
                    (#[trigger] display_entries(lines, from)[i]).0,
                ) && valid_display(display_entries(lines, from)[i].1) by {
                    if i > 0 {
                        assert(display_entries(lines, from)[i] == later[i - 1]);
                    }
                }
            },
            None => {},
        }
    }
}

// ---------------------------------------------------------------------------
// The merged view of the outputs
// ---------------------------------------------------------------------------

/// One desktop as the enumeration script reports it.
#[derive(Debug, Clone, PartialEq, Eq)]
pub struct ProbeDesktop {
    pub index: usize,
    pub id: u64,
    pub screen: i32,
    pub wp: String,
    pub image: Option<String>,
}

/// What the enumeration script reports: the desktops, and the screen of each
/// connector.
pub struct ProbeReply {
    pub desktops: Vec<ProbeDesktop>,
    pub connectors: NameMap<i32>,
}

/// An output with the desktop that stands on its screen.
#[derive(Debug, Clone, PartialEq, Eq)]
pub struct OutputInfo {
    pub name: String,
    /// The screen of the connector, -1 when it has none.
    pub screen: i32,
    /// The id and the array index of the desktop on that screen.
    pub desktop_id: Option<u64>,
    pub desktop_index: Option<usize>,
    pub geometry: Option<[i32; 4]>,
    pub enabled: bool,
    pub connected: bool,
    pub wallpaper_plugin: Option<String>,
    /// The plugin's config group, which a restore selects.
    pub config_group: Vec<String>,
    pub image: Option<String>,
}

/// The screen that a connector maps to.
pub open spec fn screen_of(connectors: Map<Seq<char>, i32>, name: Seq<char>) -> i32 {
    if connectors.contains_key(name) {
        connectors[name]
    } else {
        -1i32
    }
}

/// The position of the first desktop on `screen`, or the end.
pub open spec fn desktop_on(desktops: Seq<ProbeDesktop>, screen: i32, from: nat) -> nat
    decreases desktops.len() - from,
{
    if from >= desktops.len() {
        desktops.len()
    } else if desktops[from as int].screen == screen {
        from
    } else {
        desktop_on(desktops, screen, from + 1)
    }
}

/// The desktop bound to an output: the first one on its screen. A connector
/// without a screen binds none.
pub open spec fn bound_desktop(desktops: Seq<ProbeDesktop>, screen: i32) -> Option<ProbeDesktop> {
    let at = desktop_on(desktops, screen, 0);
    if screen >= 0 && at < desktops.len() {
        Some(desktops[at as int])
    } else {
        None
    }
}

/// The image that is configured, where an empty value counts as none.
pub open spec fn present_image(image: Option<String>) -> Option<Seq<char>> {
    match image {
        Some(value) => if value@.len() > 0 {
            Some(value@)
        } else {
            None
        },
        None => None,
    }
}

/// `info` is what `output` and the desktop bound to it make together.
pub open spec fn merged(
    output: SystemOutputView,
    desktops: Seq<ProbeDesktop>,
    connectors: Map<Seq<char>, i32>,
    info: OutputInfo,
) -> bool {
    let screen = screen_of(connectors, output.name);
    &&& info.name@ == output.name
    &&& info.screen == screen
    &&& geometry_view(info.geometry) == output.geometry
    &&& info.enabled == output.enabled
    &&& info.connected == output.connected
    &&& match bound_desktop(desktops, screen) {
        Some(desktop) => {
            &&& info.desktop_id == Some(desktop.id)
            &&& info.desktop_index == Some(desktop.index)
            &&& info.wallpaper_plugin matches Some(plugin) && plugin@ == desktop.wp@
            &&& text::views(info.config_group@) == seq!["Wallpaper"@, desktop.wp@, "General"@]
            &&& option_view(info.image) == present_image(desktop.image)
        },
        None => {
            &&& info.desktop_id is None
            &&& info.desktop_index is None
            &&& info.wallpaper_plugin is None
            &&& info.config_group@.len() == 0
            &&& info.image is None
        },
    }
}

/// The characters of an optional string.
pub open spec fn option_view(value: Option<String>) -> Option<Seq<char>> {
    match value {
        Some(text) => Some(text@),
        None => None,
    }
}

fn find_desktop(desktops: &Vec<ProbeDesktop>, screen: i32) -> (at: usize)
    ensures
        at == desktop_on(desktops@, screen, 0),
        at <= desktops.len(),
{
    let mut i: usize = 0;
    while i < desktops.len()
        invariant
            i <= desktops.len(),
            desktop_on(desktops@, screen, 0) == desktop_on(desktops@, screen, i as nat),
        decreases desktops.len() - i,
    {
        if desktops[i].screen == screen {
            return i;
        }
        i = i + 1;
    }
    i
}

/// Merges the system outputs, the desktops and the connector mapping, one entry
/// per output and in their order.
pub fn assemble_outputs(
    system: Vec<SystemOutput>,
    desktops: Vec<ProbeDesktop>,
    connectors: NameMap<i32>,
) -> (outputs: Vec<OutputInfo>)
    requires
        connectors.wf(),
    ensures
        outputs@.len() == system@.len(),
        forall|i: int|
            0 <= i < system@.len() ==> merged(
                system@[i]@,
                desktops@,
                connectors@,
                #[trigger] outputs@[i],
            ),
{
    let mut outputs: Vec<OutputInfo> = Vec::new();
    let mut i: usize = 0;
    while i < system.len()
        invariant
            connectors.wf(),
            i <= system.len(),
            outputs@.len() == i,
            forall|j: int|
                0 <= j < i ==> merged(
                    system@[j]@,
                    desktops@,
                    connectors@,
                    #[trigger] outputs@[j],
                ),
        decreases system.len() - i,
    {
        let output: &SystemOutput = &system[i];
        let screen: i32 = match connectors.get(output.name.as_str()) {
            Some(mapped) => *mapped,
            None => -1,
        };
        let at: usize = find_desktop(&desktops, screen);
        let info: OutputInfo = if screen >= 0 && at < desktops.len() {
            let desktop: &ProbeDesktop = &desktops[at];
            let mut group: Vec<String> = Vec::new();
            group.push("Wallpaper".to_owned());
            group.push(desktop.wp.clone());
            group.push("General".to_owned());
            assert(text::views(group@) =~= seq!["Wallpaper"@, desktop.wp@, "General"@]);
            OutputInfo {
                name: output.name.clone(),
                screen,
                desktop_id: Some(desktop.id),
                desktop_index: Some(desktop.index),
                geometry: output.geometry,
                enabled: output.enabled,
                connected: output.connected,
                wallpaper_plugin: Some(desktop.wp.clone()),
                config_group: group,
                image: match &desktop.image {
                    Some(image) => if image.as_str().is_empty() {
                        None
                    } else {
                        Some(image.clone())
                    },
                    None => None,
                },
            }
        } else {
            OutputInfo {
                name: output.name.clone(),
                screen,
                desktop_id: None,
                desktop_index: None,
                geometry: output.geometry,
                enabled: output.enabled,
                connected: output.connected,
                wallpaper_plugin: None,
                config_group: Vec::new(),
                image: None,
            }
        };
        outputs.push(info);
        i = i + 1;
    }
    outputs
}

/// A connector without a screen never binds a desktop, and a bound desktop is
/// never one without a screen: an orphan is the target of no output.
pub proof fn law_orphans_are_never_bound(
    output: SystemOutputView,
    desktops: Seq<ProbeDesktop>,
    connectors: Map<Seq<char>, i32>,
    info: OutputInfo,
)
    requires
        merged(output, desktops, connectors, info),
    ensures
        info.screen < 0 ==> info.desktop_index is None && info.desktop_id is None,
        info.desktop_index is Some ==> exists|i: int|
            0 <= i < desktops.len() && (#[trigger] desktops[i]).screen == info.screen
                && desktops[i].screen >= 0 && info.desktop_index == Some(desktops[i].index)
                && info.desktop_id == Some(desktops[i].id),
{
    lemma_desktop_on(desktops, info.screen, 0);
    let at = desktop_on(desktops, info.screen, 0);
    if info.screen >= 0 && at < desktops.len() {
        assert(desktops[at as int].screen == info.screen);
    }
}

proof fn lemma_desktop_on(desktops: Seq<ProbeDesktop>, screen: i32, from: nat)
    requires
        from <= desktops.len(),
    ensures
        from <= desktop_on(desktops, screen, from) <= desktops.len(),
        desktop_on(desktops, screen, from) < desktops.len() ==> desktops[desktop_on(
            desktops,
            screen,
            from,
        ) as int].screen == screen,
    decreases desktops.len() - from,
{
    if from < desktops.len() && desktops[from as int].screen != screen {
        lemma_desktop_on(desktops, screen, from + 1);
    }
}

// ---------------------------------------------------------------------------
// The enumeration cache
// ---------------------------------------------------------------------------

/// How long an enumeration may be served again, in milliseconds.
pub const OUTPUT_CACHE_TTL_MS: u64 = 5000;

/// The last enumeration and when it was made.
pub struct OutputCache {
    pub entries: Vec<OutputInfo>,
    pub cached_at: Option<u64>,
}

impl OutputCache {
    /// The cache serves its entries at `now`.
    pub open spec fn serves(&self, now: u64) -> bool {
        self.cached_at matches Some(at) && now - at < OUTPUT_CACHE_TTL_MS
    }

    /// A cache that serves nothing.
    pub fn stale() -> (cache: Self)
        ensures
            cache.entries@.len() == 0,
            cache.cached_at is None,
    {
        OutputCache { entries: Vec::new(), cached_at: None }
    }

    pub fn fresh(&self, now: u64) -> (fresh: bool)
        ensures
            fresh == self.serves(now),
    {
        match self.cached_at {
            Some(at) => now < at || now - at < OUTPUT_CACHE_TTL_MS,
            None => false,
        }
    }

    /// Takes a new enumeration in.
    pub fn store(&mut self, entries: Vec<OutputInfo>, now: u64)
        ensures
            final(self).entries == entries,
            final(self).cached_at == Some(now),
            final(self).serves(now),
    {
        self.entries = entries;
        self.cached_at = Some(now);
    }
}

/// Once an enumeration is five seconds old it is never served again.
pub proof fn law_cache_expires(cache: OutputCache, at: u64, now: u64)
    requires
        cache.cached_at == Some(at),
        now >= at + OUTPUT_CACHE_TTL_MS,
    ensures
        !cache.serves(now),
{
}

} // verus!
