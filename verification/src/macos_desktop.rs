//! A desktop without a scriptable shell: the same scripts are understood and
//! their effect is recorded per display.

use vstd::prelude::*;

use crate::identity;
use crate::identity::has_identity_chars;
use crate::names::NameMap;
use crate::probe;
use crate::probe::{ProbeDesktop, ProbeError, ProbeReply, SystemOutput};
use crate::script;
use crate::script::PROBE_OPENING;
use crate::text;
use crate::text::{
    begins_with, chars_of, find_char, find_marker, has_marker, push_decimal, read_unsigned,
    string_of,
};

verus! {

/// `char::from_u32` gives the character with this code, where there is one.
pub assume_specification[ char::from_u32 ](code: u32) -> (c: Option<char>)
    ensures
        match c {
            Some(value) => (code < 0xD800 || 0xDFFF < code <= 0x10FFFF) && value == code as char,
            None => (0xD800 <= code <= 0xDFFF) || code > 0x10FFFF,
        },
;

// ---------------------------------------------------------------------------
// Reading a string literal
// ---------------------------------------------------------------------------

/// The position of the quote that closes a literal whose text begins at `at`;
/// a backslash takes the next character with it.
pub open spec fn literal_end(s: Seq<char>, at: nat) -> Option<nat>
    decreases s.len() - at,
{
    if at >= s.len() {
        None
    } else if s[at as int] == '"' {
        Some(at)
    } else if s[at as int] != '\\' {
        literal_end(s, at + 1)
    } else if at + 1 >= s.len() {
        None
    } else {
        literal_end(s, at + 2)
    }
}

/// Where the literal that follows the first `marker` at or after `from` begins
/// and ends.
pub open spec fn literal_place(s: Seq<char>, marker: Seq<char>, from: nat) -> Option<(nat, nat)> {
    match text::find_from(s, marker, from) {
        Some(found) => match literal_end(s, found + marker.len()) {
            Some(end) => Some((found + marker.len(), end)),
            None => None,
        },
        None => None,
    }
}

/// The text between two places, if there are any.
pub open spec fn text_at(s: Seq<char>, place: Option<(nat, nat)>) -> Option<Seq<char>> {
    match place {
        Some((start, end)) => Some(s.subrange(start as int, end as int)),
        None => None,
    }
}

/// The literal text that follows the first `marker`.
pub open spec fn literal_after(s: Seq<char>, marker: Seq<char>) -> Option<Seq<char>> {
    text_at(s, literal_place(s, marker, 0))
}

/// The value of a hexadecimal digit.
pub open spec fn hex_digit(c: char) -> Option<nat> {
    if '0' <= c && c <= '9' {
        Some((c as nat - '0' as nat) as nat)
    } else if 'a' <= c && c <= 'f' {
        Some((c as nat - 'a' as nat + 10) as nat)
    } else if 'A' <= c && c <= 'F' {
        Some((c as nat - 'A' as nat + 10) as nat)
    } else {
        None
    }
}

/// The number that a run of hexadecimal digits denotes.
pub open spec fn hex_digits(s: Seq<char>) -> Option<nat>
    decreases s.len(),
{
    if s.len() == 0 {
        Some(0)
    } else {
        match (hex_digits(s.drop_last()), hex_digit(s.last())) {
            (Some(high), Some(low)) => Some(high * 16 + low),
            _ => None,
        }
    }
}

/// The character that an escape's code denotes: an optional plus sign, at least
/// one digit, and a code that is a character.
pub open spec fn coded_char(code: Seq<char>) -> Option<char> {
    let body = if code.len() > 0 && code[0] == '+' { code.drop_first() } else { code };
    match hex_digits(body) {
        Some(number) => if body.len() > 0 && (number < 0xD800 || 0xDFFF < number <= 0x10FFFF) {
            Some(number as char)
        } else {
            None
        },
        None => None,
    }
}

/// The value that the literal text from `from` on denotes.
pub open spec fn unescaped_from(s: Seq<char>, from: nat) -> Seq<char>
    decreases s.len() - from,
{
    if from >= s.len() {
        seq![]
    } else if s[from as int] != '\\' {
        seq![s[from as int]] + unescaped_from(s, from + 1)
    } else if from + 1 >= s.len() {
        seq!['\\']
    } else {
        let kind = s[from as int + 1];
        if kind == 'n' {
            seq!['\n'] + unescaped_from(s, from + 2)
        } else if kind == 'r' {
            seq!['\r'] + unescaped_from(s, from + 2)
        } else if kind == 'u' {
            let end = if from + 6 <= s.len() { from + 6 } else { s.len() };
            let code = s.subrange(from as int + 2, end as int);
            (match coded_char(code) {
                Some(c) => seq![c],
                None => seq!['\\', 'u'] + code,
            }) + unescaped_from(s, end)
        } else {
            seq![kind] + unescaped_from(s, from + 2)
        }
    }
}

/// Reads an escape's code, at most four characters.
fn read_code(chars: &Vec<char>, from: usize, to: usize) -> (c: Option<char>)
    requires
        from <= to <= chars.len(),
        to - from <= 4,
    ensures
        c == coded_char(chars@.subrange(from as int, to as int)),
{
    let ghost whole = chars@.subrange(from as int, to as int);
    let start: usize = if from < to && chars[from] == '+' {
        from + 1
    } else {
        from
    };
    let ghost body = chars@.subrange(start as int, to as int);
    proof {
        if start > from {
            assert(body =~= whole.drop_first());
        }
    }
    if start == to {
        return None;
    }
    let mut value: u32 = 0;
    let mut i: usize = start;
    while i < to
        invariant
            from <= start <= i <= to <= chars.len(),
            start < to,
            to - from <= 4,
            whole == chars@.subrange(from as int, to as int),
            body == chars@.subrange(start as int, to as int),
            body == (if whole.len() > 0 && whole[0] == '+' {
                whole.drop_first()
            } else {
                whole
            }),
            hex_digits(body.take(i - start)) == Some(value as nat),
            i - start == 0 ==> value == 0,
            i - start == 1 ==> value < 0x10,
            i - start == 2 ==> value < 0x100,
            i - start == 3 ==> value < 0x1000,
            value < 0x10000,
        decreases to - i,
    {
        let c: char = chars[i];
        proof {
            let next = body.take(i + 1 - start);
            assert(next.drop_last() =~= body.take(i - start));
            assert(next.last() == c);
            if hex_digit(c) is None {
                lemma_hex_needs_digits(body, i + 1 - start);
            }
        }
        let digit: u32 = if c >= '0' && c <= '9' {
            c as u32 - 48
        } else if c >= 'a' && c <= 'f' {
            c as u32 - 87
        } else if c >= 'A' && c <= 'F' {
            c as u32 - 55
        } else {
            return None;
        };
        value = value * 16 + digit;
        i = i + 1;
    }
    assert(body.take(to - start) =~= body);
    char::from_u32(value)
}

/// A run with something other than a digit in it denotes no number.
proof fn lemma_hex_needs_digits(s: Seq<char>, k: int)
    requires
        0 < k <= s.len(),
        hex_digits(s.take(k)) is None,
    ensures
        hex_digits(s) is None,
    decreases s.len(),
{
    if k < s.len() {
        assert(s.drop_last().take(k) =~= s.take(k));
        lemma_hex_needs_digits(s.drop_last(), k);
    } else {
        assert(s.take(k) =~= s);
    }
}

/// The value that a string literal's text denotes.
pub fn unescape_js(value: String) -> (out: String)
    ensures
        out@ == unescaped_from(value@, 0),
{
    let chars = chars_of(value.as_str());
    let mut out = String::new();
    let mut i: usize = 0;
    assert(out@ + unescaped_from(chars@, 0) =~= unescaped_from(chars@, 0));
    while i < chars.len()
        invariant
            i <= chars.len(),
            out@ + unescaped_from(chars@, i as nat) == unescaped_from(chars@, 0),
        decreases chars.len() - i,
    {
        let ghost before = out@;
        let ghost at = i;
        let ghost mut piece: Seq<char> = seq![];
        if chars[i] != '\\' {
            out.push(chars[i]);
            proof {
                piece = seq![chars@[i as int]];
            }
            i = i + 1;
        } else if i + 1 == chars.len() {
            out.push('\\');
            proof {
                piece = seq!['\\'];
                assert(unescaped_from(chars@, (i + 1) as nat) =~= seq![]);
            }
            i = i + 1;
        } else {
            let kind: char = chars[i + 1];
            if kind == 'n' {
                out.push('\n');
                proof {
                    piece = seq!['\n'];
                }
                i = i + 2;
            } else if kind == 'r' {
                out.push('\r');
                proof {
                    piece = seq!['\r'];
                }
                i = i + 2;
            } else if kind == 'u' {
                let end: usize = if chars.len() - i >= 6 {
                    i + 6
                } else {
                    chars.len()
                };
                let ghost code = chars@.subrange(i + 2, end as int);
                match read_code(&chars, i + 2, end) {
                    Some(c) => {
                        out.push(c);
                        proof {
                            piece = seq![c];
                        }
                    },
                    None => {
                        out.push('\\');
                        out.push('u');
                        let text = string_of(&chars, i + 2, end);
                        out.append(text.as_str());
                        proof {
                            piece = seq!['\\', 'u'] + code;
                        }
                    },
                }
                i = end;
            } else {
                out.push(kind);
                proof {
                    piece = seq![kind];
                }
                i = i + 2;
            }
        }
        proof {
            assert(out@ =~= before + piece);
            assert(unescaped_from(chars@, at as nat) =~= piece + unescaped_from(chars@, i as nat));
            assert(before + (piece + unescaped_from(chars@, i as nat)) =~= out@ + unescaped_from(
                chars@,
                i as nat,
            ));
        }
    }
    assert(out@ =~= out@ + unescaped_from(chars@, i as nat));
    out
}

// ---------------------------------------------------------------------------
// Reading a switch script
// ---------------------------------------------------------------------------

/// What a switch script asks for.
#[derive(Debug, PartialEq, Eq)]
pub struct SwitchCommand {
    pub desktop_index: usize,
    pub plugin: String,
    /// The script selects a config group: its image then counts even when it
    /// writes none.
    pub touches_image: bool,
    pub image: Option<String>,
}

/// What a switch script asks for, apart from its representation.
#[verifier::ext_equal]
pub struct SwitchView {
    pub desktop_index: nat,
    pub plugin: Seq<char>,
    pub touches_image: bool,
    pub image: Option<Seq<char>>,
}

impl View for SwitchCommand {
    type V = SwitchView;

    open spec fn view(&self) -> SwitchView {
        SwitchView {
            desktop_index: self.desktop_index as nat,
            plugin: self.plugin@,
            touches_image: self.touches_image,
            image: probe::option_view(self.image),
        }
    }
}

/// The number between the brackets of the first `desktops()[`, or why there is
/// none.
pub open spec fn switch_index(s: Seq<char>) -> Result<nat, Seq<char>> {
    match text::find_from(s, "desktops()["@, 0) {
        None => Err("no desktop index"@),
        Some(found) => {
            let start = found + "desktops()["@.len();
            let end = text::index_of(s, ']', start);
            if end >= s.len() {
                Err("unterminated desktop index"@)
            } else {
                match text::parse_unsigned(s.subrange(start as int, end as int), usize::MAX as nat) {
                    Some(index) => Ok(index),
                    None => Err("desktop index is not a number"@),
                }
            }
        },
    }
}

/// Where to look for the plugin from on: the words that introduce it are no
/// such words where the image's literal holds them.
pub open spec fn plugin_from(s: Seq<char>) -> nat {
    match (
        text::find_from(s, "wallpaperPlugin = \""@, 0),
        literal_place(s, "writeConfig(\"Image\", \""@, 0),
    ) {
        (Some(at), Some((start, end))) => if start <= at < end {
            end
        } else {
            0
        },
        _ => 0,
    }
}

/// The plugin that a script assigns.
pub open spec fn plugin_literal(s: Seq<char>) -> Option<Seq<char>> {
    text_at(s, literal_place(s, "wallpaperPlugin = \""@, plugin_from(s)))
}

/// What a script asks for, or why it is no switch script.
pub open spec fn switch_of(s: Seq<char>) -> Result<SwitchView, Seq<char>> {
    match switch_index(s) {
        Err(detail) => Err(detail),
        Ok(desktop_index) => match plugin_literal(s) {
            None => Err("no plugin"@),
            Some(plugin) => if plugin.len() == 0 || !identity::identity_chars(plugin) {
                Err("plugin is not an identity"@)
            } else {
                Ok(
                    SwitchView {
                        desktop_index,
                        plugin,
                        touches_image: text::contains(s, "currentConfigGroup = ["@),
                        image: match literal_after(s, "writeConfig(\"Image\", \""@) {
                            Some(literal) => Some(unescaped_from(literal, 0)),
                            None => None,
                        },
                    },
                )
            },
        },
    }
}

/// Where the literal that follows the first `marker` at or after `from` begins
/// and ends.
fn place_after(chars: &Vec<char>, marker: &Vec<char>, from: usize) -> (place: Option<
    (usize, usize),
>)
    requires
        from <= chars.len(),
    ensures
        match place {
            Some((start, end)) => literal_place(chars@, marker@, from as nat) == Some(
                (start as nat, end as nat),
            ) && start <= end <= chars.len(),
            None => literal_place(chars@, marker@, from as nat) is None,
        },
{
    let found: usize = match find_marker(chars, marker, from) {
        Some(at) => at,
        None => { return None },
    };
    let start: usize = found + marker.len();
    let mut i: usize = start;
    while i < chars.len()
        invariant
            start <= i <= chars.len(),
            start == found + marker@.len(),
            text::find_from(chars@, marker@, from as nat) == Some(found as nat),
            literal_end(chars@, start as nat) == literal_end(chars@, i as nat),
        decreases chars.len() - i,
    {
        if chars[i] == '"' {
            return Some((start, i));
        }
        if chars[i] == '\\' {
            if i + 1 >= chars.len() {
                return None;
            }
            i = i + 2;
        } else {
            i = i + 1;
        }
    }
    None
}

/// The literal text that follows the first `marker`, still escaped.
pub fn quoted_after(script: &str, marker: &str) -> (literal: Option<String>)
    ensures
        match literal {
            Some(text) => literal_after(script@, marker@) == Some(text@),
            None => literal_after(script@, marker@) is None,
        },
{
    let chars = chars_of(script);
    let wanted = chars_of(marker);
    match place_after(&chars, &wanted, 0) {
        Some((start, end)) => Some(string_of(&chars, start, end)),
        None => None,
    }
}

/// The plugin that a script assigns.
fn read_plugin(script: &str) -> (plugin: Option<String>)
    ensures
        match plugin {
            Some(text) => plugin_literal(script@) == Some(text@),
            None => plugin_literal(script@) is None,
        },
{
    let chars = chars_of(script);
    let marker = chars_of("wallpaperPlugin = \"");
    let image = chars_of("writeConfig(\"Image\", \"");
    let from: usize = match (find_marker(&chars, &marker, 0), place_after(&chars, &image, 0)) {
        (Some(at), Some((start, end))) => if start <= at && at < end {
            end
        } else {
            0
        },
        _ => 0,
    };
    match place_after(&chars, &marker, from) {
        Some((start, end)) => Some(string_of(&chars, start, end)),
        None => None,
    }
}

fn refuse(detail: &str) -> (error: ProbeError)
    ensures
        error is Rejected,
        error.text() == "unsupported desktop script: "@ + detail@,
{
    let mut text = "unsupported desktop script: ".to_owned();
    text.append(detail);
    ProbeError::Rejected(text)
}

/// Reads the index of the desktop that a script switches.
fn read_index(script: &str) -> (index: Result<usize, ProbeError>)
    ensures
        match index {
            Ok(value) => switch_index(script@) == Ok::<nat, Seq<char>>(value as nat),
            Err(error) => error is Rejected && (switch_index(script@) matches Err(detail)
                && error.text() == "unsupported desktop script: "@ + detail),
        },
{
    let chars = chars_of(script);
    let opening = chars_of("desktops()[");
    let found: usize = match find_marker(&chars, &opening, 0) {
        Some(at) => at,
        None => { return Err(refuse("no desktop index")) },
    };
    let start: usize = found + opening.len();
    let end: usize = find_char(&chars, ']', start);
    if end == chars.len() {
        return Err(refuse("unterminated desktop index"));
    }
    match read_unsigned(&chars, start, end, usize::MAX as u64) {
        Some(number) => Ok(number as usize),
        None => Err(refuse("desktop index is not a number")),
    }
}

/// Understands the two shapes of switch script; anything else is rejected.
pub fn parse_switch_script(script: &str) -> (command: Result<SwitchCommand, ProbeError>)
    ensures
        match command {
            Ok(value) => switch_of(script@) == Ok::<SwitchView, Seq<char>>(value@),
            Err(error) => error is Rejected && (switch_of(script@) matches Err(detail)
                && error.text() == "unsupported desktop script: "@ + detail),
        },
{
    let desktop_index: usize = match read_index(script) {
        Ok(index) => index,
        Err(error) => { return Err(error) },
    };
    let plugin: String = match read_plugin(script) {
        Some(plugin) => plugin,
        None => { return Err(refuse("no plugin")) },
    };
    if plugin.as_str().is_empty() || !has_identity_chars(plugin.as_str()) {
        return Err(refuse("plugin is not an identity"));
    }
    let chars = chars_of(script);
    let group = chars_of("currentConfigGroup = [");
    let touches_image: bool = has_marker(&chars, &group);
    let image: Option<String> = match quoted_after(script, "writeConfig(\"Image\", \"") {
        Some(literal) => Some(unescape_js(literal)),
        None => None,
    };
    Ok(SwitchCommand { desktop_index, plugin, touches_image, image })
}

// ---------------------------------------------------------------------------
// Laws of the literals
// ---------------------------------------------------------------------------

/// Reading back what was escaped gives the value itself.
pub proof fn law_unescape_reverses_escape(value: Seq<char>)
    ensures
        unescaped_from(script::escaped(value), 0) == value,
{
    lemma_unescape_after(seq![], value);
    assert(seq![] + script::escaped(value) =~= script::escaped(value));
}

proof fn lemma_unescape_after(before: Seq<char>, value: Seq<char>)
    ensures
        unescaped_from(before + script::escaped(value), before.len()) == value,
    decreases value.len(),
{
    let s = before + script::escaped(value);
    if value.len() == 0 {
        assert(value =~= seq![]);
        assert(unescaped_from(s, before.len()) =~= seq![]);
    } else {
        let c = value[0];
        let rest = value.drop_first();
        let head = script::escaped_char(c);
        let next = before + head;
        assert(s =~= next + script::escaped(rest));
        lemma_unescape_after(next, rest);
        assert(value =~= seq![c] + rest);
        assert forall|i: int| 0 <= i < head.len() implies s[before.len() + i] == head[i] by {}
        if c == '\u{2028}' || c == '\u{2029}' {
            let code = s.subrange(before.len() as int + 2, before.len() as int + 6);
            assert(head.len() == 6 && s.len() >= before.len() + 6);
            assert(code =~= seq!['2', '0', '2', head[5]]);
            lemma_line_separator_codes();
            assert(coded_char(code) == Some(c));
        }
        assert(unescaped_from(s, before.len()) == seq![c] + unescaped_from(s, next.len()));
    }
}

proof fn lemma_line_separator_codes()
    ensures
        coded_char(seq!['2', '0', '2', '8']) == Some('\u{2028}'),
        coded_char(seq!['2', '0', '2', '9']) == Some('\u{2029}'),
{
    reveal_with_fuel(hex_digits, 5);
    let a = seq!['2', '0', '2', '8'];
    assert(a.drop_last() =~= seq!['2', '0', '2']);
    assert(seq!['2', '0', '2'].drop_last() =~= seq!['2', '0']);
    assert(seq!['2', '0'].drop_last() =~= seq!['2']);
    assert(seq!['2'].drop_last() =~= seq![]);
    assert(hex_digits(seq!['2', '0', '2']) == Some(0x202nat));
    assert(hex_digits(a) == Some(0x2028nat));
    let b = seq!['2', '0', '2', '9'];
    assert(b.drop_last() =~= seq!['2', '0', '2']);
    assert(hex_digits(b) == Some(0x2029nat));
}

/// A literal that holds an escaped value ends where the value ends: no value
/// can leave its literal.
pub proof fn law_escaped_value_stays_in_its_literal(
    before: Seq<char>,
    value: Seq<char>,
    after: Seq<char>,
)
    ensures
        literal_end(before + script::escaped(value) + seq!['"'] + after, before.len()) == Some(
            before.len() + script::escaped(value).len(),
        ),
    decreases value.len(),
{
    let s = before + script::escaped(value) + seq!['"'] + after;
    if value.len() == 0 {
        assert(s[before.len() as int] == '"');
    } else {
        let head = script::escaped_char(value[0]);
        let rest = value.drop_first();
        let next = before + head;
        assert(s =~= next + script::escaped(rest) + seq!['"'] + after);
        law_escaped_value_stays_in_its_literal(next, rest, after);
        assert forall|i: int| 0 <= i < head.len() implies s[before.len() + i] == head[i] by {}
        if head.len() == 6 {
            assert(s[before.len() as int + 2] == '2');
            assert(s[before.len() as int + 3] == '0');
            assert(s[before.len() as int + 4] == '2');
            let tail = s[before.len() as int + 5];
            assert(tail == '8' || tail == '9');
            reveal_with_fuel(literal_end, 6);
        }
    }
}

/// No line terminator survives escaping, and every quote that does has a
/// backslash before it.
pub proof fn law_escaped_value_is_one_line(value: Seq<char>)
    ensures
        forall|i: int|
            #![trigger script::escaped(value)[i]]
            0 <= i < script::escaped(value).len() ==> {
                let c = script::escaped(value)[i];
                &&& c != '\n' && c != '\r' && c != '\u{2028}' && c != '\u{2029}'
                &&& c == '"' ==> i > 0 && script::escaped(value)[i - 1] == '\\'
            },
    decreases value.len(),
{
    if value.len() > 0 {
        let head = script::escaped_char(value[0]);
        let rest = script::escaped(value.drop_first());
        law_escaped_value_is_one_line(value.drop_first());
        assert forall|i: int| 0 <= i < script::escaped(value).len() implies {
            let c = #[trigger] script::escaped(value)[i];
            &&& c != '\n' && c != '\r' && c != '\u{2028}' && c != '\u{2029}'
            &&& c == '"' ==> i > 0 && script::escaped(value)[i - 1] == '\\'
        } by {
            if i >= head.len() {
                assert(script::escaped(value)[i] == rest[i - head.len()]);
                if i > head.len() {
                    assert(script::escaped(value)[i - 1] == rest[i - 1 - head.len()]);
                }
            }
        }
    }
}

// ---------------------------------------------------------------------------
// The recorded desktops
// ---------------------------------------------------------------------------

/// The plugin reported for a display that nothing was applied to yet.
pub const DEFAULT_PLUGIN: &'static str = "org.kde.image";

/// The largest state file that is read, in bytes.
pub const MAX_STATE_BYTES: u64 = 65536;

/// An active display.
#[derive(Debug, Clone, PartialEq, Eq)]
pub struct Display {
    /// A stable identity.
    pub name: String,
    /// `[x, y, width, height]` in global display points.
    pub geometry: [i32; 4],
}

/// Where the list of active displays comes from.
pub trait DisplayLister {
    fn active_displays(&self) -> Result<Vec<Display>, ProbeError>;
}

/// What was last assigned to a display.
#[derive(Debug, Clone, PartialEq, Eq)]
pub struct DesktopRecord {
    pub plugin: String,
    pub image: Option<String>,
}

/// What was last assigned to a display, apart from its representation.
#[verifier::ext_equal]
pub struct DesktopRecordView {
    pub plugin: Seq<char>,
    pub image: Option<Seq<char>>,
}

impl View for DesktopRecord {
    type V = DesktopRecordView;

    open spec fn view(&self) -> DesktopRecordView {
        DesktopRecordView { plugin: self.plugin@, image: probe::option_view(self.image) }
    }
}

/// The record that a display is reported with.
pub open spec fn reported(
    records: Map<Seq<char>, DesktopRecord>,
    name: Seq<char>,
) -> DesktopRecordView {
    if records.contains_key(name) {
        records[name]@
    } else {
        DesktopRecordView { plugin: DEFAULT_PLUGIN@, image: None }
    }
}

/// The image that a display without a switch that touches it keeps.
pub open spec fn kept_image(
    records: Map<Seq<char>, DesktopRecord>,
    name: Seq<char>,
) -> Option<Seq<char>> {
    if records.contains_key(name) {
        records[name]@.image
    } else {
        None
    }
}

/// The record of a display after a switch.
pub open spec fn switched(
    records: Map<Seq<char>, DesktopRecord>,
    name: Seq<char>,
    command: SwitchView,
) -> DesktopRecordView {
    DesktopRecordView {
        plugin: command.plugin,
        image: if command.touches_image {
            command.image
        } else {
            kept_image(records, name)
        },
    }
}

/// The screens of the displays: each has its position, and a name that occurs
/// twice has its last.
pub open spec fn display_screens(displays: Seq<Display>) -> Map<Seq<char>, i32>
    decreases displays.len(),
{
    if displays.len() == 0 {
        Map::empty()
    } else {
        display_screens(displays.drop_last()).insert(
            displays.last().name@,
            (displays.len() - 1) as i32,
        )
    }
}

/// `desktop` is what the display at position `i` is reported as.
pub open spec fn reported_desktop(
    records: Map<Seq<char>, DesktopRecord>,
    displays: Seq<Display>,
    i: int,
    desktop: ProbeDesktop,
) -> bool {
    let record = reported(records, displays[i].name@);
    &&& desktop.index == i
    &&& desktop.id == i + 1
    &&& desktop.screen == i as i32
    &&& desktop.wp@ == record.plugin
    &&& probe::option_view(desktop.image) == record.image
}

/// What evaluating a script comes to.
pub enum Evaluated {
    /// The enumeration script: what it reports.
    Reply(ProbeReply),
    /// A switch script: it reports nothing.
    Switched,
}

/// A shell probe over displays without a scriptable shell.
pub struct MacDesktopProbe<L: DisplayLister> {
    pub lister: L,
    pub desktops: NameMap<DesktopRecord>,
}

/// `desktops` is what is taken up of a saved state: a bounded file that was
/// parsed under version 1, and of anything else nothing.
pub open spec fn loads_as(
    file: Option<(bool, u64)>,
    parsed: Option<(u32, NameMap<DesktopRecord>)>,
    desktops: NameMap<DesktopRecord>,
) -> bool {
    match (file, parsed) {
        (Some((true, size)), Some((1u32, state))) => if size <= MAX_STATE_BYTES {
            desktops == state
        } else {
            desktops@ == Map::<Seq<char>, DesktopRecord>::empty()
        },
        _ => desktops@ == Map::<Seq<char>, DesktopRecord>::empty(),
    }
}

/// What is left of a saved state: a bounded file that was parsed under version
/// 1 is taken up, anything else is ignored.
pub fn load_state(
    file: Option<(bool, u64)>,
    parsed: Option<(u32, NameMap<DesktopRecord>)>,
) -> (desktops: NameMap<DesktopRecord>)
    requires
        parsed matches Some((_, state)) ==> state.wf(),
    ensures
        desktops.wf(),
        loads_as(file, parsed, desktops),
{
    match (file, parsed) {
        (Some((is_file, size)), Some((version, state))) => {
            if is_file && size <= MAX_STATE_BYTES && version == 1 {
                state
            } else {
                NameMap::new()
            }
        },
        _ => NameMap::new(),
    }
}

/// `result` and `after` are what evaluating a script over these displays comes
/// to: the enumeration is answered with one desktop per display, a switch is
/// recorded for its display, and anything else is rejected.
pub open spec fn evaluates(
    before: NameMap<DesktopRecord>,
    displays: Seq<Display>,
    script: Seq<char>,
    result: Result<Evaluated, ProbeError>,
    after: NameMap<DesktopRecord>,
) -> bool {
    if text::starts_with(script, script::PROBE_OPENING@) {
        &&& after == before
        &&& result matches Ok(Evaluated::Reply(reply)) && reply.connectors.wf()
            && reply.connectors@ == display_screens(displays) && reply.desktops@.len()
            == displays.len() && forall|i: int|
            0 <= i < displays.len() ==> reported_desktop(
                before@,
                displays,
                i,
                #[trigger] reply.desktops@[i],
            )
    } else {
        match result {
            Ok(done) => done is Switched && (switch_of(script) matches Ok(command)
                && command.desktop_index < displays.len() && ({
                let name = displays[command.desktop_index as int].name@;
                &&& after@ == before@.insert(name, after@[name])
                &&& after@[name]@ == switched(before@, name, command)
            })),
            Err(error) => {
                &&& after == before
                &&& error is Rejected
                &&& match switch_of(script) {
                    Ok(command) => command.desktop_index >= displays.len() && error.text()
                        == "no desktop "@ + text::decimal(command.desktop_index),
                    Err(detail) => error.text() == "unsupported desktop script: "@ + detail,
                }
            },
        }
    }
}

/// Every display, in order, as an enabled, connected output with its geometry.
pub open spec fn lists_displays(outputs: Seq<SystemOutput>, displays: Seq<Display>) -> bool {
    &&& outputs.len() == displays.len()
    &&& forall|i: int|
        0 <= i < displays.len() ==> (#[trigger] outputs[i])@ == (probe::SystemOutputView {
            name: displays[i].name@,
            enabled: true,
            connected: true,
            geometry: Some(displays[i].geometry@),
        })
}

impl<L: DisplayLister> MacDesktopProbe<L> {
    pub open spec fn wf(&self) -> bool {
        self.desktops.wf()
    }

    /// The probe of this system, which has one only on macOS, and only while no
    /// external switch command stands in for the desktop.
    pub fn from_config(
        macos: bool,
        lister: L,
        switch_command: Option<&str>,
        saved: NameMap<DesktopRecord>,
    ) -> (probe: Option<Self>)
        requires
            saved.wf(),
        ensures
            match probe {
                Some(value) => macos && switch_command is None && value.lister == lister
                    && value.desktops == saved && value.wf(),
                None => !macos || switch_command is Some,
            },
    {
        if macos && switch_command.is_none() {
            Some(Self::with_lister(lister, saved))
        } else {
            None
        }
    }

    /// A probe over the displays of `lister` and the saved records.
    pub fn with_lister(lister: L, saved: NameMap<DesktopRecord>) -> (probe: Self)
        requires
            saved.wf(),
        ensures
            probe.wf(),
            probe.lister == lister,
            probe.desktops == saved,
    {
        MacDesktopProbe { lister, desktops: saved }
    }

    /// One desktop per display, with the plugin recorded for it.
    pub fn probe_reply(&self, displays: &Vec<Display>) -> (reply: ProbeReply)
        requires
            self.wf(),
        ensures
            reply.connectors.wf(),
            reply.connectors@ == display_screens(displays@),
            reply.desktops@.len() == displays@.len(),
            forall|i: int|
                0 <= i < displays@.len() ==> reported_desktop(
                    self.desktops@,
                    displays@,
                    i,
                    #[trigger] reply.desktops@[i],
                ),
    {
        let mut out: Vec<ProbeDesktop> = Vec::new();
        let mut connectors: NameMap<i32> = NameMap::new();
        let mut index: usize = 0;
        assert(displays@.take(0) =~= seq![]);
        while index < displays.len()
            invariant
                self.wf(),
                connectors.wf(),
                index <= displays@.len(),
                out@.len() == index,
                connectors@ == display_screens(displays@.take(index as int)),
                forall|i: int|
                    0 <= i < index ==> reported_desktop(
                        self.desktops@,
                        displays@,
                        i,
                        #[trigger] out@[i],
                    ),
            decreases displays.len() - index,
        {
            let name: &str = displays[index].name.as_str();
            let desktop: ProbeDesktop = match self.desktops.get(name) {
                Some(record) => ProbeDesktop {
                    index,
                    id: index as u64 + 1,
                    screen: index as i32,
                    wp: record.plugin.clone(),
                    image: record.image.clone(),
                },
                None => ProbeDesktop {
                    index,
                    id: index as u64 + 1,
                    screen: index as i32,
                    wp: DEFAULT_PLUGIN.to_owned(),
                    image: None,
                },
            };
            out.push(desktop);
            let _ = connectors.insert(name, index as i32);
            proof {
                let longer = displays@.take(index + 1);
                assert(longer.drop_last() =~= displays@.take(index as int));
                assert(longer.last() == displays@[index as int]);
            }
            index = index + 1;
        }
        assert(displays@.take(displays@.len() as int) =~= displays@);
        ProbeReply { desktops: out, connectors }
    }

    /// Records what a switch script asks for.
    pub fn apply_switch(&mut self, displays: &Vec<Display>, script: &str) -> (done: Result<
        (),
        ProbeError,
    >)
        requires
            old(self).wf(),
        ensures
            final(self).wf(),
            final(self).lister == old(self).lister,
            match done {
                Ok(()) => switch_of(script@) matches Ok(command) && command.desktop_index
                    < displays@.len() && ({
                    let name = displays@[command.desktop_index as int].name@;
                    let records = old(self).desktops@;
                    &&& final(self).desktops@ == records.insert(name, final(self).desktops@[name])
                    &&& final(self).desktops@[name]@ == switched(records, name, command)
                }),
                Err(error) => {
                    &&& final(self).desktops == old(self).desktops
                    &&& error is Rejected
                    &&& match switch_of(script@) {
                        Ok(command) => command.desktop_index >= displays@.len() && error.text()
                            == "no desktop "@ + text::decimal(command.desktop_index),
                        Err(detail) => error.text() == "unsupported desktop script: "@ + detail,
                    }
                },
            },
    {
        let command = match parse_switch_script(script) {
            Ok(command) => command,
            Err(error) => { return Err(error) },
        };
        if command.desktop_index >= displays.len() {
            let mut detail = "no desktop ".to_owned();
            push_decimal(&mut detail, command.desktop_index as u128);
            return Err(ProbeError::Rejected(detail));
        }
        let name: &str = displays[command.desktop_index].name.as_str();
        let image: Option<String> = if command.touches_image {
            command.image
        } else {
            match self.desktops.get(name) {
                Some(record) => record.image.clone(),
                None => None,
            }
        };
        let _ = self.desktops.insert(name, DesktopRecord { plugin: command.plugin, image });
        Ok(())
    }

    /// Evaluates a script over what the lister answers: the enumeration is
    /// answered, a switch is recorded, and what the lister fails with is passed
    /// on.
    pub fn evaluate_script(&mut self, script: &str) -> (result: Result<Evaluated, ProbeError>)
        requires
            old(self).wf(),
        ensures
            final(self).wf(),
            final(self).lister == old(self).lister,
            exists|listed: Result<Vec<Display>, ProbeError>| #[trigger]
                call_ensures(L::active_displays, (&old(self).lister,), listed) && match listed {
                    Ok(displays) => evaluates(
                        old(self).desktops,
                        displays@,
                        script@,
                        result,
                        final(self).desktops,
                    ),
                    Err(error) => result == Err::<Evaluated, ProbeError>(error)
                        && final(self).desktops == old(self).desktops,
                },
    {
        let displays = match self.lister.active_displays() {
            Ok(displays) => displays,
            Err(error) => { return Err(error) },
        };
        self.evaluate_on(&displays, script)
    }

    /// Evaluates a script over these displays.
    pub fn evaluate_on(&mut self, displays: &Vec<Display>, script: &str) -> (result: Result<
        Evaluated,
        ProbeError,
    >)
        requires
            old(self).wf(),
        ensures
            final(self).wf(),
            final(self).lister == old(self).lister,
            evaluates(
                old(self).desktops,
                displays@,
                script@,
                result,
                final(self).desktops,
            ),
    {
        if begins_with(script, PROBE_OPENING) {
            Ok(Evaluated::Reply(self.probe_reply(displays)))
        } else {
            match self.apply_switch(displays, script) {
                Ok(()) => Ok(Evaluated::Switched),
                Err(error) => Err(error),
            }
        }
    }

    /// What the lister answers: the active displays as outputs, or what it fails
    /// with.
    pub fn system_outputs(&self) -> (outputs: Result<Vec<SystemOutput>, ProbeError>)
        ensures
            exists|listed: Result<Vec<Display>, ProbeError>| #[trigger]
                call_ensures(L::active_displays, (&self.lister,), listed) && match listed {
                    Ok(displays) => outputs matches Ok(list) && lists_displays(
                        list@,
                        displays@,
                    ),
                    Err(error) => outputs == Err::<Vec<SystemOutput>, ProbeError>(error),
                },
    {
        match self.lister.active_displays() {
            Ok(displays) => Ok(outputs_of(&displays)),
            Err(error) => Err(error),
        }
    }
}

/// Every active display is an enabled, connected output with its geometry.
pub fn outputs_of(displays: &Vec<Display>) -> (outputs: Vec<SystemOutput>)
    ensures
        lists_displays(outputs@, displays@),
{
    let mut outputs: Vec<SystemOutput> = Vec::new();
    let mut i: usize = 0;
    while i < displays.len()
        invariant
            i <= displays@.len(),
            outputs@.len() == i,
            forall|j: int|
                0 <= j < i ==> (#[trigger] outputs@[j])@ == (probe::SystemOutputView {
                    name: displays@[j].name@,
                    enabled: true,
                    connected: true,
                    geometry: Some(displays@[j].geometry@),
                }),
        decreases displays.len() - i,
    {
        outputs.push(
            SystemOutput {
                name: displays[i].name.clone(),
                enabled: true,
                connected: true,
                geometry: Some(displays[i].geometry),
            },
        );
        i = i + 1;
    }
    outputs
}

/// After a switch the display is reported with the plugin that was assigned,
/// and every other display as before.
pub proof fn law_switch_shows_only_on_its_display(
    before: Map<Seq<char>, DesktopRecord>,
    after: Map<Seq<char>, DesktopRecord>,
    name: Seq<char>,
    command: SwitchView,
    other: Seq<char>,
)
    requires
        after == before.insert(name, after[name]),
        after[name]@ == switched(before, name, command),
    ensures
        reported(after, name).plugin == command.plugin,
        command.touches_image ==> reported(after, name).image == command.image,
        other != name ==> reported(after, other) == reported(before, other),
{
    assert(after.contains_key(name));
    if other != name {
        assert(after.contains_key(other) == before.contains_key(other));
    }
}

} // verus!
