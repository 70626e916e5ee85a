//! The scripts that the desktop shell evaluates.
//!
//! Every interpolated value is an identity part or is escaped, so no value can
//! leave its string literal; wallpaper content never reaches a script.

use vstd::prelude::*;

use crate::identity;
use crate::identity::validate_identity_part;
use crate::text;
use crate::text::{byte_len, push_decimal};

verus! {

/// The longest image path that a restore script carries, in bytes.
pub const MAX_IMAGE_BYTES: usize = 4096;

/// The longest config group.
pub const MAX_GROUP_PARTS: usize = 4;

// ---------------------------------------------------------------------------
// String literals
// ---------------------------------------------------------------------------

/// How one character is written inside a double-quoted literal.
pub open spec fn escaped_char(c: char) -> Seq<char> {
    if c == '\\' {
        seq!['\\', '\\']
    } else if c == '"' {
        seq!['\\', '"']
    } else if c == '\n' {
        seq!['\\', 'n']
    } else if c == '\r' {
        seq!['\\', 'r']
    } else if c == '\u{2028}' {
        seq!['\\', 'u', '2', '0', '2', '8']
    } else if c == '\u{2029}' {
        seq!['\\', 'u', '2', '0', '2', '9']
    } else {
        seq![c]
    }
}

/// The text of a double-quoted literal that denotes `value`.
pub open spec fn escaped(value: Seq<char>) -> Seq<char>
    decreases value.len(),
{
    if value.len() == 0 {
        seq![]
    } else {
        escaped_char(value[0]) + escaped(value.drop_first())
    }
}

/// The escaped text of a longer value continues that of a shorter one.
pub proof fn lemma_escaped_push(value: Seq<char>, c: char)
    ensures
        escaped(value.push(c)) == escaped(value) + escaped_char(c),
    decreases value.len(),
{
    let longer = value.push(c);
    if value.len() == 0 {
        assert(longer.drop_first() =~= seq![]);
        assert(escaped(longer.drop_first()) == Seq::<char>::empty());
        assert(escaped(longer) =~= escaped(value) + escaped_char(c));
    } else {
        assert(longer.drop_first() =~= value.drop_first().push(c));
        lemma_escaped_push(value.drop_first(), c);
        assert(escaped(longer) =~= escaped(value) + escaped_char(c));
    }
}

/// Escapes backslash, double quote and the line terminators.
pub fn escape_js_string(value: &str) -> (literal: String)
    ensures
        literal@ == escaped(value@),
{
    let mut out = String::new();
    for c in it: value.chars()
        invariant
            it.seq() == value@,
            out@ == escaped(value@.take(it.index() as int)),
    {
        proof {
            let done = value@.take(it.index() as int);
            lemma_escaped_push(done, c);
            assert(value@.take(it.index() + 1) =~= done.push(c));
            reveal_strlit("\\\\");
            reveal_strlit("\\\"");
            reveal_strlit("\\n");
            reveal_strlit("\\r");
            reveal_strlit("\\u2028");
            reveal_strlit("\\u2029");
        }
        let ghost before = out@;
        if c == '\\' {
            out.append("\\\\");
        } else if c == '"' {
            out.append("\\\"");
        } else if c == '\n' {
            out.append("\\n");
        } else if c == '\r' {
            out.append("\\r");
        } else if c == '\u{2028}' {
            out.append("\\u2028");
        } else if c == '\u{2029}' {
            out.append("\\u2029");
        } else {
            out.push(c);
        }
        assert(out@ =~= before + escaped_char(c));
    }
    assert(value@.take(value@.len() as int) =~= value@);
    out
}

// ---------------------------------------------------------------------------
// Switching a desktop
// ---------------------------------------------------------------------------

/// The script that assigns `plugin` to the desktop at `index`.
pub open spec fn apply_text(index: nat, plugin: Seq<char>) -> Seq<char> {
    "var d = desktops()["@ + text::decimal(index) + "]; if (!d) throw \"no desktop "@
        + text::decimal(index) + "\"; d.wallpaperPlugin = \""@ + plugin + "\";"@
}

/// Assigns `plugin` to the desktop at `desktop_index`; a desktop that is gone
/// makes the script throw before it assigns anything.
pub fn apply_script(desktop_index: usize, plugin: &str) -> (script: Result<String, String>)
    ensures
        match script {
            Ok(text) => identity::valid_identity(plugin@) && text@ == apply_text(
                desktop_index as nat,
                plugin@,
            ),
            Err(error) => !identity::valid_identity(plugin@) && error@ == identity::identity_error(
                "wallpaper_plugin"@,
            ),
        },
{
    match validate_identity_part("wallpaper_plugin", plugin) {
        Ok(()) => {},
        Err(error) => { return Err(error) },
    }
    let mut script = "var d = desktops()[".to_owned();
    push_decimal(&mut script, desktop_index as u128);
    script.append("]; if (!d) throw \"no desktop ");
    push_decimal(&mut script, desktop_index as u128);
    script.append("\"; d.wallpaperPlugin = \"");
    script.append(plugin);
    script.append("\";");
    Ok(script)
}

/// The parts of a config group as quoted literals, separated by commas.
pub open spec fn quoted_parts(parts: Seq<String>) -> Seq<char>
    decreases parts.len(),
{
    if parts.len() == 0 {
        seq![]
    } else if parts.len() == 1 {
        "\""@ + parts[0]@ + "\""@
    } else {
        quoted_parts(parts.drop_last()) + ", "@ + "\""@ + parts.last()@ + "\""@
    }
}

/// A config group that a script may carry.
pub open spec fn valid_group(parts: Seq<String>) -> bool {
    1 <= parts.len() <= MAX_GROUP_PARTS && forall|i: int|
        0 <= i < parts.len() ==> identity::valid_identity(#[trigger] parts[i]@)
}

/// An image value that a script may carry.
pub open spec fn valid_image(image: Seq<char>) -> bool {
    image.len() > 0 && text::byte_count(image) <= MAX_IMAGE_BYTES
}

/// The line that writes the image, if there is one.
pub open spec fn image_line(image: Option<&str>) -> Seq<char> {
    match image {
        Some(value) => "d.writeConfig(\"Image\", \""@ + escaped(value@) + "\");\n"@,
        None => seq![],
    }
}

/// The script that puts a saved wallpaper back on the desktop at `index`.
pub open spec fn restore_text(
    index: nat,
    plugin: Seq<char>,
    group: Seq<String>,
    image: Option<&str>,
) -> Seq<char> {
    "var d = desktops()["@ + text::decimal(index) + "];\nif (!d) throw \"no desktop "@
        + text::decimal(index) + "\";\n"@ + "d.currentConfigGroup = ["@ + quoted_parts(group)
        + "];\n"@ + image_line(image) + "d.wallpaperPlugin = \""@ + plugin + "\";"@
}

/// What a refused restore script is answered: the plugin is looked at first,
/// then the size of the group, its parts, and the image.
pub open spec fn restore_refusal(
    plugin: Seq<char>,
    group: Seq<String>,
    image: Option<&str>,
) -> Option<Seq<char>> {
    if !identity::valid_identity(plugin) {
        Some(identity::identity_error("wallpaper_plugin"@))
    } else if group.len() == 0 || group.len() > MAX_GROUP_PARTS {
        Some("config_group must be a bounded config group"@)
    } else if !valid_group(group) {
        Some(identity::identity_error("config_group"@))
    } else if image matches Some(value) && !valid_image(value@) {
        Some("image must be a bounded image path"@)
    } else {
        None
    }
}

/// Selects the saved config group, writes the saved image when there is one,
/// and assigns the saved plugin.
pub fn restore_script(
    desktop_index: usize,
    plugin: &str,
    config_group: &[String],
    image: Option<&str>,
) -> (script: Result<String, String>)
    ensures
        match script {
            Ok(text) => restore_refusal(plugin@, config_group@, image) is None && text@
                == restore_text(desktop_index as nat, plugin@, config_group@, image),
            Err(error) => restore_refusal(plugin@, config_group@, image) == Some(error@),
        },
{
    match validate_identity_part("wallpaper_plugin", plugin) {
        Ok(()) => {},
        Err(error) => { return Err(error) },
    }
    if config_group.len() == 0 || config_group.len() > MAX_GROUP_PARTS {
        return Err("config_group must be a bounded config group".to_owned());
    }
    let mut group = String::new();
    let mut index: usize = 0;
    while index < config_group.len()
        invariant
            index <= config_group.len() <= MAX_GROUP_PARTS,
            config_group.len() >= 1,
            group@ == quoted_parts(config_group@.take(index as int)),
            forall|i: int|
                0 <= i < index ==> identity::valid_identity(#[trigger] config_group@[i]@),
            identity::valid_identity(plugin@),
        decreases config_group.len() - index,
    {
        let part: &str = config_group[index].as_str();
        match validate_identity_part("config_group", part) {
            Ok(()) => {},
            Err(error) => {
                assert(!identity::valid_identity(config_group@[index as int]@));
                return Err(error)
            },
        }
        let ghost before = group@;
        if index > 0 {
            group.append(", ");
        }
        group.append("\"");
        group.append(part);
        group.append("\"");
        proof {
            let done = config_group@.take(index as int);
            let longer = config_group@.take(index + 1);
            assert(longer.drop_last() =~= done);
            assert(group@ =~= quoted_parts(longer));
        }
        index = index + 1;
    }
    assert(config_group@.take(config_group@.len() as int) =~= config_group@);
    let mut script = "var d = desktops()[".to_owned();
    push_decimal(&mut script, desktop_index as u128);
    script.append("];\nif (!d) throw \"no desktop ");
    push_decimal(&mut script, desktop_index as u128);
    script.append("\";\n");
    script.append("d.currentConfigGroup = [");
    script.append(group.as_str());
    script.append("];\n");
    let ghost head = script@;
    match image {
        Some(value) => {
            if value.is_empty() || byte_len(value) > MAX_IMAGE_BYTES {
                return Err("image must be a bounded image path".to_owned());
            }
            script.append("d.writeConfig(\"Image\", \"");
            let literal = escape_js_string(value);
            script.append(literal.as_str());
            script.append("\");\n");
        },
        None => {},
    }
    assert(script@ =~= head + image_line(image));
    script.append("d.wallpaperPlugin = \"");
    script.append(plugin);
    script.append("\";");
    Ok(script)
}

// ---------------------------------------------------------------------------
// Probing the desktops
// ---------------------------------------------------------------------------

/// How the probe begins; no other script does.
pub const PROBE_OPENING: &'static str = "var d = desktops();\nvar out = [];";

/// The fixed part of the probe before the connector map: per desktop the array
/// index, the containment id, the screen, the wallpaper plugin and the image
/// that the plugin is configured with.
pub const PROBE_LOOP: &'static str = "
for (var i = 0; i < d.length; i++) {
  var image = null;
  var wp = d[i].wallpaperPlugin;
  if (/^[A-Za-z0-9._-]+$/.test(wp)) {
    var g = d[i].currentConfigGroup;
    try {
      d[i].currentConfigGroup = [\"Wallpaper\", wp, \"General\"];
      image = d[i].readConfig(\"Image\");
    } catch (e) { }
    d[i].currentConfigGroup = g;
  }
  out.push({index: i, id: d[i].id, screen: d[i].screen, wp: wp, image: image});
}
var c = ";

/// The fixed part of the probe after the connector map.
pub const PROBE_TAIL: &'static str = ";
print(JSON.stringify({desktops: out, connectors: c}));";

/// One entry of the connector map.
pub open spec fn connector_entry(name: Seq<char>) -> Seq<char> {
    "\""@ + name + "\": screenForConnector(\""@ + name + "\")"@
}

/// The entries of the connector map, separated by commas.
pub open spec fn connector_entries(names: Seq<String>) -> Seq<char>
    decreases names.len(),
{
    if names.len() == 0 {
        seq![]
    } else if names.len() == 1 {
        connector_entry(names[0]@)
    } else {
        connector_entries(names.drop_last()) + ", "@ + connector_entry(names.last()@)
    }
}

/// The probe over the given connectors.
pub open spec fn probe_text(names: Seq<String>) -> Seq<char> {
    PROBE_OPENING@ + PROBE_LOOP@ + "{"@ + connector_entries(names) + "}"@ + PROBE_TAIL@
}

/// All names are identity parts.
pub open spec fn valid_names(names: Seq<String>) -> bool {
    forall|i: int| 0 <= i < names.len() ==> identity::valid_identity(#[trigger] names[i]@)
}

/// The read-only enumeration script: only validated connector names are
/// interpolated into the fixed template.
pub fn probe_script(connector_names: &[String]) -> (script: Result<String, String>)
    ensures
        match script {
            Ok(text) => valid_names(connector_names@) && text@ == probe_text(connector_names@),
            Err(error) => !valid_names(connector_names@) && error@ == identity::identity_error(
                "connector"@,
            ),
        },
{
    let mut entries = String::new();
    let mut index: usize = 0;
    while index < connector_names.len()
        invariant
            index <= connector_names.len(),
            entries@ == connector_entries(connector_names@.take(index as int)),
            forall|i: int|
                0 <= i < index ==> identity::valid_identity(#[trigger] connector_names@[i]@),
        decreases connector_names.len() - index,
    {
        let name: &str = connector_names[index].as_str();
        match validate_identity_part("connector", name) {
            Ok(()) => {},
            Err(error) => {
                assert(!identity::valid_identity(connector_names@[index as int]@));
                return Err(error)
            },
        }
        if index > 0 {
            entries.append(", ");
        }
        let ghost before = entries@;
        entries.append("\"");
        entries.append(name);
        entries.append("\": screenForConnector(\"");
        entries.append(name);
        entries.append("\")");
        proof {
            let longer = connector_names@.take(index + 1);
            assert(longer.drop_last() =~= connector_names@.take(index as int));
            assert(entries@ =~= before + connector_entry(name@));
            assert(entries@ =~= connector_entries(longer));
        }
        index = index + 1;
    }
    assert(connector_names@.take(connector_names@.len() as int) =~= connector_names@);
    let mut script = PROBE_OPENING.to_owned();
    script.append(PROBE_LOOP);
    script.append("{");
    script.append(entries.as_str());
    script.append("}");
    script.append(PROBE_TAIL);
    Ok(script)
}

} // verus!
