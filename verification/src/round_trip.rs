//! What the script builders write, the script reader understands.

use vstd::prelude::*;

use crate::identity;
use crate::macos_desktop;
use crate::macos_desktop::{DesktopRecord, DesktopRecordView, Display, Evaluated, SwitchView};
use crate::names::NameMap;
use crate::probe;
use crate::probe::{ProbeDesktop, ProbeError, ProbeReply};
use crate::script;
use crate::text;

verus! {

/// The text that begins with `before` holds `marker` first where `before`
/// ends, as soon as it holds it nowhere earlier.
proof fn lemma_first_at(s: Seq<char>, marker: Seq<char>, at: int)
    requires
        0 <= at,
        at + marker.len() <= s.len(),
        forall|i: int| 0 <= i < marker.len() ==> s[at + i] == marker[i],
        forall|j: int| 0 <= j < at ==> !text::occurs_at(s, marker, j),
    ensures
        text::find_from(s, marker, 0) == Some(at as nat),
{
    assert(s.subrange(at, at + marker.len()) =~= marker);
    text::lemma_find_first(s, marker, 0, at as nat);
}

/// An occurrence shows each character of the marker.
proof fn lemma_occurrence(s: Seq<char>, marker: Seq<char>, at: int)
    requires
        text::occurs_at(s, marker, at),
    ensures
        forall|i: int| 0 <= i < marker.len() ==> #[trigger] s[at + i] == marker[i],
{
    assert forall|i: int| 0 <= i < marker.len() implies #[trigger] s[at + i] == marker[i] by {
        assert(s.subrange(at, at + marker.len())[i] == s[at + i]);
    }
}

/// A script that begins with the desktop index is read with that index.
proof fn lemma_index_reads_back(s: Seq<char>, index: nat, rest: Seq<char>)
    requires
        s == "var d = desktops()["@ + text::decimal(index) + rest,
        index <= usize::MAX,
        rest.len() > 0,
        rest[0] == ']',
    ensures
        macos_desktop::switch_index(s) == Ok::<nat, Seq<char>>(index),
{
    let opening = "var d = desktops()["@;
    let marker = "desktops()["@;
    let digits = text::decimal(index);
    reveal_strlit("var d = desktops()[");
    reveal_strlit("desktops()[");
    text::lemma_decimal_digits(index);
    assert forall|i: int| 0 <= i < 19 implies s[i] == opening[i] by {}
    assert forall|j: int| 0 <= j < 8 implies !text::occurs_at(s, marker, j) by {
        if text::occurs_at(s, marker, j) {
            lemma_occurrence(s, marker, j);
            assert(s[j + 0] == 'd');
            assert(s[j + 1] == 'e');
            assert(j == 4);
        }
    }
    assert forall|i: int| 0 <= i < marker.len() implies s[8 + i] == marker[i] by {}
    lemma_first_at(s, marker, 8);
    let end = 19 + digits.len();
    assert forall|i: int| 19 <= i < end implies s[i] != ']' by {
        assert(s[i] == digits[i - 19]);
        assert(text::is_digit(digits[i - 19]));
    }
    assert(s[end as int] == ']');
    text::lemma_index_of(s, ']', 19);
    assert(text::index_of(s, ']', 19) == end);
    assert(s.subrange(19, end as int) =~= digits);
    text::lemma_decimal_reads_back(index, usize::MAX as nat);
}

/// An identity part is read back as the literal that it stands in.
proof fn lemma_identity_literal(s: Seq<char>, at: nat, value: Seq<char>)
    requires
        identity::identity_chars(value),
        at + value.len() < s.len(),
        forall|i: int| 0 <= i < value.len() ==> s[at + i] == value[i],
        s[(at + value.len()) as int] == '"',
    ensures
        macos_desktop::literal_end(s, at) == Some(at + value.len()),
    decreases value.len(),
{
    if value.len() > 0 {
        assert(s[at as int + 0] == value[0]);
        assert(identity::identity_char(value[0]));
        let rest = value.drop_first();
        assert forall|i: int| 0 <= i < rest.len() implies s[at + 1 + i] == rest[i] by {
            assert(s[at + (i + 1)] == value[i + 1]);
        }
        assert(identity::identity_chars(rest)) by {
            assert forall|i: int| 0 <= i < rest.len() implies identity::identity_char(
                #[trigger] rest[i],
            ) by {
                assert(rest[i] == value[i + 1]);
            }
        }
        lemma_identity_literal(s, at + 1, rest);
    }
}

// ---------------------------------------------------------------------------
// Where markers cannot stand
// ---------------------------------------------------------------------------

/// The plugin marker without its quote.
spec fn plugin_stem() -> Seq<char> {
    "wallpaperPlugin = "@
}

/// The plugin marker stands nowhere in `s`.
spec fn no_plugin(s: Seq<char>) -> bool {
    forall|j: int| !#[trigger] text::occurs_at(s, "wallpaperPlugin = \""@, j)
}

/// No quote in `s` opens the first argument of a call.
spec fn no_call(s: Seq<char>) -> bool {
    forall|q: int| 0 <= q < s.len() && #[trigger] s[q] == '"' ==> q > 0 && s[q - 1] != '('
}

/// No bracket in `s` follows a space.
spec fn no_group(s: Seq<char>) -> bool {
    forall|q: int| 0 <= q < s.len() && #[trigger] s[q] == '[' ==> q > 0 && s[q - 1] != ' '
}

/// No quote in `s` follows an equals sign and a space, and if one stands at the
/// start, nothing before it may be the plugin stem.
spec fn quiet(s: Seq<char>) -> bool {
    forall|q: int|
        0 < q < s.len() && #[trigger] s[q] == '"' ==> s[q - 1] != ' ' || (q > 1 && s[q - 2] != '=')
}

proof fn lemma_join_no_plugin(a: Seq<char>, b: Seq<char>)
    requires
        no_plugin(a),
        quiet(b),
        b.len() > 0 && b[0] == '"' ==> !text::ends_with(a, plugin_stem()),
    ensures
        no_plugin(a + b),
{
    let marker = "wallpaperPlugin = \""@;
    let s = a + b;
    reveal_strlit("wallpaperPlugin = \"");
    reveal_strlit("wallpaperPlugin = ");
    assert forall|j: int| !#[trigger] text::occurs_at(s, marker, j) by {
        if text::occurs_at(s, marker, j) {
            lemma_occurrence(s, marker, j);
            assert(s[j + 18] == '"' && s[j + 17] == ' ' && s[j + 16] == '=');
            let q = j + 18;
            if q < a.len() {
                assert(a.subrange(j, j + 19) =~= s.subrange(j, j + 19));
                assert(text::occurs_at(a, marker, j));
            } else {
                let k = q - a.len();
                assert(b[k] == '"');
                if k == 0 {
                    assert(a.subrange(j, j + 18) =~= plugin_stem()) by {
                        assert forall|i: int| 0 <= i < 18 implies a[j + i] == plugin_stem()[i] by {
                            assert(s[j + i] == marker[i]);
                        }
                    }
                    assert(text::ends_with(a, plugin_stem()));
                } else {
                    assert(b[k - 1] == s[q - 1]);
                    if k > 1 {
                        assert(b[k - 2] == s[q - 2]);
                    }
                }
            }
        }
    }
}

proof fn lemma_join_no_call(a: Seq<char>, b: Seq<char>)
    requires
        no_call(a),
        a.len() > 0,
        forall|q: int| 0 < q < b.len() && #[trigger] b[q] == '"' ==> b[q - 1] != '(',
        b.len() > 0 && b[0] == '"' ==> a.last() != '(',
    ensures
        no_call(a + b),
{
    let s = a + b;
    assert forall|q: int| 0 <= q < s.len() && #[trigger] s[q] == '"' implies q > 0 && s[q - 1]
        != '(' by {
        if q < a.len() {
            assert(a[q] == '"');
        } else if q > a.len() {
            assert(b[q - a.len()] == '"');
            assert(b[q - a.len() - 1] == s[q - 1]);
        } else {
            assert(b[0] == '"');
        }
    }
}

proof fn lemma_join_no_group(a: Seq<char>, b: Seq<char>)
    requires
        no_group(a),
        a.len() > 0,
        forall|q: int| 0 <= q < b.len() ==> #[trigger] b[q] != '[',
    ensures
        no_group(a + b),
{
    let s = a + b;
    assert forall|q: int| 0 <= q < s.len() && #[trigger] s[q] == '[' implies q > 0 && s[q - 1]
        != ' ' by {
        if q < a.len() {
            assert(a[q] == '[');
        } else {
            assert(b[q - a.len()] == '[');
        }
    }
}

/// Digits and identity parts hold neither quotes nor brackets.
proof fn lemma_identity_is_quiet(s: Seq<char>)
    requires
        identity::identity_chars(s),
    ensures
        quiet(s),
        forall|q: int| 0 <= q < s.len() ==> #[trigger] s[q] != '"' && s[q] != '[' && s[q] != ' ',
{
    assert forall|q: int| 0 <= q < s.len() implies #[trigger] s[q] != '"' && s[q] != '[' && s[q]
        != ' ' by {
        assert(identity::identity_char(s[q]));
    }
}

proof fn lemma_digits_are_identity(index: nat)
    ensures
        identity::identity_chars(text::decimal(index)),
        text::decimal(index).len() > 0,
{
    text::lemma_decimal_digits(index);
    assert forall|i: int| 0 <= i < text::decimal(index).len() implies identity::identity_char(
        #[trigger] text::decimal(index)[i],
    ) by {
        assert(text::is_digit(text::decimal(index)[i]));
    }
}

/// The marker stands first right after a prefix that does not hold it.
proof fn lemma_plugin_after(prefix: Seq<char>, plugin: Seq<char>, tail: Seq<char>)
    requires
        no_plugin(prefix + "wallpaperPlugin = "@),
        identity::identity_chars(plugin),
    ensures
        macos_desktop::literal_after(
            prefix + "wallpaperPlugin = \""@ + plugin + "\""@ + tail,
            "wallpaperPlugin = \""@,
        ) == Some(plugin),
{
    let marker = "wallpaperPlugin = \""@;
    let stem = "wallpaperPlugin = "@;
    let s = prefix + marker + plugin + "\""@ + tail;
    let before = prefix + stem;
    reveal_strlit("wallpaperPlugin = \"");
    reveal_strlit("wallpaperPlugin = ");
    reveal_strlit("\"");
    let at = prefix.len() as int;
    assert forall|j: int| 0 <= j < at implies !text::occurs_at(s, marker, j) by {
        if text::occurs_at(s, marker, j) {
            assert(before.subrange(j, j + 19) =~= s.subrange(j, j + 19)) by {
                assert forall|i: int| j <= i < j + 19 implies before[i] == s[i] by {}
            }
            assert(text::occurs_at(before, marker, j));
        }
    }
    assert forall|i: int| 0 <= i < marker.len() implies s[at + i] == marker[i] by {}
    lemma_first_at(s, marker, at);
    let start = prefix.len() + 19;
    assert forall|i: int| 0 <= i < plugin.len() implies s[start + i] == plugin[i] by {}
    assert(s[(start + plugin.len()) as int] == '"');
    lemma_identity_literal(s, start, plugin);
    assert(s.subrange(start as int, (start + plugin.len()) as int) =~= plugin);
}

/// The script that assigns a plugin is read back as that assignment.
pub proof fn law_apply_script_reads_back(index: nat, plugin: Seq<char>)
    requires
        index <= usize::MAX,
        identity::valid_identity(plugin),
    ensures
        macos_desktop::switch_of(script::apply_text(index, plugin)) == Ok::<SwitchView, Seq<char>>(
            (SwitchView { desktop_index: index, plugin, touches_image: false, image: None }),
        ),
{
    let s = script::apply_text(index, plugin);
    let digits = text::decimal(index);
    let a0 = "var d = desktops()["@;
    let a1 = "]; if (!d) throw \"no desktop "@;
    let a2 = "\"; d.wallpaperPlugin = \""@;
    let a3 = "\";"@;
    reveal_strlit("var d = desktops()[");
    reveal_strlit("]; if (!d) throw \"no desktop ");
    reveal_strlit("\"; d.wallpaperPlugin = \"");
    reveal_strlit("\";");
    reveal_strlit("\"");
    reveal_strlit(";");
    reveal_strlit("\"; d.");
    reveal_strlit("wallpaperPlugin = ");
    reveal_strlit("wallpaperPlugin = \"");
    lemma_digits_are_identity(index);
    lemma_identity_is_quiet(digits);
    lemma_identity_is_quiet(plugin);
    let rest = a1 + digits + a2 + plugin + a3;
    assert(s =~= a0 + digits + rest);
    assert(rest[0] == ']');
    lemma_index_reads_back(s, index, rest);
    // The plugin.
    assert(no_plugin(seq![])) by {
        assert forall|j: int| !#[trigger] text::occurs_at(seq![], "wallpaperPlugin = \""@, j) by {}
    }
    let h0 = a0;
    assert(quiet(a0));
    lemma_join_no_plugin(seq![], a0);
    assert(seq![] + a0 =~= a0);
    let h1 = h0 + digits;
    lemma_join_no_plugin(h0, digits);
    let h2 = h1 + a1;
    assert(quiet(a1));
    lemma_join_no_plugin(h1, a1);
    let h3 = h2 + digits;
    lemma_join_no_plugin(h2, digits);
    let b0 = "\"; d."@;
    let h4 = h3 + b0;
    assert(h3.last() == digits.last() && digits.last() != ' ');
    assert(!text::ends_with(h3, plugin_stem())) by {
        if text::ends_with(h3, plugin_stem()) {
            lemma_occurrence(h3, plugin_stem(), h3.len() - 18);
            assert(h3[h3.len() - 18 + 17] == ' ');
        }
    }
    lemma_join_no_plugin(h3, b0);
    let stem = "wallpaperPlugin = "@;
    lemma_join_no_plugin(h4, stem);
    lemma_plugin_after(h4, plugin, ";"@);
    assert(s =~= h4 + "wallpaperPlugin = \""@ + plugin + "\""@ + ";"@);
    lemma_apply_touches_no_image(index, plugin);
}

/// Without a bracket after a space there is no config group.
proof fn lemma_no_group_marker(s: Seq<char>)
    requires
        no_group(s),
    ensures
        !text::contains(s, "currentConfigGroup = ["@),
{
    let marker = "currentConfigGroup = ["@;
    reveal_strlit("currentConfigGroup = [");
    assert forall|j: int| !text::occurs_at(s, marker, j) by {
        if text::occurs_at(s, marker, j) {
            lemma_occurrence(s, marker, j);
            assert(s[j + 21] == '[' && s[j + 20] == ' ');
        }
    }
}

/// Without a quote after a parenthesis no image is written.
proof fn lemma_no_image_marker(s: Seq<char>)
    requires
        no_call(s),
    ensures
        macos_desktop::literal_after(s, "writeConfig(\"Image\", \""@) is None,
{
    let marker = "writeConfig(\"Image\", \""@;
    reveal_strlit("writeConfig(\"Image\", \"");
    assert forall|j: int| !text::occurs_at(s, marker, j) by {
        if text::occurs_at(s, marker, j) {
            lemma_occurrence(s, marker, j);
            assert(s[j + 12] == '"' && s[j + 11] == '(');
        }
    }
    text::lemma_find_result(s, marker, 0);
}

/// An assigning script has no config group and writes no image.
proof fn lemma_apply_touches_no_image(index: nat, plugin: Seq<char>)
    requires
        identity::valid_identity(plugin),
    ensures
        !text::contains(script::apply_text(index, plugin), "currentConfigGroup = ["@),
        macos_desktop::literal_after(
            script::apply_text(index, plugin),
            "writeConfig(\"Image\", \""@,
        ) is None,
{
    let digits = text::decimal(index);
    let a0 = "var d = desktops()["@;
    let a1 = "]; if (!d) throw \"no desktop "@;
    let a2 = "\"; d.wallpaperPlugin = \""@;
    let a3 = "\";"@;
    reveal_strlit("var d = desktops()[");
    reveal_strlit("]; if (!d) throw \"no desktop ");
    reveal_strlit("\"; d.wallpaperPlugin = \"");
    reveal_strlit("\";");
    lemma_digits_are_identity(index);
    lemma_identity_is_quiet(digits);
    lemma_identity_is_quiet(plugin);
    let h1 = a0 + digits;
    let h2 = h1 + a1;
    let h3 = h2 + digits;
    let h4 = h3 + a2;
    let h5 = h4 + plugin;
    let h6 = h5 + a3;
    lemma_join_no_group(a0, digits);
    lemma_join_no_group(h1, a1);
    lemma_join_no_group(h2, digits);
    lemma_join_no_group(h3, a2);
    lemma_join_no_group(h4, plugin);
    lemma_join_no_group(h5, a3);
    lemma_no_group_marker(h6);
    assert(identity::identity_char(digits.last()));
    assert(identity::identity_char(plugin.last()));
    lemma_join_no_call(a0, digits);
    lemma_join_no_call(h1, a1);
    lemma_join_no_call(h2, digits);
    lemma_join_no_call(h3, a2);
    lemma_join_no_call(h4, plugin);
    lemma_join_no_call(h5, a3);
    lemma_no_image_marker(h6);
    assert(h6 =~= script::apply_text(index, plugin));
}

// ---------------------------------------------------------------------------
// Restoring
// ---------------------------------------------------------------------------

/// A quoted list of identity parts opens no call and holds no plugin marker.
proof fn lemma_group_is_quiet(parts: Seq<String>)
    requires
        parts.len() > 0,
        script::valid_names(parts),
    ensures
        quiet(script::quoted_parts(parts)),
        forall|q: int|
            0 < q < script::quoted_parts(parts).len() && #[trigger] script::quoted_parts(parts)[q]
                == '"' ==> script::quoted_parts(parts)[q - 1] != '(',
        script::quoted_parts(parts).len() > 1,
        script::quoted_parts(parts)[0] == '"',
        script::quoted_parts(parts).last() == '"',
    decreases parts.len(),
{
    reveal_strlit("\"");
    reveal_strlit(", ");
    let last = parts.last()@;
    assert(identity::valid_identity(last));
    lemma_identity_is_quiet(last);
    let g = script::quoted_parts(parts);
    let quoted = "\""@ + last + "\""@;
    assert(identity::identity_char(last.last()));
    if parts.len() == 1 {
        assert(g =~= quoted);
        assert forall|q: int| 0 < q < g.len() && #[trigger] g[q] == '"' implies q == g.len() - 1
            && g[q - 1] == last.last() by {
            if q < g.len() - 1 {
                assert(g[q] == last[q - 1]);
            }
        }
    } else {
        let rest = script::quoted_parts(parts.drop_last());
        assert(script::valid_names(parts.drop_last())) by {
            assert forall|i: int| 0 <= i < parts.drop_last().len() implies identity::valid_identity(
                #[trigger] parts.drop_last()[i]@,
            ) by {
                assert(parts[i] == parts.drop_last()[i]);
            }
        }
        lemma_group_is_quiet(parts.drop_last());
        assert(g =~= rest + ", "@ + quoted);
        let n = rest.len() as int;
        assert forall|q: int| 0 < q < g.len() && #[trigger] g[q] == '"' implies {
            ||| q < n && rest[q] == '"'
            ||| q == n + 2 && g[q - 1] == ' ' && g[q - 2] == ','
            ||| q == g.len() - 1 && g[q - 1] == last.last()
        } by {
            if q >= n + 3 && q < g.len() - 1 {
                assert(g[q] == last[q - n - 3]);
            }
        }
        assert forall|q: int| 0 <= q < n implies #[trigger] g[q] == rest[q] by {}
    }
}

/// The part of a restore script before the image.
spec fn restore_head(index: nat, group: Seq<String>) -> Seq<char> {
    "var d = desktops()["@ + text::decimal(index) + "];\nif (!d) throw \"no desktop "@
        + text::decimal(index) + "\";\n"@ + "d.currentConfigGroup = ["@ + script::quoted_parts(group)
        + "];\n"@
}

/// A text that ends in something other than a space does not end in the stem.
proof fn lemma_no_stem_at_end(s: Seq<char>)
    requires
        s.len() > 0,
        s.last() != ' ',
    ensures
        !text::ends_with(s, plugin_stem()),
{
    reveal_strlit("wallpaperPlugin = ");
    if text::ends_with(s, plugin_stem()) {
        lemma_occurrence(s, plugin_stem(), s.len() - 18);
        assert(s[s.len() - 18 + 17] == ' ');
    }
}

proof fn lemma_restore_head(index: nat, group: Seq<String>)
    requires
        script::valid_group(group),
    ensures
        no_plugin(restore_head(index, group)),
        no_call(restore_head(index, group)),
        restore_head(index, group).len() > 0,
        restore_head(index, group).last() == '\n',
{
    let digits = text::decimal(index);
    let r0 = "var d = desktops()["@;
    let r1 = "];\nif (!d) throw \"no desktop "@;
    let r2 = "\";\n"@;
    let r3 = "d.currentConfigGroup = ["@;
    let g = script::quoted_parts(group);
    let r4 = "];\n"@;
    reveal_strlit("var d = desktops()[");
    reveal_strlit("];\nif (!d) throw \"no desktop ");
    reveal_strlit("\";\n");
    reveal_strlit("d.currentConfigGroup = [");
    reveal_strlit("];\n");
    reveal_strlit("wallpaperPlugin = \"");
    lemma_digits_are_identity(index);
    lemma_identity_is_quiet(digits);
    lemma_group_is_quiet(group);
    assert(identity::identity_char(digits.last()));
    assert(no_plugin(r0)) by {
        assert forall|j: int| !#[trigger] text::occurs_at(r0, "wallpaperPlugin = \""@, j) by {
            if text::occurs_at(r0, "wallpaperPlugin = \""@, j) {
                lemma_occurrence(r0, "wallpaperPlugin = \""@, j);
                assert(r0[j + 18] == '"');
            }
        }
    }
    let h1 = r0 + digits;
    let h2 = h1 + r1;
    let h3 = h2 + digits;
    let h4 = h3 + r2;
    let h5 = h4 + r3;
    let h6 = h5 + g;
    let h7 = h6 + r4;
    lemma_join_no_plugin(r0, digits);
    lemma_join_no_plugin(h1, r1);
    lemma_join_no_plugin(h2, digits);
    lemma_no_stem_at_end(h3);
    lemma_join_no_plugin(h3, r2);
    lemma_join_no_plugin(h4, r3);
    assert(h5.last() == '[');
    lemma_no_stem_at_end(h5);
    lemma_join_no_plugin(h5, g);
    lemma_join_no_plugin(h6, r4);
    lemma_join_no_call(r0, digits);
    lemma_join_no_call(h1, r1);
    lemma_join_no_call(h2, digits);
    lemma_join_no_call(h3, r2);
    lemma_join_no_call(h4, r3);
    lemma_join_no_call(h5, g);
    lemma_join_no_call(h6, r4);
    assert(h7 =~= restore_head(index, group));
}

/// A restore script selects a config group and begins with its index.
proof fn lemma_restore_opening(index: nat, group: Seq<String>, tail: Seq<char>)
    requires
        index <= usize::MAX,
    ensures
        macos_desktop::switch_index(restore_head(index, group) + tail) == Ok::<nat, Seq<char>>(
            index,
        ),
        text::contains(restore_head(index, group) + tail, "currentConfigGroup = ["@),
{
    let digits = text::decimal(index);
    let r0 = "var d = desktops()["@;
    let r1 = "];\nif (!d) throw \"no desktop "@;
    let r2 = "\";\n"@;
    let r3 = "d.currentConfigGroup = ["@;
    let g = script::quoted_parts(group);
    let r4 = "];\n"@;
    let s = restore_head(index, group) + tail;
    reveal_strlit("];\nif (!d) throw \"no desktop ");
    let rest = r1 + digits + r2 + r3 + g + r4 + tail;
    assert(s =~= r0 + digits + rest);
    assert(rest[0] == ']');
    lemma_index_reads_back(s, index, rest);
    let before = r0 + digits + r1 + digits + r2;
    let after = g + r4 + tail;
    reveal_strlit("d.currentConfigGroup = [");
    reveal_strlit("currentConfigGroup = [");
    assert(s =~= before + r3 + after);
    let at = before.len() as int + 2;
    assert(s.subrange(at, at + 22) =~= "currentConfigGroup = ["@);
    assert(text::occurs_at(s, "currentConfigGroup = ["@, at));
}

/// Once the head is past, the plugin line is read back.
proof fn lemma_plugin_line(head: Seq<char>, plugin: Seq<char>)
    requires
        no_plugin(head),
        head.len() > 0,
        head.last() == '\n',
        identity::identity_chars(plugin),
    ensures
        macos_desktop::literal_after(
            head + "d.wallpaperPlugin = \""@ + plugin + "\";"@,
            "wallpaperPlugin = \""@,
        ) == Some(plugin),
{
    let s = head + "d.wallpaperPlugin = \""@ + plugin + "\";"@;
    reveal_strlit("d.wallpaperPlugin = \"");
    reveal_strlit("wallpaperPlugin = \"");
    reveal_strlit("wallpaperPlugin = ");
    reveal_strlit("d.");
    reveal_strlit("\";");
    reveal_strlit("\"");
    reveal_strlit(";");
    lemma_join_no_plugin(head, "d."@);
    lemma_join_no_plugin(head + "d."@, "wallpaperPlugin = "@);
    lemma_plugin_after(head + "d."@, plugin, ";"@);
    assert(s =~= head + "d."@ + "wallpaperPlugin = \""@ + plugin + "\""@ + ";"@);
}

/// The script that restores a wallpaper is read back as that wallpaper: the
/// desktop, the plugin, and the image it writes, whatever that image says.
pub proof fn law_restore_script_reads_back(
    index: nat,
    plugin: Seq<char>,
    group: Seq<String>,
    image: Option<&str>,
)
    requires
        index <= usize::MAX,
        script::restore_refusal(plugin, group, image) is None,
    ensures
        macos_desktop::switch_of(script::restore_text(index, plugin, group, image)) == Ok::<
            SwitchView,
            Seq<char>,
        >(
            (SwitchView {
                desktop_index: index,
                plugin,
                touches_image: true,
                image: match image {
                    Some(value) => Some(value@),
                    None => None,
                },
            }),
        ),
{
    let s = script::restore_text(index, plugin, group, image);
    let head = restore_head(index, group);
    let last = "d.wallpaperPlugin = \""@ + plugin + "\";"@;
    let line = script::image_line(image);
    assert(s =~= head + (line + last));
    lemma_restore_opening(index, group, line + last);
    lemma_restore_head(index, group);
    match image {
        None => {
            assert(s =~= head + "d.wallpaperPlugin = \""@ + plugin + "\";"@);
            lemma_plugin_line(head, plugin);
            lemma_restore_without_image(head, plugin);
        },
        Some(value) => {
            lemma_image_reads_back(head, value@, last);
            lemma_plugin_behind_image(head, value@, plugin);
            assert(s =~= head + (line + last));
            macos_desktop::law_unescape_reverses_escape(value@);
        },
    }
}

proof fn lemma_restore_without_image(head: Seq<char>, plugin: Seq<char>)
    requires
        no_call(head),
        head.len() > 0,
        identity::valid_identity(plugin),
    ensures
        macos_desktop::literal_after(
            head + "d.wallpaperPlugin = \""@ + plugin + "\";"@,
            "writeConfig(\"Image\", \""@,
        ) is None,
{
    reveal_strlit("d.wallpaperPlugin = \"");
    reveal_strlit("\";");
    lemma_identity_is_quiet(plugin);
    assert(identity::identity_char(plugin.last()));
    let h1 = head + "d.wallpaperPlugin = \""@;
    let h2 = h1 + plugin;
    lemma_join_no_call(head, "d.wallpaperPlugin = \""@);
    lemma_join_no_call(h1, plugin);
    lemma_join_no_call(h2, "\";"@);
    lemma_no_image_marker(h2 + "\";"@);
}

/// The image that a restore script writes is read back, still escaped.
proof fn lemma_image_reads_back(head: Seq<char>, value: Seq<char>, last: Seq<char>)
    requires
        no_call(head),
        head.len() > 0,
    ensures
        macos_desktop::literal_after(
            head + (("d.writeConfig(\"Image\", \""@ + script::escaped(value) + "\");\n"@) + last),
            "writeConfig(\"Image\", \""@,
        ) == Some(script::escaped(value)),
        macos_desktop::literal_place(
            head + (("d.writeConfig(\"Image\", \""@ + script::escaped(value) + "\");\n"@) + last),
            "writeConfig(\"Image\", \""@,
            0,
        ) == Some((head.len() + 24, head.len() + 24 + script::escaped(value).len())),
{
    let w = "d.writeConfig(\"Image\", \""@;
    let e = script::escaped(value);
    let c = "\");\n"@;
    let marker = "writeConfig(\"Image\", \""@;
    let s = head + ((w + e + c) + last);
    reveal_strlit("d.writeConfig(\"Image\", \"");
    reveal_strlit("\");\n");
    reveal_strlit("writeConfig(\"Image\", \"");
    let at = head.len() as int + 2;
    assert forall|i: int| 0 <= i < 24 implies s[head.len() + i] == w[i] by {}
    assert forall|j: int| 0 <= j < at implies !text::occurs_at(s, marker, j) by {
        if text::occurs_at(s, marker, j) {
            lemma_occurrence(s, marker, j);
            assert(s[j + 12] == '"' && s[j + 11] == '(');
            let q = j + 12;
            if q < head.len() {
                assert(head[q] == '"');
                assert(head[q - 1] == '(');
            } else {
                assert(s[head.len() + (q - head.len())] == w[q - head.len()]);
            }
        }
    }
    assert forall|i: int| 0 <= i < marker.len() implies s[at + i] == marker[i] by {
        assert(s[head.len() + (i + 2)] == w[i + 2]);
    }
    lemma_first_at(s, marker, at);
    let before = head + w;
    let after = ");\n"@ + last;
    reveal_strlit(");\n");
    assert(s =~= before + e + seq!['"'] + after);
    macos_desktop::law_escaped_value_stays_in_its_literal(before, value, after);
    assert(s.subrange(before.len() as int, (before.len() + e.len()) as int) =~= e);
}

/// The plugin of a restore script is read back behind its image, whether or not
/// the image holds the words that introduce a plugin.
proof fn lemma_plugin_behind_image(head: Seq<char>, value: Seq<char>, plugin: Seq<char>)
    requires
        no_plugin(head),
        no_call(head),
        head.len() > 0,
        head.last() == '\n',
        identity::valid_identity(plugin),
    ensures
        macos_desktop::plugin_literal(
            head + (("d.writeConfig(\"Image\", \""@ + script::escaped(value) + "\");\n"@) + (
            "d.wallpaperPlugin = \""@ + plugin + "\";"@)),
        ) == Some(plugin),
{
    let w = "d.writeConfig(\"Image\", \""@;
    let e = script::escaped(value);
    let c = "\");\n"@;
    let d = "d.wallpaperPlugin = \""@;
    let last = d + plugin + "\";"@;
    let marker = "wallpaperPlugin = \""@;
    let s = head + ((w + e + c) + last);
    reveal_strlit("d.writeConfig(\"Image\", \"");
    reveal_strlit("\");\n");
    reveal_strlit("d.wallpaperPlugin = \"");
    reveal_strlit("wallpaperPlugin = \"");
    reveal_strlit("\";");
    lemma_image_reads_back(head, value, last);
    let start = (head.len() + 24) as int;
    let end = start + e.len();
    let t = end + 6;
    let opened = head + w;
    lemma_join_no_plugin(head, w);
    assert forall|i: int| 0 <= i < opened.len() implies s[i] == opened[i] by {}
    assert forall|j: int| 0 <= j < start implies !text::occurs_at(s, marker, j) by {
        if text::occurs_at(s, marker, j) {
            if j + 19 <= start {
                assert(opened.subrange(j, j + 19) =~= s.subrange(j, j + 19));
                assert(text::occurs_at(opened, marker, j));
            } else {
                lemma_occurrence(s, marker, j);
                let k = start - 1 - j;
                assert(s[j + k] == marker[k]);
                assert(s[start - 1] == opened[start - 1]);
                assert(w[23] == '"');
            }
        }
    }
    assert forall|i: int| 0 <= i < 4 implies s[end + i] == c[i] by {}
    assert forall|i: int| 0 <= i < 21 implies s[end + 4 + i] == d[i] by {}
    assert forall|i: int| 0 <= i < 19 implies s[t + i] == marker[i] by {
        assert(s[end + 4 + (i + 2)] == d[i + 2]);
    }
    assert(s.subrange(t, t + 19) =~= marker);
    assert(text::occurs_at(s, marker, t));
    assert forall|j: int| end <= j < t implies !text::occurs_at(s, marker, j) by {
        if text::occurs_at(s, marker, j) {
            lemma_occurrence(s, marker, j);
            assert(s[j + 18] == '"');
            let k = j + 18 - t;
            assert(s[t + k] == marker[k]);
        }
    }
    text::lemma_find_first(s, marker, end as nat, t as nat);
    text::lemma_find_result(s, marker, 0);
    let first = text::find_from(s, marker, 0);
    assert(first is Some);
    let at = first->Some_0;
    assert(at <= t);
    assert(at >= start);
    let from = macos_desktop::plugin_from(s);
    assert(text::find_from(s, marker, from) == Some(t as nat)) by {
        if at < end {
            assert(from == end);
        } else {
            assert(from == 0);
            assert(at == t);
        }
    }
    let begin = (t + 19) as nat;
    assert forall|i: int| 0 <= i < plugin.len() implies s[begin + i] == plugin[i] by {}
    assert(s[(begin + plugin.len()) as int] == '"');
    lemma_identity_literal(s, begin, plugin);
    assert(s.subrange(begin as int, (begin + plugin.len()) as int) =~= plugin);
}

/// The enumeration script is recognised by its opening, and no switch script
/// is ever taken for it.
pub proof fn law_only_the_probe_opens_like_the_probe(
    index: nat,
    plugin: Seq<char>,
    group: Seq<String>,
    image: Option<&str>,
    names: Seq<String>,
)
    ensures
        text::starts_with(script::probe_text(names), script::PROBE_OPENING@),
        !text::starts_with(script::apply_text(index, plugin), script::PROBE_OPENING@),
        !text::starts_with(
            script::restore_text(index, plugin, group, image),
            script::PROBE_OPENING@,
        ),
{
    let opening = script::PROBE_OPENING@;
    reveal_strlit("var d = desktops();\nvar out = [];");
    reveal_strlit("var d = desktops()[");
    let probe = script::probe_text(names);
    assert(probe.subrange(0, opening.len() as int) =~= opening);
    let apply = script::apply_text(index, plugin);
    assert(apply[18] == '[');
    if text::starts_with(apply, opening) {
        lemma_occurrence(apply, opening, 0);
        assert(apply[0int + 18] == opening[18]);
    }
    let restore = script::restore_text(index, plugin, group, image);
    assert(restore[18] == '[');
    if text::starts_with(restore, opening) {
        lemma_occurrence(restore, opening, 0);
        assert(restore[0int + 18] == opening[18]);
    }
}

/// No two displays share a name.
pub open spec fn distinct_names(displays: Seq<Display>) -> bool {
    forall|i: int, j: int|
        0 <= i < j < displays.len() ==> (#[trigger] displays[i]).name@ != (
        #[trigger] displays[j]).name@
}

/// The records are still there: in the same probe, or in one that was built
/// over what was saved of them.
pub open spec fn carried_over(
    after: NameMap<DesktopRecord>,
    later: NameMap<DesktopRecord>,
) -> bool {
    ||| later == after
    ||| exists|size: u64, saved: NameMap<DesktopRecord>|
        saved@ == after@ && size <= macos_desktop::MAX_STATE_BYTES
            && #[trigger] macos_desktop::loads_as(Some((true, size)), Some((1u32, saved)), later)
}

/// The reply has one desktop per display, in order. Those under the name of the
/// display at `index` show this record, every other one what was reported
/// before.
pub open spec fn replies_by_name(
    reply: ProbeReply,
    displays: Seq<Display>,
    before: Map<Seq<char>, DesktopRecord>,
    index: nat,
    record: DesktopRecordView,
) -> bool {
    &&& reply.connectors@ == macos_desktop::display_screens(displays)
    &&& reply.desktops@.len() == displays.len()
    &&& forall|k: int|
        0 <= k < displays.len() ==> desktop_shows(
            #[trigger] reply.desktops@[k],
            k,
            if displays[k].name@ == displays[index as int].name@ {
                record
            } else {
                macos_desktop::reported(before, displays[k].name@)
            },
        )
}

/// The reply has one desktop per display, in order and under the display's
/// name. The one at `index` shows this record, every other one what was
/// reported before.
pub open spec fn replies_with(
    reply: ProbeReply,
    displays: Seq<Display>,
    before: Map<Seq<char>, DesktopRecord>,
    index: nat,
    record: DesktopRecordView,
) -> bool {
    &&& reply.desktops@.len() == displays.len()
    &&& forall|k: int|
        0 <= k < displays.len() ==> desktop_shows(
            #[trigger] reply.desktops@[k],
            k,
            if k == index {
                record
            } else {
                macos_desktop::reported(before, displays[k].name@)
            },
        ) && reply.connectors@.contains_key(displays[k].name@)
            && reply.connectors@[displays[k].name@] == k as i32
    &&& forall|name: Seq<char>| #[trigger]
        reply.connectors@.contains_key(name) ==> exists|k: int|
            0 <= k < displays.len() && (#[trigger] displays[k]).name@ == name
}

/// The desktop at position `k` shows this record.
pub open spec fn desktop_shows(desktop: ProbeDesktop, k: int, record: DesktopRecordView) -> bool {
    &&& desktop.index == k
    &&& desktop.id == k + 1
    &&& desktop.screen == k as i32
    &&& desktop.wp@ == record.plugin
    &&& probe::option_view(desktop.image) == record.image
}

proof fn lemma_screens(displays: Seq<Display>)
    requires
        distinct_names(displays),
    ensures
        forall|k: int|
            #![trigger displays[k]]
            0 <= k < displays.len() ==> {
                &&& macos_desktop::display_screens(displays).contains_key(displays[k].name@)
                &&& macos_desktop::display_screens(displays)[displays[k].name@] == k as i32
            },
        forall|name: Seq<char>| #[trigger]
            macos_desktop::display_screens(displays).contains_key(name) ==> exists|k: int|
                0 <= k < displays.len() && (#[trigger] displays[k]).name@ == name,
    decreases displays.len(),
{
    if displays.len() > 0 {
        let shorter = displays.drop_last();
        let screens = macos_desktop::display_screens(displays);
        assert forall|i: int, j: int| 0 <= i < j < shorter.len() implies (
        #[trigger] shorter[i]).name@ != (#[trigger] shorter[j]).name@ by {
            assert(shorter[i] == displays[i] && shorter[j] == displays[j]);
        }
        lemma_screens(shorter);
        assert forall|k: int|
            #![trigger displays[k]]
            0 <= k < displays.len() implies screens.contains_key(displays[k].name@)
            && screens[displays[k].name@] == k as i32 by {
            if k < shorter.len() {
                assert(shorter[k] == displays[k]);
                assert(displays[k].name@ != displays[displays.len() - 1].name@);
            }
        }
        assert forall|name: Seq<char>| #[trigger] screens.contains_key(name) implies exists|
            k: int,
        |
            0 <= k < displays.len() && (#[trigger] displays[k]).name@ == name by {
            if name == displays.last().name@ {
                assert(displays[displays.len() - 1].name@ == name);
            } else {
                assert(macos_desktop::display_screens(shorter).contains_key(name));
                let k = choose|k: int|
                    0 <= k < shorter.len() && (#[trigger] shorter[k]).name@ == name;
                assert(displays[k].name@ == name);
            }
        }
    }
}

/// What follows from a switch that is read as `command`.
proof fn lemma_switch_shows(
    before: NameMap<DesktopRecord>,
    displays: Seq<Display>,
    script: Seq<char>,
    command: SwitchView,
    result: Result<Evaluated, ProbeError>,
    after: NameMap<DesktopRecord>,
    later: NameMap<DesktopRecord>,
    names: Seq<String>,
    shown: Result<Evaluated, ProbeError>,
    ended: NameMap<DesktopRecord>,
)
    requires
        !text::starts_with(script, script::PROBE_OPENING@),
        macos_desktop::switch_of(script) == Ok::<SwitchView, Seq<char>>(command),
        macos_desktop::evaluates(before, displays, script, result, after),
        carried_over(after, later),
        macos_desktop::evaluates(later, displays, script::probe_text(names), shown, ended),
    ensures
        if command.desktop_index < displays.len() {
            &&& result matches Ok(Evaluated::Switched)
            &&& shown matches Ok(Evaluated::Reply(reply)) && replies_by_name(
                reply,
                displays,
                before@,
                command.desktop_index,
                macos_desktop::switched(
                    before@,
                    displays[command.desktop_index as int].name@,
                    command,
                ),
            ) && (distinct_names(displays) ==> replies_with(
                reply,
                displays,
                before@,
                command.desktop_index,
                macos_desktop::switched(
                    before@,
                    displays[command.desktop_index as int].name@,
                    command,
                ),
            ))
        } else {
            &&& result matches Err(ProbeError::Rejected(detail)) && detail@ == "no desktop "@
                + text::decimal(command.desktop_index)
            &&& after == before
        },
{
    law_only_the_probe_opens_like_the_probe(0, Seq::empty(), Seq::empty(), None, names);
    if command.desktop_index < displays.len() {
        let at = command.desktop_index as int;
        let name = displays[at].name@;
        assert(result is Ok);
        assert(later@ == after@);
        let reply = shown->Ok_0->Reply_0;
        let record = macos_desktop::switched(before@, name, command);
        assert forall|k: int| 0 <= k < displays.len() implies desktop_shows(
            #[trigger] reply.desktops@[k],
            k,
            if displays[k].name@ == name {
                record
            } else {
                macos_desktop::reported(before@, displays[k].name@)
            },
        ) by {
            assert(macos_desktop::reported_desktop(later@, displays, k, reply.desktops@[k]));
            if displays[k].name@ != name {
                assert(after@.contains_key(displays[k].name@) == before@.contains_key(
                    displays[k].name@,
                ));
            }
        }
        if distinct_names(displays) {
            lemma_screens(displays);
            assert forall|k: int| 0 <= k < displays.len() implies desktop_shows(
                #[trigger] reply.desktops@[k],
                k,
                if k == at {
                    record
                } else {
                    macos_desktop::reported(before@, displays[k].name@)
                },
            ) && reply.connectors@.contains_key(displays[k].name@)
                && reply.connectors@[displays[k].name@] == k as i32 by {
                if k != at {
                    assert(displays[k].name@ != displays[at].name@);
                }
            }
        }
    }
}

/// An apply script shows in the next reply on its display alone, or on all that
/// share its name: the plugin is the one that was assigned, and the image is
/// kept. What was saved shows the same to a new probe. A script for a display
/// that is not there is rejected and changes nothing.
pub proof fn law_applied_plugin_shows_in_the_next_reply(
    before: NameMap<DesktopRecord>,
    displays: Seq<Display>,
    index: nat,
    plugin: Seq<char>,
    result: Result<Evaluated, ProbeError>,
    after: NameMap<DesktopRecord>,
    later: NameMap<DesktopRecord>,
    names: Seq<String>,
    shown: Result<Evaluated, ProbeError>,
    ended: NameMap<DesktopRecord>,
)
    requires
        index <= usize::MAX,
        identity::valid_identity(plugin),
        macos_desktop::evaluates(
            before,
            displays,
            script::apply_text(index, plugin),
            result,
            after,
        ),
        carried_over(after, later),
        macos_desktop::evaluates(later, displays, script::probe_text(names), shown, ended),
    ensures
        if index < displays.len() {
            &&& result matches Ok(Evaluated::Switched)
            &&& shown matches Ok(Evaluated::Reply(reply)) && replies_by_name(
                reply,
                displays,
                before@,
                index,
                DesktopRecordView {
                    plugin,
                    image: macos_desktop::kept_image(
                        before@,
                        displays[index as int].name@,
                    ),
                },
            ) && (distinct_names(displays) ==> replies_with(
                reply,
                displays,
                before@,
                index,
                DesktopRecordView {
                    plugin,
                    image: macos_desktop::kept_image(
                        before@,
                        displays[index as int].name@,
                    ),
                },
            ))
        } else {
            &&& result matches Err(ProbeError::Rejected(detail)) && detail@ == "no desktop "@
                + text::decimal(index)
            &&& after == before
        },
{
    let command = SwitchView { desktop_index: index, plugin, touches_image: false, image: None };
    let script = script::apply_text(index, plugin);
    law_apply_script_reads_back(index, plugin);
    law_only_the_probe_opens_like_the_probe(index, plugin, Seq::empty(), None, names);
    lemma_switch_shows(
        before,
        displays,
        script,
        command,
        result,
        after,
        later,
        names,
        shown,
        ended,
    );
}

/// A restore script shows in the next reply on its display alone, or on all that
/// share its name: the plugin and the image are those of the script, and
/// without an image none is left. What was saved shows the same to a new probe.
/// A script for a display that is not there is rejected and changes nothing.
pub proof fn law_restored_wallpaper_shows_in_the_next_reply(
    before: NameMap<DesktopRecord>,
    displays: Seq<Display>,
    index: nat,
    plugin: Seq<char>,
    group: Seq<String>,
    image: Option<&str>,
    result: Result<Evaluated, ProbeError>,
    after: NameMap<DesktopRecord>,
    later: NameMap<DesktopRecord>,
    names: Seq<String>,
    shown: Result<Evaluated, ProbeError>,
    ended: NameMap<DesktopRecord>,
)
    requires
        index <= usize::MAX,
        script::restore_refusal(plugin, group, image) is None,
        macos_desktop::evaluates(
            before,
            displays,
            script::restore_text(index, plugin, group, image),
            result,
            after,
        ),
        carried_over(after, later),
        macos_desktop::evaluates(later, displays, script::probe_text(names), shown, ended),
    ensures
        if index < displays.len() {
            &&& result matches Ok(Evaluated::Switched)
            &&& shown matches Ok(Evaluated::Reply(reply)) && replies_by_name(
                reply,
                displays,
                before@,
                index,
                DesktopRecordView {
                    plugin,
                    image: match image {
                        Some(value) => Some(value@),
                        None => None,
                    },
                },
            ) && (distinct_names(displays) ==> replies_with(
                reply,
                displays,
                before@,
                index,
                DesktopRecordView {
                    plugin,
                    image: match image {
                        Some(value) => Some(value@),
                        None => None,
                    },
                },
            ))
        } else {
            &&& result matches Err(ProbeError::Rejected(detail)) && detail@ == "no desktop "@
                + text::decimal(index)
            &&& after == before
        },
{
    let command = SwitchView {
        desktop_index: index,
        plugin,
        touches_image: true,
        image: match image {
            Some(value) => Some(value@),
            None => None,
        },
    };
    let script = script::restore_text(index, plugin, group, image);
    law_restore_script_reads_back(index, plugin, group, image);
    law_only_the_probe_opens_like_the_probe(index, plugin, group, image, names);
    lemma_switch_shows(
        before,
        displays,
        script,
        command,
        result,
        after,
        later,
        names,
        shown,
        ended,
    );
}

} // verus!
