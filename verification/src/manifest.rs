//! Reading names out of a `Cargo.toml`, line by line.

use crate::text::{
    begins_with, char_replaced, chars_of, is_white_space, join2, law_second_field_is_between,
    law_strip_leaves_the_core, law_trim_leaves_the_core, lines, matches_at, nth_second, owned,
    replace_char, second_field, split_lines, strip, stripped, text_of, trim, trimmed,
};
use vstd::prelude::*;
use vstd::string::*;

verus! {

/// A value without the white space around it, the double quotes around that
/// and the single quotes around that.
pub open spec fn unquoted(value: Seq<char>) -> Seq<char> {
    stripped(stripped(trimmed(value), '"'), '\'')
}

/// The value of the first `name = ...` line in a section, if there is one.
///
/// A line that begins with `[` starts a section: the wanted one exactly where
/// the whole line, without the white space around it, is `header`. `inside`
/// tells whether the first line stands in that section.
pub open spec fn name_in(
    text_lines: Seq<Seq<char>>,
    header: Seq<char>,
    inside: bool,
) -> Option<Seq<char>>
    decreases text_lines.len(),
{
    if text_lines.len() == 0 {
        None
    } else {
        let line = trimmed(text_lines[0]);
        let rest = text_lines.drop_first();
        if begins_with(line, "["@) {
            name_in(rest, header, line == header)
        } else if inside && begins_with(line, "name"@) {
            match second_field(line, '=') {
                Some(value) => Some(unquoted(value)),
                None => name_in(rest, header, inside),
            }
        } else {
            name_in(rest, header, inside)
        }
    }
}

/// The name that a section of a manifest gives, if it gives one.
pub open spec fn section_name_of(content: Seq<char>, header: Seq<char>) -> Option<Seq<char>> {
    name_in(lines(content), header, false)
}

fn same_chars(a: &Vec<char>, b: &Vec<char>) -> (r: bool)
    ensures
        r == (a@ == b@),
{
    if a.len() != b.len() {
        return false;
    }
    let r: bool = matches_at(a, b, 0);
    assert(a@.subrange(0, a@.len() as int) =~= a@);
    r
}

/// The name that a section of a manifest gives, if it gives one.
pub fn section_name(content: &str, header: &str) -> (r: Option<String>)
    ensures
        match r {
            Some(name) => section_name_of(content@, header@) == Some(name@),
            None => section_name_of(content@, header@) is None,
        },
{
    let chars: Vec<char> = chars_of(content);
    let text_lines: Vec<Vec<char>> = split_lines(&chars);
    let wanted: Vec<char> = chars_of(header);
    let bracket: Vec<char> = chars_of("[");
    let key: Vec<char> = chars_of("name");
    let ghost all = text_lines@.map_values(|v: Vec<char>| v@);
    let mut inside: bool = false;
    let mut i: usize = 0;
    assert(all.skip(0) =~= all);
    while i < text_lines.len()
        invariant
            i <= text_lines.len(),
            all == text_lines@.map_values(|v: Vec<char>| v@),
            all == lines(content@),
            wanted@ == header@,
            bracket@ == "["@,
            key@ == "name"@,
            name_in(all.skip(i as int), header@, inside) == name_in(all, header@, false),
        decreases text_lines.len() - i,
    {
        let line: Vec<char> = trim(&text_lines[i]);
        proof {
            assert(all.skip(i as int)[0] == text_lines@[i as int]@);
            assert(all.skip(i as int).drop_first() =~= all.skip(i + 1));
        }
        if matches_at(&line, &bracket, 0) {
            inside = same_chars(&line, &wanted);
        } else if inside && matches_at(&line, &key, 0) {
            match nth_second(&line, '=') {
                Some(value) => {
                    let bare: Vec<char> = trim(&value);
                    let inner: Vec<char> = strip(&bare, '"');
                    let name: Vec<char> = strip(&inner, '\'');
                    return Some(text_of(&name));
                },
                None => {},
            }
        }
        i = i + 1;
    }
    assert(all.skip(all.len() as int) =~= Seq::empty());
    None
}

/// The name that `cargo nih-plug bundle` is given for a project: that of the
/// manifest's `[lib]` section or, failing that, of its `[package]` section.
pub open spec fn bundle_name(content: Seq<char>) -> Option<Seq<char>> {
    match section_name_of(content, "[lib]"@) {
        Some(name) => Some(name),
        None => section_name_of(content, "[package]"@),
    }
}

/// The name of a project's library: that of the manifest's `[lib]` section or,
/// failing that, of its `[package]` section with underscores for hyphens.
pub open spec fn library_name(content: Seq<char>) -> Option<Seq<char>> {
    match section_name_of(content, "[lib]"@) {
        Some(name) => Some(name),
        None => match section_name_of(content, "[package]"@) {
            Some(name) => Some(char_replaced(name, '-', '_')),
            None => None,
        },
    }
}

/// The name to bundle a project under, from its manifest or from the reason
/// why that could not be read.
pub fn get_package_name(manifest: &Result<String, String>) -> (r: Result<String, String>)
    ensures
        match *manifest {
            Err(e) => r matches Err(m) && m@ == "Can't read Cargo.toml: "@ + e@,
            Ok(content) => match bundle_name(content@) {
                Some(name) => r matches Ok(n) && n@ == name,
                None => r matches Err(m) && m@
                    == "Could not determine lib name from Cargo.toml"@,
            },
        },
{
    let content: &String = match manifest {
        Ok(content) => content,
        Err(e) => {
            return Err(join2("Can't read Cargo.toml: ", e.as_str()));
        },
    };
    match section_name(content.as_str(), "[lib]") {
        Some(name) => {
            return Ok(name);
        },
        None => {},
    }
    match section_name(content.as_str(), "[package]") {
        Some(name) => Ok(name),
        None => Err(owned("Could not determine lib name from Cargo.toml")),
    }
}

/// The name of a project's library, from its manifest or from the reason why
/// that could not be read.
pub fn get_plugin_lib_name(manifest: &Result<String, String>) -> (r: Result<String, String>)
    ensures
        match *manifest {
            Err(e) => r matches Err(m) && m@ == "Failed to read Cargo.toml: "@ + e@,
            Ok(content) => match library_name(content@) {
                Some(name) => r matches Ok(n) && n@ == name,
                None => r matches Err(m) && m@
                    == "Could not determine plugin name from Cargo.toml"@,
            },
        },
{
    let content: &String = match manifest {
        Ok(content) => content,
        Err(e) => {
            return Err(join2("Failed to read Cargo.toml: ", e.as_str()));
        },
    };
    match section_name(content.as_str(), "[lib]") {
        Some(name) => {
            return Ok(name);
        },
        None => {},
    }
    match section_name(content.as_str(), "[package]") {
        Some(name) => Ok(replace_char(name.as_str(), '-', '_')),
        None => Err(owned("Could not determine plugin name from Cargo.toml")),
    }
}

/// A library name that comes from the package name holds no hyphen.
pub proof fn law_package_fallback_has_no_hyphen(content: Seq<char>)
    requires
        section_name_of(content, "[lib]"@) is None,
    ensures
        library_name(content) matches Some(name) ==> !name.contains('-'),
{
}

/// Where the `[lib]` section gives a name, the library is called that and the
/// project is bundled under it, whatever the `[package]` section says.
pub proof fn law_lib_name_wins(content: Seq<char>)
    requires
        section_name_of(content, "[lib]"@) is Some,
    ensures
        library_name(content) == section_name_of(content, "[lib]"@),
        bundle_name(content) == section_name_of(content, "[lib]"@),
{
}

/// Whether a line, without the white space around it, is a section's header.
pub open spec fn starts_section(line: Seq<char>) -> bool {
    trimmed(line).len() > 0 && trimmed(line)[0] == '['
}

/// Whether a line, without the white space around it, begins with `name` and
/// gives a value.
pub open spec fn gives_name(line: Seq<char>) -> bool {
    let t = trimmed(line);
    &&& t.len() >= 4
    &&& t[0] == 'n' && t[1] == 'a' && t[2] == 'm' && t[3] == 'e'
    &&& t.contains('=')
}

/// Whether the line at `n` stands in the section whose header stands at `h`.
pub open spec fn is_inside(text_lines: Seq<Seq<char>>, header: Seq<char>, h: int, n: int) -> bool {
    &&& 0 <= h < n < text_lines.len()
    &&& trimmed(text_lines[h]) == header
    &&& forall|k: int| h < k <= n ==> !starts_section(#[trigger] text_lines[k])
}

proof fn lemma_begins(line: Seq<char>)
    ensures
        begins_with(line, "["@) <==> line.len() > 0 && line[0] == '[',
        begins_with(line, "name"@) <==> line.len() >= 4 && line[0] == 'n' && line[1] == 'a'
            && line[2] == 'm' && line[3] == 'e',
{
    reveal_strlit("[");
    reveal_strlit("name");
    if line.len() > 0 {
        assert(line.subrange(0, 1) =~= seq![line[0]]);
        assert("["@ =~= seq!['[']);
        if line[0] == '[' {
            assert(line.subrange(0, 1) =~= "["@);
        } else {
            assert(line.subrange(0, 1)[0] != "["@[0]);
        }
    }
    if line.len() >= 4 {
        let front = line.subrange(0, 4);
        assert("name"@ =~= seq!['n', 'a', 'm', 'e']);
        assert(front =~= seq![line[0], line[1], line[2], line[3]]);
        if begins_with(line, "name"@) {
            assert(front == "name"@);
            assert(front[0] == line[0] && front[1] == line[1] && front[2] == line[2] && front[3]
                == line[3]);
        }
    }
}

proof fn lemma_has_value(line: Seq<char>)
    ensures
        second_field(line, '=') is Some <==> line.contains('='),
    decreases line.len(),
{
    if line.len() > 0 {
        let rest = line.drop_first();
        lemma_has_value(rest);
        if line[0] == '=' {
            assert(line.contains('='));
        } else {
            if rest.contains('=') {
                let i = choose|i: int| 0 <= i < rest.len() && rest[i] == '=';
                assert(line[i + 1] == '=');
            }
            if line.contains('=') {
                let i = choose|i: int| 0 <= i < line.len() && line[i] == '=';
                assert(rest[i - 1] == '=');
            }
        }
    }
}

/// Adding a line that neither starts a section nor begins with `name` changes
/// nothing, wherever it is added.
pub proof fn law_other_lines_do_not_matter(
    above: Seq<Seq<char>>,
    line: Seq<char>,
    below: Seq<Seq<char>>,
    header: Seq<char>,
    inside: bool,
)
    requires
        !starts_section(line),
        !gives_name(line),
    ensures
        name_in(above + seq![line] + below, header, inside) == name_in(
            above + below,
            header,
            inside,
        ),
    decreases above.len(),
{
    let all = above + seq![line] + below;
    let without = above + below;
    if above.len() == 0 {
        assert(all[0] == line);
        assert(all.drop_first() =~= below);
        assert(without =~= below);
        lemma_begins(trimmed(line));
        lemma_has_value(trimmed(line));
    } else {
        let rest = above.drop_first();
        assert(all[0] == above[0]);
        assert(without[0] == above[0]);
        assert(all.drop_first() =~= rest + seq![line] + below);
        assert(without.drop_first() =~= rest + below);
        law_other_lines_do_not_matter(rest, line, below, header, true);
        law_other_lines_do_not_matter(rest, line, below, header, false);
    }
}

proof fn lemma_found_inside(text_lines: Seq<Seq<char>>, header: Seq<char>, n: int)
    requires
        0 <= n < text_lines.len(),
        gives_name(text_lines[n]),
        forall|k: int| 0 <= k <= n ==> !starts_section(#[trigger] text_lines[k]),
        forall|k: int| 0 <= k < n ==> !gives_name(#[trigger] text_lines[k]),
    ensures
        name_in(text_lines, header, true) == Some(
            unquoted(second_field(trimmed(text_lines[n]), '=')->0),
        ),
    decreases n,
{
    lemma_begins(trimmed(text_lines[0]));
    lemma_has_value(trimmed(text_lines[0]));
    assert(!starts_section(text_lines[0]));
    if n > 0 {
        let rest = text_lines.drop_first();
        assert(!gives_name(text_lines[0]));
        assert forall|k: int| 0 <= k <= n - 1 implies !starts_section(#[trigger] rest[k]) by {
            assert(!starts_section(text_lines[k + 1]));
        }
        assert forall|k: int| 0 <= k < n - 1 implies !gives_name(#[trigger] rest[k]) by {
            assert(!gives_name(text_lines[k + 1]));
        }
        lemma_found_inside(rest, header, n - 1);
    }
}

/// A section lasts until the next one starts: the first line in it that gives
/// a name is the one that counts, whatever other lines stand between it and
/// the section's header.
pub proof fn law_section_lasts_until_the_next(
    text_lines: Seq<Seq<char>>,
    header: Seq<char>,
    h: int,
    n: int,
)
    requires
        header.len() > 0 && header[0] == '[',
        is_inside(text_lines, header, h, n),
        gives_name(text_lines[n]),
        forall|k: int| 0 <= k < h ==> trimmed(#[trigger] text_lines[k]) != header,
        forall|k: int| h < k < n ==> !gives_name(#[trigger] text_lines[k]),
    ensures
        name_in(text_lines, header, false) == Some(
            unquoted(second_field(trimmed(text_lines[n]), '=')->0),
        ),
    decreases h,
{
    lemma_begins(trimmed(text_lines[0]));
    let rest = text_lines.drop_first();
    if h == 0 {
        assert forall|k: int| 0 <= k <= n - 1 implies !starts_section(#[trigger] rest[k]) by {
            assert(!starts_section(text_lines[k + 1]));
        }
        assert forall|k: int| 0 <= k < n - 1 implies !gives_name(#[trigger] rest[k]) by {
            assert(!gives_name(text_lines[k + 1]));
        }
        lemma_found_inside(rest, header, n - 1);
    } else {
        assert(trimmed(text_lines[0]) != header);
        assert forall|k: int| h - 1 < k <= n - 1 implies !starts_section(#[trigger] rest[k]) by {
            assert(!starts_section(text_lines[k + 1]));
        }
        assert forall|k: int| 0 <= k < h - 1 implies trimmed(#[trigger] rest[k]) != header by {
            assert(trimmed(text_lines[k + 1]) != header);
        }
        assert forall|k: int| h - 1 < k < n - 1 implies !gives_name(#[trigger] rest[k]) by {
            assert(!gives_name(text_lines[k + 1]));
        }
        law_section_lasts_until_the_next(rest, header, h - 1, n - 1);
    }
}

proof fn lemma_found_where(text_lines: Seq<Seq<char>>, header: Seq<char>, inside: bool) -> (r: (
    int,
    int,
))
    requires
        header.len() > 0 && header[0] == '[',
        name_in(text_lines, header, inside) is Some,
    ensures
        0 <= r.1 < text_lines.len(),
        gives_name(text_lines[r.1]),
        name_in(text_lines, header, inside) == Some(
            unquoted(second_field(trimmed(text_lines[r.1]), '=')->0),
        ),
        is_inside(text_lines, header, r.0, r.1) || (inside && forall|k: int|
            0 <= k <= r.1 ==> !starts_section(#[trigger] text_lines[k])),
    decreases text_lines.len(),
{
    let line = trimmed(text_lines[0]);
    lemma_begins(line);
    lemma_has_value(line);
    let rest = text_lines.drop_first();
    if inside && !starts_section(text_lines[0]) && gives_name(text_lines[0]) {
        (0, 0)
    } else {
        let now = if starts_section(text_lines[0]) {
            line == header
        } else {
            inside
        };
        let (h, n) = lemma_found_where(rest, header, now);
        if is_inside(rest, header, h, n) {
            assert forall|k: int| h + 1 < k <= n + 1 implies !starts_section(
                #[trigger] text_lines[k],
            ) by {
                assert(!starts_section(rest[k - 1]));
            }
            (h + 1, n + 1)
        } else {
            assert forall|k: int| 0 < k <= n + 1 implies !starts_section(#[trigger] text_lines[k])
                by {
                assert(!starts_section(rest[k - 1]));
            }
            (0, n + 1)
        }
    }
}

/// A name that is found is the value of a line that gives a name and stands in
/// the wanted section.
pub proof fn law_name_comes_from_its_section(content: Seq<char>, header: Seq<char>)
    requires
        header.len() > 0 && header[0] == '[',
        section_name_of(content, header) is Some,
    ensures
        exists|h: int, n: int|
            {
                &&& #[trigger] is_inside(lines(content), header, h, n)
                &&& gives_name(lines(content)[n])
                &&& section_name_of(content, header) == Some(
                    unquoted(second_field(trimmed(lines(content)[n]), '=')->0),
                )
            },
{
    let (h, n) = lemma_found_where(lines(content), header, false);
    assert(is_inside(lines(content), header, h, n));
}

/// The first line of a manifest's section that gives a name gives the
/// section's name.
pub proof fn law_section_name_is_found(content: Seq<char>, header: Seq<char>, h: int, n: int)
    requires
        header.len() > 0 && header[0] == '[',
        is_inside(lines(content), header, h, n),
        gives_name(lines(content)[n]),
        forall|k: int| 0 <= k < h ==> trimmed(#[trigger] lines(content)[k]) != header,
        forall|k: int| h < k < n ==> !gives_name(#[trigger] lines(content)[k]),
    ensures
        section_name_of(content, header) == Some(
            unquoted(second_field(trimmed(lines(content)[n]), '=')->0),
        ),
{
    law_section_lasts_until_the_next(lines(content), header, h, n);
}

/// A name in double quotes, in single quotes or in none is the name itself,
/// with any white space around it; it stands behind the equals sign.
pub proof fn law_value_is_what_stands_in_quotes(
    key: Seq<char>,
    left: Seq<char>,
    value: Seq<char>,
    right: Seq<char>,
)
    requires
        !key.contains('='),
        !value.contains('='),
        forall|i: int| 0 <= i < left.len() ==> is_white_space(#[trigger] left[i]),
        forall|i: int| 0 <= i < right.len() ==> is_white_space(#[trigger] right[i]),
        value.len() > 0 ==> {
            &&& !is_white_space(value[0]) && !is_white_space(value.last())
            &&& value[0] != '"' && value.last() != '"'
            &&& value[0] != '\'' && value.last() != '\''
        },
    ensures
        unquoted(left + value + right) == value,
        unquoted(left + (seq!['"'] + value + seq!['"']) + right) == value,
        unquoted(left + (seq!['\''] + value + seq!['\'']) + right) == value,
        second_field(key + seq!['='] + value, '=') == Some(value),
{
    let empty = Seq::<char>::empty();
    law_trim_leaves_the_core(left, value, right);
    law_strip_leaves_the_core(empty, value, empty, '"');
    law_strip_leaves_the_core(empty, value, empty, '\'');
    assert(empty + value + empty =~= value);
    let double = seq!['"'] + value + seq!['"'];
    law_trim_leaves_the_core(left, double, right);
    law_strip_leaves_the_core(seq!['"'], value, seq!['"'], '"');
    let single = seq!['\''] + value + seq!['\''];
    law_trim_leaves_the_core(left, single, right);
    law_strip_leaves_the_core(empty, single, empty, '"');
    assert(empty + single + empty =~= single);
    law_strip_leaves_the_core(seq!['\''], value, seq!['\''], '\'');
    law_second_field_is_between(key, value, empty, '=');
}

/// Where the `[lib]` section gives no name, the project is bundled under that
/// of the `[package]` section, and its library is called that with an
/// underscore wherever it has a hyphen.
pub proof fn law_package_name_is_the_fallback(content: Seq<char>)
    requires
        section_name_of(content, "[lib]"@) is None,
    ensures
        bundle_name(content) == section_name_of(content, "[package]"@),
        library_name(content) is Some <==> section_name_of(content, "[package]"@) is Some,
        section_name_of(content, "[package]"@) matches Some(name) ==> {
            &&& library_name(content) matches Some(library)
            &&& library.len() == name.len()
            &&& forall|i: int|
                0 <= i < name.len() ==> #[trigger] library[i] == (if name[i] == '-' {
                    '_'
                } else {
                    name[i]
                })
        },
{
}

} // verus!
