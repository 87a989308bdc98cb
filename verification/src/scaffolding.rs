//! Making a new project: its names, and its files out of templates.

use crate::templates::Templates;
use crate::text::{
    after, all_ascii, ascii_lower, ascii_upper, before, begins_with, char_replaced, chars_of, contains_text,
    fields, is_ascii, is_letter_or_digit, is_white_space, join2, join3, lemma_after_shorter,
    lowercase, occurs_at, owned, replace, replace_char, replaced, split, text_of, to_lowercase,
    to_uppercase, trim, trim_back, trim_front, trimmed, uppercase,
};
use vstd::prelude::*;
use vstd::string::*;

verus! {

/// What a new project is to be.
#[derive(Debug, Clone, PartialEq, Eq)]
pub struct ScaffoldOptions {
    /// The directory that the project folder will be created inside.
    pub parent_dir: String,
    /// The project's name as it was typed.
    pub project_name: String,
}

// ── Words ───────────────────────────────────────────────────────────────────

/// The texts that are not empty.
pub open spec fn nonempty(texts: Seq<Seq<char>>) -> Seq<Seq<char>>
    decreases texts.len(),
{
    if texts.len() == 0 {
        Seq::empty()
    } else if texts.last().len() == 0 {
        nonempty(texts.drop_last())
    } else {
        nonempty(texts.drop_last()).push(texts.last())
    }
}

/// Words with an underscore between each two.
pub open spec fn joined(words: Seq<Seq<char>>) -> Seq<char>
    decreases words.len(),
{
    if words.len() == 0 {
        Seq::empty()
    } else if words.len() == 1 {
        words[0]
    } else {
        joined(words.drop_last()).push('_') + words.last()
    }
}

/// Several texts, one right after the other.
pub open spec fn concatenated(texts: Seq<Seq<char>>) -> Seq<char>
    decreases texts.len(),
{
    if texts.len() == 0 {
        Seq::empty()
    } else {
        concatenated(texts.drop_last()) + texts.last()
    }
}

/// `s` with one underscore where it has several in a row, and none at its
/// ends.
pub open spec fn collapsed(s: Seq<char>) -> Seq<char> {
    joined(nonempty(fields(s, '_')))
}

/// A word with its first letter in uppercase.
pub open spec fn capitalized(word: Seq<char>) -> Seq<char> {
    if word.len() == 0 {
        Seq::empty()
    } else {
        uppercase(word[0]) + word.skip(1)
    }
}

/// The words between underscores, each with its first letter in uppercase,
/// one right after the other.
pub open spec fn pascal_case(s: Seq<char>) -> Seq<char> {
    concatenated(fields(s, '_').map_values(|word: Seq<char>| capitalized(word)))
}

/// Turns "my_plugin" into "MyPlugin".
pub fn to_pascal_case(s: &str) -> (r: String)
    ensures
        r@ == pascal_case(s@),
{
    let words: Vec<Vec<char>> = split(&chars_of(s), '_');
    let ghost view = |v: Vec<char>| v@;
    let ghost cap = |word: Seq<char>| capitalized(word);
    let ghost all = words@.map_values(view).map_values(cap);
    let mut out: String = String::new();
    let mut i: usize = 0;
    assert(all.take(0) =~= Seq::empty());
    while i < words.len()
        invariant
            i <= words.len(),
            view == (|v: Vec<char>| v@),
            cap == (|word: Seq<char>| capitalized(word)),
            all == words@.map_values(view).map_values(cap),
            out@ == concatenated(all.take(i as int)),
        decreases words.len() - i,
    {
        let word: &Vec<char> = &words[i];
        let ghost done = out@;
        if word.len() > 0 {
            let first: String = to_uppercase(word[0]);
            out.append(first.as_str());
            let mut k: usize = 1;
            assert(word@.subrange(1, 1) =~= Seq::empty());
            assert(out@ =~= done + first@ + word@.subrange(1, 1));
            while k < word.len()
                invariant
                    1 <= k <= word.len(),
                    out@ == done + first@ + word@.subrange(1, k as int),
                decreases word.len() - k,
            {
                out.push(word[k]);
                assert(word@.subrange(1, k + 1) =~= word@.subrange(1, k as int).push(
                    word@[k as int],
                ));
                assert(out@ =~= done + first@ + word@.subrange(1, k + 1));
                k = k + 1;
            }
            assert(word@.subrange(1, k as int) =~= word@.skip(1));
        }
        proof {
            assert(all[i as int] == capitalized(word@));
            assert(all.take(i + 1).drop_last() =~= all.take(i as int));
            assert(all.take(i + 1).last() == all[i as int]);
            assert(out@ =~= done + capitalized(word@));
        }
        i = i + 1;
    }
    assert(all.take(words@.len() as int) =~= all);
    out
}

/// `s` with one underscore where it has several in a row, and none at its
/// ends.
pub fn collapse_underscores(s: &Vec<char>) -> (r: String)
    ensures
        r@ == collapsed(s@),
{
    let pieces: Vec<Vec<char>> = split(s, '_');
    let ghost view = |v: Vec<char>| v@;
    let ghost all = pieces@.map_values(view);
    let mut out: String = String::new();
    let mut some: bool = false;
    let mut i: usize = 0;
    assert(all.take(0) =~= Seq::empty());
    while i < pieces.len()
        invariant
            i <= pieces.len(),
            view == (|v: Vec<char>| v@),
            all == pieces@.map_values(view),
            out@ == joined(nonempty(all.take(i as int))),
            some == (nonempty(all.take(i as int)).len() > 0),
        decreases pieces.len() - i,
    {
        let ghost seen = nonempty(all.take(i as int));
        proof {
            assert(all.take(i + 1).drop_last() =~= all.take(i as int));
            assert(all.take(i + 1).last() == pieces@[i as int]@);
        }
        if pieces[i].len() > 0 {
            let piece: String = text_of(&pieces[i]);
            proof {
                assert(seen.push(piece@).drop_last() =~= seen);
            }
            if some {
                out.push('_');
            } else {
                assert(out@ + piece@ =~= piece@);
            }
            out.append(piece.as_str());
            some = true;
        }
        i = i + 1;
    }
    assert(all.take(pieces@.len() as int) =~= all);
    out
}

// ── Names ───────────────────────────────────────────────────────────────────

/// A character that may stand in a project's name, or an underscore for it.
pub open spec fn tame(c: char) -> char {
    if is_letter_or_digit(c) || c == '_' {
        c
    } else {
        '_'
    }
}

/// A lowercase text as a project's name.
pub open spec fn snake_case(s: Seq<char>) -> Seq<char> {
    collapsed(s.map_values(|c: char| tame(c)))
}

/// The name of a project, out of what was typed.
pub open spec fn sanitized(name: Seq<char>) -> Seq<char> {
    snake_case(lowercase(trimmed(name)))
}

/// A lowercase text as a project's name: letters, digits and single
/// underscores between them.
pub fn to_snake_case(s: &str) -> (r: String)
    ensures
        r@ == snake_case(s@),
{
    let chars: Vec<char> = chars_of(s);
    let mut tamed: Vec<char> = Vec::new();
    let ghost f = |c: char| tame(c);
    let mut i: usize = 0;
    while i < chars.len()
        invariant
            chars@ == s@,
            i <= chars.len(),
            f == (|c: char| tame(c)),
            tamed@ == s@.take(i as int).map_values(f),
        decreases chars.len() - i,
    {
        let c: char = chars[i];
        if c.is_alphanumeric() || c == '_' {
            tamed.push(c);
        } else {
            tamed.push('_');
        }
        assert(tamed@ =~= s@.take(i + 1).map_values(f));
        i = i + 1;
    }
    assert(s@.take(s@.len() as int) =~= s@);
    collapse_underscores(&tamed)
}

/// The name of a project, out of what was typed.
pub fn sanitize_project_name(name: &str) -> (r: String)
    ensures
        r@ == sanitized(name@),
{
    let kept: String = text_of(&trim(&chars_of(name)));
    let lower: String = to_lowercase(kept.as_str());
    to_snake_case(lower.as_str())
}

// ── Templates ───────────────────────────────────────────────────────────────

/// How a placeholder is written.
pub open spec fn placeholder(key: Seq<char>) -> Seq<char> {
    "{{"@ + key + "}}"@
}

/// A template with a value in place of each placeholder.
pub fn substitute(template: &str, key: &str, value: &str) -> (r: String)
    ensures
        r@ == replaced(template@, placeholder(key@), value@),
{
    let written: String = join3("{{", key, "}}");
    proof {
        reveal_strlit("{{");
    }
    replace(template, written.as_str(), value)
}

/// A template with the project's names filled in.
pub open spec fn filled_in(
    template: Seq<char>,
    project_name: Seq<char>,
    plugin_name: Seq<char>,
) -> Seq<char> {
    let with_project = replaced(template, placeholder("project_name"@), project_name);
    let with_plugin = replaced(with_project, placeholder("PluginName"@), plugin_name);
    replaced(
        with_plugin,
        placeholder("plugin_name_str"@),
        char_replaced(project_name, '_', ' '),
    )
}

/// A template with the project's names filled in: the project's own, the
/// plugin's, and the project's in words.
pub fn apply_substitutions(template: &str, project_name: &str, plugin_name: &str) -> (r: String)
    ensures
        r@ == filled_in(template@, project_name@, plugin_name@),
{
    let with_project: String = substitute(template, "project_name", project_name);
    let with_plugin: String = substitute(with_project.as_str(), "PluginName", plugin_name);
    let display_name: String = replace_char(project_name, '_', ' ');
    substitute(with_plugin.as_str(), "plugin_name_str", display_name.as_str())
}

// ── The project ─────────────────────────────────────────────────────────────

/// A file to be written.
#[derive(Debug, Clone, PartialEq, Eq)]
pub struct PlannedFile {
    /// In the project's `src` directory, or else in the project itself.
    pub in_src: bool,
    pub name: String,
    pub content: String,
}

/// The directory of a new project, and the files in it.
#[derive(Debug, Clone, PartialEq, Eq)]
pub struct ProjectPlan {
    pub project_name: String,
    pub files: Vec<PlannedFile>,
}

/// How far writing a new project came.
#[derive(Debug, Clone, PartialEq, Eq)]
pub enum ScaffoldOutcome {
    /// Something is there already.
    Exists,
    /// Its directories could not be made.
    NotCreated(String),
    /// A file could not be written.
    NotWritten { path: String, reason: String },
    /// Everything is written.
    Written,
}

/// Whether a file is the one that a template gives.
pub open spec fn is_planned(
    file: PlannedFile,
    in_src: bool,
    name: Seq<char>,
    template: Seq<char>,
    project_name: Seq<char>,
) -> bool {
    &&& file.in_src == in_src
    &&& file.name@ == name
    &&& file.content@ == filled_in(template, project_name, pascal_case(project_name))
}

/// What a new project consists of. A name of which nothing is left is none.
pub fn plan_project(opts: &ScaffoldOptions, templates: &Templates) -> (r: Result<
    ProjectPlan,
    String,
>)
    ensures
        ({
            let name = sanitized(opts.project_name@);
            if name.len() == 0 {
                r matches Err(m) && m@ == "Project name cannot be empty"@
            } else {
                &&& r matches Ok(plan)
                &&& plan.project_name@ == name
                &&& plan.files@.len() == 4
                &&& is_planned(
                    plan.files@[0],
                    false,
                    "Cargo.toml"@,
                    templates.cargo_toml@,
                    name,
                )
                &&& is_planned(plan.files@[1], true, "lib.rs"@, templates.lib_rs@, name)
                &&& is_planned(plan.files@[2], true, "params.rs"@, templates.params_rs@, name)
                &&& is_planned(plan.files@[3], true, "editor.rs"@, templates.editor_rs@, name)
            }
        }),
{
    let project_name: String = sanitize_project_name(opts.project_name.as_str());
    plan_named(project_name, templates)
}

/// What a project of the given name consists of.
pub fn plan_named(project_name: String, templates: &Templates) -> (r: Result<ProjectPlan, String>)
    ensures
        if project_name@.len() == 0 {
            r matches Err(m) && m@ == "Project name cannot be empty"@
        } else {
            &&& r matches Ok(plan)
            &&& plan.project_name@ == project_name@
            &&& plan.files@.len() == 4
            &&& is_planned(
                plan.files@[0],
                false,
                "Cargo.toml"@,
                templates.cargo_toml@,
                project_name@,
            )
            &&& is_planned(plan.files@[1], true, "lib.rs"@, templates.lib_rs@, project_name@)
            &&& is_planned(plan.files@[2], true, "params.rs"@, templates.params_rs@, project_name@)
            &&& is_planned(plan.files@[3], true, "editor.rs"@, templates.editor_rs@, project_name@)
        },
{
    if chars_of(project_name.as_str()).len() == 0 {
        return Err(owned("Project name cannot be empty"));
    }
    let plugin_name: String = to_pascal_case(project_name.as_str());
    let mut files: Vec<PlannedFile> = Vec::new();
    files.push(
        plan_file(false, "Cargo.toml", &templates.cargo_toml, &project_name, &plugin_name),
    );
    files.push(plan_file(true, "lib.rs", &templates.lib_rs, &project_name, &plugin_name));
    files.push(plan_file(true, "params.rs", &templates.params_rs, &project_name, &plugin_name));
    files.push(plan_file(true, "editor.rs", &templates.editor_rs, &project_name, &plugin_name));
    Ok(ProjectPlan { project_name, files })
}

fn plan_file(
    in_src: bool,
    name: &str,
    template: &String,
    project_name: &String,
    plugin_name: &String,
) -> (r: PlannedFile)
    requires
        plugin_name@ == pascal_case(project_name@),
    ensures
        is_planned(r, in_src, name@, template@, project_name@),
{
    PlannedFile {
        in_src,
        name: owned(name),
        content: apply_substitutions(
            template.as_str(),
            project_name.as_str(),
            plugin_name.as_str(),
        ),
    }
}

/// What making a new project comes to: the directory that it is in, or what
/// went wrong.
pub fn scaffold_project(plan: &Result<ProjectPlan, String>, project_dir: &str, outcome: &ScaffoldOutcome) -> (r:
    Result<String, String>)
    ensures
        match *plan {
            Err(e) => r matches Err(m) && m@ == e@,
            Ok(_) => match *outcome {
                ScaffoldOutcome::Exists => r matches Err(m) && m@ == "Directory already exists: "@
                    + project_dir@,
                ScaffoldOutcome::NotCreated(e) => r matches Err(m) && m@
                    == "Failed to create project directory: "@ + e@,
                ScaffoldOutcome::NotWritten { path, reason } => r matches Err(m) && m@
                    == "Failed to write "@ + path@ + ": "@ + reason@,
                ScaffoldOutcome::Written => r matches Ok(d) && d@ == project_dir@,
            },
        },
{
    match plan {
        Err(e) => Err(owned(e.as_str())),
        Ok(_) => match outcome {
            ScaffoldOutcome::Exists => Err(join2("Directory already exists: ", project_dir)),
            ScaffoldOutcome::NotCreated(e) => Err(
                join2("Failed to create project directory: ", e.as_str()),
            ),
            ScaffoldOutcome::NotWritten { path, reason } => {
                let start: String = join3("Failed to write ", path.as_str(), ": ");
                Err(join2(start.as_str(), reason.as_str()))
            },
            ScaffoldOutcome::Written => Ok(owned(project_dir)),
        },
    }
}

// ── Laws ────────────────────────────────────────────────────────────────────

/// Letters, digits and underscores, with no underscore at either end and no
/// two in a row.
pub open spec fn is_snake_case(s: Seq<char>) -> bool {
    &&& forall|i: int| 0 <= i < s.len() ==> is_letter_or_digit(#[trigger] s[i]) || s[i] == '_'
    &&& s.len() > 0 ==> s[0] != '_' && s.last() != '_'
    &&& forall|i: int, j: int|
        0 <= i && j == i + 1 && j < s.len() ==> !((#[trigger] s[i]) == '_' && (#[trigger] s[j])
            == '_')
}

/// Whether each of several texts is a word: not empty, and without an
/// underscore in it.
pub open spec fn are_words(words: Seq<Seq<char>>) -> bool {
    forall|i: int| 0 <= i < words.len() ==> is_word(#[trigger] words[i])
}

/// Whether a text is not empty and without an underscore in it.
pub open spec fn is_word(word: Seq<char>) -> bool {
    &&& word.len() > 0
    &&& forall|k: int| 0 <= k < word.len() ==> #[trigger] word[k] != '_'
}

proof fn lemma_before_chars(s: Seq<char>, sep: char, k: int)
    requires
        0 <= k < before(s, sep).len(),
    ensures
        before(s, sep)[k] != sep,
        s.contains(before(s, sep)[k]),
    decreases s.len(),
{
    if s.len() > 0 && s[0] != sep {
        if k == 0 {
            assert(s.contains(s[0]));
        } else {
            lemma_before_chars(s.drop_first(), sep, k - 1);
            let c = before(s.drop_first(), sep)[k - 1];
            let i = choose|i: int| 0 <= i < s.drop_first().len() && s.drop_first()[i] == c;
            assert(s[i + 1] == c);
        }
    }
}

proof fn lemma_after_chars(s: Seq<char>, sep: char, c: char)
    requires
        after(s, sep) is Some,
        (after(s, sep)->0).contains(c),
    ensures
        s.contains(c),
    decreases s.len(),
{
    if s[0] == sep {
        let i = choose|i: int| 0 <= i < s.drop_first().len() && s.drop_first()[i] == c;
        assert(s[i + 1] == c);
    } else {
        lemma_after_chars(s.drop_first(), sep, c);
        let i = choose|i: int| 0 <= i < s.drop_first().len() && s.drop_first()[i] == c;
        assert(s[i + 1] == c);
    }
}

proof fn lemma_no_sep(s: Seq<char>, sep: char)
    requires
        after(s, sep) is None,
    ensures
        before(s, sep) == s,
        forall|k: int| 0 <= k < s.len() ==> #[trigger] s[k] != sep,
    decreases s.len(),
{
    if s.len() > 0 {
        lemma_no_sep(s.drop_first(), sep);
        assert(seq![s[0]] + s.drop_first() =~= s);
        assert forall|k: int| 0 <= k < s.len() implies #[trigger] s[k] != sep by {
            if k > 0 {
                assert(s.drop_first()[k - 1] != sep);
            }
        }
    } else {
        assert(s =~= Seq::empty());
    }
}

/// The fields of a text are made of its characters, without the separator.
proof fn lemma_fields_chars(s: Seq<char>, sep: char, i: int, k: int)
    requires
        0 <= i < fields(s, sep).len(),
        0 <= k < fields(s, sep)[i].len(),
    ensures
        fields(s, sep)[i][k] != sep,
        s.contains(fields(s, sep)[i][k]),
    decreases s.len(),
{
    lemma_after_shorter(s, sep);
    match after(s, sep) {
        Some(rest) => {
            if i == 0 {
                lemma_before_chars(s, sep, k);
            } else {
                lemma_fields_chars(rest, sep, i - 1, k);
                lemma_after_chars(s, sep, fields(rest, sep)[i - 1][k]);
            }
        },
        None => {
            lemma_no_sep(s, sep);
        },
    }
}

proof fn lemma_nonempty_from(texts: Seq<Seq<char>>)
    ensures
        nonempty(texts).len() <= texts.len(),
        forall|i: int|
            0 <= i < nonempty(texts).len() ==> (#[trigger] nonempty(texts)[i]).len() > 0
                && texts.contains(nonempty(texts)[i]),
    decreases texts.len(),
{
    if texts.len() > 0 {
        let init = texts.drop_last();
        lemma_nonempty_from(init);
        assert forall|i: int| 0 <= i < nonempty(texts).len() implies (
        #[trigger] nonempty(texts)[i]).len() > 0 && texts.contains(nonempty(texts)[i]) by {
            if i < nonempty(init).len() {
                assert(nonempty(texts)[i] == nonempty(init)[i]);
                assert(init.contains(nonempty(init)[i]));
                let j = choose|j: int| 0 <= j < init.len() && init[j] == nonempty(init)[i];
                assert(texts[j] == nonempty(texts)[i]);
            } else {
                assert(texts[texts.len() - 1] == nonempty(texts)[i]);
            }
        }
    }
}

proof fn lemma_nonempty_words(words: Seq<Seq<char>>)
    requires
        are_words(words),
    ensures
        nonempty(words) == words,
    decreases words.len(),
{
    if words.len() > 0 {
        let init = words.drop_last();
        assert forall|i: int| 0 <= i < init.len() implies is_word(#[trigger] init[i]) by {
            assert(is_word(words[i]));
        }
        lemma_nonempty_words(init);
        assert(is_word(words[words.len() - 1]));
        assert(init.push(words.last()) =~= words);
    } else {
        assert(words =~= Seq::empty());
    }
}

/// The words of a text between underscores.
proof fn lemma_words_of(s: Seq<char>)
    ensures
        are_words(nonempty(fields(s, '_'))),
        forall|i: int, k: int|
            0 <= i < nonempty(fields(s, '_')).len() && 0 <= k < nonempty(
                fields(s, '_'),
            )[i].len() ==> s.contains(#[trigger] nonempty(fields(s, '_'))[i][k]),
{
    let all = fields(s, '_');
    let words = nonempty(all);
    lemma_nonempty_from(all);
    assert forall|i: int| 0 <= i < words.len() implies is_word(#[trigger] words[i]) by {
        let j = choose|j: int| 0 <= j < all.len() && all[j] == words[i];
        assert forall|k: int| 0 <= k < words[i].len() implies #[trigger] words[i][k] != '_' by {
            lemma_fields_chars(s, '_', j, k);
        }
    }
    assert forall|i: int, k: int|
        0 <= i < words.len() && 0 <= k < words[i].len() implies s.contains(
        #[trigger] words[i][k],
    ) by {
        assert(all.contains(words[i]));
        let j = choose|j: int| 0 <= j < all.len() && all[j] == words[i];
        lemma_fields_chars(s, '_', j, k);
    }
}

/// Joined words are in snake case, as far as their characters allow it.
proof fn lemma_joined_is_tidy(words: Seq<Seq<char>>)
    requires
        are_words(words),
        forall|i: int, k: int|
            0 <= i < words.len() && 0 <= k < words[i].len() ==> is_letter_or_digit(
                #[trigger] words[i][k],
            ),
    ensures
        is_snake_case(joined(words)),
        words.len() > 0 ==> joined(words).len() > 0,
    decreases words.len(),
{
    if words.len() == 1 {
        let word = words[0];
        assert(is_word(word));
        assert forall|i: int| 0 <= i < word.len() implies is_letter_or_digit(#[trigger] word[i])
            by {
            assert(is_letter_or_digit(words[0][i]));
        }
    } else if words.len() > 1 {
        let init = words.drop_last();
        let last = words.last();
        assert forall|i: int| 0 <= i < init.len() implies is_word(#[trigger] init[i]) by {
            assert(is_word(words[i]));
        }
        assert forall|i: int, k: int|
            0 <= i < init.len() && 0 <= k < init[i].len() implies is_letter_or_digit(
            #[trigger] init[i][k],
        ) by {
            assert(is_letter_or_digit(words[i][k]));
        }
        lemma_joined_is_tidy(init);
        let a = joined(init);
        let s = joined(words);
        assert(s == a.push('_') + last);
        assert(is_word(words[words.len() - 1]));
        assert forall|i: int| 0 <= i < s.len() implies is_letter_or_digit(#[trigger] s[i]) || s[i]
            == '_' by {
            if i < a.len() {
                assert(s[i] == a[i]);
            } else if i > a.len() {
                assert(s[i] == last[i - a.len() - 1]);
                assert(is_letter_or_digit(words[words.len() - 1][i - a.len() - 1]));
            }
        }
        assert(s[0] == a[0]);
        assert(s.last() == last[last.len() - 1]);
        assert forall|i: int, j: int| 0 <= i && j == i + 1 && j < s.len() implies !((
        #[trigger] s[i]) == '_' && (#[trigger] s[j]) == '_') by {
            if j < a.len() {
                assert(s[i] == a[i] && s[j] == a[j]);
            } else if j == a.len() {
                assert(s[i] == a[a.len() - 1]);
            } else if i == a.len() {
                assert(s[j] == last[0]);
            } else {
                assert(s[j] == last[j - a.len() - 1]);
            }
        }
    }
}

/// The fields of two texts with an underscore between them are those of the
/// one and then those of the other.
proof fn lemma_fields_add(a: Seq<char>, b: Seq<char>)
    ensures
        fields(a.push('_') + b, '_') == fields(a, '_') + fields(b, '_'),
    decreases a.len(),
{
    let s = a.push('_') + b;
    lemma_after_shorter(a, '_');
    lemma_after_shorter(s, '_');
    lemma_cut_joined(a, b);
    match after(a, '_') {
        Some(rest) => {
            lemma_fields_add(rest, b);
            assert(fields(s, '_') =~= fields(a, '_') + fields(b, '_'));
        },
        None => {
            assert(fields(s, '_') =~= fields(a, '_') + fields(b, '_'));
        },
    }
}

proof fn lemma_only_field(word: Seq<char>)
    requires
        forall|k: int| 0 <= k < word.len() ==> #[trigger] word[k] != '_',
    ensures
        after(word, '_') is None,
        fields(word, '_') == seq![word],
    decreases word.len(),
{
    if word.len() > 0 {
        let rest = word.drop_first();
        assert forall|k: int| 0 <= k < rest.len() implies #[trigger] rest[k] != '_' by {
            assert(word[k + 1] != '_');
        }
        assert(word[0] != '_');
        lemma_only_field(rest);
    }
}

proof fn lemma_cut_joined(a: Seq<char>, word: Seq<char>)
    ensures
        after(a, '_') matches Some(rest) ==> {
            &&& before(a.push('_') + word, '_') == before(a, '_')
            &&& after(a.push('_') + word, '_') == Some(rest.push('_') + word)
        },
        after(a, '_') is None ==> {
            &&& before(a.push('_') + word, '_') == a
            &&& after(a.push('_') + word, '_') == Some(word)
        },
    decreases a.len(),
{
    let s = a.push('_') + word;
    if a.len() == 0 {
        assert(s.drop_first() =~= word);
        assert(a =~= Seq::empty());
    } else {
        let tail = a.drop_first();
        assert(s.drop_first() =~= tail.push('_') + word);
        assert(s[0] == a[0]);
        if a[0] != '_' {
            lemma_cut_joined(tail, word);
            assert(seq![a[0]] + tail =~= a);
        }
    }
}

proof fn lemma_fields_of_joined(words: Seq<Seq<char>>)
    requires
        are_words(words),
        words.len() > 0,
    ensures
        fields(joined(words), '_') == words,
    decreases words.len(),
{
    if words.len() == 1 {
        assert(is_word(words[0]));
        lemma_only_field(words[0]);
        assert(words =~= seq![words[0]]);
    } else {
        let init = words.drop_last();
        assert forall|i: int| 0 <= i < init.len() implies is_word(#[trigger] init[i]) by {
            assert(is_word(words[i]));
        }
        lemma_fields_of_joined(init);
        assert(is_word(words[words.len() - 1]));
        lemma_fields_add(joined(init), words.last());
        lemma_only_field(words.last());
        assert(init + seq![words.last()] =~= words);
    }
}

proof fn lemma_some_nonempty(texts: Seq<Seq<char>>, j: int)
    requires
        0 <= j < texts.len(),
        texts[j].len() > 0,
    ensures
        nonempty(texts).len() > 0,
    decreases texts.len(),
{
    if j < texts.len() - 1 {
        lemma_some_nonempty(texts.drop_last(), j);
    }
}

/// A text that is not made of underscores alone has a word.
proof fn lemma_some_word(s: Seq<char>, i: int)
    requires
        0 <= i < s.len(),
        s[i] != '_',
    ensures
        nonempty(fields(s, '_')).len() > 0,
        exists|j: int| 0 <= j < fields(s, '_').len() && (#[trigger] fields(s, '_')[j]).len() > 0,
    decreases s.len(),
{
    lemma_after_shorter(s, '_');
    let all = fields(s, '_');
    match after(s, '_') {
        Some(rest) => {
            if s[0] == '_' {
                assert(rest == s.drop_first());
                assert(rest[i - 1] == s[i]);
                lemma_some_word(rest, i - 1);
                let j = choose|j: int|
                    0 <= j < fields(rest, '_').len() && (#[trigger] fields(rest, '_')[j]).len() > 0;
                assert(all[j + 1] == fields(rest, '_')[j]);
                lemma_some_nonempty(all, j + 1);
            } else {
                assert(all[0] == before(s, '_'));
                lemma_some_nonempty(all, 0);
            }
        },
        None => {
            assert(all[0] == s);
            lemma_some_nonempty(all, 0);
        },
    }
}

proof fn lemma_trim_front_keeps(s: Seq<char>, c: char)
    requires
        !is_white_space(c),
    ensures
        trim_front(s).contains(c) <==> s.contains(c),
    decreases s.len(),
{
    if s.len() > 0 && is_white_space(s[0]) {
        let rest = s.drop_first();
        lemma_trim_front_keeps(rest, c);
        if s.contains(c) {
            let i = choose|i: int| 0 <= i < s.len() && s[i] == c;
            assert(rest[i - 1] == c);
        }
        if rest.contains(c) {
            let i = choose|i: int| 0 <= i < rest.len() && rest[i] == c;
            assert(s[i + 1] == c);
        }
    }
}

proof fn lemma_trim_back_keeps(s: Seq<char>, c: char)
    requires
        !is_white_space(c),
    ensures
        trim_back(s).contains(c) <==> s.contains(c),
    decreases s.len(),
{
    if s.len() > 0 && is_white_space(s.last()) {
        let rest = s.drop_last();
        lemma_trim_back_keeps(rest, c);
        if s.contains(c) {
            let i = choose|i: int| 0 <= i < s.len() && s[i] == c;
            assert(rest[i] == c);
        }
        if rest.contains(c) {
            let i = choose|i: int| 0 <= i < rest.len() && rest[i] == c;
            assert(s[i] == c);
        }
    }
}

/// Whether a text holds a letter or a digit.
pub open spec fn has_letter_or_digit(s: Seq<char>) -> bool {
    exists|i: int| 0 <= i < s.len() && is_letter_or_digit(#[trigger] s[i])
}

proof fn lemma_letters_of_ascii(name: Seq<char>)
    requires
        all_ascii(name),
    ensures
        has_letter_or_digit(lowercase(trimmed(name))) <==> has_letter_or_digit(name),
{
    lemma_trim_front_ascii(name);
    lemma_trim_back_ascii(trim_front(name));
    let kept = trimmed(name);
    let lower = lowercase(kept);
    if has_letter_or_digit(lower) {
        let i = choose|i: int| 0 <= i < lower.len() && is_letter_or_digit(#[trigger] lower[i]);
        assert(is_ascii(kept[i]));
        assert(lower[i] == ascii_lower(kept[i]));
        let c = kept[i];
        assert(is_letter_or_digit(c));
        assert(kept.contains(c));
        lemma_trim_back_keeps(trim_front(name), c);
        lemma_trim_front_keeps(name, c);
        let k = choose|k: int| 0 <= k < name.len() && name[k] == c;
        assert(is_letter_or_digit(name[k]));
    }
    if has_letter_or_digit(name) {
        let k = choose|k: int| 0 <= k < name.len() && is_letter_or_digit(#[trigger] name[k]);
        let c = name[k];
        assert(is_ascii(name[k]));
        assert(name.contains(c));
        lemma_trim_front_keeps(name, c);
        lemma_trim_back_keeps(trim_front(name), c);
        let i = choose|i: int| 0 <= i < kept.len() && kept[i] == c;
        assert(is_ascii(kept[i]));
        assert(lower[i] == ascii_lower(c));
        assert(is_letter_or_digit(lower[i]));
    }
}

/// A project's name consists of letters, digits and underscores, with no
/// underscore at either end and no two in a row. Nothing is left of what was
/// typed exactly where it holds no letter and no digit. Out of ASCII comes
/// ASCII, with no capital left.
pub proof fn law_project_name_is_snake_case(name: Seq<char>)
    ensures
        is_snake_case(sanitized(name)),
        sanitized(name).len() == 0 <==> !has_letter_or_digit(lowercase(trimmed(name))),
        all_ascii(name) ==> (sanitized(name).len() == 0 <==> !has_letter_or_digit(name)),
        all_ascii(name) ==> is_plain(sanitized(name)),
{
    let lower = lowercase(trimmed(name));
    let s = lower.map_values(|c: char| tame(c));
    let words = nonempty(fields(s, '_'));
    lemma_words_of(s);
    assert forall|i: int, k: int|
        0 <= i < words.len() && 0 <= k < words[i].len() implies is_letter_or_digit(
        #[trigger] words[i][k],
    ) by {
        assert(s.contains(words[i][k]));
        assert(is_word(words[i]));
    }
    lemma_joined_is_tidy(words);
    if has_letter_or_digit(lower) {
        let i = choose|i: int| 0 <= i < lower.len() && is_letter_or_digit(#[trigger] lower[i]);
        assert(s[i] == lower[i]);
        lemma_some_word(s, i);
    }
    if words.len() > 0 {
        assert(is_word(words[0]));
        assert(s.contains(words[0][0]));
        let i = choose|i: int| 0 <= i < s.len() && s[i] == words[0][0];
        assert(is_letter_or_digit(lower[i]));
    }
    if all_ascii(name) {
        lemma_letters_of_ascii(name);
        lemma_name_of_ascii(name);
    }
}

/// What has been collapsed once stays as it is.
pub proof fn law_collapsing_again_changes_nothing(s: Seq<char>)
    ensures
        collapsed(collapsed(s)) == collapsed(s),
{
    let words = nonempty(fields(s, '_'));
    lemma_words_of(s);
    if words.len() > 0 {
        lemma_fields_of_joined(words);
        lemma_nonempty_words(words);
    } else {
        let empty = Seq::<char>::empty();
        assert(joined(words) =~= empty);
        lemma_only_field(empty);
        assert(seq![empty].drop_last() =~= Seq::<Seq<char>>::empty());
        reveal_with_fuel(nonempty, 2);
        assert(nonempty(seq![empty]) =~= Seq::<Seq<char>>::empty());
    }
}

proof fn lemma_concatenated_add(a: Seq<Seq<char>>, b: Seq<Seq<char>>)
    ensures
        concatenated(a + b) == concatenated(a) + concatenated(b),
    decreases b.len(),
{
    if b.len() == 0 {
        assert(a + b =~= a);
        assert(concatenated(a) + concatenated(b) =~= concatenated(a));
    } else {
        lemma_concatenated_add(a, b.drop_last());
        assert((a + b).drop_last() =~= a + b.drop_last());
        assert((a + b).last() == b.last());
        assert(concatenated(a + b) =~= concatenated(a) + concatenated(b));
    }
}

/// An underscore parts a name into two that are treated each for itself.
pub proof fn law_pascal_case_splits_at_underscores(a: Seq<char>, b: Seq<char>)
    ensures
        pascal_case(a + seq!['_'] + b) == pascal_case(a) + pascal_case(b),
{
    let cap = |word: Seq<char>| capitalized(word);
    let x = fields(a, '_').map_values(cap);
    let y = fields(b, '_').map_values(cap);
    lemma_fields_add(a, b);
    lemma_concatenated_add(x, y);
    assert(a + seq!['_'] + b =~= a.push('_') + b);
    assert((fields(a, '_') + fields(b, '_')).map_values(cap) =~= x + y);
}

/// A name without an underscore is kept but for its first letter.
pub proof fn law_pascal_case_of_one_word(word: Seq<char>)
    requires
        forall|k: int| 0 <= k < word.len() ==> #[trigger] word[k] != '_',
    ensures
        pascal_case(word) == capitalized(word),
        word.len() == 0 ==> pascal_case(word).len() == 0,
{
    let cap = |w: Seq<char>| capitalized(w);
    lemma_only_field(word);
    assert(seq![word].map_values(cap) =~= seq![capitalized(word)]);
    lemma_concatenated_one(capitalized(word));
}

proof fn lemma_concatenated_one(text: Seq<char>)
    ensures
        concatenated(seq![text]) == text,
{
    let one = seq![text];
    reveal_with_fuel(concatenated, 2);
    assert(one.drop_last() =~= Seq::empty());
    assert(concatenated(one) =~= text);
}

proof fn lemma_concatenated_chars(texts: Seq<Seq<char>>, c: char)
    requires
        forall|i: int| 0 <= i < texts.len() ==> !(#[trigger] texts[i]).contains(c),
    ensures
        !concatenated(texts).contains(c),
    decreases texts.len(),
{
    if texts.len() > 0 {
        let init = texts.drop_last();
        assert forall|i: int| 0 <= i < init.len() implies !(#[trigger] init[i]).contains(c) by {
            assert(!texts[i].contains(c));
        }
        lemma_concatenated_chars(init, c);
        assert(!texts[texts.len() - 1].contains(c));
        let whole = concatenated(texts);
        if whole.contains(c) {
            let k = choose|k: int| 0 <= k < whole.len() && whole[k] == c;
            if k < concatenated(init).len() {
                assert(concatenated(init)[k] == c);
            } else {
                assert(texts.last()[k - concatenated(init).len()] == c);
            }
        }
    }
}

/// No underscore is left, unless a letter outside ASCII has one in its
/// uppercase form.
pub proof fn law_pascal_case_has_no_underscore(s: Seq<char>)
    requires
        forall|c: char| s.contains(c) && !is_ascii(c) ==> !(#[trigger] uppercase(c)).contains('_'),
    ensures
        !pascal_case(s).contains('_'),
{
    let all = fields(s, '_');
    let words = all.map_values(|word: Seq<char>| capitalized(word));
    assert forall|i: int| 0 <= i < words.len() implies !(#[trigger] words[i]).contains('_') by {
        let word = all[i];
        assert(words[i] == capitalized(word));
        if words[i].contains('_') {
            let k = choose|k: int| 0 <= k < words[i].len() && words[i][k] == '_';
            lemma_fields_chars(s, '_', i, 0);
            let first = uppercase(word[0]);
            assert(s.contains(word[0]));
            if k < first.len() {
                assert(first[k] == '_');
                assert(first.contains('_'));
                assert(is_ascii(word[0]));
            } else {
                lemma_fields_chars(s, '_', i, k - first.len() + 1);
                assert(word.skip(1)[k - first.len()] == word[k - first.len() + 1]);
            }
        }
    }
    lemma_concatenated_chars(words, '_');
}

/// Whether a text consists of ASCII's characters without its capitals.
pub open spec fn is_plain(s: Seq<char>) -> bool {
    forall|i: int|
        0 <= i < s.len() ==> is_ascii(#[trigger] s[i]) && ascii_lower(s[i]) == s[i]
}

proof fn lemma_joined_is_plain(words: Seq<Seq<char>>)
    requires
        forall|i: int| 0 <= i < words.len() ==> is_plain(#[trigger] words[i]),
    ensures
        is_plain(joined(words)),
    decreases words.len(),
{
    if words.len() == 1 {
        assert(is_plain(words[0]));
    } else if words.len() > 1 {
        let init = words.drop_last();
        assert forall|i: int| 0 <= i < init.len() implies is_plain(#[trigger] init[i]) by {
            assert(is_plain(words[i]));
        }
        lemma_joined_is_plain(init);
        assert(is_plain(words[words.len() - 1]));
        let a = joined(init);
        let s = joined(words);
        assert forall|i: int| 0 <= i < s.len() implies is_ascii(#[trigger] s[i]) && ascii_lower(
            s[i],
        ) == s[i] by {
            if i < a.len() {
                assert(s[i] == a[i]);
            } else if i > a.len() {
                assert(s[i] == words.last()[i - a.len() - 1]);
            }
        }
    }
}

proof fn lemma_trim_front_ascii(s: Seq<char>)
    requires
        all_ascii(s),
    ensures
        all_ascii(trim_front(s)),
        trim_front(s.map_values(|c: char| ascii_upper(c))) == trim_front(s).map_values(
            |c: char| ascii_upper(c),
        ),
    decreases s.len(),
{
    let up = |c: char| ascii_upper(c);
    if s.len() > 0 && is_white_space(s[0]) {
        lemma_trim_front_ascii(s.drop_first());
        assert(s.map_values(up).drop_first() =~= s.drop_first().map_values(up));
    } else if s.len() > 0 {
        assert(is_ascii(s[0]));
    }
}

proof fn lemma_trim_back_ascii(s: Seq<char>)
    requires
        all_ascii(s),
    ensures
        all_ascii(trim_back(s)),
        trim_back(s.map_values(|c: char| ascii_upper(c))) == trim_back(s).map_values(
            |c: char| ascii_upper(c),
        ),
    decreases s.len(),
{
    let up = |c: char| ascii_upper(c);
    if s.len() > 0 && is_white_space(s.last()) {
        lemma_trim_back_ascii(s.drop_last());
        assert(s.map_values(up).drop_last() =~= s.drop_last().map_values(up));
    } else if s.len() > 0 {
        assert(is_ascii(s[s.len() - 1]));
    }
}

proof fn lemma_name_of_ascii(name: Seq<char>)
    requires
        all_ascii(name),
    ensures
        is_plain(sanitized(name)),
{
    lemma_trim_front_ascii(name);
    lemma_trim_back_ascii(trim_front(name));
    let kept = trimmed(name);
    let s = lowercase(kept).map_values(|c: char| tame(c));
    assert forall|i: int| 0 <= i < s.len() implies is_ascii(#[trigger] s[i]) && ascii_lower(s[i])
        == s[i] by {
        assert(is_ascii(kept[i]));
        assert(lowercase(kept)[i] == ascii_lower(kept[i]));
    }
    let words = nonempty(fields(s, '_'));
    lemma_words_of(s);
    assert forall|i: int| 0 <= i < words.len() implies is_plain(#[trigger] words[i]) by {
        let word = words[i];
        assert forall|k: int| 0 <= k < word.len() implies is_ascii(#[trigger] word[k])
            && ascii_lower(word[k]) == word[k] by {
            assert(s.contains(words[i][k]));
            let j = choose|j: int| 0 <= j < s.len() && s[j] == word[k];
            assert(is_ascii(s[j]));
        }
    }
    lemma_joined_is_plain(words);
}

/// A project's name, typed again, is kept: every one that came out of ASCII,
/// and any other that is in lowercase and has no white space around it.
pub proof fn law_sanitizing_again_changes_nothing(name: Seq<char>)
    requires
        all_ascii(name) || {
            &&& lowercase(sanitized(name)) == sanitized(name)
            &&& trimmed(sanitized(name)) == sanitized(name)
        },
    ensures
        sanitized(sanitized(name)) == sanitized(name),
{
    let n = sanitized(name);
    law_project_name_is_snake_case(name);
    if all_ascii(name) {
        lemma_name_of_ascii(name);
        assert(all_ascii(n)) by {
            assert forall|i: int| 0 <= i < n.len() implies is_ascii(#[trigger] n[i]) by {}
        }
        assert(lowercase(n) =~= n);
        if n.len() > 0 {
            assert(is_ascii(n[0]) && is_letter_or_digit(n[0]));
            assert(is_ascii(n[n.len() - 1]) && is_letter_or_digit(n[n.len() - 1]));
        }
        assert(trimmed(n) == n);
    }
    assert(n.map_values(|c: char| tame(c)) =~= n);
    law_collapsing_again_changes_nothing(lowercase(trimmed(name)).map_values(|c: char| tame(c)));
}

/// Whether an ASCII name is typed in capitals does not matter.
pub proof fn law_capitals_do_not_matter(name: Seq<char>)
    requires
        all_ascii(name),
    ensures
        sanitized(name.map_values(|c: char| ascii_upper(c))) == sanitized(name),
{
    let up = |c: char| ascii_upper(c);
    let low = |c: char| ascii_lower(c);
    lemma_trim_front_ascii(name);
    lemma_trim_back_ascii(trim_front(name));
    let kept = trimmed(name);
    let typed = kept.map_values(up);
    assert(trimmed(name.map_values(up)) == typed);
    assert forall|i: int| 0 <= i < typed.len() implies is_ascii(#[trigger] typed[i]) by {
        assert(is_ascii(kept[i]));
    }
    assert forall|i: int| 0 <= i < kept.len() implies #[trigger] typed.map_values(low)[i]
        == kept.map_values(low)[i] by {
        assert(is_ascii(kept[i]));
    }
    assert(typed.map_values(low) =~= kept.map_values(low));
}

proof fn lemma_nothing_to_replace(s: Seq<char>, pat: Seq<char>, value: Seq<char>)
    requires
        !contains_text(s, pat),
    ensures
        replaced(s, pat, value) == s,
    decreases s.len(),
{
    if pat.len() > 0 && s.len() >= pat.len() {
        let rest = s.drop_first();
        assert(!occurs_at(s, pat, 0));
        if contains_text(rest, pat) {
            let i = choose|i: int| occurs_at(rest, pat, i);
            assert(rest.subrange(i, i + pat.len()) =~= s.subrange(i + 1, i + 1 + pat.len()));
            assert(occurs_at(s, pat, i + 1));
        }
        lemma_nothing_to_replace(rest, pat, value);
        assert(seq![s[0]] + rest =~= s);
    }
}

/// A template without placeholders is copied as it is.
pub proof fn law_plain_template_is_copied(
    template: Seq<char>,
    project_name: Seq<char>,
    plugin_name: Seq<char>,
)
    requires
        !contains_text(template, placeholder("project_name"@)),
        !contains_text(template, placeholder("PluginName"@)),
        !contains_text(template, placeholder("plugin_name_str"@)),
    ensures
        filled_in(template, project_name, plugin_name) == template,
{
    lemma_nothing_to_replace(template, placeholder("project_name"@), project_name);
    lemma_nothing_to_replace(template, placeholder("PluginName"@), plugin_name);
    lemma_nothing_to_replace(
        template,
        placeholder("plugin_name_str"@),
        char_replaced(project_name, '_', ' '),
    );
}

proof fn lemma_nonempty_add(a: Seq<Seq<char>>, b: Seq<Seq<char>>)
    ensures
        nonempty(a + b) == nonempty(a) + nonempty(b),
    decreases b.len(),
{
    if b.len() == 0 {
        assert(a + b =~= a);
        assert(nonempty(a) + nonempty(b) =~= nonempty(a));
    } else {
        lemma_nonempty_add(a, b.drop_last());
        assert((a + b).drop_last() =~= a + b.drop_last());
        assert((a + b).last() == b.last());
        assert(nonempty(a + b) =~= nonempty(a) + nonempty(b));
    }
}

proof fn lemma_joined_add(a: Seq<Seq<char>>, b: Seq<Seq<char>>)
    requires
        a.len() > 0,
        b.len() > 0,
    ensures
        joined(a + b) == joined(a) + seq!['_'] + joined(b),
    decreases b.len(),
{
    assert((a + b).drop_last() =~= a + b.drop_last());
    assert((a + b).last() == b.last());
    if b.len() == 1 {
        assert(a + b.drop_last() =~= a);
        assert(joined(a + b) =~= joined(a) + seq!['_'] + joined(b));
    } else {
        lemma_joined_add(a, b.drop_last());
        assert(joined(a + b) =~= joined(a) + seq!['_'] + joined(b));
    }
}

proof fn lemma_joined_of_none(words: Seq<Seq<char>>)
    requires
        are_words(words),
    ensures
        joined(words).len() == 0 <==> words.len() == 0,
{
    if words.len() == 1 {
        assert(is_word(words[0]));
    } else if words.len() > 1 {
        assert(is_word(words[words.len() - 1]));
    }
}

/// Any character that is neither a letter nor a digit parts a name into two,
/// with one underscore between them if something is left of both; a word of
/// letters and digits is kept.
pub proof fn law_names_split_between_words(a: Seq<char>, c: char, b: Seq<char>)
    requires
        !is_letter_or_digit(c),
    ensures
        snake_case(a + seq![c] + b) == (if snake_case(a).len() == 0 {
            snake_case(b)
        } else if snake_case(b).len() == 0 {
            snake_case(a)
        } else {
            snake_case(a) + seq!['_'] + snake_case(b)
        }),
        (forall|i: int| 0 <= i < a.len() ==> is_letter_or_digit(#[trigger] a[i])) ==> snake_case(a)
            == a,
{
    let f = |x: char| tame(x);
    let x = a.map_values(f);
    let y = b.map_values(f);
    assert((a + seq![c] + b).map_values(f) =~= x.push('_') + y);
    lemma_fields_add(x, y);
    lemma_nonempty_add(fields(x, '_'), fields(y, '_'));
    let p = nonempty(fields(x, '_'));
    let q = nonempty(fields(y, '_'));
    lemma_words_of(x);
    lemma_words_of(y);
    lemma_joined_of_none(p);
    lemma_joined_of_none(q);
    if p.len() == 0 {
        assert(p + q =~= q);
    } else if q.len() == 0 {
        assert(p + q =~= p);
    } else {
        lemma_joined_add(p, q);
    }
    if forall|i: int| 0 <= i < a.len() ==> is_letter_or_digit(#[trigger] a[i]) {
        assert(x =~= a);
        assert forall|k: int| 0 <= k < a.len() implies #[trigger] a[k] != '_' by {
            assert(is_letter_or_digit(a[k]));
        }
        lemma_only_field(a);
        let one = seq![a];
        reveal_with_fuel(nonempty, 2);
        assert(one.drop_last() =~= Seq::<Seq<char>>::empty());
        if a.len() > 0 {
            assert(nonempty(one) =~= one);
        } else {
            assert(nonempty(one) =~= Seq::<Seq<char>>::empty());
            assert(joined(nonempty(one)) =~= a);
        }
    }
}

proof fn lemma_front_space_does_not_matter(s: Seq<char>)
    requires
        all_ascii(s),
    ensures
        all_ascii(trim_front(s)),
        snake_case(trim_front(s).map_values(|c: char| ascii_lower(c))) == snake_case(
            s.map_values(|c: char| ascii_lower(c)),
        ),
    decreases s.len(),
{
    let low = |c: char| ascii_lower(c);
    if s.len() > 0 && is_white_space(s[0]) {
        let empty = Seq::<char>::empty();
        let rest = s.drop_first();
        lemma_front_space_does_not_matter(rest);
        assert(is_ascii(s[0]));
        law_names_split_between_words(empty, s[0], rest.map_values(low));
        assert(empty + seq![s[0]] + rest.map_values(low) =~= s.map_values(low));
    }
}

proof fn lemma_back_space_does_not_matter(s: Seq<char>)
    requires
        all_ascii(s),
    ensures
        all_ascii(trim_back(s)),
        snake_case(trim_back(s).map_values(|c: char| ascii_lower(c))) == snake_case(
            s.map_values(|c: char| ascii_lower(c)),
        ),
    decreases s.len(),
{
    let low = |c: char| ascii_lower(c);
    if s.len() > 0 && is_white_space(s.last()) {
        let empty = Seq::<char>::empty();
        let rest = s.drop_last();
        lemma_back_space_does_not_matter(rest);
        assert(is_ascii(s[s.len() - 1]));
        law_names_split_between_words(empty, s.last(), empty);
        law_names_split_between_words(rest.map_values(low), s.last(), empty);
        assert(rest.map_values(low) + seq![s.last()] + empty =~= s.map_values(low));
    }
}

proof fn lemma_sanitized_ascii(name: Seq<char>)
    requires
        all_ascii(name),
    ensures
        sanitized(name) == snake_case(name.map_values(|c: char| ascii_lower(c))),
{
    lemma_front_space_does_not_matter(name);
    lemma_back_space_does_not_matter(trim_front(name));
}

/// An ASCII name's words are its runs of letters and digits, in lowercase,
/// with one underscore between each two, whatever stood between and around
/// them.
pub proof fn law_project_name_joins_the_words(a: Seq<char>, c: char, b: Seq<char>)
    requires
        all_ascii(a),
        all_ascii(b),
        is_ascii(c),
        !is_letter_or_digit(c),
    ensures
        sanitized(a + seq![c] + b) == (if sanitized(a).len() == 0 {
            sanitized(b)
        } else if sanitized(b).len() == 0 {
            sanitized(a)
        } else {
            sanitized(a) + seq!['_'] + sanitized(b)
        }),
        (forall|i: int| 0 <= i < a.len() ==> is_letter_or_digit(#[trigger] a[i])) ==> sanitized(a)
            == a.map_values(|x: char| ascii_lower(x)),
{
    let low = |x: char| ascii_lower(x);
    let all = a + seq![c] + b;
    assert forall|i: int| 0 <= i < all.len() implies is_ascii(#[trigger] all[i]) by {
        if i < a.len() {
            assert(is_ascii(a[i]));
        } else if i > a.len() {
            assert(is_ascii(b[i - a.len() - 1]));
        }
    }
    lemma_sanitized_ascii(a);
    lemma_sanitized_ascii(b);
    lemma_sanitized_ascii(all);
    let x = a.map_values(low);
    let y = b.map_values(low);
    assert(all.map_values(low) =~= x + seq![c] + y);
    law_names_split_between_words(x, c, y);
    if forall|i: int| 0 <= i < a.len() ==> is_letter_or_digit(#[trigger] a[i]) {
        assert forall|i: int| 0 <= i < x.len() implies is_letter_or_digit(#[trigger] x[i]) by {
            assert(is_letter_or_digit(a[i]));
            assert(is_ascii(a[i]));
        }
    }
}

/// Of a word, the first character is put into uppercase and the rest kept.
pub proof fn law_words_are_capitalized(word: Seq<char>)
    requires
        word.len() > 0,
        !word.contains('_'),
    ensures
        pascal_case(word) == uppercase(word[0]) + word.skip(1),
        is_ascii(word[0]) ==> pascal_case(word) == seq![ascii_upper(word[0])] + word.skip(1),
{
    assert forall|k: int| 0 <= k < word.len() implies #[trigger] word[k] != '_' by {
        assert(word.contains(word[k]));
    }
    law_pascal_case_of_one_word(word);
}

// ── Laws of templates ───────────────────────────────────────────────────────

/// Whether a text holds no opening brace.
pub open spec fn has_no_brace(s: Seq<char>) -> bool {
    forall|i: int| 0 <= i < s.len() ==> #[trigger] s[i] != '{'
}

proof fn lemma_replaced_steps_over(s: Seq<char>, pat: Seq<char>, value: Seq<char>)
    requires
        pat.len() > 0,
        s.len() > 0,
        !begins_with(s, pat),
    ensures
        replaced(s, pat, value) == seq![s[0]] + replaced(s.drop_first(), pat, value),
{
    if s.len() < pat.len() {
        assert(seq![s[0]] + s.drop_first() =~= s);
    }
}

proof fn lemma_replaced_behind_plain(
    a: Seq<char>,
    b: Seq<char>,
    pat: Seq<char>,
    value: Seq<char>,
)
    requires
        pat.len() > 0,
        pat[0] == '{',
        has_no_brace(a),
    ensures
        replaced(a + b, pat, value) == a + replaced(b, pat, value),
    decreases a.len(),
{
    if a.len() == 0 {
        assert(a + b =~= b);
        assert(a + replaced(b, pat, value) =~= replaced(b, pat, value));
    } else {
        let s = a + b;
        let rest = a.drop_first();
        assert(a[0] != '{');
        assert forall|i: int| 0 <= i < rest.len() implies #[trigger] rest[i] != '{' by {
            assert(a[i + 1] != '{');
        }
        if begins_with(s, pat) {
            assert(s.subrange(0, pat.len() as int)[0] == pat[0]);
        }
        lemma_replaced_steps_over(s, pat, value);
        assert(s.drop_first() =~= rest + b);
        lemma_replaced_behind_plain(rest, b, pat, value);
        assert(seq![s[0]] + (rest + replaced(b, pat, value)) =~= a + replaced(b, pat, value));
    }
}

proof fn lemma_replaced_here(b: Seq<char>, pat: Seq<char>, value: Seq<char>)
    requires
        pat.len() > 0,
    ensures
        replaced(pat + b, pat, value) == value + replaced(b, pat, value),
{
    assert((pat + b).subrange(0, pat.len() as int) =~= pat);
    assert((pat + b).skip(pat.len() as int) =~= b);
}

/// Another placeholder, which differs within its first four characters, is
/// stepped over.
proof fn lemma_replaced_behind_other(
    other: Seq<char>,
    b: Seq<char>,
    pat: Seq<char>,
    value: Seq<char>,
)
    requires
        pat.len() >= 4,
        other.len() >= 4,
        pat[0] == '{' && pat[1] == '{',
        other[0] == '{' && other[1] == '{',
        pat[2] != other[2] || pat[3] != other[3],
        has_no_brace(other.skip(2)),
    ensures
        replaced(other + b, pat, value) == other + replaced(b, pat, value),
{
    let s = other + b;
    let next = s.drop_first();
    let tail = other.skip(2);
    if begins_with(s, pat) {
        assert(s.subrange(0, pat.len() as int)[2] == pat[2]);
        assert(s.subrange(0, pat.len() as int)[3] == pat[3]);
    }
    lemma_replaced_steps_over(s, pat, value);
    assert(next[0] == '{');
    assert(next[1] == tail[0]);
    assert(tail[0] != '{');
    if begins_with(next, pat) {
        assert(next.subrange(0, pat.len() as int)[1] == pat[1]);
    }
    lemma_replaced_steps_over(next, pat, value);
    assert(next.drop_first() =~= tail + b);
    lemma_replaced_behind_plain(tail, b, pat, value);
    assert(seq![s[0]] + (seq![next[0]] + (tail + replaced(b, pat, value))) =~= other + replaced(
        b,
        pat,
        value,
    ));
}

proof fn lemma_placeholders()
    ensures
        placeholder("project_name"@) == "{{project_name}}"@,
        placeholder("PluginName"@) == "{{PluginName}}"@,
        placeholder("plugin_name_str"@) == "{{plugin_name_str}}"@,
        "{{project_name}}"@.len() == 16,
        "{{PluginName}}"@.len() == 14,
        "{{plugin_name_str}}"@.len() == 19,
        "{{project_name}}"@[0] == '{' && "{{project_name}}"@[1] == '{' && "{{project_name}}"@[2]
            == 'p' && "{{project_name}}"@[3] == 'r',
        "{{PluginName}}"@[0] == '{' && "{{PluginName}}"@[1] == '{' && "{{PluginName}}"@[2] == 'P',
        "{{plugin_name_str}}"@[0] == '{' && "{{plugin_name_str}}"@[1] == '{'
            && "{{plugin_name_str}}"@[2] == 'p' && "{{plugin_name_str}}"@[3] == 'l',
        has_no_brace("{{project_name}}"@.skip(2)),
        has_no_brace("{{PluginName}}"@.skip(2)),
        has_no_brace("{{plugin_name_str}}"@.skip(2)),
{
    reveal_strlit("{{");
    reveal_strlit("}}");
    reveal_strlit("project_name");
    reveal_strlit("PluginName");
    reveal_strlit("plugin_name_str");
    reveal_strlit("{{project_name}}");
    reveal_strlit("{{PluginName}}");
    reveal_strlit("{{plugin_name_str}}");
    assert(placeholder("project_name"@) =~= "{{project_name}}"@);
    assert(placeholder("PluginName"@) =~= "{{PluginName}}"@);
    assert(placeholder("plugin_name_str"@) =~= "{{plugin_name_str}}"@);
}

/// The name in words: as long as the project's name, with a space wherever
/// that has an underscore, and the same character everywhere else.
pub open spec fn is_in_words(words: Seq<char>, project_name: Seq<char>) -> bool {
    &&& words.len() == project_name.len()
    &&& forall|i: int|
        0 <= i < words.len() ==> #[trigger] words[i] == (if project_name[i] == '_' {
            ' '
        } else {
            project_name[i]
        })
}

/// Whether a text stands for one of the placeholders: the project's name for
/// the first, the plugin's for the second, and the name in words for the
/// third.
pub open spec fn stands_for(
    written: Seq<char>,
    value: Seq<char>,
    project_name: Seq<char>,
    plugin_name: Seq<char>,
) -> bool {
    ||| written == "{{project_name}}"@ && value == project_name
    ||| written == "{{PluginName}}"@ && value == plugin_name
    ||| written == "{{plugin_name_str}}"@ && is_in_words(value, project_name)
}

/// Filling in a template goes from one placeholder to the next: what stands
/// before it is copied, the placeholder becomes what it stands for, and the
/// rest is filled in likewise.
pub proof fn law_placeholders_are_filled_in(
    plain: Seq<char>,
    written: Seq<char>,
    value: Seq<char>,
    rest: Seq<char>,
    project_name: Seq<char>,
    plugin_name: Seq<char>,
)
    requires
        has_no_brace(plain),
        has_no_brace(project_name),
        has_no_brace(plugin_name),
        stands_for(written, value, project_name, plugin_name),
    ensures
        filled_in(plain + written + rest, project_name, plugin_name) == plain + value + filled_in(
            rest,
            project_name,
            plugin_name,
        ),
{
    lemma_placeholders();
    let k1 = "{{project_name}}"@;
    let k2 = "{{PluginName}}"@;
    let k3 = "{{plugin_name_str}}"@;
    let words = char_replaced(project_name, '_', ' ');
    let r1 = replaced(rest, k1, project_name);
    let r2 = replaced(r1, k2, plugin_name);
    let r3 = replaced(r2, k3, words);
    assert forall|i: int| 0 <= i < words.len() implies #[trigger] words[i] != '{' by {
        assert(project_name[i] != '{');
    }
    let s = plain + written + rest;
    assert(s =~= plain + (written + rest));
    lemma_replaced_behind_plain(plain, written + rest, k1, project_name);
    if written == k1 && value == project_name {
        lemma_replaced_here(rest, k1, project_name);
        let head = plain + project_name;
        lemma_both_plain(plain, project_name);
        assert(plain + (project_name + r1) =~= head + r1);
        lemma_replaced_behind_plain(head, r1, k2, plugin_name);
        lemma_replaced_behind_plain(head, r2, k3, words);
    } else if written == k2 && value == plugin_name {
        lemma_replaced_behind_other(k2, rest, k1, project_name);
        lemma_replaced_behind_plain(plain, k2 + r1, k2, plugin_name);
        lemma_replaced_here(r1, k2, plugin_name);
        let head = plain + plugin_name;
        lemma_both_plain(plain, plugin_name);
        assert(plain + (plugin_name + r2) =~= head + r2);
        lemma_replaced_behind_plain(head, r2, k3, words);
    } else {
        lemma_replaced_behind_other(k3, rest, k1, project_name);
        lemma_replaced_behind_plain(plain, k3 + r1, k2, plugin_name);
        lemma_replaced_behind_other(k3, r1, k2, plugin_name);
        lemma_replaced_behind_plain(plain, k3 + r2, k3, words);
        lemma_replaced_here(r2, k3, words);
        assert(value =~= words);
        assert(plain + (words + r3) =~= plain + value + r3);
    }
}

proof fn lemma_both_plain(a: Seq<char>, b: Seq<char>)
    requires
        has_no_brace(a),
        has_no_brace(b),
    ensures
        has_no_brace(a + b),
{
    assert forall|i: int| 0 <= i < (a + b).len() implies #[trigger] (a + b)[i] != '{' by {
        if i < a.len() {
            assert(a[i] != '{');
        } else {
            assert(b[i - a.len()] != '{');
        }
    }
}

proof fn lemma_brace_stays(rest: Seq<char>, pat: Seq<char>, value: Seq<char>)
    requires
        pat.len() >= 2,
        pat[0] == '{' && pat[1] == '{',
        rest.len() > 0 ==> rest[0] != '{',
    ensures
        replaced(seq!['{'] + rest, pat, value) == seq!['{'] + replaced(rest, pat, value),
        rest.len() > 0 ==> replaced(rest, pat, value).len() > 0 && replaced(rest, pat, value)[0]
            == rest[0],
        rest.len() == 0 ==> replaced(rest, pat, value).len() == 0,
{
    let s = seq!['{'] + rest;
    if begins_with(s, pat) {
        assert(s.subrange(0, pat.len() as int)[1] == pat[1]);
    }
    lemma_replaced_steps_over(s, pat, value);
    assert(s.drop_first() =~= rest);
    if rest.len() > 0 {
        if begins_with(rest, pat) {
            assert(rest.subrange(0, pat.len() as int)[0] == pat[0]);
        }
        lemma_replaced_steps_over(rest, pat, value);
    }
}

/// A single brace is copied: only two of them begin a placeholder.
pub proof fn law_single_braces_are_copied(
    rest: Seq<char>,
    project_name: Seq<char>,
    plugin_name: Seq<char>,
)
    requires
        rest.len() > 0 ==> rest[0] != '{',
    ensures
        filled_in(seq!['{'] + rest, project_name, plugin_name) == seq!['{'] + filled_in(
            rest,
            project_name,
            plugin_name,
        ),
{
    lemma_placeholders();
    let words = char_replaced(project_name, '_', ' ');
    let r1 = replaced(rest, "{{project_name}}"@, project_name);
    let r2 = replaced(r1, "{{PluginName}}"@, plugin_name);
    lemma_brace_stays(rest, "{{project_name}}"@, project_name);
    lemma_brace_stays(r1, "{{PluginName}}"@, plugin_name);
    lemma_brace_stays(r2, "{{plugin_name_str}}"@, words);
}

/// A template without an opening brace is copied.
pub proof fn law_text_without_braces_is_copied(
    plain: Seq<char>,
    project_name: Seq<char>,
    plugin_name: Seq<char>,
)
    requires
        has_no_brace(plain),
    ensures
        filled_in(plain, project_name, plugin_name) == plain,
{
    lemma_placeholders();
    let words = char_replaced(project_name, '_', ' ');
    let empty = Seq::<char>::empty();
    assert(plain + empty =~= plain);
    lemma_replaced_behind_plain(plain, empty, "{{project_name}}"@, project_name);
    lemma_replaced_behind_plain(plain, empty, "{{PluginName}}"@, plugin_name);
    lemma_replaced_behind_plain(plain, empty, "{{plugin_name_str}}"@, words);
}

/// A placeholder alone gives what it stands for; the name in words has no
/// underscore.
pub proof fn law_placeholder_alone(project_name: Seq<char>, plugin_name: Seq<char>)
    requires
        has_no_brace(project_name),
        has_no_brace(plugin_name),
    ensures
        filled_in("{{project_name}}"@, project_name, plugin_name) == project_name,
        filled_in("{{PluginName}}"@, project_name, plugin_name) == plugin_name,
        is_in_words(filled_in("{{plugin_name_str}}"@, project_name, plugin_name), project_name),
        !filled_in("{{plugin_name_str}}"@, project_name, plugin_name).contains('_'),
{
    let empty = Seq::<char>::empty();
    let words = Seq::new(
        project_name.len(),
        |i: int|
            if project_name[i] == '_' {
                ' '
            } else {
                project_name[i]
            },
    );
    law_text_without_braces_is_copied(empty, project_name, plugin_name);
    let k1 = "{{project_name}}"@;
    let k2 = "{{PluginName}}"@;
    let k3 = "{{plugin_name_str}}"@;
    law_placeholders_are_filled_in(empty, k1, project_name, empty, project_name, plugin_name);
    law_placeholders_are_filled_in(empty, k2, plugin_name, empty, project_name, plugin_name);
    law_placeholders_are_filled_in(empty, k3, words, empty, project_name, plugin_name);
    assert(empty + k1 + empty =~= k1);
    assert(empty + k2 + empty =~= k2);
    assert(empty + k3 + empty =~= k3);
    assert(empty + project_name + empty =~= project_name);
    assert(empty + plugin_name + empty =~= plugin_name);
    assert(empty + words + empty =~= words);
}

/// A planned file is its template with the project's name filled in, and with
/// that name in Pascal case for the plugin's.
pub proof fn law_planned_files_bear_the_names(
    file: PlannedFile,
    in_src: bool,
    name: Seq<char>,
    template: Seq<char>,
    project_name: Seq<char>,
)
    requires
        is_planned(file, in_src, name, template, project_name),
    ensures
        file.in_src == in_src,
        file.name@ == name,
        file.content@ == filled_in(template, project_name, pascal_case(project_name)),
        has_no_brace(template) ==> file.content@ == template,
{
    if has_no_brace(template) {
        law_text_without_braces_is_copied(template, project_name, pascal_case(project_name));
    }
}

} // verus!
