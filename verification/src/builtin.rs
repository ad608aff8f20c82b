//! The templates that are built into the program, as files of a directory that
//! was embedded when the program was compiled.

use crate::template::{distinct_slot_names, Template};
use crate::template;
use crate::text;
use include_dir::{Dir, File};
use vstd::prelude::*;
use vstd::relations::*;
use vstd::seq_lib::*;

verus! {

broadcast use vstd::string::group_string_axioms;

/// An embedded directory.
#[verifier::external_type_specification]
#[verifier::external_body]
pub struct ExDir<'a>(include_dir::Dir<'a>);

/// A file of an embedded directory.
#[verifier::external_type_specification]
#[verifier::external_body]
pub struct ExFile<'a>(include_dir::File<'a>);

/// The contents of an embedded file.
pub uninterp spec fn file_contents(file: File) -> Seq<u8>;

/// The path of an embedded file, relative to the embedded directory.
pub uninterp spec fn file_path(file: File) -> Seq<char>;

/// The entries directly in an embedded directory, in its order: the path of
/// each, and its contents where it is a file.
pub uninterp spec fn dir_entries(dir: Dir) -> Seq<(Seq<char>, Option<Seq<u8>>)>;

/// The contents of the files of an embedded directory, by the paths under which
/// they are found, where the directory has more in it than files or the path is
/// not a file name alone.
pub uninterp spec fn dir_lookup(dir: Dir) -> Map<Seq<char>, Seq<u8>>;

/// The stem at the end of a path that is not a file name alone.
pub uninterp spec fn path_stem(path: Seq<char>) -> Option<Seq<char>>;

/// Whether a path is a file name alone: not empty, neither `.` nor `..`, and
/// without the characters that separate the parts of a path on some system.
pub open spec fn plain_file_name(path: Seq<char>) -> bool {
    &&& path.len() > 0
    &&& path != "."@
    &&& path != ".."@
    &&& !path.contains('/')
    &&& !path.contains('\\')
    &&& !path.contains(':')
}

/// The paths and the contents of the files among some entries, in their order.
pub open spec fn files_among(entries: Seq<(Seq<char>, Option<Seq<u8>>)>) -> Seq<
    (Seq<char>, Seq<u8>),
>
    decreases entries.len(),
{
    if entries.len() == 0 {
        Seq::empty()
    } else {
        let before = files_among(entries.drop_last());
        match entries.last().1 {
            Some(contents) => before.push((entries.last().0, contents)),
            None => before,
        }
    }
}

/// The paths and the contents of the files directly in an embedded directory,
/// in its order.
pub open spec fn dir_files(dir: Dir) -> Seq<(Seq<char>, Seq<u8>)> {
    files_among(dir_entries(dir))
}

/// Whether all entries are files whose paths are file names alone.
pub open spec fn flat(entries: Seq<(Seq<char>, Option<Seq<u8>>)>) -> bool {
    forall|i: int|
        0 <= i < entries.len() ==> (#[trigger] entries[i]).1 is Some && plain_file_name(
            entries[i].0,
        )
}

/// The contents of the first entry with a path.
pub open spec fn first_at(entries: Seq<(Seq<char>, Option<Seq<u8>>)>, path: Seq<char>) -> Option<
    Seq<u8>,
>
    decreases entries.len(),
{
    if entries.len() == 0 {
        None
    } else if entries[0].0 == path {
        entries[0].1
    } else {
        first_at(entries.drop_first(), path)
    }
}

/// The contents of the file that is found under a path in an embedded
/// directory: in one that has only files in it, those of the first file with
/// that name.
pub open spec fn found(dir: Dir, path: Seq<char>) -> Option<Seq<u8>> {
    if flat(dir_entries(dir)) && plain_file_name(path) {
        first_at(dir_entries(dir), path)
    } else if dir_lookup(dir).contains_key(path) {
        Some(dir_lookup(dir)[path])
    } else {
        None
    }
}

/// The contents of a file that may be there.
pub open spec fn contents_of(file: Option<&File>) -> Option<Seq<u8>> {
    match file {
        Some(file) => Some(file_contents(*file)),
        None => None,
    }
}

/// Calls `include_dir::Dir::get_file`, which goes through the entries in order,
/// and takes the first whose path is the one that is looked for. Where all
/// entries are files, and all paths are file names alone, that is the first
/// with the same text. Otherwise entries of directories below come in between,
/// and paths are compared by their parts, as on the Unix systems that Sway runs
/// on; of that it is said only that what is found depends on the directory and
/// the path.
#[verifier::external_body]
fn get_file<'a>(dir: &Dir<'a>, path: &str) -> (file: Option<&'a File<'a>>)
    ensures
        flat(dir_entries(*dir)) && plain_file_name(path@) ==> contents_of(file) == first_at(
            dir_entries(*dir),
            path@,
        ),
        !(flat(dir_entries(*dir)) && plain_file_name(path@)) ==> match file {
            Some(file) => dir_lookup(*dir).contains_key(path@) && file_contents(*file)
                == dir_lookup(*dir)[path@],
            None => !dir_lookup(*dir).contains_key(path@),
        },
{
    dir.get_file(path)
}

/// Calls `include_dir::Dir::files`, which lists the files among the entries of
/// a directory, in their order.
#[verifier::external_body]
fn list_files<'a>(dir: &Dir<'a>) -> (files: Vec<&'a File<'a>>)
    ensures
        files.len() == files_among(dir_entries(*dir)).len(),
        forall|i: int|
            0 <= i < files.len() ==> files_among(dir_entries(*dir))[i] == (
                file_path(*#[trigger] files@[i]),
                file_contents(*files@[i]),
            ),
{
    dir.files().collect()
}

/// Calls `include_dir::File::contents_utf8`, which decodes a file's contents:
/// there is a text exactly where they are valid UTF-8.
#[verifier::external_body]
fn contents_utf8<'a>(file: &'a File<'a>) -> (contents: Option<&'a str>)
    ensures
        match contents {
            Some(contents) => vstd::utf8::valid_utf8(file_contents(*file)) && contents@
                == vstd::utf8::decode_utf8(file_contents(*file)),
            None => !vstd::utf8::valid_utf8(file_contents(*file)),
        },
{
    file.contents_utf8()
}

/// Calls `include_dir::File::path`. The path was made from a text, so that it
/// is one.
#[verifier::external_body]
fn path_of<'a>(file: &'a File<'a>) -> (path: &'a str)
    ensures
        path@ == file_path(*file),
{
    file.path().to_str().unwrap()
}

/// A file name without its extension: what stands before the last dot, or all
/// of it where the only dot is in front or there is none.
pub open spec fn name_stem(name: Seq<char>) -> Seq<char> {
    match name.index_of_last('.') {
        Some(dot) => if dot > 0 {
            name.take(dot)
        } else {
            name
        },
        None => name,
    }
}

/// The stem of the file name at the end of a path.
pub open spec fn stem(path: Seq<char>) -> Option<Seq<char>> {
    if plain_file_name(path) {
        Some(name_stem(path))
    } else {
        path_stem(path)
    }
}

/// Calls `std::path::Path::file_stem`. Where the path is a file name alone, the
/// stem is what stands before the last dot, or all of it where the only dot is
/// in front or there is none. Of any other path it is said only that the stem
/// depends on the path, taken apart as on the Unix systems that Sway runs on.
#[verifier::external_body]
fn stem_of(path: &str) -> (stem: Option<&str>)
    ensures
        plain_file_name(path@) ==> text::opt_str(stem) == Some(name_stem(path@)),
        !plain_file_name(path@) ==> text::opt_str(stem) == path_stem(path@),
{
    std::path::Path::new(path).file_stem().and_then(|stem| stem.to_str())
}

/// The text of the built-in template with a name: what the file with that name
/// and `.toml` behind it holds, where there is one and it holds text.
pub open spec fn template_text(templates: Dir, name: Seq<char>) -> Option<Seq<char>> {
    match found(templates, name + ".toml"@) {
        Some(contents) => if vstd::utf8::valid_utf8(contents) {
            Some(vstd::utf8::decode_utf8(contents))
        } else {
            None
        },
        None => None,
    }
}

/// The text of the built-in template with a name, without the `.toml` of its
/// file; `None` where there is none, or where it is not text.
pub fn builtin<'a>(templates: &Dir<'a>, name: &str) -> (contents: Option<&'a str>)
    ensures
        text::opt_str(contents) == template_text(*templates, name@),
{
    match get_file(templates, text::concat(name, ".toml").as_str()) {
        Some(file) => contents_utf8(file),
        None => None,
    }
}

/// A built-in template before it is parsed.
#[derive(Copy, Clone, Debug)]
pub struct BuiltinSource<'a> {
    pub name: &'a str,
    pub contents: &'a str,
}

/// The named files among some files: their names and their contents.
pub open spec fn named_files(files: Seq<(Seq<char>, Seq<u8>)>) -> Seq<(Seq<char>, Seq<u8>)>
    decreases files.len(),
{
    if files.len() == 0 {
        Seq::empty()
    } else {
        match stem(files[0].0) {
            Some(name) => seq![(name, files[0].1)] + named_files(files.drop_first()),
            None => named_files(files.drop_first()),
        }
    }
}

/// What is wrong with the first of some named files that is not text.
pub open spec fn undecodable(files: Seq<(Seq<char>, Seq<u8>)>) -> Option<Seq<char>>
    decreases files.len(),
{
    if files.len() == 0 {
        None
    } else if !vstd::utf8::valid_utf8(files[0].1) {
        Some("built-in template "@ + text::debug_form(files[0].0) + " is not valid UTF-8"@)
    } else {
        undecodable(files.drop_first())
    }
}

/// The names and the texts of some named files.
pub open spec fn decoded(files: Seq<(Seq<char>, Seq<u8>)>) -> Seq<(Seq<char>, Seq<char>)> {
    files.map_values(|file: (Seq<char>, Seq<u8>)| (file.0, vstd::utf8::decode_utf8(file.1)))
}

/// The names and the texts of some sources.
pub open spec fn sources_view(sources: Seq<BuiltinSource>) -> Seq<(Seq<char>, Seq<char>)> {
    sources.map_values(|source: BuiltinSource| (source.name@, source.contents@))
}

/// The built-in templates before they are parsed, in the order of their files.
/// A file without a name is passed over; one that is not text is an error.
pub fn builtin_sources<'a>(templates: &Dir<'a>) -> (result: Result<Vec<BuiltinSource<'a>>, String>)
    ensures
        ({
            let files = named_files(dir_files(*templates));
            match result {
                Ok(sources) => undecodable(files) is None && sources_view(sources@) == decoded(
                    files,
                ),
                Err(error) => undecodable(files) == Some(error@),
            }
        }),
{
    let files = list_files(templates);
    let ghost all = dir_files(*templates);
    let mut sources: Vec<BuiltinSource<'a>> = Vec::new();
    let mut i: usize = 0;
    proof {
        assert(all.skip(0) =~= all);
        assert(sources_view(sources@) + decoded(named_files(all)) =~= decoded(named_files(all)));
    }
    while i < files.len()
        invariant
            i <= files.len(),
            all == dir_files(*templates),
            files.len() == all.len(),
            forall|j: int|
                0 <= j < files.len() ==> all[j] == (
                    file_path(*#[trigger] files@[j]),
                    file_contents(*files@[j]),
                ),
            undecodable(named_files(all)) == undecodable(named_files(all.skip(i as int))),
            sources_view(sources@) + decoded(named_files(all.skip(i as int))) == decoded(
                named_files(all),
            ),
        decreases files.len() - i,
    {
        let file = files[i];
        let ghost before = sources@;
        let ghost rest = all.skip(i as int);
        let ghost later = named_files(all.skip(i + 1));
        proof {
            assert(rest.drop_first() =~= all.skip(i + 1));
            assert(rest[0] == (file_path(*file), file_contents(*file)));
        }
        if let Some(name) = stem_of(path_of(file)) {
            let ghost named = (name@, file_contents(*file));
            proof {
                assert(named_files(rest) == seq![named] + later);
                assert((seq![named] + later).drop_first() =~= later);
                assert((seq![named] + later)[0] == named);
            }
            match contents_utf8(file) {
                Some(contents) => {
                    sources.push(BuiltinSource { name, contents });
                    proof {
                        assert(sources_view(sources@) =~= sources_view(before).push(
                            (name@, contents@),
                        ));
                        assert(decoded(seq![named] + later) =~= seq![(name@, contents@)] + decoded(
                            later,
                        ));
                        assert(sources_view(before) + (seq![(name@, contents@)] + decoded(later))
                            =~= sources_view(sources@) + decoded(later));
                    }
                },
                None => {
                    return Err(
                        text::concat3(
                            "built-in template ",
                            text::debug_text(name).as_str(),
                            " is not valid UTF-8",
                        ),
                    );
                },
            }
        }
        i += 1;
    }
    proof {
        assert(all.skip(i as int) =~= Seq::<(Seq<char>, Seq<u8>)>::empty());
        assert(sources_view(sources@) + decoded(Seq::empty()) =~= sources_view(sources@));
    }
    Ok(sources)
}

/// What is shown of a built-in template: its name, what it says of itself, and
/// the slots that applications go into, in the order in which a list of
/// applications fills them.
#[derive(Debug)]
pub struct BuiltinTemplate<'a> {
    pub name: &'a str,
    pub description: String,
    pub category: String,
    pub slots: usize,
    pub slot_names: Vec<String>,
}

/// What is shown of a built-in template, over views.
pub struct BuiltinTemplateView {
    pub name: Seq<char>,
    pub description: Seq<char>,
    pub category: Seq<char>,
    pub slots: nat,
    pub slot_names: Seq<Seq<char>>,
}

impl<'a> View for BuiltinTemplate<'a> {
    type V = BuiltinTemplateView;

    open spec fn view(&self) -> BuiltinTemplateView {
        BuiltinTemplateView {
            name: self.name@,
            description: self.description@,
            category: self.category@,
            slots: self.slots as nat,
            slot_names: text::texts(self.slot_names@),
        }
    }
}

/// What is shown of a template with a name.
pub open spec fn described(name: Seq<char>, template: Template) -> BuiltinTemplateView {
    BuiltinTemplateView {
        name,
        description: template.template.description@,
        category: template.template.category@,
        slots: template::distinct_slots(template.step@).len(),
        slot_names: template::distinct_slots(template.step@),
    }
}

/// What is shown of some templates, in their order.
pub open spec fn all_described(
    names: Seq<Seq<char>>,
    templates: Seq<Template>,
) -> Seq<BuiltinTemplateView> {
    Seq::new(names.len(), |i: int| described(names[i], templates[i]))
}

/// The views of some entries.
pub open spec fn entries_view(entries: Seq<BuiltinTemplate>) -> Seq<BuiltinTemplateView> {
    entries.map_values(|entry: BuiltinTemplate| entry@)
}

/// Whether some entries are in the order of their names.
pub open spec fn sorted_by_name(entries: Seq<BuiltinTemplateView>) -> bool {
    forall|i: int, j: int|
        #![trigger entries[i], entries[j]]
        0 <= i < j < entries.len() ==> text::text_le(entries[i].name, entries[j].name)
}

fn describe<'a>(name: &'a str, template: &Template) -> (entry: BuiltinTemplate<'a>)
    ensures
        entry@ == described(name@, *template),
{
    let slots = distinct_slot_names(template);
    let mut slot_names: Vec<String> = Vec::new();
    let mut i: usize = 0;
    while i < slots.len()
        invariant
            i <= slots.len(),
            text::texts(slot_names@) == text::strs(slots@).take(i as int),
        decreases slots.len() - i,
    {
        let ghost before = slot_names@;
        slot_names.push(slots[i].to_owned());
        proof {
            assert(text::texts(slot_names@) =~= text::texts(before).push(slots@[i as int]@));
            assert(text::strs(slots@).take(i + 1) =~= text::strs(slots@).take(i as int).push(
                slots@[i as int]@,
            ));
        }
        i += 1;
    }
    assert(text::strs(slots@).take(i as int) =~= text::strs(slots@));
    assert(text::texts(slot_names@).len() == slot_names.len());
    BuiltinTemplate {
        name,
        description: template.template.description.clone(),
        category: template.template.category.clone(),
        slots: slot_names.len(),
        slot_names,
    }
}

/// What is shown of the built-in templates, in the order of their names. Each
/// source goes with the template that it parses to.
pub fn builtin_templates<'a>(
    sources: &Vec<BuiltinSource<'a>>,
    templates: &Vec<Template>,
) -> (entries: Vec<BuiltinTemplate<'a>>)
    requires
        sources.len() == templates.len(),
    ensures
        sorted_by_name(entries_view(entries@)),
        entries_view(entries@).to_multiset() == all_described(
            sources@.map_values(|source: BuiltinSource<'a>| source.name@),
            templates@,
        ).to_multiset(),
{
    let ghost names = sources@.map_values(|source: BuiltinSource<'a>| source.name@);
    let ghost all = all_described(names, templates@);
    let mut entries: Vec<BuiltinTemplate<'a>> = Vec::new();
    let mut i: usize = 0;
    proof {
        text::lemma_text_order();
        assert(entries_view(entries@) =~= all.take(0));
    }
    while i < sources.len()
        invariant
            i <= sources.len(),
            sources.len() == templates.len(),
            names == sources@.map_values(|source: BuiltinSource<'a>| source.name@),
            all == all_described(names, templates@),
            total_ordering(text::text_order()),
            sorted_by_name(entries_view(entries@)),
            entries_view(entries@).to_multiset() == all.take(i as int).to_multiset(),
        decreases sources.len() - i,
    {
        let entry = describe(sources[i].name, &templates[i]);
        let ghost shown = entry@;
        let ghost earlier = entries_view(entries@);
        let ghost order = text::text_order();
        let mut at: usize = entries.len();
        while at > 0 && !text::text_at_most(entries[at - 1].name, entry.name)
            invariant
                at <= entries.len(),
                total_ordering(text::text_order()),
                order == text::text_order(),
                shown == entry@,
                earlier == entries_view(entries@),
                sorted_by_name(earlier),
                forall|j: int|
                    at <= j < earlier.len() ==> text::text_le(
                        shown.name,
                        (#[trigger] earlier[j]).name,
                    ),
            decreases at,
        {
            proof {
                assert(earlier[at - 1] == entries@[at - 1]@);
                assert(!order(earlier[at - 1].name, shown.name));
                assert(order(shown.name, earlier[at - 1].name));
            }
            at -= 1;
        }
        proof {
            if at > 0 {
                assert(earlier[at - 1] == entries@[at - 1]@);
                assert forall|j: int| 0 <= j < at implies text::text_le(
                    (#[trigger] earlier[j]).name,
                    shown.name,
                ) by {
                    if j < at - 1 {
                        assert(order(earlier[j].name, earlier[at - 1].name));
                        assert(order(earlier[at - 1].name, shown.name));
                        assert(order(earlier[j].name, shown.name));
                    }
                }
            }
        }
        entries.insert(at, entry);
        proof {
            broadcast use group_to_multiset_ensures;

            let after = entries_view(entries@);
            assert(after =~= earlier.insert(at as int, shown));
            assert(earlier.insert(at as int, shown).to_multiset() == earlier.to_multiset().insert(
                shown,
            ));
            let taken = all.take(i as int);
            assert(names[i as int] == sources@[i as int].name@);
            assert(all.take(i + 1) =~= taken.push(shown));
            assert(taken.push(shown).to_multiset() =~= taken.to_multiset().insert(shown));
            assert forall|j: int, k: int|
                #![trigger after[j], after[k]]
                0 <= j < k < after.len() implies text::text_le(after[j].name, after[k].name) by {
                let a = if j < at {
                    j
                } else {
                    j - 1
                };
                let b = if k < at {
                    k
                } else {
                    k - 1
                };
                if j != at && k != at {
                    assert(after[j] == earlier[a]);
                    assert(after[k] == earlier[b]);
                } else if j == at {
                    assert(after[k] == earlier[b]);
                } else {
                    assert(after[j] == earlier[a]);
                }
            }
        }
        i += 1;
    }
    assert(all.take(i as int) =~= all);
    entries
}

/// A template is listed under the very name by which it is looked up: that of
/// its file without `.toml`.
pub proof fn law_listed_under_the_name_looked_up(name: Seq<char>)
    requires
        name.len() > 0,
        plain_file_name(name + ".toml"@),
    ensures
        stem(name + ".toml"@) == Some(name),
{
    reveal_strlit(".toml");
    let path = name + ".toml"@;
    path.index_of_last_ensures('.');
    assert(path[name.len() as int] == '.');
    assert(path.index_of_last('.') == Some(name.len() as int));
    assert(path.take(name.len() as int) =~= name);
}

/// Whether a path is that of a template's file: a file name alone, with `.toml`
/// behind a name that is not empty.
pub open spec fn template_path(path: Seq<char>) -> bool {
    &&& plain_file_name(path)
    &&& path.len() > ".toml"@.len()
    &&& path.skip(path.len() - ".toml"@.len()) == ".toml"@
}

/// Whether a directory holds nothing but the files of templates, no two of them
/// with the same name.
pub open spec fn holds_templates(entries: Seq<(Seq<char>, Option<Seq<u8>>)>) -> bool {
    &&& forall|i: int|
        0 <= i < entries.len() ==> (#[trigger] entries[i]).1 is Some && template_path(entries[i].0)
    &&& forall|i: int, j: int|
        0 <= i < j < entries.len() ==> (#[trigger] entries[i]).0 != (#[trigger] entries[j]).0
}

proof fn lemma_all_files(entries: Seq<(Seq<char>, Option<Seq<u8>>)>)
    requires
        flat(entries),
    ensures
        files_among(entries).len() == entries.len(),
        forall|i: int|
            0 <= i < entries.len() ==> (#[trigger] files_among(entries)[i]) == (
                entries[i].0,
                entries[i].1->0,
            ),
    decreases entries.len(),
{
    if entries.len() > 0 {
        let init = entries.drop_last();
        assert(flat(init)) by {
            assert forall|i: int| 0 <= i < init.len() implies (#[trigger] init[i]).1 is Some
                && plain_file_name(init[i].0) by {
                assert(init[i] == entries[i]);
            }
        }
        lemma_all_files(init);
        assert(entries[entries.len() - 1].1 is Some);
    }
}

proof fn lemma_first_at(entries: Seq<(Seq<char>, Option<Seq<u8>>)>, i: int)
    requires
        0 <= i < entries.len(),
        forall|j: int| 0 <= j < i ==> (#[trigger] entries[j]).0 != entries[i].0,
    ensures
        first_at(entries, entries[i].0) == entries[i].1,
    decreases i,
{
    if i > 0 {
        let rest = entries.drop_first();
        assert(entries[0].0 != entries[i].0);
        assert forall|j: int| 0 <= j < i - 1 implies (#[trigger] rest[j]).0 != rest[i - 1].0 by {
            assert(rest[j] == entries[j + 1]);
        }
        lemma_first_at(rest, i - 1);
    }
}

/// The name of a template, as its file is listed.
proof fn lemma_template_name(path: Seq<char>)
    requires
        template_path(path),
    ensures
        stem(path) is Some,
        stem(path)->0 + ".toml"@ == path,
{
    reveal_strlit(".toml");
    let name = path.take(path.len() - ".toml"@.len());
    assert(name + ".toml"@ =~= path);
    law_listed_under_the_name_looked_up(name);
}

proof fn lemma_all_named(files: Seq<(Seq<char>, Seq<u8>)>)
    requires
        forall|i: int| 0 <= i < files.len() ==> template_path((#[trigger] files[i]).0),
    ensures
        named_files(files).len() == files.len(),
        forall|i: int|
            0 <= i < files.len() ==> (#[trigger] named_files(files)[i]) == (
                stem(files[i].0)->0,
                files[i].1,
            ),
    decreases files.len(),
{
    if files.len() > 0 {
        let rest = files.drop_first();
        assert forall|i: int| 0 <= i < rest.len() implies template_path((#[trigger] rest[i]).0) by {
            assert(rest[i] == files[i + 1]);
        }
        lemma_all_named(rest);
        lemma_template_name(files[0].0);
        assert forall|i: int| 0 <= i < files.len() implies (#[trigger] named_files(files)[i]) == (
            stem(files[i].0)->0,
            files[i].1,
        ) by {
            if i > 0 {
                assert(named_files(files)[i] == named_files(rest)[i - 1]);
                assert(files[i] == rest[i - 1]);
            }
        }
    }
}

proof fn lemma_all_decodable(files: Seq<(Seq<char>, Seq<u8>)>, i: int)
    requires
        undecodable(files) is None,
        0 <= i < files.len(),
    ensures
        vstd::utf8::valid_utf8(files[i].1),
    decreases files.len(),
{
    if i > 0 {
        lemma_all_decodable(files.drop_first(), i - 1);
    }
}

/// In a directory of templates, each file is listed as one template, and the
/// template that is listed is the one that is found under its name: the text is
/// the same.
pub proof fn law_every_listed_template_is_found(templates: Dir)
    requires
        holds_templates(dir_entries(templates)),
        undecodable(named_files(dir_files(templates))) is None,
    ensures
        named_files(dir_files(templates)).len() == dir_entries(templates).len(),
        forall|i: int|
            0 <= i < dir_entries(templates).len() ==> template_text(
                templates,
                (#[trigger] decoded(named_files(dir_files(templates)))[i]).0,
            ) == Some(decoded(named_files(dir_files(templates)))[i].1),
{
    let entries = dir_entries(templates);
    let files = dir_files(templates);
    let named = named_files(files);
    assert(flat(entries));
    lemma_all_files(entries);
    assert forall|i: int| 0 <= i < files.len() implies template_path((#[trigger] files[i]).0) by {
        assert(entries[i].1 is Some);
    }
    lemma_all_named(files);
    assert forall|i: int| 0 <= i < entries.len() implies template_text(
        templates,
        (#[trigger] decoded(named)[i]).0,
    ) == Some(decoded(named)[i].1) by {
        assert(files[i] == (entries[i].0, entries[i].1->0));
        assert(named[i] == (stem(files[i].0)->0, files[i].1));
        assert(template_path(entries[i].0));
        lemma_template_name(entries[i].0);
        lemma_first_at(entries, i);
        lemma_all_decodable(named, i);
    }
}

/// Every template that is shown is found under the name that is shown, and
/// what is shown of it is what the text that is found parses to: `templates`
/// are what the texts of the sources parse to, in their order.
pub proof fn law_every_shown_template_is_found(
    dir: Dir,
    templates: Seq<Template>,
    entries: Seq<BuiltinTemplateView>,
)
    requires
        holds_templates(dir_entries(dir)),
        undecodable(named_files(dir_files(dir))) is None,
        templates.len() == dir_entries(dir).len(),
        entries.to_multiset() == all_described(
            decoded(named_files(dir_files(dir))).map_values(
                |source: (Seq<char>, Seq<char>)| source.0,
            ),
            templates,
        ).to_multiset(),
    ensures
        entries.len() == dir_entries(dir).len(),
        forall|k: int|
            0 <= k < entries.len() ==> exists|i: int|
                #![trigger templates[i]]
                0 <= i < templates.len() && template_text(dir, (#[trigger] entries[k]).name)
                    == Some(decoded(named_files(dir_files(dir)))[i].1) && entries[k] == described(
                    entries[k].name,
                    templates[i],
                ),
{
    broadcast use group_to_multiset_ensures;

    let sources = decoded(named_files(dir_files(dir)));
    let names = sources.map_values(|source: (Seq<char>, Seq<char>)| source.0);
    let all = all_described(names, templates);
    law_every_listed_template_is_found(dir);
    assert(entries.to_multiset().len() == all.to_multiset().len());
    assert forall|k: int| 0 <= k < entries.len() implies exists|i: int|
        #![trigger templates[i]]
        0 <= i < templates.len() && template_text(dir, (#[trigger] entries[k]).name) == Some(
            sources[i].1,
        ) && entries[k] == described(entries[k].name, templates[i]) by {
        assert(entries.contains(entries[k]));
        assert(entries.to_multiset().count(entries[k]) > 0);
        assert(all.contains(entries[k]));
        let i = choose|i: int| 0 <= i < all.len() && all[i] == entries[k];
        assert(sources[i].0 == names[i]);
        assert(templates[i] == templates[i]);
    }
}

/// A template that passes the check of what it says of itself is shown with a
/// description and a category that are not blank.
pub proof fn law_shown_templates_describe_themselves(name: Seq<char>, template: Template)
    requires
        template::metadata_fault(template) is None,
    ensures
        !text::blank(described(name, template).description),
        !text::blank(described(name, template).category),
{
}

/// Whether a text is a complete sentence: it ends with a full stop, white space
/// after it aside.
pub open spec fn complete_sentence(s: Seq<char>) -> bool {
    text::trimmed_end(s).len() > 0 && text::trimmed_end(s).last() == '.'
}

/// The descriptions that are shown are those of the templates, none cut short
/// and none left out: all of those shown are complete sentences just where all
/// of the templates' own are.
pub proof fn law_shown_descriptions_are_complete_sentences(
    names: Seq<Seq<char>>,
    templates: Seq<Template>,
    entries: Seq<BuiltinTemplateView>,
)
    requires
        names.len() == templates.len(),
        entries.to_multiset() == all_described(names, templates).to_multiset(),
    ensures
        (forall|k: int|
            0 <= k < entries.len() ==> complete_sentence((#[trigger] entries[k]).description))
            <==> (forall|i: int|
            0 <= i < templates.len() ==> complete_sentence(
                (#[trigger] templates[i]).template.description@,
            )),
{
    broadcast use group_to_multiset_ensures;

    let all = all_described(names, templates);
    assert forall|k: int| 0 <= k < entries.len() implies exists|i: int|
        #![trigger templates[i]]
        0 <= i < templates.len() && (#[trigger] entries[k]).description
            == templates[i].template.description@ by {
        assert(entries.contains(entries[k]));
        assert(entries.to_multiset().count(entries[k]) > 0);
        assert(all.contains(entries[k]));
        let i = choose|i: int| 0 <= i < all.len() && all[i] == entries[k];
        assert(templates[i] == templates[i]);
    }
    assert forall|i: int| 0 <= i < templates.len() implies exists|k: int|
        #![trigger entries[k]]
        0 <= k < entries.len() && entries[k].description == (
        #[trigger] templates[i]).template.description@ by {
        assert(all.contains(all[i]));
        assert(all.to_multiset().count(all[i]) > 0);
        assert(entries.contains(all[i]));
        let k = choose|k: int| 0 <= k < entries.len() && entries[k] == all[i];
        assert(entries[k] == all[i]);
    }
}

/// A list of applications that is accepted for a template has as many as the
/// template is shown to have slots.
pub proof fn law_slots_count_the_applications(
    name: Seq<char>,
    template: Template,
    apps: Seq<char>,
)
    requires
        template::apps_fault(template.step@, apps) is None,
    ensures
        template::listed_apps(apps).len() == described(name, template).slots,
        described(name, template).slots == described(name, template).slot_names.len(),
{
}

/// What is shown of a template is its own description and category, as they
/// are, under its name, and the slots that applications go into, counted and
/// named in the order in which each is filled.
pub proof fn law_a_template_is_shown_as_it_is(
    names: Seq<Seq<char>>,
    templates: Seq<Template>,
    i: int,
)
    requires
        names.len() == templates.len(),
        0 <= i < names.len(),
    ensures
        all_described(names, templates).len() == names.len(),
        ({
            let shown = all_described(names, templates)[i];
            &&& shown.name == names[i]
            &&& shown.description == templates[i].template.description@
            &&& shown.category == templates[i].template.category@
            &&& shown.slots == shown.slot_names.len()
            &&& shown.slot_names.no_duplicates()
            &&& forall|slot: Seq<char>| #[trigger]
                shown.slot_names.contains(slot) <==> exists|k: int|
                    0 <= k < templates[i].step@.len() && text::opt_text(
                        (#[trigger] templates[i].step@[k]).slot,
                    ) == Some(slot)
        }),
{
    template::law_distinct_slots(templates[i].step@);
    let shown = all_described(names, templates)[i];
    assert forall|slot: Seq<char>| #[trigger] shown.slot_names.contains(slot) <==> exists|k: int|
        0 <= k < templates[i].step@.len() && text::opt_text((#[trigger] templates[i].step@[k]).slot)
            == Some(slot) by {
        assert(template::distinct_slots(templates[i].step@).contains(slot)
            <==> template::slot_named(templates[i].step@, slot));
    }
}

/// What stands in an entry is what is seen of it.
pub proof fn law_an_entry_is_seen_as_it_is(entry: BuiltinTemplate)
    ensures
        entry@.name == entry.name@,
        entry@.description == entry.description@,
        entry@.category == entry.category@,
        entry@.slots == entry.slots,
        entry@.slot_names.len() == entry.slot_names@.len(),
        forall|i: int|
            0 <= i < entry.slot_names@.len() ==> (#[trigger] entry@.slot_names[i])
                == entry.slot_names@[i]@,
{
}

/// The stem of a file name is what stands before its last dot; a name whose only
/// dot is in front, and one without a dot, are their own stems.
pub proof fn law_a_stem_is_what_stands_before_the_last_dot(stem: Seq<char>, extension: Seq<char>)
    requires
        !extension.contains('.'),
    ensures
        stem.len() > 0 ==> name_stem(stem + seq!['.'] + extension) == stem,
        name_stem(seq!['.'] + extension) == seq!['.'] + extension,
        name_stem(extension) == extension,
{
    let name = stem + seq!['.'] + extension;
    name.index_of_last_ensures('.');
    assert(name[stem.len() as int] == '.');
    assert forall|i: int| stem.len() < i < name.len() implies name[i] != '.' by {
        assert(name[i] == extension[i - stem.len() - 1]);
    }
    assert(name.index_of_last('.') == Some(stem.len() as int));
    assert(name.take(stem.len() as int) =~= stem);
    let hidden = seq!['.'] + extension;
    hidden.index_of_last_ensures('.');
    assert(hidden[0] == '.');
    assert forall|i: int| 0 < i < hidden.len() implies hidden[i] != '.' by {
        assert(hidden[i] == extension[i - 1]);
    }
    extension.index_of_last_ensures('.');
}

/// The files that are listed are just the files among the entries, in their
/// order and with their contents.
pub proof fn law_the_files_are_listed_in_order(
    entries: Seq<(Seq<char>, Option<Seq<u8>>)>,
    next: (Seq<char>, Option<Seq<u8>>),
)
    ensures
        files_among(Seq::empty()).len() == 0,
        next.1 matches Some(contents) ==> files_among(entries.push(next)) == files_among(
            entries,
        ).push((next.0, contents)),
        next.1 is None ==> files_among(entries.push(next)) == files_among(entries),
{
    assert(entries.push(next).drop_last() =~= entries);
}

/// In a directory that has only files in it, what is found under a file name is
/// what the first file with that name holds, and nothing where no file has it.
pub proof fn law_a_file_is_found_by_its_name(dir: Dir, path: Seq<char>, i: int)
    requires
        flat(dir_entries(dir)),
        plain_file_name(path),
    ensures
        0 <= i < dir_entries(dir).len() && dir_entries(dir)[i].0 == path && (forall|j: int|
            0 <= j < i ==> (#[trigger] dir_entries(dir)[j]).0 != path) ==> found(dir, path)
            == dir_entries(dir)[i].1,
        (forall|j: int| 0 <= j < dir_entries(dir).len() ==> (#[trigger] dir_entries(dir)[j]).0
            != path) ==> found(dir, path) is None,
{
    let entries = dir_entries(dir);
    if 0 <= i < entries.len() && entries[i].0 == path && (forall|j: int|
        0 <= j < i ==> (#[trigger] entries[j]).0 != path) {
        lemma_first_at(entries, i);
    }
    if forall|j: int| 0 <= j < entries.len() ==> (#[trigger] entries[j]).0 != path {
        lemma_none_at(entries, path);
    }
}

proof fn lemma_none_at(entries: Seq<(Seq<char>, Option<Seq<u8>>)>, path: Seq<char>)
    requires
        forall|j: int| 0 <= j < entries.len() ==> (#[trigger] entries[j]).0 != path,
    ensures
        first_at(entries, path) is None,
    decreases entries.len(),
{
    if entries.len() > 0 {
        assert(entries[0].0 != path);
        let rest = entries.drop_first();
        assert forall|j: int| 0 <= j < rest.len() implies (#[trigger] rest[j]).0 != path by {
            assert(rest[j] == entries[j + 1]);
        }
        lemma_none_at(rest, path);
    }
}

/// A built-in template's text is what is found under its name with `.toml`
/// behind it, decoded; what is not text is not given.
pub proof fn law_a_template_is_found_by_its_name(dir: Dir, name: Seq<char>)
    ensures
        found(dir, name + ".toml"@) is None ==> template_text(dir, name) is None,
        found(dir, name + ".toml"@) matches Some(contents) ==> template_text(dir, name) == if vstd::utf8::valid_utf8(
            contents,
        ) {
            Some(vstd::utf8::decode_utf8(contents))
        } else {
            None
        },
{
}

/// Entries are in the order of their names exactly where no name comes before
/// that of an entry in front of it.
pub proof fn law_entries_are_in_the_order_of_their_names(
    entries: Seq<BuiltinTemplateView>,
    i: int,
    j: int,
)
    requires
        sorted_by_name(entries),
        0 <= i < j < entries.len(),
    ensures
        text::text_le(entries[i].name, entries[j].name),
{
}

/// A built-in file that is not text is reported by its name: the first such
/// file. There is a report exactly where there is such a file.
pub proof fn law_a_file_that_is_not_text_is_reported(files: Seq<(Seq<char>, Seq<u8>)>, i: int)
    ensures
        undecodable(files) is None <==> forall|j: int|
            0 <= j < files.len() ==> vstd::utf8::valid_utf8((#[trigger] files[j]).1),
        0 <= i < files.len() && !vstd::utf8::valid_utf8(files[i].1) && (forall|j: int|
            0 <= j < i ==> vstd::utf8::valid_utf8((#[trigger] files[j]).1)) ==> undecodable(files)
            == Some(
            "built-in template "@ + text::debug_form(files[i].0) + " is not valid UTF-8"@,
        ),
    decreases files.len(),
{
    if files.len() > 0 {
        let rest = files.drop_first();
        law_a_file_that_is_not_text_is_reported(rest, i - 1);
        assert forall|j: int| 0 <= j < rest.len() implies (#[trigger] rest[j]) == files[j + 1] by {}
        if undecodable(files) is None {
            assert forall|j: int| 0 <= j < files.len() implies vstd::utf8::valid_utf8(
                (#[trigger] files[j]).1,
            ) by {
                if j > 0 {
                    assert(vstd::utf8::valid_utf8(rest[j - 1].1));
                }
            }
        }
        if forall|j: int|
            0 <= j < files.len() ==> vstd::utf8::valid_utf8((#[trigger] files[j]).1) {
            assert(vstd::utf8::valid_utf8(files[0].1));
            assert forall|j: int| 0 <= j < rest.len() implies vstd::utf8::valid_utf8(
                (#[trigger] rest[j]).1,
            ) by {
                assert(vstd::utf8::valid_utf8(files[j + 1].1));
            }
        }
        if 0 < i < files.len() && (forall|j: int|
            0 <= j < i ==> vstd::utf8::valid_utf8((#[trigger] files[j]).1)) {
            assert(vstd::utf8::valid_utf8(files[0].1));
            assert forall|j: int| 0 <= j < i - 1 implies vstd::utf8::valid_utf8(
                (#[trigger] rest[j]).1,
            ) by {
                assert(vstd::utf8::valid_utf8(files[j + 1].1));
            }
        }
    }
}

/// Each file that has a name is listed under it, with its contents, in the order
/// of the files; one without a name is passed over.
pub proof fn law_named_files_are_listed_in_order(
    first: (Seq<char>, Seq<u8>),
    rest: Seq<(Seq<char>, Seq<u8>)>,
)
    ensures
        named_files(Seq::empty()).len() == 0,
        stem(first.0) matches Some(name) ==> named_files(seq![first] + rest) == seq![
            (name, first.1),
        ] + named_files(rest),
        stem(first.0) is None ==> named_files(seq![first] + rest) == named_files(rest),
{
    assert((seq![first] + rest).drop_first() =~= rest);
}

} // verus!
