//! Finding a built plugin and the first plugin in it.

use crate::text::{join2, join3, owned, same_text};
use vstd::prelude::*;

verus! {

/// A plugin as its file describes it; either part may be missing or
/// unreadable.
#[derive(Debug, Clone)]
pub struct PluginDescriptor {
    pub id: Option<String>,
    pub name: Option<String>,
}

/// The plugin to instantiate, and the file that it is in.
#[derive(Debug, Clone)]
pub struct PluginBinary {
    pub plugin_id: String,
    pub plugin_name: String,
    pub path: String,
}

/// Whether `i` is the first plugin that has an identifier.
pub open spec fn is_first_plugin(descriptors: Seq<PluginDescriptor>, i: int) -> bool {
    &&& 0 <= i < descriptors.len()
    &&& descriptors[i].id is Some
    &&& forall|j: int| 0 <= j < i ==> (#[trigger] descriptors[j]).id is None
}

/// The name that a plugin is shown under.
pub open spec fn shown_name(descriptor: PluginDescriptor) -> Seq<char> {
    match descriptor.name {
        Some(name) => name@,
        None => "Unknown Plugin"@,
    }
}

/// Whether no plugin has an identifier.
pub open spec fn has_no_plugin(descriptors: Seq<PluginDescriptor>) -> bool {
    forall|j: int| 0 <= j < descriptors.len() ==> (#[trigger] descriptors[j]).id is None
}

fn first_plugin(descriptors: &Vec<PluginDescriptor>) -> (r: Option<usize>)
    ensures
        match r {
            Some(i) => is_first_plugin(descriptors@, i as int),
            None => has_no_plugin(descriptors@),
        },
{
    let mut i: usize = 0;
    while i < descriptors.len()
        invariant
            i <= descriptors.len(),
            forall|j: int| 0 <= j < i ==> (#[trigger] descriptors@[j]).id is None,
        decreases descriptors.len() - i,
    {
        if descriptors[i].id.is_some() {
            return Some(i);
        }
        i = i + 1;
    }
    None
}

/// What opening a plugin file gave: the reason why it failed, or the plugins
/// that its factory describes, if it has a factory.
pub type OpenedEntry = Result<Option<Vec<PluginDescriptor>>, String>;

/// The first plugin of a file.
///
/// `opened` is looked at only where the file exists.
pub fn load_clap_binary(clap_path: &str, on_disk: bool, opened: &OpenedEntry) -> (r: Result<
    PluginBinary,
    String,
>)
    ensures
        if !on_disk {
            r matches Err(m) && m@ == "CLAP file not found: "@ + clap_path@
        } else {
            match *opened {
                Err(e) => r matches Err(m) && m@ == "Failed to load CLAP entry: "@ + e@,
                Ok(None) => r matches Err(m) && m@ == "CLAP file has no plugin factory"@,
                Ok(Some(descriptors)) => {
                    ||| {
                        &&& has_no_plugin(descriptors@)
                        &&& r matches Err(m)
                        &&& m@ == "No plugins found in CLAP file"@
                    }
                    ||| {
                        &&& r matches Ok(binary)
                        &&& exists|i: int|
                            {
                                &&& is_first_plugin(descriptors@, i)
                                &&& binary.plugin_id@ == (descriptors@[i].id->0)@
                                &&& binary.plugin_name@ == shown_name(descriptors@[i])
                            }
                        &&& binary.path@ == clap_path@
                    }
                },
            }
        },
{
    if !on_disk {
        return Err(join2("CLAP file not found: ", clap_path));
    }
    let factory: &Option<Vec<PluginDescriptor>> = match opened {
        Ok(factory) => factory,
        Err(e) => {
            return Err(join2("Failed to load CLAP entry: ", e.as_str()));
        },
    };
    let descriptors: &Vec<PluginDescriptor> = match factory {
        Some(descriptors) => descriptors,
        None => {
            return Err(owned("CLAP file has no plugin factory"));
        },
    };
    let index: usize = match first_plugin(descriptors) {
        Some(index) => index,
        None => {
            return Err(owned("No plugins found in CLAP file"));
        },
    };
    let plugin_id: String = match &descriptors[index].id {
        Some(id) => id.clone(),
        None => String::new(),
    };
    let plugin_name: String = match &descriptors[index].name {
        Some(name) => name.clone(),
        None => owned("Unknown Plugin"),
    };
    assert(is_first_plugin(descriptors@, index as int));
    Ok(PluginBinary { plugin_id, plugin_name, path: owned(clap_path) })
}

/// A file or directory: its path, and its extension if it has one.
#[derive(Debug, Clone)]
pub struct FoundFile {
    pub path: String,
    pub extension: Option<String>,
}

/// Whether a file has the given extension.
pub open spec fn has_extension(file: FoundFile, extension: Seq<char>) -> bool {
    file.extension matches Some(e) && e@ == extension
}

/// The number of files with the given extension.
pub open spec fn count_with(files: Seq<FoundFile>, extension: Seq<char>) -> nat
    decreases files.len(),
{
    if files.len() == 0 {
        0
    } else {
        count_with(files.drop_last(), extension) + if has_extension(files.last(), extension) {
            1nat
        } else {
            0nat
        }
    }
}

/// Whether `i` is the first file with the given extension.
pub open spec fn is_first_with(files: Seq<FoundFile>, extension: Seq<char>, i: int) -> bool {
    &&& 0 <= i < files.len()
    &&& has_extension(files[i], extension)
    &&& forall|j: int| 0 <= j < i ==> !has_extension(#[trigger] files[j], extension)
}

/// Whether no file has the given extension.
pub open spec fn none_with(files: Seq<FoundFile>, extension: Seq<char>) -> bool {
    forall|j: int| 0 <= j < files.len() ==> !has_extension(#[trigger] files[j], extension)
}

fn first_with(files: &Vec<FoundFile>, extension: &str) -> (r: Option<usize>)
    ensures
        match r {
            Some(i) => is_first_with(files@, extension@, i as int),
            None => none_with(files@, extension@),
        },
{
    let mut i: usize = 0;
    while i < files.len()
        invariant
            i <= files.len(),
            forall|j: int| 0 <= j < i ==> !has_extension(#[trigger] files@[j], extension@),
        decreases files.len() - i,
    {
        let found: bool = match &files[i].extension {
            Some(e) => same_text(e.as_str(), extension),
            None => false,
        };
        if found {
            return Some(i);
        }
        i = i + 1;
    }
    None
}

fn has_several(files: &Vec<FoundFile>, extension: &str) -> (r: bool)
    ensures
        r == (count_with(files@, extension@) > 1),
{
    let mut n: usize = 0;
    let mut i: usize = 0;
    assert(files@.take(0) =~= Seq::empty());
    while i < files.len()
        invariant
            i <= files.len(),
            n <= i,
            n == count_with(files@.take(i as int), extension@),
        decreases files.len() - i,
    {
        assert(files@.take(i + 1).drop_last() =~= files@.take(i as int));
        let found: bool = match &files[i].extension {
            Some(e) => same_text(e.as_str(), extension),
            None => false,
        };
        if found {
            n = n + 1;
        }
        i = i + 1;
    }
    assert(files@.take(files@.len() as int) =~= files@);
    n > 1
}

/// The bundle that a build left, and whether there were others beside it.
#[derive(Debug, Clone)]
pub struct ClapBundle {
    pub path: String,
    pub ambiguous: bool,
}

/// Finds the `.clap` bundle that `cargo nih-plug bundle` has put into
/// `target/bundled`: the first one of the directory's entries.
///
/// `entries` is looked at only where the directory exists.
pub fn find_clap_bundle(
    bundled_dir: &str,
    on_disk: bool,
    entries: &Result<Vec<FoundFile>, String>,
) -> (r: Result<ClapBundle, String>)
    ensures
        if !on_disk {
            r matches Err(m) && m@ == "No target/bundled directory found at "@ + bundled_dir@
                + ". Run 'cargo nih-plug bundle' first."@
        } else {
            match *entries {
                Err(e) => r matches Err(m) && m@ == "Failed to read bundled dir: "@ + e@,
                Ok(files) => {
                    ||| {
                        &&& none_with(files@, "clap"@)
                        &&& r matches Err(m)
                        &&& m@ == "No .clap files found in "@ + bundled_dir@
                    }
                    ||| {
                        &&& r matches Ok(bundle)
                        &&& exists|i: int|
                            is_first_with(files@, "clap"@, i) && bundle.path@ == (
                            #[trigger] files@[i]).path@
                        &&& bundle.ambiguous == (count_with(files@, "clap"@) > 1)
                    }
                },
            }
        },
{
    if !on_disk {
        return Err(
            join3(
                "No target/bundled directory found at ",
                bundled_dir,
                ". Run 'cargo nih-plug bundle' first.",
            ),
        );
    }
    let files: &Vec<FoundFile> = match entries {
        Ok(files) => files,
        Err(e) => {
            return Err(join2("Failed to read bundled dir: ", e.as_str()));
        },
    };
    match first_with(files, "clap") {
        Some(i) => {
            assert(is_first_with(files@, "clap"@, i as int));
            Ok(ClapBundle { path: files[i].path.clone(), ambiguous: has_several(files, "clap") })
        },
        None => Err(join2("No .clap files found in ", bundled_dir)),
    }
}

/// The file of a bundle to load.
///
/// A bundle that is a directory holds a shared library, which is loaded; where
/// it holds none, the directory itself is. Any other bundle is the file itself.
/// `inner` is looked at only for a directory.
pub fn bundle_binary(
    clap_path: &str,
    is_dir: bool,
    inner: &Result<Vec<FoundFile>, String>,
) -> (r: Result<String, String>)
    ensures
        if !is_dir {
            r matches Ok(path) && path@ == clap_path@
        } else {
            match *inner {
                Err(e) => r matches Err(m) && m@ == "Failed to read .clap directory: "@ + e@,
                Ok(files) => {
                    &&& r matches Ok(path)
                    &&& {
                        ||| none_with(files@, "so"@) && path@ == clap_path@
                        ||| exists|i: int|
                            is_first_with(files@, "so"@, i) && path@ == (
                            #[trigger] files@[i]).path@
                    }
                },
            }
        },
{
    if !is_dir {
        return Ok(owned(clap_path));
    }
    let files: &Vec<FoundFile> = match inner {
        Ok(files) => files,
        Err(e) => {
            return Err(join2("Failed to read .clap directory: ", e.as_str()));
        },
    };
    match first_with(files, "so") {
        Some(i) => {
            assert(is_first_with(files@, "so"@, i as int));
            Ok(files[i].path.clone())
        },
        None => Ok(owned(clap_path)),
    }
}

/// The plugin that is taken is the first one with an identifier, under its own
/// name where it has one.
pub proof fn law_first_plugin_is_taken(descriptors: Seq<PluginDescriptor>, i: int, j: int)
    requires
        is_first_plugin(descriptors, i),
        0 <= j < descriptors.len(),
        descriptors[j].id is Some,
    ensures
        descriptors[i].id is Some,
        i <= j,
        !has_no_plugin(descriptors),
        descriptors[i].name matches Some(name) ==> shown_name(descriptors[i]) == name@,
        descriptors[i].name is None ==> shown_name(descriptors[i]) == "Unknown Plugin"@,
{
    if j < i {
        assert(descriptors[j].id is None);
    }
}

/// The file that is taken is the first one with the extension; there is one
/// exactly where not all are without it.
pub proof fn law_first_file_is_taken(
    files: Seq<FoundFile>,
    extension: Seq<char>,
    i: int,
    j: int,
)
    requires
        is_first_with(files, extension, i),
        0 <= j < files.len(),
        files[j].extension is Some,
        (files[j].extension->0)@ == extension,
    ensures
        files[i].extension is Some,
        (files[i].extension->0)@ == extension,
        i <= j,
        !none_with(files, extension),
{
    if j < i {
        assert(!has_extension(files[j], extension));
    }
    assert(has_extension(files[j], extension));
}

proof fn lemma_count_of_none(files: Seq<FoundFile>, extension: Seq<char>)
    ensures
        count_with(files, extension) == 0 <==> none_with(files, extension),
    decreases files.len(),
{
    if files.len() > 0 {
        let init = files.drop_last();
        lemma_count_of_none(init, extension);
        if none_with(files, extension) {
            assert forall|j: int| 0 <= j < init.len() implies !has_extension(
                #[trigger] init[j],
                extension,
            ) by {
                assert(!has_extension(files[j], extension));
            }
            assert(!has_extension(files[files.len() - 1], extension));
        }
        if count_with(files, extension) == 0 {
            assert forall|j: int| 0 <= j < files.len() implies !has_extension(
                #[trigger] files[j],
                extension,
            ) by {
                if j < init.len() {
                    assert(!has_extension(init[j], extension));
                }
            }
        }
    }
}

/// There are several files with an extension exactly where two different ones
/// have it.
pub proof fn law_several_are_two_or_more(files: Seq<FoundFile>, extension: Seq<char>)
    ensures
        count_with(files, extension) > 1 <==> exists|i: int, j: int|
            0 <= i < j < files.len() && has_extension(#[trigger] files[i], extension)
                && has_extension(#[trigger] files[j], extension),
    decreases files.len(),
{
    if files.len() > 0 {
        let init = files.drop_last();
        let last = files.len() - 1;
        law_several_are_two_or_more(init, extension);
        lemma_count_of_none(init, extension);
        if count_with(files, extension) > 1 {
            if count_with(init, extension) > 1 {
                let (i, j) = choose|i: int, j: int|
                    0 <= i < j < init.len() && has_extension(#[trigger] init[i], extension)
                        && has_extension(#[trigger] init[j], extension);
                assert(has_extension(files[i], extension) && has_extension(files[j], extension));
            } else {
                assert(!none_with(init, extension));
                let i = choose|i: int|
                    0 <= i < init.len() && has_extension(#[trigger] init[i], extension);
                assert(has_extension(files[i], extension) && has_extension(files[last], extension));
            }
        }
        if exists|i: int, j: int|
            0 <= i < j < files.len() && has_extension(#[trigger] files[i], extension)
                && has_extension(#[trigger] files[j], extension) {
            let (i, j) = choose|i: int, j: int|
                0 <= i < j < files.len() && has_extension(#[trigger] files[i], extension)
                    && has_extension(#[trigger] files[j], extension);
            assert(has_extension(init[i], extension));
            if j < last {
                assert(has_extension(init[j], extension));
            } else {
                assert(!none_with(init, extension));
            }
        }
    }
}

} // verus!
