//! What the library takes from paths and URIs without touching the disk.

use vstd::prelude::*;
use vstd::string::*;
use crate::model::{opt_text, opt_view, views};
use crate::text::{after, chars_of, has_prefix, strip_prefix};

verus! {

/// `std::path::Path::file_name` on `path`, as text: the last component of the
/// path, if it has one. How a path falls into components depends on the
/// platform, so nothing is claimed of the result.
#[verifier::external_body]
pub(crate) fn file_name(path: &str) -> (r: Option<String>) {
    std::path::Path::new(path).file_name().map(|name| name.to_string_lossy().to_string())
}

/// What `urlencoding::decode` makes of a text: the percent-decoded text,
/// or `None` where it reports that the decoded bytes are not UTF-8.
pub uninterp spec fn percent_decoded(s: Seq<char>) -> Option<Seq<char>>;

/// `urlencoding::decode`. The result is a function of the text alone, named
/// `percent_decoded`; a text without a percent sign is returned as it is.
#[verifier::external_body]
pub(crate) fn percent_decode(s: &str) -> (r: Option<String>)
    ensures
        opt_text(r) == percent_decoded(s@),
        !s@.contains('%') ==> opt_text(r) == Some(s@),
{
    urlencoding::decode(s).ok().map(|decoded| decoded.into_owned())
}

/// The path that a URI stands for: a URI that begins with `file://` loses
/// that prefix and is percent-decoded, or left as it is behind the prefix
/// where it does not decode; any other text stands for itself.
pub open spec fn path_of_uri(uri: Seq<char>) -> Seq<char> {
    if has_prefix(uri, "file://"@) {
        match percent_decoded(after(uri, "file://"@.len())) {
            Some(path) => path,
            None => after(uri, "file://"@.len()),
        }
    } else {
        uri
    }
}

/// Turns the URI of a folder into its path.
pub fn uri_to_path(uri: &str) -> (r: String)
    ensures
        r@ == path_of_uri(uri@),
        has_prefix(uri@, "file://"@) && !uri@.contains('%') ==> r@ == after(
            uri@,
            "file://"@.len(),
        ),
{
    match strip_prefix(uri, "file://") {
        Some(rest) => match percent_decode(rest) {
            Some(path) => path,
            None => String::from_str(rest),
        },
        None => String::from_str(uri),
    }
}

/// Whether a file name has the extension `json`: it ends with `.json` and
/// has at least one character before that.
pub open spec fn has_json_extension(name: Seq<char>) -> bool {
    name.len() > 5 && name.subrange(name.len() - 5, name.len() as int) == json_suffix()
}

/// A place where a provider may keep its data, and whether it was found on
/// disk.
#[derive(Clone, Debug, PartialEq, Eq)]
pub struct PathProbe {
    pub path: String,
    pub exists: bool,
}

/// The view of a `PathProbe`.
pub struct ProbeModel {
    pub path: Seq<char>,
    pub exists: bool,
}

impl View for PathProbe {
    type V = ProbeModel;

    open spec fn view(&self) -> ProbeModel {
        ProbeModel { path: self.path@, exists: self.exists }
    }
}

/// The path of a candidate, where there is one and it exists.
pub open spec fn found(candidate: Option<ProbeModel>) -> Option<Seq<char>> {
    match candidate {
        Some(probe) => if probe.exists {
            Some(probe.path)
        } else {
            None
        },
        None => None,
    }
}

/// The first of two choices that is there.
pub open spec fn or_else(first: Option<Seq<char>>, second: Option<Seq<char>>) -> Option<Seq<char>> {
    match first {
        Some(path) => Some(path),
        None => second,
    }
}

/// The path of a candidate, where there is one and it exists.
pub fn existing(candidate: Option<PathProbe>) -> (r: Option<String>)
    ensures
        opt_text(r) == found(opt_view(candidate)),
{
    match candidate {
        Some(probe) => if probe.exists {
            Some(probe.path)
        } else {
            None
        },
        None => None,
    }
}

/// The text `.json`.
pub open spec fn json_suffix() -> Seq<char> {
    seq!['.', 'j', 's', 'o', 'n']
}

/// The name of a file without its extension, for a name that
/// `has_json_extension`.
pub open spec fn json_stem(name: Seq<char>) -> Seq<char> {
    name.take(name.len() - 5)
}

/// Whether a file name has the extension `json`.
pub fn is_json_file(name: &str) -> (r: bool)
    ensures
        r == has_json_extension(name@),
{
    let chars = chars_of(name);
    let n = chars.len();
    if n <= 5 {
        return false;
    }
    let r = chars[n - 5] == '.' && chars[n - 4] == 'j' && chars[n - 3] == 's' && chars[n - 2]
        == 'o' && chars[n - 1] == 'n';
    proof {
        let tail = name@.subrange(n - 5, n as int);
        assert(tail[0] == chars[n - 5] && tail[1] == chars[n - 4] && tail[2] == chars[n - 3]
            && tail[3] == chars[n - 2] && tail[4] == chars[n - 1]);
        if r {
            assert(tail =~= seq!['.', 'j', 's', 'o', 'n']);
        }
    }
    r
}

/// The name of a file without the extension `json`; `None` for a name that
/// has no such extension.
pub fn stem_of_json<'a>(name: &'a str) -> (r: Option<&'a str>)
    ensures
        match r {
            Some(stem) => has_json_extension(name@) && stem@ == json_stem(name@),
            None => !has_json_extension(name@),
        },
{
    if is_json_file(name) {
        let n = name.unicode_len();
        let stem = name.substring_char(0, n - 5);
        assert(stem@ =~= json_stem(name@));
        Some(stem)
    } else {
        None
    }
}

/// A file of a directory: its name and, where it was read, its text.
#[derive(Clone, Debug, PartialEq, Eq)]
pub struct DirFile {
    pub name: String,
    pub text: Option<String>,
}

/// The view of a `DirFile`.
pub struct DirFileModel {
    pub name: Seq<char>,
    pub text: Option<Seq<char>>,
}

impl View for DirFile {
    type V = DirFileModel;

    open spec fn view(&self) -> DirFileModel {
        DirFileModel { name: self.name@, text: opt_text(self.text) }
    }
}

/// The number of names with the extension `json`.
pub open spec fn json_count(names: Seq<Seq<char>>) -> nat
    decreases names.len(),
{
    if names.len() == 0 {
        0
    } else {
        json_count(names.drop_last()) + if has_json_extension(names.last()) {
            1nat
        } else {
            0nat
        }
    }
}

/// The names of a sequence of files.
pub open spec fn names_of(files: Seq<DirFileModel>) -> Seq<Seq<char>> {
    files.map_values(|f: DirFileModel| f.name)
}

/// Counts the files whose name has the extension `json`.
pub fn count_json_files(files: &Vec<DirFile>) -> (r: usize)
    ensures
        r == json_count(names_of(views(files@))),
{
    let ghost names = names_of(views(files@));
    let mut count: usize = 0;
    let mut i: usize = 0;
    assert(names.take(0) =~= Seq::<Seq<char>>::empty());
    while i < files.len()
        invariant
            i <= files.len(),
            names == names_of(views(files@)),
            count == json_count(names.take(i as int)),
            count <= i,
        decreases files.len() - i,
    {
        proof {
            assert(names.take(i + 1).drop_last() =~= names.take(i as int));
            assert(names.take(i + 1).last() == files[i as int].name@);
        }
        if is_json_file(files[i].name.as_str()) {
            count = count + 1;
        }
        i = i + 1;
    }
    assert(names.take(files.len() as int) =~= names);
    count
}

} // verus!
