//! Selecting the file that answers a request, among those of a directory.

use vstd::prelude::*;
use vstd::string::*;
use crate::error::{ErrorKind, MapperError, MapperErrorView};
use crate::index::{cursor_in_range, cursors_after, cursors_after_calls, selected_after, MultiFileIndexMap};
use crate::request::{Request, RequestView};
use crate::text::{
    child_path, file_stem, join_path, lemma_stem_of_json_name, lowercase_of, same_text, starts_with, stem_of,
    to_lowercase,
};

verus! {

/// What the selection came to.
#[derive(Debug, PartialEq, Eq)]
pub enum FilePick {
    /// The file at this path answers the request.
    Existing(String),
    /// No file answers the request: the file at this path is to be created
    /// empty, and then answers it.
    Create(String),
    /// No file answers the request.
    Missing(MapperError),
}

/// The mathematical value of a `FilePick`.
pub enum FilePickView {
    Existing(Seq<char>),
    Create(Seq<char>),
    Missing(MapperErrorView),
}

impl View for FilePick {
    type V = FilePickView;

    open spec fn view(&self) -> FilePickView {
        match *self {
            FilePick::Existing(path) => FilePickView::Existing(path@),
            FilePick::Create(path) => FilePickView::Create(path@),
            FilePick::Missing(error) => FilePickView::Missing(error@),
        }
    }
}

/// The names that a listing holds.
pub open spec fn names_of(files: Seq<String>) -> Seq<Seq<char>> {
    files.map_values(|name: String| name@)
}

/// Whether a stem answers a method, both in lower case: the stem is the
/// method, or begins with the method and `_`.
pub open spec fn stem_answers(stem: Seq<char>, method: Seq<char>) -> bool {
    stem == method || (method + seq!['_']).is_prefix_of(stem)
}

/// Whether the file `name` is a candidate for `method`, whatever the case
/// of either.
pub open spec fn is_candidate(name: Seq<char>, method: Seq<char>) -> bool {
    stem_answers(lowercase_of(stem_of(name)), lowercase_of(method))
}

/// The candidates for `method` among `names`, in the order of the listing.
pub open spec fn candidates(names: Seq<Seq<char>>, method: Seq<char>) -> Seq<Seq<char>> {
    names.filter(|name: Seq<char>| is_candidate(name, method))
}

/// Listing one more name adds it to the candidates if it is one, and else
/// changes nothing.
proof fn lemma_candidates_push(names: Seq<Seq<char>>, name: Seq<char>, method: Seq<char>)
    ensures
        candidates(names.push(name), method) == if is_candidate(name, method) {
            candidates(names, method).push(name)
        } else {
            candidates(names, method)
        },
        candidates(Seq::empty(), method) == Seq::<Seq<char>>::empty(),
{
    reveal(Seq::filter);
    assert(names.push(name).drop_last() == names);
}

/// The name of the placeholder that is created for `method`.
pub open spec fn placeholder_name(method: Seq<char>) -> Seq<char> {
    lowercase_of(method) + ".json"@
}

/// The error that reports that no file answers.
pub open spec fn no_files_error() -> MapperErrorView {
    MapperErrorView { kind: ErrorKind::NotFound, message: "No files available"@ }
}

/// What the default selection comes to, for the names `names` listed in
/// `directory`. Without a candidate the placeholder is asked for, or the
/// request is not answered; else the candidate under the cursor is taken.
pub open spec fn default_pick(
    create_missing: bool,
    cursors: Map<Seq<char>, nat>,
    directory: Seq<char>,
    method: Seq<char>,
    names: Seq<Seq<char>>,
) -> FilePickView {
    let found = candidates(names, method);
    if found.len() == 0 {
        if create_missing {
            FilePickView::Create(child_path(directory, placeholder_name(method)))
        } else {
            FilePickView::Missing(no_files_error())
        }
    } else {
        FilePickView::Existing(child_path(directory, found[cursor_in_range(cursors, directory, found.len()) as int]))
    }
}

/// The cursors after the default selection: they move only where a
/// candidate was taken.
pub open spec fn default_cursors(
    cursors: Map<Seq<char>, nat>,
    directory: Seq<char>,
    method: Seq<char>,
    names: Seq<Seq<char>>,
) -> Map<Seq<char>, nat> {
    let found = candidates(names, method);
    if found.len() == 0 {
        cursors
    } else {
        cursors_after(cursors, directory, found.len())
    }
}

/// The cursors after `calls` default selections in a row, for the same
/// method and over the same listing of `directory`.
pub open spec fn cursors_after_picks(
    cursors: Map<Seq<char>, nat>,
    directory: Seq<char>,
    method: Seq<char>,
    names: Seq<Seq<char>>,
    calls: nat,
) -> Map<Seq<char>, nat>
    decreases calls,
{
    if calls == 0 {
        cursors
    } else {
        default_cursors(
            cursors_after_picks(cursors, directory, method, names, (calls - 1) as nat),
            directory,
            method,
            names,
        )
    }
}

/// Matching looks at lower-case forms only: files whose stems agree in
/// lower case, and methods that agree in lower case, match alike.
pub proof fn law_matching_ignores_case(
    first_name: Seq<char>,
    second_name: Seq<char>,
    first_method: Seq<char>,
    second_method: Seq<char>,
)
    requires
        lowercase_of(stem_of(first_name)) == lowercase_of(stem_of(second_name)),
        lowercase_of(first_method) == lowercase_of(second_method),
    ensures
        is_candidate(first_name, first_method) == is_candidate(second_name, second_method),
{
}

/// While a directory holds candidates, default selections in a row serve
/// them round-robin: the selection that follows `calls` others serves the
/// candidate at the position that `selected_after` gives, and the cursors
/// move as `cursors_after_calls` says.
pub proof fn law_picks_follow_the_cursor(
    create_missing: bool,
    cursors: Map<Seq<char>, nat>,
    directory: Seq<char>,
    method: Seq<char>,
    names: Seq<Seq<char>>,
    calls: nat,
)
    requires
        candidates(names, method).len() > 0,
    ensures
        cursors_after_picks(cursors, directory, method, names, calls) == cursors_after_calls(
            cursors,
            directory,
            candidates(names, method).len(),
            calls,
        ),
        default_pick(
            create_missing,
            cursors_after_picks(cursors, directory, method, names, calls),
            directory,
            method,
            names,
        ) == FilePickView::Existing(
            child_path(
                directory,
                candidates(names, method)[selected_after(
                    cursors,
                    directory,
                    candidates(names, method).len(),
                    calls,
                ) as int],
            ),
        ),
    decreases calls,
{
    if calls > 0 {
        law_picks_follow_the_cursor(create_missing, cursors, directory, method, names, (calls - 1) as nat);
    }
}

/// Without a candidate, a default selection moves no cursor, and comes to
/// the placeholder where it was told to create it, else to the not-found
/// error.
pub proof fn law_no_candidate(
    create_missing: bool,
    cursors: Map<Seq<char>, nat>,
    directory: Seq<char>,
    method: Seq<char>,
    names: Seq<Seq<char>>,
)
    requires
        candidates(names, method).len() == 0,
    ensures
        default_cursors(cursors, directory, method, names) == cursors,
        create_missing ==> default_pick(create_missing, cursors, directory, method, names)
            == FilePickView::Create(child_path(directory, lowercase_of(method) + ".json"@)),
        !create_missing ==> default_pick(create_missing, cursors, directory, method, names)
            == FilePickView::Missing(no_files_error()),
{
}

/// Once the placeholder of a method has been created in a directory that
/// held no candidate, it is the sole candidate: every selection serves it,
/// at the path under which it was asked for. This is stated for methods
/// whose lower-case form has at least one character and is its own
/// lower-case form; the method without any character is an example against
/// it, since `.json` has the stem `.json`.
pub proof fn law_placeholder_is_served(
    create_missing: bool,
    cursors: Map<Seq<char>, nat>,
    directory: Seq<char>,
    method: Seq<char>,
    names: Seq<Seq<char>>,
)
    requires
        candidates(names, method).len() == 0,
        lowercase_of(method).len() > 0,
        lowercase_of(lowercase_of(method)) == lowercase_of(method),
    ensures
        default_pick(true, cursors, directory, method, names) == FilePickView::Create(
            child_path(directory, placeholder_name(method)),
        ),
        is_candidate(placeholder_name(method), method),
        candidates(names.push(placeholder_name(method)), method) == seq![placeholder_name(method)],
        default_pick(create_missing, cursors, directory, method, names.push(placeholder_name(method)))
            == FilePickView::Existing(child_path(directory, placeholder_name(method))),
{
    lemma_stem_of_json_name(lowercase_of(method));
    lemma_candidates_push(names, placeholder_name(method), method);
    assert(candidates(names, method) == Seq::<Seq<char>>::empty());
    assert(candidates(names.push(placeholder_name(method)), method) == seq![placeholder_name(method)]);
}

/// A way of selecting, among the files of a directory, the one that answers
/// a request.
pub trait FilePicker {
    /// Whether a selection among `names`, listed in `directory`, may come to
    /// `pick` and leave the picker as `after`. A picker that says nothing of
    /// itself may select anything.
    open spec fn pick_spec(
        &self,
        directory: Seq<char>,
        request: RequestView,
        names: Seq<Seq<char>>,
        pick: FilePickView,
        after: &Self,
    ) -> bool {
        true
    }

    /// Selects the file that answers `request` among `files`, the names of
    /// the regular files that a listing of `directory` gave, in its order.
    fn pick_file(&mut self, directory: &str, request: &Request, files: &Vec<String>) -> (pick: FilePick)
        ensures
            old(self).pick_spec(directory@, request@, names_of(files@), pick@, final(self)),
    ;
}

/// Whether a stem answers a method, both given in lower case.
pub fn stem_matches(stem: &str, method: &str) -> (answers: bool)
    ensures
        answers == stem_answers(stem@, method@),
{
    if same_text(stem, method) {
        return true;
    }
    let mut prefix = method.to_owned();
    proof {
        reveal_strlit("_");
    }
    prefix.append("_");
    assert(prefix@ == method@ + seq!['_']);
    starts_with(stem, prefix.as_str())
}

/// Whether the file `file_name` is a candidate for `method`.
pub fn file_matches(file_name: &str, method: &str) -> (matches: bool)
    ensures
        matches == is_candidate(file_name@, method@),
{
    let method_lower = to_lowercase(method);
    let stem = file_stem(file_name);
    let stem_lower = to_lowercase(stem.as_str());
    stem_matches(stem_lower.as_str(), method_lower.as_str())
}

/// The candidates for `method` among `files`, in the order of the listing.
pub fn matching_files(files: &Vec<String>, method: &str) -> (found: Vec<String>)
    ensures
        names_of(found@) == candidates(names_of(files@), method@),
{
    let mut found: Vec<String> = Vec::new();
    let mut i: usize = 0;
    proof {
        lemma_candidates_push(Seq::empty(), method@, method@);
    }
    assert(names_of(files@).take(0) == Seq::<Seq<char>>::empty());
    assert(names_of(found@) == Seq::<Seq<char>>::empty());
    while i < files.len()
        invariant
            i <= files.len(),
            names_of(found@) == candidates(names_of(files@).take(i as int), method@),
        decreases files.len() - i,
    {
        let ghost names = names_of(files@);
        let ghost before = names_of(found@);
        proof {
            lemma_candidates_push(names.take(i as int), files@[i as int]@, method@);
        }
        assert(names.take(i + 1) == names.take(i as int).push(files@[i as int]@));
        if file_matches(files[i].as_str(), method) {
            found.push(files[i].clone());
            assert(names_of(found@) == before.push(files@[i as int]@));
        }
        i = i + 1;
    }
    assert(names_of(files@).take(i as int) == names_of(files@));
    found
}

/// The selection among the files of a directory: round-robin over the
/// candidates, with a placeholder where there is none and the picker was
/// told to create it. The candidates are walked in the order of the listing
/// that is handed in, which the picker does not sort: where the filesystem
/// lists in another order the next time, the cycle follows it.
pub struct DefaultFilePicker {
    create_missing: bool,
    multifile_indices: MultiFileIndexMap,
}

/// The mathematical value of a `DefaultFilePicker`.
pub struct DefaultFilePickerView {
    pub create_missing: bool,
    pub cursors: Map<Seq<char>, nat>,
}

impl View for DefaultFilePicker {
    type V = DefaultFilePickerView;

    closed spec fn view(&self) -> DefaultFilePickerView {
        DefaultFilePickerView { create_missing: self.create_missing, cursors: self.multifile_indices@ }
    }
}

impl DefaultFilePicker {
    /// A picker that works on the cursors `index_map`.
    pub fn new(create_missing: bool, index_map: MultiFileIndexMap) -> (picker: Self)
        ensures
            picker@ == (DefaultFilePickerView { create_missing, cursors: index_map@ }),
    {
        DefaultFilePicker { create_missing, multifile_indices: index_map }
    }

    /// The cursors, as they stand.
    pub fn indices(&self) -> (indices: &MultiFileIndexMap)
        ensures
            indices@ == self@.cursors,
    {
        &self.multifile_indices
    }
}

impl FilePicker for DefaultFilePicker {
    open spec fn pick_spec(
        &self,
        directory: Seq<char>,
        request: RequestView,
        names: Seq<Seq<char>>,
        pick: FilePickView,
        after: &Self,
    ) -> bool {
        &&& pick == default_pick(self@.create_missing, self@.cursors, directory, request.method, names)
        &&& after@ == (DefaultFilePickerView {
            create_missing: self@.create_missing,
            cursors: default_cursors(self@.cursors, directory, request.method, names),
        })
    }

    fn pick_file(&mut self, directory: &str, request: &Request, files: &Vec<String>) -> (pick: FilePick) {
        let available_files = matching_files(files, request.method.as_str());
        assert(names_of(available_files@).len() == available_files@.len());
        if available_files.len() == 0 {
            if self.create_missing {
                let mut file_name = to_lowercase(request.method.as_str());
                file_name.append(".json");
                FilePick::Create(join_path(directory, file_name.as_str()))
            } else {
                FilePick::Missing(MapperError::not_found("No files available"))
            }
        } else {
            let index = self.multifile_indices.select(directory, available_files.len());
            assert(names_of(available_files@)[index as int] == available_files@[index as int]@);
            FilePick::Existing(join_path(directory, available_files[index].as_str()))
        }
    }
}

} // verus!
