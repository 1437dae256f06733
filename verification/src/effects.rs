//! What is to be done to files, and what is known of them.
use crate::text::{Text, same, text4, views};
use vstd::prelude::*;

verus! {

/// Something to be done to the files of a project. `failure` is what is said where it fails, before
/// the reason.
#[derive(Debug)]
pub enum Effect<T> {
    /// Makes a directory, and those above it that are missing.
    CreateDir {
        /// The directory.
        path: T,
        /// What is said where this fails.
        failure: T,
    },
    /// Writes a file.
    Write {
        /// The file.
        path: T,
        /// What it holds then.
        text: T,
        /// What is said where this fails.
        failure: T,
    },
    /// Copies a file.
    Copy {
        /// The file that is copied.
        from: T,
        /// Its copy.
        to: T,
        /// What is said where this fails.
        failure: T,
    },
}

impl<T: View> View for Effect<T> {
    type V = Effect<T::V>;

    open spec fn view(&self) -> Effect<T::V> {
        match self {
            Effect::CreateDir { path, failure } => Effect::CreateDir {
                path: path@,
                failure: failure@,
            },
            Effect::Write { path, text, failure } => Effect::Write {
                path: path@,
                text: text@,
                failure: failure@,
            },
            Effect::Copy { from, to, failure } => Effect::Copy {
                from: from@,
                to: to@,
                failure: failure@,
            },
        }
    }
}

impl<T> Effect<T> {
    /// What is said where this fails.
    pub open spec fn failure_text(self) -> T {
        match self {
            Effect::CreateDir { failure, .. } => failure,
            Effect::Write { failure, .. } => failure,
            Effect::Copy { failure, .. } => failure,
        }
    }
}

impl Effect<String> {
    /// What is said where this fails.
    pub fn failure(&self) -> (r: &str)
        ensures
            r@ == self@.failure_text(),
    {
        match self {
            Effect::CreateDir { failure, .. } => failure.as_str(),
            Effect::Write { failure, .. } => failure.as_str(),
            Effect::Copy { failure, .. } => failure.as_str(),
        }
    }
}

/// The same to be done once more.
pub fn copy_effect(effect: &Effect<String>) -> (r: Effect<String>)
    ensures
        r@ == effect@,
{
    match effect {
        Effect::CreateDir { path, failure } => Effect::CreateDir {
            path: path.clone(),
            failure: failure.clone(),
        },
        Effect::Write { path, text, failure } => Effect::Write {
            path: path.clone(),
            text: text.clone(),
            failure: failure.clone(),
        },
        Effect::Copy { from, to, failure } => Effect::Copy {
            from: from.clone(),
            to: to.clone(),
            failure: failure.clone(),
        },
    }
}

/// The error of a file that cannot be read.
pub open spec fn read_failure(path: Text, error: Text) -> Text {
    "Failed to read "@ + path + ": "@ + error
}

/// The error of a file that cannot be read.
pub fn failed_read(path: &str, error: &str) -> (r: String)
    ensures
        r@ == read_failure(path@, error@),
{
    text4("Failed to read ", path, ": ", error)
}

/// Which of the paths that were looked at are files.
pub struct Files {
    present: Vec<String>,
}

impl View for Files {
    type V = Set<Text>;

    closed spec fn view(&self) -> Set<Text> {
        views(self.present@).to_set()
    }
}

impl Files {
    /// The files that were found.
    pub fn new(present: Vec<String>) -> (r: Files)
        ensures
            r@ == views(present@).to_set(),
    {
        Files { present }
    }

    /// Whether a path is a file.
    pub fn is_file(&self, path: &str) -> (r: bool)
        ensures
            r == self@.contains(path@),
    {
        let mut i: usize = 0;
        let ghost all = views(self.present@);
        while i < self.present.len()
            invariant
                i <= self.present@.len(),
                all == views(self.present@),
                forall|j: int| 0 <= j < i ==> all[j] != path@,
            decreases self.present@.len() - i,
        {
            if same(self.present[i].as_str(), path) {
                assert(all[i as int] == path@);
                return true;
            }
            i += 1;
        }
        assert(!all.contains(path@));
        false
    }
}

/// A file that has to be there, and what is said where it is not, before its path.
#[derive(Debug)]
pub struct Requirement<T> {
    /// What is said.
    pub label: T,
    /// The file.
    pub path: T,
}

impl<T: View> View for Requirement<T> {
    type V = Requirement<T::V>;

    open spec fn view(&self) -> Requirement<T::V> {
        Requirement { label: self.label@, path: self.path@ }
    }
}

/// What is said where a required file is missing.
pub open spec fn missing(requirement: Requirement<Text>) -> Text {
    requirement.label + ": "@ + requirement.path
}

/// The first of the required files that is missing.
pub open spec fn first_missing(requirements: Seq<Requirement<Text>>, files: Set<Text>) -> Option<
    Requirement<Text>,
>
    decreases requirements.len(),
{
    if requirements.len() == 0 {
        None
    } else if !files.contains(requirements[0].path) {
        Some(requirements[0])
    } else {
        first_missing(requirements.drop_first(), files)
    }
}

/// Whether all required files are there; the error names the first that is missing.
pub open spec fn all_present(requirements: Seq<Requirement<Text>>, files: Set<Text>) -> Result<
    (),
    Text,
> {
    match first_missing(requirements, files) {
        None => Ok(()),
        Some(requirement) => Err(missing(requirement)),
    }
}

/// A required file.
pub fn requirement(label: &str, path: String) -> (r: Requirement<String>)
    ensures
        r@ == (Requirement { label: label@, path: path@ }),
{
    Requirement { label: label.to_owned(), path }
}

/// What is said of the first of the required files that is missing.
pub fn find_missing(requirements: &Vec<Requirement<String>>, files: &Files) -> (r: Option<String>)
    ensures
        crate::text::option_view(r) == match first_missing(views(requirements@), files@) {
            None => None,
            Some(requirement) => Some(missing(requirement)),
        },
{
    let ghost all = views(requirements@);
    let mut i: usize = 0;
    assert(all.skip(0) =~= all);
    while i < requirements.len()
        invariant
            i <= requirements@.len(),
            all == views(requirements@),
            first_missing(all.skip(i as int), files@) == first_missing(all, files@),
        decreases requirements@.len() - i,
    {
        assert(all.skip(i as int)[0] == requirements@[i as int]@);
        assert(all.skip(i as int).drop_first() =~= all.skip(i + 1));
        if !files.is_file(requirements[i].path.as_str()) {
            return Some(
                crate::text::text3(
                    requirements[i].label.as_str(),
                    ": ",
                    requirements[i].path.as_str(),
                ),
            );
        }
        i += 1;
    }
    assert(all.skip(i as int) =~= Seq::<Requirement<Text>>::empty());
    None
}

/// Whether all required files are there.
pub fn check_present(requirements: &Vec<Requirement<String>>, files: &Files) -> (r: Result<
    (),
    String,
>)
    ensures
        crate::text::result_view(r) == all_present(views(requirements@), files@),
{
    match find_missing(requirements, files) {
        None => Ok(()),
        Some(message) => Err(message),
    }
}

/// All required files are found present exactly where each of them is.
pub proof fn law_all_present(requirements: Seq<Requirement<Text>>, files: Set<Text>)
    ensures
        all_present(requirements, files) is Ok <==> forall|i: int|
            0 <= i < requirements.len() ==> files.contains(#[trigger] requirements[i].path),
    decreases requirements.len(),
{
    if requirements.len() > 0 {
        let rest = requirements.drop_first();
        law_all_present(rest, files);
        if files.contains(requirements[0].path) {
            assert(forall|i: int|
                0 <= i < rest.len() ==> #[trigger] rest[i] == requirements[i + 1]);
            if all_present(rest, files) is Ok {
                assert forall|i: int| 0 <= i < requirements.len() implies files.contains(
                    #[trigger] requirements[i].path,
                ) by {
                    if i > 0 {
                        assert(rest[i - 1] == requirements[i]);
                    }
                }
            } else {
                let k = choose|k: int| 0 <= k < rest.len() && !files.contains(rest[k].path);
                assert(!files.contains(requirements[k + 1].path));
            }
        }
    }
}

} // verus!
