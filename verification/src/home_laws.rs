//! Where the program finds itself, and what it leaves behind.
use crate::paths::{Ancestor, HomeProbe, below, default_home, first_root};
use crate::runner::{Entry, copy_action};
use crate::text::{Text, result_view};
use vstd::prelude::*;

verus! {

/// Whether a directory holds all that the root of the repository holds.
pub open spec fn holds_the_project(dir: Ancestor) -> bool {
    &&& dir.has_manifest
    &&& dir.has_python
    &&& dir.has_pixi
}

/// The root of the repository is the nearest directory that holds all that the root holds.
pub proof fn law_the_nearest_root_is_taken(ancestors: Seq<Ancestor>)
    ensures
        match first_root(ancestors) {
            Ok(path) => exists|i: int|
                {
                    &&& 0 <= i < ancestors.len()
                    &&& (#[trigger] ancestors[i]).path@ == path
                    &&& holds_the_project(ancestors[i])
                    &&& forall|j: int| 0 <= j < i ==> !holds_the_project(#[trigger] ancestors[j])
                },
            Err(e) => {
                &&& e == "Could not locate the ALCHEMIST repository."@
                &&& forall|i: int|
                    0 <= i < ancestors.len() ==> !holds_the_project(#[trigger] ancestors[i])
            },
        },
    decreases ancestors.len(),
{
    if ancestors.len() > 0 {
        let rest = ancestors.drop_first();
        law_the_nearest_root_is_taken(rest);
        assert(forall|i: int| 0 <= i < rest.len() ==> #[trigger] rest[i] == ancestors[i + 1]);
        if holds_the_project(ancestors[0]) {
            assert(first_root(ancestors) == Ok::<Text, Text>(ancestors[0].path@));
        } else {
            match first_root(rest) {
                Ok(path) => {
                    let i = choose|i: int|
                        {
                            &&& 0 <= i < rest.len()
                            &&& (#[trigger] rest[i]).path@ == path
                            &&& holds_the_project(rest[i])
                            &&& forall|j: int|
                                0 <= j < i ==> !holds_the_project(#[trigger] rest[j])
                        };
                    assert(ancestors[i + 1].path@ == path);
                    assert forall|j: int| 0 <= j < i + 1 implies !holds_the_project(
                        #[trigger] ancestors[j],
                    ) by {
                        if j > 0 {
                            assert(ancestors[j] == rest[j - 1]);
                        }
                    }
                },
                Err(_) => {
                    assert forall|i: int| 0 <= i < ancestors.len() implies !holds_the_project(
                        #[trigger] ancestors[i],
                    ) by {
                        if i > 0 {
                            assert(ancestors[i] == rest[i - 1]);
                        }
                    }
                },
            }
        }
    }
}

/// An installation lies where the environment says, and else in the local data directory, under the
/// name of the program.
pub proof fn law_installations_have_a_place(
    from_environment: Option<Text>,
    data_dir: Option<Text>,
    path: Text,
)
    ensures
        default_home(Some(path), data_dir) == Ok::<Text, Text>(path),
        default_home(None, Some(path)) == Ok::<Text, Text>(below(path, "alchemist"@)),
        default_home(from_environment, data_dir) is Err <==> from_environment is None
            && data_dir is None,
{
}

/// A program that was built in the repository finds its scripts there, at its root. Every other finds
/// them in the installation, where there is one.
pub proof fn law_scripts_lie_in_the_repository_or_the_installation(probe: HomeProbe)
    ensures
        (exists|i: int|
            0 <= i < probe.exe_components@.len() && (#[trigger] probe.exe_components@[i])@
                == "target"@) ==> probe.scheduler() == first_root(probe.ancestors@),
        !(exists|i: int|
            0 <= i < probe.exe_components@.len() && (#[trigger] probe.exe_components@[i])@
                == "target"@) ==> {
            &&& probe.scheduler() is Ok <==> probe.home is Ok && probe.home_exists
            &&& probe.home is Err ==> probe.scheduler() == result_view(probe.home)
            &&& probe.home is Ok && probe.home_exists ==> probe.scheduler() == result_view(
                probe.home,
            )
            &&& probe.home is Ok && !probe.home_exists ==> probe.scheduler() == Err::<Text, Text>(
                "ALCHEMIST is not initialized.\nRun `cargo run -- --init` first."@,
            )
        },
{
    let names = crate::text::views(probe.exe_components@);
    assert(forall|i: int| 0 <= i < names.len() ==> #[trigger] names[i] == probe.exe_components@[i]@);
    if names.contains("target"@) {
        let i = choose|i: int| 0 <= i < names.len() && names[i] == "target"@;
        assert(probe.exe_components@[i]@ == "target"@);
    }
    if exists|i: int|
        0 <= i < probe.exe_components@.len() && (#[trigger] probe.exe_components@[i])@
            == "target"@ {
        let i = choose|i: int|
            0 <= i < probe.exe_components@.len() && (#[trigger] probe.exe_components@[i])@
                == "target"@;
        assert(names[i] == "target"@);
    }
}

/// A copy of a project takes in its files and directories. It leaves out what is built and what keeps
/// versions or environments, whatever kind of entry bears their name.
pub proof fn law_copies_leave_out_what_is_made(entry: Entry<Text>)
    ensures
        ({
            let name = entry.name;
            let left_out = name == "target"@ || name == ".git"@ || name == ".jj"@ || name
                == ".direnv"@;
            &&& copy_action(entry) is Descend <==> entry.kind is Dir && !left_out
            &&& copy_action(entry) is CopyFile <==> entry.kind is File && !left_out
            &&& copy_action(entry) is Skip <==> entry.kind is Other || left_out
        }),
{
}

} // verus!
