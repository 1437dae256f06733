//! What the commands and files that prepare training data are, in full.
use crate::backend::{EnergyMode, ModelBackend};
use crate::dataset::{
    dataset_arguments, dataset_files, dry_dataset, fill_missing, placeholder, seed_dataset,
};
use crate::effects::Effect;
use crate::number::decimal_of;
use crate::paths::{CacheEnvironment, Variable, below, cache_variables, make_directories};
use crate::text::Text;
use vstd::prelude::*;

verus! {

/// Training data are prepared by Python, in the environment of the kind of model and by its script:
/// the script is told the project, the generation, the foundation model, which is empty where there
/// is none, and the energies, in this order.
pub proof fn law_training_data_are_prepared_by_the_script_of_their_model(
    home: Text,
    project_dir: Text,
    generation: u32,
    backend: ModelBackend,
    checkpoint: Option<Text>,
    energy_mode: EnergyMode,
)
    ensures
        ({
            let arguments = dataset_arguments(
                home,
                project_dir,
                generation,
                backend,
                checkpoint,
                energy_mode,
            );
            &&& arguments.len() == 11
            &&& arguments[0] == "run"@
            &&& arguments[1] == "-e"@
            &&& backend is Upet ==> arguments[2] == "upet"@
            &&& backend is N2p2 ==> arguments[2] == "n2p2"@
            &&& arguments[3] == "--manifest-path"@
            &&& arguments[4] == below(home, "pixi.toml"@)
            &&& arguments[5] == "python"@
            &&& backend is Upet ==> arguments[6] == below(
                below(home, "python"@),
                "poscar_to_upet.py"@,
            )
            &&& backend is N2p2 ==> arguments[6] == below(
                below(home, "python"@),
                "poscar_to_n2p2.py"@,
            )
            &&& arguments[7] == project_dir
            &&& arguments[8] == decimal_of(generation as nat)
            &&& checkpoint matches Some(path) ==> arguments[9] == path
            &&& checkpoint is None ==> arguments[9].len() == 0
            &&& energy_mode is Pet ==> arguments[10] == "pet"@
            &&& energy_mode is Raw ==> arguments[10] == "raw"@
        }),
{
}

/// Each cache directory that the environment does not name lies below the cache directory of the
/// installation, under its own name, and is made before it is used.
pub proof fn law_each_cache_has_its_place(home: Text, set: CacheEnvironment, failure: Text)
    ensures
        ({
            let variables = cache_variables(home, set);
            let made = make_directories(variables, failure);
            let cache = below(home, "cache"@);
            &&& !set.pixi <==> variables.contains(
                Variable { key: "PIXI_CACHE_DIR"@, value: below(cache, "pixi"@) },
            )
            &&& !set.uv <==> variables.contains(
                Variable { key: "UV_CACHE_DIR"@, value: below(cache, "uv"@) },
            )
            &&& !set.xdg <==> variables.contains(
                Variable { key: "XDG_CACHE_HOME"@, value: below(cache, "xdg"@) },
            )
            &&& forall|i: int|
                0 <= i < variables.len() ==> (#[trigger] variables[i]).key == "PIXI_CACHE_DIR"@
                    || variables[i].key == "UV_CACHE_DIR"@ || variables[i].key == "XDG_CACHE_HOME"@
            &&& variables.no_duplicates()
            &&& made.len() == variables.len()
            &&& forall|i: int|
                0 <= i < variables.len() ==> #[trigger] made[i] == (Effect::CreateDir {
                    path: variables[i].value,
                    failure,
                })
        }),
{
    reveal_strlit("PIXI_CACHE_DIR");
    reveal_strlit("UV_CACHE_DIR");
    reveal_strlit("XDG_CACHE_HOME");
    let variables = cache_variables(home, set);
    let cache = below(home, "cache"@);
    let pixi = Variable { key: "PIXI_CACHE_DIR"@, value: below(cache, "pixi"@) };
    let uv = Variable { key: "UV_CACHE_DIR"@, value: below(cache, "uv"@) };
    let xdg = Variable { key: "XDG_CACHE_HOME"@, value: below(cache, "xdg"@) };
    assert("PIXI_CACHE_DIR"@[0] == 'P' && "UV_CACHE_DIR"@[0] == 'U' && "XDG_CACHE_HOME"@[0] == 'X');
    if !set.pixi {
        assert(variables[0] == pixi);
    }
    if !set.uv {
        assert(variables[if set.pixi {
            0
        } else {
            1
        }] == uv);
    }
    if !set.xdg {
        assert(variables[variables.len() - 1] == xdg);
    }
}

/// Whether a file is written exactly where it is missing.
pub open spec fn is_filled(
    effects: Seq<Effect<Text>>,
    path: Text,
    text: Text,
    files: Set<Text>,
) -> bool {
    effects.contains(Effect::Write { path, text, failure: Seq::empty() }) <==> !files.contains(path)
}

/// What is written to files is written to those among them that are missing, and nothing else is done.
proof fn lemma_filled(dir: Text, names: Seq<Text>, text: Text, files: Set<Text>, k: int)
    ensures
        ({
            let filled = fill_missing(dir, names, text, files);
            &&& forall|i: int|
                0 <= i < filled.len() ==> {
                    &&& (#[trigger] filled[i]) matches Effect::Write { path, text: t, failure }
                    &&& t == text
                    &&& failure == Seq::<char>::empty()
                    &&& !files.contains(path)
                    &&& exists|j: int| 0 <= j < names.len() && path == below(dir, #[trigger] names[j])
                }
            &&& 0 <= k < names.len() ==> is_filled(filled, below(dir, names[k]), text, files)
        }),
    decreases names.len(),
{
    if names.len() > 0 {
        let fewer = names.drop_last();
        lemma_filled(dir, fewer, text, files, k);
        let earlier = fill_missing(dir, fewer, text, files);
        let filled = fill_missing(dir, names, text, files);
        let last = below(dir, names.last());
        assert forall|i: int| 0 <= i < filled.len() implies {
            &&& (#[trigger] filled[i]) matches Effect::Write { path, text: t, failure }
            &&& t == text
            &&& failure == Seq::<char>::empty()
            &&& !files.contains(path)
            &&& exists|j: int| 0 <= j < names.len() && path == below(dir, #[trigger] names[j])
        } by {
            if i < earlier.len() {
                assert(filled[i] == earlier[i]);
                let path = filled[i]->Write_path;
                let j = choose|j: int| 0 <= j < fewer.len() && path == below(
                    dir,
                    #[trigger] fewer[j],
                );
                assert(fewer[j] == names[j]);
            } else {
                assert(names.last() == names[names.len() - 1]);
            }
        }
        if 0 <= k < names.len() {
            let path = below(dir, names[k]);
            let effect = Effect::Write { path, text, failure: Seq::empty() };
            if !files.contains(path) {
                if k < fewer.len() {
                    assert(fewer[k] == names[k]);
                    let i = choose|i: int| 0 <= i < earlier.len() && earlier[i] == effect;
                    assert(filled[i] == effect);
                } else {
                    assert(filled.last() == effect);
                }
            }
        }
    }
}

/// A dry run makes up training data: it makes their directory, and then each file of them that is
/// missing, and does nothing else. It refuses to where a foundation model is to be fine-tuned that is
/// not there.
pub proof fn law_dry_runs_make_up_training_data(
    project_dir: Text,
    generation: u32,
    backend: ModelBackend,
    checkpoint: Option<Text>,
    files: Set<Text>,
)
    ensures
        ({
            let r = dry_dataset(project_dir, generation, backend, checkpoint, files);
            let dir = below(
                below(
                    below(project_dir, "training"@),
                    "generation_"@ + decimal_of(generation as nat),
                ),
                "dataset"@,
            );
            &&& r is Ok <==> (backend is Upet ==> (checkpoint matches Some(path) && files.contains(
                path,
            )))
            &&& r matches Ok(effects) ==> {
                &&& effects.len() > 0
                &&& effects[0] == (Effect::CreateDir { path: dir, failure: Seq::<char>::empty() })
                &&& match backend {
                    ModelBackend::Upet => {
                        let text = "# dry-run placeholder dataset\n"@;
                        &&& is_filled(effects, below(dir, "train.extxyz"@), text, files)
                        &&& is_filled(effects, below(dir, "validation.extxyz"@), text, files)
                        &&& is_filled(effects, below(dir, "test.extxyz"@), text, files)
                        &&& forall|i: int|
                            1 <= i < effects.len() ==> ((#[trigger] effects[i]) matches Effect::Write {
                                path,
                                ..
                            } && (path == below(dir, "train.extxyz"@) || path == below(
                                dir,
                                "validation.extxyz"@,
                            ) || path == below(dir, "test.extxyz"@)))
                    },
                    ModelBackend::N2p2 => {
                        let text = "# dry-run placeholder n2p2 dataset\n"@;
                        &&& is_filled(effects, below(dir, "input.data"@), text, files)
                        &&& forall|i: int|
                            1 <= i < effects.len() ==> ((#[trigger] effects[i]) matches Effect::Write {
                                path,
                                ..
                            } && path == below(dir, "input.data"@))
                    },
                }
            }
        }),
{
    let r = dry_dataset(project_dir, generation, backend, checkpoint, files);
    let dir = below(
        below(below(project_dir, "training"@), "generation_"@ + decimal_of(generation as nat)),
        "dataset"@,
    );
    let names = dataset_files(backend);
    let text = placeholder(backend);
    let filled = fill_missing(dir, names, text, files);
    if r is Ok {
        let effects = r->Ok_0;
        assert(effects == seq![
            Effect::CreateDir { path: dir, failure: Seq::<char>::empty() },
        ] + filled);
        assert forall|k: int| 0 <= k < names.len() implies is_filled(
            effects,
            below(dir, #[trigger] names[k]),
            text,
            files,
        ) by {
            lemma_filled(dir, names, text, files, k);
            let effect = Effect::Write {
                path: below(dir, names[k]),
                text,
                failure: Seq::<char>::empty(),
            };
            if filled.contains(effect) {
                let i = choose|i: int| 0 <= i < filled.len() && filled[i] == effect;
                assert(effects[i + 1] == effect);
            }
            if effects.contains(effect) {
                let i = choose|i: int| 0 <= i < effects.len() && effects[i] == effect;
                assert(filled[i - 1] == effect);
            }
        }
        assert(is_filled(effects, below(dir, names[0]), text, files));
        if backend is Upet {
            assert(is_filled(effects, below(dir, names[1]), text, files));
            assert(is_filled(effects, below(dir, names[2]), text, files));
        }
        lemma_filled(dir, names, text, files, 0);
        assert forall|i: int| 1 <= i < effects.len() implies ((
        #[trigger] effects[i]) matches Effect::Write { path, .. } && exists|j: int|
            0 <= j < names.len() && path == below(dir, #[trigger] names[j])) by {
            assert(effects[i] == filled[i - 1]);
        }
    }
}

/// The seed dataset is the extended file where there is one, else the plain file, and else missing.
pub proof fn law_seed_datasets_are_extended_or_plain(project_dir: Text, files: Set<Text>)
    ensures
        ({
            let dir = below(below(project_dir, "setup"@), "training"@);
            let extended = below(dir, "seed_dataset.extxyz"@);
            let plain = below(dir, "seed_dataset.xyz"@);
            match seed_dataset(project_dir, files) {
                Ok(path) => files.contains(path) && (path == extended || path == plain
                    && !files.contains(extended)),
                Err(_) => !files.contains(extended) && !files.contains(plain),
            }
        }),
{
}

} // verus!
