//! Where the parts of a project and of an installation lie.
//!
//! Every path here is text with `/` between its parts, on every platform. Where a path is handed to
//! the system, the separator of the platform takes the place of `/`.
use crate::effects::Effect;
use crate::number::{decimal, decimal_of};
use crate::os_path::{OsPath, text_of_path};
use crate::text::{Text, chars_of, option_view, result_view, same, text2, text3, views};
use vstd::prelude::*;

verus! {

/// `part` below `base`. A part that starts at the root stands for itself.
pub open spec fn below(base: Text, part: Text) -> Text {
    if part.len() > 0 && part[0] == '/' {
        part
    } else if base.len() == 0 || base.last() == '/' {
        base + part
    } else {
        base + "/"@ + part
    }
}

/// `part` below `base`.
pub fn child(base: &str, part: &str) -> (r: String)
    ensures
        r@ == below(base@, part@),
{
    let outer = chars_of(base);
    let inner = chars_of(part);
    if inner.len() > 0 && inner[0] == '/' {
        part.to_owned()
    } else if outer.len() == 0 || outer[outer.len() - 1] == '/' {
        text2(base, part)
    } else {
        text3(base, "/", part)
    }
}

/// `third` below `second` below `first` below `base`.
pub fn descendant(base: &str, first: &str, second: &str, third: &str) -> (r: String)
    ensures
        r@ == below(below(below(base@, first@), second@), third@),
{
    let a = child(base, first);
    let b = child(a.as_str(), second);
    child(b.as_str(), third)
}

/// `second` below `first` below `base`.
pub fn grandchild(base: &str, first: &str, second: &str) -> (r: String)
    ensures
        r@ == below(below(base@, first@), second@),
{
    let a = child(base, first);
    child(a.as_str(), second)
}

/// The name of what belongs to a generation.
pub open spec fn generation_name(generation: u32) -> Text {
    "generation_"@ + decimal_of(generation as nat)
}

/// The name of what belongs to a generation.
pub fn generation_dir_name(generation: u32) -> (r: String)
    ensures
        r@ == generation_name(generation),
{
    let number = decimal(generation as u64);
    text2("generation_", number.as_str())
}

/// Where what `part` names of a generation lies.
pub open spec fn generation_part(project_dir: Text, part: Text, generation: u32) -> Text {
    below(below(project_dir, part), generation_name(generation))
}

/// Where what `part` names of a generation lies.
pub fn generation_dir(project_dir: &str, part: &str, generation: u32) -> (r: String)
    ensures
        r@ == generation_part(project_dir@, part@, generation),
{
    let name = generation_dir_name(generation);
    grandchild(project_dir, part, name.as_str())
}

/// Where the structures that a generation selected lie.
pub open spec fn selected_file(project_dir: Text, generation: u32) -> Text {
    below(below(project_dir, "selected_structures"@), generation_name(generation) + ".xyz"@)
}

/// Where the structures that a generation selected lie.
pub fn selected_structures(project_dir: &str, generation: u32) -> (r: String)
    ensures
        r@ == selected_file(project_dir@, generation),
{
    let name = generation_dir_name(generation).concat(".xyz");
    grandchild(project_dir, "selected_structures", name.as_str())
}

/// A directory that may be the root of the repository, and what was found in it.
#[derive(Debug)]
pub struct Ancestor {
    /// The directory.
    pub path: String,
    /// Whether it holds `Cargo.toml`.
    pub has_manifest: bool,
    /// Whether it holds the directory `python`.
    pub has_python: bool,
    /// Whether it holds `pixi.toml`.
    pub has_pixi: bool,
}

impl Ancestor {
    /// Whether the directory is the root of the repository.
    pub open spec fn is_root(self) -> bool {
        self.has_manifest && self.has_python && self.has_pixi
    }
}

/// The first of the directories that is the root of the repository.
pub open spec fn first_root(ancestors: Seq<Ancestor>) -> Result<Text, Text>
    decreases ancestors.len(),
{
    if ancestors.len() == 0 {
        Err("Could not locate the ALCHEMIST repository."@)
    } else if ancestors[0].is_root() {
        Ok(ancestors[0].path@)
    } else {
        first_root(ancestors.drop_first())
    }
}

/// The root of the repository: the first of the directories, from the one of the executable up,
/// that holds what the root holds.
pub fn repository_root(ancestors: &Vec<Ancestor>) -> (r: Result<String, String>)
    ensures
        result_view(r) == first_root(ancestors@),
{
    let mut i: usize = 0;
    assert(ancestors@.skip(0) =~= ancestors@);
    while i < ancestors.len()
        invariant
            i <= ancestors@.len(),
            first_root(ancestors@.skip(i as int)) == first_root(ancestors@),
        decreases ancestors@.len() - i,
    {
        assert(ancestors@.skip(i as int).drop_first() =~= ancestors@.skip(i + 1));
        let dir = &ancestors[i];
        if dir.has_manifest && dir.has_python && dir.has_pixi {
            return Ok(dir.path.clone());
        }
        i += 1;
    }
    assert(ancestors@.skip(i as int) =~= Seq::<Ancestor>::empty());
    Err("Could not locate the ALCHEMIST repository.".to_owned())
}

/// Where an installation lies: where the environment says, and else in the local data directory.
pub open spec fn default_home(from_environment: Option<Text>, data_dir: Option<Text>) -> Result<
    Text,
    Text,
> {
    match (from_environment, data_dir) {
        (Some(path), _) => Ok(path),
        (None, Some(base)) => Ok(below(base, "alchemist"@)),
        (None, None) => Err("Could not determine local data directory"@),
    }
}

/// Where an installation lies. `from_environment` is what `ALCHEMIST_HOME` says, and `data_dir` the
/// local data directory of the platform.
pub fn home_in(from_environment: &Option<String>, data_dir: &Option<String>) -> (r: Result<
    String,
    String,
>)
    ensures
        result_view(r) == default_home(option_view(*from_environment), option_view(*data_dir)),
{
    match from_environment {
        Some(path) => Ok(path.clone()),
        None => match data_dir {
            Some(base) => Ok(child(base.as_str(), "alchemist")),
            None => Err("Could not determine local data directory".to_owned()),
        },
    }
}

/// `dirs::data_local_dir`: the local data directory of the platform, where it has one, as the text
/// that it is or else by its bytes. Which directory it is depends on the environment and on the
/// account of the user, so nothing is claimed of it.
#[verifier::external_body]
fn local_data_dir() -> (r: Option<OsPath>) {
    dirs::data_local_dir().map(
        |path|
            match path.into_os_string().into_string() {
                Ok(text) => OsPath::Unicode(text),
                Err(raw) => OsPath::Raw(raw.into_encoded_bytes()),
            },
    )
}

/// A path that may be missing, as text.
pub open spec fn path_text(path: Option<OsPath>) -> Option<Text> {
    match path {
        Some(path) => Some(path.text()),
        None => None,
    }
}

/// Where an installation lies. `from_environment` is what `ALCHEMIST_HOME` says; where it says
/// nothing, the platform is asked for its local data directory.
pub fn default_installed_home(from_environment: &Option<String>) -> (r: Result<String, String>)
    ensures
        from_environment matches Some(path) ==> result_view(r) == Ok::<Text, Text>(path@),
        exists|data_dir: Option<OsPath>|
            result_view(r) == default_home(
                option_view(*from_environment),
                #[trigger] path_text(data_dir),
            ),
{
    let found = match from_environment {
        Some(_) => None,
        None => local_data_dir(),
    };
    let data_dir = match &found {
        Some(path) => Some(text_of_path(path)),
        None => None,
    };
    assert(option_view(data_dir) == path_text(found));
    home_in(from_environment, &data_dir)
}

/// The installation, where there is one.
pub open spec fn existing_home(home: Result<Text, Text>, exists: bool) -> Result<Text, Text> {
    match home {
        Err(e) => Err(e),
        Ok(path) => if exists {
            Ok(path)
        } else {
            Err("ALCHEMIST is not initialized.\nRun `cargo run -- --init` first."@)
        },
    }
}

/// The installation: `home` is where it has to lie, and `exists` says whether something lies there.
pub fn installed_home(home: Result<String, String>, exists: bool) -> (r: Result<String, String>)
    ensures
        result_view(r) == existing_home(result_view(home), exists),
{
    match home {
        Err(e) => Err(e),
        Ok(path) => if exists {
            Ok(path)
        } else {
            Err("ALCHEMIST is not initialized.\nRun `cargo run -- --init` first.".to_owned())
        },
    }
}

/// What was found of where the program runs and is installed.
pub struct HomeProbe {
    /// The parts of the path of the executable.
    pub exe_components: Vec<String>,
    /// The directories above the executable, the nearest first.
    pub ancestors: Vec<Ancestor>,
    /// Where the installation has to lie, or why that is not known.
    pub home: Result<String, String>,
    /// Whether there is something where the installation has to lie.
    pub home_exists: bool,
}

impl HomeProbe {
    /// The directory that holds the scripts and environments: the repository for an executable that
    /// lies below a directory `target`, and else the installation.
    pub open spec fn scheduler(self) -> Result<Text, Text> {
        if views(self.exe_components@).contains("target"@) {
            first_root(self.ancestors@)
        } else {
            existing_home(result_view(self.home), self.home_exists)
        }
    }
}

/// The directory that holds the scripts and environments.
pub fn scheduler_home(probe: &HomeProbe) -> (r: Result<String, String>)
    ensures
        result_view(r) == probe.scheduler(),
{
    let ghost all = views(probe.exe_components@);
    let mut i: usize = 0;
    while i < probe.exe_components.len()
        invariant
            i <= probe.exe_components@.len(),
            all == views(probe.exe_components@),
            forall|j: int| 0 <= j < i ==> all[j] != "target"@,
        decreases probe.exe_components@.len() - i,
    {
        if same(probe.exe_components[i].as_str(), "target") {
            assert(all[i as int] == "target"@);
            return repository_root(&probe.ancestors);
        }
        i += 1;
    }
    let home = match &probe.home {
        Ok(path) => Ok(path.clone()),
        Err(e) => Err(e.clone()),
    };
    installed_home(home, probe.home_exists)
}

/// Which cache directories the environment sets already.
#[derive(Clone, Copy, PartialEq, Eq, Structural, Debug)]
pub struct CacheEnvironment {
    /// Whether `PIXI_CACHE_DIR` is set.
    pub pixi: bool,
    /// Whether `UV_CACHE_DIR` is set.
    pub uv: bool,
    /// Whether `XDG_CACHE_HOME` is set.
    pub xdg: bool,
}

/// A variable of the environment of a command.
#[derive(Debug)]
pub struct Variable<T> {
    /// Its name.
    pub key: T,
    /// Its value.
    pub value: T,
}

impl<T: View> View for Variable<T> {
    type V = Variable<T::V>;

    open spec fn view(&self) -> Variable<T::V> {
        Variable { key: self.key@, value: self.value@ }
    }
}

/// A command to be run.
#[derive(Debug)]
pub struct CommandLine {
    /// The program.
    pub program: String,
    /// The directory in which it runs.
    pub current_dir: String,
    /// What has to be done before: the cache directories that have to be made.
    pub effects: Vec<Effect<String>>,
    /// The variables that are added to its environment.
    pub variables: Vec<Variable<String>>,
    /// Its arguments.
    pub arguments: Vec<String>,
    /// What is said where it cannot be started, before the reason.
    pub failure: String,
}

/// The cache directories that a command is given: those that the environment does not set, below
/// the cache directory of the installation.
pub open spec fn cache_variables(home: Text, set: CacheEnvironment) -> Seq<Variable<Text>> {
    let cache = below(home, "cache"@);
    (if set.pixi {
        Seq::empty()
    } else {
        seq![Variable { key: "PIXI_CACHE_DIR"@, value: below(cache, "pixi"@) }]
    }) + (if set.uv {
        Seq::empty()
    } else {
        seq![Variable { key: "UV_CACHE_DIR"@, value: below(cache, "uv"@) }]
    }) + (if set.xdg {
        Seq::empty()
    } else {
        seq![Variable { key: "XDG_CACHE_HOME"@, value: below(cache, "xdg"@) }]
    })
}

/// Making the directories that variables name; `failure` is what is said where that fails.
pub open spec fn make_directories(variables: Seq<Variable<Text>>, failure: Text) -> Seq<
    Effect<Text>,
> {
    variables.map_values(|v: Variable<Text>| Effect::CreateDir { path: v.value, failure })
}

/// Gives a command a cache directory where the environment sets none.
fn set_default_env_path(
    command: &mut CommandLine,
    key: &str,
    path: String,
    set: bool,
    failure: &str,
)
    requires
        views(old(command).effects@) == make_directories(
            views(old(command).variables@),
            failure@,
        ),
    ensures
        views(final(command).variables@) == (if set {
            views(old(command).variables@)
        } else {
            views(old(command).variables@).push(Variable { key: key@, value: path@ })
        }),
        views(final(command).effects@) == make_directories(
            views(final(command).variables@),
            failure@,
        ),
        final(command).program == old(command).program,
        final(command).current_dir == old(command).current_dir,
        final(command).arguments == old(command).arguments,
        final(command).failure == old(command).failure,
{
    if set {
        return;
    }
    let effect = Effect::CreateDir { path: path.clone(), failure: failure.to_owned() };
    let variable = Variable { key: key.to_owned(), value: path };
    let ghost (e, v) = (command.effects@, command.variables@);
    proof {
        crate::text::lemma_views_push(e, effect);
        crate::text::lemma_views_push(v, variable);
        assert(make_directories(views(v).push(variable@), failure@) =~= make_directories(
            views(v),
            failure@,
        ).push(effect@));
    }
    command.effects.push(effect);
    command.variables.push(variable);
}

/// The arguments with which Python is run in an environment of the installation at `home`.
pub open spec fn python_arguments(home: Text, environment: Text) -> Seq<Text> {
    seq![
        "run"@,
        "-e"@,
        environment,
        "--manifest-path"@,
        below(home, "pixi.toml"@),
        "python"@,
    ]
}

/// The command that runs Python in an environment of the installation at `home`. `configuring` is
/// what is said where a cache directory cannot be made, and `failure` where the command cannot be
/// started.
pub fn python_command(
    home: &str,
    environment: &str,
    set: CacheEnvironment,
    configuring: &str,
    failure: &str,
) -> (r: CommandLine)
    ensures
        r.program@ == "pixi"@,
        r.current_dir@ == home@,
        views(r.variables@) == cache_variables(home@, set),
        views(r.effects@) == make_directories(cache_variables(home@, set), configuring@),
        views(r.arguments@) == python_arguments(home@, environment@),
        r.failure@ == failure@,
{
    let cache = child(home, "cache");
    let mut arguments: Vec<String> = Vec::new();
    arguments.push("run".to_owned());
    arguments.push("-e".to_owned());
    arguments.push(environment.to_owned());
    arguments.push("--manifest-path".to_owned());
    arguments.push(child(home, "pixi.toml"));
    arguments.push("python".to_owned());
    assert(views(arguments@) =~= python_arguments(home@, environment@));
    let mut command = CommandLine {
        program: "pixi".to_owned(),
        current_dir: home.to_owned(),
        effects: Vec::new(),
        variables: Vec::new(),
        arguments,
        failure: failure.to_owned(),
    };
    assert(views(command.variables@) =~= Seq::<Variable<Text>>::empty());
    assert(views(command.effects@) =~= make_directories(views(command.variables@), configuring@));
    set_default_env_path(
        &mut command,
        "PIXI_CACHE_DIR",
        child(cache.as_str(), "pixi"),
        set.pixi,
        configuring,
    );
    set_default_env_path(
        &mut command,
        "UV_CACHE_DIR",
        child(cache.as_str(), "uv"),
        set.uv,
        configuring,
    );
    set_default_env_path(
        &mut command,
        "XDG_CACHE_HOME",
        child(cache.as_str(), "xdg"),
        set.xdg,
        configuring,
    );
    assert(views(command.variables@) =~= cache_variables(home@, set));
    command
}

/// The command that runs Python in an environment of the installation at `home`. Where it cannot be
/// run, the reason alone is said.
pub fn pixi_python(home: &str, environment: &str, set: CacheEnvironment) -> (r: CommandLine)
    ensures
        r.program@ == "pixi"@,
        r.current_dir@ == home@,
        views(r.variables@) == cache_variables(home@, set),
        views(r.effects@) == make_directories(cache_variables(home@, set), ""@),
        views(r.arguments@) == python_arguments(home@, environment@),
        r.failure@ == ""@,
{
    python_command(home, environment, set, "", "")
}

/// What was found of a path that is to be made absolute.
pub struct PathProbe {
    /// The path as it was given.
    pub path: String,
    /// Whether there is something there.
    pub exists: bool,
    /// The path without links and relative parts, or why there is none.
    pub canonical: Result<String, String>,
    /// The directory above, where the path has one.
    pub parent: Option<String>,
    /// The directory above without links and relative parts, or why there is none.
    pub canonical_parent: Result<String, String>,
    /// The last part of the path, where it has one.
    pub file_name: Option<String>,
}

/// The error of a path that cannot be made absolute.
pub open spec fn unresolved(path: Text, error: Text) -> Text {
    "Failed to resolve "@ + path + ": "@ + error
}

impl PathProbe {
    /// The absolute path: of something that is there its canonical path, and else its name below
    /// the canonical path of its directory.
    pub open spec fn absolute(self) -> Result<Text, Text> {
        if self.exists {
            match self.canonical {
                Ok(path) => Ok(path@),
                Err(e) => Err(unresolved(self.path@, e@)),
            }
        } else {
            match (self.parent, self.file_name, self.canonical_parent) {
                (None, _, _) => Err("Path has no parent: "@ + self.path@),
                (_, None, _) => Err("Path has no file name: "@ + self.path@),
                (Some(parent), Some(name), Ok(canonical)) => Ok(below(canonical@, name@)),
                (Some(parent), Some(name), Err(e)) => Err(unresolved(parent@, e@)),
            }
        }
    }
}

/// The absolute path of what was looked at.
pub fn absolute_path_string(probe: &PathProbe) -> (r: Result<String, String>)
    ensures
        result_view(r) == probe.absolute(),
{
    if probe.exists {
        return match &probe.canonical {
            Ok(path) => Ok(path.clone()),
            Err(e) => Err(
                crate::text::text4("Failed to resolve ", probe.path.as_str(), ": ", e.as_str()),
            ),
        };
    }
    let parent = match &probe.parent {
        Some(parent) => parent,
        None => {
            return Err(text2("Path has no parent: ", probe.path.as_str()));
        },
    };
    let name = match &probe.file_name {
        Some(name) => name,
        None => {
            return Err(text2("Path has no file name: ", probe.path.as_str()));
        },
    };
    match &probe.canonical_parent {
        Ok(canonical) => Ok(child(canonical.as_str(), name.as_str())),
        Err(e) => Err(crate::text::text4("Failed to resolve ", parent.as_str(), ": ", e.as_str())),
    }
}

/// Where `ALCHEMIST_HOME` is set, an installed program looks for its files there and nowhere else.
pub proof fn law_environment_decides_home(
    probe: HomeProbe,
    from_environment: Text,
    data_dir: Option<Text>,
)
    requires
        !views(probe.exe_components@).contains("target"@),
        result_view(probe.home) == default_home(Some(from_environment), data_dir),
        probe.home_exists,
    ensures
        probe.scheduler() == Ok::<Text, Text>(from_environment),
{
}

/// A cache directory that the environment sets is left alone; one that it does not set is given,
/// below the cache directory of the installation, and made.
pub proof fn law_caches_are_defaults(home: Text, set: CacheEnvironment)
    ensures
        (exists|v: Variable<Text>| #[trigger]
            cache_variables(home, set).contains(v) && v.key == "PIXI_CACHE_DIR"@) <==> !set.pixi,
        (exists|v: Variable<Text>| #[trigger]
            cache_variables(home, set).contains(v) && v.key == "UV_CACHE_DIR"@) <==> !set.uv,
        (exists|v: Variable<Text>| #[trigger]
            cache_variables(home, set).contains(v) && v.key == "XDG_CACHE_HOME"@) <==> !set.xdg,
        forall|failure: Text|
            (#[trigger] make_directories(cache_variables(home, set), failure)).len()
                == cache_variables(home, set).len(),
{
    reveal_strlit("PIXI_CACHE_DIR");
    reveal_strlit("UV_CACHE_DIR");
    reveal_strlit("XDG_CACHE_HOME");
    let all = cache_variables(home, set);
    let cache = below(home, "cache"@);
    assert("PIXI_CACHE_DIR"@[0] == 'P' && "UV_CACHE_DIR"@[0] == 'U' && "XDG_CACHE_HOME"@[0] == 'X');
    if !set.pixi {
        assert(all[0] == (Variable { key: "PIXI_CACHE_DIR"@, value: below(cache, "pixi"@) }));
        assert(all.contains(all[0]));
    }
    if !set.uv {
        let k: int = if set.pixi {
            0
        } else {
            1
        };
        assert(all[k] == (Variable { key: "UV_CACHE_DIR"@, value: below(cache, "uv"@) }));
        assert(all.contains(all[k]));
    }
    if !set.xdg {
        let k = all.len() - 1;
        assert(all[k] == (Variable { key: "XDG_CACHE_HOME"@, value: below(cache, "xdg"@) }));
        assert(all.contains(all[k]));
    }
}

} // verus!
