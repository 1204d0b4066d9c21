use vstd::prelude::*;

verus! {

/// Why `explain` cannot go on with the most recent build.
#[derive(Clone, Copy, Debug, PartialEq, Eq, Structural)]
pub enum ExplainError {
    /// No log of a build-like command was found.
    NoRecentBuild,
    /// The last build ran in another working directory.
    WorkingDirMismatch,
    /// The logged command line holds no `build` subcommand.
    OnlyBuildSupported,
    /// The logged build named other than exactly one target pattern.
    OnlyOneTargetPattern,
}

/// The commands whose logs describe a build.
pub open spec fn build_like(c: Seq<char>) -> bool {
    c == "build"@ || c == "test"@ || c == "run"@ || c == "install"@
}

/// Whether `command` is one whose log describes a build.
pub fn is_build_like(command: &String) -> (r: bool)
    ensures
        r == build_like(command@),
{
    let build = "build".to_owned();
    let test = "test".to_owned();
    let run = "run".to_owned();
    let install = "install".to_owned();
    *command == build || *command == test || *command == run || *command == install
}

/// Picks the most recent log of a build-like command. `commands` holds, for
/// each log from oldest to newest, the command read from its file name, or
/// `None` where it could not be read.
pub fn select_build_log(commands: &Vec<Option<String>>) -> (r: Result<usize, ExplainError>)
    ensures
        match r {
            Ok(i) => {
                &&& i < commands@.len()
                &&& commands@[i as int] matches Some(c) && build_like(c@)
                &&& forall|j: int|
                    i < j < commands@.len() ==> !(#[trigger] commands@[j] matches Some(c)
                        && build_like(c@))
            },
            Err(e) => {
                &&& e == ExplainError::NoRecentBuild
                &&& forall|j: int|
                    0 <= j < commands@.len() ==> !(#[trigger] commands@[j] matches Some(c)
                        && build_like(c@))
            },
        },
{
    let mut i: usize = commands.len();
    while i > 0
        invariant
            0 <= i <= commands@.len(),
            forall|j: int|
                i <= j < commands@.len() ==> !(#[trigger] commands@[j] matches Some(c) && build_like(
                    c@,
                )),
        decreases i,
    {
        i = i - 1;
        if let Some(c) = &commands[i] {
            if is_build_like(c) {
                return Ok(i);
            }
        }
    }
    Err(ExplainError::NoRecentBuild)
}

/// Checks that the logged build ran in the current working directory.
pub fn check_working_dir(logged: &String, current: &String) -> (r: Result<(), ExplainError>)
    ensures
        r is Ok <==> logged@ == current@,
        r is Err ==> r == Err::<(), ExplainError>(ExplainError::WorkingDirMismatch),
{
    if *logged == *current {
        Ok(())
    } else {
        Err(ExplainError::WorkingDirMismatch)
    }
}

/// Where the arguments of the logged `build` subcommand start: the first
/// `build` among the expanded command-line arguments.
pub fn build_command_start(args: &Vec<String>) -> (r: Result<usize, ExplainError>)
    ensures
        match r {
            Ok(i) => i < args@.len() && args@[i as int]@ == "build"@ && forall|j: int|
                0 <= j < i ==> (#[trigger] args@[j])@ != "build"@,
            Err(e) => e == ExplainError::OnlyBuildSupported && forall|j: int|
                0 <= j < args@.len() ==> (#[trigger] args@[j])@ != "build"@,
        },
{
    let build = "build".to_owned();
    let mut i: usize = 0;
    while i < args.len()
        invariant
            0 <= i <= args@.len(),
            build@ == "build"@,
            forall|j: int| 0 <= j < i ==> (#[trigger] args@[j])@ != "build"@,
        decreases args@.len() - i,
    {
        if args[i] == build {
            return Ok(i);
        }
        i = i + 1;
    }
    Err(ExplainError::OnlyBuildSupported)
}

/// The one target pattern of the logged build.
pub fn single_target_pattern(patterns: &Vec<String>) -> (r: Result<String, ExplainError>)
    ensures
        patterns@.len() == 1 ==> r is Ok && r->Ok_0 == patterns@[0],
        patterns@.len() != 1 ==> r == Err::<String, ExplainError>(
            ExplainError::OnlyOneTargetPattern,
        ),
{
    if patterns.len() != 1 {
        return Err(ExplainError::OnlyOneTargetPattern);
    }
    Ok(patterns[0].clone())
}

/// The path under which an uploaded explanation is stored, when it is uploaded.
pub fn manifold_path(upload: bool, uuid: &str) -> (r: Option<String>)
    ensures
        !upload ==> r is None,
        upload ==> r is Some && r->0@ == "flat/"@ + uuid@ + "-explain.html"@,
{
    if !upload {
        return None;
    }
    let mut p = "flat/".to_owned();
    p.append(uuid);
    p.append("-explain.html");
    Some(p)
}

} // verus!
