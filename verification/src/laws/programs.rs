//! Where programs are found.
use vstd::prelude::*;
use vstd::utf8::{decode_utf8, valid_utf8};

use crate::cmd::{
    binary_names, candidate_paths, candidates, create_ext3_fs, create_fs, directories, execute_cmd,
    find_binary, first_existing, get_executable, missing_message, names_first_missing,
    program_names, report_failure, set_uuid, thin_check, thin_repair, udev_settle, verify_binaries,
    xfs_growfs, xfs_repair, Binaries, CommandLine, CommandOutput, CommandStep, Ext3Stage,
};
use crate::errors::{ErrorView, StratisError, StratisResult};
use crate::text::{joined, lossy_text, signed_decimal, texts};
use crate::uuids::hyphenated;

verus! {

/// The path of a program is one of the paths at which it may be, it was seen
/// to exist, and no likelier path was. There is none only if none of the paths
/// was seen to exist.
pub proof fn law_likeliest_path(paths: Seq<Seq<char>>, existing: Seq<Seq<char>>)
    ensures
        match first_existing(paths, existing) {
            Some(path) => exists|i: int|
                {
                    &&& 0 <= i < paths.len()
                    &&& #[trigger] paths[i] == path
                    &&& existing.contains(path)
                    &&& forall|j: int| 0 <= j < i ==> !existing.contains(#[trigger] paths[j])
                },
            None => forall|i: int|
                0 <= i < paths.len() ==> !existing.contains(#[trigger] paths[i]),
        },
    decreases paths.len(),
{
    if paths.len() > 0 {
        if existing.contains(paths[0]) {
            assert(paths[0] == paths[0]);
        } else {
            let rest = paths.skip(1);
            law_likeliest_path(rest, existing);
            match first_existing(rest, existing) {
                Some(path) => {
                    let k = choose|k: int|
                        {
                            &&& 0 <= k < rest.len()
                            &&& #[trigger] rest[k] == path
                            &&& existing.contains(path)
                            &&& forall|j: int|
                                0 <= j < k ==> !existing.contains(#[trigger] rest[j])
                        };
                    assert(paths[k + 1] == path);
                    assert forall|j: int| 0 <= j < k + 1 implies !existing.contains(
                        #[trigger] paths[j],
                    ) by {
                        if j > 0 {
                            assert(rest[j - 1] == paths[j]);
                        }
                    }
                },
                None => {
                    assert forall|i: int| 0 <= i < paths.len() implies !existing.contains(
                        #[trigger] paths[i],
                    ) by {
                        if i > 0 {
                            assert(rest[i - 1] == paths[i]);
                        }
                    }
                },
            }
        }
    }
}

/// `name` is the name of a program that the engine may run.
pub open spec fn is_program(name: Seq<char>) -> bool {
    ||| name == "mkfs.xfs"@
    ||| name == "thin_check"@
    ||| name == "thin_repair"@
    ||| name == "udevadm"@
    ||| name == "xfs_db"@
    ||| name == "xfs_growfs"@
}

/// A path is known for `name`.
pub open spec fn has_path(binaries: Binaries, name: Seq<char>) -> bool {
    binaries@.contains_key(name) && binaries@[name] is Some
}

/// A path is known for each of the programs that the engine may run.
pub open spec fn has_six_programs(binaries: Binaries) -> bool {
    &&& has_path(binaries, "mkfs.xfs"@)
    &&& has_path(binaries, "thin_check"@)
    &&& has_path(binaries, "thin_repair"@)
    &&& has_path(binaries, "udevadm"@)
    &&& has_path(binaries, "xfs_db"@)
    &&& has_path(binaries, "xfs_growfs"@)
}

/// `error` names a program for which no path is known, and the directories in
/// which programs are looked for.
pub open spec fn tells_of_missing(binaries: Binaries, error: StratisError) -> bool {
    &&& error matches StratisError::Error(message)
    &&& exists|name: Seq<char>|
        {
            &&& #[trigger] is_program(name)
            &&& !has_path(binaries, name)
            &&& message@ == "Unable to find executable \""@ + name
                + "\" in any of \"/usr/sbin\", \"/sbin\", \"/usr/bin\", \"/bin\""@
        }
}

proof fn lemma_program_places()
    ensures
        program_names().len() == 6,
        program_names()[0] == "mkfs.xfs"@,
        program_names()[1] == "thin_check"@,
        program_names()[2] == "thin_repair"@,
        program_names()[3] == "udevadm"@,
        program_names()[4] == "xfs_db"@,
        program_names()[5] == "xfs_growfs"@,
        forall|name: Seq<char>| #[trigger] program_names().contains(name) == is_program(name),
{
    assert forall|name: Seq<char>| #[trigger]
        program_names().contains(name) == is_program(name) by {
        if program_names().contains(name) {
            let i = program_names().index_of(name);
            assert(program_names()[i] == name);
        }
        assert(program_names().contains(program_names()[0]));
        assert(program_names().contains(program_names()[1]));
        assert(program_names().contains(program_names()[2]));
        assert(program_names().contains(program_names()[3]));
        assert(program_names().contains(program_names()[4]));
        assert(program_names().contains(program_names()[5]));
    }
}

pub(crate) proof fn lemma_six_programs(binaries: Binaries)
    ensures
        binaries.all_found() == has_six_programs(binaries),
{
    lemma_program_places();
    if binaries.all_found() {
        assert(binaries.found("mkfs.xfs"@));
        assert(binaries.found("thin_check"@));
        assert(binaries.found("thin_repair"@));
        assert(binaries.found("udevadm"@));
        assert(binaries.found("xfs_db"@));
        assert(binaries.found("xfs_growfs"@));
    }
    if has_six_programs(binaries) {
        assert forall|name: Seq<char>| program_names().contains(name) implies #[trigger]
            binaries.found(name) by {
            assert(is_program(name));
        }
    }
}

proof fn lemma_quoted_directories()
    ensures
        "\" in any of "@ + joined(
            directories().map_values(|directory: Seq<char>| "\""@ + directory + "\""@),
            ", "@,
        ) == "\" in any of \"/usr/sbin\", \"/sbin\", \"/usr/bin\", \"/bin\""@,
{
    reveal_strlit("\"");
    reveal_strlit(", ");
    reveal_strlit("/usr/sbin");
    reveal_strlit("/sbin");
    reveal_strlit("/usr/bin");
    reveal_strlit("/bin");
    reveal_strlit("\" in any of ");
    reveal_strlit("\" in any of \"/usr/sbin\", \"/sbin\", \"/usr/bin\", \"/bin\"");
    let quoted = directories().map_values(|directory: Seq<char>| "\""@ + directory + "\""@);
    let three = quoted.drop_last();
    let two = three.drop_last();
    let one = two.drop_last();
    assert(one.len() == 1 && one[0] == quoted[0]);
    assert(joined(one, ", "@) == quoted[0]);
    assert(joined(two, ", "@) == quoted[0] + ", "@ + quoted[1]);
    assert(joined(three, ", "@) == quoted[0] + ", "@ + quoted[1] + ", "@ + quoted[2]);
    assert(joined(quoted, ", "@) == quoted[0] + ", "@ + quoted[1] + ", "@ + quoted[2] + ", "@
        + quoted[3]);
    assert("\" in any of "@ + joined(quoted, ", "@)
        =~= "\" in any of \"/usr/sbin\", \"/sbin\", \"/usr/bin\", \"/bin\""@);
}

pub(crate) proof fn lemma_tells_of_missing(binaries: Binaries, error: StratisError)
    requires
        names_first_missing(binaries@, error@),
    ensures
        tells_of_missing(binaries, error),
{
    lemma_program_places();
    lemma_quoted_directories();
    let i = choose|i: int|
        {
            &&& 0 <= i < program_names().len()
            &&& binaries@[#[trigger] program_names()[i]] is None
            &&& forall|j: int| 0 <= j < i ==> binaries@[#[trigger] program_names()[j]] is Some
            &&& error@ == ErrorView::Error(missing_message(program_names()[i]))
        };
    let name = program_names()[i];
    assert(program_names().contains(name));
    assert(is_program(name));
    assert(missing_message(name) =~= "Unable to find executable \""@ + name
        + "\" in any of \"/usr/sbin\", \"/sbin\", \"/usr/bin\", \"/bin\""@);
}

/// The programs are there exactly where a path is known for each of the six. If
/// not, the error names one for which none is, and where it was looked for.
pub proof fn law_verified_programs(binaries: &Binaries, result: StratisResult<()>)
    requires
        call_ensures(verify_binaries, (binaries,), result),
    ensures
        result is Ok == has_six_programs(*binaries),
        result matches Err(error) ==> tells_of_missing(*binaries, error),
{
    lemma_six_programs(*binaries);
    if let Err(error) = result {
        lemma_tells_of_missing(*binaries, error);
    }
}

/// The path of the program `name` in `directory`: an absolute name is a path of
/// its own.
pub open spec fn place(directory: Seq<char>, name: Seq<char>) -> Seq<char> {
    if name.len() > 0 && name[0] == '/' {
        name
    } else {
        directory + "/"@ + name
    }
}

/// `path` is among `existing`.
pub open spec fn exists_at(path: Seq<char>, existing: Seq<String>) -> bool {
    exists|j: int| 0 <= j < existing.len() && (#[trigger] existing[j])@ == path
}

/// `path` is what looking for the program `name` gives: the first of its four
/// places that exists, and none if none of them does.
pub open spec fn is_looked_up(
    name: Seq<char>,
    existing: Seq<String>,
    path: Option<Seq<char>>,
) -> bool {
    let first = place("/usr/sbin"@, name);
    let second = place("/sbin"@, name);
    let third = place("/usr/bin"@, name);
    let fourth = place("/bin"@, name);
    if exists_at(first, existing) {
        path == Some(first)
    } else if exists_at(second, existing) {
        path == Some(second)
    } else if exists_at(third, existing) {
        path == Some(third)
    } else if exists_at(fourth, existing) {
        path == Some(fourth)
    } else {
        path is None
    }
}

proof fn lemma_looked_up(name: Seq<char>, existing: Seq<String>)
    ensures
        is_looked_up(name, existing, first_existing(candidates(name), texts(existing))),
{
    let paths = candidates(name);
    let found = texts(existing);
    assert(paths.len() == 4);
    assert(paths[0] == place("/usr/sbin"@, name));
    assert(paths[1] == place("/sbin"@, name));
    assert(paths[2] == place("/usr/bin"@, name));
    assert(paths[3] == place("/bin"@, name));
    assert forall|path: Seq<char>| #[trigger] found.contains(path) == exists_at(
        path,
        existing,
    ) by {
        if found.contains(path) {
            let j = found.index_of(path);
            assert(existing[j]@ == path);
        }
        if exists_at(path, existing) {
            let j = choose|j: int| 0 <= j < existing.len() && (#[trigger] existing[j])@ == path;
            assert(found[j] == path);
        }
    }
    reveal_with_fuel(first_existing, 5);
    assert(paths.skip(1)[0] == paths[1]);
    assert(paths.skip(1).skip(1)[0] == paths[2]);
    assert(paths.skip(1).skip(1).skip(1)[0] == paths[3]);
}

/// A program is looked for in four directories, in this order, by whatever name
/// it has. The places are told for each name.
pub proof fn law_program_search(
    name: &str,
    existing: &Vec<String>,
    path: Option<String>,
    places: Vec<String>,
)
    requires
        call_ensures(find_binary, (name, existing), path),
        call_ensures(candidate_paths, (name,), places),
    ensures
        path matches Some(found) ==> is_looked_up(name@, existing@, Some(found@)),
        path is None ==> is_looked_up(name@, existing@, None),
        places@.len() == 4,
        places@[0]@ == place("/usr/sbin"@, name@),
        places@[1]@ == place("/sbin"@, name@),
        places@[2]@ == place("/usr/bin"@, name@),
        places@[3]@ == place("/bin"@, name@),
{
    lemma_looked_up(name@, existing@);
    assert(texts(places@).len() == places@.len());
    assert(candidates(name@).len() == 4);
    assert(texts(places@)[0] == places@[0]@);
    assert(texts(places@)[1] == places@[1]@);
    assert(texts(places@)[2] == places@[2]@);
    assert(texts(places@)[3] == places@[3]@);
}

/// Each of the six programs, and nothing else, is looked for among the paths that
/// exist, and known where it was found.
pub proof fn law_located_programs(
    existing: &Vec<String>,
    binaries: Binaries,
    names: Vec<String>,
    name: Seq<char>,
)
    requires
        call_ensures(Binaries::locate, (existing,), binaries),
        call_ensures(binary_names, (), names),
    ensures
        binaries@.contains_key(name) == is_program(name),
        is_program(name) ==> is_looked_up(name, existing@, binaries@[name]),
        names@.len() == 6,
        forall|i: int| 0 <= i < 6 ==> is_program(#[trigger] names@[i]@),
        is_program(name) ==> exists|i: int| 0 <= i < 6 && (#[trigger] names@[i])@ == name,
{
    lemma_program_places();
    lemma_looked_up(name, existing@);
    assert(program_names().contains(name) == is_program(name));
    assert(texts(names@).len() == names@.len());
    assert forall|i: int| 0 <= i < 6 implies is_program(#[trigger] names@[i]@) by {
        assert(texts(names@)[i] == names@[i]@);
        assert(program_names().contains(program_names()[i]));
    }
    if is_program(name) {
        let i = program_names().index_of(name);
        assert(texts(names@)[i] == names@[i]@);
    }
}

/// A program that was found is run by the path at which it was found.
pub proof fn law_program_path<'a>(binaries: &'a Binaries, name: &str, path: &'a str, found: bool)
    requires
        call_ensures(Binaries::has_found, (binaries, name), found),
        call_ensures(get_executable, (binaries, name), path),
    ensures
        found == has_path(*binaries, name@),
        found ==> binaries@[name@] == Some(path@),
{
}

/// `command` is `program` with the arguments `args`, in their order.
pub open spec fn runs(command: CommandLine, program: Seq<char>, args: Seq<Seq<char>>) -> bool {
    &&& command.program@ == program
    &&& command.args@.len() == args.len()
    &&& forall|i: int| 0 <= i < args.len() ==> (#[trigger] command.args@[i])@ == args[i]
}

proof fn lemma_runs(command: CommandLine)
    ensures
        runs(command, command@.program, command@.args),
{
    assert(texts(command.args@).len() == command.args@.len());
    assert forall|i: int| 0 <= i < command@.args.len() implies (#[trigger] command.args@[i])@
        == command@.args[i] by {}
}

/// What each command runs: the program where it was found, on the device or the
/// mount point that was given, with the UUID that was given.
pub proof fn law_commands(
    binaries: &Binaries,
    node: &str,
    other: &str,
    uuid: u128,
    create: CommandLine,
    grow: CommandLine,
    set: CommandLine,
    check: CommandLine,
    repair: CommandLine,
    settle: CommandLine,
    look: CommandLine,
)
    requires
        call_ensures(create_fs, (binaries, node, uuid), create),
        call_ensures(xfs_growfs, (binaries, node), grow),
        call_ensures(set_uuid, (binaries, node, uuid), set),
        call_ensures(thin_check, (binaries, node), check),
        call_ensures(thin_repair, (binaries, node, other), repair),
        call_ensures(udev_settle, (binaries,), settle),
        call_ensures(xfs_repair, (node,), look),
        has_six_programs(*binaries),
    ensures
        runs(
            create,
            binaries@["mkfs.xfs"@]->0,
            seq!["-f"@, "-q"@, node@, "-m"@, "uuid="@ + hyphenated(uuid)],
        ),
        runs(grow, binaries@["xfs_growfs"@]->0, seq![node@, "-d"@]),
        runs(
            set,
            binaries@["xfs_db"@]->0,
            seq!["-x"@, "-c uuid "@ + hyphenated(uuid), node@],
        ),
        runs(check, binaries@["thin_check"@]->0, seq!["-q"@, node@]),
        runs(repair, binaries@["thin_repair"@]->0, seq!["-i"@, node@, "-o"@, other@]),
        runs(settle, binaries@["udevadm"@]->0, seq!["settle"@]),
        runs(look, "xfs_repair"@, seq!["-n"@, node@]),
{
    lemma_runs(create);
    lemma_runs(grow);
    lemma_runs(set);
    lemma_runs(check);
    lemma_runs(repair);
    lemma_runs(settle);
    lemma_runs(look);
}

/// An ext3 filesystem is made only on a device that was wiped first, and what
/// went wrong with the wiping or the making is the result.
pub proof fn law_ext3(
    node: &str,
    last: Option<(Ext3Stage, StratisResult<()>)>,
    step: CommandStep,
)
    requires
        call_ensures(create_ext3_fs, (node, last), step),
    ensures
        last is None ==> (step matches CommandStep::Run(Ext3Stage::Wipe, command) && runs(
            command,
            "wipefs"@,
            seq!["-a"@, node@],
        )),
        last matches Some((Ext3Stage::Wipe, wiped)) ==> {
            &&& wiped is Ok ==> (step matches CommandStep::Run(Ext3Stage::Make, command) && runs(
                command,
                "mkfs.ext3"@,
                seq![node@],
            ))
            &&& wiped is Err ==> step == CommandStep::Finished(wiped)
        },
        last matches Some((Ext3Stage::Make, made)) ==> step == CommandStep::Finished(made),
{
    if let CommandStep::Run(_, command) = step {
        lemma_runs(command);
    }
}

/// A command goes well exactly where it could be run and reported success. If it
/// could not be run, the error names it and says why. If it failed, the error
/// names it and gives its exit code, or that a signal ended it, and what it
/// wrote.
pub proof fn law_command_result(
    cmd: &str,
    outcome: &Result<CommandOutput, String>,
    result: StratisResult<()>,
)
    requires
        call_ensures(execute_cmd, (cmd, outcome), result),
    ensures
        result is Ok == (outcome matches Ok(output) && output.success),
        outcome matches Err(err) ==> {
            &&& result matches Err(StratisError::Error(message))
            &&& message@ == "Failed to execute command "@ + cmd@ + ", err: "@ + err@
        },
        outcome matches Ok(output) ==> (!output.success ==> {
            &&& result matches Err(error)
            &&& tells_of_failure(
                error,
                cmd@,
                output.code,
                lossy_text(output.stdout@),
                lossy_text(output.stderr@),
            )
        }),
        outcome matches Ok(output) ==> (!output.success ==> {
            &&& valid_utf8(output.stdout@) ==> lossy_text(output.stdout@) == decode_utf8(
                output.stdout@,
            )
            &&& valid_utf8(output.stderr@) ==> lossy_text(output.stderr@) == decode_utf8(
                output.stderr@,
            )
        }),
{
}

/// `error` says that the command `cmd` failed, how it ended, and what it wrote.
pub open spec fn tells_of_failure(
    error: StratisError,
    cmd: Seq<char>,
    code: Option<i32>,
    stdout: Seq<char>,
    stderr: Seq<char>,
) -> bool {
    let ended = if code is Some {
        signed_decimal(code->0 as int)
    } else {
        "process terminated by signal"@
    };
    &&& error matches StratisError::Error(message)
    &&& message@ == "Command failed: cmd: "@ + cmd + ", exit reason: "@ + ended + " stdout: "@
        + stdout + " stderr: "@ + stderr
}

/// What is told of a command that failed.
pub proof fn law_failure_report(
    cmd: &str,
    code: Option<i32>,
    stdout: &str,
    stderr: &str,
    error: StratisError,
)
    requires
        call_ensures(report_failure, (cmd, code, stdout, stderr), error),
    ensures
        tells_of_failure(error, cmd@, code, stdout@, stderr@),
{
}

/// Programs can be looked for and judged whatever is there, and a command can be
/// built wherever its program was found.
pub proof fn law_commands_are_admitted(
    binaries: &Binaries,
    existing: &Vec<String>,
    node: &str,
    other: &str,
    uuid: u128,
    outcome: &Result<CommandOutput, String>,
    last: Option<(Ext3Stage, StratisResult<()>)>,
)
    ensures
        call_requires(find_binary, (node, existing)),
        call_requires(Binaries::locate, (existing,)),
        call_requires(verify_binaries, (binaries,)),
        call_requires(execute_cmd, (node, outcome)),
        call_requires(create_ext3_fs, (node, last)),
        call_requires(xfs_repair, (node,)),
        has_path(*binaries, node@) ==> call_requires(get_executable, (binaries, node)),
        has_path(*binaries, "mkfs.xfs"@) ==> call_requires(create_fs, (binaries, node, uuid)),
        has_path(*binaries, "xfs_growfs"@) ==> call_requires(xfs_growfs, (binaries, node)),
        has_path(*binaries, "xfs_db"@) ==> call_requires(set_uuid, (binaries, node, uuid)),
        has_path(*binaries, "thin_check"@) ==> call_requires(thin_check, (binaries, node)),
        has_path(*binaries, "thin_repair"@) ==> call_requires(
            thin_repair,
            (binaries, node, other),
        ),
        has_path(*binaries, "udevadm"@) ==> call_requires(udev_settle, (binaries,)),
{
}

/// A program that is found exists where it is found, and a program that exists in
/// one of the four directories is found.
pub proof fn law_found_program_exists(
    name: &str,
    existing: &Vec<String>,
    path: Option<String>,
    j: int,
)
    requires
        call_ensures(find_binary, (name, existing), path),
        0 <= j < existing@.len(),
        name@.len() > 0 && name@[0] != '/',
    ensures
        path matches Some(found) ==> exists|k: int|
            0 <= k < existing@.len() && (#[trigger] existing@[k])@ == found@,
        existing@[j]@ == "/usr/sbin"@ + "/"@ + name@ ==> (path matches Some(found) && found@
            == existing@[j]@),
        existing@[j]@ == "/sbin"@ + "/"@ + name@ || existing@[j]@ == "/usr/bin"@ + "/"@ + name@
            || existing@[j]@ == "/bin"@ + "/"@ + name@ ==> path is Some,
        path matches Some(found) ==> found@ == "/usr/sbin"@ + "/"@ + name@ || found@ == "/sbin"@
            + "/"@ + name@ || found@ == "/usr/bin"@ + "/"@ + name@ || found@ == "/bin"@ + "/"@
            + name@,
{
    lemma_looked_up(name@, existing@);
    assert(exists_at(existing@[j]@, existing@));
}

/// The programs are verified exactly where a path is known for each.
pub proof fn law_each_program_is_needed(binaries: &Binaries, result: StratisResult<()>)
    requires
        call_ensures(verify_binaries, (binaries,), result),
    ensures
        result is Ok == ({
            &&& binaries@.contains_key("mkfs.xfs"@) && binaries@["mkfs.xfs"@] is Some
            &&& binaries@.contains_key("thin_check"@) && binaries@["thin_check"@] is Some
            &&& binaries@.contains_key("thin_repair"@) && binaries@["thin_repair"@] is Some
            &&& binaries@.contains_key("udevadm"@) && binaries@["udevadm"@] is Some
            &&& binaries@.contains_key("xfs_db"@) && binaries@["xfs_db"@] is Some
            &&& binaries@.contains_key("xfs_growfs"@) && binaries@["xfs_growfs"@] is Some
        }),
{
    lemma_six_programs(*binaries);
}

} // verus!
