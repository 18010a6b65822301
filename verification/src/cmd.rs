//! The external programs that the engine relies on.
//!
//! For a given machine there is only one place where each program is
//! installed. It is looked for once, in an explicit list of directories, and
//! [`verify_binaries`] tells whether every program was found. Each command
//! names its program by the absolute path that was found.
use vstd::prelude::*;
use vstd::string::*;
use vstd::utf8::{decode_utf8, valid_utf8};

use crate::assoc::AssocMap;
use crate::errors::{fails_with, ErrorView, StratisError, StratisResult};
use crate::text::{
    from_utf8_lossy, join, joined, lossy_text, same_text, signed_decimal, texts, to_signed_decimal,
};
use crate::uuids::{hyphenated, uuid_to_string};

verus! {

pub const MKFS_XFS: &'static str = "mkfs.xfs";

pub const THIN_CHECK: &'static str = "thin_check";

pub const THIN_REPAIR: &'static str = "thin_repair";

pub const UDEVADM: &'static str = "udevadm";

pub const XFS_DB: &'static str = "xfs_db";

pub const XFS_GROWFS: &'static str = "xfs_growfs";

/// The directories in which programs are looked for, in this order.
pub open spec fn directories() -> Seq<Seq<char>> {
    seq!["/usr/sbin"@, "/sbin"@, "/usr/bin"@, "/bin"@]
}

/// The names of the programs that the engine may run.
pub open spec fn program_names() -> Seq<Seq<char>> {
    seq![MKFS_XFS@, THIN_CHECK@, THIN_REPAIR@, UDEVADM@, XFS_DB@, XFS_GROWFS@]
}

/// The path of `name` in `directory`: an absolute `name` stands for itself.
pub open spec fn path_in(directory: Seq<char>, name: Seq<char>) -> Seq<char> {
    if name.len() > 0 && name[0] == '/' {
        name
    } else {
        directory + "/"@ + name
    }
}

/// The path of `name` in each of the directories.
pub open spec fn candidates(name: Seq<char>) -> Seq<Seq<char>> {
    directories().map_values(|directory: Seq<char>| path_in(directory, name))
}

/// The first of `paths` that is among `existing`.
pub open spec fn first_existing(paths: Seq<Seq<char>>, existing: Seq<Seq<char>>) -> Option<
    Seq<char>,
>
    decreases paths.len(),
{
    if paths.len() == 0 {
        None
    } else if existing.contains(paths[0]) {
        Some(paths[0])
    } else {
        first_existing(paths.skip(1), existing)
    }
}

/// The directories in which programs are looked for.
fn search_directories() -> (found: Vec<String>)
    ensures
        texts(found@) == directories(),
{
    let mut found: Vec<String> = Vec::new();
    found.push("/usr/sbin".to_owned());
    found.push("/sbin".to_owned());
    found.push("/usr/bin".to_owned());
    found.push("/bin".to_owned());
    assert(texts(found@) =~= directories());
    found
}

/// The paths at which the program `name` may be, the likeliest first.
pub fn candidate_paths(name: &str) -> (paths: Vec<String>)
    ensures
        texts(paths@) == candidates(name@),
{
    proof {
        reveal_strlit("/");
    }
    let directories = search_directories();
    let absolute = name.unicode_len() > 0 && name.get_char(0) == '/';
    let mut paths: Vec<String> = Vec::new();
    for i in 0..directories.len()
        invariant
            texts(directories@) == self::directories(),
            absolute == (name@.len() > 0 && name@[0] == '/'),
            texts(paths@) == candidates(name@).take(i as int),
    {
        let ghost before = texts(paths@);
        let path = if absolute {
            name.to_owned()
        } else {
            let mut path = directories[i].clone();
            path.append("/");
            path.append(name);
            path
        };
        assert(texts(directories@)[i as int] == directories@[i as int]@);
        assert(path@ == candidates(name@)[i as int]);
        let ghost pushed = path@;
        paths.push(path);
        assert(texts(paths@) =~= before.push(pushed));
        assert(candidates(name@).take(i + 1) =~= candidates(name@).take(i as int).push(
            candidates(name@)[i as int],
        ));
    }
    assert(texts(directories@).len() == 4);
    assert(candidates(name@).take(4) =~= candidates(name@));
    paths
}

/// Whether `text` is one of `list`.
fn listed(text: &str, list: &Vec<String>) -> (found: bool)
    ensures
        found == texts(list@).contains(text@),
{
    for i in 0..list.len()
        invariant
            forall|j: int| 0 <= j < i ==> (#[trigger] texts(list@)[j]) != text@,
    {
        if same_text(list[i].as_str(), text) {
            assert(texts(list@)[i as int] == text@);
            return true;
        }
    }
    false
}

/// The path of the program `name`: the likeliest of its paths that is among
/// `existing`, the paths that were seen to exist. None if no such path is.
pub fn find_binary(name: &str, existing: &Vec<String>) -> (path: Option<String>)
    ensures
        match path {
            Some(found) => first_existing(candidates(name@), texts(existing@)) == Some(found@),
            None => first_existing(candidates(name@), texts(existing@)) is None,
        },
{
    let paths = candidate_paths(name);
    let ghost all = candidates(name@);
    assert(all.skip(0) =~= all);
    for i in 0..paths.len()
        invariant
            all == candidates(name@),
            texts(paths@) == all,
            first_existing(all, texts(existing@)) == first_existing(
                all.skip(i as int),
                texts(existing@),
            ),
    {
        assert(all.skip(i as int)[0] == paths@[i as int]@);
        if listed(paths[i].as_str(), existing) {
            return Some(paths[i].clone());
        }
        assert(all.skip(i as int).skip(1) =~= all.skip(i + 1));
    }
    None
}

/// For each program its path, if some path of it is among `existing`.
pub open spec fn located(existing: Seq<Seq<char>>) -> Map<Seq<char>, Option<Seq<char>>> {
    Map::new(
        |name: Seq<char>| program_names().contains(name),
        |name: Seq<char>| first_existing(candidates(name), existing),
    )
}

/// The names of the programs, for looking each of them up.
pub fn binary_names() -> (names: Vec<String>)
    ensures
        texts(names@) == program_names(),
{
    let mut names: Vec<String> = Vec::new();
    names.push(MKFS_XFS.to_owned());
    names.push(THIN_CHECK.to_owned());
    names.push(THIN_REPAIR.to_owned());
    names.push(UDEVADM.to_owned());
    names.push(XFS_DB.to_owned());
    names.push(XFS_GROWFS.to_owned());
    assert(texts(names@) =~= program_names());
    names
}

/// No two programs have the same name.
proof fn lemma_program_names_distinct()
    ensures
        program_names().no_duplicates(),
{
    reveal_strlit("mkfs.xfs");
    reveal_strlit("thin_check");
    reveal_strlit("thin_repair");
    reveal_strlit("udevadm");
    reveal_strlit("xfs_db");
    reveal_strlit("xfs_growfs");
    assert(MKFS_XFS@.len() == 8);
    assert(THIN_CHECK@.len() == 10 && THIN_CHECK@[0] == 't');
    assert(THIN_REPAIR@.len() == 11);
    assert(UDEVADM@.len() == 7);
    assert(XFS_DB@.len() == 6);
    assert(XFS_GROWFS@.len() == 10 && XFS_GROWFS@[0] == 'x');
}

/// Where each program is, if it was found.
#[derive(Debug)]
pub struct Binaries {
    paths: AssocMap<String, Option<String>>,
}

impl View for Binaries {
    type V = Map<Seq<char>, Option<Seq<char>>>;

    closed spec fn view(&self) -> Map<Seq<char>, Option<Seq<char>>> {
        self.paths@
    }
}

impl Binaries {
    /// The programs are those that the engine may run, in this order.
    #[verifier::type_invariant]
    closed spec fn names_programs(&self) -> bool {
        &&& self.paths.listing().len() == program_names().len()
        &&& forall|i: int|
            0 <= i < program_names().len() ==> (#[trigger] self.paths.listing()[i]).0
                == program_names()[i]
    }

    /// The program `name` was found.
    pub open spec fn found(&self, name: Seq<char>) -> bool {
        self@.contains_key(name) && self@[name] is Some
    }

    /// Every program was found.
    pub open spec fn all_found(&self) -> bool {
        forall|name: Seq<char>| program_names().contains(name) ==> #[trigger] self.found(name)
    }

    /// Looks for every program among `existing`, the paths that were seen to
    /// exist.
    pub fn locate(existing: &Vec<String>) -> (binaries: Binaries)
        ensures
            binaries@ == located(texts(existing@)),
    {
        let names = binary_names();
        let ghost wanted = located(texts(existing@));
        let mut paths: AssocMap<String, Option<String>> = AssocMap::new();
        proof {
            lemma_program_names_distinct();
        }
        for i in 0..names.len()
            invariant
                texts(names@) == program_names(),
                program_names().no_duplicates(),
                wanted == located(texts(existing@)),
                paths.listing().len() == i,
                forall|j: int|
                    0 <= j < i ==> #[trigger] paths.listing()[j] == (
                        program_names()[j],
                        wanted[program_names()[j]],
                    ),
                forall|name: Seq<char>| #[trigger]
                    paths@.contains_key(name) == program_names().take(i as int).contains(name),
                forall|name: Seq<char>|
                    #![trigger paths@[name]]
                    paths@.contains_key(name) ==> paths@[name] == wanted[name],
        {
            let ghost name = program_names()[i as int];
            assert(texts(names@)[i as int] == names@[i as int]@);
            assert(!program_names().take(i as int).contains(name));
            assert(program_names().contains(name));
            let path = find_binary(names[i].as_str(), existing);
            assert(path.deep_view() == wanted[name]);
            paths.insert(names[i].clone(), path);
            assert(program_names().take(i + 1) =~= program_names().take(i as int).push(name));
            assert forall|n: Seq<char>| #[trigger]
                paths@.contains_key(n) == program_names().take(i + 1).contains(n) by {
                let shorter = program_names().take(i as int);
                if shorter.contains(n) {
                    let k = shorter.index_of(n);
                    assert(program_names().take(i + 1)[k] == n);
                }
                assert(program_names().take(i + 1)[i as int] == name);
                if program_names().take(i + 1).contains(n) && n != name {
                    let k = program_names().take(i + 1).index_of(n);
                    assert(shorter[k] == n);
                }
            }
        }
        assert(texts(names@).len() == 6);
        assert(program_names().take(6) =~= program_names());
        assert(paths@ =~= wanted);
        Binaries { paths }
    }

    /// Whether the program `name` was found.
    pub fn has_found(&self, name: &str) -> (found: bool)
        ensures
            found == self.found(name@),
    {
        match self.paths.get(&name.to_owned()) {
            Some(path) => path.is_some(),
            None => false,
        }
    }
}

/// The message of a missing program.
pub open spec fn missing_message(name: Seq<char>) -> Seq<char> {
    "Unable to find executable \""@ + name + "\" in any of "@ + joined(
        directories().map_values(|directory: Seq<char>| "\""@ + directory + "\""@),
        ", "@,
    )
}

/// `error` says that a program is missing, and names the first one that is.
pub open spec fn names_first_missing(
    paths: Map<Seq<char>, Option<Seq<char>>>,
    error: ErrorView,
) -> bool {
    exists|i: int|
        {
            &&& 0 <= i < program_names().len()
            &&& paths[#[trigger] program_names()[i]] is None
            &&& forall|j: int| 0 <= j < i ==> paths[#[trigger] program_names()[j]] is Some
            &&& error == ErrorView::Error(missing_message(program_names()[i]))
        }
}

/// Verifies that all programs that the engine may run were found. It is an
/// error if one is missing; the error names the first one that is.
pub fn verify_binaries(binaries: &Binaries) -> (result: StratisResult<()>)
    ensures
        result is Ok <==> binaries.all_found(),
        result matches Err(e) ==> names_first_missing(binaries@, e@),
{
    proof {
        use_type_invariant(binaries);
    }
    let count = binaries.paths.len();
    for i in 0..count
        invariant
            count == binaries.paths.listing().len(),
            binaries.names_programs(),
            forall|j: int|
                0 <= j < i ==> binaries@.contains_key(#[trigger] program_names()[j])
                    && binaries@[program_names()[j]] is Some,
    {
        let (name, path) = binaries.paths.pair(i);
        assert(binaries.paths.listing()[i as int].0 == program_names()[i as int]);
        if path.is_none() {
            let directories = search_directories();
            let mut quoted: Vec<String> = Vec::new();
            let ghost all = self::directories().map_values(
                |directory: Seq<char>| "\""@ + directory + "\""@,
            );
            for k in 0..directories.len()
                invariant
                    texts(directories@) == self::directories(),
                    all == self::directories().map_values(
                        |directory: Seq<char>| "\""@ + directory + "\""@,
                    ),
                    texts(quoted@) == all.take(k as int),
            {
                let ghost before = texts(quoted@);
                let mut text = "\"".to_owned();
                text.append(directories[k].as_str());
                text.append("\"");
                assert(texts(directories@)[k as int] == directories@[k as int]@);
                assert(text@ == all[k as int]);
                let ghost pushed = text@;
                quoted.push(text);
                assert(texts(quoted@) =~= before.push(pushed));
                assert(all.take(k + 1) =~= all.take(k as int).push(all[k as int]));
            }
            assert(texts(directories@).len() == 4);
            assert(all.take(4) =~= all);
            let mut message = "Unable to find executable \"".to_owned();
            message.append(name.as_str());
            message.append("\" in any of ");
            message.append(join(&quoted, ", ").as_str());
            assert(program_names().contains(program_names()[i as int]));
            assert(!binaries.found(program_names()[i as int]));
            assert(names_first_missing(binaries@, ErrorView::Error(message@)));
            return Err(StratisError::Error(message));
        }
    }
    assert forall|name: Seq<char>| program_names().contains(name) implies #[trigger] binaries.found(
        name,
    ) by {
        let j = program_names().index_of(name);
        assert(program_names()[j] == name);
    }
    Ok(())
}

/// The absolute path of the program `name`, which was found.
pub fn get_executable<'a>(binaries: &'a Binaries, name: &str) -> (path: &'a str)
    requires
        binaries.found(name@),
    ensures
        binaries@[name@] == Some(path@),
{
    match binaries.paths.get(&name.to_owned()) {
        Some(Some(path)) => path.as_str(),
        _ => {
            assert(false);
            ""
        },
    }
}

/// A program with its arguments.
#[derive(Debug, PartialEq, Eq)]
pub struct CommandLine {
    /// The path of the program, or its name.
    pub program: String,
    /// The arguments, in their order.
    pub args: Vec<String>,
}

/// What a [`CommandLine`] says.
#[verifier::ext_equal]
pub struct CommandView {
    pub program: Seq<char>,
    pub args: Seq<Seq<char>>,
}

impl View for CommandLine {
    type V = CommandView;

    open spec fn view(&self) -> CommandView {
        CommandView { program: self.program@, args: texts(self.args@) }
    }
}

impl CommandLine {
    /// `program` without arguments.
    fn new(program: &str) -> (command: CommandLine)
        ensures
            command@ == (CommandView { program: program@, args: Seq::empty() }),
    {
        let command = CommandLine { program: program.to_owned(), args: Vec::new() };
        assert(command@ =~= CommandView { program: program@, args: Seq::empty() });
        command
    }

    /// The same command with one argument more.
    fn arg(self, arg: &str) -> (command: CommandLine)
        ensures
            command@ == (CommandView { program: self@.program, args: self@.args.push(arg@) }),
    {
        let mut args = self.args;
        args.push(arg.to_owned());
        let command = CommandLine { program: self.program, args };
        assert(command@ =~= CommandView { program: self@.program, args: self@.args.push(arg@) });
        command
    }
}

/// What is left of a program that has run.
#[derive(Debug)]
pub struct CommandOutput {
    /// Whether it reported success.
    pub success: bool,
    /// Its exit code; none if a signal ended it.
    pub code: Option<i32>,
    /// What it wrote to its standard output.
    pub stdout: Vec<u8>,
    /// What it wrote to its standard error.
    pub stderr: Vec<u8>,
}

/// Why a program ended: its exit code, or a signal.
pub open spec fn exit_reason(code: Option<i32>) -> Seq<char> {
    match code {
        Some(code) => signed_decimal(code as int),
        None => "process terminated by signal"@,
    }
}

/// The error of the command `cmd` that ran and failed, having written `stdout`
/// and `stderr`.
pub open spec fn failed_command(
    cmd: Seq<char>,
    code: Option<i32>,
    stdout: Seq<char>,
    stderr: Seq<char>,
) -> ErrorView {
    ErrorView::Error(
        "Command failed: cmd: "@ + cmd + ", exit reason: "@ + exit_reason(code) + " stdout: "@
            + stdout + " stderr: "@ + stderr,
    )
}

/// The error of the command `cmd` that could not be run because of `err`.
pub open spec fn unrun_command(cmd: Seq<char>, err: Seq<char>) -> ErrorView {
    ErrorView::Error("Failed to execute command "@ + cmd + ", err: "@ + err)
}

/// Tells of the command `cmd` that ran and failed.
pub fn report_failure(cmd: &str, code: Option<i32>, stdout: &str, stderr: &str) -> (error:
    StratisError)
    ensures
        error@ == failed_command(cmd@, code, stdout@, stderr@),
{
    let reason = match code {
        Some(code) => to_signed_decimal(code),
        None => "process terminated by signal".to_owned(),
    };
    let mut message = "Command failed: cmd: ".to_owned();
    message.append(cmd);
    message.append(", exit reason: ");
    message.append(reason.as_str());
    message.append(" stdout: ");
    message.append(stdout);
    message.append(" stderr: ");
    message.append(stderr);
    StratisError::Error(message)
}

/// Judges how the command `cmd` went: it is an error if the command could not
/// be run, with `outcome` saying why, and if the command itself failed. The
/// error then shows what the command wrote, as it stands where that is
/// well-formed UTF-8.
pub fn execute_cmd(cmd: &str, outcome: &Result<CommandOutput, String>) -> (result: StratisResult<
    (),
>)
    ensures
        match outcome {
            Err(err) => fails_with(result, unrun_command(cmd@, err@)),
            Ok(output) => if output.success {
                result is Ok
            } else {
                &&& fails_with(
                    result,
                    failed_command(
                        cmd@,
                        output.code,
                        lossy_text(output.stdout@),
                        lossy_text(output.stderr@),
                    ),
                )
                &&& valid_utf8(output.stdout@) ==> lossy_text(output.stdout@) == decode_utf8(
                    output.stdout@,
                )
                &&& valid_utf8(output.stderr@) ==> lossy_text(output.stderr@) == decode_utf8(
                    output.stderr@,
                )
            },
        },
{
    match outcome {
        Err(err) => {
            let mut message = "Failed to execute command ".to_owned();
            message.append(cmd);
            message.append(", err: ");
            message.append(err.as_str());
            Err(StratisError::Error(message))
        },
        Ok(output) => {
            if output.success {
                Ok(())
            } else {
                let stdout = from_utf8_lossy(output.stdout.as_slice());
                let stderr = from_utf8_lossy(output.stderr.as_slice());
                Err(report_failure(cmd, output.code, stdout.as_str(), stderr.as_str()))
            }
        },
    }
}

/// The command that creates a filesystem with the UUID `uuid` on `devnode`.
pub fn create_fs(binaries: &Binaries, devnode: &str, uuid: u128) -> (command: CommandLine)
    requires
        binaries.found(MKFS_XFS@),
    ensures
        Some(command@.program) == binaries@[MKFS_XFS@],
        command@.args == seq!["-f"@, "-q"@, devnode@, "-m"@, "uuid="@ + hyphenated(uuid)],
{
    let mut option = "uuid=".to_owned();
    option.append(uuid_to_string(uuid).as_str());
    CommandLine::new(get_executable(binaries, MKFS_XFS)).arg("-f").arg("-q").arg(devnode).arg(
        "-m",
    ).arg(option.as_str())
}

/// The command that expands the filesystem mounted at `mount_point`.
pub fn xfs_growfs(binaries: &Binaries, mount_point: &str) -> (command: CommandLine)
    requires
        binaries.found(XFS_GROWFS@),
    ensures
        Some(command@.program) == binaries@[XFS_GROWFS@],
        command@.args == seq![mount_point@, "-d"@],
{
    CommandLine::new(get_executable(binaries, XFS_GROWFS)).arg(mount_point).arg("-d")
}

/// The command that sets a new UUID for the filesystem on `devnode`.
pub fn set_uuid(binaries: &Binaries, devnode: &str, uuid: u128) -> (command: CommandLine)
    requires
        binaries.found(XFS_DB@),
    ensures
        Some(command@.program) == binaries@[XFS_DB@],
        command@.args == seq!["-x"@, "-c uuid "@ + hyphenated(uuid), devnode@],
{
    let mut option = "-c uuid ".to_owned();
    option.append(uuid_to_string(uuid).as_str());
    CommandLine::new(get_executable(binaries, XFS_DB)).arg("-x").arg(option.as_str()).arg(devnode)
}

/// The command that checks the thin pool metadata on `devnode`.
pub fn thin_check(binaries: &Binaries, devnode: &str) -> (command: CommandLine)
    requires
        binaries.found(THIN_CHECK@),
    ensures
        Some(command@.program) == binaries@[THIN_CHECK@],
        command@.args == seq!["-q"@, devnode@],
{
    CommandLine::new(get_executable(binaries, THIN_CHECK)).arg("-q").arg(devnode)
}

/// The command that repairs the thin pool metadata on `meta_dev` into
/// `new_meta_dev`.
pub fn thin_repair(binaries: &Binaries, meta_dev: &str, new_meta_dev: &str) -> (command:
    CommandLine)
    requires
        binaries.found(THIN_REPAIR@),
    ensures
        Some(command@.program) == binaries@[THIN_REPAIR@],
        command@.args == seq!["-i"@, meta_dev@, "-o"@, new_meta_dev@],
{
    CommandLine::new(get_executable(binaries, THIN_REPAIR)).arg("-i").arg(meta_dev).arg("-o").arg(
        new_meta_dev,
    )
}

/// The command that waits until the device events are settled.
pub fn udev_settle(binaries: &Binaries) -> (command: CommandLine)
    requires
        binaries.found(UDEVADM@),
    ensures
        Some(command@.program) == binaries@[UDEVADM@],
        command@.args == seq!["settle"@],
{
    CommandLine::new(get_executable(binaries, UDEVADM)).arg("settle")
}

/// A step in the making of an ext3 filesystem.
#[derive(Debug, Clone, Copy, PartialEq, Eq, Structural)]
pub enum Ext3Stage {
    /// The device is wiped.
    Wipe,
    /// The filesystem is made.
    Make,
}

/// What to do next to make an ext3 filesystem.
#[derive(Debug, PartialEq, Eq)]
pub enum CommandStep {
    /// Run this command for this step, and report how it went.
    Run(Ext3Stage, CommandLine),
    /// Stop: it is over.
    Finished(StratisResult<()>),
}

/// What to do next to create an ext3 filesystem on `devnode`, where `last` is
/// the step that was last run and how it went, or none if none was run: the
/// device is wiped first, and the filesystem is made only if that went well.
pub fn create_ext3_fs(devnode: &str, last: Option<(Ext3Stage, StratisResult<()>)>) -> (step:
    CommandStep)
    ensures
        match last {
            None => step matches CommandStep::Run(Ext3Stage::Wipe, command) && command@ == (
            CommandView { program: "wipefs"@, args: seq!["-a"@, devnode@] }),
            Some((Ext3Stage::Wipe, Ok(_))) => step matches CommandStep::Run(
                Ext3Stage::Make,
                command,
            ) && command@ == (CommandView { program: "mkfs.ext3"@, args: seq![devnode@] }),
            Some((Ext3Stage::Wipe, Err(e))) => step == CommandStep::Finished(Err(e)),
            Some((Ext3Stage::Make, result)) => step == CommandStep::Finished(result),
        },
{
    match last {
        None => {
            let command = CommandLine::new("wipefs").arg("-a").arg(devnode);
            assert(command@ =~= CommandView { program: "wipefs"@, args: seq!["-a"@, devnode@] });
            CommandStep::Run(Ext3Stage::Wipe, command)
        },
        Some((Ext3Stage::Wipe, Ok(_))) => {
            let command = CommandLine::new("mkfs.ext3").arg(devnode);
            assert(command@ =~= CommandView { program: "mkfs.ext3"@, args: seq![devnode@] });
            CommandStep::Run(Ext3Stage::Make, command)
        },
        Some((Ext3Stage::Wipe, Err(e))) => CommandStep::Finished(Err(e)),
        Some((Ext3Stage::Make, result)) => CommandStep::Finished(result),
    }
}

/// The command that looks for faults in the filesystem on `devnode` without
/// mending them.
pub fn xfs_repair(devnode: &str) -> (command: CommandLine)
    ensures
        command@ == (CommandView { program: "xfs_repair"@, args: seq!["-n"@, devnode@] }),
{
    let command = CommandLine::new("xfs_repair").arg("-n").arg(devnode);
    assert(command@ =~= CommandView { program: "xfs_repair"@, args: seq!["-n"@, devnode@] });
    command
}

} // verus!
