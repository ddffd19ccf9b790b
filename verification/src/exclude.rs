//! Launches a program whose traffic is excluded from the tunnel.
//!
//! A [`Stage`] says what system call to make next, and [`advance`] is told what came of it.

use vstd::prelude::*;

verus! {

/// The file that takes the process identifiers of excluded processes.
pub const CGROUP_PROCS_PATH: &'static str =
    "/sys/fs/cgroup/net_cls/mullvad-exclusions/cgroup.procs";

/// What can go wrong. `S` is the error of a system call.
#[derive(Debug)]
pub enum Error<S> {
    /// There is no program to launch.
    InvalidArguments,
    /// The process could not be added to the control group.
    AddProcToCGroup(std::io::Error),
    /// The user could not be set.
    SetUid(S),
    /// The group could not be set.
    SetGid(S),
    /// The program could not be launched.
    Exec(S),
}

impl<S> Error<S> {
    /// The text that [`Error::message`] returns.
    pub open spec fn spec_message(self) -> Seq<char> {
        match self {
            Error::InvalidArguments => "Invalid arguments"@,
            Error::AddProcToCGroup(_) => "Cannot set the cgroup"@,
            Error::SetUid(_) => "Cannot set the uid"@,
            Error::SetGid(_) => "Cannot set the gid"@,
            Error::Exec(_) => "Failed to launch the process"@,
        }
    }

    /// Describes the error to a user.
    pub fn message(&self) -> (text: String)
        ensures
            text@ == self.spec_message(),
            match self {
                Error::InvalidArguments => text@ == "Invalid arguments"@,
                Error::AddProcToCGroup(_) => text@ == "Cannot set the cgroup"@,
                Error::SetUid(_) => text@ == "Cannot set the uid"@,
                Error::SetGid(_) => text@ == "Cannot set the gid"@,
                Error::Exec(_) => text@ == "Failed to launch the process"@,
            },
    {
        match self {
            Error::InvalidArguments => "Invalid arguments".to_owned(),
            Error::AddProcToCGroup(_) => "Cannot set the cgroup".to_owned(),
            Error::SetUid(_) => "Cannot set the uid".to_owned(),
            Error::SetGid(_) => "Cannot set the gid".to_owned(),
            Error::Exec(_) => "Failed to launch the process".to_owned(),
        }
    }
}

/// A program and the arguments to launch it with. The first argument is the program itself.
#[derive(Debug)]
pub struct Launch {
    pub program: Vec<u8>,
    pub args: Vec<Vec<u8>>,
}

/// The bytes of each argument.
pub open spec fn bytes(args: Seq<Vec<u8>>) -> Seq<Seq<u8>> {
    args.map_values(|arg: Vec<u8>| arg@)
}

/// No argument beyond the first holds a zero byte, so that each can be handed to the system.
pub open spec fn no_zero_bytes(argv: Seq<Seq<u8>>) -> bool {
    forall|i: int, j: int|
        1 <= i < argv.len() && 0 <= j < argv[i].len() ==> #[trigger] argv[i][j] != 0
}

/// Copies bytes.
fn copy(from: &Vec<u8>) -> (to: Vec<u8>)
    ensures
        to@ == from@,
{
    let to = from.clone();
    assert(to@ =~= from@);
    to
}

/// Splits the arguments of this process into the program to launch and its arguments: what
/// follows the name of this process.
pub fn parse_args<S>(argv: &Vec<Vec<u8>>) -> (launch: Result<Launch, Error<S>>)
    requires
        no_zero_bytes(bytes(argv@)),
    ensures
        if argv@.len() < 2 {
            launch == Err::<Launch, Error<S>>(Error::InvalidArguments)
        } else {
            launch matches Ok(launch) && launch.program@ == argv@[1]@ && bytes(launch.args@)
                == bytes(argv@).skip(1)
        },
        launch is Ok <==> argv@.len() >= 2,
        launch matches Err(error) ==> error is InvalidArguments,
        launch matches Ok(launch) ==> launch.program@ == argv@[1]@ && launch.args@.len()
            == argv@.len() - 1 && forall|i: int|
            0 <= i < launch.args@.len() ==> (#[trigger] launch.args@[i])@ == argv@[i + 1]@,
{
    if argv.len() < 2 {
        return Err(Error::InvalidArguments);
    }
    let program = copy(&argv[1]);
    let mut args: Vec<Vec<u8>> = Vec::new();
    let mut i: usize = 1;
    while i < argv.len()
        invariant
            1 <= i <= argv.len(),
            bytes(args@) == bytes(argv@).subrange(1, i as int),
        decreases argv.len() - i,
    {
        let ghost before = args@;
        args.push(copy(&argv[i]));
        i = i + 1;
        assert(bytes(args@) =~= bytes(before).push(bytes(argv@)[i - 1]));
        assert(bytes(args@) =~= bytes(argv@).subrange(1, i as int));
    }
    assert(bytes(args@) =~= bytes(argv@).skip(1));
    assert(bytes(args@).len() == args@.len());
    assert forall|i: int| 0 <= i < args@.len() implies (#[trigger] args@[i])@ == argv@[i + 1]@ by {
        assert(bytes(args@)[i] == args@[i]@);
        assert(bytes(argv@)[i + 1] == argv@[i + 1]@);
    }
    Ok(Launch { program, args })
}

/// The decimal digits of a number, in ASCII.
pub open spec fn decimal(number: nat) -> Seq<u8>
    decreases number,
{
    if number < 10 {
        seq![(48 + number) as u8]
    } else {
        decimal(number / 10).push((48 + number % 10) as u8)
    }
}

/// Appends the decimal digits of a number.
fn push_decimal(text: &mut Vec<u8>, number: u32)
    ensures
        final(text)@ == old(text)@ + decimal(number as nat),
    decreases number,
{
    if number >= 10 {
        push_decimal(text, number / 10);
    }
    text.push(48 + (number % 10) as u8);
    assert(text@ =~= old(text)@ + decimal(number as nat));
}

/// A number in decimal, in ASCII.
pub open spec fn signed_decimal(number: int) -> Seq<u8> {
    if number < 0 {
        seq![45u8] + decimal((-number) as nat)
    } else {
        decimal(number as nat)
    }
}

/// What is written to [`CGROUP_PROCS_PATH`] to exclude a process: its identifier in decimal.
pub fn cgroup_entry(pid: i32) -> (text: Vec<u8>)
    ensures
        text@ == signed_decimal(pid as int),
{
    let mut text: Vec<u8> = Vec::new();
    if pid < 0 {
        text.push(45);
        let size = -(pid as i64);
        push_decimal(&mut text, size as u32);
    } else {
        push_decimal(&mut text, pid as u32);
    }
    assert(text@ =~= signed_decimal(pid as int));
    text
}

/// What to do next to launch the program.
#[derive(Clone, Copy, Debug, PartialEq, Eq, Hash, Structural)]
pub enum Stage {
    /// Add this process to the control group of excluded processes.
    AddProcToCGroup,
    /// Ask for the user that started this process.
    GetUid,
    /// Drop root privileges: become this user.
    SetUid(u32),
    /// Ask for the group of the user that started this process.
    GetGid,
    /// Drop root privileges: become this group.
    SetGid(u32),
    /// Replace this process by the program.
    Exec,
}

/// What to do first.
pub fn start() -> (stage: Stage)
    ensures
        stage == Stage::AddProcToCGroup,
{
    Stage::AddProcToCGroup
}

/// What came of what was to be done.
pub enum Event<S> {
    Added(Result<(), std::io::Error>),
    Uid(u32),
    UidSet(Result<(), S>),
    Gid(u32),
    GidSet(Result<(), S>),
    /// Launching returns only if it fails.
    ExecFailed(S),
}

/// The event is about what was to be done.
pub open spec fn fits<S>(stage: Stage, event: Event<S>) -> bool {
    match stage {
        Stage::AddProcToCGroup => event is Added,
        Stage::GetUid => event is Uid,
        Stage::SetUid(_) => event is UidSet,
        Stage::GetGid => event is Gid,
        Stage::SetGid(_) => event is GidSet,
        Stage::Exec => event is ExecFailed,
    }
}

/// What to do after an event. The first failure ends it.
pub open spec fn next<S>(event: Event<S>) -> Result<Stage, Error<S>> {
    match event {
        Event::Added(Ok(_)) => Ok(Stage::GetUid),
        Event::Added(Err(cause)) => Err(Error::AddProcToCGroup(cause)),
        Event::Uid(uid) => Ok(Stage::SetUid(uid)),
        Event::UidSet(Ok(_)) => Ok(Stage::GetGid),
        Event::UidSet(Err(cause)) => Err(Error::SetUid(cause)),
        Event::Gid(gid) => Ok(Stage::SetGid(gid)),
        Event::GidSet(Ok(_)) => Ok(Stage::Exec),
        Event::GidSet(Err(cause)) => Err(Error::SetGid(cause)),
        Event::ExecFailed(cause) => Err(Error::Exec(cause)),
    }
}

/// Goes on after an event.
pub fn advance<S>(stage: Stage, event: Event<S>) -> (stage_after: Result<Stage, Error<S>>)
    requires
        fits(stage, event),
    ensures
        stage_after == next(event),
        event matches Event::Added(Ok(_)) ==> stage_after == Ok::<Stage, Error<S>>(Stage::GetUid),
        event matches Event::Uid(uid) ==> stage_after == Ok::<Stage, Error<S>>(Stage::SetUid(uid)),
        event matches Event::UidSet(Ok(_)) ==> stage_after == Ok::<Stage, Error<S>>(Stage::GetGid),
        event matches Event::Gid(gid) ==> stage_after == Ok::<Stage, Error<S>>(Stage::SetGid(gid)),
        event matches Event::GidSet(Ok(_)) ==> stage_after == Ok::<Stage, Error<S>>(Stage::Exec),
        event matches Event::Added(Err(cause)) ==> stage_after == Err::<Stage, Error<S>>(
            Error::AddProcToCGroup(cause),
        ),
        event matches Event::UidSet(Err(cause)) ==> stage_after == Err::<Stage, Error<S>>(
            Error::SetUid(cause),
        ),
        event matches Event::GidSet(Err(cause)) ==> stage_after == Err::<Stage, Error<S>>(
            Error::SetGid(cause),
        ),
        event matches Event::ExecFailed(cause) ==> stage_after == Err::<Stage, Error<S>>(
            Error::Exec(cause),
        ),
{
    match event {
        Event::Added(Ok(_)) => Ok(Stage::GetUid),
        Event::Added(Err(cause)) => Err(Error::AddProcToCGroup(cause)),
        Event::Uid(uid) => Ok(Stage::SetUid(uid)),
        Event::UidSet(Ok(_)) => Ok(Stage::GetGid),
        Event::UidSet(Err(cause)) => Err(Error::SetUid(cause)),
        Event::Gid(gid) => Ok(Stage::SetGid(gid)),
        Event::GidSet(Ok(_)) => Ok(Stage::Exec),
        Event::GidSet(Err(cause)) => Err(Error::SetGid(cause)),
        Event::ExecFailed(cause) => Err(Error::Exec(cause)),
    }
}

/// What to do after the events, in order, beginning with what [`start`] says. Each event is about
/// what was to be done; `None` if one is not, or if an earlier one ended it.
pub open spec fn stage_after<S>(events: Seq<Event<S>>) -> Option<Result<Stage, Error<S>>>
    decreases events.len(),
{
    if events.len() == 0 {
        Some(Ok(Stage::AddProcToCGroup))
    } else {
        match stage_after(events.drop_last()) {
            Some(Ok(stage)) => if fits(stage, events.last()) {
                Some(next(events.last()))
            } else {
                None
            },
            _ => None,
        }
    }
}

/// The program is launched only after this process was added to the control group and has taken
/// on the user and then the group that started it.
pub proof fn law_exec_comes_last<S>(events: Seq<Event<S>>)
    requires
        stage_after(events) == Some(Ok::<Stage, Error<S>>(Stage::Exec)),
    ensures
        events.len() == 5,
        events[0] matches Event::Added(Ok(_)),
        events[1] matches Event::Uid(uid) && stage_after(events.take(2)) == Some(
            Ok::<Stage, Error<S>>(Stage::SetUid(uid)),
        ),
        events[2] matches Event::UidSet(Ok(_)),
        events[3] matches Event::Gid(gid) && stage_after(events.take(4)) == Some(
            Ok::<Stage, Error<S>>(Stage::SetGid(gid)),
        ),
        events[4] matches Event::GidSet(Ok(_)),
{
    let e4 = events.drop_last();
    let e3 = e4.drop_last();
    let e2 = e3.drop_last();
    let e1 = e2.drop_last();
    let e0 = e1.drop_last();
    assert(stage_after(e4) matches Some(Ok(Stage::SetGid(_))));
    assert(stage_after(e3) matches Some(Ok(Stage::GetGid)));
    assert(stage_after(e2) matches Some(Ok(Stage::SetUid(_))));
    assert(stage_after(e1) matches Some(Ok(Stage::GetUid)));
    assert(stage_after(e0) matches Some(Ok(Stage::AddProcToCGroup)));
    assert(e0.len() == 0) by {
        if e0.len() > 0 {
            assert(stage_after(e0) == Some(next(e0.last())));
        }
    }
    assert(events.take(4) =~= e4);
    assert(events.take(2) =~= e2);
}

/// Whoever starts this process, the program is launched if nothing fails: first the process takes
/// on that user, then that group, and then the program takes its place.
pub proof fn law_launch_progresses<S>(uid: u32, gid: u32)
    ensures
        ({
            let events = seq![
                Event::<S>::Added(Ok(())),
                Event::Uid(uid),
                Event::UidSet(Ok(())),
                Event::Gid(gid),
                Event::GidSet(Ok(())),
            ];
            &&& stage_after(events.take(0)) == Some(Ok::<Stage, Error<S>>(Stage::AddProcToCGroup))
            &&& stage_after(events.take(1)) == Some(Ok::<Stage, Error<S>>(Stage::GetUid))
            &&& stage_after(events.take(2)) == Some(Ok::<Stage, Error<S>>(Stage::SetUid(uid)))
            &&& stage_after(events.take(3)) == Some(Ok::<Stage, Error<S>>(Stage::GetGid))
            &&& stage_after(events.take(4)) == Some(Ok::<Stage, Error<S>>(Stage::SetGid(gid)))
            &&& stage_after(events) == Some(Ok::<Stage, Error<S>>(Stage::Exec))
        }),
{
    let events = seq![
        Event::<S>::Added(Ok(())),
        Event::Uid(uid),
        Event::UidSet(Ok(())),
        Event::Gid(gid),
        Event::GidSet(Ok(())),
    ];
    assert(events.take(1).drop_last() =~= events.take(0));
    assert(events.take(2).drop_last() =~= events.take(1));
    assert(events.take(3).drop_last() =~= events.take(2));
    assert(events.take(4).drop_last() =~= events.take(3));
    assert(events.drop_last() =~= events.take(4));
}

/// A launch goes wrong only if something fails: the error is that of the last event, and that
/// event carries the cause.
pub proof fn law_errors_come_from_failures<S>(events: Seq<Event<S>>, error: Error<S>)
    requires
        stage_after(events) == Some(Err::<Stage, Error<S>>(error)),
    ensures
        events.len() > 0,
        match error {
            Error::InvalidArguments => false,
            Error::AddProcToCGroup(cause) => events.last() == Event::<S>::Added(Err(cause)),
            Error::SetUid(cause) => events.last() == Event::UidSet(Err(cause)),
            Error::SetGid(cause) => events.last() == Event::GidSet(Err(cause)),
            Error::Exec(cause) => events.last() == Event::ExecFailed(cause),
        },
{
}

/// The text for a number is the text for its first digits, followed by its last digit.
pub proof fn law_decimal_digits(number: nat, digit: nat)
    requires
        digit < 10,
    ensures
        signed_decimal(digit as int) == seq![(48 + digit) as u8],
        number > 0 ==> signed_decimal((10 * number + digit) as int) == signed_decimal(
            number as int,
        ).push((48 + digit) as u8),
        number > 0 ==> signed_decimal(-(number as int)) == seq![45u8] + signed_decimal(
            number as int,
        ),
{
    assert((10 * number + digit) / 10 == number);
    assert((10 * number + digit) % 10 == digit);
}

/// A report without causes is the message, and each further cause is added on a line of its own.
pub proof fn law_report_grows_by_causes(
    message: Seq<char>,
    causes: Seq<Seq<char>>,
    cause: Seq<char>,
)
    ensures
        report(message, Seq::empty()) == message,
        report(message, causes.push(cause)) == report(message, causes) + "\nCaused by: "@ + cause,
{
    assert(causes.push(cause).drop_last() =~= causes);
}

/// Where the process identifier is written.
pub proof fn law_cgroup_path()
    ensures
        CGROUP_PROCS_PATH@ == "/sys/fs/cgroup/net_cls/mullvad-exclusions/cgroup.procs"@,
{
}

/// What is known of arguments is their bytes.
pub proof fn law_bytes_are_those_of_the_arguments(args: Seq<Vec<u8>>, i: int)
    ensures
        bytes(args).len() == args.len(),
        0 <= i < args.len() ==> bytes(args)[i] == args[i]@,
{
}

/// Each stage takes every outcome of what was to be done.
pub proof fn law_stages_take_any_outcome<S>(event: Event<S>, uid: u32, gid: u32)
    ensures
        fits(Stage::AddProcToCGroup, event) <==> event is Added,
        fits(Stage::GetUid, event) <==> event is Uid,
        fits(Stage::SetUid(uid), event) <==> event is UidSet,
        fits(Stage::GetGid, event) <==> event is Gid,
        fits(Stage::SetGid(gid), event) <==> event is GidSet,
        fits(Stage::Exec, event) <==> event is ExecFailed,
{
}

/// Arguments may hold any byte but zero, and the first one that too.
pub proof fn law_arguments_are_free(argv: Seq<Seq<u8>>)
    ensures
        no_zero_bytes(argv) <==> forall|i: int, j: int|
            1 <= i < argv.len() && 0 <= j < argv[i].len() ==> #[trigger] argv[i][j] != 0,
{
}

/// Tells how this program is used, given the name it was started by.
pub fn usage(name: &str) -> (text: String)
    ensures
        text@ == "Usage: "@ + name@ + " <command>"@,
{
    let mut text = "Usage: ".to_owned();
    text.append(name);
    text.append(" <command>");
    text
}

/// A message, followed by what caused it, what caused that, and so on.
pub open spec fn report(message: Seq<char>, causes: Seq<Seq<char>>) -> Seq<char>
    decreases causes.len(),
{
    if causes.len() == 0 {
        message
    } else {
        report(message, causes.drop_last()) + "\nCaused by: "@ + causes.last()
    }
}

/// Describes an error together with its causes.
pub fn error_report(message: &str, causes: &Vec<String>) -> (text: String)
    ensures
        text@ == report(message@, causes@.map_values(|cause: String| cause@)),
{
    let ghost all = causes@.map_values(|cause: String| cause@);
    let mut text = message.to_owned();
    let mut i: usize = 0;
    while i < causes.len()
        invariant
            i <= causes.len(),
            all == causes@.map_values(|cause: String| cause@),
            text@ == report(message@, all.take(i as int)),
        decreases causes.len() - i,
    {
        text.append("\nCaused by: ");
        text.append(causes[i].as_str());
        assert(all.take(i + 1).drop_last() =~= all.take(i as int));
        i = i + 1;
    }
    assert(all.take(i as int) =~= all);
    text
}

} // verus!
