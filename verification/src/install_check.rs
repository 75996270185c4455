//! Command-line options, and when a window that is checked has shown enough.
use std::path::PathBuf;
use vstd::prelude::*;
use vstd::string::*;

verus! {

/// One argument: as text where it is text, with replacement characters where it
/// is none, and as a path.
#[derive(Debug)]
pub struct Argument {
    pub text: Option<String>,
    pub lossy: String,
    pub path: PathBuf,
}

#[derive(Debug)]
pub struct Options {
    pub directory: Option<PathBuf>,
    pub check: bool,
    pub smoke: bool,
}

impl Default for Options {
    fn default() -> (r: Self)
        ensures
            r == (Options { directory: None, check: false, smoke: false }),
    {
        Options { directory: None, check: false, smoke: false }
    }
}

/// What an argument asks for.
pub enum Asked {
    Directory,
    Check,
    Smoke,
    Unknown,
}

pub open spec fn asked(argument: Argument) -> Asked {
    match argument.text {
        Some(text) => if text@ == "--data-dir"@ {
            Asked::Directory
        } else if text@ == "--check-install"@ {
            Asked::Check
        } else if text@ == "--smoke-test"@ {
            Asked::Smoke
        } else {
            Asked::Unknown
        },
        None => Asked::Unknown,
    }
}

fn ask(argument: &Argument) -> (r: Asked)
    ensures
        r == asked(*argument),
{
    let directory = "--data-dir".to_owned();
    let check = "--check-install".to_owned();
    let smoke = "--smoke-test".to_owned();
    match &argument.text {
        Some(text) => if *text == directory {
            Asked::Directory
        } else if *text == check {
            Asked::Check
        } else if *text == smoke {
            Asked::Smoke
        } else {
            Asked::Unknown
        },
        None => Asked::Unknown,
    }
}

/// The options that arguments from one on add to some, or what is wrong with
/// the first argument that is wrong.
pub open spec fn read_from(options: Options, arguments: Seq<Argument>) -> Result<
    Options,
    Seq<char>,
>
    decreases arguments.len(),
{
    if arguments.len() == 0 {
        Ok(options)
    } else {
        match asked(arguments[0]) {
            Asked::Directory => if arguments.len() == 1 {
                Err("--data-dir requires a path"@)
            } else {
                read_from(
                    Options { directory: Some(arguments[1].path), ..options },
                    arguments.skip(2),
                )
            },
            Asked::Check => read_from(Options { check: true, ..options }, arguments.skip(1)),
            Asked::Smoke => read_from(Options { smoke: true, ..options }, arguments.skip(1)),
            Asked::Unknown => Err("Unknown argument: "@ + arguments[0].lossy@),
        }
    }
}

/// A check needs a directory of its own, and only one check runs at a time.
pub open spec fn accepted(options: Options) -> Result<Options, Seq<char>> {
    if (options.check || options.smoke) && options.directory is None {
        Err("Installation checks require an isolated --data-dir"@)
    } else if options.check && options.smoke {
        Err("Run installation and window checks separately"@)
    } else {
        Ok(options)
    }
}

/// The options of a command line, without the name of the program.
pub open spec fn parsed(arguments: Seq<Argument>) -> Result<Options, Seq<char>> {
    match read_from(Options { directory: None, check: false, smoke: false }, arguments) {
        Ok(options) => accepted(options),
        Err(message) => Err(message),
    }
}

impl Options {
    pub fn parse(arguments: &Vec<Argument>) -> (r: Result<Self, String>)
        ensures
            match r {
                Ok(options) => parsed(arguments@) == Ok::<Options, Seq<char>>(options),
                Err(message) => parsed(arguments@) == Err::<Options, Seq<char>>(message@),
            },
    {
        let mut options = Options::default();
        let mut at: usize = 0;
        assert(arguments@.skip(0) =~= arguments@);
        while at < arguments.len()
            invariant
                at <= arguments.len(),
                read_from(
                    Options { directory: None, check: false, smoke: false },
                    arguments@,
                ) == read_from(options, arguments@.skip(at as int)),
            decreases arguments.len() - at,
        {
            let ghost rest = arguments@.skip(at as int);
            assert(rest[0] == arguments@[at as int]);
            match ask(&arguments[at]) {
                Asked::Directory => {
                    if arguments.len() - at < 2 {
                        return Err("--data-dir requires a path".to_owned());
                    }
                    assert(rest[1] == arguments@[at + 1]);
                    assert(rest.skip(2) =~= arguments@.skip(at + 2));
                    options.directory = Some(crate::paths::path_copy(&arguments[at + 1].path));
                    at = at + 2;
                },
                Asked::Check => {
                    assert(rest.skip(1) =~= arguments@.skip(at + 1));
                    options.check = true;
                    at = at + 1;
                },
                Asked::Smoke => {
                    assert(rest.skip(1) =~= arguments@.skip(at + 1));
                    options.smoke = true;
                    at = at + 1;
                },
                Asked::Unknown => {
                    let mut message = "Unknown argument: ".to_owned();
                    message.append(arguments[at].lossy.as_str());
                    return Err(message);
                },
            }
        }
        assert(arguments@.skip(at as int).len() == 0);
        if (options.check || options.smoke) && options.directory.is_none() {
            return Err("Installation checks require an isolated --data-dir".to_owned());
        }
        if options.check && options.smoke {
            return Err("Run installation and window checks separately".to_owned());
        }
        Ok(options)
    }
}

/// How long a window is shown before it is reported on, in nanoseconds.
pub const SETTLE_NANOSECONDS: u64 = 3_000_000_000;

/// How long it stays open after that, in nanoseconds.
pub const LINGER_NANOSECONDS: u64 = 1_000_000_000;

/// What a report on a window says.
#[derive(Debug, Clone, Copy, PartialEq, Eq, Structural)]
pub struct SmokeReport {
    pub ok: bool,
    pub rendered_frames: u64,
    pub scene_renderer_ready: bool,
}

/// A window that is being checked. Times are nanoseconds of one clock.
#[derive(Debug)]
pub struct WindowSmoke {
    pub root: PathBuf,
    pub started: u64,
    pub reported: Option<u64>,
    pub frames: u64,
}

/// The time between two instants.
pub open spec fn elapsed(since: u64, now: u64) -> int {
    if now < since {
        0
    } else {
        now - since
    }
}

impl WindowSmoke {
    pub fn new(root: PathBuf, started: u64) -> (r: Self)
        ensures
            r == (WindowSmoke { root, started, reported: None, frames: 0 }),
    {
        WindowSmoke { root, started, reported: None, frames: 0 }
    }

    /// The frame is the one that is reported on: the first after three seconds,
    /// and not the very first.
    pub open spec fn reports_at(&self, now: u64) -> bool {
        self.reported is None && elapsed(self.started, now) >= SETTLE_NANOSECONDS && self.frames
            + 1 >= 2
    }

    /// Counts a frame. The result is the report that is to be written, if any,
    /// and whether the window is to be closed.
    pub fn frame(&mut self, now: u64, ready: bool, healthy: bool, renderer: bool) -> (r: (
        Option<SmokeReport>,
        bool,
    ))
        requires
            old(self).frames < u64::MAX,
        ensures
            final(self).root == old(self).root,
            final(self).started == old(self).started,
            final(self).frames == old(self).frames + 1,
            final(self).reported == (if old(self).reports_at(now) {
                Some(now)
            } else {
                old(self).reported
            }),
            r.0 == (if old(self).reports_at(now) {
                Some(
                    SmokeReport {
                        ok: ready && healthy && renderer,
                        rendered_frames: final(self).frames,
                        scene_renderer_ready: renderer,
                    },
                )
            } else {
                None
            }),
            r.1 == (old(self).reported is Some && elapsed(old(self).reported->0, now)
                > LINGER_NANOSECONDS),
    {
        self.frames = self.frames + 1;
        let mut report = None;
        if self.reported.is_none() && now.saturating_sub(self.started) >= SETTLE_NANOSECONDS
            && self.frames >= 2 {
            report =
            Some(
                SmokeReport {
                    ok: ready && healthy && renderer,
                    rendered_frames: self.frames,
                    scene_renderer_ready: renderer,
                },
            );
            self.reported = Some(now);
        }
        let close = match self.reported {
            Some(at) => now.saturating_sub(at) > LINGER_NANOSECONDS,
            None => false,
        };
        (report, close)
    }
}

/// Options that are accepted keep a check away from the listener's own data, and
/// ask for one check at most.
pub proof fn checks_are_isolated(arguments: Seq<Argument>)
    requires
        parsed(arguments) is Ok,
    ensures
        ({
            let options = parsed(arguments)->Ok_0;
            &&& options.check || options.smoke ==> options.directory is Some
            &&& !(options.check && options.smoke)
        }),
{
}

/// The words of the command line mean what they say.
pub proof fn the_words_of_the_command_line(argument: Argument)
    requires
        argument.text is Some,
    ensures
        argument.text->0@ == "--data-dir"@ ==> asked(argument) is Directory,
        argument.text->0@ == "--check-install"@ ==> asked(argument) is Check,
        argument.text->0@ == "--smoke-test"@ ==> asked(argument) is Smoke,
        argument.text->0@ != "--data-dir"@ && argument.text->0@ != "--check-install"@
            && argument.text->0@ != "--smoke-test"@ ==> asked(argument) is Unknown,
{
    reveal_strlit("--data-dir");
    reveal_strlit("--check-install");
    reveal_strlit("--smoke-test");
    assert("--data-dir"@.len() == 10);
    assert("--check-install"@.len() == 15);
    assert("--smoke-test"@.len() == 12);
}

/// A directory, a check of the installation and one of the window are asked for by their
/// words; either check needs a directory of its own, and they do not go together.
pub proof fn the_command_line_asks_for_what_it_says(
    directory: Argument,
    place: Argument,
    wish: Argument,
)
    requires
        directory.text is Some && directory.text->0@ == "--data-dir"@,
        wish.text is Some,
    ensures
        parsed(Seq::empty()) == Ok::<Options, Seq<char>>(
            (Options { directory: None, check: false, smoke: false }),
        ),
        parsed(seq![directory, place]) == Ok::<Options, Seq<char>>(
            (Options { directory: Some(place.path), check: false, smoke: false }),
        ),
        parsed(seq![directory]) is Err,
        wish.text->0@ == "--check-install"@ ==> parsed(seq![directory, place, wish]) == Ok::<
            Options,
            Seq<char>,
        >((Options { directory: Some(place.path), check: true, smoke: false })) && parsed(
            seq![wish],
        ) is Err,
        wish.text->0@ == "--smoke-test"@ ==> parsed(seq![directory, place, wish]) == Ok::<
            Options,
            Seq<char>,
        >((Options { directory: Some(place.path), check: false, smoke: true })) && parsed(
            seq![wish],
        ) is Err,
{
    reveal_with_fuel(read_from, 4);
    the_words_of_the_command_line(directory);
    the_words_of_the_command_line(wish);
    let one = seq![directory, place];
    assert(one.skip(2) =~= Seq::empty());
    let two = seq![directory, place, wish];
    assert(two.skip(2) =~= seq![wish]);
    assert(seq![wish].skip(1) =~= Seq::empty());
}

/// The window is reported on once, three seconds after it opened at the earliest and not
/// before its second frame.
pub proof fn the_window_is_reported_on_once(smoke: WindowSmoke, now: u64)
    ensures
        smoke.reports_at(now) ==> smoke.reported is None && now >= smoke.started + 3_000_000_000
            && smoke.frames >= 1,
        smoke.reported is None && now >= smoke.started + 3_000_000_000 && smoke.frames >= 1
            ==> smoke.reports_at(now),
        now >= smoke.started ==> elapsed(smoke.started, now) == now - smoke.started,
        now < smoke.started ==> elapsed(smoke.started, now) == 0,
{
}

} // verus!
