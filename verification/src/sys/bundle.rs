//! Application bundles: the one that this program runs from, and the one that
//! commands are run with.

use vstd::prelude::*;

use crate::text::{
    i32_value, join_path, joined, joining_puts_one_separator_between, parse_i32, path_below, pieces, pieces_join_back, same_text,
    signed_decimal, signed_decimal_is_not_white, signed_decimal_reads_back, split, trim, trimmed,
};

verus! {

/// What the identifier of every bundle of Glide contains.
pub const GLIDE_IDENTIFIER: &'static str = "glidewm";

/// The program that opens bundles.
pub const OPEN_PROGRAM: &'static str = "/usr/bin/open";

/// The bundle that commands are run with.
pub const EXEC_HELPER_APP_NAME: &'static str = "GlideExec.app";

/// The program of that bundle.
pub const EXEC_HELPER_EXECUTABLE_NAME: &'static str = "glide_exec";

/// The identifier of that bundle.
pub const EXEC_HELPER_BUNDLE_IDENTIFIER: &'static str = "org.glidewm.exec-helper";

/// How the names of the directories that results are written to start.
pub const EXEC_RESULT_DIR_PREFIX: &'static str = "glide-exec-result";

/// The file that the output of a command is written to.
pub const EXEC_RESULT_OUTPUT_FILE: &'static str = "output";

/// The file that the exit status of a command is written to.
pub const EXEC_RESULT_STATUS_FILE: &'static str = "status";

/// The identifier of a bundle.
#[derive(Debug)]
pub struct BundleIdentifier {
    pub text: String,
    /// Whether the identifier names this window manager.
    pub is_glide: bool,
}

/// A bundle: where it is, and its identifier, if it has one.
#[derive(Debug)]
pub struct Bundle {
    pub path: String,
    pub identifier: Option<BundleIdentifier>,
}

/// Why this program does not run from its bundle.
#[derive(Debug)]
pub enum BundleError {
    NotInBundle,
    BundleNotGlide { identifier: BundleIdentifier },
}

/// The bundle that counts: the main one if it has an identifier, or else one
/// that is found by other means.
pub open spec fn chosen_bundle(main: Bundle, fallback: Option<Bundle>) -> Bundle {
    if main.identifier is None && fallback is Some {
        fallback->0
    } else {
        main
    }
}

/// The bundle that this program runs from, if it is one of this window manager.
pub fn glide_bundle(main: Bundle, fallback: Option<Bundle>) -> (result: Result<Bundle, BundleError>)
    ensures
        match chosen_bundle(main, fallback).identifier {
            None => result == Err::<Bundle, BundleError>(BundleError::NotInBundle),
            Some(identifier) => if identifier.is_glide {
                result == Ok::<Bundle, BundleError>(chosen_bundle(main, fallback))
            } else {
                result == Err::<Bundle, BundleError>(BundleError::BundleNotGlide { identifier })
            },
        },
{
    let bundle = if main.identifier.is_none() {
        match fallback {
            Some(fallback) => fallback,
            None => main,
        }
    } else {
        main
    };
    match bundle.identifier {
        None => Err(BundleError::NotInBundle),
        Some(identifier) => if identifier.is_glide {
            Ok(Bundle { path: bundle.path, identifier: Some(identifier) })
        } else {
            Err(BundleError::BundleNotGlide { identifier })
        },
    }
}

/// Whether `path` is absolute and names every directory on the way by itself.
pub open spec fn canonical(path: Seq<char>) -> bool {
    let parts = pieces(path, '/');
    &&& parts.len() >= 2
    &&& parts[0].len() == 0
    &&& forall|i: int| 1 <= i < parts.len() ==> (#[trigger] parts[i]).len() > 0
}

/// The path of the bundle that holds the program at `exe`: the program of a
/// bundle lies two directories below it.
pub open spec fn bundle_root(exe: Seq<char>) -> Option<Seq<char>> {
    let parts = pieces(exe, '/');
    let n = parts.len() as int;
    if n >= 4 && parts[n - 3] == "Contents"@ && parts[n - 2] == "MacOS"@ {
        Some(
            if n == 4 {
                "/"@
            } else {
                joined(parts.take(n - 3), '/')
            },
        )
    } else {
        None
    }
}

fn join_parts(parts: &Vec<String>, count: usize) -> (path: String)
    requires
        0 < count <= parts@.len(),
    ensures
        path@ == joined(parts.deep_view().take(count as int), '/'),
{
    proof {
        reveal_strlit("/");
    }
    let ghost all = parts.deep_view();
    let mut path = parts[0].clone();
    let mut i: usize = 1;
    assert(all.take(1)[0] == parts@[0]@);
    while i < count
        invariant
            1 <= i <= count,
            count <= parts@.len(),
            all == parts.deep_view(),
            "/"@ == seq!['/'],
            path@ == joined(all.take(i as int), '/'),
        decreases count - i,
    {
        let ghost before = path@;
        path = path.concat("/").concat(parts[i].as_str());
        proof {
            let longer = all.take(i as int + 1);
            assert(longer.drop_last() =~= all.take(i as int));
            assert(longer.last() == parts@[i as int]@);
            assert(path@ =~= before.push('/') + longer.last());
        }
        i = i + 1;
    }
    path
}

/// Finds the bundle that holds the program at `exe`.
pub fn bundle_fallback(exe: &str) -> (root: Option<String>)
    requires
        canonical(exe@),
    ensures
        match root {
            Some(root) => bundle_root(exe@) == Some(root@),
            None => bundle_root(exe@) is None,
        },
{
    let parts = split(exe, '/');
    let n: usize = parts.len();
    assert(parts.deep_view().len() == n);
    if n < 4 {
        return None;
    }
    assert(parts.deep_view()[n - 3] == parts@[n - 3]@);
    assert(parts.deep_view()[n - 2] == parts@[n - 2]@);
    if !same_text(parts[n - 3].as_str(), "Contents") || !same_text(parts[n - 2].as_str(), "MacOS") {
        return None;
    }
    if n == 4 {
        Some("/".to_owned())
    } else {
        Some(join_parts(&parts, n - 3))
    }
}

/// The program of a bundle is found to be in that bundle.
pub proof fn programs_are_found_in_their_bundle(root: Seq<char>, program: Seq<char>)
    requires
        canonical(root),
        !program.contains('/'),
    ensures
        bundle_root(path_below(path_below(path_below(root, "Contents"@), "MacOS"@), program))
            == Some(root),
{
    reveal_strlit("Contents");
    reveal_strlit("MacOS");
    let parts = pieces(root, '/');
    assert(parts[parts.len() - 1].len() > 0);
    assert(root.len() > 0);
    assert(root.last() != '/');
    let a = path_below(root, "Contents"@);
    let b = path_below(a, "MacOS"@);
    let c = path_below(b, program);
    assert(a.last() == 's');
    assert(b.last() == 'S');
    one_piece_more(root, "Contents"@);
    one_piece_more(a, "MacOS"@);
    one_piece_more(b, program);
    let all = pieces(c, '/');
    let n = all.len() as int;
    assert(all.take(n - 3) =~= parts);
    pieces_join_back(root, '/');
    assert(all[n - 3] == "Contents"@);
    assert(all[n - 2] == "MacOS"@);
}

proof fn one_piece_more(base: Seq<char>, name: Seq<char>)
    requires
        !name.contains('/'),
    ensures
        pieces(base.push('/') + name, '/') == pieces(base, '/').push(name),
    decreases name.len(),
{
    let whole = base.push('/') + name;
    if name.len() == 0 {
        assert(whole =~= base.push('/'));
        assert(whole.drop_last() =~= base);
        assert(name =~= Seq::<char>::empty());
    } else {
        let front = name.drop_last();
        assert(!front.contains('/')) by {
            if front.contains('/') {
                let i = choose|i: int| 0 <= i < front.len() && front[i] == '/';
                assert(name[i] == '/');
            }
        }
        assert(name[name.len() - 1] != '/');
        one_piece_more(base, front);
        assert(whole.drop_last() =~= base.push('/') + front);
        let before = pieces(base, '/').push(front);
        assert(before.drop_last() =~= pieces(base, '/'));
        assert(before.last().push(name.last()) =~= name);
    }
}

/// How `open` is asked to open a bundle.
#[derive(Clone, Copy, PartialEq, Eq, Structural, Debug)]
pub struct OpenLaunchOptions {
    pub new_instance: bool,
    pub background: bool,
    pub wait_for_exit: bool,
}

impl Default for OpenLaunchOptions {
    fn default() -> (options: OpenLaunchOptions)
        ensures
            options == (OpenLaunchOptions {
                new_instance: false,
                background: false,
                wait_for_exit: false,
            }),
    {
        OpenLaunchOptions { new_instance: false, background: false, wait_for_exit: false }
    }
}

/// The arguments that `open` takes to open what is at `path` and hand it
/// `args`.
pub open spec fn open_arguments(
    path: Seq<char>,
    options: OpenLaunchOptions,
    args: Seq<Seq<char>>,
) -> Seq<Seq<char>> {
    (if options.new_instance {
        seq!["-n"@]
    } else {
        seq![]
    }) + (if options.background {
        seq!["-g"@, "-j"@]
    } else {
        seq![]
    }) + (if options.wait_for_exit {
        seq!["-W"@]
    } else {
        seq![]
    }) + seq![path, "--args"@] + args
}

fn add_text(texts: &mut Vec<String>, text: &str)
    ensures
        final(texts).deep_view() == old(texts).deep_view().push(text@),
{
    texts.push(text.to_owned());
    assert(texts.deep_view() =~= old(texts).deep_view().push(text@));
}

fn add_texts(texts: &mut Vec<String>, more: &Vec<String>)
    ensures
        final(texts).deep_view() == old(texts).deep_view() + more.deep_view(),
{
    let mut i: usize = 0;
    assert(texts.deep_view() =~= old(texts).deep_view() + more.deep_view().take(0));
    while i < more.len()
        invariant
            i <= more@.len(),
            texts.deep_view() == old(texts).deep_view() + more.deep_view().take(i as int),
        decreases more@.len() - i,
    {
        let ghost before = texts.deep_view();
        add_text(texts, more[i].as_str());
        i = i + 1;
        assert(texts.deep_view() =~= old(texts).deep_view() + more.deep_view().take(i as int));
    }
    assert(more.deep_view().take(i as int) =~= more.deep_view());
}

/// Puts together the arguments that `open` takes to open what is at `path` and
/// hand it `args`.
pub fn open_path(path: &str, options: OpenLaunchOptions, args: &Vec<String>) -> (all: Vec<String>)
    ensures
        all.deep_view() == open_arguments(path@, options, args.deep_view()),
{
    let mut all: Vec<String> = Vec::new();
    assert(all.deep_view() =~= seq![]);
    if options.new_instance {
        add_text(&mut all, "-n");
    }
    if options.background {
        add_text(&mut all, "-g");
        add_text(&mut all, "-j");
    }
    if options.wait_for_exit {
        add_text(&mut all, "-W");
    }
    add_text(&mut all, path);
    add_text(&mut all, "--args");
    add_texts(&mut all, args);
    assert(all.deep_view() =~= open_arguments(path@, options, args.deep_view()));
    all
}

/// How a bundle is launched: anew where the program launches itself again.
pub open spec fn launch_options(relaunch: bool) -> OpenLaunchOptions {
    OpenLaunchOptions { new_instance: relaunch, background: false, wait_for_exit: false }
}

/// The arguments that `open` takes to launch `bundle`.
pub fn launch(bundle: &Bundle, args: &Vec<String>) -> (all: Vec<String>)
    ensures
        all.deep_view() == open_arguments(bundle.path@, launch_options(false), args.deep_view()),
{
    open_path(bundle.path.as_str(), OpenLaunchOptions::default(), args)
}

/// How a program that was run has ended.
#[derive(Debug)]
pub struct ProgramOutput {
    pub success: bool,
    /// The exit status, in words.
    pub status: String,
    pub stdout: String,
    pub stderr: String,
}

/// The report of a launch that failed.
pub open spec fn launch_failure(output: ProgramOutput) -> Seq<char> {
    "Launch failed with code "@ + output.status@ + ". stderr:\n"@ + output.stderr@ + "\n\nstdout:\n"@
        + output.stdout@
}

/// Whether a launch worked.
pub fn launch_result(output: &ProgramOutput) -> (result: Result<(), String>)
    ensures
        match result {
            Ok(()) => output.success,
            Err(message) => !output.success && message@ == launch_failure(*output),
        },
{
    if output.success {
        Ok(())
    } else {
        Err(
            "Launch failed with code ".to_owned().concat(output.status.as_str()).concat(
                ". stderr:\n",
            ).concat(output.stderr.as_str()).concat("\n\nstdout:\n").concat(output.stdout.as_str()),
        )
    }
}

/// A sign that the program has been launched again. Callers must immediately
/// exit the process after reporting success.
#[must_use]
#[derive(Debug, PartialEq, Eq)]
pub struct MustExit;

/// What comes next when the program launches itself again.
#[derive(Debug)]
pub enum RelaunchStep {
    /// Run `open` with these arguments.
    Open(Vec<String>),
    Done(MustExit),
    Failed(String),
}

/// What a [`RelaunchStep`] says.
pub enum RelaunchStepView {
    Open(Seq<Seq<char>>),
    Done(MustExit),
    Failed(Seq<char>),
}

impl View for RelaunchStep {
    type V = RelaunchStepView;

    open spec fn view(&self) -> RelaunchStepView {
        match *self {
            RelaunchStep::Open(args) => RelaunchStepView::Open(args.deep_view()),
            RelaunchStep::Done(sign) => RelaunchStepView::Done(sign),
            RelaunchStep::Failed(message) => RelaunchStepView::Failed(message@),
        }
    }
}

/// What to do to launch the program again: nothing where it does not run from
/// its bundle; otherwise the bundle is opened anew, and then it depends on how
/// that went.
pub open spec fn relaunch_step(
    bundle: Result<Bundle, BundleError>,
    output: Option<ProgramOutput>,
) -> RelaunchStepView {
    match bundle {
        Err(_) => RelaunchStepView::Failed(
            "Skipping relaunch because the current application is not Glide"@,
        ),
        Ok(bundle) => match output {
            None => RelaunchStepView::Open(
                open_arguments(bundle.path@, launch_options(true), seq![]),
            ),
            Some(output) => if output.success {
                RelaunchStepView::Done(MustExit)
            } else {
                RelaunchStepView::Failed(launch_failure(output))
            },
        },
    }
}

/// Says what to do next to launch the program again. `output` tells how `open`
/// has ended, once it was run.
pub fn relaunch_current_bundle(
    bundle: &Result<Bundle, BundleError>,
    output: &Option<ProgramOutput>,
) -> (step: RelaunchStep)
    ensures
        step@ == relaunch_step(*bundle, *output),
{
    let bundle = match bundle {
        Ok(bundle) => bundle,
        Err(_) => return RelaunchStep::Failed(
            "Skipping relaunch because the current application is not Glide".to_owned(),
        ),
    };
    match output {
        None => {
            let none: Vec<String> = Vec::new();
            assert(none.deep_view() =~= seq![]);
            let options = OpenLaunchOptions {
                new_instance: true,
                background: false,
                wait_for_exit: false,
            };
            RelaunchStep::Open(open_path(bundle.path.as_str(), options, &none))
        },
        Some(output) => match launch_result(output) {
            Ok(()) => RelaunchStep::Done(MustExit),
            Err(message) => RelaunchStep::Failed(message),
        },
    }
}

/// What a command has left: its exit status and its output.
#[derive(Debug)]
pub struct CommandOutput {
    pub status: i32,
    pub output: String,
}

/// How the helper is launched.
#[derive(Clone, Copy, PartialEq, Eq, Structural, Debug)]
pub enum HelperLaunchMode {
    /// By `open`, which drops the special privileges of the window manager.
    Open(OpenLaunchOptions),
    /// By itself, keeping those privileges.
    Direct,
}

/// The files of the helper.
#[derive(Debug)]
pub struct HelperApp {
    /// The bundle itself.
    pub app: String,
    /// The directory of its program, which has to be there first.
    pub macos: String,
    /// Where its property list goes.
    pub plist: String,
    /// Where its program goes. It has to be executable for its owner.
    pub executable: String,
}

/// Where the helper is, below the directory for caches.
pub open spec fn helper_app(cache_dir: Seq<char>, bundle_identifier: Seq<char>) -> Seq<char> {
    path_below(path_below(cache_dir, bundle_identifier), EXEC_HELPER_APP_NAME@)
}

/// Where the program of the helper is.
pub open spec fn helper_executable(cache_dir: Seq<char>, bundle_identifier: Seq<char>) -> Seq<
    char,
> {
    path_below(
        path_below(path_below(helper_app(cache_dir, bundle_identifier), "Contents"@), "MacOS"@),
        EXEC_HELPER_EXECUTABLE_NAME@,
    )
}

/// Says where the files of the helper go.
pub fn ensure_exec_helper_app_at(cache_dir: &str, bundle_identifier: &str) -> (helper: HelperApp)
    ensures
        helper.app@ == helper_app(cache_dir@, bundle_identifier@),
        helper.macos@ == path_below(path_below(helper.app@, "Contents"@), "MacOS"@),
        helper.plist@ == path_below(path_below(helper.app@, "Contents"@), "Info.plist"@),
        helper.executable@ == helper_executable(cache_dir@, bundle_identifier@),
{
    let app = join_path(join_path(cache_dir, bundle_identifier).as_str(), EXEC_HELPER_APP_NAME);
    let contents = join_path(app.as_str(), "Contents");
    let macos = join_path(contents.as_str(), "MacOS");
    let plist = join_path(contents.as_str(), "Info.plist");
    let executable = join_path(macos.as_str(), EXEC_HELPER_EXECUTABLE_NAME);
    HelperApp { app, macos, plist, executable }
}

/// The arguments that the helper takes to run `args` and write what becomes of
/// them to `result_dir`.
pub open spec fn helper_arguments(result_dir: Seq<char>, args: Seq<Seq<char>>) -> Seq<Seq<char>> {
    seq!["--result-dir"@, result_dir, "--"@] + args
}

/// What the helper script makes of its arguments: the directory for the result
/// and the command, unless it refuses them.
pub open spec fn script_reads(args: Seq<Seq<char>>) -> Option<(Seq<char>, Seq<Seq<char>>)> {
    if args.len() < 3 || args[0] != "--result-dir"@ || args[2] != "--"@ || args.len() == 3 {
        None
    } else {
        Some((args[1], args.skip(3)))
    }
}

/// A program with its arguments.
#[derive(Debug)]
pub struct Invocation {
    pub program: String,
    pub args: Vec<String>,
}

/// Says how to run `args` by the helper: which program to start with which
/// arguments. There has to be a command.
pub fn launch_cli_with_helper_at(
    cache_dir: &str,
    bundle_identifier: &str,
    args: &Vec<String>,
    launch_mode: HelperLaunchMode,
    result_dir: &str,
) -> (result: Result<Invocation, String>)
    ensures
        match result {
            Ok(run) => {
                let inner = helper_arguments(result_dir@, args.deep_view());
                &&& args@.len() > 0
                &&& match launch_mode {
                    HelperLaunchMode::Open(options) => {
                        &&& run.program@ == OPEN_PROGRAM@
                        &&& run.args.deep_view() == open_arguments(
                            helper_app(cache_dir@, bundle_identifier@),
                            options,
                            inner,
                        )
                    },
                    HelperLaunchMode::Direct => {
                        &&& run.program@ == helper_executable(cache_dir@, bundle_identifier@)
                        &&& run.args.deep_view() == inner
                    },
                }
            },
            Err(message) => args@.len() == 0 && message@
                == "Empty argument list passed to LaunchServices helper"@,
        },
{
    if args.len() == 0 {
        return Err("Empty argument list passed to LaunchServices helper".to_owned());
    }
    let helper = ensure_exec_helper_app_at(cache_dir, bundle_identifier);
    let mut helper_args: Vec<String> = Vec::new();
    assert(helper_args.deep_view() =~= seq![]);
    add_text(&mut helper_args, "--result-dir");
    add_text(&mut helper_args, result_dir);
    add_text(&mut helper_args, "--");
    add_texts(&mut helper_args, args);
    assert(helper_args.deep_view() =~= helper_arguments(result_dir@, args.deep_view()));
    Ok(
        match launch_mode {
            HelperLaunchMode::Open(options) => Invocation {
                program: OPEN_PROGRAM.to_owned(),
                args: open_path(helper.app.as_str(), options, &helper_args),
            },
            HelperLaunchMode::Direct => Invocation {
                program: helper.executable,
                args: helper_args,
            },
        },
    )
}

/// Says how to run a command with LaunchServices, dropping the special
/// privileges of the window manager. Without a directory for caches it cannot
/// be run.
pub fn launch_cli_with_open(cache_dir: Option<&str>, args: &Vec<String>, result_dir: &str) -> (result:
    Result<Invocation, String>)
    ensures
        match cache_dir {
            Some(dir) => match result {
                Ok(run) => {
                    &&& args@.len() > 0
                    &&& run.program@ == OPEN_PROGRAM@
                    &&& run.args.deep_view() == open_arguments(
                        helper_app(dir@, EXEC_HELPER_BUNDLE_IDENTIFIER@),
                        OpenLaunchOptions {
                            new_instance: true,
                            background: true,
                            wait_for_exit: true,
                        },
                        helper_arguments(result_dir@, args.deep_view()),
                    )
                },
                Err(message) => args@.len() == 0 && message@
                    == "Empty argument list passed to LaunchServices helper"@,
            },
            None => result matches Err(message) && message@
                == "Could not determine cache directory to create LaunchServices helper"@,
        },
{
    match cache_dir {
        Some(dir) => launch_cli_with_helper_at(
            dir,
            EXEC_HELPER_BUNDLE_IDENTIFIER,
            args,
            HelperLaunchMode::Open(
                OpenLaunchOptions { new_instance: true, background: true, wait_for_exit: true },
            ),
            result_dir,
        ),
        None => Err(
            "Could not determine cache directory to create LaunchServices helper".to_owned(),
        ),
    }
}

/// Says how to run a command through the helper directly, without `open`.
/// Without a directory for caches it cannot be run.
pub fn launch_cli_privileged(cache_dir: Option<&str>, args: &Vec<String>, result_dir: &str) -> (
    result: Result<Invocation, String>)
    ensures
        match cache_dir {
            Some(dir) => match result {
                Ok(run) => {
                    &&& args@.len() > 0
                    &&& run.program@ == helper_executable(dir@, EXEC_HELPER_BUNDLE_IDENTIFIER@)
                    &&& run.args.deep_view() == helper_arguments(result_dir@, args.deep_view())
                },
                Err(message) => args@.len() == 0 && message@
                    == "Empty argument list passed to LaunchServices helper"@,
            },
            None => result matches Err(message) && message@
                == "Could not determine cache directory to create LaunchServices helper"@,
        },
{
    match cache_dir {
        Some(dir) => launch_cli_with_helper_at(
            dir,
            EXEC_HELPER_BUNDLE_IDENTIFIER,
            args,
            HelperLaunchMode::Direct,
            result_dir,
        ),
        None => Err(
            "Could not determine cache directory to create LaunchServices helper".to_owned(),
        ),
    }
}

/// Why the result of a command cannot be read.
#[derive(Debug, PartialEq, Eq)]
pub enum OutputError {
    /// There is no file with an exit status.
    MissingStatus,
    /// The file does not hold a number.
    InvalidStatus,
}

/// Reads the result of a command: what the files for the exit status and for the
/// output hold, if they are there. Without the latter, there is no output.
pub fn read_command_output(status: Option<String>, output: Option<String>) -> (result: Result<
    CommandOutput,
    OutputError,
>)
    ensures
        match status {
            None => result == Err::<CommandOutput, OutputError>(OutputError::MissingStatus),
            Some(text) => match i32_value(trimmed(text@)) {
                None => result == Err::<CommandOutput, OutputError>(OutputError::InvalidStatus),
                Some(value) => result matches Ok(read) && read.status == value && read.output@ == (
                match output {
                    Some(output) => output@,
                    None => seq![],
                }),
            },
        },
{
    let text = match status {
        Some(text) => text,
        None => return Err(OutputError::MissingStatus),
    };
    let number = trim(text.as_str());
    match parse_i32(number.as_str()) {
        Some(status) => Ok(
            CommandOutput {
                status,
                output: match output {
                    Some(output) => output,
                    None => String::new(),
                },
            },
        ),
        None => Err(OutputError::InvalidStatus),
    }
}

/// The property list of the helper, up to the name of its program.
pub const PLIST_HEAD: &'static str = "<?xml version=\"1.0\" encoding=\"UTF-8\"?>
<!DOCTYPE plist PUBLIC \"-//Apple//DTD PLIST 1.0//EN\" \"http://www.apple.com/DTDs/PropertyList-1.0.dtd\">
<plist version=\"1.0\">
<dict>
    <key>CFBundleDevelopmentRegion</key>
    <string>en</string>
    <key>CFBundleExecutable</key>
    <string>";

/// The property list, between the name of the program and the identifier.
pub const PLIST_MIDDLE: &'static str = "</string>
    <key>CFBundleIdentifier</key>
    <string>";

/// The property list, after the identifier.
pub const PLIST_TAIL: &'static str = "</string>
    <key>CFBundleInfoDictionaryVersion</key>
    <string>6.0</string>
    <key>CFBundleName</key>
    <string>GlideExec</string>
    <key>CFBundlePackageType</key>
    <string>APPL</string>
    <key>CFBundleShortVersionString</key>
    <string>1.0</string>
    <key>CFBundleVersion</key>
    <string>1</string>
    <key>LSBackgroundOnly</key>
    <true/>
</dict>
</plist>
";

/// The property list of the helper.
pub fn exec_helper_plist(bundle_identifier: &str) -> (plist: String)
    ensures
        plist@ == PLIST_HEAD@ + EXEC_HELPER_EXECUTABLE_NAME@ + PLIST_MIDDLE@ + bundle_identifier@
            + PLIST_TAIL@,
{
    PLIST_HEAD.to_owned().concat(EXEC_HELPER_EXECUTABLE_NAME).concat(PLIST_MIDDLE).concat(
        bundle_identifier,
    ).concat(PLIST_TAIL)
}

/// The program of the helper: it runs the command that follows `--` and writes
/// its output and its exit status to the directory that it is given.
pub const EXEC_HELPER_SCRIPT: &'static str = "#!/bin/sh
if [ \"$#\" -lt 3 ]; then
  exit 64
fi
if [ \"$1\" != \"--result-dir\" ]; then
  exit 64
fi
result_dir=\"$2\"
shift 2
if [ \"$1\" != \"--\" ]; then
  exit 64
fi
shift
if [ \"$#\" -eq 0 ]; then
  exit 64
fi
\"$@\" >\"$result_dir/output\" 2>&1
status=$?
printf '%s\\n' \"$status\" >\"$result_dir/status\"
exit \"$status\"
";

/// The program of the helper.
pub fn exec_helper_script() -> (script: &'static str)
    ensures
        script@ == EXEC_HELPER_SCRIPT@,
{
    EXEC_HELPER_SCRIPT
}

/// The helper reads its arguments as they were meant: it never refuses a
/// command, and runs just that command.
pub proof fn the_helper_understands_its_arguments(result_dir: Seq<char>, args: Seq<Seq<char>>)
    requires
        args.len() > 0,
    ensures
        script_reads(helper_arguments(result_dir, args)) == Some((result_dir, args)),
{
    assert(helper_arguments(result_dir, args).skip(3) =~= args);
}

/// An exit status that is written on a line of its own is read back.
pub proof fn a_written_status_is_read_back(status: int)
    requires
        i32::MIN <= status <= i32::MAX,
    ensures
        i32_value(trimmed(signed_decimal(status).push('\n'))) == Some(status),
{
    let number = signed_decimal(status);
    signed_decimal_is_not_white(status);
    signed_decimal_reads_back(status);
    assert(number.push('\n').drop_last() =~= number);
    reveal_with_fuel(trimmed, 3);
}

/// The bundle that the program runs from is the main one if it has an identifier,
/// and the other one otherwise, if there is one. It counts exactly where its
/// identifier is one of Glide; any other is named, and without one there is no
/// bundle.
pub proof fn the_bundle_with_an_identifier_counts(
    main: Bundle,
    fallback: Option<Bundle>,
    result: Result<Bundle, BundleError>,
)
    requires
        call_ensures(glide_bundle, (main, fallback), result),
    ensures
        main.identifier matches Some(identifier) ==> {
            &&& identifier.is_glide ==> result == Ok::<Bundle, BundleError>(main)
            &&& !identifier.is_glide ==> result == Err::<Bundle, BundleError>(
                BundleError::BundleNotGlide { identifier },
            )
        },
        main.identifier is None && fallback is Some ==> match fallback->0.identifier {
            Some(identifier) => {
                &&& identifier.is_glide ==> result == Ok::<Bundle, BundleError>(fallback->0)
                &&& !identifier.is_glide ==> result == Err::<Bundle, BundleError>(
                    BundleError::BundleNotGlide { identifier },
                )
            },
            None => result == Err::<Bundle, BundleError>(BundleError::NotInBundle),
        },
        main.identifier is None && fallback is None ==> result == Err::<Bundle, BundleError>(
            BundleError::NotInBundle,
        ),
{
}

/// A program lies in a bundle exactly where its last two directories are those for
/// the programs of a bundle; the bundle is what is above them.
pub proof fn bundles_hold_their_programs(exe: &str, root: Option<String>)
    requires
        call_ensures(bundle_fallback, (exe,), root),
        canonical(exe@),
    ensures
        ({
            let parts = pieces(exe@, '/');
            let n = parts.len() as int;
            &&& root is Some <==> n >= 4 && parts[n - 3] == "Contents"@ && parts[n - 2]
                == "MacOS"@
            &&& root is Some && n == 4 ==> root->0@ == "/"@
            &&& root is Some && n > 4 ==> exe@ == root->0@ + seq!['/'] + parts[n - 3] + seq!['/']
                + parts[n - 2] + seq!['/'] + parts[n - 1]
        }),
{
    let parts = pieces(exe@, '/');
    let n = parts.len() as int;
    pieces_join_back(exe@, '/');
    if root is Some && n > 4 {
        let a = parts.take(n - 3);
        let b = parts.take(n - 2);
        let c = parts.take(n - 1);
        assert(c.push(parts[n - 1]) =~= parts);
        assert(b.push(parts[n - 2]) =~= c);
        assert(a.push(parts[n - 3]) =~= b);
        joining_puts_one_separator_between(c, parts[n - 1], '/');
        joining_puts_one_separator_between(b, parts[n - 2], '/');
        joining_puts_one_separator_between(a, parts[n - 3], '/');
    }
}

/// Whether `all` are the flags, then the path, then the word that announces
/// arguments, and then the arguments.
pub open spec fn opens(
    all: Seq<Seq<char>>,
    path: Seq<char>,
    flags: Seq<Seq<char>>,
    args: Seq<Seq<char>>,
) -> bool {
    &&& all.len() == flags.len() + 2 + args.len()
    &&& all.take(flags.len() as int) == flags
    &&& all[flags.len() as int] == path
    &&& all[flags.len() as int + 1] == "--args"@
    &&& all.skip(flags.len() as int + 2) == args
}

/// `open` is given a flag for each thing that is asked of it: a new instance, to
/// stay in the background and hidden, and to wait. Then comes what is opened, and
/// then its arguments.
pub proof fn open_is_told_what_is_asked(
    path: &str,
    options: OpenLaunchOptions,
    args: Vec<String>,
    all: Vec<String>,
)
    requires
        call_ensures(open_path, (path, options, &args), all),
    ensures
        ({
            let asked = all.deep_view();
            let anew = if options.new_instance {
                1int
            } else {
                0
            };
            let hidden = if options.background {
                2int
            } else {
                0
            };
            let waiting = if options.wait_for_exit {
                1int
            } else {
                0
            };
            let n = anew + hidden + waiting;
            &&& opens(asked, path@, asked.take(n), args.deep_view())
            &&& options.new_instance ==> asked[0] == "-n"@
            &&& options.background ==> asked[anew] == "-g"@ && asked[anew + 1] == "-j"@
            &&& options.wait_for_exit ==> asked[anew + hidden] == "-W"@
        }),
{
    let asked = all.deep_view();
    let n = asked.len() - 2 - args.deep_view().len();
    assert(asked.skip(n + 2) =~= args.deep_view());
    assert(asked.take(n).len() == n);
}

/// Nothing is asked of `open` where nothing is said.
pub proof fn nothing_is_asked_by_default(options: OpenLaunchOptions)
    requires
        call_ensures(<OpenLaunchOptions as Default>::default, (), options),
    ensures
        !options.new_instance,
        !options.background,
        !options.wait_for_exit,
{
}

/// A bundle is launched by its path, without flags, with its arguments.
pub proof fn bundles_are_launched_by_their_path(
    bundle: Bundle,
    args: Vec<String>,
    all: Vec<String>,
)
    requires
        call_ensures(launch, (&bundle, &args), all),
    ensures
        opens(all.deep_view(), bundle.path@, seq![], args.deep_view()),
{
    assert(all.deep_view().take(0) =~= seq![]);
    assert(all.deep_view().skip(2) =~= args.deep_view());
}

/// A launch has worked exactly where the program says so; otherwise the report
/// holds its status, what it wrote as errors, and what it wrote.
pub proof fn failed_launches_are_reported(output: ProgramOutput, result: Result<(), String>)
    requires
        call_ensures(launch_result, (&output,), result),
    ensures
        result is Ok <==> output.success,
        result is Err ==> result->Err_0@ == "Launch failed with code "@ + output.status@
            + ". stderr:\n"@ + output.stderr@ + "\n\nstdout:\n"@ + output.stdout@,
{
}

/// The program is launched again by opening its bundle as a new instance, once. It
/// has to exit exactly where that worked; it is not launched where it does not run
/// from its bundle.
pub proof fn a_relaunch_opens_a_new_instance(
    bundle: Result<Bundle, BundleError>,
    output: Option<ProgramOutput>,
    step: RelaunchStep,
)
    requires
        call_ensures(relaunch_current_bundle, (&bundle, &output), step),
    ensures
        bundle is Err ==> step is Failed && step->Failed_0@
            == "Skipping relaunch because the current application is not Glide"@,
        bundle is Ok && output is None ==> step is Open && opens(
            step->Open_0.deep_view(),
            bundle->Ok_0.path@,
            seq!["-n"@],
            seq![],
        ),
        bundle is Ok && output is Some ==> {
            &&& output->0.success <==> step is Done
            &&& !output->0.success ==> step is Failed && step->Failed_0@
                == "Launch failed with code "@ + output->0.status@ + ". stderr:\n"@
                + output->0.stderr@ + "\n\nstdout:\n"@ + output->0.stdout@
        },
{
    if bundle is Ok && output is None {
        let all = step->Open_0.deep_view();
        assert(all.take(1) =~= seq!["-n"@]);
        assert(all.skip(3) =~= seq![]);
    }
}

/// The files of the helper lie in its bundle, which lies in the directory that is
/// named like it.
pub proof fn the_helper_lies_in_its_bundle(
    cache_dir: &str,
    bundle_identifier: &str,
    helper: HelperApp,
    holder: String,
    app: String,
    contents: String,
    macos: String,
    plist: String,
    executable: String,
)
    requires
        call_ensures(ensure_exec_helper_app_at, (cache_dir, bundle_identifier), helper),
        call_ensures(join_path, (cache_dir, bundle_identifier), holder),
        app@ == (if holder@.len() == 0 || holder@.last() == '/' {
            holder@
        } else {
            holder@ + seq!['/']
        }) + "GlideExec.app"@,
        contents@ == app@ + "/Contents"@,
        macos@ == contents@ + "/MacOS"@,
        plist@ == contents@ + "/Info.plist"@,
        executable@ == macos@ + "/glide_exec"@,
    ensures
        helper.app@ == app@,
        helper.macos@ == macos@,
        helper.plist@ == plist@,
        helper.executable@ == executable@,
{
    reveal_strlit("GlideExec.app");
    reveal_strlit("Contents");
    reveal_strlit("/Contents");
    reveal_strlit("MacOS");
    reveal_strlit("/MacOS");
    reveal_strlit("Info.plist");
    reveal_strlit("/Info.plist");
    reveal_strlit("glide_exec");
    reveal_strlit("/glide_exec");
    assert(helper.app@ =~= app@);
    assert("/Contents"@ =~= seq!['/'] + "Contents"@);
    assert("/MacOS"@ =~= seq!['/'] + "MacOS"@);
    assert("/Info.plist"@ =~= seq!['/'] + "Info.plist"@);
    assert("/glide_exec"@ =~= seq!['/'] + "glide_exec"@);
    assert(app@.last() == 'p');
    assert(path_below(app@, "Contents"@) =~= contents@);
    assert(contents@.last() == 's');
    assert(path_below(contents@, "MacOS"@) =~= macos@);
    assert(path_below(contents@, "Info.plist"@) =~= plist@);
    assert(macos@.last() == 'S');
    assert(path_below(macos@, "glide_exec"@) =~= executable@);
}

/// Whether `all` are the arguments that make the helper run a command and write
/// what becomes of it to a directory.
pub open spec fn runs_command(
    all: Seq<Seq<char>>,
    result_dir: Seq<char>,
    args: Seq<Seq<char>>,
) -> bool {
    &&& all.len() == 3 + args.len()
    &&& all[0] == "--result-dir"@
    &&& all[1] == result_dir
    &&& all[2] == "--"@
    &&& all.skip(3) == args
}

/// A command is run by the helper: by `open`, with the bundle of the helper, or by
/// its program itself. Either way the helper is given the whole command and the
/// directory. There has to be a command.
pub proof fn the_helper_is_given_the_command(
    cache_dir: &str,
    bundle_identifier: &str,
    args: Vec<String>,
    launch_mode: HelperLaunchMode,
    result_dir: &str,
    result: Result<Invocation, String>,
    helper: HelperApp,
)
    requires
        call_ensures(
            launch_cli_with_helper_at,
            (cache_dir, bundle_identifier, &args, launch_mode, result_dir),
            result,
        ),
        call_ensures(ensure_exec_helper_app_at, (cache_dir, bundle_identifier), helper),
    ensures
        result is Ok <==> args@.len() > 0,
        result is Err ==> result->Err_0@
            == "Empty argument list passed to LaunchServices helper"@,
        result is Ok && launch_mode is Direct ==> {
            &&& result->Ok_0.program@ == helper.executable@
            &&& runs_command(result->Ok_0.args.deep_view(), result_dir@, args.deep_view())
        },
        result is Ok && launch_mode is Open ==> {
            let all = result->Ok_0.args.deep_view();
            let n = all.len() - args@.len() - 5;
            &&& result->Ok_0.program@ == "/usr/bin/open"@
            &&& 0 <= n <= 4
            &&& all[n] == helper.app@
            &&& all[n + 1] == "--args"@
            &&& runs_command(all.skip(n + 2), result_dir@, args.deep_view())
        },
{
    let inner = helper_arguments(result_dir@, args.deep_view());
    assert(args.deep_view().len() == args@.len());
    assert(inner.skip(3) =~= args.deep_view());
    if result is Ok {
        if let HelperLaunchMode::Open(options) = launch_mode {
            let all = result->Ok_0.args.deep_view();
            let n = all.len() - args@.len() - 5;
            assert(all.skip(n + 2) =~= inner);
        }
    }
}

/// A command that drops privileges is run by `open`, as a new instance in the
/// background, and waited for.
pub proof fn unprivileged_commands_are_run_by_open(
    cache_dir: Option<&str>,
    args: Vec<String>,
    result_dir: &str,
    result: Result<Invocation, String>,
    helper: HelperApp,
)
    requires
        call_ensures(launch_cli_with_open, (cache_dir, &args, result_dir), result),
        cache_dir is Some ==> call_ensures(
            ensure_exec_helper_app_at,
            (cache_dir->0, "org.glidewm.exec-helper"),
            helper,
        ),
    ensures
        result is Ok <==> cache_dir is Some && args@.len() > 0,
        cache_dir is None ==> result->Err_0@
            == "Could not determine cache directory to create LaunchServices helper"@,
        cache_dir is Some && args@.len() == 0 ==> result->Err_0@
            == "Empty argument list passed to LaunchServices helper"@,
        result is Ok ==> {
            let all = result->Ok_0.args.deep_view();
            &&& result->Ok_0.program@ == "/usr/bin/open"@
            &&& all.len() == 9 + args@.len()
            &&& all[0] == "-n"@
            &&& all[1] == "-g"@
            &&& all[2] == "-j"@
            &&& all[3] == "-W"@
            &&& all[4] == helper.app@
            &&& all[5] == "--args"@
            &&& runs_command(all.skip(6), result_dir@, args.deep_view())
        },
{
    assert(args.deep_view().len() == args@.len());
    if result is Ok {
        let inner = helper_arguments(result_dir@, args.deep_view());
        assert(inner.skip(3) =~= args.deep_view());
        assert(result->Ok_0.args.deep_view().skip(6) =~= inner);
    }
}

/// A command that keeps privileges is run by the program of the helper itself.
pub proof fn privileged_commands_are_run_directly(
    cache_dir: Option<&str>,
    args: Vec<String>,
    result_dir: &str,
    result: Result<Invocation, String>,
    helper: HelperApp,
)
    requires
        call_ensures(launch_cli_privileged, (cache_dir, &args, result_dir), result),
        cache_dir is Some ==> call_ensures(
            ensure_exec_helper_app_at,
            (cache_dir->0, "org.glidewm.exec-helper"),
            helper,
        ),
    ensures
        result is Ok <==> cache_dir is Some && args@.len() > 0,
        cache_dir is None ==> result->Err_0@
            == "Could not determine cache directory to create LaunchServices helper"@,
        cache_dir is Some && args@.len() == 0 ==> result->Err_0@
            == "Empty argument list passed to LaunchServices helper"@,
        result is Ok ==> {
            &&& result->Ok_0.program@ == helper.executable@
            &&& runs_command(result->Ok_0.args.deep_view(), result_dir@, args.deep_view())
        },
{
    assert(args.deep_view().len() == args@.len());
    let inner = helper_arguments(result_dir@, args.deep_view());
    assert(inner.skip(3) =~= args.deep_view());
}

/// A result is read exactly where there is an exit status that is a number once
/// white space around it is taken away. Its output is what was written, or nothing.
pub proof fn results_are_read_by_their_status(
    status: Option<String>,
    output: Option<String>,
    result: Result<CommandOutput, OutputError>,
    text: &str,
    rest: String,
    number: &str,
    value: Option<i32>,
)
    requires
        call_ensures(read_command_output, (status, output), result),
        status is Some ==> text@ == status->0@,
        call_ensures(trim, (text,), rest),
        number@ == rest@,
        call_ensures(parse_i32, (number,), value),
    ensures
        status is None ==> result == Err::<CommandOutput, OutputError>(OutputError::MissingStatus),
        status is Some && value is None ==> result == Err::<CommandOutput, OutputError>(
            OutputError::InvalidStatus,
        ),
        status is Some && value is Some ==> {
            &&& result is Ok
            &&& result->Ok_0.status == value->0
            &&& output is Some ==> result->Ok_0.output@ == output->0@
            &&& output is None ==> result->Ok_0.output@.len() == 0
        },
{
}

/// The property list names the program of the helper and its identifier, and keeps
/// the helper in the background.
pub proof fn the_property_list_names_the_helper(bundle_identifier: &str, plist: String)
    requires
        call_ensures(exec_helper_plist, (bundle_identifier,), plist),
    ensures
        plist@ == "<?xml version=\"1.0\" encoding=\"UTF-8\"?>
<!DOCTYPE plist PUBLIC \"-//Apple//DTD PLIST 1.0//EN\" \"http://www.apple.com/DTDs/PropertyList-1.0.dtd\">
<plist version=\"1.0\">
<dict>
    <key>CFBundleDevelopmentRegion</key>
    <string>en</string>
    <key>CFBundleExecutable</key>
    <string>"@ + "glide_exec"@ + "</string>
    <key>CFBundleIdentifier</key>
    <string>"@ + bundle_identifier@ + "</string>
    <key>CFBundleInfoDictionaryVersion</key>
    <string>6.0</string>
    <key>CFBundleName</key>
    <string>GlideExec</string>
    <key>CFBundlePackageType</key>
    <string>APPL</string>
    <key>CFBundleShortVersionString</key>
    <string>1.0</string>
    <key>CFBundleVersion</key>
    <string>1</string>
    <key>LSBackgroundOnly</key>
    <true/>
</dict>
</plist>
"@,
{
}

/// The script of the helper refuses anything but a directory and a command, runs
/// the command, writes its output and its status to the directory, and exits with
/// that status.
pub proof fn the_script_runs_one_command(script: &'static str)
    requires
        call_ensures(exec_helper_script, (), script),
    ensures
        script@ == "#!/bin/sh
if [ \"$#\" -lt 3 ]; then
  exit 64
fi
if [ \"$1\" != \"--result-dir\" ]; then
  exit 64
fi
result_dir=\"$2\"
shift 2
if [ \"$1\" != \"--\" ]; then
  exit 64
fi
shift
if [ \"$#\" -eq 0 ]; then
  exit 64
fi
\"$@\" >\"$result_dir/output\" 2>&1
status=$?
printf '%s\\n' \"$status\" >\"$result_dir/status\"
exit \"$status\"
"@,
{
}

} // verus!
