use std::path::Path;

use glide_wm::sys::bundle::{
    bundle_fallback, ensure_exec_helper_app_at, exec_helper_plist, exec_helper_script,
    glide_bundle, launch, launch_cli_privileged, launch_cli_with_helper_at, launch_cli_with_open,
    launch_result, open_path, read_command_output, relaunch_current_bundle, Bundle, BundleError,
    BundleIdentifier, HelperLaunchMode, MustExit, OpenLaunchOptions, OutputError, ProgramOutput,
    RelaunchStep, EXEC_HELPER_APP_NAME, EXEC_HELPER_BUNDLE_IDENTIFIER,
    EXEC_HELPER_EXECUTABLE_NAME,
};

fn bundle(path: &str, identifier: Option<(&str, bool)>) -> Bundle {
    Bundle {
        path: path.to_owned(),
        identifier: identifier
            .map(|(text, is_glide)| BundleIdentifier { text: text.to_owned(), is_glide }),
    }
}

fn texts(words: &[&str]) -> Vec<String> {
    words.iter().map(|w| w.to_string()).collect()
}

fn output(success: bool) -> ProgramOutput {
    ProgramOutput {
        success,
        status: "exit status: 1".to_owned(),
        stdout: "out".to_owned(),
        stderr: "err".to_owned(),
    }
}

#[test]
fn the_main_bundle_counts_if_it_has_an_identifier() {
    let found = glide_bundle(
        bundle("/a", Some(("org.glidewm.glide", true))),
        Some(bundle("/b", Some(("org.glidewm.other", true)))),
    );
    assert_eq!(found.unwrap().path, "/a");
    let found = glide_bundle(
        bundle("/a", None),
        Some(bundle("/b", Some(("org.glidewm.other", true)))),
    );
    assert_eq!(found.unwrap().path, "/b");
}

#[test]
fn other_bundles_are_refused() {
    assert!(matches!(glide_bundle(bundle("/a", None), None), Err(BundleError::NotInBundle)));
    assert!(matches!(
        glide_bundle(bundle("/a", None), Some(bundle("/b", None))),
        Err(BundleError::NotInBundle)
    ));
    match glide_bundle(bundle("/a", Some(("com.example", false))), None) {
        Err(BundleError::BundleNotGlide { identifier }) => {
            assert_eq!(identifier.text, "com.example")
        }
        other => panic!("unexpected result {other:?}"),
    }
}

#[test]
fn bundles_are_found_by_their_program() {
    assert_eq!(
        bundle_fallback("/Applications/Glide.app/Contents/MacOS/glide").as_deref(),
        Some("/Applications/Glide.app")
    );
    assert_eq!(bundle_fallback("/Contents/MacOS/glide").as_deref(), Some("/"));
    assert_eq!(bundle_fallback("/usr/local/bin/glide"), None);
    assert_eq!(bundle_fallback("/MacOS/glide"), None);
    assert_eq!(bundle_fallback("/x/XContents/MacOS/glide"), None);
}

#[test]
fn open_takes_its_options_first() {
    let all = OpenLaunchOptions { new_instance: true, background: true, wait_for_exit: true };
    assert_eq!(
        open_path("/p.app", all, &texts(&["x"])),
        texts(&["-n", "-g", "-j", "-W", "/p.app", "--args", "x"])
    );
    assert_eq!(
        open_path("/p.app", OpenLaunchOptions::default(), &vec![]),
        texts(&["/p.app", "--args"])
    );
    assert_eq!(
        launch(&bundle("/p.app", None), &texts(&["--one", "two"])),
        texts(&["/p.app", "--args", "--one", "two"])
    );
}

#[test]
fn a_launch_that_fails_says_why() {
    assert_eq!(launch_result(&output(true)), Ok(()));
    assert_eq!(
        launch_result(&output(false)).unwrap_err(),
        "Launch failed with code exit status: 1. stderr:\nerr\n\nstdout:\nout"
    );
}

#[test]
fn relaunching_opens_the_bundle_anew() {
    let found = Ok(bundle("/p.app", Some(("org.glidewm.glide", true))));
    match relaunch_current_bundle(&found, &None) {
        RelaunchStep::Open(args) => assert_eq!(args, texts(&["-n", "/p.app", "--args"])),
        other => panic!("unexpected step {other:?}"),
    }
    assert!(matches!(
        relaunch_current_bundle(&found, &Some(output(true))),
        RelaunchStep::Done(MustExit)
    ));
    assert!(matches!(
        relaunch_current_bundle(&found, &Some(output(false))),
        RelaunchStep::Failed(message) if message.starts_with("Launch failed")
    ));
    assert!(matches!(
        relaunch_current_bundle(&Err(BundleError::NotInBundle), &None),
        RelaunchStep::Failed(message)
            if message == "Skipping relaunch because the current application is not Glide"
    ));
}

#[test]
fn the_helper_uses_the_directory_and_identifier_it_is_given() {
    let identifier = format!("{EXEC_HELPER_BUNDLE_IDENTIFIER}.test");
    let helper = ensure_exec_helper_app_at("/cache", &identifier);
    let base = Path::new("/cache").join(&identifier);
    let app = base.join(EXEC_HELPER_APP_NAME);
    assert_eq!(Path::new(&helper.app), app);
    assert_eq!(Path::new(&helper.plist), app.join("Contents/Info.plist"));
    assert_eq!(
        Path::new(&helper.executable),
        app.join(format!("Contents/MacOS/{EXEC_HELPER_EXECUTABLE_NAME}"))
    );
    assert_eq!(Path::new(&helper.macos), app.join("Contents/MacOS"));
    let plist = exec_helper_plist(&identifier);
    assert!(plist.contains(&identifier));
    assert!(plist.contains(EXEC_HELPER_EXECUTABLE_NAME));
    assert!(plist.starts_with("<?xml version=\"1.0\" encoding=\"UTF-8\"?>\n<!DOCTYPE plist"));
    assert!(plist.ends_with("    <true/>\n</dict>\n</plist>\n"));
    let script = exec_helper_script();
    assert!(script.contains("--result-dir"));
    assert!(script.contains("\"$@\" >\"$result_dir/output\" 2>&1"));
    assert!(script.contains("printf '%s\\n' \"$status\" >\"$result_dir/status\""));
}

#[test]
fn commands_are_handed_to_the_helper() {
    let args = texts(&["/usr/bin/touch", "/tmp/x"]);
    let run = launch_cli_with_helper_at("/c", "id", &args, HelperLaunchMode::Direct, "/r").unwrap();
    assert_eq!(run.program, "/c/id/GlideExec.app/Contents/MacOS/glide_exec");
    assert_eq!(run.args, texts(&["--result-dir", "/r", "--", "/usr/bin/touch", "/tmp/x"]));
    let run = launch_cli_with_open(Some("/c"), &args, "/r").unwrap();
    assert_eq!(run.program, "/usr/bin/open");
    assert_eq!(
        run.args,
        texts(&[
            "-n",
            "-g",
            "-j",
            "-W",
            "/c/org.glidewm.exec-helper/GlideExec.app",
            "--args",
            "--result-dir",
            "/r",
            "--",
            "/usr/bin/touch",
            "/tmp/x"
        ])
    );
    let run = launch_cli_privileged(Some("/c"), &args, "/r").unwrap();
    assert!(run.program.ends_with("org.glidewm.exec-helper/GlideExec.app/Contents/MacOS/glide_exec"));
}

#[test]
fn the_helper_needs_a_command_and_a_directory() {
    assert_eq!(
        launch_cli_with_open(Some("/c"), &vec![], "/r").unwrap_err(),
        "Empty argument list passed to LaunchServices helper"
    );
    assert_eq!(
        launch_cli_privileged(None, &texts(&["x"]), "/r").unwrap_err(),
        "Could not determine cache directory to create LaunchServices helper"
    );
    assert_eq!(
        launch_cli_with_open(None, &texts(&["x"]), "/r").unwrap_err(),
        "Could not determine cache directory to create LaunchServices helper"
    );
}

#[test]
fn results_are_read() {
    let read = read_command_output(Some("17\n".to_owned()), Some("hello".to_owned())).unwrap();
    assert_eq!((read.status, read.output.as_str()), (17, "hello"));
    let read = read_command_output(Some(" -1 ".to_owned()), None).unwrap();
    assert_eq!((read.status, read.output.as_str()), (-1, ""));
    assert_eq!(read_command_output(None, None).unwrap_err(), OutputError::MissingStatus);
    for bad in ["", "x", "1 2", "2147483648", "-", "0x1"] {
        assert_eq!(
            read_command_output(Some(bad.to_owned()), None).unwrap_err(),
            OutputError::InvalidStatus
        );
    }
}

#[test]
fn a_helper_that_is_named_by_its_whole_path_is_found_there() {
    let helper = ensure_exec_helper_app_at("/c", "/x");
    assert_eq!(helper.app, "/x/GlideExec.app");
    assert_eq!(helper.executable, "/x/GlideExec.app/Contents/MacOS/glide_exec");
}
