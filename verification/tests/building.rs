use hot_reload_core::build_plan::{
    collect_artifacts, first_exec, hashed_artifact_name, null_watcher, print_command, rebuild,
    run_watcher, select_fallback_artifact, should_overwrite_existing, CompilerMessage,
    WatcherState,
};
use hot_reload_core::lifecycle::{
    await_file_step, load_plan, AwaitAction, LibraryError, LibraryRegistry, ReleaseAction,
};
use hot_reload_core::metadata::{
    find_package_target, select_single_library, LibraryCandidate, LibrarySelectError, PackageInfo,
    TargetInfo,
};
use hot_reload_core::build_plan::linker_search_directories;
use hot_reload_core::settings::{
    load_build_settings, linker_from_flags, settings_ready, BuildSettings, BuildSettingsReady,
    CliPaths, SettingsError,
};
use hot_reload_core::target::Target;
use hot_reload_core::text::{
    ends_with, eq_str, find_sub, rfind_char, split_by, starts_with, u32_decimal,
};

fn sample_settings() -> BuildSettings {
    BuildSettings {
        lib_path: "/t/hot/libgame.so".to_string(),
        watch_folder: "/src".to_string(),
        manifest: Some("/proj/Cargo.toml".to_string()),
        package: "game".to_string(),
        features: "hot".to_string(),
        out_target: "/t/hot".to_string(),
        target_folder: None,
    }
}

#[test]
fn settings_encode_exact_text() {
    let s = sample_settings();
    assert_eq!(
        s.encode(),
        "/t/hot/libgame.so:!:/src:!:/proj/Cargo.toml:!:game:!:hot:!:/t/hot:!:"
    );
}

#[test]
fn settings_round_trip_through_the_environment_string() {
    let s = sample_settings();
    let parsed = BuildSettings::parse(&s.encode()).expect("parses back");
    assert_eq!(parsed.lib_path, s.lib_path);
    assert_eq!(parsed.watch_folder, s.watch_folder);
    assert_eq!(parsed.manifest, s.manifest);
    assert_eq!(parsed.package, s.package);
    assert_eq!(parsed.features, s.features);
    assert_eq!(parsed.out_target, s.out_target);
    assert_eq!(parsed.target_folder, s.target_folder);
}

#[test]
fn settings_parse_names_the_missing_field() {
    let parse = |s: &str| BuildSettings::parse(&s.to_string());
    assert_eq!(parse("onlylib").unwrap_err(), SettingsError::NoWatchFolder);
    assert_eq!(parse("lib:!:watch").unwrap_err(), SettingsError::NoPackage);
    assert_eq!(parse("lib:!:watch:!:").unwrap_err(), SettingsError::NoPackage);
    assert_eq!(parse("lib:!:watch:!::!:pkg").unwrap_err(), SettingsError::NoFeatures);
    assert_eq!(parse("lib:!:watch:!::!:pkg:!:feat").unwrap_err(), SettingsError::NoOutTarget);
    let ok = parse("lib:!:watch:!::!:pkg:!:feat:!:out").expect("six fields suffice");
    assert_eq!(ok.manifest, None);
    assert_eq!(ok.target_folder, None);
}

#[test]
fn load_build_settings_yields_the_library_path() {
    let text = "lib.so:!:src:!::!:pkg:!:f:!:out".to_string();
    let (settings, paths) = load_build_settings(text).expect("loads");
    assert_eq!(settings.package, "pkg");
    assert_eq!(paths.library_path(), "lib.so");
}

#[test]
fn split_and_find_behave_as_documented() {
    assert_eq!(
        split_by(&"a:!:b:!:c".to_string(), ":!:"),
        vec!["a".to_string(), "b".to_string(), "c".to_string()]
    );
    assert_eq!(split_by(&"abc".to_string(), ":!:"), vec!["abc".to_string()]);
    assert_eq!(
        split_by(&":!:x".to_string(), ":!:"),
        vec!["".to_string(), "x".to_string()]
    );
    assert_eq!(find_sub("hello world", "world"), Some(6));
    assert_eq!(find_sub("hello", "xyz"), None);
    assert_eq!(rfind_char("a/b/c.so", '/'), Some(3));
    assert_eq!(rfind_char("abc", '/'), None);
    assert!(starts_with("stem-17.so", "stem-"));
    assert!(!starts_with("st", "stem"));
    assert!(ends_with("libgame.so", ".so"));
    assert!(!ends_with("libgame.so.bak", ".so"));
    assert!(eq_str("same", "same"));
    assert!(!eq_str("same", "sane"));
}

#[test]
fn linker_extraction_reads_the_fuse_ld_flag() {
    let flags = "-Zshare-generics=y -Clink-arg=-fuse-ld=lld".to_string();
    assert_eq!(linker_from_flags(&flags), Some("lld".to_string()));
    assert_eq!(linker_from_flags(&"-Zshare-generics=n".to_string()), None);
}

#[test]
fn settings_setup_ends_in_a_path_or_an_env_change() {
    let ready = settings_ready(
        "/t/hot/libgame.so".to_string(),
        "LD_LIBRARY_PATH".to_string(),
        "/t/hot".to_string(),
        true,
    );
    match ready {
        BuildSettingsReady::LibraryPath(l) => assert_eq!(l.library_path(), "/t/hot/libgame.so"),
        BuildSettingsReady::RequiredEnvChange(..) => panic!("paths were already set"),
    }
    let change = settings_ready(
        "/t/hot/libgame.so".to_string(),
        "LD_LIBRARY_PATH".to_string(),
        "/t/hot:/t/deps".to_string(),
        false,
    );
    match change {
        BuildSettingsReady::LibraryPath(_) => panic!("paths were missing"),
        BuildSettingsReady::RequiredEnvChange(var, val) => {
            assert_eq!(var, "LD_LIBRARY_PATH");
            assert_eq!(val, "/t/hot:/t/deps");
        }
    }
}

#[test]
fn linker_search_directories_keep_their_order() {
    let dirs = linker_search_directories(
        &vec!["/extra".to_string()],
        &"/out".to_string(),
        &"/out/deps".to_string(),
        &"/out/examples".to_string(),
        &vec!["/sdk".to_string()],
    );
    assert_eq!(
        dirs,
        vec![
            "/extra".to_string(),
            "/out".to_string(),
            "/out/deps".to_string(),
            "/out/examples".to_string(),
            "/sdk/usr/lib".to_string(),
        ]
    );
}

#[test]
fn cli_paths_derive_the_toolchain_directory() {
    let paths = CliPaths::new("/home/me/.data".to_string());
    assert_eq!(paths.data, "/home/me/.data");
    assert_eq!(paths.ziglang, "/home/me/.data/ziglang");
}

#[test]
fn dynamic_library_names_follow_the_target_convention() {
    assert_eq!(Target::LinuxX64.dynamic_lib_name("game"), "libgame.so");
    assert_eq!(Target::LinuxArm64.dynamic_lib_name("game"), "libgame.so");
    assert_eq!(Target::WindowsX64.dynamic_lib_name("game"), "game.dll");
    assert_eq!(Target::MacX64.dynamic_lib_name("game"), "libgame.dylib");
    assert_eq!(Target::MacArm64.dynamic_lib_name("game"), "libgame.dylib");
    assert_eq!(Target::LinuxX64.as_str(), "x86_64-unknown-linux-gnu");
}

#[test]
fn artifact_file_names_carry_the_build_identifier() {
    assert_eq!(Target::LinuxX64.artifact_file_name("game", 3), "libgame.3.so");
    assert_eq!(Target::WindowsX64.artifact_file_name("game", 17), "game.17.dll");
}

#[test]
fn decimal_rendering_is_exact() {
    assert_eq!(u32_decimal(0), "0");
    assert_eq!(u32_decimal(7), "7");
    assert_eq!(u32_decimal(10), "10");
    assert_eq!(u32_decimal(432), "432");
    assert_eq!(u32_decimal(u32::MAX), "4294967295");
}

#[test]
fn rebuild_invocation_lists_the_exact_arguments() {
    let plan = rebuild(&sample_settings());
    assert_eq!(plan.program, "cargo");
    assert_eq!(
        plan.args,
        vec![
            "build",
            "--profile",
            "dev",
            "-p",
            "game",
            "--lib",
            "--features",
            "hot",
            "--message-format=json",
            "--manifest-path",
            "/proj/Cargo.toml",
        ]
        .into_iter()
        .map(String::from)
        .collect::<Vec<_>>()
    );
    // the first execution builds exactly as any rebuild does
    let first = first_exec(&sample_settings());
    assert_eq!(first.program, plan.program);
    assert_eq!(first.args, plan.args);
}

#[test]
fn progress_stream_interpretation() {
    let messages = vec![
        CompilerMessage::Other,
        CompilerMessage::Artifact {
            is_dynamic_lib: true,
            filenames: vec!["liba.so".to_string(), "libb.so".to_string()],
        },
        CompilerMessage::Artifact {
            is_dynamic_lib: false,
            filenames: vec!["a.rlib".to_string()],
        },
        CompilerMessage::Finished { success: false },
        CompilerMessage::Finished { success: true },
    ];
    let (succeeded, files) = collect_artifacts(&messages);
    assert!(succeeded, "the last final message wins");
    assert_eq!(files, vec!["liba.so".to_string(), "libb.so".to_string()]);
    // no final message means failure
    let (succeeded, files) = collect_artifacts(&Vec::new());
    assert!(!succeeded);
    assert!(files.is_empty());
}

#[test]
fn command_rendering_for_log_lines() {
    let plan = rebuild(&BuildSettings {
        manifest: None,
        ..sample_settings()
    });
    assert_eq!(
        print_command(&plan),
        "'cargo build --profile dev -p game --lib --features hot --message-format=json'"
    );
}

#[test]
fn watcher_is_set_up_exactly_once() {
    let mut state = WatcherState::new();
    assert!(run_watcher(&mut state));
    assert!(!run_watcher(&mut state));
    assert!(!run_watcher(&mut state));
    null_watcher();
}

#[test]
fn fallback_artifact_selection_picks_the_newest_match() {
    let files = vec![
        ("libgame.so".to_string(), 100u64),
        ("libgame-1f.so".to_string(), 300u64),
        ("other.so".to_string(), 900u64),
        ("libgame.so.bak".to_string(), 500u64),
    ];
    let stem = "libgame".to_string();
    let ext = ".so".to_string();
    assert_eq!(select_fallback_artifact(&files, &stem, &ext), Some(1));
    // of equal times, the first listed wins
    let tied = vec![
        ("libgame.a.so".to_string(), 300u64),
        ("libgame.b.so".to_string(), 300u64),
    ];
    assert_eq!(select_fallback_artifact(&tied, &stem, &ext), Some(0));
    assert_eq!(select_fallback_artifact(&files, &"nothing".to_string(), &ext), None);
}

#[test]
fn hashed_file_names_are_recognized() {
    let stem = "libgame".to_string();
    assert!(hashed_artifact_name(&"libgame-8c1f.so".to_string(), &stem));
    assert!(!hashed_artifact_name(&"libgame.so".to_string(), &stem));
    assert!(!hashed_artifact_name(&"other-8c1f.so".to_string(), &stem));
}

#[test]
fn only_the_hot_library_itself_is_overwritten() {
    assert!(should_overwrite_existing(true));
    assert!(!should_overwrite_existing(false));
}

#[test]
fn copy_before_load_names_the_copy_and_the_backup() {
    let plan = load_plan(
        &"/out/hot/libgame.so".to_string(),
        false,
        &"3f2a".to_string(),
    );
    assert!(!plan.use_original);
    assert_eq!(plan.load_path, "/out/hot/3f2a.so");
    assert_eq!(plan.backup_path, Some("/out/hot/libgame.so.3f2a.backup".to_string()));

    let original = load_plan(&"/out/hot/libgame.so".to_string(), true, &"3f2a".to_string());
    assert!(original.use_original);
    assert_eq!(original.load_path, "/out/hot/libgame.so");
    assert_eq!(original.backup_path, None);

    // a file without an extension: the copy is the bare tag
    let bare = load_plan(&"/out/hot/game".to_string(), false, &"3f2a".to_string());
    assert_eq!(bare.load_path, "/out/hot/3f2a");
    assert_eq!(bare.backup_path, Some("/out/hot/game".to_string()));
}

#[test]
fn waiting_for_a_file_is_bounded() {
    assert_eq!(await_file_step(true, 10), AwaitAction::Proceed);
    assert_eq!(await_file_step(false, 10), AwaitAction::RetryAfterDelay);
    assert_eq!(await_file_step(false, 0), AwaitAction::GiveUp);
}

#[test]
fn registry_tells_missing_handles_from_unloaded_ones() {
    let mut registry = LibraryRegistry::new();
    let loaded = registry.insert("/tmp/a.so".to_string(), true);
    let unloaded = registry.insert("/tmp/b.so".to_string(), false);
    assert_ne!(loaded, unloaded);
    assert_eq!(registry.call_target(loaded), Ok("/tmp/a.so".to_string()));
    assert_eq!(
        registry.call_target(unloaded),
        Err(LibraryError::LibraryUnavailable { path: "/tmp/b.so".to_string() })
    );
    assert_eq!(registry.call_target(999), Err(LibraryError::MissingId));
}

#[test]
fn releasing_the_last_reference_unloads_before_deleting() {
    let mut registry = LibraryRegistry::new();
    let id = registry.insert("/tmp/copy.so".to_string(), true);
    let actions = registry.release(id).expect("the handle exists");
    // the native unload always precedes the backing file's removal
    assert_eq!(
        actions,
        vec![
            ReleaseAction::UnloadNative,
            ReleaseAction::DeleteFile { path: "/tmp/copy.so".to_string() },
        ]
    );
    // the handle is gone: further calls and releases fail distinctly
    assert_eq!(registry.call_target(id), Err(LibraryError::MissingId));
    assert_eq!(registry.release(id), Err(LibraryError::MissingId));
}

#[test]
fn releasing_an_unloaded_handle_only_deletes() {
    let mut registry = LibraryRegistry::new();
    let id = registry.insert("/tmp/copy.so".to_string(), false);
    let actions = registry.release(id).expect("the handle exists");
    assert_eq!(
        actions,
        vec![ReleaseAction::DeleteFile { path: "/tmp/copy.so".to_string() }]
    );
}

fn target_info(name: &str, is_lib: bool, is_bin: bool) -> TargetInfo {
    TargetInfo {
        name: name.to_string(),
        is_lib,
        is_bin,
        is_example: false,
    }
}

#[test]
fn package_target_prefers_the_library() {
    let p = PackageInfo {
        name: "game".to_string(),
        targets: vec![target_info("tool", false, true), target_info("game", true, false)],
        default_run: Some("tool".to_string()),
    };
    assert_eq!(find_package_target(&p), Some("game".to_string()));
}

#[test]
fn package_target_falls_back_to_default_run_then_first_binary() {
    let with_default = PackageInfo {
        name: "game".to_string(),
        targets: vec![target_info("a", false, true), target_info("b", false, true)],
        default_run: Some("b".to_string()),
    };
    assert_eq!(find_package_target(&with_default), Some("b".to_string()));
    let without_default = PackageInfo {
        default_run: None,
        ..with_default
    };
    assert_eq!(find_package_target(&without_default), Some("a".to_string()));
    let nothing = PackageInfo {
        name: "empty".to_string(),
        targets: vec![],
        default_run: None,
    };
    assert_eq!(find_package_target(&nothing), None);
}

fn candidate(pkg: &str, tgt: &str, has_dylib: bool) -> LibraryCandidate {
    LibraryCandidate {
        package_name: pkg.to_string(),
        target_name: tgt.to_string(),
        has_dylib,
    }
}

#[test]
fn exactly_one_library_may_be_selected() {
    let candidates = vec![
        candidate("a", "liba", true),
        candidate("b", "libb", true),
        candidate("c", "notdylib", false),
    ];
    assert_eq!(
        select_single_library(&candidates, &None, &None),
        Err(LibrarySelectError::MultipleLibraries)
    );
    assert_eq!(
        select_single_library(&candidates, &Some("a".to_string()), &None),
        Ok(0)
    );
    assert_eq!(
        select_single_library(&candidates, &None, &Some("libb".to_string())),
        Ok(1)
    );
    assert_eq!(
        select_single_library(&candidates, &Some("c".to_string()), &None),
        Err(LibrarySelectError::NoMatchingLibraries)
    );
}
