use kokorobox_native::executables::{
    collect_candidates, find_executables, is_executable, matching_entries, name_matches,
    normalized_key, plan_search, split_search_path_exec, standard_search_directories,
    CandidateProbe, ExecutableCandidate, ExecutableSearchOptions, SearchStep,
};
use kokorobox_native::TargetOs;

fn executable(path: &str) -> CandidateProbe {
    CandidateProbe {
        path: path.to_string(),
        metadata: Some((true, 0o755)),
        canonical: Some(path.to_string()),
    }
}

#[test]
fn finds_executables_and_deduplicates_canonical_paths() {
    let directory = "/tmp/kokorobox-native-executables".to_string();
    let options = ExecutableSearchOptions {
        names: vec!["mihomo".to_string()],
        ..Default::default()
    };
    let steps = plan_search(&vec![directory.clone(), directory.clone()], &options, TargetOs::Linux);
    assert_eq!(
        steps,
        vec![SearchStep::Probe(vec!["/tmp/kokorobox-native-executables/mihomo".to_string()])]
    );
    let probes = vec![
        executable("/tmp/kokorobox-native-executables/mihomo"),
        executable("/tmp/kokorobox-native-executables/mihomo"),
    ];
    let candidates = collect_candidates(&probes, TargetOs::Linux);
    assert_eq!(candidates.len(), 1);
    assert_eq!(candidates[0].name, "mihomo");
}

#[test]
fn supports_explicit_prefix_matching() {
    let directory = "/tmp/kokorobox-native-prefix".to_string();
    let options = ExecutableSearchOptions {
        names: vec!["mihomo".to_string()],
        match_name_prefixes: true,
        ..Default::default()
    };
    let steps = plan_search(&vec![directory.clone()], &options, TargetOs::Linux);
    assert_eq!(steps, vec![SearchStep::ListDirectory(directory.clone())]);
    let listed = vec![
        "/tmp/kokorobox-native-prefix/unrelated".to_string(),
        "/tmp/kokorobox-native-prefix/mihomo-alpha".to_string(),
    ];
    let kept = matching_entries(&listed, &options.names, TargetOs::Linux);
    assert_eq!(kept, vec!["/tmp/kokorobox-native-prefix/mihomo-alpha".to_string()]);
    let candidates = collect_candidates(&vec![executable(&kept[0])], TargetOs::Linux);
    assert_eq!(candidates.len(), 1);
    assert_eq!(candidates[0].name, "mihomo-alpha");
}

#[test]
fn search_covers_additional_then_standard_directories() {
    let options = ExecutableSearchOptions {
        names: vec!["mihomo".to_string()],
        additional_paths: vec!["/opt/kb".to_string()],
        match_name_prefixes: false,
    };
    let steps = find_executables(
        &options,
        TargetOs::Linux,
        &Some("/usr/bin:relative::/opt/kb".to_string()),
        &None,
        &Some("/home/u".to_string()),
    )
    .unwrap();
    let probed: Vec<String> = steps
        .iter()
        .map(|step| match step {
            SearchStep::Probe(paths) => paths[0].clone(),
            SearchStep::ListDirectory(directory) => panic!("listed {directory}"),
        })
        .collect();
    assert_eq!(
        probed,
        vec![
            "/opt/kb/mihomo",
            "/usr/bin/mihomo",
            "/bin/mihomo",
            "/usr/local/bin/mihomo",
            "/opt/homebrew/bin/mihomo",
            "/home/u/.local/bin/mihomo",
            "/home/u/bin/mihomo",
        ]
    );
    let error = find_executables(
        &ExecutableSearchOptions::default(),
        TargetOs::Linux,
        &None,
        &None,
        &None,
    )
    .unwrap_err();
    assert_eq!(error.message, "executable discovery requires between 1 and 32 names");
}

#[test]
fn windows_search_adds_exe_and_folds_case() {
    let options = ExecutableSearchOptions {
        names: vec!["mihomo".to_string(), "tool.bat".to_string()],
        additional_paths: vec!["C:\\Tools".to_string(), "c:\\tools".to_string()],
        match_name_prefixes: false,
    };
    let steps = plan_search(&options.additional_paths, &options, TargetOs::Windows);
    assert_eq!(
        steps,
        vec![SearchStep::Probe(vec![
            "C:\\Tools\\mihomo".to_string(),
            "C:\\Tools\\mihomo.exe".to_string(),
            "C:\\Tools\\tool.bat".to_string(),
        ])]
    );
    assert_eq!(normalized_key("C:\\Tools\\Mihomo.EXE", TargetOs::Windows), "c:\\tools\\mihomo.exe");
    assert_eq!(normalized_key("/Opt/Mihomo", TargetOs::Linux), "/Opt/Mihomo");
    assert!(name_matches("MIHOMO.exe", &vec!["mihomo".to_string()], false, TargetOs::Windows));
    assert!(!name_matches("MIHOMO", &vec!["mihomo".to_string()], false, TargetOs::Linux));
    assert!(name_matches("mihomo-alpha.exe", &vec!["mihomo.exe".to_string()], true, TargetOs::Windows));
}

#[test]
fn standard_directories_per_platform() {
    assert_eq!(
        standard_search_directories(
            &Some("\"C:\\Program Files\\App\";D:\\bin;relative".to_string()),
            &Some("C:\\ProgramData".to_string()),
            &Some("C:\\Users\\u".to_string()),
            TargetOs::Windows,
        ),
        vec![
            "C:\\Program Files\\App",
            "D:\\bin",
            "C:\\ProgramData\\chocolatey\\bin",
            "C:\\Users\\u\\scoop\\shims",
        ]
    );
    assert_eq!(
        standard_search_directories(&None, &None, &None, TargetOs::Macos),
        vec!["/bin", "/usr/bin", "/usr/local/bin", "/opt/homebrew/bin"]
    );
    assert_eq!(
        split_search_path_exec("/a:/b", TargetOs::Linux),
        vec!["/a".to_string(), "/b".to_string()]
    );
}

#[test]
fn executables_need_a_file_and_the_platform_marker() {
    assert!(is_executable("/opt/mihomo", true, 0o100, TargetOs::Linux));
    assert!(!is_executable("/opt/mihomo", true, 0o644, TargetOs::Linux));
    assert!(!is_executable("/opt/mihomo", false, 0o755, TargetOs::Linux));
    assert!(is_executable("C:\\a\\mihomo.EXE", true, 0, TargetOs::Windows));
    assert!(!is_executable("C:\\a\\mihomo.bat", true, 0o755, TargetOs::Windows));
}

#[test]
fn candidates_skip_unreadable_and_duplicate_files() {
    let probes = vec![
        CandidateProbe { path: "/a/mihomo".to_string(), metadata: None, canonical: None },
        CandidateProbe {
            path: "/b/mihomo".to_string(),
            metadata: Some((true, 0o644)),
            canonical: Some("/b/mihomo".to_string()),
        },
        CandidateProbe {
            path: "/c/mihomo".to_string(),
            metadata: Some((true, 0o755)),
            canonical: Some("/real/mihomo".to_string()),
        },
        CandidateProbe {
            path: "/d/mihomo".to_string(),
            metadata: Some((true, 0o755)),
            canonical: Some("/real/mihomo".to_string()),
        },
        CandidateProbe {
            path: "/e/mihomo".to_string(),
            metadata: Some((true, 0o755)),
            canonical: None,
        },
    ];
    assert_eq!(
        collect_candidates(&probes, TargetOs::Linux),
        vec![ExecutableCandidate {
            path: "/c/mihomo".to_string(),
            canonical_path: "/real/mihomo".to_string(),
            name: "mihomo".to_string(),
        }]
    );
}
