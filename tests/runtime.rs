use pyappify::install::{get_app_install_details_by_url, get_filename_from_url, InstallError};
use pyappify::runtime::{
    next_install_action, InstallAction, InstallStage,
    download_progress, extract_archive, get_download_urls, get_latest_known_patch_for_major_minor,
    get_relevant_content, get_supported_python_versions, get_user_agent, install_requirements,
    needs_custom_user_agent, needs_dependency_sync, parse_python_version_output, parse_version,
    setup_python_env, tar_entry_target, user_agent_for_session, ArchiveKind, DownloadProgress,
    InstalledRuntime,
    RuntimeError, RuntimePlan,
};

#[test]
fn version_spec_forms() {
    let (mm, full) = parse_version("3.12").ok().unwrap();
    assert_eq!(mm, "3.12");
    assert_eq!(full, None);
    let (mm, full) = parse_version("3.11.4").ok().unwrap();
    assert_eq!(mm, "3.11");
    assert_eq!(full, Some("3.11.4".to_string()));
    assert!(matches!(parse_version("3"), Err(RuntimeError::InvalidVersionFormat)));
    assert!(matches!(parse_version("3.1.2.4"), Err(RuntimeError::InvalidVersionFormat)));
}

#[test]
fn latest_known_patch_table() {
    assert_eq!(get_latest_known_patch_for_major_minor("3.12").ok().unwrap(), "3.12.10");
    assert_eq!(get_latest_known_patch_for_major_minor("3.7").ok().unwrap(), "3.7.9");
    assert!(matches!(
        get_latest_known_patch_for_major_minor("2.7"),
        Err(RuntimeError::UnsupportedVersion)
    ));
}

#[test]
fn supported_lines_newest_first() {
    assert_eq!(
        get_supported_python_versions(),
        vec!["3.13", "3.12", "3.11", "3.10", "3.9", "3.8", "3.7"]
    );
}

#[test]
fn download_urls_by_locale() {
    let (a, b) = get_download_urls("3.12.10", "en").ok().unwrap();
    assert_eq!(a, "https://www.python.org/ftp/python/3.12.10/python-3.12.10-amd64.zip");
    assert_eq!(b, "https://mirrors.huaweicloud.com/python/3.12.10/python-3.12.10-amd64.zip");
    let (a, _) = get_download_urls("3.12", "zh-CN").ok().unwrap();
    assert_eq!(a, "https://mirrors.huaweicloud.com/python/3.12.10/python-3.12.10-amd64.zip");
    assert!(matches!(get_download_urls("3.12.1", "en"), Err(RuntimeError::NoDownloadUrl)));
}

#[test]
fn filename_from_url() {
    assert_eq!(
        get_filename_from_url("https://www.python.org/ftp/python/3.12.10/python-3.12.10-amd64.zip?x=1")
            .ok()
            .unwrap(),
        "python-3.12.10-amd64.zip"
    );
    assert!(matches!(get_filename_from_url("not a url"), Err(RuntimeError::InvalidUrl)));
    assert!(matches!(get_filename_from_url("https://example.com/dir/"), Err(RuntimeError::NoFileName)));
}

#[test]
fn runtime_reused_for_same_line() {
    let plan = setup_python_env("3.12", &InstalledRuntime::Reported("3.12.3".to_string()), "en");
    match plan {
        Ok(RuntimePlan::Reuse { version }) => assert_eq!(version, "3.12.3"),
        _ => panic!("expected reuse"),
    }
}

#[test]
fn exact_spec_reuses_only_that_release_or_the_table_patch() {
    match setup_python_env("3.12.3", &InstalledRuntime::Reported("3.12.3".to_string()), "en") {
        Ok(RuntimePlan::Reuse { version }) => assert_eq!(version, "3.12.3"),
        _ => panic!("expected reuse of the exact release"),
    }
    match setup_python_env("3.12.3", &InstalledRuntime::Reported("3.12.10".to_string()), "en") {
        Ok(RuntimePlan::Reuse { version }) => assert_eq!(version, "3.12.10"),
        _ => panic!("expected reuse of the table patch"),
    }
    match setup_python_env("3.12.3", &InstalledRuntime::Reported("3.12.7".to_string()), "en") {
        Ok(RuntimePlan::Install { remove_existing, version, .. }) => {
            assert!(remove_existing);
            assert_eq!(version, "3.12.10");
        }
        _ => panic!("expected the table patch to be installed"),
    }
}

#[test]
fn runtime_installed_for_other_line() {
    let plan = setup_python_env("3.11.2", &InstalledRuntime::Reported("3.12.3".to_string()), "en");
    match plan {
        Ok(RuntimePlan::Install { remove_existing, version, primary_url, backup_url, archive_name }) => {
            assert!(remove_existing);
            assert_eq!(version, "3.11.9");
            assert_eq!(primary_url, "https://www.python.org/ftp/python/3.11.9/python-3.11.9-amd64.zip");
            assert_eq!(backup_url, "https://mirrors.huaweicloud.com/python/3.11.9/python-3.11.9-amd64.zip");
            assert_eq!(archive_name, "python-3.11.9-amd64.zip");
        }
        _ => panic!("expected install"),
    }
    match setup_python_env("3.10", &InstalledRuntime::Missing, "en") {
        Ok(RuntimePlan::Install { remove_existing, archive_name, .. }) => {
            assert!(!remove_existing);
            assert_eq!(
                archive_name,
                "cpython-3.10.16+20250317-x86_64-pc-windows-msvc-install_only_stripped.tar.gz"
            );
        }
        _ => panic!("expected install"),
    }
}

#[test]
fn runtime_errors() {
    assert!(matches!(
        setup_python_env("3", &InstalledRuntime::Missing, "en"),
        Err(RuntimeError::InvalidVersionFormat)
    ));
    assert!(matches!(
        setup_python_env("2.7", &InstalledRuntime::Unusable, "en"),
        Err(RuntimeError::UnsupportedVersion)
    ));
}

#[test]
fn unparsable_reported_version_is_replaced() {
    for reported in ["garbage", "3", "unknown"] {
        match setup_python_env("3.12", &InstalledRuntime::Reported(reported.to_string()), "en") {
            Ok(RuntimePlan::Install { remove_existing, version, .. }) => {
                assert!(remove_existing);
                assert_eq!(version, "3.12.10");
            }
            _ => panic!("expected the table release to be installed"),
        }
    }
    assert!(matches!(
        setup_python_env("2.7", &InstalledRuntime::Reported("3".to_string()), "en"),
        Err(RuntimeError::UnsupportedVersion)
    ));
}

#[test]
fn version_output_parsing() {
    assert_eq!(parse_python_version_output("Python 3.12.10\n", "", true).ok().unwrap(), "3.12.10");
    assert_eq!(parse_python_version_output("", " Python 3.8.20", true).ok().unwrap(), "3.8.20");
    assert_eq!(parse_python_version_output("weird 1.0", "", true).ok().unwrap(), "1.0");
    assert!(matches!(
        parse_python_version_output("Python 3.12", "", false),
        Err(RuntimeError::VersionCommandFailed)
    ));
    assert!(matches!(
        parse_python_version_output("  ", "", true),
        Err(RuntimeError::NoVersionOutput)
    ));
    assert!(matches!(
        parse_python_version_output("Python", "", true),
        Err(RuntimeError::UnparsableVersionOutput)
    ));
}

#[test]
fn pip_command_for_requirements_file() {
    let pip = install_requirements(
        "requirements.txt",
        "/w/requirements.txt",
        "--pre  --no-deps",
        Some("/cache/pip"),
        Some("https://pypi.org/simple/"),
    );
    assert_eq!(
        pip.args,
        vec![
            "-m",
            "pip",
            "install",
            "--no-warn-script-location",
            "--pre",
            "--no-deps",
            "-r",
            "/w/requirements.txt",
            "--cache-dir",
            "/cache/pip",
            "--index-url",
            "https://pypi.org/simple/",
        ]
    );
    assert_eq!(pip.description, "pip install -r /w/requirements.txt");
}

#[test]
fn pip_args_override_index() {
    let pip = install_requirements(".", "/w/.", "-i https://mirror/simple", None, Some("https://pypi.org/simple/"));
    assert_eq!(
        pip.args,
        vec!["-m", "pip", "install", "--no-warn-script-location", "-i", "https://mirror/simple", "."]
    );
    assert_eq!(pip.description, "pip install .");
}

#[test]
fn dependency_sync_skipped_when_nothing_changed() {
    assert!(!needs_dependency_sync("requirements.txt", "requirements.txt", Some("a==1"), Some("a==1")));
}

#[test]
fn dependency_sync_when_content_changed() {
    assert!(needs_dependency_sync("requirements.txt", "requirements.txt", Some("a==1"), Some("a==2")));
    assert!(needs_dependency_sync("requirements.txt", "requirements.txt", None, Some("a==2")));
}

#[test]
fn dependency_sync_when_spec_changed_or_empty() {
    assert!(needs_dependency_sync("requirements.txt", ".", None, None));
    assert!(!needs_dependency_sync("requirements.txt", "", Some("x"), None));
}

#[test]
fn relevant_content_file() {
    assert_eq!(get_relevant_content(""), None);
    assert_eq!(get_relevant_content("req.txt"), Some("req.txt".to_string()));
    assert_eq!(get_relevant_content("."), Some("pyproject.toml".to_string()));
}

#[test]
fn user_agent_shape() {
    let ua = get_user_agent();
    assert!(ua.starts_with("modelscope/1.26.0; python/3.12.3; session_id/"));
    let session = &ua["modelscope/1.26.0; python/3.12.3; session_id/".len()..][..32];
    assert!(session.chars().all(|c| c.is_ascii_alphanumeric()));
    assert!(ua.ends_with("; env/custom; user/unknown"));
    assert_eq!(
        user_agent_for_session("abc"),
        "modelscope/1.26.0; python/3.12.3; session_id/abc; platform/Windows-11-10.0.26100-SP0 AMD64 Family 25 Model 97 Stepping 2, AuthenticAMD; processor/AuthenticAMD; env/custom; user/unknown"
    );
    assert!(needs_custom_user_agent("https://www.modelscope.cn/models/x"));
    assert!(!needs_custom_user_agent("https://www.python.org/"));
}

#[test]
fn progress_reports_tenths_of_a_percent() {
    assert_eq!(download_progress(0, 2000, None), Some(DownloadProgress::Tenths(0)));
    assert_eq!(download_progress(1, 2000, Some(0)), None);
    assert_eq!(download_progress(2, 2000, Some(0)), Some(DownloadProgress::Tenths(1)));
    assert_eq!(download_progress(1999, 2000, Some(998)), Some(DownloadProgress::Tenths(999)));
    assert_eq!(download_progress(2000, 2000, Some(999)), Some(DownloadProgress::Tenths(1000)));
}

#[test]
fn progress_with_unknown_total_reports_every_time() {
    assert_eq!(download_progress(5, 0, None), Some(DownloadProgress::Received(5)));
    assert_eq!(download_progress(9, 0, Some(3)), Some(DownloadProgress::Received(9)));
}

#[test]
fn archive_formats() {
    assert!(matches!(extract_archive("python-3.12.10-amd64.zip"), Ok(ArchiveKind::Zip)));
    assert!(matches!(extract_archive("cpython.tar.gz"), Ok(ArchiveKind::TarGz)));
    assert!(matches!(extract_archive("cpython.tar.zst"), Err(RuntimeError::UnsupportedArchive)));
}

#[test]
fn tar_entries_lose_python_prefix() {
    let c = |v: &[&str]| v.iter().map(|s| s.to_string()).collect::<Vec<String>>();
    assert_eq!(tar_entry_target(&c(&["python", "Lib", "os.py"])), Some(c(&["Lib", "os.py"])));
    assert_eq!(tar_entry_target(&c(&["python"])), None);
    assert_eq!(tar_entry_target(&c(&["other", "x"])), None);
}

#[test]
fn install_details_from_https_url() {
    let d = get_app_install_details_by_url(" https://github.com/ok-oldking/pyappify.git ").ok().unwrap();
    assert_eq!(d.name, "pyappify");
    assert_eq!(d.url, " https://github.com/ok-oldking/pyappify.git ");
    assert_eq!(d.python_versions.len(), 7);
}

#[test]
fn install_details_from_scp_and_paths() {
    assert_eq!(get_app_install_details_by_url("git@github.com:user/tool.git").ok().unwrap().name, "tool");
    assert_eq!(get_app_install_details_by_url("https://example.com/a/b/").ok().unwrap().name, "b");
    assert_eq!(get_app_install_details_by_url("/srv/repos/app").ok().unwrap().name, "app");
    assert!(matches!(get_app_install_details_by_url("a/.."), Err(InstallError::NoName)));
    assert!(matches!(get_app_install_details_by_url("httpfoo"), Err(InstallError::NoPath)));
}

#[test]
fn install_sequence() {
    assert!(matches!(next_install_action(InstallStage::PrimaryDownload, true), InstallAction::Extract));
    assert!(matches!(next_install_action(InstallStage::PrimaryDownload, false), InstallAction::TryBackup));
    assert!(matches!(next_install_action(InstallStage::BackupDownload, true), InstallAction::Extract));
    assert!(matches!(
        next_install_action(InstallStage::BackupDownload, false),
        InstallAction::Fail { error: RuntimeError::DownloadFailed, remove_install_dir: false }
    ));
    assert!(matches!(next_install_action(InstallStage::Extraction, true), InstallAction::CheckExecutable));
    assert!(matches!(
        next_install_action(InstallStage::Extraction, false),
        InstallAction::Fail { error: RuntimeError::ExtractionFailed, remove_install_dir: true }
    ));
    assert!(matches!(next_install_action(InstallStage::ExecutableCheck, true), InstallAction::Installed));
    assert!(matches!(
        next_install_action(InstallStage::ExecutableCheck, false),
        InstallAction::Fail { error: RuntimeError::CorruptInstall, remove_install_dir: true }
    ));
}
