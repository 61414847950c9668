use agdaup::install::{
    data_bin_dir, download_path, executable_path, first_install_step, install_next, link_path,
    version_dir_path, InstallError, InstallOutcome, InstallStep,
};

#[test]
fn paths_follow_the_layout() {
    let vd = version_dir_path("/home/u/.local/share/agdaup", "2.6.4");
    assert_eq!(vd, "/home/u/.local/share/agdaup/versions/2.6.4");
    assert_eq!(
        download_path(&vd),
        "/home/u/.local/share/agdaup/versions/2.6.4/download.zip"
    );
    assert_eq!(
        executable_path(&vd),
        "/home/u/.local/share/agdaup/versions/2.6.4/bin/agda"
    );
    let bin = data_bin_dir("/home/u/.local/share/agdaup");
    assert_eq!(bin, "/home/u/.local/share/agdaup/bin");
    assert_eq!(link_path(&bin), "/home/u/.local/share/agdaup/bin/agda");
}

#[test]
fn happy_path_runs_every_step_in_order() {
    let mut steps = vec![first_install_step()];
    let mut step = first_install_step();
    loop {
        match install_next(step, true, true, true) {
            InstallOutcome::Proceed(next) => {
                steps.push(next);
                step = next;
            }
            InstallOutcome::Complete => break,
            other => panic!("unexpected outcome: {:?}", other),
        }
    }
    assert_eq!(
        steps,
        vec![
            InstallStep::PrepareVersionDir,
            InstallStep::DownloadArchive,
            InstallStep::ExtractArchive,
            InstallStep::FixExecutableBit,
            InstallStep::RebindPrimaryLink,
            InstallStep::RebindSecondaryLink,
        ]
    );
}

#[test]
fn non_posix_hosts_skip_the_permission_step() {
    assert_eq!(
        install_next(InstallStep::ExtractArchive, true, false, false),
        InstallOutcome::Proceed(InstallStep::RebindPrimaryLink)
    );
}

#[test]
fn without_secondary_bin_dir_install_completes_after_primary_link() {
    assert_eq!(
        install_next(InstallStep::RebindPrimaryLink, true, true, false),
        InstallOutcome::Complete
    );
}

#[test]
fn each_failure_maps_to_its_own_error() {
    assert_eq!(
        install_next(InstallStep::PrepareVersionDir, false, true, true),
        InstallOutcome::Fail(InstallError::DirPrep)
    );
    assert_eq!(
        install_next(InstallStep::DownloadArchive, false, true, true),
        InstallOutcome::Fail(InstallError::Download)
    );
    assert_eq!(
        install_next(InstallStep::ExtractArchive, false, true, true),
        InstallOutcome::Fail(InstallError::Extract)
    );
    assert_eq!(
        install_next(InstallStep::RebindPrimaryLink, false, true, true),
        InstallOutcome::Fail(InstallError::LinkRebind)
    );
}

#[test]
fn missing_executable_aborts_before_any_link_step() {
    let r = install_next(InstallStep::FixExecutableBit, false, true, true);
    assert_eq!(r, InstallOutcome::Fail(InstallError::MissingExecutable));
    assert!(!matches!(r, InstallOutcome::Proceed(_)));
}

#[test]
fn secondary_link_failure_is_only_a_warning() {
    assert_eq!(
        install_next(InstallStep::RebindSecondaryLink, false, true, true),
        InstallOutcome::CompleteWithWarning
    );
}
