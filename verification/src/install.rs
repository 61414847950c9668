//! The install pipeline's decision core.
//!
//! Installing a release asset runs a fixed sequence of filesystem steps:
//! clear and recreate the version directory, stream the archive into it,
//! extract, patch the executable bit, and rebind the active-version links.
//! The steps themselves are I/O and live with the caller; this module owns
//! every decision about them — which step follows which, which error each
//! failure maps to, and where the pipeline stops — together with the path
//! arithmetic, and a model of the steps' effects on the version directory
//! strong enough to prove that reinstalling leaves no stale contents behind.

use vstd::prelude::*;

verus! {

/// One step of the install pipeline, each a distinct failure domain.
#[derive(Debug, Clone, Copy, PartialEq, Eq, Structural)]
pub enum InstallStep {
    /// Remove the version directory if present, then recreate it empty.
    PrepareVersionDir,
    /// Stream the asset's payload to the archive file inside the version
    /// directory.
    DownloadArchive,
    /// Extract the archive into the version directory, stripping a single
    /// leading path component if the archive is single-root-wrapped.
    ExtractArchive,
    /// OR the owner-execute bit onto the main executable under `bin/`; only
    /// meaningful where POSIX permission bits exist.
    FixExecutableBit,
    /// Replace the canonical active-version link: ensure the bin directory,
    /// drop any prior entry, link to the new executable.
    RebindPrimaryLink,
    /// The same remove-then-link in the user-facing bin directory;
    /// best-effort only.
    RebindSecondaryLink,
}

/// Why an install attempt failed.
#[derive(Debug, Clone, Copy, PartialEq, Eq, Structural)]
pub enum InstallError {
    /// The version directory could not be removed or recreated.
    DirPrep,
    /// The payload download broke off; the whole attempt is abandoned.
    Download,
    /// The archive could not be extracted.
    Extract,
    /// The expected executable was not found after extraction.
    MissingExecutable,
    /// The canonical active-version link could not be rebound.
    LinkRebind,
}

/// What the pipeline does after a step has run.
#[derive(Debug, Clone, Copy, PartialEq, Eq, Structural)]
pub enum InstallOutcome {
    /// Run this step next.
    Proceed(InstallStep),
    /// Abort the install with this error; no further step runs.
    Fail(InstallError),
    /// The install is complete.
    Complete,
    /// The install is complete, but the best-effort secondary link failed;
    /// worth a warning, never fatal.
    CompleteWithWarning,
}

/// The step that every install attempt starts with.
pub fn first_install_step() -> (r: InstallStep)
    ensures
        r == InstallStep::PrepareVersionDir,
{
    InstallStep::PrepareVersionDir
}

/// The pipeline's transition table: given the step that just ran, whether it
/// succeeded, whether the platform carries POSIX permission bits, and whether
/// a secondary user bin directory is configured — what happens next.
pub open spec fn spec_install_next(
    step: InstallStep,
    ok: bool,
    posix: bool,
    has_secondary: bool,
) -> InstallOutcome {
    match step {
        InstallStep::PrepareVersionDir => if ok {
            InstallOutcome::Proceed(InstallStep::DownloadArchive)
        } else {
            InstallOutcome::Fail(InstallError::DirPrep)
        },
        InstallStep::DownloadArchive => if ok {
            InstallOutcome::Proceed(InstallStep::ExtractArchive)
        } else {
            InstallOutcome::Fail(InstallError::Download)
        },
        InstallStep::ExtractArchive => if !ok {
            InstallOutcome::Fail(InstallError::Extract)
        } else if posix {
            InstallOutcome::Proceed(InstallStep::FixExecutableBit)
        } else {
            InstallOutcome::Proceed(InstallStep::RebindPrimaryLink)
        },
        InstallStep::FixExecutableBit => if ok {
            InstallOutcome::Proceed(InstallStep::RebindPrimaryLink)
        } else {
            InstallOutcome::Fail(InstallError::MissingExecutable)
        },
        InstallStep::RebindPrimaryLink => if !ok {
            InstallOutcome::Fail(InstallError::LinkRebind)
        } else if has_secondary {
            InstallOutcome::Proceed(InstallStep::RebindSecondaryLink)
        } else {
            InstallOutcome::Complete
        },
        InstallStep::RebindSecondaryLink => if ok {
            InstallOutcome::Complete
        } else {
            InstallOutcome::CompleteWithWarning
        },
    }
}

/// Decides [`spec_install_next`]; the caller performs `Proceed` steps and
/// stops on anything else.
pub fn install_next(step: InstallStep, ok: bool, posix: bool, has_secondary: bool) -> (r:
    InstallOutcome)
    ensures
        r == spec_install_next(step, ok, posix, has_secondary),
{
    match step {
        InstallStep::PrepareVersionDir => if ok {
            InstallOutcome::Proceed(InstallStep::DownloadArchive)
        } else {
            InstallOutcome::Fail(InstallError::DirPrep)
        },
        InstallStep::DownloadArchive => if ok {
            InstallOutcome::Proceed(InstallStep::ExtractArchive)
        } else {
            InstallOutcome::Fail(InstallError::Download)
        },
        InstallStep::ExtractArchive => if !ok {
            InstallOutcome::Fail(InstallError::Extract)
        } else if posix {
            InstallOutcome::Proceed(InstallStep::FixExecutableBit)
        } else {
            InstallOutcome::Proceed(InstallStep::RebindPrimaryLink)
        },
        InstallStep::FixExecutableBit => if ok {
            InstallOutcome::Proceed(InstallStep::RebindPrimaryLink)
        } else {
            InstallOutcome::Fail(InstallError::MissingExecutable)
        },
        InstallStep::RebindPrimaryLink => if !ok {
            InstallOutcome::Fail(InstallError::LinkRebind)
        } else if has_secondary {
            InstallOutcome::Proceed(InstallStep::RebindSecondaryLink)
        } else {
            InstallOutcome::Complete
        },
        InstallStep::RebindSecondaryLink => if ok {
            InstallOutcome::Complete
        } else {
            InstallOutcome::CompleteWithWarning
        },
    }
}

/// A failed step never proceeds: every failure either aborts the install or,
/// for the best-effort secondary link alone, ends it with a warning.  In
/// particular a missing executable after extraction aborts with
/// [`InstallError::MissingExecutable`] before any link is rebound.
pub proof fn lemma_missing_executable_aborts(posix: bool, has_secondary: bool)
    ensures
        spec_install_next(InstallStep::FixExecutableBit, false, posix, has_secondary)
            == InstallOutcome::Fail(InstallError::MissingExecutable),
        forall|step: InstallStep, p: bool, h: bool|
            !(#[trigger] spec_install_next(step, false, p, h) is Proceed),
{
}

// ---------------------------------------------------------------------------
// Path arithmetic.  The caller resolves the platform's data directory; every
// path below it is computed here, so the layout is fixed in one place:
//   <data>/versions/<version>/           one directory per installed version
//   <data>/versions/<version>/bin/agda   the version's main executable
//   <data>/bin/agda                      the canonical active-version link
// ---------------------------------------------------------------------------
/// `<data>/versions/<version>`: the directory one version installs into.
pub fn version_dir_path(data_dir: &str, version: &str) -> (r: String)
    ensures
        r@ == data_dir@ + "/versions/"@ + version@,
{
    let mut r = String::from_str(data_dir);
    r.append("/versions/");
    r.append(version);
    r
}

/// `<version dir>/download.zip`: where the payload is streamed to.
pub fn download_path(version_dir: &str) -> (r: String)
    ensures
        r@ == version_dir@ + "/download.zip"@,
{
    let mut r = String::from_str(version_dir);
    r.append("/download.zip");
    r
}

/// `<version dir>/bin/agda`: the installed main executable.
pub fn executable_path(version_dir: &str) -> (r: String)
    ensures
        r@ == version_dir@ + "/bin/agda"@,
{
    let mut r = String::from_str(version_dir);
    r.append("/bin/agda");
    r
}

/// `<data>/bin`: the canonical bin directory holding the active link.
pub fn data_bin_dir(data_dir: &str) -> (r: String)
    ensures
        r@ == data_dir@ + "/bin"@,
{
    let mut r = String::from_str(data_dir);
    r.append("/bin");
    r
}

/// `<bin dir>/agda`: an active-version link inside a bin directory.
pub fn link_path(bin_dir: &str) -> (r: String)
    ensures
        r@ == bin_dir@ + "/agda"@,
{
    let mut r = String::from_str(bin_dir);
    r.append("/agda");
    r
}

// ---------------------------------------------------------------------------
// The steps' effect on the filesystem, abstractly: the version directory is
// a set of file names (or absent), and the canonical link a target path (or
// absent).  Nothing else persists — the directory's contents and the link's
// target are the sole record of which version is active.
// ---------------------------------------------------------------------------
/// Abstract filesystem state, as far as one version's install touches it.
#[verifier::ext_equal]
pub ghost struct FsModel {
    /// The names inside the version directory; `None` while it is absent.
    pub version_dir: Option<Set<Seq<char>>>,
    /// The target of the canonical active-version link, if it exists.
    pub active_link: Option<Seq<char>>,
}

/// The version directory's contents, an absent directory counting as empty.
pub open spec fn dir_files(fs: FsModel) -> Set<Seq<char>> {
    match fs.version_dir {
        Some(files) => files,
        None => Set::empty(),
    }
}

/// The name the downloaded archive is stored under.
pub open spec fn archive_file_name() -> Seq<char> {
    "download.zip"@
}

/// What one step, run successfully, does to the filesystem: `archive` is the
/// set of names the extraction writes, `exe` the path the link is bound to.
pub open spec fn apply_install_step(
    fs: FsModel,
    step: InstallStep,
    archive: Set<Seq<char>>,
    exe: Seq<char>,
) -> FsModel {
    match step {
        InstallStep::PrepareVersionDir => FsModel {
            version_dir: Some(Set::empty()),
            active_link: fs.active_link,
        },
        InstallStep::DownloadArchive => FsModel {
            version_dir: Some(dir_files(fs).insert(archive_file_name())),
            active_link: fs.active_link,
        },
        InstallStep::ExtractArchive => FsModel {
            version_dir: Some(dir_files(fs).union(archive)),
            active_link: fs.active_link,
        },
        InstallStep::FixExecutableBit => fs,
        InstallStep::RebindPrimaryLink => FsModel {
            version_dir: fs.version_dir,
            active_link: Some(exe),
        },
        InstallStep::RebindSecondaryLink => fs,
    }
}

/// Each step's distance from the end of the pipeline.
pub open spec fn step_rank(step: InstallStep) -> nat {
    match step {
        InstallStep::PrepareVersionDir => 5,
        InstallStep::DownloadArchive => 4,
        InstallStep::ExtractArchive => 3,
        InstallStep::FixExecutableBit => 2,
        InstallStep::RebindPrimaryLink => 1,
        InstallStep::RebindSecondaryLink => 0,
    }
}

/// The filesystem after running the pipeline from `step` onwards with every
/// step succeeding, following [`spec_install_next`].
pub open spec fn run_install_from(
    fs: FsModel,
    step: InstallStep,
    archive: Set<Seq<char>>,
    exe: Seq<char>,
    posix: bool,
    has_secondary: bool,
) -> FsModel
    decreases step_rank(step),
{
    let fs2 = apply_install_step(fs, step, archive, exe);
    match spec_install_next(step, true, posix, has_secondary) {
        InstallOutcome::Proceed(next) => run_install_from(
            fs2,
            next,
            archive,
            exe,
            posix,
            has_secondary,
        ),
        _ => fs2,
    }
}

/// The filesystem after one complete, successful install.
pub open spec fn run_install(
    fs: FsModel,
    archive: Set<Seq<char>>,
    exe: Seq<char>,
    posix: bool,
    has_secondary: bool,
) -> FsModel {
    run_install_from(fs, InstallStep::PrepareVersionDir, archive, exe, posix, has_secondary)
}

/// One successful install leaves the version directory holding exactly the
/// extracted names plus the downloaded archive — whatever was there before —
/// and binds the canonical link to the new executable.
pub proof fn lemma_install_result(
    fs: FsModel,
    archive: Set<Seq<char>>,
    exe: Seq<char>,
    posix: bool,
    has_secondary: bool,
)
    ensures
        dir_files(run_install(fs, archive, exe, posix, has_secondary)) == archive.insert(
            archive_file_name(),
        ),
        run_install(fs, archive, exe, posix, has_secondary).active_link == Some(exe),
{
    reveal_with_fuel(run_install_from, 7);
    assert(Set::empty().insert(archive_file_name()).union(archive) =~= archive.insert(
        archive_file_name(),
    ));
}

/// Install is repair-by-overwrite: running it twice in succession for the
/// same version leaves the version directory containing only the second
/// run's contents — no leftovers from the first — and the active link bound
/// to the freshly installed executable.
pub proof fn lemma_reinstall_overwrites(
    fs: FsModel,
    first_archive: Set<Seq<char>>,
    second_archive: Set<Seq<char>>,
    exe: Seq<char>,
    posix: bool,
    has_secondary: bool,
)
    ensures
        ({
            let after = run_install(
                run_install(fs, first_archive, exe, posix, has_secondary),
                second_archive,
                exe,
                posix,
                has_secondary,
            );
            &&& dir_files(after) == second_archive.insert(archive_file_name())
            &&& after.active_link == Some(exe)
        }),
{
    lemma_install_result(fs, first_archive, exe, posix, has_secondary);
    lemma_install_result(
        run_install(fs, first_archive, exe, posix, has_secondary),
        second_archive,
        exe,
        posix,
        has_secondary,
    );
}

} // verus!
