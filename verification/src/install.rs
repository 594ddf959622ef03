//! Installing packages into an environment, as a state machine: the
//! caller creates directories, runs the package manager, downloads and
//! unpacks, and hands back what came of each step; the machine decides
//! what follows, which packages are fetched and recorded, and that the
//! download directory is removed whichever way the installation ends.
use vstd::prelude::*;
use crate::pkgtools::{
    apt_download_set, is_package_file, is_package_file_spec, listed_dependencies,
    parse_pacman_urls, pacman_urls, PackageManager,
};
use crate::envmeta::{merged, record_packages};

verus! {

/// Why an installation stopped before unpacking anything.
#[derive(Clone, Copy, PartialEq, Eq, Structural)]
pub enum InstallFailure {
    DnfDownload,
    AptDownload,
    NoPacmanUrls,
    Fetch,
}

/// How an installation ends.
#[derive(Clone, Copy, PartialEq, Eq, Structural)]
pub enum InstallOutcome {
    /// Packages were unpacked and recorded.
    Installed,
    /// The package manager gave nothing to unpack.
    NothingNew,
    /// A download failed; the program ends with exit code 1.
    Failed(InstallFailure),
}

/// What an installation waits for.
pub enum InstallPhase {
    Creating,
    Preparing,
    QueryingDependencies,
    QueryingUrls,
    Fetching { urls: Vec<String>, next: usize },
    Downloading,
    Listing,
    Extracting,
    Integrating,
    ReadingRecord,
    WritingRecord,
    CleaningUp { outcome: InstallOutcome },
    Finished,
}

pub enum InstallPhaseV {
    Creating,
    Preparing,
    QueryingDependencies,
    QueryingUrls,
    Fetching { urls: Seq<Seq<char>>, next: nat },
    Downloading,
    Listing,
    Extracting,
    Integrating,
    ReadingRecord,
    WritingRecord,
    CleaningUp { outcome: InstallOutcome },
    Finished,
}

/// An installation of `packages` with package manager `pm`.
pub struct InstallState {
    pub pm: PackageManager,
    pub packages: Vec<String>,
    pub phase: InstallPhase,
}

pub struct InstallStateV {
    pub pm: PackageManager,
    pub packages: Seq<Seq<char>>,
    pub phase: InstallPhaseV,
}

/// What came of the last action.
pub enum InstallEvent {
    /// The step completed.
    Done,
    /// The listings of `apt-cache depends`, one per requested package
    /// (`None` where the tool could not be run).
    Listings(Vec<Option<String>>),
    /// The output of `pacman -Sp`, if it could be run.
    UrlOutput(Option<String>),
    /// Whether a download succeeded.
    Status(bool),
    /// The files in the download directory.
    Files(Vec<String>),
    /// The recorded packages, when a record could be read.
    Record(Option<Vec<String>>),
}

pub enum InstallEventV {
    Done,
    Listings(Seq<Option<String>>),
    UrlOutput(Option<Seq<char>>),
    Status(bool),
    Files(Seq<Seq<char>>),
    Record(Option<Seq<Seq<char>>>),
}

/// What the caller does next.
pub enum InstallAction {
    /// Create the environment, which does not exist yet.
    CreateEnv,
    /// Empty the download directory.
    PrepareDownloads,
    /// List the dependencies of each package with `apt-cache depends`.
    QueryDependencies { packages: Vec<String> },
    /// Ask `pacman -Sp` for the download locations of the packages.
    QueryUrls { packages: Vec<String> },
    /// Download one package file from `url`.
    Fetch { url: String },
    /// Let the package manager download `packages`.
    Download { packages: Vec<String> },
    /// List the download directory.
    ListDownloads,
    /// Unpack these package files into the environment, in order.
    Extract { files: Vec<String> },
    /// Install the desktop entries of the environment.
    IntegrateDesktop,
    /// Read the environment's package record.
    ReadRecord,
    /// Write the package record.
    WriteRecord { packages: Vec<String> },
    /// Remove the download directory; the installation ends as `outcome`.
    RemoveDownloads { outcome: InstallOutcome },
    /// The installation is over.
    Finish { outcome: InstallOutcome },
    /// The event does not answer what the installation waits for.
    Unexpected,
}

pub enum InstallActionV {
    CreateEnv,
    PrepareDownloads,
    QueryDependencies { packages: Seq<Seq<char>> },
    QueryUrls { packages: Seq<Seq<char>> },
    Fetch { url: Seq<char> },
    Download { packages: Seq<Seq<char>> },
    ListDownloads,
    Extract { files: Seq<Seq<char>> },
    IntegrateDesktop,
    ReadRecord,
    WriteRecord { packages: Seq<Seq<char>> },
    RemoveDownloads { outcome: InstallOutcome },
    Finish { outcome: InstallOutcome },
    Unexpected,
}

impl View for InstallPhase {
    type V = InstallPhaseV;

    open spec fn view(&self) -> InstallPhaseV {
        match self {
            InstallPhase::Creating => InstallPhaseV::Creating,
            InstallPhase::Preparing => InstallPhaseV::Preparing,
            InstallPhase::QueryingDependencies => InstallPhaseV::QueryingDependencies,
            InstallPhase::QueryingUrls => InstallPhaseV::QueryingUrls,
            InstallPhase::Fetching { urls, next } => InstallPhaseV::Fetching {
                urls: urls.deep_view(),
                next: *next as nat,
            },
            InstallPhase::Downloading => InstallPhaseV::Downloading,
            InstallPhase::Listing => InstallPhaseV::Listing,
            InstallPhase::Extracting => InstallPhaseV::Extracting,
            InstallPhase::Integrating => InstallPhaseV::Integrating,
            InstallPhase::ReadingRecord => InstallPhaseV::ReadingRecord,
            InstallPhase::WritingRecord => InstallPhaseV::WritingRecord,
            InstallPhase::CleaningUp { outcome } => InstallPhaseV::CleaningUp { outcome: *outcome },
            InstallPhase::Finished => InstallPhaseV::Finished,
        }
    }
}

impl View for InstallState {
    type V = InstallStateV;

    open spec fn view(&self) -> InstallStateV {
        InstallStateV { pm: self.pm, packages: self.packages.deep_view(), phase: self.phase@ }
    }
}

impl View for InstallEvent {
    type V = InstallEventV;

    open spec fn view(&self) -> InstallEventV {
        match self {
            InstallEvent::Done => InstallEventV::Done,
            InstallEvent::Listings(l) => InstallEventV::Listings(l@),
            InstallEvent::UrlOutput(o) => InstallEventV::UrlOutput(o.deep_view()),
            InstallEvent::Status(b) => InstallEventV::Status(*b),
            InstallEvent::Files(f) => InstallEventV::Files(f.deep_view()),
            InstallEvent::Record(r) => InstallEventV::Record(r.deep_view()),
        }
    }
}

impl View for InstallAction {
    type V = InstallActionV;

    open spec fn view(&self) -> InstallActionV {
        match self {
            InstallAction::CreateEnv => InstallActionV::CreateEnv,
            InstallAction::PrepareDownloads => InstallActionV::PrepareDownloads,
            InstallAction::QueryDependencies { packages } => InstallActionV::QueryDependencies {
                packages: packages.deep_view(),
            },
            InstallAction::QueryUrls { packages } => InstallActionV::QueryUrls {
                packages: packages.deep_view(),
            },
            InstallAction::Fetch { url } => InstallActionV::Fetch { url: url@ },
            InstallAction::Download { packages } => InstallActionV::Download {
                packages: packages.deep_view(),
            },
            InstallAction::ListDownloads => InstallActionV::ListDownloads,
            InstallAction::Extract { files } => InstallActionV::Extract { files: files.deep_view() },
            InstallAction::IntegrateDesktop => InstallActionV::IntegrateDesktop,
            InstallAction::ReadRecord => InstallActionV::ReadRecord,
            InstallAction::WriteRecord { packages } => InstallActionV::WriteRecord {
                packages: packages.deep_view(),
            },
            InstallAction::RemoveDownloads { outcome } => InstallActionV::RemoveDownloads {
                outcome: *outcome,
            },
            InstallAction::Finish { outcome } => InstallActionV::Finish { outcome: *outcome },
            InstallAction::Unexpected => InstallActionV::Unexpected,
        }
    }
}

pub open spec fn in_phase(s: InstallStateV, p: InstallPhaseV) -> InstallStateV {
    InstallStateV { pm: s.pm, packages: s.packages, phase: p }
}

/// The files of the download directory that are packages of `pm`, in the
/// order listed.
pub open spec fn package_files(pm: PackageManager, files: Seq<Seq<char>>) -> Seq<Seq<char>> {
    files.filter(|f: Seq<char>| is_package_file_spec(pm, f))
}

/// The step that follows a successful download: list what arrived.
pub open spec fn after_download(s: InstallStateV) -> (InstallStateV, InstallActionV) {
    (in_phase(s, InstallPhaseV::Listing), InstallActionV::ListDownloads)
}

/// Ending: remove the download directory, then report `outcome`.
pub open spec fn clean_up(s: InstallStateV, outcome: InstallOutcome) -> (
    InstallStateV,
    InstallActionV,
) {
    (
        in_phase(s, InstallPhaseV::CleaningUp { outcome }),
        InstallActionV::RemoveDownloads { outcome },
    )
}

/// The step that follows an empty download directory: what the package
/// manager uses comes next.
pub open spec fn start_downloads(s: InstallStateV) -> (InstallStateV, InstallActionV) {
    match s.pm {
        PackageManager::Dnf => (
            in_phase(s, InstallPhaseV::Downloading),
            InstallActionV::Download { packages: s.packages },
        ),
        PackageManager::Apt => (
            in_phase(s, InstallPhaseV::QueryingDependencies),
            InstallActionV::QueryDependencies { packages: s.packages },
        ),
        PackageManager::Pacman => (
            in_phase(s, InstallPhaseV::QueryingUrls),
            InstallActionV::QueryUrls { packages: s.packages },
        ),
    }
}

/// The set of packages that apt downloads: the requested ones and their
/// listed dependencies, each once.
pub open spec fn is_apt_download_set(
    set: Seq<Seq<char>>,
    packages: Seq<Seq<char>>,
    listings: Seq<Option<String>>,
) -> bool {
    &&& set.no_duplicates()
    &&& forall|x: Seq<char>|
        set.contains(x) <==> (packages + listed_dependencies(listings)).contains(x)
}

/// The download failure for the package manager in use.
pub open spec fn download_failure(pm: PackageManager) -> InstallFailure {
    match pm {
        PackageManager::Apt => InstallFailure::AptDownload,
        _ => InstallFailure::DnfDownload,
    }
}

/// Whether `r` is a correct next state and action of installation `s`
/// after event `e`. The apt download set is fixed up to the order of its
/// packages.
pub open spec fn install_next(
    s: InstallStateV,
    e: InstallEventV,
    r: (InstallStateV, InstallActionV),
) -> bool {
    let unexpected = (s, InstallActionV::Unexpected);
    match s.phase {
        InstallPhaseV::Creating => r == match e {
            InstallEventV::Done => (in_phase(s, InstallPhaseV::Preparing), InstallActionV::PrepareDownloads),
            _ => unexpected,
        },
        InstallPhaseV::Preparing => r == match e {
            InstallEventV::Done => start_downloads(s),
            _ => unexpected,
        },
        InstallPhaseV::QueryingDependencies => match e {
            InstallEventV::Listings(l) => {
                &&& r.0 == in_phase(s, InstallPhaseV::Downloading)
                &&& r.1 matches InstallActionV::Download { packages } && is_apt_download_set(
                    packages,
                    s.packages,
                    l,
                )
            },
            _ => r == unexpected,
        },
        InstallPhaseV::QueryingUrls => r == match e {
            InstallEventV::UrlOutput(o) => {
                let urls = match o {
                    Some(out) => pacman_urls(out),
                    None => Seq::empty(),
                };
                if urls.len() == 0 {
                    clean_up(s, InstallOutcome::Failed(InstallFailure::NoPacmanUrls))
                } else {
                    (
                        in_phase(s, InstallPhaseV::Fetching { urls, next: 1 }),
                        InstallActionV::Fetch { url: urls[0] },
                    )
                }
            },
            _ => unexpected,
        },
        InstallPhaseV::Fetching { urls, next } => r == match e {
            InstallEventV::Status(ok) => if !ok {
                clean_up(s, InstallOutcome::Failed(InstallFailure::Fetch))
            } else if next < urls.len() {
                (
                    in_phase(s, InstallPhaseV::Fetching { urls, next: next + 1 }),
                    InstallActionV::Fetch { url: urls[next as int] },
                )
            } else {
                after_download(s)
            },
            _ => unexpected,
        },
        InstallPhaseV::Downloading => r == match e {
            InstallEventV::Status(ok) => if ok {
                after_download(s)
            } else {
                clean_up(s, InstallOutcome::Failed(download_failure(s.pm)))
            },
            _ => unexpected,
        },
        InstallPhaseV::Listing => r == match e {
            InstallEventV::Files(files) => {
                let pkgs = package_files(s.pm, files);
                if pkgs.len() == 0 {
                    clean_up(s, InstallOutcome::NothingNew)
                } else {
                    (in_phase(s, InstallPhaseV::Extracting), InstallActionV::Extract { files: pkgs })
                }
            },
            _ => unexpected,
        },
        InstallPhaseV::Extracting => r == match e {
            InstallEventV::Done => (
                in_phase(s, InstallPhaseV::Integrating),
                InstallActionV::IntegrateDesktop,
            ),
            _ => unexpected,
        },
        InstallPhaseV::Integrating => r == match e {
            InstallEventV::Done => (in_phase(s, InstallPhaseV::ReadingRecord), InstallActionV::ReadRecord),
            _ => unexpected,
        },
        InstallPhaseV::ReadingRecord => r == match e {
            InstallEventV::Record(rec) => {
                let existing = match rec {
                    Some(p) => p,
                    None => Seq::empty(),
                };
                (
                    in_phase(s, InstallPhaseV::WritingRecord),
                    InstallActionV::WriteRecord { packages: merged(existing, s.packages) },
                )
            },
            _ => unexpected,
        },
        InstallPhaseV::WritingRecord => r == match e {
            InstallEventV::Done => clean_up(s, InstallOutcome::Installed),
            _ => unexpected,
        },
        InstallPhaseV::CleaningUp { outcome } => r == match e {
            InstallEventV::Done => (
                in_phase(s, InstallPhaseV::Finished),
                InstallActionV::Finish { outcome },
            ),
            _ => unexpected,
        },
        InstallPhaseV::Finished => r == unexpected,
    }
}

/// The start of an installation of `packages` with `pm`: the environment
/// is created first when it does not exist, else the download directory
/// is prepared.
pub open spec fn install_start(pm: PackageManager, packages: Seq<Seq<char>>, env_exists: bool) -> (
    InstallStateV,
    InstallActionV,
) {
    if env_exists {
        (
            InstallStateV { pm, packages, phase: InstallPhaseV::Preparing },
            InstallActionV::PrepareDownloads,
        )
    } else {
        (
            InstallStateV { pm, packages, phase: InstallPhaseV::Creating },
            InstallActionV::CreateEnv,
        )
    }
}

/// Starts an installation of `packages` with `pm` into an environment
/// that exists or not.
pub fn start_install(pm: PackageManager, packages: Vec<String>, env_exists: bool) -> (r: (
    InstallState,
    InstallAction,
))
    ensures
        (r.0@, r.1@) == install_start(pm, packages.deep_view(), env_exists),
{
    if env_exists {
        (
            InstallState { pm, packages, phase: InstallPhase::Preparing },
            InstallAction::PrepareDownloads,
        )
    } else {
        (InstallState { pm, packages, phase: InstallPhase::Creating }, InstallAction::CreateEnv)
    }
}

fn cloned(v: &Vec<String>) -> (r: Vec<String>)
    ensures
        r.deep_view() == v.deep_view(),
{
    let r = v.clone();
    proof {
        vstd::std_specs::vec::vec_clone_deep_view_proof(*v, r);
    }
    r
}

fn keep_package_files(pm: PackageManager, files: &Vec<String>) -> (r: Vec<String>)
    ensures
        r.deep_view() == package_files(pm, files.deep_view()),
{
    let ghost f = |x: Seq<char>| is_package_file_spec(pm, x);
    let ghost fv = files.deep_view();
    let mut res: Vec<String> = Vec::new();
    let mut i: usize = 0;
    assert(fv.take(0) =~= Seq::<Seq<char>>::empty());
    assert(res.deep_view() =~= fv.take(0).filter(f));
    while i < files.len()
        invariant
            i <= files@.len(),
            fv == files.deep_view(),
            f == (|x: Seq<char>| is_package_file_spec(pm, x)),
            res.deep_view() == fv.take(i as int).filter(f),
        decreases files.len() - i,
    {
        assert(fv.take(i + 1).drop_last() =~= fv.take(i as int));
        assert(fv.take(i + 1).last() == fv[i as int]);
        assert(fv[i as int] == files@[i as int]@);
        reveal_with_fuel(Seq::filter, 1);
        if is_package_file(pm, files[i].as_str()) {
            let ghost before = res.deep_view();
            res.push(files[i].clone());
            assert(res.deep_view() =~= before.push(fv[i as int]));
        }
        i = i + 1;
    }
    assert(fv.take(files@.len() as int) =~= fv);
    res
}

/// Advances an installation by the event `e`.
pub fn install_step(s: InstallState, e: InstallEvent) -> (r: (InstallState, InstallAction))
    ensures
        install_next(s@, e@, (r.0@, r.1@)),
{
    let pm = s.pm;
    let packages = s.packages;
    match s.phase {
        InstallPhase::Creating => match e {
            InstallEvent::Done => (
                InstallState { pm, packages, phase: InstallPhase::Preparing },
                InstallAction::PrepareDownloads,
            ),
            _ => (InstallState { pm, packages, phase: InstallPhase::Creating }, InstallAction::Unexpected),
        },
        InstallPhase::Preparing => match e {
            InstallEvent::Done => match pm {
                PackageManager::Dnf => {
                    let p = cloned(&packages);
                    (
                        InstallState { pm, packages, phase: InstallPhase::Downloading },
                        InstallAction::Download { packages: p },
                    )
                },
                PackageManager::Apt => {
                    let p = cloned(&packages);
                    (
                        InstallState { pm, packages, phase: InstallPhase::QueryingDependencies },
                        InstallAction::QueryDependencies { packages: p },
                    )
                },
                PackageManager::Pacman => {
                    let p = cloned(&packages);
                    (
                        InstallState { pm, packages, phase: InstallPhase::QueryingUrls },
                        InstallAction::QueryUrls { packages: p },
                    )
                },
            },
            _ => (InstallState { pm, packages, phase: InstallPhase::Preparing }, InstallAction::Unexpected),
        },
        InstallPhase::QueryingDependencies => match e {
            InstallEvent::Listings(l) => {
                let set = apt_download_set(&packages, &l);
                (
                    InstallState { pm, packages, phase: InstallPhase::Downloading },
                    InstallAction::Download { packages: set },
                )
            },
            _ => (
                InstallState { pm, packages, phase: InstallPhase::QueryingDependencies },
                InstallAction::Unexpected,
            ),
        },
        InstallPhase::QueryingUrls => match e {
            InstallEvent::UrlOutput(o) => {
                let urls = match &o {
                    Some(out) => parse_pacman_urls(out.as_str()),
                    None => Vec::new(),
                };
                assert(urls.deep_view() == match o.deep_view() {
                    Some(out) => pacman_urls(out),
                    None => Seq::<Seq<char>>::empty(),
                }) by {
                    if o is None {
                        assert(urls.deep_view() =~= Seq::<Seq<char>>::empty());
                    }
                }
                if urls.len() == 0 {
                    let outcome = InstallOutcome::Failed(InstallFailure::NoPacmanUrls);
                    (
                        InstallState { pm, packages, phase: InstallPhase::CleaningUp { outcome } },
                        InstallAction::RemoveDownloads { outcome },
                    )
                } else {
                    let first = urls[0].clone();
                    assert(urls.deep_view()[0] == urls@[0]@);
                    (
                        InstallState {
                            pm,
                            packages,
                            phase: InstallPhase::Fetching { urls, next: 1 },
                        },
                        InstallAction::Fetch { url: first },
                    )
                }
            },
            _ => (
                InstallState { pm, packages, phase: InstallPhase::QueryingUrls },
                InstallAction::Unexpected,
            ),
        },
        InstallPhase::Fetching { urls, next } => match e {
            InstallEvent::Status(ok) => {
                if !ok {
                    let outcome = InstallOutcome::Failed(InstallFailure::Fetch);
                    (
                        InstallState { pm, packages, phase: InstallPhase::CleaningUp { outcome } },
                        InstallAction::RemoveDownloads { outcome },
                    )
                } else if next < urls.len() {
                    let url = urls[next].clone();
                    assert(urls.deep_view()[next as int] == urls@[next as int]@);
                    (
                        InstallState {
                            pm,
                            packages,
                            phase: InstallPhase::Fetching { urls, next: next + 1 },
                        },
                        InstallAction::Fetch { url },
                    )
                } else {
                    (
                        InstallState { pm, packages, phase: InstallPhase::Listing },
                        InstallAction::ListDownloads,
                    )
                }
            },
            _ => (
                InstallState { pm, packages, phase: InstallPhase::Fetching { urls, next } },
                InstallAction::Unexpected,
            ),
        },
        InstallPhase::Downloading => match e {
            InstallEvent::Status(ok) => {
                if ok {
                    (
                        InstallState { pm, packages, phase: InstallPhase::Listing },
                        InstallAction::ListDownloads,
                    )
                } else {
                    let failure = match pm {
                        PackageManager::Apt => InstallFailure::AptDownload,
                        _ => InstallFailure::DnfDownload,
                    };
                    let outcome = InstallOutcome::Failed(failure);
                    (
                        InstallState { pm, packages, phase: InstallPhase::CleaningUp { outcome } },
                        InstallAction::RemoveDownloads { outcome },
                    )
                }
            },
            _ => (
                InstallState { pm, packages, phase: InstallPhase::Downloading },
                InstallAction::Unexpected,
            ),
        },
        InstallPhase::Listing => match e {
            InstallEvent::Files(files) => {
                let pkgs = keep_package_files(pm, &files);
                if pkgs.len() == 0 {
                    let outcome = InstallOutcome::NothingNew;
                    (
                        InstallState { pm, packages, phase: InstallPhase::CleaningUp { outcome } },
                        InstallAction::RemoveDownloads { outcome },
                    )
                } else {
                    (
                        InstallState { pm, packages, phase: InstallPhase::Extracting },
                        InstallAction::Extract { files: pkgs },
                    )
                }
            },
            _ => (InstallState { pm, packages, phase: InstallPhase::Listing }, InstallAction::Unexpected),
        },
        InstallPhase::Extracting => match e {
            InstallEvent::Done => (
                InstallState { pm, packages, phase: InstallPhase::Integrating },
                InstallAction::IntegrateDesktop,
            ),
            _ => (
                InstallState { pm, packages, phase: InstallPhase::Extracting },
                InstallAction::Unexpected,
            ),
        },
        InstallPhase::Integrating => match e {
            InstallEvent::Done => (
                InstallState { pm, packages, phase: InstallPhase::ReadingRecord },
                InstallAction::ReadRecord,
            ),
            _ => (
                InstallState { pm, packages, phase: InstallPhase::Integrating },
                InstallAction::Unexpected,
            ),
        },
        InstallPhase::ReadingRecord => match e {
            InstallEvent::Record(rec) => {
                let ghost rv = rec.deep_view();
                let mut recorded = match rec {
                    Some(p) => p,
                    None => Vec::new(),
                };
                assert(recorded.deep_view() =~= match rv {
                    Some(p) => p,
                    None => Seq::<Seq<char>>::empty(),
                });
                record_packages(&mut recorded, &packages);
                (
                    InstallState { pm, packages, phase: InstallPhase::WritingRecord },
                    InstallAction::WriteRecord { packages: recorded },
                )
            },
            _ => (
                InstallState { pm, packages, phase: InstallPhase::ReadingRecord },
                InstallAction::Unexpected,
            ),
        },
        InstallPhase::WritingRecord => match e {
            InstallEvent::Done => {
                let outcome = InstallOutcome::Installed;
                (
                    InstallState { pm, packages, phase: InstallPhase::CleaningUp { outcome } },
                    InstallAction::RemoveDownloads { outcome },
                )
            },
            _ => (
                InstallState { pm, packages, phase: InstallPhase::WritingRecord },
                InstallAction::Unexpected,
            ),
        },
        InstallPhase::CleaningUp { outcome } => match e {
            InstallEvent::Done => (
                InstallState { pm, packages, phase: InstallPhase::Finished },
                InstallAction::Finish { outcome },
            ),
            _ => (
                InstallState { pm, packages, phase: InstallPhase::CleaningUp { outcome } },
                InstallAction::Unexpected,
            ),
        },
        InstallPhase::Finished => (
            InstallState { pm, packages, phase: InstallPhase::Finished },
            InstallAction::Unexpected,
        ),
    }
}

/// Every installation that ends has removed its download directory just
/// before: the end is reported only from the clean-up step, with the
/// outcome decided when the clean-up was ordered.
pub proof fn lemma_finish_after_cleanup(
    s: InstallStateV,
    e: InstallEventV,
    r: (InstallStateV, InstallActionV),
)
    requires
        install_next(s, e, r),
        r.1 is Finish,
    ensures
        s.phase is CleaningUp,
        r.1->Finish_outcome == s.phase->CleaningUp_outcome,
{
}

/// The packages recorded after an installation are the ones recorded
/// before, followed by the requested ones that were missing.
pub proof fn lemma_record_is_merge(
    s: InstallStateV,
    e: InstallEventV,
    r: (InstallStateV, InstallActionV),
)
    requires
        install_next(s, e, r),
        r.1 is WriteRecord,
    ensures
        s.phase is ReadingRecord,
        e matches InstallEventV::Record(rec) && r.1->WriteRecord_packages == merged(
            match rec {
                Some(p) => p,
                None => Seq::empty(),
            },
            s.packages,
        ),
{
}

/// Only package files of the package manager in use are unpacked, and
/// only after the download directory was listed.
pub proof fn lemma_extract_only_packages(
    s: InstallStateV,
    e: InstallEventV,
    r: (InstallStateV, InstallActionV),
)
    requires
        install_next(s, e, r),
        r.1 is Extract,
    ensures
        s.phase is Listing,
        r.1->Extract_files.len() > 0,
        forall|i: int|
            0 <= i < r.1->Extract_files.len() ==> is_package_file_spec(
                s.pm,
                #[trigger] r.1->Extract_files[i],
            ),
{
    broadcast use vstd::seq_lib::group_filter_ensures;

}

/// Every downloaded package is unpacked: after the listing, the files to
/// unpack are exactly the listed files that are packages of the package
/// manager in use, in the order listed, and the installation only gives up
/// when none of the listed files is one.
pub proof fn lemma_every_package_extracted(
    s: InstallStateV,
    files: Seq<Seq<char>>,
    r: (InstallStateV, InstallActionV),
)
    requires
        s.phase is Listing,
        install_next(s, InstallEventV::Files(files), r),
    ensures
        forall|i: int|
            0 <= i < files.len() && is_package_file_spec(s.pm, files[i]) ==> r.1 is Extract
                && r.1->Extract_files.contains(#[trigger] files[i]),
        forall|x: Seq<char>|
            r.1 is Extract && #[trigger] r.1->Extract_files.contains(x) ==> files.contains(x)
                && is_package_file_spec(s.pm, x),
        r.1 is Extract ==> r.1->Extract_files == files.filter(
            |f: Seq<char>| is_package_file_spec(s.pm, f),
        ),
        (forall|i: int| 0 <= i < files.len() ==> !is_package_file_spec(s.pm, #[trigger] files[i]))
            ==> r.1 is RemoveDownloads,
{
    broadcast use vstd::seq_lib::group_filter_ensures;
    broadcast use vstd::seq::Seq::lemma_filter_contains_rev;

    let pred = |f: Seq<char>| is_package_file_spec(s.pm, f);
    let ps = files.filter(pred);
    assert forall|i: int|
        0 <= i < files.len() && is_package_file_spec(s.pm, files[i]) implies r.1 is Extract
            && r.1->Extract_files.contains(#[trigger] files[i]) by {
        assert(pred(files[i]));
        assert(ps.contains(files[i]));
    }
    assert forall|x: Seq<char>|
        r.1 is Extract && #[trigger] r.1->Extract_files.contains(x) implies files.contains(x)
            && is_package_file_spec(s.pm, x) by {
        let j = choose|j: int| 0 <= j < ps.len() && ps[j] == x;
        assert(pred(ps[j]));
    }
    if forall|i: int| 0 <= i < files.len() ==> !is_package_file_spec(s.pm, #[trigger] files[i]) {
        if ps.len() > 0 {
            assert(ps.contains(ps[0]));
            assert(files.contains(ps[0]));
            assert(pred(ps[0]));
        }
    }
}

/// A failed download never leads to unpacking or recording: it orders the
/// clean-up with a failed outcome.
pub proof fn lemma_failed_download_cleans_up(s: InstallStateV)
    requires
        s.phase is Downloading || s.phase is Fetching,
    ensures
        ({
            let r = (if s.phase is Downloading {
                clean_up(s, InstallOutcome::Failed(download_failure(s.pm)))
            } else {
                clean_up(s, InstallOutcome::Failed(InstallFailure::Fetch))
            });
            install_next(s, InstallEventV::Status(false), r) && r.1 is RemoveDownloads
                && r.1->RemoveDownloads_outcome is Failed
        }),
{
}

/// An event that does not answer what the installation waits for
/// changes nothing.
pub proof fn lemma_install_unexpected_changes_nothing(
    s: InstallStateV,
    e: InstallEventV,
    r: (InstallStateV, InstallActionV),
)
    requires
        install_next(s, e, r),
        r.1 is Unexpected,
    ensures
        r.0 == s,
{
}

} // verus!
