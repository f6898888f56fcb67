//! The memory regions behind an imported environment, and when they may be unmapped.
//!
//! Importing modules maps their compiled files into memory. Unmapping a region is only safe
//! when it can be mapped again later, because the runtime keeps pointers into it. Everything
//! that is not known to be safe is leaked instead.
use vstd::prelude::*;

use leo3::meta::LeanEnvironment;
use leo3::LeanUnbound;

use crate::list::{copy_items, copy_texts};
use crate::text::{decimal_string, texts};

verus! {

/// One mapped region. `id` is the caller's handle for it; `size_known` says whether the size of
/// its file was known when it was seen, without which it cannot be verified later.
#[derive(Clone, Copy, Debug, PartialEq, Eq, Structural)]
pub struct Region {
    pub id: u64,
    pub size_known: bool,
}

/// What changed in the process's mappings while an import ran: the regions it added, and whether
/// the identity of a mapping that was there before changed.
#[derive(Clone, Debug)]
pub struct ImportDiff {
    pub added: Vec<Region>,
    pub identity_churn: bool,
}

/// The environment of a session, with what is kept of its import for the time when it is
/// released. `E` is the type of environments.
#[derive(Debug)]
pub struct EnvRegions<E = LeanUnbound<LeanEnvironment>> {
    environment: E,
    modules: Vec<String>,
    file_vmas_added: u64,
    imported: Vec<Region>,
    trackable: bool,
}

/// The contents of an [`EnvRegions`].
#[verifier::ext_equal]
pub struct RegionsModel<E> {
    /// The environment as it stands now.
    pub environment: E,
    /// The top-level modules that were imported.
    pub modules: Seq<Seq<char>>,
    /// The number of file mappings that the import added.
    pub file_vmas_added: u64,
    /// The regions that the import added.
    pub imported: Seq<Region>,
    /// Whether the number can be trusted.
    pub trackable: bool,
}

impl<E> View for EnvRegions<E> {
    type V = RegionsModel<E>;

    closed spec fn view(&self) -> RegionsModel<E> {
        RegionsModel {
            environment: self.environment,
            modules: texts(self.modules@),
            file_vmas_added: self.file_vmas_added,
            imported: self.imported@,
            trackable: self.trackable,
        }
    }
}

/// What to do next with an environment that is no longer used.
#[derive(Clone, Debug, PartialEq, Eq)]
pub enum ReleaseStep {
    /// Give up the reference, keep every region mapped, and print the warning if there is one.
    Leak { warning: Option<String> },
    /// Ask how many regions the environment has.
    CountRegions,
    /// Free the regions.
    Free,
}

/// What to do after the regions were freed, or after freeing them failed.
#[derive(Clone, Debug, PartialEq, Eq)]
pub enum Aftermath {
    /// Remember that `regions` of the import of `modules` are unmapped, so that a later import
    /// can map them again.
    Record { modules: Vec<String>, regions: Vec<Region>, warning: Option<String> },
    /// It is not known what is unmapped: free nothing and import nothing from now on.
    Quarantine { warning: String },
}

/// A [`ReleaseStep`] with its texts.
#[verifier::ext_equal]
pub enum StepModel {
    Leak { warning: Option<Seq<char>> },
    CountRegions,
    Free,
}

/// An [`Aftermath`] with its texts.
#[verifier::ext_equal]
pub enum AftermathModel {
    Record { modules: Seq<Seq<char>>, regions: Seq<Region>, warning: Option<Seq<char>> },
    Quarantine { warning: Seq<char> },
}

/// The text of an optional string.
pub open spec fn option_text(s: Option<String>) -> Option<Seq<char>> {
    match s {
        Some(t) => Some(t@),
        None => None,
    }
}

impl View for ReleaseStep {
    type V = StepModel;

    open spec fn view(&self) -> StepModel {
        match *self {
            ReleaseStep::Leak { warning } => StepModel::Leak { warning: option_text(warning) },
            ReleaseStep::CountRegions => StepModel::CountRegions,
            ReleaseStep::Free => StepModel::Free,
        }
    }
}

impl View for Aftermath {
    type V = AftermathModel;

    open spec fn view(&self) -> AftermathModel {
        match *self {
            Aftermath::Record { modules, regions, warning } => AftermathModel::Record {
                modules: texts(modules@),
                regions: regions@,
                warning: option_text(warning),
            },
            Aftermath::Quarantine { warning } => AftermathModel::Quarantine { warning: warning@ },
        }
    }
}

/// Every region can be verified when it is mapped again.
pub open spec fn all_tracked(regions: Seq<Region>) -> bool {
    forall|i: int| 0 <= i < regions.len() ==> (#[trigger] regions[i]).size_known
}

/// Every region of `some` is one of `all`.
pub open spec fn all_among(some: Seq<Region>, all: Seq<Region>) -> bool {
    forall|i: int| 0 <= i < some.len() ==> all.contains(#[trigger] some[i])
}

/// The warning for an environment that outlives a quarantine.
pub open spec fn quarantined_text() -> Seq<char> {
    "leotower: keepalive is quarantined; leaking env instead of freeing"@
}

/// The warning for an environment with a region that cannot be verified later.
pub open spec fn untracked_text() -> Seq<char> {
    "leotower: an import region was not trackable at snapshot time; leaking env instead of freeing"@
}

/// The warning for a free that failed part of the way.
pub open spec fn recovered_text(failure: Seq<char>, recovered: nat) -> Seq<char> {
    "leotower: free_regions failed during drop ("@ + failure + "); recovered "@
        + crate::text::decimal(recovered)
        + " freed region(s) so a later cross-set import revives them"@
}

/// The warning for a free that failed and whose effect is unknown.
pub open spec fn quarantine_text(failure: Seq<char>, unreadable: Seq<char>) -> Seq<char> {
    "leotower: free_regions failed ("@ + failure + ") AND /proc/self/maps unreadable ("@
        + unreadable
        + ") during drop; CANNOT determine freed regions -> keepalive QUARANTINED (future envs leak, imports blocked)"@
}

/// The warning for a free that succeeded and whose effect could not be read back.
pub open spec fn best_effort_text(unreadable: Seq<char>) -> Seq<char> {
    "leotower: free_regions succeeded but /proc/self/maps unreadable ("@ + unreadable
        + "); recording the pre-free VMA set as a best-effort revive"@
}

/// The first step of every release.
pub open spec fn first_step(quarantined: bool) -> StepModel {
    if quarantined {
        StepModel::Leak { warning: Some(quarantined_text()) }
    } else {
        StepModel::CountRegions
    }
}

impl<E> RegionsModel<E> {
    /// The same import with another environment.
    pub open spec fn with_environment<F>(self, environment: F) -> RegionsModel<F> {
        RegionsModel {
            environment,
            modules: self.modules,
            file_vmas_added: self.file_vmas_added,
            imported: self.imported,
            trackable: self.trackable,
        }
    }

    /// Every live region is known to be a file mapping of this import.
    pub open spec fn file_backed(self, region_count: Option<u64>) -> bool {
        self.trackable && region_count == Some(self.file_vmas_added)
    }

    /// The step after the live regions were counted.
    pub open spec fn counted_step(self, region_count: Option<u64>) -> StepModel {
        if !self.file_backed(region_count) {
            StepModel::Leak { warning: None }
        } else if !all_tracked(self.imported) {
            StepModel::Leak { warning: Some(untracked_text()) }
        } else {
            StepModel::Free
        }
    }

    /// A release gets as far as freeing the regions.
    pub open spec fn frees(self, quarantined: bool, region_count: Option<u64>) -> bool {
        &&& first_step(quarantined) == StepModel::CountRegions
        &&& self.counted_step(region_count) == StepModel::Free
    }

    /// What is owed after freeing was tried. `freed` says whether it failed and why; `unmapped`
    /// holds the regions that are gone, or why that cannot be told.
    pub open spec fn aftermath(
        self,
        freed: Option<Seq<char>>,
        unmapped: Result<Seq<Region>, Seq<char>>,
    ) -> AftermathModel {
        match unmapped {
            Ok(regions) => AftermathModel::Record {
                modules: self.modules,
                regions,
                warning: match freed {
                    None => None,
                    Some(failure) => Some(recovered_text(failure, regions.len())),
                },
            },
            Err(unreadable) => match freed {
                None => AftermathModel::Record {
                    modules: self.modules,
                    regions: self.imported,
                    warning: Some(best_effort_text(unreadable)),
                },
                Some(failure) => AftermathModel::Quarantine {
                    warning: quarantine_text(failure, unreadable),
                },
            },
        }
    }
}

/// Why an operation failed, if it did.
pub open spec fn failure_text(r: Result<(), String>) -> Option<Seq<char>> {
    match r {
        Ok(_) => None,
        Err(e) => Some(e@),
    }
}

/// A list of regions, or why there is none.
pub open spec fn regions_or_text(r: Result<Vec<Region>, String>) -> Result<Seq<Region>, Seq<char>> {
    match r {
        Ok(regions) => Ok(regions@),
        Err(e) => Err(e@),
    }
}

/// Whether every live region of an environment is a file mapping that its import added: the
/// count could be read and equals the number of mappings added. A region on the heap adds no
/// mapping, so a mixed environment has more regions than mappings.
pub fn safe_to_free_regions(region_count: Option<u64>, file_vmas_added: u64) -> (r: bool)
    ensures
        r == (region_count == Some(file_vmas_added)),
{
    match region_count {
        Some(count) => count == file_vmas_added,
        None => false,
    }
}

impl<E> EnvRegions<E> {
    /// Keeps an environment and what is known of its import.
    pub fn new(
        environment: E,
        modules: Vec<String>,
        file_vmas_added: u64,
        imported: Vec<Region>,
        trackable: bool,
    ) -> (r: EnvRegions<E>)
        ensures
            r@ == (RegionsModel {
                environment,
                modules: texts(modules@),
                file_vmas_added,
                imported: imported@,
                trackable,
            }),
    {
        EnvRegions { environment, modules, file_vmas_added, imported, trackable }
    }

    /// The environment.
    pub fn environment(&self) -> (r: &E)
        ensures
            *r == self@.environment,
    {
        &self.environment
    }

    /// Replaces the environment and returns the old one. The new one grew out of the old one and
    /// shares its regions, so what is known of the import still holds and nothing is freed.
    pub fn swap_inner(&mut self, new_env: E) -> (old_env: E)
        ensures
            old_env == old(self)@.environment,
            final(self)@ == (RegionsModel { environment: new_env, ..old(self)@ }),
    {
        let mut held = new_env;
        std::mem::swap(&mut self.environment, &mut held);
        held
    }

    /// Gives the environment up, to be freed. What is left is what [`Self::after_free`] needs.
    pub fn release(self) -> (r: (E, EnvRegions<()>))
        ensures
            r.0 == self@.environment,
            r.1@ == self@.with_environment(()),
    {
        let kept = EnvRegions::new(
            (),
            self.modules,
            self.file_vmas_added,
            self.imported,
            self.trackable,
        );
        (self.environment, kept)
    }

    /// Keeps what the mappings before and after an import show. With either of them unreadable
    /// there is no difference to go by, and the import counts as untrackable.
    pub fn from_import(environment: E, modules: Vec<String>, window: Option<ImportDiff>) -> (r:
        EnvRegions<E>)
        ensures
            r@ == import_model(environment, texts(modules@), window),
    {
        match window {
            Some(diff) => {
                let added: u64 = diff.added.len() as u64;
                EnvRegions::new(environment, modules, added, diff.added, !diff.identity_churn)
            },
            None => EnvRegions::new(environment, modules, 0, Vec::new(), false),
        }
    }

    /// First step of a release: whether anything may be freed in this process at all.
    pub fn begin_release(&self, quarantined: bool) -> (r: ReleaseStep)
        ensures
            r@ == first_step(quarantined),
    {
        if quarantined {
            ReleaseStep::Leak {
                warning: Some(
                    "leotower: keepalive is quarantined; leaking env instead of freeing".to_owned(),
                ),
            }
        } else {
            ReleaseStep::CountRegions
        }
    }

    /// Second step of a release, once the number of live regions is known or known to be
    /// unreadable.
    pub fn after_count(&self, region_count: Option<u64>) -> (r: ReleaseStep)
        ensures
            r@ == self@.counted_step(region_count),
    {
        if !(self.trackable && safe_to_free_regions(region_count, self.file_vmas_added)) {
            return ReleaseStep::Leak { warning: None };
        }
        let mut i: usize = 0;
        while i < self.imported.len()
            invariant
                i <= self.imported.len(),
                forall|j: int| 0 <= j < i ==> (#[trigger] self.imported@[j]).size_known,
                self.trackable,
                region_count == Some(self.file_vmas_added),
            decreases self.imported.len() - i,
        {
            if !self.imported[i].size_known {
                return ReleaseStep::Leak {
                    warning: Some(
                        "leotower: an import region was not trackable at snapshot time; leaking env instead of freeing".to_owned(),
                    ),
                };
            }
            i = i + 1;
        }
        ReleaseStep::Free
    }

    /// Last step of a release, after freeing was tried. `unmapped` holds the regions of this
    /// import that are no longer mapped, or why the mappings could not be read.
    pub fn after_free(
        &self,
        freed: Result<(), String>,
        unmapped: Result<Vec<Region>, String>,
    ) -> (r: Aftermath)
        ensures
            r@ == self@.aftermath(failure_text(freed), regions_or_text(unmapped)),
    {
        match (freed, unmapped) {
            (Ok(_), Ok(regions)) => Aftermath::Record {
                modules: copy_texts(&self.modules),
                regions,
                warning: None,
            },
            (Ok(_), Err(unreadable)) => Aftermath::Record {
                modules: copy_texts(&self.modules),
                regions: copy_items(&self.imported),
                warning: Some(
                    "leotower: free_regions succeeded but /proc/self/maps unreadable (".to_owned().concat(
                        unreadable.as_str(),
                    ).concat("); recording the pre-free VMA set as a best-effort revive"),
                ),
            },
            (Err(failure), Ok(regions)) => {
                let count: u64 = regions.len() as u64;
                let warning = "leotower: free_regions failed during drop (".to_owned().concat(
                    failure.as_str(),
                ).concat("); recovered ").concat(decimal_string(count).as_str()).concat(
                    " freed region(s) so a later cross-set import revives them",
                );
                Aftermath::Record {
                    modules: copy_texts(&self.modules),
                    regions,
                    warning: Some(warning),
                }
            },
            (Err(failure), Err(unreadable)) => Aftermath::Quarantine {
                warning: "leotower: free_regions failed (".to_owned().concat(
                    failure.as_str(),
                ).concat(") AND /proc/self/maps unreadable (").concat(
                    unreadable.as_str(),
                ).concat(
                    ") during drop; CANNOT determine freed regions -> keepalive QUARANTINED (future envs leak, imports blocked)",
                ),
            },
        }
    }
}

/// What is kept of an import of `modules` that ended in `environment`.
pub open spec fn import_model<E>(
    environment: E,
    modules: Seq<Seq<char>>,
    window: Option<ImportDiff>,
) -> RegionsModel<E> {
    match window {
        Some(diff) => RegionsModel {
            environment,
            modules,
            file_vmas_added: diff.added@.len() as u64,
            imported: diff.added@,
            trackable: !diff.identity_churn,
        },
        None => RegionsModel {
            environment,
            modules,
            file_vmas_added: 0,
            imported: Seq::empty(),
            trackable: false,
        },
    }
}

/// A quarantine is final for every environment: whatever its import looked like, its release
/// leaks it.
pub proof fn law_quarantine_leaks<E>(regions: RegionsModel<E>, region_count: Option<u64>)
    ensures
        first_step(true) is Leak,
        !regions.frees(true, region_count),
{
}

/// Regions are freed only where each of them is known to be a file mapping that can be mapped
/// again: nothing is quarantined, the import was trackable, the count could be read and equals
/// the number of mappings added, and every region can be verified. In all other cases the
/// environment is leaked.
pub proof fn law_free_only_what_can_be_revived<E>(
    regions: RegionsModel<E>,
    quarantined: bool,
    region_count: Option<u64>,
)
    ensures
        regions.frees(quarantined, region_count) <==> {
            &&& !quarantined
            &&& regions.trackable
            &&& region_count == Some(regions.file_vmas_added)
            &&& all_tracked(regions.imported)
        },
        !regions.frees(quarantined, region_count) ==> {
            ||| first_step(quarantined) is Leak
            ||| regions.counted_step(region_count) is Leak
        },
{
}

/// An import whose mappings could not be read before and after is never freed.
pub proof fn law_unread_import_is_leaked<E>(
    environment: E,
    modules: Seq<Seq<char>>,
    region_count: Option<u64>,
)
    ensures
        import_model(environment, modules, None).counted_step(region_count) == (StepModel::Leak {
            warning: None,
        }),
{
}

/// An import during which the identity of an older mapping changed is never freed.
pub proof fn law_churned_import_is_leaked<E>(
    environment: E,
    modules: Seq<Seq<char>>,
    diff: ImportDiff,
    region_count: Option<u64>,
)
    requires
        diff.identity_churn,
    ensures
        import_model(environment, modules, Some(diff)).counted_step(region_count) == (StepModel::Leak {
            warning: None,
        }),
{
}

/// After freeing was tried, no region that is gone goes unrecorded unless the process is
/// quarantined, and only regions of this import are recorded, given that those read back as gone
/// are among them. What the mappings show is recorded where they can be read, whether or not
/// freeing failed. Where they cannot, a free that succeeded unmapped the whole import, and a
/// free that failed leads to quarantine.
pub proof fn law_freed_regions_are_recorded<E>(
    regions: RegionsModel<E>,
    freed: Option<Seq<char>>,
    unmapped: Result<Seq<Region>, Seq<char>>,
)
    ensures
        regions.aftermath(freed, unmapped) is Quarantine <==> freed is Some && unmapped is Err,
        regions.aftermath(freed, unmapped) matches AftermathModel::Record {
            modules,
            regions: kept,
            warning,
        } ==> {
            &&& modules == regions.modules
            &&& kept == (match unmapped {
                Ok(gone) => gone,
                Err(_) => regions.imported,
            })
            &&& (unmapped is Ok ==> all_among(unmapped->Ok_0, regions.imported)) ==> all_among(
                kept,
                regions.imported,
            )
        },
{
}

/// No region that a free took away goes unrecorded in a process that is not quarantined: a region
/// of the import that is gone, and is read back as gone where the mappings can be read, is among
/// those recorded.
pub proof fn law_lost_region_is_recorded<E>(
    regions: RegionsModel<E>,
    freed: Option<Seq<char>>,
    unmapped: Result<Seq<Region>, Seq<char>>,
    lost: Region,
)
    requires
        regions.imported.contains(lost),
        unmapped is Ok ==> unmapped->Ok_0.contains(lost),
    ensures
        regions.aftermath(freed, unmapped) is Quarantine || regions.aftermath(
            freed,
            unmapped,
        )->Record_regions.contains(lost),
{
}

/// Replacing the environment, or giving it up to be freed, changes nothing about its release: it
/// is freed or leaked as before, and what is owed after a free is the same.
pub proof fn law_swap_keeps_the_release<E, F>(
    regions: RegionsModel<E>,
    environment: F,
    quarantined: bool,
    region_count: Option<u64>,
    freed: Option<Seq<char>>,
    unmapped: Result<Seq<Region>, Seq<char>>,
)
    ensures
        regions.with_environment(environment).frees(quarantined, region_count) == regions.frees(
            quarantined,
            region_count,
        ),
        regions.with_environment(environment).counted_step(region_count) == regions.counted_step(
            region_count,
        ),
        regions.with_environment(environment).aftermath(freed, unmapped) == regions.aftermath(
            freed,
            unmapped,
        ),
{
}

/// How a release is decided, in full. A quarantined process leaks with a warning and counts
/// nothing. Otherwise regions are freed if the import could be kept track of, the count of live
/// regions is the number of mappings that it added, and every region can be verified later; with
/// the first two met and a region that cannot, it leaks with a warning; else it leaks silently.
pub proof fn law_how_a_release_is_decided<E>(
    regions: RegionsModel<E>,
    quarantined: bool,
    region_count: Option<u64>,
)
    ensures
        first_step(true) == (StepModel::Leak {
            warning: Some(
                "leotower: keepalive is quarantined; leaking env instead of freeing"@,
            ),
        }),
        first_step(false) == StepModel::CountRegions,
        ({
            let counted = regions.trackable && region_count == Some(regions.file_vmas_added);
            let verifiable = forall|i: int|
                0 <= i < regions.imported.len() ==> (#[trigger] regions.imported[i]).size_known;
            &&& counted && verifiable ==> regions.counted_step(region_count) == StepModel::Free
            &&& counted && !verifiable ==> regions.counted_step(region_count) == (StepModel::Leak {
                warning: Some(
                    "leotower: an import region was not trackable at snapshot time; leaking env instead of freeing"@,
                ),
            })
            &&& !counted ==> regions.counted_step(region_count) == (StepModel::Leak {
                warning: None,
            })
            &&& regions.frees(quarantined, region_count) <==> !quarantined && counted && verifiable
            &&& regions.file_backed(region_count) <==> counted
            &&& all_tracked(regions.imported) <==> verifiable
        }),
{
}

/// What is owed after freeing was tried, in full: what is gone is recorded under the modules of the
/// import, with a warning that counts it where freeing failed; where that cannot be read back, a
/// free that succeeded has the whole import recorded with a warning, and one that failed
/// quarantines the process.
pub proof fn law_what_is_owed_after_a_free<E>(
    regions: RegionsModel<E>,
    gone: Seq<Region>,
    failure: Seq<char>,
    unreadable: Seq<char>,
)
    ensures
        regions.aftermath(None, Ok(gone)) == (AftermathModel::Record {
            modules: regions.modules,
            regions: gone,
            warning: None,
        }),
        regions.aftermath(Some(failure), Ok(gone)) == (AftermathModel::Record {
            modules: regions.modules,
            regions: gone,
            warning: Some(
                "leotower: free_regions failed during drop ("@ + failure + "); recovered "@
                    + crate::text::decimal(gone.len())
                    + " freed region(s) so a later cross-set import revives them"@,
            ),
        }),
        regions.aftermath(None, Err(unreadable)) == (AftermathModel::Record {
            modules: regions.modules,
            regions: regions.imported,
            warning: Some(
                "leotower: free_regions succeeded but /proc/self/maps unreadable ("@ + unreadable
                    + "); recording the pre-free VMA set as a best-effort revive"@,
            ),
        }),
        regions.aftermath(Some(failure), Err(unreadable)) == (AftermathModel::Quarantine {
            warning: "leotower: free_regions failed ("@ + failure
                + ") AND /proc/self/maps unreadable ("@ + unreadable
                + ") during drop; CANNOT determine freed regions -> keepalive QUARANTINED (future envs leak, imports blocked)"@,
        }),
{
}

/// What is kept of an import: the environment, the modules, the regions that it added and their
/// number, and whether no older mapping changed identity; nothing is counted or trusted where the
/// mappings could not be read.
pub proof fn law_what_is_kept_of_an_import<E>(
    environment: E,
    modules: Seq<Seq<char>>,
    diff: ImportDiff,
)
    ensures
        ({
            let seen = import_model(environment, modules, Some(diff));
            &&& seen.environment == environment
            &&& seen.modules == modules
            &&& seen.imported == diff.added@
            &&& diff.added@.len() <= u64::MAX ==> seen.file_vmas_added == diff.added@.len()
            &&& seen.trackable == !diff.identity_churn
        }),
        ({
            let unseen = import_model(environment, modules, None);
            &&& unseen.environment == environment
            &&& unseen.modules == modules
            &&& unseen.imported.len() == 0
            &&& unseen.file_vmas_added == 0
            &&& !unseen.trackable
        }),
{
}

/// Another environment in place of the old one changes only the environment.
pub proof fn law_only_the_environment_is_replaced<E, F>(regions: RegionsModel<E>, environment: F)
    ensures
        regions.with_environment(environment).environment == environment,
        regions.with_environment(environment).modules == regions.modules,
        regions.with_environment(environment).file_vmas_added == regions.file_vmas_added,
        regions.with_environment(environment).imported == regions.imported,
        regions.with_environment(environment).trackable == regions.trackable,
{
}

/// Steps, reports and results are taken as they are, with the texts of their strings.
pub proof fn law_reports_hold_their_texts(
    warning: Option<String>,
    text: String,
    modules: Vec<String>,
    list: Vec<Region>,
)
    ensures
        option_text(Some(text)) == Some(text@),
        option_text(None) == None::<Seq<char>>,
        (ReleaseStep::Leak { warning })@ == (StepModel::Leak {
            warning: match warning {
                Some(w) => Some(w@),
                None => None,
            },
        }),
        ReleaseStep::CountRegions@ == StepModel::CountRegions,
        ReleaseStep::Free@ == StepModel::Free,
        (Aftermath::Record { modules, regions: list, warning })@ == (AftermathModel::Record {
            modules: texts(modules@),
            regions: list@,
            warning: match warning {
                Some(w) => Some(w@),
                None => None,
            },
        }),
        (Aftermath::Quarantine { warning: text })@ == (AftermathModel::Quarantine {
            warning: text@,
        }),
        failure_text(Ok(())) == None::<Seq<char>>,
        failure_text(Err(text)) == Some(text@),
        regions_or_text(Ok(list)) == Ok::<Seq<Region>, Seq<char>>(list@),
        regions_or_text(Err(text)) == Err::<Seq<Region>, Seq<char>>(text@),
{
}

/// To be among others is to be one of them, each.
pub proof fn law_to_be_among_is_to_be_one_of(some: Seq<Region>, all: Seq<Region>)
    ensures
        all_among(some, all) <==> forall|r: Region| some.contains(r) ==> #[trigger] all.contains(r),
{
    if forall|r: Region| some.contains(r) ==> #[trigger] all.contains(r) {
        assert forall|i: int| 0 <= i < some.len() implies all.contains(#[trigger] some[i]) by {
            assert(some.contains(some[i]));
        }
    }
}

} // verus!
