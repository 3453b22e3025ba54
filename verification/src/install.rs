//! The two operations that ride the task graph: resolving a requirement
//! into a package, and fetching the content of a package.
use crate::cache::CompositeCache;
use crate::error::{Error, ErrorKind};
use crate::fetcher::{PackageData, PackageDataView};
use crate::graph::{GraphCache, GraphIn, GraphOut, GraphTaskResults, GraphTasks};
use crate::graph_model::{empty_model, register_all_model, GraphModel};
use crate::graph_run::{is_run, launches, law_cached_is_never_run, Move};
use crate::resolution::{Description, Requirements};
use crate::keyed::{
    duplicate_option, key_views, option_view, Duplicate, Key, KeyedList,
};
use crate::primitives::{
    locator_depth,
    Descriptor,
    DescriptorView,
    Locator,
    LocatorView,
    Range,
    RangeView,
};
use crate::project::Project;
use crate::resolution::{Resolution, ResolutionView};
use vstd::prelude::*;

verus! {

/// What an operation may use: the cache of archives and the project.
#[derive(Debug)]
pub struct InstallContext<'a> {
    pub package_cache: Option<&'a CompositeCache>,
    pub project: Option<&'a Project>,
}

impl<'a> InstallContext<'a> {
    /// A context with neither.
    pub fn default() -> (context: InstallContext<'a>)
        ensures
            context.package_cache is None,
            context.project is None,
    {
        InstallContext { package_cache: None, project: None }
    }

    pub fn with_package_cache(self, package_cache: Option<&'a CompositeCache>) -> (context:
        InstallContext<'a>)
        ensures
            context.package_cache == package_cache,
            context.project == self.project,
    {
        let mut context = self;
        context.package_cache = package_cache;
        context
    }

    pub fn with_project(self, project: Option<&'a Project>) -> (context: InstallContext<'a>)
        ensures
            context.project == project,
            context.package_cache == self.package_cache,
    {
        let mut context = self;
        context.project = project;
        context
    }
}

/// What resolving yields: the resolution, and the content where resolving
/// came by it on the way.
#[derive(Debug)]
pub struct ResolutionResult {
    pub resolution: Resolution,
    pub package_data: Option<PackageData>,
}

pub struct ResolutionResultView {
    pub resolution: ResolutionView,
    pub package_data: Option<PackageDataView>,
}

impl View for ResolutionResult {
    type V = ResolutionResultView;

    open spec fn view(&self) -> ResolutionResultView {
        ResolutionResultView {
            resolution: self.resolution@,
            package_data: option_view(self.package_data),
        }
    }
}

impl Duplicate for ResolutionResult {
    fn duplicate(&self) -> (copy: Self) {
        ResolutionResult {
            resolution: self.resolution.duplicate(),
            package_data: duplicate_option(&self.package_data),
        }
    }
}

impl ResolutionResult {
    pub fn new(resolution: Resolution) -> (result: ResolutionResult)
        ensures
            result@ == (ResolutionResultView { resolution: resolution@, package_data: None }),
            result.resolution == resolution,
    {
        ResolutionResult { resolution, package_data: None }
    }
}

/// What fetching yields: the content, and the resolution where it could
/// only be read from the content.
#[derive(Debug)]
pub struct FetchResult {
    pub resolution: Option<Resolution>,
    pub package_data: PackageData,
}

pub struct FetchResultView {
    pub resolution: Option<ResolutionView>,
    pub package_data: PackageDataView,
}

impl View for FetchResult {
    type V = FetchResultView;

    open spec fn view(&self) -> FetchResultView {
        FetchResultView {
            resolution: option_view(self.resolution),
            package_data: self.package_data@,
        }
    }
}

impl Duplicate for FetchResult {
    fn duplicate(&self) -> (copy: Self) {
        FetchResult {
            resolution: duplicate_option(&self.resolution),
            package_data: self.package_data.duplicate(),
        }
    }
}

impl FetchResult {
    pub fn new(package_data: PackageData) -> (result: FetchResult)
        ensures
            result@ == (FetchResultView { resolution: None, package_data: package_data@ }),
    {
        FetchResult { resolution: None, package_data }
    }

    /// The result of a resolution that went through fetching: the
    /// resolution that the content brought along, in its accepted form,
    /// together with the content.
    pub fn into_resolution_result(self) -> (result: ResolutionResult)
        requires
            self.resolution is Some,
            self.resolution->0.wf(),
        ensures
            result@ == (ResolutionResultView {
                resolution: crate::resolution::spec_normalize(self@.resolution->0),
                package_data: Some(self@.package_data),
            }),
            result.resolution.wf(),
    {
        match self.resolution {
            Some(resolution) => ResolutionResult {
                resolution: resolution.normalize(),
                package_data: Some(self.package_data),
            },
            None => vstd::pervasive::unreached(),
        }
    }
}

/// The output of an operation.
#[derive(Debug)]
pub enum InstallOpResult {
    Resolved(ResolutionResult),
    Fetched(FetchResult),
}

pub enum InstallOpResultView {
    Resolved(ResolutionResultView),
    Fetched(FetchResultView),
}

impl View for InstallOpResult {
    type V = InstallOpResultView;

    open spec fn view(&self) -> InstallOpResultView {
        match self {
            InstallOpResult::Resolved(r) => InstallOpResultView::Resolved(r@),
            InstallOpResult::Fetched(f) => InstallOpResultView::Fetched(f@),
        }
    }
}

impl Duplicate for InstallOpResult {
    fn duplicate(&self) -> (copy: Self) {
        match self {
            InstallOpResult::Resolved(r) => InstallOpResult::Resolved(r.duplicate()),
            InstallOpResult::Fetched(f) => InstallOpResult::Fetched(f.duplicate()),
        }
    }
}

impl InstallOpResult {
    pub fn expect_resolved(&self) -> (result: &ResolutionResult)
        requires
            self is Resolved,
        ensures
            *self == InstallOpResult::Resolved(*result),
    {
        match self {
            InstallOpResult::Resolved(resolution) => resolution,
            _ => vstd::pervasive::unreached(),
        }
    }

    pub fn expect_fetched(&self) -> (result: &FetchResult)
        requires
            self is Fetched,
        ensures
            *self == InstallOpResult::Fetched(*result),
    {
        match self {
            InstallOpResult::Fetched(fetch) => fetch,
            _ => vstd::pervasive::unreached(),
        }
    }
}

/// An operation of an install.
#[derive(Debug)]
pub enum InstallOp {
    Resolve { descriptor: Descriptor },
    Fetch { locator: Locator },
}

pub enum InstallOpView {
    Resolve { descriptor: DescriptorView },
    Fetch { locator: LocatorView },
}

impl View for InstallOp {
    type V = InstallOpView;

    open spec fn view(&self) -> InstallOpView {
        match self {
            InstallOp::Resolve { descriptor } => InstallOpView::Resolve { descriptor: descriptor@ },
            InstallOp::Fetch { locator } => InstallOpView::Fetch { locator: locator@ },
        }
    }
}

impl Duplicate for InstallOp {
    fn duplicate(&self) -> (copy: Self) {
        match self {
            InstallOp::Resolve { descriptor } => InstallOp::Resolve {
                descriptor: descriptor.duplicate(),
            },
            InstallOp::Fetch { locator } => InstallOp::Fetch { locator: locator.duplicate() },
        }
    }
}

impl Key for InstallOp {
    fn same(&self, other: &Self) -> (same: bool) {
        match (self, other) {
            (InstallOp::Resolve { descriptor: a }, InstallOp::Resolve { descriptor: b }) => a.same(
                b,
            ),
            (InstallOp::Fetch { locator: a }, InstallOp::Fetch { locator: b }) => a.same(b),
            _ => false,
        }
    }
}

/// The requirement on the package that a patch applies to.
pub open spec fn spec_patched(ident: Seq<char>, range: crate::semver::Range) -> DescriptorView {
    DescriptorView { ident, range: RangeView::Semver(range), parent: None }
}

/// What must succeed before an operation may run.
///
/// Resolving a requirement that is bound to a parent takes the content of
/// the parent, and so does fetching a package that hangs off one. Resolving
/// a patch takes, after that, the resolution of the package that the patch
/// applies to.
pub open spec fn spec_install_dependencies(op: InstallOpView) -> Seq<InstallOpView> {
    match op {
        InstallOpView::Resolve { descriptor } => {
            let parent = match descriptor.parent {
                Some(parent) => seq![InstallOpView::Fetch { locator: parent }],
                None => Seq::<InstallOpView>::empty(),
            };
            match descriptor.range {
                RangeView::Patch(ident, range, _) => parent.push(
                    InstallOpView::Resolve { descriptor: spec_patched(ident, range) },
                ),
                _ => parent,
            }
        },
        InstallOpView::Fetch { locator } => match locator.parent {
            Some(parent) => seq![InstallOpView::Fetch { locator: *parent }],
            None => Seq::<InstallOpView>::empty(),
        },
    }
}

/// How far an operation is from one that depends on nothing.
pub open spec fn spec_install_rank(op: InstallOpView) -> nat {
    match op {
        InstallOpView::Resolve { descriptor } => (match descriptor.parent {
            Some(parent) => locator_depth(parent) + 1,
            None => 0,
        }) + (if descriptor.range is Patch {
            1nat
        } else {
            0nat
        }),
        InstallOpView::Fetch { locator } => locator_depth(locator),
    }
}

impl GraphIn for InstallOp {
    open spec fn spec_dependencies(key: InstallOpView) -> Seq<InstallOpView> {
        spec_install_dependencies(key)
    }

    open spec fn rank(key: InstallOpView) -> nat {
        spec_install_rank(key)
    }

    proof fn lemma_dependencies(key: InstallOpView) {
        let deps = spec_install_dependencies(key);
        assert(deps.len() <= 2);
        if deps.len() == 2 {
            assert(deps[0] is Fetch && deps[1] is Resolve);
        }
    }

    fn graph_dependencies(&self) -> (dependencies: Vec<Self>) {
        let mut dependencies: Vec<InstallOp> = Vec::new();
        match self {
            InstallOp::Resolve { descriptor } => {
                match &descriptor.parent {
                    Some(parent) => {
                        dependencies.push(InstallOp::Fetch { locator: parent.duplicate() });
                    },
                    None => {},
                }
                match &descriptor.range {
                    Range::Patch(ident, range, _) => {
                        dependencies.push(
                            InstallOp::Resolve {
                                descriptor: Descriptor {
                                    ident: ident.duplicate(),
                                    range: Range::Semver(*range),
                                    parent: None,
                                },
                            },
                        );
                    },
                    _ => {},
                }
            },
            InstallOp::Fetch { locator } => {
                match locator.parent() {
                    Some(parent) => {
                        dependencies.push(InstallOp::Fetch { locator: parent });
                    },
                    None => {},
                }
            },
        }
        assert(key_views(dependencies@) =~= spec_install_dependencies(self@));
        dependencies
    }
}

/// The requirements of a resolution as operations.
pub open spec fn spec_resolve_each(dependencies: Seq<(Seq<char>, DescriptorView)>) -> Seq<
    InstallOpView,
> {
    dependencies.map_values(
        |d: (Seq<char>, DescriptorView)| InstallOpView::Resolve { descriptor: d.1 },
    )
}

/// What an output calls for.
///
/// A resolved package is to be fetched, and everything it depends on is to
/// be resolved. Content that brought its resolution along calls for the
/// dependencies only; it is fetched already.
pub open spec fn spec_install_follow_ups(out: InstallOpResultView) -> Seq<InstallOpView> {
    match out {
        InstallOpResultView::Resolved(result) => seq![
            InstallOpView::Fetch { locator: result.resolution.locator },
        ] + spec_resolve_each(result.resolution.dependencies),
        InstallOpResultView::Fetched(result) => match result.resolution {
            Some(resolution) => spec_resolve_each(resolution.dependencies),
            None => Seq::<InstallOpView>::empty(),
        },
    }
}

fn resolve_each(resolution: &Resolution, follow_ups: &mut Vec<InstallOp>)
    ensures
        key_views(final(follow_ups)@) == key_views(old(follow_ups)@) + spec_resolve_each(
            resolution@.dependencies,
        ),
{
    let mut i: usize = 0;
    let ghost wanted = spec_resolve_each(resolution@.dependencies);
    let ghost before = key_views(follow_ups@);
    assert(key_views(follow_ups@) =~= before + wanted.take(0));
    while i < resolution.dependencies.entries.len()
        invariant
            i <= resolution.dependencies.entries.len(),
            wanted == spec_resolve_each(resolution@.dependencies),
            key_views(follow_ups@) == before + wanted.take(i as int),
        decreases resolution.dependencies.entries.len() - i,
    {
        let ghost had = key_views(follow_ups@);
        let op = InstallOp::Resolve {
            descriptor: resolution.dependencies.entries[i].1.duplicate(),
        };
        assert(op@ == wanted[i as int]);
        follow_ups.push(op);
        assert(key_views(follow_ups@) =~= had.push(wanted[i as int]));
        assert(before + wanted.take(i + 1) =~= (before + wanted.take(i as int)).push(
            wanted[i as int],
        ));
        i += 1;
    }
    assert(wanted.take(resolution.dependencies.entries.len() as int) =~= wanted);
}

impl GraphOut<InstallOp> for InstallOpResult {
    open spec fn spec_follow_ups(out: InstallOpResultView) -> Seq<InstallOpView> {
        spec_install_follow_ups(out)
    }

    fn graph_follow_ups(&self) -> (follow_ups: Vec<InstallOp>) {
        let mut follow_ups: Vec<InstallOp> = Vec::new();
        match self {
            InstallOpResult::Resolved(result) => {
                follow_ups.push(InstallOp::Fetch { locator: result.resolution.locator.duplicate() });
                assert(key_views(follow_ups@) =~= seq![
                    InstallOpView::Fetch { locator: result@.resolution.locator },
                ]);
                resolve_each(&result.resolution, &mut follow_ups);
            },
            InstallOpResult::Fetched(result) => {
                match &result.resolution {
                    Some(resolution) => {
                        assert(key_views(follow_ups@) =~= Seq::<InstallOpView>::empty());
                        resolve_each(resolution, &mut follow_ups);
                        assert(key_views(follow_ups@) =~= spec_resolve_each(
                            resolution@.dependencies,
                        ));
                    },
                    None => {
                        assert(key_views(follow_ups@) =~= Seq::<InstallOpView>::empty());
                    },
                }
            },
        }
        follow_ups
    }
}

/// Fetching a package that hangs off a parent waits for the parent to be
/// fetched: the parent is what it depends on, and nothing else.
pub proof fn law_parent_fetched_first(locator: LocatorView)
    requires
        locator.parent is Some,
    ensures
        spec_install_dependencies(InstallOpView::Fetch { locator }) == seq![
            InstallOpView::Fetch { locator: *locator.parent->0 },
        ],
{
}

/// What the lockfile keeps of a package.
#[derive(Debug)]
pub struct LockfileEntry {
    pub checksum: Option<String>,
    pub resolution: Resolution,
}

pub struct LockfileEntryView {
    pub checksum: Option<Seq<char>>,
    pub resolution: ResolutionView,
}

impl View for LockfileEntry {
    type V = LockfileEntryView;

    open spec fn view(&self) -> LockfileEntryView {
        LockfileEntryView {
            checksum: crate::patterns::text_view(self.checksum),
            resolution: self.resolution@,
        }
    }
}

impl Duplicate for LockfileEntry {
    fn duplicate(&self) -> (copy: Self) {
        LockfileEntry {
            checksum: match &self.checksum {
                Some(c) => Some(c.clone()),
                None => None,
            },
            resolution: self.resolution.duplicate(),
        }
    }
}

/// Which package each requirement resolved to, and what is known of each
/// package.
#[derive(Debug)]
pub struct Lockfile {
    pub resolutions: KeyedList<Descriptor, Locator>,
    pub entries: KeyedList<Locator, LockfileEntry>,
}

pub struct LockfileView {
    pub resolutions: Seq<(DescriptorView, LocatorView)>,
    pub entries: Seq<(LocatorView, LockfileEntryView)>,
}

impl View for Lockfile {
    type V = LockfileView;

    open spec fn view(&self) -> LockfileView {
        LockfileView { resolutions: self.resolutions.deep(), entries: self.entries.deep() }
    }
}

impl Duplicate for Lockfile {
    fn duplicate(&self) -> (copy: Self) {
        Lockfile {
            resolutions: self.resolutions.duplicate_list(),
            entries: self.entries.duplicate_list(),
        }
    }
}

impl Lockfile {
    /// No requirement and no package occurs twice, and every package that
    /// a requirement resolved to has its entry.
    pub open spec fn wf(&self) -> bool {
        &&& self.resolutions.wf()
        &&& self.entries.wf()
        &&& forall|d: DescriptorView| #[trigger]
            self.resolutions.map().contains_key(d) ==> self.entries.map().contains_key(
                self.resolutions.map()[d]@,
            )
    }

    /// A lockfile that holds nothing.
    pub fn new() -> (lockfile: Lockfile)
        ensures
            lockfile.wf(),
            lockfile@.resolutions.len() == 0,
            lockfile@.entries.len() == 0,
    {
        Lockfile { resolutions: KeyedList::new(), entries: KeyedList::new() }
    }

    /// Records that `descriptor` resolved to the package of `resolution`.
    pub fn record(&mut self, descriptor: Descriptor, resolution: Resolution)
        requires
            old(self).wf(),
        ensures
            final(self).wf(),
            final(self).resolutions.map().contains_key(descriptor@),
            final(self).resolutions.map()[descriptor@]@ == resolution@.locator,
            final(self).entries.map().contains_key(resolution@.locator),
            final(self).entries.map()[resolution@.locator]@ == (LockfileEntryView {
                checksum: None,
                resolution: resolution@,
            }),
            final(self)@.resolutions == crate::keyed::put(
                old(self)@.resolutions,
                descriptor@,
                resolution@.locator,
            ),
            final(self)@.entries == crate::keyed::put(
                old(self)@.entries,
                resolution@.locator,
                LockfileEntryView { checksum: None, resolution: resolution@ },
            ),
    {
        let locator = resolution.locator.duplicate();
        let key = resolution.locator.duplicate();
        self.resolutions.put(descriptor, locator);
        self.entries.put(key, LockfileEntry { checksum: None, resolution });
    }
}

/// Serves resolutions from a lockfile.
#[derive(Debug)]
pub struct InstallCache {
    pub lockfile: Lockfile,
}

impl InstallCache {
    pub fn new(lockfile: Lockfile) -> (cache: InstallCache)
        ensures
            cache.lockfile == lockfile,
    {
        InstallCache { lockfile }
    }
}

/// What a lockfile knows of an operation: the resolution of a requirement
/// that it holds together with the entry of its package. It knows nothing
/// of fetching.
pub open spec fn spec_lockfile_cached(lockfile: Lockfile, op: InstallOpView) -> Option<
    InstallOpResultView,
> {
    match op {
        InstallOpView::Resolve { descriptor } => match lockfile.resolutions.first(descriptor) {
            Some(locator) => match lockfile.entries.first(locator@) {
                Some(entry) => Some(
                    InstallOpResultView::Resolved(
                        ResolutionResultView { resolution: entry.resolution@, package_data: None },
                    ),
                ),
                None => None,
            },
            None => None,
        },
        InstallOpView::Fetch { .. } => None,
    }
}

impl GraphCache<InstallOp, InstallOpResult> for InstallCache {
    open spec fn spec_cached(&self, key: InstallOpView) -> Option<InstallOpResultView> {
        spec_lockfile_cached(self.lockfile, key)
    }

    fn graph_cache(&self, op: &InstallOp) -> (hit: Option<InstallOpResult>) {
        match op {
            InstallOp::Resolve { descriptor } => {
                match self.lockfile.resolutions.get_first(descriptor) {
                    Some(locator) => match self.lockfile.entries.get_first(locator) {
                        Some(entry) => Some(
                            InstallOpResult::Resolved(
                                ResolutionResult {
                                    resolution: entry.resolution.duplicate(),
                                    package_data: None,
                                },
                            ),
                        ),
                        None => None,
                    },
                    None => None,
                }
            },
            InstallOp::Fetch { .. } => None,
        }
    }
}

pub(crate) fn has_distinct_keys<K: Key, V>(list: &KeyedList<K, V>) -> (r: bool)
    ensures
        r == list.wf(),
{
    let mut i: usize = 0;
    while i < list.entries.len()
        invariant
            i <= list.entries.len(),
            forall|a: int, b: int| 0 <= a < b < i ==> list.keys()[a] != list.keys()[b],
        decreases list.entries.len() - i,
    {
        let mut j: usize = 0;
        while j < i
            invariant
                j <= i,
                i < list.entries.len(),
                forall|a: int| 0 <= a < j ==> list.keys()[a] != list.keys()[i as int],
            decreases i - j,
        {
            if list.entries[j].0.same(&list.entries[i].0) {
                assert(list.keys()[j as int] == list.keys()[i as int]);
                return false;
            }
            j += 1;
        }
        i += 1;
    }
    assert forall|a: int, b: int|
        0 <= a < list.keys().len() && 0 <= b < list.keys().len() && a != b implies list.keys()[a]
        != list.keys()[b] by {
        if a < b {
        } else {
            assert(list.keys()[b] != list.keys()[a]);
        }
    }
    true
}

impl InstallCache {
    /// Whether the lockfile names no requirement and no package twice.
    pub fn is_sound(&self) -> (r: bool)
        ensures
            r == (self.lockfile.resolutions.wf() && self.lockfile.entries.wf()),
    {
        has_distinct_keys(&self.lockfile.resolutions) && has_distinct_keys(&self.lockfile.entries)
    }
}

/// A requirement that the lockfile holds is served from it and never
/// resolved anew.
pub proof fn law_cache_precedence(cache: InstallCache, descriptor: DescriptorView)
    requires
        cache.lockfile.wf(),
        cache.lockfile.resolutions.map().contains_key(descriptor),
    ensures
        cache.spec_cached(InstallOpView::Resolve { descriptor }) is Some,
        cache.spec_cached(InstallOpView::Resolve { descriptor })->0 matches InstallOpResultView::Resolved(
            result,
        ) && result.resolution == cache.lockfile.entries.map()[cache.lockfile.resolutions.map()[descriptor]@].resolution@,
{
    cache.lockfile.resolutions.lemma_first(descriptor);
    cache.lockfile.entries.lemma_first(cache.lockfile.resolutions.map()[descriptor]@);
}

/// Over a whole run no resolver is ever asked for a requirement that the
/// lockfile holds: at no point of any run is its resolution handed out to
/// be run.
pub proof fn law_locked_is_never_resolved(
    cache: InstallCache,
    limit: nat,
    start: GraphModel<InstallOpView, InstallOpResultView, Error>,
    moves: Seq<Move<InstallOpView, InstallOpResultView, Error>>,
    i: nat,
    descriptor: DescriptorView,
)
    requires
        cache.lockfile.wf(),
        cache.lockfile.resolutions.map().contains_key(descriptor),
        is_run::<InstallOp, InstallOpResult, Error, InstallCache>(cache, limit, start, moves),
    ensures
        !launches::<InstallOp, InstallOpResult, Error, InstallCache>(
            cache,
            start,
            moves,
            i,
            InstallOpView::Resolve { descriptor },
        ),
{
    law_cache_precedence(cache, descriptor);
    law_cached_is_never_run::<InstallOp, InstallOpResult, Error, InstallCache>(
        cache,
        limit,
        start,
        moves,
        i,
        InstallOpView::Resolve { descriptor },
    );
}

/// Which package each requirement of a finished install resolved to.
#[derive(Debug)]
pub struct ResolutionTree {
    pub descriptor_to_locator: KeyedList<Descriptor, Locator>,
}

/// What an install leaves behind for the linker.
#[derive(Debug)]
pub struct InstallState {
    pub lockfile: Lockfile,
    pub resolution_tree: ResolutionTree,
    pub packages_by_location: Vec<(String, Locator)>,
    pub locations_by_package: KeyedList<Locator, String>,
    pub optional_packages: Vec<Locator>,
    /// The packages that are not made for this machine. They stay in the
    /// lockfile and are left out when fetching and linking.
    pub disabled_locators: Vec<Locator>,
    /// The packages that are made for some machines only.
    pub conditional_locators: Vec<Locator>,
}

impl InstallState {
    pub open spec fn wf(&self) -> bool {
        &&& self.lockfile.wf()
        &&& self.resolution_tree.descriptor_to_locator.wf()
        &&& self.locations_by_package.wf()
        &&& key_views(self.disabled_locators@).no_duplicates()
        &&& key_views(self.conditional_locators@).no_duplicates()
    }

    /// The state before anything is installed: an empty lockfile, an empty
    /// tree, no package at any place, and no package in any of the sets.
    pub fn new() -> (state: InstallState)
        ensures
            state.wf(),
            state.lockfile@.resolutions.len() == 0,
            state.lockfile@.entries.len() == 0,
            state.resolution_tree.descriptor_to_locator.deep().len() == 0,
            state.packages_by_location@.len() == 0,
            state.locations_by_package.deep().len() == 0,
            state.disabled_locators@.len() == 0,
            state.conditional_locators@.len() == 0,
            state.optional_packages@.len() == 0,
    {
        InstallState {
            lockfile: Lockfile::new(),
            resolution_tree: ResolutionTree { descriptor_to_locator: KeyedList::new() },
            packages_by_location: Vec::new(),
            locations_by_package: KeyedList::new(),
            optional_packages: Vec::new(),
            disabled_locators: Vec::new(),
            conditional_locators: Vec::new(),
        }
    }
}

/// The outcome of an install: the content of every package, and the state.
#[derive(Debug)]
pub struct Install {
    pub package_data: KeyedList<Locator, PackageData>,
    pub install_state: InstallState,
}

impl Install {
    pub open spec fn wf(&self) -> bool {
        self.package_data.wf() && self.install_state.wf()
    }

    pub fn new() -> (install: Install)
        ensures
            install.wf(),
            install.package_data.deep().len() == 0,
            install.install_state.lockfile@.resolutions.len() == 0,
            install.install_state.lockfile@.entries.len() == 0,
            install.install_state.disabled_locators@.len() == 0,
            install.install_state.conditional_locators@.len() == 0,
    {
        Install { package_data: KeyedList::new(), install_state: InstallState::new() }
    }
}

/// The set with `locator` in it.
pub open spec fn spec_with_locator(set: Seq<LocatorView>, locator: LocatorView) -> Seq<LocatorView> {
    if set.contains(locator) {
        set
    } else {
        set.push(locator)
    }
}

fn add_locator(set: &mut Vec<Locator>, locator: Locator)
    requires
        key_views(old(set)@).no_duplicates(),
    ensures
        key_views(final(set)@).no_duplicates(),
        key_views(final(set)@) == spec_with_locator(key_views(old(set)@), locator@),
{
    match crate::keyed::position_of(set, &locator) {
        Some(_) => {},
        None => {
            let ghost before = key_views(set@);
            set.push(locator);
            assert(key_views(set@) =~= before.push(locator@));
            assert forall|a: int, b: int|
                0 <= a < key_views(set@).len() && 0 <= b < key_views(set@).len() && a
                    != b implies key_views(set@)[a] != key_views(set@)[b] by {
                if a < before.len() {
                    assert(key_views(set@)[a] == before[a]);
                }
                if b < before.len() {
                    assert(key_views(set@)[b] == before[b]);
                }
            }
        },
    }
}

/// Runs an install: it is given the roots and the lockfile of the last
/// run, sets the graph up, and gathers what the graph produced.
#[derive(Debug)]
pub struct InstallManager<'a> {
    pub description: Description,
    pub initial_lockfile: Lockfile,
    pub roots: Vec<Descriptor>,
    pub context: InstallContext<'a>,
    pub result: Install,
}

/// The roots as operations.
pub open spec fn spec_root_ops(roots: Seq<DescriptorView>) -> Seq<InstallOpView> {
    roots.map_values(|d: DescriptorView| InstallOpView::Resolve { descriptor: d })
}

impl<'a> InstallManager<'a> {
    pub open spec fn wf(&self) -> bool {
        self.result.wf()
    }

    /// A manager for installs on the machine described, with no roots and
    /// an empty lockfile.
    pub fn new(description: Description) -> (manager: InstallManager<'a>)
        ensures
            manager.wf(),
            manager.roots@.len() == 0,
            manager.initial_lockfile@.resolutions.len() == 0,
            manager.description == description,
            manager.result.install_state.lockfile@.resolutions.len() == 0,
            manager.result.install_state.lockfile@.entries.len() == 0,
            manager.result.package_data.deep().len() == 0,
    {
        InstallManager {
            description,
            initial_lockfile: Lockfile::new(),
            roots: Vec::new(),
            context: InstallContext::default(),
            result: Install::new(),
        }
    }

    pub fn with_context(self, context: InstallContext<'a>) -> (manager: InstallManager<'a>)
        ensures
            manager.context == context,
            manager.roots == self.roots,
            manager.initial_lockfile == self.initial_lockfile,
            manager.result == self.result,
            manager.description == self.description,
    {
        let mut manager = self;
        manager.context = context;
        manager
    }

    pub fn with_lockfile(self, lockfile: Lockfile) -> (manager: InstallManager<'a>)
        ensures
            manager.initial_lockfile == lockfile,
            manager.roots == self.roots,
            manager.context == self.context,
            manager.result == self.result,
            manager.description == self.description,
    {
        let mut manager = self;
        manager.initial_lockfile = lockfile;
        manager
    }

    pub fn with_roots(self, roots: Vec<Descriptor>) -> (manager: InstallManager<'a>)
        ensures
            manager.roots == roots,
            manager.initial_lockfile == self.initial_lockfile,
            manager.context == self.context,
            manager.result == self.result,
            manager.description == self.description,
    {
        let mut manager = self;
        manager.roots = roots;
        manager
    }

    /// The graph of the install with every root registered, ready to be
    /// driven. The lockfile of the last run serves as its cache.
    pub fn start(&self) -> (graph: GraphTasks<InstallOp, InstallOpResult, Error, InstallCache>)
        ensures
            graph.wf(),
            graph@ == register_all_model::<InstallOp, InstallOpResultView, Error>(
                empty_model::<InstallOpView, InstallOpResultView, Error>(),
                spec_root_ops(key_views(self.roots@)),
                0,
            ),
            graph.cache.lockfile@ == self.initial_lockfile@,
    {
        let cache = InstallCache::new(self.initial_lockfile.duplicate());
        let mut graph: GraphTasks<InstallOp, InstallOpResult, Error, InstallCache> =
            GraphTasks::new(cache);
        let ghost ops = spec_root_ops(key_views(self.roots@));
        let ghost start = graph@;
        proof {
            crate::graph_model::law_nothing_registered::<InstallOp, InstallOpResultView, Error>();
        }
        let mut i: usize = 0;
        while i < self.roots.len()
            invariant
                i <= self.roots.len(),
                graph.wf(),
                ops == spec_root_ops(key_views(self.roots@)),
                register_all_model::<InstallOp, InstallOpResultView, Error>(
                    graph@,
                    ops,
                    i as nat,
                ) == register_all_model::<InstallOp, InstallOpResultView, Error>(start, ops, 0),
                graph.cache.lockfile@ == self.initial_lockfile@,
            decreases self.roots.len() - i,
        {
            let op = InstallOp::Resolve { descriptor: self.roots[i].duplicate() };
            assert(op@ == ops[i as int]);
            graph.register(op);
            i += 1;
        }
        graph
    }

    /// Records the content of a package.
    pub fn record_fetch(&mut self, locator: Locator, package_data: PackageData)
        requires
            old(self).wf(),
        ensures
            final(self).wf(),
            final(self).result.package_data.deep() == crate::keyed::put(
                old(self).result.package_data.deep(),
                locator@,
                package_data@,
            ),
            final(self).result.install_state == old(self).result.install_state,
            final(self).description == old(self).description,
            final(self).roots == old(self).roots,
    {
        self.result.package_data.put(locator, package_data);
    }

    /// Records that `descriptor` resolved to `resolution`: the lockfile
    /// takes both, a package made for some machines only is noted as
    /// conditional, and as disabled where this machine is none of them; it
    /// stays in the lockfile all the same. Content that came with the
    /// resolution is recorded too.
    pub fn record_resolution(
        &mut self,
        descriptor: Descriptor,
        resolution: Resolution,
        package_data: Option<PackageData>,
    )
        requires
            old(self).wf(),
        ensures
            final(self).wf(),
            final(self).result.install_state.lockfile@.resolutions == crate::keyed::put(
                old(self).result.install_state.lockfile@.resolutions,
                descriptor@,
                resolution@.locator,
            ),
            final(self).result.install_state.lockfile@.entries == crate::keyed::put(
                old(self).result.install_state.lockfile@.entries,
                resolution@.locator,
                LockfileEntryView { checksum: None, resolution: resolution@ },
            ),
            key_views(final(self).result.install_state.conditional_locators@) == (
            if Requirements::spec_is_conditional(resolution@.requirements) {
                spec_with_locator(
                    key_views(old(self).result.install_state.conditional_locators@),
                    resolution@.locator,
                )
            } else {
                key_views(old(self).result.install_state.conditional_locators@)
            }),
            key_views(final(self).result.install_state.disabled_locators@) == (
            if Requirements::spec_is_conditional(resolution@.requirements)
                && !Requirements::spec_validate(
                resolution@.requirements,
                old(self).description.os@,
                old(self).description.arch@,
            ) {
                spec_with_locator(
                    key_views(old(self).result.install_state.disabled_locators@),
                    resolution@.locator,
                )
            } else {
                key_views(old(self).result.install_state.disabled_locators@)
            }),
            final(self).result.package_data.deep() == (match package_data {
                Some(data) => crate::keyed::put(
                    old(self).result.package_data.deep(),
                    resolution@.locator,
                    data@,
                ),
                None => old(self).result.package_data.deep(),
            }),
            final(self).description == old(self).description,
            final(self).roots == old(self).roots,
    {
        if resolution.requirements.is_conditional() {
            add_locator(
                &mut self.result.install_state.conditional_locators,
                resolution.locator.duplicate(),
            );
            if !resolution.requirements.validate(&self.description) {
                add_locator(
                    &mut self.result.install_state.disabled_locators,
                    resolution.locator.duplicate(),
                );
            }
        }
        let locator = resolution.locator.duplicate();
        self.result.install_state.lockfile.record(descriptor, resolution);
        match package_data {
            Some(data) => {
                self.record_fetch(locator, data);
            },
            None => {},
        }
    }
}

/// What an install has gathered so far.
pub struct GatheredView {
    pub resolutions: Seq<(DescriptorView, LocatorView)>,
    pub entries: Seq<(LocatorView, LockfileEntryView)>,
    pub package_data: Seq<(LocatorView, PackageDataView)>,
    pub conditional: Seq<LocatorView>,
    pub disabled: Seq<LocatorView>,
}

/// Recording the content of a package.
pub open spec fn spec_record_fetch(
    g: GatheredView,
    locator: LocatorView,
    data: PackageDataView,
) -> GatheredView {
    GatheredView { package_data: crate::keyed::put(g.package_data, locator, data), ..g }
}

/// Recording a resolution on a machine with that system and processor.
pub open spec fn spec_record_resolution(
    g: GatheredView,
    os: Seq<char>,
    arch: Seq<char>,
    descriptor: DescriptorView,
    resolution: ResolutionView,
    data: Option<PackageDataView>,
) -> GatheredView {
    let conditional = Requirements::spec_is_conditional(resolution.requirements);
    let disabled = conditional && !Requirements::spec_validate(resolution.requirements, os, arch);
    GatheredView {
        resolutions: crate::keyed::put(g.resolutions, descriptor, resolution.locator),
        entries: crate::keyed::put(
            g.entries,
            resolution.locator,
            LockfileEntryView { checksum: None, resolution },
        ),
        package_data: match data {
            Some(data) => crate::keyed::put(g.package_data, resolution.locator, data),
            None => g.package_data,
        },
        conditional: if conditional {
            spec_with_locator(g.conditional, resolution.locator)
        } else {
            g.conditional
        },
        disabled: if disabled {
            spec_with_locator(g.disabled, resolution.locator)
        } else {
            g.disabled
        },
    }
}

/// Recording the output of one operation; `None` where the output is not
/// of the kind that the operation yields.
pub open spec fn spec_gather_one(
    g: GatheredView,
    os: Seq<char>,
    arch: Seq<char>,
    op: InstallOpView,
    out: InstallOpResultView,
) -> Option<GatheredView> {
    match (op, out) {
        (
            InstallOpView::Resolve { descriptor },
            InstallOpResultView::Resolved(result),
        ) => Some(
            spec_record_resolution(g, os, arch, descriptor, result.resolution, result.package_data),
        ),
        (InstallOpView::Fetch { locator }, InstallOpResultView::Fetched(result)) => Some(
            spec_record_fetch(g, locator, result.package_data),
        ),
        _ => None,
    }
}

/// Recording the outputs of the first `n` operations, in order.
pub open spec fn spec_gather(
    g: GatheredView,
    os: Seq<char>,
    arch: Seq<char>,
    outputs: Seq<(InstallOpView, InstallOpResultView)>,
    n: nat,
) -> Option<GatheredView>
    decreases n,
{
    if n == 0 {
        Some(g)
    } else {
        match spec_gather(g, os, arch, outputs, (n - 1) as nat) {
            Some(before) => spec_gather_one(before, os, arch, outputs[n - 1].0, outputs[n - 1].1),
            None => None,
        }
    }
}

proof fn lemma_gather_fails(
    g: GatheredView,
    os: Seq<char>,
    arch: Seq<char>,
    outputs: Seq<(InstallOpView, InstallOpResultView)>,
    n: nat,
    m: nat,
)
    requires
        spec_gather(g, os, arch, outputs, n) is None,
        n <= m,
    ensures
        spec_gather(g, os, arch, outputs, m) is None,
    decreases m - n,
{
    if n < m {
        lemma_gather_fails(g, os, arch, outputs, n, (m - 1) as nat);
    }
}

impl<'a> InstallManager<'a> {
    /// What the manager has gathered.
    pub open spec fn gathered(&self) -> GatheredView {
        GatheredView {
            resolutions: self.result.install_state.lockfile@.resolutions,
            entries: self.result.install_state.lockfile@.entries,
            package_data: self.result.package_data.deep(),
            conditional: key_views(self.result.install_state.conditional_locators@),
            disabled: key_views(self.result.install_state.disabled_locators@),
        }
    }

    /// Gathers what a run of the graph produced into the outcome of the
    /// install.
    ///
    /// A run in which anything failed yields no outcome but the first of
    /// its errors: a lockfile that is not complete is not handed out. Else
    /// every output is recorded in turn, and the tree maps each requirement
    /// to its package as the lockfile does.
    pub fn finish(self, results: GraphTaskResults<InstallOp, InstallOpResult, Error>) -> (r: Result<
        Install,
        Error,
    >)
        requires
            self.wf(),
        ensures
            results.failed@.len() > 0 ==> (r matches Err(e) && e@ == results.failed@[0].1@),
            results.failed@.len() == 0 ==> match spec_gather(
                self.gathered(),
                self.description.os@,
                self.description.arch@,
                results.success.deep(),
                results.success.deep().len(),
            ) {
                Some(g) => r matches Ok(install) && install.wf() && install.install_state.lockfile@.resolutions
                    == g.resolutions && install.install_state.lockfile@.entries == g.entries
                    && install.package_data.deep() == g.package_data && key_views(
                    install.install_state.conditional_locators@,
                ) == g.conditional && key_views(install.install_state.disabled_locators@)
                    == g.disabled && install.install_state.resolution_tree.descriptor_to_locator.deep()
                    == g.resolutions,
                None => r matches Err(e) && e@ == (ErrorKind::Unsupported, Seq::<char>::empty()),
            },
    {
        if results.failed.len() > 0 {
            return Err(results.failed[0].1.duplicate());
        }
        let mut manager = self;
        let ghost start = manager.gathered();
        let ghost os = manager.description.os@;
        let ghost arch = manager.description.arch@;
        let ghost outputs = results.success.deep();
        let mut i: usize = 0;
        while i < results.success.entries.len()
            invariant
                i <= results.success.entries.len(),
                manager.wf(),
                results.failed@.len() == 0,
                start == self.gathered(),
                outputs == results.success.deep(),
                os == self.description.os@,
                arch == self.description.arch@,
                os == manager.description.os@,
                arch == manager.description.arch@,
                spec_gather(start, os, arch, outputs, i as nat) == Some(manager.gathered()),
            decreases results.success.entries.len() - i,
        {
            let op = &results.success.entries[i].0;
            let out = &results.success.entries[i].1;
            assert(outputs[i as int] == (op@, out@));
            let ghost n = (i + 1) as nat;
            assert(spec_gather(start, os, arch, outputs, n) == spec_gather_one(
                manager.gathered(),
                os,
                arch,
                op@,
                out@,
            ));
            match (op, out) {
                (InstallOp::Resolve { descriptor }, InstallOpResult::Resolved(result)) => {
                    manager.record_resolution(
                        descriptor.duplicate(),
                        result.resolution.duplicate(),
                        duplicate_option(&result.package_data),
                    );
                },
                (InstallOp::Fetch { locator }, InstallOpResult::Fetched(result)) => {
                    manager.record_fetch(locator.duplicate(), result.package_data.duplicate());
                },
                _ => {
                    proof {
                        lemma_gather_fails(
                            start,
                            os,
                            arch,
                            outputs,
                            n,
                            results.success.entries.len() as nat,
                        );
                    }
                    return Err(Error::bare(ErrorKind::Unsupported));
                },
            }
            i += 1;
        }
        let mut install = manager.result;
        install.install_state.resolution_tree = ResolutionTree {
            descriptor_to_locator: install.install_state.lockfile.resolutions.duplicate_list(),
        };
        Ok(install)
    }
}

/// With no roots nothing is registered: the graph has no tasks, nothing to
/// run and no results.
pub proof fn law_no_roots()
    ensures
        register_all_model::<InstallOp, InstallOpResultView, Error>(
            empty_model::<InstallOpView, InstallOpResultView, Error>(),
            spec_root_ops(Seq::empty()),
            0,
        ) == empty_model::<InstallOpView, InstallOpResultView, Error>(),
{
    assert(spec_root_ops(Seq::empty()) =~= Seq::<InstallOpView>::empty());
}

} // verus!
