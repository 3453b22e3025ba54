//! What resolving a package yields: its version, what it depends on, and on
//! which machines it can be installed.
use crate::keyed::{has_key, key_views, put_all, Duplicate, KeyedList};
use crate::primitives::{
    Descriptor, DescriptorView, Ident, Locator, LocatorView, Range,
};
use crate::semver;
use crate::semver::Version;
use crate::text::string_views;
use vstd::prelude::*;

verus! {

/// The machine that packages are installed on.
#[derive(Debug)]
pub struct Description {
    pub os: String,
    pub arch: String,
}

/// The systems and processors that a package is made for. An empty list
/// admits all.
#[derive(Debug)]
pub struct Requirements {
    pub os: Vec<String>,
    pub cpu: Vec<String>,
}

pub struct RequirementsView {
    pub os: Seq<Seq<char>>,
    pub cpu: Seq<Seq<char>>,
}

impl View for Requirements {
    type V = RequirementsView;

    open spec fn view(&self) -> RequirementsView {
        RequirementsView { os: string_views(self.os@), cpu: string_views(self.cpu@) }
    }
}

fn copy_strings(list: &Vec<String>) -> (copy: Vec<String>)
    ensures
        string_views(copy@) == string_views(list@),
{
    let mut copy: Vec<String> = Vec::new();
    let mut i: usize = 0;
    while i < list.len()
        invariant
            i <= list.len(),
            copy.len() == i,
            forall|j: int| 0 <= j < i ==> copy@[j]@ == list@[j]@,
        decreases list.len() - i,
    {
        copy.push(list[i].clone());
        i += 1;
    }
    assert(string_views(copy@) =~= string_views(list@));
    copy
}

fn holds_text(list: &Vec<String>, text: &String) -> (found: bool)
    ensures
        found == string_views(list@).contains(text@),
{
    let mut i: usize = 0;
    while i < list.len()
        invariant
            i <= list.len(),
            forall|j: int| 0 <= j < i ==> string_views(list@)[j] != text@,
        decreases list.len() - i,
    {
        if list[i] == *text {
            assert(string_views(list@)[i as int] == text@);
            return true;
        }
        i += 1;
    }
    false
}

impl Duplicate for Requirements {
    fn duplicate(&self) -> (copy: Self) {
        Requirements { os: copy_strings(&self.os), cpu: copy_strings(&self.cpu) }
    }
}

impl Requirements {
    /// Requirements that every machine meets.
    pub fn default() -> (r: Requirements)
        ensures
            r@ == (RequirementsView { os: Seq::empty(), cpu: Seq::empty() }),
    {
        let r = Requirements { os: Vec::new(), cpu: Vec::new() };
        assert(r@.os =~= Seq::empty());
        assert(r@.cpu =~= Seq::empty());
        r
    }

    /// Whether the package is made for some machines only.
    pub open spec fn spec_is_conditional(r: RequirementsView) -> bool {
        r.os.len() > 0 || r.cpu.len() > 0
    }

    pub fn is_conditional(&self) -> (r: bool)
        ensures
            r == Self::spec_is_conditional(self@),
    {
        self.os.len() > 0 || self.cpu.len() > 0
    }

    /// Whether the machine is one that the package is made for.
    pub open spec fn spec_validate(r: RequirementsView, os: Seq<char>, arch: Seq<char>) -> bool {
        (r.os.len() == 0 || r.os.contains(os)) && (r.cpu.len() == 0 || r.cpu.contains(arch))
    }

    pub fn validate(&self, description: &Description) -> (r: bool)
        ensures
            r == Self::spec_validate(self@, description.os@, description.arch@),
    {
        (self.os.len() == 0 || holds_text(&self.os, &description.os)) && (self.cpu.len() == 0
            || holds_text(&self.cpu, &description.arch))
    }
}

/// Which versions of a peer a package accepts.
#[derive(Clone, Copy, Debug, PartialEq, Eq, Structural)]
pub enum PeerRange {
    /// The package names the peer and no versions.
    Unconstrained,
    Semver(semver::Range),
}

impl View for PeerRange {
    type V = PeerRange;

    open spec fn view(&self) -> PeerRange {
        *self
    }
}

impl Duplicate for PeerRange {
    fn duplicate(&self) -> (copy: Self) {
        *self
    }
}

/// Where the registry keeps the archive of a version.
#[derive(Debug)]
pub struct Dist {
    pub tarball: String,
}

/// What a manifest says of a package, as far as resolving needs it.
#[derive(Debug)]
pub struct RemoteManifest {
    pub version: Version,
    pub requirements: Requirements,
    pub dependencies: KeyedList<Ident, Descriptor>,
    pub optional_dependencies: KeyedList<Ident, Descriptor>,
    pub peer_dependencies: KeyedList<Ident, PeerRange>,
    pub dist: Option<Dist>,
}

pub struct RemoteManifestView {
    pub version: Version,
    pub requirements: RequirementsView,
    pub dependencies: Seq<(Seq<char>, DescriptorView)>,
    pub optional_dependencies: Seq<(Seq<char>, DescriptorView)>,
    pub peer_dependencies: Seq<(Seq<char>, PeerRange)>,
    pub dist: Option<Seq<char>>,
}

impl View for RemoteManifest {
    type V = RemoteManifestView;

    open spec fn view(&self) -> RemoteManifestView {
        RemoteManifestView {
            version: self.version,
            requirements: self.requirements@,
            dependencies: self.dependencies.deep(),
            optional_dependencies: self.optional_dependencies.deep(),
            peer_dependencies: self.peer_dependencies.deep(),
            dist: match self.dist {
                Some(dist) => Some(dist.tarball@),
                None => None,
            },
        }
    }
}

impl Duplicate for RemoteManifest {
    fn duplicate(&self) -> (copy: Self) {
        RemoteManifest {
            version: self.version,
            requirements: self.requirements.duplicate(),
            dependencies: self.dependencies.duplicate_list(),
            optional_dependencies: self.optional_dependencies.duplicate_list(),
            peer_dependencies: self.peer_dependencies.duplicate_list(),
            dist: match &self.dist {
                Some(dist) => Some(Dist { tarball: dist.tarball.clone() }),
                None => None,
            },
        }
    }
}

impl RemoteManifest {
    /// No name occurs twice in any of the three lists.
    pub open spec fn wf(&self) -> bool {
        self.dependencies.wf() && self.optional_dependencies.wf() && self.peer_dependencies.wf()
    }

    /// A manifest that declares nothing.
    pub fn empty(version: Version) -> (manifest: RemoteManifest)
        ensures
            manifest.wf(),
            manifest.version == version,
            manifest.dependencies.deep().len() == 0,
            manifest.optional_dependencies.deep().len() == 0,
            manifest.peer_dependencies.deep().len() == 0,
            manifest.dist is None,
            manifest.requirements@ == (RequirementsView { os: Seq::empty(), cpu: Seq::empty() }),
    {
        RemoteManifest {
            version,
            requirements: Requirements::default(),
            dependencies: KeyedList::new(),
            optional_dependencies: KeyedList::new(),
            peer_dependencies: KeyedList::new(),
            dist: None,
        }
    }
}

/// The record that is kept of a resolved package.
#[derive(Debug)]
pub struct Resolution {
    pub locator: Locator,
    pub version: Version,
    pub requirements: Requirements,
    pub dependencies: KeyedList<Ident, Descriptor>,
    pub peer_dependencies: KeyedList<Ident, PeerRange>,
    pub optional_dependencies: Vec<Ident>,
    pub missing_peer_dependencies: Vec<Ident>,
}

pub struct ResolutionView {
    pub locator: LocatorView,
    pub version: Version,
    pub requirements: RequirementsView,
    pub dependencies: Seq<(Seq<char>, DescriptorView)>,
    pub peer_dependencies: Seq<(Seq<char>, PeerRange)>,
    pub optional_dependencies: Seq<Seq<char>>,
    pub missing_peer_dependencies: Seq<Seq<char>>,
}

impl View for Resolution {
    type V = ResolutionView;

    open spec fn view(&self) -> ResolutionView {
        ResolutionView {
            locator: self.locator@,
            version: self.version,
            requirements: self.requirements@,
            dependencies: self.dependencies.deep(),
            peer_dependencies: self.peer_dependencies.deep(),
            optional_dependencies: key_views(self.optional_dependencies@),
            missing_peer_dependencies: key_views(self.missing_peer_dependencies@),
        }
    }
}

impl Duplicate for Resolution {
    fn duplicate(&self) -> (copy: Self) {
        Resolution {
            locator: self.locator.duplicate(),
            version: self.version,
            requirements: self.requirements.duplicate(),
            dependencies: self.dependencies.duplicate_list(),
            peer_dependencies: self.peer_dependencies.duplicate_list(),
            optional_dependencies: crate::keyed::duplicate_all(&self.optional_dependencies),
            missing_peer_dependencies: crate::keyed::duplicate_all(
                &self.missing_peer_dependencies,
            ),
        }
    }
}

/// A requirement with a relative range is bound to the package that
/// declares it; any other stays as it is.
pub open spec fn spec_bind(requirement: DescriptorView, locator: LocatorView) -> DescriptorView {
    if Range::spec_must_bind(requirement.range) {
        DescriptorView { parent: Some(locator), ..requirement }
    } else {
        requirement
    }
}

/// A peer named without versions accepts every version.
pub open spec fn spec_widen(range: PeerRange) -> PeerRange {
    match range {
        PeerRange::Unconstrained => PeerRange::Semver(semver::Range::spec_any()),
        PeerRange::Semver(r) => PeerRange::Semver(r),
    }
}

/// The names of the peers that are not among the dependencies.
pub open spec fn spec_missing_peers(
    peers: Seq<(Seq<char>, PeerRange)>,
    dependencies: Seq<(Seq<char>, DescriptorView)>,
) -> Seq<Seq<char>> {
    peers.map_values(|p: (Seq<char>, PeerRange)| p.0).filter(
        |name: Seq<char>| !has_key(dependencies, name),
    )
}

/// A resolution as it is accepted: relative requirements are bound to the
/// resolved package, peers without versions accept all, and the peers that
/// the package does not depend on itself are listed as missing.
pub open spec fn spec_normalize(r: ResolutionView) -> ResolutionView {
    ResolutionView {
        dependencies: r.dependencies.map_values(
            |d: (Seq<char>, DescriptorView)| (d.0, spec_bind(d.1, r.locator)),
        ),
        peer_dependencies: r.peer_dependencies.map_values(
            |p: (Seq<char>, PeerRange)| (p.0, spec_widen(p.1)),
        ),
        missing_peer_dependencies: spec_missing_peers(r.peer_dependencies, r.dependencies),
        ..r
    }
}

impl Resolution {
    /// No name occurs twice among the dependencies or among the peers.
    pub open spec fn wf(&self) -> bool {
        self.dependencies.wf() && self.peer_dependencies.wf()
    }

    /// What a manifest says of the package at `locator`: the optional
    /// dependencies count as dependencies too, and take precedence.
    pub open spec fn spec_from_remote_manifest(
        locator: LocatorView,
        manifest: RemoteManifestView,
    ) -> ResolutionView {
        ResolutionView {
            locator,
            version: manifest.version,
            requirements: manifest.requirements,
            dependencies: put_all(
                manifest.dependencies,
                manifest.optional_dependencies,
                manifest.optional_dependencies.len(),
            ),
            peer_dependencies: manifest.peer_dependencies,
            optional_dependencies: manifest.optional_dependencies.map_values(
                |p: (Seq<char>, DescriptorView)| p.0,
            ),
            missing_peer_dependencies: Seq::empty(),
        }
    }

    pub fn from_remote_manifest(locator: Locator, manifest: RemoteManifest) -> (r: Resolution)
        requires
            manifest.wf(),
        ensures
            r.wf(),
            r@ == Self::spec_from_remote_manifest(locator@, manifest@),
    {
        let optional_dependencies = manifest.optional_dependencies.key_list();
        assert(manifest.optional_dependencies.keys() =~= manifest@.optional_dependencies.map_values(
            |p: (Seq<char>, DescriptorView)| p.0,
        ));
        let mut dependencies = manifest.dependencies;
        dependencies.put_list(&manifest.optional_dependencies);
        let r = Resolution {
            locator,
            version: manifest.version,
            requirements: manifest.requirements,
            dependencies,
            peer_dependencies: manifest.peer_dependencies,
            optional_dependencies,
            missing_peer_dependencies: Vec::new(),
        };
        assert(r@.missing_peer_dependencies =~= Seq::empty());
        r
    }

    /// The result of a resolution: the resolution in its accepted form,
    /// without content.
    pub fn into_resolution_result(self) -> (result: crate::install::ResolutionResult)
        requires
            self.wf(),
        ensures
            result.resolution.wf(),
            result@ == (crate::install::ResolutionResultView {
                resolution: spec_normalize(self@),
                package_data: None,
            }),
    {
        crate::install::ResolutionResult::new(self.normalize())
    }

    /// Brings the resolution into the form in which it is accepted.
    pub fn normalize(self) -> (r: Resolution)
        requires
            self.wf(),
        ensures
            r.wf(),
            r@ == spec_normalize(self@),
    {
        let ghost before = self@;
        let ghost pred = |name: Seq<char>| !has_key(before.dependencies, name);
        let mut missing: Vec<Ident> = Vec::new();
        let mut peers: KeyedList<Ident, PeerRange> = KeyedList { entries: Vec::new() };
        let ghost names = self.peer_dependencies.keys();
        let mut i: usize = 0;
        proof {
            reveal(Seq::filter);
            assert(names.take(0) =~= Seq::empty());
            self.dependencies.lemma_deep();
        }
        assert(key_views(missing@) =~= names.take(0).filter(pred));
        while i < self.peer_dependencies.entries.len()
            invariant
                i <= self.peer_dependencies.entries.len(),
                before == self@,
                names == self.peer_dependencies.keys(),
                pred == (|name: Seq<char>| !has_key(before.dependencies, name)),
                forall|k: Seq<char>|
                    has_key(before.dependencies, k) == self.dependencies.map().contains_key(k),
                key_views(missing@) == names.take(i as int).filter(pred),
                peers.entries.len() == i,
                forall|j: int|
                    0 <= j < i ==> peers.entries@[j].0@ == self.peer_dependencies.entries@[j].0@
                        && peers.entries@[j].1 == spec_widen(
                        self.peer_dependencies.entries@[j].1,
                    ),
            decreases self.peer_dependencies.entries.len() - i,
        {
            let name = &self.peer_dependencies.entries[i].0;
            let range = self.peer_dependencies.entries[i].1;
            proof {
                reveal(Seq::filter);
                let next = names.take(i + 1);
                assert(next.drop_last() =~= names.take(i as int));
                assert(next.last() == name@);
            }
            if !self.dependencies.contains(name) {
                let ghost had = key_views(missing@);
                missing.push(name.duplicate());
                assert(key_views(missing@) =~= had.push(name@));
            }
            let wide = match range {
                PeerRange::Unconstrained => PeerRange::Semver(semver::Range::any()),
                PeerRange::Semver(r) => PeerRange::Semver(r),
            };
            peers.entries.push((name.duplicate(), wide));
            i += 1;
        }
        assert(names.take(self.peer_dependencies.entries.len() as int) =~= names);
        assert(names =~= before.peer_dependencies.map_values(|p: (Seq<char>, PeerRange)| p.0));
        let mut dependencies: KeyedList<Ident, Descriptor> = KeyedList { entries: Vec::new() };
        let mut j: usize = 0;
        while j < self.dependencies.entries.len()
            invariant
                j <= self.dependencies.entries.len(),
                before == self@,
                dependencies.entries.len() == j,
                forall|k: int|
                    0 <= k < j ==> dependencies.entries@[k].0@ == self.dependencies.entries@[k].0@
                        && dependencies.entries@[k].1@ == spec_bind(
                        self.dependencies.entries@[k].1@,
                        before.locator,
                    ),
            decreases self.dependencies.entries.len() - j,
        {
            let name = self.dependencies.entries[j].0.duplicate();
            let requirement = &self.dependencies.entries[j].1;
            let bound = if requirement.range.must_bind() {
                Descriptor {
                    ident: requirement.ident.duplicate(),
                    range: requirement.range.duplicate(),
                    parent: Some(self.locator.duplicate()),
                }
            } else {
                requirement.duplicate()
            };
            dependencies.entries.push((name, bound));
            j += 1;
        }
        assert(dependencies.keys() =~= self.dependencies.keys());
        assert(peers.keys() =~= self.peer_dependencies.keys());
        let r = Resolution {
            locator: self.locator,
            version: self.version,
            requirements: self.requirements,
            dependencies,
            peer_dependencies: peers,
            optional_dependencies: self.optional_dependencies,
            missing_peer_dependencies: missing,
        };
        assert(r@.dependencies =~= spec_normalize(before).dependencies);
        assert(r@.peer_dependencies =~= spec_normalize(before).peer_dependencies);
        r
    }
}

/// The accepted form keeps the package, its version and the names of what
/// it depends on; every relative requirement in it is bound to the package,
/// and no peer in it is without versions.
pub proof fn law_normalize_binds(r: ResolutionView)
    ensures
        spec_normalize(r).locator == r.locator,
        spec_normalize(r).version == r.version,
        spec_normalize(r).dependencies.len() == r.dependencies.len(),
        forall|i: int|
            0 <= i < r.dependencies.len() ==> (#[trigger] spec_normalize(r).dependencies[i]).0
                == r.dependencies[i].0,
        forall|i: int|
            0 <= i < r.dependencies.len() && Range::spec_must_bind(r.dependencies[i].1.range)
                ==> (#[trigger] spec_normalize(r).dependencies[i]).1.parent == Some(r.locator),
        forall|i: int|
            0 <= i < r.peer_dependencies.len() ==> !((#[trigger] spec_normalize(
                r,
            ).peer_dependencies[i]).1 is Unconstrained),
{
}

proof fn lemma_filter_same<A>(s: Seq<A>, p: spec_fn(A) -> bool, q: spec_fn(A) -> bool)
    requires
        forall|x: A| #[trigger] p(x) == q(x),
    ensures
        s.filter(p) == s.filter(q),
    decreases s.len(),
{
    reveal(Seq::filter);
    if s.len() > 0 {
        lemma_filter_same(s.drop_last(), p, q);
    }
}

/// Bringing a resolution into its accepted form a second time changes
/// nothing.
pub proof fn law_normalize_idempotent(r: ResolutionView)
    ensures
        spec_normalize(spec_normalize(r)) == spec_normalize(r),
{
    let once = spec_normalize(r);
    let twice = spec_normalize(once);
    assert(twice.dependencies =~= once.dependencies);
    assert(twice.peer_dependencies =~= once.peer_dependencies);
    let names0 = r.peer_dependencies.map_values(|p: (Seq<char>, PeerRange)| p.0);
    let names1 = once.peer_dependencies.map_values(|p: (Seq<char>, PeerRange)| p.0);
    assert(names1 =~= names0);
    let plain = |name: Seq<char>| !has_key(r.dependencies, name);
    let normal = |name: Seq<char>| !has_key(once.dependencies, name);
    assert forall|name: Seq<char>| #[trigger] normal(name) == plain(name) by {
        if has_key(r.dependencies, name) {
            let i = crate::keyed::key_position(r.dependencies, name);
            assert(once.dependencies[i].0 == name);
        }
        if has_key(once.dependencies, name) {
            let i = crate::keyed::key_position(once.dependencies, name);
            assert(r.dependencies[i].0 == name);
        }
    }
    lemma_filter_same(names0, normal, plain);
    assert(twice.missing_peer_dependencies == once.missing_peer_dependencies);
}

} // verus!
