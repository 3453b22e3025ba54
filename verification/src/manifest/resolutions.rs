//! The `resolutions` of a manifest: requirements that are to be replaced
//! wherever they occur, or where they occur below a given package.
use crate::keyed::{Duplicate, Key};
use crate::primitives::{
    Descriptor, DescriptorView, Ident, Locator, LocatorView, Range, RangeView,
};
use crate::semver::Version;
use crate::text::{append_str, string_of};
use vstd::prelude::*;

verus! {

/// Which requirements a replacement applies to.
#[derive(Debug)]
pub enum ResolutionSelector {
    /// This very requirement.
    Descriptor { descriptor: Descriptor },
    /// Every requirement on this package.
    Ident { ident: Ident },
    /// Every requirement on `ident` made by a package whose version
    /// satisfies the range of `parent_descriptor`.
    DescriptorIdent { parent_descriptor: Descriptor, ident: Ident },
    /// Every requirement on `ident` made by the package `parent_ident`.
    IdentIdent { parent_ident: Ident, ident: Ident },
}

pub enum ResolutionSelectorView {
    Descriptor { descriptor: DescriptorView },
    Ident { ident: Seq<char> },
    DescriptorIdent { parent_descriptor: DescriptorView, ident: Seq<char> },
    IdentIdent { parent_ident: Seq<char>, ident: Seq<char> },
}

impl View for ResolutionSelector {
    type V = ResolutionSelectorView;

    open spec fn view(&self) -> ResolutionSelectorView {
        match self {
            ResolutionSelector::Descriptor { descriptor } => ResolutionSelectorView::Descriptor {
                descriptor: descriptor@,
            },
            ResolutionSelector::Ident { ident } => ResolutionSelectorView::Ident { ident: ident@ },
            ResolutionSelector::DescriptorIdent {
                parent_descriptor,
                ident,
            } => ResolutionSelectorView::DescriptorIdent {
                parent_descriptor: parent_descriptor@,
                ident: ident@,
            },
            ResolutionSelector::IdentIdent {
                parent_ident,
                ident,
            } => ResolutionSelectorView::IdentIdent { parent_ident: parent_ident@, ident: ident@ },
        }
    }
}

/// The package whose requirements a selector is about.
pub open spec fn spec_target_ident(selector: ResolutionSelectorView) -> Seq<char> {
    match selector {
        ResolutionSelectorView::Descriptor { descriptor } => descriptor.ident,
        ResolutionSelectorView::Ident { ident } => ident,
        ResolutionSelectorView::DescriptorIdent { ident, .. } => ident,
        ResolutionSelectorView::IdentIdent { ident, .. } => ident,
    }
}

/// Whether a selector applies to `descriptor` as required by the package
/// `parent` at `parent_version`.
pub open spec fn spec_applies(
    selector: ResolutionSelectorView,
    parent: LocatorView,
    parent_version: Version,
    descriptor: DescriptorView,
) -> bool {
    match selector {
        ResolutionSelectorView::Descriptor { descriptor: wanted } => wanted == descriptor,
        ResolutionSelectorView::Ident { ident } => ident == descriptor.ident,
        ResolutionSelectorView::DescriptorIdent { parent_descriptor, ident } => ident
            == descriptor.ident && (match parent_descriptor.range {
            RangeView::Semver(range) => range.accepts(parent_version),
            _ => false,
        }),
        ResolutionSelectorView::IdentIdent { parent_ident, ident } => ident == descriptor.ident
            && parent_ident == parent.ident,
    }
}

/// A selector as text: the requirement or the name, behind that of the
/// parent and a `/` where it has one.
pub open spec fn spec_selector_text(selector: ResolutionSelectorView) -> Seq<char> {
    match selector {
        ResolutionSelectorView::Descriptor { descriptor } => Descriptor::spec_text(descriptor),
        ResolutionSelectorView::Ident { ident } => ident,
        ResolutionSelectorView::DescriptorIdent { parent_descriptor, ident } => Descriptor::spec_text(
            parent_descriptor,
        ) + "/"@ + ident,
        ResolutionSelectorView::IdentIdent { parent_ident, ident } => parent_ident + "/"@ + ident,
    }
}

impl ResolutionSelector {
    pub fn target_ident(&self) -> (ident: &Ident)
        ensures
            ident@ == spec_target_ident(self@),
    {
        match self {
            ResolutionSelector::Descriptor { descriptor } => &descriptor.ident,
            ResolutionSelector::Ident { ident } => ident,
            ResolutionSelector::DescriptorIdent { ident, .. } => ident,
            ResolutionSelector::IdentIdent { ident, .. } => ident,
        }
    }

    /// The range to put in place of that of `descriptor`: the replacement
    /// where the selector applies, nothing where it does not.
    pub fn apply(
        &self,
        parent: &Locator,
        parent_version: &Version,
        descriptor: &Descriptor,
        replacement_range: &Range,
    ) -> (r: Option<Range>)
        ensures
            crate::keyed::option_view(r) == (if spec_applies(
                self@,
                parent@,
                *parent_version,
                descriptor@,
            ) {
                Some(replacement_range@)
            } else {
                None
            }),
    {
        match self {
            ResolutionSelector::Descriptor { descriptor: wanted } => {
                if !wanted.same(descriptor) {
                    return None;
                }
                Some(replacement_range.duplicate())
            },
            ResolutionSelector::Ident { ident } => {
                if !ident.same(&descriptor.ident) {
                    return None;
                }
                Some(replacement_range.duplicate())
            },
            ResolutionSelector::DescriptorIdent { parent_descriptor, ident } => {
                if !ident.same(&descriptor.ident) {
                    return None;
                }
                match &parent_descriptor.range {
                    Range::Semver(range) => {
                        if !range.check(parent_version) {
                            return None;
                        }
                    },
                    _ => {
                        return None;
                    },
                }
                Some(replacement_range.duplicate())
            },
            ResolutionSelector::IdentIdent { parent_ident, ident } => {
                if !ident.same(&descriptor.ident) {
                    return None;
                }
                if !parent_ident.same(&parent.ident) {
                    return None;
                }
                Some(replacement_range.duplicate())
            },
        }
    }

    pub fn to_file_string(&self) -> (text: String)
        ensures
            text@ == spec_selector_text(self@),
    {
        let mut out: Vec<char> = Vec::new();
        match self {
            ResolutionSelector::Descriptor { descriptor } => {
                let d = descriptor.to_file_string();
                append_str(&mut out, d.as_str());
            },
            ResolutionSelector::Ident { ident } => {
                append_str(&mut out, ident.as_str());
            },
            ResolutionSelector::DescriptorIdent { parent_descriptor, ident } => {
                let d = parent_descriptor.to_file_string();
                append_str(&mut out, d.as_str());
                append_str(&mut out, "/");
                append_str(&mut out, ident.as_str());
            },
            ResolutionSelector::IdentIdent { parent_ident, ident } => {
                append_str(&mut out, parent_ident.as_str());
                append_str(&mut out, "/");
                append_str(&mut out, ident.as_str());
            },
        }
        assert(out@ =~= spec_selector_text(self@));
        string_of(&out)
    }

    /// What is printed for a selector is its text.
    pub fn to_print_string(&self) -> (text: String)
        ensures
            text@ == spec_selector_text(self@),
    {
        self.to_file_string()
    }
}

} // verus!
