//! The closed set of ideograph categories and the predicates derived from it.

use vstd::prelude::*;

verus! {

/// The ideograph-related classification of a single code point.
///
/// The variants are mutually exclusive: every code point has exactly one of
/// them, and [`IdeographSet::Other`] is the one it has when no range of the
/// table claims it.
#[derive(Clone, Copy, Debug, PartialEq, Eq, Structural, Hash)]
pub enum IdeographSet {
    /// A CJK Unified Ideograph that is in IICore but not in Unihan-Core.
    IICoreCJKUnifiedIdeograph,
    /// A CJK Unified Ideograph that is in both IICore and Unihan-Core.
    IICoreAndUnihanCoreCJKUnifiedIdeograph,
    /// A CJK Compatibility Ideograph.
    CJKCompatIdeograph,
    /// A CJK radical or component: a part of an ideograph, not an ideograph.
    CJKRadicalAndComponent,
    /// A Tangut radical or component: a part of an ideograph, not an ideograph.
    TangutRadicalAndComponent,
    /// No ideograph-related classification.
    Other,
}

impl IdeographSet {
    /// Membership in the IICore reference subset.
    pub open spec fn spec_is_cjkui_in_iicore(self) -> bool {
        self is IICoreCJKUnifiedIdeograph || self is IICoreAndUnihanCoreCJKUnifiedIdeograph
    }

    /// Membership in the Unihan-Core reference subset.
    pub open spec fn spec_is_cjkui_in_unihancore(self) -> bool {
        self is IICoreAndUnihanCoreCJKUnifiedIdeograph
    }

    /// Being a CJK Compatibility Ideograph.
    pub open spec fn spec_is_cjk_compat_ideograph(self) -> bool {
        self is CJKCompatIdeograph
    }

    /// Being an ideograph, as opposed to a radical, a component or an
    /// unclassified code point.
    pub open spec fn spec_is_ideograph(self) -> bool {
        !(self is CJKRadicalAndComponent || self is TangutRadicalAndComponent || self is Other)
    }

    /// Whether the code point counts as part of the IICore reference subset.
    #[verifier::when_used_as_spec(spec_is_cjkui_in_iicore)]
    pub fn is_cjkui_in_iicore(self) -> (b: bool)
        ensures
            b == self.spec_is_cjkui_in_iicore(),
    {
        match self {
            IdeographSet::IICoreCJKUnifiedIdeograph
            | IdeographSet::IICoreAndUnihanCoreCJKUnifiedIdeograph => true,
            _ => false,
        }
    }

    /// Whether the code point counts as part of the Unihan-Core reference
    /// subset.
    #[verifier::when_used_as_spec(spec_is_cjkui_in_unihancore)]
    pub fn is_cjkui_in_unihancore(self) -> (b: bool)
        ensures
            b == self.spec_is_cjkui_in_unihancore(),
    {
        match self {
            IdeographSet::IICoreAndUnihanCoreCJKUnifiedIdeograph => true,
            _ => false,
        }
    }

    /// Whether the code point is a CJK Compatibility Ideograph.
    #[verifier::when_used_as_spec(spec_is_cjk_compat_ideograph)]
    pub fn is_cjk_compat_ideograph(self) -> (b: bool)
        ensures
            b == self.spec_is_cjk_compat_ideograph(),
    {
        match self {
            IdeographSet::CJKCompatIdeograph => true,
            _ => false,
        }
    }

    /// Whether the code point is an ideograph at all.
    #[verifier::when_used_as_spec(spec_is_ideograph)]
    pub fn is_ideograph(self) -> (b: bool)
        ensures
            b == self.spec_is_ideograph(),
    {
        match self {
            IdeographSet::CJKRadicalAndComponent
            | IdeographSet::TangutRadicalAndComponent
            | IdeographSet::Other => false,
            _ => true,
        }
    }
}

/// Unihan-Core is a subset of IICore as far as the categories tell: a
/// category that counts for Unihan-Core counts for IICore too.
pub proof fn lemma_unihancore_within_iicore(c: IdeographSet)
    ensures
        c.is_cjkui_in_unihancore() ==> c.is_cjkui_in_iicore(),
{
}

/// Every category that one of the subset predicates accepts is an
/// ideograph; radicals, components and `Other` are accepted by none.
pub proof fn lemma_subsets_are_ideographs(c: IdeographSet)
    ensures
        c.is_cjkui_in_iicore() ==> c.is_ideograph(),
        c.is_cjk_compat_ideograph() ==> c.is_ideograph(),
        c.is_ideograph() <==> (c.is_cjkui_in_iicore() || c.is_cjk_compat_ideograph()),
{
}

} // verus!
