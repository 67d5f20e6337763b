use crate::error::{AssetKind, ReleaseError};
use crate::version::{semver_parse, Version};
use vstd::prelude::*;
use vstd::string::*;

verus! {

/// One downloadable file of an upstream release.
#[derive(Debug, Clone)]
pub struct Asset {
    pub name: String,
    pub url: String,
}

/// A release as the hosting service lists it, with its publish time already
/// written as ISO-8601 text.
#[derive(Debug, Clone)]
pub struct RawRelease {
    pub tag_name: String,
    pub published_at: Option<String>,
    pub body: Option<String>,
    pub assets: Vec<Asset>,
}

/// The texts by which tags and assets are recognised.
#[derive(Debug, Clone)]
pub struct Settings {
    pub tag_prefix: String,
    pub binary_suffix: String,
    pub signature_suffix: String,
}

/// Everything of a release that is known before its signature is downloaded.
#[derive(Debug, Clone)]
pub struct Resolution {
    pub version: String,
    pub pub_date: Option<String>,
    pub url: String,
    pub signature_url: String,
    pub notes: String,
}

pub struct ResolutionView {
    pub version: Seq<char>,
    pub pub_date: Option<Seq<char>>,
    pub url: Seq<char>,
    pub signature_url: Seq<char>,
    pub notes: Seq<char>,
}

/// The public shape of a release.
#[derive(Debug, Clone)]
pub struct Release {
    pub version: String,
    pub pub_date: Option<String>,
    pub url: String,
    pub signature: String,
    pub notes: String,
}

pub struct ReleaseView {
    pub version: Seq<char>,
    pub pub_date: Option<Seq<char>>,
    pub url: Seq<char>,
    pub signature: Seq<char>,
    pub notes: Seq<char>,
}

pub open spec fn opt_text(o: Option<String>) -> Option<Seq<char>> {
    match o {
        Some(s) => Some(s@),
        None => None,
    }
}

pub open spec fn text_or_empty(o: Option<String>) -> Seq<char> {
    match o {
        Some(s) => s@,
        None => Seq::empty(),
    }
}

impl View for Resolution {
    type V = ResolutionView;

    open spec fn view(&self) -> ResolutionView {
        ResolutionView {
            version: self.version@,
            pub_date: opt_text(self.pub_date),
            url: self.url@,
            signature_url: self.signature_url@,
            notes: self.notes@,
        }
    }
}

impl View for Release {
    type V = ReleaseView;

    open spec fn view(&self) -> ReleaseView {
        ReleaseView {
            version: self.version@,
            pub_date: opt_text(self.pub_date),
            url: self.url@,
            signature: self.signature@,
            notes: self.notes@,
        }
    }
}

pub open spec fn has_prefix(text: Seq<char>, prefix: Seq<char>) -> bool {
    prefix.len() <= text.len() && text.subrange(0, prefix.len() as int) == prefix
}

pub open spec fn has_suffix(text: Seq<char>, suffix: Seq<char>) -> bool {
    suffix.len() <= text.len() && text.subrange(text.len() - suffix.len(), text.len() as int)
        == suffix
}

/// What is left of a tag once the prefix is taken off; `None` where the tag
/// does not start with the prefix.
pub open spec fn tag_text(tag: Seq<char>, prefix: Seq<char>) -> Option<Seq<char>> {
    if has_prefix(tag, prefix) {
        Some(tag.subrange(prefix.len() as int, tag.len() as int))
    } else {
        None
    }
}

/// The parts of the version that a tag names, if it names one.
pub open spec fn tag_parts(tag: Seq<char>, prefix: Seq<char>) -> Option<
    (u64, u64, u64, Seq<char>, Seq<char>),
> {
    match tag_text(tag, prefix) {
        Some(t) => semver_parse(t),
        None => None,
    }
}

/// The index of the first asset at or after `from` whose name ends with
/// `suffix`.
pub open spec fn first_with_suffix(assets: Seq<Asset>, suffix: Seq<char>, from: int) -> Option<int>
    decreases assets.len() - from,
{
    if from < 0 || from >= assets.len() {
        None
    } else if has_suffix(assets[from].name@, suffix) {
        Some(from)
    } else {
        first_with_suffix(assets, suffix, from + 1)
    }
}

/// What resolution of `raw` comes to before the signature is downloaded.
pub open spec fn plan_of(raw: RawRelease, settings: Settings) -> Result<
    ResolutionView,
    ReleaseError,
> {
    match tag_text(raw.tag_name@, settings.tag_prefix@) {
        None => Err(ReleaseError::MalformedTag),
        Some(t) => if semver_parse(t) is None {
            Err(ReleaseError::MalformedTag)
        } else {
            match first_with_suffix(raw.assets@, settings.signature_suffix@, 0) {
                None => Err(ReleaseError::AssetNotFound(AssetKind::Signature)),
                Some(g) => match first_with_suffix(raw.assets@, settings.binary_suffix@, 0) {
                    None => Err(ReleaseError::AssetNotFound(AssetKind::Binary)),
                    Some(b) => Ok(
                        ResolutionView {
                            version: t,
                            pub_date: opt_text(raw.published_at),
                            url: raw.assets@[b].url@,
                            signature_url: raw.assets@[g].url@,
                            notes: text_or_empty(raw.body),
                        },
                    ),
                },
            }
        },
    }
}

/// The release that a plan and a downloaded signature make.
pub open spec fn release_of(plan: ResolutionView, signature: Seq<char>) -> ReleaseView {
    ReleaseView {
        version: plan.version,
        pub_date: plan.pub_date,
        url: plan.url,
        signature,
        notes: plan.notes,
    }
}

pub fn starts_with(text: &str, prefix: &str) -> (r: bool)
    ensures
        r == has_prefix(text@, prefix@),
{
    let n = text.unicode_len();
    let m = prefix.unicode_len();
    if m > n {
        return false;
    }
    let mut i: usize = 0;
    while i < m
        invariant
            n == text@.len(),
            m == prefix@.len(),
            m <= n,
            i <= m,
            forall|j: int| 0 <= j < i ==> text@[j] == prefix@[j],
        decreases m - i,
    {
        if text.get_char(i) != prefix.get_char(i) {
            assert(text@.subrange(0, m as int)[i as int] != prefix@[i as int]);
            return false;
        }
        i += 1;
    }
    assert(text@.subrange(0, m as int) =~= prefix@);
    true
}

pub fn ends_with(text: &str, suffix: &str) -> (r: bool)
    ensures
        r == has_suffix(text@, suffix@),
{
    let n = text.unicode_len();
    let m = suffix.unicode_len();
    if m > n {
        return false;
    }
    let off = n - m;
    let mut i: usize = 0;
    while i < m
        invariant
            n == text@.len(),
            m == suffix@.len(),
            m <= n,
            off == n - m,
            i <= m,
            forall|j: int| 0 <= j < i ==> text@[off + j] == suffix@[j],
        decreases m - i,
    {
        if text.get_char(off + i) != suffix.get_char(i) {
            assert(text@.subrange(off as int, n as int)[i as int] != suffix@[i as int]);
            return false;
        }
        i += 1;
    }
    assert(text@.subrange(off as int, n as int) =~= suffix@);
    true
}

/// Takes the prefix off a tag.
pub fn strip_tag<'a>(tag: &'a str, prefix: &str) -> (r: Option<&'a str>)
    ensures
        match r {
            Some(t) => tag_text(tag@, prefix@) == Some(t@),
            None => tag_text(tag@, prefix@) is None,
        },
{
    if starts_with(tag, prefix) {
        let n = tag.unicode_len();
        let m = prefix.unicode_len();
        Some(tag.substring_char(m, n))
    } else {
        None
    }
}

/// The version that a tag names: `MalformedTag` where the tag lacks the
/// prefix or what follows it is no semantic version.
pub fn tag_version(tag: &str, prefix: &str) -> (r: Result<Version, ReleaseError>)
    ensures
        match r {
            Ok(v) => tag_parts(tag@, prefix@) == Some(v.parts()) && v.is_valid(),
            Err(e) => tag_parts(tag@, prefix@) is None && e == ReleaseError::MalformedTag,
        },
{
    match strip_tag(tag, prefix) {
        Some(t) => Version::parse(t),
        None => Err(ReleaseError::MalformedTag),
    }
}

/// Finds the first asset whose name ends with `suffix`.
pub fn find_asset(assets: &Vec<Asset>, suffix: &str) -> (r: Option<usize>)
    ensures
        match r {
            Some(i) => first_with_suffix(assets@, suffix@, 0) == Some(i as int) && i
                < assets.len(),
            None => first_with_suffix(assets@, suffix@, 0) is None,
        },
{
    let mut i: usize = 0;
    while i < assets.len()
        invariant
            i <= assets.len(),
            first_with_suffix(assets@, suffix@, 0) == first_with_suffix(assets@, suffix@, i as int),
        decreases assets.len() - i,
    {
        if ends_with(assets[i].name.as_str(), suffix) {
            return Some(i);
        }
        i += 1;
    }
    None
}

fn clone_opt(o: &Option<String>) -> (r: Option<String>)
    ensures
        r == *o,
{
    match o {
        Some(s) => Some(s.clone()),
        None => None,
    }
}

impl Resolution {
    /// Reads the version out of the tag and locates the two assets, in this
    /// order: a bad tag is reported before a missing signature, a missing
    /// signature before a missing binary.
    pub fn plan(raw: &RawRelease, settings: &Settings) -> (r: Result<Resolution, ReleaseError>)
        ensures
            match r {
                Ok(p) => plan_of(*raw, *settings) == Ok::<ResolutionView, ReleaseError>(p@),
                Err(e) => plan_of(*raw, *settings) == Err::<ResolutionView, ReleaseError>(e),
            },
    {
        let text = match strip_tag(raw.tag_name.as_str(), settings.tag_prefix.as_str()) {
            Some(t) => t,
            None => { return Err(ReleaseError::MalformedTag); },
        };
        match Version::parse(text) {
            Ok(_) => {},
            Err(e) => { return Err(e); },
        }
        let signature = match find_asset(&raw.assets, settings.signature_suffix.as_str()) {
            Some(i) => i,
            None => { return Err(ReleaseError::AssetNotFound(AssetKind::Signature)); },
        };
        let binary = match find_asset(&raw.assets, settings.binary_suffix.as_str()) {
            Some(i) => i,
            None => { return Err(ReleaseError::AssetNotFound(AssetKind::Binary)); },
        };
        let notes = match &raw.body {
            Some(b) => b.clone(),
            None => String::new(),
        };
        Ok(
            Resolution {
                version: text.to_owned(),
                pub_date: clone_opt(&raw.published_at),
                url: raw.assets[binary].url.clone(),
                signature_url: raw.assets[signature].url.clone(),
                notes,
            },
        )
    }
}

impl Release {
    /// Completes a plan with the outcome of the signature download: the text
    /// that came, or `None` where the download failed.
    pub fn from_release(plan: Resolution, fetched: Option<String>) -> (r: Result<
        Release,
        ReleaseError,
    >)
        ensures
            match (fetched, r) {
                (Some(s), Ok(rel)) => rel@ == release_of(plan@, s@),
                (None, Err(e)) => e == ReleaseError::SignatureFetchFailed,
                _ => false,
            },
    {
        match fetched {
            Some(signature) => Ok(
                Release {
                    version: plan.version,
                    pub_date: plan.pub_date,
                    url: plan.url,
                    signature,
                    notes: plan.notes,
                },
            ),
            None => Err(ReleaseError::SignatureFetchFailed),
        }
    }
}

/// A release that lacks one of the two assets is never resolved.
pub proof fn lemma_missing_asset_fails(raw: RawRelease, settings: Settings)
    requires
        tag_parts(raw.tag_name@, settings.tag_prefix@) is Some,
        first_with_suffix(raw.assets@, settings.binary_suffix@, 0) is None || first_with_suffix(
            raw.assets@,
            settings.signature_suffix@,
            0,
        ) is None,
    ensures
        plan_of(raw, settings) is Err,
        plan_of(raw, settings)->Err_0 is AssetNotFound,
{
}

} // verus!
