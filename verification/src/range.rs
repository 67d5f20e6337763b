use crate::error::{CustomError, ReleaseError};
use crate::release::{
    plan_of, release_of, tag_parts, tag_version, RawRelease, Release, ReleaseView, Resolution,
    ResolutionView, Settings,
};
use crate::version::{parts_in_window, semver_parse, Version, VersionVisitor};
use vstd::prelude::*;

verus! {

/// The two bounds of a range query as they arrive: each may be missing.
#[derive(Debug, Clone, PartialEq, Eq, Hash)]
pub struct DescriptionsQuery {
    pub start: Option<Version>,
    pub end: Option<Version>,
}

impl Default for DescriptionsQuery {
    fn default() -> (r: Self)
        ensures
            r.start is None,
            r.end is None,
    {
        Self { start: None, end: None }
    }
}

impl DescriptionsQuery {
    /// Reads the two parameters of a request. A parameter that is missing
    /// stays missing; one that is present must be a semantic version.
    pub fn read(start: Option<&str>, end: Option<&str>) -> (r: Result<
        DescriptionsQuery,
        ReleaseError,
    >)
        ensures
            match r {
                Ok(q) => bound_reads(start, q.start) && bound_reads(end, q.end),
                Err(e) => e == ReleaseError::InvalidVersionParam && (bound_fails(start)
                    || bound_fails(end)),
            },
    {
        let s = match start {
            Some(t) => match VersionVisitor.visit_str(t) {
                Ok(v) => Some(v),
                Err(e) => { return Err(e); },
            },
            None => None,
        };
        let e = match end {
            Some(t) => match VersionVisitor.visit_str(t) {
                Ok(v) => Some(v),
                Err(e) => { return Err(e); },
            },
            None => None,
        };
        Ok(DescriptionsQuery { start: s, end: e })
    }

    /// The words that tell a client which bound is missing: the start, where
    /// it is missing, else the end.
    pub open spec fn missing_text(&self) -> Option<&'static str> {
        if self.start is None {
            Some("Bad Request: param start is required")
        } else if self.end is None {
            Some("Bad Request: param end is required")
        } else {
            None
        }
    }

    /// The complaint about a missing bound, if one is missing.
    pub fn missing(&self) -> (r: Option<CustomError>)
        ensures
            match (r, self.missing_text()) {
                (Some(e), Some(t)) => e.message@ == t@,
                (None, None) => true,
                _ => false,
            },
    {
        if self.start.is_none() {
            Some(CustomError::new("Bad Request: param start is required"))
        } else if self.end.is_none() {
            Some(CustomError::new("Bad Request: param end is required"))
        } else {
            None
        }
    }

    /// The window that the query asks for: both bounds must be there.
    pub fn bounds(&self) -> (r: Result<(&Version, &Version), ReleaseError>)
        ensures
            match r {
                Ok((s, e)) => self.start == Some(*s) && self.end == Some(*e),
                Err(e) => e == ReleaseError::InvalidVersionParam && (self.start is None
                    || self.end is None),
            },
    {
        match (&self.start, &self.end) {
            (Some(s), Some(e)) => Ok((s, e)),
            _ => Err(ReleaseError::InvalidVersionParam),
        }
    }
}

/// A parameter was read faithfully: missing stays missing, text became the
/// version that it names.
pub open spec fn bound_reads(text: Option<&str>, bound: Option<Version>) -> bool {
    match (text, bound) {
        (None, None) => true,
        (Some(t), Some(v)) => semver_parse(t@) == Some(v.parts()) && v.is_valid(),
        _ => false,
    }
}

/// A parameter is present and names no semantic version.
pub open spec fn bound_fails(text: Option<&str>) -> bool {
    text matches Some(t) && semver_parse(t@) is None
}

/// What the range query makes of one listed release.
pub enum Verdict<P> {
    /// Its version lies outside the window.
    Skip,
    /// It lies inside, and this is its plan.
    Take(P),
    /// Its tag is malformed, or it lies inside and lacks an asset.
    Fail(ReleaseError),
}

pub open spec fn verdict_of(raw: RawRelease, settings: Settings, start: Version, end: Version)
    -> Verdict<ResolutionView> {
    match tag_parts(raw.tag_name@, settings.tag_prefix@) {
        None => Verdict::Fail(ReleaseError::MalformedTag),
        Some(p) => if !parts_in_window(p, start, end) {
            Verdict::Skip
        } else {
            match plan_of(raw, settings) {
                Ok(plan) => Verdict::Take(plan),
                Err(e) => Verdict::Fail(e),
            }
        },
    }
}

pub open spec fn verdict_view(v: Verdict<Resolution>) -> Verdict<ResolutionView> {
    match v {
        Verdict::Skip => Verdict::Skip,
        Verdict::Take(p) => Verdict::Take(p@),
        Verdict::Fail(e) => Verdict::Fail(e),
    }
}

/// Judges one listed release against the window.
pub fn judge(raw: &RawRelease, settings: &Settings, start: &Version, end: &Version) -> (r: Verdict<
    Resolution,
>)
    ensures
        verdict_view(r) == verdict_of(*raw, *settings, *start, *end),
{
    match tag_version(raw.tag_name.as_str(), settings.tag_prefix.as_str()) {
        Err(e) => Verdict::Fail(e),
        Ok(v) => {
            if v.within(start, end) {
                match Resolution::plan(raw, settings) {
                    Ok(plan) => Verdict::Take(plan),
                    Err(e) => Verdict::Fail(e),
                }
            } else {
                Verdict::Skip
            }
        },
    }
}

/// The next thing a range query has to do.
pub enum Step {
    /// Download the signature of the release at `index`, then go on behind it.
    Fetch { index: usize, plan: Resolution },
    /// No release is left: the query is complete.
    Done,
    /// The query fails as a whole.
    Failed(ReleaseError),
}

pub enum StepView {
    Fetch { index: int, plan: ResolutionView },
    Done,
    Failed(ReleaseError),
}

pub open spec fn step_view(s: Step) -> StepView {
    match s {
        Step::Fetch { index, plan } => StepView::Fetch { index: index as int, plan: plan@ },
        Step::Done => StepView::Done,
        Step::Failed(e) => StepView::Failed(e),
    }
}

/// Walks the listing from `from` on: the first release that is not skipped
/// decides.
pub open spec fn scan(
    releases: Seq<RawRelease>,
    settings: Settings,
    start: Version,
    end: Version,
    from: int,
) -> StepView
    decreases releases.len() - from,
{
    if from < 0 || from >= releases.len() {
        StepView::Done
    } else {
        match verdict_of(releases[from], settings, start, end) {
            Verdict::Skip => scan(releases, settings, start, end, from + 1),
            Verdict::Take(plan) => StepView::Fetch { index: from, plan },
            Verdict::Fail(e) => StepView::Failed(e),
        }
    }
}

/// Finds what the query has to do next, having dealt with every release
/// before `from`.
pub fn next_step(
    releases: &Vec<RawRelease>,
    settings: &Settings,
    start: &Version,
    end: &Version,
    from: usize,
) -> (r: Step)
    ensures
        step_view(r) == scan(releases@, *settings, *start, *end, from as int),
{
    let mut i: usize = from;
    while i < releases.len()
        invariant
            from <= i,
            scan(releases@, *settings, *start, *end, from as int) == scan(
                releases@,
                *settings,
                *start,
                *end,
                i as int,
            ),
        decreases releases.len() - i,
    {
        match judge(&releases[i], settings, start, end) {
            Verdict::Skip => {},
            Verdict::Take(plan) => { return Step::Fetch { index: i, plan }; },
            Verdict::Fail(e) => { return Step::Failed(e); },
        }
        i += 1;
    }
    Step::Done
}

/// The outcome of the download for the release at `index`: a download that
/// was not made counts as failed.
pub open spec fn signature_at(signatures: Seq<Option<String>>, index: int) -> Option<Seq<char>> {
    if 0 <= index < signatures.len() {
        match signatures[index] {
            Some(s) => Some(s@),
            None => None,
        }
    } else {
        None
    }
}

/// The result of the whole query from `from` on, given the outcome of every
/// download: the releases inside the window in listing order, or the first
/// failure in listing order.
pub open spec fn range_result(
    releases: Seq<RawRelease>,
    settings: Settings,
    start: Version,
    end: Version,
    signatures: Seq<Option<String>>,
    from: int,
) -> Result<Seq<ReleaseView>, ReleaseError>
    decreases releases.len() - from,
{
    if from < 0 || from >= releases.len() {
        Ok(Seq::empty())
    } else {
        match verdict_of(releases[from], settings, start, end) {
            Verdict::Skip => range_result(releases, settings, start, end, signatures, from + 1),
            Verdict::Fail(e) => Err(e),
            Verdict::Take(plan) => match signature_at(signatures, from) {
                None => Err(ReleaseError::SignatureFetchFailed),
                Some(s) => match range_result(
                    releases,
                    settings,
                    start,
                    end,
                    signatures,
                    from + 1,
                ) {
                    Ok(rest) => Ok(seq![release_of(plan, s)] + rest),
                    Err(e) => Err(e),
                },
            },
        }
    }
}

pub open spec fn release_views(v: Seq<Release>) -> Seq<ReleaseView> {
    v.map_values(|r: Release| r@)
}

/// What is still to come, put behind what is already there.
pub open spec fn joined(done: Seq<ReleaseView>, rest: Result<Seq<ReleaseView>, ReleaseError>)
    -> Result<Seq<ReleaseView>, ReleaseError> {
    match rest {
        Ok(more) => Ok(done + more),
        Err(e) => Err(e),
    }
}

/// Answers a range query over one listing, where `signatures[i]` is what the
/// download for release `i` gave.
pub fn list_in_range(
    releases: &Vec<RawRelease>,
    settings: &Settings,
    start: &Version,
    end: &Version,
    signatures: &Vec<Option<String>>,
) -> (r: Result<Vec<Release>, ReleaseError>)
    ensures
        match r {
            Ok(v) => range_result(releases@, *settings, *start, *end, signatures@, 0) == Ok::<
                Seq<ReleaseView>,
                ReleaseError,
            >(release_views(v@)),
            Err(e) => range_result(releases@, *settings, *start, *end, signatures@, 0) == Err::<
                Seq<ReleaseView>,
                ReleaseError,
            >(e),
        },
{
    let mut out: Vec<Release> = Vec::new();
    let mut from: usize = 0;
    assert(release_views(out@) + Seq::<ReleaseView>::empty() =~= Seq::<ReleaseView>::empty());
    loop
        invariant
            from <= releases.len(),
            range_result(releases@, *settings, *start, *end, signatures@, 0) == joined(
                release_views(out@),
                range_result(releases@, *settings, *start, *end, signatures@, from as int),
            ),
        decreases releases.len() - from,
    {
        if from >= releases.len() {
            assert(release_views(out@) + Seq::<ReleaseView>::empty() =~= release_views(out@));
            return Ok(out);
        }
        match judge(&releases[from], settings, start, end) {
            Verdict::Skip => {},
            Verdict::Fail(e) => { return Err(e); },
            Verdict::Take(plan) => {
                let fetched = if from < signatures.len() {
                    match &signatures[from] {
                        Some(s) => Some(s.clone()),
                        None => None,
                    }
                } else {
                    None
                };
                let ghost before = release_views(out@);
                let ghost sig = signature_at(signatures@, from as int);
                match Release::from_release(plan, fetched) {
                    Err(e) => { return Err(e); },
                    Ok(release) => {
                        out.push(release);
                        proof {
                            let one = release_of(plan@, sig->Some_0);
                            assert(release_views(out@) =~= before + seq![one]);
                            let rest = range_result(
                                releases@,
                                *settings,
                                *start,
                                *end,
                                signatures@,
                                from + 1,
                            );
                            if rest is Ok {
                                assert((before + seq![one]) + rest->Ok_0 =~= before + (seq![one]
                                    + rest->Ok_0));
                            }
                        }
                    },
                }
            },
        }
        from += 1;
    }
}

/// Walking the listing step by step gives the result of the whole query: no
/// step left means nothing more is found, a failed step fails the query, and
/// a download decides between failure and one more release in front of what
/// the walk finds behind it.
pub proof fn lemma_steps_give_result(
    releases: Seq<RawRelease>,
    settings: Settings,
    start: Version,
    end: Version,
    signatures: Seq<Option<String>>,
    from: int,
)
    requires
        0 <= from,
    ensures
        range_result(releases, settings, start, end, signatures, from) == match scan(
            releases,
            settings,
            start,
            end,
            from,
        ) {
            StepView::Done => Ok(Seq::empty()),
            StepView::Failed(e) => Err(e),
            StepView::Fetch { index, plan } => match signature_at(signatures, index) {
                None => Err(ReleaseError::SignatureFetchFailed),
                Some(s) => joined(
                    seq![release_of(plan, s)],
                    range_result(releases, settings, start, end, signatures, index + 1),
                ),
            },
        },
    decreases releases.len() - from,
{
    if from < releases.len() {
        if verdict_of(releases[from], settings, start, end) is Skip {
            lemma_steps_give_result(releases, settings, start, end, signatures, from + 1);
        }
    }
}

/// A window whose two ends are the same version takes only releases whose
/// three numbers are those of that version.
pub proof fn lemma_point_query(raw: RawRelease, settings: Settings, bound: Version)
    requires
        verdict_of(raw, settings, bound, bound) is Take,
    ensures
        tag_parts(raw.tag_name@, settings.tag_prefix@) matches Some(p) && p.0 == bound.major && p.1
            == bound.minor && p.2 == bound.patch,
{
}

/// A listing in which no release lies inside the window and every tag is
/// well formed gives the empty sequence.
pub proof fn lemma_nothing_in_window(
    releases: Seq<RawRelease>,
    settings: Settings,
    start: Version,
    end: Version,
    signatures: Seq<Option<String>>,
    from: int,
)
    requires
        0 <= from,
        forall|i: int|
            from <= i < releases.len() ==> verdict_of(
                #[trigger] releases[i],
                settings,
                start,
                end,
            ) is Skip,
    ensures
        range_result(releases, settings, start, end, signatures, from) == Ok::<
            Seq<ReleaseView>,
            ReleaseError,
        >(Seq::empty()),
    decreases releases.len() - from,
{
    if from < releases.len() {
        lemma_nothing_in_window(releases, settings, start, end, signatures, from + 1);
    }
}

/// A release inside the window that cannot be planned fails the whole query
/// with its own error, provided everything listed before it is skipped.
pub proof fn lemma_failure_fails_query(
    releases: Seq<RawRelease>,
    settings: Settings,
    start: Version,
    end: Version,
    signatures: Seq<Option<String>>,
    from: int,
    at: int,
)
    requires
        0 <= from <= at < releases.len(),
        verdict_of(releases[at], settings, start, end) is Fail,
        forall|i: int|
            from <= i < at ==> verdict_of(#[trigger] releases[i], settings, start, end) is Skip,
    ensures
        range_result(releases, settings, start, end, signatures, from) == Err::<
            Seq<ReleaseView>,
            ReleaseError,
        >(verdict_of(releases[at], settings, start, end)->Fail_0),
    decreases at - from,
{
    if from < at {
        lemma_failure_fails_query(releases, settings, start, end, signatures, from + 1, at);
    }
}

} // verus!
