//! Parsing of exported report documents and extraction of patch advisories
//! from finding narratives.

use vstd::prelude::*;

pub mod advice;
pub mod document;
pub mod policy;
pub mod report;
pub mod xml;

verus! {

/// A parsed report document: scan results and the scan configuration.
#[derive(Debug, Clone)]
pub struct NessusClientDatav2 {
    pub report: report::Report,
    pub policy: policy::Policy,
}

/// Mathematical image of a parsed document.
pub struct NessusClientDatav2V {
    pub report: report::ReportV,
    pub policy: policy::PolicyV,
}

impl View for NessusClientDatav2 {
    type V = NessusClientDatav2V;

    open spec fn view(&self) -> NessusClientDatav2V {
        NessusClientDatav2V { report: self.report@, policy: self.policy@ }
    }
}

/// A set of errors that can occur while decoding a document or building
/// advisories from it.
#[derive(Debug, Clone, PartialEq)]
pub enum Error {
    /// The document is not well formed under the supported markup subset;
    /// carries the position where decoding failed — a character offset
    /// when the text could not be lexed, the index of a markup token
    /// when the lexed document has the wrong structure.
    Markup(usize),
    /// A required field of the document is missing; carries the canonical
    /// field name.
    MissingField(String),
    /// A numeric document field does not hold an unsigned number; carries
    /// the offending text.
    Number(String),
    /// A finding's severity text could not be coerced to a number at the
    /// point of advisory construction; carries the offending text.
    Severity(String),
}

/// A derived advisory: the version found installed, the version that
/// fixes the finding, and the owning finding's severity.
#[derive(Debug, Clone, PartialEq)]
pub struct PatchAdvice {
    pub old_version: String,
    pub new_version: String,
    pub severity: u64,
}

/// Mathematical image of a `PatchAdvice`.
pub struct PatchAdviceV {
    pub old_version: Seq<char>,
    pub new_version: Seq<char>,
    pub severity: u64,
}

impl View for PatchAdvice {
    type V = PatchAdviceV;

    open spec fn view(&self) -> PatchAdviceV {
        PatchAdviceV {
            old_version: self.old_version@,
            new_version: self.new_version@,
            severity: self.severity,
        }
    }
}

impl PatchAdvice {
    /// Builds an advisory from its parts.
    pub fn new(old_version: &str, new_version: &str, severity: u64) -> (r: PatchAdvice)
        ensures
            r@.old_version == old_version@,
            r@.new_version == new_version@,
            r@.severity == severity,
    {
        PatchAdvice {
            old_version: old_version.to_owned(),
            new_version: new_version.to_owned(),
            severity,
        }
    }
}

/// What parsing a raw document yields: the lexed token stream decoded
/// into the report model, or the failure that stopped it.
pub open spec fn spec_parse(s: Seq<char>) -> Result<NessusClientDatav2V, document::FailureV> {
    match xml::spec_tokens(s) {
        None => Err(document::FailureV::Markup),
        Some(toks) => document::document_of(toks),
    }
}

/// Parses a report document: an all-or-nothing decode of the whole
/// buffer into the report model.
pub fn parse(buffer: &str) -> (r: Result<NessusClientDatav2, Error>)
    ensures
        match spec_parse(buffer@) {
            Ok(m) => r matches Ok(d) && d@ == m,
            Err(f) => r matches Err(e) && document::error_matches(e, f),
        },
{
    let cs = crate::text::chars_of(buffer);
    match xml::tokenize(&cs) {
        Err(p) => Err(Error::Markup(p)),
        Ok(toks) => document::build_document(&toks),
    }
}

/// The advisories that a list of recognized notices yields, each carrying
/// the owning finding's severity.
pub open spec fn advisories_of(ms: Seq<advice::VersionPairV>, severity: u64) -> Seq<PatchAdviceV> {
    ms.map_values(
        |m: advice::VersionPairV| PatchAdviceV {
            old_version: m.old,
            new_version: m.new,
            severity: severity,
        },
    )
}

/// What extracting advisories from one finding yields.
///
/// No narrative, or a narrative in which no pattern matches, yields no
/// advisories. Otherwise every match becomes one advisory carrying the
/// finding's severity, coerced from text to a number; a severity that is
/// not numeric fails the extraction and is reported as the error.
pub open spec fn item_advisories(it: report::ReportItemV) -> Result<Seq<PatchAdviceV>, Seq<char>> {
    match it.plugin_output {
        None => Ok(Seq::empty()),
        Some(out) => {
            let ms = advice::all_matches(out);
            if ms.len() == 0 {
                Ok(Seq::empty())
            } else {
                match crate::text::u64_of_text(it.severity) {
                    Some(severity) => Ok(advisories_of(ms, severity)),
                    None => Err(it.severity),
                }
            }
        },
    }
}

/// What extracting advisories from a host yields: the order-preserving
/// concatenation of its findings' advisories, in finding order, stopped
/// by the first finding whose severity fails coercion.
pub open spec fn host_advisories(items: Seq<report::ReportItemV>) -> Result<
    Seq<PatchAdviceV>,
    Seq<char>,
>
    decreases items.len(),
{
    if items.len() == 0 {
        Ok(Seq::empty())
    } else {
        match item_advisories(items[0]) {
            Err(t) => Err(t),
            Ok(a) => match host_advisories(items.drop_first()) {
                Err(t) => Err(t),
                Ok(rest) => Ok(a + rest),
            },
        }
    }
}

/// Advisory extraction distributes over concatenation of findings: when
/// two runs of findings each extract cleanly, the advisories of the two
/// runs joined are the first run's advisories followed by the second's.
pub proof fn lemma_host_advisories_concat(
    first: Seq<report::ReportItemV>,
    second: Seq<report::ReportItemV>,
)
    requires
        host_advisories(first) is Ok,
        host_advisories(second) is Ok,
    ensures
        host_advisories(first + second) == Ok::<_, Seq<char>>(
            host_advisories(first)->Ok_0 + host_advisories(second)->Ok_0,
        ),
    decreases first.len(),
{
    if first.len() == 0 {
        assert(first + second =~= second);
        assert(host_advisories(first)->Ok_0 + host_advisories(second)->Ok_0 =~= host_advisories(
            second,
        )->Ok_0);
    } else {
        let joined = first + second;
        assert(joined[0] == first[0]);
        assert(joined.drop_first() =~= first.drop_first() + second);
        lemma_host_advisories_concat(first.drop_first(), second);
        assert(host_advisories(first)->Ok_0 + host_advisories(second)->Ok_0 =~= item_advisories(
            first[0],
        )->Ok_0 + (host_advisories(first.drop_first())->Ok_0 + host_advisories(second)->Ok_0));
    }
}

impl report::ReportItem {
    /// Mines this finding's narrative for upgrade notices.
    ///
    /// Yields no result without a narrative or without a match; otherwise
    /// one advisory per match, across all patterns in table order, each
    /// carrying this finding's severity — or the coercion error when that
    /// severity is not numeric.
    pub fn patch_needed(&self) -> (r: Result<Option<Vec<PatchAdvice>>, Error>)
        ensures
            match item_advisories(self@) {
                Ok(advs) => {
                    if advs.len() == 0 {
                        r matches Ok(o) && o is None
                    } else {
                        r matches Ok(o) && (o matches Some(v) && v@.map_values(
                            |a: PatchAdvice| a@,
                        ) == advs)
                    }
                },
                Err(t) => r matches Err(e) && (e matches Error::Severity(tt) && tt@ == t),
            },
    {
        let pats = advice::advisory_patterns();
        match &self.plugin_output {
            None => Ok(None),
            Some(out) => {
                let cs = crate::text::chars_of(out.as_str());
                let mut found = advice::find_matches(&cs, &pats[0]);
                let mut more = advice::find_matches(&cs, &pats[1]);
                found.append(&mut more);
                let mut still_more = advice::find_matches(&cs, &pats[2]);
                found.append(&mut still_more);
                proof {
                    assert(found@.map_values(|p: advice::VersionPair| p@) =~= advice::all_matches(
                        out@,
                    ));
                }
                if found.len() == 0 {
                    Ok(None)
                } else {
                    match crate::text::parse_u64(self.severity.as_str()) {
                        None => Err(Error::Severity(self.severity.clone())),
                        Some(severity) => {
                            let mut advs: Vec<PatchAdvice> = Vec::new();
                            let mut k: usize = 0;
                            while k < found.len()
                                invariant
                                    0 <= k <= found@.len(),
                                    advs@.len() == k,
                                    forall|i: int|
                                        0 <= i < k ==> (#[trigger] advs@[i])@ == (PatchAdviceV {
                                            old_version: found@[i]@.old,
                                            new_version: found@[i]@.new,
                                            severity: severity,
                                        }),
                                decreases found@.len() - k,
                            {
                                let pair = &found[k];
                                advs.push(
                                    PatchAdvice {
                                        old_version: pair.old.clone(),
                                        new_version: pair.new.clone(),
                                        severity,
                                    },
                                );
                                k = k + 1;
                            }
                            proof {
                                let lhs = advs@.map_values(|a: PatchAdvice| a@);
                                let fvs = found@.map_values(|p: advice::VersionPair| p@);
                                let rhs = advisories_of(fvs, severity);
                                assert forall|i: int| 0 <= i < lhs.len() implies lhs[i] == rhs[i] by {
                                    assert(advs@[i]@ == (PatchAdviceV {
                                        old_version: found@[i]@.old,
                                        new_version: found@[i]@.new,
                                        severity: severity,
                                    }));
                                }
                                assert(lhs =~= rhs);
                            }
                            Ok(Some(advs))
                        },
                    }
                }
            },
        }
    }
}

impl report::ReportHost {
    /// Mines every finding of this host, in finding order, and joins the
    /// advisories; yields no result when nothing matched anywhere.
    ///
    /// A finding whose severity fails coercion stops the extraction with
    /// that error, exactly as [`ReportItem::patch_needed`] reports it.
    pub fn patch_needed(&self) -> (r: Result<Option<Vec<PatchAdvice>>, Error>)
        ensures
            match host_advisories(self@.report_items) {
                Ok(advs) => {
                    if advs.len() == 0 {
                        r matches Ok(o) && o is None
                    } else {
                        r matches Ok(o) && (o matches Some(v) && v@.map_values(
                            |a: PatchAdvice| a@,
                        ) == advs)
                    }
                },
                Err(t) => r matches Err(e) && (e matches Error::Severity(tt) && tt@ == t),
            },
    {
        let ghost all_items = self@.report_items;
        let mut advs: Vec<PatchAdvice> = Vec::new();
        let mut k: usize = 0;
        let n = self.report_items.len();
        proof {
            assert(all_items.skip(0) =~= all_items);
        }
        while k < n
            invariant
                0 <= k <= n,
                n == self.report_items@.len(),
                all_items == self@.report_items,
                all_items.len() == n,
                host_advisories(all_items) == (match host_advisories(all_items.skip(k as int)) {
                    Ok(rest) => Ok::<_, Seq<char>>(advs@.map_values(|a: PatchAdvice| a@) + rest),
                    Err(t) => Err::<Seq<PatchAdviceV>, _>(t),
                }),
            decreases n - k,
        {
            let ghost cur = advs@.map_values(|a: PatchAdvice| a@);
            proof {
                assert(all_items.skip(k as int)[0] == all_items[k as int]);
                assert(all_items.skip(k as int).drop_first() =~= all_items.skip(k + 1));
                assert(all_items[k as int] == self.report_items@[k as int]@);
            }
            match self.report_items[k].patch_needed() {
                Err(e) => {
                    return Err(e);
                },
                Ok(None) => {
                    proof {
                        let a = item_advisories(all_items[k as int])->Ok_0;
                        if host_advisories(all_items.skip(k + 1)) is Ok {
                            let rest = host_advisories(all_items.skip(k + 1))->Ok_0;
                            assert(a + rest =~= rest);
                        }
                    }
                },
                Ok(Some(mut found)) => {
                    let ghost fv = found@.map_values(|x: PatchAdvice| x@);
                    proof {
                        let a = item_advisories(all_items[k as int])->Ok_0;
                        assert(fv == a);
                        if host_advisories(all_items.skip(k + 1)) is Ok {
                            let rest = host_advisories(all_items.skip(k + 1))->Ok_0;
                            assert(cur + (a + rest) =~= (cur + a) + rest);
                        }
                    }
                    advs.append(&mut found);
                    proof {
                        assert(advs@.map_values(|a: PatchAdvice| a@) =~= cur + fv);
                    }
                },
            }
            k = k + 1;
        }
        proof {
            assert(all_items.skip(n as int) =~= Seq::<report::ReportItemV>::empty());
            assert(advs@.map_values(|a: PatchAdvice| a@) + Seq::<PatchAdviceV>::empty()
                =~= advs@.map_values(|a: PatchAdvice| a@));
        }
        if advs.len() == 0 {
            Ok(None)
        } else {
            Ok(Some(advs))
        }
    }
}

} // verus!
