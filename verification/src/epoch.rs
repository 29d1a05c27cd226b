//! Crate version epochs: sets of crate versions whose left-most non-zero
//! version component agrees, named after that component.

use vstd::prelude::*;
use vstd::string::StringExecFns;
use crate::digits::{spec_dec_digits, spec_parse_u64, u64_to_dec_string, parse_u64_chars, IntParseError};
use crate::text::{chars_of, spec_split, split_chars};

verus! {

/// An `Epoch` represents a set of crate versions where no API breaking
/// changes are expected: all versions whose left-most non-zero
/// major/minor/patch component is the same.
#[derive(Clone, Copy, PartialEq, Eq, Structural, Debug)]
pub enum Epoch {
    /// Epoch when the major version is at least 1.
    Major(u64),
    /// Epoch when the major version is 0. The field is the minor version.
    Minor(u64),
    /// Epoch when major and minor version are 0. The field is the patch
    /// version.
    Patch(u64),
}

/// The way an epoch string can fail to parse.
#[derive(Clone, Copy, PartialEq, Eq, Structural, Debug)]
pub enum EpochParseError {
    /// An integer could not be parsed where expected.
    InvalidInt(IntParseError),
    /// The string was not formatted correctly. It was missing the 'v' prefix,
    /// was missing the '_' separator, or had a tail after the last integer.
    BadFormat,
    /// The epoch had an invalid combination of versions: e.g. "v0_0", "v1_0",
    /// "v1_1".
    BadVersion,
}

/// A `Major` or `Minor` epoch carries a non-zero component.
pub open spec fn spec_epoch_wf(e: Epoch) -> bool {
    match e {
        Epoch::Major(m) => m != 0,
        Epoch::Minor(m) => m != 0,
        Epoch::Patch(_) => true,
    }
}

/// The version string of an epoch: only its non-zero component is written,
/// preceded by the zero components.
pub open spec fn spec_version_string(e: Epoch) -> Seq<char> {
    match e {
        Epoch::Major(m) => spec_dec_digits(m as nat),
        Epoch::Minor(m) => "0."@ + spec_dec_digits(m as nat),
        Epoch::Patch(p) => "0.0."@ + spec_dec_digits(p as nat),
    }
}

/// The label of an epoch, as used in directory names: the components
/// joined by underscores, after a `v`.
pub open spec fn spec_epoch_label(e: Epoch) -> Seq<char> {
    match e {
        Epoch::Major(m) => "v"@ + spec_dec_digits(m as nat),
        Epoch::Minor(m) => "v0_"@ + spec_dec_digits(m as nat),
        Epoch::Patch(p) => "v0_0_"@ + spec_dec_digits(p as nat),
    }
}

/// The values of the parts, or the error of the first part that fails.
pub open spec fn spec_parse_parts(parts: Seq<Seq<char>>) -> Result<Seq<u64>, IntParseError>
    decreases parts.len(),
{
    if parts.len() == 0 {
        Ok(Seq::<u64>::empty())
    } else {
        match spec_parse_u64(parts[0]) {
            Err(e) => Err(e),
            Ok(v) => match spec_parse_parts(parts.skip(1)) {
                Err(e) => Err(e),
                Ok(vs) => Ok(seq![v] + vs),
            },
        }
    }
}

/// The epoch named by the part values, or the error their combination earns.
pub open spec fn spec_epoch_classify(vals: Seq<u64>) -> Result<Epoch, EpochParseError> {
    if vals.len() == 1 {
        if vals[0] != 0 {
            Ok(Epoch::Major(vals[0]))
        } else {
            Err(EpochParseError::BadVersion)
        }
    } else if vals.len() == 2 {
        if vals[0] == 0 && vals[1] != 0 {
            Ok(Epoch::Minor(vals[1]))
        } else {
            Err(EpochParseError::BadVersion)
        }
    } else if vals.len() == 3 {
        if vals[0] == 0 && vals[1] == 0 {
            Ok(Epoch::Patch(vals[2]))
        } else {
            Err(EpochParseError::BadVersion)
        }
    } else {
        Err(EpochParseError::BadFormat)
    }
}

/// The result of parsing an epoch label such as `v1`, `v0_3` or `v0_0_5`.
pub open spec fn spec_epoch_from_str(s: Seq<char>) -> Result<Epoch, EpochParseError> {
    if s.len() == 0 || s[0] != 'v' {
        Err(EpochParseError::BadFormat)
    } else {
        match spec_parse_parts(spec_split(s.skip(1), '_')) {
            Err(e) => Err(EpochParseError::InvalidInt(e)),
            Ok(vals) => spec_epoch_classify(vals),
        }
    }
}

impl Epoch {
    /// Get the semver version string for this Epoch. This will only have a
    /// non-zero major component, or a zero major component and a non-zero
    /// minor component, or a zero major+minor components and a non-zero
    /// patch component. Note this differs from the label written by
    /// `to_string`.
    pub fn to_version_string(&self) -> (r: String)
        ensures
            r@ == spec_version_string(*self),
    {
        match *self {
            Epoch::Major(major) => u64_to_dec_string(major),
            Epoch::Minor(minor) => {
                let mut s = String::new();
                s.append("0.");
                let d = u64_to_dec_string(minor);
                s.append(d.as_str());
                proof {
                    assert(s@ =~= "0."@ + spec_dec_digits(minor as nat));
                }
                s
            },
            Epoch::Patch(patch) => {
                let mut s = String::new();
                s.append("0.0.");
                let d = u64_to_dec_string(patch);
                s.append(d.as_str());
                proof {
                    assert(s@ =~= "0.0."@ + spec_dec_digits(patch as nat));
                }
                s
            },
        }
    }

    /// The label of this epoch, as used in directory names: `v1`, `v0_3`,
    /// `v0_0_5`.
    pub fn to_string(&self) -> (r: String)
        ensures
            r@ == spec_epoch_label(*self),
    {
        match *self {
            Epoch::Major(major) => {
                let mut s = String::new();
                s.append("v");
                let d = u64_to_dec_string(major);
                s.append(d.as_str());
                proof {
                    assert(s@ =~= "v"@ + spec_dec_digits(major as nat));
                }
                s
            },
            Epoch::Minor(minor) => {
                let mut s = String::new();
                s.append("v0_");
                let d = u64_to_dec_string(minor);
                s.append(d.as_str());
                proof {
                    assert(s@ =~= "v0_"@ + spec_dec_digits(minor as nat));
                }
                s
            },
            Epoch::Patch(patch) => {
                let mut s = String::new();
                s.append("v0_0_");
                let d = u64_to_dec_string(patch);
                s.append(d.as_str());
                proof {
                    assert(s@ =~= "v0_0_"@ + spec_dec_digits(patch as nat));
                }
                s
            },
        }
    }

    /// A valid input string is of the form:
    /// * "v{i}", where i >= 1, or
    /// * "v0_{i}", where i >= 1
    /// * "v0_0_{i}", where i >= 0
    ///
    /// Any other string is invalid. If the "v" is missing, there are extra
    /// underscore-separated components, or there are two numbers but both
    /// are 0 or greater than zero are all invalid strings.
    pub fn from_str(s: &str) -> (r: Result<Epoch, EpochParseError>)
        ensures
            r == spec_epoch_from_str(s@),
            r matches Ok(e) ==> spec_epoch_wf(e),
    {
        let pv = chars_of(s);
        if pv.len() == 0 {
            return Err(EpochParseError::BadFormat);
        }
        if pv[0] != 'v' {
            return Err(EpochParseError::BadFormat);
        }
        let ghost sparts = spec_split(pv@.skip(1), '_');
        let parts = split_chars(&pv, 1, '_');
        let n = parts.len();
        let mut vals: Vec<u64> = Vec::new();
        let mut i: usize = 0;
        proof {
            assert(sparts.skip(0) =~= sparts);
            assert(vals@ + spec_parse_parts(sparts)->Ok_0 =~= spec_parse_parts(sparts)->Ok_0);
        }
        while i < n
            invariant
                i <= n,
                pv@ == s@,
                pv@.len() > 0,
                pv@[0] == 'v',
                sparts == spec_split(pv@.skip(1), '_'),
                n == sparts.len(),
                parts@.len() == n,
                forall|j: int| 0 <= j < n ==> parts@[j]@ == #[trigger] sparts[j],
                vals@.len() == i,
                spec_parse_parts(sparts) == (match spec_parse_parts(sparts.skip(i as int)) {
                    Ok(vs) => Ok::<Seq<u64>, IntParseError>(vals@ + vs),
                    Err(e) => Err::<Seq<u64>, IntParseError>(e),
                }),
            decreases n - i,
        {
            let ghost tail = sparts.skip(i as int);
            proof {
                assert(tail[0] == sparts[i as int]);
                assert(tail.skip(1) =~= sparts.skip(i as int + 1));
            }
            let part = &parts[i];
            proof {
                assert(part@.skip(0) =~= part@);
            }
            let ghost valsold = vals@;
            match parse_u64_chars(part, 0) {
                Err(e) => {
                    proof {
                        assert(spec_parse_u64(tail[0]) == Err::<u64, IntParseError>(e));
                        assert(spec_parse_parts(tail) == Err::<Seq<u64>, IntParseError>(e));
                        assert(spec_parse_parts(sparts) == Err::<Seq<u64>, IntParseError>(e));
                        assert(s@ == pv@);
                        assert(s@.skip(1) == pv@.skip(1));
                        assert(spec_split(s@.skip(1), '_') == sparts);
                        assert(s@.len() > 0 && s@[0] == 'v');
                        assert(spec_epoch_from_str(s@) == Err::<Epoch, EpochParseError>(
                            EpochParseError::InvalidInt(e),
                        ));
                    }
                    return Err(EpochParseError::InvalidInt(e));
                },
                Ok(v) => {
                    vals.push(v);
                    proof {
                        if spec_parse_parts(sparts.skip(i as int + 1)) is Ok {
                            let vs = spec_parse_parts(sparts.skip(i as int + 1))->Ok_0;
                            assert(valsold + (seq![v] + vs) =~= (valsold + seq![v]) + vs);
                            assert(valsold + seq![v] =~= vals@);
                        }
                    }
                },
            }
            i = i + 1;
        }
        proof {
            assert(sparts.skip(n as int) =~= Seq::<Seq<char>>::empty());
            assert(vals@ + Seq::<u64>::empty() =~= vals@);
            assert(spec_parse_parts(sparts) == Ok::<Seq<u64>, IntParseError>(vals@));
        }
        if vals.len() == 1 {
            let v0 = vals[0];
            if v0 != 0 {
                Ok(Epoch::Major(v0))
            } else {
                Err(EpochParseError::BadVersion)
            }
        } else if vals.len() == 2 {
            let v0 = vals[0];
            let v1 = vals[1];
            if v0 == 0 && v1 != 0 {
                Ok(Epoch::Minor(v1))
            } else {
                Err(EpochParseError::BadVersion)
            }
        } else if vals.len() == 3 {
            let v0 = vals[0];
            let v1 = vals[1];
            if v0 == 0 && v1 == 0 {
                Ok(Epoch::Patch(vals[2]))
            } else {
                Err(EpochParseError::BadVersion)
            }
        } else {
            Err(EpochParseError::BadFormat)
        }
    }
}

#[verifier::external_type_specification]
#[verifier::external_body]
pub struct ExVersion(semver::Version);

#[verifier::external_type_specification]
#[verifier::external_body]
pub struct ExVersionReq(semver::VersionReq);

#[verifier::external_type_specification]
#[verifier::external_body]
pub struct ExOp(semver::Op);

/// Relies on the derived `Clone` of `semver::Version`: a clone is an
/// equal value.
pub assume_specification[ <semver::Version as Clone>::clone ](v: &semver::Version) -> (r:
    semver::Version)
    ensures
        r == *v,
;

/// The major, minor and patch components held by a `semver::Version`.
pub uninterp spec fn spec_version_parts(v: semver::Version) -> (u64, u64, u64);

/// Relies on the public `major`, `minor` and `patch` fields of
/// `semver::Version`: the wrapper only reads them out.
#[verifier::external_body]
fn version_triple(v: &semver::Version) -> (r: (u64, u64, u64))
    ensures
        r == spec_version_parts(*v),
{
    (v.major, v.minor, v.patch)
}

/// A comparison operator of a version requirement, as `semver` knows them.
#[derive(Clone, Copy, PartialEq, Eq, Structural, Debug)]
pub enum ReqOp {
    Exact,
    Greater,
    GreaterEq,
    Less,
    LessEq,
    Tilde,
    Caret,
    Wildcard,
    /// An operator this library does not know by name.
    Unknown,
}

/// One comparator of a version requirement: an operator and a partial
/// version.
#[derive(Clone, Copy, PartialEq, Eq, Structural, Debug)]
pub struct ReqComparator {
    pub op: ReqOp,
    pub major: u64,
    pub minor: Option<u64>,
    pub patch: Option<u64>,
}

/// Relies on matching the variants of `semver::Op`, one arm each.
#[verifier::external_body]
fn req_op_of(op: &semver::Op) -> ReqOp {
    match op {
        semver::Op::Exact => ReqOp::Exact,
        semver::Op::Greater => ReqOp::Greater,
        semver::Op::GreaterEq => ReqOp::GreaterEq,
        semver::Op::Less => ReqOp::Less,
        semver::Op::LessEq => ReqOp::LessEq,
        semver::Op::Tilde => ReqOp::Tilde,
        semver::Op::Caret => ReqOp::Caret,
        semver::Op::Wildcard => ReqOp::Wildcard,
        _ => ReqOp::Unknown,
    }
}

/// The comparators of the version requirement named by a string, or
/// `None` where the string does not parse as one.
pub uninterp spec fn spec_version_req_comparators(s: Seq<char>) -> Option<Seq<ReqComparator>>;

/// Relies on `semver::VersionReq::parse`: `Ok` exactly for well-formed
/// requirement strings, whose comparators the wrapper copies out; the
/// result is a function of the string alone.
#[verifier::external_body]
fn parse_version_req(s: &str) -> (r: Option<Vec<ReqComparator>>)
    ensures
        r matches Some(v) ==> spec_version_req_comparators(s@) == Some(v@),
        r is None ==> spec_version_req_comparators(s@) is None,
{
    match semver::VersionReq::parse(s) {
        Err(_) => None,
        Ok(req) => {
            let mut out: Vec<ReqComparator> = Vec::new();
            for c in &req.comparators {
                out.push(
                    ReqComparator { op: req_op_of(&c.op), major: c.major, minor: c.minor, patch: c.patch },
                );
            }
            Some(out)
        },
    }
}

/// Relies on constructing a `semver::VersionReq` of one caret comparator
/// from the given components; nothing is read back from it.
#[verifier::external_body]
fn caret_version_req(major: u64, minor: Option<u64>, patch: Option<u64>) -> semver::VersionReq {
    semver::VersionReq {
        comparators: vec![
            semver::Comparator {
                op: semver::Op::Caret,
                major,
                minor,
                patch,
                pre: semver::Prerelease::EMPTY,
            },
        ],
    }
}

/// The epoch of a version: named by its left-most non-zero component.
pub open spec fn spec_epoch_of_triple(major: u64, minor: u64, patch: u64) -> Epoch {
    if major != 0 {
        Epoch::Major(major)
    } else if minor != 0 {
        Epoch::Minor(minor)
    } else {
        Epoch::Patch(patch)
    }
}

/// The epoch requested by a list of comparators, provided it is a single
/// caret comparator whose leading components name an epoch.
pub open spec fn spec_epoch_of_comparators(comps: Seq<ReqComparator>) -> Option<Epoch> {
    if comps.len() != 1 {
        None
    } else {
        let c = comps[0];
        if c.op != ReqOp::Caret {
            None
        } else if c.major != 0 {
            Some(Epoch::Major(c.major))
        } else {
            match c.minor {
                None => None,
                Some(mi) => if mi != 0 {
                    Some(Epoch::Minor(mi))
                } else {
                    match c.patch {
                        Some(p) => Some(Epoch::Patch(p)),
                        None => None,
                    }
                },
            }
        }
    }
}

/// The epoch requested by the comparators of a version requirement, or
/// `None` where they do not name one: anything but a single caret
/// comparator with a major version, or zeros followed by a minor or
/// patch version.
pub fn epoch_from_comparators(comps: &Vec<ReqComparator>) -> (r: Option<Epoch>)
    ensures
        r == spec_epoch_of_comparators(comps@),
        r matches Some(e) ==> spec_epoch_wf(e),
{
    if comps.len() != 1 {
        return None;
    }
    let c = comps[0];
    if !matches!(c.op, ReqOp::Caret) {
        return None;
    }
    if c.major != 0 {
        return Some(Epoch::Major(c.major));
    }
    match c.minor {
        None => None,
        Some(mi) => {
            if mi != 0 {
                Some(Epoch::Minor(mi))
            } else {
                match c.patch {
                    Some(p) => Some(Epoch::Patch(p)),
                    None => None,
                }
            }
        },
    }
}

impl Epoch {
    /// A `semver::VersionReq` that matches any version of this epoch,
    /// built from the components that `caret_parts` names.
    pub fn to_version_req(&self) -> semver::VersionReq {
        let (major, minor, patch) = self.caret_parts();
        caret_version_req(major, minor, patch)
    }

    /// The components of the caret comparator that describes this epoch:
    /// the non-zero component, preceded by the zero ones.
    pub fn caret_parts(&self) -> (r: (u64, Option<u64>, Option<u64>))
        ensures
            ({
                let (ma, mi, pa) = r;
                match *self {
                    Epoch::Major(x) => ma == x && mi is None && pa is None,
                    Epoch::Minor(x) => ma == 0 && mi == Some(x) && pa is None,
                    Epoch::Patch(x) => ma == 0 && mi == Some(0u64) && pa == Some(x),
                }
            }),
    {
        match *self {
            Epoch::Major(x) => (x, None, None),
            Epoch::Minor(x) => (0, Some(x), None),
            Epoch::Patch(x) => (0, Some(0), Some(x)),
        }
    }

    /// Compute the Epoch from a `semver::Version`: the epoch of its
    /// left-most non-zero component.
    pub fn from_version(version: &semver::Version) -> (r: Epoch)
        ensures
            ({
                let (ma, mi, pa) = spec_version_parts(*version);
                r == spec_epoch_of_triple(ma, mi, pa)
            }),
            spec_epoch_wf(r),
    {
        let (major, minor, patch) = version_triple(version);
        if major != 0 {
            Epoch::Major(major)
        } else if minor != 0 {
            Epoch::Minor(minor)
        } else {
            Epoch::Patch(patch)
        }
    }

    /// Get the requested epoch from a supported dependency version string.
    /// `req` must parse as a version requirement of exactly one caret
    /// comparator naming an epoch; `try_from_version_req_str` checks that
    /// first and is total.
    pub fn from_version_req_str(req: &str) -> (r: Epoch)
        requires
            spec_version_req_comparators(req@) matches Some(cs) && spec_epoch_of_comparators(cs)
                is Some,
        ensures
            Some(r) == spec_epoch_of_comparators(spec_version_req_comparators(req@)->Some_0),
            spec_epoch_wf(r),
    {
        let comps = parse_version_req(req);
        match comps {
            Some(cv) => {
                match epoch_from_comparators(&cv) {
                    Some(e) => e,
                    None => {
                        proof {
                            assert(false);
                        }
                        Epoch::Patch(0)
                    },
                }
            },
            None => {
                proof {
                    assert(false);
                }
                Epoch::Patch(0)
            },
        }
    }

    /// Get the requested epoch from a dependency version string, or `None`
    /// where the string is not a version requirement of exactly one caret
    /// comparator naming an epoch.
    pub fn try_from_version_req_str(req: &str) -> (r: Option<Epoch>)
        ensures
            match spec_version_req_comparators(req@) {
                Some(cs) => r == spec_epoch_of_comparators(cs),
                None => r is None,
            },
            r matches Some(e) ==> spec_epoch_wf(e),
    {
        match parse_version_req(req) {
            None => None,
            Some(cv) => {
                match epoch_from_comparators(&cv) {
                    None => None,
                    Some(_) => Some(Self::from_version_req_str(req)),
                }
            },
        }
    }
}

} // verus!
