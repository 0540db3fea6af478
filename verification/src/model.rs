//! The job model: typed parameters, the job itself, result and error
//! values, and parameter resolution. Every string of the model (ids,
//! paths, URLs, details) is carried as its UTF-8 bytes.
use vstd::prelude::*;

verus! {

/// Filesystem preconditions declared by a job: paths that must exist
/// before any fetch work starts. An absent or empty list is vacuously
/// satisfied.
#[derive(Debug, PartialEq, Eq)]
pub struct Requirement {
    pub paths: Option<Vec<Vec<u8>>>,
}

/// Spec-level image of a [`Requirement`].
pub struct RequirementV {
    pub paths: Option<Seq<Seq<u8>>>,
}

impl View for Requirement {
    type V = RequirementV;

    open spec fn view(&self) -> RequirementV {
        RequirementV {
            paths: match self.paths {
                Some(ps) => Some(ps.deep_view()),
                None => None,
            },
        }
    }
}

/// A typed, named input to a job. The variant set is closed: a message
/// naming any other kind of parameter is rejected as malformed.
#[derive(Debug, PartialEq, Eq)]
pub enum Parameter {
    /// A single string value, e.g. a URL or a filesystem path.
    StringParam { id: Vec<u8>, default: Option<Vec<u8>>, value: Option<Vec<u8>> },
    /// A list of strings.
    PathsParam { id: Vec<u8>, default: Option<Vec<Vec<u8>>>, value: Option<Vec<Vec<u8>>> },
    /// Declared filesystem preconditions.
    RequirementsParam { id: Vec<u8>, default: Option<Requirement>, value: Option<Requirement> },
}

/// Spec-level image of a [`Parameter`].
pub enum ParameterV {
    StringParam { id: Seq<u8>, default: Option<Seq<u8>>, value: Option<Seq<u8>> },
    PathsParam { id: Seq<u8>, default: Option<Seq<Seq<u8>>>, value: Option<Seq<Seq<u8>>> },
    RequirementsParam { id: Seq<u8>, default: Option<RequirementV>, value: Option<RequirementV> },
}

impl View for Parameter {
    type V = ParameterV;

    open spec fn view(&self) -> ParameterV {
        match self {
            Parameter::StringParam { id, default, value } => ParameterV::StringParam {
                id: id@,
                default: default.deep_view(),
                value: value.deep_view(),
            },
            Parameter::PathsParam { id, default, value } => ParameterV::PathsParam {
                id: id@,
                default: default.deep_view(),
                value: value.deep_view(),
            },
            Parameter::RequirementsParam { id, default, value } => ParameterV::RequirementsParam {
                id: id@,
                default: match default {
                    Some(r) => Some(r@),
                    None => None,
                },
                value: match value {
                    Some(r) => Some(r@),
                    None => None,
                },
            },
        }
    }
}

impl ParameterV {
    /// The name under which the parameter is looked up.
    pub open spec fn param_id(self) -> Seq<u8> {
        match self {
            ParameterV::StringParam { id, .. } => id,
            ParameterV::PathsParam { id, .. } => id,
            ParameterV::RequirementsParam { id, .. } => id,
        }
    }
}

/// A single unit of work: an opaque identifier and an ordered parameter
/// list. Immutable once parsed.
#[derive(Debug, PartialEq, Eq)]
pub struct Job {
    pub job_id: u64,
    pub parameters: Vec<Parameter>,
}

/// Spec-level image of a [`Job`].
pub struct JobV {
    pub job_id: u64,
    pub parameters: Seq<ParameterV>,
}

impl View for Job {
    type V = JobV;

    open spec fn view(&self) -> JobV {
        JobV { job_id: self.job_id, parameters: self.parameters.deep_view() }
    }
}

impl DeepView for Parameter {
    type V = ParameterV;

    open spec fn deep_view(&self) -> ParameterV {
        self@
    }
}

/// Terminal status of a processed job.
#[derive(Debug, PartialEq, Eq)]
pub enum JobStatus {
    Completed,
    Error,
}

/// The outcome reported for a job that ran to an end: its identifier,
/// a status, outputs (always empty in this core) and an optional
/// message. Produced exactly once per job.
#[derive(Debug, PartialEq, Eq)]
pub struct JobResult {
    pub job_id: u64,
    pub status: JobStatus,
    pub outputs: Vec<Parameter>,
    pub message: Option<Vec<u8>>,
}

/// Spec-level image of a [`JobResult`].
pub struct JobResultV {
    pub job_id: u64,
    pub status: JobStatus,
    pub outputs: Seq<ParameterV>,
    pub message: Option<Seq<u8>>,
}

impl View for JobResult {
    type V = JobResultV;

    open spec fn view(&self) -> JobResultV {
        JobResultV {
            job_id: self.job_id,
            status: self.status,
            outputs: self.outputs.deep_view(),
            message: self.message.deep_view(),
        }
    }
}

/// The error taxonomy: every failure of the pipeline maps to exactly
/// one of these, and every variant but the first carries the job
/// identifier it belongs to.
#[derive(Debug, PartialEq, Eq)]
pub enum MessageError {
    /// The inbound text is not a message of the expected shape.
    MalformedInput,
    /// A declared required path does not exist; carries the first
    /// missing path in declaration order.
    RequirementsUnmet { job_id: u64, path: Vec<u8> },
    /// The named string parameter is absent.
    MissingParameter { job_id: u64, name: Vec<u8> },
    /// The source answered with a status other than 200.
    BadResponseStatus { job_id: u64 },
    /// A transport, read or write failure, with its detail.
    IoError { job_id: u64, detail: Vec<u8> },
}

/// Spec-level image of a [`MessageError`].
pub enum MessageErrorV {
    MalformedInput,
    RequirementsUnmet { job_id: u64, path: Seq<u8> },
    MissingParameter { job_id: u64, name: Seq<u8> },
    BadResponseStatus { job_id: u64 },
    IoError { job_id: u64, detail: Seq<u8> },
}

impl View for MessageError {
    type V = MessageErrorV;

    open spec fn view(&self) -> MessageErrorV {
        match self {
            MessageError::MalformedInput => MessageErrorV::MalformedInput,
            MessageError::RequirementsUnmet { job_id, path } => MessageErrorV::RequirementsUnmet {
                job_id: *job_id,
                path: path@,
            },
            MessageError::MissingParameter { job_id, name } => MessageErrorV::MissingParameter {
                job_id: *job_id,
                name: name@,
            },
            MessageError::BadResponseStatus { job_id } => MessageErrorV::BadResponseStatus {
                job_id: *job_id,
            },
            MessageError::IoError { job_id, detail } => MessageErrorV::IoError {
                job_id: *job_id,
                detail: detail@,
            },
        }
    }
}

/// A `value`, when present, overrides the `default`; absence of both is
/// "no value", which is not by itself an error.
pub open spec fn effective<T>(value: Option<T>, default: Option<T>) -> Option<T> {
    if value is Some {
        value
    } else {
        default
    }
}

/// First-match resolution of a string parameter: the first entry whose
/// id matches is the only one observed; a non-string entry under that
/// id yields absence.
pub open spec fn spec_get_string(params: Seq<ParameterV>, id: Seq<u8>) -> Option<Seq<u8>>
    decreases params.len(),
{
    if params.len() == 0 {
        None
    } else if params[0].param_id() == id {
        match params[0] {
            ParameterV::StringParam { value, default, .. } => effective(value, default),
            _ => None,
        }
    } else {
        spec_get_string(params.drop_first(), id)
    }
}

/// The deep view of a byte string is its view.
pub broadcast proof fn lemma_bytes_deep_view(v: Vec<u8>)
    ensures
        #[trigger] v.deep_view() == v@,
{
    assert(v.deep_view() =~= v@);
}

/// Byte-wise equality of two byte strings.
pub fn bytes_eq(a: &[u8], b: &[u8]) -> (r: bool)
    ensures
        r == (a@ == b@),
{
    if a.len() != b.len() {
        assert(a@.len() != b@.len());
        return false;
    }
    let mut i: usize = 0;
    while i < a.len()
        invariant
            0 <= i <= a.len(),
            a@.len() == b@.len(),
            forall|j: int| 0 <= j < i ==> a@[j] == b@[j],
        decreases a.len() - i,
    {
        if a[i] != b[i] {
            return false;
        }
        i += 1;
    }
    assert(a@ =~= b@);
    true
}

/// A fresh copy of a byte string.
pub fn copy_bytes(v: &[u8]) -> (r: Vec<u8>)
    ensures
        r@ == v@,
{
    let mut r: Vec<u8> = Vec::new();
    let mut i: usize = 0;
    while i < v.len()
        invariant
            0 <= i <= v.len(),
            r@ == v@.take(i as int),
        decreases v.len() - i,
    {
        r.push(v[i]);
        assert(v@.take(i + 1 as int) =~= v@.take(i as int).push(v@[i as int]));
        i += 1;
    }
    assert(v@.take(v.len() as int) =~= v@);
    r
}

/// A fresh copy of a list of byte strings.
pub fn copy_byte_list(v: &Vec<Vec<u8>>) -> (r: Vec<Vec<u8>>)
    ensures
        r.deep_view() == v.deep_view(),
{
    let mut r: Vec<Vec<u8>> = Vec::new();
    let mut i: usize = 0;
    while i < v.len()
        invariant
            0 <= i <= v.len(),
            r.deep_view() == v.deep_view().take(i as int),
        decreases v.len() - i,
    {
        r.push(copy_bytes(v[i].as_slice()));
        assert(v.deep_view().take(i + 1 as int) =~= v.deep_view().take(i as int).push(
            v.deep_view()[i as int],
        ));
        assert(r.deep_view() =~= v.deep_view().take(i + 1 as int));
        i += 1;
    }
    assert(v.deep_view().take(v.len() as int) =~= v.deep_view());
    r
}

impl Job {
    /// First-match lookup of a string parameter's effective value.
    pub fn get_string_parameter(&self, id: &[u8]) -> (r: Option<Vec<u8>>)
        ensures
            r.deep_view() == spec_get_string(self@.parameters, id@),
    {
        let ghost all: Seq<ParameterV> = self@.parameters;
        proof {
            assert(all.skip(0) =~= all);
        }
        let mut i: usize = 0;
        while i < self.parameters.len()
            invariant
                0 <= i <= self.parameters.len(),
                spec_get_string(all, id@) == spec_get_string(all.skip(i as int), id@),
            decreases self.parameters.len() - i,
        {
            let p = &self.parameters[i];
            assert(all.skip(i as int)[0] == all[i as int]);
            let matches: bool = match p {
                Parameter::StringParam { id: pid, .. } => bytes_eq(pid.as_slice(), id),
                Parameter::PathsParam { id: pid, .. } => bytes_eq(pid.as_slice(), id),
                Parameter::RequirementsParam { id: pid, .. } => bytes_eq(pid.as_slice(), id),
            };
            if matches {
                match p {
                    Parameter::StringParam { value, default, .. } => {
                        match value {
                            Some(v) => {
                                return Some(copy_bytes(v.as_slice()));
                            },
                            None => {
                                match default {
                                    Some(d) => {
                                        return Some(copy_bytes(d.as_slice()));
                                    },
                                    None => {
                                        return None;
                                    },
                                }
                            },
                        }
                    },
                    _ => {
                        return None;
                    },
                }
            }
            assert(all.skip(i as int).drop_first() =~= all.skip(i + 1 as int));
            i += 1;
        }
        assert(all.skip(self.parameters.len() as int).len() == 0);
        None
    }
}

} // verus!


