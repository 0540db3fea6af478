//! The requirement checker: a job may declare filesystem paths that
//! must exist before any fetch work starts. The library owns the
//! decision logic; the runtime only answers, path by path, whether a
//! path exists. The check fails on the first missing path in
//! declaration order and never aggregates.
use vstd::prelude::*;
use crate::model::Job;
use crate::model::JobV;
use crate::model::MessageError;
use crate::model::MessageErrorV;
use crate::model::ParameterV;
use crate::model::RequirementV;
use crate::model::copy_bytes;
use crate::model::copy_byte_list;
use crate::model::effective;
use crate::parse::tag_requirements;

verus! {

broadcast use crate::model::lemma_bytes_deep_view;

/// The id under which a job declares its requirements; it reads the
/// same as the requirements type tag.
pub open spec fn requirements_key() -> Seq<u8> {
    tag_requirements()
}

/// The effective requirement of a job: the first parameter whose id
/// is `requirements` is the only one observed, and only if it is the
/// requirements variant; its value overrides its default.
pub open spec fn spec_requirement(params: Seq<ParameterV>) -> Option<RequirementV>
    decreases params.len(),
{
    if params.len() == 0 {
        None
    } else if params[0].param_id() == requirements_key() {
        match params[0] {
            ParameterV::RequirementsParam { value, default, .. } => effective(value, default),
            _ => None,
        }
    } else {
        spec_requirement(params.drop_first())
    }
}

/// The paths a job requires to exist, in declaration order. An absent
/// requirement, or one with an absent path list, requires nothing.
pub open spec fn spec_required_paths(job: JobV) -> Seq<Seq<u8>> {
    match spec_requirement(job.parameters) {
        Some(r) => match r.paths {
            Some(ps) => ps,
            None => Seq::empty(),
        },
        None => Seq::empty(),
    }
}

/// The index of the first `false` answer, if any.
pub open spec fn spec_first_missing(exists: Seq<bool>) -> Option<int>
    decreases exists.len(),
{
    if exists.len() == 0 {
        None
    } else if !exists[0] {
        Some(0)
    } else {
        match spec_first_missing(exists.drop_first()) {
            Some(k) => Some(k + 1),
            None => None,
        }
    }
}

/// All-true answers leave nothing missing.
pub proof fn lemma_first_missing_none(exists: Seq<bool>)
    requires
        forall|j: int| 0 <= j < exists.len() ==> exists[j],
    ensures
        spec_first_missing(exists) is None,
    decreases exists.len(),
{
    if exists.len() > 0 {
        lemma_first_missing_none(exists.drop_first());
    }
}

/// A `false` at `k` behind nothing but `true` answers is the first.
pub proof fn lemma_first_missing_at(exists: Seq<bool>, k: int)
    requires
        0 <= k < exists.len(),
        !exists[k],
        forall|j: int| 0 <= j < k ==> exists[j],
    ensures
        spec_first_missing(exists) == Some(k),
    decreases k,
{
    if k > 0 {
        lemma_first_missing_at(exists.drop_first(), k - 1);
    }
}

/// A vacuous requirement never blocks: where a job requires no paths,
/// there is nothing to answer and nothing is missing.
pub proof fn lemma_vacuous_requirement_never_blocks(job: JobV, exists: Seq<bool>)
    requires
        spec_required_paths(job).len() == 0,
        exists.len() == spec_required_paths(job).len(),
    ensures
        spec_first_missing(exists) is None,
{
}

impl Job {
    /// The declared required paths, in declaration order.
    pub fn required_paths(&self) -> (r: Vec<Vec<u8>>)
        ensures
            r.deep_view() == spec_required_paths(self@),
    {
        let ghost all: Seq<ParameterV> = self@.parameters;
        proof {
            assert(all.skip(0) =~= all);
        }
        let mut i: usize = 0;
        while i < self.parameters.len()
            invariant
                0 <= i <= self.parameters.len(),
                spec_requirement(all) == spec_requirement(all.skip(i as int)),
            decreases self.parameters.len() - i,
        {
            let p = &self.parameters[i];
            assert(all.skip(i as int)[0] == all[i as int]);
            let matches: bool = match p {
                crate::model::Parameter::StringParam { id, .. } => crate::model::bytes_eq(
                    id.as_slice(),
                    crate::parse::kb_requirements(),
                ),
                crate::model::Parameter::PathsParam { id, .. } => crate::model::bytes_eq(
                    id.as_slice(),
                    crate::parse::kb_requirements(),
                ),
                crate::model::Parameter::RequirementsParam { id, .. } => crate::model::bytes_eq(
                    id.as_slice(),
                    crate::parse::kb_requirements(),
                ),
            };
            if matches {
                match p {
                    crate::model::Parameter::RequirementsParam { value, default, .. } => {
                        let req: &crate::model::Requirement = match value {
                            Some(r) => r,
                            None => match default {
                                Some(d) => d,
                                None => {
                                    return Vec::new();
                                },
                            },
                        };
                        match &req.paths {
                            Some(ps) => {
                                return copy_byte_list(ps);
                            },
                            None => {
                                return Vec::new();
                            },
                        }
                    },
                    _ => {
                        return Vec::new();
                    },
                }
            }
            assert(all.skip(i as int).drop_first() =~= all.skip(i + 1 as int));
            i += 1;
        }
        assert(all.skip(self.parameters.len() as int).len() == 0);
        Vec::new()
    }

    /// The requirement check: `exists` answers, in order, whether each
    /// required path exists. Every answer being true is the one way to
    /// pass; the first `false` fails the job, naming its path.
    pub fn check_requirements(&self, exists: &Vec<bool>) -> (r: Result<(), MessageError>)
        requires
            exists@.len() == spec_required_paths(self@).len(),
        ensures
            match spec_first_missing(exists@) {
                None => r == Ok::<(), MessageError>(()),
                Some(k) => match r {
                    Err(e) => e@ == (MessageErrorV::RequirementsUnmet {
                        job_id: self@.job_id,
                        path: spec_required_paths(self@)[k],
                    }),
                    Ok(u) => false,
                },
            },
    {
        let paths = self.required_paths();
        let mut i: usize = 0;
        while i < exists.len()
            invariant
                0 <= i <= exists.len(),
                exists@.len() == paths.deep_view().len(),
                paths.deep_view() == spec_required_paths(self@),
                forall|j: int| 0 <= j < i ==> exists@[j],
            decreases exists.len() - i,
        {
            if !exists[i] {
                proof {
                    lemma_first_missing_at(exists@, i as int);
                }
                return Err(
                    MessageError::RequirementsUnmet {
                        job_id: self.job_id,
                        path: copy_bytes(paths[i].as_slice()),
                    },
                );
            }
            i += 1;
        }
        proof {
            lemma_first_missing_none(exists@);
        }
        Ok(())
    }
}

} // verus!
