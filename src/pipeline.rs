//! The rendering pipeline as a state machine: the program around it probes
//! runtimes and renders files as told, and reports back what happened.
//!
//! Every required runtime is probed before any file is rendered; files are
//! rendered one at a time in enumeration order; the first failure ends the
//! run.
use vstd::prelude::*;

use crate::error::ForgeError;
use crate::path::{join, join_path};
use crate::plugin::PluginMetadata;
use crate::render::{select_strategy, strategy_for, RenderStrategy};
use crate::runtime::{custom_command, is_requirement, required_runtimes};

verus! {

/// One file to render: its path relative to the template root, where it is
/// read and written, and how it is rendered.
#[derive(Debug, Clone)]
pub struct RenderJob {
    pub relative: String,
    pub input: String,
    pub output: String,
    pub strategy: RenderStrategy,
}

/// What the pipeline asks for next.
#[derive(Debug, Clone, Copy, PartialEq, Eq)]
pub enum Step {
    /// Probe the runtime at this position of `required`.
    Probe(usize),
    /// Render the job at this position of `jobs`.
    Render(usize),
    /// The run is over; `finish` tells how it ended.
    Finished,
}

/// What happened when a step was carried out.
#[derive(Debug)]
pub enum Event {
    /// The runtime answered its version probe with success, or not.
    Probed(bool),
    /// The file was rendered and written, or rendering it failed for the
    /// given cause.
    Rendered(Result<(), String>),
}

/// A run over the files enumerated from one template root.
#[derive(Debug)]
pub struct Pipeline {
    /// The runtimes to probe, each once.
    pub required: Vec<String>,
    /// The files to render, in enumeration order.
    pub jobs: Vec<RenderJob>,
    /// How many runtimes have been probed successfully.
    pub probed: usize,
    /// How many files have been rendered.
    pub rendered: usize,
    /// Why the run failed, once it has.
    pub failure: Option<ForgeError>,
}

/// The output file of each enumerated file: its relative path under the
/// output root.
pub open spec fn planned_job(
    job: RenderJob,
    template_root: Seq<char>,
    rel: Seq<char>,
    output_root: Seq<char>,
    custom: Option<Seq<char>>,
    script_dir: Seq<char>,
) -> bool {
    &&& job.relative@ == rel
    &&& job.input@ == join(template_root, rel)
    &&& job.output@ == join(output_root, rel)
    &&& job.strategy@ == strategy_for(rel, custom, script_dir)
}

impl Pipeline {
    /// Probes come first and all succeed before the first render; a failed
    /// probe leaves nothing rendered.
    pub open spec fn wf(&self) -> bool {
        &&& self.probed <= self.required@.len()
        &&& self.rendered <= self.jobs@.len()
        &&& self.rendered > 0 ==> self.probed == self.required@.len()
        &&& self.failure matches Some(ForgeError::RuntimeUnavailable(_)) ==> self.rendered == 0
    }

    /// The step the pipeline asks for.
    pub open spec fn next_spec(&self) -> Step {
        if self.failure is Some {
            Step::Finished
        } else if self.probed < self.required@.len() {
            Step::Probe(self.probed)
        } else if self.rendered < self.jobs@.len() {
            Step::Render(self.rendered)
        } else {
            Step::Finished
        }
    }

    /// Plans the run that renders the files `files` (relative paths,
    /// enumerated from `template_root`) into `output_root`; `script_dir`
    /// holds the built-in engines' scripts.
    pub fn new(
        template_root: &str,
        files: &Vec<String>,
        output_root: &str,
        plugin: Option<&PluginMetadata>,
        script_dir: &str,
    ) -> (r: Pipeline)
        ensures
            r.wf(),
            r.probed == 0,
            r.rendered == 0,
            r.failure is None,
            is_requirement(r.required@, files@, custom_command(plugin)),
            planned_from(
                r.jobs@,
                template_root@,
                files@,
                output_root@,
                custom_command(plugin),
                script_dir@,
            ),
    {
        let required = required_runtimes(files, plugin);
        let mut jobs: Vec<RenderJob> = Vec::new();
        let mut i: usize = 0;
        while i < files.len()
            invariant
                i <= files@.len(),
                jobs@.len() == i,
                forall|k: int|
                    0 <= k < i ==> planned_job(
                        #[trigger] jobs@[k],
                        template_root@,
                        files@[k]@,
                        output_root@,
                        custom_command(plugin),
                        script_dir@,
                    ),
            decreases files@.len() - i,
        {
            let rel = files[i].as_str();
            let job = RenderJob {
                relative: rel.to_owned(),
                input: join_path(template_root, rel),
                output: join_path(output_root, rel),
                strategy: select_strategy(rel, plugin, script_dir),
            };
            jobs.push(job);
            i += 1;
        }
        Pipeline { required, jobs, probed: 0, rendered: 0, failure: None }
    }

    /// The step the pipeline asks for next.
    pub fn next_step(&self) -> (r: Step)
        ensures
            r == self.next_spec(),
    {
        if self.failure.is_some() {
            Step::Finished
        } else if self.probed < self.required.len() {
            Step::Probe(self.probed)
        } else if self.rendered < self.jobs.len() {
            Step::Render(self.rendered)
        } else {
            Step::Finished
        }
    }

    /// Takes in what happened when the step asked for was carried out. An
    /// event that does not answer that step changes nothing.
    pub fn on_event(&mut self, e: Event)
        requires
            old(self).wf(),
        ensures
            final(self).wf(),
            final(self).required == old(self).required,
            final(self).jobs == old(self).jobs,
            match (old(self).next_spec(), e) {
                (Step::Probe(i), Event::Probed(true)) => {
                    &&& final(self).probed == old(self).probed + 1
                    &&& final(self).rendered == old(self).rendered
                    &&& final(self).failure is None
                },
                (Step::Probe(i), Event::Probed(false)) => {
                    &&& final(self).probed == old(self).probed
                    &&& final(self).rendered == old(self).rendered
                    &&& final(self).failure matches Some(ForgeError::RuntimeUnavailable(n))
                    &&& n@ == old(self).required@[i as int]@
                },
                (Step::Render(i), Event::Rendered(Ok(()))) => {
                    &&& final(self).probed == old(self).probed
                    &&& final(self).rendered == old(self).rendered + 1
                    &&& final(self).failure is None
                },
                (Step::Render(i), Event::Rendered(Err(c))) => {
                    &&& final(self).probed == old(self).probed
                    &&& final(self).rendered == old(self).rendered
                    &&& final(self).failure matches Some(
                        ForgeError::RenderFailed { path, cause },
                    )
                    &&& path@ == old(self).jobs@[i as int].input@
                    &&& cause@ == c@
                },
                _ => *final(self) == *old(self),
            },
    {
        let step = self.next_step();
        let n_required = self.required.len();
        let n_jobs = self.jobs.len();
        match step {
            Step::Probe(i) => match e {
                Event::Probed(ok) => {
                    if ok {
                        assert(self.probed < n_required);
                        self.probed = self.probed + 1;
                    } else {
                        self.failure = Some(
                            ForgeError::RuntimeUnavailable(self.required[i].clone()),
                        );
                    }
                },
                _ => {},
            },
            Step::Render(i) => match e {
                Event::Rendered(res) => match res {
                    Ok(()) => {
                        assert(self.rendered < n_jobs);
                        self.rendered = self.rendered + 1;
                    },
                    Err(cause) => {
                        self.failure = Some(
                            ForgeError::RenderFailed { path: self.jobs[i].input.clone(), cause },
                        );
                    },
                },
                _ => {},
            },
            Step::Finished => {},
        }
    }

    /// How the run ended: the first failure, or success.
    pub fn finish(self) -> (r: Result<(), ForgeError>)
        ensures
            match self.failure {
                Some(e) => r == Err::<(), ForgeError>(e),
                None => r is Ok,
            },
    {
        match self.failure {
            Some(e) => Err(e),
            None => Ok(()),
        }
    }
}

/// The jobs were planned from the files `files` enumerated from
/// `template_root`, for the output root `output_root`.
pub open spec fn planned_from(
    jobs: Seq<RenderJob>,
    template_root: Seq<char>,
    files: Seq<String>,
    output_root: Seq<char>,
    custom: Option<Seq<char>>,
    script_dir: Seq<char>,
) -> bool {
    &&& jobs.len() == files.len()
    &&& forall|i: int|
        0 <= i < files.len() ==> planned_job(
            #[trigger] jobs[i],
            template_root,
            files[i]@,
            output_root,
            custom,
            script_dir,
        )
}

/// The relative paths of the jobs.
pub open spec fn job_relatives(jobs: Seq<RenderJob>) -> Set<Seq<char>> {
    Set::new(|r: Seq<char>| exists|i: int| 0 <= i < jobs.len() && jobs[i].relative@ == r)
}

/// The relative paths enumerated.
pub open spec fn file_set(files: Seq<String>) -> Set<Seq<char>> {
    Set::new(|r: Seq<char>| exists|i: int| 0 <= i < files.len() && files[i]@ == r)
}

/// The files the jobs write.
pub open spec fn job_outputs(jobs: Seq<RenderJob>) -> Set<Seq<char>> {
    Set::new(|o: Seq<char>| exists|i: int| 0 <= i < jobs.len() && jobs[i].output@ == o)
}

/// Placing paths under one base keeps distinct paths distinct.
pub proof fn lemma_join_injective(base: Seq<char>, a: Seq<char>, b: Seq<char>)
    requires
        join(base, a) == join(base, b),
    ensures
        a == b,
{
    let k = join(base, a).len() - a.len();
    assert(join(base, a).skip(k) =~= a);
    assert(join(base, b).skip(k) =~= b);
}

/// The output tree has the structure of the template tree: the jobs carry
/// exactly the enumerated relative paths, each file is written at its
/// relative path under the output root, and distinct files are written to
/// distinct places.
pub proof fn lemma_structure_preserved(
    jobs: Seq<RenderJob>,
    template_root: Seq<char>,
    files: Seq<String>,
    output_root: Seq<char>,
    custom: Option<Seq<char>>,
    script_dir: Seq<char>,
)
    requires
        planned_from(jobs, template_root, files, output_root, custom, script_dir),
    ensures
        job_relatives(jobs) == file_set(files),
        forall|i: int| 0 <= i < jobs.len() ==> (#[trigger] jobs[i]).output@ == join(output_root, jobs[i].relative@),
        forall|i: int, j: int|
            0 <= i < jobs.len() && 0 <= j < jobs.len() && jobs[i].relative@ != jobs[j].relative@
                ==> #[trigger] jobs[i].output@ != #[trigger] jobs[j].output@,
{
    assert forall|r: Seq<char>| job_relatives(jobs).contains(r) <==> file_set(files).contains(r) by {
        if job_relatives(jobs).contains(r) {
            let i = choose|i: int| 0 <= i < jobs.len() && jobs[i].relative@ == r;
            assert(planned_job(jobs[i], template_root, files[i]@, output_root, custom, script_dir));
        }
        if file_set(files).contains(r) {
            let i = choose|i: int| 0 <= i < files.len() && files[i]@ == r;
            assert(planned_job(jobs[i], template_root, files[i]@, output_root, custom, script_dir));
        }
    }
    assert(job_relatives(jobs) =~= file_set(files));
    assert forall|i: int| 0 <= i < jobs.len() implies (#[trigger] jobs[i]).output@ == join(output_root, jobs[i].relative@) by {
        assert(planned_job(jobs[i], template_root, files[i]@, output_root, custom, script_dir));
    }
    assert forall|i: int, j: int|
        0 <= i < jobs.len() && 0 <= j < jobs.len() && jobs[i].relative@ != jobs[j].relative@
            implies #[trigger] jobs[i].output@ != #[trigger] jobs[j].output@ by {
        assert(planned_job(jobs[i], template_root, files[i]@, output_root, custom, script_dir));
        assert(planned_job(jobs[j], template_root, files[j]@, output_root, custom, script_dir));
        if jobs[i].output@ == jobs[j].output@ {
            lemma_join_injective(output_root, jobs[i].relative@, jobs[j].relative@);
        }
    }
}

/// A run that a failed runtime probe ended has rendered no file and asks
/// for nothing more.
pub proof fn lemma_unavailable_runtime_renders_nothing(p: Pipeline)
    requires
        p.wf(),
        p.failure matches Some(ForgeError::RuntimeUnavailable(_)),
    ensures
        p.rendered == 0,
        p.next_spec() == Step::Finished,
{
}

/// Generating again into the output of an earlier run over the same
/// template tree, overwriting, writes the same set of files, so the
/// directory holds the same files as after the first run.
pub proof fn lemma_regeneration_idempotent(
    first: Seq<RenderJob>,
    second: Seq<RenderJob>,
    template_root: Seq<char>,
    files: Seq<String>,
    output_root: Seq<char>,
    custom: Option<Seq<char>>,
    script_dir: Seq<char>,
    before: Set<Seq<char>>,
)
    requires
        planned_from(first, template_root, files, output_root, custom, script_dir),
        planned_from(second, template_root, files, output_root, custom, script_dir),
    ensures
        job_outputs(second) == job_outputs(first),
        before.union(job_outputs(first)).union(job_outputs(second)) == before.union(
            job_outputs(first),
        ),
{
    assert forall|o: Seq<char>| job_outputs(first).contains(o) <==> job_outputs(second).contains(o) by {
        if job_outputs(first).contains(o) {
            let i = choose|i: int| 0 <= i < first.len() && first[i].output@ == o;
            assert(planned_job(first[i], template_root, files[i]@, output_root, custom, script_dir));
            assert(planned_job(second[i], template_root, files[i]@, output_root, custom, script_dir));
        }
        if job_outputs(second).contains(o) {
            let i = choose|i: int| 0 <= i < second.len() && second[i].output@ == o;
            assert(planned_job(first[i], template_root, files[i]@, output_root, custom, script_dir));
            assert(planned_job(second[i], template_root, files[i]@, output_root, custom, script_dir));
        }
    }
    assert(job_outputs(second) =~= job_outputs(first));
    assert(before.union(job_outputs(first)).union(job_outputs(second)) =~= before.union(
        job_outputs(first),
    ));
}

} // verus!
