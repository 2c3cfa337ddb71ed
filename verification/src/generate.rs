//! The course of the generator, phase by phase. Each phase takes what was done
//! outside since the last one, and gives the next phase with the lines to print
//! before anything else is done.

use vstd::prelude::*;

use crate::assemble;
use crate::discover;
use crate::error;
use crate::error::ColmenaError;
use crate::evaluate;
use crate::evaluate::EvaluationResult;
use crate::lock_file;
use crate::merge;
use crate::name_map::NameMap;
use crate::outside;
use crate::report;
use crate::toml_lock;
use crate::toml_lock::TomlDeployment;
use crate::toml_lock::TomlLockFile;

verus! {

/// Where the lock file is written unless the options say otherwise.
pub const DEFAULT_OUTPUT: &'static str = "hive-lock.toml";

/// How many nodes are evaluated at a time unless the options say otherwise.
pub const DEFAULT_PARALLEL: usize = 4;

/// The message where a flake has no configurations.
pub const NO_CONFIGURATIONS: &'static str =
    "No NixOS configurations found in flake\n\nHint: Add nixosConfigurations to your flake.nix:\noutputs = { nixpkgs, ... }: {\nnixosConfigurations.my-server = nixpkgs.lib.nixosSystem {\nmodules = [ ./configuration.nix ];\n};\n};";

/// The options of the generator.
#[derive(Debug)]
pub struct Opts {
    /// The path of the lock file, as it is displayed.
    pub output: String,
    /// The filter of the nodes to generate for.
    pub on: Option<String>,
    /// How many nodes are evaluated at a time.
    pub parallel: usize,
    /// Whether systems are built, and their paths put into the lock file.
    pub build: bool,
    /// The path of the template to merge with, as it is displayed.
    pub template: Option<String>,
    /// Whether the lock file is shown and not written.
    pub dry_run: bool,
    /// Whether nodes that fail to evaluate are left out.
    pub keep_going: bool,
}

impl Default for Opts {
    fn default() -> (opts: Self)
        ensures
            opts.output@ == DEFAULT_OUTPUT@,
            opts.on is None,
            opts.parallel == DEFAULT_PARALLEL,
            !opts.build,
            opts.template is None,
            !opts.dry_run,
            !opts.keep_going,
    {
        Opts {
            output: DEFAULT_OUTPUT.to_string(),
            on: None,
            parallel: DEFAULT_PARALLEL,
            build: false,
            template: None,
            dry_run: false,
            keep_going: false,
        }
    }
}

/// The phase in which the configurations of the flake are listed.
#[derive(Debug)]
pub struct Discovery {
    pub opts: Opts,
}

impl Discovery {
    /// Begins.
    pub fn begin(opts: Opts) -> (next: (Discovery, Vec<String>))
        ensures
            next.0.opts == opts,
            next.1.deep_view() == seq!["[1/4] Discovering configurations..."@],
    {
        let mut lines: Vec<String> = Vec::new();
        lines.push("[1/4] Discovering configurations...".to_string());
        (Discovery { opts }, lines)
    }

    /// Takes the names of the configurations, of which there must be at least
    /// one.
    pub fn discovered(self, nodes: Vec<String>) -> (next: Result<Selection, ColmenaError>)
        ensures
            match next {
                Ok(next) => nodes@.len() > 0 && next.opts == self.opts && next.nodes == nodes,
                Err(e) => nodes@.len() == 0 && e@ == NO_CONFIGURATIONS@,
            },
    {
        if nodes.is_empty() {
            Err(error::unknown(NO_CONFIGURATIONS))
        } else {
            Ok(Selection { opts: self.opts, nodes })
        }
    }
}

/// The phase in which the nodes to evaluate are selected.
#[derive(Debug)]
pub struct Selection {
    pub opts: Opts,
    /// All nodes of the flake.
    pub nodes: Vec<String>,
}

/// The nodes to evaluate, where `matched` are those that the filter matched if
/// there is a filter.
pub open spec fn selected(
    nodes: Seq<Seq<char>>,
    matched: Option<Seq<Seq<char>>>,
) -> Result<Seq<Seq<char>>, Seq<char>> {
    match matched {
        Some(matched) => discover::filtered(nodes, matched),
        None => Ok(nodes),
    }
}

/// Without a filter all nodes are selected; with one, exactly its matches, of
/// which there must be at least one.
pub proof fn law_selected(nodes: Seq<Seq<char>>, matched: Option<Seq<Seq<char>>>)
    ensures
        matched is None ==> selected(nodes, matched) == Ok::<Seq<Seq<char>>, Seq<char>>(nodes),
        matched matches Some(names) ==> (selected(nodes, matched) is Ok <==> names.len() > 0) && (
        names.len() > 0 ==> selected(nodes, matched) == Ok::<Seq<Seq<char>>, Seq<char>>(names)),
{
    if let Some(names) = matched {
        discover::law_filtered(nodes, names);
    }
}

impl Selection {
    /// Takes the names that the filter matched, where there is a filter. Without
    /// one all nodes are evaluated.
    pub fn select(self, matched: Option<Vec<String>>) -> (next: Result<
        (Evaluation, Vec<String>),
        ColmenaError,
    >)
        requires
            self.opts.on is Some == (matched is Some),
        ensures
            match next {
                Ok((next, lines)) => {
                    &&& next.opts == self.opts
                    &&& selected(self.nodes.deep_view(), matched.deep_view()) == Ok::<
                        Seq<Seq<char>>,
                        Seq<char>,
                    >(next.filtered.deep_view())
                    &&& lines.deep_view() == report::selection_lines(
                        self.nodes.deep_view(),
                        next.filtered.deep_view(),
                    ).push("[2/4] Evaluating configurations..."@)
                },
                Err(e) => selected(self.nodes.deep_view(), matched.deep_view()) == Err::<
                    Seq<Seq<char>>,
                    Seq<char>,
                >(e@),
            },
            next is Ok <==> (matched matches Some(matched) ==> matched@.len() > 0),
            next matches Ok((next, _)) ==> next.filtered.deep_view() == match matched {
                Some(matched) => matched.deep_view(),
                None => self.nodes.deep_view(),
            },
    {
        let filtered = match matched {
            Some(matched) => match discover::filter_nodes(self.nodes.as_slice(), matched) {
                Ok(filtered) => filtered,
                Err(e) => {
                    return Err(e);
                },
            },
            None => {
                let copy = self.nodes.clone();
                assert(copy.deep_view() =~= self.nodes.deep_view());
                copy
            },
        };
        let mut lines = report::report_selection(self.nodes.as_slice(), filtered.as_slice());
        let ghost before = lines.deep_view();
        lines.push("[2/4] Evaluating configurations...".to_string());
        assert(lines.deep_view() =~= before.push("[2/4] Evaluating configurations..."@));
        Ok((Evaluation { opts: self.opts, filtered }, lines))
    }
}

/// The phase in which the nodes are evaluated.
#[derive(Debug)]
pub struct Evaluation {
    pub opts: Opts,
    /// The nodes to evaluate.
    pub filtered: Vec<String>,
}

/// The lines on evaluations of which `failed` failed.
pub open spec fn evaluation_lines(
    results: Seq<evaluate::EvaluationModel>,
    failed: nat,
) -> Seq<Seq<char>> {
    let warning = if failed > 0 {
        seq![report::failed_line(failed, results.len())]
    } else {
        Seq::empty()
    };
    warning + report::result_lines(results) + seq!["[3/4] Extracting deployment metadata..."@]
}

/// The lines say how many evaluations failed where any did, then two lines for
/// each result, and then what comes next.
pub proof fn law_evaluation_lines(results: Seq<evaluate::EvaluationModel>, failed: nat)
    ensures
        ({
            let lines = evaluation_lines(results, failed);
            let first: nat = if failed > 0 {
                1
            } else {
                0
            };
            &&& lines.len() == first + 2 * results.len() + 1
            &&& lines.last() == "[3/4] Extracting deployment metadata..."@
            &&& lines.subrange(first as int, lines.len() - 1) == report::result_lines(results)
            &&& failed > 0 ==> lines[0] == report::failed_line(failed, results.len())
            &&& forall|i: int|
                #![trigger results[i]]
                0 <= i < results.len() ==> lines[first + 2 * i + 1] == "      └─ "@
                    + results[i].drv_path
        }),
{
    report::law_result_lines(results);
    let lines = evaluation_lines(results, failed);
    let first: nat = if failed > 0 {
        1
    } else {
        0
    };
    assert(lines.subrange(first as int, lines.len() - 1) =~= report::result_lines(results));
    assert forall|i: int|
        #![trigger results[i]]
        0 <= i < results.len() implies lines[first + 2 * i + 1] == "      └─ "@
        + results[i].drv_path by {
        assert(lines[first + 2 * i + 1] == report::result_lines(results)[2 * i + 1]);
    }
}

impl Evaluation {
    /// Takes what the evaluations came to.
    pub fn evaluated<E>(self, outcomes: Vec<(String, Result<EvaluationResult, E>)>) -> (next: Result<
        (Extraction, Vec<String>),
        E,
    >)
        ensures
            match next {
                Ok((next, lines)) => {
                    &&& self.opts.keep_going || evaluate::failures(outcomes@).len() == 0
                    &&& next.opts == self.opts
                    &&& next.filtered == self.filtered
                    &&& next.results@ == evaluate::successes(outcomes@)
                    &&& lines.deep_view() == evaluation_lines(
                        next.results.deep_view(),
                        evaluate::failures(outcomes@).len(),
                    )
                },
                Err(e) => {
                    &&& !self.opts.keep_going
                    &&& evaluate::failures(outcomes@).len() > 0
                    &&& e == evaluate::failures(outcomes@)[0]
                },
            },
            match next {
                Ok((next, lines)) => {
                    &&& self.opts.keep_going || forall|i: int|
                        0 <= i < outcomes@.len() ==> (#[trigger] outcomes@[i]).1 is Ok
                    &&& next.results@ == outcomes@.filter(
                        |outcome: (String, Result<EvaluationResult, E>)| outcome.1 is Ok,
                    ).map_values(|outcome: (String, Result<EvaluationResult, E>)| outcome.1->Ok_0)
                    &&& lines.deep_view() == evaluation_lines(
                        next.results.deep_view(),
                        outcomes@.filter(
                            |outcome: (String, Result<EvaluationResult, E>)| outcome.1 is Err,
                        ).len(),
                    )
                },
                Err(e) => {
                    &&& !self.opts.keep_going
                    &&& exists|k: int|
                        0 <= k < outcomes@.len() && (#[trigger] outcomes@[k]).1 == Err::<
                            EvaluationResult,
                            E,
                        >(e) && forall|j: int| 0 <= j < k ==> (#[trigger] outcomes@[j]).1 is Ok
                },
            },
    {
        let total = outcomes.len();
        proof {
            evaluate::law_successes_and_failures(outcomes@);
            evaluate::law_results_of_outcomes(outcomes@);
        }
        match evaluate::collect_evaluations(outcomes, self.opts.keep_going) {
            Ok(results) => {
                let mut lines: Vec<String> = Vec::new();
                let failed = total - results.len();
                if failed > 0 {
                    lines.push(report::report_failed(failed, results.len()));
                }
                let mut reported = report::report_results(results.as_slice());
                lines.append(&mut reported);
                lines.push("[3/4] Extracting deployment metadata...".to_string());
                assert(lines.deep_view() =~= evaluation_lines(results.deep_view(), failed as nat));
                Ok((Extraction { opts: self.opts, filtered: self.filtered, results }, lines))
            },
            Err(e) => Err(e),
        }
    }
}

/// The phase in which it is tested whether the flake has a `colmena` output.
#[derive(Debug)]
pub struct Extraction {
    pub opts: Opts,
    pub filtered: Vec<String>,
    pub results: Vec<EvaluationResult>,
}

impl Extraction {
    /// Takes whether the flake has a `colmena` output.
    pub fn extracted(self, has_colmena: bool) -> (next: Result<
        (Assembly, Vec<String>),
        ColmenaError,
    >)
        ensures
            next matches Ok((next, lines)) && next.opts == self.opts && next.evaluated
                == self.filtered@.len() && next.results == self.results && next.deployments@
                == Map::<Seq<char>, TomlDeployment>::empty() && lines.deep_view()
                == seq!["[4/4] Generating hive-lock.toml..."@],
    {
        match assemble::gather_deployments(self.filtered.as_slice(), has_colmena) {
            Ok((deployments, gathered)) => {
                let mut lines = gathered;
                lines.push("[4/4] Generating hive-lock.toml...".to_string());
                assert(lines.deep_view() =~= seq!["[4/4] Generating hive-lock.toml..."@]);
                Ok(
                    (
                        Assembly {
                            opts: self.opts,
                            evaluated: self.filtered.len(),
                            results: self.results,
                            deployments,
                        },
                        lines,
                    ),
                )
            },
            Err(e) => Err(e),
        }
    }
}

/// The phase in which `flake.lock` is read.
#[derive(Debug)]
pub struct Assembly {
    pub opts: Opts,
    /// How many nodes were to be evaluated.
    pub evaluated: usize,
    pub results: Vec<EvaluationResult>,
    pub deployments: NameMap<TomlDeployment>,
}

impl Assembly {
    /// Takes the contents of `flake.lock`, where there is such a file, and the
    /// version of the generator.
    pub fn assembled(self, flake_lock: Option<Vec<u8>>, generator_version: String) -> (next: Result<
        (Merging, Vec<String>),
        ColmenaError,
    >)
        ensures
            match next {
                Ok((next, lines)) => {
                    &&& flake_lock is Some
                    &&& next.opts == self.opts
                    &&& next.evaluated == self.evaluated
                    &&& outside::utc_timestamp(next.lock_file@.meta.generated_at)
                    &&& next.lock_file@ == assemble::assembled(
                        self.results.deep_view(),
                        toml_lock::map_model(self.deployments@),
                        assemble::hash_text(flake_lock->0@),
                        next.lock_file@.meta.generated_at,
                        generator_version@,
                    )
                    &&& lines.deep_view() == match self.opts.template {
                        Some(path) => seq![report::template_line(path@)],
                        None => Seq::empty(),
                    }
                },
                Err(e) => flake_lock is None && e@ == "flake.lock not found in current directory"@,
            },
    {
        match assemble::build_lock_file(
            self.results,
            &self.deployments,
            flake_lock,
            generator_version,
        ) {
            Ok(lock_file) => {
                let mut lines: Vec<String> = Vec::new();
                if let Some(path) = &self.opts.template {
                    lines.push("  ├─ Merging with template: ".to_string().concat(path.as_str()));
                }
                Ok((Merging { opts: self.opts, evaluated: self.evaluated, lock_file }, lines))
            },
            Err(e) => Err(e),
        }
    }
}

/// The phase in which the template is read.
#[derive(Debug)]
pub struct Merging {
    pub opts: Opts,
    pub evaluated: usize,
    pub lock_file: TomlLockFile,
}

impl Merging {
    /// Takes what parsing the template gave, where there is a template.
    pub fn merged(self, template: Option<Result<TomlLockFile, String>>) -> (next: Result<
        (Output, Vec<String>),
        ColmenaError,
    >)
        requires
            self.opts.template is Some == (template is Some),
        ensures
            match next {
                Ok((next, lines)) => {
                    &&& next.opts == self.opts
                    &&& next.evaluated == self.evaluated
                    &&& match template {
                        Some(Ok(template)) => next.lock_file@ == merge::merged(
                            self.lock_file@,
                            template@,
                        ),
                        Some(Err(_)) => false,
                        None => next.lock_file == self.lock_file,
                    }
                    &&& lines.deep_view() == if self.opts.dry_run {
                        seq!["  └─ Dry run - not writing file"@]
                    } else {
                        Seq::empty()
                    }
                },
                Err(e) => template matches Some(Err(message)) && e@
                    == "Failed to parse template TOML: "@ + message@,
            },
    {
        let lock_file = match template {
            Some(Ok(template)) => merge::merge_with_template(self.lock_file, template),
            Some(Err(message)) => {
                return Err(
                    error::unknown_with("Failed to parse template TOML: ", message.as_str()),
                );
            },
            None => self.lock_file,
        };
        let mut lines: Vec<String> = Vec::new();
        if self.opts.dry_run {
            lines.push("  └─ Dry run - not writing file".to_string());
        }
        Ok((Output { opts: self.opts, evaluated: self.evaluated, lock_file }, lines))
    }
}

/// The phase in which the lock file is encoded as TOML.
#[derive(Debug)]
pub struct Output {
    pub opts: Opts,
    pub evaluated: usize,
    pub lock_file: TomlLockFile,
}

/// What is to be done with the text of the lock file.
#[derive(Debug)]
pub enum Emission {
    /// To print `text`.
    Show { text: String, evaluated: usize },
    /// To write `content` with the permissions `mode`, and then to print
    /// `lines`.
    Write { content: String, mode: u32, lines: Vec<String>, evaluated: usize },
}

impl Output {
    /// Takes what encoding the lock file gave. A dry run shows the text and
    /// never writes it; else it is written and never shown.
    pub fn encoded(self, encoded: Result<String, String>) -> (next: Result<Emission, ColmenaError>)
        ensures
            match next {
                Ok(Emission::Show { text, evaluated }) => {
                    &&& self.opts.dry_run
                    &&& encoded is Ok
                    &&& text@ == "\n"@ + (toml_lock::header_text(self.lock_file.meta@)
                        + encoded->Ok_0@)
                    &&& evaluated == self.evaluated
                },
                Ok(Emission::Write { content, mode, lines, evaluated }) => {
                    &&& !self.opts.dry_run
                    &&& encoded is Ok
                    &&& content@ == toml_lock::header_text(self.lock_file.meta@)
                        + encoded->Ok_0@
                    &&& mode == merge::LOCK_FILE_MODE
                    &&& lines.deep_view() == report::written_lines(
                        self.lock_file@.nodes.len(),
                        self.opts.output@,
                    )
                    &&& evaluated == self.evaluated
                },
                Err(e) => encoded is Err && e@ == "Failed to serialize TOML: "@
                    + encoded->Err_0@,
            },
    {
        match merge::serialize_lock_file(&self.lock_file, encoded) {
            Ok(content) => if self.opts.dry_run {
                let text = "\n".to_string().concat(content.as_str());
                Ok(Emission::Show { text, evaluated: self.evaluated })
            } else {
                let count = self.lock_file.nodes.len();
                proof {
                    toml_lock::lemma_map_model_len(self.lock_file.nodes@);
                }
                let lines = report::report_written(count, self.opts.output.as_str());
                Ok(
                    Emission::Write {
                        content,
                        mode: merge::LOCK_FILE_MODE,
                        lines,
                        evaluated: self.evaluated,
                    },
                )
            },
            Err(e) => Err(e),
        }
    }
}

/// What a list of evaluations says.
pub open spec fn result_models(results: Seq<EvaluationResult>) -> Seq<evaluate::EvaluationModel> {
    results.map_values(|result: EvaluationResult| result@)
}

/// A generated lock file has a node for each name that was evaluated, and no
/// other, whatever template it is merged with.
pub proof fn law_generated_names(
    results: Seq<evaluate::EvaluationModel>,
    deployments: Map<Seq<char>, toml_lock::DeploymentModel>,
    flake_lock_hash: Seq<char>,
    generated_at: Seq<char>,
    generator_version: Seq<char>,
    template: toml_lock::LockModel,
    name: Seq<char>,
)
    ensures
        merge::merged(
            assemble::assembled(
                results,
                deployments,
                flake_lock_hash,
                generated_at,
                generator_version,
            ),
            template,
        ).nodes.contains_key(name) <==> exists|i: int|
            0 <= i < results.len() && (#[trigger] results[i]).node_name == name,
{
    let lock = assemble::assembled(
        results,
        deployments,
        flake_lock_hash,
        generated_at,
        generator_version,
    );
    assemble::law_built_names(results, deployments, name);
    merge::law_merge_keeps_nodes(lock, template, name);
    assert(merge::merged(lock, template).nodes.dom().contains(name) == lock.nodes.dom().contains(
        name,
    ));
}

/// Where each evaluation has a derivation path that lies in the Nix store and
/// names a derivation, so has each node of the generated lock file, whatever
/// template it is merged with.
pub proof fn law_generated_paths(
    results: Seq<evaluate::EvaluationModel>,
    deployments: Map<Seq<char>, toml_lock::DeploymentModel>,
    flake_lock_hash: Seq<char>,
    generated_at: Seq<char>,
    generator_version: Seq<char>,
    template: toml_lock::LockModel,
    name: Seq<char>,
)
    requires
        forall|i: int|
            0 <= i < results.len() ==> evaluate::drv_path_form((#[trigger] results[i]).drv_path),
    ensures
        ({
            let nodes = merge::merged(
                assemble::assembled(
                    results,
                    deployments,
                    flake_lock_hash,
                    generated_at,
                    generator_version,
                ),
                template,
            ).nodes;
            nodes.contains_key(name) ==> evaluate::drv_path_form(nodes[name].system_drv)
        }),
{
    assemble::law_built_paths(results, deployments, name);
}

/// Where each selected node was evaluated without error, the generated lock
/// file has all of them, so that none has to be evaluated again to deploy it.
pub proof fn law_selected_nodes_are_locked<E>(
    filtered: Seq<Seq<char>>,
    outcomes: Seq<(String, Result<EvaluationResult, E>)>,
    deployments: Map<Seq<char>, toml_lock::DeploymentModel>,
    flake_lock_hash: Seq<char>,
    generated_at: Seq<char>,
    generator_version: Seq<char>,
    template: toml_lock::LockModel,
)
    requires
        outcomes.len() == filtered.len(),
        evaluate::failures(outcomes).len() == 0,
        forall|i: int|
            0 <= i < outcomes.len() ==> (#[trigger] outcomes[i]).1->Ok_0.node_name@ == filtered[i],
    ensures
        lock_file::all_locked(
            merge::merged(
                assemble::assembled(
                    result_models(evaluate::successes(outcomes)),
                    deployments,
                    flake_lock_hash,
                    generated_at,
                    generator_version,
                ),
                template,
            ).nodes,
            filtered,
        ),
{
    let results = evaluate::successes(outcomes);
    let models = result_models(results);
    evaluate::law_all_succeed(outcomes);
    let nodes = merge::merged(
        assemble::assembled(
            models,
            deployments,
            flake_lock_hash,
            generated_at,
            generator_version,
        ),
        template,
    ).nodes;
    assert forall|i: int| 0 <= i < filtered.len() implies nodes.contains_key(
        #[trigger] filtered[i],
    ) by {
        assert(outcomes[i].1 == Ok::<EvaluationResult, E>(results[i]));
        assert(models[i].node_name == filtered[i]);
        law_generated_names(
            models,
            deployments,
            flake_lock_hash,
            generated_at,
            generator_version,
            template,
            filtered[i],
        );
    }
}

} // verus!
