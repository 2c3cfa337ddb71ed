//! The evaluation of single nodes, and what their evaluations come to.

use vstd::prelude::*;

use crate::command;
use crate::command::CommandOutput;
use crate::error;
use crate::error::ColmenaError;
use crate::outside;
use crate::text;
use crate::toml_lock;

verus! {

/// The evaluation of one node.
#[derive(Debug)]
pub struct EvaluationResult {
    pub node_name: String,
    pub drv_path: String,
    pub system_path: Option<String>,
    pub duration_secs: u64,
}

/// What an `EvaluationResult` says.
#[verifier::ext_equal]
pub struct EvaluationModel {
    pub node_name: Seq<char>,
    pub drv_path: Seq<char>,
    pub system_path: Option<Seq<char>>,
    pub duration_secs: u64,
}

impl View for EvaluationResult {
    type V = EvaluationModel;

    open spec fn view(&self) -> EvaluationModel {
        EvaluationModel {
            node_name: self.node_name@,
            drv_path: self.drv_path@,
            system_path: toml_lock::option_model(self.system_path),
            duration_secs: self.duration_secs,
        }
    }
}

/// What an `EvaluationResult` says is what its fields say, whole and in full.
pub proof fn law_evaluation_tells_all(result: EvaluationResult)
    ensures
        result@.node_name == result.node_name@,
        result@.drv_path == result.drv_path@,
        result@.system_path == result.system_path.deep_view(),
        result@.duration_secs == result.duration_secs,
        result.deep_view() == result@,
{
}

impl DeepView for EvaluationResult {
    type V = EvaluationModel;

    open spec fn deep_view(&self) -> EvaluationModel {
        self@
    }
}

/// What a derivation path in JSON gives: the path, or the error of one that
/// could not be parsed.
pub open spec fn parsed_drv_path(parsed: Result<Seq<char>, Seq<char>>) -> Result<
    Seq<char>,
    Seq<char>,
> {
    match parsed {
        Ok(path) => Ok(path),
        Err(message) => Err("Failed to parse derivation path JSON: "@ + message),
    }
}

/// Takes the derivation path that was parsed.
pub fn accept_drv_path(parsed: Result<String, String>) -> (path: Result<String, ColmenaError>)
    ensures
        error::outcome(path) == parsed_drv_path(error::parse_model(parsed)),
        match parsed {
            Ok(given) => path matches Ok(path) && path == given,
            Err(message) => path matches Err(e) && e@ == "Failed to parse derivation path JSON: "@
                + message@,
        },
{
    match parsed {
        Ok(path) => Ok(path),
        Err(message) => Err(
            error::unknown_with("Failed to parse derivation path JSON: ", message.as_str()),
        ),
    }
}

/// What the command that evaluates a node gives.
pub open spec fn evaluated_drv_path(node_name: Seq<char>, output: CommandOutput) -> Result<
    Seq<char>,
    Seq<char>,
> {
    if output.success {
        parsed_drv_path(outside::json_text(output.stdout@))
    } else {
        Err(
            "Failed to evaluate node '"@ + node_name + "':\n"@ + outside::utf8_lossy(
                output.stderr@,
            ),
        )
    }
}

/// Where the command succeeds and printed a text, that text is the derivation
/// path as it stands. In all other cases there is an error, which ends with
/// the reason.
pub proof fn law_evaluated_drv_path(node_name: Seq<char>, output: CommandOutput)
    ensures
        match evaluated_drv_path(node_name, output) {
            Ok(path) => output.success && outside::json_text(output.stdout@) == Ok::<
                Seq<char>,
                Seq<char>,
            >(path),
            Err(message) => if output.success {
                outside::json_text(output.stdout@) matches Err(reason) && reason.is_suffix_of(
                    message,
                )
            } else {
                outside::utf8_lossy(output.stderr@).is_suffix_of(message)
            },
        },
{
    if output.success {
        if let Err(reason) = outside::json_text(output.stdout@) {
            lemma_ends_with("Failed to parse derivation path JSON: "@, reason);
        }
    } else {
        lemma_ends_with(
            "Failed to evaluate node '"@ + node_name + "':\n"@,
            outside::utf8_lossy(output.stderr@),
        );
    }
}

proof fn lemma_ends_with(lead: Seq<char>, tail: Seq<char>)
    ensures
        tail.is_suffix_of(lead + tail),
{
    assert((lead + tail).subrange(lead.len() as int, (lead + tail).len() as int) =~= tail);
}

/// Reads the derivation path of a node from the output of the command that
/// evaluates it.
pub fn read_drv_path(node_name: &str, output: &CommandOutput) -> (path: Result<
    String,
    ColmenaError,
>)
    ensures
        error::outcome(path) == evaluated_drv_path(node_name@, *output),
        output.success ==> match outside::json_text(output.stdout@) {
            Ok(given) => path matches Ok(path) && path@ == given,
            Err(message) => path matches Err(e) && e@ == "Failed to parse derivation path JSON: "@
                + message,
        },
        !output.success ==> (path matches Err(e) && e@ == "Failed to evaluate node '"@ + node_name@
            + "':\n"@ + outside::utf8_lossy(output.stderr@)),
        !output.success && vstd::utf8::valid_utf8(output.stderr@) ==> error::outcome(path) == Err::<
            Seq<char>,
            Seq<char>,
        >(
            "Failed to evaluate node '"@ + node_name@ + "':\n"@ + vstd::utf8::decode_utf8(
                output.stderr@,
            ),
        ),
{
    if !output.success {
        let stderr = outside::lossy_text(output.stderr.as_slice());
        let lead = "Failed to evaluate node '".to_string().concat(node_name).concat("':\n");
        return Err(error::unknown_with(lead.as_str(), stderr.as_str()));
    }
    let parsed = match outside::parse_json_text(output.stdout.as_slice()) {
        Ok(path) => Ok(path),
        Err(e) => Err(e.to_string()),
    };
    accept_drv_path(parsed)
}

/// Whether `path` lies in the Nix store and names a derivation.
pub open spec fn drv_path_form(path: Seq<char>) -> bool {
    text::has_prefix(path, "/nix/store/"@) && text::has_suffix(path, ".drv"@)
}

/// A path has the form of a derivation path where it is `/nix/store/`, any
/// text, and `.drv`.
pub proof fn law_drv_path_form(path: Seq<char>)
    ensures
        drv_path_form(path) <==> exists|inner: Seq<char>|
            path == #[trigger] ("/nix/store/"@ + inner + ".drv"@),
{
    reveal_strlit("/nix/store/");
    reveal_strlit(".drv");
    let head = "/nix/store/"@;
    let tail = ".drv"@;
    text::law_prefix_and_suffix(path, head);
    text::law_prefix_and_suffix(path, tail);
    if drv_path_form(path) {
        if path.len() < head.len() + tail.len() {
            let at = path.len() - tail.len();
            assert(path.skip(at)[0] == '.');
            assert(path[at] == '.');
            if at < head.len() {
                assert(path.take(head.len() as int)[at] == head[at]);
            }
            assert(false);
        }
        let inner = path.subrange(head.len() as int, path.len() - tail.len());
        assert forall|i: int| 0 <= i < path.len() implies path[i] == (head + inner + tail)[i] by {
            if i < head.len() {
                assert(path.take(head.len() as int)[i] == path[i]);
            } else if i >= path.len() - tail.len() {
                assert(path.skip(path.len() - tail.len())[i - (path.len() - tail.len())] == path[i]);
            }
        }
        assert(path =~= head + inner + tail);
    }
    if exists|inner: Seq<char>| path == #[trigger] ("/nix/store/"@ + inner + ".drv"@) {
        let inner = choose|inner: Seq<char>|
            path == #[trigger] ("/nix/store/"@ + inner + ".drv"@);
        assert(path =~= head + (inner + tail));
        assert(path =~= (head + inner) + tail);
        text::law_prefix_and_suffix(path, head);
        assert(text::has_prefix(head + (inner + tail), head));
        assert(text::has_suffix((head + inner) + tail, tail));
    }
}

/// What is wrong with a derivation path, where `exists` says whether there is
/// a file at it.
pub open spec fn drv_path_fault(path: Seq<char>, exists: bool) -> Option<Seq<char>> {
    if !text::has_prefix(path, "/nix/store/"@) {
        Some("Invalid derivation path: must be in /nix/store"@)
    } else if !text::has_suffix(path, ".drv"@) {
        Some("Invalid derivation path: must end with .drv"@)
    } else if !exists {
        Some("Derivation path does not exist: "@ + path)
    } else {
        None
    }
}

/// Tests that a derivation path is legitimate. `exists` says whether there is
/// a file at it.
pub fn validate_drv_path(path: &str, exists: bool) -> (verdict: Result<(), ColmenaError>)
    ensures
        match verdict {
            Ok(()) => drv_path_fault(path@, exists) is None,
            Err(e) => drv_path_fault(path@, exists) == Some(e@),
        },
        verdict is Ok <==> exists && "/nix/store/"@.is_prefix_of(path@) && ".drv"@.is_suffix_of(
            path@,
        ),
        verdict matches Err(e) ==> e@ == if !"/nix/store/"@.is_prefix_of(path@) {
            "Invalid derivation path: must be in /nix/store"@
        } else if !".drv"@.is_suffix_of(path@) {
            "Invalid derivation path: must end with .drv"@
        } else {
            "Derivation path does not exist: "@ + path@
        },
{
    if !text::starts_with(path, "/nix/store/") {
        return Err(error::unknown("Invalid derivation path: must be in /nix/store"));
    }
    if !text::ends_with(path, ".drv") {
        return Err(error::unknown("Invalid derivation path: must end with .drv"));
    }
    if !exists {
        return Err(error::unknown_with("Derivation path does not exist: ", path));
    }
    Ok(())
}

/// A derivation path is legitimate where it lies in the Nix store, names a
/// derivation, and there is a file at it; and nowhere else.
pub proof fn law_legitimate_drv_path(path: Seq<char>, exists: bool)
    ensures
        drv_path_fault(path, exists) is None <==> drv_path_form(path) && exists,
        drv_path_fault(path, exists) is None <==> exists && "/nix/store/"@.is_prefix_of(path)
            && ".drv"@.is_suffix_of(path),
{
    text::law_prefix_and_suffix(path, "/nix/store/"@);
    text::law_prefix_and_suffix(path, ".drv"@);
}

/// What the command that builds a node gives: the path that it printed.
pub open spec fn built_path(node_name: Seq<char>, output: CommandOutput) -> Result<
    Seq<char>,
    Seq<char>,
> {
    if !output.success {
        Err("Failed to build node '"@ + node_name + "':\n"@ + outside::utf8_lossy(output.stderr@))
    } else if !vstd::utf8::valid_utf8(output.stdout@) {
        Err("Failed to parse build output: "@ + outside::utf8_error(output.stdout@))
    } else {
        Ok(text::trimmed(vstd::utf8::decode_utf8(output.stdout@)))
    }
}

/// Where the command succeeds and printed valid UTF-8, the path is all that it
/// printed but for the white space around it. In all other cases there is an
/// error, which ends with the reason.
pub proof fn law_built_path(node_name: Seq<char>, output: CommandOutput)
    ensures
        match built_path(node_name, output) {
            Ok(path) => {
                &&& output.success
                &&& vstd::utf8::valid_utf8(output.stdout@)
                &&& exists|lead: Seq<char>, tail: Seq<char>|
                    vstd::utf8::decode_utf8(output.stdout@) == #[trigger] (lead + path + tail)
                        && lead.all(|c: char| text::white_space(c)) && tail.all(
                        |c: char| text::white_space(c),
                    )
                &&& path.len() > 0 ==> !text::white_space(path.first()) && !text::white_space(
                    path.last(),
                )
            },
            Err(message) => if output.success {
                !vstd::utf8::valid_utf8(output.stdout@) && outside::utf8_error(
                    output.stdout@,
                ).is_suffix_of(message)
            } else {
                outside::utf8_lossy(output.stderr@).is_suffix_of(message)
            },
        },
{
    text::law_trimmed(vstd::utf8::decode_utf8(output.stdout@));
    lemma_ends_with("Failed to parse build output: "@, outside::utf8_error(output.stdout@));
    lemma_ends_with(
        "Failed to build node '"@ + node_name + "':\n"@,
        outside::utf8_lossy(output.stderr@),
    );
}

/// Reads the store path of a built system from the output of the command that
/// builds it.
pub fn build_system(node_name: &str, output: CommandOutput) -> (path: Result<String, ColmenaError>)
    ensures
        error::outcome(path) == built_path(node_name@, output),
        path is Ok <==> output.success && vstd::utf8::valid_utf8(output.stdout@),
        path matches Ok(path) ==> {
            &&& exists|lead: Seq<char>, tail: Seq<char>|
                vstd::utf8::decode_utf8(output.stdout@) == #[trigger] (lead + path@ + tail)
                    && lead.all(|c: char| text::white_space(c)) && tail.all(
                    |c: char| text::white_space(c),
                )
            &&& path@.len() > 0 ==> !text::white_space(path@.first()) && !text::white_space(
                path@.last(),
            )
        },
        path matches Err(e) ==> e@ == if output.success {
            "Failed to parse build output: "@ + outside::utf8_error(output.stdout@)
        } else {
            "Failed to build node '"@ + node_name@ + "':\n"@ + outside::utf8_lossy(output.stderr@)
        },
        !output.success && vstd::utf8::valid_utf8(output.stderr@) ==> error::outcome(path) == Err::<
            Seq<char>,
            Seq<char>,
        >(
            "Failed to build node '"@ + node_name@ + "':\n"@ + vstd::utf8::decode_utf8(
                output.stderr@,
            ),
        ),
{
    proof {
        law_built_path(node_name@, output);
    }
    if !output.success {
        let stderr = outside::lossy_text(output.stderr.as_slice());
        let lead = "Failed to build node '".to_string().concat(node_name).concat("':\n");
        return Err(error::unknown_with(lead.as_str(), stderr.as_str()));
    }
    match String::from_utf8(output.stdout) {
        Ok(printed) => Ok(text::trim(printed.as_str())),
        Err(e) => {
            let message = e.to_string();
            Err(error::unknown_with("Failed to parse build output: ", message.as_str()))
        },
    }
}

/// A node whose derivation path was tested. The path of each such node lies in
/// the Nix store and names a derivation.
#[derive(Debug)]
pub struct ValidNode {
    node_name: String,
    drv_path: String,
    /// Whether its system is to be built.
    build: bool,
}

/// What a `ValidNode` says.
#[verifier::ext_equal]
pub struct ValidNodeModel {
    pub node_name: Seq<char>,
    pub drv_path: Seq<char>,
    pub build: bool,
}

impl View for ValidNode {
    type V = ValidNodeModel;

    closed spec fn view(&self) -> ValidNodeModel {
        ValidNodeModel {
            node_name: self.node_name@,
            drv_path: self.drv_path@,
            build: self.build,
        }
    }
}

impl ValidNode {
    #[verifier::type_invariant]
    spec fn path_has_form(self) -> bool {
        drv_path_form(self.drv_path@)
    }

    /// Takes a node with its derivation path, where `exists` says whether
    /// there is a file at it.
    pub fn check(node_name: &str, drv_path: String, exists: bool, build: bool) -> (node: Result<
        ValidNode,
        ColmenaError,
    >)
        ensures
            match node {
                Ok(node) => {
                    &&& drv_path_fault(drv_path@, exists) is None
                    &&& node@ == (ValidNodeModel {
                        node_name: node_name@,
                        drv_path: drv_path@,
                        build,
                    })
                },
                Err(e) => drv_path_fault(drv_path@, exists) == Some(e@),
            },
            node is Ok <==> exists && "/nix/store/"@.is_prefix_of(drv_path@)
                && ".drv"@.is_suffix_of(drv_path@),
    {
        match validate_drv_path(drv_path.as_str(), exists) {
            Ok(()) => Ok(ValidNode { node_name: node_name.to_string(), drv_path, build }),
            Err(e) => Err(e),
        }
    }

    /// The arguments of the `nix` command that builds the node, where it is to
    /// be built.
    pub fn build_command(&self, uri: &str) -> (args: Option<Vec<String>>)
        ensures
            args.deep_view() == if self@.build {
                Some(
                    seq![
                        "build"@,
                        command::toplevel_attr(uri@, self@.node_name),
                        "--no-link"@,
                        "--print-out-paths"@,
                    ],
                )
            } else {
                None
            },
    {
        if self.build {
            Some(command::build_args(uri, self.node_name.as_str()))
        } else {
            None
        }
    }
}

/// What the evaluation of a node comes to, where `built` is the output of the
/// command that built it.
pub open spec fn node_evaluation(
    node: ValidNodeModel,
    built: Option<CommandOutput>,
    duration_secs: u64,
) -> Result<EvaluationModel, Seq<char>> {
    let done = EvaluationModel {
        node_name: node.node_name,
        drv_path: node.drv_path,
        system_path: None,
        duration_secs,
    };
    match built {
        None => Ok(done),
        Some(output) => match built_path(node.node_name, output) {
            Ok(path) => Ok(EvaluationModel { system_path: Some(path), ..done }),
            Err(message) => Err(message),
        },
    }
}

/// An evaluated node has the path of a built system where it was built, and
/// nowhere else. Its name and its derivation path are those of the node.
pub proof fn law_evaluation_of_node(
    node: ValidNodeModel,
    built: Option<CommandOutput>,
    duration_secs: u64,
)
    ensures
        node_evaluation(node, built, duration_secs) matches Ok(result) ==> {
            &&& result.system_path is Some <==> built is Some
            &&& result.node_name == node.node_name
            &&& result.drv_path == node.drv_path
            &&& result.duration_secs == duration_secs
        },
        built is None ==> node_evaluation(node, built, duration_secs) is Ok,
        built matches Some(output) ==> match built_path(node.node_name, output) {
            Ok(path) => node_evaluation(node, built, duration_secs) matches Ok(result)
                && result.system_path == Some(path),
            Err(message) => node_evaluation(node, built, duration_secs) == Err::<
                EvaluationModel,
                Seq<char>,
            >(message),
        },
{
}

/// Finishes the evaluation of a node, which took `duration_secs`. `built` is
/// the output of its build command, where the node is to be built. What is
/// evaluated has a derivation path in the Nix store that names a derivation.
pub fn evaluate_single_node(
    node: ValidNode,
    built: Option<CommandOutput>,
    duration_secs: u64,
) -> (result: Result<EvaluationResult, ColmenaError>)
    requires
        node@.build == (built is Some),
    ensures
        error::outcome(result) == node_evaluation(node@, built, duration_secs),
        result matches Ok(result) ==> drv_path_form(result.drv_path@),
        result matches Ok(result) ==> {
            &&& result.node_name@ == node@.node_name
            &&& result.drv_path@ == node@.drv_path
            &&& result.duration_secs == duration_secs
            &&& result.system_path is Some <==> built is Some
        },
        result is Ok <==> (built matches Some(output) ==> output.success && vstd::utf8::valid_utf8(
            output.stdout@,
        )),
        built is Some && result is Ok ==> {
            let path = result->Ok_0.system_path->0@;
            let printed = vstd::utf8::decode_utf8(built->0.stdout@);
            &&& exists|lead: Seq<char>, tail: Seq<char>|
                printed == #[trigger] (lead + path + tail) && lead.all(
                    |c: char| text::white_space(c),
                ) && tail.all(|c: char| text::white_space(c))
            &&& path.len() > 0 ==> !text::white_space(path.first()) && !text::white_space(
                path.last(),
            )
        },
        built matches Some(output) ==> !output.success && vstd::utf8::valid_utf8(output.stderr@)
            ==> error::outcome(result) == Err::<EvaluationModel, Seq<char>>(
            "Failed to build node '"@ + node@.node_name + "':\n"@ + vstd::utf8::decode_utf8(
                output.stderr@,
            ),
        ),
{
    proof {
        use_type_invariant(&node);
    }
    let system_path = match built {
        Some(output) => match build_system(node.node_name.as_str(), output) {
            Ok(path) => Some(path),
            Err(e) => {
                return Err(e);
            },
        },
        None => None,
    };
    Ok(
        EvaluationResult {
            node_name: node.node_name,
            drv_path: node.drv_path,
            system_path,
            duration_secs,
        },
    )
}

/// The error of a thread pool that could not be made.
pub fn thread_pool_error(detail: &str) -> (error: ColmenaError)
    ensures
        error@ == "Failed to create thread pool: "@ + detail@,
{
    error::unknown_with("Failed to create thread pool: ", detail)
}

/// The results among `outcomes`, in order.
pub open spec fn successes<E>(outcomes: Seq<(String, Result<EvaluationResult, E>)>) -> Seq<
    EvaluationResult,
>
    decreases outcomes.len(),
{
    if outcomes.len() == 0 {
        Seq::empty()
    } else {
        match outcomes.last().1 {
            Ok(result) => successes(outcomes.drop_last()).push(result),
            Err(_) => successes(outcomes.drop_last()),
        }
    }
}

/// The errors among `outcomes`, in order.
pub open spec fn failures<E>(outcomes: Seq<(String, Result<EvaluationResult, E>)>) -> Seq<E>
    decreases outcomes.len(),
{
    if outcomes.len() == 0 {
        Seq::empty()
    } else {
        match outcomes.last().1 {
            Ok(_) => failures(outcomes.drop_last()),
            Err(e) => failures(outcomes.drop_last()).push(e),
        }
    }
}

/// The results are those of the outcomes that have one, and the errors are those
/// of the others; none is lost, and both stay in order.
pub proof fn law_results_of_outcomes<E>(outcomes: Seq<(String, Result<EvaluationResult, E>)>)
    ensures
        successes(outcomes) == outcomes.filter(
            |outcome: (String, Result<EvaluationResult, E>)| outcome.1 is Ok,
        ).map_values(|outcome: (String, Result<EvaluationResult, E>)| outcome.1->Ok_0),
        failures(outcomes) == outcomes.filter(
            |outcome: (String, Result<EvaluationResult, E>)| outcome.1 is Err,
        ).map_values(|outcome: (String, Result<EvaluationResult, E>)| outcome.1->Err_0),
    decreases outcomes.len(),
{
    reveal(Seq::filter);
    let is_ok = |outcome: (String, Result<EvaluationResult, E>)| outcome.1 is Ok;
    let is_err = |outcome: (String, Result<EvaluationResult, E>)| outcome.1 is Err;
    let ok = |outcome: (String, Result<EvaluationResult, E>)| outcome.1->Ok_0;
    let err = |outcome: (String, Result<EvaluationResult, E>)| outcome.1->Err_0;
    if outcomes.len() > 0 {
        let front = outcomes.drop_last();
        law_results_of_outcomes(front);
    }
    assert(successes(outcomes) =~= outcomes.filter(is_ok).map_values(ok));
    assert(failures(outcomes) =~= outcomes.filter(is_err).map_values(err));
}

/// Outcomes that are split are collected apart: the results of the whole are
/// those of the first part and then those of the second, and so are the errors.
pub proof fn law_outcomes_apart<E>(
    first: Seq<(String, Result<EvaluationResult, E>)>,
    second: Seq<(String, Result<EvaluationResult, E>)>,
)
    ensures
        successes(first + second) == successes(first) + successes(second),
        failures(first + second) == failures(first) + failures(second),
    decreases second.len(),
{
    if second.len() == 0 {
        assert(first + second =~= first);
        assert(successes(first) + successes(second) =~= successes(first));
        assert(failures(first) + failures(second) =~= failures(first));
    } else {
        let front = second.drop_last();
        law_outcomes_apart(first, front);
        assert((first + second).drop_last() =~= first + front);
        assert((first + second).last() == second.last());
        assert(successes(first + second) =~= successes(first) + successes(second));
        assert(failures(first + second) =~= failures(first) + failures(second));
    }
}

/// Each outcome is a result or an error.
pub proof fn law_successes_and_failures<E>(outcomes: Seq<(String, Result<EvaluationResult, E>)>)
    ensures
        successes(outcomes).len() + failures(outcomes).len() == outcomes.len(),
    decreases outcomes.len(),
{
    if outcomes.len() > 0 {
        law_successes_and_failures(outcomes.drop_last());
    }
}

/// Where no outcome is an error, the results are those of all nodes, in the
/// order in which the nodes stood.
pub proof fn law_all_succeed<E>(outcomes: Seq<(String, Result<EvaluationResult, E>)>)
    requires
        failures(outcomes).len() == 0,
    ensures
        successes(outcomes).len() == outcomes.len(),
        forall|i: int|
            0 <= i < outcomes.len() ==> (#[trigger] outcomes[i]).1 == Ok::<EvaluationResult, E>(
                successes(outcomes)[i],
            ),
    decreases outcomes.len(),
{
    if outcomes.len() > 0 {
        let front = outcomes.drop_last();
        law_all_succeed(front);
        assert forall|i: int| 0 <= i < outcomes.len() implies (#[trigger] outcomes[i]).1 == Ok::<
            EvaluationResult,
            E,
        >(successes(outcomes)[i]) by {
            if i < front.len() {
                assert(front[i] == outcomes[i]);
            }
        }
    }
}

/// The errors of a prefix are the first errors of the whole.
proof fn lemma_failures_prefix<E>(outcomes: Seq<(String, Result<EvaluationResult, E>)>, n: int)
    requires
        0 <= n <= outcomes.len(),
    ensures
        failures(outcomes.take(n)).len() <= failures(outcomes).len(),
        failures(outcomes.take(n)) == failures(outcomes).take(
            failures(outcomes.take(n)).len() as int,
        ),
    decreases outcomes.len(),
{
    if n == outcomes.len() {
        assert(outcomes.take(n) =~= outcomes);
        assert(failures(outcomes).take(failures(outcomes).len() as int) =~= failures(outcomes));
    } else {
        let front = outcomes.drop_last();
        lemma_failures_prefix(front, n);
        assert(front.take(n) =~= outcomes.take(n));
        let k = failures(front.take(n)).len() as int;
        assert(failures(outcomes).take(k) =~= failures(front).take(k));
    }
}

/// Takes the results of all nodes. With `keep_going` the nodes that failed are
/// left out; without it the first error is returned.
pub fn collect_evaluations<E>(
    outcomes: Vec<(String, Result<EvaluationResult, E>)>,
    keep_going: bool,
) -> (results: Result<Vec<EvaluationResult>, E>)
    ensures
        match results {
            Ok(results) => {
                &&& keep_going || failures(outcomes@).len() == 0
                &&& results@ == successes(outcomes@)
            },
            Err(e) => {
                &&& !keep_going
                &&& failures(outcomes@).len() > 0
                &&& e == failures(outcomes@)[0]
            },
        },
        match results {
            Ok(results) => {
                &&& keep_going || forall|i: int|
                    0 <= i < outcomes@.len() ==> (#[trigger] outcomes@[i]).1 is Ok
                &&& results@ == outcomes@.filter(
                    |outcome: (String, Result<EvaluationResult, E>)| outcome.1 is Ok,
                ).map_values(|outcome: (String, Result<EvaluationResult, E>)| outcome.1->Ok_0)
            },
            Err(e) => {
                &&& !keep_going
                &&& exists|k: int|
                    0 <= k < outcomes@.len() && (#[trigger] outcomes@[k]).1 == Err::<
                        EvaluationResult,
                        E,
                    >(e) && forall|j: int| 0 <= j < k ==> (#[trigger] outcomes@[j]).1 is Ok
            },
        },
{
    let mut results: Vec<EvaluationResult> = Vec::new();
    let ghost all = outcomes@;
    proof {
        law_results_of_outcomes(all);
    }
    for outcome in rest: outcomes
        invariant
            all == outcomes@,
            rest.seq() == all,
            results@ == successes(all.take(rest.index() as int)),
            !keep_going ==> failures(all.take(rest.index() as int)).len() == 0,
            !keep_going ==> forall|j: int|
                0 <= j < rest.index() ==> (#[trigger] outcomes@[j]).1 is Ok,
    {
        let ghost k = rest.index() as int;
        assert(all.take(k + 1).drop_last() =~= all.take(k));
        assert(all.take(k + 1).last() == outcome);
        match outcome.1 {
            Ok(result) => {
                results.push(result);
            },
            Err(e) => {
                if !keep_going {
                    proof {
                        assert(failures(all.take(k + 1)) == seq![e]);
                        lemma_failures_prefix(all, k + 1);
                        assert(failures(all).take(1)[0] == e);
                        assert(outcomes@[k].1 == Err::<EvaluationResult, E>(e));
                    }
                    return Err(e);
                }
            },
        }
    }
    assert(all.take(all.len() as int) =~= all);
    Ok(results)
}

} // verus!
