//! The lines that the generator prints.

use vstd::prelude::*;

use crate::evaluate;
use crate::evaluate::EvaluationResult;
use crate::text;

verus! {

/// The names, where there are at most ten of them; else the first five and how
/// many more there are.
pub open spec fn listing(names: Seq<Seq<char>>) -> Seq<char> {
    if names.len() <= 10 {
        text::joined(names, ", "@)
    } else {
        text::joined(names.take(5), ", "@) + ", ... ("@ + text::decimal((names.len() - 5) as nat)
            + " more)"@
    }
}

/// Up to ten names are all listed, with commas between them; of more, the first
/// five are, and how many are left out.
pub proof fn law_listing(names: Seq<Seq<char>>)
    ensures
        0 < names.len() <= 10 ==> listing(names) + ", "@ == names.map_values(
            |name: Seq<char>| name + ", "@,
        ).flatten(),
        names.len() > 10 ==> exists|more: Seq<char>|
            listing(names) == names.take(5).map_values(
                |name: Seq<char>| name + ", "@,
            ).flatten() + "... ("@ + more + " more)"@ && #[trigger] reads(
                more,
                (names.len() - 5) as nat,
            ),
{
    if names.len() <= 10 {
        text::law_joined(names, ", "@);
    } else {
        let more = text::decimal((names.len() - 5) as nat);
        text::law_joined(names.take(5), ", "@);
        text::law_decimal((names.len() - 5) as nat);
        assert(reads(more, (names.len() - 5) as nat));
        reveal_strlit(", ... (");
        reveal_strlit(", ");
        reveal_strlit("... (");
        assert(", ... ("@ =~= ", "@ + "... ("@);
        assert(listing(names) =~= (text::joined(names.take(5), ", "@) + ", "@) + "... ("@ + more
            + " more)"@);
    }
}

/// Whether `text` is read as the number `n`: it is made of digits, each worth
/// ten times the next, without a leading zero unless it is `0`.
pub open spec fn reads(text: Seq<char>, n: nat) -> bool {
    &&& text.len() > 0
    &&& forall|i: int| 0 <= i < text.len() ==> '0' <= #[trigger] text[i] <= '9'
    &&& text.len() > 1 ==> text[0] != '0'
    &&& text.fold_left(0int, |value: int, c: char| 10 * value + (c as int - '0' as int)) == n
}

/// Lists names, and of many names the first.
pub fn list_names(names: &[String]) -> (line: String)
    ensures
        line@ == listing(names.deep_view()),
{
    if names.len() <= 10 {
        text::join_all(names, ", ")
    } else {
        let more = text::decimal_text((names.len() - 5) as u64);
        text::join_first(names, 5, ", ").concat(", ... (").concat(more.as_str()).concat(" more)")
    }
}

/// The line on the configurations that were found.
pub open spec fn found_line(nodes: Seq<Seq<char>>) -> Seq<char> {
    "  ├─ Found "@ + text::decimal(nodes.len()) + " nixosConfigurations: "@ + listing(nodes)
}

/// The line on the nodes that a filter left.
pub open spec fn filtered_line(nodes: Seq<Seq<char>>) -> Seq<char> {
    "  └─ Filtered to "@ + text::decimal(nodes.len()) + " nodes: "@ + listing(nodes)
}

/// The lines on the nodes of a flake and on those that are to be evaluated.
pub open spec fn selection_lines(nodes: Seq<Seq<char>>, filtered: Seq<Seq<char>>) -> Seq<
    Seq<char>,
> {
    if filtered.len() < nodes.len() {
        seq![found_line(nodes), filtered_line(filtered)]
    } else {
        seq![found_line(nodes)]
    }
}

/// The lines on the nodes of a flake say how many there are and list them. The
/// line on the nodes that are left stands where some are left out.
pub proof fn law_selection_lines(nodes: Seq<Seq<char>>, filtered: Seq<Seq<char>>)
    ensures
        selection_lines(nodes, filtered).len() == if filtered.len() < nodes.len() {
            2nat
        } else {
            1
        },
        exists|count: Seq<char>|
            selection_lines(nodes, filtered)[0] == #[trigger] ("  ├─ Found "@ + count
                + " nixosConfigurations: "@ + listing(nodes)) && reads(count, nodes.len()),
        filtered.len() < nodes.len() ==> exists|count: Seq<char>|
            selection_lines(nodes, filtered)[1] == #[trigger] ("  └─ Filtered to "@ + count
                + " nodes: "@ + listing(filtered)) && reads(count, filtered.len()),
{
    text::law_decimal(nodes.len());
    text::law_decimal(filtered.len());
    let all = text::decimal(nodes.len());
    let left = text::decimal(filtered.len());
    assert(selection_lines(nodes, filtered)[0] == "  ├─ Found "@ + all + " nixosConfigurations: "@
        + listing(nodes));
    if filtered.len() < nodes.len() {
        assert(selection_lines(nodes, filtered)[1] == "  └─ Filtered to "@ + left + " nodes: "@
            + listing(filtered));
    }
}

/// Reports the nodes of a flake and those that are to be evaluated.
pub fn report_selection(nodes: &[String], filtered: &[String]) -> (lines: Vec<String>)
    ensures
        lines.deep_view() == selection_lines(nodes.deep_view(), filtered.deep_view()),
{
    let mut lines: Vec<String> = Vec::new();
    let count = text::decimal_text(nodes.len() as u64);
    let listed = list_names(nodes);
    lines.push(
        "  ├─ Found ".to_string().concat(count.as_str()).concat(" nixosConfigurations: ").concat(
            listed.as_str(),
        ),
    );
    if filtered.len() < nodes.len() {
        let count = text::decimal_text(filtered.len() as u64);
        let listed = list_names(filtered);
        lines.push(
            "  └─ Filtered to ".to_string().concat(count.as_str()).concat(" nodes: ").concat(
                listed.as_str(),
            ),
        );
    }
    lines
}

/// The line on the `count`th of `total` nodes to finish, with the message of
/// its error where it failed.
pub open spec fn progress_line(
    count: nat,
    total: nat,
    node_name: Seq<char>,
    failure: Option<Seq<char>>,
) -> Seq<char> {
    let head = "  ├─ ["@ + text::decimal(count) + "/"@ + text::decimal(total) + "] "@ + node_name;
    match failure {
        None => head + ": ✓"@,
        Some(message) => head + ": ✗ ("@ + message + ")"@,
    }
}

/// The line on a node that finished says which of how many it is, its name, and
/// the message of its error where it failed.
pub proof fn law_progress_line(
    count: nat,
    total: nat,
    node_name: Seq<char>,
    failure: Option<Seq<char>>,
)
    ensures
        exists|done: Seq<char>, all: Seq<char>|
            progress_line(count, total, node_name, failure) == #[trigger] ("  ├─ ["@ + done + "/"@
                + all + "] "@ + node_name) + match failure {
                None => ": ✓"@,
                Some(message) => ": ✗ ("@ + message + ")"@,
            } && reads(done, count) && reads(all, total),
{
    text::law_decimal(count);
    text::law_decimal(total);
    let head = "  ├─ ["@ + text::decimal(count) + "/"@ + text::decimal(total) + "] "@ + node_name;
    if let Some(message) = failure {
        assert(head + ": ✗ ("@ + message + ")"@ =~= head + (": ✗ ("@ + message + ")"@));
    }
    assert(reads(text::decimal(count), count) && reads(text::decimal(total), total));
}

/// Reports the `count`th of `total` nodes to finish.
pub fn report_progress(count: usize, total: usize, node_name: &str, failure: Option<String>) -> (line:
    String)
    ensures
        line@ == progress_line(count as nat, total as nat, node_name@, failure.deep_view()),
{
    let done = text::decimal_text(count as u64);
    let all = text::decimal_text(total as u64);
    let head = "  ├─ [".to_string().concat(done.as_str()).concat("/").concat(all.as_str()).concat(
        "] ",
    ).concat(node_name);
    match failure {
        None => head.concat(": ✓"),
        Some(message) => head.concat(": ✗ (").concat(message.as_str()).concat(")"),
    }
}

/// The line on nodes that failed while others are kept.
pub open spec fn failed_line(failed: nat, successful: nat) -> Seq<char> {
    "  └─ ⚠️  "@ + text::decimal(failed) + " node(s) failed, continuing with "@ + text::decimal(
        successful,
    ) + " successful nodes"@
}

/// The line on nodes that failed says how many did and how many did not.
pub proof fn law_failed_line(failed: nat, successful: nat)
    ensures
        exists|bad: Seq<char>, good: Seq<char>|
            failed_line(failed, successful) == #[trigger] ("  └─ ⚠️  "@ + bad
                + " node(s) failed, continuing with "@ + good + " successful nodes"@) && reads(
                bad,
                failed,
            ) && reads(good, successful),
{
    text::law_decimal(failed);
    text::law_decimal(successful);
    let bad = text::decimal(failed);
    let good = text::decimal(successful);
    assert(reads(bad, failed) && reads(good, successful));
    assert(failed_line(failed, successful) == "  └─ ⚠️  "@ + bad
        + " node(s) failed, continuing with "@ + good + " successful nodes"@);
}

/// Reports nodes that failed while others are kept.
pub fn report_failed(failed: usize, successful: usize) -> (line: String)
    ensures
        line@ == failed_line(failed as nat, successful as nat),
{
    let failed = text::decimal_text(failed as u64);
    let successful = text::decimal_text(successful as u64);
    "  └─ ⚠️  ".to_string().concat(failed.as_str()).concat(
        " node(s) failed, continuing with ",
    ).concat(successful.as_str()).concat(" successful nodes")
}

/// The two lines on each evaluated node.
pub open spec fn result_lines(results: Seq<evaluate::EvaluationModel>) -> Seq<Seq<char>>
    decreases results.len(),
{
    if results.len() == 0 {
        Seq::empty()
    } else {
        let result = results.last();
        result_lines(results.drop_last()) + seq![
            "  ├─ "@ + result.node_name + ": "@ + text::decimal(result.duration_secs as nat)
                + "s"@,
            "      └─ "@ + result.drv_path,
        ]
    }
}

/// Each evaluated node has two lines, in order: its name with how long it took,
/// and its derivation path.
pub proof fn law_result_lines(results: Seq<evaluate::EvaluationModel>)
    ensures
        result_lines(results).len() == 2 * results.len(),
        forall|i: int|
            #![trigger results[i]]
            0 <= i < results.len() ==> result_lines(results)[2 * i + 1] == "      └─ "@
                + results[i].drv_path && exists|secs: Seq<char>|
                result_lines(results)[2 * i] == #[trigger] ("  ├─ "@ + results[i].node_name + ": "@
                    + secs + "s"@) && reads(secs, results[i].duration_secs as nat),
    decreases results.len(),
{
    if results.len() > 0 {
        let front = results.drop_last();
        law_result_lines(front);
        assert forall|i: int|
            #![trigger results[i]]
            0 <= i < results.len() implies result_lines(results)[2 * i + 1] == "      └─ "@
            + results[i].drv_path && exists|secs: Seq<char>|
            result_lines(results)[2 * i] == #[trigger] ("  ├─ "@ + results[i].node_name + ": "@
                + secs + "s"@) && reads(secs, results[i].duration_secs as nat) by {
            if i < front.len() {
                assert(front[i] == results[i]);
                assert(result_lines(results)[2 * i] == result_lines(front)[2 * i]);
                assert(result_lines(results)[2 * i + 1] == result_lines(front)[2 * i + 1]);
            } else {
                let secs = text::decimal(results[i].duration_secs as nat);
                text::law_decimal(results[i].duration_secs as nat);
                assert(reads(secs, results[i].duration_secs as nat));
                assert(result_lines(results)[2 * i] == "  ├─ "@ + results[i].node_name + ": "@
                    + secs + "s"@);
            }
        }
    }
}

/// Reports each evaluated node.
pub fn report_results(results: &[EvaluationResult]) -> (lines: Vec<String>)
    ensures
        lines.deep_view() == result_lines(results.deep_view()),
{
    let mut lines: Vec<String> = Vec::new();
    let ghost models = results.deep_view();
    let mut i: usize = 0;
    assert(models.take(0) =~= Seq::empty());
    assert(lines.deep_view() =~= result_lines(models.take(0)));
    while i < results.len()
        invariant
            i <= results@.len(),
            models == results.deep_view(),
            lines.deep_view() == result_lines(models.take(i as int)),
        decreases results@.len() - i,
    {
        let ghost before = lines.deep_view();
        let result = &results[i];
        let secs = text::decimal_text(result.duration_secs);
        lines.push(
            "  ├─ ".to_string().concat(result.node_name.as_str()).concat(": ").concat(
                secs.as_str(),
            ).concat("s"),
        );
        lines.push("      └─ ".to_string().concat(result.drv_path.as_str()));
        proof {
            let next = models.take(i + 1);
            assert(next.drop_last() =~= models.take(i as int));
            assert(next.last() == result@);
            assert(lines.deep_view() =~= result_lines(next));
        }
        i += 1;
    }
    assert(models.take(models.len() as int) =~= models);
    lines
}

/// The line on the template that is merged.
pub open spec fn template_line(path: Seq<char>) -> Seq<char> {
    "  ├─ Merging with template: "@ + path
}

/// The lines on a lock file that was written.
pub open spec fn written_lines(node_count: nat, path: Seq<char>) -> Seq<Seq<char>> {
    seq!["  ├─ Added "@ + text::decimal(node_count) + " nodes"@, "  └─ Written to "@ + path]
}

/// The lines on a written lock file say how many nodes it has and where it is.
pub proof fn law_written_lines(node_count: nat, path: Seq<char>)
    ensures
        written_lines(node_count, path).len() == 2,
        exists|count: Seq<char>|
            written_lines(node_count, path)[0] == #[trigger] ("  ├─ Added "@ + count + " nodes"@)
                && reads(count, node_count),
        written_lines(node_count, path)[1] == "  └─ Written to "@ + path,
{
    text::law_decimal(node_count);
    assert(reads(text::decimal(node_count), node_count));
    assert(written_lines(node_count, path)[0] == "  ├─ Added "@ + text::decimal(node_count)
        + " nodes"@);
}

/// Reports a lock file that was written.
pub fn report_written(node_count: usize, path: &str) -> (lines: Vec<String>)
    ensures
        lines.deep_view() == written_lines(node_count as nat, path@),
{
    let mut lines: Vec<String> = Vec::new();
    let count = text::decimal_text(node_count as u64);
    lines.push("  ├─ Added ".to_string().concat(count.as_str()).concat(" nodes"));
    lines.push("  └─ Written to ".to_string().concat(path));
    lines
}

/// The lines at the end.
pub open spec fn completion_lines(evaluated: nat, elapsed_secs: nat) -> Seq<Seq<char>> {
    seq![
        "\n✓ Generation completed in "@ + text::decimal(elapsed_secs) + "s"@,
        "  └─ Evaluated "@ + text::decimal(evaluated) + " nodes"@,
    ]
}

/// The lines at the end say how long it took and how many nodes were evaluated.
pub proof fn law_completion_lines(evaluated: nat, elapsed_secs: nat)
    ensures
        completion_lines(evaluated, elapsed_secs).len() == 2,
        exists|secs: Seq<char>|
            completion_lines(evaluated, elapsed_secs)[0] == #[trigger] (
            "\n✓ Generation completed in "@ + secs + "s"@) && reads(secs, elapsed_secs),
        exists|count: Seq<char>|
            completion_lines(evaluated, elapsed_secs)[1] == #[trigger] ("  └─ Evaluated "@ + count
                + " nodes"@) && reads(count, evaluated),
{
    text::law_decimal(evaluated);
    text::law_decimal(elapsed_secs);
    assert(reads(text::decimal(evaluated), evaluated));
    assert(reads(text::decimal(elapsed_secs), elapsed_secs));
    assert(completion_lines(evaluated, elapsed_secs)[0] == "\n✓ Generation completed in "@
        + text::decimal(elapsed_secs) + "s"@);
    assert(completion_lines(evaluated, elapsed_secs)[1] == "  └─ Evaluated "@ + text::decimal(
        evaluated,
    ) + " nodes"@);
}

/// Reports that the generator is done, after `elapsed_secs`.
pub fn report_completion(evaluated: usize, elapsed_secs: u64) -> (lines: Vec<String>)
    ensures
        lines.deep_view() == completion_lines(evaluated as nat, elapsed_secs as nat),
{
    let mut lines: Vec<String> = Vec::new();
    let secs = text::decimal_text(elapsed_secs);
    let count = text::decimal_text(evaluated as u64);
    lines.push("\n✓ Generation completed in ".to_string().concat(secs.as_str()).concat("s"));
    lines.push("  └─ Evaluated ".to_string().concat(count.as_str()).concat(" nodes"));
    lines
}

} // verus!
