//! From the output of `nix` to the names of the nodes to evaluate.

use vstd::prelude::*;

use crate::command::CommandOutput;
use crate::error;
use crate::error::ColmenaError;
use crate::order;
use crate::outside;
use crate::text;

verus! {

/// What a list of configuration names gives: the names in order, or the error
/// of a list that could not be parsed.
pub open spec fn configurations(parsed: Result<Seq<Seq<char>>, Seq<char>>) -> Result<
    Seq<Seq<char>>,
    Seq<char>,
> {
    match parsed {
        Ok(names) => Ok(order::in_order(names)),
        Err(message) => Err("Failed to parse configuration names: "@ + message),
    }
}

/// Of parsed names none is lost and none is added: they are found again, each
/// as often as it was listed, and no name stands before a smaller one.
pub proof fn law_configurations(given: Seq<Seq<char>>)
    ensures
        configurations(Ok(given)) matches Ok(names) && names.to_multiset() == given.to_multiset()
            && names.len() == given.len() && forall|i: int, j: int|
            0 <= i < j < names.len() ==> order::name_le(#[trigger] names[i], #[trigger] names[j]),
{
    order::law_in_order(given);
}

/// The error of a list that could not be parsed ends with the reason.
pub proof fn law_configurations_error(message: Seq<char>)
    ensures
        configurations(Err(message)) matches Err(text) && message.is_suffix_of(text)
            && "Failed to parse configuration names: "@.is_prefix_of(text) && text.len()
            == "Failed to parse configuration names: "@.len() + message.len(),
{
    let lead = "Failed to parse configuration names: "@;
    assert((lead + message).subrange(0, lead.len() as int) =~= lead);
    assert((lead + message).subrange(lead.len() as int, (lead + message).len() as int)
        =~= message);
}

/// Sorts the configuration names that were parsed.
pub fn sort_configurations(parsed: Result<Vec<String>, String>) -> (names: Result<
    Vec<String>,
    ColmenaError,
>)
    ensures
        error::outcome(names) == configurations(error::parse_model(parsed)),
        match parsed {
            Ok(given) => names matches Ok(names) && names.deep_view().to_multiset()
                == given.deep_view().to_multiset() && forall|i: int, j: int|
                0 <= i < j < names@.len() ==> order::name_le(
                    #[trigger] names@[i]@,
                    #[trigger] names@[j]@,
                ),
            Err(message) => names matches Err(e) && e@ == "Failed to parse configuration names: "@
                + message@,
        },
{
    match parsed {
        Ok(names) => Ok(order::sort_names(names)),
        Err(message) => Err(
            error::unknown_with("Failed to parse configuration names: ", message.as_str()),
        ),
    }
}

/// What the command that lists the configurations gives.
pub open spec fn discovered(output: CommandOutput) -> Result<Seq<Seq<char>>, Seq<char>> {
    if output.success {
        configurations(outside::json_texts(output.stdout@))
    } else {
        Err("Failed to discover nixosConfigurations:\n"@ + outside::utf8_lossy(output.stderr@))
    }
}

/// Where the command succeeds and printed a list of names, exactly these are
/// discovered, each as often as it was printed, and no name stands before a
/// smaller one. In all other cases there is an error.
pub proof fn law_discovered(output: CommandOutput)
    ensures
        output.success && outside::json_texts(output.stdout@) is Ok ==> {
            let given = outside::json_texts(output.stdout@)->Ok_0;
            discovered(output) matches Ok(names) && names.to_multiset() == given.to_multiset()
                && forall|i: int, j: int|
                0 <= i < j < names.len() ==> order::name_le(
                    #[trigger] names[i],
                    #[trigger] names[j],
                )
        },
        discovered(output) is Ok ==> output.success && outside::json_texts(output.stdout@) is Ok,
{
    if output.success && outside::json_texts(output.stdout@) is Ok {
        law_configurations(outside::json_texts(output.stdout@)->Ok_0);
    }
}

/// Reads the names of the NixOS configurations of a flake, in order, from the
/// output of the command that lists them.
pub fn discover_configurations(output: &CommandOutput) -> (names: Result<Vec<String>, ColmenaError>)
    ensures
        error::outcome(names) == discovered(*output),
        output.success ==> match outside::json_texts(output.stdout@) {
            Ok(given) => names matches Ok(names) && names.deep_view().to_multiset()
                == given.to_multiset() && forall|i: int, j: int|
                0 <= i < j < names@.len() ==> order::name_le(
                    #[trigger] names@[i]@,
                    #[trigger] names@[j]@,
                ),
            Err(message) => names matches Err(e) && e@ == "Failed to parse configuration names: "@
                + message,
        },
        !output.success ==> (names matches Err(e) && e@
            == "Failed to discover nixosConfigurations:\n"@ + outside::utf8_lossy(output.stderr@)),
        !output.success && vstd::utf8::valid_utf8(output.stderr@) ==> error::outcome(names) == Err::<
            Seq<Seq<char>>,
            Seq<char>,
        >(
            "Failed to discover nixosConfigurations:\n"@ + vstd::utf8::decode_utf8(output.stderr@),
        ),
{
    if !output.success {
        let stderr = outside::lossy_text(output.stderr.as_slice());
        return Err(
            error::unknown_with("Failed to discover nixosConfigurations:\n", stderr.as_str()),
        );
    }
    let parsed = match outside::parse_json_texts(output.stdout.as_slice()) {
        Ok(names) => Ok(names),
        Err(e) => Err(e.to_string()),
    };
    sort_configurations(parsed)
}

/// Whether `accept` answers `accepted` for each name.
pub open spec fn answers<F: Fn(&String) -> bool>(
    accept: F,
    accepted: spec_fn(Seq<char>) -> bool,
) -> bool {
    forall|name: &String, yes: bool| #[trigger]
        call_ensures(accept, (name,), yes) ==> yes == accepted(name@)
}

/// Whether `answers` are answers that `accept` may give for `names`.
pub open spec fn answered<F: Fn(&String) -> bool>(
    accept: F,
    names: Seq<String>,
    answers: Seq<bool>,
) -> bool {
    &&& answers.len() == names.len()
    &&& forall|i: int|
        0 <= i < names.len() ==> call_ensures(accept, (&names[i],), #[trigger] answers[i])
}

/// Those of `names` for which the answer is yes, in order.
pub open spec fn kept(names: Seq<Seq<char>>, answers: Seq<bool>) -> Seq<Seq<char>>
    recommends
        names.len() == answers.len(),
    decreases names.len(),
{
    if names.len() == 0 {
        Seq::empty()
    } else if answers.last() {
        kept(names.drop_last(), answers.drop_last()).push(names.last())
    } else {
        kept(names.drop_last(), answers.drop_last())
    }
}

/// The names that are kept are those that stand beside a yes, in order.
pub proof fn law_kept(names: Seq<Seq<char>>, answers: Seq<bool>)
    requires
        names.len() == answers.len(),
    ensures
        kept(names, answers) == names.zip_with(answers).filter(
            |pair: (Seq<char>, bool)| pair.1,
        ).map_values(|pair: (Seq<char>, bool)| pair.0),
    decreases names.len(),
{
    reveal(Seq::filter);
    let yes = |pair: (Seq<char>, bool)| pair.1;
    let name = |pair: (Seq<char>, bool)| pair.0;
    let pairs = names.zip_with(answers);
    if names.len() > 0 {
        let front = names.drop_last().zip_with(answers.drop_last());
        law_kept(names.drop_last(), answers.drop_last());
        assert(pairs.drop_last() =~= front);
        assert(pairs.last() == (names.last(), answers.last()));
        assert(pairs.filter(yes).map_values(name) =~= if answers.last() {
            front.filter(yes).map_values(name).push(names.last())
        } else {
            front.filter(yes).map_values(name)
        });
    } else {
        assert(kept(names, answers) =~= pairs.filter(yes).map_values(name));
    }
}

/// The names that can name a node: those that `is_node_name` accepts, in the
/// order of `all_nodes`.
pub fn node_names<F: Fn(&String) -> bool>(all_nodes: &[String], is_node_name: F) -> (names: Vec<
    String,
>)
    requires
        forall|name: &String| #[trigger] call_requires(is_node_name, (name,)),
    ensures
        forall|accepted: spec_fn(Seq<char>) -> bool| #[trigger]
            answers(is_node_name, accepted) ==> names.deep_view() == all_nodes.deep_view().filter(
                accepted,
            ),
        exists|given: Seq<bool>| #[trigger]
            answered(is_node_name, all_nodes@, given) && names.deep_view() == kept(
                all_nodes.deep_view(),
                given,
            ),
        exists|given: Seq<bool>|
            #![trigger all_nodes.deep_view().zip_with(given)]
            given.len() == all_nodes@.len() && (forall|i: int|
                0 <= i < given.len() ==> call_ensures(
                    is_node_name,
                    (&all_nodes@[i],),
                    #[trigger] given[i],
                )) && names.deep_view() == all_nodes.deep_view().zip_with(given).filter(
                |pair: (Seq<char>, bool)| pair.1,
            ).map_values(|pair: (Seq<char>, bool)| pair.0),
{
    let mut names: Vec<String> = Vec::new();
    let mut i: usize = 0;
    let ghost all = all_nodes.deep_view();
    let ghost mut given: Seq<bool> = Seq::empty();
    assert(all_nodes@.take(0) =~= Seq::empty());
    assert(names.deep_view() =~= kept(all.take(0), given));
    assert forall|accepted: spec_fn(Seq<char>) -> bool| #[trigger]
        answers(is_node_name, accepted) implies names.deep_view() == all.take(0).filter(
        accepted,
    ) by {
        reveal(Seq::filter);
        assert(names.deep_view() =~= all.take(0).filter(accepted));
    }
    while i < all_nodes.len()
        invariant
            i <= all_nodes@.len(),
            all == all_nodes.deep_view(),
            forall|name: &String| #[trigger] call_requires(is_node_name, (name,)),
            forall|accepted: spec_fn(Seq<char>) -> bool| #[trigger]
                answers(is_node_name, accepted) ==> names.deep_view() == all.take(i as int).filter(
                    accepted,
                ),
            answered(is_node_name, all_nodes@.take(i as int), given),
            names.deep_view() == kept(all.take(i as int), given),
        decreases all_nodes@.len() - i,
    {
        let ghost before = names.deep_view();
        let name = &all_nodes[i];
        let yes = is_node_name(name);
        if yes {
            names.push(name.clone());
        }
        assert forall|accepted: spec_fn(Seq<char>) -> bool| #[trigger]
            answers(is_node_name, accepted) implies names.deep_view() == all.take(i + 1).filter(
            accepted,
        ) by {
            reveal(Seq::filter);
            assert(all.take(i + 1).drop_last() =~= all.take(i as int));
            assert(all.take(i + 1).last() == name@);
            assert(yes == accepted(name@));
            if yes {
                assert(names.deep_view() =~= before.push(name@));
            }
        }
        proof {
            let more = given.push(yes);
            assert(all.take(i + 1).drop_last() =~= all.take(i as int));
            assert(more.drop_last() =~= given);
            if yes {
                assert(names.deep_view() =~= before.push(name@));
            }
            assert forall|j: int| 0 <= j < i + 1 implies call_ensures(
                is_node_name,
                (&all_nodes@.take(i + 1)[j],),
                #[trigger] more[j],
            ) by {
                if j < i {
                    assert(all_nodes@.take(i + 1)[j] == all_nodes@.take(i as int)[j]);
                    assert(more[j] == given[j]);
                }
            }
            given = more;
        }
        i += 1;
    }
    assert(all.take(all_nodes@.len() as int) =~= all);
    assert(all_nodes@.take(all_nodes@.len() as int) =~= all_nodes@);
    proof {
        law_kept(all, given);
    }
    names
}

/// The nodes to evaluate where a filter matched `matched`: these, or an error
/// that names all nodes where there is none.
pub open spec fn filtered(all_nodes: Seq<Seq<char>>, matched: Seq<Seq<char>>) -> Result<
    Seq<Seq<char>>,
    Seq<char>,
> {
    if matched.len() == 0 {
        Err(
            "No nodes matched the filter. Available nodes: "@ + text::joined(all_nodes, ", "@),
        )
    } else {
        Ok(matched)
    }
}

/// Matches are taken as they are. Where there is none, the error lists all
/// nodes, each followed by a comma but for the last.
pub proof fn law_filtered(all_nodes: Seq<Seq<char>>, matched: Seq<Seq<char>>)
    ensures
        matched.len() > 0 ==> filtered(all_nodes, matched) == Ok::<Seq<Seq<char>>, Seq<char>>(
            matched,
        ),
        matched.len() == 0 ==> (filtered(all_nodes, matched) matches Err(message)
            && if all_nodes.len() > 0 {
            message + ", "@ == "No nodes matched the filter. Available nodes: "@
                + all_nodes.map_values(|name: Seq<char>| name + ", "@).flatten()
        } else {
            message == "No nodes matched the filter. Available nodes: "@
        }),
{
    let lead = "No nodes matched the filter. Available nodes: "@;
    let list = text::joined(all_nodes, ", "@);
    text::law_joined(all_nodes, ", "@);
    assert((lead + list) + ", "@ =~= lead + (list + ", "@));
    assert(all_nodes.len() == 0 ==> lead + list =~= lead);
}

/// Takes the nodes that a filter matched, which must be at least one.
pub fn filter_nodes(all_nodes: &[String], matched: Vec<String>) -> (names: Result<
    Vec<String>,
    ColmenaError,
>)
    ensures
        error::outcome(names) == filtered(all_nodes.deep_view(), matched.deep_view()),
        names is Ok <==> matched@.len() > 0,
        names matches Ok(names) ==> names == matched,
{
    if matched.is_empty() {
        let available = text::join_all(all_nodes, ", ");
        Err(
            error::unknown_with(
                "No nodes matched the filter. Available nodes: ",
                available.as_str(),
            ),
        )
    } else {
        Ok(matched)
    }
}

/// Names that cannot name a node do not matter to a filter: it gets none of
/// them, and it gets the same names, and its matches are taken or refused
/// alike, where they are removed beforehand. `matching` is what the filter
/// matches among the names it gets; `matched` and `matched_without` list what
/// it matches with those names and without them.
pub proof fn law_rejected_names_do_not_matter(
    all_nodes: Seq<Seq<char>>,
    accepted: spec_fn(Seq<char>) -> bool,
    matching: spec_fn(Seq<Seq<char>>) -> Set<Seq<char>>,
    matched: Seq<Seq<char>>,
    matched_without: Seq<Seq<char>>,
)
    requires
        matched.to_set() == matching(all_nodes.filter(accepted)),
        matched_without.to_set() == matching(all_nodes.filter(accepted).filter(accepted)),
    ensures
        forall|i: int|
            0 <= i < all_nodes.filter(accepted).len() ==> accepted(
                #[trigger] all_nodes.filter(accepted)[i],
            ),
        all_nodes.filter(accepted).filter(accepted) == all_nodes.filter(accepted),
        filtered(all_nodes, matched) is Ok <==> filtered(
            all_nodes.filter(accepted),
            matched_without,
        ) is Ok,
        filtered(all_nodes, matched) matches Ok(names) ==> filtered(
            all_nodes.filter(accepted),
            matched_without,
        ) matches Ok(names_without) && names.to_set() == names_without.to_set(),
{
    let names = all_nodes.filter(accepted);
    assert forall|i: int| 0 <= i < names.len() implies accepted(#[trigger] names[i]) by {
        all_nodes.lemma_filter_pred(accepted, i);
    }
    lemma_filter_all(names, accepted);
    lemma_empty_list(matched);
    lemma_empty_list(matched_without);
}

/// Where a filter matches only names that it got, no name that cannot name a
/// node is among the nodes to evaluate.
pub proof fn law_rejected_names_are_not_selected(
    all_nodes: Seq<Seq<char>>,
    accepted: spec_fn(Seq<char>) -> bool,
    matched: Seq<Seq<char>>,
    name: Seq<char>,
)
    requires
        matched.to_set().subset_of(all_nodes.filter(accepted).to_set()),
        !accepted(name),
    ensures
        filtered(all_nodes, matched) matches Ok(names) ==> !names.contains(name),
{
    let got = all_nodes.filter(accepted);
    if matched.contains(name) {
        assert(matched.to_set().contains(name));
        assert(got.to_set().contains(name));
        let i = choose|i: int| 0 <= i < got.len() && got[i] == name;
        all_nodes.lemma_filter_pred(accepted, i);
    }
}

/// A filter keeps a list of accepted names as it is.
proof fn lemma_filter_all(names: Seq<Seq<char>>, accepted: spec_fn(Seq<char>) -> bool)
    requires
        forall|i: int| 0 <= i < names.len() ==> accepted(#[trigger] names[i]),
    ensures
        names.filter(accepted) == names,
    decreases names.len(),
{
    reveal(Seq::filter);
    if names.len() > 0 {
        let front = names.drop_last();
        assert forall|i: int| 0 <= i < front.len() implies accepted(#[trigger] front[i]) by {
            assert(front[i] == names[i]);
        }
        lemma_filter_all(front, accepted);
        assert(accepted(names[names.len() - 1]));
        assert(front.push(names.last()) =~= names);
    } else {
        assert(names.filter(accepted) =~= names);
    }
}

/// A list is empty where it lists nothing.
proof fn lemma_empty_list(names: Seq<Seq<char>>)
    ensures
        names.len() == 0 <==> names.to_set() == Set::<Seq<char>>::empty(),
{
    if names.len() > 0 {
        assert(names.to_set().contains(names[0]));
    } else {
        assert(names.to_set() =~= Set::empty());
    }
}

} // verus!
