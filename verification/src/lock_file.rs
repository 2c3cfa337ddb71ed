//! Looking derivations up in a lock file, for fast deployments.

use vstd::prelude::*;

use crate::assemble;
use crate::error;
use crate::error::ColmenaError;
use crate::evaluate;
use crate::merge;
use crate::name_map::NameMap;
use crate::toml_lock;
use crate::toml_lock::TomlLockFile;

verus! {

/// Takes the lock file that was parsed from the file at `path`.
pub fn accept_lock_file(path: &str, parsed: Result<TomlLockFile, String>) -> (lock_file: Result<
    TomlLockFile,
    ColmenaError,
>)
    ensures
        match lock_file {
            Ok(lock_file) => parsed == Ok::<TomlLockFile, String>(lock_file),
            Err(e) => parsed is Err && e@ == "Failed to parse "@ + path@ + ": "@
                + parsed->Err_0@,
        },
{
    match parsed {
        Ok(lock_file) => Ok(lock_file),
        Err(message) => {
            let lead = "Failed to parse ".to_string().concat(path).concat(": ");
            Err(error::unknown_with(lead.as_str(), message.as_str()))
        },
    }
}

/// Whether `parse` may return `result` for the path `path`.
pub open spec fn may_return<D, E, F: Fn(&String) -> Result<D, E>>(
    parse: F,
    path: Seq<char>,
    result: Result<D, E>,
) -> bool {
    exists|text: &String| text@ == path && #[trigger] call_ensures(parse, (text,), result)
}

/// Whether the first `count` of `nodes` are in a lock file with paths of which
/// `parse` may make derivations.
pub open spec fn may_find<D, E, F: Fn(&String) -> Result<D, E>>(
    lock: Map<Seq<char>, toml_lock::NodeModel>,
    nodes: Seq<Seq<char>>,
    parse: F,
    count: int,
) -> bool {
    forall|i: int|
        0 <= i < count ==> lock.contains_key(#[trigger] nodes[i]) && exists|drv: D| #[trigger]
            may_return(parse, lock[nodes[i]].system_drv, Ok::<D, E>(drv))
}

/// Whether `parse` computes `parsed`.
pub open spec fn computes<D, E, F: Fn(&String) -> Result<D, E>>(
    parse: F,
    parsed: spec_fn(Seq<char>) -> Result<D, E>,
) -> bool {
    forall|path: &String, result: Result<D, E>| #[trigger]
        call_ensures(parse, (path,), result) ==> result == parsed(path@)
}

/// What looking up `nodes` one after the other gives, where `parsed` makes
/// derivations of paths: the derivations by name; nothing where a node is
/// missing; or the error of a path. The first node that is missing or has a
/// faulty path decides.
pub open spec fn looked_up<D, E>(
    lock: Map<Seq<char>, toml_lock::NodeModel>,
    nodes: Seq<Seq<char>>,
    parsed: spec_fn(Seq<char>) -> Result<D, E>,
) -> Result<Option<Map<Seq<char>, D>>, E>
    decreases nodes.len(),
{
    if nodes.len() == 0 {
        Ok(Some(Map::empty()))
    } else {
        match looked_up(lock, nodes.drop_last(), parsed) {
            Ok(Some(found)) => if lock.contains_key(nodes.last()) {
                match parsed(lock[nodes.last()].system_drv) {
                    Ok(drv) => Ok(Some(found.insert(nodes.last(), drv))),
                    Err(e) => Err(e),
                }
            } else {
                Ok(None)
            },
            decided => decided,
        }
    }
}

/// What loading a lock file gives: nothing where there is no lock file, else
/// what looking up `nodes` gives.
pub open spec fn loaded<D, E>(
    lock: Option<toml_lock::LockModel>,
    nodes: Seq<Seq<char>>,
    parsed: spec_fn(Seq<char>) -> Result<D, E>,
) -> Result<Option<Map<Seq<char>, D>>, E> {
    match lock {
        Some(lock) => looked_up(lock.nodes, nodes, parsed),
        None => Ok(None),
    }
}

/// Whether all of `nodes` are in a lock file.
pub open spec fn all_locked(
    lock: Map<Seq<char>, toml_lock::NodeModel>,
    nodes: Seq<Seq<char>>,
) -> bool {
    forall|i: int| 0 <= i < nodes.len() ==> lock.contains_key(#[trigger] nodes[i])
}

/// What a loaded result says.
pub open spec fn load_model<D, E>(result: Result<Option<NameMap<D>>, E>) -> Result<
    Option<Map<Seq<char>, D>>,
    E,
> {
    match result {
        Ok(Some(map)) => Ok(Some(map@)),
        Ok(None) => Ok(None),
        Err(e) => Err(e),
    }
}

/// A decision about the first nodes is a decision about all.
proof fn lemma_decided<D, E>(
    lock: Map<Seq<char>, toml_lock::NodeModel>,
    nodes: Seq<Seq<char>>,
    parsed: spec_fn(Seq<char>) -> Result<D, E>,
    n: int,
)
    requires
        0 <= n <= nodes.len(),
        !(looked_up(lock, nodes.take(n), parsed) matches Ok(Some(_))),
    ensures
        looked_up(lock, nodes, parsed) == looked_up(lock, nodes.take(n), parsed),
    decreases nodes.len(),
{
    if n == nodes.len() {
        assert(nodes.take(n) =~= nodes);
    } else {
        assert(nodes.drop_last().take(n) =~= nodes.take(n));
        lemma_decided(lock, nodes.drop_last(), parsed, n);
    }
}

/// Loads the derivations of `nodes` from a lock file, which is missing where
/// there is no such file. `parse` makes a derivation of the path to it.
pub fn load_lock_file<D, E, F: Fn(&String) -> Result<D, E>>(
    lock_file: Option<&TomlLockFile>,
    nodes: &[String],
    parse: F,
) -> (result: Result<Option<NameMap<D>>, E>)
    requires
        forall|path: &String| #[trigger] call_requires(parse, (path,)),
    ensures
        forall|parsed: spec_fn(Seq<char>) -> Result<D, E>| #[trigger]
            computes(parse, parsed) ==> load_model(result) == loaded(
                toml_lock::option_ref_model(lock_file),
                nodes.deep_view(),
                parsed,
            ),
        match result {
            Ok(Some(found)) => {
                &&& lock_file is Some
                &&& all_locked(lock_file->0@.nodes, nodes.deep_view())
                &&& found@.dom() == nodes.deep_view().to_set()
                &&& forall|name: Seq<char>| #[trigger]
                    found@.contains_key(name) ==> may_return(
                        parse,
                        lock_file->0@.nodes[name].system_drv,
                        Ok::<D, E>(found@[name]),
                    )
            },
            Ok(None) => lock_file is Some ==> exists|k: int|
                0 <= k < nodes.deep_view().len() && !lock_file->0@.nodes.contains_key(
                    #[trigger] nodes.deep_view()[k],
                ) && may_find(lock_file->0@.nodes, nodes.deep_view(), parse, k),
            Err(e) => lock_file is Some && exists|k: int|
                0 <= k < nodes.deep_view().len() && lock_file->0@.nodes.contains_key(
                    #[trigger] nodes.deep_view()[k],
                ) && may_return(
                    parse,
                    lock_file->0@.nodes[nodes.deep_view()[k]].system_drv,
                    Err::<D, E>(e),
                ) && may_find(lock_file->0@.nodes, nodes.deep_view(), parse, k),
        },
        lock_file is None ==> (result matches Ok(None)),
        lock_file matches Some(lock_file) ==> match result {
            Ok(Some(found)) => {
                &&& found@.dom() == nodes.deep_view().to_set()
                &&& forall|name: Seq<char>| #[trigger]
                    found@.contains_key(name) ==> lock_file.nodes@.contains_key(name) && exists|
                        path: &String,
                    |
                        path@ == lock_file.nodes@[name].system_drv@ && #[trigger] call_ensures(
                            parse,
                            (path,),
                            Ok::<D, E>(found@[name]),
                        )
            },
            Ok(None) => exists|k: int|
                0 <= k < nodes@.len() && !lock_file.nodes@.contains_key((#[trigger] nodes@[k])@),
            Err(e) => exists|k: int, path: &String|
                0 <= k < nodes@.len() && lock_file.nodes@.contains_key((#[trigger] nodes@[k])@)
                    && path@ == lock_file.nodes@[nodes@[k]@].system_drv@
                    && #[trigger] call_ensures(parse, (path,), Err::<D, E>(e)) && forall|j: int|
                    0 <= j < k ==> lock_file.nodes@.contains_key((#[trigger] nodes@[j])@),
        },
{
    let present = match lock_file {
        Some(lock_file) => lock_file,
        None => {
            return Ok(None);
        },
    };
    let ghost lock = present@.nodes;
    let ghost names = nodes.deep_view();
    let mut found: NameMap<D> = NameMap::new();
    let mut i: usize = 0;
    assert(names.take(0) =~= Seq::empty());
    assert(found@.dom() =~= names.take(0).to_set());
    while i < nodes.len()
        invariant
            i <= nodes@.len(),
            lock_file == Some(present),
            lock == present@.nodes,
            names == nodes.deep_view(),
            forall|path: &String| #[trigger] call_requires(parse, (path,)),
            forall|parsed: spec_fn(Seq<char>) -> Result<D, E>| #[trigger]
                computes(parse, parsed) ==> looked_up(lock, names.take(i as int), parsed) == Ok::<
                    Option<Map<Seq<char>, D>>,
                    E,
                >(Some(found@)),
            found@.dom() == names.take(i as int).to_set(),
            all_locked(lock, names.take(i as int)),
            forall|n: Seq<char>| #[trigger]
                found@.contains_key(n) ==> may_return(
                    parse,
                    lock[n].system_drv,
                    Ok::<D, E>(found@[n]),
                ),
            may_find(lock, names, parse, i as int),
        decreases nodes@.len() - i,
    {
        let name = &nodes[i];
        proof {
            assert(names.take(i + 1).drop_last() =~= names.take(i as int));
            assert(names.take(i + 1).last() == name@);
        }
        match present.nodes.get(name.as_str()) {
            Some(node) => {
                match parse(&node.system_drv) {
                    Ok(drv) => {
                        assert(may_return(
                            parse,
                            lock[names[i as int]].system_drv,
                            Ok::<D, E>(drv),
                        ));
                        found.insert(name.clone(), drv);
                        proof {
                            assert(names.take(i + 1) =~= names.take(i as int).push(name@));
                            assert forall|j: int|
                                0 <= j < i + 1 implies lock.contains_key(
                                #[trigger] names.take(i + 1)[j],
                            ) by {
                                if j < i {
                                    assert(names.take(i + 1)[j] == names.take(i as int)[j]);
                                }
                            }
                            names.take(i as int).lemma_push_to_set_commute(name@);
                        }
                    },
                    Err(e) => {
                        assert forall|parsed: spec_fn(Seq<char>) -> Result<D, E>| #[trigger]
                            computes(parse, parsed) implies looked_up(lock, names, parsed)
                            == Err::<Option<Map<Seq<char>, D>>, E>(e) by {
                            lemma_decided(lock, names, parsed, i + 1);
                        }
                        assert(lock_file->0.nodes@.contains_key(nodes@[i as int]@));
                        assert(call_ensures(parse, (&node.system_drv,), Err::<D, E>(e)));
                        assert forall|j: int| 0 <= j < i implies lock_file->0.nodes@.contains_key(
                            (#[trigger] nodes@[j])@,
                        ) by {
                            assert(lock.contains_key(names.take(i as int)[j]));
                        }
                        return Err(e);
                    },
                }
            },
            None => {
                assert(!lock_file->0.nodes@.contains_key(nodes@[i as int]@));
                assert forall|parsed: spec_fn(Seq<char>) -> Result<D, E>| #[trigger]
                    computes(parse, parsed) implies looked_up(lock, names, parsed) == Ok::<
                    Option<Map<Seq<char>, D>>,
                    E,
                >(None) by {
                    lemma_decided(lock, names, parsed, i + 1);
                }
                assert(!lock.contains_key(names[i as int]));
                return Ok(None);
            },
        }
        i += 1;
    }
    assert(names.take(names.len() as int) =~= names);
    Ok(Some(found))
}

/// A lock file that has all of `nodes`, with paths that can be parsed, gives
/// for each of them the derivation at its path, and nothing else.
pub proof fn law_load_complete<D, E>(
    lock: toml_lock::LockModel,
    nodes: Seq<Seq<char>>,
    parsed: spec_fn(Seq<char>) -> Result<D, E>,
)
    requires
        all_locked(lock.nodes, nodes),
        forall|i: int|
            0 <= i < nodes.len() ==> parsed(lock.nodes[#[trigger] nodes[i]].system_drv) is Ok,
    ensures
        loaded(Some(lock), nodes, parsed) matches Ok(Some(found)) && found.dom() == nodes.to_set()
            && forall|i: int|
            0 <= i < nodes.len() ==> parsed(lock.nodes[#[trigger] nodes[i]].system_drv) == Ok::<
                D,
                E,
            >(found[nodes[i]]),
    decreases nodes.len(),
{
    if nodes.len() == 0 {
        assert(Map::<Seq<char>, D>::empty().dom() =~= nodes.to_set());
    } else {
        let front = nodes.drop_last();
        let last = nodes.last();
        assert forall|i: int| 0 <= i < front.len() implies lock.nodes.contains_key(
            #[trigger] front[i],
        ) && parsed(lock.nodes[front[i]].system_drv) is Ok by {
            assert(front[i] == nodes[i]);
        }
        law_load_complete(lock, front, parsed);
        assert(nodes[nodes.len() - 1] == last);
        let before = loaded(Some(lock), front, parsed)->Ok_0->0;
        let found = loaded(Some(lock), nodes, parsed)->Ok_0->0;
        assert(nodes =~= front.push(last));
        front.lemma_push_to_set_commute(last);
        assert(found == before.insert(last, parsed(lock.nodes[last].system_drv)->Ok_0));
        assert forall|i: int| 0 <= i < nodes.len() implies parsed(
            lock.nodes[#[trigger] nodes[i]].system_drv,
        ) == Ok::<D, E>(found[nodes[i]]) by {
            if i < front.len() && nodes[i] != last {
                assert(front[i] == nodes[i]);
            }
        }
    }
}

/// Nothing is loaded where a node is missing from the lock file, unless a node
/// before it has a faulty path.
pub proof fn law_load_missing<D, E>(
    lock: toml_lock::LockModel,
    nodes: Seq<Seq<char>>,
    parsed: spec_fn(Seq<char>) -> Result<D, E>,
    k: int,
)
    requires
        0 <= k < nodes.len(),
        !lock.nodes.contains_key(nodes[k]),
        forall|i: int|
            0 <= i < k ==> lock.nodes.contains_key(#[trigger] nodes[i]) && parsed(
                lock.nodes[nodes[i]].system_drv,
            ) is Ok,
    ensures
        loaded(Some(lock), nodes, parsed) == Ok::<Option<Map<Seq<char>, D>>, E>(None),
{
    lemma_first_nodes(lock, nodes, parsed, k);
    assert(nodes.take(k + 1).drop_last() =~= nodes.take(k));
    lemma_decided(lock.nodes, nodes, parsed, k + 1);
}

/// The first faulty path is the error, unless a node before it is missing.
pub proof fn law_load_faulty<D, E>(
    lock: toml_lock::LockModel,
    nodes: Seq<Seq<char>>,
    parsed: spec_fn(Seq<char>) -> Result<D, E>,
    k: int,
    fault: E,
)
    requires
        0 <= k < nodes.len(),
        lock.nodes.contains_key(nodes[k]),
        parsed(lock.nodes[nodes[k]].system_drv) == Err::<D, E>(fault),
        forall|i: int|
            0 <= i < k ==> lock.nodes.contains_key(#[trigger] nodes[i]) && parsed(
                lock.nodes[nodes[i]].system_drv,
            ) is Ok,
    ensures
        loaded(Some(lock), nodes, parsed) == Err::<Option<Map<Seq<char>, D>>, E>(fault),
{
    lemma_first_nodes(lock, nodes, parsed, k);
    assert(nodes.take(k + 1).drop_last() =~= nodes.take(k));
    lemma_decided(lock.nodes, nodes, parsed, k + 1);
}

/// Nothing is loaded where there is no lock file.
pub proof fn law_load_nothing<D, E>(
    nodes: Seq<Seq<char>>,
    parsed: spec_fn(Seq<char>) -> Result<D, E>,
)
    ensures
        loaded(None, nodes, parsed) == Ok::<Option<Map<Seq<char>, D>>, E>(None),
{
}

proof fn lemma_first_nodes<D, E>(
    lock: toml_lock::LockModel,
    nodes: Seq<Seq<char>>,
    parsed: spec_fn(Seq<char>) -> Result<D, E>,
    k: int,
)
    requires
        0 <= k < nodes.len(),
        forall|i: int|
            0 <= i < k ==> lock.nodes.contains_key(#[trigger] nodes[i]) && parsed(
                lock.nodes[nodes[i]].system_drv,
            ) is Ok,
    ensures
        looked_up(lock.nodes, nodes.take(k), parsed) matches Ok(Some(_)),
{
    let first = nodes.take(k);
    assert forall|i: int| 0 <= i < first.len() implies lock.nodes.contains_key(
        #[trigger] first[i],
    ) && parsed(lock.nodes[first[i]].system_drv) is Ok by {
        assert(first[i] == nodes[i]);
    }
    law_load_complete(lock, first, parsed);
}

/// What the generator wrote is found again: from a built lock file, each node
/// that was evaluated is loaded with the derivation of its last evaluation.
pub proof fn law_load_after_build<D, E>(
    results: Seq<evaluate::EvaluationModel>,
    deployments: Map<Seq<char>, toml_lock::DeploymentModel>,
    flake_lock_hash: Seq<char>,
    generated_at: Seq<char>,
    generator_version: Seq<char>,
    nodes: Seq<Seq<char>>,
    parsed: spec_fn(Seq<char>) -> Result<D, E>,
)
    requires
        forall|k: int|
            0 <= k < nodes.len() ==> exists|i: int|
                0 <= i < results.len() && (#[trigger] results[i]).node_name == #[trigger] nodes[k],
        forall|i: int| 0 <= i < results.len() ==> parsed((#[trigger] results[i]).drv_path) is Ok,
    ensures
        ({
            let lock = assemble::assembled(
                results,
                deployments,
                flake_lock_hash,
                generated_at,
                generator_version,
            );
            loaded(Some(lock), nodes, parsed) matches Ok(Some(found)) && found.dom()
                == nodes.to_set() && forall|i: int|
                #![trigger results[i]]
                0 <= i < results.len() && nodes.contains(results[i].node_name) && (forall|j: int|
                    i < j < results.len() ==> (#[trigger] results[j]).node_name
                        != results[i].node_name) ==> parsed(results[i].drv_path) == Ok::<D, E>(
                    found[results[i].node_name],
                )
        }),
{
    let lock = assemble::assembled(
        results,
        deployments,
        flake_lock_hash,
        generated_at,
        generator_version,
    );
    assert forall|k: int| 0 <= k < nodes.len() implies lock.nodes.contains_key(#[trigger] nodes[k])
        && parsed(lock.nodes[nodes[k]].system_drv) is Ok by {
        let i0 = choose|i: int|
            0 <= i < results.len() && (#[trigger] results[i]).node_name == nodes[k];
        let i = last_result(results, nodes[k], i0);
        lemma_last_result(results, nodes[k], i0);
        assemble::law_built_node(results, deployments, i);
    }
    law_load_complete(lock, nodes, parsed);
    let found = loaded(Some(lock), nodes, parsed)->Ok_0->0;
    assert forall|i: int|
        #![trigger results[i]]
        0 <= i < results.len() && nodes.contains(results[i].node_name) && (forall|j: int|
            i < j < results.len() ==> (#[trigger] results[j]).node_name
                != results[i].node_name) implies parsed(results[i].drv_path) == Ok::<D, E>(
        found[results[i].node_name],
    ) by {
        assemble::law_built_node(results, deployments, i);
        let k = choose|k: int| 0 <= k < nodes.len() && nodes[k] == results[i].node_name;
        assert(nodes[k] == results[i].node_name);
    }
}

/// The place of the last result for `name` at or behind `i`, where the result
/// at `i` is for `name`.
spec fn last_result(results: Seq<evaluate::EvaluationModel>, name: Seq<char>, i: int) -> int
    decreases results.len() - i,
{
    if exists|j: int| i < j < results.len() && (#[trigger] results[j]).node_name == name {
        let j = choose|j: int| i < j < results.len() && (#[trigger] results[j]).node_name == name;
        last_result(results, name, j)
    } else {
        i
    }
}

proof fn lemma_last_result(results: Seq<evaluate::EvaluationModel>, name: Seq<char>, i: int)
    requires
        0 <= i < results.len(),
        results[i].node_name == name,
    ensures
        i <= last_result(results, name, i) < results.len(),
        results[last_result(results, name, i)].node_name == name,
        forall|j: int|
            last_result(results, name, i) < j < results.len() ==> (#[trigger] results[j]).node_name
                != name,
    decreases results.len() - i,
{
    if exists|j: int| i < j < results.len() && (#[trigger] results[j]).node_name == name {
        let j = choose|j: int| i < j < results.len() && (#[trigger] results[j]).node_name == name;
        lemma_last_result(results, name, j);
    }
}

/// Merging with a template changes nothing of what is loaded.
pub proof fn law_load_after_merge<D, E>(
    generated: toml_lock::LockModel,
    template: toml_lock::LockModel,
    nodes: Seq<Seq<char>>,
    parsed: spec_fn(Seq<char>) -> Result<D, E>,
)
    ensures
        loaded(Some(merge::merged(generated, template)), nodes, parsed) == loaded(
            Some(generated),
            nodes,
            parsed,
        ),
    decreases nodes.len(),
{
    if nodes.len() > 0 {
        law_load_after_merge(generated, template, nodes.drop_last(), parsed);
        merge::law_merge_keeps_nodes(generated, template, nodes.last());
        assert(merge::merged(generated, template).nodes.dom().contains(nodes.last())
            == generated.nodes.dom().contains(nodes.last()));
    }
}

} // verus!
