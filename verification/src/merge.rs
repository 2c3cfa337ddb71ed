//! Merging a lock file with a template, and the text of a lock file.

use vstd::prelude::*;

use crate::error;
use crate::error::ColmenaError;
use crate::name_map;
use crate::toml_lock;
use crate::toml_lock::TomlLockFile;
use crate::toml_lock::TomlNode;

verus! {

/// The permissions of a lock file: its owner may write it, all may read it.
pub const LOCK_FILE_MODE: u32 = 0o644;

/// `preferred` where it is there, else `other`.
pub open spec fn prefer<T>(preferred: Option<T>, other: Option<T>) -> Option<T> {
    match preferred {
        Some(_) => preferred,
        None => other,
    }
}

/// The node `node` with the deployment that the template has under `name`,
/// where it has one.
pub open spec fn merged_node(
    node: toml_lock::NodeModel,
    name: Seq<char>,
    template: Map<Seq<char>, toml_lock::NodeModel>,
) -> toml_lock::NodeModel {
    toml_lock::NodeModel {
        deployment: if template.contains_key(name) {
            prefer(template[name].deployment, node.deployment)
        } else {
            node.deployment
        },
        ..node
    }
}

/// The nodes of a lock file with the deployments of a template.
pub open spec fn merged_nodes(
    nodes: Map<Seq<char>, toml_lock::NodeModel>,
    template: Map<Seq<char>, toml_lock::NodeModel>,
) -> Map<Seq<char>, toml_lock::NodeModel> {
    nodes.map_entries(
        |name: Seq<char>, node: toml_lock::NodeModel| merged_node(node, name, template),
    )
}

/// A lock file merged with a template. The template decides what it states of
/// `allow_apply_all`, of the defaults, and of the deployments of nodes that the
/// lock file has; all else stays.
pub open spec fn merged(
    generated: toml_lock::LockModel,
    template: toml_lock::LockModel,
) -> toml_lock::LockModel {
    toml_lock::LockModel {
        meta: toml_lock::MetaModel {
            allow_apply_all: prefer(template.meta.allow_apply_all, generated.meta.allow_apply_all),
            ..generated.meta
        },
        defaults: prefer(template.defaults, generated.defaults),
        nodes: merged_nodes(generated.nodes, template.nodes),
        ..generated
    }
}

/// Merges a lock file with a template.
pub fn merge_with_template(generated: TomlLockFile, template: TomlLockFile) -> (lock_file:
    TomlLockFile)
    ensures
        lock_file@ == merged(generated@, template@),
        lock_file.schema_version@ == generated.schema_version@,
        lock_file.meta.generated_from@ == generated.meta.generated_from@,
        lock_file.meta.generated_at@ == generated.meta.generated_at@,
        lock_file.meta.flake_lock_hash@ == generated.meta.flake_lock_hash@,
        lock_file.meta.generator_version@ == generated.meta.generator_version@,
        template.meta.allow_apply_all is None ==> lock_file.meta.allow_apply_all
            == generated.meta.allow_apply_all,
        template.meta.allow_apply_all is Some ==> lock_file.meta.allow_apply_all
            == template.meta.allow_apply_all,
        template.defaults is None ==> lock_file.defaults == generated.defaults,
        template.defaults is Some ==> lock_file.defaults == template.defaults,
{
    let ghost given = generated@;
    let mut generated = generated;
    if let Some(allow_apply_all) = template.meta.allow_apply_all {
        generated.meta.allow_apply_all = Some(allow_apply_all);
    }
    if template.defaults.is_some() {
        generated.defaults = template.defaults;
    }
    let ghost meta = generated.meta@;
    let ghost defaults = generated.defaults;
    let ghost version = generated.schema_version@;
    let entries = template.nodes.into_entries();
    let ghost all = entries@;
    assert(merged_nodes(given.nodes, toml_lock::map_model(name_map::entries_map(all.take(0))))
        =~= given.nodes);
    for entry in rest: entries
        invariant
            all == entries@,
            rest.seq() == all,
            name_map::distinct_names(all),
            generated.meta@ == meta,
            generated.defaults == defaults,
            generated.schema_version@ == version,
            generated@.nodes == merged_nodes(
                given.nodes,
                toml_lock::map_model(name_map::entries_map(all.take(rest.index() as int))),
            ),
    {
        let ghost k = rest.index() as int;
        let ghost before = generated@.nodes;
        let ghost seen = toml_lock::map_model(name_map::entries_map(all.take(k)));
        let ghost next = toml_lock::map_model(name_map::entries_map(all.take(k + 1)));
        let (name, template_node) = entry;
        let ghost at = name@;
        proof {
            assert(all.take(k + 1).drop_last() =~= all.take(k));
            assert(all.take(k + 1).last() == entry);
            assert(next =~= seen.insert(name@, template_node@));
            lemma_name_not_seen(all, k);
        }
        if template_node.deployment.is_some() {
            if let Some(node) = generated.nodes.remove(name.as_str()) {
                let mut node = node;
                node.deployment = template_node.deployment;
                generated.nodes.insert(name, node);
            }
        }
        proof {
            let after = generated@.nodes;
            let goal = merged_nodes(given.nodes, next);
            assert forall|n: Seq<char>| #[trigger] after.contains_key(n) == goal.contains_key(n) by {
                assert(before.contains_key(n) == given.nodes.contains_key(n));
            }
            assert forall|n: Seq<char>| #[trigger] after.contains_key(n) implies after[n]
                == goal[n] by {
                assert(before[n] == merged_node(given.nodes[n], n, seen));
                assert(goal[n] == merged_node(given.nodes[n], n, next));
                if n != at {
                    assert(next.contains_key(n) == seen.contains_key(n));
                    assert(after[n] == before[n]);
                }
            }
            assert(after =~= goal);
        }
    }
    assert(all.take(all.len() as int) =~= all);
    generated
}

/// Among entries of distinct names, an entry's name does not stand before it.
proof fn lemma_name_not_seen(entries: Seq<(String, TomlNode)>, k: int)
    requires
        name_map::distinct_names(entries),
        0 <= k < entries.len(),
    ensures
        !toml_lock::map_model(name_map::entries_map(entries.take(k))).contains_key(
            entries[k].0@,
        ),
{
    let front = entries.take(k);
    name_map::lemma_distinct_prefix(entries, k);
    name_map::lemma_entries_map(front);
    if name_map::entries_map(front).contains_key(entries[k].0@) {
        let i = choose|i: int|
            0 <= i < front.len() && (#[trigger] front[i]).0@ == entries[k].0@;
        assert(front[i] == entries[i]);
    }
}

/// Merging keeps the nodes of a lock file: it adds none and drops none, and it
/// changes nothing of a node but its deployment.
pub proof fn law_merge_keeps_nodes(
    generated: toml_lock::LockModel,
    template: toml_lock::LockModel,
    name: Seq<char>,
)
    ensures
        merged(generated, template).nodes.dom() == generated.nodes.dom(),
        generated.nodes.contains_key(name) ==> {
            let before = generated.nodes[name];
            let after = merged(generated, template).nodes[name];
            &&& after.system_drv == before.system_drv
            &&& after.system_config == before.system_config
            &&& after.flake_attr == before.flake_attr
        },
{
    assert(merged(generated, template).nodes.dom() =~= generated.nodes.dom());
}

/// Merging keeps the schema version of a lock file and where it comes from.
pub proof fn law_merge_keeps_origin(
    generated: toml_lock::LockModel,
    template: toml_lock::LockModel,
)
    ensures
        merged(generated, template).schema_version == generated.schema_version,
        merged(generated, template).meta == (toml_lock::MetaModel {
            allow_apply_all: merged(generated, template).meta.allow_apply_all,
            ..generated.meta
        }),
{
}

/// Merging with the same template again changes nothing.
pub proof fn law_merge_twice(generated: toml_lock::LockModel, template: toml_lock::LockModel)
    ensures
        merged(merged(generated, template), template) == merged(generated, template),
{
    let once = merged(generated, template);
    assert(merged(once, template).nodes =~= once.nodes);
}

/// A template that states nothing changes nothing.
pub proof fn law_merge_with_silent_template(
    generated: toml_lock::LockModel,
    template: toml_lock::LockModel,
)
    requires
        template.meta.allow_apply_all is None,
        template.defaults is None,
        forall|name: Seq<char>| #[trigger]
            template.nodes.contains_key(name) ==> template.nodes[name].deployment is None,
    ensures
        merged(generated, template) == generated,
{
    assert(merged_nodes(generated.nodes, template.nodes) =~= generated.nodes);
}

/// The template is preferred: what it states holds in the merged lock file,
/// whatever the lock file stated.
pub proof fn law_merge_prefers_template(
    generated: toml_lock::LockModel,
    template: toml_lock::LockModel,
    name: Seq<char>,
)
    ensures
        template.meta.allow_apply_all is Some ==> merged(generated, template).meta.allow_apply_all
            == template.meta.allow_apply_all,
        template.defaults is Some ==> merged(generated, template).defaults == template.defaults,
        generated.nodes.contains_key(name) && template.nodes.contains_key(name)
            && template.nodes[name].deployment is Some ==> merged(
            generated,
            template,
        ).nodes[name].deployment == template.nodes[name].deployment,
{
}

/// What the template does not state stays as it was generated, whatever else
/// the template states: `allow_apply_all`, the defaults, and the deployment of
/// each node.
pub proof fn law_merge_keeps_unstated(
    generated: toml_lock::LockModel,
    template: toml_lock::LockModel,
    name: Seq<char>,
)
    ensures
        template.meta.allow_apply_all is None ==> merged(generated, template).meta.allow_apply_all
            == generated.meta.allow_apply_all,
        template.defaults is None ==> merged(generated, template).defaults == generated.defaults,
        generated.nodes.contains_key(name) && (!template.nodes.contains_key(name)
            || template.nodes[name].deployment is None) ==> merged(
            generated,
            template,
        ).nodes[name] == generated.nodes[name],
        !generated.nodes.contains_key(name) ==> !merged(generated, template).nodes.contains_key(
            name,
        ),
{
}

/// Of two templates that state the same, merging makes the same: nothing of a
/// template counts but `allow_apply_all`, the defaults, and the deployments of
/// nodes that the lock file has.
pub proof fn law_merge_reads_preferences_only(
    generated: toml_lock::LockModel,
    a: toml_lock::LockModel,
    b: toml_lock::LockModel,
)
    requires
        a.meta.allow_apply_all == b.meta.allow_apply_all,
        a.defaults == b.defaults,
        forall|name: Seq<char>| #[trigger]
            generated.nodes.contains_key(name) ==> (a.nodes.contains_key(name)
                && a.nodes[name].deployment is Some <==> b.nodes.contains_key(name)
                && b.nodes[name].deployment is Some) && (a.nodes.contains_key(name)
                && b.nodes.contains_key(name) ==> a.nodes[name].deployment
                == b.nodes[name].deployment),
    ensures
        merged(generated, a) == merged(generated, b),
{
    let left = merged(generated, a).nodes;
    let right = merged(generated, b).nodes;
    assert forall|name: Seq<char>| #[trigger] left.contains_key(name) implies left[name]
        == right[name] by {
        assert(generated.nodes.contains_key(name));
    }
    assert(left =~= right);
}

/// What an encoding of a lock file gives: the header and the encoding, or the
/// error of one that failed.
pub open spec fn serialized(
    lock_file: toml_lock::LockModel,
    encoded: Result<Seq<char>, Seq<char>>,
) -> Result<Seq<char>, Seq<char>> {
    match encoded {
        Ok(content) => Ok(toml_lock::header_text(lock_file.meta) + content),
        Err(message) => Err("Failed to serialize TOML: "@ + message),
    }
}

/// Writes the text of a lock file from its encoding as TOML.
pub fn serialize_lock_file(lock_file: &TomlLockFile, encoded: Result<String, String>) -> (content:
    Result<String, ColmenaError>)
    ensures
        error::outcome(content) == serialized(lock_file@, error::parse_model(encoded)),
        match encoded {
            Ok(toml) => content matches Ok(content) && content@ == toml_lock::header_text(
                lock_file.meta@,
            ) + toml@,
            Err(message) => content matches Err(e) && e@ == "Failed to serialize TOML: "@
                + message@,
        },
{
    match encoded {
        Ok(toml) => Ok(lock_file.header_comment().concat(toml.as_str())),
        Err(message) => Err(error::unknown_with("Failed to serialize TOML: ", message.as_str())),
    }
}

} // verus!
