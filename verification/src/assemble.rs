//! Building a lock file from evaluated nodes.

use vstd::prelude::*;

use crate::command::CommandOutput;
use crate::error;
use crate::error::ColmenaError;
use crate::evaluate;
use crate::evaluate::EvaluationResult;
use crate::name_map::NameMap;
use crate::outside;
use crate::toml_lock;
use crate::toml_lock::TomlDeployment;
use crate::toml_lock::TomlLockFile;
use crate::toml_lock::TomlNode;

verus! {

/// The lower case hexadecimal digit with value `d`.
pub open spec fn hex_digit(d: int) -> char {
    "0123456789abcdef"@[d]
}

/// `bytes` in hexadecimal, two digits for each byte.
pub open spec fn hex(bytes: Seq<u8>) -> Seq<char>
    decreases bytes.len(),
{
    if bytes.len() == 0 {
        Seq::empty()
    } else {
        hex(bytes.drop_last()) + seq![
            hex_digit(bytes.last() as int / 16),
            hex_digit(bytes.last() as int % 16),
        ]
    }
}

/// Hexadecimal text has two characters for each byte, all of them lower case
/// hexadecimal digits.
pub proof fn law_hex_digits(bytes: Seq<u8>)
    ensures
        hex(bytes).len() == 2 * bytes.len(),
        forall|i: int|
            0 <= i < hex(bytes).len() ==> "0123456789abcdef"@.contains(#[trigger] hex(bytes)[i]),
    decreases bytes.len(),
{
    if bytes.len() > 0 {
        law_hex_digits(bytes.drop_last());
        reveal_strlit("0123456789abcdef");
        let front = hex(bytes.drop_last());
        assert forall|i: int| 0 <= i < hex(bytes).len() implies "0123456789abcdef"@.contains(
            #[trigger] hex(bytes)[i],
        ) by {
            if i < front.len() {
                assert(hex(bytes)[i] == front[i]);
            } else {
                let d = if i == front.len() {
                    bytes.last() as int / 16
                } else {
                    bytes.last() as int % 16
                };
                assert(hex(bytes)[i] == "0123456789abcdef"@[d]);
            }
        }
    }
}

/// The value of a lower case hexadecimal digit.
pub open spec fn hex_value(c: char) -> int {
    if '0' <= c <= '9' {
        c as int - '0' as int
    } else {
        c as int - 'a' as int + 10
    }
}

/// Hexadecimal text is read back pair by pair: each pair of digits has the
/// value of its byte.
pub proof fn law_hex_pairs(bytes: Seq<u8>)
    ensures
        forall|i: int|
            #![trigger bytes[i]]
            0 <= i < bytes.len() ==> hex_value(hex(bytes)[2 * i]) * 16 + hex_value(
                hex(bytes)[2 * i + 1],
            ) == bytes[i],
    decreases bytes.len(),
{
    if bytes.len() > 0 {
        let front = bytes.drop_last();
        law_hex_pairs(front);
        law_hex_digits(front);
        reveal_strlit("0123456789abcdef");
        assert forall|i: int|
            #![trigger bytes[i]]
            0 <= i < bytes.len() implies hex_value(hex(bytes)[2 * i]) * 16 + hex_value(
            hex(bytes)[2 * i + 1],
        ) == bytes[i] by {
            if i < front.len() {
                assert(front[i] == bytes[i]);
                assert(hex(bytes)[2 * i] == hex(front)[2 * i]);
                assert(hex(bytes)[2 * i + 1] == hex(front)[2 * i + 1]);
            } else {
                let high = bytes[i] as int / 16;
                let low = bytes[i] as int % 16;
                assert(hex(bytes)[2 * i] == hex_digit(high));
                assert(hex(bytes)[2 * i + 1] == hex_digit(low));
                assert(hex_value(hex_digit(high)) == high);
                assert(hex_value(hex_digit(low)) == low);
            }
        }
    }
}

/// Writes `bytes` in hexadecimal.
pub fn hex_text(bytes: &[u8]) -> (text: String)
    ensures
        text@ == hex(bytes@),
{
    let mut text = String::new();
    let mut i: usize = 0;
    assert(bytes@.take(0) =~= Seq::empty());
    proof {
        reveal_strlit("0123456789abcdef");
    }
    while i < bytes.len()
        invariant
            i <= bytes@.len(),
            text@ == hex(bytes@.take(i as int)),
            "0123456789abcdef"@.len() == 16,
            "0123456789abcdef".is_ascii(),
        decreases bytes@.len() - i,
    {
        let byte = bytes[i];
        let high: usize = (byte / 16) as usize;
        let low: usize = (byte % 16) as usize;
        let ghost before = text@;
        text.append("0123456789abcdef".substring_ascii(high, high + 1));
        text.append("0123456789abcdef".substring_ascii(low, low + 1));
        proof {
            let next = bytes@.take(i + 1);
            assert(next.drop_last() =~= bytes@.take(i as int));
            assert(text@ =~= before + seq![hex_digit(high as int), hex_digit(low as int)]);
        }
        i += 1;
    }
    assert(bytes@.take(bytes@.len() as int) =~= bytes@);
    text
}

/// The hash that a lock file holds of the contents of `flake.lock`.
pub open spec fn hash_text(contents: Seq<u8>) -> Seq<char> {
    "sha256:"@ + hex(outside::sha256(contents))
}

/// Behind its prefix, the hash is the SHA-256 digest of all of `contents`: each
/// pair of its digits has the value of a byte of the digest, and there are no
/// digits but these.
pub proof fn law_hash_text(contents: Seq<u8>)
    ensures
        "sha256:"@.is_prefix_of(hash_text(contents)),
        hash_text(contents).len() == 7 + 2 * outside::sha256(contents).len(),
        forall|i: int|
            #![trigger outside::sha256(contents)[i]]
            0 <= i < outside::sha256(contents).len() ==> hex_value(hash_text(contents)[7 + 2 * i])
                * 16 + hex_value(hash_text(contents)[8 + 2 * i]) == outside::sha256(contents)[i],
        forall|k: int|
            7 <= k < hash_text(contents).len() ==> "0123456789abcdef"@.contains(
                #[trigger] hash_text(contents)[k],
            ),
{
    reveal_strlit("sha256:");
    let digest = outside::sha256(contents);
    law_hex_digits(digest);
    law_hex_pairs(digest);
    let text = hash_text(contents);
    assert(text.subrange(0, 7) =~= "sha256:"@);
    assert forall|i: int| #![trigger digest[i]] 0 <= i < digest.len() implies hex_value(
        text[7 + 2 * i],
    ) * 16 + hex_value(text[8 + 2 * i]) == digest[i] by {
        assert(text[7 + 2 * i] == hex(digest)[2 * i]);
        assert(text[8 + 2 * i] == hex(digest)[2 * i + 1]);
    }
    assert forall|k: int| 7 <= k < text.len() implies "0123456789abcdef"@.contains(
        #[trigger] text[k],
    ) by {
        assert(text[k] == hex(digest)[k - 7]);
    }
}

/// Hashes the contents of `flake.lock`, which are missing where there is no
/// such file. The hash has 64 digits behind its prefix of seven characters.
pub fn hash_flake_lock(contents: Option<Vec<u8>>) -> (hash: Result<String, ColmenaError>)
    ensures
        error::outcome(hash) == match contents {
            Some(contents) => Ok(hash_text(contents@)),
            None => Err("flake.lock not found in current directory"@),
        },
        hash matches Ok(text) ==> text@.len() == 71,
        hash is Ok <==> contents is Some,
        hash matches Ok(text) ==> "sha256:"@.is_prefix_of(text@) && forall|i: int|
            #![trigger outside::sha256(contents->0@)[i]]
            0 <= i < 32 ==> hex_value(text@[7 + 2 * i]) * 16 + hex_value(text@[8 + 2 * i])
                == outside::sha256(contents->0@)[i],
{
    match contents {
        Some(contents) => {
            let digest = outside::sha256_digest(contents.as_slice());
            let digits = hex_text(digest.as_slice());
            proof {
                law_hex_digits(digest@);
                law_hash_text(contents@);
                reveal_strlit("sha256:");
            }
            Ok("sha256:".to_string().concat(digits.as_str()))
        },
        None => Err(error::unknown("flake.lock not found in current directory")),
    }
}

/// Tells from the output of the command that evaluates the `colmena` output of
/// a flake whether the flake has one: the command succeeds where it does.
pub fn check_colmena_output(output: &CommandOutput) -> (has_colmena: bool)
    ensures
        has_colmena == output.success,
{
    output.success
}

/// Extracts the deployment metadata of a node from the `colmena` output.
/// Deployment metadata is optional, and none is extracted.
pub fn extract_deployment_metadata() -> (extracted: Result<Option<TomlDeployment>, ColmenaError>)
    ensures
        extracted matches Ok(None),
{
    Ok(None)
}

/// The line that says where the deployment of a node was found.
pub open spec fn deployment_line(node_name: Seq<char>) -> Seq<char> {
    "  ├─ "@ + node_name + ": found in colmena output"@
}

/// Notes the deployment that was extracted for a node, where there is one.
pub fn record_deployment(
    deployments: &mut NameMap<TomlDeployment>,
    lines: &mut Vec<String>,
    node_name: &str,
    extracted: Option<TomlDeployment>,
)
    ensures
        match extracted {
            Some(deployment) => {
                &&& final(deployments)@ == old(deployments)@.insert(node_name@, deployment)
                &&& final(lines).deep_view() == old(lines).deep_view().push(deployment_line(node_name@))
            },
            None => {
                &&& final(deployments)@ == old(deployments)@
                &&& final(lines).deep_view() == old(lines).deep_view()
            },
        },
{
    if let Some(deployment) = extracted {
        deployments.insert(node_name.to_string(), deployment);
        let line = "  ├─ ".to_string().concat(node_name).concat(": found in colmena output");
        lines.push(line);
        assert(lines.deep_view() =~= old(lines).deep_view().push(deployment_line(node_name@)));
    }
}

/// Gathers the deployments of `node_names`, and a line for each, from a flake
/// of which `has_colmena` says whether it has a `colmena` output.
pub fn gather_deployments(node_names: &[String], has_colmena: bool) -> (gathered: Result<
    (NameMap<TomlDeployment>, Vec<String>),
    ColmenaError,
>)
    ensures
        gathered matches Ok((deployments, lines)) && deployments@ == Map::<
            Seq<char>,
            TomlDeployment,
        >::empty() && lines.deep_view() == Seq::<Seq<char>>::empty(),
{
    let mut deployments: NameMap<TomlDeployment> = NameMap::new();
    let mut lines: Vec<String> = Vec::new();
    assert(lines.deep_view() =~= Seq::empty());
    if has_colmena {
        let mut i: usize = 0;
        while i < node_names.len()
            invariant
                i <= node_names@.len(),
                deployments@ == Map::<Seq<char>, TomlDeployment>::empty(),
                lines.deep_view() == Seq::<Seq<char>>::empty(),
            decreases node_names@.len() - i,
        {
            match extract_deployment_metadata() {
                Ok(extracted) => record_deployment(
                    &mut deployments,
                    &mut lines,
                    node_names[i].as_str(),
                    extracted,
                ),
                Err(e) => {
                    return Err(e);
                },
            }
            i += 1;
        }
    }
    Ok((deployments, lines))
}

/// The entry of an evaluated node.
pub open spec fn built_node(
    result: evaluate::EvaluationModel,
    deployments: Map<Seq<char>, toml_lock::DeploymentModel>,
) -> toml_lock::NodeModel {
    toml_lock::NodeModel {
        system_drv: result.drv_path,
        system_config: result.system_path,
        flake_attr: "nixosConfigurations."@ + result.node_name,
        deployment: if deployments.contains_key(result.node_name) {
            Some(deployments[result.node_name])
        } else {
            None
        },
    }
}

/// The entries of evaluated nodes, where a later result for a name replaces an
/// earlier one.
pub open spec fn built_nodes(
    results: Seq<evaluate::EvaluationModel>,
    deployments: Map<Seq<char>, toml_lock::DeploymentModel>,
) -> Map<Seq<char>, toml_lock::NodeModel>
    decreases results.len(),
{
    if results.len() == 0 {
        Map::empty()
    } else {
        built_nodes(results.drop_last(), deployments).insert(
            results.last().node_name,
            built_node(results.last(), deployments),
        )
    }
}

/// The lock file of evaluated nodes.
pub open spec fn assembled(
    results: Seq<evaluate::EvaluationModel>,
    deployments: Map<Seq<char>, toml_lock::DeploymentModel>,
    flake_lock_hash: Seq<char>,
    generated_at: Seq<char>,
    generator_version: Seq<char>,
) -> toml_lock::LockModel {
    toml_lock::LockModel {
        nodes: built_nodes(results, deployments),
        ..toml_lock::new_lock("flake.nix"@, generated_at, flake_lock_hash, generator_version)
    }
}

/// Assembles the lock file of evaluated nodes.
pub fn assemble_lock_file(
    results: Vec<EvaluationResult>,
    deployments: &NameMap<TomlDeployment>,
    flake_lock_hash: String,
    generated_at: String,
    generator_version: String,
) -> (lock_file: TomlLockFile)
    ensures
        lock_file@ == assembled(
            results.deep_view(),
            toml_lock::map_model(deployments@),
            flake_lock_hash@,
            generated_at@,
            generator_version@,
        ),
        lock_file.schema_version@ == "1.0"@,
        lock_file.meta.generated_from@ == "flake.nix"@,
        lock_file.meta.generated_at@ == generated_at@,
        lock_file.meta.flake_lock_hash@ == flake_lock_hash@,
        lock_file.meta.generator_version@ == generator_version@,
        lock_file.meta.allow_apply_all is None,
        lock_file.defaults is None,
{
    let ghost models = results.deep_view();
    let ghost found = toml_lock::map_model(deployments@);
    let ghost start = toml_lock::new_lock(
        "flake.nix"@,
        generated_at@,
        flake_lock_hash@,
        generator_version@,
    );
    let mut lock_file = TomlLockFile::new(
        "flake.nix".to_string(),
        generated_at,
        flake_lock_hash,
        generator_version,
    );
    assert(models.take(0) =~= Seq::empty());
    for result in rest: results
        invariant
            models == results.deep_view(),
            found == toml_lock::map_model(deployments@),
            rest.seq() == results@,
            lock_file@ == (toml_lock::LockModel {
                nodes: built_nodes(models.take(rest.index() as int), found),
                ..start
            }),
    {
        let ghost k = rest.index() as int;
        let attr = "nixosConfigurations.".to_string().concat(result.node_name.as_str());
        let mut node = TomlNode::new(result.drv_path, attr);
        node.system_config = result.system_path;
        node.deployment = match deployments.get(result.node_name.as_str()) {
            Some(deployment) => Some(deployment.clone()),
            None => None,
        };
        proof {
            assert(models.take(k + 1).drop_last() =~= models.take(k));
            assert(models.take(k + 1).last() == result@);
            assert(node@ == built_node(result@, found));
        }
        lock_file.add_node(result.node_name, node);
    }
    assert(models.take(models.len() as int) =~= models);
    lock_file
}

/// Builds the lock file of evaluated nodes. `flake_lock` holds the contents of
/// `flake.lock`, where there is such a file. The time of generation is that of
/// the call.
pub fn build_lock_file(
    results: Vec<EvaluationResult>,
    deployments: &NameMap<TomlDeployment>,
    flake_lock: Option<Vec<u8>>,
    generator_version: String,
) -> (lock_file: Result<TomlLockFile, ColmenaError>)
    ensures
        match lock_file {
            Ok(lock_file) => {
                &&& flake_lock is Some
                &&& outside::utc_timestamp(lock_file@.meta.generated_at)
                &&& lock_file@ == assembled(
                    results.deep_view(),
                    toml_lock::map_model(deployments@),
                    hash_text(flake_lock->0@),
                    lock_file@.meta.generated_at,
                    generator_version@,
                )
                &&& lock_file.schema_version@ == "1.0"@
                &&& lock_file.meta.generated_from@ == "flake.nix"@
                &&& lock_file.meta.generator_version@ == generator_version@
                &&& lock_file.meta.allow_apply_all is None
                &&& lock_file.defaults is None
                &&& lock_file.meta.flake_lock_hash@.len() == 71
                &&& "sha256:"@.is_prefix_of(lock_file.meta.flake_lock_hash@)
                &&& forall|i: int|
                    #![trigger outside::sha256(flake_lock->0@)[i]]
                    0 <= i < 32 ==> hex_value(lock_file.meta.flake_lock_hash@[7 + 2 * i]) * 16
                        + hex_value(lock_file.meta.flake_lock_hash@[8 + 2 * i])
                        == outside::sha256(flake_lock->0@)[i]
            },
            Err(e) => {
                &&& flake_lock is None
                &&& e@ == "flake.lock not found in current directory"@
            },
        },
{
    match hash_flake_lock(flake_lock) {
        Ok(flake_lock_hash) => {
            let generated_at = outside::utc_now();
            Ok(
                assemble_lock_file(
                    results,
                    deployments,
                    flake_lock_hash,
                    generated_at,
                    generator_version,
                ),
            )
        },
        Err(e) => Err(e),
    }
}

/// A built lock file says where it comes from, and takes nothing of it from the
/// evaluations: nodes do not change the metadata.
pub proof fn law_assembled_origin(
    results: Seq<evaluate::EvaluationModel>,
    deployments: Map<Seq<char>, toml_lock::DeploymentModel>,
    flake_lock_hash: Seq<char>,
    generated_at: Seq<char>,
    generator_version: Seq<char>,
)
    ensures
        ({
            let lock = assembled(
                results,
                deployments,
                flake_lock_hash,
                generated_at,
                generator_version,
            );
            &&& lock.schema_version == "1.0"@
            &&& lock.meta.generated_from == "flake.nix"@
            &&& lock.meta.generated_at == generated_at
            &&& lock.meta.flake_lock_hash == flake_lock_hash
            &&& lock.meta.generator_version == generator_version
            &&& lock.meta.allow_apply_all is None
            &&& lock.defaults is None
        }),
{
}

/// The line on a found deployment names the node, and nothing else of it
/// depends on the node.
pub proof fn law_deployment_line(node_name: Seq<char>)
    ensures
        "  ├─ "@.is_prefix_of(deployment_line(node_name)),
        ": found in colmena output"@.is_suffix_of(deployment_line(node_name)),
        deployment_line(node_name).subrange(
            "  ├─ "@.len() as int,
            deployment_line(node_name).len() - ": found in colmena output"@.len(),
        ) == node_name,
{
    let line = deployment_line(node_name);
    let head = "  ├─ "@;
    let tail = ": found in colmena output"@;
    assert(line.subrange(0, head.len() as int) =~= head);
    assert(line.subrange(line.len() - tail.len(), line.len() as int) =~= tail);
    assert(line.subrange(head.len() as int, line.len() - tail.len()) =~= node_name);
}

/// A built lock file has a node for each name that was evaluated, and no other.
pub proof fn law_built_names(
    results: Seq<evaluate::EvaluationModel>,
    deployments: Map<Seq<char>, toml_lock::DeploymentModel>,
    name: Seq<char>,
)
    ensures
        built_nodes(results, deployments).contains_key(name) <==> exists|i: int|
            0 <= i < results.len() && (#[trigger] results[i]).node_name == name,
    decreases results.len(),
{
    if results.len() > 0 {
        let front = results.drop_last();
        law_built_names(front, deployments, name);
        if built_nodes(results, deployments).contains_key(name) {
            if name == results.last().node_name {
                assert(results[results.len() - 1].node_name == name);
            } else {
                let i = choose|i: int|
                    0 <= i < front.len() && (#[trigger] front[i]).node_name == name;
                assert(results[i].node_name == name);
            }
        }
        if exists|i: int| 0 <= i < results.len() && (#[trigger] results[i]).node_name == name {
            let i = choose|i: int|
                0 <= i < results.len() && (#[trigger] results[i]).node_name == name;
            if i < front.len() {
                assert(front[i].node_name == name);
            }
        }
    }
}

/// Where each evaluation has a derivation path that lies in the Nix store and
/// names a derivation, so has each node of the lock file.
pub proof fn law_built_paths(
    results: Seq<evaluate::EvaluationModel>,
    deployments: Map<Seq<char>, toml_lock::DeploymentModel>,
    name: Seq<char>,
)
    requires
        forall|i: int|
            0 <= i < results.len() ==> evaluate::drv_path_form((#[trigger] results[i]).drv_path),
    ensures
        built_nodes(results, deployments).contains_key(name) ==> evaluate::drv_path_form(
            built_nodes(results, deployments)[name].system_drv,
        ),
    decreases results.len(),
{
    if results.len() > 0 {
        let front = results.drop_last();
        assert forall|i: int| 0 <= i < front.len() implies evaluate::drv_path_form(
            (#[trigger] front[i]).drv_path,
        ) by {
            assert(front[i] == results[i]);
        }
        assert(results[results.len() - 1] == results.last());
        law_built_paths(front, deployments, name);
    }
}

/// The node of a name is that of the last result for the name.
pub proof fn law_built_node(
    results: Seq<evaluate::EvaluationModel>,
    deployments: Map<Seq<char>, toml_lock::DeploymentModel>,
    i: int,
)
    requires
        0 <= i < results.len(),
        forall|j: int|
            i < j < results.len() ==> (#[trigger] results[j]).node_name != results[i].node_name,
    ensures
        built_nodes(results, deployments).contains_key(results[i].node_name),
        built_nodes(results, deployments)[results[i].node_name] == built_node(
            results[i],
            deployments,
        ),
        ({
            let node = built_nodes(results, deployments)[results[i].node_name];
            &&& node.system_drv == results[i].drv_path
            &&& node.system_config == results[i].system_path
            &&& node.flake_attr == "nixosConfigurations."@ + results[i].node_name
            &&& node.deployment is Some <==> deployments.contains_key(results[i].node_name)
            &&& node.deployment is Some ==> node.deployment
                == Some(deployments[results[i].node_name])
        }),
    decreases results.len(),
{
    if i < results.len() - 1 {
        let front = results.drop_last();
        assert(results[results.len() - 1].node_name != results[i].node_name);
        assert forall|j: int| i < j < front.len() implies (#[trigger] front[j]).node_name
            != front[i].node_name by {
            assert(front[j] == results[j]);
        }
        law_built_node(front, deployments, i);
    }
}

} // verus!
