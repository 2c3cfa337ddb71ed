//! The data of `hive-lock.toml`.

use vstd::prelude::*;

use crate::name_map::NameMap;

verus! {

/// The schema version of the lock file format.
pub const SCHEMA_VERSION: &'static str = "1.0";

/// A deployment key. The library carries its definition, as TOML text,
/// without reading it.
#[derive(Debug)]
pub struct Key {
    pub content: String,
}

impl View for Key {
    type V = Seq<char>;

    open spec fn view(&self) -> Seq<char> {
        self.content@
    }
}

impl Clone for Key {
    fn clone(&self) -> (copy: Self)
        ensures
            copy@ == self@,
    {
        Key { content: self.content.clone() }
    }
}

/// The deployment configuration of a node.
#[derive(Debug)]
pub struct TomlDeployment {
    pub target_host: Option<String>,
    pub target_user: Option<String>,
    pub target_port: Option<u16>,
    pub tags: Option<Vec<String>>,
    pub build_on_target: Option<bool>,
    pub allow_local_deployment: Option<bool>,
    pub replace_unknown_profiles: Option<bool>,
    pub privilege_escalation_command: Option<Vec<String>>,
    pub extra_ssh_options: Option<Vec<String>>,
    pub keys: Option<NameMap<Key>>,
}

/// What a `TomlDeployment` says.
#[verifier::ext_equal]
pub struct DeploymentModel {
    pub target_host: Option<Seq<char>>,
    pub target_user: Option<Seq<char>>,
    pub target_port: Option<u16>,
    pub tags: Option<Seq<Seq<char>>>,
    pub build_on_target: Option<bool>,
    pub allow_local_deployment: Option<bool>,
    pub replace_unknown_profiles: Option<bool>,
    pub privilege_escalation_command: Option<Seq<Seq<char>>>,
    pub extra_ssh_options: Option<Seq<Seq<char>>>,
    pub keys: Option<Map<Seq<char>, Seq<char>>>,
}

/// What an optional value says.
pub open spec fn option_model<T: View>(value: Option<T>) -> Option<T::V> {
    match value {
        Some(v) => Some(v@),
        None => None,
    }
}

/// What an optional reference says.
pub open spec fn option_ref_model<T: View>(value: Option<&T>) -> Option<T::V> {
    match value {
        Some(v) => Some(v@),
        None => None,
    }
}

/// What the values of a map say.
pub open spec fn map_model<T: View>(map: Map<Seq<char>, T>) -> Map<Seq<char>, T::V> {
    map.map_values(|value: T| value@)
}

/// What the values of a map say, they say under as many names.
pub proof fn lemma_map_model_len<T: View>(map: Map<Seq<char>, T>)
    ensures
        map_model(map).len() == map.len(),
{
    assert(map_model(map).dom() =~= map.dom());
}

/// What an optional list of texts says.
pub open spec fn texts_model(texts: Option<Vec<String>>) -> Option<Seq<Seq<char>>> {
    match texts {
        Some(list) => Some(list.deep_view()),
        None => None,
    }
}

impl View for TomlDeployment {
    type V = DeploymentModel;

    open spec fn view(&self) -> DeploymentModel {
        DeploymentModel {
            target_host: option_model(self.target_host),
            target_user: option_model(self.target_user),
            target_port: self.target_port,
            tags: texts_model(self.tags),
            build_on_target: self.build_on_target,
            allow_local_deployment: self.allow_local_deployment,
            replace_unknown_profiles: self.replace_unknown_profiles,
            privilege_escalation_command: texts_model(self.privilege_escalation_command),
            extra_ssh_options: texts_model(self.extra_ssh_options),
            keys: match self.keys {
                Some(keys) => Some(map_model(keys@)),
                None => None,
            },
        }
    }
}

/// What a `TomlDeployment` says is what its fields say, whole and in full.
pub proof fn law_deployment_tells_all(deployment: TomlDeployment)
    ensures
        deployment@.target_host == deployment.target_host.deep_view(),
        deployment@.target_user == deployment.target_user.deep_view(),
        deployment@.target_port == deployment.target_port,
        deployment@.tags == deployment.tags.deep_view(),
        deployment@.build_on_target == deployment.build_on_target,
        deployment@.allow_local_deployment == deployment.allow_local_deployment,
        deployment@.replace_unknown_profiles == deployment.replace_unknown_profiles,
        deployment@.privilege_escalation_command
            == deployment.privilege_escalation_command.deep_view(),
        deployment@.extra_ssh_options == deployment.extra_ssh_options.deep_view(),
        deployment@.keys is Some <==> deployment.keys is Some,
        deployment.keys is Some ==> {
            let keys = deployment.keys->0@;
            let said = deployment@.keys->0;
            &&& said.dom() == keys.dom()
            &&& forall|name: Seq<char>| #[trigger]
                keys.contains_key(name) ==> said[name] == keys[name].content@
        },
{
    if let Some(keys) = deployment.keys {
        assert(map_model(keys@).dom() =~= keys@.dom());
    }
}

/// Copies an optional text.
fn copy_text(text: &Option<String>) -> (copy: Option<String>)
    ensures
        option_model(copy) == option_model(*text),
        copy.deep_view() == text.deep_view(),
{
    match text {
        Some(t) => Some(t.clone()),
        None => None,
    }
}

/// Copies an optional list of texts.
fn copy_texts(texts: &Option<Vec<String>>) -> (copy: Option<Vec<String>>)
    ensures
        texts_model(copy) == texts_model(*texts),
        copy.deep_view() == texts.deep_view(),
{
    match texts {
        Some(list) => {
            let copy = list.clone();
            assert(copy.deep_view() =~= list.deep_view());
            Some(copy)
        },
        None => None,
    }
}

impl Clone for TomlDeployment {
    fn clone(&self) -> (copy: Self)
        ensures
            copy@ == self@,
            copy.target_host.deep_view() == self.target_host.deep_view(),
            copy.target_user.deep_view() == self.target_user.deep_view(),
            copy.target_port == self.target_port,
            copy.tags.deep_view() == self.tags.deep_view(),
            copy.build_on_target == self.build_on_target,
            copy.allow_local_deployment == self.allow_local_deployment,
            copy.replace_unknown_profiles == self.replace_unknown_profiles,
            copy.privilege_escalation_command.deep_view()
                == self.privilege_escalation_command.deep_view(),
            copy.extra_ssh_options.deep_view() == self.extra_ssh_options.deep_view(),
    {
        let keys = match &self.keys {
            Some(keys) => {
                let copy = keys.clone();
                assert(map_model(copy@) =~= map_model(keys@));
                Some(copy)
            },
            None => None,
        };
        TomlDeployment {
            target_host: copy_text(&self.target_host),
            target_user: copy_text(&self.target_user),
            target_port: self.target_port,
            tags: copy_texts(&self.tags),
            build_on_target: self.build_on_target,
            allow_local_deployment: self.allow_local_deployment,
            replace_unknown_profiles: self.replace_unknown_profiles,
            privilege_escalation_command: copy_texts(&self.privilege_escalation_command),
            extra_ssh_options: copy_texts(&self.extra_ssh_options),
            keys,
        }
    }
}

/// The configuration of one node.
#[derive(Debug)]
pub struct TomlNode {
    /// Path to the system derivation.
    pub system_drv: String,
    /// Path to the built system, where it was built.
    pub system_config: Option<String>,
    /// Flake attribute path of the node.
    pub flake_attr: String,
    /// Deployment configuration.
    pub deployment: Option<TomlDeployment>,
}

/// What a `TomlNode` says.
#[verifier::ext_equal]
pub struct NodeModel {
    pub system_drv: Seq<char>,
    pub system_config: Option<Seq<char>>,
    pub flake_attr: Seq<char>,
    pub deployment: Option<DeploymentModel>,
}

impl View for TomlNode {
    type V = NodeModel;

    open spec fn view(&self) -> NodeModel {
        NodeModel {
            system_drv: self.system_drv@,
            system_config: option_model(self.system_config),
            flake_attr: self.flake_attr@,
            deployment: option_model(self.deployment),
        }
    }
}

/// What a `TomlNode` says is what its fields say, whole and in full.
pub proof fn law_node_tells_all(node: TomlNode)
    ensures
        node@.system_drv == node.system_drv@,
        node@.system_config == node.system_config.deep_view(),
        node@.flake_attr == node.flake_attr@,
        node@.deployment is Some <==> node.deployment is Some,
        node.deployment is Some ==> node@.deployment == Some(node.deployment->0@),
{
}

impl Clone for TomlNode {
    fn clone(&self) -> (copy: Self)
        ensures
            copy@ == self@,
    {
        TomlNode {
            system_drv: self.system_drv.clone(),
            system_config: copy_text(&self.system_config),
            flake_attr: self.flake_attr.clone(),
            deployment: match &self.deployment {
                Some(deployment) => Some(deployment.clone()),
                None => None,
            },
        }
    }
}

impl TomlNode {
    /// A node with the fields that every node has.
    pub fn new(system_drv: String, flake_attr: String) -> (node: Self)
        ensures
            node.system_drv == system_drv,
            node.system_config is None,
            node.flake_attr == flake_attr,
            node.deployment is None,
    {
        TomlNode { system_drv, system_config: None, flake_attr, deployment: None }
    }
}

/// Where a lock file comes from.
#[derive(Debug)]
pub struct TomlMeta {
    pub generated_from: String,
    pub generated_at: String,
    pub flake_lock_hash: String,
    pub generator_version: String,
    pub allow_apply_all: Option<bool>,
}

/// What a `TomlMeta` says.
#[verifier::ext_equal]
pub struct MetaModel {
    pub generated_from: Seq<char>,
    pub generated_at: Seq<char>,
    pub flake_lock_hash: Seq<char>,
    pub generator_version: Seq<char>,
    pub allow_apply_all: Option<bool>,
}

impl View for TomlMeta {
    type V = MetaModel;

    open spec fn view(&self) -> MetaModel {
        MetaModel {
            generated_from: self.generated_from@,
            generated_at: self.generated_at@,
            flake_lock_hash: self.flake_lock_hash@,
            generator_version: self.generator_version@,
            allow_apply_all: self.allow_apply_all,
        }
    }
}

impl Clone for TomlMeta {
    fn clone(&self) -> (copy: Self)
        ensures
            copy@ == self@,
    {
        TomlMeta {
            generated_from: self.generated_from.clone(),
            generated_at: self.generated_at.clone(),
            flake_lock_hash: self.flake_lock_hash.clone(),
            generator_version: self.generator_version.clone(),
            allow_apply_all: self.allow_apply_all,
        }
    }
}

/// Deployment configuration that holds unless a node says otherwise.
#[derive(Debug)]
pub struct TomlDefaults {
    pub deployment: Option<TomlDeployment>,
}

/// What a `TomlDefaults` says.
#[verifier::ext_equal]
pub struct DefaultsModel {
    pub deployment: Option<DeploymentModel>,
}

impl View for TomlDefaults {
    type V = DefaultsModel;

    open spec fn view(&self) -> DefaultsModel {
        DefaultsModel { deployment: option_model(self.deployment) }
    }
}

impl Clone for TomlDefaults {
    fn clone(&self) -> (copy: Self)
        ensures
            copy@ == self@,
    {
        TomlDefaults {
            deployment: match &self.deployment {
                Some(deployment) => Some(deployment.clone()),
                None => None,
            },
        }
    }
}

/// A whole lock file.
#[derive(Debug)]
pub struct TomlLockFile {
    pub schema_version: String,
    pub meta: TomlMeta,
    pub defaults: Option<TomlDefaults>,
    pub nodes: NameMap<TomlNode>,
}

/// What a `TomlLockFile` says.
#[verifier::ext_equal]
pub struct LockModel {
    pub schema_version: Seq<char>,
    pub meta: MetaModel,
    pub defaults: Option<DefaultsModel>,
    pub nodes: Map<Seq<char>, NodeModel>,
}

impl View for TomlLockFile {
    type V = LockModel;

    open spec fn view(&self) -> LockModel {
        LockModel {
            schema_version: self.schema_version@,
            meta: self.meta@,
            defaults: option_model(self.defaults),
            nodes: map_model(self.nodes@),
        }
    }
}

/// What a `TomlLockFile` says is what its fields say, whole and in full.
pub proof fn law_lock_file_tells_all(lock_file: TomlLockFile)
    ensures
        lock_file@.schema_version == lock_file.schema_version@,
        lock_file@.meta.generated_from == lock_file.meta.generated_from@,
        lock_file@.meta.generated_at == lock_file.meta.generated_at@,
        lock_file@.meta.flake_lock_hash == lock_file.meta.flake_lock_hash@,
        lock_file@.meta.generator_version == lock_file.meta.generator_version@,
        lock_file@.meta.allow_apply_all == lock_file.meta.allow_apply_all,
        lock_file@.defaults is Some <==> lock_file.defaults is Some,
        lock_file.defaults matches Some(defaults) ==> {
            &&& lock_file@.defaults->0.deployment is Some <==> defaults.deployment is Some
            &&& defaults.deployment is Some ==> lock_file@.defaults->0.deployment
                == Some(defaults.deployment->0@)
        },
        lock_file@.nodes.dom() == lock_file.nodes@.dom(),
        forall|name: Seq<char>| #[trigger]
            lock_file.nodes@.contains_key(name) ==> lock_file@.nodes[name]
                == lock_file.nodes@[name]@,
{
    assert(lock_file@.nodes.dom() =~= lock_file.nodes@.dom());
}

impl Clone for TomlLockFile {
    fn clone(&self) -> (copy: Self)
        ensures
            copy@ == self@,
    {
        let nodes = self.nodes.clone();
        assert(map_model(nodes@) =~= map_model(self.nodes@));
        TomlLockFile {
            schema_version: self.schema_version.clone(),
            meta: self.meta.clone(),
            defaults: match &self.defaults {
                Some(defaults) => Some(defaults.clone()),
                None => None,
            },
            nodes,
        }
    }
}

/// The lock file of a generator that has added no node yet.
pub open spec fn new_lock(
    generated_from: Seq<char>,
    generated_at: Seq<char>,
    flake_lock_hash: Seq<char>,
    generator_version: Seq<char>,
) -> LockModel {
    LockModel {
        schema_version: SCHEMA_VERSION@,
        meta: MetaModel {
            generated_from,
            generated_at,
            flake_lock_hash,
            generator_version,
            allow_apply_all: None,
        },
        defaults: None,
        nodes: Map::empty(),
    }
}

/// The comment that stands at the head of a lock file.
pub open spec fn header_text(meta: MetaModel) -> Seq<char> {
    "# hive-lock.toml\n"@ + "# Auto-generated lock file - DO NOT EDIT MANUALLY\n"@
        + "# Generated from: "@ + meta.generated_from + "\n"@ + "# Generated at: "@
        + meta.generated_at + "\n"@ + "# Regenerate with: colmena generate-toml\n"@ + "\n"@
}

/// The header is six lines: its title, a warning, where the lock file was
/// generated from and when, how to do it again, and an empty line.
pub proof fn law_header_lines(meta: MetaModel)
    ensures
        header_text(meta) == seq![
            "# hive-lock.toml"@,
            "# Auto-generated lock file - DO NOT EDIT MANUALLY"@,
            "# Generated from: "@ + meta.generated_from,
            "# Generated at: "@ + meta.generated_at,
            "# Regenerate with: colmena generate-toml"@,
            Seq::<char>::empty(),
        ].map_values(|line: Seq<char>| line.push('\n')).flatten(),
{
    reveal_strlit("# hive-lock.toml\n");
    reveal_strlit("# hive-lock.toml");
    reveal_strlit("# Auto-generated lock file - DO NOT EDIT MANUALLY\n");
    reveal_strlit("# Auto-generated lock file - DO NOT EDIT MANUALLY");
    reveal_strlit("# Regenerate with: colmena generate-toml\n");
    reveal_strlit("# Regenerate with: colmena generate-toml");
    reveal_strlit("\n");
    let l1 = "# hive-lock.toml"@;
    let l2 = "# Auto-generated lock file - DO NOT EDIT MANUALLY"@;
    let l3 = "# Generated from: "@ + meta.generated_from;
    let l4 = "# Generated at: "@ + meta.generated_at;
    let l5 = "# Regenerate with: colmena generate-toml"@;
    let lines = seq![l1, l2, l3, l4, l5, Seq::<char>::empty()];
    let ended = lines.map_values(|line: Seq<char>| line.push('\n'));
    assert("\n"@ =~= seq!['\n']);
    assert("# hive-lock.toml\n"@ =~= l1.push('\n'));
    assert("# Auto-generated lock file - DO NOT EDIT MANUALLY\n"@ =~= l2.push('\n'));
    assert("# Regenerate with: colmena generate-toml\n"@ =~= l5.push('\n'));
    ended.lemma_flatten_and_flatten_alt_are_equivalent();
    let e5 = ended.drop_last();
    let e4 = e5.drop_last();
    let e3 = e4.drop_last();
    let e2 = e3.drop_last();
    let e1 = e2.drop_last();
    assert(e1.drop_last().flatten_alt() =~= Seq::empty());
    assert(e1.flatten_alt() =~= l1.push('\n'));
    assert(e2.flatten_alt() == e1.flatten_alt() + l2.push('\n'));
    assert(e3.flatten_alt() == e2.flatten_alt() + l3.push('\n'));
    assert(e4.flatten_alt() == e3.flatten_alt() + l4.push('\n'));
    assert(e5.flatten_alt() == e4.flatten_alt() + l5.push('\n'));
    assert(ended.flatten_alt() == e5.flatten_alt() + Seq::<char>::empty().push('\n'));
    assert(header_text(meta) =~= ended.flatten_alt());
}

impl TomlLockFile {
    /// A lock file with its metadata and no nodes.
    pub fn new(
        generated_from: String,
        generated_at: String,
        flake_lock_hash: String,
        generator_version: String,
    ) -> (lock_file: Self)
        ensures
            lock_file@ == new_lock(
                generated_from@,
                generated_at@,
                flake_lock_hash@,
                generator_version@,
            ),
            lock_file.schema_version@ == "1.0"@,
            lock_file.meta.generated_from == generated_from,
            lock_file.meta.generated_at == generated_at,
            lock_file.meta.flake_lock_hash == flake_lock_hash,
            lock_file.meta.generator_version == generator_version,
            lock_file.meta.allow_apply_all is None,
            lock_file.defaults is None,
            lock_file.nodes@ == Map::<Seq<char>, TomlNode>::empty(),
    {
        let nodes: NameMap<TomlNode> = NameMap::new();
        assert(map_model(nodes@) =~= Map::empty());
        TomlLockFile {
            schema_version: SCHEMA_VERSION.to_string(),
            meta: TomlMeta {
                generated_from,
                generated_at,
                flake_lock_hash,
                generator_version,
                allow_apply_all: None,
            },
            defaults: None,
            nodes,
        }
    }

    /// Adds the node `node` under `name`, in place of the node that may have
    /// stood there.
    pub fn add_node(&mut self, name: String, node: TomlNode)
        ensures
            final(self)@ == (LockModel {
                nodes: old(self)@.nodes.insert(name@, node@),
                ..old(self)@
            }),
            final(self).nodes@ == old(self).nodes@.insert(name@, node),
            final(self).schema_version == old(self).schema_version,
            final(self).meta == old(self).meta,
            final(self).defaults == old(self).defaults,
    {
        let ghost before = self.nodes@;
        self.nodes.insert(name, node);
        assert(map_model(before.insert(name@, node)) =~= map_model(before).insert(name@, node@));
    }

    /// The comment that stands at the head of the file.
    pub fn header_comment(&self) -> (header: String)
        ensures
            header@ == header_text(self.meta@),
    {
        let mut header = "# hive-lock.toml\n".to_string();
        header.append("# Auto-generated lock file - DO NOT EDIT MANUALLY\n");
        header.append("# Generated from: ");
        header.append(self.meta.generated_from.as_str());
        header.append("\n");
        header.append("# Generated at: ");
        header.append(self.meta.generated_at.as_str());
        header.append("\n");
        header.append("# Regenerate with: colmena generate-toml\n");
        header.append("\n");
        header
    }
}

} // verus!
