//! The `nix` commands that the generator runs.

use vstd::prelude::*;

verus! {

/// What a finished command left behind.
#[derive(Debug)]
pub struct CommandOutput {
    /// Whether it exited with success.
    pub success: bool,
    pub stdout: Vec<u8>,
    pub stderr: Vec<u8>,
}

/// The attribute of all NixOS configurations of a flake.
pub open spec fn configurations_attr(uri: Seq<char>) -> Seq<char> {
    uri + "#nixosConfigurations"@
}

/// The attribute of the system of one node.
pub open spec fn toplevel_attr(uri: Seq<char>, node_name: Seq<char>) -> Seq<char> {
    uri + "#nixosConfigurations."@ + node_name + ".config.system.build.toplevel"@
}

/// The attribute of the derivation path of one node.
pub open spec fn drv_path_attr(uri: Seq<char>, node_name: Seq<char>) -> Seq<char> {
    uri + "#nixosConfigurations."@ + node_name + ".config.system.build.toplevel.drvPath"@
}

/// Attributes begin with the flake, and of a node the attributes are those of
/// its own name: what stands between the flake and the fixed ends is the name.
pub proof fn law_attributes(uri: Seq<char>, node_name: Seq<char>)
    ensures
        uri.is_prefix_of(configurations_attr(uri)),
        configurations_attr(uri).skip(uri.len() as int) == "#nixosConfigurations"@,
        configurations_attr(uri).is_prefix_of(toplevel_attr(uri, node_name)),
        ".config.system.build.toplevel"@.is_suffix_of(toplevel_attr(uri, node_name)),
        toplevel_attr(uri, node_name).subrange(
            (uri.len() + "#nixosConfigurations."@.len()) as int,
            toplevel_attr(uri, node_name).len() - ".config.system.build.toplevel"@.len(),
        ) == node_name,
        toplevel_attr(uri, node_name)[(uri.len() + "#nixosConfigurations"@.len()) as int] == '.',
        drv_path_attr(uri, node_name) == toplevel_attr(uri, node_name) + ".drvPath"@,
{
    reveal_strlit("#nixosConfigurations");
    reveal_strlit("#nixosConfigurations.");
    reveal_strlit(".config.system.build.toplevel");
    reveal_strlit(".config.system.build.toplevel.drvPath");
    reveal_strlit(".drvPath");
    let top = toplevel_attr(uri, node_name);
    let all = configurations_attr(uri);
    assert(all.subrange(0, uri.len() as int) =~= uri);
    assert(all.skip(uri.len() as int) =~= "#nixosConfigurations"@);
    assert(top.subrange(0, all.len() as int) =~= all);
    assert(top.subrange(top.len() - 29, top.len() as int) =~= ".config.system.build.toplevel"@);
    assert(top.subrange((uri.len() + 21) as int, top.len() - 29) =~= node_name);
    assert(drv_path_attr(uri, node_name) =~= top + ".drvPath"@);
}

/// The arguments of `nix` that list the names of the configurations.
pub fn discover_args(uri: &str) -> (args: Vec<String>)
    ensures
        args.deep_view() == seq![
            "eval"@,
            "--json"@,
            "--apply"@,
            "configs: builtins.attrNames configs"@,
            configurations_attr(uri@),
        ],
{
    let mut args: Vec<String> = Vec::new();
    args.push("eval".to_string());
    args.push("--json".to_string());
    args.push("--apply".to_string());
    args.push("configs: builtins.attrNames configs".to_string());
    args.push(uri.to_string().concat("#nixosConfigurations"));
    args
}

/// The arguments of `nix` that evaluate the derivation path of a node.
pub fn evaluate_args(uri: &str, node_name: &str) -> (args: Vec<String>)
    ensures
        args.deep_view() == seq!["eval"@, drv_path_attr(uri@, node_name@), "--json"@],
{
    let mut args: Vec<String> = Vec::new();
    args.push("eval".to_string());
    args.push(
        uri.to_string().concat("#nixosConfigurations.").concat(node_name).concat(
            ".config.system.build.toplevel.drvPath",
        ),
    );
    args.push("--json".to_string());
    args
}

/// The arguments of `nix` that build the system of a node.
pub fn build_args(uri: &str, node_name: &str) -> (args: Vec<String>)
    ensures
        args.deep_view() == seq![
            "build"@,
            toplevel_attr(uri@, node_name@),
            "--no-link"@,
            "--print-out-paths"@,
        ],
{
    let mut args: Vec<String> = Vec::new();
    args.push("build".to_string());
    args.push(
        uri.to_string().concat("#nixosConfigurations.").concat(node_name).concat(
            ".config.system.build.toplevel",
        ),
    );
    args.push("--no-link".to_string());
    args.push("--print-out-paths".to_string());
    args
}

/// The arguments of `nix` that succeed on a flake with a `colmena` output.
pub fn colmena_args(uri: &str) -> (args: Vec<String>)
    ensures
        args.deep_view() == seq!["eval"@, "--apply"@, "x: true"@, uri@ + "#colmena"@],
{
    let mut args: Vec<String> = Vec::new();
    args.push("eval".to_string());
    args.push("--apply".to_string());
    args.push("x: true".to_string());
    args.push(uri.to_string().concat("#colmena"));
    args
}

} // verus!
