//! The command-line grammar of `portctl`.
//!
//! `portctl_grammar` states the whole grammar: every command group, every
//! command, and each argument with its names, kind, requirement, default,
//! the arguments it needs and conflicts with, and its help.  `build_cli`
//! builds exactly that grammar; with `parse_outcome` it fixes what every
//! command line gives.
use vstd::prelude::*;
use crate::argparse::{Arg, ArgKind, Command, Group, opt_view};
use crate::text::copy_str;

verus! {

/// The program's name.
pub const NAME: &'static str = "portctl";
/// The program's version.
pub const VERSION: &'static str = "0.1.0";
/// The program's author.
pub const AUTHOR: &'static str = "nbrandolino";

// ---------------------------------------------------------------------------
// What a grammar holds

/// The names of a list of commands.
pub open spec fn names(cs: Seq<Command>) -> Seq<Seq<char>> {
    cs.map_values(|c: Command| c.name@)
}

/// The texts of a list of strings.
pub open spec fn texts_of(v: Seq<String>) -> Seq<Seq<char>> {
    v.map_values(|s: String| s@)
}

/// An argument as the grammar describes it.
#[verifier::ext_equal]
pub struct ArgShape {
    pub id: Seq<char>,
    pub short: Option<char>,
    pub long: Option<Seq<char>>,
    pub kind: ArgKind,
    pub required: bool,
    pub default: Option<Seq<char>>,
    pub needs: Seq<Seq<char>>,
    pub conflicts: Seq<Seq<char>>,
    pub numeric: bool,
    pub value_name: Seq<char>,
    pub help: Seq<char>,
}

/// What an argument holds.
pub open spec fn arg_shape(a: Arg) -> ArgShape {
    ArgShape {
        id: a.id@,
        short: a.short,
        long: opt_view(a.long),
        kind: a.kind,
        required: a.required,
        default: opt_view(a.default),
        needs: texts_of(a.needs@),
        conflicts: texts_of(a.conflicts@),
        numeric: a.numeric,
        value_name: a.value_name@,
        help: a.help@,
    }
}

/// A group of arguments as the grammar describes it.
#[verifier::ext_equal]
pub struct GroupShape {
    pub id: Seq<char>,
    pub members: Seq<Seq<char>>,
    pub required: bool,
}

/// What a group of arguments holds.
pub open spec fn group_shape(g: Group) -> GroupShape {
    GroupShape { id: g.id@, members: texts_of(g.members@), required: g.required }
}

/// A command as the grammar describes it, without its subcommands (of
/// which it gives the number).
#[verifier::ext_equal]
pub struct CommandShape {
    pub name: Seq<char>,
    pub about: Seq<char>,
    pub args: Seq<ArgShape>,
    pub groups: Seq<GroupShape>,
    pub subcommand_required: bool,
    pub subcommand_count: nat,
}

/// What a command holds, its subcommands aside.
pub open spec fn command_shape(c: Command) -> CommandShape {
    CommandShape {
        name: c.name@,
        about: c.about@,
        args: c.args@.map_values(|a: Arg| arg_shape(a)),
        groups: c.groups@.map_values(|g: Group| group_shape(g)),
        subcommand_required: c.subcommand_required,
        subcommand_count: c.subcommands@.len(),
    }
}

/// A command group: the group and each of its commands.
pub open spec fn group_of(c: Command) -> (CommandShape, Seq<CommandShape>) {
    (command_shape(c), c.subcommands@.map_values(|s: Command| command_shape(s)))
}

/// A whole two-level grammar: the program and each of its groups.
pub open spec fn grammar_of(c: Command) -> (CommandShape, Seq<(CommandShape, Seq<CommandShape>)>) {
    (command_shape(c), c.subcommands@.map_values(|g: Command| group_of(g)))
}

// ---------------------------------------------------------------------------
// The grammar of `portctl`

/// An argument of the given kind, with no names, requirement, default or
/// constraint.
pub open spec fn plain_spec(id: Seq<char>, kind: ArgKind, value_name: Seq<char>, help: Seq<char>) -> ArgShape {
    ArgShape {
        id,
        short: None,
        long: None,
        kind,
        required: false,
        default: None,
        needs: Seq::empty(),
        conflicts: Seq::empty(),
        numeric: false,
        value_name,
        help,
    }
}

/// A required positional argument.
pub open spec fn positional_spec(id: Seq<char>, value_name: Seq<char>, help: Seq<char>) -> ArgShape {
    ArgShape { required: true, ..plain_spec(id, ArgKind::Positional, value_name, help) }
}

/// An option with a value, `-c`/`--long` (`-c` when `short` is given).
pub open spec fn option_spec(
    id: Seq<char>,
    short: Option<char>,
    long: Seq<char>,
    value_name: Seq<char>,
    help: Seq<char>,
) -> ArgShape {
    ArgShape { short, long: Some(long), ..plain_spec(id, ArgKind::Value, value_name, help) }
}

/// An option with a value and a default.
pub open spec fn default_spec(
    id: Seq<char>,
    short: Option<char>,
    long: Seq<char>,
    value_name: Seq<char>,
    default: Seq<char>,
    help: Seq<char>,
) -> ArgShape {
    ArgShape { default: Some(default), ..option_spec(id, short, long, value_name, help) }
}

/// A flag, `-c`/`--long`.
pub open spec fn flag_spec(id: Seq<char>, short: Option<char>, long: Seq<char>, help: Seq<char>) -> ArgShape {
    ArgShape { short, long: Some(long), ..plain_spec(id, ArgKind::Flag, ""@, help) }
}

/// `-y`/`--yes`, which skips the confirmation of a destructive command.
pub open spec fn yes_spec() -> ArgShape {
    flag_spec("yes"@, Some('y'), "yes"@, "Skip the confirmation prompt"@)
}

/// The required `-e`/`--endpoint NAME`.
pub open spec fn endpoint_spec() -> ArgShape {
    ArgShape {
        required: true,
        ..option_spec("endpoint"@, Some('e'), "endpoint"@, "NAME"@, "Portainer endpoint name"@)
    }
}

/// The optional `-e`/`--endpoint NAME` filter.
pub open spec fn endpoint_filter_spec(help: Seq<char>) -> ArgShape {
    option_spec("endpoint"@, Some('e'), "endpoint"@, "NAME"@, help)
}

/// The container argument.
pub open spec fn container_spec() -> ArgShape {
    positional_spec("id"@, "CONTAINER"@, "Container ID or name"@)
}

/// The image argument.
pub open spec fn image_spec() -> ArgShape {
    positional_spec("image"@, "IMAGE"@, "Image name, name:tag, or ID"@)
}

/// The stack argument.
pub open spec fn stack_spec() -> ArgShape {
    positional_spec("name"@, "STACK"@, "Stack name"@)
}

/// A command without subcommands.
pub open spec fn leaf_spec(name: Seq<char>, about: Seq<char>, args: Seq<ArgShape>) -> CommandShape {
    CommandShape { name, about, args, groups: Seq::empty(), subcommand_required: false, subcommand_count: 0 }
}

/// A command that only groups `n` subcommands, one of which must be chosen.
pub open spec fn node_spec(name: Seq<char>, about: Seq<char>, n: nat) -> CommandShape {
    CommandShape {
        name,
        about,
        args: Seq::empty(),
        groups: Seq::empty(),
        subcommand_required: true,
        subcommand_count: n,
    }
}

/// A command on one container, with `--yes` when it is destructive.
pub open spec fn container_leaf(name: Seq<char>, about: Seq<char>, confirm: bool) -> CommandShape {
    leaf_spec(
        name,
        about,
        if confirm {
            seq![endpoint_spec(), container_spec(), yes_spec()]
        } else {
            seq![endpoint_spec(), container_spec()]
        },
    )
}

/// A command on one stack, with `--yes` when it is destructive.
pub open spec fn stack_leaf(name: Seq<char>, about: Seq<char>, confirm: bool) -> CommandShape {
    leaf_spec(name, about, if confirm { seq![stack_spec(), yes_spec()] } else { seq![stack_spec()] })
}

/// A command that takes the endpoint, with `--yes` when it is destructive.
pub open spec fn endpoint_leaf(name: Seq<char>, about: Seq<char>, confirm: bool) -> CommandShape {
    leaf_spec(name, about, if confirm { seq![endpoint_spec(), yes_spec()] } else { seq![endpoint_spec()] })
}

/// `portctl config`.
pub open spec fn config_spec() -> (CommandShape, Seq<CommandShape>) {
    (
        node_spec("config"@, "Manage portctl configuration"@, 4),
        seq![
            leaf_spec(
                "set-url"@,
                "Set the Portainer URL"@,
                seq![positional_spec("url"@, "URL"@, "Portainer base URL (e.g. https://portainer.example.com)"@)],
            ),
            leaf_spec(
                "set-token"@,
                "Set the Portainer API token"@,
                seq![positional_spec("token"@, "TOKEN"@, "API token from Portainer"@)],
            ),
            leaf_spec("show"@, "Show current configuration"@, Seq::empty()),
            leaf_spec("check"@, "Verify connectivity to the Portainer instance"@, Seq::empty()),
        ],
    )
}

/// `portctl endpoint`.
pub open spec fn endpoint_group_spec() -> (CommandShape, Seq<CommandShape>) {
    (
        node_spec("endpoint"@, "Manage Portainer endpoints"@, 2),
        seq![
            leaf_spec("ls"@, "List all endpoints"@, Seq::empty()),
            leaf_spec(
                "inspect"@,
                "Show detailed information about an endpoint"@,
                seq![positional_spec("name"@, "NAME"@, "Endpoint name"@)],
            ),
        ],
    )
}

/// The arguments of `portctl stack deploy`: `-f` and `--git-url` conflict
/// and form the required group `source`; the git credentials need each
/// other and `--git-url`.
pub open spec fn deploy_spec() -> CommandShape {
    CommandShape {
        groups: seq![GroupShape { id: "source"@, members: seq!["file"@, "git-url"@], required: true }],
        ..leaf_spec(
            "deploy"@,
            "Create and deploy a new stack"@,
            seq![
                positional_spec("name"@, "NAME"@, "Stack name"@),
                endpoint_spec(),
                ArgShape {
                    conflicts: seq!["git-url"@],
                    ..option_spec("file"@, Some('f'), "file"@, "PATH"@, "Path to a local compose file"@)
                },
                ArgShape {
                    conflicts: seq!["file"@],
                    ..option_spec("git-url"@, None, "git-url"@, "URL"@, "Git repository URL"@)
                },
                default_spec(
                    "git-ref"@,
                    None,
                    "git-ref"@,
                    "REF"@,
                    "refs/heads/main"@,
                    "Git reference (branch, tag, or commit)"@,
                ),
                default_spec(
                    "compose-file"@,
                    None,
                    "compose-file"@,
                    "PATH"@,
                    "docker-compose.yml"@,
                    "Path to compose file inside the git repository"@,
                ),
                ArgShape {
                    needs: seq!["git-url"@, "git-password"@],
                    ..option_spec(
                        "git-username"@,
                        None,
                        "git-username"@,
                        "USERNAME"@,
                        "Username for private repository authentication"@,
                    )
                },
                ArgShape {
                    needs: seq!["git-url"@, "git-username"@],
                    ..option_spec(
                        "git-password"@,
                        None,
                        "git-password"@,
                        "PASSWORD"@,
                        "Password or personal access token for private repository authentication"@,
                    )
                },
                option_spec("env-file"@, None, "env-file"@, "PATH"@, "Path to an environment file for the stack"@),
            ],
        )
    }
}

/// `portctl stack`.
pub open spec fn stack_group_spec() -> (CommandShape, Seq<CommandShape>) {
    (
        node_spec("stack"@, "Manage stacks on a Portainer endpoint"@, 9),
        seq![
            leaf_spec("ls"@, "List all stacks"@, seq![endpoint_filter_spec("Filter by endpoint name"@)]),
            stack_leaf("inspect"@, "Show detailed information about a stack"@, false),
            stack_leaf("start"@, "Start a stack"@, false),
            stack_leaf("stop"@, "Stop a stack"@, true),
            stack_leaf("update"@, "Pull latest git changes and redeploy a stack"@, false),
            stack_leaf("rm"@, "Remove a stack"@, true),
            deploy_spec(),
            stack_leaf("compose"@, "Print the compose file of a stack"@, false),
            stack_leaf("edit"@, "Open a stack's compose file in an editor and redeploy on save"@, false),
        ],
    )
}

/// `portctl system`.
pub open spec fn system_group_spec() -> (CommandShape, Seq<CommandShape>) {
    (
        node_spec("system"@, "System-wide operations across all endpoints"@, 1),
        seq![
            leaf_spec(
                "prune"@,
                "Remove all stopped containers, dangling images, unused volumes, and unused networks"@,
                seq![endpoint_filter_spec("Limit to a specific endpoint (default: all endpoints)"@), yes_spec()],
            ),
        ],
    )
}

/// `portctl image`.
pub open spec fn image_group_spec() -> (CommandShape, Seq<CommandShape>) {
    (
        node_spec("image"@, "Manage images on a Portainer endpoint"@, 5),
        seq![
            endpoint_leaf("ls"@, "List all images on an endpoint"@, false),
            leaf_spec("inspect"@, "Show detailed information about an image"@, seq![endpoint_spec(), image_spec()]),
            leaf_spec("pull"@, "Pull an image"@, seq![endpoint_spec(), image_spec()]),
            leaf_spec("rm"@, "Remove an image"@, seq![endpoint_spec(), image_spec(), yes_spec()]),
            endpoint_leaf("prune"@, "Remove all dangling (untagged) images"@, true),
        ],
    )
}

/// The commands of volumes or networks, which take the same shape.
pub open spec fn resource_group_spec(
    name: Seq<char>,
    about: Seq<char>,
    noun: Seq<char>,
    value_name: Seq<char>,
    default_driver: Seq<char>,
    driver_help: Seq<char>,
    about_ls: Seq<char>,
    about_inspect: Seq<char>,
    about_create: Seq<char>,
    about_rm: Seq<char>,
    about_prune: Seq<char>,
) -> (CommandShape, Seq<CommandShape>) {
    let target = positional_spec("name"@, value_name, noun);
    (
        node_spec(name, about, 5),
        seq![
            endpoint_leaf("ls"@, about_ls, false),
            leaf_spec("inspect"@, about_inspect, seq![endpoint_spec(), target]),
            leaf_spec(
                "create"@,
                about_create,
                seq![
                    endpoint_spec(),
                    target,
                    default_spec("driver"@, Some('d'), "driver"@, "DRIVER"@, default_driver, driver_help),
                ],
            ),
            leaf_spec("rm"@, about_rm, seq![endpoint_spec(), target, yes_spec()]),
            endpoint_leaf("prune"@, about_prune, true),
        ],
    )
}

/// `portctl volume`.
pub open spec fn volume_group_spec() -> (CommandShape, Seq<CommandShape>) {
    resource_group_spec(
        "volume"@,
        "Manage volumes on a Portainer endpoint"@,
        "Volume name"@,
        "VOLUME"@,
        "local"@,
        "Volume driver (e.g. local, nfs)"@,
        "List all volumes on an endpoint"@,
        "Show detailed information about a volume"@,
        "Create a volume"@,
        "Remove a volume"@,
        "Remove all unused volumes"@,
    )
}

/// `portctl network`.
pub open spec fn network_group_spec() -> (CommandShape, Seq<CommandShape>) {
    resource_group_spec(
        "network"@,
        "Manage networks on a Portainer endpoint"@,
        "Network name"@,
        "NETWORK"@,
        "bridge"@,
        "Network driver (e.g. bridge, overlay)"@,
        "List all networks on an endpoint"@,
        "Show detailed information about a network"@,
        "Create a network"@,
        "Remove a network"@,
        "Remove all unused networks"@,
    )
}

/// `portctl container logs`: `-n`/`--tail` a `u32` defaulting to 100,
/// `-t`/`--timestamps` and `-f`/`--follow` flags.
pub open spec fn logs_spec() -> CommandShape {
    leaf_spec(
        "logs"@,
        "Fetch logs from a container"@,
        seq![
            endpoint_spec(),
            container_spec(),
            ArgShape {
                numeric: true,
                ..default_spec(
                    "tail"@,
                    Some('n'),
                    "tail"@,
                    "LINES"@,
                    "100"@,
                    "Number of lines to show from the end of the logs"@,
                )
            },
            flag_spec("timestamps"@, Some('t'), "timestamps"@, "Show timestamps"@),
            flag_spec("follow"@, Some('f'), "follow"@, "Stream logs as they are produced"@),
        ],
    )
}

/// `portctl container`.
pub open spec fn container_group_spec() -> (CommandShape, Seq<CommandShape>) {
    (
        node_spec("container"@, "Manage containers on a Portainer endpoint"@, 16),
        seq![
            leaf_spec("ls"@, "List all containers"@, seq![endpoint_filter_spec("Filter by endpoint name"@)]),
            logs_spec(),
            container_leaf("stats"@, "Show CPU, memory, network, and block I/O usage for a container"@, false),
            container_leaf("start"@, "Start a container"@, false),
            container_leaf("stop"@, "Stop a container"@, true),
            container_leaf("restart"@, "Restart a container"@, false),
            container_leaf("inspect"@, "Show detailed information about a container"@, false),
            container_leaf("rm"@, "Remove a container"@, true),
            endpoint_leaf("prune"@, "Remove all stopped containers"@, true),
            leaf_spec(
                "cp"@,
                "Copy files between a container and the local filesystem"@,
                seq![
                    endpoint_spec(),
                    positional_spec("src"@, "SRC"@, "Source path (use <container>:<path> for container paths)"@),
                    positional_spec(
                        "dest"@,
                        "DEST"@,
                        "Destination path (use <container>:<path> for container paths)"@,
                    ),
                ],
            ),
            container_leaf("pause"@, "Pause all processes in a container"@, false),
            container_leaf("unpause"@, "Unpause all processes in a container"@, false),
            container_leaf("top"@, "Show running processes inside a container"@, false),
            leaf_spec(
                "kill"@,
                "Send a signal to a container"@,
                seq![
                    endpoint_spec(),
                    container_spec(),
                    default_spec(
                        "signal"@,
                        Some('s'),
                        "signal"@,
                        "SIGNAL"@,
                        "SIGTERM"@,
                        "Signal to send (e.g. SIGTERM, SIGKILL, SIGHUP)"@,
                    ),
                    yes_spec(),
                ],
            ),
            leaf_spec(
                "rename"@,
                "Rename a container"@,
                seq![endpoint_spec(), container_spec(), positional_spec("new-name"@, "NEW_NAME"@, "New container name"@)],
            ),
            leaf_spec(
                "exec"@,
                "Run a command inside a container"@,
                seq![
                    endpoint_spec(),
                    container_spec(),
                    ArgShape {
                        required: true,
                        ..plain_spec(
                            "cmd"@,
                            ArgKind::Trailing,
                            "CMD"@,
                            "Command to run (use -- to separate from portctl args)"@,
                        )
                    },
                ],
            ),
        ],
    )
}

/// The whole grammar of `portctl`: the program, with the global
/// `--insecure` flag, and its eight command groups in order.
pub open spec fn portctl_grammar() -> (CommandShape, Seq<(CommandShape, Seq<CommandShape>)>) {
    (
        CommandShape {
            args: seq![flag_spec("insecure"@, None, "insecure"@, "Accept invalid TLS certificates"@)],
            ..node_spec(
                NAME@,
                "A command-line utility designed to manage Docker environments through the Portainer API"@,
                8,
            )
        },
        seq![
            config_spec(),
            endpoint_group_spec(),
            stack_group_spec(),
            system_group_spec(),
            image_group_spec(),
            volume_group_spec(),
            network_group_spec(),
            container_group_spec(),
        ],
    )
}

// ---------------------------------------------------------------------------
// Building it

/// An argument of the given kind, with no short or long name, default,
/// requirement or constraint.
fn plain(id: &str, kind: ArgKind, value_name: &str, help: &str) -> (a: Arg)
    ensures
        arg_shape(a) == plain_spec(id@, kind, value_name@, help@),
{
    let a = Arg {
        id: copy_str(id),
        short: None,
        long: None,
        kind,
        required: false,
        default: None,
        needs: Vec::new(),
        conflicts: Vec::new(),
        numeric: false,
        value_name: copy_str(value_name),
        help: copy_str(help),
    };
    proof {
        assert(texts_of(a.needs@) =~= Seq::<Seq<char>>::empty());
        assert(texts_of(a.conflicts@) =~= Seq::<Seq<char>>::empty());
    }
    a
}

/// The argument, required.
fn required(a: Arg) -> (r: Arg)
    ensures
        arg_shape(r) == (ArgShape { required: true, ..arg_shape(a) }),
{
    let mut r = a;
    r.required = true;
    r
}

/// The argument, needing `other` as well.
fn needing(a: Arg, other: &str) -> (r: Arg)
    ensures
        arg_shape(r) == (ArgShape { needs: arg_shape(a).needs.push(other@), ..arg_shape(a) }),
{
    let mut r = a;
    r.needs.push(copy_str(other));
    proof {
        assert(texts_of(r.needs@) =~= texts_of(a.needs@).push(other@));
    }
    r
}

/// The argument, in conflict with `other`.
fn conflicting(a: Arg, other: &str) -> (r: Arg)
    ensures
        arg_shape(r) == (ArgShape { conflicts: arg_shape(a).conflicts.push(other@), ..arg_shape(a) }),
{
    let mut r = a;
    r.conflicts.push(copy_str(other));
    proof {
        assert(texts_of(r.conflicts@) =~= texts_of(a.conflicts@).push(other@));
    }
    r
}

/// A required positional argument.
fn required_positional(id: &str, value_name: &str, help: &str) -> (a: Arg)
    ensures
        arg_shape(a) == positional_spec(id@, value_name@, help@),
{
    required(plain(id, ArgKind::Positional, value_name, help))
}

/// An option with a value, `-c`/`--long`.
fn option_arg(id: &str, short: Option<char>, long: &str, value_name: &str, help: &str) -> (a: Arg)
    ensures
        arg_shape(a) == option_spec(id@, short, long@, value_name@, help@),
{
    let mut a = plain(id, ArgKind::Value, value_name, help);
    a.short = short;
    a.long = Some(copy_str(long));
    a
}

/// An option with a value and a default.
fn option_with_default(id: &str, short: Option<char>, long: &str, value_name: &str, default: &str, help: &str) -> (a: Arg)
    ensures
        arg_shape(a) == default_spec(id@, short, long@, value_name@, default@, help@),
{
    let mut a = option_arg(id, short, long, value_name, help);
    a.default = Some(copy_str(default));
    a
}

/// A flag, `-c`/`--long`.
fn flag_arg(id: &str, short: Option<char>, long: &str, help: &str) -> (a: Arg)
    ensures
        arg_shape(a) == flag_spec(id@, short, long@, help@),
{
    let mut a = plain(id, ArgKind::Flag, "", help);
    a.short = short;
    a.long = Some(copy_str(long));
    a
}

/// `-y`/`--yes`: skips the confirmation of a destructive command.
fn yes_arg() -> (a: Arg)
    ensures
        arg_shape(a) == yes_spec(),
{
    flag_arg("yes", Some('y'), "yes", "Skip the confirmation prompt")
}

/// The image argument: a name, `name:tag`, or an ID.
pub fn image_ref_arg() -> (a: Arg)
    ensures
        arg_shape(a) == image_spec(),
{
    required_positional("image", "IMAGE", "Image name, name:tag, or ID")
}

/// The volume argument.
pub fn volume_name_arg() -> (a: Arg)
    ensures
        arg_shape(a) == positional_spec("name"@, "VOLUME"@, "Volume name"@),
{
    required_positional("name", "VOLUME", "Volume name")
}

/// The network argument.
pub fn network_name_arg() -> (a: Arg)
    ensures
        arg_shape(a) == positional_spec("name"@, "NETWORK"@, "Network name"@),
{
    required_positional("name", "NETWORK", "Network name")
}

/// The stack argument.
pub fn stack_name_arg() -> (a: Arg)
    ensures
        arg_shape(a) == stack_spec(),
{
    required_positional("name", "STACK", "Stack name")
}

/// The required `-e`/`--endpoint NAME` option.
pub fn endpoint_arg() -> (a: Arg)
    ensures
        arg_shape(a) == endpoint_spec(),
{
    required(option_arg("endpoint", Some('e'), "endpoint", "NAME", "Portainer endpoint name"))
}

/// The container argument: an ID or a name.
pub fn container_id_arg() -> (a: Arg)
    ensures
        arg_shape(a) == container_spec(),
{
    required_positional("id", "CONTAINER", "Container ID or name")
}

/// The optional `-e`/`--endpoint NAME` filter.
fn endpoint_filter_arg(help: &str) -> (a: Arg)
    ensures
        arg_shape(a) == endpoint_filter_spec(help@),
{
    option_arg("endpoint", Some('e'), "endpoint", "NAME", help)
}

/// The shapes of a list of arguments.
pub open spec fn arg_shapes(args: Seq<Arg>) -> Seq<ArgShape> {
    args.map_values(|a: Arg| arg_shape(a))
}

/// A command that takes the given arguments.
fn command_with(name: &str, about: &str, args: Vec<Arg>) -> (c: Command)
    ensures
        command_shape(c) == leaf_spec(name@, about@, arg_shapes(args@)),
        c.subcommands@.len() == 0,
        c.groups@.len() == 0,
{
    let c = Command {
        name: copy_str(name),
        about: copy_str(about),
        args,
        groups: Vec::new(),
        subcommands: Vec::new(),
        subcommand_required: false,
    };
    proof {
        assert(c.groups@.map_values(|g: Group| group_shape(g)) =~= Seq::<GroupShape>::empty());
    }
    c
}

/// A command with no arguments and no subcommands.
fn command(name: &str, about: &str) -> (c: Command)
    ensures
        command_shape(c) == leaf_spec(name@, about@, Seq::empty()),
        c.subcommands@.len() == 0,
{
    let c = command_with(name, about, Vec::new());
    proof {
        assert(arg_shapes(Seq::<Arg>::empty()) =~= Seq::<ArgShape>::empty());
    }
    c
}

/// A command that only groups subcommands, one of which must be chosen.
fn group_command(name: &str, about: &str, subs: Vec<Command>) -> (c: Command)
    ensures
        command_shape(c) == node_spec(name@, about@, subs@.len()),
        c.subcommands@ == subs@,
{
    let c = Command {
        name: copy_str(name),
        about: copy_str(about),
        args: Vec::new(),
        groups: Vec::new(),
        subcommands: subs,
        subcommand_required: true,
    };
    proof {
        assert(c.groups@.map_values(|g: Group| group_shape(g)) =~= Seq::<GroupShape>::empty());
        assert(c.args@.map_values(|a: Arg| arg_shape(a)) =~= Seq::<ArgShape>::empty());
    }
    c
}

/// Appends an argument to a list under construction.
fn push_arg(args: &mut Vec<Arg>, a: Arg)
    ensures
        arg_shapes(final(args)@) == arg_shapes(old(args)@).push(arg_shape(a)),
{
    args.push(a);
    proof {
        assert(arg_shapes(final(args)@) =~= arg_shapes(old(args)@).push(arg_shape(a)));
    }
}

/// Two arguments.
fn args2(a: Arg, b: Arg) -> (v: Vec<Arg>)
    ensures
        arg_shapes(v@) == seq![arg_shape(a), arg_shape(b)],
{
    let mut v = Vec::new();
    v.push(a);
    v.push(b);
    proof {
        assert(arg_shapes(v@) =~= seq![arg_shape(a), arg_shape(b)]);
    }
    v
}

/// Three arguments.
fn args3(a: Arg, b: Arg, c: Arg) -> (v: Vec<Arg>)
    ensures
        arg_shapes(v@) == seq![arg_shape(a), arg_shape(b), arg_shape(c)],
{
    let mut v = Vec::new();
    v.push(a);
    v.push(b);
    v.push(c);
    proof {
        assert(arg_shapes(v@) =~= seq![arg_shape(a), arg_shape(b), arg_shape(c)]);
    }
    v
}

/// One argument.
fn args1(a: Arg) -> (v: Vec<Arg>)
    ensures
        arg_shapes(v@) == seq![arg_shape(a)],
{
    let mut v = Vec::new();
    v.push(a);
    proof {
        assert(arg_shapes(v@) =~= seq![arg_shape(a)]);
    }
    v
}

/// A command that takes the endpoint and, for a destructive one, `--yes`.
fn endpoint_only(name: &str, about: &str, confirm: bool) -> (c: Command)
    ensures
        command_shape(c) == endpoint_leaf(name@, about@, confirm),
        c.subcommands@.len() == 0,
{
    if confirm {
        command_with(name, about, args2(endpoint_arg(), yes_arg()))
    } else {
        command_with(name, about, args1(endpoint_arg()))
    }
}

/// A command on one container: the endpoint, the container and, for a
/// destructive one, `--yes`.
fn container_command(name: &str, about: &str, confirm: bool) -> (c: Command)
    ensures
        command_shape(c) == container_leaf(name@, about@, confirm),
        c.subcommands@.len() == 0,
{
    if confirm {
        command_with(name, about, args3(endpoint_arg(), container_id_arg(), yes_arg()))
    } else {
        command_with(name, about, args2(endpoint_arg(), container_id_arg()))
    }
}

/// A command on one stack, with `--yes` for a destructive one.
fn stack_command(name: &str, about: &str, confirm: bool) -> (c: Command)
    ensures
        command_shape(c) == stack_leaf(name@, about@, confirm),
        c.subcommands@.len() == 0,
{
    if confirm {
        command_with(name, about, args2(stack_name_arg(), yes_arg()))
    } else {
        command_with(name, about, args1(stack_name_arg()))
    }
}

/// The shapes of a list of commands.
pub open spec fn command_shapes(cs: Seq<Command>) -> Seq<CommandShape> {
    cs.map_values(|s: Command| command_shape(s))
}

/// Appends a command to a list under construction.
fn push_command(subs: &mut Vec<Command>, c: Command)
    ensures
        final(subs)@ == old(subs)@.push(c),
        command_shapes(final(subs)@) == command_shapes(old(subs)@).push(command_shape(c)),
{
    subs.push(c);
    proof {
        assert(command_shapes(final(subs)@) =~= command_shapes(old(subs)@).push(command_shape(c)));
    }
}

fn config_command() -> (c: Command)
    ensures
        group_of(c) == config_spec(),
{
    let mut subs = Vec::new();
    push_command(
        &mut subs,
        command_with(
            "set-url",
            "Set the Portainer URL",
            args1(required_positional("url", "URL", "Portainer base URL (e.g. https://portainer.example.com)")),
        ),
    );
    push_command(
        &mut subs,
        command_with(
            "set-token",
            "Set the Portainer API token",
            args1(required_positional("token", "TOKEN", "API token from Portainer")),
        ),
    );
    push_command(&mut subs, command("show", "Show current configuration"));
    push_command(&mut subs, command("check", "Verify connectivity to the Portainer instance"));
    let ghost shapes = command_shapes(subs@);
    let c = group_command("config", "Manage portctl configuration", subs);
    proof {
        assert(shapes =~= config_spec().1);
        assert(c.subcommands@.map_values(|s: Command| command_shape(s)) == shapes);
    }
    c
}

fn endpoint_command() -> (c: Command)
    ensures
        group_of(c) == endpoint_group_spec(),
{
    let mut subs = Vec::new();
    push_command(&mut subs, command("ls", "List all endpoints"));
    push_command(
        &mut subs,
        command_with(
            "inspect",
            "Show detailed information about an endpoint",
            args1(required_positional("name", "NAME", "Endpoint name")),
        ),
    );
    let ghost shapes = command_shapes(subs@);
    let c = group_command("endpoint", "Manage Portainer endpoints", subs);
    proof {
        assert(shapes =~= endpoint_group_spec().1);
        assert(c.subcommands@.map_values(|s: Command| command_shape(s)) == shapes);
    }
    c
}

fn deploy_command() -> (c: Command)
    ensures
        command_shape(c) == deploy_spec(),
        c.subcommands@.len() == 0,
{
    let mut args = Vec::new();
    assert(arg_shapes(args@) =~= Seq::<ArgShape>::empty());
    push_arg(&mut args, required_positional("name", "NAME", "Stack name"));
    push_arg(&mut args, endpoint_arg());
    push_arg(&mut args, conflicting(option_arg("file", Some('f'), "file", "PATH", "Path to a local compose file"), "git-url"));
    push_arg(&mut args, conflicting(option_arg("git-url", None, "git-url", "URL", "Git repository URL"), "file"));
    push_arg(&mut args, 
        option_with_default(
            "git-ref",
            None,
            "git-ref",
            "REF",
            "refs/heads/main",
            "Git reference (branch, tag, or commit)",
        ),
    );
    push_arg(&mut args, 
        option_with_default(
            "compose-file",
            None,
            "compose-file",
            "PATH",
            "docker-compose.yml",
            "Path to compose file inside the git repository",
        ),
    );
    let user = option_arg(
        "git-username",
        None,
        "git-username",
        "USERNAME",
        "Username for private repository authentication",
    );
    push_arg(&mut args, needing(needing(user, "git-url"), "git-password"));
    let pass = option_arg(
        "git-password",
        None,
        "git-password",
        "PASSWORD",
        "Password or personal access token for private repository authentication",
    );
    push_arg(&mut args, needing(needing(pass, "git-url"), "git-username"));
    push_arg(&mut args, option_arg("env-file", None, "env-file", "PATH", "Path to an environment file for the stack"));
    let ghost shapes = arg_shapes(args@);
    let mut c = command_with("deploy", "Create and deploy a new stack", args);
    let mut members = Vec::new();
    members.push(copy_str("file"));
    members.push(copy_str("git-url"));
    let g = Group { id: copy_str("source"), members, required: true };
    let ghost before = c.groups@;
    c.groups.push(g);
    proof {
        assert(texts_of(g.members@) =~= seq!["file"@, "git-url"@]);
        assert(before.len() == 0);
        assert(c.groups@.map_values(|g: Group| group_shape(g)) =~= deploy_spec().groups);
        assert(shapes[2] =~= deploy_spec().args[2]);
        assert(shapes[3] =~= deploy_spec().args[3]);
        assert(shapes[6] =~= deploy_spec().args[6]);
        assert(shapes[7] =~= deploy_spec().args[7]);
        assert(shapes =~= deploy_spec().args);
        assert(command_shape(c) =~= deploy_spec());
    }
    c
}

fn stack_group() -> (c: Command)
    ensures
        group_of(c) == stack_group_spec(),
{
    let mut subs = Vec::new();
    push_command(&mut subs, command_with("ls", "List all stacks", args1(endpoint_filter_arg("Filter by endpoint name"))));
    push_command(&mut subs, stack_command("inspect", "Show detailed information about a stack", false));
    push_command(&mut subs, stack_command("start", "Start a stack", false));
    push_command(&mut subs, stack_command("stop", "Stop a stack", true));
    push_command(&mut subs, stack_command("update", "Pull latest git changes and redeploy a stack", false));
    push_command(&mut subs, stack_command("rm", "Remove a stack", true));
    push_command(&mut subs, deploy_command());
    push_command(&mut subs, stack_command("compose", "Print the compose file of a stack", false));
    push_command(&mut subs, stack_command("edit", "Open a stack's compose file in an editor and redeploy on save", false));
    let ghost shapes = command_shapes(subs@);
    let c = group_command("stack", "Manage stacks on a Portainer endpoint", subs);
    proof {
        assert(shapes =~= stack_group_spec().1);
        assert(c.subcommands@.map_values(|s: Command| command_shape(s)) == shapes);
    }
    c
}

fn system_group() -> (c: Command)
    ensures
        group_of(c) == system_group_spec(),
{
    let mut subs = Vec::new();
    push_command(
        &mut subs,
        command_with(
            "prune",
            "Remove all stopped containers, dangling images, unused volumes, and unused networks",
            args2(endpoint_filter_arg("Limit to a specific endpoint (default: all endpoints)"), yes_arg()),
        ),
    );
    let ghost shapes = command_shapes(subs@);
    let c = group_command("system", "System-wide operations across all endpoints", subs);
    proof {
        assert(shapes =~= system_group_spec().1);
        assert(c.subcommands@.map_values(|s: Command| command_shape(s)) == shapes);
    }
    c
}

fn image_group() -> (c: Command)
    ensures
        group_of(c) == image_group_spec(),
{
    let mut subs = Vec::new();
    push_command(&mut subs, endpoint_only("ls", "List all images on an endpoint", false));
    push_command(
        &mut subs,
        command_with("inspect", "Show detailed information about an image", args2(endpoint_arg(), image_ref_arg())),
    );
    push_command(&mut subs, command_with("pull", "Pull an image", args2(endpoint_arg(), image_ref_arg())));
    push_command(&mut subs, command_with("rm", "Remove an image", args3(endpoint_arg(), image_ref_arg(), yes_arg())));
    push_command(&mut subs, endpoint_only("prune", "Remove all dangling (untagged) images", true));
    let ghost shapes = command_shapes(subs@);
    let c = group_command("image", "Manage images on a Portainer endpoint", subs);
    proof {
        assert(shapes =~= image_group_spec().1);
        assert(c.subcommands@.map_values(|s: Command| command_shape(s)) == shapes);
    }
    c
}

/// The commands of volumes or networks, which take the same shape.
fn named_resource_group(
    name: &str,
    about: &str,
    noun: &str,
    value_name: &str,
    default_driver: &str,
    driver_help: &str,
    about_ls: &str,
    about_inspect: &str,
    about_create: &str,
    about_rm: &str,
    about_prune: &str,
) -> (c: Command)
    ensures
        group_of(c) == resource_group_spec(
            name@,
            about@,
            noun@,
            value_name@,
            default_driver@,
            driver_help@,
            about_ls@,
            about_inspect@,
            about_create@,
            about_rm@,
            about_prune@,
        ),
{
    let mut subs = Vec::new();
    push_command(&mut subs, endpoint_only("ls", about_ls, false));
    push_command(
        &mut subs,
        command_with("inspect", about_inspect, args2(endpoint_arg(), required_positional("name", value_name, noun))),
    );
    push_command(
        &mut subs,
        command_with(
            "create",
            about_create,
            args3(
                endpoint_arg(),
                required_positional("name", value_name, noun),
                option_with_default("driver", Some('d'), "driver", "DRIVER", default_driver, driver_help),
            ),
        ),
    );
    push_command(
        &mut subs,
        command_with("rm", about_rm, args3(endpoint_arg(), required_positional("name", value_name, noun), yes_arg())),
    );
    push_command(&mut subs, endpoint_only("prune", about_prune, true));
    let ghost shapes = command_shapes(subs@);
    let c = group_command(name, about, subs);
    proof {
        assert(shapes =~= resource_group_spec(
            name@,
            about@,
            noun@,
            value_name@,
            default_driver@,
            driver_help@,
            about_ls@,
            about_inspect@,
            about_create@,
            about_rm@,
            about_prune@,
        ).1);
        assert(c.subcommands@.map_values(|s: Command| command_shape(s)) == shapes);
    }
    c
}

fn logs_command() -> (c: Command)
    ensures
        command_shape(c) == logs_spec(),
        c.subcommands@.len() == 0,
{
    let mut a = Vec::new();
    a.push(endpoint_arg());
    a.push(container_id_arg());
    let mut tail = option_with_default(
        "tail",
        Some('n'),
        "tail",
        "LINES",
        "100",
        "Number of lines to show from the end of the logs",
    );
    tail.numeric = true;
    a.push(tail);
    a.push(flag_arg("timestamps", Some('t'), "timestamps", "Show timestamps"));
    a.push(flag_arg("follow", Some('f'), "follow", "Stream logs as they are produced"));
    proof {
        assert(arg_shapes(a@) =~= logs_spec().args);
    }
    command_with("logs", "Fetch logs from a container", a)
}

fn exec_command() -> (c: Command)
    ensures
        command_shape(c) == container_group_spec().1[15],
        c.subcommands@.len() == 0,
{
    let cmd = required(
        plain("cmd", ArgKind::Trailing, "CMD", "Command to run (use -- to separate from portctl args)"),
    );
    let a = args3(endpoint_arg(), container_id_arg(), cmd);
    proof {
        assert(arg_shapes(a@) =~= container_group_spec().1[15].args);
    }
    command_with("exec", "Run a command inside a container", a)
}

fn kill_command() -> (c: Command)
    ensures
        command_shape(c) == container_group_spec().1[13],
        c.subcommands@.len() == 0,
{
    let mut a = Vec::new();
    a.push(endpoint_arg());
    a.push(container_id_arg());
    a.push(
        option_with_default(
            "signal",
            Some('s'),
            "signal",
            "SIGNAL",
            "SIGTERM",
            "Signal to send (e.g. SIGTERM, SIGKILL, SIGHUP)",
        ),
    );
    a.push(yes_arg());
    proof {
        assert(arg_shapes(a@) =~= container_group_spec().1[13].args);
    }
    command_with("kill", "Send a signal to a container", a)
}

fn container_group() -> (c: Command)
    ensures
        group_of(c) == container_group_spec(),
{
    let mut subs = Vec::new();
    push_command(&mut subs, command_with("ls", "List all containers", args1(endpoint_filter_arg("Filter by endpoint name"))));
    push_command(&mut subs, logs_command());
    push_command(
        &mut subs,
        container_command("stats", "Show CPU, memory, network, and block I/O usage for a container", false),
    );
    push_command(&mut subs, container_command("start", "Start a container", false));
    push_command(&mut subs, container_command("stop", "Stop a container", true));
    push_command(&mut subs, container_command("restart", "Restart a container", false));
    push_command(&mut subs, container_command("inspect", "Show detailed information about a container", false));
    push_command(&mut subs, container_command("rm", "Remove a container", true));
    push_command(&mut subs, endpoint_only("prune", "Remove all stopped containers", true));
    push_command(
        &mut subs,
        command_with(
            "cp",
            "Copy files between a container and the local filesystem",
            args3(
                endpoint_arg(),
                required_positional("src", "SRC", "Source path (use <container>:<path> for container paths)"),
                required_positional("dest", "DEST", "Destination path (use <container>:<path> for container paths)"),
            ),
        ),
    );
    push_command(&mut subs, container_command("pause", "Pause all processes in a container", false));
    push_command(&mut subs, container_command("unpause", "Unpause all processes in a container", false));
    push_command(&mut subs, container_command("top", "Show running processes inside a container", false));
    push_command(&mut subs, kill_command());
    push_command(
        &mut subs,
        command_with(
            "rename",
            "Rename a container",
            args3(endpoint_arg(), container_id_arg(), required_positional("new-name", "NEW_NAME", "New container name")),
        ),
    );
    push_command(&mut subs, exec_command());
    let ghost shapes = command_shapes(subs@);
    let c = group_command("container", "Manage containers on a Portainer endpoint", subs);
    proof {
        assert(shapes =~= container_group_spec().1);
        assert(c.subcommands@.map_values(|s: Command| command_shape(s)) == shapes);
    }
    c
}

/// The grammars of a list of command groups.
pub open spec fn groups_of(cs: Seq<Command>) -> Seq<(CommandShape, Seq<CommandShape>)> {
    cs.map_values(|g: Command| group_of(g))
}

/// Appends a command group to a list under construction.
fn push_group(subs: &mut Vec<Command>, c: Command)
    ensures
        final(subs)@ == old(subs)@.push(c),
        groups_of(final(subs)@) == groups_of(old(subs)@).push(group_of(c)),
{
    subs.push(c);
    proof {
        assert(groups_of(final(subs)@) =~= groups_of(old(subs)@).push(group_of(c)));
    }
}

/// The grammar of `portctl`: exactly `portctl_grammar`.
pub fn build_cli() -> (c: Command)
    ensures
        grammar_of(c) == portctl_grammar(),
        c.name@ == NAME@,
        c.subcommand_required,
        names(c.subcommands@) == seq![
            "config"@,
            "endpoint"@,
            "stack"@,
            "system"@,
            "image"@,
            "volume"@,
            "network"@,
            "container"@,
        ],
{
    let mut subs = Vec::new();
    push_group(&mut subs, config_command());
    push_group(&mut subs, endpoint_command());
    push_group(&mut subs, stack_group());
    push_group(&mut subs, system_group());
    push_group(&mut subs, image_group());
    push_group(
        &mut subs,
        named_resource_group(
            "volume",
            "Manage volumes on a Portainer endpoint",
            "Volume name",
            "VOLUME",
            "local",
            "Volume driver (e.g. local, nfs)",
            "List all volumes on an endpoint",
            "Show detailed information about a volume",
            "Create a volume",
            "Remove a volume",
            "Remove all unused volumes",
        ),
    );
    push_group(
        &mut subs,
        named_resource_group(
            "network",
            "Manage networks on a Portainer endpoint",
            "Network name",
            "NETWORK",
            "bridge",
            "Network driver (e.g. bridge, overlay)",
            "List all networks on an endpoint",
            "Show detailed information about a network",
            "Create a network",
            "Remove a network",
            "Remove all unused networks",
        ),
    );
    push_group(&mut subs, container_group());
    let ghost groups = groups_of(subs@);
    let mut c = group_command(
        NAME,
        "A command-line utility designed to manage Docker environments through the Portainer API",
        subs,
    );
    let insecure = flag_arg("insecure", None, "insecure", "Accept invalid TLS certificates");
    c.args.push(insecure);
    proof {
        assert(groups =~= portctl_grammar().1);
        assert(c.subcommands@.map_values(|g: Command| group_of(g)) == groups);
        assert(c.args@.map_values(|a: Arg| arg_shape(a)) =~= portctl_grammar().0.args);
        assert(command_shape(c) =~= portctl_grammar().0);
        assert forall|k: int| 0 <= k < 8 implies (#[trigger] names(c.subcommands@)[k]) == groups[k].0.name by {
            assert(groups[k] == group_of(c.subcommands@[k]));
        }
        assert(names(c.subcommands@) =~= seq![
            "config"@,
            "endpoint"@,
            "stack"@,
            "system"@,
            "image"@,
            "volume"@,
            "network"@,
            "container"@,
        ]);
    }
    c
}

} // verus!
