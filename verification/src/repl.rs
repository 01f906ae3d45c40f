//! The interactive shell: reading a command line into a command, command
//! completion and hints, and the help listing.
use vstd::prelude::*;
use crate::commands::{
    EventCommands, NetworkCommands, NodeCommands, RegistryCommands, SystemCommands,
    TenantCommands, VolumeCommands, WorkloadCommands,
};
use crate::num::{parse_i32, parse_i64, parse_int, parse_u16};
use crate::text::{
    byte_len, byte_length, byte_prefix, chars_of, has_prefix, is_byte_boundary, join_strings, joined,
    prefix_within_bytes, split_words, trim, trimmed, starts_with, str_equal, str_views, string_from_range, views, words,
};

verus! {

/// What one line typed at the shell asks for.
#[derive(Debug, Clone, PartialEq, Eq)]
pub enum ReplCommand {
    Login,
    Logout,
    Status,
    Volumes(VolumeCommands),
    Registry(RegistryCommands),
    Nodes(NodeCommands),
    System(SystemCommands),
    Workloads(WorkloadCommands),
    Events(EventCommands),
    Networks(NetworkCommands),
    Tenant(TenantCommands),
    /// `tenant user-create` with too few words: print its usage.
    UserCreateUsage,
    Help,
    /// An unknown command; holds its first word.
    Unknown(String),
    /// An empty line.
    Nothing,
}

/// The value that follows the first occurrence of `flag` among the words
/// (`parts.windows(2).find(|w| w[0] == flag).map(|w| w[1])`).
pub open spec fn flag_value(w: Seq<Seq<char>>, flag: Seq<char>) -> Option<Seq<char>>
    decreases w.len(),
{
    if w.len() < 2 {
        None
    } else if w[0] == flag {
        Some(w[1])
    } else {
        flag_value(w.drop_first(), flag)
    }
}

/// The value after `flag`, if any.
pub fn parse_flag<'a>(parts: &[&'a str], flag: &str) -> (r: Option<&'a str>)
    ensures
        match r {
            Some(v) => flag_value(str_views(parts@), flag@) == Some(v@),
            None => flag_value(str_views(parts@), flag@) is None,
        },
{
    let ghost w = str_views(parts@);
    let mut i: usize = 0;
    assert(w.skip(0) =~= w);
    while i < parts.len() && i + 1 < parts.len()
        invariant
            w == str_views(parts@),
            i <= parts@.len(),
            flag_value(w, flag@) == flag_value(w.skip(i as int), flag@),
        decreases parts@.len() - i,
    {
        assert(w.skip(i as int)[0] == parts@[i as int]@);
        assert(w.skip(i as int)[1] == parts@[i + 1]@);
        if str_equal(parts[i], flag) {
            return Some(parts[i + 1]);
        }
        assert(w.skip(i as int).drop_first() =~= w.skip(i + 1));
        i = i + 1;
    }
    None
}

/// `o`, or `d` where `o` is empty.
pub open spec fn text_or(o: Option<Seq<char>>, d: Seq<char>) -> Seq<char> {
    match o {
        Some(v) => v,
        None => d,
    }
}

/// `o`, or `d` where `o` is empty.
pub open spec fn int_or(o: Option<int>, d: int) -> int {
    match o {
        Some(v) => v,
        None => d,
    }
}

/// The view of an optional string.
pub open spec fn opt_text(o: Option<String>) -> Option<Seq<char>> {
    match o {
        Some(s) => Some(s@),
        None => None,
    }
}

/// The value of a flag parsed as `i32`, if it is there and parses.
pub open spec fn flag_i32(w: Seq<Seq<char>>, flag: Seq<char>) -> Option<int> {
    match flag_value(w, flag) {
        Some(v) => parse_int(v, i32::MIN as int, i32::MAX as int),
        None => None,
    }
}

/// The value of a flag parsed as `u16`, if it is there and parses.
pub open spec fn flag_u16(w: Seq<Seq<char>>, flag: Seq<char>) -> Option<int> {
    match flag_value(w, flag) {
        Some(v) => parse_int(v, 0, u16::MAX as int),
        None => None,
    }
}

/// The fallback: an unknown command named by its first word.
pub open spec fn unknown(w: Seq<Seq<char>>, r: ReplCommand) -> bool {
    r matches ReplCommand::Unknown(c) && c@ == w[0]
}

/// Whether word `i` is the text `lit`.
fn is_word(parts: &[&str], i: usize, lit: &str) -> (r: bool)
    ensures
        r == (i < parts@.len() && str_views(parts@)[i as int] == lit@),
{
    i < parts.len() && str_equal(parts[i], lit)
}

/// Word `i`, owned.
fn word(parts: &[&str], i: usize) -> (r: String)
    requires
        i < parts@.len(),
    ensures
        r@ == str_views(parts@)[i as int],
{
    String::from_str(parts[i])
}

/// The value after `flag`, or `default`.
fn flag_or(parts: &[&str], flag: &str, default: &str) -> (r: String)
    ensures
        r@ == text_or(flag_value(str_views(parts@), flag@), default@),
{
    match parse_flag(parts, flag) {
        Some(v) => String::from_str(v),
        None => String::from_str(default),
    }
}

/// The value after `flag`, owned.
fn flag_opt(parts: &[&str], flag: &str) -> (r: Option<String>)
    ensures
        opt_text(r) == flag_value(str_views(parts@), flag@),
{
    match parse_flag(parts, flag) {
        Some(v) => Some(String::from_str(v)),
        None => None,
    }
}

/// The first word, as an unknown command.
fn unknown_command(parts: &[&str]) -> (r: ReplCommand)
    requires
        parts@.len() > 0,
    ensures
        unknown(str_views(parts@), r),
{
    ReplCommand::Unknown(word(parts, 0))
}

// ----- volumes -----

/// What a `volumes ...` line asks for.
pub open spec fn volumes_spec(w: Seq<Seq<char>>, r: ReplCommand) -> bool {
    if w.len() == 2 && w[1] == "list"@ {
        r == ReplCommand::Volumes(VolumeCommands::List)
    } else if w.len() == 3 && w[1] == "get"@ {
        r matches ReplCommand::Volumes(VolumeCommands::Get { id }) && id@ == w[2]
    } else if w.len() == 5 && w[1] == "create"@ && w[3] == "--size"@ {
        r matches ReplCommand::Volumes(VolumeCommands::Create { name, size, pool }) && name@
            == w[2] && size == int_or(parse_int(w[4], i64::MIN as int, i64::MAX as int), 10)
            && pool is None
    } else if w.len() == 7 && w[1] == "create"@ && w[3] == "--size"@ && w[5] == "--pool"@ {
        r matches ReplCommand::Volumes(VolumeCommands::Create { name, size, pool }) && name@
            == w[2] && size == int_or(parse_int(w[4], i64::MIN as int, i64::MAX as int), 10)
            && opt_text(pool) == Some(w[6])
    } else if w.len() == 3 && w[1] == "delete"@ {
        r matches ReplCommand::Volumes(VolumeCommands::Delete { id }) && id@ == w[2]
    } else if w.len() == 5 && w[1] == "attach"@ && w[3] == "--agent"@ {
        r matches ReplCommand::Volumes(VolumeCommands::Attach { id, agent, workload }) && id@
            == w[2] && agent@ == w[4] && workload is None
    } else if w.len() == 7 && w[1] == "attach"@ && w[3] == "--agent"@ && w[5] == "--workload"@ {
        r matches ReplCommand::Volumes(VolumeCommands::Attach { id, agent, workload }) && id@
            == w[2] && agent@ == w[4] && opt_text(workload) == Some(w[6])
    } else if w.len() == 3 && w[1] == "detach"@ {
        r matches ReplCommand::Volumes(VolumeCommands::Detach { id }) && id@ == w[2]
    } else if w.len() == 4 && w[1] == "snapshots"@ && w[2] == "--volume"@ {
        r matches ReplCommand::Volumes(VolumeCommands::Snapshots { volume }) && volume@ == w[3]
    } else if w.len() == 6 && w[1] == "snapshot-create"@ && w[2] == "--volume"@ && w[4]
        == "--name"@ {
        r matches ReplCommand::Volumes(VolumeCommands::SnapshotCreate { volume, name })
            && volume@ == w[3] && name@ == w[5]
    } else {
        unknown(w, r)
    }
}

fn i64_or(s: &str, d: i64) -> (r: i64)
    ensures
        r == int_or(parse_int(s@, i64::MIN as int, i64::MAX as int), d as int),
{
    match parse_i64(s) {
        Some(v) => v,
        None => d,
    }
}

fn parse_volumes(parts: &[&str]) -> (r: ReplCommand)
    requires
        parts@.len() > 0,
    ensures
        volumes_spec(str_views(parts@), r),
{
    let n = parts.len();
    if n == 2 && is_word(parts, 1, "list") {
        ReplCommand::Volumes(VolumeCommands::List)
    } else if n == 3 && is_word(parts, 1, "get") {
        ReplCommand::Volumes(VolumeCommands::Get { id: word(parts, 2) })
    } else if n == 5 && is_word(parts, 1, "create") && is_word(parts, 3, "--size") {
        ReplCommand::Volumes(
            VolumeCommands::Create { name: word(parts, 2), size: i64_or(parts[4], 10), pool: None },
        )
    } else if n == 7 && is_word(parts, 1, "create") && is_word(parts, 3, "--size") && is_word(
        parts,
        5,
        "--pool",
    ) {
        ReplCommand::Volumes(
            VolumeCommands::Create {
                name: word(parts, 2),
                size: i64_or(parts[4], 10),
                pool: Some(word(parts, 6)),
            },
        )
    } else if n == 3 && is_word(parts, 1, "delete") {
        ReplCommand::Volumes(VolumeCommands::Delete { id: word(parts, 2) })
    } else if n == 5 && is_word(parts, 1, "attach") && is_word(parts, 3, "--agent") {
        ReplCommand::Volumes(
            VolumeCommands::Attach { id: word(parts, 2), agent: word(parts, 4), workload: None },
        )
    } else if n == 7 && is_word(parts, 1, "attach") && is_word(parts, 3, "--agent") && is_word(
        parts,
        5,
        "--workload",
    ) {
        ReplCommand::Volumes(
            VolumeCommands::Attach {
                id: word(parts, 2),
                agent: word(parts, 4),
                workload: Some(word(parts, 6)),
            },
        )
    } else if n == 3 && is_word(parts, 1, "detach") {
        ReplCommand::Volumes(VolumeCommands::Detach { id: word(parts, 2) })
    } else if n == 4 && is_word(parts, 1, "snapshots") && is_word(parts, 2, "--volume") {
        ReplCommand::Volumes(VolumeCommands::Snapshots { volume: word(parts, 3) })
    } else if n == 6 && is_word(parts, 1, "snapshot-create") && is_word(parts, 2, "--volume")
        && is_word(parts, 4, "--name") {
        ReplCommand::Volumes(
            VolumeCommands::SnapshotCreate { volume: word(parts, 3), name: word(parts, 5) },
        )
    } else {
        unknown_command(parts)
    }
}

// ----- registry -----

/// What a `registry ...` line asks for.
pub open spec fn registry_spec(w: Seq<Seq<char>>, r: ReplCommand) -> bool {
    if w.len() == 2 && w[1] == "agents"@ {
        r == ReplCommand::Registry(RegistryCommands::Agents)
    } else if w.len() == 3 && w[1] == "agents-get"@ {
        r matches ReplCommand::Registry(RegistryCommands::AgentsGet { id }) && id@ == w[2]
    } else if w.len() == 4 && w[1] == "pre-register"@ {
        r matches ReplCommand::Registry(RegistryCommands::PreRegister { name, hostname, os, arch, ttl })
            && name@ == w[2] && hostname@ == w[3] && os is None && arch is None && ttl is None
    } else if w.len() == 6 && w[1] == "pre-register"@ && w[4] == "--os"@ {
        r matches ReplCommand::Registry(RegistryCommands::PreRegister { name, hostname, os, arch, ttl })
            && name@ == w[2] && hostname@ == w[3] && opt_text(os) == Some(w[5]) && arch is None
            && ttl is None
    } else if w.len() == 3 && w[1] == "deregister"@ {
        r matches ReplCommand::Registry(RegistryCommands::Deregister { id }) && id@ == w[2]
    } else if w.len() == 2 && w[1] == "pending"@ {
        r == ReplCommand::Registry(RegistryCommands::Pending)
    } else if w.len() == 3 && w[1] == "pending-delete"@ {
        r matches ReplCommand::Registry(RegistryCommands::PendingDelete { id }) && id@ == w[2]
    } else if w.len() == 2 && w[1] == "stats"@ {
        r == ReplCommand::Registry(RegistryCommands::Stats)
    } else if w.len() == 2 && w[1] == "tokens"@ {
        r == ReplCommand::Registry(RegistryCommands::Tokens)
    } else if w.len() == 2 && w[1] == "bootstrap-create"@ {
        r == ReplCommand::Registry(
            RegistryCommands::BootstrapCreate { description: None, ttl: None, max_uses: None },
        )
    } else if w.len() == 2 && w[1] == "bootstrap-list"@ {
        r == ReplCommand::Registry(RegistryCommands::BootstrapList)
    } else if w.len() == 3 && w[1] == "bootstrap-revoke"@ {
        r matches ReplCommand::Registry(RegistryCommands::BootstrapRevoke { id }) && id@ == w[2]
    } else {
        unknown(w, r)
    }
}

fn parse_registry(parts: &[&str]) -> (r: ReplCommand)
    requires
        parts@.len() > 0,
    ensures
        registry_spec(str_views(parts@), r),
{
    let n = parts.len();
    if n == 2 && is_word(parts, 1, "agents") {
        ReplCommand::Registry(RegistryCommands::Agents)
    } else if n == 3 && is_word(parts, 1, "agents-get") {
        ReplCommand::Registry(RegistryCommands::AgentsGet { id: word(parts, 2) })
    } else if n == 4 && is_word(parts, 1, "pre-register") {
        ReplCommand::Registry(
            RegistryCommands::PreRegister {
                name: word(parts, 2),
                hostname: word(parts, 3),
                os: None,
                arch: None,
                ttl: None,
            },
        )
    } else if n == 6 && is_word(parts, 1, "pre-register") && is_word(parts, 4, "--os") {
        ReplCommand::Registry(
            RegistryCommands::PreRegister {
                name: word(parts, 2),
                hostname: word(parts, 3),
                os: Some(word(parts, 5)),
                arch: None,
                ttl: None,
            },
        )
    } else if n == 3 && is_word(parts, 1, "deregister") {
        ReplCommand::Registry(RegistryCommands::Deregister { id: word(parts, 2) })
    } else if n == 2 && is_word(parts, 1, "pending") {
        ReplCommand::Registry(RegistryCommands::Pending)
    } else if n == 3 && is_word(parts, 1, "pending-delete") {
        ReplCommand::Registry(RegistryCommands::PendingDelete { id: word(parts, 2) })
    } else if n == 2 && is_word(parts, 1, "stats") {
        ReplCommand::Registry(RegistryCommands::Stats)
    } else if n == 2 && is_word(parts, 1, "tokens") {
        ReplCommand::Registry(RegistryCommands::Tokens)
    } else if n == 2 && is_word(parts, 1, "bootstrap-create") {
        ReplCommand::Registry(
            RegistryCommands::BootstrapCreate { description: None, ttl: None, max_uses: None },
        )
    } else if n == 2 && is_word(parts, 1, "bootstrap-list") {
        ReplCommand::Registry(RegistryCommands::BootstrapList)
    } else if n == 3 && is_word(parts, 1, "bootstrap-revoke") {
        ReplCommand::Registry(RegistryCommands::BootstrapRevoke { id: word(parts, 2) })
    } else {
        unknown_command(parts)
    }
}

// ----- nodes and system -----

/// What a `nodes ...` line asks for.
pub open spec fn nodes_spec(w: Seq<Seq<char>>, r: ReplCommand) -> bool {
    if w.len() == 2 && w[1] == "list"@ {
        r == ReplCommand::Nodes(NodeCommands::List)
    } else if w.len() == 3 && w[1] == "get"@ {
        r matches ReplCommand::Nodes(NodeCommands::Get { id }) && id@ == w[2]
    } else if w.len() == 2 && w[1] == "metrics"@ {
        r == ReplCommand::Nodes(NodeCommands::Metrics { watch: false })
    } else if w.len() == 3 && w[1] == "metrics"@ && w[2] == "--watch"@ {
        r == ReplCommand::Nodes(NodeCommands::Metrics { watch: true })
    } else if w.len() == 3 && w[1] == "agent-metrics"@ {
        r matches ReplCommand::Nodes(NodeCommands::AgentMetrics { id, watch }) && id@ == w[2]
            && !watch
    } else if w.len() == 4 && w[1] == "agent-metrics"@ && w[3] == "--watch"@ {
        r matches ReplCommand::Nodes(NodeCommands::AgentMetrics { id, watch }) && id@ == w[2]
            && watch
    } else {
        unknown(w, r)
    }
}

fn parse_nodes(parts: &[&str]) -> (r: ReplCommand)
    requires
        parts@.len() > 0,
    ensures
        nodes_spec(str_views(parts@), r),
{
    let n = parts.len();
    if n == 2 && is_word(parts, 1, "list") {
        ReplCommand::Nodes(NodeCommands::List)
    } else if n == 3 && is_word(parts, 1, "get") {
        ReplCommand::Nodes(NodeCommands::Get { id: word(parts, 2) })
    } else if n == 2 && is_word(parts, 1, "metrics") {
        ReplCommand::Nodes(NodeCommands::Metrics { watch: false })
    } else if n == 3 && is_word(parts, 1, "metrics") && is_word(parts, 2, "--watch") {
        ReplCommand::Nodes(NodeCommands::Metrics { watch: true })
    } else if n == 3 && is_word(parts, 1, "agent-metrics") {
        ReplCommand::Nodes(NodeCommands::AgentMetrics { id: word(parts, 2), watch: false })
    } else if n == 4 && is_word(parts, 1, "agent-metrics") && is_word(parts, 3, "--watch") {
        ReplCommand::Nodes(NodeCommands::AgentMetrics { id: word(parts, 2), watch: true })
    } else {
        unknown_command(parts)
    }
}

/// What a `system ...` line asks for.
pub open spec fn system_spec(w: Seq<Seq<char>>, r: ReplCommand) -> bool {
    if w.len() == 2 && w[1] == "stats"@ {
        r == ReplCommand::System(SystemCommands::Stats { watch: false })
    } else if w.len() == 3 && w[1] == "stats"@ && w[2] == "--watch"@ {
        r == ReplCommand::System(SystemCommands::Stats { watch: true })
    } else {
        unknown(w, r)
    }
}

fn parse_system(parts: &[&str]) -> (r: ReplCommand)
    requires
        parts@.len() > 0,
    ensures
        system_spec(str_views(parts@), r),
{
    let n = parts.len();
    if n == 2 && is_word(parts, 1, "stats") {
        ReplCommand::System(SystemCommands::Stats { watch: false })
    } else if n == 3 && is_word(parts, 1, "stats") && is_word(parts, 2, "--watch") {
        ReplCommand::System(SystemCommands::Stats { watch: true })
    } else {
        unknown_command(parts)
    }
}

// ----- workloads and events -----

/// What a `workloads ...` line asks for.
pub open spec fn workloads_spec(w: Seq<Seq<char>>, r: ReplCommand) -> bool {
    if w.len() == 3 && w[1] == "metrics"@ {
        r matches ReplCommand::Workloads(WorkloadCommands::Metrics { id, watch }) && id@ == w[2]
            && !watch
    } else if w.len() == 4 && w[1] == "metrics"@ && w[3] == "--watch"@ {
        r matches ReplCommand::Workloads(WorkloadCommands::Metrics { id, watch }) && id@ == w[2]
            && watch
    } else if w.len() == 2 && w[1] == "list"@ {
        r == ReplCommand::Workloads(WorkloadCommands::List)
    } else if w.len() == 4 && w[1] == "create"@ {
        r matches ReplCommand::Workloads(WorkloadCommands::Create { name, image, cpu, memory, disk })
            && name@ == w[2] && image@ == w[3] && cpu == 500 && memory == 536870912 && disk
            == 10737418240
    } else if w.len() == 6 && w[1] == "create"@ && w[4] == "--cpu"@ {
        r matches ReplCommand::Workloads(WorkloadCommands::Create { name, image, cpu, memory, disk })
            && name@ == w[2] && image@ == w[3] && cpu == int_or(
            parse_int(w[5], i32::MIN as int, i32::MAX as int),
            500,
        ) && memory == 536870912 && disk == 10737418240
    } else if w.len() == 3 && w[1] == "get"@ {
        r matches ReplCommand::Workloads(WorkloadCommands::Get { id }) && id@ == w[2]
    } else if w.len() == 3 && w[1] == "delete"@ {
        r matches ReplCommand::Workloads(WorkloadCommands::Delete { id }) && id@ == w[2]
    } else {
        unknown(w, r)
    }
}

fn i32_or(s: &str, d: i32) -> (r: i32)
    ensures
        r == int_or(parse_int(s@, i32::MIN as int, i32::MAX as int), d as int),
{
    match parse_i32(s) {
        Some(v) => v,
        None => d,
    }
}

fn parse_workloads(parts: &[&str]) -> (r: ReplCommand)
    requires
        parts@.len() > 0,
    ensures
        workloads_spec(str_views(parts@), r),
{
    let n = parts.len();
    if n == 3 && is_word(parts, 1, "metrics") {
        ReplCommand::Workloads(WorkloadCommands::Metrics { id: word(parts, 2), watch: false })
    } else if n == 4 && is_word(parts, 1, "metrics") && is_word(parts, 3, "--watch") {
        ReplCommand::Workloads(WorkloadCommands::Metrics { id: word(parts, 2), watch: true })
    } else if n == 2 && is_word(parts, 1, "list") {
        ReplCommand::Workloads(WorkloadCommands::List)
    } else if n == 4 && is_word(parts, 1, "create") {
        ReplCommand::Workloads(
            WorkloadCommands::Create {
                name: word(parts, 2),
                image: word(parts, 3),
                cpu: 500,
                memory: 536870912,
                disk: 10737418240,
            },
        )
    } else if n == 6 && is_word(parts, 1, "create") && is_word(parts, 4, "--cpu") {
        ReplCommand::Workloads(
            WorkloadCommands::Create {
                name: word(parts, 2),
                image: word(parts, 3),
                cpu: i32_or(parts[5], 500),
                memory: 536870912,
                disk: 10737418240,
            },
        )
    } else if n == 3 && is_word(parts, 1, "get") {
        ReplCommand::Workloads(WorkloadCommands::Get { id: word(parts, 2) })
    } else if n == 3 && is_word(parts, 1, "delete") {
        ReplCommand::Workloads(WorkloadCommands::Delete { id: word(parts, 2) })
    } else {
        unknown_command(parts)
    }
}

/// What an `events ...` line asks for.
pub open spec fn events_spec(w: Seq<Seq<char>>, r: ReplCommand) -> bool {
    if w.len() == 2 && w[1] == "list"@ {
        r == ReplCommand::Events(EventCommands::List)
    } else {
        unknown(w, r)
    }
}

fn parse_events(parts: &[&str]) -> (r: ReplCommand)
    requires
        parts@.len() > 0,
    ensures
        events_spec(str_views(parts@), r),
{
    if parts.len() == 2 && is_word(parts, 1, "list") {
        ReplCommand::Events(EventCommands::List)
    } else {
        unknown_command(parts)
    }
}

// ----- networks -----

/// What a `networks ...` line asks for. The subcommands that take flags
/// read them anywhere on the line; a missing flag takes its default.
pub open spec fn networks_spec(w: Seq<Seq<char>>, r: ReplCommand) -> bool {
    if w.len() == 2 && w[1] == "list"@ {
        r == ReplCommand::Networks(NetworkCommands::List)
    } else if w.len() == 3 && w[1] == "get"@ {
        r matches ReplCommand::Networks(NetworkCommands::Get { id }) && id@ == w[2]
    } else if w.len() == 3 && w[1] == "delete"@ {
        r matches ReplCommand::Networks(NetworkCommands::Delete { id }) && id@ == w[2]
    } else if w.len() == 4 && w[1] == "create"@ {
        r matches ReplCommand::Networks(NetworkCommands::Create { name, cidr, overlay }) && name@
            == w[2] && cidr@ == w[3] && overlay@ == "wireguard"@
    } else if w.len() == 6 && w[1] == "create"@ && w[4] == "--overlay"@ {
        r matches ReplCommand::Networks(NetworkCommands::Create { name, cidr, overlay }) && name@
            == w[2] && cidr@ == w[3] && overlay@ == w[5]
    } else if w.len() >= 2 && w[1] == "policies"@ {
        r matches ReplCommand::Networks(NetworkCommands::Policies { network }) && network@
            == text_or(flag_value(w, "--network"@), ""@)
    } else if w.len() >= 2 && w[1] == "policy-create"@ {
        r matches ReplCommand::Networks(
            NetworkCommands::PolicyCreate {
                network,
                direction,
                action,
                priority,
                source,
                destination,
                port,
                protocol,
            },
        ) && network@ == text_or(flag_value(w, "--network"@), ""@) && direction@ == text_or(
            flag_value(w, "--direction"@),
            "ingress"@,
        ) && action@ == text_or(flag_value(w, "--action"@), "allow"@) && priority == int_or(
            flag_i32(w, "--priority"@),
            100,
        ) && opt_text(source) == flag_value(w, "--source"@) && opt_text(destination)
            == flag_value(w, "--destination"@) && (match port {
            Some(p) => flag_u16(w, "--port"@) == Some(p as int),
            None => flag_u16(w, "--port"@) is None,
        }) && opt_text(protocol) == flag_value(w, "--protocol"@)
    } else if w.len() >= 2 && w[1] == "members"@ {
        r matches ReplCommand::Networks(NetworkCommands::Members { network }) && network@
            == text_or(flag_value(w, "--network"@), ""@)
    } else if w.len() >= 2 && w[1] == "member-add"@ {
        r matches ReplCommand::Networks(NetworkCommands::MemberAdd { network, workload })
            && network@ == text_or(flag_value(w, "--network"@), ""@) && workload@ == text_or(
            flag_value(w, "--workload"@),
            ""@,
        )
    } else if w.len() >= 2 && w[1] == "member-remove"@ {
        r matches ReplCommand::Networks(NetworkCommands::MemberRemove { network, workload })
            && network@ == text_or(flag_value(w, "--network"@), ""@) && workload@ == text_or(
            flag_value(w, "--workload"@),
            ""@,
        )
    } else {
        unknown(w, r)
    }
}

fn flag_i32_or(parts: &[&str], flag: &str, d: i32) -> (r: i32)
    ensures
        r == int_or(flag_i32(str_views(parts@), flag@), d as int),
{
    match parse_flag(parts, flag) {
        Some(v) => match parse_i32(v) {
            Some(x) => x,
            None => d,
        },
        None => d,
    }
}

fn flag_u16_opt(parts: &[&str], flag: &str) -> (r: Option<u16>)
    ensures
        match r {
            Some(p) => flag_u16(str_views(parts@), flag@) == Some(p as int),
            None => flag_u16(str_views(parts@), flag@) is None,
        },
{
    match parse_flag(parts, flag) {
        Some(v) => parse_u16(v),
        None => None,
    }
}

fn parse_networks(parts: &[&str]) -> (r: ReplCommand)
    requires
        parts@.len() > 0,
    ensures
        networks_spec(str_views(parts@), r),
{
    let n = parts.len();
    if n == 2 && is_word(parts, 1, "list") {
        ReplCommand::Networks(NetworkCommands::List)
    } else if n == 3 && is_word(parts, 1, "get") {
        ReplCommand::Networks(NetworkCommands::Get { id: word(parts, 2) })
    } else if n == 3 && is_word(parts, 1, "delete") {
        ReplCommand::Networks(NetworkCommands::Delete { id: word(parts, 2) })
    } else if n == 4 && is_word(parts, 1, "create") {
        ReplCommand::Networks(
            NetworkCommands::Create {
                name: word(parts, 2),
                cidr: word(parts, 3),
                overlay: String::from_str("wireguard"),
            },
        )
    } else if n == 6 && is_word(parts, 1, "create") && is_word(parts, 4, "--overlay") {
        ReplCommand::Networks(
            NetworkCommands::Create {
                name: word(parts, 2),
                cidr: word(parts, 3),
                overlay: word(parts, 5),
            },
        )
    } else if is_word(parts, 1, "policies") {
        ReplCommand::Networks(
            NetworkCommands::Policies { network: flag_or(parts, "--network", "") },
        )
    } else if is_word(parts, 1, "policy-create") {
        ReplCommand::Networks(
            NetworkCommands::PolicyCreate {
                network: flag_or(parts, "--network", ""),
                direction: flag_or(parts, "--direction", "ingress"),
                action: flag_or(parts, "--action", "allow"),
                priority: flag_i32_or(parts, "--priority", 100),
                source: flag_opt(parts, "--source"),
                destination: flag_opt(parts, "--destination"),
                port: flag_u16_opt(parts, "--port"),
                protocol: flag_opt(parts, "--protocol"),
            },
        )
    } else if is_word(parts, 1, "members") {
        ReplCommand::Networks(NetworkCommands::Members { network: flag_or(parts, "--network", "") })
    } else if is_word(parts, 1, "member-add") {
        ReplCommand::Networks(
            NetworkCommands::MemberAdd {
                network: flag_or(parts, "--network", ""),
                workload: flag_or(parts, "--workload", ""),
            },
        )
    } else if is_word(parts, 1, "member-remove") {
        ReplCommand::Networks(
            NetworkCommands::MemberRemove {
                network: flag_or(parts, "--network", ""),
                workload: flag_or(parts, "--workload", ""),
            },
        )
    } else {
        unknown_command(parts)
    }
}

// ----- tenant -----

/// What a `tenant ...` line asks for.
pub open spec fn tenant_spec(w: Seq<Seq<char>>, r: ReplCommand) -> bool {
    if w.len() == 2 && w[1] == "info"@ {
        r == ReplCommand::Tenant(TenantCommands::Info)
    } else if w.len() == 2 && w[1] == "users"@ {
        r == ReplCommand::Tenant(TenantCommands::Users)
    } else if w.len() == 3 && w[1] == "user-get"@ {
        r matches ReplCommand::Tenant(TenantCommands::UserGet { id }) && id@ == w[2]
    } else if w.len() == 3 && w[1] == "user-delete"@ {
        r matches ReplCommand::Tenant(TenantCommands::UserDelete { id }) && id@ == w[2]
    } else if w.len() == 2 && w[1] == "roles"@ {
        r == ReplCommand::Tenant(TenantCommands::Roles)
    } else if w.len() >= 2 && w[1] == "user-create"@ {
        if w.len() < 4 {
            r == ReplCommand::UserCreateUsage
        } else {
            r matches ReplCommand::Tenant(
                TenantCommands::UserCreate { username, password, role, email, force_password_change },
            ) && username@ == w[2] && password@ == w[3] && role@ == text_or(
                flag_value(w, "--role"@),
                ""@,
            ) && opt_text(email) == flag_value(w, "--email"@) && force_password_change == (
            flag_value(w, "--force-password-change"@) == Some("true"@))
        }
    } else if w.len() >= 2 && w[1] == "set-role"@ {
        r matches ReplCommand::Tenant(TenantCommands::SetRole { user, role }) && user@ == text_or(
            flag_value(w, "--user"@),
            ""@,
        ) && role@ == text_or(flag_value(w, "--role"@), ""@)
    } else {
        unknown(w, r)
    }
}

fn parse_tenant(parts: &[&str]) -> (r: ReplCommand)
    requires
        parts@.len() > 0,
    ensures
        tenant_spec(str_views(parts@), r),
{
    let n = parts.len();
    if n == 2 && is_word(parts, 1, "info") {
        ReplCommand::Tenant(TenantCommands::Info)
    } else if n == 2 && is_word(parts, 1, "users") {
        ReplCommand::Tenant(TenantCommands::Users)
    } else if n == 3 && is_word(parts, 1, "user-get") {
        ReplCommand::Tenant(TenantCommands::UserGet { id: word(parts, 2) })
    } else if n == 3 && is_word(parts, 1, "user-delete") {
        ReplCommand::Tenant(TenantCommands::UserDelete { id: word(parts, 2) })
    } else if n == 2 && is_word(parts, 1, "roles") {
        ReplCommand::Tenant(TenantCommands::Roles)
    } else if is_word(parts, 1, "user-create") {
        if n < 4 {
            ReplCommand::UserCreateUsage
        } else {
            let force = match parse_flag(parts, "--force-password-change") {
                Some(v) => str_equal(v, "true"),
                None => false,
            };
            ReplCommand::Tenant(
                TenantCommands::UserCreate {
                    username: word(parts, 2),
                    password: word(parts, 3),
                    role: flag_or(parts, "--role", ""),
                    email: flag_opt(parts, "--email"),
                    force_password_change: force,
                },
            )
        }
    } else if is_word(parts, 1, "set-role") {
        ReplCommand::Tenant(
            TenantCommands::SetRole {
                user: flag_or(parts, "--user", ""),
                role: flag_or(parts, "--role", ""),
            },
        )
    } else {
        unknown_command(parts)
    }
}

// ----- the whole line -----

/// What the words of a shell line ask for, arm by arm in the order the
/// shell tries them; a line that matches no arm is an unknown command.
pub open spec fn command_spec(w: Seq<Seq<char>>, r: ReplCommand) -> bool {
    if w.len() == 0 {
        r == ReplCommand::Nothing
    } else if w.len() == 1 && w[0] == "login"@ {
        r == ReplCommand::Login
    } else if w.len() == 1 && w[0] == "logout"@ {
        r == ReplCommand::Logout
    } else if w.len() == 1 && w[0] == "status"@ {
        r == ReplCommand::Status
    } else if w[0] == "volumes"@ {
        volumes_spec(w, r)
    } else if w[0] == "registry"@ {
        registry_spec(w, r)
    } else if w[0] == "nodes"@ {
        nodes_spec(w, r)
    } else if w[0] == "system"@ {
        system_spec(w, r)
    } else if w[0] == "workloads"@ {
        workloads_spec(w, r)
    } else if w[0] == "events"@ {
        events_spec(w, r)
    } else if w[0] == "networks"@ {
        networks_spec(w, r)
    } else if w[0] == "tenant"@ {
        tenant_spec(w, r)
    } else if w.len() == 1 && (w[0] == "help"@ || w[0] == "?"@) {
        r == ReplCommand::Help
    } else {
        unknown(w, r)
    }
}

/// Reads the words of a shell line into the command they ask for.
pub fn parse_command(parts: &[&str]) -> (r: ReplCommand)
    ensures
        command_spec(str_views(parts@), r),
{
    let n = parts.len();
    if n == 0 {
        ReplCommand::Nothing
    } else if n == 1 && is_word(parts, 0, "login") {
        ReplCommand::Login
    } else if n == 1 && is_word(parts, 0, "logout") {
        ReplCommand::Logout
    } else if n == 1 && is_word(parts, 0, "status") {
        ReplCommand::Status
    } else if is_word(parts, 0, "volumes") {
        parse_volumes(parts)
    } else if is_word(parts, 0, "registry") {
        parse_registry(parts)
    } else if is_word(parts, 0, "nodes") {
        parse_nodes(parts)
    } else if is_word(parts, 0, "system") {
        parse_system(parts)
    } else if is_word(parts, 0, "workloads") {
        parse_workloads(parts)
    } else if is_word(parts, 0, "events") {
        parse_events(parts)
    } else if is_word(parts, 0, "networks") {
        parse_networks(parts)
    } else if is_word(parts, 0, "tenant") {
        parse_tenant(parts)
    } else if n == 1 && (is_word(parts, 0, "help") || is_word(parts, 0, "?")) {
        ReplCommand::Help
    } else {
        unknown_command(parts)
    }
}

// ----- the command table -----

/// The views of a table of (command, description) pairs.
pub open spec fn pair_views(v: Seq<(&str, &str)>) -> Seq<(Seq<char>, Seq<char>)> {
    v.map_values(|p: (&str, &str)| (p.0@, p.1@))
}

/// The commands the shell knows, each with its description, in the order
/// completion offers them.
pub open spec fn command_table() -> Seq<(Seq<char>, Seq<char>)> {
    seq![
        ("login"@, "authenticate with the server"@),
        ("logout"@, "clear authentication token"@),
        ("status"@, "show session and user info"@),
        ("volumes list"@, "list all volumes"@),
        ("volumes get <id>"@, "show volume details"@),
        ("volumes create <name> --size <gb>"@, "create a new volume"@),
        ("volumes delete <id>"@, "delete a volume"@),
        ("volumes attach <id> --agent <agent-id>"@, "attach volume to agent"@),
        ("volumes detach <id>"@, "detach volume from agent"@),
        ("volumes snapshots --volume <id>"@, "list snapshots of a volume"@),
        ("volumes snapshot-create --volume <id> --name <name>"@, "create a snapshot"@),
        ("registry agents"@, "list registered agents"@),
        ("registry agents-get <id>"@, "show agent details"@),
        ("registry pre-register <name> <hostname>"@, "pre-register a new node"@),
        ("registry deregister <id>"@, "deregister an agent"@),
        ("registry pending"@, "list pending registrations"@),
        ("registry pending-delete <id>"@, "cancel a pending registration"@),
        ("registry stats"@, "show registry statistics"@),
        ("registry tokens"@, "list active registration tokens"@),
        ("registry bootstrap-create"@, "create a cluster-wide bootstrap token"@),
        ("registry bootstrap-list"@, "list active bootstrap tokens"@),
        ("registry bootstrap-revoke <id>"@, "revoke a bootstrap token"@),
        ("nodes list"@, "list all nodes"@),
        ("nodes get <id>"@, "show node details"@),
        ("nodes metrics"@, "show cluster node metrics"@),
        ("nodes metrics --watch"@, "live-refresh cluster node metrics"@),
        ("nodes agent-metrics <id>"@, "show metrics for a specific agent"@),
        ("nodes agent-metrics <id> --watch"@, "live-refresh agent metrics"@),
        ("system stats"@, "show cluster-wide aggregated stats"@),
        ("system stats --watch"@, "live-refresh cluster stats"@),
        ("workloads list"@, "list all workloads"@),
        ("workloads get <id>"@, "show workload details"@),
        ("workloads create <name> <image>"@, "schedule a new workload"@),
        ("workloads delete <id>"@, "delete a workload"@),
        ("workloads metrics <id>"@, "show workload resource usage"@),
        ("workloads metrics <id> --watch"@, "live-refresh workload metrics"@),
        ("events list"@, "list failover and audit events"@),
        ("networks list"@, "list all overlay networks"@),
        ("networks get <id>"@, "show network details"@),
        ("networks create <name> <cidr>"@, "create a new overlay network"@),
        ("networks delete <id>"@, "delete a network"@),
        ("networks policies --network <id>"@, "list network policies"@),
        ("networks policy-create --network <id> --direction <in|out> --action <allow|deny>"@, "create a network policy"@),
        ("networks members --network <id>"@, "list network members"@),
        ("networks member-add --network <id> --workload <id>"@, "add workload to network"@),
        ("networks member-remove --network <id> --workload <id>"@, "remove workload from network"@),
        ("tenant info"@, "show organization details"@),
        ("tenant users"@, "list users in the organization"@),
        ("tenant user-get <id>"@, "show user details"@),
        ("tenant user-create <username> <password> --role <role-id>"@, "create a new user"@),
        ("tenant user-delete <id>"@, "delete a user"@),
        ("tenant roles"@, "list available roles"@),
        ("tenant set-role --user <id> --role <role-id>"@, "assign a role to a user"@),
        ("help"@, "show available commands"@),
        ("exit"@, "exit the shell"@),
    ]
}

/// The table of commands and their descriptions.
pub fn commands() -> (v: Vec<(&'static str, &'static str)>)
    ensures
        pair_views(v@) == command_table(),
{
    let mut v: Vec<(&'static str, &'static str)> = Vec::new();
    v.push(("login", "authenticate with the server"));
    v.push(("logout", "clear authentication token"));
    v.push(("status", "show session and user info"));
    v.push(("volumes list", "list all volumes"));
    v.push(("volumes get <id>", "show volume details"));
    v.push(("volumes create <name> --size <gb>", "create a new volume"));
    v.push(("volumes delete <id>", "delete a volume"));
    v.push(("volumes attach <id> --agent <agent-id>", "attach volume to agent"));
    v.push(("volumes detach <id>", "detach volume from agent"));
    v.push(("volumes snapshots --volume <id>", "list snapshots of a volume"));
    v.push(("volumes snapshot-create --volume <id> --name <name>", "create a snapshot"));
    v.push(("registry agents", "list registered agents"));
    v.push(("registry agents-get <id>", "show agent details"));
    v.push(("registry pre-register <name> <hostname>", "pre-register a new node"));
    v.push(("registry deregister <id>", "deregister an agent"));
    v.push(("registry pending", "list pending registrations"));
    v.push(("registry pending-delete <id>", "cancel a pending registration"));
    v.push(("registry stats", "show registry statistics"));
    v.push(("registry tokens", "list active registration tokens"));
    v.push(("registry bootstrap-create", "create a cluster-wide bootstrap token"));
    v.push(("registry bootstrap-list", "list active bootstrap tokens"));
    v.push(("registry bootstrap-revoke <id>", "revoke a bootstrap token"));
    v.push(("nodes list", "list all nodes"));
    v.push(("nodes get <id>", "show node details"));
    v.push(("nodes metrics", "show cluster node metrics"));
    v.push(("nodes metrics --watch", "live-refresh cluster node metrics"));
    v.push(("nodes agent-metrics <id>", "show metrics for a specific agent"));
    v.push(("nodes agent-metrics <id> --watch", "live-refresh agent metrics"));
    v.push(("system stats", "show cluster-wide aggregated stats"));
    v.push(("system stats --watch", "live-refresh cluster stats"));
    v.push(("workloads list", "list all workloads"));
    v.push(("workloads get <id>", "show workload details"));
    v.push(("workloads create <name> <image>", "schedule a new workload"));
    v.push(("workloads delete <id>", "delete a workload"));
    v.push(("workloads metrics <id>", "show workload resource usage"));
    v.push(("workloads metrics <id> --watch", "live-refresh workload metrics"));
    v.push(("events list", "list failover and audit events"));
    v.push(("networks list", "list all overlay networks"));
    v.push(("networks get <id>", "show network details"));
    v.push(("networks create <name> <cidr>", "create a new overlay network"));
    v.push(("networks delete <id>", "delete a network"));
    v.push(("networks policies --network <id>", "list network policies"));
    v.push(("networks policy-create --network <id> --direction <in|out> --action <allow|deny>", "create a network policy"));
    v.push(("networks members --network <id>", "list network members"));
    v.push(("networks member-add --network <id> --workload <id>", "add workload to network"));
    v.push(("networks member-remove --network <id> --workload <id>", "remove workload from network"));
    v.push(("tenant info", "show organization details"));
    v.push(("tenant users", "list users in the organization"));
    v.push(("tenant user-get <id>", "show user details"));
    v.push(("tenant user-create <username> <password> --role <role-id>", "create a new user"));
    v.push(("tenant user-delete <id>", "delete a user"));
    v.push(("tenant roles", "list available roles"));
    v.push(("tenant set-role --user <id> --role <role-id>", "assign a role to a user"));
    v.push(("help", "show available commands"));
    v.push(("exit", "exit the shell"));
    assert(pair_views(v@) =~= command_table());
    v
}

// ----- completion and hints -----

/// The commands of `t` that begin with `prefix`, in table order.
pub open spec fn completions_of(
    t: Seq<(Seq<char>, Seq<char>)>,
    prefix: Seq<char>,
) -> Seq<(Seq<char>, Seq<char>)>
    decreases t.len(),
{
    if t.len() == 0 {
        Seq::empty()
    } else {
        let prev = completions_of(t.drop_last(), prefix);
        if has_prefix(t.last().0, prefix) {
            prev.push(t.last())
        } else {
            prev
        }
    }
}

/// The commands that complete the text before the cursor at byte `pos`.
pub fn completions(line: &str, pos: usize) -> (r: Vec<(&'static str, &'static str)>)
    requires
        is_byte_boundary(line@, pos as int),
    ensures
        pair_views(r@) == completions_of(command_table(), prefix_within_bytes(line@, pos as int)),
{
    let prefix = byte_prefix(line, pos);
    let table = commands();
    let mut r: Vec<(&'static str, &'static str)> = Vec::new();
    let mut i: usize = 0;
    assert(command_table().take(0) =~= Seq::<(Seq<char>, Seq<char>)>::empty());
    while i < table.len()
        invariant
            pair_views(table@) == command_table(),
            prefix@ == prefix_within_bytes(line@, pos as int),
            i <= table@.len(),
            pair_views(r@) == completions_of(command_table().take(i as int), prefix@),
        decreases table@.len() - i,
    {
        let ghost t = command_table().take(i + 1);
        assert(t.drop_last() =~= command_table().take(i as int));
        assert(t.last() == (table@[i as int].0@, table@[i as int].1@));
        if starts_with(table[i].0, prefix.as_str()) {
            let ghost before = pair_views(r@);
            r.push(table[i]);
            assert(pair_views(r@) =~= before.push(t.last()));
        }
        i = i + 1;
    }
    assert(command_table().take(table@.len() as int) =~= command_table());
    r
}

/// The rest of the first command of `t` that begins with `line` and is
/// longer than it.
pub open spec fn hint_of(t: Seq<(Seq<char>, Seq<char>)>, line: Seq<char>) -> Option<Seq<char>>
    decreases t.len(),
{
    if t.len() == 0 {
        None
    } else if has_prefix(t[0].0, line) && t[0].0 != line {
        Some(t[0].0.skip(line.len() as int))
    } else {
        hint_of(t.drop_first(), line)
    }
}

/// The greyed-out rest of a command shown after the cursor; only when the
/// cursor is at the end of the line.
pub fn hint(line: &str, pos: usize) -> (r: Option<String>)
    ensures
        opt_text(r) == if pos < byte_len(line@) {
            None
        } else {
            hint_of(command_table(), line@)
        },
{
    if pos < byte_length(line) {
        return None;
    }
    let table = commands();
    let ghost tv = command_table();
    let mut i: usize = 0;
    assert(tv.skip(0) =~= tv);
    while i < table.len()
        invariant
            pair_views(table@) == tv,
            tv == command_table(),
            i <= table@.len(),
            hint_of(tv, line@) == hint_of(tv.skip(i as int), line@),
            pos >= byte_len(line@),
        decreases table@.len() - i,
    {
        let cmd = table[i].0;
        assert(tv.skip(i as int)[0] == (table@[i as int].0@, table@[i as int].1@));
        if starts_with(cmd, line) && !str_equal(cmd, line) {
            let cv = chars_of(cmd);
            let n = line.unicode_len();
            let rest = string_from_range(cv.as_slice(), n, cv.len());
            assert(rest@ =~= cmd@.skip(line@.len() as int));
            assert(hint_of(tv.skip(i as int), line@) == Some(cmd@.skip(line@.len() as int)));
            return Some(rest);
        }
        assert(tv.skip(i as int).drop_first() =~= tv.skip(i + 1));
        i = i + 1;
    }
    assert(tv.skip(table@.len() as int) =~= Seq::<(Seq<char>, Seq<char>)>::empty());
    None
}

// ----- help -----

/// The first two words of `cmd`, joined by one space.
pub open spec fn help_base(cmd: Seq<char>) -> Seq<char> {
    joined(words(cmd).take(if words(cmd).len() < 2 { words(cmd).len() as int } else { 2 }), " "@)
}

/// The description of the first command of `t` that begins with `base`.
pub open spec fn description_of(t: Seq<(Seq<char>, Seq<char>)>, base: Seq<char>) -> Option<
    Seq<char>,
>
    decreases t.len(),
{
    if t.len() == 0 {
        None
    } else if has_prefix(t[0].0, base) {
        Some(t[0].1)
    } else {
        description_of(t.drop_first(), base)
    }
}

/// The description the help listing shows beside `cmd`: that of the first
/// known command that begins with the first two words of `cmd`.
pub fn help_description(cmd: &str) -> (r: Option<&'static str>)
    ensures
        match r {
            Some(d) => description_of(command_table(), help_base(cmd@)) == Some(d@),
            None => description_of(command_table(), help_base(cmd@)) is None,
        },
{
    let ws = split_words(cmd);
    let mut first: Vec<String> = Vec::new();
    let mut k: usize = 0;
    while k < ws.len() && k < 2
        invariant
            k <= ws@.len(),
            k <= 2,
            views(first@) == views(ws@).take(k as int),
        decreases 2 - k,
    {
        let ghost before = views(first@);
        first.push(ws[k].clone());
        assert(views(first@) =~= before.push(ws@[k as int]@));
        k = k + 1;
        assert(views(first@) =~= views(ws@).take(k as int));
    }
    let base = join_strings(&first, " ");
    assert(base@ == help_base(cmd@));
    let table = commands();
    let ghost tv = command_table();
    let mut i: usize = 0;
    assert(tv.skip(0) =~= tv);
    while i < table.len()
        invariant
            pair_views(table@) == tv,
            tv == command_table(),
            i <= table@.len(),
            description_of(tv, base@) == description_of(tv.skip(i as int), base@),
            base@ == help_base(cmd@),
        decreases table@.len() - i,
    {
        assert(tv.skip(i as int)[0] == (table@[i as int].0@, table@[i as int].1@));
        if starts_with(table[i].0, base.as_str()) {
            let d = table[i].1;
            assert(description_of(tv.skip(i as int), base@) == Some(d@));
            return Some(d);
        }
        assert(tv.skip(i as int).drop_first() =~= tv.skip(i + 1));
        i = i + 1;
    }
    None
}

/// The groups of the help listing, each with the commands it shows.
pub open spec fn help_group_table() -> Seq<(Seq<char>, Seq<Seq<char>>)> {
    seq![
        ("Auth"@, seq!["login"@, "logout"@, "status"@]),
        ("Volumes"@, seq!["volumes list"@, "volumes get <id>"@, "volumes create <name> --size <gb>"@, "volumes delete <id>"@, "volumes attach <id> --agent <agent-id>"@, "volumes detach <id>"@, "volumes snapshots --volume <id>"@, "volumes snapshot-create --volume <id> --name <name>"@]),
        ("Registry"@, seq!["registry agents"@, "registry agents-get <id>"@, "registry pre-register <name> <hostname>"@, "registry deregister <id>"@, "registry pending"@, "registry pending-delete <id>"@, "registry stats"@, "registry tokens"@, "registry bootstrap-create"@, "registry bootstrap-list"@, "registry bootstrap-revoke <id>"@]),
        ("Nodes"@, seq!["nodes list"@, "nodes get <id>"@, "nodes metrics"@, "nodes metrics --watch"@, "nodes agent-metrics <id>"@, "nodes agent-metrics <id> --watch"@]),
        ("System"@, seq!["system stats"@, "system stats --watch"@]),
        ("Workloads"@, seq!["workloads list"@, "workloads get <id>"@, "workloads create <name> <image>"@, "workloads delete <id>"@, "workloads metrics <id>"@, "workloads metrics <id> --watch"@]),
        ("Events"@, seq!["events list"@]),
        ("Networks"@, seq!["networks list"@, "networks get <id>"@, "networks create <name> <cidr>"@, "networks delete <id>"@, "networks policies --network <id>"@, "networks policy-create --network <id> --direction <in|out> --action <allow|deny>"@, "networks members --network <id>"@, "networks member-add --network <id> --workload <id>"@, "networks member-remove --network <id> --workload <id>"@]),
        ("Tenant"@, seq!["tenant info"@, "tenant users"@, "tenant user-get <id>"@, "tenant user-create <username> <password> --role <role-id>"@, "tenant user-delete <id>"@, "tenant roles"@, "tenant set-role --user <id> --role <role-id>"@]),
        ("Shell"@, seq!["help"@, "exit"@]),
    ]
}

/// The views of the help groups.
pub open spec fn group_views(v: Seq<(&str, Vec<&str>)>) -> Seq<(Seq<char>, Seq<Seq<char>>)> {
    v.map_values(|g: (&str, Vec<&str>)| (g.0@, str_views(g.1@)))
}

/// The groups of the help listing.
pub fn help_groups() -> (v: Vec<(&'static str, Vec<&'static str>)>)
    ensures
        group_views(v@) == help_group_table(),
{
    let mut v: Vec<(&'static str, Vec<&'static str>)> = Vec::new();
    let mut c: Vec<&'static str> = Vec::new();
    c.push("login");
    c.push("logout");
    c.push("status");
    v.push(("Auth", c));
    let mut c: Vec<&'static str> = Vec::new();
    c.push("volumes list");
    c.push("volumes get <id>");
    c.push("volumes create <name> --size <gb>");
    c.push("volumes delete <id>");
    c.push("volumes attach <id> --agent <agent-id>");
    c.push("volumes detach <id>");
    c.push("volumes snapshots --volume <id>");
    c.push("volumes snapshot-create --volume <id> --name <name>");
    v.push(("Volumes", c));
    let mut c: Vec<&'static str> = Vec::new();
    c.push("registry agents");
    c.push("registry agents-get <id>");
    c.push("registry pre-register <name> <hostname>");
    c.push("registry deregister <id>");
    c.push("registry pending");
    c.push("registry pending-delete <id>");
    c.push("registry stats");
    c.push("registry tokens");
    c.push("registry bootstrap-create");
    c.push("registry bootstrap-list");
    c.push("registry bootstrap-revoke <id>");
    v.push(("Registry", c));
    let mut c: Vec<&'static str> = Vec::new();
    c.push("nodes list");
    c.push("nodes get <id>");
    c.push("nodes metrics");
    c.push("nodes metrics --watch");
    c.push("nodes agent-metrics <id>");
    c.push("nodes agent-metrics <id> --watch");
    v.push(("Nodes", c));
    let mut c: Vec<&'static str> = Vec::new();
    c.push("system stats");
    c.push("system stats --watch");
    v.push(("System", c));
    let mut c: Vec<&'static str> = Vec::new();
    c.push("workloads list");
    c.push("workloads get <id>");
    c.push("workloads create <name> <image>");
    c.push("workloads delete <id>");
    c.push("workloads metrics <id>");
    c.push("workloads metrics <id> --watch");
    v.push(("Workloads", c));
    let mut c: Vec<&'static str> = Vec::new();
    c.push("events list");
    v.push(("Events", c));
    let mut c: Vec<&'static str> = Vec::new();
    c.push("networks list");
    c.push("networks get <id>");
    c.push("networks create <name> <cidr>");
    c.push("networks delete <id>");
    c.push("networks policies --network <id>");
    c.push("networks policy-create --network <id> --direction <in|out> --action <allow|deny>");
    c.push("networks members --network <id>");
    c.push("networks member-add --network <id> --workload <id>");
    c.push("networks member-remove --network <id> --workload <id>");
    v.push(("Networks", c));
    let mut c: Vec<&'static str> = Vec::new();
    c.push("tenant info");
    c.push("tenant users");
    c.push("tenant user-get <id>");
    c.push("tenant user-create <username> <password> --role <role-id>");
    c.push("tenant user-delete <id>");
    c.push("tenant roles");
    c.push("tenant set-role --user <id> --role <role-id>");
    v.push(("Tenant", c));
    let mut c: Vec<&'static str> = Vec::new();
    c.push("help");
    c.push("exit");
    v.push(("Shell", c));
    assert(group_views(v@) =~~= help_group_table());
    v
}

/// The (command, description) lines shown for the commands of one group:
/// those with a description, in order.
pub open spec fn help_lines(cmds: Seq<Seq<char>>) -> Seq<(Seq<char>, Seq<char>)>
    decreases cmds.len(),
{
    if cmds.len() == 0 {
        Seq::empty()
    } else {
        let prev = help_lines(cmds.drop_last());
        match description_of(command_table(), help_base(cmds.last())) {
            Some(d) => prev.push((cmds.last(), d)),
            None => prev,
        }
    }
}

/// The lines of the help listing for one group of commands.
pub fn help_entries(cmds: &Vec<&'static str>) -> (r: Vec<(&'static str, &'static str)>)
    ensures
        pair_views(r@) == help_lines(str_views(cmds@)),
{
    let mut r: Vec<(&'static str, &'static str)> = Vec::new();
    let mut i: usize = 0;
    assert(str_views(cmds@).take(0) =~= Seq::<Seq<char>>::empty());
    while i < cmds.len()
        invariant
            i <= cmds@.len(),
            pair_views(r@) == help_lines(str_views(cmds@).take(i as int)),
        decreases cmds@.len() - i,
    {
        let ghost t = str_views(cmds@).take(i + 1);
        assert(t.drop_last() =~= str_views(cmds@).take(i as int));
        assert(t.last() == cmds@[i as int]@);
        match help_description(cmds[i]) {
            Some(d) => {
                let ghost before = pair_views(r@);
                r.push((cmds[i], d));
                assert(pair_views(r@) =~= before.push((cmds@[i as int]@, d@)));
            },
            None => {},
        }
        i = i + 1;
    }
    assert(str_views(cmds@).take(cmds@.len() as int) =~= str_views(cmds@));
    r
}

// ----- reading a line -----

/// What the shell does with one line typed at its prompt.
#[derive(Debug, Clone, PartialEq, Eq)]
pub enum LineAction {
    /// A blank line: prompt again.
    Skip,
    /// `exit`, `quit` or `q`: record the line in the history and leave.
    Exit { entry: String },
    /// Record the line in the history and run its words.
    Run { entry: String, words: Vec<String> },
}

/// The line asks the shell to end.
pub open spec fn is_exit_word(t: Seq<char>) -> bool {
    t == "exit"@ || t == "quit"@ || t == "q"@
}

/// What the shell does with `line`: it works on the line without its
/// surrounding whitespace, ignores it when nothing is left, ends on an exit
/// word, and otherwise runs the whitespace-separated words.
pub fn read_line(line: &str) -> (r: LineAction)
    ensures
        trimmed(line@).len() == 0 ==> r == LineAction::Skip,
        trimmed(line@).len() > 0 && is_exit_word(trimmed(line@)) ==> (r matches LineAction::Exit {
            entry,
        } && entry@ == trimmed(line@)),
        trimmed(line@).len() > 0 && !is_exit_word(trimmed(line@)) ==> (r matches LineAction::Run {
            entry,
            words: ws,
        } && entry@ == trimmed(line@) && views(ws@) == words(trimmed(line@))),
{
    let t = trim(line);
    if t.unicode_len() == 0 {
        return LineAction::Skip;
    }
    if str_equal(t.as_str(), "exit") || str_equal(t.as_str(), "quit") || str_equal(
        t.as_str(),
        "q",
    ) {
        return LineAction::Exit { entry: t };
    }
    let ws = split_words(t.as_str());
    LineAction::Run { entry: t, words: ws }
}

/// Completion offers only commands that begin with the typed text, each
/// of them a command of the table, in table order.
pub proof fn law_completions_begin_with_prefix(t: Seq<(Seq<char>, Seq<char>)>, prefix: Seq<char>)
    ensures
        forall|k: int|
            0 <= k < completions_of(t, prefix).len() ==> has_prefix(
                (#[trigger] completions_of(t, prefix)[k]).0,
                prefix,
            ) && t.contains(completions_of(t, prefix)[k]),
    decreases t.len(),
{
    if t.len() > 0 {
        law_completions_begin_with_prefix(t.drop_last(), prefix);
        let p = completions_of(t.drop_last(), prefix);
        let c = completions_of(t, prefix);
        assert forall|k: int| 0 <= k < c.len() implies has_prefix((#[trigger] c[k]).0, prefix)
            && t.contains(c[k]) by {
            if k < p.len() {
                assert(c[k] == p[k]);
                let j = choose|j: int| 0 <= j < t.drop_last().len() && t.drop_last()[j] == p[k];
                assert(t[j] == p[k]);
            } else {
                assert(c[k] == t.last());
                assert(t[t.len() - 1] == t.last());
            }
        }
    }
}

/// With nothing typed, completion offers every command.
pub proof fn law_empty_prefix_offers_all(t: Seq<(Seq<char>, Seq<char>)>)
    ensures
        completions_of(t, Seq::empty()) == t,
    decreases t.len(),
{
    if t.len() > 0 {
        law_empty_prefix_offers_all(t.drop_last());
        assert(t.last().0.take(0) =~= Seq::<char>::empty());
        assert(t.drop_last().push(t.last()) =~= t);
    }
}

/// A hint completes the typed text to a longer command of the table.
pub proof fn law_hint_completes_a_command(t: Seq<(Seq<char>, Seq<char>)>, line: Seq<char>)
    ensures
        hint_of(t, line) matches Some(rest) ==> rest.len() > 0 && exists|k: int|
            0 <= k < t.len() && (#[trigger] t[k]).0 == line + rest,
    decreases t.len(),
{
    if t.len() > 0 {
        if has_prefix(t[0].0, line) && t[0].0 != line {
            let rest = t[0].0.skip(line.len() as int);
            assert(t[0].0 =~= line + rest);
        } else {
            law_hint_completes_a_command(t.drop_first(), line);
            if let Some(rest) = hint_of(t, line) {
                let k = choose|k: int|
                    0 <= k < t.drop_first().len() && (#[trigger] t.drop_first()[k]).0 == line
                        + rest;
                assert(t[k + 1] == t.drop_first()[k]);
            }
        }
    }
}

/// Word `i` is the first occurrence of `flag` among the words, and a word
/// follows it.
pub open spec fn first_flag_at(w: Seq<Seq<char>>, flag: Seq<char>, i: int) -> bool {
    &&& 0 <= i
    &&& i + 1 < w.len()
    &&& w[i] == flag
    &&& forall|j: int| 0 <= j < i ==> w[j] != flag
}

/// No word that has a word after it is `flag`.
pub open spec fn flag_absent(w: Seq<Seq<char>>, flag: Seq<char>) -> bool {
    forall|j: int| 0 <= j && j + 1 < w.len() ==> w[j] != flag
}

proof fn lemma_flag_value_reads(w: Seq<Seq<char>>, flag: Seq<char>)
    ensures
        forall|i: int| #[trigger] first_flag_at(w, flag, i) ==> flag_value(w, flag) == Some(w[i + 1]),
        flag_absent(w, flag) ==> flag_value(w, flag) is None,
    decreases w.len(),
{
    if w.len() >= 2 && w[0] != flag {
        let v = w.drop_first();
        lemma_flag_value_reads(v, flag);
        assert forall|i: int| #[trigger] first_flag_at(w, flag, i) implies flag_value(w, flag)
            == Some(w[i + 1]) by {
            assert(i != 0);
            assert forall|j: int| 0 <= j < i - 1 implies v[j] != flag by {
                assert(v[j] == w[j + 1]);
            }
            assert(first_flag_at(v, flag, i - 1));
        }
        if flag_absent(w, flag) {
            assert forall|j: int| 0 <= j && j + 1 < v.len() implies v[j] != flag by {
                assert(v[j] == w[j + 1]);
            }
        }
    } else if w.len() >= 2 {
        assert forall|i: int| #[trigger] first_flag_at(w, flag, i) implies flag_value(w, flag)
            == Some(w[i + 1]) by {
            if i > 0 {
                assert(w[0] != flag);
            }
        }
    }
}

/// A line whose first word is `tenant` is read as a tenant command.
proof fn lemma_tenant_line(w: Seq<Seq<char>>, r: ReplCommand)
    requires
        w.len() >= 2,
        w[0] == "tenant"@,
    ensures
        command_spec(w, r) == tenant_spec(w, r),
{
    reveal_strlit("tenant");
    reveal_strlit("volumes");
    reveal_strlit("registry");
    reveal_strlit("nodes");
    reveal_strlit("system");
    reveal_strlit("workloads");
    reveal_strlit("events");
    reveal_strlit("networks");
    assert(w[0][0] == 't');
    assert(w[0] != "volumes"@ && w[0] != "registry"@ && w[0] != "nodes"@ && w[0] != "system"@
        && w[0] != "workloads"@ && w[0] != "events"@ && w[0] != "networks"@) by {
        assert("volumes"@[0] == 'v');
        assert("registry"@[0] == 'r');
        assert("nodes"@[0] == 'n');
        assert("system"@[0] == 's');
        assert("workloads"@[0] == 'w');
        assert("events"@[0] == 'e');
        assert("networks"@[0] == 'n');
    }
}

/// The other tenant lines: `info`, `users` and `roles` alone; `user-get`
/// and `user-delete` with the id as third word; `user-create` with fewer
/// than four words asks for its usage; `set-role` takes the words after the
/// first `--user` and `--role` (empty text when missing).
pub proof fn law_tenant_commands(w: Seq<Seq<char>>, r: ReplCommand, i: int)
    requires
        command_spec(w, r),
        w.len() >= 2,
        w[0] == "tenant"@,
    ensures
        w.len() == 2 && w[1] == "info"@ ==> r == ReplCommand::Tenant(TenantCommands::Info),
        w.len() == 2 && w[1] == "users"@ ==> r == ReplCommand::Tenant(TenantCommands::Users),
        w.len() == 2 && w[1] == "roles"@ ==> r == ReplCommand::Tenant(TenantCommands::Roles),
        w.len() == 3 && w[1] == "user-get"@ ==> (r matches ReplCommand::Tenant(
            TenantCommands::UserGet { id },
        ) && id@ == w[2]),
        w.len() == 3 && w[1] == "user-delete"@ ==> (r matches ReplCommand::Tenant(
            TenantCommands::UserDelete { id },
        ) && id@ == w[2]),
        w.len() < 4 && w[1] == "user-create"@ ==> r == ReplCommand::UserCreateUsage,
        w[1] == "set-role"@ ==> (r matches ReplCommand::Tenant(TenantCommands::SetRole { user, role })
            && (first_flag_at(w, "--user"@, i) ==> user@ == w[i + 1]) && (flag_absent(
            w,
            "--user"@,
        ) ==> user@ == ""@) && (first_flag_at(w, "--role"@, i) ==> role@ == w[i + 1]) && (
        flag_absent(w, "--role"@) ==> role@ == ""@)),
{
    lemma_tenant_line(w, r);
    reveal_strlit("info");
    reveal_strlit("users");
    reveal_strlit("roles");
    reveal_strlit("user-get");
    reveal_strlit("user-delete");
    reveal_strlit("user-create");
    reveal_strlit("set-role");
    assert("set-role"@ != "info"@ && "set-role"@ != "users"@ && "set-role"@ != "roles"@
        && "set-role"@ != "user-get"@ && "set-role"@ != "user-delete"@ && "set-role"@
        != "user-create"@) by {
        assert("set-role"@[0] == 's');
        assert("info"@[0] == 'i');
        assert("users"@[0] == 'u');
        assert("roles"@[0] == 'r');
        assert("user-get"@[0] == 'u');
        assert("user-delete"@[0] == 'u');
        assert("user-create"@[0] == 'u');
    }
    assert("user-create"@ != "info"@ && "user-create"@ != "users"@ && "user-create"@
        != "roles"@ && "user-create"@ != "user-get"@ && "user-create"@ != "user-delete"@) by {
        assert("user-create"@.len() == 11);
        assert("user-delete"@[5] == 'd');
        assert("user-create"@[5] == 'c');
    }
    assert("users"@ != "info"@ && "roles"@ != "info"@ && "roles"@ != "users"@) by {
        assert("users"@[0] == 'u');
        assert("info"@[0] == 'i');
        assert("roles"@[0] == 'r');
    }
    assert("user-delete"@ != "user-get"@) by {
        assert("user-delete"@.len() != "user-get"@.len());
    }
    lemma_flag_value_reads(w, "--user"@);
    lemma_flag_value_reads(w, "--role"@);
    if first_flag_at(w, "--user"@, i) {
        assert(flag_value(w, "--user"@) == Some(w[i + 1]));
    }
    if first_flag_at(w, "--role"@, i) {
        assert(flag_value(w, "--role"@) == Some(w[i + 1]));
    }
}

/// A `tenant user-create` line of at least four words creates the user
/// named by its third word with its fourth as password. The role and the
/// e-mail are the words after the first `--role` and `--email` (no role
/// reads as empty text, no e-mail as none), and a password change is forced
/// exactly when the word after the first `--force-password-change` is
/// `true`: `false`, any other word or no such flag leave it off.
pub proof fn law_user_create_reads_flags(w: Seq<Seq<char>>, r: ReplCommand, i: int)
    requires
        command_spec(w, r),
        w.len() >= 4,
        w[0] == "tenant"@,
        w[1] == "user-create"@,
    ensures
        r matches ReplCommand::Tenant(
            TenantCommands::UserCreate { username, password, role, email, force_password_change },
        ) && {
            &&& username@ == w[2]
            &&& password@ == w[3]
            &&& first_flag_at(w, "--force-password-change"@, i) ==> (force_password_change
                <==> w[i + 1] == "true"@)
            &&& flag_absent(w, "--force-password-change"@) ==> !force_password_change
            &&& first_flag_at(w, "--role"@, i) ==> role@ == w[i + 1]
            &&& flag_absent(w, "--role"@) ==> role@ == ""@
            &&& first_flag_at(w, "--email"@, i) ==> (email matches Some(e) && e@ == w[i + 1])
            &&& flag_absent(w, "--email"@) ==> email is None
        },
{
    lemma_tenant_line(w, r);
    lemma_flag_value_reads(w, "--force-password-change"@);
    lemma_flag_value_reads(w, "--role"@);
    lemma_flag_value_reads(w, "--email"@);
    if first_flag_at(w, "--force-password-change"@, i) {
        assert(flag_value(w, "--force-password-change"@) == Some(w[i + 1]));
    }
    if first_flag_at(w, "--role"@, i) {
        assert(flag_value(w, "--role"@) == Some(w[i + 1]));
    }
    if first_flag_at(w, "--email"@, i) {
        assert(flag_value(w, "--email"@) == Some(w[i + 1]));
    }
}

} // verus!
