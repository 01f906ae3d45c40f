use csfx::commands::{
    EventCommands, NetworkCommands, NodeCommands, RegistryCommands, SystemCommands,
    TenantCommands, VolumeCommands, WorkloadCommands,
};
use csfx::repl::{
    commands, completions, help_description, help_entries, help_groups, hint, parse_command,
    parse_flag, read_line, LineAction, ReplCommand,
};

fn parse(line: &str) -> ReplCommand {
    let parts: Vec<&str> = line.split_whitespace().collect();
    parse_command(&parts)
}

fn s(x: &str) -> String {
    x.to_string()
}

#[test]
fn parse_flag_examples() {
    let parts = ["networks", "policies", "--network", "n1", "--network", "n2"];
    assert_eq!(parse_flag(&parts, "--network"), Some("n1"));
    assert_eq!(parse_flag(&parts, "--missing"), None);
    assert_eq!(parse_flag(&["a", "--flag"], "--flag"), None);
    assert_eq!(parse_flag(&[], "--flag"), None);
}

#[test]
fn session_commands() {
    assert_eq!(parse("login"), ReplCommand::Login);
    assert_eq!(parse("logout"), ReplCommand::Logout);
    assert_eq!(parse("status"), ReplCommand::Status);
    assert_eq!(parse("login now"), ReplCommand::Unknown(s("login")));
    assert_eq!(parse("help"), ReplCommand::Help);
    assert_eq!(parse("?"), ReplCommand::Help);
    assert_eq!(parse(""), ReplCommand::Nothing);
    assert_eq!(parse("frobnicate 1 2"), ReplCommand::Unknown(s("frobnicate")));
}

#[test]
fn volume_commands() {
    assert_eq!(parse("volumes list"), ReplCommand::Volumes(VolumeCommands::List));
    assert_eq!(
        parse("volumes create data --size 20"),
        ReplCommand::Volumes(VolumeCommands::Create { name: s("data"), size: 20, pool: None })
    );
    assert_eq!(
        parse("volumes create data --size big --pool fast"),
        ReplCommand::Volumes(VolumeCommands::Create { name: s("data"), size: 10, pool: Some(s("fast")) })
    );
    assert_eq!(
        parse("volumes attach v1 --agent a1 --workload w1"),
        ReplCommand::Volumes(VolumeCommands::Attach { id: s("v1"), agent: s("a1"), workload: Some(s("w1")) })
    );
    assert_eq!(
        parse("volumes snapshot-create --volume v1 --name snap"),
        ReplCommand::Volumes(VolumeCommands::SnapshotCreate { volume: s("v1"), name: s("snap") })
    );
    assert_eq!(parse("volumes frob"), ReplCommand::Unknown(s("volumes")));
}

#[test]
fn registry_and_node_commands() {
    assert_eq!(
        parse("registry pre-register n h --os nixos"),
        ReplCommand::Registry(RegistryCommands::PreRegister {
            name: s("n"),
            hostname: s("h"),
            os: Some(s("nixos")),
            arch: None,
            ttl: None
        })
    );
    assert_eq!(
        parse("registry bootstrap-create"),
        ReplCommand::Registry(RegistryCommands::BootstrapCreate { description: None, ttl: None, max_uses: None })
    );
    assert_eq!(parse("nodes metrics --watch"), ReplCommand::Nodes(NodeCommands::Metrics { watch: true }));
    assert_eq!(
        parse("nodes agent-metrics abc"),
        ReplCommand::Nodes(NodeCommands::AgentMetrics { id: s("abc"), watch: false })
    );
    assert_eq!(parse("system stats"), ReplCommand::System(SystemCommands::Stats { watch: false }));
    assert_eq!(parse("events list"), ReplCommand::Events(EventCommands::List));
}

#[test]
fn workload_commands() {
    assert_eq!(
        parse("workloads create web nginx"),
        ReplCommand::Workloads(WorkloadCommands::Create {
            name: s("web"),
            image: s("nginx"),
            cpu: 500,
            memory: 536870912,
            disk: 10737418240
        })
    );
    assert_eq!(
        parse("workloads create web nginx --cpu 250"),
        ReplCommand::Workloads(WorkloadCommands::Create {
            name: s("web"),
            image: s("nginx"),
            cpu: 250,
            memory: 536870912,
            disk: 10737418240
        })
    );
    assert_eq!(
        parse("workloads metrics w1 --watch"),
        ReplCommand::Workloads(WorkloadCommands::Metrics { id: s("w1"), watch: true })
    );
}

#[test]
fn network_commands_read_flags_anywhere() {
    assert_eq!(
        parse("networks create net 10.0.0.0/24"),
        ReplCommand::Networks(NetworkCommands::Create { name: s("net"), cidr: s("10.0.0.0/24"), overlay: s("wireguard") })
    );
    assert_eq!(
        parse("networks policy-create --port 80 --network n1 --priority x --source 10.0.0.1"),
        ReplCommand::Networks(NetworkCommands::PolicyCreate {
            network: s("n1"),
            direction: s("ingress"),
            action: s("allow"),
            priority: 100,
            source: Some(s("10.0.0.1")),
            destination: None,
            port: Some(80),
            protocol: None,
        })
    );
    assert_eq!(
        parse("networks member-add --workload w"),
        ReplCommand::Networks(NetworkCommands::MemberAdd { network: s(""), workload: s("w") })
    );
}

#[test]
fn tenant_commands() {
    assert_eq!(parse("tenant user-create bob"), ReplCommand::UserCreateUsage);
    assert_eq!(
        parse("tenant user-create bob pw --role r1 --force-password-change true"),
        ReplCommand::Tenant(TenantCommands::UserCreate {
            username: s("bob"),
            password: s("pw"),
            role: s("r1"),
            email: None,
            force_password_change: true,
        })
    );
    assert_eq!(
        parse("tenant set-role --user u --role r"),
        ReplCommand::Tenant(TenantCommands::SetRole { user: s("u"), role: s("r") })
    );
}

#[test]
fn command_table_and_completion() {
    let table = commands();
    assert_eq!(table.len(), 55);
    assert_eq!(table[0], ("login", "authenticate with the server"));
    let c = completions("nodes m", 7);
    assert_eq!(c, vec![
        ("nodes metrics", "show cluster node metrics"),
        ("nodes metrics --watch", "live-refresh cluster node metrics"),
    ]);
    assert_eq!(completions("nodes m", 0).len(), 55);
    assert_eq!(completions("zzz", 3), vec![]);
}

#[test]
fn hints() {
    assert_eq!(hint("nodes me", 8), Some(s("trics")));
    assert_eq!(hint("nodes metrics", 13), Some(s(" --watch")));
    assert_eq!(hint("nodes me", 3), None);
    assert_eq!(hint("exit", 4), None);
    assert_eq!(hint("zz", 2), None);
}

#[test]
fn help_listing() {
    assert_eq!(help_description("volumes get <id>"), Some("show volume details"));
    assert_eq!(help_description("nodes metrics --watch"), Some("show cluster node metrics"));
    assert_eq!(help_description("nope"), None);
    let groups = help_groups();
    assert_eq!(groups.len(), 10);
    assert_eq!(groups[0].0, "Auth");
    let shell = help_entries(&groups[9].1);
    assert_eq!(shell, vec![("help", "show available commands"), ("exit", "exit the shell")]);
    for (_, cmds) in &groups {
        assert_eq!(help_entries(cmds).len(), cmds.len());
    }
}

#[test]
fn reading_lines() {
    assert_eq!(read_line("   "), LineAction::Skip);
    assert_eq!(read_line(" quit "), LineAction::Exit { entry: s("quit") });
    assert_eq!(read_line("q"), LineAction::Exit { entry: s("q") });
    assert_eq!(
        read_line("  nodes   list \t"),
        LineAction::Run { entry: s("nodes   list"), words: vec![s("nodes"), s("list")] }
    );
}
