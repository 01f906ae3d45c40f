//! The client's commands, grouped as on its command line.
use vstd::prelude::*;

verus! {

/// `nodes ...`
#[derive(Debug, Clone, PartialEq, Eq)]
pub enum NodeCommands {
    List,
    Get { id: String },
    Metrics { watch: bool },
    AgentMetrics { id: String, watch: bool },
}

/// `registry ...`
#[derive(Debug, Clone, PartialEq, Eq)]
pub enum RegistryCommands {
    Agents,
    AgentsGet { id: String },
    PreRegister {
        name: String,
        hostname: String,
        os: Option<String>,
        arch: Option<String>,
        ttl: Option<i64>,
    },
    Deregister { id: String },
    Pending,
    PendingDelete { id: String },
    Stats,
    Tokens,
    BootstrapCreate { description: Option<String>, ttl: Option<i64>, max_uses: Option<i32> },
    BootstrapList,
    BootstrapRevoke { id: String },
}

/// `ssh ...`
#[derive(Debug, Clone, PartialEq, Eq)]
pub enum SshCommands {
    Connect { node: String, port: u16 },
}

/// `system ...`
#[derive(Debug, Clone, PartialEq, Eq)]
pub enum SystemCommands {
    Stats { watch: bool },
    Update { version: String },
    UpdateWatch,
    UpdatePause,
    UpdateResume,
    CheckUpdate { pre: bool },
}

/// `tenant ...`
#[derive(Debug, Clone, PartialEq, Eq)]
pub enum TenantCommands {
    Info,
    Users,
    UserGet { id: String },
    UserCreate {
        username: String,
        password: String,
        role: String,
        email: Option<String>,
        force_password_change: bool,
    },
    UserDelete { id: String },
    Roles,
    SetRole { user: String, role: String },
}

/// `workloads ...`
#[derive(Debug, Clone, PartialEq, Eq)]
pub enum WorkloadCommands {
    List,
    Get { id: String },
    Create { name: String, image: String, cpu: i32, memory: i64, disk: i64 },
    Delete { id: String },
    Metrics { id: String, watch: bool },
}

/// `volumes ...`
#[derive(Debug, Clone, PartialEq, Eq)]
pub enum VolumeCommands {
    List,
    Get { id: String },
    Create { name: String, size: i64, pool: Option<String> },
    Delete { id: String },
    Attach { id: String, agent: String, workload: Option<String> },
    Detach { id: String },
    Snapshots { volume: String },
    SnapshotCreate { volume: String, name: String },
}

/// `events ...`
#[derive(Debug, Clone, PartialEq, Eq)]
pub enum EventCommands {
    List,
}

/// `networks ...`
#[derive(Debug, Clone, PartialEq, Eq)]
pub enum NetworkCommands {
    List,
    Get { id: String },
    Create { name: String, cidr: String, overlay: String },
    Delete { id: String },
    Policies { network: String },
    PolicyCreate {
        network: String,
        direction: String,
        action: String,
        priority: i32,
        source: Option<String>,
        destination: Option<String>,
        port: Option<u16>,
        protocol: Option<String>,
    },
    Members { network: String },
    MemberAdd { network: String, workload: String },
    MemberRemove { network: String, workload: String },
}

} // verus!
