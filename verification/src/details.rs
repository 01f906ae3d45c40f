//! The labelled values that the "get" and metrics commands print, one per line.
use vstd::prelude::*;
use crate::metrics::{format_uptime, trunc_div, uptime_text};
use crate::rows::{or_str, or_text, RegistryAgent};
use crate::text::{format_i64, head, head_bytes, head_bytes_defined, signed_decimal};

verus! {

/// The views of a list of (label, value) lines.
pub open spec fn kv_views(v: Seq<(&str, String)>) -> Seq<(Seq<char>, Seq<char>)> {
    v.map_values(|p: (&str, String)| (p.0@, p.1@))
}

fn owned(s: &str) -> (r: String)
    ensures
        r@ == s@,
{
    String::from_str(s)
}

fn or_default(o: Option<&str>, d: &str) -> (r: String)
    ensures
        r@ == or_str(o, d@),
{
    match o {
        Some(s) => String::from_str(s),
        None => String::from_str(d),
    }
}

fn text_or(o: &Option<String>, d: &str) -> (r: String)
    ensures
        r@ == or_text(*o, d@),
{
    match o {
        Some(s) => s.clone(),
        None => String::from_str(d),
    }
}

/// What `registry agents-get` shows of an agent.
pub open spec fn agent_detail_lines(a: RegistryAgent) -> Seq<(Seq<char>, Seq<char>)> {
    seq![
        ("ID"@, a.id@),
        ("Name"@, a.name@),
        ("Hostname"@, a.hostname@),
        ("IP"@, or_text(a.ip_address, "-"@)),
        ("OS"@, a.os_type@),
        ("Architecture"@, a.architecture@),
        ("Agent Version"@, a.agent_version@),
        ("Status"@, a.status@),
        ("Last Heartbeat"@, or_text(a.last_heartbeat, "never"@)),
        ("Registered"@, a.registered_at@),
    ]
}

/// The lines `registry agents-get` shows.
pub fn agent_details(a: &RegistryAgent) -> (r: Vec<(&'static str, String)>)
    ensures
        kv_views(r@) == agent_detail_lines(*a),
{
    let mut r: Vec<(&'static str, String)> = Vec::new();
    r.push(("ID", a.id.clone()));
    r.push(("Name", a.name.clone()));
    r.push(("Hostname", a.hostname.clone()));
    r.push(("IP", text_or(&a.ip_address, "-")));
    r.push(("OS", a.os_type.clone()));
    r.push(("Architecture", a.architecture.clone()));
    r.push(("Agent Version", a.agent_version.clone()));
    r.push(("Status", a.status.clone()));
    r.push(("Last Heartbeat", text_or(&a.last_heartbeat, "never")));
    r.push(("Registered", a.registered_at.clone()));
    assert(kv_views(r@) =~= agent_detail_lines(*a));
    r
}

/// What `tenant user-get` shows of a user, from the user's JSON fields.
pub open spec fn user_detail_lines(
    id: Option<&str>,
    username: Option<&str>,
    email: Option<&str>,
    role_name: Option<&str>,
    two_factor_enabled: Option<bool>,
    force_password_change: Option<bool>,
    joined_at: Option<&str>,
) -> Seq<(Seq<char>, Seq<char>)> {
    seq![
        ("ID"@, or_str(id, "-"@)),
        ("Username"@, or_str(username, "-"@)),
        ("Email"@, or_str(email, "-"@)),
        ("Role"@, or_str(role_name, "-"@)),
        ("2FA"@, if two_factor_enabled == Some(true) {
            "enabled"@
        } else {
            "disabled"@
        }),
        ("Force PW Change"@, if force_password_change == Some(true) {
            "yes"@
        } else {
            "no"@
        }),
        ("Joined"@, or_str(joined_at, "-"@)),
    ]
}

/// The lines `tenant user-get` shows.
pub fn user_details(
    id: Option<&str>,
    username: Option<&str>,
    email: Option<&str>,
    role_name: Option<&str>,
    two_factor_enabled: Option<bool>,
    force_password_change: Option<bool>,
    joined_at: Option<&str>,
) -> (r: Vec<(&'static str, String)>)
    ensures
        kv_views(r@) == user_detail_lines(
            id,
            username,
            email,
            role_name,
            two_factor_enabled,
            force_password_change,
            joined_at,
        ),
{
    let mut r: Vec<(&'static str, String)> = Vec::new();
    r.push(("ID", or_default(id, "-")));
    r.push(("Username", or_default(username, "-")));
    r.push(("Email", or_default(email, "-")));
    r.push(("Role", or_default(role_name, "-")));
    r.push(
        (
            "2FA",
            if two_factor_enabled == Some(true) {
                owned("enabled")
            } else {
                owned("disabled")
            },
        ),
    );
    r.push(
        (
            "Force PW Change",
            if force_password_change == Some(true) {
                owned("yes")
            } else {
                owned("no")
            },
        ),
    );
    r.push(("Joined", or_default(joined_at, "-")));
    assert(kv_views(r@) =~= user_detail_lines(
        id,
        username,
        email,
        role_name,
        two_factor_enabled,
        force_password_change,
        joined_at,
    ));
    r
}

/// What `tenant info` shows of the organization.
pub open spec fn organization_lines(
    id: Option<&str>,
    name: Option<&str>,
    description: Option<&str>,
    created_at: Option<&str>,
) -> Seq<(Seq<char>, Seq<char>)> {
    seq![
        ("ID"@, or_str(id, "-"@)),
        ("Name"@, or_str(name, "-"@)),
        ("Description"@, or_str(description, "-"@)),
        ("Created"@, or_str(created_at, "-"@)),
    ]
}

/// The lines `tenant info` shows.
pub fn organization_details(
    id: Option<&str>,
    name: Option<&str>,
    description: Option<&str>,
    created_at: Option<&str>,
) -> (r: Vec<(&'static str, String)>)
    ensures
        kv_views(r@) == organization_lines(id, name, description, created_at),
{
    let mut r: Vec<(&'static str, String)> = Vec::new();
    r.push(("ID", or_default(id, "-")));
    r.push(("Name", or_default(name, "-")));
    r.push(("Description", or_default(description, "-")));
    r.push(("Created", or_default(created_at, "-")));
    assert(kv_views(r@) =~= organization_lines(id, name, description, created_at));
    r
}

/// What `workloads metrics` shows of a workload's allocation: CPU in
/// millicores, memory in whole MiB and disk in whole GiB (rounded toward zero).
pub open spec fn allocation_lines(cpu_millicores: int, memory_bytes: int, disk_bytes: int) -> Seq<
    (Seq<char>, Seq<char>),
> {
    seq![
        ("Allocated CPU"@, signed_decimal(cpu_millicores) + " millicores"@),
        (
            "Allocated Memory"@,
            signed_decimal(trunc_div(trunc_div(memory_bytes, 1024), 1024)) + " MB"@,
        ),
        (
            "Allocated Disk"@,
            signed_decimal(trunc_div(trunc_div(trunc_div(disk_bytes, 1024), 1024), 1024))
                + " GB"@,
        ),
    ]
}

/// `n / 1024` on an `i64`, rounded toward zero.
fn div_1024(n: i64) -> (r: i64)
    ensures
        r == trunc_div(n as int, 1024),
{
    if n >= 0 {
        n / 1024
    } else {
        let magnitude: i128 = 0 - (n as i128);
        (0 - magnitude / 1024) as i64
    }
}

/// The allocation lines of `workloads metrics`.
pub fn allocation_details(cpu_millicores: i32, memory_bytes: i64, disk_bytes: i64) -> (r: Vec<
    (&'static str, String),
>)
    ensures
        kv_views(r@) == allocation_lines(cpu_millicores as int, memory_bytes as int, disk_bytes as int),
{
    let mut cpu = format_i64(cpu_millicores as i64);
    cpu.append(" millicores");
    let mut mem = format_i64(div_1024(div_1024(memory_bytes)));
    mem.append(" MB");
    let mut disk = format_i64(div_1024(div_1024(div_1024(disk_bytes))));
    disk.append(" GB");
    let mut r: Vec<(&'static str, String)> = Vec::new();
    r.push(("Allocated CPU", cpu));
    r.push(("Allocated Memory", mem));
    r.push(("Allocated Disk", disk));
    assert(kv_views(r@) =~= allocation_lines(
        cpu_millicores as int,
        memory_bytes as int,
        disk_bytes as int,
    ));
    r
}

/// The descriptive part of an agent's latest metrics report.
#[derive(Debug, Clone, PartialEq, Eq)]
pub struct AgentFacts {
    pub hostname: Option<String>,
    pub os_name: Option<String>,
    pub os_version: Option<String>,
    pub kernel_version: Option<String>,
    pub uptime_seconds: Option<i64>,
    pub timestamp: Option<String>,
}

/// The heading of `nodes agent-metrics`: the first eight bytes of the id.
pub open spec fn agent_heading(id: Seq<char>) -> Seq<char> {
    "Node Metrics  /  "@ + head_bytes(id, 8)
}

/// The heading of `nodes agent-metrics`.
pub fn agent_metrics_heading(id: &str) -> (r: String)
    requires
        head_bytes_defined(id@, 8),
    ensures
        r@ == agent_heading(id@),
{
    let mut r = String::from_str("Node Metrics  /  ");
    r.append(head(id, 8).as_str());
    r
}

/// The report time line: the first 16 bytes of the time.
pub open spec fn as_of_line(f: AgentFacts) -> Seq<(Seq<char>, Seq<char>)> {
    match f.timestamp {
        Some(t) => seq![("As of"@, head_bytes(t@, 16))],
        None => Seq::empty(),
    }
}

/// The host name line.
pub open spec fn host_line(f: AgentFacts) -> Seq<(Seq<char>, Seq<char>)> {
    match f.hostname {
        Some(h) => seq![("Hostname"@, h@)],
        None => Seq::empty(),
    }
}

/// The system line: name, a space, and version (empty when unknown).
pub open spec fn os_line(f: AgentFacts) -> Seq<(Seq<char>, Seq<char>)> {
    match f.os_name {
        Some(o) => seq![("OS"@, o@ + " "@ + or_text(f.os_version, ""@))],
        None => Seq::empty(),
    }
}

/// The kernel line.
pub open spec fn kernel_line(f: AgentFacts) -> Seq<(Seq<char>, Seq<char>)> {
    match f.kernel_version {
        Some(k) => seq![("Kernel"@, k@)],
        None => Seq::empty(),
    }
}

/// The uptime line.
pub open spec fn uptime_line(f: AgentFacts) -> Seq<(Seq<char>, Seq<char>)> {
    match f.uptime_seconds {
        Some(u) => seq![("Uptime"@, uptime_text(u as int))],
        None => Seq::empty(),
    }
}

/// What `nodes agent-metrics` shows first: the time of the report, host,
/// system, kernel and uptime, each where known.
pub open spec fn fact_lines(f: AgentFacts) -> Seq<(Seq<char>, Seq<char>)> {
    as_of_line(f) + host_line(f) + os_line(f) + kernel_line(f) + uptime_line(f)
}

/// The descriptive lines of `nodes agent-metrics`.
pub fn agent_facts(f: &AgentFacts) -> (r: Vec<(&'static str, String)>)
    requires
        f.timestamp matches Some(t) ==> head_bytes_defined(t@, 16),
    ensures
        kv_views(r@) == fact_lines(*f),
{
    let mut r: Vec<(&'static str, String)> = Vec::new();
    if let Some(ts) = &f.timestamp {
        r.push(("As of", head(ts.as_str(), 16)));
    }
    assert(kv_views(r@) =~= as_of_line(*f));
    let ghost a = kv_views(r@);
    if let Some(h) = &f.hostname {
        r.push(("Hostname", h.clone()));
    }
    assert(kv_views(r@) =~= a + host_line(*f));
    let ghost b = kv_views(r@);
    if let Some(os) = &f.os_name {
        let mut line = os.clone();
        line.append(" ");
        line.append(text_or(&f.os_version, "").as_str());
        r.push(("OS", line));
    }
    assert(kv_views(r@) =~= b + os_line(*f));
    let ghost c = kv_views(r@);
    if let Some(k) = &f.kernel_version {
        r.push(("Kernel", k.clone()));
    }
    assert(kv_views(r@) =~= c + kernel_line(*f));
    let ghost d = kv_views(r@);
    if let Some(u) = f.uptime_seconds {
        r.push(("Uptime", format_uptime(u)));
    }
    assert(kv_views(r@) =~= d + uptime_line(*f));
    r
}

/// The yes/no lines of `tenant user-get` read as set only when the field is
/// present and `true`: 2FA reads `enabled` exactly then and `disabled`
/// otherwise (false or missing); Force PW Change reads `yes` or `no` alike.
pub proof fn law_user_flags_set_only_when_true(
    id: Option<&str>,
    username: Option<&str>,
    email: Option<&str>,
    role_name: Option<&str>,
    two_factor_enabled: Option<bool>,
    force_password_change: Option<bool>,
    joined_at: Option<&str>,
)
    ensures
        ({
            let l = user_detail_lines(
                id,
                username,
                email,
                role_name,
                two_factor_enabled,
                force_password_change,
                joined_at,
            );
            &&& l.len() == 7
            &&& l[4].0 == "2FA"@
            &&& l[4].1 == "enabled"@ <==> two_factor_enabled == Some(true)
            &&& l[4].1 == "disabled"@ <==> two_factor_enabled != Some(true)
            &&& l[5].0 == "Force PW Change"@
            &&& l[5].1 == "yes"@ <==> force_password_change == Some(true)
            &&& l[5].1 == "no"@ <==> force_password_change != Some(true)
        }),
{
    reveal_strlit("enabled");
    reveal_strlit("disabled");
    reveal_strlit("yes");
    reveal_strlit("no");
    assert("enabled"@ != "disabled"@) by {
        assert("enabled"@.len() != "disabled"@.len());
    }
    assert("yes"@ != "no"@) by {
        assert("yes"@.len() != "no"@.len());
    }
}

/// The text lines of `tenant user-get` show each field that is present as
/// it is, and `-` for a missing one, under fixed labels in a fixed order.
pub proof fn law_user_text_fields(
    id: Option<&str>,
    username: Option<&str>,
    email: Option<&str>,
    role_name: Option<&str>,
    two_factor_enabled: Option<bool>,
    force_password_change: Option<bool>,
    joined_at: Option<&str>,
)
    ensures
        ({
            let l = user_detail_lines(
                id,
                username,
                email,
                role_name,
                two_factor_enabled,
                force_password_change,
                joined_at,
            );
            &&& l[0].0 == "ID"@ && (id matches Some(v) ==> l[0].1 == v@) && (id is None ==> l[0].1
                == "-"@)
            &&& l[1].0 == "Username"@ && (username matches Some(v) ==> l[1].1 == v@) && (
            username is None ==> l[1].1 == "-"@)
            &&& l[2].0 == "Email"@ && (email matches Some(v) ==> l[2].1 == v@) && (email is None
                ==> l[2].1 == "-"@)
            &&& l[3].0 == "Role"@ && (role_name matches Some(v) ==> l[3].1 == v@) && (
            role_name is None ==> l[3].1 == "-"@)
            &&& l[6].0 == "Joined"@ && (joined_at matches Some(v) ==> l[6].1 == v@) && (
            joined_at is None ==> l[6].1 == "-"@)
        }),
{
}

} // verus!
