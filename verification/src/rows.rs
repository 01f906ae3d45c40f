//! The rows that the listing commands put in their tables.
use vstd::prelude::*;
use crate::text::{
    char_prefix, first_chars, format_i64, format_u64, decimal, head, head_bytes,
    head_bytes_defined, is_byte_boundary, prefix_within_bytes, signed_decimal, views,
};

verus! {

/// The text of `o`, or `d`.
pub open spec fn or_text(o: Option<String>, d: Seq<char>) -> Seq<char> {
    match o {
        Some(s) => s@,
        None => d,
    }
}

/// The text of `o`, or `d`.
pub open spec fn or_str(o: Option<&str>, d: Seq<char>) -> Seq<char> {
    match o {
        Some(s) => s@,
        None => d,
    }
}

/// The text of `o`, or `d`.
fn text_or(o: &Option<String>, d: &str) -> (r: String)
    ensures
        r@ == or_text(*o, d@),
{
    match o {
        Some(s) => s.clone(),
        None => String::from_str(d),
    }
}

/// The first eight bytes of an id, as the tables show it; defined when
/// byte eight ends a character, as in any ASCII id of eight or more bytes.
pub open spec fn short_id(id: Seq<char>) -> Seq<char> {
    prefix_within_bytes(id, 8)
}

/// A node as `nodes list` reads it.
#[derive(Debug, Clone, PartialEq, Eq)]
pub struct NodeAgent {
    pub id: String,
    pub hostname: String,
    pub ip_address: Option<String>,
    pub os_type: String,
    pub os_version: String,
    pub architecture: String,
    pub agent_version: String,
    pub status: String,
    pub last_heartbeat: Option<String>,
}

/// The heartbeat cell: the first 16 bytes of the time, or `never`.
pub open spec fn heartbeat_cell(h: Option<String>) -> Seq<char> {
    match h {
        Some(t) => head_bytes(t@, 16),
        None => "never"@,
    }
}

/// The cells of a `nodes list` row.
pub open spec fn node_cells(a: NodeAgent) -> Seq<Seq<char>> {
    seq![
        short_id(a.id@),
        a.hostname@,
        or_text(a.ip_address, "-"@),
        a.os_type@ + " "@ + a.os_version@,
        a.architecture@,
        a.agent_version@,
        a.status@,
        heartbeat_cell(a.last_heartbeat),
    ]
}

/// The row `nodes list` shows for a node.
pub fn node_row(a: &NodeAgent) -> (r: Vec<String>)
    requires
        is_byte_boundary(a.id@, 8),
        a.last_heartbeat matches Some(h) ==> head_bytes_defined(h@, 16),
    ensures
        views(r@) == node_cells(*a),
{
    let mut os = a.os_type.clone();
    os.append(" ");
    os.append(a.os_version.as_str());
    let beat = match &a.last_heartbeat {
        Some(h) => head(h.as_str(), 16),
        None => String::from_str("never"),
    };
    let mut r: Vec<String> = Vec::new();
    r.push(crate::text::byte_prefix(a.id.as_str(), 8));
    r.push(a.hostname.clone());
    r.push(text_or(&a.ip_address, "-"));
    r.push(os);
    r.push(a.architecture.clone());
    r.push(a.agent_version.clone());
    r.push(a.status.clone());
    r.push(beat);
    assert(views(r@) =~= node_cells(*a));
    r
}

/// An agent as `registry agents` reads it.
#[derive(Debug, Clone, PartialEq, Eq)]
pub struct RegistryAgent {
    pub id: String,
    pub name: String,
    pub hostname: String,
    pub ip_address: Option<String>,
    pub agent_version: String,
    pub os_type: String,
    pub architecture: String,
    pub status: String,
    pub last_heartbeat: Option<String>,
    pub registered_at: String,
}

/// The cells of a `registry agents` row.
pub open spec fn agent_cells(a: RegistryAgent) -> Seq<Seq<char>> {
    seq![
        short_id(a.id@),
        a.hostname@,
        or_text(a.ip_address, "-"@),
        a.os_type@,
        a.architecture@,
        a.agent_version@,
        a.status@,
    ]
}

/// The row `registry agents` shows for an agent.
pub fn agent_row(a: &RegistryAgent) -> (r: Vec<String>)
    requires
        is_byte_boundary(a.id@, 8),
    ensures
        views(r@) == agent_cells(*a),
{
    let mut r: Vec<String> = Vec::new();
    r.push(crate::text::byte_prefix(a.id.as_str(), 8));
    r.push(a.hostname.clone());
    r.push(text_or(&a.ip_address, "-"));
    r.push(a.os_type.clone());
    r.push(a.architecture.clone());
    r.push(a.agent_version.clone());
    r.push(a.status.clone());
    assert(views(r@) =~= agent_cells(*a));
    r
}

/// A cluster bootstrap token.
#[derive(Debug, Clone, PartialEq, Eq)]
pub struct BootstrapToken {
    pub id: String,
    pub token: String,
    pub description: Option<String>,
    pub created_by: String,
    pub expires_at: String,
    pub max_uses: i32,
    pub use_count: i32,
    pub revoked: bool,
}

/// The cells of a `registry bootstrap-list` row.
pub open spec fn token_cells(t: BootstrapToken) -> Seq<Seq<char>> {
    seq![
        short_id(t.id@),
        or_text(t.description, "-"@),
        t.created_by@,
        signed_decimal(t.use_count as int) + "/"@ + signed_decimal(t.max_uses as int),
        t.expires_at@,
        if t.revoked {
            "yes"@
        } else {
            "no"@
        },
    ]
}

/// The row `registry bootstrap-list` shows for a token.
pub fn token_row(t: &BootstrapToken) -> (r: Vec<String>)
    requires
        is_byte_boundary(t.id@, 8),
    ensures
        views(r@) == token_cells(*t),
{
    let mut uses = format_i64(t.use_count as i64);
    uses.append("/");
    uses.append(format_i64(t.max_uses as i64).as_str());
    let mut r: Vec<String> = Vec::new();
    r.push(crate::text::byte_prefix(t.id.as_str(), 8));
    r.push(text_or(&t.description, "-"));
    r.push(t.created_by.clone());
    r.push(uses);
    r.push(t.expires_at.clone());
    r.push(
        if t.revoked {
            String::from_str("yes")
        } else {
            String::from_str("no")
        },
    );
    assert(views(r@) =~= token_cells(*t));
    r
}

/// The time-to-live in hours and the use limit sent when creating a
/// bootstrap token: 720 hours and 1000 uses unless given.
pub fn bootstrap_limits(ttl_hours: Option<i64>, max_uses: Option<i32>) -> (r: (i64, i32))
    ensures
        r.0 == match ttl_hours {
            Some(t) => t,
            None => 720,
        },
        r.1 == match max_uses {
            Some(m) => m,
            None => 1000,
        },
{
    let ttl = match ttl_hours {
        Some(t) => t,
        None => 720,
    };
    let uses = match max_uses {
        Some(m) => m,
        None => 1000,
    };
    (ttl, uses)
}

/// The abbreviated id the tenant tables show: up to eight characters, then `...`.
pub open spec fn abbreviated(id: Option<&str>) -> Seq<char> {
    first_chars(or_str(id, "-"@), 8) + "..."@
}

/// The cells of a `tenant roles` row, from the role's JSON fields.
pub open spec fn role_cells(
    id: Option<&str>,
    name: Option<&str>,
    description: Option<&str>,
    is_system_role: Option<bool>,
) -> Seq<Seq<char>> {
    seq![
        abbreviated(id),
        or_str(name, "-"@),
        or_str(description, "-"@),
        if is_system_role == Some(true) {
            "yes"@
        } else {
            "no"@
        },
    ]
}

fn str_or(o: Option<&str>, d: &str) -> (r: String)
    ensures
        r@ == or_str(o, d@),
{
    match o {
        Some(s) => String::from_str(s),
        None => String::from_str(d),
    }
}

fn abbreviate(id: Option<&str>) -> (r: String)
    ensures
        r@ == abbreviated(id),
{
    let full = str_or(id, "-");
    let mut r = char_prefix(full.as_str(), 8);
    r.append("...");
    r
}

/// The row `tenant roles` shows for a role.
pub fn role_row(
    id: Option<&str>,
    name: Option<&str>,
    description: Option<&str>,
    is_system_role: Option<bool>,
) -> (r: Vec<String>)
    ensures
        views(r@) == role_cells(id, name, description, is_system_role),
{
    let mut r: Vec<String> = Vec::new();
    r.push(abbreviate(id));
    r.push(str_or(name, "-"));
    r.push(str_or(description, "-"));
    r.push(
        if is_system_role == Some(true) {
            String::from_str("yes")
        } else {
            String::from_str("no")
        },
    );
    assert(views(r@) =~= role_cells(id, name, description, is_system_role));
    r
}

/// The cells of a `tenant users` row, from the user's JSON fields.
pub open spec fn user_cells(
    id: Option<&str>,
    username: Option<&str>,
    email: Option<&str>,
    role_name: Option<&str>,
    two_factor_enabled: Option<bool>,
    joined_at: Option<&str>,
) -> Seq<Seq<char>> {
    seq![
        abbreviated(id),
        or_str(username, "-"@),
        or_str(email, "-"@),
        or_str(role_name, "-"@),
        if two_factor_enabled == Some(true) {
            "on"@
        } else {
            "off"@
        },
        first_chars(or_str(joined_at, "-"@), 10),
    ]
}

/// The row `tenant users` shows for a user.
pub fn user_row(
    id: Option<&str>,
    username: Option<&str>,
    email: Option<&str>,
    role_name: Option<&str>,
    two_factor_enabled: Option<bool>,
    joined_at: Option<&str>,
) -> (r: Vec<String>)
    ensures
        views(r@) == user_cells(id, username, email, role_name, two_factor_enabled, joined_at),
{
    let joined = str_or(joined_at, "-");
    let mut r: Vec<String> = Vec::new();
    r.push(abbreviate(id));
    r.push(str_or(username, "-"));
    r.push(str_or(email, "-"));
    r.push(str_or(role_name, "-"));
    r.push(
        if two_factor_enabled == Some(true) {
            String::from_str("on")
        } else {
            String::from_str("off")
        },
    );
    r.push(char_prefix(joined.as_str(), 10));
    assert(views(r@) =~= user_cells(id, username, email, role_name, two_factor_enabled, joined_at));
    r
}

/// How many items a listing showed: `"{n} {noun}(s)"`.
pub fn count_label(n: usize, noun: &str) -> (r: String)
    ensures
        r@ == decimal(n as nat) + " "@ + noun@ + "(s)"@,
{
    let mut r = format_u64(n as u64);
    r.append(" ");
    r.append(noun);
    r.append("(s)");
    r
}

/// A flag read from JSON shows as set only when the field is present and
/// `true`: the System cell of a role row reads `yes` exactly then and `no`
/// otherwise (false or missing), and likewise the 2FA cell of a user row
/// reads `on` or `off`.
pub proof fn law_flags_show_set_only_when_true(
    id: Option<&str>,
    name: Option<&str>,
    description: Option<&str>,
    is_system_role: Option<bool>,
    username: Option<&str>,
    email: Option<&str>,
    role_name: Option<&str>,
    two_factor_enabled: Option<bool>,
    joined_at: Option<&str>,
)
    ensures
        role_cells(id, name, description, is_system_role).len() == 4,
        role_cells(id, name, description, is_system_role)[3] == "yes"@ <==> is_system_role
            == Some(true),
        role_cells(id, name, description, is_system_role)[3] == "no"@ <==> is_system_role
            != Some(true),
        user_cells(id, username, email, role_name, two_factor_enabled, joined_at).len() == 6,
        user_cells(id, username, email, role_name, two_factor_enabled, joined_at)[4] == "on"@
            <==> two_factor_enabled == Some(true),
        user_cells(id, username, email, role_name, two_factor_enabled, joined_at)[4] == "off"@
            <==> two_factor_enabled != Some(true),
{
    reveal_strlit("yes");
    reveal_strlit("no");
    reveal_strlit("on");
    reveal_strlit("off");
    assert("yes"@ != "no"@) by {
        assert("yes"@.len() != "no"@.len());
    }
    assert("on"@ != "off"@) by {
        assert("on"@.len() != "off"@.len());
    }
}

/// The text cells of the tenant tables: the id cut to its first eight
/// characters and followed by `...` (`-...` when missing), each other
/// field as it is or `-` when missing, and the join date cut to its first
/// ten characters.
pub proof fn law_tenant_text_cells(
    id: Option<&str>,
    name: Option<&str>,
    description: Option<&str>,
    is_system_role: Option<bool>,
    username: Option<&str>,
    email: Option<&str>,
    role_name: Option<&str>,
    two_factor_enabled: Option<bool>,
    joined_at: Option<&str>,
)
    ensures
        ({
            let rc = role_cells(id, name, description, is_system_role);
            let uc = user_cells(id, username, email, role_name, two_factor_enabled, joined_at);
            &&& id matches Some(v) ==> rc[0] == v@.take(if v@.len() < 8 { v@.len() as int } else { 8 }) + "..."@
            &&& id is None ==> rc[0] == "-..."@
            &&& uc[0] == rc[0]
            &&& name matches Some(v) ==> rc[1] == v@
            &&& name is None ==> rc[1] == "-"@
            &&& description matches Some(v) ==> rc[2] == v@
            &&& description is None ==> rc[2] == "-"@
            &&& username matches Some(v) ==> uc[1] == v@
            &&& username is None ==> uc[1] == "-"@
            &&& email matches Some(v) ==> uc[2] == v@
            &&& email is None ==> uc[2] == "-"@
            &&& role_name matches Some(v) ==> uc[3] == v@
            &&& role_name is None ==> uc[3] == "-"@
            &&& joined_at matches Some(v) ==> uc[5] == v@.take(if v@.len() < 10 { v@.len() as int } else { 10 })
            &&& joined_at is None ==> uc[5] == "-"@
        }),
{
    reveal_strlit("-");
    reveal_strlit("...");
    reveal_strlit("-...");
    if let Some(v) = id {
        if v@.len() <= 8 {
            assert(v@.take(v@.len() as int) =~= v@);
        }
    } else {
        assert("-"@ + "..."@ =~= "-..."@);
    }
    if let Some(v) = joined_at {
        if v@.len() <= 10 {
            assert(v@.take(v@.len() as int) =~= v@);
        }
    } else {
        assert(first_chars("-"@, 10) == "-"@);
    }
}

} // verus!
