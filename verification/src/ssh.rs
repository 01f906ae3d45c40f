//! `ssh connect`: finding the node to connect to.
use vstd::prelude::*;
use crate::text::str_equal;

verus! {

/// An ASCII hexadecimal digit.
pub open spec fn is_hex(c: char) -> bool {
    ('0' <= c <= '9') || ('a' <= c <= 'f') || ('A' <= c <= 'F')
}

/// 36 characters: hex digits in groups of 8, 4, 4, 4 and 12, joined by `-`.
pub open spec fn hyphenated_uuid(s: Seq<char>) -> bool {
    &&& s.len() == 36
    &&& forall|i: int|
        0 <= i < 36 ==> if i == 8 || i == 13 || i == 18 || i == 23 {
            s[i] == '-'
        } else {
            is_hex(#[trigger] s[i])
        }
}

/// `c` with ASCII capitals made small.
pub open spec fn ascii_lower(c: char) -> char {
    if 'A' <= c <= 'Z' {
        ((c as u32) + 32) as char
    } else {
        c
    }
}

/// The text forms that `uuid::Uuid::parse_str` accepts: 32 hex digits,
/// the hyphenated form, the hyphenated form in braces, or the hyphenated
/// form after `urn:uuid:` (in any letter case).
pub open spec fn uuid_text(s: Seq<char>) -> bool {
    ||| s.len() == 32 && forall|i: int| 0 <= i < 32 ==> is_hex(#[trigger] s[i])
    ||| hyphenated_uuid(s)
    ||| s.len() == 38 && s[0] == '{' && s[37] == '}' && hyphenated_uuid(s.subrange(1, 37))
    ||| s.len() == 45 && s.take(9).map_values(|c: char| ascii_lower(c)) == "urn:uuid:"@
        && hyphenated_uuid(s.skip(9))
}

/// Whether `node` is a UUID (`uuid::Uuid::parse_str(node).is_ok()`).
///
/// The contract claims that the crate accepts exactly the four forms of
/// `uuid_text`; its parser reads bytes, and a non-ASCII byte is never a hex
/// digit, so reading characters gives the same answer.
#[verifier::external_body]
fn parses_as_uuid(node: &str) -> (r: bool)
    ensures
        r == uuid_text(node@),
{
    uuid::Uuid::parse_str(node).is_ok()
}

/// A node as the agents endpoint describes it.
#[derive(Debug, Clone, PartialEq, Eq)]
pub struct AgentInfo {
    pub id: String,
    pub name: String,
    pub hostname: String,
    pub ip_address: Option<String>,
    pub status: String,
}

/// Whether `node` names a node by its id (a UUID), so that it is fetched
/// directly; otherwise it is looked up by name or host name.
pub fn lookup_by_id(node: &str) -> (r: bool)
    ensures
        r == uuid_text(node@),
{
    parses_as_uuid(node)
}

/// `a` is called `node`, by name or by host name.
pub open spec fn answers_to(a: AgentInfo, node: Seq<char>) -> bool {
    a.name@ == node || a.hostname@ == node
}

/// The first agent called `node`, by name or host name.
pub fn find_agent(agents: &Vec<AgentInfo>, node: &str) -> (r: Option<usize>)
    ensures
        match r {
            Some(i) => i < agents@.len() && answers_to(agents@[i as int], node@) && forall|j: int|
                0 <= j < i ==> !answers_to(#[trigger] agents@[j], node@),
            None => forall|j: int| 0 <= j < agents@.len() ==> !answers_to(#[trigger] agents@[j], node@),
        },
{
    let mut i: usize = 0;
    while i < agents.len()
        invariant
            i <= agents@.len(),
            forall|j: int| 0 <= j < i ==> !answers_to(#[trigger] agents@[j], node@),
        decreases agents@.len() - i,
    {
        if str_equal(agents[i].name.as_str(), node) || str_equal(agents[i].hostname.as_str(), node) {
            return Some(i);
        }
        i = i + 1;
    }
    None
}

/// Where to connect: the agent's IP address when it has a non-empty one,
/// else its host name.
pub open spec fn address_of(a: AgentInfo) -> Seq<char> {
    match a.ip_address {
        Some(ip) => if ip@.len() > 0 {
            ip@
        } else {
            a.hostname@
        },
        None => a.hostname@,
    }
}

/// The address to connect to.
pub fn connect_address(agent: &AgentInfo) -> (r: String)
    ensures
        r@ == address_of(*agent),
{
    match &agent.ip_address {
        Some(ip) => if ip.as_str().unicode_len() > 0 {
            ip.clone()
        } else {
            agent.hostname.clone()
        },
        None => agent.hostname.clone(),
    }
}

/// Whether to warn before connecting: the node is not reported online.
pub fn warn_offline(agent: &AgentInfo) -> (r: bool)
    ensures
        r == (agent.status@ != "online"@),
{
    !str_equal(agent.status.as_str(), "online")
}

} // verus!
