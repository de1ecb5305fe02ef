//! The configured MCP servers.

use crate::json;
use crate::json::{Field, FieldView};
use crate::order;
use crate::pairs;
use crate::table::Table;
use crate::text;
use vstd::prelude::*;

verus! {

/// How an MCP server is started.
pub struct McpServerConfig {
    pub command: String,
    pub args: Vec<String>,
    pub env: Vec<(String, String)>,
}

/// What an [`McpServerConfig`] says.
#[verifier::ext_equal]
pub struct McpServerConfigView {
    pub command: Seq<char>,
    pub args: Seq<Seq<char>>,
    pub env: Seq<(Seq<char>, Seq<char>)>,
}

impl View for McpServerConfig {
    type V = McpServerConfigView;

    open spec fn view(&self) -> McpServerConfigView {
        McpServerConfigView {
            command: self.command@,
            args: text::views(self.args@),
            env: pairs::pair_views(self.env@),
        }
    }
}

impl Clone for McpServerConfig {
    fn clone(&self) -> (r: Self)
        ensures
            r@ == self@,
    {
        McpServerConfig {
            command: self.command.clone(),
            args: text::copy_strings(&self.args),
            env: pairs::copy_pairs(&self.env),
        }
    }
}

/// A server that `npx` fetches and starts.
pub open spec fn npx_server(package: Seq<char>) -> McpServerConfigView {
    McpServerConfigView { command: "npx"@, args: seq!["-y"@, package], env: Seq::empty() }
}

fn npx(package: &str) -> (r: McpServerConfig)
    ensures
        r@ == npx_server(package@),
{
    let mut args: Vec<String> = Vec::new();
    args.push("-y".to_string());
    args.push(package.to_string());
    let r = McpServerConfig { command: "npx".to_string(), args, env: Vec::new() };
    assert(r@.args =~= seq!["-y"@, package@]);
    assert(r@.env =~= Seq::<(Seq<char>, Seq<char>)>::empty());
    r
}

/// The servers that are configured where the user has configured none.
pub fn default_servers() -> (r: Table<McpServerConfig>)
    ensures
        r.wf(),
        r@ == Map::<Seq<char>, McpServerConfigView>::empty().insert(
            "github"@,
            npx_server("@modelcontextprotocol/server-github"@),
        ).insert("google"@, npx_server("@modelcontextprotocol/server-google-search"@)),
{
    let mut t: Table<McpServerConfig> = Table::new();
    t.insert("github".to_string(), npx("@modelcontextprotocol/server-github"));
    t.insert("google".to_string(), npx("@modelcontextprotocol/server-google-search"));
    t
}

/// A request to configure a server.
pub struct UpsertMcpReq {
    pub id: String,
    pub command: String,
    pub args: Vec<String>,
    pub env: Vec<(String, String)>,
}

/// Configures a server; it must have an id and a command.
pub fn upsert(servers: &mut Table<McpServerConfig>, req: UpsertMcpReq) -> (r: Result<(), String>)
    requires
        old(servers).wf(),
    ensures
        final(servers).wf(),
        match r {
            Ok(_) => !text::blank(req.id@) && !text::blank(req.command@) && final(servers)@ == old(servers)@.insert(
                req.id@,
                (McpServerConfigView {
                    command: req.command@,
                    args: text::views(req.args@),
                    env: pairs::pair_views(req.env@),
                }),
            ),
            Err(e) => (text::blank(req.id@) || text::blank(req.command@)) && e@
                == "id and command must not be empty"@ && final(servers)@ == old(servers)@,
        },
{
    if text::is_blank(req.id.as_str()) || text::is_blank(req.command.as_str()) {
        return Err("id and command must not be empty".to_string());
    }
    servers.insert(
        req.id,
        McpServerConfig { command: req.command, args: req.args, env: req.env },
    );
    Ok(())
}

/// Takes a server out; says whether there was one.
pub fn delete(servers: &mut Table<McpServerConfig>, id: &str) -> (r: bool)
    requires
        old(servers).wf(),
    ensures
        final(servers).wf(),
        r == old(servers)@.contains_key(id@),
        final(servers)@ == old(servers)@.remove(id@),
{
    servers.remove(id).is_some()
}

/// How a server is started, as it is shown.
pub fn command_line(cfg: &McpServerConfig) -> (r: String)
    ensures
        r@ == cfg@.command + " "@ + text::joined(cfg@.args, " "@),
{
    let mut out = cfg.command.clone();
    out.append(" ");
    out.append(text::join(&cfg.args, " ").as_str());
    out
}

/// The server with one more environment variable, if it has a name.
pub fn add_env(cfg: &McpServerConfig, key: &str, value: &str) -> (r: Option<McpServerConfig>)
    ensures
        match r {
            Some(c) => !text::blank(key@) && c@ == (McpServerConfigView {
                env: pairs::with_pair(cfg@.env, text::trimmed(key@), text::trimmed(value@)),
                ..cfg@
            }),
            None => text::blank(key@),
        },
{
    proof {
        text::lemma_trimmed_blank(key@);
    }
    let k = text::trim(key);
    if k.is_empty() {
        return None;
    }
    let mut c = cfg.clone();
    pairs::set_pair(&mut c.env, k.to_string(), text::trim(value).to_string());
    Some(c)
}

/// The server without an environment variable.
pub fn remove_env(cfg: &McpServerConfig, key: &str) -> (r: McpServerConfig)
    ensures
        r@ == (McpServerConfigView { env: pairs::without(cfg@.env, key@), ..cfg@ }),
{
    McpServerConfig {
        command: cfg.command.clone(),
        args: text::copy_strings(&cfg.args),
        env: pairs::copy_without(&cfg.env, key),
    }
}

/// A secret as it is shown.
pub fn masked(value: &str) -> (r: &'static str)
    ensures
        r@ == if value@.len() == 0 {
            "(empty)"@
        } else {
            "********"@
        },
{
    if value.is_empty() {
        "(empty)"
    } else {
        "********"
    }
}

/// The order in which the servers are shown.
pub fn by_id(ids: &Vec<String>) -> (r: Vec<usize>)
    ensures
        order::sorted_by(order::indices(r@), text::views(ids@), text::views(ids@)),
{
    order::sort_rows(ids, ids)
}

/// The JSON text of the servers in an edited text: under `mcpServers`, or all of it.
pub open spec fn servers_text(raw: Seq<char>, fields: Option<Seq<FieldView>>) -> Seq<char> {
    match fields {
        Some(f) => match json::member(f, "mcpServers"@) {
            Some(l) => l.text,
            None => raw,
        },
        None => raw,
    }
}

/// The JSON text of the servers in an edited text, given what it is as an object.
pub fn pick_servers(raw: &str, fields: &Option<Vec<Field>>) -> (r: String)
    ensures
        r@ == servers_text(raw@, json::object_view(*fields)),
{
    match fields {
        Some(f) => match json::get(f, "mcpServers") {
            Some(l) => l.text.clone(),
            None => raw.to_string(),
        },
        None => raw.to_string(),
    }
}

/// The JSON text of the servers in an edited text, or what is wrong with it.
pub fn edited_servers(raw: &str) -> (r: Result<String, String>)
    ensures
        match json::json_fault(raw@) {
            Some(e) => r matches Err(m) && m@ == "Error: Invalid JSON ("@ + e + ")"@,
            None => r matches Ok(t) && t@ == servers_text(raw@, json::json_object(raw@)),
        },
{
    match json::find_fault(raw) {
        Some(e) => {
            let mut m = "Error: Invalid JSON (".to_string();
            m.append(e.as_str());
            m.append(")");
            Err(m)
        },
        None => Ok(pick_servers(raw, &json::read_object(raw))),
    }
}

/// Whether a status message tells of an error.
pub fn is_error_message(message: &str) -> (r: bool)
    ensures
        r == text::holds(text::lowered(message@), "error"@),
{
    text::contains(text::to_lower(message).as_str(), "error")
}

/// An edited text that does not name `mcpServers` is taken for the servers themselves.
pub proof fn law_plain_text_is_the_servers(raw: Seq<char>, fields: Seq<FieldView>)
    requires
        json::member(fields, "mcpServers"@) is None,
    ensures
        servers_text(raw, Some(fields)) == raw,
{
}

/// Of a text that has the servers under their own name, exactly those are taken; any other text
/// is taken whole.
pub proof fn law_servers_are_taken(
    raw: Seq<char>,
    members: Seq<(Seq<char>, Seq<char>)>,
    i: int,
)
    requires
        json::json_of(raw) == Ok::<_, Seq<char>>(json::JsonView::Object(members)),
    ensures
        0 <= i < members.len() && members[i].0 == "mcpServers"@ && (forall|j: int|
            0 <= j < i ==> (#[trigger] members[j]).0 != "mcpServers"@) ==> servers_text(
            raw,
            json::json_object(raw),
        ) == members[i].1,
        (forall|j: int| 0 <= j < members.len() ==> (#[trigger] members[j]).0 != "mcpServers"@)
            ==> servers_text(raw, json::json_object(raw)) == raw,
{
    let key = "mcpServers"@;
    json::law_members_and_items(raw);
    let f = json::json_object(raw)->0;
    if 0 <= i < members.len() && members[i].0 == key && (forall|j: int|
        0 <= j < i ==> (#[trigger] members[j]).0 != key) {
        assert(f[i].key == key && f[i].value.text == members[i].1);
        assert forall|j: int| 0 <= j < i implies (#[trigger] f[j]).key != key by {
            assert(members[j].0 != key);
        }
        lemma_first_member(f, i, key);
    }
    if forall|j: int| 0 <= j < members.len() ==> (#[trigger] members[j]).0 != key {
        assert forall|j: int| 0 <= j < f.len() implies (#[trigger] f[j]).key != key by {
            assert(members[j].0 != key);
        }
        lemma_no_member(f, key);
    }
}

proof fn lemma_first_member(f: Seq<FieldView>, i: int, key: Seq<char>)
    requires
        0 <= i < f.len() && f[i].key == key,
        forall|j: int| 0 <= j < i ==> (#[trigger] f[j]).key != key,
    ensures
        json::member(f, key) == Some(f[i].value),
    decreases f.len(),
{
    if i > 0 {
        let rest = f.drop_first();
        assert(f[0].key != key);
        assert(rest[i - 1] == f[i]);
        assert forall|j: int| 0 <= j < i - 1 implies (#[trigger] rest[j]).key != key by {
            assert(rest[j] == f[j + 1]);
        }
        lemma_first_member(rest, i - 1, key);
    }
}

proof fn lemma_no_member(f: Seq<FieldView>, key: Seq<char>)
    requires
        forall|j: int| 0 <= j < f.len() ==> (#[trigger] f[j]).key != key,
    ensures
        json::member(f, key) is None,
    decreases f.len(),
{
    if f.len() > 0 {
        let rest = f.drop_first();
        assert(f[0].key != key);
        assert forall|j: int| 0 <= j < rest.len() implies (#[trigger] rest[j]).key != key by {
            assert(rest[j] == f[j + 1]);
        }
        lemma_no_member(rest, key);
    }
}

/// A server that is fetched is the package that was named.
pub proof fn law_fetched_server(package: Seq<char>, other: Seq<char>)
    ensures
        npx_server(package).command == "npx"@,
        npx_server(package).args.last() == package,
        package != other ==> npx_server(package) != npx_server(other),
{
    assert(npx_server(other).args.last() == other);
}

} // verus!
