//! Tool servers: which are used, which of their tools, and when a lost connection
//! is tried again.
use core::time::Duration;
use vstd::prelude::*;
use crate::config::{HomeAssistantMcpConfig, McpConfig, McpServerConfig};
use crate::text;

verus! {

// ------------------------------------------------------------------- servers

/// A tool server's settings, as a mathematical value.
pub struct ServerModel {
    pub name: Seq<char>,
    pub enabled: bool,
    pub url: Seq<char>,
    pub token: Seq<char>,
    pub timeout_ns: u64,
    pub tools: Seq<Seq<char>>,
}

impl View for McpServerConfig {
    type V = ServerModel;

    open spec fn view(&self) -> ServerModel {
        ServerModel {
            name: self.name@,
            enabled: self.enabled,
            url: self.url@,
            token: self.token@,
            timeout_ns: self.timeout_ns,
            tools: text::texts(self.tools@),
        }
    }
}

/// A list of servers as mathematical values.
pub open spec fn server_models(servers: Seq<McpServerConfig>) -> Seq<ServerModel> {
    servers.map_values(|s: McpServerConfig| s@)
}

/// The server that Home Assistant brings with it, as a server among others.
pub open spec fn home_assistant_server(config: HomeAssistantMcpConfig) -> ServerModel {
    ServerModel {
        name: "home_assistant"@,
        enabled: true,
        url: config.url@,
        token: config.token@,
        timeout_ns: config.timeout_ns,
        tools: Seq::empty(),
    }
}

/// Whether a server has the name.
pub open spec fn has_server(servers: Seq<ServerModel>, name: Seq<char>) -> bool {
    exists|i: int| 0 <= i < servers.len() && (#[trigger] servers[i]).name == name
}

/// The servers that are set up. Home Assistant's own comes last, where it is
/// enabled and no other server has taken its name.
pub open spec fn servers_of(config: McpConfig) -> Seq<ServerModel> {
    let listed = server_models(config.servers@);
    if config.home_assistant.enabled && !has_server(listed, "home_assistant"@) {
        listed.push(home_assistant_server(config.home_assistant))
    } else {
        listed
    }
}

fn copy_server(server: &McpServerConfig) -> (r: McpServerConfig)
    ensures
        r@ == server@,
{
    McpServerConfig {
        name: server.name.clone(),
        enabled: server.enabled,
        url: server.url.clone(),
        token: server.token.clone(),
        timeout_ns: server.timeout_ns,
        tools: text::copy_texts(&server.tools),
    }
}

/// The servers that are set up.
pub fn configured_servers(config: &McpConfig) -> (r: Vec<McpServerConfig>)
    ensures
        server_models(r@) == servers_of(*config),
{
    let ghost listed = server_models(config.servers@);
    let mut out: Vec<McpServerConfig> = Vec::new();
    let mut taken: bool = false;
    let mut i: usize = 0;
    while i < config.servers.len()
        invariant
            i <= config.servers@.len(),
            listed == server_models(config.servers@),
            out@.len() == i,
            forall|j: int| 0 <= j < i ==> (#[trigger] out@[j])@ == listed[j],
            taken == has_server(listed.take(i as int), "home_assistant"@),
        decreases config.servers@.len() - i,
    {
        let ghost before = listed.take(i as int);
        let ghost after = listed.take(i + 1);
        let same: bool = text::same_text(config.servers[i].name.as_str(), "home_assistant");
        proof {
            assert(after[i as int].name == config.servers@[i as int].name@);
            if taken {
                let k = choose|k: int|
                    0 <= k < before.len() && (#[trigger] before[k]).name == "home_assistant"@;
                assert(after[k].name == "home_assistant"@);
            }
            if has_server(after, "home_assistant"@) && !same {
                let k = choose|k: int|
                    0 <= k < after.len() && (#[trigger] after[k]).name == "home_assistant"@;
                assert(before[k].name == "home_assistant"@);
            }
        }
        if same {
            taken = true;
        }
        out.push(copy_server(&config.servers[i]));
        i = i + 1;
    }
    assert(listed.take(i as int) =~= listed);
    assert(server_models(out@) =~= listed);
    if config.home_assistant.enabled && !taken {
        let legacy: &HomeAssistantMcpConfig = &config.home_assistant;
        let server = McpServerConfig {
            name: "home_assistant".to_owned(),
            enabled: true,
            url: legacy.url.clone(),
            token: legacy.token.clone(),
            timeout_ns: legacy.timeout_ns,
            tools: Vec::new(),
        };
        assert(server@.tools =~= Seq::empty());
        out.push(server);
        assert(server_models(out@) =~= listed.push(server@));
    }
    out
}

/// Whether a server is connected to: it is enabled and has a URL.
pub fn is_used(server: &McpServerConfig) -> (r: bool)
    ensures
        r == used(server@),
{
    server.enabled && !text::blank(server.url.as_str())
}

/// Whether a server is connected to.
pub open spec fn used(server: ServerModel) -> bool {
    server.enabled && !text::is_blank(server.url)
}

/// The servers that are connected to, in order.
pub fn servers_to_connect(config: &McpConfig) -> (r: Vec<McpServerConfig>)
    ensures
        server_models(r@) == servers_of(*config).filter(|s: ServerModel| used(s)),
{
    let all: Vec<McpServerConfig> = configured_servers(config);
    let ghost models = server_models(all@);
    let ghost keep = |s: ServerModel| used(s);
    let mut out: Vec<McpServerConfig> = Vec::new();
    let mut i: usize = 0;
    proof {
        reveal(Seq::filter);
        assert(models.take(0) =~= Seq::empty());
        assert(server_models(out@) =~= models.take(0).filter(keep));
    }
    while i < all.len()
        invariant
            i <= all@.len(),
            models == server_models(all@),
            keep == (|s: ServerModel| used(s)),
            server_models(out@) == models.take(i as int).filter(keep),
        decreases all@.len() - i,
    {
        let ghost before = out@;
        proof {
            reveal(Seq::filter);
            assert(models.take(i + 1).drop_last() =~= models.take(i as int));
            assert(models.take(i + 1).last() == all@[i as int]@);
        }
        if is_used(&all[i]) {
            let server: McpServerConfig = copy_server(&all[i]);
            out.push(server);
            assert(server_models(out@) =~= server_models(before).push(all@[i as int]@));
        }
        i = i + 1;
    }
    assert(models.take(i as int) =~= models);
    out
}

/// Whether a URL is that of a server of the older kind, which sends its messages
/// as server-sent events.
pub open spec fn is_sse(url: Seq<char>) -> bool {
    text::has_suffix(text::without_trailing(url, '/'), "/sse"@)
}

/// Whether a URL is that of a server of the older kind.
pub fn is_legacy_sse_url(url: &str) -> (r: bool)
    ensures
        r == is_sse(url@),
{
    let base: String = text::trim_end_char(url, '/');
    text::ends_with(base.as_str(), "/sse")
}

/// The token to send with requests; a blank one is none.
pub fn auth_token(token: &str) -> (r: Option<String>)
    ensures
        if text::is_blank(token@) {
            r is None
        } else {
            r matches Some(x) && x@ == token@
        },
{
    if text::blank(token) {
        None
    } else {
        Some(token.to_owned())
    }
}

// ----------------------------------------------------------------------- tools

/// What is known of the tools of a server: those that may be used, none meaning
/// all, and those that are.
#[derive(Debug)]
pub struct McpToolHandler {
    server_name: String,
    allowed_tools: Vec<String>,
    managed: Vec<String>,
}

/// Whether a tool may be used.
pub open spec fn allowed(allowed_tools: Seq<Seq<char>>, name: Seq<char>) -> bool {
    allowed_tools.len() == 0 || allowed_tools.contains(name)
}

/// The positions of the tools that may be used.
pub open spec fn allowed_positions(
    allowed_tools: Seq<Seq<char>>,
    offered: Seq<Seq<char>>,
) -> Seq<int>
    decreases offered.len(),
{
    if offered.len() == 0 {
        Seq::empty()
    } else {
        let before = allowed_positions(allowed_tools, offered.drop_last());
        if allowed(allowed_tools, offered.last()) {
            before.push(offered.len() - 1)
        } else {
            before
        }
    }
}

impl McpToolHandler {
    /// The name of the server.
    pub closed spec fn server(&self) -> Seq<char> {
        self.server_name@
    }

    /// The tools that may be used.
    pub closed spec fn allowlist(&self) -> Seq<Seq<char>> {
        text::texts(self.allowed_tools@)
    }

    /// The tools that are used.
    pub closed spec fn tools(&self) -> Seq<Seq<char>> {
        text::texts(self.managed@)
    }

    /// A server of which no tool is used yet.
    pub fn new(server_name: String, allowed_tools: &Vec<String>) -> (r: Self)
        ensures
            r.server() == server_name@,
            r.allowlist() == text::texts(allowed_tools@),
            r.tools() == Seq::<Seq<char>>::empty(),
    {
        let r = McpToolHandler {
            server_name,
            allowed_tools: text::copy_texts(allowed_tools),
            managed: Vec::new(),
        };
        assert(r.tools() =~= Seq::empty());
        r
    }

    /// The name of the server.
    pub fn server_name(&self) -> (r: &str)
        ensures
            r@ == self.server(),
    {
        self.server_name.as_str()
    }

    /// Whether a tool may be used.
    pub fn tool_allowed(&self, name: &str) -> (r: bool)
        ensures
            r == allowed(self.allowlist(), name@),
    {
        self.allowed_tools.len() == 0 || text::any_text(&self.allowed_tools, name)
    }

    /// The positions, in a list of tools that are offered, of those that may be
    /// used.
    pub fn wanted(&self, offered: &Vec<String>) -> (r: Vec<usize>)
        ensures
            r@.map_values(|i: usize| i as int) == allowed_positions(
                self.allowlist(),
                text::texts(offered@),
            ),
            forall|i: int| 0 <= i < r@.len() ==> (#[trigger] r@[i]) < offered@.len(),
    {
        let ghost all = text::texts(offered@);
        let mut out: Vec<usize> = Vec::new();
        let mut i: usize = 0;
        assert(all.take(0) =~= Seq::empty());
        assert(out@.map_values(|i: usize| i as int) =~= Seq::empty());
        while i < offered.len()
            invariant
                i <= offered@.len(),
                all == text::texts(offered@),
                forall|k: int| 0 <= k < out@.len() ==> (#[trigger] out@[k]) < offered@.len(),
                out@.map_values(|i: usize| i as int) == allowed_positions(
                    self.allowlist(),
                    all.take(i as int),
                ),
            decreases offered@.len() - i,
        {
            let ghost before = out@;
            assert(all.take(i + 1).drop_last() =~= all.take(i as int));
            assert(all.take(i + 1).last() == offered@[i as int]@);
            if self.tool_allowed(offered[i].as_str()) {
                out.push(i);
                assert(out@.map_values(|i: usize| i as int) =~= before.map_values(
                    |i: usize| i as int,
                ).push(i as int));
            }
            i = i + 1;
        }
        assert(all.take(i as int) =~= all);
        out
    }

    /// Takes the tools that are used, to be given up.
    pub fn take_managed(&mut self) -> (r: Vec<String>)
        ensures
            text::texts(r@) == old(self).tools(),
            final(self).tools() == Seq::<Seq<char>>::empty(),
            final(self).server() == old(self).server(),
            final(self).allowlist() == old(self).allowlist(),
    {
        let mut out: Vec<String> = Vec::new();
        let ghost before = self.managed@;
        out.append(&mut self.managed);
        assert(out@ =~= before);
        assert(self.tools() =~= Seq::empty());
        out
    }

    /// Notes that a tool is used. Gives the number of those that are.
    pub fn note_added(&mut self, name: String) -> (count: usize)
        ensures
            final(self).tools() == old(self).tools().push(name@),
            final(self).server() == old(self).server(),
            final(self).allowlist() == old(self).allowlist(),
            count == final(self).tools().len(),
    {
        let ghost before = self.tools();
        self.managed.push(name);
        assert(self.tools() =~= before.push(name@));
        self.managed.len()
    }
}

// ---------------------------------------------------------------- reconnecting

/// The number of nanoseconds in a duration.
pub uninterp spec fn nanos(d: Duration) -> nat;

/// `Duration::as_nanos` gives the number of nanoseconds in a duration.
pub assume_specification[ Duration::as_nanos ](d: &Duration) -> (r: u128)
    ensures
        r == nanos(*d),
;

/// `Duration::from_nanos` makes a duration of a number of nanoseconds.
pub assume_specification[ Duration::from_nanos ](n: u64) -> (r: Duration)
    ensures
        nanos(r) == n,
;

/// How long to wait before the first try to reconnect, in nanoseconds.
pub const INITIAL_RECONNECT_NS: u64 = 1_000_000_000;

/// The longest wait before a try to reconnect, in nanoseconds.
pub const MAX_RECONNECT_NS: u64 = 60_000_000_000;

/// The wait after a wait in vain: twice as long, up to the longest.
pub open spec fn next_delay(current: nat) -> nat {
    if 2 * current < MAX_RECONNECT_NS {
        2 * current
    } else {
        MAX_RECONNECT_NS as nat
    }
}

/// The wait after a wait in vain.
pub fn next_reconnect_delay(current: Duration) -> (r: Duration)
    ensures
        nanos(r) == next_delay(nanos(current)),
{
    let n: u128 = current.as_nanos();
    if n < (MAX_RECONNECT_NS / 2) as u128 {
        Duration::from_nanos((2 * n) as u64)
    } else {
        Duration::from_nanos(MAX_RECONNECT_NS)
    }
}

/// The wait before the next try to reconnect to a server.
#[derive(Debug, Clone, Copy)]
pub struct Supervisor {
    pub delay: Duration,
}

impl Supervisor {
    /// A server that was not tried yet.
    pub fn new() -> (r: Self)
        ensures
            nanos(r.delay) == INITIAL_RECONNECT_NS,
    {
        Supervisor { delay: Duration::from_nanos(INITIAL_RECONNECT_NS) }
    }

    /// A connection was made or has ended: the next wait is the first again.
    pub fn connected(&mut self)
        ensures
            nanos(final(self).delay) == INITIAL_RECONNECT_NS,
    {
        self.delay = Duration::from_nanos(INITIAL_RECONNECT_NS);
    }

    /// A try has failed.
    pub fn failed(&mut self)
        ensures
            nanos(final(self).delay) == next_delay(nanos(old(self).delay)),
    {
        self.delay = next_reconnect_delay(self.delay);
    }
}

// ----------------------------------------------------------------------- laws

/// The servers that are listed come first and in their order, and the name of Home
/// Assistant's own is never taken twice by adding it.
pub proof fn law_listed_servers_come_first(config: McpConfig)
    ensures
        servers_of(config).take(config.servers@.len() as int) == server_models(config.servers@),
        has_server(server_models(config.servers@), "home_assistant"@) ==> servers_of(config)
            == server_models(config.servers@),
{
    let listed = server_models(config.servers@);
    assert(servers_of(config).take(listed.len() as int) =~= listed);
}

/// The waits double from the first until they reach the longest: after `n`
/// failures the wait is two to the `n` seconds, or a minute.
pub proof fn law_waits_double(n: nat)
    ensures
        delay_after(n) == if n < 6 {
            INITIAL_RECONNECT_NS as nat * two_to(n)
        } else {
            MAX_RECONNECT_NS as nat
        },
    decreases n,
{
    reveal_with_fuel(two_to, 7);
    if n > 0 {
        law_waits_double((n - 1) as nat);
    }
}

/// The wait after a number of failures in a row.
pub open spec fn delay_after(n: nat) -> nat
    decreases n,
{
    if n == 0 {
        INITIAL_RECONNECT_NS as nat
    } else {
        next_delay(delay_after((n - 1) as nat))
    }
}

/// Two to the power of `n`.
pub open spec fn two_to(n: nat) -> nat
    decreases n,
{
    if n == 0 {
        1
    } else {
        2 * two_to((n - 1) as nat)
    }
}

/// Only tools that may be used are, and without a list all may be.
pub proof fn law_only_allowed_tools(
    allowed_tools: Seq<Seq<char>>,
    offered: Seq<Seq<char>>,
    i: int,
)
    requires
        0 <= i < allowed_positions(allowed_tools, offered).len(),
    ensures
        ({
            let at = allowed_positions(allowed_tools, offered)[i];
            0 <= at < offered.len() && allowed(allowed_tools, offered[at])
        }),
    decreases offered.len(),
{
    let before = allowed_positions(allowed_tools, offered.drop_last());
    if i < before.len() {
        law_only_allowed_tools(allowed_tools, offered.drop_last(), i);
    }
}

/// Every tool that may be used is.
pub proof fn law_every_allowed_tool(
    allowed_tools: Seq<Seq<char>>,
    offered: Seq<Seq<char>>,
    at: int,
)
    requires
        0 <= at < offered.len(),
        allowed(allowed_tools, offered[at]),
    ensures
        allowed_positions(allowed_tools, offered).contains(at),
    decreases offered.len(),
{
    let all = allowed_positions(allowed_tools, offered);
    let before = allowed_positions(allowed_tools, offered.drop_last());
    if at == offered.len() - 1 {
        assert(all[all.len() - 1] == at);
    } else {
        law_every_allowed_tool(allowed_tools, offered.drop_last(), at);
        let k = choose|k: int| 0 <= k < before.len() && before[k] == at;
        assert(all[k] == at);
    }
}

/// Which servers are connected to: those that are enabled and have a URL, each as it
/// is set up. Home Assistant's own is one of them where it is enabled and has a URL,
/// unless a listed server has its name; all of its tools may be used.
pub proof fn law_servers_in_use(server: ServerModel, config: McpConfig)
    ensures
        used(server) <==> server.enabled && text::trimmed(server.url).len() > 0,
        config.home_assistant.enabled && !has_server(
            server_models(config.servers@),
            "home_assistant"@,
        ) ==> ({
            let own = servers_of(config).last();
            &&& servers_of(config).len() == config.servers@.len() + 1
            &&& own.name == "home_assistant"@ && own.enabled
            &&& own.url == config.home_assistant.url@
            &&& own.token == config.home_assistant.token@
            &&& own.timeout_ns == config.home_assistant.timeout_ns
            &&& own.tools.len() == 0
        }),
        !config.home_assistant.enabled ==> servers_of(config) == server_models(config.servers@),
{
}

/// A server speaks the older protocol exactly where its URL ends in `/sse`, slashes
/// behind it aside.
pub proof fn law_older_servers_end_in_sse(base: Seq<char>)
    ensures
        is_sse(base + "/sse"@),
        is_sse((base + "/sse"@).push('/')),
        is_sse(base) ==> text::without_trailing(base, '/').len() >= 4,
        base.len() > 0 && base.last() != '/' && base.last() != 'e' ==> !is_sse(base),
{
    reveal_strlit("/sse");
    let s = base + "/sse"@;
    assert(s.last() == 'e');
    assert(text::without_trailing(s, '/') == s);
    assert(s.push('/').drop_last() =~= s);
    assert(s.push('/').last() == '/');
    assert(text::without_trailing(s.push('/'), '/') == s);
    assert(s.skip(s.len() - 4) =~= "/sse"@);
    if base.len() > 0 && base.last() != '/' && text::has_suffix(base, "/sse"@) {
        assert(base.skip(base.len() - 4)[3] == base.last());
    }
}

/// Tools are allowed by name: all of them where none is listed, else exactly those
/// that are.
pub proof fn law_listed_tools_are_allowed(allowed_tools: Seq<Seq<char>>, name: Seq<char>)
    ensures
        allowed_tools.len() == 0 ==> allowed(allowed_tools, name),
        allowed_tools.len() > 0 ==> (allowed(allowed_tools, name) <==> exists|i: int|
            0 <= i < allowed_tools.len() && #[trigger] allowed_tools[i] == name),
{
}

/// The first wait is a second and the longest a minute; in between each is twice the
/// one before.
pub proof fn law_waits(current: nat)
    ensures
        delay_after(0) == 1_000_000_000,
        next_delay(current) <= 60_000_000_000,
        current < 30_000_000_000 ==> next_delay(current) == 2 * current,
        current >= 30_000_000_000 ==> next_delay(current) == 60_000_000_000,
{
}

} // verus!
