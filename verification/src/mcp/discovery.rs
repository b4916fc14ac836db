//! Tool discovery: how the catalogues of the connected peers become one
//! tool set, and what holds of that set.

use super::manager::McpManager;
use super::names::{
    has_name, lemma_one_shared, lemma_put, lemma_put_all, mapping, names_distinct, names_of,
    position, put_all,
};
use super::tool_adaptor::{
    catalogue, get_tool_set, lemma_catalogue, lemma_catalogue_distinct, tools_distinct,
    tools_view, AdaptorView, RemoteTool, ToolView,
};
use super::tool_set::{keyed_by_name, ToolSet};
use vstd::prelude::*;

verus! {

/// Why a connected peer did not return its catalogue of tools.
#[derive(Debug, Clone, PartialEq, Eq)]
pub struct DiscoveryError {
    /// What the peer or the transport reported.
    pub message: String,
}

/// A connected peer whose catalogue could not be had.
#[derive(Debug, Clone, PartialEq, Eq)]
pub struct DiscoveryFailure {
    /// The name under which the peer is registered.
    pub name: String,
    /// What went wrong.
    pub error: DiscoveryError,
}

impl View for DiscoveryFailure {
    type V = (Seq<char>, Seq<char>);

    /// The peer's name and the reported message.
    open spec fn view(&self) -> (Seq<char>, Seq<char>) {
        (self.name@, self.error.message@)
    }
}

/// The reported failures, each as the peer's name and the message.
pub open spec fn discovery_failures_view(s: Seq<DiscoveryFailure>) -> Seq<(Seq<char>, Seq<char>)> {
    s.map_values(|f: DiscoveryFailure| f@)
}

/// What one peer answered when asked for its tools: its catalogue, or the
/// message of the failure.
pub open spec fn catalog_view(r: Result<Vec<RemoteTool>, DiscoveryError>) -> Result<
    Seq<ToolView>,
    Seq<char>,
> {
    match r {
        Ok(tools) => Ok(tools_view(tools@)),
        Err(error) => Err(error.message@),
    }
}

/// What the peers answered, one outcome for each.
pub open spec fn catalogs_view(s: Seq<Result<Vec<RemoteTool>, DiscoveryError>>) -> Seq<
    Result<Seq<ToolView>, Seq<char>>,
> {
    s.map_values(|r: Result<Vec<RemoteTool>, DiscoveryError>| catalog_view(r))
}

/// Whether the `i`-th peer returned a catalogue.
pub open spec fn discovered(catalogs: Seq<Result<Seq<ToolView>, Seq<char>>>, i: int) -> bool {
    0 <= i < catalogs.len() && catalogs[i] is Ok
}

/// The tool set of the `i`-th peer, which returned a catalogue.
pub open spec fn peer_tools(
    peers: Seq<Seq<char>>,
    catalogs: Seq<Result<Seq<ToolView>, Seq<char>>>,
    i: int,
) -> Seq<(Seq<char>, AdaptorView)> {
    catalogue(peers[i], catalogs[i]->Ok_0, catalogs[i]->Ok_0.len() as int)
}

/// The aggregate after the first `n` peers have been taken in, in the
/// order of the registry: the tools of a peer that returned a catalogue
/// are added, any other peer adds nothing. Where two peers offer a tool of
/// one name, that of the peer later in the registry stays.
pub open spec fn gathered(
    peers: Seq<Seq<char>>,
    catalogs: Seq<Result<Seq<ToolView>, Seq<char>>>,
    n: int,
) -> Seq<(Seq<char>, AdaptorView)>
    decreases n,
{
    if n <= 0 {
        Seq::empty()
    } else {
        let before = gathered(peers, catalogs, n - 1);
        if n - 1 < peers.len() && discovered(catalogs, n - 1) {
            put_all(
                before,
                peer_tools(peers, catalogs, n - 1),
                peer_tools(peers, catalogs, n - 1).len() as int,
            )
        } else {
            before
        }
    }
}

/// The peers among the first `n` whose catalogue could not be had, in the
/// order of the registry, each as its name and the reported message.
pub open spec fn missed(
    peers: Seq<Seq<char>>,
    catalogs: Seq<Result<Seq<ToolView>, Seq<char>>>,
    n: int,
) -> Seq<(Seq<char>, Seq<char>)>
    decreases n,
{
    if n <= 0 {
        Seq::empty()
    } else {
        let before = missed(peers, catalogs, n - 1);
        if n - 1 < peers.len() && n - 1 < catalogs.len() && catalogs[n - 1] is Err {
            before.push((peers[n - 1], catalogs[n - 1]->Err_0))
        } else {
            before
        }
    }
}

impl<C> McpManager<C> {
    /// Gathers the tools of all connected peers into one fresh tool set.
    /// `catalogs[i]` is what the `i`-th peer of the registry answered when
    /// asked for its tools. The tools of every peer that answered are
    /// adapted and added, peer after peer in the order of the registry;
    /// every failure is handed back for the caller to report and adds
    /// nothing. A peer without a reported outcome adds nothing either.
    pub fn get_tool_set(&self, catalogs: Vec<Result<Vec<RemoteTool>, DiscoveryError>>) -> (out: (
        ToolSet,
        Vec<DiscoveryFailure>,
    ))
        ensures
            out.0.entries() == gathered(
                self.clients.names(),
                catalogs_view(catalogs@),
                self.clients.names().len() as int,
            ),
            discovery_failures_view(out.1@) == missed(
                self.clients.names(),
                catalogs_view(catalogs@),
                self.clients.names().len() as int,
            ),
    {
        let mut tool_set = ToolSet::new();
        let mut failures: Vec<DiscoveryFailure> = Vec::new();
        let ghost raw = catalogs@;
        let ghost all = catalogs_view(catalogs@);
        let ghost peers = self.clients.names();
        let n = self.clients.len();
        let count = catalogs.len();
        let mut i: usize = 0;
        assert(discovery_failures_view(failures@) =~= missed(peers, all, 0));
        for catalog in it: catalogs
            invariant
                n == peers.len(),
                peers == self.clients.names(),
                n == self.clients.entries().len(),
                count == raw.len(),
                all == catalogs_view(raw),
                it.seq() == raw,
                i == it.index(),
                tool_set.entries() == gathered(peers, all, i as int),
                discovery_failures_view(failures@) == missed(peers, all, i as int),
        {
            assert(i < count);
            assert(all[i as int] == catalog_view(catalog));
            if i < n {
                let name = self.clients.name_at(i);
                assert(name@ == peers[i as int]);
                match catalog {
                    Ok(tools) => {
                        let tools_of_peer = get_tool_set(name.as_str(), tools);
                        tool_set.add_tools(tools_of_peer);
                    },
                    Err(error) => {
                        let ghost before = discovery_failures_view(failures@);
                        failures.push(DiscoveryFailure { name: name.clone(), error });
                        assert(discovery_failures_view(failures@) =~= before.push(
                            (peers[i as int], error.message@),
                        ));
                    },
                }
            }
            i += 1;
        }
        proof {
            if count <= n {
                lemma_gathered_stable(peers, all, count as int, n as int);
            } else {
                lemma_gathered_stable(peers, all, n as int, count as int);
            }
        }
        (tool_set, failures)
    }
}

/// Past the last reported outcome, and past the last peer of the registry,
/// nothing more is gathered.
pub proof fn lemma_gathered_stable(
    peers: Seq<Seq<char>>,
    catalogs: Seq<Result<Seq<ToolView>, Seq<char>>>,
    m: int,
    n: int,
)
    requires
        m <= n,
        m >= peers.len() || m >= catalogs.len(),
    ensures
        gathered(peers, catalogs, n) == gathered(peers, catalogs, m),
        missed(peers, catalogs, n) == missed(peers, catalogs, m),
    decreases n - m,
{
    if m < n {
        lemma_gathered_stable(peers, catalogs, m, n - 1);
    }
}

/// Whether some peer among the first `n` returned a catalogue that holds a
/// tool called `name`.
pub open spec fn offered(
    peers: Seq<Seq<char>>,
    catalogs: Seq<Result<Seq<ToolView>, Seq<char>>>,
    n: int,
    name: Seq<char>,
) -> bool {
    exists|i: int, j: int|
        0 <= i < n && i < peers.len() && discovered(catalogs, i) && 0 <= j < (
        catalogs[i]->Ok_0).len() && (#[trigger] (catalogs[i]->Ok_0)[j]).name == name
}

/// The aggregate holds every name once and every tool under its own name.
pub proof fn lemma_gathered(
    peers: Seq<Seq<char>>,
    catalogs: Seq<Result<Seq<ToolView>, Seq<char>>>,
    n: int,
)
    ensures
        names_distinct(gathered(peers, catalogs, n)),
        keyed_by_name(gathered(peers, catalogs, n)),
    decreases n,
{
    if n > 0 {
        lemma_gathered(peers, catalogs, n - 1);
        let before = gathered(peers, catalogs, n - 1);
        if n - 1 < peers.len() && discovered(catalogs, n - 1) {
            let tools = catalogs[n - 1]->Ok_0;
            let extra = peer_tools(peers, catalogs, n - 1);
            lemma_catalogue(peers[n - 1], tools, tools.len() as int);
            lemma_put_all(before, extra, extra.len() as int);
            lemma_put_all_keyed(before, extra, extra.len() as int);
        }
    }
}

/// A witness that a peer among the first `n` offers a tool called `name`.
proof fn lemma_offered_by(
    peers: Seq<Seq<char>>,
    catalogs: Seq<Result<Seq<ToolView>, Seq<char>>>,
    n: int,
    name: Seq<char>,
    i: int,
    j: int,
)
    requires
        0 <= i < n,
        i < peers.len(),
        discovered(catalogs, i),
        0 <= j < (catalogs[i]->Ok_0).len(),
        (catalogs[i]->Ok_0)[j].name == name,
    ensures
        offered(peers, catalogs, n, name),
{
    assert((#[trigger] (catalogs[i]->Ok_0)[j]).name == name);
}

/// The aggregate holds a name exactly when some peer that answered offers
/// a tool of that name.
pub proof fn lemma_gathered_names(
    peers: Seq<Seq<char>>,
    catalogs: Seq<Result<Seq<ToolView>, Seq<char>>>,
    n: int,
    name: Seq<char>,
)
    ensures
        mapping(gathered(peers, catalogs, n)).dom().contains(name) <==> offered(
            peers,
            catalogs,
            n,
            name,
        ),
    decreases n,
{
    let now = gathered(peers, catalogs, n);
    if n > 0 {
        lemma_gathered_names(peers, catalogs, n - 1, name);
        lemma_gathered(peers, catalogs, n - 1);
        let before = gathered(peers, catalogs, n - 1);
        if offered(peers, catalogs, n - 1, name) {
            let (i, j) = choose|i: int, j: int|
                0 <= i < n - 1 && i < peers.len() && discovered(catalogs, i) && 0 <= j < (
                catalogs[i]->Ok_0).len() && (#[trigger] (catalogs[i]->Ok_0)[j]).name == name;
            lemma_offered_by(peers, catalogs, n, name, i, j);
        }
        if n - 1 < peers.len() && discovered(catalogs, n - 1) {
            let tools = catalogs[n - 1]->Ok_0;
            let extra = peer_tools(peers, catalogs, n - 1);
            lemma_catalogue(peers[n - 1], tools, tools.len() as int);
            lemma_put_all(before, extra, extra.len() as int);
            assert(extra.take(extra.len() as int) =~= extra);
            assert(mapping(now).dom().contains(name) <==> has_name(before, name) || has_name(
                extra,
                name,
            ));
            if has_name(extra, name) {
                let j = choose|j: int| 0 <= j < tools.len() && (#[trigger] tools[j]).name == name;
                lemma_offered_by(peers, catalogs, n, name, n - 1, j);
            }
            if offered(peers, catalogs, n, name) && !offered(peers, catalogs, n - 1, name) {
                let (i, j) = choose|i: int, j: int|
                    0 <= i < n && i < peers.len() && discovered(catalogs, i) && 0 <= j < (
                    catalogs[i]->Ok_0).len() && (#[trigger] (catalogs[i]->Ok_0)[j]).name == name;
                if i < n - 1 {
                    lemma_offered_by(peers, catalogs, n - 1, name, i, j);
                } else {
                    assert(tools[j].name == name);
                }
            }
        } else {
            if offered(peers, catalogs, n, name) {
                let (i, j) = choose|i: int, j: int|
                    0 <= i < n && i < peers.len() && discovered(catalogs, i) && 0 <= j < (
                    catalogs[i]->Ok_0).len() && (#[trigger] (catalogs[i]->Ok_0)[j]).name == name;
                lemma_offered_by(peers, catalogs, n - 1, name, i, j);
            }
        }
    } else {
        if offered(peers, catalogs, n, name) {
            let (i, j) = choose|i: int, j: int|
                0 <= i < n && i < peers.len() && discovered(catalogs, i) && 0 <= j < (
                catalogs[i]->Ok_0).len() && (#[trigger] (catalogs[i]->Ok_0)[j]).name == name;
        }
    }
}

/// Storing tools that stand under their own names among such tools leaves
/// every tool under its own name.
proof fn lemma_put_all_keyed(
    base: Seq<(Seq<char>, AdaptorView)>,
    extra: Seq<(Seq<char>, AdaptorView)>,
    n: int,
)
    requires
        keyed_by_name(base),
        keyed_by_name(extra),
        0 <= n <= extra.len(),
    ensures
        keyed_by_name(put_all(base, extra, n)),
    decreases n,
{
    if n > 0 {
        lemma_put_all_keyed(base, extra, n - 1);
        let before = put_all(base, extra, n - 1);
        let now = put_all(base, extra, n);
        assert(extra[n - 1].0 == extra[n - 1].1.tool.name);
        assert forall|i: int| 0 <= i < now.len() implies (#[trigger] now[i]).0
            == now[i].1.tool.name by {
            if i < before.len() {
                assert(before[i].0 == before[i].1.tool.name);
            }
        }
    }
}

/// Of the tools that share a name, the one discovered last stays: the last
/// tool of that name in the catalogue of the last peer that offers the
/// name. It is bound to that peer.
pub proof fn lemma_last_discovered_wins(
    peers: Seq<Seq<char>>,
    catalogs: Seq<Result<Seq<ToolView>, Seq<char>>>,
    n: int,
    i: int,
    j: int,
)
    requires
        0 <= i < n,
        i < peers.len(),
        discovered(catalogs, i),
        0 <= j < (catalogs[i]->Ok_0).len(),
        forall|k: int|
            j < k < (catalogs[i]->Ok_0).len() ==> (#[trigger] (catalogs[i]->Ok_0)[k]).name != (
            catalogs[i]->Ok_0)[j].name,
        forall|later: int, k: int|
            i < later < n && later < peers.len() && discovered(catalogs, later) && 0 <= k < (
            catalogs[later]->Ok_0).len() ==> (#[trigger] (catalogs[later]->Ok_0)[k]).name != (
            catalogs[i]->Ok_0)[j].name,
    ensures
        mapping(gathered(peers, catalogs, n)).dom().contains((catalogs[i]->Ok_0)[j].name),
        mapping(gathered(peers, catalogs, n))[(catalogs[i]->Ok_0)[j].name] == (AdaptorView {
            tool: (catalogs[i]->Ok_0)[j],
            server: peers[i],
        }),
    decreases n,
{
    let name = (catalogs[i]->Ok_0)[j].name;
    lemma_gathered(peers, catalogs, n - 1);
    let before = gathered(peers, catalogs, n - 1);
    if n - 1 < peers.len() && discovered(catalogs, n - 1) {
        let tools = catalogs[n - 1]->Ok_0;
        let extra = peer_tools(peers, catalogs, n - 1);
        lemma_catalogue(peers[n - 1], tools, tools.len() as int);
        lemma_put_all(before, extra, extra.len() as int);
        assert(extra.take(extra.len() as int) =~= extra);
        if i == n - 1 {
            assert(tools[j].name == name);
            assert(has_name(extra, name));
        } else {
            lemma_last_discovered_wins(peers, catalogs, n - 1, i, j);
            if has_name(extra, name) {
                let k = choose|k: int| 0 <= k < tools.len() && (#[trigger] tools[k]).name == name;
                assert((catalogs[n - 1]->Ok_0)[k].name != name);
            }
        }
    } else {
        lemma_last_discovered_wins(peers, catalogs, n - 1, i, j);
    }
}

/// Discovery depends on the catalogues alone: two rounds in which the same
/// peers answer with the same catalogues give the same tool set, whatever
/// the failures of the other peers say.
pub proof fn lemma_discovery_repeats(
    peers: Seq<Seq<char>>,
    first: Seq<Result<Seq<ToolView>, Seq<char>>>,
    second: Seq<Result<Seq<ToolView>, Seq<char>>>,
    n: int,
)
    requires
        first.len() == second.len(),
        forall|i: int|
            0 <= i < first.len() ==> (first[i] is Ok <==> second[i] is Ok) && (first[i] is Ok
                ==> first[i]->Ok_0 == second[i]->Ok_0),
    ensures
        gathered(peers, first, n) == gathered(peers, second, n),
    decreases n,
{
    if n > 0 {
        lemma_discovery_repeats(peers, first, second, n - 1);
    }
}

/// Adding a tool set to itself changes nothing: a second round of
/// discovery with unchanged catalogues, merged into the first, leaves every
/// name and every tool as it was.
pub proof fn lemma_refresh_unchanged(tools: Seq<(Seq<char>, AdaptorView)>)
    requires
        names_distinct(tools),
    ensures
        mapping(put_all(tools, tools, tools.len() as int)) == mapping(tools),
        names_of(put_all(tools, tools, tools.len() as int)) == names_of(tools),
{
    lemma_put_all(tools, tools, tools.len() as int);
    assert(tools.take(tools.len() as int) =~= tools);
    assert(mapping(tools).union_prefer_right(mapping(tools)) =~= mapping(tools));
    lemma_put_all_names(tools, tools, tools.len() as int);
}

/// Storing entries whose names are all present already leaves the names and
/// their order as they were.
proof fn lemma_put_all_names(
    base: Seq<(Seq<char>, AdaptorView)>,
    extra: Seq<(Seq<char>, AdaptorView)>,
    n: int,
)
    requires
        names_distinct(base),
        0 <= n <= extra.len(),
        forall|i: int| 0 <= i < extra.len() ==> has_name(base, (#[trigger] extra[i]).0),
    ensures
        names_of(put_all(base, extra, n)) == names_of(base),
        names_distinct(put_all(base, extra, n)),
    decreases n,
{
    if n > 0 {
        lemma_put_all_names(base, extra, n - 1);
        let before = put_all(base, extra, n - 1);
        assert(has_name(base, extra[n - 1].0));
        let p = position(base, extra[n - 1].0);
        assert(names_of(before).len() == before.len());
        assert(names_of(base)[p] == base[p].0);
        assert(names_of(before)[p] == before[p].0);
        lemma_put(before, extra[n - 1].0, extra[n - 1].1);
    }
}

/// Two peers that share exactly one tool name give one tool less than
/// their catalogues hold together: where both answer, no catalogue repeats
/// a name, and the tool at `i` of the first and the tool at `j` of the
/// second are the only two of one name, the aggregate holds that name once
/// and as many tools as both catalogues have, less one.
pub proof fn lemma_one_shared_name(
    peers: Seq<Seq<char>>,
    catalogs: Seq<Result<Seq<ToolView>, Seq<char>>>,
    i: int,
    j: int,
)
    requires
        peers.len() == 2,
        catalogs.len() == 2,
        catalogs[0] is Ok,
        catalogs[1] is Ok,
        tools_distinct(catalogs[0]->Ok_0),
        tools_distinct(catalogs[1]->Ok_0),
        0 <= i < (catalogs[0]->Ok_0).len(),
        0 <= j < (catalogs[1]->Ok_0).len(),
        (catalogs[0]->Ok_0)[i].name == (catalogs[1]->Ok_0)[j].name,
        forall|k: int, l: int|
            0 <= k < (catalogs[0]->Ok_0).len() && 0 <= l < (catalogs[1]->Ok_0).len() && (
            #[trigger] (catalogs[0]->Ok_0)[k]).name == (#[trigger] (catalogs[1]->Ok_0)[l]).name
                ==> k == i && l == j,
    ensures
        names_distinct(gathered(peers, catalogs, 2)),
        gathered(peers, catalogs, 2).len() == (catalogs[0]->Ok_0).len() + (
        catalogs[1]->Ok_0).len() - 1,
{
    let first = catalogs[0]->Ok_0;
    let second = catalogs[1]->Ok_0;
    let of_first = peer_tools(peers, catalogs, 0);
    let of_second = peer_tools(peers, catalogs, 1);
    assert(gathered(peers, catalogs, 2) == put_all(
        put_all(Seq::empty(), of_first, of_first.len() as int),
        of_second,
        of_second.len() as int,
    )) by {
        reveal_with_fuel(gathered, 3);
    }
    lemma_catalogue_distinct(peers[0], first, first.len() as int);
    lemma_catalogue_distinct(peers[1], second, second.len() as int);
    assert forall|k: int, l: int|
        0 <= k < of_first.len() && 0 <= l < of_second.len() && (#[trigger] of_first[k]).0 == (
        #[trigger] of_second[l]).0 implies k == i && l == j by {
        assert(of_first[k].0 == first[k].name);
        assert(of_second[l].0 == second[l].name);
    }
    assert(of_first[i].0 == of_second[j].0);
    lemma_one_shared(of_first, of_second, i, j);
}

} // verus!
