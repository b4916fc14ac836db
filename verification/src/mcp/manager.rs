//! The registry of connected peers and the builder that fills it.

use super::names::{
    has_name, lemma_put, mapping, names_distinct, names_of, position, put, NameMap,
};
use super::transport::{ConnectError, Descriptor, TransportConfig};
use std::collections::HashMap;
use vstd::prelude::*;

verus! {

/// A peer that was configured and could not be started.
#[derive(Debug, Clone, PartialEq, Eq)]
pub struct StartFailure {
    /// The peer's logical name.
    pub name: String,
    /// What went wrong.
    pub error: ConnectError,
}

impl View for StartFailure {
    type V = (Seq<char>, Seq<char>);

    /// The peer's name and the reported message.
    open spec fn view(&self) -> (Seq<char>, Seq<char>) {
        (self.name@, self.error.message@)
    }
}

/// Whether the `i`-th configured peer connected: its outcome was reported
/// and is a success.
pub open spec fn connected<C>(results: Seq<Result<C, ConnectError>>, i: int) -> bool {
    0 <= i < results.len() && results[i] is Ok
}

/// The registry after the first `n` configured peers have been settled: a
/// peer that connected is stored under its name, any other is left out.
/// `results[i]` is the outcome of the peer called `names[i]`.
pub open spec fn settled<C>(
    names: Seq<Seq<char>>,
    results: Seq<Result<C, ConnectError>>,
    n: int,
) -> Seq<(Seq<char>, C)>
    decreases n,
{
    if n <= 0 {
        Seq::empty()
    } else {
        let before = settled(names, results, n - 1);
        if n - 1 < names.len() && connected(results, n - 1) {
            put(before, names[n - 1], results[n - 1]->Ok_0)
        } else {
            before
        }
    }
}

/// The failures among the first `n` configured peers, in their order, each
/// as the peer's name and the reported message.
pub open spec fn refused<C>(
    names: Seq<Seq<char>>,
    results: Seq<Result<C, ConnectError>>,
    n: int,
) -> Seq<(Seq<char>, Seq<char>)>
    decreases n,
{
    if n <= 0 {
        Seq::empty()
    } else {
        let before = refused(names, results, n - 1);
        if n - 1 < names.len() && n - 1 < results.len() && results[n - 1] is Err {
            before.push((names[n - 1], results[n - 1]->Err_0.message@))
        } else {
            before
        }
    }
}

/// How many of the first `n` configured peers connected.
pub open spec fn connected_count<C>(
    names: Seq<Seq<char>>,
    results: Seq<Result<C, ConnectError>>,
    n: int,
) -> nat
    decreases n,
{
    if n <= 0 {
        0
    } else {
        connected_count(names, results, n - 1) + if n - 1 < names.len() && connected(
            results,
            n - 1,
        ) {
            1nat
        } else {
            0nat
        }
    }
}

/// Owns the connected peers, each under its logical name. `C` is the live
/// connection to one peer.
#[derive(Debug)]
pub struct McpManager<C> {
    pub clients: NameMap<C>,
}

/// Collects the peers to connect to before any connection is attempted.
#[derive(Debug, Clone)]
pub struct McpManagerBuilder {
    server: Vec<(String, TransportConfig)>,
}

/// One configured peer as a name and a descriptor.
pub open spec fn server_view(s: (String, TransportConfig)) -> (Seq<char>, Descriptor) {
    (s.0@, s.1@)
}

/// The configured peers as names and descriptors.
pub open spec fn servers_view(s: Seq<(String, TransportConfig)>) -> Seq<(Seq<char>, Descriptor)> {
    s.map_values(|s: (String, TransportConfig)| server_view(s))
}

/// The reported failures, each as the peer's name and the message.
pub open spec fn start_failures_view(s: Seq<StartFailure>) -> Seq<(Seq<char>, Seq<char>)> {
    s.map_values(|f: StartFailure| f@)
}

impl Default for McpManagerBuilder {
    /// A builder that holds the one peer `default-mcp`, reached over an
    /// event stream at `http://localhost:8080/mcp`.
    fn default() -> (b: Self)
        ensures
            b@ == seq![
                ("default-mcp"@, Descriptor::EventStream { url: "http://localhost:8080/mcp"@ }),
            ],
    {
        Self::new().add_sse("default-mcp", "http://localhost:8080/mcp")
    }
}

impl McpManagerBuilder {
    /// The configured peers, in the order in which they were added.
    pub closed spec fn view(&self) -> Seq<(Seq<char>, Descriptor)> {
        servers_view(self.server@)
    }

    /// The names of the configured peers, in the order in which they were
    /// added.
    pub open spec fn names(&self) -> Seq<Seq<char>> {
        names_of(self@)
    }

    /// A builder without peers.
    pub fn new() -> (b: Self)
        ensures
            b@ == Seq::<(Seq<char>, Descriptor)>::empty(),
    {
        let b = Self { server: Vec::new() };
        assert(b@ =~= Seq::<(Seq<char>, Descriptor)>::empty());
        b
    }

    /// Adds the peer `name`, to be reached as `config` says.
    pub fn add(self, name: &str, config: TransportConfig) -> (b: Self)
        ensures
            b@ == self@.push((name@, config@)),
    {
        let mut server = self.server;
        server.push((name.to_owned(), config));
        let b = Self { server };
        assert(b@ =~= self@.push((name@, config@)));
        b
    }

    /// Adds every peer of `servers`, in order.
    pub fn load_config(self, servers: Vec<(String, TransportConfig)>) -> (b: Self)
        ensures
            b@ == self@ + servers_view(servers@),
    {
        let mut server = self.server;
        let mut added = servers;
        server.append(&mut added);
        let b = Self { server };
        assert(b@ =~= self@ + servers_view(servers@));
        b
    }

    /// Adds a peer reached over an event stream at `url`.
    pub fn add_sse(self, name: &str, url: &str) -> (b: Self)
        ensures
            b@ == self@.push((name@, Descriptor::EventStream { url: url@ })),
    {
        let mut server = self.server;
        server.push((name.to_owned(), TransportConfig::Sse { url: url.to_owned() }));
        let b = Self { server };
        assert(b@ =~= self@.push((name@, Descriptor::EventStream { url: url@ })));
        b
    }

    /// Adds a peer reached over a bidirectional HTTP stream at `url`.
    pub fn add_streamable(self, name: &str, url: &str) -> (b: Self)
        ensures
            b@ == self@.push((name@, Descriptor::StreamableHttp { url: url@ })),
    {
        let mut server = self.server;
        server.push((name.to_owned(), TransportConfig::Streamable { url: url.to_owned() }));
        let b = Self { server };
        assert(b@ =~= self@.push((name@, Descriptor::StreamableHttp { url: url@ })));
        b
    }

    /// Adds a peer that runs as a child process: `command` with `args` and
    /// the environment `envs`.
    pub fn add_stdio(
        self,
        name: &str,
        command: &str,
        args: Vec<String>,
        envs: HashMap<String, String>,
    ) -> (b: Self)
        ensures
            b@ == self@.push(
                (
                    name@,
                    Descriptor::Subprocess {
                        command: command@,
                        args: args.deep_view(),
                        environment: envs@,
                    },
                ),
            ),
    {
        let mut server = self.server;
        server.push(
            (name.to_owned(), TransportConfig::Stdio { command: command.to_owned(), args, envs }),
        );
        let b = Self { server };
        assert(b@ =~= self@.push(
            (
                name@,
                Descriptor::Subprocess {
                    command: command@,
                    args: args.deep_view(),
                    environment: envs@,
                },
            ),
        ));
        b
    }

    /// The configured peers, in the order in which they were added: what
    /// the caller is to connect to before it calls [`Self::build`].
    pub fn servers(&self) -> (s: &Vec<(String, TransportConfig)>)
        ensures
            servers_view(s@) == self@,
    {
        &self.server
    }

    /// Settles the start-up: `results[i]` is what the attempt to connect to
    /// the `i`-th configured peer gave. Every peer that connected is taken
    /// into the registry under its name; every failure is handed back for
    /// the caller to report. One peer's failure leaves the others alone, and
    /// a peer without a reported outcome counts as not connected.
    pub fn build<C>(self, results: Vec<Result<C, ConnectError>>) -> (out: (
        McpManager<C>,
        Vec<StartFailure>,
    ))
        ensures
            out.0.clients.entries() == settled(self.names(), results@, self.names().len() as int),
            start_failures_view(out.1@) == refused(
                self.names(),
                results@,
                self.names().len() as int,
            ),
    {
        let mut clients: NameMap<C> = NameMap::new();
        let mut failures: Vec<StartFailure> = Vec::new();
        let ghost all = results@;
        let ghost names = self.names();
        let n = self.server.len();
        let count = results.len();
        let mut i: usize = 0;
        assert(start_failures_view(failures@) =~= refused(names, all, 0));
        for result in it: results
            invariant
                n == self.server@.len(),
                n == names.len(),
                names == self.names(),
                count == all.len(),
                it.seq() == all,
                i == it.index(),
                clients.entries() == settled(names, all, i as int),
                start_failures_view(failures@) == refused(names, all, i as int),
        {
            if i < n {
                let name = self.server[i].0.clone();
                assert(name@ == names[i as int]);
                match result {
                    Ok(client) => {
                        clients.insert(name, client);
                    },
                    Err(error) => {
                        let ghost before = start_failures_view(failures@);
                        failures.push(StartFailure { name, error });
                        assert(start_failures_view(failures@) =~= before.push(
                            (names[i as int], error.message@),
                        ));
                    },
                }
            }
            assert(i < count);
            i += 1;
        }
        proof {
            if count <= n {
                lemma_settled_stable(names, all, count as int, n as int);
            } else {
                lemma_settled_stable(names, all, n as int, count as int);
            }
        }
        (McpManager { clients }, failures)
    }
}

/// Past the last reported outcome, and past the last configured peer,
/// nothing more is settled.
pub proof fn lemma_settled_stable<C>(
    names: Seq<Seq<char>>,
    results: Seq<Result<C, ConnectError>>,
    m: int,
    n: int,
)
    requires
        m <= n,
        m >= names.len() || m >= results.len(),
    ensures
        settled(names, results, n) == settled(names, results, m),
        refused(names, results, n) == refused(names, results, m),
        connected_count(names, results, n) == connected_count(names, results, m),
    decreases n - m,
{
    if m < n {
        lemma_settled_stable(names, results, m, n - 1);
    }
}

/// The names of the peers among the first `n` that connected, in the order
/// in which they were configured.
pub open spec fn kept<C>(names: Seq<Seq<char>>, results: Seq<Result<C, ConnectError>>, n: int) -> Seq<
    Seq<char>,
>
    decreases n,
{
    if n <= 0 {
        Seq::empty()
    } else {
        let before = kept(names, results, n - 1);
        if n - 1 < names.len() && connected(results, n - 1) {
            before.push(names[n - 1])
        } else {
            before
        }
    }
}

/// With distinct names the registry holds exactly the peers that connected,
/// in the order in which they were configured, each with its own
/// connection.
pub proof fn lemma_settled_distinct<C>(
    names: Seq<Seq<char>>,
    results: Seq<Result<C, ConnectError>>,
    n: int,
)
    requires
        names.no_duplicates(),
        0 <= n <= names.len(),
    ensures
        names_distinct(settled(names, results, n)),
        names_of(settled(names, results, n)) == kept(names, results, n),
        settled(names, results, n).len() == connected_count(names, results, n),
        forall|name: Seq<char>|
            has_name(settled(names, results, n), name) <==> exists|i: int|
                0 <= i < n && connected(results, i) && #[trigger] names[i] == name,
        forall|i: int|
            0 <= i < n && connected(results, i) ==> #[trigger] mapping(
                settled(names, results, n),
            )[names[i]] == results[i]->Ok_0,
    decreases n,
{
    let now = settled(names, results, n);
    if n <= 0 {
        assert(names_of(now) =~= kept(names, results, n));
    } else {
        lemma_settled_distinct(names, results, n - 1);
        let before = settled(names, results, n - 1);
        if connected(results, n - 1) {
            let name = names[n - 1];
            let value = results[n - 1]->Ok_0;
            if has_name(before, name) {
                let i = choose|i: int|
                    0 <= i < n - 1 && connected(results, i) && #[trigger] names[i] == name;
                assert(names[i] != names[n - 1]);
            }
            lemma_put(before, name, value);
            assert(now == before.push((name, value)));
            assert forall|k: Seq<char>| has_name(now, k) implies exists|i: int|
                0 <= i < n && connected(results, i) && #[trigger] names[i] == k by {
                let p = position(now, k);
                if p < before.len() {
                    assert(before[p].0 == k);
                    assert(has_name(before, k));
                    let i = choose|i: int|
                        0 <= i < n - 1 && connected(results, i) && #[trigger] names[i] == k;
                    assert(0 <= i < n && connected(results, i) && names[i] == k);
                } else {
                    assert(names[n - 1] == k);
                }
            }
            assert forall|k: Seq<char>|
                (exists|i: int|
                    0 <= i < n && connected(results, i) && #[trigger] names[i] == k) implies has_name(
                now,
                k,
            ) by {
                let i = choose|i: int|
                    0 <= i < n && connected(results, i) && #[trigger] names[i] == k;
                if i < n - 1 {
                    assert(has_name(before, k));
                    let p = position(before, k);
                    assert(now[p].0 == k);
                } else {
                    assert(now[before.len() as int].0 == k);
                }
            }
            assert forall|i: int| 0 <= i < n && connected(results, i) implies #[trigger] mapping(
                now,
            )[names[i]] == results[i]->Ok_0 by {
                if i < n - 1 {
                    assert(names[i] != names[n - 1]);
                }
            }
        } else {
            assert forall|name: Seq<char>|
                has_name(now, name) <==> exists|i: int|
                    0 <= i < n && connected(results, i) && #[trigger] names[i] == name by {
                if has_name(now, name) {
                    let i = choose|i: int|
                        0 <= i < n - 1 && connected(results, i) && #[trigger] names[i] == name;
                    assert(0 <= i < n && connected(results, i) && names[i] == name);
                }
                if exists|i: int| 0 <= i < n && connected(results, i) && #[trigger] names[i] == name {
                    let i = choose|i: int|
                        0 <= i < n && connected(results, i) && #[trigger] names[i] == name;
                    assert(0 <= i < n - 1 && connected(results, i) && names[i] == name);
                }
            }
        }
    }
}

/// When every configured peer connects, the registry holds as many peers
/// as were configured, every name once and in the configured order, each
/// with its own connection, and nothing is reported as failed.
pub proof fn lemma_all_connected<C>(names: Seq<Seq<char>>, results: Seq<Result<C, ConnectError>>)
    requires
        names.no_duplicates(),
        results.len() == names.len(),
        forall|i: int| 0 <= i < results.len() ==> results[i] is Ok,
    ensures
        settled(names, results, names.len() as int).len() == names.len(),
        names_of(settled(names, results, names.len() as int)) == names,
        names_distinct(settled(names, results, names.len() as int)),
        forall|i: int|
            0 <= i < names.len() ==> #[trigger] mapping(
                settled(names, results, names.len() as int),
            )[names[i]] == results[i]->Ok_0,
        refused(names, results, names.len() as int).len() == 0,
{
    lemma_settled_distinct(names, results, names.len() as int);
    lemma_kept_all(names, results, names.len() as int);
    assert(names.take(names.len() as int) =~= names);
}

/// While every peer so far has connected, all of them are kept and none is
/// reported.
proof fn lemma_kept_all<C>(names: Seq<Seq<char>>, results: Seq<Result<C, ConnectError>>, n: int)
    requires
        0 <= n <= names.len(),
        forall|i: int| 0 <= i < n ==> connected(results, i),
    ensures
        kept(names, results, n) == names.take(n),
        refused(names, results, n).len() == 0,
    decreases n,
{
    if n > 0 {
        lemma_kept_all(names, results, n - 1);
        assert(names.take(n) =~= names.take(n - 1).push(names[n - 1]));
    } else {
        assert(names.take(n) =~= Seq::<Seq<char>>::empty());
    }
}

/// When exactly one configured peer fails, the registry holds all the
/// others, in the configured order, and not the one that failed; that one
/// alone is reported.
pub proof fn lemma_one_failure<C>(
    names: Seq<Seq<char>>,
    results: Seq<Result<C, ConnectError>>,
    failing: int,
)
    requires
        names.no_duplicates(),
        results.len() == names.len(),
        0 <= failing < names.len(),
        results[failing] is Err,
        forall|i: int| 0 <= i < results.len() && i != failing ==> results[i] is Ok,
    ensures
        settled(names, results, names.len() as int).len() == names.len() - 1,
        names_of(settled(names, results, names.len() as int)) == names.remove(failing),
        !mapping(settled(names, results, names.len() as int)).dom().contains(names[failing]),
        forall|i: int|
            0 <= i < names.len() && i != failing ==> #[trigger] mapping(
                settled(names, results, names.len() as int),
            )[names[i]] == results[i]->Ok_0,
        refused(names, results, names.len() as int) == seq![
            (names[failing], results[failing]->Err_0.message@),
        ],
{
    let n = names.len() as int;
    lemma_settled_distinct(names, results, n);
    lemma_kept_all(names, results, failing);
    lemma_kept_but_one(names, results, failing, n);
    assert(names.take(n) =~= names);
    let reg = settled(names, results, n);
    assert(names_of(reg).len() == reg.len());
    if has_name(reg, names[failing]) {
        let i = choose|i: int|
            0 <= i < n && connected(results, i) && #[trigger] names[i] == names[failing];
        assert(i != failing);
    }
}

/// Past the one peer that failed, all the others are kept and it alone is
/// reported.
proof fn lemma_kept_but_one<C>(
    names: Seq<Seq<char>>,
    results: Seq<Result<C, ConnectError>>,
    failing: int,
    n: int,
)
    requires
        0 <= failing < n <= names.len(),
        results.len() == names.len(),
        results[failing] is Err,
        forall|i: int| 0 <= i < n && i != failing ==> connected(results, i),
        kept(names, results, failing) == names.take(failing),
        refused(names, results, failing).len() == 0,
    ensures
        kept(names, results, n) == names.take(n).remove(failing),
        refused(names, results, n) == seq![(names[failing], results[failing]->Err_0.message@)],
    decreases n,
{
    if n == failing + 1 {
        assert(names.take(n).remove(failing) =~= names.take(failing));
        assert(refused(names, results, n) =~= seq![
            (names[failing], results[failing]->Err_0.message@),
        ]);
    } else {
        lemma_kept_but_one(names, results, failing, n - 1);
        assert(names.take(n).remove(failing) =~= names.take(n - 1).remove(failing).push(
            names[n - 1],
        ));
    }
}

/// Whether some peer of a start-up is called `name` and met the outcome
/// `result`.
pub open spec fn settles<C>(
    names: Seq<Seq<char>>,
    results: Seq<Result<C, ConnectError>>,
    name: Seq<char>,
    result: Result<C, ConnectError>,
) -> bool {
    exists|j: int|
        0 <= j < names.len() && j < results.len() && #[trigger] names[j] == name && results[j]
            == result
}

/// The registry does not depend on the order in which the peers are
/// configured or settle: two start-ups in which the same peers, under
/// distinct names, meet the same outcomes give the same registry.
pub proof fn lemma_order_irrelevant<C>(
    names: Seq<Seq<char>>,
    results: Seq<Result<C, ConnectError>>,
    other_names: Seq<Seq<char>>,
    other_results: Seq<Result<C, ConnectError>>,
)
    requires
        names.no_duplicates(),
        other_names.no_duplicates(),
        results.len() == names.len(),
        other_results.len() == other_names.len(),
        forall|i: int|
            0 <= i < names.len() ==> #[trigger] settles(
                other_names,
                other_results,
                names[i],
                results[i],
            ),
        forall|j: int|
            0 <= j < other_names.len() ==> #[trigger] settles(
                names,
                results,
                other_names[j],
                other_results[j],
            ),
    ensures
        mapping(settled(names, results, names.len() as int)) == mapping(
            settled(other_names, other_results, other_names.len() as int),
        ),
{
    let n = names.len() as int;
    let m = other_names.len() as int;
    let one = settled(names, results, n);
    let two = settled(other_names, other_results, m);
    lemma_settled_distinct(names, results, n);
    lemma_settled_distinct(other_names, other_results, m);
    assert forall|k: Seq<char>| has_name(one, k) implies has_name(two, k) && mapping(one)[k]
        == mapping(two)[k] by {
        let i = choose|i: int| 0 <= i < n && connected(results, i) && #[trigger] names[i] == k;
        assert(settles(other_names, other_results, names[i], results[i]));
        let j = choose|j: int|
            0 <= j < m && #[trigger] other_names[j] == names[i] && other_results[j] == results[i];
        assert(connected(other_results, j) && other_names[j] == k);
        assert(mapping(one)[names[i]] == results[i]->Ok_0);
        assert(mapping(two)[other_names[j]] == other_results[j]->Ok_0);
    }
    assert forall|k: Seq<char>| has_name(two, k) implies has_name(one, k) by {
        let j = choose|j: int|
            0 <= j < m && connected(other_results, j) && #[trigger] other_names[j] == k;
        assert(settles(names, results, other_names[j], other_results[j]));
        let i = choose|i: int|
            0 <= i < n && #[trigger] names[i] == other_names[j] && results[i] == other_results[j];
        assert(connected(results, i) && names[i] == k);
    }
    assert(mapping(one) =~= mapping(two));
}

} // verus!
