//! The server list: the entry type, which entries a query selects, and which
//! entry a connection goes to.
use vstd::prelude::*;

use crate::text::{join3, same_text};

verus! {

/// One entry of the server list.
pub struct Server {
    pub id: i32,
    pub label: String,
    pub name: String,
    pub user: String,
    pub address: String,
    pub sshport: String,
}

impl Server {
    /// The placeholder entry: id `-2` and every text field `"None"`.
    pub fn new() -> (s: Server)
        ensures
            s.id == -2,
            s.label@ == "None"@,
            s.name@ == "None"@,
            s.user@ == "None"@,
            s.address@ == "None"@,
            s.sshport@ == "None"@,
    {
        Server {
            id: -2,
            label: String::from_str("None"),
            name: String::from_str("None"),
            user: String::from_str("None"),
            address: String::from_str("None"),
            sshport: String::from_str("None"),
        }
    }
}

/// Which entries a query selects.
#[derive(PartialEq, Eq, Structural, Clone, Copy, Debug)]
pub enum Rule {
    /// Entries whose name is the query.
    Name,
    /// Entries whose label is the query.
    Label,
    /// Entries whose name or label is the query.
    NameOrLabel,
    /// Entries with a positive id (the real servers of the list).
    Listed,
}

/// Whether `rule` selects `server` for the query `query`.
pub open spec fn rule_selects(rule: Rule, server: Server, query: Seq<char>) -> bool {
    match rule {
        Rule::Name => server.name@ == query,
        Rule::Label => server.label@ == query,
        Rule::NameOrLabel => server.name@ == query || server.label@ == query,
        Rule::Listed => server.id > 0,
    }
}

/// `idx` lists, in increasing order and once each, exactly the positions of
/// `servers` that `rule` selects for `query`.
pub open spec fn selection(
    idx: Seq<usize>,
    servers: Seq<Server>,
    rule: Rule,
    query: Seq<char>,
) -> bool {
    &&& forall|a: int, b: int| 0 <= a < b < idx.len() ==> idx[a] < idx[b]
    &&& forall|a: int|
        0 <= a < idx.len() ==> idx[a] < servers.len() && rule_selects(
            rule,
            servers[idx[a] as int],
            query,
        )
    &&& forall|i: int|
        0 <= i < servers.len() && rule_selects(rule, servers[i], query) ==> idx.contains(
            i as usize,
        )
}

/// Two strictly increasing lists with the same members are the same list.
proof fn lemma_increasing_same_members(x: Seq<usize>, y: Seq<usize>)
    requires
        forall|a: int, b: int| 0 <= a < b < x.len() ==> x[a] < x[b],
        forall|a: int, b: int| 0 <= a < b < y.len() ==> y[a] < y[b],
        forall|v: usize| x.contains(v) <==> y.contains(v),
    ensures
        x == y,
    decreases x.len() + y.len(),
{
    if x.len() > 0 && y.len() > 0 {
        let xl = x.last();
        let yl = y.last();
        assert(x.contains(xl));
        assert(y.contains(yl));
        let i = choose|i: int| 0 <= i < x.len() && x[i] == yl;
        let j = choose|j: int| 0 <= j < y.len() && y[j] == xl;
        if i < x.len() - 1 {
            assert(x[i] < x[x.len() - 1]);
        }
        if j < y.len() - 1 {
            assert(y[j] < y[y.len() - 1]);
        }
        assert(xl == yl);
        let xs = x.drop_last();
        let ys = y.drop_last();
        assert forall|v: usize| xs.contains(v) implies ys.contains(v) by {
            let a = choose|a: int| 0 <= a < xs.len() && xs[a] == v;
            assert(x[a] == v && x[a] < xl);
            assert(x.contains(v));
            let b = choose|b: int| 0 <= b < y.len() && y[b] == v;
            assert(ys[b] == v);
        }
        assert forall|v: usize| ys.contains(v) implies xs.contains(v) by {
            let b = choose|b: int| 0 <= b < ys.len() && ys[b] == v;
            assert(y[b] == v && y[b] < yl);
            assert(y.contains(v));
            let a = choose|a: int| 0 <= a < x.len() && x[a] == v;
            assert(xs[a] == v);
        }
        lemma_increasing_same_members(xs, ys);
        assert(x =~= xs.push(xl));
        assert(y =~= ys.push(yl));
    } else if x.len() > 0 {
        assert(x.contains(x[0]));
    } else if y.len() > 0 {
        assert(y.contains(y[0]));
    }
}

/// Two lists that both satisfy `selection` for the same entries, rule and
/// query are the same list: a selection is determined by what it selects.
pub proof fn lemma_selection_unique(
    x: Seq<usize>,
    y: Seq<usize>,
    servers: Seq<Server>,
    rule: Rule,
    query: Seq<char>,
)
    requires
        selection(x, servers, rule, query),
        selection(y, servers, rule, query),
    ensures
        x == y,
{
    assert forall|v: usize| x.contains(v) <==> y.contains(v) by {
        if x.contains(v) {
            let a = choose|a: int| 0 <= a < x.len() && x[a] == v;
            assert(rule_selects(rule, servers[v as int], query));
        }
        if y.contains(v) {
            let b = choose|b: int| 0 <= b < y.len() && y[b] == v;
            assert(rule_selects(rule, servers[v as int], query));
        }
    }
    lemma_increasing_same_members(x, y);
}

/// Whether `rule` selects `server` for `query`.
pub fn selects(rule: Rule, server: &Server, query: &str) -> (b: bool)
    ensures
        b == rule_selects(rule, *server, query@),
{
    match rule {
        Rule::Name => same_text(server.name.as_str(), query),
        Rule::Label => same_text(server.label.as_str(), query),
        Rule::NameOrLabel => same_text(server.name.as_str(), query) || same_text(
            server.label.as_str(),
            query,
        ),
        Rule::Listed => server.id > 0,
    }
}

/// Positions, in list order, of the entries that `rule` selects for `query`.
pub fn select(servers: &Vec<Server>, rule: Rule, query: &str) -> (idx: Vec<usize>)
    ensures
        selection(idx@, servers@, rule, query@),
{
    let mut idx: Vec<usize> = Vec::new();
    let n: usize = servers.len();
    let mut i: usize = 0;
    while i < n
        invariant
            0 <= i <= n,
            n == servers@.len(),
            forall|a: int, b: int| 0 <= a < b < idx@.len() ==> idx@[a] < idx@[b],
            forall|a: int|
                0 <= a < idx@.len() ==> idx@[a] < i && rule_selects(
                    rule,
                    servers@[idx@[a] as int],
                    query@,
                ),
            forall|k: int|
                0 <= k < i && rule_selects(rule, servers@[k], query@) ==> idx@.contains(
                    k as usize,
                ),
        decreases n - i,
    {
        if selects(rule, &servers[i], query) {
            let ghost before = idx@;
            idx.push(i);
            assert forall|k: int|
                0 <= k < i && rule_selects(rule, servers@[k], query@) implies idx@.contains(
                k as usize,
            ) by {
                let a = choose|a: int| 0 <= a < before.len() && before[a] == k as usize;
                assert(idx@[a] == k as usize);
            }
            assert(idx@[idx@.len() - 1] == i);
        }
        i = i + 1;
    }
    idx
}

/// The positions a selection lists are exactly those of the entries that the
/// rule selects.
proof fn lemma_selection_members(idx: Seq<usize>, servers: Seq<Server>, rule: Rule, query: Seq<char>)
    requires
        servers.len() <= usize::MAX,
        selection(idx, servers, rule, query),
    ensures
        forall|i: int|
            0 <= i < servers.len() ==> (idx.contains(i as usize) <==> rule_selects(
                rule,
                servers[i],
                query,
            )),
{
    assert forall|i: int| 0 <= i < servers.len() implies (idx.contains(i as usize)
        <==> rule_selects(rule, servers[i], query)) by {
        if idx.contains(i as usize) {
            let a = choose|a: int| 0 <= a < idx.len() && idx[a] == i as usize;
            assert(idx[a] as int == i);
        }
    }
}

/// A command for a name runs on a server exactly when the server's name is
/// that name, character for character: no longer or shorter name matches.
pub proof fn lemma_name_selection_is_exact(servers: Seq<Server>, name: Seq<char>, idx: Seq<usize>)
    requires
        servers.len() <= usize::MAX,
        selection(idx, servers, Rule::Name, name),
    ensures
        forall|i: int|
            0 <= i < servers.len() ==> (idx.contains(i as usize) <==> servers[i].name@ == name),
        forall|a: int| 0 <= a < idx.len() ==> servers[idx[a] as int].name@ == name,
{
    lemma_selection_members(idx, servers, Rule::Name, name);
}

/// A command for a label runs on a server exactly when the server's label is
/// that label, character for character: a label that merely starts or ends
/// with it does not match.
pub proof fn lemma_label_selection_is_exact(
    servers: Seq<Server>,
    label: Seq<char>,
    idx: Seq<usize>,
)
    requires
        servers.len() <= usize::MAX,
        selection(idx, servers, Rule::Label, label),
    ensures
        forall|i: int|
            0 <= i < servers.len() ==> (idx.contains(i as usize) <==> servers[i].label@ == label),
        forall|a: int| 0 <= a < idx.len() ==> servers[idx[a] as int].label@ == label,
        forall|i: int, extra: Seq<char>|
            0 <= i < servers.len() && extra.len() > 0 && servers[i].label@ == label + extra
                ==> !idx.contains(i as usize),
{
    lemma_selection_members(idx, servers, Rule::Label, label);
    assert forall|i: int, extra: Seq<char>|
        0 <= i < servers.len() && extra.len() > 0 && servers[i].label@ == label
            + extra implies !idx.contains(i as usize) by {
        assert((label + extra).len() != label.len());
    }
}

/// Details are shown for a target exactly on the servers whose name or whose
/// label is the target, character for character.
pub proof fn lemma_shown_selection_is_exact(
    servers: Seq<Server>,
    target: Seq<char>,
    idx: Seq<usize>,
)
    requires
        servers.len() <= usize::MAX,
        selection(idx, servers, Rule::NameOrLabel, target),
    ensures
        forall|i: int|
            0 <= i < servers.len() ==> (idx.contains(i as usize) <==> (servers[i].name@ == target
                || servers[i].label@ == target)),
        forall|a: int|
            0 <= a < idx.len() ==> (servers[idx[a] as int].name@ == target || servers[idx[
                a
            ] as int].label@ == target),
{
    lemma_selection_members(idx, servers, Rule::NameOrLabel, target);
}

/// Listing every server shows exactly the entries with a positive id, so the
/// template entries with id 0 and -1 never show.
pub proof fn lemma_listed_selection_is_exact(
    servers: Seq<Server>,
    query: Seq<char>,
    idx: Seq<usize>,
)
    requires
        servers.len() <= usize::MAX,
        selection(idx, servers, Rule::Listed, query),
    ensures
        forall|i: int| 0 <= i < servers.len() ==> (idx.contains(i as usize) <==> servers[i].id > 0),
        forall|a: int| 0 <= a < idx.len() ==> servers[idx[a] as int].id > 0,
{
    lemma_selection_members(idx, servers, Rule::Listed, query);
}

/// Positions of the entries whose name is `name`: the servers that a command
/// for one server name runs on.
pub fn servers_named(servers: &Vec<Server>, name: &str) -> (idx: Vec<usize>)
    ensures
        selection(idx@, servers@, Rule::Name, name@),
        forall|i: int|
            0 <= i < servers@.len() ==> (idx@.contains(i as usize) <==> servers@[i].name@
                == name@),
{
    let count: usize = servers.len();
    let idx = select(servers, Rule::Name, name);
    proof {
        assert(servers@.len() == count);
        lemma_name_selection_is_exact(servers@, name@, idx@);
    }
    idx
}

/// Positions of the entries whose label is `label`: the servers that a
/// command for a label runs on.
pub fn servers_labelled(servers: &Vec<Server>, label: &str) -> (idx: Vec<usize>)
    ensures
        selection(idx@, servers@, Rule::Label, label@),
        forall|i: int|
            0 <= i < servers@.len() ==> (idx@.contains(i as usize) <==> servers@[i].label@
                == label@),
{
    let count: usize = servers.len();
    let idx = select(servers, Rule::Label, label);
    proof {
        assert(servers@.len() == count);
        lemma_label_selection_is_exact(servers@, label@, idx@);
    }
    idx
}

/// Positions of the entries whose details are listed for `server_name`: those
/// named so when the name is not empty, else every entry with a positive id.
pub fn servers_to_list(servers: &Vec<Server>, server_name: &str) -> (idx: Vec<usize>)
    ensures
        server_name@.len() > 0 ==> selection(idx@, servers@, Rule::Name, server_name@),
        server_name@.len() == 0 ==> selection(idx@, servers@, Rule::Listed, server_name@),
        server_name@.len() > 0 ==> forall|i: int|
            0 <= i < servers@.len() ==> (idx@.contains(i as usize) <==> servers@[i].name@
                == server_name@),
        server_name@.len() == 0 ==> forall|i: int|
            0 <= i < servers@.len() ==> (idx@.contains(i as usize) <==> servers@[i].id > 0),
{
    let count: usize = servers.len();
    if server_name.unicode_len() > 0 {
        let idx = select(servers, Rule::Name, server_name);
        proof {
            assert(servers@.len() == count);
            lemma_name_selection_is_exact(servers@, server_name@, idx@);
        }
        idx
    } else {
        let idx = select(servers, Rule::Listed, server_name);
        proof {
            assert(servers@.len() == count);
            lemma_listed_selection_is_exact(servers@, server_name@, idx@);
        }
        idx
    }
}

/// Positions of the entries shown for `target`: every entry with a positive id
/// when `target` is `"all"`, else those whose name or label is `target`.
pub fn servers_to_show(servers: &Vec<Server>, target: &str) -> (idx: Vec<usize>)
    ensures
        target@ != "all"@ ==> selection(idx@, servers@, Rule::NameOrLabel, target@),
        target@ == "all"@ ==> selection(idx@, servers@, Rule::Listed, target@),
        target@ != "all"@ ==> forall|i: int|
            0 <= i < servers@.len() ==> (idx@.contains(i as usize) <==> (servers@[i].name@
                == target@ || servers@[i].label@ == target@)),
        target@ == "all"@ ==> forall|i: int|
            0 <= i < servers@.len() ==> (idx@.contains(i as usize) <==> servers@[i].id > 0),
{
    let count: usize = servers.len();
    if same_text(target, "all") {
        let idx = select(servers, Rule::Listed, target);
        proof {
            assert(servers@.len() == count);
            lemma_listed_selection_is_exact(servers@, target@, idx@);
        }
        idx
    } else {
        let idx = select(servers, Rule::NameOrLabel, target);
        proof {
            assert(servers@.len() == count);
            lemma_shown_selection_is_exact(servers@, target@, idx@);
        }
        idx
    }
}

/// Position of the last entry named `name`, or `-1` when none is.
pub open spec fn last_named(servers: Seq<Server>, name: Seq<char>) -> int
    decreases servers.len(),
{
    if servers.len() == 0 {
        -1
    } else if servers.last().name@ == name {
        servers.len() - 1
    } else {
        last_named(servers.drop_last(), name)
    }
}

/// What `last_named` gives: a position of an entry with that name and none
/// after it, or `-1` exactly when no entry has the name.
pub proof fn lemma_last_named(servers: Seq<Server>, name: Seq<char>)
    ensures
        -1 <= last_named(servers, name) < servers.len(),
        last_named(servers, name) >= 0 ==> servers[last_named(servers, name)].name@ == name,
        forall|j: int| last_named(servers, name) < j < servers.len() ==> servers[j].name@ != name,
    decreases servers.len(),
{
    if servers.len() > 0 {
        lemma_last_named(servers.drop_last(), name);
        assert forall|j: int| last_named(servers, name) < j < servers.len() implies servers[j].name@
            != name by {
            if j < servers.len() - 1 {
                assert(servers[j] == servers.drop_last()[j]);
            }
        }
    }
}

/// A connection to `name` goes to the last of the servers that a command for
/// `name` runs on, and to the placeholder exactly when that command runs on
/// no server.
pub proof fn lemma_connection_goes_to_last_named(
    servers: Seq<Server>,
    name: Seq<char>,
    idx: Seq<usize>,
)
    requires
        servers.len() <= usize::MAX,
        selection(idx, servers, Rule::Name, name),
    ensures
        idx.len() == 0 <==> last_named(servers, name) < 0,
        idx.len() > 0 ==> last_named(servers, name) == idx.last(),
{
    lemma_last_named(servers, name);
    let k = last_named(servers, name);
    if k >= 0 {
        assert(rule_selects(Rule::Name, servers[k], name));
        assert(idx.contains(k as usize));
    }
    if idx.len() > 0 {
        let l = idx.last();
        assert(idx[idx.len() - 1] < servers.len());
        assert(rule_selects(Rule::Name, servers[l as int], name));
        assert(k >= 0);
        assert(l as int <= k);
        assert(rule_selects(Rule::Name, servers[k], name));
        assert(idx.contains(k as usize));
        let a = choose|a: int| 0 <= a < idx.len() && idx[a] == k as usize;
        assert(idx[a] as int == k);
        if a < idx.len() - 1 {
            assert(idx[a] < idx[idx.len() - 1]);
        }
        assert(k <= l as int);
    }
}

/// A copy of `server`.
fn copy_server(server: &Server) -> (r: Server)
    ensures
        r == *server,
{
    Server {
        id: server.id,
        label: server.label.clone(),
        name: server.name.clone(),
        user: server.user.clone(),
        address: server.address.clone(),
        sshport: server.sshport.clone(),
    }
}

/// The entry a connection to `name` goes to: the last entry of the list with
/// that name, or the placeholder `Server::new()` when no entry has it.
pub fn server_to_connect(servers: &Vec<Server>, name: &str) -> (r: Server)
    ensures
        last_named(servers@, name@) >= 0 ==> r == servers@[last_named(servers@, name@)],
        last_named(servers@, name@) < 0 ==> {
            &&& r.id == -2
            &&& r.label@ == "None"@
            &&& r.name@ == "None"@
            &&& r.user@ == "None"@
            &&& r.address@ == "None"@
            &&& r.sshport@ == "None"@
        },
{
    let mut k: usize = servers.len();
    assert(servers@.take(k as int) =~= servers@);
    while k > 0 && !same_text(servers[k - 1].name.as_str(), name)
        invariant
            k <= servers@.len(),
            last_named(servers@, name@) == last_named(servers@.take(k as int), name@),
        decreases k,
    {
        assert(servers@.take(k as int).drop_last() =~= servers@.take(k - 1));
        k = k - 1;
    }
    if k == 0 {
        Server::new()
    } else {
        assert(servers@.take(k as int).last() == servers@[k - 1]);
        copy_server(&servers[k - 1])
    }
}

/// The `address:port` text that a connection to `server` dials.
pub fn connection_address(server: &Server) -> (r: String)
    ensures
        r@ == server.address@ + ":"@ + server.sshport@,
{
    join3(server.address.as_str(), ":", server.sshport.as_str())
}

} // verus!
