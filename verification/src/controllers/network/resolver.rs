//! Writes the resolver's configuration.

use crate::controllers::network::NS;
use crate::controllers::{input, Input, InputKind, InputView, Output};
use crate::resources::{ResolverSpec, Resource, ResourceObject, ResourceType};
use vstd::prelude::*;
use vstd::string::*;

verus! {

/// Writes the resolver's configuration to a file.
pub struct ResolverController {
    path: String,
}

/// The lines for the search domains.
pub open spec fn search_lines(search: Seq<Seq<char>>) -> Seq<char>
    decreases search.len(),
{
    if search.len() == 0 {
        Seq::empty()
    } else {
        search_lines(search.drop_last()) + "search "@ + search.last() + "\n"@
    }
}

/// The lines for the name servers.
pub open spec fn server_lines(servers: Seq<crate::ip::IpAddr>) -> Seq<char>
    decreases servers.len(),
{
    if servers.len() == 0 {
        Seq::empty()
    } else {
        server_lines(servers.drop_last()) + "nameserver "@ + crate::ip::ip_text(servers.last())
            + "\n"@
    }
}

/// The content of the file: the search domains, and then the name servers.
pub open spec fn body_of(s: ResolverSpec) -> Seq<char> {
    search_lines(crate::text::texts(s.search@)) + server_lines(s.nameservers@)
}

/// The content of the file.
pub fn resolv_conf(s: &ResolverSpec) -> (r: String)
    ensures
        r@ == body_of(*s),
{
    let mut body = String::new();
    let ghost search = crate::text::texts(s.search@);
    let mut i: usize = 0;
    while i < s.search.len()
        invariant
            i <= s.search@.len(),
            search == crate::text::texts(s.search@),
            body@ == search_lines(search.take(i as int)),
        decreases s.search@.len() - i,
    {
        proof {
            assert(search.take(i + 1).drop_last() =~= search.take(i as int));
            assert(search.take(i + 1).last() == s.search@[i as int]@);
        }
        body.append("search ");
        body.append(s.search[i].as_str());
        body.append("\n");
        i += 1;
    }
    assert(search.take(i as int) =~= search);
    let ghost start = body@;
    let ghost servers = s.nameservers@;
    let mut k: usize = 0;
    assert(start + server_lines(servers.take(0)) =~= start);
    while k < s.nameservers.len()
        invariant
            k <= s.nameservers@.len(),
            servers == s.nameservers@,
            body@ == start + server_lines(servers.take(k as int)),
        decreases s.nameservers@.len() - k,
    {
        body.append("nameserver ");
        body.append(s.nameservers[k].to_string().as_str());
        body.append("\n");
        proof {
            assert(servers.take(k + 1).drop_last() =~= servers.take(k as int));
            assert(body@ =~= start + server_lines(servers.take(k + 1)));
        }
        k += 1;
    }
    assert(servers.take(k as int) =~= servers);
    body
}

/// The contents to write among the resources, in their order.
pub open spec fn bodies(listed: Seq<ResourceObject>) -> Seq<Seq<char>>
    decreases listed.len(),
{
    if listed.len() == 0 {
        seq![]
    } else {
        let before = bodies(listed.drop_last());
        match listed.last().spec {
            Resource::ResolverSpec(s) => before.push(body_of(s)),
            _ => before,
        }
    }
}

impl ResolverController {
    /// The file that is written.
    pub closed spec fn file(self) -> Seq<char> {
        self.path@
    }

    pub fn new(path: &str) -> (r: ResolverController)
        ensures
            r.file() == path@,
    {
        ResolverController { path: path.to_owned() }
    }

    /// The file of a running system.
    pub fn at_etc() -> (r: ResolverController)
        ensures
            r.file() == "/etc/resolv.conf"@,
    {
        ResolverController::new("/etc/resolv.conf")
    }

    /// The file that is written.
    pub fn path(&self) -> (r: &str)
        ensures
            r@ == self.file(),
    {
        self.path.as_str()
    }

    pub fn name(&self) -> (r: &'static str)
        ensures
            r@ == "resolver"@,
    {
        "resolver"
    }

    pub fn inputs(&self) -> (r: Vec<Input>)
        ensures
            crate::controllers::inputs_of(r@) == seq![
                InputView {
                    namespace: NS@,
                    typ: ResourceType::ResolverSpec,
                    kind: InputKind::Strong,
                },
            ],
    {
        let r = vec![input(NS, ResourceType::ResolverSpec, InputKind::Strong)];
        assert(crate::controllers::inputs_of(r@) =~= seq![
            InputView { namespace: NS@, typ: ResourceType::ResolverSpec, kind: InputKind::Strong },
        ]);
        r
    }

    pub fn outputs(&self) -> (r: Vec<Output>)
        ensures
            r@.len() == 0,
    {
        Vec::new()
    }

    /// The contents to write, one after the other.
    pub fn reconcile(&self, listed: &Vec<ResourceObject>) -> (r: Vec<String>)
        ensures
            crate::text::texts(r@) == bodies(listed@),
    {
        let mut out: Vec<String> = Vec::new();
        let mut i: usize = 0;
        assert(crate::text::texts(out@) =~= bodies(listed@.take(0)));
        while i < listed.len()
            invariant
                i <= listed@.len(),
                crate::text::texts(out@) == bodies(listed@.take(i as int)),
            decreases listed@.len() - i,
        {
            proof {
                assert(listed@.take(i + 1).drop_last() =~= listed@.take(i as int));
                assert(listed@.take(i + 1).last() == listed@[i as int]);
            }
            if let Resource::ResolverSpec(s) = &listed[i].spec {
                let b = resolv_conf(s);
                assert(crate::text::texts(out@.push(b)) =~= crate::text::texts(out@).push(b@));
                out.push(b);
            }
            i += 1;
        }
        assert(listed@.take(i as int) =~= listed@);
        out
    }
}

/// The lines of the file.
pub open spec fn lines_of(s: ResolverSpec) -> Seq<Seq<char>> {
    Seq::new(s.search@.len(), |i: int| "search "@ + s.search@[i]@) + Seq::new(
        s.nameservers@.len(),
        |i: int| "nameserver "@ + crate::ip::ip_text(s.nameservers@[i]),
    )
}

/// Lines, each with a line break behind it.
pub open spec fn ended(lines: Seq<Seq<char>>) -> Seq<char>
    decreases lines.len(),
{
    if lines.len() == 0 {
        Seq::empty()
    } else {
        ended(lines.drop_last()) + lines.last() + "\n"@
    }
}

proof fn lemma_search_lines(search: Seq<Seq<char>>)
    ensures
        search_lines(search) == ended(Seq::new(search.len(), |i: int| "search "@ + search[i])),
    decreases search.len(),
{
    let lines = Seq::new(search.len(), |i: int| "search "@ + search[i]);
    if search.len() > 0 {
        let less = search.drop_last();
        lemma_search_lines(less);
        assert(lines.drop_last() =~= Seq::new(less.len(), |i: int| "search "@ + less[i]));
        assert(search_lines(search) =~= ended(lines));
    }
}

proof fn lemma_server_lines(before: Seq<Seq<char>>, servers: Seq<crate::ip::IpAddr>)
    ensures
        ended(before) + server_lines(servers) == ended(
            before + Seq::new(
                servers.len(),
                |i: int| "nameserver "@ + crate::ip::ip_text(servers[i]),
            ),
        ),
    decreases servers.len(),
{
    let lines = Seq::new(servers.len(), |i: int| "nameserver "@ + crate::ip::ip_text(servers[i]));
    let all = before + lines;
    if servers.len() > 0 {
        let less = servers.drop_last();
        lemma_server_lines(before, less);
        assert(all.drop_last() =~= before + Seq::new(
            less.len(),
            |i: int| "nameserver "@ + crate::ip::ip_text(less[i]),
        ));
        assert(all.last() == lines.last());
        assert(ended(before) + server_lines(servers) =~= ended(all));
    } else {
        assert(all =~= before);
        assert(ended(before) + server_lines(servers) =~= ended(before));
    }
}

/// The file has a line for every search domain and then one for every name
/// server, each in its configured order, and no other line.
pub proof fn every_domain_and_server_has_its_line(s: ResolverSpec, i: int, k: int)
    ensures
        body_of(s) == ended(lines_of(s)),
        lines_of(s).len() == s.search@.len() + s.nameservers@.len(),
        0 <= i < s.search@.len() ==> lines_of(s)[i] == "search "@ + s.search@[i]@,
        0 <= k < s.nameservers@.len() ==> {
            let line = lines_of(s)[s.search@.len() + k];
            &&& line == "nameserver "@ + crate::ip::ip_text(s.nameservers@[k])
            &&& crate::ip::reading::ip_of(line.skip(11)) == Some(s.nameservers@[k])
        },
{
    the_file_is_its_lines(s);
    if 0 <= k < s.nameservers@.len() {
        reveal_strlit("nameserver ");
        let ip = crate::ip::ip_text(s.nameservers@[k]);
        assert(("nameserver "@ + ip).skip(11) =~= ip);
        crate::ip::reading::an_address_reads_back(s.nameservers@[k]);
    }
}

/// The file is made of its lines and of nothing else.
pub proof fn the_file_is_its_lines(s: ResolverSpec)
    ensures
        body_of(s) == ended(lines_of(s)),
{
    let search = crate::text::texts(s.search@);
    lemma_search_lines(search);
    let lines = Seq::new(search.len(), |i: int| "search "@ + search[i]);
    lemma_server_lines(lines, s.nameservers@);
    assert(lines =~= Seq::new(s.search@.len(), |i: int| "search "@ + s.search@[i]@));
}

/// The contents of two lists are those of the first and then those of the
/// second; a resolver's spec counts, and nothing else does.
pub proof fn every_resolver_is_written(
    a: Seq<ResourceObject>,
    b: Seq<ResourceObject>,
    o: ResourceObject,
)
    ensures
        bodies(a + b) == bodies(a) + bodies(b),
        bodies(seq![o]) == match o.spec {
            Resource::ResolverSpec(s) => seq![ended(lines_of(s))],
            _ => Seq::<Seq<char>>::empty(),
        },
    decreases b.len(),
{
    assert(seq![o].drop_last() =~= Seq::empty());
    assert(bodies(seq![o].drop_last()) =~= Seq::empty());
    assert(seq![o].last() == o);
    if let Resource::ResolverSpec(s) = o.spec {
        the_file_is_its_lines(s);
    }
    if b.len() == 0 {
        assert(a + b =~= a);
        assert(bodies(a) + bodies(b) =~= bodies(a));
    } else {
        every_resolver_is_written(a, b.drop_last(), o);
        assert((a + b).drop_last() =~= a + b.drop_last());
        assert((a + b).last() == b.last());
        assert(bodies(a + b) =~= bodies(a) + bodies(b));
    }
}

} // verus!
