//! Virtual hosting: choosing the server for a request by port and `Host`.
use vstd::prelude::*;
use crate::config::ServerConfig;
use crate::params::{split_first, split_once};
use crate::text::{eq_str, lower, push_char, to_lower_char};

verus! {

/// ASCII lower-casing of a string.
pub fn to_lower(s: &str) -> (r: String)
    ensures
        r@ == lower(s@),
{
    let n = s.unicode_len();
    let mut out = String::new();
    let mut i: usize = 0;
    while i < n
        invariant
            n == s@.len(),
            i <= n,
            out@ == lower(s@.subrange(0, i as int)),
        decreases n - i,
    {
        push_char(&mut out, to_lower_char(s.get_char(i)));
        assert(lower(s@.subrange(0, i + 1)) =~= lower(s@.subrange(0, i as int)).push(crate::text::lower_char(s@[i as int])));
        i = i + 1;
    }
    assert(s@.subrange(0, n as int) =~= s@);
    out
}

/// The host name in a `Host` value, lower-cased and without its port;
/// loopback addresses stand for `localhost`.
pub open spec fn host_key(host: Seq<char>) -> Seq<char> {
    let h = lower(host);
    let name = if h.len() > 0 && h[0] == '[' {
        match split_first(h, ']') {
            Some((a, _)) => a + "]"@,
            None => h,
        }
    } else if h == "::1"@ {
        h
    } else {
        match split_first(h, ':') {
            Some((a, _)) => a,
            None => h,
        }
    };
    if name == "127.0.0.1"@ || name == "::1"@ || name == "[::1]"@ {
        "localhost"@
    } else {
        name
    }
}

/// The host name a `Host` header value designates.
pub fn normalize_host(host: &str) -> (r: String)
    ensures
        r@ == host_key(host@),
{
    let h = to_lower(host);
    let hs = h.as_str();
    let name = if hs.unicode_len() > 0 && hs.get_char(0) == '[' {
        match split_once(hs, ']') {
            Some((a, _)) => {
                let mut a = a;
                a.append("]");
                a
            },
            None => h.clone(),
        }
    } else if eq_str(hs, "::1") {
        h.clone()
    } else {
        match split_once(hs, ':') {
            Some((a, _)) => a,
            None => h.clone(),
        }
    };
    if eq_str(name.as_str(), "127.0.0.1") || eq_str(name.as_str(), "::1") || eq_str(name.as_str(), "[::1]") {
        "localhost".to_owned()
    } else {
        name
    }
}

/// Server `i` listens on `port`.
pub open spec fn listens(servers: Seq<(Seq<u16>, Seq<char>)>, i: int, port: u16) -> bool {
    0 <= i < servers.len() && servers[i].0.contains(port)
}

/// The first server from `from` on that listens on `port` under name `key`.
pub open spec fn first_named(servers: Seq<(Seq<u16>, Seq<char>)>, port: u16, key: Seq<char>, from: int) -> Option<int>
    decreases servers.len() - from,
{
    if from < 0 || from >= servers.len() {
        None
    } else if listens(servers, from, port) && lower(servers[from].1) == key {
        Some(from)
    } else {
        first_named(servers, port, key, from + 1)
    }
}

/// The first server from `from` on that listens on `port`.
pub open spec fn first_on_port(servers: Seq<(Seq<u16>, Seq<char>)>, port: u16, from: int) -> Option<int>
    decreases servers.len() - from,
{
    if from < 0 || from >= servers.len() {
        None
    } else if listens(servers, from, port) {
        Some(from)
    } else {
        first_on_port(servers, port, from + 1)
    }
}

/// The server for a request on `port` whose host is `key`: the first server on
/// that port whose lower-cased name is `key`, else the first server on the port.
pub open spec fn pick_server(servers: Seq<(Seq<u16>, Seq<char>)>, port: u16, key: Seq<char>) -> Option<int> {
    match first_named(servers, port, key, 0) {
        Some(i) => Some(i),
        None => first_on_port(servers, port, 0),
    }
}

/// For each server, its ports and its name.
pub struct VirtualHosts {
    servers: Vec<(Vec<u16>, String)>,
}

impl VirtualHosts {
    pub closed spec fn servers(&self) -> Seq<(Seq<u16>, Seq<char>)> {
        self.servers@.map_values(|e: (Vec<u16>, String)| (e.0@, e.1@))
    }

    /// The table for servers in configuration order.
    pub fn new(configs: &Vec<ServerConfig>) -> (r: VirtualHosts)
        ensures
            r.servers() == configs@.map_values(|c: ServerConfig| (c.ports@, c.server_name@)),
    {
        let mut servers: Vec<(Vec<u16>, String)> = Vec::new();
        let mut i: usize = 0;
        while i < configs.len()
            invariant
                i <= configs@.len(),
                servers@.map_values(|e: (Vec<u16>, String)| (e.0@, e.1@)) == configs@.subrange(0, i as int).map_values(
                    |c: ServerConfig| (c.ports@, c.server_name@),
                ),
            decreases configs@.len() - i,
        {
            let mut ports: Vec<u16> = Vec::new();
            ports.extend_from_slice(configs[i].ports.as_slice());
            assert(ports@ =~= configs@[i as int].ports@);
            let e = (ports, configs[i].server_name.clone());
            let ghost before = servers@.map_values(|e: (Vec<u16>, String)| (e.0@, e.1@));
            servers.push(e);
            assert(servers@.map_values(|e: (Vec<u16>, String)| (e.0@, e.1@)) =~= before.push((e.0@, e.1@)));
            assert(configs@.subrange(0, i + 1).map_values(|c: ServerConfig| (c.ports@, c.server_name@))
                =~= configs@.subrange(0, i as int).map_values(|c: ServerConfig| (c.ports@, c.server_name@)).push(
                (configs@[i as int].ports@, configs@[i as int].server_name@),
            ));
            i = i + 1;
        }
        assert(configs@.subrange(0, i as int) =~= configs@);
        VirtualHosts { servers }
    }

    fn has_port(&self, i: usize, port: u16) -> (r: bool)
        requires
            i < self.servers@.len(),
        ensures
            r == listens(self.servers(), i as int, port),
    {
        let ps = &self.servers[i].0;
        assert(self.servers()[i as int].0 == ps@);
        let mut k: usize = 0;
        while k < ps.len()
            invariant
                i < self.servers@.len(),
                ps@ == self.servers()[i as int].0,
                k <= ps@.len(),
                forall|j: int| 0 <= j < k ==> ps@[j] != port,
            decreases ps@.len() - k,
        {
            if ps[k] == port {
                assert(ps@[k as int] == port);
                assert(ps@.contains(port));
                assert(self.servers().len() == self.servers@.len());
                assert(listens(self.servers(), i as int, port));
                return true;
            }
            k = k + 1;
        }
        assert(!ps@.contains(port));
        false
    }

    /// The index of the server for a request that arrived on `port` with `host`.
    pub fn find_server(&self, port: u16, host: Option<&str>) -> (r: Option<usize>)
        ensures
            r matches Some(i) ==> Some(i as int) == pick_server(
                self.servers(),
                port,
                match host {
                    Some(h) => host_key(h@),
                    None => Seq::<char>::empty(),
                },
            ),
            r is None ==> pick_server(
                self.servers(),
                port,
                match host {
                    Some(h) => host_key(h@),
                    None => Seq::<char>::empty(),
                },
            ) is None,
    {
        let key = match host {
            Some(h) => normalize_host(h),
            None => String::new(),
        };
        let ghost ss = self.servers();
        let ghost want = match host {
            Some(h) => host_key(h@),
            None => Seq::<char>::empty(),
        };
        assert(key@ == want);
        let n = self.servers.len();
        let mut first: Option<usize> = None;
        let mut i: usize = 0;
        while i < n
            invariant
                n == self.servers@.len(),
                ss == self.servers(),
                key@ == want,
                want == match host {
                    Some(h) => host_key(h@),
                    None => Seq::<char>::empty(),
                },
                i <= n,
                first_named(ss, port, key@, 0) == first_named(ss, port, key@, i as int),
                match first {
                    Some(f) => f < i && first_on_port(ss, port, 0) == Some(f as int),
                    None => first_on_port(ss, port, 0) == first_on_port(ss, port, i as int),
                },
            decreases n - i,
        {
            let listening = self.has_port(i, port);
            if listening {
                if first.is_none() {
                    first = Some(i);
                }
                let name = to_lower(self.servers[i].1.as_str());
                assert(ss[i as int].1 == self.servers@[i as int].1@);
                if eq_str(name.as_str(), key.as_str()) {
                    assert(listens(ss, i as int, port) && lower(ss[i as int].1) == key@);
                    assert(first_named(ss, port, key@, i as int) == Some(i as int));
                    assert(pick_server(ss, port, want) == Some(i as int));
                    return Some(i);
                }
            }
            i = i + 1;
        }
        first
    }
}

} // verus!
