//! Services found on a host: reading the listings of `ss` and `lsof`, and the
//! catalog of services ordered by port.

use crate::text::{
    after_last, after_last_is_the_end, begins_with, behind_last, chars_of, decimal,
    decimal_properties, digit, find, find_char, find_seq, find_seq_properties, find_text,
    find_unique, has_prefix, lines, lines_end_at_newlines, parse_port, port_number, port_text,
    prefix_and_rest, same_text, split_lines, split_words, string_of, texts, words,
};
use vstd::prelude::*;
use vstd::slice::slice_subrange;
use vstd::utf8::{decode_utf8, valid_utf8};

verus! {

/// A service that listens on a port of a host.
#[derive(Debug, Clone, PartialEq, Eq)]
pub struct ServiceInfo {
    pub port: u16,
    pub cmd: String,
}

/// What a [`ServiceInfo`] stands for.
pub struct Service {
    pub port: u16,
    pub cmd: Seq<char>,
}

impl View for ServiceInfo {
    type V = Service;

    open spec fn view(&self) -> Service {
        Service { port: self.port, cmd: self.cmd@ }
    }
}

/// The services that a sequence of [`ServiceInfo`] stands for.
pub open spec fn services_view(v: Seq<ServiceInfo>) -> Seq<Service> {
    v.map_values(|s: ServiceInfo| s@)
}

/// The programs whose listing of TCP sockets can be read.
#[derive(Debug, Clone, Copy, PartialEq, Eq)]
pub enum Listing {
    /// `ss -tlnp --no-header`.
    Ss,
    /// `lsof -nP -iTCP -sTCP:LISTEN`, whose first line is a heading.
    Lsof,
}

/// The port part of a local address that stands for all interfaces.
pub open spec fn wildcard_port(addr: Seq<char>) -> Option<Seq<char>> {
    if has_prefix(addr, "*:"@) {
        Some(addr.skip("*:"@.len() as int))
    } else if has_prefix(addr, "0.0.0.0:"@) {
        Some(addr.skip("0.0.0.0:"@.len() as int))
    } else {
        None
    }
}

/// The first of some words that begins with `p`.
pub open spec fn first_with_prefix(parts: Seq<Seq<char>>, p: Seq<char>) -> Option<Seq<char>>
    decreases parts.len(),
{
    if parts.len() == 0 {
        None
    } else if has_prefix(parts[0], p) {
        Some(parts[0])
    } else {
        first_with_prefix(parts.skip(1), p)
    }
}

/// The name behind the first `("` of a `users:` word: up to the next `("`, and
/// there up to the first quotation mark.
pub open spec fn quoted_name(user: Seq<char>) -> Option<Seq<char>> {
    let k = find_seq(user, "(\""@);
    if k < user.len() {
        let rest = user.skip(k as int + "(\""@.len());
        let piece = rest.take(find_seq(rest, "(\""@) as int);
        Some(piece.take(find(piece, '"') as int))
    } else {
        None
    }
}

/// The command that the words of a line of `ss` name.
pub open spec fn ss_command(parts: Seq<Seq<char>>) -> Seq<char> {
    match first_with_prefix(parts, "users:"@) {
        Some(user) => match quoted_name(user) {
            Some(name) => name,
            None => "unknown"@,
        },
        None => "unknown"@,
    }
}

/// The service that a line of `ss` describes: its fourth word is a wildcard
/// address with a port.
pub open spec fn ss_service(line: Seq<char>) -> Option<Service> {
    let parts = words(line);
    if parts.len() < 4 {
        None
    } else {
        match wildcard_port(parts[3]) {
            Some(text) => match port_number(text) {
                Some(port) => Some(Service { port, cmd: ss_command(parts) }),
                None => None,
            },
            None => None,
        }
    }
}

/// The service that a line of `lsof` describes: its eighth word is `TCP` and
/// its ninth an address with a port behind the last colon.
pub open spec fn lsof_service(line: Seq<char>) -> Option<Service> {
    let parts = words(line);
    if parts.len() < 9 || parts[7] != "TCP"@ {
        None
    } else {
        match port_number(after_last(parts[8], ':')) {
            Some(port) => Some(Service { port, cmd: parts[0] }),
            None => None,
        }
    }
}

/// The service that a line of a listing describes.
pub open spec fn line_service(listing: Listing, line: Seq<char>) -> Option<Service> {
    match listing {
        Listing::Ss => ss_service(line),
        Listing::Lsof => lsof_service(line),
    }
}

/// The lines of a listing that describe sockets.
pub open spec fn socket_lines(listing: Listing, text: Seq<char>) -> Seq<Seq<char>> {
    let all = lines(text);
    match listing {
        Listing::Ss => all,
        Listing::Lsof => if all.len() > 0 {
            all.skip(1)
        } else {
            all
        },
    }
}

/// The services that some lines describe, in order.
pub open spec fn found(listing: Listing, rows: Seq<Seq<char>>) -> Seq<Service>
    decreases rows.len(),
{
    if rows.len() == 0 {
        seq![]
    } else {
        let before = found(listing, rows.drop_last());
        match line_service(listing, rows.last()) {
            Some(s) => before.push(s),
            None => before,
        }
    }
}

/// Whether the entry at `k` is the first with its port.
pub open spec fn first_of_port(all: Seq<Service>, k: int) -> bool {
    0 <= k < all.len() && forall|m: int| 0 <= m < k ==> #[trigger] all[m].port != all[k].port
}

/// Whether ports ascend, each once.
pub open spec fn ports_ascend(c: Seq<Service>) -> bool {
    forall|i: int, j: int| 0 <= i < j < c.len() ==> #[trigger] c[i].port < #[trigger] c[j].port
}

/// Whether some entry has the port `p`.
pub open spec fn has_port(c: Seq<Service>, p: u16) -> bool {
    exists|i: int| 0 <= i < c.len() && (#[trigger] c[i]).port == p
}

/// Whether `s` is the first entry of its port in `all`.
pub open spec fn leads_port(all: Seq<Service>, s: Service) -> bool {
    exists|k: int| first_of_port(all, k) && #[trigger] all[k] == s
}

/// Whether `c` is the catalog of `all`: ports ascend, each entry is the first of
/// its port in `all`, and each port of `all` has an entry.
pub open spec fn is_catalog(all: Seq<Service>, c: Seq<Service>) -> bool {
    &&& ports_ascend(c)
    &&& forall|i: int| 0 <= i < c.len() ==> #[trigger] leads_port(all, c[i])
    &&& forall|k: int| 0 <= k < all.len() ==> #[trigger] has_port(c, all[k].port)
}

/// The catalog has an entry for exactly the ports found.
pub proof fn catalog_has_ports_found(all: Seq<Service>, c: Seq<Service>, p: u16)
    requires
        is_catalog(all, c),
    ensures
        has_port(c, p) <==> has_port(all, p),
{
    if has_port(c, p) {
        let i = choose|i: int| 0 <= i < c.len() && (#[trigger] c[i]).port == p;
        assert(leads_port(all, c[i]));
    }
    if has_port(all, p) {
        let k = choose|k: int| 0 <= k < all.len() && (#[trigger] all[k]).port == p;
        assert(has_port(c, all[k].port));
    }
}

/// Two catalogs of the same services have the same entry for a port.
proof fn same_entry(all: Seq<Service>, a: Seq<Service>, b: Seq<Service>, i: int, j: int)
    requires
        is_catalog(all, a),
        is_catalog(all, b),
        0 <= i < a.len(),
        0 <= j < b.len(),
        a[i].port == b[j].port,
    ensures
        a[i] == b[j],
{
    assert(leads_port(all, a[i]) && leads_port(all, b[j]));
    let k = choose|k: int| first_of_port(all, k) && #[trigger] all[k] == a[i];
    let m = choose|m: int| first_of_port(all, m) && #[trigger] all[m] == b[j];
    if k < m {
        assert(all[k].port != all[m].port);
    } else if m < k {
        assert(all[m].port != all[k].port);
    }
}

/// What two catalogs of the same services begin with is the same.
proof fn same_beginning(all: Seq<Service>, a: Seq<Service>, b: Seq<Service>, n: int)
    requires
        is_catalog(all, a),
        is_catalog(all, b),
        0 <= n <= a.len(),
    ensures
        n <= b.len(),
        a.take(n) == b.take(n),
    decreases n,
{
    if n > 0 {
        let last = n - 1;
        same_beginning(all, a, b, last);
        assert forall|i: int| 0 <= i < last implies a[i] == b[i] by {
            assert(a.take(last)[i] == b.take(last)[i]);
        }
        catalog_has_ports_found(all, a, a[last].port);
        catalog_has_ports_found(all, b, a[last].port);
        let j = choose|j: int| 0 <= j < b.len() && (#[trigger] b[j]).port == a[last].port;
        same_entry(all, a, b, last, j);
        if j < last {
            assert(a[j].port < a[last].port);
        }
        if j > last {
            catalog_has_ports_found(all, a, b[last].port);
            catalog_has_ports_found(all, b, b[last].port);
            let i = choose|i: int| 0 <= i < a.len() && (#[trigger] a[i]).port == b[last].port;
            assert(b[last].port < b[j].port);
            if i < last {
                assert(b[i].port < b[last].port);
            } else if i > last {
                assert(a[last].port < a[i].port);
            }
        }
        assert(a.take(n) =~= b.take(n));
    } else {
        assert(a.take(n) =~= b.take(n));
    }
}

/// Services have one catalog only.
pub proof fn catalog_unique(all: Seq<Service>, a: Seq<Service>, b: Seq<Service>)
    requires
        is_catalog(all, a),
        is_catalog(all, b),
    ensures
        a == b,
{
    same_beginning(all, a, b, a.len() as int);
    same_beginning(all, b, a, b.len() as int);
    assert(a.take(a.len() as int) =~= a);
    assert(b.take(b.len() as int) =~= b);
}

/// A catalog is its own catalog: making it again changes nothing.
pub proof fn catalog_of_catalog(all: Seq<Service>, c: Seq<Service>)
    requires
        is_catalog(all, c),
    ensures
        is_catalog(c, c),
{
    assert forall|i: int| 0 <= i < c.len() implies #[trigger] leads_port(c, c[i]) by {
        assert forall|m: int| 0 <= m < i implies #[trigger] c[m].port != c[i].port by {
            assert(c[m].port < c[i].port);
        }
        assert(first_of_port(c, i));
    }
}

/// Whether `d` is `c` with `s` at its place, or `c` itself where the port of `s`
/// has an entry.
pub open spec fn added(c: Seq<Service>, s: Service, d: Seq<Service>) -> bool {
    if has_port(c, s.port) {
        d == c
    } else {
        ports_ascend(d) && exists|at: int|
            0 <= at <= c.len() && d == #[trigger] c.insert(at, s)
    }
}

/// Adding the next service found to the catalog of those before gives the
/// catalog of all of them.
proof fn catalog_grows(all: Seq<Service>, c: Seq<Service>, s: Service, d: Seq<Service>)
    requires
        is_catalog(all, c),
        added(c, s, d),
    ensures
        is_catalog(all.push(s), d),
{
    let more = all.push(s);
    let n = all.len() as int;
    assert forall|x: Service| leads_port(all, x) implies #[trigger] leads_port(more, x) by {
        let k = choose|k: int| first_of_port(all, k) && #[trigger] all[k] == x;
        assert(more[k] == x);
        assert forall|m: int| 0 <= m < k implies #[trigger] more[m].port != more[k].port by {
            assert(all[m].port != all[k].port);
        }
        assert(first_of_port(more, k));
    }
    if has_port(c, s.port) {
        assert forall|k: int| 0 <= k < more.len() implies #[trigger] has_port(d, more[k].port) by {
            if k < n {
                assert(has_port(c, all[k].port));
            }
        }
        assert forall|i: int| 0 <= i < d.len() implies #[trigger] leads_port(more, d[i]) by {
            assert(leads_port(all, c[i]));
        }
    } else {
        let at = choose|at: int| 0 <= at <= c.len() && d == #[trigger] c.insert(at, s);
        assert forall|m: int| 0 <= m < n implies #[trigger] more[m].port != more[n].port by {
            assert(has_port(c, all[m].port));
        }
        assert(first_of_port(more, n) && more[n] == s);
        assert forall|i: int| 0 <= i < d.len() implies #[trigger] leads_port(more, d[i]) by {
            if i < at {
                assert(leads_port(all, c[i]));
            } else if i > at {
                assert(leads_port(all, c[i - 1]));
            }
        }
        assert forall|k: int| 0 <= k < more.len() implies #[trigger] has_port(d, more[k].port) by {
            if k < n {
                assert(has_port(c, all[k].port));
                let i = choose|i: int| 0 <= i < c.len() && (#[trigger] c[i]).port == all[k].port;
                let j = if i < at { i } else { i + 1 };
                assert(d[j] == c[i]);
            } else {
                assert(d[at] == s);
            }
        }
    }
}

/// The text of some bytes, as `String::from_utf8_lossy` gives it.
pub uninterp spec fn lossy(bytes: Seq<u8>) -> Seq<char>;

/// Calls `String::from_utf8_lossy`. Claims that the text depends on the bytes
/// alone, and that bytes which are valid UTF-8 are decoded as they stand. What
/// replaces invalid bytes is left to the name.
#[verifier::external_body]
fn lossy_text(bytes: &[u8]) -> (r: String)
    ensures
        r@ == lossy(bytes@),
        valid_utf8(bytes@) ==> r@ == decode_utf8(bytes@),
{
    String::from_utf8_lossy(bytes).into_owned()
}

/// The port part of a local address that stands for all interfaces.
fn port_of_wildcard<'a>(addr: &'a [char]) -> (r: Option<&'a [char]>)
    ensures
        match r {
            Some(t) => wildcard_port(addr@) == Some(t@),
            None => wildcard_port(addr@) is None,
        },
{
    let star = chars_of("*:");
    if begins_with(addr, &star) {
        let t = slice_subrange(addr, star.len(), addr.len());
        assert(t@ =~= addr@.skip(star@.len() as int));
        return Some(t);
    }
    let any = chars_of("0.0.0.0:");
    if begins_with(addr, &any) {
        let t = slice_subrange(addr, any.len(), addr.len());
        assert(t@ =~= addr@.skip(any@.len() as int));
        return Some(t);
    }
    None
}

/// The command that the words of a line of `ss` name.
fn command_of_ss(parts: &Vec<&[char]>) -> (r: String)
    ensures
        r@ == ss_command(texts(parts@)),
{
    let tag = chars_of("users:");
    let ghost all = texts(parts@);
    let mut i: usize = 0;
    assert(all.skip(0) =~= all);
    while i < parts.len()
        invariant
            i <= parts@.len(),
            all == texts(parts@),
            tag@ == "users:"@,
            first_with_prefix(all, "users:"@) == first_with_prefix(all.skip(i as int), "users:"@),
        decreases parts@.len() - i,
    {
        let user = parts[i];
        assert(all.skip(i as int)[0] == user@);
        if begins_with(user, &tag) {
            assert(first_with_prefix(all, "users:"@) == Some(user@));
            return match name_in_quotes(user) {
                Some(name) => string_of(name),
                None => "unknown".to_string(),
            };
        }
        assert(all.skip(i as int).skip(1) =~= all.skip(i + 1));
        i += 1;
    }
    "unknown".to_string()
}

/// The name behind the first `("` of a `users:` word.
fn name_in_quotes<'a>(user: &'a [char]) -> (r: Option<&'a [char]>)
    ensures
        match r {
            Some(t) => quoted_name(user@) == Some(t@),
            None => quoted_name(user@) is None,
        },
{
    let open = chars_of("(\"");
    let k = find_text(user, &open);
    if k == user.len() {
        return None;
    }
    proof {
        find_seq_hit(user@, open@);
    }
    let rest = slice_subrange(user, k + open.len(), user.len());
    assert(rest@ =~= user@.skip(k as int + open@.len()));
    let piece = slice_subrange(rest, 0, find_text(rest, &open));
    assert(piece@ =~= rest@.take(find_seq(rest@, open@) as int));
    let name = slice_subrange(piece, 0, find_char(piece, '"'));
    assert(name@ =~= piece@.take(find(piece@, '"') as int));
    Some(name)
}

/// Where `find_seq` finds an occurrence, all of it lies in the text.
proof fn find_seq_hit(s: Seq<char>, p: Seq<char>)
    ensures
        find_seq(s, p) < s.len() ==> find_seq(s, p) + p.len() <= s.len(),
    decreases s.len(),
{
    if s.len() > 0 && !has_prefix(s, p) {
        find_seq_hit(s.skip(1), p);
    }
}

/// The service that a line of `ss` describes.
pub fn parse_ss_line(line: &[char]) -> (r: Option<ServiceInfo>)
    ensures
        match r {
            Some(s) => ss_service(line@) == Some(s@),
            None => ss_service(line@) is None,
        },
{
    let parts = split_words(line);
    if parts.len() < 4 {
        return None;
    }
    let ghost all = texts(parts@);
    assert(all[3] == parts@[3]@);
    match port_of_wildcard(parts[3]) {
        Some(text) => match parse_port(text) {
            Some(port) => Some(ServiceInfo { port, cmd: command_of_ss(&parts) }),
            None => None,
        },
        None => None,
    }
}

/// The service that a line of `lsof` describes.
pub fn parse_lsof_line(line: &[char]) -> (r: Option<ServiceInfo>)
    ensures
        match r {
            Some(s) => lsof_service(line@) == Some(s@),
            None => lsof_service(line@) is None,
        },
{
    let parts = split_words(line);
    if parts.len() < 9 {
        return None;
    }
    let ghost all = texts(parts@);
    assert(all[0] == parts@[0]@ && all[7] == parts@[7]@ && all[8] == parts@[8]@);
    let tcp = chars_of("TCP");
    if !same_text(parts[7], &tcp) {
        return None;
    }
    match parse_port(behind_last(parts[8], ':')) {
        Some(port) => Some(ServiceInfo { port, cmd: string_of(parts[0]) }),
        None => None,
    }
}

/// Adds a service to a catalog, unless its port has an entry already.
pub fn add_service(catalog: &mut Vec<ServiceInfo>, s: ServiceInfo)
    requires
        ports_ascend(services_view(old(catalog)@)),
    ensures
        added(services_view(old(catalog)@), s@, services_view(final(catalog)@)),
{
    let ghost before = services_view(catalog@);
    let mut at: usize = 0;
    while at < catalog.len() && catalog[at].port < s.port
        invariant
            at <= catalog@.len(),
            before == services_view(catalog@),
            forall|i: int| 0 <= i < at ==> (#[trigger] before[i]).port < s.port,
        decreases catalog@.len() - at,
    {
        assert(before[at as int].port == catalog@[at as int].port);
        at += 1;
    }
    if at < catalog.len() && catalog[at].port == s.port {
        assert(before[at as int].port == s.port);
        return ;
    }
    let ghost v = s@;
    catalog.insert(at, s);
    proof {
        let now = services_view(catalog@);
        assert(now =~= before.insert(at as int, v));
        assert(at < before.len() ==> before[at as int].port > v.port);
        assert forall|i: int| at <= i < before.len() implies (#[trigger] before[i]).port > v.port by {
            if i > at {
                assert(before[at as int].port < before[i].port);
            }
        }
        assert(!has_port(before, v.port));
        assert forall|i: int, j: int| 0 <= i < j < now.len() implies #[trigger] now[i].port
            < #[trigger] now[j].port by {
            let a = if i < at { i } else { i - 1 };
            let b = if j < at { j } else { j - 1 };
            if i != at {
                assert(now[i] == before[a]);
            }
            if j != at {
                assert(now[j] == before[b]);
            }
        }
    }
}

/// The catalog of the services that the text of a listing describes.
pub fn parse_listing(listing: Listing, text: &str) -> (r: Vec<ServiceInfo>)
    ensures
        is_catalog(found(listing, socket_lines(listing, text@)), services_view(r@)),
{
    let chars = chars_of(text);
    let rows = split_lines(&chars);
    let mut first: usize = 0;
    if let Listing::Lsof = listing {
        if rows.len() > 0 {
            first = 1;
        }
    }
    let ghost all = texts(rows@);
    let ghost used = socket_lines(listing, text@);
    assert(used =~= all.skip(first as int));
    let mut catalog: Vec<ServiceInfo> = Vec::new();
    assert(found(listing, used.take(0)) =~= seq![]);
    for i in first..rows.len()
        invariant
            first <= rows@.len(),
            all == texts(rows@),
            used == all.skip(first as int),
            is_catalog(found(listing, used.take(i - first)), services_view(catalog@)),
    {
        let ghost n = i - first;
        assert(used.take(n + 1).drop_last() =~= used.take(n));
        assert(used.take(n + 1).last() == rows@[i as int]@);
        let parsed = match listing {
            Listing::Ss => parse_ss_line(rows[i]),
            Listing::Lsof => parse_lsof_line(rows[i]),
        };
        if let Some(s) = parsed {
            let ghost before = services_view(catalog@);
            let ghost v = s@;
            add_service(&mut catalog, s);
            proof {
                catalog_grows(found(listing, used.take(n)), before, v, services_view(catalog@));
            }
        }
    }
    assert(used.take(used.len() as int) =~= used);
    catalog
}

/// The catalog of the services that the output of a listing program describes;
/// none where the program did not succeed.
pub fn discover_ports(listing: Listing, success: bool, stdout: &[u8]) -> (r: Vec<ServiceInfo>)
    ensures
        !success ==> r@.len() == 0,
        success ==> is_catalog(
            found(listing, socket_lines(listing, lossy(stdout@))),
            services_view(r@),
        ),
        success && valid_utf8(stdout@) ==> is_catalog(
            found(listing, socket_lines(listing, decode_utf8(stdout@))),
            services_view(r@),
        ),
{
    if !success {
        return Vec::new();
    }
    let text = lossy_text(stdout);
    parse_listing(listing, text.as_str())
}

/// Each service of a list is that of the entry at the same place, with its port and
/// its command.
pub proof fn services_entry_by_entry(v: Seq<ServiceInfo>, i: int)
    ensures
        services_view(v).len() == v.len(),
        0 <= i < v.len() ==> services_view(v)[i].port == v[i].port && services_view(v)[i].cmd
            == v[i].cmd@,
{
}

/// A port has an entry exactly when some entry has that port.
pub proof fn entry_of_port(c: Seq<Service>, p: u16)
    ensures
        has_port(c, p) <==> c.map_values(|s: Service| s.port).contains(p),
{
    let ports = c.map_values(|s: Service| s.port);
    if has_port(c, p) {
        let i = choose|i: int| 0 <= i < c.len() && (#[trigger] c[i]).port == p;
        assert(ports[i] == p);
    }
    if ports.contains(p) {
        let i = choose|i: int| 0 <= i < ports.len() && ports[i] == p;
        assert(c[i].port == p);
    }
}

/// The port part of an address that stands for all interfaces is what follows the
/// colon of `*:` or `0.0.0.0:`, and no other address has one.
pub proof fn wildcard_parts(addr: Seq<char>, t: Seq<char>)
    ensures
        wildcard_port("*:"@ + t) == Some(t),
        wildcard_port("0.0.0.0:"@ + t) == Some(t),
        wildcard_port(addr) matches Some(u) ==> addr == "*:"@ + u || addr == "0.0.0.0:"@ + u,
        wildcard_port(addr) is None ==> addr != "*:"@ + t && addr != "0.0.0.0:"@ + t,
{
    reveal_strlit("*:");
    reveal_strlit("0.0.0.0:");
    let star = "*:"@;
    let any = "0.0.0.0:"@;
    prefix_and_rest(addr, star, t);
    prefix_and_rest(addr, any, t);
    assert((star + t).skip(star.len() as int) =~= t);
    assert((any + t).skip(any.len() as int) =~= t);
    assert((any + t).take(2)[0] == '0');
    assert(star[0] == '*');
}

/// A line of `ss` whose fourth word is a wildcard address with a port in decimal
/// describes a service on that port, whichever it is.
pub proof fn wildcard_line_describes_its_port(line: &[char], r: Option<ServiceInfo>, port: u16)
    requires
        call_ensures(parse_ss_line, (line,), r),
        words(line@).len() >= 4,
        words(line@)[3] == "*:"@ + decimal(port as nat) || words(line@)[3] == "0.0.0.0:"@ + decimal(
            port as nat,
        ),
    ensures
        r matches Some(s) && s.port == port,
{
    wildcard_parts(words(line@)[3], decimal(port as nat));
    port_text(decimal(port as nat), decimal(port as nat), port);
}

/// A service that a line of `ss` describes listens on the port that follows a
/// wildcard address in the fourth word.
pub proof fn described_port_is_in_the_line(line: &[char], r: Option<ServiceInfo>)
    requires
        call_ensures(parse_ss_line, (line,), r),
    ensures
        r is Some <==> words(line@).len() >= 4 && exists|t: Seq<char>| #[trigger]
            port_number(t) is Some && (words(line@)[3] == "*:"@ + t || words(line@)[3]
                == "0.0.0.0:"@ + t),
        r is Some ==> exists|t: Seq<char>| #[trigger]
            port_number(t) == Some(r->0.port) && (words(line@)[3] == "*:"@ + t || words(line@)[3]
                == "0.0.0.0:"@ + t),
{
    let addr = words(line@)[3];
    if r is Some {
        let t = wildcard_port(addr)->0;
        wildcard_parts(addr, t);
        assert(port_number(t) == Some(r->0.port));
    }
    if words(line@).len() >= 4 && exists|t: Seq<char>| #[trigger]
        port_number(t) is Some && (addr == "*:"@ + t || addr == "0.0.0.0:"@ + t) {
        let t = choose|t: Seq<char>| #[trigger]
            port_number(t) is Some && (addr == "*:"@ + t || addr == "0.0.0.0:"@ + t);
        wildcard_parts(addr, t);
    }
}

/// The first word that begins so is found, if there is one.
proof fn first_with_prefix_found(parts: Seq<Seq<char>>, p: Seq<char>, i: int)
    requires
        0 <= i <= parts.len(),
        forall|j: int| 0 <= j < i ==> !has_prefix(#[trigger] parts[j], p),
        i < parts.len() ==> has_prefix(parts[i], p),
    ensures
        first_with_prefix(parts, p) == (if i < parts.len() {
            Some(parts[i])
        } else {
            None
        }),
    decreases i,
{
    if i > 0 {
        assert(!has_prefix(parts[0], p));
        let rest = parts.skip(1);
        assert forall|j: int| 0 <= j < i - 1 implies !has_prefix(#[trigger] rest[j], p) by {
            assert(rest[j] == parts[j + 1]);
        }
        first_with_prefix_found(rest, p, i - 1);
    }
}

/// Where `("` stands, a bracket and a quotation mark stand.
proof fn opening_at(s: Seq<char>, k: int)
    requires
        0 <= k <= s.len(),
    ensures
        has_prefix(s.skip(k), "(\""@) <==> k + 2 <= s.len() && s[k] == '(' && s[k + 1] == '"',
{
    reveal_strlit("(\"");
    let t = s.skip(k);
    if k + 2 <= s.len() && s[k] == '(' && s[k + 1] == '"' {
        assert(t.take(2) =~= "(\""@);
    }
    if has_prefix(t, "(\""@) {
        assert(t.take(2)[0] == '(' && t.take(2)[1] == '"');
    }
}

/// The name is what stands between `("` and the next quotation mark, or the end of
/// the word. A name that ends in an opening bracket is left out: with the mark
/// behind it, it opens another one.
proof fn name_between_quotes(pre: Seq<char>, name: Seq<char>, rest: Seq<char>)
    requires
        forall|i: int| 0 <= i < pre.len() ==> pre[i] != '"',
        forall|i: int| 0 <= i < name.len() ==> name[i] != '"',
        name.len() > 0 ==> name.last() != '(',
        rest.len() > 0 ==> rest[0] == '"',
    ensures
        quoted_name(pre + "(\""@ + name + rest) == Some(name),
{
    reveal_strlit("(\"");
    let open = "(\""@;
    let user = pre + open + name + rest;
    let n = pre.len() as int;
    find_seq_properties(user, open);
    let f = find_seq(user, open) as int;
    opening_at(user, n);
    assert(has_prefix(user.skip(n), open));
    assert(f <= n);
    opening_at(user, f);
    if f < n {
        assert(user[f + 1] == '"');
        if f + 1 < n {
            assert(user[f + 1] == pre[f + 1]);
        }
    }
    let tail = user.skip(f + 2);
    assert(tail =~= name + rest);
    let m = name.len() as int;
    find_seq_properties(tail, open);
    let g = find_seq(tail, open) as int;
    if g < tail.len() {
        opening_at(tail, g);
        if g + 1 < m {
            assert(tail[g + 1] == name[g + 1]);
        } else if g + 1 == m {
            assert(tail[g] == name[g]);
        } else if g == m {
            assert(tail[g] == rest[0]);
        }
        assert(g > m);
    }
    let piece = tail.take(g);
    assert forall|i: int| 0 <= i < m implies piece[i] != '"' by {
        assert(piece[i] == name[i]);
    }
    if m < piece.len() {
        assert(piece[m] == rest[0]);
    }
    find_unique(piece, '"', m);
    assert(piece.take(m) =~= name);
}

/// The command of a line of `ss` is the name between `("` and the next quotation
/// mark in its first word that begins with `users:`.
pub proof fn command_stands_in_quotes(
    line: &[char],
    r: Option<ServiceInfo>,
    i: int,
    pre: Seq<char>,
    name: Seq<char>,
    rest: Seq<char>,
)
    requires
        call_ensures(parse_ss_line, (line,), r),
        0 <= i < words(line@).len(),
        forall|j: int| 0 <= j < i ==> !has_prefix(#[trigger] words(line@)[j], "users:"@),
        has_prefix(words(line@)[i], "users:"@),
        words(line@)[i] == pre + "(\""@ + name + rest,
        forall|k: int| 0 <= k < pre.len() ==> pre[k] != '"',
        forall|k: int| 0 <= k < name.len() ==> name[k] != '"',
        name.len() > 0 ==> name.last() != '(',
        rest.len() > 0 ==> rest[0] == '"',
    ensures
        r matches Some(s) ==> s.cmd@ == name,
{
    first_with_prefix_found(words(line@), "users:"@, i);
    name_between_quotes(pre, name, rest);
}

/// A line of `ss` without such a name is of an unknown command.
pub proof fn command_is_unknown(line: &[char], r: Option<ServiceInfo>, i: int)
    requires
        call_ensures(parse_ss_line, (line,), r),
        0 <= i <= words(line@).len(),
        forall|j: int| 0 <= j < i ==> !has_prefix(#[trigger] words(line@)[j], "users:"@),
        i < words(line@).len() ==> has_prefix(words(line@)[i], "users:"@) && forall|k: int|
            0 <= k < words(line@)[i].len() - 1 ==> words(line@)[i][k] != '(' || #[trigger] words(
                line@,
            )[i][k + 1] != '"',
    ensures
        r matches Some(s) ==> s.cmd@ == "unknown"@,
{
    first_with_prefix_found(words(line@), "users:"@, i);
    if i < words(line@).len() {
        let user = words(line@)[i];
        find_seq_properties(user, "(\""@);
        let f = find_seq(user, "(\""@) as int;
        if f < user.len() {
            opening_at(user, f);
            assert(words(line@)[i][f + 1] == '"');
        }
    }
}

/// A line of `lsof` whose eighth word is `TCP` and whose ninth ends in a colon and a
/// port in decimal describes the service on that port with its first word as the
/// command, whichever address stands before the colon.
pub proof fn tcp_line_describes_its_port(
    line: &[char],
    r: Option<ServiceInfo>,
    host: Seq<char>,
    port: u16,
)
    requires
        call_ensures(parse_lsof_line, (line,), r),
        words(line@).len() >= 9,
        words(line@)[7] == "TCP"@,
        words(line@)[8] == host + seq![':'] + decimal(port as nat),
    ensures
        r matches Some(s) && s.port == port && s.cmd@ == words(line@)[0],
{
    let end = decimal(port as nat);
    decimal_properties(port as nat);
    assert forall|i: int| 0 <= i < end.len() implies end[i] != ':' by {
        assert(digit(end[i]));
    }
    after_last_is_the_end(host, ':', end);
    port_text(end, end, port);
}

/// A line of `lsof` describes a service exactly when its eighth word is `TCP` and
/// what follows the last colon of its ninth denotes a port, which is that of the
/// service.
pub proof fn described_tcp_port_is_in_the_line(line: &[char], r: Option<ServiceInfo>)
    requires
        call_ensures(parse_lsof_line, (line,), r),
    ensures
        r is Some <==> words(line@).len() >= 9 && words(line@)[7] == "TCP"@ && port_number(
            after_last(words(line@)[8], ':'),
        ) is Some,
        r is Some ==> port_number(after_last(words(line@)[8], ':')) == Some(r->0.port)
            && r->0.cmd@ == words(line@)[0],
{
}

/// What a line describes is what the function for its listing gives.
pub proof fn line_is_read_by_its_listing(
    line: &[char],
    ss: Option<ServiceInfo>,
    lsof: Option<ServiceInfo>,
)
    requires
        call_ensures(parse_ss_line, (line,), ss),
        call_ensures(parse_lsof_line, (line,), lsof),
    ensures
        ss is Some <==> line_service(Listing::Ss, line@) is Some,
        ss is Some ==> line_service(Listing::Ss, line@)->0 == ss->0@,
        lsof is Some <==> line_service(Listing::Lsof, line@) is Some,
        lsof is Some ==> line_service(Listing::Lsof, line@)->0 == lsof->0@,
{
}

/// All lines of `ss` describe sockets, and those of `lsof` behind the first.
pub proof fn heading_is_left_out(heading: Seq<char>, rest: Seq<char>)
    requires
        forall|i: int| 0 <= i < heading.len() ==> heading[i] != '\n',
    ensures
        socket_lines(Listing::Ss, rest) == lines(rest),
        socket_lines(Listing::Lsof, heading + seq!['\n'] + rest) == lines(rest),
        socket_lines(Listing::Lsof, heading).len() == 0,
{
    let text = heading + seq!['\n'] + rest;
    let n = heading.len() as int;
    find_unique(text, '\n', n);
    assert(text.skip(n + 1) =~= rest);
    assert(lines(text).skip(1) =~= lines(rest));
    lines_end_at_newlines(heading, rest);
}

/// What lines describe is what each describes, one behind the other.
proof fn found_in_parts(listing: Listing, a: Seq<Seq<char>>, b: Seq<Seq<char>>)
    ensures
        found(listing, a + b) == found(listing, a) + found(listing, b),
    decreases b.len(),
{
    if b.len() == 0 {
        assert(a + b =~= a);
        assert(found(listing, a) + found(listing, b) =~= found(listing, a));
    } else {
        found_in_parts(listing, a, b.drop_last());
        assert((a + b).drop_last() =~= a + b.drop_last());
        assert((a + b).last() == b.last());
        assert(found(listing, a + b) =~= found(listing, a) + found(listing, b));
    }
}

/// What is found comes from a line.
proof fn found_comes_from_a_line(listing: Listing, rows: Seq<Seq<char>>, k: int) -> (i: int)
    requires
        0 <= k < found(listing, rows).len(),
    ensures
        0 <= i < rows.len(),
        line_service(listing, rows[i]) == Some(found(listing, rows)[k]),
    decreases rows.len(),
{
    let before = rows.drop_last();
    let n = found(listing, before).len();
    if k < n {
        let i = found_comes_from_a_line(listing, before, k);
        assert(rows[i] == before[i]);
        i
    } else {
        rows.len() - 1
    }
}

/// The first line that describes a service on a port leads that port.
proof fn line_leads_its_port(listing: Listing, rows: Seq<Seq<char>>, i: int)
    requires
        0 <= i < rows.len(),
        line_service(listing, rows[i]) is Some,
    ensures
        has_port(found(listing, rows), line_service(listing, rows[i])->0.port),
        (forall|j: int|
            0 <= j < i ==> (line_service(listing, #[trigger] rows[j]) matches Some(s) ==> s.port
                != line_service(listing, rows[i])->0.port)) ==> leads_port(
            found(listing, rows),
            line_service(listing, rows[i])->0,
        ),
{
    let s = line_service(listing, rows[i])->0;
    let a = rows.take(i);
    let b = rows.skip(i + 1);
    let all = found(listing, rows);
    assert(rows =~= a + seq![rows[i]] + b);
    found_in_parts(listing, a + seq![rows[i]], b);
    found_in_parts(listing, a, seq![rows[i]]);
    let k = found(listing, a).len() as int;
    assert(seq![rows[i]].drop_last() =~= seq![]);
    assert(found(listing, seq![]) =~= seq![]);
    assert(found(listing, seq![rows[i]]) =~= seq![s]);
    assert(all[k] == s);
    if forall|j: int|
        0 <= j < i ==> (line_service(listing, #[trigger] rows[j]) matches Some(t) ==> t.port
            != s.port) {
        assert forall|m: int| 0 <= m < k implies #[trigger] all[m].port != all[k].port by {
            assert(all[m] == found(listing, a)[m]);
            let j = found_comes_from_a_line(listing, a, m);
            assert(a[j] == rows[j]);
        }
        assert(first_of_port(all, k));
    }
}

/// The catalog of a listing has ascending ports, each once; each line that describes
/// a service has an entry with its port, and the first such line of a port is what
/// the entry says; each entry comes from a line.
pub proof fn catalog_of_a_listing(
    listing: Listing,
    text: &str,
    r: Vec<ServiceInfo>,
    i: int,
    j: int,
    k: int,
)
    requires
        call_ensures(parse_listing, (listing, text), r),
    ensures
        0 <= j < k < r@.len() ==> r@[j].port < r@[k].port,
        ({
            let rows = socket_lines(listing, text@);
            0 <= i < rows.len() && line_service(listing, rows[i]) is Some ==> exists|m: int|
                0 <= m < r@.len() && (#[trigger] r@[m]).port == line_service(
                    listing,
                    rows[i],
                )->0.port
        }),
        ({
            let rows = socket_lines(listing, text@);
            0 <= j < r@.len() ==> exists|m: int|
                0 <= m < rows.len() && line_service(listing, #[trigger] rows[m]) == Some(r@[j]@)
        }),
        ({
            let rows = socket_lines(listing, text@);
            &&& 0 <= j < r@.len()
            &&& 0 <= i < rows.len()
            &&& line_service(listing, rows[i]) matches Some(s) && s.port == r@[j].port
            &&& forall|m: int|
                0 <= m < i ==> (line_service(listing, #[trigger] rows[m]) matches Some(s) ==> s.port
                    != r@[j].port)
        }) ==> line_service(listing, socket_lines(listing, text@)[i]) == Some(r@[j]@),
{
    let rows = socket_lines(listing, text@);
    let all = found(listing, rows);
    let c = services_view(r@);
    if 0 <= j < k < r@.len() {
        assert(c[j].port < c[k].port);
    }
    if 0 <= i < rows.len() && line_service(listing, rows[i]) is Some {
        let s = line_service(listing, rows[i])->0;
        line_leads_its_port(listing, rows, i);
        catalog_has_ports_found(all, c, s.port);
        let m = choose|m: int| 0 <= m < c.len() && (#[trigger] c[m]).port == s.port;
        assert(r@[m].port == s.port);
    }
    if 0 <= j < r@.len() {
        assert(leads_port(all, c[j]));
        let n = choose|n: int| first_of_port(all, n) && #[trigger] all[n] == c[j];
        let m = found_comes_from_a_line(listing, rows, n);
        assert(line_service(listing, rows[m]) == Some(r@[j]@));
        if 0 <= i < rows.len() && leads_port(all, line_service(listing, rows[i])->0) {
            let s = line_service(listing, rows[i])->0;
            if s.port == r@[j].port {
                let q = choose|q: int| first_of_port(all, q) && #[trigger] all[q] == s;
                if q < n {
                    assert(all[q].port != all[n].port);
                } else if n < q {
                    assert(all[n].port != all[q].port);
                }
            }
        }
    }
}

/// Each line of `ss` on a wildcard address with a port in decimal has an entry with
/// that port in the catalog.
pub proof fn wildcard_port_is_in_the_catalog(
    text: &str,
    r: Vec<ServiceInfo>,
    i: int,
    port: u16,
)
    requires
        call_ensures(parse_listing, (Listing::Ss, text), r),
        0 <= i < lines(text@).len(),
        words(lines(text@)[i]).len() >= 4,
        words(lines(text@)[i])[3] == "*:"@ + decimal(port as nat) || words(lines(text@)[i])[3]
            == "0.0.0.0:"@ + decimal(port as nat),
    ensures
        exists|m: int| 0 <= m < r@.len() && (#[trigger] r@[m]).port == port,
{
    wildcard_parts(words(lines(text@)[i])[3], decimal(port as nat));
    port_text(decimal(port as nat), decimal(port as nat), port);
    catalog_of_a_listing(Listing::Ss, text, r, i, 0, 0);
}

/// What a program printed is read as the text that its bytes encode; a program that
/// did not succeed gives nothing.
pub proof fn output_is_read_as_text(
    listing: Listing,
    success: bool,
    stdout: &[u8],
    r: Vec<ServiceInfo>,
    text: &str,
    q: Vec<ServiceInfo>,
)
    requires
        call_ensures(discover_ports, (listing, success, stdout), r),
        call_ensures(parse_listing, (listing, text), q),
    ensures
        !success ==> r@.len() == 0,
        success && text@ == lossy(stdout@) ==> services_view(r@) == services_view(q@),
        success && valid_utf8(stdout@) && text@ == decode_utf8(stdout@) ==> services_view(r@)
            == services_view(q@),
{
    let all = found(listing, socket_lines(listing, text@));
    if success && (text@ == lossy(stdout@) || (valid_utf8(stdout@) && text@ == decode_utf8(
        stdout@,
    ))) {
        catalog_unique(all, services_view(r@), services_view(q@));
    }
}

/// A service is added to a catalog at its place, unless its port has an entry; the
/// entries that were there stay.
pub proof fn service_is_added_once(catalog: &mut Vec<ServiceInfo>, s: ServiceInfo)
    requires
        ports_ascend(services_view(old(catalog)@)),
        call_ensures(add_service, (catalog, s), ()),
    ensures
        ({
            let before = services_view(old(catalog)@);
            let after = services_view(final(catalog)@);
            if exists|i: int| 0 <= i < before.len() && (#[trigger] before[i]).port == s.port {
                after == before
            } else {
                &&& after.len() == before.len() + 1
                &&& exists|at: int|
                    0 <= at < after.len() && #[trigger] after[at] == s@ && after.take(at)
                        + after.skip(at + 1) == before
                &&& forall|i: int, j: int|
                    0 <= i < j < after.len() ==> #[trigger] after[i].port < #[trigger] after[j].port
            }
        }),
{
    let before = services_view(old(catalog)@);
    let after = services_view(final(catalog)@);
    if !has_port(before, s.port) {
        let at = choose|at: int| 0 <= at <= before.len() && after == #[trigger] before.insert(
            at,
            s@,
        );
        assert(after[at] == s@);
        assert(after.take(at) + after.skip(at + 1) =~= before);
    }
}

} // verus!
