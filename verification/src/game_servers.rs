//! The registry of game servers. Game servers register once with a token
//! given by an administrator, then keep telling the business server that
//! they are online; they are offered to the clients as long as they do.
//!
//! Instants are counted in nanoseconds from an origin chosen by the
//! service, durations in nanoseconds.
use crate::error::Error;
use crate::text::{is_ascii_digit, parse_u16, spec_parse_unsigned};
use vstd::prelude::*;

verus! {

/// What a game server declared about itself in its last notification.
pub struct ServerDeclaredInfo {
    pub host: String,
    pub version: u64,
    pub protocol_version: u64,
}

/// A game server known to be online.
pub struct OnlineServerInfo {
    pub id: String,
    pub host: String,
    pub version: u64,
    pub protocol_version: u64,
    /// The instant after which the server is considered offline, unless
    /// it notifies again.
    pub removal_date: u128,
}

impl OnlineServerInfo {
    /// A copy of this record.
    pub fn duplicate(&self) -> (r: OnlineServerInfo)
        ensures
            r == *self,
    {
        OnlineServerInfo {
            id: self.id.clone(),
            host: self.host.clone(),
            version: self.version,
            protocol_version: self.protocol_version,
            removal_date: self.removal_date,
        }
    }
}

/// The hosts of the servers in `servers` that speak `protocol_version`,
/// in the order of `servers`.
pub open spec fn hosts_for(servers: Seq<OnlineServerInfo>, protocol_version: u64) -> Seq<Seq<char>>
    decreases servers.len(),
{
    if servers.len() == 0 {
        Seq::empty()
    } else {
        let rest = hosts_for(servers.drop_last(), protocol_version);
        if servers.last().protocol_version == protocol_version {
            rest.push(servers.last().host@)
        } else {
            rest
        }
    }
}

/// The servers of `servers` whose removal date is after `now`, in the
/// order of `servers`.
pub open spec fn still_online(servers: Seq<OnlineServerInfo>, now: u128) -> Seq<OnlineServerInfo>
    decreases servers.len(),
{
    if servers.len() == 0 {
        Seq::empty()
    } else {
        let rest = still_online(servers.drop_last(), now);
        if servers.last().removal_date > now {
            rest.push(servers.last())
        } else {
            rest
        }
    }
}

/// No two servers of `servers` have the same identifier.
pub open spec fn distinct_ids(servers: Seq<OnlineServerInfo>) -> bool {
    forall|i: int, j: int|
        0 <= i < servers.len() && 0 <= j < servers.len() && i != j ==> servers[i].id@
            != servers[j].id@
}

/// Whether some server of `servers` has the identifier `id`.
pub open spec fn has_id(servers: Seq<OnlineServerInfo>, id: Seq<char>) -> bool {
    exists|k: int| 0 <= k < servers.len() && servers[k].id@ == id
}

/// The position of the first server of `servers` whose identifier is `id`.
pub open spec fn id_index(servers: Seq<OnlineServerInfo>, id: Seq<char>) -> int {
    choose|k: int| 0 <= k < servers.len() && servers[k].id@ == id
}

/// The online servers after a notification from the server `id`: its
/// record is refreshed in place if it is already online, otherwise a new
/// record is appended.
pub open spec fn after_hello(
    servers: Seq<OnlineServerInfo>,
    id: String,
    host: String,
    version: u64,
    protocol_version: u64,
    removal_date: u128,
) -> Seq<OnlineServerInfo> {
    if has_id(servers, id@) {
        let k = id_index(servers, id@);
        servers.update(
            k,
            OnlineServerInfo { id: servers[k].id, host, version, protocol_version, removal_date },
        )
    } else {
        servers.push(OnlineServerInfo { id, host, version, protocol_version, removal_date })
    }
}

/// Whether a character may stand in the identifier of a game server.
pub open spec fn is_server_id_char(c: char) -> bool {
    ||| ('a' <= c && c <= 'z')
    ||| ('A' <= c && c <= 'Z')
    ||| ('0' <= c && c <= '9')
    ||| c == '_'
    ||| c == '-'
}

/// Whether `id` may identify a game server: ASCII letters and digits,
/// underscores and dashes only.
pub open spec fn is_valid_server_id(id: Seq<char>) -> bool {
    forall|i: int| 0 <= i < id.len() ==> #[trigger] is_server_id_char(id[i])
}

/// The position of the last colon in `s`, if any.
pub open spec fn last_colon(s: Seq<char>) -> Option<int> {
    if exists|i: int| 0 <= i < s.len() && s[i] == ':' {
        Some(choose|i: int| 0 <= i < s.len() && s[i] == ':' && forall|j: int| i < j < s.len() ==> s[j] != ':')
    } else {
        None
    }
}

/// The host part of a declared address `host:port`, when the address has
/// a colon and what follows the last colon is a port number.
pub open spec fn spec_host_part(address: Seq<char>) -> Option<Seq<char>> {
    match last_colon(address) {
        Some(i) => if spec_parse_unsigned(address.skip(i + 1), 0xffff) is Some {
            Some(address.take(i))
        } else {
            None
        },
        None => None,
    }
}

/// Whether a host part is acceptable: an IP address, or a name of at most
/// 255 bytes.
pub open spec fn acceptable_host_part(host_part: &str, is_ip_address: bool) -> bool {
    is_ip_address || host_part.len() <= 255
}

/// The whole number of seconds that a game server waits before its next
/// notification, when the registry forgets it after `removal_delay_seconds`
/// seconds: half the delay.
pub open spec fn spec_callback_delay_seconds(removal_delay_seconds: u64) -> int {
    (removal_delay_seconds / 2) as int
}

/// A delay given in seconds, in nanoseconds.
pub open spec fn seconds_to_nanos(seconds: u64) -> int {
    seconds * 1_000_000_000
}

/// The state of the registry of online game servers.
pub struct Internals {
    m_date_of_last_clean_up: u128,
    m_online_servers: Vec<OnlineServerInfo>,
}

impl Internals {
    #[verifier::type_invariant]
    spec fn well_formed(self) -> bool {
        distinct_ids(self.m_online_servers@)
    }

    /// The online servers, in the order of their first notification.
    pub closed spec fn servers(&self) -> Seq<OnlineServerInfo> {
        self.m_online_servers@
    }

    /// The instant of the last removal of offline servers.
    pub closed spec fn last_clean_up(&self) -> u128 {
        self.m_date_of_last_clean_up
    }

    /// An empty registry, whose last clean up is `now`.
    pub fn new(now: u128) -> (r: Internals)
        ensures
            r.servers() == Seq::<OnlineServerInfo>::empty(),
            r.last_clean_up() == now,
    {
        Internals { m_date_of_last_clean_up: now, m_online_servers: Vec::new() }
    }

    /// The instant of the last removal of offline servers.
    pub fn date_of_last_clean_up(&self) -> (r: u128)
        ensures
            r == self.last_clean_up(),
    {
        self.m_date_of_last_clean_up
    }

    /// The number of online servers.
    pub fn online_count(&self) -> (r: usize)
        ensures
            r == self.servers().len(),
    {
        self.m_online_servers.len()
    }

    /// A copy of the `i`-th online server.
    pub fn online_server(&self, i: usize) -> (r: OnlineServerInfo)
        requires
            i < self.servers().len(),
        ensures
            r == self.servers()[i as int],
    {
        self.m_online_servers[i].duplicate()
    }

    /// The hosts of the online servers that speak `protocol_version`.
    pub fn online_hosts_for_protocol(&self, protocol_version: u64) -> (r: Vec<String>)
        ensures
            r@.map_values(|h: String| h@) == hosts_for(self.servers(), protocol_version),
    {
        let servers = &self.m_online_servers;
        let mut result: Vec<String> = Vec::new();
        let mut i: usize = 0;
        proof {
            assert(servers@.take(0) =~= Seq::<OnlineServerInfo>::empty());
        }
        while i < servers.len()
            invariant
                i <= servers@.len(),
                result@.map_values(|h: String| h@) == hosts_for(servers@.take(i as int), protocol_version),
            decreases servers.len() - i,
        {
            let ghost before = result@;
            proof {
                assert(servers@.take(i + 1).drop_last() =~= servers@.take(i as int));
            }
            if servers[i].protocol_version == protocol_version {
                result.push(servers[i].host.clone());
                proof {
                    assert(result@.map_values(|h: String| h@) =~= before.map_values(
                        |h: String| h@,
                    ).push(servers@[i as int].host@));
                }
            }
            i = i + 1;
        }
        proof {
            assert(servers@.take(i as int) =~= servers@);
        }
        result
    }

    /// Removes the servers whose removal date is not after `now`.
    pub fn server_clean_up(&mut self, now: u128)
        ensures
            final(self).servers() == still_online(old(self).servers(), now),
            final(self).last_clean_up() == old(self).last_clean_up(),
            distinct_ids(final(self).servers()),
    {
        proof {
            use_type_invariant(&*self);
        }
        let mut kept: Vec<OnlineServerInfo> = Vec::new();
        let ghost mut origin: Seq<int> = Seq::empty();
        let mut i: usize = 0;
        let n: usize = self.m_online_servers.len();
        proof {
            assert(self.m_online_servers@.take(0) =~= Seq::<OnlineServerInfo>::empty());
        }
        while i < n
            invariant
                n == self.m_online_servers@.len(),
                i <= n,
                distinct_ids(self.m_online_servers@),
                kept@ == still_online(self.m_online_servers@.take(i as int), now),
                origin.len() == kept@.len(),
                forall|k: int|
                    0 <= k < origin.len() ==> 0 <= #[trigger] origin[k] < i && kept@[k]
                        == self.m_online_servers@[origin[k]],
                forall|k: int, l: int|
                    0 <= k < l < origin.len() ==> #[trigger] origin[k] < #[trigger] origin[l],
            decreases n - i,
        {
            proof {
                assert(self.m_online_servers@.take(i + 1).drop_last() =~= self.m_online_servers@.take(
                    i as int,
                ));
            }
            if self.m_online_servers[i].removal_date > now {
                let info: OnlineServerInfo = self.m_online_servers[i].duplicate();
                kept.push(info);
                proof {
                    origin = origin.push(i as int);
                }
            }
            i = i + 1;
        }
        proof {
            assert(self.m_online_servers@.take(n as int) =~= self.m_online_servers@);
            assert forall|k: int, l: int|
                0 <= k < kept@.len() && 0 <= l < kept@.len() && k != l implies kept@[k].id@
                != kept@[l].id@ by {
                if k < l {
                    assert(origin[k] < origin[l]);
                } else {
                    assert(origin[l] < origin[k]);
                }
            }
        }
        self.m_online_servers = kept;
    }
    /// Records the notification of the server `id`, which can be reached
    /// at `host` until `removal_date`.
    pub fn record_hello(
        &mut self,
        id: String,
        host: String,
        version: u64,
        protocol_version: u64,
        removal_date: u128,
    )
        ensures
            final(self).servers() == after_hello(
                old(self).servers(),
                id,
                host,
                version,
                protocol_version,
                removal_date,
            ),
            final(self).last_clean_up() == old(self).last_clean_up(),
            distinct_ids(final(self).servers()),
    {
        proof {
            use_type_invariant(&*self);
        }
        let n: usize = self.m_online_servers.len();
        let mut k: usize = 0;
        while k < n
            invariant
                n == self.m_online_servers@.len(),
                k <= n,
                forall|j: int| 0 <= j < k ==> self.m_online_servers@[j].id@ != id@,
            ensures
                k <= n,
                forall|j: int| 0 <= j < k ==> self.m_online_servers@[j].id@ != id@,
                k < n ==> self.m_online_servers@[k as int].id@ == id@,
            decreases n - k,
        {
            if self.m_online_servers[k].id == id {
                break;
            }
            k = k + 1;
        }
        let ghost servers = self.m_online_servers@;
        if k < n {
            proof {
                assert(has_id(servers, id@));
                let c = id_index(servers, id@);
                if c != k as int {
                    assert(servers[c].id@ == servers[k as int].id@);
                }
            }
            let kept_id: String = self.m_online_servers[k].id.clone();
            let info = OnlineServerInfo {
                id: kept_id,
                host,
                version,
                protocol_version,
                removal_date,
            };
            let mut servers_vec: Vec<OnlineServerInfo> = Vec::new();
            std::mem::swap(&mut servers_vec, &mut self.m_online_servers);
            servers_vec.set(k, info);
            self.m_online_servers = servers_vec;
        } else {
            proof {
                assert(!has_id(servers, id@));
            }
            let info = OnlineServerInfo { id, host, version, protocol_version, removal_date };
            let mut servers_vec: Vec<OnlineServerInfo> = Vec::new();
            std::mem::swap(&mut servers_vec, &mut self.m_online_servers);
            servers_vec.push(info);
            self.m_online_servers = servers_vec;
        }
    }

    /// Records the notification, at `now`, of the server `id`, which the
    /// registry forgets after `removal_delay_seconds` seconds unless it
    /// notifies again; answers the delay, in seconds, before its next
    /// notification. The removal date must not overflow the clock.
    pub fn hello(
        &mut self,
        id: String,
        host: String,
        version: u64,
        protocol_version: u64,
        now: u128,
        removal_delay_seconds: u64,
    ) -> (r: u64)
        requires
            now + removal_delay_seconds * 1_000_000_000 <= u128::MAX,
        ensures
            final(self).servers() == after_hello(
                old(self).servers(),
                id,
                host,
                version,
                protocol_version,
                (now + seconds_to_nanos(removal_delay_seconds)) as u128,
            ),
            final(self).last_clean_up() == old(self).last_clean_up(),
            r == spec_callback_delay_seconds(removal_delay_seconds),
            has_id(final(self).servers(), id@),
            ({
                let rec = final(self).servers()[id_index(final(self).servers(), id@)];
                &&& rec.removal_date == now + removal_delay_seconds * 1_000_000_000
                &&& rec.host == host
                &&& rec.version == version
                &&& rec.protocol_version == protocol_version
            }),
            2 * r <= removal_delay_seconds <= 2 * r + 1,
            forall|t: u128|
                t <= now + r * 1_000_000_000 && removal_delay_seconds > 0 ==> #[trigger] hosts_for(
                    still_online(final(self).servers(), t),
                    protocol_version,
                ).contains(host@),
    {
        proof {
            use_type_invariant(&*self);
            lemma_hello_records_server(
                self.servers(),
                id,
                host,
                version,
                protocol_version,
                (now + seconds_to_nanos(removal_delay_seconds)) as u128,
            );
        }
        let ghost old_servers = self.servers();
        let ghost removal: u128 = (now + seconds_to_nanos(removal_delay_seconds)) as u128;
        let ghost host_view = host@;
        let ghost h = host;
        let ghost gid = id;
        let delay: u128 = (removal_delay_seconds as u128) * 1_000_000_000;
        self.record_hello(id, host, version, protocol_version, now + delay);
        let r: u64 = callback_delay_seconds(removal_delay_seconds);
        proof {
            assert forall|t: u128|
                t <= now + r * 1_000_000_000 && removal_delay_seconds > 0 implies #[trigger] hosts_for(
                    still_online(self.servers(), t),
                    protocol_version,
                ).contains(host_view) by {
                lemma_available_until_removal(old_servers, gid, h, version, protocol_version, removal, t);
            }
        }
        r
    }

    /// The hosts of the online servers that speak `protocol_version`, as
    /// answered to a client at `now`. The offline servers are removed first
    /// when the last removal is at least `clean_up_delay` old.
    pub fn online_hosts_at(&mut self, protocol_version: u64, now: u128, clean_up_delay: u128) -> (r:
        Vec<String>)
        requires
            old(self).last_clean_up() + clean_up_delay <= u128::MAX,
        ensures
            old(self).last_clean_up() + clean_up_delay > now ==> {
                &&& final(self).servers() == old(self).servers()
                &&& final(self).last_clean_up() == old(self).last_clean_up()
            },
            old(self).last_clean_up() + clean_up_delay <= now ==> {
                &&& final(self).servers() == still_online(old(self).servers(), now)
                &&& final(self).last_clean_up() == now
            },
            r@.map_values(|h: String| h@) == hosts_for(final(self).servers(), protocol_version),
    {
        if self.m_date_of_last_clean_up + clean_up_delay > now {
            return self.online_hosts_for_protocol(protocol_version);
        }
        self.server_clean_up(now);
        self.m_date_of_last_clean_up = now;
        self.online_hosts_for_protocol(protocol_version)
    }

    /// What the server `id` declared in its last notification, if it is
    /// online.
    pub fn declared_info(&self, id: &str) -> (r: Option<ServerDeclaredInfo>)
        ensures
            r is Some <==> has_id(self.servers(), id@),
            r matches Some(info) ==> {
                let s = self.servers()[id_index(self.servers(), id@)];
                &&& info.host == s.host
                &&& info.version == s.version
                &&& info.protocol_version == s.protocol_version
            },
    {
        proof {
            use_type_invariant(self);
        }
        let n: usize = self.m_online_servers.len();
        let mut k: usize = 0;
        while k < n
            invariant
                n == self.m_online_servers@.len(),
                k <= n,
                distinct_ids(self.m_online_servers@),
                forall|j: int| 0 <= j < k ==> self.m_online_servers@[j].id@ != id@,
            decreases n - k,
        {
            if crate::text::str_eq(self.m_online_servers[k].id.as_str(), id) {
                let s = &self.m_online_servers[k];
                proof {
                    assert(self.m_online_servers@[k as int].id@ == id@);
                    assert(has_id(self.m_online_servers@, id@));
                    let c = id_index(self.m_online_servers@, id@);
                    if c != k as int {
                        assert(self.m_online_servers@[c].id@ == self.m_online_servers@[k as int].id@);
                    }
                    assert(c == k as int);
                }
                let h: String = s.host.clone();
                assert(h == self.servers()[id_index(self.servers(), id@)].host);
                return Some(
                    ServerDeclaredInfo {
                        host: h,
                        version: s.version,
                        protocol_version: s.protocol_version,
                    },
                );
            }
            k = k + 1;
        }
        None
    }
}

/// Whether `c` is an ASCII letter, of either case, or an ASCII digit, as
/// `char::is_ascii_alphanumeric` says: its code is in `0..=9`, `A..=Z` or
/// `a..=z`.
pub open spec fn is_ascii_alphanumeric(c: char) -> bool {
    let v = c as int;
    (48 <= v && v <= 57) || (65 <= v && v <= 90) || (97 <= v && v <= 122)
}

/// The characters allowed in the identifier of a game server are exactly
/// the ASCII letters of either case, the ASCII digits, `_` and `-`.
pub proof fn lemma_server_id_chars(c: char)
    ensures
        is_server_id_char(c) <==> is_ascii_alphanumeric(c) || c == '_' || c == '-',
{
}

/// An identifier is valid exactly when each of its characters is an ASCII
/// letter or digit, `_` or `-`.
pub proof fn lemma_valid_server_id_by_codes(id: Seq<char>)
    ensures
        is_valid_server_id(id) <==> forall|i: int|
            0 <= i < id.len() ==> #[trigger] is_ascii_alphanumeric(id[i]) || id[i] == '_' || id[i] == '-',
{
    assert forall|i: int| #![trigger id[i]] 0 <= i < id.len() implies (is_server_id_char(id[i])
        <==> is_ascii_alphanumeric(id[i]) || id[i] == '_' || id[i] == '-') by {
        lemma_server_id_chars(id[i]);
    }
    assert(is_valid_server_id(id) <==> forall|i: int|
        0 <= i < id.len() ==> #[trigger] is_ascii_alphanumeric(id[i]) || id[i] == '_' || id[i]
            == '-') by {
        if is_valid_server_id(id) {
            assert forall|i: int| 0 <= i < id.len() implies #[trigger] is_ascii_alphanumeric(id[i])
                || id[i] == '_' || id[i] == '-' by {
                assert(is_server_id_char(id[i]));
            }
        }
        if forall|i: int|
            0 <= i < id.len() ==> #[trigger] is_ascii_alphanumeric(id[i]) || id[i] == '_' || id[i]
                == '-' {
            assert forall|i: int| 0 <= i < id.len() implies #[trigger] is_server_id_char(id[i]) by {
                assert(is_ascii_alphanumeric(id[i]) || id[i] == '_' || id[i] == '-');
            }
        }
    }
}

/// Whether `id` may identify a game server. A registration with another
/// identifier is refused as a bad parameter.
pub fn valid_server_id(id: &str) -> (r: bool)
    ensures
        r == is_valid_server_id(id@),
        r <==> forall|i: int|
            0 <= i < id@.len() ==> #[trigger] is_ascii_alphanumeric(id@[i]) || id@[i] == '_' || id@[i]
                == '-',
{
    let n: usize = id.unicode_len();
    let mut i: usize = 0;
    while i < n
        invariant
            n == id@.len(),
            i <= n,
            forall|j: int| 0 <= j < i ==> #[trigger] is_server_id_char(id@[j]),
        decreases n - i,
    {
        let c: char = id.get_char(i);
        if !(('a' <= c && c <= 'z') || ('A' <= c && c <= 'Z') || ('0' <= c && c <= '9') || c == '_'
            || c == '-') {
            assert(!is_server_id_char(id@[i as int]));
            proof {
                lemma_valid_server_id_by_codes(id@);
            }
            return false;
        }
        i = i + 1;
    }
    proof {
        lemma_valid_server_id_by_codes(id@);
    }
    true
}

/// The host part of the address declared by a game server, which must be
/// written `host:port`: `Err(Error::BadParameter)` when there is no colon
/// or when what follows the last colon is not a port number.
pub fn host_part(address: &str) -> (r: Result<String, Error>)
    ensures
        match spec_host_part(address@) {
            Some(h) => r matches Ok(s) && s@ == h,
            None => r == Err::<String, Error>(Error::BadParameter),
        },
{
    let n: usize = address.unicode_len();
    let mut i: usize = n;
    while i > 0
        invariant
            n == address@.len(),
            i <= n,
            forall|j: int| i <= j < n ==> address@[j] != ':',
        ensures
            i <= n,
            forall|j: int| i <= j < n ==> address@[j] != ':',
            i > 0 ==> address@[i - 1] == ':',
        decreases i,
    {
        if address.get_char(i - 1) == ':' {
            break;
        }
        i = i - 1;
    }
    if i == 0 {
        assert(!exists|j: int| 0 <= j < address@.len() && address@[j] == ':');
        return Err(Error::BadParameter);
    }
    let colon: usize = i - 1;
    proof {
        assert(address@[colon as int] == ':');
        assert(last_colon(address@) == Some(colon as int));
    }
    let port: &str = address.substring_char(colon + 1, n);
    assert(port@ =~= address@.skip(colon + 1));
    if parse_u16(port).is_none() {
        return Err(Error::BadParameter);
    }
    let host: &str = address.substring_char(0, colon);
    assert(host@ =~= address@.take(colon as int));
    Ok(crate::text::string_of(host))
}

/// Whether the host part of a declared address is acceptable: any IP
/// address, or a name of at most 255 bytes. The service parses the host
/// part as an IP address.
pub fn check_host_part(host_part: &str, is_ip_address: bool) -> (r: Result<(), Error>)
    ensures
        r == (if acceptable_host_part(host_part, is_ip_address) {
            Ok::<(), Error>(())
        } else {
            Err(Error::BadParameter)
        }),
{
    if !is_ip_address && host_part.len() > 255 {
        return Err(Error::BadParameter);
    }
    Ok(())
}

/// The delay, in seconds, that a game server is told to wait before its
/// next notification, when the registry forgets it after
/// `removal_delay_seconds` seconds.
pub fn callback_delay_seconds(removal_delay_seconds: u64) -> (r: u64)
    ensures
        r == spec_callback_delay_seconds(removal_delay_seconds),
        2 * r <= removal_delay_seconds <= 2 * r + 1,
{
    removal_delay_seconds / 2
}

} // verus!

verus! {

/// A server that speaks `protocol_version` has its host among the hosts
/// offered for that protocol.
pub proof fn lemma_host_offered(servers: Seq<OnlineServerInfo>, protocol_version: u64, k: int)
    requires
        0 <= k < servers.len(),
        servers[k].protocol_version == protocol_version,
    ensures
        hosts_for(servers, protocol_version).contains(servers[k].host@),
    decreases servers.len(),
{
    let rest = hosts_for(servers.drop_last(), protocol_version);
    if k == servers.len() - 1 {
        assert(hosts_for(servers, protocol_version).last() == servers[k].host@);
    } else {
        lemma_host_offered(servers.drop_last(), protocol_version, k);
        let j = choose|j: int| 0 <= j < rest.len() && rest[j] == servers[k].host@;
        if servers.last().protocol_version == protocol_version {
            assert(hosts_for(servers, protocol_version)[j] == servers[k].host@);
        }
    }
}

/// Every host offered for a protocol is the host of a server that speaks
/// it.
pub proof fn lemma_offered_host_speaks(servers: Seq<OnlineServerInfo>, protocol_version: u64, h: Seq<char>)
    requires
        hosts_for(servers, protocol_version).contains(h),
    ensures
        exists|k: int|
            0 <= k < servers.len() && servers[k].protocol_version == protocol_version
                && servers[k].host@ == h,
    decreases servers.len(),
{
    let rest = hosts_for(servers.drop_last(), protocol_version);
    if servers.last().protocol_version == protocol_version && servers.last().host@ == h {
        assert(servers[servers.len() - 1].host@ == h);
    } else {
        let all = hosts_for(servers, protocol_version);
        let j = choose|j: int| 0 <= j < all.len() && all[j] == h;
        if servers.last().protocol_version == protocol_version {
            assert(j < rest.len());
            assert(rest[j] == h);
        }
        assert(rest.contains(h));
        lemma_offered_host_speaks(servers.drop_last(), protocol_version, h);
        let k = choose|k: int|
            0 <= k < servers.drop_last().len() && servers.drop_last()[k].protocol_version
                == protocol_version && servers.drop_last()[k].host@ == h;
        assert(servers[k] == servers.drop_last()[k]);
    }
}

/// The removal of offline servers keeps exactly the servers whose removal
/// date is after `now`: each kept server was online and is still, and each
/// server whose removal date is after `now` is kept.
pub proof fn lemma_clean_up_keeps_online(servers: Seq<OnlineServerInfo>, now: u128)
    ensures
        forall|i: int|
            0 <= i < still_online(servers, now).len() ==> #[trigger] still_online(
                servers,
                now,
            )[i].removal_date > now && servers.contains(still_online(servers, now)[i]),
        forall|k: int|
            0 <= k < servers.len() && servers[k].removal_date > now ==> still_online(
                servers,
                now,
            ).contains(#[trigger] servers[k]),
        still_online(servers, now).len() <= servers.len(),
    decreases servers.len(),
{
    if servers.len() > 0 {
        let init = servers.drop_last();
        lemma_clean_up_keeps_online(init, now);
        let rest = still_online(init, now);
        let all = still_online(servers, now);
        assert forall|i: int| 0 <= i < all.len() implies #[trigger] all[i].removal_date > now
            && servers.contains(all[i]) by {
            if i < rest.len() {
                assert(all[i] == rest[i]);
                assert(still_online(init, now)[i].removal_date > now && init.contains(
                    still_online(init, now)[i],
                ));
                let j = choose|j: int| 0 <= j < init.len() && init[j] == rest[i];
                assert(servers[j] == init[j]);
            } else {
                assert(all[i] == servers.last());
                assert(servers[servers.len() - 1] == servers.last());
            }
        }
        assert forall|k: int| 0 <= k < servers.len() && servers[k].removal_date > now implies all.contains(
            #[trigger] servers[k],
        ) by {
            if k == servers.len() - 1 {
                assert(all[all.len() - 1] == servers[k]);
            } else {
                assert(init[k] == servers[k]);
                assert(rest.contains(init[k]));
                let j = choose|j: int| 0 <= j < rest.len() && rest[j] == init[k];
                assert(all[j] == rest[j]);
            }
        }
    }
}

/// Removing offline servers twice at the same instant removes nothing more.
pub proof fn lemma_clean_up_idempotent(servers: Seq<OnlineServerInfo>, now: u128)
    ensures
        still_online(still_online(servers, now), now) == still_online(servers, now),
    decreases servers.len(),
{
    if servers.len() > 0 {
        lemma_clean_up_idempotent(servers.drop_last(), now);
        let rest = still_online(servers.drop_last(), now);
        if servers.last().removal_date > now {
            let all = rest.push(servers.last());
            assert(all.drop_last() =~= rest);
        }
    }
}

/// A game server told to wait the callback delay before its next
/// notification is still registered when that delay ends: the callback
/// delay is half the removal delay, rounded down, and the removal date lies
/// the whole removal delay, in nanoseconds, after the notification.
pub proof fn lemma_callback_before_removal(removal_delay_seconds: u64, now: u128)
    ensures
        seconds_to_nanos(removal_delay_seconds) == removal_delay_seconds * 1_000_000_000,
        2 * spec_callback_delay_seconds(removal_delay_seconds) <= removal_delay_seconds,
        removal_delay_seconds <= 2 * spec_callback_delay_seconds(removal_delay_seconds) + 1,
        removal_delay_seconds > 0 ==> now + spec_callback_delay_seconds(removal_delay_seconds)
            * 1_000_000_000 < now + seconds_to_nanos(removal_delay_seconds),
{
}

/// Removing offline servers at `earlier`, then at `later`, leaves the same
/// servers as removing them at `later` only.
pub proof fn lemma_clean_up_later_subsumes(servers: Seq<OnlineServerInfo>, earlier: u128, later: u128)
    requires
        earlier <= later,
    ensures
        still_online(still_online(servers, earlier), later) == still_online(servers, later),
    decreases servers.len(),
{
    if servers.len() > 0 {
        lemma_clean_up_later_subsumes(servers.drop_last(), earlier, later);
        let rest = still_online(servers.drop_last(), earlier);
        if servers.last().removal_date > earlier {
            let all = rest.push(servers.last());
            assert(all.drop_last() =~= rest);
        }
    }
}

/// A notification from the server `id` leaves exactly one record for it,
/// holding what it declared, and changes no other record.
pub proof fn lemma_hello_records_server(
    servers: Seq<OnlineServerInfo>,
    id: String,
    host: String,
    version: u64,
    protocol_version: u64,
    removal_date: u128,
)
    requires
        distinct_ids(servers),
    ensures
        ({
            let after = after_hello(servers, id, host, version, protocol_version, removal_date);
            &&& distinct_ids(after)
            &&& has_id(after, id@)
            &&& after[id_index(after, id@)].host == host
            &&& after[id_index(after, id@)].version == version
            &&& after[id_index(after, id@)].protocol_version == protocol_version
            &&& after[id_index(after, id@)].removal_date == removal_date
            &&& after.len() == servers.len() + (if has_id(servers, id@) { 0int } else { 1int })
            &&& forall|k: int|
                0 <= k < servers.len() && servers[k].id@ != id@ ==> after[k] == servers[k]
        }),
{
    let after = after_hello(servers, id, host, version, protocol_version, removal_date);
    if has_id(servers, id@) {
        let k = id_index(servers, id@);
        assert(after[k].id@ == id@);
        let c = id_index(after, id@);
        if c != k {
            assert(after[c] == servers[c]);
        }
    } else {
        let k = servers.len() as int;
        assert(after[k].id@ == id@);
        let c = id_index(after, id@);
        if c != k {
            assert(after[c] == servers[c]);
        }
    }
}

/// A game server stays available to the clients as long as it keeps
/// notifying: after its notification with removal date `removal_date`, its
/// host is offered for its protocol by any query made before that date,
/// whether or not offline servers are removed first.
pub proof fn lemma_available_until_removal(
    servers: Seq<OnlineServerInfo>,
    id: String,
    host: String,
    version: u64,
    protocol_version: u64,
    removal_date: u128,
    now: u128,
)
    requires
        now < removal_date,
    ensures
        hosts_for(
            after_hello(servers, id, host, version, protocol_version, removal_date),
            protocol_version,
        ).contains(host@),
        hosts_for(
            still_online(
                after_hello(servers, id, host, version, protocol_version, removal_date),
                now,
            ),
            protocol_version,
        ).contains(host@),
{
    let after = after_hello(servers, id, host, version, protocol_version, removal_date);
    let k = if has_id(servers, id@) { id_index(servers, id@) } else { servers.len() as int };
    assert(after[k].host == host && after[k].protocol_version == protocol_version
        && after[k].removal_date == removal_date);
    lemma_host_offered(after, protocol_version, k);
    lemma_clean_up_keeps_online(after, now);
    let online = still_online(after, now);
    assert(online.contains(after[k]));
    let j = choose|j: int| 0 <= j < online.len() && online[j] == after[k];
    lemma_host_offered(online, protocol_version, j);
}

/// A client is only offered servers that are online: after the removal of
/// offline servers at `now`, every host offered for a protocol belongs to
/// a server speaking it whose removal date is after `now`.
pub proof fn lemma_only_online_offered(
    servers: Seq<OnlineServerInfo>,
    protocol_version: u64,
    now: u128,
    h: Seq<char>,
)
    requires
        hosts_for(still_online(servers, now), protocol_version).contains(h),
    ensures
        exists|k: int|
            0 <= k < servers.len() && servers[k].protocol_version == protocol_version
                && servers[k].host@ == h && servers[k].removal_date > now,
{
    let online = still_online(servers, now);
    lemma_offered_host_speaks(online, protocol_version, h);
    lemma_clean_up_keeps_online(servers, now);
    let i = choose|i: int|
        0 <= i < online.len() && online[i].protocol_version == protocol_version && online[i].host@
            == h;
    assert(online[i].removal_date > now);
    assert(servers.contains(online[i]));
    let k = choose|k: int| 0 <= k < servers.len() && servers[k] == online[i];
    assert(servers[k].host@ == h);
}

} // verus!
