use vstd::prelude::*;
use vstd::std_specs::hash::spec_hash_keys_iter;
use vstd::std_specs::iter::IteratorSpec;

use crate::options::{
    choices_view, CommandOption, CommandSpec, CommandSpecView, OptionKind, OptionSpec,
    OptionSpecView, OptionValue,
};
use crate::text::{
    chars_of, contains, decimal, digit_char, digits_value, law_decimal_reads_back, lines_of, push_decimal,
    some_line_contains, str_eq, strings_view,
};
use std::collections::{HashMap, HashSet};
use vstd::utf8::{decode_utf8, valid_utf8};

verus! {

/// The sub-commands of `/servidor`.
#[derive(Clone, Copy, Debug, PartialEq, Eq, Structural)]
pub enum ServerOption {
    Check,
    Start,
    Stop,
    Ip,
}

pub open spec fn server_option_name(o: ServerOption) -> Seq<char> {
    match o {
        ServerOption::Check => "check"@,
        ServerOption::Start => "start"@,
        ServerOption::Stop => "stop"@,
        ServerOption::Ip => "ip"@,
    }
}

pub open spec fn server_option_named(name: Seq<char>) -> Option<ServerOption> {
    if name == "check"@ {
        Some(ServerOption::Check)
    } else if name == "start"@ {
        Some(ServerOption::Start)
    } else if name == "stop"@ {
        Some(ServerOption::Stop)
    } else if name == "ip"@ {
        Some(ServerOption::Ip)
    } else {
        None
    }
}

impl ServerOption {
    /// The name the sub-command is shown and chosen by.
    pub fn name(&self) -> (r: String)
        ensures
            r@ == server_option_name(*self),
    {
        match self {
            ServerOption::Check => String::from_str("check"),
            ServerOption::Start => String::from_str("start"),
            ServerOption::Stop => String::from_str("stop"),
            ServerOption::Ip => String::from_str("ip"),
        }
    }

    /// The sub-command called `name`, if any.
    pub fn from_name(name: &str) -> (r: Option<ServerOption>)
        ensures
            r == server_option_named(name@),
    {
        if str_eq(name, "check") {
            Some(ServerOption::Check)
        } else if str_eq(name, "start") {
            Some(ServerOption::Start)
        } else if str_eq(name, "stop") {
            Some(ServerOption::Stop)
        } else if str_eq(name, "ip") {
            Some(ServerOption::Ip)
        } else {
            None
        }
    }
}

/// The dotted-decimal text of an IPv4 address given as its 32-bit number.
pub open spec fn ipv4_text(a: u32) -> Seq<char> {
    decimal(a as nat / 0x100_0000) + "."@ + decimal((a as nat / 0x1_0000) % 256) + "."@
        + decimal((a as nat / 0x100) % 256) + "."@ + decimal(a as nat % 256)
}

/// Appends the dotted-decimal text of an IPv4 address to `s`.
pub fn push_ipv4(s: &mut String, a: u32)
    ensures
        final(s)@ == old(s)@ + ipv4_text(a),
{
    let n = a as u64;
    push_decimal(s, n / 0x100_0000);
    s.append(".");
    push_decimal(s, (n / 0x1_0000) % 256);
    s.append(".");
    push_decimal(s, (n / 0x100) % 256);
    s.append(".");
    push_decimal(s, n % 256);
}

/// The dotted-decimal text of an IPv4 address.
pub fn ipv4_string(a: u32) -> (r: String)
    ensures
        r@ == ipv4_text(a),
{
    let mut s = String::new();
    push_ipv4(&mut s, a);
    s
}

/// An address of a network interface.
#[derive(Clone, Copy, Debug, PartialEq, Eq, Structural)]
pub enum IpAddress {
    V4(u32),
    V6(u128),
}

/// A network interface of the machine, as the system lists it.
#[derive(Clone, Copy, Debug, PartialEq, Eq, Structural)]
pub struct Interface {
    pub loopback: bool,
    pub address: IpAddress,
}

/// Whether an interface can be reached from outside by IPv4.
pub open spec fn usable(i: Interface) -> bool {
    !i.loopback && i.address is V4
}

/// The machine's own address: the text of the first interface that is not a loopback
/// and has an IPv4 address.
pub fn get_ip(interfaces: &Vec<Interface>) -> (r: Option<String>)
    ensures
        match r {
            Some(s) => exists|k: int|
                #![trigger interfaces@[k]]
                0 <= k < interfaces@.len() && usable(interfaces@[k])
                    && (forall|j: int| 0 <= j < k ==> !usable(#[trigger] interfaces@[j]))
                    && s@ == ipv4_text(interfaces@[k].address->V4_0),
            None => forall|j: int| 0 <= j < interfaces@.len() ==> !usable(#[trigger] interfaces@[j]),
        },
{
    let mut i: usize = 0;
    while i < interfaces.len()
        invariant
            i <= interfaces.len(),
            forall|j: int| 0 <= j < i ==> !usable(#[trigger] interfaces@[j]),
        decreases interfaces.len() - i,
    {
        let iface = interfaces[i];
        if !iface.loopback {
            if let IpAddress::V4(a) = iface.address {
                let s = ipv4_string(a);
                assert(usable(interfaces@[i as int]));
                return Some(s);
            }
        }
        i = i + 1;
    }
    None
}

/// The port the game server listens on.
pub const GAME_PORT: u16 = 25565;

/// `ip:port`, the address to probe.
pub fn socket_address(ip: &str, port: u16) -> (r: String)
    ensures
        r@ == ip@ + ":"@ + decimal(port as nat),
{
    let mut s = String::from_str(ip);
    s.append(":");
    push_decimal(&mut s, port as u64);
    s
}

/// The capture filter that keeps the packets sent to `port`.
pub fn capture_filter(port: u16) -> (r: String)
    ensures
        r@ == "tcp dst port "@ + decimal(port as nat),
{
    let mut s = String::from_str("tcp dst port ");
    push_decimal(&mut s, port as u64);
    s
}

/// How long to listen for the players' traffic, in nanoseconds.
pub const LISTEN_NANOS: u128 = 800_000_000;

/// Whether to keep listening after `elapsed_nanos` nanoseconds.
pub fn keep_listening(elapsed_nanos: u128) -> (r: bool)
    ensures
        r == (elapsed_nanos < LISTEN_NANOS),
{
    elapsed_nanos < LISTEN_NANOS
}

/// The IPv4 source address of a captured Ethernet frame: bytes 26 to 29, most significant
/// first.
pub open spec fn frame_source(frame: Seq<u8>) -> u32 {
    (frame[26] as int * 0x100_0000 + frame[27] as int * 0x1_0000 + frame[28] as int * 0x100
        + frame[29] as int) as u32
}

/// Adds the source address of a captured frame, which holds at least an Ethernet and an
/// IPv4 header, to the addresses seen.
pub fn record_frame(seen: &mut HashSet<u32>, frame: &[u8])
    requires
        frame@.len() >= 34,
    ensures
        final(seen)@ == old(seen)@.insert(frame_source(frame@)),
{
    broadcast use vstd::std_specs::hash::group_hash_axioms;
    let header = (frame[26] as u32) * 0x100_0000 + (frame[27] as u32) * 0x1_0000
        + (frame[28] as u32) * 0x100 + (frame[29] as u32);
    seen.insert(header);
}


/// The strings joined with `sep` between each two.
pub open spec fn joined(list: Seq<Seq<char>>, sep: Seq<char>) -> Seq<char>
    decreases list.len(),
{
    if list.len() == 0 {
        seq![]
    } else if list.len() == 1 {
        list[0]
    } else {
        joined(list.drop_last(), sep) + sep + list.last()
    }
}

/// The strings of `list` joined with `sep` between each two (`[String]::join`).
pub fn join_strings(list: &Vec<String>, sep: &str) -> (r: String)
    ensures
        r@ == joined(strings_view(list@), sep@),
{
    let ghost views = strings_view(list@);
    let mut r = String::new();
    let mut i: usize = 0;
    while i < list.len()
        invariant
            i <= list@.len(),
            views == strings_view(list@),
            r@ == joined(views.take(i as int), sep@),
        decreases list.len() - i,
    {
        assert(views.take(i + 1).drop_last() =~= views.take(i as int));
        if i != 0 {
            r.append(sep);
        } else {
            assert(views.take(1) =~= seq![views[0]]);
        }
        r.append(list[i].as_str());
        i = i + 1;
    }
    assert(views.take(list@.len() as int) =~= views);
    r
}

/// The reply when the game server's port is closed.
pub open spec fn closed_text() -> Seq<char> {
    "O servidor est\u{00E1} **fechado**."@
}

/// The reply when the port is open but listening for players failed with `e`.
pub open spec fn capture_failed_text(e: Seq<char>) -> Seq<char> {
    "O servidor est\u{00E1} **aberto**. "@ + e
}

/// The reply that lists the players on an open server.
pub open spec fn players_text(names: Seq<Seq<char>>) -> Seq<char> {
    if names.len() == 0 {
        "O servidor est\u{00E1} **aberto** sem jogadores."@
    } else if names.len() == 1 {
        "O servidor est\u{00E1} **aberto** com o jogador:\n- "@ + names[0]
    } else {
        "O servidor est\u{00E1} **aberto** com os jogadores:\n- "@ + joined(names, "\n- "@)
    }
}

/// The total number of characters of a list of texts.
pub open spec fn total_chars(list: Seq<Seq<char>>) -> nat
    decreases list.len(),
{
    if list.len() == 0 {
        0
    } else {
        total_chars(list.drop_last()) + list.last().len()
    }
}

/// Where the `k`th text stands when a list is joined with `sep_len` characters between
/// each two.
pub open spec fn joined_offset(list: Seq<Seq<char>>, sep_len: nat, k: int) -> int {
    total_chars(list.take(k)) + sep_len * k
}

/// Joining a non-empty list gives all its characters and one separator between each two.
proof fn lemma_joined_len(list: Seq<Seq<char>>, sep: Seq<char>)
    requires
        list.len() >= 1,
    ensures
        joined(list, sep).len() == total_chars(list) + sep.len() * (list.len() - 1),
    decreases list.len(),
{
    let n = list.len() as int;
    if n == 1 {
        assert(list.drop_last() =~= Seq::<Seq<char>>::empty());
    } else {
        lemma_joined_len(list.drop_last(), sep);
        assert(sep.len() * (n - 1) == sep.len() * (n - 2) + sep.len()) by (nonlinear_arith);
    }
}

/// Joining a list puts its `k`th text at `joined_offset`, right after a separator unless it
/// is the first.
proof fn lemma_joined_at(list: Seq<Seq<char>>, sep: Seq<char>, k: int)
    requires
        0 <= k < list.len(),
    ensures
        ({
            let o = joined_offset(list, sep.len(), k);
            let j = joined(list, sep);
            &&& sep.len() * k <= o
            &&& o + list[k].len() <= j.len()
            &&& j.subrange(o, o + list[k].len()) == list[k]
            &&& k > 0 ==> j.subrange(o - sep.len(), o) == sep
        }),
    decreases list.len(),
{
    let n = list.len() as int;
    let o = joined_offset(list, sep.len(), k);
    let j = joined(list, sep);
    if n == 1 {
        assert(list.take(0) =~= Seq::<Seq<char>>::empty());
        assert(total_chars(list.take(0)) == 0);
        assert(k == 0);
        assert(sep.len() * 0 == 0);
        assert(o == 0);
        assert(j == list[0]);
        assert(j.subrange(0, list[0].len() as int) =~= list[0]);
    } else {
        let p = list.drop_last();
        let jp = joined(p, sep);
        assert(j == jp + sep + list.last());
        lemma_joined_len(p, sep);
        if k < n - 1 {
            lemma_joined_at(p, sep, k);
            assert(list.take(k) =~= p.take(k));
            assert(p[k] == list[k]);
            assert(j.subrange(o, o + list[k].len()) =~= jp.subrange(o, o + list[k].len()));
            if k > 0 {
                assert(sep.len() * k >= sep.len()) by (nonlinear_arith)
                    requires
                        k >= 1,
                ;
                assert(j.subrange(o - sep.len(), o) =~= jp.subrange(o - sep.len(), o));
            }
        } else {
            assert(list.take(k) =~= p);
            assert(sep.len() * k == sep.len() * (n - 2) + sep.len()) by (nonlinear_arith)
                requires
                    k == n - 1,
            ;
            assert(o == jp.len() + sep.len());
            assert(list[k] == list.last());
            assert(j.len() == jp.len() + sep.len() + list.last().len());
            assert(j.subrange(o, o + list[k].len()) =~= list.last());
            assert(j.subrange(o - sep.len(), o) =~= sep);
        }
    }
}

/// The header of the reply that lists two or more players, before the first name.
pub open spec fn players_header() -> Seq<char> {
    "O servidor est\u{00E1} **aberto** com os jogadores:"@
}

/// For two or more players the reply is the header, then the names joined with line
/// breaks and dashes.
proof fn lemma_players_text_parts(names: Seq<Seq<char>>)
    requires
        names.len() >= 2,
    ensures
        players_text(names) == players_header() + "\n- "@ + joined(names, "\n- "@),
        "\n- "@.len() == 3,
{
    reveal_strlit("O servidor est\u{00E1} **aberto** com os jogadores:");
    reveal_strlit("O servidor est\u{00E1} **aberto** com os jogadores:\n- ");
    reveal_strlit("\n- ");
    assert("O servidor est\u{00E1} **aberto** com os jogadores:\n- "@ =~= players_header() + "\n- "@);
}

/// Whether `name` stands whole in `t` at `o`, right after a line break and a dash.
pub open spec fn listed_at(t: Seq<char>, name: Seq<char>, o: int) -> bool {
    &&& 3 <= o
    &&& o + name.len() <= t.len()
    &&& t[o - 3] == '\n'
    &&& t[o - 2] == '-'
    &&& t[o - 1] == ' '
    &&& t.subrange(o, o + name.len()) == name
}

/// The `k`th name stands whole in the reply, right after a line break and a dash.
proof fn lemma_player_at(names: Seq<Seq<char>>, k: int)
    requires
        names.len() >= 2,
        0 <= k < names.len(),
    ensures
        listed_at(players_text(names), names[k], players_header().len() + joined_offset(names, 3, k) + 3),
{
    let sep = "\n- "@;
    lemma_players_text_parts(names);
    lemma_joined_at(names, sep, k);
    let h = players_header();
    let j = joined(names, sep);
    let t = players_text(names);
    let oj = joined_offset(names, 3, k);
    let o = h.len() + oj + 3;
    assert(t.subrange(o, o + names[k].len()) =~= j.subrange(oj, oj + names[k].len()));
    reveal_strlit("\n- ");
    if k == 0 {
        assert(t.subrange(o - 3, o) =~= sep);
    } else {
        assert(t.subrange(o - 3, o) =~= j.subrange(oj - 3, oj));
    }
    assert(t[o - 3] == t.subrange(o - 3, o)[0]);
    assert(t[o - 2] == t.subrange(o - 3, o)[1]);
    assert(t[o - 1] == t.subrange(o - 3, o)[2]);
}

/// The reply for two or more players starts with the header, and its length is the
/// header's, all the names' and three characters for each name.
proof fn lemma_players_length(names: Seq<Seq<char>>)
    requires
        names.len() >= 2,
    ensures
        players_text(names).len() == players_header().len() + total_chars(names) + 3 * names.len(),
        players_text(names).subrange(0, players_header().len() as int) == players_header(),
{
    let sep = "\n- "@;
    lemma_players_text_parts(names);
    lemma_joined_len(names, sep);
    let t = players_text(names);
    let j = joined(names, sep);
    let h = players_header();
    assert(t.len() == h.len() + 3 + j.len());
    assert(j.len() == total_chars(names) + 3 * (names.len() - 1));
    assert(3 * (names.len() - 1) + 3 == 3 * names.len()) by (nonlinear_arith)
        requires
            names.len() >= 2,
    ;
    assert(t.subrange(0, h.len() as int) =~= h);
}

/// Every name stands whole in the reply for two or more players, after a line break and a
/// dash.
proof fn lemma_every_player_at(names: Seq<Seq<char>>)
    requires
        names.len() >= 2,
    ensures
        forall|k: int| 0 <= k < names.len() ==> listed_at(
            players_text(names),
            #[trigger] names[k],
            players_header().len() + joined_offset(names, 3, k) + 3,
        ),
{
    assert forall|k: int| 0 <= k < names.len() implies listed_at(
        players_text(names),
        #[trigger] names[k],
        players_header().len() + joined_offset(names, 3, k) + 3,
    ) by {
        lemma_player_at(names, k);
    }
}

/// The reply for two or more players heard is the header and then every name, in order,
/// each after a line break and a dash: its length is the header's, all the names' and three
/// characters for each name, and each name stands whole at its place.
pub proof fn law_every_player_listed(names: Seq<Seq<char>>)
    requires
        names.len() >= 2,
    ensures
        players_header() == "O servidor est\u{00E1} **aberto** com os jogadores:"@,
        players_text(names).len() == players_header().len() + total_chars(names) + 3 * names.len(),
        players_text(names).subrange(0, players_header().len() as int) == players_header(),
        forall|k: int| 0 <= k < names.len() ==> listed_at(
            players_text(names),
            #[trigger] names[k],
            players_header().len() + joined_offset(names, 3, k) + 3,
        ),
{
    lemma_players_length(names);
    lemma_every_player_at(names);
}

/// With nobody heard the reply says the server is open without players; with one player
/// heard it names that player after the singular header.
pub proof fn law_few_players_listed(names: Seq<Seq<char>>)
    requires
        names.len() <= 1,
    ensures
        names.len() == 0 ==> players_text(names) == "O servidor est\u{00E1} **aberto** sem jogadores."@,
        names.len() == 1 ==> players_text(names) == "O servidor est\u{00E1} **aberto** com o jogador:\n- "@ + names[0],
{
}

/// The next step of a `check` sub-command.
pub enum CheckStep {
    /// Listen for the players' traffic on the game port.
    Capture,
    /// Read the server log to name the players seen.
    ReadLog,
    /// Done: the reply.
    Reply(Result<String, String>),
}

/// Decides the next step of `check` from what is known so far: whether the game port is
/// open, the addresses heard on it (or why listening failed) once listened, and the names
/// of their players (or why the log could not be read) once the log was read.
pub fn check(
    port_open: bool,
    capture: Option<&Result<HashSet<u32>, String>>,
    names: Option<&Result<Vec<String>, String>>,
) -> (r: CheckStep)
    requires
        capture matches Some(Ok(ips)) ==> (names matches Some(Ok(v)) ==> v@.len() == ips@.len()),
    ensures
        !port_open ==> (r matches CheckStep::Reply(Err(e)) && e@ == closed_text()),
        port_open ==> match capture {
            None => r is Capture,
            Some(Err(e)) => r matches CheckStep::Reply(Err(t)) && t@ == capture_failed_text(e@),
            Some(Ok(ips)) => if ips@.len() == 0 {
                r matches CheckStep::Reply(Ok(t)) && t@ == players_text(seq![])
            } else {
                match names {
                    None => r is ReadLog,
                    Some(Err(e)) => r matches CheckStep::Reply(Err(t)) && t@ == e@,
                    Some(Ok(v)) => r matches CheckStep::Reply(Ok(t))
                        && t@ == players_text(strings_view(v@)),
                }
            },
        },
{
    broadcast use vstd::std_specs::hash::group_hash_axioms;
    if !port_open {
        return CheckStep::Reply(Err(String::from_str("O servidor est\u{00E1} **fechado**.")));
    }
    match capture {
        None => CheckStep::Capture,
        Some(Err(e)) => {
            let mut t = String::from_str("O servidor est\u{00E1} **aberto**. ");
            t.append(e.as_str());
            CheckStep::Reply(Err(t))
        },
        Some(Ok(ips)) => {
            if ips.len() == 0 {
                return CheckStep::Reply(Ok(String::from_str("O servidor est\u{00E1} **aberto** sem jogadores.")));
            }
            match names {
                None => CheckStep::ReadLog,
                Some(Err(e)) => CheckStep::Reply(Err(e.clone())),
                Some(Ok(v)) => {
                    if ips.len() == 1 {
                        let mut t = String::from_str("O servidor est\u{00E1} **aberto** com o jogador:\n- ");
                        t.append(v[0].as_str());
                        CheckStep::Reply(Ok(t))
                    } else {
                        let mut t = String::from_str("O servidor est\u{00E1} **aberto** com os jogadores:\n- ");
                        let j = join_strings(v, "\n- ");
                        t.append(j.as_str());
                        CheckStep::Reply(Ok(t))
                    }
                },
            }
        },
    }
}


/// The server log line that records a login: the player's name, then the address and
/// port they came from.
pub const LOGIN_PATTERN: &'static str = r"(\w+)\[/(\d+\.\d+\.\d+\.\d+):\d+] logged in with entity id";

/// Where the game server writes its log.
pub const LOG_PATH: &'static str = "/home/lucas/Desktop/testetetete/logs/latest.log";

#[verifier::external_type_specification]
#[verifier::external_body]
pub struct ExRegexError(regex::Error);

/// The capture groups of every match, as the texts they matched.
pub open spec fn groups_view(caps: Seq<Vec<Option<String>>>) -> Seq<Seq<Option<Seq<char>>>> {
    caps.map_values(|g: Vec<Option<String>>| g@.map_values(|m: Option<String>| match m {
        Some(t) => Some(t@),
        None => None,
    }))
}

/// What the `regex` crate makes of a pattern and a text: for each successive
/// non-overlapping match, the texts of its capture groups (`None` for a group that did not
/// take part); `None` where the pattern does not compile.
pub uninterp spec fn regex_captures(pattern: Seq<char>, haystack: Seq<char>) -> Option<Seq<Seq<Option<Seq<char>>>>>;

/// `regex::Regex::new(pattern)` and then `captures_iter(haystack)`, each match turned into
/// the texts of its groups. Claimed: the result is `regex_captures` of the two texts, and
/// it is an error exactly where that is `None`; each match has a group 0 that took part.
/// The login pattern compiles, and since none of its groups is optional, each of its
/// matches has its two groups, both taking part.
#[verifier::external_body]
fn captures_all(pattern: &str, haystack: &str) -> (r: Result<Vec<Vec<Option<String>>>, regex::Error>)
    ensures
        match r {
            Ok(caps) => {
                &&& regex_captures(pattern@, haystack@) == Some(groups_view(caps@))
                &&& forall|i: int| 0 <= i < caps@.len() ==> #[trigger] caps@[i]@.len() > 0 && caps@[i]@[0] is Some
            },
            Err(_) => regex_captures(pattern@, haystack@) is None,
        },
        pattern@ == LOGIN_PATTERN@ ==> (r matches Ok(caps) && forall|i: int|
            0 <= i < caps@.len() ==> {
                &&& #[trigger] caps@[i]@.len() == 3
                &&& caps@[i]@[1] is Some
                &&& caps@[i]@[2] is Some
            }),
{
    let re = regex::Regex::new(pattern)?;
    Ok(re.captures_iter(haystack).map(|c| c.iter().map(|m| m.map(|m| m.as_str().to_string())).collect()).collect())
}

/// Whether a character is a decimal digit.
pub open spec fn is_digit(c: char) -> bool {
    '0' <= c && c <= '9'
}

/// The address whose dotted-decimal text is `s`: four numbers below 256, in decimal
/// without leading zeros, separated by dots. `None` where `s` is no such text.
pub open spec fn ipv4_parsed(s: Seq<char>) -> Option<u32> {
    if exists|a: u32| ipv4_text(a) == s {
        Some(choose|a: u32| ipv4_text(a) == s)
    } else {
        None
    }
}

/// Whether the decimal text of `o` stands in `s` at `start`, followed by a dot, or by the
/// end of `s` when `last`.
pub open spec fn octet_at(s: Seq<char>, start: int, o: nat, last: bool) -> bool {
    let e = start + decimal(o).len();
    &&& 0 <= start
    &&& e <= s.len()
    &&& s.subrange(start, e) == decimal(o)
    &&& if last {
        e == s.len()
    } else {
        e < s.len() && s[e] == '.'
    }
}

/// The decimal text of a number below 256 has one to three digits, and more than one only
/// when it does not start with a zero.
proof fn lemma_octet_decimal(n: nat)
    requires
        n < 256,
    ensures
        1 <= decimal(n).len() <= 3,
        decimal(n).len() > 1 ==> decimal(n)[0] != '0',
        forall|i: int| 0 <= i < decimal(n).len() ==> is_digit(#[trigger] decimal(n)[i]),
        digits_value(decimal(n)) == n,
{
    law_decimal_reads_back(n);
    if n >= 10 {
        if n >= 100 {
            assert(decimal(n / 10 / 10).len() == 1);
            assert(decimal(n / 10).len() == 2);
        } else {
            assert(decimal(n / 10).len() == 1);
        }
    }
}

/// A run of digits without a leading zero (unless it is a single digit) is the decimal
/// text of the number it stands for.
proof fn lemma_canonical_decimal(t: Seq<char>)
    requires
        t.len() >= 1,
        forall|i: int| 0 <= i < t.len() ==> is_digit(#[trigger] t[i]),
        t.len() == 1 || t[0] != '0',
    ensures
        decimal(digits_value(t)) == t,
        t.len() > 1 ==> digits_value(t) >= 10,
        t.len() == 1 ==> (t[0] != '0' ==> digits_value(t) >= 1),
    decreases t.len(),
{
    let p = t.drop_last();
    assert(is_digit(t[t.len() - 1]));
    let d = (t.last() as int) - 48;
    assert(0 <= d < 10);
    assert(digit_char(d as nat) == t.last());
    if t.len() == 1 {
        assert(p =~= Seq::<char>::empty());
        assert(digits_value(p) == 0);
        assert(digits_value(t) == d);
        assert(decimal(d as nat) =~= t);
        if t[0] != '0' {
            assert(d >= 1);
        }
    } else {
        assert(p[0] == t[0]);
        assert forall|i: int| 0 <= i < p.len() implies is_digit(#[trigger] p[i]) by {
            assert(p[i] == t[i]);
        }
        lemma_canonical_decimal(p);
        let n = digits_value(t);
        assert(n == digits_value(p) * 10 + d);
        assert(n / 10 == digits_value(p));
        assert(n % 10 == d);
        assert(decimal(n) == decimal(n / 10).push(digit_char(n % 10)));
        assert(decimal(n) =~= t);
    }
}

/// Where the decimal text of a number below 256 stands in `s` at `start`, the maximal run
/// of digits from `start` is exactly that text.
proof fn lemma_run_is_octet(s: Seq<char>, start: int, end: int, o: nat, last: bool)
    requires
        0 <= start <= end <= s.len(),
        forall|i: int| start <= i < end ==> is_digit(#[trigger] s[i]),
        end == s.len() || !is_digit(s[end]),
        o < 256,
        octet_at(s, start, o, last),
    ensures
        end == start + decimal(o).len(),
        s.subrange(start, end) == decimal(o),
{
    lemma_octet_decimal(o);
    let e = start + decimal(o).len();
    if e < end {
        assert(is_digit(s[e]));
        assert(!last);
        assert(s[e] == '.');
    }
    if end < e {
        assert(s[end] == s.subrange(start, e)[end - start]);
        assert(is_digit(decimal(o)[end - start]));
    }
}

/// Where the run of digits that starts at `start` ends, and the number the run stands
/// for when it has at most three digits.
fn digit_run(cs: &Vec<char>, start: usize) -> (r: (usize, u32))
    requires
        start <= cs.len(),
    ensures
        start <= r.0 <= cs.len(),
        forall|i: int| start <= i < r.0 ==> is_digit(#[trigger] cs@[i]),
        r.0 == cs.len() || !is_digit(cs@[r.0 as int]),
        r.0 - start <= 3 ==> r.1 == digits_value(cs@.subrange(start as int, r.0 as int)),
{
    let mut end = start;
    let mut value: u32 = 0;
    assert(cs@.subrange(start as int, start as int) =~= Seq::<char>::empty());
    while end < cs.len() && '0' <= cs[end] && cs[end] <= '9'
        invariant
            start <= end <= cs.len(),
            forall|i: int| start <= i < end ==> is_digit(#[trigger] cs@[i]),
            end - start <= 3 ==> value == digits_value(cs@.subrange(start as int, end as int)),
            end - start <= 1 ==> value < 10,
            end - start <= 2 ==> value < 100,
            value < 1000,
        decreases cs.len() - end,
    {
        if end - start < 3 {
            let sub = Ghost(cs@.subrange(start as int, end as int + 1));
            assert(sub@.drop_last() =~= cs@.subrange(start as int, end as int));
            assert(sub@.last() == cs@[end as int]);
            value = value * 10 + (cs[end] as u32 - 48);
        }
        end = end + 1;
    }
    (end, value)
}

/// Reads the number below 256 written in decimal at `start`, which must be followed by a
/// dot, or by the end of the text when `last`; gives the number and where the text goes
/// on after the dot.
fn read_octet(cs: &Vec<char>, start: usize, last: bool) -> (r: Option<(u32, usize)>)
    requires
        start <= cs.len(),
    ensures
        match r {
            Some((v, next)) => {
                &&& v < 256
                &&& octet_at(cs@, start as int, v as nat, last)
                &&& next == start + decimal(v as nat).len() + if last { 0int } else { 1int }
                &&& forall|o: nat| o < 256 && #[trigger] octet_at(cs@, start as int, o, last) ==> o == v
            },
            None => forall|o: nat| o < 256 ==> !#[trigger] octet_at(cs@, start as int, o, last),
        },
{
    let (end, value) = digit_run(cs, start);
    let ghost sub = cs@.subrange(start as int, end as int);
    assert forall|o: nat| o < 256 && #[trigger] octet_at(cs@, start as int, o, last) implies {
        &&& end == start + decimal(o).len()
        &&& sub == decimal(o)
        &&& digits_value(sub) == o
        &&& 1 <= sub.len() <= 3
        &&& (sub.len() > 1 ==> sub[0] != '0')
    } by {
        lemma_run_is_octet(cs@, start as int, end as int, o, last);
        lemma_octet_decimal(o);
    }
    let len = end - start;
    if len == 0 || len > 3 || (len > 1 && cs[start] == '0') || value > 255 {
        assert forall|o: nat| o < 256 implies !#[trigger] octet_at(cs@, start as int, o, last) by {
            if octet_at(cs@, start as int, o, last) {
                assert(sub[0] == cs@[start as int]);
            }
        }
        return None;
    }
    proof {
        assert forall|i: int| 0 <= i < sub.len() implies is_digit(#[trigger] sub[i]) by {
            assert(sub[i] == cs@[start + i]);
        }
        assert(sub[0] == cs@[start as int]);
        lemma_canonical_decimal(sub);
    }
    if last {
        if end != cs.len() {
            return None;
        }
        Some((value, end))
    } else {
        if end >= cs.len() || cs[end] != '.' {
            return None;
        }
        Some((value, end + 1))
    }
}

/// The number made of four numbers below 256, most significant first, has them as its
/// four octets.
proof fn lemma_octets_of(a: int, b: int, c: int, d: int)
    requires
        0 <= a < 256,
        0 <= b < 256,
        0 <= c < 256,
        0 <= d < 256,
    ensures
        ({
            let v = a * 0x100_0000 + b * 0x1_0000 + c * 0x100 + d;
            &&& 0 <= v < 0x1_0000_0000
            &&& v / 0x100_0000 == a
            &&& (v / 0x1_0000) % 256 == b
            &&& (v / 0x100) % 256 == c
            &&& v % 256 == d
        }),
{
    let v = a * 0x100_0000 + b * 0x1_0000 + c * 0x100 + d;
    assert(0 <= v < 0x1_0000_0000) by (nonlinear_arith)
        requires
            v == a * 0x100_0000 + b * 0x1_0000 + c * 0x100 + d,
            0 <= a < 256,
            0 <= b < 256,
            0 <= c < 256,
            0 <= d < 256,
    ;
    assert(v / 0x100_0000 == a) by (nonlinear_arith)
        requires
            v == a * 0x100_0000 + b * 0x1_0000 + c * 0x100 + d,
            0 <= a < 256,
            0 <= b < 256,
            0 <= c < 256,
            0 <= d < 256,
    ;
    assert((v / 0x1_0000) % 256 == b) by (nonlinear_arith)
        requires
            v == a * 0x100_0000 + b * 0x1_0000 + c * 0x100 + d,
            0 <= a < 256,
            0 <= b < 256,
            0 <= c < 256,
            0 <= d < 256,
    ;
    assert((v / 0x100) % 256 == c) by (nonlinear_arith)
        requires
            v == a * 0x100_0000 + b * 0x1_0000 + c * 0x100 + d,
            0 <= a < 256,
            0 <= b < 256,
            0 <= c < 256,
            0 <= d < 256,
    ;
    assert(v % 256 == d) by (nonlinear_arith)
        requires
            v == a * 0x100_0000 + b * 0x1_0000 + c * 0x100 + d,
            0 <= a < 256,
            0 <= b < 256,
            0 <= c < 256,
            0 <= d < 256,
    ;
}

/// A 32-bit number is made of its four octets.
proof fn lemma_from_octets(x: u32)
    ensures
        x as int == (x as nat / 0x100_0000) * 0x100_0000 + ((x as nat / 0x1_0000) % 256) * 0x1_0000
            + ((x as nat / 0x100) % 256) * 0x100 + x as nat % 256,
{
    assert(x == (x / 0x100_0000) * 0x100_0000 + ((x / 0x1_0000) % 256) * 0x1_0000 + ((x / 0x100) % 256) * 0x100
        + x % 256) by (bit_vector);
}

/// The text of an address holds its four octets where a reader finds them: the first at
/// the start, each next one after the dot that ends the one before, the last up to the end.
proof fn lemma_text_octets(x: u32)
    ensures
        ({
            let t = ipv4_text(x);
            let o1 = x as nat / 0x100_0000;
            let o2 = (x as nat / 0x1_0000) % 256;
            let o3 = (x as nat / 0x100) % 256;
            let o4 = x as nat % 256;
            let q1: int = decimal(o1).len() + 1int;
            let q2: int = q1 + decimal(o2).len() + 1;
            let q3: int = q2 + decimal(o3).len() + 1;
            &&& o1 < 256 && o2 < 256 && o3 < 256 && o4 < 256
            &&& octet_at(t, 0, o1, false)
            &&& octet_at(t, q1, o2, false)
            &&& octet_at(t, q2, o3, false)
            &&& octet_at(t, q3, o4, true)
        }),
{
    reveal_strlit(".");
    let t = ipv4_text(x);
    let d1 = decimal(x as nat / 0x100_0000);
    let d2 = decimal((x as nat / 0x1_0000) % 256);
    let d3 = decimal((x as nat / 0x100) % 256);
    let d4 = decimal(x as nat % 256);
    assert(x as nat / 0x100_0000 < 256);
    let q1: int = d1.len() + 1int;
    let q2: int = q1 + d2.len() + 1;
    let q3: int = q2 + d3.len() + 1;
    assert(t =~= d1 + "."@ + d2 + "."@ + d3 + "."@ + d4);
    assert(t.subrange(0, d1.len() as int) =~= d1);
    assert(t[d1.len() as int] == '.');
    assert(t.subrange(q1, q1 + d2.len()) =~= d2);
    assert(t[q1 + d2.len()] == '.');
    assert(t.subrange(q2, q2 + d3.len()) =~= d3);
    assert(t[q2 + d3.len()] == '.');
    assert(t.subrange(q3, q3 + d4.len()) =~= d4);
    assert(q3 + d4.len() == t.len());
}

/// Four octets standing one after the other, separated by dots, up to the end of `t`, make
/// `t` the text of the number they make.
proof fn lemma_octets_text(t: Seq<char>, a: nat, b: nat, c: nat, d: nat)
    requires
        a < 256,
        b < 256,
        c < 256,
        d < 256,
        octet_at(t, 0, a, false),
        octet_at(t, decimal(a).len() + 1int, b, false),
        octet_at(t, decimal(a).len() + decimal(b).len() + 2int, c, false),
        octet_at(t, decimal(a).len() + decimal(b).len() + decimal(c).len() + 3int, d, true),
    ensures
        ipv4_text((a * 0x100_0000 + b * 0x1_0000 + c * 0x100 + d) as u32) == t,
{
    reveal_strlit(".");
    lemma_octets_of(a as int, b as int, c as int, d as int);
    let v = (a * 0x100_0000 + b * 0x1_0000 + c * 0x100 + d) as u32;
    let da = decimal(a);
    let db = decimal(b);
    let dc = decimal(c);
    let dd = decimal(d);
    let s2: int = da.len() + 1int;
    let s3: int = s2 + db.len() + 1;
    let s4: int = s3 + dc.len() + 1;
    assert(ipv4_text(v) == da + "."@ + db + "."@ + dc + "."@ + dd);
    assert forall|i: int| 0 <= i < t.len() implies t[i] == (da + "."@ + db + "."@ + dc + "."@ + dd)[i] by {
        if i < da.len() {
            assert(t[i] == t.subrange(0, da.len() as int)[i]);
        } else if i == da.len() {
        } else if i < s2 + db.len() {
            assert(t[i] == t.subrange(s2, s2 + db.len())[i - s2]);
        } else if i == s2 + db.len() {
        } else if i < s3 + dc.len() {
            assert(t[i] == t.subrange(s3, s3 + dc.len())[i - s3]);
        } else if i == s3 + dc.len() {
        } else {
            assert(t[i] == t.subrange(s4, s4 + dd.len())[i - s4]);
        }
    }
    assert(t =~= da + "."@ + db + "."@ + dc + "."@ + dd);
}

/// Two numbers below 256 whose decimal texts both stand at the same place, each ended the
/// same way, are the same number.
proof fn lemma_same_octet(t: Seq<char>, start: int, o: nat, p: nat, last: bool)
    requires
        o < 256,
        p < 256,
        octet_at(t, start, o, last),
        octet_at(t, start, p, last),
    ensures
        o == p,
{
    lemma_octet_decimal(o);
    lemma_octet_decimal(p);
    let end = start + decimal(o).len();
    assert forall|i: int| start <= i < end implies is_digit(#[trigger] t[i]) by {
        assert(t[i] == t.subrange(start, end)[i - start]);
    }
    lemma_run_is_octet(t, start, end, p, last);
}

/// The text of an address reads back as that address: `parse_ipv4` undoes `ipv4_string`.
pub proof fn law_address_text_reads_back(a: u32)
    ensures
        ipv4_parsed(ipv4_text(a)) == Some(a),
{
    let t = ipv4_text(a);
    let x = choose|x: u32| ipv4_text(x) == t;
    lemma_text_octets(a);
    lemma_text_octets(x);
    let a1 = a as nat / 0x100_0000;
    let a2 = (a as nat / 0x1_0000) % 256;
    let a3 = (a as nat / 0x100) % 256;
    let x1 = x as nat / 0x100_0000;
    let x2 = (x as nat / 0x1_0000) % 256;
    let x3 = (x as nat / 0x100) % 256;
    lemma_same_octet(t, 0, a1, x1, false);
    let q1: int = decimal(a1).len() + 1int;
    lemma_same_octet(t, q1, a2, x2, false);
    let q2: int = q1 + decimal(a2).len() + 1int;
    lemma_same_octet(t, q2, a3, x3, false);
    let q3: int = q2 + decimal(a3).len() + 1int;
    lemma_same_octet(t, q3, a as nat % 256, x as nat % 256, true);
    lemma_from_octets(a);
    lemma_from_octets(x);
}

/// Reads dotted-decimal text as an IPv4 address, given as its 32-bit number: four numbers
/// below 256, in decimal without leading zeros, separated by dots; `None` for any other
/// text.
pub fn parse_ipv4(s: &str) -> (r: Option<u32>)
    ensures
        r == ipv4_parsed(s@),
{
    let cs = chars_of(s);
    let ghost t = s@;
    let (a, p1) = match read_octet(&cs, 0, false) {
        Some(x) => x,
        None => {
            assert forall|x: u32| ipv4_text(x) != t by {
                lemma_text_octets(x);
            }
            return None;
        },
    };
    let (b, p2) = match read_octet(&cs, p1, false) {
        Some(x) => x,
        None => {
            assert forall|x: u32| ipv4_text(x) != t by {
                lemma_text_octets(x);
            }
            return None;
        },
    };
    let (c, p3) = match read_octet(&cs, p2, false) {
        Some(x) => x,
        None => {
            assert forall|x: u32| ipv4_text(x) != t by {
                lemma_text_octets(x);
            }
            return None;
        },
    };
    let (d, _p4) = match read_octet(&cs, p3, true) {
        Some(x) => x,
        None => {
            assert forall|x: u32| ipv4_text(x) != t by {
                lemma_text_octets(x);
            }
            return None;
        },
    };
    proof {
        lemma_octets_of(a as int, b as int, c as int, d as int);
    }
    let v: u32 = a * 0x100_0000 + b * 0x1_0000 + c * 0x100 + d;
    proof {
        lemma_octets_text(t, a as nat, b as nat, c as nat, d as nat);
        assert(ipv4_text(v) == t);
        let x = choose|x: u32| ipv4_text(x) == t;
        lemma_text_octets(x);
        lemma_from_octets(x);
        assert(x == v);
    }
    Some(v)
}

/// Whether every match names a player (group 1) and an address (group 2) that parses.
pub open spec fn logins_well_formed(caps: Seq<Seq<Option<Seq<char>>>>) -> bool {
    forall|i: int|
        0 <= i < caps.len() ==> {
            &&& #[trigger] caps[i].len() > 2
            &&& caps[i][1] is Some
            &&& caps[i][2] is Some
            &&& ipv4_parsed(caps[i][2]->0) is Some
        }
}

/// Who last logged in from each address: later matches override earlier ones.
pub open spec fn login_map(caps: Seq<Seq<Option<Seq<char>>>>) -> Map<u32, Seq<char>>
    decreases caps.len(),
{
    if caps.len() == 0 {
        Map::empty()
    } else {
        let last = caps.last();
        login_map(caps.drop_last()).insert(ipv4_parsed(last[2]->0)->0, last[1]->0)
    }
}

/// The table of names by address, viewed with the names as texts.
pub open spec fn table_view(t: Map<u32, String>) -> Map<u32, Seq<char>> {
    Map::new(|k: u32| t.dom().contains(k), |k: u32| t[k]@)
}

/// Builds the table of who last logged in from each address, or `None` where a match
/// lacks a name or an address that parses.
pub fn login_table(caps: &Vec<Vec<Option<String>>>) -> (r: Option<HashMap<u32, String>>)
    ensures
        match r {
            Some(t) => logins_well_formed(groups_view(caps@)) && table_view(t@) == login_map(groups_view(caps@)),
            None => !logins_well_formed(groups_view(caps@)),
        },
{
    broadcast use vstd::std_specs::hash::group_hash_axioms;
    let ghost g = groups_view(caps@);
    let mut table: HashMap<u32, String> = HashMap::new();
    let mut i: usize = 0;
    while i < caps.len()
        invariant
            i <= caps@.len(),
            g == groups_view(caps@),
            logins_well_formed(g.take(i as int)),
            table_view(table@) == login_map(g.take(i as int)),
        decreases caps.len() - i,
    {
        let groups = &caps[i];
        assert(g[i as int] == groups@.map_values(|m: Option<String>| match m {
            Some(t) => Some(t@),
            None => None,
        }));
        if groups.len() <= 2 {
            assert(!logins_well_formed(g)) by {
                assert(!(#[trigger] g[i as int].len() > 2));
            }
            return None;
        }
        let name = match &groups[1] {
            Some(n) => n,
            None => {
                assert(!logins_well_formed(g)) by {
                    assert(g[i as int][1] is None);
                }
                return None;
            },
        };
        let addr = match &groups[2] {
            Some(a) => a,
            None => {
                assert(!logins_well_formed(g)) by {
                    assert(g[i as int][2] is None);
                }
                return None;
            },
        };
        let ip = match parse_ipv4(addr.as_str()) {
            Some(ip) => ip,
            None => {
                assert(!logins_well_formed(g)) by {
                    assert(ipv4_parsed(g[i as int][2]->0) is None);
                }
                return None;
            },
        };
        table.insert(ip, name.clone());
        proof {
            let prefix = g.take(i + 1);
            assert(prefix.drop_last() =~= g.take(i as int));
            assert(prefix.last() == g[i as int]);
            assert(table_view(table@) =~= login_map(prefix));
            assert forall|k: int| 0 <= k < prefix.len() implies {
                &&& #[trigger] prefix[k].len() > 2
                &&& prefix[k][1] is Some
                &&& prefix[k][2] is Some
                &&& ipv4_parsed(prefix[k][2]->0) is Some
            } by {
                if k < i {
                    assert(prefix[k] == g.take(i as int)[k]);
                }
            }
        }
        i = i + 1;
    }
    assert(g.take(caps@.len() as int) =~= g);
    Some(table)
}

/// Whether `names` gives, address by address in `order`, the name `table` has for it.
pub open spec fn names_in_order(names: Seq<Seq<char>>, order: Seq<u32>, table: Map<u32, Seq<char>>) -> bool {
    &&& names.len() == order.len()
    &&& forall|i: int| 0 <= i < order.len() ==> #[trigger] names[i] == table[order[i]]
}

/// The name of the player behind each address heard, in the order the set yields them;
/// every address must be in the table.
pub fn names_for_players(ips: &HashSet<u32>, table: &HashMap<u32, String>) -> (r: Vec<String>)
    requires
        forall|ip: u32| #[trigger] ips@.contains(ip) ==> table@.dom().contains(ip),
    ensures
        names_in_order(strings_view(r@), spec_hash_keys_iter(ips).remaining().unref(), table_view(table@)),
{
    broadcast use vstd::std_specs::hash::group_hash_axioms;
    let mut names: Vec<String> = Vec::new();
    let ghost tv = table_view(table@);
    let ghost order = spec_hash_keys_iter(ips).remaining().unref();
    for ip in it: ips.iter()
        invariant
            it.seq().unref() == order,
            forall|ip: u32| #[trigger] ips@.contains(ip) ==> table@.dom().contains(ip),
            tv == table_view(table@),
            it.seq().unref().to_set() == ips@,
            it.seq().unref().no_duplicates(),
            names@.len() == it.index(),
            forall|i: int| 0 <= i < it.index() ==> #[trigger] names@[i]@ == tv[it.seq().unref()[i]],
    {
        assert(ips@.contains(*ip));
        let name = table.get(ip).unwrap();
        names.push(name.clone());
    }
    assert(strings_view(names@).len() == order.len());
    assert(forall|i: int| 0 <= i < order.len() ==> #[trigger] strings_view(names@)[i] == tv[order[i]]);
    names
}

/// The names of the players behind the addresses heard, from the server log: who last
/// logged in from each address, listed in the order the set yields them. `None` where a
/// login line in the log has an address that is not well-formed, or an address heard never
/// logged in.
pub fn get_ign(ips: &HashSet<u32>, log: &str) -> (r: Option<Vec<String>>)
    ensures
        regex_captures(LOGIN_PATTERN@, log@) matches Some(caps) && forall|i: int|
            0 <= i < caps.len() ==> {
                &&& #[trigger] caps[i].len() == 3
                &&& caps[i][1] is Some
                &&& caps[i][2] is Some
            },
        match regex_captures(LOGIN_PATTERN@, log@) {
            None => r is None,
            Some(caps) => if logins_well_formed(caps) && ips@.subset_of(login_map(caps).dom()) {
                r matches Some(v) && names_in_order(strings_view(v@), spec_hash_keys_iter(ips).remaining().unref(), login_map(caps))
            } else {
                r is None
            },
        },
{
    broadcast use vstd::std_specs::hash::group_hash_axioms;
    let caps = match captures_all(LOGIN_PATTERN, log) {
        Ok(c) => c,
        Err(_) => {
            return None;
        },
    };
    assert forall|i: int| 0 <= i < groups_view(caps@).len() implies {
        &&& #[trigger] groups_view(caps@)[i].len() == 3
        &&& groups_view(caps@)[i][1] is Some
        &&& groups_view(caps@)[i][2] is Some
    } by {
        assert(caps@[i]@.len() == 3);
    }
    let table = match login_table(&caps) {
        Some(t) => t,
        None => {
            return None;
        },
    };
    let ghost lm = login_map(groups_view(caps@));
    let ghost order = spec_hash_keys_iter(ips).remaining().unref();
    for ip in it: ips.iter()
        invariant
            it.seq().unref() == order,
            table_view(table@) == lm,
            lm == login_map(groups_view(caps@)),
            regex_captures(LOGIN_PATTERN@, log@) == Some(groups_view(caps@)),
            logins_well_formed(groups_view(caps@)),
            forall|i: int| 0 <= i < groups_view(caps@).len() ==> {
                &&& #[trigger] groups_view(caps@)[i].len() == 3
                &&& groups_view(caps@)[i][1] is Some
                &&& groups_view(caps@)[i][2] is Some
            },
            it.seq().unref().to_set() == ips@,
            forall|j: int| 0 <= j < it.index() ==> #[trigger] table@.dom().contains(it.seq().unref()[j]),
    {
        if !table.contains_key(ip) {
            assert(!ips@.subset_of(lm.dom())) by {
                assert(order[it.index()] == *ip);
                assert(order.to_set().contains(*ip));
                assert(!lm.dom().contains(*ip));
            }
            return None;
        }
    }
    assert(ips@.subset_of(lm.dom())) by {
        assert forall|ip: u32| ips@.contains(ip) implies lm.dom().contains(ip) by {
            assert(order.to_set().contains(ip));
            let j = choose|j: int| 0 <= j < order.len() && order[j] == ip;
            assert(table@.dom().contains(order[j]));
        }
    }
    Some(names_for_players(ips, &table))
}


/// What `String::from_utf8_lossy` makes of some bytes.
pub uninterp spec fn lossy_utf8(bytes: Seq<u8>) -> Seq<char>;

/// `String::from_utf8_lossy`. Claimed: the result is `lossy_utf8` of the bytes, and bytes
/// that are valid UTF-8 are decoded as they stand.
#[verifier::external_body]
fn utf8_lossy(bytes: &[u8]) -> (r: String)
    ensures
        r@ == lossy_utf8(bytes@),
        valid_utf8(bytes@) ==> r@ == decode_utf8(bytes@),
{
    String::from_utf8_lossy(bytes).into_owned()
}

/// Whether a process search found a process whose listing mentions `arg`: the search
/// succeeded and some line of its output contains `arg`.
pub fn is_process_running(succeeded: bool, stdout: &[u8], arg: &str) -> (r: bool)
    ensures
        r == (succeeded && exists|k: int|
            0 <= k < lines_of(lossy_utf8(stdout@)).len() && contains(
                #[trigger] lines_of(lossy_utf8(stdout@))[k],
                arg@,
            )),
{
    if !succeeded {
        return false;
    }
    let text = utf8_lossy(stdout);
    let chars = chars_of(text.as_str());
    let needle = chars_of(arg);
    some_line_contains(&chars, &needle)
}

/// The program the game server runs as, and what its command line mentions.
pub const SERVER_PROGRAM: &'static str = "java";
pub const SERVER_JAR: &'static str = "craftbukkit-1.21.jar";

/// A program to run, with its arguments.
pub struct CommandLine {
    pub program: String,
    pub args: Vec<String>,
}

/// How to start the game server: the programs to run in turn, the activity the bot shows
/// afterwards, and the reply.
pub struct StartPlan {
    pub commands: Vec<CommandLine>,
    pub activity: String,
    pub reply: String,
}

pub open spec fn command_line_view(c: CommandLine) -> (Seq<char>, Seq<Seq<char>>) {
    (c.program@, strings_view(c.args@))
}

/// The programs that start the game server: open a background terminal session, then run
/// the server's start script in it.
pub open spec fn start_commands() -> Seq<(Seq<char>, Seq<Seq<char>>)> {
    seq![
        ("zellij"@, seq!["attach"@, "--create-background"@, "servermine"@]),
        ("zellij"@, seq![
            "--session"@,
            "servermine"@,
            "run"@,
            "--in-place"@,
            "--"@,
            "sh"@,
            "/home/lucas/Desktop/testetetete/run.sh"@,
        ]),
    ]
}

/// The refusal when a server already runs.
pub open spec fn already_running_text() -> Seq<char> {
    "Somente uma inst\u{00E2}ncia do servidor \u{00E9} permitida."@
}

fn push_string(v: &mut Vec<String>, item: &str)
    ensures
        strings_view(final(v)@) == strings_view(old(v)@).push(item@),
{
    v.push(String::from_str(item));
    assert(strings_view(v@) =~= strings_view(old(v)@).push(item@));
}

/// Decides `start`: refuses when a server already runs, else says how to start one.
pub fn start(already_running: bool) -> (r: Result<StartPlan, String>)
    ensures
        already_running ==> (r matches Err(e) && e@ == already_running_text()),
        !already_running ==> (r matches Ok(plan) && plan.commands@.map_values(|c: CommandLine| command_line_view(c))
            == start_commands() && plan.activity@ == "Servidor aberto"@ && plan.reply@ == "Servidor iniciado"@),
{
    if already_running {
        return Err(String::from_str("Somente uma inst\u{00E2}ncia do servidor \u{00E9} permitida."));
    }
    let mut attach_args: Vec<String> = Vec::new();
    push_string(&mut attach_args, "attach");
    push_string(&mut attach_args, "--create-background");
    push_string(&mut attach_args, "servermine");
    let mut run_args: Vec<String> = Vec::new();
    push_string(&mut run_args, "--session");
    push_string(&mut run_args, "servermine");
    push_string(&mut run_args, "run");
    push_string(&mut run_args, "--in-place");
    push_string(&mut run_args, "--");
    push_string(&mut run_args, "sh");
    push_string(&mut run_args, "/home/lucas/Desktop/testetetete/run.sh");
    assert(strings_view(attach_args@) =~= start_commands()[0].1);
    assert(strings_view(run_args@) =~= start_commands()[1].1);
    let attach = CommandLine { program: String::from_str("zellij"), args: attach_args };
    let run = CommandLine { program: String::from_str("zellij"), args: run_args };
    let mut commands: Vec<CommandLine> = Vec::new();
    commands.push(attach);
    commands.push(run);
    let plan = StartPlan {
        commands,
        activity: String::from_str("Servidor aberto"),
        reply: String::from_str("Servidor iniciado"),
    };
    assert(plan.commands@.map_values(|c: CommandLine| command_line_view(c)) =~= start_commands());
    Ok(plan)
}

/// Shown with the answers about the server's address.
pub const FUWAMOCO: &'static str = "https://tenor.com/view/fuwamoco-fuwawa-mococo-%E3%83%95%E3%83%AF%E3%83%AF-%E3%83%A2%E3%82%B3%E3%82%B3-gif-17545042085204053426";

/// The answer about the server's address, given the public address if it could be found.
pub open spec fn server_ip_text(public_ip: Option<u32>) -> Seq<char> {
    match public_ip {
        None => "Erro retornando IP. "@ + FUWAMOCO@,
        Some(a) => "IP do servidor: `"@ + ipv4_text(a) + "`"@,
    }
}

/// The refusal for a user who may not see the address.
pub open spec fn ip_refused_text() -> Seq<char> {
    "Sem permiss\u{00E3}o seu BOSTA "@ + FUWAMOCO@
}

/// Answers the `ip` sub-command: the server's public address, for the two users allowed
/// to see it, and a refusal for anyone else.
pub fn get_server_ip(user: u64, allowed: (u64, u64), public_ip: Option<u32>) -> (r: Result<String, String>)
    ensures
        (user == allowed.0 || user == allowed.1) ==> (r matches Ok(t) && t@ == server_ip_text(public_ip)),
        !(user == allowed.0 || user == allowed.1) ==> (r matches Err(t) && t@ == ip_refused_text()),
{
    let ip = match public_ip {
        None => {
            let mut t = String::from_str("Erro retornando IP. ");
            t.append(FUWAMOCO);
            t
        },
        Some(a) => {
            let mut t = String::from_str("IP do servidor: `");
            push_ipv4(&mut t, a);
            t.append("`");
            t
        },
    };
    if user == allowed.0 || user == allowed.1 {
        Ok(ip)
    } else {
        let mut t = String::from_str("Sem permiss\u{00E3}o seu BOSTA ");
        t.append(FUWAMOCO);
        Err(t)
    }
}

/// What a `/servidor` request asks for.
#[derive(Clone, Copy, Debug, PartialEq, Eq, Structural)]
pub enum ServerRequest {
    Check,
    Start,
    /// The server's address, asked by `user`.
    Ip { user: u64 },
}

/// What a `/servidor` request made by `member` asks for, from its first option: the
/// sub-command `check`, `start` or `ip`; `stop` is not implemented; anything else, or an
/// option that is not text, or no option, is refused.
pub fn run(member: u64, options: &Vec<CommandOption>) -> (r: Result<ServerRequest, String>)
    ensures
        match if options@.len() > 0 { Some(options@[0].value) } else { None } {
            Some(OptionValue::Text(s)) => match server_option_named(s@) {
                Some(ServerOption::Check) => r == Ok::<ServerRequest, String>(ServerRequest::Check),
                Some(ServerOption::Start) => r == Ok::<ServerRequest, String>(ServerRequest::Start),
                Some(ServerOption::Ip) => r == Ok::<ServerRequest, String>(ServerRequest::Ip { user: member }),
                Some(ServerOption::Stop) => r matches Err(e) && e@ == "Not implemented"@,
                None => r matches Err(e) && e@ == "Invalid option"@,
            },
            _ => r matches Err(e) && e@ == "No option"@,
        },
{
    if options.len() == 0 {
        return Err(String::from_str("No option"));
    }
    match &options[0].value {
        OptionValue::Text(s) => match ServerOption::from_name(s.as_str()) {
            Some(ServerOption::Check) => Ok(ServerRequest::Check),
            Some(ServerOption::Start) => Ok(ServerRequest::Start),
            Some(ServerOption::Stop) => Err(String::from_str("Not implemented")),
            Some(ServerOption::Ip) => Ok(ServerRequest::Ip { user: member }),
            None => Err(String::from_str("Invalid option")),
        },
        _ => Err(String::from_str("No option")),
    }
}

/// The `/servidor` command as registered.
pub open spec fn server_command() -> CommandSpecView {
    CommandSpecView {
        name: "servidor"@,
        description: "Checar status do servidor"@,
        options: seq![
            OptionSpecView {
                kind: OptionKind::Text,
                name: "action"@,
                description: "action related to the server"@,
                required: true,
                choices: seq![
                    ("start"@, "start"@),
                    ("check"@, "check"@),
                    ("stop"@, "stop"@),
                    ("ip"@, "ip"@),
                ],
            },
        ],
    }
}

fn choice_of(o: ServerOption) -> (r: (String, String))
    ensures
        r.0@ == server_option_name(o),
        r.1@ == server_option_name(o),
{
    (o.name(), o.name())
}

/// Declares `/servidor` with its one required choice of sub-command.
pub fn register() -> (r: CommandSpec)
    ensures
        r@ == server_command(),
{
    let mut choices: Vec<(String, String)> = Vec::new();
    choices.push(choice_of(ServerOption::Start));
    choices.push(choice_of(ServerOption::Check));
    choices.push(choice_of(ServerOption::Stop));
    choices.push(choice_of(ServerOption::Ip));
    let action = OptionSpec {
        kind: OptionKind::Text,
        name: String::from_str("action"),
        description: String::from_str("action related to the server"),
        required: true,
        choices,
    };
    let mut options: Vec<OptionSpec> = Vec::new();
    options.push(action);
    let r = CommandSpec {
        name: String::from_str("servidor"),
        description: String::from_str("Checar status do servidor"),
        options,
    };
    assert(choices_view(choices@) =~= server_command().options[0].choices);
    assert(r@.options =~= server_command().options);
    r
}


/// Each sub-command is known by its name, and every choice `/servidor` offers is a
/// sub-command that reading the request knows.
pub proof fn law_offered_actions_known()
    ensures
        forall|o: ServerOption| server_option_named(#[trigger] server_option_name(o)) == Some(o),
        forall|i: int|
            0 <= i < server_command().options[0].choices.len() ==> server_option_named(
                #[trigger] server_command().options[0].choices[i].1,
            ) is Some,
{
    reveal_strlit("check");
    reveal_strlit("start");
    reveal_strlit("stop");
    reveal_strlit("ip");
    assert("start"@[0] != "check"@[0]);
    assert("stop"@[0] != "check"@[0]);
    assert("stop"@.len() != "start"@.len());
    assert("ip"@[0] != "check"@[0]);
    assert("ip"@[0] != "start"@[0]);
    assert("ip"@[0] != "stop"@[0]);
    assert forall|i: int| 0 <= i < server_command().options[0].choices.len() implies server_option_named(
        #[trigger] server_command().options[0].choices[i].1,
    ) is Some by {
        assert(server_command().options[0].choices[i].1 == server_option_name(
            if i == 0 {
                ServerOption::Start
            } else if i == 1 {
                ServerOption::Check
            } else if i == 2 {
                ServerOption::Stop
            } else {
                ServerOption::Ip
            },
        ));
    }
}

/// The address recorded from a captured frame prints as the frame's source bytes, in
/// order, separated by dots.
pub proof fn law_recorded_address_prints_as_frame(frame: Seq<u8>)
    requires
        frame.len() >= 34,
    ensures
        ipv4_text(frame_source(frame)) == decimal(frame[26] as nat) + "."@ + decimal(frame[27] as nat) + "."@
            + decimal(frame[28] as nat) + "."@ + decimal(frame[29] as nat),
{
    lemma_octets_of(frame[26] as int, frame[27] as int, frame[28] as int, frame[29] as int);
    assert(frame_source(frame) as int == frame[26] as int * 0x100_0000 + frame[27] as int * 0x1_0000
        + frame[28] as int * 0x100 + frame[29] as int);
}

/// The names `get_ign` finds are one for each address heard, so they can always be
/// handed to `check` with those addresses, and every address heard has its name among them.
pub proof fn law_one_name_per_address(names: Seq<Seq<char>>, ips: &HashSet<u32>, table: Map<u32, Seq<char>>)
    requires
        names_in_order(names, spec_hash_keys_iter(ips).remaining().unref(), table),
    ensures
        names.len() == ips@.len(),
        forall|ip: u32| #[trigger] ips@.contains(ip) ==> exists|i: int| 0 <= i < names.len() && names[i] == table[ip],
{
    vstd::std_specs::hash::axiom_spec_hash_keys_iter(ips);
    let order = spec_hash_keys_iter(ips).remaining().unref();
    assert forall|ip: u32| #[trigger] ips@.contains(ip) implies exists|i: int| 0 <= i < names.len() && names[i] == table[ip] by {
        assert(order.to_set().contains(ip));
        let j = choose|j: int| 0 <= j < order.len() && order[j] == ip;
        assert(names[j] == table[order[j]]);
    }
}

} // verus!
