//! Editing the settings from the settings form: what each field's input
//! does to the configuration, and how the list of DNS server addresses is
//! shown and read back.

use vstd::prelude::*;

use crate::dns::resolver::{dns_type_named, string_views, DnsType};
use crate::text::{
    decimal_text,
    is_white_space, skip_white_space, trim_end, chars_of, find_char, find_char_exec, parse_unsigned, parse_unsigned_exec, push_char,
    trimmed, trimmed_string, copy_chars,
};
use crate::{AppConfig, AppSettings};

verus! {

/// The server addresses typed into the comma-separated field `s`, from index
/// `i` on: split at commas, each part trimmed of white space, empty parts
/// left out.
pub open spec fn ip_list_from(s: Seq<char>, i: int) -> Seq<Seq<char>>
    decreases s.len() - i,
    when 0 <= i <= s.len()
{
    let c = find_char(s, i, s.len() as int, ',');
    let part = trimmed(s.subrange(i, c));
    let rest = if c < s.len() {
        proof {
            crate::text::lemma_find_char_bounds(s, i, s.len() as int, ',');
        }
        ip_list_from(s, c + 1)
    } else {
        seq![]
    };
    if part.len() == 0 {
        rest
    } else {
        seq![part] + rest
    }
}

/// The server addresses typed into a comma-separated field.
pub open spec fn ip_list(s: Seq<char>) -> Seq<Seq<char>> {
    ip_list_from(s, 0)
}

/// Reads the server addresses from a comma-separated field.
pub fn parse_ip_list(text: &str) -> (r: Vec<String>)
    ensures
        string_views(r@) == ip_list(text@),
{
    let chars = chars_of(text);
    let len = chars.len();
    let mut result: Vec<String> = Vec::new();
    let mut i: usize = 0;
    assert(string_views(result@) =~= Seq::<Seq<char>>::empty());
    loop
        invariant
            i <= len == chars@.len(),
            chars@ == text@,
            string_views(result@) + ip_list_from(chars@, i as int) == ip_list(chars@),
        decreases len - i,
    {
        let c = find_char_exec(&chars, i, len, ',');
        let part = copy_chars(&chars, i, c);
        let trimmed_part = trimmed_string(&part);
        let ghost before = string_views(result@);
        let ghost rest = if c < len {
            ip_list_from(chars@, c + 1)
        } else {
            seq![]
        };
        assert(ip_list_from(chars@, i as int) == if trimmed_part@.len() == 0 {
            rest
        } else {
            seq![trimmed_part@] + rest
        });
        if !trimmed_part.as_str().is_empty() {
            result.push(trimmed_part);
            assert(string_views(result@) =~= before.push(trimmed_part@));
            assert(before + (seq![trimmed_part@] + rest) =~= string_views(result@) + rest);
        }
        if c < len {
            i = c + 1;
        } else {
            assert(string_views(result@) + Seq::<Seq<char>>::empty() =~= string_views(result@));
            return result;
        }
    }
}

/// The server addresses as the field shows them: joined with `, `.
pub open spec fn ip_list_text(ips: Seq<Seq<char>>) -> Seq<char>
    decreases ips.len(),
{
    if ips.len() == 0 {
        seq![]
    } else if ips.len() == 1 {
        ips[0]
    } else {
        ip_list_text(ips.drop_last()) + ", "@ + ips.last()
    }
}

/// Shows the server addresses in the comma-separated field.
pub fn format_ip_list(ips: &Vec<String>) -> (r: String)
    ensures
        r@ == ip_list_text(string_views(ips@)),
{
    let mut out = String::new();
    let mut i: usize = 0;
    while i < ips.len()
        invariant
            i <= ips@.len(),
            out@ == ip_list_text(string_views(ips@).take(i as int)),
        decreases ips@.len() - i,
    {
        let ghost views = string_views(ips@);
        if i > 0 {
            out.append(", ");
        }
        out.append(ips[i].as_str());
        proof {
            assert(views.take(i + 1).drop_last() =~= views.take(i as int));
            if i == 0 {
                assert(Seq::<char>::empty() + views[0] =~= views[0]);
            }
        }
        i = i + 1;
    }
    assert(string_views(ips@).take(ips@.len() as int) =~= string_views(ips@));
    out
}

/// Whether `ip` can stand in the comma-separated field and be read back as
/// itself: not empty, no comma, no white space at either end.
pub open spec fn listable_address(ip: Seq<char>) -> bool {
    &&& ip.len() > 0
    &&& !ip.contains(',')
    &&& !is_white_space(ip[0])
    &&& !is_white_space(ip.last())
}

/// Reading back the field that shows a list of addresses gives the list
/// again, when every address is non-empty, holds no comma and has no white
/// space at either end.
pub proof fn lemma_ip_list_round_trip(ips: Seq<Seq<char>>)
    requires
        forall|k: int| 0 <= k < ips.len() ==> listable_address(#[trigger] ips[k]),
    ensures
        ip_list(ip_list_text(ips)) == ips,
{
    let t = ip_list_text(ips);
    if ips.len() == 0 {
        assert(ip_list_from(t, 0) =~= Seq::<Seq<char>>::empty()) by {
            crate::text::lemma_find_char_bounds(t, 0, 0, ',');
            assert(trimmed(t.subrange(0, 0)).len() == 0);
        }
    } else {
        assert(t.subrange(0, t.len() as int) =~= Seq::<char>::empty() + t);
        lemma_ip_list_from_text(t, 0, Seq::<char>::empty(), ips);
    }
}

/// `ip_list_text` seen from the front: the first address, then `, ` and the
/// text of the others.
proof fn lemma_ip_list_text_front(ips: Seq<Seq<char>>)
    requires
        ips.len() >= 1,
    ensures
        ips.len() == 1 ==> ip_list_text(ips) == ips[0],
        ips.len() >= 2 ==> ip_list_text(ips) == ips[0] + ", "@ + ip_list_text(ips.drop_first()),
    decreases ips.len(),
{
    if ips.len() >= 3 {
        let dl = ips.drop_last();
        let df = ips.drop_first();
        lemma_ip_list_text_front(dl);
        assert(dl.drop_first() =~= df.drop_last());
        assert(df.last() == ips.last());
        assert(dl[0] == ips[0]);
        assert(ip_list_text(ips) == ip_list_text(dl) + ", "@ + ips.last());
        assert(ip_list_text(df) == ip_list_text(df.drop_last()) + ", "@ + df.last());
        assert(ip_list_text(ips) =~= ips[0] + ", "@ + ip_list_text(df));
    } else if ips.len() == 2 {
        let dl = ips.drop_last();
        let df = ips.drop_first();
        assert(dl =~= seq![ips[0]]);
        assert(df =~= seq![ips[1]]);
        assert(ip_list_text(dl) == ips[0]);
        assert(ip_list_text(df) == ips[1]);
    }
}

/// Reading the field from `i` on, where `pad` (white space only) and then
/// the text of `ips` begin, gives `ips`.
#[verifier::spinoff_prover]
#[verifier::rlimit(50)]
proof fn lemma_ip_list_from_text(s: Seq<char>, i: int, pad: Seq<char>, ips: Seq<Seq<char>>)
    requires
        0 <= i <= s.len(),
        ips.len() >= 1,
        s.subrange(i, s.len() as int) == pad + ip_list_text(ips),
        forall|k: int| 0 <= k < pad.len() ==> is_white_space(#[trigger] pad[k]),
        forall|k: int| 0 <= k < ips.len() ==> listable_address(#[trigger] ips[k]),
    ensures
        ip_list_from(s, i) == ips,
    decreases ips.len(),
{
    reveal_strlit(", ");
    reveal_strlit(" ");
    lemma_ip_list_text_front(ips);
    let x = ips[0];
    assert(listable_address(x));
    let tail = if ips.len() == 1 {
        Seq::<char>::empty()
    } else {
        ", "@ + ip_list_text(ips.drop_first())
    };
    assert(ip_list_text(ips) =~= x + tail);
    let u = s.subrange(i, s.len() as int);
    assert(u =~= (pad + x) + tail);
    let j = i + pad.len() + x.len();
    assert forall|k: int| i <= k < j implies #[trigger] s[k] != ',' by {
        assert(s[k] == u[k - i]);
        assert(u[k - i] == (pad + x)[k - i]);
        if k - i >= pad.len() {
            assert((pad + x)[k - i] == x[k - i - pad.len()]);
            if s[k] == ',' {
                assert(x.contains(','));
            }
        } else {
            assert((pad + x)[k - i] == pad[k - i]);
            assert(is_white_space(pad[k - i]));
        }
    }
    if ips.len() == 1 {
        assert(j == s.len());
        lemma_find_char_none(s, i, s.len() as int, ',');
    } else {
        assert(s[j] == u[j - i]);
        assert(u[j - i] == tail[0]);
        assert(s[j] == ',');
        lemma_find_char_found(s, i, j, s.len() as int, ',');
    }
    let c = find_char(s, i, s.len() as int, ',');
    assert(c == j);
    assert(s.subrange(i, c) =~= pad + x);
    lemma_trimmed_padded(pad, x);
    if ips.len() >= 2 {
        let rest = ips.drop_first();
        assert(", "@.len() == 2 && ", "@[1] == ' ' && " "@.len() == 1 && " "@[0] == ' ');
        assert(tail.skip(1) =~= " "@ + ip_list_text(rest));
        assert(s.subrange(j + 1, s.len() as int) =~= u.skip(j + 1 - i));
        assert(u.skip(j + 1 - i) =~= tail.skip(1));
        assert forall|k: int| 0 <= k < rest.len() implies listable_address(#[trigger] rest[k]) by {
            assert(rest[k] == ips[k + 1]);
        }
        assert forall|k: int| 0 <= k < " "@.len() implies is_white_space(#[trigger] " "@[k]) by {}
        lemma_ip_list_from_text(s, j + 1, " "@, rest);
        assert(seq![x] + rest =~= ips);
    } else {
        assert(seq![x] + Seq::<Seq<char>>::empty() =~= ips);
    }
}

proof fn lemma_find_char_none(s: Seq<char>, i: int, end: int, c: char)
    requires
        i <= end,
        forall|k: int| i <= k < end ==> #[trigger] s[k] != c,
    ensures
        find_char(s, i, end, c) == end,
    decreases end - i,
{
    if i < end {
        lemma_find_char_none(s, i + 1, end, c);
    }
}

proof fn lemma_find_char_found(s: Seq<char>, i: int, j: int, end: int, c: char)
    requires
        i <= j < end,
        forall|k: int| i <= k < j ==> #[trigger] s[k] != c,
        s[j] == c,
    ensures
        find_char(s, i, end, c) == j,
    decreases j - i,
{
    if i < j {
        lemma_find_char_found(s, i + 1, j, end, c);
    }
}

/// Trimming white space off `pad + x` leaves `x` when `x` has none at either end.
proof fn lemma_trimmed_padded(pad: Seq<char>, x: Seq<char>)
    requires
        forall|k: int| 0 <= k < pad.len() ==> is_white_space(#[trigger] pad[k]),
        x.len() > 0,
        !is_white_space(x[0]),
        !is_white_space(x.last()),
    ensures
        trimmed(pad + x) == x,
{
    let t = pad + x;
    lemma_skip_padding(t, 0, pad.len() as int, t.len() as int);
    let a = pad.len() as int;
    assert(t[t.len() - 1] == x.last());
    assert(trim_end(t, a, t.len() as int) == t.len());
    assert(t.subrange(a, t.len() as int) =~= x);
}

proof fn lemma_skip_padding(t: Seq<char>, i: int, p: int, end: int)
    requires
        0 <= i <= p < end <= t.len(),
        forall|k: int| i <= k < p ==> is_white_space(#[trigger] t[k]),
        !is_white_space(t[p]),
    ensures
        skip_white_space(t, i, end) == p,
    decreases p - i,
{
    if i < p {
        lemma_skip_padding(t, i + 1, p, end);
    }
}

/// One edit made in the settings form.
#[derive(Debug)]
pub enum SettingEdit {
    /// The text typed as the proxy's listening port.
    ProxyPort(String),
    /// The log level chosen.
    LogLevel(String),
    HttpsOnly(bool),
    TlsRecordFragmentation(bool),
    /// The text typed as the fragment size.
    FragmentationSize(String),
    /// The name of the DNS transport chosen.
    DnsType(String),
    /// The text typed as the DNS server URL.
    ServerUrl(String),
    /// The text typed as the comma-separated DNS server addresses.
    ServerIps(String),
    /// The text typed as the DNS servers' port.
    DnsPort(String),
    /// The text typed as the DNS cache size.
    CacheSize(String),
}

/// The settings after `edit`: numbers that do not read as numbers of their
/// field's type leave the field as it was; an unknown DNS transport name
/// selects plain DNS.
pub open spec fn edited(config: AppSettings, edit: SettingEdit) -> AppSettings {
    match edit {
        SettingEdit::ProxyPort(s) => match parse_unsigned(s@, 65535) {
            Some(v) => AppSettings { proxy_port: v as u16, ..config },
            None => config,
        },
        SettingEdit::LogLevel(s) => AppSettings { log_level: s@, ..config },
        SettingEdit::HttpsOnly(b) => AppSettings { https_only: b, ..config },
        SettingEdit::TlsRecordFragmentation(b) => AppSettings {
            tls_record_fragmentation: b,
            ..config
        },
        SettingEdit::FragmentationSize(s) => match parse_unsigned(s@, usize::MAX as nat) {
            Some(v) => AppSettings { fragmentation_size: v as usize, ..config },
            None => config,
        },
        SettingEdit::DnsType(s) => AppSettings {
            dns: crate::dns::resolver::DnsSettings {
                dns_type: match dns_type_named(s@) {
                    Some(t) => t,
                    None => DnsType::Unencrypted,
                },
                ..config.dns
            },
            ..config
        },
        SettingEdit::ServerUrl(s) => AppSettings {
            dns: crate::dns::resolver::DnsSettings { server_url: s@, ..config.dns },
            ..config
        },
        SettingEdit::ServerIps(s) => AppSettings {
            dns: crate::dns::resolver::DnsSettings { ips: ip_list(s@), ..config.dns },
            ..config
        },
        SettingEdit::DnsPort(s) => match parse_unsigned(s@, 65535) {
            Some(v) => AppSettings {
                dns: crate::dns::resolver::DnsSettings { port: v as u16, ..config.dns },
                ..config
            },
            None => config,
        },
        SettingEdit::CacheSize(s) => match parse_unsigned(s@, u64::MAX as nat) {
            Some(v) => AppSettings {
                dns: crate::dns::resolver::DnsSettings { cache_size: v as u64, ..config.dns },
                ..config
            },
            None => config,
        },
    }
}

/// A switch in the form sets its setting to the switch's state, whatever the
/// setting was, and touches nothing else; so does choosing a log level or
/// typing a server URL.
pub proof fn lemma_switch_edits(config: AppSettings, b: bool, text: String)
    ensures
        edited(config, SettingEdit::HttpsOnly(b)).https_only == b,
        edited(config, SettingEdit::HttpsOnly(b)) == (AppSettings { https_only: b, ..config }),
        edited(config, SettingEdit::TlsRecordFragmentation(b)).tls_record_fragmentation == b,
        edited(config, SettingEdit::TlsRecordFragmentation(b)) == (AppSettings {
            tls_record_fragmentation: b,
            ..config
        }),
        edited(config, SettingEdit::LogLevel(text)).log_level == text@,
        edited(config, SettingEdit::ServerUrl(text)).dns.server_url == text@,
        edited(config, SettingEdit::ServerUrl(text)).dns.ips == config.dns.ips,
{
}

/// A typed number that reads as a number of its field's type is what the
/// field holds afterwards; any other text leaves the settings as they were.
/// Every port from 0 to 65535 can be typed.
pub proof fn lemma_number_edits(config: AppSettings, text: String, p: u16)
    ensures
        parse_unsigned(text@, 65535) is None ==> edited(config, SettingEdit::ProxyPort(text))
            == config && edited(config, SettingEdit::DnsPort(text)) == config,
        parse_unsigned(text@, 65535) matches Some(v) ==> edited(
            config,
            SettingEdit::ProxyPort(text),
        ).proxy_port == v && edited(config, SettingEdit::DnsPort(text)).dns.port == v,
        text@ == decimal_text(p as nat) ==> edited(config, SettingEdit::ProxyPort(text)).proxy_port
            == p,
        parse_unsigned(text@, usize::MAX as nat) matches Some(v) ==> edited(
            config,
            SettingEdit::FragmentationSize(text),
        ).fragmentation_size == v,
        parse_unsigned(text@, u64::MAX as nat) matches Some(v) ==> edited(
            config,
            SettingEdit::CacheSize(text),
        ).dns.cache_size == v,
{
    if text@ == decimal_text(p as nat) {
        crate::text::lemma_decimal_round_trip(p as nat, 65535);
    }
}

/// Reads `s` as an unsigned number no larger than `max`.
fn parse_number(s: &String, max: u64) -> (r: Option<u64>)
    ensures
        match r {
            Some(v) => parse_unsigned(s@, max as nat) == Some(v as nat),
            None => parse_unsigned(s@, max as nat) is None,
        },
{
    let chars = chars_of(s.as_str());
    assert(chars@.subrange(0, chars@.len() as int) =~= chars@);
    parse_unsigned_exec(&chars, 0, chars.len(), max)
}

/// Applies one edit from the settings form to the draft configuration.
pub fn apply_setting_edit(config: &mut AppConfig, edit: SettingEdit)
    ensures
        final(config)@ == edited(old(config)@, edit),
{
    match edit {
        SettingEdit::ProxyPort(s) => {
            if let Some(v) = parse_number(&s, 65535) {
                config.proxy_port = v as u16;
            }
        },
        SettingEdit::LogLevel(s) => {
            config.log_level = s;
        },
        SettingEdit::HttpsOnly(b) => {
            config.https_only = b;
        },
        SettingEdit::TlsRecordFragmentation(b) => {
            config.tls_record_fragmentation = b;
        },
        SettingEdit::FragmentationSize(s) => {
            if let Some(v) = parse_number(&s, usize::MAX as u64) {
                config.fragmentation_size = v as usize;
            }
        },
        SettingEdit::DnsType(s) => {
            config.dns.dns_type = match DnsType::parse(s.as_str()) {
                Some(t) => t,
                None => DnsType::Unencrypted,
            };
        },
        SettingEdit::ServerUrl(s) => {
            config.dns.server_url = s;
        },
        SettingEdit::ServerIps(s) => {
            config.dns.ips = parse_ip_list(s.as_str());
        },
        SettingEdit::DnsPort(s) => {
            if let Some(v) = parse_number(&s, 65535) {
                config.dns.port = v as u16;
            }
        },
        SettingEdit::CacheSize(s) => {
            if let Some(v) = parse_number(&s, u64::MAX) {
                config.dns.cache_size = v;
            }
        },
    }
}

} // verus!
