//! The network monitor module: interface, address, Wi-Fi, traffic.
use vstd::prelude::*;

use crate::localtime::{is_hms, local_hms};
use crate::module_trait::{ModuleUpdate, PanelModule};
use crate::modules::system_info::field_u64;
use crate::number::{
    decimal_spec, digit_char, digit_to_char, f64_of, f64_of_exec, half_even_div,
    half_even_div_exec, parse_u64, push_decimal,
};
use crate::text::{
    chars_of, contains, contains_spec, find, find_spec, lines, lines_spec, sep_of, slice_of,
    split_on, split_spec, split_whitespace, split_ws_spec, starts_with, starts_with_spec, str_eq,
    string_of, trim, trim_end_char, trim_end_char_spec, trim_spec, views,
};

verus! {

broadcast use vstd::seq_lib::group_to_multiset_ensures;

/// The order of `String`: byte-wise over UTF-8, which orders as the code
/// points do, so it is the lexicographic order of the characters.
pub open spec fn chars_le(a: Seq<char>, b: Seq<char>) -> bool
    decreases a.len(),
{
    if a.len() == 0 {
        true
    } else if b.len() == 0 {
        false
    } else if (a[0] as int) < (b[0] as int) {
        true
    } else if a[0] != b[0] {
        false
    } else {
        chars_le(a.skip(1), b.skip(1))
    }
}

pub proof fn lemma_chars_le_total(a: Seq<char>, b: Seq<char>)
    ensures
        chars_le(a, b) || chars_le(b, a),
    decreases a.len(),
{
    if a.len() > 0 && b.len() > 0 && a[0] == b[0] {
        lemma_chars_le_total(a.skip(1), b.skip(1));
    }
}

pub proof fn lemma_chars_le_trans(a: Seq<char>, b: Seq<char>, c: Seq<char>)
    requires
        chars_le(a, b),
        chars_le(b, c),
    ensures
        chars_le(a, c),
    decreases a.len(),
{
    if a.len() > 0 && b.len() > 0 && c.len() > 0 && a[0] == b[0] && b[0] == c[0] {
        lemma_chars_le_trans(a.skip(1), b.skip(1), c.skip(1));
    }
}

/// Whether `a` comes no later than `b` in the order of `String`.
pub fn chars_le_exec(a: &Vec<char>, b: &Vec<char>) -> (r: bool)
    ensures
        r == chars_le(a@, b@),
{
    let mut i: usize = 0;
    assert(a@.skip(0) =~= a@ && b@.skip(0) =~= b@);
    while i < a.len()
        invariant
            i <= a.len(),
            i <= b.len(),
            chars_le(a@, b@) == chars_le(a@.skip(i as int), b@.skip(i as int)),
        decreases a.len() - i,
    {
        if i == b.len() {
            return false;
        }
        let x = a[i];
        let y = b[i];
        assert(a@.skip(i as int)[0] == x && b@.skip(i as int)[0] == y);
        if x < y {
            return true;
        }
        if x != y {
            return false;
        }
        assert(a@.skip(i as int).skip(1) =~= a@.skip(i + 1));
        assert(b@.skip(i as int).skip(1) =~= b@.skip(i + 1));
        i = i + 1;
    }
    true
}

/// The texts of a list of strings.
pub open spec fn texts(v: Seq<String>) -> Seq<Seq<char>> {
    v.map_values(|s: String| s@)
}

/// Every name comes no later than the ones after it.
pub open spec fn is_sorted(s: Seq<Seq<char>>) -> bool {
    forall|i: int, j: int| 0 <= i < j < s.len() ==> chars_le(#[trigger] s[i], #[trigger] s[j])
}

/// Every name but `lo`.
pub open spec fn not_loopback(s: Seq<Seq<char>>) -> Seq<Seq<char>> {
    s.filter(|n: Seq<char>| n != "lo"@)
}

proof fn lemma_insert_multiset<A>(s: Seq<A>, pos: int, x: A)
    requires
        0 <= pos <= s.len(),
    ensures
        s.insert(pos, x).to_multiset() =~= s.to_multiset().insert(x),
{
    let t = s.insert(pos, x);
    assert(t.remove(pos) =~= s);
    assert(t[pos] == x);
    assert(t.to_multiset().remove(x) =~= s.to_multiset());
    assert(t.contains(x));
    assert(t.to_multiset().count(x) > 0);
}

/// The network interfaces among the names in `/sys/class/net`: all but the
/// loopback `lo`, sorted.
pub fn interface_list(names: Vec<String>) -> (r: Vec<String>)
    ensures
        is_sorted(texts(r@)),
        texts(r@).to_multiset() == not_loopback(texts(names@)).to_multiset(),
{
    let ghost all = texts(names@);
    let ghost keep = |n: Seq<char>| n != "lo"@;
    let mut out: Vec<String> = Vec::new();
    let mut i: usize = 0;
    while i < names.len()
        invariant
            i <= names.len(),
            all == texts(names@),
            keep == (|n: Seq<char>| n != "lo"@),
            is_sorted(texts(out@)),
            texts(out@).to_multiset() == all.take(i as int).filter(keep).to_multiset(),
        decreases names.len() - i,
    {
        proof {
            assert(all.take(i + 1) =~= all.take(i as int).push(all[i as int]));
            all.take(i as int).lemma_filter_push(all[i as int], keep);
        }
        let name = &names[i];
        assert(name@ == all[i as int]);
        if !str_eq(name.as_str(), "lo") {
            let nc = chars_of(name.as_str());
            let mut pos: usize = 0;
            while pos < out.len()
                invariant
                    pos <= out.len(),
                    nc@ == name@,
                    forall|k: int| 0 <= k < pos ==> chars_le(#[trigger] texts(out@)[k], nc@),
                ensures
                    pos <= out.len(),
                    forall|k: int| 0 <= k < pos ==> chars_le(#[trigger] texts(out@)[k], nc@),
                    pos < out.len() ==> !chars_le(texts(out@)[pos as int], nc@),
                decreases out.len() - pos,
            {
                let oc = chars_of(out[pos].as_str());
                if !chars_le_exec(&oc, &nc) {
                    break;
                }
                pos = pos + 1;
            }
            let ghost before = texts(out@);
            proof {
                if pos < before.len() {
                    lemma_chars_le_total(before[pos as int], nc@);
                }
            }
            out.insert(pos, name.clone());
            proof {
                assert(texts(out@) =~= before.insert(pos as int, name@));
                lemma_insert_multiset(before, pos as int, name@);
                assert forall|a: int, b: int| 0 <= a < b < texts(out@).len() implies chars_le(
                    #[trigger] texts(out@)[a],
                    #[trigger] texts(out@)[b],
                ) by {
                    let t = texts(out@);
                    if b < pos {
                        assert(t[a] == before[a] && t[b] == before[b]);
                    } else if b == pos {
                        assert(t[a] == before[a]);
                    } else if a == pos {
                        assert(t[b] == before[b - 1]);
                        if b - 1 > pos {
                            assert(chars_le(before[pos as int], before[b - 1]));
                            lemma_chars_le_trans(nc@, before[pos as int], before[b - 1]);
                        }
                    } else if a < pos {
                        assert(t[a] == before[a] && t[b] == before[b - 1]);
                    } else {
                        assert(t[a] == before[a - 1] && t[b] == before[b - 1]);
                    }
                }
            }
        }
        i = i + 1;
    }
    assert(all.take(names.len() as int) =~= all);
    out
}

/// The first name from `i` on that starts with `p` or with `q`.
pub open spec fn first_with(s: Seq<Seq<char>>, p: Seq<char>, q: Seq<char>, i: int) -> Option<Seq<char>>
    decreases s.len() - i,
{
    if i < 0 || i >= s.len() {
        None
    } else if starts_with_spec(s[i], p) || starts_with_spec(s[i], q) {
        Some(s[i])
    } else {
        first_with(s, p, q, i + 1)
    }
}

/// The interface chosen when none is given: the first wireless one
/// (`wlan…`, `wl…`), else the first wired one (`eth…`, `en…`), else the first
/// one, else `eth0`.
pub open spec fn default_interface_spec(s: Seq<Seq<char>>) -> Seq<char> {
    match first_with(s, "wlan"@, "wl"@, 0) {
        Some(n) => n,
        None => match first_with(s, "eth"@, "en"@, 0) {
            Some(n) => n,
            None => if s.len() > 0 {
                s[0]
            } else {
                "eth0"@
            },
        },
    }
}

fn first_with_exec(s: &Vec<String>, p: &str, q: &str) -> (r: Option<String>)
    ensures
        match r {
            Some(n) => first_with(texts(s@), p@, q@, 0) == Some(n@),
            None => first_with(texts(s@), p@, q@, 0) is None,
        },
{
    let pc = chars_of(p);
    let qc = chars_of(q);
    let ghost t = texts(s@);
    let mut i: usize = 0;
    while i < s.len()
        invariant
            i <= s.len(),
            t == texts(s@),
            pc@ == p@,
            qc@ == q@,
            first_with(t, p@, q@, 0) == first_with(t, p@, q@, i as int),
        decreases s.len() - i,
    {
        let c = chars_of(s[i].as_str());
        assert(c@ == t[i as int]);
        if starts_with(&c, &pc) || starts_with(&c, &qc) {
            return Some(s[i].clone());
        }
        i = i + 1;
    }
    None
}

/// The interface to watch when none is given.
pub fn get_default_interface(interfaces: &Vec<String>) -> (r: String)
    ensures
        r@ == default_interface_spec(texts(interfaces@)),
{
    match first_with_exec(interfaces, "wlan", "wl") {
        Some(n) => n,
        None => match first_with_exec(interfaces, "eth", "en") {
            Some(n) => n,
            None => if interfaces.len() > 0 {
                interfaces[0].clone()
            } else {
                "eth0".to_owned()
            },
        },
    }
}

/// The byte counters of one interface.
#[derive(Debug, Clone, Copy, PartialEq, Eq, Structural)]
pub struct NetStats {
    pub rx_bytes: u64,
    pub tx_bytes: u64,
}

/// The counters on the `/proc/net/dev` line of `iface`, looking from line `i`
/// on: the first line that splits at `:` into exactly two parts, the first
/// of which is `iface` once trimmed. Its whitespace-separated fields give the
/// received bytes (field 0) and the sent bytes (field 8) when there are at
/// least ten of them; a field that is not a number counts as 0.
pub open spec fn net_dev_from(ls: Seq<Seq<char>>, iface: Seq<char>, i: int) -> NetStats
    decreases ls.len() - i,
{
    if i < 0 || i >= ls.len() {
        NetStats { rx_bytes: 0, tx_bytes: 0 }
    } else {
        let parts = split_spec(ls[i], sep_of(':', false));
        if parts.len() == 2 && trim_spec(parts[0]) == iface {
            let v = split_ws_spec(parts[1]);
            if v.len() >= 10 {
                NetStats { rx_bytes: field_u64(v, 0), tx_bytes: field_u64(v, 8) }
            } else {
                NetStats { rx_bytes: 0, tx_bytes: 0 }
            }
        } else {
            net_dev_from(ls, iface, i + 1)
        }
    }
}

fn field_or_zero(p: &Vec<Vec<char>>, i: usize) -> (r: u64)
    requires
        i < p@.len(),
    ensures
        r == field_u64(views(p@), i as int),
{
    match parse_u64(&p[i]) {
        Some(v) => v,
        None => 0,
    }
}

/// The counters of `iface` in the text of `/proc/net/dev` (its first two
/// lines are headers).
pub fn parse_net_dev(content: &str, iface: &str) -> (r: NetStats)
    ensures
        r == net_dev_from(lines_spec(content@), iface@, 2),
{
    let c = chars_of(content);
    let ls = lines(&c);
    let ic = chars_of(iface);
    let ghost lv = views(ls@);
    let mut i: usize = 2;
    while i < ls.len()
        invariant
            2 <= i,
            lv == views(ls@),
            lv == lines_spec(content@),
            ic@ == iface@,
            net_dev_from(lv, iface@, 2) == net_dev_from(lv, iface@, i as int),
        decreases ls.len() - i,
    {
        assert(lv[i as int] == ls@[i as int]@);
        let parts = split_on(&ls[i], ':');
        if parts.len() == 2 && crate::text::chars_eq(&trim(&parts[0]), &ic) {
            let v = split_whitespace(&parts[1]);
            if v.len() >= 10 {
                return NetStats { rx_bytes: field_or_zero(&v, 0), tx_bytes: field_or_zero(&v, 8) };
            }
            return NetStats { rx_bytes: 0, tx_bytes: 0 };
        }
        i = i + 1;
    }
    NetStats { rx_bytes: 0, tx_bytes: 0 }
}

/// The network name on one `iwconfig` line: the text after `ESSID:"` up to
/// the next `"`.
pub open spec fn essid_of(l: Seq<char>) -> Option<Seq<char>> {
    if contains_spec(l, "ESSID"@) {
        match find_spec(l, "ESSID:\""@) {
            Some(st) => {
                let rest = l.skip(st + 7);
                match find_spec(rest, "\""@) {
                    Some(e) => Some(rest.take(e)),
                    None => None,
                }
            },
            None => None,
        }
    } else {
        None
    }
}

/// The signal level on one `iwconfig` line: the first word after
/// `Signal level=`, or `N/A` when nothing follows.
pub open spec fn signal_of(l: Seq<char>) -> Option<Seq<char>> {
    if contains_spec(l, "Signal level="@) {
        match find_spec(l, "Signal level="@) {
            Some(st) => {
                let w = split_ws_spec(l.skip(st + 13));
                Some(if w.len() > 0 { w[0] } else { "N/A"@ })
            },
            None => None,
        }
    } else {
        None
    }
}

/// Network name and signal after the first `n` lines of `iwconfig` output:
/// each line that holds one replaces the earlier; `N/A` until then.
pub open spec fn iw_fold(ls: Seq<Seq<char>>, n: int) -> (Seq<char>, Seq<char>)
    decreases n,
{
    if n <= 0 {
        ("N/A"@, "N/A"@)
    } else {
        let (a, b) = iw_fold(ls, n - 1);
        (
            match essid_of(ls[n - 1]) {
                Some(x) => x,
                None => a,
            },
            match signal_of(ls[n - 1]) {
                Some(x) => x,
                None => b,
            },
        )
    }
}

/// The signal in `/proc/net/wireless`, from line `i` on: on the first line
/// with at least three fields, the third without its trailing dots, then `%`.
pub open spec fn wireless_from(ls: Seq<Seq<char>>, i: int) -> Option<Seq<char>>
    decreases ls.len() - i,
{
    if i < 0 || i >= ls.len() {
        None
    } else {
        let p = split_ws_spec(ls[i]);
        if p.len() >= 3 {
            Some(trim_end_char_spec(p[2], '.') + "%"@)
        } else {
            wireless_from(ls, i + 1)
        }
    }
}

/// Network name and signal: from the output of `iwconfig` when it ran; the
/// signal, when that gave none (`N/A`), from `/proc/net/wireless` (whose
/// first two lines are headers) when it could be read.
pub open spec fn wifi_spec(iwconfig: Option<Seq<char>>, wireless: Option<Seq<char>>) -> (Seq<char>, Seq<char>) {
    let (ssid, signal) = match iwconfig {
        Some(out) => iw_fold(lines_spec(out), lines_spec(out).len() as int),
        None => ("N/A"@, "N/A"@),
    };
    if signal == "N/A"@ {
        match wireless {
            Some(c) => match wireless_from(lines_spec(c), 2) {
                Some(s) => (ssid, s),
                None => (ssid, signal),
            },
            None => (ssid, signal),
        }
    } else {
        (ssid, signal)
    }
}

fn essid_exec(l: &Vec<char>) -> (r: Option<Vec<char>>)
    ensures
        match r {
            Some(x) => essid_of(l@) == Some(x@),
            None => essid_of(l@) is None,
        },
{
    let key = chars_of("ESSID");
    let open = chars_of("ESSID:\"");
    let quote = chars_of("\"");
    proof {
        reveal_strlit("ESSID:\"");
    }
    if !contains(l, &key) {
        return None;
    }
    match find(l, &open) {
        Some(st) => {
            let n = l.len();
            assert(st + 7 <= n);
            let rest = slice_of(l, st + 7, n);
            assert(rest@ =~= l@.skip(st + 7));
            match find(&rest, &quote) {
                Some(e) => {
                    let x = slice_of(&rest, 0, e);
                    assert(x@ =~= rest@.take(e as int));
                    Some(x)
                },
                None => None,
            }
        },
        None => None,
    }
}

fn signal_exec(l: &Vec<char>) -> (r: Option<Vec<char>>)
    ensures
        match r {
            Some(x) => signal_of(l@) == Some(x@),
            None => signal_of(l@) is None,
        },
{
    let key = chars_of("Signal level=");
    proof {
        reveal_strlit("Signal level=");
    }
    if !contains(l, &key) {
        return None;
    }
    match find(l, &key) {
        Some(st) => {
            let n = l.len();
            assert(st + 13 <= n);
            let rest = slice_of(l, st + 13, n);
            assert(rest@ =~= l@.skip(st + 13));
            let w = split_whitespace(&rest);
            if w.len() > 0 {
                Some(slice_of(&w[0], 0, w[0].len()))
            } else {
                Some(chars_of("N/A"))
            }
        },
        None => None,
    }
}

/// Network name and signal, as the panel shows them.
pub fn wifi_info(iwconfig: Option<&str>, wireless: Option<&str>) -> (r: (String, String))
    ensures
        (r.0@, r.1@) == wifi_spec(
            match iwconfig {
                Some(s) => Some(s@),
                None => None,
            },
            match wireless {
                Some(s) => Some(s@),
                None => None,
            },
        ),
{
    let mut ssid: Vec<char> = chars_of("N/A");
    let mut signal: Vec<char> = chars_of("N/A");
    match iwconfig {
        Some(out) => {
            let c = chars_of(out);
            let ls = lines(&c);
            let ghost lv = views(ls@);
            let mut i: usize = 0;
            while i < ls.len()
                invariant
                    i <= ls.len(),
                    lv == views(ls@),
                    lv == lines_spec(out@),
                    (ssid@, signal@) == iw_fold(lv, i as int),
                decreases ls.len() - i,
            {
                assert(lv[i as int] == ls@[i as int]@);
                match essid_exec(&ls[i]) {
                    Some(x) => {
                        ssid = x;
                    },
                    None => {},
                }
                match signal_exec(&ls[i]) {
                    Some(x) => {
                        signal = x;
                    },
                    None => {},
                }
                i = i + 1;
            }
        },
        None => {},
    }
    let ghost first = match iwconfig {
        Some(out) => iw_fold(lines_spec(out@), lines_spec(out@).len() as int),
        None => ("N/A"@, "N/A"@),
    };
    assert((ssid@, signal@) == first);
    let na = chars_of("N/A");
    if crate::text::chars_eq(&signal, &na) {
        match wireless {
            Some(content) => {
                let c = chars_of(content);
                let ls = lines(&c);
                let ghost lv = views(ls@);
                let mut i: usize = 2;
                while i < ls.len()
                    invariant
                        2 <= i,
                        lv == views(ls@),
                        lv == lines_spec(content@),
                        wireless == Some(content),
                        (ssid@, signal@) == first,
                        signal@ == "N/A"@,
                        first == match iwconfig {
                            Some(out) => iw_fold(lines_spec(out@), lines_spec(out@).len() as int),
                            None => ("N/A"@, "N/A"@),
                        },
                        wireless_from(lv, 2) == wireless_from(lv, i as int),
                    decreases ls.len() - i,
                {
                    assert(lv[i as int] == ls@[i as int]@);
                    let p = split_whitespace(&ls[i]);
                    if p.len() >= 3 {
                        let mut v = trim_end_char(&p[2], '.');
                        v.push('%');
                        proof {
                            reveal_strlit("%");
                        }
                        assert(v@ =~= trim_end_char_spec(views(p@)[2], '.') + "%"@);
                        return (string_of(&ssid), string_of(&v));
                    }
                    i = i + 1;
                }
            },
            None => {},
        }
    }
    (string_of(&ssid), string_of(&signal))
}

/// The address on one `ip addr show` line: a line that starts (after
/// trimming) with `inet `, whose next word up to `/` is not `127.0.0.1`.
pub open spec fn ip_of_line(l: Seq<char>) -> Option<Seq<char>> {
    let t = trim_spec(l);
    if starts_with_spec(t, "inet "@) {
        let w = split_ws_spec(t.skip(5));
        if w.len() > 0 {
            let ip = split_spec(w[0], sep_of('/', false))[0];
            if ip != "127.0.0.1"@ {
                Some(ip)
            } else {
                None
            }
        } else {
            None
        }
    } else {
        None
    }
}

/// The first address from line `i` on.
pub open spec fn ip_from(ls: Seq<Seq<char>>, i: int) -> Option<Seq<char>>
    decreases ls.len() - i,
{
    if i < 0 || i >= ls.len() {
        None
    } else {
        match ip_of_line(ls[i]) {
            Some(ip) => Some(ip),
            None => ip_from(ls, i + 1),
        }
    }
}

/// The interface's address in the output of `ip addr show` (when it ran),
/// else `N/A`.
pub open spec fn local_ip_spec(out: Option<Seq<char>>) -> Seq<char> {
    match out {
        Some(s) => match ip_from(lines_spec(s), 0) {
            Some(ip) => ip,
            None => "N/A"@,
        },
        None => "N/A"@,
    }
}

fn ip_line_exec(l: &Vec<char>) -> (r: Option<Vec<char>>)
    ensures
        match r {
            Some(x) => ip_of_line(l@) == Some(x@),
            None => ip_of_line(l@) is None,
        },
{
    let t = trim(l);
    let pre = chars_of("inet ");
    proof {
        reveal_strlit("inet ");
    }
    if !starts_with(&t, &pre) {
        return None;
    }
    let n = t.len();
    let rest = slice_of(&t, 5, n);
    assert(rest@ =~= t@.skip(5));
    let w = split_whitespace(&rest);
    if w.len() == 0 {
        return None;
    }
    let pieces = split_on(&w[0], '/');
    proof {
        crate::text::lemma_split_nonempty(w@[0]@, sep_of('/', false));
        assert(views(w@)[0] == w@[0]@);
    }
    let ip = slice_of(&pieces[0], 0, pieces[0].len());
    assert(ip@ =~= views(pieces@)[0]);
    let lo = chars_of("127.0.0.1");
    if crate::text::chars_eq(&ip, &lo) {
        None
    } else {
        Some(ip)
    }
}

/// The interface's address, as the panel shows it.
pub fn local_ip(out: Option<&str>) -> (r: String)
    ensures
        r@ == local_ip_spec(match out {
            Some(s) => Some(s@),
            None => None,
        }),
{
    match out {
        Some(s) => {
            let c = chars_of(s);
            let ls = lines(&c);
            let ghost lv = views(ls@);
            let mut i: usize = 0;
            while i < ls.len()
                invariant
                    i <= ls.len(),
                    lv == views(ls@),
                    lv == lines_spec(s@),
                    out == Some(s),
                    ip_from(lv, 0) == ip_from(lv, i as int),
                decreases ls.len() - i,
            {
                assert(lv[i as int] == ls@[i as int]@);
                match ip_line_exec(&ls[i]) {
                    Some(ip) => {
                        return string_of(&ip);
                    },
                    None => {},
                }
                i = i + 1;
            }
            "N/A".to_owned()
        },
        None => "N/A".to_owned(),
    }
}

/// A byte count as the panel shows it: in MB (2^20 bytes) with one decimal
/// below 1024 MB, else in GB (2^30 bytes) with two decimals. The count is
/// taken as an `f64` and rounded to the decimals shown, a tie going to the
/// even digit, as `{:.1}` and `{:.2}` do.
pub open spec fn format_bytes_spec(bytes: u64) -> Seq<char> {
    let f = f64_of(bytes as nat);
    if f < 0x4000_0000 {
        let q = half_even_div(f * 10, 0x10_0000);
        decimal_spec(q / 10) + "."@ + seq![digit_char(q % 10)] + " MB"@
    } else {
        let q = half_even_div(f * 100, 0x4000_0000);
        decimal_spec(q / 100) + "."@ + seq![digit_char((q % 100) / 10), digit_char(q % 10)]
            + " GB"@
    }
}

pub fn format_bytes(bytes: u64) -> (r: String)
    ensures
        r@ == format_bytes_spec(bytes),
{
    let f = f64_of_exec(bytes);
    let mut out: Vec<char> = Vec::new();
    proof {
        reveal_strlit(".");
        reveal_strlit(" MB");
        reveal_strlit(" GB");
    }
    if f < 0x4000_0000 {
        let q = half_even_div_exec(f * 10, 0x10_0000);
        assert(q <= 10241) by (nonlinear_arith)
            requires
                q <= (f * 10) / 0x10_0000 + 1,
                f < 0x4000_0000,
        ;
        push_decimal(&mut out, (q / 10) as u64);
        out.push('.');
        out.push(digit_to_char((q % 10) as u64));
        out.push(' ');
        out.push('M');
        out.push('B');
        assert(out@ =~= decimal_spec((q / 10) as nat) + "."@ + seq![digit_char((q % 10) as nat)]
            + " MB"@);
    } else {
        let q = half_even_div_exec(f * 100, 0x4000_0000);
        assert(q <= 0x1000_0000_0000) by (nonlinear_arith)
            requires
                q <= (f * 100) / 0x4000_0000 + 1,
                f <= 0x1_0000_0000_0000_0800,
        ;
        push_decimal(&mut out, (q / 100) as u64);
        out.push('.');
        out.push(digit_to_char(((q % 100) / 10) as u64));
        out.push(digit_to_char((q % 10) as u64));
        out.push(' ');
        out.push('G');
        out.push('B');
        assert(out@ =~= decimal_spec((q / 100) as nat) + "."@ + seq![
            digit_char(((q % 100) / 10) as nat),
            digit_char((q % 10) as nat),
        ] + " GB"@);
    }
    string_of(&out)
}

/// Whether `s` is among the names, and where it first stands.
pub open spec fn first_index(v: Seq<Seq<char>>, s: Seq<char>) -> Option<int> {
    if exists|i: int| 0 <= i < v.len() && v[i] == s {
        Some(choose|i: int| 0 <= i < v.len() && v[i] == s && forall|j: int| 0 <= j < i ==> v[j] != s)
    } else {
        None
    }
}

fn position(v: &Vec<String>, s: &str) -> (r: Option<usize>)
    ensures
        match r {
            Some(i) => first_index(texts(v@), s@) == Some(i as int) && i < v.len() && texts(v@)[i as int]
                == s@,
            None => first_index(texts(v@), s@) is None && !texts(v@).contains(s@),
        },
{
    let ghost t = texts(v@);
    let mut i: usize = 0;
    while i < v.len()
        invariant
            i <= v.len(),
            t == texts(v@),
            forall|j: int| 0 <= j < i ==> t[j] != s@,
        decreases v.len() - i,
    {
        if str_eq(v[i].as_str(), s) {
            assert(t[i as int] == s@);
            let ghost w = choose|k: int|
                0 <= k < t.len() && t[k] == s@ && forall|j: int| 0 <= j < k ==> t[j] != s@;
            assert(exists|k: int| 0 <= k < t.len() && t[k] == s@ && forall|j: int| 0 <= j < k ==> t[j] != s@) by {
                assert(0 <= i < t.len() && t[i as int] == s@ && forall|j: int| 0 <= j < i ==> t[j] != s@);
            }
            assert(w == i) by {
                if w < i {
                } else if w > i {
                    assert(t[i as int] == s@);
                }
            }
            return Some(i);
        }
        i = i + 1;
    }
    assert(!t.contains(s@)) by {
        if t.contains(s@) {
            let j = choose|j: int| 0 <= j < t.len() && t[j] == s@;
            assert(t[j] != s@);
        }
    }
    None
}

/// The interface to watch: the one given when it is among the interfaces,
/// the default one when it is empty or not among them.
pub open spec fn chosen_interface(given: Seq<char>, list: Seq<Seq<char>>) -> Seq<char> {
    if given.len() > 0 && list.contains(given) {
        given
    } else {
        default_interface_spec(list)
    }
}

/// The interface after `cycle_interface`: the one after the current one's
/// first place in the list, wrapping round; the first when the current one is
/// not listed; unchanged when the list is empty.
pub open spec fn next_interface(current: Seq<char>, list: Seq<Seq<char>>) -> Seq<char> {
    if list.len() == 0 {
        current
    } else {
        match first_index(list, current) {
            Some(p) => list[(p + 1) % (list.len() as int)],
            None => list[0],
        }
    }
}

fn choose_interface(given: String, list: &Vec<String>) -> (r: String)
    ensures
        r@ == chosen_interface(given@, texts(list@)),
{
    proof {
        reveal_strlit("");
    }
    if str_eq(given.as_str(), "") {
        assert(given@.len() == 0);
        get_default_interface(list)
    } else {
        assert(given@.len() > 0) by {
            if given@.len() == 0 {
                assert(given@ =~= ""@);
            }
        }
        match position(list, given.as_str()) {
            Some(_) => given,
            None => get_default_interface(list),
        }
    }
}

/// The network monitor.
pub struct NetworkMonitorModule {
    interface: String,
    interfaces: Vec<String>,
    wifi_ssid: String,
    wifi_signal: String,
    local_ip: String,
    rx_speed: String,
    tx_speed: String,
    total_rx: String,
    total_tx: String,
    last_update: String,
    error: Option<String>,
    refresh_interval: u64,
    paused: bool,
    prev_stats: Option<NetStats>,
}

impl NetworkMonitorModule {
    /// The interface watched.
    pub closed spec fn interface_text(&self) -> Seq<char> {
        self.interface@
    }

    /// The interfaces one can switch between.
    pub closed spec fn interface_texts(&self) -> Seq<Seq<char>> {
        texts(self.interfaces@)
    }

    /// Network name, signal, address.
    pub closed spec fn link_texts(&self) -> (Seq<char>, Seq<char>, Seq<char>) {
        (self.wifi_ssid@, self.wifi_signal@, self.local_ip@)
    }

    /// Receive speed, send speed, total received, total sent.
    pub closed spec fn traffic_texts(&self) -> (Seq<char>, Seq<char>, Seq<char>, Seq<char>) {
        (self.rx_speed@, self.tx_speed@, self.total_rx@, self.total_tx@)
    }

    /// The counters of the last sample.
    pub closed spec fn prev_sample(&self) -> Option<NetStats> {
        self.prev_stats
    }

    pub closed spec fn last_update_text(&self) -> Seq<char> {
        self.last_update@
    }

    /// A monitor for `interface` among the names listed in
    /// `/sys/class/net` (the loopback left out, sorted); an empty or unknown
    /// interface gives way to the default one.
    pub fn new(interface: String, names: Vec<String>, refresh_interval: u64) -> (r: Self)
        ensures
            is_sorted(r.interface_texts()),
            r.interface_texts().to_multiset() == not_loopback(texts(names@)).to_multiset(),
            r.interface_text() == chosen_interface(interface@, r.interface_texts()),
            r.link_texts() == (Seq::<char>::empty(), Seq::<char>::empty(), Seq::<char>::empty()),
            r.traffic_texts() == ("0 B/s"@, "0 B/s"@, "0 MB"@, "0 MB"@),
            r.last_update_text() == Seq::<char>::empty(),
            r.prev_sample() is None,
            r.spec_error() is None,
            r.spec_stored_interval() == refresh_interval,
            !r.spec_paused(),
    {
        let interfaces = interface_list(names);
        let iface = choose_interface(interface, &interfaces);
        NetworkMonitorModule {
            interface: iface,
            interfaces,
            wifi_ssid: String::new(),
            wifi_signal: String::new(),
            local_ip: String::new(),
            rx_speed: "0 B/s".to_owned(),
            tx_speed: "0 B/s".to_owned(),
            total_rx: "0 MB".to_owned(),
            total_tx: "0 MB".to_owned(),
            last_update: String::new(),
            error: None,
            refresh_interval,
            paused: false,
            prev_stats: None,
        }
    }

    /// Switches to the next interface in the list (see `next_interface`).
    /// The caller takes a new sample of the new interface afterwards.
    pub fn cycle_interface(&mut self)
        ensures
            final(self).interface_text() == next_interface(
                old(self).interface_text(),
                old(self).interface_texts(),
            ),
            old(self).interface_texts().len() > 0 ==> old(self).interface_texts().contains(
                final(self).interface_text(),
            ),
            final(self).interface_texts() == old(self).interface_texts(),
            final(self).link_texts() == old(self).link_texts(),
            final(self).traffic_texts() == old(self).traffic_texts(),
            final(self).prev_sample() == old(self).prev_sample(),
            final(self).spec_stored_interval() == old(self).spec_stored_interval(),
            final(self).spec_paused() == old(self).spec_paused(),
    {
        let n = self.interfaces.len();
        if n == 0 {
            return;
        }
        let ghost t = texts(self.interfaces@);
        match position(&self.interfaces, self.interface.as_str()) {
            Some(pos) => {
                let next = (pos + 1) % n;
                assert(t[next as int] == self.interfaces@[next as int]@);
                self.interface = self.interfaces[next].clone();
            },
            None => {
                assert(t[0] == self.interfaces@[0]@);
                self.interface = self.interfaces[0].clone();
            },
        }
    }

    /// Handles a key meant for this module: `n` or `N` switches the
    /// interface (and says so); other keys are not its.
    pub fn handle_key(&mut self, key: char) -> (r: bool)
        ensures
            r == (key == 'n' || key == 'N'),
            r ==> final(self).interface_text() == next_interface(
                old(self).interface_text(),
                old(self).interface_texts(),
            ),
            !r ==> final(self).interface_text() == old(self).interface_text(),
            final(self).interface_texts() == old(self).interface_texts(),
            final(self).spec_stored_interval() == old(self).spec_stored_interval(),
            final(self).spec_paused() == old(self).spec_paused(),
    {
        if key == 'n' || key == 'N' {
            self.cycle_interface();
            true
        } else {
            false
        }
    }

    /// The state to keep between runs: the interface, under `interface`.
    pub fn save_state(&self) -> (r: Vec<(String, String)>)
        ensures
            r@.len() == 1,
            r@[0].0@ == "interface"@,
            r@[0].1@ == self.interface_text(),
    {
        let mut v: Vec<(String, String)> = Vec::new();
        v.push(("interface".to_owned(), self.interface.clone()));
        v
    }

    /// Restores the interface saved under `interface` (the first such entry),
    /// when it is still among the interfaces.
    pub fn load_state(&mut self, data: &Vec<(String, String)>)
        ensures
            final(self).interface_text() == (match saved_interface(data@) {
                Some(i) => if old(self).interface_texts().contains(i) {
                    i
                } else {
                    old(self).interface_text()
                },
                None => old(self).interface_text(),
            }),
            final(self).interface_texts() == old(self).interface_texts(),
            final(self).spec_stored_interval() == old(self).spec_stored_interval(),
            final(self).spec_paused() == old(self).spec_paused(),
    {
        let mut k: usize = 0;
        while k < data.len()
            invariant
                k <= data.len(),
                *self == *old(self),
                saved_interface(data@) == saved_from(data@, k as int),
            decreases data.len() - k,
        {
            if str_eq(data[k].0.as_str(), "interface") {
                let v = &data[k].1;
                match position(&self.interfaces, v.as_str()) {
                    Some(_) => {
                        self.interface = v.clone();
                    },
                    None => {},
                }
                return;
            }
            k = k + 1;
        }
    }

    /// Takes a sample of the counters, the network name and signal and the
    /// address, stamped with the local time; clears the error. Returns the
    /// bytes received and sent since the earlier sample (0 where a counter
    /// went down), when there was one.
    pub fn apply_sample(&mut self, stats: NetStats, ssid: String, signal: String, ip: String) -> (r: Option<(u64, u64)>)
        ensures
            r == (match old(self).prev_sample() {
                Some(p) => Some((
                    (if stats.rx_bytes >= p.rx_bytes { stats.rx_bytes - p.rx_bytes } else { 0 }) as u64,
                    (if stats.tx_bytes >= p.tx_bytes { stats.tx_bytes - p.tx_bytes } else { 0 }) as u64,
                )),
                None => None,
            }),
            final(self).prev_sample() == Some(stats),
            final(self).traffic_texts() == (
                old(self).traffic_texts().0,
                old(self).traffic_texts().1,
                format_bytes_spec(stats.rx_bytes),
                format_bytes_spec(stats.tx_bytes),
            ),
            final(self).link_texts() == (ssid@, signal@, ip@),
            is_hms(final(self).last_update_text()),
            final(self).spec_error() is None,
            final(self).interface_text() == old(self).interface_text(),
            final(self).interface_texts() == old(self).interface_texts(),
            final(self).spec_stored_interval() == old(self).spec_stored_interval(),
            final(self).spec_paused() == old(self).spec_paused(),
    {
        let deltas = match self.prev_stats {
            Some(p) => Some((
                stats.rx_bytes.saturating_sub(p.rx_bytes),
                stats.tx_bytes.saturating_sub(p.tx_bytes),
            )),
            None => None,
        };
        self.prev_stats = Some(stats);
        self.total_rx = format_bytes(stats.rx_bytes);
        self.total_tx = format_bytes(stats.tx_bytes);
        self.wifi_ssid = ssid;
        self.wifi_signal = signal;
        self.local_ip = ip;
        self.last_update = local_hms();
        self.error = None;
        deltas
    }

    /// Shows the transfer speeds.
    pub fn set_speeds(&mut self, rx: String, tx: String)
        ensures
            final(self).traffic_texts() == (
                rx@,
                tx@,
                old(self).traffic_texts().2,
                old(self).traffic_texts().3,
            ),
            final(self).link_texts() == old(self).link_texts(),
            final(self).prev_sample() == old(self).prev_sample(),
            final(self).interface_text() == old(self).interface_text(),
            final(self).spec_stored_interval() == old(self).spec_stored_interval(),
            final(self).spec_paused() == old(self).spec_paused(),
    {
        self.rx_speed = rx;
        self.tx_speed = tx;
    }

    /// The result of an update: it always succeeds.
    pub fn update_result(&self) -> (r: ModuleUpdate)
        ensures
            r.id@ == "network_monitor"@,
            r.success,
            r.error is None,
    {
        ModuleUpdate { id: "network_monitor".to_owned(), success: true, error: None }
    }

    /// The hint after the interface name: how to switch, shown only on the
    /// selected module.
    pub fn interface_hint(selected: bool) -> (r: &'static str)
        ensures
            r@ == (if selected { " [n 切换网卡]"@ } else { ""@ }),
    {
        if selected {
            " [n 切换网卡]"
        } else {
            ""
        }
    }

    /// Whether the Wi-Fi line is shown: a network name that is neither empty
    /// nor `N/A`.
    pub fn wifi_shown(&self) -> (r: bool)
        ensures
            r == (self.link_texts().0.len() > 0 && self.link_texts().0 != "N/A"@),
    {
        proof {
            reveal_strlit("");
            assert(""@ =~= Seq::<char>::empty());
        }
        assert(self.wifi_ssid@.len() == 0 ==> self.wifi_ssid@ =~= ""@);
        !str_eq(self.wifi_ssid.as_str(), "") && !str_eq(self.wifi_ssid.as_str(), "N/A")
    }

    /// When the module last took its readings (`%H:%M:%S`), or nothing yet.
    pub fn last_update(&self) -> (r: &str)
        ensures
            r@ == self.last_update_text(),
    {
        self.last_update.as_str()
    }

    pub fn interface(&self) -> (r: &str)
        ensures
            r@ == self.interface_text(),
    {
        self.interface.as_str()
    }

    pub fn interfaces(&self) -> (r: &Vec<String>)
        ensures
            texts(r@) == self.interface_texts(),
    {
        &self.interfaces
    }

    pub fn wifi_ssid(&self) -> (r: &str)
        ensures
            r@ == self.link_texts().0,
    {
        self.wifi_ssid.as_str()
    }

    pub fn wifi_signal(&self) -> (r: &str)
        ensures
            r@ == self.link_texts().1,
    {
        self.wifi_signal.as_str()
    }

    pub fn local_ip(&self) -> (r: &str)
        ensures
            r@ == self.link_texts().2,
    {
        self.local_ip.as_str()
    }

    pub fn rx_speed(&self) -> (r: &str)
        ensures
            r@ == self.traffic_texts().0,
    {
        self.rx_speed.as_str()
    }

    pub fn tx_speed(&self) -> (r: &str)
        ensures
            r@ == self.traffic_texts().1,
    {
        self.tx_speed.as_str()
    }

    pub fn total_rx(&self) -> (r: &str)
        ensures
            r@ == self.traffic_texts().2,
    {
        self.total_rx.as_str()
    }

    pub fn total_tx(&self) -> (r: &str)
        ensures
            r@ == self.traffic_texts().3,
    {
        self.total_tx.as_str()
    }

    pub fn pause_line(&self) -> (r: String)
        ensures
            r@ == super::pause_label_spec(self.spec_paused(), self.spec_stored_interval()),
    {
        super::pause_label(self.paused, self.refresh_interval)
    }
}

/// The value saved under `interface`, from entry `k` on.
pub open spec fn saved_from(data: Seq<(String, String)>, k: int) -> Option<Seq<char>>
    decreases data.len() - k,
{
    if k < 0 || k >= data.len() {
        None
    } else if data[k].0@ == "interface"@ {
        Some(data[k].1@)
    } else {
        saved_from(data, k + 1)
    }
}

/// The value saved under `interface`: the first such entry's.
pub open spec fn saved_interface(data: Seq<(String, String)>) -> Option<Seq<char>> {
    saved_from(data, 0)
}

impl PanelModule for NetworkMonitorModule {
    open spec fn spec_id(&self) -> Seq<char> {
        "network_monitor"@
    }

    open spec fn spec_name(&self) -> Seq<char> {
        "🌐 网络监控"@
    }

    closed spec fn spec_stored_interval(&self) -> u64 {
        self.refresh_interval
    }

    closed spec fn spec_paused(&self) -> bool {
        self.paused
    }

    open spec fn spec_height(&self) -> u16 {
        9
    }

    closed spec fn spec_error(&self) -> Option<Seq<char>> {
        match self.error {
            Some(e) => Some(e@),
            None => None,
        }
    }

    fn id(&self) -> (r: &str) {
        "network_monitor"
    }

    fn name(&self) -> (r: &str) {
        "🌐 网络监控"
    }

    fn refresh_interval(&self) -> (r: u64) {
        if self.paused {
            0
        } else {
            self.refresh_interval
        }
    }

    /// Sets the interval; 0 pauses, any other resumes.
    fn set_refresh_interval(&mut self, interval: u64)
        ensures
            final(self).spec_paused() == (interval == 0),
    {
        self.refresh_interval = interval;
        self.paused = interval == 0;
    }

    fn toggle_pause(&mut self) {
        self.paused = !self.paused;
    }

    fn height(&self) -> (r: u16) {
        9
    }

    fn get_error(&self) -> (r: Option<&str>) {
        match &self.error {
            Some(e) => Some(e.as_str()),
            None => None,
        }
    }
}

/// The interface after `k` switches.
pub open spec fn cycle_times(current: Seq<char>, list: Seq<Seq<char>>, k: nat) -> Seq<char>
    decreases k,
{
    if k == 0 {
        current
    } else {
        next_interface(cycle_times(current, list, (k - 1) as nat), list)
    }
}

/// No name occurs twice.
pub open spec fn distinct(list: Seq<Seq<char>>) -> bool {
    forall|i: int, j: int| 0 <= i < j < list.len() ==> list[i] != list[j]
}

proof fn lemma_first_index_distinct(list: Seq<Seq<char>>, q: int)
    requires
        distinct(list),
        0 <= q < list.len(),
    ensures
        first_index(list, list[q]) == Some(q),
{
    assert(0 <= q < list.len() && list[q] == list[q] && forall|j: int| 0 <= j < q ==> list[j] != list[q]);
    let w = choose|i: int|
        0 <= i < list.len() && list[i] == list[q] && forall|j: int| 0 <= j < i ==> list[j] != list[q];
    assert(w == q) by {
        if w < q {
            assert(list[w] != list[q]);
        } else if w > q {
            assert(list[q] != list[w]);
        }
    }
}

proof fn lemma_cycle_at(list: Seq<Seq<char>>, p: int, k: nat)
    requires
        distinct(list),
        0 <= p < list.len(),
    ensures
        cycle_times(list[p], list, k) == list[(p + k) % (list.len() as int)],
    decreases k,
{
    let n = list.len() as int;
    if k > 0 {
        lemma_cycle_at(list, p, (k - 1) as nat);
        let q = (p + k - 1) % n;
        assert(0 <= q < n);
        lemma_first_index_distinct(list, q);
        vstd::arithmetic::div_mod::lemma_add_mod_noop_right(1, p + k - 1, n);
        assert((q + 1) % n == (p + k) % n);
    } else {
        vstd::arithmetic::div_mod::lemma_small_mod(p as nat, list.len());
    }
}

/// Switching interfaces walks the list in order and wraps round: from the
/// interface at place `p`, `k` switches reach place `(p + k) mod n`, so `n`
/// switches come back to where they started.
pub proof fn law_cycle_walks_list(list: Seq<Seq<char>>, p: int, k: nat)
    requires
        distinct(list),
        0 <= p < list.len(),
    ensures
        cycle_times(list[p], list, k) == list[(p + k) % (list.len() as int)],
        cycle_times(list[p], list, list.len()) == list[p],
{
    lemma_cycle_at(list, p, k);
    lemma_cycle_at(list, p, list.len());
    vstd::arithmetic::div_mod::lemma_mod_add_multiples_vanish(p, list.len() as int);
    vstd::arithmetic::div_mod::lemma_small_mod(p as nat, list.len());
}

/// The loopback interface is never among the interfaces listed.
pub proof fn law_no_loopback(names: Seq<Seq<char>>)
    ensures
        !not_loopback(names).contains("lo"@),
{
    let f = not_loopback(names);
    if f.contains("lo"@) {
        let i = choose|i: int| 0 <= i < f.len() && f[i] == "lo"@;
        broadcast use vstd::seq_lib::group_filter_ensures;
        assert(f[i] != "lo"@);
    }
}

} // verus!
