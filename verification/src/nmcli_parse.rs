//! Readers of `nmcli -t` output (terse mode: fields separated by `:`, with `:` and `\` inside
//! a field escaped by a backslash).

use vstd::prelude::*;
use crate::text::{
    chars_eq, filter_map, first_some, join, join_exec, lemma_filter_map_all,
    lemma_filter_map_step, lemma_first_some_prefix, lines, lit, seqs, split_lines, starts_with,
    starts_with_exec, str_chars, strings_of, strs, chars_to_string,
};

verus! {

/// The fields read so far and whether a backslash is waiting for the character it escapes.
pub open spec fn terse_scan(s: Seq<char>) -> (Seq<Seq<char>>, bool)
    decreases s.len(),
{
    if s.len() == 0 {
        (seq![seq![]], false)
    } else {
        let (f, esc) = terse_scan(s.drop_last());
        let c = s.last();
        if esc {
            (append_last(f, c), false)
        } else if c == '\\' {
            (f, true)
        } else if c == ':' {
            (f.push(seq![]), false)
        } else {
            (append_last(f, c), false)
        }
    }
}

pub open spec fn append_last(f: Seq<Seq<char>>, c: char) -> Seq<Seq<char>> {
    f.update(f.len() - 1, f.last().push(c))
}

/// The fields of one terse line: `:` separates fields, `\` makes the next character plain
/// (a backslash at the very end is dropped).
pub open spec fn terse_fields(s: Seq<char>) -> Seq<Seq<char>> {
    terse_scan(s).0
}

proof fn lemma_terse_nonempty(s: Seq<char>)
    ensures
        terse_scan(s).0.len() >= 1,
    decreases s.len(),
{
    if s.len() > 0 {
        lemma_terse_nonempty(s.drop_last());
    }
}

/// A field as `nmcli -t` writes it: a backslash before every `\` and `:`.
pub open spec fn escape_field(f: Seq<char>) -> Seq<char>
    decreases f.len(),
{
    if f.len() == 0 {
        seq![]
    } else {
        let c = f.last();
        escape_field(f.drop_last()) + if c == '\\' || c == ':' {
            seq!['\\', c]
        } else {
            seq![c]
        }
    }
}

proof fn lemma_scan_field(s: Seq<char>, g: Seq<char>)
    requires
        !terse_scan(s).1,
    ensures
        terse_scan(s + escape_field(g)) == (
            terse_scan(s).0.update(
                terse_scan(s).0.len() - 1,
                terse_scan(s).0.last() + g,
            ),
            false,
        ),
    decreases g.len(),
{
    lemma_terse_nonempty(s);
    let f = terse_scan(s).0;
    if g.len() == 0 {
        assert(s + escape_field(g) =~= s);
        assert(f.update(f.len() - 1, f.last() + g) =~= f);
    } else {
        let g1 = g.drop_last();
        let c = g.last();
        lemma_scan_field(s, g1);
        let x = s + escape_field(g1);
        let f1 = f.update(f.len() - 1, f.last() + g1);
        assert(terse_scan(x) == (f1, false));
        assert(f1.len() == f.len());
        assert(f1.last() == f.last() + g1);
        assert((f.last() + g1).push(c) =~= f.last() + g);
        assert(append_last(f1, c) =~= f.update(f.len() - 1, f.last() + g));
        if c == '\\' || c == ':' {
            assert(s + escape_field(g) =~= x.push('\\').push(c));
            assert(x.push('\\').drop_last() =~= x);
            assert(x.push('\\').last() == '\\');
            assert(terse_scan(x.push('\\')) == (f1, true));
            assert(x.push('\\').push(c).drop_last() =~= x.push('\\'));
            assert(terse_scan(x.push('\\').push(c)) == (append_last(f1, c), false));
        } else {
            assert(s + escape_field(g) =~= x.push(c));
            assert(x.push(c).drop_last() =~= x);
            assert(terse_scan(x.push(c)) == (append_last(f1, c), false));
        }
    }
}

proof fn lemma_terse_join(fields: Seq<Seq<char>>)
    requires
        fields.len() >= 1,
    ensures
        terse_scan(join(fields.map_values(|f: Seq<char>| escape_field(f)), ":"@)) == (fields, false),
    decreases fields.len(),
{
    reveal_strlit(":");
    let parts = fields.map_values(|f: Seq<char>| escape_field(f));
    if fields.len() == 1 {
        lemma_scan_field(Seq::<char>::empty(), fields[0]);
        assert(Seq::<char>::empty() + escape_field(fields[0]) =~= escape_field(fields[0]));
        assert(terse_scan(Seq::<char>::empty()) == (seq![Seq::<char>::empty()], false));
        assert(seq![Seq::<char>::empty()].update(0, Seq::<char>::empty() + fields[0]) =~= fields);
    } else {
        let rest = fields.drop_last();
        lemma_terse_join(rest);
        assert(parts.drop_last() =~= rest.map_values(|f: Seq<char>| escape_field(f)));
        let j = join(rest.map_values(|f: Seq<char>| escape_field(f)), ":"@);
        let x = j + ":"@;
        assert(x =~= j.push(':'));
        assert(j.push(':').drop_last() =~= j);
        assert(terse_scan(x) == (rest.push(Seq::<char>::empty()), false));
        lemma_scan_field(x, fields.last());
        assert(join(parts, ":"@) == x + escape_field(fields.last()));
        assert(rest.push(Seq::<char>::empty()).update(rest.len() as int, Seq::<char>::empty() + fields.last())
            =~= fields);
    }
}

/// Reading a terse line gives back the fields it was written from: escaping every field and
/// joining them with `:` loses nothing.
pub proof fn lemma_terse_round_trip(fields: Seq<Seq<char>>)
    requires
        fields.len() >= 1,
    ensures
        terse_fields(join(fields.map_values(|f: Seq<char>| escape_field(f)), ":"@)) == fields,
{
    lemma_terse_join(fields);
}

fn terse_chars(line: &[char]) -> (out: Vec<Vec<char>>)
    ensures
        seqs(out@) == terse_fields(line@),
{
    let mut done: Vec<Vec<char>> = Vec::new();
    let mut cur: Vec<char> = Vec::new();
    let mut esc = false;
    let mut i: usize = 0;
    while i < line.len()
        invariant
            i <= line.len(),
            seqs(done@).push(cur@) == terse_scan(line@.take(i as int)).0,
            esc == terse_scan(line@.take(i as int)).1,
        decreases line.len() - i,
    {
        let c = line[i];
        assert(line@.take(i + 1).drop_last() =~= line@.take(i as int));
        proof {
            lemma_terse_nonempty(line@.take(i as int));
        }
        let ghost before = seqs(done@);
        if esc {
            cur.push(c);
            esc = false;
        } else if c == '\\' {
            esc = true;
        } else if c == ':' {
            let d = cur;
            done.push(d);
            cur = Vec::new();
            assert(seqs(done@) =~= before.push(d@));
        } else {
            cur.push(c);
        }
        assert(seqs(done@).push(cur@) =~= terse_scan(line@.take(i + 1)).0);
        i = i + 1;
    }
    assert(line@.take(line.len() as int) =~= line@);
    let ghost before = seqs(done@);
    done.push(cur);
    assert(seqs(done@) =~= before.push(cur@));
    done
}

/// Splits one line of terse output into fields, undoing the escapes `\:` and `\\`.
pub fn split_terse(line: &str) -> (out: Vec<String>)
    ensures
        strs(out@) == terse_fields(line@),
{
    let cs = str_chars(line);
    let f = terse_chars(cs.as_slice());
    strings_of(&f)
}

/// The fields of every line of `text`.
pub open spec fn rows(text: Seq<char>) -> Seq<Seq<Seq<char>>> {
    lines(text).map_values(|l: Seq<char>| terse_fields(l))
}

fn rows_exec(text: &str) -> (out: Vec<Vec<Vec<char>>>)
    ensures
        out@.len() == rows(text@).len(),
        forall|i: int| 0 <= i < out@.len() ==> seqs(#[trigger] out@[i]@) == rows(text@)[i],
{
    let cs = str_chars(text);
    let ls = split_lines(cs.as_slice());
    let mut out: Vec<Vec<Vec<char>>> = Vec::new();
    let mut i: usize = 0;
    while i < ls.len()
        invariant
            i <= ls.len(),
            seqs(ls@) == lines(text@),
            out@.len() == i,
            forall|k: int| 0 <= k < i ==> seqs(#[trigger] out@[k]@) == rows(text@)[k],
        decreases ls.len() - i,
    {
        let f = terse_chars(ls[i].as_slice());
        out.push(f);
        assert(seqs(ls@)[i as int] == ls@[i as int]@);
        i = i + 1;
    }
    out
}

// ---------------------------------------------------------------------------------------
/// Row test of `devices_of_type`: a device name with the wanted type.
pub open spec fn pick_device_of_type(ty: Seq<char>) -> spec_fn(Seq<Seq<char>>) -> Option<Seq<char>> {
    |f: Seq<Seq<char>>| if f.len() >= 2 && f[1] == ty {
        Some(f[0])
    } else {
        None
    }
}

/// Names of the devices of type `ty` in `nmcli -t -f DEVICE,TYPE device`.
pub fn devices_of_type(text: &str, ty: &str) -> (out: Vec<String>)
    ensures
        strs(out@) == filter_map(rows(text@), pick_device_of_type(ty@)),
{
    let rs = rows_exec(text);
    let t = str_chars(ty);
    let ghost pick = pick_device_of_type(ty@);
    let mut out: Vec<Vec<char>> = Vec::new();
    let mut i: usize = 0;
    while i < rs.len()
        invariant
            i <= rs.len(),
            t@ == ty@,
            pick == pick_device_of_type(ty@),
            rs@.len() == rows(text@).len(),
            forall|k: int| 0 <= k < rs@.len() ==> seqs(#[trigger] rs@[k]@) == rows(text@)[k],
            seqs(out@) == filter_map(rows(text@).take(i as int), pick),
        decreases rs.len() - i,
    {
        let f = &rs[i];
        assert(seqs(f@) == rows(text@)[i as int]);
        proof {
            lemma_filter_map_step(rows(text@), pick, i as int);
        }
        if f.len() >= 2 && chars_eq(f[1].as_slice(), t.as_slice()) {
            let ghost before = seqs(out@);
            let name = f[0].clone();
            out.push(name);
            assert(seqs(out@) =~= before.push(seqs(f@)[0]));
        }
        i = i + 1;
    }
    proof {
        lemma_filter_map_all(rows(text@), pick);
    }
    strings_of(&out)
}

// ---------------------------------------------------------------------------------------
/// Row test of `active_connection_of`: the connection of `iface` while it is connected,
/// unless it is empty or the profile `skip`.
pub open spec fn pick_active_connection(iface: Seq<char>, skip: Seq<char>) -> spec_fn(
    Seq<Seq<char>>,
) -> Option<Seq<char>> {
    |f: Seq<Seq<char>>|
        if f.len() >= 3 && f[0] == iface && starts_with(f[1], "connected"@) && f[2].len() > 0
            && f[2] != skip {
            Some(f[2])
        } else {
            None
        }
}

/// The connection that `iface` uses now, from `nmcli -t -f DEVICE,STATE,CONNECTION device
/// status`; the hotspot's own profile `skip` does not count.
pub fn active_connection_of(text: &str, iface: &str, skip: &str) -> (r: Option<String>)
    ensures
        r.is_some() == first_some(rows(text@), pick_active_connection(iface@, skip@)).is_some(),
        r.is_some() ==> r.unwrap()@ == first_some(
            rows(text@),
            pick_active_connection(iface@, skip@),
        ).unwrap(),
{
    let rs = rows_exec(text);
    let ic = str_chars(iface);
    let sk = str_chars(skip);
    let conn = lit("connected");
    let ghost pick = pick_active_connection(iface@, skip@);
    let mut i: usize = 0;
    while i < rs.len()
        invariant
            i <= rs.len(),
            ic@ == iface@,
            sk@ == skip@,
            conn@ == "connected"@,
            pick == pick_active_connection(iface@, skip@),
            rs@.len() == rows(text@).len(),
            forall|k: int| 0 <= k < rs@.len() ==> seqs(#[trigger] rs@[k]@) == rows(text@)[k],
            filter_map(rows(text@).take(i as int), pick).len() == 0,
        decreases rs.len() - i,
    {
        let f = &rs[i];
        assert(seqs(f@) == rows(text@)[i as int]);
        proof {
            lemma_filter_map_step(rows(text@), pick, i as int);
        }
        if f.len() >= 3 && chars_eq(f[0].as_slice(), ic.as_slice()) && starts_with_exec(
            f[1].as_slice(),
            conn.as_slice(),
        ) && f[2].len() > 0 && !chars_eq(f[2].as_slice(), sk.as_slice()) {
            proof {
                lemma_first_some_prefix(rows(text@), pick, i + 1);
            }
            return Some(chars_to_string(f[2].as_slice()));
        }
        i = i + 1;
    }
    proof {
        lemma_filter_map_all(rows(text@), pick);
    }
    None
}

// ---------------------------------------------------------------------------------------
/// Connection types that can carry the Internet. Bridges (docker0, virbr0) are not among
/// them: taking one as the uplink would let guests into the containers' network.
pub open spec fn uplink_type(t: Seq<char>) -> bool {
    ||| t == "ethernet"@
    ||| t == "wifi"@
    ||| t == "wireguard"@
    ||| t == "tun"@
    ||| t == "ppp"@
    ||| t == "gsm"@
    ||| t == "cdma"@
    ||| t == "bond"@
    ||| t == "vlan"@
    ||| t == "team"@
    ||| t == "adsl"@
}

fn uplink_type_exec(t: &[char]) -> (b: bool)
    ensures
        b == uplink_type(t@),
{
    chars_eq(t, lit("ethernet").as_slice()) || chars_eq(t, lit("wifi").as_slice()) || chars_eq(
        t,
        lit("wireguard").as_slice(),
    ) || chars_eq(t, lit("tun").as_slice()) || chars_eq(t, lit("ppp").as_slice()) || chars_eq(
        t,
        lit("gsm").as_slice(),
    ) || chars_eq(t, lit("cdma").as_slice()) || chars_eq(t, lit("bond").as_slice()) || chars_eq(
        t,
        lit("vlan").as_slice(),
    ) || chars_eq(t, lit("team").as_slice()) || chars_eq(t, lit("adsl").as_slice())
}

/// Row test of `connected_devices`.
pub open spec fn pick_connected_device(skip: Seq<char>) -> spec_fn(Seq<Seq<char>>) -> Option<
    Seq<char>,
> {
    |f: Seq<Seq<char>>|
        if f.len() >= 4 && starts_with(f[2], "connected"@) && f[3] != skip && uplink_type(f[1])
            && f[0].len() > 0 {
            Some(f[0])
        } else {
            None
        }
}

/// Connected devices that can be the Internet uplink, from `nmcli -t -f
/// DEVICE,TYPE,STATE,CONNECTION device status`, except the one running the profile `skip`.
pub fn connected_devices(text: &str, skip: &str) -> (out: Vec<String>)
    ensures
        strs(out@) == filter_map(rows(text@), pick_connected_device(skip@)),
{
    let rs = rows_exec(text);
    let sk = str_chars(skip);
    let conn = lit("connected");
    let ghost pick = pick_connected_device(skip@);
    let mut out: Vec<Vec<char>> = Vec::new();
    let mut i: usize = 0;
    while i < rs.len()
        invariant
            i <= rs.len(),
            sk@ == skip@,
            conn@ == "connected"@,
            pick == pick_connected_device(skip@),
            rs@.len() == rows(text@).len(),
            forall|k: int| 0 <= k < rs@.len() ==> seqs(#[trigger] rs@[k]@) == rows(text@)[k],
            seqs(out@) == filter_map(rows(text@).take(i as int), pick),
        decreases rs.len() - i,
    {
        let f = &rs[i];
        assert(seqs(f@) == rows(text@)[i as int]);
        proof {
            lemma_filter_map_step(rows(text@), pick, i as int);
        }
        if f.len() >= 4 && starts_with_exec(f[2].as_slice(), conn.as_slice()) && !chars_eq(
            f[3].as_slice(),
            sk.as_slice(),
        ) && uplink_type_exec(f[1].as_slice()) && f[0].len() > 0 {
            let ghost before = seqs(out@);
            let name = f[0].clone();
            out.push(name);
            assert(seqs(out@) =~= before.push(seqs(f@)[0]));
        }
        i = i + 1;
    }
    proof {
        lemma_filter_map_all(rows(text@), pick);
    }
    strings_of(&out)
}

// ---------------------------------------------------------------------------------------
/// The text without one final `\n`.
pub open spec fn strip_one_newline(s: Seq<char>) -> Seq<char> {
    if s.len() > 0 && s.last() == '\n' {
        s.drop_last()
    } else {
        s
    }
}

/// The value of one field from `nmcli -g <field>`: exactly one final `\n` goes (spaces at the
/// end can belong to a password), and the escapes are undone.
pub open spec fn single_value_spec(out: Seq<char>) -> Seq<char> {
    join(terse_fields(strip_one_newline(out)), ":"@)
}

pub fn single_value(out: &str) -> (r: String)
    ensures
        r@ == single_value_spec(out@),
{
    let cs = str_chars(out);
    let n = cs.len();
    let line = if n > 0 && cs[n - 1] == '\n' {
        crate::text::slice_of(cs.as_slice(), 0, n - 1)
    } else {
        cs
    };
    assert(line@ == strip_one_newline(out@)) by {
        if n > 0 {
            assert(out@.drop_last() =~= out@.subrange(0, n - 1));
        }
    }
    let f = terse_chars(line.as_slice());
    let sep = lit(":");
    let j = join_exec(&f, sep.as_slice());
    chars_to_string(j.as_slice())
}

// ---------------------------------------------------------------------------------------
/// Row test of `profile_uuids`: the UUID of a Wi-Fi profile named `name`.
pub open spec fn pick_profile_uuid(name: Seq<char>) -> spec_fn(Seq<Seq<char>>) -> Option<Seq<char>> {
    |f: Seq<Seq<char>>|
        if f.len() >= 3 && f[0] == name && f[2] == "802-11-wireless"@ {
            Some(f[1])
        } else {
            None
        }
}

/// UUIDs of the Wi-Fi profiles named `name` in `nmcli -t -f NAME,UUID,TYPE connection show`.
pub fn profile_uuids(text: &str, name: &str) -> (out: Vec<String>)
    ensures
        strs(out@) == filter_map(rows(text@), pick_profile_uuid(name@)),
{
    let rs = rows_exec(text);
    let nm = str_chars(name);
    let wl = lit("802-11-wireless");
    let ghost pick = pick_profile_uuid(name@);
    let mut out: Vec<Vec<char>> = Vec::new();
    let mut i: usize = 0;
    while i < rs.len()
        invariant
            i <= rs.len(),
            nm@ == name@,
            wl@ == "802-11-wireless"@,
            pick == pick_profile_uuid(name@),
            rs@.len() == rows(text@).len(),
            forall|k: int| 0 <= k < rs@.len() ==> seqs(#[trigger] rs@[k]@) == rows(text@)[k],
            seqs(out@) == filter_map(rows(text@).take(i as int), pick),
        decreases rs.len() - i,
    {
        let f = &rs[i];
        assert(seqs(f@) == rows(text@)[i as int]);
        proof {
            lemma_filter_map_step(rows(text@), pick, i as int);
        }
        if f.len() >= 3 && chars_eq(f[0].as_slice(), nm.as_slice()) && chars_eq(
            f[2].as_slice(),
            wl.as_slice(),
        ) {
            let ghost before = seqs(out@);
            let u = f[1].clone();
            out.push(u);
            assert(seqs(out@) =~= before.push(seqs(f@)[1]));
        }
        i = i + 1;
    }
    proof {
        lemma_filter_map_all(rows(text@), pick);
    }
    strings_of(&out)
}

// ---------------------------------------------------------------------------------------
/// Row test of `active_entry`: device and state of an active connection whose UUID is listed.
pub open spec fn pick_active_entry(uuids: Seq<Seq<char>>) -> spec_fn(Seq<Seq<char>>) -> Option<
    (Seq<char>, Seq<char>),
> {
    |f: Seq<Seq<char>>|
        if f.len() >= 3 && uuids.contains(f[0]) {
            Some((f[1], f[2]))
        } else {
            None
        }
}

fn contains_string(list: &[String], x: &[char]) -> (b: bool)
    ensures
        b == strs(list@).contains(x@),
{
    let mut i: usize = 0;
    while i < list.len()
        invariant
            i <= list.len(),
            forall|k: int| 0 <= k < i ==> list@[k]@ != x@,
        decreases list.len() - i,
    {
        let c = str_chars(list[i].as_str());
        if chars_eq(c.as_slice(), x) {
            assert(strs(list@)[i as int] == x@);
            return true;
        }
        i = i + 1;
    }
    assert forall|k: int| 0 <= k < strs(list@).len() implies strs(list@)[k] != x@ by {
        assert(strs(list@)[k] == list@[k]@);
    }
    false
}

/// The active connection with one of `uuids`, from `nmcli -t -f UUID,DEVICE,STATE connection
/// show --active`: its device and its state (activating, activated, deactivating).
pub fn active_entry(text: &str, uuids: &[String]) -> (r: Option<(String, String)>)
    ensures
        r.is_some() == first_some(rows(text@), pick_active_entry(strs(uuids@))).is_some(),
        r.is_some() ==> (r.unwrap().0@, r.unwrap().1@) == first_some(
            rows(text@),
            pick_active_entry(strs(uuids@)),
        ).unwrap(),
{
    let rs = rows_exec(text);
    let ghost pick = pick_active_entry(strs(uuids@));
    let mut i: usize = 0;
    while i < rs.len()
        invariant
            i <= rs.len(),
            pick == pick_active_entry(strs(uuids@)),
            rs@.len() == rows(text@).len(),
            forall|k: int| 0 <= k < rs@.len() ==> seqs(#[trigger] rs@[k]@) == rows(text@)[k],
            filter_map(rows(text@).take(i as int), pick).len() == 0,
        decreases rs.len() - i,
    {
        let f = &rs[i];
        assert(seqs(f@) == rows(text@)[i as int]);
        proof {
            lemma_filter_map_step(rows(text@), pick, i as int);
        }
        if f.len() >= 3 && contains_string(uuids, f[0].as_slice()) {
            proof {
                lemma_first_some_prefix(rows(text@), pick, i + 1);
            }
            return Some((chars_to_string(f[1].as_slice()), chars_to_string(f[2].as_slice())));
        }
        i = i + 1;
    }
    proof {
        lemma_filter_map_all(rows(text@), pick);
    }
    None
}


/// The kinds of connection that can carry the internet to guests.
pub open spec fn internet_kind(t: Seq<char>) -> bool {
    t == "ethernet"@ || t == "wifi"@ || t == "wireguard"@ || t == "tun"@ || t == "ppp"@ || t == "gsm"@
        || t == "cdma"@ || t == "bond"@ || t == "vlan"@ || t == "team"@ || t == "adsl"@
}

/// A connected device whose connection can carry the internet (Ethernet, Wi-Fi used as a
/// client, a VPN, a modem, …) and is not the hotspot's own profile is among the uplink
/// candidates; a bridge never is.
pub proof fn lemma_connected_uplink_candidate(text: Seq<char>, skip: Seq<char>, k: int)
    requires
        0 <= k < rows(text).len(),
        rows(text)[k].len() >= 4,
        rows(text)[k][0].len() > 0,
        starts_with(rows(text)[k][2], "connected"@),
        rows(text)[k][3] != skip,
    ensures
        internet_kind(rows(text)[k][1]) ==> filter_map(rows(text), pick_connected_device(skip)).contains(
            rows(text)[k][0],
        ),
        rows(text)[k][1] == "bridge"@ ==> pick_connected_device(skip)(rows(text)[k]) is None,
{
    let f = rows(text)[k];
    if internet_kind(f[1]) {
        assert(pick_connected_device(skip)(f) == Some(f[0]));
        crate::text::lemma_filter_map_keeps(rows(text), pick_connected_device(skip), k);
    }
    if f[1] == "bridge"@ {
        reveal_strlit("bridge");
        reveal_strlit("ethernet");
        reveal_strlit("wifi");
        reveal_strlit("wireguard");
        reveal_strlit("tun");
        reveal_strlit("ppp");
        reveal_strlit("gsm");
        reveal_strlit("cdma");
        reveal_strlit("bond");
        reveal_strlit("vlan");
        reveal_strlit("team");
        reveal_strlit("adsl");
        assert(f[1].len() == 6);
        assert("ethernet"@.len() == 8 && "wifi"@.len() == 4 && "wireguard"@.len() == 9);
        assert("tun"@.len() == 3 && "ppp"@.len() == 3 && "gsm"@.len() == 3 && "cdma"@.len() == 4);
        assert("bond"@.len() == 4 && "vlan"@.len() == 4 && "team"@.len() == 4 && "adsl"@.len() == 4);
        assert(!uplink_type(f[1]));
    }
}

} // verus!
