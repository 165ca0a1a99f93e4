//! The configuration fingerprint of a pipeline node: the lowercase hex
//! SHA-256 digest of the compact JSON object
//! `{"enabled":..,"params":{..},"wiring":{..}}`, whose objects list their
//! members in the byte order of their keys, so that the fingerprint does not
//! depend on the order in which the node lists them.
use vstd::prelude::*;
use crate::crypto::{sha256, sha256_digest};
use crate::hex::{hex_char, hex_digit, hex_seq, hex_string};
use crate::pipeline::{NodeInputRef, ParamValue, PipelineNode};
use crate::segment_merge::seq_lt;
use crate::sorting::{sort_by_key, sorted_by_key};
use crate::text::{concat, decimal, decimal_string, from_chars, to_chars};

verus! {

broadcast use vstd::seq_lib::group_to_multiset_ensures;

/// How compact JSON writes `c` inside a string.
pub open spec fn json_escape_char(c: char) -> Seq<char> {
    if c == '"' {
        seq!['\\', '"']
    } else if c == '\\' {
        seq!['\\', '\\']
    } else if c == '\n' {
        seq!['\\', 'n']
    } else if c == '\r' {
        seq!['\\', 'r']
    } else if c == '\t' {
        seq!['\\', 't']
    } else if c == '\u{8}' {
        seq!['\\', 'b']
    } else if c == '\u{c}' {
        seq!['\\', 'f']
    } else if (c as u32) < 0x20 {
        seq!['\\', 'u', '0', '0', hex_char((c as u32 / 16) as nat), hex_char((c as u32 % 16) as nat)]
    } else {
        seq![c]
    }
}

/// The characters of `s`, each escaped as compact JSON writes it.
pub open spec fn json_escape(s: Seq<char>) -> Seq<char>
    decreases s.len(),
{
    if s.len() == 0 {
        Seq::empty()
    } else {
        json_escape(s.drop_last()) + json_escape_char(s.last())
    }
}

/// `s` as a JSON string literal.
pub open spec fn json_string(s: Seq<char>) -> Seq<char> {
    seq!['"'] + json_escape(s) + seq!['"']
}

/// The JSON text of a parameter value.
pub open spec fn param_json(v: ParamValue) -> Seq<char> {
    match v {
        ParamValue::Text(s) => json_string(s@),
        ParamValue::Json(s) => s@,
    }
}

/// A parameter as a member of the `params` object: its name and value text.
pub open spec fn param_entry(p: (String, ParamValue)) -> (Seq<char>, Seq<char>) {
    (p.0@, param_json(p.1))
}

/// The JSON text of an input source: `["<node id>",<port>]`.
pub open spec fn wire_json(r: NodeInputRef) -> Seq<char> {
    seq!['['] + json_string(r.node_id@) + seq![','] + decimal(r.port as nat) + seq![']']
}

/// An input port as a member of the `wiring` object: the port in decimal and its source.
pub open spec fn wire_entry(w: (usize, NodeInputRef)) -> (Seq<char>, Seq<char>) {
    (decimal(w.0 as nat), wire_json(w.1))
}

/// One object member: `"<key>":<value>`.
pub open spec fn member_text(e: (Seq<char>, Seq<char>)) -> Seq<char> {
    json_string(e.0) + seq![':'] + e.1
}

/// The members of an object, separated by commas.
pub open spec fn members_text(e: Seq<(Seq<char>, Seq<char>)>) -> Seq<char>
    decreases e.len(),
{
    if e.len() == 0 {
        Seq::empty()
    } else if e.len() == 1 {
        member_text(e[0])
    } else {
        members_text(e.drop_last()) + seq![','] + member_text(e.last())
    }
}

/// A JSON object with members `e`, in that order.
pub open spec fn object_text(e: Seq<(Seq<char>, Seq<char>)>) -> Seq<char> {
    seq!['{'] + members_text(e) + seq!['}']
}

/// Members in the order of their keys.
pub open spec fn entries_sorted(e: Seq<(Seq<char>, Seq<char>)>) -> bool {
    forall|i: int, j: int| 0 <= i < j < e.len() ==> !seq_lt(#[trigger] e[j].0, #[trigger] e[i].0)
}

/// The JSON text that is hashed, with the members of `params` and `wiring`
/// as given.
pub open spec fn config_text(
    enabled: bool,
    params: Seq<(Seq<char>, Seq<char>)>,
    wiring: Seq<(Seq<char>, Seq<char>)>,
) -> Seq<char> {
    "{\"enabled\":"@ + (if enabled { "true"@ } else { "false"@ }) + ",\"params\":"@
        + object_text(params) + ",\"wiring\":"@ + object_text(wiring) + "}"@
}

/// The fingerprint of the configuration text `text`.
pub open spec fn fingerprint_of(text: Seq<char>) -> Seq<char> {
    hex_seq(sha256_digest(vstd::utf8::encode_utf8(text)))
}

/// The view of a pair of strings.
pub open spec fn pair_view(p: (String, String)) -> (Seq<char>, Seq<char>) {
    (p.0@, p.1@)
}

/// Reordering a sequence reorders its image under `f` alike.
pub proof fn lemma_map_values_to_multiset<A, B>(a: Seq<A>, b: Seq<A>, f: spec_fn(A) -> B)
    requires
        a.to_multiset() == b.to_multiset(),
    ensures
        a.map_values(f).to_multiset() == b.map_values(f).to_multiset(),
    decreases a.len(),
{
    broadcast use vstd::multiset::group_multiset_axioms;

    if a.len() == 0 {
        assert(a.to_multiset().len() == a.len());
        assert(b.to_multiset().len() == b.len());
        assert(b.len() == 0);
        assert(a.map_values(f) =~= b.map_values(f));
    } else {
        let x = a.last();
        let a1 = a.drop_last();
        assert(a =~= a1.push(x));
        assert(a.to_multiset().count(x) > 0);
        assert(b.to_multiset().contains(x));
        assert(b.contains(x));
        let k = choose|k: int| 0 <= k < b.len() && b[k] == x;
        let b1 = b.remove(k);
        assert(b1.to_multiset() == b.to_multiset().remove(x));
        assert(a1.to_multiset() =~= a.to_multiset().remove(x));
        lemma_map_values_to_multiset(a1, b1, f);
        assert(a.map_values(f) =~= a1.map_values(f).push(f(x)));
        assert(b.map_values(f) =~= b1.map_values(f).insert(k, f(x)));
    }
}

/// `s` escaped as compact JSON writes a string's characters.
fn escape_json(s: &str) -> (r: Vec<char>)
    ensures
        r@ == json_escape(s@),
{
    let cs = to_chars(s);
    let mut out: Vec<char> = Vec::new();
    let mut i: usize = 0;
    while i < cs.len()
        invariant
            i <= cs@.len(),
            cs@ == s@,
            out@ == json_escape(cs@.take(i as int)),
        decreases cs.len() - i,
    {
        let c = cs[i];
        assert(cs@.take(i + 1).drop_last() =~= cs@.take(i as int));
        let ghost before = out@;
        if c == '"' {
            out.push('\\');
            out.push('"');
        } else if c == '\\' {
            out.push('\\');
            out.push('\\');
        } else if c == '\n' {
            out.push('\\');
            out.push('n');
        } else if c == '\r' {
            out.push('\\');
            out.push('r');
        } else if c == '\t' {
            out.push('\\');
            out.push('t');
        } else if c == '\u{8}' {
            out.push('\\');
            out.push('b');
        } else if c == '\u{c}' {
            out.push('\\');
            out.push('f');
        } else if (c as u32) < 0x20 {
            let code: u32 = c as u32;
            out.push('\\');
            out.push('u');
            out.push('0');
            out.push('0');
            out.push(hex_digit((code / 16) as u8));
            out.push(hex_digit((code % 16) as u8));
        } else {
            out.push(c);
        }
        assert(out@ =~= before + json_escape_char(c));
        i += 1;
    }
    assert(cs@.take(i as int) =~= cs@);
    out
}

/// `s` as a JSON string literal.
fn json_string_chars(s: &str) -> (r: Vec<char>)
    ensures
        r@ == json_string(s@),
{
    let mut out: Vec<char> = Vec::new();
    out.push('"');
    let body = escape_json(s);
    let mut all = concat(&out, &body);
    all.push('"');
    assert(all@ =~= json_string(s@));
    all
}

/// The text of the members `e` of an object, in order.
fn members_chars(e: &Vec<(String, String)>) -> (r: Vec<char>)
    ensures
        r@ == members_text(e@.map_values(|p: (String, String)| pair_view(p))),
{
    let ghost ev = e@.map_values(|p: (String, String)| pair_view(p));
    let mut out: Vec<char> = Vec::new();
    let mut i: usize = 0;
    while i < e.len()
        invariant
            i <= e@.len(),
            ev == e@.map_values(|p: (String, String)| pair_view(p)),
            out@ == members_text(ev.take(i as int)),
        decreases e.len() - i,
    {
        assert(ev.take(i + 1).drop_last() =~= ev.take(i as int));
        assert(ev.take(i + 1).last() == pair_view(e@[i as int]));
        let key = json_string_chars(e[i].0.as_str());
        let mut m = key;
        m.push(':');
        let value = to_chars(e[i].1.as_str());
        let m2 = concat(&m, &value);
        assert(m2@ =~= member_text(pair_view(e@[i as int])));
        if i == 0 {
            assert(ev.take(1) =~= seq![ev[0]]);
            out = m2;
        } else {
            out.push(',');
            out = concat(&out, &m2);
        }
        i += 1;
    }
    assert(ev.take(i as int) =~= ev);
    out
}

/// The JSON object with members `e`, in order.
fn object_chars(e: &Vec<(String, String)>) -> (r: Vec<char>)
    ensures
        r@ == object_text(e@.map_values(|p: (String, String)| pair_view(p))),
{
    let mut out: Vec<char> = Vec::new();
    out.push('{');
    let body = members_chars(e);
    let mut all = concat(&out, &body);
    all.push('}');
    assert(all@ =~= object_text(e@.map_values(|p: (String, String)| pair_view(p))));
    all
}

/// `entries` ordered by key, with what it holds unchanged.
fn sorted_entries(entries: Vec<(String, String)>) -> (r: Vec<(String, String)>)
    ensures
        entries_sorted(r@.map_values(|p: (String, String)| pair_view(p))),
        r@.map_values(|p: (String, String)| pair_view(p)).to_multiset()
            == entries@.map_values(|p: (String, String)| pair_view(p)).to_multiset(),
{
    let ghost before = entries@;
    let r = sort_by_key(entries);
    proof {
        lemma_map_values_to_multiset(r@, before, |p: (String, String)| pair_view(p));
        let rv = r@.map_values(|p: (String, String)| pair_view(p));
        assert forall|i: int, j: int| 0 <= i < j < rv.len() implies !seq_lt(
            #[trigger] rv[j].0,
            #[trigger] rv[i].0,
        ) by {
            assert(rv[j].0 == r@[j].0@);
            assert(rv[i].0 == r@[i].0@);
        }
    }
    r
}

/// The members of the `params` object of `node`, in the node's order.
fn param_entries(node: &PipelineNode) -> (r: Vec<(String, String)>)
    ensures
        r@.map_values(|p: (String, String)| pair_view(p)) == node.params@.map_values(
            |p: (String, ParamValue)| param_entry(p),
        ),
{
    let mut out: Vec<(String, String)> = Vec::new();
    let mut i: usize = 0;
    while i < node.params.len()
        invariant
            i <= node.params@.len(),
            out@.len() == i,
            forall|k: int| 0 <= k < i ==> pair_view(#[trigger] out@[k]) == param_entry(node.params@[k]),
        decreases node.params.len() - i,
    {
        let key = from_chars(&to_chars(node.params[i].0.as_str()));
        let value = match &node.params[i].1 {
            ParamValue::Text(s) => from_chars(&json_string_chars(s.as_str())),
            ParamValue::Json(s) => from_chars(&to_chars(s.as_str())),
        };
        out.push((key, value));
        i += 1;
    }
    assert(out@.map_values(|p: (String, String)| pair_view(p)) =~= node.params@.map_values(
        |p: (String, ParamValue)| param_entry(p),
    ));
    out
}

/// The members of the `wiring` object of `node`, in the node's order.
fn wire_entries(node: &PipelineNode) -> (r: Vec<(String, String)>)
    ensures
        r@.map_values(|p: (String, String)| pair_view(p)) == node.inputs@.map_values(
            |w: (usize, NodeInputRef)| wire_entry(w),
        ),
{
    let mut out: Vec<(String, String)> = Vec::new();
    let mut i: usize = 0;
    while i < node.inputs.len()
        invariant
            i <= node.inputs@.len(),
            out@.len() == i,
            forall|k: int| 0 <= k < i ==> pair_view(#[trigger] out@[k]) == wire_entry(node.inputs@[k]),
        decreases node.inputs.len() - i,
    {
        let port = node.inputs[i].0;
        let src = &node.inputs[i].1;
        let key = decimal_string(port as u64);
        let mut v: Vec<char> = Vec::new();
        v.push('[');
        let name = json_string_chars(src.node_id.as_str());
        let mut v2 = concat(&v, &name);
        v2.push(',');
        let digits = to_chars(decimal_string(src.port as u64).as_str());
        let mut v3 = concat(&v2, &digits);
        v3.push(']');
        assert(v3@ =~= wire_json(*src));
        out.push((key, from_chars(&v3)));
        i += 1;
    }
    assert(out@.map_values(|p: (String, String)| pair_view(p)) =~= node.inputs@.map_values(
        |w: (usize, NodeInputRef)| wire_entry(w),
    ));
    out
}

/// The configuration fingerprint of `node`: the lowercase hex SHA-256 of
/// its compact JSON configuration (enabled flag, parameters and wiring, each
/// object's members in key order).
pub fn node_config_fingerprint(node: &PipelineNode) -> (r: String)
    ensures
        exists|params: Seq<(Seq<char>, Seq<char>)>, wiring: Seq<(Seq<char>, Seq<char>)>|
            #[trigger] members_in_order(*node, params, wiring) && r@ == fingerprint_of(
                config_text(node.enabled, params, wiring),
            ),
{
    let ps = sorted_entries(param_entries(node));
    let ws = sorted_entries(wire_entries(node));
    let mut text = to_chars("{\"enabled\":");
    if node.enabled {
        text = concat(&text, &to_chars("true"));
    } else {
        text = concat(&text, &to_chars("false"));
    }
    text = concat(&text, &to_chars(",\"params\":"));
    text = concat(&text, &object_chars(&ps));
    text = concat(&text, &to_chars(",\"wiring\":"));
    text = concat(&text, &object_chars(&ws));
    text = concat(&text, &to_chars("}"));
    let ghost pv = ps@.map_values(|p: (String, String)| pair_view(p));
    let ghost wv = ws@.map_values(|p: (String, String)| pair_view(p));
    assert(text@ =~= config_text(node.enabled, pv, wv));
    let s = from_chars(&text);
    let digest = sha256(s.as_str().as_bytes());
    let r = hex_string(&digest);
    assert(r@ == fingerprint_of(config_text(node.enabled, pv, wv)));
    assert(members_in_order(*node, pv, wv));
    r
}

/// `params` and `wiring` are the members of the node's `params` and
/// `wiring` objects, each in the order of their keys.
pub open spec fn members_in_order(
    node: PipelineNode,
    params: Seq<(Seq<char>, Seq<char>)>,
    wiring: Seq<(Seq<char>, Seq<char>)>,
) -> bool {
    &&& entries_sorted(params)
    &&& params.to_multiset() == node.params@.map_values(|p: (String, ParamValue)| param_entry(p)).to_multiset()
    &&& entries_sorted(wiring)
    &&& wiring.to_multiset() == node.inputs@.map_values(|w: (usize, NodeInputRef)| wire_entry(w)).to_multiset()
}

/// No key occurs twice among the members.
pub open spec fn keys_distinct(e: Seq<(Seq<char>, Seq<char>)>) -> bool {
    forall|i: int, j: int| 0 <= i < j < e.len() ==> #[trigger] e[i].0 != #[trigger] e[j].0
}

/// A character's code as a `u32` is the character itself.
proof fn lemma_char_code(c: char)
    ensures
        (c as u32) as int == c as int,
{
    assert(0 <= c as int <= 0x10FFFF);
}

/// Of two different texts, one comes first.
pub proof fn lemma_seq_lt_total(a: Seq<char>, b: Seq<char>)
    requires
        a != b,
    ensures
        seq_lt(a, b) || seq_lt(b, a),
    decreases a.len(),
{
    if a.len() == 0 && b.len() == 0 {
        assert(a =~= b);
    } else if a.len() > 0 && b.len() > 0 && a[0] == b[0] {
        if a.drop_first() == b.drop_first() {
            assert(a.drop_first().len() == b.drop_first().len());
            assert(a.len() == b.len());
            assert forall|i: int| 0 <= i < a.len() implies a[i] == b[i] by {
                if i > 0 {
                    assert(a[i] == a.drop_first()[i - 1]);
                    assert(b[i] == b.drop_first()[i - 1]);
                }
            }
            assert(a =~= b);
        }
        lemma_seq_lt_total(a.drop_first(), b.drop_first());
    } else if a.len() > 0 && b.len() > 0 {
        lemma_char_code(a[0]);
        lemma_char_code(b[0]);
    }
}

/// Members in key order, with no key twice, are fixed by what they hold.
pub proof fn lemma_sorted_members_unique(e1: Seq<(Seq<char>, Seq<char>)>, e2: Seq<(Seq<char>, Seq<char>)>)
    requires
        entries_sorted(e1),
        entries_sorted(e2),
        keys_distinct(e1),
        keys_distinct(e2),
        e1.to_multiset() == e2.to_multiset(),
    ensures
        e1 == e2,
    decreases e1.len(),
{
    broadcast use vstd::multiset::group_multiset_axioms;

    assert(e1.to_multiset().len() == e1.len());
    assert(e2.to_multiset().len() == e2.len());
    if e1.len() == 0 {
        assert(e1 =~= e2);
    } else {
        let x = e1[0];
        assert(e1.contains(x));
        assert(e1.to_multiset().count(x) > 0);
        assert(e2.contains(x));
        let k = choose|k: int| 0 <= k < e2.len() && e2[k] == x;
        let y = e2[0];
        assert(e2.contains(y));
        assert(e2.to_multiset().count(y) > 0);
        assert(e1.contains(y));
        let m = choose|m: int| 0 <= m < e1.len() && e1[m] == y;
        if k != 0 {
            assert(e2[0].0 != e2[k].0);
            assert(!seq_lt(e2[k].0, e2[0].0));
            lemma_seq_lt_total(x.0, y.0);
            if m == 0 {
                assert(false);
            } else {
                assert(e1[0].0 != e1[m].0);
                assert(!seq_lt(e1[m].0, e1[0].0));
                assert(false);
            }
        }
        assert(e2[0] == x);
        let t1 = e1.drop_first();
        let t2 = e2.drop_first();
        assert(e1.remove(0) =~= t1);
        assert(e2.remove(0) =~= t2);
        assert(t1.to_multiset() == e1.to_multiset().remove(x));
        assert(t2.to_multiset() == e2.to_multiset().remove(x));
        assert forall|i: int, j: int| 0 <= i < j < t1.len() implies !seq_lt(#[trigger] t1[j].0, #[trigger] t1[i].0) by {
            assert(t1[j] == e1[j + 1] && t1[i] == e1[i + 1]);
        }
        assert forall|i: int, j: int| 0 <= i < j < t2.len() implies !seq_lt(#[trigger] t2[j].0, #[trigger] t2[i].0) by {
            assert(t2[j] == e2[j + 1] && t2[i] == e2[i + 1]);
        }
        assert forall|i: int, j: int| 0 <= i < j < t1.len() implies #[trigger] t1[i].0 != #[trigger] t1[j].0 by {
            assert(t1[j] == e1[j + 1] && t1[i] == e1[i + 1]);
        }
        assert forall|i: int, j: int| 0 <= i < j < t2.len() implies #[trigger] t2[i].0 != #[trigger] t2[j].0 by {
            assert(t2[j] == e2[j + 1] && t2[i] == e2[i + 1]);
        }
        lemma_sorted_members_unique(t1, t2);
        assert forall|i: int| 0 <= i < e1.len() implies e1[i] == e2[i] by {
            if i > 0 {
                assert(e1[i] == t1[i - 1]);
                assert(e2[i] == t2[i - 1]);
            }
        }
        assert(e1 =~= e2);
    }
}

/// The fingerprint does not depend on the order in which a node lists its
/// parameters and inputs: two nodes with the same enabled flag, the same
/// parameters and the same inputs, listed in any order and with no name or
/// port twice, are hashed from the same configuration text.
pub proof fn law_fingerprint_order_independent(
    n1: PipelineNode,
    n2: PipelineNode,
    p1: Seq<(Seq<char>, Seq<char>)>,
    w1: Seq<(Seq<char>, Seq<char>)>,
    p2: Seq<(Seq<char>, Seq<char>)>,
    w2: Seq<(Seq<char>, Seq<char>)>,
)
    requires
        members_in_order(n1, p1, w1),
        members_in_order(n2, p2, w2),
        n1.enabled == n2.enabled,
        n1.params@.map_values(|p: (String, ParamValue)| param_entry(p)).to_multiset()
            == n2.params@.map_values(|p: (String, ParamValue)| param_entry(p)).to_multiset(),
        n1.inputs@.map_values(|w: (usize, NodeInputRef)| wire_entry(w)).to_multiset()
            == n2.inputs@.map_values(|w: (usize, NodeInputRef)| wire_entry(w)).to_multiset(),
        keys_distinct(p1),
        keys_distinct(p2),
        keys_distinct(w1),
        keys_distinct(w2),
    ensures
        config_text(n1.enabled, p1, w1) == config_text(n2.enabled, p2, w2),
        fingerprint_of(config_text(n1.enabled, p1, w1)) == fingerprint_of(config_text(n2.enabled, p2, w2)),
{
    lemma_sorted_members_unique(p1, p2);
    lemma_sorted_members_unique(w1, w2);
}

} // verus!
