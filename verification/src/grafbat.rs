//! The GRAFBAT.out file of a project: its header, then for each survey
//! sheet (Riss) its texts, red lines and lost points with fresh ids, the
//! groups (Mengen) of the sheet and its plot box.

use vstd::prelude::*;
use crate::text::{
    chars_of, dec, join, join_strings, push_all, push_str, split, split_str, string_from_chars,
    string_views, to_string, usize_to_chars, usize_to_chars_padded, zero_pad, matches_at, sub_chars,
};
use crate::collation::{seq_lt, MapKey};
use crate::sorted_map::{SortedMap, key_views, sorted_distinct, strictly_sorted};

verus! {

/// A text of a sheet: its position, its reference point (used where
/// `bezug` is set) and its abbreviation, the coordinates as printed.
pub struct GrafbatText {
    pub x: String,
    pub y: String,
    pub ref_x: String,
    pub ref_y: String,
    pub bezug: bool,
    pub kuerzel: String,
}

/// A point, its coordinates as printed.
pub struct GrafbatPoint {
    pub x: String,
    pub y: String,
}

/// A lost point with the angle of its symbol in gon, as printed.
pub struct GrafbatAngledPoint {
    pub x: String,
    pub y: String,
    pub gon: String,
}

/// What a sheet contributes, every number already printed as text.
pub struct GrafbatRiss {
    pub texte_alt: Vec<GrafbatText>,
    pub texte_neu: Vec<GrafbatText>,
    pub texte_bleibt: Vec<GrafbatText>,
    pub flurstueck_texte: Vec<GrafbatText>,
    pub flur_texte: Vec<GrafbatText>,
    /// Red lines: each a polyline whose consecutive points form segments.
    pub rote_linien: Vec<Vec<GrafbatPoint>>,
    pub punkte_untergehend: Vec<GrafbatAngledPoint>,
    /// The plot box: left, bottom, right and its height.
    pub min_x: String,
    pub min_y: String,
    pub max_x: String,
    pub hoehe: String,
}

// ----- the header --------------------------------------------------------

pub open spec fn tok_open() -> Seq<char> {
    seq!['{', '{']
}

pub open spec fn tok_close() -> Seq<char> {
    seq!['}', '}']
}

pub open spec fn tok_prjname() -> Seq<char> {
    seq!['{', 'p', 'r', 'j', 'n', 'a', 'm', 'e', '}']
}

pub open spec fn tok_uuid() -> Seq<char> {
    seq!['{', 'u', 'u', 'i', 'd', '}']
}

pub open spec fn tok_bbox() -> Seq<char> {
    seq!['{', 'b', 'b', 'o', 'x', '}']
}

/// The header template filled as `format!` fills it: `{prjname}`, `{uuid}`
/// and `{bbox}` by the values, `{{` and `}}` by one brace; from position `i`.
pub open spec fn fill_from(t: Seq<char>, i: int, a: Seq<char>, u: Seq<char>, b: Seq<char>) -> Seq<char>
    decreases t.len() - i,
{
    if i < 0 || i >= t.len() {
        Seq::empty()
    } else if matches_at(t, tok_open(), i) {
        seq!['{'] + fill_from(t, i + 2, a, u, b)
    } else if matches_at(t, tok_close(), i) {
        seq!['}'] + fill_from(t, i + 2, a, u, b)
    } else if matches_at(t, tok_prjname(), i) {
        a + fill_from(t, i + 9, a, u, b)
    } else if matches_at(t, tok_uuid(), i) {
        u + fill_from(t, i + 6, a, u, b)
    } else if matches_at(t, tok_bbox(), i) {
        b + fill_from(t, i + 6, a, u, b)
    } else {
        seq![t[i]] + fill_from(t, i + 1, a, u, b)
    }
}

pub open spec fn fill_header(t: Seq<char>, a: Seq<char>, u: Seq<char>, b: Seq<char>) -> Seq<char> {
    fill_from(t, 0, a, u, b)
}

/// A line without the `\r` of a `\r\n` ending.
pub open spec fn strip_cr(x: Seq<char>) -> Seq<char> {
    if x.len() > 0 && x.last() == '\r' {
        x.drop_last()
    } else {
        x
    }
}

/// `str::lines`: split at `\n`, a `\r` before it dropped, no line after a
/// final `\n`.
pub open spec fn lines_of(parts: Seq<Seq<char>>) -> Seq<Seq<char>> {
    let n = if parts.len() > 0 && parts.last().len() == 0 {
        parts.len() - 1
    } else {
        parts.len() as int
    };
    Seq::new(
        n as nat,
        |i: int|
            if i < parts.len() - 1 {
                strip_cr(parts[i])
            } else {
                parts[i]
            },
    )
}

pub open spec fn str_lines(s: Seq<char>) -> Seq<Seq<char>> {
    lines_of(split(s, "\n"@))
}

fn at(t: &Vec<char>, i: usize, p: &str) -> (r: bool)
    requires
        i <= t@.len(),
    ensures
        r == matches_at(t@, p@, i as int),
{
    let pc = chars_of(p);
    if pc.len() > t.len() - i {
        return false;
    }
    let s = sub_chars(t, i, i + pc.len());
    let mut k: usize = 0;
    while k < pc.len()
        invariant
            k <= pc@.len(),
            i + pc@.len() <= t@.len(),
            s@ == t@.subrange(i as int, i + pc@.len()),
            pc@ == p@,
            s@.len() == pc@.len(),
            forall|j: int| 0 <= j < k ==> s@[j] == pc@[j],
        decreases pc.len() - k,
    {
        if s[k] != pc[k] {
            assert(s@[k as int] != pc@[k as int]);
            assert(s@ != pc@);
            return false;
        }
        k = k + 1;
    }
    assert(s@ =~= pc@);
    true
}

fn fill_header_exec(t: &str, a: &str, u: &str, b: &str) -> (r: Vec<char>)
    ensures
        r@ == fill_header(t@, a@, u@, b@),
{
    let tc = chars_of(t);
    let ghost tv = tc@;
    let mut out: Vec<char> = Vec::new();
    let mut i: usize = 0;
    proof {
        reveal_strlit("{{");
        reveal_strlit("}}");
        reveal_strlit("{prjname}");
        reveal_strlit("{uuid}");
        reveal_strlit("{bbox}");
        reveal_strlit("{");
        reveal_strlit("}");
    }
    proof {
        assert("{{"@ =~= tok_open());
        assert("}}"@ =~= tok_close());
        assert("{prjname}"@ =~= tok_prjname());
        assert("{uuid}"@ =~= tok_uuid());
        assert("{bbox}"@ =~= tok_bbox());
        assert("{"@ =~= seq!['{']);
        assert("}"@ =~= seq!['}']);
    }
    while i < tc.len()
        invariant
            tv == tc@,
            tv == t@,
            i <= tv.len(),
            "{{"@ == tok_open(),
            "}}"@ == tok_close(),
            "{prjname}"@ == tok_prjname(),
            "{uuid}"@ == tok_uuid(),
            "{bbox}"@ == tok_bbox(),
            "{"@ == seq!['{'],
            "}"@ == seq!['}'],
            out@ + fill_from(tv, i as int, a@, u@, b@) == fill_header(tv, a@, u@, b@),
        decreases tv.len() - i,
    {
        let ghost rest = fill_from(tv, i as int, a@, u@, b@);
        let ghost before = out@;
        if at(&tc, i, "{{") {
            push_str(&mut out, "{");
            assert(out@ + fill_from(tv, i + 2, a@, u@, b@) =~= before + rest);
            i = i + 2;
        } else if at(&tc, i, "}}") {
            push_str(&mut out, "}");
            assert(out@ + fill_from(tv, i + 2, a@, u@, b@) =~= before + rest);
            i = i + 2;
        } else if at(&tc, i, "{prjname}") {
            push_str(&mut out, a);
            assert(out@ + fill_from(tv, i + 9, a@, u@, b@) =~= before + rest);
            i = i + 9;
        } else if at(&tc, i, "{uuid}") {
            push_str(&mut out, u);
            assert(out@ + fill_from(tv, i + 6, a@, u@, b@) =~= before + rest);
            i = i + 6;
        } else if at(&tc, i, "{bbox}") {
            push_str(&mut out, b);
            assert(out@ + fill_from(tv, i + 6, a@, u@, b@) =~= before + rest);
            i = i + 6;
        } else {
            out.push(tc[i]);
            assert(out@ + fill_from(tv, i + 1, a@, u@, b@) =~= before + rest);
            i = i + 1;
        }
    }
    assert(fill_from(tv, i as int, a@, u@, b@) =~= Seq::<char>::empty());
    assert(out@ + Seq::<char>::empty() =~= out@);
    out
}

fn str_lines_exec(s: &str) -> (r: Vec<String>)
    ensures
        string_views(r@) == str_lines(s@),
{
    let parts = split_str(s, "\n");
    let ghost pv = string_views(parts@);
    let n = parts.len();
    let count = if n > 0 && chars_of(parts[n - 1].as_str()).len() == 0 {
        n - 1
    } else {
        n
    };
    proof {
        if n > 0 {
            assert(pv.last() == parts@[n - 1]@);
        }
    }
    let mut out: Vec<String> = Vec::new();
    let mut i: usize = 0;
    while i < count
        invariant
            i <= count <= n,
            n == parts@.len(),
            pv == string_views(parts@),
            pv == split(s@, "\n"@),
            count == lines_of(pv).len(),
            string_views(out@) == lines_of(pv).take(i as int),
        decreases count - i,
    {
        let c = chars_of(parts[i].as_str());
        let line = if i < n - 1 && c.len() > 0 && c[c.len() - 1] == '\r' {
            string_from_chars(sub_chars(&c, 0, c.len() - 1).as_slice())
        } else {
            string_from_chars(c.as_slice())
        };
        proof {
            assert(pv[i as int] == c@);
            if c@.len() > 0 {
                assert(c@.drop_last() =~= c@.subrange(0, c@.len() - 1));
            }
        }
        let ghost before = string_views(out@);
        out.push(line);
        assert(string_views(out@) =~= before.push(line@));
        assert(lines_of(pv).take(i + 1) =~= lines_of(pv).take(i as int).push(lines_of(pv)[i as int]));
        i = i + 1;
    }
    assert(lines_of(pv).take(count as int) =~= lines_of(pv));
    out
}

// ----- sorted sets of strings --------------------------------------------

/// The distinct strings of `items` in increasing order.
pub open spec fn sorted_set(items: Seq<Seq<char>>) -> Seq<Seq<char>> {
    choose|w: Seq<Seq<char>>|
        strictly_sorted::<String>(w) && forall|x: Seq<char>| w.contains(x) <==> items.contains(x)
}

proof fn lemma_sorted_prefix(a: Seq<Seq<char>>, b: Seq<Seq<char>>, m: int)
    requires
        strictly_sorted::<String>(a),
        strictly_sorted::<String>(b),
        forall|x: Seq<char>| a.contains(x) <==> b.contains(x),
        0 <= m <= a.len(),
        m <= b.len(),
    ensures
        forall|i: int| 0 <= i < m ==> a[i] == b[i],
    decreases m,
{
    if m > 0 {
        lemma_sorted_prefix(a, b, m - 1);
        let i = m - 1;
        if a[i] != b[i] {
            assert(a.contains(a[i]));
            let j = choose|j: int| 0 <= j < b.len() && b[j] == a[i];
            assert(b.contains(b[i]));
            let j2 = choose|j: int| 0 <= j < a.len() && a[j] == b[i];
            <String as MapKey>::lemma_key_order(a[i], b[i], a[i]);
            <String as MapKey>::lemma_key_order(b[i], a[i], b[i]);
            if j < i {
                assert(b[j] == a[j]);
                assert(seq_lt(a[j], a[i]));
                <String as MapKey>::lemma_key_order(a[i], a[i], a[i]);
            } else if j2 < i {
                assert(b[j2] == a[j2]);
                assert(seq_lt(b[j2], b[i]));
                <String as MapKey>::lemma_key_order(b[i], b[i], b[i]);
            } else {
                assert(seq_lt(b[i], b[j]));
                assert(seq_lt(a[i], a[j2]));
            }
        }
    }
}

/// Two increasing sequences of the same strings are the same.
pub proof fn lemma_sorted_set_unique(a: Seq<Seq<char>>, b: Seq<Seq<char>>)
    requires
        strictly_sorted::<String>(a),
        strictly_sorted::<String>(b),
        forall|x: Seq<char>| a.contains(x) <==> b.contains(x),
    ensures
        a == b,
{
    let m = if a.len() <= b.len() { a.len() } else { b.len() };
    lemma_sorted_prefix(a, b, m as int);
    if a.len() > b.len() {
        let x = a[m as int];
        assert(a.contains(x));
        let j = choose|j: int| 0 <= j < b.len() && b[j] == x;
        assert(a[j] == b[j]);
        assert(seq_lt(a[j], a[m as int]));
        <String as MapKey>::lemma_key_order(x, x, x);
    } else if b.len() > a.len() {
        let x = b[m as int];
        assert(b.contains(x));
        let j = choose|j: int| 0 <= j < a.len() && a[j] == x;
        assert(a[j] == b[j]);
        assert(seq_lt(b[j], b[m as int]));
        <String as MapKey>::lemma_key_order(x, x, x);
    }
    assert(a =~= b);
}

fn sorted_set_exec(items: &Vec<String>) -> (r: Vec<String>)
    ensures
        string_views(r@) == sorted_set(string_views(items@)),
{
    let r = sorted_distinct(items);
    proof {
        assert(key_views(r@) =~= string_views(r@));
        assert(key_views(items@) =~= string_views(items@));
        let w = string_views(r@);
        assert(strictly_sorted::<String>(w) && forall|x: Seq<char>| w.contains(x) <==> string_views(items@).contains(x));
        lemma_sorted_set_unique(w, sorted_set(string_views(items@)));
    }
    r
}


// ----- the lines of a sheet ----------------------------------------------

/// The five kinds of texts.
#[derive(Clone, Copy)]
pub enum TextArt {
    Alt,
    Neu,
    Bleibt,
    Flurstueck,
    Flur,
}

pub open spec fn te_prefix(k: TextArt) -> Seq<char> {
    match k {
        TextArt::Alt => ": ,1600.9101.4140,"@,
        TextArt::Neu => ": ,1600.9101.4140,"@,
        TextArt::Bleibt => ": ,1600.9101.4140,"@,
        TextArt::Flurstueck => ", ,0: ,1600.9102.4111,"@,
        TextArt::Flur => ", ,0: ,1600.9103.4200,"@,
    }
}

pub open spec fn te_tail(k: TextArt) -> Seq<char> {
    match k {
        TextArt::Alt => ",100,0,0,0,0,,0,,,,,,,j,,,"@,
        TextArt::Neu => ",100,0,0,0,0,,0,,,,,,,n,,,0000ff"@,
        TextArt::Bleibt => ",100,0,0,0,0,,0,,,,,,,n,,,010101"@,
        TextArt::Flurstueck => ",100,0,0,4,0,,0,,,,,,,n,,,"@,
        TextArt::Flur => ",100,0,0,4,0,,0,,,,,,,n,,,"@,
    }
}

fn te_prefix_exec(k: TextArt) -> (r: &'static str)
    ensures
        r@ == te_prefix(k),
{
    match k {
        TextArt::Alt => ": ,1600.9101.4140,",
        TextArt::Neu => ": ,1600.9101.4140,",
        TextArt::Bleibt => ": ,1600.9101.4140,",
        TextArt::Flurstueck => ", ,0: ,1600.9102.4111,",
        TextArt::Flur => ", ,0: ,1600.9103.4200,",
    }
}

fn te_tail_exec(k: TextArt) -> (r: &'static str)
    ensures
        r@ == te_tail(k),
{
    match k {
        TextArt::Alt => ",100,0,0,0,0,,0,,,,,,,j,,,",
        TextArt::Neu => ",100,0,0,0,0,,0,,,,,,,n,,,0000ff",
        TextArt::Bleibt => ",100,0,0,0,0,,0,,,,,,,n,,,010101",
        TextArt::Flurstueck => ",100,0,0,4,0,,0,,,,,,,n,,,",
        TextArt::Flur => ",100,0,0,4,0,,0,,,,,,,n,,,",
    }
}

/// The reference point is printed for texts other than Flur names that
/// have one.
pub open spec fn ref_shown(k: TextArt, x: GrafbatText) -> bool {
    !(k is Flur) && x.bezug
}

/// The `TE` line of text `x` with id `t`.
pub open spec fn te_line(k: TextArt, t: nat, x: GrafbatText) -> Seq<char> {
    let x2 = if ref_shown(k, x) { x.ref_x@ } else { Seq::empty() };
    let y2 = if ref_shown(k, x) { x.ref_y@ } else { Seq::empty() };
    "TE"@ + dec(t) + te_prefix(k) + x.x@ + ","@ + x.y@ + ","@ + x2 + ","@ + y2 + te_tail(k)
}

/// The `TX` line: the text's abbreviation.
pub open spec fn tx_line(t: nat, x: GrafbatText) -> Seq<char> {
    "  TX"@ + dec(t) + ": "@ + x.kuerzel@
}

/// The lines of texts `ts`, which get the ids after `t0` in order.
pub open spec fn text_lines(k: TextArt, ts: Seq<GrafbatText>, t0: nat) -> Seq<Seq<char>>
    decreases ts.len(),
{
    if ts.len() == 0 {
        Seq::empty()
    } else {
        text_lines(k, ts.drop_last(), t0) + seq![
            te_line(k, t0 + ts.len(), ts.last()),
            tx_line(t0 + ts.len(), ts.last()),
        ]
    }
}

/// A segment: the coordinates of its start and its end.
pub type Segment = (Seq<char>, Seq<char>, Seq<char>, Seq<char>);

/// The segments of a polyline: each point with the next.
pub open spec fn windows(ps: Seq<GrafbatPoint>) -> Seq<Segment> {
    Seq::new(
        if ps.len() > 0 { (ps.len() - 1) as nat } else { 0 },
        |i: int| (ps[i].x@, ps[i].y@, ps[i + 1].x@, ps[i + 1].y@),
    )
}

/// The segments of all red lines, line by line.
pub open spec fn segments(ls: Seq<Vec<GrafbatPoint>>) -> Seq<Segment>
    decreases ls.len(),
{
    if ls.len() == 0 {
        Seq::empty()
    } else {
        segments(ls.drop_last()) + windows(ls.last()@)
    }
}

pub open spec fn pk_red(p: nat, x: Seq<char>, y: Seq<char>) -> Seq<char> {
    "PK"@ + dec(p) + ": ,1600.9104.0,"@ + x + ","@ + y + ",,,0,0,,,,1005,09.10.24,0,,0,,0,0,,1,0,0,0,,,,,,"@
}

pub open spec fn li_line(l: nat, a: nat, b: nat) -> Seq<char> {
    "LI"@ + dec(l) + ": PK="@ + dec(a) + ",PK="@ + dec(b) + ",1600.9104.1,,,,0,0,,,,"@
}

/// The lines of the red segments: two points and a line each, the points
/// getting the ids after `p0`, the lines those after `l0`.
pub open spec fn red_lines(sg: Seq<Segment>, p0: nat, l0: nat) -> Seq<Seq<char>>
    decreases sg.len(),
{
    if sg.len() == 0 {
        Seq::empty()
    } else {
        let n = sg.len();
        let s = sg.last();
        red_lines(sg.drop_last(), p0, l0) + seq![
            pk_red((p0 + 2 * n - 1) as nat, s.0, s.1),
            pk_red(p0 + 2 * n, s.2, s.3),
            li_line(l0 + n, (p0 + 2 * n - 1) as nat, p0 + 2 * n),
        ]
    }
}

/// The references to the points and lines of `n` red segments.
pub open spec fn red_refs(n: nat, p0: nat, l0: nat) -> Seq<Seq<char>>
    decreases n,
{
    if n == 0 {
        Seq::empty()
    } else {
        red_refs((n - 1) as nat, p0, l0) + seq![
            "PK="@ + dec((p0 + 2 * n - 1) as nat),
            "PK="@ + dec(p0 + 2 * n),
            "LI="@ + dec(l0 + n),
        ]
    }
}

pub open spec fn pk_lost(p: nat, u: GrafbatAngledPoint) -> Seq<char> {
    "PK"@ + dec(p) + ": ,1600.401.20,"@ + u.x@ + ","@ + u.y@ + ",,"@ + u.gon@
        + ",0,0,,,,1007,09.10.24,0,,0,,0,0,,1,0,0,0,,,,,,"@
}

/// The lines of the lost points, which get the ids after `p0`.
pub open spec fn lost_lines(us: Seq<GrafbatAngledPoint>, p0: nat) -> Seq<Seq<char>>
    decreases us.len(),
{
    if us.len() == 0 {
        Seq::empty()
    } else {
        lost_lines(us.drop_last(), p0) + seq![pk_lost(p0 + us.len(), us.last())]
    }
}

pub open spec fn pk_refs(p0: nat, n: nat) -> Seq<Seq<char>> {
    Seq::new(n, |i: int| "PK="@ + dec((p0 + i + 1) as nat))
}

pub open spec fn te_refs(t0: nat, n: nat) -> Seq<Seq<char>> {
    Seq::new(n, |i: int| "TE="@ + dec((t0 + i + 1) as nat))
}

/// The member lines of a group.
pub open spec fn members(refs: Seq<Seq<char>>) -> Seq<Seq<char>> {
    refs.map_values(|r: Seq<char>| "  MR: "@ + r)
}

pub open spec fn menge_line(id: nat, key: usize, name: Seq<char>) -> Seq<char> {
    "MA"@ + dec(id) + ": Riss"@ + dec(key as nat) + "-"@ + name + ",,\"\",date:08.10.24,depend:1,neu:1"@
}

pub open spec fn gesamt_line(id: nat, key: usize) -> Seq<char> {
    "MA"@ + dec(id) + ": RISS"@ + zero_pad(dec(key as nat), 3) + "-GESAMT,,\"\",date:08.10.24,depend:1,neu:1"@
}

pub open spec fn plotbox_line(key: usize, r: GrafbatRiss) -> Seq<char> {
    "PB"@ + dec(key as nat) + ": Riss"@ + dec(key as nat) + ",1600.873.0,"@ + r.min_x@ + ","@ + r.min_y@ + ","@
        + r.max_x@ + ","@ + r.min_y@ + ","@ + r.hoehe@ + ",0"@
}

/// The ids in use before a sheet: groups, points, lines, texts.
pub type Counters = (nat, nat, nat, nat);

pub open spec fn text_count(r: GrafbatRiss) -> nat {
    r.texte_alt@.len() + r.texte_neu@.len() + r.texte_bleibt@.len() + r.flurstueck_texte@.len()
        + r.flur_texte@.len()
}

/// The ids in use after the sheet.
pub open spec fn riss_next(r: GrafbatRiss, c: Counters) -> Counters {
    let ns = segments(r.rote_linien@).len();
    (c.0 + 8, c.1 + 2 * ns + r.punkte_untergehend@.len(), c.2 + ns, c.3 + text_count(r))
}

/// The lines of sheet `key`: its texts, red lines and lost points with
/// fresh ids; the group `RISS{key:03}-GESAMT` of all of them (sorted, each
/// once); the seven groups of its texts by kind, red lines and lost points;
/// and its plot box.
pub open spec fn riss_block(key: usize, r: GrafbatRiss, c: Counters) -> Seq<Seq<char>> {
    riss_objects(r, c) + riss_gesamt(key, r, c) + riss_groups(key, r, c) + seq![plotbox_line(key, r)]
}

/// The first ids of the five kinds of texts of a sheet.
pub open spec fn text_starts(r: GrafbatRiss, t: nat) -> (nat, nat, nat, nat, nat) {
    let tn = t + r.texte_alt@.len();
    let tb = tn + r.texte_neu@.len();
    let tf = tb + r.texte_bleibt@.len();
    let tl = tf + r.flurstueck_texte@.len();
    (t, tn, tb, tf, tl)
}

/// The first id of the lost points of a sheet.
pub open spec fn lost_start(r: GrafbatRiss, p: nat) -> nat {
    p + 2 * segments(r.rote_linien@).len()
}

/// The texts, red lines and lost points of a sheet with their fresh ids.
pub open spec fn riss_objects(r: GrafbatRiss, c: Counters) -> Seq<Seq<char>> {
    let ts = text_starts(r, c.3);
    text_lines(TextArt::Alt, r.texte_alt@, ts.0) + text_lines(TextArt::Neu, r.texte_neu@, ts.1)
        + text_lines(TextArt::Bleibt, r.texte_bleibt@, ts.2) + text_lines(
        TextArt::Flurstueck,
        r.flurstueck_texte@,
        ts.3,
    ) + text_lines(TextArt::Flur, r.flur_texte@, ts.4) + red_lines(segments(r.rote_linien@), c.1, c.2)
        + lost_lines(r.punkte_untergehend@, lost_start(r, c.1))
}

/// A group: its line and its members.
pub open spec fn group(id: nat, key: usize, name: Seq<char>, refs: Seq<Seq<char>>) -> Seq<Seq<char>> {
    seq![menge_line(id, key, name)] + members(refs)
}

/// The group of all objects of the sheet, sorted and each once.
pub open spec fn riss_gesamt(key: usize, r: GrafbatRiss, c: Counters) -> Seq<Seq<char>> {
    let ns = segments(r.rote_linien@).len();
    let items = te_refs(c.3, text_count(r)) + red_refs(ns, c.1, c.2) + pk_refs(
        lost_start(r, c.1),
        r.punkte_untergehend@.len(),
    );
    seq![gesamt_line(c.0 + 8, key)] + members(sorted_set(items))
}

/// The seven groups of a sheet: its texts by kind, its red lines and its
/// lost points.
pub open spec fn riss_groups(key: usize, r: GrafbatRiss, c: Counters) -> Seq<Seq<char>> {
    let m = c.0;
    let ts = text_starts(r, c.3);
    let ns = segments(r.rote_linien@).len();
    group(m + 1, key, "Texte-Alt"@, te_refs(ts.0, r.texte_alt@.len())) + group(
        m + 2,
        key,
        "Texte-Neu"@,
        te_refs(ts.1, r.texte_neu@.len()),
    ) + group(m + 3, key, "Texte-Bleibt"@, te_refs(ts.2, r.texte_bleibt@.len())) + group(
        m + 4,
        key,
        "Texte-Flurstuecke"@,
        te_refs(ts.3, r.flurstueck_texte@.len()),
    ) + group(m + 5, key, "Texte-Flur"@, te_refs(ts.4, r.flur_texte@.len())) + group(
        m + 6,
        key,
        "Linien-Rot"@,
        sorted_set(red_refs(ns, c.1, c.2)),
    ) + group(
        m + 7,
        key,
        "Punkte-Untergehend"@,
        sorted_set(pk_refs(lost_start(r, c.1), r.punkte_untergehend@.len())),
    )
}

/// The ids in use after the sheets `rs`, from one of each at the start.
pub open spec fn counters_after(rs: Seq<(usize, GrafbatRiss)>) -> Counters
    decreases rs.len(),
{
    if rs.len() == 0 {
        (1, 1, 1, 1)
    } else {
        riss_next(rs.last().1, counters_after(rs.drop_last()))
    }
}

/// The lines of the sheets, in key order.
pub open spec fn risse_lines(rs: Seq<(usize, GrafbatRiss)>) -> Seq<Seq<char>>
    decreases rs.len(),
{
    if rs.len() == 0 {
        Seq::empty()
    } else {
        risse_lines(rs.drop_last()) + riss_block(rs.last().0, rs.last().1, counters_after(rs.drop_last()))
    }
}

/// The whole file: the filled header's lines, then the sheets' lines,
/// joined by `\r\n`.
pub open spec fn spec_grafbat_out(
    template: Seq<char>,
    antragsnr: Seq<char>,
    uuid: Seq<char>,
    bbox: Seq<char>,
    rs: Seq<(usize, GrafbatRiss)>,
) -> Seq<char> {
    join(str_lines(fill_header(template, antragsnr, uuid, bbox)) + risse_lines(rs), "\r\n"@)
}

pub open spec fn fits(c: Counters) -> bool {
    c.0 <= usize::MAX && c.1 <= usize::MAX && c.2 <= usize::MAX && c.3 <= usize::MAX
}


// ----- writing the lines -------------------------------------------------

/// `prefix` followed by the number.
fn ref_string(prefix: &str, id: usize) -> (r: String)
    ensures
        r@ == prefix@ + dec(id as nat),
{
    let mut c = chars_of(prefix);
    push_all(&mut c, &usize_to_chars(id));
    string_from_chars(c.as_slice())
}

fn push_line(lines: &mut Vec<String>, l: String)
    ensures
        string_views(final(lines)@) == string_views(old(lines)@).push(l@),
{
    let ghost before = string_views(lines@);
    lines.push(l);
    assert(string_views(lines@) =~= before.push(l@));
}

fn te_line_exec(k: TextArt, t: usize, x: &GrafbatText) -> (r: String)
    ensures
        r@ == te_line(k, t as nat, *x),
{
    let shown = match k {
        TextArt::Flur => false,
        _ => x.bezug,
    };
    let mut c = chars_of("TE");
    push_all(&mut c, &usize_to_chars(t));
    push_str(&mut c, te_prefix_exec(k));
    push_str(&mut c, x.x.as_str());
    push_str(&mut c, ",");
    push_str(&mut c, x.y.as_str());
    push_str(&mut c, ",");
    let ghost c1 = c@;
    if shown {
        push_str(&mut c, x.ref_x.as_str());
    }
    let ghost c2 = c@;
    push_str(&mut c, ",");
    let ghost c3 = c@;
    if shown {
        push_str(&mut c, x.ref_y.as_str());
    }
    let ghost c4 = c@;
    push_str(&mut c, te_tail_exec(k));
    proof {
        let x2 = if ref_shown(k, *x) { x.ref_x@ } else { Seq::<char>::empty() };
        let y2 = if ref_shown(k, *x) { x.ref_y@ } else { Seq::<char>::empty() };
        assert(shown == ref_shown(k, *x));
        assert(c2 =~= c1 + x2);
        assert(c4 =~= c3 + y2);
    }
    string_from_chars(c.as_slice())
}

fn tx_line_exec(t: usize, x: &GrafbatText) -> (r: String)
    ensures
        r@ == tx_line(t as nat, *x),
{
    let mut c = chars_of("  TX");
    push_all(&mut c, &usize_to_chars(t));
    push_str(&mut c, ": ");
    push_str(&mut c, x.kuerzel.as_str());
    string_from_chars(c.as_slice())
}

fn push_texts(lines: &mut Vec<String>, k: TextArt, ts: &Vec<GrafbatText>, t0: usize)
    requires
        t0 + ts@.len() <= usize::MAX,
    ensures
        string_views(final(lines)@) == string_views(old(lines)@) + text_lines(k, ts@, t0 as nat),
{
    let ghost base = string_views(lines@);
    assert(ts@.take(0) =~= Seq::<GrafbatText>::empty());
    assert(base + text_lines(k, ts@.take(0), t0 as nat) =~= base);
    let mut j: usize = 0;
    while j < ts.len()
        invariant
            j <= ts@.len(),
            t0 + ts@.len() <= usize::MAX,
            string_views(lines@) == base + text_lines(k, ts@.take(j as int), t0 as nat),
        decreases ts.len() - j,
    {
        let t = t0 + j + 1;
        let te = te_line_exec(k, t, &ts[j]);
        let tx = tx_line_exec(t, &ts[j]);
        push_line(lines, te);
        push_line(lines, tx);
        proof {
            let tk = ts@.take(j + 1);
            assert(tk.drop_last() =~= ts@.take(j as int));
            assert(tk.last() == ts@[j as int]);
            assert(tk.len() == j + 1);
        }
        assert(string_views(lines@) =~= base + text_lines(k, ts@.take(j + 1), t0 as nat));
        j = j + 1;
    }
    assert(ts@.take(ts@.len() as int) =~= ts@);
}

pub open spec fn seg_views(v: Seq<(String, String, String, String)>) -> Seq<Segment> {
    v.map_values(|e: (String, String, String, String)| (e.0@, e.1@, e.2@, e.3@))
}

fn collect_segments(ls: &Vec<Vec<GrafbatPoint>>) -> (r: Vec<(String, String, String, String)>)
    ensures
        seg_views(r@) == segments(ls@),
{
    let mut r: Vec<(String, String, String, String)> = Vec::new();
    assert(ls@.take(0) =~= Seq::<Vec<GrafbatPoint>>::empty());
    assert(seg_views(r@) =~= Seq::<Segment>::empty());
    let mut i: usize = 0;
    while i < ls.len()
        invariant
            i <= ls@.len(),
            seg_views(r@) == segments(ls@.take(i as int)),
        decreases ls.len() - i,
    {
        let ps = &ls[i];
        let ghost w = windows(ps@);
        let ghost base = seg_views(r@);
        assert(base + w.take(0) =~= base);
        let mut k: usize = 1;
        while k < ps.len()
            invariant
                1 <= k,
                k <= ps@.len() || (ps@.len() == 0 && k == 1),
                w == windows(ps@),
                seg_views(r@) == base + w.take(k - 1),
            decreases ps.len() - k,
        {
            let ghost before = seg_views(r@);
            r.push(
                (
                    copy_str(&ps[k - 1].x),
                    copy_str(&ps[k - 1].y),
                    copy_str(&ps[k].x),
                    copy_str(&ps[k].y),
                ),
            );
            assert(w[k - 1] == (ps@[k - 1].x@, ps@[k - 1].y@, ps@[k as int].x@, ps@[k as int].y@));
            assert(seg_views(r@) =~= before.push(w[k - 1]));
            assert(w.take(k as int) =~= w.take(k - 1).push(w[k - 1]));
            k = k + 1;
        }
        proof {
            if ps@.len() > 0 {
                assert(k == ps@.len());
                assert(w.len() == ps@.len() - 1);
                assert(w.take(w.len() as int) =~= w);
                assert(k - 1 == w.len());
            } else {
                assert(w.len() == 0);
                assert(w.take(k - 1) =~= w);
            }
            let lt = ls@.take(i + 1);
            assert(lt.drop_last() =~= ls@.take(i as int));
            assert(lt.last() == ls@[i as int]);
        }
        i = i + 1;
    }
    assert(ls@.take(ls@.len() as int) =~= ls@);
    r
}

fn copy_str(s: &String) -> (r: String)
    ensures
        r@ == s@,
{
    s.clone()
}

fn pk_red_exec(p: usize, x: &String, y: &String) -> (r: String)
    ensures
        r@ == pk_red(p as nat, x@, y@),
{
    let mut c = chars_of("PK");
    push_all(&mut c, &usize_to_chars(p));
    push_str(&mut c, ": ,1600.9104.0,");
    push_str(&mut c, x.as_str());
    push_str(&mut c, ",");
    push_str(&mut c, y.as_str());
    push_str(&mut c, ",,,0,0,,,,1005,09.10.24,0,,0,,0,0,,1,0,0,0,,,,,,");
    string_from_chars(c.as_slice())
}

fn li_line_exec(l: usize, a: usize, b: usize) -> (r: String)
    ensures
        r@ == li_line(l as nat, a as nat, b as nat),
{
    let mut c = chars_of("LI");
    push_all(&mut c, &usize_to_chars(l));
    push_str(&mut c, ": PK=");
    push_all(&mut c, &usize_to_chars(a));
    push_str(&mut c, ",PK=");
    push_all(&mut c, &usize_to_chars(b));
    push_str(&mut c, ",1600.9104.1,,,,0,0,,,,");
    string_from_chars(c.as_slice())
}

/// Writes the red segments' lines and collects their references.
fn push_red(
    lines: &mut Vec<String>,
    refs: &mut Vec<String>,
    sg: &Vec<(String, String, String, String)>,
    p0: usize,
    l0: usize,
)
    requires
        p0 + 2 * sg@.len() <= usize::MAX,
        l0 + sg@.len() <= usize::MAX,
    ensures
        string_views(final(lines)@) == string_views(old(lines)@) + red_lines(seg_views(sg@), p0 as nat, l0 as nat),
        string_views(final(refs)@) == string_views(old(refs)@) + red_refs(sg@.len(), p0 as nat, l0 as nat),
{
    let ghost base = string_views(lines@);
    let ghost rbase = string_views(refs@);
    let ghost sv = seg_views(sg@);
    assert(sv.take(0) =~= Seq::<Segment>::empty());
    assert(base + red_lines(sv.take(0), p0 as nat, l0 as nat) =~= base);
    assert(rbase + red_refs(0, p0 as nat, l0 as nat) =~= rbase);
    let mut j: usize = 0;
    while j < sg.len()
        invariant
            j <= sg@.len(),
            sv == seg_views(sg@),
            p0 + 2 * sg@.len() <= usize::MAX,
            l0 + sg@.len() <= usize::MAX,
            string_views(lines@) == base + red_lines(sv.take(j as int), p0 as nat, l0 as nat),
            string_views(refs@) == rbase + red_refs(j as nat, p0 as nat, l0 as nat),
        decreases sg.len() - j,
    {
        let n = j + 1;
        let pa = p0 + 2 * n - 1;
        let pb = p0 + 2 * n;
        let li = l0 + n;
        let seg = &sg[j];
        push_line(lines, pk_red_exec(pa, &seg.0, &seg.1));
        push_line(lines, pk_red_exec(pb, &seg.2, &seg.3));
        push_line(lines, li_line_exec(li, pa, pb));
        push_line(refs, ref_string("PK=", pa));
        push_line(refs, ref_string("PK=", pb));
        push_line(refs, ref_string("LI=", li));
        proof {
            let st = sv.take(j + 1);
            assert(st.drop_last() =~= sv.take(j as int));
            assert(st.last() == sv[j as int]);
            assert(sv[j as int] == (seg.0@, seg.1@, seg.2@, seg.3@));
        }
        assert(string_views(lines@) =~= base + red_lines(sv.take(j + 1), p0 as nat, l0 as nat));
        assert(string_views(refs@) =~= rbase + red_refs((j + 1) as nat, p0 as nat, l0 as nat));
        j = j + 1;
    }
    assert(sv.take(sg@.len() as int) =~= sv);
}

fn pk_lost_exec(p: usize, u: &GrafbatAngledPoint) -> (r: String)
    ensures
        r@ == pk_lost(p as nat, *u),
{
    let mut c = chars_of("PK");
    push_all(&mut c, &usize_to_chars(p));
    push_str(&mut c, ": ,1600.401.20,");
    push_str(&mut c, u.x.as_str());
    push_str(&mut c, ",");
    push_str(&mut c, u.y.as_str());
    push_str(&mut c, ",,");
    push_str(&mut c, u.gon.as_str());
    push_str(&mut c, ",0,0,,,,1007,09.10.24,0,,0,,0,0,,1,0,0,0,,,,,,");
    string_from_chars(c.as_slice())
}

/// Writes the lost points' lines and collects their references.
fn push_lost(lines: &mut Vec<String>, refs: &mut Vec<String>, us: &Vec<GrafbatAngledPoint>, p0: usize)
    requires
        p0 + us@.len() <= usize::MAX,
    ensures
        string_views(final(lines)@) == string_views(old(lines)@) + lost_lines(us@, p0 as nat),
        string_views(final(refs)@) == string_views(old(refs)@) + pk_refs(p0 as nat, us@.len()),
{
    let ghost base = string_views(lines@);
    let ghost rbase = string_views(refs@);
    assert(us@.take(0) =~= Seq::<GrafbatAngledPoint>::empty());
    assert(base + lost_lines(us@.take(0), p0 as nat) =~= base);
    assert(rbase + pk_refs(p0 as nat, 0) =~= rbase);
    let mut j: usize = 0;
    while j < us.len()
        invariant
            j <= us@.len(),
            p0 + us@.len() <= usize::MAX,
            string_views(lines@) == base + lost_lines(us@.take(j as int), p0 as nat),
            string_views(refs@) == rbase + pk_refs(p0 as nat, j as nat),
        decreases us.len() - j,
    {
        let p = p0 + j + 1;
        push_line(lines, pk_lost_exec(p, &us[j]));
        push_line(refs, ref_string("PK=", p));
        proof {
            let ut = us@.take(j + 1);
            assert(ut.drop_last() =~= us@.take(j as int));
            assert(ut.last() == us@[j as int]);
        }
        assert(string_views(lines@) =~= base + lost_lines(us@.take(j + 1), p0 as nat));
        assert(string_views(refs@) =~= rbase + pk_refs(p0 as nat, (j + 1) as nat));
        j = j + 1;
    }
    assert(us@.take(us@.len() as int) =~= us@);
}

/// Collects the references of `n` texts with the ids after `t0`.
fn push_te_refs(refs: &mut Vec<String>, t0: usize, n: usize)
    requires
        t0 + n <= usize::MAX,
    ensures
        string_views(final(refs)@) == string_views(old(refs)@) + te_refs(t0 as nat, n as nat),
{
    let ghost rbase = string_views(refs@);
    assert(rbase + te_refs(t0 as nat, 0) =~= rbase);
    let mut j: usize = 0;
    while j < n
        invariant
            j <= n,
            t0 + n <= usize::MAX,
            string_views(refs@) == rbase + te_refs(t0 as nat, j as nat),
        decreases n - j,
    {
        push_line(refs, ref_string("TE=", t0 + j + 1));
        assert(string_views(refs@) =~= rbase + te_refs(t0 as nat, (j + 1) as nat));
        j = j + 1;
    }
}

/// Writes a group's member lines.
fn push_members(lines: &mut Vec<String>, refs: &Vec<String>)
    ensures
        string_views(final(lines)@) == string_views(old(lines)@) + members(string_views(refs@)),
{
    let ghost base = string_views(lines@);
    let ghost rv = string_views(refs@);
    assert(base + members(rv.take(0)) =~= base);
    let mut j: usize = 0;
    while j < refs.len()
        invariant
            j <= refs@.len(),
            rv == string_views(refs@),
            string_views(lines@) == base + members(rv.take(j as int)),
        decreases refs.len() - j,
    {
        let mut c = chars_of("  MR: ");
        push_str(&mut c, refs[j].as_str());
        push_line(lines, string_from_chars(c.as_slice()));
        assert(members(rv.take(j + 1)) =~= members(rv.take(j as int)).push("  MR: "@ + rv[j as int]));
        assert(string_views(lines@) =~= base + members(rv.take(j + 1)));
        j = j + 1;
    }
    assert(rv.take(rv.len() as int) =~= rv);
}

fn menge_line_exec(id: usize, key: usize, name: &str) -> (r: String)
    ensures
        r@ == menge_line(id as nat, key, name@),
{
    let mut c = chars_of("MA");
    push_all(&mut c, &usize_to_chars(id));
    push_str(&mut c, ": Riss");
    push_all(&mut c, &usize_to_chars(key));
    push_str(&mut c, "-");
    push_str(&mut c, name);
    push_str(&mut c, ",,\"\",date:08.10.24,depend:1,neu:1");
    string_from_chars(c.as_slice())
}

fn gesamt_line_exec(id: usize, key: usize) -> (r: String)
    ensures
        r@ == gesamt_line(id as nat, key),
{
    let mut c = chars_of("MA");
    push_all(&mut c, &usize_to_chars(id));
    push_str(&mut c, ": RISS");
    push_all(&mut c, &usize_to_chars_padded(key, 3));
    push_str(&mut c, "-GESAMT,,\"\",date:08.10.24,depend:1,neu:1");
    string_from_chars(c.as_slice())
}

fn plotbox_line_exec(key: usize, r: &GrafbatRiss) -> (s: String)
    ensures
        s@ == plotbox_line(key, *r),
{
    let mut c = chars_of("PB");
    push_all(&mut c, &usize_to_chars(key));
    push_str(&mut c, ": Riss");
    push_all(&mut c, &usize_to_chars(key));
    push_str(&mut c, ",1600.873.0,");
    push_str(&mut c, r.min_x.as_str());
    push_str(&mut c, ",");
    push_str(&mut c, r.min_y.as_str());
    push_str(&mut c, ",");
    push_str(&mut c, r.max_x.as_str());
    push_str(&mut c, ",");
    push_str(&mut c, r.min_y.as_str());
    push_str(&mut c, ",");
    push_str(&mut c, r.hoehe.as_str());
    push_str(&mut c, ",0");
    string_from_chars(c.as_slice())
}


fn push_strings(dst: &mut Vec<String>, src: &Vec<String>)
    ensures
        string_views(final(dst)@) == string_views(old(dst)@) + string_views(src@),
{
    let ghost base = string_views(dst@);
    let ghost sv = string_views(src@);
    assert(base + sv.take(0) =~= base);
    let mut j: usize = 0;
    while j < src.len()
        invariant
            j <= src@.len(),
            sv == string_views(src@),
            string_views(dst@) == base + sv.take(j as int),
        decreases src.len() - j,
    {
        push_line(dst, copy_str(&src[j]));
        assert(sv.take(j + 1) =~= sv.take(j as int).push(sv[j as int]));
        assert(string_views(dst@) =~= base + sv.take(j + 1));
        j = j + 1;
    }
    assert(sv.take(sv.len() as int) =~= sv);
}

fn push_group(lines: &mut Vec<String>, id: usize, key: usize, name: &str, refs: &Vec<String>)
    ensures
        string_views(final(lines)@) == string_views(old(lines)@) + group(id as nat, key, name@, string_views(refs@)),
{
    let ghost base = string_views(lines@);
    push_line(lines, menge_line_exec(id, key, name));
    push_members(lines, refs);
    assert(base.push(menge_line(id as nat, key, name@)) =~= base + seq![menge_line(id as nat, key, name@)]);
}

fn te_group_refs(t0: usize, n: usize) -> (r: Vec<String>)
    requires
        t0 + n <= usize::MAX,
    ensures
        string_views(r@) == te_refs(t0 as nat, n as nat),
{
    let mut v: Vec<String> = Vec::new();
    push_te_refs(&mut v, t0, n);
    assert(string_views(Seq::<String>::empty()) + te_refs(t0 as nat, n as nat) =~= te_refs(t0 as nat, n as nat));
    v
}

/// Writes the texts, red lines and lost points of a sheet; gives the
/// references of the red lines and of the lost points.
#[verifier::spinoff_prover]
fn push_objects(lines: &mut Vec<String>, r: &GrafbatRiss, p: usize, l: usize, t: usize) -> (refs: (
    Vec<String>,
    Vec<String>,
))
    requires
        fits(riss_next(*r, (0, p as nat, l as nat, t as nat))),
    ensures
        string_views(final(lines)@) == string_views(old(lines)@) + riss_objects(*r, (0, p as nat, l as nat, t as nat)),
        string_views(refs.0@) == red_refs(segments(r.rote_linien@).len(), p as nat, l as nat),
        string_views(refs.1@) == pk_refs(lost_start(*r, p as nat), r.punkte_untergehend@.len()),
{
    let ghost base = string_views(lines@);
    let tn = t + r.texte_alt.len();
    let tb = tn + r.texte_neu.len();
    let tf = tb + r.texte_bleibt.len();
    let tl = tf + r.flurstueck_texte.len();
    let sg = collect_segments(&r.rote_linien);
    assert(sg@.len() == segments(r.rote_linien@).len());
    let pu = p + 2 * sg.len();
    push_texts(lines, TextArt::Alt, &r.texte_alt, t);
    push_texts(lines, TextArt::Neu, &r.texte_neu, tn);
    push_texts(lines, TextArt::Bleibt, &r.texte_bleibt, tb);
    push_texts(lines, TextArt::Flurstueck, &r.flurstueck_texte, tf);
    push_texts(lines, TextArt::Flur, &r.flur_texte, tl);
    let mut red: Vec<String> = Vec::new();
    push_red(lines, &mut red, &sg, p, l);
    let mut lost: Vec<String> = Vec::new();
    push_lost(lines, &mut lost, &r.punkte_untergehend, pu);
    assert(string_views(red@) =~= red_refs(sg@.len() as nat, p as nat, l as nat));
    assert(string_views(lost@) =~= pk_refs(pu as nat, r.punkte_untergehend@.len()));
    assert(string_views(lines@) =~= base + riss_objects(*r, (0, p as nat, l as nat, t as nat)));
    (red, lost)
}

/// Writes the seven groups of a sheet.
#[verifier::spinoff_prover]
fn push_groups(
    lines: &mut Vec<String>,
    key: usize,
    r: &GrafbatRiss,
    m: usize,
    p: usize,
    l: usize,
    t: usize,
    red: &Vec<String>,
    lost: &Vec<String>,
)
    requires
        fits(riss_next(*r, (m as nat, p as nat, l as nat, t as nat))),
        string_views(red@) == red_refs(segments(r.rote_linien@).len(), p as nat, l as nat),
        string_views(lost@) == pk_refs(lost_start(*r, p as nat), r.punkte_untergehend@.len()),
    ensures
        string_views(final(lines)@) == string_views(old(lines)@) + riss_groups(
            key,
            *r,
            (m as nat, p as nat, l as nat, t as nat),
        ),
{
    let ghost base = string_views(lines@);
    let na = r.texte_alt.len();
    let nn = r.texte_neu.len();
    let nb = r.texte_bleibt.len();
    let nf = r.flurstueck_texte.len();
    let nl = r.flur_texte.len();
    let tn = t + na;
    let tb = tn + nn;
    let tf = tb + nb;
    let tl = tf + nf;
    push_group(lines, m + 1, key, "Texte-Alt", &te_group_refs(t, na));
    push_group(lines, m + 2, key, "Texte-Neu", &te_group_refs(tn, nn));
    push_group(lines, m + 3, key, "Texte-Bleibt", &te_group_refs(tb, nb));
    push_group(lines, m + 4, key, "Texte-Flurstuecke", &te_group_refs(tf, nf));
    push_group(lines, m + 5, key, "Texte-Flur", &te_group_refs(tl, nl));
    push_group(lines, m + 6, key, "Linien-Rot", &sorted_set_exec(red));
    push_group(lines, m + 7, key, "Punkte-Untergehend", &sorted_set_exec(lost));
    assert(string_views(lines@) =~= base + riss_groups(key, *r, (m as nat, p as nat, l as nat, t as nat)));
}

/// Writes the lines of one sheet and gives the ids in use after it.
#[verifier::spinoff_prover]
fn push_riss(lines: &mut Vec<String>, key: usize, r: &GrafbatRiss, m: usize, p: usize, l: usize, t: usize) -> (next: (
    usize,
    usize,
    usize,
    usize,
))
    requires
        fits(riss_next(*r, (m as nat, p as nat, l as nat, t as nat))),
    ensures
        string_views(final(lines)@) == string_views(old(lines)@) + riss_block(
            key,
            *r,
            (m as nat, p as nat, l as nat, t as nat),
        ),
        (next.0 as nat, next.1 as nat, next.2 as nat, next.3 as nat) == riss_next(
            *r,
            (m as nat, p as nat, l as nat, t as nat),
        ),
{
    let ghost c = (m as nat, p as nat, l as nat, t as nat);
    let ghost base = string_views(lines@);
    let (red, lost) = push_objects(lines, r, p, l, t);
    assert(riss_objects(*r, (0, p as nat, l as nat, t as nat)) == riss_objects(*r, c));
    let ghost s1 = string_views(lines@);
    let tend = t + r.texte_alt.len() + r.texte_neu.len() + r.texte_bleibt.len() + r.flurstueck_texte.len()
        + r.flur_texte.len();
    let mut items = te_group_refs(t, tend - t);
    push_strings(&mut items, &red);
    push_strings(&mut items, &lost);
    let all = sorted_set_exec(&items);
    push_line(lines, gesamt_line_exec(m + 8, key));
    push_members(lines, &all);
    assert(string_views(lines@) =~= s1 + riss_gesamt(key, *r, c));
    let ghost s2 = string_views(lines@);
    push_groups(lines, key, r, m, p, l, t, &red, &lost);
    push_line(lines, plotbox_line_exec(key, r));
    assert(string_views(lines@) =~= base + riss_block(key, *r, c));
    let ns = red.len() / 3;
    proof {
        lemma_red_refs_len(segments(r.rote_linien@).len(), p as nat, l as nat);
    }
    let nu = lost.len();
    (m + 8, p + 2 * ns + nu, l + ns, tend)
}

proof fn lemma_red_refs_len(n: nat, p0: nat, l0: nat)
    ensures
        red_refs(n, p0, l0).len() == 3 * n,
    decreases n,
{
    if n > 0 {
        lemma_red_refs_len((n - 1) as nat, p0, l0);
    }
}

/// The prefixes of the sheets keep every id within `usize`.
pub open spec fn ids_fit(rs: Seq<(usize, GrafbatRiss)>) -> bool {
    forall|i: int| 0 <= i <= rs.len() ==> #[trigger] fits(counters_after(rs.take(i)))
}

/// Writes `Projekt.GRAFBAT.out`: the header template filled with the
/// project number, the file's uuid and its bounding box, then the lines of
/// each sheet in key order, each sheet with its own groups.
pub fn generate_grafbat_out(
    header_template: &str,
    antragsnr: &str,
    uuid: &str,
    bbox: &str,
    risse: &SortedMap<usize, GrafbatRiss>,
) -> (r: String)
    requires
        ids_fit(risse.kv()),
    ensures
        r@ == spec_grafbat_out(header_template@, antragsnr@, uuid@, bbox@, risse.kv()),
{
    let header = fill_header_exec(header_template, antragsnr, uuid, bbox);
    let header_s = string_from_chars(header.as_slice());
    let mut lines = str_lines_exec(header_s.as_str());
    let ghost hl = string_views(lines@);
    let ghost kv = risse.kv();
    let mut m: usize = 1;
    let mut p: usize = 1;
    let mut l: usize = 1;
    let mut t: usize = 1;
    assert(kv.take(0) =~= Seq::<(usize, GrafbatRiss)>::empty());
    assert(hl + risse_lines(kv.take(0)) =~= hl);
    let mut i: usize = 0;
    while i < risse.len()
        invariant
            i <= kv.len(),
            kv == risse.kv(),
            ids_fit(kv),
            string_views(lines@) == hl + risse_lines(kv.take(i as int)),
            (m as nat, p as nat, l as nat, t as nat) == counters_after(kv.take(i as int)),
        decreases kv.len() - i,
    {
        let key = *risse.key_at(i);
        let riss = risse.value_at(i);
        let ghost pre = kv.take(i as int);
        let ghost post = kv.take(i + 1);
        proof {
            assert(post.drop_last() =~= pre);
            assert(post.last() == kv[i as int]);
            assert(fits(counters_after(post)));
        }
        let ghost before = string_views(lines@);
        let next = push_riss(&mut lines, key, riss, m, p, l, t);
        m = next.0;
        p = next.1;
        l = next.2;
        t = next.3;
        assert(string_views(lines@) =~= hl + risse_lines(post));
        i = i + 1;
    }
    assert(kv.take(kv.len() as int) =~= kv);
    join_strings(&lines, "\r\n")
}


/// Sheet `i` (in key order) gets the group ids `8 i + 2` to `8 i + 9`:
/// each sheet has its own groups, and no two sheets share one.
pub proof fn lemma_groups_per_riss(rs: Seq<(usize, GrafbatRiss)>, i: int)
    requires
        0 <= i <= rs.len(),
    ensures
        counters_after(rs.take(i)).0 == 1 + 8 * i,
    decreases i,
{
    if i > 0 {
        lemma_groups_per_riss(rs, i - 1);
        assert(rs.take(i).drop_last() =~= rs.take(i - 1));
    } else {
        assert(rs.take(0) =~= Seq::<(usize, GrafbatRiss)>::empty());
    }
}

/// The ids of points, lines and texts only grow from sheet to sheet, so
/// the ids handed out to a sheet are new.
pub proof fn lemma_ids_grow(rs: Seq<(usize, GrafbatRiss)>, i: int, j: int)
    requires
        0 <= i <= j <= rs.len(),
    ensures
        counters_after(rs.take(i)).1 <= counters_after(rs.take(j)).1,
        counters_after(rs.take(i)).2 <= counters_after(rs.take(j)).2,
        counters_after(rs.take(i)).3 <= counters_after(rs.take(j)).3,
    decreases j - i,
{
    if i < j {
        lemma_ids_grow(rs, i, j - 1);
        assert(rs.take(j).drop_last() =~= rs.take(j - 1));
    }
}

} // verus!
