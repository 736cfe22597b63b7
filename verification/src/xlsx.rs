//! Parcel identifiers (Flurstückskennzeichen): parsing, normalising and
//! formatting, and the list of all parcels of a data set.

use vstd::prelude::*;
use crate::text::{chars_of, string_from_chars, to_string, trim, trim_chars, parse_usize, parse_usize_chars, zero_pad, dec, usize_to_chars, usize_to_chars_padded, usize_to_string, push_str, push_all, sub_chars, join, string_views, join_strings, digit, digit_value, digits_value, is_digit, all_digits, is_ws, trim_start};
use crate::seq_lemmas::{lemma_filter_map_add, lemma_filter_map_keeps_all};
use crate::collation::{Comparison, MapKey};
use crate::csv::{CsvDataType, data_keys};
use crate::sorted_map::{SortedMap, keys_sorted, lookup, key_index, lemma_key_index_unique};

verus! {

/// A parcel identifier split into its fixed-width text fields
/// (land, Gemarkung, Flur, Zähler, Nenner, padding).
#[derive(Debug, Clone, PartialEq, Eq, Hash)]
pub struct FlstIdParsed {
    pub land: String,
    pub gemarkung: String,
    pub flur: String,
    pub flst_zaehler: String,
    pub flst_nenner: String,
    pub padding: String,
}

/// The text fields of a `FlstIdParsed`.
pub struct FlstIdParsedView {
    pub land: Seq<char>,
    pub gemarkung: Seq<char>,
    pub flur: Seq<char>,
    pub flst_zaehler: Seq<char>,
    pub flst_nenner: Seq<char>,
    pub padding: Seq<char>,
}

impl View for FlstIdParsed {
    type V = FlstIdParsedView;

    open spec fn view(&self) -> FlstIdParsedView {
        FlstIdParsedView {
            land: self.land@,
            gemarkung: self.gemarkung@,
            flur: self.flur@,
            flst_zaehler: self.flst_zaehler@,
            flst_nenner: self.flst_nenner@,
            padding: self.padding@,
        }
    }
}

/// A parcel identifier as numbers; a Nenner of 0 is no Nenner.
#[derive(Debug, Default, Clone, Copy, PartialEq, Eq, PartialOrd, Ord, Hash)]
pub struct FlstIdParsedNumber {
    pub land: usize,
    pub gemarkung: usize,
    pub flur: usize,
    pub flst_zaehler: usize,
    pub flst_nenner: Option<usize>,
}

impl View for FlstIdParsedNumber {
    type V = FlstIdParsedNumber;

    open spec fn view(&self) -> FlstIdParsedNumber {
        *self
    }
}

/// `None < Some(a) < Some(b)` for `a < b`, as std orders options.
pub open spec fn opt_lt(a: Option<usize>, b: Option<usize>) -> bool {
    match (a, b) {
        (None, Some(_)) => true,
        (Some(x), Some(y)) => x < y,
        _ => false,
    }
}

/// The field-by-field order that `derive(Ord)` gives `FlstIdParsedNumber`.
pub open spec fn flst_lt(a: FlstIdParsedNumber, b: FlstIdParsedNumber) -> bool {
    if a.land != b.land {
        a.land < b.land
    } else if a.gemarkung != b.gemarkung {
        a.gemarkung < b.gemarkung
    } else if a.flur != b.flur {
        a.flur < b.flur
    } else if a.flst_zaehler != b.flst_zaehler {
        a.flst_zaehler < b.flst_zaehler
    } else {
        opt_lt(a.flst_nenner, b.flst_nenner)
    }
}

impl MapKey for FlstIdParsedNumber {
    open spec fn key_lt(a: FlstIdParsedNumber, b: FlstIdParsedNumber) -> bool {
        flst_lt(a, b)
    }

    proof fn lemma_key_order(a: FlstIdParsedNumber, b: FlstIdParsedNumber, c: FlstIdParsedNumber) {
    }

    fn compare(&self, other: &Self) -> (c: Comparison) {
        if self.land != other.land {
            if self.land < other.land { Comparison::Less } else { Comparison::Greater }
        } else if self.gemarkung != other.gemarkung {
            if self.gemarkung < other.gemarkung { Comparison::Less } else { Comparison::Greater }
        } else if self.flur != other.flur {
            if self.flur < other.flur { Comparison::Less } else { Comparison::Greater }
        } else if self.flst_zaehler != other.flst_zaehler {
            if self.flst_zaehler < other.flst_zaehler { Comparison::Less } else { Comparison::Greater }
        } else {
            match (self.flst_nenner, other.flst_nenner) {
                (None, None) => Comparison::Equal,
                (None, Some(_)) => Comparison::Less,
                (Some(_), None) => Comparison::Greater,
                (Some(x), Some(y)) => if x < y {
                    Comparison::Less
                } else if x == y {
                    Comparison::Equal
                } else {
                    Comparison::Greater
                },
            }
        }
    }

    fn copy_key(&self) -> (r: Self) {
        *self
    }
}

// ---------------------------------------------------------------------------
// Parsing
// ---------------------------------------------------------------------------

/// The separators that may stand between the fields of an identifier.
pub open spec fn is_separator(c: char) -> bool {
    c == '-' || c == '_' || c == '/' || c == ' '
}

pub open spec fn strip_separators(s: Seq<char>) -> Seq<char> {
    s.filter_map(|c: char| if is_separator(c) { None } else { Some(c) })
}

/// `chars.iter().skip(start).take(len)`.
pub open spec fn take_field(s: Seq<char>, start: nat, len: nat) -> Seq<char> {
    let a = if start <= s.len() { start as int } else { s.len() as int };
    let b = if start + len <= s.len() { (start + len) as int } else { s.len() as int };
    s.subrange(a, b)
}

/// A numeric field rewritten with `w` digits, or `default` where it is no number.
pub open spec fn normalize_field(f: Seq<char>, w: nat, default: Seq<char>) -> Seq<char> {
    match parse_usize(f) {
        Some(n) => zero_pad(dec(n as nat), w),
        None => default,
    }
}

pub open spec fn spec_flst_from_str(id: Seq<char>) -> FlstIdParsedView {
    let c = strip_separators(id);
    let padding = take_field(c, 18, 2);
    FlstIdParsedView {
        land: normalize_field(take_field(c, 0, 2), 2, "12"@),
        gemarkung: normalize_field(take_field(c, 2, 4), 4, "0000"@),
        flur: normalize_field(take_field(c, 6, 3), 3, "001"@),
        flst_zaehler: normalize_field(take_field(c, 9, 5), 5, "00001"@),
        flst_nenner: normalize_field(take_field(c, 14, 4), 4, "0000"@),
        padding: if padding.len() == 0 {
            "00"@
        } else {
            padding
        },
    }
}

fn strip_separators_exec(s: &Vec<char>) -> (res: Vec<char>)
    ensures
        res@ == strip_separators(s@),
{
    let mut res: Vec<char> = Vec::new();
    let mut i: usize = 0;
    while i < s.len()
        invariant
            i <= s@.len(),
            res@ == strip_separators(s@.take(i as int)),
        decreases s.len() - i,
    {
        let c = s[i];
        proof {
            s@.lemma_filter_map_take_succ(
                |c: char| if is_separator(c) { None } else { Some(c) },
                i as int,
            );
        }
        if !(c == '-' || c == '_' || c == '/' || c == ' ') {
            res.push(c);
        }
        i = i + 1;
    }
    assert(s@.take(s@.len() as int) =~= s@);
    res
}

fn take_field_exec(s: &Vec<char>, start: usize, len: usize) -> (res: Vec<char>)
    requires
        start + len <= usize::MAX,
    ensures
        res@ == take_field(s@, start as nat, len as nat),
{
    let n = s.len();
    let a = if start <= n { start } else { n };
    let b = if start + len <= n { start + len } else { n };
    sub_chars(s, a, b)
}

fn normalize_field_exec(f: &Vec<char>, w: usize, default: &str) -> (res: String)
    ensures
        res@ == normalize_field(f@, w as nat, default@),
{
    match parse_usize_chars(f) {
        Some(n) => {
            let v = usize_to_chars_padded(n, w);
            string_from_chars(v.as_slice())
        },
        None => to_string(default),
    }
}

impl FlstIdParsed {
    /// Reads an identifier such as `12 1180 003 00001 0000 00` or
    /// `12-1180-003-00261/0000`: separators are dropped, the fields are cut
    /// at fixed positions, and each numeric field is rewritten with its
    /// full width (or a default where it is no number).
    pub fn from_str(id: &str) -> (res: FlstIdParsed)
        ensures
            res@ == spec_flst_from_str(id@),
    {
        let raw = chars_of(id);
        let c = strip_separators_exec(&raw);
        let land = normalize_field_exec(&take_field_exec(&c, 0, 2), 2, "12");
        let gemarkung = normalize_field_exec(&take_field_exec(&c, 2, 4), 4, "0000");
        let flur = normalize_field_exec(&take_field_exec(&c, 6, 3), 3, "001");
        let flst_zaehler = normalize_field_exec(&take_field_exec(&c, 9, 5), 5, "00001");
        let flst_nenner = normalize_field_exec(&take_field_exec(&c, 14, 4), 4, "0000");
        let p = take_field_exec(&c, 18, 2);
        let padding = if p.len() == 0 {
            to_string("00")
        } else {
            string_from_chars(p.as_slice())
        };
        FlstIdParsed { land, gemarkung, flur, flst_zaehler, flst_nenner, padding }
    }
}


/// A Nenner of 0 (or none that parses) is no Nenner.
pub open spec fn spec_nenner(f: Seq<char>) -> Option<usize> {
    match parse_usize(trim(f)) {
        Some(n) => if n == 0 {
            None
        } else {
            Some(n)
        },
        None => None,
    }
}

pub open spec fn spec_parse_num(f: FlstIdParsedView) -> Option<FlstIdParsedNumber> {
    match (
        parse_usize(trim(f.land)),
        parse_usize(trim(f.gemarkung)),
        parse_usize(trim(f.flur)),
        parse_usize(trim(f.flst_zaehler)),
    ) {
        (Some(l), Some(g), Some(fl), Some(z)) => Some(
            FlstIdParsedNumber {
                land: l,
                gemarkung: g,
                flur: fl,
                flst_zaehler: z,
                flst_nenner: spec_nenner(f.flst_nenner),
            },
        ),
        _ => None,
    }
}

/// `s.trim().parse::<usize>().ok()`.
pub fn parse_trimmed(s: &String) -> (r: Option<usize>)
    ensures
        r == parse_usize(trim(s@)),
{
    let v = chars_of(s.as_str());
    let t = trim_chars(&v);
    parse_usize_chars(&t)
}

pub open spec fn spec_to_nice_string(f: FlstIdParsedView) -> Seq<char> {
    f.land + "-"@ + f.gemarkung + "-"@ + f.flur + "-"@ + f.flst_zaehler + "/"@ + f.flst_nenner
}

impl FlstIdParsed {
    /// The numbers of the identifier, if its first four fields are numbers.
    pub fn parse_num(&self) -> (r: Option<FlstIdParsedNumber>)
        ensures
            r == spec_parse_num(self@),
    {
        let land = parse_trimmed(&self.land);
        let gemarkung = parse_trimmed(&self.gemarkung);
        let flur = parse_trimmed(&self.flur);
        let flst_zaehler = parse_trimmed(&self.flst_zaehler);
        let nenner = match parse_trimmed(&self.flst_nenner) {
            Some(n) => if n == 0 {
                None
            } else {
                Some(n)
            },
            None => None,
        };
        match (land, gemarkung, flur, flst_zaehler) {
            (Some(l), Some(g), Some(fl), Some(z)) => Some(
                FlstIdParsedNumber {
                    land: l,
                    gemarkung: g,
                    flur: fl,
                    flst_zaehler: z,
                    flst_nenner: nenner,
                },
            ),
            _ => None,
        }
    }

    /// `land-gemarkung-flur-zaehler/nenner`.
    pub fn to_nice_string(&self) -> (r: String)
        ensures
            r@ == spec_to_nice_string(self@),
    {
        let mut v: Vec<char> = Vec::new();
        push_str(&mut v, self.land.as_str());
        push_str(&mut v, "-");
        push_str(&mut v, self.gemarkung.as_str());
        push_str(&mut v, "-");
        push_str(&mut v, self.flur.as_str());
        push_str(&mut v, "-");
        push_str(&mut v, self.flst_zaehler.as_str());
        push_str(&mut v, "/");
        push_str(&mut v, self.flst_nenner.as_str());
        string_from_chars(v.as_slice())
    }
}

// ---------------------------------------------------------------------------
// Formatting
// ---------------------------------------------------------------------------

pub open spec fn padded(n: usize, w: nat) -> Seq<char> {
    zero_pad(dec(n as nat), w)
}

pub open spec fn spec_format_start_str(f: FlstIdParsedNumber) -> Seq<char> {
    padded(f.land, 2) + padded(f.gemarkung, 4) + padded(f.flur, 3) + padded(f.flst_zaehler, 5)
        + match f.flst_nenner {
        Some(n) => padded(n, 5),
        None => Seq::empty(),
    }
}

pub open spec fn nenner_or_zero(f: FlstIdParsedNumber) -> usize {
    match f.flst_nenner {
        Some(n) => n,
        None => 0,
    }
}

pub open spec fn spec_format_nice(f: FlstIdParsedNumber) -> Seq<char> {
    padded(f.land, 2) + "-"@ + padded(f.gemarkung, 4) + "-"@ + padded(f.flur, 3) + "-"@ + padded(
        f.flst_zaehler,
        5,
    ) + "/"@ + padded(nenner_or_zero(f), 5)
}

/// Zähler alone for no (or a zero) Nenner, else Zähler, `sep`, Nenner.
pub open spec fn spec_format_with(f: FlstIdParsedNumber, sep: Seq<char>) -> Seq<char> {
    match f.flst_nenner {
        Some(n) => if n == 0 {
            dec(f.flst_zaehler as nat)
        } else {
            dec(f.flst_zaehler as nat) + sep + dec(n as nat)
        },
        None => dec(f.flst_zaehler as nat),
    }
}

pub open spec fn spec_format_str_zero(f: FlstIdParsedNumber) -> Seq<char> {
    dec(f.flst_zaehler as nat) + "/"@ + dec(nenner_or_zero(f) as nat)
}

impl FlstIdParsedNumber {
    /// The identifier's prefix used for searching, e.g. `12118000300001`.
    pub fn format_start_str(&self) -> (r: String)
        ensures
            r@ == spec_format_start_str(*self),
    {
        let mut v = usize_to_chars_padded(self.land, 2);
        push_all(&mut v, &usize_to_chars_padded(self.gemarkung, 4));
        push_all(&mut v, &usize_to_chars_padded(self.flur, 3));
        push_all(&mut v, &usize_to_chars_padded(self.flst_zaehler, 5));
        match self.flst_nenner {
            Some(n) => push_all(&mut v, &usize_to_chars_padded(n, 5)),
            None => {},
        }
        string_from_chars(v.as_slice())
    }

    /// E.g. `12-1180-003-00001/00000`.
    pub fn format_nice(&self) -> (r: String)
        ensures
            r@ == spec_format_nice(*self),
    {
        let n = match self.flst_nenner {
            Some(n) => n,
            None => 0,
        };
        let mut v = usize_to_chars_padded(self.land, 2);
        push_str(&mut v, "-");
        push_all(&mut v, &usize_to_chars_padded(self.gemarkung, 4));
        push_str(&mut v, "-");
        push_all(&mut v, &usize_to_chars_padded(self.flur, 3));
        push_str(&mut v, "-");
        push_all(&mut v, &usize_to_chars_padded(self.flst_zaehler, 5));
        push_str(&mut v, "/");
        push_all(&mut v, &usize_to_chars_padded(n, 5));
        string_from_chars(v.as_slice())
    }

    pub fn get_flur(&self) -> (r: String)
        ensures
            r@ == dec(self.flur as nat),
    {
        usize_to_string(self.flur)
    }

    fn format_with(&self, sep: &str) -> (r: String)
        ensures
            r@ == spec_format_with(*self, sep@),
    {
        match self.flst_nenner {
            Some(s) => if s == 0 {
                usize_to_string(self.flst_zaehler)
            } else {
                let mut v = usize_to_chars(self.flst_zaehler);
                push_str(&mut v, sep);
                push_all(&mut v, &usize_to_chars(s));
                string_from_chars(v.as_slice())
            },
            None => usize_to_string(self.flst_zaehler),
        }
    }

    /// `zaehler` or `zaehler/nenner`.
    pub fn format_str(&self) -> (r: String)
        ensures
            r@ == spec_format_with(*self, "/"@),
    {
        self.format_with("/")
    }

    /// `zaehler` or `zaehler_nenner`.
    pub fn format_dxf(&self) -> (r: String)
        ensures
            r@ == spec_format_with(*self, "_"@),
    {
        self.format_with("_")
    }

    /// `zaehler/nenner`, with 0 for no Nenner.
    pub fn format_str_zero(&self) -> (r: String)
        ensures
            r@ == spec_format_str_zero(*self),
    {
        let n = match self.flst_nenner {
            Some(n) => n,
            None => 0,
        };
        let mut v = usize_to_chars(self.flst_zaehler);
        push_str(&mut v, "/");
        push_all(&mut v, &usize_to_chars(n));
        string_from_chars(v.as_slice())
    }
}


// ---------------------------------------------------------------------------
// The list of all parcels
// ---------------------------------------------------------------------------

pub open spec fn parse_key(k: Seq<char>) -> Option<FlstIdParsedNumber> {
    spec_parse_num(spec_flst_from_str(k))
}

/// The parcels of the data set whose identifiers parse, in key order.
pub open spec fn spec_alle_flst(keys: Seq<Seq<char>>) -> Seq<FlstIdParsedNumber> {
    keys.filter_map(|k: Seq<char>| parse_key(k))
}

pub open spec fn of_flur(all: Seq<FlstIdParsedNumber>, k: usize) -> Seq<FlstIdParsedNumber> {
    all.filter_map(|f: FlstIdParsedNumber| if f.flur == k { Some(f) } else { None })
}

/// `groups` are the parcels of `all` by Flur: Flur numbers ascending, each
/// occurring in `all`, each Flur of `all` present, each with its parcels in
/// their order in `all`.
pub open spec fn is_flur_grouping(
    groups: Seq<(usize, Seq<FlstIdParsedNumber>)>,
    all: Seq<FlstIdParsedNumber>,
) -> bool {
    &&& forall|i: int, j: int| 0 <= i < j < groups.len() ==> #[trigger] groups[i].0 < #[trigger] groups[j].0
    &&& forall|k: usize|
        (exists|i: int| 0 <= i < groups.len() && groups[i].0 == k) <==> of_flur(all, k).len() > 0
    &&& forall|i: int| 0 <= i < groups.len() ==> #[trigger] groups[i].1 == of_flur(all, groups[i].0)
}

pub open spec fn zero_list(v: Seq<FlstIdParsedNumber>) -> Seq<char> {
    join(v.map_values(|f: FlstIdParsedNumber| spec_format_str_zero(f)), ","@)
}

/// One Flur: its parcels; several: a line `FLUR k: ...` per Flur.
pub open spec fn render_flst_liste(groups: Seq<(usize, Seq<FlstIdParsedNumber>)>) -> Seq<char> {
    if groups.len() == 1 {
        zero_list(groups[0].1)
    } else {
        join(
            groups.map_values(
                |g: (usize, Seq<FlstIdParsedNumber>)| "FLUR "@ + dec(g.0 as nat) + ": "@ + zero_list(g.1),
            ),
            "\r\n"@,
        )
    }
}

fn zero_list_exec(v: &Vec<FlstIdParsedNumber>) -> (r: String)
    ensures
        r@ == zero_list(v@),
{
    let mut parts: Vec<String> = Vec::new();
    let mut i: usize = 0;
    while i < v.len()
        invariant
            i <= v@.len(),
            string_views(parts@) == v@.take(i as int).map_values(
                |f: FlstIdParsedNumber| spec_format_str_zero(f),
            ),
        decreases v.len() - i,
    {
        let s = v[i].format_str_zero();
        let ghost old_parts = parts@;
        parts.push(s);
        assert(string_views(parts@) =~= string_views(old_parts).push(s@));
        assert(v@.take(i + 1).map_values(|f: FlstIdParsedNumber| spec_format_str_zero(f))
            =~= v@.take(i as int).map_values(|f: FlstIdParsedNumber| spec_format_str_zero(f)).push(
            spec_format_str_zero(v@[i as int]),
        ));
        i = i + 1;
    }
    assert(v@.take(v@.len() as int) =~= v@);
    join_strings(&parts, ",")
}

/// The parcels as text, grouped by Flur.
pub fn format_flst_liste(all: Vec<FlstIdParsedNumber>) -> (r: String)
    ensures
        exists|g: Seq<(usize, Seq<FlstIdParsedNumber>)>|
            is_flur_grouping(g, all@) && r@ == render_flst_liste(g),
{
    let mut grouped: SortedMap<usize, Vec<FlstIdParsedNumber>> = SortedMap::new();
    let mut i: usize = 0;
    while i < all.len()
        invariant
            i <= all@.len(),
            forall|k: usize|
                match #[trigger] lookup(grouped.kv(), k) {
                    Some(v) => v@ == of_flur(all@.take(i as int), k) && v@.len() > 0,
                    None => of_flur(all@.take(i as int), k).len() == 0,
                },
        decreases all.len() - i,
    {
        let f = all[i];
        let ghost old_kv = grouped.kv();
        grouped.push_to(f.flur, f);
        proof {
            assert(all@.take(i + 1).drop_last() =~= all@.take(i as int));
            assert forall|k: usize|
                match #[trigger] lookup(grouped.kv(), k) {
                    Some(v) => v@ == of_flur(all@.take(i + 1), k) && v@.len() > 0,
                    None => of_flur(all@.take(i + 1), k).len() == 0,
                } by {
                if k != f.flur {
                    assert(lookup(grouped.kv(), k) == lookup(old_kv, k));
                }
            }
        }
        i = i + 1;
    }
    assert(all@.take(all@.len() as int) =~= all@);
    grouped.lemma_sorted();
    let ghost kv = grouped.kv();
    let ghost g = kv.map_values(|e: (usize, Vec<FlstIdParsedNumber>)| (e.0, e.1@));
    proof {
        assert forall|a: int, b: int| 0 <= a < b < g.len() implies #[trigger] g[a].0 < #[trigger] g[b].0 by {
            assert(g[a].0 == kv[a].0 && g[b].0 == kv[b].0);
        }
        assert forall|j: int| 0 <= j < g.len() implies #[trigger] g[j].1 == of_flur(all@, g[j].0) by {
            lemma_key_index_unique::<usize, Vec<FlstIdParsedNumber>>(kv, j);
        }
        assert forall|k: usize|
            (exists|j: int| 0 <= j < g.len() && g[j].0 == k) <==> of_flur(all@, k).len() > 0 by {
            if of_flur(all@, k).len() > 0 {
                assert(lookup(kv, k) is Some);
                let j = key_index(kv, k)->0;
                assert(g[j].0 == k);
            }
            if exists|j: int| 0 <= j < g.len() && g[j].0 == k {
                let j = choose|j: int| 0 <= j < g.len() && g[j].0 == k;
                lemma_key_index_unique::<usize, Vec<FlstIdParsedNumber>>(kv, j);
                assert(kv[j].0 == k);
            }
        }
    }
    assert(is_flur_grouping(g, all@));
    if grouped.len() == 1 {
        let r = zero_list_exec(grouped.value_at(0));
        assert(r@ == render_flst_liste(g));
        return r;
    }
    let mut lines: Vec<String> = Vec::new();
    let mut j: usize = 0;
    while j < grouped.len()
        invariant
            j <= grouped.kv().len(),
            kv == grouped.kv(),
            g == kv.map_values(|e: (usize, Vec<FlstIdParsedNumber>)| (e.0, e.1@)),
            string_views(lines@) == g.take(j as int).map_values(
                |g: (usize, Seq<FlstIdParsedNumber>)| "FLUR "@ + dec(g.0 as nat) + ": "@ + zero_list(g.1),
            ),
        decreases grouped.kv().len() - j,
    {
        let k = *grouped.key_at(j);
        let mut v: Vec<char> = Vec::new();
        push_str(&mut v, "FLUR ");
        push_all(&mut v, &usize_to_chars(k));
        push_str(&mut v, ": ");
        let zl = zero_list_exec(grouped.value_at(j));
        push_str(&mut v, zl.as_str());
        let line = string_from_chars(v.as_slice());
        let ghost old_lines = lines@;
        lines.push(line);
        assert(string_views(lines@) =~= string_views(old_lines).push(line@));
        assert(g.take(j + 1) =~= g.take(j as int).push(g[j as int]));
        j = j + 1;
    }
    assert(g.take(g.len() as int) =~= g);
    let r = join_strings(&lines, "\r\n");
    assert(r@ == render_flst_liste(g));
    r
}

/// The parcels of the data set whose identifiers parse.
fn get_alle_flst_internal(datensaetze: &CsvDataType) -> (r: Vec<FlstIdParsedNumber>)
    ensures
        r@ == spec_alle_flst(data_keys(datensaetze@)),
{
    let keys = datensaetze.keys();
    let ghost ks = data_keys(datensaetze@);
    let mut target: Vec<FlstIdParsedNumber> = Vec::new();
    let mut i: usize = 0;
    while i < keys.len()
        invariant
            i <= keys@.len(),
            keys@.map_values(|k: &String| k@) == ks,
            target@ == spec_alle_flst(ks.take(i as int)),
        decreases keys.len() - i,
    {
        let flst = FlstIdParsed::from_str(keys[i].as_str());
        proof {
            ks.lemma_filter_map_take_succ(|k: Seq<char>| parse_key(k), i as int);
            assert(ks[i as int] == keys@[i as int]@);
        }
        match flst.parse_num() {
            Some(s) => target.push(s),
            None => {},
        }
        i = i + 1;
    }
    assert(ks.take(keys@.len() as int) =~= ks);
    target
}

/// `FLURSTUECKE:` and the list of all parcels of the data set.
pub fn get_alle_flst(datensaetze: &CsvDataType) -> (r: String)
    ensures
        exists|g: Seq<(usize, Seq<FlstIdParsedNumber>)>|
            is_flur_grouping(g, spec_alle_flst(data_keys(datensaetze@))) && r@ == "FLURSTUECKE:\r\n"@
                + render_flst_liste(g) + "\r\n"@,
{
    let all = get_alle_flst_internal(datensaetze);
    let s1 = format_flst_liste(all);
    let mut v: Vec<char> = Vec::new();
    push_str(&mut v, "FLURSTUECKE:\r\n");
    push_str(&mut v, s1.as_str());
    push_str(&mut v, "\r\n");
    string_from_chars(v.as_slice())
}

// ---------------------------------------------------------------------------
// Laws of the identifier forms
// ---------------------------------------------------------------------------

proof fn lemma_digit(n: nat)
    requires
        n < 10,
    ensures
        is_digit(digit(n)),
        digit_value(digit(n)) == n,
        !is_ws(digit(n)),
        !is_separator(digit(n)),
        digit(n) != '+',
{
    assert(digit(n) as u32 == n + 48);
}

/// The decimal notation of `n` is a non-empty digit string of value `n`.
pub proof fn lemma_dec_digits(n: nat)
    ensures
        dec(n).len() > 0,
        all_digits(dec(n)),
        digits_value(dec(n)) == n,
    decreases n,
{
    if n < 10 {
        lemma_digit(n);
        assert(dec(n) == seq![digit(n)]);
        assert(seq![digit(n)].drop_last() =~= Seq::<char>::empty());
        assert(digits_value(seq![digit(n)]) == digits_value(Seq::<char>::empty()) * 10 + digit_value(digit(n)));
    } else {
        lemma_dec_digits(n / 10);
        lemma_digit(n % 10);
        let d = dec(n);
        assert(d == dec(n / 10).push(digit(n % 10)));
        assert(d.drop_last() =~= dec(n / 10));
        assert forall|i: int| 0 <= i < d.len() implies is_digit(#[trigger] d[i]) by {
            if i < d.len() - 1 {
                assert(d[i] == dec(n / 10)[i]);
            }
        }
        assert(digits_value(d) == digits_value(dec(n / 10)) * 10 + (n % 10));
        vstd::arithmetic::div_mod::lemma_fundamental_div_mod(n as int, 10);
    }
}

/// A digit string is no longer than its value's decimal notation.
proof fn lemma_dec_len(d: Seq<char>)
    requires
        d.len() > 0,
        all_digits(d),
    ensures
        dec(digits_value(d)).len() <= d.len(),
    decreases d.len(),
{
    let v = digits_value(d.drop_last());
    let c = digit_value(d.last());
    assert(is_digit(d[d.len() - 1]));
    assert(c < 10);
    if d.len() == 1 {
        assert(d.drop_last() =~= Seq::<char>::empty());
        assert(digits_value(d) == c);
    } else if v == 0 {
        assert(digits_value(d) == c);
    } else {
        assert forall|i: int| 0 <= i < d.drop_last().len() implies is_digit(#[trigger] d.drop_last()[i]) by {
            assert(d.drop_last()[i] == d[i]);
        }
        lemma_dec_len(d.drop_last());
        let x = digits_value(d);
        assert(x == v * 10 + c);
        assert(x / 10 == v);
        assert(x >= 10);
    }
}

proof fn lemma_zero_digits(k: nat)
    ensures
        all_digits(Seq::new(k, |i: int| '0')),
        digits_value(Seq::new(k, |i: int| '0')) == 0,
    decreases k,
{
    let z = Seq::new(k, |i: int| '0');
    assert(is_digit('0'));
    if k > 0 {
        lemma_zero_digits((k - 1) as nat);
        assert(z.drop_last() =~= Seq::new((k - 1) as nat, |i: int| '0'));
    }
}

/// Leading zeros change neither that a string is of digits nor its value.
proof fn lemma_zeros_then(k: nat, d: Seq<char>)
    requires
        all_digits(d),
    ensures
        all_digits(Seq::new(k, |i: int| '0') + d),
        digits_value(Seq::new(k, |i: int| '0') + d) == digits_value(d),
    decreases d.len(),
{
    let z = Seq::new(k, |i: int| '0');
    lemma_zero_digits(k);
    assert(is_digit('0'));
    if d.len() == 0 {
        assert(z + d =~= z);
    } else {
        assert forall|i: int| 0 <= i < d.drop_last().len() implies is_digit(#[trigger] d.drop_last()[i]) by {
            assert(d.drop_last()[i] == d[i]);
        }
        lemma_zeros_then(k, d.drop_last());
        assert((z + d).drop_last() =~= z + d.drop_last());
        assert((z + d).last() == d.last());
    }
    assert forall|i: int| 0 <= i < (z + d).len() implies is_digit(#[trigger] (z + d)[i]) by {
        if i >= z.len() {
            assert((z + d)[i] == d[i - z.len()]);
        }
    }
}

/// A field in its normal form: `n` written with at least `w` digits,
/// where `n` needs no more.
pub open spec fn normal_field(f: Seq<char>, w: nat) -> bool {
    exists|n: usize| dec(n as nat).len() <= w && f == zero_pad(dec(n as nat), w)
}

proof fn lemma_no_ws_trim(f: Seq<char>)
    requires
        f.len() > 0,
        all_digits(f),
    ensures
        trim(f) == f,
{
    assert(is_digit(f[0]));
    assert(!is_ws(f[0]));
    assert(trim_start(f) == f);
    assert(is_digit(f[f.len() - 1]));
    assert(!is_ws(f.last()));
}

/// A field in normal form has `w` digits, reads as its number, and stays
/// as it is when read again.
proof fn lemma_normal_field_reads(f: Seq<char>, w: nat, default: Seq<char>)
    requires
        normal_field(f, w),
    ensures
        f.len() == w,
        all_digits(f),
        parse_usize(f) is Some,
        trim(f) == f,
        normalize_field(f, w, default) == f,
        forall|c: char| f.contains(c) ==> !is_separator(c) && is_digit(c),
{
    let n = choose|n: usize| dec(n as nat).len() <= w && f == zero_pad(dec(n as nat), w);
    let d = dec(n as nat);
    lemma_dec_digits(n as nat);
    let k = (w - d.len()) as nat;
    assert(f == Seq::new(k, |i: int| '0') + d || d.len() == w);
    if d.len() == w {
        assert(f == d);
    } else {
        lemma_zeros_then(k, d);
    }
    assert(digits_value(f) == n);
    assert(f.len() > 0);
    assert(is_digit(f[0]));
    assert(f[0] != '+');
    assert(parse_usize(f) == Some(n));
    lemma_no_ws_trim(f);
    assert forall|c: char| f.contains(c) implies !is_separator(c) && is_digit(c) by {
        let i = choose|i: int| 0 <= i < f.len() && f[i] == c;
        assert(is_digit(f[i]));
    }
}

/// `normalize_field` gives a field in normal form, where its default is one
/// and the text is no longer than the field.
proof fn lemma_normalize_gives_normal(x: Seq<char>, w: nat, default: Seq<char>)
    requires
        x.len() <= w,
        normal_field(default, w),
    ensures
        normal_field(normalize_field(x, w, default), w),
{
    match parse_usize(x) {
        Some(n) => {
            let d = if x.len() > 0 && x[0] == '+' { x.drop_first() } else { x };
            lemma_dec_len(d);
            assert(dec(n as nat).len() <= w);
        },
        None => {},
    }
}

proof fn lemma_defaults_normal()
    ensures
        normal_field("12"@, 2),
        normal_field("0000"@, 4),
        normal_field("001"@, 3),
        normal_field("00001"@, 5),
{
    reveal_strlit("12");
    reveal_strlit("0000");
    reveal_strlit("001");
    reveal_strlit("00001");
    assert(dec(12) =~= seq!['1', '2']) by {
        assert(dec(1) == seq![digit(1)]);
        assert(digit(1) == '1');
        assert(digit(2) == '2');
    }
    assert("12"@ =~= zero_pad(dec(12usize as nat), 2));
    assert(dec(0) == seq![digit(0)]);
    assert(digit(0) == '0');
    assert("0000"@ =~= zero_pad(dec(0usize as nat), 4));
    assert(dec(1) == seq![digit(1)]);
    assert(digit(1) == '1');
    assert("001"@ =~= zero_pad(dec(1usize as nat), 3));
    assert("00001"@ =~= zero_pad(dec(1usize as nat), 5));
}

/// The fields of a parsed identifier are in normal form.
proof fn lemma_from_str_normal(s: Seq<char>)
    ensures
        normal_field(spec_flst_from_str(s).land, 2),
        normal_field(spec_flst_from_str(s).gemarkung, 4),
        normal_field(spec_flst_from_str(s).flur, 3),
        normal_field(spec_flst_from_str(s).flst_zaehler, 5),
        normal_field(spec_flst_from_str(s).flst_nenner, 4),
{
    lemma_defaults_normal();
    let c = strip_separators(s);
    lemma_normalize_gives_normal(take_field(c, 0, 2), 2, "12"@);
    lemma_normalize_gives_normal(take_field(c, 2, 4), 4, "0000"@);
    lemma_normalize_gives_normal(take_field(c, 6, 3), 3, "001"@);
    lemma_normalize_gives_normal(take_field(c, 9, 5), 5, "00001"@);
    lemma_normalize_gives_normal(take_field(c, 14, 4), 4, "0000"@);
}

/// Every identifier reads as a parcel number: the fields that are no number
/// take their defaults.
pub proof fn lemma_every_identifier_parses(s: Seq<char>)
    ensures
        spec_parse_num(spec_flst_from_str(s)) is Some,
{
    lemma_from_str_normal(s);
    let p = spec_flst_from_str(s);
    lemma_normal_field_reads(p.land, 2, "12"@);
    lemma_normal_field_reads(p.gemarkung, 4, "0000"@);
    lemma_normal_field_reads(p.flur, 3, "001"@);
    lemma_normal_field_reads(p.flst_zaehler, 5, "00001"@);
}

proof fn lemma_strip_digits(f: Seq<char>)
    requires
        forall|c: char| f.contains(c) ==> !is_separator(c),
    ensures
        strip_separators(f) == f,
{
    assert forall|i: int| 0 <= i < f.len() implies (|c: char| if is_separator(c) { None } else { Some(c) })(
        #[trigger] f[i],
    ) == Some(f[i]) by {
        assert(f.contains(f[i]));
    }
    lemma_filter_map_keeps_all(f, |c: char| if is_separator(c) { None } else { Some(c) });
}

proof fn lemma_strip_sep(sep: Seq<char>)
    requires
        sep.len() == 1,
        is_separator(sep[0]),
    ensures
        strip_separators(sep) == Seq::<char>::empty(),
{
    let f = |c: char| if is_separator(c) { None } else { Some(c) };
    assert(sep.drop_last() =~= Seq::<char>::empty());
    assert(sep.last() == sep[0]);
    assert(f(sep.last()) is None);
    assert(Seq::<char>::empty().filter_map(f) =~= Seq::<char>::empty());
    assert(sep.filter_map(f) == sep.drop_last().filter_map(f));
}

/// Reading the long form (`12-1180-003-00010/0000`) of a parsed identifier
/// gives the same identifier again, with the padding at its default.
pub proof fn lemma_nice_string_reads_back(s: Seq<char>)
    ensures
        spec_flst_from_str(spec_to_nice_string(spec_flst_from_str(s))) == (FlstIdParsedView {
            land: spec_flst_from_str(s).land,
            gemarkung: spec_flst_from_str(s).gemarkung,
            flur: spec_flst_from_str(s).flur,
            flst_zaehler: spec_flst_from_str(s).flst_zaehler,
            flst_nenner: spec_flst_from_str(s).flst_nenner,
            padding: "00"@,
        }),
{
    let p = spec_flst_from_str(s);
    lemma_from_str_normal(s);
    lemma_defaults_normal();
    lemma_normal_field_reads(p.land, 2, "12"@);
    lemma_normal_field_reads(p.gemarkung, 4, "0000"@);
    lemma_normal_field_reads(p.flur, 3, "001"@);
    lemma_normal_field_reads(p.flst_zaehler, 5, "00001"@);
    lemma_normal_field_reads(p.flst_nenner, 4, "0000"@);
    reveal_strlit("-");
    reveal_strlit("/");
    let f = |c: char| if is_separator(c) { None } else { Some(c) };
    let dash = "-"@;
    let slash = "/"@;
    lemma_strip_sep(dash);
    lemma_strip_sep(slash);
    lemma_strip_digits(p.land);
    lemma_strip_digits(p.gemarkung);
    lemma_strip_digits(p.flur);
    lemma_strip_digits(p.flst_zaehler);
    lemma_strip_digits(p.flst_nenner);
    let a1 = p.land + dash;
    let a2 = a1 + p.gemarkung;
    let a3 = a2 + dash;
    let a4 = a3 + p.flur;
    let a5 = a4 + dash;
    let a6 = a5 + p.flst_zaehler;
    let a7 = a6 + slash;
    let a8 = a7 + p.flst_nenner;
    assert(spec_to_nice_string(p) == a8);
    lemma_filter_map_add(p.land, dash, f);
    lemma_filter_map_add(a1, p.gemarkung, f);
    lemma_filter_map_add(a2, dash, f);
    lemma_filter_map_add(a3, p.flur, f);
    lemma_filter_map_add(a4, dash, f);
    lemma_filter_map_add(a5, p.flst_zaehler, f);
    lemma_filter_map_add(a6, slash, f);
    lemma_filter_map_add(a7, p.flst_nenner, f);
    let c = strip_separators(a8);
    assert(c =~= p.land + p.gemarkung + p.flur + p.flst_zaehler + p.flst_nenner);
    assert(take_field(c, 0, 2) =~= p.land);
    assert(take_field(c, 2, 4) =~= p.gemarkung);
    assert(take_field(c, 6, 3) =~= p.flur);
    assert(take_field(c, 9, 5) =~= p.flst_zaehler);
    assert(take_field(c, 14, 4) =~= p.flst_nenner);
    assert(take_field(c, 18, 2).len() == 0);
}


/// `10^w`.
pub open spec fn ten_pow(w: nat) -> nat
    decreases w,
{
    if w == 0 {
        1
    } else {
        10 * ten_pow((w - 1) as nat)
    }
}

proof fn lemma_dec_fits(x: nat, w: nat)
    requires
        w >= 1,
        x < ten_pow(w),
    ensures
        dec(x).len() <= w,
    decreases w,
{
    if x >= 10 {
        let t = ten_pow((w - 1) as nat);
        assert(x < 10 * t);
        assert(x / 10 < t) by (nonlinear_arith)
            requires
                x < 10 * t,
        ;
        if w == 1 {
            assert(t == 1);
        } else {
            lemma_dec_fits(x / 10, (w - 1) as nat);
        }
    }
}

/// A number written with `w` digits reads back as that number.
proof fn lemma_padded_reads(x: usize, w: nat, default: Seq<char>)
    requires
        w >= 1,
        x < ten_pow(w),
    ensures
        parse_usize(trim(padded(x, w))) == Some(x),
        normalize_field(padded(x, w), w, default) == padded(x, w),
        padded(x, w).len() == w,
        forall|c: char| padded(x, w).contains(c) ==> !is_separator(c),
{
    lemma_dec_fits(x as nat, w);
    let f = padded(x, w);
    assert(normal_field(f, w));
    lemma_normal_field_reads(f, w, default);
    let d = dec(x as nat);
    lemma_dec_digits(x as nat);
    if d.len() < w {
        lemma_zeros_then((w - d.len()) as nat, d);
    }
    assert(digits_value(f) == x);
}

/// Reading the search prefix of a parcel number without Nenner gives the
/// number again, where each field fits its width.
pub proof fn lemma_start_str_reads_back(n: FlstIdParsedNumber)
    requires
        n.flst_nenner is None,
        n.land < 100,
        n.gemarkung < 10000,
        n.flur < 1000,
        n.flst_zaehler < 100000,
    ensures
        spec_parse_num(spec_flst_from_str(spec_format_start_str(n))) == Some(n),
{
    reveal_with_fuel(ten_pow, 6);
    lemma_padded_reads(n.land, 2, "12"@);
    lemma_padded_reads(n.gemarkung, 4, "0000"@);
    lemma_padded_reads(n.flur, 3, "001"@);
    lemma_padded_reads(n.flst_zaehler, 5, "00001"@);
    let a = padded(n.land, 2);
    let b = padded(n.gemarkung, 4);
    let c = padded(n.flur, 3);
    let d = padded(n.flst_zaehler, 5);
    let f = |ch: char| if is_separator(ch) { None } else { Some(ch) };
    lemma_strip_digits(a);
    lemma_strip_digits(b);
    lemma_strip_digits(c);
    lemma_strip_digits(d);
    lemma_filter_map_add(a, b, f);
    lemma_filter_map_add(a + b, c, f);
    lemma_filter_map_add(a + b + c, d, f);
    let s = spec_format_start_str(n);
    assert(s =~= a + b + c + d);
    let st = strip_separators(s);
    assert(st =~= a + b + c + d);
    assert(take_field(st, 0, 2) =~= a);
    assert(take_field(st, 2, 4) =~= b);
    assert(take_field(st, 6, 3) =~= c);
    assert(take_field(st, 9, 5) =~= d);
    assert(take_field(st, 14, 4) =~= Seq::<char>::empty());
    assert(parse_usize(Seq::<char>::empty()) is None);
    lemma_defaults_normal();
    lemma_normal_field_reads("0000"@, 4, "0000"@);
    let nf = spec_flst_from_str(s).flst_nenner;
    assert(nf == "0000"@);
    reveal_strlit("0000");
    assert(dec(0) == seq![digit(0)]);
    assert(digits_value("0000"@) == 0) by {
        lemma_zero_digits(4);
        assert("0000"@ =~= Seq::new(4, |i: int| '0'));
    }
    assert(parse_usize(trim(nf)) == Some(0usize));
}

} // verus!
