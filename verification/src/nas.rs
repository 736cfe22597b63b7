//! Plain-value parts of the NAS (ALKIS) data model: how two polygons relate,
//! projections by name, and serialised polygons.

use vstd::prelude::*;
use crate::text::{
    chars_of, copy_string, dec, parse_usize, parse_usize_str, push_all, push_str, split, split_str,
    string_from_chars, string_views, to_string, trim, trim_str, usize_to_chars,
};
use crate::collation::str_eq;
use crate::search::NutzungsArtMap;
use crate::sorted_map::{SortedMap, lookup, keys_sorted, lemma_key_index_unique, lemma_sorted_entries_unique};
use crate::collation::seq_lt;
use crate::{ebene_exec, spec_ebene_of_atr};
use vstd::utf8::encode_utf8;
use crate::david::PolygonText;
use crate::ui::AenderungenIntersection;
use crate::xlsx::{spec_flst_from_str, spec_parse_num};
use crate::xml::{XmlNode, attrs_view, collect, deref_all, get_all_nodes_in_subtree, opt_view};
use crate::text::{replace, replace_str};

verus! {

/// A polygon as text: outer ring and inner rings, each as `x y x y ...`.
#[derive(Debug, Default, Clone, PartialEq, PartialOrd)]
pub struct SvgPolygonSerialize {
    pub or: String,
    pub ir: Vec<String>,
}

/// How a polygon relates to the rings of another.
#[derive(Debug, Clone, PartialEq, PartialOrd)]
pub enum EqualsAnyRingStatus {
    EqualToRing(usize),
    TouchesInside,
    TouchesOutside,
    NotEqualToAnyRing,
    OverlapsAndTouches,
    OverlapsWithoutTouching,
    ContainedInside,
    DistinctOutside,
}

/// Where coordinates are angles.
#[derive(Debug, Copy, Clone)]
pub enum UseRadians {
    ForSourceAndTarget,
    ForSource,
    ForTarget,
    Neither,
}

impl UseRadians {
    pub fn for_source(&self) -> (r: bool)
        ensures
            r == (*self is ForSourceAndTarget || *self is ForSource),
    {
        match self {
            UseRadians::ForSourceAndTarget => true,
            UseRadians::ForSource => true,
            UseRadians::ForTarget => false,
            UseRadians::Neither => false,
        }
    }

    pub fn for_target(&self) -> (r: bool)
        ensures
            r == (*self is ForSourceAndTarget || *self is ForTarget),
    {
        match self {
            UseRadians::ForSourceAndTarget => true,
            UseRadians::ForSource => false,
            UseRadians::ForTarget => true,
            UseRadians::Neither => false,
        }
    }
}

/// The projection of UTM zone 33 on ETRS89.
pub fn default_etrs33() -> (r: String)
    ensures
        r@ == "+proj=utm +ellps=GRS80 +units=m +no_defs +zone=33"@,
{
    to_string("+proj=utm +ellps=GRS80 +units=m +no_defs +zone=33")
}

pub open spec fn crs_name(i: nat) -> Seq<char> {
    "ETRS89_UTM"@ + dec(i)
}

pub open spec fn utm_proj(i: nat) -> Seq<char> {
    "+proj=utm +ellps=GRS80 +units=m +no_defs +zone="@ + dec(i)
}

/// The projection string of a CRS named `ETRS89_UTM0` to `ETRS89_UTM59`.
pub fn get_proj_string(input: &str) -> (r: Option<String>)
    ensures
        match r {
            Some(p) => exists|i: nat| i < 60 && input@ == crs_name(i) && p@ == utm_proj(i),
            None => forall|i: nat| i < 60 ==> input@ != #[trigger] crs_name(i),
        },
{
    let mut i: usize = 0;
    while i < 60
        invariant
            i <= 60,
            forall|j: nat| j < i ==> input@ != #[trigger] crs_name(j),
        decreases 60 - i,
    {
        let mut name = chars_of("ETRS89_UTM");
        push_all(&mut name, &usize_to_chars(i));
        let n = string_from_chars(name.as_slice());
        if str_eq(n.as_str(), input) {
            let mut p = chars_of("+proj=utm +ellps=GRS80 +units=m +no_defs +zone=");
            push_all(&mut p, &usize_to_chars(i));
            let ps = string_from_chars(p.as_slice());
            assert(input@ == crs_name(i as nat) && ps@ == utm_proj(i as nat));
            return Some(ps);
        }
        i = i + 1;
    }
    None
}

/// How many points of one polygon lie on or inside the other.
#[derive(Debug, Clone, PartialEq)]
pub struct SvgPolyInternalResult {
    pub num_points: usize,
    pub points_touching_lines: usize,
    pub points_inside_other_poly: usize,
    pub all_points_are_on_line: bool,
}

impl SvgPolyInternalResult {
    /// Some point lies inside the other polygon.
    pub fn overlaps_other_poly(&self) -> (r: bool)
        ensures
            r == (self.points_inside_other_poly != 0),
    {
        self.points_inside_other_poly != 0
    }

    /// Every point lies on or inside the other polygon.
    pub fn is_contained_in_other_poly(&self) -> (r: bool)
        ensures
            r == (self.points_touching_lines + self.points_inside_other_poly >= self.num_points),
    {
        self.points_touching_lines >= self.num_points || self.points_inside_other_poly
            >= self.num_points - self.points_touching_lines
    }
}

/// The relation of two polygons, seen from each.
#[derive(Debug, Clone, PartialEq)]
pub struct Relate {
    pub is_1: SvgPolyInternalResult,
    pub is_2: SvgPolyInternalResult,
}

impl Relate {
    /// No point inside the other, and some point on its border.
    pub fn touches_other_poly_outside(&self) -> (r: bool)
        ensures
            r == ((self.is_1.points_inside_other_poly == 0 && self.is_2.points_inside_other_poly
                == 0) && (self.is_1.points_touching_lines != 0
                || self.is_2.points_touching_lines != 0)),
    {
        (self.is_1.points_inside_other_poly == 0 && self.is_2.points_inside_other_poly == 0) && (
        self.is_1.points_touching_lines != 0 || self.is_2.points_touching_lines != 0)
    }

    /// No point inside the other, and neither lies wholly on the other's border.
    pub fn only_touches(&self) -> (r: bool)
        ensures
            r == (self.is_1.points_inside_other_poly == 0 && self.is_2.points_inside_other_poly
                == 0 && !self.is_1.all_points_are_on_line && !self.is_2.all_points_are_on_line),
    {
        if self.is_1.points_inside_other_poly == 0 && self.is_2.points_inside_other_poly == 0 {
            if self.is_1.all_points_are_on_line || self.is_2.all_points_are_on_line {
                false
            } else {
                true
            }
        } else {
            false
        }
    }

    /// One lies wholly on the other's border.
    pub fn is_equal(&self) -> (r: bool)
        ensures
            r == (self.is_1.all_points_are_on_line || self.is_2.all_points_are_on_line),
    {
        self.is_1.all_points_are_on_line || self.is_2.all_points_are_on_line
    }

    /// Some point of either lies inside the other.
    pub fn overlaps(&self) -> (r: bool)
        ensures
            r == (self.is_1.points_inside_other_poly != 0 || self.is_2.points_inside_other_poly
                != 0),
    {
        self.is_1.overlaps_other_poly() || self.is_2.overlaps_other_poly()
    }

    pub fn a_contained_in_b(&self) -> (r: bool)
        ensures
            r == (self.is_1.points_touching_lines + self.is_1.points_inside_other_poly
                >= self.is_1.num_points),
    {
        self.is_1.is_contained_in_other_poly()
    }

    pub fn b_contained_in_a(&self) -> (r: bool)
        ensures
            r == (self.is_2.points_touching_lines + self.is_2.points_inside_other_poly
                >= self.is_2.num_points),
    {
        self.is_2.is_contained_in_other_poly()
    }
}

/// The tags of an ALKIS object: its attributes by name. (The polygon
/// itself, in floating point, is kept by the caller.)
#[derive(Debug)]
pub struct TaggedPolygon {
    pub attributes: SortedMap<String, String>,
}

/// The `key=value` parts of a catalogue entry's attributes: split at `,`,
/// each part trimmed and split at `=`; a part without `=` is left out.
pub open spec fn atr_pairs(atr: Seq<char>) -> Seq<(Seq<char>, Seq<char>)> {
    split(atr, ","@).filter_map(
        |s: Seq<char>|
            if split(trim(s), "="@).len() >= 2 {
                Some((split(trim(s), "="@)[0], split(trim(s), "="@)[1]))
            } else {
                None
            },
    )
}

/// The attribute named `p.0` has the value `p.1`.
pub open spec fn pair_holds(attrs: SortedMap<String, String>, p: (Seq<char>, Seq<char>)) -> bool {
    match lookup(attrs.kv(), p.0) {
        Some(v) => v@ == p.1,
        None => false,
    }
}

/// Every pair names an attribute that has the pair's value.
pub open spec fn has_all(attrs: SortedMap<String, String>, pairs: Seq<(Seq<char>, Seq<char>)>) -> bool {
    forall|i: int|
        0 <= i < pairs.len() ==> pair_holds(attrs, #[trigger] pairs[i])
}

/// Catalogue entry `i` fits the attributes.
pub open spec fn fits(cat: NutzungsArtMap, attrs: SortedMap<String, String>, i: int) -> bool {
    has_all(attrs, atr_pairs(cat.kv()[i].1.atr@))
}

/// The length in bytes of entry `i`'s attribute text, as `str::len` gives it.
pub open spec fn atr_len(cat: NutzungsArtMap, i: int) -> usize {
    encode_utf8(cat.kv()[i].1.atr@).len() as usize
}

/// Entry `j` fits, has the longest attribute text of those that fit, and
/// is the last one of that length.
pub open spec fn best_fit(cat: NutzungsArtMap, attrs: SortedMap<String, String>, j: int) -> bool {
    &&& 0 <= j < cat.kv().len()
    &&& fits(cat, attrs, j)
    &&& forall|i: int| 0 <= i < cat.kv().len() && fits(cat, attrs, i) ==> atr_len(cat, i) <= atr_len(cat, j)
    &&& forall|i: int| j < i < cat.kv().len() && fits(cat, attrs, i) ==> atr_len(cat, i) < atr_len(cat, j)
}

/// The abbreviation of the entry that fits best, if any fits.
pub open spec fn spec_auto_kuerzel(cat: NutzungsArtMap, attrs: SortedMap<String, String>) -> Option<Seq<char>> {
    if exists|j: int| best_fit(cat, attrs, j) {
        Some(cat.kv()[choose|j: int| best_fit(cat, attrs, j)].0)
    } else {
        None
    }
}

/// At most one entry fits best.
pub proof fn lemma_best_fit_unique(cat: NutzungsArtMap, attrs: SortedMap<String, String>, a: int, b: int)
    requires
        best_fit(cat, attrs, a),
        best_fit(cat, attrs, b),
    ensures
        a == b,
{
    if a < b {
        assert(atr_len(cat, b) < atr_len(cat, a));
        assert(atr_len(cat, a) <= atr_len(cat, b));
    } else if b < a {
        assert(atr_len(cat, a) < atr_len(cat, b));
        assert(atr_len(cat, b) <= atr_len(cat, a));
    }
}

/// The pairs of `parts[i]`, for `parts` the comma-separated parts.
fn pair_of(part: &String) -> (r: Option<(String, String)>)
    ensures
        match r {
            Some(p) => split(trim(part@), "="@).len() >= 2 && p.0@ == split(trim(part@), "="@)[0]
                && p.1@ == split(trim(part@), "="@)[1],
            None => split(trim(part@), "="@).len() < 2,
        },
{
    let t = trim_str(part.as_str());
    let q = split_str(t.as_str(), "=");
    if q.len() >= 2 {
        assert(string_views(q@)[0] == q@[0]@);
        assert(string_views(q@)[1] == q@[1]@);
        Some((copy_string(&q[0]), copy_string(&q[1])))
    } else {
        None
    }
}

fn has_all_exec(attrs: &SortedMap<String, String>, atr: &String) -> (r: bool)
    ensures
        r == has_all(*attrs, atr_pairs(atr@)),
{
    let parts = split_str(atr.as_str(), ",");
    let ghost ps = string_views(parts@);
    let ghost f = |s: Seq<char>|
        if split(trim(s), "="@).len() >= 2 {
            Some((split(trim(s), "="@)[0], split(trim(s), "="@)[1]))
        } else {
            None
        };
    let mut i: usize = 0;
    while i < parts.len()
        invariant
            i <= parts@.len(),
            ps == string_views(parts@),
            ps == split(atr@, ","@),
            f == (|s: Seq<char>|
                if split(trim(s), "="@).len() >= 2 {
                    Some((split(trim(s), "="@)[0], split(trim(s), "="@)[1]))
                } else {
                    None
                }),
            has_all(*attrs, ps.take(i as int).filter_map(f)),
        decreases parts.len() - i,
    {
        proof {
            ps.lemma_filter_map_take_succ(f, i as int);
        }
        assert(ps[i as int] == parts@[i as int]@);
        match pair_of(&parts[i]) {
            Some((k, v)) => {
                let ok = match attrs.get(&k) {
                    Some(x) => str_eq(x.as_str(), v.as_str()),
                    None => false,
                };
                if !ok {
                    proof {
                        let pp = ps.take(i + 1).filter_map(f);
                        assert(pp.last() == (k@, v@));
                        assert(!pair_holds(*attrs, pp[pp.len() - 1]));
                        assert(ps.take(parts@.len() as int) =~= ps);
                        lemma_take_filter_map_prefix(ps, f, i + 1);
                        let full = ps.filter_map(f);
                        assert(atr_pairs(atr@) == full);
                        assert(full[pp.len() - 1] == pp[pp.len() - 1]);
                        assert(!pair_holds(*attrs, full[pp.len() - 1]));
                    }
                    return false;
                }
            },
            None => {},
        }
        i = i + 1;
    }
    assert(ps.take(parts@.len() as int) =~= ps);
    assert(atr_pairs(atr@) == ps.filter_map(f));
    true
}

/// A prefix's `filter_map` is a prefix of the whole one's.
proof fn lemma_take_filter_map_prefix(
    s: Seq<Seq<char>>,
    f: spec_fn(Seq<char>) -> Option<(Seq<char>, Seq<char>)>,
    n: int,
)
    requires
        0 <= n <= s.len(),
    ensures
        s.take(n).filter_map(f).len() <= s.filter_map(f).len(),
        forall|j: int| 0 <= j < s.take(n).filter_map(f).len() ==> #[trigger] s.filter_map(f)[j]
            == s.take(n).filter_map(f)[j],
    decreases s.len() - n,
{
    if n < s.len() {
        lemma_take_filter_map_prefix(s, f, n + 1);
        s.lemma_filter_map_take_succ(f, n);
    } else {
        assert(s.take(n) =~= s);
    }
}

impl TaggedPolygon {
    /// The third `:`-separated part of an identifier such as
    /// `urn:adv:DEBBAL730002acBQ`.
    pub fn get_object_id(s: &str) -> (r: Option<String>)
        ensures
            match r {
                Some(x) => split(s@, ":"@).len() > 2 && x@ == split(s@, ":"@)[2],
                None => split(s@, ":"@).len() <= 2,
            },
    {
        let parts = split_str(s, ":");
        if parts.len() > 2 {
            assert(string_views(parts@)[2] == parts@[2]@);
            Some(copy_string(&parts[2]))
        } else {
            None
        }
    }

    /// The abbreviation of the catalogue entry whose attributes the object
    /// has, the most specific one (longest attribute text, the last of
    /// equal length) where several fit.
    pub fn get_auto_kuerzel(&self, catalogue: &NutzungsArtMap) -> (r: Option<String>)
        ensures
            match r {
                Some(k) => exists|j: int| best_fit(*catalogue, self.attributes, j) && k@ == catalogue.kv()[j].0,
                None => forall|i: int| 0 <= i < catalogue.kv().len() ==> !fits(*catalogue, self.attributes, i),
            },
            opt_string_view(r) == spec_auto_kuerzel(*catalogue, self.attributes),
    {
        let ghost cat = *catalogue;
        let ghost attrs = self.attributes;
        let mut best: Option<usize> = None;
        let mut best_len: usize = 0;
        let mut i: usize = 0;
        while i < catalogue.len()
            invariant
                i <= cat.kv().len(),
                cat == *catalogue,
                attrs == self.attributes,
                match best {
                    Some(j) => j < i && fits(cat, attrs, j as int) && best_len == atr_len(cat, j as int)
                        && (forall|q: int| 0 <= q < i && fits(cat, attrs, q) ==> atr_len(cat, q) <= atr_len(cat, j as int))
                        && (forall|q: int| j < q < i && fits(cat, attrs, q) ==> atr_len(cat, q) < atr_len(cat, j as int)),
                    None => forall|q: int| 0 <= q < i ==> !fits(cat, attrs, q),
                },
            decreases cat.kv().len() - i,
        {
            let v = catalogue.value_at(i);
            if has_all_exec(&self.attributes, &v.atr) {
                let a = v.atr.as_str();
                let n = a.len();
                assert(a@ == v.atr@);
                assert(cat.kv()[i as int].1 == *v);
                assert(n == atr_len(cat, i as int));
                let better = match best {
                    Some(_) => n >= best_len,
                    None => true,
                };
                if better {
                    best = Some(i);
                    best_len = n;
                }
            }
            i = i + 1;
        }
        match best {
            Some(j) => {
                let k = copy_string(catalogue.key_at(j));
                assert(best_fit(cat, attrs, j as int));
                proof {
                    let c = choose|c: int| best_fit(cat, attrs, c);
                    lemma_best_fit_unique(cat, attrs, c, j as int);
                }
                Some(k)
            },
            None => {
                assert(!exists|j: int| best_fit(cat, attrs, j));
                None
            },
        }
    }

    /// The layer (`AX_Ebene`) that the catalogue gives an abbreviation.
    pub fn get_auto_ebene(catalogue: &NutzungsArtMap, kuerzel: &str) -> (r: Option<String>)
        ensures
            match lookup(catalogue.kv(), kuerzel@) {
                Some(na) => match spec_ebene_of_atr(na.atr@) {
                    Some(e) => r matches Some(x) && x@ == e,
                    None => r is None,
                },
                None => r is None,
            },
    {
        let k = to_string(kuerzel);
        match catalogue.get(&k) {
            Some(na) => ebene_exec(&na.atr),
            None => None,
        }
    }

    /// The attribute named `name`.
    fn attribute(&self, name: &str) -> (r: Option<String>)
        ensures
            match lookup(self.attributes.kv(), name@) {
                Some(v) => r matches Some(x) && x@ == v@,
                None => r is None,
            },
    {
        let k = to_string(name);
        match self.attributes.get(&k) {
            Some(v) => Some(copy_string(v)),
            None => None,
        }
    }

    /// The layer (`AX_Ebene`).
    pub fn get_ebene(&self) -> (r: Option<String>)
        ensures
            opt_string_view(r) == attr_value(*self, "AX_Ebene"@),
    {
        self.attribute("AX_Ebene")
    }

    /// The object's id.
    pub fn get_de_id(&self) -> (r: Option<String>)
        ensures
            opt_string_view(r) == attr_value(*self, "id"@),
    {
        self.attribute("id")
    }

    /// The number of the piece where an object is cut into several.
    pub fn get_intersection_id(&self) -> (r: Option<String>)
        ensures
            opt_string_view(r) == attr_value(*self, "AX_IntersectionId"@),
    {
        self.attribute("AX_IntersectionId")
    }

    /// The parcel the piece belongs to.
    pub fn get_flurstueck_id(&self) -> (r: Option<String>)
        ensures
            opt_string_view(r) == attr_value(*self, "AX_Flurstueck"@),
    {
        self.attribute("AX_Flurstueck")
    }

    /// The object has the attribute `name` with value `value`.
    fn has_attribute(&self, name: &str, value: &str) -> (r: bool)
        ensures
            r == (attr_value(*self, name@) == Some(value@)),
    {
        match self.attribute(name) {
            Some(v) => str_eq(v.as_str(), value),
            None => false,
        }
    }

    /// An equal object: the same attributes.
    pub fn copy(&self) -> (r: TaggedPolygon)
        ensures
            tagged_view(r) == tagged_view(*self),
    {
        TaggedPolygon { attributes: copy_attributes(&self.attributes) }
    }

    /// The identifier of a piece of a parcel:
    /// `Flurstueck:Ebene:id:IntersectionId`, with `0` for no intersection.
    pub fn get_flst_part_id(&self) -> (r: Option<String>)
        ensures
            opt_string_view(r) == spec_flst_part_id(self.attributes.kv()),
    {
        let ebene = match self.attribute("AX_Ebene") {
            Some(e) => e,
            None => return None,
        };
        let id = match self.attribute("id") {
            Some(e) => e,
            None => return None,
        };
        let intersection = match self.attribute("AX_IntersectionId") {
            Some(e) => e,
            None => to_string("0"),
        };
        let flurstueck = match self.attribute("AX_Flurstueck") {
            Some(e) => e,
            None => return None,
        };
        let mut c = chars_of(flurstueck.as_str());
        push_str(&mut c, ":");
        push_str(&mut c, ebene.as_str());
        push_str(&mut c, ":");
        push_str(&mut c, id.as_str());
        push_str(&mut c, ":");
        push_str(&mut c, intersection.as_str());
        Some(string_from_chars(c.as_slice()))
    }

    /// The Wirtschaftsart that the catalogue gives an abbreviation.
    pub fn get_wirtschaftsart(catalogue: &NutzungsArtMap, kuerzel: &str) -> (r: Option<String>)
        ensures
            match lookup(catalogue.kv(), trim(kuerzel@)) {
                Some(na) => r matches Some(x) && x@ == na.wia@,
                None => r is None,
            },
    {
        let k = trim_str(kuerzel);
        match catalogue.get(&k) {
            Some(na) => Some(copy_string(&na.wia)),
            None => None,
        }
    }

    /// The Nutzungsartenkennung that the catalogue gives an abbreviation,
    /// where it is a number.
    pub fn get_nutzungsartenkennung(catalogue: &NutzungsArtMap, kuerzel: &str) -> (r: Option<usize>)
        ensures
            r == match lookup(catalogue.kv(), trim(kuerzel@)) {
                Some(na) => parse_usize(na.nak@),
                None => None,
            },
    {
        let k = trim_str(kuerzel);
        match catalogue.get(&k) {
            Some(na) => parse_usize_str(na.nak.as_str()),
            None => None,
        }
    }
}

/// The value of the last pair named `k`.
pub open spec fn last_value(pairs: Seq<(Seq<char>, Seq<char>)>, k: Seq<char>) -> Option<Seq<char>>
    decreases pairs.len(),
{
    if pairs.len() == 0 {
        None
    } else if pairs.last().0 == k {
        Some(pairs.last().1)
    } else {
        last_value(pairs.drop_last(), k)
    }
}

/// The `key=value` parts of an attribute text, untrimmed; a part without
/// `=` is left out.
pub open spec fn raw_pairs(atr: Seq<char>) -> Seq<(Seq<char>, Seq<char>)> {
    split(atr, ","@).filter_map(
        |s: Seq<char>|
            if split(s, "="@).len() >= 2 {
                Some((split(s, "="@)[0], split(s, "="@)[1]))
            } else {
                None
            },
    )
}

pub open spec fn pair_views(extra: Seq<(&str, &str)>) -> Seq<(Seq<char>, Seq<char>)> {
    extra.map_values(|p: (&str, &str)| (p.0@, p.1@))
}

pub open spec fn opt_string_view(o: Option<String>) -> Option<Seq<char>> {
    match o {
        Some(s) => Some(s@),
        None => None,
    }
}

/// Entries with each value by its view.
pub open spec fn entry_views(kv: Seq<(Seq<char>, String)>) -> Seq<(Seq<char>, Seq<char>)> {
    kv.map_values(|p: (Seq<char>, String)| (p.0, p.1@))
}

/// The pairs that give the attributes of an abbreviation: the catalogue's
/// `key=value` parts, then the extra pairs.
pub open spec fn attribute_pairs(
    catalogue: NutzungsArtMap,
    kuerzel: Seq<char>,
    extra: Seq<(Seq<char>, Seq<char>)>,
) -> Seq<(Seq<char>, Seq<char>)> {
    raw_pairs(
        match lookup(catalogue.kv(), kuerzel) {
            Some(na) => na.atr@,
            None => Seq::empty(),
        },
    ) + extra
}

/// The attributes of an abbreviation in name order, each name with the
/// last value given for it.
pub open spec fn auto_attribute_entries(
    catalogue: NutzungsArtMap,
    kuerzel: Seq<char>,
    extra: Seq<(Seq<char>, Seq<char>)>,
) -> Seq<(Seq<char>, Seq<char>)> {
    choose|kv: Seq<(Seq<char>, Seq<char>)>|
        keys_sorted::<String, Seq<char>>(kv) && forall|q: Seq<char>|
            #[trigger] lookup(kv, q) == last_value(attribute_pairs(catalogue, kuerzel, extra), q)
}

pub proof fn lemma_entry_views(kv: Seq<(Seq<char>, String)>)
    requires
        keys_sorted::<String, String>(kv),
    ensures
        keys_sorted::<String, Seq<char>>(entry_views(kv)),
        forall|q: Seq<char>| #[trigger] lookup(entry_views(kv), q) == opt_string_view(lookup(kv, q)),
{
    let w = entry_views(kv);
    assert forall|a: int, b: int| 0 <= a < b < w.len() implies seq_lt(#[trigger] w[a].0, #[trigger] w[b].0) by {
        assert(w[a].0 == kv[a].0 && w[b].0 == kv[b].0);
    }
    assert forall|q: Seq<char>| #[trigger] lookup(w, q) == opt_string_view(lookup(kv, q)) by {
        if exists|j: int| 0 <= j < kv.len() && kv[j].0 == q {
            let j = choose|j: int| 0 <= j < kv.len() && kv[j].0 == q;
            lemma_key_index_unique::<String, String>(kv, j);
            lemma_key_index_unique::<String, Seq<char>>(w, j);
        } else if exists|j: int| 0 <= j < w.len() && w[j].0 == q {
            let j = choose|j: int| 0 <= j < w.len() && w[j].0 == q;
            assert(kv[j].0 == q);
        }
    }
}

proof fn lemma_last_value_push(pairs: Seq<(Seq<char>, Seq<char>)>, p: (Seq<char>, Seq<char>), k: Seq<char>)
    ensures
        last_value(pairs.push(p), k) == if p.0 == k {
            Some(p.1)
        } else {
            last_value(pairs, k)
        },
{
    assert(pairs.push(p).drop_last() =~= pairs);
}

fn insert_pair(m: &mut SortedMap<String, String>, k: String, v: String, Ghost(done): Ghost<Seq<(Seq<char>, Seq<char>)>>)
    requires
        forall|q: Seq<char>| #[trigger] opt_string_view(lookup(old(m).kv(), q)) == last_value(done, q),
    ensures
        forall|q: Seq<char>| #[trigger] opt_string_view(lookup(final(m).kv(), q)) == last_value(
            done.push((k@, v@)),
            q,
        ),
{
    let ghost kk = k@;
    let ghost vv = v@;
    let ghost old_kv = m.kv();
    m.insert(k, v);
    assert forall|q: Seq<char>| #[trigger] opt_string_view(lookup(m.kv(), q)) == last_value(
        done.push((kk, vv)),
        q,
    ) by {
        lemma_last_value_push(done, (kk, vv), q);
        if q != kk {
            assert(lookup(m.kv(), q) == lookup(old_kv, q));
        }
    }
}

impl TaggedPolygon {
    /// The attributes that the catalogue gives an abbreviation (its
    /// `key=value` parts), then the extra ones; a later value for a name
    /// replaces an earlier one.
    pub fn get_auto_attributes_for_kuerzel(
        catalogue: &NutzungsArtMap,
        kuerzel: &str,
        extra: &[(&str, &str)],
    ) -> (r: SortedMap<String, String>)
        ensures
            forall|q: Seq<char>|
                #[trigger] opt_string_view(lookup(r.kv(), q)) == last_value(
                    raw_pairs(
                        match lookup(catalogue.kv(), kuerzel@) {
                            Some(na) => na.atr@,
                            None => Seq::empty(),
                        },
                    ) + pair_views(extra@),
                    q,
                ),
            entry_views(r.kv()) == auto_attribute_entries(*catalogue, kuerzel@, pair_views(extra@)),
    {
        let k = to_string(kuerzel);
        let attribute = match catalogue.get(&k) {
            Some(na) => copy_string(&na.atr),
            None => String::new(),
        };
        let parts = split_str(attribute.as_str(), ",");
        let ghost ps = string_views(parts@);
        let ghost f = |s: Seq<char>|
            if split(s, "="@).len() >= 2 {
                Some((split(s, "="@)[0], split(s, "="@)[1]))
            } else {
                None
            };
        let mut m: SortedMap<String, String> = SortedMap::new();
        proof {
            assert(ps.take(0).filter_map(f) =~= Seq::<(Seq<char>, Seq<char>)>::empty());
        }
        let mut i: usize = 0;
        while i < parts.len()
            invariant
                i <= parts@.len(),
                ps == string_views(parts@),
                ps == split(attribute@, ","@),
                f == (|s: Seq<char>|
                    if split(s, "="@).len() >= 2 {
                        Some((split(s, "="@)[0], split(s, "="@)[1]))
                    } else {
                        None
                    }),
                forall|q: Seq<char>| #[trigger] opt_string_view(lookup(m.kv(), q)) == last_value(
                    ps.take(i as int).filter_map(f),
                    q,
                ),
            decreases parts.len() - i,
        {
            proof {
                ps.lemma_filter_map_take_succ(f, i as int);
            }
            assert(ps[i as int] == parts@[i as int]@);
            let q = split_str(parts[i].as_str(), "=");
            if q.len() >= 2 {
                assert(string_views(q@)[0] == q@[0]@);
                assert(string_views(q@)[1] == q@[1]@);
                insert_pair(&mut m, copy_string(&q[0]), copy_string(&q[1]), Ghost(ps.take(i as int).filter_map(f)));
                assert(ps.take(i + 1).filter_map(f) =~= ps.take(i as int).filter_map(f).push((q@[0]@, q@[1]@)));
            } else {
                assert(ps.take(i + 1).filter_map(f) =~= ps.take(i as int).filter_map(f));
            }
            i = i + 1;
        }
        assert(ps.take(parts@.len() as int) =~= ps);
        let ghost base = ps.filter_map(f);
        assert(base == raw_pairs(attribute@));
        let ghost ev = pair_views(extra@);
        let mut j: usize = 0;
        assert(base + ev.take(0) =~= base);
        while j < extra.len()
            invariant
                j <= extra@.len(),
                ev == pair_views(extra@),
                forall|q: Seq<char>| #[trigger] opt_string_view(lookup(m.kv(), q)) == last_value(
                    base + ev.take(j as int),
                    q,
                ),
            decreases extra.len() - j,
        {
            let (a, b) = extra[j];
            insert_pair(&mut m, to_string(a), to_string(b), Ghost(base + ev.take(j as int)));
            assert(base + ev.take(j + 1) =~= (base + ev.take(j as int)).push((a@, b@)));
            j = j + 1;
        }
        assert(ev.take(extra@.len() as int) =~= ev);
        m.lemma_sorted();
        proof {
            lemma_entry_views(m.kv());
            let w = entry_views(m.kv());
            let ap = attribute_pairs(*catalogue, kuerzel@, ev);
            assert(base + ev == ap);
            assert forall|q: Seq<char>| #[trigger] lookup(w, q) == last_value(ap, q) by {
                assert(opt_string_view(lookup(m.kv(), q)) == last_value(base + ev, q));
            }
            let c = auto_attribute_entries(*catalogue, kuerzel@, ev);
            assert(keys_sorted::<String, Seq<char>>(c) && forall|q: Seq<char>|
                #[trigger] lookup(c, q) == last_value(ap, q));
            assert forall|q: Seq<char>| #[trigger] lookup(c, q) == lookup(w, q) by {
                assert(lookup(c, q) == last_value(ap, q));
                assert(lookup(w, q) == last_value(ap, q));
            }
            lemma_sorted_entries_unique::<String, Seq<char>>(c, w);
        }
        m
    }
}


/// An object of the NAS file as the change request reads it.
#[derive(Debug)]
pub struct MemberObject {
    /// The object's type (`AX_...`).
    pub member_type: String,
    /// The start of the object's life time, as RFC 3339 text to the second.
    pub beginnt: String,
    pub dient_zur_darstellung_von: Option<String>,
    pub ist_bestandteil_von: Option<String>,
    pub hat: Option<String>,
    pub ist_teil_von: Option<String>,
    /// The text of each child node, by node type.
    pub extra_attribute: SortedMap<String, String>,
    pub poly: Vec<PolygonText>,
}

/// The objects of a NAS file, by id.
#[derive(Debug)]
pub struct NasXmlObjects {
    pub objects: SortedMap<String, MemberObject>,
}


/// An attribute's value, by its view.
pub open spec fn attr_value(t: TaggedPolygon, name: Seq<char>) -> Option<Seq<char>> {
    opt_string_view(lookup(t.attributes.kv(), name))
}

/// An object's attributes in name order, by their views.
pub open spec fn tagged_view(t: TaggedPolygon) -> Seq<(Seq<char>, Seq<char>)> {
    entry_views(t.attributes.kv())
}

pub open spec fn parts_view(v: Seq<TaggedPolygon>) -> Seq<Seq<(Seq<char>, Seq<char>)>> {
    v.map_values(|t: TaggedPolygon| tagged_view(t))
}

/// A copy of an attribute map.
pub fn copy_attributes(m: &SortedMap<String, String>) -> (r: SortedMap<String, String>)
    ensures
        entry_views(r.kv()) == entry_views(m.kv()),
{
    m.lemma_sorted();
    let ghost kv = m.kv();
    let mut r: SortedMap<String, String> = SortedMap::new();
    let mut i: usize = 0;
    while i < m.len()
        invariant
            i <= kv.len(),
            kv == m.kv(),
            keys_sorted::<String, String>(kv),
            r.kv().len() == i,
            forall|j: int| 0 <= j < i ==> #[trigger] r.kv()[j].0 == kv[j].0,
            entry_views(r.kv()) == entry_views(kv).take(i as int),
        decreases kv.len() - i,
    {
        let k = m.key_at(i);
        let v = m.value_at(i);
        proof {
            if i > 0 {
                assert(r.kv().last().0 == kv[i - 1].0);
                assert(seq_lt(kv[i - 1].0, kv[i as int].0));
            }
        }
        let ghost before = r.kv();
        r.push_last(copy_string(k), copy_string(v));
        assert(entry_views(r.kv()) =~= entry_views(kv).take(i + 1));
        i = i + 1;
    }
    assert(entry_views(kv).take(kv.len() as int) =~= entry_views(kv));
    r
}

/// Copies of a list of objects.
pub fn copy_parts(v: &Vec<TaggedPolygon>) -> (r: Vec<TaggedPolygon>)
    ensures
        parts_view(r@) == parts_view(v@),
{
    let mut r: Vec<TaggedPolygon> = Vec::new();
    let mut i: usize = 0;
    while i < v.len()
        invariant
            i <= v@.len(),
            parts_view(r@) == parts_view(v@).take(i as int),
        decreases v.len() - i,
    {
        let t = v[i].copy();
        let ghost before = r@;
        r.push(t);
        assert(parts_view(r@) =~= parts_view(before).push(tagged_view(v@[i as int])));
        assert(parts_view(v@).take(i + 1) =~= parts_view(v@).take(i as int).push(tagged_view(v@[i as int])));
        i = i + 1;
    }
    assert(parts_view(v@).take(v@.len() as int) =~= parts_view(v@));
    r
}

/// The pieces of use of each parcel, by parcel identifier, with the
/// projection they are in. (Their polygons, in floating point, are kept by
/// the caller.)
#[derive(Debug)]
pub struct SplitNasXml {
    pub crs: String,
    pub flurstuecke_nutzungen: SortedMap<String, Vec<TaggedPolygon>>,
}

pub type SplitView = Seq<(Seq<char>, Seq<Seq<(Seq<char>, Seq<char>)>>)>;

/// The parcels and their pieces, by their views.
pub open spec fn split_view(kv: Seq<(Seq<char>, Vec<TaggedPolygon>)>) -> SplitView {
    kv.map_values(|e: (Seq<char>, Vec<TaggedPolygon>)| (e.0, parts_view(e.1@)))
}

/// The parcel identifier is of the Gemarkung `target`.
pub open spec fn in_gemarkung(id: Seq<char>, target: usize) -> bool {
    match spec_parse_num(spec_flst_from_str(id)) {
        Some(n) => n.gemarkung == target,
        None => false,
    }
}

/// A piece identifier `Flurstueck:Ebene:id` or `Flurstueck:Ebene:id:IntersectionId`.
pub open spec fn part_query(id: Seq<char>) -> Option<(Seq<char>, Seq<char>, Seq<char>, Option<Seq<char>>)> {
    let p = split(id, ":"@);
    if p.len() == 4 {
        Some((p[0], p[1], p[2], Some(p[3])))
    } else if p.len() == 3 {
        Some((p[0], p[1], p[2], None))
    } else {
        None
    }
}

/// The piece is on layer `ebene` with id `obj`, and with the intersection
/// number `isect` where one is asked for.
pub open spec fn part_matches(t: TaggedPolygon, ebene: Seq<char>, obj: Seq<char>, isect: Option<Seq<char>>) -> bool {
    &&& attr_value(t, "AX_Ebene"@) == Some(ebene)
    &&& attr_value(t, "id"@) == Some(obj)
    &&& match isect {
        Some(s) => attr_value(t, "AX_IntersectionId"@) == Some(s),
        None => true,
    }
}

impl SplitNasXml {
    /// Only the parcels of the Gemarkung `target_gemarkung`; an identifier
    /// that gives no number is of none.
    pub fn only_retain_gemarkung(&self, target_gemarkung: usize) -> (r: SplitNasXml)
        ensures
            r.crs@ == self.crs@,
            split_view(r.flurstuecke_nutzungen.kv()) == split_view(self.flurstuecke_nutzungen.kv()).filter_map(
                |e: (Seq<char>, Seq<Seq<(Seq<char>, Seq<char>)>>)|
                    if in_gemarkung(e.0, target_gemarkung) {
                        Some(e)
                    } else {
                        None
                    },
            ),
    {
        let m = &self.flurstuecke_nutzungen;
        m.lemma_sorted();
        let ghost kv = m.kv();
        let ghost sv = split_view(kv);
        let ghost f = |e: (Seq<char>, Seq<Seq<(Seq<char>, Seq<char>)>>)|
            if in_gemarkung(e.0, target_gemarkung) {
                Some(e)
            } else {
                None
            };
        let mut r: SortedMap<String, Vec<TaggedPolygon>> = SortedMap::new();
        let mut i: usize = 0;
        while i < m.len()
            invariant
                i <= kv.len(),
                kv == m.kv(),
                sv == split_view(kv),
                keys_sorted::<String, Vec<TaggedPolygon>>(kv),
                f == (|e: (Seq<char>, Seq<Seq<(Seq<char>, Seq<char>)>>)|
                    if in_gemarkung(e.0, target_gemarkung) {
                        Some(e)
                    } else {
                        None
                    }),
                split_view(r.kv()) == sv.take(i as int).filter_map(f),
                r.kv().len() > 0 ==> exists|j: int| 0 <= j < i && r.kv().last().0 == kv[j].0,
            decreases kv.len() - i,
        {
            proof {
                sv.lemma_filter_map_take_succ(f, i as int);
            }
            let k = m.key_at(i);
            let parsed = crate::xlsx::FlstIdParsed::from_str(k.as_str()).parse_num();
            let keep = match parsed {
                Some(n) => n.gemarkung == target_gemarkung,
                None => false,
            };
            assert(sv[i as int] == (kv[i as int].0, parts_view(kv[i as int].1@)));
            if keep {
                let parts = copy_parts(m.value_at(i));
                proof {
                    if r.kv().len() > 0 {
                        let j = choose|j: int| 0 <= j < i && r.kv().last().0 == kv[j].0;
                        assert(seq_lt(kv[j].0, kv[i as int].0));
                    }
                }
                let ghost before = r.kv();
                r.push_last(copy_string(k), parts);
                assert(split_view(r.kv()) =~= split_view(before).push(sv[i as int]));
            }
            i = i + 1;
        }
        assert(sv.take(kv.len() as int) =~= sv);
        SplitNasXml { crs: copy_string(&self.crs), flurstuecke_nutzungen: r }
    }

    /// The piece with the identifier `Flurstueck:Ebene:id` (or
    /// `Flurstueck:Ebene:id:IntersectionId`): the first piece of the parcel
    /// on that layer with that id (and intersection number).
    pub fn get_flst_part_by_id(&self, flstpartid: &str) -> (r: Option<&TaggedPolygon>)
        ensures
            match part_query(flstpartid@) {
                None => r is None,
                Some(pq) => match lookup(self.flurstuecke_nutzungen.kv(), pq.0) {
                    None => r is None,
                    Some(parts) => {
                        &&& r matches Some(t) ==> exists|j: int|
                            0 <= j < parts@.len() && *t == parts@[j] && part_matches(parts@[j], pq.1, pq.2, pq.3)
                                && forall|k: int| 0 <= k < j ==> !part_matches(#[trigger] parts@[k], pq.1, pq.2, pq.3)
                        &&& r is None ==> forall|j: int|
                            0 <= j < parts@.len() ==> !part_matches(#[trigger] parts@[j], pq.1, pq.2, pq.3)
                    },
                },
            },
    {
        let split = split_str(flstpartid, ":");
        let ghost sp = string_views(split@);
        if split.len() != 4 && split.len() != 3 {
            return None;
        }
        assert(sp[0] == split@[0]@ && sp[1] == split@[1]@ && sp[2] == split@[2]@);
        let isect: Option<&str> = if split.len() == 4 {
            assert(sp[3] == split@[3]@);
            Some(split[3].as_str())
        } else {
            None
        };
        let ghost q = part_query(flstpartid@)->0;
        let parts = match self.flurstuecke_nutzungen.get(&split[0]) {
            Some(p) => p,
            None => return None,
        };
        let mut j: usize = 0;
        while j < parts.len()
            invariant
                j <= parts@.len(),
                q == part_query(flstpartid@)->0,
                part_query(flstpartid@) is Some,
                split@.len() == 3 || split@.len() == 4,
                q.1 == split@[1]@ && q.2 == split@[2]@,
                lookup(self.flurstuecke_nutzungen.kv(), q.0) == Some(*parts),
                q.3 == match isect {
                    Some(s) => Some(s@),
                    None => None,
                },
                forall|k: int| 0 <= k < j ==> !part_matches(#[trigger] parts@[k], q.1, q.2, q.3),
            decreases parts.len() - j,
        {
            let t = &parts[j];
            let ok = t.has_attribute("AX_Ebene", split[1].as_str()) && t.has_attribute("id", split[2].as_str())
                && match isect {
                Some(s) => t.has_attribute("AX_IntersectionId", s),
                None => true,
            };
            if ok {
                assert(part_matches(parts@[j as int], q.1, q.2, q.3));
                let ghost pv = lookup(self.flurstuecke_nutzungen.kv(), q.0)->0;
                assert(pv@[j as int] == parts@[j as int]);
                assert(exists|jj: int|
                    0 <= jj < pv@.len() && *t == pv@[jj] && part_matches(pv@[jj], q.1, q.2, q.3)
                        && forall|k: int| 0 <= k < jj ==> !part_matches(#[trigger] pv@[k], q.1, q.2, q.3));
                return Some(t);
            }
            j = j + 1;
        }
        None
    }
}


/// The identifier of a piece of a parcel:
/// `Flurstueck:Ebene:id:IntersectionId`, with `0` for no intersection.
pub open spec fn spec_flst_part_id(a: Seq<(Seq<char>, String)>) -> Option<Seq<char>> {
    match (lookup(a, "AX_Ebene"@), lookup(a, "id"@), lookup(a, "AX_Flurstueck"@)) {
        (Some(e), Some(id), Some(f)) => Some(
            f@ + ":"@ + e@ + ":"@ + id@ + ":"@ + match lookup(a, "AX_IntersectionId"@) {
                Some(n) => n@,
                None => "0"@,
            },
        ),
        _ => None,
    }
}

/// A piece as a split face that keeps its use: its use, twice, its parcel
/// and its identifier, where the catalogue gives it a use and it has both.
pub open spec fn splitflaeche_of(cat: NutzungsArtMap, t: TaggedPolygon) -> Option<(Seq<char>, Seq<char>, Seq<char>, Seq<char>)> {
    match (
        spec_auto_kuerzel(cat, t.attributes),
        attr_value(t, "AX_Flurstueck"@),
        spec_flst_part_id(t.attributes.kv()),
    ) {
        (Some(k), Some(f), Some(p)) => Some((k, k, f, p)),
        _ => None,
    }
}

pub open spec fn ai_views(s: Seq<AenderungenIntersection>) -> Seq<(Seq<char>, Seq<char>, Seq<char>, Seq<char>)> {
    s.map_values(|a: AenderungenIntersection| (a.alt@, a.neu@, a.flst_id@, a.flst_id_part@))
}

/// The split faces of all parcels, parcel by parcel, piece by piece.
pub open spec fn spec_as_splitflaechen(
    cat: NutzungsArtMap,
    kv: Seq<(Seq<char>, Vec<TaggedPolygon>)>,
) -> Seq<(Seq<char>, Seq<char>, Seq<char>, Seq<char>)> {
    kv.map_values(
        |e: (Seq<char>, Vec<TaggedPolygon>)| e.1@.filter_map(|t: TaggedPolygon| splitflaeche_of(cat, t)),
    ).flatten()
}

/// Each split face with the new id of its piece.
pub open spec fn faces_with_ids(sf: Seq<AenderungenIntersection>, ids: Seq<String>) -> Seq<(AenderungenIntersection, String)> {
    Seq::new(sf.len(), |j: int| (sf[j], ids[j]))
}

/// The new piece of a split face on the parcel `k`: the attributes of the
/// face's new use, its id, its parcel and intersection number `0`.
pub open spec fn future_part(cat: NutzungsArtMap, k: Seq<char>) -> spec_fn((AenderungenIntersection, String)) -> Option<Seq<(Seq<char>, Seq<char>)>> {
    |p: (AenderungenIntersection, String)|
        if p.0.flst_id@ == k {
            Some(
                auto_attribute_entries(
                    cat,
                    p.0.neu@,
                    seq![("id"@, p.1@), ("AX_Flurstueck"@, k), ("AX_IntersectionId"@, "0"@)],
                ),
            )
        } else {
            None
        }
}

/// The new pieces of the parcel `k`, one for each split face on it.
pub open spec fn future_parts(
    cat: NutzungsArtMap,
    sf: Seq<AenderungenIntersection>,
    ids: Seq<String>,
    k: Seq<char>,
) -> Seq<Seq<(Seq<char>, Seq<char>)>> {
    faces_with_ids(sf, ids).filter_map(future_part(cat, k))
}

/// Each parcel with split faces gets the pieces of its faces; the others
/// keep theirs.
pub open spec fn spec_migrate_future(
    cat: NutzungsArtMap,
    sf: Seq<AenderungenIntersection>,
    ids: Seq<String>,
    sv: SplitView,
) -> SplitView {
    sv.map_values(
        |e: (Seq<char>, Seq<Seq<(Seq<char>, Seq<char>)>>)|
            (
                e.0,
                if future_parts(cat, sf, ids, e.0).len() == 0 {
                    e.1
                } else {
                    future_parts(cat, sf, ids, e.0)
                },
            ),
    )
}

impl SplitNasXml {
    /// Every piece that the catalogue gives a use, as a split face that
    /// keeps its use, parcel by parcel in order.
    pub fn as_splitflaechen(&self, catalogue: &NutzungsArtMap) -> (r: Vec<AenderungenIntersection>)
        ensures
            ai_views(r@) == spec_as_splitflaechen(*catalogue, self.flurstuecke_nutzungen.kv()),
    {
        let m = &self.flurstuecke_nutzungen;
        let ghost kv = m.kv();
        let ghost cat = *catalogue;
        let ghost g = |e: (Seq<char>, Vec<TaggedPolygon>)| e.1@.filter_map(|t: TaggedPolygon| splitflaeche_of(cat, t));
        let ghost h = |t: TaggedPolygon| splitflaeche_of(cat, t);
        let mut r: Vec<AenderungenIntersection> = Vec::new();
        let mut i: usize = 0;
        assert(kv.take(0).map_values(g).flatten() =~= Seq::empty());
        while i < m.len()
            invariant
                i <= kv.len(),
                kv == m.kv(),
                cat == *catalogue,
                g == (|e: (Seq<char>, Vec<TaggedPolygon>)| e.1@.filter_map(|t: TaggedPolygon| splitflaeche_of(cat, t))),
                h == (|t: TaggedPolygon| splitflaeche_of(cat, t)),
                ai_views(r@) == kv.take(i as int).map_values(g).flatten(),
            decreases kv.len() - i,
        {
            let parts = m.value_at(i);
            let ghost prefix = ai_views(r@);
            let mut j: usize = 0;
            assert(parts@.take(0).filter_map(h) =~= Seq::empty());
            assert(prefix + parts@.take(0).filter_map(h) =~= prefix);
            while j < parts.len()
                invariant
                    j <= parts@.len(),
                    cat == *catalogue,
                    h == (|t: TaggedPolygon| splitflaeche_of(cat, t)),
                    ai_views(r@) == prefix + parts@.take(j as int).filter_map(h),
                decreases parts.len() - j,
            {
                proof {
                    parts@.lemma_filter_map_take_succ(h, j as int);
                }
                let t = &parts[j];
                let k = t.get_auto_kuerzel(catalogue);
                let f = t.get_flurstueck_id();
                let p = t.get_flst_part_id();
                match (k, f, p) {
                    (Some(k), Some(f), Some(p)) => {
                        let a = AenderungenIntersection { alt: copy_string(&k), neu: k, flst_id: f, flst_id_part: p };
                        let ghost before = r@;
                        r.push(a);
                        assert(ai_views(r@) =~= ai_views(before).push(h(parts@[j as int])->0));
                    },
                    _ => {},
                }
                j = j + 1;
            }
            assert(parts@.take(parts@.len() as int) =~= parts@);
            proof {
                assert(kv.take(i + 1).map_values(g) =~= kv.take(i as int).map_values(g).push(g(kv[i as int])));
                kv.take(i as int).map_values(g).lemma_flatten_push(g(kv[i as int]));
            }
            i = i + 1;
        }
        assert(kv.take(kv.len() as int) =~= kv);
        r
    }

    /// Each parcel that split faces lie on gets, as its pieces, one per face
    /// with the attributes of the face's new use; `ids[j]` is the new id of
    /// the piece of `splitflaechen[j]`. The other parcels keep their pieces.
    pub fn migrate_future(
        &self,
        splitflaechen: &[AenderungenIntersection],
        ids: &[String],
        catalogue: &NutzungsArtMap,
    ) -> (r: SplitNasXml)
        requires
            ids@.len() == splitflaechen@.len(),
        ensures
            r.crs@ == self.crs@,
            split_view(r.flurstuecke_nutzungen.kv()) == spec_migrate_future(
                *catalogue,
                splitflaechen@,
                ids@,
                split_view(self.flurstuecke_nutzungen.kv()),
            ),
    {
        let m = &self.flurstuecke_nutzungen;
        m.lemma_sorted();
        let ghost kv = m.kv();
        let ghost sv = split_view(kv);
        let ghost cat = *catalogue;
        let ghost target = spec_migrate_future(cat, splitflaechen@, ids@, sv);
        let ghost zipped = faces_with_ids(splitflaechen@, ids@);
        let mut out: SortedMap<String, Vec<TaggedPolygon>> = SortedMap::new();
        let mut i: usize = 0;
        while i < m.len()
            invariant
                i <= kv.len(),
                kv == m.kv(),
                sv == split_view(kv),
                keys_sorted::<String, Vec<TaggedPolygon>>(kv),
                cat == *catalogue,
                ids@.len() == splitflaechen@.len(),
                target == spec_migrate_future(cat, splitflaechen@, ids@, sv),
                zipped == faces_with_ids(splitflaechen@, ids@),
                out.kv().len() == i,
                forall|j: int| 0 <= j < i ==> #[trigger] out.kv()[j].0 == kv[j].0,
                split_view(out.kv()) == target.take(i as int),
            decreases kv.len() - i,
        {
            let k = m.key_at(i);
            let ghost kk = k@;
            let ghost fp = future_part(cat, kk);
            let mut neu: Vec<TaggedPolygon> = Vec::new();
            let mut j: usize = 0;
            assert(zipped.take(0).filter_map(fp) =~= Seq::empty());
            while j < splitflaechen.len()
                invariant
                    j <= splitflaechen@.len(),
                    ids@.len() == splitflaechen@.len(),
                    cat == *catalogue,
                    kk == k@,
                    zipped == faces_with_ids(splitflaechen@, ids@),
                    fp == future_part(cat, kk),
                    parts_view(neu@) == zipped.take(j as int).filter_map(fp),
                decreases splitflaechen.len() - j,
            {
                proof {
                    zipped.lemma_filter_map_take_succ(fp, j as int);
                }
                let sf = &splitflaechen[j];
                if str_eq(sf.flst_id.as_str(), k.as_str()) {
                    let mut extra: Vec<(&str, &str)> = Vec::new();
                    extra.push(("id", ids[j].as_str()));
                    extra.push(("AX_Flurstueck", k.as_str()));
                    extra.push(("AX_IntersectionId", "0"));
                    assert(pair_views(extra@) =~= seq![("id"@, ids@[j as int]@), ("AX_Flurstueck"@, kk), ("AX_IntersectionId"@, "0"@)]);
                    let attributes = TaggedPolygon::get_auto_attributes_for_kuerzel(catalogue, sf.neu.as_str(), extra.as_slice());
                    let t = TaggedPolygon { attributes };
                    let ghost before = neu@;
                    neu.push(t);
                    assert(parts_view(neu@) =~= parts_view(before).push(fp(zipped[j as int])->0));
                }
                j = j + 1;
            }
            assert(zipped.take(splitflaechen@.len() as int) =~= zipped);
            assert(parts_view(neu@) == future_parts(cat, splitflaechen@, ids@, kk));
            let parts = if neu.len() == 0 {
                copy_parts(m.value_at(i))
            } else {
                neu
            };
            proof {
                if i > 0 {
                    assert(out.kv().last().0 == kv[i - 1].0);
                    assert(seq_lt(kv[i - 1].0, kv[i as int].0));
                }
            }
            let ghost before = out.kv();
            out.push_last(copy_string(k), parts);
            assert(sv[i as int] == (kv[i as int].0, parts_view(kv[i as int].1@)));
            assert(split_view(out.kv()) =~= target.take(i + 1));
            i = i + 1;
        }
        assert(target.take(kv.len() as int) =~= target);
        SplitNasXml { crs: copy_string(&self.crs), flurstuecke_nutzungen: out }
    }
}


/// The objects of a NAS file by layer, with the projection they are in.
/// (Their polygons, in floating point, are kept by the caller.)
#[derive(Debug)]
pub struct NasXMLFile {
    pub ebenen: SortedMap<String, Vec<TaggedPolygon>>,
    pub crs: String,
}


/// The map that inserting the pairs in order gives (a later pair wins).
pub open spec fn pairs_map(ps: Seq<(Seq<char>, Seq<char>)>) -> Map<Seq<char>, Seq<char>>
    decreases ps.len(),
{
    if ps.len() == 0 {
        Map::empty()
    } else {
        pairs_map(ps.drop_last()).insert(ps.last().0, ps.last().1)
    }
}

/// `(name, text)` of each child that has a text, in order.
pub open spec fn child_text_pairs(cs: Seq<XmlNode>) -> Seq<(Seq<char>, Seq<char>)> {
    cs.filter_map(
        |c: XmlNode|
            match c.text {
                Some(t) => Some((c.node_type@, t@)),
                None => None,
            },
    )
}

/// The attributes of an object: the texts of its children, then its own
/// attributes, then `AX_Ebene` set to its type; a later one wins.
pub open spec fn member_pairs(o: XmlNode) -> Seq<(Seq<char>, Seq<char>)> {
    child_text_pairs(o.children@) + o.attributes.kv().map_values(
        |e: (Seq<char>, String)| (e.0, e.1@),
    ) + seq![("AX_Ebene"@, o.node_type@)]
}

pub open spec fn member_attributes(o: XmlNode) -> Map<Seq<char>, Seq<char>> {
    pairs_map(member_pairs(o))
}

fn insert_attribute(
    m: &mut SortedMap<String, String>,
    k: String,
    v: String,
    Ghost(ps): Ghost<Seq<(Seq<char>, Seq<char>)>>,
)
    requires
        attrs_view(*old(m)) == pairs_map(ps),
    ensures
        attrs_view(*final(m)) == pairs_map(ps.push((k@, v@))),
{
    let ghost kk = k@;
    let ghost vv = v@;
    let ghost before = *m;
    m.insert(k, v);
    assert(ps.push((kk, vv)).drop_last() =~= ps);
    assert(attrs_view(*m) =~= attrs_view(before).insert(kk, vv));
}

/// The attribute map of an object node.
fn member_attribute_map(o: &XmlNode) -> (r: SortedMap<String, String>)
    ensures
        attrs_view(r) == member_attributes(*o),
{
    let ghost f = |c: XmlNode|
        match c.text {
            Some(t) => Some((c.node_type@, t@)),
            None => None,
        };
    let ghost cs = o.children@;
    let mut m: SortedMap<String, String> = SortedMap::new();
    assert(attrs_view(m) =~= Map::<Seq<char>, Seq<char>>::empty());
    assert(cs.take(0).filter_map(f) =~= Seq::<(Seq<char>, Seq<char>)>::empty());
    let mut i: usize = 0;
    while i < o.children.len()
        invariant
            i <= cs.len(),
            cs == o.children@,
            f == (|c: XmlNode|
                match c.text {
                    Some(t) => Some((c.node_type@, t@)),
                    None => None,
                }),
            attrs_view(m) == pairs_map(cs.take(i as int).filter_map(f)),
        decreases cs.len() - i,
    {
        proof {
            cs.lemma_filter_map_take_succ(f, i as int);
        }
        match &o.children[i].text {
            Some(t) => {
                let k = copy_string(&o.children[i].node_type);
                let v = copy_string(t);
                let ghost ps = cs.take(i as int).filter_map(f);
                assert(f(cs[i as int]) == Some((k@, v@)));
                insert_attribute(&mut m, k, v, Ghost(ps));
                assert(ps + seq![(k@, v@)] =~= ps.push((k@, v@)));
            },
            None => {
                assert(f(cs[i as int]) is None);
                assert(cs.take(i as int).filter_map(f) + Seq::<(Seq<char>, Seq<char>)>::empty()
                    =~= cs.take(i as int).filter_map(f));
            },
        }
        i = i + 1;
    }
    assert(cs.take(cs.len() as int) =~= cs);
    let ghost base = child_text_pairs(cs);
    let ghost av = o.attributes.kv().map_values(|e: (Seq<char>, String)| (e.0, e.1@));
    assert(base + av.take(0) =~= base);
    let mut j: usize = 0;
    while j < o.attributes.len()
        invariant
            j <= av.len(),
            av == o.attributes.kv().map_values(|e: (Seq<char>, String)| (e.0, e.1@)),
            base == child_text_pairs(o.children@),
            attrs_view(m) == pairs_map(base + av.take(j as int)),
        decreases av.len() - j,
    {
        let k = copy_string(o.attributes.key_at(j));
        let v = copy_string(o.attributes.value_at(j));
        insert_attribute(&mut m, k, v, Ghost(base + av.take(j as int)));
        assert(base + av.take(j + 1) =~= (base + av.take(j as int)).push((k@, v@)));
        j = j + 1;
    }
    assert(av.take(av.len() as int) =~= av);
    let k = to_string("AX_Ebene");
    let v = copy_string(&o.node_type);
    insert_attribute(&mut m, k, v, Ghost(base + av));
    assert(member_pairs(*o) =~= (base + av).push((k@, v@)));
    m
}

/// A reference-system node that names the standard one: `Some` of the
/// `href` of its first `crs` node (if that has one), where its first
/// `standard` node reads `true` and it has a `crs` node.
pub open spec fn crs_choice(c: XmlNode) -> Option<Option<Seq<char>>> {
    let st = collect(c.children@, |n: XmlNode| n.node_type@ == "standard"@);
    let cr = collect(c.children@, |n: XmlNode| n.node_type@ == "crs"@);
    if st.len() > 0 && opt_view(st[0].text) == Some("true"@) && cr.len() > 0 {
        Some(opt_view(lookup(cr[0].attributes.kv(), "href"@)))
    } else {
        None
    }
}

/// What the last reference-system node that names the standard one names.
pub open spec fn chosen_crs(cs: Seq<XmlNode>) -> Option<Seq<char>>
    decreases cs.len(),
{
    if cs.len() == 0 {
        None
    } else {
        match crs_choice(cs.last()) {
            Some(h) => h,
            None => chosen_crs(cs.drop_last()),
        }
    }
}

/// The reference-system nodes of the document.
pub open spec fn crs_nodes(xml: Seq<XmlNode>) -> Seq<XmlNode> {
    collect(xml, |n: XmlNode| n.node_type@ == "AA_Koordinatenreferenzsystemangaben"@)
}

/// The member nodes of the document.
pub open spec fn member_nodes(xml: Seq<XmlNode>) -> Seq<XmlNode> {
    collect(xml, |n: XmlNode| n.node_type@ == "member"@)
}

/// A member gives objects when its first child has an `id` and a type on
/// the whitelist.
pub open spec fn member_kept(m: XmlNode, wl: Seq<Seq<char>>) -> bool {
    &&& m.children@.len() > 0
    &&& lookup(m.children@[0].attributes.kv(), "id"@) is Some
    &&& wl.contains(m.children@[0].node_type@)
}

/// The objects of a member: one per polygon, each the type and attributes
/// of its first child.
pub open spec fn member_objects(m: XmlNode, count: usize, wl: Seq<Seq<char>>) -> Seq<
    (Seq<char>, Map<Seq<char>, Seq<char>>),
> {
    if member_kept(m, wl) {
        Seq::new(
            count as nat,
            |i: int| (m.children@[0].node_type@, member_attributes(m.children@[0])),
        )
    } else {
        Seq::empty()
    }
}

/// The objects of all members, in document order.
pub open spec fn nas_objects(ms: Seq<XmlNode>, counts: Seq<usize>, wl: Seq<Seq<char>>) -> Seq<
    (Seq<char>, Map<Seq<char>, Seq<char>>),
>
    decreases ms.len(),
{
    if ms.len() == 0 {
        Seq::empty()
    } else {
        nas_objects(ms.drop_last(), counts.take(ms.len() - 1), wl) + member_objects(
            ms.last(),
            counts[ms.len() - 1],
            wl,
        )
    }
}

/// The attributes of the objects of layer `k`.
pub open spec fn layer_objects(objs: Seq<(Seq<char>, Map<Seq<char>, Seq<char>>)>, k: Seq<char>) -> Seq<
    Map<Seq<char>, Seq<char>>,
> {
    objs.filter_map(
        |x: (Seq<char>, Map<Seq<char>, Seq<char>>)|
            if x.0 == k {
                Some(x.1)
            } else {
                None
            },
    )
}

pub open spec fn tagged_attributes(v: Seq<TaggedPolygon>) -> Seq<Map<Seq<char>, Seq<char>>> {
    v.map_values(|t: TaggedPolygon| attrs_view(t.attributes))
}

/// The reference system read from the document: the last node that names
/// the standard system, its `urn:adv:crs:` prefix removed.
pub open spec fn nas_crs_name(xml: Seq<XmlNode>) -> Option<Seq<char>> {
    match chosen_crs(crs_nodes(xml)) {
        Some(h) => Some(replace(h, "urn:adv:crs:"@, ""@)),
        None => None,
    }
}

fn whitelisted(wl: &Vec<String>, t: &String) -> (r: bool)
    ensures
        r == string_views(wl@).contains(t@),
{
    let mut i: usize = 0;
    while i < wl.len()
        invariant
            i <= wl@.len(),
            forall|j: int| 0 <= j < i ==> wl@[j]@ != t@,
        decreases wl.len() - i,
    {
        if str_eq(wl[i].as_str(), t.as_str()) {
            assert(string_views(wl@)[i as int] == t@);
            return true;
        }
        i = i + 1;
    }
    proof {
        if string_views(wl@).contains(t@) {
            let j = choose|j: int| 0 <= j < string_views(wl@).len() && string_views(wl@)[j] == t@;
            assert(wl@[j]@ == t@);
        }
    }
    false
}

/// The reference system the document names as standard, as a proj string.
fn read_nas_crs(xml: &[XmlNode]) -> (r: Result<String, String>)
    ensures
        match nas_crs_name(xml@) {
            None => r matches Err(e) && e@
                == "kein Koordinatenreferenzsystem gefunden (AA_Koordinatenreferenzsystemangaben = standard)"@,
            Some(name) => match r {
                Ok(p) => exists|i: nat| i < 60 && name == crs_name(i) && p@ == utm_proj(i),
                Err(e) => (forall|i: nat| i < 60 ==> name != #[trigger] crs_name(i)) && e@
                    == "Unbekanntes CRS: "@ + name,
            },
        },
{
    let cs = get_all_nodes_in_subtree(xml, "AA_Koordinatenreferenzsystemangaben");
    let ghost cv = deref_all(cs@);
    assert(cv == crs_nodes(xml@));
    let mut crs: Option<String> = None;
    let mut i: usize = 0;
    while i < cs.len()
        invariant
            i <= cv.len(),
            cv == deref_all(cs@),
            opt_view(crs) == chosen_crs(cv.take(i as int)),
        decreases cv.len() - i,
    {
        let c = cs[i];
        assert(cv.take(i + 1).drop_last() =~= cv.take(i as int));
        assert(cv.take(i + 1).last() == *c);
        let st = get_all_nodes_in_subtree(c.children.as_slice(), "standard");
        let cr = get_all_nodes_in_subtree(c.children.as_slice(), "crs");
        let is_standard = if st.len() > 0 {
            match &st[0].text {
                Some(t) => str_eq(t.as_str(), "true"),
                None => false,
            }
        } else {
            false
        };
        if is_standard && cr.len() > 0 {
            let href = to_string("href");
            crs = match cr[0].attributes.get(&href) {
                Some(h) => Some(copy_string(h)),
                None => None,
            };
        }
        proof {
            if st@.len() > 0 {
                assert(deref_all(st@)[0] == *st@[0]);
            }
            if cr@.len() > 0 {
                assert(deref_all(cr@)[0] == *cr@[0]);
            }
        }
        i = i + 1;
    }
    assert(cv.take(cv.len() as int) =~= cv);
    let name = match crs {
        Some(s) => replace_str(s.as_str(), "urn:adv:crs:", ""),
        None => {
            return Err(
                to_string(
                    "kein Koordinatenreferenzsystem gefunden (AA_Koordinatenreferenzsystemangaben = standard)",
                ),
            );
        },
    };
    match get_proj_string(name.as_str()) {
        Some(p) => Ok(p),
        None => {
            let mut c = chars_of("Unbekanntes CRS: ");
            push_str(&mut c, name.as_str());
            Err(string_from_chars(c.as_slice()))
        },
    }
}

/// Reads the NAS data: its reference system and its objects. `polygons`
/// gives, for each member node in document order, the number of polygons
/// read from it; each polygon becomes an object of the layer named by the
/// member's first child, where that child has an `id` and its type is on
/// the whitelist.
pub fn parse_nas_xml(xml: &[XmlNode], whitelist: &Vec<String>, polygons: &Vec<usize>) -> (r: Result<
    NasXMLFile,
    String,
>)
    requires
        polygons@.len() == member_nodes(xml@).len(),
    ensures
        match nas_crs_name(xml@) {
            None => r matches Err(e) && e@
                == "kein Koordinatenreferenzsystem gefunden (AA_Koordinatenreferenzsystemangaben = standard)"@,
            Some(name) => match r {
                Ok(f) => (exists|i: nat| i < 60 && name == crs_name(i) && f.crs@ == utm_proj(i)) && forall|k: Seq<char>|
                    match #[trigger] lookup(f.ebenen.kv(), k) {
                        Some(v) => string_views(whitelist@).contains(k) && v@.len() > 0
                            && tagged_attributes(v@) == layer_objects(
                            nas_objects(member_nodes(xml@), polygons@, string_views(whitelist@)),
                            k,
                        ),
                        None => layer_objects(
                            nas_objects(member_nodes(xml@), polygons@, string_views(whitelist@)),
                            k,
                        ).len() == 0,
                    },
                Err(e) => (forall|i: nat| i < 60 ==> name != #[trigger] crs_name(i)) && e@
                    == "Unbekanntes CRS: "@ + name,
            },
        },
{
    let crs = match read_nas_crs(xml) {
        Ok(p) => p,
        Err(e) => {
            return Err(e);
        },
    };
    let ms = get_all_nodes_in_subtree(xml, "member");
    let ghost mv = deref_all(ms@);
    let ghost wl = string_views(whitelist@);
    let ghost counts = polygons@;
    assert(mv == member_nodes(xml@));
    let mut ebenen: SortedMap<String, Vec<TaggedPolygon>> = SortedMap::new();
    let mut i: usize = 0;
    while i < ms.len()
        invariant
            i <= mv.len(),
            mv == deref_all(ms@),
            counts == polygons@,
            counts.len() == mv.len(),
            wl == string_views(whitelist@),
            forall|k: Seq<char>|
                match #[trigger] lookup(ebenen.kv(), k) {
                    Some(v) => wl.contains(k) && v@.len() > 0 && tagged_attributes(v@)
                        == layer_objects(nas_objects(mv.take(i as int), counts.take(i as int), wl), k),
                    None => layer_objects(nas_objects(mv.take(i as int), counts.take(i as int), wl), k).len()
                        == 0,
                },
        decreases mv.len() - i,
    {
        let m = ms[i];
        let ghost pre = nas_objects(mv.take(i as int), counts.take(i as int), wl);
        proof {
            assert(mv.take(i + 1).drop_last() =~= mv.take(i as int));
            assert(counts.take(i + 1).take(i as int) =~= counts.take(i as int));
            assert(mv.take(i + 1).last() == *m);
            assert(nas_objects(mv.take(i + 1), counts.take(i + 1), wl) == pre + member_objects(
                *m,
                counts[i as int],
                wl,
            ));
        }
        let kept = if m.children.len() > 0 {
            let o = &m.children[0];
            let id = to_string("id");
            match o.attributes.get(&id) {
                Some(_) => whitelisted(whitelist, &o.node_type),
                None => false,
            }
        } else {
            false
        };
        if kept {
            let o = &m.children[0];
            let ghost key = o.node_type@;
            let ghost at = member_attributes(*o);
            let n = polygons[i];
            let mut j: usize = 0;
            while j < n
                invariant
                    j <= n,
                    n == counts[i as int],
                    wl.contains(key),
                    key == o.node_type@,
                    at == member_attributes(*o),
                    forall|k: Seq<char>|
                        match #[trigger] lookup(ebenen.kv(), k) {
                            Some(v) => wl.contains(k) && v@.len() > 0 && tagged_attributes(v@)
                                == layer_objects(pre + Seq::new(j as nat, |q: int| (key, at)), k),
                            None => layer_objects(pre + Seq::new(j as nat, |q: int| (key, at)), k).len()
                                == 0,
                        },
                decreases n - j,
            {
                let ghost cur = pre + Seq::new(j as nat, |q: int| (key, at));
                let ghost nxt = pre + Seq::new((j + 1) as nat, |q: int| (key, at));
                assert(nxt =~= cur.push((key, at)));
                let tp = TaggedPolygon { attributes: member_attribute_map(o) };
                let ghost old_kv = ebenen.kv();
                ebenen.push_to(copy_string(&o.node_type), tp);
                proof {
                    let g = |x: (Seq<char>, Map<Seq<char>, Seq<char>>)|
                        if x.0 == key {
                            Some(x.1)
                        } else {
                            None
                        };
                    assert(nxt.drop_last() =~= cur);
                    assert forall|k: Seq<char>|
                        match #[trigger] lookup(ebenen.kv(), k) {
                            Some(v) => wl.contains(k) && v@.len() > 0 && tagged_attributes(v@)
                                == layer_objects(nxt, k),
                            None => layer_objects(nxt, k).len() == 0,
                        } by {
                        assert(nxt.drop_last() =~= cur);
                        assert(nxt.last() == (key, at));
                        if k == key {
                            match lookup(old_kv, k) {
                                Some(v0) => {
                                    assert(tagged_attributes(lookup(ebenen.kv(), k)->0@) =~= tagged_attributes(v0@).push(at));
                                },
                                None => {
                                    assert(tagged_attributes(lookup(ebenen.kv(), k)->0@) =~= seq![at]);
                                    assert(layer_objects(cur, k) =~= Seq::<Map<Seq<char>, Seq<char>>>::empty());
                                },
                            }
                        } else {
                            assert(lookup(ebenen.kv(), k) == lookup(old_kv, k));
                        }
                    }
                }
                j = j + 1;
            }
            proof {
                assert(Seq::new(n as nat, |q: int| (key, at)) =~= member_objects(*m, counts[i as int], wl));
            }
        } else {
            proof {
                assert(!member_kept(*m, wl));
                assert(pre + member_objects(*m, counts[i as int], wl) =~= pre);
            }
        }
        i = i + 1;
    }
    proof {
        assert(mv.take(mv.len() as int) =~= mv);
        assert(counts.take(mv.len() as int) =~= counts);
    }
    Ok(NasXMLFile { ebenen, crs })
}

} // verus!
