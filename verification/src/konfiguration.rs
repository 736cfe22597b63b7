//! The order of the drawing layers in the settings: adding, deleting and
//! moving a layer.

use vstd::prelude::*;
use crate::collation::str_eq;
use crate::text::string_views;

verus! {

/// The position of the first occurrence of `id`.
pub open spec fn first_index(s: Seq<Seq<char>>, id: Seq<char>) -> Option<int> {
    if exists|i: int| 0 <= i < s.len() && s[i] == id {
        let i = choose|i: int|
            0 <= i < s.len() && s[i] == id && forall|j: int| 0 <= j < i ==> s[j] != id;
        Some(i)
    } else {
        None
    }
}

/// `s` with the entries at `i` and `j` exchanged.
pub open spec fn swapped(s: Seq<Seq<char>>, i: int, j: int) -> Seq<Seq<char>> {
    s.update(i, s[j]).update(j, s[i])
}

/// What a move does to the order: `delete` drops every entry `id`;
/// `move-up` and `move-down` exchange the first entry `id` with the one
/// before or after it, where there is one; anything else changes nothing.
pub open spec fn spec_move_layer(s: Seq<Seq<char>>, id: Seq<char>, move_type: Seq<char>) -> Seq<Seq<char>> {
    if move_type == "delete"@ {
        s.filter(|x: Seq<char>| x != id)
    } else if move_type == "move-up"@ {
        match first_index(s, id) {
            Some(p) => if p > 0 {
                swapped(s, p - 1, p)
            } else {
                s
            },
            None => s,
        }
    } else if move_type == "move-down"@ {
        match first_index(s, id) {
            Some(p) => if p + 1 < s.len() {
                swapped(s, p, p + 1)
            } else {
                s
            },
            None => s,
        }
    } else {
        s
    }
}

proof fn lemma_first_index(s: Seq<Seq<char>>, id: Seq<char>, p: int)
    requires
        0 <= p < s.len(),
        s[p] == id,
        forall|j: int| 0 <= j < p ==> s[j] != id,
    ensures
        first_index(s, id) == Some(p),
{
    let i = choose|i: int|
        0 <= i < s.len() && s[i] == id && forall|j: int| 0 <= j < i ==> s[j] != id;
    assert(i == p) by {
        if i < p {
            assert(s[i] != id);
        }
        if p < i {
            assert(s[p] != id);
        }
    }
}

fn position_of(ordnung: &Vec<String>, id: &str) -> (r: Option<usize>)
    ensures
        match r {
            Some(p) => first_index(string_views(ordnung@), id@) == Some(p as int) && p
                < ordnung@.len(),
            None => first_index(string_views(ordnung@), id@) is None,
        },
{
    let ghost s = string_views(ordnung@);
    let mut i: usize = 0;
    while i < ordnung.len()
        invariant
            i <= ordnung@.len(),
            s == string_views(ordnung@),
            forall|j: int| 0 <= j < i ==> s[j] != id@,
        decreases ordnung.len() - i,
    {
        assert(s[i as int] == ordnung@[i as int]@);
        if str_eq(ordnung[i].as_str(), id) {
            proof {
                lemma_first_index(s, id@, i as int);
            }
            return Some(i);
        }
        i = i + 1;
    }
    assert forall|j: int| 0 <= j < s.len() implies s[j] != id@ by {}
    None
}

fn delete_all(ordnung: &Vec<String>, id: &str) -> (r: Vec<String>)
    ensures
        string_views(r@) == string_views(ordnung@).filter(|x: Seq<char>| x != id@),
{
    let ghost s = string_views(ordnung@);
    let ghost f = |x: Seq<char>| x != id@;
    let mut r: Vec<String> = Vec::new();
    let mut i: usize = 0;
    while i < ordnung.len()
        invariant
            i <= ordnung@.len(),
            s == string_views(ordnung@),
            f == (|x: Seq<char>| x != id@),
            string_views(r@) == s.take(i as int).filter(f),
        decreases ordnung.len() - i,
    {
        proof {
            reveal(Seq::filter);
            assert(s.take(i + 1).drop_last() =~= s.take(i as int));
            assert(s.take(i + 1).last() == ordnung@[i as int]@);
        }
        if !str_eq(ordnung[i].as_str(), id) {
            let ghost before = r@;
            r.push(ordnung[i].clone());
            assert(string_views(r@) =~= string_views(before).push(ordnung@[i as int]@));
        }
        i = i + 1;
    }
    assert(s.take(s.len() as int) =~= s);
    proof {
        assert(s.take(0) =~= Seq::<Seq<char>>::empty());
    }
    r
}

/// Applies a move (`delete`, `move-up`, `move-down`) of the layer `ebene_id`
/// to the order of layers; answers whether the layer was deleted (and its
/// style is to go too).
pub fn move_layer(ordnung: &mut Vec<String>, ebene_id: &str, move_type: &str) -> (deleted: bool)
    ensures
        deleted == (move_type@ == "delete"@),
        string_views(final(ordnung)@) == spec_move_layer(string_views(old(ordnung)@), ebene_id@, move_type@),
{
    let ghost s = string_views(ordnung@);
    if str_eq(move_type, "delete") {
        let r = delete_all(ordnung, ebene_id);
        *ordnung = r;
        return true;
    }
    if str_eq(move_type, "move-up") {
        match position_of(ordnung, ebene_id) {
            Some(p) => {
                if p > 0 {
                    let a = ordnung[p - 1].clone();
                    let b = ordnung[p].clone();
                    ordnung.set(p - 1, b);
                    ordnung.set(p, a);
                    assert(string_views(ordnung@) =~= swapped(s, p - 1, p as int));
                }
            },
            None => {},
        }
        return false;
    }
    if str_eq(move_type, "move-down") {
        match position_of(ordnung, ebene_id) {
            Some(p) => {
                if p < ordnung.len() - 1 {
                    let a = ordnung[p].clone();
                    let b = ordnung[p + 1].clone();
                    ordnung.set(p, b);
                    ordnung.set(p + 1, a);
                    assert(string_views(ordnung@) =~= swapped(s, p as int, p + 1));
                }
            },
            None => {},
        }
        return false;
    }
    false
}

/// Puts a new layer at the front of the order.
pub fn insert_layer_front(ordnung: &mut Vec<String>, ebene_id: String)
    ensures
        string_views(final(ordnung)@) == seq![ebene_id@] + string_views(old(ordnung)@),
{
    let ghost s = string_views(ordnung@);
    ordnung.insert(0, ebene_id);
    assert(string_views(ordnung@) =~= seq![ebene_id@] + s);
}

} // verus!
