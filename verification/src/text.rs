//! Character-level text operations: the model of strings used throughout
//! the library is `Seq<char>`, and every operation here is stated over it.

use vstd::prelude::*;

verus! {

// ---------------------------------------------------------------------------
// Conversions between `str`/`String` and character vectors
// ---------------------------------------------------------------------------

/// The characters of a string slice, in order.
pub fn chars_of(s: &str) -> (res: Vec<char>)
    ensures
        res@ == s@,
{
    let mut res: Vec<char> = Vec::new();
    for c in it: s.chars()
        invariant
            res@ == it.seq().take(it.index() as int),
            it.seq() == s@,
    {
        res.push(c);
    }
    res
}

/// Builds a `String` holding exactly the given characters.
///
/// Calls std's `FromIterator<&char> for String`; its documented behaviour is
/// that the string consists of the iterated characters in order, which is
/// what the contract claims.
#[verifier::external_body]
pub fn string_from_chars(v: &[char]) -> (res: String)
    ensures
        res@ == v@,
{
    v.iter().collect::<String>()
}

/// Copies a string.
pub fn copy_string(s: &String) -> (res: String)
    ensures
        res@ == s@,
{
    s.clone()
}

/// A string from a slice.
pub fn to_string(s: &str) -> (res: String)
    ensures
        res@ == s@,
{
    let v = chars_of(s);
    string_from_chars(v.as_slice())
}

// ---------------------------------------------------------------------------
// Whitespace and trimming
// ---------------------------------------------------------------------------

/// Unicode `White_Space`, the set that `char::is_whitespace` tests.
pub open spec fn is_ws(c: char) -> bool {
    let u = c as u32;
    ||| 0x9 <= u <= 0xd
    ||| u == 0x20
    ||| u == 0x85
    ||| u == 0xa0
    ||| u == 0x1680
    ||| 0x2000 <= u <= 0x200a
    ||| u == 0x2028
    ||| u == 0x2029
    ||| u == 0x202f
    ||| u == 0x205f
    ||| u == 0x3000
}

pub fn char_is_ws(c: char) -> (r: bool)
    ensures
        r == is_ws(c),
{
    let u = c as u32;
    (0x9 <= u && u <= 0xd) || u == 0x20 || u == 0x85 || u == 0xa0 || u == 0x1680 || (0x2000
        <= u && u <= 0x200a) || u == 0x2028 || u == 0x2029 || u == 0x202f || u == 0x205f || u
        == 0x3000
}

/// The text without its leading whitespace.
pub open spec fn trim_start(s: Seq<char>) -> Seq<char>
    decreases s.len(),
{
    if s.len() > 0 && is_ws(s[0]) {
        trim_start(s.drop_first())
    } else {
        s
    }
}

/// The text without its trailing whitespace.
pub open spec fn trim_end(s: Seq<char>) -> Seq<char>
    decreases s.len(),
{
    if s.len() > 0 && is_ws(s.last()) {
        trim_end(s.drop_last())
    } else {
        s
    }
}

/// The text without leading and trailing whitespace (`str::trim`).
pub open spec fn trim(s: Seq<char>) -> Seq<char> {
    trim_end(trim_start(s))
}

/// Copies `s[from..to]` into a new vector.
pub fn sub_chars(s: &Vec<char>, from: usize, to: usize) -> (res: Vec<char>)
    requires
        from <= to <= s@.len(),
    ensures
        res@ == s@.subrange(from as int, to as int),
{
    let mut res: Vec<char> = Vec::new();
    let mut i = from;
    while i < to
        invariant
            from <= i <= to <= s@.len(),
            res@ == s@.subrange(from as int, i as int),
        decreases to - i,
    {
        res.push(s[i]);
        i = i + 1;
        assert(res@ =~= s@.subrange(from as int, i as int));
    }
    res
}

pub fn trim_chars(s: &Vec<char>) -> (res: Vec<char>)
    ensures
        res@ == trim(s@),
{
    let n = s.len();
    let mut i: usize = 0;
    assert(s@.subrange(0, n as int) =~= s@);
    while i < n && char_is_ws(s[i])
        invariant
            i <= n == s@.len(),
            trim_start(s@) == trim_start(s@.subrange(i as int, n as int)),
        decreases n - i,
    {
        assert(s@.subrange(i as int, n as int).drop_first() =~= s@.subrange(i + 1, n as int));
        i = i + 1;
    }
    assert(trim_start(s@.subrange(i as int, n as int)) == s@.subrange(i as int, n as int));
    let mut j: usize = n;
    while j > i && char_is_ws(s[j - 1])
        invariant
            i <= j <= n == s@.len(),
            trim_end(s@.subrange(i as int, n as int)) == trim_end(s@.subrange(i as int, j as int)),
        decreases j,
    {
        assert(s@.subrange(i as int, j as int).drop_last() =~= s@.subrange(i as int, j - 1));
        j = j - 1;
    }
    sub_chars(s, i, j)
}

/// `str::trim`, returning an owned string.
pub fn trim_str(s: &str) -> (res: String)
    ensures
        res@ == trim(s@),
{
    let v = chars_of(s);
    let t = trim_chars(&v);
    string_from_chars(t.as_slice())
}


// ---------------------------------------------------------------------------
// Searching
// ---------------------------------------------------------------------------

/// `p` occurs in `s` starting at index `i`.
pub open spec fn matches_at(s: Seq<char>, p: Seq<char>, i: int) -> bool {
    0 <= i && i + p.len() <= s.len() && s.subrange(i, i + p.len()) == p
}

/// The first index `>= i` at which `p` occurs in `s`.
pub open spec fn find_from(s: Seq<char>, p: Seq<char>, i: int) -> Option<int>
    decreases s.len() + 1 - i,
{
    if i < 0 || i + p.len() > s.len() {
        None
    } else if matches_at(s, p, i) {
        Some(i)
    } else {
        find_from(s, p, i + 1)
    }
}

/// `str::contains` with a string pattern.
pub open spec fn contains(s: Seq<char>, p: Seq<char>) -> bool {
    find_from(s, p, 0) is Some
}

/// `str::starts_with` with a string pattern.
pub open spec fn starts_with(s: Seq<char>, p: Seq<char>) -> bool {
    p.len() <= s.len() && s.subrange(0, p.len() as int) == p
}

pub proof fn lemma_find_from(s: Seq<char>, p: Seq<char>, i: int)
    requires
        0 <= i,
    ensures
        match find_from(s, p, i) {
            Some(k) => i <= k && matches_at(s, p, k) && forall|j: int|
                i <= j < k ==> !#[trigger] matches_at(s, p, j),
            None => forall|j: int| i <= j ==> !#[trigger] matches_at(s, p, j),
        },
    decreases s.len() + 1 - i,
{
    if i + p.len() > s.len() {
    } else if matches_at(s, p, i) {
    } else {
        lemma_find_from(s, p, i + 1);
    }
}

/// Exec search for the first occurrence of `p` in `s` at or after `start`.
pub fn find_chars_from(s: &Vec<char>, p: &Vec<char>, start: usize) -> (res: Option<usize>)
    requires
        start <= s@.len(),
    ensures
        match res {
            Some(k) => find_from(s@, p@, start as int) == Some(k as int),
            None => find_from(s@, p@, start as int) is None,
        },
{
    let n = s.len();
    let m = p.len();
    if m > n {
        return None;
    }
    let mut i = start;
    while i <= n - m
        invariant
            start <= i,
            m == p@.len(),
            n == s@.len(),
            m <= n,
            find_from(s@, p@, start as int) == find_from(s@, p@, i as int),
        decreases n - i,
    {
        let mut j: usize = 0;
        while j < m && s[i + j] == p[j]
            invariant
                j <= m,
                i + m <= n,
                m == p@.len(),
                n == s@.len(),
                forall|k: int| 0 <= k < j ==> s@[i + k] == p@[k],
            decreases m - j,
        {
            j = j + 1;
        }
        if j == m {
            assert(s@.subrange(i as int, i + m) =~= p@);
            return Some(i);
        }
        assert(s@.subrange(i as int, i + m)[j as int] != p@[j as int]);
        i = i + 1;
    }
    None
}


pub proof fn lemma_find_shift(s: Seq<char>, p: Seq<char>, a: int, j: int)
    requires
        0 <= a <= s.len(),
        0 <= j,
    ensures
        find_from(s.subrange(a, s.len() as int), p, j) == match find_from(s, p, a + j) {
            Some(k) => Some(k - a),
            None => None::<int>,
        },
    decreases s.len() + 1 - (a + j),
{
    let t = s.subrange(a, s.len() as int);
    if j + p.len() > t.len() {
    } else {
        assert(t.subrange(j, j + p.len()) =~= s.subrange(a + j, a + j + p.len()));
        if !matches_at(t, p, j) {
            lemma_find_shift(s, p, a, j + 1);
        }
    }
}

// ---------------------------------------------------------------------------
// Splitting, joining, replacing
// ---------------------------------------------------------------------------

/// `str::split` with a non-empty string pattern: the pieces between the
/// non-overlapping occurrences of `p`, found from left to right.
pub open spec fn split_ne(s: Seq<char>, p: Seq<char>) -> Seq<Seq<char>>
    decreases s.len(),
{
    if p.len() == 0 {
        seq![s]
    } else {
        match find_from(s, p, 0) {
            Some(i) => if 0 <= i && i + p.len() <= s.len() {
                seq![s.subrange(0, i)] + split_ne(s.subrange(i + p.len(), s.len() as int), p)
            } else {
                seq![s]
            },
            None => seq![s],
        }
    }
}

/// `str::split` with a string pattern. An empty pattern matches before and
/// after every character.
pub open spec fn split(s: Seq<char>, p: Seq<char>) -> Seq<Seq<char>> {
    if p.len() == 0 {
        seq![Seq::<char>::empty()] + s.map_values(|c: char| seq![c]) + seq![Seq::<char>::empty()]
    } else {
        split_ne(s, p)
    }
}

/// The pieces joined with `sep` between neighbours (`[String]::join`).
pub open spec fn join(parts: Seq<Seq<char>>, sep: Seq<char>) -> Seq<char>
    decreases parts.len(),
{
    if parts.len() == 0 {
        Seq::empty()
    } else if parts.len() == 1 {
        parts[0]
    } else {
        join(parts.drop_last(), sep) + sep + parts.last()
    }
}

/// `str::replace` with a string pattern.
pub open spec fn replace(s: Seq<char>, from: Seq<char>, to: Seq<char>) -> Seq<char> {
    join(split(s, from), to)
}

pub open spec fn views(v: Seq<Vec<char>>) -> Seq<Seq<char>> {
    v.map_values(|x: Vec<char>| x@)
}

pub open spec fn string_views(v: Seq<String>) -> Seq<Seq<char>> {
    v.map_values(|x: String| x@)
}

pub fn split_chars(s: &Vec<char>, p: &Vec<char>) -> (res: Vec<Vec<char>>)
    ensures
        views(res@) == split(s@, p@),
{
    let n = s.len();
    let m = p.len();
    let mut res: Vec<Vec<char>> = Vec::new();
    if m == 0 {
        res.push(Vec::new());
        assert(views(res@) =~= seq![Seq::<char>::empty()]);
        assert(s@.take(0) =~= Seq::<char>::empty());
        let mut i: usize = 0;
        while i < n
            invariant
                i <= n == s@.len(),
                views(res@) == seq![Seq::<char>::empty()] + s@.take(i as int).map_values(
                    |c: char| seq![c],
                ),
            decreases n - i,
        {
            let mut one: Vec<char> = Vec::new();
            one.push(s[i]);
            assert(one@ =~= seq![s@[i as int]]);
            let ghost old_res = res@;
            res.push(one);
            assert(views(res@) =~= views(old_res).push(seq![s@[i as int]]));
            assert(s@.take(i + 1).map_values(|c: char| seq![c]) =~= s@.take(i as int).map_values(
                |c: char| seq![c],
            ).push(seq![s@[i as int]]));
            i = i + 1;
            assert(views(res@) =~= seq![Seq::<char>::empty()] + s@.take(i as int).map_values(
                |c: char| seq![c],
            ));
        }
        let ghost old_res = res@;
        res.push(Vec::new());
        assert(views(res@) =~= views(old_res).push(Seq::<char>::empty()));
        assert(s@.take(n as int) =~= s@);
        assert(views(res@) =~= split(s@, p@));
        return res;
    }
    let mut pos: usize = 0;
    assert(s@.subrange(0, n as int) =~= s@);
    loop
        invariant
            pos <= n == s@.len(),
            m == p@.len(),
            m > 0,
            split_ne(s@, p@) == views(res@) + split_ne(s@.subrange(pos as int, n as int), p@),
        decreases n - pos,
    {
        let ghost t = s@.subrange(pos as int, n as int);
        proof {
            lemma_find_shift(s@, p@, pos as int, 0);
        }
        match find_chars_from(s, p, pos) {
            Some(k) => {
                proof {
                    lemma_find_from(s@, p@, pos as int);
                }
                let piece = sub_chars(s, pos, k);
                assert(t.subrange(0, k - pos) =~= piece@);
                assert(t.subrange(k - pos + m, t.len() as int) =~= s@.subrange(
                    k + m,
                    n as int,
                ));
                let ghost old_res = res@;
                res.push(piece);
                assert(views(res@) =~= views(old_res).push(piece@));
                pos = k + m;
            },
            None => {
                let piece = sub_chars(s, pos, n);
                let ghost old_res = res@;
                res.push(piece);
                assert(views(res@) =~= views(old_res).push(piece@));
                return res;
            },
        }
    }
}


/// Appends all of `w` to `v`.
pub fn push_all(v: &mut Vec<char>, w: &Vec<char>)
    ensures
        final(v)@ == old(v)@ + w@,
{
    let mut i: usize = 0;
    while i < w.len()
        invariant
            i <= w@.len(),
            v@ == old(v)@ + w@.take(i as int),
        decreases w.len() - i,
    {
        v.push(w[i]);
        i = i + 1;
        assert(v@ =~= old(v)@ + w@.take(i as int));
    }
    assert(w@.take(w@.len() as int) =~= w@);
}

/// Appends the characters of a string slice to `v`.
pub fn push_str(v: &mut Vec<char>, s: &str)
    ensures
        final(v)@ == old(v)@ + s@,
{
    let w = chars_of(s);
    push_all(v, &w);
}

pub fn join_chars(parts: &Vec<Vec<char>>, sep: &Vec<char>) -> (res: Vec<char>)
    ensures
        res@ == join(views(parts@), sep@),
{
    let n = parts.len();
    let mut res: Vec<char> = Vec::new();
    if n == 0 {
        return res;
    }
    push_all(&mut res, &parts[0]);
    let mut i: usize = 1;
    assert(views(parts@).take(1) =~= seq![parts@[0]@]);
    while i < n
        invariant
            1 <= i <= n == parts@.len(),
            res@ == join(views(parts@).take(i as int), sep@),
        decreases n - i,
    {
        push_all(&mut res, sep);
        push_all(&mut res, &parts[i]);
        assert(views(parts@).take(i + 1).drop_last() =~= views(parts@).take(i as int));
        i = i + 1;
    }
    assert(views(parts@).take(n as int) =~= views(parts@));
    res
}

pub fn replace_chars(s: &Vec<char>, from: &Vec<char>, to: &Vec<char>) -> (res: Vec<char>)
    ensures
        res@ == replace(s@, from@, to@),
{
    let parts = split_chars(s, from);
    join_chars(&parts, to)
}

/// `str::replace` on string slices.
pub fn replace_str(s: &str, from: &str, to: &str) -> (res: String)
    ensures
        res@ == replace(s@, from@, to@),
{
    let a = chars_of(s);
    let b = chars_of(from);
    let c = chars_of(to);
    let r = replace_chars(&a, &b, &c);
    string_from_chars(r.as_slice())
}

/// Converts character vectors into strings, one for one.
pub fn strings_from(parts: &Vec<Vec<char>>) -> (res: Vec<String>)
    ensures
        string_views(res@) == views(parts@),
{
    let mut res: Vec<String> = Vec::new();
    let mut i: usize = 0;
    while i < parts.len()
        invariant
            i <= parts@.len(),
            string_views(res@) == views(parts@).take(i as int),
        decreases parts.len() - i,
    {
        let st = string_from_chars(parts[i].as_slice());
        let ghost old_res = res@;
        res.push(st);
        assert(string_views(res@) =~= string_views(old_res).push(parts@[i as int]@));
        assert(views(parts@).take(i + 1) =~= views(parts@).take(i as int).push(parts@[i as int]@));
        i = i + 1;
        assert(string_views(res@) =~= views(parts@).take(i as int));
    }
    assert(views(parts@).take(parts@.len() as int) =~= views(parts@));
    res
}

/// `str::split(..).map(String::from).collect()`.
pub fn split_str(s: &str, p: &str) -> (res: Vec<String>)
    ensures
        string_views(res@) == split(s@, p@),
{
    let a = chars_of(s);
    let b = chars_of(p);
    let parts = split_chars(&a, &b);
    strings_from(&parts)
}

/// `[String]::join`.
pub fn join_strings(parts: &Vec<String>, sep: &str) -> (res: String)
    ensures
        res@ == join(string_views(parts@), sep@),
{
    let n = parts.len();
    let mut res: Vec<char> = Vec::new();
    if n == 0 {
        return string_from_chars(res.as_slice());
    }
    push_str(&mut res, parts[0].as_str());
    let mut i: usize = 1;
    assert(string_views(parts@).take(1) =~= seq![parts@[0]@]);
    while i < n
        invariant
            1 <= i <= n == parts@.len(),
            res@ == join(string_views(parts@).take(i as int), sep@),
        decreases n - i,
    {
        push_str(&mut res, sep);
        push_str(&mut res, parts[i].as_str());
        assert(string_views(parts@).take(i + 1).drop_last() =~= string_views(parts@).take(
            i as int,
        ));
        i = i + 1;
    }
    assert(string_views(parts@).take(n as int) =~= string_views(parts@));
    string_from_chars(res.as_slice())
}

// ---------------------------------------------------------------------------
// Lines
// ---------------------------------------------------------------------------

/// A line that was followed by `\n` loses a trailing `\r`.
pub open spec fn strip_cr(l: Seq<char>) -> Seq<char> {
    if l.len() > 0 && l.last() == '\r' {
        l.drop_last()
    } else {
        l
    }
}

/// `str::lines`: split at `\n`, a `\r` before the `\n` removed, and no
/// empty last line after a final line ending.
pub open spec fn lines(s: Seq<char>) -> Seq<Seq<char>> {
    let parts = split_ne(s, seq!['\n']);
    let n = parts.len();
    let init = parts.take(n - 1).map_values(|l: Seq<char>| strip_cr(l));
    if parts[n - 1].len() == 0 {
        init
    } else {
        init.push(parts[n - 1])
    }
}

pub proof fn lemma_split_ne_nonempty(s: Seq<char>, p: Seq<char>)
    ensures
        split_ne(s, p).len() >= 1,
    decreases s.len(),
{
    if p.len() > 0 {
        match find_from(s, p, 0) {
            Some(i) => if 0 <= i && i + p.len() <= s.len() {
                lemma_split_ne_nonempty(s.subrange(i + p.len(), s.len() as int), p);
            },
            None => {},
        }
    }
}

pub fn lines_chars(s: &Vec<char>) -> (res: Vec<Vec<char>>)
    ensures
        views(res@) == lines(s@),
{
    let mut nl: Vec<char> = Vec::new();
    nl.push('\n');
    assert(nl@ =~= seq!['\n']);
    let parts = split_chars(s, &nl);
    proof {
        lemma_split_ne_nonempty(s@, nl@);
    }
    let n = parts.len();
    let mut res: Vec<Vec<char>> = Vec::new();
    let mut i: usize = 0;
    while i + 1 < n
        invariant
            n == parts@.len(),
            n >= 1,
            i < n,
            views(parts@) == split_ne(s@, seq!['\n']),
            views(res@) == views(parts@).take(i as int).map_values(|l: Seq<char>| strip_cr(l)),
        decreases n - i,
    {
        let l = &parts[i];
        let ln = l.len();
        let piece = if ln > 0 && l[ln - 1] == '\r' {
            sub_chars(l, 0, ln - 1)
        } else {
            sub_chars(l, 0, ln)
        };
        proof {
            assert(l@.subrange(0, ln as int) =~= l@);
            assert(l@.subrange(0, ln - 1) =~= l@.drop_last());
        }
        let ghost old_res = res@;
        res.push(piece);
        assert(views(res@) =~= views(old_res).push(piece@));
        assert(views(parts@).take(i + 1) =~= views(parts@).take(i as int).push(parts@[i as int]@));
        i = i + 1;
        assert(views(res@) =~= views(parts@).take(i as int).map_values(|l: Seq<char>| strip_cr(l)));
    }
    let last = &parts[n - 1];
    if last.len() > 0 {
        let piece = sub_chars(last, 0, last.len());
        assert(last@.subrange(0, last@.len() as int) =~= last@);
        let ghost old_res = res@;
        res.push(piece);
        assert(views(res@) =~= views(old_res).push(piece@));
    }
    res
}


// ---------------------------------------------------------------------------
// Decimal numbers
// ---------------------------------------------------------------------------

/// The ASCII digit for `d < 10`.
pub open spec fn digit(d: nat) -> char {
    ((d + 48) as u8) as char
}

/// The decimal notation of `n`, without leading zeros (`usize::to_string`).
pub open spec fn dec(n: nat) -> Seq<char>
    decreases n,
{
    if n < 10 {
        seq![digit(n)]
    } else {
        dec(n / 10).push(digit(n % 10))
    }
}

/// Left-padding with `'0'` up to width `w` (`format!("{:0w$}")`).
pub open spec fn zero_pad(s: Seq<char>, w: nat) -> Seq<char> {
    if s.len() >= w {
        s
    } else {
        Seq::new((w - s.len()) as nat, |i: int| '0') + s
    }
}

pub open spec fn is_digit(c: char) -> bool {
    48 <= (c as u32) <= 57
}

pub open spec fn digit_value(c: char) -> nat {
    ((c as u32) - 48) as nat
}

/// The value of a string of decimal digits.
pub open spec fn digits_value(s: Seq<char>) -> nat
    decreases s.len(),
{
    if s.len() == 0 {
        0
    } else {
        digits_value(s.drop_last()) * 10 + digit_value(s.last())
    }
}

pub open spec fn all_digits(s: Seq<char>) -> bool {
    forall|i: int| 0 <= i < s.len() ==> is_digit(#[trigger] s[i])
}

/// `str::parse::<usize>`: an optional `+`, then one or more ASCII digits
/// whose value fits in `usize`.
pub open spec fn parse_usize(s: Seq<char>) -> Option<usize> {
    let d = if s.len() > 0 && s[0] == '+' {
        s.drop_first()
    } else {
        s
    };
    if d.len() > 0 && all_digits(d) && digits_value(d) <= usize::MAX {
        Some(digits_value(d) as usize)
    } else {
        None
    }
}

pub fn usize_to_chars(n: usize) -> (res: Vec<char>)
    ensures
        res@ == dec(n as nat),
    decreases n,
{
    if n < 10 {
        let mut v: Vec<char> = Vec::new();
        v.push(((n as u8) + 48u8) as char);
        assert(v@ =~= dec(n as nat));
        v
    } else {
        let mut v = usize_to_chars(n / 10);
        v.push((((n % 10) as u8) + 48u8) as char);
        v
    }
}

/// `u64::to_string`, as characters.
pub fn u64_to_chars(n: u64) -> (res: Vec<char>)
    ensures
        res@ == dec(n as nat),
    decreases n,
{
    if n < 10 {
        let mut v: Vec<char> = Vec::new();
        v.push(((n as u8) + 48u8) as char);
        assert(v@ =~= dec(n as nat));
        v
    } else {
        let mut v = u64_to_chars(n / 10);
        v.push((((n % 10) as u8) + 48u8) as char);
        v
    }
}

/// `usize::to_string`.
pub fn usize_to_string(n: usize) -> (res: String)
    ensures
        res@ == dec(n as nat),
{
    let v = usize_to_chars(n);
    string_from_chars(v.as_slice())
}

/// `format!("{n:0w$}")`.
pub fn usize_to_chars_padded(n: usize, w: usize) -> (res: Vec<char>)
    ensures
        res@ == zero_pad(dec(n as nat), w as nat),
{
    let d = usize_to_chars(n);
    if d.len() >= w {
        return d;
    }
    let mut res: Vec<char> = Vec::new();
    let k = w - d.len();
    let mut i: usize = 0;
    while i < k
        invariant
            i <= k,
            res@ == Seq::new(i as nat, |j: int| '0'),
        decreases k - i,
    {
        res.push('0');
        i = i + 1;
        assert(res@ =~= Seq::new(i as nat, |j: int| '0'));
    }
    push_all(&mut res, &d);
    res
}

pub proof fn lemma_digits_value_prefix(s: Seq<char>, i: int)
    requires
        0 <= i <= s.len(),
    ensures
        digits_value(s.take(i)) <= digits_value(s),
    decreases s.len() - i,
{
    if i < s.len() {
        lemma_digits_value_prefix(s, i + 1);
        assert(s.take(i + 1).drop_last() =~= s.take(i));
    } else {
        assert(s.take(i) =~= s);
    }
}

pub fn parse_usize_chars(s: &Vec<char>) -> (res: Option<usize>)
    ensures
        res == parse_usize(s@),
{
    let n = s.len();
    let start: usize = if n > 0 && s[0] == '+' {
        1
    } else {
        0
    };
    let ghost d = if s@.len() > 0 && s@[0] == '+' {
        s@.drop_first()
    } else {
        s@
    };
    assert(d =~= s@.subrange(start as int, n as int));
    if start >= n {
        return None;
    }
    let mut acc: usize = 0;
    let mut i: usize = start;
    while i < n
        invariant
            start <= i <= n == s@.len(),
            start < n,
            d == s@.subrange(start as int, n as int),
            d == (if s@.len() > 0 && s@[0] == '+' {
                s@.drop_first()
            } else {
                s@
            }),
            all_digits(d.take(i - start)),
            acc as nat == digits_value(d.take(i - start)),
        decreases n - i,
    {
        let c = s[i];
        let u = c as u32;
        if u < 48 || u > 57 {
            assert(d[i - start] == c);
            return None;
        }
        let dv = (u - 48) as usize;
        assert(d.take(i + 1 - start).drop_last() =~= d.take(i - start));
        assert(d.take(i + 1 - start).last() == c);
        assert(digits_value(d.take(i + 1 - start)) == acc * 10 + dv);
        proof {
            lemma_digits_value_prefix(d, i + 1 - start);
        }
        match acc.checked_mul(10) {
            Some(a10) => match a10.checked_add(dv) {
                Some(a) => {
                    acc = a;
                },
                None => {
                    return None;
                },
            },
            None => {
                assert(digits_value(d.take(i + 1 - start)) >= acc * 10);
                return None;
            },
        }
        i = i + 1;
        assert forall|j: int| 0 <= j < d.take(i - start).len() implies is_digit(
            #[trigger] d.take(i - start)[j],
        ) by {
            if j < i - 1 - start {
                assert(d.take(i - start)[j] == d.take(i - 1 - start)[j]);
            }
        }
    }
    assert(d.take(n - start) =~= d);
    Some(acc)
}

/// `str::parse::<usize>().ok()`.
pub fn parse_usize_str(s: &str) -> (res: Option<usize>)
    ensures
        res == parse_usize(s@),
{
    let v = chars_of(s);
    parse_usize_chars(&v)
}


pub fn starts_with_chars(s: &Vec<char>, p: &Vec<char>) -> (r: bool)
    ensures
        r == starts_with(s@, p@),
{
    if p.len() > s.len() {
        return false;
    }
    let mut i: usize = 0;
    while i < p.len()
        invariant
            i <= p@.len() <= s@.len(),
            forall|j: int| 0 <= j < i ==> s@[j] == p@[j],
        decreases p.len() - i,
    {
        if s[i] != p[i] {
            assert(s@.subrange(0, p@.len() as int)[i as int] != p@[i as int]);
            return false;
        }
        i = i + 1;
    }
    assert(s@.subrange(0, p@.len() as int) =~= p@);
    true
}

pub fn contains_chars(s: &Vec<char>, p: &Vec<char>) -> (r: bool)
    ensures
        r == contains(s@, p@),
{
    if p.len() > s.len() {
        proof {
            lemma_find_from(s@, p@, 0);
        }
        return false;
    }
    match find_chars_from(s, p, 0) {
        Some(_) => true,
        None => false,
    }
}

} // verus!
