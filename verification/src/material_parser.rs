//! Reading the layers out of a material text such as `BOPP 20 + Metall BOPP 30`.
use vstd::prelude::*;

use crate::text::{
    append_all, append_str, chars_of, contains, contains_str, copy_range, eq_str, is_ascii_digit,
    is_digit, is_whitespace, is_ws, keep, keep_chars, lower, lower_seq, split_char, split_on,
    starts_with, starts_with_str, string_of, trim, trim_chars, views, CharClass,
};

verus! {

// ---------------------------------------------------------------------------
// Words
// ---------------------------------------------------------------------------

/// The words of `s` (`str::split_whitespace`), in order.
pub open spec fn words_from(s: Seq<char>) -> Seq<Seq<char>>
    decreases s.len(),
{
    if s.len() == 0 {
        Seq::empty()
    } else {
        let p = words_from(s.drop_last());
        if is_ws(s.last()) {
            p
        } else if s.len() >= 2 && !is_ws(s[s.len() - 2]) {
            p.update(p.len() - 1, p.last().push(s.last()))
        } else {
            p.push(seq![s.last()])
        }
    }
}

pub open spec fn join_spaced(parts: Seq<Seq<char>>) -> Seq<char>
    decreases parts.len(),
{
    if parts.len() == 0 {
        Seq::empty()
    } else if parts.len() == 1 {
        parts[0]
    } else {
        join_spaced(parts.drop_last()) + " "@ + parts.last()
    }
}

proof fn lemma_words_nonempty_when_last_word(s: Seq<char>)
    requires
        s.len() > 0,
        !is_ws(s.last()),
    ensures
        words_from(s).len() > 0,
    decreases s.len(),
{
    if s.len() >= 2 && !is_ws(s[s.len() - 2]) {
        lemma_words_nonempty_when_last_word(s.drop_last());
    }
}

/// The words of `s` joined by single spaces.
pub fn compact_words(v: &Vec<char>) -> (r: Vec<char>)
    ensures
        r@ == join_spaced(words_from(v@)),
{
    let mut words: Vec<Vec<char>> = Vec::new();
    let mut i: usize = 0;
    while i < v.len()
        invariant
            i <= v.len(),
            views(words@) == words_from(v@.take(i as int)),
        decreases v.len() - i,
    {
        let ghost pre = v@.take(i as int);
        let ghost cur = v@.take(i + 1);
        assert(cur.drop_last() =~= pre);
        let c = v[i];
        if !is_whitespace(c) {
            if i > 0 && !is_whitespace(v[i - 1]) {
                assert(cur[cur.len() - 2] == v@[i - 1]);
                assert(pre.last() == v@[i - 1]);
                assert(words_from(pre).len() > 0) by {
                    lemma_words_nonempty_when_last_word(pre);
                }
                let last = words.len() - 1;
                let ghost before = views(words@);
                let mut w = words[last].clone();
                w.push(c);
                words.set(last, w);
                assert(views(words@) =~= before.update(before.len() - 1, before.last().push(c)));
            } else {
                let ghost before = views(words@);
                let mut w: Vec<char> = Vec::new();
                w.push(c);
                words.push(w);
                assert(views(words@) =~= before.push(seq![c]));
                if i > 0 {
                    assert(cur[cur.len() - 2] == v@[i - 1]);
                }
            }
        }
        i = i + 1;
    }
    assert(v@.take(v.len() as int) =~= v@);
    let ghost ws = views(words@);
    let mut r: Vec<char> = Vec::new();
    let mut k: usize = 0;
    while k < words.len()
        invariant
            k <= words.len(),
            ws == views(words@),
            r@ == join_spaced(ws.take(k as int)),
        decreases words.len() - k,
    {
        assert(ws.take(k + 1).drop_last() =~= ws.take(k as int));
        if k > 0 {
            append_str(&mut r, " ");
        } else {
            assert(ws.take(1) =~= seq![ws[0]]);
        }
        append_all(&mut r, &words[k]);
        k = k + 1;
    }
    assert(ws.take(words.len() as int) =~= ws);
    r
}

// ---------------------------------------------------------------------------
// Material names
// ---------------------------------------------------------------------------

/// The usual spelling of a material name: lower case, single spaces, and the
/// BOPP names of the plant (`Metall BOPP` is `oppm`, `BOPP` is `opp`).
pub open spec fn material_name(value: Seq<char>) -> Seq<char> {
    let c = join_spaced(words_from(lower_seq(trim(value))));
    if contains(c, "metall"@) && contains(c, "bopp"@) {
        "oppm"@
    } else if c == "bopp"@ {
        "opp"@
    } else if starts_with(c, "bopp "@) {
        "opp"@ + c.skip(4)
    } else {
        c
    }
}

pub fn normalize_material_name(value: &Vec<char>) -> (r: Vec<char>)
    ensures
        r@ == material_name(value@),
{
    let t = trim_chars(value);
    let l = lower(&t);
    let c = compact_words(&l);
    if contains_str(&c, "metall") && contains_str(&c, "bopp") {
        return chars_of("oppm");
    }
    if eq_str(&c, "bopp") {
        return chars_of("opp");
    }
    if starts_with_str(&c, "bopp ") {
        proof {
            reveal_strlit("bopp ");
        }
        let mut r = chars_of("opp");
        let rest = copy_range(&c, 4, c.len());
        append_all(&mut r, &rest);
        return r;
    }
    c
}

// ---------------------------------------------------------------------------
// Layers
// ---------------------------------------------------------------------------

/// The position of the last digit of `s`.
pub open spec fn last_digit(s: Seq<char>) -> Option<int>
    decreases s.len(),
{
    if s.len() == 0 {
        None
    } else if is_digit(s.last()) {
        Some(s.len() - 1)
    } else {
        last_digit(s.drop_last())
    }
}

pub open spec fn micron_char(c: char) -> bool {
    is_digit(c) || c == '/' || c == ',' || c == '.'
}

/// Where the run of digits, slashes, commas and points that ends at `j` begins.
pub open spec fn run_start(s: Seq<char>, j: int) -> int
    decreases j,
{
    if j > 0 && micron_char(s[j - 1]) {
        run_start(s, j - 1)
    } else {
        j
    }
}

/// A layer text such as `pet 12` or `oppm/pe pr 20/30`: the material before
/// the last run of numbers, and the digits and slashes of that run.
pub open spec fn parse_layer_spec(value: Seq<char>) -> Option<(Seq<char>, Seq<char>)> {
    let t = trim(value);
    match last_digit(t) {
        None => None,
        Some(m) => {
            let st = run_start(t, m);
            let material = trim(t.take(st));
            let micron = keep(t.skip(st), CharClass::DigitSlash);
            if material.len() == 0 || micron.len() == 0 {
                None
            } else {
                Some((material_name(material), micron))
            }
        },
    }
}

proof fn lemma_last_digit_bounds(s: Seq<char>)
    ensures
        last_digit(s) matches Some(m) ==> 0 <= m < s.len() && is_digit(s[m]) && forall|k: int|
            m < k < s.len() ==> !is_digit(s[k]),
        last_digit(s) is None ==> forall|k: int| 0 <= k < s.len() ==> !is_digit(s[k]),
    decreases s.len(),
{
    if s.len() > 0 {
        lemma_last_digit_bounds(s.drop_last());
        if !is_digit(s.last()) {
            assert forall|k: int| 0 <= k < s.len() - 1 implies s.drop_last()[k] == s[k] by {}
        }
    }
}


pub fn parse_material_layer(value: &Vec<char>) -> (r: Option<(String, String)>)
    ensures
        match r {
            Some((a, b)) => parse_layer_spec(value@) == Some((a@, b@)),
            None => parse_layer_spec(value@) is None,
        },
{
    let t = trim_chars(value);
    proof {
        lemma_last_digit_bounds(t@);
    }
    // The last digit.
    let mut m = t.len();
    assert(t@.take(m as int) =~= t@);
    while m > 0 && !is_ascii_digit(t[m - 1])
        invariant
            m <= t.len(),
            last_digit(t@) == last_digit(t@.take(m as int)),
        decreases m,
    {
        assert(t@.take(m as int).drop_last() =~= t@.take(m - 1));
        m = m - 1;
    }
    if m == 0 {
        assert(t@.take(0).len() == 0);
        return None;
    }
    let micron_start = m - 1;
    assert(t@.take(m as int).last() == t@[micron_start as int]);
    assert(last_digit(t@) == Some(micron_start as int));
    let mut start = micron_start;
    while start > 0 && (is_ascii_digit(t[start - 1]) || t[start - 1] == '/' || t[start - 1] == ','
        || t[start - 1] == '.')
        invariant
            start <= micron_start < t.len(),
            run_start(t@, micron_start as int) == run_start(t@, start as int),
        decreases start,
    {
        start = start - 1;
    }
    let head = copy_range(&t, 0, start);
    assert(head@ == t@.take(start as int));
    let material = trim_chars(&head);
    let tail = copy_range(&t, start, t.len());
    assert(tail@ == t@.skip(start as int));
    let micron = keep_chars(&tail, CharClass::DigitSlash);
    if material.len() == 0 || micron.len() == 0 {
        return None;
    }
    let name = normalize_material_name(&material);
    Some((string_of(&name), string_of(&micron)))
}

pub open spec fn pair_views(v: Seq<(String, String)>) -> Seq<(Seq<char>, Seq<char>)> {
    v.map_values(|p: (String, String)| (p.0@, p.1@))
}

/// The layers that the `+`-separated pieces describe, skipping those that are
/// not layers.
pub open spec fn layers_of(pieces: Seq<Seq<char>>) -> Seq<(Seq<char>, Seq<char>)>
    decreases pieces.len(),
{
    if pieces.len() == 0 {
        Seq::empty()
    } else {
        let p = layers_of(pieces.drop_last());
        match parse_layer_spec(pieces.last()) {
            Some(l) => p.push(l),
            None => p,
        }
    }
}

/// The first three layers of a material text.
pub open spec fn material_layers_spec(value: Seq<char>) -> Seq<(Seq<char>, Seq<char>)> {
    let all = layers_of(split_char(value, '+'));
    if all.len() > 3 {
        all.take(3)
    } else {
        all
    }
}

/// Reads up to three layers, each as (material, micron), from a text such as
/// `pet 20 + Metall BOPP 30`.
pub fn parse_material_layers(value: &str) -> (r: Vec<(String, String)>)
    ensures
        pair_views(r@) == material_layers_spec(value@),
{
    let v = chars_of(value);
    let pieces = split_on(&v, '+');
    let ghost ps = views(pieces@);
    let mut all: Vec<(String, String)> = Vec::new();
    let mut i: usize = 0;
    while i < pieces.len()
        invariant
            i <= pieces.len(),
            ps == views(pieces@),
            pair_views(all@) == layers_of(ps.take(i as int)),
        decreases pieces.len() - i,
    {
        assert(ps.take(i + 1).drop_last() =~= ps.take(i as int));
        if let Some(layer) = parse_material_layer(&pieces[i]) {
            let ghost before = pair_views(all@);
            all.push(layer);
            assert(pair_views(all@) =~= before.push((layer.0@, layer.1@)));
        }
        i = i + 1;
    }
    assert(ps.take(pieces.len() as int) =~= ps);
    if all.len() > 3 {
        let mut r: Vec<(String, String)> = Vec::new();
        let mut k: usize = 0;
        while k < 3
            invariant
                k <= 3 < all.len(),
                pair_views(r@) == pair_views(all@).take(k as int),
            decreases 3 - k,
        {
            let (a, b) = &all[k];
            let ghost before = pair_views(r@);
            let a2 = a.clone();
            let b2 = b.clone();
            assert(pair_views(all@)[k as int] == (a2@, b2@));
            r.push((a2, b2));
            assert(pair_views(r@) =~= before.push((a2@, b2@)));
            assert(pair_views(r@) =~= pair_views(all@).take(k + 1));
            k = k + 1;
        }
        r
    } else {
        all
    }
}

proof fn lemma_layers_of_len(pieces: Seq<Seq<char>>)
    ensures
        layers_of(pieces).len() <= pieces.len(),
    decreases pieces.len(),
{
    if pieces.len() > 0 {
        lemma_layers_of_len(pieces.drop_last());
    }
}

/// A material text gives at most three layers, and never more layers than
/// it has pieces between `+` signs.
pub proof fn lemma_at_most_three_layers(value: Seq<char>)
    ensures
        material_layers_spec(value).len() <= 3,
        material_layers_spec(value).len() <= split_char(value, '+').len(),
{
    lemma_layers_of_len(split_char(value, '+'));
}


proof fn lemma_layers_of_all(pieces: Seq<Seq<char>>)
    requires
        forall|i: int| 0 <= i < pieces.len() ==> parse_layer_spec(#[trigger] pieces[i]) is Some,
    ensures
        layers_of(pieces).len() == pieces.len(),
        forall|i: int|
            0 <= i < pieces.len() ==> #[trigger] layers_of(pieces)[i] == parse_layer_spec(
                pieces[i],
            )->Some_0,
    decreases pieces.len(),
{
    if pieces.len() > 0 {
        let p = pieces.drop_last();
        assert forall|i: int| 0 <= i < p.len() implies parse_layer_spec(#[trigger] p[i]) is Some by {
            assert(p[i] == pieces[i]);
        }
        lemma_layers_of_all(p);
        assert(parse_layer_spec(pieces[pieces.len() - 1]) is Some);
        assert forall|i: int| 0 <= i < pieces.len() implies #[trigger] layers_of(pieces)[i]
            == parse_layer_spec(pieces[i])->Some_0 by {
            if i < pieces.len() - 1 {
                assert(p[i] == pieces[i]);
            }
        }
    }
}

/// A material text whose `+`-separated pieces are all layers gives one layer
/// for each of its first three pieces, in order: the piece's material and
/// micron.
pub proof fn lemma_each_piece_a_layer(value: Seq<char>)
    requires
        forall|i: int|
            0 <= i < split_char(value, '+').len() ==> parse_layer_spec(
                #[trigger] split_char(value, '+')[i],
            ) is Some,
    ensures
        material_layers_spec(value).len() == if split_char(value, '+').len() > 3 {
            3
        } else {
            split_char(value, '+').len()
        },
        forall|i: int|
            0 <= i < material_layers_spec(value).len() ==> #[trigger] material_layers_spec(value)[i]
                == parse_layer_spec(split_char(value, '+')[i])->Some_0,
{
    let pieces = split_char(value, '+');
    lemma_layers_of_all(pieces);
}

} // verus!
