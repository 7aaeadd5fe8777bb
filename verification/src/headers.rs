//! Finding the needed columns of a table by their header text, as the bot does.
use vstd::prelude::*;

use crate::text::{
    append_str, ends_with, ends_with_str, eq_str, keep, keep_chars, lower_chars, lower_seq, trim,
    trim_chars, CharClass,
};

verus! {

#[derive(Debug, Clone, Copy, PartialEq, Eq, Structural)]
pub enum HeaderKind {
    Kg,
    Width,
    FirstMaterial,
    FirstMicron,
    SecondMaterial,
    SecondMicron,
}

/// The columns of the six values a row needs.
#[derive(Debug, Clone, Copy, PartialEq, Eq, Structural)]
pub struct ColumnIndexes {
    pub kg: usize,
    pub width: usize,
    pub first_material: usize,
    pub first_micron: usize,
    pub second_material: usize,
    pub second_micron: usize,
}

// ---------------------------------------------------------------------------
// Cyrillic to Latin
// ---------------------------------------------------------------------------

/// The Latin spelling of one letter of a Cyrillic header; any other
/// character stays as it is.
pub open spec fn translit(c: char) -> Seq<char> {
    if c == 'А' || c == 'а' {
        "a"@
    } else if c == 'Б' || c == 'б' {
        "b"@
    } else if c == 'В' || c == 'в' {
        "v"@
    } else if c == 'Г' || c == 'г' {
        "g"@
    } else if c == 'Д' || c == 'д' {
        "d"@
    } else if c == 'Е' || c == 'е' || c == 'Ё' || c == 'ё' || c == 'Э' || c == 'э' {
        "e"@
    } else if c == 'Ж' || c == 'ж' {
        "j"@
    } else if c == 'З' || c == 'з' {
        "z"@
    } else if c == 'И' || c == 'и' || c == 'Й' || c == 'й' {
        "i"@
    } else if c == 'К' || c == 'к' {
        "k"@
    } else if c == 'Л' || c == 'л' {
        "l"@
    } else if c == 'М' || c == 'м' {
        "m"@
    } else if c == 'Н' || c == 'н' {
        "n"@
    } else if c == 'О' || c == 'о' {
        "o"@
    } else if c == 'П' || c == 'п' {
        "p"@
    } else if c == 'Р' || c == 'р' {
        "r"@
    } else if c == 'С' || c == 'с' {
        "s"@
    } else if c == 'Т' || c == 'т' {
        "t"@
    } else if c == 'У' || c == 'у' {
        "u"@
    } else if c == 'Ф' || c == 'ф' {
        "f"@
    } else if c == 'Х' || c == 'х' {
        "x"@
    } else if c == 'Ц' || c == 'ц' {
        "ts"@
    } else if c == 'Ч' || c == 'ч' {
        "ch"@
    } else if c == 'Ш' || c == 'ш' || c == 'Щ' || c == 'щ' {
        "sh"@
    } else if c == 'Ы' || c == 'ы' {
        "i"@
    } else if c == 'Ю' || c == 'ю' {
        "yu"@
    } else if c == 'Я' || c == 'я' {
        "ya"@
    } else if c == 'Қ' || c == 'қ' {
        "q"@
    } else if c == 'Ғ' || c == 'ғ' {
        "g"@
    } else if c == 'Ў' || c == 'ў' {
        "o"@
    } else if c == 'Ҳ' || c == 'ҳ' {
        "h"@
    } else {
        seq![c]
    }
}

pub open spec fn translit_seq(s: Seq<char>) -> Seq<char>
    decreases s.len(),
{
    if s.len() == 0 {
        s
    } else {
        translit_seq(s.drop_last()) + translit(s.last())
    }
}

fn translit_push(out: &mut Vec<char>, c: char)
    ensures
        final(out)@ == old(out)@ + translit(c),
{
    if c == 'А' || c == 'а' {
        append_str(out, "a")
    } else if c == 'Б' || c == 'б' {
        append_str(out, "b")
    } else if c == 'В' || c == 'в' {
        append_str(out, "v")
    } else if c == 'Г' || c == 'г' {
        append_str(out, "g")
    } else if c == 'Д' || c == 'д' {
        append_str(out, "d")
    } else if c == 'Е' || c == 'е' || c == 'Ё' || c == 'ё' || c == 'Э' || c == 'э' {
        append_str(out, "e")
    } else if c == 'Ж' || c == 'ж' {
        append_str(out, "j")
    } else if c == 'З' || c == 'з' {
        append_str(out, "z")
    } else if c == 'И' || c == 'и' || c == 'Й' || c == 'й' {
        append_str(out, "i")
    } else if c == 'К' || c == 'к' {
        append_str(out, "k")
    } else if c == 'Л' || c == 'л' {
        append_str(out, "l")
    } else if c == 'М' || c == 'м' {
        append_str(out, "m")
    } else if c == 'Н' || c == 'н' {
        append_str(out, "n")
    } else if c == 'О' || c == 'о' {
        append_str(out, "o")
    } else if c == 'П' || c == 'п' {
        append_str(out, "p")
    } else if c == 'Р' || c == 'р' {
        append_str(out, "r")
    } else if c == 'С' || c == 'с' {
        append_str(out, "s")
    } else if c == 'Т' || c == 'т' {
        append_str(out, "t")
    } else if c == 'У' || c == 'у' {
        append_str(out, "u")
    } else if c == 'Ф' || c == 'ф' {
        append_str(out, "f")
    } else if c == 'Х' || c == 'х' {
        append_str(out, "x")
    } else if c == 'Ц' || c == 'ц' {
        append_str(out, "ts")
    } else if c == 'Ч' || c == 'ч' {
        append_str(out, "ch")
    } else if c == 'Ш' || c == 'ш' || c == 'Щ' || c == 'щ' {
        append_str(out, "sh")
    } else if c == 'Ы' || c == 'ы' {
        append_str(out, "i")
    } else if c == 'Ю' || c == 'ю' {
        append_str(out, "yu")
    } else if c == 'Я' || c == 'я' {
        append_str(out, "ya")
    } else if c == 'Қ' || c == 'қ' {
        append_str(out, "q")
    } else if c == 'Ғ' || c == 'ғ' {
        append_str(out, "g")
    } else if c == 'Ў' || c == 'ў' {
        append_str(out, "o")
    } else if c == 'Ҳ' || c == 'ҳ' {
        append_str(out, "h")
    } else {
        let ghost before = out@;
        out.push(c);
        assert(out@ =~= before + seq![c]);
    }
}

pub fn transliterate_header(value: &Vec<char>) -> (r: Vec<char>)
    ensures
        r@ == translit_seq(value@),
{
    let mut r: Vec<char> = Vec::new();
    let mut i: usize = 0;
    while i < value.len()
        invariant
            i <= value.len(),
            r@ == translit_seq(value@.take(i as int)),
        decreases value.len() - i,
    {
        assert(value@.take(i + 1).drop_last() =~= value@.take(i as int));
        translit_push(&mut r, value[i]);
        i = i + 1;
    }
    assert(value@.take(value.len() as int) =~= value@);
    r
}

/// A header in Latin, trimmed, in lower case, with only ASCII letters and digits.
pub open spec fn norm_header(s: Seq<char>) -> Seq<char> {
    keep(lower_seq(trim(translit_seq(s))), CharClass::Alnum)
}

pub fn normalize_header(value: &Vec<char>) -> (r: Vec<char>)
    ensures
        r@ == norm_header(value@),
{
    let t = transliterate_header(value);
    let t = trim_chars(&t);
    let l = lower_chars(&t);
    keep_chars(&l, CharClass::Alnum)
}

// ---------------------------------------------------------------------------
// Header names
// ---------------------------------------------------------------------------

/// The header names that the CSV reader knows for each kind of column;
/// `razmeri` counts as a width only for Excel sheets.
pub open spec fn header_matches_spec(h: Seq<char>, kind: HeaderKind, razmeri: bool) -> bool {
    match kind {
        HeaderKind::Kg => h == "kg"@ || h == "kilo"@ || h == "ogirlik"@ || h == "ves"@ || h
            == "weight"@ || ends_with(h, "kg"@),
        HeaderKind::Width => h == "razmer"@ || (razmeri && h == "razmeri"@) || h == "razmr"@ || h
            == "olcham"@ || h == "size"@ || h == "uzunligi"@ || h == "dlina"@ || h
            == "materialrazmeri"@,
        HeaderKind::FirstMaterial => h == "1qavat"@ || h == "1qavati"@ || h == "1qatlam"@ || h
            == "qavat1"@ || h == "qatlam1"@ || h == "1layer"@,
        HeaderKind::FirstMicron => h == "1mikron"@ || h == "1micron"@ || h == "1mkrn"@ || h
            == "mikron1"@ || h == "micron1"@ || h == "1qmicron"@,
        HeaderKind::SecondMaterial => h == "2qavat"@ || h == "2qavati"@ || h == "2qatlam"@ || h
            == "qavat2"@ || h == "qatlam2"@ || h == "2layer"@,
        HeaderKind::SecondMicron => h == "2mikron"@ || h == "2micron"@ || h == "2mkrn"@ || h
            == "mikron2"@ || h == "micron2"@ || h == "2qmicron"@,
    }
}

pub fn header_matches(h: &Vec<char>, kind: HeaderKind, razmeri: bool) -> (r: bool)
    ensures
        r == header_matches_spec(h@, kind, razmeri),
{
    match kind {
        HeaderKind::Kg => eq_str(h, "kg") || eq_str(h, "kilo") || eq_str(h, "ogirlik") || eq_str(
            h,
            "ves",
        ) || eq_str(h, "weight") || ends_with_str(h, "kg"),
        HeaderKind::Width => eq_str(h, "razmer") || (razmeri && eq_str(h, "razmeri")) || eq_str(
            h,
            "razmr",
        ) || eq_str(h, "olcham") || eq_str(h, "size") || eq_str(h, "uzunligi") || eq_str(
            h,
            "dlina",
        ) || eq_str(h, "materialrazmeri"),
        HeaderKind::FirstMaterial => eq_str(h, "1qavat") || eq_str(h, "1qavati") || eq_str(
            h,
            "1qatlam",
        ) || eq_str(h, "qavat1") || eq_str(h, "qatlam1") || eq_str(h, "1layer"),
        HeaderKind::FirstMicron => eq_str(h, "1mikron") || eq_str(h, "1micron") || eq_str(
            h,
            "1mkrn",
        ) || eq_str(h, "mikron1") || eq_str(h, "micron1") || eq_str(h, "1qmicron"),
        HeaderKind::SecondMaterial => eq_str(h, "2qavat") || eq_str(h, "2qavati") || eq_str(
            h,
            "2qatlam",
        ) || eq_str(h, "qavat2") || eq_str(h, "qatlam2") || eq_str(h, "2layer"),
        HeaderKind::SecondMicron => eq_str(h, "2mikron") || eq_str(h, "2micron") || eq_str(
            h,
            "2mkrn",
        ) || eq_str(h, "mikron2") || eq_str(h, "micron2") || eq_str(h, "2qmicron"),
    }
}

proof fn lemma_translit_edges(c: char)
    ensures
        translit(c).len() > 0,
        !crate::text::is_ws(c) ==> !crate::text::is_ws(translit(c)[0]) && !crate::text::is_ws(
            translit(c).last(),
        ),
        (c == ' ' || c == '-') ==> translit(c) == seq![c],
{
    reveal_strlit("a");
    reveal_strlit("b");
    reveal_strlit("v");
    reveal_strlit("g");
    reveal_strlit("d");
    reveal_strlit("e");
    reveal_strlit("j");
    reveal_strlit("z");
    reveal_strlit("i");
    reveal_strlit("k");
    reveal_strlit("l");
    reveal_strlit("m");
    reveal_strlit("n");
    reveal_strlit("o");
    reveal_strlit("p");
    reveal_strlit("r");
    reveal_strlit("s");
    reveal_strlit("t");
    reveal_strlit("u");
    reveal_strlit("f");
    reveal_strlit("x");
    reveal_strlit("ts");
    reveal_strlit("ch");
    reveal_strlit("sh");
    reveal_strlit("yu");
    reveal_strlit("ya");
    reveal_strlit("q");
    reveal_strlit("h");
}

proof fn lemma_translit_append(a: Seq<char>, b: Seq<char>)
    ensures
        translit_seq(a + b) == translit_seq(a) + translit_seq(b),
    decreases b.len(),
{
    if b.len() == 0 {
        assert(a + b =~= a);
        assert(translit_seq(a) + translit_seq(b) =~= translit_seq(a));
    } else {
        lemma_translit_append(a, b.drop_last());
        assert((a + b).drop_last() =~= a + b.drop_last());
        assert((a + b).last() == b.last());
        assert(translit_seq(a) + translit_seq(b.drop_last()) + translit(b.last()) =~= translit_seq(
            a,
        ) + (translit_seq(b.drop_last()) + translit(b.last())));
    }
}

proof fn lemma_translit_first_last(s: Seq<char>)
    requires
        s.len() > 0,
    ensures
        translit_seq(s).len() > 0,
        !crate::text::is_ws(s[0]) ==> !crate::text::is_ws(translit_seq(s)[0]),
        !crate::text::is_ws(s.last()) ==> !crate::text::is_ws(translit_seq(s).last()),
    decreases s.len(),
{
    lemma_translit_edges(s.last());
    let p = translit_seq(s.drop_last());
    let q = translit(s.last());
    assert(translit_seq(s) == p + q);
    if s.len() > 1 {
        lemma_translit_first_last(s.drop_last());
        assert(s.drop_last()[0] == s[0]);
        assert((p + q)[0] == p[0]);
    } else {
        assert(s.drop_last() =~= Seq::<char>::empty());
        assert(p == Seq::<char>::empty());
        assert(p + q =~= q);
        assert(s.last() == s[0]);
    }
    assert((p + q).last() == q.last());
}

/// Header names that differ only by a space or a dash between two parts
/// normalise alike (`1 ҚАВАТ`, `1-қават` and `1ҚАВАТ` are one header).
pub proof fn lemma_header_ignores_space_and_dash(a: Seq<char>, b: Seq<char>, c: char)
    requires
        c == ' ' || c == '-',
        a.len() > 0,
        b.len() > 0,
        !crate::text::is_ws(a[0]),
        !crate::text::is_ws(b.last()),
    ensures
        norm_header(a + seq![c] + b) == norm_header(a + b),
{
    lemma_translit_append(a + seq![c], b);
    lemma_translit_append(a, seq![c]);
    lemma_translit_append(a, b);
    lemma_translit_edges(c);
    assert(translit_seq(seq![c]) =~= seq![c]) by {
        assert(seq![c].drop_last() =~= Seq::<char>::empty());
        assert(seq![c].last() == c);
        assert(translit_seq(seq![c].drop_last()) == Seq::<char>::empty());
        assert(translit_seq(seq![c]) == translit_seq(seq![c].drop_last()) + translit(c));
    }
    lemma_translit_first_last(a);
    lemma_translit_first_last(b);
    let ta = translit_seq(a);
    let tb = translit_seq(b);
    let s = ta + seq![c] + tb;
    let t = ta + tb;
    assert(translit_seq(a + seq![c] + b) == s);
    assert(translit_seq(a + b) == t);
    assert(s[0] == ta[0] && t[0] == ta[0]);
    assert(s.last() == tb.last() && t.last() == tb.last());
    crate::text::lemma_trim_unchanged(s);
    crate::text::lemma_trim_unchanged(t);
    crate::text::lemma_lower_append(ta + seq![c], tb);
    crate::text::lemma_lower_append(ta, seq![c]);
    crate::text::lemma_lower_append(ta, tb);
    assert(lower_seq(seq![c]) =~= seq![c]) by {
        assert(seq![c].drop_last() =~= Seq::<char>::empty());
        assert(seq![c].last() == c);
        assert(lower_seq(Seq::<char>::empty()) == Seq::<char>::empty());
        assert((c as u32) < 128);
        assert(crate::text::ascii_lower(c) == c);
        assert(crate::text::lower_char(c) == seq![c]);
    }
    crate::text::lemma_keep_append(lower_seq(ta) + seq![c], lower_seq(tb), CharClass::Alnum);
    crate::text::lemma_keep_append(lower_seq(ta), seq![c], CharClass::Alnum);
    crate::text::lemma_keep_append(lower_seq(ta), lower_seq(tb), CharClass::Alnum);
    assert(keep(seq![c], CharClass::Alnum) =~= Seq::<char>::empty()) by {
        assert(seq![c].drop_last() =~= Seq::<char>::empty());
        assert(seq![c].last() == c);
        assert(!crate::text::in_class(CharClass::Alnum, c));
        assert(keep(Seq::<char>::empty(), CharClass::Alnum) == Seq::<char>::empty());
        assert(keep(seq![c], CharClass::Alnum) == keep(seq![c].drop_last(), CharClass::Alnum));
    }
    assert(keep(lower_seq(ta), CharClass::Alnum) + Seq::<char>::empty() =~= keep(
        lower_seq(ta),
        CharClass::Alnum,
    ));
}


/// The header names that the documentation gives for each kind of column,
/// after normalising (lower case, Latin letters, no spaces or signs).
pub open spec fn documented_header(h: Seq<char>, kind: HeaderKind, razmeri: bool) -> bool {
    match kind {
        HeaderKind::Kg => h == "kg"@ || h == "kilo"@ || h == "ogirlik"@ || h == "ves"@ || h
            == "weight"@ || ends_with(h, "kg"@),
        HeaderKind::Width => h == "uzunligi"@ || h == "razmer"@ || h == "materialrazmeri"@ || h
            == "razmr"@ || h == "dlina"@ || h == "olcham"@ || h == "size"@ || (razmeri && h
            == "razmeri"@),
        HeaderKind::FirstMaterial => h == "1qavat"@ || h == "1qavati"@ || h == "1qatlam"@ || h
            == "qavat1"@ || h == "qatlam1"@ || h == "1layer"@,
        HeaderKind::FirstMicron => h == "1mikron"@ || h == "1micron"@ || h == "1mkrn"@ || h
            == "mikron1"@ || h == "micron1"@ || h == "1qmicron"@,
        HeaderKind::SecondMaterial => h == "2qavat"@ || h == "2qavati"@ || h == "2qatlam"@ || h
            == "qavat2"@ || h == "qatlam2"@ || h == "2layer"@,
        HeaderKind::SecondMicron => h == "2mikron"@ || h == "2micron"@ || h == "2mkrn"@ || h
            == "mikron2"@ || h == "micron2"@ || h == "2qmicron"@,
    }
}

/// Every documented header name is recognised as its kind of column: the
/// width column by `razmer`, `razmr`, `olcham`, `size`, `uzunligi`, `dlina`
/// or `materialrazmeri` (and `razmeri` in a sheet that allows it), the
/// weight by `kg`, `kilo`, `ogirlik`, `ves`, `weight` or any name ending in
/// `kg`, and each layer and micron column by its listed names.
pub proof fn lemma_documented_headers_match(h: Seq<char>, kind: HeaderKind, razmeri: bool)
    requires
        documented_header(h, kind, razmeri),
    ensures
        header_matches_spec(h, kind, razmeri),
{
}

} // verus!
