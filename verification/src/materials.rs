//! Material names, micron lists and coefficients as the bot reads them.
use vstd::prelude::*;

use crate::coeff::{interp, jem, jem_table, mcp_cpp, mcp_cpp_table, pe, pe_table};
use crate::lev::{lev_bytes, levenshtein};
use crate::text::{
    lemma_utf8_len_at_least, utf8_len, utf8_len_exec, all_char, all_char_exec, append_all,
    append_str, chars_of, digits_of, eq_chars, eq_str, keep, keep_chars, lower_chars, lower_seq,
    nat_digits, parse_u32, parse_u32_chars, split_char, split_on, starts_with, starts_with_str,
    string_of, trim, trim_chars, views, CharClass,
};

verus! {

#[derive(Debug, Clone, Copy, PartialEq, Eq, Structural)]
pub enum Family {
    First,
    McpCpp,
    Jem,
    Pe,
    Twist,
    Empty,
}

// ---------------------------------------------------------------------------
// Normalising a material name
// ---------------------------------------------------------------------------

/// The name trimmed, in lower case, with only ASCII letters, digits and `-` kept.
pub open spec fn norm(s: Seq<char>) -> Seq<char> {
    keep(lower_seq(trim(s)), CharClass::AlnumDash)
}

pub fn normalize_chars(value: &Vec<char>) -> (r: Vec<char>)
    ensures
        r@ == norm(value@),
{
    let t = trim_chars(value);
    let l = lower_chars(&t);
    keep_chars(&l, CharClass::AlnumDash)
}

pub fn normalize(value: &str) -> (r: String)
    ensures
        r@ == norm(value@),
{
    let v = chars_of(value);
    let n = normalize_chars(&v);
    string_of(&n)
}

/// `value` is `expected` or, of the same length in bytes, one edit away from it.
pub open spec fn close_spec(value: Seq<char>, expected: Seq<char>) -> bool {
    value == expected || (utf8_len(value) == utf8_len(expected) && lev_bytes(value, expected) <= 1)
}

pub fn close_chars(value: &Vec<char>, expected: &Vec<char>) -> (r: bool)
    requires
        utf8_len(expected@) <= isize::MAX,
    ensures
        r == close_spec(value@, expected@),
{
    if eq_chars(value, expected) {
        return true;
    }
    if utf8_len_exec(value) != utf8_len_exec(expected) {
        return false;
    }
    proof {
        lemma_utf8_len_at_least(value@);
        lemma_utf8_len_at_least(expected@);
    }
    let v = string_of(value);
    let e = string_of(expected);
    levenshtein(v.as_str(), e.as_str()) <= 1
}

pub fn close(value: &str, expected: &str) -> (r: bool)
    requires
        utf8_len(expected@) <= isize::MAX,
    ensures
        r == close_spec(value@, expected@),
{
    let v = chars_of(value);
    let e = chars_of(expected);
    close_chars(&v, &e)
}

/// Whether a normalised name is close to one of the short names the rules use.
pub fn close_to(value: &Vec<char>, expected: &str) -> (r: bool)
    requires
        expected@.len() <= 8,
    ensures
        r == close_spec(value@, expected@),
{
    proof {
        lemma_utf8_len_at_least(expected@);
    }
    let e = chars_of(expected);
    close_chars(value, &e)
}

// ---------------------------------------------------------------------------
// Families
// ---------------------------------------------------------------------------

pub open spec fn is_empty_norm(n: Seq<char>) -> bool {
    n.len() == 0 || n == "--"@ || n == "-"@ || n == "yoq"@ || n == "yuq"@
}

/// The family of a material, or the error for an unknown one.
pub open spec fn family_of(material: Seq<char>) -> Result<Family, Seq<char>> {
    let n = norm(material);
    if is_empty_norm(n) {
        Ok(Family::Empty)
    } else if starts_with(n, "twis"@) || starts_with(n, "tuisim"@) {
        Ok(Family::Twist)
    } else if starts_with(n, "cpp"@) || starts_with(n, "mcp"@) {
        Ok(Family::McpCpp)
    } else if starts_with(n, "pet"@) || starts_with(n, "mpet"@) || close_spec(n, "pet"@) {
        Ok(Family::First)
    } else if starts_with(n, "opp"@) || starts_with(n, "popp"@) || n == "st01"@ || close_spec(
        n,
        "opp"@,
    ) {
        Ok(Family::First)
    } else if n == "map"@ || n == "mcpp"@ || n == "msr"@ || n == "msp"@ {
        Ok(Family::McpCpp)
    } else if starts_with(n, "mat"@) || starts_with(n, "pff"@) || starts_with(n, "pf"@)
        || close_spec(n, "mat"@) {
        Ok(Family::First)
    } else if starts_with(n, "pe"@) || close_spec(n, "pe"@) {
        Ok(Family::Pe)
    } else if starts_with(n, "cpp"@) || starts_with(n, "mcp"@) || close_spec(n, "cpp"@)
        || close_spec(n, "mcp"@) {
        Ok(Family::McpCpp)
    } else if starts_with(n, "jem"@) || close_spec(n, "jem"@) {
        Ok(Family::Jem)
    } else {
        Err("noma'lum material: "@ + material)
    }
}

fn is_empty_norm_exec(n: &Vec<char>) -> (r: bool)
    ensures
        r == is_empty_norm(n@),
{
    n.len() == 0 || eq_str(n, "--") || eq_str(n, "-") || eq_str(n, "yoq") || eq_str(n, "yuq")
}

pub fn material_family(material: &str) -> (r: Result<Family, String>)
    ensures
        match (r, family_of(material@)) {
            (Ok(f), Ok(g)) => f == g,
            (Err(e), Err(m)) => e@ == m,
            _ => false,
        },
{
    let v = chars_of(material);
    let n = normalize_chars(&v);
    proof {
        reveal_strlit("pet");
        reveal_strlit("opp");
        reveal_strlit("mat");
        reveal_strlit("pe");
        reveal_strlit("cpp");
        reveal_strlit("mcp");
        reveal_strlit("jem");
    }
    if is_empty_norm_exec(&n) {
        Ok(Family::Empty)
    } else if starts_with_str(&n, "twis") || starts_with_str(&n, "tuisim") {
        Ok(Family::Twist)
    } else if starts_with_str(&n, "cpp") || starts_with_str(&n, "mcp") {
        Ok(Family::McpCpp)
    } else if starts_with_str(&n, "pet") || starts_with_str(&n, "mpet") || close_to(
        &n,
        "pet",
    ) {
        Ok(Family::First)
    } else if starts_with_str(&n, "opp") || starts_with_str(&n, "popp") || eq_str(&n, "st01")
        || close_to(&n, "opp") {
        Ok(Family::First)
    } else if eq_str(&n, "map") || eq_str(&n, "mcpp") || eq_str(&n, "msr") || eq_str(&n, "msp") {
        Ok(Family::McpCpp)
    } else if starts_with_str(&n, "mat") || starts_with_str(&n, "pff") || starts_with_str(
        &n,
        "pf",
    ) || close_to(&n, "mat") {
        Ok(Family::First)
    } else if starts_with_str(&n, "pe") || close_to(&n, "pe") {
        Ok(Family::Pe)
    } else if starts_with_str(&n, "cpp") || starts_with_str(&n, "mcp") || close_to(&n, "cpp")
        || close_to(&n, "mcp") {
        Ok(Family::McpCpp)
    } else if starts_with_str(&n, "jem") || close_to(&n, "jem") {
        Ok(Family::Jem)
    } else {
        let mut e = chars_of("noma'lum material: ");
        append_all(&mut e, &v);
        Err(string_of(&e))
    }
}

/// A material that counts as no layer at all.
pub open spec fn is_empty_material_spec(material: Seq<char>) -> bool {
    let n = norm(material);
    n.len() == 0 || all_char(n, '-') || n == "yoq"@ || n == "yuq"@
}

pub fn is_empty_material_chars(material: &Vec<char>) -> (r: bool)
    ensures
        r == is_empty_material_spec(material@),
{
    let n = normalize_chars(material);
    n.len() == 0 || all_char_exec(&n, '-') || eq_str(&n, "yoq") || eq_str(&n, "yuq")
}

pub fn is_empty_material(material: &str) -> (r: bool)
    ensures
        r == is_empty_material_spec(material@),
{
    let v = chars_of(material);
    is_empty_material_chars(&v)
}

// ---------------------------------------------------------------------------
// Splitting a layer cell
// ---------------------------------------------------------------------------

/// The trimmed pieces that are not empty, in order.
pub open spec fn nonempty_trimmed(parts: Seq<Seq<char>>) -> Seq<Seq<char>>
    decreases parts.len(),
{
    if parts.len() == 0 {
        parts
    } else {
        let p = nonempty_trimmed(parts.drop_last());
        let t = trim(parts.last());
        if t.len() > 0 {
            p.push(t)
        } else {
            p
        }
    }
}

/// The materials of a layer cell such as `oppm/pe pr`.
pub open spec fn split_parts_spec(s: Seq<char>) -> Seq<Seq<char>> {
    nonempty_trimmed(split_char(s, '/'))
}

pub fn split_parts(value: &Vec<char>) -> (r: Vec<Vec<char>>)
    ensures
        views(r@) == split_parts_spec(value@),
{
    let parts = split_on(value, '/');
    let mut r: Vec<Vec<char>> = Vec::new();
    let mut i: usize = 0;
    while i < parts.len()
        invariant
            i <= parts.len(),
            views(r@) == nonempty_trimmed(views(parts@).take(i as int)),
        decreases parts.len() - i,
    {
        assert(views(parts@).take(i + 1).drop_last() =~= views(parts@).take(i as int));
        let t = trim_chars(&parts[i]);
        if t.len() > 0 {
            let ghost before = views(r@);
            r.push(t);
            assert(views(r@) =~= before.push(t@));
        }
        i = i + 1;
    }
    assert(views(parts@).take(parts.len() as int) =~= views(parts@));
    r
}

// ---------------------------------------------------------------------------
// Microns
// ---------------------------------------------------------------------------

/// Every piece trimmed and read as a `u32`, or `None` if one is not a number.
pub open spec fn parse_all(parts: Seq<Seq<char>>) -> Option<Seq<u32>>
    decreases parts.len(),
{
    if parts.len() == 0 {
        Some(Seq::<u32>::empty())
    } else {
        match (parse_all(parts.drop_last()), parse_u32(trim(parts.last()))) {
            (Some(p), Some(v)) => Some(p.push(v)),
            _ => None,
        }
    }
}

pub proof fn lemma_parse_all_len(parts: Seq<Seq<char>>)
    ensures
        parse_all(parts) matches Some(l) ==> l.len() == parts.len(),
    decreases parts.len(),
{
    if parts.len() > 0 {
        lemma_parse_all_len(parts.drop_last());
    }
}

pub proof fn lemma_parse_all_prefix_none(parts: Seq<Seq<char>>, i: int)
    requires
        0 <= i <= parts.len(),
        parse_all(parts.take(i)) is None,
    ensures
        parse_all(parts) is None,
    decreases parts.len() - i,
{
    if i < parts.len() {
        assert(parts.take(i + 1).drop_last() =~= parts.take(i));
        lemma_parse_all_prefix_none(parts, i + 1);
    } else {
        assert(parts.take(i) =~= parts);
    }
}

/// The microns of a cell such as `20/30`: `None` when the cell is blank or
/// `--` or when a piece is not a whole number.
pub open spec fn micron_list(s: Seq<char>) -> Option<Seq<u32>> {
    let t = trim(s);
    if t.len() == 0 || t == "--"@ {
        None
    } else {
        parse_all(split_char(t, '/'))
    }
}

pub open spec fn seq_max(s: Seq<u32>) -> u32
    decreases s.len(),
{
    if s.len() == 0 {
        0
    } else {
        let m = seq_max(s.drop_last());
        if s.last() > m {
            s.last()
        } else {
            m
        }
    }
}

/// Reads a micron cell into its pieces, or `None` when it is not a list of numbers.
pub fn micron_parts(value: &Vec<char>) -> (r: Option<Vec<u32>>)
    ensures
        match r {
            Some(v) => micron_list(value@) == Some(v@),
            None => micron_list(value@) is None,
        },
{
    let t = trim_chars(value);
    if t.len() == 0 || eq_str(&t, "--") {
        return None;
    }
    let parts = split_on(&t, '/');
    let mut out: Vec<u32> = Vec::new();
    let mut i: usize = 0;
    while i < parts.len()
        invariant
            i <= parts.len(),
            t@ == trim(value@),
            t@.len() != 0 && t@ != "--"@,
            views(parts@) == split_char(t@, '/'),
            parse_all(views(parts@).take(i as int)) == Some(out@),
        decreases parts.len() - i,
    {
        assert(views(parts@).take(i + 1).drop_last() =~= views(parts@).take(i as int));
        assert(views(parts@).take(i + 1).last() == parts@[i as int]@);
        let pt = trim_chars(&parts[i]);
        match parse_u32_chars(&pt) {
            Some(v) => {
                out.push(v);
            },
            None => {
                proof {
                    lemma_parse_all_prefix_none(views(parts@), i + 1);
                }
                return None;
            },
        }
        i = i + 1;
    }
    assert(views(parts@).take(parts.len() as int) =~= views(parts@));
    Some(out)
}

pub fn max_of(v: &Vec<u32>) -> (m: u32)
    ensures
        m == seq_max(v@),
{
    let mut m: u32 = 0;
    let mut i: usize = 0;
    while i < v.len()
        invariant
            i <= v.len(),
            m == seq_max(v@.take(i as int)),
        decreases v.len() - i,
    {
        assert(v@.take(i + 1).drop_last() =~= v@.take(i as int));
        if v[i] > m {
            m = v[i];
        }
        i = i + 1;
    }
    assert(v@.take(v.len() as int) =~= v@);
    m
}

/// The error for a micron cell that is not a list of numbers.
pub open spec fn micron_error(s: Seq<char>) -> Seq<char> {
    "micron noto'g'ri: "@ + trim(s)
}

fn micron_error_exec(value: &Vec<char>) -> (r: String)
    ensures
        r@ == micron_error(value@),
{
    let mut e = chars_of("micron noto'g'ri: ");
    let t = trim_chars(value);
    append_all(&mut e, &t);
    string_of(&e)
}

pub fn parse_micron_parts(value: &str) -> (r: Result<Vec<u32>, String>)
    ensures
        match r {
            Ok(v) => micron_list(value@) == Some(v@),
            Err(e) => micron_list(value@) is None && e@ == micron_error(value@),
        },
{
    let v = chars_of(value);
    match micron_parts(&v) {
        Some(p) => Ok(p),
        None => Err(micron_error_exec(&v)),
    }
}

/// The largest micron of a cell such as `18/20`.
pub fn parse_micron(value: &str) -> (r: Result<u32, String>)
    ensures
        match r {
            Ok(m) => micron_list(value@) matches Some(l) && m == seq_max(l),
            Err(e) => micron_list(value@) is None && e@ == micron_error(value@),
        },
{
    let v = chars_of(value);
    match micron_parts(&v) {
        Some(p) => Ok(max_of(&p)),
        None => Err(micron_error_exec(&v)),
    }
}

// ---------------------------------------------------------------------------
// Coefficients
// ---------------------------------------------------------------------------

/// The coefficient that the tables give a family at a micron.
pub open spec fn table_value(f: Family, m: u32) -> Option<u64> {
    match f {
        Family::First | Family::McpCpp => interp(m, mcp_cpp_table()),
        Family::Jem => interp(m, jem_table()),
        Family::Pe => interp(m, pe_table()),
        Family::Twist => Some(2000),
        Family::Empty => None,
    }
}

pub open spec fn available(f: Family) -> Seq<char> {
    match f {
        Family::First | Family::McpCpp => "20, 25, 30, 35, 40, 45, 50, 60"@,
        Family::Jem => "25, 30"@,
        Family::Pe => "30, 35, 40, 45, 50, 55, 60, 65, 70, 75, 80, 85, 90"@,
        Family::Twist => "twist uchun jadval kerak emas"@,
        Family::Empty => "bo'sh material"@,
    }
}

pub open spec fn coefficient_error_spec(material: Seq<char>, micron: u32, f: Family) -> Seq<char> {
    "'"@ + material + "' uchun "@ + nat_digits(micron as nat) + " mikron topilmadi. Bor mikronlar: "@
        + available(f)
}

pub fn coefficient_error(material: &Vec<char>, micron: u32, family: Family) -> (r: String)
    ensures
        r@ == coefficient_error_spec(material@, micron, family),
{
    let mut e = chars_of("'");
    append_all(&mut e, material);
    append_str(&mut e, "' uchun ");
    let d = digits_of(micron as u128);
    append_all(&mut e, &d);
    append_str(&mut e, " mikron topilmadi. Bor mikronlar: ");
    match family {
        Family::First | Family::McpCpp => append_str(&mut e, "20, 25, 30, 35, 40, 45, 50, 60"),
        Family::Jem => append_str(&mut e, "25, 30"),
        Family::Pe => append_str(&mut e, "30, 35, 40, 45, 50, 55, 60, 65, 70, 75, 80, 85, 90"),
        Family::Twist => append_str(&mut e, "twist uchun jadval kerak emas"),
        Family::Empty => append_str(&mut e, "bo'sh material"),
    }
    string_of(&e)
}

/// The coefficient of one material at one micron, in thousandths.
pub open spec fn coefficient_single_spec(material: Seq<char>, micron: u32, is_first: bool) -> Result<
    u64,
    Seq<char>,
> {
    match family_of(material) {
        Err(e) => Err(e),
        Ok(f) => if is_first && f != Family::Empty && f != Family::Twist && micron <= 20 {
            Ok(1000)
        } else if f == Family::First && micron <= 20 {
            Ok(1000)
        } else {
            match table_value(f, micron) {
                Some(v) => Ok(v),
                None => Err(coefficient_error_spec(material, micron, f)),
            }
        },
    }
}

pub fn coefficient_single_chars(material: &Vec<char>, micron: u32, is_first: bool) -> (r: Result<
    u64,
    String,
>)
    ensures
        match (r, coefficient_single_spec(material@, micron, is_first)) {
            (Ok(a), Ok(b)) => a == b,
            (Err(a), Err(b)) => a@ == b,
            _ => false,
        },
        r matches Ok(v) ==> v <= 1_000_000,
{
    let s = string_of(material);
    let family = match material_family(s.as_str()) {
        Ok(f) => f,
        Err(e) => {
            return Err(e);
        },
    };
    if is_first && !matches!(family, Family::Empty | Family::Twist) && micron <= 20 {
        return Ok(1000);
    }
    if family == Family::First && micron <= 20 {
        return Ok(1000);
    }
    let value = match family {
        Family::First | Family::McpCpp => mcp_cpp(micron),
        Family::Jem => jem(micron),
        Family::Pe => pe(micron),
        Family::Twist => Some(2000),
        Family::Empty => None,
    };
    proof {
        crate::coeff::lemma_tables_bounded(micron);
    }
    match value {
        Some(v) => Ok(v),
        None => Err(coefficient_error(material, micron, family)),
    }
}

/// The coefficient of one material at one micron, in thousandths (1.07 is 1070).
pub fn coefficient_single(material: &str, micron: u32, is_first: bool) -> (r: Result<u64, String>)
    ensures
        match (r, coefficient_single_spec(material@, micron, is_first)) {
            (Ok(a), Ok(b)) => a == b,
            (Err(a), Err(b)) => a@ == b,
            _ => false,
        },
{
    let v = chars_of(material);
    coefficient_single_chars(&v, micron, is_first)
}

/// A known material of a first layer, other than twist, counts as 1 at
/// 20 microns or less; the first-layer family counts as 1 there in any
/// layer; twist counts as 2 at any micron.
pub proof fn lemma_coefficient_rules(material: Seq<char>, micron: u32, is_first: bool)
    requires
        family_of(material) is Ok,
    ensures
        ({
            let f = family_of(material)->Ok_0;
            &&& (is_first && f != Family::Empty && f != Family::Twist && micron <= 20)
                ==> coefficient_single_spec(material, micron, is_first) == Ok::<u64, Seq<char>>(
                1000,
            )
            &&& (f == Family::First && micron <= 20) ==> coefficient_single_spec(
                material,
                micron,
                is_first,
            ) == Ok::<u64, Seq<char>>(1000)
            &&& f == Family::Twist ==> coefficient_single_spec(material, micron, is_first) == Ok::<
                u64,
                Seq<char>,
            >(2000)
        }),
{
}


/// A material whose name begins with `cpp` or `mcp` (after trimming, case
/// and stray characters) is of the MCP/CPP family.
pub proof fn lemma_cpp_mcp_prefix_family(material: Seq<char>)
    requires
        starts_with(norm(material), "cpp"@) || starts_with(norm(material), "mcp"@),
    ensures
        family_of(material) == Ok::<Family, Seq<char>>(Family::McpCpp),
{
    reveal_strlit("cpp");
    reveal_strlit("mcp");
    reveal_strlit("--");
    reveal_strlit("-");
    reveal_strlit("yoq");
    reveal_strlit("yuq");
    reveal_strlit("twis");
    reveal_strlit("tuisim");
    let n = norm(material);
    assert(n[0] == 'c' || n[0] == 'm') by {
        assert(n.subrange(0, 3)[0] == n[0]);
    }
    assert(!starts_with(n, "twis"@)) by {
        if starts_with(n, "twis"@) {
            assert(n.subrange(0, 4)[0] == n[0]);
        }
    }
    assert(!starts_with(n, "tuisim"@)) by {
        if starts_with(n, "tuisim"@) {
            assert(n.subrange(0, 6)[0] == n[0]);
        }
    }
    assert(!is_empty_norm(n)) by {
        if is_empty_norm(n) {
            assert(n.len() >= 3);
        }
    }
}


/// The largest element of a sequence is no smaller than any, and is one of
/// them.
pub proof fn lemma_seq_max(l: Seq<u32>)
    ensures
        forall|i: int| 0 <= i < l.len() ==> l[i] <= seq_max(l),
        l.len() > 0 ==> exists|i: int| 0 <= i < l.len() && l[i] == seq_max(l),
    decreases l.len(),
{
    if l.len() > 0 {
        let p = l.drop_last();
        lemma_seq_max(p);
        assert forall|i: int| 0 <= i < l.len() implies l[i] <= seq_max(l) by {
            if i < l.len() - 1 {
                assert(p[i] == l[i]);
            }
        }
        if l.last() <= seq_max(p) && p.len() > 0 {
            let j = choose|j: int| 0 <= j < p.len() && p[j] == seq_max(p);
            assert(l[j] == p[j]);
        }
    }
}

/// Reading a list of pieces succeeds exactly when every piece, trimmed, is a
/// whole number; the numbers then come in the order of the pieces.
pub proof fn lemma_parse_all_each(parts: Seq<Seq<char>>)
    ensures
        parse_all(parts) is Some <==> forall|i: int|
            0 <= i < parts.len() ==> parse_u32(trim(#[trigger] parts[i])) is Some,
        parse_all(parts) matches Some(v) ==> v.len() == parts.len() && forall|i: int|
            0 <= i < parts.len() ==> parse_u32(trim(#[trigger] parts[i])) == Some(v[i]),
    decreases parts.len(),
{
    if parts.len() > 0 {
        let p = parts.drop_last();
        lemma_parse_all_each(p);
        if parse_all(parts) is None {
            if parse_all(p) is None {
                let i = choose|i: int| 0 <= i < p.len() && parse_u32(trim(#[trigger] p[i])) is None;
                assert(parts[i] == p[i]);
            } else {
                assert(parse_u32(trim(parts[parts.len() - 1])) is None);
            }
        } else {
            let v = parse_all(parts)->Some_0;
            let pv = parse_all(p)->Some_0;
            assert forall|i: int| 0 <= i < parts.len() implies parse_u32(trim(#[trigger] parts[i]))
                == Some(v[i]) by {
                if i < parts.len() - 1 {
                    assert(parts[i] == p[i]);
                    assert(v[i] == pv[i]);
                }
            }
        }
    }
}

/// A micron cell is read as its `/`-separated pieces, each trimmed and read
/// as a whole number. It fails exactly when the trimmed cell is blank or
/// `--`, or when a piece is not a whole number; otherwise every piece gives
/// its number, in order, and the micron (`parse_micron`) is the largest.
pub proof fn lemma_micron_cell_rule(s: Seq<char>)
    ensures
        ({
            let t = trim(s);
            let parts = split_char(t, '/');
            &&& micron_list(s) is None <==> (t.len() == 0 || t == "--"@ || exists|i: int|
                0 <= i < parts.len() && parse_u32(trim(#[trigger] parts[i])) is None)
            &&& micron_list(s) matches Some(v) ==> (v.len() == parts.len() && v.len() >= 1
                && (forall|i: int|
                0 <= i < parts.len() ==> parse_u32(trim(#[trigger] parts[i])) == Some(v[i]))
                && (forall|i: int| 0 <= i < v.len() ==> #[trigger] v[i] <= seq_max(v)) && (exists|
                i: int,
            | 0 <= i < v.len() && v[i] == seq_max(v)))
        }),
{
    let t = trim(s);
    let parts = split_char(t, '/');
    crate::text::lemma_split_char_nonempty(t, '/');
    lemma_parse_all_each(parts);
    if let Some(v) = micron_list(s) {
        lemma_seq_max(v);
    }
}


/// A material whose normalised name begins with `twis` or `tuisim` is twist,
/// and counts as 2 (2000 thousandths) at any micron, in any layer.
pub proof fn lemma_twist_prefix_family(material: Seq<char>, micron: u32, is_first: bool)
    requires
        starts_with(norm(material), "twis"@) || starts_with(norm(material), "tuisim"@),
    ensures
        family_of(material) == Ok::<Family, Seq<char>>(Family::Twist),
        coefficient_single_spec(material, micron, is_first) == Ok::<u64, Seq<char>>(2000),
{
    reveal_strlit("twis");
    reveal_strlit("tuisim");
    reveal_strlit("--");
    reveal_strlit("-");
    reveal_strlit("yoq");
    reveal_strlit("yuq");
    let n = norm(material);
    assert(n[0] == 't') by {
        if starts_with(n, "twis"@) {
            assert(n.subrange(0, 4)[0] == n[0]);
        } else {
            assert(n.subrange(0, 6)[0] == n[0]);
        }
    }
    assert(!is_empty_norm(n)) by {
        if is_empty_norm(n) {
            assert(n.len() >= 4);
        }
    }
}


/// A material whose normalised name begins with `pet` or `mpet` is of the
/// first-layer family, and counts as 1 (1000 thousandths) at 20 microns or
/// less, in any layer.
pub proof fn lemma_pet_prefix_family(material: Seq<char>, micron: u32, is_first: bool)
    requires
        starts_with(norm(material), "pet"@) || starts_with(norm(material), "mpet"@),
    ensures
        family_of(material) == Ok::<Family, Seq<char>>(Family::First),
        micron <= 20 ==> coefficient_single_spec(material, micron, is_first) == Ok::<u64, Seq<char>>(
            1000,
        ),
{
    reveal_strlit("pet");
    reveal_strlit("mpet");
    reveal_strlit("twis");
    reveal_strlit("tuisim");
    reveal_strlit("cpp");
    reveal_strlit("mcp");
    reveal_strlit("--");
    reveal_strlit("-");
    reveal_strlit("yoq");
    reveal_strlit("yuq");
    let n = norm(material);
    assert(n.len() >= 3);
    if starts_with(n, "pet"@) {
        assert(n.subrange(0, 3)[0] == n[0]);
        assert(n[0] == 'p');
    } else {
        assert(n.subrange(0, 4)[0] == n[0]);
        assert(n.subrange(0, 4)[1] == n[1]);
        assert(n[0] == 'm' && n[1] == 'p');
    }
    assert(!starts_with(n, "twis"@)) by {
        if starts_with(n, "twis"@) {
            assert(n.subrange(0, 4)[0] == n[0]);
        }
    }
    assert(!starts_with(n, "tuisim"@)) by {
        if starts_with(n, "tuisim"@) {
            assert(n.subrange(0, 6)[0] == n[0]);
        }
    }
    assert(!starts_with(n, "cpp"@)) by {
        if starts_with(n, "cpp"@) {
            assert(n.subrange(0, 3)[0] == n[0]);
        }
    }
    assert(!starts_with(n, "mcp"@)) by {
        if starts_with(n, "mcp"@) {
            assert(n.subrange(0, 3)[1] == n[1]);
        }
    }
    assert(!is_empty_norm(n)) by {
        if is_empty_norm(n) {
            assert(n.len() >= 3);
        }
    }
}

} // verus!
