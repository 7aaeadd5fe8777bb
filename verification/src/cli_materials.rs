//! Material names, microns and coefficients as the terminal calculator reads
//! them. The rules are close to the bot's, with a few more names for an empty
//! layer and for twist, and their own error texts.
use vstd::prelude::*;

use crate::coeff::{interp, jem, jem_table, mcp_cpp, mcp_cpp_table, pe, pe_table};
use crate::materials::{
    close_spec, close_to, max_of, micron_parts, norm, normalize_chars, parse_all, seq_max,
    split_parts, split_parts_spec,
};
use crate::text::{
    append_all, append_str, chars_of, digits_of, eq_str, nat_digits, split_char, starts_with,
    starts_with_str, string_of, trim, trim_chars, views,
};

verus! {

#[derive(Debug, Clone, Copy, PartialEq, Eq, Structural)]
pub enum MaterialFamily {
    FirstLayer,
    McpCpp,
    Jem,
    Pe,
    Twist,
    Empty,
}

/// A material name trimmed, in lower case, with only ASCII letters, digits
/// and `-` kept.
pub fn normalize_token(value: &str) -> (r: String)
    ensures
        r@ == norm(value@),
{
    let v = chars_of(value);
    let n = normalize_chars(&v);
    string_of(&n)
}

/// `value` is `expected` or, of the same length in bytes, one edit away from it.
pub fn is_close_material(value: &str, expected: &str) -> (r: bool)
    requires
        crate::text::utf8_len(expected@) <= isize::MAX,
    ensures
        r == close_spec(value@, expected@),
{
    crate::materials::close(value, expected)
}

/// The family of a material, or the error for an unknown one.
pub open spec fn family_spec(material: Seq<char>) -> Result<MaterialFamily, Seq<char>> {
    let n = norm(material);
    if n == "--"@ || n.len() == 0 {
        Ok(MaterialFamily::Empty)
    } else if n == "-"@ || n == "yoq"@ || n == "yuq"@ || n == "none"@ || n == "null"@ {
        Ok(MaterialFamily::Empty)
    } else if starts_with(n, "twis"@) || starts_with(n, "tuisim"@) || starts_with(n, "tuism"@)
        || starts_with(n, "tvis"@) {
        Ok(MaterialFamily::Twist)
    } else if starts_with(n, "cpp"@) || starts_with(n, "mcp"@) {
        Ok(MaterialFamily::McpCpp)
    } else if starts_with(n, "pet"@) || starts_with(n, "mpet"@) || close_spec(n, "pet"@) {
        Ok(MaterialFamily::FirstLayer)
    } else if starts_with(n, "opp"@) || starts_with(n, "popp"@) || n == "st01"@ || close_spec(
        n,
        "opp"@,
    ) || close_spec(n, "popp"@) {
        Ok(MaterialFamily::FirstLayer)
    } else if n == "map"@ || n == "mcpp"@ || n == "msr"@ || n == "msp"@ {
        Ok(MaterialFamily::McpCpp)
    } else if starts_with(n, "mat"@) || starts_with(n, "pff"@) || starts_with(n, "pf"@)
        || close_spec(n, "mat"@) {
        Ok(MaterialFamily::FirstLayer)
    } else if starts_with(n, "pe"@) || close_spec(n, "pe"@) {
        Ok(MaterialFamily::Pe)
    } else if starts_with(n, "cpp"@) || starts_with(n, "mcp"@) || close_spec(n, "cpp"@)
        || close_spec(n, "mcp"@) {
        Ok(MaterialFamily::McpCpp)
    } else if starts_with(n, "jem"@) || close_spec(n, "jem"@) {
        Ok(MaterialFamily::Jem)
    } else {
        Err("noma'lum material: '"@ + material + "'"@)
    }
}

pub fn material_family(material: &str) -> (r: Result<MaterialFamily, String>)
    ensures
        match (r, family_spec(material@)) {
            (Ok(f), Ok(g)) => f == g,
            (Err(e), Err(m)) => e@ == m,
            _ => false,
        },
{
    let v = chars_of(material);
    let n = normalize_chars(&v);
    proof {
        reveal_strlit("pet");
        reveal_strlit("opp");
        reveal_strlit("popp");
        reveal_strlit("mat");
        reveal_strlit("pe");
        reveal_strlit("cpp");
        reveal_strlit("mcp");
        reveal_strlit("jem");
    }
    if eq_str(&n, "--") || n.len() == 0 {
        Ok(MaterialFamily::Empty)
    } else if eq_str(&n, "-") || eq_str(&n, "yoq") || eq_str(&n, "yuq") || eq_str(&n, "none")
        || eq_str(&n, "null") {
        Ok(MaterialFamily::Empty)
    } else if starts_with_str(&n, "twis") || starts_with_str(&n, "tuisim") || starts_with_str(
        &n,
        "tuism",
    ) || starts_with_str(&n, "tvis") {
        Ok(MaterialFamily::Twist)
    } else if starts_with_str(&n, "cpp") || starts_with_str(&n, "mcp") {
        Ok(MaterialFamily::McpCpp)
    } else if starts_with_str(&n, "pet") || starts_with_str(&n, "mpet") || close_to(&n, "pet") {
        Ok(MaterialFamily::FirstLayer)
    } else if starts_with_str(&n, "opp") || starts_with_str(&n, "popp") || eq_str(&n, "st01")
        || close_to(&n, "opp") || close_to(&n, "popp") {
        Ok(MaterialFamily::FirstLayer)
    } else if eq_str(&n, "map") || eq_str(&n, "mcpp") || eq_str(&n, "msr") || eq_str(&n, "msp") {
        Ok(MaterialFamily::McpCpp)
    } else if starts_with_str(&n, "mat") || starts_with_str(&n, "pff") || starts_with_str(&n, "pf")
        || close_to(&n, "mat") {
        Ok(MaterialFamily::FirstLayer)
    } else if starts_with_str(&n, "pe") || close_to(&n, "pe") {
        Ok(MaterialFamily::Pe)
    } else if starts_with_str(&n, "cpp") || starts_with_str(&n, "mcp") || close_to(&n, "cpp")
        || close_to(&n, "mcp") {
        Ok(MaterialFamily::McpCpp)
    } else if starts_with_str(&n, "jem") || close_to(&n, "jem") {
        Ok(MaterialFamily::Jem)
    } else {
        let mut e = chars_of("noma'lum material: '");
        append_all(&mut e, &v);
        append_str(&mut e, "'");
        Err(string_of(&e))
    }
}

/// A layer that is left out: a blank name, `--`, `-`, `yoq` or `yuq`.
pub open spec fn is_empty_spec(material: Seq<char>) -> bool {
    let n = norm(material);
    n.len() == 0 || n == "--"@ || n == "-"@ || n == "yoq"@ || n == "yuq"@
}

pub fn is_empty_material(material: &str) -> (r: bool)
    ensures
        r == is_empty_spec(material@),
{
    let v = chars_of(material);
    let n = normalize_chars(&v);
    n.len() == 0 || eq_str(&n, "--") || eq_str(&n, "-") || eq_str(&n, "yoq") || eq_str(&n, "yuq")
}

/// The materials of a layer cell such as `oppm/pe pr`, trimmed, the blank
/// ones left out.
pub fn split_materials(material: &str) -> (r: Vec<String>)
    ensures
        r@.map_values(|s: String| s@) == split_parts_spec(material@),
{
    let v = chars_of(material);
    let parts = split_parts(&v);
    let mut out: Vec<String> = Vec::new();
    let mut i: usize = 0;
    while i < parts.len()
        invariant
            i <= parts.len(),
            out@.map_values(|s: String| s@) == views(parts@).take(i as int),
        decreases parts.len() - i,
    {
        let ghost before = out@.map_values(|s: String| s@);
        let piece = string_of(&parts[i]);
        assert(piece@ == views(parts@)[i as int]);
        out.push(piece);
        assert(out@.map_values(|s: String| s@) =~= before.push(piece@));
        assert(views(parts@).take(i + 1) =~= views(parts@).take(i as int).push(views(parts@)[i as int]));
        i = i + 1;
    }
    assert(views(parts@).take(parts.len() as int) =~= views(parts@));
    out
}

// ---------------------------------------------------------------------------
// Microns
// ---------------------------------------------------------------------------

pub open spec fn micron_invalid_error(value: Seq<char>) -> Seq<char> {
    "micron qiymati noto'g'ri: '"@ + value + "'"@
}

pub open spec fn micron_whole_error(value: Seq<char>) -> Seq<char> {
    "micron butun raqam bo'lishi kerak: '"@ + value + "'"@
}

/// The microns of a cell such as `20/30`, or the error: a blank cell or `--`
/// is no micron, and every piece must be a whole number.
pub open spec fn micron_parts_spec(value: Seq<char>) -> Result<Seq<u32>, Seq<char>> {
    let t = trim(value);
    if t == "--"@ || t.len() == 0 {
        Err(micron_invalid_error(value))
    } else {
        match parse_all(split_char(t, '/')) {
            Some(l) => Ok(l),
            None => Err(micron_whole_error(value)),
        }
    }
}

fn quoted_error(prefix: &str, value: &str) -> (r: String)
    ensures
        r@ == prefix@ + value@ + "'"@,
{
    let mut e = chars_of(prefix);
    let v = chars_of(value);
    append_all(&mut e, &v);
    append_str(&mut e, "'");
    string_of(&e)
}

pub fn parse_micron_parts(value: &str) -> (r: Result<Vec<u32>, String>)
    ensures
        match (r, micron_parts_spec(value@)) {
            (Ok(a), Ok(b)) => a@ == b,
            (Err(a), Err(b)) => a@ == b,
            _ => false,
        },
{
    let v = chars_of(value);
    let t = trim_chars(&v);
    if eq_str(&t, "--") || t.len() == 0 {
        return Err(quoted_error("micron qiymati noto'g'ri: '", value));
    }
    match micron_parts(&v) {
        Some(p) => Ok(p),
        None => Err(quoted_error("micron butun raqam bo'lishi kerak: '", value)),
    }
}

/// The largest micron of a cell such as `18/20`.
pub open spec fn micron_spec(value: Seq<char>) -> Result<u32, Seq<char>> {
    match micron_parts_spec(value) {
        Ok(l) => Ok(seq_max(l)),
        Err(e) => Err(e),
    }
}

pub fn parse_micron(value: &str) -> (r: Result<u32, String>)
    ensures
        match (r, micron_spec(value@)) {
            (Ok(a), Ok(b)) => a == b,
            (Err(a), Err(b)) => a@ == b,
            _ => false,
        },
{
    let parts = parse_micron_parts(value)?;
    Ok(max_of(&parts))
}

// ---------------------------------------------------------------------------
// Coefficients
// ---------------------------------------------------------------------------

/// The coefficient that the tables give a family at a micron, in thousandths.
pub open spec fn table_value(f: MaterialFamily, m: u32) -> Option<u64> {
    match f {
        MaterialFamily::FirstLayer | MaterialFamily::McpCpp => interp(m, mcp_cpp_table()),
        MaterialFamily::Jem => interp(m, jem_table()),
        MaterialFamily::Pe => interp(m, pe_table()),
        MaterialFamily::Twist => Some(2000),
        MaterialFamily::Empty => None,
    }
}

pub open spec fn available(f: MaterialFamily) -> Seq<char> {
    match f {
        MaterialFamily::FirstLayer | MaterialFamily::McpCpp => "20, 25, 30, 35, 40, 45, 50, 60"@,
        MaterialFamily::Jem => "25, 30"@,
        MaterialFamily::Pe => "30, 35, 40, 45, 50, 55, 60, 65, 70, 75, 80, 85, 90"@,
        MaterialFamily::Twist => "twist/tuisim uchun mikron jadvali ishlatilmaydi"@,
        MaterialFamily::Empty => "bo'sh material"@,
    }
}

pub open spec fn coefficient_error_spec(material: Seq<char>, micron: u32, f: MaterialFamily) -> Seq<
    char,
> {
    "'"@ + material + "' materiali uchun "@ + nat_digits(micron as nat)
        + " mikron jadvalda topilmadi. Bu material oilasida bor mikronlar: "@ + available(f)
}

pub fn coefficient_error(material: &str, micron: u32, family: MaterialFamily) -> (r: String)
    ensures
        r@ == coefficient_error_spec(material@, micron, family),
{
    let mut e = chars_of("'");
    let m = chars_of(material);
    append_all(&mut e, &m);
    append_str(&mut e, "' materiali uchun ");
    let d = digits_of(micron as u128);
    append_all(&mut e, &d);
    append_str(&mut e, " mikron jadvalda topilmadi. Bu material oilasida bor mikronlar: ");
    match family {
        MaterialFamily::FirstLayer | MaterialFamily::McpCpp => append_str(
            &mut e,
            "20, 25, 30, 35, 40, 45, 50, 60",
        ),
        MaterialFamily::Jem => append_str(&mut e, "25, 30"),
        MaterialFamily::Pe => append_str(
            &mut e,
            "30, 35, 40, 45, 50, 55, 60, 65, 70, 75, 80, 85, 90",
        ),
        MaterialFamily::Twist => append_str(&mut e, "twist/tuisim uchun mikron jadvali ishlatilmaydi"),
        MaterialFamily::Empty => append_str(&mut e, "bo'sh material"),
    }
    string_of(&e)
}

/// The coefficient of one material at one micron, in thousandths: at most
/// 20 microns count as 1 in a first layer (but for twist) and for the
/// first-layer family, otherwise the family's table decides.
pub open spec fn coefficient_single_spec(material: Seq<char>, micron: u32, is_first: bool) -> Result<
    u64,
    Seq<char>,
> {
    match family_spec(material) {
        Err(e) => Err(e),
        Ok(f) => if is_first && f != MaterialFamily::Empty && f != MaterialFamily::Twist && micron
            <= 20 {
            Ok(1000)
        } else if f == MaterialFamily::FirstLayer && micron <= 20 {
            Ok(1000)
        } else {
            match table_value(f, micron) {
                Some(v) => Ok(v),
                None => Err(coefficient_error_spec(material, micron, f)),
            }
        },
    }
}

/// The coefficient of one material at one micron, in thousandths (1.07 is 1070).
pub fn coefficient_single(material: &str, micron: u32, is_first_layer: bool) -> (r: Result<
    u64,
    String,
>)
    ensures
        match (r, coefficient_single_spec(material@, micron, is_first_layer)) {
            (Ok(a), Ok(b)) => a == b,
            (Err(a), Err(b)) => a@ == b,
            _ => false,
        },
        r matches Ok(v) ==> v <= 1_000_000,
{
    let family = material_family(material)?;
    if is_first_layer && !matches!(family, MaterialFamily::Empty | MaterialFamily::Twist) && micron
        <= 20 {
        return Ok(1000);
    }
    if family == MaterialFamily::FirstLayer && micron <= 20 {
        return Ok(1000);
    }
    let value = match family {
        MaterialFamily::FirstLayer | MaterialFamily::McpCpp => mcp_cpp(micron),
        MaterialFamily::Jem => jem(micron),
        MaterialFamily::Pe => pe(micron),
        MaterialFamily::Twist => Some(2000),
        MaterialFamily::Empty => None,
    };
    proof {
        crate::coeff::lemma_tables_bounded(micron);
    }
    match value {
        Some(v) => Ok(v),
        None => Err(coefficient_error(material, micron, family)),
    }
}

/// The micron of a cell such as `18/20` is its largest piece: no piece is
/// larger, and one piece is it.
pub proof fn lemma_micron_is_largest_piece(value: Seq<char>)
    requires
        micron_spec(value) is Ok,
    ensures
        ({
            let pieces = micron_parts_spec(value)->Ok_0;
            let m = micron_spec(value)->Ok_0;
            &&& forall|i: int| 0 <= i < pieces.len() ==> pieces[i] <= m
            &&& exists|i: int| 0 <= i < pieces.len() && pieces[i] == m
        }),
{
    let t = trim(value);
    let pieces = micron_parts_spec(value)->Ok_0;
    crate::text::lemma_split_char_nonempty(t, '/');
    crate::materials::lemma_parse_all_len(split_char(t, '/'));
    crate::materials::lemma_seq_max(pieces);
}

/// A known material of a first layer, other than twist, counts as 1 at
/// 20 microns or less; the first-layer family (pet, opp, popp, mat and
/// their kin) counts as 1 there in any layer; twist counts as 2 at any
/// micron.
pub proof fn lemma_coefficient_rules(material: Seq<char>, micron: u32, is_first: bool)
    requires
        family_spec(material) is Ok,
    ensures
        ({
            let f = family_spec(material)->Ok_0;
            &&& (is_first && f != MaterialFamily::Empty && f != MaterialFamily::Twist && micron
                <= 20) ==> coefficient_single_spec(material, micron, is_first) == Ok::<
                u64,
                Seq<char>,
            >(1000)
            &&& (f == MaterialFamily::FirstLayer && micron <= 20) ==> coefficient_single_spec(
                material,
                micron,
                is_first,
            ) == Ok::<u64, Seq<char>>(1000)
            &&& f == MaterialFamily::Twist ==> coefficient_single_spec(material, micron, is_first)
                == Ok::<u64, Seq<char>>(2000)
        }),
{
}

/// The family of a material depends on its name only up to case, the white
/// space around it and the characters other than ASCII letters, digits and
/// `-` (`pe pr`, `PE PR` and ` Pe Pr ` are one family).
pub proof fn lemma_family_by_normalized_name(a: Seq<char>, b: Seq<char>)
    requires
        norm(a) == norm(b),
    ensures
        family_spec(a) is Ok <==> family_spec(b) is Ok,
        family_spec(a) is Ok ==> family_spec(a) == family_spec(b),
{
}


/// A material whose name begins with `cpp` or `mcp` (after trimming, case
/// and stray characters) is of the MCP/CPP family, whatever typo match the
/// rest of the name would also allow.
pub proof fn lemma_cpp_mcp_prefix_family(material: Seq<char>)
    requires
        starts_with(norm(material), "cpp"@) || starts_with(norm(material), "mcp"@),
    ensures
        family_spec(material) == Ok::<MaterialFamily, Seq<char>>(MaterialFamily::McpCpp),
{
    reveal_strlit("cpp");
    reveal_strlit("mcp");
    reveal_strlit("--");
    reveal_strlit("-");
    reveal_strlit("yoq");
    reveal_strlit("yuq");
    reveal_strlit("none");
    reveal_strlit("null");
    reveal_strlit("twis");
    reveal_strlit("tuisim");
    reveal_strlit("tuism");
    reveal_strlit("tvis");
    let n = norm(material);
    assert(n[0] == 'c' || n[0] == 'm') by {
        assert(n.subrange(0, 3)[0] == n[0]);
    }
    assert(n[1] == 'p' || n[1] == 'c') by {
        assert(n.subrange(0, 3)[1] == n[1]);
    }
    assert(!starts_with(n, "twis"@)) by {
        if starts_with(n, "twis"@) {
            assert(n.subrange(0, 4)[0] == n[0]);
        }
    }
    assert(!starts_with(n, "tuisim"@)) by {
        if starts_with(n, "tuisim"@) {
            assert(n.subrange(0, 6)[0] == n[0]);
        }
    }
    assert(!starts_with(n, "tuism"@)) by {
        if starts_with(n, "tuism"@) {
            assert(n.subrange(0, 5)[0] == n[0]);
        }
    }
    assert(!starts_with(n, "tvis"@)) by {
        if starts_with(n, "tvis"@) {
            assert(n.subrange(0, 4)[0] == n[0]);
        }
    }
    assert(n != "--"@ && n != "-"@ && n != "yoq"@ && n != "yuq"@ && n != "none"@ && n != "null"@) by {
        if n == "--"@ || n == "-"@ || n == "yoq"@ || n == "yuq"@ || n == "none"@ || n == "null"@ {
            assert(n.len() >= 3);
        }
    }
}


/// A micron cell is read as its `/`-separated pieces, each trimmed and read
/// as a whole number. It is refused exactly when the trimmed cell is blank
/// or `--`, or when a piece is not a whole number; otherwise every piece
/// gives its number, in order, and the micron (`parse_micron`) is the
/// largest of them.
pub proof fn lemma_micron_cell_rule(s: Seq<char>)
    ensures
        ({
            let t = trim(s);
            let parts = split_char(t, '/');
            &&& micron_parts_spec(s) is Err <==> (t.len() == 0 || t == "--"@ || exists|i: int|
                0 <= i < parts.len() && crate::text::parse_u32(trim(#[trigger] parts[i])) is None)
            &&& micron_parts_spec(s) matches Ok(v) ==> (v.len() == parts.len() && v.len() >= 1
                && (forall|i: int|
                0 <= i < parts.len() ==> crate::text::parse_u32(trim(#[trigger] parts[i])) == Some(
                    v[i],
                )) && micron_spec(s) == Ok::<u32, Seq<char>>(seq_max(v)) && (forall|i: int|
                0 <= i < v.len() ==> #[trigger] v[i] <= seq_max(v)) && (exists|i: int|
                0 <= i < v.len() && v[i] == seq_max(v)))
        }),
{
    let t = trim(s);
    let parts = split_char(t, '/');
    crate::text::lemma_split_char_nonempty(t, '/');
    crate::materials::lemma_parse_all_each(parts);
    if let Ok(v) = micron_parts_spec(s) {
        crate::materials::lemma_seq_max(v);
    }
}


/// A material whose normalised name begins with `twis`, `tuisim`, `tuism` or
/// `tvis` is twist, and counts as 2 (2000 thousandths) at any micron, in any
/// layer.
pub proof fn lemma_twist_prefix_family(material: Seq<char>, micron: u32, is_first: bool)
    requires
        starts_with(norm(material), "twis"@) || starts_with(norm(material), "tuisim"@)
            || starts_with(norm(material), "tuism"@) || starts_with(norm(material), "tvis"@),
    ensures
        family_spec(material) == Ok::<MaterialFamily, Seq<char>>(MaterialFamily::Twist),
        coefficient_single_spec(material, micron, is_first) == Ok::<u64, Seq<char>>(2000),
{
    reveal_strlit("twis");
    reveal_strlit("tuisim");
    reveal_strlit("tuism");
    reveal_strlit("tvis");
    reveal_strlit("--");
    reveal_strlit("-");
    reveal_strlit("yoq");
    reveal_strlit("yuq");
    reveal_strlit("none");
    reveal_strlit("null");
    let n = norm(material);
    assert(n.len() >= 4);
    assert(n[0] == 't') by {
        if starts_with(n, "twis"@) {
            assert(n.subrange(0, 4)[0] == n[0]);
        } else if starts_with(n, "tuisim"@) {
            assert(n.subrange(0, 6)[0] == n[0]);
        } else if starts_with(n, "tuism"@) {
            assert(n.subrange(0, 5)[0] == n[0]);
        } else {
            assert(n.subrange(0, 4)[0] == n[0]);
        }
    }
    assert(n != "--"@ && n != "-"@ && n != "yoq"@ && n != "yuq"@ && n != "none"@ && n != "null"@) by {
        if n == "none"@ || n == "null"@ {
            assert(n[0] == 'n');
        }
    }
}


/// A material whose normalised name begins with `pet` or `mpet` is of the
/// first-layer family, and counts as 1 (1000 thousandths) at 20 microns or
/// less, in any layer.
pub proof fn lemma_pet_prefix_family(material: Seq<char>, micron: u32, is_first: bool)
    requires
        starts_with(norm(material), "pet"@) || starts_with(norm(material), "mpet"@),
    ensures
        family_spec(material) == Ok::<MaterialFamily, Seq<char>>(MaterialFamily::FirstLayer),
        micron <= 20 ==> coefficient_single_spec(material, micron, is_first) == Ok::<u64, Seq<char>>(
            1000,
        ),
{
    reveal_strlit("pet");
    reveal_strlit("mpet");
    reveal_strlit("twis");
    reveal_strlit("tuisim");
    reveal_strlit("cpp");
    reveal_strlit("mcp");
    reveal_strlit("tuism");
    reveal_strlit("tvis");
    reveal_strlit("none");
    reveal_strlit("null");
    reveal_strlit("--");
    reveal_strlit("-");
    reveal_strlit("yoq");
    reveal_strlit("yuq");
    let n = norm(material);
    assert(n.len() >= 3);
    if starts_with(n, "pet"@) {
        assert(n.subrange(0, 3)[0] == n[0]);
        assert(n[0] == 'p');
    } else {
        assert(n.subrange(0, 4)[0] == n[0]);
        assert(n.subrange(0, 4)[1] == n[1]);
        assert(n[0] == 'm' && n[1] == 'p');
    }
    assert(!starts_with(n, "twis"@)) by {
        if starts_with(n, "twis"@) {
            assert(n.subrange(0, 4)[0] == n[0]);
        }
    }
    assert(!starts_with(n, "tuisim"@)) by {
        if starts_with(n, "tuisim"@) {
            assert(n.subrange(0, 6)[0] == n[0]);
        }
    }
    assert(!starts_with(n, "cpp"@)) by {
        if starts_with(n, "cpp"@) {
            assert(n.subrange(0, 3)[0] == n[0]);
        }
    }
    assert(!starts_with(n, "mcp"@)) by {
        if starts_with(n, "mcp"@) {
            assert(n.subrange(0, 3)[1] == n[1]);
        }
    }
    assert(!starts_with(n, "tuism"@)) by {
        if starts_with(n, "tuism"@) {
            assert(n.subrange(0, 5)[0] == n[0]);
        }
    }
    assert(!starts_with(n, "tvis"@)) by {
        if starts_with(n, "tvis"@) {
            assert(n.subrange(0, 4)[0] == n[0]);
        }
    }
    assert(n != "--"@ && n != "-"@ && n != "yoq"@ && n != "yuq"@ && n != "none"@ && n != "null"@) by {
        if n == "--"@ || n == "-"@ || n == "yoq"@ || n == "yuq"@ || n == "none"@ || n == "null"@ {
            assert(n.len() >= 3);
            assert(n[0] == 'y' || n[0] == 'n' || n[0] == '-');
        }
    }
}

} // verus!
