//! The terminal calculator's conversation: the questions it asks one by one,
//! what each answer does, and the table of demonstration rows. Reading and
//! printing lines is left to the caller.
use vstd::prelude::*;

use crate::cli_args::CalculationView;
use crate::cli_calc::{
    calculate, formula, merge_optional_third_layer, merge_spec, Calculation, Layer, Number,
    ResultBreakdown,
};
use crate::cli_materials::{is_empty_material, is_empty_spec, micron_spec, parse_micron};
use crate::cli_table::{format_length, length_text, parse_decimal, parse_decimal_spec};
use crate::text::{
    append_all, append_str, chars_of, digits_of, eq_str, lower, lower_seq, nat_digits, owned,
    string_of, trim, trim_str,
};

verus! {

/// The question the calculator is waiting on.
#[derive(Debug, Clone, Copy, PartialEq, Eq, Structural)]
pub enum Prompt {
    Kg,
    Razmer,
    FirstMaterial,
    FirstMicron,
    SecondMaterial,
    SecondMicron,
    ThirdMaterial,
    ThirdMicron,
    Waste,
    Round,
}

/// The name of a question, as it is used in its error messages.
pub open spec fn label_spec(p: Prompt) -> Seq<char> {
    match p {
        Prompt::Kg => "Mahsulot og'irligi, kg (q = chiqish)"@,
        Prompt::Razmer => "Razmer, mm"@,
        Prompt::FirstMaterial => "1-qavat material"@,
        Prompt::FirstMicron => "1-qavat mikron"@,
        Prompt::SecondMaterial => "2-qavat material (bo'sh bo'lsa skip)"@,
        Prompt::SecondMicron => "2-qavat mikron"@,
        Prompt::ThirdMaterial => "3-qavat material (bo'sh bo'lsa skip)"@,
        Prompt::ThirdMicron => "3-qavat mikron"@,
        Prompt::Waste => "Atxod foizi"@,
        Prompt::Round => "Yaxlitlash"@,
    }
}

/// The text shown before an answer: the name, with the default where there is one.
pub open spec fn question_spec(p: Prompt) -> Seq<char> {
    match p {
        Prompt::Waste => "Atxod foizi [5]"@,
        Prompt::Round => "Yaxlitlash [500]"@,
        _ => label_spec(p),
    }
}

impl Prompt {
    pub fn label(self) -> (r: &'static str)
        ensures
            r@ == label_spec(self),
    {
        match self {
            Prompt::Kg => "Mahsulot og'irligi, kg (q = chiqish)",
            Prompt::Razmer => "Razmer, mm",
            Prompt::FirstMaterial => "1-qavat material",
            Prompt::FirstMicron => "1-qavat mikron",
            Prompt::SecondMaterial => "2-qavat material (bo'sh bo'lsa skip)",
            Prompt::SecondMicron => "2-qavat mikron",
            Prompt::ThirdMaterial => "3-qavat material (bo'sh bo'lsa skip)",
            Prompt::ThirdMicron => "3-qavat mikron",
            Prompt::Waste => "Atxod foizi",
            Prompt::Round => "Yaxlitlash",
        }
    }

    pub fn question(self) -> (r: &'static str)
        ensures
            r@ == question_spec(self),
    {
        match self {
            Prompt::Waste => "Atxod foizi [5]",
            Prompt::Round => "Yaxlitlash [500]",
            _ => self.label(),
        }
    }
}

/// The answers given so far in one calculation.
#[derive(Debug)]
pub struct Interactive {
    pub prompt: Prompt,
    pub kg: Number,
    pub razmer_mm: Number,
    pub first_material: String,
    pub first_micron_text: String,
    pub second_material: String,
    pub second_micron_text: String,
    pub third_material: String,
    pub third_micron_text: String,
    pub waste_percent: Number,
}

pub ghost struct SessionView {
    pub prompt: Prompt,
    pub kg: Number,
    pub razmer: Number,
    pub q1: Seq<char>,
    pub m1: Seq<char>,
    pub q2: Seq<char>,
    pub m2: Seq<char>,
    pub q3: Seq<char>,
    pub m3: Seq<char>,
    pub waste: Number,
}

impl Interactive {
    pub open spec fn view_of(&self) -> SessionView {
        SessionView {
            prompt: self.prompt,
            kg: self.kg,
            razmer: self.razmer_mm,
            q1: self.first_material@,
            m1: self.first_micron_text@,
            q2: self.second_material@,
            m2: self.second_micron_text@,
            q3: self.third_material@,
            m3: self.third_micron_text@,
            waste: self.waste_percent,
        }
    }

    /// Every number held is one that a `Decimal` holds exactly.
    pub open spec fn wf(&self) -> bool {
        self.kg.wf() && self.razmer_mm.wf() && self.waste_percent.wf()
    }
}

pub open spec fn initial_view() -> SessionView {
    SessionView {
        prompt: Prompt::Kg,
        kg: Number::whole_spec(0),
        razmer: Number::whole_spec(0),
        q1: Seq::empty(),
        m1: Seq::empty(),
        q2: Seq::empty(),
        m2: Seq::empty(),
        q3: Seq::empty(),
        m3: Seq::empty(),
        waste: Number::whole_spec(5),
    }
}

impl Interactive {
    /// A calculation that waits for its weight.
    pub fn new() -> (r: Interactive)
        ensures
            r.view_of() == initial_view(),
            r.wf(),
    {
        Interactive {
            prompt: Prompt::Kg,
            kg: Number::whole(0),
            razmer_mm: Number::whole(0),
            first_material: String::new(),
            first_micron_text: String::new(),
            second_material: String::new(),
            second_micron_text: String::new(),
            third_material: String::new(),
            third_micron_text: String::new(),
            waste_percent: Number::whole(5),
        }
    }
}

/// What the caller does after an answer.
#[derive(Debug)]
pub enum Reply {
    /// Ask the (new) current question.
    Ask,
    /// Print the message and ask the same question again.
    Retry(String),
    /// Print `Chiqildi.` and stop.
    Quit,
    /// Print the result of the calculation (or `Xato: ` and its error) and
    /// start a new one.
    Calculated(Calculation, Result<ResultBreakdown, String>),
    /// Stop with the error.
    Failed(String),
}

pub ghost enum ReplyView {
    Ask,
    Retry(Seq<char>),
    Quit,
    Calculated(CalculationView, Result<ResultBreakdown, Seq<char>>),
    Failed(Seq<char>),
}

pub open spec fn reply_view(r: Reply) -> ReplyView {
    match r {
        Reply::Ask => ReplyView::Ask,
        Reply::Retry(m) => ReplyView::Retry(m@),
        Reply::Quit => ReplyView::Quit,
        Reply::Calculated(c, res) => ReplyView::Calculated(
            crate::cli_args::calculation_view(c),
            match res {
                Ok(b) => Ok(b),
                Err(e) => Err(e@),
            },
        ),
        Reply::Failed(e) => ReplyView::Failed(e@),
    }
}

pub open spec fn empty_answer(p: Prompt) -> Seq<char> {
    label_spec(p) + " bo'sh bo'lmasligi kerak."@
}

/// A positive number, or what is wrong with the answer.
pub open spec fn decimal_answer(p: Prompt, t: Seq<char>) -> Result<Number, Seq<char>> {
    match parse_decimal_spec(t) {
        Ok(n) => if n.positive() {
            Ok(n)
        } else {
            Err(label_spec(p) + " 0 dan katta bo'lishi kerak."@)
        },
        Err(m) => Err(m),
    }
}

pub open spec fn is_quit(t: Seq<char>) -> bool {
    let l = lower_seq(t);
    l == "q"@ || l == "quit"@ || l == "exit"@
}

/// The end of a calculation: the layers are merged, the second micron read
/// and the formula applied.
pub open spec fn finish_spec(s: SessionView, round: Number) -> ReplyView {
    match merge_spec(s.q2, s.m2, s.q3, s.m3) {
        Err(e) => ReplyView::Failed(e),
        Ok((q2, m2)) => match (if is_empty_spec(q2) {
            Ok(0u32)
        } else {
            micron_spec(m2)
        }) {
            Err(e) => ReplyView::Failed(e),
            Ok(b) => match micron_spec(s.m1) {
                Err(e) => ReplyView::Failed(e),
                Ok(a) => {
                    let view = (s.kg, s.razmer, (s.q1, s.m1, a), (q2, m2, b), s.waste, round);
                    ReplyView::Calculated(
                        view,
                        formula(view.0, view.1, view.2, view.3, view.4, view.5),
                    )
                },
            },
        },
    }
}

/// What an answer (a line as typed) does: the state after it and the reply.
pub open spec fn answer_spec(s: SessionView, line: Seq<char>) -> (SessionView, ReplyView) {
    let t = trim(line);
    match s.prompt {
        Prompt::Kg => if is_quit(t) {
            (s, ReplyView::Quit)
        } else if t.len() == 0 {
            (s, ReplyView::Retry(empty_answer(s.prompt)))
        } else {
            match decimal_answer(s.prompt, t) {
                Ok(n) => (SessionView { prompt: Prompt::Razmer, kg: n, ..s }, ReplyView::Ask),
                Err(m) => (s, ReplyView::Retry(m)),
            }
        },
        Prompt::Razmer => if t.len() == 0 {
            (s, ReplyView::Retry(empty_answer(s.prompt)))
        } else {
            match decimal_answer(s.prompt, t) {
                Ok(n) => (
                    SessionView { prompt: Prompt::FirstMaterial, razmer: n, ..s },
                    ReplyView::Ask,
                ),
                Err(m) => (s, ReplyView::Retry(m)),
            }
        },
        Prompt::FirstMaterial => if t.len() == 0 {
            (s, ReplyView::Retry(empty_answer(s.prompt)))
        } else {
            (SessionView { prompt: Prompt::FirstMicron, q1: t, ..s }, ReplyView::Ask)
        },
        Prompt::FirstMicron => if t.len() == 0 {
            (s, ReplyView::Retry(empty_answer(s.prompt)))
        } else {
            match micron_spec(t) {
                Ok(_) => (SessionView { prompt: Prompt::SecondMaterial, m1: t, ..s }, ReplyView::Ask),
                Err(m) => (s, ReplyView::Retry(m)),
            }
        },
        Prompt::SecondMaterial => if t.len() == 0 {
            (
                SessionView { prompt: Prompt::ThirdMaterial, q2: t, m2: "--"@, ..s },
                ReplyView::Ask,
            )
        } else {
            (SessionView { prompt: Prompt::SecondMicron, q2: t, ..s }, ReplyView::Ask)
        },
        Prompt::SecondMicron => if t.len() == 0 {
            (s, ReplyView::Retry(empty_answer(s.prompt)))
        } else {
            match micron_spec(t) {
                Ok(_) => (SessionView { prompt: Prompt::ThirdMaterial, m2: t, ..s }, ReplyView::Ask),
                Err(m) => (s, ReplyView::Retry(m)),
            }
        },
        Prompt::ThirdMaterial => if t.len() == 0 {
            (
                SessionView { prompt: Prompt::Waste, q3: t, m3: Seq::empty(), ..s },
                ReplyView::Ask,
            )
        } else {
            (SessionView { prompt: Prompt::ThirdMicron, q3: t, ..s }, ReplyView::Ask)
        },
        Prompt::ThirdMicron => if t.len() == 0 {
            (s, ReplyView::Retry(empty_answer(s.prompt)))
        } else {
            match micron_spec(t) {
                Ok(_) => (SessionView { prompt: Prompt::Waste, m3: t, ..s }, ReplyView::Ask),
                Err(m) => (s, ReplyView::Retry(m)),
            }
        },
        Prompt::Waste => if t.len() == 0 {
            (
                SessionView { prompt: Prompt::Round, waste: Number::whole_spec(5), ..s },
                ReplyView::Ask,
            )
        } else {
            match decimal_answer(s.prompt, t) {
                Ok(n) => (SessionView { prompt: Prompt::Round, waste: n, ..s }, ReplyView::Ask),
                Err(m) => (s, ReplyView::Retry(m)),
            }
        },
        Prompt::Round => {
            let round = if t.len() == 0 {
                Ok(Number::whole_spec(500))
            } else {
                decimal_answer(s.prompt, t)
            };
            match round {
                Err(m) => (s, ReplyView::Retry(m)),
                Ok(q) => {
                    let r = finish_spec(s, q);
                    if r is Calculated {
                        (initial_view(), r)
                    } else {
                        (s, r)
                    }
                },
            }
        },
    }
}

fn empty_message(p: Prompt) -> (r: String)
    ensures
        r@ == empty_answer(p),
{
    let mut v = chars_of(p.label());
    append_str(&mut v, " bo'sh bo'lmasligi kerak.");
    string_of(&v)
}

fn read_positive(p: Prompt, t: &str) -> (r: Result<Number, String>)
    ensures
        match (r, decimal_answer(p, t@)) {
            (Ok(a), Ok(b)) => a == b && a.wf(),
            (Err(a), Err(b)) => a@ == b,
            _ => false,
        },
{
    let n = parse_decimal(t)?;
    if n.is_positive() {
        Ok(n)
    } else {
        let mut v = chars_of(p.label());
        append_str(&mut v, " 0 dan katta bo'lishi kerak.");
        Err(string_of(&v))
    }
}

fn is_quit_exec(t: &Vec<char>) -> (r: bool)
    ensures
        r == is_quit(t@),
{
    let l = lower(t);
    eq_str(&l, "q") || eq_str(&l, "quit") || eq_str(&l, "exit")
}

fn clone_string(s: &String) -> (r: String)
    ensures
        r@ == s@,
{
    let v = chars_of(s.as_str());
    string_of(&v)
}

impl Interactive {
    fn reset(&mut self)
        ensures
            final(self).view_of() == initial_view(),
            final(self).wf(),
    {
        *self = Interactive::new();
    }

    /// The end of a calculation, once the rounding step is known.
    fn finish(&mut self, round_to: Number) -> (r: Reply)
        requires
            old(self).wf(),
            round_to.wf(),
        ensures
            reply_view(r) == finish_spec(old(self).view_of(), round_to),
            final(self).wf(),
            reply_view(r) is Calculated ==> final(self).view_of() == initial_view(),
            !(reply_view(r) is Calculated) ==> final(self).view_of() == old(self).view_of(),
    {
        let merged = merge_optional_third_layer(
            clone_string(&self.second_material),
            clone_string(&self.second_micron_text),
            clone_string(&self.third_material),
            clone_string(&self.third_micron_text),
        );
        let (second_material, second_micron_text) = match merged {
            Ok(p) => p,
            Err(e) => {
                return Reply::Failed(e);
            },
        };
        let second_micron = if is_empty_material(second_material.as_str()) {
            0
        } else {
            match parse_micron(second_micron_text.as_str()) {
                Ok(m) => m,
                Err(e) => {
                    return Reply::Failed(e);
                },
            }
        };
        let first_micron = match parse_micron(self.first_micron_text.as_str()) {
            Ok(m) => m,
            Err(e) => {
                return Reply::Failed(e);
            },
        };
        let calculation = Calculation {
            kg: self.kg,
            razmer_mm: self.razmer_mm,
            first_layer: Layer {
                material: clone_string(&self.first_material),
                micron_text: clone_string(&self.first_micron_text),
                micron: first_micron,
            },
            second_layer: Layer {
                material: second_material,
                micron_text: second_micron_text,
                micron: second_micron,
            },
            waste_percent: self.waste_percent,
            round_to,
        };
        let result = calculate(&calculation);
        self.reset();
        Reply::Calculated(calculation, result)
    }

    /// Takes the answer to the current question.
    #[verifier::rlimit(60)]
    pub fn answer(&mut self, line: &str) -> (r: Reply)
        requires
            old(self).wf(),
        ensures
            ({
                let (s, reply) = answer_spec(old(self).view_of(), line@);
                final(self).view_of() == s && reply_view(r) == reply
            }),
            final(self).wf(),
    {
        let tv = trim_str(line);
        let t = string_of(&tv);
        let empty = tv.len() == 0;
        match self.prompt {
            Prompt::Kg => {
                if is_quit_exec(&tv) {
                    return Reply::Quit;
                }
                if empty {
                    return Reply::Retry(empty_message(self.prompt));
                }
                match read_positive(self.prompt, t.as_str()) {
                    Ok(n) => {
                        self.kg = n;
                        self.prompt = Prompt::Razmer;
                        Reply::Ask
                    },
                    Err(m) => Reply::Retry(m),
                }
            },
            Prompt::Razmer => {
                if empty {
                    return Reply::Retry(empty_message(self.prompt));
                }
                match read_positive(self.prompt, t.as_str()) {
                    Ok(n) => {
                        self.razmer_mm = n;
                        self.prompt = Prompt::FirstMaterial;
                        Reply::Ask
                    },
                    Err(m) => Reply::Retry(m),
                }
            },
            Prompt::FirstMaterial => {
                if empty {
                    return Reply::Retry(empty_message(self.prompt));
                }
                self.first_material = t;
                self.prompt = Prompt::FirstMicron;
                Reply::Ask
            },
            Prompt::FirstMicron => {
                if empty {
                    return Reply::Retry(empty_message(self.prompt));
                }
                match parse_micron(t.as_str()) {
                    Ok(_) => {
                        self.first_micron_text = t;
                        self.prompt = Prompt::SecondMaterial;
                        Reply::Ask
                    },
                    Err(m) => Reply::Retry(m),
                }
            },
            Prompt::SecondMaterial => {
                if empty {
                    self.second_material = t;
                    self.second_micron_text = owned("--");
                    self.prompt = Prompt::ThirdMaterial;
                } else {
                    self.second_material = t;
                    self.prompt = Prompt::SecondMicron;
                }
                Reply::Ask
            },
            Prompt::SecondMicron => {
                if empty {
                    return Reply::Retry(empty_message(self.prompt));
                }
                match parse_micron(t.as_str()) {
                    Ok(_) => {
                        self.second_micron_text = t;
                        self.prompt = Prompt::ThirdMaterial;
                        Reply::Ask
                    },
                    Err(m) => Reply::Retry(m),
                }
            },
            Prompt::ThirdMaterial => {
                if empty {
                    self.third_material = t;
                    self.third_micron_text = String::new();
                    self.prompt = Prompt::Waste;
                } else {
                    self.third_material = t;
                    self.prompt = Prompt::ThirdMicron;
                }
                Reply::Ask
            },
            Prompt::ThirdMicron => {
                if empty {
                    return Reply::Retry(empty_message(self.prompt));
                }
                match parse_micron(t.as_str()) {
                    Ok(_) => {
                        self.third_micron_text = t;
                        self.prompt = Prompt::Waste;
                        Reply::Ask
                    },
                    Err(m) => Reply::Retry(m),
                }
            },
            Prompt::Waste => {
                if empty {
                    self.waste_percent = Number::whole(5);
                    self.prompt = Prompt::Round;
                    return Reply::Ask;
                }
                match read_positive(self.prompt, t.as_str()) {
                    Ok(n) => {
                        self.waste_percent = n;
                        self.prompt = Prompt::Round;
                        Reply::Ask
                    },
                    Err(m) => Reply::Retry(m),
                }
            },
            Prompt::Round => {
                let round_to = if empty {
                    Number::whole(500)
                } else {
                    match read_positive(self.prompt, t.as_str()) {
                        Ok(n) => n,
                        Err(m) => {
                            return Reply::Retry(m);
                        },
                    }
                };
                self.finish(round_to)
            },
        }
    }
}

// ---------------------------------------------------------------------------
// Demonstration rows
// ---------------------------------------------------------------------------

/// A demonstration row: code, kg, width, and the two layers.
pub type DemoRow = (Seq<char>, u32, u32, Seq<char>, Seq<char>, Seq<char>, Seq<char>);

pub open spec fn demo_header() -> Seq<char> {
    "KOD\tKG\tRAZMER\t1Q\t1M\t2Q\t2M\tUZUNLIK"@
}

/// The line of a demonstration row: its numbers and its rounded length, or
/// `XATO: ` and the first error.
pub open spec fn demo_line_spec(row: DemoRow) -> Seq<char> {
    let (code, kg, rz, q1, m1, q2, m2) = row;
    match micron_spec(m1) {
        Err(e) => code + "\tXATO: "@ + e,
        Ok(a) => match (if is_empty_spec(q2) {
            Ok(0u32)
        } else {
            micron_spec(m2)
        }) {
            Err(e) => code + "\tXATO: "@ + e,
            Ok(b) => match formula(
                Number::whole_spec(kg),
                Number::whole_spec(rz),
                (q1, m1, a),
                (q2, m2, b),
                Number::whole_spec(5),
                Number::whole_spec(500),
            ) {
                Ok(res) => code + "\t"@ + nat_digits(kg as nat) + "\t"@ + nat_digits(rz as nat)
                    + "\t"@ + q1 + "\t"@ + m1 + "\t"@ + q2 + "\t"@ + m2 + "\t"@ + length_text(
                    res.rounded_length,
                ),
                Err(e) => code + "\tXATO: "@ + e,
            },
        },
    }
}

fn error_line(code: &str, e: String) -> (r: String)
    ensures
        r@ == code@ + "\tXATO: "@ + e@,
{
    let mut v = chars_of(code);
    append_str(&mut v, "\tXATO: ");
    let ev = chars_of(e.as_str());
    append_all(&mut v, &ev);
    string_of(&v)
}

fn tab_then(v: &mut Vec<char>, s: &str)
    ensures
        final(v)@ == old(v)@ + "\t"@ + s@,
{
    append_str(v, "\t");
    append_str(v, s);
}

/// The line of one demonstration row.
pub fn demo_line(code: &str, kg: u32, razmer_mm: u32, q1: &str, m1: &str, q2: &str, m2: &str) -> (r: String)
    ensures
        r@ == demo_line_spec((code@, kg, razmer_mm, q1@, m1@, q2@, m2@)),
{
    let first_micron = match parse_micron(m1) {
        Ok(m) => m,
        Err(e) => {
            return error_line(code, e);
        },
    };
    let second_micron = if is_empty_material(q2) {
        0
    } else {
        match parse_micron(m2) {
            Ok(m) => m,
            Err(e) => {
                return error_line(code, e);
            },
        }
    };
    let calculation = Calculation {
        kg: Number::whole(kg),
        razmer_mm: Number::whole(razmer_mm),
        first_layer: Layer { material: owned(q1), micron_text: owned(m1), micron: first_micron },
        second_layer: Layer { material: owned(q2), micron_text: owned(m2), micron: second_micron },
        waste_percent: Number::whole(5),
        round_to: Number::whole(500),
    };
    match calculate(&calculation) {
        Ok(result) => {
            proof {
                crate::num::lemma_pow10_pos(0);
            }
            let mut v = chars_of(code);
            append_str(&mut v, "\t");
            let k = digits_of(kg as u128);
            append_all(&mut v, &k);
            append_str(&mut v, "\t");
            let r = digits_of(razmer_mm as u128);
            append_all(&mut v, &r);
            tab_then(&mut v, q1);
            tab_then(&mut v, m1);
            tab_then(&mut v, q2);
            tab_then(&mut v, m2);
            append_str(&mut v, "\t");
            let l = format_length(result.rounded_length);
            let lv = chars_of(l.as_str());
            append_all(&mut v, &lv);
            string_of(&v)
        },
        Err(e) => error_line(code, e),
    }
}

/// The demonstration table: a header line and the line of every row of the
/// workshop's sample order table.
pub fn demo_lines() -> (r: Vec<String>)
    ensures
        r.len() == 19,
        r@[0]@ == demo_header(),
        r@[1]@ == demo_line_spec(("1178"@, 300, 530, "pet"@, "12"@, "pe pr"@, "30"@)),
        r@[2]@ == demo_line_spec(("1179"@, 600, 715, "mat"@, "20"@, "pe oq"@, "55"@)),
        r@[3]@ == demo_line_spec(("1180"@, 600, 755, "mat"@, "20"@, "pe oq"@, "55"@)),
        r@[4]@ == demo_line_spec(("1181"@, 600, 595, "mat"@, "20"@, "pe oq"@, "55"@)),
        r@[5]@ == demo_line_spec(("1182"@, 600, 755, "mat"@, "20"@, "pe oq"@, "55"@)),
        r@[6]@ == demo_line_spec(("1183"@, 1500, 405, "mat"@, "20"@, "cpp"@, "45"@)),
        r@[7]@ == demo_line_spec(("1184"@, 1500, 405, "mat"@, "20"@, "cpp"@, "45"@)),
        r@[8]@ == demo_line_spec(("1185"@, 3000, 475, "tuisim"@, "23"@, "--"@, "--"@)),
        r@[9]@ == demo_line_spec(("1186"@, 3000, 1055, "opp"@, "18/20"@, "oppm"@, "25/30"@)),
        r@[10]@ == demo_line_spec(("1187"@, 3000, 585, "opp"@, "18"@, "oppm"@, "25/30"@)),
        r@[11]@ == demo_line_spec(("1188"@, 3000, 565, "opp"@, "18"@, "oppm"@, "20"@)),
        r@[12]@ == demo_line_spec(("1189"@, 2000, 565, "opp"@, "18"@, "oppm"@, "20"@)),
        r@[13]@ == demo_line_spec(("1190"@, 2000, 565, "opp"@, "18"@, "oppm"@, "20"@)),
        r@[14]@ == demo_line_spec(("1191"@, 300, 815, "pet"@, "12"@, "pe pr"@, "65"@)),
        r@[15]@ == demo_line_spec(("1192"@, 400, 815, "pet"@, "12"@, "pe pr"@, "65"@)),
        r@[16]@ == demo_line_spec(("1193"@, 1000, 975, "pet"@, "12"@, "cpp"@, "35"@)),
        r@[17]@ == demo_line_spec(("1194"@, 600, 765, "pet"@, "12"@, "cpp"@, "20"@)),
        r@[18]@ == demo_line_spec(("1207"@, 3000, 635, "pet"@, "12"@, "oppm/pe pr"@, "20/30"@)),
{
    let mut r: Vec<String> = Vec::new();
    r.push(owned("KOD\tKG\tRAZMER\t1Q\t1M\t2Q\t2M\tUZUNLIK"));
    r.push(demo_line("1178", 300, 530, "pet", "12", "pe pr", "30"));
    r.push(demo_line("1179", 600, 715, "mat", "20", "pe oq", "55"));
    r.push(demo_line("1180", 600, 755, "mat", "20", "pe oq", "55"));
    r.push(demo_line("1181", 600, 595, "mat", "20", "pe oq", "55"));
    r.push(demo_line("1182", 600, 755, "mat", "20", "pe oq", "55"));
    r.push(demo_line("1183", 1500, 405, "mat", "20", "cpp", "45"));
    r.push(demo_line("1184", 1500, 405, "mat", "20", "cpp", "45"));
    r.push(demo_line("1185", 3000, 475, "tuisim", "23", "--", "--"));
    r.push(demo_line("1186", 3000, 1055, "opp", "18/20", "oppm", "25/30"));
    r.push(demo_line("1187", 3000, 585, "opp", "18", "oppm", "25/30"));
    r.push(demo_line("1188", 3000, 565, "opp", "18", "oppm", "20"));
    r.push(demo_line("1189", 2000, 565, "opp", "18", "oppm", "20"));
    r.push(demo_line("1190", 2000, 565, "opp", "18", "oppm", "20"));
    r.push(demo_line("1191", 300, 815, "pet", "12", "pe pr", "65"));
    r.push(demo_line("1192", 400, 815, "pet", "12", "pe pr", "65"));
    r.push(demo_line("1193", 1000, 975, "pet", "12", "cpp", "35"));
    r.push(demo_line("1194", 600, 765, "pet", "12", "cpp", "20"));
    r.push(demo_line("1207", 3000, 635, "pet", "12", "oppm/pe pr", "20/30"));
    r
}

} // verus!
