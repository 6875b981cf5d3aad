//! One line of a KSM score log, parsed into a score record.
use vstd::prelude::*;
use crate::text::{
    all_digits, chars_of, copy_chars, digits_at_most, digits_value, lemma_split_first,
    lemma_split_nonempty, split_chars, split_spec, view_fields,
};

verus! {

/// A play's gauge percentage, kept as the text of a floating-point number
/// (`f64`'s grammar); the gauge is that number divided by 100.
#[derive(Clone, Debug)]
pub struct Gauge {
    pub percent: Vec<char>,
}

/// The number that floating-point text denotes.
pub enum FloatValue {
    /// `(-1)^negative * mantissa * 10^exp10`.
    Finite { negative: bool, mantissa: nat, exp10: int },
    Infinite { negative: bool },
    NaN,
}

/// One play attempt read from a score log.
#[derive(Clone, Debug)]
pub struct KsmScore {
    pub score: u32,
    pub crit: u32,
    pub near: u32,
    pub miss: u32,
    pub gauge: Gauge,
    pub badge: u32,
    pub hard: bool,
}

/// Why a score line was not importable.
#[derive(Clone, Copy, Debug, PartialEq, Eq, Structural)]
pub enum LineError {
    /// The line does not start with one of the two supported settings profiles.
    UnsupportedEntry,
    /// There is no `=` between settings and stats.
    MissingStats,
    /// The stats segment has fewer than four fields.
    MissingField,
    /// The score field is not an unsigned 32-bit number.
    InvalidScore,
    /// The gauge field is not a decimal number.
    InvalidGauge,
    /// The badge field is not an unsigned 32-bit number.
    InvalidBadge,
}

impl LineError {
    pub open spec fn message_spec(&self) -> Seq<char> {
        match self {
            LineError::UnsupportedEntry => "unsupported score entry"@,
            LineError::MissingStats => "missing stats segment"@,
            LineError::MissingField => "missing stats field"@,
            LineError::InvalidScore => "invalid score field"@,
            LineError::InvalidGauge => "invalid gauge field"@,
            LineError::InvalidBadge => "invalid badge field"@,
        }
    }

    /// The diagnostic text of this error.
    pub fn message(&self) -> (r: String)
        ensures
            r@ == self.message_spec(),
    {
        let s = match self {
            LineError::UnsupportedEntry => "unsupported score entry",
            LineError::MissingStats => "missing stats segment",
            LineError::MissingField => "missing stats field",
            LineError::InvalidScore => "invalid score field",
            LineError::InvalidGauge => "invalid gauge field",
            LineError::InvalidBadge => "invalid badge field",
        };
        String::from_str(s)
    }
}

pub open spec fn hard_profile() -> Seq<char> {
    seq!['h', 'a', 'r', 'd', ',', 'n', 'o', 'r', 'm', 'a', 'l', ',', 'n', 'o', 'r', 'm', 'a', 'l', ',', 'o', 'n', ',', 'o', 'n', ',', 'o', 'n']
}

pub open spec fn normal_profile() -> Seq<char> {
    seq!['n', 'o', 'r', 'm', 'a', 'l', ',', 'n', 'o', 'r', 'm', 'a', 'l', ',', 'n', 'o', 'r', 'm', 'a', 'l', ',', 'o', 'n', ',', 'o', 'n', ',', 'o', 'n']
}

pub open spec fn has_prefix(s: Seq<char>, p: Seq<char>) -> bool {
    p.len() <= s.len() && s.subrange(0, p.len() as int) == p
}

/// `s` without one leading `+`.
pub open spec fn unsigned_part(s: Seq<char>) -> Seq<char> {
    if s.len() > 0 && s[0] == '+' {
        s.drop_first()
    } else {
        s
    }
}

/// An unsigned 32-bit decimal field, as `u32`'s `parse` reads it.
pub open spec fn u32_field(s: Seq<char>) -> Option<u32> {
    let d = unsigned_part(s);
    if d.len() > 0 && all_digits(d) && digits_value(d) <= u32::MAX {
        Some(digits_value(d) as u32)
    } else {
        None
    }
}

/// `s` without one leading sign.
pub open spec fn unsigned_body(s: Seq<char>) -> Seq<char> {
    if s.len() > 0 && (s[0] == '+' || s[0] == '-') {
        s.drop_first()
    } else {
        s
    }
}

pub open spec fn sign_negative(s: Seq<char>) -> bool {
    s.len() > 0 && s[0] == '-'
}

/// Whether `s` is the word spelled by `lower` in any mix of ASCII case.
pub open spec fn is_word(s: Seq<char>, lower: Seq<char>, upper: Seq<char>) -> bool {
    &&& s.len() == lower.len()
    &&& forall|i: int| 0 <= i < s.len() ==> #[trigger] s[i] == lower[i] || s[i] == upper[i]
}

/// `s` with every `E` written `e`.
pub open spec fn lower_e(s: Seq<char>) -> Seq<char> {
    s.map_values(|c: char| if c == 'E' { 'e' } else { c })
}

/// Unsigned decimal text `digits[.digits][(e|E)[sign]digits]`, with at least
/// one mantissa digit, as `(mantissa, exp10)`.
pub open spec fn number_value(body: Seq<char>) -> Option<(nat, int)> {
    let halves = split_spec(lower_e(body), 'e');
    let has_exp = halves.len() == 2;
    let exp_text = if has_exp { halves[1] } else { Seq::<char>::empty() };
    let exp_digits = unsigned_body(exp_text);
    let parts = split_spec(halves[0], '.');
    let int_part = parts[0];
    let frac = if parts.len() == 2 { parts[1] } else { Seq::<char>::empty() };
    if halves.len() <= 2 && parts.len() <= 2 && int_part.len() + frac.len() > 0 && all_digits(
        int_part,
    ) && all_digits(frac) && (has_exp ==> exp_digits.len() > 0 && all_digits(exp_digits)) {
        let e: int = if !has_exp {
            0
        } else if sign_negative(exp_text) {
            -digits_value(exp_digits)
        } else {
            digits_value(exp_digits) as int
        };
        Some((digits_value(int_part + frac), e - frac.len()))
    } else {
        None
    }
}

/// What `f64`'s `from_str` reads: an optional sign, then `inf`, `infinity`
/// or `nan` in any case, or decimal text with an optional exponent.
pub open spec fn float_value(s: Seq<char>) -> Option<FloatValue> {
    let neg = sign_negative(s);
    let body = unsigned_body(s);
    if is_word(body, "inf"@, "INF"@) || is_word(body, "infinity"@, "INFINITY"@) {
        Some(FloatValue::Infinite { negative: neg })
    } else if is_word(body, "nan"@, "NAN"@) {
        Some(FloatValue::NaN)
    } else {
        match number_value(body) {
            Some((m, e)) => Some(FloatValue::Finite { negative: neg, mantissa: m, exp10: e }),
            None => None,
        }
    }
}

/// A number divided by 100.
pub open spec fn over_hundred(v: FloatValue) -> FloatValue {
    match v {
        FloatValue::Finite { negative, mantissa, exp10 } => FloatValue::Finite {
            negative,
            mantissa,
            exp10: exp10 - 2,
        },
        other => other,
    }
}

impl Gauge {
    /// The gauge: the percentage divided by 100.
    pub open spec fn value(&self) -> FloatValue {
        over_hundred(float_value(self.percent@)->Some_0)
    }
}

pub open spec fn miss_of(badge: u32) -> u32 {
    if badge > 1 { 0 } else { 1 }
}

/// What a score line means: `settings=score,badge,_,gauge,...`, where the
/// settings are one of the two supported profiles; on success the score,
/// the badge, the gauge percentage text and whether the gauge is hard.
pub open spec fn parse_line_spec(line: Seq<char>) -> Result<(u32, u32, Seq<char>, bool), LineError> {
    let parts = split_spec(line, '=');
    let stats = stats_of(line);
    if !(has_prefix(line, hard_profile()) || has_prefix(line, normal_profile())) {
        Err(LineError::UnsupportedEntry)
    } else if parts.len() < 2 {
        Err(LineError::MissingStats)
    } else if stats.len() < 4 {
        Err(LineError::MissingField)
    } else if u32_field(stats[0]).is_none() {
        Err(LineError::InvalidScore)
    } else if float_value(stats[3]).is_none() {
        Err(LineError::InvalidGauge)
    } else if u32_field(stats[1]).is_none() {
        Err(LineError::InvalidBadge)
    } else {
        Ok(
            (
                u32_field(stats[0])->Some_0,
                u32_field(stats[1])->Some_0,
                stats[3],
                has_prefix(line, hard_profile()),
            ),
        )
    }
}

/// `s` is what `line` parses to.
pub open spec fn parsed_as(line: Seq<char>, s: KsmScore) -> bool {
    &&& parse_line_spec(line) == Ok::<(u32, u32, Seq<char>, bool), LineError>(
        (s.score, s.badge, s.gauge.percent@, s.hard),
    )
    &&& s.crit == 0
    &&& s.near == 0
    &&& s.miss == miss_of(s.badge)
}

} // verus!

verus! {

fn profile_chars(hard: bool) -> (r: Vec<char>)
    ensures
        r@ == if hard { hard_profile() } else { normal_profile() },
{
    let r = if hard {
        vec!['h', 'a', 'r', 'd', ',', 'n', 'o', 'r', 'm', 'a', 'l', ',', 'n', 'o', 'r', 'm', 'a', 'l', ',', 'o', 'n', ',', 'o', 'n', ',', 'o', 'n']
    } else {
        vec!['n', 'o', 'r', 'm', 'a', 'l', ',', 'n', 'o', 'r', 'm', 'a', 'l', ',', 'n', 'o', 'r', 'm', 'a', 'l', ',', 'o', 'n', ',', 'o', 'n', ',', 'o', 'n']
    };
    assert(r@ =~= if hard { hard_profile() } else { normal_profile() });
    r
}

fn starts_with(s: &Vec<char>, p: &Vec<char>) -> (r: bool)
    ensures
        r == has_prefix(s@, p@),
{
    if p.len() > s.len() {
        return false;
    }
    let mut i: usize = 0;
    while i < p.len()
        invariant
            p@.len() <= s@.len(),
            i <= p@.len(),
            forall|j: int| 0 <= j < i ==> s@[j] == p@[j],
        decreases p@.len() - i,
    {
        if s[i] != p[i] {
            assert(s@.subrange(0, p@.len() as int)[i as int] != p@[i as int]);
            return false;
        }
        i = i + 1;
    }
    assert(s@.subrange(0, p@.len() as int) =~= p@);
    true
}

fn unsigned_of(f: &Vec<char>) -> (r: Vec<char>)
    ensures
        r@ == unsigned_part(f@),
{
    let lo: usize = if f.len() > 0 && f[0] == '+' { 1 } else { 0 };
    let mut r: Vec<char> = Vec::new();
    let mut i: usize = lo;
    while i < f.len()
        invariant
            lo <= i <= f@.len(),
            r@ == f@.subrange(lo as int, i as int),
        decreases f@.len() - i,
    {
        r.push(f[i]);
        i = i + 1;
    }
    assert(r@ =~= unsigned_part(f@));
    r
}

fn u32_of(f: &Vec<char>) -> (r: Option<u32>)
    ensures
        r == u32_field(f@),
{
    let d = unsigned_of(f);
    if d.len() == 0 {
        return None;
    }
    assert(d@.subrange(0, d@.len() as int) =~= d@);
    match digits_at_most(&d, 0, d.len(), u32::MAX as u64) {
        Some(v) => Some(v as u32),
        None => None,
    }
}

fn tail_from(v: &Vec<char>, lo: usize) -> (r: Vec<char>)
    requires
        lo <= v@.len(),
    ensures
        r@ == v@.subrange(lo as int, v@.len() as int),
{
    let mut r: Vec<char> = Vec::new();
    let mut i: usize = lo;
    while i < v.len()
        invariant
            lo <= i <= v@.len(),
            r@ == v@.subrange(lo as int, i as int),
        decreases v@.len() - i,
    {
        r.push(v[i]);
        i = i + 1;
    }
    r
}

fn all_digits_vec(v: &Vec<char>) -> (r: bool)
    ensures
        r == all_digits(v@),
{
    let mut i: usize = 0;
    while i < v.len()
        invariant
            i <= v@.len(),
            all_digits(v@.subrange(0, i as int)),
        decreases v@.len() - i,
    {
        let c = v[i];
        if !('0' <= c && c <= '9') {
            return false;
        }
        assert(v@.subrange(0, i as int + 1) =~= v@.subrange(0, i as int).push(c));
        i = i + 1;
    }
    assert(v@.subrange(0, v@.len() as int) =~= v@);
    true
}

fn is_word_vec(s: &Vec<char>, lower: &Vec<char>, upper: &Vec<char>) -> (r: bool)
    requires
        lower@.len() == upper@.len(),
    ensures
        r == is_word(s@, lower@, upper@),
{
    if s.len() != lower.len() {
        return false;
    }
    let mut i: usize = 0;
    while i < s.len()
        invariant
            s@.len() == lower@.len() == upper@.len(),
            i <= s@.len(),
            forall|j: int| 0 <= j < i ==> #[trigger] s@[j] == lower@[j] || s@[j] == upper@[j],
        decreases s@.len() - i,
    {
        if s[i] != lower[i] && s[i] != upper[i] {
            return false;
        }
        i = i + 1;
    }
    true
}

fn lower_e_vec(v: &Vec<char>) -> (r: Vec<char>)
    ensures
        r@ == lower_e(v@),
{
    let mut r: Vec<char> = Vec::new();
    let mut i: usize = 0;
    while i < v.len()
        invariant
            i <= v@.len(),
            r@ == lower_e(v@.subrange(0, i as int)),
        decreases v@.len() - i,
    {
        let c = v[i];
        r.push(if c == 'E' { 'e' } else { c });
        assert(lower_e(v@.subrange(0, i as int + 1)) =~= lower_e(v@.subrange(0, i as int)).push(
            if c == 'E' { 'e' } else { c },
        ));
        i = i + 1;
    }
    assert(v@.subrange(0, v@.len() as int) =~= v@);
    r
}

fn without_sign(v: &Vec<char>) -> (r: Vec<char>)
    ensures
        r@ == unsigned_body(v@),
{
    let lo: usize = if v.len() > 0 && (v[0] == '+' || v[0] == '-') { 1 } else { 0 };
    let r = tail_from(v, lo);
    assert(r@ =~= unsigned_body(v@));
    r
}

fn number_ok(body: &Vec<char>) -> (r: bool)
    ensures
        r == number_value(body@) is Some,
{
    let norm = lower_e_vec(body);
    let halves = split_chars(&norm, 'e');
    proof {
        lemma_split_nonempty(norm@, 'e');
        assert(view_fields(halves@)[0] == halves@[0]@);
    }
    if halves.len() > 2 {
        return false;
    }
    if halves.len() == 2 {
        assert(view_fields(halves@)[1] == halves@[1]@);
        let exp_digits = without_sign(&halves[1]);
        if exp_digits.len() == 0 || !all_digits_vec(&exp_digits) {
            return false;
        }
    }
    let parts = split_chars(&halves[0], '.');
    proof {
        lemma_split_nonempty(halves@[0]@, '.');
        assert(view_fields(parts@)[0] == parts@[0]@);
    }
    if parts.len() > 2 {
        return false;
    }
    if parts.len() == 2 {
        assert(view_fields(parts@)[1] == parts@[1]@);
        if parts[0].len() == 0 && parts[1].len() == 0 {
            return false;
        }
        all_digits_vec(&parts[0]) && all_digits_vec(&parts[1])
    } else {
        if parts[0].len() == 0 {
            return false;
        }
        all_digits_vec(&parts[0])
    }
}

/// Whether `f` is text that `f64`'s `from_str` accepts.
fn is_float_text(f: &Vec<char>) -> (r: bool)
    ensures
        r == float_value(f@) is Some,
{
    let body = without_sign(f);
    let inf_l = vec!['i', 'n', 'f'];
    let inf_u = vec!['I', 'N', 'F'];
    let infinity_l = vec!['i', 'n', 'f', 'i', 'n', 'i', 't', 'y'];
    let infinity_u = vec!['I', 'N', 'F', 'I', 'N', 'I', 'T', 'Y'];
    let nan_l = vec!['n', 'a', 'n'];
    let nan_u = vec!['N', 'A', 'N'];
    proof {
        reveal_strlit("inf");
        reveal_strlit("INF");
        reveal_strlit("infinity");
        reveal_strlit("INFINITY");
        reveal_strlit("nan");
        reveal_strlit("NAN");
        assert(inf_l@ =~= "inf"@);
        assert(inf_u@ =~= "INF"@);
        assert(infinity_l@ =~= "infinity"@);
        assert(infinity_u@ =~= "INFINITY"@);
        assert(nan_l@ =~= "nan"@);
        assert(nan_u@ =~= "NAN"@);
    }
    if is_word_vec(&body, &inf_l, &inf_u) || is_word_vec(&body, &infinity_l, &infinity_u)
        || is_word_vec(&body, &nan_l, &nan_u) {
        return true;
    }
    number_ok(&body)
}

impl KsmScore {
    /// Parses one line of a score log.
    pub fn from_str(score_line: &str) -> (r: Result<KsmScore, LineError>)
        ensures
            match r {
                Ok(s) => parsed_as(score_line@, s),
                Err(e) => parse_line_spec(score_line@) == Err::<(u32, u32, Seq<char>, bool), LineError>(e),
            },
    {
        let line = chars_of(score_line);
        let hard_p = profile_chars(true);
        let normal_p = profile_chars(false);
        let hard = starts_with(&line, &hard_p);
        if !hard && !starts_with(&line, &normal_p) {
            return Err(LineError::UnsupportedEntry);
        }
        let parts = split_chars(&line, '=');
        if parts.len() < 2 {
            return Err(LineError::MissingStats);
        }
        proof {
            lemma_split_first(line@, '=');
            assert(view_fields(parts@).len() == parts@.len());
            assert(view_fields(parts@)[0] == parts@[0]@);
            assert(parts@[0]@.len() < line@.len());
        }
        let rest = tail_from(&line, parts[0].len() + 1);
        let stats = split_chars(&rest, ',');
        if stats.len() < 4 {
            return Err(LineError::MissingField);
        }
        assert(view_fields(stats@)[0] == stats@[0]@);
        assert(view_fields(stats@)[1] == stats@[1]@);
        assert(view_fields(stats@)[3] == stats@[3]@);
        let score = match u32_of(&stats[0]) {
            Some(v) => v,
            None => {
                return Err(LineError::InvalidScore);
            },
        };
        if !is_float_text(&stats[3]) {
            return Err(LineError::InvalidGauge);
        }
        let gauge = Gauge { percent: copy_chars(&stats[3]) };
        let badge = match u32_of(&stats[1]) {
            Some(v) => v,
            None => {
                return Err(LineError::InvalidBadge);
            },
        };
        let miss: u32 = if badge > 1 { 0 } else { 1 };
        Ok(KsmScore { score, crit: 0, near: 0, miss, gauge, badge, hard })
    }
}

} // verus!

verus! {

/// All of a line after its first `=` (the line is split once).
pub open spec fn stats_segment(line: Seq<char>) -> Seq<char> {
    line.subrange(split_spec(line, '=')[0].len() as int + 1, line.len() as int)
}

/// The stats fields of a line: all after the first `=`, split at `,`.
pub open spec fn stats_of(line: Seq<char>) -> Seq<Seq<char>> {
    split_spec(stats_segment(line), ',')
}

/// Every line in a supported profile that parses carries, as its gauge, the
/// fourth stats field divided by 100, and misses exactly when its badge is at
/// most 1.
pub proof fn lemma_parsed_gauge_and_miss(line: Seq<char>, s: KsmScore)
    requires
        has_prefix(line, hard_profile()) || has_prefix(line, normal_profile()),
        parsed_as(line, s),
    ensures
        float_value(stats_of(line)[3]) is Some,
        s.gauge.value() == over_hundred(float_value(stats_of(line)[3])->Some_0),
        s.badge == u32_field(stats_of(line)[1])->Some_0,
        s.miss == (if s.badge > 1 { 0u32 } else { 1u32 }),
{
}

/// A line in neither supported profile is rejected, whatever follows.
pub proof fn lemma_unsupported_line_rejected(line: Seq<char>)
    requires
        !has_prefix(line, hard_profile()),
        !has_prefix(line, normal_profile()),
    ensures
        parse_line_spec(line) == Err::<(u32, u32, Seq<char>, bool), LineError>(
            LineError::UnsupportedEntry,
        ),
{
}

} // verus!
