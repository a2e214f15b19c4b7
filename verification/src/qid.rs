//! Cue numbers: decimal fractions, equal where their values are.

use vstd::prelude::*;

use crate::text::{decimal, digit_char};

verus! {

/// The largest magnitude of a cue number's digits.
pub const MAX_DIGITS: i128 = 79228162514264337593543950335;

/// The most digits a cue number has behind its point.
pub const MAX_SCALE: u32 = 28;

/// Ten to the power of `n`.
pub open spec fn ten(n: nat) -> nat
    decreases n,
{
    if n == 0 {
        1
    } else {
        10 * ten((n - 1) as nat)
    }
}

/// The digits and scale of a decimal fraction without zeros at its end.
pub open spec fn normal(mantissa: int, scale: nat) -> (int, nat)
    decreases scale,
{
    if scale > 0 && mantissa % 10 == 0 {
        normal(mantissa / 10, (scale - 1) as nat)
    } else {
        (mantissa, scale)
    }
}

/// `n` written with exactly `width` digits.
pub open spec fn padded(n: nat, width: nat) -> Seq<char>
    decreases width,
{
    if width == 0 {
        Seq::empty()
    } else {
        padded(n / 10, (width - 1) as nat).push(digit_char(n % 10))
    }
}

/// A decimal fraction in print: sign, whole part, and as many digits behind
/// the point as its scale says.
pub open spec fn number_text(mantissa: int, scale: nat) -> Seq<char> {
    let magnitude = if mantissa < 0 {
        (-mantissa) as nat
    } else {
        mantissa as nat
    };
    (if mantissa < 0 {
        "-"@
    } else {
        Seq::empty()
    }) + decimal(magnitude / ten(scale)) + (if scale > 0 {
        "."@ + padded(magnitude % ten(scale), scale)
    } else {
        Seq::empty()
    })
}

/// What a text reads as: the digits and the scale of a decimal number, or what
/// is wrong with it.
pub uninterp spec fn decimal_reading(text: Seq<char>) -> Result<(i128, u32), Seq<char>>;

/// Reads a number with `rust_decimal::Decimal::from_str`. The outcome, the
/// error's message too, is a function of the text, and a number that was read
/// stays within what a `Decimal` holds: 96 bits of digits, at most 28 of them
/// behind the point. Which texts are numbers is not stated.
#[verifier::external_body]
fn read_decimal(text: &str) -> (r: Result<(i128, u32), String>)
    ensures
        match (r, decimal_reading(text@)) {
            (Ok(p), Ok(q)) => p == q && -MAX_DIGITS <= p.0 <= MAX_DIGITS && p.1 <= MAX_SCALE,
            (Err(e), Err(f)) => e@ == f,
            _ => false,
        },
{
    match text.parse::<rust_decimal::Decimal>() {
        Ok(d) => Ok((d.mantissa(), d.scale())),
        Err(e) => Err(e.to_string()),
    }
}

/// Prints a number with the `Display` of `rust_decimal::Decimal`: a minus sign
/// where it is negative, the whole part without leading zeros, and every digit
/// of its scale behind the point.
#[verifier::external_body]
fn print_decimal(mantissa: i128, scale: u32) -> (r: String)
    requires
        -MAX_DIGITS <= mantissa <= MAX_DIGITS,
        scale <= MAX_SCALE,
    ensures
        r@ == number_text(mantissa as int, scale as nat),
{
    rust_decimal::Decimal::from_i128_with_scale(mantissa, scale).to_string()
}

/// A cue number.
#[derive(Clone, Copy, Debug)]
pub struct Qid {
    pub(crate) mantissa: i128,
    pub(crate) scale: u32,
}

impl View for Qid {
    type V = (int, nat);

    /// The number's value: its digits and scale without zeros at the end.
    closed spec fn view(&self) -> (int, nat) {
        normal(self.mantissa as int, self.scale as nat)
    }
}

pub open spec fn qid_opt(q: Option<Qid>) -> Option<(int, nat)> {
    match q {
        Some(q) => Some(q@),
        None => None,
    }
}

/// The cue number a text stands for.
pub closed spec fn parsed_qid(text: Seq<char>) -> Option<Qid> {
    match decimal_reading(text) {
        Ok(p) => Some(Qid { mantissa: p.0, scale: p.1 }),
        Err(_) => None,
    }
}

/// The values behind a sequence of cue numbers.
pub open spec fn qids(v: Seq<Qid>) -> Seq<(int, nat)> {
    v.map_values(|q: Qid| q@)
}

impl Qid {
    #[verifier::type_invariant]
    spec fn in_range(self) -> bool {
        &&& -MAX_DIGITS <= self.mantissa <= MAX_DIGITS
        &&& self.scale <= MAX_SCALE
    }

    /// How the number is printed.
    pub closed spec fn text(self) -> Seq<char> {
        number_text(self.mantissa as int, self.scale as nat)
    }

    /// The number `mantissa` divided by ten to the power of `scale`.
    pub fn new(mantissa: i64, scale: u32) -> (q: Qid)
        requires
            scale <= MAX_SCALE,
        ensures
            q@ == normal(mantissa as int, scale as nat),
            q.text() == number_text(mantissa as int, scale as nat),
    {
        Qid { mantissa: mantissa as i128, scale }
    }

    /// The cue number a text stands for, or what is wrong with it.
    pub fn read(text: &str) -> (r: Result<Qid, String>)
        ensures
            match (r, decimal_reading(text@)) {
                (Ok(q), Ok(p)) => Some(q) == parsed_qid(text@) && q@ == normal(
                    p.0 as int,
                    p.1 as nat,
                ) && q.text() == number_text(p.0 as int, p.1 as nat),
                (Err(e), Err(f)) => e@ == f && parsed_qid(text@) is None,
                _ => false,
            },
    {
        match read_decimal(text) {
            Ok(p) => Ok(Qid { mantissa: p.0, scale: p.1 }),
            Err(e) => Err(e),
        }
    }

    /// The cue number a text stands for.
    pub fn parse(text: &str) -> (r: Option<Qid>)
        ensures
            r == parsed_qid(text@),
    {
        match Qid::read(text) {
            Ok(q) => Some(q),
            Err(_) => None,
        }
    }

    /// The cue number with these digits and this scale.
    pub fn from_parts(mantissa: i128, scale: u32) -> (q: Qid)
        requires
            -MAX_DIGITS <= mantissa <= MAX_DIGITS,
            scale <= MAX_SCALE,
        ensures
            q@ == normal(mantissa as int, scale as nat),
            q.text() == number_text(mantissa as int, scale as nat),
    {
        Qid { mantissa, scale }
    }

    /// The number's digits and its scale, as given.
    pub fn parts(&self) -> (r: (i128, u32))
        ensures
            self@ == normal(r.0 as int, r.1 as nat),
            self.text() == number_text(r.0 as int, r.1 as nat),
            -MAX_DIGITS <= r.0 <= MAX_DIGITS,
            r.1 <= MAX_SCALE,
    {
        proof {
            use_type_invariant(self);
        }
        (self.mantissa, self.scale)
    }

    /// The number in print.
    pub fn to_text(&self) -> (r: String)
        ensures
            r@ == self.text(),
    {
        proof {
            use_type_invariant(self);
        }
        print_decimal(self.mantissa, self.scale)
    }

    /// Whether two cue numbers have the same value.
    pub fn same(&self, other: &Qid) -> (b: bool)
        ensures
            b == (self@ == other@),
    {
        let a: (i128, u32) = normal_of(self.mantissa, self.scale);
        let b: (i128, u32) = normal_of(other.mantissa, other.scale);
        a.0 == b.0 && a.1 == b.1
    }
}

fn normal_of(mantissa: i128, scale: u32) -> (r: (i128, u32))
    ensures
        (r.0 as int, r.1 as nat) == normal(mantissa as int, scale as nat),
{
    let mut m: i128 = mantissa;
    let mut s: u32 = scale;
    while s > 0 && m % 10 == 0
        invariant
            normal(m as int, s as nat) == normal(mantissa as int, scale as nat),
        decreases s,
    {
        m = m / 10;
        s = s - 1;
    }
    (m, s)
}

impl PartialEq for Qid {
    fn eq(&self, other: &Qid) -> (b: bool) {
        self.same(other)
    }
}

impl vstd::std_specs::cmp::PartialEqSpecImpl for Qid {
    open spec fn obeys_eq_spec() -> bool {
        true
    }

    open spec fn eq_spec(&self, other: &Qid) -> bool {
        self@ == other@
    }
}

pub fn same_qid_opt(a: &Option<Qid>, b: &Option<Qid>) -> (r: bool)
    ensures
        r == (qid_opt(*a) == qid_opt(*b)),
{
    match (a, b) {
        (Some(x), Some(y)) => x.same(y),
        (None, None) => true,
        _ => false,
    }
}

/// Whether `id` is among `list`.
pub fn holds_qid(list: &Vec<Qid>, id: &Qid) -> (b: bool)
    ensures
        b == qids(list@).contains(id@),
{
    let mut i: usize = 0;
    while i < list.len()
        invariant
            i <= list@.len(),
            forall|j: int| 0 <= j < i ==> list@[j]@ != id@,
        decreases list@.len() - i,
    {
        if list[i].same(id) {
            assert(qids(list@)[i as int] == id@);
            return true;
        }
        i = i + 1;
    }
    assert(!qids(list@).contains(id@));
    false
}

proof fn lemma_ten_positive(n: nat)
    ensures
        ten(n) > 0,
    decreases n,
{
    if n > 0 {
        lemma_ten_positive((n - 1) as nat);
    }
}

/// Taking the zeros off the end of a number keeps its value.
proof fn lemma_normal_value(m: int, s: nat)
    ensures
        normal(m, s).1 <= s,
        normal(m, s).0 * ten((s - normal(m, s).1) as nat) == m,
        normal(m, s).1 == 0 || normal(m, s).0 % 10 != 0,
    decreases s,
{
    if s > 0 && m % 10 == 0 {
        lemma_normal_value(m / 10, (s - 1) as nat);
        let n = normal(m, s);
        let k = (s - 1 - n.1) as nat;
        assert(n.0 * ten(k) == m / 10);
        assert(ten((s - n.1) as nat) == 10 * ten(k));
        assert(n.0 * (10 * ten(k)) == 10 * (n.0 * ten(k))) by (nonlinear_arith);
        assert(10 * (m / 10) == m);
    } else {
        assert(m * 1 == m);
        assert((s - normal(m, s).1) as nat == 0);
    }
}

proof fn lemma_ten_sum(a: nat, b: nat)
    ensures
        ten(a + b) == ten(a) * ten(b),
    decreases a,
{
    if a == 0 {
        assert(ten(0) * ten(b) == ten(b)) by (nonlinear_arith)
            requires
                ten(0) == 1,
        ;
    } else {
        lemma_ten_sum((a - 1) as nat, b);
        let x = ten((a - 1) as nat);
        let y = ten(b);
        assert((10 * x) * y == 10 * (x * y)) by (nonlinear_arith);
        assert((a - 1) as nat + b == (a + b - 1) as nat);
    }
}

/// Two cue numbers are the same exactly where they have the same value, in
/// however many digits each was written: `a / 10^s == b / 10^t`.
pub proof fn same_number_is_same_value(a: int, s: nat, b: int, t: nat)
    ensures
        normal(a, s) == normal(b, t) <==> a * ten(t) == b * ten(s),
{
    lemma_normal_value(a, s);
    lemma_normal_value(b, t);
    let p = normal(a, s);
    let q = normal(b, t);
    let ds = (s - p.1) as nat;
    let dt = (t - q.1) as nat;
    lemma_ten_sum(ds, p.1);
    lemma_ten_sum(dt, q.1);
    lemma_ten_positive(ds);
    lemma_ten_positive(dt);
    let x = ten(ds) as int;
    let y = ten(dt) as int;
    let u = ten(p.1) as int;
    let v = ten(q.1) as int;
    // a * ten(t) == p.0 * x * (y * v), and b * ten(s) == q.0 * y * (x * u).
    assert(a * ten(t) == (x * y) * (p.0 * v)) by (nonlinear_arith)
        requires
            a == p.0 * x,
            ten(t) == y * v,
    ;
    assert(b * ten(s) == (x * y) * (q.0 * u)) by (nonlinear_arith)
        requires
            b == q.0 * y,
            ten(s) == x * u,
    ;
    assert(x * y > 0) by (nonlinear_arith)
        requires
            x > 0,
            y > 0,
    ;
    if a * ten(t) == b * ten(s) {
        assert(p.0 * v == q.0 * u) by (nonlinear_arith)
            requires
                (x * y) * (p.0 * v) == (x * y) * (q.0 * u),
                x * y > 0,
        ;
        lemma_normal_unique(p.0, p.1, q.0, q.1);
    }
}

/// Of two numbers without zeros at the end and with one value, both are one.
proof fn lemma_normal_unique(a: int, s: nat, b: int, t: nat)
    requires
        s == 0 || a % 10 != 0,
        t == 0 || b % 10 != 0,
        a * ten(t) == b * ten(s),
    ensures
        a == b,
        s == t,
    decreases s + t,
{
    if s == 0 && t == 0 {
        assert(a * 1 == a && b * 1 == b);
        assert(a * ten(t) == a * 1 && b * ten(s) == b * 1);
    } else if s > 0 && t > 0 {
        lemma_scale_down(a, s, b, t);
    } else if s == 0 {
        lemma_multiple_of_ten(a, t, b);
    } else {
        lemma_multiple_of_ten(b, s, a);
    }
}

/// A number times a positive power of ten ends in a zero.
proof fn lemma_multiple_of_ten(a: int, t: nat, b: int)
    requires
        t > 0,
        a * ten(t) == b * ten(0),
    ensures
        b % 10 == 0,
{
    let y = ten((t - 1) as nat) as int;
    let z = a * y;
    assert(a * (10 * y) == 10 * z) by (nonlinear_arith)
        requires
            z == a * y,
    ;
    assert(b * 1 == b);
}

/// The step of the uniqueness proof in which both scales shrink by one.
proof fn lemma_scale_down(a: int, s: nat, b: int, t: nat)
    requires
        a % 10 != 0,
        b % 10 != 0,
        a * ten(t) == b * ten(s),
    ensures
        a == b,
        s == t,
    decreases s + t,
{
    if s == 0 && t == 0 {
        assert(a * 1 == a && b * 1 == b);
        assert(a * ten(t) == a * 1 && b * ten(s) == b * 1);
    } else if s > 0 && t > 0 {
        let x = ten((s - 1) as nat) as int;
        let y = ten((t - 1) as nat) as int;
        assert(a * y == b * x) by (nonlinear_arith)
            requires
                a * (10 * y) == b * (10 * x),
        ;
        lemma_scale_down(a, (s - 1) as nat, b, (t - 1) as nat);
    } else if s == 0 {
        lemma_multiple_of_ten(a, t, b);
    } else {
        lemma_multiple_of_ten(b, s, a);
    }
}

/// Two cue numbers are the same exactly where their values are, in however many
/// digits each is written.
pub proof fn numbers_are_the_same_by_value(
    a: i128,
    s: u32,
    b: i128,
    t: u32,
    p: Qid,
    q: Qid,
    r: bool,
    small: i64,
    n: Qid,
)
    requires
        call_ensures(Qid::from_parts, (a, s), p),
        call_ensures(Qid::from_parts, (b, t), q),
        call_ensures(Qid::same, (&p, &q), r),
        call_ensures(Qid::new, (small, s), n),
    ensures
        r <==> a * ten(t as nat) == b * ten(s as nat),
        n@ == p@ <==> small == a,
        n.text() == number_text(small as int, s as nat),
        p.text() == number_text(a as int, s as nat),
{
    same_number_is_same_value(a as int, s as nat, b as int, t as nat);
    same_number_is_same_value(small as int, s as nat, a as int, s as nat);
    lemma_ten_positive(s as nat);
    let x = ten(s as nat) as int;
    assert(small * x == a * x <==> small == a) by (nonlinear_arith)
        requires
            x > 0,
    ;
}

/// The power of ten that a scale stands for.
pub proof fn scales_are_powers_of_ten(n: nat)
    ensures
        ten(0) == 1,
        ten(n + 1) == 10 * ten(n),
{
}

/// The parts of a number make the number again.
pub proof fn parts_make_the_number_again(q: &Qid, r: (i128, u32), p: Qid, b: bool)
    requires
        call_ensures(Qid::parts, (q,), r),
        call_ensures(Qid::from_parts, (r.0, r.1), p),
        call_ensures(Qid::same, (q, &p), b),
    ensures
        b,
        p.text() == q.text(),
{
}

/// A text is read as the number whose digits and scale it has, or refused with
/// what is wrong with it; it is printed in its digits.
pub proof fn texts_are_read_as_numbers(
    text: &str,
    r: Result<Qid, String>,
    p: Option<Qid>,
    q: &Qid,
    t: String,
)
    requires
        call_ensures(Qid::read, (text,), r),
        call_ensures(Qid::parse, (text,), p),
        call_ensures(Qid::to_text, (q,), t),
    ensures
        r is Ok <==> decimal_reading(text@) is Ok,
        p is Some <==> r is Ok,
        r is Ok ==> {
            let d = decimal_reading(text@)->Ok_0;
            &&& p->0 == r->Ok_0
            &&& r->Ok_0.text() == number_text(d.0 as int, d.1 as nat)
            &&& r->Ok_0@ == normal(d.0 as int, d.1 as nat)
        },
        r is Err ==> r->Err_0@ == decimal_reading(text@)->Err_0,
        t@ == q.text(),
{
}

/// Numbers that may be missing are the same where both are missing or both have
/// one value, and a list holds a number where one of its values is it.
pub proof fn lists_hold_numbers_by_value(
    a: &Option<Qid>,
    b: &Option<Qid>,
    r: bool,
    list: &Vec<Qid>,
    id: &Qid,
    h: bool,
)
    requires
        call_ensures(same_qid_opt, (a, b), r),
        call_ensures(holds_qid, (list, id), h),
    ensures
        r <==> a is None && b is None || a is Some && b is Some && a->0@ == b->0@,
        h <==> exists|i: int| 0 <= i < list@.len() && (#[trigger] list@[i])@ == id@,
{
    let v = qids(list@);
    if h {
        let i = choose|i: int| 0 <= i < v.len() && v[i] == id@;
        assert(list@[i]@ == id@);
    }
    if exists|i: int| 0 <= i < list@.len() && (#[trigger] list@[i])@ == id@ {
        let i = choose|i: int| 0 <= i < list@.len() && (#[trigger] list@[i])@ == id@;
        assert(v[i] == id@);
    }
}

} // verus!
