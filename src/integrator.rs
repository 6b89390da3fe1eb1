//! The Runge-Kutta-Fehlberg (RKF45) Butcher tableau, held as exact rationals.
//!
//! A step of the method evaluates six stages. Stage `s` starts from the
//! initial state plus `sum(a[s][p] * k[p])` over the earlier stages `p < s`,
//! at the time offset `c[s] * dt`; the step then advances by
//! `sum(b5[s] * k[s])` (fifth order) and estimates its error from the
//! difference with `sum(b4[s] * k[s])` (fourth order). The laws below are the
//! consistency and quadrature conditions that make these coefficients a
//! method of those orders.
use vstd::prelude::*;

verus! {

/// A rational number as a numerator and a positive denominator.
#[derive(Clone, Copy, Debug, PartialEq, Eq, Structural)]
pub struct Ratio {
    pub num: i64,
    pub den: i64,
}

impl View for Ratio {
    type V = (int, int);

    open spec fn view(&self) -> (int, int) {
        (self.num as int, self.den as int)
    }
}

impl Ratio {
    /// The rational `num / den`.
    pub fn new(num: i64, den: i64) -> (r: Ratio)
        requires
            den > 0,
        ensures
            r@ == (num as int, den as int),
    {
        Ratio { num, den }
    }
}

/// Equality of two fractions `(numerator, denominator)` with positive
/// denominators, as rational numbers.
pub open spec fn q_eq(x: (int, int), y: (int, int)) -> bool {
    x.0 * y.1 == y.0 * x.1
}

/// The sum of two fractions.
pub open spec fn q_add(x: (int, int), y: (int, int)) -> (int, int) {
    (x.0 * y.1 + y.0 * x.1, x.1 * y.1)
}

/// The product of two fractions.
pub open spec fn q_mul(x: (int, int), y: (int, int)) -> (int, int) {
    (x.0 * y.0, x.1 * y.1)
}

/// The sum of the fractions `s[0..n)`.
pub open spec fn q_sum(s: Seq<(int, int)>, n: nat) -> (int, int)
    decreases n,
{
    if n == 0 {
        (0, 1)
    } else {
        q_add(q_sum(s, (n - 1) as nat), s[n - 1])
    }
}

/// `sum(w[i] * x[i]^k)` over the indices `i < n`.
pub open spec fn q_moment_upto(w: Seq<(int, int)>, x: Seq<(int, int)>, k: nat, n: nat) -> (int, int)
    decreases n,
{
    if n == 0 {
        (0, 1)
    } else {
        q_add(q_moment_upto(w, x, k, (n - 1) as nat), q_mul(w[n - 1], q_pow(x[n - 1], k)))
    }
}

/// `sum(w[i] * x[i]^k)` over the indices of `w`.
pub open spec fn q_moment(w: Seq<(int, int)>, x: Seq<(int, int)>, k: nat) -> (int, int) {
    q_moment_upto(w, x, k, w.len())
}

/// The `k`-th power of a fraction.
pub open spec fn q_pow(x: (int, int), k: nat) -> (int, int)
    decreases k,
{
    if k == 0 {
        (1, 1)
    } else {
        q_mul(x, q_pow(x, (k - 1) as nat))
    }
}

/// A Butcher tableau with six stages: nodes `c`, coupling rows `a` (stage
/// `s` reads the first `s` entries of row `s`), and the two weight rows.
pub struct TableauModel {
    pub c: Seq<(int, int)>,
    pub a: Seq<Seq<(int, int)>>,
    pub b5: Seq<(int, int)>,
    pub b4: Seq<(int, int)>,
}

/// The coefficients of Fehlberg's method.
pub open spec fn fehlberg() -> TableauModel {
    TableauModel {
        c: seq![(0, 1), (1, 4), (3, 8), (12, 13), (1, 1), (1, 2)],
        a: seq![
            seq![(0, 1), (0, 1), (0, 1), (0, 1), (0, 1)],
            seq![(1, 4), (0, 1), (0, 1), (0, 1), (0, 1)],
            seq![(3, 32), (9, 32), (0, 1), (0, 1), (0, 1)],
            seq![(1932, 2197), (-7200, 2197), (7296, 2197), (0, 1), (0, 1)],
            seq![(439, 216), (-8, 1), (3680, 513), (-845, 4104), (0, 1)],
            seq![(-8, 27), (2, 1), (-3544, 2565), (1859, 4104), (-11, 40)],
        ],
        b5: seq![(16, 135), (0, 1), (6656, 12825), (28561, 56430), (-9, 50), (2, 55)],
        b4: seq![(25, 216), (0, 1), (1408, 2565), (2197, 4104), (-1, 5), (0, 1)],
    }
}

/// Whether stage `s` of `t` starts at time offset `c[s]` and reads only the
/// stages before it: the first `s` entries of row `s` sum to `c[s]`, and the
/// others are zero.
pub open spec fn stages_consistent(t: TableauModel) -> bool {
    &&& t.c.len() == 6 && t.a.len() == 6
    &&& forall|s: int| 0 <= s < 6 ==> (#[trigger] t.a[s]).len() == 5
    &&& forall|s: int| 0 <= s < 6 ==> q_eq(q_sum(#[trigger] t.a[s], s as nat), t.c[s])
    &&& forall|s: int, p: int| 0 <= s < 6 && s <= p < 5 ==> #[trigger] t.a[s][p] == (0int, 1int)
}

/// Whether the weights `w` integrate `x^k` exactly over `[0, 1]` at the nodes
/// `c` for every `k < order`: `sum(w[i] * c[i]^k) == 1 / (k + 1)`.
pub open spec fn quadrature_of_order(w: Seq<(int, int)>, c: Seq<(int, int)>, order: nat) -> bool {
    forall|k: nat| k < order ==> q_eq(#[trigger] q_moment(w, c, k), (1, (k + 1) as int))
}

/// The RKF45 integrator's coefficients.
pub struct RungeKuttaFehlberg {
    c: [Ratio; 6],
    a: [[Ratio; 5]; 6],
    b5: [Ratio; 6],
    b4: [Ratio; 6],
}

impl Default for RungeKuttaFehlberg {
    fn default() -> (r: RungeKuttaFehlberg)
        ensures
            r@ == fehlberg(),
    {
        RungeKuttaFehlberg::new()
    }
}

/// The values of a row of coefficients.
pub open spec fn row_view(r: Seq<Ratio>) -> Seq<(int, int)> {
    r.map_values(|x: Ratio| x@)
}

impl View for RungeKuttaFehlberg {
    type V = TableauModel;

    closed spec fn view(&self) -> TableauModel {
        TableauModel {
            c: row_view(self.c@),
            a: self.a@.map_values(|row: [Ratio; 5]| row_view(row@)),
            b5: row_view(self.b5@),
            b4: row_view(self.b4@),
        }
    }
}

impl RungeKuttaFehlberg {
    /// The integrator with Fehlberg's coefficients.
    pub fn new() -> (r: RungeKuttaFehlberg)
        ensures
            r@ == fehlberg(),
    {
        let z = Ratio::new(0, 1);
        let r = RungeKuttaFehlberg {
            c: [
                z,
                Ratio::new(1, 4),
                Ratio::new(3, 8),
                Ratio::new(12, 13),
                Ratio::new(1, 1),
                Ratio::new(1, 2),
            ],
            a: [
                [z, z, z, z, z],
                [Ratio::new(1, 4), z, z, z, z],
                [Ratio::new(3, 32), Ratio::new(9, 32), z, z, z],
                [Ratio::new(1932, 2197), Ratio::new(-7200, 2197), Ratio::new(7296, 2197), z, z],
                [
                    Ratio::new(439, 216),
                    Ratio::new(-8, 1),
                    Ratio::new(3680, 513),
                    Ratio::new(-845, 4104),
                    z,
                ],
                [
                    Ratio::new(-8, 27),
                    Ratio::new(2, 1),
                    Ratio::new(-3544, 2565),
                    Ratio::new(1859, 4104),
                    Ratio::new(-11, 40),
                ],
            ],
            b5: [
                Ratio::new(16, 135),
                z,
                Ratio::new(6656, 12825),
                Ratio::new(28561, 56430),
                Ratio::new(-9, 50),
                Ratio::new(2, 55),
            ],
            b4: [
                Ratio::new(25, 216),
                z,
                Ratio::new(1408, 2565),
                Ratio::new(2197, 4104),
                Ratio::new(-1, 5),
                z,
            ],
        };
        assert(r@.c =~= fehlberg().c);
        assert(r@.b5 =~= fehlberg().b5);
        assert(r@.b4 =~= fehlberg().b4);
        assert forall|s: int| 0 <= s < 6 implies #[trigger] r@.a[s] =~= fehlberg().a[s] by {}
        assert(r@.a =~= fehlberg().a);
        r
    }

    /// The node of `stage`: its time offset as a fraction of the step.
    pub fn node(&self, stage: usize) -> (r: Ratio)
        requires
            stage < 6,
        ensures
            r@ == self@.c[stage as int],
    {
        self.c[stage]
    }

    /// The weight of stage `prev` in the starting state of stage `stage`.
    pub fn coupling(&self, stage: usize, prev: usize) -> (r: Ratio)
        requires
            stage < 6,
            prev < 5,
        ensures
            r@ == self@.a[stage as int][prev as int],
    {
        self.a[stage][prev]
    }

    /// The fifth-order weight of `stage`.
    pub fn weight5(&self, stage: usize) -> (r: Ratio)
        requires
            stage < 6,
        ensures
            r@ == self@.b5[stage as int],
    {
        self.b5[stage]
    }

    /// The fourth-order weight of `stage`.
    pub fn weight4(&self, stage: usize) -> (r: Ratio)
        requires
            stage < 6,
        ensures
            r@ == self@.b4[stage as int],
    {
        self.b4[stage]
    }
}

/// One more term of a sum of fractions.
proof fn lemma_sum_step(s: Seq<(int, int)>, n: nat, xn: int, xd: int, yn: int, yd: int)
    requires
        q_sum(s, n) == (xn, xd),
        s[n as int] == (yn, yd),
    ensures
        q_sum(s, n + 1) == (xn * yd + yn * xd, xd * yd),
{
    assert(q_sum(s, n + 1) == q_add(q_sum(s, n), s[n as int]));
}

/// One more term of a moment of weights at nodes.
proof fn lemma_moment_step(
    w: Seq<(int, int)>,
    x: Seq<(int, int)>,
    k: nat,
    n: nat,
    an: int,
    ad: int,
    wn: int,
    wd: int,
    pn: int,
    pd: int,
)
    requires
        q_moment_upto(w, x, k, n) == (an, ad),
        w[n as int] == (wn, wd),
        q_pow(x[n as int], k) == (pn, pd),
    ensures
        q_moment_upto(w, x, k, n + 1) == (an * (wd * pd) + (wn * pn) * ad, ad * (wd * pd)),
{
    assert(q_moment_upto(w, x, k, n + 1) == q_add(
        q_moment_upto(w, x, k, n),
        q_mul(w[n as int], q_pow(x[n as int], k)),
    ));
}

/// The zeroth power of a fraction.
proof fn lemma_pow_base(x: (int, int))
    ensures
        q_pow(x, 0) == (1int, 1int),
{
}

/// One more factor of a power of a fraction.
proof fn lemma_pow_step(xn: int, xd: int, k: nat, pn: int, pd: int)
    requires
        q_pow((xn, xd), k) == (pn, pd),
    ensures
        q_pow((xn, xd), k + 1) == (xn * pn, xd * pd),
{
    assert(q_pow((xn, xd), k + 1) == q_mul((xn, xd), q_pow((xn, xd), k)));
}

// The lemmas below evaluate Fehlberg's sums one term at a time. Each step is
// handed the running sum's numerator and denominator, unreduced, so that every
// product the solver has to evaluate is a product of integer literals.

/// Equality of two fractions given by their parts.
proof fn lemma_eq(x: (int, int), y: (int, int), xn: int, xd: int, yn: int, yd: int)
    requires
        x == (xn, xd),
        y == (yn, yd),
        xn * yd == yn * xd,
    ensures
        q_eq(x, y),
{
}

/// The first entry of coupling row 1 equals node 1.
proof fn lemma_row_1()
    ensures
        q_eq(q_sum(fehlberg().a[1], 1), fehlberg().c[1]),
{
    let t = fehlberg();
    let row = t.a[1];
    assert(t.c[1] == (1int, 4int));
    assert(row[0] == (1int, 4int));
    lemma_sum_step(row, 0, 0, 1, 1, 4);
    lemma_eq(q_sum(row, 1), t.c[1], 1, 4, 1, 4);
}

/// The first 2 entries of coupling row 2 sum to node 2.
proof fn lemma_row_2()
    ensures
        q_eq(q_sum(fehlberg().a[2], 2), fehlberg().c[2]),
{
    let t = fehlberg();
    let row = t.a[2];
    assert(t.c[2] == (3int, 8int));
    assert(row[0] == (3int, 32int));
    assert(row[1] == (9int, 32int));
    lemma_sum_step(row, 0, 0, 1, 3, 32);
    lemma_sum_step(row, 1, 3, 32, 9, 32);
    lemma_eq(q_sum(row, 2), t.c[2], 384, 1024, 3, 8);
}

/// The first 3 entries of coupling row 3 sum to node 3.
proof fn lemma_row_3()
    ensures
        q_eq(q_sum(fehlberg().a[3], 3), fehlberg().c[3]),
{
    let t = fehlberg();
    let row = t.a[3];
    assert(t.c[3] == (12int, 13int));
    assert(row[0] == (1932int, 2197int));
    assert(row[1] == (-7200int, 2197int));
    assert(row[2] == (7296int, 2197int));
    lemma_sum_step(row, 0, 0, 1, 1932, 2197);
    lemma_sum_step(row, 1, 1932, 2197, -7200, 2197);
    lemma_sum_step(row, 2, -11573796, 4826809, 7296, 2197);
    lemma_eq(q_sum(row, 3), t.c[3], 9788768652, 10604499373, 12, 13);
}

/// The first 4 entries of coupling row 4 sum to node 4.
proof fn lemma_row_4()
    ensures
        q_eq(q_sum(fehlberg().a[4], 4), fehlberg().c[4]),
{
    let t = fehlberg();
    let row = t.a[4];
    assert(t.c[4] == (1int, 1int));
    assert(row[0] == (439int, 216int));
    assert(row[1] == (-8int, 1int));
    assert(row[2] == (3680int, 513int));
    assert(row[3] == (-845int, 4104int));
    lemma_sum_step(row, 0, 0, 1, 439, 216);
    lemma_sum_step(row, 1, 439, 216, -8, 1);
    lemma_sum_step(row, 2, -1289, 216, 3680, 513);
    lemma_sum_step(row, 3, 133623, 110808, -845, 4104);
    lemma_eq(q_sum(row, 4), t.c[4], 454756032, 454756032, 1, 1);
}

/// The first 5 entries of coupling row 5 sum to node 5.
proof fn lemma_row_5()
    ensures
        q_eq(q_sum(fehlberg().a[5], 5), fehlberg().c[5]),
{
    let t = fehlberg();
    let row = t.a[5];
    assert(t.c[5] == (1int, 2int));
    assert(row[0] == (-8int, 27int));
    assert(row[1] == (2int, 1int));
    assert(row[2] == (-3544int, 2565int));
    assert(row[3] == (1859int, 4104int));
    assert(row[4] == (-11int, 40int));
    lemma_sum_step(row, 0, 0, 1, -8, 27);
    lemma_sum_step(row, 1, -8, 27, 2, 1);
    lemma_sum_step(row, 2, 46, 27, -3544, 2565);
    lemma_sum_step(row, 3, 22302, 69255, 1859, 4104);
    lemma_sum_step(row, 4, 220272453, 284222520, -11, 40);
    lemma_eq(q_sum(row, 5), t.c[5], 5684450400, 11368900800, 1, 2);
}

/// The fifth-order weights give `x^0` its exact integral, 1/1.
proof fn lemma_b5_moment_0()
    ensures
        q_eq(q_moment(fehlberg().b5, fehlberg().c, 0), (1, 1)),
{
    let t = fehlberg();
    assert(t.b5[0] == (16int, 135int));
    assert(t.c[0] == (0int, 1int));
    lemma_pow_base((0int, 1int));
    lemma_moment_step(t.b5, t.c, 0, 0, 0, 1, 16, 135, 1, 1);
    assert(t.b5[1] == (0int, 1int));
    assert(t.c[1] == (1int, 4int));
    lemma_pow_base((1int, 4int));
    lemma_moment_step(t.b5, t.c, 0, 1, 16, 135, 0, 1, 1, 1);
    assert(t.b5[2] == (6656int, 12825int));
    assert(t.c[2] == (3int, 8int));
    lemma_pow_base((3int, 8int));
    lemma_moment_step(t.b5, t.c, 0, 2, 16, 135, 6656, 12825, 1, 1);
    assert(t.b5[3] == (28561int, 56430int));
    assert(t.c[3] == (12int, 13int));
    lemma_pow_base((12int, 13int));
    lemma_moment_step(t.b5, t.c, 0, 3, 1103760, 1731375, 28561, 56430, 1, 1);
    assert(t.b5[4] == (-9int, 50int));
    assert(t.c[4] == (1int, 1int));
    lemma_pow_base((1int, 1int));
    lemma_moment_step(t.b5, t.c, 0, 4, 111734978175, 97701491250, -9, 50, 1, 1);
    assert(t.b5[5] == (2int, 55int));
    assert(t.c[5] == (1int, 2int));
    lemma_pow_base((1int, 2int));
    lemma_moment_step(t.b5, t.c, 0, 5, 4707435487500, 4885074562500, 2, 55, 1, 1);
    lemma_eq(q_moment(t.b5, t.c, 0), (1int, 1int), 268679100937500, 268679100937500, 1, 1);
}

/// The fifth-order weights give `x^1` its exact integral, 1/2.
proof fn lemma_b5_moment_1()
    ensures
        q_eq(q_moment(fehlberg().b5, fehlberg().c, 1), (1, 2)),
{
    let t = fehlberg();
    assert(t.b5[0] == (16int, 135int));
    assert(t.c[0] == (0int, 1int));
    lemma_pow_base((0int, 1int));
    lemma_pow_step(0, 1, 0, 1, 1);
    lemma_moment_step(t.b5, t.c, 1, 0, 0, 1, 16, 135, 0, 1);
    assert(t.b5[1] == (0int, 1int));
    assert(t.c[1] == (1int, 4int));
    lemma_pow_base((1int, 4int));
    lemma_pow_step(1, 4, 0, 1, 1);
    lemma_moment_step(t.b5, t.c, 1, 1, 0, 135, 0, 1, 1, 4);
    assert(t.b5[2] == (6656int, 12825int));
    assert(t.c[2] == (3int, 8int));
    lemma_pow_base((3int, 8int));
    lemma_pow_step(3, 8, 0, 1, 1);
    lemma_moment_step(t.b5, t.c, 1, 2, 0, 540, 6656, 12825, 3, 8);
    assert(t.b5[3] == (28561int, 56430int));
    assert(t.c[3] == (12int, 13int));
    lemma_pow_base((12int, 13int));
    lemma_pow_step(12, 13, 0, 1, 1);
    lemma_moment_step(t.b5, t.c, 1, 3, 10782720, 55404000, 28561, 56430, 12, 13);
    assert(t.b5[4] == (-9int, 50int));
    assert(t.c[4] == (1int, 1int));
    lemma_pow_base((1int, 1int));
    lemma_pow_step(1, 1, 0, 1, 1);
    lemma_moment_step(t.b5, t.c, 1, 4, 26898819292800, 40643820360000, -9, 50, 1, 1);
    assert(t.b5[5] == (2int, 55int));
    assert(t.c[5] == (1int, 2int));
    lemma_pow_base((1int, 2int));
    lemma_pow_step(1, 2, 0, 1, 1);
    lemma_moment_step(t.b5, t.c, 1, 5, 979146581400000, 2032191018000000, 2, 55, 1, 2);
    lemma_eq(q_moment(t.b5, t.c, 1), (1int, 2int), 111770505990000000, 223541011980000000, 1, 2);
}

/// The fifth-order weights give `x^2` its exact integral, 1/3.
proof fn lemma_b5_moment_2()
    ensures
        q_eq(q_moment(fehlberg().b5, fehlberg().c, 2), (1, 3)),
{
    let t = fehlberg();
    assert(t.b5[0] == (16int, 135int));
    assert(t.c[0] == (0int, 1int));
    lemma_pow_base((0int, 1int));
    lemma_pow_step(0, 1, 0, 1, 1);
    lemma_pow_step(0, 1, 1, 0, 1);
    lemma_moment_step(t.b5, t.c, 2, 0, 0, 1, 16, 135, 0, 1);
    assert(t.b5[1] == (0int, 1int));
    assert(t.c[1] == (1int, 4int));
    lemma_pow_base((1int, 4int));
    lemma_pow_step(1, 4, 0, 1, 1);
    lemma_pow_step(1, 4, 1, 1, 4);
    lemma_moment_step(t.b5, t.c, 2, 1, 0, 135, 0, 1, 1, 16);
    assert(t.b5[2] == (6656int, 12825int));
    assert(t.c[2] == (3int, 8int));
    lemma_pow_base((3int, 8int));
    lemma_pow_step(3, 8, 0, 1, 1);
    lemma_pow_step(3, 8, 1, 3, 8);
    lemma_moment_step(t.b5, t.c, 2, 2, 0, 2160, 6656, 12825, 9, 64);
    assert(t.b5[3] == (28561int, 56430int));
    assert(t.c[3] == (12int, 13int));
    lemma_pow_base((12int, 13int));
    lemma_pow_step(12, 13, 0, 1, 1);
    lemma_pow_step(12, 13, 1, 12, 13);
    lemma_moment_step(t.b5, t.c, 2, 3, 129392640, 1772928000, 28561, 56430, 144, 169);
    assert(t.b5[4] == (-9int, 50int));
    assert(t.c[4] == (1int, 1int));
    lemma_pow_base((1int, 1int));
    lemma_pow_step(1, 1, 0, 1, 1);
    lemma_pow_step(1, 1, 1, 1, 1);
    lemma_moment_step(t.b5, t.c, 2, 4, 8525644819660800, 16907829269760000, -9, 50, 1, 1);
    assert(t.b5[5] == (2int, 55int));
    assert(t.c[5] == (1int, 2int));
    lemma_pow_base((1int, 2int));
    lemma_pow_step(1, 2, 0, 1, 1);
    lemma_pow_step(1, 2, 1, 1, 2);
    lemma_moment_step(t.b5, t.c, 2, 5, 274111777555200000, 845391463488000000, 2, 55, 1, 4);
    lemma_eq(q_moment(t.b5, t.c, 2), (1int, 3int), 61995373989120000000, 185986121967360000000, 1, 3);
}

/// The fifth-order weights give `x^3` its exact integral, 1/4.
proof fn lemma_b5_moment_3()
    ensures
        q_eq(q_moment(fehlberg().b5, fehlberg().c, 3), (1, 4)),
{
    let t = fehlberg();
    assert(t.b5[0] == (16int, 135int));
    assert(t.c[0] == (0int, 1int));
    lemma_pow_base((0int, 1int));
    lemma_pow_step(0, 1, 0, 1, 1);
    lemma_pow_step(0, 1, 1, 0, 1);
    lemma_pow_step(0, 1, 2, 0, 1);
    lemma_moment_step(t.b5, t.c, 3, 0, 0, 1, 16, 135, 0, 1);
    assert(t.b5[1] == (0int, 1int));
    assert(t.c[1] == (1int, 4int));
    lemma_pow_base((1int, 4int));
    lemma_pow_step(1, 4, 0, 1, 1);
    lemma_pow_step(1, 4, 1, 1, 4);
    lemma_pow_step(1, 4, 2, 1, 16);
    lemma_moment_step(t.b5, t.c, 3, 1, 0, 135, 0, 1, 1, 64);
    assert(t.b5[2] == (6656int, 12825int));
    assert(t.c[2] == (3int, 8int));
    lemma_pow_base((3int, 8int));
    lemma_pow_step(3, 8, 0, 1, 1);
    lemma_pow_step(3, 8, 1, 3, 8);
    lemma_pow_step(3, 8, 2, 9, 64);
    lemma_moment_step(t.b5, t.c, 3, 2, 0, 8640, 6656, 12825, 27, 512);
    assert(t.b5[3] == (28561int, 56430int));
    assert(t.c[3] == (12int, 13int));
    lemma_pow_base((12int, 13int));
    lemma_pow_step(12, 13, 0, 1, 1);
    lemma_pow_step(12, 13, 1, 12, 13);
    lemma_pow_step(12, 13, 2, 144, 169);
    lemma_moment_step(t.b5, t.c, 3, 3, 1552711680, 56733696000, 28561, 56430, 1728, 2197);
    assert(t.b5[4] == (-9int, 50int));
    assert(t.c[4] == (1int, 1int));
    lemma_pow_base((1int, 1int));
    lemma_pow_step(1, 1, 0, 1, 1);
    lemma_pow_step(1, 1, 1, 1, 1);
    lemma_pow_step(1, 1, 2, 1, 1);
    lemma_moment_step(t.b5, t.c, 3, 4, 2992501331700940800, 7033656976220160000, -9, 50, 1, 1);
    assert(t.b5[5] == (2int, 55int));
    assert(t.c[5] == (1int, 2int));
    lemma_pow_base((1int, 2int));
    lemma_pow_step(1, 2, 0, 1, 1);
    lemma_pow_step(1, 2, 1, 1, 2);
    lemma_pow_step(1, 2, 2, 1, 4);
    lemma_moment_step(t.b5, t.c, 3, 5, 86322153799065600000, 351682848811008000000, 2, 55, 1, 8);
    lemma_eq(q_moment(t.b5, t.c, 3), (1int, 4int), 38685113369210880000000, 154740453476843520000000, 1, 4);
}

/// The fifth-order weights give `x^4` its exact integral, 1/5.
proof fn lemma_b5_moment_4()
    ensures
        q_eq(q_moment(fehlberg().b5, fehlberg().c, 4), (1, 5)),
{
    let t = fehlberg();
    assert(t.b5[0] == (16int, 135int));
    assert(t.c[0] == (0int, 1int));
    lemma_pow_base((0int, 1int));
    lemma_pow_step(0, 1, 0, 1, 1);
    lemma_pow_step(0, 1, 1, 0, 1);
    lemma_pow_step(0, 1, 2, 0, 1);
    lemma_pow_step(0, 1, 3, 0, 1);
    lemma_moment_step(t.b5, t.c, 4, 0, 0, 1, 16, 135, 0, 1);
    assert(t.b5[1] == (0int, 1int));
    assert(t.c[1] == (1int, 4int));
    lemma_pow_base((1int, 4int));
    lemma_pow_step(1, 4, 0, 1, 1);
    lemma_pow_step(1, 4, 1, 1, 4);
    lemma_pow_step(1, 4, 2, 1, 16);
    lemma_pow_step(1, 4, 3, 1, 64);
    lemma_moment_step(t.b5, t.c, 4, 1, 0, 135, 0, 1, 1, 256);
    assert(t.b5[2] == (6656int, 12825int));
    assert(t.c[2] == (3int, 8int));
    lemma_pow_base((3int, 8int));
    lemma_pow_step(3, 8, 0, 1, 1);
    lemma_pow_step(3, 8, 1, 3, 8);
    lemma_pow_step(3, 8, 2, 9, 64);
    lemma_pow_step(3, 8, 3, 27, 512);
    lemma_moment_step(t.b5, t.c, 4, 2, 0, 34560, 6656, 12825, 81, 4096);
    assert(t.b5[3] == (28561int, 56430int));
    assert(t.c[3] == (12int, 13int));
    lemma_pow_base((12int, 13int));
    lemma_pow_step(12, 13, 0, 1, 1);
    lemma_pow_step(12, 13, 1, 12, 13);
    lemma_pow_step(12, 13, 2, 144, 169);
    lemma_pow_step(12, 13, 3, 1728, 2197);
    lemma_moment_step(t.b5, t.c, 4, 3, 18632540160, 1815478272000, 28561, 56430, 20736, 28561);
    assert(t.b5[4] == (-9int, 50int));
    assert(t.c[4] == (1int, 1int));
    lemma_pow_base((1int, 1int));
    lemma_pow_step(1, 1, 0, 1, 1);
    lemma_pow_step(1, 1, 1, 1, 1);
    lemma_pow_step(1, 1, 2, 1, 1);
    lemma_pow_step(1, 1, 3, 1, 1);
    lemma_moment_step(t.b5, t.c, 4, 4, 1105230491841547468800, 2926001302107586560000, -9, 50, 1, 1);
    assert(t.b5[5] == (2int, 55int));
    assert(t.c[5] == (1int, 2int));
    lemma_pow_base((1int, 2int));
    lemma_pow_step(1, 2, 0, 1, 1);
    lemma_pow_step(1, 2, 1, 1, 2);
    lemma_pow_step(1, 2, 2, 1, 4);
    lemma_pow_step(1, 2, 3, 1, 8);
    lemma_moment_step(t.b5, t.c, 4, 5, 28927512873109094400000, 146300065105379328000000, 2, 55, 1, 16);
    lemma_eq(q_moment(t.b5, t.c, 4), (1int, 5int), 25748811458546761728000000, 128744057292733808640000000, 1, 5);
}

/// The fourth-order weights give `x^0` its exact integral, 1/1.
proof fn lemma_b4_moment_0()
    ensures
        q_eq(q_moment(fehlberg().b4, fehlberg().c, 0), (1, 1)),
{
    let t = fehlberg();
    assert(t.b4[0] == (25int, 216int));
    assert(t.c[0] == (0int, 1int));
    lemma_pow_base((0int, 1int));
    lemma_moment_step(t.b4, t.c, 0, 0, 0, 1, 25, 216, 1, 1);
    assert(t.b4[1] == (0int, 1int));
    assert(t.c[1] == (1int, 4int));
    lemma_pow_base((1int, 4int));
    lemma_moment_step(t.b4, t.c, 0, 1, 25, 216, 0, 1, 1, 1);
    assert(t.b4[2] == (1408int, 2565int));
    assert(t.c[2] == (3int, 8int));
    lemma_pow_base((3int, 8int));
    lemma_moment_step(t.b4, t.c, 0, 2, 25, 216, 1408, 2565, 1, 1);
    assert(t.b4[3] == (2197int, 4104int));
    assert(t.c[3] == (12int, 13int));
    lemma_pow_base((12int, 13int));
    lemma_moment_step(t.b4, t.c, 0, 3, 368253, 554040, 2197, 4104, 1, 1);
    assert(t.b4[4] == (-1int, 5int));
    assert(t.c[4] == (1int, 1int));
    lemma_pow_base((1int, 1int));
    lemma_moment_step(t.b4, t.c, 0, 4, 2728536192, 2273780160, -1, 5, 1, 1);
    assert(t.b4[5] == (0int, 1int));
    assert(t.c[5] == (1int, 2int));
    lemma_pow_base((1int, 2int));
    lemma_moment_step(t.b4, t.c, 0, 5, 11368900800, 11368900800, 0, 1, 1, 1);
    lemma_eq(q_moment(t.b4, t.c, 0), (1int, 1int), 11368900800, 11368900800, 1, 1);
}

/// The fourth-order weights give `x^1` its exact integral, 1/2.
proof fn lemma_b4_moment_1()
    ensures
        q_eq(q_moment(fehlberg().b4, fehlberg().c, 1), (1, 2)),
{
    let t = fehlberg();
    assert(t.b4[0] == (25int, 216int));
    assert(t.c[0] == (0int, 1int));
    lemma_pow_base((0int, 1int));
    lemma_pow_step(0, 1, 0, 1, 1);
    lemma_moment_step(t.b4, t.c, 1, 0, 0, 1, 25, 216, 0, 1);
    assert(t.b4[1] == (0int, 1int));
    assert(t.c[1] == (1int, 4int));
    lemma_pow_base((1int, 4int));
    lemma_pow_step(1, 4, 0, 1, 1);
    lemma_moment_step(t.b4, t.c, 1, 1, 0, 216, 0, 1, 1, 4);
    assert(t.b4[2] == (1408int, 2565int));
    assert(t.c[2] == (3int, 8int));
    lemma_pow_base((3int, 8int));
    lemma_pow_step(3, 8, 0, 1, 1);
    lemma_moment_step(t.b4, t.c, 1, 2, 0, 864, 1408, 2565, 3, 8);
    assert(t.b4[3] == (2197int, 4104int));
    assert(t.c[3] == (12int, 13int));
    lemma_pow_base((12int, 13int));
    lemma_pow_step(12, 13, 0, 1, 1);
    lemma_moment_step(t.b4, t.c, 1, 3, 3649536, 17729280, 2197, 4104, 12, 13);
    assert(t.b4[4] == (-1int, 5int));
    assert(t.c[4] == (1int, 1int));
    lemma_pow_base((1int, 1int));
    lemma_pow_step(1, 1, 0, 1, 1);
    lemma_moment_step(t.b4, t.c, 1, 4, 662124782592, 945892546560, -1, 5, 1, 1);
    assert(t.b4[5] == (0int, 1int));
    assert(t.c[5] == (1int, 2int));
    lemma_pow_base((1int, 2int));
    lemma_pow_step(1, 2, 0, 1, 1);
    lemma_moment_step(t.b4, t.c, 1, 5, 2364731366400, 4729462732800, 0, 1, 1, 2);
    lemma_eq(q_moment(t.b4, t.c, 1), (1int, 2int), 4729462732800, 9458925465600, 1, 2);
}

/// The fourth-order weights give `x^2` its exact integral, 1/3.
proof fn lemma_b4_moment_2()
    ensures
        q_eq(q_moment(fehlberg().b4, fehlberg().c, 2), (1, 3)),
{
    let t = fehlberg();
    assert(t.b4[0] == (25int, 216int));
    assert(t.c[0] == (0int, 1int));
    lemma_pow_base((0int, 1int));
    lemma_pow_step(0, 1, 0, 1, 1);
    lemma_pow_step(0, 1, 1, 0, 1);
    lemma_moment_step(t.b4, t.c, 2, 0, 0, 1, 25, 216, 0, 1);
    assert(t.b4[1] == (0int, 1int));
    assert(t.c[1] == (1int, 4int));
    lemma_pow_base((1int, 4int));
    lemma_pow_step(1, 4, 0, 1, 1);
    lemma_pow_step(1, 4, 1, 1, 4);
    lemma_moment_step(t.b4, t.c, 2, 1, 0, 216, 0, 1, 1, 16);
    assert(t.b4[2] == (1408int, 2565int));
    assert(t.c[2] == (3int, 8int));
    lemma_pow_base((3int, 8int));
    lemma_pow_step(3, 8, 0, 1, 1);
    lemma_pow_step(3, 8, 1, 3, 8);
    lemma_moment_step(t.b4, t.c, 2, 2, 0, 3456, 1408, 2565, 9, 64);
    assert(t.b4[3] == (2197int, 4104int));
    assert(t.c[3] == (12int, 13int));
    lemma_pow_base((12int, 13int));
    lemma_pow_step(12, 13, 0, 1, 1);
    lemma_pow_step(12, 13, 1, 12, 13);
    lemma_moment_step(t.b4, t.c, 2, 3, 43794432, 567336960, 2197, 4104, 144, 169);
    assert(t.b4[4] == (-1int, 5int));
    assert(t.c[4] == (1int, 1int));
    lemma_pow_base((1int, 1int));
    lemma_pow_step(1, 1, 0, 1, 1);
    lemma_pow_step(1, 1, 1, 1, 1);
    lemma_moment_step(t.b4, t.c, 2, 4, 209862026330112, 393491299368960, -1, 5, 1, 1);
    assert(t.b4[5] == (0int, 1int));
    assert(t.c[5] == (1int, 2int));
    lemma_pow_base((1int, 2int));
    lemma_pow_step(1, 2, 0, 1, 1);
    lemma_pow_step(1, 2, 1, 1, 2);
    lemma_moment_step(t.b4, t.c, 2, 5, 655818832281600, 1967456496844800, 0, 1, 1, 4);
    lemma_eq(q_moment(t.b4, t.c, 2), (1int, 3int), 2623275329126400, 7869825987379200, 1, 3);
}

/// The fourth-order weights give `x^3` its exact integral, 1/4.
proof fn lemma_b4_moment_3()
    ensures
        q_eq(q_moment(fehlberg().b4, fehlberg().c, 3), (1, 4)),
{
    let t = fehlberg();
    assert(t.b4[0] == (25int, 216int));
    assert(t.c[0] == (0int, 1int));
    lemma_pow_base((0int, 1int));
    lemma_pow_step(0, 1, 0, 1, 1);
    lemma_pow_step(0, 1, 1, 0, 1);
    lemma_pow_step(0, 1, 2, 0, 1);
    lemma_moment_step(t.b4, t.c, 3, 0, 0, 1, 25, 216, 0, 1);
    assert(t.b4[1] == (0int, 1int));
    assert(t.c[1] == (1int, 4int));
    lemma_pow_base((1int, 4int));
    lemma_pow_step(1, 4, 0, 1, 1);
    lemma_pow_step(1, 4, 1, 1, 4);
    lemma_pow_step(1, 4, 2, 1, 16);
    lemma_moment_step(t.b4, t.c, 3, 1, 0, 216, 0, 1, 1, 64);
    assert(t.b4[2] == (1408int, 2565int));
    assert(t.c[2] == (3int, 8int));
    lemma_pow_base((3int, 8int));
    lemma_pow_step(3, 8, 0, 1, 1);
    lemma_pow_step(3, 8, 1, 3, 8);
    lemma_pow_step(3, 8, 2, 9, 64);
    lemma_moment_step(t.b4, t.c, 3, 2, 0, 13824, 1408, 2565, 27, 512);
    assert(t.b4[3] == (2197int, 4104int));
    assert(t.c[3] == (12int, 13int));
    lemma_pow_base((12int, 13int));
    lemma_pow_step(12, 13, 0, 1, 1);
    lemma_pow_step(12, 13, 1, 12, 13);
    lemma_pow_step(12, 13, 2, 144, 169);
    lemma_moment_step(t.b4, t.c, 3, 3, 525533184, 18154782720, 2197, 4104, 1728, 2197);
    assert(t.b4[4] == (-1int, 5int));
    assert(t.c[4] == (1int, 1int));
    lemma_pow_base((1int, 1int));
    lemma_pow_step(1, 1, 0, 1, 1);
    lemma_pow_step(1, 1, 1, 1, 1);
    lemma_pow_step(1, 1, 2, 1, 1);
    lemma_moment_step(t.b4, t.c, 3, 4, 73661571241869312, 163692380537487360, -1, 5, 1, 1);
    assert(t.b4[5] == (0int, 1int));
    assert(t.c[5] == (1int, 2int));
    lemma_pow_base((1int, 2int));
    lemma_pow_step(1, 2, 0, 1, 1);
    lemma_pow_step(1, 2, 1, 1, 2);
    lemma_pow_step(1, 2, 2, 1, 4);
    lemma_moment_step(t.b4, t.c, 3, 5, 204615475671859200, 818461902687436800, 0, 1, 1, 8);
    lemma_eq(q_moment(t.b4, t.c, 3), (1int, 4int), 1636923805374873600, 6547695221499494400, 1, 4);
}

/// Fehlberg's tableau is consistent: every stage starts from the earlier
/// stages only, at the time offset its node gives; the fifth-order weights
/// integrate polynomials up to degree four exactly at the nodes, and the
/// fourth-order weights those up to degree three.
pub proof fn lemma_fehlberg_conditions()
    ensures
        stages_consistent(fehlberg()),
        quadrature_of_order(fehlberg().b5, fehlberg().c, 5),
        quadrature_of_order(fehlberg().b4, fehlberg().c, 4),
{
    let t = fehlberg();
    assert forall|s: int| 0 <= s < 6 implies q_eq(q_sum(#[trigger] t.a[s], s as nat), t.c[s]) by {
        if s == 1 {
            lemma_row_1();
        } else if s == 2 {
            lemma_row_2();
        } else if s == 3 {
            lemma_row_3();
        } else if s == 4 {
            lemma_row_4();
        } else if s == 5 {
            lemma_row_5();
        }
    }
    assert forall|s: int, p: int| 0 <= s < 6 && s <= p < 5 implies #[trigger] t.a[s][p] == (0int, 1int) by {}
    assert forall|k: nat| k < 5 implies q_eq(#[trigger] q_moment(t.b5, t.c, k), (1, (k + 1) as int)) by {
        if k == 0 {
            lemma_b5_moment_0();
        } else if k == 1 {
            lemma_b5_moment_1();
        } else if k == 2 {
            lemma_b5_moment_2();
        } else if k == 3 {
            lemma_b5_moment_3();
        } else {
            lemma_b5_moment_4();
        }
    }
    assert forall|k: nat| k < 4 implies q_eq(#[trigger] q_moment(t.b4, t.c, k), (1, (k + 1) as int)) by {
        if k == 0 {
            lemma_b4_moment_0();
        } else if k == 1 {
            lemma_b4_moment_1();
        } else if k == 2 {
            lemma_b4_moment_2();
        } else {
            lemma_b4_moment_3();
        }
    }
}

} // verus!
