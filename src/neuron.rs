use vstd::prelude::*;
use crate::matrix::{dot, dot_fits, dot_of, in_range, is_matrix, num_mat, num_seq};

verus! {

/// A sample for training: an input vector and the output wanted for it.
pub type Sample = (Vec<i64>, Vec<i64>);

/// The mathematical values of a sequence of samples.
pub open spec fn samples_model(data: Seq<Sample>) -> Seq<(Seq<int>, Seq<int>)> {
    Seq::new(data.len(), |s: int| (num_seq(data[s].0@), num_seq(data[s].1@)))
}

/// A stateless parametric function from `input_dim` inputs to `output_dim`
/// outputs, with `param_dim` parameters handed in on every call.
///
/// A derivative is stored with one row per input, a gradient with one row per
/// parameter; each row holds one entry per output.
pub trait Neuron: Sized {
    /// Shape invariant: the dimensions fit in `usize` and any parts agree.
    spec fn wf(&self) -> bool;

    spec fn input_dim(&self) -> nat;

    spec fn output_dim(&self) -> nat;

    spec fn param_dim(&self) -> nat;

    /// The function computed.
    spec fn eval_spec(&self, input: Seq<int>, params: Seq<int>) -> Seq<int>;

    /// Row `i`: how each output changes with input `i`.
    spec fn derivative_spec(&self, input: Seq<int>, params: Seq<int>) -> Seq<Seq<int>>;

    /// Row `k`: how each output changes with parameter `k`.
    spec fn gradient_spec(&self, input: Seq<int>, params: Seq<int>) -> Seq<Seq<int>>;

    /// Every intermediate value of `eval` fits in an `i64`.
    spec fn eval_fits(&self, input: Seq<int>, params: Seq<int>) -> bool;

    /// Every intermediate value of `derivative` fits in an `i64`.
    spec fn derivative_fits(&self, input: Seq<int>, params: Seq<int>) -> bool;

    /// Every intermediate value of `gradient` fits in an `i64`.
    spec fn gradient_fits(&self, input: Seq<int>, params: Seq<int>) -> bool;

    /// Output, derivative and gradient have the shapes that the dimensions give.
    proof fn lemma_shapes(&self, input: Seq<int>, params: Seq<int>)
        requires
            self.wf(),
            input.len() == self.input_dim(),
            params.len() == self.param_dim(),
        ensures
            self.eval_spec(input, params).len() == self.output_dim(),
            is_matrix(self.derivative_spec(input, params), self.input_dim(), self.output_dim()),
            is_matrix(self.gradient_spec(input, params), self.param_dim(), self.output_dim()),
    ;

    fn input_len(&self) -> (r: usize)
        requires
            self.wf(),
        ensures
            r == self.input_dim(),
    ;

    fn output_len(&self) -> (r: usize)
        requires
            self.wf(),
        ensures
            r == self.output_dim(),
    ;

    fn param_len(&self) -> (r: usize)
        requires
            self.wf(),
        ensures
            r == self.param_dim(),
    ;

    fn eval(&self, input: &Vec<i64>, params: &Vec<i64>) -> (r: Vec<i64>)
        requires
            self.wf(),
            input.len() == self.input_dim(),
            params.len() == self.param_dim(),
            self.eval_fits(num_seq(input@), num_seq(params@)),
        ensures
            num_seq(r@) == self.eval_spec(num_seq(input@), num_seq(params@)),
    ;

    fn derivative(&self, input: &Vec<i64>, params: &Vec<i64>) -> (r: Vec<Vec<i64>>)
        requires
            self.wf(),
            input.len() == self.input_dim(),
            params.len() == self.param_dim(),
            self.derivative_fits(num_seq(input@), num_seq(params@)),
        ensures
            num_mat(r@) == self.derivative_spec(num_seq(input@), num_seq(params@)),
    ;

    fn gradient(&self, input: &Vec<i64>, params: &Vec<i64>) -> (r: Vec<Vec<i64>>)
        requires
            self.wf(),
            input.len() == self.input_dim(),
            params.len() == self.param_dim(),
            self.gradient_fits(num_seq(input@), num_seq(params@)),
        ensures
            num_mat(r@) == self.gradient_spec(num_seq(input@), num_seq(params@)),
    ;
}

/// A vector of `n` ones.
pub open spec fn ones(n: nat) -> Seq<int> {
    Seq::new(n, |k: int| 1)
}

/// Derivative of the squared error with respect to each output.
pub open spec fn loss_prime_of(out: Seq<int>, target: Seq<int>) -> Seq<int> {
    Seq::new(out.len(), |j: int| 2 * out[j] - 2 * target[j])
}

/// Parameters after one update on the sample `(x, y)`.
pub open spec fn step_spec<N: Neuron>(u: N, params: Seq<int>, x: Seq<int>, y: Seq<int>, eta: int) -> Seq<int> {
    let e2 = loss_prime_of(u.eval_spec(x, params), y);
    let g = u.gradient_spec(x, params);
    Seq::new(params.len(), |k: int| params[k] - dot_of(e2, g[k]) * eta)
}

/// Every intermediate value of one update fits in an `i64`.
pub open spec fn step_fits<N: Neuron>(u: N, params: Seq<int>, x: Seq<int>, y: Seq<int>, eta: int) -> bool {
    let e = u.eval_spec(x, params);
    let e2 = loss_prime_of(e, y);
    let g = u.gradient_spec(x, params);
    &&& u.eval_fits(x, params)
    &&& u.gradient_fits(x, params)
    &&& forall|j: int| 0 <= j < e.len() ==> #[trigger] in_range(2 * e[j]) && in_range(2 * y[j]) && in_range(2 * e[j] - 2 * y[j])
    &&& forall|k: int| 0 <= k < params.len() ==> #[trigger] dot_fits(e2, g[k])
        && in_range(dot_of(e2, g[k]) * eta)
        && in_range(params[k] - dot_of(e2, g[k]) * eta)
}

/// Parameters after updates on the first `n` samples, starting from `params`.
pub open spec fn pass_spec<N: Neuron>(u: N, params: Seq<int>, data: Seq<(Seq<int>, Seq<int>)>, eta: int, n: nat) -> Seq<int>
    decreases n,
{
    if n == 0 {
        params
    } else {
        let before = pass_spec(u, params, data, eta, (n - 1) as nat);
        step_spec(u, before, data[n - 1].0, data[n - 1].1, eta)
    }
}

/// Parameters after `passes` full passes over the samples, starting from ones.
pub open spec fn train_spec<N: Neuron>(u: N, data: Seq<(Seq<int>, Seq<int>)>, eta: int, passes: nat) -> Seq<int>
    decreases passes,
{
    if passes == 0 {
        ones(u.param_dim())
    } else {
        pass_spec(u, train_spec(u, data, eta, (passes - 1) as nat), data, eta, data.len())
    }
}

/// Each sample has an input of the unit's input size and a target of its
/// output size.
pub open spec fn samples_fit_shape<N: Neuron>(u: N, data: Seq<(Seq<int>, Seq<int>)>) -> bool {
    forall|s: int| 0 <= s < data.len() ==> (#[trigger] data[s]).0.len() == u.input_dim() && data[s].1.len() == u.output_dim()
}

/// No update made by training overflows an `i64`.
pub open spec fn train_fits<N: Neuron>(u: N, data: Seq<(Seq<int>, Seq<int>)>, eta: int, passes: nat) -> bool {
    forall|m: int, s: int| 0 <= m < passes && 0 <= s < data.len() ==> #[trigger] step_fits(
        u,
        pass_spec(u, train_spec(u, data, eta, m as nat), data, eta, s as nat),
        data[s].0,
        data[s].1,
        eta,
    )
}

/// Stochastic gradient descent on squared error: parameters start at all
/// ones; each of `iterations` passes takes the samples in order and, after
/// each one, lowers every parameter by `eta` times its loss gradient.
pub fn train<N: Neuron>(unit: &N, data: &Vec<Sample>, eta: i64, iterations: usize) -> (r: Vec<i64>)
    requires
        unit.wf(),
        samples_fit_shape(*unit, samples_model(data@)),
        train_fits(*unit, samples_model(data@), eta as int, iterations as nat),
    ensures
        num_seq(r@) == train_spec(*unit, samples_model(data@), eta as int, iterations as nat),
{
    let ghost sd = samples_model(data@);
    let n = unit.param_len();
    let mut params: Vec<i64> = Vec::new();
    while params.len() < n
        invariant
            params.len() <= n,
            forall|k: int| 0 <= k < params.len() ==> #[trigger] params@[k] == 1,
        decreases n - params.len(),
    {
        params.push(1);
    }
    assert(num_seq(params@) =~= ones(unit.param_dim()));
    let mut it: usize = 0;
    while it < iterations
        invariant
            unit.wf(),
            it <= iterations,
            sd == samples_model(data@),
            samples_fit_shape(*unit, sd),
            train_fits(*unit, sd, eta as int, iterations as nat),
            num_seq(params@) == train_spec(*unit, sd, eta as int, it as nat),
            params.len() == unit.param_dim(),
        decreases iterations - it,
    {
        let ghost start = num_seq(params@);
        let mut s: usize = 0;
        while s < data.len()
            invariant
                unit.wf(),
                it < iterations,
                s <= data.len(),
                sd == samples_model(data@),
                samples_fit_shape(*unit, sd),
                train_fits(*unit, sd, eta as int, iterations as nat),
                start == train_spec(*unit, sd, eta as int, it as nat),
                num_seq(params@) == pass_spec(*unit, start, sd, eta as int, s as nat),
                params.len() == unit.param_dim(),
            decreases data.len() - s,
        {
            proof {
                let m: int = it as int;
                let ss: int = s as int;
                assert(step_fits(
                    *unit,
                    pass_spec(*unit, train_spec(*unit, sd, eta as int, m as nat), sd, eta as int, ss as nat),
                    sd[ss].0,
                    sd[ss].1,
                    eta as int,
                ));
            }
            params = step(unit, &data[s].0, &data[s].1, &params, eta);
            s = s + 1;
        }
        assert(sd.take(data.len() as int) =~= sd);
        it = it + 1;
    }
    params
}

/// One update of the parameters on one sample.
pub fn step<N: Neuron>(unit: &N, input: &Vec<i64>, target: &Vec<i64>, params: &Vec<i64>, eta: i64) -> (r: Vec<i64>)
    requires
        unit.wf(),
        input.len() == unit.input_dim(),
        target.len() == unit.output_dim(),
        params.len() == unit.param_dim(),
        step_fits(*unit, num_seq(params@), num_seq(input@), num_seq(target@), eta as int),
    ensures
        num_seq(r@) == step_spec(*unit, num_seq(params@), num_seq(input@), num_seq(target@), eta as int),
        r.len() == unit.param_dim(),
{
    let ghost x = num_seq(input@);
    let ghost y = num_seq(target@);
    let ghost p = num_seq(params@);
    proof {
        unit.lemma_shapes(x, p);
    }
    let e = unit.eval(input, params);
    let g = unit.gradient(input, params);
    let ghost se = num_seq(e@);
    let ghost sg = num_mat(g@);
    let mut e2: Vec<i64> = Vec::new();
    let mut j: usize = 0;
    while j < e.len()
        invariant
            j <= e.len() == target.len(),
            se == num_seq(e@),
            y == num_seq(target@),
            forall|jj: int| 0 <= jj < se.len() ==> #[trigger] in_range(2 * se[jj]) && in_range(2 * y[jj]) && in_range(2 * se[jj] - 2 * y[jj]),
            e2.len() == j,
            forall|jj: int| 0 <= jj < j ==> #[trigger] e2@[jj] as int == 2 * se[jj] - 2 * y[jj],
        decreases e.len() - j,
    {
        assert(in_range(2 * se[j as int]) && in_range(2 * y[j as int]) && in_range(2 * se[j as int] - 2 * y[j as int]));
        let d = 2 * e[j] - 2 * target[j];
        e2.push(d);
        j = j + 1;
    }
    let ghost se2 = num_seq(e2@);
    assert(se2 =~= loss_prime_of(se, y));
    let mut out: Vec<i64> = Vec::new();
    let mut k: usize = 0;
    while k < params.len()
        invariant
            k <= params.len() == g.len(),
            is_matrix(sg, params.len() as nat, e2.len() as nat),
            sg == num_mat(g@),
            se2 == num_seq(e2@),
            p == num_seq(params@),
            forall|kk: int| 0 <= kk < p.len() ==> #[trigger] dot_fits(se2, sg[kk])
                && in_range(dot_of(se2, sg[kk]) * eta)
                && in_range(p[kk] - dot_of(se2, sg[kk]) * eta),
            out.len() == k,
            forall|kk: int| 0 <= kk < k ==> #[trigger] out@[kk] as int == p[kk] - dot_of(se2, sg[kk]) * eta,
        decreases params.len() - k,
    {
        assert(sg[k as int] == num_seq(g@[k as int]@));
        assert(dot_fits(se2, sg[k as int]));
        let lp = dot(&e2, &g[k]);
        assert(in_range(lp * eta) && in_range(p[k as int] - lp * eta));
        let v = params[k] - lp * eta;
        out.push(v);
        k = k + 1;
    }
    assert(num_seq(out@) =~= step_spec(*unit, p, x, y, eta as int));
    out
}

} // verus!
