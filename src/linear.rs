use vstd::prelude::*;
use crate::matrix::{in_range, num_mat, num_seq};
use crate::neuron::Neuron;

verus! {

/// The unit `p0 * x + p1`: one input, one output, two parameters.
pub struct LinearReg;

impl LinearReg {
    pub fn new() -> (r: LinearReg) {
        LinearReg
    }
}

impl Neuron for LinearReg {
    open spec fn wf(&self) -> bool {
        true
    }

    open spec fn input_dim(&self) -> nat {
        1
    }

    open spec fn output_dim(&self) -> nat {
        1
    }

    open spec fn param_dim(&self) -> nat {
        2
    }

    open spec fn eval_spec(&self, input: Seq<int>, params: Seq<int>) -> Seq<int> {
        seq![params[0] * input[0] + params[1]]
    }

    open spec fn derivative_spec(&self, input: Seq<int>, params: Seq<int>) -> Seq<Seq<int>> {
        seq![seq![params[0]]]
    }

    open spec fn gradient_spec(&self, input: Seq<int>, params: Seq<int>) -> Seq<Seq<int>> {
        seq![seq![input[0]], seq![1int]]
    }

    open spec fn eval_fits(&self, input: Seq<int>, params: Seq<int>) -> bool {
        in_range(params[0] * input[0]) && in_range(params[0] * input[0] + params[1])
    }

    open spec fn derivative_fits(&self, input: Seq<int>, params: Seq<int>) -> bool {
        true
    }

    open spec fn gradient_fits(&self, input: Seq<int>, params: Seq<int>) -> bool {
        true
    }

    proof fn lemma_shapes(&self, input: Seq<int>, params: Seq<int>) {
    }

    fn input_len(&self) -> (r: usize) {
        1
    }

    fn output_len(&self) -> (r: usize) {
        1
    }

    fn param_len(&self) -> (r: usize) {
        2
    }

    fn eval(&self, input: &Vec<i64>, params: &Vec<i64>) -> (r: Vec<i64>) {
        let r = vec![params[0] * input[0] + params[1]];
        assert(num_seq(r@) =~= self.eval_spec(num_seq(input@), num_seq(params@)));
        r
    }

    fn derivative(&self, input: &Vec<i64>, params: &Vec<i64>) -> (r: Vec<Vec<i64>>) {
        let r = vec![vec![params[0]]];
        assert(num_seq(r@[0]@) =~= seq![num_seq(params@)[0]]);
        assert(num_mat(r@) =~= self.derivative_spec(num_seq(input@), num_seq(params@)));
        r
    }

    fn gradient(&self, input: &Vec<i64>, params: &Vec<i64>) -> (r: Vec<Vec<i64>>) {
        let r = vec![vec![input[0]], vec![1]];
        assert(num_seq(r@[0]@) =~= seq![num_seq(input@)[0]]);
        assert(num_seq(r@[1]@) =~= seq![1int]);
        assert(num_mat(r@) =~= self.gradient_spec(num_seq(input@), num_seq(params@)));
        r
    }
}

/// The derivative and the gradient of the linear unit are exact: moving the
/// input `x` by `h` up and by `h` down changes the output by `2 h` times the
/// derivative, and moving parameter `k` so changes it by `2 h` times row `k`
/// of the gradient.
pub proof fn lemma_linear_central_difference(u: LinearReg, x: int, h: int, p: Seq<int>, k: int)
    requires
        p.len() == 2,
        0 <= k < 2,
    ensures
        u.eval_spec(seq![x + h], p)[0] - u.eval_spec(seq![x - h], p)[0] == 2 * h * u.derivative_spec(seq![x], p)[0][0],
        u.eval_spec(seq![x], p.update(k, p[k] + h))[0] - u.eval_spec(seq![x], p.update(k, p[k] - h))[0]
            == 2 * h * u.gradient_spec(seq![x], p)[k][0],
{
    assert(p[0] * (x + h) - p[0] * (x - h) == 2 * h * p[0]) by (nonlinear_arith);
    let up = p.update(k, p[k] + h);
    let down = p.update(k, p[k] - h);
    let xs = seq![x];
    assert(xs[0] == x);
    assert(u.gradient_spec(xs, p)[0][0] == x && u.gradient_spec(xs, p)[1][0] == 1);
    assert(u.eval_spec(xs, up)[0] == up[0] * x + up[1]);
    assert(u.eval_spec(xs, down)[0] == down[0] * x + down[1]);
    if k == 0 {
        assert(up[0] == p[0] + h && up[1] == p[1] && down[0] == p[0] - h && down[1] == p[1]);
        assert((p[0] + h) * x - (p[0] - h) * x == 2 * h * x) by (nonlinear_arith);
    } else {
        assert(up[0] == p[0] && up[1] == p[1] + h && down[0] == p[0] && down[1] == p[1] - h);
    }
}

} // verus!
