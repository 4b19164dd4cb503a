use vstd::prelude::*;
use crate::matrix::{in_range, num_mat, num_seq};
use crate::neuron::Neuron;

verus! {

/// The unit `p0 * x * x + p1 * x + p2`: one input, one output, three parameters.
pub struct QuadReg;

impl QuadReg {
    pub fn new() -> (r: QuadReg) {
        QuadReg
    }
}

impl Neuron for QuadReg {
    open spec fn wf(&self) -> bool {
        true
    }

    open spec fn input_dim(&self) -> nat {
        1
    }

    open spec fn output_dim(&self) -> nat {
        1
    }

    open spec fn param_dim(&self) -> nat {
        3
    }

    open spec fn eval_spec(&self, input: Seq<int>, params: Seq<int>) -> Seq<int> {
        seq![params[0] * input[0] * input[0] + params[1] * input[0] + params[2]]
    }

    open spec fn derivative_spec(&self, input: Seq<int>, params: Seq<int>) -> Seq<Seq<int>> {
        seq![seq![params[0] * 2 * input[0] + params[1]]]
    }

    open spec fn gradient_spec(&self, input: Seq<int>, params: Seq<int>) -> Seq<Seq<int>> {
        seq![seq![input[0] * input[0]], seq![input[0]], seq![1int]]
    }

    open spec fn eval_fits(&self, input: Seq<int>, params: Seq<int>) -> bool {
        &&& in_range(params[0] * input[0])
        &&& in_range(params[0] * input[0] * input[0])
        &&& in_range(params[1] * input[0])
        &&& in_range(params[0] * input[0] * input[0] + params[1] * input[0])
        &&& in_range(params[0] * input[0] * input[0] + params[1] * input[0] + params[2])
    }

    open spec fn derivative_fits(&self, input: Seq<int>, params: Seq<int>) -> bool {
        &&& in_range(params[0] * 2)
        &&& in_range(params[0] * 2 * input[0])
        &&& in_range(params[0] * 2 * input[0] + params[1])
    }

    open spec fn gradient_fits(&self, input: Seq<int>, params: Seq<int>) -> bool {
        in_range(input[0] * input[0])
    }

    proof fn lemma_shapes(&self, input: Seq<int>, params: Seq<int>) {
    }

    fn input_len(&self) -> (r: usize) {
        1
    }

    fn output_len(&self) -> (r: usize) {
        1
    }

    fn param_len(&self) -> (r: usize) {
        3
    }

    fn eval(&self, input: &Vec<i64>, params: &Vec<i64>) -> (r: Vec<i64>) {
        let r = vec![params[0] * input[0] * input[0] + params[1] * input[0] + params[2]];
        assert(num_seq(r@) =~= self.eval_spec(num_seq(input@), num_seq(params@)));
        r
    }

    fn derivative(&self, input: &Vec<i64>, params: &Vec<i64>) -> (r: Vec<Vec<i64>>) {
        let r = vec![vec![params[0] * 2 * input[0] + params[1]]];
        let ghost p = num_seq(params@);
        let ghost x = num_seq(input@);
        assert(num_seq(r@[0]@) =~= seq![p[0] * 2 * x[0] + p[1]]);
        assert(num_mat(r@) =~= self.derivative_spec(x, p));
        r
    }

    fn gradient(&self, input: &Vec<i64>, params: &Vec<i64>) -> (r: Vec<Vec<i64>>) {
        let r = vec![vec![input[0] * input[0]], vec![input[0]], vec![1]];
        let ghost x = num_seq(input@);
        assert(num_seq(r@[0]@) =~= seq![x[0] * x[0]]);
        assert(num_seq(r@[1]@) =~= seq![x[0]]);
        assert(num_seq(r@[2]@) =~= seq![1int]);
        assert(num_mat(r@) =~= self.gradient_spec(x, num_seq(params@)));
        r
    }
}

/// The derivative and the gradient of the quadratic unit are exact central
/// differences: moving the input `x` by `h` up and by `h` down changes the
/// output by `2 h` times the derivative, and moving parameter `k` so changes
/// it by `2 h` times row `k` of the gradient.
pub proof fn lemma_quad_central_difference(u: QuadReg, x: int, h: int, p: Seq<int>, k: int)
    requires
        p.len() == 3,
        0 <= k < 3,
    ensures
        u.eval_spec(seq![x + h], p)[0] - u.eval_spec(seq![x - h], p)[0] == 2 * h * u.derivative_spec(seq![x], p)[0][0],
        u.eval_spec(seq![x], p.update(k, p[k] + h))[0] - u.eval_spec(seq![x], p.update(k, p[k] - h))[0]
            == 2 * h * u.gradient_spec(seq![x], p)[k][0],
{
    assert(p[0] * (x + h) * (x + h) + p[1] * (x + h) - (p[0] * (x - h) * (x - h) + p[1] * (x - h))
        == 2 * h * (p[0] * 2 * x + p[1])) by (nonlinear_arith);
    let up = p.update(k, p[k] + h);
    let down = p.update(k, p[k] - h);
    let xs = seq![x];
    assert(xs[0] == x);
    assert(u.gradient_spec(xs, p)[0][0] == x * x && u.gradient_spec(xs, p)[1][0] == x && u.gradient_spec(xs, p)[2][0] == 1);
    assert(u.eval_spec(xs, up)[0] == up[0] * x * x + up[1] * x + up[2]);
    assert(u.eval_spec(xs, down)[0] == down[0] * x * x + down[1] * x + down[2]);
    if k == 0 {
        assert(up[0] == p[0] + h && up[1] == p[1] && up[2] == p[2]);
        assert(down[0] == p[0] - h && down[1] == p[1] && down[2] == p[2]);
        assert((p[0] + h) * x * x - (p[0] - h) * x * x == 2 * h * (x * x)) by (nonlinear_arith);
    } else if k == 1 {
        assert(up[0] == p[0] && up[1] == p[1] + h && up[2] == p[2]);
        assert(down[0] == p[0] && down[1] == p[1] - h && down[2] == p[2]);
        assert((p[1] + h) * x - (p[1] - h) * x == 2 * h * x) by (nonlinear_arith);
    } else {
        assert(up[0] == p[0] && up[1] == p[1] && up[2] == p[2] + h);
        assert(down[0] == p[0] && down[1] == p[1] && down[2] == p[2] - h);
    }
}

} // verus!
